//! Worker configuration, all set at construction with conservative defaults.
use crate::backoff::Backoff;
use crate::error::{Error, ErrorView};
use crate::instants::Duration;
use crate::text::{decimal, decimal_text, joined, optional_text};
use crate::worker::registry::Registry;
use vstd::prelude::*;

verus! {

/// The default failure backstop: a high ceiling on retryable failures before a
/// job is forced to dead. It is a failsafe against a task that never recognizes a
/// permanent failure; a task is expected to end itself sooner via
/// `TaskError::permanent`.
pub const DEFAULT_BACKSTOP: u32 = 20;

/// The default anti-starvation ratio: higher tiers are favoured by roughly this
/// per tier, while lower tiers keep a guaranteed share.
pub const DEFAULT_PRIORITY_RATIO: u32 = 4;

/// The floor a configured claim lease is clamped to, in seconds. A near-zero lease
/// expires at or before the claim commits, so stale recovery could re-pend a job
/// mid-run (a guaranteed duplicate execution); one second keeps the lease in the
/// future.
pub const MIN_LEASE_SECS: u64 = 1;

/// The ceiling a configured claim lease is clamped to, in seconds: 365 days. The
/// lease feeds a PostgreSQL `interval '1 second' * lease_secs`, which overflows for
/// absurd values; this stays far below that bound while exceeding any real lease.
pub const MAX_LEASE_SECS: u64 = 31_536_000;

/// The floor a configured poll ceiling is clamped to, in milliseconds. A zero
/// `poll_max` makes the idle wait zero, busy-spinning the claim loop; one
/// millisecond keeps it bounded.
pub const MIN_POLL_MAX_MILLIS: u64 = 1;

/// A lease held inside `[1s, 365d]`, in nanoseconds.
pub open spec fn clamped_lease(nanos: nat) -> nat {
    if nanos < 1_000_000_000 {
        1_000_000_000
    } else if nanos > 31_536_000_000_000_000 {
        31_536_000_000_000_000
    } else {
        nanos
    }
}

/// Bound a claim lease to the supported range, shared by the worker-default setter
/// and the per-task `Task::lease` override so both reject the same degenerate
/// values: a near-zero lease expires before the run settles (letting another worker
/// reclaim it mid-run), and an absurd one overflows the backing
/// `interval '1 second' * lease_secs` arithmetic.
pub fn clamp_lease(lease: Duration) -> (r: Duration)
    ensures
        r.nanos() == clamped_lease(lease.nanos()),
        clamped_lease(lease.nanos()) == lease.nanos() ==> r == lease,
{
    proof {
        assert(31_536_000u64 * 1_000_000_000 == 31_536_000_000_000_000);
    }
    let floored = lease.longest(Duration::from_secs(MIN_LEASE_SECS));
    floored.shortest(Duration::from_secs(MAX_LEASE_SECS))
}

/// A clamped lease is never degenerate, and clamping twice is clamping once.
pub proof fn clamped_lease_is_in_range(nanos: nat)
    ensures
        1_000_000_000 <= clamped_lease(nanos) <= 31_536_000_000_000_000,
        clamped_lease(clamped_lease(nanos)) == clamped_lease(nanos),
{
}

/// How a handler panic is settled.
///
/// A panic is caught at the task boundary and turned into a failed execution; this
/// chooses which kind. The default, [`PanicPolicy::Retry`], is consistent with how
/// a mid-run process crash is handled (recovered as a failed execution with
/// backoff) and with the retryable-by-default error model, so a transient panic
/// recovers and a deterministic one still reaches dead at the backstop. Under a
/// build that aborts on panic the process ends instead, and either policy falls to
/// lease recovery.
#[derive(Debug, Clone, Copy, PartialEq, Eq, Structural)]
pub enum PanicPolicy {
    /// Settle a panic as a retryable failure, scheduled with backoff and bounded
    /// by the backstop. The default.
    Retry,
    /// Settle a panic as a permanent failure: the job moves straight to dead.
    Dead,
}

/// Worker configuration.
#[derive(Debug, Clone, Copy)]
pub struct WorkerConfig {
    concurrency: usize,
    poll_max: Duration,
    lease: Duration,
    shutdown_timeout: Duration,
    backoff: Backoff,
    backstop: Option<u32>,
    priority_ratio: Option<u32>,
    panic_policy: PanicPolicy,
}

/// The values of a [`WorkerConfig`].
pub struct ConfigView {
    /// The maximum number of jobs run concurrently.
    pub concurrency: usize,
    /// The longest idle wait.
    pub poll_max: Duration,
    /// The default claim lease.
    pub lease: Duration,
    /// The grace window on shutdown.
    pub shutdown_timeout: Duration,
    /// The default retry backoff.
    pub backoff: Backoff,
    /// The failure backstop.
    pub backstop: Option<u32>,
    /// The anti-starvation ratio.
    pub priority_ratio: Option<u32>,
    /// How a panic is settled.
    pub panic_policy: PanicPolicy,
}

/// Whether a configuration can run: at least one slot, a wait that is never zero,
/// and a lease inside the supported range.
pub open spec fn runnable(config: ConfigView) -> bool {
    &&& config.concurrency >= 1
    &&& config.poll_max.nanos() >= 1_000_000
    &&& 1_000_000_000 <= config.lease.nanos() <= 31_536_000_000_000_000
}

impl View for WorkerConfig {
    type V = ConfigView;

    closed spec fn view(&self) -> ConfigView {
        ConfigView {
            concurrency: self.concurrency,
            poll_max: self.poll_max,
            lease: self.lease,
            shutdown_timeout: self.shutdown_timeout,
            backoff: self.backoff,
            backstop: self.backstop,
            priority_ratio: self.priority_ratio,
            panic_policy: self.panic_policy,
        }
    }
}

/// The default in-flight bound for a number of cores.
pub open spec fn default_slots(cores: usize) -> int {
    let half = cores as int / 2;
    if half < 1 {
        1
    } else if half > 8 {
        8
    } else {
        half
    }
}

/// The default in-flight bound: `max(1, min(8, cores / 2))`.
///
/// A safety floor rather than an optimum: low enough that thread-blocking
/// handlers cannot starve the runtime on a small host, capped so it stays modest
/// on a large one. Raise it for I/O-bound work.
pub fn default_concurrency(cores: usize) -> (r: usize)
    ensures
        r == default_slots(cores),
{
    let half: usize = cores / 2;
    if half < 1 {
        1
    } else if half > 8 {
        8
    } else {
        half
    }
}

impl WorkerConfig {
    #[verifier::type_invariant]
    spec fn sane(self) -> bool {
        runnable(self@)
    }

    /// The default configuration on a host with that many cores.
    pub fn for_cores(cores: usize) -> (r: WorkerConfig)
        ensures
            r@.concurrency == default_slots(cores),
            r@.poll_max.nanos() == 30 * 1_000_000_000,
            r@.lease.nanos() == 900 * 1_000_000_000,
            r@.shutdown_timeout.nanos() == 30 * 1_000_000_000,
            r@.backoff.base_delay().nanos() == 500_000_000,
            r@.backoff.ceiling().nanos() == 120_000_000_000,
            r@.backstop == Some(20u32),
            r@.priority_ratio == Some(4u32),
            r@.panic_policy is Retry,
    {
        WorkerConfig {
            concurrency: default_concurrency(cores),
            poll_max: Duration::from_secs(30),
            lease: Duration::from_secs(900),
            shutdown_timeout: Duration::from_secs(30),
            backoff: Backoff::default(),
            backstop: Some(DEFAULT_BACKSTOP),
            priority_ratio: Some(DEFAULT_PRIORITY_RATIO),
            panic_policy: PanicPolicy::Retry,
        }
    }

    /// The maximum number of jobs run concurrently. Every configuration can run.
    pub fn concurrency(&self) -> (r: usize)
        ensures
            r == self@.concurrency,
            runnable(self@),
    {
        proof {
            use_type_invariant(self);
        }
        self.concurrency
    }

    /// The upper bound on an idle wait.
    pub fn poll_max(&self) -> (r: Duration)
        ensures
            r == self@.poll_max,
    {
        self.poll_max
    }

    /// The default claim lease.
    pub fn lease(&self) -> (r: Duration)
        ensures
            r == self@.lease,
    {
        self.lease
    }

    /// The grace window handlers get to wind down on a graceful shutdown.
    pub fn shutdown_timeout(&self) -> (r: Duration)
        ensures
            r == self@.shutdown_timeout,
    {
        self.shutdown_timeout
    }

    /// The default retry backoff.
    pub fn backoff(&self) -> (r: Backoff)
        ensures
            r == self@.backoff,
    {
        self.backoff
    }

    /// The failure backstop.
    pub fn backstop(&self) -> (r: Option<u32>)
        ensures
            r == self@.backstop,
    {
        self.backstop
    }

    /// The anti-starvation ratio.
    pub fn priority_ratio(&self) -> (r: Option<u32>)
        ensures
            r == self@.priority_ratio,
    {
        self.priority_ratio
    }

    /// How a handler panic is settled.
    pub fn panic_policy(&self) -> (r: PanicPolicy)
        ensures
            r == self@.panic_policy,
    {
        self.panic_policy
    }
}

/// A per-kind cap of at least one.
pub open spec fn at_least_one(n: usize) -> usize {
    if n == 0 {
        1
    } else {
        n
    }
}

/// Builds a [`Worker`] over registered entries of type `E`, each knowing how to
/// deserialize and run one kind.
pub struct WorkerBuilder<E> {
    registry: Registry<E>,
    config: WorkerConfig,
}

impl<E> WorkerBuilder<E> {
    /// The registered entries.
    pub closed spec fn registered(self) -> Registry<E> {
        self.registry
    }

    /// The configuration so far.
    pub closed spec fn settings(self) -> ConfigView {
        self.config@
    }

    /// The configuration so far.
    pub fn config(&self) -> (r: &WorkerConfig)
        ensures
            r@ == self.settings(),
            runnable(r@),
    {
        proof {
            use_type_invariant(&self.config);
        }
        &self.config
    }

    /// Register a handler entry for a kind. This both teaches the worker how to
    /// run the kind and adds it to the claim filter.
    #[must_use]
    pub fn register(self, kind: &str, entry: E) -> (r: Self)
        ensures
            r.registered()@ == self.registered()@.insert(kind@, (entry, None)),
            r.settings() == self.settings(),
    {
        let mut registry = self.registry;
        registry.register(kind, entry, None);
        WorkerBuilder { registry, config: self.config }
    }

    /// Register a handler entry with a per-kind concurrency cap of `max`.
    ///
    /// The worker runs at most `max` jobs of this kind at once, typically because
    /// each holds a slot in a small local resource. The cap is local to this
    /// worker; across several workers the effective limit is `max` times the
    /// number of workers. At-cap kinds are excluded from claiming until one of
    /// their in-flight jobs settles, so their jobs stay pending rather than
    /// claimed-and-idle.
    ///
    /// A `max` of `0` is clamped to `1`; a zero cap would exclude the kind from
    /// claiming entirely.
    #[must_use]
    pub fn register_capped(self, kind: &str, entry: E, max: usize) -> (r: Self)
        ensures
            r.registered()@ == self.registered()@.insert(kind@, (entry, Some(at_least_one(max)))),
            r.settings() == self.settings(),
    {
        let mut registry = self.registry;
        let cap: usize = if max == 0 {
            1
        } else {
            max
        };
        registry.register(kind, entry, Some(cap));
        WorkerBuilder { registry, config: self.config }
    }

    /// The maximum number of jobs run concurrently. Defaults to
    /// `max(1, min(8, cores / 2))`; a value of `0` is clamped to `1`.
    #[must_use]
    pub fn concurrency(self, n: usize) -> (r: Self)
        ensures
            r.settings() == (ConfigView { concurrency: at_least_one(n), ..self.settings() }),
            r.registered() == self.registered(),
    {
        proof {
            use_type_invariant(&self.config);
        }
        let concurrency: usize = if n == 0 {
            1
        } else {
            n
        };
        WorkerBuilder {
            registry: self.registry,
            config: WorkerConfig { concurrency, ..self.config },
        }
    }

    /// The upper bound on how long the loop waits when nothing is scheduled.
    /// Defaults to 30 seconds. A value below 1ms is clamped up to 1ms so the idle
    /// loop always waits rather than busy-spinning its claim queries.
    #[must_use]
    pub fn poll_max(self, d: Duration) -> (r: Self)
        ensures
            r.settings() == (ConfigView { poll_max: r.settings().poll_max, ..self.settings() }),
            r.settings().poll_max.nanos() == (if d.nanos() < 1_000_000 {
                1_000_000
            } else {
                d.nanos()
            }),
            r.registered() == self.registered(),
    {
        proof {
            use_type_invariant(&self.config);
        }
        let poll_max = d.longest(Duration::from_millis(MIN_POLL_MAX_MILLIS));
        WorkerBuilder { registry: self.registry, config: WorkerConfig { poll_max, ..self.config } }
    }

    /// The default claim lease. Defaults to 15 minutes; a task may request a
    /// longer one through `Task::lease`.
    ///
    /// Clamped to `[1s, 365d]`: a near-zero lease would expire before the job is
    /// processed and let another worker reclaim it mid-run (duplicate execution),
    /// and an absurdly large one overflows the backing interval arithmetic.
    #[must_use]
    pub fn lease(self, d: Duration) -> (r: Self)
        ensures
            r.settings() == (ConfigView { lease: r.settings().lease, ..self.settings() }),
            r.settings().lease.nanos() == clamped_lease(d.nanos()),
            r.registered() == self.registered(),
    {
        proof {
            use_type_invariant(&self.config);
        }
        let lease = clamp_lease(d);
        WorkerBuilder { registry: self.registry, config: WorkerConfig { lease, ..self.config } }
    }

    /// The grace window handlers get to wind down on a graceful shutdown before
    /// stragglers are force-aborted and released. Defaults to 30 seconds.
    #[must_use]
    pub fn shutdown_timeout(self, d: Duration) -> (r: Self)
        ensures
            r.settings() == (ConfigView { shutdown_timeout: d, ..self.settings() }),
            r.registered() == self.registered(),
    {
        proof {
            use_type_invariant(&self.config);
        }
        WorkerBuilder {
            registry: self.registry,
            config: WorkerConfig { shutdown_timeout: d, ..self.config },
        }
    }

    /// The worker-level default retry backoff (base and cap). A task may override
    /// it through `Task::backoff`. Defaults to a 500ms base and 2-minute cap.
    #[must_use]
    pub fn backoff(self, backoff: Backoff) -> (r: Self)
        ensures
            r.settings() == (ConfigView { backoff, ..self.settings() }),
            r.registered() == self.registered(),
    {
        proof {
            use_type_invariant(&self.config);
        }
        WorkerBuilder { registry: self.registry, config: WorkerConfig { backoff, ..self.config } }
    }

    /// The absolute backstop on retryable failures before a job is forced to dead.
    ///
    /// `Some(n)` caps a job at `n` failed executions; `None` disables the
    /// backstop, leaving the give-up decision entirely to the task. Defaults to a
    /// high value so a task's own `TaskError::permanent` is the primary mechanism.
    #[must_use]
    pub fn backstop(self, backstop: Option<u32>) -> (r: Self)
        ensures
            r.settings() == (ConfigView { backstop, ..self.settings() }),
            r.registered() == self.registered(),
    {
        proof {
            use_type_invariant(&self.config);
        }
        WorkerBuilder { registry: self.registry, config: WorkerConfig { backstop, ..self.config } }
    }

    /// The anti-starvation ratio for priority scheduling.
    ///
    /// `Some(r)` favours higher tiers by roughly `r` per tier while guaranteeing
    /// lower tiers a nonzero share, by periodically reserving a claim for them.
    /// `None` is strict priority: higher tiers always win and a sustained stream
    /// of them can starve lower tiers indefinitely. Defaults to `Some(4)`.
    #[must_use]
    pub fn priority_ratio(self, ratio: Option<u32>) -> (r: Self)
        ensures
            r.settings() == (ConfigView { priority_ratio: ratio, ..self.settings() }),
            r.registered() == self.registered(),
    {
        proof {
            use_type_invariant(&self.config);
        }
        WorkerBuilder {
            registry: self.registry,
            config: WorkerConfig { priority_ratio: ratio, ..self.config },
        }
    }

    /// How a handler panic is settled. Defaults to [`PanicPolicy::Retry`].
    ///
    /// [`PanicPolicy::Dead`] sends a panicking job straight to dead instead, for
    /// deployments that treat a panic as an unrecoverable programmer error rather
    /// than a transient failure.
    #[must_use]
    pub fn panic_policy(self, policy: PanicPolicy) -> (r: Self)
        ensures
            r.settings() == (ConfigView { panic_policy: policy, ..self.settings() }),
            r.registered() == self.registered(),
    {
        proof {
            use_type_invariant(&self.config);
        }
        WorkerBuilder {
            registry: self.registry,
            config: WorkerConfig { panic_policy: policy, ..self.config },
        }
    }

    /// Finish building the worker, which claims under the given identity.
    pub fn build(self, identity: String) -> (r: Worker<E>)
        ensures
            r.registered() == self.registered(),
            r.settings() == self.settings(),
            r.name() == identity@,
    {
        Worker { registry: self.registry, config: self.config, identity }
    }
}

/// A worker that claims, runs, and settles jobs for its registered kinds.
pub struct Worker<E> {
    registry: Registry<E>,
    config: WorkerConfig,
    identity: String,
}

impl<E> Worker<E> {
    /// The registered entries.
    pub closed spec fn registered(self) -> Registry<E> {
        self.registry
    }

    /// The configuration.
    pub closed spec fn settings(self) -> ConfigView {
        self.config@
    }

    /// The identity claims are made under.
    pub closed spec fn name(self) -> Seq<char> {
        self.identity@
    }

    /// Start building a worker on a host with that many cores.
    pub fn builder(cores: usize) -> (r: WorkerBuilder<E>)
        ensures
            r.registered()@ == Map::<Seq<char>, (E, Option<usize>)>::empty(),
            r.settings().concurrency == default_slots(cores),
            r.settings().poll_max.nanos() == 30 * 1_000_000_000,
            r.settings().lease.nanos() == 900 * 1_000_000_000,
            r.settings().shutdown_timeout.nanos() == 30 * 1_000_000_000,
            r.settings().backoff.base_delay().nanos() == 500_000_000,
            r.settings().backoff.ceiling().nanos() == 120_000_000_000,
            r.settings().backstop == Some(20u32),
            r.settings().priority_ratio == Some(4u32),
            r.settings().panic_policy is Retry,
    {
        WorkerBuilder { registry: Registry::new(), config: WorkerConfig::for_cores(cores) }
    }

    /// The registered entries.
    pub fn registry(&self) -> (r: &Registry<E>)
        ensures
            *r == self.registered(),
    {
        &self.registry
    }

    /// The configuration.
    pub fn config(&self) -> (r: &WorkerConfig)
        ensures
            r@ == self.settings(),
            runnable(r@),
    {
        proof {
            use_type_invariant(&self.config);
        }
        &self.config
    }

    /// The identity claims are made under.
    pub fn identity(&self) -> (r: &str)
        ensures
            r@ == self.name(),
    {
        self.identity.as_str()
    }
}

/// The host part of a worker identity: the given name, or `unknown` when there is
/// none or it is empty.
pub open spec fn host_name(host: Option<Seq<char>>) -> Seq<char> {
    match host {
        Some(host) => if host.len() == 0 {
            "unknown"@
        } else {
            host
        },
        None => "unknown"@,
    }
}

/// The `host:pid` identity recorded on every claim, for diagnostics.
pub fn worker_identity(host: Option<String>, pid: u32) -> (r: String)
    ensures
        r@ == host_name(optional_text(host)) + ":"@ + decimal(pid as nat),
{
    let named = match host {
        Some(host) => if host.as_str().is_empty() {
            "unknown".to_owned()
        } else {
            host
        },
        None => "unknown".to_owned(),
    };
    let head = joined(named.as_str(), ":");
    joined(head.as_str(), decimal_text(pid as u64).as_str())
}

/// Clamping leaves a lease within the range as it is and moves any other to the nearer
/// end.
pub proof fn sensible_leases_are_kept(lease: Duration, clamped: Duration)
    requires
        call_ensures(clamp_lease, (lease,), clamped),
    ensures
        1_000_000_000 <= lease.nanos() <= 31_536_000_000_000_000 ==> clamped == lease,
        lease.nanos() < 1_000_000_000 ==> clamped.nanos() == 1_000_000_000,
        lease.nanos() > 31_536_000_000_000_000 ==> clamped.nanos() == 31_536_000_000_000_000,
{
}

/// The default in-flight bound is half the cores where that is one to eight, and is never
/// outside that range.
pub proof fn default_concurrency_is_half_the_cores(cores: usize, slots: usize)
    requires
        call_ensures(default_concurrency, (cores,), slots),
    ensures
        1 <= slots <= 8,
        2 <= cores <= 17 ==> 2 * slots <= cores <= 2 * slots + 1,
        cores < 2 ==> slots == 1,
        cores > 17 ==> slots == 8,
{
}

/// A worker's identity ends with its process, after its host where that is known.
pub proof fn identities_name_host_and_process(host: Option<String>, pid: u32, identity: String)
    requires
        call_ensures(worker_identity, (host, pid), identity),
    ensures
        identity@.len() > decimal(pid as nat).len(),
        identity@.skip(identity@.len() - decimal(pid as nat).len()) == decimal(pid as nat),
        host matches Some(name) ==> name@.len() > 0 ==> identity@.len() == name@.len() + 1 + decimal(
            pid as nat,
        ).len() && identity@.take(name@.len() as int) == name@,
{
    reveal_strlit(":");
    let named = host_name(optional_text(host));
    let number = decimal(pid as nat);
    assert(identity@ == named + ":"@ + number);
    assert(identity@.skip(identity@.len() - number.len()) =~= number);
    if let Some(name) = host {
        if name@.len() > 0 {
            assert(identity@.take(name@.len() as int) =~= name@);
        }
    }
}

/// A kind that was registered is dispatched to the entry it was registered with, and every
/// other kind as it was before; a kind that was not is refused by its name.
pub proof fn registered_kinds_are_dispatched<E>(
    builder: WorkerBuilder<E>,
    kind: &str,
    entry: E,
    registered: WorkerBuilder<E>,
    identity: String,
    worker: Worker<E>,
    asked: &str,
    found: Result<&E, Error>,
)
    requires
        call_ensures(WorkerBuilder::<E>::register, (builder, kind, entry), registered),
        call_ensures(WorkerBuilder::<E>::build, (registered, identity), worker),
        call_ensures(Registry::<E>::dispatch, (&worker.registered(), asked), found),
    ensures
        asked@ == kind@ ==> (found matches Ok(run) && *run == entry),
        asked@ != kind@ && builder.registered()@.contains_key(asked@) ==> (found matches Ok(run)
            && *run == builder.registered()@[asked@].0),
        asked@ != kind@ && !builder.registered()@.contains_key(asked@) ==> (
        found matches Err(error) && error@ == ErrorView::UnknownKind(asked@)),
        worker.settings() == builder.settings(),
        worker.name() == identity@,
{
}

/// A kind registered with a cap is capped at it, or at one where it is zero.
pub proof fn caps_are_kept<E>(
    builder: WorkerBuilder<E>,
    kind: &str,
    entry: E,
    max: usize,
    registered: WorkerBuilder<E>,
    cap: Option<usize>,
)
    requires
        call_ensures(WorkerBuilder::<E>::register_capped, (builder, kind, entry, max), registered),
        call_ensures(Registry::<E>::cap, (&registered.registered(), kind), cap),
    ensures
        max > 0 ==> cap == Some(max),
        max == 0 ==> cap == Some(1usize),
{
}

} // verus!
