//! What the queue promises of every state and every sequence of operations.
//!
//! Each promise is a theorem about the transitions of [`crate::lifecycle`].
use crate::instants::{Duration, Timestamp};
use crate::lifecycle::{
    claim_step, claimable, claimed_ahead, claims_next, cleaned_ids, cleanup_step, enqueue_step,
    extend_step, history_page, holds_claim, journal_of, journal_without, lease_expired, lists,
    merge_applies, merge_step, merged_row, names_kind, older, passes, recover_applies,
    recover_step, recovered_row, row_agrees, row_limit, settle_applies, settle_step, settled_row,
    QueueState,
};
use crate::store::{
    AppendView, CriteriaView, FilterView, JobView, JournalOutcome, JournalView, MergePayload,
    NewJobView, Settlement,
};
use vstd::prelude::*;

verus! {

proof fn lemma_append_keeps_valid(state: QueueState, id: ulid::Ulid, entry: AppendView)
    requires
        state.valid(),
        state.jobs.contains_key(id),
        state.next_entry < i64::MAX,
    ensures
        state.appended(id, entry).valid(),
{
    let after = state.appended(id, entry);
    assert forall|i: int, j: int| 0 <= i < j < after.journal.len() implies (
    #[trigger] after.journal[i]).id < (#[trigger] after.journal[j]).id by {
        assert(after.journal[i] == state.journal[i]);
        if j < state.journal.len() {
            assert(after.journal[j] == state.journal[j]);
        }
    }
    assert forall|i: int| 0 <= i < after.journal.len() implies (#[trigger] after.journal[i]).id
        < after.next_entry && after.jobs.contains_key(after.journal[i].job_id) by {
        if i < state.journal.len() {
            assert(after.journal[i] == state.journal[i]);
        }
    }
}

proof fn lemma_put_keeps_valid(state: QueueState, job: JobView)
    requires
        state.valid(),
        row_agrees(job),
    ensures
        state.with_job(job).valid(),
{
}

/// Enqueueing keeps the state valid.
pub proof fn enqueue_keeps_valid(state: QueueState, job: NewJobView)
    requires
        state.valid(),
    ensures
        enqueue_step(state, job).valid(),
{
}

/// Claiming keeps the state valid.
pub proof fn claim_keeps_valid(
    state: QueueState,
    kinds: Seq<Seq<char>>,
    floor: i16,
    now: Timestamp,
    id: ulid::Ulid,
    lease: Duration,
    by: Seq<char>,
)
    requires
        state.valid(),
        claims_next(state, kinds, floor, now, id),
    ensures
        claim_step(state, id, now, lease, by).valid(),
{
}

/// Settling keeps the state valid, whether or not the settlement applies.
pub proof fn settle_keeps_valid(
    state: QueueState,
    id: ulid::Ulid,
    by: Seq<char>,
    run_no: u32,
    settlement: Settlement,
    entry: AppendView,
)
    requires
        state.valid(),
        state.next_entry < i64::MAX,
    ensures
        settle_step(state, id, by, run_no, settlement, entry).valid(),
{
    if settle_applies(state, id, by, run_no) {
        let job = settled_row(state.jobs[id], settlement);
        lemma_put_keeps_valid(state, job);
        lemma_append_keeps_valid(state.with_job(job), id, entry);
    }
}

/// Recovering keeps the state valid, whether or not the recovery applies.
pub proof fn recover_keeps_valid(
    state: QueueState,
    id: ulid::Ulid,
    visible_at: Timestamp,
    failure_count: i32,
    run_no: u32,
    entry: AppendView,
    now: Timestamp,
)
    requires
        state.valid(),
        state.next_entry < i64::MAX,
    ensures
        recover_step(state, id, visible_at, failure_count, run_no, entry, now).valid(),
{
    if recover_applies(state, id, run_no, now) {
        let job = recovered_row(state.jobs[id], visible_at, failure_count);
        lemma_put_keeps_valid(state, job);
        lemma_append_keeps_valid(state.with_job(job), id, entry);
    }
}

/// Extending a lease keeps the state valid.
pub proof fn extend_keeps_valid(
    state: QueueState,
    id: ulid::Ulid,
    by: Seq<char>,
    run_no: u32,
    lease: Duration,
    now: Timestamp,
)
    requires
        state.valid(),
    ensures
        extend_step(state, id, by, run_no, lease, now).valid(),
{
}

/// Merging keeps the state valid, whether or not the merge applies.
pub proof fn merge_keeps_valid(
    state: QueueState,
    id: ulid::Ulid,
    update: Option<MergePayload>,
    entry: AppendView,
)
    requires
        state.valid(),
        state.next_entry < i64::MAX,
    ensures
        merge_step(state, id, update, entry).valid(),
{
    if merge_applies(state, id) {
        let job = merged_row(state.jobs[id], update);
        lemma_put_keeps_valid(state, job);
        lemma_append_keeps_valid(state.with_job(job), id, entry);
    }
}

proof fn lemma_without_is_part(journal: Seq<JournalView>, gone: Set<ulid::Ulid>)
    ensures
        forall|i: int|
            0 <= i < journal_without(journal, gone).len() ==> journal.contains(
                #[trigger] journal_without(journal, gone)[i],
            ) && !gone.contains(journal_without(journal, gone)[i].job_id),
    decreases journal.len(),
{
    if journal.len() > 0 {
        let shorter = journal.drop_last();
        lemma_without_is_part(shorter, gone);
        let kept = journal_without(journal, gone);
        assert forall|i: int| 0 <= i < kept.len() implies journal.contains(#[trigger] kept[i])
            && !gone.contains(kept[i].job_id) by {
            if i < journal_without(shorter, gone).len() {
                let e = journal_without(shorter, gone)[i];
                assert(kept[i] == e);
                let k = shorter.index_of(e);
                assert(shorter.contains(e));
                assert(journal[k] == e);
            } else {
                assert(kept[i] == journal[journal.len() - 1]);
            }
        }
    }
}

proof fn lemma_without_ascends(journal: Seq<JournalView>, gone: Set<ulid::Ulid>)
    requires
        forall|i: int, j: int|
            0 <= i < j < journal.len() ==> (#[trigger] journal[i]).id < (#[trigger] journal[j]).id,
    ensures
        forall|i: int, j: int|
            0 <= i < j < journal_without(journal, gone).len() ==> (#[trigger] journal_without(
                journal,
                gone,
            )[i]).id < (#[trigger] journal_without(journal, gone)[j]).id,
    decreases journal.len(),
{
    if journal.len() > 0 {
        let shorter = journal.drop_last();
        assert forall|i: int, j: int| 0 <= i < j < shorter.len() implies (#[trigger] shorter[i]).id
            < (#[trigger] shorter[j]).id by {
            assert(shorter[i] == journal[i] && shorter[j] == journal[j]);
        }
        lemma_without_ascends(shorter, gone);
        lemma_without_is_part(shorter, gone);
        let kept = journal_without(journal, gone);
        let rest = journal_without(shorter, gone);
        assert forall|i: int, j: int| 0 <= i < j < kept.len() implies (#[trigger] kept[i]).id < (
        #[trigger] kept[j]).id by {
            assert(kept[i] == rest[i]);
            if j < rest.len() {
                assert(kept[j] == rest[j]);
            } else {
                let k = shorter.index_of(rest[i]);
                assert(shorter.contains(rest[i]));
                assert(journal[k] == rest[i]);
                assert(journal[journal.len() - 1] == kept[j]);
            }
        }
    }
}

/// Cleaning up keeps the state valid.
pub proof fn cleanup_keeps_valid(state: QueueState, criteria: CriteriaView)
    requires
        state.valid(),
    ensures
        cleanup_step(state, criteria).valid(),
{
    let gone = cleaned_ids(state, criteria);
    let after = cleanup_step(state, criteria);
    lemma_without_is_part(state.journal, gone);
    lemma_without_ascends(state.journal, gone);
    assert forall|i: int| 0 <= i < after.journal.len() implies after.jobs.contains_key(
        (#[trigger] after.journal[i]).job_id,
    ) && after.journal[i].id < after.next_entry by {
        let k = state.journal.index_of(after.journal[i]);
        assert(state.journal.contains(after.journal[i]));
        assert(state.journal[k] == after.journal[i]);
    }
    assert forall|id: ulid::Ulid| #[trigger] after.jobs.contains_key(id) implies after.jobs[id].id
        == id && row_agrees(after.jobs[id]) by {
        assert(state.jobs.contains_key(id));
    }
}

/// A claim has one answer: no two jobs are both next.
pub proof fn claim_is_determined(
    state: QueueState,
    kinds: Seq<Seq<char>>,
    floor: i16,
    now: Timestamp,
    a: ulid::Ulid,
    b: ulid::Ulid,
)
    requires
        claims_next(state, kinds, floor, now, a),
        claims_next(state, kinds, floor, now, b),
    ensures
        a == b,
{
    if a != b {
        assert(claimed_ahead(state.jobs[a], state.jobs[b]));
        assert(claimed_ahead(state.jobs[b], state.jobs[a]));
    }
}

/// A claimed job is out of reach of every further claim, whatever its kinds, floor,
/// and time, and no other job is touched: no two workers hold one job.
pub proof fn claim_excludes_others(
    state: QueueState,
    id: ulid::Ulid,
    now: Timestamp,
    lease: Duration,
    by: Seq<char>,
    kinds: Seq<Seq<char>>,
    floor: i16,
    later: Timestamp,
)
    requires
        state.valid(),
        state.jobs.contains_key(id),
    ensures
        !claims_next(claim_step(state, id, now, lease, by), kinds, floor, later, id),
        forall|other: ulid::Ulid|
            other != id && state.jobs.contains_key(other) ==> #[trigger] claim_step(
                state,
                id,
                now,
                lease,
                by,
            ).jobs[other] == state.jobs[other],
{
}

/// A claim hands out only a job of a kind it was asked for.
pub proof fn claimed_kind_was_asked_for(
    state: QueueState,
    kinds: Seq<Seq<char>>,
    floor: i16,
    now: Timestamp,
    id: ulid::Ulid,
    lease: Duration,
    by: Seq<char>,
)
    requires
        state.valid(),
        claims_next(state, kinds, floor, now, id),
    ensures
        names_kind(kinds, claim_step(state, id, now, lease, by).jobs[id].kind),
{
}

/// A more urgent eligible job is always claimed before a less urgent one, and an
/// older before a newer one of its tier.
pub proof fn claim_order_is_priority_then_age(
    state: QueueState,
    kinds: Seq<Seq<char>>,
    floor: i16,
    now: Timestamp,
    id: ulid::Ulid,
    other: ulid::Ulid,
)
    requires
        claims_next(state, kinds, floor, now, id),
        state.jobs.contains_key(other),
        claimable(state.jobs[other], kinds, floor, now),
    ensures
        state.jobs[id].priority <= state.jobs[other].priority,
        state.jobs[id].priority == state.jobs[other].priority
            ==> state.jobs[id].created_at.nanos() <= state.jobs[other].created_at.nanos(),
{
}

/// A floor reserves the claim for its tier and the less urgent ones: what is
/// claimed under it is never more urgent.
pub proof fn floor_reserves_lower_tiers(
    state: QueueState,
    kinds: Seq<Seq<char>>,
    floor: i16,
    now: Timestamp,
    id: ulid::Ulid,
)
    requires
        claims_next(state, kinds, floor, now, id),
    ensures
        state.jobs[id].priority >= floor,
        state.jobs[id].visible_at.nanos() <= now.nanos(),
{
}

/// A run whose claim epoch has passed changes nothing: neither settlement nor lease
/// extension applies, even under the same worker identity.
pub proof fn stale_run_changes_nothing(
    state: QueueState,
    id: ulid::Ulid,
    by: Seq<char>,
    run_no: u32,
    settlement: Settlement,
    entry: AppendView,
    lease: Duration,
    now: Timestamp,
)
    requires
        state.jobs.contains_key(id) ==> state.jobs[id].run_count != run_no,
    ensures
        settle_step(state, id, by, run_no, settlement, entry) == state,
        extend_step(state, id, by, run_no, lease, now) == state,
{
}

/// A job recovered from a slow worker and claimed again, by that worker or another,
/// cannot be settled by the slow run.
pub proof fn reclaimed_job_ignores_the_first_run(
    state: QueueState,
    id: ulid::Ulid,
    by: Seq<char>,
    run_no: u32,
    recovery: AppendView,
    visible_at: Timestamp,
    failure_count: i32,
    now: Timestamp,
    lease: Duration,
    again: Seq<char>,
    settlement: Settlement,
    entry: AppendView,
)
    requires
        state.valid(),
        recover_applies(state, id, run_no, now),
        run_no < u32::MAX,
    ensures
        ({
            let recovered = recover_step(
                state,
                id,
                visible_at,
                failure_count,
                run_no,
                recovery,
                now,
            );
            let reclaimed = claim_step(recovered, id, now, lease, again);
            &&& settle_step(recovered, id, by, run_no, settlement, entry) == recovered
            &&& settle_step(reclaimed, id, by, run_no, settlement, entry) == reclaimed
            &&& holds_claim(reclaimed.jobs[id], again, (run_no + 1) as u32)
        }),
{
}

/// A claim is settled at most once: after a settlement applied, a second one of the
/// same run changes nothing, and so does a recovery.
pub proof fn settlement_applies_once(
    state: QueueState,
    id: ulid::Ulid,
    by: Seq<char>,
    run_no: u32,
    settlement: Settlement,
    entry: AppendView,
    second: Settlement,
    second_entry: AppendView,
    visible_at: Timestamp,
    failure_count: i32,
    now: Timestamp,
)
    requires
        state.valid(),
        settle_applies(state, id, by, run_no),
    ensures
        ({
            let settled = settle_step(state, id, by, run_no, settlement, entry);
            &&& settle_step(settled, id, by, run_no, second, second_entry) == settled
            &&& recover_step(
                settled,
                id,
                visible_at,
                failure_count,
                run_no,
                second_entry,
                now,
            ) == settled
        }),
{
}

/// A settlement applies exactly when a stored job is still claimed by the worker at
/// the claim epoch. Applied, it appends exactly the given entry to that job's journal,
/// ends the claim, and touches no other job; refused, it changes nothing. Either way
/// the same call repeated is refused.
pub proof fn settlement_applies_exactly_for_the_holding_run(
    state: QueueState,
    id: ulid::Ulid,
    by: Seq<char>,
    run_no: u32,
    settlement: Settlement,
    entry: AppendView,
)
    requires
        state.valid(),
    ensures
        settle_applies(state, id, by, run_no) <==> exists|key: ulid::Ulid| #[trigger]
            state.jobs.contains_key(key) && state.jobs[key].id == id
                && state.jobs[key].status is Claimed && state.jobs[key].claimed_by == Some(by)
                && state.jobs[key].run_count == run_no,
        ({
            let after = settle_step(state, id, by, run_no, settlement, entry);
            &&& settle_applies(state, id, by, run_no) ==> {
                &&& after.journal == state.journal.push(
                    JournalView { id: state.next_entry, job_id: id, entry },
                )
                &&& !(after.jobs[id].status is Claimed)
                &&& after.jobs.dom() == state.jobs.dom()
                &&& forall|other: ulid::Ulid|
                    other != id && state.jobs.contains_key(other) ==> #[trigger] after.jobs[other]
                        == state.jobs[other]
            }
            &&& !settle_applies(state, id, by, run_no) ==> after == state
            &&& !settle_applies(after, id, by, run_no)
            &&& settle_step(after, id, by, run_no, settlement, entry) == after
        }),
{
    if settle_applies(state, id, by, run_no) {
        assert(state.jobs.contains_key(id));
        let after = settle_step(state, id, by, run_no, settlement, entry);
        assert(after.jobs.dom() =~= state.jobs.dom());
    }
}

/// A settlement makes its job claimable again exactly when it re-pends it; a
/// terminal one never does.
pub proof fn settlement_repends_or_finishes(job: JobView, settlement: Settlement)
    ensures
        settled_row(job, settlement).status is Pending <==> settlement.repends(),
        settled_row(job, settlement).status.terminal() <==> !settlement.repends(),
{
}

/// A pause and a release are not failures: they keep the failure count. A retry and
/// a pause persist their carry; a release keeps the one from before the run.
pub proof fn pause_and_release_are_not_failures(job: JobView, settlement: Settlement)
    ensures
        settlement is Pause || settlement is Release ==> settled_row(job, settlement).failure_count
            == job.failure_count,
        settlement matches Settlement::Pause { carry, .. } ==> settled_row(job, settlement).carry
            == carry,
        settlement matches Settlement::Retry { carry, .. } ==> settled_row(job, settlement).carry
            == carry,
        settlement is Release ==> settled_row(job, settlement).carry == job.carry,
{
}

/// A terminal job stays as it is under every operation but a cleanup and an
/// enqueue of its own identity.
pub proof fn terminal_jobs_are_immutable(
    state: QueueState,
    id: ulid::Ulid,
    other: ulid::Ulid,
    by: Seq<char>,
    run_no: u32,
    settlement: Settlement,
    entry: AppendView,
    update: Option<MergePayload>,
    visible_at: Timestamp,
    failure_count: i32,
    lease: Duration,
    now: Timestamp,
    kinds: Seq<Seq<char>>,
    floor: i16,
)
    requires
        state.valid(),
        state.jobs.contains_key(id),
        state.jobs[id].status.terminal(),
    ensures
        settle_step(state, other, by, run_no, settlement, entry).jobs[id] == state.jobs[id],
        recover_step(
            state,
            other,
            visible_at,
            failure_count,
            run_no,
            entry,
            now,
        ).jobs[id] == state.jobs[id],
        extend_step(state, other, by, run_no, lease, now).jobs[id] == state.jobs[id],
        merge_step(state, other, update, entry).jobs[id] == state.jobs[id],
        claims_next(state, kinds, floor, now, other) ==> claim_step(
            state,
            other,
            now,
            lease,
            by,
        ).jobs[id] == state.jobs[id],
{
}

/// A merge touches only a pending job, keeps its identity, age, schedule, and run
/// history, and is journaled; keeping the existing work leaves the row untouched.
pub proof fn merge_continues_the_pending_job(
    state: QueueState,
    id: ulid::Ulid,
    update: Option<MergePayload>,
    entry: AppendView,
)
    requires
        state.valid(),
    ensures
        !merge_applies(state, id) ==> merge_step(state, id, update, entry) == state,
        merge_applies(state, id) ==> ({
            let after = merge_step(state, id, update, entry);
            &&& after.jobs[id].status is Pending
            &&& after.jobs[id].visible_at == state.jobs[id].visible_at
            &&& after.jobs[id].created_at == state.jobs[id].created_at
            &&& after.jobs[id].run_count == state.jobs[id].run_count
            &&& after.jobs[id].failure_count == state.jobs[id].failure_count
            &&& after.jobs[id].dedup_key == state.jobs[id].dedup_key
            &&& update is None ==> after.jobs[id] == state.jobs[id]
            &&& after.journal.len() == state.journal.len() + 1
            &&& after.journal.last().job_id == id
            &&& after.journal.last().entry == entry
        }),
{
}

/// A recovery re-pends exactly the expired claim it observed, as a failure, and
/// leaves everything else alone; a claim whose lease still runs is never taken.
pub proof fn recovery_needs_an_expired_lease(
    state: QueueState,
    id: ulid::Ulid,
    visible_at: Timestamp,
    failure_count: i32,
    run_no: u32,
    entry: AppendView,
    now: Timestamp,
)
    requires
        state.valid(),
    ensures
        (state.jobs.contains_key(id) && (state.jobs[id].claim_expires_at matches Some(expiry)
            ==> expiry.nanos() >= now.nanos())) ==> recover_step(
            state,
            id,
            visible_at,
            failure_count,
            run_no,
            entry,
            now,
        ) == state,
        recover_applies(state, id, run_no, now) ==> ({
            let after = recover_step(
                state,
                id,
                visible_at,
                failure_count,
                run_no,
                entry,
                now,
            );
            &&& after.jobs[id].status is Pending
            &&& after.jobs[id].visible_at == visible_at
            &&& after.jobs[id].failure_count == failure_count
            &&& after.jobs[id].carry == state.jobs[id].carry
        }),
{
}

/// A cleanup removes only terminal jobs; the journal of a removed job goes with it
/// and every other job keeps its row.
pub proof fn cleanup_removes_only_terminal_jobs(
    state: QueueState,
    criteria: CriteriaView,
    id: ulid::Ulid,
)
    requires
        state.valid(),
        state.jobs.contains_key(id),
    ensures
        cleaned_ids(state, criteria).contains(id) ==> state.jobs[id].status.terminal(),
        cleaned_ids(state, criteria).contains(id) ==> !cleanup_step(
            state,
            criteria,
        ).jobs.contains_key(id) && journal_of(cleanup_step(state, criteria).journal, id).len() == 0,
        !cleaned_ids(state, criteria).contains(id) ==> cleanup_step(
            state,
            criteria,
        ).jobs.contains_key(id) && cleanup_step(state, criteria).jobs[id] == state.jobs[id]
            && journal_of(cleanup_step(state, criteria).journal, id) == journal_of(
            state.journal,
            id,
        ),
{
    lemma_cleanup_journal(state.journal, cleaned_ids(state, criteria), id);
}

proof fn lemma_cleanup_journal(journal: Seq<JournalView>, gone: Set<ulid::Ulid>, id: ulid::Ulid)
    ensures
        gone.contains(id) ==> journal_of(journal_without(journal, gone), id).len() == 0,
        !gone.contains(id) ==> journal_of(journal_without(journal, gone), id) == journal_of(
            journal,
            id,
        ),
    decreases journal.len(),
{
    if journal.len() > 0 {
        let shorter = journal.drop_last();
        lemma_cleanup_journal(shorter, gone, id);
        let rest = journal_without(shorter, gone);
        if !gone.contains(journal.last().job_id) {
            assert(rest.push(journal.last()).drop_last() =~= rest);
        }
    }
}

/// A history query has one answer.
pub proof fn history_page_is_determined(
    state: QueueState,
    filter: FilterView,
    a: Seq<JobView>,
    b: Seq<JobView>,
)
    requires
        history_page(state, filter, a),
        history_page(state, filter, b),
    ensures
        a == b,
{
    lemma_page_prefix(state, filter, a, b, a.len() as int);
    lemma_page_prefix(state, filter, b, a, b.len() as int);
    assert(a =~= b);
}

/// Two pages answering one query agree on their first `n` rows.
proof fn lemma_page_prefix(
    state: QueueState,
    filter: FilterView,
    a: Seq<JobView>,
    b: Seq<JobView>,
    n: int,
)
    requires
        history_page(state, filter, a),
        history_page(state, filter, b),
        0 <= n <= a.len(),
    ensures
        n <= b.len(),
        forall|i: int| 0 <= i < n ==> #[trigger] a[i] == b[i],
    decreases n,
{
    if n > 0 {
        let k = n - 1;
        lemma_page_prefix(state, filter, a, b, k);
        let x = a[k];
        assert(state.jobs.contains_key(x.id) && state.jobs[x.id] == x);
        if lists(b, x) {
            let m = choose|m: int| 0 <= m < b.len() && #[trigger] b[m] == x;
            if m < k {
                assert(a[m] == b[m]);
                assert(older(a[k], a[m]));
            }
            if m > k {
                let y = b[k];
                assert(state.jobs.contains_key(y.id) && state.jobs[y.id] == y);
                assert(older(b[m], b[k]));
                if lists(a, y) {
                    let p = choose|p: int| 0 <= p < a.len() && #[trigger] a[p] == y;
                    if p < k {
                        assert(a[p] == b[p]);
                        assert(older(b[k], b[p]));
                    } else if p > k {
                        assert(older(a[p], a[k]));
                    }
                } else {
                    assert(older(y, a[k]));
                }
            }
        } else {
            // `x` passes but is not listed: `b` is full, and all of it is newer.
            assert(row_limit(filter) == Some(b.len() as int));
            assert(a.len() <= b.len());
            let y = b[k];
            assert(older(x, b[k]));
            assert(state.jobs.contains_key(y.id) && state.jobs[y.id] == y);
            if lists(a, y) {
                let p = choose|p: int| 0 <= p < a.len() && #[trigger] a[p] == y;
                if p < k {
                    assert(a[p] == b[p]);
                    assert(older(b[k], b[p]));
                } else if p > k {
                    assert(older(a[p], a[k]));
                }
            } else {
                assert(older(y, a[k]));
            }
        }
    }
}

/// The filter for the rows after a page.
pub open spec fn next_page_filter(filter: FilterView, last: JobView, limit: i64) -> FilterView {
    FilterView { created_before: Some((last.created_at, last.id)), limit: Some(limit), ..filter }
}

/// Walking history with the keyset cursor neither repeats nor skips a job: a page
/// followed by the page after its last row is the longer page.
pub proof fn pages_concatenate(
    state: QueueState,
    filter: FilterView,
    first_limit: i64,
    second_limit: i64,
    total_limit: i64,
    first: Seq<JobView>,
    second: Seq<JobView>,
)
    requires
        first_limit >= 0,
        second_limit >= 0,
        total_limit == first_limit + second_limit,
        history_page(state, FilterView { limit: Some(first_limit), ..filter }, first),
        first.len() > 0,
        history_page(state, next_page_filter(filter, first.last(), second_limit), second),
    ensures
        history_page(state, FilterView { limit: Some(total_limit), ..filter }, first + second),
{
    let f1 = FilterView { limit: Some(first_limit), ..filter };
    let f2 = next_page_filter(filter, first.last(), second_limit);
    let whole = FilterView { limit: Some(total_limit), ..filter };
    let page = first + second;
    let last = first.last();
    assert(last == first[first.len() - 1]);
    assert forall|i: int| 0 <= i < page.len() implies state.jobs.contains_key(
        (#[trigger] page[i]).id,
    ) && state.jobs[page[i].id] == page[i] && passes(page[i], whole) by {
        if i < first.len() {
            assert(page[i] == first[i]);
        } else {
            let j = i - first.len();
            assert(page[i] == second[j]);
            assert(passes(second[j], f2));
            assert(passes(last, f1));
            assert(older(second[j], last));
            if let Some((created, id)) = filter.created_before {
                assert(last.created_at.nanos() < created.nanos() || (last.created_at.nanos()
                    == created.nanos() && last.id.0 < id.0));
            }
        }
    }
    assert forall|i: int, j: int| 0 <= i < j < page.len() implies older(
        #[trigger] page[j],
        #[trigger] page[i],
    ) by {
        if j < first.len() {
            assert(page[i] == first[i] && page[j] == first[j]);
        } else {
            assert(page[j] == second[j - first.len()]);
            if i >= first.len() {
                assert(page[i] == second[i - first.len()]);
            } else {
                assert(page[i] == first[i]);
                assert(passes(second[j - first.len()], f2));
                if i < first.len() - 1 {
                    assert(older(first[first.len() - 1], first[i]));
                }
            }
        }
    }
    assert forall|id: ulid::Ulid| #[trigger]
        state.jobs.contains_key(id) && passes(state.jobs[id], whole) && !lists(
            page,
            state.jobs[id],
        ) implies row_limit(whole) == Some(page.len() as int) && forall|i: int|
        0 <= i < page.len() ==> older(state.jobs[id], #[trigger] page[i]) by {
        let job = state.jobs[id];
        if lists(first, job) {
            let i = choose|i: int| 0 <= i < first.len() && #[trigger] first[i] == job;
            assert(page[i] == job);
        }
        assert(passes(job, f1));
        assert(older(job, last));
        if lists(second, job) {
            let i = choose|i: int| 0 <= i < second.len() && #[trigger] second[i] == job;
            assert(page[first.len() + i] == job);
        }
        assert(passes(job, f2));
        assert forall|i: int| 0 <= i < page.len() implies older(job, #[trigger] page[i]) by {
            if i < first.len() {
                assert(page[i] == first[i]);
            } else {
                assert(page[i] == second[i - first.len()]);
            }
        }
    }
}

/// The rows of consecutive pages, in the order they were read.
pub open spec fn walked(pages: Seq<Seq<JobView>>) -> Seq<JobView>
    decreases pages.len(),
{
    if pages.len() == 0 {
        Seq::empty()
    } else {
        walked(pages.drop_last()) + pages.last()
    }
}

/// Whether `pages` are read one after the other with the keyset cursor: the first
/// answers the query itself, and each later one the query for the rows after the last
/// row before it. Each page has a limit of its own.
pub open spec fn walks(
    state: QueueState,
    filter: FilterView,
    limits: Seq<i64>,
    pages: Seq<Seq<JobView>>,
) -> bool {
    &&& pages.len() == limits.len()
    &&& pages.len() > 0
    &&& history_page(state, FilterView { limit: Some(limits[0]), ..filter }, pages[0])
    &&& forall|i: int|
        0 < i < pages.len() ==> pages[i - 1].len() > 0 && history_page(
            state,
            next_page_filter(filter, pages[i - 1].last(), limits[i]),
            #[trigger] pages[i],
        )
}

/// A page answers the query with another limit too, if that limit is the page's length,
/// or if the page was short of its own limit and is within the other.
proof fn lemma_page_under_limit(
    state: QueueState,
    filter: FilterView,
    limit: i64,
    page: Seq<JobView>,
)
    requires
        history_page(state, filter, page),
        page.len() <= limit,
        page.len() == limit || row_limit(filter) != Some(page.len() as int),
    ensures
        history_page(state, FilterView { limit: Some(limit), ..filter }, page),
{
    let other = FilterView { limit: Some(limit), ..filter };
    assert forall|job: JobView| #[trigger] passes(job, other) == passes(job, filter) by {}
    assert forall|id: ulid::Ulid| #[trigger]
        state.jobs.contains_key(id) && passes(state.jobs[id], other) && !lists(
            page,
            state.jobs[id],
        ) implies row_limit(other) == Some(page.len() as int) && forall|i: int|
        0 <= i < page.len() ==> older(state.jobs[id], #[trigger] page[i]) by {
        assert(passes(state.jobs[id], filter));
    }
}

/// A walk's last page, read under another limit, extends the rows before it to a page
/// of the query itself.
proof fn lemma_walk_extends(
    state: QueueState,
    filter: FilterView,
    limits: Seq<i64>,
    pages: Seq<Seq<JobView>>,
    last_limit: i64,
    total_limit: i64,
)
    requires
        walks(state, filter, limits, pages),
        pages.last().len() <= last_limit,
        pages.last().len() == last_limit || pages.last().len() < limits.last(),
        total_limit == walked(pages.drop_last()).len() + last_limit,
    ensures
        history_page(state, FilterView { limit: Some(total_limit), ..filter }, walked(pages)),
    decreases pages.len(),
{
    let before = pages.drop_last();
    let n = before.len() as int;
    let last = pages.last();
    if n == 0 {
        assert(walked(before) =~= Seq::empty());
        assert(walked(pages) =~= pages[0]);
        let first = FilterView { limit: Some(limits[0]), ..filter };
        lemma_page_under_limit(state, first, total_limit, pages[0]);
    } else {
        let previous = before.last();
        assert(last == pages[n] && previous == pages[n - 1] && previous.len() > 0);
        assert(walks(state, filter, limits.drop_last(), before)) by {
            assert forall|i: int| 0 < i < before.len() implies before[i - 1].len() > 0
                && history_page(
                state,
                next_page_filter(filter, before[i - 1].last(), limits.drop_last()[i]),
                #[trigger] before[i],
            ) by {
                assert(before[i] == pages[i] && before[i - 1] == pages[i - 1]);
            }
        }
        let rows = walked(before);
        assert(rows == walked(before.drop_last()) + previous);
        assert(rows.last() == previous.last());
        let rows_limit = rows.len() as i64;
        lemma_walk_extends(
            state,
            filter,
            limits.drop_last(),
            before,
            previous.len() as i64,
            rows_limit,
        );
        let next = next_page_filter(filter, previous.last(), limits[n]);
        lemma_page_under_limit(state, next, last_limit, last);
        assert(FilterView { limit: Some(last_limit), ..next } == next_page_filter(
            filter,
            rows.last(),
            last_limit,
        ));
        pages_concatenate(state, filter, rows_limit, last_limit, total_limit, rows, last);
    }
}

/// Walking history with the keyset cursor neither repeats nor skips a job, however many
/// pages are read and whatever their limits: the rows read are, in order, the page of
/// as many rows.
pub proof fn walks_read_one_long_page(
    state: QueueState,
    filter: FilterView,
    limits: Seq<i64>,
    pages: Seq<Seq<JobView>>,
)
    requires
        walks(state, filter, limits, pages),
        walked(pages).len() <= i64::MAX,
    ensures
        history_page(
            state,
            FilterView { limit: Some(walked(pages).len() as i64), ..filter },
            walked(pages),
        ),
{
    lemma_walk_extends(
        state,
        filter,
        limits,
        pages,
        pages.last().len() as i64,
        walked(pages).len() as i64,
    );
}

/// A walk that meets a page short of its limit has read all of history: its rows are
/// every job that passes the filter, newest first.
pub proof fn a_short_page_ends_the_walk(
    state: QueueState,
    filter: FilterView,
    limits: Seq<i64>,
    pages: Seq<Seq<JobView>>,
)
    requires
        walks(state, filter, limits, pages),
        pages.last().len() < limits.last(),
        walked(pages).len() < i64::MAX,
    ensures
        history_page(state, FilterView { limit: None, ..filter }, walked(pages)),
{
    let rows = walked(pages);
    let limit = (rows.len() + 1) as i64;
    let bounded = FilterView { limit: Some(limit), ..filter };
    let whole = FilterView { limit: None, ..filter };
    lemma_walk_extends(state, filter, limits, pages, (pages.last().len() + 1) as i64, limit);
    assert forall|id: ulid::Ulid| #[trigger]
        state.jobs.contains_key(id) && passes(state.jobs[id], whole) && !lists(
            rows,
            state.jobs[id],
        ) implies row_limit(whole) == Some(rows.len() as int) && forall|i: int|
        0 <= i < rows.len() ==> older(state.jobs[id], #[trigger] rows[i]) by {
        assert(passes(state.jobs[id], bounded));
    }
    assert forall|i: int| 0 <= i < rows.len() implies state.jobs.contains_key(
        (#[trigger] rows[i]).id,
    ) && state.jobs[rows[i].id] == rows[i] && passes(rows[i], whole) by {
        assert(passes(rows[i], bounded));
    }
}

/// The outcome a settlement's journal entry records.
pub open spec fn settlement_outcome(settlement: Settlement) -> JournalOutcome {
    match settlement {
        Settlement::Complete { .. } => JournalOutcome::Completed,
        Settlement::Retry { .. } => JournalOutcome::Retried,
        Settlement::Pause { .. } => JournalOutcome::Paused,
        Settlement::Dead { .. } => JournalOutcome::Dead,
        Settlement::Release { .. } => JournalOutcome::Released,
    }
}

/// The failure count a settlement leaves, one more than before when it is a
/// failure.
pub open spec fn counts_failure(settlement: Settlement, before: i32) -> bool {
    match settlement {
        Settlement::Retry { failure_count, .. } => failure_count == before + 1,
        Settlement::Dead { failure_count, .. } => failure_count == before + 1,
        _ => true,
    }
}

/// The journal entries of a job's executions, in order; merges are not executions.
pub open spec fn executions(journal: Seq<JournalView>, id: ulid::Ulid) -> Seq<AppendView>
    decreases journal.len(),
{
    if journal.len() == 0 {
        Seq::empty()
    } else {
        let rest = executions(journal.drop_last(), id);
        if journal.last().job_id == id && !(journal.last().entry.outcome is Merged) {
            rest.push(journal.last().entry)
        } else {
            rest
        }
    }
}

/// The number of failed executions a job's journal records.
pub open spec fn failures(journal: Seq<JournalView>, id: ulid::Ulid) -> nat
    decreases journal.len(),
{
    if journal.len() == 0 {
        0
    } else {
        failures(journal.drop_last(), id) + if journal.last().job_id == id
            && journal.last().entry.outcome.failed() {
            1nat
        } else {
            0nat
        }
    }
}

/// Whether a job's journal accounts for all its runs: one entry per finished run,
/// numbered from one without a hole, and as many failures as the row counts.
pub open spec fn accounted(state: QueueState, id: ulid::Ulid) -> bool {
    let runs = executions(state.journal, id);
    let job = state.jobs[id];
    &&& runs.len() == job.run_count - (if job.status is Claimed {
        1int
    } else {
        0int
    })
    &&& forall|i: int| 0 <= i < runs.len() ==> (#[trigger] runs[i]).run_no == i + 1
    &&& job.failure_count == failures(state.journal, id)
}

/// Whether every stored job's journal accounts for its runs.
pub open spec fn all_accounted(state: QueueState) -> bool {
    forall|id: ulid::Ulid| #[trigger] state.jobs.contains_key(id) ==> accounted(state, id)
}

proof fn lemma_push_executions(journal: Seq<JournalView>, entry: JournalView, id: ulid::Ulid)
    ensures
        executions(journal.push(entry), id) == (if entry.job_id == id && !(
        entry.entry.outcome is Merged) {
            executions(journal, id).push(entry.entry)
        } else {
            executions(journal, id)
        }),
        failures(journal.push(entry), id) == failures(journal, id) + (if entry.job_id == id
            && entry.entry.outcome.failed() {
            1nat
        } else {
            0nat
        }),
{
    assert(journal.push(entry).drop_last() =~= journal);
}

/// A job nobody journaled has no recorded executions.
proof fn lemma_no_entries(journal: Seq<JournalView>, id: ulid::Ulid)
    requires
        forall|i: int| 0 <= i < journal.len() ==> (#[trigger] journal[i]).job_id != id,
    ensures
        executions(journal, id) == Seq::<AppendView>::empty(),
        failures(journal, id) == 0,
    decreases journal.len(),
{
    if journal.len() > 0 {
        let shorter = journal.drop_last();
        assert forall|i: int| 0 <= i < shorter.len() implies (#[trigger] shorter[i]).job_id
            != id by {
            assert(shorter[i] == journal[i]);
        }
        lemma_no_entries(shorter, id);
        assert(journal.last() == journal[journal.len() - 1]);
    }
}

/// A new job starts with an empty, complete journal.
pub proof fn enqueue_keeps_journal_complete(state: QueueState, job: NewJobView)
    requires
        state.valid(),
        all_accounted(state),
        !state.jobs.contains_key(job.id),
    ensures
        all_accounted(enqueue_step(state, job)),
{
    let after = enqueue_step(state, job);
    assert forall|i: int| 0 <= i < state.journal.len() implies (#[trigger] state.journal[i]).job_id
        != job.id by {
        assert(state.jobs.contains_key(state.journal[i].job_id));
    }
    lemma_no_entries(state.journal, job.id);
    assert forall|id: ulid::Ulid| #[trigger] after.jobs.contains_key(id) implies accounted(
        after,
        id,
    ) by {
        if id != job.id {
            assert(state.jobs.contains_key(id));
        }
    }
}

/// A claim opens a run, and the journal accounts for every finished one.
pub proof fn claim_keeps_journal_complete(
    state: QueueState,
    kinds: Seq<Seq<char>>,
    floor: i16,
    now: Timestamp,
    id: ulid::Ulid,
    lease: Duration,
    by: Seq<char>,
)
    requires
        state.valid(),
        all_accounted(state),
        claims_next(state, kinds, floor, now, id),
        state.jobs[id].run_count < i32::MAX,
    ensures
        all_accounted(claim_step(state, id, now, lease, by)),
{
    let after = claim_step(state, id, now, lease, by);
    assert forall|other: ulid::Ulid| #[trigger] after.jobs.contains_key(other) implies accounted(
        after,
        other,
    ) by {
        assert(state.jobs.contains_key(other));
        assert(accounted(state, other));
    }
}

/// A settlement that journals its own run, with the outcome of its transition,
/// keeps the journal hole-free and the failure count exact.
pub proof fn settle_keeps_journal_complete(
    state: QueueState,
    id: ulid::Ulid,
    by: Seq<char>,
    run_no: u32,
    settlement: Settlement,
    entry: AppendView,
)
    requires
        state.valid(),
        state.next_entry < i64::MAX,
        all_accounted(state),
        entry.run_no == run_no,
        entry.outcome == settlement_outcome(settlement),
        settle_applies(state, id, by, run_no) ==> counts_failure(
            settlement,
            state.jobs[id].failure_count,
        ),
    ensures
        all_accounted(settle_step(state, id, by, run_no, settlement, entry)),
{
    if settle_applies(state, id, by, run_no) {
        let after = settle_step(state, id, by, run_no, settlement, entry);
        let record = JournalView { id: state.next_entry, job_id: id, entry };
        assert(accounted(state, id));
        assert forall|other: ulid::Ulid| #[trigger]
            after.jobs.contains_key(other) implies accounted(after, other) by {
            lemma_push_executions(state.journal, record, other);
            assert(state.jobs.contains_key(other));
            assert(accounted(state, other));
        }
    }
}

/// A recovery that journals the stale run keeps the journal hole-free and counts
/// the failure.
pub proof fn recover_keeps_journal_complete(
    state: QueueState,
    id: ulid::Ulid,
    visible_at: Timestamp,
    failure_count: i32,
    run_no: u32,
    entry: AppendView,
    now: Timestamp,
)
    requires
        state.valid(),
        state.next_entry < i64::MAX,
        all_accounted(state),
        entry.run_no == run_no,
        entry.outcome is StaleRecovered,
        recover_applies(state, id, run_no, now) ==> failure_count == state.jobs[id].failure_count
            + 1,
    ensures
        all_accounted(recover_step(state, id, visible_at, failure_count, run_no, entry, now)),
{
    if recover_applies(state, id, run_no, now) {
        let after = recover_step(state, id, visible_at, failure_count, run_no, entry, now);
        let record = JournalView { id: state.next_entry, job_id: id, entry };
        assert(accounted(state, id));
        assert forall|other: ulid::Ulid| #[trigger]
            after.jobs.contains_key(other) implies accounted(after, other) by {
            lemma_push_executions(state.journal, record, other);
            assert(state.jobs.contains_key(other));
            assert(accounted(state, other));
        }
    }
}

/// A merge is journaled as a bookkeeping event: it is no execution and no failure.
pub proof fn merge_keeps_journal_complete(
    state: QueueState,
    id: ulid::Ulid,
    update: Option<MergePayload>,
    entry: AppendView,
)
    requires
        state.valid(),
        state.next_entry < i64::MAX,
        all_accounted(state),
        entry.outcome is Merged,
    ensures
        all_accounted(merge_step(state, id, update, entry)),
{
    if merge_applies(state, id) {
        let after = merge_step(state, id, update, entry);
        let record = JournalView { id: state.next_entry, job_id: id, entry };
        assert forall|other: ulid::Ulid| #[trigger]
            after.jobs.contains_key(other) implies accounted(after, other) by {
            lemma_push_executions(state.journal, record, other);
            assert(state.jobs.contains_key(other));
            assert(accounted(state, other));
        }
    }
}

/// Extending a lease leaves the journal and the run accounting alone.
pub proof fn extend_keeps_journal_complete(
    state: QueueState,
    id: ulid::Ulid,
    by: Seq<char>,
    run_no: u32,
    lease: Duration,
    now: Timestamp,
)
    requires
        state.valid(),
        all_accounted(state),
    ensures
        all_accounted(extend_step(state, id, by, run_no, lease, now)),
{
    let after = extend_step(state, id, by, run_no, lease, now);
    assert forall|other: ulid::Ulid| #[trigger] after.jobs.contains_key(other) implies accounted(
        after,
        other,
    ) by {
        assert(state.jobs.contains_key(other));
        assert(accounted(state, other));
    }
}

proof fn lemma_cleanup_executions(journal: Seq<JournalView>, gone: Set<ulid::Ulid>, id: ulid::Ulid)
    requires
        !gone.contains(id),
    ensures
        executions(journal_without(journal, gone), id) == executions(journal, id),
        failures(journal_without(journal, gone), id) == failures(journal, id),
    decreases journal.len(),
{
    if journal.len() > 0 {
        let shorter = journal.drop_last();
        lemma_cleanup_executions(shorter, gone, id);
        let rest = journal_without(shorter, gone);
        if !gone.contains(journal.last().job_id) {
            assert(rest.push(journal.last()).drop_last() =~= rest);
        }
    }
}

/// A cleanup leaves the journals of the remaining jobs complete.
pub proof fn cleanup_keeps_journal_complete(state: QueueState, criteria: CriteriaView)
    requires
        state.valid(),
        all_accounted(state),
    ensures
        all_accounted(cleanup_step(state, criteria)),
{
    let gone = cleaned_ids(state, criteria);
    let after = cleanup_step(state, criteria);
    assert forall|id: ulid::Ulid| #[trigger] after.jobs.contains_key(id) implies accounted(
        after,
        id,
    ) by {
        assert(state.jobs.contains_key(id));
        assert(accounted(state, id));
        lemma_cleanup_executions(state.journal, gone, id);
    }
}

/// One storage operation, with everything it is given.
pub enum Operation {
    /// See [`enqueue_step`].
    Enqueue {
        /// The new job.
        job: NewJobView,
    },
    /// See [`claim_step`].
    Claim {
        /// The kinds asked for.
        kinds: Seq<Seq<char>>,
        /// The priority floor.
        floor: i16,
        /// The time of the claim.
        now: Timestamp,
        /// The job claimed.
        id: ulid::Ulid,
        /// The lease.
        lease: Duration,
        /// The claiming worker.
        by: Seq<char>,
    },
    /// See [`settle_step`].
    Settle {
        /// The job.
        id: ulid::Ulid,
        /// The settling worker.
        by: Seq<char>,
        /// The claim epoch.
        run_no: u32,
        /// The transition.
        settlement: Settlement,
        /// The journal entry.
        entry: AppendView,
    },
    /// See [`recover_step`].
    Recover {
        /// The job.
        id: ulid::Ulid,
        /// When it becomes eligible again.
        visible_at: Timestamp,
        /// The failure count to write.
        failure_count: i32,
        /// The claim epoch seen.
        run_no: u32,
        /// The journal entry.
        entry: AppendView,
        /// The time of the recovery.
        now: Timestamp,
    },
    /// See [`extend_step`].
    Extend {
        /// The job.
        id: ulid::Ulid,
        /// The extending worker.
        by: Seq<char>,
        /// The claim epoch.
        run_no: u32,
        /// The new lease.
        lease: Duration,
        /// The time of the extension.
        now: Timestamp,
    },
    /// See [`merge_step`].
    Merge {
        /// The pending job.
        id: ulid::Ulid,
        /// What to write.
        update: Option<MergePayload>,
        /// The journal entry.
        entry: AppendView,
    },
    /// See [`cleanup_step`].
    Cleanup {
        /// Which terminal jobs to remove.
        criteria: CriteriaView,
    },
}

/// The state after an operation.
pub open spec fn performed(state: QueueState, operation: Operation) -> QueueState {
    match operation {
        Operation::Enqueue { job } => enqueue_step(state, job),
        Operation::Claim { kinds, floor, now, id, lease, by } => claim_step(
            state,
            id,
            now,
            lease,
            by,
        ),
        Operation::Settle { id, by, run_no, settlement, entry } => settle_step(
            state,
            id,
            by,
            run_no,
            settlement,
            entry,
        ),
        Operation::Recover { id, visible_at, failure_count, run_no, entry, now } => recover_step(
            state,
            id,
            visible_at,
            failure_count,
            run_no,
            entry,
            now,
        ),
        Operation::Extend { id, by, run_no, lease, now } => extend_step(
            state,
            id,
            by,
            run_no,
            lease,
            now,
        ),
        Operation::Merge { id, update, entry } => merge_step(state, id, update, entry),
        Operation::Cleanup { criteria } => cleanup_step(state, criteria),
    }
}

/// Whether an operation can happen: a new job has a new identity, a claim takes the
/// job that is next, and run numbers and entry identities have not run out.
pub open spec fn possible(state: QueueState, operation: Operation) -> bool {
    &&& state.next_entry < i64::MAX
    &&& operation matches Operation::Enqueue { job } ==> !state.jobs.contains_key(job.id)
    &&& operation matches Operation::Claim { kinds, floor, now, id, .. } ==> claims_next(
        state,
        kinds,
        floor,
        now,
        id,
    ) && state.jobs[id].run_count < i32::MAX
}

/// Whether an operation journals what it does: a settlement its own run with the
/// outcome of its transition, a recovery the run it recovers, a merge a merge, and
/// each failure counted once.
pub open spec fn journals_truly(state: QueueState, operation: Operation) -> bool {
    match operation {
        Operation::Settle { id, by, run_no, settlement, entry } => {
            &&& entry.run_no == run_no
            &&& entry.outcome == settlement_outcome(settlement)
            &&& settle_applies(state, id, by, run_no) ==> counts_failure(
                settlement,
                state.jobs[id].failure_count,
            )
        },
        Operation::Recover { id, failure_count, run_no, entry, now, .. } => {
            &&& entry.run_no == run_no
            &&& entry.outcome is StaleRecovered
            &&& recover_applies(state, id, run_no, now) ==> failure_count
                == state.jobs[id].failure_count + 1
        },
        Operation::Merge { entry, .. } => entry.outcome is Merged,
        _ => true,
    }
}

/// Every operation keeps the state valid.
pub proof fn every_operation_keeps_valid(state: QueueState, operation: Operation)
    requires
        state.valid(),
        possible(state, operation),
    ensures
        performed(state, operation).valid(),
{
    match operation {
        Operation::Enqueue { job } => enqueue_keeps_valid(state, job),
        Operation::Claim { kinds, floor, now, id, lease, by } => claim_keeps_valid(
            state,
            kinds,
            floor,
            now,
            id,
            lease,
            by,
        ),
        Operation::Settle { id, by, run_no, settlement, entry } => settle_keeps_valid(
            state,
            id,
            by,
            run_no,
            settlement,
            entry,
        ),
        Operation::Recover { id, visible_at, failure_count, run_no, entry, now } =>
        recover_keeps_valid(state, id, visible_at, failure_count, run_no, entry, now),
        Operation::Extend { id, by, run_no, lease, now } => extend_keeps_valid(
            state,
            id,
            by,
            run_no,
            lease,
            now,
        ),
        Operation::Merge { id, update, entry } => merge_keeps_valid(state, id, update, entry),
        Operation::Cleanup { criteria } => cleanup_keeps_valid(state, criteria),
    }
}

/// Every operation that journals what it does keeps the journal hole-free and the
/// failure counts exact.
pub proof fn every_operation_keeps_journal_complete(state: QueueState, operation: Operation)
    requires
        state.valid(),
        all_accounted(state),
        possible(state, operation),
        journals_truly(state, operation),
    ensures
        all_accounted(performed(state, operation)),
{
    match operation {
        Operation::Enqueue { job } => enqueue_keeps_journal_complete(state, job),
        Operation::Claim { kinds, floor, now, id, lease, by } => claim_keeps_journal_complete(
            state,
            kinds,
            floor,
            now,
            id,
            lease,
            by,
        ),
        Operation::Settle { id, by, run_no, settlement, entry } => settle_keeps_journal_complete(
            state,
            id,
            by,
            run_no,
            settlement,
            entry,
        ),
        Operation::Recover { id, visible_at, failure_count, run_no, entry, now } =>
        recover_keeps_journal_complete(
            state,
            id,
            visible_at,
            failure_count,
            run_no,
            entry,
            now,
        ),
        Operation::Extend { id, by, run_no, lease, now } => extend_keeps_journal_complete(
            state,
            id,
            by,
            run_no,
            lease,
            now,
        ),
        Operation::Merge { id, update, entry } => merge_keeps_journal_complete(
            state,
            id,
            update,
            entry,
        ),
        Operation::Cleanup { criteria } => cleanup_keeps_journal_complete(state, criteria),
    }
}

/// The empty queue.
pub open spec fn empty_queue() -> QueueState {
    QueueState { jobs: Map::empty(), journal: Seq::empty(), next_entry: 0 }
}

/// The state after a sequence of operations on an empty queue.
pub open spec fn state_after(operations: Seq<Operation>) -> QueueState
    decreases operations.len(),
{
    if operations.len() == 0 {
        empty_queue()
    } else {
        performed(state_after(operations.drop_last()), operations.last())
    }
}

/// Whether each operation of a sequence can happen when its turn comes.
pub open spec fn all_possible(operations: Seq<Operation>) -> bool
    decreases operations.len(),
{
    operations.len() > 0 ==> all_possible(operations.drop_last()) && possible(
        state_after(operations.drop_last()),
        operations.last(),
    )
}

/// Whether each operation of a sequence journals what it does.
pub open spec fn all_journal_truly(operations: Seq<Operation>) -> bool
    decreases operations.len(),
{
    operations.len() > 0 ==> all_journal_truly(operations.drop_last()) && journals_truly(
        state_after(operations.drop_last()),
        operations.last(),
    )
}

/// Whatever sequence of operations a queue has been through, its state is valid.
pub proof fn every_reachable_state_is_valid(operations: Seq<Operation>)
    requires
        all_possible(operations),
    ensures
        state_after(operations).valid(),
    decreases operations.len(),
{
    if operations.len() > 0 {
        every_reachable_state_is_valid(operations.drop_last());
        every_operation_keeps_valid(state_after(operations.drop_last()), operations.last());
    }
}

/// Whatever a queue has been through, every job's journal is a hole-free log of its
/// finished runs, numbered from one, and its failure count is the number of failures
/// in it.
pub proof fn every_reachable_journal_is_complete(operations: Seq<Operation>)
    requires
        all_possible(operations),
        all_journal_truly(operations),
    ensures
        all_accounted(state_after(operations)),
    decreases operations.len(),
{
    if operations.len() > 0 {
        every_reachable_state_is_valid(operations.drop_last());
        every_reachable_journal_is_complete(operations.drop_last());
        every_operation_keeps_journal_complete(
            state_after(operations.drop_last()),
            operations.last(),
        );
    }
}

/// Stored work is never lost: no operation removes a job, but for a cleanup of a
/// terminal one, and a job keeps its kind, enqueue time, and deduplication key.
pub proof fn no_operation_loses_work(state: QueueState, operation: Operation, id: ulid::Ulid)
    requires
        state.valid(),
        possible(state, operation),
        state.jobs.contains_key(id),
    ensures
        ({
            let after = performed(state, operation);
            ||| (operation is Cleanup && state.jobs[id].status.terminal()
                && !after.jobs.contains_key(id))
            ||| {
                &&& after.jobs.contains_key(id)
                &&& after.jobs[id].kind == state.jobs[id].kind
                &&& after.jobs[id].created_at == state.jobs[id].created_at
                &&& after.jobs[id].dedup_key == state.jobs[id].dedup_key
            }
        }),
{
}

/// A job completes only by the run that holds its claim: nothing is marked completed
/// without having run.
pub proof fn only_a_holding_run_completes(state: QueueState, operation: Operation, id: ulid::Ulid)
    requires
        state.valid(),
        possible(state, operation),
        state.jobs.contains_key(id),
        !(state.jobs[id].status is Completed),
        performed(state, operation).jobs.contains_key(id),
        performed(state, operation).jobs[id].status is Completed,
    ensures
        operation matches Operation::Settle { id: settled, by, run_no, settlement, .. } && settled
            == id && settlement is Complete && holds_claim(state.jobs[id], by, run_no),
{
}

/// A claim ends only by a settlement of its own run or by a recovery after its lease
/// expired: no other operation takes a job from the worker that runs it.
pub proof fn only_its_run_or_expiry_ends_a_claim(
    state: QueueState,
    operation: Operation,
    id: ulid::Ulid,
    by: Seq<char>,
    run_no: u32,
)
    requires
        state.valid(),
        possible(state, operation),
        state.jobs.contains_key(id),
        holds_claim(state.jobs[id], by, run_no),
        !(performed(state, operation).jobs.contains_key(id) && holds_claim(
            performed(state, operation).jobs[id],
            by,
            run_no,
        )),
    ensures
        (operation matches Operation::Settle { id: settled, by: worker, run_no: epoch, .. }
            && settled == id && worker == by && epoch == run_no) || (
        operation matches Operation::Recover { id: recovered, run_no: epoch, now, .. } && recovered
            == id && epoch == run_no && lease_expired(state.jobs[id], now)),
{
}

/// Run numbers only grow, so a claim epoch is never used twice.
pub proof fn run_numbers_only_grow(state: QueueState, operation: Operation, id: ulid::Ulid)
    requires
        state.valid(),
        possible(state, operation),
        state.jobs.contains_key(id),
        performed(state, operation).jobs.contains_key(id),
    ensures
        state.jobs[id].run_count <= performed(state, operation).jobs[id].run_count,
        !(state.jobs[id].status is Claimed) && performed(state, operation).jobs[id].status
            is Claimed ==> performed(state, operation).jobs[id].run_count
            == state.jobs[id].run_count + 1,
{
}

/// Delivery is at least once: a job that is not terminal is always within reach. A
/// pending one is eligible for any claim of its kind at its tier once visible; a
/// claimed one can be recovered once its lease expires, and is pending then.
pub proof fn unfinished_work_is_within_reach(
    state: QueueState,
    id: ulid::Ulid,
    kinds: Seq<Seq<char>>,
    floor: i16,
    now: Timestamp,
    visible_at: Timestamp,
    failure_count: i32,
    entry: AppendView,
)
    requires
        state.valid(),
        state.jobs.contains_key(id),
        !state.jobs[id].status.terminal(),
        names_kind(kinds, state.jobs[id].kind),
        floor <= state.jobs[id].priority,
    ensures
        state.jobs[id].status is Pending && state.jobs[id].visible_at.nanos() <= now.nanos()
            ==> claimable(state.jobs[id], kinds, floor, now),
        state.jobs[id].status is Claimed && state.jobs[id].claim_expires_at.unwrap().nanos()
            < now.nanos() ==> recover_applies(state, id, state.jobs[id].run_count, now)
            && recover_step(
            state,
            id,
            visible_at,
            failure_count,
            state.jobs[id].run_count,
            entry,
            now,
        ).jobs[id].status is Pending,
{
}

/// Whether two rows are the same work: all but what its runs change.
pub open spec fn same_work(a: JobView, b: JobView) -> bool {
    &&& a.id == b.id && a.kind == b.kind && a.payload == b.payload && a.priority == b.priority
    &&& a.created_at == b.created_at && a.dedup_key == b.dedup_key
}

/// A claim changes who holds the job, until when, and its run number, and nothing else: not
/// the work, its carry, its failures, or when it was eligible. Every other job, and the
/// journal, stay as they were.
pub proof fn a_claim_changes_only_the_claim(
    state: QueueState,
    id: ulid::Ulid,
    now: Timestamp,
    lease: Duration,
    by: Seq<char>,
)
    requires
        state.valid(),
        state.jobs.contains_key(id),
        state.jobs[id].run_count < u32::MAX,
    ensures
        ({
            let after = claim_step(state, id, now, lease, by);
            let row = after.jobs[id];
            let job = state.jobs[id];
            &&& same_work(row, job) && row.carry == job.carry && row.failure_count
                == job.failure_count
            &&& row.visible_at == job.visible_at && row.finished_at == job.finished_at
            &&& row.run_count == job.run_count + 1
            &&& row.status is Claimed && row.claimed_by == Some(by)
            &&& after.jobs.dom() == state.jobs.dom()
            &&& forall|other: ulid::Ulid|
                other != id && state.jobs.contains_key(other) ==> #[trigger] after.jobs[other]
                    == state.jobs[other]
            &&& after.journal == state.journal && after.next_entry == state.next_entry
        }),
{
    assert(claim_step(state, id, now, lease, by).jobs.dom() =~= state.jobs.dom());
}

/// A settlement leaves the work and its run number as they were, and the carry too unless
/// the run left one to retry or resume from. A completed, a paused and a released run count
/// no failure. Every other job stays as it was.
pub proof fn a_settlement_leaves_the_work_alone(
    state: QueueState,
    id: ulid::Ulid,
    by: Seq<char>,
    run_no: u32,
    settlement: Settlement,
    entry: AppendView,
)
    requires
        state.valid(),
        settle_applies(state, id, by, run_no),
    ensures
        ({
            let after = settle_step(state, id, by, run_no, settlement, entry);
            let row = after.jobs[id];
            let job = state.jobs[id];
            &&& same_work(row, job) && row.run_count == job.run_count
            &&& !(settlement is Retry || settlement is Pause) ==> row.carry == job.carry
            &&& !(settlement is Retry || settlement is Dead) ==> row.failure_count
                == job.failure_count
            &&& !settlement.repends() ==> row.visible_at == job.visible_at
            &&& settlement.repends() ==> row.finished_at is None
            &&& after.jobs.dom() == state.jobs.dom()
            &&& forall|other: ulid::Ulid|
                other != id && state.jobs.contains_key(other) ==> #[trigger] after.jobs[other]
                    == state.jobs[other]
        }),
{
    assert(settle_step(state, id, by, run_no, settlement, entry).jobs.dom()
        =~= state.jobs.dom());
}

/// A recovery leaves the work, its carry and its run number as they were, and a merge the
/// job's identity, history and schedule. Every other job stays as it was.
pub proof fn recoveries_and_merges_touch_one_job(
    state: QueueState,
    id: ulid::Ulid,
    visible_at: Timestamp,
    failure_count: i32,
    run_no: u32,
    update: Option<MergePayload>,
    entry: AppendView,
    now: Timestamp,
)
    requires
        state.valid(),
    ensures
        recover_applies(state, id, run_no, now) ==> {
            let row = recover_step(
                state,
                id,
                visible_at,
                failure_count,
                run_no,
                entry,
                now,
            ).jobs[id];
            let job = state.jobs[id];
            same_work(row, job) && row.carry == job.carry && row.run_count == job.run_count
        },
        merge_applies(state, id) ==> {
            let row = merge_step(state, id, update, entry).jobs[id];
            let job = state.jobs[id];
            &&& row.id == job.id && row.kind == job.kind && row.created_at == job.created_at
            &&& row.visible_at == job.visible_at && row.dedup_key == job.dedup_key
            &&& row.status is Pending && row.run_count == job.run_count && row.failure_count
                == job.failure_count
        },
        forall|other: ulid::Ulid|
            other != id && state.jobs.contains_key(other) ==> #[trigger] recover_step(
                state,
                id,
                visible_at,
                failure_count,
                run_no,
                entry,
                now,
            ).jobs[other] == state.jobs[other],
        forall|other: ulid::Ulid|
            other != id && state.jobs.contains_key(other) ==> #[trigger] merge_step(
                state,
                id,
                update,
                entry,
            ).jobs[other] == state.jobs[other],
{
}

/// A run that is told to resume or retry later is not claimable before, and is from then
/// on, by a worker of its kind and tier.
pub proof fn repended_work_waits_for_its_time(
    state: QueueState,
    id: ulid::Ulid,
    by: Seq<char>,
    run_no: u32,
    settlement: Settlement,
    entry: AppendView,
    kinds: Seq<Seq<char>>,
    floor: i16,
    now: Timestamp,
    due: Timestamp,
)
    requires
        state.valid(),
        settle_applies(state, id, by, run_no),
        match settlement {
            Settlement::Retry { visible_at, .. } => visible_at == due,
            Settlement::Pause { visible_at, .. } => visible_at == due,
            Settlement::Release { visible_at } => visible_at == due,
            _ => false,
        },
        names_kind(kinds, state.jobs[id].kind),
        state.jobs[id].priority >= floor,
    ensures
        claimable(
            settle_step(state, id, by, run_no, settlement, entry).jobs[id],
            kinds,
            floor,
            now,
        ) <==> due.nanos() <= now.nanos(),
{
}

} // verus!
