//! What a store is opened with: the driver's parameters and a validated prefix.
use crate::error::{Error, ErrorView};
use crate::postgres::prefix::{prefix_refusal, safe_prefix, TablePrefix};
use vstd::prelude::*;

verus! {

/// The parameters the PostgreSQL driver opens a connection with. They are carried from
/// the parsed connection string to the pool and the listener, and nothing here looks
/// inside.
#[verifier::external_type_specification]
#[verifier::external_body]
pub struct ExConfig(tokio_postgres::Config);

/// What `<tokio_postgres::Config as FromStr>::from_str` makes of a connection string:
/// the parameters it gives, or the text of the error it is refused with.
///
/// The driver reads the string alone, in its key-value or its URL form. It consults no
/// environment, file or clock. What a string means is settled when the driver is
/// built: a host written as a path is a socket's directory on Unix and a name
/// elsewhere. The grammar of either form is left unsaid.
pub uninterp spec fn driver_parameters(dsn: Seq<char>) -> Result<
    tokio_postgres::Config,
    Seq<char>,
>;

/// Parse a connection string with `<tokio_postgres::Config as FromStr>::from_str`.
///
/// The parameters, or the displayed text of the refusal, are trusted to be those that
/// `driver_parameters` names for the string.
#[verifier::external_body]
fn parse_dsn(dsn: &str) -> (r: Result<tokio_postgres::Config, String>)
    ensures
        driver_parameters(dsn@) == (match r {
            Ok(config) => Ok::<tokio_postgres::Config, Seq<char>>(config),
            Err(text) => Err(text@),
        }),
{
    dsn.parse::<tokio_postgres::Config>().map_err(|error| error.to_string())
}

/// Whether `r` is what opening a store comes to, with the parameters `parsed` stands
/// for and a prefix.
///
/// Parameters that could not be read are a database error with the driver's text,
/// whatever the prefix is. Otherwise an unsafe prefix is refused, and a safe one is
/// handed on with the parameters unchanged.
pub open spec fn opens_with(
    parsed: Result<tokio_postgres::Config, Seq<char>>,
    prefix: Seq<char>,
    r: Result<(tokio_postgres::Config, TablePrefix), Error>,
) -> bool {
    match parsed {
        Err(text) => r matches Err(error) && error@ == ErrorView::Database(text),
        Ok(config) => if safe_prefix(prefix) {
            r matches Ok(pair) && pair.0 == config && pair.1@ == prefix
        } else {
            r matches Err(error) && error@ == prefix_refusal(prefix)
        },
    }
}

/// Pair the driver's parameters with the validated prefix of a store's tables.
pub fn with_parameters(parsed: Result<tokio_postgres::Config, String>, prefix: &str) -> (r: Result<
    (tokio_postgres::Config, TablePrefix),
    Error,
>)
    ensures
        opens_with(
            match parsed {
                Ok(config) => Ok::<tokio_postgres::Config, Seq<char>>(config),
                Err(text) => Err(text@),
            },
            prefix@,
            r,
        ),
{
    match parsed {
        Err(text) => Err(Error::Database(text)),
        Ok(config) => match TablePrefix::new(prefix) {
            Ok(accepted) => Ok((config, accepted)),
            Err(error) => Err(error),
        },
    }
}

/// The parameters and the prefix of a store whose database `dsn` names.
///
/// Nothing is connected here: the pool and the listener are opened from what this
/// returns.
pub fn connection(dsn: &str, prefix: &str) -> (r: Result<
    (tokio_postgres::Config, TablePrefix),
    Error,
>)
    ensures
        opens_with(driver_parameters(dsn@), prefix@, r),
{
    with_parameters(parse_dsn(dsn), prefix)
}

} // verus!
