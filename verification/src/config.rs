//! What a run is told at its start: the mode it works in, and the headers
//! that its requests bear.

use vstd::prelude::*;
use vstd::string::*;

verus! {

/// The options of a run.
#[derive(Debug, Clone, PartialEq, Eq)]
pub struct Options {
    /// Where the store is.
    pub database_url: String,
    /// How many listings to probe.
    pub iterations: Option<u32>,
    /// Gather the comments of the stored issues.
    pub populate_comments: bool,
    /// Write the report of commit activity.
    pub generate_csv: bool,
}

/// What a run does. It does one of these from start to end.
#[derive(Debug, Clone, Copy, PartialEq, Eq, Structural)]
pub enum Mode {
    /// Probe `iterations` listings for repositories with too-heated issues.
    Discover { iterations: u32 },
    /// Gather the comments of the stored issues.
    EnrichComments,
    /// Count the commits around each toxic comment and write the report.
    ExportCsv,
}

/// Why a run cannot start.
#[derive(Debug, Clone, Copy, PartialEq, Eq, Structural)]
pub enum ConfigError {
    /// No mode was chosen and no number of listings was given.
    MissingIterations,
}

/// The mode that `populate_comments`, `generate_csv` and `iterations`
/// select, in this order of precedence.
pub open spec fn mode_of(populate_comments: bool, generate_csv: bool, iterations: Option<u32>)
    -> Result<Mode, ConfigError> {
    if populate_comments {
        Ok(Mode::EnrichComments)
    } else if generate_csv {
        Ok(Mode::ExportCsv)
    } else {
        match iterations {
            Some(n) => Ok(Mode::Discover { iterations: n }),
            None => Err(ConfigError::MissingIterations),
        }
    }
}

/// The mode that `options` select.
pub fn select_mode(options: &Options) -> (r: Result<Mode, ConfigError>)
    ensures
        r == mode_of(options.populate_comments, options.generate_csv, options.iterations),
{
    if options.populate_comments {
        Ok(Mode::EnrichComments)
    } else if options.generate_csv {
        Ok(Mode::ExportCsv)
    } else {
        match options.iterations {
            Some(n) => Ok(Mode::Discover { iterations: n }),
            None => Err(ConfigError::MissingIterations),
        }
    }
}

/// How many addresses a discovering run draws: one to begin with and one
/// after each listing it has probed.
pub open spec fn draws_of(iterations: u32) -> nat {
    iterations as nat + 1
}

/// The headers that every request bears.
pub struct RequestHeaders {
    pub accept: String,
    pub user_agent: String,
    pub authorization: String,
}

/// The headers of a request made with the credential `token`.
pub fn request_headers(token: &str) -> (headers: RequestHeaders)
    ensures
        headers.accept@ == "application/vnd.github+json"@,
        headers.user_agent@ == "toxicity-metodologia"@,
        headers.authorization@ == "Bearer "@ + token@,
{
    let mut authorization: String = String::from_str("Bearer ");
    authorization.append(token);
    RequestHeaders {
        accept: String::from_str("application/vnd.github+json"),
        user_agent: String::from_str("toxicity-metodologia"),
        authorization,
    }
}

} // verus!
