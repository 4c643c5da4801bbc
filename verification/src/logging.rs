//! The log filter used when the environment sets none.

use vstd::prelude::*;

use crate::text::owned;

verus! {

broadcast use vstd::string::group_string_axioms;

/// The level of this crate's own logs: errors only when quiet, else info,
/// debug with one `-v`, trace with more.
pub open spec fn level_name(verbose: u8, quiet: bool) -> Seq<char> {
    if quiet {
        "error"@
    } else if verbose == 0 {
        "info"@
    } else if verbose == 1 {
        "debug"@
    } else {
        "trace"@
    }
}

/// The level of this crate's own logs.
pub fn default_level(verbose: u8, quiet: bool) -> (r: &'static str)
    ensures
        r@ == level_name(verbose, quiet),
{
    if quiet {
        "error"
    } else if verbose == 0 {
        "info"
    } else if verbose == 1 {
        "debug"
    } else {
        "trace"
    }
}

/// The filter directives: this crate at its level, the HTTP stack at warn.
pub fn default_filter(verbose: u8, quiet: bool) -> (r: String)
    ensures
        r@ == "appscreener_pattern_sync="@ + level_name(verbose, quiet)
            + ",reqwest=warn,hyper=warn,rustls=warn"@,
{
    let mut r = owned("appscreener_pattern_sync=");
    r.append(default_level(verbose, quiet));
    r.append(",reqwest=warn,hyper=warn,rustls=warn");
    r
}

} // verus!
