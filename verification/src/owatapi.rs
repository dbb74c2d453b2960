//! Where the feed lives.

use vstd::prelude::*;
use vstd::string::StringExecFns;

verus! {

/// The address under which the feed answers requests.
pub const OWAPI_BASE: &'static str = "https://overwatcharcade.today/api/v1/overwatch";

/// The page that shows today's game modes to a reader.
pub const OWTODAY_URL: &'static str = "https://overwatcharcade.today/overwatch";

/// The address to ask for today's game modes: the feed's address followed by
/// `/today`.
pub fn today_url() -> (url: String)
    ensures
        url@ == OWAPI_BASE@ + "/today"@,
{
    let mut url = String::from_str(OWAPI_BASE);
    url.append("/today");
    url
}

} // verus!
