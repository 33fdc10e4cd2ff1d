//! What a user has chosen, and what holds until they choose.

use vstd::prelude::*;

verus! {

/// A user's choices.
#[derive(Clone, Debug)]
pub struct UserSettings {
    pub default_symbol: String,
    pub default_range: String,
    pub default_interval: String,
    pub cache_ttl_minutes: i64,
    pub theme: String,
}

impl Default for UserSettings {
    /// A year of daily prices of 7203.T, kept for fifteen minutes, on a
    /// light theme.
    fn default() -> (s: UserSettings)
        ensures
            s.default_symbol@ == "7203.T"@,
            s.default_range@ == "1y"@,
            s.default_interval@ == "1d"@,
            s.cache_ttl_minutes == 15,
            s.theme@ == "light"@,
    {
        UserSettings {
            default_symbol: "7203.T".to_owned(),
            default_range: "1y".to_owned(),
            default_interval: "1d".to_owned(),
            cache_ttl_minutes: 15,
            theme: "light".to_owned(),
        }
    }
}

} // verus!
