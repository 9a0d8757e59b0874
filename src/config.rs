use vstd::prelude::*;

verus! {

/// Static settings of a collection run.
#[derive(Debug)]
pub struct AppConfig {
    pub organizations: Vec<String>,
    /// The lookback window, in days.
    pub days: usize,
    pub include_private: bool,
    pub rate_limit_delay_ms: usize,
    pub ignored_org_pattern: String,
    pub ignored_user_patterns: String,
    pub ignored_repo_patterns: String,
}

impl Default for AppConfig {
    fn default() -> (r: Self)
        ensures
            r.organizations@.len() == 0,
            r.days == 7,
            r.include_private,
            r.rate_limit_delay_ms == 500,
            r.ignored_org_pattern@ == Seq::<char>::empty(),
            r.ignored_user_patterns@ == Seq::<char>::empty(),
            r.ignored_repo_patterns@ == Seq::<char>::empty(),
    {
        AppConfig {
            organizations: Vec::new(),
            days: 7,
            include_private: true,
            rate_limit_delay_ms: 500,
            ignored_user_patterns: String::new(),
            ignored_repo_patterns: String::new(),
            ignored_org_pattern: String::new(),
        }
    }
}

} // verus!
