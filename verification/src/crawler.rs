//! The settings of the web crawler agent.

use vstd::prelude::*;

verus! {

/// How the crawler calls its ability, how much of a page it answers, and
/// under which name it fetches.
#[derive(Debug, PartialEq, Eq)]
pub struct CrawlerConf {
    pub ability_name: String,
    pub max_snippet_chars: usize,
    pub user_agent: String,
}

impl Clone for CrawlerConf {
    fn clone(&self) -> (r: Self)
        ensures
            r == *self,
    {
        CrawlerConf {
            ability_name: self.ability_name.clone(),
            max_snippet_chars: self.max_snippet_chars,
            user_agent: self.user_agent.clone(),
        }
    }
}

impl Default for CrawlerConf {
    fn default() -> (conf: Self)
        ensures
            conf.ability_name@ == "web.crawl"@,
            conf.max_snippet_chars == 480,
            conf.user_agent@ == "tim-crawler/0.1"@,
    {
        CrawlerConf {
            ability_name: String::from_str("web.crawl"),
            max_snippet_chars: 480,
            user_agent: String::from_str("tim-crawler/0.1"),
        }
    }
}

} // verus!
