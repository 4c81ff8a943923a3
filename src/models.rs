//! The records the service stores and hands out.

use vstd::prelude::*;

verus! {

/// A short identifier and the URL that it redirects to.
#[derive(Clone, Debug)]
pub struct Link {
    pub id: String,
    pub target_url: String,
}

impl View for Link {
    type V = (Seq<char>, Seq<char>);

    open spec fn view(&self) -> (Seq<char>, Seq<char>) {
        (self.id@, self.target_url@)
    }
}

/// The body of a create or update request: the URL to point at.
#[derive(Clone, Debug)]
pub struct LinkTarget {
    pub target_url: String,
}

/// One recorded redirect: the link it was for and the request's context.
#[derive(Clone, Debug)]
pub struct LinkStatistic {
    pub link_id: String,
    pub referer: Option<String>,
    pub user_agent: Option<String>,
}

/// The grouping key of a statistic: its referer and user agent.
pub open spec fn opt_view(o: Option<String>) -> Option<Seq<char>> {
    match o {
        Some(s) => Some(s@),
        None => None,
    }
}

impl View for LinkStatistic {
    type V = (Seq<char>, Option<Seq<char>>, Option<Seq<char>>);

    open spec fn view(&self) -> (Seq<char>, Option<Seq<char>>, Option<Seq<char>>) {
        (self.link_id@, opt_view(self.referer), opt_view(self.user_agent))
    }
}

/// How many recorded redirects of one link share a referer and a user agent.
#[derive(Clone, Debug)]
pub struct CountedLinkStatistic {
    pub amount: Option<i64>,
    pub referer: Option<String>,
    pub user_agent: Option<String>,
}

/// The singleton settings row: it holds the hex digest of the shared API key.
#[derive(Clone, Debug)]
pub struct Settings {
    pub id: String,
    pub encrypted_global_api_key: String,
}

/// Where the service listens and where its database is.
#[derive(Clone, Debug)]
pub struct Config {
    pub host: String,
    pub port: String,
    pub db_url: String,
}

/// The service, built from its configuration.
pub struct Server {
    config: Config,
}

impl Server {
    pub closed spec fn spec_config(&self) -> Config {
        self.config
    }

    pub fn new(config: Config) -> (r: Self)
        ensures
            r.spec_config() == config,
    {
        Self { config }
    }

    pub fn config(&self) -> (r: &Config)
        ensures
            *r == self.spec_config(),
    {
        &self.config
    }
}

} // verus!
