//! A request pairs a configuration with an optional name; a runner consumes
//! exactly one.
use crate::config::BaseConfig;
use vstd::prelude::*;

verus! {

/// The capability a runner needs from a request: access to its config and
/// to its name.
pub trait Request: Sized {
    /// The configuration held.
    spec fn spec_config(&self) -> BaseConfig;

    /// The name held, if any.
    spec fn spec_name(&self) -> Option<Seq<char>>;

    fn get_config(&self) -> (r: &BaseConfig)
        ensures
            *r == self.spec_config(),
    ;

    /// The request's name, or the empty string when it has none.
    fn get_name(&self) -> (r: &str)
        ensures
            match self.spec_name() {
                Some(n) => r@ == n,
                None => r@ == Seq::<char>::empty(),
            },
    ;
}

/// A plain request: a base config and an optional name, owned exclusively
/// and immutable after construction.
pub struct BaseRequest {
    pub config: BaseConfig,
    pub name: Option<String>,
}

impl BaseRequest {
    pub fn new(config: BaseConfig, name: Option<String>) -> (r: BaseRequest)
        ensures
            r.config == config,
            r.name == name,
    {
        BaseRequest { config, name }
    }
}

impl Request for BaseRequest {
    open spec fn spec_config(&self) -> BaseConfig {
        self.config
    }

    open spec fn spec_name(&self) -> Option<Seq<char>> {
        match self.name {
            Some(n) => Some(n@),
            None => None,
        }
    }

    fn get_config(&self) -> (r: &BaseConfig) {
        &self.config
    }

    fn get_name(&self) -> (r: &str) {
        match &self.name {
            Some(n) => n.as_str(),
            None => {
                proof {
                    reveal_strlit("");
                    assert(""@ =~= Seq::<char>::empty());
                }
                ""
            },
        }
    }
}

} // verus!
