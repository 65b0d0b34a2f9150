//! The runner capability: a fixed table of named operations, lookup into
//! it, and the decision `run` takes after resolving the configured log
//! level.
use crate::config::{lemma_level_round_trip, spec_parse_level, BaseConfig, LogLevel, Provider};
use crate::request::BaseRequest;
use crate::tree::{
    lemma_split_dots_first, lemma_split_dots_no_dot, shape_lookup, shape_map_lookup, split_dots,
    ConfigValue, Node, TreeShape,
};
use vstd::prelude::*;

verus! {

/// The command registered under `name`: the first entry whose key has the
/// same characters.
pub open spec fn cmd_lookup<C>(cmds: Seq<(String, C)>, name: Seq<char>) -> Option<C>
    decreases cmds.len(),
{
    if cmds.len() == 0 {
        None
    } else if cmds[0].0@ == name {
        Some(cmds[0].1)
    } else {
        cmd_lookup(cmds.drop_first(), name)
    }
}

/// What `run` does once the configured log level is resolved: fail on an
/// unparseable level, initialize logging at a parsed one, or leave logging
/// untouched when no level is configured.
#[derive(Clone, Copy, Debug, PartialEq, Eq, Structural)]
pub enum RunPlan {
    InvalidLogLevel,
    StartLog(LogLevel),
    SkipLog,
}

/// The shape of a resolved node, if one came back.
pub open spec fn opt_shape(level: Option<Node>) -> Option<TreeShape> {
    match level {
        Some(n) => Some(n.shape()),
        None => None,
    }
}

/// The decision taken for a resolved `log.level` shape: a present node must
/// be a string scalar naming a level, and anything else present is an
/// invalid level, fatal to `run`; only an absent node changes nothing.
pub open spec fn spec_run_plan(level: Option<TreeShape>) -> RunPlan {
    match level {
        Some(v) => match v {
            TreeShape::Str(s) => match spec_parse_level(s) {
                Some(l) => RunPlan::StartLog(l),
                None => RunPlan::InvalidLogLevel,
            },
            _ => RunPlan::InvalidLogLevel,
        },
        None => RunPlan::SkipLog,
    }
}

/// Decides what `run` does for the node a `log.level` lookup produced.
/// `handle` runs exactly when the result is not `InvalidLogLevel`.
pub fn run_plan(level: &Option<Node>) -> (r: RunPlan)
    ensures
        r == spec_run_plan(opt_shape(*level)),
{
    match level {
        Some(n) => match n.to_str() {
            Some(s) => {
                proof {
                    assert(n.shape() == TreeShape::Str(s@));
                }
                match LogLevel::parse(s.as_str()) {
                    Some(l) => RunPlan::StartLog(l),
                    None => RunPlan::InvalidLogLevel,
                }
            },
            None => {
                proof {
                    assert(!(n.shape() is Str)) by {
                        match *n {
                            Node::Str(_) => {
                                assert(false);
                            },
                            _ => {},
                        }
                    };
                }
                RunPlan::InvalidLogLevel
            },
        },
        None => RunPlan::SkipLog,
    }
}

/// The path `run` resolves splits into its two segment names.
pub proof fn lemma_split_log_level()
    ensures
        split_dots("log.level"@) =~~= seq!["log"@, "level"@],
{
    reveal_strlit("log.level");
    reveal_strlit("log");
    reveal_strlit("level");
    let s = "log.level"@;
    lemma_split_dots_first(s, 3);
    lemma_split_dots_no_dot(s.skip(4));
    assert(s.take(3) =~= "log"@);
    assert(s.skip(4) =~= "level"@);
}

/// On a well-formed config the log resolution step never fails: `run`
/// initializes logging at the configured level, or changes nothing when the
/// logging sub-config is left out.
pub proof fn lemma_plan_for_config(c: BaseConfig)
    ensures
        spec_run_plan(shape_lookup(c.snapshot_shape(), split_dots("log.level"@))) == match c.log {
            Some(lc) => RunPlan::StartLog(lc.level),
            None => RunPlan::SkipLog,
        },
{
    lemma_split_log_level();
    let keys = seq!["log"@, "level"@];
    let entries = c.snapshot_shape()->Mapping_0;
    assert(shape_map_lookup(entries, "log"@) == Some(entries[0].1));
    let sub = entries[0].1;
    assert(keys.drop_first() =~= seq!["level"@]);
    match c.log {
        Some(lc) => {
            let inner = sub->Mapping_0;
            assert(shape_map_lookup(inner, "level"@) == Some(inner[0].1));
            assert(seq!["level"@].drop_first() =~= Seq::<Seq<char>>::empty());
            assert(shape_lookup(inner[0].1, seq!["level"@].drop_first()) == Some(inner[0].1));
            assert(shape_lookup(sub, seq!["level"@]) == Some(inner[0].1));
            assert(keys[0] == "log"@);
            assert(keys.drop_first() == seq!["level"@]);
            assert(shape_lookup(c.snapshot_shape(), keys) == shape_lookup(sub, keys.drop_first()));
            assert(shape_lookup(c.snapshot_shape(), keys) == Some(inner[0].1));
            lemma_level_round_trip(lc.level);
        },
        None => {
            assert(seq!["level"@].len() == 1);
            assert(shape_lookup(sub, seq!["level"@]) is None);
            assert(shape_lookup(c.snapshot_shape(), keys) is None);
        },
    }
}

/// A name under which nothing is registered has no command: exactly then
/// does `find_command` come back empty, and exactly then does
/// `get_command`'s demand fail, the unconditional lookup being reserved for
/// names validated beforehand.
pub proof fn lemma_cmd_lookup_unregistered<C>(cmds: Seq<(String, C)>, name: Seq<char>)
    ensures
        (cmd_lookup(cmds, name) is None) <==> (forall|i: int|
            0 <= i < cmds.len() ==> cmds[i].0@ != name),
    decreases cmds.len(),
{
    if cmds.len() != 0 && cmds[0].0@ != name {
        lemma_cmd_lookup_unregistered(cmds.drop_first(), name);
        assert forall|i: int| 0 <= i < cmds.drop_first().len() implies cmds.drop_first()[i]
            == cmds[i + 1] by {}
        if cmd_lookup(cmds, name) is None {
            assert forall|i: int| 0 <= i < cmds.len() implies cmds[i].0@ != name by {
                if i > 0 {
                    assert(cmds.drop_first()[i - 1].0@ != name);
                }
            }
        }
    }
}

/// The runner capability: a request, a fixed command table, and the log
/// resolution step of `run`. The asynchronous operations themselves are the
/// command payloads, opaque to this table.
pub trait Runner: Sized {
    type Command;

    /// The fixed command table.
    spec fn spec_commands(&self) -> Seq<(String, Self::Command)>;

    /// The request this runner executes.
    spec fn spec_request(&self) -> BaseRequest;

    fn get_commands(&self) -> (r: &Vec<(String, Self::Command)>)
        ensures
            r@ == self.spec_commands(),
    ;

    fn get_request(&self) -> (r: &BaseRequest)
        ensures
            *r == self.spec_request(),
    ;

    /// Looks a command up by name; nothing comes back for an unregistered
    /// name.
    fn find_command(&self, name: &str) -> (r: Option<&Self::Command>)
        ensures
            match r {
                Some(c) => cmd_lookup(self.spec_commands(), name@) == Some(*c),
                None => cmd_lookup(self.spec_commands(), name@) is None,
            },
    {
        let cmds = self.get_commands();
        let mut j: usize = 0;
        proof {
            assert(self.spec_commands().skip(0) =~= self.spec_commands());
        }
        while j < cmds.len()
            invariant
                j <= cmds@.len(),
                cmds@ == self.spec_commands(),
                cmd_lookup(self.spec_commands(), name@) == cmd_lookup(
                    self.spec_commands().skip(j as int),
                    name@,
                ),
            decreases cmds@.len() - j,
        {
            let hit = crate::tree::str_eq(cmds[j].0.as_str(), name);
            proof {
                assert(self.spec_commands().skip(j as int).len() > 0);
                assert(self.spec_commands().skip(j as int)[0] == self.spec_commands()[j as int]);
            }
            if hit {
                return Some(&cmds[j].1);
            }
            proof {
                assert(self.spec_commands().skip(j as int).drop_first() =~= self.spec_commands().skip(
                    j as int + 1,
                ));
            }
            j += 1;
        }
        proof {
            assert(self.spec_commands().skip(j as int) =~= Seq::<(String, Self::Command)>::empty());
        }
        None
    }

    /// Unconditional command lookup: the name must be registered. Callers
    /// validate names before reaching the runner.
    fn get_command(&self, name: &str) -> (r: &Self::Command)
        requires
            cmd_lookup(self.spec_commands(), name@) is Some,
        ensures
            Some(*r) == cmd_lookup(self.spec_commands(), name@),
    {
        let r = self.find_command(name);
        r.unwrap()
    }

    /// Resolves `log.level` through the request's config and decides what
    /// `run` does: initialize logging, skip that, or fail before `handle`.
    fn plan_run(&self) -> (r: RunPlan)
        ensures
            r == spec_run_plan(
                match self.spec_request().config.spec_snapshot() {
                    Some(v) => shape_lookup(v, split_dots("log.level"@)),
                    None => None,
                },
            ),
    {
        let request = self.get_request();
        let level = request.config.get_value("log.level");
        run_plan(&level)
    }
}

/// A plain runner: one request and a fixed table of named commands, both
/// owned exclusively. The command payload type is chosen by the concrete
/// application; a payload commonly carries whatever the operation needs,
/// registered at construction, so no run-time type recovery is involved.
pub struct BaseRunner<C> {
    pub request: BaseRequest,
    pub commands: Vec<(String, C)>,
}

impl<C> BaseRunner<C> {
    pub fn new(request: BaseRequest, commands: Vec<(String, C)>) -> (r: BaseRunner<C>)
        ensures
            r.request == request,
            r.commands == commands,
    {
        BaseRunner { request, commands }
    }
}

impl<C> Runner for BaseRunner<C> {
    type Command = C;

    open spec fn spec_commands(&self) -> Seq<(String, C)> {
        self.commands@
    }

    open spec fn spec_request(&self) -> BaseRequest {
        self.request
    }

    fn get_commands(&self) -> (r: &Vec<(String, C)>) {
        &self.commands
    }

    fn get_request(&self) -> (r: &BaseRequest) {
        &self.request
    }
}

} // verus!
