//! The configuration model: log levels, the logging sub-config, the base
//! config shape every concrete config embeds, and the provider capability
//! giving uniform dot-path lookup over a serialized snapshot.
use crate::tree::{
    lemma_lookup_shape, lookup, map_lookup, resolve, shape_entries, shape_lookup, split_dots,
    split_path, str_eq, Node, TreeShape,
};
use vstd::prelude::*;

verus! {

broadcast use vstd::string::group_string_axioms;

/// A log severity, from most severe (`Error`) to least (`Trace`). Each
/// variant has a canonical lowercase textual form with a parse inverse.
#[derive(Clone, Copy, Debug, PartialEq, Eq, Structural)]
pub enum LogLevel {
    Error,
    Warning,
    Info,
    Debug,
    Trace,
}

/// The canonical textual form of a log level.
pub open spec fn spec_level_name(l: LogLevel) -> Seq<char> {
    match l {
        LogLevel::Error => "error"@,
        LogLevel::Warning => "warning"@,
        LogLevel::Info => "info"@,
        LogLevel::Debug => "debug"@,
        LogLevel::Trace => "trace"@,
    }
}

/// The log level a string names, if any. Only the canonical lowercase forms
/// are recognized.
pub open spec fn spec_parse_level(s: Seq<char>) -> Option<LogLevel> {
    if s == spec_level_name(LogLevel::Error) {
        Some(LogLevel::Error)
    } else if s == spec_level_name(LogLevel::Warning) {
        Some(LogLevel::Warning)
    } else if s == spec_level_name(LogLevel::Info) {
        Some(LogLevel::Info)
    } else if s == spec_level_name(LogLevel::Debug) {
        Some(LogLevel::Debug)
    } else if s == spec_level_name(LogLevel::Trace) {
        Some(LogLevel::Trace)
    } else {
        None
    }
}

impl LogLevel {
    /// The canonical textual form of this level.
    pub fn to_string(&self) -> (r: String)
        ensures
            r@ == spec_level_name(*self),
    {
        match self {
            LogLevel::Error => "error".to_owned(),
            LogLevel::Warning => "warning".to_owned(),
            LogLevel::Info => "info".to_owned(),
            LogLevel::Debug => "debug".to_owned(),
            LogLevel::Trace => "trace".to_owned(),
        }
    }

    /// Parses the canonical textual form of a level; any other string is
    /// rejected.
    pub fn parse(s: &str) -> (r: Option<LogLevel>)
        ensures
            r == spec_parse_level(s@),
    {
        if str_eq(s, "error") {
            Some(LogLevel::Error)
        } else if str_eq(s, "warning") {
            Some(LogLevel::Warning)
        } else if str_eq(s, "info") {
            Some(LogLevel::Info)
        } else if str_eq(s, "debug") {
            Some(LogLevel::Debug)
        } else if str_eq(s, "trace") {
            Some(LogLevel::Trace)
        } else {
            None
        }
    }
}

/// Parsing the canonical textual form of any level gives that level back.
pub proof fn lemma_level_round_trip(l: LogLevel)
    ensures
        spec_parse_level(spec_level_name(l)) == Some(l),
{
    reveal_strlit("error");
    reveal_strlit("warning");
    reveal_strlit("info");
    reveal_strlit("debug");
    reveal_strlit("trace");
    assert(("error"@).len() == 5 && ("error"@)[0] == 'e');
    assert(("warning"@).len() == 7 && ("warning"@)[0] == 'w');
    assert(("info"@).len() == 4 && ("info"@)[0] == 'i');
    assert(("debug"@).len() == 5 && ("debug"@)[0] == 'd');
    assert(("trace"@).len() == 5 && ("trace"@)[0] == 't');
    assert(spec_parse_level(spec_level_name(LogLevel::Error)) == Some(LogLevel::Error));
    assert(spec_parse_level(spec_level_name(LogLevel::Warning)) == Some(LogLevel::Warning));
    assert(spec_parse_level(spec_level_name(LogLevel::Info)) == Some(LogLevel::Info));
    assert(spec_parse_level(spec_level_name(LogLevel::Debug)) == Some(LogLevel::Debug));
    assert(spec_parse_level(spec_level_name(LogLevel::Trace)) == Some(LogLevel::Trace));
}

/// The logging sub-config. Every concrete config owns exactly one.
#[derive(Clone, Copy, Debug, PartialEq, Eq, Structural)]
pub struct LogConfig {
    pub level: LogLevel,
}

impl LogConfig {
    /// The level used when a config names none.
    pub fn default_log_level() -> (l: LogLevel)
        ensures
            l == LogLevel::Info,
    {
        LogLevel::Info
    }

    /// The logging sub-config used when a config names none.
    pub fn default_log() -> (r: Option<LogConfig>)
        ensures
            r == Some(LogConfig { level: LogLevel::Info }),
    {
        Some(LogConfig { level: Self::default_log_level() })
    }

    /// The logging sub-config a tree node describes: a mapping whose `level`
    /// entry, if present, is the canonical form of a level. An absent `level`
    /// defaults to `Info`, as does an empty (null) node.
    pub open spec fn spec_from_tree(t: Node) -> Option<LogConfig> {
        match t {
            Node::Null => Some(LogConfig { level: LogLevel::Info }),
            Node::Mapping(entries) => match map_lookup(entries@, "level"@) {
                None => Some(LogConfig { level: LogLevel::Info }),
                Some(Node::Str(s)) => match spec_parse_level(s@) {
                    Some(l) => Some(LogConfig { level: l }),
                    None => None,
                },
                Some(_) => None,
            },
            _ => None,
        }
    }

    /// Reads a logging sub-config out of a tree, filling in the default
    /// level when none is named.
    pub fn from_tree(t: &Node) -> (r: Option<LogConfig>)
        ensures
            r == Self::spec_from_tree(*t),
    {
        match t {
            Node::Null => Some(LogConfig { level: LogLevel::Info }),
            Node::Mapping(entries) => match crate::tree::mapping_get(entries, "level") {
                None => Some(LogConfig { level: LogLevel::Info }),
                Some(Node::Str(s)) => match LogLevel::parse(s.as_str()) {
                    Some(l) => Some(LogConfig { level: l }),
                    None => None,
                },
                Some(_) => None,
            },
            _ => None,
        }
    }

    /// Whether `t` is the structural snapshot of this sub-config.
    pub open spec fn tree_rep(self, t: Node) -> bool {
        &&& t matches Node::Mapping(entries)
        &&& entries@.len() == 1
        &&& entries@[0].0@ == "level"@
        &&& (entries@[0].1 matches Node::Str(s) && s@ == spec_level_name(self.level))
    }

    /// The shape of this sub-config's snapshot.
    pub open spec fn snapshot_shape(self) -> TreeShape {
        TreeShape::Mapping(seq![("level"@, TreeShape::Str(spec_level_name(self.level)))])
    }
}

/// A snapshot of a logging sub-config parses back to that sub-config.
pub proof fn lemma_log_config_round_trip(c: LogConfig, t: Node)
    requires
        c.tree_rep(t),
    ensures
        LogConfig::spec_from_tree(t) == Some(c),
{
    let entries = t->Mapping_0;
    assert(map_lookup(entries@, "level"@) == Some(entries@[0].1));
    lemma_level_round_trip(c.level);
}

/// The base config shape: one logging sub-config, present after defaulting.
#[derive(Clone, Debug)]
pub struct BaseConfig {
    pub log: Option<LogConfig>,
}

impl BaseConfig {
    /// The configured log level, or the default when the logging sub-config
    /// is absent.
    pub open spec fn spec_log_level(self) -> LogLevel {
        match self.log {
            Some(lc) => lc.level,
            None => LogLevel::Info,
        }
    }

    pub fn log_level(&self) -> (l: LogLevel)
        ensures
            l == self.spec_log_level(),
    {
        match &self.log {
            Some(lc) => lc.level,
            None => LogLevel::Info,
        }
    }

    /// The base config a tree node describes. An absent `log` entry defaults
    /// to an `Info`-level logging sub-config; a null one leaves it out.
    pub open spec fn spec_from_tree(t: Node) -> Option<BaseConfig> {
        match t {
            Node::Null => Some(BaseConfig { log: Some(LogConfig { level: LogLevel::Info }) }),
            Node::Mapping(entries) => match map_lookup(entries@, "log"@) {
                None => Some(BaseConfig { log: Some(LogConfig { level: LogLevel::Info }) }),
                Some(Node::Null) => Some(BaseConfig { log: None }),
                Some(sub) => match LogConfig::spec_from_tree(sub) {
                    Some(lc) => Some(BaseConfig { log: Some(lc) }),
                    None => None,
                },
            },
            _ => None,
        }
    }

    /// Reads a base config out of a tree, filling in the default logging
    /// sub-config when none is named.
    pub fn from_tree(t: &Node) -> (r: Option<BaseConfig>)
        ensures
            r == Self::spec_from_tree(*t),
    {
        match t {
            Node::Null => Some(BaseConfig { log: Some(LogConfig { level: LogLevel::Info }) }),
            Node::Mapping(entries) => match crate::tree::mapping_get(entries, "log") {
                None => Some(BaseConfig { log: Some(LogConfig { level: LogLevel::Info }) }),
                Some(Node::Null) => Some(BaseConfig { log: None }),
                Some(sub) => match LogConfig::from_tree(sub) {
                    Some(lc) => Some(BaseConfig { log: Some(lc) }),
                    None => None,
                },
            },
            _ => None,
        }
    }

    /// Whether `t` is the structural snapshot of this config.
    pub open spec fn tree_rep(self, t: Node) -> bool {
        &&& t matches Node::Mapping(entries)
        &&& entries@.len() == 1
        &&& entries@[0].0@ == "log"@
        &&& match self.log {
            Some(lc) => lc.tree_rep(entries@[0].1),
            None => entries@[0].1 is Null,
        }
    }

    /// The shape of this config's snapshot.
    pub open spec fn snapshot_shape(self) -> TreeShape {
        TreeShape::Mapping(
            seq![
                (
                    "log"@,
                    match self.log {
                        Some(lc) => lc.snapshot_shape(),
                        None => TreeShape::Null,
                    },
                ),
            ],
        )
    }
}

/// A tree with an empty or absent `log` section describes a config whose
/// level is the default, `Info`.
pub proof fn lemma_absent_log_defaults(t: Node)
    requires
        t is Null || (t matches Node::Mapping(entries) && map_lookup(entries@, "log"@) is None),
    ensures
        BaseConfig::spec_from_tree(t) matches Some(c) && c.spec_log_level() == LogLevel::Info,
{
}

/// A snapshot of a base config parses back to that config.
pub proof fn lemma_base_config_round_trip(c: BaseConfig, t: Node)
    requires
        c.tree_rep(t),
    ensures
        BaseConfig::spec_from_tree(t) == Some(c),
{
    let entries = t->Mapping_0;
    assert(map_lookup(entries@, "log"@) == Some(entries@[0].1));
    if let Some(lc) = c.log {
        lemma_log_config_round_trip(lc, entries@[0].1);
    }
}

/// The capability every configuration object offers: a structural snapshot
/// of itself, dot-path lookup over that snapshot, and in-place override of
/// its logging sub-config.
pub trait Provider: Sized {
    /// Whether `t` is a structural snapshot of the current state.
    spec fn tree_rep(&self, t: Node) -> bool;

    /// The shape of the snapshot the current state serializes to, or
    /// nothing if that state cannot be represented as a tree. This pins
    /// every snapshot a provider may produce.
    spec fn spec_snapshot(&self) -> Option<TreeShape>;

    /// The current logging sub-config, if one is present.
    spec fn log_state(&self) -> Option<LogConfig>;

    /// The state after overwriting the level of the logging sub-config,
    /// everything else kept.
    spec fn with_log_level(self, level: LogLevel) -> Self;

    /// Produces a full structural snapshot of the current configuration
    /// state; fails only if that state cannot be represented as a tree.
    fn serialized(&self) -> (r: Option<Node>)
        ensures
            (r is Some) == (self.spec_snapshot() is Some),
            r matches Some(t) ==> Some(t.shape()) == self.spec_snapshot(),
    ;

    /// Overwrites the level of the logging sub-config. The sub-config must
    /// be present: it is mandatory by the time any override runs.
    fn set_log_level(&mut self, level: LogLevel)
        requires
            old(self).log_state() is Some,
        ensures
            *final(self) == old(self).with_log_level(level),
            final(self).log_state() == Some(LogConfig { level }),
    ;

    /// Splits `key` on `.`, serializes, and resolves the segments against
    /// the snapshot; nothing comes back if serialization or resolution
    /// fails. The result is fixed, shape for shape, by the snapshot alone.
    fn get_value(&self, key: &str) -> (r: Option<Node>)
        ensures
            match self.spec_snapshot() {
                Some(v) => match r {
                    Some(n) => shape_lookup(v, split_dots(key@)) == Some(n.shape()),
                    None => shape_lookup(v, split_dots(key@)) is None,
                },
                None => r is None,
            },
    {
        let keys = split_path(key);
        match self.serialized() {
            Some(t) => {
                let ghost snapshot = t;
                let r = resolve(t, &keys);
                proof {
                    lemma_lookup_shape(snapshot, split_dots(key@));
                    assert(lookup(snapshot, split_dots(key@)) == r);
                }
                r
            },
            None => None,
        }
    }

    /// Convenience wrapping of `get_value`: the resolved node, to be
    /// narrowed through its string form. Returns exactly what `get_value`
    /// returns, shape for shape.
    fn get(&self, key: &str) -> (r: Option<Node>)
        ensures
            match self.spec_snapshot() {
                Some(v) => match r {
                    Some(n) => shape_lookup(v, split_dots(key@)) == Some(n.shape()),
                    None => shape_lookup(v, split_dots(key@)) is None,
                },
                None => r is None,
            },
    {
        self.get_value(key)
    }
}

/// The shape of a one-entry entry list.
proof fn lemma_singleton_mapping_shape(entries: Seq<(String, Node)>)
    requires
        entries.len() == 1,
    ensures
        shape_entries(entries) =~= seq![(entries[0].0@, entries[0].1.shape())],
{
    assert(shape_entries(entries.drop_first()) =~= Seq::<(Seq<char>, TreeShape)>::empty());
}

impl Provider for BaseConfig {
    open spec fn tree_rep(&self, t: Node) -> bool {
        BaseConfig::tree_rep(*self, t)
    }

    open spec fn spec_snapshot(&self) -> Option<TreeShape> {
        Some(BaseConfig::snapshot_shape(*self))
    }

    open spec fn log_state(&self) -> Option<LogConfig> {
        self.log
    }

    open spec fn with_log_level(self, level: LogLevel) -> BaseConfig {
        BaseConfig { log: Some(LogConfig { level }) }
    }

    fn serialized(&self) -> (r: Option<Node>)
        ensures
            r matches Some(t) && BaseConfig::tree_rep(*self, t),
    {
        let sub = match &self.log {
            Some(lc) => {
                let mut inner: Vec<(String, Node)> = Vec::new();
                inner.push(("level".to_owned(), Node::Str(lc.level.to_string())));
                proof {
                    lemma_singleton_mapping_shape(inner@);
                }
                Node::Mapping(inner)
            },
            None => Node::Null,
        };
        let mut entries: Vec<(String, Node)> = Vec::new();
        entries.push(("log".to_owned(), sub));
        proof {
            lemma_singleton_mapping_shape(entries@);
        }
        Some(Node::Mapping(entries))
    }

    fn set_log_level(&mut self, level: LogLevel)
        ensures
            *final(self) == (BaseConfig { log: Some(LogConfig { level }) }),
    {
        self.log = Some(LogConfig { level });
    }
}

impl Provider for LogConfig {
    open spec fn tree_rep(&self, t: Node) -> bool {
        LogConfig::tree_rep(*self, t)
    }

    open spec fn spec_snapshot(&self) -> Option<TreeShape> {
        Some(LogConfig::snapshot_shape(*self))
    }

    open spec fn log_state(&self) -> Option<LogConfig> {
        Some(*self)
    }

    open spec fn with_log_level(self, level: LogLevel) -> LogConfig {
        LogConfig { level }
    }

    fn serialized(&self) -> (r: Option<Node>)
        ensures
            r matches Some(t) && LogConfig::tree_rep(*self, t),
    {
        let mut entries: Vec<(String, Node)> = Vec::new();
        entries.push(("level".to_owned(), Node::Str(self.level.to_string())));
        proof {
            lemma_singleton_mapping_shape(entries@);
        }
        Some(Node::Mapping(entries))
    }

    fn set_log_level(&mut self, level: LogLevel) {
        self.level = level;
    }
}

/// The level an override source carries, if it parses.
pub open spec fn spec_override_level(source: Option<String>) -> Option<LogLevel> {
    match source {
        Some(s) => spec_parse_level(s@),
        None => None,
    }
}

/// The config after both override sources are applied in order: the
/// environment's value first, then the explicit argument override, each
/// only where it parses as a level, and nothing else changed.
pub open spec fn spec_override<P: Provider>(
    config: P,
    env_level: Option<String>,
    arg_level: Option<String>,
) -> P {
    let after_env = match spec_override_level(env_level) {
        Some(l) => config.with_log_level(l),
        None => config,
    };
    match spec_override_level(arg_level) {
        Some(l) => after_env.with_log_level(l),
        None => after_env,
    }
}

/// Applies the two log-level override sources to a loaded config: first the
/// environment's value, then an explicit argument override, so the argument
/// wins when both parse. A source that is absent or does not parse as a
/// level is silently ignored, and nothing besides the log level changes.
pub fn override_config<P: Provider>(config: &mut P, env_level: &Option<String>, arg_level: &Option<String>)
    requires
        spec_override_level(*env_level) is Some || spec_override_level(*arg_level) is Some
            ==> old(config).log_state() is Some,
    ensures
        *final(config) == spec_override(*old(config), *env_level, *arg_level),
        match spec_override_level(*arg_level) {
            Some(l) => final(config).log_state() == Some(LogConfig { level: l }),
            None => match spec_override_level(*env_level) {
                Some(l) => final(config).log_state() == Some(LogConfig { level: l }),
                None => *final(config) == *old(config),
            },
        },
{
    if let Some(s) = env_level {
        if let Some(l) = LogLevel::parse(s.as_str()) {
            config.set_log_level(l);
        }
    }
    if let Some(s) = arg_level {
        if let Some(l) = LogLevel::parse(s.as_str()) {
            config.set_log_level(l);
        }
    }
}

} // verus!
