use serde_yaml::Value;
use std::collections::HashMap;
use toolshed_runner::config::{override_config, BaseConfig, LogConfig, LogLevel, Provider};
use toolshed_runner::request::{BaseRequest, Request};
use toolshed_runner::runner::{run_plan, BaseRunner, RunPlan, Runner};
use toolshed_runner::tree::{resolve, split_path, ConfigValue, Node};

fn to_node(v: &Value) -> Node {
    match v {
        Value::Null => Node::Null,
        Value::Bool(b) => Node::Bool(*b),
        Value::Number(n) => Node::Int(n.as_i64().expect("integral scalar")),
        Value::String(s) => Node::Str(s.clone()),
        Value::Sequence(items) => Node::Sequence(items.iter().map(to_node).collect()),
        Value::Mapping(m) => Node::Mapping(
            m.iter()
                .map(|(k, v)| (k.as_str().expect("string key").to_string(), to_node(v)))
                .collect(),
        ),
        _ => Node::Null,
    }
}

fn to_yaml(n: &Node) -> Value {
    match n {
        Node::Null => Value::Null,
        Node::Bool(b) => Value::Bool(*b),
        Node::Int(i) => Value::Number((*i).into()),
        Node::Str(s) => Value::String(s.clone()),
        Node::Sequence(items) => Value::Sequence(items.iter().map(to_yaml).collect()),
        Node::Mapping(entries) => {
            let mut m = serde_yaml::Mapping::new();
            for (k, v) in entries {
                m.insert(Value::String(k.clone()), to_yaml(v));
            }
            Value::Mapping(m)
        }
    }
}

fn parse_tree(text: &str) -> Node {
    let v: Value = serde_yaml::from_str(text).expect("Unable to parse yaml");
    to_node(&v)
}

fn render<P: Provider>(config: &P) -> String {
    let tree = config.serialized().expect("serializable");
    serde_yaml::to_string(&to_yaml(&tree)).expect("renderable")
}

#[test]
fn test_logconfig_yaml() {
    let yaml = "
level: warning
        ";
    let config = LogConfig::from_tree(&parse_tree(yaml)).expect("Unable to parse yaml");
    let display = render(&config);
    assert_eq!(display.trim(), yaml.trim());
    assert_eq!(config.level, LogLevel::Warning);
}

#[test]
fn test_logconfig_yaml_default() {
    let yaml = "
        ";
    let expected = "
level: info
        ";
    let config = LogConfig::from_tree(&parse_tree(yaml)).expect("Unable to parse yaml");
    let display = render(&config);
    assert_eq!(display.trim(), expected.trim());
    assert_eq!(config.level, LogLevel::Info);
}

#[test]
fn test_baseconfig_yaml() {
    let yaml = "
log:
  level: error
        ";
    let config = BaseConfig::from_tree(&parse_tree(yaml)).expect("Unable to parse yaml");
    let display = render(&config);
    assert_eq!(display.trim(), yaml.trim());
    assert_eq!(config.log.unwrap().level, LogLevel::Error);
}

#[test]
fn test_baseconfig_yaml_default() {
    let config = BaseConfig::from_tree(&parse_tree("")).expect("Unable to parse yaml");
    assert_eq!(config.log.unwrap().level, LogLevel::Info);
}

#[test]
fn test_log_levels() {
    let map = HashMap::from([
        ("debug", LogLevel::Debug),
        ("error", LogLevel::Error),
        ("info", LogLevel::Info),
        ("trace", LogLevel::Trace),
        ("warning", LogLevel::Warning),
    ]);

    for (expected_str, log_level) in &map {
        assert_eq!(*expected_str, log_level.to_string());
    }
}

#[test]
fn test_level_round_trip() {
    let levels = [
        LogLevel::Error,
        LogLevel::Warning,
        LogLevel::Info,
        LogLevel::Debug,
        LogLevel::Trace,
    ];
    for level in levels {
        assert_eq!(LogLevel::parse(&level.to_string()), Some(level));
    }
    assert_eq!(LogLevel::parse("Error"), None);
    assert_eq!(LogLevel::parse(""), None);
}

#[test]
fn test_resolve_nested() {
    let tree = parse_tree("{a: {b: {c: 5}}}");
    let found = resolve(tree, &split_path("a.b.c"));
    assert!(matches!(found, Some(Node::Int(5))));
}

#[test]
fn test_resolve_missing_key() {
    let tree = parse_tree("{a: {b: {}}}");
    assert!(resolve(tree, &split_path("a.b.c")).is_none());
}

#[test]
fn test_resolve_into_non_mapping() {
    let tree = parse_tree("{a: 5}");
    assert!(resolve(tree, &split_path("a.b")).is_none());
}

#[test]
fn test_resolve_no_segments() {
    let found = resolve(Node::Int(5), &Vec::new());
    assert!(matches!(found, Some(Node::Int(5))));
}

#[test]
fn test_get_value_log_level() {
    let config = BaseConfig {
        log: Some(LogConfig {
            level: LogLevel::Error,
        }),
    };
    match config.get_value("log.level") {
        Some(Node::Str(s)) => assert_eq!(s, "error"),
        other => panic!("expected a string node, got {:?}", other),
    }
    match config.get("log.level").map(|n| n.to_str()) {
        Some(Some(s)) => assert_eq!(s, "error"),
        other => panic!("expected a string value, got {:?}", other),
    }
    assert!(config.get_value("log.missing").is_none());
}

#[test]
fn test_config_value_narrowing() {
    assert_eq!(Node::Str("warning".to_string()).to_str(), Some("warning".to_string()));
    assert_eq!(Node::Int(5).to_str(), None);
    assert_eq!(Node::Bool(true).to_str(), None);
    assert_eq!(Node::Null.to_str(), None);
}

#[test]
fn test_override_precedence() {
    let mut config = BaseConfig {
        log: Some(LogConfig {
            level: LogLevel::Info,
        }),
    };
    override_config(
        &mut config,
        &Some("debug".to_string()),
        &Some("trace".to_string()),
    );
    assert_eq!(config.log_level(), LogLevel::Trace);
}

#[test]
fn test_override_env_only() {
    let mut config = BaseConfig {
        log: Some(LogConfig {
            level: LogLevel::Info,
        }),
    };
    override_config(&mut config, &Some("debug".to_string()), &None);
    assert_eq!(config.log_level(), LogLevel::Debug);
}

#[test]
fn test_override_invalid_env() {
    let mut config = BaseConfig {
        log: Some(LogConfig {
            level: LogLevel::Info,
        }),
    };
    override_config(&mut config, &Some("loud".to_string()), &None);
    assert_eq!(config.log_level(), LogLevel::Info);
}

fn example_runner() -> BaseRunner<u32> {
    let config = BaseConfig {
        log: Some(LogConfig {
            level: LogLevel::Warning,
        }),
    };
    let request = BaseRequest::new(config, Some("run".to_string()));
    BaseRunner::new(request, vec![("run".to_string(), 7u32)])
}

#[test]
fn test_get_command_nonexistent() {
    let runner = example_runner();
    assert!(runner.find_command("nonexistent").is_none());
}

#[test]
fn test_get_command_registered() {
    let runner = example_runner();
    assert_eq!(*runner.get_command("run"), 7u32);
}

#[test]
fn test_run_plan_invalid_level() {
    let level = Some(Node::Str("not-a-level".to_string()));
    let mut handled = 0;
    match run_plan(&level) {
        RunPlan::InvalidLogLevel => {}
        _ => handled += 1,
    }
    assert_eq!(run_plan(&level), RunPlan::InvalidLogLevel);
    assert_eq!(handled, 0);
}

#[test]
fn test_run_plan_skips_without_level() {
    assert_eq!(run_plan(&None), RunPlan::SkipLog);
}

#[test]
fn test_run_plan_non_string_level_is_invalid() {
    assert_eq!(run_plan(&Some(Node::Int(3))), RunPlan::InvalidLogLevel);
    assert_eq!(run_plan(&Some(Node::Bool(true))), RunPlan::InvalidLogLevel);
}

#[test]
fn test_plan_run_configured_level() {
    let runner = example_runner();
    assert_eq!(runner.plan_run(), RunPlan::StartLog(LogLevel::Warning));
}

#[test]
fn test_request_accessors() {
    let config = BaseConfig { log: None };
    let request = BaseRequest::new(config, Some("cmd".to_string()));
    assert_eq!(request.get_name(), "cmd");
    assert_eq!(request.get_config().log_level(), LogLevel::Info);
    let anonymous = BaseRequest::new(BaseConfig { log: None }, None);
    assert_eq!(anonymous.get_name(), "");
}

#[test]
fn test_reserialize_structurally_equivalent() {
    let yaml = "log:\n  level: error\n";
    let parsed: Value = serde_yaml::from_str(yaml).expect("Unable to parse yaml");
    let config = BaseConfig::from_tree(&to_node(&parsed)).expect("Unable to parse yaml");
    let reserialized = to_yaml(&config.serialized().expect("serializable"));
    assert_eq!(reserialized, parsed);
}

#[test]
fn test_serialized_text_round_trip() {
    let content = "level: warning\n";
    let config = LogConfig::from_tree(&parse_tree(content)).expect("Unable to parse yaml");
    assert_eq!(render(&config), content);
}

#[test]
fn test_from_tree_rejections() {
    assert!(BaseConfig::from_tree(&Node::Int(3)).is_none());
    assert!(BaseConfig::from_tree(&parse_tree("{log: {level: nope}}")).is_none());
    assert!(BaseConfig::from_tree(&parse_tree("{log: 5}")).is_none());
    assert!(LogConfig::from_tree(&Node::Str("error".to_string())).is_none());
    assert!(LogConfig::from_tree(&parse_tree("{level: 3}")).is_none());
}

#[test]
fn test_base_config_null_log() {
    let config = BaseConfig::from_tree(&parse_tree("{log: ~}")).expect("Unable to parse yaml");
    assert!(config.log.is_none());
    assert_eq!(config.log_level(), LogLevel::Info);
}

#[test]
fn test_defaults() {
    assert_eq!(LogConfig::default_log_level(), LogLevel::Info);
    assert_eq!(
        LogConfig::default_log(),
        Some(LogConfig {
            level: LogLevel::Info
        })
    );
}
