use dora_event_stream::template::{check_name, check_operator_name, create, CreateError, Kind, NameKind, Scaffold};

#[test]
fn create_custom_node_and_dataflow() {
    assert_eq!(create(Kind::CustomNode, "talker"), Ok(Scaffold::CustomNode));
    assert_eq!(create(Kind::Dataflow, "my_flow"), Ok(Scaffold::Dataflow));
}

#[test]
fn operators_are_refused() {
    assert_eq!(create(Kind::Operator, "op"), Err(CreateError::OperatorsDeprecated));
}

#[test]
fn names_without_separators() {
    assert_eq!(
        create(Kind::Dataflow, "a/b"),
        Err(CreateError::Separator { what: NameKind::Dataflow, separator: '/' })
    );
    assert_eq!(
        check_name(NameKind::Node, "nödé/x"),
        Err(CreateError::Separator { what: NameKind::Node, separator: '/' })
    );
}

#[test]
fn names_are_ascii() {
    assert_eq!(create(Kind::CustomNode, "nödé"), Err(CreateError::NotAscii { what: NameKind::Node }));
}

#[test]
fn operator_names() {
    assert_eq!(check_operator_name("my_op"), Ok(()));
    assert_eq!(
        check_operator_name("my-op"),
        Err(CreateError::Separator { what: NameKind::Operator, separator: '-' })
    );
    assert_eq!(
        check_operator_name("a/b-c"),
        Err(CreateError::Separator { what: NameKind::Operator, separator: '/' })
    );
    assert_eq!(check_operator_name("öp"), Err(CreateError::NotAscii { what: NameKind::Operator }));
}

use dora_event_stream::environment::{daemon_status, environment_check_failed, DaemonStatus};

#[test]
fn daemon_status_lines() {
    let running = daemon_status(Some(Ok(vec!["m1".to_string()])));
    assert!(matches!(&running, DaemonStatus::Running(m) if m == &vec!["m1".to_string()]));
    assert!(!environment_check_failed(&running));
    let none = daemon_status(Some(Ok(vec![])));
    assert!(matches!(none, DaemonStatus::NotRunning));
    assert!(environment_check_failed(&none));
    let failed = daemon_status(Some(Err("timeout".to_string())));
    assert!(environment_check_failed(&failed));
    let unknown = daemon_status(None);
    assert!(matches!(unknown, DaemonStatus::Unknown));
    assert!(!environment_check_failed(&unknown));
}
