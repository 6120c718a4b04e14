use daily_todo::{default_date_format, default_habits, Args, Config, SubCommand};

#[test]
fn defaults() {
    assert_eq!(default_date_format(), "%Y-%m-%d");
    assert!(default_habits().is_empty());
    let c = Config::with_path("/tmp/todo".to_string());
    assert_eq!(c.path, "/tmp/todo");
    assert_eq!(c.date_format, "%Y-%m-%d");
    assert!(c.habits.is_empty());
}

#[test]
fn args_hold_their_fields() {
    let a = Args { config: None, subcmd: Some(SubCommand::Status) };
    assert_eq!(a.subcmd, Some(SubCommand::Status));
    assert!(a.config.is_none());
}
