use nitro_agent::telecode::commands::parse_command;

#[test]
fn parse_simple_command() {
    let cmd = parse_command("/start").unwrap();
    assert_eq!(cmd.name, "start");
    assert_eq!(cmd.args, "");
}

#[test]
fn parse_command_with_args() {
    let cmd = parse_command("/mode safe").unwrap();
    assert_eq!(cmd.name, "mode");
    assert_eq!(cmd.args, "safe");
}

#[test]
fn parse_command_with_bot_mention() {
    let cmd = parse_command("/start@mybot").unwrap();
    assert_eq!(cmd.name, "start");
}

#[test]
fn parse_no_command() {
    assert!(parse_command("hello world").is_none());
}

#[test]
fn parse_new_alias() {
    let cmd = parse_command("/new").unwrap();
    assert_eq!(cmd.name, "new");
}
