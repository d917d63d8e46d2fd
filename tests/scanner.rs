use kvsnap::command::{Command, ConfigCmd, ConfigKey};
use kvsnap::scanner::{scan, scan_command};

#[test]
fn test_scan() {
    const ECHO: &str = "*2\r\n$4\r\necho\r\n$12\r\ntoma mensaje\r\n";
    let cmd = scan(ECHO);
    assert_eq!(*cmd, [Command::Echo("toma mensaje".to_string())]);
}

#[test]
fn test_scan_set() {
    const SET: &str = "*3\r\n$3\r\nSET\r\n$5\r\nmykey\r\n$5\r\nHello\r\n";
    let cmd = scan(SET);
    assert_eq!(
        *cmd,
        [Command::SetKey("mykey".to_string(), "Hello".to_string(), None)]
    );
}

#[test]
fn test_scan_set_timeout() {
    const SET: &str =
        "*2\r\n$3\r\nSET\r\n$5\r\nmykey\r\n$5\r\nHello\r\n$2\r\nPX\r\n$3\r\n100\r\n";
    let cmd = scan(SET);
    assert_eq!(
        *cmd,
        [Command::SetKey(
            "mykey".to_string(),
            "Hello".to_string(),
            Some(100)
        )]
    );
}

fn words(ws: &[&str]) -> Vec<String> {
    ws.iter().map(|w| w.to_string()).collect()
}

#[test]
fn scan_pipelined_frames_in_order() {
    let cmds = scan("*1\r\n$4\r\nPING\r\n*2\r\n$3\r\nGET\r\n$1\r\nk\r\n");
    assert_eq!(cmds, vec![Command::Ping, Command::Get("k".to_string())]);
}

#[test]
fn scan_skips_a_bad_frame_and_goes_on() {
    let cmds = scan("*1\r\n$3\r\nGET\r\n*1\r\n$4\r\nping\r\n");
    assert_eq!(cmds, vec![Command::Ping]);
}

#[test]
fn scan_of_nothing_is_empty() {
    assert!(scan("").is_empty());
}

#[test]
fn command_names_match_in_any_case() {
    assert_eq!(scan_command(&words(&["pInG"])), Some(Command::Ping));
    assert_eq!(
        scan_command(&words(&["set", "k", "v", "PX", "5"])),
        Some(Command::SetKey("k".to_string(), "v".to_string(), Some(5)))
    );
}

#[test]
fn set_with_bad_expiry_is_dropped() {
    assert_eq!(scan_command(&words(&["SET", "k", "v", "PX", "-1"])), None);
    assert_eq!(scan_command(&words(&["SET", "k", "v", "PX"])), None);
    assert_eq!(scan_command(&words(&["SET", "k"])), None);
}

#[test]
fn set_with_other_fourth_token_has_no_expiry() {
    assert_eq!(
        scan_command(&words(&["SET", "k", "v", "EX", "5"])),
        Some(Command::SetKey("k".to_string(), "v".to_string(), None))
    );
}

#[test]
fn config_get_keys() {
    assert_eq!(
        scan_command(&words(&["CONFIG", "GET", "dir"])),
        Some(Command::Config(ConfigCmd::Get(ConfigKey::Dir)))
    );
    assert_eq!(
        scan_command(&words(&["config", "get", "dbfilename"])),
        Some(Command::Config(ConfigCmd::Get(ConfigKey::DbFilename)))
    );
    assert_eq!(scan_command(&words(&["CONFIG", "GET", "port"])), None);
    assert_eq!(scan_command(&words(&["CONFIG", "Get", "dir"])), None);
}

#[test]
fn keys_echo_and_unknown() {
    assert_eq!(
        scan_command(&words(&["KEYS", "*"])),
        Some(Command::Keys("*".to_string()))
    );
    assert_eq!(scan_command(&words(&["KEYS"])), None);
    assert_eq!(
        scan_command(&words(&["ECHO", "a", "b"])),
        Some(Command::Echo("ab".to_string()))
    );
    assert_eq!(
        scan_command(&words(&["info", "a", "b"])),
        Some(Command::Unknown("INFO".to_string(), "a b".to_string()))
    );
    assert_eq!(scan_command(&words(&[])), None);
}

#[test]
fn px_flag_is_matched_exactly() {
    assert_eq!(
        scan_command(&words(&["SET", "k", "v", "px", "5"])),
        Some(Command::SetKey("k".to_string(), "v".to_string(), None))
    );
    assert_eq!(scan_command(&words(&["SET", "k", "v", "PX", "abc"])), None);
    assert_eq!(scan_command(&words(&["SET", "k", "v", "PX", "+7"])),
        Some(Command::SetKey("k".to_string(), "v".to_string(), Some(7))));
}

#[test]
fn keys_star_is_parsed() {
    let cmds = scan("*2\r\n$4\r\nKEYS\r\n$1\r\n*\r\n");
    assert_eq!(cmds, vec![Command::Keys("*".to_string())]);
}

#[test]
fn arguments_may_start_with_dollar_or_star() {
    let cmds = scan("*3\r\n$3\r\nSET\r\n$1\r\nk\r\n$2\r\n$5\r\n*3\r\n$4\r\nECHO\r\n$2\r\n*a\r\n");
    assert_eq!(
        cmds,
        vec![
            Command::SetKey("k".to_string(), "$5".to_string(), None),
            Command::Echo("*a".to_string()),
        ]
    );
}
