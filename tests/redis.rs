use kvsnap::command::{Command, ConfigCmd, ConfigKey};
use kvsnap::config::Config;
use kvsnap::db::OpenError;
use kvsnap::redis::{Action, Redis};
use kvsnap::response::{Builder, Response};
use kvsnap::server::Server;

fn snapshot(body: &[u8]) -> Vec<u8> {
    let mut data = b"REDIS0011".to_vec();
    data.extend_from_slice(body);
    data
}

#[test]
fn test_set_get() {
    let set = Command::SetKey("k".into(), "v".into(), Some(100));
    let get = Command::Get("k".into());
    let mut sut = Redis::new(Config::default());
    let now = 1_000;
    assert_eq!(sut.handle(&set, now), Action::Reply(Response::ok()));
    assert_eq!(sut.handle(&get, now), Action::Reply(Response::text("v")));
    assert_eq!(sut.handle(&get, now + 99), Action::Reply(Response::text("v")));
    assert_eq!(sut.handle(&get, now + 100), Action::LookupSnapshot("k".to_string()));
    assert_eq!(
        Redis::handle_lookup(snapshot(&[]), "k", now + 100),
        Ok(Response::null())
    );
}

#[test]
fn set_replies_previous_value() {
    let mut sut = Redis::new(Config::default());
    let first = Command::SetKey("k".into(), "a".into(), Some(1));
    let second = Command::SetKey("k".into(), "b".into(), None);
    assert_eq!(sut.handle(&first, 0), Action::Reply(Response::ok()));
    assert_eq!(sut.handle(&second, 50), Action::Reply(Response::text("a")));
    assert_eq!(sut.handle(&Command::Get("k".into()), 60), Action::Reply(Response::text("b")));
}

#[test]
fn ping_echo_config_unknown() {
    let mut sut = Redis::new(Config::from_args(&[
        "--dir".to_string(),
        "/tmp/x".to_string(),
        "--dbfilename".to_string(),
        "dump.rdb".to_string(),
    ]));
    assert_eq!(sut.handle(&Command::Ping, 0), Action::Reply(Response::pong()));
    assert_eq!(sut.handle(&Command::Ping, 0), Action::Reply(Response::from_wire("+PONG\r\n".to_string())));
    assert_eq!(
        sut.handle(&Command::Echo("hi".into()), 0),
        Action::Reply(Response::from_wire("+hi\r\n".to_string()))
    );
    assert_eq!(
        sut.handle(&Command::Config(ConfigCmd::Get(ConfigKey::Dir)), 0),
        Action::Reply(Response::from_wire("*2\r\n$3\r\ndir\r\n$6\r\n/tmp/x\r\n".to_string()))
    );
    assert_eq!(
        sut.handle(&Command::Config(ConfigCmd::Get(ConfigKey::DbFilename)), 0),
        Action::Reply(Response::array(&["dbfilename", "dump.rdb"]))
    );
    assert_eq!(sut.handle(&Command::Unknown("X".into(), "".into()), 0), Action::Skip);
}

#[test]
fn keys_come_from_the_snapshot_only() {
    let mut sut = Redis::new(Config::default());
    sut.handle(&Command::SetKey("live".into(), "1".into(), None), 0);
    assert_eq!(sut.handle(&Command::Keys("*".into()), 0), Action::ListSnapshotKeys);
    let data = snapshot(&[0x00, 0x04, b'd', b'i', b's', b'k', 0x01, b'x']);
    assert_eq!(Redis::handle_keys(data, 0), Ok(Response::array(&["disk"])));
    assert_eq!(Redis::handle_keys(b"nope".to_vec(), 0), Err(OpenError::Truncated));
    assert_eq!(Redis::handle_keys(b"RADIS0011".to_vec(), 0), Err(OpenError::BadMagic));
}

#[test]
fn get_falls_back_to_snapshot() {
    let data = snapshot(&[0x00, 0x01, b'k', 0x02, b'o', b'k']);
    assert_eq!(Redis::handle_lookup(data, "k", 0), Ok(Response::text("ok")));
    assert_eq!(Redis::handle_lookup(b"REDIS".to_vec(), "k", 0), Err(OpenError::Truncated));
}

#[test]
fn config_defaults_and_flags() {
    let cfg = Config::default();
    assert_eq!(cfg.dir, ".");
    assert_eq!(cfg.db_filename, "store.rdb");
    let cfg = Config::from_args(&["--bogus".to_string(), "1".to_string(), "--dir".to_string()]);
    assert_eq!(cfg.dir, ".");
}

#[test]
fn request_with_no_command_gets_an_error() {
    let mut server = Server::new(Redis::new(Config::default()));
    let out = server.handle_request("hello\r\n", 0);
    assert_eq!(out, vec![Action::Reply(Response::error("No supported command found"))]);
    assert_eq!(
        Response::error("No supported command found").as_str(),
        "-Error No supported command found\r\n"
    );
}

#[test]
fn request_dispatches_every_command() {
    let mut server = Server::new(Redis::new(Config::default()));
    let out = server.handle_request(
        "*3\r\n$3\r\nSET\r\n$1\r\nk\r\n$1\r\nv\r\n*2\r\n$3\r\nGET\r\n$1\r\nk\r\n",
        0,
    );
    assert_eq!(
        out,
        vec![Action::Reply(Response::ok()), Action::Reply(Response::text("v"))]
    );
}

#[test]
fn keys_star_request_lists_the_snapshot() {
    let mut server = Server::new(Redis::new(Config::default()));
    let out = server.handle_request("*2\r\n$4\r\nKEYS\r\n$1\r\n*\r\n", 0);
    assert_eq!(out, vec![Action::ListSnapshotKeys]);
}

#[test]
fn parse_request_and_handle_one_by_one() {
    assert_eq!(
        Server::parse_request("garbage"),
        Err(Response::error("No supported command found"))
    );
    let cmds = Server::parse_request("*1\r\n$4\r\nPING\r\n").unwrap();
    assert_eq!(cmds, vec![Command::Ping]);
    let mut server = Server::new(Redis::new(Config::default()));
    assert_eq!(server.handle(&cmds[0], 0), Action::Reply(Response::pong()));
}

#[test]
fn handle_set_and_get_directly() {
    let mut sut = Redis::new(Config::default());
    assert_eq!(sut.handle_set(&"k".to_string(), &"v".to_string(), Some(10)), Response::ok());
    assert_eq!(sut.handle_set(&"k".to_string(), &"w".to_string(), None), Response::text("v"));
    assert_eq!(sut.handle_get(&"k".to_string(), 50), Action::Reply(Response::text("w")));
    assert_eq!(sut.handle_get(&"x".to_string(), 50), Action::LookupSnapshot("x".to_string()));
}
