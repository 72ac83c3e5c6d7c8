//! Concrete instances of the crate's laws: the echo round trip, the
//! one-versus-many rendering agreement, the hash read collapse, and the
//! bulk-string formula.
use kramer::{
    decode, format_bulk_string, Arity, Command, HashCommand, Insertion, ListCommand, SetCommand,
    Side, Response, ResponseValue, StringCommand,
};

fn key(text: &str) -> Vec<u8> {
    text.as_bytes().to_vec()
}

#[test]
fn test_echo_round_trip() {
    let request = Command::Echo(key("hello")).render();
    assert_eq!(request, b"*2\r\n$4\r\nECHO\r\n$5\r\nhello\r\n".to_vec());
    // A server that echoes answers with the bulk-string token of the
    // payload it was sent.
    let reply = format_bulk_string(&key("hello"));
    assert_eq!(
        decode(&reply),
        Ok(Response::Item(ResponseValue::String(key("hello"))))
    );
}

#[test]
fn test_format_bulk_string_exact() {
    assert_eq!(format_bulk_string(&key("hello")), b"$5\r\nhello\r\n".to_vec());
    assert_eq!(
        format_bulk_string(&key("twelve-bytes")),
        b"$12\r\ntwelve-bytes\r\n".to_vec()
    );
    assert_eq!(format_bulk_string(&key("")), b"$0\r\n\r\n".to_vec());
}

#[test]
fn test_one_many_del_agree() {
    assert_eq!(
        Command::Del(Arity::One(key("a"))).render(),
        Command::Del(Arity::Many(vec![key("a")])).render()
    );
}

#[test]
fn test_del_many_exact() {
    assert_eq!(
        Command::Del(Arity::Many(vec![key("a"), key("b")])).render(),
        b"*3\r\n$3\r\nDEL\r\n$1\r\na\r\n$1\r\nb\r\n".to_vec()
    );
}

#[test]
fn test_set_if_not_exists_exact() {
    assert_eq!(
        Command::Strings(StringCommand::Assign(
            Arity::One((key("k"), key("v"))),
            None,
            Insertion::IfNotExists,
        ))
        .render(),
        b"*4\r\n$3\r\nSET\r\n$1\r\nk\r\n$1\r\nv\r\n$2\r\nNX\r\n".to_vec()
    );
}

#[test]
fn test_one_many_exists_agree() {
    assert_eq!(
        Command::Exists(Arity::One(key("a"))).render(),
        Command::Exists(Arity::Many(vec![key("a")])).render()
    );
}

#[test]
fn test_one_many_sadd_agree() {
    assert_eq!(
        SetCommand::Add(key("s"), Arity::One(key("a"))).render(),
        SetCommand::Add(key("s"), Arity::Many(vec![key("a")])).render()
    );
}

#[test]
fn test_one_many_push_agree() {
    assert_eq!(
        ListCommand::Push((Side::Left, Insertion::Always), key("l"), Arity::One(key("a")))
            .render(),
        ListCommand::Push(
            (Side::Left, Insertion::Always),
            key("l"),
            Arity::Many(vec![key("a")]),
        )
        .render()
    );
}

#[test]
fn test_one_many_hdel_agree() {
    assert_eq!(
        HashCommand::Del(key("h"), Arity::One(key("f"))).render(),
        HashCommand::Del(key("h"), Arity::Many(vec![key("f")])).render()
    );
}

#[test]
fn test_one_many_get_switches_name() {
    // The string read is a documented exception: exactly one key uses
    // the singular command name.
    assert_eq!(
        StringCommand::Get(Arity::One(key("a"))).render(),
        b"*2\r\n$3\r\nGET\r\n$1\r\na\r\n".to_vec()
    );
    assert_eq!(
        StringCommand::Get(Arity::Many(vec![key("a")])).render(),
        b"*2\r\n$4\r\nMGET\r\n$1\r\na\r\n".to_vec()
    );
}

#[test]
fn test_hash_get_empty_collapses() {
    assert_eq!(
        HashCommand::Get(key("seinfeld"), Some(Arity::Many(vec![]))).render(),
        HashCommand::Get(key("seinfeld"), None).render()
    );
    assert_eq!(
        HashCommand::Get(key("seinfeld"), Some(Arity::Many(vec![]))).render(),
        b"*2\r\n$7\r\nHGETALL\r\n$8\r\nseinfeld\r\n".to_vec()
    );
}

#[test]
fn test_incrby_negative_extreme() {
    assert_eq!(
        StringCommand::Incr(key("k"), i64::MIN).render(),
        b"*3\r\n$6\r\nINCRBY\r\n$1\r\nk\r\n$20\r\n-9223372036854775808\r\n".to_vec()
    );
}

#[test]
fn test_incr_single_uses_short_name() {
    assert_eq!(
        StringCommand::Incr(key("k"), 1).render(),
        b"*2\r\n$4\r\nINCR\r\n$1\r\nk\r\n".to_vec()
    );
    assert_eq!(
        StringCommand::Decr(key("k"), 3).render(),
        b"*3\r\n$6\r\nDECRBY\r\n$1\r\nk\r\n$1\r\n3\r\n".to_vec()
    );
}

#[test]
fn test_humanize_strips_framing() {
    let command = Command::Del(Arity::Many(vec![key("a"), key("b")]));
    assert_eq!(kramer::humanize_command(&command), b"DEL a b".to_vec());
}
