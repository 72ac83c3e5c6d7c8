//! Rendering of the key-space, string, list and hash commands, checked
//! byte for byte against the wire format.
use kramer::{Arity, AuthCredentials, Command, HashCommand, Insertion, ListCommand, Side,
    StringCommand};

fn key(text: &str) -> Vec<u8> {
    text.as_bytes().to_vec()
}

#[test]
fn test_keys_fmt() {
    assert_eq!(
        Command::Keys(key("*")).render(),
        b"*2\r\n$4\r\nKEYS\r\n$1\r\n*\r\n".to_vec()
    );
}

#[test]
fn test_llen_fmt() {
    assert_eq!(
        Command::List(ListCommand::Len(key("kramer"))).render(),
        b"*2\r\n$4\r\nLLEN\r\n$6\r\nkramer\r\n".to_vec()
    );
}

#[test]
fn test_lpush_fmt() {
    assert_eq!(
        Command::List(ListCommand::Push(
            (Side::Left, Insertion::Always),
            key("seinfeld"),
            Arity::Many(vec![key("kramer")]),
        ))
        .render(),
        b"*3\r\n$5\r\nLPUSH\r\n$8\r\nseinfeld\r\n$6\r\nkramer\r\n".to_vec()
    );
}

#[test]
fn test_rpush_fmt() {
    assert_eq!(
        Command::List(ListCommand::Push(
            (Side::Right, Insertion::Always),
            key("seinfeld"),
            Arity::Many(vec![key("kramer")]),
        ))
        .render(),
        b"*3\r\n$5\r\nRPUSH\r\n$8\r\nseinfeld\r\n$6\r\nkramer\r\n".to_vec()
    );
}

#[test]
fn test_rpushx_fmt() {
    assert_eq!(
        Command::List(ListCommand::Push(
            (Side::Right, Insertion::IfExists),
            key("seinfeld"),
            Arity::Many(vec![key("kramer")]),
        ))
        .render(),
        b"*3\r\n$6\r\nRPUSHX\r\n$8\r\nseinfeld\r\n$6\r\nkramer\r\n".to_vec()
    );
}

#[test]
fn test_lpushx_fmt() {
    assert_eq!(
        Command::List(ListCommand::Push(
            (Side::Left, Insertion::IfExists),
            key("seinfeld"),
            Arity::Many(vec![key("kramer")]),
        ))
        .render(),
        b"*3\r\n$6\r\nLPUSHX\r\n$8\r\nseinfeld\r\n$6\r\nkramer\r\n".to_vec()
    );
}

#[test]
fn test_rpush_fmt_multi() {
    assert_eq!(
        Command::List(ListCommand::Push(
            (Side::Right, Insertion::Always),
            key("seinfeld"),
            Arity::Many(vec![key("kramer"), key("jerry")]),
        ))
        .render(),
        b"*4\r\n$5\r\nRPUSH\r\n$8\r\nseinfeld\r\n$6\r\nkramer\r\n$5\r\njerry\r\n".to_vec()
    );
}

#[test]
fn test_rpop_fmt() {
    assert_eq!(
        Command::List(ListCommand::Pop(Side::Right, key("seinfeld"), None)).render(),
        b"*2\r\n$4\r\nRPOP\r\n$8\r\nseinfeld\r\n".to_vec()
    );
}

#[test]
fn test_lpop_fmt() {
    assert_eq!(
        Command::List(ListCommand::Pop(Side::Left, key("seinfeld"), None)).render(),
        b"*2\r\n$4\r\nLPOP\r\n$8\r\nseinfeld\r\n".to_vec()
    );
}

#[test]
fn test_lrange_fmt() {
    assert_eq!(
        Command::List(ListCommand::Range(key("seinfeld"), 0, -1)).render(),
        b"*4\r\n$6\r\nLRANGE\r\n$8\r\nseinfeld\r\n$1\r\n0\r\n$2\r\n-1\r\n".to_vec()
    );
}

#[test]
fn test_brpop_timeout_fmt() {
    assert_eq!(
        Command::List(ListCommand::Pop(Side::Right, key("seinfeld"), Some((None, 10)))).render(),
        b"*3\r\n$5\r\nBRPOP\r\n$8\r\nseinfeld\r\n$2\r\n10\r\n".to_vec()
    );
}

#[test]
fn test_brpop_timeout_multi_fmt() {
    assert_eq!(
        Command::List(ListCommand::Pop(
            Side::Right,
            key("seinfeld"),
            Some((Some(Arity::One(key("derry-girls"))), 10)),
        ))
        .render(),
        b"*4\r\n$5\r\nBRPOP\r\n$8\r\nseinfeld\r\n$11\r\nderry-girls\r\n$2\r\n10\r\n".to_vec()
    );
}

#[test]
fn test_brpop_timeout_multi_many_fmt() {
    assert_eq!(
        Command::List(ListCommand::Pop(
            Side::Right,
            key("seinfeld"),
            Some((Some(Arity::Many(vec![key("derry-girls"), key("creek")])), 10)),
        ))
        .render(),
        b"*5\r\n$5\r\nBRPOP\r\n$8\r\nseinfeld\r\n$11\r\nderry-girls\r\n$5\r\ncreek\r\n$2\r\n10\r\n"
            .to_vec()
    );
}

#[test]
fn test_blpop_timeout_fmt() {
    assert_eq!(
        Command::List(ListCommand::Pop(Side::Left, key("seinfeld"), Some((None, 10)))).render(),
        b"*3\r\n$5\r\nBLPOP\r\n$8\r\nseinfeld\r\n$2\r\n10\r\n".to_vec()
    );
}

#[test]
fn test_blpop_timeout_multi_fmt() {
    assert_eq!(
        Command::List(ListCommand::Pop(
            Side::Left,
            key("seinfeld"),
            Some((Some(Arity::One(key("derry-girls"))), 10)),
        ))
        .render(),
        b"*4\r\n$5\r\nBLPOP\r\n$8\r\nseinfeld\r\n$11\r\nderry-girls\r\n$2\r\n10\r\n".to_vec()
    );
}

#[test]
fn test_blpop_timeout_multi_many_fmt() {
    assert_eq!(
        Command::List(ListCommand::Pop(
            Side::Left,
            key("seinfeld"),
            Some((Some(Arity::Many(vec![key("derry-girls"), key("creek")])), 10)),
        ))
        .render(),
        b"*5\r\n$5\r\nBLPOP\r\n$8\r\nseinfeld\r\n$11\r\nderry-girls\r\n$5\r\ncreek\r\n$2\r\n10\r\n"
            .to_vec()
    );
}

#[test]
fn test_del_fmt() {
    assert_eq!(
        Command::Del(Arity::Many(vec![key("kramer")])).render(),
        b"*2\r\n$3\r\nDEL\r\n$6\r\nkramer\r\n".to_vec()
    );
}

#[test]
fn test_del_fmt_multi() {
    assert_eq!(
        Command::Del(Arity::Many(vec![key("kramer"), key("jerry")])).render(),
        b"*3\r\n$3\r\nDEL\r\n$6\r\nkramer\r\n$5\r\njerry\r\n".to_vec()
    );
}

#[test]
fn test_set_fmt() {
    assert_eq!(
        Command::Strings(StringCommand::Assign(
            Arity::One((key("seinfeld"), key("kramer"))),
            None,
            Insertion::Always,
        ))
        .render(),
        b"*3\r\n$3\r\nSET\r\n$8\r\nseinfeld\r\n$6\r\nkramer\r\n".to_vec()
    );
}

#[test]
fn test_set_fmt_duration() {
    assert_eq!(
        Command::Strings(StringCommand::Assign(
            Arity::One((key("seinfeld"), key("kramer"))),
            Some(1000),
            Insertion::Always,
        ))
        .render(),
        b"*5\r\n$3\r\nSET\r\n$8\r\nseinfeld\r\n$6\r\nkramer\r\n$2\r\nPX\r\n$4\r\n1000\r\n".to_vec()
    );
}

#[test]
fn test_set_fmt_if_not_exists() {
    let cmd = Command::Strings(StringCommand::Assign(
        Arity::One((key("seinfeld"), key("kramer"))),
        None,
        Insertion::IfNotExists,
    ));
    assert_eq!(
        cmd.render(),
        b"*4\r\n$3\r\nSET\r\n$8\r\nseinfeld\r\n$6\r\nkramer\r\n$2\r\nNX\r\n".to_vec()
    );
}

#[test]
fn test_set_fmt_if_exists() {
    let cmd = Command::Strings(StringCommand::Assign(
        Arity::One((key("seinfeld"), key("kramer"))),
        None,
        Insertion::IfExists,
    ));
    assert_eq!(
        cmd.render(),
        b"*4\r\n$3\r\nSET\r\n$8\r\nseinfeld\r\n$6\r\nkramer\r\n$2\r\nXX\r\n".to_vec()
    );
}

#[test]
fn test_lrem_fmt() {
    assert_eq!(
        Command::List(ListCommand::Rem(key("seinfeld"), key("kramer"), 1)).render(),
        b"*4\r\n$4\r\nLREM\r\n$8\r\nseinfeld\r\n$1\r\n1\r\n$6\r\nkramer\r\n".to_vec()
    );
}

#[test]
fn test_get_fmt() {
    assert_eq!(
        Command::Strings(StringCommand::Get(Arity::One(key("seinfeld")))).render(),
        b"*2\r\n$3\r\nGET\r\n$8\r\nseinfeld\r\n".to_vec()
    );
}

#[test]
fn test_decr_fmt() {
    assert_eq!(
        Command::Strings(StringCommand::Decr(key("seinfeld"), 1)).render(),
        b"*2\r\n$4\r\nDECR\r\n$8\r\nseinfeld\r\n".to_vec()
    );
}

#[test]
fn test_append_fmt() {
    assert_eq!(
        Command::Strings(StringCommand::Append(key("seinfeld"), key("kramer"))).render(),
        b"*3\r\n$6\r\nAPPEND\r\n$8\r\nseinfeld\r\n$6\r\nkramer\r\n".to_vec()
    );
}

#[test]
fn test_macro_write() {
    let cmd = Command::Strings(StringCommand::Decr(key("one"), 1));
    let buffer = cmd.render();
    assert_eq!(
        String::from_utf8(buffer).expect("was able to write"),
        String::from("*2\r\n$4\r\nDECR\r\n$3\r\none\r\n")
    );
}

#[test]
fn lib_test_hdel_single() {
    let cmd = Command::Hashes(HashCommand::Del(key("seinfeld"), Arity::One(key("kramer"))));
    assert_eq!(
        String::from_utf8(cmd.render()).expect("was able to write"),
        String::from("*3\r\n$4\r\nHDEL\r\n$8\r\nseinfeld\r\n$6\r\nkramer\r\n")
    );
}

#[test]
fn test_hdel_many() {
    let cmd = Command::Hashes(HashCommand::Del(
        key("seinfeld"),
        Arity::Many(vec![key("kramer"), key("jerry")]),
    ));
    assert_eq!(
        cmd.render(),
        b"*4\r\n$4\r\nHDEL\r\n$8\r\nseinfeld\r\n$6\r\nkramer\r\n$5\r\njerry\r\n".to_vec()
    );
}

#[test]
fn lib_test_hset_single() {
    let cmd = Command::Hashes(HashCommand::Assign(
        key("seinfeld"),
        Arity::One((key("name"), key("kramer"))),
        Insertion::Always,
    ));
    assert_eq!(
        cmd.render(),
        b"*4\r\n$4\r\nHSET\r\n$8\r\nseinfeld\r\n$4\r\nname\r\n$6\r\nkramer\r\n".to_vec()
    );
}

#[test]
fn test_hexists() {
    let cmd = Command::Hashes(HashCommand::Exists(key("seinfeld"), key("kramer")));
    assert_eq!(
        cmd.render(),
        b"*3\r\n$7\r\nHEXISTS\r\n$8\r\nseinfeld\r\n$6\r\nkramer\r\n".to_vec()
    );
}

#[test]
fn test_auth_password() {
    let cmd = Command::Auth(AuthCredentials::Password(key("hello-world")));
    assert_eq!(
        cmd.render(),
        b"*2\r\n$4\r\nAUTH\r\n$11\r\nhello-world\r\n".to_vec()
    );
}

#[test]
fn test_auth_user() {
    let cmd = Command::Auth(AuthCredentials::User((key("kramer"), key("hello-world"))));
    assert_eq!(
        cmd.render(),
        b"*3\r\n$4\r\nAUTH\r\n$6\r\nkramer\r\n$11\r\nhello-world\r\n".to_vec()
    );
}

#[test]
fn lib_test_echo() {
    let cmd = Command::Echo(key("hello"));
    assert_eq!(cmd.render(), b"*2\r\n$4\r\nECHO\r\n$5\r\nhello\r\n".to_vec());
}

#[test]
fn test_hset_many() {
    let cmd = Command::Hashes(HashCommand::Assign(
        key("seinfeld"),
        Arity::Many(vec![(key("name"), key("kramer")), (key("friend"), key("jerry"))]),
        Insertion::Always,
    ));
    assert_eq!(
        cmd.render(),
        b"*6\r\n$4\r\nHSET\r\n$8\r\nseinfeld\r\n$4\r\nname\r\n$6\r\nkramer\r\n$6\r\nfriend\r\n$5\r\njerry\r\n"
            .to_vec()
    );
}

#[test]
fn test_hgetall() {
    let cmd = Command::Hashes(HashCommand::Get(key("seinfeld"), None));
    assert_eq!(
        cmd.render(),
        b"*2\r\n$7\r\nHGETALL\r\n$8\r\nseinfeld\r\n".to_vec()
    );
}

#[test]
fn test_mset() {
    let cmd = Command::Strings(StringCommand::Assign(
        Arity::Many(vec![(key("name"), key("kramer")), (key("friend"), key("jerry"))]),
        None,
        Insertion::Always,
    ));
    assert_eq!(
        cmd.render(),
        b"*5\r\n$4\r\nMSET\r\n$4\r\nname\r\n$6\r\nkramer\r\n$6\r\nfriend\r\n$5\r\njerry\r\n"
            .to_vec()
    );
}

#[test]
fn test_msetnx() {
    let cmd = Command::Strings(StringCommand::Assign(
        Arity::Many(vec![(key("name"), key("kramer")), (key("friend"), key("jerry"))]),
        None,
        Insertion::IfNotExists,
    ));
    assert_eq!(
        cmd.render(),
        b"*5\r\n$6\r\nMSETNX\r\n$4\r\nname\r\n$6\r\nkramer\r\n$6\r\nfriend\r\n$5\r\njerry\r\n"
            .to_vec()
    );
}

#[test]
fn lib_test_hincrby() {
    let cmd = Command::Hashes(HashCommand::Incr(key("kramer"), key("episodes"), 10));
    assert_eq!(
        cmd.render(),
        b"*4\r\n$7\r\nHINCRBY\r\n$6\r\nkramer\r\n$8\r\nepisodes\r\n$2\r\n10\r\n".to_vec()
    );
}

#[test]
fn test_hlen() {
    let cmd = Command::Hashes(HashCommand::Len(key("seinfeld")));
    assert_eq!(cmd.render(), b"*2\r\n$4\r\nHLEN\r\n$8\r\nseinfeld\r\n".to_vec());
}

#[test]
fn test_hvals() {
    let cmd = Command::Hashes(HashCommand::Vals(key("seinfeld")));
    assert_eq!(cmd.render(), b"*2\r\n$5\r\nHVALS\r\n$8\r\nseinfeld\r\n".to_vec());
}

#[test]
fn test_hstrlen() {
    let cmd = Command::Hashes(HashCommand::StrLen(key("seinfeld"), key("name")));
    assert_eq!(
        cmd.render(),
        b"*3\r\n$7\r\nHSTRLEN\r\n$8\r\nseinfeld\r\n$4\r\nname\r\n".to_vec()
    );
}

#[test]
fn test_hget() {
    let cmd = Command::Hashes(HashCommand::Get(key("seinfeld"), Some(Arity::One(key("name")))));
    assert_eq!(
        cmd.render(),
        b"*3\r\n$4\r\nHGET\r\n$8\r\nseinfeld\r\n$4\r\nname\r\n".to_vec()
    );
}

#[test]
fn test_ltrim() {
    let cmd = Command::List(ListCommand::Trim(key("episodes"), 0, 10));
    assert_eq!(
        cmd.render(),
        b"*4\r\n$5\r\nLTRIM\r\n$8\r\nepisodes\r\n$1\r\n0\r\n$2\r\n10\r\n".to_vec()
    );
}

#[test]
fn test_linsert_before() {
    let cmd = Command::List(ListCommand::Insert(key("episodes"), Side::Left, key("10"), key("9")));
    assert_eq!(
        cmd.render(),
        b"*5\r\n$7\r\nLINSERT\r\n$8\r\nepisodes\r\n$6\r\nBEFORE\r\n$2\r\n10\r\n$1\r\n9\r\n"
            .to_vec()
    );
}

#[test]
fn test_linsert_after() {
    let cmd = Command::List(ListCommand::Insert(
        key("episodes"),
        Side::Right,
        key("10"),
        key("11"),
    ));
    assert_eq!(
        cmd.render(),
        b"*5\r\n$7\r\nLINSERT\r\n$8\r\nepisodes\r\n$5\r\nAFTER\r\n$2\r\n10\r\n$2\r\n11\r\n"
            .to_vec()
    );
}

#[test]
fn test_lrem() {
    let cmd = Command::List(ListCommand::Rem(key("episodes"), key("10"), 100));
    assert_eq!(
        cmd.render(),
        b"*4\r\n$4\r\nLREM\r\n$8\r\nepisodes\r\n$3\r\n100\r\n$2\r\n10\r\n".to_vec()
    );
}

#[test]
fn test_lindex() {
    let cmd = Command::List(ListCommand::Index(key("episodes"), 1));
    assert_eq!(
        cmd.render(),
        b"*3\r\n$6\r\nLINDEX\r\n$8\r\nepisodes\r\n$1\r\n1\r\n".to_vec()
    );
}

#[test]
fn test_lset() {
    let cmd = Command::List(ListCommand::Assign(key("episodes"), 1, key("pilot")));
    assert_eq!(
        cmd.render(),
        b"*4\r\n$4\r\nLSET\r\n$8\r\nepisodes\r\n$1\r\n1\r\n$5\r\npilot\r\n".to_vec()
    );
}

#[test]
fn test_set_present() {
    let cmd = StringCommand::Assign(
        Arity::One((key("month"), key("11"))),
        None,
        Insertion::Always,
    );
    assert_eq!(
        cmd.render(),
        b"*3\r\n$3\r\nSET\r\n$5\r\nmonth\r\n$2\r\n11\r\n".to_vec()
    );
}

#[test]
fn strings_test_strlen_present() {
    let cmd = StringCommand::Len(key("seinfeld"));
    assert_eq!(cmd.render(), b"*2\r\n$6\r\nSTRLEN\r\n$8\r\nseinfeld\r\n".to_vec());
}

#[test]
fn test_humanize() {
    let command = Command::Auth(AuthCredentials::User((key("testing"), key("testerton"))));
    let humanized = kramer::humanize_command(&command);
    assert_eq!(humanized, b"AUTH testing testerton".to_vec());
}
