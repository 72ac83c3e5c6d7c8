//! Rendering of the access-control commands.
use kramer::{AclCommand, Arity, Command, SetUser};

fn key(text: &str) -> Vec<u8> {
    text.as_bytes().to_vec()
}

#[test]
fn format_list() {
    let command = AclCommand::List;
    assert_eq!(command.render(), b"*2\r\n$3\r\nACL\r\n$4\r\nLIST\r\n".to_vec());
}

#[test]
fn format_full_setuser() {
    let command = AclCommand::SetUser(SetUser {
        name: key("library-member"),
        password: Some(key("many-books")),
        commands: Some(vec![key("hgetall")]),
        keys: Some(key("books")),
    });

    assert_eq!(
        command.render(),
        b"*7\r\n$3\r\nACL\r\n$7\r\nSETUSER\r\n$14\r\nlibrary-member\r\n$2\r\non\r\n$11\r\n>many-books\r\n$6\r\n~books\r\n$8\r\n+hgetall\r\n"
            .to_vec()
    );
    assert_eq!(
        kramer::humanize_command(&Command::Acl(command)),
        b"ACL SETUSER library-member on >many-books ~books +hgetall".to_vec()
    );
}

#[test]
fn format_full_setuser_multi_command() {
    let command = AclCommand::SetUser(SetUser {
        name: key("library-member"),
        password: Some(key("many-books")),
        commands: Some(vec![key("hgetall"), key("blpop")]),
        keys: Some(key("books")),
    });

    assert_eq!(
        command.render(),
        b"*8\r\n$3\r\nACL\r\n$7\r\nSETUSER\r\n$14\r\nlibrary-member\r\n$2\r\non\r\n$11\r\n>many-books\r\n$6\r\n~books\r\n$8\r\n+hgetall\r\n$6\r\n+blpop\r\n"
            .to_vec()
    );
    assert_eq!(
        kramer::humanize_command(&Command::Acl(command)),
        b"ACL SETUSER library-member on >many-books ~books +hgetall +blpop".to_vec()
    );
}

#[test]
fn format_deluser_one() {
    let command = AclCommand::DelUser(Arity::One(key("my-user")));

    assert_eq!(
        command.render(),
        b"*3\r\n$3\r\nACL\r\n$7\r\nDELUSER\r\n$7\r\nmy-user\r\n".to_vec()
    );
    assert_eq!(
        kramer::humanize_command(&Command::Acl(command)),
        b"ACL DELUSER my-user".to_vec()
    );
}

#[test]
fn format_deluser_many() {
    let command = AclCommand::DelUser(Arity::Many(vec![key("my-user"), key("other-user")]));

    assert_eq!(
        command.render(),
        b"*4\r\n$3\r\nACL\r\n$7\r\nDELUSER\r\n$7\r\nmy-user\r\n$10\r\nother-user\r\n".to_vec()
    );
    assert_eq!(
        kramer::humanize_command(&Command::Acl(command)),
        b"ACL DELUSER my-user other-user".to_vec()
    );
}

#[test]
fn format_partial_setuser() {
    let command = AclCommand::SetUser(SetUser {
        name: key("library-member"),
        password: None,
        commands: None,
        keys: None,
    });

    assert_eq!(command.render(), Vec::<u8>::new())
}
