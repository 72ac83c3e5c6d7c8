//! A client-side codec for the wire protocol spoken by redis-compatible
//! servers: typed command values are rendered into exact request bytes,
//! and response bytes are decoded back into a typed result value.
//!
//! Every request is a multi-bulk array: a `*` line declaring the token
//! count, then one length-prefixed bulk-string token per argument, the
//! command keyword first. The declared count always equals the number of
//! tokens sent; the rendering of each command is pinned down, byte for
//! byte, by the contracts in this crate.
//!
//! The codec itself performs no reads or writes: rendering is a pure
//! function to bytes, and decoding consumes lines that a transport has
//! already read.
use vstd::prelude::*;

pub mod acl;
pub mod hashes;
pub mod lists;
pub mod modifiers;
pub mod response;
pub mod sets;
pub mod strings;
pub mod wire;

pub use acl::{AclCommand, SetUser};
pub use hashes::HashCommand;
pub use lists::ListCommand;
pub use modifiers::{format_bulk_string, humanize_command, Arity, Insertion, Side};
pub use response::{
    decode, decode_lines, read_line_size, readline, DecodeError, Response, ResponseLine,
    ResponseValue,
};
pub use sets::SetCommand;
pub use strings::StringCommand;

use wire::{copy_bytes, push_token, push_word, render_tokens, spec_ascii, spec_multi_bulk};

verus! {

/// Authorization supports password-only and user-and-password schemes.
#[derive(Debug)]
pub enum AuthCredentials {
    /// Builds an authorization command with only a password.
    Password(Vec<u8>),
    /// Builds an authorization command with a user and a password.
    User((Vec<u8>, Vec<u8>)),
}

impl AuthCredentials {
    /// The payload tokens this command sends, keyword first.
    pub open spec fn spec_args(&self) -> Seq<Seq<u8>> {
        match self {
            AuthCredentials::Password(password) => seq![spec_ascii("AUTH"@), password@],
            AuthCredentials::User(pair) => seq![spec_ascii("AUTH"@), pair.0@, pair.1@],
        }
    }

    /// Renders this command as a complete request.
    pub fn render(&self) -> (r: Vec<u8>)
        ensures
            r@ == spec_multi_bulk(self.spec_args()),
    {
        let mut tokens: Vec<Vec<u8>> = Vec::new();
        proof {
            reveal_strlit("AUTH");
        }
        match self {
            AuthCredentials::Password(password) => {
                push_word(&mut tokens, "AUTH");
                let p = copy_bytes(password);
                push_token(&mut tokens, p);
            },
            AuthCredentials::User(pair) => {
                push_word(&mut tokens, "AUTH");
                let u = copy_bytes(&pair.0);
                push_token(&mut tokens, u);
                let p = copy_bytes(&pair.1);
                push_token(&mut tokens, p);
            },
        }
        assert(tokens.deep_view() =~~= self.spec_args());
        render_tokens(&tokens)
    }
}

/// All the command variants the library supports, grouped by the kind of
/// key they operate on.
#[derive(Debug)]
pub enum Command {
    /// Returns the keys matching the pattern.
    Keys(Vec<u8>),
    /// Removes one or more keys.
    Del(Arity<Vec<u8>>),
    /// Checks the presence of one or more keys.
    Exists(Arity<Vec<u8>>),
    /// Commands for working with list keys.
    List(ListCommand),
    /// Commands for working with string keys.
    Strings(StringCommand),
    /// Commands for working with hash keys.
    Hashes(HashCommand),
    /// Commands for working with set keys.
    Sets(SetCommand),
    /// Returns the contents of the string sent.
    Echo(Vec<u8>),
    /// Authorization commands.
    Auth(AuthCredentials),
    /// Access-control commands; partial entries render as nothing.
    Acl(AclCommand),
}

impl Command {
    /// The exact bytes this command puts on the wire.
    pub open spec fn spec_render(&self) -> Seq<u8> {
        match self {
            Command::Keys(pattern) => spec_multi_bulk(seq![spec_ascii("KEYS"@), pattern@]),
            Command::Echo(value) => spec_multi_bulk(seq![spec_ascii("ECHO"@), value@]),
            Command::Del(keys) => spec_multi_bulk(seq![spec_ascii("DEL"@)] + keys.spec_items()),
            Command::Exists(keys) => spec_multi_bulk(
                seq![spec_ascii("EXISTS"@)] + keys.spec_items(),
            ),
            Command::List(command) => spec_multi_bulk(command.spec_args()),
            Command::Strings(command) => spec_multi_bulk(command.spec_args()),
            Command::Hashes(command) => spec_multi_bulk(command.spec_args()),
            Command::Sets(command) => spec_multi_bulk(command.spec_args()),
            Command::Auth(credentials) => spec_multi_bulk(credentials.spec_args()),
            Command::Acl(command) => command.spec_render(),
        }
    }

    /// Renders this command as a complete request.
    pub fn render(&self) -> (r: Vec<u8>)
        ensures
            r@ == self.spec_render(),
    {
        match self {
            Command::Keys(pattern) => {
                let mut tokens: Vec<Vec<u8>> = Vec::new();
                proof {
                    reveal_strlit("KEYS");
                }
                push_word(&mut tokens, "KEYS");
                let p = copy_bytes(pattern);
                push_token(&mut tokens, p);
                assert(tokens.deep_view() =~~= seq![spec_ascii("KEYS"@), pattern@]);
                render_tokens(&tokens)
            },
            Command::Echo(value) => {
                let mut tokens: Vec<Vec<u8>> = Vec::new();
                proof {
                    reveal_strlit("ECHO");
                }
                push_word(&mut tokens, "ECHO");
                let v = copy_bytes(value);
                push_token(&mut tokens, v);
                assert(tokens.deep_view() =~~= seq![spec_ascii("ECHO"@), value@]);
                render_tokens(&tokens)
            },
            Command::Del(keys) => {
                let mut tokens: Vec<Vec<u8>> = Vec::new();
                proof {
                    reveal_strlit("DEL");
                }
                push_word(&mut tokens, "DEL");
                keys.push_items(&mut tokens);
                assert(tokens.deep_view() =~~= seq![spec_ascii("DEL"@)] + keys.spec_items());
                render_tokens(&tokens)
            },
            Command::Exists(keys) => {
                let mut tokens: Vec<Vec<u8>> = Vec::new();
                proof {
                    reveal_strlit("EXISTS");
                }
                push_word(&mut tokens, "EXISTS");
                keys.push_items(&mut tokens);
                assert(tokens.deep_view() =~~= seq![spec_ascii("EXISTS"@)] + keys.spec_items());
                render_tokens(&tokens)
            },
            Command::List(command) => command.render(),
            Command::Strings(command) => command.render(),
            Command::Hashes(command) => command.render(),
            Command::Sets(command) => command.render(),
            Command::Auth(credentials) => credentials.render(),
            Command::Acl(command) => command.render(),
        }
    }
}

/// In the variadic positions of the key-space commands — the keys of a
/// removal and of a presence check — a single key and a one-element list
/// of the same key render identically.
pub proof fn lemma_command_one_many(x: Vec<u8>, xs: Vec<Vec<u8>>)
    requires
        xs@.len() == 1,
        xs@[0]@ == x@,
    ensures
        Command::Del(Arity::One(x)).spec_render() == Command::Del(Arity::Many(xs)).spec_render(),
        Command::Exists(Arity::One(x)).spec_render() == Command::Exists(
            Arity::Many(xs),
        ).spec_render(),
{
    modifiers::lemma_arity_one_many(x, xs);
}

} // verus!
