//! Access-control commands. Only the single use case of creating an
//! entry for a user with a password, a key pattern and a command list is
//! covered; a `SetUser` value with any field left out renders as nothing.
use crate::modifiers::Arity;
use crate::wire::{
    append_bytes, copy_bytes, push_token, push_word, render_tokens, spec_ascii, spec_multi_bulk,
};
use vstd::prelude::*;

verus! {

/// An access-control entry for one user: a name with an optional
/// password, an optional command list, and an optional key pattern.
#[derive(Debug)]
pub struct SetUser {
    /// The name of the entry.
    pub name: Vec<u8>,
    /// An optional password for the user.
    pub password: Option<Vec<u8>>,
    /// The set of commands the user should be able to execute.
    pub commands: Option<Vec<Vec<u8>>>,
    /// The key pattern the user should have access to.
    pub keys: Option<Vec<u8>>,
}

/// Each item of `items` with one byte put in front of it.
pub open spec fn spec_prefixed(prefix: u8, items: Seq<Seq<u8>>) -> Seq<Seq<u8>> {
    Seq::new(items.len(), |i: int| seq![prefix] + items[i])
}

impl SetUser {
    /// Whether every optional field is present; only then is there a
    /// rendering.
    pub open spec fn spec_complete(&self) -> bool {
        &&& self.password is Some
        &&& self.commands is Some
        &&& self.keys is Some
    }

    /// The payload tokens of a complete entry: the user name and the
    /// `on` state, then the password, key pattern and commands, each
    /// behind its marker byte.
    pub open spec fn spec_args(&self) -> Seq<Seq<u8>> {
        seq![
            spec_ascii("ACL"@),
            spec_ascii("SETUSER"@),
            self.name@,
            spec_ascii("on"@),
            seq![62u8] + self.password->Some_0@,
            seq![126u8] + self.keys->Some_0@,
        ] + spec_prefixed(43u8, self.commands->Some_0.deep_view())
    }
}

/// Access-control commands.
#[derive(Debug)]
pub enum AclCommand {
    /// Requests a list of all access-control entries.
    List,
    /// Creates or updates the entry of one user.
    SetUser(SetUser),
    /// Removes the entry of one user, or of many users.
    DelUser(Arity<Vec<u8>>),
}

/// Appends one payload to a token list with a marker byte in front.
fn push_prefixed(tokens: &mut Vec<Vec<u8>>, prefix: u8, payload: &Vec<u8>)
    ensures
        final(tokens).deep_view() == old(tokens).deep_view() + seq![seq![prefix] + payload@],
{
    let mut t: Vec<u8> = Vec::new();
    t.push(prefix);
    append_bytes(&mut t, payload);
    assert(t@ =~= seq![prefix] + payload@);
    push_token(tokens, t);
}

impl AclCommand {
    /// The rendering of this command: a complete request, or nothing at
    /// all for an entry with a field left out.
    pub open spec fn spec_render(&self) -> Seq<u8> {
        match self {
            AclCommand::List => spec_multi_bulk(
                seq![spec_ascii("ACL"@), spec_ascii("LIST"@)],
            ),
            AclCommand::DelUser(users) => spec_multi_bulk(
                seq![spec_ascii("ACL"@), spec_ascii("DELUSER"@)] + users.spec_items(),
            ),
            AclCommand::SetUser(user) => if user.spec_complete() {
                spec_multi_bulk(user.spec_args())
            } else {
                Seq::empty()
            },
        }
    }

    /// Renders this command as a complete request; an entry with a field
    /// left out renders as nothing.
    pub fn render(&self) -> (r: Vec<u8>)
        ensures
            r@ == self.spec_render(),
    {
        let mut tokens: Vec<Vec<u8>> = Vec::new();
        proof {
            reveal_strlit("ACL");
        }
        match self {
            AclCommand::List => {
                proof {
                    reveal_strlit("LIST");
                }
                push_word(&mut tokens, "ACL");
                push_word(&mut tokens, "LIST");
                assert(tokens.deep_view() =~~= seq![spec_ascii("ACL"@), spec_ascii("LIST"@)]);
            },
            AclCommand::DelUser(users) => {
                proof {
                    reveal_strlit("DELUSER");
                }
                push_word(&mut tokens, "ACL");
                push_word(&mut tokens, "DELUSER");
                users.push_items(&mut tokens);
                assert(tokens.deep_view() =~~= seq![spec_ascii("ACL"@), spec_ascii("DELUSER"@)]
                    + users.spec_items());
            },
            AclCommand::SetUser(user) => {
                match (&user.password, &user.commands, &user.keys) {
                    (Some(password), Some(commands), Some(key_pattern)) => {
                        proof {
                            reveal_strlit("SETUSER");
                            reveal_strlit("on");
                        }
                        push_word(&mut tokens, "ACL");
                        push_word(&mut tokens, "SETUSER");
                        let n = copy_bytes(&user.name);
                        push_token(&mut tokens, n);
                        push_word(&mut tokens, "on");
                        push_prefixed(&mut tokens, 62, password);
                        push_prefixed(&mut tokens, 126, key_pattern);
                        let ghost base = tokens.deep_view();
                        let ghost cs = commands.deep_view();
                        let mut i: usize = 0;
                        proof {
                            assert(base + spec_prefixed(43u8, cs).take(0) =~= base);
                        }
                        while i < commands.len()
                            invariant
                                i <= commands@.len(),
                                cs == commands.deep_view(),
                                tokens.deep_view() == base + spec_prefixed(43u8, cs).take(
                                    i as int,
                                ),
                            decreases commands@.len() - i,
                        {
                            push_prefixed(&mut tokens, 43, &commands[i]);
                            proof {
                                assert(commands@[i as int].deep_view() == cs[i as int]);
                                assert(commands@[i as int]@ =~= cs[i as int]);
                                assert(base + spec_prefixed(43u8, cs).take(i as int) + seq![
                                    seq![43u8] + cs[i as int],
                                ] =~~= base + spec_prefixed(43u8, cs).take(i as int + 1));
                            }
                            i = i + 1;
                        }
                        proof {
                            assert(spec_prefixed(43u8, cs).take(cs.len() as int) =~= spec_prefixed(
                                43u8,
                                cs,
                            ));
                        }
                        assert(tokens.deep_view() =~~= user.spec_args());
                    },
                    (_, _, _) => {
                        let r: Vec<u8> = Vec::new();
                        assert(r@ =~= self.spec_render());
                        return r;
                    },
                }
            },
        }
        render_tokens(&tokens)
    }
}

/// Removing one user and removing a one-element list of the same user
/// render identically.
pub proof fn lemma_del_user_one_many(x: Vec<u8>, xs: Vec<Vec<u8>>)
    requires
        xs@.len() == 1,
        xs@[0]@ == x@,
    ensures
        AclCommand::DelUser(Arity::One(x)).spec_render() == AclCommand::DelUser(
            Arity::Many(xs),
        ).spec_render(),
{
    crate::modifiers::lemma_arity_one_many(x, xs);
}

} // verus!
