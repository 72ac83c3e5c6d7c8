//! Commands for working with set keys: unique collections of values.
use crate::modifiers::Arity;
use crate::wire::{
    copy_bytes, format_u64, push_token, push_word, render_tokens, spec_ascii, spec_digits,
    spec_multi_bulk,
};
use vstd::prelude::*;

verus! {

/// Commands over keys that are sets: unique collections of values.
#[derive(Debug)]
pub enum SetCommand {
    /// Adds a member (or members) to a set.
    Add(Vec<u8>, Arity<Vec<u8>>),
    /// Removes a member (or members) from a set.
    Rem(Vec<u8>, Arity<Vec<u8>>),
    /// Returns the amount of members in the set.
    Card(Vec<u8>),
    /// Returns the members of the union of all the given sets.
    Union(Arity<Vec<u8>>),
    /// Returns the members of the intersection of all the given sets.
    Inter(Arity<Vec<u8>>),
    /// Returns whether the given value is a member of the set.
    IsMember(Vec<u8>, Vec<u8>),
    /// Returns the members of the difference of all the given sets.
    Diff(Arity<Vec<u8>>),
    /// Returns the members of the set.
    Members(Vec<u8>),
    /// Removes elements from the set; the count argument is omitted when
    /// exactly one element is asked for.
    Pop(Vec<u8>, u64),
}

impl SetCommand {
    /// The payload tokens this command sends, keyword first.
    pub open spec fn spec_args(&self) -> Seq<Seq<u8>> {
        match self {
            SetCommand::Add(key, members) => seq![spec_ascii("SADD"@), key@]
                + members.spec_items(),
            SetCommand::Rem(key, members) => seq![spec_ascii("SREM"@), key@]
                + members.spec_items(),
            SetCommand::Card(key) => seq![spec_ascii("SCARD"@), key@],
            SetCommand::Union(keys) => seq![spec_ascii("SUNION"@)] + keys.spec_items(),
            SetCommand::Inter(keys) => seq![spec_ascii("SINTER"@)] + keys.spec_items(),
            SetCommand::Diff(keys) => seq![spec_ascii("SDIFF"@)] + keys.spec_items(),
            SetCommand::IsMember(key, value) => seq![spec_ascii("SISMEMBER"@), key@, value@],
            SetCommand::Members(key) => seq![spec_ascii("SMEMBERS"@), key@],
            SetCommand::Pop(key, amount) => if *amount == 1u64 {
                seq![spec_ascii("SPOP"@), key@]
            } else {
                seq![spec_ascii("SPOP"@), key@, spec_digits(*amount as nat)]
            },
        }
    }

    /// Renders this command as a complete request.
    pub fn render(&self) -> (r: Vec<u8>)
        ensures
            r@ == spec_multi_bulk(self.spec_args()),
    {
        let mut tokens: Vec<Vec<u8>> = Vec::new();
        match self {
            SetCommand::Add(key, members) => {
                proof {
                    reveal_strlit("SADD");
                }
                push_word(&mut tokens, "SADD");
                let k = copy_bytes(key);
                push_token(&mut tokens, k);
                members.push_items(&mut tokens);
            },
            SetCommand::Rem(key, members) => {
                proof {
                    reveal_strlit("SREM");
                }
                push_word(&mut tokens, "SREM");
                let k = copy_bytes(key);
                push_token(&mut tokens, k);
                members.push_items(&mut tokens);
            },
            SetCommand::Card(key) => {
                proof {
                    reveal_strlit("SCARD");
                }
                push_word(&mut tokens, "SCARD");
                let k = copy_bytes(key);
                push_token(&mut tokens, k);
            },
            SetCommand::Union(keys) => {
                proof {
                    reveal_strlit("SUNION");
                }
                push_word(&mut tokens, "SUNION");
                keys.push_items(&mut tokens);
            },
            SetCommand::Inter(keys) => {
                proof {
                    reveal_strlit("SINTER");
                }
                push_word(&mut tokens, "SINTER");
                keys.push_items(&mut tokens);
            },
            SetCommand::Diff(keys) => {
                proof {
                    reveal_strlit("SDIFF");
                }
                push_word(&mut tokens, "SDIFF");
                keys.push_items(&mut tokens);
            },
            SetCommand::IsMember(key, value) => {
                proof {
                    reveal_strlit("SISMEMBER");
                }
                push_word(&mut tokens, "SISMEMBER");
                let k = copy_bytes(key);
                push_token(&mut tokens, k);
                let v = copy_bytes(value);
                push_token(&mut tokens, v);
            },
            SetCommand::Members(key) => {
                proof {
                    reveal_strlit("SMEMBERS");
                }
                push_word(&mut tokens, "SMEMBERS");
                let k = copy_bytes(key);
                push_token(&mut tokens, k);
            },
            SetCommand::Pop(key, amount) => {
                proof {
                    reveal_strlit("SPOP");
                }
                push_word(&mut tokens, "SPOP");
                let k = copy_bytes(key);
                push_token(&mut tokens, k);
                if *amount != 1 {
                    let n = format_u64(*amount);
                    push_token(&mut tokens, n);
                }
            },
        }
        assert(tokens.deep_view() =~~= self.spec_args());
        render_tokens(&tokens)
    }
}

/// In every variadic position of a set command, a single value and a
/// one-element list of the same value render identically. The only
/// exception among set commands is the pop, whose singular form drops
/// the count argument instead of taking a one-element list.
pub proof fn lemma_set_command_one_many(key: Vec<u8>, x: Vec<u8>, xs: Vec<Vec<u8>>)
    requires
        xs@.len() == 1,
        xs@[0]@ == x@,
    ensures
        SetCommand::Add(key, Arity::One(x)).spec_args() == SetCommand::Add(
            key,
            Arity::Many(xs),
        ).spec_args(),
        SetCommand::Rem(key, Arity::One(x)).spec_args() == SetCommand::Rem(
            key,
            Arity::Many(xs),
        ).spec_args(),
        SetCommand::Union(Arity::One(x)).spec_args() == SetCommand::Union(
            Arity::Many(xs),
        ).spec_args(),
        SetCommand::Inter(Arity::One(x)).spec_args() == SetCommand::Inter(
            Arity::Many(xs),
        ).spec_args(),
        SetCommand::Diff(Arity::One(x)).spec_args() == SetCommand::Diff(
            Arity::Many(xs),
        ).spec_args(),
{
    crate::modifiers::lemma_arity_one_many(x, xs);
}

} // verus!
