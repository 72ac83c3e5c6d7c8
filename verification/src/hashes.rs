//! Commands for working with hash keys: field-to-value maps stored at
//! one key.
use crate::modifiers::{Arity, Insertion};
use crate::wire::{
    copy_bytes, format_i64, push_token, push_word, render_tokens, spec_ascii, spec_decimal_i64,
    spec_multi_bulk,
};
use vstd::prelude::*;

verus! {

/// Commands over keys that are hashes: maps from fields to values.
#[derive(Debug)]
pub enum HashCommand {
    /// Deletes fields from a given hash.
    Del(Vec<u8>, Arity<Vec<u8>>),
    /// Sets the value of a hash for a given key.
    Assign(Vec<u8>, Arity<(Vec<u8>, Vec<u8>)>, Insertion),
    /// Returns the value (or many) stored in a hash at a specific field;
    /// with no field at all, or an empty field list, returns every field
    /// and value of the hash.
    Get(Vec<u8>, Option<Arity<Vec<u8>>>),
    /// Returns the length of a string stored at a key within a hash.
    StrLen(Vec<u8>, Vec<u8>),
    /// Returns the amount of keys in the given hash.
    Len(Vec<u8>),
    /// Increments a key for the hash by a given amount.
    Incr(Vec<u8>, Vec<u8>, i64),
    /// Returns all keys for the hash stored at a given key.
    Keys(Vec<u8>),
    /// Returns all values for the hash stored at a given key.
    Vals(Vec<u8>),
    /// Checks to see if the given field exists in the hash.
    Exists(Vec<u8>, Vec<u8>),
}

impl HashCommand {
    /// The payload tokens this command sends, keyword first. Asking for
    /// many fields with an empty field list collapses to asking for all
    /// fields of the hash.
    pub open spec fn spec_args(&self) -> Seq<Seq<u8>> {
        match self {
            HashCommand::StrLen(key, field) => seq![spec_ascii("HSTRLEN"@), key@, field@],
            HashCommand::Incr(key, field, amount) => seq![
                spec_ascii("HINCRBY"@),
                key@,
                field@,
                spec_decimal_i64(*amount as int),
            ],
            HashCommand::Vals(key) => seq![spec_ascii("HVALS"@), key@],
            HashCommand::Keys(key) => seq![spec_ascii("HKEYS"@), key@],
            HashCommand::Len(key) => seq![spec_ascii("HLEN"@), key@],
            HashCommand::Get(key, fields) => match fields {
                None => seq![spec_ascii("HGETALL"@), key@],
                Some(Arity::One(field)) => seq![spec_ascii("HGET"@), key@, field@],
                Some(Arity::Many(fs)) => if fs@.len() == 0 {
                    seq![spec_ascii("HGETALL"@), key@]
                } else {
                    seq![spec_ascii("HMGET"@), key@] + fs.deep_view()
                },
            },
            HashCommand::Exists(key, field) => seq![spec_ascii("HEXISTS"@), key@, field@],
            HashCommand::Assign(key, mappings, insertion) => {
                let keyword = match insertion {
                    Insertion::IfNotExists => spec_ascii("HSETNX"@),
                    _ => spec_ascii("HSET"@),
                };
                seq![keyword, key@] + mappings.spec_pair_items()
            },
            HashCommand::Del(key, fields) => seq![spec_ascii("HDEL"@), key@]
                + fields.spec_items(),
        }
    }

    /// Renders this command as a complete request.
    pub fn render(&self) -> (r: Vec<u8>)
        ensures
            r@ == spec_multi_bulk(self.spec_args()),
    {
        let mut tokens: Vec<Vec<u8>> = Vec::new();
        match self {
            HashCommand::StrLen(key, field) => {
                proof {
                    reveal_strlit("HSTRLEN");
                }
                push_word(&mut tokens, "HSTRLEN");
                let k = copy_bytes(key);
                push_token(&mut tokens, k);
                let f = copy_bytes(field);
                push_token(&mut tokens, f);
            },
            HashCommand::Incr(key, field, amount) => {
                proof {
                    reveal_strlit("HINCRBY");
                }
                push_word(&mut tokens, "HINCRBY");
                let k = copy_bytes(key);
                push_token(&mut tokens, k);
                let f = copy_bytes(field);
                push_token(&mut tokens, f);
                let n = format_i64(*amount);
                push_token(&mut tokens, n);
            },
            HashCommand::Vals(key) => {
                proof {
                    reveal_strlit("HVALS");
                }
                push_word(&mut tokens, "HVALS");
                let k = copy_bytes(key);
                push_token(&mut tokens, k);
            },
            HashCommand::Keys(key) => {
                proof {
                    reveal_strlit("HKEYS");
                }
                push_word(&mut tokens, "HKEYS");
                let k = copy_bytes(key);
                push_token(&mut tokens, k);
            },
            HashCommand::Len(key) => {
                proof {
                    reveal_strlit("HLEN");
                }
                push_word(&mut tokens, "HLEN");
                let k = copy_bytes(key);
                push_token(&mut tokens, k);
            },
            HashCommand::Get(key, fields) => match fields {
                None => {
                    proof {
                        reveal_strlit("HGETALL");
                    }
                    push_word(&mut tokens, "HGETALL");
                    let k = copy_bytes(key);
                    push_token(&mut tokens, k);
                },
                Some(Arity::One(field)) => {
                    proof {
                        reveal_strlit("HGET");
                    }
                    push_word(&mut tokens, "HGET");
                    let k = copy_bytes(key);
                    push_token(&mut tokens, k);
                    let f = copy_bytes(field);
                    push_token(&mut tokens, f);
                },
                Some(Arity::Many(fs)) => {
                    if fs.len() == 0 {
                        proof {
                            reveal_strlit("HGETALL");
                        }
                        push_word(&mut tokens, "HGETALL");
                        let k = copy_bytes(key);
                        push_token(&mut tokens, k);
                    } else {
                        proof {
                            reveal_strlit("HMGET");
                        }
                        push_word(&mut tokens, "HMGET");
                        let k = copy_bytes(key);
                        push_token(&mut tokens, k);
                        crate::wire::push_each(&mut tokens, fs);
                    }
                },
            },
            HashCommand::Exists(key, field) => {
                proof {
                    reveal_strlit("HEXISTS");
                }
                push_word(&mut tokens, "HEXISTS");
                let k = copy_bytes(key);
                push_token(&mut tokens, k);
                let f = copy_bytes(field);
                push_token(&mut tokens, f);
            },
            HashCommand::Assign(key, mappings, insertion) => {
                match insertion {
                    Insertion::IfNotExists => {
                        proof {
                            reveal_strlit("HSETNX");
                        }
                        push_word(&mut tokens, "HSETNX");
                    },
                    _ => {
                        proof {
                            reveal_strlit("HSET");
                        }
                        push_word(&mut tokens, "HSET");
                    },
                }
                let k = copy_bytes(key);
                push_token(&mut tokens, k);
                mappings.push_pair_items(&mut tokens);
            },
            HashCommand::Del(key, fields) => {
                proof {
                    reveal_strlit("HDEL");
                }
                push_word(&mut tokens, "HDEL");
                let k = copy_bytes(key);
                push_token(&mut tokens, k);
                fields.push_items(&mut tokens);
            },
        }
        assert(tokens.deep_view() =~~= self.spec_args());
        render_tokens(&tokens)
    }
}

/// In the variadic positions of hash commands, a single value and a
/// one-element list of the same value render identically. The hash read
/// is the exception: with exactly one field it uses the singular command
/// name instead of the many-field one.
pub proof fn lemma_hash_command_one_many(
    key: Vec<u8>,
    x: Vec<u8>,
    xs: Vec<Vec<u8>>,
    p: (Vec<u8>, Vec<u8>),
    ps: Vec<(Vec<u8>, Vec<u8>)>,
    insertion: Insertion,
)
    requires
        xs@.len() == 1,
        xs@[0]@ == x@,
        ps@.len() == 1,
        ps@[0].0@ == p.0@,
        ps@[0].1@ == p.1@,
    ensures
        HashCommand::Del(key, Arity::One(x)).spec_args() == HashCommand::Del(
            key,
            Arity::Many(xs),
        ).spec_args(),
        HashCommand::Assign(key, Arity::One(p), insertion).spec_args() == HashCommand::Assign(
            key,
            Arity::Many(ps),
            insertion,
        ).spec_args(),
{
    crate::modifiers::lemma_arity_one_many(x, xs);
    crate::modifiers::lemma_arity_pair_one_many(p, ps);
}

/// Asking a hash for many fields with an empty field list renders byte
/// for byte as asking for all its fields.
pub proof fn lemma_hash_get_empty_collapses(key: Vec<u8>, fields: Vec<Vec<u8>>)
    requires
        fields@.len() == 0,
    ensures
        HashCommand::Get(key, Some(Arity::Many(fields))).spec_args() == HashCommand::Get(
            key,
            None,
        ).spec_args(),
{
}

} // verus!
