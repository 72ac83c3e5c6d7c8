//! Commands over plain string keys: top-level keys whose values are
//! strings or numbers.
use crate::modifiers::{Arity, Insertion};
use crate::wire::{
    copy_bytes, format_i64, format_u64, format_usize, push_token, push_word, render_tokens,
    spec_ascii, spec_decimal_i64, spec_digits, spec_multi_bulk,
};
use vstd::prelude::*;

verus! {

/// The most basic, key-value commands: top-level keys with values that
/// are either strings or numbers.
#[derive(Debug)]
pub enum StringCommand {
    /// Sets the value of one key, or of many keys at once. The optional
    /// duration is an expiry in milliseconds and applies only to the
    /// single-key form.
    Assign(Arity<(Vec<u8>, Vec<u8>)>, Option<u64>, Insertion),
    /// Returns the value of a key (or of many keys).
    Get(Arity<Vec<u8>>),
    /// Returns the length of a key.
    Len(Vec<u8>),
    /// Decrements the value stored at a key.
    Decr(Vec<u8>, usize),
    /// Increments the value stored at a key.
    Incr(Vec<u8>, i64),
    /// Appends a value to a string.
    Append(Vec<u8>, Vec<u8>),
}

impl StringCommand {
    /// The payload tokens this command sends, keyword first.
    pub open spec fn spec_args(&self) -> Seq<Seq<u8>> {
        match self {
            StringCommand::Len(key) => seq![spec_ascii("STRLEN"@), key@],
            StringCommand::Incr(key, amount) => if *amount == 1i64 {
                seq![spec_ascii("INCR"@), key@]
            } else {
                seq![spec_ascii("INCRBY"@), key@, spec_decimal_i64(*amount as int)]
            },
            StringCommand::Decr(key, amount) => if *amount == 1usize {
                seq![spec_ascii("DECR"@), key@]
            } else {
                seq![spec_ascii("DECRBY"@), key@, spec_digits(*amount as nat)]
            },
            StringCommand::Get(keys) => match keys {
                Arity::One(key) => seq![spec_ascii("GET"@), key@],
                Arity::Many(_) => seq![spec_ascii("MGET"@)] + keys.spec_items(),
            },
            StringCommand::Append(key, value) => seq![spec_ascii("APPEND"@), key@, value@],
            StringCommand::Assign(assignment, timeout, insertion) => match assignment {
                Arity::One(pair) => {
                    let expiry = match timeout {
                        Some(millis) => seq![spec_ascii("PX"@), spec_digits(*millis as nat)],
                        None => Seq::empty(),
                    };
                    let condition = match insertion {
                        Insertion::IfExists => seq![spec_ascii("XX"@)],
                        Insertion::IfNotExists => seq![spec_ascii("NX"@)],
                        Insertion::Always => Seq::empty(),
                    };
                    seq![spec_ascii("SET"@), pair.0@, pair.1@] + expiry + condition
                },
                // Durations are not supported with a many-pair set.
                Arity::Many(_) => {
                    let keyword = match insertion {
                        Insertion::IfNotExists => spec_ascii("MSETNX"@),
                        _ => spec_ascii("MSET"@),
                    };
                    seq![keyword] + assignment.spec_pair_items()
                },
            },
        }
    }

    /// Renders this command as a complete request.
    pub fn render(&self) -> (r: Vec<u8>)
        ensures
            r@ == spec_multi_bulk(self.spec_args()),
    {
        let mut tokens: Vec<Vec<u8>> = Vec::new();
        match self {
            StringCommand::Len(key) => {
                proof {
                    reveal_strlit("STRLEN");
                }
                push_word(&mut tokens, "STRLEN");
                let k = copy_bytes(key);
                push_token(&mut tokens, k);
            },
            StringCommand::Incr(key, amount) => {
                if *amount == 1 {
                    proof {
                        reveal_strlit("INCR");
                    }
                    push_word(&mut tokens, "INCR");
                    let k = copy_bytes(key);
                    push_token(&mut tokens, k);
                } else {
                    proof {
                        reveal_strlit("INCRBY");
                    }
                    push_word(&mut tokens, "INCRBY");
                    let k = copy_bytes(key);
                    push_token(&mut tokens, k);
                    let n = format_i64(*amount);
                    push_token(&mut tokens, n);
                }
            },
            StringCommand::Decr(key, amount) => {
                if *amount == 1 {
                    proof {
                        reveal_strlit("DECR");
                    }
                    push_word(&mut tokens, "DECR");
                    let k = copy_bytes(key);
                    push_token(&mut tokens, k);
                } else {
                    proof {
                        reveal_strlit("DECRBY");
                    }
                    push_word(&mut tokens, "DECRBY");
                    let k = copy_bytes(key);
                    push_token(&mut tokens, k);
                    let n = format_usize(*amount);
                    push_token(&mut tokens, n);
                }
            },
            StringCommand::Get(keys) => match keys {
                Arity::One(key) => {
                    proof {
                        reveal_strlit("GET");
                    }
                    push_word(&mut tokens, "GET");
                    let k = copy_bytes(key);
                    push_token(&mut tokens, k);
                },
                Arity::Many(_) => {
                    proof {
                        reveal_strlit("MGET");
                    }
                    push_word(&mut tokens, "MGET");
                    keys.push_items(&mut tokens);
                },
            },
            StringCommand::Append(key, value) => {
                proof {
                    reveal_strlit("APPEND");
                }
                push_word(&mut tokens, "APPEND");
                let k = copy_bytes(key);
                push_token(&mut tokens, k);
                let v = copy_bytes(value);
                push_token(&mut tokens, v);
            },
            StringCommand::Assign(assignment, timeout, insertion) => match assignment {
                Arity::One(pair) => {
                    proof {
                        reveal_strlit("SET");
                    }
                    push_word(&mut tokens, "SET");
                    let k = copy_bytes(&pair.0);
                    push_token(&mut tokens, k);
                    let v = copy_bytes(&pair.1);
                    push_token(&mut tokens, v);
                    match timeout {
                        Some(millis) => {
                            proof {
                                reveal_strlit("PX");
                            }
                            push_word(&mut tokens, "PX");
                            let n = format_u64(*millis);
                            push_token(&mut tokens, n);
                        },
                        None => {},
                    }
                    match insertion {
                        Insertion::IfExists => {
                            proof {
                                reveal_strlit("XX");
                            }
                            push_word(&mut tokens, "XX");
                        },
                        Insertion::IfNotExists => {
                            proof {
                                reveal_strlit("NX");
                            }
                            push_word(&mut tokens, "NX");
                        },
                        Insertion::Always => {},
                    }
                },
                Arity::Many(_) => {
                    match insertion {
                        Insertion::IfNotExists => {
                            proof {
                                reveal_strlit("MSETNX");
                            }
                            push_word(&mut tokens, "MSETNX");
                        },
                        _ => {
                            proof {
                                reveal_strlit("MSET");
                            }
                            push_word(&mut tokens, "MSET");
                        },
                    }
                    assignment.push_pair_items(&mut tokens);
                },
            },
        }
        assert(tokens.deep_view() =~~= self.spec_args());
        render_tokens(&tokens)
    }
}

} // verus!
