//! Commands for working with list keys.
use crate::modifiers::{Arity, Insertion, Side};
use crate::wire::{
    copy_bytes, format_i64, format_u64, push_token, push_word, render_tokens, spec_ascii,
    spec_decimal_i64, spec_digits, spec_multi_bulk,
};
use vstd::prelude::*;

verus! {

/// Commands over keys that are lists.
#[derive(Debug)]
pub enum ListCommand {
    /// Returns the length of the list.
    Len(Vec<u8>),
    /// Pushes a value (or values) onto one end of the list; the side and
    /// insertion condition together select the command name.
    Push((Side, Insertion), Vec<u8>, Arity<Vec<u8>>),
    /// Pops a value from one end of the list. With the optional blocking
    /// form, extra keys may be watched and a timeout in seconds is sent
    /// last.
    Pop(Side, Vec<u8>, Option<(Option<Arity<Vec<u8>>>, u64)>),
    /// Removes matching values from the list.
    Rem(Vec<u8>, Vec<u8>, u64),
    /// Returns the value at an index.
    Index(Vec<u8>, i64),
    /// Replaces the value at an index.
    Assign(Vec<u8>, u64, Vec<u8>),
    /// Inserts a value before or after a pivot value.
    Insert(Vec<u8>, Side, Vec<u8>, Vec<u8>),
    /// Trims the list to the given range.
    Trim(Vec<u8>, i64, i64),
    /// Returns the values in the given range.
    Range(Vec<u8>, i64, i64),
}

/// The command name a push uses: the side picks the letter, and pushing
/// only into an existing list appends an `X`.
pub open spec fn spec_push_name(side: Side, insertion: Insertion) -> Seq<char> {
    match (side, insertion) {
        (Side::Left, Insertion::IfExists) => "LPUSHX"@,
        (Side::Right, Insertion::IfExists) => "RPUSHX"@,
        (Side::Left, _) => "LPUSH"@,
        (Side::Right, _) => "RPUSH"@,
    }
}

impl ListCommand {
    /// The payload tokens this command sends, keyword first.
    pub open spec fn spec_args(&self) -> Seq<Seq<u8>> {
        match self {
            ListCommand::Trim(key, start, stop) => seq![
                spec_ascii("LTRIM"@),
                key@,
                spec_decimal_i64(*start as int),
                spec_decimal_i64(*stop as int),
            ],
            ListCommand::Assign(key, index, element) => seq![
                spec_ascii("LSET"@),
                key@,
                spec_digits(*index as nat),
                element@,
            ],
            ListCommand::Insert(key, side, pivot, element) => {
                let place = match side {
                    Side::Left => spec_ascii("BEFORE"@),
                    Side::Right => spec_ascii("AFTER"@),
                };
                seq![spec_ascii("LINSERT"@), key@, place, pivot@, element@]
            },
            ListCommand::Index(key, index) => seq![
                spec_ascii("LINDEX"@),
                key@,
                spec_decimal_i64(*index as int),
            ],
            ListCommand::Rem(key, value, count) => seq![
                spec_ascii("LREM"@),
                key@,
                spec_digits(*count as nat),
                value@,
            ],
            ListCommand::Range(key, from, to) => seq![
                spec_ascii("LRANGE"@),
                key@,
                spec_decimal_i64(*from as int),
                spec_decimal_i64(*to as int),
            ],
            ListCommand::Len(key) => seq![spec_ascii("LLEN"@), key@],
            ListCommand::Pop(side, key, block) => match block {
                None => match side {
                    Side::Left => seq![spec_ascii("LPOP"@), key@],
                    Side::Right => seq![spec_ascii("RPOP"@), key@],
                },
                Some(blocking) => {
                    let keyword = match side {
                        Side::Left => spec_ascii("BLPOP"@),
                        Side::Right => spec_ascii("BRPOP"@),
                    };
                    let extra = match blocking.0 {
                        None => Seq::empty(),
                        Some(keys) => keys.spec_items(),
                    };
                    seq![keyword, key@] + extra + seq![spec_digits(blocking.1 as nat)]
                },
            },
            ListCommand::Push(operation, key, values) => seq![
                spec_ascii(spec_push_name(operation.0, operation.1)),
                key@,
            ] + values.spec_items(),
        }
    }

    /// Renders this command as a complete request.
    pub fn render(&self) -> (r: Vec<u8>)
        ensures
            r@ == spec_multi_bulk(self.spec_args()),
    {
        let mut tokens: Vec<Vec<u8>> = Vec::new();
        match self {
            ListCommand::Trim(key, start, stop) => {
                proof {
                    reveal_strlit("LTRIM");
                }
                push_word(&mut tokens, "LTRIM");
                let k = copy_bytes(key);
                push_token(&mut tokens, k);
                let a = format_i64(*start);
                push_token(&mut tokens, a);
                let b = format_i64(*stop);
                push_token(&mut tokens, b);
            },
            ListCommand::Assign(key, index, element) => {
                proof {
                    reveal_strlit("LSET");
                }
                push_word(&mut tokens, "LSET");
                let k = copy_bytes(key);
                push_token(&mut tokens, k);
                let n = format_u64(*index);
                push_token(&mut tokens, n);
                let e = copy_bytes(element);
                push_token(&mut tokens, e);
            },
            ListCommand::Insert(key, side, pivot, element) => {
                proof {
                    reveal_strlit("LINSERT");
                }
                push_word(&mut tokens, "LINSERT");
                let k = copy_bytes(key);
                push_token(&mut tokens, k);
                match side {
                    Side::Left => {
                        proof {
                            reveal_strlit("BEFORE");
                        }
                        push_word(&mut tokens, "BEFORE");
                    },
                    Side::Right => {
                        proof {
                            reveal_strlit("AFTER");
                        }
                        push_word(&mut tokens, "AFTER");
                    },
                }
                let p = copy_bytes(pivot);
                push_token(&mut tokens, p);
                let e = copy_bytes(element);
                push_token(&mut tokens, e);
            },
            ListCommand::Index(key, index) => {
                proof {
                    reveal_strlit("LINDEX");
                }
                push_word(&mut tokens, "LINDEX");
                let k = copy_bytes(key);
                push_token(&mut tokens, k);
                let n = format_i64(*index);
                push_token(&mut tokens, n);
            },
            ListCommand::Rem(key, value, count) => {
                proof {
                    reveal_strlit("LREM");
                }
                push_word(&mut tokens, "LREM");
                let k = copy_bytes(key);
                push_token(&mut tokens, k);
                let n = format_u64(*count);
                push_token(&mut tokens, n);
                let v = copy_bytes(value);
                push_token(&mut tokens, v);
            },
            ListCommand::Range(key, from, to) => {
                proof {
                    reveal_strlit("LRANGE");
                }
                push_word(&mut tokens, "LRANGE");
                let k = copy_bytes(key);
                push_token(&mut tokens, k);
                let a = format_i64(*from);
                push_token(&mut tokens, a);
                let b = format_i64(*to);
                push_token(&mut tokens, b);
            },
            ListCommand::Len(key) => {
                proof {
                    reveal_strlit("LLEN");
                }
                push_word(&mut tokens, "LLEN");
                let k = copy_bytes(key);
                push_token(&mut tokens, k);
            },
            ListCommand::Pop(side, key, block) => {
                match block {
                    None => {
                        match side {
                            Side::Left => {
                                proof {
                                    reveal_strlit("LPOP");
                                }
                                push_word(&mut tokens, "LPOP");
                            },
                            Side::Right => {
                                proof {
                                    reveal_strlit("RPOP");
                                }
                                push_word(&mut tokens, "RPOP");
                            },
                        }
                        let k = copy_bytes(key);
                        push_token(&mut tokens, k);
                    },
                    Some(blocking) => {
                        match side {
                            Side::Left => {
                                proof {
                                    reveal_strlit("BLPOP");
                                }
                                push_word(&mut tokens, "BLPOP");
                            },
                            Side::Right => {
                                proof {
                                    reveal_strlit("BRPOP");
                                }
                                push_word(&mut tokens, "BRPOP");
                            },
                        }
                        let k = copy_bytes(key);
                        push_token(&mut tokens, k);
                        match &blocking.0 {
                            None => {},
                            Some(keys) => {
                                keys.push_items(&mut tokens);
                            },
                        }
                        let t = format_u64(blocking.1);
                        push_token(&mut tokens, t);
                    },
                }
            },
            ListCommand::Push(operation, key, values) => {
                match (&operation.0, &operation.1) {
                    (Side::Left, Insertion::IfExists) => {
                        proof {
                            reveal_strlit("LPUSHX");
                        }
                        push_word(&mut tokens, "LPUSHX");
                    },
                    (Side::Right, Insertion::IfExists) => {
                        proof {
                            reveal_strlit("RPUSHX");
                        }
                        push_word(&mut tokens, "RPUSHX");
                    },
                    (Side::Left, _) => {
                        proof {
                            reveal_strlit("LPUSH");
                        }
                        push_word(&mut tokens, "LPUSH");
                    },
                    (Side::Right, _) => {
                        proof {
                            reveal_strlit("RPUSH");
                        }
                        push_word(&mut tokens, "RPUSH");
                    },
                }
                let k = copy_bytes(key);
                push_token(&mut tokens, k);
                values.push_items(&mut tokens);
            },
        }
        assert(tokens.deep_view() =~~= self.spec_args());
        render_tokens(&tokens)
    }
}

/// In the variadic positions of list commands — the values of a push
/// and the extra keys of a blocking pop — a single value and a
/// one-element list of the same value render identically.
pub proof fn lemma_list_command_one_many(
    operation: (Side, Insertion),
    side: Side,
    key: Vec<u8>,
    timeout: u64,
    x: Vec<u8>,
    xs: Vec<Vec<u8>>,
)
    requires
        xs@.len() == 1,
        xs@[0]@ == x@,
    ensures
        ListCommand::Push(operation, key, Arity::One(x)).spec_args() == ListCommand::Push(
            operation,
            key,
            Arity::Many(xs),
        ).spec_args(),
        ListCommand::Pop(side, key, Some((Some(Arity::One(x)), timeout))).spec_args()
            == ListCommand::Pop(
            side,
            key,
            Some((Some(Arity::Many(xs)), timeout)),
        ).spec_args(),
{
    crate::modifiers::lemma_arity_one_many(x, xs);
}

} // verus!
