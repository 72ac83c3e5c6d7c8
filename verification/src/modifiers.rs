//! Shared value types that command variants are built from, the
//! bulk-string encoding primitive of the wire format, and a display
//! helper that strips the framing from a rendered command.
use crate::wire::{copy_bytes, push_token, spec_flatten_pairs, spec_split_crlf, split_crlf};
use vstd::prelude::*;

pub use crate::wire::format_bulk_string;

verus! {

/// Whether a line of a rendered command survives humanizing: framing
/// lines, those opening with `$` or `*`, are dropped.
pub open spec fn spec_keep_line(line: Seq<u8>) -> bool {
    !(line.len() > 0 && (line[0] == 36 || line[0] == 42))
}

/// The kept lines, each followed by one space.
pub open spec fn spec_join_kept(lines: Seq<Seq<u8>>) -> Seq<u8>
    decreases lines.len(),
{
    if lines.len() == 0 {
        Seq::empty()
    } else if spec_keep_line(lines[0]) {
        lines[0] + seq![32u8] + spec_join_kept(lines.drop_first())
    } else {
        spec_join_kept(lines.drop_first())
    }
}

/// Whether a byte is one of the white-space characters trimmed from the
/// end of a humanized command.
pub open spec fn spec_is_whitespace(b: u8) -> bool {
    b == 32 || b == 9 || b == 10 || b == 11 || b == 12 || b == 13
}

/// `s` with its trailing white-space bytes removed.
pub open spec fn spec_trim_end(s: Seq<u8>) -> Seq<u8>
    decreases s.len(),
{
    if s.len() > 0 && spec_is_whitespace(s.last()) {
        spec_trim_end(s.drop_last())
    } else {
        s
    }
}

/// What humanizing a rendered command yields: its framing lines dropped,
/// the remaining lines joined by spaces, trailing white space trimmed.
pub open spec fn spec_humanize(bytes: Seq<u8>) -> Seq<u8> {
    spec_trim_end(spec_join_kept(spec_split_crlf(bytes)))
}

/// Rewrites a command's rendering into the form a person would type into
/// an interactive client: the length-prefix framing lines are dropped
/// and the remaining tokens are joined by spaces. This is a display
/// convenience only; nothing round-trip-sensitive may rest on it.
pub fn humanize_command(input: &crate::Command) -> (r: Vec<u8>)
    ensures
        r@ == spec_humanize(input.spec_render()),
{
    let bytes = input.render();
    let lines = split_crlf(&bytes);
    let ghost model = lines.deep_view();
    let mut r: Vec<u8> = Vec::new();
    let mut i: usize = 0;
    proof {
        assert(model.skip(0) =~= model);
        assert(r@ + spec_join_kept(model) =~= spec_join_kept(model));
    }
    while i < lines.len()
        invariant
            i <= lines@.len(),
            model == lines.deep_view(),
            spec_join_kept(model) == r@ + spec_join_kept(model.skip(i as int)),
        decreases lines@.len() - i,
    {
        let ghost rest = model.skip(i as int);
        proof {
            assert(rest[0] =~= lines@[i as int]@);
            assert(rest.drop_first() =~= model.skip(i as int + 1));
        }
        let line = &lines[i];
        if line.len() == 0 || (line[0] != 36 && line[0] != 42) {
            let ghost prev = r@;
            crate::wire::append_bytes(&mut r, line);
            r.push(32);
            proof {
                assert(spec_keep_line(rest[0]));
                assert(r@ =~= prev + rest[0] + seq![32u8]);
                assert(spec_join_kept(rest) == rest[0] + seq![32u8] + spec_join_kept(
                    rest.drop_first(),
                ));
                assert(spec_join_kept(model) =~= r@ + spec_join_kept(model.skip(i as int + 1)));
            }
        } else {
            proof {
                assert(!spec_keep_line(rest[0]));
                assert(spec_join_kept(rest) == spec_join_kept(rest.drop_first()));
            }
        }
        i = i + 1;
    }
    proof {
        assert(spec_join_kept(model.skip(lines@.len() as int)) =~= Seq::<u8>::empty());
        assert(r@ =~= spec_join_kept(model));
    }
    loop
        invariant_except_break
            spec_trim_end(r@) == spec_humanize(input.spec_render()),
        ensures
            r@ == spec_humanize(input.spec_render()),
        decreases r@.len(),
    {
        if r.len() == 0 {
            break;
        }
        let last = r[r.len() - 1];
        if !(last == 32 || last == 9 || last == 10 || last == 11 || last == 12 || last == 13) {
            break;
        }
        let popped = r.pop();
        proof {
            assert(popped is Some);
        }
    }
    r
}

/// For lists, items can either be inserted on the left or right; this
/// selects, for example, between the `LPOP` and `RPOP` command names.
#[derive(Debug, Clone, PartialEq, Eq)]
pub enum Side {
    /// Insert at the start.
    Left,
    /// Insert at the end.
    Right,
}

/// Whether an insertion applies always, only when the value already
/// exists, or only when it does not exist yet.
#[derive(Debug, Clone, PartialEq, Eq)]
pub enum Insertion {
    /// The presence of the value does not matter.
    Always,
    /// The presence of the value is required to insert.
    IfExists,
    /// The presence of the value is forbidden to insert.
    IfNotExists,
}

/// A single value or a list of values, for argument positions that
/// accept either.
#[derive(Debug, Clone, PartialEq, Eq)]
pub enum Arity<T> {
    /// Wraps a `Vec`; many values.
    Many(Vec<T>),
    /// Indicates a single value.
    One(T),
}

/// The mathematical model of an [`Arity`] value.
pub enum ArityView<T> {
    /// Many values.
    Many(Seq<T>),
    /// A single value.
    One(T),
}

impl<T: DeepView> DeepView for Arity<T> {
    type V = ArityView<T::V>;

    open spec fn deep_view(&self) -> ArityView<T::V> {
        match self {
            Arity::Many(items) => ArityView::Many(items.deep_view()),
            Arity::One(item) => ArityView::One(item.deep_view()),
        }
    }
}

impl Arity<Vec<u8>> {
    /// The payload tokens this arity contributes: one for a single
    /// value, one per element for a list.
    pub open spec fn spec_items(&self) -> Seq<Seq<u8>> {
        match self {
            Arity::One(v) => seq![v@],
            Arity::Many(vs) => vs.deep_view(),
        }
    }

    /// Appends this arity's payload tokens to a token list.
    pub fn push_items(&self, tokens: &mut Vec<Vec<u8>>)
        ensures
            final(tokens).deep_view() == old(tokens).deep_view() + self.spec_items(),
    {
        match self {
            Arity::One(v) => {
                let t = copy_bytes(v);
                push_token(tokens, t);
            },
            Arity::Many(vs) => {
                crate::wire::push_each(tokens, vs);
            },
        }
    }
}

/// A single value and a one-element list of the same value contribute
/// the same payload tokens to a command.
pub proof fn lemma_arity_one_many(x: Vec<u8>, xs: Vec<Vec<u8>>)
    requires
        xs@.len() == 1,
        xs@[0]@ == x@,
    ensures
        Arity::One(x).spec_items() == Arity::Many(xs).spec_items(),
{
    assert(Arity::One(x).spec_items() =~~= Arity::Many(xs).spec_items());
}

/// A single pair and a one-element list of the same pair contribute the
/// same payload tokens to a command.
pub proof fn lemma_arity_pair_one_many(p: (Vec<u8>, Vec<u8>), ps: Vec<(Vec<u8>, Vec<u8>)>)
    requires
        ps@.len() == 1,
        ps@[0].0@ == p.0@,
        ps@[0].1@ == p.1@,
    ensures
        Arity::One(p).spec_pair_items() == Arity::Many(ps).spec_pair_items(),
{
    let pv = ps.deep_view();
    assert(pv.drop_first() =~= Seq::<(Seq<u8>, Seq<u8>)>::empty());
    assert(spec_flatten_pairs(pv) == seq![pv[0].0, pv[0].1] + spec_flatten_pairs(
        pv.drop_first(),
    ));
    assert(Arity::One(p).spec_pair_items() =~~= Arity::Many(ps).spec_pair_items());
}

impl Arity<(Vec<u8>, Vec<u8>)> {
    /// The payload tokens this arity of pairs contributes: each pair in
    /// order, first component before second.
    pub open spec fn spec_pair_items(&self) -> Seq<Seq<u8>> {
        match self {
            Arity::One(p) => seq![p.0@, p.1@],
            Arity::Many(ps) => spec_flatten_pairs(ps.deep_view()),
        }
    }

    /// Appends this arity's payload tokens to a token list.
    pub fn push_pair_items(&self, tokens: &mut Vec<Vec<u8>>)
        ensures
            final(tokens).deep_view() == old(tokens).deep_view() + self.spec_pair_items(),
    {
        match self {
            Arity::One(p) => {
                let k = copy_bytes(&p.0);
                push_token(tokens, k);
                let v = copy_bytes(&p.1);
                push_token(tokens, v);
                assert(old(tokens).deep_view() + seq![p.0@] + seq![p.1@] =~= old(
                    tokens,
                ).deep_view() + self.spec_pair_items());
            },
            Arity::Many(ps) => {
                let ghost m = old(tokens).deep_view();
                let ghost pv = ps.deep_view();
                let mut i: usize = 0;
                proof {
                    assert(m + spec_flatten_pairs(pv.take(0)) =~= m);
                }
                while i < ps.len()
                    invariant
                        i <= ps@.len(),
                        pv == ps.deep_view(),
                        tokens.deep_view() == m + spec_flatten_pairs(pv.take(i as int)),
                    decreases ps@.len() - i,
                {
                    let k = copy_bytes(&ps[i].0);
                    push_token(tokens, k);
                    let v = copy_bytes(&ps[i].1);
                    push_token(tokens, v);
                    proof {
                        assert(pv[i as int] == ps@[i as int].deep_view());
                        assert(ps@[i as int].deep_view().0 == ps@[i as int].0@);
                        assert(ps@[i as int].deep_view().1 == ps@[i as int].1@);
                        crate::wire::lemma_flatten_pairs_snoc(pv.take(i as int), pv[i as int]);
                        assert(pv.take(i as int) + seq![pv[i as int]] =~= pv.take(i as int + 1));
                        assert(tokens.deep_view() =~= m + spec_flatten_pairs(
                            pv.take(i as int + 1),
                        ));
                    }
                    i = i + 1;
                }
                proof {
                    assert(pv.take(ps@.len() as int) =~= pv);
                }
            },
        }
    }
}

} // verus!
