//! Byte-level primitives of the wire format: ASCII text, decimal numbers,
//! and the length-prefixed framing that every token of a request uses.
use vstd::prelude::*;
use vstd::slice::{slice_subrange, slice_to_vec};

verus! {

/// The two-byte line terminator of the protocol.
pub open spec fn spec_crlf() -> Seq<u8> {
    seq![13u8, 10u8]
}

/// The bytes of an ASCII character sequence, one byte per character.
pub open spec fn spec_ascii(s: Seq<char>) -> Seq<u8> {
    Seq::new(s.len(), |i: int| s[i] as u8)
}

/// The decimal digits of a natural number, most significant first.
pub open spec fn spec_digits(n: nat) -> Seq<u8>
    decreases n,
{
    if n < 10 {
        seq![(48 + n) as u8]
    } else {
        spec_digits(n / 10) + seq![(48 + n % 10) as u8]
    }
}

/// The decimal rendering of a signed number: a minus sign before the
/// digits of its magnitude when it is negative.
pub open spec fn spec_decimal_i64(n: int) -> Seq<u8> {
    if n < 0 {
        seq![45u8] + spec_digits((-n) as nat)
    } else {
        spec_digits(n as nat)
    }
}

/// A bulk-string token: `$`, the byte length of the payload in decimal,
/// a line terminator, the payload itself, and a final line terminator.
pub open spec fn spec_bulk_string(payload: Seq<u8>) -> Seq<u8> {
    seq![36u8] + spec_digits(payload.len()) + spec_crlf() + payload + spec_crlf()
}

/// The concatenation of the bulk-string tokens of each payload, in order.
pub open spec fn spec_bulks(tokens: Seq<Seq<u8>>) -> Seq<u8>
    decreases tokens.len(),
{
    if tokens.len() == 0 {
        Seq::empty()
    } else {
        spec_bulk_string(tokens[0]) + spec_bulks(tokens.drop_first())
    }
}

/// A complete request: `*`, the number of tokens in decimal, a line
/// terminator, then one bulk-string token per payload. The declared count
/// always equals the number of tokens that follow.
pub open spec fn spec_multi_bulk(tokens: Seq<Seq<u8>>) -> Seq<u8> {
    seq![42u8] + spec_digits(tokens.len()) + spec_crlf() + spec_bulks(tokens)
}

/// Appending one payload to a token list appends its bulk-string token
/// to the rendered whole.
pub proof fn lemma_bulks_snoc(tokens: Seq<Seq<u8>>, last: Seq<u8>)
    ensures
        spec_bulks(tokens + seq![last]) == spec_bulks(tokens) + spec_bulk_string(last),
    decreases tokens.len(),
{
    if tokens.len() == 0 {
        assert(tokens + seq![last] =~= seq![last]);
        assert(seq![last].drop_first() =~= Seq::<Seq<u8>>::empty());
        assert(spec_bulks(seq![last]) == spec_bulk_string(last) + spec_bulks(
            Seq::<Seq<u8>>::empty(),
        ));
        assert(spec_bulks(tokens + seq![last]) =~= spec_bulk_string(last));
        assert(spec_bulks(tokens) + spec_bulk_string(last) =~= spec_bulk_string(last));
    } else {
        let t = tokens + seq![last];
        assert(t[0] == tokens[0]);
        assert(t.drop_first() =~= tokens.drop_first() + seq![last]);
        lemma_bulks_snoc(tokens.drop_first(), last);
        assert(spec_bulks(t) == spec_bulk_string(tokens[0]) + spec_bulks(
            tokens.drop_first() + seq![last],
        ));
        assert(spec_bulks(tokens + seq![last]) =~= spec_bulks(tokens) + spec_bulk_string(last));
    }
}

/// The payload tokens of a sequence of pairs: each pair in order, first
/// component before second.
pub open spec fn spec_flatten_pairs(ps: Seq<(Seq<u8>, Seq<u8>)>) -> Seq<Seq<u8>>
    decreases ps.len(),
{
    if ps.len() == 0 {
        Seq::empty()
    } else {
        seq![ps[0].0, ps[0].1] + spec_flatten_pairs(ps.drop_first())
    }
}

/// Appending one pair to a pair list appends its two tokens to the
/// flattened whole.
pub proof fn lemma_flatten_pairs_snoc(ps: Seq<(Seq<u8>, Seq<u8>)>, last: (Seq<u8>, Seq<u8>))
    ensures
        spec_flatten_pairs(ps + seq![last]) == spec_flatten_pairs(ps) + seq![last.0, last.1],
    decreases ps.len(),
{
    if ps.len() == 0 {
        assert(ps + seq![last] =~= seq![last]);
        assert(seq![last].drop_first() =~= Seq::<(Seq<u8>, Seq<u8>)>::empty());
        assert(spec_flatten_pairs(seq![last]) == seq![last.0, last.1] + spec_flatten_pairs(
            Seq::<(Seq<u8>, Seq<u8>)>::empty(),
        ));
        assert(spec_flatten_pairs(ps + seq![last]) =~= seq![last.0, last.1]);
        assert(spec_flatten_pairs(ps) + seq![last.0, last.1] =~= seq![last.0, last.1]);
    } else {
        let t = ps + seq![last];
        assert(t[0] == ps[0]);
        assert(t.drop_first() =~= ps.drop_first() + seq![last]);
        lemma_flatten_pairs_snoc(ps.drop_first(), last);
        assert(spec_flatten_pairs(ps + seq![last]) =~= spec_flatten_pairs(ps) + seq![
            last.0,
            last.1,
        ]);
    }
}

/// Turns an ASCII string into its byte sequence.
pub fn ascii_bytes(s: &str) -> (r: Vec<u8>)
    requires
        s.is_ascii(),
    ensures
        r@ == spec_ascii(s@),
{
    proof {
        vstd::string::is_ascii_spec_bytes(s);
    }
    s.as_bytes_vec()
}

/// Copies a byte vector.
pub fn copy_bytes(v: &Vec<u8>) -> (r: Vec<u8>)
    ensures
        r@ == v@,
{
    slice_to_vec(v.as_slice())
}

/// The bytes of `v` from position `from` to the end.
pub fn byte_tail(v: &Vec<u8>, from: usize) -> (r: Vec<u8>)
    requires
        from <= v@.len(),
    ensures
        r@ == v@.skip(from as int),
{
    let s = slice_subrange(v.as_slice(), from, v.len());
    let r = slice_to_vec(s);
    assert(r@ =~= v@.skip(from as int));
    r
}

/// Appends the bytes of `src` to `out`.
pub fn append_bytes(out: &mut Vec<u8>, src: &Vec<u8>)
    ensures
        final(out)@ == old(out)@ + src@,
{
    let mut i: usize = 0;
    while i < src.len()
        invariant
            i <= src@.len(),
            out@ == old(out)@ + src@.take(i as int),
        decreases src@.len() - i,
    {
        out.push(src[i]);
        assert(old(out)@ + src@.take(i as int) + seq![src@[i as int]] =~= old(out)@ + src@.take(
            i as int + 1,
        ));
        i = i + 1;
    }
    assert(src@.take(src@.len() as int) =~= src@);
}

/// Appends a line terminator to `out`.
pub fn append_crlf(out: &mut Vec<u8>)
    ensures
        final(out)@ == old(out)@ + spec_crlf(),
{
    out.push(13);
    out.push(10);
    assert(old(out)@.push(13u8).push(10u8) =~= old(out)@ + spec_crlf());
}

/// The decimal digits of `n`, most significant first.
pub fn format_u64(n: u64) -> (r: Vec<u8>)
    ensures
        r@ == spec_digits(n as nat),
{
    let mut r: Vec<u8> = Vec::new();
    let mut rest: u64 = n;
    proof {
        assert(spec_digits(n as nat) =~= spec_digits(rest as nat) + r@);
    }
    loop
        invariant_except_break
            spec_digits(n as nat) == spec_digits(rest as nat) + r@,
        ensures
            r@ == spec_digits(n as nat),
        decreases rest,
    {
        let ghost prev = r@;
        let d: u8 = (rest % 10) as u8;
        r.insert(0, 48 + d);
        assert(r@ =~= seq![(48 + rest as nat % 10) as u8] + prev);
        if rest < 10 {
            assert(spec_digits(rest as nat) == seq![(48 + rest as nat) as u8]);
            assert(spec_digits(n as nat) =~= r@);
            break;
        }
        assert(spec_digits(rest as nat) == spec_digits(rest as nat / 10) + seq![
            (48 + rest as nat % 10) as u8,
        ]);
        rest = rest / 10;
        assert(spec_digits(n as nat) =~= spec_digits(rest as nat) + r@);
    }
    r
}

/// The decimal rendering of a signed number.
pub fn format_i64(n: i64) -> (r: Vec<u8>)
    ensures
        r@ == spec_decimal_i64(n as int),
{
    if n >= 0 {
        format_u64(n as u64)
    } else {
        let magnitude: u64 = if n == i64::MIN {
            9223372036854775808u64
        } else {
            (-n) as u64
        };
        assert(magnitude as nat == (-(n as int)) as nat);
        let mut r = format_u64(magnitude);
        r.insert(0, 45);
        assert(r@ =~= seq![45u8] + spec_digits((-(n as int)) as nat));
        r
    }
}

/// The decimal digits of `n` (`usize` form).
pub fn format_usize(n: usize) -> (r: Vec<u8>)
    ensures
        r@ == spec_digits(n as nat),
{
    format_u64(n as u64)
}

/// Renders a complete request from its payload tokens: the token count,
/// then each payload as a bulk-string token.
pub fn render_tokens(tokens: &Vec<Vec<u8>>) -> (r: Vec<u8>)
    ensures
        r@ == spec_multi_bulk(tokens.deep_view()),
{
    let ghost model = tokens.deep_view();
    let mut r: Vec<u8> = Vec::new();
    r.push(42);
    let count = format_usize(tokens.len());
    append_bytes(&mut r, &count);
    append_crlf(&mut r);
    proof {
        assert(model.len() == tokens@.len());
        assert(r@ =~= seq![42u8] + spec_digits(model.len()) + spec_crlf());
        assert(model.take(0) =~= Seq::<Seq<u8>>::empty());
    }
    let mut i: usize = 0;
    while i < tokens.len()
        invariant
            i <= tokens@.len(),
            model == tokens.deep_view(),
            model.len() == tokens@.len(),
            r@ == seq![42u8] + spec_digits(model.len()) + spec_crlf() + spec_bulks(
                model.take(i as int),
            ),
        decreases tokens@.len() - i,
    {
        let token = format_bulk_string(&tokens[i]);
        append_bytes(&mut r, &token);
        proof {
            assert(tokens@[i as int].deep_view() == tokens@[i as int]@);
            assert(model[i as int] == tokens@[i as int]@);
            lemma_bulks_snoc(model.take(i as int), model[i as int]);
            assert(model.take(i as int) + seq![model[i as int]] =~= model.take(i as int + 1));
        }
        i = i + 1;
    }
    proof {
        assert(model.take(model.len() as int) =~= model);
    }
    r
}

/// Whether a line terminator stands at position `j` of `s`.
pub open spec fn spec_crlf_at(s: Seq<u8>, j: int) -> bool {
    0 <= j && j + 2 <= s.len() && s[j] == 13 && s[j + 1] == 10
}

/// The position of the first line terminator of `s`, or `-1` when it
/// has none.
pub open spec fn spec_first_crlf(s: Seq<u8>) -> int
    decreases s.len(),
{
    if s.len() < 2 {
        -1
    } else if s[0] == 13 && s[1] == 10 {
        0
    } else {
        let rest = spec_first_crlf(s.drop_first());
        if rest < 0 {
            -1
        } else {
            rest + 1
        }
    }
}

/// The first line terminator is a terminator, nothing stands before it,
/// and a result of `-1` means there is none at all.
pub proof fn lemma_first_crlf(s: Seq<u8>)
    ensures
        -1 <= spec_first_crlf(s),
        spec_first_crlf(s) >= 0 ==> spec_first_crlf(s) <= s.len() - 2,
        spec_first_crlf(s) == -1 <==> (forall|j: int| !#[trigger] spec_crlf_at(s, j)),
        spec_first_crlf(s) >= 0 ==> spec_crlf_at(s, spec_first_crlf(s)),
        forall|j: int| 0 <= j < spec_first_crlf(s) ==> !#[trigger] spec_crlf_at(s, j),
    decreases s.len(),
{
    if s.len() < 2 {
        assert(forall|j: int| !#[trigger] spec_crlf_at(s, j));
    } else if s[0] == 13 && s[1] == 10 {
        assert(spec_crlf_at(s, 0));
    } else {
        let t = s.drop_first();
        lemma_first_crlf(t);
        assert(forall|j: int| #[trigger]
            spec_crlf_at(s, j) ==> j >= 1 && spec_crlf_at(t, j - 1));
        assert(forall|j: int| #[trigger] spec_crlf_at(t, j) ==> spec_crlf_at(s, j + 1));
        if spec_first_crlf(t) >= 0 {
            assert(spec_crlf_at(s, spec_first_crlf(t) + 1));
        }
    }
}

/// The lines of `s`: the byte runs between its line terminators, with
/// whatever follows the last terminator as a final line.
pub open spec fn spec_split_crlf(s: Seq<u8>) -> Seq<Seq<u8>>
    decreases s.len(),
    via spec_split_crlf_decreases
{
    let f = spec_first_crlf(s);
    if f < 0 {
        seq![s]
    } else {
        seq![s.take(f)] + spec_split_crlf(s.skip(f + 2))
    }
}

#[via_fn]
proof fn spec_split_crlf_decreases(s: Seq<u8>) {
    lemma_first_crlf(s);
}

/// The position of the first line terminator of `s` at or after `from`.
pub fn find_crlf(s: &Vec<u8>, from: usize) -> (r: Option<usize>)
    requires
        from <= s@.len(),
    ensures
        match r {
            Some(at) => from <= at && at + 2 <= s@.len() && spec_first_crlf(
                s@.skip(from as int),
            ) == at - from,
            None => spec_first_crlf(s@.skip(from as int)) == -1,
        },
{
    let ghost t = s@.skip(from as int);
    proof {
        lemma_first_crlf(t);
    }
    let n = s.len();
    let mut i: usize = from;
    while n - i > 1
        invariant
            from <= i <= n == s@.len(),
            t == s@.skip(from as int),
            forall|j: int| 0 <= j < i - from ==> !#[trigger] spec_crlf_at(t, j),
        decreases n - i,
    {
        if s[i] == 13 && s[i + 1] == 10 {
            proof {
                lemma_first_crlf(t);
                assert(t[i - from] == s@[i as int]);
                assert(t[i - from + 1] == s@[i as int + 1]);
                assert(spec_crlf_at(t, i - from));
                assert(spec_first_crlf(t) >= 0);
                assert(!(spec_first_crlf(t) < i - from));
                assert(!(spec_first_crlf(t) > i - from)) by {
                    if spec_first_crlf(t) > i - from {
                        assert(!spec_crlf_at(t, i - from));
                    }
                }
            }
            return Some(i);
        }
        proof {
            assert(forall|j: int|
                0 <= j < i + 1 - from ==> !#[trigger] spec_crlf_at(t, j));
        }
        i = i + 1;
    }
    proof {
        lemma_first_crlf(t);
        assert(forall|j: int| !#[trigger] spec_crlf_at(t, j));
        assert(spec_first_crlf(t) == -1);
    }
    None
}

/// Splits `s` into its lines: the byte runs between its line
/// terminators, with whatever follows the last terminator as a final
/// line.
pub fn split_crlf(s: &Vec<u8>) -> (r: Vec<Vec<u8>>)
    ensures
        r.deep_view() == spec_split_crlf(s@),
{
    let mut r: Vec<Vec<u8>> = Vec::new();
    let mut from: usize = 0;
    proof {
        assert(r.deep_view() =~= Seq::<Seq<u8>>::empty());
        assert(s@.skip(0) =~= s@);
    }
    loop
        invariant_except_break
            from <= s@.len(),
            spec_split_crlf(s@) == r.deep_view() + spec_split_crlf(s@.skip(from as int)),
        ensures
            r.deep_view() == spec_split_crlf(s@),
        decreases s@.len() - from,
    {
        let ghost t = s@.skip(from as int);
        proof {
            lemma_first_crlf(t);
        }
        let n = s.len();
        match find_crlf(s, from) {
            Some(at) => {
                let ghost f = spec_first_crlf(t);
                let line = slice_range_vec(s, from, at);
                proof {
                    assert(line@ =~= t.take(f));
                }
                let ghost before = r.deep_view();
                push_token(&mut r, line);
                proof {
                    assert(spec_split_crlf(t) == seq![t.take(f)] + spec_split_crlf(
                        t.skip(f + 2),
                    ));
                    assert(t.skip(f + 2) =~= s@.skip(at as int + 2));
                    assert(r.deep_view() + spec_split_crlf(s@.skip(at as int + 2))
                        =~~= before + spec_split_crlf(t));
                }
                from = at + 2;
            },
            None => {
                let line = slice_range_vec(s, from, n);
                proof {
                    assert(line@ =~= t);
                    assert(spec_split_crlf(t) == seq![t]);
                    assert(r.deep_view() + seq![t] =~~= spec_split_crlf(s@));
                }
                push_token(&mut r, line);
                break;
            },
        }
    }
    r
}

/// The bytes of `v` from position `from` up to position `to`.
pub fn slice_range_vec(v: &Vec<u8>, from: usize, to: usize) -> (r: Vec<u8>)
    requires
        from <= to <= v@.len(),
    ensures
        r@ == v@.subrange(from as int, to as int),
{
    let s = slice_subrange(v.as_slice(), from, to);
    slice_to_vec(s)
}

/// Whether a byte sequence is a non-empty run of decimal digit characters.
pub open spec fn spec_is_digits(s: Seq<u8>) -> bool {
    s.len() > 0 && forall|i: int| 0 <= i < s.len() ==> 48 <= #[trigger] s[i] <= 57
}

/// The numeric value of a run of decimal digit characters.
pub open spec fn spec_digits_val(s: Seq<u8>) -> int
    decreases s.len(),
{
    if s.len() == 0 {
        0
    } else {
        spec_digits_val(s.drop_last()) * 10 + s.last() - 48
    }
}

/// A digit run's value is never negative.
pub proof fn lemma_digits_val_nonneg(s: Seq<u8>)
    requires
        forall|i: int| 0 <= i < s.len() ==> 48 <= #[trigger] s[i],
    ensures
        spec_digits_val(s) >= 0,
    decreases s.len(),
{
    if s.len() > 0 {
        assert(forall|i: int|
            0 <= i < s.drop_last().len() ==> 48 <= #[trigger] s.drop_last()[i]);
        lemma_digits_val_nonneg(s.drop_last());
    }
}

/// Reading further digits never lowers the value read so far.
pub proof fn lemma_digits_val_prefix(s: Seq<u8>, i: int)
    requires
        0 <= i <= s.len(),
        forall|j: int| 0 <= j < s.len() ==> 48 <= #[trigger] s[j],
    ensures
        spec_digits_val(s.take(i)) <= spec_digits_val(s),
    decreases s.len() - i,
{
    if i == s.len() {
        assert(s.take(i) =~= s);
    } else {
        let p = s.take(i + 1);
        assert(p.drop_last() =~= s.take(i));
        assert(forall|j: int| 0 <= j < s.take(i).len() ==> 48 <= #[trigger] s.take(i)[j]);
        lemma_digits_val_nonneg(s.take(i));
        assert(spec_digits_val(p) == spec_digits_val(s.take(i)) * 10 + s[i] - 48);
        lemma_digits_val_prefix(s, i + 1);
    }
}

/// The value of a digit run, as long as every byte from `start` on is a
/// digit and the value does not exceed `cap`.
fn parse_digits(s: &Vec<u8>, start: usize, cap: u128) -> (r: Option<u128>)
    requires
        start <= s@.len(),
        cap <= u64::MAX as u128,
    ensures
        ({
            let t = s@.skip(start as int);
            match r {
                Some(v) => spec_is_digits(t) && v as int == spec_digits_val(t)
                    && spec_digits_val(t) <= cap as int,
                None => !spec_is_digits(t) || spec_digits_val(t) > cap as int,
            }
        }),
{
    let ghost t = s@.skip(start as int);
    let n = s.len();
    if start == n {
        return None;
    }
    let mut acc: u128 = 0;
    let mut i: usize = start;
    proof {
        assert(t.take(0) =~= Seq::<u8>::empty());
    }
    while i < n
        invariant
            start <= i <= n,
            n == s@.len(),
            t == s@.skip(start as int),
            acc <= cap <= u64::MAX as u128,
            forall|j: int| 0 <= j < i - start ==> 48 <= #[trigger] t[j] <= 57,
            acc as int == spec_digits_val(t.take(i - start)),
        decreases n - i,
    {
        let b = s[i];
        assert(t[i - start] == s@[i as int]);
        if b < 48 || b > 57 {
            return None;
        }
        let d: u128 = (b - 48) as u128;
        let next = acc * 10 + d;
        proof {
            assert(t.take(i - start + 1).drop_last() =~= t.take(i - start));
            assert(spec_digits_val(t.take(i - start + 1)) == acc as int * 10 + b - 48);
        }
        if next > cap {
            proof {
                if spec_is_digits(t) {
                    lemma_digits_val_prefix(t, i - start + 1);
                }
            }
            return None;
        }
        acc = next;
        i = i + 1;
    }
    proof {
        assert(t.take(n - start) =~= t);
    }
    Some(acc)
}

/// Every byte of a decimal rendering is a digit character, and parsing
/// the rendering gives the number back.
pub proof fn lemma_digits_roundtrip(n: nat)
    ensures
        spec_is_digits(spec_digits(n)),
        spec_digits_val(spec_digits(n)) == n,
    decreases n,
{
    if n < 10 {
        let d = spec_digits(n);
        assert(d == seq![(48 + n) as u8]);
        assert(d.drop_last() =~= Seq::<u8>::empty());
        assert(spec_digits_val(Seq::<u8>::empty()) == 0);
        assert((48 + n) as u8 as int == 48 + n);
        assert(spec_digits_val(d) == spec_digits_val(d.drop_last()) * 10 + d.last() - 48);
    } else {
        lemma_digits_roundtrip(n / 10);
        let p = spec_digits(n / 10);
        let d = spec_digits(n);
        assert(d == p + seq![(48 + n % 10) as u8]);
        assert(forall|i: int| 0 <= i < d.len() ==> 48 <= #[trigger] d[i] <= 57) by {
            assert(forall|i: int| 0 <= i < p.len() ==> d[i] == p[i]);
        }
        assert(d.drop_last() =~= p);
        assert((48 + n % 10) as u8 as int == 48 + n % 10);
        assert(spec_digits_val(d) == spec_digits_val(p) * 10 + (48 + n % 10) - 48);
    }
}

/// A position where a line terminator stands, with none standing before
/// it, is the position of the first.
pub proof fn lemma_first_crlf_is(s: Seq<u8>, k: int)
    requires
        spec_crlf_at(s, k),
        forall|j: int| 0 <= j < k ==> !#[trigger] spec_crlf_at(s, j),
    ensures
        spec_first_crlf(s) == k,
{
    lemma_first_crlf(s);
    let f = spec_first_crlf(s);
    if f == -1 {
        assert(!spec_crlf_at(s, k));
    } else if f < k {
        assert(!spec_crlf_at(s, f));
    } else if f > k {
        assert(!spec_crlf_at(s, k));
    }
}

/// The byte sequence after an optional leading plus sign.
pub open spec fn spec_unsigned_body(t: Seq<u8>) -> Seq<u8> {
    if t.len() > 0 && t[0] == 43 {
        t.drop_first()
    } else {
        t
    }
}

/// What parsing an unsigned decimal number yields: the value of the digit
/// run after an optional plus sign, when that value fits the type.
pub open spec fn spec_parse_usize(t: Seq<u8>) -> Option<usize> {
    let d = spec_unsigned_body(t);
    if spec_is_digits(d) && spec_digits_val(d) <= usize::MAX as int {
        Some(spec_digits_val(d) as usize)
    } else {
        None
    }
}

/// What parsing a signed decimal number yields: an optional sign, then a
/// digit run, when the signed value fits the type.
pub open spec fn spec_parse_i64(t: Seq<u8>) -> Option<i64> {
    if t.len() > 0 && t[0] == 45 {
        let d = t.drop_first();
        if spec_is_digits(d) && -spec_digits_val(d) >= i64::MIN as int {
            Some((-spec_digits_val(d)) as i64)
        } else {
            None
        }
    } else {
        let d = spec_unsigned_body(t);
        if spec_is_digits(d) && spec_digits_val(d) <= i64::MAX as int {
            Some(spec_digits_val(d) as i64)
        } else {
            None
        }
    }
}

/// Parses the bytes of `s` from `start` on as an unsigned decimal number.
pub fn parse_usize(s: &Vec<u8>, start: usize) -> (r: Option<usize>)
    requires
        start <= s@.len(),
    ensures
        r == spec_parse_usize(s@.skip(start as int)),
{
    let ghost t = s@.skip(start as int);
    let n = s.len();
    let body_start = if start < n && s[start] == 43 {
        start + 1
    } else {
        start
    };
    proof {
        assert(s@.skip(body_start as int) =~= spec_unsigned_body(t));
    }
    match parse_digits(s, body_start, usize::MAX as u128) {
        Some(v) => Some(v as usize),
        None => None,
    }
}

/// Parses the bytes of `s` from `start` on as a signed decimal number.
pub fn parse_i64(s: &Vec<u8>, start: usize) -> (r: Option<i64>)
    requires
        start <= s@.len(),
    ensures
        r == spec_parse_i64(s@.skip(start as int)),
{
    let ghost t = s@.skip(start as int);
    let n = s.len();
    if start < n && s[start] == 45 {
        proof {
            assert(t[0] == s@[start as int]);
            assert(s@.skip(start as int + 1) =~= t.drop_first());
        }
        match parse_digits(s, start + 1, 9223372036854775808u128) {
            Some(v) => {
                if v == 9223372036854775808u128 {
                    Some(i64::MIN)
                } else {
                    Some(-(v as i64))
                }
            },
            None => None,
        }
    } else {
        let body_start = if start < n && s[start] == 43 {
            start + 1
        } else {
            start
        };
        proof {
            if t.len() > 0 {
                assert(t[0] == s@[start as int]);
            }
            assert(s@.skip(body_start as int) =~= spec_unsigned_body(t));
        }
        match parse_digits(s, body_start, i64::MAX as u128) {
            Some(v) => Some(v as i64),
            None => None,
        }
    }
}

/// Appends one payload to a token list.
pub fn push_token(tokens: &mut Vec<Vec<u8>>, t: Vec<u8>)
    ensures
        final(tokens).deep_view() == old(tokens).deep_view() + seq![t@],
{
    let ghost m = tokens.deep_view();
    let ghost tv = t@;
    tokens.push(t);
    proof {
        assert(tokens.deep_view() =~~= m + seq![tv]);
    }
}

/// Appends a payload to a token list as ASCII text.
pub fn push_word(tokens: &mut Vec<Vec<u8>>, word: &str)
    requires
        word.is_ascii(),
    ensures
        final(tokens).deep_view() == old(tokens).deep_view() + seq![spec_ascii(word@)],
{
    let t = ascii_bytes(word);
    push_token(tokens, t);
}

/// Appends a copy of each byte vector of `items` to a token list.
pub fn push_each(tokens: &mut Vec<Vec<u8>>, items: &Vec<Vec<u8>>)
    ensures
        final(tokens).deep_view() == old(tokens).deep_view() + items.deep_view(),
{
    let ghost m = old(tokens).deep_view();
    let ghost its = items.deep_view();
    let mut i: usize = 0;
    proof {
        assert(m + its.take(0) =~= m);
    }
    while i < items.len()
        invariant
            i <= items@.len(),
            its == items.deep_view(),
            tokens.deep_view() == m + its.take(i as int),
        decreases items@.len() - i,
    {
        let t = copy_bytes(&items[i]);
        proof {
            assert(t@ == its[i as int]);
            assert(m + its.take(i as int) + seq![its[i as int]] =~= m + its.take(i as int + 1));
        }
        push_token(tokens, t);
        i = i + 1;
    }
    proof {
        assert(its.take(items@.len() as int) =~= its);
    }
}

/// A bulk-string token for one payload.
pub fn format_bulk_string(input: &Vec<u8>) -> (r: Vec<u8>)
    ensures
        r@ == spec_bulk_string(input@),
{
    let mut r: Vec<u8> = Vec::new();
    r.push(36);
    let len = format_usize(input.len());
    append_bytes(&mut r, &len);
    append_crlf(&mut r);
    append_bytes(&mut r, input);
    append_crlf(&mut r);
    assert(r@ =~= spec_bulk_string(input@));
    r
}

} // verus!
