//! Decoding of responses: a line-oriented state machine that turns the
//! lines a transport has read into a typed result value.
use crate::wire::{
    byte_tail, copy_bytes, lemma_digits_roundtrip, lemma_first_crlf_is, parse_i64, parse_usize,
    spec_bulk_string, spec_crlf_at, spec_digits, spec_first_crlf, spec_parse_i64,
    spec_parse_usize, spec_split_crlf, split_crlf,
};
use vstd::prelude::*;

verus! {

/// The decoded meaning of one line, before any payload line that may
/// follow it has been consumed.
#[derive(Debug)]
pub enum ResponseLine {
    /// An array header: the declared number of elements.
    Array(usize),
    /// A simple string: the rest of the line is the value itself.
    SimpleString(Vec<u8>),
    /// An error reported by the server; carries the message, the rest
    /// of the line after the marker byte.
    Error(Vec<u8>),
    /// A signed integer.
    Integer(i64),
    /// A bulk-string header: the declared byte length of the payload
    /// line that follows.
    BulkString(usize),
    /// A null: an array or bulk-string header declaring length `-1`.
    Null,
}

/// The mathematical model of a [`ResponseLine`].
pub enum ResponseLineView {
    /// An array header.
    Array(usize),
    /// A simple string.
    SimpleString(Seq<u8>),
    /// An error reported by the server: its message.
    Error(Seq<u8>),
    /// A signed integer.
    Integer(i64),
    /// A bulk-string header.
    BulkString(usize),
    /// A null header.
    Null,
}

impl DeepView for ResponseLine {
    type V = ResponseLineView;

    open spec fn deep_view(&self) -> ResponseLineView {
        match self {
            ResponseLine::Array(size) => ResponseLineView::Array(*size),
            ResponseLine::SimpleString(text) => ResponseLineView::SimpleString(text@),
            ResponseLine::Error(message) => ResponseLineView::Error(message@),
            ResponseLine::Integer(value) => ResponseLineView::Integer(*value),
            ResponseLine::BulkString(size) => ResponseLineView::BulkString(*size),
            ResponseLine::Null => ResponseLineView::Null,
        }
    }
}

/// A single decoded value: empty, a string, or an integer.
#[derive(Debug, PartialEq, Eq)]
pub enum ResponseValue {
    /// The empty response.
    Empty,
    /// A string response.
    String(Vec<u8>),
    /// An integer response.
    Integer(i64),
}

/// The mathematical model of a [`ResponseValue`].
pub enum ResponseValueView {
    /// The empty response.
    Empty,
    /// A string response.
    String(Seq<u8>),
    /// An integer response.
    Integer(i64),
}

impl DeepView for ResponseValue {
    type V = ResponseValueView;

    open spec fn deep_view(&self) -> ResponseValueView {
        match self {
            ResponseValue::Empty => ResponseValueView::Empty,
            ResponseValue::String(text) => ResponseValueView::String(text@),
            ResponseValue::Integer(value) => ResponseValueView::Integer(*value),
        }
    }
}

/// A complete decoded response: an array of values, a single value, or
/// an error of the decoder's own.
#[derive(Debug, PartialEq, Eq)]
pub enum Response {
    /// A multi-value response.
    Array(Vec<ResponseValue>),
    /// A single value.
    Item(ResponseValue),
    /// Reserved for decode-level ambiguity; never produced by a
    /// well-formed exchange.
    Error,
}

/// The mathematical model of a [`Response`].
pub enum ResponseView {
    /// A multi-value response.
    Array(Seq<ResponseValueView>),
    /// A single value.
    Item(ResponseValueView),
    /// Reserved for decode-level ambiguity.
    Error,
}

impl DeepView for Response {
    type V = ResponseView;

    open spec fn deep_view(&self) -> ResponseView {
        match self {
            Response::Array(values) => ResponseView::Array(values.deep_view()),
            Response::Item(value) => ResponseView::Item(value.deep_view()),
            Response::Error => ResponseView::Error,
        }
    }
}

/// Why a decode failed. A reply carrying a server-reported error is a
/// failure of its own kind, distinct from a malformed stream.
#[derive(Debug, PartialEq, Eq)]
pub enum DecodeError {
    /// The input ended where a line was still required.
    MissingLine,
    /// A line held no bytes at all, so its kind cannot be told.
    EmptyLine,
    /// A line began with a byte that names no reply kind.
    InvalidLeader(u8),
    /// An array or bulk-string header whose length would not parse;
    /// carries the offending line.
    InvalidLength(Vec<u8>),
    /// An integer line whose value would not parse; carries the
    /// offending line.
    InvalidInteger(Vec<u8>),
    /// The server answered with an error line; carries the server's
    /// message, the rest of that line after the marker byte.
    ServerError(Vec<u8>),
    /// An array declared more elements than were well-formed in the
    /// input: the declared count, then the count received.
    CountMismatch(usize, usize),
}

/// The mathematical model of a [`DecodeError`].
pub enum DecodeErrorView {
    /// The input ended early.
    MissingLine,
    /// A line held no bytes.
    EmptyLine,
    /// An unknown leading byte.
    InvalidLeader(u8),
    /// A header length that would not parse.
    InvalidLength(Seq<u8>),
    /// An integer that would not parse.
    InvalidInteger(Seq<u8>),
    /// An error reported by the server: its message.
    ServerError(Seq<u8>),
    /// Fewer well-formed elements than declared.
    CountMismatch(usize, usize),
}

impl DeepView for DecodeError {
    type V = DecodeErrorView;

    open spec fn deep_view(&self) -> DecodeErrorView {
        match self {
            DecodeError::MissingLine => DecodeErrorView::MissingLine,
            DecodeError::EmptyLine => DecodeErrorView::EmptyLine,
            DecodeError::InvalidLeader(leader) => DecodeErrorView::InvalidLeader(*leader),
            DecodeError::InvalidLength(line) => DecodeErrorView::InvalidLength(line@),
            DecodeError::InvalidInteger(line) => DecodeErrorView::InvalidInteger(line@),
            DecodeError::ServerError(line) => DecodeErrorView::ServerError(line@),
            DecodeError::CountMismatch(expected, received) => DecodeErrorView::CountMismatch(
                *expected,
                *received,
            ),
        }
    }
}

/// The model of a fallible result, both sides taken to their models.
pub open spec fn spec_result<T: DeepView, E: DeepView>(r: Result<T, E>) -> Result<T::V, E::V> {
    match r {
        Ok(value) => Ok(value.deep_view()),
        Err(error) => Err(error.deep_view()),
    }
}

/// What reading the size of a header line yields: `None` for the null
/// marker `-1`, the parsed length otherwise, and a failure when the rest
/// of the line is not a number.
pub open spec fn spec_read_line_size(line: Seq<u8>) -> Result<Option<usize>, DecodeErrorView> {
    let rest = line.drop_first();
    if rest == seq![45u8, 49u8] {
        Ok(None)
    } else {
        match spec_parse_usize(rest) {
            Some(size) => Ok(Some(size)),
            None => Err(DecodeErrorView::InvalidLength(line)),
        }
    }
}

/// Reads the size carried by a header line (the line's first byte is
/// the kind marker and is skipped). The two-byte rest `-1` means null
/// and yields `None`.
pub fn read_line_size(line: &Vec<u8>) -> (r: Result<Option<usize>, DecodeError>)
    requires
        line@.len() >= 1,
    ensures
        spec_result(r) == spec_read_line_size(line@),
{
    if line.len() == 3 && line[1] == 45 && line[2] == 49 {
        proof {
            assert(line@.drop_first() =~= seq![45u8, 49u8]);
        }
        return Ok(None);
    }
    proof {
        assert(line@.drop_first() =~= line@.skip(1));
        assert(line@.drop_first() != seq![45u8, 49u8]);
    }
    match parse_usize(line, 1) {
        Some(size) => Ok(Some(size)),
        None => {
            let whole = byte_tail(line, 0);
            proof {
                assert(whole@ =~= line@);
            }
            Err(DecodeError::InvalidLength(whole))
        },
    }
}

/// What decoding one line yields, keyed by its first byte: `*` and `$`
/// are headers whose size follows (`-1` meaning null), `+` is a simple
/// string, `:` a signed integer, `-` a server-reported error whose
/// message is the rest of the line, and any other leading byte, or no
/// byte at all, is a failure.
pub open spec fn spec_readline(line: Seq<u8>) -> Result<ResponseLineView, DecodeErrorView> {
    if line.len() == 0 {
        Err(DecodeErrorView::EmptyLine)
    } else if line[0] == 42 {
        match spec_read_line_size(line) {
            Ok(None) => Ok(ResponseLineView::Null),
            Ok(Some(size)) => Ok(ResponseLineView::Array(size)),
            Err(error) => Err(error),
        }
    } else if line[0] == 36 {
        match spec_read_line_size(line) {
            Ok(None) => Ok(ResponseLineView::Null),
            Ok(Some(size)) => Ok(ResponseLineView::BulkString(size)),
            Err(error) => Err(error),
        }
    } else if line[0] == 45 {
        Ok(ResponseLineView::Error(line.drop_first()))
    } else if line[0] == 43 {
        Ok(ResponseLineView::SimpleString(line.drop_first()))
    } else if line[0] == 58 {
        match spec_parse_i64(line.drop_first()) {
            Some(value) => Ok(ResponseLineView::Integer(value)),
            None => Err(DecodeErrorView::InvalidInteger(line)),
        }
    } else {
        Err(DecodeErrorView::InvalidLeader(line[0]))
    }
}

/// Decodes one line into its [`ResponseLine`] meaning.
pub fn readline(line: &Vec<u8>) -> (r: Result<ResponseLine, DecodeError>)
    ensures
        spec_result(r) == spec_readline(line@),
{
    if line.len() == 0 {
        return Err(DecodeError::EmptyLine);
    }
    let leader = line[0];
    if leader == 42 {
        match read_line_size(line) {
            Ok(None) => Ok(ResponseLine::Null),
            Ok(Some(size)) => Ok(ResponseLine::Array(size)),
            Err(error) => Err(error),
        }
    } else if leader == 36 {
        match read_line_size(line) {
            Ok(None) => Ok(ResponseLine::Null),
            Ok(Some(size)) => Ok(ResponseLine::BulkString(size)),
            Err(error) => Err(error),
        }
    } else if leader == 45 {
        let message = byte_tail(line, 1);
        proof {
            assert(message@ =~= line@.drop_first());
        }
        Ok(ResponseLine::Error(message))
    } else if leader == 43 {
        let rest = byte_tail(line, 1);
        proof {
            assert(rest@ =~= line@.drop_first());
        }
        Ok(ResponseLine::SimpleString(rest))
    } else if leader == 58 {
        proof {
            assert(line@.skip(1) =~= line@.drop_first());
        }
        match parse_i64(line, 1) {
            Some(value) => Ok(ResponseLine::Integer(value)),
            None => {
                let whole = byte_tail(line, 0);
                proof {
                    assert(whole@ =~= line@);
                }
                Err(DecodeError::InvalidInteger(whole))
            },
        }
    } else {
        Err(DecodeError::InvalidLeader(leader))
    }
}

/// The well-formed leading elements of an array body: pairs of a
/// bulk-string header line and a payload line of exactly the declared
/// byte length, up to `remaining` of them. The run stops at the first
/// pair that is not of this shape.
pub open spec fn spec_array_elems(rest: Seq<Seq<u8>>, remaining: nat) -> Seq<ResponseValueView>
    decreases remaining,
{
    if remaining == 0 || rest.len() == 0 {
        Seq::empty()
    } else {
        match spec_readline(rest[0]) {
            Ok(ResponseLineView::BulkString(size)) => {
                if rest.len() >= 2 && rest[1].len() == size as nat {
                    seq![ResponseValueView::String(rest[1])] + spec_array_elems(
                        rest.skip(2),
                        (remaining - 1) as nat,
                    )
                } else {
                    Seq::empty()
                }
            },
            _ => Seq::empty(),
        }
    }
}

/// What decoding an array body yields under the strict policy: the
/// declared number of elements, or a failure naming the declared and
/// the received counts.
pub open spec fn spec_decode_array(rest: Seq<Seq<u8>>, size: usize) -> Result<
    ResponseView,
    DecodeErrorView,
> {
    if size == 0 {
        Ok(ResponseView::Array(Seq::empty()))
    } else {
        let elems = spec_array_elems(rest, size as nat);
        if elems.len() == size as int {
            Ok(ResponseView::Array(elems))
        } else {
            Err(DecodeErrorView::CountMismatch(size, elems.len() as usize))
        }
    }
}

/// What decoding a whole response from its lines yields. The first line
/// selects the reply kind; an array re-enters a sub-loop that consumes
/// two lines per element; a bulk string consumes one payload line; a
/// server-reported error line is a failure of its own kind.
pub open spec fn spec_decode_lines(lines: Seq<Seq<u8>>) -> Result<ResponseView, DecodeErrorView> {
    if lines.len() == 0 {
        Err(DecodeErrorView::MissingLine)
    } else {
        match spec_readline(lines[0]) {
            Err(error) => Err(error),
            Ok(ResponseLineView::Array(size)) => spec_decode_array(lines.drop_first(), size),
            Ok(ResponseLineView::BulkString(size)) => if size < 1 {
                Ok(ResponseView::Item(ResponseValueView::Empty))
            } else if lines.len() < 2 {
                Err(DecodeErrorView::MissingLine)
            } else {
                Ok(ResponseView::Item(ResponseValueView::String(lines[1])))
            },
            Ok(ResponseLineView::Null) => Ok(ResponseView::Item(ResponseValueView::Empty)),
            Ok(ResponseLineView::SimpleString(text)) => Ok(
                ResponseView::Item(ResponseValueView::String(text)),
            ),
            Ok(ResponseLineView::Integer(value)) => Ok(
                ResponseView::Item(ResponseValueView::Integer(value)),
            ),
            Ok(ResponseLineView::Error(message)) => Err(DecodeErrorView::ServerError(message)),
        }
    }
}

/// Decodes a whole response from its lines, each given without its line
/// terminator. An array whose body holds fewer well-formed elements
/// than its header declared is a failure, never a shorter array.
#[verifier::loop_isolation(false)]
pub fn decode_lines(lines: &Vec<Vec<u8>>) -> (r: Result<Response, DecodeError>)
    ensures
        spec_result(r) == spec_decode_lines(lines.deep_view()),
{
    let ghost model = lines.deep_view();
    if lines.len() == 0 {
        return Err(DecodeError::MissingLine);
    }
    proof {
        assert(model[0] =~= lines@[0]@);
    }
    match readline(&lines[0]) {
        Err(error) => Err(error),
        Ok(ResponseLine::Null) => Ok(Response::Item(ResponseValue::Empty)),
        Ok(ResponseLine::SimpleString(text)) => Ok(Response::Item(ResponseValue::String(text))),
        Ok(ResponseLine::Integer(value)) => Ok(Response::Item(ResponseValue::Integer(value))),
        Ok(ResponseLine::Error(message)) => Err(DecodeError::ServerError(message)),
        Ok(ResponseLine::BulkString(size)) => {
            if size < 1 {
                Ok(Response::Item(ResponseValue::Empty))
            } else if lines.len() < 2 {
                Err(DecodeError::MissingLine)
            } else {
                let payload = copy_bytes(&lines[1]);
                proof {
                    assert(payload@ =~= model[1]);
                }
                Ok(Response::Item(ResponseValue::String(payload)))
            }
        },
        Ok(ResponseLine::Array(size)) => {
            proof {
                assert(model.drop_first() =~= model.skip(1));
            }
            if size == 0 {
                let empty: Vec<ResponseValue> = Vec::new();
                assert(empty.deep_view() =~= Seq::<ResponseValueView>::empty());
                return Ok(Response::Array(empty));
            }
            let mut store: Vec<ResponseValue> = Vec::new();
            let mut cursor: usize = 1;
            proof {
                assert(store.deep_view() =~= Seq::<ResponseValueView>::empty());
                assert(store.deep_view() + spec_array_elems(model.skip(1), size as nat)
                    =~= spec_array_elems(model.skip(1), size as nat));
            }
            while store.len() < size
                invariant
                    model == lines.deep_view(),
                    model.len() == lines@.len(),
                    1 <= cursor <= model.len(),
                    store@.len() <= size,
                    spec_array_elems(model.skip(1), size as nat) == store.deep_view()
                        + spec_array_elems(
                        model.skip(cursor as int),
                        (size - store@.len()) as nat,
                    ),
                decreases size - store@.len(),
            {
                let ghost remaining = (size - store@.len()) as nat;
                let ghost rest = model.skip(cursor as int);
                if cursor == lines.len() {
                    proof {
                        assert(rest.len() == 0);
                        assert(spec_array_elems(rest, remaining) =~= Seq::<
                            ResponseValueView,
                        >::empty());
                        assert(spec_array_elems(model.skip(1), size as nat) =~= store.deep_view());
                    }
                    return Err(DecodeError::CountMismatch(size, store.len()));
                }
                proof {
                    assert(rest[0] =~= lines@[cursor as int]@);
                }
                let header = readline(&lines[cursor]);
                match header {
                    Ok(ResponseLine::BulkString(len)) => {
                        if cursor + 1 < lines.len() && lines[cursor + 1].len() == len {
                            let payload = copy_bytes(&lines[cursor + 1]);
                            proof {
                                assert(rest[1] =~= lines@[cursor as int + 1]@);
                                assert(payload@ =~= rest[1]);
                                assert(spec_array_elems(rest, remaining) == seq![
                                    ResponseValueView::String(rest[1]),
                                ] + spec_array_elems(rest.skip(2), (remaining - 1) as nat));
                                assert(rest.skip(2) =~= model.skip(cursor as int + 2));
                            }
                            let ghost before = store.deep_view();
                            store.push(ResponseValue::String(payload));
                            proof {
                                assert(store.deep_view() =~~= before + seq![
                                    ResponseValueView::String(rest[1]),
                                ]);
                                assert(spec_array_elems(model.skip(1), size as nat)
                                    == store.deep_view() + spec_array_elems(
                                    model.skip(cursor as int + 2),
                                    (size - store@.len()) as nat,
                                ));
                            }
                            cursor = cursor + 2;
                        } else {
                            proof {
                                assert(spec_array_elems(rest, remaining) =~= Seq::<
                                    ResponseValueView,
                                >::empty());
                                assert(spec_array_elems(model.skip(1), size as nat)
                                    =~= store.deep_view());
                            }
                            return Err(DecodeError::CountMismatch(size, store.len()));
                        }
                    },
                    _ => {
                        proof {
                            assert(spec_array_elems(rest, remaining) =~= Seq::<
                                ResponseValueView,
                            >::empty());
                            assert(spec_array_elems(model.skip(1), size as nat)
                                =~= store.deep_view());
                        }
                        return Err(DecodeError::CountMismatch(size, store.len()));
                    },
                }
            }
            proof {
                assert(spec_array_elems(model.skip(cursor as int), 0nat) =~= Seq::<
                    ResponseValueView,
                >::empty());
                assert(spec_array_elems(model.skip(1), size as nat) =~= store.deep_view());
            }
            Ok(Response::Array(store))
        },
    }
}

/// What decoding a complete response buffer yields: the buffer is split
/// at its line terminators and the lines are decoded.
pub open spec fn spec_decode(input: Seq<u8>) -> Result<ResponseView, DecodeErrorView> {
    spec_decode_lines(spec_split_crlf(input))
}

/// Decodes one complete response from a byte buffer. Bytes past the end
/// of the response are ignored, as a transport would leave them unread.
pub fn decode(input: &Vec<u8>) -> (r: Result<Response, DecodeError>)
    ensures
        spec_result(r) == spec_decode(input@),
{
    let lines = split_crlf(input);
    decode_lines(&lines)
}

/// The round-trip law of one echoed value: a server that answers a
/// request with the bulk-string token of a payload (as an echo does)
/// hands the decoder exactly that payload back, as long as the payload
/// is non-empty and holds no line terminator of its own.
pub proof fn lemma_bulk_string_round_trip(payload: Seq<u8>)
    requires
        payload.len() > 0,
        payload.len() <= usize::MAX,
        forall|j: int| !#[trigger] spec_crlf_at(payload, j),
    ensures
        spec_decode(spec_bulk_string(payload)) == Ok::<ResponseView, DecodeErrorView>(
            ResponseView::Item(ResponseValueView::String(payload)),
        ),
{
    let s = spec_bulk_string(payload);
    let d = spec_digits(payload.len());
    lemma_digits_roundtrip(payload.len());
    let header = seq![36u8] + d;
    let k1 = 1 + d.len() as int;
    assert(s[k1] == 13 && s[k1 + 1] == 10);
    assert(spec_crlf_at(s, k1));
    assert(forall|j: int| 0 <= j < k1 ==> !#[trigger] spec_crlf_at(s, j)) by {
        assert(forall|j: int| 0 <= j < k1 ==> s[j] != 13) by {
            assert(s[0] == 36);
            assert(forall|j: int| 1 <= j < k1 ==> s[j] == d[j - 1] && 48 <= #[trigger] s[j] <= 57);
        }
    }
    lemma_first_crlf_is(s, k1);
    assert(s.take(k1) =~= header);
    let s2 = s.skip(k1 + 2);
    assert(s2 =~= payload + seq![13u8, 10u8]);
    let k2 = payload.len() as int;
    assert(spec_crlf_at(s2, k2));
    assert(forall|j: int| 0 <= j < k2 ==> !#[trigger] spec_crlf_at(s2, j)) by {
        assert forall|j: int| 0 <= j < k2 implies !spec_crlf_at(s2, j) by {
            if j < k2 - 1 {
                assert(s2[j] == payload[j] && s2[j + 1] == payload[j + 1]);
                assert(!spec_crlf_at(payload, j));
            } else {
                assert(s2[j + 1] == 13);
            }
        }
    }
    lemma_first_crlf_is(s2, k2);
    assert(s2.take(k2) =~= payload);
    let s3 = s2.skip(k2 + 2);
    assert(s3 =~= Seq::<u8>::empty());
    assert(spec_first_crlf(s3) == -1);
    let lines = spec_split_crlf(s);
    assert(spec_split_crlf(s3) == seq![s3]);
    assert(spec_split_crlf(s2) == seq![s2.take(k2)] + spec_split_crlf(s3));
    assert(spec_split_crlf(s) == seq![s.take(k1)] + spec_split_crlf(s2));
    assert(lines =~~= seq![header, payload, Seq::<u8>::empty()]);
    assert(header[0] == 36u8);
    assert(header.drop_first() =~= d);
    assert(d != seq![45u8, 49u8]) by {
        assert(48 <= d[0] <= 57);
    }
    assert(crate::wire::spec_unsigned_body(d) == d) by {
        assert(48 <= d[0] <= 57);
    }
    assert(spec_parse_usize(d) == Some(payload.len() as usize));
    assert(spec_readline(lines[0]) == Ok::<ResponseLineView, DecodeErrorView>(
        ResponseLineView::BulkString(payload.len() as usize),
    ));
    assert(spec_decode_lines(lines) == Ok::<ResponseView, DecodeErrorView>(
        ResponseView::Item(ResponseValueView::String(payload)),
    ));
}

} // verus!
