//! What a reader of the wire form can rely on: a bulk frame gives back the
//! payload that went into it, and no two replies share a wire form.

use crate::command::{crlf, wire, Reply, BULK, CR, FAILURE, LF, SUCCESS};
use crate::decimal::{
    decimal, decimal_value, is_decimal, lemma_decimal_is_decimal, lemma_decimal_value,
};
use vstd::prelude::*;
use vstd::utf8::{encode_utf8, encode_utf8_decode_utf8};

verus! {

/// Whether the first line terminator of `bytes` stands at `at`.
pub open spec fn first_line_ends_at(bytes: Seq<u8>, at: int) -> bool {
    &&& 0 <= at < bytes.len() - 1
    &&& bytes[at] == CR && bytes[at + 1] == LF
    &&& forall|j: int| 0 <= j < at ==> !(#[trigger] bytes[j] == CR && bytes[j + 1] == LF)
}

/// Where the first line of `bytes` ends, if it ends.
pub open spec fn first_line_end(bytes: Seq<u8>) -> Option<int> {
    if exists|at: int| first_line_ends_at(bytes, at) {
        Some(choose|at: int| first_line_ends_at(bytes, at))
    } else {
        None
    }
}

/// The payload length that a bulk frame declares on its first line.
pub open spec fn declared_length(frame: Seq<u8>) -> Option<nat> {
    match first_line_end(frame) {
        Some(end) => if frame[0] == BULK && is_decimal(frame.subrange(1, end)) {
            Some(decimal_value(frame.subrange(1, end)))
        } else {
            None
        },
        None => None,
    }
}

/// The payload that a bulk frame carries: as many bytes as it declares,
/// between the terminator of its first line and the terminator that ends it.
pub open spec fn framed_payload(frame: Seq<u8>) -> Option<Seq<u8>> {
    match (first_line_end(frame), declared_length(frame)) {
        (Some(end), Some(length)) => {
            let start: int = end + 2;
            let stop: int = start + length;
            if frame.len() == stop + 2 && frame.subrange(stop, stop + 2) == crlf() {
                Some(frame.subrange(start, stop))
            } else {
                None
            }
        },
        _ => None,
    }
}

/// A line ends in one place only.
pub proof fn lemma_first_line_end(bytes: Seq<u8>, at: int)
    requires
        first_line_ends_at(bytes, at),
    ensures
        first_line_end(bytes) == Some(at),
{
    let chosen = choose|at: int| first_line_ends_at(bytes, at);
    assert(first_line_ends_at(bytes, chosen));
    if chosen < at {
        assert(!(bytes[chosen] == CR && bytes[chosen + 1] == LF));
    } else if at < chosen {
        assert(!(bytes[at] == CR && bytes[at + 1] == LF));
    }
}

/// The frame of a payload declares the payload's length, and holds the
/// payload, byte for byte, between its two line terminators. This is so for
/// every payload: the empty one, and one with line terminators of its own.
pub proof fn lemma_data_frame(payload: Seq<u8>)
    ensures
        declared_length(wire(Reply::Data(payload))) == Some(payload.len()),
        framed_payload(wire(Reply::Data(payload))) == Some(payload),
{
    let frame = wire(Reply::Data(payload));
    let digits = decimal(payload.len());
    let end = digits.len() as int + 1;
    lemma_decimal_is_decimal(payload.len());
    lemma_decimal_value(payload.len());
    assert forall|j: int| 0 <= j < end implies !(#[trigger] frame[j] == CR && frame[j + 1]
        == LF) by {
        if j > 0 {
            assert(frame[j] == digits[j - 1]);
        }
    }
    assert(first_line_ends_at(frame, end));
    lemma_first_line_end(frame, end);
    assert(frame.subrange(1, end) =~= digits);
    let start: int = end + 2;
    let stop: int = start + payload.len();
    assert(frame.subrange(stop, stop + 2) =~= crlf());
    assert(frame.subrange(start, stop) =~= payload);
}

/// The frame of `Nil` is `$-1` and a line terminator, and nothing else; it
/// declares no length and carries no payload.
pub proof fn lemma_nil_frame()
    ensures
        wire(Reply::Nil) == seq![36u8, 45u8, 49u8, 13u8, 10u8],
        declared_length(wire(Reply::Nil)) is None,
        framed_payload(wire(Reply::Nil)) is None,
{
    let frame = wire(Reply::Nil);
    assert(frame =~= seq![36u8, 45u8, 49u8, 13u8, 10u8]);
    assert(first_line_ends_at(frame, 3));
    lemma_first_line_end(frame, 3);
    assert(frame.subrange(1, 3)[0] == 45);
}

/// Two replies with the same wire form are the same reply.
pub proof fn lemma_wire_injective(a: Reply, b: Reply)
    requires
        wire(a) == wire(b),
    ensures
        a == b,
{
    lemma_first_byte(a);
    lemma_first_byte(b);
    match (a, b) {
        (Reply::Nil, Reply::Nil) => {},
        (Reply::Nil, Reply::Data(payload)) => {
            lemma_decimal_is_decimal(payload.len());
            assert(wire(b)[1] == decimal(payload.len())[0]);
        },
        (Reply::Data(payload), Reply::Nil) => {
            lemma_decimal_is_decimal(payload.len());
            assert(wire(a)[1] == decimal(payload.len())[0]);
        },
        (Reply::Data(p), Reply::Data(q)) => {
            lemma_data_frame(p);
            lemma_data_frame(q);
        },
        (Reply::Error(m), Reply::Error(n)) => {
            lemma_same_line(FAILURE, m, n);
        },
        (Reply::Status(m), Reply::Status(n)) => {
            lemma_same_line(SUCCESS, m, n);
        },
        _ => {},
    }
}

/// The first byte of a wire form tells a bulk reply, an error and a status
/// apart.
pub proof fn lemma_first_byte(reply: Reply)
    ensures
        wire(reply)[0] == match reply {
            Reply::Nil => BULK,
            Reply::Data(_) => BULK,
            Reply::Error(_) => FAILURE,
            Reply::Status(_) => SUCCESS,
        },
{
    match reply {
        Reply::Nil => {},
        Reply::Data(payload) => {
            assert((seq![BULK] + decimal(payload.len()))[0] == BULK);
        },
        Reply::Error(message) => {
            assert((seq![FAILURE] + encode_utf8(message))[0] == FAILURE);
        },
        Reply::Status(message) => {
            assert((seq![SUCCESS] + encode_utf8(message))[0] == SUCCESS);
        },
    }
}

proof fn lemma_same_line(mark: u8, m: Seq<char>, n: Seq<char>)
    requires
        seq![mark] + encode_utf8(m) + crlf() == seq![mark] + encode_utf8(n) + crlf(),
    ensures
        m == n,
{
    let left = seq![mark] + encode_utf8(m) + crlf();
    let right = seq![mark] + encode_utf8(n) + crlf();
    assert(left.len() == right.len());
    let end: int = left.len() - 2;
    assert(encode_utf8(m) =~= left.subrange(1, end));
    assert(encode_utf8(n) =~= right.subrange(1, end));
    encode_utf8_decode_utf8(m);
    encode_utf8_decode_utf8(n);
}

} // verus!
