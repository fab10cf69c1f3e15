//! Protocol frames and their wire form.

use vstd::prelude::*;
use vstd::utf8::{encode_utf8, encode_utf8_decode_utf8};

verus! {

/// One protocol message. Integers are unsigned.
#[derive(Debug, PartialEq, Eq)]
pub enum RespFrame {
    Simple(String),
    Error(String),
    Integer(u64),
    Bulk(Vec<u8>),
    Null,
    Array(Vec<RespFrame>),
}

/// The decimal ASCII digits of `n`, most significant first, without leading zeros.
pub open spec fn decimal(n: nat) -> Seq<u8>
    decreases n,
{
    if n < 10 {
        seq![(48 + n) as u8]
    } else {
        decimal(n / 10).push((48 + n % 10) as u8)
    }
}

/// The two bytes that end every field.
pub open spec fn crlf() -> Seq<u8> {
    seq![13u8, 10u8]
}

/// The wire bytes of a frame. An array has no wire form on the write path;
/// for it this is the empty sequence.
pub open spec fn wire(f: RespFrame) -> Seq<u8> {
    match f {
        RespFrame::Simple(s) => seq![43u8] + encode_utf8(s@) + crlf(),
        RespFrame::Error(s) => seq![45u8] + encode_utf8(s@) + crlf(),
        RespFrame::Integer(n) => seq![58u8] + decimal(n as nat) + crlf(),
        RespFrame::Null => seq![36u8, 45u8, 49u8, 13u8, 10u8],
        RespFrame::Bulk(b) => seq![36u8] + decimal(b@.len()) + crlf() + b@ + crlf(),
        RespFrame::Array(_) => Seq::empty(),
    }
}

/// Appends the decimal digits of `n` to `out`.
fn push_decimal(out: &mut Vec<u8>, n: u64)
    ensures
        final(out)@ == old(out)@ + decimal(n as nat),
    decreases n,
{
    if n >= 10 {
        push_decimal(out, n / 10);
    }
    let digit: u8 = (n % 10) as u8;
    out.push(48 + digit);
    proof {
        assert(final(out)@ =~= old(out)@ + decimal(n as nat));
    }
}

/// Appends every byte of `bytes` to `out`.
fn push_all(out: &mut Vec<u8>, bytes: &[u8])
    ensures
        final(out)@ == old(out)@ + bytes@,
{
    let mut i: usize = 0;
    while i < bytes.len()
        invariant
            i <= bytes.len(),
            out@ == old(out)@ + bytes@.subrange(0, i as int),
        decreases bytes.len() - i,
    {
        out.push(bytes[i]);
        i += 1;
        proof {
            assert(out@ =~= old(out)@ + bytes@.subrange(0, i as int));
        }
    }
    proof {
        assert(bytes@.subrange(0, i as int) =~= bytes@);
    }
}

/// Appends the field terminator to `out`.
fn push_crlf(out: &mut Vec<u8>)
    ensures
        final(out)@ == old(out)@ + crlf(),
{
    out.push(13);
    out.push(10);
    proof {
        assert(final(out)@ =~= old(out)@ + crlf());
    }
}

/// Serialises a frame. Every frame but an array has a wire form, and the
/// result is exactly that; an array has none.
pub fn encode(frame: &RespFrame) -> (out: Option<Vec<u8>>)
    ensures
        (*frame is Array) <==> out is None,
        out matches Some(bytes) ==> bytes@ == wire(*frame),
{
    let mut out: Vec<u8> = Vec::new();
    match frame {
        RespFrame::Simple(s) => {
            out.push(43);
            push_all(&mut out, s.as_str().as_bytes());
            push_crlf(&mut out);
        },
        RespFrame::Error(s) => {
            out.push(45);
            push_all(&mut out, s.as_str().as_bytes());
            push_crlf(&mut out);
        },
        RespFrame::Integer(n) => {
            out.push(58);
            push_decimal(&mut out, *n);
            push_crlf(&mut out);
        },
        RespFrame::Null => {
            out.push(36);
            out.push(45);
            out.push(49);
            push_crlf(&mut out);
        },
        RespFrame::Bulk(b) => {
            out.push(36);
            push_decimal(&mut out, b.len() as u64);
            push_crlf(&mut out);
            push_all(&mut out, b.as_slice());
            push_crlf(&mut out);
        },
        RespFrame::Array(_) => {
            return None;
        },
    }
    proof {
        assert(out@ =~= wire(*frame));
    }
    Some(out)
}

/// Whether two frames are the same message: the same variant with the same
/// contents. An array is no message here.
pub open spec fn same_message(f: RespFrame, g: RespFrame) -> bool {
    match (f, g) {
        (RespFrame::Simple(s), RespFrame::Simple(t)) => s@ == t@,
        (RespFrame::Error(s), RespFrame::Error(t)) => s@ == t@,
        (RespFrame::Integer(n), RespFrame::Integer(m)) => n == m,
        (RespFrame::Bulk(a), RespFrame::Bulk(b)) => a@ == b@,
        (RespFrame::Null, RespFrame::Null) => true,
        _ => false,
    }
}

/// The number that a sequence of decimal digits spells.
pub open spec fn digits_number(digits: Seq<u8>) -> nat
    decreases digits.len(),
{
    if digits.len() == 0 {
        0
    } else {
        digits_number(digits.drop_last()) * 10 + (digits.last() - 48) as nat
    }
}

/// The decimal form of a number is at least one digit, holds digits only,
/// and spells that number.
pub proof fn lemma_decimal_spells(n: nat)
    ensures
        decimal(n).len() >= 1,
        forall|i: int| 0 <= i < decimal(n).len() ==> 48 <= #[trigger] decimal(n)[i] <= 57,
        digits_number(decimal(n)) == n,
    decreases n,
{
    let d = decimal(n);
    if n < 10 {
        assert(d.drop_last() =~= Seq::<u8>::empty());
        assert(digits_number(d.drop_last()) == 0);
        assert(d.last() == (48 + n) as u8);
    } else {
        lemma_decimal_spells(n / 10);
        assert(d.drop_last() =~= decimal(n / 10));
        assert(d.last() == (48 + n % 10) as u8);
    }
}

/// A larger number has no shorter decimal form.
proof fn lemma_decimal_len_monotone(a: nat, b: nat)
    requires
        a <= b,
    ensures
        decimal(a).len() <= decimal(b).len(),
    decreases b,
{
    lemma_decimal_spells(a);
    if b >= 10 {
        lemma_decimal_spells(b / 10);
        if a >= 10 {
            lemma_decimal_len_monotone(a / 10, b / 10);
        }
    }
}

/// Between the same tag byte and the terminator stand the same bytes.
proof fn lemma_same_line(tag: u8, x: Seq<u8>, y: Seq<u8>)
    requires
        seq![tag] + x + crlf() == seq![tag] + y + crlf(),
    ensures
        x == y,
{
    let left = seq![tag] + x + crlf();
    let right = seq![tag] + y + crlf();
    assert(left.len() == 1 + x.len() + 2);
    assert(right.len() == 1 + y.len() + 2);
    assert forall|i: int| 0 <= i < x.len() implies x[i] == y[i] by {
        assert(left[i + 1] == x[i]);
        assert(right[i + 1] == y[i]);
    }
    assert(x =~= y);
}

/// Two bulk strings with the same wire bytes hold the same bytes.
proof fn lemma_same_bulk(x: Seq<u8>, y: Seq<u8>)
    requires
        seq![36u8] + decimal(x.len()) + crlf() + x + crlf() == seq![36u8] + decimal(y.len())
            + crlf() + y + crlf(),
    ensures
        x == y,
{
    let left = seq![36u8] + decimal(x.len()) + crlf() + x + crlf();
    let right = seq![36u8] + decimal(y.len()) + crlf() + y + crlf();
    assert(left.len() == 1 + decimal(x.len()).len() + 2 + x.len() + 2);
    assert(right.len() == 1 + decimal(y.len()).len() + 2 + y.len() + 2);
    if x.len() < y.len() {
        lemma_decimal_len_monotone(x.len(), y.len());
    }
    if y.len() < x.len() {
        lemma_decimal_len_monotone(y.len(), x.len());
    }
    assert(x.len() == y.len());
    let start = 1 + decimal(x.len()).len() + 2;
    assert forall|i: int| 0 <= i < x.len() implies x[i] == y[i] by {
        assert(left[start + i] == x[i]);
        assert(right[start + i] == y[i]);
    }
    assert(x =~= y);
}

/// The wire form loses nothing: two frames with the same wire bytes, neither
/// of them an array, are the same message. Nothing is said here of what a
/// decoder returns for those bytes.
pub proof fn law_wire_form_determines_frame(f: RespFrame, g: RespFrame)
    requires
        !(f is Array),
        !(g is Array),
        wire(f) == wire(g),
    ensures
        same_message(f, g),
{
    let w = wire(f);
    assert(wire(f)[0] == wire(g)[0]);
    match f {
        RespFrame::Simple(s) => {
            assert(w[0] == 43u8);
            let t = g->Simple_0;
            lemma_same_line(43u8, encode_utf8(s@), encode_utf8(t@));
            encode_utf8_decode_utf8(s@);
            encode_utf8_decode_utf8(t@);
        },
        RespFrame::Error(s) => {
            assert(w[0] == 45u8);
            let t = g->Error_0;
            lemma_same_line(45u8, encode_utf8(s@), encode_utf8(t@));
            encode_utf8_decode_utf8(s@);
            encode_utf8_decode_utf8(t@);
        },
        RespFrame::Integer(n) => {
            assert(w[0] == 58u8);
            let m = g->Integer_0;
            lemma_same_line(58u8, decimal(n as nat), decimal(m as nat));
            lemma_decimal_spells(n as nat);
            lemma_decimal_spells(m as nat);
        },
        RespFrame::Null => {
            assert(w[0] == 36u8);
            assert(w[1] == 45u8);
            if g is Bulk {
                let b = g->Bulk_0;
                lemma_decimal_spells(b@.len());
                assert(wire(g)[1] == decimal(b@.len())[0]);
            }
        },
        RespFrame::Bulk(a) => {
            assert(w[0] == 36u8);
            lemma_decimal_spells(a@.len());
            assert(w[1] == decimal(a@.len())[0]);
            let b = g->Bulk_0;
            lemma_same_bulk(a@, b@);
        },
        RespFrame::Array(_) => {},
    }
}

} // verus!
