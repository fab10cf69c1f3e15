//! Finding and decoding one frame at the front of a byte buffer.
//!
//! The grammar itself is that of the `mini_redis` crate: its two entry points
//! are called here and their results are named, not restated. Before the
//! calls a walk over the headers of the frames makes sure that no bulk
//! length overflows and that nothing is nested too deep; bytes that fail it
//! are refused as no frame.

use vstd::prelude::*;
use crate::frame::{decimal, lemma_decimal_spells, wire, RespFrame};

verus! {

/// Why a buffer does not start with a frame.
#[derive(Debug, Clone, Copy, PartialEq, Eq, Structural)]
pub enum ScanError {
    /// More bytes are needed.
    Incomplete,
    /// The bytes cannot start a frame.
    Malformed,
}

/// The result of `mini_redis::Frame::check` on a cursor at the start of
/// `bytes`: the cursor's position after a complete frame, or why there is none.
pub uninterp spec fn scanned(bytes: Seq<u8>) -> Result<usize, ScanError>;

/// The frame that `mini_redis::Frame::parse` returns on a cursor at the start
/// of `bytes`, or `None` where it returns an error.
pub uninterp spec fn decoded(bytes: Seq<u8>) -> Option<RespFrame>;

/// The frame type of `mini_redis`, opaque here: a value of it is only
/// carried from the outside parser to the conversion.
#[verifier::external_type_specification]
#[verifier::external_body]
pub struct ExOutsideFrame(mini_redis::Frame);

/// Whether `b` is an ASCII decimal digit.
pub open spec fn is_digit(b: u8) -> bool {
    48 <= b <= 57
}

/// The number that the decimal digits from index `i` on spell when they
/// continue the number `acc`; `acc` itself where no digit stands at `i`.
pub open spec fn digits_value(bytes: Seq<u8>, i: int, acc: nat) -> nat
    decreases bytes.len() - i,
{
    if 0 <= i < bytes.len() && is_digit(bytes[i]) {
        digits_value(bytes, i + 1, acc * 10 + (bytes[i] - 48) as nat)
    } else {
        acc
    }
}

/// The number read at index `from`: the value of the digits that stand
/// there, if there is at least one and the value fits in 64 bits.
pub open spec fn number_at(bytes: Seq<u8>, from: int) -> Option<u64> {
    if 0 <= from < bytes.len() && is_digit(bytes[from]) && digits_value(bytes, from, 0)
        <= u64::MAX {
        Some(digits_value(bytes, from, 0) as u64)
    } else {
        None
    }
}

/// The index of the first CR that is followed by LF, from index `i` on.
pub open spec fn line_end(bytes: Seq<u8>, i: int) -> Option<int>
    decreases bytes.len() - i,
{
    if i < 0 || i + 1 >= bytes.len() {
        None
    } else if bytes[i] == 13u8 && bytes[i + 1] == 10u8 {
        Some(i)
    } else {
        line_end(bytes, i + 1)
    }
}

/// What the header of the frame at one position means for a walk over the
/// frames of a buffer.
#[derive(Debug, Clone, Copy, PartialEq, Eq, Structural)]
pub enum Step {
    /// The walk ends here: the bytes run out or are no frame.
    Stop,
    /// A bulk length to which two cannot be added within a `usize`.
    Overflow,
    /// The frame ends before this position.
    Next(usize),
    /// An array: its first element starts at this position, and it has
    /// this many elements.
    Open(usize, u64),
}

/// The step at position `pos`: a line after `+`, `-` or `:`; four bytes
/// after `$-`; a length, its line, that many bytes and two more after `$`;
/// a count and its line after `*`.
pub open spec fn step(bytes: Seq<u8>, pos: int) -> Step {
    if !(0 <= pos < bytes.len()) {
        Step::Stop
    } else if bytes[pos] == 36u8 && pos + 1 >= bytes.len() {
        Step::Stop
    } else if bytes[pos] == 36u8 && bytes[pos + 1] == 45u8 {
        if bytes.len() - (pos + 1) < 4 {
            Step::Stop
        } else {
            Step::Next((pos + 5) as usize)
        }
    } else if bytes[pos] == 43u8 || bytes[pos] == 45u8 {
        match line_end(bytes, pos + 1) {
            Some(e) => Step::Next((e + 2) as usize),
            None => Step::Stop,
        }
    } else if bytes[pos] == 58u8 || bytes[pos] == 42u8 || bytes[pos] == 36u8 {
        match (line_end(bytes, pos + 1), number_at(bytes, pos + 1)) {
            (Some(e), Some(v)) => {
                if bytes[pos] == 58u8 {
                    Step::Next((e + 2) as usize)
                } else if bytes[pos] == 42u8 {
                    Step::Open((e + 2) as usize, v)
                } else if v > usize::MAX {
                    Step::Stop
                } else if v + 2 > usize::MAX {
                    Step::Overflow
                } else if bytes.len() - (e + 2) < v + 2 {
                    Step::Stop
                } else {
                    Step::Next((e + 2 + v + 2) as usize)
                }
            },
            _ => Step::Stop,
        }
    } else {
        Step::Stop
    }
}

/// The deepest nesting of frames that is read: a frame that is no element
/// of an array is at depth one.
pub const MAX_NESTING: usize = 128;

/// Whether a walk from position `pos` meets neither a bulk length that
/// overflows nor a frame nested deeper than `MAX_NESTING`. `open` holds,
/// for each array that the walk is inside of, the number of its elements
/// that are still to come, the innermost last.
pub open spec fn walk(bytes: Seq<u8>, pos: int, open: Seq<u64>) -> bool
    decreases bytes.len() - pos, open.len(),
{
    if open.len() == 0 {
        true
    } else if open.last() == 0 {
        walk(bytes, pos, open.drop_last())
    } else {
        let rest = open.drop_last().push((open.last() - 1) as u64);
        match step(bytes, pos) {
            Step::Stop => true,
            Step::Overflow => false,
            Step::Next(p) => {
                if p <= pos || p > bytes.len() {
                    true
                } else {
                    walk(bytes, p as int, rest)
                }
            },
            Step::Open(p, count) => {
                if p <= pos || p > bytes.len() {
                    true
                } else if count == 0 {
                    walk(bytes, p as int, rest)
                } else if rest.len() >= MAX_NESTING {
                    false
                } else {
                    walk(bytes, p as int, rest.push(count))
                }
            },
        }
    }
}

/// Whether the frame at the front of `bytes` can be scanned: on the way
/// through it and its elements, as far as the bytes go, no bulk length
/// overflows and nothing is nested deeper than `MAX_NESTING`.
pub open spec fn can_scan(bytes: Seq<u8>) -> bool {
    walk(bytes, 0, seq![1u64])
}

/// Further digits never make the number smaller.
proof fn lemma_digits_value_grows(bytes: Seq<u8>, i: int, acc: nat)
    ensures
        digits_value(bytes, i, acc) >= acc,
    decreases bytes.len() - i,
{
    if 0 <= i < bytes.len() && is_digit(bytes[i]) {
        lemma_digits_value_grows(bytes, i + 1, acc * 10 + (bytes[i] - 48) as nat);
    }
}

/// Whether a digit stands at index `j`.
fn digit_at(buf: &[u8], j: usize) -> (r: bool)
    requires
        j < buf@.len(),
    ensures
        r == is_digit(buf@[j as int]),
{
    48 <= buf[j] && buf[j] <= 57
}

/// Reads the number at index `from`.
fn read_number(buf: &[u8], from: usize) -> (r: Option<u64>)
    requires
        from <= buf@.len(),
    ensures
        r == number_at(buf@, from as int),
{
    let n: usize = buf.len();
    if from >= n || !digit_at(buf, from) {
        return None;
    }
    let mut j: usize = from;
    let mut acc: u64 = 0;
    while j < n && digit_at(buf, j)
        invariant
            n == buf@.len(),
            from <= j <= n,
            digits_value(buf@, j as int, acc as nat) == digits_value(buf@, from as int, 0),
        decreases n - j,
    {
        let d: u64 = (buf[j] - 48) as u64;
        if acc > (u64::MAX - d) / 10 {
            proof {
                assert(acc * 10 + d > u64::MAX) by (nonlinear_arith)
                    requires
                        acc > (u64::MAX - d) / 10,
                        0 <= d <= 9,
                ;
                lemma_digits_value_grows(buf@, j as int + 1, (acc * 10 + d) as nat);
            }
            return None;
        }
        assert(acc * 10 + d <= u64::MAX) by (nonlinear_arith)
            requires
                acc <= (u64::MAX - d) / 10,
                0 <= d <= 9,
        ;
        acc = acc * 10 + d;
        j += 1;
    }
    Some(acc)
}

/// Finds the end of the line that starts at index `from`.
fn find_line(buf: &[u8], from: usize) -> (r: Option<usize>)
    requires
        from <= buf@.len(),
    ensures
        match r {
            Some(e) => line_end(buf@, from as int) == Some(e as int) && from <= e && e + 2
                <= buf@.len(),
            None => line_end(buf@, from as int) is None,
        },
{
    let n: usize = buf.len();
    let mut i: usize = from;
    while i < n && i + 1 < n
        invariant
            n == buf@.len(),
            from <= i <= n,
            line_end(buf@, i as int) == line_end(buf@, from as int),
        decreases n - i,
    {
        if buf[i] == 13 && buf[i + 1] == 10 {
            return Some(i);
        }
        i += 1;
    }
    None
}

/// Reads the header of the frame at position `pos`.
pub fn read_header(buf: &[u8], pos: usize) -> (r: Step)
    ensures
        r == step(buf@, pos as int),
        r matches Step::Next(p) ==> pos < p <= buf@.len(),
        r matches Step::Open(p, _) ==> pos < p <= buf@.len(),
{
    let n: usize = buf.len();
    if pos >= n {
        return Step::Stop;
    }
    let tag: u8 = buf[pos];
    if tag == 36 && pos + 1 >= n {
        Step::Stop
    } else if tag == 36 && buf[pos + 1] == 45 {
        if n - (pos + 1) < 4 {
            Step::Stop
        } else {
            Step::Next(pos + 5)
        }
    } else if tag == 43 || tag == 45 {
        match find_line(buf, pos + 1) {
            Some(e) => Step::Next(e + 2),
            None => Step::Stop,
        }
    } else if tag == 58 || tag == 42 || tag == 36 {
        match (find_line(buf, pos + 1), read_number(buf, pos + 1)) {
            (Some(e), Some(v)) => {
                if tag == 58 {
                    Step::Next(e + 2)
                } else if tag == 42 {
                    Step::Open(e + 2, v)
                } else if v > usize::MAX as u64 {
                    Step::Stop
                } else if v as usize > usize::MAX - 2 {
                    Step::Overflow
                } else if n - (e + 2) < v as usize + 2 {
                    Step::Stop
                } else {
                    Step::Next(e + 2 + v as usize + 2)
                }
            },
            _ => Step::Stop,
        }
    } else {
        Step::Stop
    }
}

/// Decides `can_scan` by walking over the frames of the buffer.
pub fn safe_to_scan(buf: &[u8]) -> (r: bool)
    ensures
        r == can_scan(buf@),
{
    let mut open: Vec<u64> = Vec::new();
    open.push(1);
    let mut pos: usize = 0;
    while open.len() > 0
        invariant
            pos <= buf@.len(),
            open@.len() <= MAX_NESTING,
            walk(buf@, pos as int, open@) == can_scan(buf@),
        decreases buf@.len() - pos, open@.len(),
    {
        let ghost before = open@;
        let top: u64 = open[open.len() - 1];
        open.pop();
        if top > 0 {
            open.push(top - 1);
            proof {
                assert(open@ =~= before.drop_last().push((before.last() - 1) as u64));
            }
            match read_header(buf, pos) {
                Step::Stop => {
                    return true;
                },
                Step::Overflow => {
                    return false;
                },
                Step::Next(p) => {
                    pos = p;
                },
                Step::Open(p, count) => {
                    pos = p;
                    if count > 0 {
                        if open.len() >= MAX_NESTING {
                            return false;
                        }
                        open.push(count);
                    }
                },
            }
        } else {
            proof {
                assert(open@ =~= before.drop_last());
            }
        }
    }
    true
}

/// Calls `mini_redis::Frame::check` on a cursor at the start of `buf`.
///
/// Trusted: the result is the one named `scanned`, and a position that comes
/// back lies after the tag byte and within the buffer, since the cursor only
/// moves over bytes that are there. The outside code adds two to each bulk
/// length that it reads and calls itself for each element of an array;
/// buffers in which that sum would not fit in a `usize`, or in which it
/// would call itself deeper than `MAX_NESTING`, are left out.
#[verifier::external_body]
pub(crate) fn scan(buf: &[u8]) -> (r: Result<usize, ScanError>)
    requires
        can_scan(buf@),
    ensures
        r == scanned(buf@),
        r matches Ok(n) ==> 1 <= n <= buf@.len(),
{
    let mut cursor = std::io::Cursor::new(buf);
    match mini_redis::Frame::check(&mut cursor) {
        Ok(()) => Ok(cursor.position() as usize),
        Err(mini_redis::frame::Error::Incomplete) => Err(ScanError::Incomplete),
        Err(mini_redis::frame::Error::Other(_)) => Err(ScanError::Malformed),
    }
}

/// Turns a frame of `mini_redis` into a frame of this library, variant by
/// variant and field by field; the elements of an array likewise.
///
/// Trusted: a conversion only, with nothing claimed of it here; `decode`
/// is where its result is named.
#[verifier::external_body]
pub(crate) fn own_frame(outside: mini_redis::Frame) -> RespFrame {
    match outside {
        mini_redis::Frame::Simple(s) => RespFrame::Simple(s),
        mini_redis::Frame::Error(s) => RespFrame::Error(s),
        mini_redis::Frame::Integer(n) => RespFrame::Integer(n),
        mini_redis::Frame::Bulk(b) => RespFrame::Bulk(b.to_vec()),
        mini_redis::Frame::Null => RespFrame::Null,
        mini_redis::Frame::Array(v) => RespFrame::Array(v.into_iter().map(own_frame).collect()),
    }
}

/// Calls `mini_redis::Frame::parse` on a cursor at the start of `buf`.
///
/// Trusted: the result is the one named `decoded`. The outside function is
/// meant for buffers that `mini_redis::Frame::check` has accepted and stops
/// the program on an unknown tag byte, so only such buffers are admitted. It
/// reads the same lengths and nests as deep as the check does, so the same
/// buffers are left out.
#[verifier::external_body]
pub(crate) fn decode(buf: &[u8]) -> (r: Option<RespFrame>)
    requires
        can_scan(buf@),
        scanned(buf@) is Ok,
    ensures
        r == decoded(buf@),
{
    let mut cursor = std::io::Cursor::new(buf);
    match mini_redis::Frame::parse(&mut cursor) {
        Ok(outside) => Some(own_frame(outside)),
        Err(_) => None,
    }
}

/// What one attempt to take a frame from the front of a buffer yields.
#[derive(Debug, PartialEq, Eq)]
pub enum Attempt {
    /// A frame, and the number of bytes it occupies.
    Taken(RespFrame, usize),
    /// No complete frame yet.
    Pending,
    /// The bytes are no frame and never will be.
    Invalid,
}

/// The outcome of an attempt on `bytes`, over the two named results: invalid
/// where the bytes cannot be scanned or either outside function rejects
/// them, pending where the scan asks for more, and otherwise the decoded
/// frame with the scanned extent.
pub open spec fn attempt(bytes: Seq<u8>) -> Attempt {
    if !can_scan(bytes) {
        Attempt::Invalid
    } else {
        outcome(scanned(bytes), decoded(bytes))
    }
}

/// How a scan result and a decode result combine.
pub open spec fn outcome(scan: Result<usize, ScanError>, frame: Option<RespFrame>) -> Attempt {
    match scan {
        Err(ScanError::Incomplete) => Attempt::Pending,
        Err(ScanError::Malformed) => Attempt::Invalid,
        Ok(n) => match frame {
            Some(f) => Attempt::Taken(f, n),
            None => Attempt::Invalid,
        },
    }
}

/// Combines the result of a scan with that of the decoding that follows a
/// successful scan.
pub fn settle(scan: Result<usize, ScanError>, frame: Option<RespFrame>) -> (r: Attempt)
    ensures
        r == outcome(scan, frame),
{
    match scan {
        Err(ScanError::Incomplete) => Attempt::Pending,
        Err(ScanError::Malformed) => Attempt::Invalid,
        Ok(n) => match frame {
            Some(f) => Attempt::Taken(f, n),
            None => Attempt::Invalid,
        },
    }
}

/// Attempts to take one frame from the front of `buf` without changing it.
pub fn try_frame(buf: &[u8]) -> (r: Attempt)
    ensures
        r == attempt(buf@),
        r matches Attempt::Taken(_, n) ==> 1 <= n <= buf@.len(),
{
    if !safe_to_scan(buf) {
        return Attempt::Invalid;
    }
    let extent = scan(buf);
    let frame = if extent.is_ok() {
        decode(buf)
    } else {
        None
    };
    settle(extent, frame)
}

/// Where the decimal form of `n` stands at index `i`, reading the digits
/// from there comes to `n` at the end of that form.
proof fn lemma_reads_decimal(bytes: Seq<u8>, i: int, n: nat)
    requires
        0 <= i,
        i + decimal(n).len() <= bytes.len(),
        bytes.subrange(i, i + decimal(n).len()) == decimal(n),
    ensures
        digits_value(bytes, i, 0) == digits_value(bytes, i + decimal(n).len(), n),
    decreases n,
{
    let k = decimal(n).len() as int;
    lemma_decimal_spells(n);
    if n < 10 {
        assert(bytes[i] == bytes.subrange(i, i + k)[0]);
    } else {
        lemma_decimal_spells(n / 10);
        assert(decimal(n).drop_last() =~= decimal(n / 10));
        assert(bytes.subrange(i, i + k - 1) =~= bytes.subrange(i, i + k).drop_last());
        lemma_reads_decimal(bytes, i, n / 10);
        assert(bytes[i + k - 1] == bytes.subrange(i, i + k)[k - 1]);
        assert(decimal(n)[k - 1] == (48 + n % 10) as u8);
    }
}

/// The wire bytes of a frame that is no array can always be scanned,
/// whatever its text or payload holds, as long as they fit in a buffer.
pub proof fn law_encoded_frames_can_be_scanned(f: RespFrame)
    requires
        !(f is Array),
        wire(f).len() <= usize::MAX,
    ensures
        can_scan(wire(f)),
{
    let bytes = wire(f);
    reveal_with_fuel(walk, 4);
    let open = seq![1u64];
    let rest = open.drop_last().push((open.last() - 1) as u64);
    assert(rest.last() == 0);
    assert(rest.drop_last() =~= Seq::<u64>::empty());
    match f {
        RespFrame::Bulk(b) => {
            let n = b@.len();
            let k = decimal(n).len() as int;
            lemma_decimal_spells(n);
            assert(bytes.subrange(1, 1 + k) =~= decimal(n));
            lemma_reads_decimal(bytes, 1, n);
            assert(bytes[1 + k] == 13u8);
            assert(bytes[1] == decimal(n)[0]);
            assert(digits_value(bytes, 1, 0) == n);
            assert(bytes.len() == 1 + k + 2 + n + 2);
            assert(!(step(bytes, 0) is Overflow));
        },
        _ => {
            assert(!(step(bytes, 0) is Overflow));
            assert(!(step(bytes, 0) is Open));
        },
    }
}

/// On the wire bytes of a frame that is no array the library refuses
/// nothing of its own: what comes of an attempt is what the outside scan
/// and the outside decoding give.
pub proof fn law_encoded_frames_reach_the_decoder(f: RespFrame)
    requires
        !(f is Array),
        wire(f).len() <= usize::MAX,
    ensures
        attempt(wire(f)) == outcome(scanned(wire(f)), decoded(wire(f))),
{
    law_encoded_frames_can_be_scanned(f);
}

} // verus!
