//! Serial-line framing between a relay beacon and the gateway: the ASCII
//! header `MORTYGPS` immediately followed by the standard-alphabet base64
//! encoding of a radio frame, terminated by a newline.
//!
//! Base64 itself is done by the `base64` crate; the contracts here name its
//! result and rely on the strictness of its standard engine, which accepts
//! exactly the canonical encodings.

use vstd::prelude::*;
use base64::Engine;

verus! {

/// How a serial line was rejected: wrong header, or a body that is not
/// valid base64.
#[derive(Clone, Copy, Debug, PartialEq, Eq, Structural)]
pub enum SerialError {
    BadHeader,
    InvalidBase64,
}

/// The standard-alphabet, padded base64 encoding of `data`, as bytes.
pub uninterp spec fn b64_of(data: Seq<u8>) -> Seq<u8>;

/// Whether `b` is a byte the standard base64 alphabet can emit:
/// `A`-`Z`, `a`-`z`, `0`-`9`, `+`, `/` or the padding `=`.
pub open spec fn is_b64_byte(b: u8) -> bool {
    (65 <= b <= 90) || (97 <= b <= 122) || (48 <= b <= 57) || b == 43 || b == 47 || b == 61
}

/// Relies on base64's `STANDARD` engine `encode`: it emits the padded
/// standard-alphabet encoding, all bytes from that alphabet, and is
/// injective because the engine's `decode` inverts it.
#[verifier::external_body]
fn b64_encode(data: &[u8]) -> (r: Vec<u8>)
    ensures
        r@ == b64_of(data@),
        forall|i: int| 0 <= i < r@.len() ==> is_b64_byte(#[trigger] r@[i]),
        forall|bs: Seq<u8>| b64_of(bs) == r@ ==> bs == data@,
{
    base64::engine::general_purpose::STANDARD.encode(data).into_bytes()
}

/// Relies on base64's `STANDARD` engine `decode`: it is strict (canonical
/// padding required, no trailing bits), so it succeeds exactly on the
/// canonical encodings and returns the bytes they encode.
#[verifier::external_body]
fn b64_decode(data: &[u8]) -> (r: Option<Vec<u8>>)
    ensures
        (r is Some) == exists|bs: Seq<u8>| data@ == b64_of(bs),
        r matches Some(b) ==> data@ == b64_of(b@) && (forall|bs: Seq<u8>|
            data@ == b64_of(bs) ==> bs == b@),
{
    match base64::engine::general_purpose::STANDARD.decode(data) {
        Ok(v) => Some(v),
        Err(_) => None,
    }
}

/// The ASCII bytes of the line header `MORTYGPS`.
pub open spec fn serial_header() -> Seq<u8> {
    seq![77u8, 79u8, 82u8, 84u8, 89u8, 71u8, 80u8, 83u8]
}

/// The serial line that carries a radio frame.
pub open spec fn serial_line_of(frame: Seq<u8>) -> Seq<u8> {
    serial_header() + b64_of(frame) + seq![10u8]
}

/// Whether `b` is ASCII whitespace, as the gateway trims it.
pub open spec fn is_ws(b: u8) -> bool {
    b == 9 || b == 10 || b == 13 || b == 32
}

/// `s` without trailing ASCII whitespace.
pub open spec fn trim_end(s: Seq<u8>) -> Seq<u8>
    decreases s.len(),
{
    if s.len() > 0 && is_ws(s.last()) {
        trim_end(s.drop_last())
    } else {
        s
    }
}

/// `s` without leading ASCII whitespace.
pub open spec fn trim_start(s: Seq<u8>) -> Seq<u8>
    decreases s.len(),
{
    if s.len() > 0 && is_ws(s[0]) {
        trim_start(s.drop_first())
    } else {
        s
    }
}

/// `s` without leading or trailing ASCII whitespace.
pub open spec fn trim_ws(s: Seq<u8>) -> Seq<u8> {
    trim_start(trim_end(s))
}

/// What parsing a serial line yields: the frame bytes whose encoding,
/// after the header and up to trailing whitespace, the line carries.
pub open spec fn parse_line_spec(line: Seq<u8>) -> Result<Seq<u8>, SerialError> {
    if line.len() < 8 || line.subrange(0, 8) != serial_header() {
        Err(SerialError::BadHeader)
    } else {
        let body = trim_ws(line.skip(8));
        if exists|bs: Seq<u8>| body == b64_of(bs) {
            Ok(choose|bs: Seq<u8>| body == b64_of(bs))
        } else {
            Err(SerialError::InvalidBase64)
        }
    }
}

/// Builds the serial line for a radio frame. Parsing the line yields the
/// frame again: the serial bridge loses nothing.
pub fn serial_line_for_frame(frame: &[u8]) -> (r: Vec<u8>)
    ensures
        r@ == serial_line_of(frame@),
        parse_line_spec(r@) == Ok::<Seq<u8>, SerialError>(frame@),
{
    let mut out: Vec<u8> = Vec::new();
    out.push(77);
    out.push(79);
    out.push(82);
    out.push(84);
    out.push(89);
    out.push(71);
    out.push(80);
    out.push(83);
    proof {
        assert(out@ =~= serial_header());
    }
    let mut b = b64_encode(frame);
    let ghost enc = b@;
    out.append(&mut b);
    out.push(10);
    proof {
        assert(out@ =~= serial_line_of(frame@));
        assert(out@.subrange(0, 8) =~= serial_header());
        let body = out@.skip(8);
        assert(body =~= enc + seq![10u8]);
        assert(body.last() == 10 && is_ws(body.last()));
        assert(body.drop_last() =~= enc);
        if enc.len() > 0 {
            assert(is_b64_byte(enc.last()) && !is_ws(enc.last()));
            assert(is_b64_byte(enc[0]) && !is_ws(enc[0]));
        }
        assert(trim_end(enc) == enc);
        assert(trim_end(body) == trim_end(enc));
        assert(trim_start(enc) == enc);
        assert(trim_ws(body) == enc);
        assert(trim_ws(out@.skip(8)) == enc);
        assert(exists|bs: Seq<u8>| trim_ws(out@.skip(8)) == b64_of(bs)) by {
            assert(trim_ws(out@.skip(8)) == b64_of(frame@));
        }
        let w = choose|bs: Seq<u8>| trim_ws(out@.skip(8)) == b64_of(bs);
        assert(b64_of(w) == enc);
        assert(w == frame@);
    }
    out
}

/// Splits a line into header and payload and decodes the payload: lines
/// not starting with `MORTYGPS` are rejected as such, and so is a payload
/// that is not canonical base64 once surrounding whitespace is trimmed.
pub fn parse_serial_line(line: &[u8]) -> (r: Result<Vec<u8>, SerialError>)
    ensures
        (r is Ok) == (parse_line_spec(line@) is Ok),
        r matches Ok(b) ==> parse_line_spec(line@) == Ok::<Seq<u8>, SerialError>(b@),
        r matches Err(e) ==> parse_line_spec(line@) == Err::<Seq<u8>, SerialError>(e),
{
    if line.len() < 8 {
        return Err(SerialError::BadHeader);
    }
    let mut header: Vec<u8> = Vec::new();
    header.push(77);
    header.push(79);
    header.push(82);
    header.push(84);
    header.push(89);
    header.push(71);
    header.push(80);
    header.push(83);
    proof {
        assert(header@ =~= serial_header());
    }
    let head = vstd::slice::slice_subrange(line, 0, 8);
    if !crate::idcache::bytes_eq(head, header.as_slice()) {
        return Err(SerialError::BadHeader);
    }
    let body = vstd::slice::slice_subrange(line, 8, line.len());
    proof {
        assert(body@ =~= line@.skip(8));
    }
    let mut start: usize = 0;
    let mut end: usize = body.len();
    proof {
        assert(body@.take(body@.len() as int) =~= body@);
    }
    while end > start && is_ws_exec(body[end - 1])
        invariant
            start == 0,
            end <= body@.len(),
            trim_end(body@) == trim_end(body@.take(end as int)),
        decreases end,
    {
        proof {
            assert(body@.take(end as int).last() == body@[end - 1]);
            assert(body@.take(end as int).drop_last() =~= body@.take(end - 1));
        }
        end -= 1;
    }
    proof {
        if end > start {
            assert(!is_ws(body@.take(end as int).last()));
        }
        assert(trim_end(body@) == body@.take(end as int));
    }
    let ghost te = body@.take(end as int);
    proof {
        assert(te.skip(0) =~= te);
    }
    while start < end && is_ws_exec(body[start])
        invariant
            start <= end <= body@.len(),
            te == body@.take(end as int),
            trim_end(body@) == te,
            trim_start(te) == trim_start(te.skip(start as int)),
        decreases end - start,
    {
        proof {
            assert(te.skip(start as int)[0] == body@[start as int]);
            assert(te.skip(start as int).drop_first() =~= te.skip(start as int + 1));
        }
        start += 1;
    }
    proof {
        let rem = te.skip(start as int);
        if start < end {
            assert(rem[0] == body@[start as int]);
            assert(!is_ws(rem[0]));
        }
        assert(trim_start(te) == rem);
    }
    let trimmed = vstd::slice::slice_subrange(body, start, end);
    proof {
        assert(trimmed@ =~= trim_ws(line@.skip(8)));
    }
    match b64_decode(trimmed) {
        Some(frame) => {
            proof {
                let body_spec = trim_ws(line@.skip(8));
                assert(body_spec == b64_of(frame@));
                let w = choose|bs: Seq<u8>| body_spec == b64_of(bs);
                assert(body_spec == b64_of(w));
            }
            Ok(frame)
        },
        None => {
            proof {
                if exists|bs: Seq<u8>| trim_ws(line@.skip(8)) == b64_of(bs) {
                    let w = choose|bs: Seq<u8>| trim_ws(line@.skip(8)) == b64_of(bs);
                    assert(trimmed@ == b64_of(w));
                }
            }
            Err(SerialError::InvalidBase64)
        },
    }
}

/// Whether a byte is ASCII whitespace.
fn is_ws_exec(b: u8) -> (r: bool)
    ensures
        r == is_ws(b),
{
    b == 9 || b == 10 || b == 13 || b == 32
}

} // verus!
