//! The final rendering step for an error code: trailing whitespace is
//! trimmed from the decoded message, and a message the acquirer could not
//! produce (an empty one) is replaced by the fixed textual fallback
//! `error 0x` followed by at least four lowercase hexadecimal digits of the
//! code. A rendered message therefore is never empty and never ends in
//! whitespace.

use vstd::prelude::*;

verus! {

/// Whether a byte is trailing whitespace to be trimmed: space, tab,
/// line feed or carriage return.
pub open spec fn is_ws(b: u8) -> bool {
    b == 0x20 || b == 0x09 || b == 0x0A || b == 0x0D
}

/// The text with its trailing whitespace removed.
pub open spec fn trim_trailing_ws(s: Seq<u8>) -> Seq<u8>
    decreases s.len(),
{
    if s.len() > 0 && is_ws(s.last()) {
        trim_trailing_ws(s.drop_last())
    } else {
        s
    }
}

/// The lowercase hexadecimal digit for a value below 16, as an ASCII byte.
pub open spec fn hex_digit_lower(d: int) -> u8
    recommends
        0 <= d < 16,
{
    if d < 10 {
        (0x30 + d) as u8
    } else {
        (0x61 + (d - 10)) as u8
    }
}

/// The lowercase hexadecimal digits of a value, most significant first,
/// without leading zeros (a lone zero for 0).
pub open spec fn hex_rep(v: nat) -> Seq<u8>
    decreases v,
{
    if v < 16 {
        seq![hex_digit_lower(v as int)]
    } else {
        hex_rep(v / 16) + seq![hex_digit_lower((v % 16) as int)]
    }
}

/// The zeros that pad the hexadecimal digits of a value to width four.
pub open spec fn hex_pad(v: nat) -> Seq<u8> {
    if v < 0x10 {
        seq![0x30u8, 0x30u8, 0x30u8]
    } else if v < 0x100 {
        seq![0x30u8, 0x30u8]
    } else if v < 0x1000 {
        seq![0x30u8]
    } else {
        Seq::empty()
    }
}

/// The fixed fallback text for a code whose message the acquirer could not
/// produce: `error 0x` and the code in lowercase hexadecimal, zero-padded
/// to at least four digits.
pub open spec fn fallback_text(code: u32) -> Seq<u8> {
    seq![0x65u8, 0x72u8, 0x72u8, 0x6Fu8, 0x72u8, 0x20u8, 0x30u8, 0x78u8] + hex_pad(code as nat)
        + hex_rep(code as nat)
}

/// The rendered text for an error code whose decoded message is `decoded`:
/// the message with trailing whitespace trimmed, or, when nothing is left,
/// the fixed fallback text.
pub open spec fn errno_rendered(code: u32, decoded: Seq<u8>) -> Seq<u8> {
    let t = trim_trailing_ws(decoded);
    if t.len() == 0 {
        fallback_text(code)
    } else {
        t
    }
}

fn hex_lower(d: u8) -> (c: u8)
    requires
        d < 16,
    ensures
        c == hex_digit_lower(d as int),
{
    if d < 10 {
        0x30 + d
    } else {
        0x61 + (d - 10)
    }
}

fn push_hex_rep(out: &mut Vec<u8>, v: u32)
    ensures
        final(out)@ == old(out)@ + hex_rep(v as nat),
    decreases v,
{
    if v < 16 {
        out.push(hex_lower(v as u8));
        proof {
            assert(out@ =~= old(out)@ + hex_rep(v as nat));
        }
    } else {
        push_hex_rep(out, v / 16);
        out.push(hex_lower((v % 16) as u8));
        proof {
            assert(out@ =~= old(out)@ + hex_rep(v as nat));
        }
    }
}

fn push_fallback_text(out: &mut Vec<u8>, code: u32)
    ensures
        final(out)@ == old(out)@ + fallback_text(code),
{
    out.push(0x65);
    out.push(0x72);
    out.push(0x72);
    out.push(0x6F);
    out.push(0x72);
    out.push(0x20);
    out.push(0x30);
    out.push(0x78);
    if code < 0x10 {
        out.push(0x30);
        out.push(0x30);
        out.push(0x30);
    } else if code < 0x100 {
        out.push(0x30);
        out.push(0x30);
    } else if code < 0x1000 {
        out.push(0x30);
    }
    push_hex_rep(out, code);
    proof {
        assert(out@ =~= old(out)@ + fallback_text(code));
    }
}

fn ws_byte(b: u8) -> (r: bool)
    ensures
        r == is_ws(b),
{
    b == 0x20 || b == 0x09 || b == 0x0A || b == 0x0D
}

/// The decoded message with its trailing whitespace removed.
pub fn trim_message(decoded: &[u8]) -> (r: Vec<u8>)
    ensures
        r@ == trim_trailing_ws(decoded@),
{
    let mut n: usize = decoded.len();
    proof {
        assert(decoded@.take(decoded@.len() as int) =~= decoded@);
    }
    while n > 0 && ws_byte(decoded[n - 1])
        invariant
            n <= decoded@.len(),
            trim_trailing_ws(decoded@.take(n as int)) == trim_trailing_ws(decoded@),
        decreases n,
    {
        proof {
            assert(decoded@.take(n as int).last() == decoded@[n - 1]);
            assert(decoded@.take(n as int).drop_last() =~= decoded@.take(n as int - 1));
        }
        n = n - 1;
    }
    proof {
        if n > 0 {
            assert(decoded@.take(n as int).last() == decoded@[n - 1]);
        }
        assert(trim_trailing_ws(decoded@.take(n as int)) == decoded@.take(n as int));
    }
    let mut r: Vec<u8> = Vec::new();
    let mut i: usize = 0;
    while i < n
        invariant
            i <= n <= decoded@.len(),
            r@ == decoded@.take(n as int).take(i as int),
        decreases n - i,
    {
        r.push(decoded[i]);
        proof {
            assert(decoded@.take(n as int).take(i as int + 1) =~= decoded@.take(n as int).take(
                i as int,
            ).push(decoded@[i as int]));
        }
        i = i + 1;
    }
    proof {
        assert(decoded@.take(n as int).take(n as int) =~= decoded@.take(n as int));
    }
    r
}

/// Renders an error code from its decoded message: the message with
/// trailing whitespace trimmed, or the fixed fallback text `error 0x<code>`
/// when the acquirer produced no message. Rendering into the growable
/// buffer cannot fail; the only failure a caller can meet is its own sink
/// rejecting the finished text.
pub fn errno_fmt(e: i32, decoded: &[u8]) -> (r: Vec<u8>)
    ensures
        r@ == errno_rendered(e as u32, decoded@),
{
    let trimmed = trim_message(decoded);
    if trimmed.len() == 0 {
        let code: u32 = #[verifier::truncate] (e as u32);
        let mut out: Vec<u8> = Vec::new();
        push_fallback_text(&mut out, code);
        proof {
            assert(out@ =~= fallback_text(e as u32));
        }
        out
    } else {
        trimmed
    }
}

proof fn lemma_trim_ends_non_ws(s: Seq<u8>)
    ensures
        trim_trailing_ws(s).len() == 0 || !is_ws(trim_trailing_ws(s).last()),
    decreases s.len(),
{
    if s.len() > 0 && is_ws(s.last()) {
        lemma_trim_ends_non_ws(s.drop_last());
    }
}

proof fn lemma_hex_rep_last(v: nat)
    ensures
        hex_rep(v).len() >= 1,
        !is_ws(hex_rep(v).last()),
    decreases v,
{
    if v >= 16 {
        lemma_hex_rep_last(v / 16);
    }
}

/// Law: whatever the input, the rendered text of an error code is never
/// empty and never ends in whitespace.
pub proof fn lemma_rendered_ends_non_ws(code: u32, decoded: Seq<u8>)
    ensures
        errno_rendered(code, decoded).len() >= 1,
        !is_ws(errno_rendered(code, decoded).last()),
{
    lemma_trim_ends_non_ws(decoded);
    let t = trim_trailing_ws(decoded);
    if t.len() == 0 {
        lemma_hex_rep_last(code as nat);
        assert(fallback_text(code).last() == hex_rep(code as nat).last());
    }
}

} // verus!
