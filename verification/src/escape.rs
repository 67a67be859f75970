//! The escape-token format: one undecodable byte becomes the fixed
//! four-character token `\x` followed by two uppercase hexadecimal digits.
//! The token format is part of the observable contract of every rendered
//! message and is reproduced exactly.

use vstd::prelude::*;

verus! {

/// The uppercase hexadecimal digit for a value below 16, as an ASCII byte.
pub open spec fn hex_digit_upper(d: int) -> u8
    recommends
        0 <= d < 16,
{
    if d < 10 {
        (0x30 + d) as u8
    } else {
        (0x41 + (d - 10)) as u8
    }
}

/// The 4-byte escape token `\xHH` standing for one undecodable byte.
pub open spec fn escape_seq(b: u8) -> Seq<u8> {
    seq![0x5Cu8, 0x78u8, hex_digit_upper(b as int / 16), hex_digit_upper(b as int % 16)]
}

/// A byte sequence rendered entirely as escape tokens, one token per byte,
/// in input order.
pub open spec fn escape_all(s: Seq<u8>) -> Seq<u8>
    decreases s.len(),
{
    if s.len() == 0 {
        Seq::empty()
    } else {
        escape_seq(s[0]) + escape_all(s.skip(1))
    }
}

/// Law: every escape token is exactly 4 characters long.
pub proof fn lemma_escape_seq_len(b: u8)
    ensures
        escape_seq(b).len() == 4,
{
}

/// Law: a fully escaped rendering holds one 4-character token per input
/// byte, so its length is exactly four times the input length.
pub proof fn lemma_escape_all_len(s: Seq<u8>)
    ensures
        escape_all(s).len() == 4 * s.len(),
    decreases s.len(),
{
    if s.len() > 0 {
        lemma_escape_all_len(s.skip(1));
    }
}

/// Peels the first token off a fully escaped suffix.
proof fn lemma_escape_all_step(s: Seq<u8>, i: int)
    requires
        0 <= i < s.len(),
    ensures
        escape_all(s.skip(i)) == escape_seq(s[i]) + escape_all(s.skip(i + 1)),
{
    assert(s.skip(i)[0] == s[i]);
    assert(s.skip(i).skip(1) =~= s.skip(i + 1));
}

fn hex_upper(d: u8) -> (c: u8)
    requires
        d < 16,
    ensures
        c == hex_digit_upper(d as int),
{
    if d < 10 {
        0x30 + d
    } else {
        0x41 + (d - 10)
    }
}

/// Appends the escape token for one byte to the rendered text.
pub fn write_byte(out: &mut Vec<u8>, c: u8)
    ensures
        final(out)@ == old(out)@ + escape_seq(c),
{
    out.push(0x5C);
    out.push(0x78);
    out.push(hex_upper(c / 16));
    out.push(hex_upper(c % 16));
    assert(out@ =~= old(out)@ + escape_seq(c));
}

/// Appends the fully escaped rendering of `s` to the rendered text: the
/// degraded but still-valid representation used when no converter for the
/// source encoding is available.
pub fn write_fallback(out: &mut Vec<u8>, s: &[u8])
    ensures
        final(out)@ == old(out)@ + escape_all(s@),
{
    let mut i: usize = 0;
    proof {
        assert(s@.skip(0) =~= s@);
    }
    while i < s.len()
        invariant
            i <= s@.len(),
            out@ + escape_all(s@.skip(i as int)) == old(out)@ + escape_all(s@),
        decreases s@.len() - i,
    {
        let ghost prev = out@;
        write_byte(out, s[i]);
        proof {
            lemma_escape_all_step(s@, i as int);
            assert((prev + escape_seq(s@[i as int])) + escape_all(s@.skip(i as int + 1)) =~= prev
                + escape_all(s@.skip(i as int)));
        }
        i = i + 1;
    }
    proof {
        assert(s@.skip(s@.len() as int) =~= Seq::<u8>::empty());
        assert(out@ + Seq::<u8>::empty() =~= out@);
    }
}

} // verus!
