//! The fast path of the decoder: when the source encoding already is the
//! canonical target (UTF-8), the message bytes are scanned directly. Runs of
//! well-formed UTF-8 are rendered verbatim; each byte of a malformed run is
//! replaced by its escape token, and scanning resumes immediately after it,
//! so rendering never stops at the first invalid run. Every input byte is
//! consumed exactly once: either copied or escaped.

use vstd::prelude::*;

use crate::escape::{escape_seq, write_byte};

verus! {

/// Whether a byte is a UTF-8 continuation byte.
pub open spec fn is_cont(b: u8) -> bool {
    0x80 <= b <= 0xBF
}

/// The length of the well-formed UTF-8 encoded character starting at
/// position `i`, or 0 when no well-formed character starts there.
///
/// The ranges follow the UTF-8 well-formedness table: overlong forms,
/// surrogate code points and values above U+10FFFF are rejected.
pub open spec fn utf8_char_len(s: Seq<u8>, i: int) -> int
    recommends
        0 <= i < s.len(),
{
    let b0 = s[i];
    if b0 < 0x80 {
        1
    } else if 0xC2 <= b0 <= 0xDF {
        if i + 2 <= s.len() && is_cont(s[i + 1]) {
            2
        } else {
            0
        }
    } else if b0 == 0xE0 {
        if i + 3 <= s.len() && 0xA0 <= s[i + 1] <= 0xBF && is_cont(s[i + 2]) {
            3
        } else {
            0
        }
    } else if 0xE1 <= b0 <= 0xEC || b0 == 0xEE || b0 == 0xEF {
        if i + 3 <= s.len() && is_cont(s[i + 1]) && is_cont(s[i + 2]) {
            3
        } else {
            0
        }
    } else if b0 == 0xED {
        if i + 3 <= s.len() && 0x80 <= s[i + 1] <= 0x9F && is_cont(s[i + 2]) {
            3
        } else {
            0
        }
    } else if b0 == 0xF0 {
        if i + 4 <= s.len() && 0x90 <= s[i + 1] <= 0xBF && is_cont(s[i + 2]) && is_cont(s[i + 3]) {
            4
        } else {
            0
        }
    } else if 0xF1 <= b0 <= 0xF3 {
        if i + 4 <= s.len() && is_cont(s[i + 1]) && is_cont(s[i + 2]) && is_cont(s[i + 3]) {
            4
        } else {
            0
        }
    } else if b0 == 0xF4 {
        if i + 4 <= s.len() && 0x80 <= s[i + 1] <= 0x8F && is_cont(s[i + 2]) && is_cont(s[i + 3]) {
            4
        } else {
            0
        }
    } else {
        0
    }
}

/// The fast-path rendering of the suffix of `s` that starts at `i`:
/// well-formed characters are copied verbatim, every other byte becomes its
/// escape token, until the end of the input.
pub open spec fn render_from(s: Seq<u8>, i: int) -> Seq<u8>
    recommends
        0 <= i <= s.len(),
    decreases s.len() - i,
{
    if i < 0 || i >= s.len() {
        Seq::empty()
    } else {
        let l = utf8_char_len(s, i);
        if l > 0 {
            s.subrange(i, i + l) + render_from(s, i + l)
        } else {
            escape_seq(s[i]) + render_from(s, i + 1)
        }
    }
}

/// The fast-path rendering of a whole byte sequence.
pub open spec fn fast_path_render(s: Seq<u8>) -> Seq<u8> {
    render_from(s, 0)
}

/// How many bytes of the suffix of `s` starting at `i` the fast path
/// escapes rather than copies.
pub open spec fn invalid_count_from(s: Seq<u8>, i: int) -> nat
    recommends
        0 <= i <= s.len(),
    decreases s.len() - i,
{
    if i < 0 || i >= s.len() {
        0
    } else {
        let l = utf8_char_len(s, i);
        if l > 0 {
            invalid_count_from(s, i + l)
        } else {
            1 + invalid_count_from(s, i + 1)
        }
    }
}

/// How many bytes of `s` the fast path escapes.
pub open spec fn invalid_count(s: Seq<u8>) -> nat {
    invalid_count_from(s, 0)
}

/// A byte sequence the fast path copies entirely: well-formed characters
/// cover every position, so nothing is escaped.
pub open spec fn is_valid_utf8(s: Seq<u8>) -> bool {
    invalid_count(s) == 0
}

proof fn lemma_render_from_len(s: Seq<u8>, i: int)
    requires
        0 <= i <= s.len(),
    ensures
        render_from(s, i).len() == (s.len() - i) + 3 * invalid_count_from(s, i),
    decreases s.len() - i,
{
    if i < s.len() {
        let l = utf8_char_len(s, i);
        if l > 0 {
            lemma_render_from_len(s, i + l);
        } else {
            lemma_render_from_len(s, i + 1);
        }
    }
}

/// Law: the rendered text holds every copied byte once and a 4-character
/// token per escaped byte, so its length is the input length plus three
/// characters for each escaped byte.
pub proof fn lemma_render_len(s: Seq<u8>)
    ensures
        fast_path_render(s).len() == s.len() + 3 * invalid_count(s),
{
    lemma_render_from_len(s, 0);
}

/// Law: the fast path renders a non-empty input to a non-empty text.
pub proof fn lemma_render_nonempty(s: Seq<u8>)
    requires
        s.len() >= 1,
    ensures
        fast_path_render(s).len() >= 1,
{
    lemma_render_len(s);
}

proof fn lemma_valid_render_from(s: Seq<u8>, i: int)
    requires
        0 <= i <= s.len(),
        invalid_count_from(s, i) == 0,
    ensures
        render_from(s, i) == s.subrange(i, s.len() as int),
    decreases s.len() - i,
{
    if i < s.len() {
        let l = utf8_char_len(s, i);
        lemma_valid_render_from(s, i + l);
        assert(render_from(s, i) =~= s.subrange(i, s.len() as int));
    } else {
        assert(render_from(s, i) =~= s.subrange(i, s.len() as int));
    }
}

/// Law: an input that is entirely well-formed in the canonical encoding is
/// rendered verbatim, so the rendering holds no escape tokens.
pub proof fn lemma_valid_input_renders_verbatim(s: Seq<u8>)
    requires
        is_valid_utf8(s),
    ensures
        fast_path_render(s) == s,
{
    lemma_valid_render_from(s, 0);
    assert(s.subrange(0, s.len() as int) =~= s);
}

fn is_cont_byte(b: u8) -> (r: bool)
    ensures
        r == is_cont(b),
{
    0x80 <= b && b <= 0xBF
}

/// The well-formed character length starting at position `i`, or 0.
fn char_len_at(s: &[u8], i: usize) -> (l: usize)
    requires
        i < s@.len(),
    ensures
        l as int == utf8_char_len(s@, i as int),
        i + l <= s@.len(),
{
    let n: usize = s.len();
    let b0 = s[i];
    if b0 < 0x80 {
        1
    } else if 0xC2 <= b0 && b0 <= 0xDF {
        if n - i >= 2 && is_cont_byte(s[i + 1]) {
            2
        } else {
            0
        }
    } else if b0 == 0xE0 {
        if n - i >= 3 && 0xA0 <= s[i + 1] && s[i + 1] <= 0xBF && is_cont_byte(s[i + 2]) {
            3
        } else {
            0
        }
    } else if 0xE1 <= b0 && b0 <= 0xEC || b0 == 0xEE || b0 == 0xEF {
        if n - i >= 3 && is_cont_byte(s[i + 1]) && is_cont_byte(s[i + 2]) {
            3
        } else {
            0
        }
    } else if b0 == 0xED {
        if n - i >= 3 && 0x80 <= s[i + 1] && s[i + 1] <= 0x9F && is_cont_byte(s[i + 2]) {
            3
        } else {
            0
        }
    } else if b0 == 0xF0 {
        if n - i >= 4 && 0x90 <= s[i + 1] && s[i + 1] <= 0xBF && is_cont_byte(s[i + 2])
            && is_cont_byte(s[i + 3]) {
            4
        } else {
            0
        }
    } else if 0xF1 <= b0 && b0 <= 0xF3 {
        if n - i >= 4 && is_cont_byte(s[i + 1]) && is_cont_byte(s[i + 2]) && is_cont_byte(
            s[i + 3],
        ) {
            4
        } else {
            0
        }
    } else if b0 == 0xF4 {
        if n - i >= 4 && 0x80 <= s[i + 1] && s[i + 1] <= 0x8F && is_cont_byte(s[i + 2])
            && is_cont_byte(s[i + 3]) {
            4
        } else {
            0
        }
    } else {
        0
    }
}

/// Appends the fast-path rendering of `s` to the rendered text: well-formed
/// runs verbatim, one escape token per malformed byte, to the end of the
/// input.
pub fn write_utf8_lossy(out: &mut Vec<u8>, s: &[u8])
    ensures
        final(out)@ == old(out)@ + fast_path_render(s@),
{
    let n: usize = s.len();
    let mut i: usize = 0;
    while i < n
        invariant
            n == s@.len(),
            i <= s@.len(),
            out@ + render_from(s@, i as int) == old(out)@ + render_from(s@, 0),
        decreases s@.len() - i,
    {
        let ghost prev = out@;
        let l = char_len_at(s, i);
        if l > 0 {
            let mut j: usize = i;
            while j < i + l
                invariant
                    n == s@.len(),
                    i <= j <= i + l,
                    i + l <= n,
                    out@ == prev + s@.subrange(i as int, j as int),
                decreases i + l - j,
            {
                out.push(s[j]);
                proof {
                    assert(s@.subrange(i as int, j as int + 1) =~= s@.subrange(
                        i as int,
                        j as int,
                    ).push(s@[j as int]));
                }
                j = j + 1;
            }
            proof {
                assert((prev + s@.subrange(i as int, i as int + l as int)) + render_from(
                    s@,
                    i as int + l as int,
                ) =~= prev + render_from(s@, i as int));
            }
            i = i + l;
        } else {
            write_byte(out, s[i]);
            proof {
                assert((prev + escape_seq(s@[i as int])) + render_from(s@, i as int + 1) =~= prev
                    + render_from(s@, i as int));
            }
            i = i + 1;
        }
    }
    proof {
        assert(out@ + render_from(s@, s@.len() as int) =~= out@);
    }
}

} // verus!
