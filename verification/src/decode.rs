//! The locale-aware decoder. A message arrives as bytes in the locale's
//! narrow-character encoding together with the codeset name that identifies
//! that encoding. When the codeset already is the canonical target, the bytes
//! are rendered directly by the fast path. Otherwise the caller opens a
//! platform converter and drives it through a fixed-size working buffer,
//! handing every outcome to [`MsgDecoder::step`]; when no converter for the
//! codeset is available, the whole input degrades to escape tokens instead of
//! failing. Every input byte is consumed exactly once on every path.

use vstd::prelude::*;

use crate::escape::{escape_all, escape_seq, write_byte, write_fallback};
use crate::utf8::{fast_path_render, write_utf8_lossy};
use vstd::slice::{slice_subrange, slice_to_vec};

verus! {

/// The canonical target encoding's codeset name, `UTF-8` with its
/// terminating NUL, exactly as the platform's locale query spells it.
pub open spec fn canonical_codeset() -> Seq<u8> {
    seq![0x55u8, 0x54u8, 0x46u8, 0x2Du8, 0x38u8, 0x00u8]
}

/// Whether a codeset name is exactly the canonical target encoding's name.
pub fn is_canonical_codeset(codeset: &[u8]) -> (r: bool)
    ensures
        r == (codeset@ == canonical_codeset()),
{
    if codeset.len() != 6 {
        return false;
    }
    let r = codeset[0] == 0x55 && codeset[1] == 0x54 && codeset[2] == 0x46 && codeset[3] == 0x2D
        && codeset[4] == 0x38 && codeset[5] == 0x00;
    proof {
        if r {
            assert(codeset@ =~= canonical_codeset());
        }
    }
    r
}

/// One outcome of feeding the remaining input to the converter.
///
/// A stateful byte-stream converter, invoked with the remaining input and a
/// bounded output buffer, ends each invocation in exactly one of these ways.
#[derive(Debug, Copy, Clone, Eq, PartialEq, Structural)]
pub enum FeedStatus {
    /// The converter consumed the entire remaining input.
    Complete,
    /// The converter stopped only because its output buffer was full; the
    /// caller loops again with a fresh buffer. Not an error.
    BufferFull,
    /// The converter stopped at a byte it cannot decode; that byte is
    /// escaped and conversion resumes right after it. Not an error.
    InvalidByte,
}

/// Decodes one message, incrementally, into canonical text.
///
/// The decoder owns the message bytes, a cursor over how many of them have
/// been consumed, and the rendered text produced so far. Encoding-quality
/// problems are absorbed into escape tokens; nothing here fails.
pub struct MsgDecoder {
    msg: Vec<u8>,
    pos: usize,
    out: Vec<u8>,
    done: bool,
}

impl MsgDecoder {
    /// The message bytes being decoded.
    pub closed spec fn input(&self) -> Seq<u8> {
        self.msg@
    }

    /// How many input bytes have been consumed so far.
    pub closed spec fn spec_position(&self) -> int {
        self.pos as int
    }

    /// The canonical text rendered so far.
    pub closed spec fn rendered(&self) -> Seq<u8> {
        self.out@
    }

    /// Whether decoding has finished.
    pub closed spec fn spec_done(&self) -> bool {
        self.done
    }

    /// The input bytes not consumed yet.
    pub open spec fn remaining_input(&self) -> Seq<u8> {
        self.input().skip(self.spec_position())
    }

    /// The cursor never leaves the message.
    pub open spec fn wf(&self) -> bool {
        0 <= self.spec_position() <= self.input().len()
    }

    /// Starts decoding a message: nothing consumed, nothing rendered.
    pub fn new(msg: &[u8]) -> (d: MsgDecoder)
        ensures
            d.wf(),
            d.input() == msg@,
            d.spec_position() == 0,
            d.rendered() == Seq::<u8>::empty(),
            !d.spec_done(),
    {
        MsgDecoder { msg: slice_to_vec(msg), pos: 0, out: Vec::new(), done: false }
    }

    /// How many input bytes are not consumed yet.
    pub fn remaining_len(&self) -> (n: usize)
        requires
            self.wf(),
        ensures
            n == self.remaining_input().len(),
    {
        self.msg.len() - self.pos
    }

    /// The input bytes not consumed yet, for handing to the converter.
    pub fn remaining(&self) -> (s: &[u8])
        requires
            self.wf(),
        ensures
            s@ == self.remaining_input(),
    {
        slice_subrange(self.msg.as_slice(), self.pos, self.msg.len())
    }

    /// Whether decoding has finished.
    pub fn is_done(&self) -> (r: bool)
        ensures
            r == self.spec_done(),
    {
        self.done
    }

    /// Renders the whole message along the fast path: the source encoding
    /// already is the canonical target, so well-formed runs are copied
    /// verbatim and each malformed byte becomes its escape token.
    pub fn fast_path(&mut self)
        requires
            old(self).wf(),
            !old(self).spec_done(),
            old(self).spec_position() == 0,
        ensures
            final(self).wf(),
            final(self).spec_done(),
            final(self).input() == old(self).input(),
            final(self).rendered() == old(self).rendered() + fast_path_render(old(self).input()),
            final(self).remaining_input() == Seq::<u8>::empty(),
    {
        let n: usize = self.msg.len();
        let msg = slice_subrange(self.msg.as_slice(), 0, n);
        write_utf8_lossy(&mut self.out, msg);
        self.pos = n;
        self.done = true;
        proof {
            assert(msg@ =~= old(self).input());
            assert(self.remaining_input() =~= Seq::<u8>::empty());
        }
    }

    /// Renders the whole message as escape tokens: the degraded rendering
    /// used when no converter for the source encoding is available. An
    /// unrecognized encoding never turns into a failure.
    pub fn fallback(&mut self)
        requires
            old(self).wf(),
            !old(self).spec_done(),
            old(self).spec_position() == 0,
        ensures
            final(self).wf(),
            final(self).spec_done(),
            final(self).input() == old(self).input(),
            final(self).rendered() == old(self).rendered() + escape_all(old(self).input()),
            final(self).remaining_input() == Seq::<u8>::empty(),
    {
        let n: usize = self.msg.len();
        let msg = slice_subrange(self.msg.as_slice(), 0, n);
        write_fallback(&mut self.out, msg);
        self.pos = n;
        self.done = true;
        proof {
            assert(msg@ =~= old(self).input());
            assert(self.remaining_input() =~= Seq::<u8>::empty());
        }
    }

    /// Absorbs one converter invocation: the converter was fed the remaining
    /// input, consumed `consumed` bytes of it, and deposited `produced`
    /// canonical bytes, ending with `status`.
    ///
    /// Whatever the outcome, the produced text is appended immediately —
    /// partial output is never discarded. A full output buffer consumes
    /// nothing extra and the caller loops again. An undecodable byte is
    /// escaped and skipped, which guarantees forward progress. Only
    /// `Complete`, which requires the converter to have consumed everything
    /// that remained, finishes the decode; the call returns whether it did.
    pub fn step(&mut self, consumed: usize, produced: &[u8], status: FeedStatus) -> (done: bool)
        requires
            old(self).wf(),
            !old(self).spec_done(),
            consumed <= old(self).remaining_input().len(),
            status == FeedStatus::Complete ==> consumed == old(self).remaining_input().len(),
            status == FeedStatus::InvalidByte ==> consumed < old(self).remaining_input().len(),
        ensures
            final(self).wf(),
            final(self).input() == old(self).input(),
            final(self).spec_position() == next_pos(
                old(self).spec_position(),
                (FeedEvent { consumed: consumed as nat, produced: produced@, status }),
            ),
            final(self).rendered() == old(self).rendered() + step_rendering(
                old(self).input(),
                old(self).spec_position(),
                (FeedEvent { consumed: consumed as nat, produced: produced@, status }),
            ),
            done == (status == FeedStatus::Complete),
            final(self).spec_done() == done,
            done ==> final(self).remaining_input() == Seq::<u8>::empty(),
    {
        let _msg_len: usize = self.msg.len();
        push_all(&mut self.out, produced);
        self.pos = self.pos + consumed;
        match status {
            FeedStatus::Complete => {
                self.done = true;
                proof {
                    assert(self.rendered() =~= old(self).rendered() + produced@);
                    assert(self.remaining_input() =~= Seq::<u8>::empty());
                }
                true
            },
            FeedStatus::BufferFull => {
                proof {
                    assert(self.rendered() =~= old(self).rendered() + produced@);
                }
                false
            },
            FeedStatus::InvalidByte => {
                let b = self.msg[self.pos];
                write_byte(&mut self.out, b);
                self.pos = self.pos + 1;
                proof {
                    assert(self.rendered() =~= old(self).rendered() + produced@ + escape_seq(
                        old(self).input()[old(self).spec_position() + consumed],
                    ));
                }
                false
            },
        }
    }

    /// Hands out the rendered canonical text of a finished decode.
    pub fn finish(self) -> (r: Vec<u8>)
        requires
            self.spec_done(),
        ensures
            r@ == self.rendered(),
    {
        self.out
    }
}

/// One converter outcome, as [`MsgDecoder::step`] absorbs it: how many of
/// the remaining input bytes the converter consumed, the canonical text it
/// deposited, and how the invocation ended.
pub struct FeedEvent {
    pub consumed: nat,
    pub produced: Seq<u8>,
    pub status: FeedStatus,
}

/// The decoder position after one absorbed outcome: the consumed bytes,
/// plus the one undecodable byte that is escaped and skipped.
pub open spec fn next_pos(pos: int, e: FeedEvent) -> int {
    pos + e.consumed + if e.status == FeedStatus::InvalidByte {
        1int
    } else {
        0int
    }
}

/// The text one absorbed outcome appends to the rendering: the produced
/// text exactly, and the escape token of the undecodable byte if there was
/// one.
pub open spec fn step_rendering(input: Seq<u8>, pos: int, e: FeedEvent) -> Seq<u8> {
    e.produced + if e.status == FeedStatus::InvalidByte {
        escape_seq(input[pos + e.consumed])
    } else {
        Seq::<u8>::empty()
    }
}

/// The text a whole transcript of converter outcomes appends to the
/// rendering, outcome after outcome.
pub open spec fn replay_rendering(input: Seq<u8>, pos: int, events: Seq<FeedEvent>) -> Seq<u8>
    decreases events.len(),
{
    if events.len() == 0 {
        Seq::empty()
    } else {
        step_rendering(input, pos, events[0]) + replay_rendering(
            input,
            next_pos(pos, events[0]),
            events.skip(1),
        )
    }
}

/// The decoder position after a whole transcript of converter outcomes.
pub open spec fn replay_pos(pos: int, events: Seq<FeedEvent>) -> int
    decreases events.len(),
{
    if events.len() == 0 {
        pos
    } else {
        replay_pos(next_pos(pos, events[0]), events.skip(1))
    }
}

/// The canonical text the converter deposited over a whole transcript.
pub open spec fn produced_concat(events: Seq<FeedEvent>) -> Seq<u8>
    decreases events.len(),
{
    if events.len() == 0 {
        Seq::empty()
    } else {
        events[0].produced + produced_concat(events.skip(1))
    }
}

/// How many outcomes of a transcript were undecodable bytes.
pub open spec fn invalid_event_count(events: Seq<FeedEvent>) -> nat
    decreases events.len(),
{
    if events.len() == 0 {
        0
    } else if events[0].status == FeedStatus::InvalidByte {
        1 + invalid_event_count(events.skip(1))
    } else {
        invalid_event_count(events.skip(1))
    }
}

/// Whether a transcript is one that a decode of `input`, standing at `pos`,
/// can absorb: no outcome consumes more than remains, an undecodable byte
/// leaves a byte to skip, and completion consumes everything that remained
/// and ends the transcript. These are exactly the demands
/// [`MsgDecoder::step`] makes on its caller.
pub open spec fn feed_ok(input: Seq<u8>, pos: int, events: Seq<FeedEvent>) -> bool
    decreases events.len(),
{
    events.len() == 0 || {
        let e = events[0];
        &&& pos + e.consumed <= input.len()
        &&& (e.status == FeedStatus::Complete ==> pos + e.consumed == input.len() && events.len()
            == 1)
        &&& (e.status == FeedStatus::InvalidByte ==> pos + e.consumed < input.len())
        &&& feed_ok(input, next_pos(pos, e), events.skip(1))
    }
}

/// Law (conversion path): a decode in which the converter never reports an
/// undecodable byte — an input entirely valid in the source encoding —
/// renders exactly the concatenation of the produced chunks: no escape
/// token enters the rendering, and in particular a converter stopped by a
/// full working buffer, however often, changes nothing of what is rendered.
pub proof fn lemma_clean_conversion_renders_produced(
    input: Seq<u8>,
    pos: int,
    events: Seq<FeedEvent>,
)
    requires
        forall|i: int| 0 <= i < events.len() ==> (#[trigger] events[i].status)
            != FeedStatus::InvalidByte,
    ensures
        replay_rendering(input, pos, events) == produced_concat(events),
    decreases events.len(),
{
    if events.len() > 0 {
        let e = events[0];
        assert forall|i: int| 0 <= i < events.skip(1).len() implies (#[trigger] events.skip(
            1,
        )[i].status) != FeedStatus::InvalidByte by {
            assert(events.skip(1)[i] == events[i + 1]);
        }
        lemma_clean_conversion_renders_produced(input, next_pos(pos, e), events.skip(1));
        assert(step_rendering(input, pos, e) =~= e.produced);
    }
}

/// Law (conversion path): the rendering a transcript appends holds exactly
/// the converter's own text plus one 4-character escape token per
/// undecodable byte, so its length exceeds the produced text's by four
/// characters per such byte.
pub proof fn lemma_conversion_token_count(input: Seq<u8>, pos: int, events: Seq<FeedEvent>)
    ensures
        replay_rendering(input, pos, events).len() == produced_concat(events).len() + 4
            * invalid_event_count(events),
    decreases events.len(),
{
    if events.len() > 0 {
        lemma_conversion_token_count(input, next_pos(pos, events[0]), events.skip(1));
    }
}

/// Law (conversion path): a transcript the decoder can absorb that ends in
/// completion consumes the input exactly to its end — no byte is skipped
/// silently and none is read twice.
pub proof fn lemma_complete_consumes_all(input: Seq<u8>, pos: int, events: Seq<FeedEvent>)
    requires
        feed_ok(input, pos, events),
        events.len() > 0,
        events.last().status == FeedStatus::Complete,
    ensures
        replay_pos(pos, events) == input.len(),
    decreases events.len(),
{
    let e = events[0];
    if events.len() == 1 {
        assert(e == events.last());
        assert(events.skip(1).len() == 0);
        assert(replay_pos(pos, events) == replay_pos(next_pos(pos, e), events.skip(1)));
        assert(replay_pos(next_pos(pos, e), events.skip(1)) == next_pos(pos, e));
    } else {
        assert(events.skip(1).last() == events.last());
        lemma_complete_consumes_all(input, next_pos(pos, e), events.skip(1));
    }
}

/// How a message must be decoded, decided from its codeset name.
pub enum MsgFmt {
    /// The codeset already was the canonical target: the rendering is done.
    Done(Vec<u8>),
    /// The codeset differs from the canonical target: the caller must open
    /// a converter for it and drive [`MsgDecoder::step`], or, when no
    /// converter is available, fall back to [`MsgDecoder::fallback`].
    NeedsConverter(MsgDecoder),
}

/// Begins rendering a localized message: a message rendered under the
/// canonical codeset is decoded on the spot along the fast path; any other
/// codeset hands back a fresh decoder for the conversion path.
pub fn localized_msg_fmt(msg: &[u8], codeset: &[u8]) -> (r: MsgFmt)
    ensures
        match r {
            MsgFmt::Done(v) => codeset@ == canonical_codeset() && v@ == fast_path_render(msg@),
            MsgFmt::NeedsConverter(d) => codeset@ != canonical_codeset() && d.wf() && d.input()
                == msg@ && d.spec_position() == 0 && d.rendered() == Seq::<u8>::empty()
                && !d.spec_done(),
        },
{
    let mut d = MsgDecoder::new(msg);
    if is_canonical_codeset(codeset) {
        d.fast_path();
        proof {
            assert(d.rendered() =~= fast_path_render(msg@));
        }
        MsgFmt::Done(d.finish())
    } else {
        MsgFmt::NeedsConverter(d)
    }
}

/// Appends all bytes of a slice to the rendered text.
fn push_all(out: &mut Vec<u8>, s: &[u8])
    ensures
        final(out)@ == old(out)@ + s@,
{
    let mut i: usize = 0;
    while i < s.len()
        invariant
            i <= s@.len(),
            out@ == old(out)@ + s@.take(i as int),
        decreases s@.len() - i,
    {
        out.push(s[i]);
        proof {
            assert(s@.take(i as int + 1) =~= s@.take(i as int).push(s@[i as int]));
            assert(old(out)@ + s@.take(i as int + 1) =~= (old(out)@ + s@.take(i as int)).push(
                s@[i as int],
            ));
        }
        i = i + 1;
    }
    proof {
        assert(s@.take(s@.len() as int) =~= s@);
    }
}

} // verus!

