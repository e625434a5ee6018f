//! The incremental VE.Direct block decoder.
//!
//! A block on the wire is `CRLF label TAB value CRLF label TAB value ...
//! CRLF Checksum TAB b`, where the CRLF closing one line is the same CRLF
//! that opens the next, and the byte sum from a block's opening CRLF through
//! its checksum byte must be 0 modulo 256.
//!
//! The decoder consumes its input one byte at a time, so the frames it emits
//! depend only on the byte sequence fed to it, never on how that sequence
//! was chunked across reads.  Its state machine follows the block grammar:
//! `Unsynchronized` hunts for a CRLF; the CRLF found doubles as the next
//! block's opening delimiter, so the machine then collects a label up to the
//! TAB separator and a value up to the line-ending CRLF, dispatches the line
//! through the field table, and loops.  The line carrying the terminal
//! `Checksum` label instead decides the block: a zero running sum emits the
//! accumulated frame, anything else discards it, and either way the machine
//! is already at the start of the next block.

use vstd::prelude::*;

use crate::fields::{apply_field, label_checksum, spec_apply_field};
use crate::frame::{FrameView, MpptFrame};
use crate::text::check_utf8;

verus! {

/// Where in the block grammar the decoder stands.
///
/// `Unsynchronized` and `UnsynchronizedCr` are the hunt for a CRLF
/// synchronization point (`UnsynchronizedCr` has just seen the CR).  `Label`
/// collects label bytes up to the TAB separator.  `Value` collects value
/// bytes; `ValueCr` has seen a CR that ends the value if an LF follows, and
/// belongs to the value otherwise.
#[derive(Clone, Copy, Debug, PartialEq, Eq, Structural)]
pub enum State {
    Unsynchronized,
    UnsynchronizedCr,
    Label,
    Value,
    ValueCr,
}

/// Mathematical image of the decoder between two bytes.
pub ghost struct DecoderView {
    pub state: State,
    /// Running byte sum (mod 256) of the current block so far.
    pub checksum: u8,
    /// Label bytes of the line being read.
    pub label: Seq<u8>,
    /// Value bytes of the line being read.
    pub value: Seq<u8>,
    /// The frame accumulated from the block's dispatched lines.
    pub frame: FrameView,
}

/// Byte addition modulo 256.
pub open spec fn sum8(c: u8, b: u8) -> u8 {
    if c + b > 255 {
        (c + b - 256) as u8
    } else {
        (c + b) as u8
    }
}

/// `init` plus every byte of `s`, modulo 256.
pub open spec fn sum8_seq(init: u8, s: Seq<u8>) -> u8
    decreases s.len(),
{
    if s.len() == 0 {
        init
    } else {
        sum8_seq(sum8(init, s[0]), s.skip(1))
    }
}

/// The carriage return byte of the CRLF delimiter.
pub open spec fn cr() -> u8 {
    13
}

/// The line feed byte of the CRLF delimiter.
pub open spec fn lf() -> u8 {
    10
}

/// The TAB separator between a label and its value.
pub open spec fn tab() -> u8 {
    9
}

impl DecoderView {
    /// The decoder before any synchronization point has been seen: the state
    /// a decoder is built in, and the state it falls back to on desync.
    pub open spec fn initial() -> DecoderView {
        DecoderView {
            state: State::Unsynchronized,
            checksum: 0,
            label: Seq::empty(),
            value: Seq::empty(),
            frame: FrameView::empty(),
        }
    }

    /// The decoder just after a block-opening CRLF: about to read the first
    /// label, with the delimiter already in the running sum and an empty
    /// frame.  Completing any block — emitted or discarded — returns here.
    pub open spec fn block_start() -> DecoderView {
        DecoderView {
            state: State::Label,
            checksum: sum8(sum8(0, cr()), lf()),
            label: Seq::empty(),
            value: Seq::empty(),
            frame: FrameView::empty(),
        }
    }

    /// Structural soundness of a decoder state: the accumulated frame always
    /// satisfies the frame-level invariant and never carries a timestamp
    /// before emission.
    pub open spec fn wf(self) -> bool {
        &&& self.frame.wf()
        &&& self.frame.timestamp is None
    }
}

/// What one line does when it completes (its closing CR LF has just been
/// consumed; the CRLF itself is not yet in the running sum).
///
/// An ordinary line is dispatched through the field table and the machine
/// moves to the next label with the shared CRLF counted into the sum.  The
/// terminal `Checksum` line instead settles the block: sum zero emits the
/// accumulated frame stamped with `now`, any other sum discards it; both
/// ways the machine stands at the next block's start.
pub open spec fn spec_finish_line(d: DecoderView, now: u64) -> (DecoderView, Option<FrameView>) {
    if d.label == label_checksum() {
        if d.checksum == 0 {
            (DecoderView::block_start(), Some(FrameView { timestamp: Some(now), ..d.frame }))
        } else {
            (DecoderView::block_start(), None)
        }
    } else {
        (
            DecoderView {
                state: State::Label,
                checksum: sum8(sum8(d.checksum, cr()), lf()),
                label: Seq::empty(),
                value: Seq::empty(),
                frame: spec_apply_field(d.frame, d.label, d.value),
            },
            None,
        )
    }
}

/// The decoder's transition on one input byte: the next decoder state and
/// the frame emitted, if this byte completed a valid block.
pub open spec fn spec_push(d: DecoderView, b: u8, now: u64) -> (DecoderView, Option<FrameView>) {
    match d.state {
        State::Unsynchronized => {
            if b == cr() {
                (DecoderView { state: State::UnsynchronizedCr, ..d }, None)
            } else {
                (d, None)
            }
        },
        State::UnsynchronizedCr => {
            if b == lf() {
                (DecoderView::block_start(), None)
            } else if b == cr() {
                (d, None)
            } else {
                (DecoderView { state: State::Unsynchronized, ..d }, None)
            }
        },
        State::Label => {
            if b == tab() {
                if vstd::utf8::valid_utf8(d.label) {
                    (
                        DecoderView {
                            state: State::Value,
                            checksum: sum8(d.checksum, tab()),
                            value: Seq::empty(),
                            ..d
                        },
                        None,
                    )
                } else {
                    // a label that is not UTF-8 text desynchronizes
                    (DecoderView::initial(), None)
                }
            } else {
                (DecoderView { label: d.label.push(b), checksum: sum8(d.checksum, b), ..d }, None)
            }
        },
        State::Value => {
            if b == cr() {
                (DecoderView { state: State::ValueCr, ..d }, None)
            } else {
                (DecoderView { value: d.value.push(b), checksum: sum8(d.checksum, b), ..d }, None)
            }
        },
        State::ValueCr => {
            if b == lf() {
                spec_finish_line(d, now)
            } else if b == cr() {
                // the pending CR belonged to the value; this one may yet end it
                (
                    DecoderView { value: d.value.push(cr()), checksum: sum8(d.checksum, cr()), ..d },
                    None,
                )
            } else {
                (
                    DecoderView {
                        state: State::Value,
                        value: d.value.push(cr()).push(b),
                        checksum: sum8(sum8(d.checksum, cr()), b),
                        ..d
                    },
                    None,
                )
            }
        },
    }
}

/// The decoder run over a whole byte sequence: the final state and every
/// frame emitted along the way, in order.
pub open spec fn spec_run(d: DecoderView, s: Seq<u8>, now: u64) -> (DecoderView, Seq<FrameView>)
    decreases s.len(),
{
    if s.len() == 0 {
        (d, Seq::empty())
    } else {
        let (d1, out) = spec_push(d, s[0], now);
        let (d2, fs) = spec_run(d1, s.skip(1), now);
        (
            d2,
            match out {
                Some(f) => seq![f] + fs,
                None => fs,
            },
        )
    }
}

/// The decoder run up to its first emission: the state reached, the frame
/// emitted if any, and how many bytes were consumed.
pub open spec fn spec_decode(d: DecoderView, s: Seq<u8>, now: u64) -> (
    DecoderView,
    Option<FrameView>,
    int,
)
    decreases s.len(),
{
    if s.len() == 0 {
        (d, None, 0)
    } else {
        let (d1, out) = spec_push(d, s[0], now);
        if out is Some {
            (d1, out, 1)
        } else {
            let (d2, o, n) = spec_decode(d1, s.skip(1), now);
            (d2, o, n + 1)
        }
    }
}

/// The view of an emitted frame, `None` carried through.
pub open spec fn view_opt(r: Option<MpptFrame>) -> Option<FrameView> {
    match r {
        Some(f) => Some(f@),
        None => None,
    }
}

/// The views of a vector of frames, in order.
pub open spec fn views_of(s: Seq<MpptFrame>) -> Seq<FrameView> {
    s.map_values(|f: MpptFrame| f@)
}

/// The block state machine.  One instance absorbs an unbounded byte stream,
/// arbitrarily fragmented; all partial progress lives in this value.
pub struct VeDirectMpptDecoder {
    state: State,
    checksum: u8,
    label: Vec<u8>,
    value: Vec<u8>,
    frame: MpptFrame,
}

impl View for VeDirectMpptDecoder {
    type V = DecoderView;

    closed spec fn view(&self) -> DecoderView {
        DecoderView {
            state: self.state,
            checksum: self.checksum,
            label: self.label@,
            value: self.value@,
            frame: self.frame@,
        }
    }
}

impl Default for VeDirectMpptDecoder {
    /// A decoder awaiting its first synchronization point.
    fn default() -> (d: VeDirectMpptDecoder)
        ensures
            d@ == DecoderView::initial(),
    {
        VeDirectMpptDecoder {
            state: State::Unsynchronized,
            checksum: 0,
            label: Vec::new(),
            value: Vec::new(),
            frame: MpptFrame::default(),
        }
    }
}

impl VeDirectMpptDecoder {
    /// Feeds one byte to the state machine; returns the emitted frame when
    /// this byte completes a valid block.
    pub fn push_byte(&mut self, b: u8, now: u64) -> (r: Option<MpptFrame>)
        ensures
            ({
                let (d2, out) = spec_push(old(self)@, b, now);
                &&& final(self)@ == d2
                &&& view_opt(r) == out
            }),
    {
        match self.state {
            State::Unsynchronized => {
                if b == 13 {
                    self.state = State::UnsynchronizedCr;
                }
                None
            },
            State::UnsynchronizedCr => {
                if b == 10 {
                    self.state = State::Label;
                    self.checksum = 23;
                    self.label = Vec::new();
                    self.value = Vec::new();
                    self.frame = MpptFrame::default();
                } else if b != 13 {
                    self.state = State::Unsynchronized;
                }
                None
            },
            State::Label => {
                if b == 9 {
                    if check_utf8(self.label.as_slice()) {
                        self.state = State::Value;
                        self.checksum = self.checksum.wrapping_add(9);
                        self.value = Vec::new();
                    } else {
                        self.state = State::Unsynchronized;
                        self.checksum = 0;
                        self.label = Vec::new();
                        self.value = Vec::new();
                        self.frame = MpptFrame::default();
                    }
                } else {
                    self.label.push(b);
                    self.checksum = self.checksum.wrapping_add(b);
                }
                None
            },
            State::Value => {
                if b == 13 {
                    self.state = State::ValueCr;
                } else {
                    self.value.push(b);
                    self.checksum = self.checksum.wrapping_add(b);
                }
                None
            },
            State::ValueCr => {
                if b == 10 {
                    self.finish_line(now)
                } else if b == 13 {
                    self.value.push(13);
                    self.checksum = self.checksum.wrapping_add(13);
                    None
                } else {
                    self.state = State::Value;
                    self.value.push(13);
                    self.value.push(b);
                    self.checksum = self.checksum.wrapping_add(13).wrapping_add(b);
                    None
                }
            },
        }
    }

    /// Settles a completed line: dispatch for an ordinary line, block
    /// decision for the terminal checksum line.
    fn finish_line(&mut self, now: u64) -> (r: Option<MpptFrame>)
        ensures
            ({
                let (d2, out) = spec_finish_line(old(self)@, now);
                &&& final(self)@ == d2
                &&& view_opt(r) == out
            }),
    {
        let checksum_label: &[u8] = &[67u8, 104, 101, 99, 107, 115, 117, 109];
        proof {
            assert(checksum_label@ =~= label_checksum());
        }
        if crate::text::bytes_eq(self.label.as_slice(), checksum_label) {
            let valid = self.checksum == 0;
            let mut emitted = MpptFrame::default();
            core::mem::swap(&mut emitted, &mut self.frame);
            self.state = State::Label;
            self.checksum = 23;
            self.label = Vec::new();
            self.value = Vec::new();
            if valid {
                emitted.timestamp = Some(now);
                Some(emitted)
            } else {
                None
            }
        } else {
            apply_field(&mut self.frame, self.label.as_slice(), self.value.as_slice());
            self.state = State::Label;
            self.checksum = self.checksum.wrapping_add(13).wrapping_add(10);
            self.label = Vec::new();
            self.value = Vec::new();
            None
        }
    }

    /// Feeds a whole chunk and collects every frame it completes.
    ///
    /// Because the machine advances byte by byte, running chunks one after
    /// another emits exactly what running their concatenation would.
    pub fn run_bytes(&mut self, bytes: &[u8], now: u64) -> (frames: Vec<MpptFrame>)
        ensures
            ({
                let (d2, fs) = spec_run(old(self)@, bytes@, now);
                &&& final(self)@ == d2
                &&& views_of(frames@) == fs
            }),
    {
        let mut frames: Vec<MpptFrame> = Vec::new();
        let mut i: usize = 0;
        proof {
            assert(bytes@.take(0) =~= Seq::<u8>::empty());
            assert(views_of(frames@) =~= Seq::<FrameView>::empty());
        }
        while i < bytes.len()
            invariant
                i <= bytes@.len(),
                spec_run(old(self)@, bytes@.take(i as int), now) == (self@, views_of(frames@)),
            decreases bytes@.len() - i,
        {
            let ghost pre = self@;
            let ghost pre_frames = frames@;
            let b = bytes[i];
            let r = self.push_byte(b, now);
            match r {
                Some(f) => frames.push(f),
                None => (),
            }
            proof {
                let sb = seq![b];
                assert(bytes@.take(i + 1) =~= bytes@.take(i as int) + sb);
                lemma_run_append(old(self)@, bytes@.take(i as int), sb, now);
                let (d1, out) = spec_push(pre, b, now);
                assert(sb[0] == b);
                assert(sb.skip(1) =~= Seq::<u8>::empty());
                assert(spec_run(d1, sb.skip(1), now) == (d1, Seq::<FrameView>::empty()));
                match out {
                    Some(fv) => {
                        assert(seq![fv] + Seq::<FrameView>::empty() =~= seq![fv]);
                        assert(spec_run(pre, sb, now) == (d1, seq![fv]));
                        assert(views_of(frames@) =~= views_of(pre_frames) + seq![fv]);
                    },
                    None => {
                        assert(spec_run(pre, sb, now) == (d1, Seq::<FrameView>::empty()));
                        assert(views_of(frames@) =~= views_of(pre_frames));
                        assert(views_of(pre_frames) + Seq::<FrameView>::empty()
                            =~= views_of(frames@));
                    },
                }
                assert(spec_run(old(self)@, bytes@.take(i + 1), now) == (
                    self@,
                    views_of(frames@),
                ));
            }
            i = i + 1;
        }
        proof {
            assert(bytes@.take(i as int) =~= bytes@);
        }
        frames
    }

    /// Processes as much of `src` as needed, removing the consumed bytes:
    /// returns the first emitted frame, or `None` when the whole buffer was
    /// absorbed without completing a valid block and more input is needed.
    #[verifier::loop_isolation(false)]
    pub fn decode(&mut self, src: &mut Vec<u8>, now: u64) -> (r: Option<MpptFrame>)
        ensures
            final(self)@ == spec_decode(old(self)@, old(src)@, now).0,
            view_opt(r) == spec_decode(old(self)@, old(src)@, now).1,
            final(src)@ == old(src)@.skip(spec_decode(old(self)@, old(src)@, now).2),
    {
        let ghost full = old(src)@;
        let ghost d0 = old(self)@;
        let mut i: usize = 0;
        proof {
            assert(full.skip(0) =~= full);
        }
        while i < src.len()
            invariant
                i <= full.len(),
                src@ == full,
                ({
                    let (d2, o, n) = spec_decode(d0, full, now);
                    let (d2b, ob, nb) = spec_decode(self@, full.skip(i as int), now);
                    d2 == d2b && o == ob && n == nb + i
                }),
            decreases full.len() - i,
        {
            let ghost pre = self@;
            let b = src[i];
            let r = self.push_byte(b, now);
            proof {
                assert(full.skip(i as int)[0] == b);
                assert(full.skip(i as int).skip(1) =~= full.skip(i + 1));
            }
            match r {
                Some(f) => {
                    proof {
                        let (d1, out) = spec_push(pre, b, now);
                        assert(full.skip(i as int).len() > 0);
                        assert(spec_decode(pre, full.skip(i as int), now) == (d1, out, 1int));
                        assert(out == Some(f@));
                    }
                    // the byte at `i` completed a block: drop the consumed
                    // prefix and hand the frame out
                    let rest = split_from(src, i + 1);
                    *src = rest;
                    proof {
                        let (d2, o, n) = spec_decode(d0, full, now);
                        assert(d2 == self@);
                        assert(o == Some(f@));
                        assert(n == i + 1);
                        assert(src@ == full.skip(n));
                    }
                    return Some(f);
                },
                None => {
                    proof {
                        let (d1, out) = spec_push(pre, b, now);
                        assert(out is None);
                        assert(full.skip(i as int).len() > 0);
                        let (d2b, ob, nb) = spec_decode(d1, full.skip(i + 1), now);
                        assert(spec_decode(pre, full.skip(i as int), now) == (d2b, ob, nb + 1));
                    }
                },
            }
            i = i + 1;
        }
        proof {
            assert(full.skip(i as int) =~= Seq::<u8>::empty());
        }
        src.clear();
        proof {
            assert(src@ =~= full.skip(full.len() as int));
        }
        None
    }
}

/// The tail of `v` from position `from` on, as a fresh vector.
fn split_from(v: &Vec<u8>, from: usize) -> (r: Vec<u8>)
    requires
        from <= v@.len(),
    ensures
        r@ == v@.skip(from as int),
{
    let mut r: Vec<u8> = Vec::new();
    let mut i: usize = from;
    while i < v.len()
        invariant
            from <= i <= v@.len(),
            r@ == v@.subrange(from as int, i as int),
        decreases v@.len() - i,
    {
        r.push(v[i]);
        i = i + 1;
        assert(r@ == v@.subrange(from as int, i as int));
    }
    assert(v@.subrange(from as int, v@.len() as int) =~= v@.skip(from as int));
    r
}

/// Running the decoder over a concatenation is running it over the pieces in
/// turn: the final state is the same, and the emitted frames are those of
/// the first piece followed by those of the second.  Chunk boundaries can
/// therefore never change what is emitted.
pub proof fn lemma_run_append(d: DecoderView, s1: Seq<u8>, s2: Seq<u8>, now: u64)
    ensures
        ({
            let (d1, f1) = spec_run(d, s1, now);
            let (d2, f2) = spec_run(d1, s2, now);
            spec_run(d, s1 + s2, now) == (d2, f1 + f2)
        }),
    decreases s1.len(),
{
    let (d1, f1) = spec_run(d, s1, now);
    let (d2, f2) = spec_run(d1, s2, now);
    if s1.len() == 0 {
        assert(s1 + s2 =~= s2);
        assert(f1 + f2 =~= f2);
    } else {
        let (da, out) = spec_push(d, s1[0], now);
        assert((s1 + s2)[0] == s1[0]);
        assert((s1 + s2).skip(1) =~= s1.skip(1) + s2);
        lemma_run_append(da, s1.skip(1), s2, now);
        let (db, fs) = spec_run(da, s1.skip(1), now);
        match out {
            Some(f) => {
                assert((seq![f] + fs) + f2 =~= seq![f] + (fs + f2));
            },
            None => (),
        }
    }
}

} // verus!
