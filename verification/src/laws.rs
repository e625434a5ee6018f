//! Block-level theorems about the decoder.
//!
//! These lemmas relate whole wire blocks to the machine in `decoder`: a
//! well-formed block whose checksum balances emits exactly one frame holding
//! its dispatched fields; a block whose checksum does not balance emits
//! nothing and leaves the decoder ready for the next block; a line with an
//! unrecognized label contributes nothing to the frame; and feeding chunks
//! one after another is the same as feeding their concatenation.

use vstd::prelude::*;

use crate::decoder::{
    cr, lemma_run_append, lf, spec_finish_line, spec_push, spec_run, sum8, sum8_seq, tab,
    DecoderView, State,
};
use crate::fields::{known_label, label_checksum, lemma_unknown_label_ignored, spec_apply_field};
use crate::frame::FrameView;
use vstd::utf8::valid_utf8;

verus! {

/// One `label TAB value` line of a block, as data.
pub ghost struct Line {
    pub label: Seq<u8>,
    pub value: Seq<u8>,
}

/// `s` has the bytes CR LF adjacent at position `i`.
pub open spec fn crlf_at(s: Seq<u8>, i: int) -> bool {
    s[i] == cr() && s[i + 1] == lf()
}

/// No CR LF pair occurs anywhere in `s`.
pub open spec fn no_crlf(s: Seq<u8>) -> bool {
    forall|i: int| 0 <= i && i + 1 < s.len() ==> !#[trigger] crlf_at(s, i)
}

/// `s` is free of the TAB separator.
pub open spec fn no_tab(s: Seq<u8>) -> bool {
    forall|i: int| 0 <= i < s.len() ==> #[trigger] s[i] != tab()
}

/// A line the block grammar can carry: the label runs up to the first TAB
/// and must be UTF-8 text other than the terminal checksum marker; the value
/// runs up to the line-ending CRLF, so it cannot contain that pair.
pub open spec fn wf_line(l: Line) -> bool {
    &&& no_tab(l.label)
    &&& valid_utf8(l.label)
    &&& l.label != label_checksum()
    &&& no_crlf(l.value)
}

pub open spec fn wf_lines(lines: Seq<Line>) -> bool {
    forall|i: int| 0 <= i < lines.len() ==> #[trigger] wf_line(lines[i])
}

/// The wire bytes of one line, with the CRLF that closes it (and opens the
/// line after it).
pub open spec fn line_bytes(l: Line) -> Seq<u8> {
    l.label + seq![tab()] + l.value + seq![cr(), lf()]
}

/// The wire bytes of a run of lines.
pub open spec fn lines_bytes(lines: Seq<Line>) -> Seq<u8>
    decreases lines.len(),
{
    if lines.len() == 0 {
        Seq::empty()
    } else {
        line_bytes(lines[0]) + lines_bytes(lines.skip(1))
    }
}

/// The terminal line of a block: the checksum marker and the balancing byte.
pub open spec fn checksum_line(ck: u8) -> Line {
    Line { label: label_checksum(), value: seq![ck] }
}

/// A whole block as fed to a decoder standing at `block_start`: its lines,
/// then the checksum line.  (The CRLF that opened the block is already
/// behind the decoder.)
pub open spec fn block_tail(lines: Seq<Line>, ck: u8) -> Seq<u8> {
    lines_bytes(lines) + line_bytes(checksum_line(ck))
}

/// The byte sum the block rule constrains: every byte from the block's
/// opening CRLF through the checksum byte itself, modulo 256.  A block is
/// accepted exactly when this sum is zero.
pub open spec fn block_sum(lines: Seq<Line>, ck: u8) -> u8 {
    sum8_seq(
        sum8(sum8(0, cr()), lf()),
        lines_bytes(lines) + label_checksum() + seq![tab(), ck],
    )
}

/// The frame that dispatching a run of lines builds on top of `f`.
pub open spec fn frame_fold(f: FrameView, lines: Seq<Line>) -> FrameView
    decreases lines.len(),
{
    if lines.len() == 0 {
        f
    } else {
        frame_fold(spec_apply_field(f, lines[0].label, lines[0].value), lines.skip(1))
    }
}

/// The frame a well-formed block encodes: its lines dispatched onto the
/// empty frame, stamped at emission time.
pub open spec fn block_frame(lines: Seq<Line>, now: u64) -> FrameView {
    FrameView { timestamp: Some(now), ..frame_fold(FrameView::empty(), lines) }
}

proof fn lemma_sum8_seq_append(c: u8, a: Seq<u8>, b: Seq<u8>)
    ensures
        sum8_seq(c, a + b) == sum8_seq(sum8_seq(c, a), b),
    decreases a.len(),
{
    if a.len() == 0 {
        assert(a + b =~= b);
    } else {
        assert((a + b)[0] == a[0]);
        assert((a + b).skip(1) =~= a.skip(1) + b);
        lemma_sum8_seq_append(sum8(c, a[0]), a.skip(1), b);
    }
}

proof fn lemma_sum8_seq_one(c: u8, x: u8)
    ensures
        sum8_seq(c, seq![x]) == sum8(c, x),
{
    assert(seq![x][0] == x);
    assert(seq![x].skip(1) =~= Seq::<u8>::empty());
    assert(sum8_seq(sum8(c, x), Seq::<u8>::empty()) == sum8(c, x));
}

/// One byte of input, as a run: the push step's state, and its emission as
/// a sequence.
proof fn lemma_run_one(d: DecoderView, b: u8, now: u64)
    ensures
        spec_run(d, seq![b], now) == (
            spec_push(d, b, now).0,
            match spec_push(d, b, now).1 {
                Some(f) => seq![f],
                None => Seq::<FrameView>::empty(),
            },
        ),
{
    let s = seq![b];
    assert(s[0] == b);
    assert(s.skip(1) =~= Seq::<u8>::empty());
    let (d1, out) = spec_push(d, b, now);
    assert(spec_run(d1, Seq::<u8>::empty(), now) == (d1, Seq::<FrameView>::empty()));
    match out {
        Some(f) => {
            assert(seq![f] + Seq::<FrameView>::empty() =~= seq![f]);
        },
        None => (),
    }
}

/// Every ASCII byte sequence is valid UTF-8.
proof fn lemma_ascii_valid_utf8(s: Seq<u8>)
    requires
        forall|i: int| 0 <= i < s.len() ==> #[trigger] s[i] < 0x80,
    ensures
        valid_utf8(s),
    decreases s.len(),
{
    if s.len() > 0 {
        let b = s[0];
        assert(b & 0x7f == b) by (bit_vector)
            requires
                b < 0x80,
        ;
        assert(vstd::utf8::valid_first_scalar(s));
        assert(vstd::utf8::length_of_first_scalar(s) == 1);
        assert(vstd::utf8::pop_first_scalar(s) =~= s.skip(1));
        lemma_ascii_valid_utf8(s.skip(1));
    }
}

/// The checksum marker is plain ASCII text.
proof fn lemma_checksum_label_utf8()
    ensures
        valid_utf8(label_checksum()),
        no_tab(label_checksum()),
{
    assert forall|i: int| 0 <= i < label_checksum().len() implies #[trigger] label_checksum()[i]
        < 0x80 by {
        if i == 0 {
        } else if i == 1 {
        } else if i == 2 {
        } else if i == 3 {
        } else if i == 4 {
        } else if i == 5 {
        } else if i == 6 {
        } else {
        }
    }
    lemma_ascii_valid_utf8(label_checksum());
    assert forall|i: int| 0 <= i < label_checksum().len() implies #[trigger] label_checksum()[i]
        != tab() by {}
}

/// Feeding label bytes (none of them a TAB) accumulates them into the
/// pending label and the running sum, and emits nothing.
proof fn lemma_feed_label(d: DecoderView, s: Seq<u8>, now: u64)
    requires
        d.state == State::Label,
        no_tab(s),
    ensures
        spec_run(d, s, now) == (
            DecoderView { label: d.label + s, checksum: sum8_seq(d.checksum, s), ..d },
            Seq::<FrameView>::empty(),
        ),
    decreases s.len(),
{
    if s.len() == 0 {
        assert(d.label + s =~= d.label);
        assert(DecoderView { label: d.label + s, checksum: sum8_seq(d.checksum, s), ..d } == d);
    } else {
        let b = s[0];
        assert(b != tab());
        let (d1, out) = spec_push(d, b, now);
        assert(d1 == DecoderView { label: d.label.push(b), checksum: sum8(d.checksum, b), ..d });
        assert(forall|i: int| 0 <= i < s.skip(1).len() ==> #[trigger] s.skip(1)[i] != tab());
        lemma_feed_label(d1, s.skip(1), now);
        assert(d1.label + s.skip(1) =~= d.label + s);
    }
}

/// Feeding value bytes free of any CR LF pair, starting in `Value` state:
/// all of them join the pending value and the running sum, except that a
/// trailing CR is held back as the possible start of the line terminator.
proof fn lemma_feed_value(d: DecoderView, s: Seq<u8>, now: u64)
    requires
        d.state == State::Value,
        no_crlf(s),
    ensures
        spec_run(d, s, now) == (
            if s.len() > 0 && s.last() == cr() {
                DecoderView {
                    state: State::ValueCr,
                    value: d.value + s.drop_last(),
                    checksum: sum8_seq(d.checksum, s.drop_last()),
                    ..d
                }
            } else {
                DecoderView {
                    state: State::Value,
                    value: d.value + s,
                    checksum: sum8_seq(d.checksum, s),
                    ..d
                }
            },
            Seq::<FrameView>::empty(),
        ),
    decreases s.len(),
{
    if s.len() == 0 {
        assert(d.value + s =~= d.value);
        assert(DecoderView {
            state: State::Value,
            value: d.value + s,
            checksum: sum8_seq(d.checksum, s),
            ..d
        } == d);
    } else {
        let b = s[0];
        let (d1, out) = spec_push(d, b, now);
        assert(forall|i: int|
            0 <= i && i + 1 < s.skip(1).len() ==> !#[trigger] crlf_at(s.skip(1), i)) by {
            assert forall|i: int|
                0 <= i && i + 1 < s.skip(1).len() implies !#[trigger] crlf_at(s.skip(1), i) by {
                assert(!crlf_at(s, i + 1));
            }
        }
        if b == cr() {
            // the CR is held pending; hand the rest to the ValueCr case
            assert(d1 == DecoderView { state: State::ValueCr, ..d });
            if s.len() == 1 {
                assert(s.skip(1) =~= Seq::<u8>::empty());
                assert(s.last() == cr());
                assert(s.drop_last() =~= Seq::<u8>::empty());
                assert(d.value + s.drop_last() =~= d.value);
                assert(spec_run(d1, s.skip(1), now) == (d1, Seq::<FrameView>::empty()));
            } else {
                assert(s.skip(1)[0] == s[1]);
                assert(!crlf_at(s, 0));
                assert(s[1] != lf());
                lemma_feed_value_cr(d1, s.skip(1), now);
                // stitch the held CR back on
                assert(seq![cr()] + s.skip(1) =~= s);
            }
        } else {
            assert(d1 == DecoderView {
                value: d.value.push(b),
                checksum: sum8(d.checksum, b),
                ..d
            });
            lemma_feed_value(d1, s.skip(1), now);
            if s.skip(1).len() > 0 && s.skip(1).last() == cr() {
                assert(s.last() == cr());
                assert(d1.value + s.skip(1).drop_last() =~= d.value + s.drop_last());
                assert(s.skip(1).drop_last() =~= s.drop_last().skip(1));
                assert(s.drop_last()[0] == b);
            } else {
                assert(!(s.len() > 0 && s.last() == cr()) || s.len() == 1);
                if s.len() == 1 {
                    assert(s.last() == b);
                    assert(b != cr());
                }
                assert(d1.value + s.skip(1) =~= d.value + s);
            }
        }
    }
}

/// The `ValueCr` companion of `lemma_feed_value`: a CR is pending, and `s`
/// continues the value without closing the line (its first byte is not LF).
proof fn lemma_feed_value_cr(d: DecoderView, s: Seq<u8>, now: u64)
    requires
        d.state == State::ValueCr,
        no_crlf(s),
        s.len() > 0 ==> s[0] != lf(),
    ensures
        spec_run(d, s, now) == (
            {
                let full = seq![cr()] + s;
                if full.last() == cr() {
                    DecoderView {
                        state: State::ValueCr,
                        value: d.value + full.drop_last(),
                        checksum: sum8_seq(d.checksum, full.drop_last()),
                        ..d
                    }
                } else {
                    DecoderView {
                        state: State::Value,
                        value: d.value + full,
                        checksum: sum8_seq(d.checksum, full),
                        ..d
                    }
                }
            },
            Seq::<FrameView>::empty(),
        ),
    decreases s.len(),
{
    let full = seq![cr()] + s;
    if s.len() == 0 {
        assert(full.last() == cr());
        assert(full.drop_last() =~= Seq::<u8>::empty());
        assert(d.value + full.drop_last() =~= d.value);
        assert(DecoderView {
            state: State::ValueCr,
            value: d.value + full.drop_last(),
            checksum: sum8_seq(d.checksum, full.drop_last()),
            ..d
        } == d);
    } else {
        let b = s[0];
        assert(b != lf());
        let (d1, out) = spec_push(d, b, now);
        assert(forall|i: int|
            0 <= i && i + 1 < s.skip(1).len() ==> !#[trigger] crlf_at(s.skip(1), i)) by {
            assert forall|i: int|
                0 <= i && i + 1 < s.skip(1).len() implies !#[trigger] crlf_at(s.skip(1), i) by {
                assert(!crlf_at(s, i + 1));
            }
        }
        if b == cr() {
            assert(d1 == DecoderView {
                value: d.value.push(cr()),
                checksum: sum8(d.checksum, cr()),
                ..d
            });
            if s.len() > 1 {
                assert(!crlf_at(s, 0));
                assert(s[1] != lf());
            }
            lemma_feed_value_cr(d1, s.skip(1), now);
            let full1 = seq![cr()] + s.skip(1);
            if s.len() > 1 {
                assert(full.last() == s.last());
                assert(full1.last() == s.last()) by {
                    assert(full1.last() == s.skip(1).last());
                    assert(s.skip(1).last() == s.last());
                }
            } else {
                assert(s.skip(1) =~= Seq::<u8>::empty());
                assert(full1 =~= seq![cr()]);
                assert(full1.last() == cr());
                assert(full.last() == cr());
            }
            if full1.last() == cr() {
                assert(full.last() == cr());
                assert(d1.value + full1.drop_last() =~= d.value + full.drop_last());
                assert(full.drop_last().len() > 0);
                assert(full.drop_last()[0] == cr());
                assert(full.drop_last().skip(1) =~= full1.drop_last());
                assert(sum8_seq(d.checksum, full.drop_last()) == sum8_seq(
                    sum8(d.checksum, cr()),
                    full.drop_last().skip(1),
                ));
            } else {
                assert(full.last() != cr());
                assert(d1.value + full1 =~= d.value + full);
                assert(full[0] == cr());
                assert(full.skip(1) =~= full1);
                assert(sum8_seq(d.checksum, full) == sum8_seq(
                    sum8(d.checksum, cr()),
                    full.skip(1),
                ));
            }
        } else {
            assert(d1 == DecoderView {
                state: State::Value,
                value: d.value.push(cr()).push(b),
                checksum: sum8(sum8(d.checksum, cr()), b),
                ..d
            });
            lemma_feed_value(d1, s.skip(1), now);
            assert(full[0] == cr());
            assert(full.skip(1) =~= s);
            if s.skip(1).len() > 0 && s.skip(1).last() == cr() {
                assert(s.last() == s.skip(1).last());
                assert(full.last() == cr());
                assert(d1.value + s.skip(1).drop_last() =~= d.value + full.drop_last());
                assert(full.drop_last().len() >= 2);
                assert(full.drop_last()[0] == cr());
                assert(full.drop_last().skip(1)[0] == b);
                assert(full.drop_last().skip(1).skip(1) =~= s.skip(1).drop_last());
                assert(sum8_seq(d.checksum, full.drop_last()) == sum8_seq(
                    sum8(d.checksum, cr()),
                    full.drop_last().skip(1),
                ));
                assert(sum8_seq(sum8(d.checksum, cr()), full.drop_last().skip(1)) == sum8_seq(
                    sum8(sum8(d.checksum, cr()), b),
                    full.drop_last().skip(1).skip(1),
                ));
            } else {
                if s.len() > 1 {
                    assert(s.last() == s.skip(1).last());
                }
                assert(full.last() != cr());
                assert(d1.value + s.skip(1) =~= d.value + full);
                assert(sum8_seq(d.checksum, full) == sum8_seq(sum8(d.checksum, cr()), s));
                assert(s[0] == b);
                assert(sum8_seq(sum8(d.checksum, cr()), s) == sum8_seq(
                    sum8(sum8(d.checksum, cr()), b),
                    s.skip(1),
                ));
            }
        }
    }
}

/// Feeding one well-formed line from the label position dispatches it
/// through the field table and leaves the machine at the next label
/// position, the line's bytes all counted into the running sum.
proof fn lemma_feed_line(d: DecoderView, l: Line, now: u64)
    requires
        d.state == State::Label,
        d.label == Seq::<u8>::empty(),
        wf_line(l),
    ensures
        spec_run(d, line_bytes(l), now) == (
            DecoderView {
                state: State::Label,
                checksum: sum8_seq(d.checksum, line_bytes(l)),
                label: Seq::empty(),
                value: Seq::empty(),
                frame: spec_apply_field(d.frame, l.label, l.value),
            },
            Seq::<FrameView>::empty(),
        ),
{
    let bytes = line_bytes(l);
    let part1 = l.label;
    let part2 = seq![tab()];
    let part3 = l.value;
    let part4 = seq![cr(), lf()];

    // 1. the label bytes
    lemma_feed_label(d, part1, now);
    let (d1, f1) = spec_run(d, part1, now);
    assert(d1.label =~= l.label) by {
        assert(d.label + part1 =~= l.label);
    }

    // 2. the TAB separator
    let (d2, o2) = spec_push(d1, tab(), now);
    assert(valid_utf8(d1.label));
    assert(d2 == DecoderView {
        state: State::Value,
        checksum: sum8(d1.checksum, tab()),
        value: Seq::empty(),
        ..d1
    });
    assert(spec_run(d1, part2, now) == (d2, Seq::<FrameView>::empty())) by {
        lemma_run_one(d1, tab(), now);
    }

    // 3. the value bytes
    lemma_feed_value(d2, part3, now);
    let (d3, f3) = spec_run(d2, part3, now);

    // 4. the closing CR LF, which completes the line
    let vsum = sum8_seq(d2.checksum, l.value);
    let dfin = DecoderView {
        state: State::Label,
        checksum: sum8(sum8(vsum, cr()), lf()),
        label: Seq::empty(),
        value: Seq::empty(),
        frame: spec_apply_field(d.frame, l.label, l.value),
    };
    assert(spec_run(d3, part4, now) == (dfin, Seq::<FrameView>::empty())) by {
        assert(part4 =~= seq![cr()] + seq![lf()]);
        lemma_run_one(d3, cr(), now);
        lemma_run_append(d3, seq![cr()], seq![lf()], now);
        let (da0, _) = spec_push(d3, cr(), now);
        lemma_run_one(da0, lf(), now);
        assert(Seq::<FrameView>::empty() + Seq::<FrameView>::empty()
            =~= Seq::<FrameView>::empty());
        if part3.len() > 0 && part3.last() == cr() {
            // d3 holds a pending CR belonging to the value; the closing CR
            // first releases it, then itself goes pending
            let (da, _) = spec_push(d3, cr(), now);
            assert(da.value =~= l.value) by {
                assert(d2.value + part3.drop_last() =~= part3.drop_last());
                assert(part3.drop_last().push(cr()) =~= l.value);
            }
            assert(da.checksum == vsum) by {
                lemma_sum8_seq_append(d2.checksum, part3.drop_last(), seq![cr()]);
                assert(part3.drop_last() + seq![cr()] =~= part3);
                lemma_sum8_seq_one(sum8_seq(d2.checksum, part3.drop_last()), cr());
            }
            let (db, ob) = spec_push(da, lf(), now);
            assert(da.label == l.label);
            assert(spec_finish_line(da, now) == (dfin, Option::<FrameView>::None));
        } else {
            assert(d3.value =~= l.value) by {
                assert(d2.value + part3 =~= part3);
            }
            assert(d3.checksum == vsum);
            let (da, _) = spec_push(d3, cr(), now);
            assert(da == DecoderView { state: State::ValueCr, ..d3 });
            let (db, ob) = spec_push(da, lf(), now);
            assert(spec_finish_line(da, now) == (dfin, Option::<FrameView>::None));
        }
    }

    // stitch the four parts together
    lemma_run_append(d, part1, part2, now);
    lemma_run_append(d, part1 + part2, part3, now);
    lemma_run_append(d, part1 + part2 + part3, part4, now);
    assert(part1 + part2 + part3 + part4 =~= bytes);
    assert(Seq::<FrameView>::empty() + Seq::<FrameView>::empty() =~= Seq::<FrameView>::empty());
    assert(dfin.checksum == sum8_seq(d.checksum, bytes)) by {
        lemma_sum8_seq_append(d.checksum, part1, part2);
        lemma_sum8_seq_one(sum8_seq(d.checksum, part1), tab());
        lemma_sum8_seq_append(d.checksum, part1 + part2, part3);
        assert(sum8_seq(d.checksum, part1 + part2) == d2.checksum);
        lemma_sum8_seq_append(d.checksum, part1 + part2 + part3, part4);
        assert(sum8_seq(d.checksum, part1 + part2 + part3) == vsum);
        assert(sum8_seq(vsum, part4) == sum8(sum8(vsum, cr()), lf())) by {
            assert(part4[0] == cr());
            assert(part4.skip(1) =~= seq![lf()]);
            lemma_sum8_seq_one(sum8(vsum, cr()), lf());
        }
    }
}

/// Feeding a run of well-formed lines dispatches each in order.
proof fn lemma_feed_lines(d: DecoderView, lines: Seq<Line>, now: u64)
    requires
        d.state == State::Label,
        d.label == Seq::<u8>::empty(),
        d.value == Seq::<u8>::empty(),
        wf_lines(lines),
    ensures
        spec_run(d, lines_bytes(lines), now) == (
            DecoderView {
                state: State::Label,
                checksum: sum8_seq(d.checksum, lines_bytes(lines)),
                label: Seq::empty(),
                value: Seq::empty(),
                frame: frame_fold(d.frame, lines),
            },
            Seq::<FrameView>::empty(),
        ),
    decreases lines.len(),
{
    if lines.len() == 0 {
        assert(lines_bytes(lines) =~= Seq::<u8>::empty());
        assert(sum8_seq(d.checksum, Seq::<u8>::empty()) == d.checksum);
        assert(frame_fold(d.frame, lines) == d.frame);
        assert(DecoderView {
            state: State::Label,
            checksum: sum8_seq(d.checksum, lines_bytes(lines)),
            label: Seq::empty(),
            value: Seq::empty(),
            frame: frame_fold(d.frame, lines),
        } == d);
    } else {
        assert(wf_line(lines[0]));
        lemma_feed_line(d, lines[0], now);
        let (d1, _) = spec_run(d, line_bytes(lines[0]), now);
        assert(wf_lines(lines.skip(1))) by {
            assert(forall|i: int|
                0 <= i < lines.skip(1).len() ==> #[trigger] wf_line(lines.skip(1)[i])) by {
                assert forall|i: int|
                    0 <= i < lines.skip(1).len() implies #[trigger] wf_line(lines.skip(1)[i]) by {
                    assert(wf_line(lines[i + 1]));
                }
            }
        }
        lemma_feed_lines(d1, lines.skip(1), now);
        lemma_run_append(d, line_bytes(lines[0]), lines_bytes(lines.skip(1)), now);
        lemma_sum8_seq_append(d.checksum, line_bytes(lines[0]), lines_bytes(lines.skip(1)));
        assert(Seq::<FrameView>::empty() + Seq::<FrameView>::empty()
            =~= Seq::<FrameView>::empty());
    }
}

/// Feeding the terminal checksum line settles the block: the frame built so
/// far is emitted exactly when the running sum through the checksum byte is
/// zero, and either way the machine stands at the start of the next block.
proof fn lemma_feed_checksum_line(d: DecoderView, ck: u8, now: u64)
    requires
        d.state == State::Label,
        d.label == Seq::<u8>::empty(),
    ensures
        spec_run(d, line_bytes(checksum_line(ck)), now) == (
            DecoderView::block_start(),
            if sum8(sum8_seq(d.checksum, label_checksum() + seq![tab()]), ck) == 0 {
                seq![FrameView { timestamp: Some(now), ..d.frame }]
            } else {
                Seq::<FrameView>::empty()
            },
        ),
{
    let l = checksum_line(ck);
    let bytes = line_bytes(l);
    let part1 = l.label;
    let part2 = seq![tab()];
    let part3 = seq![ck];
    let part4 = seq![cr(), lf()];
    lemma_checksum_label_utf8();

    // 1. the checksum marker
    lemma_feed_label(d, part1, now);
    let (d1, _) = spec_run(d, part1, now);
    assert(d1.label =~= label_checksum()) by {
        assert(d.label + part1 =~= part1);
    }

    // 2. the TAB separator
    let (d2, _) = spec_push(d1, tab(), now);
    assert(valid_utf8(d1.label));
    assert(d2 == DecoderView {
        state: State::Value,
        checksum: sum8(d1.checksum, tab()),
        value: Seq::empty(),
        ..d1
    });
    assert(spec_run(d1, part2, now) == (d2, Seq::<FrameView>::empty())) by {
        lemma_run_one(d1, tab(), now);
    }
    let total = sum8(d2.checksum, ck);
    assert(total == sum8(sum8_seq(d.checksum, label_checksum() + seq![tab()]), ck)) by {
        lemma_sum8_seq_append(d.checksum, part1, part2);
        lemma_sum8_seq_one(sum8_seq(d.checksum, part1), tab());
    }

    // 3. the single checksum byte, then the closing CR LF
    let emitted = if total == 0 {
        seq![FrameView { timestamp: Some(now), ..d.frame }]
    } else {
        Seq::<FrameView>::empty()
    };
    assert(spec_run(d2, part3 + part4, now) == (DecoderView::block_start(), emitted)) by {
        lemma_run_one(d2, ck, now);
        lemma_run_append(d2, part3, part4, now);
        let (da0, _) = spec_push(d2, ck, now);
        assert(part4 =~= seq![cr()] + seq![lf()]);
        lemma_run_one(da0, cr(), now);
        lemma_run_append(da0, seq![cr()], seq![lf()], now);
        let (db0, _) = spec_push(da0, cr(), now);
        lemma_run_one(db0, lf(), now);
        if ck == cr() {
            // the checksum byte is itself a CR: it goes pending, the
            // closing CR releases it into the value, and the LF finishes
            let (da, _) = spec_push(d2, ck, now);
            assert(da == DecoderView { state: State::ValueCr, ..d2 });
            let (db, _) = spec_push(da, cr(), now);
            assert(db == DecoderView {
                value: d2.value.push(cr()),
                checksum: sum8(d2.checksum, cr()),
                ..da
            });
            assert(db.checksum == total);
            assert(db.label == label_checksum());
            let (dc, oc) = spec_push(db, lf(), now);
            assert(spec_finish_line(db, now) == (DecoderView::block_start(),
                if total == 0 { Some(FrameView { timestamp: Some(now), ..d.frame }) }
                else { Option::<FrameView>::None }));
        } else {
            let (da, _) = spec_push(d2, ck, now);
            assert(da == DecoderView {
                value: d2.value.push(ck),
                checksum: sum8(d2.checksum, ck),
                ..d2
            });
            assert(da.checksum == total);
            let (db, _) = spec_push(da, cr(), now);
            assert(db == DecoderView { state: State::ValueCr, ..da });
            let (dc, oc) = spec_push(db, lf(), now);
            assert(spec_finish_line(db, now) == (DecoderView::block_start(),
                if total == 0 { Some(FrameView { timestamp: Some(now), ..d.frame }) }
                else { Option::<FrameView>::None }));
        }
        assert(emitted + Seq::<FrameView>::empty() =~= emitted);
        assert(Seq::<FrameView>::empty() + emitted =~= emitted);
    }

    // stitch the parts together
    lemma_run_append(d, part1, part2, now);
    lemma_run_append(d, part1 + part2, part3 + part4, now);
    assert(part1 + part2 + (part3 + part4) =~= bytes);
    assert(Seq::<FrameView>::empty() + Seq::<FrameView>::empty() + emitted =~= emitted);
}

/// From a fresh decoder, the first CRLF of the stream synchronizes: the
/// machine reaches the block-start position without emitting anything.
pub proof fn lemma_sync(now: u64)
    ensures
        spec_run(DecoderView::initial(), seq![cr(), lf()], now) == (
            DecoderView::block_start(),
            Seq::<FrameView>::empty(),
        ),
{
    let s = seq![cr(), lf()];
    let d0 = DecoderView::initial();
    assert(s =~= seq![cr()] + seq![lf()]);
    lemma_run_one(d0, cr(), now);
    lemma_run_append(d0, seq![cr()], seq![lf()], now);
    let (d1, _) = spec_push(d0, cr(), now);
    lemma_run_one(d1, lf(), now);
    assert(Seq::<FrameView>::empty() + Seq::<FrameView>::empty() =~= Seq::<FrameView>::empty());
}

/// A well-formed block whose checksum balances emits exactly one frame —
/// the one its lines encode, each field converted by the field table — and
/// returns the decoder to the block-start position.
pub proof fn lemma_block_emits(lines: Seq<Line>, ck: u8, now: u64)
    requires
        wf_lines(lines),
        block_sum(lines, ck) == 0,
    ensures
        spec_run(DecoderView::block_start(), block_tail(lines, ck), now) == (
            DecoderView::block_start(),
            seq![block_frame(lines, now)],
        ),
{
    let d = DecoderView::block_start();
    lemma_feed_lines(d, lines, now);
    let (d1, _) = spec_run(d, lines_bytes(lines), now);
    lemma_feed_checksum_line(d1, ck, now);
    lemma_run_append(d, lines_bytes(lines), line_bytes(checksum_line(ck)), now);
    assert(sum8(sum8_seq(d1.checksum, label_checksum() + seq![tab()]), ck) == block_sum(
        lines,
        ck,
    )) by {
        lemma_sum8_seq_append(d.checksum, lines_bytes(lines), label_checksum() + seq![tab()]);
        lemma_sum8_seq_append(
            d.checksum,
            lines_bytes(lines) + (label_checksum() + seq![tab()]),
            seq![ck],
        );
        lemma_sum8_seq_one(
            sum8_seq(d.checksum, lines_bytes(lines) + (label_checksum() + seq![tab()])),
            ck,
        );
        assert(lines_bytes(lines) + (label_checksum() + seq![tab()]) + seq![ck] =~= lines_bytes(
            lines,
        ) + label_checksum() + seq![tab(), ck]);
    }
    assert(Seq::<FrameView>::empty() + seq![block_frame(lines, now)] =~= seq![block_frame(
        lines,
        now,
    )]);
}

/// A block whose checksum does not balance emits nothing — the in-progress
/// frame is discarded whole — and still leaves the decoder at the
/// block-start position, ready for what follows.
pub proof fn lemma_block_discarded(lines: Seq<Line>, ck: u8, now: u64)
    requires
        wf_lines(lines),
        block_sum(lines, ck) != 0,
    ensures
        spec_run(DecoderView::block_start(), block_tail(lines, ck), now) == (
            DecoderView::block_start(),
            Seq::<FrameView>::empty(),
        ),
{
    let d = DecoderView::block_start();
    lemma_feed_lines(d, lines, now);
    let (d1, _) = spec_run(d, lines_bytes(lines), now);
    lemma_feed_checksum_line(d1, ck, now);
    lemma_run_append(d, lines_bytes(lines), line_bytes(checksum_line(ck)), now);
    assert(sum8(sum8_seq(d1.checksum, label_checksum() + seq![tab()]), ck) == block_sum(
        lines,
        ck,
    )) by {
        lemma_sum8_seq_append(d.checksum, lines_bytes(lines), label_checksum() + seq![tab()]);
        lemma_sum8_seq_append(
            d.checksum,
            lines_bytes(lines) + (label_checksum() + seq![tab()]),
            seq![ck],
        );
        lemma_sum8_seq_one(
            sum8_seq(d.checksum, lines_bytes(lines) + (label_checksum() + seq![tab()])),
            ck,
        );
        assert(lines_bytes(lines) + (label_checksum() + seq![tab()]) + seq![ck] =~= lines_bytes(
            lines,
        ) + label_checksum() + seq![tab(), ck]);
    }
    assert(Seq::<FrameView>::empty() + Seq::<FrameView>::empty() =~= Seq::<FrameView>::empty());
}

/// Corrupting a block's checksum costs exactly that block: the damaged
/// block yields no frame, and the valid block that follows is emitted as if
/// the damage had never happened.
pub proof fn lemma_checksum_failure_recovers(
    bad: Seq<Line>,
    bad_ck: u8,
    good: Seq<Line>,
    good_ck: u8,
    now: u64,
)
    requires
        wf_lines(bad),
        wf_lines(good),
        block_sum(bad, bad_ck) != 0,
        block_sum(good, good_ck) == 0,
    ensures
        spec_run(
            DecoderView::block_start(),
            block_tail(bad, bad_ck) + block_tail(good, good_ck),
            now,
        ) == (DecoderView::block_start(), seq![block_frame(good, now)]),
{
    lemma_block_discarded(bad, bad_ck, now);
    lemma_block_emits(good, good_ck, now);
    lemma_run_append(
        DecoderView::block_start(),
        block_tail(bad, bad_ck),
        block_tail(good, good_ck),
        now,
    );
    assert(Seq::<FrameView>::empty() + seq![block_frame(good, now)] =~= seq![block_frame(
        good,
        now,
    )]);
}

/// A line with an unrecognized label contributes nothing: the frame a block
/// builds is the frame the same block builds without that line.  Together
/// with `lemma_block_emits` — which asks only well-formedness of the label,
/// not that the table know it — an unknown label neither prevents emission
/// nor disturbs any sibling field.
pub proof fn lemma_unknown_line_dropped(f: FrameView, lines: Seq<Line>, i: int, now: u64)
    requires
        0 <= i < lines.len(),
        !known_label(lines[i].label),
    ensures
        frame_fold(f, lines) == frame_fold(f, lines.remove(i)),
    decreases lines.len(),
{
    if i == 0 {
        lemma_unknown_label_ignored(f, lines[0].label, lines[0].value);
        assert(lines.remove(0) =~= lines.skip(1));
    } else {
        let f1 = spec_apply_field(f, lines[0].label, lines[0].value);
        lemma_unknown_line_dropped(f1, lines.skip(1), i - 1, now);
        assert(lines.remove(i).skip(1) =~= lines.skip(1).remove(i - 1));
        assert(lines.remove(i)[0] == lines[0]);
    }
}

/// Sequential chunks, as a list.
pub open spec fn concat_chunks(chunks: Seq<Seq<u8>>) -> Seq<u8>
    decreases chunks.len(),
{
    if chunks.len() == 0 {
        Seq::empty()
    } else {
        chunks[0] + concat_chunks(chunks.skip(1))
    }
}

/// The decoder run chunk by chunk: final state and all frames, in order.
pub open spec fn run_chunks(d: DecoderView, chunks: Seq<Seq<u8>>, now: u64) -> (
    DecoderView,
    Seq<FrameView>,
)
    decreases chunks.len(),
{
    if chunks.len() == 0 {
        (d, Seq::empty())
    } else {
        let (d1, f1) = spec_run(d, chunks[0], now);
        let (d2, f2) = run_chunks(d1, chunks.skip(1), now);
        (d2, f1 + f2)
    }
}

/// Chunk boundaries are invisible: feeding any chunking of a byte stream,
/// one chunk at a time, ends in the same state and emits the same frames in
/// the same order as feeding the whole stream at once.
pub proof fn lemma_chunking_irrelevant(d: DecoderView, chunks: Seq<Seq<u8>>, now: u64)
    ensures
        run_chunks(d, chunks, now) == spec_run(d, concat_chunks(chunks), now),
    decreases chunks.len(),
{
    if chunks.len() == 0 {
        assert(concat_chunks(chunks) =~= Seq::<u8>::empty());
    } else {
        let (d1, f1) = spec_run(d, chunks[0], now);
        lemma_chunking_irrelevant(d1, chunks.skip(1), now);
        lemma_run_append(d, chunks[0], concat_chunks(chunks.skip(1)), now);
    }
}

/// A whole block of a capture: its lines and its checksum byte.
pub ghost struct Block {
    pub lines: Seq<Line>,
    pub ck: u8,
}

pub open spec fn wf_block(b: Block) -> bool {
    wf_lines(b.lines)
}

pub open spec fn wf_blocks(blocks: Seq<Block>) -> bool {
    forall|i: int| 0 <= i < blocks.len() ==> #[trigger] wf_block(blocks[i])
}

/// The wire bytes of a whole capture of concatenated blocks.
pub open spec fn capture_bytes(blocks: Seq<Block>) -> Seq<u8>
    decreases blocks.len(),
{
    if blocks.len() == 0 {
        Seq::empty()
    } else {
        block_tail(blocks[0].lines, blocks[0].ck) + capture_bytes(blocks.skip(1))
    }
}

/// The frames the capture's checksum-balanced blocks encode, in order;
/// blocks whose sum does not balance contribute nothing.
pub open spec fn capture_frames(blocks: Seq<Block>, now: u64) -> Seq<FrameView>
    decreases blocks.len(),
{
    if blocks.len() == 0 {
        Seq::empty()
    } else {
        (if block_sum(blocks[0].lines, blocks[0].ck) == 0 {
            seq![block_frame(blocks[0].lines, now)]
        } else {
            Seq::<FrameView>::empty()
        }) + capture_frames(blocks.skip(1), now)
    }
}

/// Over a whole capture of concatenated well-formed blocks, the decoder
/// emits exactly the frames of the blocks whose checksum balances under
/// the block-sum rule — no more, no fewer, in capture order.
pub proof fn lemma_capture_emits_valid_blocks(blocks: Seq<Block>, now: u64)
    requires
        wf_blocks(blocks),
    ensures
        spec_run(DecoderView::block_start(), capture_bytes(blocks), now) == (
            DecoderView::block_start(),
            capture_frames(blocks, now),
        ),
    decreases blocks.len(),
{
    if blocks.len() == 0 {
        assert(capture_bytes(blocks) =~= Seq::<u8>::empty());
        assert(capture_frames(blocks, now) =~= Seq::<FrameView>::empty());
    } else {
        let b0 = blocks[0];
        assert(wf_block(b0));
        let first = block_tail(b0.lines, b0.ck);
        if block_sum(b0.lines, b0.ck) == 0 {
            lemma_block_emits(b0.lines, b0.ck, now);
        } else {
            lemma_block_discarded(b0.lines, b0.ck, now);
        }
        assert(wf_blocks(blocks.skip(1))) by {
            assert forall|i: int|
                0 <= i < blocks.skip(1).len() implies #[trigger] wf_block(blocks.skip(1)[i]) by {
                assert(wf_block(blocks[i + 1]));
            }
        }
        lemma_capture_emits_valid_blocks(blocks.skip(1), now);
        lemma_run_append(
            DecoderView::block_start(),
            first,
            capture_bytes(blocks.skip(1)),
            now,
        );
    }
}

/// The same, from a factory-fresh decoder: the stream's first CRLF
/// synchronizes, and the capture that follows emits exactly the frames of
/// its checksum-balanced blocks.
pub proof fn lemma_fresh_decoder_capture(blocks: Seq<Block>, now: u64)
    requires
        wf_blocks(blocks),
    ensures
        spec_run(DecoderView::initial(), seq![cr(), lf()] + capture_bytes(blocks), now) == (
            DecoderView::block_start(),
            capture_frames(blocks, now),
        ),
{
    lemma_sync(now);
    lemma_capture_emits_valid_blocks(blocks, now);
    lemma_run_append(DecoderView::initial(), seq![cr(), lf()], capture_bytes(blocks), now);
    assert(Seq::<FrameView>::empty() + capture_frames(blocks, now) =~= capture_frames(
        blocks,
        now,
    ));
}

/// One step of the machine preserves decoder soundness, and any frame it
/// emits is well formed and stamped with the supplied capture time.
pub proof fn lemma_push_wf(d: DecoderView, b: u8, now: u64)
    requires
        d.wf(),
    ensures
        spec_push(d, b, now).0.wf(),
        spec_push(d, b, now).1 matches Some(f) ==> f.wf() && f.timestamp == Some(now),
{
    crate::fields::lemma_apply_field_wf(d.frame, d.label, d.value);
}

/// A whole run preserves decoder soundness; every frame emitted along the
/// way is well formed and stamped with the supplied capture time.
pub proof fn lemma_run_wf(d: DecoderView, s: Seq<u8>, now: u64)
    requires
        d.wf(),
    ensures
        spec_run(d, s, now).0.wf(),
        forall|i: int|
            0 <= i < spec_run(d, s, now).1.len() ==> (#[trigger] spec_run(d, s, now).1[i]).wf()
                && spec_run(d, s, now).1[i].timestamp == Some(now),
    decreases s.len(),
{
    if s.len() > 0 {
        let (d1, out) = spec_push(d, s[0], now);
        lemma_push_wf(d, s[0], now);
        lemma_run_wf(d1, s.skip(1), now);
        let (d2, fs) = spec_run(d1, s.skip(1), now);
        match out {
            Some(f) => {
                assert(forall|i: int|
                    0 <= i < (seq![f] + fs).len() ==> (#[trigger] (seq![f] + fs)[i]).wf()
                        && (seq![f] + fs)[i].timestamp == Some(now)) by {
                    assert forall|i: int|
                        0 <= i < (seq![f] + fs).len() implies (#[trigger] (seq![f] + fs)[i]).wf()
                        && (seq![f] + fs)[i].timestamp == Some(now) by {
                        if i > 0 {
                            assert((seq![f] + fs)[i] == fs[i - 1]);
                        }
                    }
                }
            },
            None => (),
        }
    }
}

} // verus!
