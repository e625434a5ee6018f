//! The field table: label-to-rule dispatch for VE.Direct block lines.
//!
//! Each known label owns one typed conversion rule.  A failed conversion
//! leaves exactly that field unset and touches nothing else; an unknown
//! label changes nothing at all.

use vstd::prelude::*;

use crate::frame::{
    spec_error_code, spec_mppt, spec_off_reason, spec_state_of_operation, ErrorCode, FrameView,
    Mppt, MpptFrame, OffReason, StateOfOperation,
};
use crate::text::{
    bytes_eq, check_utf8, parse_hex_u32, parse_i32_dec, parse_onoff, parse_u16_dec, parse_u32_dec,
    spec_parse_hex_u32, spec_parse_i32_dec, spec_parse_onoff, spec_parse_u16_dec,
    spec_parse_u32_dec,
};

verus! {

pub open spec fn label_v() -> Seq<u8> {
    seq![86u8]
}

pub open spec fn label_vpv() -> Seq<u8> {
    seq![86u8, 80u8, 86u8]
}

pub open spec fn label_ppv() -> Seq<u8> {
    seq![80u8, 80u8, 86u8]
}

pub open spec fn label_i() -> Seq<u8> {
    seq![73u8]
}

pub open spec fn label_il() -> Seq<u8> {
    seq![73u8, 76u8]
}

pub open spec fn label_load() -> Seq<u8> {
    seq![76u8, 79u8, 65u8, 68u8]
}

pub open spec fn label_relay() -> Seq<u8> {
    seq![82u8, 69u8, 76u8, 65u8, 89u8]
}

pub open spec fn label_or() -> Seq<u8> {
    seq![79u8, 82u8]
}

pub open spec fn label_h19() -> Seq<u8> {
    seq![72u8, 49u8, 57u8]
}

pub open spec fn label_h20() -> Seq<u8> {
    seq![72u8, 50u8, 48u8]
}

pub open spec fn label_h21() -> Seq<u8> {
    seq![72u8, 50u8, 49u8]
}

pub open spec fn label_h22() -> Seq<u8> {
    seq![72u8, 50u8, 50u8]
}

pub open spec fn label_h23() -> Seq<u8> {
    seq![72u8, 50u8, 51u8]
}

pub open spec fn label_err() -> Seq<u8> {
    seq![69u8, 82u8, 82u8]
}

pub open spec fn label_cs() -> Seq<u8> {
    seq![67u8, 83u8]
}

pub open spec fn label_fw() -> Seq<u8> {
    seq![70u8, 87u8]
}

pub open spec fn label_pid() -> Seq<u8> {
    seq![80u8, 73u8, 68u8]
}

pub open spec fn label_ser() -> Seq<u8> {
    seq![83u8, 69u8, 82u8, 35u8]
}

pub open spec fn label_hsds() -> Seq<u8> {
    seq![72u8, 83u8, 68u8, 83u8]
}

pub open spec fn label_mppt() -> Seq<u8> {
    seq![77u8, 80u8, 80u8, 84u8]
}

/// The terminal label that closes a block; the decoder intercepts it before
/// field dispatch.
pub open spec fn label_checksum() -> Seq<u8> {
    seq![67u8, 104u8, 101u8, 99u8, 107u8, 115u8, 117u8, 109u8]
}

/// True when `label` has a rule in the field table.
pub open spec fn known_label(label: Seq<u8>) -> bool {
    ||| label == label_v()
    ||| label == label_vpv()
    ||| label == label_ppv()
    ||| label == label_i()
    ||| label == label_il()
    ||| label == label_load()
    ||| label == label_relay()
    ||| label == label_or()
    ||| label == label_h19()
    ||| label == label_h20()
    ||| label == label_h21()
    ||| label == label_h22()
    ||| label == label_h23()
    ||| label == label_err()
    ||| label == label_cs()
    ||| label == label_fw()
    ||| label == label_pid()
    ||| label == label_ser()
    ||| label == label_hsds()
    ||| label == label_mppt()
}

/// The frame after one line `label TAB value` is dispatched through the
/// field table.
///
/// Every rule that fails to convert its value leaves its field, and the rest
/// of the frame, unchanged.  Energy counters arrive in wire units of ten
/// watt-hours, so their values are scaled by ten; a scaled or ranged value
/// that cannot be represented is a conversion failure.  An unknown label
/// (including the terminal checksum marker) changes nothing.
pub open spec fn spec_apply_field(f: FrameView, label: Seq<u8>, value: Seq<u8>) -> FrameView {
    if label == label_v() {
        match spec_parse_u32_dec(value) {
            Some(v) => FrameView { battery_voltage: Some(v), ..f },
            None => f,
        }
    } else if label == label_vpv() {
        match spec_parse_u32_dec(value) {
            Some(v) => FrameView { panel_voltage: Some(v), ..f },
            None => f,
        }
    } else if label == label_ppv() {
        match spec_parse_u16_dec(value) {
            Some(v) => FrameView { panel_power: Some(v), ..f },
            None => f,
        }
    } else if label == label_i() {
        match spec_parse_i32_dec(value) {
            Some(v) => FrameView { battery_current: Some(v), ..f },
            None => f,
        }
    } else if label == label_il() {
        match spec_parse_i32_dec(value) {
            Some(v) => FrameView { load_current: Some(v), ..f },
            None => f,
        }
    } else if label == label_load() {
        match spec_parse_onoff(value) {
            Some(b) => FrameView { load_state: Some(b), ..f },
            None => f,
        }
    } else if label == label_relay() {
        match spec_parse_onoff(value) {
            Some(b) => FrameView { relay_state: Some(b), ..f },
            None => f,
        }
    } else if label == label_or() {
        match spec_parse_hex_u32(value) {
            Some(v) => match spec_off_reason(v) {
                Some(o) => FrameView { off_reason: Some(o), ..f },
                None => f,
            },
            None => f,
        }
    } else if label == label_h19() {
        match spec_parse_u32_dec(value) {
            Some(v) => if v <= 429496729 {
                FrameView { yield_total: Some((v * 10) as u32), ..f }
            } else {
                f
            },
            None => f,
        }
    } else if label == label_h20() {
        match spec_parse_u16_dec(value) {
            Some(v) => if v <= 6553 {
                FrameView { yield_today: Some((v * 10) as u16), ..f }
            } else {
                f
            },
            None => f,
        }
    } else if label == label_h21() {
        match spec_parse_u16_dec(value) {
            Some(v) => FrameView { maximum_power_today: Some(v), ..f },
            None => f,
        }
    } else if label == label_h22() {
        match spec_parse_u16_dec(value) {
            Some(v) => if v <= 6553 {
                FrameView { yield_yesterday: Some((v * 10) as u16), ..f }
            } else {
                f
            },
            None => f,
        }
    } else if label == label_h23() {
        match spec_parse_u16_dec(value) {
            Some(v) => FrameView { maximum_power_yesterday: Some(v), ..f },
            None => f,
        }
    } else if label == label_err() {
        match spec_parse_u32_dec(value) {
            Some(v) => match spec_error_code(v) {
                Some(e) => FrameView { error: Some(e), ..f },
                None => f,
            },
            None => f,
        }
    } else if label == label_cs() {
        match spec_parse_u32_dec(value) {
            Some(v) => match spec_state_of_operation(v) {
                Some(c) => FrameView { state: Some(c), ..f },
                None => f,
            },
            None => f,
        }
    } else if label == label_fw() {
        if vstd::utf8::valid_utf8(value) {
            FrameView { firmware_version: Some(value), ..f }
        } else {
            f
        }
    } else if label == label_pid() {
        match spec_parse_hex_u32(value) {
            Some(v) => FrameView { product_id: Some(v), ..f },
            None => f,
        }
    } else if label == label_ser() {
        if vstd::utf8::valid_utf8(value) {
            FrameView { serial_number: Some(value), ..f }
        } else {
            f
        }
    } else if label == label_hsds() {
        match spec_parse_u16_dec(value) {
            Some(v) => if v <= 364 {
                FrameView { day_number: Some(v), ..f }
            } else {
                f
            },
            None => f,
        }
    } else if label == label_mppt() {
        match spec_parse_u32_dec(value) {
            Some(v) => match spec_mppt(v) {
                Some(m) => FrameView { mppt_status: Some(m), ..f },
                None => f,
            },
            None => f,
        }
    } else {
        f
    }
}

/// Dispatching never breaks the frame's field-level sanity, and a dispatch
/// never touches the capture timestamp.
pub proof fn lemma_apply_field_wf(f: FrameView, label: Seq<u8>, value: Seq<u8>)
    requires
        f.wf(),
    ensures
        spec_apply_field(f, label, value).wf(),
        spec_apply_field(f, label, value).timestamp == f.timestamp,
{
}

/// A line with an unknown label leaves the frame exactly as it was.
pub proof fn lemma_unknown_label_ignored(f: FrameView, label: Seq<u8>, value: Seq<u8>)
    requires
        !known_label(label),
    ensures
        spec_apply_field(f, label, value) == f,
{
}

/// Copies a value slice into an owned byte vector.
fn to_vec(v: &[u8]) -> (r: Vec<u8>)
    ensures
        r@ == v@,
{
    let mut r: Vec<u8> = Vec::new();
    let mut i: usize = 0;
    while i < v.len()
        invariant
            i <= v.len(),
            r@ == v@.subrange(0, i as int),
        decreases v.len() - i,
    {
        r.push(v[i]);
        i = i + 1;
        assert(r@ == v@.subrange(0, i as int));
    }
    assert(v@.subrange(0, v.len() as int) == v@);
    r
}

/// Applies one line's `label` and `value` to the in-progress frame, as the
/// field table prescribes.
pub fn apply_field(frame: &mut MpptFrame, label: &[u8], value: &[u8])
    ensures
        final(frame)@ == spec_apply_field(old(frame)@, label@, value@),
{
    let l_v: &[u8] = &[86u8];
    let l_vpv: &[u8] = &[86u8, 80, 86];
    let l_ppv: &[u8] = &[80u8, 80, 86];
    let l_i: &[u8] = &[73u8];
    let l_il: &[u8] = &[73u8, 76];
    let l_load: &[u8] = &[76u8, 79, 65, 68];
    let l_relay: &[u8] = &[82u8, 69, 76, 65, 89];
    let l_or: &[u8] = &[79u8, 82];
    let l_h19: &[u8] = &[72u8, 49, 57];
    let l_h20: &[u8] = &[72u8, 50, 48];
    let l_h21: &[u8] = &[72u8, 50, 49];
    let l_h22: &[u8] = &[72u8, 50, 50];
    let l_h23: &[u8] = &[72u8, 50, 51];
    let l_err: &[u8] = &[69u8, 82, 82];
    let l_cs: &[u8] = &[67u8, 83];
    let l_fw: &[u8] = &[70u8, 87];
    let l_pid: &[u8] = &[80u8, 73, 68];
    let l_ser: &[u8] = &[83u8, 69, 82, 35];
    let l_hsds: &[u8] = &[72u8, 83, 68, 83];
    let l_mppt: &[u8] = &[77u8, 80, 80, 84];
    proof {
        assert(l_v@ =~= label_v());
        assert(l_vpv@ =~= label_vpv());
        assert(l_ppv@ =~= label_ppv());
        assert(l_i@ =~= label_i());
        assert(l_il@ =~= label_il());
        assert(l_load@ =~= label_load());
        assert(l_relay@ =~= label_relay());
        assert(l_or@ =~= label_or());
        assert(l_h19@ =~= label_h19());
        assert(l_h20@ =~= label_h20());
        assert(l_h21@ =~= label_h21());
        assert(l_h22@ =~= label_h22());
        assert(l_h23@ =~= label_h23());
        assert(l_err@ =~= label_err());
        assert(l_cs@ =~= label_cs());
        assert(l_fw@ =~= label_fw());
        assert(l_pid@ =~= label_pid());
        assert(l_ser@ =~= label_ser());
        assert(l_hsds@ =~= label_hsds());
        assert(l_mppt@ =~= label_mppt());
    }
    if bytes_eq(label, l_v) {
        match parse_u32_dec(value) {
            Some(v) => frame.battery_voltage = Some(v),
            None => (),
        }
    } else if bytes_eq(label, l_vpv) {
        match parse_u32_dec(value) {
            Some(v) => frame.panel_voltage = Some(v),
            None => (),
        }
    } else if bytes_eq(label, l_ppv) {
        match parse_u16_dec(value) {
            Some(v) => frame.panel_power = Some(v),
            None => (),
        }
    } else if bytes_eq(label, l_i) {
        match parse_i32_dec(value) {
            Some(v) => frame.battery_current = Some(v),
            None => (),
        }
    } else if bytes_eq(label, l_il) {
        match parse_i32_dec(value) {
            Some(v) => frame.load_current = Some(v),
            None => (),
        }
    } else if bytes_eq(label, l_load) {
        match parse_onoff(value) {
            Some(b) => frame.load_state = Some(b),
            None => (),
        }
    } else if bytes_eq(label, l_relay) {
        match parse_onoff(value) {
            Some(b) => frame.relay_state = Some(b),
            None => (),
        }
    } else if bytes_eq(label, l_or) {
        match parse_hex_u32(value) {
            Some(v) => match OffReason::from_bits(v) {
                Some(o) => frame.off_reason = Some(o),
                None => (),
            },
            None => (),
        }
    } else if bytes_eq(label, l_h19) {
        match parse_u32_dec(value) {
            Some(v) => {
                if v <= 429496729 {
                    frame.yield_total = Some(v * 10);
                }
            },
            None => (),
        }
    } else if bytes_eq(label, l_h20) {
        match parse_u16_dec(value) {
            Some(v) => {
                if v <= 6553 {
                    frame.yield_today = Some(v * 10);
                }
            },
            None => (),
        }
    } else if bytes_eq(label, l_h21) {
        match parse_u16_dec(value) {
            Some(v) => frame.maximum_power_today = Some(v),
            None => (),
        }
    } else if bytes_eq(label, l_h22) {
        match parse_u16_dec(value) {
            Some(v) => {
                if v <= 6553 {
                    frame.yield_yesterday = Some(v * 10);
                }
            },
            None => (),
        }
    } else if bytes_eq(label, l_h23) {
        match parse_u16_dec(value) {
            Some(v) => frame.maximum_power_yesterday = Some(v),
            None => (),
        }
    } else if bytes_eq(label, l_err) {
        match parse_u32_dec(value) {
            Some(v) => match ErrorCode::from_u32(v) {
                Some(e) => frame.error = Some(e),
                None => (),
            },
            None => (),
        }
    } else if bytes_eq(label, l_cs) {
        match parse_u32_dec(value) {
            Some(v) => match StateOfOperation::from_u32(v) {
                Some(c) => frame.state = Some(c),
                None => (),
            },
            None => (),
        }
    } else if bytes_eq(label, l_fw) {
        if check_utf8(value) {
            frame.firmware_version = Some(to_vec(value));
        }
    } else if bytes_eq(label, l_pid) {
        match parse_hex_u32(value) {
            Some(v) => frame.product_id = Some(v),
            None => (),
        }
    } else if bytes_eq(label, l_ser) {
        if check_utf8(value) {
            frame.serial_number = Some(to_vec(value));
        }
    } else if bytes_eq(label, l_hsds) {
        match parse_u16_dec(value) {
            Some(v) => {
                if v <= 364 {
                    frame.day_number = Some(v);
                }
            },
            None => (),
        }
    } else if bytes_eq(label, l_mppt) {
        match parse_u32_dec(value) {
            Some(v) => match Mppt::from_u32(v) {
                Some(m) => frame.mppt_status = Some(m),
                None => (),
            },
            None => (),
        }
    }
}

} // verus!
