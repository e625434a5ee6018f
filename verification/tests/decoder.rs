//! End-to-end decoder tests over synthesized VE.Direct byte streams.

use habctl::decoder::VeDirectMpptDecoder;
use habctl::frame::{ErrorCode, Mppt, MpptFrame, StateOfOperation};

/// Serializes one block: the opening CRLF, each `label TAB value CRLF`
/// line, and the checksum line (whose closing CRLF the next block, or the
/// stream tail, supplies).  The checksum byte is chosen so that the byte
/// sum from the opening CRLF through the checksum byte is 0 modulo 256.
fn encode_block(lines: &[(&[u8], &[u8])]) -> Vec<u8> {
    let mut bytes: Vec<u8> = vec![13, 10];
    for (label, value) in lines {
        bytes.extend_from_slice(label);
        bytes.push(9);
        bytes.extend_from_slice(value);
        bytes.push(13);
        bytes.push(10);
    }
    bytes.extend_from_slice(b"Checksum");
    bytes.push(9);
    let sum: u8 = bytes.iter().fold(0u8, |a, b| a.wrapping_add(*b));
    bytes.push(0u8.wrapping_sub(sum));
    bytes
}

/// A capture of whole blocks, terminated so the last block can complete.
fn capture(blocks: &[Vec<u8>]) -> Vec<u8> {
    let mut bytes = Vec::new();
    for b in blocks {
        bytes.extend_from_slice(b);
    }
    bytes.push(13);
    bytes.push(10);
    bytes
}

fn full_block() -> Vec<u8> {
    encode_block(&[
        (b"PID", b"0xA053"),
        (b"FW", b"159"),
        (b"SER#", b"HQ2132QWERTY"),
        (b"V", b"12540"),
        (b"VPV", b"17230"),
        (b"PPV", b"45"),
        (b"I", b"-1230"),
        (b"IL", b"300"),
        (b"LOAD", b"ON"),
        (b"RELAY", b"OFF"),
        (b"OR", b"0x00000001"),
        (b"H19", b"1234"),
        (b"H20", b"56"),
        (b"H21", b"78"),
        (b"H22", b"90"),
        (b"H23", b"12"),
        (b"ERR", b"2"),
        (b"CS", b"5"),
        (b"HSDS", b"123"),
        (b"MPPT", b"2"),
    ])
}

#[test]
fn one_block_one_frame() {
    let stream = capture(&[full_block()]);
    let mut dec = VeDirectMpptDecoder::default();
    let frames = dec.run_bytes(&stream, 7_000);
    assert_eq!(frames.len(), 1);
    let f = &frames[0];
    assert_eq!(f.timestamp, Some(7_000));
    assert_eq!(f.product_id, Some(0xA053));
    assert_eq!(f.firmware_version, Some(b"159".to_vec()));
    assert_eq!(f.serial_number, Some(b"HQ2132QWERTY".to_vec()));
    assert_eq!(f.battery_voltage, Some(12_540));
    assert_eq!(f.panel_voltage, Some(17_230));
    assert_eq!(f.panel_power, Some(45));
    assert_eq!(f.battery_current, Some(-1_230));
    assert_eq!(f.load_current, Some(300));
    assert_eq!(f.load_state, Some(true));
    assert_eq!(f.relay_state, Some(false));
    assert_eq!(f.off_reason.map(|o| o.bits), Some(1));
    assert_eq!(f.yield_total, Some(12_340));
    assert_eq!(f.yield_today, Some(560));
    assert_eq!(f.maximum_power_today, Some(78));
    assert_eq!(f.yield_yesterday, Some(900));
    assert_eq!(f.maximum_power_yesterday, Some(12));
    assert!(matches!(f.error, Some(ErrorCode::BatteryVoltageHigh)));
    assert!(matches!(f.state, Some(StateOfOperation::Float)));
    assert_eq!(f.day_number, Some(123));
    assert!(matches!(f.mppt_status, Some(Mppt::MpptTrackerActive)));
}

#[test]
fn chunking_never_changes_the_frames() {
    let stream = capture(&[
        full_block(),
        encode_block(&[(b"V", b"11870"), (b"CS", b"3")]),
        encode_block(&[(b"PPV", b"0"), (b"MPPT", b"0")]),
    ]);

    let mut whole = VeDirectMpptDecoder::default();
    let expected = whole.run_bytes(&stream, 42);

    // one byte at a time
    let mut byte_wise = VeDirectMpptDecoder::default();
    let mut got: Vec<MpptFrame> = Vec::new();
    for b in &stream {
        if let Some(f) = byte_wise.push_byte(*b, 42) {
            got.push(f);
        }
    }
    assert_eq!(got, expected);

    // a few awkward chunk sizes
    for chunk_len in [2usize, 3, 7, 11, 64] {
        let mut chunked = VeDirectMpptDecoder::default();
        let mut got: Vec<MpptFrame> = Vec::new();
        for chunk in stream.chunks(chunk_len) {
            got.extend(chunked.run_bytes(chunk, 42));
        }
        assert_eq!(got, expected, "chunk size {}", chunk_len);
    }
}

#[test]
fn corrupt_checksum_drops_only_that_block() {
    let mut bad = full_block();
    let last = bad.len() - 1;
    bad[last] = bad[last].wrapping_add(1);
    let good = encode_block(&[(b"V", b"11870"), (b"CS", b"3")]);
    let stream = capture(&[bad, good]);

    let mut dec = VeDirectMpptDecoder::default();
    let frames = dec.run_bytes(&stream, 1);
    assert_eq!(frames.len(), 1);
    assert_eq!(frames[0].battery_voltage, Some(11_870));
    assert!(matches!(frames[0].state, Some(StateOfOperation::Bulk)));
    // nothing from the damaged block leaked through
    assert_eq!(frames[0].product_id, None);
    assert_eq!(frames[0].panel_power, None);
}

#[test]
fn unknown_label_is_ignored() {
    let with_unknown = encode_block(&[
        (b"V", b"12000"),
        (b"XYZZY", b"17"),
        (b"PPV", b"33"),
    ]);
    let without = encode_block(&[(b"V", b"12000"), (b"PPV", b"33")]);

    let mut dec = VeDirectMpptDecoder::default();
    let a = dec.run_bytes(&capture(&[with_unknown]), 5);
    let mut dec = VeDirectMpptDecoder::default();
    let b = dec.run_bytes(&capture(&[without]), 5);
    assert_eq!(a.len(), 1);
    assert_eq!(a, b);
    assert_eq!(a[0].battery_voltage, Some(12_000));
    assert_eq!(a[0].panel_power, Some(33));
}

#[test]
fn bad_field_value_leaves_only_that_field_unset() {
    let block = encode_block(&[
        (b"V", b"not-a-number"),
        (b"PPV", b"44"),
        (b"HSDS", b"400"),
        (b"H19", b"4294967295"),
    ]);
    let mut dec = VeDirectMpptDecoder::default();
    let frames = dec.run_bytes(&capture(&[block]), 5);
    assert_eq!(frames.len(), 1);
    assert_eq!(frames[0].battery_voltage, None);
    assert_eq!(frames[0].panel_power, Some(44));
    // out-of-range day number and unscalable energy counter stay unset
    assert_eq!(frames[0].day_number, None);
    assert_eq!(frames[0].yield_total, None);
}

#[test]
fn capture_emits_exactly_the_valid_blocks() {
    // a capture of seven blocks, two of them damaged: the decoder must
    // emit exactly the count of blocks whose checksum balances
    let mut blocks = vec![
        full_block(),
        encode_block(&[(b"V", b"11870"), (b"CS", b"3")]),
        encode_block(&[(b"PPV", b"1"), (b"MPPT", b"1")]),
        encode_block(&[(b"I", b"0")]),
        encode_block(&[(b"H20", b"100")]),
        encode_block(&[(b"ERR", b"0")]),
        encode_block(&[(b"RELAY", b"ON")]),
    ];
    // damage the third and sixth block's checksum byte
    for idx in [2usize, 5] {
        let last = blocks[idx].len() - 1;
        blocks[idx][last] = blocks[idx][last].wrapping_add(0x80);
    }
    let stream = capture(&blocks);
    let mut dec = VeDirectMpptDecoder::default();
    let frames = dec.run_bytes(&stream, 9);
    assert_eq!(frames.len(), 5);
}

#[test]
fn checksum_byte_may_be_a_carriage_return() {
    // tune a filler value until the balancing checksum byte is CR itself
    let mut chosen = None;
    for c in 0u8..=255 {
        let filler = [c];
        let block = encode_block(&[(b"V", b"12000"), (b"SER#", &filler)]);
        if block[block.len() - 1] == 13 {
            chosen = Some(block);
            break;
        }
    }
    let block = chosen.expect("some filler yields a CR checksum byte");
    let stream = capture(&[block.clone(), encode_block(&[(b"PPV", b"2")])]);
    let mut dec = VeDirectMpptDecoder::default();
    let frames = dec.run_bytes(&stream, 3);
    assert_eq!(frames.len(), 2);
    assert_eq!(frames[0].battery_voltage, Some(12_000));
    assert_eq!(frames[1].panel_power, Some(2));
}

#[test]
fn decode_consumes_and_returns_one_frame() {
    let stream = capture(&[
        encode_block(&[(b"V", b"11870")]),
        encode_block(&[(b"PPV", b"7")]),
    ]);
    let (first, rest) = stream.split_at(10);

    let mut dec = VeDirectMpptDecoder::default();
    let mut buf: Vec<u8> = first.to_vec();
    // not enough yet: the whole buffer is absorbed
    assert!(dec.decode(&mut buf, 0).is_none());
    assert!(buf.is_empty());

    buf.extend_from_slice(rest);
    let f = dec.decode(&mut buf, 0).expect("first block completes");
    assert_eq!(f.battery_voltage, Some(11_870));
    // the second block's bytes are still waiting in the buffer
    let g = dec.decode(&mut buf, 0).expect("second block completes");
    assert_eq!(g.panel_power, Some(7));
    assert!(buf.is_empty());
    assert!(dec.decode(&mut buf, 0).is_none());
}

#[test]
fn empty_and_garbage_only_streams_emit_nothing() {
    let mut dec = VeDirectMpptDecoder::default();
    assert!(dec.run_bytes(&[], 0).is_empty());
    assert!(dec.run_bytes(b"no delimiters here at all", 0).is_empty());
    assert!(dec.run_bytes(b"\r\n\r\n\r\n", 0).is_empty());
}

#[test]
fn scaling_boundaries() {
    // the largest H20 value whose ten-fold still fits, and the first that
    // does not
    let fits = encode_block(&[(b"H20", b"6553")]);
    let too_big = encode_block(&[(b"H20", b"6554")]);
    let mut dec = VeDirectMpptDecoder::default();
    let frames = dec.run_bytes(&capture(&[fits, too_big]), 0);
    assert_eq!(frames.len(), 2);
    assert_eq!(frames[0].yield_today, Some(65_530));
    assert_eq!(frames[1].yield_today, None);
}

#[test]
fn plus_signed_values_parse() {
    let block = encode_block(&[(b"V", b"+12000"), (b"I", b"+5")]);
    let mut dec = VeDirectMpptDecoder::default();
    let frames = dec.run_bytes(&capture(&[block]), 0);
    assert_eq!(frames.len(), 1);
    assert_eq!(frames[0].battery_voltage, Some(12_000));
    assert_eq!(frames[0].battery_current, Some(5));
}

#[test]
fn garbage_before_sync_is_skipped() {
    let mut stream: Vec<u8> = b"noise without meaning \r mid".to_vec();
    stream.extend_from_slice(&capture(&[encode_block(&[(b"V", b"100")])]));
    let mut dec = VeDirectMpptDecoder::default();
    let frames = dec.run_bytes(&stream, 0);
    assert_eq!(frames.len(), 1);
    assert_eq!(frames[0].battery_voltage, Some(100));
}

#[test]
fn invalid_utf8_label_desynchronizes_the_block() {
    // a non-UTF-8 label aborts the whole block, unlike an unknown one
    let broken = encode_block(&[(b"V", b"12000"), (&[0xff, 0xfe], b"1")]);
    let good = encode_block(&[(b"PPV", b"9")]);
    let stream = capture(&[broken, good]);
    let mut dec = VeDirectMpptDecoder::default();
    let frames = dec.run_bytes(&stream, 0);
    assert_eq!(frames.len(), 1);
    assert_eq!(frames[0].panel_power, Some(9));
    assert_eq!(frames[0].battery_voltage, None);
}
