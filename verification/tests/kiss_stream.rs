//! KISS stream decoding scenarios.
use byte_utils::decode::kiss_decoder::{
    FrameSummary, KissDecoder, KissTransformer, PulseDecode, PulseEvent, SummarizeFrame, FEND,
    FESC, TFEND, TFESC,
};
use byte_utils::decode::{ByteDelimitedDecoder, ByteStreamDecoder};

#[test]
fn no_delimiter_yields_no_message() {
    let mut decoder = KissDecoder::<PulseEvent, PulseDecode>::with_decode_callback(PulseDecode);
    let out = decoder.bytes_in(vec![0x00]);
    assert_eq!(out, vec![]);
}

#[test]
fn two_frames_with_empty_frames_between() {
    let mut decoder = KissDecoder::<PulseEvent, PulseDecode>::with_decode_callback(PulseDecode);
    let out = decoder.bytes_in(vec![FEND, 0xAA, FEND, FEND, FEND, 0x01, FEND]);
    assert_eq!(out, vec![PulseEvent::Pulse, PulseEvent::Pulse]);
}

#[test]
fn frame_split_across_two_chunks() {
    let mut decoder = KissDecoder::<PulseEvent, PulseDecode>::with_decode_callback(PulseDecode);
    let out = decoder.bytes_in(vec![FEND, 0xAA]);
    assert_eq!(out, vec![]);
    let out = decoder.bytes_in(vec![FEND]);
    assert_eq!(out, vec![PulseEvent::Pulse]);
}

#[test]
fn illegal_escape_aborts_frame() {
    let mut decoder = KissDecoder::<PulseEvent, PulseDecode>::with_decode_callback(PulseDecode);
    let out = decoder.bytes_in(vec![FEND, 0xAA, FESC, FESC]);
    assert_eq!(out, vec![PulseEvent::Aborted]);
    // The decoder is ready for a fresh frame right away.
    let out = decoder.bytes_in(vec![FEND, 0x42, FEND]);
    assert_eq!(out, vec![PulseEvent::Pulse]);
}

#[test]
fn consecutive_delimiters_yield_no_message() {
    let mut decoder = KissDecoder::<PulseEvent, PulseDecode>::with_decode_callback(PulseDecode);
    let out = decoder.bytes_in(vec![FEND, FEND, FEND, FEND, FEND]);
    assert_eq!(out, vec![]);
    let out = decoder.bytes_in(vec![0x07, FEND]);
    assert_eq!(out, vec![PulseEvent::Pulse]);
}

#[test]
fn escaped_delimiter_decodes_to_literal_delimiter() {
    let mut decoder =
        KissDecoder::<FrameSummary, SummarizeFrame>::with_decode_callback(SummarizeFrame);
    let out = decoder.bytes_in(vec![FEND, FESC, TFEND, FEND]);
    assert_eq!(out, vec![FrameSummary::Frame { len: 1, first: Some(FEND) }]);
}

#[test]
fn escaped_escape_decodes_to_literal_escape() {
    let mut decoder =
        KissDecoder::<FrameSummary, SummarizeFrame>::with_decode_callback(SummarizeFrame);
    let out = decoder.bytes_in(vec![FEND, FESC, TFESC, FEND]);
    assert_eq!(out, vec![FrameSummary::Frame { len: 1, first: Some(FESC) }]);
}

#[test]
fn abort_carries_partial_payload_and_offending_byte() {
    let mut decoder =
        KissDecoder::<FrameSummary, SummarizeFrame>::with_decode_callback(SummarizeFrame);
    let out = decoder.bytes_in(vec![FEND, 0xAA, 0xBB, FESC, 0x10]);
    assert_eq!(out, vec![FrameSummary::Aborted { len: 2, byte: 0x10 }]);
    let out = decoder.bytes_in(vec![FEND, 0x01, FEND]);
    assert_eq!(out, vec![FrameSummary::Frame { len: 1, first: Some(0x01) }]);
}

#[test]
fn escape_split_across_chunks_resumes_correctly() {
    let mut decoder =
        KissDecoder::<FrameSummary, SummarizeFrame>::with_decode_callback(SummarizeFrame);
    let out = decoder.bytes_in(vec![FEND, FESC]);
    assert_eq!(out, vec![]);
    let out = decoder.bytes_in(vec![TFEND, FEND]);
    assert_eq!(out, vec![FrameSummary::Frame { len: 1, first: Some(FEND) }]);
}

#[test]
fn chunking_does_not_change_the_messages() {
    let stream = vec![
        FEND, 0x01, 0x02, FEND, FEND, FESC, TFEND, 0x03, FEND, 0x10, 0x11, FEND, FESC, 0x00,
        FEND, 0x04, FEND,
    ];
    let mut whole =
        KissDecoder::<FrameSummary, SummarizeFrame>::with_decode_callback(SummarizeFrame);
    let expected = whole.bytes_in(stream.clone());

    // One byte at a time.
    let mut bytewise =
        KissDecoder::<FrameSummary, SummarizeFrame>::with_decode_callback(SummarizeFrame);
    let mut got: Vec<FrameSummary> = Vec::new();
    for b in stream.iter() {
        got.extend(bytewise.bytes_in(vec![*b]));
    }
    assert_eq!(got, expected);

    // An uneven split.
    let mut split =
        KissDecoder::<FrameSummary, SummarizeFrame>::with_decode_callback(SummarizeFrame);
    let mut got: Vec<FrameSummary> = Vec::new();
    got.extend(split.bytes_in(stream[..5].to_vec()));
    got.extend(split.bytes_in(vec![]));
    got.extend(split.bytes_in(stream[5..12].to_vec()));
    got.extend(split.bytes_in(stream[12..].to_vec()));
    assert_eq!(got, expected);
}

#[test]
fn custom_marker_bytes_are_respected() {
    // An HDLC-flavoured marker set.
    let transformer =
        KissTransformer::<FrameSummary>::with_markers(0x7E, 0x7D, 0x5E, 0x5D);
    let framing = ByteDelimitedDecoder::with_transformer(0x7E, 0x7E, transformer, SummarizeFrame);
    let mut decoder = ByteStreamDecoder::new(framing);
    let out = decoder.bytes_in(vec![0x7E, 0x7D, 0x5E, 0x7E]);
    assert_eq!(out, vec![FrameSummary::Frame { len: 1, first: Some(0x7E) }]);
    // The standard markers mean nothing here.
    let out = decoder.bytes_in(vec![0x7E, FEND, FESC, TFEND, 0x7E]);
    assert_eq!(
        out,
        vec![FrameSummary::Frame { len: 3, first: Some(FEND) }]
    );
}

#[test]
fn delimiter_inside_escape_ends_the_frame() {
    // A raw delimiter always terminates the frame, even right after the
    // escape byte; the escape state does not leak into the next frame.
    let mut decoder =
        KissDecoder::<FrameSummary, SummarizeFrame>::with_decode_callback(SummarizeFrame);
    let out = decoder.bytes_in(vec![FEND, 0xAA, FESC, FEND, 0xBB, FEND]);
    assert_eq!(
        out,
        vec![
            FrameSummary::Frame { len: 1, first: Some(0xAA) },
            FrameSummary::Frame { len: 1, first: Some(0xBB) },
        ]
    );
}
