//! Plain delimiter framing, the sentinel decoder, the chunk accumulator,
//! and the adapter configuration helpers.
use byte_utils::can_port::CanPortConfig;
use byte_utils::chunks::ChunkBuf;
use byte_utils::decode::kiss_decoder::{FrameSummary, PulseDecode, PulseEvent, SummarizeFrame};
use byte_utils::decode::{ByteDelimitedDecoder, ByteStreamDecoder, SentinelDecoder};
use byte_utils::decoding::{ByteStreamDecoder as SimpleStreamDecoder, SimpleDelimiterDecoder};
use byte_utils::serial_port::SerialPortConfig;

#[test]
fn sentinel_decoder_counts_sentinel_bytes() {
    let mut decoder = ByteStreamDecoder::new(SentinelDecoder::new(0xAA));
    let out = decoder.bytes_in(vec![0x01, 0xAA, 0xAA]);
    assert_eq!(out.len(), 2);
    let out = decoder.bytes_in(vec![0x00]);
    assert_eq!(out.len(), 0);
}

#[test]
fn identity_transformer_passes_bytes_through() {
    let framing =
        ByteDelimitedDecoder::<PulseEvent, (), PulseDecode>::new(0xFF, 0xAA, PulseDecode);
    let mut decoder = ByteStreamDecoder::new(framing);
    let out = decoder.bytes_in(vec![0x00, 0xFF, 0x01, 0x02, 0xAA, 0xFF, 0xAA]);
    assert_eq!(out, vec![PulseEvent::Pulse]);
}

#[test]
fn distinct_delimiters_frame_payloads() {
    let framing = SimpleDelimiterDecoder::new(0xFF, 0xAA, SummarizeFrame);
    let mut decoder = SimpleStreamDecoder::new(framing);
    // Garbage, then a frame, then garbage.
    let out = decoder.input_bytes(vec![0x01, 0xFF, 0x10, 0x20, 0x30, 0xAA, 0x99]);
    assert_eq!(out, vec![FrameSummary::Frame { len: 3, first: Some(0x10) }]);
}

#[test]
fn distinct_delimiters_skip_empty_frames() {
    let framing = SimpleDelimiterDecoder::new(0xFF, 0xAA, PulseDecode);
    let mut decoder = SimpleStreamDecoder::new(framing);
    let out = decoder.input_bytes(vec![0xFF, 0xAA, 0xFF, 0x01, 0xAA]);
    assert_eq!(out, vec![PulseEvent::Pulse]);
}

#[test]
fn simple_decoder_same_delimiter_mode() {
    let framing = SimpleDelimiterDecoder::new(0xC0, 0xC0, SummarizeFrame);
    let mut decoder = SimpleStreamDecoder::new(framing);
    let out = decoder.input_bytes(vec![0xC0, 0x0A, 0xC0, 0x0B, 0xC0]);
    // The shared delimiter both closes one frame and opens the next.
    assert_eq!(
        out,
        vec![
            FrameSummary::Frame { len: 1, first: Some(0x0A) },
            FrameSummary::Frame { len: 1, first: Some(0x0B) },
        ]
    );
}

#[test]
fn simple_decoder_resumes_across_chunks() {
    let framing = SimpleDelimiterDecoder::new(0xFF, 0xAA, SummarizeFrame);
    let mut decoder = SimpleStreamDecoder::new(framing);
    let out = decoder.input_bytes(vec![0xFF, 0x01]);
    assert_eq!(out, vec![]);
    let out = decoder.input_bytes(vec![0x02]);
    assert_eq!(out, vec![]);
    let out = decoder.input_bytes(vec![0xAA]);
    assert_eq!(out, vec![FrameSummary::Frame { len: 2, first: Some(0x01) }]);
}

#[test]
fn chunk_buf_reads_bytes_across_chunk_boundaries() {
    let mut buf = ChunkBuf::new();
    assert!(!buf.has_remaining());
    buf.push_chunk(vec![1, 2]);
    buf.push_chunk(vec![]);
    buf.push_chunk(vec![3]);
    assert!(buf.has_remaining());
    assert_eq!(buf.peek_byte(), 1);
    assert_eq!(buf.read_byte(), 1);
    assert_eq!(buf.read_byte(), 2);
    assert_eq!(buf.peek_byte(), 3);
    assert_eq!(buf.read_byte(), 3);
    assert!(!buf.has_remaining());
}

#[test]
fn chunk_buf_advance_skips_bytes() {
    let mut buf = ChunkBuf::new();
    buf.push_chunk(vec![1, 2, 3]);
    buf.push_chunk(vec![4, 5]);
    buf.advance(4);
    assert_eq!(buf.read_byte(), 5);
    assert!(!buf.has_remaining());
}

#[test]
fn can_port_schedule_defaults_delta_to_period() {
    let config = CanPortConfig {
        interfaces: vec!["vcan0".to_string()],
        delta: None,
        period: Some(100),
    };
    assert_eq!(config.schedule_params(), Some((100, 100)));
    let config = CanPortConfig {
        interfaces: vec!["vcan0".to_string()],
        delta: Some(5),
        period: Some(100),
    };
    assert_eq!(config.schedule_params(), Some((5, 100)));
    let config = CanPortConfig { interfaces: vec![], delta: Some(5), period: None };
    assert_eq!(config.schedule_params(), None);
}

#[test]
fn serial_port_schedule_defaults_delta_to_period() {
    let config = SerialPortConfig {
        baud_rate: 0,
        port_path: "/tmp/ttyV0".to_string(),
        buffer_size: 256,
        delta: None,
        period: Some(20),
    };
    assert_eq!(config.schedule_params(), Some((20, 20)));
    let config = SerialPortConfig {
        baud_rate: 115200,
        port_path: "/tmp/ttyV0".to_string(),
        buffer_size: 256,
        delta: Some(1),
        period: None,
    };
    assert_eq!(config.schedule_params(), None);
}
