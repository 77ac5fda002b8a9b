use mumdota::bridge::{
    elapsed_millis, opus_packet_duration, opus_packet_frame_count, opus_packet_samples_per_frame,
    opus_packet_total_samples, OpusError, Uplink, UplinkClock,
};
use mumdota::webrtc::audio::IncomingAudioPacket;
use std::time::Duration;

const MILLI: u64 = 1_000_000;

#[test]
fn parses_single_frame_opus_duration() {
    let packet = [0xF8];

    let duration = opus_packet_duration(&packet).expect("duration should parse");

    assert_eq!(Duration::from_nanos(duration), Duration::from_millis(20));
}

#[test]
fn parses_two_frame_opus_duration() {
    let packet = [0xF9];

    let duration = opus_packet_duration(&packet).expect("duration should parse");

    assert_eq!(Duration::from_nanos(duration), Duration::from_millis(40));
}

#[test]
fn parses_code_three_opus_duration() {
    let packet = [0xF3, 0x03];

    let duration = opus_packet_duration(&packet).expect("duration should parse");

    assert_eq!(Duration::from_nanos(duration), Duration::from_millis(30));
}

#[test]
fn rejects_empty_opus_packets() {
    let error = opus_packet_duration(&[]).expect_err("empty packet should be invalid");

    assert!(error.message().contains("empty"));
}

#[test]
fn rejects_opus_packets_longer_than_120ms() {
    let packet = [0xF3, 0x3F];

    let error = opus_packet_duration(&packet).expect_err("oversized packet should be invalid");

    assert!(error.message().contains("120ms"));
}

#[test]
fn uplink_counts_ten_ms_frames_and_preserves_loss_dtx_and_wraparound() {
    let mut clock = UplinkClock::default();
    let start = u32::MAX - 479;
    assert_eq!(clock.packet(start, 65534, 960), Some(0));
    assert_eq!(clock.packet(start.wrapping_add(960), 65535, 1920), Some(2));
    assert_eq!(clock.packet(start.wrapping_add(2880), 0, 960), Some(6));
    assert_eq!(clock.packet(start.wrapping_add(5760), 3, 960), Some(12));
    assert_eq!(clock.packet(start.wrapping_add(4800), 2, 960), None);
    assert_eq!(clock.packet(start.wrapping_add(53760), 4, 960), Some(112));
    assert_eq!(clock.end_frame(), 114);
}

#[test]
fn frame_counts_and_sizes_of_all_configurations() {
    assert_eq!(opus_packet_frame_count(&[0x00]), Ok(1));
    assert_eq!(opus_packet_frame_count(&[0x01]), Ok(2));
    assert_eq!(opus_packet_frame_count(&[0x02]), Ok(2));
    assert_eq!(opus_packet_frame_count(&[0x03, 0xC5]), Ok(5));
    assert_eq!(opus_packet_frame_count(&[0x03]), Err(OpusError::NoFrameCount));
    assert_eq!(opus_packet_frame_count(&[0x03, 0xC0]), Err(OpusError::ZeroFrames));
    let mut sizes: Vec<u32> = Vec::new();
    for config in 0u8..32 {
        sizes.push(opus_packet_samples_per_frame(&[config << 3]).unwrap());
    }
    let mut expected: Vec<u32> = Vec::new();
    for _ in 0..3 {
        expected.extend([480, 960, 1920, 2880]);
    }
    expected.extend([480, 960, 480, 960]);
    for _ in 0..4 {
        expected.extend([120, 240, 480, 960]);
    }
    assert_eq!(sizes, expected);
    assert_eq!(opus_packet_samples_per_frame(&[]), Err(OpusError::Empty));
    assert_eq!(opus_packet_total_samples(&[0x1B, 0x02]), Ok(5760));
    assert_eq!(opus_packet_total_samples(&[0x1B, 0x03]), Err(OpusError::TooLong));
}

#[test]
fn opus_errors_in_words() {
    assert_eq!(OpusError::Empty.message(), "empty Opus packet");
    assert_eq!(
        OpusError::NoFrameCount.message(),
        "Opus packet with VBR/CBR frame count is missing the count byte"
    );
    assert_eq!(OpusError::ZeroFrames.message(), "Opus packet declares zero frames");
    assert_eq!(OpusError::TooLong.message(), "Opus packet duration exceeds 120ms");
}

#[test]
fn repeated_and_misaligned_packets_change_nothing() {
    let mut clock = UplinkClock::default();
    assert_eq!(clock.packet(1000, 7, 960), Some(0));
    assert_eq!(clock.packet(1000, 7, 960), None);
    assert_eq!(clock.packet(1960, 7, 960), None);
    assert_eq!(clock.packet(1000, 8, 960), None);
    assert_eq!(clock.packet(1001, 8, 960), None);
    assert_eq!(clock.packet(520, 8, 960), None);
    assert_eq!(clock.packet(1480, 8, 480), Some(1));
    assert_eq!(clock.end_frame(), 2);
}

fn packet(opus: &[u8], seq_num: u16, timestamp: u32, received_at: u64) -> IncomingAudioPacket {
    IncomingAudioPacket { opus_data: opus.to_vec(), seq_num, timestamp, received_at }
}

#[test]
fn uplink_forwards_fresh_whole_frames_and_ends_the_talk_once() {
    let mut uplink = Uplink::new();
    assert!(uplink.has_room());
    let first = uplink.on_packet(packet(&[0xF8, 1], 1, 0, 0), 120 * MILLI).unwrap();
    assert_eq!((first.seq_num, first.last_frame), (0, false));
    assert_eq!(first.opus_data, vec![0xF8, 1]);
    // 121 ms old, and 2.5 ms long
    assert!(uplink.on_packet(packet(&[0xF8], 2, 960, 0), 121 * MILLI).is_none());
    assert!(uplink.on_packet(packet(&[0xE0], 2, 960, 121 * MILLI), 121 * MILLI).is_none());
    assert!(uplink.on_packet(packet(&[], 2, 960, 121 * MILLI), 121 * MILLI).is_none());
    let second = uplink.on_packet(packet(&[0xF8], 2, 1920, 140 * MILLI), 140 * MILLI).unwrap();
    assert_eq!(second.seq_num, 4);
    assert!(uplink.on_tick(339 * MILLI).is_none());
    let end = uplink.on_tick(340 * MILLI).unwrap();
    assert_eq!((end.seq_num, end.last_frame, end.opus_data.len()), (6, true, 0));
    assert!(uplink.on_tick(1000 * MILLI).is_none());
}

#[test]
fn milliseconds_round_down_and_never_run_backwards() {
    assert_eq!(elapsed_millis(0, 1_999_999), 1);
    assert_eq!(elapsed_millis(5, 3), 0);
}
