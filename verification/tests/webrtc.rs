use mumdota::bridge::OpusError;
use mumdota::config::WebrtcConfig;
use mumdota::mumble::voice::MumbleVoiceData;
use mumdota::net::Ipv4Addr;
use mumdota::webrtc::audio::{accepts_track, keep_reading, Delivery};
use mumdota::webrtc::speakers::{track_names, MediaClock, SpeakerTracks};
use mumdota::webrtc::{
    media_settings, CandidateError, IceCandidateInit, PeerState, SignalingState, WebrtcSession,
};

use webrtc::peer_connection::sdp::sdp_type::RTCSdpType;

const MILLI: u64 = 1_000_000;

/// The time between two moments, in samples.
fn samples(earlier: u64, now: u64) -> u32 {
    ((now - earlier) as f64 / 1e9 * 48000.0) as u32
}

#[test]
fn speakers_keep_independent_clocks_and_preserve_gaps() {
    let now = 1_000 * MILLI;
    let mut a = MediaClock::default();
    let mut b = MediaClock::default();
    assert_eq!(a.packet(100, 960, false, now, 0).unwrap().1, 0);
    assert_eq!(b.packet(5, 960, false, now, 0).unwrap().1, 0);
    assert_eq!(
        a.packet(102, 960, false, now + 20 * MILLI, samples(now, now + 20 * MILLI)).unwrap().1,
        960
    );
    assert_eq!(
        b.packet(9, 960, false, now + 40 * MILLI, samples(now, now + 40 * MILLI)).unwrap().1,
        1920
    );
    assert!(a
        .packet(101, 960, false, now + 30 * MILLI, samples(now + 20 * MILLI, now + 30 * MILLI))
        .is_none());
}

#[test]
fn talk_restart_uses_a_continuous_rtp_clock() {
    let now = 1_000 * MILLI;
    let mut clock = MediaClock::default();
    clock.packet(10, 960, true, now, 0).unwrap();
    let later = now + 1_000 * MILLI;
    let (_, timestamp, marker) = clock.packet(0, 960, false, later, samples(now, later)).unwrap();
    assert_eq!(timestamp, 48000);
    assert!(marker);
}

#[test]
fn a_new_talk_begins_behind_the_last_packet() {
    let mut clock = MediaClock::default();
    assert_eq!(clock.packet(10, 2880, true, 0, 0), Some((1, 0, true)));
    assert_eq!(clock.packet(3, 960, false, 10 * MILLI, 480), Some((2, 2880, true)));
    assert_eq!(clock.packet(3, 960, false, 20 * MILLI, 480), None);
    assert_eq!(clock.packet(5, 960, false, 510 * MILLI, 24000), Some((3, 3840, false)));
    assert_eq!(clock.packet(4, 960, false, 1011 * MILLI, 24048), Some((4, 27888, true)));
}

fn voice(session_id: u32, seq_num: u64, opus: &[u8], last_frame: bool) -> MumbleVoiceData {
    MumbleVoiceData {
        session_id,
        seq_num,
        opus_data: opus.to_vec(),
        last_frame,
        received_at: 1_000 * MILLI,
    }
}

#[test]
fn speakers_are_written_to_their_tracks() {
    let now = 1_000 * MILLI;
    let mut tracks = SpeakerTracks::new();
    assert!(tracks.write(voice(1, 5, &[0xF8], false), now, 0).unwrap().is_none());
    assert!(tracks.add(1) && tracks.add(2) && !tracks.add(1));
    assert!(tracks.contains(1) && !tracks.contains(3));
    let p = tracks.write(voice(1, 5, &[0xF8, 9], false), now, 0).unwrap().unwrap();
    assert_eq!((p.sequence_number, p.timestamp, p.marker), (1, 0, true));
    assert_eq!(p.payload, vec![0xF8, 9]);
    let p = tracks.write(voice(1, 7, &[0xF8], false), now + 20 * MILLI, 960).unwrap().unwrap();
    assert_eq!((p.sequence_number, p.timestamp, p.marker), (2, 960, false));
    assert_eq!(tracks.last_heard(1), Some(now + 20 * MILLI));
    assert_eq!(tracks.last_heard(2), None);
    // too old, and not Opus
    assert!(tracks.write(voice(1, 9, &[0xF8], false), now + 121 * MILLI, 0).unwrap().is_none());
    assert_eq!(tracks.write(voice(1, 9, &[3], false), now, 0).err(), Some(OpusError::NoFrameCount));
    // an empty packet ends the talk
    assert!(tracks.write(voice(1, 9, &[], true), now + 40 * MILLI, 960).unwrap().is_none());
    let p = tracks.write(voice(1, 1, &[0xF8], false), now + 60 * MILLI, 1920).unwrap().unwrap();
    assert_eq!((p.timestamp, p.marker), (2880, true));
    assert!(tracks.remove(1) && !tracks.remove(1));
    assert_eq!(
        track_names(10),
        ("mumble-user-10".to_string(), "mumble-stream-10".to_string())
    );
}

#[test]
fn only_opus_is_listened_to() {
    assert!(accepts_track(true, "audio/opus"));
    assert!(accepts_track(true, "AUDIO/Opus"));
    assert!(!accepts_track(false, "audio/opus"));
    assert!(!accepts_track(true, "audio/PCMU"));
    assert!(keep_reading(Delivery::Sent) && keep_reading(Delivery::Full));
    assert!(!keep_reading(Delivery::Closed));
}

fn candidate(name: &str) -> IceCandidateInit {
    IceCandidateInit { candidate: name.to_string(), sdp_mid: None, sdp_mline_index: None }
}

#[test]
fn offers_wait_for_the_start_and_for_the_answer() {
    let mut session = WebrtcSession::new();
    assert_eq!(session.offer(true, SignalingState::Stable), None);
    session.start();
    assert_eq!(session.offer(false, SignalingState::Stable), Some(true));
    session.offer_created();
    assert_eq!(session.offer(false, SignalingState::HaveLocalOffer), None);
    let (waiting, due) = session.answer();
    assert!(waiting.is_empty() && due);
    assert_eq!(session.offer(false, SignalingState::Stable), Some(false));
    session.offer_created();
    assert!(!session.answer().1);
}

#[test]
fn descriptions_are_read_as_what_they_are() {
    let session = WebrtcSession::new();
    let sdp = "v=0\r\no=- 1 1 IN IP4 0.0.0.0\r\ns=-\r\nt=0 0\r\n";
    let answer = session.remote_answer(sdp).unwrap();
    let offer = session.remote_offer(sdp).unwrap();
    assert_eq!((answer.sdp.as_str(), offer.sdp.as_str()), (sdp, sdp));
    assert_eq!(answer.sdp_type, RTCSdpType::Answer);
    assert_eq!(offer.sdp_type, RTCSdpType::Offer);
    for bad in ["", "v=1\r\n", "hello", "v=0\r\no=x\r\n"] {
        assert!(session.remote_answer(bad).is_err());
        assert!(session.remote_offer(bad).is_err());
    }
}

#[test]
fn candidates_wait_for_the_answer_in_order() {
    let mut session = WebrtcSession::new();
    let stable = SignalingState::Stable;
    assert!(session.add_ice_candidate(candidate("a"), false, stable).unwrap().is_none());
    assert!(session
        .add_ice_candidate(candidate("b"), true, SignalingState::HaveLocalOffer)
        .unwrap()
        .is_none());
    let now = session.add_ice_candidate(candidate("c"), true, stable).unwrap().unwrap();
    assert_eq!(now.candidate, "c");
    let names: Vec<String> = session.answer().0.into_iter().map(|c| c.candidate).collect();
    assert_eq!(names, vec!["a", "b"]);
    assert!(session.answer().0.is_empty());
}

#[test]
fn too_many_candidates_are_refused() {
    let mut session = WebrtcSession::new();
    for _ in 0..128 {
        assert!(session.add_ice_candidate(candidate("a"), false, SignalingState::Other).is_ok());
    }
    let refused = session.add_ice_candidate(candidate("a"), false, SignalingState::Other);
    assert_eq!(refused.unwrap_err(), CandidateError::TooMany);
    assert_eq!(CandidateError::TooMany.message(), "too many pending ICE candidates");
    assert_eq!(session.answer().0.len(), 128);
}

#[test]
fn the_media_socket_is_announced_as_configured() {
    let config = |public_ip: Option<Ipv4Addr>| WebrtcConfig {
        stun_servers: vec![],
        udp_port: 50000,
        public_ip,
    };
    let settings = media_settings(&config(Some(Ipv4Addr::new(198, 51, 100, 9))), false);
    assert_eq!(settings.public_ip.as_deref(), Some("198.51.100.9"));
    assert!(!settings.include_loopback && settings.udp_port == 50000);
    assert!(media_settings(&config(Some(Ipv4Addr::localhost())), false).include_loopback);
    assert!(media_settings(&config(None), true).include_loopback);
    assert!(media_settings(&config(None), false).public_ip.is_none());
}

#[test]
fn peer_states_in_words() {
    let words = [
        (PeerState::Unspecified, "Unspecified"),
        (PeerState::New, "new"),
        (PeerState::Connecting, "connecting"),
        (PeerState::Connected, "connected"),
        (PeerState::Disconnected, "disconnected"),
        (PeerState::Failed, "failed"),
        (PeerState::Closed, "closed"),
    ];
    for (state, text) in words {
        assert_eq!(state.name(), text);
    }
}
