//! One RTP track, with a clock of its own, for each Mumble speaker.

use vstd::prelude::*;

use std::collections::HashMap;

use crate::bridge::{
    elapsed_millis, millis_between, opus_packet_total_samples, total_samples, OpusError,
    MAX_AUDIO_AGE_MILLIS,
};
use crate::mumble::voice::MumbleVoiceData;
use crate::text::{decimal, decimal_string, law_decimal_reads_back};

verus! {

/// A silence longer than this, in milliseconds, begins a new talk spurt.
pub const TALK_GAP_MILLIS: u64 = 500;

/// Turns the frame numbers of one speaker into RTP sequence numbers and
/// timestamps. Times are in nanoseconds of one clock.
#[derive(Debug, Clone, Copy, PartialEq, Eq, Structural)]
pub struct MediaClock {
    pub last_frame: Option<u64>,
    pub timestamp: u32,
    pub sequence: u16,
    pub samples: u32,
    pub ended: bool,
    pub received_at: Option<u64>,
}

/// `n` in numbers that wrap at 2^32.
pub open spec fn wrap32(n: int) -> u32 {
    (n % 0x1_0000_0000) as u32
}

impl MediaClock {
    /// A clock that has seen no frame.
    pub open spec fn fresh() -> MediaClock {
        MediaClock {
            last_frame: None,
            timestamp: 0,
            sequence: 0,
            samples: 0,
            ended: false,
            received_at: None,
        }
    }

    /// Whether a frame at `now` begins a talk spurt: it is the first one, the
    /// last one was the end of a spurt, or there was a silence.
    pub open spec fn new_talk(self, now: u64) -> bool {
        ||| self.last_frame is None
        ||| self.ended
        ||| self.received_at matches Some(last) && millis_between(last, now) > TALK_GAP_MILLIS
    }

    /// Whether a frame is sent on: inside of a spurt, late and repeated frames
    /// are not.
    pub open spec fn accepts(self, frame: u64, now: u64) -> bool {
        self.new_talk(now) || (self.last_frame matches Some(last) && frame > last)
    }

    /// How far the timestamp moves: inside of a spurt by 480 for each frame
    /// number; between spurts by the time that has passed, `elapsed` samples,
    /// and at least by the length of the last packet.
    pub open spec fn advance(self, frame: u64, now: u64, elapsed: u32) -> int {
        match self.last_frame {
            None => 0,
            Some(last) => if self.new_talk(now) {
                let passed: u32 = if self.received_at is Some {
                    elapsed
                } else {
                    0
                };
                if passed > self.samples {
                    passed as int
                } else {
                    self.samples as int
                }
            } else {
                (frame - last) * 480
            },
        }
    }

    /// The clock after an accepted frame.
    pub open spec fn after(
        self,
        frame: u64,
        samples: u32,
        ended: bool,
        now: u64,
        elapsed: u32,
    ) -> MediaClock {
        MediaClock {
            last_frame: Some(frame),
            timestamp: wrap32(self.timestamp + self.advance(frame, now, elapsed)),
            sequence: ((self.sequence + 1) % 0x1_0000) as u16,
            samples,
            ended,
            received_at: Some(now),
        }
    }

    /// The sequence number, the timestamp and the mark of a new spurt for a
    /// frame, or `None` where it is not sent on, which changes nothing.
    /// `elapsed` is the time since the last packet, in samples.
    pub fn packet(&mut self, frame: u64, samples: u32, ended: bool, now: u64, elapsed: u32) -> (r:
        Option<(u16, u32, bool)>)
        ensures
            if old(self).accepts(frame, now) {
                &&& *final(self) == old(self).after(frame, samples, ended, now, elapsed)
                &&& r == Some(
                    (final(self).sequence, final(self).timestamp, old(self).new_talk(now)),
                )
            } else {
                r is None && *final(self) == *old(self)
            },
    {
        let silent = match self.received_at {
            Some(last) => elapsed_millis(last, now) > TALK_GAP_MILLIS,
            None => false,
        };
        let new_talk = self.last_frame.is_none() || self.ended || silent;
        if let Some(last) = self.last_frame {
            if new_talk {
                let passed: u32 = if self.received_at.is_some() {
                    elapsed
                } else {
                    0
                };
                let step: u32 = if passed > self.samples {
                    passed
                } else {
                    self.samples
                };
                self.timestamp = self.timestamp.wrapping_add(step);
            } else {
                if frame <= last {
                    return None;
                }
                let step: u32 = frames_to_samples(frame - last);
                let ghost timestamp = self.timestamp;
                self.timestamp = self.timestamp.wrapping_add(step);
                proof {
                    vstd::arithmetic::div_mod::lemma_add_mod_noop(
                        timestamp as int,
                        (frame - last) * 480,
                        0x1_0000_0000,
                    );
                }
            }
        }
        self.last_frame = Some(frame);
        self.samples = samples;
        self.ended = ended;
        self.received_at = Some(now);
        self.sequence = self.sequence.wrapping_add(1);
        Some((self.sequence, self.timestamp, new_talk))
    }
}

/// The samples in `frames` frames, in numbers that wrap at 2^32.
fn frames_to_samples(frames: u64) -> (r: u32)
    ensures
        r == (frames * 480) % 0x1_0000_0000,
{
    let product: u64 = frames.wrapping_mul(480);
    let r: u32 = #[verifier::truncate] (product as u32);
    assert(product as u32 == product % 0x1_0000_0000) by (bit_vector);
    proof {
        vstd::arithmetic::div_mod::lemma_mod_mod(
            frames as int * 480,
            0x1_0000_0000,
            0x1_0000_0000,
        );
    }
    r
}

impl Default for MediaClock {
    /// A clock that has seen no frame.
    fn default() -> (r: Self)
        ensures
            r == MediaClock::fresh(),
    {
        MediaClock {
            last_frame: None,
            timestamp: 0,
            sequence: 0,
            samples: 0,
            ended: false,
            received_at: None,
        }
    }
}

/// An RTP packet for a speaker's track.
#[derive(Debug)]
pub struct SpeakerPacket {
    pub sequence_number: u16,
    pub timestamp: u32,
    pub marker: bool,
    pub payload: Vec<u8>,
}

/// The speakers that have a track, each with its clock.
pub struct SpeakerTracks {
    speakers: HashMap<u32, MediaClock>,
}

impl View for SpeakerTracks {
    type V = Map<u32, MediaClock>;

    closed spec fn view(&self) -> Map<u32, MediaClock> {
        self.speakers@
    }
}

/// What is written of a speaker's voice, and the clocks afterwards.
pub open spec fn written(
    clocks: Map<u32, MediaClock>,
    data: MumbleVoiceData,
    now: u64,
    elapsed: u32,
) -> (Map<u32, MediaClock>, Result<Option<(u16, u32, bool)>, OpusError>) {
    if millis_between(data.received_at, now) > MAX_AUDIO_AGE_MILLIS || !clocks.dom().contains(
        data.session_id,
    ) {
        (clocks, Ok(None))
    } else {
        let clock = clocks[data.session_id];
        if data.opus_data@.len() == 0 {
            (
                clocks.insert(
                    data.session_id,
                    MediaClock { ended: clock.ended || data.last_frame, ..clock },
                ),
                Ok(None),
            )
        } else {
            match total_samples(data.opus_data@) {
                Err(e) => (clocks, Err(e)),
                Ok(samples) => if clock.accepts(data.seq_num, now) {
                    let after = clock.after(
                        data.seq_num,
                        samples as u32,
                        data.last_frame,
                        now,
                        elapsed,
                    );
                    (
                        clocks.insert(data.session_id, after),
                        Ok(Some((after.sequence, after.timestamp, clock.new_talk(now)))),
                    )
                } else {
                    (clocks, Ok(None))
                },
            }
        }
    }
}

/// The clocks when a speaker has been given a track.
pub open spec fn with_track(clocks: Map<u32, MediaClock>, session: u32) -> Map<u32, MediaClock> {
    if clocks.dom().contains(session) {
        clocks
    } else {
        clocks.insert(session, MediaClock::fresh())
    }
}

/// The clocks when a speaker's track has been taken away.
pub open spec fn without_track(clocks: Map<u32, MediaClock>, session: u32) -> Map<u32, MediaClock> {
    clocks.remove(session)
}

impl SpeakerTracks {
    /// No speakers.
    pub fn new() -> (r: SpeakerTracks)
        ensures
            r@ == Map::<u32, MediaClock>::empty(),
    {
        SpeakerTracks { speakers: HashMap::new() }
    }

    /// Whether the speaker has a track.
    pub fn contains(&self, session: u32) -> (r: bool)
        ensures
            r == self@.dom().contains(session),
    {
        broadcast use vstd::std_specs::hash::group_hash_axioms;

        self.speakers.contains_key(&session)
    }

    /// When the speaker was last heard, if they were.
    pub fn last_heard(&self, session: u32) -> (r: Option<u64>)
        ensures
            r == if self@.dom().contains(session) {
                self@[session].received_at
            } else {
                None
            },
    {
        broadcast use vstd::std_specs::hash::group_hash_axioms;

        match self.speakers.get(&session) {
            Some(clock) => clock.received_at,
            None => None,
        }
    }

    /// Gives a speaker a track with a fresh clock; one who has a track keeps it.
    /// Tells whether the track is new.
    pub fn add(&mut self, session: u32) -> (r: bool)
        ensures
            r == !old(self)@.dom().contains(session),
            final(self)@ == with_track(old(self)@, session),
    {
        broadcast use vstd::std_specs::hash::group_hash_axioms;

        if self.speakers.contains_key(&session) {
            return false;
        }
        self.speakers.insert(session, MediaClock::default());
        true
    }

    /// Takes a speaker's track away. Tells whether there was one.
    pub fn remove(&mut self, session: u32) -> (r: bool)
        ensures
            r == old(self)@.dom().contains(session),
            final(self)@ == without_track(old(self)@, session),
    {
        broadcast use vstd::std_specs::hash::group_hash_axioms;

        self.speakers.remove(&session).is_some()
    }

    /// The packet that carries a speaker's voice on, if it is to be sent.
    /// `elapsed` is the time since the speaker was last heard, in samples.
    pub fn write(&mut self, data: MumbleVoiceData, now: u64, elapsed: u32) -> (r: Result<
        Option<SpeakerPacket>,
        OpusError,
    >)
        ensures
            final(self)@ == written(old(self)@, data, now, elapsed).0,
            match written(old(self)@, data, now, elapsed).1 {
                Err(e) => r == Err::<Option<SpeakerPacket>, OpusError>(e),
                Ok(None) => r == Ok::<Option<SpeakerPacket>, OpusError>(None),
                Ok(Some(header)) => r matches Ok(Some(p)) && (
                    p.sequence_number,
                    p.timestamp,
                    p.marker,
                ) == header && p.payload@ == data.opus_data@,
            },
    {
        broadcast use vstd::std_specs::hash::group_hash_axioms;

        if elapsed_millis(data.received_at, now) > MAX_AUDIO_AGE_MILLIS {
            return Ok(None);
        }
        let mut clock: MediaClock = match self.speakers.get(&data.session_id) {
            Some(clock) => *clock,
            None => return Ok(None),
        };
        if data.opus_data.len() == 0 {
            clock.ended = clock.ended || data.last_frame;
            self.speakers.insert(data.session_id, clock);
            return Ok(None);
        }
        let samples: u32 = match opus_packet_total_samples(data.opus_data.as_slice()) {
            Ok(samples) => samples,
            Err(e) => return Err(e),
        };
        match clock.packet(data.seq_num, samples, data.last_frame, now, elapsed) {
            Some((sequence_number, timestamp, marker)) => {
                self.speakers.insert(data.session_id, clock);
                Ok(
                    Some(
                        SpeakerPacket {
                            sequence_number,
                            timestamp,
                            marker,
                            payload: data.opus_data,
                        },
                    ),
                )
            },
            None => Ok(None),
        }
    }
}

/// The name of a speaker's track.
pub open spec fn track_name(session: u32) -> Seq<char> {
    "mumble-user-"@ + decimal(session as nat)
}

/// The name of a speaker's stream.
pub open spec fn stream_name(session: u32) -> Seq<char> {
    "mumble-stream-"@ + decimal(session as nat)
}

/// The names of a speaker's track and stream.
pub fn track_names(session: u32) -> (r: (String, String))
    ensures
        r.0@ == track_name(session),
        r.1@ == stream_name(session),
{
    let number = decimal_string(session as u64);
    let mut track = "mumble-user-".to_owned();
    track.append(number.as_str());
    let mut stream = "mumble-stream-".to_owned();
    stream.append(number.as_str());
    (track, stream)
}

// Laws

/// The voice of one speaker leaves the clocks of all others alone.
pub proof fn law_clocks_are_independent(
    clocks: Map<u32, MediaClock>,
    data: MumbleVoiceData,
    now: u64,
    elapsed: u32,
    other: u32,
)
    requires
        other != data.session_id,
    ensures
        written(clocks, data, now, elapsed).0.dom() == clocks.dom(),
        written(clocks, data, now, elapsed).0[other] == clocks[other],
{
    assert(written(clocks, data, now, elapsed).0.dom() =~= clocks.dom());
}

/// Inside of a talk spurt, frames that are missing leave a gap of their length:
/// the timestamps are as far apart as the frame numbers.
pub proof fn law_gaps_are_kept(
    clock: MediaClock,
    frame: u64,
    samples: u32,
    ended: bool,
    now: u64,
    elapsed: u32,
)
    requires
        clock.accepts(frame, now),
        !clock.new_talk(now),
    ensures
        clock.after(frame, samples, ended, now, elapsed).timestamp == wrap32(
            clock.timestamp + (frame - clock.last_frame->0) * 480,
        ),
        frame > clock.last_frame->0,
{
}

/// The RTP clock goes on over a pause: a new talk spurt begins no earlier than
/// where the last packet ended, and as much later as time has passed.
pub proof fn law_clock_goes_on_over_pauses(
    clock: MediaClock,
    frame: u64,
    samples: u32,
    ended: bool,
    now: u64,
    elapsed: u32,
)
    requires
        clock.last_frame is Some,
        clock.received_at is Some,
        clock.new_talk(now),
    ensures
        clock.accepts(frame, now),
        exists|step: int|
            {
                &&& step >= clock.samples
                &&& step >= elapsed
                &&& (step == clock.samples || step == elapsed)
                &&& #[trigger] wrap32(clock.timestamp + step) == clock.after(
                    frame,
                    samples,
                    ended,
                    now,
                    elapsed,
                ).timestamp
            },
{
    let step = clock.advance(frame, now, elapsed);
    assert(wrap32(clock.timestamp + step) == clock.after(
        frame,
        samples,
        ended,
        now,
        elapsed,
    ).timestamp);
}

/// Every packet of a track has the sequence number behind the one before.
pub proof fn law_sequence_numbers_follow(
    clock: MediaClock,
    frame: u64,
    samples: u32,
    ended: bool,
    now: u64,
    elapsed: u32,
)
    requires
        clock.accepts(frame, now),
    ensures
        clock.after(frame, samples, ended, now, elapsed).sequence == (clock.sequence + 1)
            % 0x1_0000,
{
}

/// A talk spurt begins with the first frame, after the end of one, and after more
/// than 500 ms of silence; and at no other time.
pub proof fn law_talk_begins(clock: MediaClock, now: u64)
    ensures
        clock.new_talk(now) <==> {
            ||| clock.last_frame is None
            ||| clock.ended
            ||| clock.received_at matches Some(last) && now >= last && (now - last) / 1_000_000
                > 500
        },
{
}

/// Inside of a talk spurt every frame behind the last one is sent on, however
/// many are missing in between, and no other; the timestamp moves by 480 for each
/// frame number. A talk spurt can begin with any frame number.
pub proof fn law_every_later_frame_is_sent_on(
    clock: MediaClock,
    frame: u64,
    samples: u32,
    ended: bool,
    now: u64,
    elapsed: u32,
)
    ensures
        clock.last_frame matches Some(last) && frame > last ==> clock.accepts(frame, now),
        clock.last_frame matches Some(last) && frame <= last && !clock.ended && (
        clock.received_at matches Some(at) ==> now < at || (now - at) / 1_000_000 <= 500)
            ==> !clock.accepts(frame, now),
        clock.last_frame is None || clock.ended ==> clock.accepts(frame, now),
        clock.received_at matches Some(at) && now >= at && (now - at) / 1_000_000 > 500
            ==> clock.accepts(frame, now),
        !clock.ended && (clock.received_at matches Some(at) ==> now < at || (now - at) / 1_000_000
            <= 500) ==> (clock.last_frame matches Some(last) ==> (frame > last ==> clock.after(
            frame,
            samples,
            ended,
            now,
            elapsed,
        ).timestamp as int == (clock.timestamp + (frame - last) * 480) % 4294967296)),
{
}

/// After a pause the timestamp moves by the time that has passed or by the length
/// of the last packet, whichever is more; the first frame leaves it alone.
pub proof fn law_timestamp_after_a_pause(
    clock: MediaClock,
    frame: u64,
    samples: u32,
    ended: bool,
    now: u64,
    elapsed: u32,
)
    ensures
        clock.last_frame is Some && clock.received_at is Some && clock.ended ==> clock.after(
            frame,
            samples,
            ended,
            now,
            elapsed,
        ).timestamp as int == (clock.timestamp + if elapsed > clock.samples {
            elapsed
        } else {
            clock.samples
        }) % 4294967296,
        clock.last_frame is Some && (clock.received_at matches Some(at) && now >= at && (now - at)
            / 1_000_000 > 500) ==> clock.after(frame, samples, ended, now, elapsed).timestamp as int
            == (clock.timestamp + if elapsed > clock.samples {
            elapsed
        } else {
            clock.samples
        }) % 4294967296,
        clock.last_frame is None ==> clock.after(frame, samples, ended, now, elapsed).timestamp
            == clock.timestamp,
        clock.last_frame is Some && clock.received_at is None && clock.ended ==> clock.after(
            frame,
            samples,
            ended,
            now,
            elapsed,
        ).timestamp as int == (clock.timestamp + clock.samples) % 4294967296,
{
}

/// A clock remembers the frame that it has sent on: its number, its length,
/// whether it ended the talk spurt, and when it came; and the sequence numbers
/// count up by one.
pub proof fn law_clock_remembers_the_frame(
    clock: MediaClock,
    frame: u64,
    samples: u32,
    ended: bool,
    now: u64,
    elapsed: u32,
)
    ensures
        clock.after(frame, samples, ended, now, elapsed).last_frame == Some(frame),
        clock.after(frame, samples, ended, now, elapsed).samples == samples,
        clock.after(frame, samples, ended, now, elapsed).ended == ended,
        clock.after(frame, samples, ended, now, elapsed).received_at == Some(now),
        clock.sequence < 65535 ==> clock.after(frame, samples, ended, now, elapsed).sequence
            == clock.sequence + 1,
        clock.sequence == 65535 ==> clock.after(frame, samples, ended, now, elapsed).sequence == 0,
        MediaClock::fresh().last_frame is None && MediaClock::fresh().received_at is None
            && !MediaClock::fresh().ended && MediaClock::fresh().timestamp == 0
            && MediaClock::fresh().sequence == 0,
{
}

/// Voice that is at most 120 ms old, of a speaker who has a track, is written
/// where it is Opus that the speaker's clock takes; the clock then goes on.
/// Nothing of it is written in any other case, and the clock stays.
pub proof fn law_voice_reaches_its_track(
    clocks: Map<u32, MediaClock>,
    data: MumbleVoiceData,
    now: u64,
    elapsed: u32,
)
    requires
        clocks.dom().contains(data.session_id),
        now < data.received_at || (now - data.received_at) / 1_000_000 <= 120,
        data.opus_data@.len() > 0,
    ensures
        ({
            let clock = clocks[data.session_id];
            let (after, result) = written(clocks, data, now, elapsed);
            match total_samples(data.opus_data@) {
                Ok(samples) => if clock.accepts(data.seq_num, now) {
                    &&& after[data.session_id] == clock.after(
                        data.seq_num,
                        samples as u32,
                        data.last_frame,
                        now,
                        elapsed,
                    )
                    &&& result == Ok::<_, OpusError>(
                        Some(
                            (
                                after[data.session_id].sequence,
                                after[data.session_id].timestamp,
                                clock.new_talk(now),
                            ),
                        ),
                    )
                } else {
                    after == clocks && result == Ok::<Option<(u16, u32, bool)>, OpusError>(None)
                },
                Err(e) => after == clocks && result == Err::<Option<(u16, u32, bool)>, _>(e),
            }
        }),
{
}

/// A packet without sound writes nothing. It ends the talk spurt where it says
/// so, and changes nothing else of the speaker's clock.
pub proof fn law_silence_can_end_a_talk(
    clocks: Map<u32, MediaClock>,
    data: MumbleVoiceData,
    now: u64,
    elapsed: u32,
)
    requires
        clocks.dom().contains(data.session_id),
        now < data.received_at || (now - data.received_at) / 1_000_000 <= 120,
        data.opus_data@.len() == 0,
    ensures
        ({
            let clock = clocks[data.session_id];
            let after = written(clocks, data, now, elapsed).0[data.session_id];
            &&& written(clocks, data, now, elapsed).1 == Ok::<Option<(u16, u32, bool)>, OpusError>(
                None,
            )
            &&& data.last_frame ==> after.ended
            &&& !data.last_frame ==> after.ended == clock.ended
            &&& after.last_frame == clock.last_frame && after.received_at == clock.received_at
            &&& after.timestamp == clock.timestamp && after.sequence == clock.sequence
            &&& after.samples == clock.samples
        }),
{
}

/// Voice of somebody without a track, and voice that is more than 120 ms old, is
/// dropped and changes nothing.
pub proof fn law_stale_voice_is_dropped(
    clocks: Map<u32, MediaClock>,
    data: MumbleVoiceData,
    now: u64,
    elapsed: u32,
)
    requires
        !clocks.dom().contains(data.session_id) || (now >= data.received_at && (now
            - data.received_at) / 1_000_000 > 120),
    ensures
        written(clocks, data, now, elapsed) == (
            clocks,
            Ok::<Option<(u16, u32, bool)>, OpusError>(None),
        ),
{
}

/// A speaker who gets a track begins with a clock that has seen nothing; who has
/// one keeps it and its clock. A track that is taken away is gone. Nobody else's
/// clock is touched, and who comes back begins anew.
pub proof fn law_tracks_come_and_go(clocks: Map<u32, MediaClock>, session: u32, other: u32)
    ensures
        with_track(clocks, session).dom().contains(session),
        clocks.dom().contains(session) ==> with_track(clocks, session)[session] == clocks[session],
        !clocks.dom().contains(session) ==> with_track(clocks, session)[session].last_frame is None
            && with_track(clocks, session)[session].received_at is None && with_track(
            clocks,
            session,
        )[session].timestamp == 0 && with_track(clocks, session)[session].sequence == 0,
        !without_track(clocks, session).dom().contains(session),
        other != session ==> {
            &&& with_track(clocks, session).dom().contains(other) == clocks.dom().contains(other)
            &&& without_track(clocks, session).dom().contains(other) == clocks.dom().contains(other)
            &&& clocks.dom().contains(other) ==> with_track(clocks, session)[other]
                == clocks[other] && without_track(clocks, session)[other] == clocks[other]
        },
        with_track(without_track(clocks, session), session)[session] == MediaClock::fresh(),
{
}

/// A speaker's track and stream are named after their number, so that no two
/// speakers share a name.
pub proof fn law_tracks_have_their_own_names(a: u32, b: u32)
    ensures
        track_name(a) == "mumble-user-"@ + decimal(a as nat),
        stream_name(a) == "mumble-stream-"@ + decimal(a as nat),
        track_name(a) == track_name(b) ==> a == b,
        stream_name(a) == stream_name(b) ==> a == b,
{
    law_decimal_reads_back(a as nat);
    law_decimal_reads_back(b as nat);
    if track_name(a) == track_name(b) {
        let n = "mumble-user-"@.len() as int;
        assert(track_name(a).skip(n) =~= decimal(a as nat));
        assert(track_name(b).skip(n) =~= decimal(b as nat));
    }
    if stream_name(a) == stream_name(b) {
        let n = "mumble-stream-"@.len() as int;
        assert(stream_name(a).skip(n) =~= decimal(a as nat));
        assert(stream_name(b).skip(n) =~= decimal(b as nat));
    }
}

} // verus!
