//! The audio bridge: how long an Opus packet lasts, and how the browser's RTP
//! clock becomes Mumble's frame numbers.

use vstd::prelude::*;

use crate::mumble::voice::WebrtcVoiceData;
use crate::webrtc::audio::IncomingAudioPacket;

verus! {

/// The rate of Opus, in samples per second.
pub const OPUS_SAMPLE_RATE: u32 = 48_000;

/// The most samples that a packet may last: 120 milliseconds.
pub const MAX_OPUS_PACKET_SAMPLES: u32 = 5_760;

/// Why a packet is not Opus.
#[derive(Debug, Clone, Copy, PartialEq, Eq, Structural)]
pub enum OpusError {
    Empty,
    NoFrameCount,
    ZeroFrames,
    TooLong,
}

impl OpusError {
    pub open spec fn text(self) -> Seq<char> {
        match self {
            OpusError::Empty => "empty Opus packet"@,
            OpusError::NoFrameCount =>
                "Opus packet with VBR/CBR frame count is missing the count byte"@,
            OpusError::ZeroFrames => "Opus packet declares zero frames"@,
            OpusError::TooLong => "Opus packet duration exceeds 120ms"@,
        }
    }

    /// The error in words.
    pub fn message(&self) -> (r: String)
        ensures
            r@ == self.text(),
    {
        match self {
            OpusError::Empty => "empty Opus packet".to_owned(),
            OpusError::NoFrameCount =>
                "Opus packet with VBR/CBR frame count is missing the count byte".to_owned(),
            OpusError::ZeroFrames => "Opus packet declares zero frames".to_owned(),
            OpusError::TooLong => "Opus packet duration exceeds 120ms".to_owned(),
        }
    }
}

/// The number of frames that a packet declares, in the low two bits of its first
/// byte: one, two, or what the low six bits of the second byte say.
pub open spec fn frame_count(packet: Seq<u8>) -> Result<nat, OpusError> {
    if packet.len() == 0 {
        Err(OpusError::Empty)
    } else if packet[0] % 4 == 0 {
        Ok(1)
    } else if packet[0] % 4 != 3 {
        Ok(2)
    } else if packet.len() < 2 {
        Err(OpusError::NoFrameCount)
    } else if packet[1] % 64 == 0 {
        Err(OpusError::ZeroFrames)
    } else {
        Ok((packet[1] % 64) as nat)
    }
}

/// The samples in one frame, by the configuration in the high five bits of the
/// first byte: 2.5, 5, 10 or 20 milliseconds from 16 on, 10 or 20 from 12 on,
/// and 10, 20, 40 or 60 below.
pub open spec fn frame_samples(toc: u8) -> nat {
    let config = toc / 8;
    let size = config % 4;
    if config >= 16 {
        if size == 0 {
            120
        } else if size == 1 {
            240
        } else if size == 2 {
            480
        } else {
            960
        }
    } else if config >= 12 {
        if size % 2 == 0 {
            480
        } else {
            960
        }
    } else if size == 0 {
        480
    } else if size == 1 {
        960
    } else if size == 2 {
        1920
    } else {
        2880
    }
}

/// How many samples a packet lasts.
pub open spec fn total_samples(packet: Seq<u8>) -> Result<nat, OpusError> {
    match frame_count(packet) {
        Ok(n) => if n * frame_samples(packet[0]) > MAX_OPUS_PACKET_SAMPLES {
            Err(OpusError::TooLong)
        } else {
            Ok(n * frame_samples(packet[0]))
        },
        Err(e) => Err(e),
    }
}

/// The number of frames that a packet declares.
pub fn opus_packet_frame_count(packet: &[u8]) -> (r: Result<u8, OpusError>)
    ensures
        match r {
            Ok(n) => frame_count(packet@) == Ok::<nat, OpusError>(n as nat) && 0 < n < 64,
            Err(e) => frame_count(packet@) == Err::<nat, OpusError>(e),
        },
{
    if packet.len() == 0 {
        return Err(OpusError::Empty);
    }
    let toc: u8 = packet[0];
    let code: u8 = toc & 0x03;
    assert(toc & 0x03 == toc % 4) by (bit_vector);
    if code == 0 {
        return Ok(1);
    }
    if code == 1 || code == 2 {
        return Ok(2);
    }
    if packet.len() < 2 {
        return Err(OpusError::NoFrameCount);
    }
    let count_byte: u8 = packet[1];
    let frame_count: u8 = count_byte & 0x3F;
    assert(count_byte & 0x3F == count_byte % 64) by (bit_vector);
    if frame_count == 0 {
        return Err(OpusError::ZeroFrames);
    }
    Ok(frame_count)
}

/// The samples in one frame of a packet.
pub fn opus_packet_samples_per_frame(packet: &[u8]) -> (r: Result<u32, OpusError>)
    ensures
        match r {
            Ok(n) => packet@.len() > 0 && n == frame_samples(packet@[0]),
            Err(e) => packet@.len() == 0 && e == OpusError::Empty,
        },
{
    if packet.len() == 0 {
        return Err(OpusError::Empty);
    }
    let toc: u8 = packet[0];
    let config: u8 = toc >> 3;
    assert(toc >> 3 == toc / 8) by (bit_vector);
    let size: u8 = config & 0x03;
    assert(config & 0x03 == config % 4) by (bit_vector);
    let parity: u8 = config & 0x01;
    assert(config & 0x01 == (config % 4) % 2) by (bit_vector);
    let shifted: u32 = OPUS_SAMPLE_RATE << size;
    let shifted_once: u32 = OPUS_SAMPLE_RATE << parity;
    assert(size < 4 ==> 48_000u32 << size == if size == 0 {
        48_000u32
    } else if size == 1 {
        96_000u32
    } else if size == 2 {
        192_000u32
    } else {
        384_000u32
    }) by (bit_vector);
    assert(parity < 2 ==> 48_000u32 << parity == if parity == 0 {
        48_000u32
    } else {
        96_000u32
    }) by (bit_vector);
    let samples_per_frame: u32 = if config >= 16 {
        shifted / 400
    } else if config >= 12 {
        shifted_once / 100
    } else if size == 0x03 {
        (OPUS_SAMPLE_RATE * 60) / 1000
    } else {
        shifted / 100
    };
    Ok(samples_per_frame)
}

/// How many samples a packet lasts.
pub fn opus_packet_total_samples(packet: &[u8]) -> (r: Result<u32, OpusError>)
    ensures
        match r {
            Ok(n) => total_samples(packet@) == Ok::<nat, OpusError>(n as nat) && n
                <= MAX_OPUS_PACKET_SAMPLES,
            Err(e) => total_samples(packet@) == Err::<nat, OpusError>(e),
        },
{
    let frame_count: u32 = match opus_packet_frame_count(packet) {
        Ok(n) => n as u32,
        Err(e) => return Err(e),
    };
    let samples_per_frame: u32 = match opus_packet_samples_per_frame(packet) {
        Ok(n) => n,
        Err(e) => return Err(e),
    };
    assert(frame_count * samples_per_frame <= 64 * 2880) by (nonlinear_arith)
        requires
            frame_count <= 64,
            samples_per_frame <= 2880,
    ;
    let total_samples: u32 = frame_count * samples_per_frame;
    if total_samples > MAX_OPUS_PACKET_SAMPLES {
        return Err(OpusError::TooLong);
    }
    Ok(total_samples)
}

/// How long a packet lasts, in nanoseconds, or why that cannot be told.
pub open spec fn packet_nanos(packet: Seq<u8>) -> Result<nat, OpusError> {
    match total_samples(packet) {
        Ok(samples) => Ok((samples * 1_000_000_000) / 48_000),
        Err(e) => Err(e),
    }
}

/// How long a packet lasts, in nanoseconds.
pub fn opus_packet_duration(packet: &[u8]) -> (r: Result<u64, OpusError>)
    ensures
        match r {
            Ok(n) => packet_nanos(packet@) == Ok::<nat, OpusError>(n as nat),
            Err(e) => packet_nanos(packet@) == Err::<nat, OpusError>(e),
        },
        match r {
            Ok(n) => total_samples(packet@) matches Ok(samples) && n == (samples * 1_000_000_000)
                / 48_000,
            Err(e) => total_samples(packet@) == Err::<nat, OpusError>(e),
        },
{
    match opus_packet_total_samples(packet) {
        Ok(samples) => Ok((1_000_000_000u64 * samples as u64) / OPUS_SAMPLE_RATE as u64),
        Err(e) => Err(e),
    }
}

// From the browser to Mumble

/// How far `new` is ahead of `last` in numbers that wrap at 2^16.
pub open spec fn ahead16(last: u16, new: u16) -> int {
    (new - last) % 0x1_0000
}

/// How far `new` is ahead of `last` in numbers that wrap at 2^32.
pub open spec fn ahead32(last: u32, new: u32) -> int {
    (new - last) % 0x1_0000_0000
}

/// Turns RTP timestamps into the number of Mumble's frames, which last ten
/// milliseconds, 480 samples, each.
#[derive(Debug)]
pub struct UplinkClock {
    pub last_timestamp: Option<u32>,
    pub last_sequence: Option<u16>,
    pub frame: u64,
    pub samples: u32,
}

impl UplinkClock {
    /// Whether a packet is one that goes on from the last: neither a repeat nor
    /// late by its number, and by its time a whole number of frames later.
    pub open spec fn accepts(self, timestamp: u32, sequence: u16) -> bool {
        &&& self.last_sequence matches Some(last) ==> 0 < ahead16(last, sequence) < 0x8000
        &&& self.last_timestamp matches Some(last) ==> {
            &&& 0 < ahead32(last, timestamp) < 0x8000_0000
            &&& ahead32(last, timestamp) % 480 == 0
        }
    }

    /// The frames between the last packet and one at `timestamp`.
    pub open spec fn advance(self, timestamp: u32) -> int {
        match self.last_timestamp {
            Some(last) => ahead32(last, timestamp) / 480,
            None => 0,
        }
    }

    /// The frame number of a packet, or `None` where it is not accepted, which
    /// changes nothing.
    pub fn packet(&mut self, timestamp: u32, sequence: u16, samples: u32) -> (r: Option<u64>)
        requires
            old(self).accepts(timestamp, sequence) ==> old(self).frame + old(self).advance(
                timestamp,
            ) <= u64::MAX,
        ensures
            if old(self).accepts(timestamp, sequence) {
                &&& r == Some(final(self).frame)
                &&& *final(self) == (UplinkClock {
                    last_timestamp: Some(timestamp),
                    last_sequence: Some(sequence),
                    frame: (old(self).frame + old(self).advance(timestamp)) as u64,
                    samples,
                })
            } else {
                r is None && *final(self) == *old(self)
            },
    {
        if let Some(last) = self.last_sequence {
            let delta: u16 = sequence.wrapping_sub(last);
            assert(delta == ahead16(last, sequence));
            if delta == 0 || delta >= 0x8000 {
                return None;
            }
        }
        if let Some(last) = self.last_timestamp {
            let delta: u32 = timestamp.wrapping_sub(last);
            assert(delta == ahead32(last, timestamp));
            if delta == 0 || delta >= 0x8000_0000 || delta % 480 != 0 {
                return None;
            }
            self.frame = self.frame + (delta / 480) as u64;
        }
        self.last_timestamp = Some(timestamp);
        self.last_sequence = Some(sequence);
        self.samples = samples;
        Some(self.frame)
    }

    /// The frame behind the last packet.
    pub fn end_frame(&self) -> (r: u64)
        requires
            self.frame + self.samples / 480 <= u64::MAX,
        ensures
            r == self.frame + self.samples / 480,
    {
        self.frame + (self.samples / 480) as u64
    }
}

impl Default for UplinkClock {
    /// A clock that has seen no packet.
    fn default() -> (r: Self)
        ensures
            r == (UplinkClock {
                last_timestamp: None,
                last_sequence: None,
                frame: 0,
                samples: 0,
            }),
    {
        UplinkClock { last_timestamp: None, last_sequence: None, frame: 0, samples: 0 }
    }
}

/// Nanoseconds in a millisecond.
pub const NANOS_PER_MILLI: u64 = 1_000_000;

/// The whole milliseconds from `earlier` to `now`, none where `now` is not later.
pub open spec fn millis_between(earlier: u64, now: u64) -> int {
    if now >= earlier {
        (now - earlier) / 1_000_000
    } else {
        0
    }
}

/// The whole milliseconds from `earlier` to `now`, none where `now` is not later.
pub fn elapsed_millis(earlier: u64, now: u64) -> (r: u64)
    ensures
        r == millis_between(earlier, now),
{
    if now >= earlier {
        (now - earlier) / NANOS_PER_MILLI
    } else {
        0
    }
}

/// A packet that is older than this, in milliseconds, is dropped.
pub const MAX_AUDIO_AGE_MILLIS: u64 = 120;

/// A talk spurt ends after this silence, in milliseconds.
pub const TALK_END_MILLIS: u64 = 200;

/// What goes to Mumble.
pub struct SentView {
    pub seq_num: u64,
    pub opus_data: Seq<u8>,
    pub last_frame: bool,
}

pub open spec fn sent_view(sent: Option<WebrtcVoiceData>) -> Option<SentView> {
    match sent {
        Some(v) => Some(
            SentView {
                seq_num: v.seq_num,
                opus_data: v.opus_data@,
                last_frame: v.last_frame,
            },
        ),
        None => None,
    }
}

/// The way of sound from the browser to Mumble.
#[derive(Debug)]
pub struct Uplink {
    pub clock: UplinkClock,
    /// When the last packet went out, until the talk spurt is over.
    pub last_packet: Option<u64>,
}

impl Uplink {
    /// Whether a packet goes on to Mumble: fresh, Opus that lasts a whole number
    /// of frames, and next in line for the clock.
    pub open spec fn forwards(self, packet: IncomingAudioPacket, now: u64) -> bool {
        &&& millis_between(packet.received_at, now) <= MAX_AUDIO_AGE_MILLIS
        &&& total_samples(packet.opus_data@) is Ok
        &&& total_samples(packet.opus_data@)->Ok_0 % 480 == 0
        &&& self.clock.accepts(packet.timestamp, packet.seq_num)
    }

    /// Whether the frame numbers last for another packet and its end.
    pub open spec fn numbers_last(self) -> bool {
        self.clock.frame <= 0xffff_ffff_0000_0000
    }

    /// Whether the talk spurt has just ended.
    pub open spec fn talk_over(self, now: u64) -> bool {
        self.last_packet matches Some(last) && now >= last && now - last >= TALK_END_MILLIS
            * NANOS_PER_MILLI
    }

    /// The uplink after a packet, and what goes to Mumble of it.
    pub open spec fn after_packet(self, packet: IncomingAudioPacket, now: u64) -> (
        Uplink,
        Option<SentView>,
    ) {
        if self.forwards(packet, now) {
            let seq_num = (self.clock.frame + self.clock.advance(packet.timestamp)) as u64;
            (
                Uplink {
                    clock: UplinkClock {
                        last_timestamp: Some(packet.timestamp),
                        last_sequence: Some(packet.seq_num),
                        frame: seq_num,
                        samples: total_samples(packet.opus_data@)->Ok_0 as u32,
                    },
                    last_packet: Some(now),
                },
                Some(SentView { seq_num, opus_data: packet.opus_data@, last_frame: false }),
            )
        } else {
            (self, None)
        }
    }

    /// The uplink when time has passed, and what goes to Mumble then.
    pub open spec fn after_tick(self, now: u64) -> (Uplink, Option<SentView>) {
        if self.talk_over(now) {
            (
                Uplink { clock: self.clock, last_packet: None },
                Some(
                    SentView {
                        seq_num: (self.clock.frame + self.clock.samples / 480) as u64,
                        opus_data: Seq::empty(),
                        last_frame: true,
                    },
                ),
            )
        } else {
            (self, None)
        }
    }

    /// An uplink that has seen no packet.
    pub fn new() -> (r: Uplink)
        ensures
            r.last_packet is None,
            r.clock == (UplinkClock {
                last_timestamp: None,
                last_sequence: None,
                frame: 0,
                samples: 0,
            }),
    {
        Uplink { clock: UplinkClock::default(), last_packet: None }
    }

    /// Whether the frame numbers last for another packet and its end.
    pub fn has_room(&self) -> (r: bool)
        ensures
            r == self.numbers_last(),
    {
        self.clock.frame <= 0xffff_ffff_0000_0000
    }

    /// What of a packet from the browser goes to Mumble: its sound under the
    /// clock's frame number, or nothing, which changes nothing.
    pub fn on_packet(&mut self, packet: IncomingAudioPacket, now: u64) -> (r: Option<
        WebrtcVoiceData,
    >)
        requires
            old(self).forwards(packet, now) ==> old(self).clock.frame + old(self).clock.advance(
                packet.timestamp,
            ) <= u64::MAX,
        ensures
            (*final(self), sent_view(r)) == old(self).after_packet(packet, now),
            if old(self).forwards(packet, now) {
                &&& r matches Some(v)
                &&& v.seq_num == old(self).clock.frame + old(self).clock.advance(packet.timestamp)
                &&& v.opus_data@ == packet.opus_data@
                &&& !v.last_frame
                &&& final(self).last_packet == Some(now)
                &&& final(self).clock == (UplinkClock {
                    last_timestamp: Some(packet.timestamp),
                    last_sequence: Some(packet.seq_num),
                    frame: v.seq_num,
                    samples: total_samples(packet.opus_data@)->Ok_0 as u32,
                })
            } else {
                r is None && *final(self) == *old(self)
            },
    {
        if elapsed_millis(packet.received_at, now) > MAX_AUDIO_AGE_MILLIS {
            return None;
        }
        let samples: u32 = match opus_packet_total_samples(packet.opus_data.as_slice()) {
            Ok(samples) => samples,
            Err(_) => return None,
        };
        if samples % 480 != 0 {
            return None;
        }
        match self.clock.packet(packet.timestamp, packet.seq_num, samples) {
            Some(seq_num) => {
                self.last_packet = Some(now);
                Some(WebrtcVoiceData { seq_num, opus_data: packet.opus_data, last_frame: false })
            },
            None => None,
        }
    }

    /// What goes to Mumble when time passes: the end of a talk spurt, once, when
    /// nothing has come for a while.
    pub fn on_tick(&mut self, now: u64) -> (r: Option<WebrtcVoiceData>)
        requires
            old(self).talk_over(now) ==> old(self).clock.frame + old(self).clock.samples / 480
                <= u64::MAX,
        ensures
            (*final(self), sent_view(r)) == old(self).after_tick(now),
            if old(self).talk_over(now) {
                &&& r matches Some(v)
                &&& v.seq_num == old(self).clock.frame + old(self).clock.samples / 480
                &&& v.opus_data@ == Seq::<u8>::empty()
                &&& v.last_frame
                &&& *final(self) == (Uplink { clock: old(self).clock, last_packet: None })
            } else {
                r is None && *final(self) == *old(self)
            },
    {
        let over = match self.last_packet {
            Some(last) => now >= last && now - last >= TALK_END_MILLIS * NANOS_PER_MILLI,
            None => false,
        };
        if !over {
            return None;
        }
        let end = WebrtcVoiceData {
            seq_num: self.clock.end_frame(),
            opus_data: Vec::new(),
            last_frame: true,
        };
        self.last_packet = None;
        Some(end)
    }
}

// Laws

/// `after` is `before` with one more packet accepted.
pub open spec fn uplink_step(before: UplinkClock, after: UplinkClock) -> bool {
    &&& after.last_timestamp is Some
    &&& after.last_sequence is Some
    &&& before.accepts(after.last_timestamp->0, after.last_sequence->0)
    &&& after.frame == before.frame + before.advance(after.last_timestamp->0)
}

proof fn lemma_ahead_adds_up(x: int, t0: u32, t1: u32, t2: u32)
    requires
        x % 0x1_0000_0000 == ahead32(t0, t1),
    ensures
        (x + ahead32(t1, t2)) % 0x1_0000_0000 == ahead32(t0, t2),
{
    let m = 0x1_0000_0000int;
    vstd::arithmetic::div_mod::lemma_add_mod_noop(x, ahead32(t1, t2), m);
    vstd::arithmetic::div_mod::lemma_add_mod_noop(t1 - t0, t2 - t1, m);
    vstd::arithmetic::div_mod::lemma_mod_twice(t2 - t1, m);
}

/// Frame numbers keep the time of the stream: over any run of accepted packets
/// they grow, by 480 samples each, as the timestamps do, whatever was lost on
/// the way and however often the timestamps wrap.
pub proof fn law_frames_keep_time(clocks: Seq<UplinkClock>)
    requires
        clocks.len() > 0,
        clocks[0].last_timestamp is Some,
        forall|i: int| 0 <= i < clocks.len() - 1 ==> uplink_step(#[trigger] clocks[i], clocks[i + 1]),
    ensures
        clocks.last().last_timestamp is Some,
        clocks.last().frame >= clocks[0].frame + (clocks.len() - 1),
        ((clocks.last().frame - clocks[0].frame) * 480) % 0x1_0000_0000 == ahead32(
            clocks[0].last_timestamp->0,
            clocks.last().last_timestamp->0,
        ),
    decreases clocks.len(),
{
    if clocks.len() > 1 {
        let n = clocks.len() - 1;
        let run = clocks.drop_last();
        assert forall|i: int| 0 <= i < run.len() - 1 implies uplink_step(
            #[trigger] run[i],
            run[i + 1],
        ) by {
            assert(run[i] == clocks[i]);
        }
        law_frames_keep_time(run);
        assert(run.last() == clocks[n - 1]);
        assert(uplink_step(clocks[n - 1], clocks[n]));
        let t0 = clocks[0].last_timestamp->0;
        let t1 = clocks[n - 1].last_timestamp->0;
        let t2 = clocks[n].last_timestamp->0;
        let x = (clocks[n - 1].frame - clocks[0].frame) * 480;
        assert(clocks[n - 1].advance(t2) * 480 == ahead32(t1, t2));
        assert((clocks[n].frame - clocks[0].frame) * 480 == x + ahead32(t1, t2));
        lemma_ahead_adds_up(x, t0, t1, t2);
    }
}

/// A packet that was accepted is not accepted again, nor is one that came
/// before it.
pub proof fn law_no_repeats(after: UplinkClock, timestamp: u32, sequence: u16, old_sequence: u16)
    requires
        after.last_timestamp == Some(timestamp),
        after.last_sequence == Some(sequence),
        ahead16(old_sequence, sequence) < 0x8000,
    ensures
        forall|t: u32| !after.accepts(t, old_sequence),
        !after.accepts(timestamp, sequence),
{
    assert(ahead16(sequence, old_sequence) == 0 || ahead16(sequence, old_sequence) > 0x8000);
}

/// A talk spurt ends once: after its end the next tick is silent.
pub proof fn law_one_end_per_talk(clock: UplinkClock, now: u64)
    ensures
        !(Uplink { clock, last_packet: None }).talk_over(now),
{
}

/// The whole milliseconds between two moments: as many as fit between them, and
/// none where the second is not later.
pub proof fn law_milliseconds_are_whole(earlier: u64, now: u64)
    ensures
        now < earlier ==> millis_between(earlier, now) == 0,
        now >= earlier ==> millis_between(earlier, now) * 1_000_000 <= now - earlier < (
        millis_between(earlier, now) + 1) * 1_000_000,
{
}

/// How long a frame lasts, by the five high bits of the first byte, at 48 samples
/// per millisecond: 2.5, 5, 10 or 20 ms for the configurations from 16 on, 10 or
/// 20 ms from 12 on, and 10, 20, 40 or 60 ms below. The three low bits do not
/// matter.
pub proof fn law_frame_lengths(toc: u8)
    ensures
        toc >= 128 ==> frame_samples(toc) * 2 == 48 * (if (toc / 8) % 4 == 0 {
            5int
        } else if (toc / 8) % 4 == 1 {
            10int
        } else if (toc / 8) % 4 == 2 {
            20int
        } else {
            40int
        }),
        96 <= toc < 128 ==> frame_samples(toc) == 48 * (if (toc / 8) % 2 == 0 {
            10int
        } else {
            20int
        }),
        toc < 96 ==> frame_samples(toc) == 48 * (if (toc / 8) % 4 == 3 {
            60int
        } else if (toc / 8) % 4 == 2 {
            40int
        } else if (toc / 8) % 4 == 1 {
            20int
        } else {
            10int
        }),
{
}

/// How many frames a packet declares: one, two, or what the low six bits of the
/// second byte say. The bytes behind those do not matter, and an error comes only
/// where the count is missing or zero.
pub proof fn law_frame_counts(packet: Seq<u8>, n: nat)
    ensures
        frame_count(packet) == Ok::<nat, OpusError>(n) <==> packet.len() > 0 && (packet[0] % 4 == 0
            && n == 1 || (packet[0] % 4 == 1 || packet[0] % 4 == 2) && n == 2 || packet[0] % 4 == 3
            && packet.len() > 1 && n == packet[1] % 64 && n > 0),
        frame_count(packet) == Err::<nat, OpusError>(OpusError::Empty) <==> packet.len() == 0,
        frame_count(packet) == Err::<nat, OpusError>(OpusError::NoFrameCount) <==> packet.len()
            == 1 && packet[0] % 4 == 3,
        frame_count(packet) == Err::<nat, OpusError>(OpusError::ZeroFrames) <==> packet.len() > 1
            && packet[0] % 4 == 3 && packet[1] % 64 == 0,
        !(frame_count(packet) matches Err(OpusError::TooLong)),
{
}

/// A packet lasts as long as its frames together, up to 120 ms, 5760 samples;
/// what would last longer is refused.
pub proof fn law_packet_lengths(packet: Seq<u8>, frames: nat)
    ensures
        frame_count(packet) == Ok::<nat, OpusError>(frames) && frames * frame_samples(packet[0])
            <= 5760 ==> total_samples(packet) == Ok::<nat, OpusError>(
            frames * frame_samples(packet[0]),
        ),
        frame_count(packet) == Ok::<nat, OpusError>(frames) && frames * frame_samples(packet[0])
            > 5760 ==> total_samples(packet) == Err::<nat, OpusError>(OpusError::TooLong),
        frame_count(packet) is Err ==> total_samples(packet) == frame_count(packet),
{
}

/// A clock takes the first packet, and every later one that is ahead of the last
/// in number, by less than half of the numbers there are, and ahead in time, by a
/// whole number of frames and less than half of the time there is; and no other.
pub proof fn law_clock_takes_what_is_ahead(clock: UplinkClock, timestamp: u32, sequence: u16)
    ensures
        clock.accepts(timestamp, sequence) <==> {
            &&& clock.last_sequence matches Some(last) ==> {
                let ahead = if sequence >= last {
                    sequence - last
                } else {
                    sequence + 65536 - last
                };
                0 < ahead < 32768
            }
            &&& clock.last_timestamp matches Some(last) ==> {
                let ahead = if timestamp >= last {
                    timestamp - last
                } else {
                    timestamp + 4294967296 - last
                };
                0 < ahead < 2147483648 && ahead % 480 == 0
            }
        },
        clock.last_timestamp matches Some(last) ==> clock.advance(timestamp) == (if timestamp
            >= last {
            timestamp - last
        } else {
            timestamp + 4294967296 - last
        }) / 480,
        clock.last_timestamp is None ==> clock.advance(timestamp) == 0,
{
}

/// A packet goes on to Mumble exactly where it is at most 120 ms old, is Opus
/// that lasts a whole number of 480-sample frames, and is ahead of the last one
/// that went on, by a number below half of 2^16 and by a whole number of frames
/// below half of 2^32 samples. Whether a talk spurt is under way is not asked.
pub proof fn law_voice_goes_on_in_every_talk_spurt(
    uplink: Uplink,
    packet: IncomingAudioPacket,
    now: u64,
    other: Option<u64>,
)
    ensures
        uplink.forwards(packet, now) == (Uplink { last_packet: other, ..uplink }).forwards(
            packet,
            now,
        ),
        uplink.forwards(packet, now) <==> {
            &&& now < packet.received_at || (now - packet.received_at) / 1_000_000 <= 120
            &&& total_samples(packet.opus_data@) matches Ok(samples) && samples % 480 == 0
            &&& uplink.clock.last_sequence matches Some(last) ==> {
                let ahead = (packet.seq_num - last) % 65536;
                0 < ahead < 32768
            }
            &&& uplink.clock.last_timestamp matches Some(last) ==> {
                let ahead = (packet.timestamp - last) % 4294967296;
                0 < ahead < 2147483648 && ahead % 480 == 0
            }
        },
{
}

/// A talk spurt is over exactly where a packet went out and nothing has for
/// 200 ms.
pub proof fn law_talk_is_over_after_silence(uplink: Uplink, now: u64)
    ensures
        uplink.talk_over(now) <==> (uplink.last_packet matches Some(last) && now >= last
            + 200_000_000),
{
}

/// How long a packet lasts follows from its samples, 48 in each millisecond,
/// without a rest.
pub proof fn law_packets_last_as_their_samples(packet: Seq<u8>)
    ensures
        packet_nanos(packet) is Ok <==> total_samples(packet) is Ok,
        packet_nanos(packet) matches Err(e) ==> total_samples(packet) == Err::<nat, OpusError>(e),
        packet_nanos(packet) matches Ok(nanos) ==> nanos * 48 == total_samples(packet)->Ok_0
            * 1_000_000 && nanos <= 120_000_000,
{
    if let Ok(samples) = total_samples(packet) {
        let one = frame_samples(packet[0]);
        let count = frame_count(packet)->Ok_0;
        assert(one % 120 == 0);
        let parts = one / 120;
        assert(count * one == (count * parts) * 120) by (nonlinear_arith)
            requires
                one == parts * 120,
        ;
        assert((count * one) % 120 == 0);
    }
}

/// What goes to Mumble of a packet is its sound, unchanged and not marked as the
/// last, under a frame number that is as far behind that of the packet before as
/// the timestamps are apart. The uplink then goes on from this packet. A packet
/// of which nothing goes on leaves the uplink as it was.
pub proof fn law_sound_keeps_its_place(uplink: Uplink, packet: IncomingAudioPacket, now: u64)
    requires
        uplink.forwards(packet, now) ==> uplink.clock.frame + uplink.clock.advance(packet.timestamp)
            <= u64::MAX,
    ensures
        ({
            let (after, sent) = uplink.after_packet(packet, now);
            &&& sent is Some <==> uplink.forwards(packet, now)
            &&& sent is None ==> after == uplink
            &&& sent matches Some(v) ==> {
                &&& v.opus_data == packet.opus_data@ && !v.last_frame
                &&& uplink.clock.last_timestamp is None ==> v.seq_num == uplink.clock.frame
                &&& uplink.clock.last_timestamp matches Some(last) ==> (v.seq_num
                    - uplink.clock.frame) * 480 == (packet.timestamp - last) % 4294967296
                &&& after.clock.last_timestamp == Some(packet.timestamp)
                &&& after.clock.last_sequence == Some(packet.seq_num)
                &&& after.clock.frame == v.seq_num
                &&& total_samples(packet.opus_data@) == Ok::<nat, OpusError>(
                    after.clock.samples as nat,
                )
                &&& after.last_packet == Some(now)
            }
        }),
{
}

/// When 200 ms have passed since the last packet, and not before, one packet
/// without sound goes to Mumble that is marked as the last, with the number of
/// the frame behind the last sound. Nothing else changes: what comes later goes
/// on or is dropped, and is numbered, as if there had been no end.
pub proof fn law_end_of_talk_changes_no_later_packet(
    uplink: Uplink,
    now: u64,
    packet: IncomingAudioPacket,
    later: u64,
)
    requires
        uplink.clock.frame + uplink.clock.samples / 480 <= u64::MAX,
    ensures
        ({
            let (after, sent) = uplink.after_tick(now);
            &&& sent is Some <==> (uplink.last_packet matches Some(last) && now >= last
                + 200_000_000)
            &&& sent is None ==> after == uplink
            &&& sent matches Some(v) ==> {
                &&& v.seq_num == uplink.clock.frame + uplink.clock.samples / 480
                &&& v.opus_data.len() == 0 && v.last_frame
                &&& after.last_packet is None && after.clock == uplink.clock
            }
            &&& after.forwards(packet, later) == uplink.forwards(packet, later)
            &&& after.after_packet(packet, later).1 == uplink.after_packet(packet, later).1
        }),
{
}

/// A packet that went on does not go on again, at any time, and neither does an
/// earlier one that was overtaken.
pub proof fn law_what_went_on_goes_on_once(
    uplink: Uplink,
    packet: IncomingAudioPacket,
    now: u64,
    later: u64,
)
    requires
        uplink.forwards(packet, now),
    ensures
        !uplink.after_packet(packet, now).0.forwards(packet, later),
{
}

/// Where the frame numbers last, the next packet can be numbered, whatever its
/// timestamp is, and so can the end of the talk; they last for more than a
/// hundred million years of sound.
pub proof fn law_frame_numbers_last(uplink: Uplink, packet: IncomingAudioPacket, now: u64)
    ensures
        uplink.numbers_last() ==> uplink.clock.frame + uplink.clock.advance(packet.timestamp)
            <= u64::MAX && uplink.clock.frame + uplink.clock.samples / 480 <= u64::MAX,
        uplink.clock.frame <= 100 * 60 * 60 * 24 * 366 * 100_000_000 ==> uplink.numbers_last(),
{
}

} // verus!
