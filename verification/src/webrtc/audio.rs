//! Sound from the browser.

use vstd::prelude::*;

use crate::text::{lowered_ascii, same_text_ignoring_ascii_case};

verus! {

/// Opus from the browser, with its place in the RTP stream. Times are in
/// nanoseconds of one clock.
#[derive(Debug)]
pub struct IncomingAudioPacket {
    pub opus_data: Vec<u8>,
    pub seq_num: u16,
    pub timestamp: u32,
    pub received_at: u64,
}

/// Whether a track is one that the proxy listens to.
pub open spec fn is_heard_track(is_audio: bool, mime_type: Seq<char>) -> bool {
    is_audio && lowered_ascii(mime_type) == lowered_ascii("audio/opus"@)
}

/// Whether a track is one that the proxy listens to: sound, in Opus.
pub fn accepts_track(is_audio: bool, mime_type: &str) -> (r: bool)
    ensures
        r == is_heard_track(is_audio, mime_type@),
{
    is_audio && same_text_ignoring_ascii_case(mime_type, "audio/opus")
}

/// What becomes of reading one packet from the browser's track.
#[derive(Debug, Clone, Copy, PartialEq, Eq, Structural)]
pub enum Delivery {
    /// It went into the queue.
    Sent,
    /// The queue was full, and the packet is dropped.
    Full,
    /// Nobody takes from the queue any more.
    Closed,
}

/// Whether the next packet is read.
pub open spec fn reads_on(delivery: Delivery) -> bool {
    delivery != Delivery::Closed
}

/// Whether the next packet is read: as long as somebody takes them.
pub fn keep_reading(delivery: Delivery) -> (r: bool)
    ensures
        r == reads_on(delivery),
{
    match delivery {
        Delivery::Sent => true,
        Delivery::Full => true,
        Delivery::Closed => false,
    }
}

// Laws

/// The proxy listens to sound in Opus, however the type's letters are written,
/// and to nothing else.
pub proof fn law_opus_is_heard_in_any_case(is_audio: bool, mime_type: Seq<char>)
    ensures
        is_heard_track(is_audio, mime_type) <==> is_audio && mime_type.map_values(
            |c: char|
                if 65 <= c as int <= 90 {
                    (c as int + 32) as char
                } else {
                    c
                },
        ) == seq!['a', 'u', 'd', 'i', 'o', '/', 'o', 'p', 'u', 's'],
{
    reveal_strlit("audio/opus");
    assert(lowered_ascii("audio/opus"@) =~= seq!['a', 'u', 'd', 'i', 'o', '/', 'o', 'p', 'u', 's']);
    assert(lowered_ascii(mime_type) =~= mime_type.map_values(
        |c: char|
            if 65 <= c as int <= 90 {
                (c as int + 32) as char
            } else {
                c
            },
    ));
}

/// A full queue costs one packet and no more: reading goes on until nobody takes
/// the packets.
pub proof fn law_reading_goes_on_while_somebody_listens(delivery: Delivery)
    ensures
        delivery is Sent || delivery is Full ==> reads_on(delivery),
        delivery is Closed ==> !reads_on(delivery),
{
}

} // verus!
