//! TURN over TCP and TLS: frames in a stream of bytes. A STUN message says its
//! length; channel data is padded to a multiple of four bytes.

use vstd::prelude::*;

use crate::net::SocketAddr;

verus! {

/// How long to wait for a frame, in seconds.
pub const RECV_TIMEOUT_SECS: u64 = 90;

/// How long a write may take, in seconds.
pub const SEND_TIMEOUT_SECS: u64 = 5;

/// How long closing may take, in seconds.
pub const CLOSE_TIMEOUT_SECS: u64 = 1;

/// What is wrong with a stream.
#[derive(Debug, Clone, Copy, PartialEq, Eq, Structural)]
pub enum StreamError {
    UnalignedStun,
    InvalidFrameType,
    ExceedsMtu,
    OtherPeer,
    Idle,
    Closed,
    WriteTimedOut,
}

impl StreamError {
    pub open spec fn text(self) -> Seq<char> {
        match self {
            StreamError::UnalignedStun => "unaligned STUN length"@,
            StreamError::InvalidFrameType => "invalid TURN frame type"@,
            StreamError::ExceedsMtu => "TURN frame exceeds MTU"@,
            StreamError::OtherPeer => "connected TURN stream cannot change peer"@,
            StreamError::Idle => "idle TURN stream"@,
            StreamError::Closed => "closed"@,
            StreamError::WriteTimedOut => "TURN write timed out"@,
        }
    }

    /// The error in words.
    pub fn message(&self) -> (r: String)
        ensures
            r@ == self.text(),
    {
        match self {
            StreamError::UnalignedStun => "unaligned STUN length".to_owned(),
            StreamError::InvalidFrameType => "invalid TURN frame type".to_owned(),
            StreamError::ExceedsMtu => "TURN frame exceeds MTU".to_owned(),
            StreamError::OtherPeer => "connected TURN stream cannot change peer".to_owned(),
            StreamError::Idle => "idle TURN stream".to_owned(),
            StreamError::Closed => "closed".to_owned(),
            StreamError::WriteTimedOut => "TURN write timed out".to_owned(),
        }
    }
}

/// `n` up to the next multiple of four.
pub open spec fn padded(n: nat) -> nat {
    ((n + 3) / 4 * 4) as nat
}

/// The length of a frame that begins with `header`, without and with its
/// padding, where `capacity` bytes have room. The two highest bits of the first
/// byte tell STUN messages (0) from channel data (1); the third and fourth byte
/// are the length of what follows the header, which has 20 bytes in a STUN
/// message and 4 in channel data.
pub open spec fn lengths(header: Seq<u8>, capacity: nat) -> Result<(nat, nat), StreamError> {
    let payload = (header[2] as nat) * 256 + header[3] as nat;
    if header[0] < 64 {
        if payload % 4 != 0 {
            Err(StreamError::UnalignedStun)
        } else if 20 + payload > capacity {
            Err(StreamError::ExceedsMtu)
        } else {
            Ok((20 + payload, 20 + payload))
        }
    } else if header[0] < 128 {
        if 4 + payload > capacity {
            Err(StreamError::ExceedsMtu)
        } else {
            Ok((4 + payload, padded(4 + payload)))
        }
    } else {
        Err(StreamError::InvalidFrameType)
    }
}

/// How many bytes of padding follow a frame.
pub open spec fn padding_of(frame: Seq<u8>) -> nat {
    if frame.len() > 0 && 64 <= frame[0] < 128 {
        (padded(frame.len()) - frame.len()) as nat
    } else {
        0
    }
}

/// What goes over the wire for a frame.
pub open spec fn written(frame: Seq<u8>) -> Seq<u8> {
    frame + Seq::new(padding_of(frame), |i: int| 0u8)
}

/// The length of the frame that begins with `header`, without and with its
/// padding.
pub fn frame_lengths(header: &[u8; 4], capacity: usize) -> (r: Result<(usize, usize), StreamError>)
    ensures
        match r {
            Ok((len, padded_len)) => lengths(header@, capacity as nat) == Ok::<_, StreamError>(
                (len as nat, padded_len as nat),
            ) && len <= padded_len <= len + 3 && 4 <= len <= capacity,
            Err(e) => lengths(header@, capacity as nat) == Err::<(nat, nat), _>(e),
        },
{
    let payload_len: usize = header[2] as usize * 256 + header[3] as usize;
    if header[0] < 64 {
        if payload_len % 4 != 0 {
            return Err(StreamError::UnalignedStun);
        }
        let len: usize = 20 + payload_len;
        if len > capacity {
            return Err(StreamError::ExceedsMtu);
        }
        Ok((len, len))
    } else if header[0] < 128 {
        let len: usize = 4 + payload_len;
        if len > capacity {
            return Err(StreamError::ExceedsMtu);
        }
        Ok((len, (len + 3) / 4 * 4))
    } else {
        Err(StreamError::InvalidFrameType)
    }
}

/// How many bytes of padding follow a frame.
pub fn padding(frame: &[u8]) -> (r: usize)
    ensures
        r == padding_of(frame@),
        r < 4,
{
    if frame.len() > 0 && 64 <= frame[0] && frame[0] < 128 {
        (4 - frame.len() % 4) % 4
    } else {
        0
    }
}

/// Finds the frames in the bytes of a stream, whatever pieces they come in.
#[derive(Debug)]
pub struct FrameReader {
    pending: Vec<u8>,
}

/// What is read next from `bytes`, and the bytes that are left: a frame, `None`
/// where more bytes are needed, or what is wrong with the frame that begins
/// there.
pub open spec fn next_in(bytes: Seq<u8>, capacity: nat) -> (
    Result<Option<Seq<u8>>, StreamError>,
    Seq<u8>,
) {
    if bytes.len() < 4 {
        (Ok(None), bytes)
    } else {
        match lengths(bytes, capacity) {
            Ok((len, padded_len)) => if bytes.len() < padded_len {
                (Ok(None), bytes)
            } else {
                (Ok(Some(bytes.take(len as int))), bytes.skip(padded_len as int))
            },
            Err(e) => (Err(e), bytes),
        }
    }
}

impl View for FrameReader {
    type V = Seq<u8>;

    /// The bytes that have not been read as frames.
    closed spec fn view(&self) -> Seq<u8> {
        self.pending@
    }
}

impl FrameReader {
    /// At the beginning of a stream.
    pub fn new() -> (r: FrameReader)
        ensures
            r@ == Seq::<u8>::empty(),
    {
        FrameReader { pending: Vec::new() }
    }

    /// Takes in bytes from the stream.
    pub fn push(&mut self, bytes: &[u8])
        ensures
            final(self)@ == old(self)@ + bytes@,
    {
        self.pending.extend_from_slice(bytes);
    }

    /// The next frame, without its padding, where it is complete.
    pub fn read_frame(&mut self, capacity: usize) -> (r: Result<Option<Vec<u8>>, StreamError>)
        ensures
            final(self)@ == next_in(old(self)@, capacity as nat).1,
            match r {
                Ok(Some(frame)) => next_in(old(self)@, capacity as nat).0 == Ok::<_, StreamError>(
                    Some(frame@),
                ),
                Ok(None) => next_in(old(self)@, capacity as nat).0 == Ok::<
                    Option<Seq<u8>>,
                    StreamError,
                >(None),
                Err(e) => next_in(old(self)@, capacity as nat).0 == Err::<Option<Seq<u8>>, _>(e),
            },
    {
        if self.pending.len() < 4 {
            return Ok(None);
        }
        let header: [u8; 4] = [
            self.pending[0],
            self.pending[1],
            self.pending[2],
            self.pending[3],
        ];
        assert(lengths(header@, capacity as nat) == lengths(self@, capacity as nat));
        let (len, padded_len) = match frame_lengths(&header, capacity) {
            Ok(lengths) => lengths,
            Err(e) => return Err(e),
        };
        if self.pending.len() < padded_len {
            return Ok(None);
        }
        let rest = self.pending.split_off(padded_len);
        self.pending.truncate(len);
        assert(self.pending@ =~= old(self)@.take(len as int));
        assert(rest@ =~= old(self)@.skip(padded_len as int));
        let mut frame = rest;
        std::mem::swap(&mut self.pending, &mut frame);
        Ok(Some(frame))
    }
}

/// One end of a stream.
#[derive(Debug)]
pub struct StreamConn {
    pub local: SocketAddr,
    pub remote: SocketAddr,
    pub closed: bool,
}

impl StreamConn {
    pub fn new(local: SocketAddr, remote: SocketAddr) -> (r: StreamConn)
        ensures
            r == (StreamConn { local, remote, closed: false }),
    {
        StreamConn { local, remote, closed: false }
    }

    /// Whether the stream can be connected to `addr`.
    pub open spec fn reaches(self, addr: SocketAddr) -> Result<(), StreamError> {
        if addr == self.remote {
            Ok(())
        } else {
            Err(StreamError::OtherPeer)
        }
    }

    /// The stream after a read or a write, which may have failed.
    pub open spec fn settled(self, failed: bool) -> StreamConn {
        StreamConn { closed: self.closed || failed, ..self }
    }

    /// A stream has one peer; to connect to it again does nothing.
    pub fn connect(&self, addr: SocketAddr) -> (r: Result<(), StreamError>)
        ensures
            r == self.reaches(addr),
    {
        if addr != self.remote {
            return Err(StreamError::OtherPeer);
        }
        Ok(())
    }

    /// Takes note of how a read or a write went: a failure closes the stream
    /// for good.
    pub fn settle<T, E>(&mut self, result: Result<T, E>) -> (r: Result<T, E>)
        ensures
            r == result,
            *final(self) == old(self).settled(result is Err),
    {
        if result.is_err() {
            self.closed = true;
        }
        result
    }

    pub fn close(&mut self)
        ensures
            *final(self) == old(self).settled(true),
    {
        self.closed = true;
    }
}

// Laws

/// Whether `frame` is what its header says, and has room in `capacity` bytes.
pub open spec fn is_frame(frame: Seq<u8>, capacity: nat) -> bool {
    &&& frame.len() >= 4
    &&& lengths(frame, capacity) matches Ok(l) && l.0 == frame.len()
}

/// What a reader finds in `bytes`: the frames up to the first that is not
/// complete or that it refuses.
pub open spec fn frames_in(bytes: Seq<u8>, capacity: nat) -> Seq<Seq<u8>>
    decreases bytes.len(),
{
    if bytes.len() < 4 {
        Seq::empty()
    } else {
        match lengths(bytes, capacity) {
            Ok(l) => if 0 < l.1 <= bytes.len() {
                seq![bytes.take(l.0 as int)] + frames_in(bytes.skip(l.1 as int), capacity)
            } else {
                Seq::empty()
            },
            Err(_) => Seq::empty(),
        }
    }
}

/// What a writer sends for `frames`, one after the other.
pub open spec fn all_written(frames: Seq<Seq<u8>>) -> Seq<u8>
    decreases frames.len(),
{
    if frames.len() == 0 {
        Seq::empty()
    } else {
        written(frames[0]) + all_written(frames.drop_first())
    }
}

/// A frame takes as many bytes on the wire as its header says, and a whole
/// number of four bytes.
pub proof fn law_padding_fits_the_header(frame: Seq<u8>, capacity: nat)
    requires
        is_frame(frame, capacity),
    ensures
        lengths(frame, capacity) == Ok::<_, StreamError>((frame.len(), written(frame).len())),
        written(frame).len() % 4 == 0,
{
}

/// A reader finds the frames one by one: what it reads next is the first of the
/// frames in its bytes, and what it has left holds the others.
pub proof fn law_reader_goes_through_the_frames(bytes: Seq<u8>, capacity: nat)
    ensures
        match next_in(bytes, capacity).0 {
            Ok(Some(frame)) => frames_in(bytes, capacity) == seq![frame] + frames_in(
                next_in(bytes, capacity).1,
                capacity,
            ),
            _ => frames_in(bytes, capacity) == Seq::<Seq<u8>>::empty() && next_in(bytes, capacity).1
                == bytes,
        },
{
}

/// A frame that is complete stays the same whatever comes after it.
pub proof fn law_later_bytes_do_not_matter(bytes: Seq<u8>, more: Seq<u8>, capacity: nat)
    requires
        next_in(bytes, capacity).0 matches Ok(f) && f is Some,
    ensures
        next_in(bytes + more, capacity).0 == next_in(bytes, capacity).0,
        next_in(bytes + more, capacity).1 == next_in(bytes, capacity).1 + more,
{
    let l = lengths(bytes, capacity)->Ok_0;
    assert(lengths(bytes + more, capacity) == lengths(bytes, capacity));
    assert((bytes + more).take(l.0 as int) =~= bytes.take(l.0 as int));
    assert((bytes + more).skip(l.1 as int) =~= bytes.skip(l.1 as int) + more);
}

/// Frames that are written one after the other are read back, however the
/// stream cuts or joins them on the way: only the bytes and their order count.
pub proof fn law_written_frames_read_back(frames: Seq<Seq<u8>>, capacity: nat)
    requires
        forall|i: int| 0 <= i < frames.len() ==> is_frame(#[trigger] frames[i], capacity),
    ensures
        frames_in(all_written(frames), capacity) == frames,
    decreases frames.len(),
{
    if frames.len() > 0 {
        let first = frames[0];
        let rest = frames.drop_first();
        assert(is_frame(first, capacity));
        assert forall|i: int| 0 <= i < rest.len() implies is_frame(#[trigger] rest[i], capacity) by {
            assert(rest[i] == frames[i + 1]);
        }
        law_written_frames_read_back(rest, capacity);
        law_padding_fits_the_header(first, capacity);
        let bytes = all_written(frames);
        assert(forall|i: int| 0 <= i < 4 ==> bytes[i] == first[i]);
        assert(bytes.take(first.len() as int) =~= first);
        assert(bytes.skip(written(first).len() as int) =~= all_written(rest));
        assert(seq![first] + rest =~= frames);
    }
}

/// A header tells the length of its frame: 20 bytes and the payload in a STUN
/// message, 4 and the payload in channel data, which is padded to the next
/// multiple of four. A frame that has room and is aligned is taken; a frame is
/// refused for one of three reasons, and only then.
pub proof fn law_header_tells_the_length(header: Seq<u8>, capacity: nat)
    requires
        header.len() >= 4,
    ensures
        ({
            let payload = header[2] * 256 + header[3];
            &&& header[0] < 64 && payload % 4 == 0 && 20 + payload <= capacity ==> lengths(
                header,
                capacity,
            ) == Ok::<_, StreamError>(((20 + payload) as nat, (20 + payload) as nat))
            &&& 64 <= header[0] < 128 && 4 + payload <= capacity ==> (lengths(
                header,
                capacity,
            ) matches Ok((len, padded_len)) && len == 4 + payload && padded_len % 4 == 0 && len
                <= padded_len < len + 4)
            &&& lengths(header, capacity) == Err::<(nat, nat), _>(StreamError::UnalignedStun)
                <==> header[0] < 64 && payload % 4 != 0
            &&& lengths(header, capacity) == Err::<(nat, nat), _>(StreamError::InvalidFrameType)
                <==> header[0] >= 128
            &&& lengths(header, capacity) == Err::<(nat, nat), _>(StreamError::ExceedsMtu) <==> (
            header[0] < 64 && payload % 4 == 0 && 20 + payload > capacity || 64 <= header[0] < 128
                && 4 + payload > capacity)
        }),
{
}

/// Channel data is followed by as few zeros as make its length a multiple of
/// four, and everything else by none; the frame itself goes over the wire as it
/// is.
pub proof fn law_padding_is_zeros(frame: Seq<u8>)
    ensures
        frame.len() > 0 && 64 <= frame[0] < 128 ==> (frame.len() + padding_of(frame)) % 4 == 0
            && padding_of(frame) < 4,
        frame.len() == 0 || frame[0] < 64 || frame[0] >= 128 ==> padding_of(frame) == 0,
        written(frame).len() == frame.len() + padding_of(frame),
        forall|i: int| 0 <= i < frame.len() ==> written(frame)[i] == frame[i],
        forall|i: int| frame.len() <= i < written(frame).len() ==> written(frame)[i] == 0,
{
}

/// A frame is read, byte for byte, as soon as it and its padding are there, and
/// what follows is left for later; until then nothing is read and nothing is
/// lost.
pub proof fn law_frame_is_read_when_complete(
    frame: Seq<u8>,
    rest: Seq<u8>,
    part: int,
    capacity: nat,
)
    requires
        frame.len() >= 4,
        frame.len() <= capacity,
        frame[0] < 64 && frame.len() == 20 + frame[2] * 256 + frame[3] && frame.len() % 4 == 0
            || 64 <= frame[0] < 128 && frame.len() == 4 + frame[2] * 256 + frame[3],
        0 <= part < written(frame).len(),
    ensures
        next_in(written(frame) + rest, capacity) == (
            Ok::<Option<Seq<u8>>, StreamError>(Some(frame)),
            rest,
        ),
        next_in(written(frame).take(part), capacity) == (
            Ok::<Option<Seq<u8>>, StreamError>(None),
            written(frame).take(part),
        ),
{
    let bytes = written(frame) + rest;
    let begun = written(frame).take(part);
    assert(forall|i: int| 0 <= i < 4 ==> bytes[i] == frame[i]);
    assert(bytes.take(frame.len() as int) =~= frame);
    assert(bytes.skip(written(frame).len() as int) =~= rest);
    if part >= 4 {
        assert(forall|i: int| 0 <= i < 4 ==> begun[i] == frame[i]);
    }
}

/// A stream is open until something fails, and then closed for good; its two ends
/// stay what they are, and it reaches its one peer and nobody else.
pub proof fn law_failure_closes_for_good(s: StreamConn, failed: bool, later: bool, addr: SocketAddr)
    ensures
        s.settled(failed).closed <==> s.closed || failed,
        s.settled(true).settled(later).closed,
        s.settled(failed).local == s.local && s.settled(failed).remote == s.remote,
        s.reaches(addr) is Ok <==> addr == s.remote,
        s.reaches(addr) matches Err(e) ==> e is OtherPeer,
{
}

} // verus!
