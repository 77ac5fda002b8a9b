//! The voice channel to the Mumble server.

use vstd::prelude::*;

use crate::net::{Ipv4Addr, SocketAddr};

verus! {

/// Voice from the Mumble server. Times are in nanoseconds of one clock.
#[derive(Debug)]
pub struct MumbleVoiceData {
    pub session_id: u32,
    pub seq_num: u64,
    pub opus_data: Vec<u8>,
    pub last_frame: bool,
    pub received_at: u64,
}

/// Voice to the Mumble server.
#[derive(Debug)]
pub struct WebrtcVoiceData {
    pub seq_num: u64,
    pub opus_data: Vec<u8>,
    pub last_frame: bool,
}

/// The sound in a voice packet: Opus with the mark of a last frame, or a codec
/// that the proxy has no use for.
#[derive(Debug)]
pub enum VoicePayload {
    Opus { data: Vec<u8>, last_frame: bool },
    Other,
}

/// A voice packet from the server.
#[derive(Debug)]
pub enum IncomingVoice {
    Ping,
    Audio { session_id: u32, seq_num: u64, payload: VoicePayload },
}

/// A voice packet to the server: Opus for a target, of which 0 is normal speech.
#[derive(Debug)]
pub struct OutgoingVoice {
    pub target: u8,
    pub seq_num: u64,
    pub opus_data: Vec<u8>,
    pub last_frame: bool,
}

/// The packet that makes the server accept the client's UDP.
pub fn initial_voice() -> (r: OutgoingVoice)
    ensures
        r.target == 0,
        r.seq_num == 0,
        r.opus_data@ == Seq::new(16, |i: int| 0u8),
        r.last_frame,
{
    let mut opus_data: Vec<u8> = Vec::new();
    let mut i: usize = 0;
    while i < 16
        invariant
            i <= 16,
            opus_data@ =~= Seq::new(i as nat, |k: int| 0u8),
        decreases 16 - i,
    {
        opus_data.push(0);
        i = i + 1;
    }
    OutgoingVoice { target: 0, seq_num: 0, opus_data, last_frame: true }
}

/// The packet that carries `data` as normal speech.
pub open spec fn said(data: WebrtcVoiceData) -> OutgoingVoice {
    OutgoingVoice {
        target: 0,
        seq_num: data.seq_num,
        opus_data: data.opus_data,
        last_frame: data.last_frame,
    }
}

/// The packet that carries `data` as normal speech.
pub fn outgoing_voice(data: WebrtcVoiceData) -> (r: OutgoingVoice)
    ensures
        r == said(data),
        r.target == 0,
        r.seq_num == data.seq_num,
        r.opus_data@ == data.opus_data@,
        r.last_frame == data.last_frame,
{
    OutgoingVoice {
        target: 0,
        seq_num: data.seq_num,
        opus_data: data.opus_data,
        last_frame: data.last_frame,
    }
}

/// The voice in a packet that comes at the time `now`.
pub open spec fn heard(packet: IncomingVoice, now: u64) -> Option<MumbleVoiceData> {
    match packet {
        IncomingVoice::Audio {
            session_id,
            seq_num,
            payload: VoicePayload::Opus { data, last_frame },
        } => Some(
            MumbleVoiceData { session_id, seq_num, opus_data: data, last_frame, received_at: now },
        ),
        _ => None,
    }
}

/// The voice in a packet: there is some where it is Opus audio.
pub fn incoming_voice(packet: IncomingVoice, now: u64) -> (r: Option<MumbleVoiceData>)
    ensures
        r == heard(packet, now),
        r is Some <==> packet matches IncomingVoice::Audio { payload: VoicePayload::Opus { .. }, .. },
        packet matches IncomingVoice::Audio {
            session_id,
            seq_num,
            payload: VoicePayload::Opus { data, last_frame },
        } ==> (r matches Some(v) && v.session_id == session_id && v.seq_num == seq_num
            && v.opus_data == data && v.last_frame == last_frame && v.received_at == now),
{
    match packet {
        IncomingVoice::Ping => None,
        IncomingVoice::Audio { session_id, seq_num, payload } => match payload {
            VoicePayload::Opus { data, last_frame } => Some(
                MumbleVoiceData {
                    session_id,
                    seq_num,
                    opus_data: data,
                    last_frame,
                    received_at: now,
                },
            ),
            VoicePayload::Other => None,
        },
    }
}

/// What the voice loop is woken by.
#[derive(Debug)]
pub enum VoiceInput {
    Packet(IncomingVoice),
    /// A datagram that is no valid packet.
    BadPacket,
    /// Nothing more can come from the socket.
    SocketEnd,
    /// Voice for the server, or `None` where no more can come.
    Outgoing(Option<WebrtcVoiceData>),
}

/// What the voice loop does next.
#[derive(Debug)]
pub struct VoiceStep {
    pub deliver: Option<MumbleVoiceData>,
    pub send: Option<OutgoingVoice>,
    pub keep_running: bool,
}

/// What the voice loop does on an input at the time `now`.
pub open spec fn voice_reaction(input: VoiceInput, now: u64) -> VoiceStep {
    VoiceStep {
        deliver: match input {
            VoiceInput::Packet(packet) => heard(packet, now),
            _ => None,
        },
        send: match input {
            VoiceInput::Outgoing(Some(data)) => Some(said(data)),
            _ => None,
        },
        keep_running: input is Packet || input is BadPacket || (
        input matches VoiceInput::Outgoing(data) && data is Some),
    }
}

/// What the voice loop does when `input` wakes it. It ends when either side is
/// gone; a bad packet is passed over.
pub fn voice_step(input: VoiceInput, now: u64) -> (r: VoiceStep)
    ensures
        r == voice_reaction(input, now),
        r.keep_running == !(input is SocketEnd || input == VoiceInput::Outgoing(None)),
        match input {
            VoiceInput::Packet(
                IncomingVoice::Audio {
                    session_id,
                    seq_num,
                    payload: VoicePayload::Opus { data, last_frame },
                },
            ) => r.deliver matches Some(v) && v.session_id == session_id && v.seq_num == seq_num
                && v.opus_data == data && v.last_frame == last_frame && v.received_at == now,
            _ => r.deliver is None,
        },
        match input {
            VoiceInput::Outgoing(Some(d)) => r.send matches Some(p) && p.target == 0 && p.seq_num
                == d.seq_num && p.opus_data@ == d.opus_data@ && p.last_frame == d.last_frame,
            _ => r.send is None,
        },
{
    match input {
        VoiceInput::Packet(packet) => VoiceStep {
            deliver: incoming_voice(packet, now),
            send: None,
            keep_running: true,
        },
        VoiceInput::BadPacket => VoiceStep { deliver: None, send: None, keep_running: true },
        VoiceInput::SocketEnd => VoiceStep { deliver: None, send: None, keep_running: false },
        VoiceInput::Outgoing(Some(data)) => VoiceStep {
            deliver: None,
            send: Some(outgoing_voice(data)),
            keep_running: true,
        },
        VoiceInput::Outgoing(None) => VoiceStep { deliver: None, send: None, keep_running: false },
    }
}

/// The local address for voice to `server`.
pub open spec fn local_for(server: SocketAddr) -> SocketAddr {
    match server {
        SocketAddr::V4 { .. } => SocketAddr::V4 { ip: Ipv4Addr::unspecified_spec(), port: 0 },
        SocketAddr::V6 { .. } => SocketAddr::V6 { ip: 0, port: 0, flowinfo: 0, scope_id: 0 },
    }
}

/// The local address for voice to `server`: any, of the same family, with a port
/// of the system's choice.
pub fn voice_bind_addr(server: SocketAddr) -> (r: SocketAddr)
    ensures
        r == local_for(server),
{
    match server {
        SocketAddr::V4 { .. } => SocketAddr::V4 { ip: Ipv4Addr::unspecified(), port: 0 },
        SocketAddr::V6 { .. } => SocketAddr::V6 { ip: 0, port: 0, flowinfo: 0, scope_id: 0 },
    }
}

/// Why the voice channels cannot be had.
#[derive(Debug, Clone, Copy, PartialEq, Eq, Structural)]
pub enum VoiceError {
    ReceiverTaken,
    SenderTaken,
}

impl VoiceError {
    pub open spec fn text(self) -> Seq<char> {
        match self {
            VoiceError::ReceiverTaken => "Voice receiver already taken"@,
            VoiceError::SenderTaken => "Voice sender already taken"@,
        }
    }

    /// The error in words.
    pub fn message(&self) -> (r: String)
        ensures
            r@ == self.text(),
    {
        match self {
            VoiceError::ReceiverTaken => "Voice receiver already taken".to_owned(),
            VoiceError::SenderTaken => "Voice sender already taken".to_owned(),
        }
    }
}

/// The two ends of the channels, where both are there, or which of them is not.
pub open spec fn both_or_neither<Receiver, Sender>(
    receiver: Option<Receiver>,
    sender: Option<Sender>,
) -> Result<(Receiver, Sender), VoiceError> {
    match (receiver, sender) {
        (None, _) => Err(VoiceError::ReceiverTaken),
        (Some(_), None) => Err(VoiceError::SenderTaken),
        (Some(rx), Some(tx)) => Ok((rx, tx)),
    }
}

/// A running voice loop: its task and the two ends of its channels, until they
/// are taken.
pub struct MumbleVoice<Task, Receiver, Sender> {
    task: Option<Task>,
    voice_rx: Option<Receiver>,
    voice_tx: Option<Sender>,
}

impl<Task, Receiver, Sender> MumbleVoice<Task, Receiver, Sender> {
    pub closed spec fn task(self) -> Option<Task> {
        self.task
    }

    pub closed spec fn receiver(self) -> Option<Receiver> {
        self.voice_rx
    }

    pub closed spec fn sender(self) -> Option<Sender> {
        self.voice_tx
    }

    /// A voice loop that has just been started.
    pub fn start(task: Task, voice_rx: Receiver, voice_tx: Sender) -> (r: Self)
        ensures
            r.task() == Some(task),
            r.receiver() == Some(voice_rx),
            r.sender() == Some(voice_tx),
    {
        MumbleVoice { task: Some(task), voice_rx: Some(voice_rx), voice_tx: Some(voice_tx) }
    }

    /// Takes the channels out; each can be taken once.
    pub fn take_channels(&mut self) -> (r: Result<(Receiver, Sender), VoiceError>)
        ensures
            r == both_or_neither(old(self).receiver(), old(self).sender()),
            r is Ok ==> final(self).receiver() is None && final(self).sender() is None,
            match (old(self).receiver(), old(self).sender()) {
                (None, _) => r == Err::<(Receiver, Sender), VoiceError>(VoiceError::ReceiverTaken)
                    && *final(self) == *old(self),
                (Some(_), None) => r == Err::<(Receiver, Sender), VoiceError>(
                    VoiceError::SenderTaken,
                ) && final(self).receiver() is None && final(self).sender() is None,
                (Some(rx), Some(tx)) => r == Ok::<(Receiver, Sender), VoiceError>((rx, tx))
                    && final(self).receiver() is None && final(self).sender() is None,
            },
            final(self).task() == old(self).task(),
    {
        let voice_rx = match self.voice_rx.take() {
            Some(rx) => rx,
            None => return Err(VoiceError::ReceiverTaken),
        };
        let voice_tx = match self.voice_tx.take() {
            Some(tx) => tx,
            None => return Err(VoiceError::SenderTaken),
        };
        Ok((voice_rx, voice_tx))
    }

    /// Lets go of the channels and gives the task that is to be aborted, if it
    /// still runs. A second call finds nothing.
    pub fn shutdown(&mut self) -> (r: Option<Task>)
        ensures
            r == old(self).task(),
            final(self).task() is None,
            final(self).receiver() is None,
            final(self).sender() is None,
    {
        self.voice_rx = None;
        self.voice_tx = None;
        self.task.take()
    }
}

// Laws

/// What one client says reaches another as it was said: sound, frame number and
/// the mark of the last frame are the same at both ends, where the server passes
/// the packet on. It is known by whom it was said and when it came.
pub proof fn law_voice_is_passed_unchanged(
    data: WebrtcVoiceData,
    speaker: u32,
    sent_at: u64,
    now: u64,
)
    ensures
        voice_reaction(VoiceInput::Outgoing(Some(data)), sent_at).send matches Some(packet)
            && packet.target == 0 && (voice_reaction(
            VoiceInput::Packet(
                IncomingVoice::Audio {
                    session_id: speaker,
                    seq_num: packet.seq_num,
                    payload: VoicePayload::Opus {
                        data: packet.opus_data,
                        last_frame: packet.last_frame,
                    },
                },
            ),
            now,
        ).deliver matches Some(voice) && voice.opus_data == data.opus_data && voice.seq_num
            == data.seq_num && voice.last_frame == data.last_frame && voice.session_id == speaker
            && voice.received_at == now),
{
}

/// The voice loop sends and delivers nothing else: pings, other codecs and bad
/// packets are passed over. It goes on until nothing more can come from one of
/// the two sides.
pub proof fn law_voice_loop_goes_on(input: VoiceInput, now: u64)
    ensures
        voice_reaction(input, now).deliver is Some <==> (input matches VoiceInput::Packet(
            IncomingVoice::Audio { payload, .. },
        ) && payload is Opus),
        voice_reaction(input, now).send is Some <==> (input matches VoiceInput::Outgoing(data)
            && data is Some),
        !voice_reaction(input, now).keep_running <==> input is SocketEnd || (
        input matches VoiceInput::Outgoing(data) && data is None),
{
}

/// Voice is sent from any address of the server's own family, at a port of the
/// system's choice.
pub proof fn law_voice_binds_in_the_family_of_the_server(server: SocketAddr)
    ensures
        server is V4 <==> local_for(server) is V4,
        local_for(server) matches SocketAddr::V4 { ip, port } ==> port == 0 && ip.a == 0 && ip.b
            == 0 && ip.c == 0 && ip.d == 0,
        local_for(server) matches SocketAddr::V6 { ip, port, flowinfo, scope_id } ==> ip == 0
            && port == 0 && flowinfo == 0 && scope_id == 0,
{
}

/// The channels are had together, as they are, or not at all; which is missing is
/// told, the receiver first.
pub proof fn law_channels_are_had_together<Receiver, Sender>(
    receiver: Option<Receiver>,
    sender: Option<Sender>,
)
    ensures
        both_or_neither(receiver, sender) is Ok <==> receiver is Some && sender is Some,
        both_or_neither(receiver, sender) matches Ok(ends) ==> receiver == Some(ends.0) && sender
            == Some(ends.1),
        both_or_neither(receiver, sender) matches Err(e) ==> (e is ReceiverTaken <==> receiver
            is None),
{
}

} // verus!
