//! The WebRTC side of a session: when an SDP offer is made, and which ICE
//! candidates wait for the answer.

pub mod audio;
pub mod speakers;

use vstd::prelude::*;

pub use self::audio::IncomingAudioPacket;

use crate::config::WebrtcConfig;
use crate::list::views;
use crate::sdp::{answer_parsed, offer_parsed, parse_answer, parse_offer};
use crate::ws::messages::{opt_text, IceCandidateView};

verus! {

/// How many candidates may wait for the browser's answer.
pub const MAX_PENDING_CANDIDATES: usize = 128;

/// How many packets from the browser may wait to be sent on.
pub const AUDIO_QUEUE: usize = 6;

/// How a connection to a browser stands.
#[derive(Debug, Clone, Copy, PartialEq, Eq, Structural)]
pub enum PeerState {
    Unspecified,
    New,
    Connecting,
    Connected,
    Disconnected,
    Failed,
    Closed,
}

impl PeerState {
    pub open spec fn text(self) -> Seq<char> {
        match self {
            PeerState::Unspecified => "Unspecified"@,
            PeerState::New => "new"@,
            PeerState::Connecting => "connecting"@,
            PeerState::Connected => "connected"@,
            PeerState::Disconnected => "disconnected"@,
            PeerState::Failed => "failed"@,
            PeerState::Closed => "closed"@,
        }
    }

    /// The state in a word.
    pub fn name(&self) -> (r: String)
        ensures
            r@ == self.text(),
    {
        match self {
            PeerState::Unspecified => "Unspecified".to_owned(),
            PeerState::New => "new".to_owned(),
            PeerState::Connecting => "connecting".to_owned(),
            PeerState::Connected => "connected".to_owned(),
            PeerState::Disconnected => "disconnected".to_owned(),
            PeerState::Failed => "failed".to_owned(),
            PeerState::Closed => "closed".to_owned(),
        }
    }
}

/// How far the exchange of descriptions with a browser has come.
#[derive(Debug, Clone, Copy, PartialEq, Eq, Structural)]
pub enum SignalingState {
    /// No exchange is under way.
    Stable,
    /// An offer has been made and not answered.
    HaveLocalOffer,
    Other,
}

/// A way to reach a peer.
#[derive(Debug)]
pub struct IceCandidateInit {
    pub candidate: String,
    pub sdp_mid: Option<String>,
    pub sdp_mline_index: Option<u16>,
}

impl View for IceCandidateInit {
    type V = IceCandidateView;

    open spec fn view(&self) -> IceCandidateView {
        IceCandidateView {
            candidate: self.candidate@,
            sdp_mid: opt_text(self.sdp_mid),
            sdp_mline_index: self.sdp_mline_index,
        }
    }
}

/// What happened on the WebRTC side.
#[derive(Debug)]
pub enum WebrtcEvent {
    ConnectionStateChanged(PeerState),
    IceCandidate(IceCandidateInit),
    NegotiationNeeded,
}

/// How the media socket is announced.
#[derive(Debug)]
pub struct MediaSettings {
    pub udp_port: u16,
    /// Whether this machine's own address is among the candidates.
    pub include_loopback: bool,
    /// The address to announce in place of the local one.
    pub public_ip: Option<String>,
}

/// Whether `s` are the settings for `config`.
pub open spec fn is_announced(
    config: WebrtcConfig,
    virtual_network: bool,
    s: MediaSettings,
) -> bool {
    &&& s.udp_port == config.udp_port
    &&& s.include_loopback == (virtual_network || (config.public_ip is Some
        && config.public_ip->0.a == 127))
    &&& opt_text(s.public_ip) == match config.public_ip {
        Some(ip) => Some(ip.text()),
        None => None,
    }
}

/// The settings for `config`; `virtual_network` tells whether interfaces are
/// given instead of looked up.
pub fn media_settings(config: &WebrtcConfig, virtual_network: bool) -> (r: MediaSettings)
    ensures
        is_announced(*config, virtual_network, r),
{
    let loopback = match config.public_ip {
        Some(ip) => ip.is_loopback(),
        None => false,
    };
    let public_ip = match config.public_ip {
        Some(ip) => Some(ip.dotted()),
        None => None,
    };
    MediaSettings {
        udp_port: config.udp_port,
        include_loopback: virtual_network || loopback,
        public_ip,
    }
}

/// Why a candidate is refused.
#[derive(Debug, Clone, Copy, PartialEq, Eq, Structural)]
pub enum CandidateError {
    TooMany,
}

impl CandidateError {
    pub open spec fn text(self) -> Seq<char> {
        "too many pending ICE candidates"@
    }

    /// The error in words.
    pub fn message(&self) -> (r: String)
        ensures
            r@ == self.text(),
    {
        "too many pending ICE candidates".to_owned()
    }
}

/// The negotiation with one browser.
#[derive(Debug)]
pub struct WebrtcSession {
    /// Whether the browser has asked for voice.
    pub started: bool,
    needs_offer: bool,
    restart_pending: bool,
    pending_candidates: Vec<IceCandidateInit>,
}

/// What a [`WebrtcSession`] holds.
#[verifier::ext_equal]
pub struct NegotiationView {
    pub started: bool,
    /// Whether an offer is due as soon as the browser has answered.
    pub needs_offer: bool,
    /// Whether the next offer restarts ICE.
    pub restart_pending: bool,
    /// The browser's candidates that wait for its answer, in order.
    pub pending_candidates: Seq<IceCandidateView>,
}

impl View for WebrtcSession {
    type V = NegotiationView;

    closed spec fn view(&self) -> NegotiationView {
        NegotiationView {
            started: self.started,
            needs_offer: self.needs_offer,
            restart_pending: self.restart_pending,
            pending_candidates: views(self.pending_candidates@),
        }
    }
}

/// What a request for an offer leads to: the negotiation afterwards and, where
/// an offer is made now, whether it restarts ICE.
pub open spec fn offer_step(n: NegotiationView, restart: bool, signaling: SignalingState) -> (
    NegotiationView,
    Option<bool>,
) {
    let asked = NegotiationView { restart_pending: n.restart_pending || restart, ..n };
    if !n.started {
        (asked, None)
    } else if signaling != SignalingState::Stable {
        (NegotiationView { needs_offer: true, ..asked }, None)
    } else {
        (asked, Some(asked.restart_pending))
    }
}

/// The negotiation at its beginning.
pub open spec fn nothing_negotiated() -> NegotiationView {
    NegotiationView {
        started: false,
        needs_offer: false,
        restart_pending: false,
        pending_candidates: Seq::empty(),
    }
}

/// The negotiation after an offer has been made.
pub open spec fn offered(n: NegotiationView) -> NegotiationView {
    NegotiationView { restart_pending: false, needs_offer: false, ..n }
}

/// The negotiation after the browser's description has been taken in.
pub open spec fn answered(n: NegotiationView) -> NegotiationView {
    NegotiationView { pending_candidates: Seq::empty(), ..n }
}

/// Whether a candidate from the browser waits: it does until there is an answer
/// to the last offer.
pub open spec fn candidate_waits(has_remote_description: bool, signaling: SignalingState) -> bool {
    !has_remote_description || signaling == SignalingState::HaveLocalOffer
}

/// The candidates that waited for the browser's description, and whether another
/// offer is due.
pub open spec fn due_after_answer(n: NegotiationView) -> (Seq<IceCandidateView>, bool) {
    (n.pending_candidates, n.needs_offer)
}

/// What becomes of a candidate from the browser.
pub enum CandidateFate {
    /// It is used now.
    Used,
    /// It waits for the answer.
    Waits,
    /// Too many wait already.
    Refused,
}

pub open spec fn candidate_fate(
    n: NegotiationView,
    has_remote_description: bool,
    signaling: SignalingState,
) -> CandidateFate {
    if !candidate_waits(has_remote_description, signaling) {
        CandidateFate::Used
    } else if n.pending_candidates.len() < MAX_PENDING_CANDIDATES {
        CandidateFate::Waits
    } else {
        CandidateFate::Refused
    }
}

impl WebrtcSession {
    /// Whether no more candidates wait than may.
    pub open spec fn wf(self) -> bool {
        self@.pending_candidates.len() <= MAX_PENDING_CANDIDATES
    }

    /// Before anything has been negotiated.
    pub fn new() -> (r: WebrtcSession)
        ensures
            r.wf(),
            r@ == nothing_negotiated(),
    {
        let r = WebrtcSession {
            started: false,
            needs_offer: false,
            restart_pending: false,
            pending_candidates: Vec::new(),
        };
        assert(views(r.pending_candidates@) =~= Seq::<IceCandidateView>::empty());
        r
    }

    /// The browser has asked for voice.
    pub fn start(&mut self)
        ensures
            final(self)@ == (NegotiationView { started: true, ..old(self)@ }),
            final(self)@ == negotiated(old(self)@, NegotiationEvent::Start),
    {
        self.started = true;
    }

    /// Asks for an offer. Where one is to be made now, tells whether it
    /// restarts ICE.
    pub fn offer(&mut self, restart: bool, signaling: SignalingState) -> (r: Option<bool>)
        ensures
            (final(self)@, r) == offer_step(old(self)@, restart, signaling),
            final(self)@ == negotiated(
                old(self)@,
                NegotiationEvent::Offer { restart, signaling },
            ),
    {
        self.restart_pending = self.restart_pending || restart;
        if !self.started {
            return None;
        }
        if signaling != SignalingState::Stable {
            self.needs_offer = true;
            return None;
        }
        Some(self.restart_pending)
    }

    /// The offer that was asked for has been made.
    pub fn offer_created(&mut self)
        ensures
            final(self)@ == offered(old(self)@),
            final(self)@ == negotiated(old(self)@, NegotiationEvent::Created),
    {
        self.restart_pending = false;
        self.needs_offer = false;
    }

    /// The browser's answer to an offer, as the peer connection takes it.
    pub fn remote_answer(&self, sdp: &str) -> (r: Result<
        ::webrtc::peer_connection::sdp::session_description::RTCSessionDescription,
        ::webrtc::Error,
    >)
        ensures
            r == answer_parsed(sdp@),
    {
        parse_answer(sdp.to_owned())
    }

    /// The browser's own offer, as the peer connection takes it.
    pub fn remote_offer(&self, sdp: &str) -> (r: Result<
        ::webrtc::peer_connection::sdp::session_description::RTCSessionDescription,
        ::webrtc::Error,
    >)
        ensures
            r == offer_parsed(sdp@),
    {
        parse_offer(sdp.to_owned())
    }

    /// The browser's description, an answer or an offer of its own, has been
    /// taken in: gives the candidates that waited for it, in order, and tells
    /// whether another offer is due.
    pub fn answer(&mut self) -> (r: (Vec<IceCandidateInit>, bool))
        ensures
            final(self)@ == answered(old(self)@),
            final(self)@ == negotiated(old(self)@, NegotiationEvent::Answer),
            (views(r.0@), r.1) == due_after_answer(old(self)@),
    {
        let mut candidates: Vec<IceCandidateInit> = Vec::new();
        std::mem::swap(&mut self.pending_candidates, &mut candidates);
        assert(views(self.pending_candidates@) =~= Seq::<IceCandidateView>::empty());
        (candidates, self.needs_offer)
    }

    /// Takes in a candidate from the browser: it waits for the answer, or it is
    /// handed back to be used now.
    pub fn add_ice_candidate(
        &mut self,
        candidate: IceCandidateInit,
        has_remote_description: bool,
        signaling: SignalingState,
    ) -> (r: Result<Option<IceCandidateInit>, CandidateError>)
        requires
            old(self).wf(),
        ensures
            final(self).wf(),
            final(self)@ == negotiated(
                old(self)@,
                NegotiationEvent::Candidate {
                    candidate: candidate@,
                    has_remote_description,
                    signaling,
                },
            ),
            r is Err <==> candidate_fate(old(self)@, has_remote_description, signaling) is Refused,
            r matches Ok(given) ==> (given is Some <==> candidate_fate(
                old(self)@,
                has_remote_description,
                signaling,
            ) is Used),
            if !candidate_waits(has_remote_description, signaling) {
                final(self)@ == old(self)@ && r == Ok::<_, CandidateError>(Some(candidate))
            } else if old(self)@.pending_candidates.len() < MAX_PENDING_CANDIDATES {
                &&& final(self)@ == (NegotiationView {
                    pending_candidates: old(self)@.pending_candidates.push(candidate@),
                    ..old(self)@
                })
                &&& r == Ok::<Option<IceCandidateInit>, CandidateError>(None)
            } else {
                final(self)@ == old(self)@ && r == Err::<Option<IceCandidateInit>, _>(
                    CandidateError::TooMany,
                )
            },
    {
        if !has_remote_description || signaling == SignalingState::HaveLocalOffer {
            if self.pending_candidates.len() >= MAX_PENDING_CANDIDATES {
                return Err(CandidateError::TooMany);
            }
            let ghost before = views(self.pending_candidates@);
            self.pending_candidates.push(candidate);
            assert(views(self.pending_candidates@) =~= before.push(candidate@));
            Ok(None)
        } else {
            Ok(Some(candidate))
        }
    }
}

// Laws

/// Something that happens to a negotiation.
pub enum NegotiationEvent {
    Start,
    Offer { restart: bool, signaling: SignalingState },
    Created,
    Answer,
    Candidate {
        candidate: IceCandidateView,
        has_remote_description: bool,
        signaling: SignalingState,
    },
}

/// The negotiation after an event.
pub open spec fn negotiated(n: NegotiationView, e: NegotiationEvent) -> NegotiationView {
    match e {
        NegotiationEvent::Start => NegotiationView { started: true, ..n },
        NegotiationEvent::Offer { restart, signaling } => offer_step(n, restart, signaling).0,
        NegotiationEvent::Created => offered(n),
        NegotiationEvent::Answer => answered(n),
        NegotiationEvent::Candidate { candidate, has_remote_description, signaling } => {
            if candidate_waits(has_remote_description, signaling) && n.pending_candidates.len()
                < MAX_PENDING_CANDIDATES {
                NegotiationView { pending_candidates: n.pending_candidates.push(candidate), ..n }
            } else {
                n
            }
        },
    }
}

/// The negotiation after several events.
pub open spec fn negotiated_all(n: NegotiationView, events: Seq<NegotiationEvent>) -> NegotiationView
    decreases events.len(),
{
    if events.len() == 0 {
        n
    } else {
        negotiated(negotiated_all(n, events.drop_last()), events.last())
    }
}

/// A restart that was asked for is not forgotten: whatever happens, the next
/// offer restarts ICE.
pub proof fn law_restart_is_kept(
    n: NegotiationView,
    signaling: SignalingState,
    events: Seq<NegotiationEvent>,
    restart: bool,
    later: SignalingState,
)
    requires
        forall|i: int| 0 <= i < events.len() ==> !(#[trigger] events[i] is Created),
    ensures
        offer_step(
            negotiated_all(offer_step(n, true, signaling).0, events),
            restart,
            later,
        ).1 matches Some(restarts) ==> restarts,
        negotiated_all(offer_step(n, true, signaling).0, events).restart_pending,
    decreases events.len(),
{
    if events.len() > 0 {
        assert forall|i: int| 0 <= i < events.len() - 1 implies !(#[trigger] events.drop_last()[i]
            is Created) by {
            assert(!(events[i] is Created));
        }
        law_restart_is_kept(n, signaling, events.drop_last(), restart, later);
        assert(!(events[events.len() - 1] is Created));
    }
}

/// An offer that cannot be made while another is open is made after the answer:
/// until an offer has been made, one is due.
pub proof fn law_deferred_offer_is_due(
    n: NegotiationView,
    restart: bool,
    signaling: SignalingState,
    events: Seq<NegotiationEvent>,
)
    requires
        n.started,
        signaling != SignalingState::Stable,
        forall|i: int| 0 <= i < events.len() ==> !(#[trigger] events[i] is Created),
    ensures
        offer_step(n, restart, signaling).1 is None,
        negotiated_all(offer_step(n, restart, signaling).0, events).needs_offer,
    decreases events.len(),
{
    if events.len() > 0 {
        assert forall|i: int| 0 <= i < events.len() - 1 implies !(#[trigger] events.drop_last()[i]
            is Created) by {
            assert(!(events[i] is Created));
        }
        law_deferred_offer_is_due(n, restart, signaling, events.drop_last());
        assert(!(events[events.len() - 1] is Created));
    }
}

/// No more candidates ever wait than may, and an answer leaves none waiting.
pub proof fn law_candidates_are_bounded(n: NegotiationView, e: NegotiationEvent)
    requires
        n.pending_candidates.len() <= MAX_PENDING_CANDIDATES,
    ensures
        negotiated(n, e).pending_candidates.len() <= MAX_PENDING_CANDIDATES,
        e is Answer ==> negotiated(n, e).pending_candidates.len() == 0,
        !(e is Answer) ==> n.pending_candidates.is_prefix_of(negotiated(n, e).pending_candidates),
{
}

/// Nothing is offered to a browser that has not asked for voice.
pub proof fn law_no_offer_before_start(
    n: NegotiationView,
    restart: bool,
    signaling: SignalingState,
)
    requires
        !n.started,
    ensures
        offer_step(n, restart, signaling).1 is None,
{
}

/// Where the browser has asked for voice and no exchange is under way, a request
/// for an offer is granted at once, with or without a restart; the offer restarts
/// ICE exactly where that is asked for now or was before. Elsewhere none is made.
pub proof fn law_offers_are_made_at_once(
    n: NegotiationView,
    restart: bool,
    signaling: SignalingState,
)
    ensures
        n.started && signaling is Stable ==> offer_step(n, restart, signaling).1 == Some(
            n.restart_pending || restart,
        ),
        !n.started || !(signaling is Stable) ==> offer_step(n, restart, signaling).1 is None,
{
}

/// A request for an offer touches nothing but what it asks for: the voice that is
/// started and the candidates that wait stay, a restart stays wanted, and an offer
/// becomes due exactly where one is wanted and another is open.
pub proof fn law_requests_for_offers_are_remembered(
    n: NegotiationView,
    restart: bool,
    signaling: SignalingState,
)
    ensures
        offer_step(n, restart, signaling).0.started == n.started,
        offer_step(n, restart, signaling).0.pending_candidates == n.pending_candidates,
        offer_step(n, restart, signaling).0.restart_pending <==> n.restart_pending || restart,
        offer_step(n, restart, signaling).0.needs_offer <==> n.needs_offer || (n.started && !(
        signaling is Stable)),
{
}

/// Once an offer has been made, neither an offer nor a restart is due; what else
/// is known stays. Once the browser's description has been taken in, no candidate
/// waits; what else is known stays.
pub proof fn law_offers_and_answers_settle(n: NegotiationView)
    ensures
        !offered(n).needs_offer && !offered(n).restart_pending,
        offered(n).started == n.started && offered(n).pending_candidates == n.pending_candidates,
        answered(n).pending_candidates.len() == 0,
        answered(n).started == n.started && answered(n).needs_offer == n.needs_offer
            && answered(n).restart_pending == n.restart_pending,
{
}

/// A candidate waits exactly where the browser has described nothing yet or has
/// not answered the open offer; as long as fewer than 128 wait, the next one is
/// put behind them.
pub proof fn law_candidates_wait_their_turn(
    n: NegotiationView,
    candidate: IceCandidateView,
    has_remote_description: bool,
    signaling: SignalingState,
)
    ensures
        candidate_waits(has_remote_description, signaling) <==> !has_remote_description
            || signaling is HaveLocalOffer,
        (!has_remote_description || signaling is HaveLocalOffer) && n.pending_candidates.len() < 128
            ==> negotiated(
            n,
            NegotiationEvent::Candidate { candidate, has_remote_description, signaling },
        ).pending_candidates == n.pending_candidates.push(candidate),
        MAX_PENDING_CANDIDATES == 128,
{
}

/// A candidate is used at once where the browser has described itself and no
/// offer is open; else it waits, as long as fewer than 128 do. What is used or
/// refused changes nothing, and a candidate never changes anything but what
/// waits.
pub proof fn law_what_becomes_of_candidates(
    n: NegotiationView,
    candidate: IceCandidateView,
    has_remote_description: bool,
    signaling: SignalingState,
)
    ensures
        ({
            let fate = candidate_fate(n, has_remote_description, signaling);
            let after = negotiated(
                n,
                NegotiationEvent::Candidate { candidate, has_remote_description, signaling },
            );
            &&& fate is Used <==> has_remote_description && !(signaling is HaveLocalOffer)
            &&& fate is Waits <==> (!has_remote_description || signaling is HaveLocalOffer)
                && n.pending_candidates.len() < 128
            &&& fate is Refused <==> (!has_remote_description || signaling is HaveLocalOffer)
                && n.pending_candidates.len() >= 128
            &&& fate is Waits ==> after.pending_candidates == n.pending_candidates + seq![candidate]
            &&& !(fate is Waits) ==> after == n
            &&& after.started == n.started && after.needs_offer == n.needs_offer
                && after.restart_pending == n.restart_pending
        }),
{
    assert(n.pending_candidates.push(candidate) =~= n.pending_candidates + seq![candidate]);
}

/// The candidates that came before the answer come out with it, all of them and
/// in the order in which they came; another offer is due exactly where one was
/// put off.
pub proof fn law_waiting_candidates_come_out_in_order(
    n: NegotiationView,
    candidates: Seq<IceCandidateView>,
    signaling: SignalingState,
)
    requires
        candidates.len() <= 128,
    ensures
        ({
            let waiting = negotiated_all(
                answered(n),
                candidates.map_values(
                    |c: IceCandidateView|
                        NegotiationEvent::Candidate {
                            candidate: c,
                            has_remote_description: false,
                            signaling,
                        },
                ),
            );
            &&& due_after_answer(waiting).0 == candidates
            &&& due_after_answer(waiting).1 == n.needs_offer
            &&& due_after_answer(negotiated(waiting, NegotiationEvent::Answer)).0.len() == 0
        }),
    decreases candidates.len(),
{
    let f = |c: IceCandidateView|
        NegotiationEvent::Candidate { candidate: c, has_remote_description: false, signaling };
    let events = candidates.map_values(f);
    if candidates.len() > 0 {
        law_waiting_candidates_come_out_in_order(n, candidates.drop_last(), signaling);
        assert(events.drop_last() =~= candidates.drop_last().map_values(f));
        assert(candidates.drop_last().push(candidates.last()) =~= candidates);
    } else {
        assert(due_after_answer(negotiated_all(answered(n), events)).0 =~= candidates);
    }
}

/// The browser is started once and stays so, and nothing else changes with it.
pub proof fn law_start_only_starts(n: NegotiationView)
    ensures
        negotiated(n, NegotiationEvent::Start).started,
        negotiated(n, NegotiationEvent::Start).needs_offer == n.needs_offer,
        negotiated(n, NegotiationEvent::Start).restart_pending == n.restart_pending,
        negotiated(n, NegotiationEvent::Start).pending_candidates == n.pending_candidates,
{
}

/// The media socket has the configured port and is announced under the configured
/// address, where there is one. This machine's own address is among the
/// candidates exactly where that address is in 127.0.0.0/8 or the network is a
/// virtual one.
pub proof fn law_media_is_announced(config: WebrtcConfig, virtual_network: bool, s: MediaSettings)
    requires
        is_announced(config, virtual_network, s),
    ensures
        s.udp_port == config.udp_port,
        virtual_network ==> s.include_loopback,
        !virtual_network ==> (s.include_loopback <==> (config.public_ip matches Some(ip) && ip.a
            == 127)),
        s.public_ip is Some <==> config.public_ip is Some,
        config.public_ip matches Some(ip) ==> s.public_ip->0@ == ip.text(),
{
}

/// At the beginning nothing is offered; once the browser has asked for voice, the
/// first offer is made at once and restarts nothing, unless a restart was asked
/// for before.
pub proof fn law_first_offer(restart: bool)
    ensures
        offer_step(nothing_negotiated(), restart, SignalingState::Stable).1 is None,
        offer_step(
            negotiated(nothing_negotiated(), NegotiationEvent::Start),
            restart,
            SignalingState::Stable,
        ).1 == Some(restart),
        offer_step(
            negotiated(
                offer_step(nothing_negotiated(), true, SignalingState::Stable).0,
                NegotiationEvent::Start,
            ),
            restart,
            SignalingState::Stable,
        ).1 == Some(true),
        due_after_answer(nothing_negotiated()).0.len() == 0 && !due_after_answer(
            nothing_negotiated(),
        ).1,
{
}

} // verus!
