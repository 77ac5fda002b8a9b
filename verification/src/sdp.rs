//! Session descriptions, as the `webrtc` crate holds them.

use vstd::prelude::*;

verus! {

#[verifier::external_type_specification]
#[verifier::external_body]
pub struct ExSessionDescription(
    webrtc::peer_connection::sdp::session_description::RTCSessionDescription,
);

#[verifier::external_type_specification]
#[verifier::external_body]
pub struct ExWebrtcError(webrtc::Error);

/// What `RTCSessionDescription::answer` makes of an SDP text.
pub uninterp spec fn answer_parsed(sdp: Seq<char>) -> Result<
    webrtc::peer_connection::sdp::session_description::RTCSessionDescription,
    webrtc::Error,
>;

/// What `RTCSessionDescription::offer` makes of an SDP text.
pub uninterp spec fn offer_parsed(sdp: Seq<char>) -> Result<
    webrtc::peer_connection::sdp::session_description::RTCSessionDescription,
    webrtc::Error,
>;

/// `RTCSessionDescription::answer` reads an SDP text as an answer; what comes
/// out, a description or an error, depends on the text alone.
#[verifier::external_body]
pub(crate) fn parse_answer(sdp: String) -> (r: Result<
    webrtc::peer_connection::sdp::session_description::RTCSessionDescription,
    webrtc::Error,
>)
    ensures
        r == answer_parsed(sdp@),
{
    webrtc::peer_connection::sdp::session_description::RTCSessionDescription::answer(sdp)
}

/// `RTCSessionDescription::offer` reads an SDP text as an offer; what comes out,
/// a description or an error, depends on the text alone.
#[verifier::external_body]
pub(crate) fn parse_offer(sdp: String) -> (r: Result<
    webrtc::peer_connection::sdp::session_description::RTCSessionDescription,
    webrtc::Error,
>)
    ensures
        r == offer_parsed(sdp@),
{
    webrtc::peer_connection::sdp::session_description::RTCSessionDescription::offer(sdp)
}

} // verus!
