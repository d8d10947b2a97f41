//! Protocol replies as the command layer reads them, and the header fields
//! that only the protocol library can take apart.

use vstd::prelude::*;
use rsip::headers::UntypedHeader;
use crate::error::{names_status, worded, CmdError, ErrorView};

verus! {

/// A protocol reply, reduced to what the command layer reads.
#[derive(Debug)]
pub struct SipResponse {
    /// The numeric status.
    pub status: u16,
    /// The reason phrase that came with the status. It is read only where
    /// the protocol library has no name of its own for the status.
    pub reason: String,
    /// The value of the `From` header, if the reply has one.
    pub from: Option<String>,
    /// The value of the `To` header, if the reply has one.
    pub to: Option<String>,
    /// The body, as it came over the wire.
    pub body: Vec<u8>,
    /// The whole reply, as it came over the wire. The commands carry it
    /// through unread, for the caller who answers the reply.
    pub raw: Vec<u8>,
}

/// What a [`SipResponse`] denotes.
pub ghost struct SipResponseView {
    pub status: u16,
    pub reason: Seq<char>,
    pub from: Option<Seq<char>>,
    pub to: Option<Seq<char>>,
    pub body: Seq<u8>,
    pub raw: Seq<u8>,
}

impl View for SipResponse {
    type V = SipResponseView;

    open spec fn view(&self) -> SipResponseView {
        SipResponseView {
            status: self.status,
            reason: self.reason@,
            from: text_of(self.from),
            to: text_of(self.to),
            body: self.body@,
            raw: self.raw@,
        }
    }
}

/// One delivery to a waiting exchange.
#[derive(Debug)]
pub enum Envelope {
    /// A reply, with the branch of a multi-leg exchange that it belongs to.
    Reply { response: SipResponse, branch: String },
    /// The signal that nothing more will come.
    Absent,
}

/// What an [`Envelope`] denotes.
pub ghost enum EnvelopeView {
    Reply { response: SipResponseView, branch: Seq<char> },
    Absent,
}

impl View for Envelope {
    type V = EnvelopeView;

    open spec fn view(&self) -> EnvelopeView {
        match self {
            Envelope::Reply { response, branch } => EnvelopeView::Reply {
                response: response@,
                branch: branch@,
            },
            Envelope::Absent => EnvelopeView::Absent,
        }
    }
}

/// The acknowledgment of an accepted negotiation, reduced to the two header
/// values that name the dialog.
#[derive(Debug)]
pub struct AckRequest {
    /// The value of the `Call-ID` header, if the request has one.
    pub call_id: Option<String>,
    /// The value of the `CSeq` header, if the request has one.
    pub cseq: Option<String>,
}

/// How a status moves a negotiation.
#[derive(Clone, Copy, Debug, PartialEq, Eq, Structural)]
pub enum Disposition {
    /// Not final: the exchange keeps waiting.
    Provisional,
    /// Exactly 200: the request is accepted.
    Accepted,
    /// 300 or more: the request is refused.
    Rejected,
}

/// The disposition of a status: 200 accepts, 300 and more refuse, and every
/// other status leaves the exchange waiting.
pub open spec fn disposition_of(status: u16) -> Disposition {
    if status >= 300 {
        Disposition::Rejected
    } else if status == 200 {
        Disposition::Accepted
    } else {
        Disposition::Provisional
    }
}

impl SipResponse {
    /// The rejection that this reply stands for, where it refuses.
    pub fn rejection(&self) -> (e: CmdError)
        ensures
            e@ == rejection_of(self@),
            worded(e@),
    {
        CmdError::ProtocolRejected {
            status: self.status,
            text: status_text(self.status, self.reason.as_str()),
        }
    }

    /// Classifies the status of this reply.
    pub fn disposition(&self) -> (d: Disposition)
        ensures
            d == disposition_of(self.status),
    {
        if self.status >= 300 {
            Disposition::Rejected
        } else if self.status == 200 {
            Disposition::Accepted
        } else {
            Disposition::Provisional
        }
    }
}

/// The text that the protocol library prints for a status: for a status
/// that it has a name for, a text that the number alone decides; for any
/// other status, one made of the number and the reason phrase.
pub uninterp spec fn status_text_of(status: u16, reason: Seq<char>) -> Seq<char>;

/// The rejection that a refusing reply stands for: its status, worded as the
/// protocol library prints it.
pub open spec fn rejection_of(response: SipResponseView) -> ErrorView {
    ErrorView::ProtocolRejected {
        status: response.status,
        text: status_text_of(response.status, response.reason),
    }
}

/// The `tag` parameter of the value of a `From` header, where the value is
/// well formed and has one.
pub uninterp spec fn from_tag_of(value: Seq<char>) -> Option<Seq<char>>;

/// The `tag` parameter of the value of a `To` header, where the value is well
/// formed and has one.
pub uninterp spec fn to_tag_of(value: Seq<char>) -> Option<Seq<char>>;

/// The sequence number in the value of a `CSeq` header, where the value is
/// well formed.
pub uninterp spec fn cseq_number_of(value: Seq<char>) -> Option<u32>;

/// The character sequence behind an optional string.
pub open spec fn text_of(text: Option<String>) -> Option<Seq<char>> {
    match text {
        Some(s) => Some(s@),
        None => None,
    }
}

/// Formats a status with `rsip::StatusCode`'s `Display`. The status is made
/// with `StatusCode::from`; where that gives `Other`, the reason phrase takes
/// the place of the filler that `from` puts there. Trusted: the text depends
/// on the number and the reason phrase alone, and `Display` writes the
/// number in decimal digits, a space, and then the name or the reason.
#[verifier::external_body]
pub(crate) fn status_text(status: u16, reason: &str) -> (text: String)
    ensures
        text@ == status_text_of(status, reason@),
        names_status(text@, status),
{
    match rsip::StatusCode::from(status) {
        rsip::StatusCode::Other(code, _) => rsip::StatusCode::Other(code, reason.to_string()),
        known => known,
    }.to_string()
}

/// Reads the tag with `rsip::headers::From::tag`. Trusted: the outcome
/// depends on the header value alone; a value that does not parse and a value
/// without a tag both give `None`.
#[verifier::external_body]
pub(crate) fn from_tag(value: &str) -> (tag: Option<String>)
    ensures
        text_of(tag) == from_tag_of(value@),
{
    rsip::headers::From::new(value).tag().ok().flatten().map(|t| t.value().to_string())
}

/// Reads the tag with `rsip::headers::To::tag`. Trusted: the outcome depends
/// on the header value alone; a value that does not parse and a value without
/// a tag both give `None`.
#[verifier::external_body]
pub(crate) fn to_tag(value: &str) -> (tag: Option<String>)
    ensures
        text_of(tag) == to_tag_of(value@),
{
    rsip::headers::To::new(value).tag().ok().flatten().map(|t| t.value().to_string())
}

/// Reads the sequence number with `rsip::headers::CSeq::seq`. Trusted: the
/// outcome depends on the header value alone; a value that does not parse
/// gives `None`.
#[verifier::external_body]
pub(crate) fn cseq_number(value: &str) -> (seq: Option<u32>)
    ensures
        seq == cseq_number_of(value@),
{
    rsip::headers::CSeq::new(value).seq().ok()
}

} // verus!
