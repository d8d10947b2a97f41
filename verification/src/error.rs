//! The closed set of failures that a command or a negotiation can end in.

use vstd::prelude::*;
use vstd::string::StringExecFns;
use crate::text::decimal_text;

verus! {

/// The exchanges that wait for a reply. Each has its own wording when the
/// device does not respond.
#[derive(Clone, Copy, Debug, PartialEq, Eq, Structural)]
pub enum Exchange {
    /// Negotiation of a media session.
    Invite,
    /// Change of playback speed inside a dialog.
    Speed,
    /// Seek inside a dialog.
    Seek,
    /// Termination of a dialog.
    Bye,
}

/// What was wrong with a reply that nominally accepted a negotiation.
#[derive(Clone, Copy, Debug, PartialEq, Eq, Structural)]
pub enum Malformation {
    /// The body is not a session description.
    SessionDescription,
    /// A payload mapping whose payload type is not a number from 0 to 255.
    PayloadType,
    /// The initiator's address header is absent or carries no tag.
    InitiatorTag,
    /// The responder's address header is absent or carries no tag.
    ResponderTag,
    /// The acknowledgment carries no call identifier.
    CallId,
    /// The acknowledgment carries no usable sequence number.
    Sequence,
}

/// Why a command failed.
#[derive(Debug, PartialEq, Eq)]
pub enum CmdError {
    /// The identifier already has a registration; the existing one is kept.
    RegistrationConflict,
    /// The device answered with a final status that refuses the request.
    /// `text` is the status as the protocol library prints it: the number, a
    /// space, and the reason.
    ProtocolRejected { status: u16, text: String },
    /// The wait ended without a final reply: nothing arrived, or only replies
    /// that neither accept nor refuse.
    Unresponsive { exchange: Exchange },
    /// The device accepted, but its reply cannot be used.
    MalformedNegotiation { reason: Malformation },
}

/// What a [`CmdError`] denotes.
pub ghost enum ErrorView {
    RegistrationConflict,
    ProtocolRejected { status: u16, text: Seq<char> },
    Unresponsive { exchange: Exchange },
    MalformedNegotiation { reason: Malformation },
}

impl View for CmdError {
    type V = ErrorView;

    open spec fn view(&self) -> ErrorView {
        match self {
            CmdError::RegistrationConflict => ErrorView::RegistrationConflict,
            CmdError::ProtocolRejected { status, text } => ErrorView::ProtocolRejected {
                status: *status,
                text: text@,
            },
            CmdError::Unresponsive { exchange } => ErrorView::Unresponsive { exchange: *exchange },
            CmdError::MalformedNegotiation { reason } => ErrorView::MalformedNegotiation {
                reason: *reason,
            },
        }
    }
}

impl Clone for CmdError {
    fn clone(&self) -> (e: CmdError)
        ensures
            e@ == self@,
    {
        match self {
            CmdError::RegistrationConflict => CmdError::RegistrationConflict,
            CmdError::ProtocolRejected { status, text } => CmdError::ProtocolRejected {
                status: *status,
                text: text.clone(),
            },
            CmdError::Unresponsive { exchange } => CmdError::Unresponsive { exchange: *exchange },
            CmdError::MalformedNegotiation { reason } => CmdError::MalformedNegotiation {
                reason: *reason,
            },
        }
    }
}

/// What the outcome of a command without a result denotes.
pub open spec fn unit_view(r: Result<(), CmdError>) -> Result<(), ErrorView> {
    match r {
        Ok(_) => Ok(()),
        Err(e) => Err(e@),
    }
}

/// Whether a text begins with the decimal digits of `status` and a space.
pub open spec fn names_status(text: Seq<char>, status: u16) -> bool {
    (decimal_text(status as nat) + seq![' ']).is_prefix_of(text)
}

/// Whether an error is worded as the commands word it: the text of a
/// rejection begins with the number of its status.
pub open spec fn worded(error: ErrorView) -> bool {
    error matches ErrorView::ProtocolRejected { status, text } ==> names_status(text, status)
}

/// The business code of a failure: 3000 for a rejection, 1000 for a device
/// that does not respond, none for the others.
pub open spec fn code_of(error: ErrorView) -> Option<u16> {
    match error {
        ErrorView::ProtocolRejected { .. } => Some(3000u16),
        ErrorView::Unresponsive { .. } => Some(1000u16),
        _ => None,
    }
}

/// The wording for a silent device, per exchange.
pub open spec fn unresponsive_text(exchange: Exchange) -> Seq<char> {
    match exchange {
        Exchange::Invite => "摄像机响应超时"@,
        Exchange::Speed => "speed倍速未响应或超时"@,
        Exchange::Seek => "seek拖动未响应或超时"@,
        Exchange::Bye => "关闭摄像机直播未响应或超时"@,
    }
}

/// The wording for an unusable reply, per defect.
pub open spec fn malformation_text(reason: Malformation) -> Seq<char> {
    match reason {
        Malformation::SessionDescription => "body is not a session description"@,
        Malformation::PayloadType => "payload type is not a number from 0 to 255"@,
        Malformation::InitiatorTag => "initiator tag is missing"@,
        Malformation::ResponderTag => "responder tag is missing"@,
        Malformation::CallId => "call identifier is missing"@,
        Malformation::Sequence => "sequence number is missing or malformed"@,
    }
}

/// The message of an error: for a rejection its text; for the others a
/// fixed wording.
pub open spec fn message_text(error: ErrorView) -> Seq<char> {
    match error {
        ErrorView::RegistrationConflict => "dialog identifier is already registered"@,
        ErrorView::ProtocolRejected { text, .. } => text,
        ErrorView::Unresponsive { exchange } => unresponsive_text(exchange),
        ErrorView::MalformedNegotiation { reason } => malformation_text(reason),
    }
}

impl Exchange {
    /// The wording used when this exchange got no accepting reply.
    pub fn unresponsive_message(&self) -> (text: String)
        ensures
            text@ == unresponsive_text(*self),
    {
        match self {
            Exchange::Invite => String::from_str("摄像机响应超时"),
            Exchange::Speed => String::from_str("speed倍速未响应或超时"),
            Exchange::Seek => String::from_str("seek拖动未响应或超时"),
            Exchange::Bye => String::from_str("关闭摄像机直播未响应或超时"),
        }
    }
}

impl Malformation {
    /// The wording for this defect.
    pub fn message(&self) -> (text: String)
        ensures
            text@ == malformation_text(*self),
    {
        match self {
            Malformation::SessionDescription => String::from_str(
                "body is not a session description",
            ),
            Malformation::PayloadType => String::from_str(
                "payload type is not a number from 0 to 255",
            ),
            Malformation::InitiatorTag => String::from_str("initiator tag is missing"),
            Malformation::ResponderTag => String::from_str("responder tag is missing"),
            Malformation::CallId => String::from_str("call identifier is missing"),
            Malformation::Sequence => String::from_str("sequence number is missing or malformed"),
        }
    }
}

impl CmdError {
    /// The message shown to the caller. The message of a rejection that a
    /// command produced begins with the number of its status.
    pub fn message(&self) -> (text: String)
        ensures
            text@ == message_text(self@),
            worded(self@) && self@ is ProtocolRejected ==> names_status(
                text@,
                self@->ProtocolRejected_status,
            ),
    {
        match self {
            CmdError::RegistrationConflict => String::from_str(
                "dialog identifier is already registered",
            ),
            CmdError::ProtocolRejected { status, text } => text.clone(),
            CmdError::Unresponsive { exchange } => exchange.unresponsive_message(),
            CmdError::MalformedNegotiation { reason } => reason.message(),
        }
    }

    /// The business code of the failure, where it has one.
    pub fn code(&self) -> (code: Option<u16>)
        ensures
            code == code_of(self@),
    {
        match self {
            CmdError::ProtocolRejected { .. } => Some(3000),
            CmdError::Unresponsive { .. } => Some(1000),
            _ => None,
        }
    }
}

} // verus!
