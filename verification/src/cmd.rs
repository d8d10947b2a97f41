//! The commands: fire-and-forget queries and controls, their lazily
//! scheduled forms, the bounded-wait commands inside a dialog, and the
//! negotiation of a media session.
//!
//! A command works on the correlation table. The caller builds the request,
//! sends it, and feeds what the transport receives into the table with
//! [`CorrelationTable::fulfill`]; the functions here decide what a
//! registration looks like and what the queued replies mean.

use std::collections::HashMap;
use vstd::prelude::*;
use crate::error::{unit_view, worded, CmdError, ErrorView, Exchange, Malformation};
use crate::ident::{Ident, IdentView};
use crate::sdp::{
    codec_view, media_map, media_map_of, parse_session, sdp_parsed, AttributeView,
    SessionDescription,
};
use crate::sip::{
    cseq_number, cseq_number_of, disposition_of, from_tag, from_tag_of, rejection_of, text_of,
    to_tag, to_tag_of, AckRequest, Disposition, Envelope, EnvelopeView, SipResponse,
    SipResponseView,
};
use crate::table::{
    advanced, due_at, next_delivery, queue_of, registered, registration_result, swept,
    CorrelationTable, TableView, Waiter, WaiterView,
};

verus! {

/// How many deliveries the queue of a waiting command holds.
pub const REPLY_CAPACITY: usize = 10;

/// How long after its scheduling a lazy request is sent, in ticks of the
/// caller's clock.
pub const LAZY_DELAY: u64 = 2;

/// Namespace of the commands that answer a device.
pub struct CmdResponse;

/// Namespace of the queries and subscriptions.
pub struct CmdQuery;

/// Namespace of the device controls.
pub struct CmdControl;

/// Namespace of the notifications.
pub struct CmdNotify;

/// Namespace of the media-session commands.
pub struct CmdStream;

/// What a successful negotiation yields.
#[derive(Debug)]
pub struct NegotiatedSession {
    /// The reply that accepted the request.
    pub response: SipResponse,
    /// Codec name, in upper case, by payload type.
    pub media_map: HashMap<u8, String>,
    /// The tag of the initiator's side of the dialog.
    pub from_tag: String,
    /// The tag of the responder's side of the dialog.
    pub to_tag: String,
}

/// What a [`NegotiatedSession`] denotes.
pub ghost struct NegotiatedView {
    pub response: SipResponseView,
    pub media_map: Map<u8, Seq<char>>,
    pub from_tag: Seq<char>,
    pub to_tag: Seq<char>,
}

impl View for NegotiatedSession {
    type V = NegotiatedView;

    open spec fn view(&self) -> NegotiatedView {
        NegotiatedView {
            response: self.response@,
            media_map: codec_view(self.media_map@),
            from_tag: self.from_tag@,
            to_tag: self.to_tag@,
        }
    }
}

/// What the outcome of a negotiation denotes.
pub open spec fn outcome_view(r: Result<NegotiatedSession, CmdError>) -> Result<
    NegotiatedView,
    ErrorView,
> {
    match r {
        Ok(s) => Ok(s@),
        Err(e) => Err(e@),
    }
}

/// What the outcome of a poll denotes.
pub open spec fn progress_view(r: Option<Result<NegotiatedSession, CmdError>>) -> Option<
    Result<NegotiatedView, ErrorView>,
> {
    match r {
        Some(o) => Some(outcome_view(o)),
        None => None,
    }
}

/// The error of an exchange that got no accepting reply.
pub open spec fn unresponsive(exchange: Exchange) -> ErrorView {
    ErrorView::Unresponsive { exchange }
}

/// The error of a negotiation whose accepting reply has the defect `reason`.
pub open spec fn malformed(reason: Malformation) -> ErrorView {
    ErrorView::MalformedNegotiation { reason }
}

/// The outcome of a bounded-wait command whose first delivery is `delivery`.
/// A reply with status 200 is the success. A reply with status 300 or more
/// is a rejection that carries the status. Any other reply, the absence
/// signal and silence are the exchange's own failure to respond.
pub open spec fn bounded_outcome(exchange: Exchange, delivery: Option<EnvelopeView>) -> Result<
    (),
    ErrorView,
> {
    match delivery {
        Some(EnvelopeView::Reply { response, .. }) => if response.status == 200 {
            Ok(())
        } else if response.status >= 300 {
            Err(rejection_of(response))
        } else {
            Err(unresponsive(exchange))
        },
        _ => Err(unresponsive(exchange)),
    }
}

/// Whether a delivery ends a negotiation: the absence signal does, and so
/// does every reply that is not provisional.
pub open spec fn is_terminal(e: EnvelopeView) -> bool {
    match e {
        EnvelopeView::Absent => true,
        EnvelopeView::Reply { response, .. } => disposition_of(response.status)
            != Disposition::Provisional,
    }
}

/// The index of the first terminal delivery at or after `from`; the length
/// where there is none.
pub open spec fn first_terminal(q: Seq<EnvelopeView>, from: int) -> int
    decreases q.len() - from,
{
    if 0 <= from < q.len() && !is_terminal(q[from]) {
        first_terminal(q, from + 1)
    } else {
        from
    }
}

/// Where a negotiation stands.
#[derive(Clone, Copy, Debug, PartialEq, Eq, Structural)]
pub enum InviteState {
    /// The request is sent and no terminal delivery has arrived.
    Sent,
    /// A reply with status 200 arrived first.
    Accepted,
    /// A reply with status 300 or more arrived first.
    Rejected,
    /// The wait ended without a terminal reply.
    TimedOut,
}

/// The state after one more delivery: a negotiation that is decided stays as
/// it is; one that waits is moved by the delivery's kind.
pub open spec fn state_after(state: InviteState, e: EnvelopeView) -> InviteState {
    if state != InviteState::Sent {
        state
    } else {
        match e {
            EnvelopeView::Absent => InviteState::TimedOut,
            EnvelopeView::Reply { response, .. } => match disposition_of(response.status) {
                Disposition::Provisional => InviteState::Sent,
                Disposition::Accepted => InviteState::Accepted,
                Disposition::Rejected => InviteState::Rejected,
            },
        }
    }
}

/// The state of a negotiation that started as `state` and then got the
/// deliveries `q`, in their order.
pub open spec fn state_after_all(state: InviteState, q: Seq<EnvelopeView>) -> InviteState
    decreases q.len(),
{
    if q.len() == 0 {
        state
    } else {
        state_after(state_after_all(state, q.drop_last()), q.last())
    }
}

/// The state of a negotiation whose wait has ended: one that still waited
/// has timed out.
pub open spec fn state_at_end(state: InviteState) -> InviteState {
    if state == InviteState::Sent {
        InviteState::TimedOut
    } else {
        state
    }
}

impl InviteState {
    /// Whether the negotiation is decided.
    pub fn is_final(&self) -> (decided: bool)
        ensures
            decided == (*self != InviteState::Sent),
    {
        match self {
            InviteState::Sent => false,
            _ => true,
        }
    }

    /// The state after `envelope` was delivered.
    pub fn on_delivery(self, envelope: &Envelope) -> (next: InviteState)
        ensures
            next == state_after(self, envelope@),
    {
        if self.is_final() {
            return self;
        }
        match envelope {
            Envelope::Absent => InviteState::TimedOut,
            Envelope::Reply { response, branch } => match response.disposition() {
                Disposition::Provisional => InviteState::Sent,
                Disposition::Accepted => InviteState::Accepted,
                Disposition::Rejected => InviteState::Rejected,
            },
        }
    }

    /// The state after the wait ended.
    pub fn on_timeout(self) -> (next: InviteState)
        ensures
            next == state_at_end(self),
    {
        if self.is_final() {
            self
        } else {
            InviteState::TimedOut
        }
    }
}

/// The tag of the initiator's side: that of the `From` header.
pub open spec fn initiator_tag_of(response: SipResponseView) -> Option<Seq<char>> {
    match response.from {
        Some(value) => from_tag_of(value),
        None => None,
    }
}

/// The tag of the responder's side: that of the `To` header.
pub open spec fn responder_tag_of(response: SipResponseView) -> Option<Seq<char>> {
    match response.to {
        Some(value) => to_tag_of(value),
        None => None,
    }
}

/// The outcome of an accepted negotiation, given what was read from the
/// accepting reply: its media sections and the two tags. The payload mappings
/// are read first, then the initiator's tag, then the responder's.
pub open spec fn negotiated(
    response: SipResponseView,
    medias: Option<Seq<Seq<AttributeView>>>,
    initiator: Option<Seq<char>>,
    responder: Option<Seq<char>>,
) -> Result<NegotiatedView, ErrorView> {
    match medias {
        None => Err(malformed(Malformation::SessionDescription)),
        Some(sections) => match media_map_of(sections) {
            Err(e) => Err(e),
            Ok(table) => match initiator {
                None => Err(malformed(Malformation::InitiatorTag)),
                Some(from_tag) => match responder {
                    None => Err(malformed(Malformation::ResponderTag)),
                    Some(to_tag) => Ok(
                        NegotiatedView { response, media_map: table, from_tag, to_tag },
                    ),
                },
            },
        },
    }
}

/// The outcome of a negotiation that the reply `response` accepted.
pub open spec fn accepted_outcome(response: SipResponseView) -> Result<NegotiatedView, ErrorView> {
    negotiated(
        response,
        sdp_parsed(response.body),
        initiator_tag_of(response),
        responder_tag_of(response),
    )
}

/// The outcome that a terminal delivery gives a negotiation.
pub open spec fn terminal_outcome(e: EnvelopeView) -> Result<NegotiatedView, ErrorView> {
    match e {
        EnvelopeView::Absent => Err(unresponsive(Exchange::Invite)),
        EnvelopeView::Reply { response, .. } => if response.status >= 300 {
            Err(rejection_of(response))
        } else {
            accepted_outcome(response)
        },
    }
}

/// Where a negotiation stands after the deliveries `q`: undecided as long as
/// all of them are provisional, and decided by the first terminal one.
pub open spec fn invite_progress(q: Seq<EnvelopeView>) -> Option<
    Result<NegotiatedView, ErrorView>,
> {
    let i = first_terminal(q, 0);
    if i < q.len() {
        Some(terminal_outcome(q[i]))
    } else {
        None
    }
}

/// The outcome of a negotiation whose wait ended with the deliveries `q`:
/// what the first terminal delivery gives, and a timeout where there is none.
pub open spec fn invite_outcome(q: Seq<EnvelopeView>) -> Result<NegotiatedView, ErrorView> {
    match invite_progress(q) {
        Some(outcome) => outcome,
        None => Err(unresponsive(Exchange::Invite)),
    }
}

/// The outcome of reading the acknowledgment's identity, given its call
/// identifier and the sequence number read from it.
pub open spec fn ack_identity_of(call_id: Option<Seq<char>>, seq: Option<u32>) -> Result<
    (Seq<char>, u32),
    ErrorView,
> {
    match call_id {
        None => Err(malformed(Malformation::CallId)),
        Some(id) => match seq {
            None => Err(malformed(Malformation::Sequence)),
            Some(n) => Ok((id, n)),
        },
    }
}

/// The sequence number of an acknowledgment: that of its `CSeq` header.
pub open spec fn ack_sequence_of(cseq: Option<Seq<char>>) -> Option<u32> {
    match cseq {
        Some(value) => cseq_number_of(value),
        None => None,
    }
}

/// What the outcome of reading an acknowledgment's identity denotes.
pub open spec fn identity_view(r: Result<(String, u32), CmdError>) -> Result<
    (Seq<char>, u32),
    ErrorView,
> {
    match r {
        Ok((id, n)) => Ok((id@, n)),
        Err(e) => Err(e@),
    }
}

/// Registers a request that is sent at once and whose reply nobody reads.
/// `Ok` tells the caller to hand the request to the transport. The
/// registration lasts until the reply arrives or the clock reaches
/// `expires_at`.
pub fn send_detached(table: &mut CorrelationTable, ident: Ident, expires_at: u64) -> (r: Result<
    (),
    CmdError,
>)
    ensures
        unit_view(r) == registration_result(old(table)@, ident@),
        final(table)@ == registered(old(table)@, ident@, WaiterView::Detached { expires_at }),
{
    table.register(ident, Waiter::Detached { expires_at })
}

/// What scheduling a request at `now` does to what the sweeps hand out. At
/// any time before `now + LAZY_DELAY` a sweep hands out exactly what it
/// would have handed out without the scheduling: the new request is not
/// among it. Where the identifier was free, such a sweep leaves the new
/// request in the table.
pub open spec fn lazily_sent(before: TableView, after: TableView, id: IdentView, now: u64) -> bool {
    &&& forall|at: u64, other: IdentView|
        at < now + LAZY_DELAY ==> (#[trigger] due_at(after, other, at) == due_at(before, other, at))
    &&& forall|at: u64|
        at < now + LAZY_DELAY && !before.contains_key(id) ==> #[trigger] swept(
            after,
            at,
        ).contains_key(id)
}

/// Registers a request that is to be sent `LAZY_DELAY` ticks after `now`.
/// `Ok` tells the caller that the request waits in the table; it comes out of
/// [`CorrelationTable::take_due`] once its time has come. Where that time
/// lies beyond the end of the clock, it never comes.
pub fn send_lazily(table: &mut CorrelationTable, ident: Ident, request: Vec<u8>, now: u64) -> (r:
    Result<(), CmdError>)
    ensures
        unit_view(r) == registration_result(old(table)@, ident@),
        final(table)@ == registered(
            old(table)@,
            ident@,
            WaiterView::Deferred { fire_at: (now + LAZY_DELAY) as nat, request: request@ },
        ),
        lazily_sent(old(table)@, final(table)@, ident@, now),
{
    table.schedule(ident, request, now as u128 + LAZY_DELAY as u128)
}

/// Ends a bounded-wait command: takes the first delivery, deregisters the
/// identifier, and judges the delivery. A reply with status 200 succeeds, a
/// reply with status 300 or more rejects with its status, and everything
/// else, silence included, is the exchange's failure to respond.
pub fn conclude_wait(table: &mut CorrelationTable, ident: &Ident, exchange: Exchange) -> (r: Result<
    (),
    CmdError,
>)
    ensures
        unit_view(r) == bounded_outcome(exchange, next_delivery(old(table)@, ident@)),
        r matches Err(e) ==> worded(e@),
        final(table)@ == old(table)@.remove(ident@),
{
    let ghost before = table@;
    let first = table.receive(ident);
    table.remove(ident);
    assert(table@ =~= before.remove(ident@));
    match first {
        Some(Envelope::Reply { response, branch }) => {
            if response.status == 200 {
                Ok(())
            } else if response.status >= 300 {
                Err(response.rejection())
            } else {
                Err(CmdError::Unresponsive { exchange })
            }
        },
        _ => Err(CmdError::Unresponsive { exchange }),
    }
}

impl CmdQuery {
    /// Queries the presets of a channel; the reply is not awaited, and the
    /// registration lasts until the reply or until `expires_at`.
    pub fn query_preset(table: &mut CorrelationTable, ident: Ident, expires_at: u64) -> (r: Result<
        (),
        CmdError,
    >)
        ensures
            unit_view(r) == registration_result(old(table)@, ident@),
            final(table)@ == registered(
                old(table)@,
                ident@,
                WaiterView::Detached { expires_at },
            ),
    {
        send_detached(table, ident, expires_at)
    }

    /// Queries the device's description; the reply is not awaited, and the
    /// registration lasts until the reply or until `expires_at`.
    pub fn query_device_info(table: &mut CorrelationTable, ident: Ident, expires_at: u64) -> (r: Result<
        (),
        CmdError,
    >)
        ensures
            unit_view(r) == registration_result(old(table)@, ident@),
            final(table)@ == registered(
                old(table)@,
                ident@,
                WaiterView::Detached { expires_at },
            ),
    {
        send_detached(table, ident, expires_at)
    }

    /// Queries the device's catalog; the reply is not awaited, and the
    /// registration lasts until the reply or until `expires_at`.
    pub fn query_device_catalog(table: &mut CorrelationTable, ident: Ident, expires_at: u64) -> (r: Result<
        (),
        CmdError,
    >)
        ensures
            unit_view(r) == registration_result(old(table)@, ident@),
            final(table)@ == registered(
                old(table)@,
                ident@,
                WaiterView::Detached { expires_at },
            ),
    {
        send_detached(table, ident, expires_at)
    }

    /// Subscribes to the device's catalog; the reply is not awaited, and the
    /// registration lasts until the reply or until `expires_at`.
    pub fn subscribe_device_catalog(table: &mut CorrelationTable, ident: Ident, expires_at: u64) -> (r: Result<
        (),
        CmdError,
    >)
        ensures
            unit_view(r) == registration_result(old(table)@, ident@),
            final(table)@ == registered(
                old(table)@,
                ident@,
                WaiterView::Detached { expires_at },
            ),
    {
        send_detached(table, ident, expires_at)
    }

    /// Schedules the query for the device's description `LAZY_DELAY` ticks
    /// after `now`.
    pub fn lazy_query_device_info(
        table: &mut CorrelationTable,
        ident: Ident,
        request: Vec<u8>,
        now: u64,
    ) -> (r: Result<(), CmdError>)
        ensures
            unit_view(r) == registration_result(old(table)@, ident@),
            final(table)@ == registered(
                old(table)@,
                ident@,
                WaiterView::Deferred { fire_at: (now + LAZY_DELAY) as nat, request: request@ },
            ),
            lazily_sent(old(table)@, final(table)@, ident@, now),
    {
        send_lazily(table, ident, request, now)
    }

    /// Schedules the query for the device's catalog `LAZY_DELAY` ticks after
    /// `now`.
    pub fn lazy_query_device_catalog(
        table: &mut CorrelationTable,
        ident: Ident,
        request: Vec<u8>,
        now: u64,
    ) -> (r: Result<(), CmdError>)
        ensures
            unit_view(r) == registration_result(old(table)@, ident@),
            final(table)@ == registered(
                old(table)@,
                ident@,
                WaiterView::Deferred { fire_at: (now + LAZY_DELAY) as nat, request: request@ },
            ),
            lazily_sent(old(table)@, final(table)@, ident@, now),
    {
        send_lazily(table, ident, request, now)
    }

    /// Schedules the subscription to the device's catalog `LAZY_DELAY` ticks
    /// after `now`.
    pub fn lazy_subscribe_device_catalog(
        table: &mut CorrelationTable,
        ident: Ident,
        request: Vec<u8>,
        now: u64,
    ) -> (r: Result<(), CmdError>)
        ensures
            unit_view(r) == registration_result(old(table)@, ident@),
            final(table)@ == registered(
                old(table)@,
                ident@,
                WaiterView::Deferred { fire_at: (now + LAZY_DELAY) as nat, request: request@ },
            ),
            lazily_sent(old(table)@, final(table)@, ident@, now),
    {
        send_lazily(table, ident, request, now)
    }
}

impl CmdControl {
    /// Moves a camera; the reply is not awaited, and the
    /// registration lasts until the reply or until `expires_at`.
    pub fn control_ptz(table: &mut CorrelationTable, ident: Ident, expires_at: u64) -> (r: Result<
        (),
        CmdError,
    >)
        ensures
            unit_view(r) == registration_result(old(table)@, ident@),
            final(table)@ == registered(
                old(table)@,
                ident@,
                WaiterView::Detached { expires_at },
            ),
    {
        send_detached(table, ident, expires_at)
    }

    /// Asks a channel for snapshots; the reply is not awaited, and the
    /// registration lasts until the reply or until `expires_at`.
    pub fn snapshot_image(table: &mut CorrelationTable, ident: Ident, expires_at: u64) -> (r: Result<
        (),
        CmdError,
    >)
        ensures
            unit_view(r) == registration_result(old(table)@, ident@),
            final(table)@ == registered(
                old(table)@,
                ident@,
                WaiterView::Detached { expires_at },
            ),
    {
        send_detached(table, ident, expires_at)
    }
}

impl CmdStream {
    /// Opens the wait of a command that reads its reply: registers a queue of
    /// `REPLY_CAPACITY` deliveries under `ident`. `Ok` tells the caller to
    /// hand the request to the transport.
    pub fn open_wait(table: &mut CorrelationTable, ident: Ident) -> (r: Result<(), CmdError>)
        ensures
            unit_view(r) == registration_result(old(table)@, ident@),
            final(table)@ == registered(
                old(table)@,
                ident@,
                WaiterView::Channel { capacity: REPLY_CAPACITY as nat, queue: Seq::empty() },
            ),
    {
        let queue: Vec<Envelope> = Vec::new();
        assert(queue@.map_values(|e: Envelope| e@) =~= Seq::<EnvelopeView>::empty());
        table.register(ident, Waiter::Channel { capacity: REPLY_CAPACITY, queue })
    }

    /// Ends the wait of a speed change. Succeeds where the first delivery is
    /// a reply with status 200, rejects where it is a reply with status 300
    /// or more, and fails as unresponsive otherwise; the identifier is
    /// deregistered in every case.
    pub fn play_speed(table: &mut CorrelationTable, ident: &Ident) -> (r: Result<(), CmdError>)
        ensures
            unit_view(r) == bounded_outcome(Exchange::Speed, next_delivery(old(table)@, ident@)),
            r matches Err(e) ==> worded(e@),
            final(table)@ == old(table)@.remove(ident@),
            !final(table)@.contains_key(ident@),
    {
        conclude_wait(table, ident, Exchange::Speed)
    }

    /// Ends the wait of a seek. Succeeds where the first delivery is a reply
    /// with status 200, rejects where it is a reply with status 300 or more,
    /// and fails as unresponsive otherwise; the identifier is deregistered in
    /// every case.
    pub fn play_seek(table: &mut CorrelationTable, ident: &Ident) -> (r: Result<(), CmdError>)
        ensures
            unit_view(r) == bounded_outcome(Exchange::Seek, next_delivery(old(table)@, ident@)),
            r matches Err(e) ==> worded(e@),
            final(table)@ == old(table)@.remove(ident@),
            !final(table)@.contains_key(ident@),
    {
        conclude_wait(table, ident, Exchange::Seek)
    }

    /// Ends the wait of a session's termination. Succeeds where the first
    /// delivery is a reply with status 200, rejects where it is a reply with
    /// status 300 or more, and fails as unresponsive otherwise; the
    /// identifier is deregistered in every case.
    pub fn play_bye(table: &mut CorrelationTable, ident: &Ident) -> (r: Result<(), CmdError>)
        ensures
            unit_view(r) == bounded_outcome(Exchange::Bye, next_delivery(old(table)@, ident@)),
            r matches Err(e) ==> worded(e@),
            final(table)@ == old(table)@.remove(ident@),
            !final(table)@.contains_key(ident@),
    {
        conclude_wait(table, ident, Exchange::Bye)
    }

    /// Puts the result of an accepted negotiation together from what was
    /// read out of the accepting reply: its session description, if the body
    /// is one, and the two tags, where the headers carry them.
    pub fn accept(
        response: SipResponse,
        session: Option<SessionDescription>,
        initiator: Option<String>,
        responder: Option<String>,
    ) -> (r: Result<NegotiatedSession, CmdError>)
        ensures
            outcome_view(r) == negotiated(
                response@,
                crate::sdp::session_view(session),
                text_of(initiator),
                text_of(responder),
            ),
            r matches Err(e) ==> worded(e@),
    {
        let description = match session {
            Some(d) => d,
            None => {
                return Err(
                    CmdError::MalformedNegotiation { reason: Malformation::SessionDescription },
                );
            },
        };
        let table = match media_map(&description) {
            Ok(m) => m,
            Err(e) => {
                return Err(e);
            },
        };
        let from_tag = match initiator {
            Some(t) => t,
            None => {
                return Err(CmdError::MalformedNegotiation { reason: Malformation::InitiatorTag });
            },
        };
        let to_tag = match responder {
            Some(t) => t,
            None => {
                return Err(CmdError::MalformedNegotiation { reason: Malformation::ResponderTag });
            },
        };
        Ok(NegotiatedSession { response, media_map: table, from_tag, to_tag })
    }

    /// Reads an accepting reply: parses its body as a session description,
    /// builds the codec table from the payload mappings, and takes the two
    /// tags from the address headers.
    pub fn negotiate(response: SipResponse) -> (r: Result<NegotiatedSession, CmdError>)
        ensures
            outcome_view(r) == accepted_outcome(response@),
            r matches Err(e) ==> worded(e@),
    {
        let session = parse_session(response.body.as_slice());
        let initiator = match &response.from {
            Some(value) => from_tag(value.as_str()),
            None => None,
        };
        let responder = match &response.to {
            Some(value) => to_tag(value.as_str()),
            None => None,
        };
        Self::accept(response, session, initiator, responder)
    }

    /// Works through the deliveries that are queued under `ident`.
    /// Provisional replies are taken out and passed over. The first terminal
    /// delivery decides the negotiation: the identifier is deregistered and
    /// the outcome returned. Where no terminal delivery is queued the
    /// negotiation is undecided: `None`, and the identifier stays registered
    /// with an empty queue.
    pub fn invite_poll(table: &mut CorrelationTable, ident: &Ident) -> (r: Option<
        Result<NegotiatedSession, CmdError>,
    >)
        ensures
            progress_view(r) == invite_progress(queue_of(old(table)@, ident@)),
            r matches Some(Err(e)) ==> worded(e@),
            final(table)@ == (if r is Some {
                old(table)@.remove(ident@)
            } else {
                advanced(old(table)@, ident@, queue_of(old(table)@, ident@).len() as int)
            }),
    {
        let ghost start = table@;
        let ghost q = queue_of(start, ident@);
        let ghost mut k: int = 0;
        assert(q.skip(0) =~= q);
        assert(advanced(start, ident@, 0) =~= start);
        loop
            invariant
                0 <= k <= q.len(),
                start == old(table)@,
                q == queue_of(start, ident@),
                first_terminal(q, 0) == first_terminal(q, k),
                table@ == advanced(start, ident@, k),
            decreases q.len() - k,
        {
            let ghost current = table@;
            assert(queue_of(current, ident@) =~= q.skip(k));
            let delivery = table.receive(ident);
            match delivery {
                None => {
                    assert(k == q.len());
                    return None;
                },
                Some(envelope) => {
                    assert(envelope@ == q[k]);
                    assert(table@ =~= advanced(start, ident@, k + 1)) by {
                        assert(q.skip(k).skip(1) =~= q.skip(k + 1));
                    }
                    match envelope {
                        Envelope::Absent => {
                            table.remove(ident);
                            assert(table@ =~= start.remove(ident@));
                            return Some(
                                Err(CmdError::Unresponsive { exchange: Exchange::Invite }),
                            );
                        },
                        Envelope::Reply { response, branch } => {
                            match response.disposition() {
                                Disposition::Provisional => {
                                    proof {
                                        k = k + 1;
                                    }
                                },
                                Disposition::Rejected => {
                                    table.remove(ident);
                                    assert(table@ =~= start.remove(ident@));
                                    return Some(Err(response.rejection()));
                                },
                                Disposition::Accepted => {
                                    table.remove(ident);
                                    assert(table@ =~= start.remove(ident@));
                                    return Some(Self::negotiate(response));
                                },
                            }
                        },
                    }
                },
            }
        }
    }

    /// Ends the wait of a negotiation. The queued deliveries are worked
    /// through in the order of their arrival: provisional replies are passed
    /// over, a reply with status 300 or more rejects, a reply with status 200
    /// accepts and is read, and the absence signal or the end of the queue is
    /// a timeout. The identifier is deregistered in every case.
    pub fn invite_stream(table: &mut CorrelationTable, ident: &Ident) -> (r: Result<
        NegotiatedSession,
        CmdError,
    >)
        ensures
            outcome_view(r) == invite_outcome(queue_of(old(table)@, ident@)),
            r matches Err(e) ==> worded(e@),
            final(table)@ == old(table)@.remove(ident@),
            !final(table)@.contains_key(ident@),
    {
        let ghost start = table@;
        match Self::invite_poll(table, ident) {
            Some(outcome) => outcome,
            None => {
                table.remove(ident);
                assert(table@ =~= start.remove(ident@));
                Err(CmdError::Unresponsive { exchange: Exchange::Invite })
            },
        }
    }

    /// Ends the wait of the negotiation of a download; see
    /// [`CmdStream::invite_stream`].
    pub fn download_invite(table: &mut CorrelationTable, ident: &Ident) -> (r: Result<
        NegotiatedSession,
        CmdError,
    >)
        ensures
            outcome_view(r) == invite_outcome(queue_of(old(table)@, ident@)),
            r matches Err(e) ==> worded(e@),
            final(table)@ == old(table)@.remove(ident@),
            !final(table)@.contains_key(ident@),
    {
        Self::invite_stream(table, ident)
    }

    /// Ends the wait of the negotiation of a playback; see
    /// [`CmdStream::invite_stream`].
    pub fn play_back_invite(table: &mut CorrelationTable, ident: &Ident) -> (r: Result<
        NegotiatedSession,
        CmdError,
    >)
        ensures
            outcome_view(r) == invite_outcome(queue_of(old(table)@, ident@)),
            r matches Err(e) ==> worded(e@),
            final(table)@ == old(table)@.remove(ident@),
            !final(table)@.contains_key(ident@),
    {
        Self::invite_stream(table, ident)
    }

    /// Ends the wait of the negotiation of a live view; see
    /// [`CmdStream::invite_stream`].
    pub fn play_live_invite(table: &mut CorrelationTable, ident: &Ident) -> (r: Result<
        NegotiatedSession,
        CmdError,
    >)
        ensures
            outcome_view(r) == invite_outcome(queue_of(old(table)@, ident@)),
            r matches Err(e) ==> worded(e@),
            final(table)@ == old(table)@.remove(ident@),
            !final(table)@.contains_key(ident@),
    {
        Self::invite_stream(table, ident)
    }

    /// Names the dialog from the acknowledgment's call identifier and the
    /// sequence number that was read from it. The call identifier is looked
    /// at first.
    pub fn ack_identity(call_id: Option<String>, seq: Option<u32>) -> (r: Result<
        (String, u32),
        CmdError,
    >)
        ensures
            identity_view(r) == ack_identity_of(text_of(call_id), seq),
    {
        match call_id {
            None => Err(CmdError::MalformedNegotiation { reason: Malformation::CallId }),
            Some(id) => match seq {
                None => Err(CmdError::MalformedNegotiation { reason: Malformation::Sequence }),
                Some(n) => Ok((id, n)),
            },
        }
    }

    /// Takes from an acknowledgment what later requests in the dialog need:
    /// its call identifier and its sequence number. The acknowledgment itself
    /// is sent by the caller, without a wait.
    pub fn invite_ack(ack: &AckRequest) -> (r: Result<(String, u32), CmdError>)
        ensures
            identity_view(r) == ack_identity_of(text_of(ack.call_id), ack_sequence_of(text_of(ack.cseq))),
    {
        let seq = match &ack.cseq {
            Some(value) => cseq_number(value.as_str()),
            None => None,
        };
        Self::ack_identity(ack.call_id.clone(), seq)
    }
}

} // verus!
