//! What holds of the table and of the commands together, whatever the
//! inputs.

use vstd::prelude::*;
use crate::cmd::{
    accepted_outcome, bounded_outcome, first_terminal,
    invite_outcome, invite_progress, is_terminal, state_after, state_after_all, state_at_end,
    unresponsive, InviteState, NegotiatedView, LAZY_DELAY,
};
use crate::error::{ErrorView, Exchange};
use crate::ident::IdentView;
use crate::sdp::{codecs_of, entry_of, mapping_of, section_codecs, AttributeView};
use crate::text::{ascii_upper, is_ascii_text, squeezed, trimmed, upper_of};
use crate::sip::{rejection_of, EnvelopeView, SipResponseView};
use crate::table::{
    accepts, due_at, fulfilled, is_due, is_stale, next_delivery, queue_of, received, registered,
    registration_result, swept, TableView, WaiterView,
};

verus! {

/// Whether every delivery in `q` is a provisional reply.
pub open spec fn all_provisional(q: Seq<EnvelopeView>) -> bool {
    forall|i: int| 0 <= i < q.len() ==> !is_terminal(#[trigger] q[i])
}

/// The search for a terminal delivery ends between its start and the end of
/// the queue.
proof fn lemma_first_terminal_bounds(q: Seq<EnvelopeView>, from: int)
    requires
        0 <= from <= q.len(),
    ensures
        from <= first_terminal(q, from) <= q.len(),
    decreases q.len() - from,
{
    if from < q.len() && !is_terminal(q[from]) {
        lemma_first_terminal_bounds(q, from + 1);
    }
}

/// Behind the provisional deliveries `p`, the search for a terminal delivery
/// goes on in `rest` as it would without them.
proof fn lemma_first_terminal_behind(p: Seq<EnvelopeView>, rest: Seq<EnvelopeView>, j: int)
    requires
        0 <= j <= rest.len(),
    ensures
        first_terminal(p + rest, p.len() + j) == p.len() + first_terminal(rest, j),
    decreases rest.len() - j,
{
    if j < rest.len() {
        assert((p + rest)[p.len() + j] == rest[j]);
        lemma_first_terminal_behind(p, rest, j + 1);
    }
}

/// The search for a terminal delivery passes over provisional ones.
proof fn lemma_first_terminal_passes(p: Seq<EnvelopeView>, rest: Seq<EnvelopeView>, from: int)
    requires
        all_provisional(p),
        0 <= from <= p.len(),
    ensures
        first_terminal(p + rest, from) == p.len() + first_terminal(rest, 0),
    decreases p.len() - from,
{
    if from < p.len() {
        assert((p + rest)[from] == p[from]);
        lemma_first_terminal_passes(p, rest, from + 1);
    } else {
        lemma_first_terminal_behind(p, rest, 0);
    }
}

/// Once an exchange has ended, its identifier has no waiter: removal leaves
/// nothing behind, and removing again changes nothing.
pub proof fn law_removal_leaves_no_waiter(t: TableView, id: IdentView)
    ensures
        !t.remove(id).contains_key(id),
        t.remove(id).remove(id) == t.remove(id),
        forall|other: IdentView|
            other != id ==> (#[trigger] t.remove(id).contains_key(other) <==> t.contains_key(other)),
{
    assert(t.remove(id).remove(id) =~= t.remove(id));
}

/// A delivery that arrives after its identifier was deregistered is dropped:
/// it is not taken, the table stays as it is, and nobody can receive it.
pub proof fn law_late_delivery_is_dropped(t: TableView, id: IdentView, envelope: EnvelopeView)
    ensures
        !accepts(t.remove(id), id),
        fulfilled(t.remove(id), id, envelope) == t.remove(id),
        next_delivery(fulfilled(t.remove(id), id, envelope), id) is None,
{
}

/// A reply ends the exchange of a request that was sent without a wait:
/// nobody takes the delivery, the identifier is free again, and every other
/// registration stays.
pub proof fn law_reply_retires_detached_request(
    t: TableView,
    id: IdentView,
    expires_at: u64,
    envelope: EnvelopeView,
)
    requires
        !t.contains_key(id),
    ensures
        ({
            let sent = registered(t, id, WaiterView::Detached { expires_at });
            &&& !accepts(sent, id)
            &&& fulfilled(sent, id, envelope) == t
            &&& registration_result(fulfilled(sent, id, envelope), id) == Ok::<(), ErrorView>(())
        }),
{
    let sent = registered(t, id, WaiterView::Detached { expires_at });
    assert(sent.remove(id) =~= t);
}

/// Silence ends the exchange of a request that was sent without a wait: a
/// sweep before `expires_at` leaves its registration, and a sweep from then
/// on removes it and frees the identifier.
pub proof fn law_silence_retires_detached_request(
    t: TableView,
    id: IdentView,
    expires_at: u64,
    now: u64,
)
    requires
        !t.contains_key(id),
    ensures
        ({
            let sent = registered(t, id, WaiterView::Detached { expires_at });
            &&& now < expires_at ==> swept(sent, now).contains_key(id)
            &&& now >= expires_at ==> !swept(sent, now).contains_key(id) && swept(sent, now)
                == swept(t, now)
        }),
{
    let sent = registered(t, id, WaiterView::Detached { expires_at });
    if now >= expires_at {
        assert(is_stale(sent[id], now));
        assert(swept(sent, now) =~= swept(t, now));
    }
}

/// A sweep touches nothing but what is due or stale: a caller that waits
/// keeps its registration and its queue, and so does every deferred action
/// and every request without a wait whose time has not come.
pub proof fn law_sweep_spares_the_rest(t: TableView, id: IdentView, now: u64)
    requires
        t.contains_key(id),
        !is_due(t[id], now),
        !is_stale(t[id], now),
    ensures
        swept(t, now).contains_key(id),
        swept(t, now)[id] == t[id],
        queue_of(swept(t, now), id) == queue_of(t, id),
{
}

/// A second registration under an identifier that has a waiter fails with a
/// conflict and leaves the table, and so the first waiter, as it was.
pub proof fn law_second_registration_conflicts(
    t: TableView,
    id: IdentView,
    first: WaiterView,
    second: WaiterView,
)
    requires
        !t.contains_key(id),
    ensures
        registration_result(t, id) == Ok::<(), ErrorView>(()),
        registration_result(registered(t, id, first), id) == Err::<(), ErrorView>(
            ErrorView::RegistrationConflict,
        ),
        registered(registered(t, id, first), id, second) == registered(t, id, first),
        registered(t, id, first)[id] == first,
{
}

/// What is delivered is received in the order of arrival: after a delivery
/// was taken, the oldest queued delivery is the one that was oldest before,
/// or the new one where the queue was empty.
pub proof fn law_deliveries_keep_their_order(t: TableView, id: IdentView, envelope: EnvelopeView)
    requires
        accepts(t, id),
    ensures
        queue_of(fulfilled(t, id, envelope), id) == queue_of(t, id).push(envelope),
        next_delivery(fulfilled(t, id, envelope), id) == (if queue_of(t, id).len() > 0 {
            next_delivery(t, id)
        } else {
            Some(envelope)
        }),
        queue_of(received(fulfilled(t, id, envelope), id), id) == queue_of(t, id).push(
            envelope,
        ).skip(1),
{
}

/// A lazily scheduled request is not sent before `LAZY_DELAY` ticks have
/// passed. Whether or not the identifier was free, a sweep at an earlier
/// time hands out exactly what it would have handed out without the
/// scheduling; and where the identifier was free, such a sweep leaves the
/// new request in the table.
pub proof fn law_lazy_request_waits(
    t: TableView,
    id: IdentView,
    request: Seq<u8>,
    scheduled_at: u64,
    now: u64,
)
    requires
        now < scheduled_at + LAZY_DELAY,
    ensures
        ({
            let waiter = WaiterView::Deferred {
                fire_at: (scheduled_at + LAZY_DELAY) as nat,
                request,
            };
            let scheduled = registered(t, id, waiter);
            &&& forall|other: IdentView| #[trigger]
                due_at(scheduled, other, now) == due_at(t, other, now)
            &&& !t.contains_key(id) ==> {
                &&& !is_due(scheduled[id], now)
                &&& swept(scheduled, now).contains_key(id)
                &&& swept(scheduled, now)[id] == waiter
            }
        }),
{
}

/// A lazily scheduled request is due from `LAZY_DELAY` ticks on: a sweep at
/// that time or later takes it out of the table.
pub proof fn law_lazy_request_fires(
    t: TableView,
    id: IdentView,
    request: Seq<u8>,
    scheduled_at: u64,
    now: u64,
)
    requires
        !t.contains_key(id),
        now >= scheduled_at + LAZY_DELAY,
    ensures
        ({
            let waiter = WaiterView::Deferred {
                fire_at: (scheduled_at + LAZY_DELAY) as nat,
                request,
            };
            let scheduled = registered(t, id, waiter);
            &&& is_due(scheduled[id], now)
            &&& !swept(scheduled, now).contains_key(id)
        }),
{
}

/// Provisional replies decide nothing: alone they leave the negotiation
/// undecided, and in front of other deliveries they change neither its
/// progress nor its outcome.
pub proof fn law_provisional_replies_decide_nothing(
    provisional: Seq<EnvelopeView>,
    rest: Seq<EnvelopeView>,
)
    requires
        all_provisional(provisional),
    ensures
        invite_progress(provisional) is None,
        invite_progress(provisional + rest) == invite_progress(rest),
        invite_outcome(provisional + rest) == invite_outcome(rest),
{
    lemma_first_terminal_passes(provisional, rest, 0);
    lemma_first_terminal_passes(provisional, Seq::empty(), 0);
    assert(provisional + Seq::<EnvelopeView>::empty() =~= provisional);
    let i = first_terminal(rest, 0);
    lemma_first_terminal_bounds(rest, 0);
    if i < rest.len() {
        assert((provisional + rest)[provisional.len() + i] == rest[i]);
    }
}

/// The first reply with status 200 behind provisional replies decides the
/// negotiation, and it alone: the outcome is read from that reply, whatever
/// arrives after it.
pub proof fn law_first_acceptance_decides(
    provisional: Seq<EnvelopeView>,
    response: SipResponseView,
    branch: Seq<char>,
    later: Seq<EnvelopeView>,
)
    requires
        all_provisional(provisional),
        response.status == 200,
    ensures
        invite_outcome(provisional + seq![EnvelopeView::Reply { response, branch }] + later)
            == accepted_outcome(response),
{
    let decisive = seq![EnvelopeView::Reply { response, branch }] + later;
    law_provisional_replies_decide_nothing(provisional, decisive);
    assert(provisional + seq![EnvelopeView::Reply { response, branch }] + later =~= provisional
        + decisive);
    assert(decisive[0] == EnvelopeView::Reply { response, branch });
}

/// The first reply with status 300 or more behind provisional replies
/// rejects the negotiation, with that status.
pub proof fn law_first_refusal_rejects(
    provisional: Seq<EnvelopeView>,
    response: SipResponseView,
    branch: Seq<char>,
    later: Seq<EnvelopeView>,
)
    requires
        all_provisional(provisional),
        response.status >= 300,
    ensures
        invite_outcome(provisional + seq![EnvelopeView::Reply { response, branch }] + later)
            == Err::<NegotiatedView, ErrorView>(
            rejection_of(response),
        ),
{
    let decisive = seq![EnvelopeView::Reply { response, branch }] + later;
    law_provisional_replies_decide_nothing(provisional, decisive);
    assert(provisional + seq![EnvelopeView::Reply { response, branch }] + later =~= provisional
        + decisive);
    assert(decisive[0] == EnvelopeView::Reply { response, branch });
}

/// A negotiation that got provisional replies only, or nothing, or the
/// absence signal behind provisional replies, times out.
pub proof fn law_silence_times_a_negotiation_out(
    provisional: Seq<EnvelopeView>,
    later: Seq<EnvelopeView>,
)
    requires
        all_provisional(provisional),
    ensures
        invite_outcome(provisional) == Err::<NegotiatedView, ErrorView>(
            unresponsive(Exchange::Invite),
        ),
        invite_outcome(provisional + seq![EnvelopeView::Absent] + later) == Err::<
            NegotiatedView,
            ErrorView,
        >(unresponsive(Exchange::Invite)),
{
    let decisive = seq![EnvelopeView::Absent] + later;
    law_provisional_replies_decide_nothing(provisional, decisive);
    assert(provisional + seq![EnvelopeView::Absent] + later =~= provisional + decisive);
    assert(decisive[0] == EnvelopeView::Absent);
}

/// A bounded-wait command tells a refusal from silence. A first reply with
/// status 200 is its only success; a first reply with status 300 or more
/// rejects it with that status; silence, the absence signal and every other
/// reply fail it as unresponsive.
pub proof fn law_bounded_wait_tells_refusal_from_silence(
    exchange: Exchange,
    response: SipResponseView,
    branch: Seq<char>,
)
    ensures
        bounded_outcome(exchange, None) == Err::<(), ErrorView>(unresponsive(exchange)),
        bounded_outcome(exchange, Some(EnvelopeView::Absent)) == Err::<(), ErrorView>(
            unresponsive(exchange),
        ),
        bounded_outcome(exchange, Some(EnvelopeView::Reply { response, branch })) == (
        if response.status == 200 {
            Ok::<(), ErrorView>(())
        } else if response.status >= 300 {
            Err::<(), ErrorView>(rejection_of(response))
        } else {
            Err::<(), ErrorView>(unresponsive(exchange))
        }),
        forall|delivery: Option<EnvelopeView>| #[trigger]
            bounded_outcome(exchange, delivery) is Ok <==> (delivery matches Some(
                EnvelopeView::Reply { response, .. },
            ) && response.status == 200),
{
}

/// A negotiation that is decided ignores what arrives later: further
/// deliveries leave its state as it is.
pub proof fn law_decided_state_is_kept(state: InviteState, later: Seq<EnvelopeView>)
    requires
        state != InviteState::Sent,
    ensures
        state_after_all(state, later) == state,
    decreases later.len(),
{
    if later.len() > 0 {
        law_decided_state_is_kept(state, later.drop_last());
    }
}

/// The state follows the deliveries as far as the first terminal one.
proof fn lemma_state_tracks_first_terminal(q: Seq<EnvelopeView>)
    ensures
        ({
            let i = first_terminal(q, 0);
            if i < q.len() {
                state_after_all(InviteState::Sent, q) == state_after(InviteState::Sent, q[i])
            } else {
                state_after_all(InviteState::Sent, q) == InviteState::Sent
            }
        }),
    decreases q.len(),
{
    lemma_first_terminal_bounds(q, 0);
    if q.len() > 0 {
        let front = q.drop_last();
        lemma_state_tracks_first_terminal(front);
        lemma_first_terminal_bounds(front, 0);
        let i = first_terminal(front, 0);
        lemma_first_terminal_prefix(q, 0);
        if i < front.len() {
            assert(front[i] == q[i]);
            assert(is_terminal(front[i])) by {
                lemma_first_terminal_is_terminal(front, 0);
            }
        } else {
            lemma_first_terminal_is_terminal(q, 0);
        }
    }
}

/// Where the search for a terminal delivery ends inside the queue, it ends
/// on a terminal delivery, and every delivery passed over is provisional.
proof fn lemma_first_terminal_is_terminal(q: Seq<EnvelopeView>, from: int)
    requires
        0 <= from <= q.len(),
    ensures
        first_terminal(q, from) < q.len() ==> is_terminal(q[first_terminal(q, from)]),
        forall|k: int| from <= k < first_terminal(q, from) ==> !is_terminal(#[trigger] q[k]),
    decreases q.len() - from,
{
    if from < q.len() && !is_terminal(q[from]) {
        lemma_first_terminal_is_terminal(q, from + 1);
    }
}

/// The search in a queue without its last delivery ends where the search in
/// the whole queue ends, unless that is the last delivery or behind it.
proof fn lemma_first_terminal_prefix(q: Seq<EnvelopeView>, from: int)
    requires
        q.len() > 0,
        0 <= from <= q.len() - 1,
    ensures
        first_terminal(q.drop_last(), from) == (if first_terminal(q, from) < q.len() - 1 {
            first_terminal(q, from)
        } else {
            q.len() - 1
        }),
    decreases q.len() - from,
{
    let front = q.drop_last();
    if from < front.len() {
        assert(front[from] == q[from]);
        if !is_terminal(q[from]) {
            lemma_first_terminal_prefix(q, from + 1);
        }
    } else {
        lemma_first_terminal_bounds(q, from);
    }
}

/// The state machine and the outcome agree. A negotiation is undecided
/// exactly as long as its state is `Sent`. At the end of the wait it has
/// timed out exactly where the outcome is the timeout, it is rejected
/// exactly where the outcome is a rejection, and where it is accepted the
/// outcome is what the accepting reply reads as.
pub proof fn law_state_and_outcome_agree(q: Seq<EnvelopeView>)
    ensures
        invite_progress(q) is None <==> state_after_all(InviteState::Sent, q) == InviteState::Sent,
        state_at_end(state_after_all(InviteState::Sent, q)) == InviteState::TimedOut
            ==> invite_outcome(q) == Err::<NegotiatedView, ErrorView>(
            unresponsive(Exchange::Invite),
        ),
        state_after_all(InviteState::Sent, q) == InviteState::Rejected <==> (exists|
            response: SipResponseView,
        |
            response.status >= 300 && invite_outcome(q) == Err::<NegotiatedView, ErrorView>(
                #[trigger] rejection_of(response),
            )),
        state_after_all(InviteState::Sent, q) == InviteState::Accepted ==> (exists|
            response: SipResponseView,
        |
            response.status == 200 && invite_outcome(q) == #[trigger] accepted_outcome(response)),
{
    lemma_state_tracks_first_terminal(q);
    lemma_first_terminal_bounds(q, 0);
    lemma_first_terminal_is_terminal(q, 0);
    let i = first_terminal(q, 0);
    if i < q.len() {
        match q[i] {
            EnvelopeView::Absent => {},
            EnvelopeView::Reply { response, branch } => {
                if response.status >= 300 {
                    assert(invite_outcome(q) == Err::<NegotiatedView, ErrorView>(
                        rejection_of(response),
                    ));
                } else {
                    assert(response.status == 200);
                    assert(invite_outcome(q) == accepted_outcome(response));
                }
            },
        }
    }
}

/// Whether an attribute is a payload mapping for the payload type `pt`.
pub open spec fn names(a: AttributeView, pt: u8) -> bool {
    entry_of(a) matches Ok(Some((p, _))) && p == pt
}

/// A section without a mapping for `pt` leaves the table's entry for `pt` as
/// it was.
proof fn lemma_section_keeps(acc: Map<u8, Seq<char>>, attrs: Seq<AttributeView>, pt: u8)
    requires
        forall|b: int| 0 <= b < attrs.len() ==> !names(#[trigger] attrs[b], pt),
    ensures
        section_codecs(acc, attrs).contains_key(pt) == acc.contains_key(pt),
        section_codecs(acc, attrs)[pt] == acc[pt],
    decreases attrs.len(),
{
    if attrs.len() > 0 {
        let front = attrs.drop_last();
        assert forall|b: int| 0 <= b < front.len() implies !names(#[trigger] front[b], pt) by {
            assert(front[b] == attrs[b]);
        }
        lemma_section_keeps(acc, front, pt);
        assert(!names(attrs[attrs.len() - 1], pt));
    }
}

/// In a section, the last mapping for `pt` gives the table's entry for `pt`.
proof fn lemma_section_last_wins(
    acc: Map<u8, Seq<char>>,
    attrs: Seq<AttributeView>,
    j: int,
    pt: u8,
    codec: Seq<char>,
)
    requires
        0 <= j < attrs.len(),
        entry_of(attrs[j]) == Ok::<Option<(u8, Seq<char>)>, ErrorView>(Some((pt, codec))),
        forall|b: int| j < b < attrs.len() ==> !names(#[trigger] attrs[b], pt),
    ensures
        section_codecs(acc, attrs).contains_key(pt),
        section_codecs(acc, attrs)[pt] == codec,
    decreases attrs.len(),
{
    if j < attrs.len() - 1 {
        let front = attrs.drop_last();
        assert(front[j] == attrs[j]);
        assert forall|b: int| j < b < front.len() implies !names(#[trigger] front[b], pt) by {
            assert(front[b] == attrs[b]);
        }
        lemma_section_last_wins(acc, front, j, pt, codec);
        assert(!names(attrs[attrs.len() - 1], pt));
    }
}

/// The last payload mapping for a payload type decides its codec: where the
/// mapping at section `i`, attribute `j` names `pt`, and no mapping behind it
/// does, the table maps `pt` to that mapping's codec.
pub proof fn law_last_mapping_wins(
    medias: Seq<Seq<AttributeView>>,
    i: int,
    j: int,
    pt: u8,
    codec: Seq<char>,
)
    requires
        0 <= i < medias.len(),
        0 <= j < medias[i].len(),
        entry_of(medias[i][j]) == Ok::<Option<(u8, Seq<char>)>, ErrorView>(Some((pt, codec))),
        forall|b: int| j < b < medias[i].len() ==> !names(#[trigger] medias[i][b], pt),
        forall|a: int, b: int|
            i < a < medias.len() && 0 <= b < medias[a].len() ==> !names(
                #[trigger] medias[a][b],
                pt,
            ),
    ensures
        codecs_of(medias).contains_key(pt),
        codecs_of(medias)[pt] == codec,
    decreases medias.len(),
{
    let front = medias.drop_last();
    let last = medias.last();
    if i == medias.len() - 1 {
        lemma_section_last_wins(codecs_of(front), last, j, pt, codec);
    } else {
        assert(front[i] == medias[i]);
        assert forall|a: int, b: int|
            i < a < front.len() && 0 <= b < front[a].len() implies !names(
            #[trigger] front[a][b],
            pt,
        ) by {
            assert(front[a] == medias[a]);
        }
        law_last_mapping_wins(front, i, j, pt, codec);
        assert forall|b: int| 0 <= b < last.len() implies !names(#[trigger] last[b], pt) by {
            assert(last[b] == medias[medias.len() - 1][b]);
        }
        lemma_section_keeps(codecs_of(front), last, pt);
    }
}

/// A payload type that no payload mapping names is not in the table:
/// attributes of other kinds add nothing.
pub proof fn law_unmapped_payload_type_is_absent(medias: Seq<Seq<AttributeView>>, pt: u8)
    requires
        forall|a: int, b: int|
            0 <= a < medias.len() && 0 <= b < medias[a].len() ==> !names(
                #[trigger] medias[a][b],
                pt,
            ),
    ensures
        !codecs_of(medias).contains_key(pt),
    decreases medias.len(),
{
    if medias.len() > 0 {
        let front = medias.drop_last();
        let last = medias.last();
        assert forall|a: int, b: int|
            0 <= a < front.len() && 0 <= b < front[a].len() implies !names(
            #[trigger] front[a][b],
            pt,
        ) by {
            assert(front[a] == medias[a]);
        }
        law_unmapped_payload_type_is_absent(front, pt);
        assert forall|b: int| 0 <= b < last.len() implies !names(#[trigger] last[b], pt) by {
            assert(last[b] == medias[medias.len() - 1][b]);
        }
        lemma_section_keeps(codecs_of(front), last, pt);
    }
}

/// White space around a payload mapping's value and the width of the runs
/// inside it do not matter: two values that are equal once trimmed and
/// squeezed say the same.
pub proof fn law_white_space_is_normalized(first: Seq<char>, second: Seq<char>)
    requires
        squeezed(trimmed(first)) == squeezed(trimmed(second)),
    ensures
        mapping_of(first) == mapping_of(second),
{
}

/// Upper-casing an ASCII name changes no length, leaves a name that is in
/// upper case as it is, and gives a name that upper-casing leaves as it is.
pub proof fn law_ascii_names_are_upper_cased_in_place(name: Seq<char>)
    requires
        is_ascii_text(name),
    ensures
        upper_of(name) == ascii_upper(name),
        upper_of(name).len() == name.len(),
        is_ascii_text(upper_of(name)),
        upper_of(upper_of(name)) == upper_of(name),
        (forall|i: int| 0 <= i < name.len() ==> !(0x61 <= (#[trigger] name[i]) as u32 <= 0x7a))
            ==> upper_of(name) == name,
{
    let once = ascii_upper(name);
    assert(is_ascii_text(once));
    assert(ascii_upper(once) =~= once);
    if forall|i: int| 0 <= i < name.len() ==> !(0x61 <= (#[trigger] name[i]) as u32 <= 0x7a) {
        assert(once =~= name);
    }
}

} // verus!
