//! The correlation table: which identifier has which pending waiter.

use vstd::prelude::*;
use crate::error::{unit_view, CmdError, ErrorView};
use crate::ident::{Ident, IdentView};
use crate::sip::{Envelope, EnvelopeView};

verus! {

/// What stands behind a registered identifier.
#[derive(Debug)]
pub enum Waiter {
    /// A caller waits: deliveries queue up, in the order of their arrival,
    /// as long as fewer than `capacity` are queued.
    Channel { capacity: usize, queue: Vec<Envelope> },
    /// The request was sent and nobody reads the reply. The registration
    /// lasts until a reply arrives, until the clock reaches `expires_at`, or
    /// until the identifier is removed.
    Detached { expires_at: u64 },
    /// A request that is to be sent once the clock reaches `fire_at`. The
    /// fire time is wider than the clock, so that a delay added to any
    /// reading of the clock has a fire time; one beyond the end of the clock
    /// is never reached.
    Deferred { fire_at: u128, request: Vec<u8> },
}

/// What a [`Waiter`] denotes.
pub ghost enum WaiterView {
    Channel { capacity: nat, queue: Seq<EnvelopeView> },
    Detached { expires_at: u64 },
    Deferred { fire_at: nat, request: Seq<u8> },
}

impl View for Waiter {
    type V = WaiterView;

    open spec fn view(&self) -> WaiterView {
        match self {
            Waiter::Channel { capacity, queue } => WaiterView::Channel {
                capacity: *capacity as nat,
                queue: queue@.map_values(|e: Envelope| e@),
            },
            Waiter::Detached { expires_at } => WaiterView::Detached { expires_at: *expires_at },
            Waiter::Deferred { fire_at, request } => WaiterView::Deferred {
                fire_at: *fire_at as nat,
                request: request@,
            },
        }
    }
}

/// What a table denotes: a finite map from identifier to waiter.
pub type TableView = Map<IdentView, WaiterView>;

/// The outcome of an attempt to register under `id`: a conflict where `id` is
/// taken.
pub open spec fn registration_result(t: TableView, id: IdentView) -> Result<(), ErrorView> {
    if t.contains_key(id) {
        Err(ErrorView::RegistrationConflict)
    } else {
        Ok(())
    }
}

/// The queue of the caller that waits under `id`; empty where none does.
pub open spec fn queue_of(t: TableView, id: IdentView) -> Seq<EnvelopeView> {
    if t.contains_key(id) && t[id] is Channel {
        t[id]->Channel_queue
    } else {
        Seq::empty()
    }
}

/// The table after the first `k` deliveries under `id` were taken out.
pub open spec fn advanced(t: TableView, id: IdentView, k: int) -> TableView {
    if t.contains_key(id) && t[id] is Channel {
        t.insert(
            id,
            WaiterView::Channel {
                capacity: t[id]->Channel_capacity,
                queue: t[id]->Channel_queue.skip(k),
            },
        )
    } else {
        t
    }
}

/// The table after an attempt to register `waiter` under `id`: unchanged
/// where `id` is taken.
pub open spec fn registered(t: TableView, id: IdentView, waiter: WaiterView) -> TableView {
    if t.contains_key(id) {
        t
    } else {
        t.insert(id, waiter)
    }
}

/// Whether a delivery to `id` would be taken: a caller waits under `id` and
/// its queue has room.
pub open spec fn accepts(t: TableView, id: IdentView) -> bool {
    &&& t.contains_key(id)
    &&& t[id] matches WaiterView::Channel { capacity, queue }
    &&& queue.len() < capacity
}

/// The table after a delivery to `id`. Where a caller waits with room in its
/// queue, the envelope joins the end of the queue. Where the request under
/// `id` was sent without a wait, its exchange is over and the registration
/// goes. Nothing changes in any other case.
pub open spec fn fulfilled(t: TableView, id: IdentView, envelope: EnvelopeView) -> TableView {
    if accepts(t, id) {
        t.insert(
            id,
            WaiterView::Channel {
                capacity: t[id]->Channel_capacity,
                queue: t[id]->Channel_queue.push(envelope),
            },
        )
    } else if t.contains_key(id) && t[id] is Detached {
        t.remove(id)
    } else {
        t
    }
}

/// The oldest delivery that waits under `id`, if there is one.
pub open spec fn next_delivery(t: TableView, id: IdentView) -> Option<EnvelopeView> {
    if t.contains_key(id) && t[id] is Channel && t[id]->Channel_queue.len() > 0 {
        Some(t[id]->Channel_queue[0])
    } else {
        None
    }
}

/// The table after the oldest delivery under `id` was taken out.
pub open spec fn received(t: TableView, id: IdentView) -> TableView {
    if next_delivery(t, id) is Some {
        t.insert(
            id,
            WaiterView::Channel {
                capacity: t[id]->Channel_capacity,
                queue: t[id]->Channel_queue.skip(1),
            },
        )
    } else {
        t
    }
}

/// Whether a waiter is a deferred action whose time has come.
pub open spec fn is_due(waiter: WaiterView, now: u64) -> bool {
    waiter matches WaiterView::Deferred { fire_at, .. } && fire_at <= now
}

/// Whether a sweep at `now` hands out a deferred action for `id`.
pub open spec fn due_at(t: TableView, id: IdentView, now: u64) -> bool {
    t.contains_key(id) && is_due(t[id], now)
}

/// Whether a waiter is a request sent without a wait whose time is over.
pub open spec fn is_stale(waiter: WaiterView, now: u64) -> bool {
    waiter matches WaiterView::Detached { expires_at } && expires_at <= now
}

/// The table after a sweep at `now`: without the deferred actions that are
/// due and without the requests sent without a wait whose time is over.
pub open spec fn swept(t: TableView, now: u64) -> TableView {
    Map::new(
        |id: IdentView| t.contains_key(id) && !is_due(t[id], now) && !is_stale(t[id], now),
        |id: IdentView| t[id],
    )
}

struct Registration {
    ident: Ident,
    waiter: Waiter,
}

/// No identifier occurs twice.
spec fn distinct(s: Seq<Registration>) -> bool {
    forall|i: int, j: int| 0 <= i < j < s.len() ==> (#[trigger] s[i]).ident@ != (#[trigger] s[j]).ident@
}

/// The map that a list of registrations with distinct identifiers stands for.
spec fn model(s: Seq<Registration>) -> TableView {
    Map::new(
        |id: IdentView| exists|i: int| 0 <= i < s.len() && (#[trigger] s[i]).ident@ == id,
        |id: IdentView|
            {
                let i = choose|i: int| 0 <= i < s.len() && (#[trigger] s[i]).ident@ == id;
                s[i].waiter@
            },
    )
}

proof fn lemma_model_at(s: Seq<Registration>, i: int)
    requires
        distinct(s),
        0 <= i < s.len(),
    ensures
        model(s).contains_key(s[i].ident@),
        model(s)[s[i].ident@] == s[i].waiter@,
{
    let id = s[i].ident@;
    let k = choose|k: int| 0 <= k < s.len() && (#[trigger] s[k]).ident@ == id;
    assert(k == i);
}

proof fn lemma_model_push(s: Seq<Registration>, r: Registration)
    requires
        distinct(s),
        !model(s).contains_key(r.ident@),
    ensures
        distinct(s.push(r)),
        model(s.push(r)) =~= model(s).insert(r.ident@, r.waiter@),
{
    let t = s.push(r);
    assert forall|i: int, j: int| 0 <= i < j < t.len() implies (#[trigger] t[i]).ident@ != (
    #[trigger] t[j]).ident@ by {
        if j == s.len() {
            assert(s[i].ident@ != r.ident@);
        } else {
            assert(s[i].ident@ != s[j].ident@);
        }
    }
    assert forall|id: IdentView| #[trigger]
        model(t).contains_key(id) <==> model(s).insert(r.ident@, r.waiter@).contains_key(id) by {
        if model(t).contains_key(id) {
            let k = choose|k: int| 0 <= k < t.len() && (#[trigger] t[k]).ident@ == id;
            if k < s.len() {
                assert(s[k].ident@ == id);
            }
        }
        if model(s).contains_key(id) {
            let k = choose|k: int| 0 <= k < s.len() && (#[trigger] s[k]).ident@ == id;
            assert(t[k].ident@ == id);
        }
        if id == r.ident@ {
            assert(t[s.len() as int].ident@ == id);
        }
    }
    assert forall|id: IdentView| #[trigger] model(t).contains_key(id) implies model(t)[id]
        == model(s).insert(r.ident@, r.waiter@)[id] by {
        let k = choose|k: int| 0 <= k < t.len() && (#[trigger] t[k]).ident@ == id;
        lemma_model_at(t, k);
        if k < s.len() {
            assert(s[k].ident@ == id);
            lemma_model_at(s, k);
        }
    }
}

proof fn lemma_model_remove(s: Seq<Registration>, i: int)
    requires
        distinct(s),
        0 <= i < s.len(),
    ensures
        distinct(s.remove(i)),
        model(s.remove(i)) =~= model(s).remove(s[i].ident@),
{
    let t = s.remove(i);
    let gone = s[i].ident@;
    assert forall|a: int, b: int| 0 <= a < b < t.len() implies (#[trigger] t[a]).ident@ != (
    #[trigger] t[b]).ident@ by {
        let a0 = if a < i { a } else { a + 1 };
        let b0 = if b < i { b } else { b + 1 };
        assert(t[a] == s[a0] && t[b] == s[b0]);
    }
    assert forall|id: IdentView| #[trigger]
        model(t).contains_key(id) <==> model(s).remove(gone).contains_key(id) by {
        if model(t).contains_key(id) {
            let k = choose|k: int| 0 <= k < t.len() && (#[trigger] t[k]).ident@ == id;
            let k0 = if k < i { k } else { k + 1 };
            assert(s[k0].ident@ == id);
            assert(s[k0].ident@ != s[i].ident@);
        }
        if model(s).contains_key(id) && id != gone {
            let k = choose|k: int| 0 <= k < s.len() && (#[trigger] s[k]).ident@ == id;
            let k1 = if k < i { k } else { k - 1 };
            assert(t[k1].ident@ == id);
        }
    }
    assert forall|id: IdentView| #[trigger] model(t).contains_key(id) implies model(t)[id]
        == model(s).remove(gone)[id] by {
        let k = choose|k: int| 0 <= k < t.len() && (#[trigger] t[k]).ident@ == id;
        lemma_model_at(t, k);
        let k0 = if k < i { k } else { k + 1 };
        assert(t[k] == s[k0]);
        lemma_model_at(s, k0);
    }
}

/// Whether the entry at index `p` is accounted for in a sweep at `now`: it
/// is stale and was dropped, or it went to one of the two lists, whose
/// elements' indices `kept_from` and `due_from` record.
spec fn sorted_out(
    p: int,
    orig: Seq<Registration>,
    now: u64,
    kept_from: Seq<int>,
    due_from: Seq<int>,
) -> bool {
    ||| is_stale(orig[p].waiter@, now)
    ||| exists|k: int| 0 <= k < kept_from.len() && #[trigger] kept_from[k] == p
    ||| exists|k: int| 0 <= k < due_from.len() && #[trigger] due_from[k] == p
}

/// The registry of pending waiters. An identifier has at most one waiter.
pub struct CorrelationTable {
    entries: Vec<Registration>,
}

impl View for CorrelationTable {
    type V = TableView;

    closed spec fn view(&self) -> TableView {
        model(self.entries@)
    }
}

impl CorrelationTable {
    #[verifier::type_invariant]
    spec fn well_formed(self) -> bool {
        distinct(self.entries@)
    }

    /// An empty table.
    pub fn new() -> (table: CorrelationTable)
        ensures
            table@ == Map::<IdentView, WaiterView>::empty(),
    {
        let table = CorrelationTable { entries: Vec::new() };
        assert(table@ =~= Map::<IdentView, WaiterView>::empty());
        table
    }

    /// Moves the registrations out, leaving the table empty for the moment.
    fn take_entries(&mut self) -> (entries: Vec<Registration>)
        ensures
            entries == old(self).entries,
            final(self).entries@.len() == 0,
    {
        let mut entries: Vec<Registration> = Vec::new();
        core::mem::swap(&mut self.entries, &mut entries);
        entries
    }

    /// Where `id` is registered, if it is.
    fn position(&self, id: &Ident) -> (at: Option<usize>)
        ensures
            match at {
                Some(i) => i < self.entries@.len() && self.entries@[i as int].ident@ == id@,
                None => !self@.contains_key(id@),
            },
    {
        let mut i: usize = 0;
        while i < self.entries.len()
            invariant
                i <= self.entries@.len(),
                forall|k: int| 0 <= k < i ==> (#[trigger] self.entries@[k]).ident@ != id@,
            decreases self.entries@.len() - i,
        {
            if self.entries[i].ident == *id {
                return Some(i);
            }
            i += 1;
        }
        None
    }

    /// Whether `id` has a waiter of any kind.
    pub fn contains(&self, id: &Ident) -> (found: bool)
        ensures
            found == self@.contains_key(id@),
    {
        proof {
            use_type_invariant(self);
        }
        match self.position(id) {
            Some(i) => {
                proof {
                    lemma_model_at(self.entries@, i as int);
                }
                true
            },
            None => false,
        }
    }

    /// How many deliveries wait under `id`.
    pub fn queued(&self, id: &Ident) -> (n: usize)
        ensures
            n == queue_of(self@, id@).len(),
    {
        proof {
            use_type_invariant(self);
        }
        match self.position(id) {
            Some(i) => {
                proof {
                    lemma_model_at(self.entries@, i as int);
                }
                match &self.entries[i].waiter {
                    Waiter::Channel { queue, .. } => queue.len(),
                    _ => 0,
                }
            },
            None => 0,
        }
    }

    /// Registers `waiter` under `id`. An identifier that is taken keeps its
    /// waiter, and the call fails.
    pub fn register(&mut self, id: Ident, waiter: Waiter) -> (r: Result<(), CmdError>)
        ensures
            unit_view(r) == registration_result(old(self)@, id@),
            final(self)@ == registered(old(self)@, id@, waiter@),
            old(self)@.contains_key(id@) ==> unit_view(r) == Err::<(), ErrorView>(
                ErrorView::RegistrationConflict,
            ) && final(self)@ == old(self)@,
    {
        proof {
            use_type_invariant(&*self);
        }
        if self.contains(&id) {
            return Err(CmdError::RegistrationConflict);
        }
        let entry = Registration { ident: id, waiter };
        proof {
            lemma_model_push(self.entries@, entry);
        }
        let mut entries = self.take_entries();
        entries.push(entry);
        self.entries = entries;
        Ok(())
    }
    /// Registers a deferred action under `id`: `request` is to be sent once
    /// the clock reaches `fire_at`. An identifier that is taken keeps its
    /// waiter, and the call fails.
    pub fn schedule(&mut self, id: Ident, request: Vec<u8>, fire_at: u128) -> (r: Result<
        (),
        CmdError,
    >)
        ensures
            unit_view(r) == registration_result(old(self)@, id@),
            final(self)@ == registered(
                old(self)@,
                id@,
                WaiterView::Deferred { fire_at: fire_at as nat, request: request@ },
            ),
    {
        self.register(id, Waiter::Deferred { fire_at, request })
    }

    /// Deregisters `id`, whatever stands behind it. Removing an identifier
    /// that is not registered changes nothing.
    pub fn remove(&mut self, id: &Ident)
        ensures
            final(self)@ == old(self)@.remove(id@),
            !final(self)@.contains_key(id@),
    {
        proof {
            use_type_invariant(&*self);
        }
        match self.position(id) {
            Some(i) => {
                proof {
                    lemma_model_remove(self.entries@, i as int);
                }
                let mut entries = self.take_entries();
                entries.remove(i);
                self.entries = entries;
            },
            None => {
                assert(self@.remove(id@) =~= self@);
            },
        }
    }

    /// Whether the entry at `i` is a channel with room for one more delivery.
    fn has_room(&self, i: usize) -> (room: bool)
        requires
            i < self.entries@.len(),
        ensures
            room == (self.entries@[i as int].waiter@ matches WaiterView::Channel {
                capacity,
                queue,
            } && queue.len() < capacity),
    {
        match &self.entries[i].waiter {
            Waiter::Channel { capacity, queue } => queue.len() < *capacity,
            _ => false,
        }
    }

    /// Whether the entry at `i` is a request that was sent without a wait.
    fn is_detached(&self, i: usize) -> (detached: bool)
        requires
            i < self.entries@.len(),
        ensures
            detached == (self.entries@[i as int].waiter@ is Detached),
    {
        match &self.entries[i].waiter {
            Waiter::Detached { .. } => true,
            _ => false,
        }
    }

    /// Whether the entry at `i` is a channel with a delivery in its queue.
    fn has_delivery(&self, i: usize) -> (some: bool)
        requires
            i < self.entries@.len(),
        ensures
            some == (self.entries@[i as int].waiter@ matches WaiterView::Channel { queue, .. }
                && queue.len() > 0),
    {
        match &self.entries[i].waiter {
            Waiter::Channel { queue, .. } => queue.len() > 0,
            _ => false,
        }
    }

    /// Delivers `envelope` to the caller that waits under `id`. The delivery
    /// is taken where a caller waits there and its queue has room, and
    /// dropped in every other case. A dropped delivery still ends the
    /// exchange of a request that was sent without a wait: its registration
    /// is removed. Otherwise a dropped delivery leaves the table as it was.
    pub fn fulfill(&mut self, id: &Ident, envelope: Envelope) -> (delivered: bool)
        ensures
            delivered == accepts(old(self)@, id@),
            final(self)@ == fulfilled(old(self)@, id@, envelope@),
            !old(self)@.contains_key(id@) ==> !delivered && final(self)@ == old(self)@,
    {
        proof {
            use_type_invariant(&*self);
        }
        let at = self.position(id);
        if at.is_none() {
            return false;
        }
        let i: usize = at.unwrap();
        proof {
            lemma_model_at(self.entries@, i as int);
        }
        if self.is_detached(i) {
            proof {
                lemma_model_remove(self.entries@, i as int);
            }
            let mut entries = self.take_entries();
            entries.remove(i);
            self.entries = entries;
            return false;
        }
        if !self.has_room(i) {
            return false;
        }
        let ghost before = self.entries@;
        let mut entries = self.take_entries();
        let Registration { ident, waiter } = entries.remove(i);
        match waiter {
            Waiter::Channel { capacity, mut queue } => {
                let ghost earlier = queue@.map_values(|e: Envelope| e@);
                queue.push(envelope);
                assert(queue@.map_values(|e: Envelope| e@) =~= earlier.push(envelope@));
                let entry = Registration { ident, waiter: Waiter::Channel { capacity, queue } };
                proof {
                    lemma_model_remove(before, i as int);
                    lemma_model_push(entries@, entry);
                    assert(model(entries@.push(entry)) =~= fulfilled(model(before), id@, envelope@));
                }
                entries.push(entry);
                self.entries = entries;
                true
            },
            other => {
                entries.push(Registration { ident, waiter: other });
                self.entries = entries;
                false
            },
        }
    }

    /// Takes the oldest delivery that waits under `id` out of its queue.
    /// `None` where nothing waits there: the table is then left as it was.
    pub fn receive(&mut self, id: &Ident) -> (envelope: Option<Envelope>)
        ensures
            match envelope {
                Some(e) => next_delivery(old(self)@, id@) == Some(e@),
                None => next_delivery(old(self)@, id@) is None,
            },
            final(self)@ == received(old(self)@, id@),
    {
        proof {
            use_type_invariant(&*self);
        }
        let at = self.position(id);
        if at.is_none() {
            return None;
        }
        let i: usize = at.unwrap();
        proof {
            lemma_model_at(self.entries@, i as int);
        }
        if !self.has_delivery(i) {
            return None;
        }
        let ghost before = self.entries@;
        let mut entries = self.take_entries();
        let Registration { ident, waiter } = entries.remove(i);
        match waiter {
            Waiter::Channel { capacity, mut queue } => {
                let ghost earlier = queue@.map_values(|e: Envelope| e@);
                let first = queue.remove(0);
                assert(queue@.map_values(|e: Envelope| e@) =~= earlier.skip(1));
                let entry = Registration { ident, waiter: Waiter::Channel { capacity, queue } };
                proof {
                    lemma_model_remove(before, i as int);
                    lemma_model_push(entries@, entry);
                    assert(model(entries@.push(entry)) =~= received(model(before), id@));
                }
                entries.push(entry);
                self.entries = entries;
                Some(first)
            },
            other => {
                entries.push(Registration { ident, waiter: other });
                self.entries = entries;
                None
            },
        }
    }

    /// Sweeps the table at `now`. Every deferred action that is due is taken
    /// out and handed out, with its identifier and its request. Every request
    /// that was sent without a wait and whose time is over is forgotten.
    /// Whatever else is registered stays.
    pub fn take_due(&mut self, now: u64) -> (due: Vec<(Ident, Vec<u8>)>)
        ensures
            final(self)@ == swept(old(self)@, now),
            forall|k: int|
                0 <= k < due@.len() ==> {
                    let id = (#[trigger] due@[k]).0@;
                    &&& old(self)@.contains_key(id)
                    &&& is_due(old(self)@[id], now)
                    &&& old(self)@[id]->Deferred_request == due@[k].1@
                },
            forall|id: IdentView|
                old(self)@.contains_key(id) && is_due(old(self)@[id], now) ==> exists|k: int|
                    0 <= k < due@.len() && (#[trigger] due@[k]).0@ == id,
            forall|a: int, b: int|
                0 <= a < b < due@.len() ==> (#[trigger] due@[a]).0@ != (#[trigger] due@[b]).0@,
    {
        proof {
            use_type_invariant(&*self);
        }
        let ghost orig = self.entries@;
        let mut entries = self.take_entries();
        let mut kept: Vec<Registration> = Vec::new();
        let mut due: Vec<(Ident, Vec<u8>)> = Vec::new();
        let ghost mut kept_from: Seq<int> = Seq::empty();
        let ghost mut due_from: Seq<int> = Seq::empty();
        while entries.len() > 0
            invariant
                distinct(orig),
                entries@.len() <= orig.len(),
                entries@ == orig.subrange(0, entries@.len() as int),
                kept_from.len() == kept@.len(),
                due_from.len() == due@.len(),
                forall|k: int|
                    0 <= k < kept@.len() ==> {
                        let p = #[trigger] kept_from[k];
                        &&& entries@.len() <= p < orig.len()
                        &&& kept@[k].ident@ == orig[p].ident@
                        &&& kept@[k].waiter@ == orig[p].waiter@
                        &&& !is_due(orig[p].waiter@, now)
                        &&& !is_stale(orig[p].waiter@, now)
                    },
                forall|k: int|
                    0 <= k < due@.len() ==> {
                        let p = #[trigger] due_from[k];
                        &&& entries@.len() <= p < orig.len()
                        &&& due@[k].0@ == orig[p].ident@
                        &&& is_due(orig[p].waiter@, now)
                        &&& orig[p].waiter@->Deferred_request == due@[k].1@
                    },
                forall|a: int, b: int|
                    0 <= a < b < kept_from.len() ==> #[trigger] kept_from[a] > #[trigger] kept_from[b],
                forall|a: int, b: int|
                    0 <= a < b < due_from.len() ==> #[trigger] due_from[a] > #[trigger] due_from[b],
                forall|p: int|
                    entries@.len() <= p < orig.len() ==> #[trigger] sorted_out(
                        p,
                        orig,
                        now,
                        kept_from,
                        due_from,
                    ),
            decreases entries@.len(),
        {
            let ghost n = entries@.len() - 1;
            let ghost old_kept_from = kept_from;
            let ghost old_due_from = due_from;
            let Registration { ident, waiter } = entries.pop().unwrap();
            assert(entries@ =~= orig.subrange(0, n));
            match waiter {
                Waiter::Deferred { fire_at, request } => {
                    if fire_at <= now as u128 {
                        due.push((ident, request));
                        proof {
                            due_from = due_from.push(n);
                            assert(forall|k: int|
                                0 <= k < old_due_from.len() ==> due_from[k] == old_due_from[k]);
                            assert(due_from[old_due_from.len() as int] == n);
                        }
                    } else {
                        kept.push(Registration { ident, waiter: Waiter::Deferred { fire_at, request } });
                        proof {
                            kept_from = kept_from.push(n);
                            assert(forall|k: int|
                                0 <= k < old_kept_from.len() ==> kept_from[k] == old_kept_from[k]);
                            assert(kept_from[old_kept_from.len() as int] == n);
                        }
                    }
                },
                Waiter::Detached { expires_at } => {
                    if expires_at > now {
                        kept.push(Registration { ident, waiter: Waiter::Detached { expires_at } });
                        proof {
                            kept_from = kept_from.push(n);
                            assert(forall|k: int|
                                0 <= k < old_kept_from.len() ==> kept_from[k] == old_kept_from[k]);
                            assert(kept_from[old_kept_from.len() as int] == n);
                        }
                    }
                },
                other => {
                    kept.push(Registration { ident, waiter: other });
                    proof {
                        kept_from = kept_from.push(n);
                        assert(forall|k: int|
                            0 <= k < old_kept_from.len() ==> kept_from[k] == old_kept_from[k]);
                        assert(kept_from[old_kept_from.len() as int] == n);
                    }
                },
            }
            proof {
                assert forall|p: int| entries@.len() <= p < orig.len() implies #[trigger] sorted_out(
                    p,
                    orig,
                    now,
                    kept_from,
                    due_from,
                ) by {
                    if p == n {
                        if kept_from.len() > old_kept_from.len() {
                            assert(kept_from[old_kept_from.len() as int] == p);
                        } else if due_from.len() > old_due_from.len() {
                            assert(due_from[old_due_from.len() as int] == p);
                        } else {
                            assert(is_stale(orig[p].waiter@, now));
                        }
                    } else {
                        assert(sorted_out(p, orig, now, old_kept_from, old_due_from));
                        if is_stale(orig[p].waiter@, now) {
                        } else if exists|k: int|
                            0 <= k < old_kept_from.len() && #[trigger] old_kept_from[k] == p {
                            let k = choose|k: int|
                                0 <= k < old_kept_from.len() && #[trigger] old_kept_from[k] == p;
                            assert(kept_from[k] == p);
                        } else {
                            let k = choose|k: int|
                                0 <= k < old_due_from.len() && #[trigger] old_due_from[k] == p;
                            assert(due_from[k] == p);
                        }
                    }
                }
            }
        }
        proof {
            assert forall|a: int, b: int| 0 <= a < b < kept@.len() implies (#[trigger] kept@[a]).ident@
                != (#[trigger] kept@[b]).ident@ by {
                assert(kept_from[a] > kept_from[b]);
            }
            assert forall|a: int, b: int| 0 <= a < b < due@.len() implies (#[trigger] due@[a]).0@ != (
            #[trigger] due@[b]).0@ by {
                assert(due_from[a] > due_from[b]);
            }
            assert forall|k: int| 0 <= k < due@.len() implies {
                let id = (#[trigger] due@[k]).0@;
                &&& model(orig).contains_key(id)
                &&& is_due(model(orig)[id], now)
                &&& model(orig)[id]->Deferred_request == due@[k].1@
            } by {
                lemma_model_at(orig, due_from[k]);
            }
            assert forall|id: IdentView|
                model(orig).contains_key(id) && is_due(model(orig)[id], now) implies exists|k: int|
                0 <= k < due@.len() && (#[trigger] due@[k]).0@ == id by {
                let p = choose|p: int| 0 <= p < orig.len() && (#[trigger] orig[p]).ident@ == id;
                lemma_model_at(orig, p);
                assert(sorted_out(p, orig, now, kept_from, due_from));
                if exists|k: int| 0 <= k < kept_from.len() && #[trigger] kept_from[k] == p {
                    let k = choose|k: int| 0 <= k < kept_from.len() && #[trigger] kept_from[k] == p;
                    assert(!is_due(orig[kept_from[k]].waiter@, now));
                } else {
                    let k = choose|k: int| 0 <= k < due_from.len() && #[trigger] due_from[k] == p;
                    assert(due@[k].0@ == id);
                }
            }
            assert forall|id: IdentView| #[trigger]
                model(kept@).contains_key(id) <==> swept(model(orig), now).contains_key(id) by {
                if model(kept@).contains_key(id) {
                    let k = choose|k: int| 0 <= k < kept@.len() && (#[trigger] kept@[k]).ident@ == id;
                    lemma_model_at(orig, kept_from[k]);
                }
                if swept(model(orig), now).contains_key(id) {
                    let p = choose|p: int| 0 <= p < orig.len() && (#[trigger] orig[p]).ident@ == id;
                    lemma_model_at(orig, p);
                    assert(sorted_out(p, orig, now, kept_from, due_from));
                    if exists|k: int| 0 <= k < kept_from.len() && #[trigger] kept_from[k] == p {
                        let k = choose|k: int|
                            0 <= k < kept_from.len() && #[trigger] kept_from[k] == p;
                        assert(kept@[k].ident@ == id);
                    } else {
                        let k = choose|k: int|
                            0 <= k < due_from.len() && #[trigger] due_from[k] == p;
                        assert(is_due(orig[due_from[k]].waiter@, now));
                    }
                }
            }
            assert forall|id: IdentView| #[trigger] model(kept@).contains_key(id) implies model(
                kept@,
            )[id] == swept(model(orig), now)[id] by {
                let k = choose|k: int| 0 <= k < kept@.len() && (#[trigger] kept@[k]).ident@ == id;
                lemma_model_at(kept@, k);
                lemma_model_at(orig, kept_from[k]);
            }
            assert(model(kept@) =~= swept(model(orig), now));
        }
        self.entries = kept;
        due
    }
}

} // verus!
