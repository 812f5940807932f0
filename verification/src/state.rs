//! The state that all deliveries share: which deliveries have been claimed or
//! completed, and whether the downstream credential has been turned down.
//!
//! Reading takes `&self` and writing takes `&mut self`, so a holder of shared
//! access can only look, and every change happens under exclusive access, as
//! one step that no other holder sees half done.

use vstd::prelude::*;

verus! {

/// What identifies a delivery: the provider's fingerprint and numeric id.
#[derive(Clone, Debug, PartialEq, Eq)]
pub struct DeliveryKey {
    pub fingerprint: String,
    pub id: u64,
}

/// The mathematical value of a [`DeliveryKey`].
pub struct DeliveryKeyView {
    pub fingerprint: Seq<char>,
    pub id: u64,
}

impl View for DeliveryKey {
    type V = DeliveryKeyView;

    open spec fn view(&self) -> DeliveryKeyView {
        DeliveryKeyView { fingerprint: self.fingerprint@, id: self.id }
    }
}

impl DeliveryKey {
    /// Whether two keys name the same delivery.
    pub fn same_as(&self, other: &DeliveryKey) -> (same: bool)
        ensures
            same == (self@ == other@),
    {
        self.id == other.id && self.fingerprint == other.fingerprint
    }

    /// A copy of the key.
    pub fn duplicate(&self) -> (copy: DeliveryKey)
        ensures
            copy@ == self@,
    {
        DeliveryKey { fingerprint: self.fingerprint.clone(), id: self.id }
    }
}

/// How far a recorded delivery has come.
#[derive(Clone, Copy, Debug, PartialEq, Eq, Structural)]
pub enum Claim {
    /// A request holds the delivery and its dispatch is outstanding.
    InFlight,
    /// The delivery was dispatched and acknowledged.
    Delivered,
}

/// What a request learns when it asks to process a delivery.
#[derive(Clone, Copy, Debug, PartialEq, Eq, Structural)]
pub enum Admission {
    /// Nobody holds the delivery: it is now claimed by the asking request.
    Fresh,
    /// The delivery is already recorded, with the given claim.
    Duplicate(Claim),
}

struct Entry {
    key: DeliveryKey,
    claim: Claim,
}

/// The state shared by all requests of the process.
pub struct ProcessState {
    entries: Vec<Entry>,
    credential_rejected: bool,
}

/// The mathematical value of a [`ProcessState`].
pub struct ProcessStateView {
    /// The recorded deliveries.
    pub claims: Map<DeliveryKeyView, Claim>,
    /// Whether the downstream client has turned the session credential down.
    pub credential_rejected: bool,
}

/// The state of a process that has seen no delivery.
pub open spec fn initial_state() -> ProcessStateView {
    ProcessStateView { claims: Map::empty(), credential_rejected: false }
}

/// The claim recorded for `key`, if any.
pub open spec fn claim_in(state: ProcessStateView, key: DeliveryKeyView) -> Option<Claim> {
    if state.claims.dom().contains(key) {
        Some(state.claims[key])
    } else {
        None
    }
}

/// What a request asking for `key` is told.
pub open spec fn admission_of(state: ProcessStateView, key: DeliveryKeyView) -> Admission {
    match claim_in(state, key) {
        Some(claim) => Admission::Duplicate(claim),
        None => Admission::Fresh,
    }
}

/// The state after a request has asked for `key`: a delivery that nobody held
/// is now in flight, a recorded one stays as it was.
pub open spec fn after_reserve(state: ProcessStateView, key: DeliveryKeyView) -> ProcessStateView {
    if state.claims.dom().contains(key) {
        state
    } else {
        ProcessStateView { claims: state.claims.insert(key, Claim::InFlight), ..state }
    }
}

/// The state after the dispatch for `key` was acknowledged.
pub open spec fn after_settle(state: ProcessStateView, key: DeliveryKeyView) -> ProcessStateView {
    ProcessStateView { claims: state.claims.insert(key, Claim::Delivered), ..state }
}

/// The state after the request that held `key` gave up: a claim in flight is
/// dropped, so that a later redelivery is processed afresh; a completed
/// delivery stays recorded.
pub open spec fn after_withdraw(state: ProcessStateView, key: DeliveryKeyView) -> ProcessStateView {
    if claim_in(state, key) == Some(Claim::InFlight) {
        ProcessStateView { claims: state.claims.remove(key), ..state }
    } else {
        state
    }
}

/// The state after the downstream client turned the credential down.
pub open spec fn after_rejection(state: ProcessStateView) -> ProcessStateView {
    ProcessStateView { credential_rejected: true, ..state }
}

spec fn keys_distinct(entries: Seq<Entry>) -> bool {
    forall|i: int, j: int|
        0 <= i < j < entries.len() ==> (#[trigger] entries[i]).key@ != (#[trigger] entries[j]).key@
}

spec fn holds(entries: Seq<Entry>, key: DeliveryKeyView) -> bool {
    exists|i: int| 0 <= i < entries.len() && (#[trigger] entries[i]).key@ == key
}

spec fn place_of(entries: Seq<Entry>, key: DeliveryKeyView) -> int {
    choose|i: int| 0 <= i < entries.len() && (#[trigger] entries[i]).key@ == key
}

spec fn claims_of(entries: Seq<Entry>) -> Map<DeliveryKeyView, Claim> {
    Map::new(
        |key: DeliveryKeyView| holds(entries, key),
        |key: DeliveryKeyView| entries[place_of(entries, key)].claim,
    )
}

proof fn lemma_claim_at(entries: Seq<Entry>, i: int)
    requires
        keys_distinct(entries),
        0 <= i < entries.len(),
    ensures
        claims_of(entries).dom().contains(entries[i].key@),
        claims_of(entries)[entries[i].key@] == entries[i].claim,
{
    let key = entries[i].key@;
    assert(holds(entries, key));
    let j = place_of(entries, key);
    assert(entries[j].key@ == key);
    assert(i == j);
}

proof fn lemma_claims_push(before: Seq<Entry>, after: Seq<Entry>)
    requires
        keys_distinct(before),
        after.len() == before.len() + 1,
        forall|i: int| 0 <= i < before.len() ==> after[i] == before[i],
        !holds(before, after[before.len() as int].key@),
    ensures
        keys_distinct(after),
        claims_of(after) == claims_of(before).insert(
            after[before.len() as int].key@,
            after[before.len() as int].claim,
        ),
{
    let last = before.len() as int;
    let key = after[last].key@;
    assert forall|i: int, j: int| 0 <= i < j < after.len() implies (#[trigger] after[i]).key@ != (
    #[trigger] after[j]).key@ by {
        assert(after[i] == before[i]);
        if j < last {
            assert(after[j] == before[j]);
        }
    }
    lemma_claim_at(after, last);
    assert forall|k: DeliveryKeyView| holds(after, k) <==> (k == key || holds(before, k)) by {
        if holds(after, k) {
            let i = place_of(after, k);
            if i < last {
                assert(before[i].key@ == k);
            }
        }
        if holds(before, k) {
            let i = place_of(before, k);
            assert(after[i].key@ == k);
        }
    }
    assert forall|k: DeliveryKeyView| holds(before, k) implies claims_of(after)[k] == claims_of(
        before,
    )[k] by {
        let i = place_of(before, k);
        assert(after[i] == before[i]);
        lemma_claim_at(after, i);
        lemma_claim_at(before, i);
    }
    assert(claims_of(after) =~= claims_of(before).insert(key, after[last].claim));
}

proof fn lemma_claims_update(before: Seq<Entry>, after: Seq<Entry>, at: int)
    requires
        keys_distinct(before),
        0 <= at < before.len(),
        after.len() == before.len(),
        forall|i: int| 0 <= i < before.len() && i != at ==> after[i] == before[i],
        after[at].key@ == before[at].key@,
    ensures
        keys_distinct(after),
        claims_of(after) == claims_of(before).insert(before[at].key@, after[at].claim),
{
    let key = before[at].key@;
    assert forall|i: int| 0 <= i < before.len() implies (#[trigger] after[i]).key@
        == before[i].key@ by {
        if i != at {
            assert(after[i] == before[i]);
        }
    }
    assert forall|i: int, j: int| 0 <= i < j < after.len() implies (#[trigger] after[i]).key@ != (
    #[trigger] after[j]).key@ by {
        assert(before[i].key@ != before[j].key@);
    }
    lemma_claim_at(after, at);
    assert forall|k: DeliveryKeyView| holds(after, k) <==> holds(before, k) by {
        if holds(after, k) {
            let i = place_of(after, k);
            assert(before[i].key@ == k);
        }
        if holds(before, k) {
            let i = place_of(before, k);
            assert(after[i].key@ == k);
        }
    }
    assert forall|k: DeliveryKeyView| holds(before, k) && k != key implies claims_of(after)[k]
        == claims_of(before)[k] by {
        let i = place_of(before, k);
        assert(after[i] == before[i]);
        lemma_claim_at(after, i);
        lemma_claim_at(before, i);
    }
    assert(holds(before, key));
    assert(claims_of(after) =~= claims_of(before).insert(key, after[at].claim));
}

proof fn lemma_claims_remove(before: Seq<Entry>, at: int)
    requires
        keys_distinct(before),
        0 <= at < before.len(),
    ensures
        keys_distinct(before.remove(at)),
        claims_of(before.remove(at)) == claims_of(before).remove(before[at].key@),
{
    let after = before.remove(at);
    let key = before[at].key@;
    assert forall|i: int| 0 <= i < after.len() implies (#[trigger] after[i]) == before[if i < at {
        i
    } else {
        i + 1
    }] by {}
    assert forall|i: int, j: int| 0 <= i < j < after.len() implies (#[trigger] after[i]).key@ != (
    #[trigger] after[j]).key@ by {
        let bi = if i < at { i } else { i + 1 };
        let bj = if j < at { j } else { j + 1 };
        assert(before[bi].key@ != before[bj].key@);
    }
    assert forall|k: DeliveryKeyView| holds(after, k) <==> (k != key && holds(before, k)) by {
        if holds(after, k) {
            let i = place_of(after, k);
            let bi = if i < at { i } else { i + 1 };
            assert(before[bi].key@ == k);
            if k == key {
                assert(before[bi].key@ != before[at].key@);
            }
        }
        if k != key && holds(before, k) {
            let bi = place_of(before, k);
            let i = if bi < at { bi } else { bi - 1 };
            assert(after[i].key@ == k);
        }
    }
    assert forall|k: DeliveryKeyView| holds(after, k) implies claims_of(after)[k] == claims_of(
        before,
    )[k] by {
        let i = place_of(after, k);
        let bi = if i < at { i } else { i + 1 };
        lemma_claim_at(after, i);
        lemma_claim_at(before, bi);
    }
    assert(claims_of(after) =~= claims_of(before).remove(key));
}

impl View for ProcessState {
    type V = ProcessStateView;

    closed spec fn view(&self) -> ProcessStateView {
        ProcessStateView {
            claims: claims_of(self.entries@),
            credential_rejected: self.credential_rejected,
        }
    }
}

impl ProcessState {
    /// Whether the record is sound: no delivery is recorded twice. Every state
    /// that this module hands out is, and every operation keeps it so.
    pub closed spec fn wf(&self) -> bool {
        keys_distinct(self.entries@)
    }

    /// The state of a process that has seen no delivery.
    pub fn new() -> (state: ProcessState)
        ensures
            state.wf(),
            state@ == initial_state(),
    {
        let state = ProcessState { entries: Vec::new(), credential_rejected: false };
        assert(state@.claims =~= Map::empty());
        state
    }

    fn position(&self, key: &DeliveryKey) -> (found: Option<usize>)
        ensures
            match found {
                Some(i) => i < self.entries@.len() && self.entries@[i as int].key@ == key@,
                None => !holds(self.entries@, key@),
            },
    {
        let mut i: usize = 0;
        while i < self.entries.len()
            invariant
                i <= self.entries@.len(),
                forall|j: int| 0 <= j < i ==> (#[trigger] self.entries@[j]).key@ != key@,
            decreases self.entries@.len() - i,
        {
            if self.entries[i].key.same_as(key) {
                return Some(i);
            }
            i += 1;
        }
        None
    }

    /// The claim recorded for `key`, if any. Needs shared access only.
    pub fn claim_of(&self, key: &DeliveryKey) -> (claim: Option<Claim>)
        requires
            self.wf(),
        ensures
            claim == claim_in(self@, key@),
    {
        match self.position(key) {
            Some(i) => {
                proof {
                    lemma_claim_at(self.entries@, i as int);
                }
                Some(self.entries[i].claim)
            },
            None => None,
        }
    }

    /// Whether the downstream client has turned the credential down.
    pub fn credential_rejected(&self) -> (rejected: bool)
        ensures
            rejected == self@.credential_rejected,
    {
        self.credential_rejected
    }

    /// Checks and records `key` in one step: a delivery that nobody holds
    /// becomes in flight and the caller is told `Fresh`; a recorded one is left
    /// as it is and the caller is told `Duplicate`.
    pub fn reserve(&mut self, key: &DeliveryKey) -> (admission: Admission)
        requires
            old(self).wf(),
        ensures
            final(self).wf(),
            admission == admission_of(old(self)@, key@),
            final(self)@ == after_reserve(old(self)@, key@),
    {
        match self.position(key) {
            Some(i) => {
                proof {
                    lemma_claim_at(self.entries@, i as int);
                }
                Admission::Duplicate(self.entries[i].claim)
            },
            None => {
                let ghost before = self.entries@;
                self.entries.push(Entry { key: key.duplicate(), claim: Claim::InFlight });
                proof {
                    lemma_claims_push(before, self.entries@);
                }
                Admission::Fresh
            },
        }
    }

    /// Records that the dispatch for `key` was acknowledged.
    pub fn settle(&mut self, key: &DeliveryKey)
        requires
            old(self).wf(),
        ensures
            final(self).wf(),
            final(self)@ == after_settle(old(self)@, key@),
    {
        let ghost before = self.entries@;
        let entry = Entry { key: key.duplicate(), claim: Claim::Delivered };
        match self.position(key) {
            Some(i) => {
                self.entries.set(i, entry);
                proof {
                    lemma_claims_update(before, self.entries@, i as int);
                }
            },
            None => {
                self.entries.push(entry);
                proof {
                    lemma_claims_push(before, self.entries@);
                }
            },
        }
    }

    /// Gives up the claim on `key`: one in flight is dropped, a completed
    /// delivery stays recorded.
    pub fn withdraw(&mut self, key: &DeliveryKey)
        requires
            old(self).wf(),
        ensures
            final(self).wf(),
            final(self)@ == after_withdraw(old(self)@, key@),
    {
        let ghost before = self.entries@;
        match self.position(key) {
            Some(i) => {
                proof {
                    lemma_claim_at(before, i as int);
                }
                if self.entries[i].claim == Claim::InFlight {
                    let _ = self.entries.remove(i);
                    proof {
                        lemma_claims_remove(before, i as int);
                    }
                }
            },
            None => {},
        }
    }

    /// Records that the downstream client turned the credential down.
    pub fn mark_credential_rejected(&mut self)
        requires
            old(self).wf(),
        ensures
            final(self).wf(),
            final(self)@ == after_rejection(old(self)@),
    {
        self.credential_rejected = true;
    }
}

/// A delivery that was asked for once is a duplicate for whoever asks next,
/// whether the first request is still in flight, has completed, or anything
/// has happened to other deliveries in between; asking again changes nothing.
pub proof fn law_second_request_is_duplicate(state: ProcessStateView, key: DeliveryKeyView)
    ensures
        admission_of(after_reserve(state, key), key) is Duplicate,
        after_reserve(after_reserve(state, key), key) == after_reserve(state, key),
        admission_of(after_settle(after_reserve(state, key), key), key) == Admission::Duplicate(
            Claim::Delivered,
        ),
{
}

/// A recorded delivery stays recorded under every operation on another
/// delivery.
pub proof fn law_record_survives_other_deliveries(
    state: ProcessStateView,
    key: DeliveryKeyView,
    other: DeliveryKeyView,
)
    requires
        key != other,
    ensures
        claim_in(after_reserve(state, other), key) == claim_in(state, key),
        claim_in(after_settle(state, other), key) == claim_in(state, key),
        claim_in(after_withdraw(state, other), key) == claim_in(state, key),
        claim_in(after_rejection(state), key) == claim_in(state, key),
{
}

/// Requests for different deliveries do not stand in each other's way: what
/// one is told does not depend on whether the other asked first, and the state
/// that both leave is the same in either order.
pub proof fn law_distinct_deliveries_are_independent(
    state: ProcessStateView,
    key: DeliveryKeyView,
    other: DeliveryKeyView,
)
    requires
        key != other,
    ensures
        admission_of(after_reserve(state, other), key) == admission_of(state, key),
        admission_of(after_reserve(state, key), other) == admission_of(state, other),
        after_reserve(after_reserve(state, key), other) == after_reserve(
            after_reserve(state, other),
            key,
        ),
{
    assert(after_reserve(after_reserve(state, key), other).claims =~= after_reserve(
        after_reserve(state, other),
        key,
    ).claims);
}

/// Giving up a claim that was just taken leaves the state as it was before.
pub proof fn law_withdraw_undoes_reserve(state: ProcessStateView, key: DeliveryKeyView)
    requires
        admission_of(state, key) is Fresh,
    ensures
        after_withdraw(after_reserve(state, key), key) == state,
{
    assert(after_withdraw(after_reserve(state, key), key).claims =~= state.claims);
}

} // verus!
