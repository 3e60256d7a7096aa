//! What holds across several calls to the store, proved over the model in
//! [`crate::model`].

use crate::item::{ItemView, MatchError};
use crate::model::{Call, StoreState};
use vstd::prelude::*;

verus! {

/// Running one call more: the store after the first `i + 1` calls is the
/// store after the first `i` calls, stepped by call number `i`.
pub proof fn lemma_run_unfolds(s: StoreState, calls: Seq<Call>, i: int)
    requires
        0 <= i < calls.len(),
    ensures
        s.run(calls.take(i + 1)) == s.run(calls.take(i)).step(calls[i]),
{
    assert(calls.take(i + 1).drop_last() =~= calls.take(i));
}

/// No call breaks the invariant.
pub proof fn lemma_step_preserves_wf(s: StoreState, call: Call)
    requires
        s.wf(),
    ensures
        s.step(call).wf(),
{
}

/// Every store reached from a well-formed one is well-formed.
pub proof fn lemma_run_preserves_wf(s: StoreState, calls: Seq<Call>)
    requires
        s.wf(),
    ensures
        s.run(calls).wf(),
    decreases calls.len(),
{
    if calls.len() > 0 {
        lemma_run_preserves_wf(s, calls.drop_last());
        lemma_step_preserves_wf(s.run(calls.drop_last()), calls.last());
    }
}

/// Every store reached from the empty one is well-formed.
pub proof fn lemma_reachable_is_wf(calls: Seq<Call>)
    ensures
        StoreState::empty().run(calls).wf(),
{
    lemma_run_preserves_wf(StoreState::empty(), calls);
}

/// The counter never goes back: an earlier call sees a counter no greater
/// than a later one does.
pub proof fn lemma_counter_never_decreases(s: StoreState, calls: Seq<Call>, i: int, j: int)
    requires
        0 <= i <= j <= calls.len(),
    ensures
        s.issued_id(calls, i) <= s.issued_id(calls, j),
    decreases j - i,
{
    if i < j {
        lemma_counter_never_decreases(s, calls, i, j - 1);
        lemma_run_unfolds(s, calls, j - 1);
    }
}

/// Identifiers are unique and strictly increasing in call order: of two
/// registrations in a sequence of calls, the later one receives the
/// greater identifier, whatever other calls are made before, between or
/// after them.
pub proof fn lemma_issued_ids_increase(s: StoreState, calls: Seq<Call>, i: int, j: int)
    requires
        0 <= i < j < calls.len(),
        calls[i] is Register,
        calls[j] is Register,
    ensures
        s.issued_id(calls, i) < s.issued_id(calls, j),
{
    lemma_run_unfolds(s, calls, i);
    lemma_counter_never_decreases(s, calls, i + 1, j);
}

/// In a sequence made of registrations only, call number `k` receives the
/// identifier `next_id + k`, and the counter ends `calls.len()` higher.
pub proof fn lemma_registrations_count_up(s: StoreState, calls: Seq<Call>, k: int)
    requires
        forall|i: int| 0 <= i < calls.len() ==> #[trigger] calls[i] is Register,
        0 <= k <= calls.len(),
    ensures
        s.issued_id(calls, k) == s.next_id + k,
    decreases k,
{
    if k > 0 {
        lemma_registrations_count_up(s, calls, k - 1);
        lemma_run_unfolds(s, calls, k - 1);
        assert(calls[k - 1] is Register);
    } else {
        assert(calls.take(0) =~= Seq::<Call>::empty());
    }
}

/// Registrations append to the listing: after a sequence made of
/// registrations only, the listing is the earlier listing followed by one
/// unmatched record for each call, in call order, holding what that call
/// supplied.
pub proof fn lemma_registrations_extend_listing(s: StoreState, calls: Seq<Call>)
    requires
        s.wf(),
        forall|i: int| 0 <= i < calls.len() ==> #[trigger] calls[i] is Register,
    ensures
        s.run(calls).list_all() == s.list_all() + Seq::new(
            calls.len(),
            |k: int| calls[k]->Register_0.record((s.next_id + k) as nat),
        ),
    decreases calls.len(),
{
    let added = Seq::new(
        calls.len(),
        |k: int| calls[k]->Register_0.record((s.next_id + k) as nat),
    );
    if calls.len() == 0 {
        assert(s.run(calls).list_all() =~= s.list_all() + added);
    } else {
        let before = calls.drop_last();
        let mid = s.run(before);
        lemma_registrations_extend_listing(s, before);
        lemma_run_preserves_wf(s, before);
        assert(calls.take(calls.len() - 1) =~= before);
        lemma_registrations_count_up(s, calls, calls.len() - 1);
        assert(calls.last() is Register);
        let added_before = Seq::new(
            before.len(),
            |k: int| before[k]->Register_0.record((s.next_id + k) as nat),
        );
        assert(mid.list_all() == s.list_all() + added_before);
        assert forall|i: int| 0 <= i < s.run(calls).list_all().len() implies s.run(
            calls,
        ).list_all()[i] == (s.list_all() + added)[i] by {
            if i < mid.list_all().len() {
                assert(s.run(calls).list_all()[i] == mid.list_all()[i]);
                assert(mid.list_all()[i] == (s.list_all() + added_before)[i]);
            }
        }
        assert(s.run(calls).list_all() =~= s.list_all() + added);
    }
}

/// Listing right after `N` registrations into an empty store returns
/// exactly `N` records, none of them matched: record number `k` holds what
/// call number `k` supplied, under identifier `k + 1`.
pub proof fn lemma_listing_after_registrations(calls: Seq<Call>)
    requires
        forall|i: int| 0 <= i < calls.len() ==> #[trigger] calls[i] is Register,
    ensures
        StoreState::empty().run(calls).list_all().len() == calls.len(),
        forall|k: int|
            0 <= k < calls.len() ==> {
                let record = #[trigger] StoreState::empty().run(calls).list_all()[k];
                &&& record == calls[k]->Register_0.record((k + 1) as nat)
                &&& !record.matched
            },
{
    lemma_registrations_extend_listing(StoreState::empty(), calls);
    assert(StoreState::empty().list_all() =~= Seq::<ItemView>::empty());
}

/// The listing holds every record of the store exactly once, in ascending
/// order of identifier.
pub proof fn lemma_listing_is_complete(s: StoreState)
    requires
        s.wf(),
    ensures
        forall|i: int|
            0 <= i < s.list_all().len() ==> {
                &&& (#[trigger] s.list_all()[i]).id == i + 1
                &&& s.items.contains_key((i + 1) as nat)
                &&& s.list_all()[i] == s.items[(i + 1) as nat]
            },
        forall|id: nat| #[trigger]
            s.items.contains_key(id) ==> 0 <= id - 1 < s.list_all().len() && s.list_all()[id - 1]
                == s.items[id],
{
}

/// Matching an item that exists and is not yet matched succeeds; the
/// listing then shows that record as matched, and every other record, the
/// order and the counter are as before.
pub proof fn lemma_match_unmatched(s: StoreState, id: nat)
    requires
        s.wf(),
        s.items.contains_key(id),
        !s.items[id].matched,
    ensures
        s.match_result(id) == Ok::<(), MatchError>(()),
        s.match_item(id).next_id == s.next_id,
        s.match_item(id).list_all() == s.list_all().update(
            id - 1,
            ItemView { matched: true, ..s.items[id] },
        ),
        s.match_item(id).wf(),
{
    assert(s.match_item(id).list_all() =~= s.list_all().update(
        id - 1,
        ItemView { matched: true, ..s.items[id] },
    ));
}

/// A record stays as it was registered, unmatched, for as long as no call
/// matches it: if call number `i` is a registration and no later call
/// matches the identifier it received, the store holds that record
/// unchanged at the end, and matching it then succeeds.
pub proof fn lemma_unmatched_until_matched(s: StoreState, calls: Seq<Call>, i: int)
    requires
        s.wf(),
        0 <= i < calls.len(),
        calls[i] is Register,
        forall|j: int| i < j < calls.len() ==> #[trigger] calls[j] != Call::Match(
            s.issued_id(calls, i),
        ),
    ensures
        s.run(calls).items.contains_key(s.issued_id(calls, i)),
        s.run(calls).items[s.issued_id(calls, i)] == calls[i]->Register_0.record(
            s.issued_id(calls, i),
        ),
        s.run(calls).match_result(s.issued_id(calls, i)) == Ok::<(), MatchError>(()),
    decreases calls.len(),
{
    let id = s.issued_id(calls, i);
    let before = calls.drop_last();
    lemma_run_preserves_wf(s, before);
    if i == calls.len() - 1 {
        assert(calls.take(i) =~= before);
    } else {
        assert(before.take(i) =~= calls.take(i));
        assert forall|j: int| i < j < before.len() implies #[trigger] before[j] != Call::Match(
            s.issued_id(before, i),
        ) by {
            assert(before[j] == calls[j]);
        }
        lemma_unmatched_until_matched(s, before, i);
        assert(calls.last() == calls[calls.len() - 1]);
    }
}

/// Matching a second time fails: after a successful match of `id`, another
/// attempt reports that the item is already matched and leaves the store,
/// and with it the record's flag, as it was.
pub proof fn lemma_match_twice(s: StoreState, id: nat)
    requires
        s.match_result(id) is Ok,
    ensures
        s.match_item(id).items[id].matched,
        s.match_item(id).match_result(id) == Err::<(), MatchError>(MatchError::AlreadyMatched),
        s.match_item(id).match_item(id) == s.match_item(id),
{
}

/// Once matched, always matched: whatever calls follow, a matched record
/// stays in the store exactly as it is, and every further attempt to match
/// it reports that it is already matched.
pub proof fn lemma_matched_is_permanent(s: StoreState, calls: Seq<Call>, id: nat)
    requires
        s.wf(),
        s.items.contains_key(id),
        s.items[id].matched,
    ensures
        s.run(calls).items.contains_key(id),
        s.run(calls).items[id] == s.items[id],
        s.run(calls).match_result(id) == Err::<(), MatchError>(MatchError::AlreadyMatched),
    decreases calls.len(),
{
    if calls.len() > 0 {
        lemma_matched_is_permanent(s, calls.drop_last(), id);
        lemma_run_preserves_wf(s, calls.drop_last());
    }
}

/// No call removes a record or changes anything in it but the flag, and
/// the flag only from unmatched to matched.
pub proof fn lemma_records_persist(s: StoreState, calls: Seq<Call>, id: nat)
    requires
        s.wf(),
        s.items.contains_key(id),
    ensures
        s.run(calls).items.contains_key(id),
        s.run(calls).items[id] == s.items[id] || s.run(calls).items[id] == (ItemView {
            matched: true,
            ..s.items[id]
        }),
    decreases calls.len(),
{
    if calls.len() > 0 {
        lemma_records_persist(s, calls.drop_last(), id);
        lemma_run_preserves_wf(s, calls.drop_last());
    }
}

/// An identifier outside the range handed out so far, 0 among them, is not
/// found, and the attempt changes nothing.
pub proof fn lemma_match_unknown(s: StoreState, id: nat)
    requires
        s.wf(),
        id == 0 || id >= s.next_id,
    ensures
        s.match_result(id) == Err::<(), MatchError>(MatchError::NotFound),
        s.match_item(id) == s,
{
}

/// Every identifier in use was handed out by a registration: a store
/// reached from the empty one holds `id` only if some registration among
/// the calls received it.
pub proof fn lemma_stored_ids_were_issued(calls: Seq<Call>, id: nat)
    requires
        StoreState::empty().run(calls).items.contains_key(id),
    ensures
        exists|i: int|
            0 <= i < calls.len() && #[trigger] calls[i] is Register && StoreState::empty().issued_id(
                calls,
                i,
            ) == id,
    decreases calls.len(),
{
    let s = StoreState::empty();
    if calls.len() > 0 {
        let before = calls.drop_last();
        let last = calls.len() - 1;
        assert(calls.take(last) =~= before);
        if s.run(before).items.contains_key(id) {
            lemma_stored_ids_were_issued(before, id);
            let i = choose|i: int|
                0 <= i < before.len() && #[trigger] before[i] is Register && s.issued_id(before, i)
                    == id;
            assert(before.take(i) =~= calls.take(i));
            assert(calls[i] is Register);
        } else {
            assert(calls[last] is Register);
            assert(s.issued_id(calls, last) == id);
        }
    }
}

/// An identifier that no registration returned is not found: in a store
/// reached from the empty one, matching such an identifier fails with
/// `NotFound` and changes nothing.
pub proof fn lemma_unissued_is_not_found(calls: Seq<Call>, id: nat)
    requires
        forall|i: int|
            0 <= i < calls.len() && #[trigger] calls[i] is Register ==> StoreState::empty().issued_id(
                calls,
                i,
            ) != id,
    ensures
        StoreState::empty().run(calls).match_result(id) == Err::<(), MatchError>(
            MatchError::NotFound,
        ),
        StoreState::empty().run(calls).match_item(id) == StoreState::empty().run(calls),
{
    if StoreState::empty().run(calls).items.contains_key(id) {
        lemma_stored_ids_were_issued(calls, id);
    }
}

} // verus!
