//! The mathematical model of the store.
//!
//! A store is a finite map from identifiers to records together with the
//! identifier that the next registration will receive. Identifiers are
//! natural numbers here; the executable store adds the 64-bit limit.

use crate::item::{ItemView, MatchError};
use vstd::prelude::*;

verus! {

/// What one registration carries: the four fields that the caller supplies
/// and the clock reading taken for it.
pub struct Registration {
    pub category: Seq<char>,
    pub description: Seq<char>,
    pub estimated_price: u64,
    pub image_url: Seq<char>,
    pub timestamp: u64,
}

impl Registration {
    /// The record that this registration becomes under identifier `id`:
    /// the fields as supplied, not yet matched.
    pub open spec fn record(self, id: nat) -> ItemView {
        ItemView {
            id,
            category: self.category,
            description: self.description,
            estimated_price: self.estimated_price,
            image_url: self.image_url,
            matched: false,
            timestamp: self.timestamp,
        }
    }
}

/// A call that may change the store.
pub enum Call {
    /// Register an item.
    Register(Registration),
    /// Mark the item with this identifier as matched.
    Match(nat),
}

/// The mathematical value of a store.
#[verifier::ext_equal]
pub struct StoreState {
    /// The records, by identifier.
    pub items: Map<nat, ItemView>,
    /// The identifier that the next registration receives.
    pub next_id: nat,
}

impl StoreState {
    /// The store before anything was registered.
    pub open spec fn empty() -> StoreState {
        StoreState { items: Map::empty(), next_id: 1 }
    }

    /// What holds of every store: the identifiers in use are exactly those
    /// from 1 up to, not including, `next_id`, and each record carries the
    /// identifier it is stored under.
    pub open spec fn wf(self) -> bool {
        &&& self.next_id >= 1
        &&& forall|id: nat| self.items.contains_key(id) <==> 1 <= id < self.next_id
        &&& forall|id: nat| self.items.contains_key(id) ==> (#[trigger] self.items[id]).id == id
    }

    /// The store after one registration: the new record is stored under
    /// `next_id`, which then advances by one.
    pub open spec fn register(self, entry: Registration) -> StoreState {
        StoreState {
            items: self.items.insert(self.next_id, entry.record(self.next_id)),
            next_id: self.next_id + 1,
        }
    }

    /// Whether the item `id` can be matched now, and if not, why.
    pub open spec fn match_result(self, id: nat) -> Result<(), MatchError> {
        if !self.items.contains_key(id) {
            Err(MatchError::NotFound)
        } else if self.items[id].matched {
            Err(MatchError::AlreadyMatched)
        } else {
            Ok(())
        }
    }

    /// The store after an attempt to match the item `id`: where the attempt
    /// succeeds that record's flag is set, and nothing else changes; where
    /// it fails nothing changes at all.
    pub open spec fn match_item(self, id: nat) -> StoreState {
        if self.match_result(id) is Ok {
            StoreState {
                items: self.items.insert(id, ItemView { matched: true, ..self.items[id] }),
                next_id: self.next_id,
            }
        } else {
            self
        }
    }

    /// The records in ascending order of identifier.
    pub open spec fn list_all(self) -> Seq<ItemView> {
        Seq::new((self.next_id - 1) as nat, |i: int| self.items[(i + 1) as nat])
    }

    /// The store after one call.
    pub open spec fn step(self, call: Call) -> StoreState {
        match call {
            Call::Register(entry) => self.register(entry),
            Call::Match(id) => self.match_item(id),
        }
    }

    /// The store after a sequence of calls, made in order.
    pub open spec fn run(self, calls: Seq<Call>) -> StoreState
        decreases calls.len(),
    {
        if calls.len() == 0 {
            self
        } else {
            self.run(calls.drop_last()).step(calls.last())
        }
    }

    /// The identifier that call number `i` of `calls` returns if it is a
    /// registration: the value of `next_id` when the call is made.
    pub open spec fn issued_id(self, calls: Seq<Call>, i: int) -> nat {
        self.run(calls.take(i)).next_id
    }
}

} // verus!
