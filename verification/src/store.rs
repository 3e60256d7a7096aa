//! The executable store.

use crate::item::{confirmation, confirmation_text, MatchError, RecyclableItem};
use crate::model::{Registration, StoreState};
use std::collections::HashMap;
use vstd::prelude::*;

verus! {

broadcast use vstd::std_specs::hash::group_hash_axioms;

/// The records of all registered items, and the counter that identifiers
/// are drawn from.
pub struct ItemStore {
    items: HashMap<u64, RecyclableItem>,
    next_id: u64,
}

impl View for ItemStore {
    type V = StoreState;

    closed spec fn view(&self) -> StoreState {
        StoreState {
            items: Map::new(
                |id: nat| id <= u64::MAX && self.items@.contains_key(id as u64),
                |id: nat| self.items@[id as u64]@,
            ),
            next_id: self.next_id as nat,
        }
    }
}

impl ItemStore {
    /// The store's invariant: its value is a well-formed store whose
    /// counter fits in 64 bits.
    pub open spec fn wf(&self) -> bool {
        &&& self@.wf()
        &&& self@.next_id <= u64::MAX
    }

    /// Whether one more item can be registered before the identifiers run
    /// out.
    pub open spec fn has_room(&self) -> bool {
        self@.next_id < u64::MAX
    }

    /// An empty store, whose first identifier will be 1.
    pub fn new() -> (store: ItemStore)
        ensures
            store.wf(),
            store@ == StoreState::empty(),
    {
        let store = ItemStore { items: HashMap::new(), next_id: 1 };
        assert(store@ =~= StoreState::empty());
        store
    }

    /// Registers an item and returns its identifier.
    ///
    /// The four caller-supplied fields are stored as they are; `timestamp`
    /// is the clock reading taken for this registration. The new record is
    /// unmatched. Identifiers start at 1 and grow by one with each
    /// registration.
    pub fn list_recyclable_item(
        &mut self,
        category: String,
        description: String,
        estimated_price: u64,
        image_url: String,
        timestamp: u64,
    ) -> (id: u64)
        requires
            old(self).wf(),
            old(self).has_room(),
        ensures
            final(self).wf(),
            id == old(self)@.next_id,
            final(self)@ == old(self)@.register(
                (Registration {
                    category: category@,
                    description: description@,
                    estimated_price,
                    image_url: image_url@,
                    timestamp,
                }),
            ),
    {
        let id = self.next_id;
        self.next_id = id + 1;
        let item = RecyclableItem {
            id,
            category,
            description,
            estimated_price,
            image_url,
            matched: false,
            timestamp,
        };
        self.items.insert(id, item);
        assert(self@ =~= old(self)@.register(
            (Registration {
                category: category@,
                description: description@,
                estimated_price,
                image_url: image_url@,
                timestamp,
            }),
        ));
        id
    }

    /// Marks the item `item_id` as matched with a business.
    ///
    /// Succeeds, with a confirmation, exactly when the item exists and was
    /// not matched before; its flag is then set and nothing else changes.
    /// Fails with [`MatchError::NotFound`] when no record has that
    /// identifier and with [`MatchError::AlreadyMatched`] when the record
    /// is matched already; a failed call leaves the store as it was.
    pub fn match_with_business(&mut self, item_id: u64) -> (outcome: Result<String, MatchError>)
        requires
            old(self).wf(),
        ensures
            final(self).wf(),
            final(self)@ == old(self)@.match_item(item_id as nat),
            match outcome {
                Ok(text) => old(self)@.match_result(item_id as nat) is Ok && text@
                    == confirmation_text(),
                Err(reason) => old(self)@.match_result(item_id as nat) == Err::<(), MatchError>(
                    reason,
                ),
            },
    {
        match self.items.remove(&item_id) {
            None => {
                assert(self@ =~= old(self)@);
                Err(MatchError::NotFound)
            },
            Some(item) => {
                if item.matched {
                    self.items.insert(item_id, item);
                    assert(self@ =~= old(self)@);
                    Err(MatchError::AlreadyMatched)
                } else {
                    let mut item = item;
                    item.matched = true;
                    self.items.insert(item_id, item);
                    assert(self@ =~= old(self)@.match_item(item_id as nat));
                    Ok(confirmation())
                }
            },
        }
    }

    /// A copy of every record, in ascending order of identifier.
    ///
    /// The copies are independent of the store: what happens to the store
    /// later does not show in them.
    pub fn get_all_items(&self) -> (listing: Vec<RecyclableItem>)
        requires
            self.wf(),
        ensures
            listing@.len() == self@.list_all().len(),
            forall|i: int|
                0 <= i < listing@.len() ==> (#[trigger] listing@[i])@ == self@.list_all()[i],
    {
        let mut listing: Vec<RecyclableItem> = Vec::new();
        let mut id: u64 = 1;
        while id < self.next_id
            invariant
                self.wf(),
                1 <= id <= self.next_id,
                listing@.len() == id - 1,
                forall|i: int|
                    0 <= i < listing@.len() ==> listing@[i]@ == self@.items[(i + 1) as nat],
            decreases self.next_id - id,
        {
            assert(self@.items.contains_key(id as nat));
            if let Some(item) = self.items.get(&id) {
                listing.push(item.clone());
            }
            id = id + 1;
        }
        listing
    }

    /// Whether the identifiers have run out, so that nothing more can be
    /// registered.
    pub fn is_full(&self) -> (full: bool)
        ensures
            full == !self.has_room(),
    {
        self.next_id == u64::MAX
    }
}

} // verus!
