//! The record kept for each registered item, and the ways a match can fail.

use vstd::prelude::*;

verus! {

/// The mathematical value of a [`RecyclableItem`].
pub struct ItemView {
    pub id: nat,
    pub category: Seq<char>,
    pub description: Seq<char>,
    pub estimated_price: u64,
    pub image_url: Seq<char>,
    pub matched: bool,
    pub timestamp: u64,
}

/// One registered item.
///
/// The text fields and the price are kept exactly as they were supplied.
#[derive(Debug, PartialEq, Eq)]
pub struct RecyclableItem {
    /// Identifier assigned by the store.
    pub id: u64,
    /// Free-form label such as "plastic" or "paper".
    pub category: String,
    /// Free-form details.
    pub description: String,
    /// Suggested price, in currency units.
    pub estimated_price: u64,
    /// Where a picture of the item can be found.
    pub image_url: String,
    /// Whether a business has accepted the item.
    pub matched: bool,
    /// Clock reading taken when the item was registered.
    pub timestamp: u64,
}

impl View for RecyclableItem {
    type V = ItemView;

    open spec fn view(&self) -> ItemView {
        ItemView {
            id: self.id as nat,
            category: self.category@,
            description: self.description@,
            estimated_price: self.estimated_price,
            image_url: self.image_url@,
            matched: self.matched,
            timestamp: self.timestamp,
        }
    }
}

impl Clone for RecyclableItem {
    /// An independent copy with the same value.
    fn clone(&self) -> (copy: Self)
        ensures
            copy@ == self@,
    {
        RecyclableItem {
            id: self.id,
            category: self.category.clone(),
            description: self.description.clone(),
            estimated_price: self.estimated_price,
            image_url: self.image_url.clone(),
            matched: self.matched,
            timestamp: self.timestamp,
        }
    }
}

/// Why an item could not be marked as matched.
#[derive(Debug, Clone, Copy, PartialEq, Eq, Structural)]
pub enum MatchError {
    /// No record has the given identifier.
    NotFound,
    /// The record was matched before.
    AlreadyMatched,
}

impl MatchError {
    /// The text of [`MatchError::message`].
    pub open spec fn message_text(self) -> Seq<char> {
        match self {
            MatchError::NotFound => "Item not found."@,
            MatchError::AlreadyMatched => "Item already matched"@,
        }
    }

    /// A human-readable reason, distinct for each kind of failure.
    pub fn message(&self) -> (text: String)
        ensures
            text@ == self.message_text(),
    {
        match self {
            MatchError::NotFound => "Item not found.".to_string(),
            MatchError::AlreadyMatched => "Item already matched".to_string(),
        }
    }
}

/// The text that confirms a successful match.
pub open spec fn confirmation_text() -> Seq<char> {
    "Item successfully matched with a business!"@
}

/// The confirmation returned when an item has just been matched.
pub fn confirmation() -> (text: String)
    ensures
        text@ == confirmation_text(),
{
    "Item successfully matched with a business!".to_string()
}

} // verus!
