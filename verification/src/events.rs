//! Standardised event topics of the bill-payments contract.  Publishing an
//! event is left to the host layer; this module fixes the numeric topic codes.
use vstd::prelude::*;

verus! {

#[derive(Clone, Copy, PartialEq, Eq, Structural, Debug)]
pub enum EventCategory {
    Transaction,
    State,
    Alert,
    System,
    Access,
}

#[derive(Clone, Copy, PartialEq, Eq, Structural, Debug)]
pub enum EventPriority {
    Low,
    Medium,
    High,
}

/// The wire code of a category: its position in the declaration.
pub open spec fn category_code(c: EventCategory) -> u32 {
    match c {
        EventCategory::Transaction => 0,
        EventCategory::State => 1,
        EventCategory::Alert => 2,
        EventCategory::System => 3,
        EventCategory::Access => 4,
    }
}

/// The wire code of a priority: its position in the declaration.
pub open spec fn priority_code(p: EventPriority) -> u32 {
    match p {
        EventPriority::Low => 0,
        EventPriority::Medium => 1,
        EventPriority::High => 2,
    }
}

impl EventCategory {
    pub fn to_u32(self) -> (r: u32)
        ensures
            r == category_code(self),
    {
        match self {
            EventCategory::Transaction => 0,
            EventCategory::State => 1,
            EventCategory::Alert => 2,
            EventCategory::System => 3,
            EventCategory::Access => 4,
        }
    }
}

impl EventPriority {
    pub fn to_u32(self) -> (r: u32)
        ensures
            r == priority_code(self),
    {
        match self {
            EventPriority::Low => 0,
            EventPriority::Medium => 1,
            EventPriority::High => 2,
        }
    }
}

/// Topic layout of the standardised events: after the fixed "Remitwise"
/// symbol come the category code, the priority code and the action symbol.
pub struct RemitwiseEvents;

impl RemitwiseEvents {
    /// Category and priority codes of a single event's topics.
    pub fn emit_codes(category: EventCategory, priority: EventPriority) -> (r: (u32, u32))
        ensures
            r == (category_code(category), priority_code(priority)),
    {
        (category.to_u32(), priority.to_u32())
    }

    /// Category and priority codes of a batch event's topics: batch events
    /// always carry the low priority.
    pub fn emit_batch_codes(category: EventCategory) -> (r: (u32, u32))
        ensures
            r == (category_code(category), priority_code(EventPriority::Low)),
    {
        (category.to_u32(), EventPriority::Low.to_u32())
    }
}

/// Distinct categories have distinct codes, and so do distinct priorities.
pub proof fn lemma_codes_injective(a: EventCategory, b: EventCategory, p: EventPriority, q: EventPriority)
    ensures
        category_code(a) == category_code(b) ==> a == b,
        priority_code(p) == priority_code(q) ==> p == q,
        category_code(a) <= 4,
        priority_code(p) <= 2,
{
}

} // verus!
