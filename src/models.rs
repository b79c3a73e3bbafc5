//! Rows of the relational stores.

use vstd::prelude::*;

verus! {

/// A ban mirrored into the shared ban list.
pub struct Dban {
    pub id: i32,
    pub reason: String,
    pub guild_id: String,
    pub userid: String,
    pub is_withdrawn: bool,
}

/// A strike as listed in a member's strike log.
pub struct StrikeLog {
    pub id: i32,
    pub moderator: String,
    pub reason: String,
}

/// A strike looked up by its case number.
pub struct GetStrike {
    pub userid: String,
    pub moderator: String,
    pub reason: String,
    pub is_withdrawn: bool,
}

/// A badge held by a member.
pub struct Badge {
    pub badge: String,
}

impl Default for Badge {
    fn default() -> (b: Badge)
        ensures
            b.badge@ == Seq::<char>::empty(),
    {
        Badge { badge: String::new() }
    }
}

/// A ban as listed for one member.
pub struct DbanList {
    pub id: i32,
    pub reason: String,
    pub is_withdrawn: bool,
}

} // verus!
