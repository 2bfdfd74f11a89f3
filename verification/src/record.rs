//! The two record kinds held by the store, with their mathematical models.

use vstd::prelude::*;

verus! {

/// A pattern registered to a channel: a message in that channel that contains
/// `pattern` as a literal substring counts towards the author's tally.
pub struct PatternRecord {
    /// Store-assigned identifier, unique among patterns.
    pub id: i32,
    /// The channel the pattern applies to.
    pub channel_id: String,
    /// The literal substring to look for in message text.
    pub pattern: String,
}

/// Mathematical view of a [`PatternRecord`].
pub ghost struct PatternModel {
    pub id: int,
    pub channel_id: Seq<char>,
    pub pattern: Seq<char>,
}

impl View for PatternRecord {
    type V = PatternModel;

    open spec fn view(&self) -> PatternModel {
        PatternModel {
            id: self.id as int,
            channel_id: self.channel_id@,
            pattern: self.pattern@,
        }
    }
}

/// The accumulated count of one user for one pattern. At most one record
/// exists per `(pattern_id, user_id)` pair; the engine guarantees this by
/// creating a record only after a lookup came back empty.
pub struct CountRecord {
    /// Store-assigned identifier, unique among counts.
    pub id: i32,
    /// The owning pattern's id. Deleting the pattern leaves the count behind.
    pub pattern_id: i32,
    /// The author whose messages are tallied.
    pub user_id: String,
    /// The accumulated quantity.
    pub count: i32,
}

/// Mathematical view of a [`CountRecord`].
pub ghost struct CountModel {
    pub id: int,
    pub pattern_id: int,
    pub user_id: Seq<char>,
    pub count: int,
}

impl View for CountRecord {
    type V = CountModel;

    open spec fn view(&self) -> CountModel {
        CountModel {
            id: self.id as int,
            pattern_id: self.pattern_id as int,
            user_id: self.user_id@,
            count: self.count as int,
        }
    }
}

} // verus!
