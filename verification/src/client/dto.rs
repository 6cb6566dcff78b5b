use crate::bounded::bytes_before;
use crate::names::player::PlayerAlias;
use vstd::prelude::*;
use vstd::utf8::encode_utf8;

verus! {

/// One line of a leaderboard.
#[derive(Clone, Debug, PartialEq, Eq)]
pub struct LeaderboardScoreDto {
    pub alias: PlayerAlias,
    pub score: u32,
}

impl LeaderboardScoreDto {
    /// Whether this line stands below another: by the lesser score, and at the
    /// same score by the alias that comes first.
    pub open spec fn below(&self, other: &Self) -> bool {
        self.score < other.score || (self.score == other.score && bytes_before(
            encode_utf8(self.alias@),
            encode_utf8(other.alias@),
        ))
    }

    /// Tells whether this line stands below another.
    pub fn is_below(&self, other: &Self) -> (r: bool)
        ensures
            r == self.below(other),
    {
        if self.score != other.score {
            self.score < other.score
        } else {
            self.alias.before(&other.alias)
        }
    }

    /// Tells whether two lines are the same.
    pub fn same(&self, other: &Self) -> (r: bool)
        ensures
            r == (self.score == other.score && self.alias@ == other.alias@),
    {
        self.score == other.score && self.alias.same(&other.alias)
    }
}

} // verus!
