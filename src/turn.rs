use vstd::prelude::*;

verus! {

/// Whose move is next: the human player (who marks `X`) or the bot (who marks `O`).
#[derive(Clone, Copy, Debug, PartialEq, Eq, Structural)]
pub enum Turn {
    Player,
    Bot,
}

/// The turn that follows `t`.
pub open spec fn next(t: Turn) -> Turn {
    match t {
        Turn::Player => Turn::Bot,
        Turn::Bot => Turn::Player,
    }
}

impl Turn {
    /// The turn that follows this one.
    pub fn next(self) -> (r: Turn)
        ensures
            r == next(self),
    {
        match self {
            Turn::Player => Turn::Bot,
            Turn::Bot => Turn::Player,
        }
    }
}

/// Passing the turn twice gives it back to the same party.
pub proof fn lemma_next_involution(t: Turn)
    ensures
        next(next(t)) == t,
        next(t) != t,
{
}

} // verus!
