//! Game results and the counts of terminal results gathered by a search.
//!
//! An `Outcome` classifies a position from the perspective of one player.
//! An `OutcomeTally` counts how many terminal leaves of a search ended in a
//! win, a loss and a draw for that player; `Unfinished` is only a signal to
//! keep searching and is never counted.

use vstd::prelude::*;

verus! {

/// The result of a position, seen from one player's perspective.
#[derive(Debug, PartialEq, Eq, Structural, Clone, Copy)]
pub enum Outcome {
    Win,
    Loss,
    Draw,
    Unfinished,
}

/// The mathematical value of a tally: three unbounded counts.
pub ghost struct Tally {
    pub wins: nat,
    pub losses: nat,
    pub draws: nat,
}

/// The tally with every count zero.
pub open spec fn tally_zero() -> Tally {
    Tally { wins: 0, losses: 0, draws: 0 }
}

/// The tally of a single terminal leaf. `Unfinished` is not a terminal
/// result and counts nothing.
pub open spec fn tally_one(o: Outcome) -> Tally {
    match o {
        Outcome::Win => Tally { wins: 1, losses: 0, draws: 0 },
        Outcome::Loss => Tally { wins: 0, losses: 1, draws: 0 },
        Outcome::Draw => Tally { wins: 0, losses: 0, draws: 1 },
        Outcome::Unfinished => tally_zero(),
    }
}

/// Key-wise sum of two tallies.
pub open spec fn tally_add(a: Tally, b: Tally) -> Tally {
    Tally {
        wins: a.wins + b.wins,
        losses: a.losses + b.losses,
        draws: a.draws + b.draws,
    }
}

/// How many leaves a tally counts in all.
pub open spec fn tally_total(t: Tally) -> nat {
    t.wins + t.losses + t.draws
}

/// Exact counts of the terminal results found below a position.
pub struct OutcomeTally {
    pub wins: u64,
    pub losses: u64,
    pub draws: u64,
}

impl View for OutcomeTally {
    type V = Tally;

    open spec fn view(&self) -> Tally {
        Tally { wins: self.wins as nat, losses: self.losses as nat, draws: self.draws as nat }
    }
}

impl OutcomeTally {
    /// A fresh tally with nothing counted yet.
    pub fn new() -> (t: OutcomeTally)
        ensures
            t@ == tally_zero(),
    {
        OutcomeTally { wins: 0, losses: 0, draws: 0 }
    }

    /// Count one terminal leaf with result `o`.
    pub fn record(&mut self, o: Outcome)
        requires
            o != Outcome::Unfinished,
            tally_total(old(self)@) < u64::MAX,
        ensures
            final(self)@ == tally_add(old(self)@, tally_one(o)),
    {
        match o {
            Outcome::Win => {
                self.wins = self.wins + 1;
            },
            Outcome::Loss => {
                self.losses = self.losses + 1;
            },
            Outcome::Draw => {
                self.draws = self.draws + 1;
            },
            Outcome::Unfinished => unreached(),
        }
    }

    /// Fold another tally into this one by key-wise summation.
    pub fn merge(&mut self, other: &OutcomeTally)
        requires
            tally_total(old(self)@) + tally_total(other@) <= u64::MAX,
        ensures
            final(self)@ == tally_add(old(self)@, other@),
    {
        self.wins = self.wins + other.wins;
        self.losses = self.losses + other.losses;
        self.draws = self.draws + other.draws;
    }

    /// How many leaves this tally counts in all.
    pub fn total(&self) -> (n: u64)
        requires
            tally_total(self@) <= u64::MAX,
        ensures
            n == tally_total(self@),
    {
        self.wins + self.losses + self.draws
    }
}

} // verus!
