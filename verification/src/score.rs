//! The score ledger: player identity to accumulated points.
//!
//! Entries are created lazily on first credit, never decremented, and only
//! grow; a missing entry reads as zero. Credits saturate at the counter's
//! maximum rather than wrap.

use vstd::hash_map::StringHashMap;
use vstd::prelude::*;
use vstd::string::StrSliceExecFns;

verus! {

/// The sum of two counters, saturating at the maximum.
pub open spec fn sat_add(a: u32, b: u32) -> u32 {
    if a + b <= u32::MAX {
        (a + b) as u32
    } else {
        u32::MAX
    }
}

/// The total a ledger holds for a player; a missing entry counts as zero.
pub open spec fn total_of(m: Map<Seq<char>, u32>, player: Seq<char>) -> u32 {
    if m.contains_key(player) {
        m[player]
    } else {
        0u32
    }
}

/// The ledger after crediting a player.
pub open spec fn credited(m: Map<Seq<char>, u32>, player: Seq<char>, amount: u32) -> Map<
    Seq<char>,
    u32,
> {
    m.insert(player, sat_add(total_of(m, player), amount))
}

/// Accumulated points per player.
pub struct ScoreLedger {
    map: StringHashMap<u32>,
}

impl View for ScoreLedger {
    type V = Map<Seq<char>, u32>;

    closed spec fn view(&self) -> Map<Seq<char>, u32> {
        self.map@
    }
}

impl ScoreLedger {
    /// An empty ledger.
    pub fn new() -> (r: Self)
        ensures
            r@ == Map::<Seq<char>, u32>::empty(),
    {
        ScoreLedger { map: StringHashMap::new() }
    }

    /// The player's current total, zero when never credited.
    pub fn get(&self, player: &str) -> (r: u32)
        ensures
            r == total_of(self@, player@),
    {
        match self.map.get(player) {
            Some(v) => *v,
            None => 0,
        }
    }

    /// Adds `amount` to the player's entry, creating it at zero if absent.
    pub fn credit(&mut self, player: &str, amount: u32)
        ensures
            final(self)@ == credited(old(self)@, player@, amount),
    {
        let cur: u32 = self.get(player);
        let new_total: u32 = if cur <= u32::MAX - amount {
            cur + amount
        } else {
            u32::MAX
        };
        self.map.insert(player.to_owned(), new_total);
    }
}

/// Score accumulation: crediting a player with `a` and then with `b`, in
/// any two rounds, raises the player's total by exactly `a + b`, as long as
/// the counter does not saturate.
pub proof fn lemma_score_accumulation(
    m: Map<Seq<char>, u32>,
    player: Seq<char>,
    a: u32,
    b: u32,
)
    requires
        total_of(m, player) + a + b <= u32::MAX,
    ensures
        total_of(credited(credited(m, player, a), player, b), player) == total_of(m, player) + a
            + b,
{
}

} // verus!
