//! The progression ledger: level, experience and lifetime totals, and which
//! part of the history of rounds the log shows.
//!
//! How much experience a level asks for is decided outside this module; the
//! ledger only keeps the books.

use vstd::prelude::*;

verus! {

/// A player's cumulative progress.
#[derive(Clone, Copy, Debug, PartialEq, Eq, Structural)]
pub struct PlayerData {
    /// The level reached; a new player is on level one.
    pub level: u32,
    /// Experience gathered towards the next level.
    pub current_xp: u32,
    /// Characters typed over all rounds.
    pub total_typed_chars: u32,
    /// Keystrokes rejected over all rounds.
    pub total_misses: u32,
}

impl Default for PlayerData {
    /// A new player: level one, nothing gathered, nothing typed.
    fn default() -> (data: Self)
        ensures
            data == (PlayerData { level: 1, current_xp: 0, total_typed_chars: 0, total_misses: 0 }),
    {
        PlayerData { level: 1, current_xp: 0, total_typed_chars: 0, total_misses: 0 }
    }
}

impl PlayerData {
    /// Credits the experience and the characters of a finished round.
    pub fn credit(&mut self, xp_to_add: u32, chars_typed: u32)
        requires
            old(self).current_xp + xp_to_add <= u32::MAX,
            old(self).total_typed_chars + chars_typed <= u32::MAX,
        ensures
            *final(self) == (PlayerData {
                current_xp: (old(self).current_xp + xp_to_add) as u32,
                total_typed_chars: (old(self).total_typed_chars + chars_typed) as u32,
                ..*old(self)
            }),
    {
        self.current_xp = self.current_xp + xp_to_add;
        self.total_typed_chars = self.total_typed_chars + chars_typed;
    }

    /// Adds the mistakes of a finished round to the lifetime total.
    pub fn add_misses(&mut self, misses: u32)
        requires
            old(self).total_misses + misses <= u32::MAX,
        ensures
            *final(self) == (PlayerData {
                total_misses: (old(self).total_misses + misses) as u32,
                ..*old(self)
            }),
    {
        self.total_misses = self.total_misses + misses;
    }

    /// Moves up one level if the experience gathered reaches `required`, the
    /// amount the current level asks for, and pays that amount. Returns
    /// whether the level went up.
    pub fn level_up(&mut self, required: u32) -> (leveled_up: bool)
        requires
            old(self).level < u32::MAX,
        ensures
            leveled_up == (old(self).current_xp >= required),
            leveled_up ==> *final(self) == (PlayerData {
                level: (old(self).level + 1) as u32,
                current_xp: (old(self).current_xp - required) as u32,
                ..*old(self)
            }),
            !leveled_up ==> *final(self) == *old(self),
    {
        if self.current_xp >= required {
            self.current_xp = self.current_xp - required;
            self.level = self.level + 1;
            true
        } else {
            false
        }
    }
}

/// How many rounds the log shows.
pub const LOG_LIMIT: usize = 15;

/// The positions, in a history of `len` rounds kept oldest first, of the
/// `limit` most recent rounds, newest first. A shorter history is listed
/// whole.
pub fn recent_indices(len: usize, limit: usize) -> (indices: Vec<usize>)
    ensures
        indices@.len() == if len < limit {
            len
        } else {
            limit
        },
        forall|k: int| 0 <= k < indices@.len() ==> indices@[k] == len - 1 - k,
{
    let count = if len < limit {
        len
    } else {
        limit
    };
    let mut indices: Vec<usize> = Vec::new();
    let mut k: usize = 0;
    while k < count
        invariant
            k <= count <= len,
            indices@.len() == k,
            forall|j: int| 0 <= j < k ==> indices@[j] == len - 1 - j,
        decreases count - k,
    {
        indices.push(len - 1 - k);
        k = k + 1;
    }
    indices
}

} // verus!
