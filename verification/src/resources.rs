//! Per-player resource pool: health, coins and souls, with the caps the
//! game rules impose.

use vstd::prelude::*;

verus! {

pub const DEFAULT_COINS: u8 = 3;

pub const MAX_COINS: u8 = 99;

pub const VICTORY_SOULS: u8 = 4;

#[derive(Debug, Clone, PartialEq, Eq, Structural)]
pub struct PlayerResources {
    pub health: u8,
    pub coins: u8,
    pub souls: u8,
    pub max_health: u8,
}

impl Default for PlayerResources {
    /// A fresh pool at the default starting health of two.
    fn default() -> (r: PlayerResources)
        ensures
            r == PlayerResources::spec_new(2),
    {
        PlayerResources::new(2)
    }
}

impl PlayerResources {
    /// A fresh pool: full health, the starting coins, no souls.
    pub open spec fn spec_new(max_health: u8) -> PlayerResources {
        PlayerResources { coins: DEFAULT_COINS, max_health, health: max_health, souls: 0 }
    }

    pub fn new(max_health: u8) -> (r: PlayerResources)
        ensures
            r == PlayerResources::spec_new(max_health),
    {
        PlayerResources { coins: DEFAULT_COINS, max_health, health: max_health, souls: 0 }
    }

    /// Health drops by `amount`, to a floor of zero; reports whether the
    /// player died of it.
    pub fn take_damage(&mut self, amount: u8) -> (died: bool)
        ensures
            died == (amount >= old(self).health),
            final(self).health == if amount >= old(self).health {
                0u8
            } else {
                (old(self).health - amount) as u8
            },
            final(self).coins == old(self).coins,
            final(self).souls == old(self).souls,
            final(self).max_health == old(self).max_health,
    {
        if amount >= self.health {
            self.health = 0;
            true
        } else {
            self.health = self.health - amount;
            false
        }
    }

    /// Health rises by `amount`, capped at the maximum.
    pub fn heal(&mut self, amount: u8)
        requires
            old(self).health + amount <= u8::MAX,
        ensures
            final(self).health == if old(self).health + amount <= old(self).max_health {
                (old(self).health + amount) as u8
            } else {
                old(self).max_health
            },
            final(self).coins == old(self).coins,
            final(self).souls == old(self).souls,
            final(self).max_health == old(self).max_health,
    {
        let raised = self.health + amount;
        self.health = if raised <= self.max_health {
            raised
        } else {
            self.max_health
        };
    }

    /// Coins rise by `amount`, capped at the table limit.
    pub fn gain_coins(&mut self, amount: u8)
        requires
            old(self).coins + amount <= u8::MAX,
        ensures
            final(self).coins == if old(self).coins + amount <= MAX_COINS {
                (old(self).coins + amount) as u8
            } else {
                MAX_COINS
            },
            final(self).health == old(self).health,
            final(self).souls == old(self).souls,
            final(self).max_health == old(self).max_health,
    {
        let raised = self.coins + amount;
        self.coins = if raised <= MAX_COINS {
            raised
        } else {
            MAX_COINS
        };
    }

    /// Pays `amount` coins when they are there; reports whether it paid.
    pub fn spend_coins(&mut self, amount: u8) -> (paid: bool)
        ensures
            paid == (old(self).coins >= amount),
            final(self).coins == if old(self).coins >= amount {
                (old(self).coins - amount) as u8
            } else {
                old(self).coins
            },
            final(self).health == old(self).health,
            final(self).souls == old(self).souls,
            final(self).max_health == old(self).max_health,
    {
        if self.coins >= amount {
            self.coins = self.coins - amount;
            true
        } else {
            false
        }
    }

    /// Souls rise by `amount`; reports whether the victory threshold is
    /// reached.
    pub fn gain_souls(&mut self, amount: u8) -> (won: bool)
        requires
            old(self).souls + amount <= u8::MAX,
        ensures
            final(self).souls == old(self).souls + amount,
            won == (final(self).souls >= VICTORY_SOULS),
            final(self).health == old(self).health,
            final(self).coins == old(self).coins,
            final(self).max_health == old(self).max_health,
    {
        self.souls = self.souls + amount;
        self.souls >= VICTORY_SOULS
    }

    pub fn is_alive(&self) -> (r: bool)
        ensures
            r == (self.health > 0),
    {
        self.health > 0
    }

    pub fn total_souls(&self) -> (r: u8)
        ensures
            r == self.souls,
    {
        self.souls
    }

    pub fn can_afford(&self, cost: u8) -> (r: bool)
        ensures
            r == (self.coins >= cost),
    {
        self.coins >= cost
    }
}

} // verus!
