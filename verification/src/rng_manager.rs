//! The chance configuration deciding whether the bot reacts to a matched
//! phrase, and whether it adds its affection line; rolls come from a
//! seedable random number generator.

use rand::RngCore;
use rand_chacha::ChaCha20Rng;
use vstd::prelude::*;

verus! {

/// How often a reaction is enabled: never, every time, or one time in a
/// given number on average.
#[derive(Debug, Clone, Copy, PartialEq, Eq, Structural)]
pub enum EnabledChance {
    Off,
    Always,
    In(i64),
}

/// Declares rand_chacha's ChaCha20Rng generator type so that it can sit
/// in a field; its values stay opaque.
#[verifier::external_type_specification]
#[verifier::external_body]
pub struct ExChaCha20Rng(ChaCha20Rng);

/// Relies on rand_core::RngCore::next_u64 for rand_chacha's ChaCha20Rng:
/// draws the next value of the stream; nothing is assumed of the value.
#[verifier::external_body]
fn next_u64_from(rng: &mut ChaCha20Rng) -> u64 {
    rng.next_u64()
}

/// A chance the roll arithmetic can take: a one-in-`n` chance never
/// carries zero (division by zero); the constructor establishes this.
pub open spec fn chance_wf(c: EnabledChance) -> bool {
    c matches EnabledChance::In(n) ==> n != 0
}

/// The mapping of a configured dadded chance: absent or not above one
/// means the bot always reacts.
pub open spec fn dadded_chance_of(c: Option<i64>) -> EnabledChance {
    match c {
        None => EnabledChance::Always,
        Some(n) => if n > 1 {
            EnabledChance::In(n)
        } else {
            EnabledChance::Always
        },
    }
}

/// The mapping of a configured affection chance: absent or zero disables
/// it, one makes it certain.
pub open spec fn love_me_chance_of(c: Option<i64>) -> EnabledChance {
    match c {
        None => EnabledChance::Off,
        Some(n) => if n == 0 {
            EnabledChance::Off
        } else if n == 1 {
            EnabledChance::Always
        } else {
            EnabledChance::In(n)
        },
    }
}

/// Decides a one-in-`chance` roll: it hits exactly when the roll is a
/// multiple of the chance, taken as an unsigned value.
pub fn n_in_chance_hit(roll: u64, chance: i64) -> (r: bool)
    requires
        chance != 0,
    ensures
        r == (roll % (chance as u64) == 0),
{
    assert(chance as u64 != 0) by (bit_vector)
        requires
            chance != 0,
    ;
    let c = chance as u64;
    (roll % c) == 0
}

/// Holds both chance configurations and the generator the rolls are drawn
/// from.
pub struct RngManager {
    pub dadded_chance: EnabledChance,
    pub love_me_chance: EnabledChance,
    pub rng: ChaCha20Rng,
}

impl RngManager {
    /// Maps the configured chances into their well-formed forms and takes
    /// ownership of the generator.
    pub fn new(dadded_chance: Option<i64>, love_me_chance: Option<i64>, rng: ChaCha20Rng) -> (r:
        RngManager)
        ensures
            r.dadded_chance == dadded_chance_of(dadded_chance),
            r.love_me_chance == love_me_chance_of(love_me_chance),
            chance_wf(r.dadded_chance),
            chance_wf(r.love_me_chance),
    {
        let dadded_chance = match dadded_chance {
            None => EnabledChance::Always,
            Some(c) => if c > 1 {
                EnabledChance::In(c)
            } else {
                EnabledChance::Always
            },
        };
        let love_me_chance = match love_me_chance {
            None => EnabledChance::Off,
            Some(c) => if c == 0 {
                EnabledChance::Off
            } else if c == 1 {
                EnabledChance::Always
            } else {
                EnabledChance::In(c)
            },
        };
        RngManager { dadded_chance, love_me_chance, rng }
    }

    /// Whether the bot reacts to this matched phrase: certain unless a
    /// one-in-`n` chance is configured, in which case a fresh roll
    /// decides.
    pub fn should_dad(&mut self) -> (r: bool)
        requires
            chance_wf(old(self).dadded_chance),
        ensures
            final(self).dadded_chance == old(self).dadded_chance,
            final(self).love_me_chance == old(self).love_me_chance,
            !(old(self).dadded_chance is In) ==> r == true,
    {
        let chance = self.dadded_chance;
        match chance {
            EnabledChance::In(c) => self.get_n_in_chance(c),
            _ => true,
        }
    }

    /// Whether the reaction also carries the affection line: never when
    /// disabled, always when certain, else a fresh roll decides.
    pub fn should_love_you(&mut self) -> (r: bool)
        requires
            chance_wf(old(self).love_me_chance),
        ensures
            final(self).dadded_chance == old(self).dadded_chance,
            final(self).love_me_chance == old(self).love_me_chance,
            old(self).love_me_chance is Off ==> r == false,
            old(self).love_me_chance is Always ==> r == true,
    {
        let chance = self.love_me_chance;
        match chance {
            EnabledChance::Off => false,
            EnabledChance::Always => true,
            EnabledChance::In(c) => self.get_n_in_chance(c),
        }
    }

    /// Draws a roll and decides a one-in-`chance` hit with it.
    fn get_n_in_chance(&mut self, chance: i64) -> (r: bool)
        requires
            chance != 0,
        ensures
            final(self).dadded_chance == old(self).dadded_chance,
            final(self).love_me_chance == old(self).love_me_chance,
    {
        let roll = next_u64_from(&mut self.rng);
        n_in_chance_hit(roll, chance)
    }
}

} // verus!
