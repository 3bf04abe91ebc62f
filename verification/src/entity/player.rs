//! A player and their experience.

use vstd::prelude::*;
use vstd::string::StringExecFns;

verus! {

/// The public identity of a player.
#[derive(Debug)]
pub struct GameProfile {
    /// Display name; commands address the player by it, case-sensitively.
    pub name: String,
}

/// A player, as far as commands read or change them.
#[derive(Debug)]
pub struct Player {
    pub gameprofile: GameProfile,
    pub experience: i32,
}

impl Player {
    /// A player called `name` who holds `experience` points.
    pub fn new(name: &str, experience: i32) -> (player: Player)
        ensures
            player.gameprofile.name@ == name@,
            player.experience == experience,
    {
        Player { gameprofile: GameProfile { name: String::from_str(name) }, experience }
    }

    /// The experience points the player holds.
    pub fn get_experience(&self) -> (points: i32)
        ensures
            points == self.experience,
    {
        self.experience
    }

    /// Replaces the player's experience points.
    pub fn set_experience(&mut self, value: i32)
        ensures
            final(self).experience == value,
            final(self).gameprofile == old(self).gameprofile,
    {
        self.experience = value;
    }

    /// Adds `delta` points. The sum has to fit the counter.
    pub fn add_experience(&mut self, delta: i32)
        requires
            i32::MIN <= old(self).experience + delta <= i32::MAX,
        ensures
            final(self).experience == old(self).experience + delta,
            final(self).gameprofile == old(self).gameprofile,
    {
        self.experience = self.experience + delta;
    }
}

} // verus!
