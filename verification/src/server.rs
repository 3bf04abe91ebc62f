//! The registry of online players.

use vstd::prelude::*;
use crate::entity::player::Player;
use crate::text::spells;

verus! {

/// The players that are online, in the order in which they joined. A player
/// is referred to by their position in this list.
#[derive(Debug)]
pub struct Server {
    pub players: Vec<Player>,
}

impl Server {
    /// The names of the online players, by position.
    pub open spec fn names(self) -> Seq<Seq<char>> {
        Seq::new(self.players@.len(), |i: int| self.players@[i].gameprofile.name@)
    }

    /// The experience points of the online players, by position.
    pub open spec fn experiences(self) -> Seq<i32> {
        Seq::new(self.players@.len(), |i: int| self.players@[i].experience)
    }

    /// A server with nobody online.
    pub fn new() -> (server: Server)
        ensures
            server.players@.len() == 0,
    {
        Server { players: Vec::new() }
    }

    /// Puts `player` at the end of the list and returns their position.
    pub fn add_player(&mut self, player: Player) -> (position: usize)
        ensures
            final(self).players@ == old(self).players@.push(player),
            position == old(self).players@.len(),
    {
        let position = self.players.len();
        self.players.push(player);
        position
    }

    /// How many players are online.
    pub fn player_count(&self) -> (count: usize)
        ensures
            count == self.players@.len(),
    {
        self.players.len()
    }

    /// The player at `position`, if there is one.
    pub fn get_player(&self, position: usize) -> (player: Option<&Player>)
        ensures
            position < self.players@.len() ==> player == Some(&self.players@[position as int]),
            position >= self.players@.len() ==> player is None,
    {
        if position < self.players.len() {
            Some(&self.players[position])
        } else {
            None
        }
    }

    /// The position of the first player called exactly `name`.
    pub fn get_player_by_name(&self, name: &Vec<char>) -> (position: Option<usize>)
        ensures
            match position {
                Some(i) => {
                    &&& i < self.names().len()
                    &&& self.names()[i as int] == name@
                    &&& forall|j: int| 0 <= j < i ==> self.names()[j] != name@
                },
                None => forall|j: int| 0 <= j < self.names().len() ==> self.names()[j] != name@,
            },
    {
        let mut i: usize = 0;
        while i < self.players.len()
            invariant
                i <= self.players@.len(),
                forall|j: int| 0 <= j < i ==> self.names()[j] != name@,
            decreases self.players@.len() - i,
        {
            if spells(name, self.players[i].gameprofile.name.as_str()) {
                return Some(i);
            }
            i += 1;
        }
        None
    }

    /// Gives the player at `position` `delta` more points. The sum has to fit
    /// the player's counter.
    pub fn add_experience_to(&mut self, position: usize, delta: i32)
        requires
            position < old(self).players@.len(),
            i32::MIN <= old(self).experiences()[position as int] + delta <= i32::MAX,
        ensures
            final(self).names() == old(self).names(),
            final(self).experiences() == old(self).experiences().update(
                position as int,
                (old(self).experiences()[position as int] + delta) as i32,
            ),
    {
        self.players[position].add_experience(delta);
    }

    /// The experience points of all players, by position.
    pub fn experience_list(&self) -> (list: Vec<i32>)
        ensures
            list@ == self.experiences(),
    {
        let mut list: Vec<i32> = Vec::new();
        let mut i: usize = 0;
        while i < self.players.len()
            invariant
                i <= self.players@.len(),
                list@ == self.experiences().take(i as int),
            decreases self.players@.len() - i,
        {
            list.push(self.players[i].get_experience());
            i += 1;
        }
        list
    }

    /// Replaces the experience of the player at `position`.
    pub fn set_experience_of(&mut self, position: usize, value: i32)
        requires
            position < old(self).players@.len(),
        ensures
            final(self).names() == old(self).names(),
            final(self).experiences() == old(self).experiences().update(position as int, value),
    {
        self.players[position].set_experience(value);
    }
}

} // verus!
