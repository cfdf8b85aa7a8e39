//! What a player asks of their tank.

use vstd::prelude::*;

verus! {

/// A turn to one side.
#[derive(Clone, Copy, Debug, PartialEq, Eq, Structural)]
pub enum Turn {
    Left,
    Right,
}

/// A drive along the tank's facing.
#[derive(Clone, Copy, Debug, PartialEq, Eq, Structural)]
pub enum Drive {
    Forward,
    Reverse,
}

/// One player's intents, stamped with the sequence number under which the
/// client sent them.
#[derive(Clone, Copy, Debug, PartialEq, Eq, Structural)]
pub struct Input {
    pub drive: Option<Drive>,
    pub rotate: Option<Turn>,
    pub turret: Option<Turn>,
    pub fire: bool,
    pub seq: usize,
}

/// The one of two opposed intents that is asked for: the first where only
/// the first key is down, the second where only the second is, neither where
/// both or none are.
pub open spec fn chosen<T>(first_down: bool, second_down: bool, first: T, second: T) -> Option<T> {
    if first_down && !second_down {
        Some(first)
    } else if second_down && !first_down {
        Some(second)
    } else {
        None
    }
}

/// The keys that steer a tank, each down or not.
#[derive(Clone, Copy, Debug, PartialEq, Eq, Structural)]
pub struct Keys {
    pub forward: bool,
    pub reverse: bool,
    pub left: bool,
    pub right: bool,
    pub turret_left: bool,
    pub turret_right: bool,
    pub fire: bool,
}

impl Input {
    /// The input that `keys` asks for, with sequence number zero.
    pub open spec fn of_keys(keys: Keys) -> Input {
        Input {
            drive: chosen(keys.forward, keys.reverse, Drive::Forward, Drive::Reverse),
            rotate: chosen(keys.left, keys.right, Turn::Left, Turn::Right),
            turret: chosen(keys.turret_left, keys.turret_right, Turn::Left, Turn::Right),
            fire: keys.fire,
            seq: 0,
        }
    }

    /// The input that `keys` asks for, with sequence number zero.
    pub fn from_keys(keys: &Keys) -> (input: Input)
        ensures
            input == Input::of_keys(*keys),
    {
        let drive = match (keys.forward, keys.reverse) {
            (true, false) => Some(Drive::Forward),
            (false, true) => Some(Drive::Reverse),
            _ => None,
        };
        let rotate = match (keys.left, keys.right) {
            (true, false) => Some(Turn::Left),
            (false, true) => Some(Turn::Right),
            _ => None,
        };
        let turret = match (keys.turret_left, keys.turret_right) {
            (true, false) => Some(Turn::Left),
            (false, true) => Some(Turn::Right),
            _ => None,
        };
        Input { drive, rotate, turret, fire: keys.fire, seq: 0 }
    }

    /// The input that asks for nothing, with sequence number zero.
    pub open spec fn idle() -> Input {
        Input { drive: None, rotate: None, turret: None, fire: false, seq: 0 }
    }

    /// This input under sequence number `seq`.
    pub fn with_seq(&self, seq: usize) -> (out: Input)
        ensures
            out == (Input { seq, ..*self }),
    {
        Input { drive: self.drive, rotate: self.rotate, turret: self.turret, fire: self.fire, seq }
    }
}

impl Default for Input {
    fn default() -> (out: Input)
        ensures
            out == Input::idle(),
    {
        Input { drive: None, rotate: None, turret: None, fire: false, seq: 0 }
    }
}

} // verus!
