//! The small integer-coded enums of the game's wire protocol.
//!
//! Leagues, characters and account types travel as small integers with fixed
//! numeric values; the mappings here are total on the enum side and checked on
//! the integer side, so an unknown number fails to parse instead of being
//! silently mapped.

use vstd::prelude::*;

verus! {

/// The three skill tiers of the leaderboard. On the wire: 0, 1, 2.
#[derive(Clone, Copy, Debug, PartialEq, Eq, Structural)]
pub enum League {
    Casual,
    Pro,
    Elite,
}

impl League {
    /// The fixed wire number of the league.
    pub open spec fn spec_num(self) -> int {
        match self {
            League::Casual => 0,
            League::Pro => 1,
            League::Elite => 2,
        }
    }

    /// Encodes the league as its wire number.
    pub fn to_i16(self) -> (n: i16)
        ensures
            n as int == self.spec_num(),
    {
        match self {
            League::Casual => 0,
            League::Pro => 1,
            League::Elite => 2,
        }
    }

    /// Decodes a wire number; an unknown number is rejected.
    pub fn from_i16(n: i16) -> (r: Option<League>)
        ensures
            match r {
                Some(l) => l.spec_num() == n as int,
                None => !(0 <= n <= 2),
            },
    {
        match n {
            0 => Some(League::Casual),
            1 => Some(League::Pro),
            2 => Some(League::Elite),
            _ => None,
        }
    }
}

/// A playable character/vehicle. On the wire: the numbers below; 5 through 8
/// are unused by the game and rejected.
#[derive(Clone, Copy, Debug, PartialEq, Eq, Structural)]
pub enum Character {
    PointmanPro,
    DoubleVisionPro,
    Vegas,
    Pusher,
    Eraser,
    DoubleVision,
    PointmanElite,
    MonoPro,
    EraserElite,
    NinjaMono,
    DoubleVisionElite,
    Pointman,
    PusherElite,
    Mono,
}

impl Character {
    /// The fixed wire number of the character.
    pub open spec fn spec_num(self) -> int {
        match self {
            Character::PointmanPro => 0,
            Character::DoubleVisionPro => 1,
            Character::Vegas => 2,
            Character::Pusher => 3,
            Character::Eraser => 4,
            Character::DoubleVision => 9,
            Character::PointmanElite => 10,
            Character::MonoPro => 11,
            Character::EraserElite => 12,
            Character::NinjaMono => 13,
            Character::DoubleVisionElite => 14,
            Character::Pointman => 15,
            Character::PusherElite => 16,
            Character::Mono => 17,
        }
    }

    /// Encodes the character as its wire number.
    pub fn to_i16(self) -> (n: i16)
        ensures
            n as int == self.spec_num(),
    {
        match self {
            Character::PointmanPro => 0,
            Character::DoubleVisionPro => 1,
            Character::Vegas => 2,
            Character::Pusher => 3,
            Character::Eraser => 4,
            Character::DoubleVision => 9,
            Character::PointmanElite => 10,
            Character::MonoPro => 11,
            Character::EraserElite => 12,
            Character::NinjaMono => 13,
            Character::DoubleVisionElite => 14,
            Character::Pointman => 15,
            Character::PusherElite => 16,
            Character::Mono => 17,
        }
    }

    /// Decodes a wire number; unused and unknown numbers are rejected.
    pub fn from_i16(n: i16) -> (r: Option<Character>)
        ensures
            match r {
                Some(c) => c.spec_num() == n as int,
                None => forall|c: Character| c.spec_num() != n as int,
            },
    {
        let r = match n {
            0 => Some(Character::PointmanPro),
            1 => Some(Character::DoubleVisionPro),
            2 => Some(Character::Vegas),
            3 => Some(Character::Pusher),
            4 => Some(Character::Eraser),
            9 => Some(Character::DoubleVision),
            10 => Some(Character::PointmanElite),
            11 => Some(Character::MonoPro),
            12 => Some(Character::EraserElite),
            13 => Some(Character::NinjaMono),
            14 => Some(Character::DoubleVisionElite),
            15 => Some(Character::Pointman),
            16 => Some(Character::PusherElite),
            17 => Some(Character::Mono),
            _ => None,
        };
        proof {
            if r is None {
                assert forall|c: Character| c.spec_num() != n as int by {
                    match c {
                        Character::PointmanPro => {},
                        Character::DoubleVisionPro => {},
                        Character::Vegas => {},
                        Character::Pusher => {},
                        Character::Eraser => {},
                        Character::DoubleVision => {},
                        Character::PointmanElite => {},
                        Character::MonoPro => {},
                        Character::EraserElite => {},
                        Character::NinjaMono => {},
                        Character::DoubleVisionElite => {},
                        Character::Pointman => {},
                        Character::PusherElite => {},
                        Character::Mono => {},
                    }
                }
            }
        }
        r
    }
}

/// The three in-game leaderboard slices. On the wire: Friend=0, Global=1,
/// Nearby=2.
#[derive(Clone, Copy, Debug, PartialEq, Eq, Structural)]
pub enum Leaderboard {
    Friend,
    Global,
    Nearby,
}

impl Leaderboard {
    /// The fixed wire number of the leaderboard slice.
    pub open spec fn spec_num(self) -> int {
        match self {
            Leaderboard::Friend => 0,
            Leaderboard::Global => 1,
            Leaderboard::Nearby => 2,
        }
    }

    /// Encodes the slice as its wire number.
    pub fn to_u8(self) -> (n: u8)
        ensures
            n as int == self.spec_num(),
    {
        match self {
            Leaderboard::Friend => 0,
            Leaderboard::Global => 1,
            Leaderboard::Nearby => 2,
        }
    }
}

/// The rank of a player's account. Stored as 0, 1, 2.
#[derive(Clone, Copy, Debug, PartialEq, Eq, Structural)]
pub enum AccountType {
    User,
    Moderator,
    Team,
}

impl AccountType {
    /// The fixed stored number of the account type.
    pub open spec fn spec_num(self) -> int {
        match self {
            AccountType::User => 0,
            AccountType::Moderator => 1,
            AccountType::Team => 2,
        }
    }

    /// Encodes the account type as its stored number.
    pub fn to_i16(self) -> (n: i16)
        ensures
            n as int == self.spec_num(),
    {
        match self {
            AccountType::User => 0,
            AccountType::Moderator => 1,
            AccountType::Team => 2,
        }
    }

    /// Decodes a stored number; an unknown number is rejected.
    pub fn from_i16(n: i16) -> (r: Option<AccountType>)
        ensures
            match r {
                Some(t) => t.spec_num() == n as int,
                None => !(0 <= n <= 2),
            },
    {
        match n {
            0 => Some(AccountType::User),
            1 => Some(AccountType::Moderator),
            2 => Some(AccountType::Team),
            _ => None,
        }
    }

    /// Moderators and team members hold staff powers: deleting foreign
    /// shouts and scores, editing song metadata.
    pub fn is_staff(self) -> (r: bool)
        ensures
            r == (self == AccountType::Moderator || self == AccountType::Team),
    {
        match self {
            AccountType::User => false,
            AccountType::Moderator => true,
            AccountType::Team => true,
        }
    }
}

/// Sort direction for the search endpoints.
#[derive(Clone, Copy, Debug, PartialEq, Eq, Structural)]
pub enum SortType {
    Asc,
    Desc,
}

} // verus!
