//! Sides and pieces.

use vstd::prelude::*;

verus! {

/// One of the two factions of a game.
#[derive(Clone, Copy, Debug, PartialEq, Eq, Hash, Structural)]
pub enum Side {
    Attacker,
    Defender,
}

impl Side {
    /// The opposing side.
    pub open spec fn spec_other(self) -> Side {
        match self {
            Side::Attacker => Side::Defender,
            Side::Defender => Side::Attacker,
        }
    }

    /// The opposing side.
    #[verifier::when_used_as_spec(spec_other)]
    pub fn other(self) -> (r: Side)
        ensures
            r == self.spec_other(),
    {
        match self {
            Side::Attacker => Side::Defender,
            Side::Defender => Side::Attacker,
        }
    }

    /// The number by which the engine tells the sides apart: 0 for the
    /// attacker, 8 for the defender.
    pub open spec fn spec_code(self) -> u8 {
        match self {
            Side::Attacker => 0,
            Side::Defender => 8,
        }
    }

    /// The number by which the engine tells the sides apart.
    #[verifier::when_used_as_spec(spec_code)]
    pub fn code(self) -> (r: u8)
        ensures
            r == self.spec_code(),
    {
        match self {
            Side::Attacker => 0,
            Side::Defender => 8,
        }
    }

    /// The side that a number of the engine stands for, if any.
    pub open spec fn spec_from_code(code: u8) -> Option<Side> {
        if code == 0 {
            Some(Side::Attacker)
        } else if code == 8 {
            Some(Side::Defender)
        } else {
            None
        }
    }

    /// The side that a number of the engine stands for, if any.
    #[verifier::when_used_as_spec(spec_from_code)]
    pub fn from_code(code: u8) -> (r: Option<Side>)
        ensures
            r == Side::spec_from_code(code),
    {
        if code == 0 {
            Some(Side::Attacker)
        } else if code == 8 {
            Some(Side::Defender)
        } else {
            None
        }
    }
}

/// The kinds of piece that the engine knows.
#[derive(Clone, Copy, Debug, PartialEq, Eq, Hash, Structural)]
pub enum PieceType {
    King,
    Soldier,
    Knight,
    Commander,
    Guard,
    Mercenary,
}

impl PieceType {
    /// The engine's number for a kind of piece: one bit each, the king's the lowest.
    pub open spec fn spec_code(self) -> u8 {
        match self {
            PieceType::King => 1,
            PieceType::Soldier => 2,
            PieceType::Knight => 4,
            PieceType::Commander => 8,
            PieceType::Guard => 16,
            PieceType::Mercenary => 32,
        }
    }

    /// The engine's number for a kind of piece.
    #[verifier::when_used_as_spec(spec_code)]
    pub fn code(self) -> (r: u8)
        ensures
            r == self.spec_code(),
    {
        match self {
            PieceType::King => 1,
            PieceType::Soldier => 2,
            PieceType::Knight => 4,
            PieceType::Commander => 8,
            PieceType::Guard => 16,
            PieceType::Mercenary => 32,
        }
    }

    /// The kind of piece that a number of the engine stands for, if any.
    pub open spec fn spec_from_code(code: u8) -> Option<PieceType> {
        if code == 1 {
            Some(PieceType::King)
        } else if code == 2 {
            Some(PieceType::Soldier)
        } else if code == 4 {
            Some(PieceType::Knight)
        } else if code == 8 {
            Some(PieceType::Commander)
        } else if code == 16 {
            Some(PieceType::Guard)
        } else if code == 32 {
            Some(PieceType::Mercenary)
        } else {
            None
        }
    }

    /// The kind of piece that a number of the engine stands for, if any.
    #[verifier::when_used_as_spec(spec_from_code)]
    pub fn from_code(code: u8) -> (r: Option<PieceType>)
        ensures
            r == PieceType::spec_from_code(code),
    {
        if code == 1 {
            Some(PieceType::King)
        } else if code == 2 {
            Some(PieceType::Soldier)
        } else if code == 4 {
            Some(PieceType::Knight)
        } else if code == 8 {
            Some(PieceType::Commander)
        } else if code == 16 {
            Some(PieceType::Guard)
        } else if code == 32 {
            Some(PieceType::Mercenary)
        } else {
            None
        }
    }
}

/// A piece of one side.
#[derive(Clone, Copy, Debug, PartialEq, Eq, Hash, Structural)]
pub struct Piece {
    pub piece_type: PieceType,
    pub side: Side,
}

impl Piece {
    /// The piece that a pair of the engine's numbers stands for, if both are known.
    pub open spec fn spec_from_codes(piece_type: u8, side: u8) -> Option<Piece> {
        match (PieceType::spec_from_code(piece_type), Side::spec_from_code(side)) {
            (Some(t), Some(s)) => Some(Piece { piece_type: t, side: s }),
            _ => None,
        }
    }

    /// The piece that a pair of the engine's numbers stands for, if both are known.
    #[verifier::when_used_as_spec(spec_from_codes)]
    pub fn from_codes(piece_type: u8, side: u8) -> (r: Option<Piece>)
        ensures
            r == Piece::spec_from_codes(piece_type, side),
    {
        match (PieceType::from_code(piece_type), Side::from_code(side)) {
            (Some(t), Some(s)) => Some(Piece { piece_type: t, side: s }),
            _ => None,
        }
    }
}

/// Reading a side's number back gives the side.
pub proof fn side_code_round_trip(side: Side)
    ensures
        Side::spec_from_code(side.spec_code()) == Some(side),
{
}

/// Reading a kind's number back gives the kind.
pub proof fn piece_type_code_round_trip(piece_type: PieceType)
    ensures
        PieceType::spec_from_code(piece_type.spec_code()) == Some(piece_type),
{
}

} // verus!
