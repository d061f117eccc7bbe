//! Move data: failure taxonomy, move requests and records, and the
//! two-character coordinate notation consumed by text front ends.

use vstd::prelude::*;

use crate::pieces::Type;
use crate::square::{Color, Square};

verus! {

/// Why a mutating game or board operation was refused.
#[derive(Eq, PartialEq, Copy, Clone, Debug, Structural)]
pub enum MoveFailureReason {
    NoPiece,
    MoveInvalid,
    CannotCaptureOwnPiece,
    NotYourPiece,
    IllegalPieceMove,
    InCheckAfterTurn,
    NoPreviousPositions,
    GameEnded,
}

/// The optional tag accompanying a move: a promotion choice, the relaxed
/// reachability probe used for attack detection, or nothing.
#[derive(Eq, PartialEq, Copy, Clone, Debug, Structural)]
pub enum Extra {
    Promotion(Type),
    MoveCheck,
    Nothing,
}

/// A move request: origin, destination and its optional tag.
#[derive(Eq, PartialEq, Copy, Clone, Debug, Structural)]
pub struct NewMove {
    pub from: Square,
    pub to: Square,
    pub extra: Extra,
}

/// Why a square or move written in coordinate notation was refused.
#[derive(Eq, PartialEq, Copy, Clone, Debug, Structural)]
pub enum MoveParsingError {
    IncorrectMoveFormat,
    IncorrectSquareFormat,
    InvalidSquare,
}

/// The structured record of an applied move.
#[derive(Eq, PartialEq, Copy, Clone, Debug, Structural)]
pub struct HistoryMove {
    pub piece_color: Color,
    pub piece_type: Type,
    pub from: Square,
    pub to: Square,
    pub capture: bool,
    pub extra: Extra,
}

/// ASCII lower-case letters folded to upper case; all else unchanged.
pub open spec fn upper(b: u8) -> u8 {
    if 97 <= b <= 122 {
        (b - 32) as u8
    } else {
        b
    }
}

/// The square written as a file letter A-H (either case) followed by a
/// rank digit 1-8.
pub open spec fn spec_square_of_bytes(b0: u8, b1: u8) -> Result<Square, MoveParsingError> {
    let f = upper(b0);
    if f < 65 || f > 72 || b1 < 49 || b1 > 56 {
        Err(MoveParsingError::InvalidSquare)
    } else {
        Ok(Square { file_number: (f - 64) as u8, rank_number: (b1 - 48) as u8 })
    }
}

/// Square notation: exactly two bytes, a file letter then a rank digit.
pub open spec fn spec_parse_square(s: Seq<u8>) -> Result<Square, MoveParsingError> {
    if s.len() != 2 {
        Err(MoveParsingError::IncorrectSquareFormat)
    } else {
        spec_square_of_bytes(s[0], s[1])
    }
}

/// Move notation: exactly four bytes, origin square then destination.
pub open spec fn spec_parse_move(s: Seq<u8>) -> Result<NewMove, MoveParsingError> {
    if s.len() != 4 {
        Err(MoveParsingError::IncorrectMoveFormat)
    } else {
        match (spec_square_of_bytes(s[0], s[1]), spec_square_of_bytes(s[2], s[3])) {
            (Ok(from), Ok(to)) => Ok(NewMove { from, to, extra: Extra::Nothing }),
            (Err(e), _) => Err(e),
            (_, Err(e)) => Err(e),
        }
    }
}

impl Square {
    /// One square from a file byte and a rank byte.
    pub fn from_bytes(file_char: u8, rank_char: u8) -> (r: Result<Square, MoveParsingError>)
        ensures
            r == spec_square_of_bytes(file_char, rank_char),
            r matches Ok(sq) ==> sq.valid(),
    {
        let f = if 97 <= file_char && file_char <= 122 {
            file_char - 32
        } else {
            file_char
        };

        if f < 65 || f > 72 || rank_char < 49 || rank_char > 56 {
            return Err(MoveParsingError::InvalidSquare);
        }

        Ok(Square { file_number: f - 64, rank_number: rank_char - 48 })
    }

    /// A square from its two-character coordinate notation.
    pub fn parse(s: &[u8]) -> (r: Result<Square, MoveParsingError>)
        ensures
            r == spec_parse_square(s@),
            r matches Ok(sq) ==> sq.valid(),
    {
        if s.len() != 2 {
            return Err(MoveParsingError::IncorrectSquareFormat);
        }

        Square::from_bytes(s[0], s[1])
    }
}

impl NewMove {
    /// A move from its four-character coordinate notation, origin then
    /// destination; no promotion tag is carried by this notation.
    pub fn parse(s: &[u8]) -> (r: Result<NewMove, MoveParsingError>)
        ensures
            r == spec_parse_move(s@),
            r matches Ok(m) ==> m.from.valid() && m.to.valid() && m.extra == Extra::Nothing,
    {
        if s.len() != 4 {
            return Err(MoveParsingError::IncorrectMoveFormat);
        }

        let from = match Square::from_bytes(s[0], s[1]) {
            Ok(sq) => sq,
            Err(e) => {
                return Err(e);
            },
        };
        let to = match Square::from_bytes(s[2], s[3]) {
            Ok(sq) => sq,
            Err(e) => {
                return Err(e);
            },
        };

        Ok(NewMove { from, to, extra: Extra::Nothing })
    }
}

} // verus!
