//! The penalty codes: a flat vocabulary, each written as one character.

use vstd::prelude::*;

verus! {

/// A kind of penalty.
#[derive(Clone, Copy, PartialEq, Eq, Structural, Debug)]
pub enum PenaltyType {
    BackBlock,
    LowBlock,
    HighBlock,
    Forearms,
    Elbows,
    BlockWithHead,
    MultiPlayer,
    Directional,
    CutTrack,
    IllegalProcedure,
    OutOfPlay,
    OutOfBounds,
    SkatingOutOfBounds,
    Insubordination,
    Misconduct,
    DelayOfGame,
    Unknown,
}

impl PenaltyType {
    /// The penalty that a character stands for; `Unknown` for a character
    /// that stands for none.
    pub open spec fn spec_from_char(code: char) -> PenaltyType {
        match code {
            'A' => PenaltyType::HighBlock,
            'B' => PenaltyType::BackBlock,
            'C' => PenaltyType::Directional,
            'E' => PenaltyType::Elbows,
            'F' => PenaltyType::Forearms,
            'G' => PenaltyType::Misconduct,
            'H' => PenaltyType::BlockWithHead,
            'I' => PenaltyType::IllegalProcedure,
            'L' => PenaltyType::LowBlock,
            'M' => PenaltyType::MultiPlayer,
            'N' => PenaltyType::Insubordination,
            'O' => PenaltyType::OutOfBounds,
            'P' => PenaltyType::OutOfPlay,
            'S' => PenaltyType::SkatingOutOfBounds,
            'X' => PenaltyType::CutTrack,
            'Z' => PenaltyType::DelayOfGame,
            _ => PenaltyType::Unknown,
        }
    }

    /// The character a penalty is written as. `OutOfBounds` is written as
    /// `BackBlock` is, with a `B`.
    pub open spec fn spec_as_char(self) -> char {
        match self {
            PenaltyType::BackBlock => 'B',
            PenaltyType::LowBlock => 'L',
            PenaltyType::HighBlock => 'A',
            PenaltyType::Forearms => 'F',
            PenaltyType::Elbows => 'E',
            PenaltyType::BlockWithHead => 'H',
            PenaltyType::MultiPlayer => 'M',
            PenaltyType::Directional => 'C',
            PenaltyType::CutTrack => 'X',
            PenaltyType::IllegalProcedure => 'I',
            PenaltyType::OutOfPlay => 'P',
            PenaltyType::OutOfBounds => 'B',
            PenaltyType::SkatingOutOfBounds => 'S',
            PenaltyType::Insubordination => 'N',
            PenaltyType::Misconduct => 'G',
            PenaltyType::DelayOfGame => 'Z',
            PenaltyType::Unknown => 'U',
        }
    }

    #[verifier::when_used_as_spec(spec_from_char)]
    pub fn from_char(code: char) -> (penalty: PenaltyType)
        ensures
            penalty == PenaltyType::spec_from_char(code),
    {
        match code {
            'A' => PenaltyType::HighBlock,
            'B' => PenaltyType::BackBlock,
            'C' => PenaltyType::Directional,
            'E' => PenaltyType::Elbows,
            'F' => PenaltyType::Forearms,
            'G' => PenaltyType::Misconduct,
            'H' => PenaltyType::BlockWithHead,
            'I' => PenaltyType::IllegalProcedure,
            'L' => PenaltyType::LowBlock,
            'M' => PenaltyType::MultiPlayer,
            'N' => PenaltyType::Insubordination,
            'O' => PenaltyType::OutOfBounds,
            'P' => PenaltyType::OutOfPlay,
            'S' => PenaltyType::SkatingOutOfBounds,
            'X' => PenaltyType::CutTrack,
            'Z' => PenaltyType::DelayOfGame,
            _ => PenaltyType::Unknown,
        }
    }

    #[verifier::when_used_as_spec(spec_as_char)]
    pub fn as_char(self) -> (code: char)
        ensures
            code == self.spec_as_char(),
    {
        match self {
            PenaltyType::BackBlock => 'B',
            PenaltyType::LowBlock => 'L',
            PenaltyType::HighBlock => 'A',
            PenaltyType::Forearms => 'F',
            PenaltyType::Elbows => 'E',
            PenaltyType::BlockWithHead => 'H',
            PenaltyType::MultiPlayer => 'M',
            PenaltyType::Directional => 'C',
            PenaltyType::CutTrack => 'X',
            PenaltyType::IllegalProcedure => 'I',
            PenaltyType::OutOfPlay => 'P',
            PenaltyType::OutOfBounds => 'B',
            PenaltyType::SkatingOutOfBounds => 'S',
            PenaltyType::Insubordination => 'N',
            PenaltyType::Misconduct => 'G',
            PenaltyType::DelayOfGame => 'Z',
            PenaltyType::Unknown => 'U',
        }
    }
}

/// Writing a penalty as its character and reading the character again gives
/// the same penalty, for every penalty but `OutOfBounds`, which reads back as
/// `BackBlock`.
pub proof fn lemma_code_reads_back(penalty: PenaltyType)
    ensures
        penalty != PenaltyType::OutOfBounds ==> PenaltyType::spec_from_char(
            penalty.spec_as_char(),
        ) == penalty,
        PenaltyType::spec_from_char(PenaltyType::OutOfBounds.spec_as_char())
            == PenaltyType::BackBlock,
{
}

} // verus!
