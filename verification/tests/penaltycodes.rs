use derby_bout::penaltycodes::PenaltyType;

#[test]
fn codes_read_as_stated() {
    assert_eq!(PenaltyType::from_char('A'), PenaltyType::HighBlock);
    assert_eq!(PenaltyType::from_char('B'), PenaltyType::BackBlock);
    assert_eq!(PenaltyType::from_char('C'), PenaltyType::Directional);
    assert_eq!(PenaltyType::from_char('E'), PenaltyType::Elbows);
    assert_eq!(PenaltyType::from_char('F'), PenaltyType::Forearms);
    assert_eq!(PenaltyType::from_char('G'), PenaltyType::Misconduct);
    assert_eq!(PenaltyType::from_char('H'), PenaltyType::BlockWithHead);
    assert_eq!(PenaltyType::from_char('I'), PenaltyType::IllegalProcedure);
    assert_eq!(PenaltyType::from_char('L'), PenaltyType::LowBlock);
    assert_eq!(PenaltyType::from_char('M'), PenaltyType::MultiPlayer);
    assert_eq!(PenaltyType::from_char('N'), PenaltyType::Insubordination);
    assert_eq!(PenaltyType::from_char('O'), PenaltyType::OutOfBounds);
    assert_eq!(PenaltyType::from_char('P'), PenaltyType::OutOfPlay);
    assert_eq!(PenaltyType::from_char('S'), PenaltyType::SkatingOutOfBounds);
    assert_eq!(PenaltyType::from_char('X'), PenaltyType::CutTrack);
    assert_eq!(PenaltyType::from_char('Z'), PenaltyType::DelayOfGame);
}

#[test]
fn other_characters_read_as_unknown() {
    assert_eq!(PenaltyType::from_char('U'), PenaltyType::Unknown);
    assert_eq!(PenaltyType::from_char('b'), PenaltyType::Unknown);
    assert_eq!(PenaltyType::from_char('?'), PenaltyType::Unknown);
}

#[test]
fn codes_are_written_as_stated() {
    assert_eq!(PenaltyType::BackBlock.as_char(), 'B');
    assert_eq!(PenaltyType::LowBlock.as_char(), 'L');
    assert_eq!(PenaltyType::HighBlock.as_char(), 'A');
    assert_eq!(PenaltyType::Forearms.as_char(), 'F');
    assert_eq!(PenaltyType::Elbows.as_char(), 'E');
    assert_eq!(PenaltyType::BlockWithHead.as_char(), 'H');
    assert_eq!(PenaltyType::MultiPlayer.as_char(), 'M');
    assert_eq!(PenaltyType::Directional.as_char(), 'C');
    assert_eq!(PenaltyType::CutTrack.as_char(), 'X');
    assert_eq!(PenaltyType::IllegalProcedure.as_char(), 'I');
    assert_eq!(PenaltyType::OutOfPlay.as_char(), 'P');
    assert_eq!(PenaltyType::OutOfBounds.as_char(), 'B');
    assert_eq!(PenaltyType::SkatingOutOfBounds.as_char(), 'S');
    assert_eq!(PenaltyType::Insubordination.as_char(), 'N');
    assert_eq!(PenaltyType::Misconduct.as_char(), 'G');
    assert_eq!(PenaltyType::DelayOfGame.as_char(), 'Z');
    assert_eq!(PenaltyType::Unknown.as_char(), 'U');
}

#[test]
fn codes_read_back_but_for_out_of_bounds() {
    let all = [
        PenaltyType::BackBlock,
        PenaltyType::LowBlock,
        PenaltyType::HighBlock,
        PenaltyType::Forearms,
        PenaltyType::Elbows,
        PenaltyType::BlockWithHead,
        PenaltyType::MultiPlayer,
        PenaltyType::Directional,
        PenaltyType::CutTrack,
        PenaltyType::IllegalProcedure,
        PenaltyType::OutOfPlay,
        PenaltyType::SkatingOutOfBounds,
        PenaltyType::Insubordination,
        PenaltyType::Misconduct,
        PenaltyType::DelayOfGame,
        PenaltyType::Unknown,
    ];
    for penalty in all {
        assert_eq!(PenaltyType::from_char(penalty.as_char()), penalty);
    }
    assert_eq!(
        PenaltyType::from_char(PenaltyType::OutOfBounds.as_char()),
        PenaltyType::BackBlock
    );
}
