use derby_bout::roster::le_numbers;
use derby_bout::roster::RosterError;
use derby_bout::roster::Skater;
use derby_bout::roster::SkaterError;
use derby_bout::roster::Team;

fn numbers(team: &Team) -> Vec<String> {
    team.skaters.iter().map(|s| s.number.clone()).collect()
}

fn names(team: &Team) -> Vec<String> {
    team.skaters.iter().map(|s| s.name.clone()).collect()
}

#[test]
fn test_fmt() {
    let stuff = b"Toaster City\n12\tBob Rodney\n34\tFred Fredney\n";
    let res = Team::from_file(&stuff[..]);
    assert!(res.is_ok());
    let team = res.unwrap();
    assert_eq!(team.name, "Toaster City");
    assert_eq!(team.skaters[0].name, "Bob Rodney");
}

#[test]
fn roster_file_gives_every_skater() {
    let team = Team::from_file(b"Toaster City\n12\tBob Rodney\n34\tFred Fredney\n").unwrap();
    assert_eq!(numbers(&team), vec!["12", "34"]);
    assert_eq!(names(&team), vec!["Bob Rodney", "Fred Fredney"]);
    assert!(team.is_sorted());
}

#[test]
fn roster_file_is_sorted_by_number() {
    let team = Team::from_file(b"T\n9\tNine\n10\tTen\n1\tOne\n55\tFives\n007\tBond\n").unwrap();
    assert_eq!(numbers(&team), vec!["007", "1", "10", "55", "9"]);
    assert_eq!(names(&team), vec!["Bond", "One", "Ten", "Fives", "Nine"]);
    assert!(team.is_sorted());
}

#[test]
fn same_numbers_keep_their_order() {
    let team = Team::from_file(b"T\n7\tSecond\n3\tA\n7\tThird\n7\tFourth\n").unwrap();
    assert_eq!(numbers(&team), vec!["3", "7", "7", "7"]);
    assert_eq!(names(&team), vec!["A", "Second", "Third", "Fourth"]);
}

#[test]
fn roster_file_without_last_newline() {
    let team = Team::from_file(b"T\n12\tBob").unwrap();
    assert_eq!(team.name, "T");
    assert_eq!(numbers(&team), vec!["12"]);
    assert_eq!(names(&team), vec!["Bob"]);
}

#[test]
fn team_name_loses_its_last_character() {
    assert_eq!(Team::from_file(b"Toaster").unwrap().name, "Toaste");
    assert_eq!(Team::from_file(b"").unwrap().name, "");
    assert_eq!(Team::from_file(b"\n").unwrap().name, "");
    assert_eq!(Team::from_file(b"Toaster\r\n").unwrap().name, "Toaster\r");
    assert_eq!(Team::from_file("Caf\u{e9}".as_bytes()).unwrap().name, "Caf");
    assert!(Team::from_file(b"Toaster").unwrap().skaters.is_empty());
}

#[test]
fn lines_without_a_number_are_passed_over() {
    let team = Team::from_file(b"T\n\n\tNo Number\n12\tBob\n\n").unwrap();
    assert_eq!(numbers(&team), vec!["12"]);
    assert_eq!(names(&team), vec!["Bob"]);
}

#[test]
fn line_without_a_tab_is_a_number_alone() {
    let team = Team::from_file(b"T\n12\n").unwrap();
    assert_eq!(numbers(&team), vec!["12"]);
    assert_eq!(names(&team), vec![""]);
}

#[test]
fn name_keeps_further_tabs() {
    let team = Team::from_file(b"T\n12\tBob\tRodney\n").unwrap();
    assert_eq!(names(&team), vec!["Bob\tRodney"]);
}

#[test]
fn number_of_four_bytes_is_taken() {
    let team = Team::from_file(b"T\n1234\tBob\n").unwrap();
    assert_eq!(numbers(&team), vec!["1234"]);
}

#[test]
fn number_of_five_bytes_is_refused() {
    assert_eq!(
        Team::from_file(b"T\n12345\tBob\n").err(),
        Some(RosterError::NumberTooLong { number: b"12345".to_vec() })
    );
    assert_eq!(
        Team::from_file(b"T\n1\tA\n123456").err(),
        Some(RosterError::NumberTooLong { number: b"123456".to_vec() })
    );
}

#[test]
fn number_that_is_not_text_is_refused() {
    assert_eq!(Team::from_file(b"T\n\xff\tBob\n").err(), Some(RosterError::BadNumber));
}

#[test]
fn name_that_is_not_text_is_refused() {
    assert_eq!(
        Team::from_file(b"T\n12\tB\xffb\n").err(),
        Some(RosterError::BadName { name: b"B\xffb".to_vec() })
    );
    assert_eq!(
        Team::from_file(b"T\n12\t\xc3").err(),
        Some(RosterError::BadName { name: b"\xc3".to_vec() })
    );
}

#[test]
fn team_name_that_is_not_text_is_refused() {
    assert_eq!(Team::from_file(b"T\xff\n12\tBob\n").err(), Some(RosterError::BadTeamName));
}

#[test]
fn first_refusal_is_reported() {
    assert_eq!(
        Team::from_file(b"T\n12345\tB\xffb\n\xff\tBob\n").err(),
        Some(RosterError::NumberTooLong { number: b"12345".to_vec() })
    );
    assert_eq!(
        Team::from_file(b"T\n\xff\tB\xffb\n12345\tBob\n").err(),
        Some(RosterError::BadNumber)
    );
    assert_eq!(
        Team::from_file(b"T\n1\tB\xffb\n12345\tBob\n").err(),
        Some(RosterError::BadName { name: b"B\xffb".to_vec() })
    );
    assert_eq!(
        Team::from_file(b"\xff\n12345\tBob\n").err(),
        Some(RosterError::BadTeamName)
    );
}

#[test]
fn text_beyond_ascii_is_read() {
    let team = Team::from_file("Z\u{fc}rich\n\u{e9}1\tZo\u{eb}\n".as_bytes()).unwrap();
    assert_eq!(team.name, "Z\u{fc}rich");
    assert_eq!(numbers(&team), vec!["\u{e9}1"]);
    assert_eq!(names(&team), vec!["Zo\u{eb}"]);
}

#[test]
fn numbers_are_ordered_by_their_bytes() {
    assert!(le_numbers("", ""));
    assert!(le_numbers("", "1"));
    assert!(!le_numbers("1", ""));
    assert!(le_numbers("1", "1"));
    assert!(le_numbers("1", "10"));
    assert!(!le_numbers("10", "1"));
    assert!(le_numbers("10", "9"));
    assert!(!le_numbers("9", "10"));
    assert!(le_numbers("12", "34"));
    assert!(le_numbers("A", "a"));
    assert!(le_numbers("z", "\u{e9}"));
    assert_eq!(le_numbers("0x", "0X"), "0x" <= "0X");
}

#[test]
fn skaters_are_found_by_number() {
    let team = Team::from_file(b"T\n9\tNine\n10\tTen\n1\tOne\n55\tFives\n007\tBond\n").unwrap();
    assert_eq!(team.find("007"), Some(0));
    assert_eq!(team.find("1"), Some(1));
    assert_eq!(team.find("10"), Some(2));
    assert_eq!(team.find("55"), Some(3));
    assert_eq!(team.find("9"), Some(4));
    assert_eq!(team.find("2"), None);
    assert_eq!(team.find(""), None);
    assert_eq!(team.find("0"), None);
    assert_eq!(team.find("99"), None);
    assert_eq!(team.find("100"), None);
}

#[test]
fn first_of_the_same_number_is_found() {
    let team = Team::from_file(b"T\n7\tA\n3\tB\n7\tC\n7\tD\n8\tE\n").unwrap();
    assert_eq!(team.find("7"), Some(1));
    assert_eq!(team.find("8"), Some(4));
}

#[test]
fn nobody_is_found_in_an_empty_roster() {
    let team = Team::from_file(b"T\n").unwrap();
    assert_eq!(team.find("1"), None);
    assert!(team.is_sorted());
}

#[test]
fn unsorted_roster_is_told() {
    let team = Team {
        name: String::from("T"),
        skaters: vec![
            Skater { number: String::from("2"), name: String::from("B") },
            Skater { number: String::from("1"), name: String::from("A") },
        ],
    };
    assert!(!team.is_sorted());
    let team = Team {
        name: String::from("T"),
        skaters: vec![
            Skater { number: String::from("1"), name: String::from("A") },
            Skater { number: String::from("1"), name: String::from("B") },
            Skater { number: String::from("2"), name: String::from("C") },
        ],
    };
    assert!(team.is_sorted());
}

#[test]
fn person_with_a_number_is_a_skater() {
    let skater =
        Skater::from_derbyjson(String::from("Bob"), Some(String::from("12"))).unwrap();
    assert_eq!(skater.name, "Bob");
    assert_eq!(skater.number, "12");
}

#[test]
fn person_without_a_number_is_no_skater() {
    match Skater::from_derbyjson(String::from("Bob"), None) {
        Err(SkaterError::NoNumber { name }) => assert_eq!(name, "Bob"),
        _ => panic!("a person without a number is refused for that"),
    }
}

#[test]
fn person_with_an_empty_number_is_no_skater() {
    match Skater::from_derbyjson(String::from("Bob"), Some(String::new())) {
        Err(SkaterError::EmptyNumber { name }) => assert_eq!(name, "Bob"),
        _ => panic!("a person with an empty number is refused for that"),
    }
}

#[test]
fn team_of_a_league_is_called_by_both() {
    let team = Team::from_derbyjson(
        String::from("All Stars"),
        Some(String::from("Toaster City")),
        vec![],
    );
    assert_eq!(team.name, "Toaster City - All Stars");
    assert!(team.skaters.is_empty());
    let team = Team::from_derbyjson(String::from("All Stars"), None, vec![]);
    assert_eq!(team.name, "All Stars");
}

#[test]
fn team_keeps_the_persons_with_numbers_in_order() {
    let team = Team::from_derbyjson(
        String::from("T"),
        None,
        vec![
            (String::from("Nine"), Some(String::from("9"))),
            (String::from("Ref"), None),
            (String::from("Ten"), Some(String::from("10"))),
            (String::from("Blank"), Some(String::new())),
            (String::from("Other Ten"), Some(String::from("10"))),
            (String::from("Long"), Some(String::from("123456"))),
        ],
    );
    assert_eq!(numbers(&team), vec!["10", "10", "123456", "9"]);
    assert_eq!(names(&team), vec!["Ten", "Other Ten", "Long", "Nine"]);
    assert!(team.is_sorted());
}
