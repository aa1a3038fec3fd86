use wallet713::error::Wallet713Error;
use wallet713::parser::Parser;
use wallet713::scan::{copy_opt, find_name, scan};

fn strings(words: &[&str]) -> Vec<String> {
    words.iter().map(|w| w.to_string()).collect()
}

#[test]
fn scan_sorts_options_flags_and_positionals() {
    let words = strings(&["send", "pw", "--to", "bob", "--fast", "extra", "--amount", "5"]);
    let scanned = scan(&words, 1, &strings(&["to", "amount"]), &strings(&["fast", "slow"])).unwrap();
    assert_eq!(scanned.values, vec![Some("bob".to_string()), Some("5".to_string())]);
    assert_eq!(scanned.flags, vec![true, false]);
    assert_eq!(scanned.positionals, strings(&["pw", "extra"]));
}

#[test]
fn scan_of_no_words() {
    let words = strings(&["stop"]);
    let scanned = scan(&words, 1, &strings(&["to"]), &strings(&["fast"])).unwrap();
    assert_eq!(scanned.values, vec![None]);
    assert_eq!(scanned.flags, vec![false]);
    assert!(scanned.positionals.is_empty());
}

#[test]
fn option_takes_the_next_word_whatever_it_is() {
    let words = strings(&["--to", "--amount"]);
    let scanned = scan(&words, 0, &strings(&["to", "amount"]), &strings(&[])).unwrap();
    assert_eq!(scanned.values, vec![Some("--amount".to_string()), None]);
}

#[test]
fn single_hyphen_is_a_positional_argument() {
    let words = strings(&["-x", "-", "--"]);
    let scanned = scan(&words, 0, &strings(&[]), &strings(&[""])).unwrap();
    assert_eq!(scanned.positionals, strings(&["-x", "-"]));
    assert_eq!(scanned.flags, vec![true]);
}

#[test]
fn scan_reports_the_first_failure_from_the_left() {
    let words = strings(&["--nope", "--to"]);
    assert_eq!(
        scan(&words, 0, &strings(&["to"]), &strings(&[])).map(|s| s.positionals),
        Err(Wallet713Error::UnexpectedArgument("--nope".to_string()))
    );
    let words = strings(&["--to", "a", "--to"]);
    assert_eq!(
        scan(&words, 0, &strings(&["to"]), &strings(&[])).map(|s| s.positionals),
        Err(Wallet713Error::RepeatedArgument("--to".to_string()))
    );
}

#[test]
fn names_are_found_at_their_first_place() {
    let names = strings(&["to", "amount", "to"]);
    assert_eq!(find_name(&names, "to"), Some(0));
    assert_eq!(find_name(&names, "amount"), Some(1));
    assert_eq!(find_name(&names, "from"), None);
    assert_eq!(find_name(&strings(&[]), "to"), None);
}

#[test]
fn copy_of_an_optional_string() {
    assert_eq!(copy_opt(&Some("a".to_string())), Some("a".to_string()));
    assert_eq!(copy_opt(&None), None);
}

#[test]
fn line_end_changes_nothing() {
    for line in ["repost 7", "send --to bob --amount 5", "contacts", "nonsense", "repost x", ""] {
        for tail in ["\n", "\r\n", "  ", "\t\n"] {
            assert_eq!(Parser::parse(&format!("{}{}", line, tail)), Parser::parse(line));
        }
    }
}
