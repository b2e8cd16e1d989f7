use memo::base_of;
use memo::command::parse_command;
use memo::command::parse_index_arg;
use memo::command::CommandKind;
use memo::join_words;
use memo::parse_usize;
use memo::store::memo_file_name;
use memo::usize_to_string;

fn words(ws: &[&str]) -> Vec<String> {
    ws.iter().map(|w| w.to_string()).collect()
}

#[test]
fn parse_usize_accepts_decimal_numerals() {
    assert_eq!(parse_usize("0"), Some(0));
    assert_eq!(parse_usize("1"), Some(1));
    assert_eq!(parse_usize("123"), Some(123));
    assert_eq!(parse_usize("018"), Some(18));
}

#[test]
fn parse_usize_rejects_non_numerals() {
    assert_eq!(parse_usize(""), None);
    assert_eq!(parse_usize("12a"), None);
    assert_eq!(parse_usize("a12"), None);
    assert_eq!(parse_usize("+5"), None);
    assert_eq!(parse_usize(" 5"), None);
    assert_eq!(parse_usize("1.5"), None);
    assert_eq!(parse_usize("-1"), None);
}

#[test]
fn parse_usize_handles_the_largest_value() {
    let max = format!("{}", usize::MAX);
    assert_eq!(parse_usize(&max), Some(usize::MAX));
    let too_big = format!("{}", usize::MAX as u128 + 1);
    assert_eq!(parse_usize(&too_big), None);
}

#[test]
fn usize_to_string_formats_canonically() {
    assert_eq!(usize_to_string(0), "0");
    assert_eq!(usize_to_string(7), "7");
    assert_eq!(usize_to_string(10), "10");
    assert_eq!(usize_to_string(90210), "90210");
    assert_eq!(usize_to_string(usize::MAX), format!("{}", usize::MAX));
}

#[test]
fn formatting_then_parsing_is_the_identity() {
    for n in [0, 1, 9, 10, 99, 100, 4096, usize::MAX] {
        assert_eq!(parse_usize(&usize_to_string(n)), Some(n));
    }
}

#[test]
fn memo_file_name_appends_txt() {
    assert_eq!(memo_file_name(3), "3.txt");
    assert_eq!(memo_file_name(60), "60.txt");
}

#[test]
fn base_of_strips_from_first_dot() {
    assert_eq!(base_of("5.txt"), "5");
    assert_eq!(base_of("abc"), "abc");
    assert_eq!(base_of("a.b.c"), "a");
    assert_eq!(base_of(".txt"), "");
    assert_eq!(base_of(""), "");
}

#[test]
fn join_words_uses_single_spaces() {
    assert_eq!(join_words(&words(&[])), "");
    assert_eq!(join_words(&words(&["a"])), "a");
    assert_eq!(join_words(&words(&["a", "b", "c"])), "a b c");
    assert_eq!(join_words(&words(&["New", "memo", "with", "text"])), "New memo with text");
}

#[test]
fn parse_command_knows_every_alias() {
    for c in ["help", "-h", "--help"] {
        assert_eq!(parse_command(&c.to_string()), CommandKind::Help);
    }
    for c in ["add", "new", "-a", "-n"] {
        assert_eq!(parse_command(&c.to_string()), CommandKind::Add);
    }
    for c in ["show", "see", "open", "-s", "-o"] {
        assert_eq!(parse_command(&c.to_string()), CommandKind::Show);
    }
    for c in ["delete", "remove", "-d", "-r"] {
        assert_eq!(parse_command(&c.to_string()), CommandKind::Delete);
    }
    for c in ["list", "all", "-l"] {
        assert_eq!(parse_command(&c.to_string()), CommandKind::List);
    }
    for c in ["clean", "deleteall", "removeall", "-c"] {
        assert_eq!(parse_command(&c.to_string()), CommandKind::Clean);
    }
    for c in ["version", "-v", "--version"] {
        assert_eq!(parse_command(&c.to_string()), CommandKind::Version);
    }
}

#[test]
fn parse_command_rejects_anything_else() {
    assert_eq!(parse_command(&"frobnicate".to_string()), CommandKind::Unknown);
    assert_eq!(parse_command(&"Help".to_string()), CommandKind::Unknown);
    assert_eq!(parse_command(&"".to_string()), CommandKind::Unknown);
}

#[test]
fn parse_index_arg_wants_exactly_one_numeral() {
    assert_eq!(parse_index_arg(&words(&[])), None);
    assert_eq!(parse_index_arg(&words(&["1", "2"])), None);
    assert_eq!(parse_index_arg(&words(&["x"])), None);
    assert_eq!(parse_index_arg(&words(&["7"])), Some(7));
    assert_eq!(parse_index_arg(&words(&["0"])), Some(0));
}
