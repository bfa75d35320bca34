use morse_decoder::decode::{decode_morse, decode_word, split_str, DeMorseCode, EnMorseCode};
use morse_decoder::table::SymbolTable;
use morse_decoder::text::{is_space_char, str_eq};

fn dec(table: &SymbolTable, encoded: &str) -> String {
    let response: DeMorseCode = decode_morse(
        table,
        EnMorseCode {
            encoded: String::from(encoded),
        },
    );
    response.decoded
}

#[test]
fn single_letters() {
    let table = SymbolTable::new();
    assert_eq!(dec(&table, ".-"), "A");
    assert_eq!(dec(&table, "-..."), "B");
    assert_eq!(dec(&table, "-.-."), "C");
    assert_eq!(dec(&table, "."), "E");
    assert_eq!(dec(&table, "--.."), "Z");
}

#[test]
fn single_digits() {
    let table = SymbolTable::new();
    assert_eq!(dec(&table, ".----"), "1");
    assert_eq!(dec(&table, "....."), "5");
    assert_eq!(dec(&table, "-----"), "0");
}

#[test]
fn punctuation_and_signals() {
    let table = SymbolTable::new();
    assert_eq!(dec(&table, ".-.-.-"), ".");
    assert_eq!(dec(&table, "..--.."), "?");
    assert_eq!(dec(&table, ".-..-."), "\"");
    assert_eq!(dec(&table, "...-..-"), "$");
    assert_eq!(dec(&table, "...-.-"), "<End of work>");
    assert_eq!(dec(&table, "........"), "<Error>");
    assert_eq!(dec(&table, "-.-.-"), "<Starting Signal>");
    assert_eq!(dec(&table, "...-."), "<Understood>");
}

#[test]
fn compound_sos() {
    let table = SymbolTable::new();
    assert_eq!(dec(&table, "...---..."), "SOS");
}

#[test]
fn word_concatenates_tokens() {
    let table = SymbolTable::new();
    assert_eq!(dec(&table, ".- -... -.-."), "ABC");
}

#[test]
fn words_joined_by_single_space() {
    let table = SymbolTable::new();
    assert_eq!(dec(&table, ".-   -..."), "A B");
}

#[test]
fn multi_word_message() {
    let table = SymbolTable::new();
    assert_eq!(dec(&table, "... --- ...   ... --- ..."), "SOS SOS");
}

#[test]
fn unknown_symbol_omitted() {
    let table = SymbolTable::new();
    assert_eq!(dec(&table, ".- zzzz -.-."), "AC");
}

#[test]
fn empty_input() {
    let table = SymbolTable::new();
    assert_eq!(dec(&table, ""), "");
}

#[test]
fn whitespace_only_input() {
    let table = SymbolTable::new();
    assert_eq!(dec(&table, "   "), "");
}

#[test]
fn input_is_trimmed() {
    let table = SymbolTable::new();
    assert_eq!(dec(&table, "  .-  "), "A");
    assert_eq!(dec(&table, "\t.- -...\u{A0}\n"), "AB");
}

#[test]
fn two_spaces_are_no_word_boundary() {
    let table = SymbolTable::new();
    // Two spaces stay inside one word: they make an empty code, which is
    // unknown and dropped.
    assert_eq!(dec(&table, ".-  -..."), "AB");
}

#[test]
fn four_spaces_leave_a_leading_empty_code() {
    let table = SymbolTable::new();
    // The first three spaces separate the words; the fourth starts the
    // second word with an empty, unknown code.
    assert_eq!(dec(&table, ".-    -..."), "A B");
}

#[test]
fn lookup_finds_every_kind_of_entry() {
    let table = SymbolTable::new();
    assert_eq!(table.lookup(".-"), Some(String::from("A")));
    assert_eq!(table.lookup("....."), Some(String::from("5")));
    assert_eq!(table.lookup("...---..."), Some(String::from("SOS")));
    assert_eq!(table.lookup(".--.-."), Some(String::from("@")));
}

#[test]
fn lookup_misses_unknown_codes() {
    let table = SymbolTable::new();
    assert_eq!(table.lookup(""), None);
    assert_eq!(table.lookup("zzzz"), None);
    assert_eq!(table.lookup(".-.-.-.-.-"), None);
    assert_eq!(table.lookup("A"), None);
}

#[test]
fn lookup_is_idempotent() {
    let table = SymbolTable::new();
    let first = table.lookup("-.-.");
    let second = table.lookup("-.-.");
    assert_eq!(first, second);
    assert_eq!(first, Some(String::from("C")));
    let other = SymbolTable::new();
    assert_eq!(other.lookup("-.-."), second);
}

#[test]
fn decode_word_alone() {
    let table = SymbolTable::new();
    assert_eq!(decode_word(&table, ".... .."), "HI");
}

#[test]
fn split_str_matches_std_split() {
    let pieces = split_str("a   b c", "   ");
    assert_eq!(pieces, vec![String::from("a"), String::from("b c")]);
    let pieces = split_str("", " ");
    assert_eq!(pieces, vec![String::from("")]);
    let pieces = split_str("x y ", " ");
    assert_eq!(
        pieces,
        vec![String::from("x"), String::from("y"), String::from("")]
    );
}

#[test]
fn str_eq_agrees_with_equality() {
    assert!(str_eq("", ""));
    assert!(str_eq(".-", ".-"));
    assert!(!str_eq(".-", ".--"));
    assert!(!str_eq("a", "b"));
}

#[test]
fn space_classification() {
    assert!(is_space_char(' '));
    assert!(is_space_char('\t'));
    assert!(is_space_char('\u{3000}'));
    assert!(!is_space_char('.'));
    assert!(!is_space_char('-'));
    assert!(!is_space_char('z'));
}
