use vstd::prelude::*;
use vstd::string::*;
use crate::text::str_eq;

verus! {

/// Number of entries in the reference alphabet.
pub open spec fn table_len() -> int {
    59
}

/// The Morse code of entry `i` of the reference alphabet.
pub open spec fn table_code(i: int) -> Seq<char> {
    if i == 0 {
        ".-"@
    } else if i == 1 {
        "-..."@
    } else if i == 2 {
        "-.-."@
    } else if i == 3 {
        "-.."@
    } else if i == 4 {
        "."@
    } else if i == 5 {
        "..-."@
    } else if i == 6 {
        "--."@
    } else if i == 7 {
        "...."@
    } else if i == 8 {
        ".."@
    } else if i == 9 {
        ".---"@
    } else if i == 10 {
        "-.-"@
    } else if i == 11 {
        ".-.."@
    } else if i == 12 {
        "--"@
    } else if i == 13 {
        "-."@
    } else if i == 14 {
        "---"@
    } else if i == 15 {
        ".--."@
    } else if i == 16 {
        "--.-"@
    } else if i == 17 {
        ".-."@
    } else if i == 18 {
        "..."@
    } else if i == 19 {
        "-"@
    } else if i == 20 {
        "..-"@
    } else if i == 21 {
        "...-"@
    } else if i == 22 {
        ".--"@
    } else if i == 23 {
        "-..-"@
    } else if i == 24 {
        "-.--"@
    } else if i == 25 {
        "--.."@
    } else if i == 26 {
        ".----"@
    } else if i == 27 {
        "..---"@
    } else if i == 28 {
        "...--"@
    } else if i == 29 {
        "....-"@
    } else if i == 30 {
        "....."@
    } else if i == 31 {
        "-...."@
    } else if i == 32 {
        "--..."@
    } else if i == 33 {
        "---.."@
    } else if i == 34 {
        "----."@
    } else if i == 35 {
        "-----"@
    } else if i == 36 {
        "...---..."@
    } else if i == 37 {
        ".-.-.-"@
    } else if i == 38 {
        "--..--"@
    } else if i == 39 {
        "..--.."@
    } else if i == 40 {
        ".----."@
    } else if i == 41 {
        "-.-.--"@
    } else if i == 42 {
        "-..-."@
    } else if i == 43 {
        "-.--."@
    } else if i == 44 {
        "-.--.-"@
    } else if i == 45 {
        ".-..."@
    } else if i == 46 {
        "---..."@
    } else if i == 47 {
        "-.-.-."@
    } else if i == 48 {
        "-...-"@
    } else if i == 49 {
        ".-.-."@
    } else if i == 50 {
        "-....-"@
    } else if i == 51 {
        "..--.-"@
    } else if i == 52 {
        ".-..-."@
    } else if i == 53 {
        "...-..-"@
    } else if i == 54 {
        ".--.-."@
    } else if i == 55 {
        "...-.-"@
    } else if i == 56 {
        "........"@
    } else if i == 57 {
        "-.-.-"@
    } else if i == 58 {
        "...-."@
    } else {
        Seq::empty()
    }
}

/// The decoded token of entry `i` of the reference alphabet.
pub open spec fn table_token(i: int) -> Seq<char> {
    if i == 0 {
        "A"@
    } else if i == 1 {
        "B"@
    } else if i == 2 {
        "C"@
    } else if i == 3 {
        "D"@
    } else if i == 4 {
        "E"@
    } else if i == 5 {
        "F"@
    } else if i == 6 {
        "G"@
    } else if i == 7 {
        "H"@
    } else if i == 8 {
        "I"@
    } else if i == 9 {
        "J"@
    } else if i == 10 {
        "K"@
    } else if i == 11 {
        "L"@
    } else if i == 12 {
        "M"@
    } else if i == 13 {
        "N"@
    } else if i == 14 {
        "O"@
    } else if i == 15 {
        "P"@
    } else if i == 16 {
        "Q"@
    } else if i == 17 {
        "R"@
    } else if i == 18 {
        "S"@
    } else if i == 19 {
        "T"@
    } else if i == 20 {
        "U"@
    } else if i == 21 {
        "V"@
    } else if i == 22 {
        "W"@
    } else if i == 23 {
        "X"@
    } else if i == 24 {
        "Y"@
    } else if i == 25 {
        "Z"@
    } else if i == 26 {
        "1"@
    } else if i == 27 {
        "2"@
    } else if i == 28 {
        "3"@
    } else if i == 29 {
        "4"@
    } else if i == 30 {
        "5"@
    } else if i == 31 {
        "6"@
    } else if i == 32 {
        "7"@
    } else if i == 33 {
        "8"@
    } else if i == 34 {
        "9"@
    } else if i == 35 {
        "0"@
    } else if i == 36 {
        "SOS"@
    } else if i == 37 {
        "."@
    } else if i == 38 {
        ","@
    } else if i == 39 {
        "?"@
    } else if i == 40 {
        "'"@
    } else if i == 41 {
        "!"@
    } else if i == 42 {
        "/"@
    } else if i == 43 {
        "("@
    } else if i == 44 {
        ")"@
    } else if i == 45 {
        "&"@
    } else if i == 46 {
        ":"@
    } else if i == 47 {
        ";"@
    } else if i == 48 {
        "="@
    } else if i == 49 {
        "+"@
    } else if i == 50 {
        "-"@
    } else if i == 51 {
        "_"@
    } else if i == 52 {
        "\""@
    } else if i == 53 {
        "$"@
    } else if i == 54 {
        "@"@
    } else if i == 55 {
        "<End of work>"@
    } else if i == 56 {
        "<Error>"@
    } else if i == 57 {
        "<Starting Signal>"@
    } else if i == 58 {
        "<Understood>"@
    } else {
        Seq::empty()
    }
}

/// Scan the reference alphabet from entry `i` on for an exact match of `code`.
pub open spec fn lookup_from(i: int, code: Seq<char>) -> Option<Seq<char>>
    decreases table_len() - i,
{
    if i < 0 || i >= table_len() {
        None
    } else if table_code(i) == code {
        Some(table_token(i))
    } else {
        lookup_from(i + 1, code)
    }
}

/// What looking `code` up in the Symbol Table returns: the token of the
/// first entry whose code matches exactly, if any.
pub open spec fn spec_lookup(code: Seq<char>) -> Option<Seq<char>> {
    lookup_from(0, code)
}

/// A Morse code is a nonempty string of dots and dashes.
pub open spec fn code_chars_ok(code: Seq<char>) -> bool {
    code.len() > 0 && forall|j: int| 0 <= j < code.len() ==> code[j] == '.' || code[j] == '-'
}

/// Every code of the reference alphabet is a nonempty string of dots and dashes.
pub proof fn lemma_table_code_wf(i: int)
    requires
        0 <= i < table_len(),
    ensures
        code_chars_ok(table_code(i)),
{
    reveal_strlit(".-");
    reveal_strlit("-...");
    reveal_strlit("-.-.");
    reveal_strlit("-..");
    reveal_strlit(".");
    reveal_strlit("..-.");
    reveal_strlit("--.");
    reveal_strlit("....");
    reveal_strlit("..");
    reveal_strlit(".---");
    reveal_strlit("-.-");
    reveal_strlit(".-..");
    reveal_strlit("--");
    reveal_strlit("-.");
    reveal_strlit("---");
    reveal_strlit(".--.");
    reveal_strlit("--.-");
    reveal_strlit(".-.");
    reveal_strlit("...");
    reveal_strlit("-");
    reveal_strlit("..-");
    reveal_strlit("...-");
    reveal_strlit(".--");
    reveal_strlit("-..-");
    reveal_strlit("-.--");
    reveal_strlit("--..");
    reveal_strlit(".----");
    reveal_strlit("..---");
    reveal_strlit("...--");
    reveal_strlit("....-");
    reveal_strlit(".....");
    reveal_strlit("-....");
    reveal_strlit("--...");
    reveal_strlit("---..");
    reveal_strlit("----.");
    reveal_strlit("-----");
    reveal_strlit("...---...");
    reveal_strlit(".-.-.-");
    reveal_strlit("--..--");
    reveal_strlit("..--..");
    reveal_strlit(".----.");
    reveal_strlit("-.-.--");
    reveal_strlit("-..-.");
    reveal_strlit("-.--.");
    reveal_strlit("-.--.-");
    reveal_strlit(".-...");
    reveal_strlit("---...");
    reveal_strlit("-.-.-.");
    reveal_strlit("-...-");
    reveal_strlit(".-.-.");
    reveal_strlit("-....-");
    reveal_strlit("..--.-");
    reveal_strlit(".-..-.");
    reveal_strlit("...-..-");
    reveal_strlit(".--.-.");
    reveal_strlit("...-.-");
    reveal_strlit("........");
    reveal_strlit("-.-.-");
    reveal_strlit("...-.");
}

/// A code that the table recognizes is a nonempty string of dots and dashes.
pub proof fn lemma_recognized_code_wf(code: Seq<char>)
    requires
        spec_lookup(code) is Some,
    ensures
        code_chars_ok(code),
{
    lemma_lookup_from_code_wf(0, code);
}

proof fn lemma_lookup_from_code_wf(i: int, code: Seq<char>)
    requires
        lookup_from(i, code) is Some,
    ensures
        code_chars_ok(code),
    decreases table_len() - i,
{
    if 0 <= i < table_len() {
        if table_code(i) == code {
            lemma_table_code_wf(i);
        } else {
            lemma_lookup_from_code_wf(i + 1, code);
        }
    }
}

/// Entry `i` of an executable table holds the reference code and token.
pub open spec fn entry_matches(e: (String, String), i: int) -> bool {
    e.0@ == table_code(i) && e.1@ == table_token(i)
}

/// The Symbol Table: the fixed list of (code, token) pairs, built once at
/// startup and read-only afterwards.
pub struct SymbolTable {
    entries: Vec<(String, String)>,
}

impl SymbolTable {
    /// The table holds exactly the reference alphabet, in order.
    pub closed spec fn wf(&self) -> bool {
        self.entries@.len() == table_len() && forall|i: int|
            0 <= i < self.entries@.len() ==> entry_matches(#[trigger] self.entries@[i], i)
    }

    fn push_entry(entries: &mut Vec<(String, String)>, code: &str, token: &str)
        requires
            code@ == table_code(old(entries)@.len() as int),
            token@ == table_token(old(entries)@.len() as int),
            forall|i: int|
                0 <= i < old(entries)@.len() ==> entry_matches(#[trigger] old(entries)@[i], i),
        ensures
            final(entries)@.len() == old(entries)@.len() + 1,
            forall|i: int|
                0 <= i < final(entries)@.len() ==> entry_matches(#[trigger] final(entries)@[i], i),
    {
        let e = (String::from_str(code), String::from_str(token));
        entries.push(e);
    }

    /// Build the table from the fixed reference list.
    pub fn new() -> (t: SymbolTable)
        ensures
            t.wf(),
    {
        let mut entries: Vec<(String, String)> = Vec::new();
        Self::push_entry(&mut entries, ".-", "A");
        Self::push_entry(&mut entries, "-...", "B");
        Self::push_entry(&mut entries, "-.-.", "C");
        Self::push_entry(&mut entries, "-..", "D");
        Self::push_entry(&mut entries, ".", "E");
        Self::push_entry(&mut entries, "..-.", "F");
        Self::push_entry(&mut entries, "--.", "G");
        Self::push_entry(&mut entries, "....", "H");
        Self::push_entry(&mut entries, "..", "I");
        Self::push_entry(&mut entries, ".---", "J");
        Self::push_entry(&mut entries, "-.-", "K");
        Self::push_entry(&mut entries, ".-..", "L");
        Self::push_entry(&mut entries, "--", "M");
        Self::push_entry(&mut entries, "-.", "N");
        Self::push_entry(&mut entries, "---", "O");
        Self::push_entry(&mut entries, ".--.", "P");
        Self::push_entry(&mut entries, "--.-", "Q");
        Self::push_entry(&mut entries, ".-.", "R");
        Self::push_entry(&mut entries, "...", "S");
        Self::push_entry(&mut entries, "-", "T");
        Self::push_entry(&mut entries, "..-", "U");
        Self::push_entry(&mut entries, "...-", "V");
        Self::push_entry(&mut entries, ".--", "W");
        Self::push_entry(&mut entries, "-..-", "X");
        Self::push_entry(&mut entries, "-.--", "Y");
        Self::push_entry(&mut entries, "--..", "Z");
        Self::push_entry(&mut entries, ".----", "1");
        Self::push_entry(&mut entries, "..---", "2");
        Self::push_entry(&mut entries, "...--", "3");
        Self::push_entry(&mut entries, "....-", "4");
        Self::push_entry(&mut entries, ".....", "5");
        Self::push_entry(&mut entries, "-....", "6");
        Self::push_entry(&mut entries, "--...", "7");
        Self::push_entry(&mut entries, "---..", "8");
        Self::push_entry(&mut entries, "----.", "9");
        Self::push_entry(&mut entries, "-----", "0");
        Self::push_entry(&mut entries, "...---...", "SOS");
        Self::push_entry(&mut entries, ".-.-.-", ".");
        Self::push_entry(&mut entries, "--..--", ",");
        Self::push_entry(&mut entries, "..--..", "?");
        Self::push_entry(&mut entries, ".----.", "'");
        Self::push_entry(&mut entries, "-.-.--", "!");
        Self::push_entry(&mut entries, "-..-.", "/");
        Self::push_entry(&mut entries, "-.--.", "(");
        Self::push_entry(&mut entries, "-.--.-", ")");
        Self::push_entry(&mut entries, ".-...", "&");
        Self::push_entry(&mut entries, "---...", ":");
        Self::push_entry(&mut entries, "-.-.-.", ";");
        Self::push_entry(&mut entries, "-...-", "=");
        Self::push_entry(&mut entries, ".-.-.", "+");
        Self::push_entry(&mut entries, "-....-", "-");
        Self::push_entry(&mut entries, "..--.-", "_");
        Self::push_entry(&mut entries, ".-..-.", "\"");
        Self::push_entry(&mut entries, "...-..-", "$");
        Self::push_entry(&mut entries, ".--.-.", "@");
        Self::push_entry(&mut entries, "...-.-", "<End of work>");
        Self::push_entry(&mut entries, "........", "<Error>");
        Self::push_entry(&mut entries, "-.-.-", "<Starting Signal>");
        Self::push_entry(&mut entries, "...-.", "<Understood>");
        SymbolTable { entries }
    }

    /// Exact-match lookup of a Morse code: the token of the matching entry,
    /// or nothing when no entry matches.
    pub fn lookup(&self, code: &str) -> (r: Option<String>)
        requires
            self.wf(),
        ensures
            match spec_lookup(code@) {
                Some(t) => r is Some && r.unwrap()@ == t,
                None => r is None,
            },
    {
        let mut i: usize = 0;
        while i < self.entries.len()
            invariant
                self.wf(),
                0 <= i <= self.entries@.len(),
                lookup_from(0, code@) == lookup_from(i as int, code@),
            decreases self.entries@.len() - i,
        {
            if str_eq(self.entries[i].0.as_str(), code) {
                return Some(self.entries[i].1.clone());
            }
            i += 1;
        }
        None
    }
}

} // verus!
