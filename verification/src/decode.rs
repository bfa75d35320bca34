use vstd::prelude::*;
use vstd::string::*;
use crate::table::{spec_lookup, SymbolTable};
use crate::text::{is_space_char, is_unicode_space};

verus! {

/// The separator between the symbols of one word: a single space.
pub open spec fn symbol_sep() -> Seq<char> {
    seq![' ']
}

/// The separator between words: exactly three spaces.
pub open spec fn word_sep() -> Seq<char> {
    seq![' ', ' ', ' ']
}

/// Leading whitespace removed.
pub open spec fn trim_start_spec(s: Seq<char>) -> Seq<char>
    decreases s.len(),
{
    if s.len() > 0 && is_unicode_space(s[0]) {
        trim_start_spec(s.drop_first())
    } else {
        s
    }
}

/// Trailing whitespace removed.
pub open spec fn trim_end_spec(s: Seq<char>) -> Seq<char>
    decreases s.len(),
{
    if s.len() > 0 && is_unicode_space(s[s.len() - 1]) {
        trim_end_spec(s.drop_last())
    } else {
        s
    }
}

/// Leading and trailing whitespace removed; inner whitespace kept.
pub open spec fn trim_spec(s: Seq<char>) -> Seq<char> {
    trim_end_spec(trim_start_spec(s))
}

/// Splitting, scanned from the left with `cur` the piece read so far: at a
/// match of `sep` the piece ends, otherwise the character joins the piece.
/// Matches are therefore leftmost and non-overlapping, as the standard
/// split finds them.
pub open spec fn split_rec(s: Seq<char>, sep: Seq<char>, cur: Seq<char>) -> Seq<Seq<char>>
    decreases s.len(),
{
    if sep.len() == 0 || s.len() == 0 {
        seq![cur + s]
    } else if s.len() >= sep.len() && s.take(sep.len() as int) == sep {
        seq![cur] + split_rec(s.skip(sep.len() as int), sep, Seq::empty())
    } else {
        split_rec(s.drop_first(), sep, cur.push(s[0]))
    }
}

/// The pieces of `s` between the non-overlapping leftmost matches of `sep`;
/// always at least one piece, and one piece more than there are matches.
pub open spec fn split_spec(s: Seq<char>, sep: Seq<char>) -> Seq<Seq<char>> {
    split_rec(s, sep, Seq::empty())
}

/// The tokens of the recognized codes, concatenated directly; unrecognized
/// codes are dropped without a placeholder.
pub open spec fn decode_codes(codes: Seq<Seq<char>>) -> Seq<char>
    decreases codes.len(),
{
    if codes.len() == 0 {
        Seq::empty()
    } else {
        (match spec_lookup(codes[0]) {
            Some(token) => token,
            None => Seq::<char>::empty(),
        }) + decode_codes(codes.drop_first())
    }
}

/// Decoding one word: split it on single spaces into codes and concatenate
/// the recognized codes' tokens.
pub open spec fn decode_word_spec(word: Seq<char>) -> Seq<char> {
    decode_codes(split_spec(word, symbol_sep()))
}

/// The decoded words joined with single spaces.
pub open spec fn decode_words(words: Seq<Seq<char>>) -> Seq<char>
    decreases words.len(),
{
    if words.len() == 0 {
        Seq::empty()
    } else if words.len() == 1 {
        decode_word_spec(words[0])
    } else {
        decode_word_spec(words[0]) + seq![' '] + decode_words(words.drop_first())
    }
}

/// The whole decode transformation: trim the input, split it into words on
/// exactly three spaces, decode each word, and join the results with single
/// spaces.
pub open spec fn decode_spec(s: Seq<char>) -> Seq<char> {
    decode_words(split_spec(trim_spec(s), word_sep()))
}

/// A decode request: the Morse-encoded text.
pub struct EnMorseCode {
    pub encoded: String,
}

/// A decode response: the decoded plain text.
pub struct DeMorseCode {
    pub decoded: String,
}

/// First index at or after `from` that holds a non-whitespace character.
fn scan_leading(s: &str, from: usize) -> (k: usize)
    requires
        from <= s@.len(),
        forall|j: int| 0 <= j < from ==> is_unicode_space(s@[j]),
    ensures
        from <= k <= s@.len(),
        forall|j: int| 0 <= j < k ==> is_unicode_space(s@[j]),
        k < s@.len() ==> !is_unicode_space(s@[k as int]),
    decreases s@.len() - from,
{
    let n = s.unicode_len();
    if from < n {
        if is_space_char(s.get_char(from)) {
            return scan_leading(s, from + 1);
        }
    }
    from
}

/// Last index at or before `end` such that everything from it on is
/// whitespace, going no further down than `start`.
fn scan_trailing(s: &str, start: usize, end: usize) -> (k: usize)
    requires
        start <= end <= s@.len(),
        forall|j: int| end <= j < s@.len() ==> is_unicode_space(s@[j]),
    ensures
        start <= k <= end,
        forall|j: int| k <= j < s@.len() ==> is_unicode_space(s@[j]),
        k > start ==> !is_unicode_space(s@[k - 1]),
    decreases end,
{
    if end > start {
        if is_space_char(s.get_char(end - 1)) {
            return scan_trailing(s, start, end - 1);
        }
    }
    end
}

/// Trimming drops exactly the whitespace prefix: with the first `k`
/// characters whitespace and the next one (if any) not, what is left is the
/// text from `k` on.
pub proof fn lemma_trim_start_at(s: Seq<char>, k: int)
    requires
        0 <= k <= s.len(),
        forall|j: int| 0 <= j < k ==> is_unicode_space(s[j]),
        k < s.len() ==> !is_unicode_space(s[k]),
    ensures
        trim_start_spec(s) == s.skip(k),
    decreases k,
{
    if k == 0 {
        assert(s.skip(0) =~= s);
    } else {
        assert(forall|j: int| 0 <= j < k - 1 ==> is_unicode_space(s.drop_first()[j]));
        lemma_trim_start_at(s.drop_first(), k - 1);
        assert(s.drop_first().skip(k - 1) =~= s.skip(k));
    }
}

/// Trimming drops exactly the whitespace suffix: with everything from `k`
/// on whitespace and the character before `k` (if any) not, what is left is
/// the text before `k`.
pub proof fn lemma_trim_end_at(s: Seq<char>, k: int)
    requires
        0 <= k <= s.len(),
        forall|j: int| k <= j < s.len() ==> is_unicode_space(s[j]),
        k > 0 ==> !is_unicode_space(s[k - 1]),
    ensures
        trim_end_spec(s) == s.take(k),
    decreases s.len() - k,
{
    if k == s.len() {
        assert(s.take(k) =~= s);
    } else {
        assert(forall|j: int| k <= j < s.drop_last().len() ==> is_unicode_space(s.drop_last()[j]));
        lemma_trim_end_at(s.drop_last(), k);
        assert(s.drop_last().take(k) =~= s.take(k));
    }
}

/// Whether `sep` occurs in `s` at position `i`, decided character by
/// character.
fn matches_at(s: &str, i: usize, sep: &str) -> (r: bool)
    requires
        i + sep@.len() <= s@.len(),
    ensures
        r == (s@.subrange(i as int, i + sep@.len()) == sep@),
{
    let s_n = s.unicode_len();
    let sep_n = sep.unicode_len();
    let mut j: usize = 0;
    while j < sep_n
        invariant
            s_n == s@.len(),
            sep_n == sep@.len(),
            i + sep_n <= s_n,
            0 <= j <= sep_n,
            forall|k: int| 0 <= k < j ==> s@[i + k] == sep@[k],
        decreases sep_n - j,
    {
        if s.get_char(i + j) != sep.get_char(j) {
            proof {
                assert(s@.subrange(i as int, i + sep@.len())[j as int] != sep@[j as int]);
            }
            return false;
        }
        j += 1;
    }
    proof {
        assert(s@.subrange(i as int, i + sep@.len()) =~= sep@);
    }
    true
}

/// Split `s` on the exact separator `sep`: the pieces between the
/// non-overlapping leftmost matches.
pub fn split_str(s: &str, sep: &str) -> (r: Vec<String>)
    requires
        sep@.len() > 0,
    ensures
        r.deep_view() == split_spec(s@, sep@),
{
    let n = s.unicode_len();
    let sep_n = sep.unicode_len();
    let mut pieces: Vec<String> = Vec::new();
    let mut cur: String = String::new();
    let mut i: usize = 0;
    proof {
        assert(s@.skip(0) =~= s@);
        assert(pieces.deep_view() =~= Seq::<Seq<char>>::empty());
    }
    while i < n
        invariant
            n == s@.len(),
            sep_n == sep@.len(),
            sep_n > 0,
            0 <= i <= n,
            pieces.deep_view() + split_rec(s@.skip(i as int), sep@, cur@) == split_spec(s@, sep@),
        decreases n - i,
    {
        let ghost pre_i = i as int;
        let ghost pre_cur = cur@;
        let ghost pre_deep = pieces.deep_view();
        let mut is_sep = false;
        if sep_n <= n - i {
            is_sep = matches_at(s, i, sep);
        }
        if is_sep {
            proof {
                assert(s@.skip(pre_i).take(sep@.len() as int) =~= s@.subrange(
                    pre_i,
                    pre_i + sep@.len(),
                ));
                assert(s@.skip(pre_i).skip(sep@.len() as int) =~= s@.skip(pre_i + sep@.len()));
            }
            pieces.push(cur);
            cur = String::new();
            i = i + sep_n;
            proof {
                assert(pieces.deep_view() =~= pre_deep.push(pre_cur));
                assert(pre_deep.push(pre_cur) + split_rec(s@.skip(i as int), sep@, cur@)
                    =~= pre_deep + (seq![pre_cur] + split_rec(s@.skip(i as int), sep@, cur@)));
            }
        } else {
            proof {
                if pre_i + sep@.len() <= n {
                    assert(s@.skip(pre_i).take(sep@.len() as int) =~= s@.subrange(
                        pre_i,
                        pre_i + sep@.len(),
                    ));
                }
                assert(s@.skip(pre_i).drop_first() =~= s@.skip(pre_i + 1));
            }
            let c = s.substring_char(i, i + 1);
            cur.append(c);
            i = i + 1;
            proof {
                assert(cur@ =~= pre_cur.push(s@[pre_i]));
            }
        }
    }
    proof {
        assert(s@.skip(i as int) =~= Seq::<char>::empty());
        assert(cur@ + s@.skip(i as int) =~= cur@);
    }
    let ghost pre_deep = pieces.deep_view();
    let ghost pre_cur = cur@;
    pieces.push(cur);
    proof {
        assert(pieces.deep_view() =~= pre_deep.push(pre_cur));
        assert(pre_deep.push(pre_cur) =~= pre_deep + seq![pre_cur]);
    }
    pieces
}

/// Concatenate the tokens of the recognized codes from `from` on, dropping
/// the unrecognized ones.
fn concat_tokens(table: &SymbolTable, codes: &Vec<String>, from: usize) -> (r: String)
    requires
        table.wf(),
        from <= codes@.len(),
    ensures
        r@ == decode_codes(codes.deep_view().skip(from as int)),
    decreases codes@.len() - from,
{
    if from == codes.len() {
        proof {
            assert(codes.deep_view().skip(from as int) =~= Seq::<Seq<char>>::empty());
        }
        String::new()
    } else {
        let tok = table.lookup(codes[from].as_str());
        let rest = concat_tokens(table, codes, from + 1);
        proof {
            let cs = codes.deep_view().skip(from as int);
            assert(cs[0] == codes.deep_view()[from as int]);
            assert(cs.drop_first() =~= codes.deep_view().skip(from as int + 1));
        }
        match tok {
            Some(t) => t.concat(rest.as_str()),
            None => rest,
        }
    }
}

/// Decode one word: split it on single spaces and concatenate the tokens of
/// its recognized codes.
pub fn decode_word(table: &SymbolTable, word: &str) -> (r: String)
    requires
        table.wf(),
    ensures
        r@ == decode_word_spec(word@),
{
    proof {
        reveal_strlit(" ");
        assert(" "@ =~= symbol_sep());
    }
    let codes = split_str(word, " ");
    let r = concat_tokens(table, &codes, 0);
    proof {
        assert(codes.deep_view().skip(0) =~= codes.deep_view());
    }
    r
}

/// Decode the words from `from` on and join them with single spaces.
fn join_decoded(table: &SymbolTable, words: &Vec<String>, from: usize) -> (r: String)
    requires
        table.wf(),
        from <= words@.len(),
    ensures
        r@ == decode_words(words.deep_view().skip(from as int)),
    decreases words@.len() - from,
{
    if from == words.len() {
        proof {
            assert(words.deep_view().skip(from as int) =~= Seq::<Seq<char>>::empty());
        }
        String::new()
    } else {
        let first = decode_word(table, words[from].as_str());
        proof {
            let ws = words.deep_view().skip(from as int);
            assert(ws[0] == words.deep_view()[from as int]);
            assert(ws.drop_first() =~= words.deep_view().skip(from as int + 1));
        }
        if from + 1 == words.len() {
            first
        } else {
            let rest = join_decoded(table, words, from + 1);
            proof {
                reveal_strlit(" ");
                assert(" "@ =~= seq![' ']);
            }
            first.concat(" ").concat(rest.as_str())
        }
    }
}

/// Decode a Morse message: trim it, split it into words on exactly three
/// spaces, decode each word through the Symbol Table, and join the decoded
/// words with single spaces.
pub fn decode_morse(table: &SymbolTable, emc: EnMorseCode) -> (r: DeMorseCode)
    requires
        table.wf(),
    ensures
        r.decoded@ == decode_spec(emc.encoded@),
{
    let s = emc.encoded.as_str();
    let n = s.unicode_len();
    let start = scan_leading(s, 0);
    let end = scan_trailing(s, start, n);
    let trimmed = s.substring_char(start, end);
    proof {
        lemma_trim_start_at(s@, start as int);
        let tail = s@.skip(start as int);
        assert(forall|j: int|
            end - start <= j < tail.len() ==> is_unicode_space(#[trigger] tail[j]));
        lemma_trim_end_at(tail, end - start);
        assert(tail.take(end - start) =~= s@.subrange(start as int, end as int));
        reveal_strlit("   ");
        assert("   "@ =~= word_sep());
    }
    let words = split_str(trimmed, "   ");
    let decoded = join_decoded(table, &words, 0);
    proof {
        assert(words.deep_view().skip(0) =~= words.deep_view());
    }
    DeMorseCode { decoded }
}

} // verus!
