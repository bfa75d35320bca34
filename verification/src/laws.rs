use vstd::prelude::*;
use crate::decode::{
    decode_codes, decode_spec, decode_word_spec, decode_words, lemma_trim_end_at,
    lemma_trim_start_at, split_rec, split_spec, symbol_sep, trim_spec, trim_start_spec, word_sep,
};
use crate::table::{code_chars_ok, lemma_recognized_code_wf, spec_lookup};

verus! {

/// Codes joined into one word with a single space between neighbours.
pub open spec fn join_syms(codes: Seq<Seq<char>>) -> Seq<char>
    decreases codes.len(),
{
    if codes.len() == 0 {
        Seq::empty()
    } else if codes.len() == 1 {
        codes[0]
    } else {
        codes[0] + seq![' '] + join_syms(codes.drop_first())
    }
}

/// A separator that begins with a space never matches inside a text that
/// holds no space, so such a text splits into itself alone.
proof fn lemma_split_rec_no_space(s: Seq<char>, sep: Seq<char>, cur: Seq<char>)
    requires
        sep.len() > 0,
        sep[0] == ' ',
        forall|j: int| 0 <= j < s.len() ==> s[j] != ' ',
    ensures
        split_rec(s, sep, cur) == seq![cur + s],
    decreases s.len(),
{
    if s.len() == 0 {
    } else {
        if s.len() >= sep.len() && s.take(sep.len() as int) == sep {
            assert(s.take(sep.len() as int)[0] == s[0]);
            assert(false);
        }
        lemma_split_rec_no_space(s.drop_first(), sep, cur.push(s[0]));
        assert(cur.push(s[0]) + s.drop_first() =~= cur + s);
    }
}

/// Scanning a space-free prefix only moves it into the piece being read.
proof fn lemma_split_consume(c: Seq<char>, rest: Seq<char>, sep: Seq<char>, cur: Seq<char>)
    requires
        sep.len() > 0,
        sep[0] == ' ',
        forall|j: int| 0 <= j < c.len() ==> c[j] != ' ',
    ensures
        split_rec(c + rest, sep, cur) == split_rec(rest, sep, cur + c),
    decreases c.len(),
{
    if c.len() == 0 {
        assert(c + rest =~= rest);
        assert(cur + c =~= cur);
    } else {
        let s = c + rest;
        assert(s[0] == c[0]);
        if s.len() >= sep.len() && s.take(sep.len() as int) == sep {
            assert(s.take(sep.len() as int)[0] == s[0]);
            assert(false);
        }
        assert(s.drop_first() =~= c.drop_first() + rest);
        lemma_split_consume(c.drop_first(), rest, sep, cur.push(s[0]));
        assert(cur.push(s[0]) + c.drop_first() =~= cur + c);
    }
}

/// A separator whose first two characters are spaces never matches inside a
/// text with no two spaces side by side, so such a text splits into itself
/// alone.
proof fn lemma_split_rec_no_double_space(s: Seq<char>, sep: Seq<char>, cur: Seq<char>)
    requires
        sep.len() >= 2,
        sep[0] == ' ',
        sep[1] == ' ',
        forall|j: int| 0 <= j < s.len() - 1 ==> !((#[trigger] s[j]) == ' ' && s[j + 1] == ' '),
    ensures
        split_rec(s, sep, cur) == seq![cur + s],
    decreases s.len(),
{
    if s.len() == 0 {
    } else {
        if s.len() >= sep.len() && s.take(sep.len() as int) == sep {
            assert(s.take(sep.len() as int)[0] == s[0]);
            assert(s.take(sep.len() as int)[1] == s[1]);
            assert(false);
        }
        assert(forall|j: int|
            0 <= j < s.drop_first().len() - 1 ==> !((#[trigger] s.drop_first()[j]) == ' '
                && s.drop_first()[j + 1] == ' '));
        lemma_split_rec_no_double_space(s.drop_first(), sep, cur.push(s[0]));
        assert(cur.push(s[0]) + s.drop_first() =~= cur + s);
    }
}

/// The shape of a word joined from nonempty dot-dash codes: it begins and
/// ends with a dot or a dash, and no two spaces stand side by side in it.
proof fn lemma_join_syms_chars(codes: Seq<Seq<char>>)
    requires
        codes.len() > 0,
        forall|i: int| 0 <= i < codes.len() ==> code_chars_ok(#[trigger] codes[i]),
    ensures
        join_syms(codes).len() > 0,
        join_syms(codes)[0] == '.' || join_syms(codes)[0] == '-',
        join_syms(codes).last() == '.' || join_syms(codes).last() == '-',
        forall|j: int|
            0 <= j < join_syms(codes).len() - 1 ==> !((#[trigger] join_syms(codes)[j]) == ' '
                && join_syms(codes)[j + 1] == ' '),
    decreases codes.len(),
{
    let w = join_syms(codes);
    if codes.len() == 1 {
        assert(w == codes[0]);
        assert(forall|j: int| 0 <= j < w.len() - 1 ==> w[j] != ' ');
    } else {
        let c0 = codes[0];
        let rest = join_syms(codes.drop_first());
        assert(forall|i: int|
            0 <= i < codes.drop_first().len() ==> code_chars_ok(#[trigger] codes.drop_first()[i]));
        lemma_join_syms_chars(codes.drop_first());
        assert(w =~= c0 + seq![' '] + rest);
        assert(w[0] == c0[0]);
        assert(w.last() == rest.last());
        assert forall|j: int| 0 <= j < w.len() - 1 implies !((#[trigger] w[j]) == ' ' && w[j + 1]
            == ' ') by {
            if j < c0.len() {
                assert(w[j] == c0[j]);
            } else if j == c0.len() {
                assert(w[j + 1] == rest[0]);
            } else {
                assert(w[j] == rest[j - c0.len() - 1]);
                assert(w[j + 1] == rest[j - c0.len()]);
            }
        }
    }
}

/// Splitting on single spaces undoes joining with single spaces, as long as
/// every piece is a nonempty dot-dash code: the codes come back exactly, in
/// order, the first one behind whatever piece was already being read.
proof fn lemma_split_join_syms(codes: Seq<Seq<char>>, cur: Seq<char>)
    requires
        codes.len() > 0,
        forall|i: int| 0 <= i < codes.len() ==> code_chars_ok(#[trigger] codes[i]),
    ensures
        split_rec(join_syms(codes), symbol_sep(), cur) == seq![cur + codes[0]]
            + codes.drop_first(),
    decreases codes.len(),
{
    let sep = symbol_sep();
    assert(forall|j: int| 0 <= j < codes[0].len() ==> codes[0][j] != ' ');
    if codes.len() == 1 {
        lemma_split_rec_no_space(codes[0], sep, cur);
        assert(seq![cur + codes[0]] + codes.drop_first() =~= seq![cur + codes[0]]);
    } else {
        let c0 = codes[0];
        let rest = join_syms(codes.drop_first());
        let w = join_syms(codes);
        assert(w =~= c0 + (seq![' '] + rest));
        lemma_split_consume(c0, seq![' '] + rest, sep, cur);
        let s2 = seq![' '] + rest;
        assert(s2.len() >= sep.len());
        assert(s2.take(sep.len() as int) =~= sep);
        assert(s2.skip(sep.len() as int) =~= rest);
        assert(forall|i: int|
            0 <= i < codes.drop_first().len() ==> code_chars_ok(#[trigger] codes.drop_first()[i]));
        lemma_split_join_syms(codes.drop_first(), Seq::empty());
        let d = codes.drop_first();
        assert(Seq::<char>::empty() + d[0] =~= d[0]);
        assert(seq![Seq::<char>::empty() + d[0]] =~= seq![d[0]]);
        assert(seq![d[0]] + d.drop_first() =~= d);
        assert(split_rec(s2, sep, cur + c0) == seq![cur + c0] + split_rec(rest, sep, Seq::empty()));
        assert(split_rec(rest, sep, Seq::empty()) == d);
    }
}

/// Decoding a message that is exactly one code of the Symbol Table yields
/// exactly that code's token.
pub proof fn lemma_decode_symbol(code: Seq<char>)
    requires
        spec_lookup(code) is Some,
    ensures
        decode_spec(code) == spec_lookup(code).unwrap(),
{
    lemma_recognized_code_wf(code);
    assert(forall|j: int| 0 <= j < code.len() ==> code[j] != ' ');
    lemma_trim_start_at(code, 0);
    assert(code.skip(0) =~= code);
    assert(trim_start_spec(code) == code);
    lemma_trim_end_at(code, code.len() as int);
    assert(code.take(code.len() as int) =~= code);
    assert(trim_spec(code) == code);
    lemma_split_rec_no_space(code, word_sep(), Seq::empty());
    assert(Seq::<char>::empty() + code =~= code);
    assert(split_spec(code, word_sep()) == seq![code]);
    let ws = seq![code];
    assert(decode_words(ws) == decode_word_spec(code));
    lemma_split_rec_no_space(code, symbol_sep(), Seq::empty());
    assert(split_spec(code, symbol_sep()) == seq![code]);
    let cs = seq![code];
    assert(cs.drop_first() =~= Seq::<Seq<char>>::empty());
    assert(decode_codes(cs.drop_first()) == Seq::<char>::empty());
    assert(spec_lookup(code).unwrap() + Seq::<char>::empty() =~= spec_lookup(code).unwrap());
}

/// Decoding one word made of recognized codes joined by single spaces
/// yields the codes' tokens concatenated directly, with no separator.
pub proof fn lemma_decode_word_tokens(codes: Seq<Seq<char>>)
    requires
        codes.len() > 0,
        forall|i: int| 0 <= i < codes.len() ==> spec_lookup(#[trigger] codes[i]) is Some,
    ensures
        decode_spec(join_syms(codes)) == decode_codes(codes),
{
    assert forall|i: int| 0 <= i < codes.len() implies code_chars_ok(#[trigger] codes[i]) by {
        lemma_recognized_code_wf(codes[i]);
    }
    let w = join_syms(codes);
    lemma_join_syms_chars(codes);
    lemma_trim_start_at(w, 0);
    assert(w.skip(0) =~= w);
    assert(trim_start_spec(w) == w);
    lemma_trim_end_at(w, w.len() as int);
    assert(w.take(w.len() as int) =~= w);
    assert(trim_spec(w) == w);
    lemma_split_rec_no_double_space(w, word_sep(), Seq::empty());
    assert(Seq::<char>::empty() + w =~= w);
    assert(split_spec(w, word_sep()) == seq![w]);
    assert(decode_words(seq![w]) == decode_word_spec(w));
    lemma_split_join_syms(codes, Seq::empty());
    assert(Seq::<char>::empty() + codes[0] =~= codes[0]);
    assert(seq![Seq::<char>::empty() + codes[0]] =~= seq![codes[0]]);
    assert(seq![codes[0]] + codes.drop_first() =~= codes);
    assert(split_spec(w, symbol_sep()) == codes);
}

} // verus!
