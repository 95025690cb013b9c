//! What the operations on texts do, said character by character.

use crate::text;
use vstd::prelude::*;

verus! {

/// Law: numbers are written in decimal, digit by digit, with nothing in front but
/// the sign of a negative one.
pub proof fn law_numbers_are_written_in_decimal(
    n: u128,
    whole: String,
    front: String,
    i: i64,
    signed: String,
    magnitude: String,
)
    requires
        call_ensures(text::decimal_text, (n,), whole),
        call_ensures(text::decimal_text, ((n / 10) as u128,), front),
        call_ensures(text::signed_decimal_text, (i,), signed),
        i < 0 ==> call_ensures(text::decimal_text, ((-i) as u128,), magnitude),
        i >= 0 ==> call_ensures(text::decimal_text, (i as u128,), magnitude),
    ensures
        n < 10 ==> whole@ == seq![(48 + n) as char],
        n >= 10 ==> whole@ == front@.push((48 + n % 10) as char),
        i >= 0 ==> signed@ == magnitude@,
        i < 0 ==> signed@ == seq!['-'] + magnitude@,
{
}

/// Law: white space is what Unicode says it is.
pub proof fn law_white_space_is_that_of_unicode(c: char, yes: bool)
    requires
        call_ensures(text::is_space_char, (c,), yes),
    ensures
        yes <==> {
            let code = c as u32;
            ||| 9 <= code <= 13
            ||| code == 32
            ||| code == 0x85
            ||| code == 0xa0
            ||| code == 0x1680
            ||| 0x2000 <= code <= 0x200a
            ||| code == 0x2028
            ||| code == 0x2029
            ||| code == 0x202f
            ||| code == 0x205f
            ||| code == 0x3000
        },
{
}

/// Law: a flattened text has a space where a line feed was, and is otherwise the
/// same.
pub proof fn law_flattening_takes_away_line_feeds(given: &str, out: String, at: int)
    requires
        call_ensures(text::flatten, (given,), out),
    ensures
        out@.len() == given@.len(),
        0 <= at < out@.len() ==> out@[at] == if given@[at] == '\n' {
            ' '
        } else {
            given@[at]
        },
        !out@.contains('\n'),
{
}

/// Whether a text is made of white space alone.
pub open spec fn is_blank(s: Seq<char>) -> bool {
    forall|i: int| 0 <= i < s.len() ==> text::is_space(#[trigger] s[i])
}

proof fn lemma_start(before: Seq<char>, core: Seq<char>, strip: spec_fn(char) -> bool)
    requires
        forall|i: int| 0 <= i < before.len() ==> strip(#[trigger] before[i]),
        core.len() > 0 ==> !strip(core[0]),
    ensures
        text::trimmed_start(before + core, strip) == core,
    decreases before.len(),
{
    if before.len() == 0 {
        assert(before + core =~= core);
    } else {
        let rest = before.drop_first();
        assert((before + core).drop_first() =~= rest + core);
        assert(strip(before[0]));
        assert forall|i: int| 0 <= i < rest.len() implies strip(#[trigger] rest[i]) by {
            assert(strip(before[i + 1]));
        }
        lemma_start(rest, core, strip);
    }
}

proof fn lemma_end(core: Seq<char>, behind: Seq<char>, strip: spec_fn(char) -> bool)
    requires
        forall|i: int| 0 <= i < behind.len() ==> strip(#[trigger] behind[i]),
        core.len() > 0 ==> !strip(core.last()),
    ensures
        text::trimmed_end(core + behind, strip) == core,
    decreases behind.len(),
{
    if behind.len() == 0 {
        assert(core + behind =~= core);
    } else {
        let rest = behind.drop_last();
        assert((core + behind).drop_last() =~= core + rest);
        assert(strip(behind[behind.len() - 1]));
        assert forall|i: int| 0 <= i < rest.len() implies strip(#[trigger] rest[i]) by {
            assert(strip(behind[i]));
        }
        lemma_end(core, rest, strip);
    }
}

/// Law: trimming takes away the white space around a text, and nothing of the
/// text; a text of nothing but white space vanishes.
pub proof fn law_trimming_takes_away_what_is_around(
    given: &str,
    before: Seq<char>,
    core: Seq<char>,
    behind: Seq<char>,
    out: String,
)
    requires
        call_ensures(text::trim, (given,), out),
        given@ == before + core + behind,
        is_blank(before),
        is_blank(behind),
        core.len() > 0 ==> !text::is_space(core[0]) && !text::is_space(core.last()),
        core.len() == 0 ==> behind.len() == 0,
    ensures
        out@ == core,
{
    let strip = |c: char| text::is_space(c);
    assert(before + core + behind =~= before + (core + behind));
    if core.len() > 0 {
        assert((core + behind)[0] == core[0]);
    }
    lemma_start(before, core + behind, strip);
    lemma_end(core, behind, strip);
}

/// Law: unquoting takes away the quotation marks around a text, and nothing of
/// the text; at its start alone, those at its start.
pub proof fn law_unquoting_takes_away_the_marks(
    given: &str,
    before: Seq<char>,
    core: Seq<char>,
    behind: Seq<char>,
    out: String,
    begun: String,
)
    requires
        call_ensures(text::unquote, (given,), out),
        call_ensures(text::unquote_start, (given,), begun),
        given@ == before + core + behind,
        forall|i: int| 0 <= i < before.len() ==> (#[trigger] before[i] == '\'' || before[i] == '"'),
        forall|i: int| 0 <= i < behind.len() ==> (#[trigger] behind[i] == '\'' || behind[i] == '"'),
        core.len() > 0,
        core[0] != '\'' && core[0] != '"',
        core.last() != '\'' && core.last() != '"',
    ensures
        out@ == core,
        begun@ == core + behind,
{
    let strip = |c: char| text::is_quote(c);
    assert(before + core + behind =~= before + (core + behind));
    assert((core + behind)[0] == core[0]);
    assert forall|i: int| 0 <= i < before.len() implies strip(#[trigger] before[i]) by {
        assert(before[i] == '\'' || before[i] == '"');
    }
    assert forall|i: int| 0 <= i < behind.len() implies strip(#[trigger] behind[i]) by {
        assert(behind[i] == '\'' || behind[i] == '"');
    }
    lemma_start(before, core + behind, strip);
    lemma_end(core, behind, strip);
}

proof fn lemma_pieces_give_back(s: Seq<char>, sep: char)
    ensures
        text::pieces(s, sep).len() > 0,
        text::joined(text::pieces(s, sep), seq![sep]) == s,
        forall|i: int|
            0 <= i < text::pieces(s, sep).len() ==> !(#[trigger] text::pieces(s, sep)[i]).contains(
                sep,
            ),
    decreases s.len(),
{
    let all = text::pieces(s, sep);
    if s.len() == 0 {
        assert(text::joined(all, seq![sep]) =~= s);
    } else {
        let init = s.drop_last();
        let before = text::pieces(init, sep);
        lemma_pieces_give_back(init, sep);
        if s.last() == sep {
            assert(all.drop_last() =~= before);
            assert(text::joined(all, seq![sep]) =~= init + seq![sep]);
            assert(s =~= init + seq![sep]);
            assert forall|i: int| 0 <= i < all.len() implies !(#[trigger] all[i]).contains(
                sep,
            ) by {
                if i < before.len() {
                    assert(all[i] == before[i]);
                }
            }
        } else {
            let grown = before.last().push(s.last());
            assert(all == before.drop_last().push(grown));
            assert(all.drop_last() =~= before.drop_last());
            if before.len() == 1 {
                assert(text::joined(before, seq![sep]) == before[0]);
                assert(text::joined(all, seq![sep]) == grown);
                assert(grown =~= s);
            } else {
                let front = text::joined(before.drop_last(), seq![sep]);
                assert(init == front + seq![sep] + before.last());
                assert(text::joined(all, seq![sep]) == front + seq![sep] + grown);
                assert(s =~= init.push(s.last()));
                assert(front + seq![sep] + grown =~= (front + seq![sep] + before.last()).push(
                    s.last(),
                ));
            }
            assert forall|i: int| 0 <= i < all.len() implies !(#[trigger] all[i]).contains(
                sep,
            ) by {
                if i < before.len() - 1 {
                    assert(all[i] == before[i]);
                } else {
                    assert(!before[before.len() - 1].contains(sep));
                    assert forall|k: int| 0 <= k < grown.len() implies grown[k] != sep by {
                        if k < before.last().len() {
                            assert(before.last()[k] != sep);
                        }
                    }
                }
            }
        }
    }
}

/// Law: a text that is cut at a separator loses nothing. The pieces, joined by
/// the separator, are the text, and no piece holds the separator.
pub proof fn law_cutting_loses_nothing(
    given: &str,
    sep: char,
    parts: Vec<String>,
    between: &str,
    back: String,
    at: int,
)
    requires
        call_ensures(text::split, (given, sep), parts),
        between@ == seq![sep],
        call_ensures(text::join, (&parts, between), back),
    ensures
        back@ == given@,
        0 <= at < parts@.len() ==> !parts@[at]@.contains(sep),
        parts@.len() > 0,
{
    lemma_pieces_give_back(given@, sep);
    if 0 <= at < parts@.len() {
        assert(text::texts(parts@)[at] == parts@[at]@);
    }
}

/// Law: texts that are joined stand one behind the other, with the separator
/// between each two.
pub proof fn law_joining_keeps_the_order(
    parts: Vec<String>,
    from: usize,
    sep: &str,
    out: String,
    shorter: Vec<String>,
    last: String,
    rest: String,
)
    requires
        from <= parts@.len(),
        call_ensures(text::join_from, (&parts, from, sep), out),
        parts@ == shorter@.push(last),
        from <= shorter@.len(),
        call_ensures(text::join_from, (&shorter, from, sep), rest),
    ensures
        from == shorter@.len() ==> out@ == last@,
        from < shorter@.len() ==> out@ == rest@ + sep@ + last@,
{
    let all = text::texts(parts@).skip(from as int);
    let less = text::texts(shorter@).skip(from as int);
    assert(text::texts(parts@) =~= text::texts(shorter@).push(last@));
    assert(all =~= less.push(last@));
    assert(less.push(last@).drop_last() =~= less);
}

/// Law: the words of a text are what stands between its white space. White space
/// at the end adds none, and what is written behind white space is a word of its
/// own.
pub proof fn law_words_stand_between_white_space(
    a: &str,
    b: &str,
    c: &str,
    space: char,
    word: Seq<char>,
    of_a: Vec<String>,
    of_b: Vec<String>,
    of_c: Vec<String>,
)
    requires
        text::is_space(space),
        word.len() > 0,
        forall|i: int| 0 <= i < word.len() ==> !text::is_space(#[trigger] word[i]),
        b@ == a@.push(space),
        c@ == a@.push(space) + word,
        call_ensures(text::split_words, (a,), of_a),
        call_ensures(text::split_words, (b,), of_b),
        call_ensures(text::split_words, (c,), of_c),
    ensures
        text::texts(of_b@) == text::texts(of_a@),
        text::texts(of_c@) == text::texts(of_a@).push(word),
        a@ == word ==> text::texts(of_a@) == seq![word],
        a@.len() == 0 ==> of_a@.len() == 0,
{
    assert(b@.drop_last() =~= a@);
    lemma_word_behind(b@, word);
    assert(text::texts(of_a@).len() == of_a@.len());
    if a@ == word {
        let nothing = Seq::<char>::empty();
        lemma_word_behind(nothing, word);
        assert(nothing + word =~= word);
        assert(text::words(nothing) =~= Seq::<Seq<char>>::empty());
        assert(text::words(word) =~= seq![word]);
    }
}

proof fn lemma_word_behind(front: Seq<char>, word: Seq<char>)
    requires
        word.len() > 0,
        forall|i: int| 0 <= i < word.len() ==> !text::is_space(#[trigger] word[i]),
        front.len() > 0 ==> text::is_space(front.last()),
    ensures
        text::words(front + word) == text::words(front).push(word),
    decreases word.len(),
{
    let whole = front + word;
    assert(!text::is_space(word[word.len() - 1]));
    if word.len() == 1 {
        assert(whole.drop_last() =~= front);
        assert(seq![word.last()] =~= word);
    } else {
        let shorter = word.drop_last();
        assert forall|i: int| 0 <= i < shorter.len() implies !text::is_space(
            #[trigger] shorter[i],
        ) by {
            assert(!text::is_space(word[i]));
        }
        lemma_word_behind(front, shorter);
        assert(whole.drop_last() =~= front + shorter);
        assert(!text::is_space(word[word.len() - 2]));
        assert(whole[whole.len() - 2] == word[word.len() - 2]);
        let before = text::words(front + shorter);
        assert(before.drop_last() =~= text::words(front));
        assert(before.last().push(word.last()) =~= word);
    }
}

/// Law: a text is found in another exactly where the other is that text with
/// something before and behind it; at the start nothing stands before it, and at
/// the end nothing behind it.
pub proof fn law_texts_are_found_in_texts(
    hay: &str,
    needle: &str,
    inside: bool,
    first: bool,
    last: bool,
    before: Seq<char>,
    behind: Seq<char>,
)
    requires
        call_ensures(text::contains, (hay, needle), inside),
        call_ensures(text::starts_with, (hay, needle), first),
        call_ensures(text::ends_with, (hay, needle), last),
    ensures
        hay@ == before + needle@ + behind ==> inside,
        hay@ == needle@ + behind ==> first,
        hay@ == before + needle@ ==> last,
        inside ==> exists|a: Seq<char>, b: Seq<char>| #[trigger] (a + needle@ + b) == hay@,
        first ==> exists|b: Seq<char>| #[trigger] (needle@ + b) == hay@,
        last ==> exists|a: Seq<char>| #[trigger] (a + needle@) == hay@,
{
    let size = needle@.len() as int;
    if hay@ == before + needle@ + behind {
        let at = before.len() as int;
        assert(hay@.subrange(at, at + size) =~= needle@);
        assert(text::stands_at(hay@, needle@, at));
    }
    if hay@ == needle@ + behind {
        assert(hay@.subrange(0, size) =~= needle@);
    }
    if hay@ == before + needle@ {
        assert(hay@.subrange(hay@.len() - size, hay@.len() as int) =~= needle@);
    }
    if inside {
        let at = choose|at: int| text::stands_at(hay@, needle@, at);
        assert(hay@.take(at) + needle@ + hay@.skip(at + size) =~= hay@);
    }
    if first {
        assert(needle@ + hay@.skip(size) =~= hay@);
    }
    if last {
        assert(hay@.take(hay@.len() - size) + needle@ =~= hay@);
    }
}

/// Law: a prefix is taken off where it stands, once, and otherwise nothing is.
pub proof fn law_prefixes_are_taken_off_once(
    given: &str,
    prefix: &str,
    rest: Seq<char>,
    out: String,
    first: bool,
)
    requires
        call_ensures(text::strip_prefix_or_keep, (given, prefix), out),
        call_ensures(text::starts_with, (given, prefix), first),
    ensures
        given@ == prefix@ + rest ==> out@ == rest,
        !first ==> out@ == given@,
        first ==> prefix@ + out@ == given@,
{
    let size = prefix@.len() as int;
    if given@ == prefix@ + rest {
        assert(given@.subrange(0, size) =~= prefix@);
        assert(given@.skip(size) =~= rest);
    }
    if first {
        assert(prefix@ + given@.skip(size) =~= given@);
    }
}

/// Law: a text of whole lines is cut into them, without their line feeds and
/// without the carriage returns before those; what stands behind the last line
/// feed is a line of its own.
pub proof fn law_lines_end_in_line_feeds(
    a: &str,
    b: &str,
    c: &str,
    d: &str,
    line: Seq<char>,
    of_a: Vec<String>,
    of_b: Vec<String>,
    of_c: Vec<String>,
    of_d: Vec<String>,
)
    requires
        !line.contains('\n'),
        line.len() > 0,
        line.last() != '\r',
        a@.len() > 0 ==> a@.last() == '\n',
        b@ == a@ + line,
        c@ == a@ + line.push('\n'),
        d@ == a@ + line.push('\r').push('\n'),
        call_ensures(text::split_lines, (a,), of_a),
        call_ensures(text::split_lines, (b,), of_b),
        call_ensures(text::split_lines, (c,), of_c),
        call_ensures(text::split_lines, (d,), of_d),
    ensures
        text::texts(of_b@) == text::texts(of_a@).push(line),
        text::texts(of_c@) == text::texts(of_a@).push(line),
        text::texts(of_d@) == text::texts(of_a@).push(line),
        a@.len() == 0 ==> of_a@.len() == 0,
{
    let before = text::pieces(a@, '\n');
    text::lemma_pieces_nonempty(a@, '\n');
    assert(before.last() =~= Seq::<char>::empty());
    let none = Seq::<char>::empty();
    text::lemma_pieces_grow(a@, line, '\n');
    assert(none + line =~= line);
    assert(text::pieces(b@, '\n') == before.drop_last().push(line));
    let long = line.push('\r');
    assert forall|i: int| 0 <= i < long.len() implies long[i] != '\n' by {
        if i < line.len() {
            assert(line[i] != '\n');
        }
    }
    text::lemma_pieces_grow(a@, long, '\n');
    assert(none + long =~= long);
    assert(c@.drop_last() =~= b@);
    assert(c@.last() == '\n');
    assert(d@.drop_last() =~= a@ + long);
    assert(d@.last() == '\n');
    let cut = |piece: Seq<char>| text::without_cr(piece);
    let ended = before.drop_last().map_values(cut);
    assert(text::pieces(b@, '\n').drop_last() =~= before.drop_last());
    assert(text::lines_of(b@) =~= ended.push(line));
    let of_c_pieces = text::pieces(c@, '\n');
    assert(of_c_pieces =~= before.drop_last().push(line).push(none));
    assert(of_c_pieces.drop_last() =~= before.drop_last().push(line));
    assert(text::without_cr(line) == line);
    assert(of_c_pieces.drop_last().map_values(cut) =~= ended.push(line));
    assert(text::lines_of(c@) =~= ended.push(line));
    let of_d_pieces = text::pieces(d@, '\n');
    assert(of_d_pieces =~= before.drop_last().push(long).push(none));
    assert(of_d_pieces.drop_last() =~= before.drop_last().push(long));
    assert(long.drop_last() =~= line);
    assert(text::without_cr(long) == line);
    assert(of_d_pieces.drop_last().map_values(cut) =~= ended.push(line));
    assert(text::lines_of(d@) =~= ended.push(line));
    assert(text::lines_of(a@) =~= ended);
}

/// Whether two characters are the same letter of ASCII in either case, or the
/// same character.
pub open spec fn same_letter(a: char, b: char) -> bool {
    ||| a == b
    ||| 'A' <= a <= 'Z' && b as int == a as int + 32
    ||| 'A' <= b <= 'Z' && a as int == b as int + 32
}

/// Law: texts are compared without regard to the case of ASCII letters, and with
/// regard to everything else.
pub proof fn law_case_of_ascii_letters_does_not_matter(a: &str, b: &str, same: bool)
    requires
        call_ensures(text::equal_ignoring_ascii_case, (a, b), same),
    ensures
        same <==> a@.len() == b@.len() && forall|i: int|
            0 <= i < a@.len() ==> same_letter(#[trigger] a@[i], b@[i]),
{
    let lower = |c: char| text::ascii_lower(c);
    let x = a@.map_values(lower);
    let y = b@.map_values(lower);
    assert(forall|p: char, q: char|
        same_letter(p, q) <==> #[trigger] text::ascii_lower(p) == #[trigger] text::ascii_lower(q));
    if same {
        assert(x == y);
        assert forall|i: int| 0 <= i < a@.len() implies same_letter(#[trigger] a@[i], b@[i]) by {
            assert(x[i] == y[i]);
            assert(x[i] == text::ascii_lower(a@[i]));
            assert(y[i] == text::ascii_lower(b@[i]));
        }
        assert(x.len() == y.len());
    }
    if a@.len() == b@.len() && forall|i: int|
        0 <= i < a@.len() ==> same_letter(#[trigger] a@[i], b@[i]) {
        assert forall|i: int| 0 <= i < x.len() implies x[i] == y[i] by {
            assert(same_letter(a@[i], b@[i]));
            assert(x[i] == text::ascii_lower(a@[i]));
            assert(y[i] == text::ascii_lower(b@[i]));
        }
        assert(x =~= y);
    }
}

/// Law: texts are ordered by the first character in which they differ, and a text
/// comes before every longer one that begins with it.
pub proof fn law_texts_are_ordered_by_their_first_difference(
    a: &str,
    b: &str,
    same: Seq<char>,
    x: char,
    y: char,
    p: Seq<char>,
    q: Seq<char>,
    yes: bool,
    back: bool,
)
    requires
        call_ensures(text::at_most, (a, b), yes),
        call_ensures(text::at_most, (b, a), back),
    ensures
        a@ == same + seq![x] + p && b@ == same + seq![y] + q && x < y ==> yes && !back,
        b@ == a@ + q ==> yes,
        b@ == a@ + q && q.len() > 0 ==> !back,
        yes || back,
        yes && back ==> a@ == b@,
{
    text::lemma_text_le_total(a@, b@);
    if a@ == same + seq![x] + p && b@ == same + seq![y] + q && x < y {
        lemma_difference_decides(same, x, y, p, q);
    }
    if b@ == a@ + q {
        lemma_prefix_comes_first(a@, q);
    }
    if yes && back {
        lemma_order_is_strict(a@, b@);
    }
}

proof fn lemma_difference_decides(
    same: Seq<char>,
    x: char,
    y: char,
    p: Seq<char>,
    q: Seq<char>,
)
    requires
        x < y,
    ensures
        text::text_le(same + seq![x] + p, same + seq![y] + q),
        !text::text_le(same + seq![y] + q, same + seq![x] + p),
    decreases same.len(),
{
    let a = same + seq![x] + p;
    let b = same + seq![y] + q;
    if same.len() > 0 {
        let rest = same.drop_first();
        assert(a.drop_first() =~= rest + seq![x] + p);
        assert(b.drop_first() =~= rest + seq![y] + q);
        lemma_difference_decides(rest, x, y, p, q);
    } else {
        assert(a[0] == x);
        assert(b[0] == y);
    }
}

proof fn lemma_prefix_comes_first(a: Seq<char>, q: Seq<char>)
    ensures
        text::text_le(a, a + q),
        q.len() > 0 ==> !text::text_le(a + q, a),
    decreases a.len(),
{
    if a.len() > 0 {
        assert((a + q).drop_first() =~= a.drop_first() + q);
        lemma_prefix_comes_first(a.drop_first(), q);
    }
}

proof fn lemma_order_is_strict(a: Seq<char>, b: Seq<char>)
    requires
        text::text_le(a, b),
        text::text_le(b, a),
    ensures
        a == b,
    decreases a.len(),
{
    if a.len() > 0 && b.len() > 0 {
        lemma_order_is_strict(a.drop_first(), b.drop_first());
        assert(a =~= seq![a[0]] + a.drop_first());
        assert(b =~= seq![b[0]] + b.drop_first());
    } else {
        assert(a =~= b);
    }
}

/// Law: copies are the same, and texts are the same where their characters are.
pub proof fn law_copies_are_the_same(
    o: Option<String>,
    copy: Option<String>,
    a: &str,
    b: &str,
    same: bool,
    two: String,
)
    requires
        call_ensures(text::clone_opt, (&o,), copy),
        call_ensures(text::same_text, (a, b), same),
        call_ensures(text::cat2, (a, b), two),
    ensures
        copy == o,
        same <==> a@ == b@,
        two@ == a@ + b@,
{
}

} // verus!
