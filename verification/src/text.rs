//! Text primitives: everything the other modules say about strings is said
//! here, over `Seq<char>`.

use vstd::prelude::*;

verus! {

/// `String::push` appends one character at the end and leaves what was there
/// before it unchanged.
pub assume_specification[ String::push ](string: &mut String, c: char)
    ensures
        final(string)@ == old(string)@.push(c),
;

/// The characters of `text`, in order.
pub fn chars_of(text: &str) -> (chars: Vec<char>)
    ensures
        chars@ == text@,
{
    let mut chars: Vec<char> = Vec::new();
    for c in it: text.chars()
        invariant
            it.seq() == text@,
            chars@ == text@.take(it.index() as int),
    {
        chars.push(c);
        assert(text@.take(it.index() + 1) =~= text@.take(it.index() as int).push(c));
    }
    assert(text@.take(text@.len() as int) =~= text@);
    chars
}

/// The text made of `chars[from..to]`.
pub fn text_between(chars: &Vec<char>, from: usize, to: usize) -> (text: String)
    requires
        from <= to <= chars@.len(),
    ensures
        text@ == chars@.subrange(from as int, to as int),
{
    let mut text = String::new();
    let mut at: usize = from;
    assert(chars@.subrange(from as int, from as int) =~= Seq::<char>::empty());
    while at < to
        invariant
            from <= at <= to <= chars@.len(),
            text@ == chars@.subrange(from as int, at as int),
        decreases to - at,
    {
        text.push(chars[at]);
        at = at + 1;
        assert(chars@.subrange(from as int, at as int) =~= chars@.subrange(
            from as int,
            at - 1,
        ).push(chars@[at - 1]));
    }
    text
}

/// The text of an optional string.
pub open spec fn opt_text(o: Option<String>) -> Option<Seq<char>> {
    match o {
        Some(t) => Some(t@),
        None => None,
    }
}

/// A copy of an optional string.
pub fn clone_opt(o: &Option<String>) -> (out: Option<String>)
    ensures
        out == *o,
{
    match o {
        Some(t) => Some(t.clone()),
        None => None,
    }
}

/// Whether two texts are the same, character by character.
pub fn same_text(a: &str, b: &str) -> (same: bool)
    ensures
        same == (a@ == b@),
{
    let left = a.to_owned();
    let right = b.to_owned();
    left == right
}

/// `s` itself where it has at most `max` characters; otherwise its first `max`
/// characters and an ellipsis.
pub open spec fn clipped(s: Seq<char>, max: nat) -> Seq<char> {
    if s.len() <= max {
        s
    } else {
        s.take(max as int).push('…')
    }
}

/// Cuts `text` down to `max_chars` characters. Counts characters, not bytes,
/// and marks a cut with an ellipsis.
pub fn clip(text: &str, max_chars: usize) -> (out: String)
    ensures
        out@ == clipped(text@, max_chars as nat),
{
    let chars = chars_of(text);
    if chars.len() <= max_chars {
        assert(chars@.subrange(0, chars@.len() as int) =~= chars@);
        text_between(&chars, 0, chars.len())
    } else {
        let mut out = text_between(&chars, 0, max_chars);
        out.push('…');
        assert(out@ =~= text@.take(max_chars as int).push('…'));
        out
    }
}

/// `s` with a space in place of every line feed.
pub open spec fn on_one_line(s: Seq<char>) -> Seq<char> {
    s.map_values(
        |c: char|
            if c == '\n' {
                ' '
            } else {
                c
            },
    )
}

/// The text with a space in place of every line feed.
pub fn flatten(text: &str) -> (out: String)
    ensures
        out@ == on_one_line(text@),
{
    let chars = chars_of(text);
    let mut out = String::new();
    let mut at: usize = 0;
    assert(out@ =~= on_one_line(text@).take(0));
    while at < chars.len()
        invariant
            at <= chars@.len(),
            chars@ == text@,
            out@ == on_one_line(text@).take(at as int),
        decreases chars@.len() - at,
    {
        let c = chars[at];
        if c == '\n' {
            out.push(' ');
        } else {
            out.push(c);
        }
        assert(on_one_line(text@).take(at + 1) =~= on_one_line(text@).take(at as int).push(
            on_one_line(text@)[at as int],
        ));
        at = at + 1;
    }
    assert(on_one_line(text@).take(at as int) =~= on_one_line(text@));
    out
}

/// Law: a clipped text is never longer than the limit and its ellipsis, and
/// clipping again changes nothing as long as the limit leaves room for it.
pub proof fn law_clipped_is_bounded_and_stable(s: Seq<char>, max: nat)
    ensures
        clipped(s, max).len() <= max + 1,
        clipped(clipped(s, max), max + 1) == clipped(s, max),
{
}

/// The character of the decimal digit `d`.
pub open spec fn digit_char(d: nat) -> char {
    (48 + d) as char
}

/// Whether `c` is one of `0` to `9`.
pub open spec fn is_digit(c: char) -> bool {
    '0' <= c <= '9'
}

/// The number that the digit `c` stands for.
pub open spec fn digit_value(c: char) -> nat {
    (c as int - 48) as nat
}

/// `n` in decimal, without leading zeros.
pub open spec fn decimal(n: nat) -> Seq<char>
    decreases n,
{
    if n < 10 {
        seq![digit_char(n)]
    } else {
        decimal(n / 10).push(digit_char(n % 10))
    }
}

/// `i` in decimal, with a minus sign where it is negative.
pub open spec fn signed_decimal(i: int) -> Seq<char> {
    if i < 0 {
        seq!['-'] + decimal((-i) as nat)
    } else {
        decimal(i as nat)
    }
}

/// The number that a run of decimal digits stands for.
pub open spec fn decimal_value(digits: Seq<char>) -> nat
    decreases digits.len(),
{
    if digits.len() == 0 {
        0
    } else {
        decimal_value(digits.drop_last()) * 10 + digit_value(digits.last())
    }
}

/// Whether `s` is made of decimal digits alone, and of at least one.
pub open spec fn is_digits(s: Seq<char>) -> bool {
    s.len() > 0 && forall|i: int| 0 <= i < s.len() ==> is_digit(#[trigger] s[i])
}

/// Law: the decimal text of a number is made of digits, and reads back as that
/// number.
pub proof fn law_decimal_reads_back(n: nat)
    ensures
        is_digits(decimal(n)),
        decimal_value(decimal(n)) == n,
    decreases n,
{
    assert(forall|d: nat| d < 10 ==> is_digit(#[trigger] digit_char(d)) && digit_value(digit_char(d))
        == d);
    if n < 10 {
        assert(decimal(n).drop_last() =~= Seq::<char>::empty());
        assert(decimal_value(decimal(n).drop_last()) == 0);
    } else {
        law_decimal_reads_back(n / 10);
        assert(decimal(n).drop_last() =~= decimal(n / 10));
    }
}

fn digit_of(d: u8) -> (c: char)
    requires
        d < 10,
    ensures
        c == digit_char(d as nat),
{
    (48 + d) as char
}

/// `n` in decimal.
pub fn decimal_text(n: u128) -> (text: String)
    ensures
        text@ == decimal(n as nat),
    decreases n,
{
    let mut text = if n < 10 {
        String::new()
    } else {
        decimal_text(n / 10)
    };
    text.push(digit_of((n % 10) as u8));
    assert(n < 10 ==> text@ =~= decimal(n as nat));
    text
}

/// `i` in decimal, with a minus sign where it is negative.
pub fn signed_decimal_text(i: i64) -> (text: String)
    ensures
        text@ == signed_decimal(i as int),
{
    if i < 0 {
        let mut text = String::new();
        text.push('-');
        let magnitude = decimal_text((-(i as i128)) as u128);
        text.append(magnitude.as_str());
        assert(text@ =~= signed_decimal(i as int));
        text
    } else {
        decimal_text(i as u128)
    }
}

/// Whether `c` is white space in the sense of Unicode's `White_Space` property.
pub open spec fn is_space(c: char) -> bool {
    ||| '\u{9}' <= c <= '\u{d}'
    ||| c == '\u{20}'
    ||| c == '\u{85}'
    ||| c == '\u{a0}'
    ||| c == '\u{1680}'
    ||| '\u{2000}' <= c <= '\u{200a}'
    ||| c == '\u{2028}'
    ||| c == '\u{2029}'
    ||| c == '\u{202f}'
    ||| c == '\u{205f}'
    ||| c == '\u{3000}'
}

/// Whether `c` is white space.
pub fn is_space_char(c: char) -> (yes: bool)
    ensures
        yes == is_space(c),
{
    ('\u{9}' <= c && c <= '\u{d}') || c == '\u{20}' || c == '\u{85}' || c == '\u{a0}' || c
        == '\u{1680}' || ('\u{2000}' <= c && c <= '\u{200a}') || c == '\u{2028}' || c == '\u{2029}'
        || c == '\u{202f}' || c == '\u{205f}' || c == '\u{3000}'
}

/// Whether `c` is a single or a double quotation mark.
pub open spec fn is_quote(c: char) -> bool {
    c == '\'' || c == '"'
}

/// `s` without the characters at its start for which `strip` holds.
pub open spec fn trimmed_start(s: Seq<char>, strip: spec_fn(char) -> bool) -> Seq<char>
    decreases s.len(),
{
    if s.len() > 0 && strip(s.first()) {
        trimmed_start(s.drop_first(), strip)
    } else {
        s
    }
}

/// `s` without the characters at its end for which `strip` holds.
pub open spec fn trimmed_end(s: Seq<char>, strip: spec_fn(char) -> bool) -> Seq<char>
    decreases s.len(),
{
    if s.len() > 0 && strip(s.last()) {
        trimmed_end(s.drop_last(), strip)
    } else {
        s
    }
}

/// `s` without the characters at either end for which `strip` holds.
pub open spec fn trimmed_both(s: Seq<char>, strip: spec_fn(char) -> bool) -> Seq<char> {
    trimmed_end(trimmed_start(s, strip), strip)
}

/// `s` without white space around it.
pub open spec fn trimmed(s: Seq<char>) -> Seq<char> {
    trimmed_both(s, |c: char| is_space(c))
}

/// `s` without quotation marks around it.
pub open spec fn unquoted(s: Seq<char>) -> Seq<char> {
    trimmed_both(s, |c: char| is_quote(c))
}

/// The characters that one kind of trimming takes away: quotation marks, or
/// white space.
pub open spec fn edge(quotes: bool) -> spec_fn(char) -> bool {
    if quotes {
        |c: char| is_quote(c)
    } else {
        |c: char| is_space(c)
    }
}

fn is_edge(quotes: bool, c: char) -> (yes: bool)
    ensures
        yes == edge(quotes)(c),
{
    if quotes {
        c == '\'' || c == '"'
    } else {
        is_space_char(c)
    }
}

fn skip_start(chars: &Vec<char>, quotes: bool) -> (at: usize)
    ensures
        at <= chars@.len(),
        chars@.subrange(at as int, chars@.len() as int) == trimmed_start(chars@, edge(quotes)),
{
    let mut at: usize = 0;
    assert(chars@.subrange(0, chars@.len() as int) =~= chars@);
    while at < chars.len() && is_edge(quotes, chars[at])
        invariant
            at <= chars@.len(),
            trimmed_start(chars@.subrange(at as int, chars@.len() as int), edge(quotes))
                == trimmed_start(chars@, edge(quotes)),
        decreases chars@.len() - at,
    {
        assert(chars@.subrange(at as int, chars@.len() as int).drop_first() =~= chars@.subrange(
            at + 1,
            chars@.len() as int,
        ));
        at = at + 1;
    }
    at
}

fn skip_end(chars: &Vec<char>, from: usize, quotes: bool) -> (to: usize)
    requires
        from <= chars@.len(),
    ensures
        from <= to <= chars@.len(),
        chars@.subrange(from as int, to as int) == trimmed_end(
            chars@.subrange(from as int, chars@.len() as int),
            edge(quotes),
        ),
{
    let mut to: usize = chars.len();
    while from < to && is_edge(quotes, chars[to - 1])
        invariant
            from <= to <= chars@.len(),
            trimmed_end(chars@.subrange(from as int, to as int), edge(quotes)) == trimmed_end(
                chars@.subrange(from as int, chars@.len() as int),
                edge(quotes),
            ),
        decreases to,
    {
        assert(chars@.subrange(from as int, to as int).drop_last() =~= chars@.subrange(
            from as int,
            to - 1,
        ));
        to = to - 1;
    }
    to
}

/// `text` without white space around it.
pub fn trim(text: &str) -> (out: String)
    ensures
        out@ == trimmed(text@),
{
    let chars = chars_of(text);
    let from = skip_start(&chars, false);
    let to = skip_end(&chars, from, false);
    text_between(&chars, from, to)
}

/// `text` without quotation marks around it.
pub fn unquote(text: &str) -> (out: String)
    ensures
        out@ == unquoted(text@),
{
    let chars = chars_of(text);
    let from = skip_start(&chars, true);
    let to = skip_end(&chars, from, true);
    text_between(&chars, from, to)
}

/// `text` without the quotation marks at its start.
pub fn unquote_start(text: &str) -> (out: String)
    ensures
        out@ == trimmed_start(text@, |c: char| is_quote(c)),
{
    let chars = chars_of(text);
    let from = skip_start(&chars, true);
    text_between(&chars, from, chars.len())
}

/// The texts of a list of strings.
pub open spec fn texts(list: Seq<String>) -> Seq<Seq<char>> {
    list.map_values(|t: String| t@)
}

/// `s` cut at every `sep`: always one piece more than there are separators.
pub open spec fn pieces(s: Seq<char>, sep: char) -> Seq<Seq<char>>
    decreases s.len(),
{
    if s.len() == 0 {
        seq![Seq::empty()]
    } else {
        let before = pieces(s.drop_last(), sep);
        if s.last() == sep {
            before.push(Seq::empty())
        } else {
            before.drop_last().push(before.last().push(s.last()))
        }
    }
}

/// There is always at least one piece.
pub proof fn lemma_pieces_nonempty(s: Seq<char>, sep: char)
    ensures
        pieces(s, sep).len() > 0,
    decreases s.len(),
{
    if s.len() > 0 {
        lemma_pieces_nonempty(s.drop_last(), sep);
    }
}

/// A text in which `sep` does not occur only lengthens the last piece of what
/// stands before it.
pub proof fn lemma_pieces_grow(a: Seq<char>, b: Seq<char>, sep: char)
    requires
        !b.contains(sep),
    ensures
        pieces(a + b, sep) == pieces(a, sep).drop_last().push(pieces(a, sep).last() + b),
    decreases b.len(),
{
    lemma_pieces_nonempty(a, sep);
    if b.len() == 0 {
        assert(a + b =~= a);
        assert(pieces(a, sep).last() + b =~= pieces(a, sep).last());
        assert(pieces(a, sep).drop_last().push(pieces(a, sep).last()) =~= pieces(a, sep));
    } else {
        let shorter = b.drop_last();
        assert forall|i: int| 0 <= i < shorter.len() implies shorter[i] != sep by {
            assert(b[i] != sep);
        }
        lemma_pieces_grow(a, shorter, sep);
        assert(b[b.len() - 1] != sep);
        assert((a + b).drop_last() =~= a + shorter);
        assert((a + b).last() == b.last());
        assert(pieces(a, sep).last() + b =~= (pieces(a, sep).last() + shorter).push(b.last()));
        assert(pieces(a + b, sep) =~= pieces(a, sep).drop_last().push(pieces(a, sep).last() + b));
    }
}

/// Joining texts in which `sep` does not occur, and cutting the outcome at
/// `sep`, gives the texts back.
pub proof fn lemma_pieces_of_joined(parts: Seq<Seq<char>>, sep: char)
    requires
        parts.len() > 0,
        forall|i: int| 0 <= i < parts.len() ==> !(#[trigger] parts[i]).contains(sep),
    ensures
        pieces(joined(parts, seq![sep]), sep) == parts,
    decreases parts.len(),
{
    let last = parts.last();
    if parts.len() == 1 {
        lemma_pieces_grow(Seq::empty(), last, sep);
        assert(Seq::<char>::empty() + last =~= last);
        assert(pieces(Seq::<char>::empty(), sep) =~= seq![Seq::<char>::empty()]);
        assert(pieces(last, sep) =~= parts);
    } else {
        let init = parts.drop_last();
        assert forall|i: int| 0 <= i < init.len() implies !(#[trigger] init[i]).contains(sep) by {
            assert(init[i] == parts[i]);
        }
        lemma_pieces_of_joined(init, sep);
        let head = joined(init, seq![sep]);
        let cut = head + seq![sep];
        assert(cut.drop_last() =~= head);
        assert(cut.last() == sep);
        assert(pieces(cut, sep) =~= init.push(Seq::empty()));
        lemma_pieces_grow(cut, last, sep);
        assert(pieces(cut, sep).drop_last() =~= init);
        assert(Seq::<char>::empty() + last =~= last);
        assert(init.push(last) =~= parts);
    }
}

/// The length of a text is that of its pieces and of the separators between
/// them.
pub proof fn lemma_pieces_length(s: Seq<char>, sep: char)
    ensures
        s.len() + 1 == total_length(pieces(s, sep)) + pieces(s, sep).len(),
    decreases s.len(),
{
    if s.len() == 0 {
        assert(pieces(s, sep).drop_last() =~= Seq::<Seq<char>>::empty());
        assert(total_length(pieces(s, sep).drop_last()) == 0);
    } else {
        let before = pieces(s.drop_last(), sep);
        lemma_pieces_nonempty(s.drop_last(), sep);
        lemma_pieces_length(s.drop_last(), sep);
        assert(pieces(s, sep).drop_last() =~= if s.last() == sep {
            before
        } else {
            before.drop_last()
        });
    }
}

/// The length of all texts of a list together.
pub open spec fn total_length(list: Seq<Seq<char>>) -> nat
    decreases list.len(),
{
    if list.len() == 0 {
        0
    } else {
        total_length(list.drop_last()) + list.last().len()
    }
}

/// The length of a joined text is that of its parts and of the separators
/// between them.
pub proof fn lemma_joined_length(parts: Seq<Seq<char>>, sep: char)
    requires
        parts.len() > 0,
    ensures
        joined(parts, seq![sep]).len() + 1 == total_length(parts) + parts.len(),
    decreases parts.len(),
{
    if parts.len() == 1 {
        assert(parts.drop_last() =~= Seq::<Seq<char>>::empty());
        assert(total_length(parts.drop_last()) == 0);
    } else {
        lemma_joined_length(parts.drop_last(), sep);
    }
}

/// A text that neither starts nor ends with white space is left as it is by
/// trimming.
pub proof fn lemma_nothing_to_trim(s: Seq<char>)
    requires
        s.len() > 0,
        !is_space(s.first()),
        !is_space(s.last()),
    ensures
        trimmed(s) == s,
{
}

/// Trimming never makes a text longer.
pub proof fn lemma_trimmed_is_shorter(s: Seq<char>)
    ensures
        trimmed(s).len() <= s.len(),
{
    lemma_trimmed_start_is_shorter(s, |c: char| is_space(c));
    lemma_trimmed_end_is_shorter(
        trimmed_start(s, |c: char| is_space(c)),
        |c: char| is_space(c),
    );
}

proof fn lemma_trimmed_start_is_shorter(s: Seq<char>, strip: spec_fn(char) -> bool)
    ensures
        trimmed_start(s, strip).len() <= s.len(),
    decreases s.len(),
{
    if s.len() > 0 && strip(s.first()) {
        lemma_trimmed_start_is_shorter(s.drop_first(), strip);
    }
}

proof fn lemma_trimmed_end_is_shorter(s: Seq<char>, strip: spec_fn(char) -> bool)
    ensures
        trimmed_end(s, strip).len() <= s.len(),
    decreases s.len(),
{
    if s.len() > 0 && strip(s.last()) {
        lemma_trimmed_end_is_shorter(s.drop_last(), strip);
    }
}

/// No digits stand for a number with fewer digits than the decimal text of that
/// number has.
pub proof fn lemma_decimal_is_shortest(digits: Seq<char>)
    requires
        is_digits(digits),
    ensures
        decimal(decimal_value(digits)).len() <= digits.len(),
    decreases digits.len(),
{
    let n = decimal_value(digits);
    let before = digits.drop_last();
    assert(is_digit(digits[digits.len() - 1]));
    if before.len() == 0 {
        assert(decimal_value(before) == 0);
        assert(n < 10);
    } else {
        assert forall|i: int| 0 <= i < before.len() implies is_digit(#[trigger] before[i]) by {
            assert(is_digit(digits[i]));
        }
        lemma_decimal_is_shortest(before);
        if n >= 10 {
            assert(n / 10 == decimal_value(before));
        }
    }
}

/// Cuts `text` at every `sep`.
pub fn split(text: &str, sep: char) -> (parts: Vec<String>)
    ensures
        texts(parts@) == pieces(text@, sep),
        parts@.len() > 0,
{
    let chars = chars_of(text);
    let mut parts: Vec<String> = Vec::new();
    let mut current = String::new();
    let mut at: usize = 0;
    assert(text@.take(0) =~= Seq::<char>::empty());
    assert(texts(parts@).push(current@) =~= pieces(text@.take(0), sep));
    while at < chars.len()
        invariant
            at <= chars@.len(),
            chars@ == text@,
            texts(parts@).push(current@) == pieces(text@.take(at as int), sep),
        decreases chars@.len() - at,
    {
        let c = chars[at];
        let ghost before = texts(parts@).push(current@);
        assert(text@.take(at + 1).drop_last() =~= text@.take(at as int));
        assert(before.drop_last() =~= texts(parts@));
        if c == sep {
            let done = current;
            current = String::new();
            let ghost earlier = parts@;
            parts.push(done);
            assert(texts(parts@) =~= texts(earlier).push(done@));
        } else {
            current.push(c);
        }
        at = at + 1;
        assert(texts(parts@).push(current@) =~= pieces(text@.take(at as int), sep));
    }
    assert(text@.take(at as int) =~= text@);
    let ghost earlier = parts@;
    let ghost rest = current@;
    parts.push(current);
    assert(texts(parts@) =~= texts(earlier).push(rest));
    parts
}

/// The words of `s`: its maximal runs of characters that are no white space.
pub open spec fn words(s: Seq<char>) -> Seq<Seq<char>>
    decreases s.len(),
{
    if s.len() == 0 {
        Seq::empty()
    } else if is_space(s.last()) {
        words(s.drop_last())
    } else {
        let before = words(s.drop_last());
        if s.len() >= 2 && !is_space(s[s.len() - 2]) {
            before.drop_last().push(before.last().push(s.last()))
        } else {
            before.push(seq![s.last()])
        }
    }
}

/// Cuts `text` into its words.
pub fn split_words(text: &str) -> (list: Vec<String>)
    ensures
        texts(list@) == words(text@),
{
    let chars = chars_of(text);
    let mut list: Vec<String> = Vec::new();
    let mut current: Option<String> = None;
    let mut at: usize = 0;
    assert(text@.take(0) =~= Seq::<char>::empty());
    assert(texts(list@) =~= words(text@.take(0)));
    while at < chars.len()
        invariant
            at <= chars@.len(),
            chars@ == text@,
            current is Some <==> at > 0 && !is_space(text@[at - 1]),
            words(text@.take(at as int)) == (match current {
                Some(word) => texts(list@).push(word@),
                None => texts(list@),
            }),
        decreases chars@.len() - at,
    {
        let c = chars[at];
        let ghost before = words(text@.take(at as int));
        let ghost earlier = list@;
        assert(text@.take(at + 1).drop_last() =~= text@.take(at as int));
        if is_space_char(c) {
            match current {
                Some(word) => {
                    list.push(word);
                    assert(texts(list@) =~= texts(earlier).push(word@));
                },
                None => {},
            }
            current = None;
        } else {
            current = match current {
                Some(word) => {
                    let mut longer = word;
                    longer.push(c);
                    assert(before.drop_last() =~= texts(list@));
                    Some(longer)
                },
                None => {
                    let mut word = String::new();
                    word.push(c);
                    assert(word@ =~= seq![c]);
                    Some(word)
                },
            };
        }
        at = at + 1;
    }
    assert(text@.take(at as int) =~= text@);
    let ghost earlier = list@;
    match current {
        Some(word) => {
            list.push(word);
            assert(texts(list@) =~= texts(earlier).push(word@));
        },
        None => {},
    }
    list
}

/// `parts` with `sep` between each two of them.
pub open spec fn joined(parts: Seq<Seq<char>>, sep: Seq<char>) -> Seq<char>
    decreases parts.len(),
{
    if parts.len() == 0 {
        Seq::empty()
    } else if parts.len() == 1 {
        parts[0]
    } else {
        joined(parts.drop_last(), sep) + sep + parts.last()
    }
}

/// Joins `parts[from..]`, with `sep` between each two of them.
pub fn join_from(parts: &Vec<String>, from: usize, sep: &str) -> (out: String)
    requires
        from <= parts@.len(),
    ensures
        out@ == joined(texts(parts@).skip(from as int), sep@),
{
    let mut out = String::new();
    let mut at: usize = from;
    let ghost all = texts(parts@).skip(from as int);
    assert(all.take(0) =~= Seq::<Seq<char>>::empty());
    while at < parts.len()
        invariant
            from <= at <= parts@.len(),
            all == texts(parts@).skip(from as int),
            out@ == joined(all.take(at - from), sep@),
        decreases parts@.len() - at,
    {
        if at > from {
            out.append(sep);
        }
        out.append(parts[at].as_str());
        assert(all.take(at - from + 1).drop_last() =~= all.take(at - from));
        assert(all.take(at - from + 1).last() == parts@[at as int]@);
        at = at + 1;
        assert(out@ =~= joined(all.take(at - from), sep@));
    }
    assert(all.take(at - from) =~= all);
    out
}

/// Joins `parts`, with `sep` between each two of them.
pub fn join(parts: &Vec<String>, sep: &str) -> (out: String)
    ensures
        out@ == joined(texts(parts@), sep@),
{
    assert(texts(parts@).skip(0) =~= texts(parts@));
    join_from(parts, 0, sep)
}

/// Whether `needle` stands at position `at` of `hay`.
pub open spec fn stands_at(hay: Seq<char>, needle: Seq<char>, at: int) -> bool {
    0 <= at && at + needle.len() <= hay.len() && hay.subrange(at, at + needle.len()) == needle
}

/// Whether `needle` occurs somewhere in `hay`.
pub open spec fn occurs_in(hay: Seq<char>, needle: Seq<char>) -> bool {
    exists|at: int| stands_at(hay, needle, at)
}

/// Whether `hay` starts with `prefix`.
pub open spec fn has_prefix(hay: Seq<char>, prefix: Seq<char>) -> bool {
    stands_at(hay, prefix, 0)
}

/// Whether `hay` ends with `suffix`.
pub open spec fn has_suffix(hay: Seq<char>, suffix: Seq<char>) -> bool {
    stands_at(hay, suffix, hay.len() - suffix.len())
}

/// A text without line feeds occurs in two texts that are joined by one exactly
/// where it occurs in one of them.
pub proof fn lemma_occurs_in_joined(a: Seq<char>, b: Seq<char>, needle: Seq<char>)
    requires
        needle.len() > 0,
        !needle.contains('\n'),
    ensures
        occurs_in(a + seq!['\n'] + b, needle) <==> occurs_in(a, needle) || occurs_in(b, needle),
{
    let whole = a + seq!['\n'] + b;
    if occurs_in(a, needle) {
        let at = choose|at: int| stands_at(a, needle, at);
        assert(whole.subrange(at, at + needle.len()) =~= a.subrange(at, at + needle.len()));
        assert(stands_at(whole, needle, at));
    }
    if occurs_in(b, needle) {
        let at = choose|at: int| stands_at(b, needle, at);
        let place = a.len() + 1 + at;
        assert(whole.subrange(place, place + needle.len()) =~= b.subrange(
            at,
            at + needle.len(),
        ));
        assert(stands_at(whole, needle, place));
    }
    if occurs_in(whole, needle) {
        let at = choose|at: int| stands_at(whole, needle, at);
        let found = whole.subrange(at, at + needle.len());
        if at + needle.len() <= a.len() {
            assert(found =~= a.subrange(at, at + needle.len()));
            assert(stands_at(a, needle, at));
        } else if at > a.len() {
            let place = at - a.len() - 1;
            assert(found =~= b.subrange(place, place + needle.len()));
            assert(stands_at(b, needle, place));
        } else {
            assert(found[a.len() - at] == '\n');
            assert(needle[a.len() - at] == '\n');
        }
    }
}

fn matches_at(hay: &Vec<char>, needle: &Vec<char>, at: usize) -> (yes: bool)
    ensures
        yes == stands_at(hay@, needle@, at as int),
{
    let length: usize = hay.len();
    if length < needle.len() || at > length - needle.len() {
        return false;
    }
    let mut k: usize = 0;
    while k < needle.len()
        invariant
            length == hay@.len(),
            at + needle@.len() <= hay@.len(),
            k <= needle@.len(),
            forall|j: int| 0 <= j < k ==> hay@[at + j] == needle@[j],
        decreases needle@.len() - k,
    {
        if hay[at + k] != needle[k] {
            assert(hay@.subrange(at as int, at + needle@.len())[k as int] != needle@[k as int]);
            return false;
        }
        k = k + 1;
    }
    assert(hay@.subrange(at as int, at + needle@.len()) =~= needle@);
    true
}

/// Whether `needle` occurs somewhere in `hay`.
pub fn contains(hay: &str, needle: &str) -> (yes: bool)
    ensures
        yes == occurs_in(hay@, needle@),
{
    let hay_chars = chars_of(hay);
    let needle_chars = chars_of(needle);
    let mut at: usize = 0;
    while at <= hay_chars.len()
        invariant
            hay_chars@ == hay@,
            needle_chars@ == needle@,
            at <= hay@.len() + 1,
            forall|j: int| 0 <= j < at ==> !stands_at(hay@, needle@, j),
        decreases hay@.len() + 1 - at,
    {
        if matches_at(&hay_chars, &needle_chars, at) {
            return true;
        }
        if at == hay_chars.len() {
            return false;
        }
        at = at + 1;
    }
    false
}

/// Whether `text` starts with `prefix`.
pub fn starts_with(text: &str, prefix: &str) -> (yes: bool)
    ensures
        yes == has_prefix(text@, prefix@),
{
    matches_at(&chars_of(text), &chars_of(prefix), 0)
}

/// Whether `text` ends with `suffix`.
pub fn ends_with(text: &str, suffix: &str) -> (yes: bool)
    ensures
        yes == has_suffix(text@, suffix@),
{
    let chars = chars_of(text);
    let tail = chars_of(suffix);
    if tail.len() > chars.len() {
        false
    } else {
        matches_at(&chars, &tail, chars.len() - tail.len())
    }
}

/// `s` without `prefix` where it starts with it; otherwise `s` itself.
pub open spec fn without_prefix(s: Seq<char>, prefix: Seq<char>) -> Seq<char> {
    if has_prefix(s, prefix) {
        s.skip(prefix.len() as int)
    } else {
        s
    }
}

/// Takes `prefix` off the start of `text` where it stands there.
pub fn strip_prefix_or_keep(text: &str, prefix: &str) -> (out: String)
    ensures
        out@ == without_prefix(text@, prefix@),
{
    let chars = chars_of(text);
    let head = chars_of(prefix);
    if matches_at(&chars, &head, 0) {
        assert(chars@.subrange(head@.len() as int, chars@.len() as int) =~= text@.skip(
            prefix@.len() as int,
        ));
        text_between(&chars, head.len(), chars.len())
    } else {
        text.to_owned()
    }
}

/// Two texts, one behind the other.
pub fn cat2(a: &str, b: &str) -> (out: String)
    ensures
        out@ == a@ + b@,
{
    let mut out = a.to_owned();
    out.append(b);
    out
}

/// Three texts, one behind the other.
pub fn cat3(a: &str, b: &str, c: &str) -> (out: String)
    ensures
        out@ == a@ + b@ + c@,
{
    let mut out = cat2(a, b);
    out.append(c);
    out
}

/// Four texts, one behind the other.
pub fn cat4(a: &str, b: &str, c: &str, d: &str) -> (out: String)
    ensures
        out@ == a@ + b@ + c@ + d@,
{
    let mut out = cat3(a, b, c);
    out.append(d);
    out
}

/// Five texts, one behind the other.
pub fn cat5(a: &str, b: &str, c: &str, d: &str, e: &str) -> (out: String)
    ensures
        out@ == a@ + b@ + c@ + d@ + e@,
{
    let mut out = cat4(a, b, c, d);
    out.append(e);
    out
}

/// Six texts, one behind the other.
pub fn cat6(a: &str, b: &str, c: &str, d: &str, e: &str, f: &str) -> (out: String)
    ensures
        out@ == a@ + b@ + c@ + d@ + e@ + f@,
{
    let mut out = cat5(a, b, c, d, e);
    out.append(f);
    out
}

/// Seven texts, one behind the other.
pub fn cat7(a: &str, b: &str, c: &str, d: &str, e: &str, f: &str, g: &str) -> (out: String)
    ensures
        out@ == a@ + b@ + c@ + d@ + e@ + f@ + g@,
{
    let mut out = cat6(a, b, c, d, e, f);
    out.append(g);
    out
}

/// `piece` without one carriage return at its end.
pub open spec fn without_cr(piece: Seq<char>) -> Seq<char> {
    if piece.len() > 0 && piece.last() == '\r' {
        piece.drop_last()
    } else {
        piece
    }
}

/// The lines of `s`. A line ends in a line feed, which a carriage return may
/// precede; what follows the last line feed is a line where it is not empty.
pub open spec fn lines_of(s: Seq<char>) -> Seq<Seq<char>> {
    let all = pieces(s, '\n');
    let ended = all.drop_last().map_values(|piece: Seq<char>| without_cr(piece));
    if all.last().len() == 0 {
        ended
    } else {
        ended.push(all.last())
    }
}

fn strip_cr(piece: &str) -> (out: String)
    ensures
        out@ == without_cr(piece@),
{
    let chars = chars_of(piece);
    let length: usize = chars.len();
    if length > 0 && chars[length - 1] == '\r' {
        assert(chars@.subrange(0, length - 1) =~= piece@.drop_last());
        text_between(&chars, 0, length - 1)
    } else {
        piece.to_owned()
    }
}

/// Cuts `text` into its lines.
pub fn split_lines(text: &str) -> (lines: Vec<String>)
    ensures
        texts(lines@) == lines_of(text@),
{
    let parts = split(text, '\n');
    let ghost all = pieces(text@, '\n');
    let ghost ended = all.drop_last().map_values(|piece: Seq<char>| without_cr(piece));
    let last: usize = parts.len() - 1;
    let mut lines: Vec<String> = Vec::new();
    let mut at: usize = 0;
    assert(texts(lines@) =~= ended.take(0));
    while at < last
        invariant
            last == parts@.len() - 1,
            at <= last,
            texts(parts@) == all,
            ended == all.drop_last().map_values(|piece: Seq<char>| without_cr(piece)),
            texts(lines@) == ended.take(at as int),
        decreases last - at,
    {
        let line = strip_cr(parts[at].as_str());
        let ghost earlier = lines@;
        assert(parts@[at as int]@ == all[at as int]);
        lines.push(line);
        assert(texts(lines@) =~= texts(earlier).push(line@));
        assert(ended.take(at + 1) =~= ended.take(at as int).push(ended[at as int]));
        at = at + 1;
    }
    assert(ended.take(last as int) =~= ended);
    assert(parts@[last as int]@ == all.last());
    let rest = parts[last].clone();
    if rest.as_str().is_empty() {
        lines
    } else {
        let ghost earlier = lines@;
        lines.push(rest);
        assert(texts(lines@) =~= texts(earlier).push(all.last()));
        lines
    }
}

/// `c` in lower case where it is one of `A` to `Z`; otherwise `c` itself.
pub open spec fn ascii_lower(c: char) -> char {
    if 'A' <= c <= 'Z' {
        (c as int + 32) as char
    } else {
        c
    }
}

/// Whether two texts differ at most in the case of ASCII letters.
pub open spec fn same_ignoring_ascii_case(a: Seq<char>, b: Seq<char>) -> bool {
    a.map_values(|c: char| ascii_lower(c)) == b.map_values(|c: char| ascii_lower(c))
}

fn lower_ascii(c: char) -> (out: char)
    ensures
        out == ascii_lower(c),
{
    if 'A' <= c && c <= 'Z' {
        let code: u8 = c as u8;
        (code + 32) as char
    } else {
        c
    }
}

/// Whether two texts differ at most in the case of ASCII letters.
pub fn equal_ignoring_ascii_case(a: &str, b: &str) -> (same: bool)
    ensures
        same == same_ignoring_ascii_case(a@, b@),
{
    let left = chars_of(a);
    let right = chars_of(b);
    let ghost lower_a = a@.map_values(|c: char| ascii_lower(c));
    let ghost lower_b = b@.map_values(|c: char| ascii_lower(c));
    if left.len() != right.len() {
        assert(lower_a.len() != lower_b.len());
        return false;
    }
    let mut at: usize = 0;
    while at < left.len()
        invariant
            left@ == a@,
            right@ == b@,
            left@.len() == right@.len(),
            at <= left@.len(),
            lower_a == a@.map_values(|c: char| ascii_lower(c)),
            lower_b == b@.map_values(|c: char| ascii_lower(c)),
            forall|j: int| 0 <= j < at ==> lower_a[j] == lower_b[j],
        decreases left@.len() - at,
    {
        if lower_ascii(left[at]) != lower_ascii(right[at]) {
            assert(lower_a[at as int] != lower_b[at as int]);
            return false;
        }
        at = at + 1;
    }
    assert(lower_a =~= lower_b);
    true
}

/// Whether `a` comes before `b`, or is the same, when texts are compared
/// character by character.
pub open spec fn text_le(a: Seq<char>, b: Seq<char>) -> bool
    decreases a.len(),
{
    if a.len() == 0 {
        true
    } else if b.len() == 0 {
        false
    } else if a[0] == b[0] {
        text_le(a.drop_first(), b.drop_first())
    } else {
        a[0] < b[0]
    }
}

/// Whether `a` comes before `b`, or is the same, character by character.
pub fn at_most(a: &str, b: &str) -> (yes: bool)
    ensures
        yes == text_le(a@, b@),
{
    let left = chars_of(a);
    let right = chars_of(b);
    let mut at: usize = 0;
    assert(a@.skip(0) =~= a@);
    assert(b@.skip(0) =~= b@);
    while at < left.len() && at < right.len() && left[at] == right[at]
        invariant
            left@ == a@,
            right@ == b@,
            at <= left@.len(),
            at <= right@.len(),
            text_le(a@, b@) == text_le(a@.skip(at as int), b@.skip(at as int)),
        decreases left@.len() - at,
    {
        assert(a@.skip(at as int).drop_first() =~= a@.skip(at + 1));
        assert(b@.skip(at as int).drop_first() =~= b@.skip(at + 1));
        at = at + 1;
    }
    if at == left.len() {
        true
    } else if at == right.len() {
        false
    } else {
        left[at] < right[at]
    }
}

/// Of two texts, one always comes before the other or is the same.
pub proof fn lemma_text_le_total(a: Seq<char>, b: Seq<char>)
    ensures
        text_le(a, b) || text_le(b, a),
    decreases a.len(),
{
    if a.len() > 0 && b.len() > 0 && a[0] == b[0] {
        lemma_text_le_total(a.drop_first(), b.drop_first());
    }
}

/// The order of texts is transitive.
pub proof fn lemma_text_le_transitive(a: Seq<char>, b: Seq<char>, c: Seq<char>)
    requires
        text_le(a, b),
        text_le(b, c),
    ensures
        text_le(a, c),
    decreases a.len(),
{
    if a.len() > 0 && b.len() > 0 && c.len() > 0 && a[0] == b[0] && b[0] == c[0] {
        lemma_text_le_transitive(a.drop_first(), b.drop_first(), c.drop_first());
    }
}

/// What `str::to_lowercase` makes of a text.
pub uninterp spec fn lowercase_of(s: Seq<char>) -> Seq<char>;

/// `str::to_lowercase` of the standard library: the text with every character
/// in lower case as Unicode defines it. What that is for a given text is not
/// stated, only that it depends on the text alone.
#[verifier::external_body]
pub(crate) fn to_lower(text: &str) -> (out: String)
    ensures
        out@ == lowercase_of(text@),
{
    text.to_lowercase()
}

/// What the debug form of a text is.
pub uninterp spec fn debug_quoted(s: Seq<char>) -> Seq<char>;

/// The `Debug` form of `str` in the standard library: the text in double
/// quotes, with what needs it escaped. Which characters are escaped, and how,
/// is not stated, only that the outcome depends on the text alone.
#[verifier::external_body]
pub(crate) fn debug_quote(text: &str) -> (out: String)
    ensures
        out@ == debug_quoted(text@),
{
    format!("{:?}", text)
}

} // verus!
