//! Number ranges in text form: `1-3,7,10-12` stands for 1, 2, 3, 7, 10, 11, 12.

use crate::text;
use vstd::prelude::*;

verus! {

/// Why a text is no list of ranges.
#[derive(Debug, PartialEq, Eq)]
pub enum ParseError {
    /// The input was empty or only white space.
    Empty,
    /// A segment held something that is not a non-negative integer.
    InvalidNumber(String),
    /// A range was malformed: an endpoint is missing, or the end lies below the
    /// start.
    InvalidRange(String),
}

/// A [`ParseError`] with the texts that it carries.
pub enum ParseFailure {
    /// The input was empty or only white space.
    Empty,
    /// This is no non-negative integer.
    InvalidNumber(Seq<char>),
    /// This range is malformed.
    InvalidRange(Seq<char>),
}

impl View for ParseError {
    type V = ParseFailure;

    open spec fn view(&self) -> ParseFailure {
        match self {
            ParseError::Empty => ParseFailure::Empty,
            ParseError::InvalidNumber(what) => ParseFailure::InvalidNumber(what@),
            ParseError::InvalidRange(what) => ParseFailure::InvalidRange(what@),
        }
    }
}

/// A text without one leading plus sign.
pub open spec fn unsigned_part(s: Seq<char>) -> Seq<char> {
    if s.len() > 0 && s[0] == '+' {
        s.skip(1)
    } else {
        s
    }
}

/// The number that `s` stands for, white space around it aside: decimal digits,
/// with an optional plus sign, that fit the machine word.
pub open spec fn number(s: Seq<char>) -> Result<nat, ParseFailure> {
    let digits = unsigned_part(text::trimmed(s));
    if text::is_digits(digits) && text::decimal_value(digits) <= usize::MAX {
        Ok(text::decimal_value(digits))
    } else {
        Err(ParseFailure::InvalidNumber(text::trimmed(s)))
    }
}

/// The numbers from `lo` to `hi`, both included.
pub open spec fn expansion(lo: nat, hi: nat) -> Seq<nat> {
    Seq::new((hi - lo + 1) as nat, |i: int| (lo + i) as nat)
}

/// The place of the first hyphen in `s`; its length where there is none.
pub open spec fn hyphen_at(s: Seq<char>) -> nat
    decreases s.len(),
{
    if s.len() == 0 || s[0] == '-' {
        0
    } else {
        1 + hyphen_at(s.drop_first())
    }
}

/// The numbers that one segment stands for: a single number, or a range.
pub open spec fn segment(raw: Seq<char>) -> Result<Seq<nat>, ParseFailure> {
    let seg = text::trimmed(raw);
    let cut = hyphen_at(seg) as int;
    if cut == seg.len() {
        match number(seg) {
            Ok(n) => Ok(seq![n]),
            Err(failure) => Err(failure),
        }
    } else if text::trimmed(seg.take(cut)).len() == 0 || text::trimmed(seg.skip(cut + 1)).len() == 0 {
        Err(ParseFailure::InvalidRange(seg))
    } else {
        match (number(seg.take(cut)), number(seg.skip(cut + 1))) {
            (Err(failure), _) => Err(failure),
            (_, Err(failure)) => Err(failure),
            (Ok(lo), Ok(hi)) => if hi < lo {
                Err(ParseFailure::InvalidRange(seg))
            } else {
                Ok(expansion(lo, hi))
            },
        }
    }
}

/// The numbers of all segments, or the failure of the first bad one.
pub open spec fn segments(raw: Seq<Seq<char>>) -> Result<Seq<nat>, ParseFailure>
    decreases raw.len(),
{
    if raw.len() == 0 {
        Ok(Seq::empty())
    } else {
        match segments(raw.drop_last()) {
            Err(failure) => Err(failure),
            Ok(before) => match segment(raw.last()) {
                Err(failure) => Err(failure),
                Ok(numbers) => Ok(before + numbers),
            },
        }
    }
}

/// What a whole input stands for.
pub open spec fn parsed(input: Seq<char>) -> Result<Seq<nat>, ParseFailure> {
    if text::trimmed(input).len() == 0 {
        Err(ParseFailure::Empty)
    } else {
        segments(text::pieces(input, ','))
    }
}

/// The numbers of a list, as mathematical numbers.
pub open spec fn nats(nums: Seq<usize>) -> Seq<nat> {
    nums.map_values(|n: usize| n as nat)
}

proof fn lemma_prefix_value(digits: Seq<char>, upto: int)
    requires
        0 <= upto <= digits.len(),
    ensures
        text::decimal_value(digits.take(upto)) <= text::decimal_value(digits),
    decreases digits.len(),
{
    if upto == digits.len() {
        assert(digits.take(upto) =~= digits);
    } else {
        lemma_prefix_value(digits.drop_last(), upto);
        assert(digits.drop_last().take(upto) =~= digits.take(upto));
    }
}

/// Reads one number, white space around it aside.
fn parse_num(raw: &str) -> (out: Result<usize, ParseError>)
    ensures
        match out {
            Ok(n) => number(raw@) == Ok::<nat, ParseFailure>(n as nat),
            Err(error) => number(raw@) == Err::<nat, ParseFailure>(error@),
        },
{
    let trimmed = text::trim(raw);
    let chars = text::chars_of(trimmed.as_str());
    let from: usize = if chars.len() > 0 && chars[0] == '+' {
        1
    } else {
        0
    };
    let ghost digits = unsigned_part(text::trimmed(raw@));
    assert(digits =~= chars@.skip(from as int));
    if from == chars.len() {
        return Err(ParseError::InvalidNumber(trimmed));
    }
    let mut value: usize = 0;
    let mut at: usize = from;
    assert(digits.take(0) =~= Seq::<char>::empty());
    while at < chars.len()
        invariant
            from <= at <= chars@.len(),
            from < chars@.len(),
            trimmed@ == text::trimmed(raw@),
            digits == unsigned_part(text::trimmed(raw@)),
            digits == chars@.skip(from as int),
            value == text::decimal_value(digits.take(at - from)),
            forall|j: int| 0 <= j < at - from ==> text::is_digit(#[trigger] digits[j]),
        decreases chars@.len() - at,
    {
        let c = chars[at];
        assert(digits[at - from] == c);
        if !('0' <= c && c <= '9') {
            assert(!text::is_digits(digits));
            return Err(ParseError::InvalidNumber(trimmed));
        }
        let digit: usize = (c as u32 - 48) as usize;
        assert(digits.take(at - from + 1).drop_last() =~= digits.take(at - from));
        proof {
            lemma_prefix_value(digits, at - from + 1);
        }
        if value > usize::MAX / 10 || value * 10 > usize::MAX - digit {
            return Err(ParseError::InvalidNumber(trimmed));
        }
        value = value * 10 + digit;
        at = at + 1;
    }
    assert(digits.take(at - from) =~= digits);
    assert(text::is_digits(digits));
    Ok(value)
}

/// The place of the first hyphen.
fn find_hyphen(chars: &Vec<char>) -> (at: usize)
    ensures
        at == hyphen_at(chars@),
        at <= chars@.len(),
{
    let mut at: usize = 0;
    assert(chars@.skip(0) =~= chars@);
    while at < chars.len() && chars[at] != '-'
        invariant
            at <= chars@.len(),
            hyphen_at(chars@) == at + hyphen_at(chars@.skip(at as int)),
        decreases chars@.len() - at,
    {
        assert(chars@.skip(at as int).drop_first() =~= chars@.skip(at + 1));
        at = at + 1;
    }
    at
}

/// Reads one segment and appends its numbers to `out`.
fn parse_segment(raw: &str, out: &mut Vec<usize>) -> (result: Result<(), ParseError>)
    ensures
        match result {
            Ok(()) => {
                &&& segment(raw@) is Ok
                &&& nats(final(out)@) == nats(old(out)@) + segment(raw@)->Ok_0
            },
            Err(error) => segment(raw@) == Err::<Seq<nat>, ParseFailure>(error@),
        },
{
    let seg = text::trim(raw);
    let chars = text::chars_of(seg.as_str());
    let cut = find_hyphen(&chars);
    if cut == chars.len() {
        return match parse_num(seg.as_str()) {
            Ok(n) => {
                out.push(n);
                assert(nats(out@) =~= nats(old(out)@) + seq![n as nat]);
                Ok(())
            },
            Err(error) => Err(error),
        };
    }
    let left = text::text_between(&chars, 0, cut);
    let right = text::text_between(&chars, cut + 1, chars.len());
    assert(left@ =~= seg@.take(cut as int));
    assert(right@ =~= seg@.skip(cut + 1));
    if text::trim(left.as_str()).as_str().is_empty() || text::trim(right.as_str()).as_str().is_empty() {
        return Err(ParseError::InvalidRange(seg));
    }
    let lo: usize = match parse_num(left.as_str()) {
        Ok(n) => n,
        Err(error) => return Err(error),
    };
    let hi: usize = match parse_num(right.as_str()) {
        Ok(n) => n,
        Err(error) => return Err(error),
    };
    if hi < lo {
        return Err(ParseError::InvalidRange(seg));
    }
    let ghost all = expansion(lo as nat, hi as nat);
    let mut n: usize = lo;
    assert(nats(out@) =~= nats(old(out)@) + all.take(0));
    while n < hi
        invariant
            lo <= n <= hi,
            all == expansion(lo as nat, hi as nat),
            nats(out@) == nats(old(out)@) + all.take(n - lo),
        decreases hi - n,
    {
        let ghost earlier = out@;
        out.push(n);
        assert(nats(out@) =~= nats(earlier).push(n as nat));
        assert(all.take(n - lo + 1) =~= all.take(n - lo).push(n as nat));
        assert(nats(out@) =~= nats(old(out)@) + all.take(n - lo + 1));
        n = n + 1;
    }
    let ghost earlier = out@;
    out.push(n);
    assert(nats(out@) =~= nats(earlier).push(n as nat));
    assert(all =~= all.take(n - lo).push(n as nat));
    assert(nats(out@) =~= nats(old(out)@) + all);
    Ok(())
}

/// Reads a text like `1-3,7,10-12` as the full list of numbers, with every
/// range written out, both endpoints included. White space around segments is
/// allowed.
pub fn parse_ranges(input: &str) -> (out: Result<Vec<usize>, ParseError>)
    ensures
        match out {
            Ok(nums) => parsed(input@) == Ok::<Seq<nat>, ParseFailure>(nats(nums@)),
            Err(error) => parsed(input@) == Err::<Seq<nat>, ParseFailure>(error@),
        },
{
    if text::trim(input).as_str().is_empty() {
        return Err(ParseError::Empty);
    }
    let parts = text::split(input, ',');
    let ghost raw = text::pieces(input@, ',');
    let mut nums: Vec<usize> = Vec::new();
    let mut at: usize = 0;
    assert(raw.take(0) =~= Seq::<Seq<char>>::empty());
    assert(nats(nums@) =~= Seq::<nat>::empty());
    while at < parts.len()
        invariant
            at <= parts@.len(),
            text::trimmed(input@).len() > 0,
            raw == text::pieces(input@, ','),
            text::texts(parts@) == raw,
            segments(raw.take(at as int)) == Ok::<Seq<nat>, ParseFailure>(nats(nums@)),
        decreases parts@.len() - at,
    {
        assert(parts@[at as int]@ == raw[at as int]);
        assert(raw.take(at + 1).drop_last() =~= raw.take(at as int));
        match parse_segment(parts[at].as_str(), &mut nums) {
            Ok(()) => {},
            Err(error) => {
                proof {
                    lemma_segments_fail(raw, at + 1, error@);
                }
                return Err(error);
            },
        }
        at = at + 1;
    }
    assert(raw.take(at as int) =~= raw);
    Ok(nums)
}

proof fn lemma_segments_fail(raw: Seq<Seq<char>>, upto: int, failure: ParseFailure)
    requires
        0 <= upto <= raw.len(),
        segments(raw.take(upto)) == Err::<Seq<nat>, ParseFailure>(failure),
    ensures
        segments(raw) == Err::<Seq<nat>, ParseFailure>(failure),
    decreases raw.len(),
{
    if upto == raw.len() {
        assert(raw.take(upto) =~= raw);
    } else {
        assert(raw.drop_last().take(upto) =~= raw.take(upto));
        lemma_segments_fail(raw.drop_last(), upto, failure);
    }
}

/// One run of consecutive numbers, by its endpoints.
pub struct Run {
    /// The first number.
    pub lo: nat,
    /// The last number.
    pub hi: nat,
}

/// The maximal runs of consecutive numbers in `nums`, in order.
pub open spec fn runs(nums: Seq<nat>) -> Seq<Run>
    decreases nums.len(),
{
    if nums.len() == 0 {
        Seq::empty()
    } else {
        let before = runs(nums.drop_last());
        let n = nums.last();
        if before.len() > 0 && before.last().hi + 1 == n {
            before.drop_last().push(Run { lo: before.last().lo, hi: n })
        } else {
            before.push(Run { lo: n, hi: n })
        }
    }
}

/// The text of one run: a single number, or `lo-hi`.
pub open spec fn run_text(run: Run) -> Seq<char> {
    if run.lo == run.hi {
        text::decimal(run.lo)
    } else {
        text::decimal(run.lo) + seq!['-'] + text::decimal(run.hi)
    }
}

/// The texts of all runs.
pub open spec fn run_texts(list: Seq<Run>) -> Seq<Seq<char>> {
    list.map_values(|run: Run| run_text(run))
}

/// The text form of `nums`.
pub open spec fn formatted(nums: Seq<nat>) -> Seq<char> {
    text::joined(run_texts(runs(nums)), seq![','])
}

/// The text of the run from `lo` to `hi`.
fn format_run(lo: usize, hi: usize) -> (out: String)
    ensures
        out@ == run_text(Run { lo: lo as nat, hi: hi as nat }),
{
    let mut out = text::decimal_text(lo as u128);
    if lo != hi {
        out.push('-');
        let end = text::decimal_text(hi as u128);
        out.append(end.as_str());
        assert(out@ =~= text::decimal(lo as nat) + seq!['-'] + text::decimal(hi as nat));
    }
    out
}

/// The inverse of [`parse_ranges`]: compresses `nums` into its text form. Runs
/// of one number are written as that number, longer ones as `lo-hi`; an empty
/// list gives the empty text.
pub fn format_ranges(nums: &[usize]) -> (out: String)
    ensures
        out@ == formatted(nats(nums@)),
{
    let mut parts: Vec<String> = Vec::new();
    let mut open: Option<(usize, usize)> = None;
    let mut at: usize = 0;
    let ghost all = nats(nums@);
    assert(all.take(0) =~= Seq::<nat>::empty());
    assert(runs(all.take(0)) =~= Seq::<Run>::empty());
    assert(text::texts(parts@) =~= run_texts(runs(all.take(0))));
    while at < nums.len()
        invariant
            at <= nums@.len(),
            all == nats(nums@),
            match open {
                None => at == 0 && parts@.len() == 0,
                Some((lo, hi)) => {
                    &&& runs(all.take(at as int)).len() > 0
                    &&& runs(all.take(at as int)).last() == (Run { lo: lo as nat, hi: hi as nat })
                    &&& text::texts(parts@) == run_texts(runs(all.take(at as int)).drop_last())
                },
            },
        decreases nums@.len() - at,
    {
        let n: usize = nums[at];
        let ghost before = runs(all.take(at as int));
        assert(all.take(at + 1).drop_last() =~= all.take(at as int));
        assert(all.take(at + 1).last() == n as nat);
        match open {
            None => {
                assert(before =~= Seq::<Run>::empty()) by {
                    assert(all.take(0) =~= Seq::<nat>::empty());
                }
                open = Some((n, n));
                assert(runs(all.take(at + 1)).drop_last() =~= Seq::<Run>::empty());
                assert(text::texts(parts@) =~= run_texts(runs(all.take(at + 1)).drop_last()));
            },
            Some((lo, hi)) => {
                if hi < n && hi + 1 == n {
                    open = Some((lo, n));
                    assert(runs(all.take(at + 1)).drop_last() =~= before.drop_last());
                } else {
                    let done = format_run(lo, hi);
                    let ghost earlier = parts@;
                    parts.push(done);
                    assert(text::texts(parts@) =~= text::texts(earlier).push(done@));
                    assert(run_texts(before) =~= run_texts(before.drop_last()).push(done@));
                    open = Some((n, n));
                    assert(runs(all.take(at + 1)).drop_last() =~= before);
                }
            },
        }
        at = at + 1;
    }
    assert(all.take(at as int) =~= all);
    match open {
        None => {
            assert(all =~= Seq::<nat>::empty());
            assert(runs(all) =~= Seq::<Run>::empty());
        },
        Some((lo, hi)) => {
            let done = format_run(lo, hi);
            let ghost earlier = parts@;
            let ghost whole = runs(all);
            parts.push(done);
            assert(text::texts(parts@) =~= text::texts(earlier).push(done@));
            assert(run_texts(whole) =~= run_texts(whole.drop_last()).push(done@));
        },
    }
    proof {
        reveal_strlit(",");
    }
    assert(","@ =~= seq![',']);
    assert(text::texts(parts@) =~= run_texts(runs(all)));
    text::join(&parts, ",")
}

/// All numbers of a list of runs, in order.
pub open spec fn spread(list: Seq<Run>) -> Seq<nat>
    decreases list.len(),
{
    if list.len() == 0 {
        Seq::empty()
    } else {
        spread(list.drop_last()) + expansion(list.last().lo, list.last().hi)
    }
}

/// Whether a run has its endpoints in order and within the machine word.
pub open spec fn is_run(run: Run) -> bool {
    run.lo <= run.hi <= usize::MAX
}

/// The runs of a list of numbers hold exactly those numbers, and each run is
/// well formed.
proof fn lemma_runs_spread(nums: Seq<nat>)
    requires
        forall|i: int| 0 <= i < nums.len() ==> #[trigger] nums[i] <= usize::MAX,
    ensures
        spread(runs(nums)) == nums,
        forall|i: int| 0 <= i < runs(nums).len() ==> is_run(#[trigger] runs(nums)[i]),
        nums.len() > 0 ==> runs(nums).len() > 0,
    decreases nums.len(),
{
    if nums.len() > 0 {
        let before = runs(nums.drop_last());
        let after = runs(nums);
        let n = nums.last();
        assert forall|i: int| 0 <= i < nums.drop_last().len() implies #[trigger] nums.drop_last()[i]
            <= usize::MAX by {
            assert(nums[i] <= usize::MAX);
        }
        lemma_runs_spread(nums.drop_last());
        assert(nums[nums.len() - 1] <= usize::MAX);
        if before.len() > 0 && before.last().hi + 1 == n {
            let lo = before.last().lo;
            assert(is_run(before[before.len() - 1]));
            assert(after.drop_last() =~= before.drop_last());
            assert(expansion(lo, n) =~= expansion(lo, before.last().hi).push(n));
            assert(spread(after) =~= spread(before).push(n));
        } else {
            assert(after.drop_last() =~= before);
            assert(expansion(n, n) =~= seq![n]);
            assert(spread(after) =~= spread(before).push(n));
        }
        assert(spread(after) =~= nums);
    }
}

/// A text without hyphens has its first hyphen nowhere.
pub proof fn lemma_no_hyphen(s: Seq<char>)
    requires
        !s.contains('-'),
    ensures
        hyphen_at(s) == s.len(),
    decreases s.len(),
{
    if s.len() > 0 {
        assert(s[0] != '-');
        assert forall|i: int| 0 <= i < s.drop_first().len() implies s.drop_first()[i] != '-' by {
            assert(s[i + 1] != '-');
        }
        lemma_no_hyphen(s.drop_first());
    }
}

/// The first hyphen stands behind what has none.
pub proof fn lemma_first_hyphen(head: Seq<char>, tail: Seq<char>)
    requires
        !head.contains('-'),
    ensures
        hyphen_at(head + seq!['-'] + tail) == head.len(),
    decreases head.len(),
{
    let whole = head + seq!['-'] + tail;
    if head.len() > 0 {
        assert(head[0] != '-');
        assert forall|i: int| 0 <= i < head.drop_first().len() implies head.drop_first()[i]
            != '-' by {
            assert(head[i + 1] != '-');
        }
        lemma_first_hyphen(head.drop_first(), tail);
        assert(whole.drop_first() =~= head.drop_first() + seq!['-'] + tail);
    }
}

/// The decimal text of a number holds digits only, so that no sign, separator
/// or white space occurs in it, and it reads as that number.
pub proof fn lemma_decimal_is_a_number(n: nat)
    requires
        n <= usize::MAX,
    ensures
        number(text::decimal(n)) == Ok::<nat, ParseFailure>(n),
        text::trimmed(text::decimal(n)) == text::decimal(n),
        text::decimal(n).len() > 0,
        !text::decimal(n).contains('-'),
        !text::decimal(n).contains(','),
        !text::is_space(text::decimal(n).first()),
        !text::is_space(text::decimal(n).last()),
{
    let digits = text::decimal(n);
    text::law_decimal_reads_back(n);
    assert(text::is_digit(digits[0]));
    assert(text::is_digit(digits[digits.len() - 1]));
    text::lemma_nothing_to_trim(digits);
    assert forall|i: int| 0 <= i < digits.len() implies digits[i] != '-' && digits[i] != ',' by {
        assert(text::is_digit(digits[i]));
    }
}

proof fn lemma_run_reads_back(run: Run)
    requires
        is_run(run),
    ensures
        segment(run_text(run)) == Ok::<Seq<nat>, ParseFailure>(expansion(run.lo, run.hi)),
        !run_text(run).contains(','),
        run_text(run).len() > 0,
        !text::is_space(run_text(run).first()),
        !text::is_space(run_text(run).last()),
{
    let written = run_text(run);
    let head = text::decimal(run.lo);
    let tail = text::decimal(run.hi);
    lemma_decimal_is_a_number(run.lo);
    lemma_decimal_is_a_number(run.hi);
    if run.lo == run.hi {
        lemma_no_hyphen(written);
        assert(expansion(run.lo, run.hi) =~= seq![run.lo]);
    } else {
        lemma_first_hyphen(head, tail);
        assert(written.first() == head.first());
        assert(written.last() == tail.last());
        text::lemma_nothing_to_trim(written);
        assert(written.take(head.len() as int) =~= head);
        assert(written.skip(head.len() as int + 1) =~= tail);
        assert forall|i: int| 0 <= i < written.len() implies written[i] != ',' by {
            if i < head.len() {
                assert(written[i] == head[i]);
            } else if i > head.len() {
                assert(written[i] == tail[i - head.len() - 1]);
            }
        }
    }
}

proof fn lemma_runs_read_back(list: Seq<Run>)
    requires
        forall|i: int| 0 <= i < list.len() ==> is_run(#[trigger] list[i]),
    ensures
        segments(run_texts(list)) == Ok::<Seq<nat>, ParseFailure>(spread(list)),
    decreases list.len(),
{
    if list.len() > 0 {
        let init = list.drop_last();
        assert forall|i: int| 0 <= i < init.len() implies is_run(#[trigger] init[i]) by {
            assert(init[i] == list[i]);
        }
        lemma_runs_read_back(init);
        lemma_run_reads_back(list[list.len() - 1]);
        assert(run_texts(list).drop_last() =~= run_texts(init));
    }
}

/// A joined text starts and ends with what its parts start and end with.
proof fn lemma_joined_ends(parts: Seq<Seq<char>>)
    requires
        parts.len() > 0,
        forall|i: int| 0 <= i < parts.len() ==> (#[trigger] parts[i]).len() > 0,
    ensures
        text::joined(parts, seq![',']).len() > 0,
        text::joined(parts, seq![',']).first() == parts.first().first(),
        text::joined(parts, seq![',']).last() == parts.last().last(),
    decreases parts.len(),
{
    assert(parts[parts.len() - 1].len() > 0);
    if parts.len() > 1 {
        let init = parts.drop_last();
        assert forall|i: int| 0 <= i < init.len() implies (#[trigger] init[i]).len() > 0 by {
            assert(init[i] == parts[i]);
        }
        lemma_joined_ends(init);
    }
}

/// Law: formatting and parsing are inverse. Whatever list of numbers is
/// formatted, parsing the text gives exactly that list back; the one exception
/// is the empty list, whose text is refused as empty.
pub proof fn law_parse_inverts_format(nums: Seq<usize>)
    ensures
        nums.len() > 0 ==> parsed(formatted(nats(nums))) == Ok::<Seq<nat>, ParseFailure>(nats(nums)),
        nums.len() == 0 ==> parsed(formatted(nats(nums))) == Err::<Seq<nat>, ParseFailure>(
            ParseFailure::Empty,
        ),
{
    let all = nats(nums);
    let list = runs(all);
    let parts = run_texts(list);
    lemma_runs_spread(all);
    if nums.len() == 0 {
        assert(parts =~= Seq::<Seq<char>>::empty());
    } else {
        assert forall|i: int| 0 <= i < parts.len() implies {
            &&& !(#[trigger] parts[i]).contains(',')
            &&& parts[i].len() > 0
            &&& !text::is_space(parts[i].first())
            &&& !text::is_space(parts[i].last())
        } by {
            assert(is_run(list[i]));
            lemma_run_reads_back(list[i]);
        }
        text::lemma_pieces_of_joined(parts, ',');
        lemma_runs_read_back(list);
        lemma_joined_ends(parts);
        assert(!text::is_space(parts[0].first()));
        assert(!text::is_space(parts[parts.len() - 1].last()));
        text::lemma_nothing_to_trim(formatted(all));
    }
}

/// The runs that the segments of a text stand for.
spec fn segment_run(raw: Seq<char>) -> Run {
    let numbers = segment(raw)->Ok_0;
    Run { lo: numbers.first(), hi: numbers.last() }
}

spec fn segment_runs(raw: Seq<Seq<char>>) -> Seq<Run> {
    raw.map_values(|part: Seq<char>| segment_run(part))
}

proof fn lemma_number_is_shortest(s: Seq<char>)
    requires
        number(s) is Ok,
    ensures
        text::decimal(number(s)->Ok_0).len() <= s.len(),
        number(s)->Ok_0 <= usize::MAX,
{
    let digits = unsigned_part(text::trimmed(s));
    text::lemma_trimmed_is_shorter(s);
    text::lemma_decimal_is_shortest(digits);
}

proof fn lemma_segment_is_a_run(raw: Seq<char>)
    requires
        segment(raw) is Ok,
    ensures
        is_run(segment_run(raw)),
        segment(raw)->Ok_0 == expansion(segment_run(raw).lo, segment_run(raw).hi),
        run_text(segment_run(raw)).len() <= raw.len(),
{
    let seg = text::trimmed(raw);
    let cut = hyphen_at(seg) as int;
    let run = segment_run(raw);
    text::lemma_trimmed_is_shorter(raw);
    lemma_hyphen_bound(seg);
    if cut == seg.len() {
        lemma_number_is_shortest(seg);
        assert(segment(raw)->Ok_0 =~= expansion(run.lo, run.hi));
    } else {
        lemma_number_is_shortest(seg.take(cut));
        lemma_number_is_shortest(seg.skip(cut + 1));
        let lo = number(seg.take(cut))->Ok_0;
        let hi = number(seg.skip(cut + 1))->Ok_0;
        assert(expansion(lo, hi).first() == lo);
        assert(expansion(lo, hi).last() == hi);
    }
}

proof fn lemma_hyphen_bound(s: Seq<char>)
    ensures
        hyphen_at(s) <= s.len(),
    decreases s.len(),
{
    if s.len() > 0 && s[0] != '-' {
        lemma_hyphen_bound(s.drop_first());
    }
}

proof fn lemma_segments_are_runs(raw: Seq<Seq<char>>)
    requires
        segments(raw) is Ok,
    ensures
        segments(raw)->Ok_0 == spread(segment_runs(raw)),
        forall|i: int| 0 <= i < raw.len() ==> is_run(#[trigger] segment_runs(raw)[i]),
        text::total_length(run_texts(segment_runs(raw))) <= text::total_length(raw),
    decreases raw.len(),
{
    if raw.len() > 0 {
        let list = segment_runs(raw);
        lemma_segments_are_runs(raw.drop_last());
        lemma_segment_is_a_run(raw.last());
        assert(list.drop_last() =~= segment_runs(raw.drop_last()));
        assert(run_texts(list).drop_last() =~= run_texts(list.drop_last()));
        assert forall|i: int| 0 <= i < raw.len() implies is_run(#[trigger] list[i]) by {
            if i < raw.len() - 1 {
                assert(is_run(segment_runs(raw.drop_last())[i]));
            }
        }
    }
}

/// What a list of runs costs in characters, separators counted once per run.
spec fn run_cost(list: Seq<Run>) -> nat {
    text::total_length(run_texts(list)) + list.len()
}

proof fn lemma_cost_of_push(list: Seq<Run>, run: Run)
    ensures
        run_cost(list.push(run)) == run_cost(list) + run_text(run).len() + 1,
{
    assert(run_texts(list.push(run)).drop_last() =~= run_texts(list));
}

/// Appending the numbers of a run either starts a new run or extends the last
/// one.
proof fn lemma_runs_of_appended(nums: Seq<nat>, run: Run)
    requires
        run.lo <= run.hi,
    ensures
        ({
            let before = runs(nums);
            runs(nums + expansion(run.lo, run.hi)) == if before.len() > 0 && before.last().hi + 1
                == run.lo {
                before.drop_last().push(Run { lo: before.last().lo, hi: run.hi })
            } else {
                before.push(run)
            }
        }),
    decreases run.hi - run.lo,
{
    let before = runs(nums);
    let all = nums + expansion(run.lo, run.hi);
    if run.lo == run.hi {
        assert(all.drop_last() =~= nums);
        assert(all.last() == run.lo);
    } else {
        let shorter = Run { lo: run.lo, hi: (run.hi - 1) as nat };
        lemma_runs_of_appended(nums, shorter);
        assert(all.drop_last() =~= nums + expansion(shorter.lo, shorter.hi));
        assert(all.last() == run.hi);
        let middle = runs(all.drop_last());
        assert(middle.last().hi + 1 == run.hi);
        assert(middle.drop_last() =~= if before.len() > 0 && before.last().hi + 1 == run.lo {
            before.drop_last()
        } else {
            before
        });
    }
}

/// The maximal runs of a list of numbers cost no more than any other way to
/// cut it into runs.
proof fn lemma_runs_are_cheapest(list: Seq<Run>)
    requires
        forall|i: int| 0 <= i < list.len() ==> is_run(#[trigger] list[i]),
    ensures
        run_cost(runs(spread(list))) <= run_cost(list),
    decreases list.len(),
{
    if list.len() == 0 {
        assert(runs(spread(list)) =~= list);
    } else {
        let init = list.drop_last();
        let run = list.last();
        assert(is_run(list[list.len() - 1]));
        assert forall|i: int| 0 <= i < init.len() implies is_run(#[trigger] init[i]) by {
            assert(init[i] == list[i]);
        }
        lemma_runs_are_cheapest(init);
        let before = runs(spread(init));
        lemma_runs_of_appended(spread(init), run);
        assert(init.push(run) =~= list);
        lemma_cost_of_push(init, run);
        if before.len() > 0 && before.last().hi + 1 == run.lo {
            let wider = Run { lo: before.last().lo, hi: run.hi };
            assert(before.drop_last().push(before.last()) =~= before);
            lemma_cost_of_push(before.drop_last(), before.last());
            lemma_cost_of_push(before.drop_last(), wider);
        } else {
            lemma_cost_of_push(before, run);
        }
    }
}

/// Law: the text form is the shortest. No text that stands for the same numbers
/// is shorter than the one that formatting gives.
pub proof fn law_formatted_is_shortest(input: Seq<char>, nums: Seq<nat>)
    requires
        parsed(input) == Ok::<Seq<nat>, ParseFailure>(nums),
    ensures
        formatted(nums).len() <= input.len(),
{
    let raw = text::pieces(input, ',');
    let list = segment_runs(raw);
    lemma_segments_are_runs(raw);
    lemma_runs_are_cheapest(list);
    text::lemma_pieces_length(input, ',');
    text::lemma_pieces_nonempty(input, ',');
    if runs(nums).len() > 0 {
        text::lemma_joined_length(run_texts(runs(nums)), ',');
    }
}

} // verus!
