//! What number ranges stand for.

use crate::ranges;
use crate::ranges::{ParseError, ParseFailure};
use crate::text;
use vstd::prelude::*;

verus! {

/// Whether a text is made of white space alone.
pub open spec fn is_blank(s: Seq<char>) -> bool {
    forall|i: int| 0 <= i < s.len() ==> text::is_space(#[trigger] s[i])
}

proof fn lemma_blank_vanishes(s: Seq<char>)
    requires
        is_blank(s),
    ensures
        text::trimmed(s).len() == 0,
    decreases s.len(),
{
    let strip = |c: char| text::is_space(c);
    if s.len() > 0 {
        assert(text::is_space(s[0]));
        let rest = s.drop_first();
        assert forall|i: int| 0 <= i < rest.len() implies text::is_space(#[trigger] rest[i]) by {
            assert(text::is_space(s[i + 1]));
        }
        lemma_blank_vanishes(rest);
        assert(text::trimmed_start(s, strip) == text::trimmed_start(rest, strip));
    } else {
        assert(text::trimmed_start(s, strip) == s);
        assert(text::trimmed_end(s, strip) == s);
    }
}

proof fn lemma_something_stays(s: Seq<char>, at: int)
    requires
        0 <= at < s.len(),
        !text::is_space(s[at]),
    ensures
        text::trimmed(s).len() > 0,
    decreases s.len(),
{
    let strip = |c: char| text::is_space(c);
    if text::is_space(s[0]) {
        lemma_something_stays(s.drop_first(), at - 1);
        assert(text::trimmed_start(s, strip) == text::trimmed_start(s.drop_first(), strip));
    } else {
        lemma_something_stays_at_the_start(s);
    }
}

proof fn lemma_something_stays_at_the_start(s: Seq<char>)
    requires
        s.len() > 0,
        !text::is_space(s[0]),
    ensures
        text::trimmed_end(s, |c: char| text::is_space(c)).len() > 0,
    decreases s.len(),
{
    if s.len() > 1 && text::is_space(s.last()) {
        assert(s.drop_last()[0] == s[0]);
        lemma_something_stays_at_the_start(s.drop_last());
    }
}

proof fn lemma_same_numbers(a: Seq<usize>, b: Seq<usize>)
    requires
        ranges::nats(a) == ranges::nats(b),
    ensures
        a == b,
{
    assert(ranges::nats(a).len() == a.len() && ranges::nats(b).len() == b.len());
    assert forall|i: int| 0 <= i < a.len() implies a[i] == b[i] by {
        assert(ranges::nats(a)[i] == a[i] as nat);
        assert(ranges::nats(b)[i] == b[i] as nat);
    }
    assert(a =~= b);
}

/// Law: what was formatted is read back, number for number; the empty list has
/// the empty text, which is no list.
pub proof fn law_formatted_numbers_are_read_back(
    nums: &[usize],
    written: String,
    given: &str,
    out: Result<Vec<usize>, ParseError>,
)
    requires
        call_ensures(ranges::format_ranges, (nums,), written),
        given@ == written@,
        call_ensures(ranges::parse_ranges, (given,), out),
    ensures
        nums@.len() > 0 ==> out is Ok && out->Ok_0@ == nums@,
        nums@.len() == 0 ==> written@.len() == 0 && out is Err && out->Err_0 is Empty,
{
    ranges::law_parse_inverts_format(nums@);
    if nums@.len() > 0 {
        lemma_same_numbers(out->Ok_0@, nums@);
    } else {
        assert(ranges::nats(nums@) =~= Seq::<nat>::empty());
        assert(ranges::run_texts(ranges::runs(ranges::nats(nums@))) =~= Seq::<Seq<char>>::empty());
    }
}

proof fn lemma_one_segment(s: Seq<char>)
    requires
        !s.contains(','),
    ensures
        text::pieces(s, ',') == seq![s],
        ranges::segments(seq![s]) == match ranges::segment(s) {
            Ok(numbers) => Ok::<Seq<nat>, ParseFailure>(numbers),
            Err(failure) => Err(failure),
        },
{
    text::lemma_pieces_grow(Seq::empty(), s, ',');
    assert(Seq::<char>::empty() + s =~= s);
    assert(text::pieces(Seq::<char>::empty(), ',') =~= seq![Seq::<char>::empty()]);
    assert(text::pieces(s, ',') =~= seq![s]);
    assert(seq![s].drop_last() =~= Seq::<Seq<char>>::empty());
    assert(ranges::segments(seq![s].drop_last()) == Ok::<Seq<nat>, ParseFailure>(Seq::empty()));
    if ranges::segment(s) is Ok {
        let numbers = ranges::segment(s)->Ok_0;
        assert(Seq::<nat>::empty() + numbers =~= numbers);
    }
}

/// Law: a number stands for itself, and a range for all numbers from its start to
/// its end, both included; a range that ends before it starts is malformed.
pub proof fn law_ranges_are_written_out(
    given: &str,
    lo: usize,
    hi: usize,
    out: Result<Vec<usize>, ParseError>,
    at: int,
)
    requires
        call_ensures(ranges::parse_ranges, (given,), out),
    ensures
        given@ == text::decimal(lo as nat) ==> out is Ok && out->Ok_0@ == seq![lo],
        given@ == text::decimal(lo as nat) + seq!['-'] + text::decimal(hi as nat) ==> {
            &&& out is Ok <==> lo <= hi
            &&& out is Ok ==> out->Ok_0@.len() == hi - lo + 1
            &&& out is Ok && 0 <= at <= hi - lo ==> out->Ok_0@[at] == lo + at
            &&& out is Err ==> out->Err_0 is InvalidRange && out->Err_0->InvalidRange_0@ == given@
        },
{
    let head = text::decimal(lo as nat);
    let tail = text::decimal(hi as nat);
    ranges::lemma_decimal_is_a_number(lo as nat);
    ranges::lemma_decimal_is_a_number(hi as nat);
    if given@ == head {
        ranges::lemma_no_hyphen(head);
        lemma_one_segment(head);
        assert(ranges::nats(seq![lo]) =~= seq![lo as nat]);
        lemma_same_numbers(out->Ok_0@, seq![lo]);
    }
    let written = head + seq!['-'] + tail;
    if given@ == written {
        ranges::lemma_first_hyphen(head, tail);
        assert(written.first() == head.first());
        assert(written.last() == tail.last());
        text::lemma_nothing_to_trim(written);
        assert(written.take(head.len() as int) =~= head);
        assert(written.skip(head.len() as int + 1) =~= tail);
        assert forall|i: int| 0 <= i < written.len() implies written[i] != ',' by {
            if i < head.len() {
                assert(written[i] == head[i]);
            } else if i > head.len() {
                assert(written[i] == tail[i - head.len() - 1]);
            }
        }
        lemma_one_segment(written);
        if lo <= hi {
            let all = ranges::expansion(lo as nat, hi as nat);
            assert(ranges::nats(out->Ok_0@) == all);
            assert(ranges::nats(out->Ok_0@).len() == out->Ok_0@.len());
            if 0 <= at <= hi - lo {
                assert(ranges::nats(out->Ok_0@)[at] == out->Ok_0@[at] as nat);
                assert(all[at] == lo + at);
            }
        }
    }
}

/// Law: a text of nothing but white space is no list, and is told apart from a
/// malformed one.
pub proof fn law_blank_texts_are_empty(given: &str, out: Result<Vec<usize>, ParseError>, at: int)
    requires
        call_ensures(ranges::parse_ranges, (given,), out),
    ensures
        is_blank(given@) ==> out is Err && out->Err_0 is Empty,
        0 <= at < given@.len() && !text::is_space(given@[at]) ==> !(out is Err && out->Err_0
            is Empty),
{
    if is_blank(given@) {
        lemma_blank_vanishes(given@);
    }
    if 0 <= at < given@.len() && !text::is_space(given@[at]) {
        lemma_something_stays(given@, at);
        lemma_segments_are_never_empty(text::pieces(given@, ','));
    }
}

proof fn lemma_segments_are_never_empty(raw: Seq<Seq<char>>)
    ensures
        ranges::segments(raw) is Err ==> !(ranges::segments(raw)->Err_0 is Empty),
    decreases raw.len(),
{
    if raw.len() > 0 {
        lemma_segments_are_never_empty(raw.drop_last());
    }
}

/// Law: a range that lacks an end is malformed, and what is no number is reported
/// as that, with the text.
pub proof fn law_malformed_segments_are_reported(
    given: &str,
    n: usize,
    out: Result<Vec<usize>, ParseError>,
)
    requires
        call_ensures(ranges::parse_ranges, (given,), out),
    ensures
        given@ == seq!['-'] + text::decimal(n as nat) ==> out is Err && out->Err_0 is InvalidRange
            && out->Err_0->InvalidRange_0@ == given@,
        given@ == text::decimal(n as nat).push('-') ==> out is Err && out->Err_0 is InvalidRange
            && out->Err_0->InvalidRange_0@ == given@,
        given@.len() > 0 && !text::is_space(given@[0]) && !text::is_space(given@.last()) && given@[0]
            != '+' && !given@.contains('-') && !given@.contains(',') && (exists|i: int|
            0 <= i < given@.len() && !('0' <= #[trigger] given@[i] <= '9')) ==> out is Err
            && out->Err_0 is InvalidNumber && out->Err_0->InvalidNumber_0@ == given@,
{
    let digits = text::decimal(n as nat);
    ranges::lemma_decimal_is_a_number(n as nat);
    let none = Seq::<char>::empty();
    lemma_blank_vanishes(none);
    let open = seq!['-'] + digits;
    if given@ == open {
        assert(open[0] == '-');
        assert(open.last() == digits.last());
        text::lemma_nothing_to_trim(open);
        assert(open.take(0) =~= none);
        assert forall|i: int| 0 <= i < open.len() implies open[i] != ',' by {
            if i > 0 {
                assert(open[i] == digits[i - 1]);
            }
        }
        lemma_one_segment(open);
        assert(ranges::hyphen_at(open) == 0);
    }
    let closed = digits.push('-');
    if given@ == closed {
        assert(closed =~= digits + seq!['-'] + none);
        ranges::lemma_first_hyphen(digits, none);
        assert(closed[0] == digits[0]);
        text::lemma_nothing_to_trim(closed);
        assert(closed.skip(digits.len() as int + 1) =~= none);
        assert forall|i: int| 0 <= i < closed.len() implies closed[i] != ',' by {
            if i < digits.len() {
                assert(closed[i] == digits[i]);
            }
        }
        lemma_one_segment(closed);
    }
    if given@.len() > 0 && !text::is_space(given@[0]) && !text::is_space(given@.last()) && given@[0]
        != '+' && !given@.contains('-') && !given@.contains(',') && (exists|i: int|
        0 <= i < given@.len() && !('0' <= #[trigger] given@[i] <= '9')) {
        let i = choose|i: int| 0 <= i < given@.len() && !('0' <= #[trigger] given@[i] <= '9');
        assert(!text::is_digit(given@[i]));
        text::lemma_nothing_to_trim(given@);
        ranges::lemma_no_hyphen(given@);
        lemma_one_segment(given@);
        assert(!text::is_digits(given@));
    }
}

proof fn lemma_pieces_of_both(a: Seq<char>, b: Seq<char>)
    ensures
        text::pieces(a + seq![','] + b, ',') == text::pieces(a, ',') + text::pieces(b, ','),
    decreases b.len(),
{
    let whole = a + seq![','] + b;
    text::lemma_pieces_nonempty(b, ',');
    if b.len() == 0 {
        assert(whole.drop_last() =~= a);
        assert(whole.last() == ',');
        assert(text::pieces(whole, ',') =~= text::pieces(a, ',') + text::pieces(b, ','));
    } else {
        let shorter = b.drop_last();
        lemma_pieces_of_both(a, shorter);
        text::lemma_pieces_nonempty(shorter, ',');
        assert(whole.drop_last() =~= a + seq![','] + shorter);
        assert(whole.last() == b.last());
        let before = text::pieces(a, ',') + text::pieces(shorter, ',');
        assert(before.drop_last() =~= text::pieces(a, ',') + text::pieces(
            shorter,
            ',',
        ).drop_last());
        assert(before.last() == text::pieces(shorter, ',').last());
        assert(text::pieces(whole, ',') =~= text::pieces(a, ',') + text::pieces(b, ','));
    }
}

proof fn lemma_segments_of_both(a: Seq<Seq<char>>, b: Seq<Seq<char>>)
    ensures
        ranges::segments(a + b) == match ranges::segments(a) {
            Err(failure) => Err::<Seq<nat>, ParseFailure>(failure),
            Ok(first) => match ranges::segments(b) {
                Err(failure) => Err(failure),
                Ok(second) => Ok(first + second),
            },
        },
    decreases b.len(),
{
    if b.len() == 0 {
        assert(a + b =~= a);
        if ranges::segments(a) is Ok {
            let first = ranges::segments(a)->Ok_0;
            assert(first + Seq::<nat>::empty() =~= first);
        }
    } else {
        let shorter = b.drop_last();
        lemma_segments_of_both(a, shorter);
        assert((a + b).drop_last() =~= a + shorter);
        assert((a + b).last() == b.last());
        if ranges::segments(a) is Ok && ranges::segments(shorter) is Ok && ranges::segment(
            b.last(),
        ) is Ok {
            let first = ranges::segments(a)->Ok_0;
            let middle = ranges::segments(shorter)->Ok_0;
            let last = ranges::segment(b.last())->Ok_0;
            assert(first + middle + last =~= first + (middle + last));
        }
    }
}

/// Law: a comma puts two lists together. The numbers of the first come before
/// those of the second, and the first failure is the one that is reported.
pub proof fn law_commas_put_lists_together(
    a: &str,
    b: &str,
    both: &str,
    of_a: Result<Vec<usize>, ParseError>,
    of_b: Result<Vec<usize>, ParseError>,
    out: Result<Vec<usize>, ParseError>,
    in_a: int,
    in_b: int,
)
    requires
        call_ensures(ranges::parse_ranges, (a,), of_a),
        call_ensures(ranges::parse_ranges, (b,), of_b),
        call_ensures(ranges::parse_ranges, (both,), out),
        both@ == a@ + seq![','] + b@,
        0 <= in_a < a@.len() && !text::is_space(a@[in_a]),
        0 <= in_b < b@.len() && !text::is_space(b@[in_b]),
    ensures
        out is Ok <==> of_a is Ok && of_b is Ok,
        out is Ok ==> out->Ok_0@ == of_a->Ok_0@ + of_b->Ok_0@,
        of_a is Err ==> out is Err && out->Err_0@ == of_a->Err_0@,
        of_a is Ok && of_b is Err ==> out is Err && out->Err_0@ == of_b->Err_0@,
{
    lemma_something_stays(a@, in_a);
    lemma_something_stays(b@, in_b);
    assert(both@[in_a] == a@[in_a]);
    lemma_something_stays(both@, in_a);
    lemma_pieces_of_both(a@, b@);
    lemma_segments_of_both(text::pieces(a@, ','), text::pieces(b@, ','));
    if out is Ok {
        let joined = of_a->Ok_0@ + of_b->Ok_0@;
        assert(ranges::nats(joined) =~= ranges::nats(of_a->Ok_0@) + ranges::nats(of_b->Ok_0@));
        lemma_same_numbers(out->Ok_0@, joined);
    }
}

} // verus!
