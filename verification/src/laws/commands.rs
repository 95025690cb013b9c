//! What a command line is counted as: the program that it runs, wherever that
//! stands and whatever shell is around it.

use crate::acceptance;
use crate::text;
use vstd::prelude::*;

verus! {

/// Whether a text is a bare name: not empty, and without white space, quotation
/// marks and slashes.
pub open spec fn is_bare(name: Seq<char>) -> bool {
    &&& name.len() > 0
    &&& forall|i: int|
        0 <= i < name.len() ==> {
            &&& !text::is_space(#[trigger] name[i])
            &&& name[i] != '\''
            &&& name[i] != '"'
            &&& name[i] != '/'
        }
}

/// Whether a text can stand before the name of a program: nothing, or a path that
/// ends in a slash, without white space and quotation marks.
pub open spec fn is_place(place: Seq<char>) -> bool {
    &&& place.len() > 0 ==> place.last() == '/'
    &&& forall|i: int|
        0 <= i < place.len() ==> {
            &&& !text::is_space(#[trigger] place[i])
            &&& place[i] != '\''
            &&& place[i] != '"'
        }
}

/// Whether a text is made of quotation marks alone.
pub open spec fn is_quotes(marks: Seq<char>) -> bool {
    forall|i: int| 0 <= i < marks.len() ==> (#[trigger] marks[i] == '\'' || marks[i] == '"')
}

/// Whether a name is that of a shell.
pub open spec fn is_shell_name(name: Seq<char>) -> bool {
    name == "sh"@ || name == "zsh"@ || name == "bash"@
}

proof fn lemma_base(place: Seq<char>, name: Seq<char>)
    requires
        is_place(place),
        forall|i: int| 0 <= i < name.len() ==> #[trigger] name[i] != '/',
    ensures
        acceptance::base_name(place + name) == name,
{
    assert(!name.contains('/'));
    text::lemma_pieces_grow(place, name, '/');
    text::lemma_pieces_nonempty(place, '/');
    if place.len() > 0 {
        assert(text::pieces(place, '/').last() =~= Seq::<char>::empty());
    } else {
        assert(text::pieces(place, '/').last() =~= Seq::<char>::empty());
    }
    assert(Seq::<char>::empty() + name =~= name);
}

proof fn lemma_quotes_at_start(marks: Seq<char>, rest: Seq<char>)
    requires
        is_quotes(marks),
        rest.len() > 0 ==> rest[0] != '\'' && rest[0] != '"',
    ensures
        text::trimmed_start(marks + rest, |c: char| text::is_quote(c)) == rest,
    decreases marks.len(),
{
    if marks.len() == 0 {
        assert(marks + rest =~= rest);
    } else {
        assert((marks + rest).drop_first() =~= marks.drop_first() + rest);
        assert(marks[0] == '\'' || marks[0] == '"');
        assert forall|i: int| 0 <= i < marks.drop_first().len() implies (#[trigger] marks.drop_first()[i]
            == '\'' || marks.drop_first()[i] == '"') by {
            assert(marks[i + 1] == marks.drop_first()[i]);
        }
        lemma_quotes_at_start(marks.drop_first(), rest);
    }
}

proof fn lemma_quotes_at_end(rest: Seq<char>, marks: Seq<char>)
    requires
        is_quotes(marks),
        rest.len() > 0,
        rest.last() != '\'' && rest.last() != '"',
    ensures
        text::trimmed_end(rest + marks, |c: char| text::is_quote(c)) == rest,
    decreases marks.len(),
{
    if marks.len() == 0 {
        assert(rest + marks =~= rest);
    } else {
        let shorter = marks.drop_last();
        assert((rest + marks).drop_last() =~= rest + shorter);
        assert(marks[marks.len() - 1] == '\'' || marks[marks.len() - 1] == '"');
        assert forall|i: int| 0 <= i < shorter.len() implies (#[trigger] shorter[i] == '\''
            || shorter[i] == '"') by {
            assert(marks[i] == shorter[i]);
        }
        lemma_quotes_at_end(rest, shorter);
    }
}

proof fn lemma_unquoted(name: Seq<char>, marks: Seq<char>)
    requires
        is_bare(name),
        is_quotes(marks),
    ensures
        text::unquoted(name + marks) == name,
{
    let whole = name + marks;
    assert(name[0] != '\'');
    assert(name[name.len() - 1] != '\'');
    assert(Seq::<char>::empty() + whole =~= whole);
    lemma_quotes_at_start(Seq::empty(), whole);
    lemma_quotes_at_end(name, marks);
}

proof fn lemma_one_word(word: Seq<char>)
    requires
        word.len() > 0,
        forall|i: int| 0 <= i < word.len() ==> !text::is_space(#[trigger] word[i]),
    ensures
        text::words(word) == seq![word],
    decreases word.len(),
{
    assert(!text::is_space(word[word.len() - 1]));
    if word.len() == 1 {
        assert(word.drop_last() =~= Seq::<char>::empty());
        assert(text::words(word.drop_last()) =~= Seq::<Seq<char>>::empty());
        assert(seq![word.last()] =~= word);
        assert(text::words(word) =~= seq![word]);
    } else {
        let shorter = word.drop_last();
        assert forall|i: int| 0 <= i < shorter.len() implies !text::is_space(
            #[trigger] shorter[i],
        ) by {
            assert(word[i] == shorter[i]);
        }
        lemma_one_word(shorter);
        assert(!text::is_space(word[word.len() - 2]));
        assert(shorter.push(word.last()) =~= word);
        assert(text::words(word) =~= seq![word]);
    }
}

proof fn lemma_first_word(word: Seq<char>, rest: Seq<char>)
    requires
        word.len() > 0,
        forall|i: int| 0 <= i < word.len() ==> !text::is_space(#[trigger] word[i]),
        rest.len() > 0 ==> text::is_space(rest[0]),
    ensures
        text::words(word + rest).len() > 0,
        text::words(word + rest)[0] == word,
        rest.len() > 0 && !text::is_space(rest.last()) ==> text::words(word + rest).len() >= 2,
    decreases rest.len(),
{
    let whole = word + rest;
    if rest.len() == 0 {
        assert(whole =~= word);
        lemma_one_word(word);
    } else {
        let shorter = rest.drop_last();
        assert(whole.drop_last() =~= word + shorter);
        assert(whole.last() == rest.last());
        lemma_first_word(word, shorter);
        if !text::is_space(rest.last()) {
            assert(shorter.len() > 0);
            assert(whole[whole.len() - 2] == shorter.last());
        }
    }
}

proof fn lemma_joined_begins(list: Seq<Seq<char>>)
    requires
        list.len() > 0,
    ensures
        ({
            let whole = text::joined(list, " "@);
            let rest = whole.skip(list[0].len() as int);
            &&& whole == list[0] + rest
            &&& whole.len() >= list[0].len()
            &&& rest.len() > 0 ==> text::is_space(rest[0])
        }),
    decreases list.len(),
{
    reveal_strlit(" ");
    let whole = text::joined(list, " "@);
    if list.len() == 1 {
        assert(whole =~= list[0] + whole.skip(list[0].len() as int));
    } else {
        let front = text::joined(list.drop_last(), " "@);
        lemma_joined_begins(list.drop_last());
        let rest = front.skip(list[0].len() as int);
        assert(whole == front + " "@ + list.last());
        assert(whole.skip(list[0].len() as int) =~= rest + " "@ + list.last());
        assert(whole =~= list[0] + whole.skip(list[0].len() as int));
    }
}

proof fn lemma_options_are_dropped(list: Seq<Seq<char>>, upto: int)
    requires
        0 <= upto < list.len(),
        forall|i: int|
            0 <= i < upto ==> (#[trigger] list[i]).len() > 0 && list[i][0] == '-',
        list[upto].len() > 0 ==> list[upto][0] != '-',
    ensures
        acceptance::behind_options(list) == list.skip(upto),
    decreases upto,
{
    if upto == 0 {
        assert(list.skip(0) =~= list);
    } else {
        let rest = list.drop_first();
        assert forall|i: int| 0 <= i < upto - 1 implies (#[trigger] rest[i]).len() > 0
            && rest[i][0] == '-' by {
            assert(rest[i] == list[i + 1]);
        }
        assert(rest[upto - 1] == list[upto]);
        lemma_options_are_dropped(rest, upto - 1);
        assert(rest.skip(upto - 1) =~= list.skip(upto));
        assert(list[0].len() > 0 && list[0][0] == '-');
    }
}

/// Law: a command line is counted as the program that it begins with, wherever
/// that program stands and whatever its arguments are.
pub proof fn law_commands_are_counted_by_program(
    line: &str,
    place: Seq<char>,
    program: Seq<char>,
    counted: String,
)
    requires
        call_ensures(acceptance::command_signature, (line,), counted),
        text::words(line@).len() > 0,
        text::words(line@)[0] == place + program,
        is_place(place),
        is_bare(program),
        !is_shell_name(program),
    ensures
        counted@ == program,
{
    lemma_base(place, program);
    assert(program + Seq::<char>::empty() =~= program);
    lemma_unquoted(program, Seq::empty());
}

/// Law: a shell hides nothing. A command line that hands a program to a shell,
/// behind any options and inside of quotation marks, is counted as that program.
pub proof fn law_shells_hide_nothing(
    line: &str,
    shell_place: Seq<char>,
    shell: Seq<char>,
    at: int,
    open: Seq<char>,
    place: Seq<char>,
    program: Seq<char>,
    close: Seq<char>,
    counted: String,
)
    requires
        call_ensures(acceptance::command_signature, (line,), counted),
        1 <= at < text::words(line@).len(),
        text::words(line@)[0] == shell_place + shell,
        is_place(shell_place),
        is_shell_name(shell),
        forall|i: int|
            1 <= i < at ==> (#[trigger] text::words(line@)[i]).len() > 0 && text::words(line@)[i][0]
                == '-',
        text::words(line@)[at] == open + (place + (program + close)),
        is_quotes(open),
        is_place(place),
        is_bare(program),
        is_quotes(close),
        open.len() > 0 || place.len() > 0 || program[0] != '-',
        open.len() == 0 && place.len() > 0 ==> place[0] != '-',
    ensures
        counted@ == program,
{
    let all = text::words(line@);
    reveal_strlit("sh");
    reveal_strlit("zsh");
    reveal_strlit("bash");
    assert(forall|i: int| 0 <= i < shell.len() ==> #[trigger] shell[i] != '/');
    lemma_base(shell_place, shell);
    let inner = all.skip(1);
    assert forall|i: int| 0 <= i < at - 1 implies (#[trigger] inner[i]).len() > 0 && inner[i][0]
        == '-' by {
        assert(inner[i] == all[i + 1]);
    }
    let word = all[at];
    assert(inner[at - 1] == word);
    let core = place + (program + close);
    assert(!text::is_space(program[0]) && program[0] != '\'' && program[0] != '"');
    assert(core[0] == if place.len() > 0 {
        place[0]
    } else {
        program[0]
    });
    assert(core[0] != '\'' && core[0] != '"') by {
        if place.len() > 0 {
            assert(!text::is_space(place[0]));
        }
    }
    assert(word[0] != '-') by {
        if open.len() > 0 {
            assert(open[0] == '\'' || open[0] == '"');
            assert(word[0] == open[0]);
        } else {
            assert(word[0] == core[0]);
        }
    }
    lemma_options_are_dropped(inner, at - 1);
    let list = inner.skip(at - 1);
    assert(acceptance::behind_options(inner) == list);
    assert(list[0] == word);
    lemma_joined_begins(list);
    let wrapped = text::joined(list, " "@);
    let rest = wrapped.skip(word.len() as int);
    assert(wrapped == word + rest);
    assert(wrapped =~= open + (core + rest));
    assert((core + rest)[0] == core[0]);
    lemma_quotes_at_start(open, core + rest);
    assert forall|i: int| 0 <= i < core.len() implies !text::is_space(#[trigger] core[i]) by {
        if i < place.len() {
            assert(core[i] == place[i]);
            assert(!text::is_space(place[i]));
        } else if i < place.len() + program.len() {
            assert(core[i] == program[i - place.len()]);
            assert(!text::is_space(program[i - place.len()]));
        } else {
            let j = i - place.len() - program.len();
            assert(core[i] == close[j]);
            assert(close[j] == '\'' || close[j] == '"');
        }
    }
    lemma_first_word(core, rest);
    let tail = program + close;
    assert forall|i: int| 0 <= i < tail.len() implies #[trigger] tail[i] != '/' by {
        if i < program.len() {
            assert(program[i] != '/');
        } else {
            assert(close[i - program.len()] == '\'' || close[i - program.len()] == '"');
        }
    }
    lemma_base(place, tail);
    lemma_unquoted(program, close);
}

proof fn lemma_all_options(list: Seq<Seq<char>>)
    requires
        forall|i: int|
            0 <= i < list.len() ==> (#[trigger] list[i]).len() > 0 && list[i][0] == '-',
    ensures
        acceptance::behind_options(list).len() == 0,
    decreases list.len(),
{
    if list.len() > 0 {
        let rest = list.drop_first();
        assert forall|i: int| 0 <= i < rest.len() implies (#[trigger] rest[i]).len() > 0
            && rest[i][0] == '-' by {
            assert(rest[i] == list[i + 1]);
        }
        assert(list[0].len() > 0 && list[0][0] == '-');
        lemma_all_options(rest);
    }
}

/// Law: a command line that names no program, not even inside of a shell, is
/// counted as unknown.
pub proof fn law_nothing_is_counted_as_unknown(
    line: &str,
    place: Seq<char>,
    shell: Seq<char>,
    counted: String,
)
    requires
        call_ensures(acceptance::command_signature, (line,), counted),
        text::words(line@).len() == 0 || {
            &&& text::words(line@)[0] == place + shell
            &&& is_place(place)
            &&& is_shell_name(shell)
            &&& forall|i: int|
                1 <= i < text::words(line@).len() ==> (#[trigger] text::words(line@)[i]).len() > 0
                    && text::words(line@)[i][0] == '-'
        },
    ensures
        counted@ == "unknown"@,
{
    reveal_strlit("unknown");
    reveal_strlit("sh");
    reveal_strlit("zsh");
    reveal_strlit("bash");
    let name = "unknown"@;
    assert(is_bare(name));
    assert(Seq::<char>::empty() + name =~= name);
    lemma_base(Seq::empty(), name);
    assert(name + Seq::<char>::empty() =~= name);
    lemma_unquoted(name, Seq::empty());
    assert(name.len() == 7);
    let all = text::words(line@);
    if all.len() > 0 {
        assert(forall|i: int| 0 <= i < shell.len() ==> #[trigger] shell[i] != '/');
        lemma_base(place, shell);
        let inner = all.skip(1);
        assert forall|i: int| 0 <= i < inner.len() implies (#[trigger] inner[i]).len() > 0
            && inner[i][0] == '-' by {
            assert(inner[i] == all[i + 1]);
        }
        lemma_all_options(inner);
        assert(acceptance::behind_options(inner) =~= Seq::<Seq<char>>::empty());
        assert(text::joined(Seq::<Seq<char>>::empty(), " "@) =~= Seq::<char>::empty());
        let nothing = text::trimmed_start(Seq::<char>::empty(), |c: char| text::is_quote(c));
        assert(nothing =~= Seq::<char>::empty());
        assert(text::words(nothing).len() == 0);
    }
}

} // verus!
