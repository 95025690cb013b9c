//! What is shown of an event stream: what happened, and how it stands.

use crate::events::{
    CommandExecutionStatus, McpToolCallStatus, PatchApplyStatus, ThreadEvent, ThreadItemDetails,
};
use crate::observe;
use crate::text;
use vstd::prelude::*;

verus! {

/// A text on one line, cut to size.
pub open spec fn brief(s: Seq<char>, max: nat) -> Seq<char> {
    let flat = Seq::new(
        s.len(),
        |i: int|
            if s[i] == '\n' {
                ' '
            } else {
                s[i]
            },
    );
    if s.len() <= max {
        flat
    } else {
        flat.take(max as int).push('…')
    }
}

/// A text on one line.
pub open spec fn flat(s: Seq<char>) -> Seq<char> {
    Seq::new(
        s.len(),
        |i: int|
            if s[i] == '\n' {
                ' '
            } else {
                s[i]
            },
    )
}

proof fn lemma_brief(s: Seq<char>, max: nat)
    ensures
        observe::shown_text(s, max) == brief(s, max),
        text::on_one_line(s) == flat(s),
{
    assert(text::on_one_line(s) =~= flat(s));
}

/// Law: an item is shown by what it is, what it says and how it stands; what a
/// model thought is shown by its length alone, and what is not known by its kind.
pub proof fn law_items_are_shown_for_what_they_are(item: ThreadItemDetails, out: String)
    requires
        call_ensures(observe::summarize_item, (&item,), out),
    ensures
        item matches ThreadItemDetails::AgentMessage { text } ==> out@ == "agent: "@ + brief(
            text@,
            120,
        ),
        item matches ThreadItemDetails::Reasoning { text } ==> out@ == "thinking ("@
            + text::decimal(text@.len()) + " chars)"@,
        item matches ThreadItemDetails::CommandExecution { command, exit_code, status } ==> out@
            == "$ "@ + brief(command@, 100) + " → "@ + (if status
            == CommandExecutionStatus::InProgress {
            "…"@
        } else if exit_code is Some {
            "exit "@ + text::signed_decimal(exit_code->Some_0 as int)
        } else if status == CommandExecutionStatus::Completed {
            "completed"@
        } else if status == CommandExecutionStatus::Failed {
            "failed"@
        } else {
            "declined"@
        }),
        item matches ThreadItemDetails::McpToolCall { server, tool, status } ==> out@ == "mcp "@
            + flat(server@) + "::"@ + flat(tool@) + " ["@ + (if status
            == McpToolCallStatus::InProgress {
            "InProgress"@
        } else if status == McpToolCallStatus::Completed {
            "Completed"@
        } else {
            "Failed"@
        }) + "]"@,
        item matches ThreadItemDetails::WebSearch { query } ==> out@ == "web search: "@ + brief(
            query@,
            80,
        ),
        item matches ThreadItemDetails::TodoList { items } ==> out@ == "todo list ("@
            + text::decimal(items as nat) + " items)"@,
        item matches ThreadItemDetails::Error { message } ==> out@ == "item error: "@ + brief(
            message@,
            120,
        ),
        item matches ThreadItemDetails::Other { kind: Some(name) } ==> out@ == flat(name@),
        item matches ThreadItemDetails::Other { kind: None } ==> out@ == "unknown item"@,
{
    match item {
        ThreadItemDetails::AgentMessage { text } => lemma_brief(text@, 120),
        ThreadItemDetails::CommandExecution { command, .. } => lemma_brief(command@, 100),
        ThreadItemDetails::McpToolCall { server, tool, .. } => {
            lemma_brief(server@, 0);
            lemma_brief(tool@, 0);
        },
        ThreadItemDetails::WebSearch { query } => lemma_brief(query@, 80),
        ThreadItemDetails::Error { message } => lemma_brief(message@, 120),
        ThreadItemDetails::Other { kind: Some(name) } => lemma_brief(name@, 0),
        _ => {},
    }
}

/// Law: a patch is shown with how it stands, how many files it touches and the
/// names of the first three, with a mark where there are more.
pub proof fn law_patches_are_shown_with_their_files(
    paths: Vec<String>,
    status: PatchApplyStatus,
    out: String,
)
    requires
        call_ensures(
            observe::summarize_item,
            (&ThreadItemDetails::FileChange { paths, status },),
            out,
        ),
    ensures
        ({
            let stands = if status == PatchApplyStatus::InProgress {
                "InProgress"@
            } else if status == PatchApplyStatus::Completed {
                "Completed"@
            } else {
                "Failed"@
            };
            let front = "patch ["@ + stands + "] "@ + text::decimal(paths@.len()) + " file(s): "@;
            &&& paths@.len() == 0 ==> out@ == front
            &&& paths@.len() == 1 ==> out@ == front + flat(paths@[0]@)
            &&& paths@.len() == 2 ==> out@ == front + flat(
                paths@[0]@ + ", "@ + paths@[1]@,
            )
            &&& paths@.len() == 3 ==> out@ == front + flat(
                paths@[0]@ + ", "@ + paths@[1]@ + ", "@ + paths@[2]@,
            )
            &&& paths@.len() > 3 ==> out@ == front + flat(
                paths@[0]@ + ", "@ + paths@[1]@ + ", "@ + paths@[2]@ + ", …"@,
            )
        }),
{
    let all = text::texts(paths@);
    let named = observe::named_files(all);
    lemma_brief(named, 0);
    reveal_strlit("");
    let first = if all.len() > 3 {
        all.take(3)
    } else {
        all
    };
    assert(forall|i: int| 0 <= i < first.len() ==> first[i] == paths@[i]@);
    reveal_with_fuel(text::joined, 4);
    if first.len() == 0 {
        assert(named =~= Seq::<char>::empty());
        assert(flat(named) =~= Seq::<char>::empty());
    } else if first.len() == 1 {
        assert(named =~= paths@[0]@);
    } else if first.len() == 2 {
        assert(first.drop_last().len() == 1);
        assert(named =~= paths@[0]@ + ", "@ + paths@[1]@);
    } else {
        assert(first.drop_last().len() == 2);
        assert(first.drop_last().drop_last().len() == 1);
        let three = paths@[0]@ + ", "@ + paths@[1]@ + ", "@ + paths@[2]@;
        assert(text::joined(first.drop_last(), ", "@) == paths@[0]@ + ", "@ + paths@[1]@);
        assert(text::joined(first, ", "@) == three);
        assert(named =~= if all.len() > 3 {
            three + ", …"@
        } else {
            three
        });
    }
}

/// Law: an event is shown by its kind, and its item by how the item itself is
/// shown; the cost of a turn is shown as it was counted.
pub proof fn law_events_are_shown_for_what_they_are(
    event: ThreadEvent,
    out: String,
    inner: ThreadItemDetails,
    of_item: String,
)
    requires
        call_ensures(observe::summarize_event, (&event,), out),
        call_ensures(observe::summarize_item, (&inner,), of_item),
    ensures
        event matches ThreadEvent::ThreadStarted { thread_id } ==> out@ == "▶ thread "@ + flat(
            thread_id@,
        ),
        event is TurnStarted ==> out@ == "· turn started"@,
        event matches ThreadEvent::TurnCompleted { usage } ==> out@ == "✓ turn completed (in "@
            + text::signed_decimal(usage.input_tokens as int) + " / cached "@
            + text::signed_decimal(usage.cached_input_tokens as int) + " / out "@
            + text::signed_decimal(usage.output_tokens as int) + ")"@,
        event matches ThreadEvent::TurnFailed { message } ==> out@ == "✗ turn failed: "@ + brief(
            message@,
            120,
        ),
        event matches ThreadEvent::Error { message } ==> out@ == "‼ stream error: "@ + brief(
            message@,
            120,
        ),
        event matches ThreadEvent::ItemStarted { item } && item == inner ==> out@ == "… "@
            + of_item@,
        event matches ThreadEvent::ItemUpdated { item } && item == inner ==> out@ == "↻ "@
            + of_item@,
        event matches ThreadEvent::ItemCompleted { item } && item == inner ==> out@ == "✓ "@
            + of_item@,
{
    match event {
        ThreadEvent::ThreadStarted { thread_id } => lemma_brief(thread_id@, 0),
        ThreadEvent::TurnFailed { message } => lemma_brief(message@, 120),
        ThreadEvent::Error { message } => lemma_brief(message@, 120),
        _ => {},
    }
}

/// Law: a line that is no event is shown as it is, cut to size and marked; one
/// that is an event is shown as that event. Either way it stays one line.
pub proof fn law_lines_are_shown_as_events_or_as_they_are(
    line: &str,
    event: Option<ThreadEvent>,
    out: String,
    of_event: String,
)
    requires
        call_ensures(observe::summarize_line, (line, &event), out),
        event matches Some(read) ==> call_ensures(observe::summarize_event, (&read,), of_event),
    ensures
        event is Some ==> out@ == of_event@,
        event is None ==> out@ == "⚠ unparsed: "@ + brief(line@, 120),
        !out@.contains('\n'),
{
    lemma_brief(line@, 120);
    observe::law_one_line_each(line@, event);
}

/// Law: the end of a stream is its last lines, as many as were asked for and no
/// more than there are, oldest first; a stream that does not exist has none.
pub proof fn law_tails_are_the_last_lines<F: Fn(&str) -> Option<ThreadEvent>>(
    raw: Option<&str>,
    lines: usize,
    read: F,
    out: Vec<String>,
    at: int,
)
    requires
        forall|line: &str| #[trigger] read.requires((line,)),
        call_ensures(observe::tail_summarized::<F>, (raw, lines, read), out),
    ensures
        raw is None ==> out@.len() == 0,
        raw matches Some(stream) ==> {
            let all = text::lines_of(stream@);
            &&& all.len() <= lines ==> out@.len() == all.len()
            &&& all.len() > lines ==> out@.len() == lines
            &&& 0 <= at < out@.len() ==> exists|given: &str, event: Option<ThreadEvent>|
                given@ == all[all.len() - out@.len() + at] && #[trigger] read.ensures(
                    (given,),
                    event,
                ) && out@[at]@ == observe::line_summary(given@, event)
        },
{
    if raw is Some {
        let stream = raw->Some_0;
        let kept = observe::last_lines(stream@, lines as nat);
        if 0 <= at < out@.len() {
            assert(observe::shown_as(read, kept[at], out@[at]@));
            let (given, event) = choose|given: &str, event: Option<ThreadEvent>|
                given@ == kept[at] && #[trigger] read.ensures((given,), event) && out@[at]@
                    == observe::line_summary(kept[at], event);
            assert(read.ensures((given,), event));
        }
    }
}

/// Law: a snippet is the text itself where it is short enough, and its beginning
/// with a mark where it is not.
pub proof fn law_snippets_are_cut_at_the_limit(given: &str, max_chars: usize, out: String)
    requires
        call_ensures(observe::snippet, (given, max_chars), out),
    ensures
        given@.len() <= max_chars ==> out@ == given@,
        given@.len() > max_chars ==> out@ == given@.take(max_chars as int).push('…'),
{
}

} // verus!
