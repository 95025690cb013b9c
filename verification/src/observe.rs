//! What is shown of an event stream: one short line per event.
//!
//! The raw stream stays on disk. Whoever watches a task gets summaries, so that
//! watching stays cheap however much the task prints.

use crate::events::{
    CommandExecutionStatus, McpToolCallStatus, PatchApplyStatus, ThreadEvent, ThreadItemDetails,
};
use crate::text;
use vstd::prelude::*;

verus! {

/// How much of a text is shown.
pub const SNIPPET: usize = 120;

/// How much of a command line is shown.
pub const COMMAND_SNIPPET: usize = 100;

/// How much of a search is shown.
pub const QUERY_SNIPPET: usize = 80;

/// How many of the files of a patch are named.
pub const NAMED_FILES: usize = 3;

/// Cuts `text` down to `max_chars` characters and marks the cut.
pub fn snippet(text: &str, max_chars: usize) -> (out: String)
    ensures
        out@ == text::clipped(text@, max_chars as nat),
{
    text::clip(text, max_chars)
}

/// What is shown of a text from the stream: on one line, cut to size.
pub open spec fn shown_text(s: Seq<char>, max: nat) -> Seq<char> {
    text::clipped(text::on_one_line(s), max)
}

fn show_text(text: &str, max_chars: usize) -> (out: String)
    ensures
        out@ == shown_text(text@, max_chars as nat),
{
    snippet(text::flatten(text).as_str(), max_chars)
}

/// How a command ended, or that it has not.
pub open spec fn command_end(status: CommandExecutionStatus, exit_code: Option<i32>) -> Seq<char> {
    match (status, exit_code) {
        (CommandExecutionStatus::InProgress, _) => "…"@,
        (_, Some(code)) => "exit "@ + text::signed_decimal(code as int),
        (CommandExecutionStatus::Completed, None) => "completed"@,
        (CommandExecutionStatus::Failed, None) => "failed"@,
        (CommandExecutionStatus::Declined, None) => "declined"@,
    }
}

fn show_command_end(status: CommandExecutionStatus, exit_code: Option<i32>) -> (out: String)
    ensures
        out@ == command_end(status, exit_code),
{
    match (status, exit_code) {
        (CommandExecutionStatus::InProgress, _) => "…".to_owned(),
        (_, Some(code)) => text::cat2(
            "exit ",
            text::signed_decimal_text(code as i64).as_str(),
        ),
        (CommandExecutionStatus::Completed, None) => "completed".to_owned(),
        (CommandExecutionStatus::Failed, None) => "failed".to_owned(),
        (CommandExecutionStatus::Declined, None) => "declined".to_owned(),
    }
}

/// How a patch stands, in words.
pub open spec fn patch_status(status: PatchApplyStatus) -> Seq<char> {
    match status {
        PatchApplyStatus::InProgress => "InProgress"@,
        PatchApplyStatus::Completed => "Completed"@,
        PatchApplyStatus::Failed => "Failed"@,
    }
}

fn show_patch_status(status: PatchApplyStatus) -> (out: String)
    ensures
        out@ == patch_status(status),
{
    match status {
        PatchApplyStatus::InProgress => "InProgress".to_owned(),
        PatchApplyStatus::Completed => "Completed".to_owned(),
        PatchApplyStatus::Failed => "Failed".to_owned(),
    }
}

/// How a tool call stands, in words.
pub open spec fn call_status(status: McpToolCallStatus) -> Seq<char> {
    match status {
        McpToolCallStatus::InProgress => "InProgress"@,
        McpToolCallStatus::Completed => "Completed"@,
        McpToolCallStatus::Failed => "Failed"@,
    }
}

fn show_call_status(status: McpToolCallStatus) -> (out: String)
    ensures
        out@ == call_status(status),
{
    match status {
        McpToolCallStatus::InProgress => "InProgress".to_owned(),
        McpToolCallStatus::Completed => "Completed".to_owned(),
        McpToolCallStatus::Failed => "Failed".to_owned(),
    }
}

/// The first files of a patch, and whether there are more.
pub open spec fn named_files(paths: Seq<Seq<char>>) -> Seq<char> {
    if paths.len() > NAMED_FILES {
        text::joined(paths.take(NAMED_FILES as int), ", "@) + ", …"@
    } else {
        text::joined(paths, ", "@) + ""@
    }
}

fn show_named_files(paths: &Vec<String>) -> (out: String)
    ensures
        out@ == named_files(text::texts(paths@)),
{
    let ghost all = text::texts(paths@);
    let count: usize = if paths.len() > NAMED_FILES {
        NAMED_FILES
    } else {
        paths.len()
    };
    let mut first: Vec<String> = Vec::new();
    let mut at: usize = 0;
    assert(text::texts(first@) =~= all.take(0));
    while at < count
        invariant
            at <= count <= paths@.len(),
            all == text::texts(paths@),
            text::texts(first@) == all.take(at as int),
        decreases count - at,
    {
        let ghost earlier = first@;
        first.push(paths[at].clone());
        assert(text::texts(first@) =~= text::texts(earlier).push(all[at as int]));
        assert(all.take(at + 1) =~= all.take(at as int).push(all[at as int]));
        at = at + 1;
    }
    assert(count == paths@.len() ==> all.take(count as int) =~= all);
    let names = text::join(&first, ", ");
    if paths.len() > NAMED_FILES {
        text::cat2(names.as_str(), ", …")
    } else {
        text::cat2(names.as_str(), "")
    }
}

/// One line for an item. Items of other kinds are shown by their kind alone,
/// and nothing of what is in them.
pub open spec fn item_summary(item: ThreadItemDetails) -> Seq<char> {
    match item {
        ThreadItemDetails::AgentMessage { text } => "agent: "@ + shown_text(
            text@,
            SNIPPET as nat,
        ),
        ThreadItemDetails::Reasoning { text } => "thinking ("@ + text::decimal(text@.len())
            + " chars)"@,
        ThreadItemDetails::CommandExecution { command, exit_code, status } => "$ "@ + shown_text(
            command@,
            COMMAND_SNIPPET as nat,
        ) + " → "@ + command_end(status, exit_code),
        ThreadItemDetails::FileChange { paths, status } => "patch ["@ + patch_status(status) + "] "@
            + text::decimal(paths@.len()) + " file(s): "@ + text::on_one_line(
            named_files(text::texts(paths@)),
        ),
        ThreadItemDetails::McpToolCall { server, tool, status } => "mcp "@
            + text::on_one_line(server@) + "::"@ + text::on_one_line(tool@) + " ["@ + call_status(status) + "]"@,
        ThreadItemDetails::WebSearch { query } => "web search: "@ + shown_text(
            query@,
            QUERY_SNIPPET as nat,
        ),
        ThreadItemDetails::TodoList { items } => "todo list ("@ + text::decimal(items as nat)
            + " items)"@,
        ThreadItemDetails::Error { message } => "item error: "@ + shown_text(
            message@,
            SNIPPET as nat,
        ),
        ThreadItemDetails::Other { kind } => match kind {
            Some(name) => text::on_one_line(name@),
            None => "unknown item"@,
        },
    }
}

/// One line for an item.
pub fn summarize_item(item: &ThreadItemDetails) -> (out: String)
    ensures
        out@ == item_summary(*item),
{
    match item {
        ThreadItemDetails::AgentMessage { text } => text::cat2(
            "agent: ",
            show_text(text.as_str(), SNIPPET).as_str(),
        ),
        ThreadItemDetails::Reasoning { text } => {
            let length: usize = text::chars_of(text.as_str()).len();
            text::cat3("thinking (", text::decimal_text(length as u128).as_str(), " chars)")
        },
        ThreadItemDetails::CommandExecution { command, exit_code, status } => text::cat4(
            "$ ",
            show_text(command.as_str(), COMMAND_SNIPPET).as_str(),
            " → ",
            show_command_end(*status, *exit_code).as_str(),
        ),
        ThreadItemDetails::FileChange { paths, status } => text::cat6(
            "patch [",
            show_patch_status(*status).as_str(),
            "] ",
            text::decimal_text(paths.len() as u128).as_str(),
            " file(s): ",
            text::flatten(show_named_files(paths).as_str()).as_str(),
        ),
        ThreadItemDetails::McpToolCall { server, tool, status } => text::cat7(
            "mcp ",
            text::flatten(server.as_str()).as_str(),
            "::",
            text::flatten(tool.as_str()).as_str(),
            " [",
            show_call_status(*status).as_str(),
            "]",
        ),
        ThreadItemDetails::WebSearch { query } => text::cat2(
            "web search: ",
            show_text(query.as_str(), QUERY_SNIPPET).as_str(),
        ),
        ThreadItemDetails::TodoList { items } => text::cat3(
            "todo list (",
            text::decimal_text(*items as u128).as_str(),
            " items)",
        ),
        ThreadItemDetails::Error { message } => text::cat2(
            "item error: ",
            show_text(message.as_str(), SNIPPET).as_str(),
        ),
        ThreadItemDetails::Other { kind } => match kind {
            Some(name) => text::flatten(name.as_str()),
            None => "unknown item".to_owned(),
        },
    }
}

/// One line for an event.
pub open spec fn event_summary(event: ThreadEvent) -> Seq<char> {
    match event {
        ThreadEvent::ThreadStarted { thread_id } => "▶ thread "@ + text::on_one_line(thread_id@),
        ThreadEvent::TurnStarted => "· turn started"@,
        ThreadEvent::TurnCompleted { usage } => "✓ turn completed (in "@ + text::signed_decimal(
            usage.input_tokens as int,
        ) + " / cached "@ + text::signed_decimal(usage.cached_input_tokens as int) + " / out "@
            + text::signed_decimal(usage.output_tokens as int) + ")"@,
        ThreadEvent::TurnFailed { message } => "✗ turn failed: "@ + shown_text(
            message@,
            SNIPPET as nat,
        ),
        ThreadEvent::Error { message } => "‼ stream error: "@ + shown_text(
            message@,
            SNIPPET as nat,
        ),
        ThreadEvent::ItemStarted { item } => "… "@ + item_summary(item),
        ThreadEvent::ItemUpdated { item } => "↻ "@ + item_summary(item),
        ThreadEvent::ItemCompleted { item } => "✓ "@ + item_summary(item),
    }
}

/// One line for an event.
pub fn summarize_event(event: &ThreadEvent) -> (out: String)
    ensures
        out@ == event_summary(*event),
{
    match event {
        ThreadEvent::ThreadStarted { thread_id } => text::cat2(
            "▶ thread ",
            text::flatten(thread_id.as_str()).as_str(),
        ),
        ThreadEvent::TurnStarted => "· turn started".to_owned(),
        ThreadEvent::TurnCompleted { usage } => text::cat7(
            "✓ turn completed (in ",
            text::signed_decimal_text(usage.input_tokens).as_str(),
            " / cached ",
            text::signed_decimal_text(usage.cached_input_tokens).as_str(),
            " / out ",
            text::signed_decimal_text(usage.output_tokens).as_str(),
            ")",
        ),
        ThreadEvent::TurnFailed { message } => text::cat2(
            "✗ turn failed: ",
            show_text(message.as_str(), SNIPPET).as_str(),
        ),
        ThreadEvent::Error { message } => text::cat2(
            "‼ stream error: ",
            show_text(message.as_str(), SNIPPET).as_str(),
        ),
        ThreadEvent::ItemStarted { item } => text::cat2("… ", summarize_item(item).as_str()),
        ThreadEvent::ItemUpdated { item } => text::cat2("↻ ", summarize_item(item).as_str()),
        ThreadEvent::ItemCompleted { item } => text::cat2("✓ ", summarize_item(item).as_str()),
    }
}

/// One line for a line of the raw stream, given the event that it was read as.
/// A line that is no event is shown as it is, cut to size. Line feeds inside of
/// what the stream says become spaces: one line of the stream is one line here.
pub open spec fn line_summary(line: Seq<char>, event: Option<ThreadEvent>) -> Seq<char> {
    match event {
        Some(event) => event_summary(event),
        None => "⚠ unparsed: "@ + shown_text(line, SNIPPET as nat),
    }
}

/// One line for a line of the raw stream, given the event that it was read as.
pub fn summarize_line(line: &str, event: &Option<ThreadEvent>) -> (out: String)
    ensures
        out@ == line_summary(line@, *event),
{
    match event {
        Some(event) => summarize_event(event),
        None => text::cat2("⚠ unparsed: ", show_text(line, SNIPPET).as_str()),
    }
}

/// How many of `total` lines are left out when only the last `lines` are shown.
pub open spec fn left_out(total: nat, lines: nat) -> int {
    if total > lines {
        total - lines
    } else {
        0
    }
}

/// The last `lines` lines of a raw stream, all of them where there are fewer.
pub open spec fn last_lines(raw: Seq<char>, lines: nat) -> Seq<Seq<char>> {
    let all = text::lines_of(raw);
    all.skip(left_out(all.len(), lines))
}

/// Summaries of the last `lines` lines of a raw stream, oldest first. `read`
/// reads a line as an event. A stream that does not exist yet gives no lines.
pub fn tail_summarized<F: Fn(&str) -> Option<ThreadEvent>>(
    raw: Option<&str>,
    lines: usize,
    read: F,
) -> (out: Vec<String>)
    requires
        forall|line: &str| #[trigger] read.requires((line,)),
    ensures
        match raw {
            None => out@.len() == 0,
            Some(stream) => {
                &&& out@.len() == last_lines(stream@, lines as nat).len()
                &&& forall|i: int|
                    0 <= i < out@.len() ==> shown_as(
                        read,
                        last_lines(stream@, lines as nat)[i],
                        (#[trigger] out@[i])@,
                    )
            },
        },
        forall|i: int| 0 <= i < out@.len() ==> !(#[trigger] out@[i])@.contains('\n'),
{
    let mut out: Vec<String> = Vec::new();
    match raw {
        None => out,
        Some(stream) => {
            let all = text::split_lines(stream);
            let start: usize = if all.len() > lines {
                all.len() - lines
            } else {
                0
            };
            let ghost kept = last_lines(stream@, lines as nat);
            assert(kept =~= text::texts(all@).skip(start as int));
            let mut at: usize = start;
            while at < all.len()
                invariant
                    start <= at <= all@.len(),
                    kept == text::texts(all@).skip(start as int),
                    forall|line: &str| #[trigger] read.requires((line,)),
                    out@.len() == at - start,
                    forall|i: int|
                        0 <= i < out@.len() ==> shown_as(read, kept[i], (#[trigger] out@[i])@),
                    forall|i: int| 0 <= i < out@.len() ==> !(#[trigger] out@[i])@.contains('\n'),
                decreases all@.len() - at,
            {
                let line = all[at].as_str();
                let event = read(line);
                let summary = summarize_line(line, &event);
                assert(kept[at - start] == line@);
                assert(shown_as(read, kept[at - start], summary@));
                proof {
                    law_one_line_each(line@, event);
                }
                out.push(summary);
                at = at + 1;
            }
            out
        },
    }
}

/// Whether `shown` is the summary of `line` for an event that `read` gives for
/// a text that says the same.
pub open spec fn shown_as<F: Fn(&str) -> Option<ThreadEvent>>(
    read: F,
    line: Seq<char>,
    shown: Seq<char>,
) -> bool {
    exists|given: &str, event: Option<ThreadEvent>|
        given@ == line && #[trigger] read.ensures((given,), event) && shown == line_summary(
            line,
            event,
        )
}

/// Law: what is shown of a text from the model, of an error or of a line that
/// is no event is bounded, however long the text is.
pub proof fn law_summaries_are_bounded(line: Seq<char>, message: String)
    ensures
        line_summary(line, None).len() <= "⚠ unparsed: "@.len() + SNIPPET + 1,
        event_summary(ThreadEvent::Error { message }).len() <= "‼ stream error: "@.len() + SNIPPET
            + 1,
        event_summary(ThreadEvent::TurnFailed { message }).len() <= "✗ turn failed: "@.len()
            + SNIPPET + 1,
        item_summary(ThreadItemDetails::AgentMessage { text: message }).len() <= "agent: "@.len()
            + SNIPPET + 1,
        item_summary(ThreadItemDetails::Error { message }).len() <= "item error: "@.len() + SNIPPET
            + 1,
{
    text::law_clipped_is_bounded_and_stable(text::on_one_line(line), SNIPPET as nat);
    text::law_clipped_is_bounded_and_stable(text::on_one_line(message@), SNIPPET as nat);
}

/// Law: a line of the raw stream gives one line, whatever the event that it was
/// read as says.
pub proof fn law_one_line_each(line: Seq<char>, event: Option<ThreadEvent>)
    ensures
        !line_summary(line, event).contains('\n'),
{
    reveal_strlit("⚠ unparsed: ");
    match event {
        Some(event) => lemma_event_on_one_line(event),
        None => lemma_flat_behind("⚠ unparsed: "@, line, SNIPPET as nat),
    }
}

proof fn lemma_flat(s: Seq<char>, max: nat)
    ensures
        !text::on_one_line(s).contains('\n'),
        !shown_text(s, max).contains('\n'),
{
    let flat = text::on_one_line(s);
    assert forall|i: int| 0 <= i < flat.len() implies flat[i] != '\n' by {}
    let cut = shown_text(s, max);
    assert forall|i: int| 0 <= i < cut.len() implies cut[i] != '\n' by {
        if i < flat.len() && i < max {
            assert(cut[i] == flat[i]);
        }
    }
}

proof fn lemma_both_flat(a: Seq<char>, b: Seq<char>)
    requires
        !a.contains('\n'),
        !b.contains('\n'),
    ensures
        !(a + b).contains('\n'),
{
    let both = a + b;
    assert forall|i: int| 0 <= i < both.len() implies both[i] != '\n' by {
        if i < a.len() {
            assert(both[i] == a[i]);
            assert(a.contains(a[i]));
        } else {
            assert(both[i] == b[i - a.len()]);
            assert(b.contains(b[i - a.len()]));
        }
    }
}

proof fn lemma_flat_behind(front: Seq<char>, s: Seq<char>, max: nat)
    requires
        !front.contains('\n'),
    ensures
        !(front + text::on_one_line(s)).contains('\n'),
        !(front + shown_text(s, max)).contains('\n'),
{
    lemma_flat(s, max);
    lemma_both_flat(front, text::on_one_line(s));
    lemma_both_flat(front, shown_text(s, max));
}

proof fn lemma_number_flat(n: int)
    ensures
        n >= 0 ==> !text::decimal(n as nat).contains('\n'),
        !text::signed_decimal(n).contains('\n'),
{
    reveal_strlit("-");
    let size = if n < 0 {
        (-n) as nat
    } else {
        n as nat
    };
    text::law_decimal_reads_back(size);
    let digits = text::decimal(size);
    assert forall|i: int| 0 <= i < digits.len() implies digits[i] != '\n' by {
        assert(text::is_digit(digits[i]));
    }
    let signed = text::signed_decimal(n);
    assert forall|i: int| 0 <= i < signed.len() implies signed[i] != '\n' by {
        if n < 0 && i > 0 {
            assert(signed[i] == digits[i - 1]);
        }
    }
}

proof fn lemma_item_on_one_line(item: ThreadItemDetails)
    ensures
        !item_summary(item).contains('\n'),
{
    match item {
        ThreadItemDetails::AgentMessage { text } => {
            reveal_strlit("agent: ");
            lemma_flat_behind("agent: "@, text@, SNIPPET as nat);
        },
        ThreadItemDetails::Reasoning { text } => {
            reveal_strlit("thinking (");
            reveal_strlit(" chars)");
            lemma_number_flat(text@.len() as int);
            lemma_both_flat("thinking ("@, text::decimal(text@.len()));
            lemma_both_flat("thinking ("@ + text::decimal(text@.len()), " chars)"@);
        },
        ThreadItemDetails::CommandExecution { command, exit_code, status } => {
            reveal_strlit("$ ");
            reveal_strlit(" → ");
            reveal_strlit("…");
            reveal_strlit("exit ");
            reveal_strlit("completed");
            reveal_strlit("failed");
            reveal_strlit("declined");
            let front = "$ "@ + shown_text(command@, COMMAND_SNIPPET as nat);
            lemma_flat_behind("$ "@, command@, COMMAND_SNIPPET as nat);
            if exit_code is Some {
                lemma_number_flat(exit_code->Some_0 as int);
                lemma_both_flat("exit "@, text::signed_decimal(exit_code->Some_0 as int));
            }
            lemma_both_flat(front, " → "@);
            lemma_both_flat(front + " → "@, command_end(status, exit_code));
        },
        ThreadItemDetails::FileChange { paths, status } => {
            reveal_strlit("patch [");
            reveal_strlit("InProgress");
            reveal_strlit("Completed");
            reveal_strlit("Failed");
            reveal_strlit("] ");
            reveal_strlit(" file(s): ");
            let count = text::decimal(paths@.len());
            lemma_number_flat(paths@.len() as int);
            lemma_both_flat("patch ["@, patch_status(status));
            lemma_both_flat("patch ["@ + patch_status(status), "] "@);
            lemma_both_flat("patch ["@ + patch_status(status) + "] "@, count);
            let front = "patch ["@ + patch_status(status) + "] "@ + count;
            lemma_both_flat(front, " file(s): "@);
            lemma_flat_behind(front + " file(s): "@, named_files(text::texts(paths@)), 0);
        },
        ThreadItemDetails::McpToolCall { server, tool, status } => {
            reveal_strlit("mcp ");
            reveal_strlit("::");
            reveal_strlit(" [");
            reveal_strlit("InProgress");
            reveal_strlit("Completed");
            reveal_strlit("Failed");
            reveal_strlit("]");
            lemma_flat_behind("mcp "@, server@, 0);
            let front = "mcp "@ + text::on_one_line(server@);
            lemma_both_flat(front, "::"@);
            lemma_flat_behind(front + "::"@, tool@, 0);
            let named = front + "::"@ + text::on_one_line(tool@);
            lemma_both_flat(named, " ["@);
            lemma_both_flat(named + " ["@, call_status(status));
            lemma_both_flat(named + " ["@ + call_status(status), "]"@);
        },
        ThreadItemDetails::WebSearch { query } => {
            reveal_strlit("web search: ");
            lemma_flat_behind("web search: "@, query@, QUERY_SNIPPET as nat);
        },
        ThreadItemDetails::TodoList { items } => {
            reveal_strlit("todo list (");
            reveal_strlit(" items)");
            lemma_number_flat(items as int);
            lemma_both_flat("todo list ("@, text::decimal(items as nat));
            lemma_both_flat("todo list ("@ + text::decimal(items as nat), " items)"@);
        },
        ThreadItemDetails::Error { message } => {
            reveal_strlit("item error: ");
            lemma_flat_behind("item error: "@, message@, SNIPPET as nat);
        },
        ThreadItemDetails::Other { kind } => {
            reveal_strlit("unknown item");
            if kind is Some {
                lemma_flat(kind->Some_0@, 0);
            }
        },
    }
}

proof fn lemma_event_on_one_line(event: ThreadEvent)
    ensures
        !event_summary(event).contains('\n'),
{
    match event {
        ThreadEvent::ThreadStarted { thread_id } => {
            reveal_strlit("▶ thread ");
            lemma_flat_behind("▶ thread "@, thread_id@, 0);
        },
        ThreadEvent::TurnStarted => {
            reveal_strlit("· turn started");
        },
        ThreadEvent::TurnCompleted { usage } => {
            reveal_strlit("✓ turn completed (in ");
            reveal_strlit(" / cached ");
            reveal_strlit(" / out ");
            reveal_strlit(")");
            let input = text::signed_decimal(usage.input_tokens as int);
            let cached = text::signed_decimal(usage.cached_input_tokens as int);
            let output = text::signed_decimal(usage.output_tokens as int);
            lemma_number_flat(usage.input_tokens as int);
            lemma_number_flat(usage.cached_input_tokens as int);
            lemma_number_flat(usage.output_tokens as int);
            let a = "✓ turn completed (in "@ + input;
            lemma_both_flat("✓ turn completed (in "@, input);
            lemma_both_flat(a, " / cached "@);
            lemma_both_flat(a + " / cached "@, cached);
            let b = a + " / cached "@ + cached;
            lemma_both_flat(b, " / out "@);
            lemma_both_flat(b + " / out "@, output);
            lemma_both_flat(b + " / out "@ + output, ")"@);
        },
        ThreadEvent::TurnFailed { message } => {
            reveal_strlit("✗ turn failed: ");
            lemma_flat_behind("✗ turn failed: "@, message@, SNIPPET as nat);
        },
        ThreadEvent::Error { message } => {
            reveal_strlit("‼ stream error: ");
            lemma_flat_behind("‼ stream error: "@, message@, SNIPPET as nat);
        },
        ThreadEvent::ItemStarted { item } => {
            reveal_strlit("… ");
            lemma_item_on_one_line(item);
            lemma_both_flat("… "@, item_summary(item));
        },
        ThreadEvent::ItemUpdated { item } => {
            reveal_strlit("↻ ");
            lemma_item_on_one_line(item);
            lemma_both_flat("↻ "@, item_summary(item));
        },
        ThreadEvent::ItemCompleted { item } => {
            reveal_strlit("✓ ");
            lemma_item_on_one_line(item);
            lemma_both_flat("✓ "@, item_summary(item));
        },
    }
}

/// Law: a tail never has more lines than were asked for.
pub proof fn law_tail_is_bounded(raw: Seq<char>, lines: nat)
    ensures
        last_lines(raw, lines).len() <= lines,
        last_lines(raw, lines).len() <= text::lines_of(raw).len(),
{
}

} // verus!
