//! How a task is held to account: which failures stop it, which end is worth
//! another try, and what counts as success.

use crate::events::{
    CommandExecutionStatus, McpToolCallStatus, PatchApplyStatus, ThreadEvent, ThreadItemDetails,
};
use crate::executor::{ExecutorEvent, TaskExit};
use crate::registry::{JudgeOutcome, JudgeSpec};
use crate::text;
use crate::worktree::ReclaimMode;
use std::collections::VecDeque;
use vstd::prelude::*;

verus! {

/// The last component of a path.
pub open spec fn base_name(path: Seq<char>) -> Seq<char> {
    text::pieces(path, '/').last()
}

fn base_name_of(path: &str) -> (out: String)
    ensures
        out@ == base_name(path@),
{
    let parts = text::split(path, '/');
    let last: usize = parts.len() - 1;
    assert(text::texts(parts@)[last as int] == parts@[last as int]@);
    parts[last].clone()
}

/// Whether a program is a shell.
pub open spec fn is_shell(name: Seq<char>) -> bool {
    name == "sh"@ || name == "zsh"@ || name == "bash"@
}

/// What is left of a list of words once the options at its start are dropped.
pub open spec fn behind_options(list: Seq<Seq<char>>) -> Seq<Seq<char>>
    decreases list.len(),
{
    if list.len() > 0 && list.first().len() > 0 && list.first().first() == '-' {
        behind_options(list.drop_first())
    } else {
        list
    }
}

/// The first word of a text; a stand-in where it has none.
pub open spec fn first_word(s: Seq<char>) -> Seq<char> {
    if text::words(s).len() > 0 {
        text::words(s).first()
    } else {
        "unknown"@
    }
}

/// What a command line is counted as when it fails: the program it runs, looked
/// up inside of the shell that wraps it. Arguments do not matter, since a tool
/// that fails again and again does so with ever new arguments.
pub open spec fn signature(command: Seq<char>) -> Seq<char> {
    let head = base_name(first_word(command));
    if !is_shell(head) {
        text::unquoted(head)
    } else {
        let wrapped = text::joined(behind_options(text::words(command).skip(1)), " "@);
        let token = first_word(text::trimmed_start(wrapped, |c: char| text::is_quote(c)));
        text::unquoted(base_name(token))
    }
}

/// The first word of a text.
fn word_of(line: &str) -> (out: String)
    ensures
        out@ == first_word(line@),
{
    let list = text::split_words(line);
    if list.len() > 0 {
        assert(text::texts(list@)[0] == list@[0]@);
        list[0].clone()
    } else {
        "unknown".to_owned()
    }
}

/// What a command line is counted as when it fails.
pub fn command_signature(command: &str) -> (out: String)
    ensures
        out@ == signature(command@),
{
    let head = base_name_of(word_of(command).as_str());
    if !(text::same_text(head.as_str(), "sh") || text::same_text(head.as_str(), "zsh")
        || text::same_text(head.as_str(), "bash")) {
        return text::unquote(head.as_str());
    }
    let list = text::split_words(command);
    let ghost all = text::words(command@);
    if list.len() == 0 {
        proof {
            lemma_unknown_is_no_shell();
        }
        return text::unquote(head.as_str());
    }
    let mut at: usize = 1;
    while at < list.len() && text::starts_with(list[at].as_str(), "-")
        invariant
            1 <= at <= list@.len(),
            text::texts(list@) == all,
            behind_options(all.skip(1)) == behind_options(all.skip(at as int)),
        decreases list@.len() - at,
    {
        proof {
            reveal_strlit("-");
        }
        let ghost word = all[at as int];
        assert(word == list@[at as int]@);
        assert(word.subrange(0, 1)[0] == '-');
        assert(all.skip(at as int).first() == word);
        assert(all.skip(at as int).drop_first() =~= all.skip(at + 1));
        at = at + 1;
    }
    proof {
        reveal_strlit("-");
        if at < list@.len() {
            let word = all[at as int];
            assert(word == list@[at as int]@);
            if word.len() > 0 && word.first() == '-' {
                assert(word.subrange(0, 1) =~= "-"@);
            }
            assert(all.skip(at as int).first() == word);
        }
    }
    assert(behind_options(all.skip(at as int)) == all.skip(at as int));
    let wrapped = text::join_from(&list, at, " ");
    let open = text::unquote_start(wrapped.as_str());
    let token = word_of(open.as_str());
    text::unquote(base_name_of(token.as_str()).as_str())
}

proof fn lemma_unknown_is_no_shell()
    ensures
        !is_shell(base_name("unknown"@)),
{
    reveal_strlit("unknown");
    reveal_strlit("sh");
    reveal_strlit("zsh");
    reveal_strlit("bash");
    text::lemma_pieces_grow(Seq::empty(), "unknown"@, '/');
    assert(Seq::<char>::empty() + "unknown"@ =~= "unknown"@);
    assert(text::pieces(Seq::<char>::empty(), '/') =~= seq![Seq::<char>::empty()]);
    assert(base_name("unknown"@) =~= "unknown"@);
    assert("unknown"@.len() == 7);
}

/// Whether an item acts on the world.
pub open spec fn acts(item: ThreadItemDetails) -> bool {
    item is CommandExecution || item is FileChange || item is McpToolCall
}

/// Whether an item acts on the world.
pub fn is_tool_item(item: &ThreadItemDetails) -> (yes: bool)
    ensures
        yes == acts(*item),
{
    match item {
        ThreadItemDetails::CommandExecution { .. }
        | ThreadItemDetails::FileChange { .. }
        | ThreadItemDetails::McpToolCall { .. } => true,
        _ => false,
    }
}

/// What a finished item says about the tool that it used.
#[derive(Debug)]
pub enum ItemVerdict {
    /// The tool failed; the text says which one it is counted as.
    Failure(String),
    /// The tool worked.
    Success,
    /// Nothing.
    Neutral,
}

/// An [`ItemVerdict`] with the text that it carries.
pub enum Verdict {
    /// The tool, counted under this text, failed.
    Failure(Seq<char>),
    /// The tool worked.
    Success,
    /// Nothing.
    Neutral,
}

impl View for ItemVerdict {
    type V = Verdict;

    open spec fn view(&self) -> Verdict {
        match self {
            ItemVerdict::Failure(signature) => Verdict::Failure(signature@),
            ItemVerdict::Success => Verdict::Success,
            ItemVerdict::Neutral => Verdict::Neutral,
        }
    }
}

/// What a finished item says about the tool that it used.
pub open spec fn verdict_of(item: ThreadItemDetails) -> Verdict {
    match item {
        ThreadItemDetails::CommandExecution { command, exit_code, status } => match status {
            CommandExecutionStatus::InProgress => Verdict::Neutral,
            CommandExecutionStatus::Failed => Verdict::Failure(signature(command@)),
            _ => match exit_code {
                Some(code) => if code != 0 {
                    Verdict::Failure(signature(command@))
                } else {
                    Verdict::Success
                },
                None => Verdict::Success,
            },
        },
        ThreadItemDetails::FileChange { status, .. } => if status is Failed {
            Verdict::Failure("apply_patch"@)
        } else {
            Verdict::Success
        },
        ThreadItemDetails::McpToolCall { server, tool, status } => match status {
            McpToolCallStatus::Failed => Verdict::Failure("mcp:"@ + server@ + "."@ + tool@),
            McpToolCallStatus::InProgress => Verdict::Neutral,
            McpToolCallStatus::Completed => Verdict::Success,
        },
        _ => Verdict::Neutral,
    }
}

/// What a finished item says about the tool that it used.
pub fn classify_item(item: &ThreadItemDetails) -> (verdict: ItemVerdict)
    ensures
        verdict@ == verdict_of(*item),
{
    match item {
        ThreadItemDetails::CommandExecution { command, exit_code, status } => match status {
            CommandExecutionStatus::InProgress => ItemVerdict::Neutral,
            CommandExecutionStatus::Failed => ItemVerdict::Failure(
                command_signature(command.as_str()),
            ),
            _ => match exit_code {
                Some(code) => if *code != 0 {
                    ItemVerdict::Failure(command_signature(command.as_str()))
                } else {
                    ItemVerdict::Success
                },
                None => ItemVerdict::Success,
            },
        },
        ThreadItemDetails::FileChange { status, .. } => match status {
            PatchApplyStatus::Failed => ItemVerdict::Failure("apply_patch".to_owned()),
            _ => ItemVerdict::Success,
        },
        ThreadItemDetails::McpToolCall { server, tool, status } => match status {
            McpToolCallStatus::Failed => ItemVerdict::Failure(
                text::cat4("mcp:", server.as_str(), ".", tool.as_str()),
            ),
            McpToolCallStatus::InProgress => ItemVerdict::Neutral,
            McpToolCallStatus::Completed => ItemVerdict::Success,
        },
        _ => ItemVerdict::Neutral,
    }
}

/// Counts equal failures in a row. Any success sets it back: only what fails
/// without a break is stopped.
#[derive(Debug)]
pub struct Breaker {
    threshold: u32,
    last_signature: Option<String>,
    streak: u32,
}

/// What a breaker has counted.
pub struct Count {
    /// The failure that is being counted, if any.
    pub signature: Option<Seq<char>>,
    /// How often it came in a row.
    pub streak: nat,
}

impl Count {
    /// What is counted before anything happened.
    pub open spec fn zero() -> Count {
        Count { signature: None, streak: 0 }
    }

    /// What is counted after one more verdict.
    pub open spec fn after(self, verdict: Verdict) -> Count {
        match verdict {
            Verdict::Failure(signature) => if self.signature == Some(signature) {
                Count { signature: self.signature, streak: self.streak + 1 }
            } else {
                Count { signature: Some(signature), streak: 1 }
            },
            Verdict::Success => Self::zero(),
            Verdict::Neutral => self,
        }
    }
}

impl Breaker {
    /// How many equal failures in a row are too many.
    pub closed spec fn limit(&self) -> u32 {
        self.threshold
    }

    /// What was counted.
    pub closed spec fn counted(&self) -> Count {
        Count { signature: text::opt_text(self.last_signature), streak: self.streak as nat }
    }

    /// A breaker that trips at `threshold` equal failures in a row, and at one
    /// where none are allowed.
    pub fn new(threshold: u32) -> (out: Self)
        ensures
            out.limit() == if threshold < 1 {
                1u32
            } else {
                threshold
            },
            out.counted() == Count::zero(),
    {
        Breaker {
            threshold: if threshold < 1 {
                1
            } else {
                threshold
            },
            last_signature: None,
            streak: 0,
        }
    }

    /// Counts a failure. Says how many there were in a row where that is too
    /// many.
    pub fn record_failure(&mut self, signature: &str) -> (out: Option<u32>)
        requires
            old(self).counted().signature == Some(signature@) ==> old(self).counted().streak
                < u32::MAX,
        ensures
            final(self).limit() == old(self).limit(),
            final(self).counted() == old(self).counted().after(Verdict::Failure(signature@)),
            match out {
                Some(streak) => streak == final(self).counted().streak && streak >= old(
                    self,
                ).limit(),
                None => final(self).counted().streak < old(self).limit(),
            },
    {
        let same = match &self.last_signature {
            Some(last) => text::same_text(last.as_str(), signature),
            None => false,
        };
        if same {
            self.streak = self.streak + 1;
        } else {
            self.last_signature = Some(signature.to_owned());
            self.streak = 1;
        }
        if self.streak >= self.threshold {
            Some(self.streak)
        } else {
            None
        }
    }

    /// Counts a success.
    pub fn record_success(&mut self)
        ensures
            final(self).limit() == old(self).limit(),
            final(self).counted() == Count::zero(),
    {
        self.last_signature = None;
        self.streak = 0;
    }
}

/// What is counted after a list of verdicts.
pub open spec fn count_of(verdicts: Seq<Verdict>) -> Count
    decreases verdicts.len(),
{
    if verdicts.len() == 0 {
        Count::zero()
    } else {
        count_of(verdicts.drop_last()).after(verdicts.last())
    }
}

/// How many failures called `signature` stand at the end of a list, with
/// nothing but neutral verdicts between and behind them.
pub open spec fn trailing_failures(verdicts: Seq<Verdict>, signature: Seq<char>) -> nat
    decreases verdicts.len(),
{
    if verdicts.len() == 0 {
        0
    } else {
        match verdicts.last() {
            Verdict::Neutral => trailing_failures(verdicts.drop_last(), signature),
            Verdict::Success => 0,
            Verdict::Failure(other) => if other == signature {
                1 + trailing_failures(verdicts.drop_last(), signature)
            } else {
                0
            },
        }
    }
}

/// Law: a breaker counts exactly the equal failures at the end of what it has
/// seen. It has counted `n` failures of one kind where the last `n` verdicts,
/// neutral ones aside, are that failure, and the one before is not.
pub proof fn law_breaker_counts_trailing_failures(verdicts: Seq<Verdict>, signature: Seq<char>)
    ensures
        trailing_failures(verdicts, signature) == if count_of(verdicts).signature == Some(
            signature,
        ) {
            count_of(verdicts).streak
        } else {
            0
        },
    decreases verdicts.len(),
{
    if verdicts.len() > 0 {
        law_breaker_counts_trailing_failures(verdicts.drop_last(), signature);
        lemma_counted_means_failed(verdicts.drop_last());
    }
}

proof fn lemma_counted_means_failed(verdicts: Seq<Verdict>)
    ensures
        count_of(verdicts).signature is Some <==> count_of(verdicts).streak > 0,
    decreases verdicts.len(),
{
    if verdicts.len() > 0 {
        lemma_counted_means_failed(verdicts.drop_last());
    }
}

/// Law: a success sets a breaker back. What comes after it is counted as if
/// nothing had come before.
pub proof fn law_success_resets_the_breaker(before: Seq<Verdict>, after: Seq<Verdict>)
    ensures
        count_of(before.push(Verdict::Success) + after) == count_of(after),
    decreases after.len(),
{
    let whole = before.push(Verdict::Success) + after;
    if after.len() == 0 {
        assert(whole.drop_last() =~= before);
    } else {
        law_success_resets_the_breaker(before, after.drop_last());
        assert(whole.drop_last() =~= before.push(Verdict::Success) + after.drop_last());
        assert(whole.last() == after.last());
    }
}

/// Whether diagnostics, in lower case, tell of a transient failure on the way to
/// a model.
pub open spec fn is_retryable(lower: Seq<char>) -> bool {
    ||| text::occurs_in(lower, "stream disconnected"@)
    ||| text::occurs_in(lower, "error sending request"@)
    ||| text::occurs_in(lower, "connection refused"@)
    ||| text::occurs_in(lower, "connection reset"@)
    ||| text::occurs_in(lower, "connection closed before"@)
    ||| text::occurs_in(lower, "network is unreachable"@)
    ||| text::occurs_in(lower, "no route to host"@)
    ||| text::occurs_in(lower, "timed out"@)
    ||| text::occurs_in(lower, "timeout"@)
}

/// Whether diagnostics, in lower case, tell of a transient failure on the way to
/// a model.
pub fn tells_of_transient_failure(lower: &str) -> (yes: bool)
    ensures
        yes == is_retryable(lower@),
{
    text::contains(
        lower,
        "stream disconnected",
    ) || text::contains(
        lower,
        "error sending request",
    ) || text::contains(
        lower,
        "connection refused",
    ) || text::contains(
        lower,
        "connection reset",
    ) || text::contains(
        lower,
        "connection closed before",
    ) || text::contains(
        lower,
        "network is unreachable",
    ) || text::contains(
        lower,
        "no route to host",
    ) || text::contains(
        lower,
        "timed out",
    ) || text::contains(
        lower,
        "timeout",
    )
}

/// Whether a text, in lower case, tells of a transient failure.
pub open spec fn tells(s: Seq<char>) -> bool {
    is_retryable(text::lowercase_of(s))
}

/// Whether there is a text that tells of a transient failure.
pub open spec fn some_tells(o: Option<String>) -> bool {
    o is Some && tells(o->Some_0@)
}

/// Whether a run ended in a transient failure: one of the channels of failure
/// tells of it. What the model said is not among them.
pub open spec fn transient(exit: TaskExit, stderr_tail: Seq<String>) -> bool {
    ||| some_tells(exit.fatal_error)
    ||| some_tells(exit.turn_failed)
    ||| exists|i: int| 0 <= i < stderr_tail.len() && tells((#[trigger] stderr_tail[i])@)
}

fn text_tells(s: &str) -> (yes: bool)
    ensures
        yes == tells(s@),
{
    tells_of_transient_failure(text::to_lower(s).as_str())
}

fn opt_tells(o: &Option<String>) -> (yes: bool)
    ensures
        yes == some_tells(*o),
{
    match o {
        Some(t) => text_tells(t.as_str()),
        None => false,
    }
}

/// Whether a run ended in a transient failure.
pub fn is_transient(exit: &TaskExit, stderr_tail: &VecDeque<String>) -> (yes: bool)
    ensures
        yes == transient(*exit, stderr_tail@),
{
    if opt_tells(&exit.fatal_error) || opt_tells(&exit.turn_failed) {
        return true;
    }
    let mut at: usize = 0;
    while at < stderr_tail.len()
        invariant
            at <= stderr_tail@.len(),
            forall|i: int| 0 <= i < at ==> !tells((#[trigger] stderr_tail@[i])@),
        decreases stderr_tail@.len() - at,
    {
        if text_tells(stderr_tail[at].as_str()) {
            assert(tells(stderr_tail@[at as int]@));
            return true;
        }
        at = at + 1;
    }
    false
}

/// Law: only the channels of failure count. Two runs that failed for the same
/// reasons are judged alike, whatever the model said, whatever they cost and
/// however they ended.
pub proof fn law_model_text_is_no_diagnosis(
    a: TaskExit,
    b: TaskExit,
    stderr_tail: Seq<String>,
)
    requires
        a.fatal_error == b.fatal_error,
        a.turn_failed == b.turn_failed,
    ensures
        transient(a, stderr_tail) == transient(b, stderr_tail),
{
}

/// Law: a transient failure is found line by line. Two texts that are joined by
/// a line feed tell of one exactly where one of them does.
pub proof fn law_failures_are_found_line_by_line(a: Seq<char>, b: Seq<char>)
    ensures
        is_retryable(a + "\n"@ + b) <==> is_retryable(a) || is_retryable(b),
{
    reveal_strlit("\n");
    reveal_strlit("stream disconnected");
    reveal_strlit("error sending request");
    reveal_strlit("connection refused");
    reveal_strlit("connection reset");
    reveal_strlit("connection closed before");
    reveal_strlit("network is unreachable");
    reveal_strlit("no route to host");
    reveal_strlit("timed out");
    reveal_strlit("timeout");
    assert("\n"@ =~= seq!['\n']);
    text::lemma_occurs_in_joined(a, b, "stream disconnected"@);
    text::lemma_occurs_in_joined(a, b, "error sending request"@);
    text::lemma_occurs_in_joined(a, b, "connection refused"@);
    text::lemma_occurs_in_joined(a, b, "connection reset"@);
    text::lemma_occurs_in_joined(a, b, "connection closed before"@);
    text::lemma_occurs_in_joined(a, b, "network is unreachable"@);
    text::lemma_occurs_in_joined(a, b, "no route to host"@);
    text::lemma_occurs_in_joined(a, b, "timed out"@);
    text::lemma_occurs_in_joined(a, b, "timeout"@);
}

/// Law: all lines at once say what they say one by one. Whether a list of lines
/// is searched whole, with line feeds between them, or line by line, the same is
/// found.
pub proof fn law_joined_lines_tell_the_same(lines: Seq<Seq<char>>)
    requires
        lines.len() > 0,
    ensures
        is_retryable(text::joined(lines, "\n"@)) <==> exists|i: int|
            0 <= i < lines.len() && is_retryable(#[trigger] lines[i]),
    decreases lines.len(),
{
    if lines.len() == 1 {
        assert(text::joined(lines, "\n"@) == lines[0]);
    } else {
        let front = lines.drop_last();
        law_joined_lines_tell_the_same(front);
        law_failures_are_found_line_by_line(text::joined(front, "\n"@), lines.last());
        if is_retryable(text::joined(front, "\n"@)) {
            let i = choose|i: int| 0 <= i < front.len() && is_retryable(#[trigger] front[i]);
            assert(lines[i] == front[i]);
        }
        if exists|i: int| 0 <= i < lines.len() && is_retryable(#[trigger] lines[i]) {
            let i = choose|i: int| 0 <= i < lines.len() && is_retryable(#[trigger] lines[i]);
            if i < front.len() {
                assert(front[i] == lines[i]);
            }
        }
    }
}

/// How many equal tool failures in a row stop a task that says nothing else.
pub const DEFAULT_BREAKER_THRESHOLD: u32 = 5;

/// How many lines of diagnostics are kept.
pub const STDERR_TAIL_LINES: usize = 8;

/// What is noticed while a run speaks.
#[derive(Debug)]
pub struct StreamWatch {
    breaker: Breaker,
    breaker_tripped: Option<String>,
    saw_tool_activity: bool,
    stderr_tail: VecDeque<String>,
}

/// What was noticed of a run.
pub struct Notes {
    /// How many equal failures in a row are too many.
    pub limit: u32,
    /// What the breaker has counted; it stops to count once it has tripped.
    pub count: Count,
    /// Why the breaker has tripped, if it has.
    pub tripped: Option<Seq<char>>,
    /// Whether the run has acted on the world, or tried to.
    pub acted: bool,
    /// The last lines of diagnostics.
    pub tail: Seq<String>,
}

/// What is said when the breaker trips.
pub open spec fn trip_words(streak: nat, signature: Seq<char>) -> Seq<char> {
    "熔断（#6）：同签名工具连续失败 "@ + text::decimal(streak) + " 次（"@ + signature
        + "），已中止任务"@
}

/// The last lines of diagnostics after one more.
pub open spec fn tail_after(tail: Seq<String>, line: String) -> Seq<String> {
    if tail.len() == STDERR_TAIL_LINES {
        tail.drop_first().push(line)
    } else {
        tail.push(line)
    }
}

impl Notes {
    /// Before anything was noticed.
    pub open spec fn blank(limit: u32) -> Notes {
        Notes { limit, count: Count::zero(), tripped: None, acted: false, tail: Seq::empty() }
    }

    /// After a finished item.
    pub open spec fn after_item(self, item: ThreadItemDetails) -> Notes {
        let acted = self.acted || acts(item);
        if self.tripped is Some {
            Notes { acted, ..self }
        } else {
            let count = self.count.after(verdict_of(item));
            Notes {
                acted,
                count,
                tripped: match verdict_of(item) {
                    Verdict::Failure(signature) => if count.streak >= self.limit {
                        Some(trip_words(count.streak, signature))
                    } else {
                        None
                    },
                    _ => None,
                },
                ..self
            }
        }
    }

    /// After something the run said.
    pub open spec fn after(self, event: ExecutorEvent) -> Notes {
        match event {
            ExecutorEvent::Parsed(ThreadEvent::ItemStarted { item }) => Notes {
                acted: self.acted || acts(item),
                ..self
            },
            ExecutorEvent::Parsed(ThreadEvent::ItemCompleted { item }) => self.after_item(item),
            ExecutorEvent::StderrLine(line) => Notes { tail: tail_after(self.tail, line), ..self },
            _ => self,
        }
    }
}

impl View for StreamWatch {
    type V = Notes;

    closed spec fn view(&self) -> Notes {
        Notes {
            limit: self.breaker.limit(),
            count: self.breaker.counted(),
            tripped: text::opt_text(self.breaker_tripped),
            acted: self.saw_tool_activity,
            tail: self.stderr_tail@,
        }
    }
}

impl StreamWatch {
    /// Whether the breaker has tripped where it had to.
    pub open spec fn wf(&self) -> bool {
        self@.tripped is None ==> self@.count.streak < self@.limit
    }

    /// Starts to watch a run.
    pub fn new(breaker_threshold: u32) -> (out: Self)
        ensures
            out.wf(),
            out@ == Notes::blank(
                if breaker_threshold < 1 {
                    1u32
                } else {
                    breaker_threshold
                },
            ),
    {
        let out = StreamWatch {
            breaker: Breaker::new(breaker_threshold),
            breaker_tripped: None,
            saw_tool_activity: false,
            stderr_tail: VecDeque::new(),
        };
        assert(out@.tail =~= Seq::<String>::empty());
        out
    }

    /// Why the breaker has tripped, if it has.
    pub fn tripped(&self) -> (out: Option<String>)
        ensures
            text::opt_text(out) == self@.tripped,
    {
        text::clone_opt(&self.breaker_tripped)
    }

    /// Whether the run has acted on the world, or tried to.
    pub fn acted(&self) -> (out: bool)
        ensures
            out == self@.acted,
    {
        self.saw_tool_activity
    }

    /// The last lines of diagnostics.
    pub fn stderr_tail(&self) -> (out: &VecDeque<String>)
        ensures
            out@ == self@.tail,
    {
        &self.stderr_tail
    }

    /// Notices a finished item. Says whether the breaker trips on it.
    fn note_item(&mut self, item: &ThreadItemDetails) -> (stop: bool)
        requires
            old(self).wf(),
        ensures
            final(self).wf(),
            final(self)@ == old(self)@.after_item(*item),
            stop == (old(self)@.tripped is None && final(self)@.tripped is Some),
    {
        if is_tool_item(item) {
            self.saw_tool_activity = true;
        }
        if self.breaker_tripped.is_some() {
            return false;
        }
        match classify_item(item) {
            ItemVerdict::Failure(signature) => {
                match self.breaker.record_failure(signature.as_str()) {
                    Some(streak) => {
                        let message = text::cat5(
                            "熔断（#6）：同签名工具连续失败 ",
                            text::decimal_text(streak as u128).as_str(),
                            " 次（",
                            signature.as_str(),
                            "），已中止任务",
                        );
                        self.breaker_tripped = Some(message);
                        true
                    },
                    None => false,
                }
            },
            ItemVerdict::Success => {
                self.breaker.record_success();
                false
            },
            ItemVerdict::Neutral => false,
        }
    }

    /// Notices something the run said. Says whether the breaker trips on it, so
    /// that the run has to be stopped.
    pub fn note(&mut self, event: &ExecutorEvent) -> (stop: bool)
        requires
            old(self).wf(),
        ensures
            final(self).wf(),
            final(self)@ == old(self)@.after(*event),
            stop == (old(self)@.tripped is None && final(self)@.tripped is Some),
    {
        match event {
            ExecutorEvent::Parsed(parsed) => match parsed {
                ThreadEvent::ItemStarted { item } => {
                    if is_tool_item(item) {
                        self.saw_tool_activity = true;
                    }
                    false
                },
                ThreadEvent::ItemCompleted { item } => self.note_item(item),
                _ => false,
            },
            ExecutorEvent::StderrLine(line) => {
                let ghost before = self.stderr_tail@;
                if self.stderr_tail.len() == STDERR_TAIL_LINES {
                    let _ = self.stderr_tail.pop_front();
                    assert(self.stderr_tail@ =~= before.drop_first());
                }
                self.stderr_tail.push_back(line.clone());
                assert(self.stderr_tail@ =~= tail_after(before, *line));
                false
            },
            ExecutorEvent::ParseError { .. } => false,
        }
    }
}

/// What was noticed of all that a run said.
pub open spec fn notes_of(limit: u32, said: Seq<ExecutorEvent>) -> Notes
    decreases said.len(),
{
    if said.len() == 0 {
        Notes::blank(limit)
    } else {
        notes_of(limit, said.drop_last()).after(said.last())
    }
}

/// The verdicts on the finished items among what a run said.
pub open spec fn verdicts_of(said: Seq<ExecutorEvent>) -> Seq<Verdict>
    decreases said.len(),
{
    if said.len() == 0 {
        Seq::empty()
    } else {
        let before = verdicts_of(said.drop_last());
        match said.last() {
            ExecutorEvent::Parsed(ThreadEvent::ItemCompleted { item }) => before.push(
                verdict_of(item),
            ),
            _ => before,
        }
    }
}

/// Whether `limit` equal failures in a row stand at the end of what a run had
/// said at some point.
pub open spec fn failed_too_often(limit: u32, said: Seq<ExecutorEvent>) -> bool {
    exists|upto: int, signature: Seq<char>|
        0 <= upto <= said.len() && #[trigger] trailing_failures(
            verdicts_of(said.take(upto)),
            signature,
        ) >= limit
}

proof fn lemma_counts_until_tripped(limit: u32, said: Seq<ExecutorEvent>)
    requires
        limit >= 1,
    ensures
        notes_of(limit, said).limit == limit,
        notes_of(limit, said).tripped is None ==> notes_of(limit, said).count == count_of(
            verdicts_of(said),
        ) && count_of(verdicts_of(said)).streak < limit,
    decreases said.len(),
{
    if said.len() > 0 {
        let before = said.drop_last();
        lemma_counts_until_tripped(limit, before);
        match said.last() {
            ExecutorEvent::Parsed(ThreadEvent::ItemCompleted { item }) => {
                assert(verdicts_of(said).drop_last() =~= verdicts_of(before));
            },
            _ => {},
        }
    }
}

proof fn lemma_trips_at_limit(limit: u32, said: Seq<ExecutorEvent>)
    requires
        limit >= 1,
    ensures
        notes_of(limit, said).tripped is Some ==> failed_too_often(limit, said),
        notes_of(limit, said).tripped is None ==> !failed_too_often(limit, said),
    decreases said.len(),
{
    let now = verdicts_of(said);
    assert(said.take(said.len() as int) =~= said);
    lemma_counts_until_tripped(limit, said);
    if said.len() == 0 {
        assert forall|upto: int, signature: Seq<char>|
            0 <= upto <= said.len() implies #[trigger] trailing_failures(
            verdicts_of(said.take(upto)),
            signature,
        ) < limit by {
            assert(said.take(upto) =~= said);
        }
    } else {
        let before = said.drop_last();
        lemma_trips_at_limit(limit, before);
        lemma_counts_until_tripped(limit, before);
        if notes_of(limit, before).tripped is Some {
            let (upto, signature) = choose|upto: int, signature: Seq<char>|
                0 <= upto <= before.len() && #[trigger] trailing_failures(
                    verdicts_of(before.take(upto)),
                    signature,
                ) >= limit;
            assert(before.take(upto) =~= said.take(upto));
            assert(trailing_failures(verdicts_of(said.take(upto)), signature) >= limit);
        } else if notes_of(limit, said).tripped is Some {
            let item = said.last()->Parsed_0->ItemCompleted_item;
            let signature = verdict_of(item)->Failure_0;
            assert(now.drop_last() =~= verdicts_of(before));
            law_breaker_counts_trailing_failures(now, signature);
            assert(trailing_failures(verdicts_of(said.take(said.len() as int)), signature)
                >= limit);
        } else {
            assert forall|upto: int, signature: Seq<char>|
                0 <= upto <= said.len() implies #[trigger] trailing_failures(
                verdicts_of(said.take(upto)),
                signature,
            ) < limit by {
                if upto < said.len() {
                    assert(said.take(upto) =~= before.take(upto));
                    assert(trailing_failures(verdicts_of(before.take(upto)), signature) < limit);
                } else {
                    law_breaker_counts_trailing_failures(now, signature);
                }
            }
        }
    }
}

/// Law: the breaker trips exactly on failures without a break. A run is stopped
/// if and only if at some point the last verdicts, neutral ones aside, were
/// `limit` failures of one and the same tool.
pub proof fn law_breaker_trips_exactly_at_its_limit(limit: u32, said: Seq<ExecutorEvent>)
    requires
        limit >= 1,
    ensures
        notes_of(limit, said).tripped is Some <==> failed_too_often(limit, said),
{
    lemma_trips_at_limit(limit, said);
}

/// Law: only so many lines of diagnostics are kept.
pub proof fn law_diagnostics_are_bounded(limit: u32, said: Seq<ExecutorEvent>)
    ensures
        notes_of(limit, said).tail.len() <= STDERR_TAIL_LINES,
    decreases said.len(),
{
    if said.len() > 0 {
        law_diagnostics_are_bounded(limit, said.drop_last());
    }
}

/// How often a run is launched again after a transient failure.
pub const MAX_SOUTHBOUND_RETRIES: u32 = 2;

/// Whether a run reported success.
pub open spec fn reports_success(exit: TaskExit) -> bool {
    exit.exit_code == Some(0i32) && exit.turn_failed is None && exit.fatal_error is None
}

/// Whether a run is launched again: it failed for a transient reason, it had not
/// acted on the world, and there are tries left.
pub open spec fn worth_retrying(exit: TaskExit, notes: Notes, attempt: u32) -> bool {
    &&& notes.tripped is None
    &&& !reports_success(exit)
    &&& !exit.interrupted
    &&& !exit.timed_out
    &&& !notes.acted
    &&& attempt < MAX_SOUTHBOUND_RETRIES
    &&& transient(exit, notes.tail)
}

/// Whether a run is launched again.
pub fn should_retry(exit: &TaskExit, watch: &StreamWatch, attempt: u32) -> (yes: bool)
    ensures
        yes == worth_retrying(*exit, watch@, attempt),
{
    let zero: bool = match exit.exit_code {
        Some(code) => code == 0,
        None => false,
    };
    let success = zero && exit.turn_failed.is_none() && exit.fatal_error.is_none();
    watch.breaker_tripped.is_none() && !success && !exit.interrupted && !exit.timed_out
        && !watch.saw_tool_activity && attempt < MAX_SOUTHBOUND_RETRIES && is_transient(
        exit,
        &watch.stderr_tail,
    )
}

/// Law: a run that has touched the world, was stopped, or succeeded is never
/// launched again, and no run is launched more often than the limit allows.
pub proof fn law_retries_are_safe(exit: TaskExit, notes: Notes, attempt: u32)
    requires
        worth_retrying(exit, notes, attempt),
    ensures
        !notes.acted,
        notes.tripped is None,
        !exit.interrupted,
        !exit.timed_out,
        !reports_success(exit),
        attempt + 1 <= MAX_SOUTHBOUND_RETRIES,
{
}

/// How a run that is not launched again has ended.
#[derive(Debug)]
pub enum Ending {
    /// It failed.
    Failed {
        /// Why.
        error: String,
    },
    /// It was interrupted.
    Interrupted,
    /// It says that it succeeded.
    SelfReported,
}

/// An [`Ending`] with the text that it carries.
pub enum Outcome {
    /// It failed, for this reason.
    Failed(Seq<char>),
    /// It was interrupted.
    Interrupted,
    /// It says that it succeeded.
    SelfReported,
}

impl View for Ending {
    type V = Outcome;

    open spec fn view(&self) -> Outcome {
        match self {
            Ending::Failed { error } => Outcome::Failed(error@),
            Ending::Interrupted => Outcome::Interrupted,
            Ending::SelfReported => Outcome::SelfReported,
        }
    }
}

/// An exit code as diagnostics show it.
pub open spec fn shown_exit_code(code: Option<i32>) -> Seq<char> {
    match code {
        Some(n) => "Some("@ + text::signed_decimal(n as int) + ")"@,
        None => "None"@,
    }
}

fn show_exit_code(code: Option<i32>) -> (out: String)
    ensures
        out@ == shown_exit_code(code),
{
    match code {
        Some(n) => text::cat3("Some(", text::signed_decimal_text(n as i64).as_str(), ")"),
        None => "None".to_owned(),
    }
}

/// How much of the last line of diagnostics is shown.
pub const HINT_CHARS: usize = 200;

/// The last line of diagnostics, as a hint.
pub open spec fn hint(tail: Seq<String>) -> Seq<char> {
    if tail.len() == 0 {
        ""@
    } else {
        "；stderr 尾行："@ + text::clipped(tail.last()@, HINT_CHARS as nat)
    }
}

/// How a run has ended. The breaker comes first, since it stops a run by
/// interrupting it; then what was done to the run; then what the run said; then
/// what its process ended with.
pub open spec fn outcome_of(exit: TaskExit, notes: Notes) -> Outcome {
    if notes.tripped is Some {
        Outcome::Failed(notes.tripped->Some_0)
    } else if exit.interrupted {
        Outcome::Interrupted
    } else if exit.timed_out {
        Outcome::Failed("任务级硬超时触发，进程组已终止（#9）"@)
    } else if exit.fatal_error is Some {
        Outcome::Failed(exit.fatal_error->Some_0@)
    } else if exit.turn_failed is Some {
        Outcome::Failed(exit.turn_failed->Some_0@)
    } else if exit.exit_code != Some(0i32) {
        Outcome::Failed("codex exec 退出码 "@ + shown_exit_code(exit.exit_code) + hint(notes.tail))
    } else {
        Outcome::SelfReported
    }
}

/// How a run has ended.
pub fn ending_of(exit: &TaskExit, watch: &StreamWatch) -> (ending: Ending)
    ensures
        ending@ == outcome_of(*exit, watch@),
{
    match &watch.breaker_tripped {
        Some(trip) => {
            return Ending::Failed { error: trip.clone() };
        },
        None => {},
    }
    if exit.interrupted {
        return Ending::Interrupted;
    }
    if exit.timed_out {
        return Ending::Failed { error: "任务级硬超时触发，进程组已终止（#9）".to_owned() };
    }
    match &exit.fatal_error {
        Some(message) => {
            return Ending::Failed { error: message.clone() };
        },
        None => {},
    }
    match &exit.turn_failed {
        Some(message) => {
            return Ending::Failed { error: message.clone() };
        },
        None => {},
    }
    let zero: bool = match exit.exit_code {
        Some(code) => code == 0,
        None => false,
    };
    if !zero {
        let length: usize = watch.stderr_tail.len();
        let last_line = if length == 0 {
            "".to_owned()
        } else {
            let line = &watch.stderr_tail[length - 1];
            text::cat2("；stderr 尾行：", text::clip(line.as_str(), HINT_CHARS).as_str())
        };
        return Ending::Failed {
            error: text::cat3(
                "codex exec 退出码 ",
                show_exit_code(exit.exit_code).as_str(),
                last_line.as_str(),
            ),
        };
    }
    Ending::SelfReported
}

/// Law: only a run that reports success, was neither stopped nor late, and did
/// not trip the breaker is given to the judge.
pub proof fn law_only_clean_runs_are_judged(exit: TaskExit, notes: Notes)
    ensures
        outcome_of(exit, notes) is SelfReported <==> {
            &&& notes.tripped is None
            &&& !exit.interrupted
            &&& !exit.timed_out
            &&& reports_success(exit)
        },
{
}

/// Law: a run that the breaker stopped counts as failed for that reason, though
/// it was stopped by an interruption.
pub proof fn law_breaker_outranks_interruption(exit: TaskExit, notes: Notes)
    requires
        notes.tripped is Some,
    ensures
        outcome_of(exit, notes) == Outcome::Failed(notes.tripped->Some_0),
{
}

/// What becomes of the branch of a task: an interrupted task leaves nothing, and
/// any other leaves its branch where it was asked to.
pub open spec fn reclaim_for(outcome: Outcome, diff_first: bool) -> ReclaimMode {
    if outcome is Interrupted || !diff_first {
        ReclaimMode::DeleteBranch
    } else {
        ReclaimMode::KeepBranch
    }
}

/// What becomes of the branch of a task.
pub fn reclaim_mode(ending: &Ending, diff_first: bool) -> (mode: ReclaimMode)
    ensures
        mode == reclaim_for(ending@, diff_first),
{
    let kept: ReclaimMode = match ending {
        Ending::Interrupted => ReclaimMode::DeleteBranch,
        _ => ReclaimMode::KeepBranch,
    };
    if kept == ReclaimMode::KeepBranch && !diff_first {
        ReclaimMode::DeleteBranch
    } else {
        kept
    }
}

/// How many seconds a judging command may take.
pub const JUDGE_TIMEOUT_SECS: u64 = 600;

/// What a judging command ends with where it does not start.
pub const JUDGE_NOT_STARTED: i32 = 127;

/// What a judging command ends with where it takes too long.
pub const JUDGE_TIMED_OUT: i32 = 124;

/// What a judging command ends with where that is not known.
pub const JUDGE_LOST: i32 = -1;

/// The script that judges. A failure anywhere in a pipe is a failure.
pub open spec fn script_of(command: Seq<char>) -> Seq<char> {
    "set -o pipefail; "@ + command
}

/// The script that judges.
pub fn judge_script(judge: &JudgeSpec) -> (out: String)
    ensures
        out@ == script_of(judge.command@),
{
    text::cat2("set -o pipefail; ", judge.command.as_str())
}

/// What came of a judging command.
#[derive(Clone, Copy, Debug, PartialEq, Eq, Structural)]
pub enum JudgeRun {
    /// It did not start.
    NotStarted,
    /// It ended, with this code unless it was killed.
    Exited {
        /// The code.
        code: Option<i32>,
    },
    /// Waiting for it failed.
    Lost,
    /// It took too long.
    TimedOut,
}

/// What the judge says.
pub fn judged(run: JudgeRun) -> (out: JudgeOutcome)
    ensures
        out == match run {
            JudgeRun::NotStarted => JudgeOutcome::Failed { exit_code: JUDGE_NOT_STARTED },
            JudgeRun::Exited { code: Some(code) } => if code == 0 {
                JudgeOutcome::Passed
            } else {
                JudgeOutcome::Failed { exit_code: code }
            },
            JudgeRun::Exited { code: None } => JudgeOutcome::Failed { exit_code: JUDGE_LOST },
            JudgeRun::Lost => JudgeOutcome::Failed { exit_code: JUDGE_LOST },
            JudgeRun::TimedOut => JudgeOutcome::Failed { exit_code: JUDGE_TIMED_OUT },
        },
        out is Passed <==> run == (JudgeRun::Exited { code: Some(0i32) }),
        !(out is NotJudged),
{
    match run {
        JudgeRun::NotStarted => JudgeOutcome::Failed { exit_code: JUDGE_NOT_STARTED },
        JudgeRun::Exited { code } => match code {
            Some(code) => if code == 0 {
                JudgeOutcome::Passed
            } else {
                JudgeOutcome::Failed { exit_code: code }
            },
            None => JudgeOutcome::Failed { exit_code: JUDGE_LOST },
        },
        JudgeRun::Lost => JudgeOutcome::Failed { exit_code: JUDGE_LOST },
        JudgeRun::TimedOut => JudgeOutcome::Failed { exit_code: JUDGE_TIMED_OUT },
    }
}

} // verus!
