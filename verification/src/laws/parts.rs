//! What the smaller parts do.

use crate::acceptance;
use crate::acceptance::{Breaker, StreamWatch};
use crate::clock;
use crate::clock::Timestamp;
use crate::ids;
use crate::ids::InvalidId;
use crate::laws::places;
use crate::laws::watch;
use crate::middleware;
use crate::middleware::InjectedBody;
use crate::paths::{DirEntry, DirListing, LoadReport, StoreError, SupervisorHome, SupervisorLock};
use crate::registry;
use crate::registry::{JudgeSpec, TaskId, TaskRecord};
use crate::service::preflight;
use crate::service::status;
use crate::service::ServiceError;
use crate::session::{SessionId, SessionRecord};
use crate::text;
use vstd::prelude::*;

verus! {

/// Law: a breaker counts equal failures in a row. The first of a kind counts as
/// one, each further one adds one, another kind begins anew, and a success begins
/// at nothing; it says so exactly when the count has reached its limit.
pub proof fn law_breakers_count_equal_failures(
    first: &mut Breaker,
    second: &mut Breaker,
    reset: &mut Breaker,
    a: &str,
    b: &str,
    one: Option<u32>,
    two: Option<u32>,
    done: (),
)
    requires
        old(first).counted().streak == 0,
        old(first).counted().signature is None,
        call_ensures(Breaker::record_failure, (first, a), one),
        *old(second) == *final(first),
        call_ensures(Breaker::record_failure, (second, b), two),
        call_ensures(Breaker::record_success, (reset,), done),
    ensures
        final(first).counted().streak == 1,
        final(first).counted().signature == Some(a@),
        a@ == b@ ==> final(second).counted().streak == 2,
        a@ != b@ ==> final(second).counted().streak == 1,
        final(second).counted().signature == Some(b@),
        one is Some <==> old(first).limit() <= 1,
        one is Some ==> one->Some_0 == 1,
        two is Some <==> final(second).counted().streak >= old(first).limit(),
        two is Some ==> two->Some_0 == final(second).counted().streak,
        final(first).limit() == old(first).limit(),
        final(second).limit() == old(first).limit(),
        final(reset).counted().streak == 0,
        final(reset).counted().signature is None,
        final(reset).limit() == old(reset).limit(),
{
}

/// Law: a longer row counts one more for each further failure of its kind.
pub proof fn law_breakers_go_on_counting(breaker: &mut Breaker, kind: &str, out: Option<u32>)
    requires
        old(breaker).counted().streak < u32::MAX,
        call_ensures(Breaker::record_failure, (breaker, kind), out),
    ensures
        old(breaker).counted().signature == Some(kind@) ==> final(breaker).counted().streak == old(
            breaker).counted().streak + 1,
        old(breaker).counted().signature != Some(kind@) ==> final(breaker).counted().streak == 1,
        out is Some <==> final(breaker).counted().streak >= old(breaker).limit(),
{
}

/// Law: what was noticed is what is told.
pub proof fn law_notes_are_told(
    seen: StreamWatch,
    why: Option<String>,
    acted: bool,
    tail: &std::collections::VecDeque<String>,
    lower: &str,
    tells: bool,
)
    requires
        call_ensures(StreamWatch::tripped, (&seen,), why),
        call_ensures(StreamWatch::acted, (&seen,), acted),
        call_ensures(StreamWatch::stderr_tail, (&seen,), tail),
        call_ensures(acceptance::tells_of_transient_failure, (lower,), tells),
    ensures
        why is Some <==> seen@.tripped is Some,
        why is Some ==> why->Some_0@ == seen@.tripped->Some_0,
        acted == seen@.acted,
        tail@ == seen@.tail,
        tells <==> watch::blames_the_way(lower@),
{
}

/// Law: instants are written in universal time: in records with the offset
/// written out, and in audit lines to the millisecond.
pub proof fn law_instants_are_in_universal_time(now: Timestamp, line: String)
    requires
        call_ensures(Timestamp::now, (), now),
        call_ensures(clock::now_rfc3339, (), line),
    ensures
        text::has_suffix(now.text@, "+00:00"@),
        text::has_suffix(line@, "Z"@),
{
    let s = now.text@;
    let at = choose|at: clock::Civil| #[trigger]
        at.exists_in_calendar() && s == at.to_the_second() + at.shortest_fraction() + "+00:00"@;
    let back = "+00:00"@;
    assert(s.subrange(s.len() - back.len(), s.len() as int) =~= back);
    let t = line@;
    let then = choose|at: clock::Civil| #[trigger]
        at.exists_in_calendar() && t == at.to_the_second() + "."@ + clock::padded(
            at.nanos / 1_000_000,
            3,
        ) + "Z"@;
    let end = "Z"@;
    assert(t.subrange(t.len() - end.len(), t.len() as int) =~= end);
}

/// Law: what was written as an identifier is read as the same one, everywhere
/// alike; fresh ones are random.
pub proof fn law_identifiers_are_read_alike(
    bits: u128,
    task: String,
    session: String,
    raw: &str,
    one: Result<TaskId, InvalidId>,
    two: Result<SessionId, InvalidId>,
    three: Result<u128, InvalidId>,
    fresh: TaskId,
    other: SessionId,
)
    requires
        call_ensures(TaskId::to_string, (&TaskId { bits },), task),
        call_ensures(SessionId::to_string, (&SessionId { bits },), session),
        call_ensures(TaskId::from_str, (raw,), one),
        call_ensures(SessionId::from_str, (raw,), two),
        call_ensures(ids::parse_id, (raw,), three),
        call_ensures(TaskId::new, (), fresh),
        call_ensures(SessionId::new, (), other),
    ensures
        task@ == session@,
        task@.len() == 36,
        raw@ == task@ ==> one is Ok && one->Ok_0.bits == bits,
        raw@ == task@ ==> two is Ok && two->Ok_0.bits == bits,
        raw@ == task@ ==> three is Ok && three->Ok_0 == bits,
        one is Ok <==> three is Ok,
        two is Ok <==> three is Ok,
        ids::is_random_uuid(fresh.bits),
        ids::is_random_uuid(other.bits),
{
    ids::lemma_uuid_text_is_plain(bits);
}

/// Law: the records of tasks are looked for among the tasks, and those of sessions
/// among the sessions; what is found there is given, in order.
pub proof fn law_records_are_looked_for_in_their_place(
    home: SupervisorHome,
    tasks: Vec<DirEntry<TaskRecord>>,
    sessions: Vec<DirEntry<SessionRecord>>,
    a: Result<LoadReport<TaskRecord>, StoreError>,
    b: Result<LoadReport<SessionRecord>, StoreError>,
    said: String,
    c: Result<LoadReport<TaskRecord>, StoreError>,
    d: Result<LoadReport<SessionRecord>, StoreError>,
    of_tasks: String,
    of_sessions: String,
)
    requires
        call_ensures(TaskRecord::load_all, (&home, DirListing::Entries(tasks)), a),
        call_ensures(SessionRecord::load_all, (&home, DirListing::Entries(sessions)), b),
        call_ensures(
            TaskRecord::load_all,
            (&home, DirListing::<TaskRecord>::Unreadable { detail: said }),
            c,
        ),
        call_ensures(
            SessionRecord::load_all,
            (&home, DirListing::<SessionRecord>::Unreadable { detail: said }),
            d,
        ),
        call_ensures(SupervisorHome::tasks_dir, (&home,), of_tasks),
        call_ensures(SupervisorHome::sessions_dir, (&home,), of_sessions),
        forall|i: int|
            0 <= i < tasks@.len() ==> (#[trigger] tasks@[i]) is File && places::is_json(
                tasks@[i]->name@,
            ) && tasks@[i]->content is Ok,
        forall|i: int|
            0 <= i < sessions@.len() ==> (#[trigger] sessions@[i]) is File && places::is_json(
                sessions@[i]->name@,
            ) && sessions@[i]->content is Ok,
    ensures
        a is Ok,
        a->Ok_0.records@ == Seq::new(tasks@.len(), |i: int| tasks@[i]->content->Ok_0),
        b is Ok,
        b->Ok_0.records@ == Seq::new(sessions@.len(), |i: int| sessions@[i]->content->Ok_0),
        c is Err && c->Err_0 is Io && c->Err_0->Io_path@ == of_tasks@ && c->Err_0->Io_detail == said,
        d is Err && d->Err_0 is Io && d->Err_0->Io_path@ == of_sessions@ && d->Err_0->Io_detail
            == said,
{
    places::lemma_breakage(tasks@);
    places::lemma_breakage(sessions@);
    places::lemma_all_records(of_tasks@, tasks@);
    places::lemma_all_records(of_sessions@, sessions@);
}

/// Law: a home is where it was said to be, and so is a lock.
pub proof fn law_homes_are_where_they_were_said_to_be(
    given: String,
    home: SupervisorHome,
    back: &str,
    lock: SupervisorLock,
    path: &str,
)
    requires
        call_ensures(SupervisorHome::new, (given,), home),
        call_ensures(SupervisorHome::codex_home, (&home,), back),
        call_ensures(SupervisorLock::path, (&lock,), path),
    ensures
        home@ == given@,
        back@ == given@,
        path@ == lock@,
{
}

/// Law: a stream that could not be read is reported with its task and the reason.
pub proof fn law_unread_streams_are_reported(task: TaskId, detail: String, out: ServiceError)
    requires
        call_ensures(status::tail_failed, (task, detail), out),
    ensures
        out is Io,
        out->Io_context@ == "read events for "@ + task@,
        out->Io_detail == detail,
{
}

/// Law: a failed probe is told by its cause: a refusal before silence, silence
/// before anything else.
pub proof fn law_failed_probes_are_told_by_their_cause(
    error: &str,
    lower: &str,
    timed_out: bool,
    out: String,
)
    requires
        call_ensures(preflight::verdict_on_probe, (error, lower, timed_out), out),
    ensures
        text::occurs_in(lower@, "refused"@) ==> out@
            == "端口拒连——机器在但服务未起（deepseek 走代理时先跑 scripts/dspark_proxy.py）"@,
        !text::occurs_in(lower@, "refused"@) && (timed_out || text::occurs_in(
            lower@,
            "timed out"@,
        )) ==> out@
            == "无响应（超时）——机器疑似关机或网络不可达；请人工分诊（ping 裸 IP 区分关机/停服）"@,
        !text::occurs_in(lower@, "refused"@) && !timed_out && !text::occurs_in(
            lower@,
            "timed out"@,
        ) ==> out@ == "连接失败："@ + error@,
{
}

/// Law: an object gets a temperature in place of any other, where there is one
/// that JSON can write; what it had carried is told.
pub proof fn law_objects_get_the_temperature(
    object: serde_json::Map<String, serde_json::Value>,
    temperature: &str,
    out: Option<InjectedBody>,
)
    requires
        call_ensures(middleware::inject_into, (object, temperature), out),
    ensures
        out is Some <==> middleware::number_json(temperature@) is Some,
        out is Some ==> out->Some_0.body@ == middleware::encoded_object(
            middleware::members_of(object).insert(
                "temperature"@,
                middleware::number_json(temperature@)->Some_0,
            ),
        ),
        out is Some && middleware::members_of(object).contains_key("temperature"@)
            ==> text::opt_text(out->Some_0.had) == middleware::float_text(
            middleware::members_of(object)["temperature"@],
        ),
        out is Some && !middleware::members_of(object).contains_key("temperature"@)
            ==> out->Some_0.had is None,
        out is Some && middleware::parsed_object(out->Some_0.body@) is Some
            ==> middleware::parsed_object(out->Some_0.body@)->Some_0.dom().contains("temperature"@),
{
}

/// Law: texts are taken apart and put together character by character.
pub proof fn law_texts_are_put_together(
    a: &str,
    b: &str,
    c: &str,
    d: &str,
    e: &str,
    f: &str,
    g: &str,
    three: String,
    four: String,
    five: String,
    six: String,
    seven: String,
    chars: Vec<char>,
    all: Vec<char>,
    from: usize,
    to: usize,
    part: String,
    max_chars: usize,
    cut: String,
)
    requires
        call_ensures(text::cat3, (a, b, c), three),
        call_ensures(text::cat4, (a, b, c, d), four),
        call_ensures(text::cat5, (a, b, c, d, e), five),
        call_ensures(text::cat6, (a, b, c, d, e, f), six),
        call_ensures(text::cat7, (a, b, c, d, e, f, g), seven),
        call_ensures(text::chars_of, (a,), chars),
        from <= to <= all@.len(),
        call_ensures(text::text_between, (&all, from, to), part),
        call_ensures(text::clip, (a, max_chars), cut),
    ensures
        three@ == a@ + b@ + c@,
        four@ == three@ + d@,
        five@ == four@ + e@,
        six@ == five@ + f@,
        seven@ == six@ + g@,
        chars@ == a@,
        part@ == all@.subrange(from as int, to as int),
        a@.len() <= max_chars ==> cut@ == a@,
        a@.len() > max_chars ==> cut@ == a@.take(max_chars as int).push('…'),
{
}

/// Law: a judge is copied whole, and a process is shown by its number.
pub proof fn law_judges_are_copied(
    judge: Option<JudgeSpec>,
    copy: Option<JudgeSpec>,
    pid: Option<u32>,
    shown: String,
)
    requires
        call_ensures(registry::clone_judge, (&judge,), copy),
        call_ensures(registry::show_pid, (pid,), shown),
    ensures
        copy == judge,
        pid matches Some(n) ==> shown@ == "Some("@ + text::decimal(n as nat) + ")"@,
        pid is None ==> shown@ == "None"@,
{
}

} // verus!
