//! The provider middleware: puts sampling parameters into requests on their way
//! to a model, and keeps an audit line of each.
//!
//! There is one listener per model, shared by all tasks that use it. A request
//! that carries a JSON object to one of the generating endpoints gets the
//! temperature of its model; every other request passes through unchanged.

use crate::models::InjectParams;
use crate::paths;
use crate::text;
use vstd::prelude::*;

verus! {

/// The value type of the `serde_json` crate. Carried, never looked into.
#[verifier::external_type_specification]
#[verifier::external_body]
pub struct ExJsonValue(serde_json::Value);

/// The object type of the `serde_json` crate: members by name.
#[verifier::external_type_specification]
#[verifier::external_body]
#[verifier::reject_recursive_types(K)]
#[verifier::reject_recursive_types(V)]
pub struct ExJsonMap<K, V>(serde_json::Map<K, V>);

/// What a JSON object holds: for each member name, the compact JSON text of the
/// member.
pub uninterp spec fn members_of(object: serde_json::Map<String, serde_json::Value>) -> Map<
    Seq<char>,
    Seq<char>,
>;

/// The object that `serde_json::from_slice` reads from bytes, by its members;
/// nothing where the bytes are no JSON or the JSON is no object.
pub uninterp spec fn parsed_object(bytes: Seq<u8>) -> Option<Map<Seq<char>, Seq<char>>>;

/// The floating-point number that a JSON value stands for, in the text form of
/// `serde_json`; nothing where the value is no number.
pub uninterp spec fn float_text(json: Seq<char>) -> Option<Seq<char>>;

/// The floating-point number that `str::parse` reads from a text, as the compact
/// JSON of the `serde_json::Number` made of it; nothing where the text is no
/// number, or none that JSON can write.
pub uninterp spec fn number_json(s: Seq<char>) -> Option<Seq<char>>;

/// What `serde_json::to_vec` makes of an object with the given members.
pub uninterp spec fn encoded_object(members: Map<Seq<char>, Seq<char>>) -> Seq<u8>;

/// `serde_json::from_slice`, for a body that should be an object: the object, or
/// nothing where the body is not one.
#[verifier::external_body]
fn read_object(body: &[u8]) -> (out: Option<serde_json::Map<String, serde_json::Value>>)
    ensures
        match out {
            Some(object) => parsed_object(body@) == Some(members_of(object)),
            None => parsed_object(body@) is None,
        },
{
    match serde_json::from_slice(body) {
        Ok(serde_json::Value::Object(object)) => Some(object),
        _ => None,
    }
}

/// `serde_json::Map::get` and `serde_json::Value::as_f64`: the number that a
/// member stands for, if it is one. It is handed out as the text of the
/// `serde_json::Number` made of it.
#[verifier::external_body]
fn member_float(object: &serde_json::Map<String, serde_json::Value>, name: &str) -> (out: Option<
    String,
>)
    ensures
        text::opt_text(out) == if members_of(*object).contains_key(name@) {
            float_text(members_of(*object)[name@])
        } else {
            None
        },
{
    let float = object.get(name).and_then(|member| member.as_f64());
    float.and_then(serde_json::Number::from_f64).map(|number| number.to_string())
}

/// `serde_json::Number::from_f64` and `serde_json::Map::insert`: puts the number
/// that a text stands for under a name, in place of what was there. A text that
/// is no number, or none that JSON can write, changes nothing.
#[verifier::external_body]
fn set_number(
    object: &mut serde_json::Map<String, serde_json::Value>,
    name: &str,
    number: &str,
) -> (done: bool)
    ensures
        match number_json(number@) {
            Some(json) => done && members_of(*final(object)) == members_of(*old(object)).insert(
                name@,
                json,
            ),
            None => !done && members_of(*final(object)) == members_of(*old(object)),
        },
{
    match number.parse().ok().and_then(serde_json::Number::from_f64) {
        Some(value) => {
            object.insert(name.to_string(), serde_json::Value::Number(value));
            true
        },
        None => false,
    }
}

/// `serde_json::to_vec` for an object. It fails only on what is no
/// `serde_json::Value`: on maps whose keys are no texts, and on types whose own
/// impl fails. What `serde_json::from_slice` reads back from it, if it reads
/// anything back, has the same member names. That holds of an object with a
/// `temperature`: an object whose only member has the name that the crate keeps
/// for raw values would be read back as what is inside of it. Nothing is said of
/// the members themselves, since floating-point numbers may be read back with
/// less precision than they were written with.
#[verifier::external_body]
fn encode_object(object: serde_json::Map<String, serde_json::Value>) -> (out: Option<Vec<u8>>)
    requires
        members_of(object).contains_key("temperature"@),
    ensures
        out is Some,
        out->Some_0@ == encoded_object(members_of(object)),
        parsed_object(out->Some_0@) is Some ==> parsed_object(out->Some_0@)->Some_0.dom()
            == members_of(object).dom(),
{
    serde_json::to_vec(&serde_json::Value::Object(object)).ok()
}

/// A body that was changed, and what was in its place before.
pub struct Injected {
    /// The new body.
    pub body: Seq<u8>,
    /// The temperature that the request had carried, if any.
    pub had: Option<Seq<char>>,
}

/// What becomes of an object with the given members when a temperature is put
/// into it.
pub open spec fn injected_object(
    members: Map<Seq<char>, Seq<char>>,
    temperature: Seq<char>,
) -> Option<Injected> {
    match number_json(temperature) {
        None => None,
        Some(number) => Some(
            Injected {
                body: encoded_object(members.insert("temperature"@, number)),
                had: if members.contains_key("temperature"@) {
                    float_text(members["temperature"@])
                } else {
                    None
                },
            },
        ),
    }
}

/// What becomes of a body when parameters are put into it; nothing where it
/// stays as it is.
pub open spec fn injected_body(body: Seq<u8>, inject: InjectParams) -> Option<Injected> {
    match inject.temperature {
        None => None,
        Some(temperature) => match parsed_object(body) {
            None => None,
            Some(members) => injected_object(members, temperature@),
        },
    }
}

/// Whether a body, as far as it can be read back, carries a temperature, and
/// besides it members of the same names as `members`.
pub open spec fn carries_temperature(body: Seq<u8>, members: Map<Seq<char>, Seq<char>>) -> bool {
    parsed_object(body) is Some ==> parsed_object(body)->Some_0.dom() == members.dom().insert(
        "temperature"@,
    )
}

/// A changed body, and the temperature that the request had carried.
#[derive(Debug)]
pub struct InjectedBody {
    /// The new body.
    pub body: Vec<u8>,
    /// The temperature that the request had carried, if any.
    pub had: Option<String>,
}

/// Puts a temperature into an object that was read from a request.
pub fn inject_into(
    object: serde_json::Map<String, serde_json::Value>,
    temperature: &str,
) -> (out: Option<InjectedBody>)
    ensures
        match injected_object(members_of(object), temperature@) {
            None => out is None,
            Some(injected) => out matches Some(made) && made.body@ == injected.body
                && text::opt_text(made.had) == injected.had && carries_temperature(
                made.body@,
                members_of(object),
            ),
        },
{
    let mut changed = object;
    let had = member_float(&changed, "temperature");
    if !set_number(&mut changed, "temperature", temperature) {
        return None;
    }
    match encode_object(changed) {
        Some(body) => Some(InjectedBody { body, had }),
        None => None,
    }
}

/// Puts the parameters of a model into the body of a request. A body that is no
/// JSON object is left alone.
pub fn apply_inject(body: &[u8], inject: &InjectParams) -> (out: Option<InjectedBody>)
    ensures
        match injected_body(body@, *inject) {
            None => out is None,
            Some(injected) => out matches Some(made) && made.body@ == injected.body
                && text::opt_text(made.had) == injected.had && carries_temperature(
                made.body@,
                parsed_object(body@)->Some_0,
            ),
        },
{
    match &inject.temperature {
        None => None,
        Some(temperature) => match read_object(body) {
            None => None,
            Some(object) => inject_into(object, temperature.as_str()),
        },
    }
}

/// How many seconds a connection to an upstream may take. How long an upstream
/// may answer is not limited here: the time limit of the task is.
pub const UPSTREAM_CONNECT_TIMEOUT_SECS: u64 = 5;

/// The longest request body that is taken.
pub const MAX_BODY_BYTES: usize = 33_554_432;

/// Whether a header belongs to one connection only, and so is not passed on.
/// The length of the body and the host are among them: both change on the way.
pub open spec fn is_hop(name: Seq<char>) -> bool {
    ||| text::same_ignoring_ascii_case(name, "connection"@)
    ||| text::same_ignoring_ascii_case(name, "keep-alive"@)
    ||| text::same_ignoring_ascii_case(name, "transfer-encoding"@)
    ||| text::same_ignoring_ascii_case(name, "te"@)
    ||| text::same_ignoring_ascii_case(name, "trailer"@)
    ||| text::same_ignoring_ascii_case(name, "proxy-authorization"@)
    ||| text::same_ignoring_ascii_case(name, "proxy-authenticate"@)
    ||| text::same_ignoring_ascii_case(name, "upgrade"@)
    ||| text::same_ignoring_ascii_case(name, "content-length"@)
    ||| text::same_ignoring_ascii_case(name, "host"@)
}

/// Whether a header belongs to one connection only.
pub fn is_hop_header(name: &str) -> (yes: bool)
    ensures
        yes == is_hop(name@),
{
    text::equal_ignoring_ascii_case(
        name,
        "connection",
    ) || text::equal_ignoring_ascii_case(
        name,
        "keep-alive",
    ) || text::equal_ignoring_ascii_case(
        name,
        "transfer-encoding",
    ) || text::equal_ignoring_ascii_case(
        name,
        "te",
    ) || text::equal_ignoring_ascii_case(
        name,
        "trailer",
    ) || text::equal_ignoring_ascii_case(
        name,
        "proxy-authorization",
    ) || text::equal_ignoring_ascii_case(
        name,
        "proxy-authenticate",
    ) || text::equal_ignoring_ascii_case(
        name,
        "upgrade",
    ) || text::equal_ignoring_ascii_case(
        name,
        "content-length",
    ) || text::equal_ignoring_ascii_case(
        name,
        "host",
    )
}

/// A path without its query.
pub open spec fn path_of(path_and_query: Seq<char>) -> Seq<char> {
    text::pieces(path_and_query, '?').first()
}

/// Whether requests to a path get parameters. The match is exact: nothing below
/// such a path does.
pub open spec fn is_generating(path_and_query: Seq<char>) -> bool {
    let rest = text::without_prefix(path_of(path_and_query), "/v1"@);
    rest == "/responses"@ || rest == "/chat/completions"@ || rest == "/completions"@
}

/// Whether requests to a path get parameters.
pub fn is_inject_path(path_and_query: &str) -> (yes: bool)
    ensures
        yes == is_generating(path_and_query@),
{
    let parts = text::split(path_and_query, '?');
    assert(text::texts(parts@)[0] == parts@[0]@);
    let rest = text::strip_prefix_or_keep(parts[0].as_str(), "/v1");
    text::same_text(rest.as_str(), "/responses") || text::same_text(
        rest.as_str(),
        "/chat/completions",
    ) || text::same_text(rest.as_str(), "/completions")
}

/// Where a request goes: what stands behind `/v1` of its path, at the base of
/// the upstream. A path without that prefix goes there whole.
pub open spec fn target(upstream_base: Seq<char>, path_and_query: Seq<char>) -> Seq<char> {
    upstream_base + text::without_prefix(path_and_query, "/v1"@)
}

/// Where a request goes.
pub fn target_url(upstream_base: &str, path_and_query: &str) -> (out: String)
    ensures
        out@ == target(upstream_base@, path_and_query@),
{
    text::cat2(upstream_base, text::strip_prefix_or_keep(path_and_query, "/v1").as_str())
}

/// The base of an upstream in its normal form: without slashes at its end.
pub open spec fn normal_base(raw: Seq<char>) -> Seq<char> {
    text::trimmed_end(raw, |c: char| c == '/')
}

/// Whether a base is one of HTTP.
pub open spec fn is_http(base: Seq<char>) -> bool {
    text::has_prefix(base, "http://"@) || text::has_prefix(base, "https://"@)
}

/// Brings the base of an upstream into its normal form. Only HTTP is served.
pub fn normalize_base(raw: &str) -> (out: Result<String, MiddlewareError>)
    ensures
        match out {
            Ok(base) => is_http(normal_base(raw@)) && base@ == normal_base(raw@),
            Err(error) => {
                &&& !is_http(normal_base(raw@))
                &&& error matches MiddlewareError::InvalidUpstream(given) && given@ == raw@
            },
        },
{
    let chars = text::chars_of(raw);
    let mut end: usize = chars.len();
    assert(chars@.take(end as int) =~= chars@);
    while end > 0 && chars[end - 1] == '/'
        invariant
            end <= chars@.len(),
            chars@ == raw@,
            normal_base(raw@) == normal_base(chars@.take(end as int)),
        decreases end,
    {
        assert(chars@.take(end as int).drop_last() =~= chars@.take(end - 1));
        end = end - 1;
    }
    let base = text::text_between(&chars, 0, end);
    assert(base@ =~= chars@.take(end as int));
    assert(base@ == normal_base(raw@));
    if !text::starts_with(base.as_str(), "http://") && !text::starts_with(
        base.as_str(),
        "https://",
    ) {
        return Err(MiddlewareError::InvalidUpstream(raw.to_owned()));
    }
    Ok(base)
}

/// Why there is no listener.
#[derive(Debug)]
pub enum MiddlewareError {
    /// Something the listener needs could not be had.
    Io {
        /// What was being done.
        context: String,
        /// What the system said.
        detail: String,
    },
    /// The upstream cannot be served.
    InvalidUpstream(String),
}

impl MiddlewareError {
    /// The error in words.
    pub open spec fn words(&self) -> Seq<char> {
        match self {
            MiddlewareError::Io { context, .. } => "中间件监听器启动失败: "@ + context@,
            MiddlewareError::InvalidUpstream(given) => "上游 base_url 无效: "@ + given@,
        }
    }

    /// The error in words.
    pub fn message(&self) -> (out: String)
        ensures
            out@ == self.words(),
    {
        match self {
            MiddlewareError::Io { context, .. } => text::cat2(
                "中间件监听器启动失败: ",
                context.as_str(),
            ),
            MiddlewareError::InvalidUpstream(given) => text::cat2(
                "上游 base_url 无效: ",
                given.as_str(),
            ),
        }
    }
}

/// A header of a request or a response.
#[derive(Debug)]
pub struct Header {
    /// Its name.
    pub name: String,
    /// Its value.
    pub value: Vec<u8>,
}

/// The headers that are passed on, in order.
pub open spec fn passed_on(headers: Seq<Header>) -> Seq<Header> {
    headers.filter(|header: Header| !is_hop(header.name@))
}

/// Drops the headers that belong to one connection only. The others are passed
/// on unchanged and in order.
pub fn end_to_end_headers(headers: Vec<Header>) -> (out: Vec<Header>)
    ensures
        out@ == passed_on(headers@),
{
    let mut out: Vec<Header> = Vec::new();
    let ghost all = headers@;
    let ghost keep = |header: Header| !is_hop(header.name@);
    assert(all.take(0) =~= Seq::<Header>::empty());
    assert(all.take(0).filter(keep) =~= Seq::<Header>::empty()) by {
        reveal(Seq::filter);
    }
    for header in it: headers
        invariant
            it.seq() == all,
            keep == (|header: Header| !is_hop(header.name@)),
            out@ == all.take(it.index() as int).filter(keep),
    {
        let ghost at = it.index() as int;
        assert(all.take(at + 1).drop_last() =~= all.take(at));
        assert(all.take(at + 1).last() == header);
        assert(all.take(at + 1).filter(keep) == if keep(header) {
            all.take(at).filter(keep).push(header)
        } else {
            all.take(at).filter(keep)
        }) by {
            reveal(Seq::filter);
        }
        if !is_hop_header(header.name.as_str()) {
            out.push(header);
        }
    }
    assert(all.take(all.len() as int) =~= all);
    out
}

/// What a listener knows of the model that it serves.
#[derive(Debug)]
pub struct ProxyState {
    /// The registry key of the model.
    pub model_key: String,
    /// The base of the upstream, in its normal form.
    pub upstream_base: String,
    /// What is put into requests.
    pub inject: InjectParams,
}

/// A request as it goes upstream.
#[derive(Debug)]
pub struct ForwardPlan {
    /// Its path and query, as it came.
    pub path: String,
    /// Where it goes.
    pub target: String,
    /// Its headers.
    pub headers: Vec<Header>,
    /// Its body.
    pub body: Vec<u8>,
    /// Whether parameters were put into the body.
    pub injected: bool,
    /// The temperature that it had carried before, if any.
    pub temperature_had: Option<String>,
}

/// What becomes of the body of a request: only what is posted to a generating
/// endpoint is changed.
pub open spec fn forwarded_body(
    inject: InjectParams,
    method: Seq<char>,
    path: Seq<char>,
    body: Seq<u8>,
) -> Option<Injected> {
    if method == "POST"@ && is_generating(path) {
        injected_body(body, inject)
    } else {
        None
    }
}

/// Turns a request into the one that goes upstream.
pub fn plan_forward(
    state: &ProxyState,
    method: &str,
    path_and_query: Option<String>,
    headers: Vec<Header>,
    body: Vec<u8>,
) -> (plan: ForwardPlan)
    ensures
        plan.path@ == match path_and_query {
            Some(path) => path@,
            None => "/"@,
        },
        plan.target@ == target(state.upstream_base@, plan.path@),
        plan.headers@ == passed_on(headers@),
        match forwarded_body(state.inject, method@, plan.path@, body@) {
            Some(injected) => {
                &&& plan.injected
                &&& plan.body@ == injected.body
                &&& text::opt_text(plan.temperature_had) == injected.had
                &&& carries_temperature(plan.body@, parsed_object(body@)->Some_0)
            },
            None => {
                &&& !plan.injected
                &&& plan.body@ == body@
                &&& plan.temperature_had is None
            },
        },
{
    let path = match path_and_query {
        Some(path) => path,
        None => "/".to_owned(),
    };
    let target = target_url(state.upstream_base.as_str(), path.as_str());
    let headers = end_to_end_headers(headers);
    let changed = if text::same_text(method, "POST") && is_inject_path(path.as_str()) {
        apply_inject(body.as_slice(), &state.inject)
    } else {
        None
    };
    match changed {
        Some(injected) => ForwardPlan {
            path,
            target,
            headers,
            body: injected.body,
            injected: true,
            temperature_had: injected.had,
        },
        None => ForwardPlan {
            path,
            target,
            headers,
            body,
            injected: false,
            temperature_had: None,
        },
    }
}

/// What came of a request.
#[derive(Debug)]
pub enum UpstreamOutcome {
    /// The upstream answered.
    Answered {
        /// With which status.
        status: u16,
    },
    /// It did not.
    Failed {
        /// Why.
        error: String,
    },
}

/// The status that the client gets where the upstream does not answer.
pub const BAD_GATEWAY: u16 = 502;

/// The status that the client gets where its body is too long.
pub const PAYLOAD_TOO_LARGE: u16 = 413;

/// The status that the client gets where the answer cannot be passed on.
pub const INTERNAL_SERVER_ERROR: u16 = 500;

/// One line of the audit log.
#[derive(Debug)]
pub struct AuditRecord {
    /// When the line was written.
    pub ts: String,
    /// The model.
    pub model_key: String,
    /// The method of the request.
    pub method: String,
    /// Its path and query.
    pub path: String,
    /// The status that the client got.
    pub status: u16,
    /// The upstream.
    pub upstream: String,
    /// How long the upstream took to answer.
    pub duration_ms: u128,
    /// The length of the body as it was sent.
    pub body_bytes: usize,
    /// Whether parameters were put into it.
    pub injected: bool,
    /// The temperature that it had carried before, if any.
    pub temperature_had: Option<String>,
    /// The temperature that was put into it, if any.
    pub temperature_set: Option<String>,
    /// Why the upstream did not answer, if it did not.
    pub upstream_error: Option<String>,
}

/// The audit line of a request.
pub fn audit_of(
    state: &ProxyState,
    plan: &ForwardPlan,
    method: &str,
    outcome: UpstreamOutcome,
    ts: String,
    duration_ms: u128,
) -> (record: AuditRecord)
    ensures
        record.ts == ts,
        record.model_key == state.model_key,
        record.method@ == method@,
        record.path == plan.path,
        record.upstream == state.upstream_base,
        record.duration_ms == duration_ms,
        record.body_bytes == plan.body@.len(),
        record.injected == plan.injected,
        record.temperature_had == plan.temperature_had,
        record.temperature_set == if plan.injected {
            state.inject.temperature
        } else {
            None
        },
        match outcome {
            UpstreamOutcome::Answered { status } => record.status == status && record.upstream_error
                is None,
            UpstreamOutcome::Failed { error } => record.status == BAD_GATEWAY
                && record.upstream_error == Some(error),
        },
{
    let (status, upstream_error): (u16, Option<String>) = match outcome {
        UpstreamOutcome::Answered { status } => (status, None),
        UpstreamOutcome::Failed { error } => (BAD_GATEWAY, Some(error)),
    };
    AuditRecord {
        ts,
        model_key: state.model_key.clone(),
        method: method.to_owned(),
        path: plan.path.clone(),
        status,
        upstream: state.upstream_base.clone(),
        duration_ms,
        body_bytes: plan.body.len(),
        injected: plan.injected,
        temperature_had: text::clone_opt(&plan.temperature_had),
        temperature_set: if plan.injected {
            text::clone_opt(&state.inject.temperature)
        } else {
            None
        },
        upstream_error,
    }
}

/// An answer that the middleware gives by itself.
#[derive(Debug)]
pub struct Refusal {
    /// Its status.
    pub status: u16,
    /// Its body.
    pub body: String,
}

/// Why the middleware answers by itself.
#[derive(Debug)]
pub enum Obstacle {
    /// The body of the request could not be read whole.
    UnreadableBody {
        /// Why.
        error: String,
    },
    /// The upstream did not answer.
    DeadUpstream {
        /// Why.
        error: String,
    },
    /// The answer could not be passed on.
    UnusableAnswer {
        /// Why.
        error: String,
    },
}

/// The answer that the middleware gives by itself.
pub fn refusal_of(obstacle: Obstacle) -> (out: Refusal)
    ensures
        match obstacle {
            Obstacle::UnreadableBody { error } => out.status == PAYLOAD_TOO_LARGE && out.body@
                == "read request body: "@ + error@,
            Obstacle::DeadUpstream { error } => out.status == BAD_GATEWAY && out.body@
                == "upstream error: "@ + error@,
            Obstacle::UnusableAnswer { error } => out.status == INTERNAL_SERVER_ERROR && out.body@
                == "assemble response: "@ + error@,
        },
{
    match obstacle {
        Obstacle::UnreadableBody { error } => Refusal {
            status: PAYLOAD_TOO_LARGE,
            body: text::cat2("read request body: ", error.as_str()),
        },
        Obstacle::DeadUpstream { error } => Refusal {
            status: BAD_GATEWAY,
            body: text::cat2("upstream error: ", error.as_str()),
        },
        Obstacle::UnusableAnswer { error } => Refusal {
            status: INTERNAL_SERVER_ERROR,
            body: text::cat2("assemble response: ", error.as_str()),
        },
    }
}

/// A listener that runs.
#[derive(Debug)]
pub struct MiddlewareHandle {
    /// The model that it serves.
    pub model_key: String,
    /// The base URL under which the supervised tool reaches it.
    pub base_url: String,
    /// Its audit log.
    pub audit_path: String,
}

/// A listener that has to be started.
#[derive(Debug)]
pub struct ListenerPlan {
    /// The base of the upstream, in its normal form.
    pub upstream_base: String,
    /// Its audit log.
    pub audit_path: String,
}

/// What has to be done so that a model has its listener.
#[derive(Debug)]
pub enum EnsureStep {
    /// Nothing: it is there, under this base URL.
    Ready(String),
    /// Start one.
    Start(ListenerPlan),
}

/// The listeners, one per model.
#[derive(Debug)]
pub struct MiddlewareHub {
    listeners: Vec<MiddlewareHandle>,
}

/// The place of the listener of a model; the length of the list where there is
/// none.
pub open spec fn listener_place(list: Seq<MiddlewareHandle>, key: Seq<char>) -> nat
    decreases list.len(),
{
    if list.len() == 0 || list.first().model_key@ == key {
        0
    } else {
        1 + listener_place(list.drop_first(), key)
    }
}

/// Whether no model has two listeners.
pub open spec fn distinct_models(list: Seq<MiddlewareHandle>) -> bool {
    forall|i: int, j: int|
        0 <= i < j < list.len() ==> (#[trigger] list[i]).model_key@ != (#[trigger] list[j]).model_key@
}

/// The base URL of a listener on a local port.
pub open spec fn local_base(port: u16) -> Seq<char> {
    "http://127.0.0.1:"@ + text::decimal(port as nat) + "/v1"@
}

impl MiddlewareHub {
    /// The listeners in the order in which they were started.
    pub closed spec fn running(&self) -> Seq<MiddlewareHandle> {
        self.listeners@
    }

    /// What holds of the listeners at all times: no model has two.
    pub open spec fn wf(&self) -> bool {
        distinct_models(self.running())
    }

    /// The base URL of the listener of a model, if there is one.
    pub open spec fn base_of(&self, key: Seq<char>) -> Option<Seq<char>> {
        let place = listener_place(self.running(), key);
        if place < self.running().len() {
            Some(self.running()[place as int].base_url@)
        } else {
            None
        }
    }

    /// No listeners yet.
    pub fn new() -> (out: Self)
        ensures
            out.wf(),
            out.running() == Seq::<MiddlewareHandle>::empty(),
    {
        MiddlewareHub { listeners: Vec::new() }
    }

    fn find(&self, key: &str) -> (place: usize)
        ensures
            place == listener_place(self.running(), key@),
            place <= self.running().len(),
    {
        let mut at: usize = 0;
        assert(self.listeners@.skip(0) =~= self.listeners@);
        while at < self.listeners.len()
            invariant
                at <= self.listeners@.len(),
                listener_place(self.listeners@, key@) == at + listener_place(
                    self.listeners@.skip(at as int),
                    key@,
                ),
            decreases self.listeners@.len() - at,
        {
            if text::same_text(self.listeners[at].model_key.as_str(), key) {
                return at;
            }
            assert(self.listeners@.skip(at as int).drop_first() =~= self.listeners@.skip(at + 1));
            at = at + 1;
        }
        at
    }

    /// What has to be done so that a model has its listener. Where there is one
    /// already, it serves, whatever upstream is given.
    pub fn ensure(&self, model_key: &str, upstream_base_url: &str, audit_dir: &str) -> (out: Result<
        EnsureStep,
        MiddlewareError,
    >)
        ensures
            match self.base_of(model_key@) {
                Some(base) => out matches Ok(EnsureStep::Ready(url)) && url@ == base,
                None => if is_http(normal_base(upstream_base_url@)) {
                    out matches Ok(EnsureStep::Start(plan)) && plan.upstream_base@ == normal_base(
                        upstream_base_url@,
                    ) && plan.audit_path@ == paths::joined_path(
                        audit_dir@,
                        model_key@ + ".jsonl"@,
                    )
                } else {
                    out matches Err(MiddlewareError::InvalidUpstream(given)) && given@
                        == upstream_base_url@
                },
            },
    {
        let place = self.find(model_key);
        if place < self.listeners.len() {
            return Ok(EnsureStep::Ready(self.listeners[place].base_url.clone()));
        }
        let name = text::cat2(model_key, ".jsonl");
        let audit_path = paths::join_path(audit_dir, name.as_str());
        match normalize_base(upstream_base_url) {
            Ok(upstream_base) => Ok(EnsureStep::Start(ListenerPlan { upstream_base, audit_path })),
            Err(error) => Err(error),
        }
    }

    /// Records that a listener was started on a local port, and says which one
    /// serves its model. Where another was first, that one does, and the new
    /// one is to be dropped.
    pub fn started(&mut self, model_key: String, port: u16, audit_path: String) -> (base_url: String)
        ensures
            final(self).base_of(model_key@) == Some(base_url@),
            match old(self).base_of(model_key@) {
                Some(base) => base_url@ == base && final(self).running() == old(self).running(),
                None => {
                    &&& base_url@ == local_base(port)
                    &&& final(self).running().len() == old(self).running().len() + 1
                    &&& final(self).running().drop_last() == old(self).running()
                    &&& final(self).running().last().model_key == model_key
                    &&& final(self).running().last().base_url == base_url
                    &&& final(self).running().last().audit_path == audit_path
                },
            },
            old(self).wf() ==> final(self).wf(),
    {
        let place = self.find(model_key.as_str());
        if place < self.listeners.len() {
            return self.listeners[place].base_url.clone();
        }
        let ghost before = self.listeners@;
        let base_url = text::cat3(
            "http://127.0.0.1:",
            text::decimal_text(port as u128).as_str(),
            "/v1",
        );
        let handle = MiddlewareHandle { model_key, base_url: base_url.clone(), audit_path };
        self.listeners.push(handle);
        assert(self.listeners@.drop_last() =~= before);
        proof {
            lemma_listener_place_of_push(before, handle);
        }
        base_url
    }
}

proof fn lemma_listener_place_of_push(list: Seq<MiddlewareHandle>, handle: MiddlewareHandle)
    requires
        listener_place(list, handle.model_key@) == list.len(),
    ensures
        listener_place(list.push(handle), handle.model_key@) == list.len(),
        forall|i: int| 0 <= i < list.len() ==> (#[trigger] list[i]).model_key@ != handle.model_key@,
    decreases list.len(),
{
    if list.len() > 0 {
        lemma_listener_place_of_push(list.drop_first(), handle);
        assert(list.push(handle).drop_first() =~= list.drop_first().push(handle));
        assert forall|i: int| 0 <= i < list.len() implies (#[trigger] list[i]).model_key@
            != handle.model_key@ by {
            if i > 0 {
                assert(list.drop_first()[i - 1] == list[i]);
            }
        }
    }
}

/// Law: a listener that is started for one model leaves the listeners of all
/// other models as they were.
pub proof fn law_listeners_are_per_model(
    before: MiddlewareHub,
    after: MiddlewareHub,
    other: Seq<char>,
)
    requires
        after.running().len() == before.running().len() + 1,
        after.running().drop_last() == before.running(),
        after.running().last().model_key@ != other,
    ensures
        after.base_of(other) == before.base_of(other),
{
    let handle = after.running().last();
    assert(before.running().push(handle) =~= after.running());
    lemma_listener_place_of_other(before.running(), handle, other);
}

proof fn lemma_listener_place_of_other(
    list: Seq<MiddlewareHandle>,
    handle: MiddlewareHandle,
    other: Seq<char>,
)
    requires
        handle.model_key@ != other,
    ensures
        listener_place(list, other) <= list.len(),
        listener_place(list.push(handle), other) == if listener_place(list, other) < list.len() {
            listener_place(list, other)
        } else {
            list.len() + 1
        },
    decreases list.len(),
{
    if list.len() > 0 {
        lemma_listener_place_of_other(list.drop_first(), handle, other);
        assert(list.push(handle).drop_first() =~= list.drop_first().push(handle));
    } else {
        assert(list.push(handle).drop_first() =~= Seq::<MiddlewareHandle>::empty());
        assert(listener_place(list.push(handle).drop_first(), other) == 0);
    }
}

/// Law: no header of a single connection is ever passed on, and every other
/// header is.
pub proof fn law_only_hop_headers_are_dropped(headers: Seq<Header>, header: Header)
    ensures
        passed_on(headers).contains(header) <==> headers.contains(header) && !is_hop(header.name@),
{
    let keep = |header: Header| !is_hop(header.name@);
    let kept = headers.filter(keep);
    if kept.contains(header) {
        headers.lemma_filter_contains_rev(keep, header);
        let at = choose|i: int| 0 <= i < kept.len() && kept[i] == header;
        headers.lemma_filter_pred(keep, at);
    }
    if headers.contains(header) && !is_hop(header.name@) {
        let at = choose|i: int| 0 <= i < headers.len() && headers[i] == header;
        assert(keep(headers[at]));
        headers.lemma_filter_contains(keep, at);
    }
}

/// Law: the temperature of the model wins. Two requests that differ in nothing
/// but the temperature that they carry go upstream with the same body.
pub proof fn law_model_temperature_wins(a: Seq<u8>, b: Seq<u8>, inject: InjectParams)
    requires
        parsed_object(a) is Some,
        parsed_object(b) is Some,
        inject.temperature is Some,
        number_json(inject.temperature->Some_0@) is Some,
        parsed_object(a)->Some_0.remove("temperature"@) == parsed_object(b)->Some_0.remove(
            "temperature"@,
        ),
    ensures
        injected_body(a, inject) is Some,
        injected_body(b, inject) is Some,
        injected_body(a, inject)->Some_0.body == injected_body(b, inject)->Some_0.body,
{
    let left = parsed_object(a)->Some_0;
    let right = parsed_object(b)->Some_0;
    let key = "temperature"@;
    let number = number_json(inject.temperature->Some_0@)->Some_0;
    assert(left.insert(key, number) =~= left.remove(key).insert(key, number));
    assert(right.insert(key, number) =~= right.remove(key).insert(key, number));
}

/// Law: a request that is not posted to a generating endpoint, or whose body is
/// no JSON object, goes upstream with the body it came with.
pub proof fn law_other_requests_pass_untouched(
    inject: InjectParams,
    method: Seq<char>,
    path: Seq<char>,
    body: Seq<u8>,
)
    requires
        method != "POST"@ || !is_generating(path) || parsed_object(body) is None
            || inject.temperature is None,
    ensures
        forwarded_body(inject, method, path, body) is None,
{
}

} // verus!
