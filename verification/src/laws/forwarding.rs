//! What the provider middleware does to requests on their way to a model.

use crate::middleware;
use crate::middleware::{
    AuditRecord, EnsureStep, ForwardPlan, Header, InjectedBody, MiddlewareError, MiddlewareHub,
    Obstacle, ProxyState, Refusal, UpstreamOutcome,
};
use crate::models::InjectParams;
use crate::paths;
use crate::text;
use vstd::prelude::*;

verus! {

/// Whether a header belongs to one connection only, in any case of letters.
pub open spec fn is_of_one_connection(name: Seq<char>) -> bool {
    ||| text::same_ignoring_ascii_case(name, "connection"@)
    ||| text::same_ignoring_ascii_case(name, "keep-alive"@)
    ||| text::same_ignoring_ascii_case(name, "proxy-authenticate"@)
    ||| text::same_ignoring_ascii_case(name, "proxy-authorization"@)
    ||| text::same_ignoring_ascii_case(name, "te"@)
    ||| text::same_ignoring_ascii_case(name, "trailer"@)
    ||| text::same_ignoring_ascii_case(name, "transfer-encoding"@)
    ||| text::same_ignoring_ascii_case(name, "upgrade"@)
    ||| text::same_ignoring_ascii_case(name, "content-length"@)
    ||| text::same_ignoring_ascii_case(name, "host"@)
}

/// Law: the headers of one connection are known by their names, and no other is.
pub proof fn law_connection_headers_are_known(name: &str, yes: bool)
    requires
        call_ensures(middleware::is_hop_header, (name,), yes),
    ensures
        yes <==> is_of_one_connection(name@),
{
}

/// Law: headers that are passed on are passed on unchanged and in order, and none
/// of one connection is among them: a list without such headers stays as it is, a
/// list of nothing else goes, and two lists in a row are passed on in a row.
pub proof fn law_headers_are_passed_on_in_order(
    a: Vec<Header>,
    b: Vec<Header>,
    both: Vec<Header>,
    of_a: Vec<Header>,
    of_b: Vec<Header>,
    of_both: Vec<Header>,
)
    requires
        both@ == a@ + b@,
        call_ensures(middleware::end_to_end_headers, (a,), of_a),
        call_ensures(middleware::end_to_end_headers, (b,), of_b),
        call_ensures(middleware::end_to_end_headers, (both,), of_both),
    ensures
        of_both@ == of_a@ + of_b@,
        (forall|i: int| 0 <= i < a@.len() ==> !is_of_one_connection((#[trigger] a@[i]).name@))
            ==> of_a@ == a@,
        (forall|i: int| 0 <= i < a@.len() ==> is_of_one_connection((#[trigger] a@[i]).name@))
            ==> of_a@.len() == 0,
{
    let keep = |header: Header| !middleware::is_hop(header.name@);
    lemma_filter_of_both(a@, b@, keep);
    lemma_filter_all(a@, keep);
    assert(forall|name: Seq<char>| middleware::is_hop(name) == is_of_one_connection(name));
}

proof fn lemma_filter_of_both(a: Seq<Header>, b: Seq<Header>, keep: spec_fn(Header) -> bool)
    ensures
        (a + b).filter(keep) == a.filter(keep) + b.filter(keep),
    decreases b.len(),
{
    reveal(Seq::filter);
    if b.len() == 0 {
        assert(a + b =~= a);
        assert(a.filter(keep) + b.filter(keep) =~= a.filter(keep));
    } else {
        lemma_filter_of_both(a, b.drop_last(), keep);
        assert((a + b).drop_last() =~= a + b.drop_last());
        assert((a + b).last() == b.last());
        assert((a + b).filter(keep) =~= a.filter(keep) + b.filter(keep));
    }
}

proof fn lemma_filter_all(a: Seq<Header>, keep: spec_fn(Header) -> bool)
    ensures
        (forall|i: int| 0 <= i < a.len() ==> keep(#[trigger] a[i])) ==> a.filter(keep) == a,
        (forall|i: int| 0 <= i < a.len() ==> !keep(#[trigger] a[i])) ==> a.filter(keep).len() == 0,
    decreases a.len(),
{
    reveal(Seq::filter);
    if a.len() > 0 {
        let init = a.drop_last();
        lemma_filter_all(init, keep);
        assert(forall|i: int| 0 <= i < init.len() ==> #[trigger] init[i] == a[i]);
        assert(a[a.len() - 1] == a.last());
        if forall|i: int| 0 <= i < a.len() ==> keep(#[trigger] a[i]) {
            assert forall|i: int| 0 <= i < init.len() implies keep(#[trigger] init[i]) by {
                assert(keep(a[i]));
            }
            assert(init.push(a.last()) =~= a);
        }
        if forall|i: int| 0 <= i < a.len() ==> !keep(#[trigger] a[i]) {
            assert forall|i: int| 0 <= i < init.len() implies !keep(#[trigger] init[i]) by {
                assert(!keep(a[i]));
            }
        }
    } else {
        assert(a.filter(keep) =~= a);
    }
}

/// Whether a path, without its query, is one of the endpoints that generate.
pub open spec fn generates(path: Seq<char>) -> bool {
    ||| path == "/responses"@
    ||| path == "/chat/completions"@
    ||| path == "/completions"@
    ||| path == "/v1"@ + "/responses"@
    ||| path == "/v1"@ + "/chat/completions"@
    ||| path == "/v1"@ + "/completions"@
}

proof fn lemma_endpoint(path: Seq<char>)
    ensures
        ({
            let rest = text::without_prefix(path, "/v1"@);
            generates(path) == (rest == "/responses"@ || rest == "/chat/completions"@ || rest
                == "/completions"@)
        }),
{
    reveal_strlit("/v1");
    reveal_strlit("/responses");
    reveal_strlit("/chat/completions");
    reveal_strlit("/completions");
    let front = "/v1"@;
    if text::has_prefix(path, front) {
        let rest = path.skip(3);
        assert(path =~= front + rest);
        assert(path[1] == 'v');
        assert("/responses"@[1] == 'r');
        assert("/chat/completions"@[1] == 'c');
        assert("/completions"@[1] == 'c');
        paths::lemma_equal_fronts(front, rest, "/responses"@);
        paths::lemma_equal_fronts(front, rest, "/chat/completions"@);
        paths::lemma_equal_fronts(front, rest, "/completions"@);
    } else {
        assert((front + "/responses"@).subrange(0, 3) =~= front);
        assert((front + "/chat/completions"@).subrange(0, 3) =~= front);
        assert((front + "/completions"@).subrange(0, 3) =~= front);
    }
}

proof fn lemma_path_and_query(path: Seq<char>, query: Seq<char>)
    requires
        !path.contains('?'),
    ensures
        middleware::path_of(path) == path,
        middleware::path_of(path + seq!['?'] + query) == path,
    decreases query.len(),
{
    text::lemma_pieces_grow(Seq::empty(), path, '?');
    assert(Seq::<char>::empty() + path =~= path);
    assert(text::pieces(Seq::<char>::empty(), '?') =~= seq![Seq::<char>::empty()]);
    assert(text::pieces(path, '?') =~= seq![path]);
    let whole = path + seq!['?'] + query;
    if query.len() == 0 {
        assert(whole.drop_last() =~= path);
        assert(whole.last() == '?');
    } else {
        lemma_path_and_query(path, query.drop_last());
        let shorter = path + seq!['?'] + query.drop_last();
        assert(whole.drop_last() =~= shorter);
        text::lemma_pieces_nonempty(shorter, '?');
        lemma_two_pieces(path, query.drop_last());
        assert(text::pieces(whole, '?').first() == text::pieces(shorter, '?').first());
    }
}

proof fn lemma_two_pieces(path: Seq<char>, query: Seq<char>)
    ensures
        text::pieces(path + seq!['?'] + query, '?').len() >= 2,
    decreases query.len(),
{
    let whole = path + seq!['?'] + query;
    text::lemma_pieces_nonempty(path, '?');
    if query.len() == 0 {
        assert(whole.drop_last() =~= path);
    } else {
        assert(whole.drop_last() =~= path + seq!['?'] + query.drop_last());
        lemma_two_pieces(path, query.drop_last());
    }
}

/// Law: requests to an endpoint that generates get parameters, with and without
/// `/v1` before it and whatever its query; requests to any other path do not.
pub proof fn law_generating_endpoints_are_known(
    given: &str,
    path: Seq<char>,
    query: Seq<char>,
    yes: bool,
)
    requires
        call_ensures(middleware::is_inject_path, (given,), yes),
        !path.contains('?'),
        given@ == path || given@ == path + seq!['?'] + query,
    ensures
        yes <==> generates(path),
{
    lemma_path_and_query(path, query);
    lemma_endpoint(path);
}

/// Law: a request goes to its upstream with what stands behind `/v1` in its path,
/// and whole where that does not stand there.
pub proof fn law_requests_go_below_their_upstream(
    base: &str,
    given: &str,
    rest: Seq<char>,
    out: String,
)
    requires
        call_ensures(middleware::target_url, (base, given), out),
    ensures
        given@ == "/v1"@ + rest ==> out@ == base@ + rest,
        !text::has_prefix(given@, "/v1"@) ==> out@ == base@ + given@,
{
    let front = "/v1"@;
    if given@ == front + rest {
        assert(given@.subrange(0, front.len() as int) =~= front);
        assert(given@.skip(front.len() as int) =~= rest);
    }
}

/// Law: an upstream is served where it speaks HTTP; its slashes at the end do not
/// matter, and anything else is refused as it was given.
pub proof fn law_upstreams_are_normalised(
    raw: &str,
    base: Seq<char>,
    slashes: Seq<char>,
    out: Result<String, MiddlewareError>,
)
    requires
        call_ensures(middleware::normalize_base, (raw,), out),
        raw@ == base + slashes,
        base.len() > 0,
        base.last() != '/',
        forall|i: int| 0 <= i < slashes.len() ==> #[trigger] slashes[i] == '/',
    ensures
        out is Ok <==> text::has_prefix(base, "http://"@) || text::has_prefix(base, "https://"@),
        out is Ok ==> out->Ok_0@ == base,
        out is Err ==> out->Err_0 is InvalidUpstream && out->Err_0->InvalidUpstream_0@ == raw@,
{
    lemma_slashes(base, slashes);
}

proof fn lemma_slashes(base: Seq<char>, slashes: Seq<char>)
    requires
        base.len() > 0,
        base.last() != '/',
        forall|i: int| 0 <= i < slashes.len() ==> #[trigger] slashes[i] == '/',
    ensures
        middleware::normal_base(base + slashes) == base,
    decreases slashes.len(),
{
    if slashes.len() == 0 {
        assert(base + slashes =~= base);
    } else {
        let shorter = slashes.drop_last();
        assert forall|i: int| 0 <= i < shorter.len() implies #[trigger] shorter[i] == '/' by {
            assert(slashes[i] == '/');
        }
        assert((base + slashes).drop_last() =~= base + shorter);
        assert(slashes[slashes.len() - 1] == '/');
        lemma_slashes(base, shorter);
    }
}

/// Law: what is posted to an endpoint that generates, is a JSON object and goes to
/// a model with a temperature that JSON can write, gets that temperature: the
/// body that goes upstream is the object with it in place of any other, and the
/// audit knows what was there. Every other request goes upstream as it came.
pub proof fn law_requests_get_the_temperature_of_their_model(
    state: ProxyState,
    method: &str,
    path_and_query: Option<String>,
    headers: Vec<Header>,
    body: Vec<u8>,
    plan: ForwardPlan,
    path: Seq<char>,
    query: Seq<char>,
    kept: Vec<Header>,
)
    requires
        call_ensures(
            middleware::plan_forward,
            (&state, method, path_and_query, headers, body),
            plan,
        ),
        call_ensures(middleware::end_to_end_headers, (headers,), kept),
        !path.contains('?'),
        path_and_query matches Some(given) ==> given@ == path || given@ == path + seq!['?'] + query,
        path_and_query is None ==> path == "/"@,
    ensures
        ({
            let posted = method@ == "POST"@ && generates(path);
            let object = middleware::parsed_object(body@);
            let number = match state.inject.temperature {
                Some(temperature) => middleware::number_json(temperature@),
                None => None,
            };
            &&& plan.injected <==> posted && object is Some && number is Some
            &&& plan.injected ==> {
                &&& plan.body@ == middleware::encoded_object(
                    object->Some_0.insert("temperature"@, number->Some_0),
                )
                &&& plan.temperature_had is Some ==> object->Some_0.contains_key("temperature"@)
                &&& object->Some_0.contains_key("temperature"@) ==> text::opt_text(
                    plan.temperature_had,
                ) == middleware::float_text(object->Some_0["temperature"@])
            }
            &&& !plan.injected ==> plan.body@ == body@ && plan.temperature_had is None
        }),
        path_and_query matches Some(given) ==> plan.path@ == given@,
        path_and_query is None ==> plan.path@ == "/"@,
        plan.headers@ == kept@,
        !text::has_prefix(plan.path@, "/v1"@) ==> plan.target@ == state.upstream_base@ + plan.path@,
        text::has_prefix(plan.path@, "/v1"@) ==> plan.target@ == state.upstream_base@
            + plan.path@.skip("/v1"@.len() as int),
{
    lemma_path_and_query(path, query);
    lemma_endpoint(path);
}

/// Law: a body alone is treated the same: it is changed exactly where it is an
/// object and there is a temperature to put into it.
pub proof fn law_bodies_get_the_temperature(
    body: &[u8],
    inject: InjectParams,
    out: Option<InjectedBody>,
)
    requires
        call_ensures(middleware::apply_inject, (body, &inject), out),
    ensures
        out is Some <==> inject.temperature is Some && middleware::parsed_object(body@) is Some
            && middleware::number_json(inject.temperature->Some_0@) is Some,
        out is Some ==> out->Some_0.body@ == middleware::encoded_object(
            middleware::parsed_object(body@)->Some_0.insert(
                "temperature"@,
                middleware::number_json(inject.temperature->Some_0@)->Some_0,
            ),
        ),
{
}

/// Law: the audit line of a request says what happened to it: which model and
/// upstream, what was sent and for how long, what was put into it and what had
/// been there, and how it ended. An upstream that does not answer is a bad
/// gateway, with the reason.
pub proof fn law_audit_lines_are_true(
    state: ProxyState,
    plan: ForwardPlan,
    method: &str,
    outcome: UpstreamOutcome,
    ts: String,
    duration_ms: u128,
    record: AuditRecord,
)
    requires
        call_ensures(
            middleware::audit_of,
            (&state, &plan, method, outcome, ts, duration_ms),
            record,
        ),
    ensures
        record.ts == ts,
        record.model_key == state.model_key,
        record.upstream == state.upstream_base,
        record.method@ == method@,
        record.path == plan.path,
        record.duration_ms == duration_ms,
        record.body_bytes == plan.body@.len(),
        record.injected == plan.injected,
        record.temperature_had == plan.temperature_had,
        plan.injected ==> record.temperature_set == state.inject.temperature,
        !plan.injected ==> record.temperature_set is None,
        outcome matches UpstreamOutcome::Answered { status } ==> record.status == status
            && record.upstream_error is None,
        outcome matches UpstreamOutcome::Failed { error } ==> record.status == 502
            && record.upstream_error == Some(error),
{
}

/// Law: where the middleware answers by itself, its status tells whose fault it
/// is, and its body says why.
pub proof fn law_refusals_say_why(obstacle: Obstacle, out: Refusal)
    requires
        call_ensures(middleware::refusal_of, (obstacle,), out),
    ensures
        obstacle matches Obstacle::UnreadableBody { error } ==> out.status == 413 && out.body@
            == "read request body: "@ + error@,
        obstacle matches Obstacle::DeadUpstream { error } ==> out.status == 502 && out.body@
            == "upstream error: "@ + error@,
        obstacle matches Obstacle::UnusableAnswer { error } ==> out.status == 500 && out.body@
            == "assemble response: "@ + error@,
{
}

/// Law: the limits of the middleware are as promised: five seconds to connect,
/// and bodies of up to thirty-two mebibytes.
pub proof fn law_middleware_limits_are_as_promised()
    ensures
        middleware::UPSTREAM_CONNECT_TIMEOUT_SECS == 5,
        middleware::MAX_BODY_BYTES == 32 * 1024 * 1024,
        crate::service::preflight::PREFLIGHT_TIMEOUT_SECS == 3,
{
}

/// Law: a model gets one listener. The first that is started for it serves it on
/// its local port from then on, under one address that everybody is given; a
/// second one for the same model is not used, and other models are not affected.
pub proof fn law_models_share_one_listener(
    hub: &mut MiddlewareHub,
    model_key: String,
    port: u16,
    audit_path: String,
    base_url: String,
    before: MiddlewareHub,
    after: MiddlewareHub,
    key: &str,
    upstream: &str,
    audit_dir: &str,
    then: Result<EnsureStep, MiddlewareError>,
    now: Result<EnsureStep, MiddlewareError>,
)
    requires
        call_ensures(MiddlewareHub::started, (hub, model_key, port, audit_path), base_url),
        before.running() == old(hub).running(),
        after.running() == final(hub).running(),
        call_ensures(MiddlewareHub::ensure, (&before, key, upstream, audit_dir), then),
        call_ensures(MiddlewareHub::ensure, (&after, key, upstream, audit_dir), now),
    ensures
        key@ == model_key@ ==> now is Ok && now->Ok_0 is Ready && now->Ok_0->Ready_0@ == base_url@,
        key@ == model_key@ && then is Ok && then->Ok_0 is Ready ==> then->Ok_0->Ready_0@
            == base_url@,
        key@ == model_key@ && !(then is Ok && then->Ok_0 is Ready) ==> base_url@
            == "http://127.0.0.1:"@ + text::decimal(port as nat) + "/v1"@,
        key@ != model_key@ ==> (now is Ok && now->Ok_0 is Ready <==> then is Ok && then->Ok_0
            is Ready),
        key@ != model_key@ && now is Ok && now->Ok_0 is Ready ==> now->Ok_0->Ready_0@
            == then->Ok_0->Ready_0@,
        now is Ok && now->Ok_0 is Start ==> text::has_suffix(
            now->Ok_0->Start_0.audit_path@,
            key@ + ".jsonl"@,
        ),
{
    if key@ != model_key@ && old(hub).base_of(model_key@) is None {
        middleware::law_listeners_are_per_model(before, after, key@);
    }
    if now is Ok && now->Ok_0 is Start {
        let path = now->Ok_0->Start_0.audit_path@;
        let name = key@ + ".jsonl"@;
        assert(path.subrange(path.len() - name.len(), path.len() as int) =~= name);
    }
}

/// Law: a model without a listener gets one to its upstream, if that speaks HTTP.
pub proof fn law_listeners_are_started_for_http(
    hub: MiddlewareHub,
    key: &str,
    upstream: &str,
    audit_dir: &str,
    out: Result<EnsureStep, MiddlewareError>,
    base: Result<String, MiddlewareError>,
)
    requires
        call_ensures(MiddlewareHub::ensure, (&hub, key, upstream, audit_dir), out),
        call_ensures(middleware::normalize_base, (upstream,), base),
        forall|i: int| 0 <= i < hub.running().len() ==> (#[trigger] hub.running()[i]).model_key@
            != key@,
    ensures
        out is Ok <==> base is Ok,
        out is Ok ==> out->Ok_0 is Start && out->Ok_0->Start_0.upstream_base@ == base->Ok_0@,
        out is Err ==> out->Err_0 is InvalidUpstream && out->Err_0->InvalidUpstream_0@ == upstream@,
{
    lemma_no_listener(hub.running(), key@);
}

proof fn lemma_no_listener(list: Seq<middleware::MiddlewareHandle>, key: Seq<char>)
    requires
        forall|i: int| 0 <= i < list.len() ==> (#[trigger] list[i]).model_key@ != key,
    ensures
        middleware::listener_place(list, key) == list.len(),
    decreases list.len(),
{
    if list.len() > 0 {
        let rest = list.drop_first();
        assert forall|i: int| 0 <= i < rest.len() implies (#[trigger] rest[i]).model_key@
            != key by {
            assert(rest[i] == list[i + 1]);
        }
        assert(list[0].model_key@ != key);
        lemma_no_listener(rest, key);
    }
}

/// Law: there are no listeners at first.
pub proof fn law_hubs_begin_empty(hub: MiddlewareHub)
    requires
        call_ensures(MiddlewareHub::new, (), hub),
    ensures
        hub.running().len() == 0,
{
}

} // verus!
