//! Whether a model can be reached before a task begins on it.

use super::{ServiceError, Supervisor};
use crate::models::RegistryError;
use crate::text;
use vstd::prelude::*;

verus! {

/// How many seconds a probe may take.
pub const PREFLIGHT_TIMEOUT_SECS: u64 = 3;

/// What came of a probe.
#[derive(Debug)]
pub enum ProbeOutcome {
    /// No request could be made.
    NoClient {
        /// Why.
        error: String,
    },
    /// The server answered.
    Answered {
        /// Whether with success.
        success: bool,
        /// With which status, in words.
        status: String,
    },
    /// It did not.
    Failed {
        /// Why.
        error: String,
        /// What was behind that.
        source: String,
        /// Whether it took too long.
        timed_out: bool,
    },
}

/// What to make of a probe that failed, given its reason, the reason and what
/// was behind it in lower case, and whether it took too long.
pub open spec fn probe_verdict(error: Seq<char>, lower: Seq<char>, timed_out: bool) -> Seq<char> {
    if text::occurs_in(lower, "refused"@) {
        "端口拒连——机器在但服务未起（deepseek 走代理时先跑 scripts/dspark_proxy.py）"@
    } else if timed_out || text::occurs_in(lower, "timed out"@) {
        "无响应（超时）——机器疑似关机或网络不可达；请人工分诊（ping 裸 IP 区分关机/停服）"@
    } else {
        "连接失败："@ + error
    }
}

/// What to make of a probe that failed.
pub fn verdict_on_probe(error: &str, lower: &str, timed_out: bool) -> (out: String)
    ensures
        out@ == probe_verdict(error@, lower@, timed_out),
{
    if text::contains(lower, "refused") {
        "端口拒连——机器在但服务未起（deepseek 走代理时先跑 scripts/dspark_proxy.py）".to_owned()
    } else if timed_out || text::contains(lower, "timed out") {
        "无响应（超时）——机器疑似关机或网络不可达；请人工分诊（ping 裸 IP 区分关机/停服）".to_owned()
    } else {
        text::cat2("连接失败：", error)
    }
}

/// What a failed probe is judged by.
pub open spec fn probe_chain(error: Seq<char>, source: Seq<char>) -> Seq<char> {
    error + " / "@ + source
}

/// Whether a probe lets a task begin: the server answered with success.
pub open spec fn is_passed(outcome: ProbeOutcome) -> bool {
    outcome matches ProbeOutcome::Answered { success, .. } && success
}

/// Whether `error` is why a probe that was not passed keeps a task from
/// beginning.
pub open spec fn is_probe_error(
    error: ServiceError,
    model_key: Seq<char>,
    url: Seq<char>,
    outcome: ProbeOutcome,
) -> bool {
    match outcome {
        ProbeOutcome::NoClient { error: why } => error matches ServiceError::Internal { message }
            && message@ == "build preflight client: "@ + why@,
        ProbeOutcome::Answered { status, .. } => error matches ServiceError::Preflight {
            model_key: key,
            url: place,
            verdict,
        } && key@ == model_key && place@ == url && verdict@ == "服务异常响应 HTTP "@ + status@
            + "——引擎在但状态不对，需人工查看"@,
        ProbeOutcome::Failed { error: why, source, timed_out } => error
            matches ServiceError::Preflight { model_key: key, url: place, verdict } && key@
            == model_key && place@ == url && verdict@ == probe_verdict(
            why@,
            text::lowercase_of(probe_chain(why@, source@)),
            timed_out,
        ),
    }
}

/// Decides on a probe. Only a server that answers with success lets a task
/// begin.
pub fn preflight(model_key: &str, url: &str, outcome: ProbeOutcome) -> (out: Result<(), ServiceError>)
    ensures
        out is Ok == is_passed(outcome),
        out is Err ==> is_probe_error(out->Err_0, model_key@, url@, outcome),
{
    match outcome {
        ProbeOutcome::NoClient { error } => Err(
            ServiceError::Internal {
                message: text::cat2("build preflight client: ", error.as_str()),
            },
        ),
        ProbeOutcome::Answered { success, status } => {
            if success {
                Ok(())
            } else {
                Err(
                    ServiceError::Preflight {
                        model_key: model_key.to_owned(),
                        url: url.to_owned(),
                        verdict: text::cat3(
                            "服务异常响应 HTTP ",
                            status.as_str(),
                            "——引擎在但状态不对，需人工查看",
                        ),
                    },
                )
            }
        },
        ProbeOutcome::Failed { error, source, timed_out } => {
            let chain = text::cat3(error.as_str(), " / ", source.as_str());
            let lower = text::to_lower(chain.as_str());
            Err(
                ServiceError::Preflight {
                    model_key: model_key.to_owned(),
                    url: url.to_owned(),
                    verdict: verdict_on_probe(error.as_str(), lower.as_str(), timed_out),
                },
            )
        },
    }
}

impl Supervisor {
    /// Where a model has to be probed before a task may begin on it, if
    /// anywhere.
    pub fn probe_target(&self, model_key: &str) -> (out: Result<Option<String>, ServiceError>)
        ensures
            match self.models().entry_of(model_key@) {
                Some(entry) => out == Ok::<Option<String>, ServiceError>(entry.endpoint_probe),
                None => out matches Err(
                    ServiceError::Registry(RegistryError::UnknownModel { key }),
                ) && key@ == model_key@,
            },
    {
        match self.registry.resolve(model_key) {
            Ok(entry) => Ok(text::clone_opt(&entry.endpoint_probe)),
            Err(error) => Err(ServiceError::Registry(error)),
        }
    }
}

} // verus!
