//! Deciding whether a chained request is sent again or its last response is
//! used.

use vstd::prelude::*;
use crate::collection::TriggerPolicy;

verus! {

/// What to do for a chained request.
#[derive(Clone, Copy, Debug, PartialEq, Eq)]
pub enum Decision {
    /// Use the response on record.
    Reuse,
    /// Send the request and record the response.
    Execute,
}

/// Why a trigger policy allows neither reuse nor a fresh request.
#[derive(Clone, Copy, Debug, PartialEq, Eq)]
pub enum TriggerError {
    /// The policy forbids sending and nothing is on record.
    NoHistory,
}

/// Whether the policy looks at history at all.
pub open spec fn consults_history(policy: TriggerPolicy) -> bool {
    !(policy is Always)
}

/// The decision for a policy, given the start time of the latest response
/// on record (if any) and the current time, both in milliseconds. A response
/// is fresh under `Expire(d)` while less than `d` seconds have passed since
/// it was started.
pub open spec fn decide(policy: TriggerPolicy, latest_start: Option<i64>, now: i64) -> Result<
    Decision,
    TriggerError,
> {
    match policy {
        TriggerPolicy::Always => Ok(Decision::Execute),
        TriggerPolicy::Never => match latest_start {
            Some(_) => Ok(Decision::Reuse),
            None => Err(TriggerError::NoHistory),
        },
        TriggerPolicy::NoHistory => match latest_start {
            Some(_) => Ok(Decision::Reuse),
            None => Ok(Decision::Execute),
        },
        TriggerPolicy::Expire(seconds) => match latest_start {
            Some(start) => if now - start < seconds * 1000 {
                Ok(Decision::Reuse)
            } else {
                Ok(Decision::Execute)
            },
            None => Ok(Decision::Execute),
        },
    }
}

/// Whether the policy looks at history at all.
pub fn needs_history(policy: TriggerPolicy) -> (r: bool)
    ensures
        r == consults_history(policy),
{
    match policy {
        TriggerPolicy::Always => false,
        _ => true,
    }
}

/// Decides between reuse and a fresh request.
pub fn evaluate(policy: TriggerPolicy, latest_start: Option<i64>, now: i64) -> (r: Result<
    Decision,
    TriggerError,
>)
    ensures
        r == decide(policy, latest_start, now),
{
    match policy {
        TriggerPolicy::Always => Ok(Decision::Execute),
        TriggerPolicy::Never => match latest_start {
            Some(_) => Ok(Decision::Reuse),
            None => Err(TriggerError::NoHistory),
        },
        TriggerPolicy::NoHistory => match latest_start {
            Some(_) => Ok(Decision::Reuse),
            None => Ok(Decision::Execute),
        },
        TriggerPolicy::Expire(seconds) => match latest_start {
            Some(start) => {
                let age: i128 = now as i128 - start as i128;
                let limit: i128 = seconds as i128 * 1000;
                if age < limit {
                    Ok(Decision::Reuse)
                } else {
                    Ok(Decision::Execute)
                }
            },
            None => Ok(Decision::Execute),
        },
    }
}

/// Without a response on record, `Never` fails and every other policy sends.
pub proof fn lemma_no_history(policy: TriggerPolicy, now: i64)
    ensures
        policy is Never ==> decide(policy, None, now) == Err::<Decision, TriggerError>(
            TriggerError::NoHistory,
        ),
        !(policy is Never) ==> decide(policy, None, now) == Ok::<Decision, TriggerError>(
            Decision::Execute,
        ),
{
}

/// Under `Expire(d)` a response on record is reused exactly while it is
/// younger than `d` seconds.
pub proof fn lemma_expire(seconds: u64, start: i64, now: i64)
    ensures
        decide(TriggerPolicy::Expire(seconds), Some(start), now) == Ok::<Decision, TriggerError>(
            Decision::Reuse,
        ) <==> now - start < seconds * 1000,
        decide(TriggerPolicy::Expire(seconds), Some(start), now) == Ok::<Decision, TriggerError>(
            Decision::Execute,
        ) <==> now - start >= seconds * 1000,
{
}

/// `Always` always sends, and `Never` never does.
pub proof fn lemma_always_never(latest_start: Option<i64>, now: i64)
    ensures
        decide(TriggerPolicy::Always, latest_start, now) == Ok::<Decision, TriggerError>(
            Decision::Execute,
        ),
        decide(TriggerPolicy::Never, latest_start, now) != Ok::<Decision, TriggerError>(
            Decision::Execute,
        ),
{
}

} // verus!
