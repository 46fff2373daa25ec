//! Idunn's keepalive planner: what to do about one daemon given its desired
//! record and latest health.
use vstd::prelude::*;
use crate::documents::{
    IdunnDaemonHealthRecord, IdunnDeploymentRequestRecord, IdunnDesiredDaemonRecord,
    IdunnKeepaliveDecisionRecord, IdunnOperatorAlarmRecord, IdunnRestartRequestRecord,
};
use crate::text::trim_bounds;
use crate::text::{chars_of, join3, join4, str_eq, trim};

verus! {

#[derive(Clone, Debug, PartialEq, Eq)]
pub struct IdunnPlan {
    pub decision: IdunnKeepaliveDecisionRecord,
    pub deployment_request: Option<IdunnDeploymentRequestRecord>,
    pub restart_request: Option<IdunnRestartRequestRecord>,
    pub operator_alarm: Option<IdunnOperatorAlarmRecord>,
}

/// The health states that need no action.
pub open spec fn is_healthy_state(s: Seq<char>) -> bool {
    s == "active"@ || s == "healthy"@ || s == "ok"@ || s == "running"@
}

/// The health states whose cause lies outside the daemon itself.
pub open spec fn is_external_failure(s: Seq<char>) -> bool {
    s == "degraded"@ || s == "dependency-unavailable"@
}

/// A configured command counts when it is more than whitespace.
pub open spec fn usable_command(c: Option<String>) -> Option<Seq<char>> {
    match c {
        Some(s) => if trim(s@).len() > 0 {
            Some(s@)
        } else {
            None
        },
        None => None,
    }
}

/// The keepalive choice, in the order the planner weighs the facts.
pub enum KeepaliveChoice {
    Noop,
    Observe,
    ExternalAlarm,
    Deploy(Seq<char>),
    StaleAlarm,
    Restart(Seq<char>),
    NoAuthorityAlarm,
}

pub open spec fn keepalive_choice(d: IdunnDesiredDaemonRecord, h: IdunnDaemonHealthRecord) -> KeepaliveChoice {
    if !d.enabled {
        KeepaliveChoice::Noop
    } else if is_healthy_state(h.state@) {
        KeepaliveChoice::Observe
    } else if is_external_failure(h.state@) {
        KeepaliveChoice::ExternalAlarm
    } else if usable_command(d.deploy_command) is Some && h.state@ == "stale-deployment"@ {
        KeepaliveChoice::Deploy(usable_command(d.deploy_command)->Some_0)
    } else if h.state@ == "stale-deployment"@ {
        KeepaliveChoice::StaleAlarm
    } else if usable_command(d.restart_command) is Some {
        KeepaliveChoice::Restart(usable_command(d.restart_command)->Some_0)
    } else {
        KeepaliveChoice::NoAuthorityAlarm
    }
}

/// `prefix:daemon_id:now`.
pub open spec fn tagged_id(prefix: Seq<char>, d: IdunnDesiredDaemonRecord, now: Seq<char>) -> Seq<char> {
    prefix + d.daemon_id@ + ":"@ + now
}

/// The action word and reason the decision record carries.
pub open spec fn decision_text(c: KeepaliveChoice, d: IdunnDesiredDaemonRecord, h: IdunnDaemonHealthRecord) -> (
    Seq<char>,
    Seq<char>,
) {
    match c {
        KeepaliveChoice::Noop => ("noop"@, "daemon is disabled"@),
        KeepaliveChoice::Observe => ("observe"@, "daemon is healthy"@),
        KeepaliveChoice::ExternalAlarm => (
            "alarm"@,
            "health is "@ + h.state@ + "; local restart/deploy is not the owner of this failure: "@
                + h.detail@,
        ),
        KeepaliveChoice::Deploy(_) => (
            "deploy"@,
            "health is "@ + h.state@ + "; deployment authority is available"@,
        ),
        KeepaliveChoice::StaleAlarm => (
            "alarm"@,
            "health is stale-deployment under "@ + d.health_contract@
                + "; no deploy command authority is available"@,
        ),
        KeepaliveChoice::Restart(_) => (
            "restart"@,
            "health is "@ + h.state@ + "; restart authority is available"@,
        ),
        KeepaliveChoice::NoAuthorityAlarm => (
            "alarm"@,
            "health is "@ + h.state@ + "; no restart command authority is available"@,
        ),
    }
}

pub open spec fn is_alarm(c: KeepaliveChoice) -> bool {
    c is ExternalAlarm || c is StaleAlarm || c is NoAuthorityAlarm
}

/// The plan matches the keepalive choice for the daemon at time `now`.
pub open spec fn plan_matches(
    p: IdunnPlan,
    d: IdunnDesiredDaemonRecord,
    h: IdunnDaemonHealthRecord,
    now: Seq<char>,
) -> bool {
    let c = keepalive_choice(d, h);
    let (action, reason) = decision_text(c, d, h);
    &&& p.decision.decision_id@ == d.daemon_id@ + ":"@ + now
    &&& p.decision.daemon_id@ == d.daemon_id@
    &&& p.decision.action@ == action
    &&& p.decision.reason@ == reason
    &&& p.decision.authority@ == d.authority@
    &&& p.decision.decided_at@ == now
    &&& match c {
        KeepaliveChoice::Deploy(cmd) => p.deployment_request matches Some(r) && {
            &&& r.request_id@ == tagged_id("deploy:"@, d, now)
            &&& r.daemon_id@ == d.daemon_id@
            &&& r.command@ == cmd
            &&& r.authority@ == d.authority@
            &&& r.requested_at@ == now
            &&& r.repository_full_name@.len() == 0
            &&& r.upstream_ref@.len() == 0
            &&& r.source_revision@.len() == 0
            &&& r.release_authority_id@.len() == 0
            &&& r.release_authority_envelope_sha256@.len() == 0
            &&& !r.requires_bifrost_authority
        },
        _ => p.deployment_request is None,
    }
    &&& match c {
        KeepaliveChoice::Restart(cmd) => p.restart_request matches Some(r) && {
            &&& r.request_id@ == tagged_id("restart:"@, d, now)
            &&& r.daemon_id@ == d.daemon_id@
            &&& r.command@ == cmd
            &&& r.authority@ == d.authority@
            &&& r.requested_at@ == now
        },
        _ => p.restart_request is None,
    }
    &&& if is_alarm(c) {
        p.operator_alarm matches Some(a) && {
            &&& a.alarm_id@ == tagged_id("alarm:"@, d, now)
            &&& a.daemon_id@ == d.daemon_id@
            &&& a.severity@ == "operator-action-required"@
            &&& a.reason@ == reason
            &&& a.escalation_target@ == "bifrost.operator-notification"@
            &&& a.raised_at@ == now
        }
    } else {
        p.operator_alarm is None
    }
}

/// Whether a health state needs no action.
pub fn is_healthy(state: &str) -> (r: bool)
    ensures
        r == is_healthy_state(state@),
{
    str_eq(state, "active") || str_eq(state, "healthy") || str_eq(state, "ok") || str_eq(
        state,
        "running",
    )
}

fn usable(command: &Option<String>) -> (r: bool)
    ensures
        r == (usable_command(*command) is Some),
{
    match command {
        Some(c) => {
            let chars = chars_of(c.as_str());
            let (a, b) = trim_bounds(chars.as_slice());
            a < b
        },
        None => false,
    }
}

/// The decision record of a keepalive choice.
pub fn decision(
    decision_id: &str,
    desired: &IdunnDesiredDaemonRecord,
    action: &str,
    reason: &str,
    decided_at: &str,
) -> (r: IdunnKeepaliveDecisionRecord)
    ensures
        r.decision_id@ == decision_id@,
        r.daemon_id@ == desired.daemon_id@,
        r.action@ == action@,
        r.reason@ == reason@,
        r.authority@ == desired.authority@,
        r.decided_at@ == decided_at@,
{
    IdunnKeepaliveDecisionRecord {
        decision_id: decision_id.to_string(),
        daemon_id: desired.daemon_id.as_str().to_string(),
        action: action.to_string(),
        reason: reason.to_string(),
        authority: desired.authority.as_str().to_string(),
        decided_at: decided_at.to_string(),
    }
}

fn alarm(desired: &IdunnDesiredDaemonRecord, now: &str, reason: &str) -> (r: IdunnOperatorAlarmRecord)
    ensures
        r.alarm_id@ == tagged_id("alarm:"@, *desired, now@),
        r.daemon_id@ == desired.daemon_id@,
        r.severity@ == "operator-action-required"@,
        r.reason@ == reason@,
        r.escalation_target@ == "bifrost.operator-notification"@,
        r.raised_at@ == now@,
{
    let id = join4("alarm:", desired.daemon_id.as_str(), ":", now);
    IdunnOperatorAlarmRecord {
        alarm_id: id,
        daemon_id: desired.daemon_id.as_str().to_string(),
        severity: "operator-action-required".to_string(),
        reason: reason.to_string(),
        escalation_target: "bifrost.operator-notification".to_string(),
        raised_at: now.to_string(),
    }
}

/// Decides what Idunn does about one daemon: nothing when it is disabled,
/// observe it when healthy, alarm when the failure lies elsewhere, deploy a
/// stale deployment when a deploy command exists, else restart when a
/// restart command exists, else alarm.
pub fn plan_keepalive(desired: &IdunnDesiredDaemonRecord, health: &IdunnDaemonHealthRecord, now: &str) -> (r:
    IdunnPlan)
    ensures
        plan_matches(r, *desired, *health, now@),
{
    let decision_id = join3(desired.daemon_id.as_str(), ":", now);
    if !desired.enabled {
        return IdunnPlan {
            decision: decision(decision_id.as_str(), desired, "noop", "daemon is disabled", now),
            deployment_request: None,
            restart_request: None,
            operator_alarm: None,
        };
    }
    if is_healthy(health.state.as_str()) {
        return IdunnPlan {
            decision: decision(decision_id.as_str(), desired, "observe", "daemon is healthy", now),
            deployment_request: None,
            restart_request: None,
            operator_alarm: None,
        };
    }
    if str_eq(health.state.as_str(), "degraded") || str_eq(
        health.state.as_str(),
        "dependency-unavailable",
    ) {
        let reason = join4(
            "health is ",
            health.state.as_str(),
            "; local restart/deploy is not the owner of this failure: ",
            health.detail.as_str(),
        );
        return IdunnPlan {
            decision: decision(decision_id.as_str(), desired, "alarm", reason.as_str(), now),
            deployment_request: None,
            restart_request: None,
            operator_alarm: Some(alarm(desired, now, reason.as_str())),
        };
    }
    let stale = str_eq(health.state.as_str(), "stale-deployment");
    if usable(&desired.deploy_command) && stale {
        let command = match &desired.deploy_command {
            Some(c) => c.as_str().to_string(),
            None => String::new(),
        };
        let request_id = join4("deploy:", desired.daemon_id.as_str(), ":", now);
        let reason = join3("health is ", health.state.as_str(), "; deployment authority is available");
        return IdunnPlan {
            decision: decision(decision_id.as_str(), desired, "deploy", reason.as_str(), now),
            deployment_request: Some(
                IdunnDeploymentRequestRecord {
                    request_id,
                    daemon_id: desired.daemon_id.as_str().to_string(),
                    command,
                    authority: desired.authority.as_str().to_string(),
                    requested_at: now.to_string(),
                    repository_full_name: String::new(),
                    upstream_ref: String::new(),
                    source_revision: String::new(),
                    release_authority_id: String::new(),
                    release_authority_envelope_sha256: String::new(),
                    requires_bifrost_authority: false,
                },
            ),
            restart_request: None,
            operator_alarm: None,
        };
    }
    if stale {
        let reason = join3(
            "health is stale-deployment under ",
            desired.health_contract.as_str(),
            "; no deploy command authority is available",
        );
        return IdunnPlan {
            decision: decision(decision_id.as_str(), desired, "alarm", reason.as_str(), now),
            deployment_request: None,
            restart_request: None,
            operator_alarm: Some(alarm(desired, now, reason.as_str())),
        };
    }
    if usable(&desired.restart_command) {
        let command = match &desired.restart_command {
            Some(c) => c.as_str().to_string(),
            None => String::new(),
        };
        let request_id = join4("restart:", desired.daemon_id.as_str(), ":", now);
        let reason = join3("health is ", health.state.as_str(), "; restart authority is available");
        return IdunnPlan {
            decision: decision(decision_id.as_str(), desired, "restart", reason.as_str(), now),
            deployment_request: None,
            restart_request: Some(
                IdunnRestartRequestRecord {
                    request_id,
                    daemon_id: desired.daemon_id.as_str().to_string(),
                    command,
                    authority: desired.authority.as_str().to_string(),
                    requested_at: now.to_string(),
                },
            ),
            operator_alarm: None,
        };
    }
    let reason = join3("health is ", health.state.as_str(), "; no restart command authority is available");
    IdunnPlan {
        decision: decision(decision_id.as_str(), desired, "alarm", reason.as_str(), now),
        deployment_request: None,
        restart_request: None,
        operator_alarm: Some(alarm(desired, now, reason.as_str())),
    }
}


/// A keepalive plan asks for at most one thing: a deployment, a restart or
/// an operator alarm. A disabled or healthy daemon gets none of them, and a
/// failure that is not the daemon's own (an unavailable dependency) gets an
/// alarm and never a restart or redeployment.
pub proof fn law_keepalive_single_request(
    p: IdunnPlan,
    d: IdunnDesiredDaemonRecord,
    h: IdunnDaemonHealthRecord,
    now: Seq<char>,
)
    requires
        plan_matches(p, d, h, now),
    ensures
        (if p.deployment_request is Some {
            1int
        } else {
            0int
        }) + (if p.restart_request is Some {
            1int
        } else {
            0int
        }) + (if p.operator_alarm is Some {
            1int
        } else {
            0int
        }) <= 1,
        !d.enabled || is_healthy_state(h.state@) ==> p.deployment_request is None
            && p.restart_request is None && p.operator_alarm is None,
        d.enabled && !is_healthy_state(h.state@) && is_external_failure(h.state@)
            ==> p.operator_alarm is Some && p.deployment_request is None && p.restart_request is None,
{
}

/// A daemon that is degraded, or whose dependency is unavailable, is not
/// the owner of its failure: however it is configured, Idunn raises an
/// operator alarm for it, says why, and asks for no restart and no
/// redeployment.
pub proof fn law_external_failures_are_alarmed(
    p: IdunnPlan,
    d: IdunnDesiredDaemonRecord,
    h: IdunnDaemonHealthRecord,
    now: Seq<char>,
)
    requires
        plan_matches(p, d, h, now),
        d.enabled,
        h.state@ == "degraded"@ || h.state@ == "dependency-unavailable"@,
    ensures
        p.decision.action@ == "alarm"@,
        p.decision.reason@ == "health is "@ + h.state@ + "; local restart/deploy is not the owner of this failure: "@
            + h.detail@,
        p.operator_alarm is Some,
        p.restart_request is None,
        p.deployment_request is None,
{
    reveal_strlit("degraded");
    reveal_strlit("dependency-unavailable");
    reveal_strlit("active");
    reveal_strlit("healthy");
    reveal_strlit("ok");
    reveal_strlit("running");
    assert("degraded"@.len() == 8 && "dependency-unavailable"@.len() == 22);
    assert("active"@.len() == 6 && "healthy"@.len() == 7 && "ok"@.len() == 2 && "running"@.len() == 7);
    assert(!is_healthy_state(h.state@));
}


/// What Idunn does about an enabled daemon, by its health: a disabled
/// daemon is left alone; a healthy one (`active`, `healthy`, `ok`,
/// `running`) is only observed; a stale deployment with a deploy command
/// is redeployed with that command; any other failure of its own with a
/// restart command is restarted with that command.
pub proof fn law_keepalive_follows_health(
    p: IdunnPlan,
    d: IdunnDesiredDaemonRecord,
    h: IdunnDaemonHealthRecord,
    now: Seq<char>,
)
    requires
        plan_matches(p, d, h, now),
    ensures
        !d.enabled ==> p.decision.action@ == "noop"@ && p.restart_request is None
            && p.deployment_request is None && p.operator_alarm is None,
        d.enabled && (h.state@ == "active"@ || h.state@ == "healthy"@ || h.state@ == "ok"@
            || h.state@ == "running"@) ==> p.decision.action@ == "observe"@ && p.restart_request is None
            && p.deployment_request is None && p.operator_alarm is None,
        d.enabled && h.state@ == "stale-deployment"@ && d.deploy_command is Some && trim(
            d.deploy_command->Some_0@,
        ).len() > 0 ==> p.decision.action@ == "deploy"@ && p.deployment_request is Some
            && p.deployment_request->Some_0.command@ == d.deploy_command->Some_0@ && p.restart_request is None
            && p.operator_alarm is None,
        d.enabled && h.state@ != "active"@ && h.state@ != "healthy"@ && h.state@ != "ok"@ && h.state@
            != "running"@ && h.state@ != "degraded"@ && h.state@ != "dependency-unavailable"@ && h.state@
            != "stale-deployment"@ && d.restart_command is Some && trim(d.restart_command->Some_0@).len() > 0
            ==> p.decision.action@ == "restart"@ && p.restart_request is Some
            && p.restart_request->Some_0.command@ == d.restart_command->Some_0@ && p.deployment_request is None
            && p.operator_alarm is None,
        d.enabled && h.state@ == "stale-deployment"@ && (d.deploy_command is None || trim(
            d.deploy_command->Some_0@,
        ).len() == 0) ==> p.decision.action@ == "alarm"@ && p.operator_alarm is Some
            && p.restart_request is None && p.deployment_request is None,
        d.enabled && h.state@ != "active"@ && h.state@ != "healthy"@ && h.state@ != "ok"@ && h.state@
            != "running"@ && h.state@ != "degraded"@ && h.state@ != "dependency-unavailable"@ && h.state@
            != "stale-deployment"@ && (d.restart_command is None || trim(d.restart_command->Some_0@).len()
            == 0) ==> p.decision.action@ == "alarm"@ && p.operator_alarm is Some && p.restart_request is None
            && p.deployment_request is None,
{
    reveal_strlit("stale-deployment");
    reveal_strlit("degraded");
    reveal_strlit("dependency-unavailable");
    reveal_strlit("active");
    reveal_strlit("healthy");
    reveal_strlit("ok");
    reveal_strlit("running");
    assert("stale-deployment"@.len() == 16 && "degraded"@.len() == 8 && "dependency-unavailable"@.len() == 22);
    assert("active"@.len() == 6 && "healthy"@.len() == 7 && "ok"@.len() == 2 && "running"@.len() == 7);
}

} // verus!
