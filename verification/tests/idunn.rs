use odin::documents::{IdunnDaemonHealthRecord, IdunnDesiredDaemonRecord};
use odin::odin_core::idunn::plan_keepalive;

fn desired(restart_command: Option<&str>) -> IdunnDesiredDaemonRecord {
    IdunnDesiredDaemonRecord {
        daemon_id: "voidbot".to_string(),
        verse_id: "local".to_string(),
        name: "VoidBot".to_string(),
        enabled: true,
        health_command: None,
        restart_command: restart_command.map(ToString::to_string),
        authority: "idunn-supervisor-command".to_string(),
        max_silence_seconds: 60,
        observed_at: "2026-06-04T00:00:00Z".to_string(),
        deploy_command: None,
        health_contract: "test.cultnet-rudp-health".to_string(),
        transport_profile_id: "transport:voidbot".to_string(),
        command_boundary_id: "command-boundary:voidbot".to_string(),
    }
}

fn health(state: &str) -> IdunnDaemonHealthRecord {
    IdunnDaemonHealthRecord {
        daemon_id: "voidbot".to_string(),
        state: state.to_string(),
        detail: "unit daemon publication".to_string(),
        observed_at: "2026-06-04T00:00:01Z".to_string(),
        health_contract: "test.cultnet-rudp-health".to_string(),
        publication_source: "debug-command".to_string(),
        transport: "debug.local-command".to_string(),
    }
}

#[test]
fn healthy_daemon_is_observed_without_restart() {
    let plan = plan_keepalive(
        &desired(Some("npm start")),
        &health("active"),
        "2026-06-04T00:00:02Z",
    );

    assert_eq!(plan.decision.action, "observe");
    assert!(plan.deployment_request.is_none());
    assert!(plan.restart_request.is_none());
    assert!(plan.operator_alarm.is_none());
}

#[test]
fn unhealthy_daemon_with_restart_authority_requests_restart() {
    let plan = plan_keepalive(
        &desired(Some("npm start")),
        &health("failed"),
        "2026-06-04T00:00:02Z",
    );

    assert_eq!(plan.decision.action, "restart");
    assert!(plan.deployment_request.is_none());
    assert_eq!(plan.restart_request.unwrap().command, "npm start");
    assert!(plan.operator_alarm.is_none());
}

#[test]
fn unhealthy_daemon_with_deploy_authority_requests_deployment_before_restart() {
    let mut desired = desired(Some("systemctl restart gjallar"));
    desired.deploy_command = Some("deploy gjallar".to_string());
    let plan = plan_keepalive(
        &desired,
        &health("stale-deployment"),
        "2026-06-04T00:00:02Z",
    );

    assert_eq!(plan.decision.action, "deploy");
    assert_eq!(plan.deployment_request.unwrap().command, "deploy gjallar");
    assert!(plan.restart_request.is_none());
    assert!(plan.operator_alarm.is_none());
}

#[test]
fn failed_daemon_with_deploy_and_restart_authority_restarts_instead_of_redeploying() {
    let mut desired = desired(Some("systemctl restart gjallar"));
    desired.deploy_command = Some("deploy gjallar".to_string());
    let plan = plan_keepalive(&desired, &health("failed"), "2026-06-04T00:00:02Z");

    assert_eq!(plan.decision.action, "restart");
    assert!(plan.deployment_request.is_none());
    assert_eq!(
        plan.restart_request.unwrap().command,
        "systemctl restart gjallar"
    );
    assert!(plan.operator_alarm.is_none());
}

#[test]
fn dependency_unavailable_raises_alarm_instead_of_redeploying_or_restarting() {
    let mut desired = desired(Some("systemctl restart gjallar"));
    desired.deploy_command = Some("deploy gjallar".to_string());
    let plan = plan_keepalive(
        &desired,
        &health("dependency-unavailable"),
        "2026-06-04T00:00:02Z",
    );

    assert_eq!(plan.decision.action, "alarm");
    assert!(plan.deployment_request.is_none());
    assert!(plan.restart_request.is_none());
    assert!(plan.operator_alarm.is_some());
}

#[test]
fn stale_deployment_without_deploy_authority_raises_alarm_instead_of_restarting() {
    let plan = plan_keepalive(
        &desired(Some("systemctl restart old-app")),
        &health("stale-deployment"),
        "2026-06-04T00:00:02Z",
    );

    assert_eq!(plan.decision.action, "alarm");
    assert!(plan.deployment_request.is_none());
    assert!(plan.restart_request.is_none());
    assert!(plan.operator_alarm.is_some());
}

#[test]
fn unhealthy_daemon_without_authority_raises_operator_alarm() {
    let plan = plan_keepalive(&desired(None), &health("failed"), "2026-06-04T00:00:02Z");

    assert_eq!(plan.decision.action, "alarm");
    assert!(plan.deployment_request.is_none());
    assert!(plan.restart_request.is_none());
    assert_eq!(
        plan.operator_alarm.unwrap().escalation_target,
        "bifrost.operator-notification"
    );
}
