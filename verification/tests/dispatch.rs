use morrows::dispatch::{
    auto_launch_profile, dispatch_round_next, launch_after_last_round, scheduler_due, RoundNext,
};
use morrows::json::Json;
use morrows::launch::LaunchProfile;

fn launch(id: u128, agent: u128, enabled: bool, default: Option<Json>) -> LaunchProfile {
    LaunchProfile {
        id,
        name: "p".into(),
        adapter: "codex_cli".into(),
        agent_instance_id: agent,
        program: "/bin/codex".into(),
        codex_home: None,
        default_cwd: None,
        model: None,
        enabled,
        metadata: Json::Object(match default {
            Some(v) => vec![("default".to_string(), v)],
            None => Vec::new(),
        }),
        created_at: 0,
        updated_at: 0,
    }
}

#[test]
fn auto_launch_needs_a_unique_profile() {
    let only = vec![launch(1, 7, true, None), launch(2, 8, true, None), launch(3, 7, false, None)];
    assert_eq!(auto_launch_profile("executor", 7, &only), Some(1));
    assert_eq!(auto_launch_profile("planner", 7, &only), None);
    let two = vec![launch(1, 7, true, None), launch(2, 7, true, None)];
    assert_eq!(auto_launch_profile("executor", 7, &two), None);
    let with_default = vec![
        launch(1, 7, true, None),
        launch(2, 7, true, Some(Json::Bool(true))),
        launch(3, 7, true, Some(Json::Str("true".into()))),
    ];
    assert_eq!(auto_launch_profile("executor", 7, &with_default), Some(2));
    let two_defaults = vec![
        launch(1, 7, true, Some(Json::Bool(true))),
        launch(2, 7, true, Some(Json::Bool(true))),
    ];
    assert_eq!(auto_launch_profile("executor", 7, &two_defaults), None);
    assert_eq!(auto_launch_profile("executor", 9, &only), None);
}

#[test]
fn scheduled_roles_run_when_due() {
    assert!(scheduler_due(None, 60));
    assert!(scheduler_due(Some(60), 60));
    assert!(!scheduler_due(Some(59), 60));
    assert!(!scheduler_due(Some(1_000_000), -1));
}

#[test]
fn a_tick_makes_at_most_eight_assignments() {
    assert!(dispatch_round_next(0, false, false, true) == RoundNext::Stop);
    assert!(dispatch_round_next(0, true, true, true) == RoundNext::LaunchThenContinue);
    assert!(dispatch_round_next(0, true, true, false) == RoundNext::Continue);
    assert!(dispatch_round_next(6, true, false, false) == RoundNext::Continue);
    assert!(dispatch_round_next(7, true, false, false) == RoundNext::Stop);
    assert!(launch_after_last_round(true, true, true));
    assert!(!launch_after_last_round(true, false, true));
}
