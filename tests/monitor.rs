use server_father::batch::{batch, Notice};
use server_father::detect::{detect, find_probed_state};
use server_father::message::{render, single_message};
use server_father::model::{reachable_from, Group, ProbeOutcome, ProbeResult, Target, Transition};
use server_father::tick::{plan_tick, StateUpdate, TickRun, TickStep};

fn target(id: i32, name: &str, group_id: Option<i32>, is_active: bool) -> Target {
    Target {
        id,
        name: name.to_string(),
        host: format!("10.0.0.{}", id),
        port: 22,
        group_id,
        is_active,
    }
}

fn result(target_id: i32, reachable: bool) -> ProbeResult {
    ProbeResult { target_id, reachable }
}

fn group(id: i32, name: &str) -> Group {
    Group { id, name: name.to_string() }
}

#[test]
fn unchanged_state_produces_no_transition() {
    let snapshot = vec![target(1, "a", None, true), target(2, "b", Some(1), false)];
    let results = vec![result(1, true), result(2, false)];
    assert!(detect(&snapshot, &results).is_empty());
}

#[test]
fn changed_state_produces_one_transition_each() {
    let snapshot = vec![
        target(1, "a", None, true),
        target(2, "b", None, false),
        target(3, "c", None, true),
    ];
    let results = vec![result(3, true), result(2, true), result(1, false)];
    let out = detect(&snapshot, &results);
    assert_eq!(out.len(), 2);
    assert_eq!(out[0].target.id, 1);
    assert!(out[0].previous && !out[0].current);
    assert_eq!(out[1].target.id, 2);
    assert!(!out[1].previous && out[1].current);
}

#[test]
fn target_without_result_is_skipped() {
    let snapshot = vec![target(1, "a", None, true)];
    let results = vec![result(9, false)];
    assert!(detect(&snapshot, &results).is_empty());
}

#[test]
fn first_result_for_a_target_counts() {
    let results = vec![result(4, false), result(5, true), result(4, true)];
    assert_eq!(find_probed_state(&results, 4), Some(false));
    assert_eq!(find_probed_state(&results, 5), Some(true));
    assert_eq!(find_probed_state(&results, 6), None);
}

#[test]
fn timed_out_probe_is_unreachable() {
    assert!(!reachable_from(ProbeOutcome::TimedOut));
    assert!(!reachable_from(ProbeOutcome::Refused));
    assert!(reachable_from(ProbeOutcome::Connected));
}

#[test]
fn several_changes_in_a_group_are_aggregated() {
    let snapshot = vec![
        target(1, "A", Some(1), true),
        target(2, "B", Some(1), true),
        target(3, "C", Some(1), true),
    ];
    let results = vec![result(1, false), result(2, false), result(3, true)];
    let groups = vec![group(1, "G1")];
    let plan = plan_tick(&snapshot, &groups, &results);
    assert_eq!(plan.transitions.len(), 2);
    assert_eq!(plan.messages.len(), 1);
    assert_eq!(
        plan.messages[0],
        "\u{1F504} Status changes in group 'G1':\n\nA is now offline\nB is now offline"
    );
    assert_eq!(
        plan.updates,
        vec![
            StateUpdate { target_id: 1, reachable: false },
            StateUpdate { target_id: 2, reachable: false }
        ]
    );
}

#[test]
fn lone_change_in_a_group_is_reported_singly() {
    let snapshot = vec![
        target(1, "A", Some(1), true),
        target(2, "B", Some(1), true),
        target(3, "C", Some(1), true),
        target(4, "D", Some(1), true),
        target(5, "E", Some(1), true),
    ];
    let results = vec![
        result(1, true),
        result(2, true),
        result(3, false),
        result(4, true),
        result(5, true),
    ];
    let groups = vec![group(1, "G1")];
    let transitions = detect(&snapshot, &results);
    let notices = batch(&transitions, &groups);
    assert_eq!(notices.len(), 1);
    match &notices[0] {
        Notice::Single { change } => assert_eq!(change.target.name, "C"),
        Notice::Grouped { .. } => panic!("a lone change must not be aggregated"),
    }
}

#[test]
fn group_scenario_where_only_one_member_flips() {
    let snapshot = vec![target(1, "A", Some(1), true), target(2, "B", Some(1), false)];
    let results = vec![result(1, false), result(2, false)];
    let groups = vec![group(1, "G1")];
    let plan = plan_tick(&snapshot, &groups, &results);
    assert_eq!(plan.transitions.len(), 1);
    assert_eq!(plan.transitions[0].target.name, "A");
    assert_eq!(plan.updates, vec![StateUpdate { target_id: 1, reachable: false }]);
    assert_eq!(plan.messages.len(), 1);
    assert!(plan.messages[0].contains("'A'"));
    assert!(plan.messages[0].contains("down"));
    assert!(!plan.messages[0].contains("'B'"));
}

#[test]
fn group_scenario_where_both_members_go_offline() {
    let snapshot = vec![target(1, "A", Some(1), true), target(2, "B", Some(1), true)];
    let results = vec![result(1, false), result(2, false)];
    let groups = vec![group(1, "G1")];
    let plan = plan_tick(&snapshot, &groups, &results);
    assert_eq!(plan.transitions.len(), 2);
    assert_eq!(plan.messages.len(), 1);
    assert!(plan.messages[0].contains("A is now offline"));
    assert!(plan.messages[0].contains("B is now offline"));
    assert!(plan.messages[0].contains("G1"));
    assert_eq!(plan.updates.len(), 2);
}

#[test]
fn unchanged_ungrouped_target_is_left_alone() {
    let snapshot = vec![target(3, "C", None, true)];
    let results = vec![result(3, true)];
    let plan = plan_tick(&snapshot, &Vec::new(), &results);
    assert!(plan.transitions.is_empty());
    assert!(plan.updates.is_empty());
    assert!(plan.messages.is_empty());
}

#[test]
fn failed_catalog_write_still_delivers_the_notice() {
    let snapshot = vec![target(4, "D", None, true)];
    let results = vec![result(4, false)];
    let plan = plan_tick(&snapshot, &Vec::new(), &results);
    let mut run = TickRun::new(plan);
    match run.next_step() {
        TickStep::Persist { update } => assert_eq!(update, StateUpdate { target_id: 4, reachable: false }),
        _ => panic!("the write comes first"),
    }
    run.record(false);
    match run.next_step() {
        TickStep::Send { text } => assert!(text.contains("'D'")),
        _ => panic!("the notice must still be sent"),
    }
    run.record(true);
    assert!(matches!(run.next_step(), TickStep::Done));
    assert!(run.done());
    assert_eq!(run.failed_writes, 1);
    assert_eq!(run.failed_sends, 0);
}

#[test]
fn failed_delivery_does_not_stop_the_next_one() {
    let snapshot = vec![target(1, "a", None, true), target(2, "b", None, true)];
    let results = vec![result(1, false), result(2, false)];
    let plan = plan_tick(&snapshot, &Vec::new(), &results);
    assert_eq!(plan.messages.len(), 2);
    let mut run = TickRun::new(plan);
    let mut sends = 0;
    while !run.done() {
        let is_send = matches!(run.next_step(), TickStep::Send { .. });
        if is_send {
            sends += 1;
        }
        run.record(!is_send);
    }
    assert_eq!(sends, 2);
    assert_eq!(run.failed_sends, 2);
    assert_eq!(run.failed_writes, 0);
}

#[test]
fn individual_message_text() {
    let t = Transition {
        target: Target {
            id: 7,
            name: "db".to_string(),
            host: "10.0.0.5".to_string(),
            port: 5432,
            group_id: None,
            is_active: true,
        },
        previous: true,
        current: false,
    };
    assert_eq!(single_message(&t), "\u{1F6A8} Server 'db' (10.0.0.5:5432) is down (was online)");
    let back = Transition { previous: false, current: true, ..t };
    assert_eq!(
        single_message(&back),
        "\u{2705} Server 'db' (10.0.0.5:5432) is back online (was offline)"
    );
}

#[test]
fn negative_port_is_written_with_sign() {
    let t = Transition {
        target: Target {
            id: 1,
            name: "x".to_string(),
            host: "h".to_string(),
            port: -2147483648,
            group_id: None,
            is_active: false,
        },
        previous: false,
        current: true,
    };
    assert_eq!(single_message(&t), "\u{2705} Server 'x' (h:-2147483648) is back online (was offline)");
}

#[test]
fn unlisted_group_is_labelled_by_id() {
    let transitions = detect(
        &vec![target(1, "A", Some(70), false), target(2, "B", Some(70), false)],
        &vec![result(1, true), result(2, true)],
    );
    let notices = batch(&transitions, &vec![group(1, "other")]);
    assert_eq!(notices.len(), 1);
    assert_eq!(
        render(&notices[0]),
        "\u{1F504} Status changes in group '#70':\n\nA is now online\nB is now online"
    );
}

#[test]
fn groups_and_ungrouped_mix() {
    let snapshot = vec![
        target(1, "u1", None, true),
        target(2, "g1a", Some(1), true),
        target(3, "g2a", Some(2), true),
        target(4, "g1b", Some(1), true),
        target(5, "u2", None, true),
    ];
    let results = vec![
        result(1, false),
        result(2, false),
        result(3, false),
        result(4, false),
        result(5, false),
    ];
    let groups = vec![group(1, "web"), group(2, "db")];
    let transitions = detect(&snapshot, &results);
    let notices = batch(&transitions, &groups);
    assert_eq!(notices.len(), 4);
    assert!(matches!(&notices[0], Notice::Single { change } if change.target.id == 1));
    assert!(matches!(&notices[1], Notice::Grouped { group_id: 1, changes, .. } if changes.len() == 2));
    assert!(matches!(&notices[2], Notice::Single { change } if change.target.id == 3));
    assert!(matches!(&notices[3], Notice::Single { change } if change.target.id == 5));
}

#[test]
fn each_ungrouped_change_gets_its_own_message() {
    let snapshot = vec![
        target(1, "a", None, true),
        target(2, "b", None, false),
        target(3, "c", None, true),
    ];
    let results = vec![result(1, false), result(2, true), result(3, false)];
    let plan = plan_tick(&snapshot, &Vec::new(), &results);
    assert_eq!(plan.transitions.len(), 3);
    assert_eq!(plan.messages.len(), 3);
    assert_eq!(plan.messages[0], "\u{1F6A8} Server 'a' (10.0.0.1:22) is down (was online)");
    assert_eq!(plan.messages[1], "\u{2705} Server 'b' (10.0.0.2:22) is back online (was offline)");
    assert_eq!(plan.messages[2], "\u{1F6A8} Server 'c' (10.0.0.3:22) is down (was online)");
    assert!(plan.messages.iter().all(|m| !m.contains("Status changes in group")));
}
