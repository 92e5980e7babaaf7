use statusbar::tasks::{
    apply_operation, FinishedTask, LiveTask, StateSnapshot, TaskStatus, WebsocketOpKind,
};

fn live(id: &str, value: &str) -> LiveTask {
    LiveTask { id: id.to_string(), value: value.to_string() }
}

fn fin(id: &str, value: &str, status: TaskStatus) -> FinishedTask {
    FinishedTask { id: id.to_string(), value: value.to_string(), status }
}

fn snapshot_abc() -> StateSnapshot {
    StateSnapshot {
        live: vec![live("a", "A"), live("b", "B"), live("c", "C")],
        finished: vec![],
    }
}

fn live_ids(s: &StateSnapshot) -> Vec<String> {
    s.live.iter().map(|t| t.id.clone()).collect()
}

fn live_values(s: &StateSnapshot) -> Vec<String> {
    s.live.iter().map(|t| t.value.clone()).collect()
}

#[test]
fn unknown_id_edit_is_noop() {
    let mut s = snapshot_abc();
    let mut active = None;
    apply_operation(
        &mut s,
        &mut active,
        WebsocketOpKind::EditLiveTask { id: "nonexistent".to_string(), value: "x".to_string() },
    );
    assert_eq!(live_ids(&s), vec!["a", "b", "c"]);
    assert_eq!(live_values(&s), vec!["A", "B", "C"]);
    assert!(s.finished.is_empty());
    assert!(active.is_none());
}

#[test]
fn unknown_id_delete_is_noop() {
    let mut s = snapshot_abc();
    let mut active = Some(("a".to_string(), "draft".to_string()));
    apply_operation(&mut s, &mut active, WebsocketOpKind::DelLiveTask { id: "z".to_string() });
    assert_eq!(live_ids(&s), vec!["a", "b", "c"]);
    assert_eq!(active, Some(("a".to_string(), "draft".to_string())));
}

#[test]
fn move_c_before_a() {
    let mut s = snapshot_abc();
    let mut active = None;
    apply_operation(
        &mut s,
        &mut active,
        WebsocketOpKind::MvLiveTask { id_del: "c".to_string(), id_ins: "a".to_string() },
    );
    assert_eq!(live_values(&s), vec!["C", "A", "B"]);
}

#[test]
fn reverse_b_to_d_either_order() {
    let build = || StateSnapshot {
        live: vec![live("a", "A"), live("b", "B"), live("c", "C"), live("d", "D")],
        finished: vec![],
    };
    let mut s1 = build();
    let mut a1 = None;
    apply_operation(
        &mut s1,
        &mut a1,
        WebsocketOpKind::RevLiveTask { id1: "b".to_string(), id2: "d".to_string() },
    );
    assert_eq!(live_values(&s1), vec!["A", "D", "C", "B"]);

    let mut s2 = build();
    let mut a2 = None;
    apply_operation(
        &mut s2,
        &mut a2,
        WebsocketOpKind::RevLiveTask { id1: "d".to_string(), id2: "b".to_string() },
    );
    assert_eq!(live_values(&s2), vec!["A", "D", "C", "B"]);
}

#[test]
fn finish_then_restore_round_trip() {
    let mut s = snapshot_abc();
    let mut active = None;
    apply_operation(
        &mut s,
        &mut active,
        WebsocketOpKind::FinishLiveTask { id: "a".to_string(), status: TaskStatus::Succeeded },
    );
    assert_eq!(live_ids(&s), vec!["b", "c"]);
    assert_eq!(s.finished.len(), 1);
    assert_eq!(s.finished[0].id, "a");
    assert_eq!(s.finished[0].status, TaskStatus::Succeeded);
    apply_operation(
        &mut s,
        &mut active,
        WebsocketOpKind::RestoreFinishedTask { id: "a".to_string() },
    );
    assert_eq!(live_ids(&s), vec!["a", "b", "c"]);
    assert_eq!(live_values(&s), vec!["A", "B", "C"]);
    assert!(s.finished.iter().all(|t| t.id != "a"));
    assert!(s.finished.is_empty());
}

#[test]
fn remote_finish_clears_active_edit() {
    let mut s = snapshot_abc();
    let mut active = Some(("a".to_string(), "typing".to_string()));
    apply_operation(
        &mut s,
        &mut active,
        WebsocketOpKind::FinishLiveTask { id: "a".to_string(), status: TaskStatus::Failed },
    );
    assert!(active.is_none());
}

#[test]
fn remote_finish_of_other_id_keeps_active_edit() {
    let mut s = snapshot_abc();
    let mut active = Some(("a".to_string(), "typing".to_string()));
    apply_operation(
        &mut s,
        &mut active,
        WebsocketOpKind::FinishLiveTask { id: "b".to_string(), status: TaskStatus::Obsoleted },
    );
    assert_eq!(active, Some(("a".to_string(), "typing".to_string())));
}

#[test]
fn insert_goes_to_front() {
    let mut s = snapshot_abc();
    let mut active = None;
    apply_operation(
        &mut s,
        &mut active,
        WebsocketOpKind::InsLiveTask { id: "n".to_string(), value: "N".to_string() },
    );
    assert_eq!(live_ids(&s), vec!["n", "a", "b", "c"]);
}

#[test]
fn edit_changes_only_the_value() {
    let mut s = snapshot_abc();
    let mut active = None;
    apply_operation(
        &mut s,
        &mut active,
        WebsocketOpKind::EditLiveTask { id: "b".to_string(), value: "B2".to_string() },
    );
    assert_eq!(live_ids(&s), vec!["a", "b", "c"]);
    assert_eq!(live_values(&s), vec!["A", "B2", "C"]);
}

#[test]
fn delete_removes_the_task() {
    let mut s = snapshot_abc();
    let mut active = None;
    apply_operation(&mut s, &mut active, WebsocketOpKind::DelLiveTask { id: "b".to_string() });
    assert_eq!(live_ids(&s), vec!["a", "c"]);
}

#[test]
fn delete_of_edited_id_clears_active_edit() {
    let mut s = snapshot_abc();
    let mut active = Some(("c".to_string(), "wip".to_string()));
    apply_operation(&mut s, &mut active, WebsocketOpKind::DelLiveTask { id: "c".to_string() });
    assert!(active.is_none());
}

#[test]
fn overwrite_replaces_everything_and_clears_edit() {
    let mut s = snapshot_abc();
    let mut active = Some(("a".to_string(), "wip".to_string()));
    let replacement = StateSnapshot {
        live: vec![live("x", "X")],
        finished: vec![fin("y", "Y", TaskStatus::Obsoleted)],
    };
    apply_operation(&mut s, &mut active, WebsocketOpKind::OverwriteState(replacement));
    assert_eq!(live_ids(&s), vec!["x"]);
    assert_eq!(s.finished.len(), 1);
    assert_eq!(s.finished[0].id, "y");
    assert!(active.is_none());
}

#[test]
fn restore_of_absent_id_is_noop() {
    let mut s = snapshot_abc();
    let mut active = None;
    apply_operation(
        &mut s,
        &mut active,
        WebsocketOpKind::RestoreFinishedTask { id: "zz".to_string() },
    );
    assert_eq!(live_ids(&s), vec!["a", "b", "c"]);
    assert!(s.finished.is_empty());
}

#[test]
fn reverse_with_absent_id_is_noop() {
    let mut s = snapshot_abc();
    let mut active = None;
    apply_operation(
        &mut s,
        &mut active,
        WebsocketOpKind::RevLiveTask { id1: "a".to_string(), id2: "zz".to_string() },
    );
    assert_eq!(live_values(&s), vec!["A", "B", "C"]);
}
