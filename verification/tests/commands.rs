use statusbar::command::{interpret, Intent, Op};
use statusbar::tasks::{FinishedTask, LiveTask, StateSnapshot, TaskStatus};

fn live(id: &str, value: &str) -> LiveTask {
    LiveTask { id: id.to_string(), value: value.to_string() }
}

fn snapshot(n_live: usize, n_fin: usize) -> StateSnapshot {
    let live = (0..n_live).map(|i| live(&format!("l{}", i), &format!("L{}", i))).collect();
    let finished = (0..n_fin)
        .map(|i| FinishedTask {
            id: format!("f{}", i),
            value: format!("F{}", i),
            status: TaskStatus::Succeeded,
        })
        .collect();
    StateSnapshot { live, finished }
}

fn parse(input: &str, s: &StateSnapshot) -> Intent {
    interpret(&input.to_string(), s)
}

#[test]
fn mv_with_one_index_moves_to_front() {
    let s = snapshot(3, 0);
    match parse("mv 2", &s) {
        Intent::Submit(Op::Move(del, ins)) => {
            assert_eq!(del, "l2");
            assert_eq!(ins, "l0");
        }
        other => panic!("unexpected intent: {:?}", other),
    }
}

#[test]
fn mv_out_of_range_is_noop() {
    let s = snapshot(1, 0);
    assert!(matches!(parse("mv 2", &s), Intent::Nop));
}

#[test]
fn free_text_creates_a_task() {
    let s = snapshot(0, 0);
    match parse("rando text", &s) {
        Intent::Submit(Op::NewLive(v)) => assert_eq!(v, "rando text"),
        other => panic!("unexpected intent: {:?}", other),
    }
}

#[test]
fn mv_with_two_indices_moves_between() {
    let s = snapshot(4, 0);
    match parse("mv 3 1", &s) {
        Intent::Submit(Op::Move(del, ins)) => {
            assert_eq!(del, "l3");
            assert_eq!(ins, "l1");
        }
        other => panic!("unexpected intent: {:?}", other),
    }
}

#[test]
fn mv_equal_indices_is_noop() {
    let s = snapshot(4, 0);
    assert!(matches!(parse("mv 2 2", &s), Intent::Nop));
}

#[test]
fn mv_bare_swaps_the_front_pair() {
    let s = snapshot(3, 0);
    match parse("mv", &s) {
        Intent::Submit(Op::Move(del, ins)) => {
            assert_eq!(del, "l0");
            assert_eq!(ins, "l1");
        }
        other => panic!("unexpected intent: {:?}", other),
    }
    assert!(matches!(parse("mv", &snapshot(1, 0)), Intent::Nop));
}

#[test]
fn finish_verbs_pop_the_front() {
    let s = snapshot(2, 0);
    match parse("s", &s) {
        Intent::Submit(Op::Pop(id, TaskStatus::Succeeded)) => assert_eq!(id, "l0"),
        other => panic!("unexpected intent: {:?}", other),
    }
    match parse("f", &s) {
        Intent::Submit(Op::Pop(id, TaskStatus::Failed)) => assert_eq!(id, "l0"),
        other => panic!("unexpected intent: {:?}", other),
    }
    match parse("o", &s) {
        Intent::Submit(Op::Pop(id, TaskStatus::Obsoleted)) => assert_eq!(id, "l0"),
        other => panic!("unexpected intent: {:?}", other),
    }
}

#[test]
fn finish_verbs_with_no_live_tasks_are_noops() {
    let s = snapshot(0, 3);
    assert!(matches!(parse("s", &s), Intent::Nop));
    assert!(matches!(parse("f", &s), Intent::Nop));
    assert!(matches!(parse("o", &s), Intent::Nop));
}

#[test]
fn restore_takes_the_most_recent_or_an_index() {
    let s = snapshot(0, 3);
    match parse("r", &s) {
        Intent::Submit(Op::RestoreFinished(id)) => assert_eq!(id, "f0"),
        other => panic!("unexpected intent: {:?}", other),
    }
    match parse("r 2", &s) {
        Intent::Submit(Op::RestoreFinished(id)) => assert_eq!(id, "f2"),
        other => panic!("unexpected intent: {:?}", other),
    }
    assert!(matches!(parse("r 3", &s), Intent::Nop));
    assert!(matches!(parse("r x", &s), Intent::Nop));
    assert!(matches!(parse("r", &snapshot(0, 0)), Intent::Nop));
}

#[test]
fn queue_moves_to_the_back() {
    let s = snapshot(3, 0);
    match parse("q", &s) {
        Intent::Submit(Op::Move(del, ins)) => {
            assert_eq!(del, "l0");
            assert_eq!(ins, "l2");
        }
        other => panic!("unexpected intent: {:?}", other),
    }
    match parse("q 1", &s) {
        Intent::Submit(Op::Move(del, ins)) => {
            assert_eq!(del, "l1");
            assert_eq!(ins, "l2");
        }
        other => panic!("unexpected intent: {:?}", other),
    }
    assert!(matches!(parse("q", &snapshot(1, 0)), Intent::Nop));
}

#[test]
fn rev_verbs() {
    let s = snapshot(4, 0);
    match parse("rev 1 3", &s) {
        Intent::Submit(Op::Rev(a, b)) => {
            assert_eq!(a, "l1");
            assert_eq!(b, "l3");
        }
        other => panic!("unexpected intent: {:?}", other),
    }
    match parse("rev 2", &s) {
        Intent::Submit(Op::Rev(a, b)) => {
            assert_eq!(a, "l2");
            assert_eq!(b, "l0");
        }
        other => panic!("unexpected intent: {:?}", other),
    }
    // A bare `rev` has no default range.
    assert!(matches!(parse("rev", &s), Intent::Nop));
}

#[test]
fn toggle_and_collapse_verbs() {
    let s = snapshot(1, 0);
    assert!(matches!(parse("t", &s), Intent::ToggleFinished));
    assert!(matches!(parse("c", &s), Intent::Collapse));
}

#[test]
fn oversized_index_is_noop_not_a_task() {
    let s = snapshot(3, 0);
    assert!(matches!(parse("mv 99999999999999999999999999", &s), Intent::Nop));
}

#[test]
fn verb_with_garbage_arguments_is_noop() {
    let s = snapshot(3, 0);
    assert!(matches!(parse("mv 1 2 3", &s), Intent::Nop));
    assert!(matches!(parse("mv  2", &s), Intent::Nop));
    assert!(matches!(parse("q beta", &s), Intent::Nop));
}

#[test]
fn verb_like_longer_words_create_tasks() {
    let s = snapshot(3, 0);
    match parse("seven tasks", &s) {
        Intent::Submit(Op::NewLive(v)) => assert_eq!(v, "seven tasks"),
        other => panic!("unexpected intent: {:?}", other),
    }
    match parse("", &s) {
        Intent::Submit(Op::NewLive(v)) => assert_eq!(v, ""),
        other => panic!("unexpected intent: {:?}", other),
    }
}
