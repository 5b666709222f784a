use aop_app::undo::{UndoLog, UNDO_LIMIT};

#[test]
fn undo_after_a_change_gives_back_the_plan_before_it() {
    let mut log: UndoLog<u32> = UndoLog::new();
    assert!(!log.can_undo());
    log.checkpoint(1);
    let plan = log.roll_back(2);
    assert_eq!(plan, 1);
    assert!(log.can_redo());
    assert!(!log.can_undo());
}

#[test]
fn redo_puts_back_what_undo_took() {
    let mut log: UndoLog<String> = UndoLog::new();
    log.checkpoint("before".to_string());
    let back = log.roll_back("after".to_string());
    assert_eq!(back, "before");
    let again = log.redo(back);
    assert_eq!(again, "after");
    assert!(log.can_undo());
    assert!(!log.can_redo());
}

#[test]
fn a_new_change_forgets_what_could_have_been_redone() {
    let mut log: UndoLog<u32> = UndoLog::new();
    log.checkpoint(1);
    let plan = log.roll_back(2);
    assert!(log.can_redo());
    log.checkpoint(plan);
    assert!(!log.can_redo());
}

#[test]
fn with_nothing_to_go_back_to_the_plan_stays() {
    let mut log: UndoLog<u32> = UndoLog::new();
    assert_eq!(log.roll_back(7), 7);
    assert_eq!(log.redo(7), 7);
}

#[test]
fn a_grouped_step_is_taken_back_in_one_undo() {
    let mut log: UndoLog<u32> = UndoLog::new();
    log.begin_step(10);
    log.checkpoint(11);
    log.checkpoint(12);
    log.begin_step(13);
    assert!(!log.end_step(), "an inner step closing does not close the outer");
    assert!(log.end_step(), "the outer one closing does");
    assert!(!log.in_step());
    assert_eq!(log.roll_back(14), 10);
    assert!(!log.can_undo());
}

#[test]
fn closing_a_step_that_was_never_opened_changes_nothing() {
    let mut log: UndoLog<u32> = UndoLog::new();
    assert!(log.end_step());
    assert!(!log.in_step());
}

#[test]
fn only_the_last_sixty_steps_are_kept() {
    let mut log: UndoLog<usize> = UndoLog::new();
    for plan in 0..UNDO_LIMIT + 5 {
        log.checkpoint(plan);
    }
    let mut plan = UNDO_LIMIT + 5;
    let mut taken_back = 0;
    while log.can_undo() {
        plan = log.roll_back(plan);
        taken_back += 1;
    }
    assert_eq!(taken_back, UNDO_LIMIT);
    assert_eq!(plan, 5, "the oldest five were let go");
}

#[test]
fn work_brought_in_is_one_step_even_inside_a_group() {
    let mut log: UndoLog<u32> = UndoLog::new();
    log.begin_step(1);
    log.record(2);
    log.end_step();
    assert_eq!(log.roll_back(3), 2);
    assert_eq!(log.roll_back(2), 1);
}
