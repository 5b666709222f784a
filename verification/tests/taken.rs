use aop_app::taken::{have_unsent, not_yet_taken, our_unsent, remember_cursor, take_into_the_log, Link};

#[test]
fn a_batch_takes_each_new_seq_once_past_the_cursor() {
    let seqs = vec![3, 5, 6, 5, 7, 6, 2];
    assert_eq!(not_yet_taken(&seqs, 4), vec![1, 2, 4]);
    assert_eq!(not_yet_taken(&seqs, 10), Vec::<usize>::new());
    assert_eq!(not_yet_taken(&vec![], 0), Vec::<usize>::new());
}

#[test]
fn only_this_copys_own_work_is_offered() {
    let unsent = vec![10, 11, 12, 13];
    let taken = vec![11, 13, 40];
    assert_eq!(our_unsent(&unsent, &taken), vec![10, 12]);
    assert!(have_unsent(&unsent, &taken));
    assert!(!have_unsent(&vec![11, 13], &taken));
}

#[test]
fn with_nothing_waiting_the_watermark_moves_past_their_work() {
    let mut taken = vec![7, 8];
    let mark = take_into_the_log(true, &vec![21, 25, 23], &vec![8, 21, 23, 25], &mut taken);
    assert_eq!(mark, Some(25));
    assert_eq!(taken, vec![8], "a name the log no longer holds is forgotten");
}

#[test]
fn with_work_waiting_their_entries_are_named_and_never_offered_back() {
    let mut taken = vec![7];
    let held = vec![7, 30, 31, 32, 33];
    let mark = take_into_the_log(false, &vec![31, 33], &held, &mut taken);
    assert_eq!(mark, None);
    assert_eq!(taken, vec![7, 31, 33]);
    let unsent = vec![30, 31, 32, 33];
    assert_eq!(our_unsent(&unsent, &taken), vec![30, 32]);

    let mut none_yet = Vec::new();
    assert_eq!(take_into_the_log(true, &vec![], &held, &mut none_yet), None);
    assert!(none_yet.is_empty());
}

#[test]
fn the_read_cursor_only_moves_forward() {
    let mut link = Some(Link { project: "a-project".into(), cursor: 4 });
    assert!(remember_cursor(&mut link, 6));
    assert_eq!(link.as_ref().unwrap().cursor, 6);
    assert!(!remember_cursor(&mut link, 5), "an older head does not move it back");
    assert!(!remember_cursor(&mut link, 6));
    let l = link.unwrap();
    assert_eq!(l.cursor, 6);
    assert_eq!(l.project, "a-project");

    let mut none: Option<Link> = None;
    assert!(!remember_cursor(&mut none, 9));
    assert!(none.is_none());
}

#[test]
fn work_already_read_is_not_taken_again() {
    let mut link = Some(Link { project: "a-project".into(), cursor: 4 });
    let batch = vec![6];
    let taken_through = link.as_ref().unwrap().cursor;
    assert_eq!(not_yet_taken(&batch, taken_through), vec![0]);
    remember_cursor(&mut link, 6);
    let taken_through = link.as_ref().unwrap().cursor;
    assert_eq!(taken_through, 6);
    assert_eq!(not_yet_taken(&batch, taken_through), Vec::<usize>::new());
}
