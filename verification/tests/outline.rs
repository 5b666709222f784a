use aop_app::outline::{sort_range, SortRow};

fn row(level: u16, value: i64, name: &str) -> SortRow {
    SortRow { level, value, name: name.to_string() }
}

#[test]
fn blocks_move_with_their_children_and_children_are_sorted_too() {
    let rows = vec![
        row(0, 3, "c"),
        row(1, 2, "x"),
        row(1, 1, "y"),
        row(0, 1, "b"),
        row(0, 1, "a"),
    ];
    assert_eq!(sort_range(&rows, 0, rows.len(), 0), vec![4, 3, 0, 2, 1]);
}

#[test]
fn rows_that_compare_equal_keep_their_order() {
    let rows = vec![row(0, 5, "same"), row(0, 1, "first"), row(0, 5, "same")];
    assert_eq!(sort_range(&rows, 0, 3, 0), vec![1, 0, 2]);
}

#[test]
fn a_name_breaks_a_tie_and_a_shorter_name_comes_first() {
    let rows = vec![row(0, 1, "ab"), row(0, 1, "a"), row(0, 1, "b")];
    assert_eq!(sort_range(&rows, 0, 3, 0), vec![1, 0, 2]);
}

#[test]
fn only_the_range_asked_for_is_sorted() {
    let rows = vec![row(0, 9, "z"), row(0, 2, "b"), row(0, 1, "a"), row(0, 0, "0")];
    assert_eq!(sort_range(&rows, 1, 3, 0), vec![2, 1]);
    assert_eq!(sort_range(&rows, 2, 2, 0), Vec::<usize>::new());
}

#[test]
fn every_row_comes_out_once() {
    let rows = vec![
        row(0, 4, "d"),
        row(1, 3, "c"),
        row(2, 9, "z"),
        row(2, 1, "a"),
        row(1, 0, "o"),
        row(0, 2, "b"),
        row(1, 7, "q"),
    ];
    let mut out = sort_range(&rows, 0, rows.len(), 0);
    assert_eq!(out, vec![5, 6, 0, 4, 1, 3, 2]);
    out.sort();
    assert_eq!(out, (0..rows.len()).collect::<Vec<_>>());
}

#[test]
fn a_name_is_compared_in_lower_case() {
    let row = SortRow::of(2, 7, "Pour SLAB");
    assert_eq!(row.level, 2);
    assert_eq!(row.value, 7);
    assert_eq!(row.name, "pour slab");
    assert_eq!(SortRow::of(0, 0, "ÉTÉ").name, "été");
    let rows = vec![SortRow::of(0, 1, "beta"), SortRow::of(0, 1, "Alpha")];
    assert_eq!(sort_range(&rows, 0, 2, 0), vec![1, 0], "case does not decide the order");
}

#[test]
fn each_task_comes_out_with_its_own_tasks_under_it() {
    // 0 Zed (1 z2, 2 z1), 3 Amy (4 a1)
    let rows = vec![
        SortRow::of(0, 0, "Zed"),
        SortRow::of(1, 0, "z2"),
        SortRow::of(1, 0, "z1"),
        SortRow::of(0, 0, "Amy"),
        SortRow::of(1, 0, "a1"),
    ];
    assert_eq!(sort_range(&rows, 0, 5, 0), vec![3, 4, 0, 2, 1]);
}
