use dscbot::points::{
    get_highest_qotd, leaderboard, leaderboard_fields, modpoints, next_question_number, suggest,
};

#[test]
fn points_changes() {
    assert_eq!(modpoints(10, -10), Some(0));
    assert_eq!(modpoints(10, -11), None);
    assert_eq!(modpoints(10, 5), Some(15));
    assert_eq!(modpoints(u64::MAX, 1), None);
}

#[test]
fn suggestion_charges() {
    assert_eq!(suggest(9, 10, &vec![1, 2]), None);
    assert_eq!(suggest(10, 10, &vec![]), Some((0, 1)));
    assert_eq!(suggest(25, 10, &vec![3, 7, 5]), Some((15, 8)));
}

#[test]
fn leaderboard_order() {
    let entries = vec![(1u64, 5i64), (2, 9), (3, 5), (4, 1), (5, 9), (6, 7), (7, 0), (8, 3)];
    assert_eq!(leaderboard(entries), vec![(2, 9), (5, 9), (6, 7), (1, 5), (3, 5), (8, 3), (4, 1), (7, 0)]);
    let many: Vec<(u64, i64)> = (1..=12u64).map(|u| (u, u as i64)).collect();
    let top = leaderboard(many);
    assert_eq!(top.len(), 10);
    assert_eq!(top[0], (12, 12));
    assert_eq!(top[9], (3, 3));
    assert_eq!(leaderboard(vec![]), vec![]);
    assert_eq!(leaderboard(vec![(1, -2), (2, 4)]), vec![(2, 4), (1, -2)]);
}

#[test]
fn leaderboard_lines() {
    let ranked = vec![(String::from("ann"), 12i64), (String::from("bo"), -1)];
    assert_eq!(
        leaderboard_fields(&ranked),
        vec![(String::from("1"), String::from("ann - 12")), (String::from("2"), String::from("bo - -1"))]
    );
}

#[test]
fn question_numbers() {
    assert_eq!(next_question_number(&vec![]), 1);
    assert_eq!(next_question_number(&vec![3, 1, 2]), 4);
    assert_eq!(next_question_number(&vec![i32::MAX]), i32::MAX as i64 + 1);
    assert_eq!(next_question_number(&vec![-5]), -4);
    assert_eq!(next_question_number(&vec![-5, -9]), -4);
}

#[test]
fn highest_question_numbers() {
    assert_eq!(get_highest_qotd(&vec![]), 0);
    assert_eq!(get_highest_qotd(&vec![3, 9, 4]), 9);
    assert_eq!(get_highest_qotd(&vec![-3, -1]), -1);
}
