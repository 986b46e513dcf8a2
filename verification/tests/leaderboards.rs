use functional::leaderboards::{
    chart, chart_cells, friend_layout, chart_counts, chart_pos, distribute, get_common, leaderboard_name, load_state_text_of, load_step, x_labels, y_labels, ChartPoint, LeaderboardLoadError, LoadAction, LoadReply, LoadState, Op,
};
use functional::math::Rect;

fn with_vec(v: Vec<u32>, size: u32) -> (u32, u32, Vec<usize>) {
    let ax = distribute(&v, size);
    (ax.min, ax.step, ax.data)
}

#[test]
fn test_distribute() {
    assert_eq!(with_vec(vec![1, 2, 3, 4], 4), (1, 1, vec![0, 1, 2, 3]));
    assert_eq!(with_vec(vec![1, 2, 3, 4], 30), (1, 1, vec![0, 1, 2, 3]));
    assert_eq!(with_vec(vec![1, 2, 3, 4], 2), (1, 2, vec![0, 0, 1, 1]));
    assert_eq!(with_vec(vec![1, 100, 102, 200], 20).2, vec![0, 9, 10, 19]);
}

#[test]
fn test_get_common() {
    assert_eq!(get_common(&vec![vec![3, 0, 0, 3, 3, 0, 3]]), u32::MAX);
    assert_eq!(get_common(&vec![vec![0, 0, 1, 1, 2]]), 2);
    assert_eq!(get_common(&vec![vec![0, 0, 1, 1, 2, 3, 3]]), 3);
    assert_eq!(get_common(&vec![vec![1, 1, 1, 1, 1, 1, 2, 3]]), 2);
}

#[test]
fn distribute_edges() {
    // no values: an axis from 0 with step 1
    assert_eq!(with_vec(vec![], 5), (0, 1, vec![]));
    // equal values fall in the first bucket
    assert_eq!(with_vec(vec![7, 7, 7], 3), (7, 1, vec![0, 0, 0]));
    // the step rounds up: 10 values over 3 buckets take steps of 4
    assert_eq!(with_vec(vec![0, 9, 4], 3), (0, 4, vec![0, 2, 1]));
}

#[test]
fn common_over_rows() {
    // rows are taken together; zeros do not count
    assert_eq!(get_common(&vec![vec![0, 5], vec![1, 1], vec![1, 1, 0]]), 5);
    assert_eq!(get_common(&vec![]), u32::MAX);
    assert_eq!(get_common(&vec![vec![0, 0]]), u32::MAX);
}

fn points() -> Vec<ChartPoint> {
    vec![
        ChartPoint { functions: 1, reductions_x100: 100, count: 2 },
        ChartPoint { functions: 2, reductions_x100: 100, count: 1 },
        ChartPoint { functions: 4, reductions_x100: 400, count: 5 },
    ]
}

#[test]
fn chart_of_scores() {
    let c = chart(&points(), Some(1), Rect::new(10, 20, 14, 14));
    assert_eq!(c.counts, vec![vec![2, 1, 0, 0], vec![0; 4], vec![0; 4], vec![0, 0, 0, 5]]);
    assert_eq!(c.common, 5);
    // every player is in exactly one cell
    assert_eq!(c.counts.iter().flatten().sum::<u32>(), 8);
    assert_eq!(c.cells[0], vec!['\u{b7}', 'x', ' ', ' ']);
    assert_eq!(c.cells[1], vec![' '; 4]);
    assert_eq!(c.cells[3], vec![' ', ' ', ' ', '\u{2022}']);
    let xl: Vec<(usize, &str)> = c.x_labels.iter().map(|(j, t)| (*j, t.as_str())).collect();
    // a free column between labels
    assert_eq!(xl, vec![(0, "1"), (2, "3")]);
    assert_eq!(c.y_labels, vec![(0, 100), (2, 252)]);
    let p = chart_pos(&Rect::new(10, 20, 14, 14), 0, 0);
    assert_eq!((p.i, p.j), (16, 28));
    let p = chart_pos(&Rect::new(10, 20, 14, 14), -1, -1);
    assert_eq!((p.i, p.j), (17, 27));
}

#[test]
fn empty_chart() {
    let c = chart(&vec![], None, Rect::new(0, 0, 12, 13));
    assert_eq!(c.counts, vec![vec![0, 0]; 3]);
    assert_eq!(c.common, u32::MAX);
    assert_eq!(c.cells, vec![vec![' ', ' ']; 3]);
    assert_eq!(c.y_labels, vec![(0, 0)]);
}

#[test]
fn chart_parts() {
    let counts = chart_counts(&points(), &vec![0, 1, 1], &vec![0, 0, 1], 2, 2);
    assert_eq!(counts, vec![vec![2, 1], vec![0, 5]]);
    // a point out of the chart is left out
    let counts = chart_counts(&points(), &vec![0, 5, 1], &vec![0, 0, 7], 2, 2);
    assert_eq!(counts, vec![vec![2, 0], vec![0, 0]]);
    let marks = chart_cells(&vec![vec![0, 3], vec![9, 1]], Some((1, 1)), 3);
    assert_eq!(marks, vec![vec![' ', '\u{2022}'], vec!['\u{2022}', 'x']]);
    let labels: Vec<(usize, String)> = x_labels(5, 10, 6);
    assert_eq!(labels, vec![(0, "5".to_string()), (2, "25".to_string())]);
    assert_eq!(x_labels(1, 0, 2), vec![(0, "1".to_string())]);
    assert_eq!(y_labels(7, 3, 5), vec![(0, 7), (2, 13)]);
}

#[test]
fn leaderboard_loading() {
    let (st, a) = load_step(LoadState::Initial, true, LoadReply::Pending);
    assert!(matches!(st, LoadState::WaitingForLeaderboard));
    assert_eq!(a, LoadAction::FindLeaderboard);
    let (st, a) = load_step(st, true, LoadReply::Pending);
    assert!(matches!(st, LoadState::WaitingForLeaderboard));
    assert_eq!(a, LoadAction::Nothing);
    let (st, a) = load_step(st, true, LoadReply::Found);
    assert!(matches!(st, LoadState::DownloadingEntries));
    assert_eq!(a, LoadAction::DownloadEntries);
    let (st, _) = load_step(st, true, LoadReply::Entries);
    assert!(matches!(st, LoadState::DownloadingEntries));
    let (st, _) = load_step(st, true, LoadReply::Disconnected);
    assert_eq!(
        load_state_text_of(&st),
        "Failed to get leaderboards. (Channel got disconnected on LoadEntries)"
    );
    let (st, _) = load_step(st, false, LoadReply::Pending);
    assert_eq!(load_state_text_of(&st), "Use Steam version of the game for leaderboards");
    let (st, _) = load_step(LoadState::WaitingForLeaderboard, true, LoadReply::Failure("busy".to_string()));
    assert!(matches!(st, LoadState::Failed(LeaderboardLoadError::SteamError(Op::FindLeaderboard, _))));
    let (st, _) = load_step(LoadState::WaitingForLeaderboard, true, LoadReply::NotFound);
    assert!(matches!(st, LoadState::Failed(LeaderboardLoadError::FailedToFindLeaderboard)));
    assert_eq!(load_state_text_of(&LoadState::DownloadingEntries), "Loading...");
    assert_eq!(load_state_text_of(&LoadState::Loaded(points())), "");
    assert_eq!(
        LeaderboardLoadError::SteamError(Op::FindLeaderboard, "busy".to_string()).to_string(),
        "Error calling Steam on FindLeaderboard: busy"
    );
    assert_eq!(leaderboard_name("identity"), "level_identity");
}

#[test]
fn friends_board_layout() {
    assert_eq!(friend_layout(3, 20), (2, 3, false));
    assert_eq!(friend_layout(6, 20), (2, 6, false));
    assert_eq!(friend_layout(7, 20), (1, 7, false));
    assert_eq!(friend_layout(15, 20), (1, 14, true));
    assert_eq!(friend_layout(0, 6), (1, 0, false));
}
