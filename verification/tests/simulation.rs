use gridwalk::state::{Coord, MazeState, SimError, H, W};
use gridwalk::sim::run_transcript;
use rand::SeedableRng;

fn fresh_rng() -> rand::rngs::StdRng {
    rand::rngs::StdRng::seed_from_u64(0)
}

fn state_at(x: i64, y: i64, points: Vec<u64>) -> MazeState {
    MazeState {
        points,
        tern: 0,
        rng: fresh_rng(),
        coord: Coord { x, y },
        game_score: 0,
    }
}

#[test]
fn init_start_cell_zero_and_values_bounded() {
    for seed in [0u64, 1, 7, 100, 987654321] {
        let st = MazeState::new(seed);
        assert_eq!(st.points.len(), (W * H) as usize);
        for &v in &st.points {
            assert!(v < 10);
        }
        assert!(st.coord.x >= 0 && st.coord.x < W);
        assert!(st.coord.y >= 0 && st.coord.y < H);
        let start = (st.coord.x * H + st.coord.y) as usize;
        assert_eq!(st.points[start], 0);
        assert_eq!(st.tern, 0);
        assert_eq!(st.game_score, 0);
    }
}

#[test]
fn turn_counter_reaches_end_and_is_done() {
    let mut st = MazeState::new(100);
    for turn in 0..4u64 {
        assert!(!st.is_done());
        assert_eq!(st.tern, turn);
        let a = st.random_action();
        assert!(st.advance(a).is_ok());
    }
    assert!(st.is_done());
    assert_eq!(st.tern, 4);
}

#[test]
fn score_monotone_and_no_double_collection() {
    for seed in [3u64, 100, 555] {
        let mut st = MazeState::new(seed);
        let mut last_score = 0u64;
        while !st.is_done() {
            let a = st.random_action();
            let before = st.points[(st.coord.x * H + st.coord.y) as usize];
            assert_eq!(before, 0, "the cell the agent stands on was collected");
            assert!(st.advance(a).is_ok());
            assert!(st.game_score >= last_score);
            last_score = st.game_score;
            let here = (st.coord.x * H + st.coord.y) as usize;
            assert_eq!(st.points[here], 0, "an entered cell reads 0 afterwards");
        }
    }
}

#[test]
fn legal_actions_are_legal_and_ordered() {
    let dx: [i64; 4] = [1, -1, 0, 0];
    let dy: [i64; 4] = [0, 0, 1, -1];
    for seed in [2u64, 100, 31415] {
        let mut st = MazeState::new(seed);
        while !st.is_done() {
            let actions = st.legal_actions();
            assert!(!actions.is_empty() && actions.len() <= 4);
            for w in actions.windows(2) {
                assert!(w[0] < w[1], "enumeration order is preserved");
            }
            for &a in &actions {
                let tx = st.coord.x + dx[a];
                let ty = st.coord.y + dy[a];
                assert!(tx >= 0 && tx < W && ty >= 0 && ty < H);
            }
            let a = st.random_action();
            assert!(actions.contains(&a));
            assert!(st.advance(a).is_ok());
        }
    }
}

#[test]
fn same_seed_gives_identical_output() {
    let first = run_transcript(100);
    let second = run_transcript(100);
    assert_eq!(first, second);
}

#[test]
fn transcript_renders_every_turn() {
    let out = run_transcript(100);
    let text = String::from_utf8(out).expect("renders are ASCII");
    let lines: Vec<&str> = text.lines().collect();
    // 5 renders of 2 header lines + 4 grid rows each.
    assert_eq!(lines.len(), 5 * 6);
    for t in 0..5 {
        assert_eq!(lines[t * 6], format!("tern: {}", t));
        assert!(lines[t * 6 + 1].starts_with("score: "));
    }
}

#[test]
fn first_render_has_one_agent_and_digit_cells() {
    let st = MazeState::new(100);
    let out = st.render();
    let text = String::from_utf8(out).expect("renders are ASCII");
    let lines: Vec<&str> = text.lines().collect();
    assert_eq!(lines.len(), 6);
    assert_eq!(lines[0], "tern: 0");
    assert_eq!(lines[1], "score: 0");
    let mut agents = 0;
    let mut others = 0;
    for row in &lines[2..] {
        assert_eq!(row.len(), H as usize);
        for c in row.chars() {
            if c == '@' {
                agents += 1;
            } else {
                assert!(c == '.' || c.is_ascii_digit());
                others += 1;
            }
        }
    }
    assert_eq!(agents, 1);
    assert_eq!(others, (W * H - 1) as usize);
}

#[test]
fn corner_has_exactly_two_legal_actions() {
    let st = state_at(0, 0, vec![0, 1, 2, 3, 4, 5, 6, 7, 8, 9, 1, 2]);
    assert_eq!(st.legal_actions(), vec![0, 2]);
}

#[test]
fn advance_rejects_illegal_actions() {
    let mut st = state_at(0, 0, vec![0; 12]);
    assert_eq!(st.advance(1), Err(SimError::InvalidAction));
    assert_eq!(st.advance(3), Err(SimError::InvalidAction));
    assert_eq!(st.advance(9), Err(SimError::InvalidAction));
    assert_eq!(st.coord.x, 0);
    assert_eq!(st.coord.y, 0);
    assert_eq!(st.tern, 0);
    assert_eq!(st.game_score, 0);
}

#[test]
fn advance_collects_and_zeroes_the_entered_cell() {
    // Row-major grid: cell (x, y) at index x * H + y.
    let mut st = state_at(0, 0, vec![0, 2, 0, 7, 0, 0, 0, 0, 0, 0, 0, 0]);
    assert!(st.advance(0).is_ok()); // +x to (1, 0), worth 7
    assert_eq!(st.game_score, 7);
    assert_eq!(st.points[3], 0);
    assert_eq!((st.coord.x, st.coord.y), (1, 0));
    assert!(st.advance(1).is_ok()); // -x back to (0, 0), worth 0
    assert_eq!(st.game_score, 7);
    assert!(st.advance(0).is_ok()); // +x to (1, 0) again: no double collection
    assert_eq!(st.game_score, 7);
    assert_eq!(st.tern, 3);
}

#[test]
fn render_matches_expected_text_exactly() {
    let mut st = state_at(1, 0, vec![1, 2, 3, 0, 5, 6, 7, 8, 9, 0, 0, 4]);
    st.tern = 3;
    st.game_score = 27;
    let out = st.render();
    let text = String::from_utf8(out).expect("renders are ASCII");
    assert_eq!(text, "tern: 3\nscore: 27\n123\n@56\n789\n..4\n");
}
