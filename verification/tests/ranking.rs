use leaderboard::{
    percent_distance, percent_ranking, rank, Amount, LeaderboardEntryResult, Percent,
    UnrankedEntry,
};

fn row(name: &str, units: i128) -> UnrankedEntry {
    UnrankedEntry::new(name.to_string(), Amount::from_integer(units))
}

fn decimal_row(name: &str, unscaled: i128, scale: i64) -> UnrankedEntry {
    UnrankedEntry::new(name.to_string(), Amount::new(unscaled, scale))
}

fn as_number(a: &Amount) -> f64 {
    a.unscaled as f64 / 10f64.powi(a.scale as i32)
}

fn as_percent(p: &Percent) -> f64 {
    as_number(&p.part) / as_number(&p.whole) * 100.0
}

fn names(board: &[LeaderboardEntryResult]) -> Vec<String> {
    let mut out = Vec::new();
    for entry in board {
        out.push(entry.display_name.clone());
    }
    out
}

fn close(x: f64, y: f64) -> bool {
    (x - y).abs() < 0.05
}

#[test]
fn three_members_are_ranked_with_their_percentages() {
    let board = rank(&vec![row("Alice", 100), row("Bob", 50), row("Cara", 25)]);
    assert_eq!(board.len(), 3);

    assert_eq!(board[0].display_name, "Alice");
    assert_eq!(board[0].amount, Amount::from_integer(100));
    assert_eq!(board[0].standing, 1);
    assert_eq!(as_percent(&board[0].percent_distance), 100.0);
    assert_eq!(as_percent(&board[0].percent_ranking), 100.0);

    assert_eq!(board[1].display_name, "Bob");
    assert_eq!(board[1].amount, Amount::from_integer(50));
    assert_eq!(board[1].standing, 2);
    assert_eq!(as_percent(&board[1].percent_distance), 50.0);
    assert!(close(as_percent(&board[1].percent_ranking), 66.7));

    assert_eq!(board[2].display_name, "Cara");
    assert_eq!(board[2].amount, Amount::from_integer(25));
    assert_eq!(board[2].standing, 3);
    assert_eq!(as_percent(&board[2].percent_distance), 25.0);
    assert!(close(as_percent(&board[2].percent_ranking), 33.3));
}

#[test]
fn percentages_are_held_as_exact_ratios() {
    let board = rank(&vec![row("Alice", 100), row("Bob", 50), row("Cara", 25)]);
    let top = Amount::from_integer(100);
    let three = Amount::from_integer(3);
    assert_eq!(board[0].percent_distance, Percent { part: top, whole: top });
    assert_eq!(board[1].percent_distance, Percent { part: Amount::from_integer(50), whole: top });
    assert_eq!(board[2].percent_distance, Percent { part: Amount::from_integer(25), whole: top });
    assert_eq!(board[0].percent_ranking, Percent { part: three, whole: three });
    assert_eq!(board[1].percent_ranking, Percent { part: Amount::from_integer(2), whole: three });
    assert_eq!(board[2].percent_ranking, Percent { part: Amount::from_integer(1), whole: three });
}

#[test]
fn no_entries_give_an_empty_board() {
    let board = rank(&Vec::new());
    assert!(board.is_empty());
}

#[test]
fn a_tie_keeps_the_input_order() {
    let board = rank(&vec![row("Alice", 10), row("Bob", 10)]);
    assert_eq!(board.len(), 2);
    assert_eq!(board[0].display_name, "Alice");
    assert_eq!(board[0].standing, 1);
    assert_eq!(board[1].display_name, "Bob");
    assert_eq!(board[1].standing, 2);
    assert_eq!(as_percent(&board[0].percent_distance), 100.0);
    assert_eq!(as_percent(&board[1].percent_distance), 100.0);
    assert_eq!(as_percent(&board[0].percent_ranking), 100.0);
    assert_eq!(as_percent(&board[1].percent_ranking), 50.0);

    let other_way = rank(&vec![row("Bob", 10), row("Alice", 10)]);
    assert_eq!(names(&other_way), vec!["Bob", "Alice"]);
}

#[test]
fn unsorted_input_is_sorted_from_the_highest_down() {
    let board = rank(&vec![
        row("d", 4),
        row("a", 9),
        row("f", 1),
        row("b", 7),
        row("g", 0),
        row("c", 5),
        row("e", 3),
    ]);
    assert_eq!(names(&board), vec!["a", "b", "c", "d", "e", "f", "g"]);
    for pair in board.windows(2) {
        assert!(pair[1].amount.le(&pair[0].amount));
    }
}

#[test]
fn standings_count_from_one_without_gaps() {
    let board = rank(&vec![row("a", 5), row("b", 5), row("c", 9), row("d", 1), row("e", 5)]);
    assert_eq!(board.len(), 5);
    for (i, entry) in board.iter().enumerate() {
        assert_eq!(entry.standing, i as u64 + 1);
    }
}

#[test]
fn ties_among_many_keep_the_input_order() {
    let board = rank(&vec![
        row("first five", 5),
        row("one", 1),
        row("second five", 5),
        row("nine", 9),
        row("third five", 5),
        row("second one", 1),
        row("second nine", 9),
    ]);
    assert_eq!(
        names(&board),
        vec![
            "nine",
            "second nine",
            "first five",
            "second five",
            "third five",
            "one",
            "second one"
        ]
    );
}

#[test]
fn equal_values_of_different_scale_are_a_tie() {
    let board =
        rank(&vec![decimal_row("late", 5, 1), decimal_row("a", 10, 1), decimal_row("b", 1, 0)]);
    assert_eq!(names(&board), vec!["a", "b", "late"]);
    // Each amount comes out as it went in.
    assert_eq!(board[0].amount, Amount::new(10, 1));
    assert_eq!(board[1].amount, Amount::new(1, 0));
    assert_eq!(board[2].amount, Amount::new(5, 1));
    assert_eq!(as_percent(&board[0].percent_distance), 100.0);
    assert_eq!(as_percent(&board[1].percent_distance), 100.0);
    assert_eq!(as_percent(&board[2].percent_distance), 50.0);
}

#[test]
fn fractional_amounts_are_ranked_by_value() {
    let board = rank(&vec![
        decimal_row("a", 1249, 2),
        decimal_row("b", 125, 1),
        decimal_row("c", 12, 0),
        decimal_row("d", 2, -1),
    ]);
    assert_eq!(names(&board), vec!["d", "b", "a", "c"]);
    assert_eq!(as_percent(&board[0].percent_distance), 100.0);
    assert!(close(as_percent(&board[1].percent_distance), 62.5));
    assert!(close(as_percent(&board[2].percent_distance), 62.45));
    assert!(close(as_percent(&board[3].percent_distance), 60.0));
}

#[test]
fn the_leader_stands_at_a_hundred_percent() {
    let inputs = vec![
        vec![row("only", 7)],
        vec![row("a", 1), row("b", 2)],
        vec![row("a", 3), row("b", 3), row("c", 3)],
        vec![decimal_row("a", 5, 3), decimal_row("b", 4, 3)],
        vec![row("nothing", 0)],
        vec![row("nothing", 0), row("less", -4)],
    ];
    for entries in inputs {
        let board = rank(&entries);
        assert_eq!(board[0].standing, 1);
        assert_eq!(as_percent(&board[0].percent_distance), 100.0);
        assert_eq!(as_percent(&board[0].percent_ranking), 100.0);
    }
}

#[test]
fn percentages_never_rise_down_the_board() {
    let board = rank(&vec![
        row("a", 40),
        row("b", 100),
        row("c", 0),
        row("d", 40),
        row("e", 99),
        row("f", 1),
    ]);
    for pair in board.windows(2) {
        assert!(as_percent(&pair[0].percent_distance) >= as_percent(&pair[1].percent_distance));
        assert!(as_percent(&pair[0].percent_ranking) > as_percent(&pair[1].percent_ranking));
    }
    for entry in &board {
        let distance = as_percent(&entry.percent_distance);
        let ranking = as_percent(&entry.percent_ranking);
        assert!(0.0 <= distance && distance <= 100.0);
        assert!(0.0 < ranking && ranking <= 100.0);
    }
}

#[test]
fn the_board_is_as_long_as_the_input() {
    for n in 0..40 {
        let mut entries = Vec::new();
        for i in 0..n {
            entries.push(row("member", (i * 7) % 5));
        }
        assert_eq!(rank(&entries).len(), n as usize);
    }
}

#[test]
fn the_last_entry_has_the_smallest_percentile() {
    let board = rank(&vec![row("a", 4), row("b", 3), row("c", 2), row("d", 1)]);
    assert_eq!(as_percent(&board[0].percent_ranking), 100.0);
    assert_eq!(as_percent(&board[1].percent_ranking), 75.0);
    assert_eq!(as_percent(&board[2].percent_ranking), 50.0);
    assert_eq!(as_percent(&board[3].percent_ranking), 25.0);
}

#[test]
fn when_nobody_has_anything_everyone_is_level_with_the_leader() {
    let board = rank(&vec![row("a", 0), row("b", 0), decimal_row("c", 0, 2)]);
    assert_eq!(names(&board), vec!["a", "b", "c"]);
    for entry in &board {
        assert_eq!(entry.percent_distance, Percent::full());
        assert_eq!(as_percent(&entry.percent_distance), 100.0);
    }
}

#[test]
fn below_a_leader_at_zero_the_distance_is_zero() {
    let board = rank(&vec![row("debt", -5), row("none", 0), row("more debt", -9)]);
    assert_eq!(names(&board), vec!["none", "debt", "more debt"]);
    assert_eq!(board[0].percent_distance, Percent::full());
    assert_eq!(board[1].percent_distance, Percent::zero());
    assert_eq!(board[2].percent_distance, Percent::zero());
    assert_eq!(as_percent(&board[1].percent_distance), 0.0);
}

#[test]
fn under_a_negative_leader_every_distance_is_zero() {
    let board = rank(&vec![row("a", -3), row("b", -1), row("c", -2)]);
    assert_eq!(names(&board), vec!["b", "c", "a"]);
    for entry in &board {
        assert_eq!(entry.percent_distance, Percent::zero());
    }
    assert_eq!(as_percent(&board[0].percent_ranking), 100.0);
}

#[test]
fn a_negative_amount_under_a_positive_leader_gives_a_negative_distance() {
    let board = rank(&vec![row("debt", -50), row("top", 200)]);
    assert_eq!(names(&board), vec!["top", "debt"]);
    assert_eq!(as_percent(&board[0].percent_distance), 100.0);
    assert_eq!(as_percent(&board[1].percent_distance), -25.0);
}

#[test]
fn a_single_entry_leads() {
    let board = rank(&vec![decimal_row("solo", 123456, 3)]);
    assert_eq!(board.len(), 1);
    assert_eq!(board[0].display_name, "solo");
    assert_eq!(board[0].amount, Amount::new(123456, 3));
    assert_eq!(board[0].standing, 1);
    assert_eq!(as_percent(&board[0].percent_distance), 100.0);
    assert_eq!(as_percent(&board[0].percent_ranking), 100.0);
}

#[test]
fn ranking_leaves_the_input_alone() {
    let entries = vec![row("b", 1), row("a", 2)];
    let copy = entries.clone();
    let _ = rank(&entries);
    assert_eq!(entries, copy);
}

#[test]
fn ranking_twice_gives_the_same_board() {
    let entries = vec![row("x", 3), row("y", 8), row("z", 3), row("w", 8)];
    assert_eq!(rank(&entries), rank(&entries));
}

#[test]
fn a_long_board_is_sorted_and_stable() {
    let mut entries = Vec::new();
    for i in 0..1000i128 {
        entries.push(decimal_row(&format!("m{}", i), (i * 37) % 101, (i % 3) as i64));
    }
    let board = rank(&entries);
    assert_eq!(board.len(), 1000);
    for (i, pair) in board.windows(2).enumerate() {
        assert!(pair[1].amount.le(&pair[0].amount));
        if pair[0].amount.same_value(&pair[1].amount) {
            let first: usize = pair[0].display_name[1..].parse().unwrap();
            let second: usize = pair[1].display_name[1..].parse().unwrap();
            assert!(first < second);
        }
        assert_eq!(pair[0].standing, i as u64 + 1);
    }
}

#[test]
fn distance_of_an_amount_from_the_leader() {
    let top = Amount::from_integer(80);
    assert_eq!(
        percent_distance(Amount::from_integer(20), top),
        Percent { part: Amount::from_integer(20), whole: top }
    );
    assert_eq!(as_percent(&percent_distance(Amount::from_integer(20), top)), 25.0);
    let zero = Amount::from_integer(0);
    assert_eq!(percent_distance(zero, zero), Percent::full());
    assert_eq!(percent_distance(Amount::new(0, 4), zero), Percent::full());
    assert_eq!(percent_distance(Amount::from_integer(-1), zero), Percent::zero());
    assert_eq!(percent_distance(Amount::from_integer(-1), Amount::from_integer(-1)), Percent::zero());
    assert_eq!(percent_distance(zero, top), Percent { part: zero, whole: top });
    assert_eq!(as_percent(&percent_distance(zero, top)), 0.0);
}

#[test]
fn percentile_of_a_position() {
    assert_eq!(
        percent_ranking(0, 1),
        Percent { part: Amount::from_integer(1), whole: Amount::from_integer(1) }
    );
    assert_eq!(
        percent_ranking(1, 3),
        Percent { part: Amount::from_integer(2), whole: Amount::from_integer(3) }
    );
    assert_eq!(as_percent(&percent_ranking(0, 8)), 100.0);
    assert_eq!(as_percent(&percent_ranking(7, 8)), 12.5);
    assert_eq!(as_percent(&percent_ranking(4, 5)), 20.0);
}
