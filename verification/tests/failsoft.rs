use leaderboard::{raids, rank, rank_fetched, titles, Amount, Category, UnrankedEntry};

fn fetched_rows() -> Vec<UnrankedEntry> {
    vec![
        UnrankedEntry::new("Bob".to_string(), Amount::from_integer(50)),
        UnrankedEntry::new("Alice".to_string(), Amount::from_integer(100)),
    ]
}

#[test]
fn titles_ranks_what_was_fetched() {
    let fetched: Result<Vec<UnrankedEntry>, String> = Ok(fetched_rows());
    let out = titles(fetched);
    assert_eq!(out.category, Category::Titles);
    assert_eq!(out.failure, None);
    assert_eq!(out.entries, rank(&fetched_rows()));
    assert_eq!(out.entries.len(), 2);
    assert_eq!(out.entries[0].display_name, "Alice");
    assert_eq!(out.entries[0].standing, 1);
    assert_eq!(out.entries[1].display_name, "Bob");
    assert_eq!(out.entries[1].standing, 2);
}

#[test]
fn raids_ranks_what_was_fetched() {
    let fetched: Result<Vec<UnrankedEntry>, String> = Ok(fetched_rows());
    let out = raids(fetched);
    assert_eq!(out.category, Category::Raids);
    assert_eq!(out.failure, None);
    assert_eq!(out.entries, rank(&fetched_rows()));
}

#[test]
fn a_failed_titles_fetch_gives_an_empty_board_and_one_failure() {
    let fetched: Result<Vec<UnrankedEntry>, String> = Err("connection refused".to_string());
    let out = titles(fetched);
    assert_eq!(out.category, Category::Titles);
    assert!(out.entries.is_empty());
    assert_eq!(out.failure, Some("connection refused".to_string()));
}

#[test]
fn a_failed_raids_fetch_gives_an_empty_board_and_one_failure() {
    let fetched: Result<Vec<UnrankedEntry>, u32> = Err(1045);
    let out = raids(fetched);
    assert_eq!(out.category, Category::Raids);
    assert!(out.entries.is_empty());
    assert_eq!(out.failure, Some(1045));
}

#[test]
fn an_empty_fetch_is_no_failure() {
    let fetched: Result<Vec<UnrankedEntry>, String> = Ok(Vec::new());
    let out = titles(fetched);
    assert!(out.entries.is_empty());
    assert_eq!(out.failure, None);
}

#[test]
fn the_failure_is_handed_to_a_sink_exactly_once() {
    let mut sink: Vec<String> = Vec::new();
    let attempts: Vec<Result<Vec<UnrankedEntry>, String>> =
        vec![Ok(fetched_rows()), Err("timeout".to_string()), Ok(Vec::new())];
    let mut boards = Vec::new();
    for fetched in attempts {
        let out = rank_fetched(Category::Raids, fetched);
        if let Some(failure) = out.failure {
            sink.push(failure);
        }
        boards.push(out.entries);
    }
    assert_eq!(sink, vec!["timeout".to_string()]);
    assert_eq!(boards[0].len(), 2);
    assert!(boards[1].is_empty());
    assert!(boards[2].is_empty());
}
