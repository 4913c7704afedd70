use wiki_crawler::error::{FetchError, SearchError};
use wiki_crawler::search::{Opening, RoundOutcome, Search};
use wiki_crawler::table::LinkTable;

fn table_of(pages: &[(&str, &[&str])]) -> LinkTable {
    let mut table = LinkTable::new();
    for (title, links) in pages {
        table.set_page(title.to_string(), links.iter().map(|l| l.to_string()).collect());
    }
    table
}

fn find(table: &LinkTable, start: &str, target: &str) -> Result<Vec<String>, SearchError> {
    table.find_path(start, target)
}

/// The search on `table` with `workers` workers that take their titles together and report
/// in the order in which they took them.
fn find_with_workers(
    table: &LinkTable,
    start: &str,
    target: &str,
    workers: usize,
) -> Result<Vec<String>, SearchError> {
    let mut search = match Search::begin(start.to_string(), target.to_string()) {
        Opening::Trivial(path) => return Ok(path),
        Opening::Search(search) => search,
    };
    loop {
        let mut taken = Vec::new();
        for _ in 0..workers {
            if let Some(title) = search.acquire() {
                taken.push(title);
            }
        }
        for title in &taken {
            search.record(title, &table.links_of(title));
        }
        if taken.is_empty() {
            if let RoundOutcome::Done(result) = search.end_round() {
                return result;
            }
        }
    }
}

const GRID: &[(&str, &[&str])] = &[
    ("a1", &["a2", "b1"]),
    ("a2", &["a3", "b2", "a1"]),
    ("a3", &["b3", "a2"]),
    ("b1", &["b2", "c1", "a1"]),
    ("b2", &["b3", "c2", "b1", "a2"]),
    ("b3", &["c3", "b2"]),
    ("c1", &["c2", "b1"]),
    ("c2", &["c3", "c1"]),
    ("c3", &[]),
    ("island", &["c3"]),
];

#[test]
fn table_gives_the_links_of_a_page() {
    let table = table_of(&[("A", &["B", "C", "B"]), ("B", &[])]);
    assert_eq!(table.links_of("A").unwrap(), ["B", "C", "B"]);
    assert!(table.links_of("B").unwrap().is_empty());
    assert!(matches!(table.links_of("C"), Err(FetchError::Status(404))));
}

#[test]
fn later_page_replaces_the_earlier() {
    let mut table = table_of(&[("A", &["B"]), ("B", &["T"])]);
    assert_eq!(find(&table, "A", "T").unwrap(), ["A", "B", "T"]);
    table.set_page("A".to_string(), vec!["T".to_string()]);
    assert_eq!(table.links_of("A").unwrap(), ["T"]);
    assert_eq!(find(&table, "A", "T").unwrap(), ["A", "T"]);
}

#[test]
fn path_in_a_table_is_a_shortest_one() {
    let table = table_of(GRID);
    let path = find(&table, "a1", "c3").unwrap();
    assert_eq!(path.len(), 5);
    assert_eq!(path[0], "a1");
    assert_eq!(path[4], "c3");
    for pair in path.windows(2) {
        assert!(table.links_of(&pair[0]).unwrap().contains(&pair[1]));
    }
    assert_eq!(find(&table, "a1", "a2").unwrap(), ["a1", "a2"]);
    assert_eq!(find(&table, "b2", "b2").unwrap(), ["b2"]);
    assert_eq!(find(&table, "island", "c3").unwrap(), ["island", "c3"]);
}

#[test]
fn path_to_an_unreachable_title_is_exhausted() {
    let table = table_of(GRID);
    assert!(matches!(find(&table, "a1", "island"), Err(SearchError::Exhausted)));
    assert!(matches!(find(&table, "c3", "a1"), Err(SearchError::Exhausted)));
    assert!(matches!(find(&table, "nowhere", "a1"), Err(SearchError::Exhausted)));
    assert!(matches!(find(&LinkTable::new(), "A", "B"), Err(SearchError::Exhausted)));
}

#[test]
fn any_number_of_workers_finds_a_path_of_the_same_length() {
    let table = table_of(GRID);
    let titles: Vec<&str> = GRID.iter().map(|(title, _)| *title).collect();
    for start in &titles {
        for target in &titles {
            let expected = find(&table, start, target);
            for workers in 1..=4 {
                let found = find_with_workers(&table, start, target, workers);
                match (&expected, &found) {
                    (Ok(a), Ok(b)) => {
                        assert_eq!(a.len(), b.len());
                        assert_eq!(b.first().unwrap(), start);
                        assert_eq!(b.last().unwrap(), target);
                        for pair in b.windows(2) {
                            assert!(table.links_of(&pair[0]).unwrap().contains(&pair[1]));
                        }
                    }
                    (Err(SearchError::Exhausted), Err(SearchError::Exhausted)) => {}
                    other => panic!("from {start} to {target} with {workers} workers: {other:?}"),
                }
            }
        }
    }
}
