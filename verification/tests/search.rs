use wiki_crawler::error::{FetchError, SearchError};
use wiki_crawler::search::{Opening, Recorded, RoundOutcome, Search};
use wiki_crawler::titles::KEVIN_BACON;

const FOOTLOOSE: &str = "Footloose (1984 film)";
const FRIDAY_THE_13TH: &str = "Friday the 13th (1980 film)";
const CITY_ON_A_HILL: &str = "City on a Hill (TV series)";
const AMANDA_CLAYTON: &str = "Amanda Clayton";
const HERBERT_ROSS: &str = "Herbert Ross";
const CLINT_EASTWOOD: &str = "Clint Eastwood";
const CURTIS_HANSON: &str = "Curtis Hanson";
const THE_BET: &str = "The Bet (2016 film)";
const KATEY_SAGAL: &str = "Katey Sagal";
const KYRA_SEDGWICK: &str = "Kyra Sedgwick";

/// A cut of the encyclopedia around the target, as pairs of a title and its links.
fn encyclopedia() -> Vec<(&'static str, Vec<&'static str>)> {
    vec![
        (FOOTLOOSE, vec![HERBERT_ROSS, KEVIN_BACON]),
        (FRIDAY_THE_13TH, vec!["Camp Crystal Lake", KEVIN_BACON]),
        (CITY_ON_A_HILL, vec![AMANDA_CLAYTON, KEVIN_BACON]),
        (AMANDA_CLAYTON, vec![KATEY_SAGAL, CITY_ON_A_HILL, THE_BET]),
        (KATEY_SAGAL, vec![KYRA_SEDGWICK]),
        (KYRA_SEDGWICK, vec![KEVIN_BACON]),
        (HERBERT_ROSS, vec![CLINT_EASTWOOD, CURTIS_HANSON]),
        (CLINT_EASTWOOD, vec![KEVIN_BACON]),
        (CURTIS_HANSON, vec![KEVIN_BACON]),
        (THE_BET, vec![AMANDA_CLAYTON]),
        (KEVIN_BACON, vec![FOOTLOOSE, KYRA_SEDGWICK]),
    ]
}

fn links_of(
    graph: &[(&str, Vec<&str>)],
    failing: &[&str],
    title: &str,
) -> Result<Vec<String>, FetchError> {
    if failing.contains(&title) {
        return Err(FetchError::Request(format!("timed out for {title}")));
    }
    for (from, links) in graph {
        if *from == title {
            return Ok(links.iter().map(|l| l.to_string()).collect());
        }
    }
    Err(FetchError::Status(404))
}

/// Runs a search with `workers` workers that take their titles together and report in the
/// reverse order. Gives the result and the frontier of every round, the first included.
fn run(
    graph: &[(&str, Vec<&str>)],
    failing: &[&str],
    start: &str,
    target: &str,
    workers: usize,
) -> (Result<Vec<String>, SearchError>, Vec<Vec<String>>) {
    let mut search = match Search::begin(start.to_string(), target.to_string()) {
        Opening::Trivial(path) => return (Ok(path), Vec::new()),
        Opening::Search(search) => search,
    };
    let mut rounds = vec![search.frontier().to_vec()];
    loop {
        let mut taken = Vec::new();
        for _ in 0..workers {
            if let Some(title) = search.acquire() {
                taken.push(title);
            }
        }
        if taken.is_empty() {
            match search.end_round() {
                RoundOutcome::Done(result) => return (result, rounds),
                RoundOutcome::Continue => {
                    assert_eq!(search.round(), rounds.len());
                    rounds.push(search.frontier().to_vec());
                }
                RoundOutcome::Pending => panic!("a round with nothing in flight is not pending"),
            }
        }
        while let Some(title) = taken.pop() {
            let fetched = links_of(graph, failing, &title);
            assert_ne!(search.record(&title, &fetched), Recorded::Refused);
        }
    }
}

fn crawl(start: &str) -> Result<Vec<String>, SearchError> {
    run(&encyclopedia(), &[], start, KEVIN_BACON, 5).0
}

#[test]
fn starting_at_kevin_bacon() {
    assert_eq!(crawl(KEVIN_BACON).unwrap(), vec![KEVIN_BACON]);
}

#[test]
fn one_hop_1() {
    assert_eq!(crawl(FOOTLOOSE).unwrap(), vec![FOOTLOOSE, KEVIN_BACON]);
}

#[test]
fn one_hop_2() {
    assert_eq!(crawl(FRIDAY_THE_13TH).unwrap(), vec![FRIDAY_THE_13TH, KEVIN_BACON]);
}

#[test]
fn one_hop_3() {
    assert_eq!(crawl(CITY_ON_A_HILL).unwrap(), vec![CITY_ON_A_HILL, KEVIN_BACON]);
}

#[test]
fn two_hops_1() {
    assert_eq!(
        crawl(AMANDA_CLAYTON).unwrap(),
        vec![AMANDA_CLAYTON, CITY_ON_A_HILL, KEVIN_BACON]
    );
}

#[test]
fn two_hops_2() {
    let result = crawl(HERBERT_ROSS).unwrap();
    assert!(
        result == vec![HERBERT_ROSS, CURTIS_HANSON, KEVIN_BACON]
            || result == vec![HERBERT_ROSS, CLINT_EASTWOOD, KEVIN_BACON]
    );
}

#[test]
fn three_hops() {
    assert_eq!(
        crawl(THE_BET).unwrap(),
        vec![THE_BET, AMANDA_CLAYTON, CITY_ON_A_HILL, KEVIN_BACON]
    );
}

#[test]
fn self_path_needs_no_search() {
    for title in ["", "A", KEVIN_BACON, "not an article at all"] {
        match Search::begin(title.to_string(), title.to_string()) {
            Opening::Trivial(path) => assert_eq!(path, vec![title.to_string()]),
            Opening::Search(_) => panic!("a search was set up for a path of one title"),
        }
    }
}

#[test]
fn begin_seeds_the_frontier_with_the_start() {
    let Opening::Search(search) = Search::begin("A".to_string(), "B".to_string()) else {
        panic!("a search from A for B is not trivial");
    };
    assert_eq!(search.start(), "A");
    assert_eq!(search.target(), "B");
    assert_eq!(search.frontier().to_vec(), vec!["A"]);
    assert!(search.next_frontier().is_empty());
    assert_eq!(search.in_flight(), 0);
    assert_eq!(search.round(), 0);
    assert!(!search.is_stopped());
    assert_eq!(search.discovered().len(), 0);
}

/// Two shortest paths of two links and a longer one of three.
fn diamond() -> Vec<(&'static str, Vec<&'static str>)> {
    vec![
        ("S", vec!["L", "A", "B"]),
        ("L", vec!["M"]),
        ("M", vec!["T"]),
        ("A", vec!["T"]),
        ("B", vec!["T"]),
    ]
}

#[test]
fn shortest_of_several_paths() {
    for workers in 1..=4 {
        let (result, _) = run(&diamond(), &[], "S", "T", workers);
        let path = result.unwrap();
        assert_eq!(path.len(), 3);
        assert_eq!(path[0], "S");
        assert_eq!(path[2], "T");
        assert!(path[1] == "A" || path[1] == "B");
    }
}

#[test]
fn unordered_reports_do_not_lengthen_the_path() {
    // The worker on the long branch takes its title first and reports last.
    let graph = vec![
        ("S", vec!["X1", "Y"]),
        ("X1", vec!["X2"]),
        ("X2", vec!["X3"]),
        ("X3", vec!["T"]),
        ("Y", vec!["Z"]),
        ("Z", vec!["T"]),
    ];
    for workers in 1..=3 {
        let (result, _) = run(&graph, &[], "S", "T", workers);
        assert_eq!(result.unwrap(), vec!["S", "Y", "Z", "T"]);
    }
}

#[test]
fn every_frontier_is_one_level() {
    let graph = vec![
        ("S", vec!["A", "B"]),
        ("A", vec!["B", "C", "S"]),
        ("B", vec!["D", "A"]),
        ("C", vec!["E"]),
        ("D", vec!["E", "F"]),
        ("E", vec!["G"]),
        ("F", vec!["G", "S"]),
        ("G", vec!["T"]),
    ];
    for workers in 1..=3 {
        let (result, rounds) = run(&graph, &[], "S", "T", workers);
        assert_eq!(result.unwrap().len(), 6);
        assert_eq!(rounds.len(), 5);
        assert_eq!(rounds[0], vec!["S"]);
        let mut level = rounds[1].clone();
        level.sort();
        assert_eq!(level, vec!["A", "B"]);
        // The start comes back once, from the page of A that links to it.
        let mut level = rounds[2].clone();
        level.sort();
        assert_eq!(level, vec!["C", "D", "S"]);
        let mut level = rounds[3].clone();
        level.sort();
        assert_eq!(level, vec!["E", "F"]);
        assert_eq!(rounds[4], vec!["G"]);
    }
}

#[test]
fn failed_fetch_is_passed_over() {
    let graph = vec![
        ("S", vec!["A", "B"]),
        ("A", vec!["T"]),
        ("B", vec!["C"]),
        ("C", vec!["T"]),
    ];
    let (result, _) = run(&graph, &["A"], "S", "T", 2);
    assert_eq!(result.unwrap(), vec!["S", "B", "C", "T"]);
    let (result, _) = run(&graph, &[], "S", "T", 2);
    assert_eq!(result.unwrap(), vec!["S", "A", "T"]);
}

#[test]
fn failed_report_changes_nothing_but_the_flight() {
    let Opening::Search(mut search) = Search::begin("S".to_string(), "T".to_string()) else {
        panic!("a search from S for T is not trivial");
    };
    let title = search.acquire().unwrap();
    assert_eq!(search.in_flight(), 1);
    let outcome = search.record(&title, &Err(FetchError::Status(503)));
    assert_eq!(outcome, Recorded::Passed);
    assert_eq!(search.in_flight(), 0);
    assert_eq!(search.discovered().len(), 0);
    assert!(search.next_frontier().is_empty());
    assert!(!search.is_stopped());
}

#[test]
fn disconnected_graph_is_exhausted() {
    let graph = vec![("S", vec!["A", "B"]), ("A", vec!["B", "S"]), ("B", vec![]), ("U", vec!["T"])];
    for workers in 1..=3 {
        let (result, rounds) = run(&graph, &[], "S", "T", workers);
        assert!(matches!(result, Err(SearchError::Exhausted)));
        assert_eq!(rounds.len(), 3);
    }
}

#[test]
fn start_without_links_is_exhausted_at_once() {
    let (result, rounds) = run(&[], &[], "S", "T", 1);
    assert!(matches!(result, Err(SearchError::Exhausted)));
    assert_eq!(rounds.len(), 1);
}

#[test]
fn round_is_pending_while_a_title_is_in_flight() {
    let Opening::Search(mut search) = Search::begin("S".to_string(), "T".to_string()) else {
        panic!("a search from S for T is not trivial");
    };
    // Not drained.
    assert!(matches!(search.end_round(), RoundOutcome::Pending));
    let title = search.acquire().unwrap();
    assert_eq!(title, "S");
    assert!(search.acquire().is_none());
    // Drained, but the title is in flight.
    assert!(matches!(search.end_round(), RoundOutcome::Pending));
    assert_eq!(search.round(), 0);
    let links = Ok(vec!["A".to_string(), "A".to_string(), "B".to_string()]);
    assert_eq!(search.record(&title, &links), Recorded::Expanded);
    assert_eq!(search.next_frontier().to_vec(), vec!["A", "B"]);
    assert!(matches!(search.end_round(), RoundOutcome::Continue));
    assert_eq!(search.round(), 1);
    assert_eq!(search.frontier().to_vec(), vec!["A", "B"]);
    assert!(search.next_frontier().is_empty());
}

#[test]
fn report_on_a_title_not_in_flight_is_refused() {
    let Opening::Search(mut search) = Search::begin("S".to_string(), "T".to_string()) else {
        panic!("a search from S for T is not trivial");
    };
    let links = Ok(vec!["T".to_string()]);
    assert_eq!(search.record("S", &links), Recorded::Refused);
    assert!(!search.is_stopped());
    assert_eq!(search.discovered().len(), 0);
    let title = search.acquire().unwrap();
    assert_eq!(search.record("X", &links), Recorded::Refused);
    assert_eq!(search.record(&title, &links), Recorded::Found);
    assert_eq!(search.record(&title, &links), Recorded::Refused);
}

#[test]
fn target_stops_the_search_and_drops_the_rest() {
    let Opening::Search(mut search) = Search::begin("S".to_string(), "T".to_string()) else {
        panic!("a search from S for T is not trivial");
    };
    let title = search.acquire().unwrap();
    let links = Ok(vec!["A".to_string(), "T".to_string(), "B".to_string()]);
    assert_eq!(search.record(&title, &links), Recorded::Found);
    assert!(search.is_stopped());
    assert!(search.discovered().contains("A"));
    assert!(search.discovered().contains("T"));
    assert!(!search.discovered().contains("B"));
    assert_eq!(search.next_frontier().to_vec(), vec!["A"]);
    assert!(search.acquire().is_none());
    match search.end_round() {
        RoundOutcome::Done(result) => assert_eq!(result.unwrap(), vec!["S", "T"]),
        _ => panic!("the search is over"),
    }
    assert_eq!(search.round(), 0);
}

#[test]
fn report_after_the_stop_is_still_recorded() {
    let Opening::Search(mut search) = Search::begin("S".to_string(), "T".to_string()) else {
        panic!("a search from S for T is not trivial");
    };
    let start = search.acquire().unwrap();
    search.record(&start, &Ok(vec!["A".to_string(), "B".to_string()]));
    assert!(matches!(search.end_round(), RoundOutcome::Continue));
    let a = search.acquire().unwrap();
    let b = search.acquire().unwrap();
    assert_eq!(search.record(&b, &Ok(vec!["T".to_string()])), Recorded::Found);
    // The search has stopped, the round has not: A is in flight.
    assert!(matches!(search.end_round(), RoundOutcome::Pending));
    let late = Ok(vec!["T".to_string(), "C".to_string()]);
    assert_eq!(search.record(&a, &late), Recorded::Expanded);
    assert!(search.discovered().contains("C"));
    assert_eq!(search.discovered().parent_of("T").unwrap(), "B");
    match search.end_round() {
        RoundOutcome::Done(result) => assert_eq!(result.unwrap(), vec!["S", "B", "T"]),
        _ => panic!("the search is over"),
    }
}
