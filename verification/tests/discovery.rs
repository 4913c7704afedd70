use wiki_crawler::discovery::DiscoveryMap;
use wiki_crawler::error::SearchError;
use wiki_crawler::path::reconstruct;
use wiki_crawler::queue::TitleChannel;
use wiki_crawler::signal::StopSignal;

fn map_of(entries: &[(&str, &str)]) -> DiscoveryMap {
    let mut map = DiscoveryMap::new();
    for (child, parent) in entries {
        assert!(map.try_claim(child.to_string(), parent.to_string()));
    }
    map
}

#[test]
fn first_claim_wins() {
    let mut map = DiscoveryMap::new();
    assert!(!map.contains("B"));
    assert!(map.parent_of("B").is_none());
    assert!(map.try_claim("B".to_string(), "A".to_string()));
    assert!(map.contains("B"));
    assert_eq!(map.parent_of("B").unwrap(), "A");
    assert_eq!(map.len(), 1);
    assert!(!map.try_claim("B".to_string(), "C".to_string()));
    assert_eq!(map.parent_of("B").unwrap(), "A");
    assert_eq!(map.len(), 1);
}

#[test]
fn one_of_many_claims_succeeds() {
    let mut map = DiscoveryMap::new();
    let mut granted = Vec::new();
    for worker in 0..8 {
        if map.try_claim("child".to_string(), format!("worker {worker}")) {
            granted.push(worker);
        }
    }
    assert_eq!(granted, vec![0]);
    assert_eq!(map.parent_of("child").unwrap(), "worker 0");
    assert_eq!(map.len(), 1);
}

#[test]
fn claim_of_a_parent_as_child_is_a_new_entry() {
    let mut map = map_of(&[("B", "A")]);
    assert!(!map.contains("A"));
    assert!(map.try_claim("A".to_string(), "B".to_string()));
    assert_eq!(map.parent_of("A").unwrap(), "B");
    assert_eq!(map.parent_of("B").unwrap(), "A");
    assert_eq!(map.len(), 2);
}

#[test]
fn path_is_read_from_target_to_start() {
    let map = map_of(&[("B", "A"), ("C", "B"), ("D", "C"), ("X", "A")]);
    let path = reconstruct(&map, "A", "D").unwrap();
    assert_eq!(path, vec!["A", "B", "C", "D"]);
    let path = reconstruct(&map, "B", "D").unwrap();
    assert_eq!(path, vec!["B", "C", "D"]);
}

#[test]
fn path_from_a_title_to_itself_reads_no_entry() {
    let map = DiscoveryMap::new();
    let path = reconstruct(&map, "A", "A").unwrap();
    assert_eq!(path, vec!["A"]);
    // An entry of the start is not followed.
    let map = map_of(&[("A", "B"), ("B", "A")]);
    let path = reconstruct(&map, "A", "A").unwrap();
    assert_eq!(path, vec!["A"]);
    let path = reconstruct(&map, "A", "B").unwrap();
    assert_eq!(path, vec!["A", "B"]);
}

#[test]
fn path_that_uses_every_entry_is_found() {
    let map = map_of(&[("B", "A"), ("C", "B"), ("D", "C")]);
    let path = reconstruct(&map, "A", "D").unwrap();
    assert_eq!(path.len(), map.len() + 1);
}

#[test]
fn broken_chain_names_the_title_without_parent() {
    let map = map_of(&[("D", "C"), ("C", "B")]);
    match reconstruct(&map, "A", "D") {
        Err(SearchError::MissingParent(title)) => assert_eq!(title, "B"),
        other => panic!("expected a missing parent, got {other:?}"),
    }
    match reconstruct(&DiscoveryMap::new(), "A", "D") {
        Err(SearchError::MissingParent(title)) => assert_eq!(title, "D"),
        other => panic!("expected a missing parent, got {other:?}"),
    }
}

#[test]
fn circular_chain_is_given_up() {
    let map = map_of(&[("D", "C"), ("C", "B"), ("B", "D")]);
    assert!(matches!(
        reconstruct(&map, "A", "D"),
        Err(SearchError::ParentCycle)
    ));
    let map = map_of(&[("D", "D")]);
    assert!(matches!(
        reconstruct(&map, "A", "D"),
        Err(SearchError::ParentCycle)
    ));
}

#[test]
fn channel_is_first_in_first_out() {
    let mut channel = TitleChannel::new();
    assert!(channel.is_empty());
    assert_eq!(channel.len(), 0);
    assert!(channel.recv().is_none());
    channel.send("A".to_string());
    channel.send("B".to_string());
    channel.send("A".to_string());
    assert_eq!(channel.len(), 3);
    assert_eq!(channel.to_vec(), vec!["A", "B", "A"]);
    assert_eq!(channel.recv().unwrap(), "A");
    assert_eq!(channel.recv().unwrap(), "B");
    assert_eq!(channel.to_vec(), vec!["A"]);
    assert_eq!(channel.recv().unwrap(), "A");
    assert!(channel.recv().is_none());
    assert!(channel.is_empty());
}

#[test]
fn channel_takes_all_of_another() {
    let mut frontier = TitleChannel::new();
    let mut next = TitleChannel::new();
    frontier.send("A".to_string());
    next.send("B".to_string());
    next.send("C".to_string());
    frontier.take_all(&mut next);
    assert_eq!(frontier.to_vec(), vec!["A", "B", "C"]);
    assert!(next.is_empty());
    frontier.take_all(&mut next);
    assert_eq!(frontier.len(), 3);
}

#[test]
fn signal_is_raised_once_and_for_all() {
    let mut signal = StopSignal::new();
    assert!(!signal.is_set());
    signal.raise();
    assert!(signal.is_set());
    signal.raise();
    assert!(signal.is_set());
}
