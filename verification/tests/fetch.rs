use wiki_crawler::error::FetchError;
use wiki_crawler::fetch::{check_status, LinkQuery};
use wiki_crawler::params::QueryParams;
use wiki_crawler::response::{Link, Page, Query, WikiResponse};

const GT5: &str = "GT5";
const GINETTA_GT5_CHALLENGE: &str = "Ginetta GT5 Challenge";
const GRAN_TURISMO_5: &str = "Gran Turismo 5";
const GRAN_TURISMO_5_PROLOGUE: &str = "Gran Turismo 5 Prologue";

fn link(ns: u32, title: &str) -> Link {
    Link { ns, title: title.to_string() }
}

fn reply(pages: Vec<(&str, Option<Vec<Link>>)>, continuation: Option<Vec<(&str, &str)>>) -> WikiResponse {
    WikiResponse {
        query: Query {
            pages: pages
                .into_iter()
                .map(|(id, links)| (id.to_string(), Page { links }))
                .collect(),
        },
        continuation: continuation
            .map(|pairs| pairs.into_iter().map(|(k, v)| (k.to_string(), v.to_string())).collect()),
    }
}

fn sorted(params: &[(String, String)]) -> Vec<(String, String)> {
    let mut pairs = params.to_vec();
    pairs.sort();
    pairs
}

fn pairs(list: &[(&str, &str)]) -> Vec<(String, String)> {
    list.iter().map(|(k, v)| (k.to_string(), v.to_string())).collect()
}

#[test]
fn get_linked_titles() {
    let mut query = LinkQuery::new(GT5);
    let page = reply(
        vec![(
            "17039831",
            Some(vec![
                link(0, GINETTA_GT5_CHALLENGE),
                link(0, GRAN_TURISMO_5),
                link(0, GRAN_TURISMO_5_PROLOGUE),
                link(4, "Wikipedia:Disambiguation"),
                link(12, "Help:Disambiguation"),
            ]),
        )],
        None,
    );
    assert!(!query.absorb(&page));
    assert_eq!(
        query.finish().unwrap(),
        [GINETTA_GT5_CHALLENGE, GRAN_TURISMO_5, GRAN_TURISMO_5_PROLOGUE]
    );
}

#[test]
fn first_request_asks_for_all_links_as_json() {
    let query = LinkQuery::new("Herbert Ross");
    assert_eq!(
        sorted(query.request()),
        pairs(&[
            ("action", "query"),
            ("format", "json"),
            ("pllimit", "max"),
            ("prop", "links"),
            ("titles", "Herbert Ross"),
        ])
    );
    assert!(!query.done());
    assert!(query.finish().is_none());
}

#[test]
fn three_pages_give_the_links_of_all_three() {
    let mut query = LinkQuery::new("Herbert Ross");
    let first = reply(
        vec![("1", Some(vec![link(0, "A"), link(1, "Talk:A"), link(0, "B")]))],
        Some(vec![("plcontinue", "1|0|C"), ("continue", "||")]),
    );
    assert!(query.absorb(&first));
    assert!(!query.done());
    assert_eq!(
        sorted(query.request()),
        pairs(&[
            ("action", "query"),
            ("continue", "||"),
            ("format", "json"),
            ("plcontinue", "1|0|C"),
            ("pllimit", "max"),
            ("prop", "links"),
            ("titles", "Herbert Ross"),
        ])
    );
    let second = reply(
        vec![("1", Some(vec![link(0, "C"), link(0, "D")]))],
        Some(vec![("plcontinue", "1|0|E"), ("continue", "||")]),
    );
    assert!(query.absorb(&second));
    // The new continuation has replaced the old one.
    assert_eq!(
        sorted(query.request()),
        pairs(&[
            ("action", "query"),
            ("continue", "||"),
            ("format", "json"),
            ("plcontinue", "1|0|E"),
            ("pllimit", "max"),
            ("prop", "links"),
            ("titles", "Herbert Ross"),
        ])
    );
    let third = reply(vec![("1", Some(vec![link(14, "Category:E"), link(0, "E")]))], None);
    assert!(!query.absorb(&third));
    assert!(query.done());
    assert_eq!(query.finish().unwrap(), ["A", "B", "C", "D", "E"]);
}

#[test]
fn part_of_an_answer_is_not_handed_out() {
    let mut query = LinkQuery::new("A");
    let first = reply(vec![("1", Some(vec![link(0, "B")]))], Some(vec![("plcontinue", "x")]));
    assert!(query.absorb(&first));
    assert!(query.finish().is_none());
}

#[test]
fn links_of_all_pages_are_gathered_in_order() {
    let page = reply(
        vec![
            ("7", Some(vec![link(0, "B"), link(2, "User:B")])),
            ("3", None),
            ("5", Some(vec![])),
            ("9", Some(vec![link(0, "A"), link(0, "B")])),
        ],
        None,
    );
    let mut titles = vec!["first".to_string()];
    page.collect_article_titles(&mut titles);
    assert_eq!(titles, ["first", "B", "A", "B"]);
    assert!(!page.has_continuation());
}

#[test]
fn page_without_links_gives_none() {
    let mut titles = Vec::new();
    Page { links: None }.collect_article_titles(&mut titles);
    assert!(titles.is_empty());
    Page { links: Some(vec![link(1, "Talk:A"), link(100, "Portal:A")]) }
        .collect_article_titles(&mut titles);
    assert!(titles.is_empty());
    Page { links: Some(vec![link(0, "A")]) }.collect_article_titles(&mut titles);
    assert_eq!(titles, ["A"]);
}

#[test]
fn status_is_accepted_from_200_to_299() {
    assert!(check_status(200).is_ok());
    assert!(check_status(204).is_ok());
    assert!(check_status(299).is_ok());
    for code in [0, 100, 199, 300, 301, 404, 429, 500, 503, u16::MAX] {
        match check_status(code) {
            Err(FetchError::Status(status)) => assert_eq!(status, code),
            other => panic!("expected the status {code} back, got {other:?}"),
        }
    }
}

#[test]
fn parameter_set_again_is_replaced() {
    let mut params = QueryParams::new();
    assert!(params.pairs().is_empty());
    assert!(params.get("a").is_none());
    params.set("a".to_string(), "1".to_string());
    params.set("b".to_string(), "2".to_string());
    params.set("a".to_string(), "3".to_string());
    assert_eq!(params.get("a").unwrap(), "3");
    assert_eq!(params.get("b").unwrap(), "2");
    assert!(params.get("c").is_none());
    assert_eq!(sorted(params.pairs()), pairs(&[("a", "3"), ("b", "2")]));
}

#[test]
fn merge_sets_every_pair_in_order() {
    let mut params = QueryParams::new();
    params.set("a".to_string(), "1".to_string());
    params.set("b".to_string(), "2".to_string());
    params.merge(&pairs(&[("b", "3"), ("c", "4"), ("c", "5")]));
    assert_eq!(sorted(params.pairs()), pairs(&[("a", "1"), ("b", "3"), ("c", "5")]));
    params.merge(&Vec::new());
    assert_eq!(params.pairs().len(), 3);
}
