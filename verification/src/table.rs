//! A graph held in memory, and the search run on it by a single worker.

use vstd::prelude::*;
use vstd::hash_map::StringHashMap;
use crate::error::{FetchError, SearchError};
use crate::graph::{is_shortest_path, lemma_walk_reaches, reachable};
use crate::levels::{
    agrees,
    lemma_acquire_sound,
    lemma_end_round_sound,
    lemma_exhausted_unreachable,
    lemma_found_path_shortest,
    lemma_initial_sound,
    lemma_record_sound,
    sound,
};
use crate::model::lemma_record_frame;
use crate::path::trace_back;
use crate::search::{fetched_titles, Opening, RoundOutcome, Search};

verus! {

/// The pages of a graph, each with its links.
pub struct LinkTable {
    pages: StringHashMap<Vec<String>>,
}

impl View for LinkTable {
    type V = Map<Seq<char>, Seq<Seq<char>>>;

    /// The links of every page of the table, in the order in which they were given.
    closed spec fn view(&self) -> Map<Seq<char>, Seq<Seq<char>>> {
        Map::new(
            |title: Seq<char>| self.pages@.contains_key(title),
            |title: Seq<char>| self.pages@[title].deep_view(),
        )
    }
}

impl LinkTable {
    /// The graph of the table: each page with the set of its links.
    pub open spec fn graph(&self) -> Map<Seq<char>, Set<Seq<char>>> {
        self@.map_values(|links: Seq<Seq<char>>| links.to_set())
    }

    /// A table without pages.
    pub fn new() -> (table: Self)
        ensures
            table@ == Map::<Seq<char>, Seq<Seq<char>>>::empty(),
    {
        let table = LinkTable { pages: StringHashMap::new() };
        table
    }

    /// Gives `title` a page with `links`, in place of the page it had.
    pub fn set_page(&mut self, title: String, links: Vec<String>)
        ensures
            final(self)@ == old(self)@.insert(title@, links.deep_view()),
    {
        self.pages.insert(title, links);
    }

    /// The links of `title`, as a fetch would give them: those of its page, and a failure
    /// with the status 404 where it has none.
    pub fn links_of(&self, title: &str) -> (fetched: Result<Vec<String>, FetchError>)
        ensures
            self@.contains_key(title@) ==> fetched is Ok && fetched->Ok_0.deep_view()
                == self@[title@],
            !self@.contains_key(title@) ==> fetched == Err::<Vec<String>, FetchError>(
                FetchError::Status(404),
            ),
            agrees(self.graph(), title@, fetched_titles(fetched)),
    {
        match self.pages.get(title) {
            Some(links) => Ok(links.clone()),
            None => Err(FetchError::Status(404)),
        }
    }

    /// The shortest path from `start` to `target` through the graph of the table, found by
    /// the search with one worker that fetches from the table. Fails as `Exhausted` where
    /// the target cannot be reached, and in no other way.
    pub fn find_path(&self, start: &str, target: &str) -> (result: Result<
        Vec<String>,
        SearchError,
    >)
        ensures
            reachable(self.graph(), start@, target@) ==> result is Ok && is_shortest_path(
                self.graph(),
                start@,
                target@,
                result->Ok_0.deep_view(),
            ),
            !reachable(self.graph(), start@, target@) ==> result == Err::<
                Vec<String>,
                SearchError,
            >(SearchError::Exhausted),
    {
        let ghost graph = self.graph();
        let mut search = match Search::begin(start.to_owned(), target.to_owned()) {
            Opening::Trivial(path) => {
                return Ok(path);
            },
            Opening::Search(search) => search,
        };
        proof {
            lemma_initial_sound(start@, target@, graph);
            search.lemma_well_formed();
        }
        loop
            invariant
                graph == self.graph(),
                search.well_formed(),
                sound(search@, graph),
                search@.start == start@,
                search@.target == target@,
                search@.in_flight.len() == 0,
                search@.round <= usize::MAX,
            decreases usize::MAX - search@.round, search@.frontier.len(),
        {
            let ghost before = search@;
            match search.acquire() {
                Some(title) => {
                    let fetched = self.links_of(title.as_str());
                    proof {
                        lemma_acquire_sound(before, graph);
                        lemma_record_sound(search@, graph, title@, fetched_titles(fetched));
                        lemma_record_frame(search@, title@, fetched_titles(fetched));
                    }
                    search.record(title.as_str(), &fetched);
                },
                None => {
                    proof {
                        search.lemma_well_formed();
                        lemma_end_round_sound(search@, graph);
                        if search@.stopped {
                            lemma_found_path_shortest(search@, graph);
                            lemma_walk_reaches(
                                graph,
                                trace_back(
                                    search@.parents,
                                    start@,
                                    target@,
                                    search@.parents.len(),
                                )->Path_0,
                            );
                        } else if search@.exhausted() {
                            lemma_exhausted_unreachable(search@, graph);
                        }
                    }
                    match search.end_round() {
                        RoundOutcome::Done(result) => {
                            return result;
                        },
                        _ => {
                            proof {
                                search.lemma_well_formed();
                            }
                        },
                    }
                },
            }
        }
    }
}

} // verus!
