//! The state that the workers and the coordinator of one search share, and the steps by which
//! they change it.
//!
//! A worker takes a title with [`Search::acquire`], fetches its links, and reports with
//! [`Search::record`]. When no worker gets a title any more, the coordinator calls
//! [`Search::end_round`], which opens the next round or ends the search. Every step is one
//! atomic change of the state; its effect is the step of the same name on [`SearchModel`].

use vstd::prelude::*;
use vstd::multiset::{lemma_multiset_empty_len, Multiset};
use crate::discovery::DiscoveryMap;
use crate::error::{FetchError, SearchError};
use crate::model::SearchModel;
use crate::path::{reads_path, reconstruct};
use crate::queue::TitleChannel;
use crate::signal::StopSignal;

verus! {

/// How a search begins.
pub enum Opening {
    /// Start and target are one title: the path is that title alone, and nothing is searched.
    Trivial(Vec<String>),
    /// The search is set up, with the start as the only title of the first round.
    Search(Search),
}

/// What became of a worker's report.
#[derive(Debug, PartialEq, Eq, Clone, Copy)]
pub enum Recorded {
    /// The title was not in flight; nothing was done.
    Refused,
    /// The fetch had failed; the title was passed over.
    Passed,
    /// The links were recorded.
    Expanded,
    /// The links were recorded up to the target, which this report discovered.
    Found,
}

/// What the coordinator finds at the end of a round.
#[derive(Debug)]
pub enum RoundOutcome {
    /// The round is not over: a title is in flight, or the frontier is not drained.
    Pending,
    /// The next round has begun.
    Continue,
    /// The search is over, with the path from start to target or the reason why there is none.
    Done(Result<Vec<String>, SearchError>),
}

/// The titles that a fetch gave; nothing where it failed.
pub open spec fn fetched_titles(fetched: Result<Vec<String>, FetchError>) -> Option<
    Seq<Seq<char>>,
> {
    match fetched {
        Ok(links) => Some(links.deep_view()),
        Err(_) => None,
    }
}

/// The shared state of one search.
pub struct Search {
    start: String,
    target: String,
    frontier: TitleChannel,
    next_frontier: TitleChannel,
    in_flight: Vec<String>,
    discovered: DiscoveryMap,
    stop: StopSignal,
    round: usize,
}

impl View for Search {
    type V = SearchModel;

    closed spec fn view(&self) -> SearchModel {
        SearchModel {
            start: self.start@,
            target: self.target@,
            frontier: self.frontier@,
            in_flight: self.in_flight.deep_view().to_multiset(),
            next_frontier: self.next_frontier@,
            parents: self.discovered@,
            stopped: self.stop.is_raised(),
            round: self.round as nat,
        }
    }
}

impl Search {
    /// The representation is sound. Among other things: start and target differ, the search
    /// has stopped exactly if the target has a parent, and every completed round has
    /// discovered a title.
    pub closed spec fn well_formed(&self) -> bool {
        &&& self.discovered.well_formed()
        &&& self.start@ != self.target@
        &&& self.stop.is_raised() <==> self.discovered@.contains_key(self.target@)
        &&& self.round + self.next_frontier@.len() <= self.discovered@.len()
    }

    /// What well-formedness says of the state.
    pub proof fn lemma_well_formed(&self)
        requires
            self.well_formed(),
        ensures
            self@.start != self@.target,
            self@.stopped <==> self@.parents.contains_key(self@.target),
            self@.parents.dom().finite(),
            self@.round + self@.next_frontier.len() <= self@.parents.len(),
            self@.round <= usize::MAX,
    {
        self.discovered.lemma_finite();
    }

    /// Sets up the search from `start` for `target`. Where the two are one title, the answer
    /// is known at once and there is nothing to search.
    pub fn begin(start: String, target: String) -> (opening: Opening)
        ensures
            start@ == target@ ==> (opening matches Opening::Trivial(path) && path.deep_view()
                == seq![start@]),
            start@ != target@ ==> (opening matches Opening::Search(search) && search.well_formed()
                && search@ == SearchModel::initial(start@, target@)),
    {
        if start == target {
            let mut path: Vec<String> = Vec::new();
            path.push(start);
            Opening::Trivial(path)
        } else {
            let mut frontier = TitleChannel::new();
            frontier.send(start.clone());
            let in_flight: Vec<String> = Vec::new();
            let search = Search {
                start,
                target,
                frontier,
                next_frontier: TitleChannel::new(),
                in_flight,
                discovered: DiscoveryMap::new(),
                stop: StopSignal::new(),
                round: 0,
            };
            assert(search@.in_flight == Multiset::<Seq<char>>::empty()) by {
                in_flight.deep_view().to_multiset_ensures();
                lemma_multiset_empty_len(search@.in_flight);
            }
            Opening::Search(search)
        }
    }

    /// The title at which the search begins.
    pub fn start(&self) -> (start: &str)
        ensures
            start@ == self@.start,
    {
        self.start.as_str()
    }

    /// The title that is looked for.
    pub fn target(&self) -> (target: &str)
        ensures
            target@ == self@.target,
    {
        self.target.as_str()
    }

    /// The titles of this round that no worker has taken yet.
    pub fn frontier(&self) -> (frontier: &TitleChannel)
        ensures
            frontier@ == self@.frontier,
    {
        &self.frontier
    }

    /// The titles discovered in this round.
    pub fn next_frontier(&self) -> (next: &TitleChannel)
        ensures
            next@ == self@.next_frontier,
    {
        &self.next_frontier
    }

    /// The number of titles that workers have taken and not yet reported on.
    pub fn in_flight(&self) -> (n: usize)
        ensures
            n == self@.in_flight.len(),
    {
        proof {
            self.in_flight.deep_view().to_multiset_ensures();
        }
        self.in_flight.len()
    }

    /// The number of rounds that have been completed.
    pub fn round(&self) -> (round: usize)
        ensures
            round == self@.round,
    {
        self.round
    }

    /// Whether the target has been discovered.
    pub fn is_stopped(&self) -> (stopped: bool)
        ensures
            stopped == self@.stopped,
    {
        self.stop.is_set()
    }

    /// The map of discovered titles.
    pub fn discovered(&self) -> (map: &DiscoveryMap)
        requires
            self.well_formed(),
        ensures
            map.well_formed(),
            map@ == self@.parents,
    {
        &self.discovered
    }

    /// Worker step: takes the oldest title of the frontier. Gives nothing once the search has
    /// stopped or the frontier is drained; the worker then waits for the end of the round.
    pub fn acquire(&mut self) -> (title: Option<String>)
        requires
            old(self).well_formed(),
        ensures
            final(self).well_formed(),
            final(self)@ == old(self)@.acquire(),
            old(self)@.can_acquire() ==> title is Some && title->0@ == old(self)@.frontier[0],
            !old(self)@.can_acquire() ==> title is None,
    {
        if self.stop.is_set() {
            return None;
        }
        match self.frontier.recv() {
            None => None,
            Some(title) => {
                proof {
                    self.in_flight.deep_view().to_multiset_ensures();
                }
                let ghost waiting = self.in_flight.deep_view();
                self.in_flight.push(title.clone());
                assert(self.in_flight.deep_view() == waiting.push(title@));
                Some(title)
            },
        }
    }

    /// Takes `current` out of the titles in flight, if it is among them.
    fn release(&mut self, current: &String) -> (was_in_flight: bool)
        requires
            old(self).well_formed(),
        ensures
            final(self).well_formed(),
            was_in_flight == old(self)@.in_flight.contains(current@),
            was_in_flight ==> final(self)@ == old(self)@.release(current@),
            !was_in_flight ==> final(self)@ == old(self)@,
    {
        let ghost waiting = self.in_flight.deep_view();
        let mut i: usize = 0;
        while i < self.in_flight.len()
            invariant
                i <= self.in_flight.len(),
                *self == *old(self),
                self.well_formed(),
                waiting == self.in_flight.deep_view(),
                forall|j: int| 0 <= j < i ==> waiting[j] != current@,
            decreases self.in_flight.len() - i,
        {
            if self.in_flight[i] == *current {
                proof {
                    waiting.to_multiset_ensures();
                    assert(waiting.contains(waiting[i as int]));
                }
                self.in_flight.remove(i);
                assert(self.in_flight.deep_view() == waiting.remove(i as int));
                return true;
            }
            i += 1;
        }
        proof {
            waiting.to_multiset_ensures();
        }
        false
    }

    /// Worker step: reports what the fetch for `current` gave.
    ///
    /// A failed fetch is no reason to end the search: the title is passed over. The links of
    /// a successful one are claimed in their order, each with `current` as its parent. A
    /// link that is claimed joins the next frontier, unless it is the target: that stops the
    /// search, and the links behind it are dropped. A report on a title that is not in flight
    /// is refused.
    #[verifier::loop_isolation(false)]
    pub fn record(&mut self, current: &str, fetched: &Result<Vec<String>, FetchError>) -> (outcome:
        Recorded)
        requires
            old(self).well_formed(),
        ensures
            final(self).well_formed(),
            final(self)@ == old(self)@.record(current@, fetched_titles(*fetched)),
            outcome == Recorded::Refused <==> !old(self)@.in_flight.contains(current@),
            outcome == Recorded::Passed <==> old(self)@.in_flight.contains(current@) && fetched is Err,
            outcome == Recorded::Found <==> old(self)@.in_flight.contains(current@) && fetched is Ok
                && !old(self)@.stopped && final(self)@.stopped,
    {
        let current = current.to_owned();
        if !self.release(&current) {
            return Recorded::Refused;
        }
        let links = match fetched {
            Err(_) => {
                return Recorded::Passed;
            },
            Ok(links) => links,
        };
        let ghost released = self@;
        let ghost titles = links.deep_view();
        let mut i: usize = 0;
        assert(titles.skip(0) == titles);
        while i < links.len()
            invariant
                i <= links.len(),
                titles == links.deep_view(),
                self.well_formed(),
                self@.stopped == released.stopped,
                self@.claim_links(current@, titles.skip(i as int)) == released.claim_links(
                    current@,
                    titles,
                ),
            decreases links.len() - i,
        {
            let ghost before = self@;
            let ghost rest = titles.skip(i as int);
            assert(rest.drop_first() == titles.skip(i + 1));
            let claimed = self.discovered.try_claim(links[i].clone(), current.clone());
            if claimed {
                if links[i] == self.target {
                    self.stop.raise();
                    return Recorded::Found;
                }
                self.next_frontier.send(links[i].clone());
            }
            assert(self@ == before.claim_link(current@, titles[i as int]));
            i += 1;
        }
        Recorded::Expanded
    }

    /// Coordinator step: ends the round, once every worker has come to its end.
    ///
    /// While a title is in flight, or titles are left in the frontier of a search that has
    /// not stopped, the round is `Pending` and nothing changes. Else, where the search has
    /// stopped, it is `Done` with the path that the discovery map holds; where nothing was
    /// discovered in this round, it is `Done` as `Exhausted`; and where titles were, they
    /// become the frontier of the next round, which is counted: `Continue`.
    pub fn end_round(&mut self) -> (outcome: RoundOutcome)
        requires
            old(self).well_formed(),
        ensures
            final(self).well_formed(),
            final(self)@ == old(self)@.end_round(),
            !old(self)@.round_closed() ==> outcome is Pending,
            old(self)@.continues() ==> outcome is Continue,
            old(self)@.exhausted() ==> (outcome matches RoundOutcome::Done(
                Err(SearchError::Exhausted),
            )),
            old(self)@.round_closed() && old(self)@.stopped ==> (outcome matches RoundOutcome::Done(
                result,
            ) && reads_path(old(self)@.parents, old(self)@.start, old(self)@.target, result)),
    {
        let stopped = self.stop.is_set();
        proof {
            self.in_flight.deep_view().to_multiset_ensures();
        }
        if self.in_flight.len() > 0 || (!stopped && !self.frontier.is_empty()) {
            return RoundOutcome::Pending;
        }
        if stopped {
            return RoundOutcome::Done(reconstruct(
                &self.discovered,
                self.start.as_str(),
                self.target.as_str(),
            ));
        }
        if self.next_frontier.is_empty() {
            return RoundOutcome::Done(Err(SearchError::Exhausted));
        }
        proof {
            self.discovered.lemma_finite();
        }
        self.frontier.take_all(&mut self.next_frontier);
        self.round = self.round + 1;
        RoundOutcome::Continue
    }
}

} // verus!
