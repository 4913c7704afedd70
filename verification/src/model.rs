//! The search as a mathematical state and the steps that change it.
//!
//! Workers and the coordinator of a running search do nothing to its shared state but these
//! steps, each of them atomic. Everything that is proved of the search is proved of every
//! sequence of these steps.

use vstd::prelude::*;
use vstd::multiset::Multiset;
use crate::discovery::claim;

verus! {

/// The shared state of a search.
pub struct SearchModel {
    /// Where the search begins.
    pub start: Seq<char>,
    /// The title that is looked for.
    pub target: Seq<char>,
    /// The titles of this round that no worker has taken yet.
    pub frontier: Seq<Seq<char>>,
    /// The titles of this round that workers have taken and not yet reported on.
    pub in_flight: Multiset<Seq<char>>,
    /// The titles discovered in this round, in the order of their discovery.
    pub next_frontier: Seq<Seq<char>>,
    /// The parent of every discovered title.
    pub parents: Map<Seq<char>, Seq<char>>,
    /// Whether the target has been discovered.
    pub stopped: bool,
    /// The number of rounds that have been completed.
    pub round: nat,
}

impl SearchModel {
    /// The state in which a search from `start` for `target` begins.
    pub open spec fn initial(start: Seq<char>, target: Seq<char>) -> SearchModel {
        SearchModel {
            start,
            target,
            frontier: seq![start],
            in_flight: Multiset::empty(),
            next_frontier: Seq::empty(),
            parents: Map::empty(),
            stopped: false,
            round: 0,
        }
    }

    /// Whether a worker that asks for a title gets one.
    pub open spec fn can_acquire(self) -> bool {
        !self.stopped && self.frontier.len() > 0
    }

    /// A worker asks for a title: it gets the oldest of the frontier, unless the search has
    /// stopped or the frontier is empty.
    pub open spec fn acquire(self) -> SearchModel {
        if self.can_acquire() {
            SearchModel {
                frontier: self.frontier.drop_first(),
                in_flight: self.in_flight.insert(self.frontier[0]),
                ..self
            }
        } else {
            self
        }
    }

    /// Whether a claim for `link` discovers the target.
    pub open spec fn finds_target(self, link: Seq<char>) -> bool {
        !self.parents.contains_key(link) && link == self.target
    }

    /// A worker reports one link of `current`. A link seen before changes nothing. A new one
    /// gets `current` as its parent; it stops the search if it is the target, and joins the
    /// next frontier if it is not.
    pub open spec fn claim_link(self, current: Seq<char>, link: Seq<char>) -> SearchModel {
        if self.parents.contains_key(link) {
            self
        } else if link == self.target {
            SearchModel { parents: claim(self.parents, link, current), stopped: true, ..self }
        } else {
            SearchModel {
                parents: claim(self.parents, link, current),
                next_frontier: self.next_frontier.push(link),
                ..self
            }
        }
    }

    /// A worker reports the links of `current` one after the other, and drops the rest once
    /// one of them has discovered the target.
    pub open spec fn claim_links(self, current: Seq<char>, links: Seq<Seq<char>>) -> SearchModel
        decreases links.len(),
    {
        if links.len() == 0 {
            self
        } else if self.finds_target(links[0]) {
            self.claim_link(current, links[0])
        } else {
            self.claim_link(current, links[0]).claim_links(current, links.drop_first())
        }
    }

    /// A worker is done with `current`.
    pub open spec fn release(self, current: Seq<char>) -> SearchModel {
        SearchModel { in_flight: self.in_flight.remove(current), ..self }
    }

    /// A worker reports on `current`: the links that the fetch gave, or nothing where the
    /// fetch failed. A report on a title that is not in flight changes nothing.
    pub open spec fn record(self, current: Seq<char>, fetched: Option<Seq<Seq<char>>>) -> SearchModel {
        if !self.in_flight.contains(current) {
            self
        } else {
            match fetched {
                Some(links) => self.release(current).claim_links(current, links),
                None => self.release(current),
            }
        }
    }

    /// Whether every worker has come to the end of the round: no title is in flight, and
    /// none is left to take.
    pub open spec fn round_closed(self) -> bool {
        self.in_flight.len() == 0 && (self.stopped || self.frontier.len() == 0)
    }

    /// Whether the coordinator opens another round.
    pub open spec fn continues(self) -> bool {
        self.round_closed() && !self.stopped && self.next_frontier.len() > 0
    }

    /// Whether the search has come to its end without the target.
    pub open spec fn exhausted(self) -> bool {
        self.round_closed() && !self.stopped && self.next_frontier.len() == 0
    }

    /// The coordinator ends the round: where the search continues, the next frontier becomes
    /// the frontier and the round is counted.
    pub open spec fn end_round(self) -> SearchModel {
        if self.continues() {
            SearchModel {
                frontier: self.frontier + self.next_frontier,
                next_frontier: Seq::empty(),
                round: self.round + 1,
                ..self
            }
        } else {
            self
        }
    }
}

/// What reporting links leaves alone: start and target, the frontier, the titles in flight
/// and the round. It never clears the stop, keeps the discovered titles finite, and leaves
/// every entry of the discovery map as it was written.
pub proof fn lemma_claim_links_frame(s: SearchModel, current: Seq<char>, links: Seq<Seq<char>>)
    ensures
        s.claim_links(current, links).start == s.start,
        s.claim_links(current, links).target == s.target,
        s.claim_links(current, links).frontier == s.frontier,
        s.claim_links(current, links).in_flight == s.in_flight,
        s.claim_links(current, links).round == s.round,
        s.stopped ==> s.claim_links(current, links).stopped,
        s.parents.dom().finite() ==> s.claim_links(current, links).parents.dom().finite(),
        forall|title: Seq<char>| #[trigger]
            s.parents.contains_key(title) ==> s.claim_links(current, links).parents.contains_key(
                title,
            ) && s.claim_links(current, links).parents[title] == s.parents[title],
    decreases links.len(),
{
    if links.len() > 0 && !s.finds_target(links[0]) {
        let after = s.claim_link(current, links[0]);
        lemma_claim_links_frame(after, current, links.drop_first());
        assert forall|title: Seq<char>| #[trigger] s.parents.contains_key(title) implies s.claim_links(
            current,
            links,
        ).parents.contains_key(title) && s.claim_links(current, links).parents[title]
            == s.parents[title] by {
            assert(after.parents.contains_key(title));
        }
    }
}

/// What a report leaves alone: start and target, the frontier and the round. It never
/// clears the stop, keeps the discovered titles finite, and leaves every entry of the
/// discovery map as it was written.
pub proof fn lemma_record_frame(s: SearchModel, current: Seq<char>, fetched: Option<Seq<Seq<char>>>)
    ensures
        s.record(current, fetched).start == s.start,
        s.record(current, fetched).target == s.target,
        s.record(current, fetched).frontier == s.frontier,
        s.record(current, fetched).round == s.round,
        s.in_flight.contains(current) ==> s.record(current, fetched).in_flight
            == s.in_flight.remove(current),
        s.stopped ==> s.record(current, fetched).stopped,
        s.parents.dom().finite() ==> s.record(current, fetched).parents.dom().finite(),
        forall|title: Seq<char>| #[trigger]
            s.parents.contains_key(title) ==> s.record(current, fetched).parents.contains_key(
                title,
            ) && s.record(current, fetched).parents[title] == s.parents[title],
{
    if s.in_flight.contains(current) {
        if let Some(links) = fetched {
            lemma_claim_links_frame(s.release(current), current, links);
        }
    }
}

} // verus!
