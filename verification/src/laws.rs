//! What holds of every search: the laws of the search, stated of any sequence of steps
//! that workers and coordinator may take.

use vstd::prelude::*;
use crate::graph::{at_distance, is_shortest_path, reachable};
use crate::levels::{
    agrees,
    lemma_acquire_sound,
    lemma_end_round_sound,
    lemma_exhausted_unreachable,
    lemma_found_path_shortest,
    lemma_frontier_at_round,
    lemma_initial_sound,
    lemma_record_sound,
    pending,
    sound,
};
use crate::model::{lemma_record_frame, SearchModel};
use crate::path::{trace_back, Trace};

verus! {

/// One step of a worker or of the coordinator.
pub enum Step {
    /// A worker takes a title.
    Acquire,
    /// A worker reports on `current`: the links that its fetch gave, or nothing where the
    /// fetch failed.
    Record { current: Seq<char>, fetched: Option<Seq<Seq<char>>> },
    /// The coordinator ends the round.
    EndRound,
}

impl Step {
    /// The state after the step.
    pub open spec fn apply(self, s: SearchModel) -> SearchModel {
        match self {
            Step::Acquire => s.acquire(),
            Step::Record { current, fetched } => s.record(current, fetched),
            Step::EndRound => s.end_round(),
        }
    }

    /// Whether the step agrees with `graph`: every step does that is not a report, and a
    /// report does that gives the links that the graph has.
    pub open spec fn agrees(self, graph: Map<Seq<char>, Set<Seq<char>>>) -> bool {
        match self {
            Step::Record { current, fetched } => agrees(graph, current, fetched),
            _ => true,
        }
    }
}

/// The state that a search from `start` for `target` is in after `steps`, in any order that
/// workers and coordinator may take them in.
pub open spec fn state_after(start: Seq<char>, target: Seq<char>, steps: Seq<Step>) -> SearchModel
    decreases steps.len(),
{
    if steps.len() == 0 {
        SearchModel::initial(start, target)
    } else {
        steps.last().apply(state_after(start, target, steps.drop_last()))
    }
}

/// Whether every step of `steps` agrees with `graph`.
pub open spec fn all_agree(steps: Seq<Step>, graph: Map<Seq<char>, Set<Seq<char>>>) -> bool {
    forall|i: int| 0 <= i < steps.len() ==> (#[trigger] steps[i]).agrees(graph)
}

/// A search whose reports agree with the graph is sound after any steps, and has
/// discovered finitely many titles.
pub proof fn lemma_search_sound(
    start: Seq<char>,
    target: Seq<char>,
    graph: Map<Seq<char>, Set<Seq<char>>>,
    steps: Seq<Step>,
)
    requires
        start != target,
        all_agree(steps, graph),
    ensures
        sound(state_after(start, target, steps), graph),
        state_after(start, target, steps).start == start,
        state_after(start, target, steps).target == target,
        state_after(start, target, steps).parents.dom().finite(),
    decreases steps.len(),
{
    if steps.len() == 0 {
        lemma_initial_sound(start, target, graph);
    } else {
        let before = state_after(start, target, steps.drop_last());
        lemma_search_sound(start, target, graph, steps.drop_last());
        match steps.last() {
            Step::Acquire => {
                lemma_acquire_sound(before, graph);
            },
            Step::Record { current, fetched } => {
                lemma_record_sound(before, graph, current, fetched);
                lemma_record_frame(before, current, fetched);
            },
            Step::EndRound => {
                lemma_end_round_sound(before, graph);
            },
        }
    }
}

/// The round is the distance. Whatever steps a search has taken, and in whatever order its
/// workers took their titles and reported: every title that waits in the frontier or is in
/// flight, the start apart, lies exactly as many links from the start as rounds have been
/// completed.
pub proof fn theorem_round_is_distance(
    start: Seq<char>,
    target: Seq<char>,
    graph: Map<Seq<char>, Set<Seq<char>>>,
    steps: Seq<Step>,
    title: Seq<char>,
)
    requires
        start != target,
        all_agree(steps, graph),
        pending(state_after(start, target, steps), title),
        title != start,
    ensures
        at_distance(graph, start, title, state_after(start, target, steps).round),
{
    lemma_search_sound(start, target, graph, steps);
    lemma_frontier_at_round(state_after(start, target, steps), graph, title);
}

/// The search finds a shortest path. Whatever steps a search has taken: once it has
/// stopped, the chain of parents from the target reads as a walk through the graph from
/// the start to the target with as many links as the distance between the two. That
/// distance is one more than the number of rounds completed.
pub proof fn theorem_found_path_is_shortest(
    start: Seq<char>,
    target: Seq<char>,
    graph: Map<Seq<char>, Set<Seq<char>>>,
    steps: Seq<Step>,
)
    requires
        start != target,
        all_agree(steps, graph),
        state_after(start, target, steps).stopped,
    ensures
        ({
            let s = state_after(start, target, steps);
            let found = trace_back(s.parents, start, target, s.parents.len());
            &&& found is Path
            &&& is_shortest_path(graph, start, target, found->Path_0)
            &&& found->Path_0.len() == s.round + 2
        }),
{
    lemma_search_sound(start, target, graph, steps);
    lemma_found_path_shortest(state_after(start, target, steps), graph);
}

/// The search gives up only where there is no path. Whatever steps a search has taken:
/// where it ends as exhausted, no number of links leads from the start to the target.
pub proof fn theorem_exhausted_is_unreachable(
    start: Seq<char>,
    target: Seq<char>,
    graph: Map<Seq<char>, Set<Seq<char>>>,
    steps: Seq<Step>,
)
    requires
        start != target,
        all_agree(steps, graph),
        state_after(start, target, steps).exhausted(),
    ensures
        !reachable(graph, start, target),
{
    lemma_search_sound(start, target, graph, steps);
    lemma_exhausted_unreachable(state_after(start, target, steps), graph);
}

/// What no step undoes: an entry of the discovery map stays as it was written, a search
/// that has stopped stays stopped, and the round is never counted down. The round changes
/// only where the coordinator opens the next one, and then by one.
pub proof fn lemma_step_monotone(s: SearchModel, step: Step, title: Seq<char>)
    ensures
        s.parents.contains_key(title) ==> step.apply(s).parents.contains_key(title) && step.apply(
            s,
        ).parents[title] == s.parents[title],
        s.stopped ==> step.apply(s).stopped,
        step.apply(s).round == if step is EndRound && s.continues() {
            s.round + 1
        } else {
            s.round
        },
{
    if let Step::Record { current, fetched } = step {
        lemma_record_frame(s, current, fetched);
    }
}

/// Whether no title is queued twice: the next frontier holds discovered titles, each once,
/// and so does the frontier from the second round on.
pub open spec fn queued_once(s: SearchModel) -> bool {
    &&& s.next_frontier.no_duplicates()
    &&& forall|i: int|
        0 <= i < s.next_frontier.len() ==> s.parents.contains_key(#[trigger] s.next_frontier[i])
    &&& s.round > 0 ==> s.frontier.no_duplicates()
    &&& s.round == 0 ==> s.frontier.len() <= 1
}

/// Reporting links queues no title twice.
proof fn lemma_claim_links_queued_once(s: SearchModel, current: Seq<char>, links: Seq<Seq<char>>)
    requires
        queued_once(s),
    ensures
        queued_once(s.claim_links(current, links)),
    decreases links.len(),
{
    if links.len() > 0 {
        let after = s.claim_link(current, links[0]);
        if !s.finds_target(links[0]) {
            lemma_claim_links_queued_once(after, current, links.drop_first());
        }
    }
}

/// No title is queued twice, whatever is reported: after any steps, the next frontier
/// holds each of its titles once, and every one of them has its entry in the discovery map.
pub proof fn theorem_queued_once(start: Seq<char>, target: Seq<char>, steps: Seq<Step>)
    ensures
        queued_once(state_after(start, target, steps)),
    decreases steps.len(),
{
    if steps.len() > 0 {
        let before = state_after(start, target, steps.drop_last());
        theorem_queued_once(start, target, steps.drop_last());
        match steps.last() {
            Step::Acquire => {},
            Step::Record { current, fetched } => {
                if before.in_flight.contains(current) {
                    if let Some(links) = fetched {
                        lemma_claim_links_queued_once(before.release(current), current, links);
                    }
                }
            },
            Step::EndRound => {},
        }
    }
}

} // verus!
