//! Why the search finds shortest paths: what every state of a search holds, whatever the
//! order in which workers take titles and report on them.
//!
//! The statements are made of a graph and a search whose reports agree with it: a
//! successful fetch reports the links that the graph gives the title, and a fetch fails
//! only for a title to which the graph gives none. They then hold of the initial state and
//! are kept by every step, so they hold as long as the search runs.

use vstd::prelude::*;
use crate::graph::{
    at_distance,
    distance,
    is_shortest_path,
    lemma_distance,
    lemma_reachable_has_distance,
    lemma_reaches_next,
    linked,
    reachable,
    reaches_in,
};
use crate::model::SearchModel;
use crate::path::{lemma_trace_back_settles, trace_back, Trace};

verus! {

/// Whether `title` belongs to the round that is under way and has not been reported on: it
/// waits in the frontier or is in flight.
pub open spec fn pending(s: SearchModel, title: Seq<char>) -> bool {
    s.frontier.contains(title) || s.in_flight.contains(title)
}

/// Whether a report on `current` agrees with `graph`.
pub open spec fn agrees(
    graph: Map<Seq<char>, Set<Seq<char>>>,
    current: Seq<char>,
    fetched: Option<Seq<Seq<char>>>,
) -> bool {
    match fetched {
        Some(links) => forall|title: Seq<char>|
            links.contains(title) <==> #[trigger] linked(graph, current, title),
        None => forall|title: Seq<char>| !#[trigger] linked(graph, current, title),
    }
}

/// What the entry of a discovered title says: its parent links to it and lies one link
/// nearer to the start, and its distance is no more than one beyond the round.
pub open spec fn entry_sound(
    s: SearchModel,
    graph: Map<Seq<char>, Set<Seq<char>>>,
    title: Seq<char>,
) -> bool {
    let parent = s.parents[title];
    let d = distance(graph, s.start, title);
    &&& linked(graph, parent, title)
    &&& at_distance(graph, s.start, title, d)
    &&& 1 <= d <= s.round + 1
    &&& d == 1 ==> parent == s.start
    &&& d > 1 ==> parent != s.start && s.parents.contains_key(parent) && distance(
        graph,
        s.start,
        parent,
    ) == d - 1
}

/// Every discovered title but the start has a sound entry.
pub open spec fn entries_sound(s: SearchModel, graph: Map<Seq<char>, Set<Seq<char>>>) -> bool {
    forall|title: Seq<char>|
        s.parents.contains_key(title) && title != s.start ==> #[trigger] entry_sound(
            s,
            graph,
            title,
        )
}

/// Whether `title` may be expanded in this round: it is the start, or a discovered title
/// whose distance is the number of the round.
pub open spec fn on_level(
    s: SearchModel,
    graph: Map<Seq<char>, Set<Seq<char>>>,
    title: Seq<char>,
) -> bool {
    title == s.start || (s.parents.contains_key(title) && distance(graph, s.start, title)
        == s.round)
}

/// Every pending title is on the level of the round.
pub open spec fn frontier_on_level(s: SearchModel, graph: Map<Seq<char>, Set<Seq<char>>>) -> bool {
    forall|title: Seq<char>| #[trigger] pending(s, title) ==> on_level(s, graph, title)
}

/// Every title of the next frontier is discovered and, unless it is the start, lies one
/// link beyond the level of the round.
pub open spec fn next_on_level(s: SearchModel, graph: Map<Seq<char>, Set<Seq<char>>>) -> bool {
    forall|title: Seq<char>| #[trigger]
        s.next_frontier.contains(title) ==> s.parents.contains_key(title) && (title == s.start
            || distance(graph, s.start, title) == s.round + 1)
}

/// Every link of a title nearer to the start than the level of the round leads to a
/// discovered title.
pub open spec fn nearer_expanded(s: SearchModel, graph: Map<Seq<char>, Set<Seq<char>>>) -> bool {
    forall|from: Seq<char>, to: Seq<char>, links: nat|
        links < s.round && #[trigger] reaches_in(graph, s.start, from, links) && #[trigger] linked(
            graph,
            from,
            to,
        ) ==> s.parents.contains_key(to)
}

/// Every discovered title beyond the level of the round waits in the next frontier, the
/// start and the target apart.
pub open spec fn beyond_listed(s: SearchModel, graph: Map<Seq<char>, Set<Seq<char>>>) -> bool {
    forall|title: Seq<char>| #[trigger]
        s.parents.contains_key(title) && title != s.start && title != s.target && distance(
            graph,
            s.start,
            title,
        ) == s.round + 1 ==> s.next_frontier.contains(title)
}

/// Every link of a title of this level that is not pending leads to a discovered title,
/// but for the links in `todo` of the title `busy`, which a worker is about to report.
pub open spec fn level_expanded(
    s: SearchModel,
    graph: Map<Seq<char>, Set<Seq<char>>>,
    busy: Seq<char>,
    todo: Seq<Seq<char>>,
) -> bool {
    forall|from: Seq<char>, to: Seq<char>|
        reaches_in(graph, s.start, from, s.round) && !pending(s, from) && #[trigger] linked(
            graph,
            from,
            to,
        ) ==> s.parents.contains_key(to) || (from == busy && todo.contains(to))
}

/// What holds of a search while a worker reports the links `todo` of `busy`.
pub open spec fn sound_while(
    s: SearchModel,
    graph: Map<Seq<char>, Set<Seq<char>>>,
    busy: Seq<char>,
    todo: Seq<Seq<char>>,
) -> bool {
    &&& s.start != s.target
    &&& s.stopped <==> s.parents.contains_key(s.target)
    &&& s.stopped ==> distance(graph, s.start, s.target) == s.round + 1
    &&& entries_sound(s, graph)
    &&& frontier_on_level(s, graph)
    &&& next_on_level(s, graph)
    &&& nearer_expanded(s, graph)
    &&& beyond_listed(s, graph)
    &&& !s.stopped ==> level_expanded(s, graph, busy, todo)
}

/// What holds of a search between the steps of its workers and its coordinator.
pub open spec fn sound(s: SearchModel, graph: Map<Seq<char>, Set<Seq<char>>>) -> bool {
    sound_while(s, graph, s.start, Seq::empty())
}

/// The state in which a search begins is sound.
pub proof fn lemma_initial_sound(
    start: Seq<char>,
    target: Seq<char>,
    graph: Map<Seq<char>, Set<Seq<char>>>,
)
    requires
        start != target,
    ensures
        sound(SearchModel::initial(start, target), graph),
{
    let s = SearchModel::initial(start, target);
    assert(s.frontier[0] == start);
    assert(pending(s, start));
}

/// Taking a title keeps the search sound.
pub proof fn lemma_acquire_sound(s: SearchModel, graph: Map<Seq<char>, Set<Seq<char>>>)
    requires
        sound(s, graph),
    ensures
        sound(s.acquire(), graph),
{
    let after = s.acquire();
    if s.can_acquire() {
        assert forall|title: Seq<char>| pending(after, title) == pending(s, title) by {
            lemma_acquire_pending(s, title);
        }
        assert(entries_sound(after, graph)) by {
            assert forall|title: Seq<char>|
                after.parents.contains_key(title) && title != after.start implies #[trigger] entry_sound(
                after,
                graph,
                title,
            ) by {
                assert(entry_sound(s, graph, title));
            }
        }
    }
}

/// Taking a title leaves pending what was pending.
proof fn lemma_acquire_pending(s: SearchModel, title: Seq<char>)
    requires
        s.can_acquire(),
    ensures
        pending(s.acquire(), title) == pending(s, title),
{
    let after = s.acquire();
    if s.frontier.contains(title) {
        let i = choose|i: int| 0 <= i < s.frontier.len() && s.frontier[i] == title;
        if i > 0 {
            assert(after.frontier[i - 1] == title);
        }
    }
    if after.frontier.contains(title) {
        let i = choose|i: int| 0 <= i < after.frontier.len() && after.frontier[i] == title;
        assert(s.frontier[i + 1] == title);
    }
}

/// The distance of a link that is claimed: one more than the number of the round.
proof fn lemma_claimed_distance(
    s: SearchModel,
    graph: Map<Seq<char>, Set<Seq<char>>>,
    busy: Seq<char>,
    link: Seq<char>,
)
    requires
        entries_sound(s, graph),
        nearer_expanded(s, graph),
        on_level(s, graph, busy),
        linked(graph, busy, link),
        !s.parents.contains_key(link),
        link != s.start,
    ensures
        at_distance(graph, s.start, link, s.round + 1),
        distance(graph, s.start, link) == s.round + 1,
        s.round == 0 ==> busy == s.start,
        s.round > 0 ==> busy != s.start && s.parents.contains_key(busy) && distance(
            graph,
            s.start,
            busy,
        ) == s.round,
{
    if busy == s.start {
        assert(reaches_in(graph, s.start, s.start, 0));
        if s.round > 0 {
            assert(s.parents.contains_key(link));
        }
    } else {
        assert(entry_sound(s, graph, busy));
    }
    assert(reaches_in(graph, s.start, busy, s.round));
    lemma_reaches_next(graph, s.start, busy, link, s.round);
    assert forall|fewer: nat| fewer < s.round + 1 implies !reaches_in(
        graph,
        s.start,
        link,
        fewer,
    ) by {
        if reaches_in(graph, s.start, link, fewer) {
            if fewer > 0 {
                let via = choose|via: Seq<char>|
                    reaches_in(graph, s.start, via, (fewer - 1) as nat) && #[trigger] linked(
                        graph,
                        via,
                        link,
                    );
                assert(reaches_in(graph, s.start, via, (fewer - 1) as nat));
                assert(s.parents.contains_key(link));
            }
        }
    }
    lemma_distance(graph, s.start, link, s.round + 1);
}

/// Reporting one link keeps sound what the search holds while links are reported.
proof fn lemma_claim_link_sound(
    s: SearchModel,
    graph: Map<Seq<char>, Set<Seq<char>>>,
    busy: Seq<char>,
    todo: Seq<Seq<char>>,
)
    requires
        sound_while(s, graph, busy, todo),
        on_level(s, graph, busy),
        todo.len() > 0,
        linked(graph, busy, todo[0]),
    ensures
        sound_while(s.claim_link(busy, todo[0]), graph, busy, todo.drop_first()),
        on_level(s.claim_link(busy, todo[0]), graph, busy),
{
    let link = todo[0];
    let rest = todo.drop_first();
    let after = s.claim_link(busy, link);
    assert forall|title: Seq<char>| pending(after, title) == pending(s, title) by {}
    assert forall|to: Seq<char>| todo.contains(to) && to != link implies rest.contains(to) by {
        let i = choose|i: int| 0 <= i < todo.len() && todo[i] == to;
        assert(rest[i - 1] == to);
    }
    if !s.parents.contains_key(link) {
        if link != s.start {
            lemma_claimed_distance(s, graph, busy, link);
        }
        assert(entries_sound(after, graph)) by {
            assert forall|title: Seq<char>|
                after.parents.contains_key(title) && title != after.start implies #[trigger] entry_sound(
                after,
                graph,
                title,
            ) by {
                if title != link {
                    assert(entry_sound(s, graph, title));
                }
            }
        }
        assert(next_on_level(after, graph)) by {
            assert forall|title: Seq<char>| #[trigger]
                after.next_frontier.contains(title) implies after.parents.contains_key(title) && (
            title == after.start || distance(graph, after.start, title) == after.round + 1) by {
                if title != link {
                    assert(s.next_frontier.contains(title));
                }
            }
        }
        assert(beyond_listed(after, graph)) by {
            assert forall|title: Seq<char>| #[trigger]
                after.parents.contains_key(title) && title != after.start && title != after.target
                    && distance(graph, after.start, title) == after.round + 1 implies after.next_frontier.contains(
            title) by {
                if title == link {
                    assert(after.next_frontier[after.next_frontier.len() - 1] == link);
                } else {
                    assert(s.parents.contains_key(title));
                    assert(s.next_frontier.contains(title));
                    let i = choose|i: int|
                        0 <= i < s.next_frontier.len() && s.next_frontier[i] == title;
                    assert(after.next_frontier[i] == title);
                }
            }
        }
        assert(frontier_on_level(after, graph)) by {
            assert forall|title: Seq<char>| #[trigger] pending(after, title) implies on_level(
                after,
                graph,
                title,
            ) by {
                assert(pending(s, title));
            }
        }
    }
}

/// Reporting the links of a title keeps the search sound.
proof fn lemma_claim_links_sound(
    s: SearchModel,
    graph: Map<Seq<char>, Set<Seq<char>>>,
    busy: Seq<char>,
    todo: Seq<Seq<char>>,
)
    requires
        sound_while(s, graph, busy, todo),
        on_level(s, graph, busy),
        forall|i: int| 0 <= i < todo.len() ==> linked(graph, busy, #[trigger] todo[i]),
    ensures
        sound(s.claim_links(busy, todo), graph),
    decreases todo.len(),
{
    if todo.len() > 0 {
        lemma_claim_link_sound(s, graph, busy, todo);
        let after = s.claim_link(busy, todo[0]);
        let rest = todo.drop_first();
        if !s.finds_target(todo[0]) {
            assert forall|i: int| 0 <= i < rest.len() implies linked(
                graph,
                busy,
                #[trigger] rest[i],
            ) by {
                assert(rest[i] == todo[i + 1]);
            }
            lemma_claim_links_sound(after, graph, busy, rest);
        }
    }
}

/// A report that agrees with the graph keeps the search sound: a failed fetch as well as a
/// successful one, and one that discovers the target as well as one that does not.
pub proof fn lemma_record_sound(
    s: SearchModel,
    graph: Map<Seq<char>, Set<Seq<char>>>,
    current: Seq<char>,
    fetched: Option<Seq<Seq<char>>>,
)
    requires
        sound(s, graph),
        agrees(graph, current, fetched),
    ensures
        sound(s.record(current, fetched), graph),
{
    if s.in_flight.contains(current) {
        let released = s.release(current);
        let todo = match fetched {
            Some(links) => links,
            None => Seq::empty(),
        };
        assert(pending(s, current));
        assert forall|title: Seq<char>| pending(released, title) implies pending(s, title) by {}
        assert forall|title: Seq<char>| pending(s, title) && title != current implies pending(
            released,
            title,
        ) by {}
        assert(entries_sound(released, graph)) by {
            assert forall|title: Seq<char>|
                released.parents.contains_key(title) && title != released.start implies #[trigger] entry_sound(
                released,
                graph,
                title,
            ) by {
                assert(entry_sound(s, graph, title));
            }
        }
        assert(frontier_on_level(released, graph)) by {
            assert forall|title: Seq<char>| #[trigger] pending(released, title) implies on_level(
                released,
                graph,
                title,
            ) by {
                assert(pending(s, title));
            }
        }
        assert(sound_while(released, graph, current, todo));
        assert forall|i: int| 0 <= i < todo.len() implies linked(
            graph,
            current,
            #[trigger] todo[i],
        ) by {
            assert(todo.contains(todo[i]));
        }
        lemma_claim_links_sound(released, graph, current, todo);
    }
}

/// Ending a round keeps the search sound.
pub proof fn lemma_end_round_sound(s: SearchModel, graph: Map<Seq<char>, Set<Seq<char>>>)
    requires
        sound(s, graph),
    ensures
        sound(s.end_round(), graph),
{
    let after = s.end_round();
    if s.continues() {
        assert(s.frontier + s.next_frontier == s.next_frontier);
        assert forall|title: Seq<char>| !pending(s, title) by {}
        assert forall|title: Seq<char>| pending(after, title) == s.next_frontier.contains(
            title,
        ) by {}
        assert(entries_sound(after, graph)) by {
            assert forall|title: Seq<char>|
                after.parents.contains_key(title) && title != after.start implies #[trigger] entry_sound(
                after,
                graph,
                title,
            ) by {
                assert(entry_sound(s, graph, title));
            }
        }
        assert(frontier_on_level(after, graph)) by {
            assert forall|title: Seq<char>| #[trigger] pending(after, title) implies on_level(
                after,
                graph,
                title,
            ) by {
                assert(s.next_frontier.contains(title));
            }
        }
        assert(nearer_expanded(after, graph)) by {
            assert forall|from: Seq<char>, to: Seq<char>, links: nat|
                links < after.round && #[trigger] reaches_in(graph, after.start, from, links)
                    && #[trigger] linked(graph, from, to) implies after.parents.contains_key(
                to,
            ) by {
                if links == s.round {
                    assert(!pending(s, from));
                }
            }
        }
        assert(beyond_listed(after, graph)) by {
            assert forall|title: Seq<char>| #[trigger]
                after.parents.contains_key(title) && title != after.start && title != after.target
                    && distance(graph, after.start, title) == after.round + 1 implies after.next_frontier.contains(
            title) by {
                assert(entry_sound(s, graph, title));
            }
        }
        assert(level_expanded(after, graph, after.start, Seq::empty())) by {
            assert forall|from: Seq<char>, to: Seq<char>|
                reaches_in(graph, after.start, from, after.round) && !pending(after, from)
                    && #[trigger] linked(graph, from, to) implies after.parents.contains_key(
                to,
            ) by {
                lemma_reachable_has_distance(graph, s.start, from, after.round);
                let d = distance(graph, s.start, from);
                if d <= s.round {
                    assert(reaches_in(graph, s.start, from, d));
                    if d == s.round {
                        assert(!pending(s, from));
                    }
                } else {
                    let via = choose|via: Seq<char>|
                        reaches_in(graph, s.start, via, (after.round - 1) as nat)
                            && #[trigger] linked(graph, via, from);
                    assert(reaches_in(graph, s.start, via, s.round));
                    assert(!pending(s, via));
                    assert(s.parents.contains_key(from));
                    assert(reaches_in(graph, s.start, s.start, 0));
                    assert(s.next_frontier.contains(from));
                }
            }
        }
    }
}

/// The round is the distance: in a sound search every title that waits in the frontier or
/// is in flight lies as many links from the start as rounds have been completed, and no
/// fewer lead to it. The start is left out: it is expanded in the first round whatever
/// leads back to it, and a page that links to it brings it into a later frontier once more.
pub proof fn lemma_frontier_at_round(
    s: SearchModel,
    graph: Map<Seq<char>, Set<Seq<char>>>,
    title: Seq<char>,
)
    requires
        sound(s, graph),
        pending(s, title),
        title != s.start,
    ensures
        at_distance(graph, s.start, title, s.round),
{
    assert(on_level(s, graph, title));
    assert(entry_sound(s, graph, title));
}

/// The chain of parents from a discovered title is a shortest path to it.
proof fn lemma_entry_path(
    s: SearchModel,
    graph: Map<Seq<char>, Set<Seq<char>>>,
    title: Seq<char>,
    d: nat,
)
    requires
        entries_sound(s, graph),
        s.parents.contains_key(title),
        title != s.start,
        distance(graph, s.start, title) == d,
    ensures
        trace_back(s.parents, s.start, title, d) is Path,
        is_shortest_path(
            graph,
            s.start,
            title,
            trace_back(s.parents, s.start, title, d)->Path_0,
        ),
        trace_back(s.parents, s.start, title, d)->Path_0.len() == d + 1,
    decreases d,
{
    assert(entry_sound(s, graph, title));
    let parent = s.parents[title];
    let path = trace_back(s.parents, s.start, title, d)->Path_0;
    if d > 1 {
        lemma_entry_path(s, graph, parent, (d - 1) as nat);
        let front = trace_back(s.parents, s.start, parent, (d - 1) as nat)->Path_0;
        assert(path == front + seq![title]);
        assert forall|i: int| 0 <= i < path.len() - 1 implies linked(
            graph,
            #[trigger] path[i],
            path[i + 1],
        ) by {
            if i < front.len() - 1 {
                assert(linked(graph, front[i], front[i + 1]));
            }
        }
    } else {
        assert(path == seq![s.start] + seq![title]);
    }
}

/// The path that a search finds is a shortest one: once the target is discovered, the chain
/// of parents from it reads, turned round, as a walk through the graph from the start to
/// the target that has as many links as the distance between the two, which is one more
/// than the rounds completed.
pub proof fn lemma_found_path_shortest(s: SearchModel, graph: Map<Seq<char>, Set<Seq<char>>>)
    requires
        sound(s, graph),
        s.stopped,
        s.parents.dom().finite(),
    ensures
        trace_back(s.parents, s.start, s.target, s.parents.len()) is Path,
        is_shortest_path(
            graph,
            s.start,
            s.target,
            trace_back(s.parents, s.start, s.target, s.parents.len())->Path_0,
        ),
        trace_back(s.parents, s.start, s.target, s.parents.len())->Path_0.len() == s.round + 2,
{
    let d = s.round + 1;
    lemma_entry_path(s, graph, s.target, d);
    lemma_trace_back_settles(s.parents, s.start, s.target, d);
}

/// In a search that has ended as exhausted, every title that can be reached from the start
/// is the start or discovered.
proof fn lemma_exhausted_closed(
    s: SearchModel,
    graph: Map<Seq<char>, Set<Seq<char>>>,
    title: Seq<char>,
    links: nat,
)
    requires
        sound(s, graph),
        s.exhausted(),
        reaches_in(graph, s.start, title, links),
    ensures
        title == s.start || s.parents.contains_key(title),
    decreases links,
{
    if links > 0 {
        let via = choose|via: Seq<char>|
            reaches_in(graph, s.start, via, (links - 1) as nat) && #[trigger] linked(
                graph,
                via,
                title,
            );
        lemma_exhausted_closed(s, graph, via, (links - 1) as nat);
        lemma_reachable_has_distance(graph, s.start, via, (links - 1) as nat);
        let d = distance(graph, s.start, via);
        assert(reaches_in(graph, s.start, via, d));
        assert(!pending(s, via));
        if d > s.round {
            assert(reaches_in(graph, s.start, s.start, 0));
            assert(entry_sound(s, graph, via));
            assert(s.next_frontier.contains(via));
        }
    }
}

/// A search ends as exhausted only where there is no path: the target cannot be reached
/// from the start by any number of links.
pub proof fn lemma_exhausted_unreachable(s: SearchModel, graph: Map<Seq<char>, Set<Seq<char>>>)
    requires
        sound(s, graph),
        s.exhausted(),
    ensures
        !reachable(graph, s.start, s.target),
{
    if reachable(graph, s.start, s.target) {
        let links = choose|links: nat| reaches_in(graph, s.start, s.target, links);
        lemma_exhausted_closed(s, graph, s.target, links);
    }
}

} // verus!
