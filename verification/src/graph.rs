//! The graph of articles and links, and distances in it.
//!
//! A graph gives each title the set of titles that its page links to. A title without an
//! entry has no links: that is also how a page stands whose links cannot be fetched.

use vstd::prelude::*;

verus! {

/// Whether the page of `from` links to `to`.
pub open spec fn linked(
    graph: Map<Seq<char>, Set<Seq<char>>>,
    from: Seq<char>,
    to: Seq<char>,
) -> bool {
    graph.contains_key(from) && graph[from].contains(to)
}

/// Whether `links` links in a row lead from `start` to `title`.
pub open spec fn reaches_in(
    graph: Map<Seq<char>, Set<Seq<char>>>,
    start: Seq<char>,
    title: Seq<char>,
    links: nat,
) -> bool
    decreases links,
{
    if links == 0 {
        title == start
    } else {
        exists|via: Seq<char>|
            reaches_in(graph, start, via, (links - 1) as nat) && #[trigger] linked(
                graph,
                via,
                title,
            )
    }
}

/// Whether `title` can be reached from `start` at all.
pub open spec fn reachable(
    graph: Map<Seq<char>, Set<Seq<char>>>,
    start: Seq<char>,
    title: Seq<char>,
) -> bool {
    exists|links: nat| reaches_in(graph, start, title, links)
}

/// Whether the distance from `start` to `title` is `distance`: so many links lead there, and
/// no fewer do.
pub open spec fn at_distance(
    graph: Map<Seq<char>, Set<Seq<char>>>,
    start: Seq<char>,
    title: Seq<char>,
    distance: nat,
) -> bool {
    &&& reaches_in(graph, start, title, distance)
    &&& forall|fewer: nat| fewer < distance ==> !reaches_in(graph, start, title, fewer)
}

/// The distance from `start` to `title`, where `title` can be reached.
pub open spec fn distance(
    graph: Map<Seq<char>, Set<Seq<char>>>,
    start: Seq<char>,
    title: Seq<char>,
) -> nat {
    choose|d: nat| at_distance(graph, start, title, d)
}

/// Whether each title of `path` links to the one behind it.
pub open spec fn is_walk(graph: Map<Seq<char>, Set<Seq<char>>>, path: Seq<Seq<char>>) -> bool {
    &&& path.len() > 0
    &&& forall|i: int| 0 <= i < path.len() - 1 ==> linked(graph, #[trigger] path[i], path[i + 1])
}

/// Whether `path` is a shortest path from `start` to `target`: a walk from the one to the
/// other with as many links as the distance between them.
pub open spec fn is_shortest_path(
    graph: Map<Seq<char>, Set<Seq<char>>>,
    start: Seq<char>,
    target: Seq<char>,
    path: Seq<Seq<char>>,
) -> bool {
    &&& is_walk(graph, path)
    &&& path.first() == start
    &&& path.last() == target
    &&& at_distance(graph, start, target, (path.len() - 1) as nat)
}

/// A title has one distance at most.
pub proof fn lemma_distance_unique(
    graph: Map<Seq<char>, Set<Seq<char>>>,
    start: Seq<char>,
    title: Seq<char>,
    a: nat,
    b: nat,
)
    requires
        at_distance(graph, start, title, a),
        at_distance(graph, start, title, b),
    ensures
        a == b,
{
}

/// `distance` gives the distance of every title that has one.
pub proof fn lemma_distance(
    graph: Map<Seq<char>, Set<Seq<char>>>,
    start: Seq<char>,
    title: Seq<char>,
    d: nat,
)
    requires
        at_distance(graph, start, title, d),
    ensures
        distance(graph, start, title) == d,
{
    lemma_distance_unique(graph, start, title, d, distance(graph, start, title));
}

/// A link lengthens a row of links by one.
pub proof fn lemma_reaches_next(
    graph: Map<Seq<char>, Set<Seq<char>>>,
    start: Seq<char>,
    via: Seq<char>,
    title: Seq<char>,
    links: nat,
)
    requires
        reaches_in(graph, start, via, links),
        linked(graph, via, title),
    ensures
        reaches_in(graph, start, title, links + 1),
{
}

/// The last title of a walk is reached from its first in as many links as the walk has.
pub proof fn lemma_walk_reaches(graph: Map<Seq<char>, Set<Seq<char>>>, path: Seq<Seq<char>>)
    requires
        is_walk(graph, path),
    ensures
        reaches_in(graph, path.first(), path.last(), (path.len() - 1) as nat),
    decreases path.len(),
{
    if path.len() > 1 {
        let front = path.drop_last();
        lemma_walk_reaches(graph, front);
        lemma_reaches_next(
            graph,
            path.first(),
            front.last(),
            path.last(),
            (front.len() - 1) as nat,
        );
    }
}

/// A title that can be reached has a distance.
pub proof fn lemma_reachable_has_distance(
    graph: Map<Seq<char>, Set<Seq<char>>>,
    start: Seq<char>,
    title: Seq<char>,
    links: nat,
)
    requires
        reaches_in(graph, start, title, links),
    ensures
        at_distance(graph, start, title, distance(graph, start, title)),
        distance(graph, start, title) <= links,
    decreases links,
{
    if exists|fewer: nat| fewer < links && reaches_in(graph, start, title, fewer) {
        let fewer = choose|fewer: nat| fewer < links && reaches_in(graph, start, title, fewer);
        lemma_reachable_has_distance(graph, start, title, fewer);
    } else {
        lemma_distance(graph, start, title, links);
    }
}

} // verus!
