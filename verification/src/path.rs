//! Reading a path off the discovery map: from the target back to the start, parent by parent.

use vstd::prelude::*;
use crate::discovery::DiscoveryMap;
use crate::error::SearchError;

verus! {

/// What following the parents from a title leads to.
pub enum Trace {
    /// The start was reached; the titles from the start to the title the walk began at.
    Path(Seq<Seq<char>>),
    /// The walk arrived at this title, which is not the start and has no parent.
    Missing(Seq<char>),
    /// The walk used up its steps before it came to an end.
    Unfinished,
}

impl Trace {
    /// The same outcome for a walk that began at titles further from the start: `tail` holds
    /// them, nearest first.
    pub open spec fn followed_by(self, tail: Seq<Seq<char>>) -> Trace {
        match self {
            Trace::Path(path) => Trace::Path(path + tail),
            other => other,
        }
    }
}

/// Follows the parents from `from` for at most `steps` steps. The walk ends at the start, or
/// at a title without a parent.
pub open spec fn trace_back(
    parents: Map<Seq<char>, Seq<char>>,
    start: Seq<char>,
    from: Seq<char>,
    steps: nat,
) -> Trace
    decreases steps,
{
    if from == start {
        Trace::Path(seq![start])
    } else if !parents.contains_key(from) {
        Trace::Missing(from)
    } else if steps == 0 {
        Trace::Unfinished
    } else {
        trace_back(parents, start, parents[from], (steps - 1) as nat).followed_by(seq![from])
    }
}

/// The number of steps that a walk of at most `steps` steps from `from` takes.
pub open spec fn steps_taken(
    parents: Map<Seq<char>, Seq<char>>,
    start: Seq<char>,
    from: Seq<char>,
    steps: nat,
) -> nat
    decreases steps,
{
    if from == start || !parents.contains_key(from) || steps == 0 {
        0
    } else {
        1 + steps_taken(parents, start, parents[from], (steps - 1) as nat)
    }
}

/// The titles that a walk of at most `steps` steps from `from` leaves behind it.
pub open spec fn titles_left(
    parents: Map<Seq<char>, Seq<char>>,
    start: Seq<char>,
    from: Seq<char>,
    steps: nat,
) -> Set<Seq<char>>
    decreases steps,
{
    if from == start || !parents.contains_key(from) || steps == 0 {
        Set::empty()
    } else {
        titles_left(parents, start, parents[from], (steps - 1) as nat).insert(from)
    }
}

/// A walk that has come to its end is not changed by more steps.
pub proof fn lemma_trace_back_more_steps(
    parents: Map<Seq<char>, Seq<char>>,
    start: Seq<char>,
    from: Seq<char>,
    steps: nat,
    more: nat,
)
    requires
        !(trace_back(parents, start, from, steps) is Unfinished),
        steps <= more,
    ensures
        trace_back(parents, start, from, more) == trace_back(parents, start, from, steps),
        steps_taken(parents, start, from, more) == steps_taken(parents, start, from, steps),
    decreases steps,
{
    if from != start && parents.contains_key(from) {
        lemma_trace_back_more_steps(
            parents,
            start,
            parents[from],
            (steps - 1) as nat,
            (more - 1) as nat,
        );
    }
}

/// A walk that has come to its end needs no more steps than it took.
pub proof fn lemma_trace_back_steps_taken(
    parents: Map<Seq<char>, Seq<char>>,
    start: Seq<char>,
    from: Seq<char>,
    steps: nat,
)
    requires
        !(trace_back(parents, start, from, steps) is Unfinished),
    ensures
        steps_taken(parents, start, from, steps) <= steps,
        trace_back(parents, start, from, steps_taken(parents, start, from, steps)) == trace_back(
            parents,
            start,
            from,
            steps,
        ),
    decreases steps,
{
    if from != start && parents.contains_key(from) {
        lemma_trace_back_steps_taken(parents, start, parents[from], (steps - 1) as nat);
    }
}

/// The titles that a finished walk leaves behind it are as many as its steps, and each of
/// them has a parent: no title is left twice, since from each the walk has a different
/// number of steps to go.
proof fn lemma_titles_left(
    parents: Map<Seq<char>, Seq<char>>,
    start: Seq<char>,
    from: Seq<char>,
    steps: nat,
    bound: nat,
)
    requires
        !(trace_back(parents, start, from, steps) is Unfinished),
        steps <= bound,
    ensures
        titles_left(parents, start, from, steps).finite(),
        titles_left(parents, start, from, steps).len() == steps_taken(parents, start, from, steps),
        titles_left(parents, start, from, steps).subset_of(parents.dom()),
        forall|title: Seq<char>| #[trigger]
            titles_left(parents, start, from, steps).contains(title) ==> {
                &&& !(trace_back(parents, start, title, bound) is Unfinished)
                &&& 1 <= steps_taken(parents, start, title, bound) <= steps_taken(
                    parents,
                    start,
                    from,
                    bound,
                )
            },
    decreases steps,
{
    if from != start && parents.contains_key(from) {
        let parent = parents[from];
        lemma_titles_left(parents, start, parent, (steps - 1) as nat, bound);
        lemma_trace_back_more_steps(parents, start, from, steps, bound);
        lemma_trace_back_more_steps(
            parents,
            start,
            parent,
            (steps - 1) as nat,
            (bound - 1) as nat,
        );
        lemma_trace_back_more_steps(parents, start, parent, (steps - 1) as nat, bound);
    }
}

/// Whether a walk along the parents comes to an end does not depend on the steps it is
/// given, as long as they are as many as the map has entries: a walk that ends at all ends
/// within that many steps, and with the same outcome. So a walk that `reconstruct` gives up
/// as a `ParentCycle` never ends.
pub proof fn lemma_trace_back_settles(
    parents: Map<Seq<char>, Seq<char>>,
    start: Seq<char>,
    from: Seq<char>,
    steps: nat,
)
    requires
        parents.dom().finite(),
        !(trace_back(parents, start, from, steps) is Unfinished),
    ensures
        trace_back(parents, start, from, parents.len()) == trace_back(parents, start, from, steps),
{
    let taken = steps_taken(parents, start, from, steps);
    lemma_titles_left(parents, start, from, steps, steps);
    vstd::set_lib::lemma_len_subset(titles_left(parents, start, from, steps), parents.dom());
    lemma_trace_back_steps_taken(parents, start, from, steps);
    lemma_trace_back_more_steps(parents, start, from, taken, parents.len());
}

/// Whether `result` is what reading the path from `start` to `target` off `parents` gives:
/// the path where the chain of parents from `target` ends at `start` within as many steps as
/// there are entries, `MissingParent` where it breaks within as many, `ParentCycle` else.
pub open spec fn reads_path(
    parents: Map<Seq<char>, Seq<char>>,
    start: Seq<char>,
    target: Seq<char>,
    result: Result<Vec<String>, SearchError>,
) -> bool {
    match trace_back(parents, start, target, parents.len()) {
        Trace::Path(path) => result is Ok && result->Ok_0.deep_view() == path,
        Trace::Missing(title) => result matches Err(SearchError::MissingParent(t)) && t@ == title,
        Trace::Unfinished => result == Err::<Vec<String>, SearchError>(SearchError::ParentCycle),
    }
}

/// The path from `start` to `target` that `map` holds: the chain of parents from `target`,
/// turned round. The chain is followed for as many steps as the map has entries; a chain that
/// has not ended by then never ends.
///
/// Fails with `MissingParent` where the chain breaks at a title other than `start`, and with
/// `ParentCycle` where it does not end.
pub fn reconstruct(map: &DiscoveryMap, start: &str, target: &str) -> (result: Result<
    Vec<String>,
    SearchError,
>)
    requires
        map.well_formed(),
    ensures
        reads_path(map@, start@, target@, result),
{
    let budget: usize = map.len();
    let origin = start.to_owned();
    let mut reversed: Vec<String> = Vec::new();
    reversed.push(target.to_owned());
    let mut steps: usize = 0;
    let ghost mut tail: Seq<Seq<char>> = Seq::empty();
    loop
        invariant_except_break
            steps <= budget,
        invariant
            budget == map@.len(),
            origin@ == start@,
            reversed.len() == steps + 1,
            tail.len() == steps,
            forall|i: int| 0 <= i < steps ==> #[trigger] tail[i] == reversed.deep_view()[steps - 1 - i],
            trace_back(map@, start@, target@, budget as nat) == trace_back(
                map@,
                start@,
                reversed.deep_view()[steps as int],
                (budget - steps) as nat,
            ).followed_by(tail),
        ensures
            reversed.deep_view()[steps as int] == start@,
        decreases budget - steps,
    {
        if reversed[steps] == origin {
            break ;
        }
        let parent = match map.parent_of(reversed[steps].as_str()) {
            None => {
                return Err(SearchError::MissingParent(reversed[steps].clone()));
            },
            Some(parent) => parent.clone(),
        };
        if steps == budget {
            return Err(SearchError::ParentCycle);
        }
        proof {
            let here = reversed.deep_view()[steps as int];
            let rest = trace_back(map@, start@, parent@, (budget - steps - 1) as nat);
            if rest is Path {
                assert((rest->Path_0 + seq![here]) + tail == rest->Path_0 + (seq![here] + tail));
            }
            tail = seq![here] + tail;
        }
        reversed.push(parent);
        steps += 1;
    }
    let ghost walked = reversed.deep_view();
    let mut path: Vec<String> = Vec::new();
    let mut i: usize = reversed.len();
    while i > 0
        invariant
            i <= reversed.len(),
            reversed.len() == steps + 1,
            reversed.deep_view() == walked,
            path.len() == reversed.len() - i,
            forall|k: int| 0 <= k < path.len() ==> #[trigger] path.deep_view()[k] == walked[steps - k],
        decreases i,
    {
        i -= 1;
        let ghost before = path.deep_view();
        path.push(reversed[i].clone());
        assert(path.deep_view() == before.push(walked[i as int]));
    }
    assert(path.deep_view() == seq![start@] + tail);
    Ok(path)
}

} // verus!
