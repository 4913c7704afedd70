//! The queue of titles that carries one level of the search.

use vstd::prelude::*;
use std::collections::VecDeque;

verus! {

/// An unbounded first-in, first-out queue of titles.
pub struct TitleChannel {
    titles: VecDeque<String>,
}

impl View for TitleChannel {
    type V = Seq<Seq<char>>;

    /// The queued titles, oldest first.
    closed spec fn view(&self) -> Seq<Seq<char>> {
        self.titles.deep_view()
    }
}

impl TitleChannel {
    /// An empty queue.
    pub fn new() -> (channel: Self)
        ensures
            channel@ == Seq::<Seq<char>>::empty(),
    {
        TitleChannel { titles: VecDeque::new() }
    }

    /// The number of queued titles.
    pub fn len(&self) -> (n: usize)
        ensures
            n == self@.len(),
    {
        self.titles.len()
    }

    /// Whether no title is queued.
    pub fn is_empty(&self) -> (empty: bool)
        ensures
            empty == (self@.len() == 0),
    {
        self.titles.len() == 0
    }

    /// Queues `title` behind the others.
    pub fn send(&mut self, title: String)
        ensures
            final(self)@ == old(self)@.push(title@),
    {
        self.titles.push_back(title);
    }

    /// Takes the oldest title out of the queue; nothing where the queue is empty.
    pub fn recv(&mut self) -> (title: Option<String>)
        ensures
            old(self)@.len() == 0 ==> title is None && final(self)@ == old(self)@,
            old(self)@.len() > 0 ==> title is Some && title->0@ == old(self)@[0] && final(self)@
                == old(self)@.drop_first(),
    {
        self.titles.pop_front()
    }

    /// The queued titles, oldest first.
    pub fn to_vec(&self) -> (titles: Vec<String>)
        ensures
            titles.deep_view() == self@,
    {
        let mut titles: Vec<String> = Vec::new();
        let mut i: usize = 0;
        while i < self.titles.len()
            invariant
                i <= self.titles.len(),
                titles.len() == i,
                forall|j: int| 0 <= j < i ==> #[trigger] titles.deep_view()[j] == self@[j],
            decreases self.titles.len() - i,
        {
            let ghost before = titles.deep_view();
            titles.push(self.titles[i].clone());
            assert(titles.deep_view() == before.push(self@[i as int]));
            i += 1;
        }
        titles
    }

    /// Moves every title of `other` behind those of this queue, in their order, and leaves
    /// `other` empty.
    pub fn take_all(&mut self, other: &mut TitleChannel)
        ensures
            final(self)@ == old(self)@ + old(other)@,
            final(other)@ == Seq::<Seq<char>>::empty(),
    {
        self.titles.append(&mut other.titles);
    }
}

} // verus!
