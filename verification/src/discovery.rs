//! The record of discovered titles: each with the title that first led to it.

use vstd::prelude::*;
use vstd::hash_map::StringHashMap;

verus! {

/// What a claim makes of a map of parents: `child` gets `parent` unless it has one already.
pub open spec fn claim(
    parents: Map<Seq<char>, Seq<char>>,
    child: Seq<char>,
    parent: Seq<char>,
) -> Map<Seq<char>, Seq<char>> {
    if parents.contains_key(child) {
        parents
    } else {
        parents.insert(child, parent)
    }
}

/// Of any number of claims for one title only the first is granted: after a claim for
/// `child`, whoever made it, the title is taken, and a further claim for it leaves every
/// entry as it was, the parent of `child` included.
pub proof fn lemma_claim_once(
    parents: Map<Seq<char>, Seq<char>>,
    child: Seq<char>,
    first: Seq<char>,
    second: Seq<char>,
)
    ensures
        claim(parents, child, first).contains_key(child),
        claim(claim(parents, child, first), child, second) == claim(parents, child, first),
        !parents.contains_key(child) ==> claim(claim(parents, child, first), child, second)[child]
            == first,
{
}

/// A claim never changes an entry that was there before it.
pub proof fn lemma_claim_keeps_entries(
    parents: Map<Seq<char>, Seq<char>>,
    child: Seq<char>,
    parent: Seq<char>,
    title: Seq<char>,
)
    requires
        parents.contains_key(title),
    ensures
        claim(parents, child, parent).contains_key(title),
        claim(parents, child, parent)[title] == parents[title],
{
}

/// Maps each discovered title to its parent, the title on whose page it was first seen.
/// An entry is written once and never changed, so the map is at the same time the set of
/// titles already seen.
pub struct DiscoveryMap {
    parents: StringHashMap<String>,
}

impl View for DiscoveryMap {
    type V = Map<Seq<char>, Seq<char>>;

    /// The parent of each discovered title.
    closed spec fn view(&self) -> Map<Seq<char>, Seq<char>> {
        Map::new(
            |title: Seq<char>| self.parents@.contains_key(title),
            |title: Seq<char>| self.parents@[title]@,
        )
    }
}

impl DiscoveryMap {
    /// The representation is sound: the map holds finitely many titles.
    pub closed spec fn well_formed(&self) -> bool {
        self.parents@.dom().finite()
    }

    /// A well-formed map holds finitely many titles, and no more than can be counted.
    pub proof fn lemma_finite(&self)
        requires
            self.well_formed(),
        ensures
            self@.dom().finite(),
            self@.len() <= usize::MAX,
    {
        assert(self@.dom() == self.parents@.dom());
        vstd::hash_map::axiom_string_hash_map_spec_len(&self.parents);
    }

    /// A map without entries.
    pub fn new() -> (map: Self)
        ensures
            map.well_formed(),
            map@ == Map::<Seq<char>, Seq<char>>::empty(),
    {
        DiscoveryMap { parents: StringHashMap::new() }
    }

    /// The number of discovered titles.
    pub fn len(&self) -> (n: usize)
        requires
            self.well_formed(),
        ensures
            n == self@.len(),
    {
        assert(self@.dom() == self.parents@.dom());
        self.parents.len()
    }

    /// Whether `title` has been discovered.
    pub fn contains(&self, title: &str) -> (known: bool)
        ensures
            known == self@.contains_key(title@),
    {
        self.parents.contains_key(title)
    }

    /// The parent of `title`, if it has been discovered.
    pub fn parent_of(&self, title: &str) -> (parent: Option<&String>)
        ensures
            match parent {
                Some(p) => self@.contains_key(title@) && self@[title@] == p@,
                None => !self@.contains_key(title@),
            },
    {
        self.parents.get(title)
    }

    /// Records `parent` as the parent of `child` unless `child` has been discovered before.
    /// Returns whether the entry was written: `true` makes the caller the one discoverer of
    /// `child`; on `false` nothing has changed.
    pub fn try_claim(&mut self, child: String, parent: String) -> (claimed: bool)
        requires
            old(self).well_formed(),
        ensures
            final(self).well_formed(),
            claimed == !old(self)@.contains_key(child@),
            final(self)@ == claim(old(self)@, child@, parent@),
            claimed ==> final(self)@.len() == old(self)@.len() + 1,
    {
        if self.parents.contains_key(child.as_str()) {
            false
        } else {
            self.parents.insert(child, parent);
            assert(old(self)@.dom() == old(self).parents@.dom());
            true
        }
    }
}

} // verus!
