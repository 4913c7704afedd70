//! The shortest chain of links from one article of an encyclopedia to another.
//!
//! The graph of articles is not at hand when a search begins: the links of a page are
//! learnt by fetching it, which is slow and may fail. So the search is a breadth-first
//! search by rounds, made to be driven by many workers at once. This library holds its
//! state and its rules and does no fetching itself:
//!
//! - [`search`] is the state that workers and coordinator share, with the steps by which
//!   they change it; [`model`] says what each step does, [`levels`] why the rounds are the
//!   distances from the start, and [`laws`] what follows for every search.
//! - [`discovery`] is the record of the titles seen, each with the title that led to it,
//!   and [`path`] reads the path off that record. [`queue`] and [`signal`] are the queue of
//!   a round and the flag that stops the search.
//! - [`fetch`] gathers the links of one title from the parts of a paginated reply, which
//!   [`response`] and [`params`] describe.
//! - [`graph`] defines walks and distances, and [`table`] is a graph in memory with the
//!   search run on it.

pub mod discovery;
pub mod error;
pub mod fetch;
pub mod graph;
pub mod laws;
pub mod levels;
pub mod model;
pub mod params;
pub mod path;
pub mod queue;
pub mod response;
pub mod search;
pub mod signal;
pub mod table;
pub mod titles;
