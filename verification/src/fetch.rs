//! Gathering the links of one article from a paginated query.
//!
//! The caller sends the request that [`LinkQuery::request`] describes, decodes the reply and
//! hands it to [`LinkQuery::absorb`], which says whether another request is due. The links
//! are handed out only once the last part has been absorbed.

use vstd::prelude::*;
use crate::error::FetchError;
use crate::params::{distinct_keys, pairs_map, QueryParams};
use crate::response::{ReplyModel, WikiResponse};

verus! {

/// The successful status codes.
pub open spec fn is_success_status(code: u16) -> bool {
    200 <= code <= 299
}

/// Accepts a reply by its status code: an error for every code outside 200 to 299.
pub fn check_status(code: u16) -> (checked: Result<(), FetchError>)
    ensures
        is_success_status(code) ==> checked is Ok,
        !is_success_status(code) ==> checked == Err::<(), FetchError>(FetchError::Status(code)),
{
    if 200 <= code && code <= 299 {
        Ok(())
    } else {
        Err(FetchError::Status(code))
    }
}

/// The parameters of the first request for the links of `title`.
pub open spec fn first_request(title: Seq<char>) -> Map<Seq<char>, Seq<char>> {
    Map::<Seq<char>, Seq<char>>::empty().insert("action"@, "query"@).insert(
        "titles"@,
        title,
    ).insert("prop"@, "links"@).insert("pllimit"@, "max"@).insert("format"@, "json"@)
}

/// The state of a query for the links of a title, between two requests.
pub struct LinkQueryModel {
    /// The parameters of the next request.
    pub params: Map<Seq<char>, Seq<char>>,
    /// The titles gathered so far, in the order of the replies.
    pub links: Seq<Seq<char>>,
    /// Whether the last part of the answer has been absorbed.
    pub complete: bool,
}

impl LinkQueryModel {
    /// The state in which a query for the links of `title` begins.
    pub open spec fn begin(title: Seq<char>) -> LinkQueryModel {
        LinkQueryModel { params: first_request(title), links: Seq::empty(), complete: false }
    }

    /// The state after `reply`: its article links join the gathered ones, its continuation
    /// parameters replace or extend those of the next request, and the query is complete
    /// if it carries no continuation.
    pub open spec fn absorb(self, reply: ReplyModel) -> LinkQueryModel {
        LinkQueryModel {
            params: self.params.union_prefer_right(pairs_map(reply.continuation_pairs())),
            links: self.links + reply.article_titles(),
            complete: reply.continuation is None,
        }
    }

    /// The state after `replies`, one after the other.
    pub open spec fn absorb_all(self, replies: Seq<ReplyModel>) -> LinkQueryModel
        decreases replies.len(),
    {
        if replies.len() == 0 {
            self
        } else {
            self.absorb_all(replies.drop_last()).absorb(replies.last())
        }
    }
}

/// The links of an answer are those of all its parts: a query that has absorbed any number
/// of replies has gathered the article links of every one of them, in the order of the
/// replies, and none besides.
pub proof fn lemma_all_parts_gathered(q: LinkQueryModel, replies: Seq<ReplyModel>)
    ensures
        q.absorb_all(replies).links == q.links + replies.map_values(
            |reply: ReplyModel| reply.article_titles(),
        ).flatten(),
        replies.len() > 0 ==> q.absorb_all(replies).complete == (replies.last().continuation
            is None),
    decreases replies.len(),
{
    let titles = |reply: ReplyModel| reply.article_titles();
    if replies.len() > 0 {
        let front = replies.drop_last();
        lemma_all_parts_gathered(q, front);
        assert(replies == front.push(replies.last()));
        front.lemma_push_map_commute(titles, replies.last());
        front.map_values(titles).lemma_flatten_push(titles(replies.last()));
    }
}

/// One paginated query for the links of a title.
pub struct LinkQuery {
    params: QueryParams,
    links: Vec<String>,
    complete: bool,
}

impl View for LinkQuery {
    type V = LinkQueryModel;

    closed spec fn view(&self) -> LinkQueryModel {
        LinkQueryModel {
            params: self.params@,
            links: self.links.deep_view(),
            complete: self.complete,
        }
    }
}

impl LinkQuery {
    /// The representation is sound.
    pub closed spec fn well_formed(&self) -> bool {
        self.params.well_formed()
    }

    /// Starts a query for the links of `title`.
    pub fn new(title: &str) -> (query: Self)
        ensures
            query.well_formed(),
            query@ == LinkQueryModel::begin(title@),
    {
        let mut params = QueryParams::new();
        params.set("action".to_owned(), "query".to_owned());
        params.set("titles".to_owned(), title.to_owned());
        params.set("prop".to_owned(), "links".to_owned());
        params.set("pllimit".to_owned(), "max".to_owned());
        params.set("format".to_owned(), "json".to_owned());
        let links: Vec<String> = Vec::new();
        assert(links.deep_view() == Seq::<Seq<char>>::empty());
        LinkQuery { params, links, complete: false }
    }

    /// The parameters to send with the next request, each key once.
    pub fn request(&self) -> (pairs: &Vec<(String, String)>)
        requires
            self.well_formed(),
        ensures
            distinct_keys(pairs.deep_view()),
            pairs_map(pairs.deep_view()) == self@.params,
    {
        self.params.pairs()
    }

    /// Whether the last part of the answer has been absorbed.
    pub fn done(&self) -> (done: bool)
        ensures
            done == self@.complete,
    {
        self.complete
    }

    /// Takes in one reply: its article links join the gathered ones, and its continuation
    /// parameters replace or extend those of the next request. Returns whether another
    /// request is due, which is so exactly when the reply carries a continuation.
    pub fn absorb(&mut self, reply: &WikiResponse) -> (more: bool)
        requires
            old(self).well_formed(),
        ensures
            final(self).well_formed(),
            final(self)@ == old(self)@.absorb(reply.deep_view()),
            more == reply.deep_view().continuation is Some,
    {
        reply.collect_article_titles(&mut self.links);
        match &reply.continuation {
            Some(pairs) => {
                self.params.merge(pairs);
                self.complete = false;
                true
            },
            None => {
                assert(self.params@ == self.params@.union_prefer_right(
                    pairs_map(Seq::<(Seq<char>, Seq<char>)>::empty()),
                ));
                self.complete = true;
                false
            },
        }
    }

    /// The gathered links, once the answer is complete; nothing before that, so that a part
    /// of the answer is never taken for the whole.
    pub fn finish(self) -> (links: Option<Vec<String>>)
        ensures
            self@.complete ==> links is Some && links->0.deep_view() == self@.links,
            !self@.complete ==> links is None,
    {
        if self.complete {
            Some(self.links)
        } else {
            None
        }
    }
}

} // verus!
