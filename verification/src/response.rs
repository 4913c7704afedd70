//! One decoded reply of the encyclopedia's link query, and the article links it carries.

use vstd::prelude::*;

verus! {

/// One outgoing link of a page. Namespace zero holds the articles.
#[derive(Debug)]
pub struct Link {
    pub ns: u32,
    pub title: String,
}

/// The part of a reply that concerns one page. `links` is absent when the page has none
/// in this reply.
#[derive(Debug)]
pub struct Page {
    pub links: Option<Vec<Link>>,
}

/// The pages of a reply, each with its page id, in the order of the reply.
#[derive(Debug)]
pub struct Query {
    pub pages: Vec<(String, Page)>,
}

/// A reply to the link query. `continuation` holds the parameters that ask for the
/// following part of the answer; it is absent in the last part.
#[derive(Debug)]
pub struct WikiResponse {
    pub query: Query,
    pub continuation: Option<Vec<(String, String)>>,
}

/// A link as a value: its namespace and the title it points at.
pub struct LinkModel {
    pub ns: u32,
    pub title: Seq<char>,
}

/// A reply as a value.
pub struct ReplyModel {
    /// The pages with their ids; the links of each, where it has any.
    pub pages: Seq<(Seq<char>, Option<Seq<LinkModel>>)>,
    /// The pairs of key and value that ask for the following part.
    pub continuation: Option<Seq<(Seq<char>, Seq<char>)>>,
}

impl DeepView for Link {
    type V = LinkModel;

    open spec fn deep_view(&self) -> LinkModel {
        LinkModel { ns: self.ns, title: self.title@ }
    }
}

impl DeepView for Page {
    type V = Option<Seq<LinkModel>>;

    open spec fn deep_view(&self) -> Option<Seq<LinkModel>> {
        self.links.deep_view()
    }
}

impl DeepView for Query {
    type V = Seq<(Seq<char>, Option<Seq<LinkModel>>)>;

    open spec fn deep_view(&self) -> Seq<(Seq<char>, Option<Seq<LinkModel>>)> {
        self.pages.deep_view()
    }
}

impl DeepView for WikiResponse {
    type V = ReplyModel;

    open spec fn deep_view(&self) -> ReplyModel {
        ReplyModel {
            pages: self.query.deep_view(),
            continuation: self.continuation.deep_view(),
        }
    }
}

impl LinkModel {
    /// Whether the link points at an article.
    pub open spec fn is_article(self) -> bool {
        self.ns == 0
    }
}

/// The titles of the article links among `links`, in their order.
pub open spec fn article_titles(links: Seq<LinkModel>) -> Seq<Seq<char>> {
    links.filter(|l: LinkModel| l.is_article()).map_values(|l: LinkModel| l.title)
}

/// The titles of the article links of a page, in their order; none where the page has no
/// links.
pub open spec fn page_article_titles(page: Option<Seq<LinkModel>>) -> Seq<Seq<char>> {
    match page {
        Some(links) => article_titles(links),
        None => Seq::empty(),
    }
}

impl ReplyModel {
    /// The titles of all article links of the reply, page after page, each page's in order.
    pub open spec fn article_titles(self) -> Seq<Seq<char>> {
        self.pages.map_values(
            |entry: (Seq<char>, Option<Seq<LinkModel>>)| page_article_titles(entry.1),
        ).flatten()
    }

    /// The continuation parameters as pairs of key and value; none where the reply is the
    /// last part.
    pub open spec fn continuation_pairs(self) -> Seq<(Seq<char>, Seq<char>)> {
        match self.continuation {
            Some(pairs) => pairs,
            None => Seq::empty(),
        }
    }
}

impl Page {
    /// Appends the titles of the page's article links to `out`.
    pub fn collect_article_titles(&self, out: &mut Vec<String>)
        ensures
            final(out).deep_view() == old(out).deep_view() + page_article_titles(
                self.deep_view(),
            ),
    {
        match &self.links {
            Some(links) => {
                let ghost before = out.deep_view();
                let ghost models = links.deep_view();
                let mut i: usize = 0;
                while i < links.len()
                    invariant
                        i <= links.len(),
                        models == links.deep_view(),
                        out.deep_view() == before + article_titles(models.take(i as int)),
                    decreases links.len() - i,
                {
                    let ghost seen = models.take(i as int);
                    let ghost grown = out.deep_view();
                    proof {
                        models.lemma_take_succ_push(i as int);
                        seen.lemma_filter_push(models[i as int], |l: LinkModel| l.is_article());
                        seen.filter(|l: LinkModel| l.is_article()).lemma_push_map_commute(
                            |l: LinkModel| l.title,
                            models[i as int],
                        );
                    }
                    if links[i].ns == 0 {
                        out.push(links[i].title.clone());
                        assert(out.deep_view() == grown.push(models[i as int].title));
                    }
                    i += 1;
                }
                assert(models.take(links.len() as int) == models);
            },
            None => {},
        }
    }
}

impl WikiResponse {
    /// Whether another part of the answer remains to be asked for.
    pub fn has_continuation(&self) -> (more: bool)
        ensures
            more == self.deep_view().continuation is Some,
    {
        self.continuation.is_some()
    }

    /// Appends the titles of the reply's article links to `out`.
    pub fn collect_article_titles(&self, out: &mut Vec<String>)
        ensures
            final(out).deep_view() == old(out).deep_view() + self.deep_view().article_titles(),
    {
        let ghost before = out.deep_view();
        let ghost per_page = |entry: (Seq<char>, Option<Seq<LinkModel>>)|
            page_article_titles(entry.1);
        let ghost models = self.query.pages.deep_view();
        let pages = &self.query.pages;
        let mut i: usize = 0;
        while i < pages.len()
            invariant
                i <= pages.len(),
                models == pages.deep_view(),
                per_page == |entry: (Seq<char>, Option<Seq<LinkModel>>)|
                    page_article_titles(entry.1),
                out.deep_view() == before + models.take(i as int).map_values(per_page).flatten(),
            decreases pages.len() - i,
        {
            let ghost seen = models.take(i as int);
            proof {
                models.lemma_take_succ_push(i as int);
                seen.lemma_push_map_commute(per_page, models[i as int]);
                seen.map_values(per_page).lemma_flatten_push(per_page(models[i as int]));
            }
            pages[i].1.collect_article_titles(out);
            i += 1;
        }
        assert(models.take(pages.len() as int) == models);
    }
}

} // verus!
