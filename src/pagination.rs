//! The page-to-page protocol of a search: which request fetches the next page,
//! and how a fetched page moves the postback state on.
use vstd::prelude::*;

use crate::model::{Error, SearchPageMeta, SearchPagePaginationMeta, SearchResult};
use crate::text::{lemma_mentions_middle, mentions};
use crate::parser::{
    links_next_page, page_is_empty, page_meta, page_results, parse_search_results,
    postback_fields, search_fails, shows_more_results,
};

verus! {

/// The search endpoint of the catalog.
pub const SEARCH_URL: &'static str = "https://www.catalog.update.microsoft.com/Search.aspx";

/// The detail endpoint of the catalog, up to the update identifier.
pub const UPDATE_URL: &'static str = "https://www.catalog.update.microsoft.com/ScopedViewInline.aspx?updateid=";

/// The name of the URL that url's `Url::parse` reads from `base`, with its
/// query replaced by `query` through `Url::set_query`, serialized; none where
/// `base` does not parse.
pub uninterp spec fn url_with_query(base: Seq<char>, query: Seq<char>) -> Option<Seq<char>>;

/// Relies on url's `Url::parse` and `Url::set_query`: whether `base` parses,
/// and the serialization of the URL with the query set, depend on `base` and
/// `query` alone.
#[verifier::external_body]
fn set_url_query(base: &str, query: &str) -> (r: Result<String, url::ParseError>)
    ensures
        match r {
            Ok(u) => url_with_query(base@, query@) == Some(u@),
            Err(_) => url_with_query(base@, query@) is None,
        },
{
    let mut url = url::Url::parse(base)?;
    url.set_query(Some(query));
    Ok(String::from(url))
}

/// The HTTP method of a request.
#[derive(Clone, Copy, Debug, PartialEq, Eq, Structural)]
pub enum Method {
    Get,
    Post,
}

/// A request for the transport to perform: a GET, or a POST of a form.
#[derive(Clone, Debug)]
pub struct RequestDescriptor {
    pub method: Method,
    pub url: String,
    /// The form fields of a POST, empty for a GET.
    pub form: Vec<(String, String)>,
}

/// The query part of a search URL.
pub open spec fn query_part(query: Seq<char>) -> Seq<char> {
    "q="@ + query
}

/// `build_request` gives the request for the page that `meta` leads to: a
/// GET of the search URL for the first page, a POST of the postback fields to
/// it after that.
pub fn build_request(query: &str, meta: &SearchPageMeta) -> (r: Result<RequestDescriptor, Error>)
    ensures
        match r {
            Ok(req) => {
                &&& url_with_query(SEARCH_URL@, query_part(query@)) == Some(req.url@)
                &&& meta.event_target@.len() == 0 ==> req.method == Method::Get && req.form@.len()
                    == 0
                &&& meta.event_target@.len() > 0 ==> req.method == Method::Post
                    && meta.is_postback_form(req.form@)
            },
            Err(e) => url_with_query(SEARCH_URL@, query_part(query@)) is None && e is Internal,
        },
{
    let q = String::from_str("q=").concat(query);
    let url = match set_url_query(SEARCH_URL, q.as_str()) {
        Ok(u) => u,
        Err(_) => {
            return Err(
                Error::Internal(
                    String::from_str("Failed to parse search url '").concat(SEARCH_URL).concat("'"),
                ),
            )
        },
    };
    if meta.event_target.as_str().unicode_len() == 0 {
        Ok(RequestDescriptor { method: Method::Get, url, form: Vec::new() })
    } else {
        Ok(RequestDescriptor { method: Method::Post, url, form: meta.as_map() })
    }
}

/// `detail_url` is the address of an update's detail page.
pub fn detail_url(update_id: &str) -> (r: String)
    ensures
        r@ == UPDATE_URL@ + update_id@,
{
    String::from_str(UPDATE_URL).concat(update_id)
}

/// `SearchResultsStream` walks the result pages of one query, carrying the
/// postback state from each page to the request for the next.
pub struct SearchResultsStream {
    query: String,
    meta: SearchPageMeta,
}

/// `after` holds the postback fields and page flags of the page `html`, and
/// keeps the page counters of `before`.
pub open spec fn advanced(html: Seq<char>, before: SearchPageMeta, after: SearchPageMeta) -> bool {
    &&& postback_fields(html, after)
    &&& after.pagination == (SearchPagePaginationMeta {
        has_next_page: links_next_page(html),
        too_many_results: shows_more_results(html),
        ..before.pagination
    })
}

/// `after` is `before` with no next page.
pub open spec fn ended(before: SearchPageMeta, after: SearchPageMeta) -> bool {
    after == (SearchPageMeta {
        pagination: SearchPagePaginationMeta { has_next_page: false, ..before.pagination },
        ..before
    })
}

impl SearchResultsStream {
    /// The query the stream searches for.
    pub closed spec fn query_spec(&self) -> Seq<char> {
        self.query@
    }

    /// The postback state the next request is built from.
    pub closed spec fn meta_spec(&self) -> SearchPageMeta {
        self.meta
    }

    /// A stream for `query` that starts from `meta`.
    pub fn new(meta: SearchPageMeta, query: &str) -> (r: Self)
        ensures
            r.query_spec() == query@,
            r.meta_spec() == meta,
    {
        SearchResultsStream { query: String::from_str(query), meta }
    }

    /// `result_count` returns the number of results the search reported.
    pub fn result_count(&self) -> (r: i16)
        ensures
            r == self.meta_spec().pagination.result_count,
    {
        self.meta.pagination.result_count
    }

    /// `page_count` returns the number of pages the search reported.
    pub fn page_count(&self) -> (r: i16)
        ensures
            r == self.meta_spec().pagination.page_count,
    {
        self.meta.pagination.page_count
    }

    /// `current_page` returns the number of the current page.
    pub fn current_page(&self) -> (r: i16)
        ensures
            r == self.meta_spec().pagination.current_page,
    {
        self.meta.pagination.current_page
    }

    /// `too_many_results` tells whether the query has more results than the
    /// catalog returns for one search.
    pub fn too_many_results(&self) -> (r: bool)
        ensures
            r == self.meta_spec().pagination.too_many_results,
    {
        self.meta.pagination.too_many_results
    }

    /// `has_next_page` tells whether another page is to be fetched.
    pub fn has_next_page(&self) -> (r: bool)
        ensures
            r == self.meta_spec().pagination.has_next_page,
    {
        self.meta.pagination.has_next_page
    }

    /// `next_request` gives the request for the next page, or `None` once the
    /// stream has ended, in which case nothing is to be sent.
    pub fn next_request(&self) -> (r: Result<Option<RequestDescriptor>, Error>)
        ensures
            !self.meta_spec().pagination.has_next_page ==> r matches Ok(None),
            self.meta_spec().pagination.has_next_page ==> match r {
                Ok(Some(req)) => {
                    &&& url_with_query(SEARCH_URL@, query_part(self.query_spec())) == Some(
                        req.url@,
                    )
                    &&& self.meta_spec().event_target@.len() == 0 ==> req.method == Method::Get
                    &&& self.meta_spec().event_target@.len() > 0 ==> req.method == Method::Post
                        && self.meta_spec().is_postback_form(req.form@)
                },
                Ok(None) => false,
                Err(e) => url_with_query(SEARCH_URL@, query_part(self.query_spec())) is None
                    && e is Internal,
            },
    {
        if !self.meta.pagination.has_next_page {
            return Ok(None);
        }
        match build_request(self.query.as_str(), &self.meta) {
            Ok(req) => Ok(Some(req)),
            Err(e) => Err(e),
        }
    }

    /// `process_search_page` takes the HTML of the page just fetched: it
    /// returns the page's records and moves the postback state on, or returns
    /// `None` and ends the stream where the page has no rows. A page that does
    /// not parse ends the stream with a search error that names the query.
    pub fn process_search_page(&mut self, html: String) -> (r: Result<
        Option<Vec<SearchResult>>,
        Error,
    >)
        ensures
            final(self).query_spec() == old(self).query_spec(),
            match r {
                Ok(Some(results)) => !search_fails(html@) && page_results(html@, results@)
                    && advanced(html@, old(self).meta_spec(), final(self).meta_spec()),
                Ok(None) => page_is_empty(html@) && ended(
                    old(self).meta_spec(),
                    final(self).meta_spec(),
                ),
                Err(Error::Search(m)) => search_fails(html@) && mentions(
                    m@,
                    old(self).query_spec(),
                ) && ended(old(self).meta_spec(), final(self).meta_spec()),
                Err(_) => false,
            },
    {
        match parse_search_results(html.as_str()) {
            Err(e) => {
                self.meta.pagination.has_next_page = false;
                let head = String::from_str("Failed to parse search results for ");
                let tail = String::from_str(": ").concat(e.message().as_str());
                let m = head.concat(self.query.as_str()).concat(tail.as_str());
                proof {
                    assert(m@ =~= head@ + self.query@ + tail@);
                    lemma_mentions_middle(head@, self.query@, tail@);
                }
                Err(Error::Search(m))
            },
            Ok(Some((page_meta_value, results))) => {
                let ghost m = page_meta_value;
                self.meta.event_target = page_meta_value.event_target;
                self.meta.event_argument = page_meta_value.event_argument;
                self.meta.event_validation = page_meta_value.event_validation;
                self.meta.view_state = page_meta_value.view_state;
                self.meta.view_state_generator = page_meta_value.view_state_generator;
                self.meta.pagination.has_next_page = page_meta_value.pagination.has_next_page;
                self.meta.pagination.too_many_results =
                page_meta_value.pagination.too_many_results;
                proof {
                    assert(page_meta(html@, m));
                }
                Ok(Some(results))
            },
            Ok(None) => {
                self.meta.pagination.has_next_page = false;
                Ok(None)
            },
        }
    }
}

} // verus!
