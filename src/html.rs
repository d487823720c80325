//! The boundary to scraper: a parsed page and compiled selectors, with what a
//! query on them returns named over the page's source text and the
//! selector's text.
use vstd::prelude::*;

verus! {

#[verifier::external_type_specification]
#[verifier::external_body]
pub struct ExHtml(scraper::Html);

#[verifier::external_type_specification]
#[verifier::external_body]
pub struct ExSelector(scraper::Selector);

/// Whether scraper's `Selector::parse` accepts the selector text `sel`.
pub uninterp spec fn selector_compiles(sel: Seq<char>) -> bool;

/// For the document that scraper's `Html::parse_document` builds from `html`:
/// the text of each element that `sel` matches (its descendant text nodes,
/// concatenated), in the order `Html::select` yields the elements.
pub uninterp spec fn matched_texts(html: Seq<char>, sel: Seq<char>) -> Seq<Seq<char>>;

/// For the same elements as `matched_texts`: the value of the attribute
/// `attr` on each, if it has one.
pub uninterp spec fn matched_attrs(html: Seq<char>, sel: Seq<char>, attr: Seq<char>) -> Seq<
    Option<Seq<char>>,
>;

/// The text of the first descendant that `inner` matches of the element at
/// position `i` among those that `outer` matches; none where either is missing.
pub uninterp spec fn inner_text(html: Seq<char>, outer: Seq<char>, i: int, inner: Seq<char>) -> Option<
    Seq<char>,
>;

/// A parsed HTML document together with the text it was parsed from.
pub(crate) struct Page {
    source: String,
    dom: scraper::Html,
}

/// A compiled CSS selector together with its text.
pub(crate) struct Query {
    text: String,
    compiled: scraper::Selector,
}

impl Page {
    /// The text the page was parsed from.
    pub closed spec fn source(&self) -> Seq<char> {
        self.source@
    }

    /// Relies on scraper's `Html::parse_document`, which accepts any text.
    #[verifier::external_body]
    pub(crate) fn parse(html: &str) -> (r: Page)
        ensures
            r.source() == html@,
    {
        Page { source: html.to_string(), dom: scraper::Html::parse_document(html) }
    }

    /// Relies on scraper's `Html::select` and `ElementRef::text`: the text of
    /// every element that `q` matches, in the order `select` yields them.
    #[verifier::external_body]
    pub(crate) fn texts(&self, q: &Query) -> (r: Vec<String>)
        ensures
            r@.len() == matched_texts(self.source(), q.text()).len(),
            forall|k: int|
                0 <= k < r@.len() ==> #[trigger] r@[k]@ == matched_texts(
                    self.source(),
                    q.text(),
                )[k],
    {
        self.dom.select(&q.compiled).map(|e| e.text().collect::<String>()).collect()
    }

    /// Relies on scraper's `Html::select` and `ElementRef::attr`: the value of
    /// `attr` on every element that `q` matches, in the order `select` yields
    /// them, which is the order `texts` uses.
    #[verifier::external_body]
    pub(crate) fn attrs(&self, q: &Query, attr: &str) -> (r: Vec<Option<String>>)
        ensures
            r@.len() == matched_attrs(self.source(), q.text(), attr@).len(),
            r@.len() == matched_texts(self.source(), q.text()).len(),
            forall|k: int|
                0 <= k < r@.len() ==> match #[trigger] r@[k] {
                    Some(v) => matched_attrs(self.source(), q.text(), attr@)[k] == Some(v@),
                    None => matched_attrs(self.source(), q.text(), attr@)[k] is None,
                },
    {
        self.dom.select(&q.compiled).map(|e| e.value().attr(attr).map(String::from)).collect()
    }

    /// Relies on scraper's `Html::select` and `ElementRef::select`: the text
    /// of the first descendant that `inner` matches of the `i`-th element that
    /// `outer` matches.
    #[verifier::external_body]
    pub(crate) fn inner_text(&self, outer: &Query, i: usize, inner: &Query) -> (r: Option<String>)
        ensures
            match r {
                Some(t) => inner_text(self.source(), outer.text(), i as int, inner.text()) == Some(
                    t@,
                ),
                None => inner_text(self.source(), outer.text(), i as int, inner.text()) is None,
            },
    {
        self.dom.select(&outer.compiled).nth(i).and_then(|row| row.select(&inner.compiled).next()).map(
            |e| e.text().collect::<String>(),
        )
    }
}

impl Query {
    /// The selector's text.
    pub closed spec fn text(&self) -> Seq<char> {
        self.text@
    }

    /// Relies on scraper's `Selector::parse`: whether a selector is accepted
    /// depends on its text alone.
    #[verifier::external_body]
    pub(crate) fn compile(text: &str) -> (r: Result<Query, String>)
        ensures
            match r {
                Ok(q) => selector_compiles(text@) && q.text() == text@,
                Err(_) => !selector_compiles(text@),
            },
    {
        scraper::Selector::parse(text).map(|compiled| Query { text: text.to_string(), compiled }).map_err(
            |e| e.to_string(),
        )
    }
}

} // verus!
