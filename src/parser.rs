//! Turning a search-result page into records and the next page's postback
//! state.
use vstd::prelude::*;

use crate::html::{inner_text, matched_attrs, matched_texts, selector_compiles, Page, Query};
use crate::model::{Error, SearchPageMeta, SearchPagePaginationMeta, SearchResult};
use crate::text::{
    lemma_mentions_middle, lemma_mentions_within, mentions, occurs_at,
    chars_of, copy_range, lemma_split_nonempty, push_all, split_chars, split_on,
    strip_prefixes, strip_prefixes_chars, strip_suffix_chars, strip_suffix_chars_exec, string_of,
    trim, trim_chars,
};
use crate::values::{
    date_of, is_digit, kb_of, literal_eq, optional_of, parse_kb_from_string, parse_optional_string,
    parse_search_row_id, parse_size_from_mb_string, parse_update_date, row_id_parts, size_of,
    ROW_MARK,
};

verus! {

/// The banner of a page that reports an error in place of results.
pub const ERROR_BANNER: &'static str = "div#errorPageDisplayedError";

/// The text before the error code inside the error banner.
pub const ERROR_CODE_PREFIX: &'static str = "[Error number: ";

/// The message that accompanies an error the catalog reports in a page.
pub const SITE_ERROR_MESSAGE: &'static str = "received 500 error from Microsoft Update Catalog";

/// The rows of the results table.
pub const RESULT_ROWS: &'static str = "div#tableContainer tr";

/// The id of the results table's header row.
pub const HEADER_ROW_ID: &'static str = "headerRow";

/// The link to the next result page.
pub const NEXT_PAGE_LINK: &'static str = "#ctl00_catalogBody_nextPageLinkText";

/// The postback event target that asks for the next result page.
pub const NEXT_PAGE_TARGET: &'static str = "ctl00$catalogBody$nextPageLinkText";

/// The banner shown when a query has more results than the catalog returns.
pub const MORE_RESULTS: &'static str = "#ctl00_catalogBody_moreResults";

/// The hidden inputs that carry the postback state.
pub const EVENT_ARGUMENT_INPUT: &'static str = "#__EVENTARGUMENT";

pub const EVENT_VALIDATION_INPUT: &'static str = "#__EVENTVALIDATION";

pub const VIEW_STATE_INPUT: &'static str = "#__VIEWSTATE";

pub const VIEW_STATE_GENERATOR_INPUT: &'static str = "#__VIEWSTATEGENERATOR";

/// The columns of a result row.
#[derive(Clone, Copy, Debug, PartialEq, Eq, Structural)]
pub enum SearchResColumn {
    Title,
    Product,
    Classification,
    LastUpdated,
    Version,
    Size,
}

/// The digit that numbers a column in a cell id.
pub open spec fn column_digit(c: SearchResColumn) -> char {
    match c {
        SearchResColumn::Title => '1',
        SearchResColumn::Product => '2',
        SearchResColumn::Classification => '3',
        SearchResColumn::LastUpdated => '4',
        SearchResColumn::Version => '5',
        SearchResColumn::Size => '6',
    }
}

fn column_char(c: SearchResColumn) -> (r: char)
    ensures
        r == column_digit(c),
{
    match c {
        SearchResColumn::Title => '1',
        SearchResColumn::Product => '2',
        SearchResColumn::Classification => '3',
        SearchResColumn::LastUpdated => '4',
        SearchResColumn::Version => '5',
        SearchResColumn::Size => '6',
    }
}

/// The selector of the cell `{update_id}_C{column}_R{row}`. A leading decimal
/// digit cannot start a CSS identifier, so it is written as its code-point
/// escape: `\3` and the digit, then a space that ends the escape.
pub open spec fn cell_selector(update_id: Seq<char>, column: SearchResColumn, row: Seq<char>) -> Seq<
    char,
> {
    let tail = "_C"@.push(column_digit(column)) + ROW_MARK@ + row;
    if is_digit(update_id[0]) {
        "td#\\3"@.push(update_id[0]).push(' ') + update_id.drop_first() + tail
    } else {
        "td#"@ + update_id + tail
    }
}

/// What `select_with_path` finds: the text of the first element that `path`
/// matches, without surrounding white space.
pub open spec fn first_text(html: Seq<char>, path: Seq<char>) -> Option<Seq<char>> {
    if selector_compiles(path) && matched_texts(html, path).len() > 0 {
        Some(trim(matched_texts(html, path)[0]))
    } else {
        None
    }
}

/// What `get_element_attr` finds: the attribute `attr` of the first element
/// that `path` matches.
pub open spec fn first_attr(html: Seq<char>, path: Seq<char>, attr: Seq<char>) -> Option<Seq<char>> {
    if selector_compiles(path) && matched_attrs(html, path, attr).len() > 0 {
        matched_attrs(html, path, attr)[0]
    } else {
        None
    }
}

/// The text held, or the empty text.
pub open spec fn or_empty(o: Option<Seq<char>>) -> Seq<char> {
    match o {
        Some(s) => s,
        None => Seq::empty(),
    }
}

/// The error code in the text of an error banner, "[Error number: <code>]".
pub open spec fn site_error_code(banner: Seq<char>) -> Seq<char> {
    strip_suffix_chars(strip_prefixes(trim(banner), ERROR_CODE_PREFIX@), ']')
}

/// The page shows the error banner.
pub open spec fn shows_error_banner(html: Seq<char>) -> bool {
    selector_compiles(ERROR_BANNER@) && matched_texts(html, ERROR_BANNER@).len() > 0
}

/// The id attribute of each row of the results table.
pub open spec fn row_ids(html: Seq<char>) -> Seq<Option<Seq<char>>> {
    matched_attrs(html, RESULT_ROWS@, "id"@)
}

/// The positions of the rows that are not the header row, in order.
pub open spec fn data_rows(ids: Seq<Option<Seq<char>>>) -> Seq<int>
    decreases ids.len(),
{
    if ids.len() == 0 {
        Seq::empty()
    } else if ids.last() == Some(HEADER_ROW_ID@) {
        data_rows(ids.drop_last())
    } else {
        data_rows(ids.drop_last()).push(ids.len() - 1)
    }
}

/// The text of one cell of row `i`, whose id parts are `update_id` and `row`.
pub open spec fn cell_text(
    html: Seq<char>,
    i: int,
    column: SearchResColumn,
    update_id: Seq<char>,
    row: Seq<char>,
) -> Option<Seq<char>> {
    let sel = cell_selector(update_id, column, row);
    if update_id.len() > 0 && selector_compiles(sel) {
        match inner_text(html, RESULT_ROWS@, i, sel) {
            Some(t) => Some(trim(t)),
            None => None,
        }
    } else {
        None
    }
}

/// The text of one cell of row `i`, located through the row's id.
pub open spec fn row_cell(html: Seq<char>, i: int, column: SearchResColumn) -> Option<Seq<char>> {
    match row_ids(html)[i] {
        Some(id) => match row_id_parts(id) {
            Some(parts) => cell_text(html, i, column, parts.0, parts.1),
            None => None,
        },
        None => None,
    }
}

/// The first line of a size cell, which the catalog follows with the size in
/// another unit.
pub open spec fn size_line(cell: Seq<char>) -> Seq<char> {
    trim(split_on(cell, '\n')[0])
}

/// Row `i` has an id of the right shape and every cell converts.
pub open spec fn row_parses(html: Seq<char>, i: int) -> bool {
    &&& row_ids(html)[i] is Some
    &&& row_id_parts(row_ids(html)[i]->0) is Some
    &&& row_cell(html, i, SearchResColumn::Title) is Some
    &&& kb_of(row_cell(html, i, SearchResColumn::Title)->0) is Some
    &&& row_cell(html, i, SearchResColumn::Product) is Some
    &&& row_cell(html, i, SearchResColumn::Classification) is Some
    &&& row_cell(html, i, SearchResColumn::LastUpdated) is Some
    &&& date_of(row_cell(html, i, SearchResColumn::LastUpdated)->0) is Some
    &&& row_cell(html, i, SearchResColumn::Version) is Some
    &&& row_cell(html, i, SearchResColumn::Size) is Some
    &&& size_of(size_line(row_cell(html, i, SearchResColumn::Size)->0)) is Some
}

/// `r` is the record that row `i` yields.
pub open spec fn row_result(html: Seq<char>, i: int, r: SearchResult) -> bool {
    &&& row_parses(html, i)
    &&& r.title@ == row_cell(html, i, SearchResColumn::Title)->0
    &&& r.id@ == (row_id_parts(row_ids(html)[i]->0)->0).0
    &&& r.kb@ == kb_of(r.title@)->0
    &&& r.product@ == row_cell(html, i, SearchResColumn::Product)->0
    &&& r.classification@ == row_cell(html, i, SearchResColumn::Classification)->0
    &&& Some(r.last_modified) == date_of(row_cell(html, i, SearchResColumn::LastUpdated)->0)
    &&& match r.version {
        Some(v) => optional_of(row_cell(html, i, SearchResColumn::Version)->0) == Some(v@),
        None => optional_of(row_cell(html, i, SearchResColumn::Version)->0) is None,
    }
    &&& Some(r.size) == size_of(size_line(row_cell(html, i, SearchResColumn::Size)->0))
}

/// Every row but the header converts.
pub open spec fn all_rows_parse(html: Seq<char>) -> bool {
    forall|k: int|
        0 <= k < data_rows(row_ids(html)).len() ==> row_parses(
            html,
            #[trigger] data_rows(row_ids(html))[k],
        )
}

/// The page links to a next page.
pub open spec fn links_next_page(html: Seq<char>) -> bool {
    first_text(html, NEXT_PAGE_LINK@) is Some
}

/// The page says the query has more results than the catalog returns.
pub open spec fn shows_more_results(html: Seq<char>) -> bool {
    first_text(html, MORE_RESULTS@) is Some
}

/// The five postback fields of `meta` are those the page hands on: the
/// next-page target where the page links a next page, the hidden inputs'
/// values otherwise, an absent optional input giving the empty text.
pub open spec fn postback_fields(html: Seq<char>, meta: SearchPageMeta) -> bool {
    &&& meta.event_target@ == (if links_next_page(html) {
        NEXT_PAGE_TARGET@
    } else {
        Seq::empty()
    })
    &&& meta.event_argument@ == or_empty(first_attr(html, EVENT_ARGUMENT_INPUT@, "value"@))
    &&& meta.event_validation@ == or_empty(first_attr(html, EVENT_VALIDATION_INPUT@, "value"@))
    &&& Some(meta.view_state@) == first_attr(html, VIEW_STATE_INPUT@, "value"@)
    &&& meta.view_state_generator@ == or_empty(
        first_attr(html, VIEW_STATE_GENERATOR_INPUT@, "value"@),
    )
}

/// `meta` is the postback state that the page hands to the next request.
pub open spec fn page_meta(html: Seq<char>, meta: SearchPageMeta) -> bool {
    &&& postback_fields(html, meta)
    &&& meta.pagination == (SearchPagePaginationMeta {
        has_next_page: links_next_page(html),
        too_many_results: shows_more_results(html),
        current_page: 0,
        page_size: 0,
        page_count: 0,
        result_count: 0,
    })
}

/// The page cannot be turned into records: a selector does not compile, the
/// catalog reports an error, a row does not convert, or a page with rows
/// lacks its view state.
pub open spec fn search_fails(html: Seq<char>) -> bool {
    ||| !selector_compiles(ERROR_BANNER@)
    ||| shows_error_banner(html)
    ||| !selector_compiles(RESULT_ROWS@)
    ||| !all_rows_parse(html)
    ||| data_rows(row_ids(html)).len() > 0 && first_attr(html, VIEW_STATE_INPUT@, "value"@) is None
}

/// The page parses and has no result rows: the search has ended.
pub open spec fn page_is_empty(html: Seq<char>) -> bool {
    !search_fails(html) && data_rows(row_ids(html)).len() == 0
}

/// `results` are the records of the page's rows, of which there is at least one.
pub open spec fn page_results(html: Seq<char>, results: Seq<SearchResult>) -> bool {
    let rows = data_rows(row_ids(html));
    &&& rows.len() > 0
    &&& results.len() == rows.len()
    &&& forall|k: int| 0 <= k < rows.len() ==> row_result(html, rows[k], #[trigger] results[k])
}

/// What `parse_search_results` returns for the page `html`.
pub open spec fn search_outcome(
    html: Seq<char>,
    r: Result<Option<(SearchPageMeta, Vec<SearchResult>)>, Error>,
) -> bool {
    let rows = data_rows(row_ids(html));
    match r {
        Ok(Some((meta, results))) => {
            &&& selector_compiles(ERROR_BANNER@) && !shows_error_banner(html)
            &&& selector_compiles(RESULT_ROWS@)
            &&& rows.len() > 0
            &&& results@.len() == rows.len()
            &&& forall|k: int| 0 <= k < rows.len() ==> row_result(html, rows[k], #[trigger] results@[k])
            &&& page_meta(html, meta)
        },
        Ok(None) => {
            &&& selector_compiles(ERROR_BANNER@) && !shows_error_banner(html)
            &&& selector_compiles(RESULT_ROWS@)
            &&& all_rows_parse(html)
            &&& rows.len() == 0
        },
        Err(Error::Msuc(m, code)) => {
            &&& shows_error_banner(html)
            &&& m@ == SITE_ERROR_MESSAGE@
            &&& code@ == site_error_code(matched_texts(html, ERROR_BANNER@)[0])
        },
        Err(e) => {
            &&& e is Parsing
            &&& {
                ||| !selector_compiles(ERROR_BANNER@)
                ||| !shows_error_banner(html) && !selector_compiles(RESULT_ROWS@)
                ||| !shows_error_banner(html) && selector_compiles(RESULT_ROWS@) && !all_rows_parse(
                    html,
                )
                ||| !shows_error_banner(html) && selector_compiles(RESULT_ROWS@) && all_rows_parse(
                    html,
                ) && rows.len() > 0 && first_attr(html, VIEW_STATE_INPUT@, "value"@) is None
            }
        },
    }
}

proof fn lemma_data_rows_prefix(ids: Seq<Option<Seq<char>>>, j: int)
    requires
        0 <= j <= ids.len(),
    ensures
        data_rows(ids.subrange(0, j)).len() <= data_rows(ids).len(),
        forall|k: int|
            0 <= k < data_rows(ids.subrange(0, j)).len() ==> #[trigger] data_rows(
                ids.subrange(0, j),
            )[k] == data_rows(ids)[k],
    decreases ids.len(),
{
    if j == ids.len() {
        assert(ids.subrange(0, j) =~= ids);
    } else {
        let shorter = ids.drop_last();
        assert(ids.subrange(0, j) =~= shorter.subrange(0, j));
        lemma_data_rows_prefix(shorter, j);
    }
}

pub(crate) fn get_element_text(raw: &String) -> (r: String)
    ensures
        r@ == trim(raw@),
{
    let chars = chars_of(raw.as_str());
    let t = trim_chars(chars.as_slice());
    string_of(t.as_slice())
}

pub(crate) fn compile(path: &str) -> (r: Result<Query, Error>)
    ensures
        match r {
            Ok(q) => selector_compiles(path@) && q.text() == path@,
            Err(e) => !selector_compiles(path@) && e is Parsing,
        },
{
    match Query::compile(path) {
        Ok(q) => Ok(q),
        Err(m) => Err(Error::Parsing(m)),
    }
}

/// The text of the first element that `path` matches.
pub(crate) fn select_with_path(page: &Page, path: &str) -> (r: Result<String, Error>)
    ensures
        match r {
            Ok(t) => first_text(page.source(), path@) == Some(t@),
            Err(e) => first_text(page.source(), path@) is None && e is Parsing,
        },
{
    let q = match compile(path) {
        Ok(q) => q,
        Err(e) => return Err(e),
    };
    let texts = page.texts(&q);
    if texts.len() == 0 {
        return Err(
            Error::Parsing(
                String::from_str("Failed to find element with selector '").concat(path).concat("'"),
            ),
        );
    }
    Ok(get_element_text(&texts[0]))
}

/// The attribute `attr` of the first element that `path` matches.
fn get_element_attr(page: &Page, path: &str, attr: &str) -> (r: Result<String, Error>)
    ensures
        match r {
            Ok(v) => first_attr(page.source(), path@, attr@) == Some(v@),
            Err(e) => first_attr(page.source(), path@, attr@) is None && e is Parsing,
        },
{
    let q = match compile(path) {
        Ok(q) => q,
        Err(e) => return Err(e),
    };
    let values = page.attrs(&q, attr);
    if values.len() == 0 {
        return Err(
            Error::Parsing(
                String::from_str("Failed to find element with selector '").concat(path).concat("'"),
            ),
        );
    }
    match &values[0] {
        Some(v) => Ok(v.clone()),
        None => Err(
            Error::Parsing(
                String::from_str("Failed to find attribute '").concat(attr).concat(
                    "' for element",
                ),
            ),
        ),
    }
}

/// Fails with the catalog's error code where the page shows the error banner.
fn parse_hidden_error_page(page: &Page) -> (r: Result<(), Error>)
    ensures
        match r {
            Ok(_) => selector_compiles(ERROR_BANNER@) && !shows_error_banner(page.source()),
            Err(Error::Msuc(m, code)) => shows_error_banner(page.source()) && m@
                == SITE_ERROR_MESSAGE@ && code@ == site_error_code(
                matched_texts(page.source(), ERROR_BANNER@)[0],
            ),
            Err(e) => !selector_compiles(ERROR_BANNER@) && e is Parsing,
        },
{
    let q = match compile(ERROR_BANNER) {
        Ok(q) => q,
        Err(e) => return Err(e),
    };
    let texts = page.texts(&q);
    if texts.len() == 0 {
        return Ok(());
    }
    let trimmed = trim_chars(chars_of(texts[0].as_str()).as_slice());
    let prefix = chars_of(ERROR_CODE_PREFIX);
    let without_prefix = strip_prefixes_chars(trimmed.as_slice(), prefix.as_slice());
    let code = strip_suffix_chars_exec(without_prefix.as_slice(), ']');
    Err(Error::Msuc(String::from_str(SITE_ERROR_MESSAGE), string_of(code.as_slice())))
}

/// The name of a column, as error messages give it.
pub open spec fn column_label(c: SearchResColumn) -> Seq<char> {
    match c {
        SearchResColumn::Title => "Title"@,
        SearchResColumn::Product => "Product"@,
        SearchResColumn::Classification => "Classification"@,
        SearchResColumn::LastUpdated => "LastUpdated"@,
        SearchResColumn::Version => "Version"@,
        SearchResColumn::Size => "Size"@,
    }
}

fn column_name(c: SearchResColumn) -> (r: &'static str)
    ensures
        r@ == column_label(c),
{
    match c {
        SearchResColumn::Title => "Title",
        SearchResColumn::Product => "Product",
        SearchResColumn::Classification => "Classification",
        SearchResColumn::LastUpdated => "LastUpdated",
        SearchResColumn::Version => "Version",
        SearchResColumn::Size => "Size",
    }
}

/// The message `m` names the update id, the column and the row of a cell.
pub open spec fn names_cell(
    m: Seq<char>,
    update_id: Seq<char>,
    column: SearchResColumn,
    row: Seq<char>,
) -> bool {
    mentions(m, update_id) && mentions(m, column_label(column)) && mentions(m, row)
}

/// A description of one cell, for error messages.
fn cell_context(column: SearchResColumn, update_id: &str, row_id: &str) -> (r: String)
    ensures
        names_cell(r@, update_id@, column, row_id@),
{
    let a = String::from_str("id '");
    let b = String::from_str("', column '");
    let c = String::from_str(column_name(column));
    let d = String::from_str("', row '");
    let e = String::from_str("'");
    let r = a.concat(update_id).concat(b.as_str()).concat(c.as_str()).concat(d.as_str()).concat(
        row_id,
    ).concat(e.as_str());
    proof {
        assert(r@ =~= a@ + update_id@ + (b@ + c@ + d@ + row_id@ + e@));
        lemma_mentions_middle(a@, update_id@, b@ + c@ + d@ + row_id@ + e@);
        assert(r@ =~= (a@ + update_id@ + b@) + c@ + (d@ + row_id@ + e@));
        lemma_mentions_middle(a@ + update_id@ + b@, c@, d@ + row_id@ + e@);
        assert(r@ =~= (a@ + update_id@ + b@ + c@ + d@) + row_id@ + e@);
        lemma_mentions_middle(a@ + update_id@ + b@ + c@ + d@, row_id@, e@);
    }
    r
}

proof fn lemma_names_cell_within(
    a: Seq<char>,
    m: Seq<char>,
    b: Seq<char>,
    update_id: Seq<char>,
    column: SearchResColumn,
    row: Seq<char>,
)
    requires
        names_cell(m, update_id, column, row),
    ensures
        names_cell(a + m + b, update_id, column, row),
{
    lemma_mentions_within(a, m, b, update_id);
    lemma_mentions_within(a, m, b, column_label(column));
    lemma_mentions_within(a, m, b, row);
}

/// `row_cell_selector` builds the selector text of one cell of a result row;
/// an empty update id is an error that names the cell.
pub fn row_cell_selector(column: SearchResColumn, update_id: &str, row_id: &str) -> (r: Result<
    String,
    Error,
>)
    ensures
        match r {
            Ok(s) => update_id@.len() > 0 && s@ == cell_selector(update_id@, column, row_id@),
            Err(Error::Parsing(m)) => update_id@.len() == 0 && names_cell(
                m@,
                update_id@,
                column,
                row_id@,
            ),
            Err(_) => false,
        },
{
    let id = chars_of(update_id);
    if id.len() == 0 {
        let head = String::from_str("the update_id is empty for ");
        let context = cell_context(column, update_id, row_id);
        let m = head.concat(context.as_str());
        proof {
            assert(m@ =~= head@ + context@ + Seq::<char>::empty());
            lemma_names_cell_within(head@, context@, Seq::empty(), update_id@, column, row_id@);
        }
        return Err(Error::Parsing(m));
    }
    let first = id[0];
    let mut out: Vec<char>;
    if '0' <= first && first <= '9' {
        out = chars_of("td#\\3");
        out.push(first);
        out.push(' ');
        let rest = copy_range(id.as_slice(), 1, id.len());
        proof {
            assert(rest@ =~= id@.drop_first());
        }
        push_all(&mut out, rest.as_slice());
    } else {
        out = chars_of("td#");
        push_all(&mut out, id.as_slice());
    }
    let ghost head = out@;
    push_all(&mut out, chars_of("_C").as_slice());
    out.push(column_char(column));
    push_all(&mut out, chars_of(ROW_MARK).as_slice());
    push_all(&mut out, chars_of(row_id).as_slice());
    proof {
        assert(out@ =~= head + ("_C"@.push(column_digit(column)) + ROW_MARK@ + row_id@));
    }
    Ok(string_of(out.as_slice()))
}

/// The compiled selector of one cell of a result row.
fn get_search_row_selector(column: SearchResColumn, update_id: &str, row_id: &str) -> (r: Result<
    Query,
    Error,
>)
    ensures
        match r {
            Ok(q) => update_id@.len() > 0 && q.text() == cell_selector(update_id@, column, row_id@)
                && selector_compiles(q.text()),
            Err(Error::Parsing(m)) => (update_id@.len() == 0 || !selector_compiles(
                cell_selector(update_id@, column, row_id@),
            )) && names_cell(m@, update_id@, column, row_id@),
            Err(_) => false,
        },
{
    let text = match row_cell_selector(column, update_id, row_id) {
        Ok(t) => t,
        Err(e) => return Err(e),
    };
    match Query::compile(text.as_str()) {
        Ok(q) => Ok(q),
        Err(reason) => {
            let head = String::from_str("Failed to parse selector '").concat(text.as_str()).concat(
                "' for ",
            );
            let context = cell_context(column, update_id, row_id);
            let tail = String::from_str(": ").concat(reason.as_str());
            let m = head.concat(context.as_str()).concat(tail.as_str());
            proof {
                assert(m@ =~= head@ + context@ + tail@);
                lemma_names_cell_within(head@, context@, tail@, update_id@, column, row_id@);
            }
            Err(Error::Parsing(m))
        },
    }
}

/// The text of one cell of row `i`. A missing cell is an error that names
/// the update id, the column, the row and the selector.
fn get_search_row_text(
    page: &Page,
    rows: &Query,
    i: usize,
    column: SearchResColumn,
    update_id: &str,
    row_id: &str,
) -> (r: Result<String, Error>)
    requires
        rows.text() == RESULT_ROWS@,
    ensures
        match r {
            Ok(t) => cell_text(page.source(), i as int, column, update_id@, row_id@) == Some(t@),
            Err(Error::Parsing(m)) => {
                &&& cell_text(page.source(), i as int, column, update_id@, row_id@) is None
                &&& names_cell(m@, update_id@, column, row_id@)
                &&& update_id@.len() > 0 && selector_compiles(
                    cell_selector(update_id@, column, row_id@),
                ) ==> mentions(m@, cell_selector(update_id@, column, row_id@))
            },
            Err(_) => false,
        },
{
    let cell = match get_search_row_selector(column, update_id, row_id) {
        Ok(q) => q,
        Err(e) => return Err(e),
    };
    match page.inner_text(rows, i, &cell) {
        Some(t) => Ok(get_element_text(&t)),
        None => {
            let head = String::from_str("no result for ");
            let context = cell_context(column, update_id, row_id);
            let middle = String::from_str(" with given selector '");
            let selector = match row_cell_selector(column, update_id, row_id) {
                Ok(s) => s,
                Err(e) => return Err(e),
            };
            let end = String::from_str("'");
            let m = head.concat(context.as_str()).concat(middle.as_str()).concat(
                selector.as_str(),
            ).concat(end.as_str());
            proof {
                assert(m@ =~= head@ + context@ + (middle@ + selector@ + end@));
                lemma_names_cell_within(
                    head@,
                    context@,
                    middle@ + selector@ + end@,
                    update_id@,
                    column,
                    row_id@,
                );
                assert(m@ =~= (head@ + context@ + middle@) + selector@ + end@);
                lemma_mentions_middle(head@ + context@ + middle@, selector@, end@);
            }
            Err(Error::Parsing(m))
        },
    }
}

/// The first line of a size cell, without surrounding white space.
fn first_line(cell: &String) -> (r: String)
    ensures
        r@ == size_line(cell@),
{
    let chars = chars_of(cell.as_str());
    let lines = split_chars(chars.as_slice(), '\n');
    proof {
        lemma_split_nonempty(chars@, '\n');
    }
    let t = trim_chars(lines[0].as_slice());
    string_of(t.as_slice())
}

/// The record that row `i` of the results table yields.
fn parse_search_row(page: &Page, rows: &Query, i: usize, id: &Option<String>) -> (r: Result<
    SearchResult,
    Error,
>)
    requires
        rows.text() == RESULT_ROWS@,
        0 <= i < row_ids(page.source()).len(),
        match id {
            Some(v) => row_ids(page.source())[i as int] == Some(v@),
            None => row_ids(page.source())[i as int] is None,
        },
    ensures
        match r {
            Ok(res) => row_result(page.source(), i as int, res),
            Err(e) => !row_parses(page.source(), i as int) && e is Parsing,
        },
{
    let id = match id {
        Some(v) => v,
        None => {
            return Err(
                Error::Parsing(
                    String::from_str("Failed to find id attribute for search result element"),
                ),
            )
        },
    };
    let (update_id, row_id) = match parse_search_row_id(id.as_str()) {
        Ok(p) => p,
        Err(e) => return Err(e),
    };
    let title = match get_search_row_text(page, rows, i, SearchResColumn::Title, update_id, row_id) {
        Ok(t) => t,
        Err(e) => return Err(e),
    };
    let kb = match parse_kb_from_string(title.clone()) {
        Ok(k) => k,
        Err(e) => return Err(e),
    };
    let product = match get_search_row_text(
        page,
        rows,
        i,
        SearchResColumn::Product,
        update_id,
        row_id,
    ) {
        Ok(t) => t,
        Err(e) => return Err(e),
    };
    let classification = match get_search_row_text(
        page,
        rows,
        i,
        SearchResColumn::Classification,
        update_id,
        row_id,
    ) {
        Ok(t) => t,
        Err(e) => return Err(e),
    };
    let date_text = match get_search_row_text(
        page,
        rows,
        i,
        SearchResColumn::LastUpdated,
        update_id,
        row_id,
    ) {
        Ok(t) => t,
        Err(e) => return Err(e),
    };
    let last_modified = match parse_update_date(date_text) {
        Ok(d) => d,
        Err(e) => return Err(e),
    };
    let version_text = match get_search_row_text(
        page,
        rows,
        i,
        SearchResColumn::Version,
        update_id,
        row_id,
    ) {
        Ok(t) => t,
        Err(e) => return Err(e),
    };
    let version = parse_optional_string(version_text);
    let size_cell = match get_search_row_text(
        page,
        rows,
        i,
        SearchResColumn::Size,
        update_id,
        row_id,
    ) {
        Ok(t) => t,
        Err(e) => return Err(e),
    };
    // The cell also holds the size in another unit; the first line matches
    // the size on the detail page.
    let size = match parse_size_from_mb_string(first_line(&size_cell)) {
        Ok(s) => s,
        Err(e) => return Err(e),
    };
    Ok(
        SearchResult {
            title,
            id: String::from_str(update_id),
            kb,
            product,
            classification,
            last_modified,
            version,
            size,
        },
    )
}

/// `parse_search_results` parses one search-result page into its records and
/// the postback state for the next page; `None` where the page has no result
/// rows, which ends a search.
pub fn parse_search_results(html: &str) -> (r: Result<
    Option<(SearchPageMeta, Vec<SearchResult>)>,
    Error,
>)
    ensures
        search_outcome(html@, r),
        shows_error_banner(html@) ==> r matches Err(Error::Msuc(_, _)),
        r matches Ok(Some(p)) ==> p.1@.len() > 0,
        match r {
            Ok(Some((meta, results))) => !search_fails(html@) && page_results(html@, results@)
                && page_meta(html@, meta),
            Ok(None) => page_is_empty(html@),
            Err(_) => search_fails(html@),
        },
{
    let page = Page::parse(html);
    match parse_hidden_error_page(&page) {
        Ok(_) => {},
        Err(e) => return Err(e),
    }
    let rows = match compile(RESULT_ROWS) {
        Ok(q) => q,
        Err(e) => return Err(e),
    };
    let ids = page.attrs(&rows, "id");
    let ghost all = row_ids(html@);
    let mut results: Vec<SearchResult> = Vec::new();
    let mut i: usize = 0;
    proof {
        assert(all.subrange(0, 0) =~= Seq::<Option<Seq<char>>>::empty());
    }
    while i < ids.len()
        invariant
            page.source() == html@,
            rows.text() == RESULT_ROWS@,
            selector_compiles(ERROR_BANNER@) && !shows_error_banner(html@),
            selector_compiles(RESULT_ROWS@),
            all == row_ids(html@),
            i <= ids@.len(),
            ids@.len() == all.len(),
            forall|k: int|
                0 <= k < ids@.len() ==> match #[trigger] ids@[k] {
                    Some(v) => all[k] == Some(v@),
                    None => all[k] is None,
                },
            results@.len() == data_rows(all.subrange(0, i as int)).len(),
            forall|k: int|
                0 <= k < results@.len() ==> row_result(
                    html@,
                    data_rows(all.subrange(0, i as int))[k],
                    #[trigger] results@[k],
                ),
        decreases ids@.len() - i,
    {
        let ghost before = all.subrange(0, i as int);
        let ghost after = all.subrange(0, i + 1);
        proof {
            assert(after.drop_last() =~= before);
        }
        let is_header = match &ids[i] {
            Some(v) => literal_eq(v, HEADER_ROW_ID),
            None => false,
        };
        if !is_header {
            match parse_search_row(&page, &rows, i, &ids[i]) {
                Ok(res) => {
                    results.push(res);
                },
                Err(e) => {
                    proof {
                        lemma_data_rows_prefix(all, i + 1);
                        let k = data_rows(before).len() as int;
                        assert(data_rows(after)[k] == i);
                        assert(data_rows(all)[k] == i);
                        assert(!all_rows_parse(html@));
                    }
                    return Err(e);
                },
            }
        }
        i += 1;
    }
    proof {
        assert(all.subrange(0, ids@.len() as int) =~= all);
    }
    proof {
        assert forall|k: int|
            0 <= k < data_rows(all).len() implies row_parses(
            html@,
            #[trigger] data_rows(all)[k],
        ) by {
            assert(row_result(html@, data_rows(all)[k], results@[k]));
        }
    }
    if results.len() == 0 {
        return Ok(None);
    }
    let has_next_page = select_with_path(&page, NEXT_PAGE_LINK).is_ok();
    let event_argument = match get_element_attr(&page, EVENT_ARGUMENT_INPUT, "value") {
        Ok(v) => v,
        Err(_) => String::new(),
    };
    let event_validation = match get_element_attr(&page, EVENT_VALIDATION_INPUT, "value") {
        Ok(v) => v,
        Err(_) => String::new(),
    };
    let view_state = match get_element_attr(&page, VIEW_STATE_INPUT, "value") {
        Ok(v) => v,
        Err(e) => return Err(e),
    };
    let view_state_generator = match get_element_attr(&page, VIEW_STATE_GENERATOR_INPUT, "value") {
        Ok(v) => v,
        Err(_) => String::new(),
    };
    let too_many_results = select_with_path(&page, MORE_RESULTS).is_ok();
    let event_target = if has_next_page {
        String::from_str(NEXT_PAGE_TARGET)
    } else {
        String::new()
    };
    let meta = SearchPageMeta {
        event_target,
        event_argument,
        event_validation,
        view_state,
        view_state_generator,
        pagination: SearchPagePaginationMeta {
            has_next_page,
            too_many_results,
            current_page: 0,
            page_size: 0,
            page_count: 0,
            result_count: 0,
        },
    };
    Ok(Some((meta, results)))
}

} // verus!

verus! {

proof fn lemma_code_of_banner(banner: Seq<char>, c: Seq<char>)
    requires
        trim(banner) == ERROR_CODE_PREFIX@ + c + "]"@,
        !occurs_at(c, ERROR_CODE_PREFIX@, 0),
        c.len() == 0 || c.last() != ']',
    ensures
        site_error_code(banner) == c,
{
    reveal_strlit("[Error number: ");
    reveal_strlit("]");
    let p = ERROR_CODE_PREFIX@;
    let s = p + c + "]"@;
    let rest = c + "]"@;
    assert(s.subrange(0, p.len() as int) =~= p);
    assert(s.subrange(p.len() as int, s.len() as int) =~= rest);
    if occurs_at(rest, p, 0) {
        if c.len() >= p.len() {
            assert(c.subrange(0, p.len() as int) =~= rest.subrange(0, p.len() as int));
        } else {
            assert(rest.subrange(0, p.len() as int)[p.len() - 1] == p[p.len() - 1]);
        }
    }
    assert(strip_prefixes(rest, p) == rest);
    assert(rest.drop_last() =~= c);
    assert(strip_suffix_chars(rest, ']') == strip_suffix_chars(c, ']'));
}

/// A page that shows the error banner "[Error number: <code>]" fails with the
/// catalog's error and that code, whatever rows it also holds. The prefix and
/// the closing bracket are stripped as often as they repeat, so the code is
/// one that neither starts with the prefix nor ends in a bracket.
pub proof fn lemma_banner_precedes_rows(
    html: Seq<char>,
    r: Result<Option<(SearchPageMeta, Vec<SearchResult>)>, Error>,
    code: Seq<char>,
)
    requires
        search_outcome(html, r),
        shows_error_banner(html),
        trim(matched_texts(html, ERROR_BANNER@)[0]) == ERROR_CODE_PREFIX@ + code + "]"@,
        !occurs_at(code, ERROR_CODE_PREFIX@, 0),
        code.len() == 0 || code.last() != ']',
    ensures
        r matches Err(Error::Msuc(_, c)) && c@ == code,
{
    lemma_code_of_banner(matched_texts(html, ERROR_BANNER@)[0], code);
}

/// A page without the error banner whose results table has no row but the
/// header is no page: the search has ended. This rests on scraper accepting
/// the two fixed selectors.
pub proof fn lemma_no_rows_no_page(
    html: Seq<char>,
    r: Result<Option<(SearchPageMeta, Vec<SearchResult>)>, Error>,
)
    requires
        search_outcome(html, r),
        selector_compiles(ERROR_BANNER@),
        selector_compiles(RESULT_ROWS@),
        !shows_error_banner(html),
        data_rows(row_ids(html)).len() == 0,
    ensures
        r matches Ok(None),
{
}

/// A page without the error banner and without a next-page link, whose rows
/// all convert and which carries its view state, is a last page: it gives
/// its records, one per row, and no next page. This rests on scraper
/// accepting the two fixed selectors.
pub proof fn lemma_last_page(
    html: Seq<char>,
    r: Result<Option<(SearchPageMeta, Vec<SearchResult>)>, Error>,
)
    requires
        search_outcome(html, r),
        selector_compiles(ERROR_BANNER@),
        selector_compiles(RESULT_ROWS@),
        !shows_error_banner(html),
        all_rows_parse(html),
        data_rows(row_ids(html)).len() > 0,
        first_attr(html, VIEW_STATE_INPUT@, "value"@) is Some,
        !links_next_page(html),
    ensures
        r matches Ok(Some((m, v))) && v@.len() == data_rows(row_ids(html)).len()
            && !m.pagination.has_next_page && m.event_target@.len() == 0,
{
}

} // verus!
