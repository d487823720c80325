//! Turning an update's detail page into an `Update` record.
use vstd::prelude::*;

use crate::html::{matched_attrs, matched_texts, selector_compiles, Page};
use crate::model::{Error, SupersededByUpdate, SupersedesUpdate, Update};
use crate::parser::{compile, first_text, get_element_text, select_with_path};
use crate::text::{
    chars_of, lemma_mentions_middle, mentions, split_chars, split_on, strip_prefixes, strip_prefixes_chars, string_of,
    trim, trim_chars, views,
};
use crate::values::{
    clean_nested_div_text, clean_string_with_newlines, date_of, kb_of, last_line, one_line,
    optional_of, parse_kb_from_string, parse_optional_string, parse_reboot_behavior,
    parse_size_from_mb_string, parse_update_date, parse_yes_no_bool, reboot_behavior_of, size_of,
    yes_no_of,
};

verus! {

/// The entries of the list of updates that the described one replaces.
pub const SUPERSEDES_ENTRIES: &'static str = "div#supersedesInfo div";

/// The links of the list of updates that replace the described one.
pub const SUPERSEDED_BY_LINKS: &'static str = "div#supersededbyInfo div a";

/// What precedes the update identifier in a link to a detail page.
pub const DETAIL_LINK_PREFIX: &'static str = "ScopedViewInline.aspx?updateid=";

/// The name of the serialization of the URL that url's `Url::parse` reads
/// from `s`; none where `s` is not an absolute URL.
pub uninterp spec fn url_serialization(s: Seq<char>) -> Option<Seq<char>>;

#[verifier::external_type_specification]
#[verifier::external_body]
pub struct ExUrlParseError(url::ParseError);

/// Relies on url's `Url::parse`: whether `s` parses, and the serialization of
/// the URL it gives, depend on `s` alone.
#[verifier::external_body]
fn parse_url(s: &str) -> (r: Result<String, url::ParseError>)
    ensures
        match r {
            Ok(u) => url_serialization(s@) == Some(u@),
            Err(_) => url_serialization(s@) is None,
        },
{
    url::Url::parse(s).map(String::from)
}

/// A line of a nested list is an item unless it is empty, a lone comma, or a
/// label ending in a colon.
pub open spec fn is_list_item(t: Seq<char>) -> bool {
    !(t.len() == 0 || t.last() == ':' || t == ","@)
}

/// The trimmed lines that are list items, in order.
pub open spec fn keep_items(lines: Seq<Seq<char>>) -> Seq<Seq<char>>
    decreases lines.len(),
{
    if lines.len() == 0 {
        Seq::empty()
    } else {
        let prev = keep_items(lines.drop_last());
        if is_list_item(trim(lines.last())) {
            prev.push(trim(lines.last()))
        } else {
            prev
        }
    }
}

/// The items of a nested list block.
pub open spec fn list_of(s: Seq<char>) -> Seq<Seq<char>> {
    keep_items(split_on(s, '\n'))
}

/// The texts of a list of strings.
pub open spec fn strings(v: Seq<String>) -> Seq<Seq<char>> {
    v.map_values(|s: String| s@)
}

/// The title of an entry of a linked-update list.
pub open spec fn listed_title(t: Seq<char>) -> Seq<char> {
    one_line(trim(t))
}

/// The supersedes list can be read: each entry's title holds a KB number.
pub open spec fn supersedes_parse(html: Seq<char>) -> bool {
    &&& selector_compiles(SUPERSEDES_ENTRIES@)
    &&& forall|k: int|
        0 <= k < matched_texts(html, SUPERSEDES_ENTRIES@).len() ==> kb_of(
            listed_title(#[trigger] matched_texts(html, SUPERSEDES_ENTRIES@)[k]),
        ) is Some
}

/// `v` lists, in order, the entries of the supersedes list.
pub open spec fn supersedes_of(html: Seq<char>, v: Seq<SupersedesUpdate>) -> bool {
    let texts = matched_texts(html, SUPERSEDES_ENTRIES@);
    &&& v.len() == texts.len()
    &&& forall|k: int|
        0 <= k < v.len() ==> {
            &&& (#[trigger] v[k]).title@ == listed_title(texts[k])
            &&& v[k].kb@ == kb_of(listed_title(texts[k]))->0
        }
}

/// The superseded-by list can be read: each link has a target and its
/// title holds a KB number.
pub open spec fn superseded_by_parse(html: Seq<char>) -> bool {
    &&& selector_compiles(SUPERSEDED_BY_LINKS@)
    &&& forall|k: int|
        0 <= k < matched_texts(html, SUPERSEDED_BY_LINKS@).len() ==> {
            &&& matched_attrs(html, SUPERSEDED_BY_LINKS@, "href"@)[k] is Some
            &&& kb_of(listed_title(#[trigger] matched_texts(html, SUPERSEDED_BY_LINKS@)[k])) is Some
        }
}

/// `v` lists, in order, the links of the superseded-by list.
pub open spec fn superseded_by_of(html: Seq<char>, v: Seq<SupersededByUpdate>) -> bool {
    let texts = matched_texts(html, SUPERSEDED_BY_LINKS@);
    let hrefs = matched_attrs(html, SUPERSEDED_BY_LINKS@, "href"@);
    &&& v.len() == texts.len()
    &&& forall|k: int|
        0 <= k < v.len() ==> {
            &&& (#[trigger] v[k]).title@ == listed_title(texts[k])
            &&& v[k].kb@ == kb_of(listed_title(texts[k]))->0
            &&& v[k].id@ == strip_prefixes(hrefs[k]->0, DETAIL_LINK_PREFIX@)
        }
}

/// The text of an optional string.
pub open spec fn option_view(o: Option<String>) -> Option<Seq<char>> {
    match o {
        Some(s) => Some(s@),
        None => None,
    }
}

/// The trimmed text of the field that `sel` locates.
pub open spec fn field(html: Seq<char>, sel: Seq<char>) -> Seq<char> {
    first_text(html, sel)->0
}

/// Every field of the detail page is present and converts.
pub open spec fn update_parses(html: Seq<char>) -> bool {
    &&& first_text(html, "#ScopedViewHandler_titleText"@) is Some
    &&& first_text(html, "#ScopedViewHandler_UpdateID"@) is Some
    &&& first_text(html, "div#kbDiv"@) is Some
    &&& first_text(html, "#classificationDiv"@) is Some
    &&& first_text(html, "#ScopedViewHandler_date"@) is Some
    &&& date_of(field(html, "#ScopedViewHandler_date"@)) is Some
    &&& first_text(html, "#ScopedViewHandler_size"@) is Some
    &&& size_of(field(html, "#ScopedViewHandler_size"@)) is Some
    &&& first_text(html, "#ScopedViewHandler_desc"@) is Some
    &&& first_text(html, "#archDiv"@) is Some
    &&& first_text(html, "#productsDiv"@) is Some
    &&& first_text(html, "#languagesDiv"@) is Some
    &&& first_text(html, "#securityBullitenDiv"@) is Some
    &&& first_text(html, "#ScopedViewHandler_msrcSeverity"@) is Some
    &&& first_text(html, "#moreInfoDiv a"@) is Some
    &&& url_serialization(field(html, "#moreInfoDiv a"@)) is Some
    &&& first_text(html, "#suportUrlDiv a"@) is Some
    &&& url_serialization(field(html, "#suportUrlDiv a"@)) is Some
    &&& first_text(html, "#ScopedViewHandler_rebootBehavior"@) is Some
    &&& reboot_behavior_of(field(html, "#ScopedViewHandler_rebootBehavior"@)) is Some
    &&& first_text(html, "#ScopedViewHandler_userInput"@) is Some
    &&& yes_no_of(field(html, "#ScopedViewHandler_userInput"@)) is Some
    &&& first_text(html, "#ScopedViewHandler_installationImpact"@) is Some
    &&& yes_no_of(field(html, "#ScopedViewHandler_installationImpact"@)) is Some
    &&& first_text(html, "#ScopedViewHandler_connectivity"@) is Some
    &&& yes_no_of(field(html, "#ScopedViewHandler_connectivity"@)) is Some
    &&& first_text(html, "#uninstallNotesDiv div"@) is Some
    &&& first_text(html, "#uninstallStepsDiv div"@) is Some
    &&& supersedes_parse(html)
    &&& superseded_by_parse(html)
}

/// `u` is the record that the detail page describes.
pub open spec fn update_of(html: Seq<char>, u: Update) -> bool {
    &&& update_parses(html)
    &&& u.title@ == field(html, "#ScopedViewHandler_titleText"@)
    &&& u.id@ == field(html, "#ScopedViewHandler_UpdateID"@)
    &&& u.kb@ == "KB"@ + last_line(field(html, "div#kbDiv"@))
    &&& u.classification@ == last_line(field(html, "#classificationDiv"@))
    &&& Some(u.last_modified) == date_of(field(html, "#ScopedViewHandler_date"@))
    &&& Some(u.size) == size_of(field(html, "#ScopedViewHandler_size"@))
    &&& u.description@ == field(html, "#ScopedViewHandler_desc"@)
    &&& option_view(u.architecture) == optional_of(last_line(field(html, "#archDiv"@)))
    &&& strings(u.supported_products@) == list_of(field(html, "#productsDiv"@))
    &&& strings(u.supported_languages@) == list_of(field(html, "#languagesDiv"@))
    &&& option_view(u.msrc_number) == optional_of(last_line(field(html, "#securityBullitenDiv"@)))
    &&& option_view(u.msrc_severity) == optional_of(
        field(html, "#ScopedViewHandler_msrcSeverity"@),
    )
    &&& Some(u.info_url@) == url_serialization(field(html, "#moreInfoDiv a"@))
    &&& Some(u.support_url@) == url_serialization(field(html, "#suportUrlDiv a"@))
    &&& Some(u.reboot_behavior) == reboot_behavior_of(
        field(html, "#ScopedViewHandler_rebootBehavior"@),
    )
    &&& Some(u.requires_user_input) == yes_no_of(field(html, "#ScopedViewHandler_userInput"@))
    &&& Some(u.is_exclusive_install) == yes_no_of(
        field(html, "#ScopedViewHandler_installationImpact"@),
    )
    &&& Some(u.requires_network_connectivity) == yes_no_of(
        field(html, "#ScopedViewHandler_connectivity"@),
    )
    &&& option_view(u.uninstall_notes) == optional_of(one_line(field(html, "#uninstallNotesDiv div"@)))
    &&& option_view(u.uninstall_steps) == optional_of(field(html, "#uninstallStepsDiv div"@))
    &&& supersedes_of(html, u.supersedes@)
    &&& superseded_by_of(html, u.superseded_by@)
}

/// What `parse_update_details` returns for the page `html`: the record where
/// every field is present and converts, a parse error otherwise.
pub open spec fn details_outcome(html: Seq<char>, r: Result<Update, Error>) -> bool {
    match r {
        Ok(u) => update_of(html, u),
        Err(e) => !update_parses(html) && e is Parsing,
    }
}

/// The items of the nested list block that `path` locates.
fn parse_nested_div_list(page: &Page, path: &str) -> (r: Result<Vec<String>, Error>)
    ensures
        match r {
            Ok(v) => first_text(page.source(), path@) is Some && strings(v@) == list_of(
                field(page.source(), path@),
            ),
            Err(e) => first_text(page.source(), path@) is None && e is Parsing,
        },
{
    let text = match select_with_path(page, path) {
        Ok(t) => t,
        Err(e) => return Err(e),
    };
    let chars = chars_of(text.as_str());
    let lines = split_chars(chars.as_slice(), '\n');
    let mut items: Vec<String> = Vec::new();
    let mut i: usize = 0;
    proof {
        assert(views(lines@).subrange(0, 0) =~= Seq::<Seq<char>>::empty());
        assert(strings(items@) =~= Seq::<Seq<char>>::empty());
    }
    while i < lines.len()
        invariant
            i <= lines@.len(),
            views(lines@) == split_on(chars@, '\n'),
            strings(items@) == keep_items(views(lines@).subrange(0, i as int)),
        decreases lines@.len() - i,
    {
        let ghost before = views(lines@).subrange(0, i as int);
        let ghost after = views(lines@).subrange(0, i + 1);
        proof {
            assert(after.drop_last() =~= before);
            assert(after.last() == lines@[i as int]@);
        }
        let t = trim_chars(lines[i].as_slice());
        let n = t.len();
        let keep = !(n == 0 || t[n - 1] == ':' || (n == 1 && t[0] == ','));
        proof {
            if n == 1 {
                reveal_strlit(",");
                if t@[0] == ',' {
                    assert(t@ =~= ","@);
                } else {
                    assert(t@[0] != ","@[0]);
                }
            } else {
                reveal_strlit(",");
                assert(t@.len() != ","@.len());
            }
        }
        if keep {
            items.push(string_of(t.as_slice()));
            proof {
                assert(strings(items@) =~= keep_items(before).push(t@));
            }
        }
        i += 1;
    }
    proof {
        assert(views(lines@).subrange(0, lines@.len() as int) =~= views(lines@));
    }
    Ok(items)
}

/// The entries of the list of updates that the described one replaces.
fn get_update_supercedes_updates(page: &Page) -> (r: Result<Vec<SupersedesUpdate>, Error>)
    ensures
        match r {
            Ok(v) => supersedes_parse(page.source()) && supersedes_of(page.source(), v@),
            Err(e) => !supersedes_parse(page.source()) && e is Parsing,
        },
{
    let q = match compile(SUPERSEDES_ENTRIES) {
        Ok(q) => q,
        Err(e) => return Err(e),
    };
    let texts = page.texts(&q);
    let ghost all = matched_texts(page.source(), SUPERSEDES_ENTRIES@);
    let mut supersedes: Vec<SupersedesUpdate> = Vec::new();
    let mut i: usize = 0;
    while i < texts.len()
        invariant
            i <= texts@.len(),
            all == matched_texts(page.source(), SUPERSEDES_ENTRIES@),
            selector_compiles(SUPERSEDES_ENTRIES@),
            texts@.len() == all.len(),
            forall|k: int| 0 <= k < texts@.len() ==> #[trigger] texts@[k]@ == all[k],
            supersedes@.len() == i,
            forall|k: int|
                0 <= k < i ==> kb_of(listed_title(#[trigger] all[k])) is Some,
            forall|k: int|
                0 <= k < i ==> {
                    &&& (#[trigger] supersedes@[k]).title@ == listed_title(all[k])
                    &&& supersedes@[k].kb@ == kb_of(listed_title(all[k]))->0
                },
        decreases texts@.len() - i,
    {
        let title = clean_string_with_newlines(get_element_text(&texts[i]));
        let kb = match parse_kb_from_string(title.clone()) {
            Ok(k) => k,
            Err(e) => return Err(e),
        };
        supersedes.push(SupersedesUpdate { title, kb });
        i += 1;
    }
    Ok(supersedes)
}

/// The links of the list of updates that replace the described one.
fn get_update_superseded_by_updates(page: &Page) -> (r: Result<Vec<SupersededByUpdate>, Error>)
    ensures
        match r {
            Ok(v) => superseded_by_parse(page.source()) && superseded_by_of(page.source(), v@),
            Err(e) => !superseded_by_parse(page.source()) && e is Parsing,
        },
{
    let q = match compile(SUPERSEDED_BY_LINKS) {
        Ok(q) => q,
        Err(e) => return Err(e),
    };
    let texts = page.texts(&q);
    let hrefs = page.attrs(&q, "href");
    let ghost all = matched_texts(page.source(), SUPERSEDED_BY_LINKS@);
    let ghost links = matched_attrs(page.source(), SUPERSEDED_BY_LINKS@, "href"@);
    let prefix = chars_of(DETAIL_LINK_PREFIX);
    let mut superseded_by: Vec<SupersededByUpdate> = Vec::new();
    let mut i: usize = 0;
    while i < texts.len()
        invariant
            i <= texts@.len(),
            all == matched_texts(page.source(), SUPERSEDED_BY_LINKS@),
            links == matched_attrs(page.source(), SUPERSEDED_BY_LINKS@, "href"@),
            selector_compiles(SUPERSEDED_BY_LINKS@),
            prefix@ == DETAIL_LINK_PREFIX@,
            texts@.len() == all.len(),
            hrefs@.len() == all.len(),
            forall|k: int| 0 <= k < texts@.len() ==> #[trigger] texts@[k]@ == all[k],
            forall|k: int|
                0 <= k < hrefs@.len() ==> match #[trigger] hrefs@[k] {
                    Some(v) => links[k] == Some(v@),
                    None => links[k] is None,
                },
            superseded_by@.len() == i,
            forall|k: int|
                0 <= k < i ==> {
                    &&& links[k] is Some
                    &&& kb_of(listed_title(#[trigger] all[k])) is Some
                },
            forall|k: int|
                0 <= k < i ==> {
                    &&& (#[trigger] superseded_by@[k]).title@ == listed_title(all[k])
                    &&& superseded_by@[k].kb@ == kb_of(listed_title(all[k]))->0
                    &&& superseded_by@[k].id@ == strip_prefixes(links[k]->0, DETAIL_LINK_PREFIX@)
                },
        decreases texts@.len() - i,
    {
        let title = clean_string_with_newlines(get_element_text(&texts[i]));
        let href = match &hrefs[i] {
            Some(h) => h,
            None => {
                return Err(
                    Error::Parsing(
                        String::from_str(
                            "Failed to find id attribute for superseded by update element",
                        ),
                    ),
                )
            },
        };
        let id = strip_prefixes_chars(chars_of(href.as_str()).as_slice(), prefix.as_slice());
        let kb = match parse_kb_from_string(title.clone()) {
            Ok(k) => k,
            Err(e) => return Err(e),
        };
        superseded_by.push(SupersededByUpdate { title, kb, id: string_of(id.as_slice()) });
        i += 1;
    }
    Ok(superseded_by)
}

/// The trimmed last line of the nested field that `path` locates.
fn nested_field(page: &Page, path: &str) -> (r: Result<String, Error>)
    ensures
        match r {
            Ok(t) => first_text(page.source(), path@) is Some && t@ == last_line(
                field(page.source(), path@),
            ),
            Err(e) => first_text(page.source(), path@) is None && e is Parsing,
        },
{
    match select_with_path(page, path) {
        Ok(t) => clean_nested_div_text(t),
        Err(e) => Err(e),
    }
}

/// The URL in the field that `path` locates.
fn url_field(page: &Page, path: &str) -> (r: Result<String, Error>)
    ensures
        match r {
            Ok(u) => first_text(page.source(), path@) is Some && url_serialization(
                field(page.source(), path@),
            ) == Some(u@),
            Err(e) => (first_text(page.source(), path@) is None || url_serialization(
                field(page.source(), path@),
            ) is None) && e is Parsing,
        },
{
    let text = match select_with_path(page, path) {
        Ok(t) => t,
        Err(e) => return Err(e),
    };
    match parse_url(text.as_str()) {
        Ok(u) => Ok(u),
        Err(_) => Err(
            Error::Parsing(String::from_str("Failed to parse URL '").concat(text.as_str()).concat("'")),
        ),
    }
}

/// `parse_update_details` parses one detail page into its `Update` record; all
/// fields or none.
pub fn parse_update_details(html: &str) -> (r: Result<Update, Error>)
    ensures
        details_outcome(html@, r),
{
    let page = Page::parse(html);
    let title = match select_with_path(&page, "#ScopedViewHandler_titleText") {
        Ok(v) => v,
        Err(e) => return Err(e),
    };
    let id = match select_with_path(&page, "#ScopedViewHandler_UpdateID") {
        Ok(v) => v,
        Err(e) => return Err(e),
    };
    let kb_number = match nested_field(&page, "div#kbDiv") {
        Ok(v) => v,
        Err(e) => return Err(e),
    };
    let kb = String::from_str("KB").concat(kb_number.as_str());
    let classification = match nested_field(&page, "#classificationDiv") {
        Ok(v) => v,
        Err(e) => return Err(e),
    };
    let date_text = match select_with_path(&page, "#ScopedViewHandler_date") {
        Ok(v) => v,
        Err(e) => return Err(e),
    };
    let last_modified = match parse_update_date(date_text) {
        Ok(v) => v,
        Err(e) => return Err(e),
    };
    let size_text = match select_with_path(&page, "#ScopedViewHandler_size") {
        Ok(v) => v,
        Err(e) => return Err(e),
    };
    let size = match parse_size_from_mb_string(size_text) {
        Ok(v) => v,
        Err(e) => return Err(e),
    };
    let description = match select_with_path(&page, "#ScopedViewHandler_desc") {
        Ok(v) => v,
        Err(e) => return Err(e),
    };
    let architecture = match nested_field(&page, "#archDiv") {
        Ok(v) => parse_optional_string(v),
        Err(e) => return Err(e),
    };
    let supported_products = match parse_nested_div_list(&page, "#productsDiv") {
        Ok(v) => v,
        Err(e) => return Err(e),
    };
    let supported_languages = match parse_nested_div_list(&page, "#languagesDiv") {
        Ok(v) => v,
        Err(e) => return Err(e),
    };
    let msrc_number = match nested_field(&page, "#securityBullitenDiv") {
        Ok(v) => parse_optional_string(v),
        Err(e) => return Err(e),
    };
    let msrc_severity = match select_with_path(&page, "#ScopedViewHandler_msrcSeverity") {
        Ok(v) => parse_optional_string(v),
        Err(e) => return Err(e),
    };
    let info_url = match url_field(&page, "#moreInfoDiv a") {
        Ok(v) => v,
        Err(e) => return Err(e),
    };
    // The catalog spells this element's id with a single "p".
    let support_url = match url_field(&page, "#suportUrlDiv a") {
        Ok(v) => v,
        Err(e) => return Err(e),
    };
    let reboot_behavior = match select_with_path(&page, "#ScopedViewHandler_rebootBehavior") {
        Ok(v) => match parse_reboot_behavior(v) {
            Ok(b) => b,
            Err(e) => return Err(e),
        },
        Err(e) => return Err(e),
    };
    let requires_user_input = match yes_no_field(&page, "#ScopedViewHandler_userInput") {
        Ok(v) => v,
        Err(e) => return Err(e),
    };
    let is_exclusive_install = match yes_no_field(&page, "#ScopedViewHandler_installationImpact") {
        Ok(v) => v,
        Err(e) => return Err(e),
    };
    let requires_network_connectivity = match yes_no_field(
        &page,
        "#ScopedViewHandler_connectivity",
    ) {
        Ok(v) => v,
        Err(e) => return Err(e),
    };
    let uninstall_notes = match select_with_path(&page, "#uninstallNotesDiv div") {
        Ok(v) => parse_optional_string(clean_string_with_newlines(v)),
        Err(e) => return Err(e),
    };
    let uninstall_steps = match select_with_path(&page, "#uninstallStepsDiv div") {
        Ok(v) => parse_optional_string(v),
        Err(e) => return Err(e),
    };
    let supersedes = match get_update_supercedes_updates(&page) {
        Ok(v) => v,
        Err(e) => return Err(e),
    };
    let superseded_by = match get_update_superseded_by_updates(&page) {
        Ok(v) => v,
        Err(e) => return Err(e),
    };
    Ok(
        Update {
            title,
            id,
            kb,
            classification,
            last_modified,
            size,
            description,
            architecture,
            supported_products,
            supported_languages,
            msrc_number,
            msrc_severity,
            info_url,
            support_url,
            reboot_behavior,
            requires_user_input,
            is_exclusive_install,
            requires_network_connectivity,
            uninstall_notes,
            uninstall_steps,
            supersedes,
            superseded_by,
        },
    )
}

/// The yes/no value of the field that `path` locates.
fn yes_no_field(page: &Page, path: &str) -> (r: Result<bool, Error>)
    ensures
        match r {
            Ok(b) => first_text(page.source(), path@) is Some && yes_no_of(
                field(page.source(), path@),
            ) == Some(b),
            Err(e) => (first_text(page.source(), path@) is None || yes_no_of(
                field(page.source(), path@),
            ) is None) && e is Parsing,
        },
{
    match select_with_path(page, path) {
        Ok(v) => parse_yes_no_bool(v),
        Err(e) => Err(e),
    }
}

} // verus!

verus! {

/// `a` and `b` hold the same values, field by field.
pub open spec fn same_update(a: Update, b: Update) -> bool {
    &&& a.title@ == b.title@
    &&& a.id@ == b.id@
    &&& a.kb@ == b.kb@
    &&& a.classification@ == b.classification@
    &&& a.last_modified == b.last_modified
    &&& a.size == b.size
    &&& a.description@ == b.description@
    &&& option_view(a.architecture) == option_view(b.architecture)
    &&& strings(a.supported_products@) == strings(b.supported_products@)
    &&& strings(a.supported_languages@) == strings(b.supported_languages@)
    &&& option_view(a.msrc_number) == option_view(b.msrc_number)
    &&& option_view(a.msrc_severity) == option_view(b.msrc_severity)
    &&& a.info_url@ == b.info_url@
    &&& a.support_url@ == b.support_url@
    &&& a.reboot_behavior == b.reboot_behavior
    &&& a.requires_user_input == b.requires_user_input
    &&& a.is_exclusive_install == b.is_exclusive_install
    &&& a.requires_network_connectivity == b.requires_network_connectivity
    &&& option_view(a.uninstall_notes) == option_view(b.uninstall_notes)
    &&& option_view(a.uninstall_steps) == option_view(b.uninstall_steps)
    &&& a.supersedes@.len() == b.supersedes@.len()
    &&& forall|k: int|
        0 <= k < a.supersedes@.len() ==> {
            &&& (#[trigger] a.supersedes@[k]).title@ == b.supersedes@[k].title@
            &&& a.supersedes@[k].kb@ == b.supersedes@[k].kb@
        }
    &&& a.superseded_by@.len() == b.superseded_by@.len()
    &&& forall|k: int|
        0 <= k < a.superseded_by@.len() ==> {
            &&& (#[trigger] a.superseded_by@[k]).title@ == b.superseded_by@[k].title@
            &&& a.superseded_by@[k].kb@ == b.superseded_by@[k].kb@
            &&& a.superseded_by@[k].id@ == b.superseded_by@[k].id@
        }
}

/// Parsing a detail page depends on the page alone: two parses of the same
/// HTML both fail, or both give the same record.
pub proof fn lemma_details_deterministic(
    html: Seq<char>,
    r1: Result<Update, Error>,
    r2: Result<Update, Error>,
)
    requires
        details_outcome(html, r1),
        details_outcome(html, r2),
    ensures
        r1 is Ok <==> r2 is Ok,
        r1 is Ok ==> same_update(r1->Ok_0, r2->Ok_0),
{
    if r1 is Ok && r2 is Ok {
        let a = r1->Ok_0;
        let b = r2->Ok_0;
        assert forall|k: int| 0 <= k < a.supersedes@.len() implies {
            &&& (#[trigger] a.supersedes@[k]).title@ == b.supersedes@[k].title@
            &&& a.supersedes@[k].kb@ == b.supersedes@[k].kb@
        } by {
            assert(supersedes_of(html, a.supersedes@));
            assert(supersedes_of(html, b.supersedes@));
            assert(b.supersedes@[k].title@ == listed_title(matched_texts(html, SUPERSEDES_ENTRIES@)[k]));
        }
        assert forall|k: int| 0 <= k < a.superseded_by@.len() implies {
            &&& (#[trigger] a.superseded_by@[k]).title@ == b.superseded_by@[k].title@
            &&& a.superseded_by@[k].kb@ == b.superseded_by@[k].kb@
            &&& a.superseded_by@[k].id@ == b.superseded_by@[k].id@
        } by {
            assert(superseded_by_of(html, a.superseded_by@));
            assert(superseded_by_of(html, b.superseded_by@));
            assert(b.superseded_by@[k].title@ == listed_title(
                matched_texts(html, SUPERSEDED_BY_LINKS@)[k],
            ));
        }
    }
}

} // verus!

verus! {

/// `process_update_page` parses the fetched detail page of `update_id`; a
/// page that does not parse gives a search error that names the update.
pub fn process_update_page(update_id: &str, html: &str) -> (r: Result<Update, Error>)
    ensures
        match r {
            Ok(u) => update_of(html@, u),
            Err(Error::Search(m)) => !update_parses(html@) && mentions(m@, update_id@),
            Err(_) => false,
        },
{
    match parse_update_details(html) {
        Ok(u) => Ok(u),
        Err(e) => {
            let head = String::from_str("Failed to parse update details for ");
            let tail = String::from_str(": ").concat(e.message().as_str());
            let m = head.concat(update_id).concat(tail.as_str());
            proof {
                assert(m@ =~= head@ + update_id@ + tail@);
                lemma_mentions_middle(head@, update_id@, tail@);
            }
            Err(Error::Search(m))
        },
    }
}

} // verus!
