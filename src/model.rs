//! The records that the catalog's pages are turned into, the postback state
//! carried from one result page to the next, and the library's errors.
use vstd::prelude::*;

verus! {

/// A calendar date as the catalog prints it.
#[derive(Clone, Copy, Debug, PartialEq, Eq, Structural)]
pub struct Date {
    pub year: i32,
    pub month: u32,
    pub day: u32,
}

impl Date {
    /// Month and day lie in their calendar ranges.
    pub open spec fn wf(self) -> bool {
        1 <= self.month <= 12 && 1 <= self.day <= 31
    }
}

/// `SearchResult` is one row of a catalog search.
#[derive(Clone, Debug, PartialEq, Eq)]
pub struct SearchResult {
    pub title: String,
    pub id: String,
    pub kb: String,
    pub product: String,
    pub classification: String,
    pub last_modified: Date,
    pub version: Option<String>,
    pub size: u64,
}

/// `SearchPageMeta` is the postback state that one result page hands to the
/// request for the next.
#[derive(Clone, Debug, PartialEq, Eq)]
pub struct SearchPageMeta {
    pub event_target: String,
    pub event_argument: String,
    pub event_validation: String,
    pub view_state: String,
    pub view_state_generator: String,
    pub pagination: SearchPagePaginationMeta,
}

/// `SearchPagePaginationMeta` holds the page flags of a result page.
#[derive(Clone, Copy, Debug, PartialEq, Eq, Structural)]
pub struct SearchPagePaginationMeta {
    pub has_next_page: bool,
    pub too_many_results: bool,
    pub current_page: i16,
    pub page_size: i16,
    pub page_count: i16,
    pub result_count: i16,
}

/// The names of the five postback form fields, in the order `as_map` gives them.
pub const EVENT_TARGET_FIELD: &'static str = "__EVENTTARGET";

pub const EVENT_ARGUMENT_FIELD: &'static str = "__EVENTARGUMENT";

pub const EVENT_VALIDATION_FIELD: &'static str = "__EVENTVALIDATION";

pub const VIEW_STATE_FIELD: &'static str = "__VIEWSTATE";

pub const VIEW_STATE_GENERATOR_FIELD: &'static str = "__VIEWSTATEGENERATOR";

impl SearchPageMeta {
    /// `form` holds the five postback fields, named and in order.
    pub open spec fn is_postback_form(&self, form: Seq<(String, String)>) -> bool {
        &&& form.len() == 5
        &&& form[0].0@ == EVENT_TARGET_FIELD@ && form[0].1@ == self.event_target@
        &&& form[1].0@ == EVENT_ARGUMENT_FIELD@ && form[1].1@ == self.event_argument@
        &&& form[2].0@ == EVENT_VALIDATION_FIELD@ && form[2].1@ == self.event_validation@
        &&& form[3].0@ == VIEW_STATE_FIELD@ && form[3].1@ == self.view_state@
        &&& form[4].0@ == VIEW_STATE_GENERATOR_FIELD@ && form[4].1@ == self.view_state_generator@
    }

    /// `as_map` gives the five postback fields as (form name, value) pairs, in
    /// a fixed order, without the pagination flags.
    pub fn as_map(&self) -> (r: Vec<(String, String)>)
        ensures
            self.is_postback_form(r@),
    {
        let mut map: Vec<(String, String)> = Vec::new();
        map.push((String::from_str(EVENT_TARGET_FIELD), self.event_target.clone()));
        map.push((String::from_str(EVENT_ARGUMENT_FIELD), self.event_argument.clone()));
        map.push((String::from_str(EVENT_VALIDATION_FIELD), self.event_validation.clone()));
        map.push((String::from_str(VIEW_STATE_FIELD), self.view_state.clone()));
        map.push((String::from_str(VIEW_STATE_GENERATOR_FIELD), self.view_state_generator.clone()));
        map
    }
}

impl Default for SearchPagePaginationMeta {
    /// The flags before the first page: a first page is owed, nothing is counted.
    fn default() -> (r: Self)
        ensures
            r.has_next_page,
            !r.too_many_results,
            r.current_page == 0 && r.page_size == 0 && r.page_count == 0 && r.result_count == 0,
    {
        SearchPagePaginationMeta {
            has_next_page: true,
            too_many_results: false,
            current_page: 0,
            page_size: 0,
            page_count: 0,
            result_count: 0,
        }
    }
}

impl Default for SearchPageMeta {
    /// The state before the first page: empty postback fields, and a first page owed.
    fn default() -> (r: Self)
        ensures
            r.event_target@.len() == 0,
            r.event_argument@.len() == 0,
            r.event_validation@.len() == 0,
            r.view_state@.len() == 0,
            r.view_state_generator@.len() == 0,
            r.pagination.has_next_page,
            !r.pagination.too_many_results,
            r.pagination.current_page == 0 && r.pagination.page_size == 0
                && r.pagination.page_count == 0 && r.pagination.result_count == 0,
    {
        SearchPageMeta {
            event_target: String::new(),
            event_argument: String::new(),
            event_validation: String::new(),
            view_state: String::new(),
            view_state_generator: String::new(),
            pagination: SearchPagePaginationMeta::default(),
        }
    }
}

/// `Update` is the full record of one update's detail page.
#[derive(Clone, Debug, PartialEq, Eq)]
pub struct Update {
    pub title: String,
    pub id: String,
    pub kb: String,
    pub classification: String,
    pub last_modified: Date,
    pub size: u64,
    pub description: String,
    pub architecture: Option<String>,
    pub supported_products: Vec<String>,
    pub supported_languages: Vec<String>,
    pub msrc_number: Option<String>,
    pub msrc_severity: Option<String>,
    pub info_url: String,
    pub support_url: String,
    pub reboot_behavior: RebootBehavior,
    pub requires_user_input: bool,
    pub is_exclusive_install: bool,
    pub requires_network_connectivity: bool,
    pub uninstall_notes: Option<String>,
    pub uninstall_steps: Option<String>,
    pub supersedes: Vec<SupersedesUpdate>,
    pub superseded_by: Vec<SupersededByUpdate>,
}

/// `SupersededByUpdate` is an update that replaces the one described.
#[derive(Clone, Debug, PartialEq, Eq)]
pub struct SupersededByUpdate {
    pub title: String,
    pub kb: String,
    pub id: String,
}

/// `SupersedesUpdate` is an update that the one described replaces.
#[derive(Clone, Debug, PartialEq, Eq)]
pub struct SupersedesUpdate {
    pub title: String,
    pub kb: String,
}

/// `RebootBehavior` is what installing an update does about restarting.
#[derive(Clone, Copy, Debug, PartialEq, Eq, Structural)]
pub enum RebootBehavior {
    Required,
    CanRequest,
    Recommended,
    NotRequired,
    NeverRestarts,
}

/// `Error` is what can go wrong while talking to the catalog.
#[derive(Clone, Debug, PartialEq, Eq)]
pub enum Error {
    /// The transport failed or answered with a failure status.
    Client(String),
    /// A page lacked an element or held a value that does not convert.
    Parsing(String),
    /// A search page failed to parse; carries the query.
    Search(String),
    /// A fixed endpoint does not parse.
    Internal(String),
    /// The catalog reported an error inside a successful answer: a message and
    /// the catalog's own error code.
    Msuc(String, String),
}

impl Error {
    /// The error as one line of text.
    pub fn message(&self) -> (r: String)
        ensures
            r@ == self.message_spec(),
    {
        match self {
            Error::Client(m) => String::from_str("request error: ").concat(m.as_str()),
            Error::Parsing(m) => String::from_str("parse error: ").concat(m.as_str()),
            Error::Search(m) => String::from_str("search error: ").concat(m.as_str()),
            Error::Internal(m) => String::from_str("internal error: ").concat(m.as_str()),
            Error::Msuc(m, code) => String::from_str("msuc error: ").concat(m.as_str()).concat(
                ", code: ",
            ).concat(code.as_str()),
        }
    }

    /// The text that `message` gives.
    pub open spec fn message_spec(&self) -> Seq<char> {
        match self {
            Error::Client(m) => "request error: "@ + m@,
            Error::Parsing(m) => "parse error: "@ + m@,
            Error::Search(m) => "search error: "@ + m@,
            Error::Internal(m) => "internal error: "@ + m@,
            Error::Msuc(m, code) => "msuc error: "@ + m@ + ", code: "@ + code@,
        }
    }
}

} // verus!
