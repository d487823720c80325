//! A client library for a web catalog of software updates that offers no API:
//! it builds the catalog's page requests, carries the page-to-page postback
//! state, and turns the returned HTML into typed records.
//!
//! The transport is not part of the library: `SearchResultsStream` says which
//! request fetches the next page and takes the HTML that came back.

pub mod details;
pub mod html;
pub mod model;
pub mod pagination;
pub mod parser;
pub mod text;
pub mod values;

pub use details::{parse_update_details, process_update_page};
pub use model::{
    Date, Error, RebootBehavior, SearchPageMeta, SearchPagePaginationMeta, SearchResult,
    SupersededByUpdate, SupersedesUpdate, Update,
};
pub use pagination::{
    build_request, detail_url, Method, RequestDescriptor, SearchResultsStream, SEARCH_URL,
    UPDATE_URL,
};
pub use parser::{parse_search_results, row_cell_selector, SearchResColumn};
pub use values::{
    clean_nested_div_text, clean_string_with_newlines, parse_kb_from_string,
    parse_optional_string, parse_reboot_behavior, parse_search_row_id, parse_size_from_mb_string,
    parse_update_date, parse_yes_no_bool,
};
