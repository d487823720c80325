use msuc::{
    parse_search_results, row_cell_selector, Date, SearchPageMeta, SearchPagePaginationMeta,
    SearchResColumn, SearchResult,
};

struct Row<'a> {
    id: &'a str,
    title: &'a str,
    product: &'a str,
    classification: &'a str,
    date: &'a str,
    version: &'a str,
    size: &'a str,
}

fn row_html(row: &Row, n: usize) -> String {
    let id = row.id;
    format!(
        r#"<tr id="{id}_R{n}">
  <td id="{id}_C0_R{n}"><input type="checkbox"></td>
  <td id="{id}_C1_R{n}">
    <a id="{id}_link" href="javascript:void(0);">
      {title}
    </a>
  </td>
  <td id="{id}_C2_R{n}">{product}</td>
  <td id="{id}_C3_R{n}">
    {classification}
  </td>
  <td id="{id}_C4_R{n}">{date}</td>
  <td id="{id}_C5_R{n}">{version}</td>
  <td id="{id}_C6_R{n}">
    <span id="{id}_size">{size}</span>
    <span style="display: none;">0</span>
  </td>
  <td id="{id}_C7_R{n}"><input type="button" value="Download"></td>
</tr>
"#,
        title = row.title,
        product = row.product,
        classification = row.classification,
        date = row.date,
        version = row.version,
        size = row.size,
    )
}

fn page_html(rows: &[Row], view_state: &str, extra_fields: &str, banners: &str) -> String {
    let mut body = String::new();
    for (i, r) in rows.iter().enumerate() {
        body.push_str(&row_html(r, i + 1));
    }
    format!(
        r#"<!DOCTYPE html>
<html><head><title>Microsoft Update Catalog</title></head>
<body>
<form method="post" action="./Search.aspx?q=KB5030524" id="aspnetForm">
<input type="hidden" name="__EVENTTARGET" id="__EVENTTARGET" value="" />
<input type="hidden" name="__EVENTARGUMENT" id="__EVENTARGUMENT" value="" />
<input type="hidden" name="__VIEWSTATE" id="__VIEWSTATE" value="{view_state}" />
{extra_fields}
{banners}
<div id="tableContainer" class="resultsBackGround">
<table class="resultsBorder resultsBackGround" id="ctl00_catalogBody_updateMatches">
<tr id="headerRow"><td>Title</td><td>Products</td><td>Classification</td><td>Last Updated</td><td>Version</td><td>Size</td></tr>
{body}
</table>
</div>
</form>
</body></html>"#
    )
}

fn result(
    title: &str,
    id: &str,
    kb: &str,
    product: &str,
    classification: &str,
    date: Date,
    size: u64,
) -> SearchResult {
    SearchResult {
        title: title.to_string(),
        id: id.to_string(),
        kb: kb.to_string(),
        product: product.to_string(),
        classification: classification.to_string(),
        last_modified: date,
        version: None,
        size,
    }
}

fn many_rows(n: usize) -> Vec<String> {
    (0..n)
        .map(|i| format!("{:08x}-1478-4860-a935-7996c78d10be", i * 0x1111_1111usize % 0xffff_ffff))
        .collect()
}

fn rows_of(ids: &[String]) -> Vec<Row<'_>> {
    ids.iter()
        .map(|id| Row {
            id: id.as_str(),
            title: "2023-09 Cumulative Update for Windows 11 (KB5030219)",
            product: "Windows 11",
            classification: "Security Updates",
            date: "9/12/2023",
            version: "n/a",
            size: "316.2 MB",
        })
        .collect()
}

#[test]
fn test_parse_valid_search_results() {
    let aug15 = Date { year: 2023, month: 8, day: 15 };
    let sep12 = Date { year: 2023, month: 9, day: 12 };
    let small = [
        Row {
            id: "56a97db8-1478-4860-a935-7996c78d10be",
            title: "Security Update For Exchange Server 2019 CU12 (KB5030524)",
            product: "Exchange Server 2019",
            classification: "Security Updates",
            date: "8/15/2023",
            version: "n/a",
            size: "160.9 MB",
        },
        Row {
            id: "70c08420-a012-4f5b-9b48-95a6b177d34a",
            title: "Security Update For Exchange Server 2019 CU13 (KB5030524)",
            product: "Exchange Server 2019",
            classification: "Security Updates",
            date: "8/15/2023",
            version: "n/a",
            size: "160.9 MB",
        },
        Row {
            id: "a08b526d-3947-4ddd-ba72-a8244b39c611",
            title: "Security Update For Exchange Server 2016 CU23 (KB5030524)",
            product: "Exchange Server 2016",
            classification: "Security Updates",
            date: "8/15/2023",
            version: "n/a",
            size: "157.4 MB",
        },
    ];
    let small_expected = vec![
        result(
            "Security Update For Exchange Server 2019 CU12 (KB5030524)",
            "56a97db8-1478-4860-a935-7996c78d10be",
            "KB5030524",
            "Exchange Server 2019",
            "Security Updates",
            aug15,
            168715878,
        ),
        result(
            "Security Update For Exchange Server 2019 CU13 (KB5030524)",
            "70c08420-a012-4f5b-9b48-95a6b177d34a",
            "KB5030524",
            "Exchange Server 2019",
            "Security Updates",
            aug15,
            168715878,
        ),
        result(
            "Security Update For Exchange Server 2016 CU23 (KB5030524)",
            "a08b526d-3947-4ddd-ba72-a8244b39c611",
            "KB5030524",
            "Exchange Server 2016",
            "Security Updates",
            aug15,
            165045862,
        ),
    ];

    let lts = "Windows 10 LTSB, Windows 10,  version 1903 and later";
    let gdr = "Windows 10 and later GDR-DU";
    let w10 = "Windows 10,  version 1903 and later";
    let double: Vec<(&str, &str, &str, &str, u64)> = vec![
        ("2023-09 Cumulative Update for Windows 10 Version 21H2 for x64-based Systems (KB5030211)", "453112b9-83bb-403c-9263-018ffe515016", lts, "765.0 MB", 802160640),
        ("2023-09 Dynamic Cumulative Update for Windows 10 Version 21H2 for ARM64-based Systems (KB5030211)", "97fcb38d-dcb2-41e7-b75b-96327b676926", gdr, "774.3 MB", 811912396),
        ("2023-09 Dynamic Cumulative Update for Windows 10 Version 21H2 for x64-based Systems (KB5030211)", "0aec0f4e-5228-4f59-bfc4-08e3c3cd32bb", gdr, "749.3 MB", 785697996),
        ("2023-09 Cumulative Update for Windows 10 Version 21H2 for ARM64-based Systems (KB5030211)", "c0e5f33a-0509-4891-9935-438d061b806e", lts, "788.9 MB", 827221606),
        ("2023-09 Dynamic Cumulative Update for Windows 10 Version 22H2 for ARM64-based Systems (KB5030211)", "cdf18eed-1b04-4211-87a0-d0e865ea16ba", gdr, "774.3 MB", 811912396),
        ("2023-09 Cumulative Update for Windows 10 Version 22H2 for ARM64-based Systems (KB5030211)", "7ef071f6-f25c-457a-bd10-d0dcfb149cd0", w10, "788.9 MB", 827221606),
        ("2023-09 Cumulative Update for Windows 10 Version 22H2 for x86-based Systems (KB5030211)", "7969059c-6aad-4562-a40f-8c764af68e86", w10, "419.4 MB", 439772774),
        ("2023-09 Cumulative Update for Windows 10 Version 21H2 for x86-based Systems (KB5030211)", "1e3b4e94-a544-4137-8fba-8ae1a2853a95", lts, "419.4 MB", 439772774),
        ("2023-09 Cumulative Update for Windows 10 Version 22H2 for x64-based Systems (KB5030211)", "4aec4d66-a06c-4544-9f79-55ace822e015", w10, "765.0 MB", 802160640),
        ("2023-09 Dynamic Cumulative Update for Windows 10 Version 22H2 for x86-based Systems (KB5030211)", "403e7eb7-6022-4197-bf50-65aeca4ff368", gdr, "412.1 MB", 432118169),
        ("2023-09 Dynamic Cumulative Update for Windows 10 Version 21H2 for x86-based Systems (KB5030211)", "590018dd-2c62-42b7-bd0b-e065f9283f36", gdr, "412.1 MB", 432118169),
        ("2023-09 Dynamic Cumulative Update for Windows 10 Version 22H2 for x64-based Systems (KB5030211)", "aaba42ce-ba39-4d0a-94af-0f51e68d5bfb", gdr, "749.3 MB", 785697996),
    ];
    let double_rows: Vec<Row> = double
        .iter()
        .map(|(title, id, product, size, _)| Row {
            id,
            title,
            product,
            classification: "Security Updates",
            date: "9/12/2023",
            version: "n/a",
            size,
        })
        .collect();
    let double_expected: Vec<SearchResult> = double
        .iter()
        .map(|(title, id, product, _, bytes)| {
            result(title, id, "KB5030211", product, "Security Updates", sep12, *bytes)
        })
        .collect();

    let test_cases = [
        (page_html(&small, "DtvCw7CUghnhBGgbfav9RD2sZnSOF92wDmaidSdOktu2MfK8l+xXHa2OKgbE", "", ""), "DtvCw7CUghnhBGgbfav9RD2sZnSOF92wDmaidSdOktu2MfK8l+xXHa2OKgbE", small_expected),
        (page_html(&double_rows, "KdVyiUfV4zF++F1Kse091GOhtd4FF3eGL/K5TFrMm7H2dF", "", ""), "KdVyiUfV4zF++F1Kse091GOhtd4FF3eGL/K5TFrMm7H2dF", double_expected),
    ];

    for tc in test_cases.iter() {
        let results = parse_search_results(tc.0.as_str());
        assert!(results.is_ok());
        let page = results.unwrap();
        assert!(page.is_some());
        let page = page.unwrap();
        assert_eq!(tc.2.len(), page.1.len());
        assert_eq!("", page.0.event_argument);
        assert_eq!("", page.0.event_target);
        assert_eq!(tc.1, page.0.view_state);
        assert!(!page.0.pagination.has_next_page);
        assert!(!page.0.pagination.too_many_results);
        for (i, u) in tc.2.iter().enumerate() {
            assert_eq!(u, &page.1[i]);
        }
    }
}

#[test]
fn test_parse_hidden_error_search_results() {
    let html = r#"<html><body><form>
<input type="hidden" id="__VIEWSTATE" value="abc" />
<div id="errorPageDisplayedError" class="errorPage">
  [Error number: 8DDD0010]
</div>
</form></body></html>"#;
    let results = parse_search_results(html);
    assert!(results.is_err());
    match results {
        Err(e) => {
            assert_eq!(
                "msuc error: received 500 error from Microsoft Update Catalog, code: 8DDD0010",
                e.message()
            );
        }
        _ => {
            panic!("Expected error to be returned");
        }
    }
}

#[test]
fn test_parse_search_with_next_page() {
    let ids = many_rows(25);
    let rows = rows_of(&ids);
    let data = page_html(
        &rows,
        "qBgftcgcDrC2nib27koiUfOvbWJYOzDJ4Brs8yhM",
        r#"<input type="hidden" name="__VIEWSTATEGENERATOR" id="__VIEWSTATEGENERATOR" value="BBBC20B8" />
<input type="hidden" name="__EVENTVALIDATION" id="__EVENTVALIDATION" value="Q57xOoxbkNk6CIlyl8ZPyh" />"#,
        r#"<a id="ctl00_catalogBody_nextPageLinkText" href="javascript:__doPostBack('ctl00$catalogBody$nextPageLinkText','')">Next</a>"#,
    );
    let meta = SearchPageMeta {
        event_target: "ctl00$catalogBody$nextPageLinkText".to_string(),
        event_argument: "".to_string(),
        event_validation: "Q57xOoxbkNk6CIlyl8ZPyh".to_string(),
        view_state: "qBgftcgcDrC2nib27koiUfOvbWJYOzDJ4Brs8yhM".to_string(),
        view_state_generator: "BBBC20B8".to_string(),
        pagination: SearchPagePaginationMeta {
            has_next_page: true,
            too_many_results: false,
            current_page: 0,
            page_size: 0,
            page_count: 0,
            result_count: 0,
        },
    };

    let results = parse_search_results(data.as_str());
    assert!(results.is_ok());
    let page = results.unwrap();
    assert!(page.is_some());
    let page = page.unwrap();
    assert_eq!(25, page.1.len());
    assert_eq!(meta, page.0);
}

#[test]
fn test_parse_search_too_many_results() {
    let ids = many_rows(25);
    let rows = rows_of(&ids);
    let data = page_html(
        &rows,
        "GVS2yddQVQmiq2XHUiGgcNBtIY25sfqvCXD5QeHp",
        r#"<input type="hidden" name="__VIEWSTATEGENERATOR" id="__VIEWSTATEGENERATOR" value="BBBC20B8" />
<input type="hidden" name="__EVENTVALIDATION" id="__EVENTVALIDATION" value="975cSztH5m9SBl9" />"#,
        r#"<span id="ctl00_catalogBody_moreResults">We did not find any results</span>
<a id="ctl00_catalogBody_nextPageLinkText">Next</a>"#,
    );
    let meta = SearchPageMeta {
        event_target: "ctl00$catalogBody$nextPageLinkText".to_string(),
        event_argument: "".to_string(),
        event_validation: "975cSztH5m9SBl9".to_string(),
        view_state: "GVS2yddQVQmiq2XHUiGgcNBtIY25sfqvCXD5QeHp".to_string(),
        view_state_generator: "BBBC20B8".to_string(),
        pagination: SearchPagePaginationMeta {
            has_next_page: true,
            too_many_results: true,
            current_page: 0,
            page_size: 0,
            page_count: 0,
            result_count: 0,
        },
    };

    let results = parse_search_results(data.as_str());
    assert!(results.is_ok());
    let page = results.unwrap();
    assert!(page.is_some());
    let page = page.unwrap();
    assert_eq!(25, page.1.len());
    assert_eq!(meta, page.0);
}

#[test]
fn empty_results_table_is_no_page() {
    let data = page_html(&[], "vs", "", "");
    let results = parse_search_results(data.as_str());
    assert_eq!(Ok(None), results);
}

#[test]
fn error_banner_wins_over_rows() {
    let ids = many_rows(2);
    let rows = rows_of(&ids);
    let data = page_html(
        &rows,
        "vs",
        "",
        r#"<div id="errorPageDisplayedError">[Error number: 80244007]</div>"#,
    );
    match parse_search_results(data.as_str()) {
        Err(msuc::Error::Msuc(_, code)) => assert_eq!("80244007", code),
        other => panic!("expected a catalog error, got {:?}", other),
    }
}

#[test]
fn rows_without_view_state_fail() {
    let ids = many_rows(1);
    let rows = rows_of(&ids);
    let data = page_html(&rows, "vs", "", "").replace(r#"id="__VIEWSTATE""#, r#"id="other""#);
    assert!(matches!(parse_search_results(data.as_str()), Err(msuc::Error::Parsing(_))));
}

#[test]
fn row_without_kb_fails() {
    let ids = many_rows(1);
    let mut rows = rows_of(&ids);
    rows[0].title = "Definition Update for Microsoft Defender";
    let data = page_html(&rows, "vs", "", "");
    assert!(matches!(parse_search_results(data.as_str()), Err(msuc::Error::Parsing(_))));
}

#[test]
fn digit_leading_id_is_escaped_and_matches() {
    let sel = row_cell_selector(SearchResColumn::Size, "0aec0f4e-5228", "12").unwrap();
    assert_eq!(r"td#\30 aec0f4e-5228_C6_R12", sel);
    let sel = row_cell_selector(SearchResColumn::Title, "aaba42ce-ba39", "3").unwrap();
    assert_eq!("td#aaba42ce-ba39_C1_R3", sel);
    assert!(row_cell_selector(SearchResColumn::Title, "", "3").is_err());
}

#[test]
fn missing_cell_error_names_the_cell() {
    let ids = many_rows(1);
    let rows = rows_of(&ids);
    let data = page_html(&rows, "vs", "", "").replace("_C6_R1", "_C9_R1");
    match parse_search_results(data.as_str()) {
        Err(msuc::Error::Parsing(m)) => {
            assert!(m.contains(ids[0].as_str()), "{}", m);
            assert!(m.contains("Size"), "{}", m);
            assert!(m.contains("'1'"), "{}", m);
            assert!(m.contains("_C6_R1"), "{}", m);
        }
        other => panic!("expected a parse error, got {:?}", other),
    }
}

#[test]
fn empty_update_id_error_names_the_cell() {
    match row_cell_selector(SearchResColumn::Version, "", "7") {
        Err(msuc::Error::Parsing(m)) => {
            assert!(m.contains("Version"), "{}", m);
            assert!(m.contains("'7'"), "{}", m);
        }
        other => panic!("expected a parse error, got {:?}", other),
    }
}
