use msuc::{parse_update_details, Date, RebootBehavior, SupersededByUpdate, SupersedesUpdate, Update};

struct Detail<'a> {
    title: &'a str,
    id: &'a str,
    kb: &'a str,
    classification: &'a str,
    date: &'a str,
    size: &'a str,
    description: &'a str,
    products: &'a [&'a str],
    languages: &'a [&'a str],
    info_url: &'a str,
    support_url: &'a str,
    reboot: &'a str,
    uninstall_notes: &'a str,
    supersedes: &'a [&'a str],
    superseded_by: &'a [(&'a str, &'a str)],
}

fn detail_html(d: &Detail) -> String {
    let products: Vec<String> = d.products.iter().map(|p| format!("    {p}\n")).collect();
    let languages: Vec<String> = d.languages.iter().map(|l| format!("    {l}\n    ,\n")).collect();
    let supersedes: String = if d.supersedes.is_empty() {
        "<span>n/a</span>".to_string()
    } else {
        d.supersedes
            .iter()
            .map(|t| format!("<div style=\"padding-bottom: 0.3em;\">\n      {t}\n    </div>\n"))
            .collect()
    };
    let superseded_by: String = if d.superseded_by.is_empty() {
        "<span>n/a</span>".to_string()
    } else {
        d.superseded_by
            .iter()
            .map(|(id, t)| {
                format!(
                    "<div style=\"padding-bottom: 0.3em;\">\n      <a href='ScopedViewInline.aspx?updateid={id}'>{t}</a>\n    </div>\n"
                )
            })
            .collect()
    };
    format!(
        r#"<html><body>
<span id="ScopedViewHandler_titleText">{title}</span>
<div id="ScopedViewHandler_UpdateID">{id}</div>
<span id="ScopedViewHandler_date">{date}</span>
<span id="ScopedViewHandler_size">{size}</span>
<span id="ScopedViewHandler_desc">{description}</span>
<span id="ScopedViewHandler_msrcSeverity">n/a</span>
<span id="ScopedViewHandler_rebootBehavior">{reboot}</span>
<span id="ScopedViewHandler_userInput">No</span>
<span id="ScopedViewHandler_installationImpact">No</span>
<span id="ScopedViewHandler_connectivity">No</span>
<div id="archDiv">
    <span>Architecture:</span>
    n/a
</div>
<div id="classificationDiv">
    <span>Classification:</span>
    {classification}
</div>
<div id="productsDiv">
    <span>Supported products:</span>
{products}</div>
<div id="languagesDiv">
    <span>Supported languages:</span>
{languages}</div>
<div id="securityBullitenDiv">
    <span>MSRC Number:</span>
    n/a
</div>
<div id="kbDiv">
    <span>KB article numbers:</span>
    {kb}
</div>
<div id="moreInfoDiv">
    <span>More information:</span>
    <a href="{info_url}">{info_url}</a>
</div>
<div id="suportUrlDiv">
    <span>Support Url:</span>
    <a href="{support_url}">{support_url}</a>
</div>
<div id="uninstallNotesDiv">
    <span>Uninstall Notes:</span>
    <div>
      {uninstall_notes}
    </div>
</div>
<div id="uninstallStepsDiv">
    <span>Uninstall Steps:</span>
    <div>n/a</div>
</div>
<div id="supersededbyInfo">
    {superseded_by}
</div>
<div id="supersedesInfo">
    {supersedes}
</div>
</body></html>"#,
        title = d.title,
        id = d.id,
        date = d.date,
        size = d.size,
        description = d.description,
        reboot = d.reboot,
        classification = d.classification,
        products = products.concat(),
        languages = languages.concat(),
        kb = d.kb,
        info_url = d.info_url,
        support_url = d.support_url,
        uninstall_notes = d.uninstall_notes,
        superseded_by = superseded_by,
        supersedes = supersedes,
    )
}

fn strings(v: &[&str]) -> Vec<String> {
    v.iter().map(|s| s.to_string()).collect()
}

#[test]
fn test_parse_update_details() {
    let languages = ["Arabic", "Bulgarian", "Czech", "Danish", "German", "Greek", "English", "Spanish", "Portuguese (Brazil)", "Serbian (Latin)"];
    let preview_supersedes = [
        "2023-04 Cumulative Update for Windows 11 Version 22H2 for x64-based Systems (KB5025239)",
        "2023-02 Cumulative Update Preview for Windows 11 Version 22H2 for x64-based Systems (KB5022913) UUP",
        "2023-03 Cumulative Update Preview for Windows 11 Version 22H2 for x64-based Systems (KB5023778)",
    ];
    let preview_superseded_by = [
        ("03423c5a-458d-4cbe-b67e-d47bec7f3fb6", "2023-09 Cumulative Update for Windows 11 Version 22H2 for x64-based Systems (KB5030219)"),
        ("10b0cdce-d084-452d-b6a3-318a3ade0a6e", "2023-08 Cumulative Update for Windows 11 Version 22H2 for x64-based Systems (KB5029263)"),
    ];
    let preview = Detail {
        title: "2023-04 Cumulative Update Preview for Windows 11 Version 22H2 for x64-based Systems (KB5025305)",
        id: "1b0b70c0-191e-42f6-8808-c1b50deacb3b",
        kb: "5025305",
        classification: "Updates",
        date: "4/25/2023",
        size: "316.2 MB",
        description: "Install this update to resolve issues in Windows.",
        products: &["Windows 11"],
        languages: &languages,
        info_url: "https://support.microsoft.com/help/5025305",
        support_url: "https://support.microsoft.com/help/5025305",
        reboot: "Can request restart",
        uninstall_notes: "n/a",
        supersedes: &preview_supersedes,
        superseded_by: &preview_superseded_by,
    };
    let exchange_languages = ["Arabic", "Bulgarian", "Chinese (Traditional)", "Czech"];
    let exchange_supersedes = [
        "Security Update For Exchange Server 2019 CU12 (KB5026261)",
        "Security Update For Exchange Server 2019 CU12 (KB5024296)",
    ];
    let exchange = Detail {
        title: "Security Update For Exchange Server 2019 CU12 (KB5030524)",
        id: "56a97db8-1478-4860-a935-7996c78d10be",
        kb: "5030524",
        classification: "Security Updates",
        date: "8/15/2023",
        size: "160.9 MB",
        description: "The security update addresses the vulnerabilities descripted in the CVEs",
        products: &["Exchange Server 2019"],
        languages: &exchange_languages,
        info_url: "https://techcommunity.microsoft.com/t5/exchange-team-blog/bg-p/Exchange",
        support_url: "https://technet.microsoft.com/en-us/exchange/fp179701",
        reboot: "Never restarts",
        uninstall_notes: "This software update can be removed via Add or Remove\n      Programs in Control Panel.",
        supersedes: &exchange_supersedes,
        superseded_by: &[],
    };
    let test_cases = [
        (
            detail_html(&preview),
            Update {
                title: preview.title.to_string(),
                id: "1b0b70c0-191e-42f6-8808-c1b50deacb3b".to_string(),
                kb: "KB5025305".to_string(),
                classification: "Updates".to_string(),
                last_modified: Date { year: 2023, month: 4, day: 25 },
                size: 331559731,
                description: "Install this update to resolve issues in Windows.".to_string(),
                architecture: None,
                supported_products: strings(&["Windows 11"]),
                supported_languages: strings(&languages),
                msrc_number: None,
                msrc_severity: None,
                info_url: "https://support.microsoft.com/help/5025305".to_string(),
                support_url: "https://support.microsoft.com/help/5025305".to_string(),
                reboot_behavior: RebootBehavior::CanRequest,
                requires_user_input: false,
                is_exclusive_install: false,
                requires_network_connectivity: false,
                uninstall_notes: None,
                uninstall_steps: None,
                supersedes: vec![
                    SupersedesUpdate { title: preview_supersedes[0].to_string(), kb: "KB5025239".to_string() },
                    SupersedesUpdate { title: preview_supersedes[1].to_string(), kb: "KB5022913".to_string() },
                    SupersedesUpdate { title: preview_supersedes[2].to_string(), kb: "KB5023778".to_string() },
                ],
                superseded_by: vec![
                    SupersededByUpdate {
                        title: preview_superseded_by[0].1.to_string(),
                        kb: "KB5030219".to_string(),
                        id: "03423c5a-458d-4cbe-b67e-d47bec7f3fb6".to_string(),
                    },
                    SupersededByUpdate {
                        title: preview_superseded_by[1].1.to_string(),
                        kb: "KB5029263".to_string(),
                        id: "10b0cdce-d084-452d-b6a3-318a3ade0a6e".to_string(),
                    },
                ],
            },
        ),
        (
            detail_html(&exchange),
            Update {
                title: "Security Update For Exchange Server 2019 CU12 (KB5030524)".to_string(),
                id: "56a97db8-1478-4860-a935-7996c78d10be".to_string(),
                kb: "KB5030524".to_string(),
                classification: "Security Updates".to_string(),
                last_modified: Date { year: 2023, month: 8, day: 15 },
                size: 168715878,
                description: "The security update addresses the vulnerabilities descripted in the CVEs".to_string(),
                architecture: None,
                supported_products: strings(&["Exchange Server 2019"]),
                supported_languages: strings(&exchange_languages),
                msrc_number: None,
                msrc_severity: None,
                info_url: "https://techcommunity.microsoft.com/t5/exchange-team-blog/bg-p/Exchange".to_string(),
                support_url: "https://technet.microsoft.com/en-us/exchange/fp179701".to_string(),
                reboot_behavior: RebootBehavior::NeverRestarts,
                requires_user_input: false,
                is_exclusive_install: false,
                requires_network_connectivity: false,
                uninstall_notes: Some("This software update can be removed via Add or Remove Programs in Control Panel.".to_string()),
                uninstall_steps: None,
                supersedes: vec![
                    SupersedesUpdate {
                        title: "Security Update For Exchange Server 2019 CU12 (KB5026261)".to_string(),
                        kb: "KB5026261".to_string(),
                    },
                    SupersedesUpdate {
                        title: "Security Update For Exchange Server 2019 CU12 (KB5024296)".to_string(),
                        kb: "KB5024296".to_string(),
                    },
                ],
                superseded_by: vec![],
            },
        ),
    ];
    for tc in test_cases.iter() {
        let res = parse_update_details(&tc.0);
        assert!(res.is_ok(), "{:?}", res);
        let res = res.unwrap();
        assert_eq!(tc.1, res);
    }
}

fn exchange_page(reboot: &str, info_url: &str) -> String {
    detail_html(&Detail {
        title: "Security Update For Exchange Server 2019 CU12 (KB5030524)",
        id: "56a97db8-1478-4860-a935-7996c78d10be",
        kb: "5030524",
        classification: "Security Updates",
        date: "8/15/2023",
        size: "160.9 MB",
        description: "d",
        products: &["Exchange Server 2019"],
        languages: &["English"],
        info_url,
        support_url: "https://technet.microsoft.com/en-us/exchange/fp179701",
        reboot,
        uninstall_notes: "n/a",
        supersedes: &[],
        superseded_by: &[],
    })
}

#[test]
fn details_parse_twice_alike() {
    let html = exchange_page("Never restarts", "https://example.com/a");
    assert_eq!(parse_update_details(&html), parse_update_details(&html));
}

#[test]
fn details_url_is_normalised() {
    let html = exchange_page("Required", "HTTPS://Example.COM");
    let u = parse_update_details(&html).unwrap();
    assert_eq!("https://example.com/", u.info_url);
    assert_eq!(RebootBehavior::Required, u.reboot_behavior);
}

#[test]
fn details_bad_url_fails() {
    let html = exchange_page("Required", "not a url");
    assert!(matches!(parse_update_details(&html), Err(msuc::Error::Parsing(_))));
}

#[test]
fn details_unknown_reboot_label_fails() {
    let html = exchange_page("Sometimes", "https://example.com/a");
    assert!(matches!(parse_update_details(&html), Err(msuc::Error::Parsing(_))));
}

#[test]
fn details_missing_field_fails() {
    let html = exchange_page("Required", "https://example.com/a")
        .replace("ScopedViewHandler_desc", "somethingElse");
    assert!(matches!(parse_update_details(&html), Err(msuc::Error::Parsing(_))));
}

#[test]
fn update_page_failure_names_the_update() {
    match msuc::process_update_page("9602ca4a", "<html><body></body></html>") {
        Err(msuc::Error::Search(m)) => assert!(m.contains("9602ca4a")),
        other => panic!("expected a search error, got {:?}", other),
    }
    let html = exchange_page("Never restarts", "https://example.com/a");
    let u = msuc::process_update_page("56a97db8", &html).unwrap();
    assert_eq!(RebootBehavior::NeverRestarts, u.reboot_behavior);
    assert_eq!(None, u.uninstall_notes);
}
