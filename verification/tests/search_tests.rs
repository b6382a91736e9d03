use legal_engine::digits::u32_to_decimal;
use legal_engine::search::{
    case_id_from_href, case_url, extract_judgment_text, find_sub, parse_u32, search_judgments,
    search_url, trim_slashes, trim_spaces,
};

#[test]
fn parse_u32_accepts_digit_strings() {
    assert_eq!(parse_u32("14753"), Some(14753));
    assert_eq!(parse_u32("0"), Some(0));
    assert_eq!(parse_u32("005"), Some(5));
    assert_eq!(parse_u32("4294967295"), Some(u32::MAX));
}

#[test]
fn parse_u32_rejects_bad_input() {
    assert_eq!(parse_u32(""), None);
    assert_eq!(parse_u32("12a"), None);
    assert_eq!(parse_u32("-5"), None);
    assert_eq!(parse_u32("4294967296"), None);
}

#[test]
fn decimal_spelling_reads_back() {
    for n in [0u32, 1, 9, 10, 14753, u32::MAX] {
        assert_eq!(parse_u32(&u32_to_decimal(n)), Some(n));
    }
}

#[test]
fn find_sub_returns_first_occurrence() {
    assert_eq!(find_sub("a/no/b/no/c", "/no/"), Some(1));
    assert_eq!(find_sub("abc", "/no/"), None);
    assert_eq!(find_sub("/no/", "/no/"), Some(0));
}

#[test]
fn trimming_strips_both_ends() {
    assert_eq!(trim_slashes("/14753/"), "14753");
    assert_eq!(trim_slashes("14753"), "14753");
    assert_eq!(trim_slashes("///"), "");
    assert_eq!(trim_spaces("  patent case \n"), "patent case");
    assert_eq!(trim_spaces("\t\n "), "");
}

#[test]
fn case_id_read_from_href() {
    assert_eq!(case_id_from_href("/Hanketsu/jiken/no/14753/"), Some(14753));
    assert_eq!(case_id_from_href("https://ipforce.jp/Hanketsu/jiken/no/99"), Some(99));
    assert_eq!(case_id_from_href("/no/12/no/34"), Some(12));
    assert_eq!(case_id_from_href("/no/12/extra"), None);
    assert_eq!(case_id_from_href("/Hanketsu/jiken/"), None);
    assert_eq!(case_id_from_href("/no/abc/"), None);
}

#[test]
fn case_url_is_derived_from_the_id() {
    assert_eq!(case_url(14753), "https://ipforce.jp/Hanketsu/jiken/no/14753");
    assert_eq!(case_url(0), "https://ipforce.jp/Hanketsu/jiken/no/0");
}

#[test]
fn search_url_encodes_keyword() {
    assert_eq!(
        search_url(Some("a b")),
        "https://ipforce.jp/Hanketsu/search/keyword/a%20b"
    );
    assert_eq!(search_url(None), "https://ipforce.jp/Hanketsu/search");
}

fn stub_page(n: usize) -> String {
    let mut page = String::from("<html><body>");
    for i in 0..n {
        page.push_str(&format!(
            "<span class=\"name\"><a href=\"/Hanketsu/jiken/no/{}/\"> Patent case {} </a></span>",
            1000 + i,
            i
        ));
    }
    // one link with an unusable id and one with an empty title
    page.push_str("<span class=\"name\"><a href=\"/Hanketsu/jiken/no/abc/\">bad id</a></span>");
    page.push_str("<span class=\"name\"><a href=\"/Hanketsu/jiken/no/77/\">   </a></span>");
    // and one anchor outside span.name that must not match
    page.push_str("<a href=\"/Hanketsu/jiken/no/5555/\">unrelated</a>");
    page.push_str("</body></html>");
    page
}

#[test]
fn search_respects_limit_and_numeric_ids() {
    let page = stub_page(7);
    let results = search_judgments(&page, 5);
    assert_eq!(results.len(), 5);
    for (i, r) in results.iter().enumerate() {
        assert_eq!(r.case_id, 1000 + i as u32);
        assert!(!r.title.is_empty());
        assert_eq!(r.title, format!("Patent case {}", i));
        assert_eq!(r.date, "");
    }
}

#[test]
fn search_skips_unusable_links() {
    let page = stub_page(2);
    let results = search_judgments(&page, 10);
    // the bad id, the empty title and the out-of-selector anchor are skipped
    assert_eq!(results.len(), 2);
    let none = search_judgments("<html><body>nothing here</body></html>", 10);
    assert!(none.is_empty());
}

#[test]
fn judgment_text_prefers_contents_block() {
    let page = "<html><body><div id=\"hanketsu_contents\">The judgment body.</div><p>nav</p></body></html>";
    assert_eq!(extract_judgment_text(page), "The judgment body.");
    let fallback = "<html><body><p>only this</p></body></html>";
    assert!(extract_judgment_text(fallback).contains("only this"));
}
