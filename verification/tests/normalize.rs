use holiday_scraper::text::{normalize_cell, normalize_name, trim_text};

#[test]
fn test_break_tag_becomes_single_space() {
    assert_eq!(normalize_cell("a<br>b"), "a b");
    assert_eq!(normalize_name("Independence<br>Day"), "Independence Day");
}

#[test]
fn test_amp_entity_becomes_ampersand() {
    assert_eq!(normalize_cell("a&amp;b"), "a&b");
    assert_eq!(normalize_name("Labor &amp; Workers' Day"), "Labor & Workers' Day");
}

#[test]
fn test_nbsp_entity_becomes_single_space() {
    assert_eq!(normalize_cell("May 1&nbsp;&nbsp;"), "May 1");
    assert_eq!(normalize_cell("a&nbsp;b"), "a b");
}

#[test]
fn test_whitespace_run_becomes_single_space() {
    assert_eq!(normalize_cell("a \t\n  b"), "a b");
    assert_eq!(normalize_cell("a\u{a0}\u{2003}b"), "a b");
}

#[test]
fn test_edge_whitespace_removed() {
    assert_eq!(normalize_cell("   x  "), "x");
    assert_eq!(normalize_name("  x "), "x");
    assert_eq!(trim_text(" 2023\n"), "2023");
    assert_eq!(trim_text(""), "");
}

#[test]
fn test_name_keeps_inner_whitespace_runs() {
    // only cells collapse runs; names are trimmed but not collapsed
    assert_eq!(normalize_name("a  b"), "a  b");
    assert_eq!(normalize_cell("a  b"), "a b");
}

#[test]
fn test_normalization_idempotent_on_spent_input() {
    let once = normalize_cell("  May \t 1&nbsp;&nbsp;");
    assert_eq!(normalize_cell(&once), once);
    let name_once = normalize_name(" Labor &amp; Workers' Day ");
    assert_eq!(normalize_name(&name_once), name_once);
}

#[test]
fn test_entity_pass_is_single_and_leftmost() {
    // one pass only: the '&amp;' inside '&amp;amp;' is replaced, leaving '&amp;'
    assert_eq!(normalize_cell("&amp;amp;"), "&amp;");
    // a second normalization then decodes what the first one uncovered
    assert_eq!(normalize_cell("&amp;"), "&");
}

#[test]
fn test_empty_cell_stays_empty() {
    assert_eq!(normalize_cell(""), "");
    assert_eq!(normalize_name(""), "");
}
