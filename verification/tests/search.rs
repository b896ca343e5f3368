use lionclip::history::{HistoryItemId, HistoryQuery, ImageData, ImageMime, TextHistoryItem};

fn text_items(texts: &[&str]) -> Vec<TextHistoryItem> {
    texts
        .iter()
        .enumerate()
        .map(|(index, text)| {
            let sequence = i64::try_from(index).expect("test index fits in i64");
            TextHistoryItem::new(
                HistoryItemId::new(sequence),
                (*text).into(),
                sequence,
                sequence,
                false,
            )
        })
        .collect()
}

fn matching<'a>(items: &'a [TextHistoryItem], raw: &str) -> Vec<&'a str> {
    HistoryQuery::new(raw)
        .filter(items)
        .into_iter()
        .filter_map(TextHistoryItem::as_text)
        .collect()
}

#[test]
fn empty_query_matches_every_item_in_order() {
    let mut items = text_items(&["first", "second"]);
    items.push(TextHistoryItem::new_image(
        HistoryItemId::new(9),
        ImageData::new("a".repeat(64), ImageMime::Png, 100, 10, 10),
        9,
        9,
        false,
    ));
    assert_eq!(HistoryQuery::new("").filter(&items).len(), 3);
}

#[test]
fn matching_is_case_insensitive_and_uses_substrings() {
    let items = text_items(&["Hello World", "https://example.com/path"]);
    assert_eq!(matching(&items, "hello"), ["Hello World"]);
    assert_eq!(
        matching(&items, "EXAMPLE.COM"),
        ["https://example.com/path"]
    );
}

#[test]
fn non_empty_query_does_not_match_image_metadata() {
    let image = TextHistoryItem::new_image(
        HistoryItemId::new(1),
        ImageData::new("a".repeat(64), ImageMime::Png, 100, 1920, 1080),
        1,
        1,
        false,
    );
    assert!(!HistoryQuery::new("png").matches(&image));
    assert!(!HistoryQuery::new("1920").matches(&image));
}

#[test]
fn multiline_unicode_and_source_integrity_are_preserved() {
    let items = text_items(&["fn main() {\n    println!(\"olá\");\n}", "Ünicode Ítem"]);
    let before = items.clone();
    assert_eq!(matching(&items, "OLÁ").len(), 1);
    assert_eq!(matching(&items, "ünicode ítem"), ["Ünicode Ítem"]);
    assert_eq!(items, before);
}

#[test]
fn surrounding_white_space_of_the_query_is_ignored() {
    let items = text_items(&["alpha beta", "gamma"]);
    assert_eq!(matching(&items, "  BETA \n"), ["alpha beta"]);
    assert!(HistoryQuery::new("   ").is_empty());
    assert!(!HistoryQuery::new(" x ").is_empty());
    assert_eq!(matching(&items, "   ").len(), 2);
}

#[test]
fn a_query_longer_than_the_text_matches_nothing() {
    let items = text_items(&["ab"]);
    assert!(matching(&items, "abc").is_empty());
}

#[test]
fn a_query_and_its_trimmed_text_search_for_the_same() {
    assert_eq!(HistoryQuery::new("  Alpha \t"), HistoryQuery::new("Alpha"));
    assert!(HistoryQuery::new("\n\t ").is_empty());
    assert!(HistoryQuery::new("").is_empty());
    let items = text_items(&["alpha", "beta"]);
    assert_eq!(HistoryQuery::new(" \t").filter(&items).len(), 2);
}

#[test]
fn ascii_queries_match_like_lower_cased_text() {
    let items = text_items(&["Say HELLO World", "goodbye", "hel lo"]);
    assert_eq!(matching(&items, "HeLLo"), ["Say HELLO World"]);
    assert_eq!(HistoryQuery::new("ABC xyz"), HistoryQuery::new("abc XYZ"));
    assert_eq!(matching(&items, "O W"), ["Say HELLO World"]);
}
