use imdb_search::by_title::ByTitle;
use imdb_search::ATag;

#[test]
fn absolute_link_is_plain_concatenation() {
    let anchor = ATag::new("A Title".to_string(), "/title/tt123/".to_string());
    assert_eq!(
        anchor.get_abs_link("https://example.com"),
        "https://example.com/title/tt123/"
    );
}

#[test]
fn absolute_link_does_not_deduplicate_slashes() {
    let anchor = ATag::new("A Title".to_string(), "/title/tt123/".to_string());
    assert_eq!(
        anchor.get_abs_link("https://example.com/"),
        "https://example.com//title/tt123/"
    );
}

#[test]
fn title_uri_carries_start_and_count() {
    let by = ByTitle::new(21, 50);
    assert_eq!(
        by.get_uri("https://www.imdb.com", "star%20wars"),
        "https://www.imdb.com/search/title/?title=star%20wars&start=21&count=50"
    );
}

#[test]
fn title_uri_of_default_strategy() {
    let by = ByTitle::default();
    assert_eq!(
        by.get_uri("https://www.imdb.com", "q"),
        "https://www.imdb.com/search/title/?title=q&start=1&count=10"
    );
}

#[test]
fn title_uri_largest_count() {
    let by = ByTitle::new(65535, 255);
    assert_eq!(
        by.get_uri("b", ""),
        "b/search/title/?title=&start=65535&count=255"
    );
}

#[test]
fn anchor_accessors() {
    let anchor = ATag::new("text<b>inner</b>".to_string(), "/x/".to_string());
    assert_eq!(anchor.text(), "text<b>inner</b>");
    assert_eq!(anchor.link(), "/x/");
}
