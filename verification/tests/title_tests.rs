use imdb_search::by_title::ByTitle;
use scraper::Html;

fn listing_page(rows: &str) -> String {
    format!(r#"<div class="lister-list">{}</div>"#, rows)
}

const FULL_ROW: &str = r#"
    <div class="lister-item">
        <div class="lister-item-image"><a href="/title/tt1/"><img src="http://img/1.jpg"></a></div>
        <div class="lister-item-content">
            <h3 class="lister-item-header"><a href="/title/tt1/">First Movie</a><span class="lister-item-year">(2001)</span></h3>
            <p class="text-muted"><span class="genre">Action</span><span class="runtime">90 min</span></p>
            <p class="text-muted">A summary here.</p>
            <div class="ratings-bar"><div class="ratings-imdb-rating" data-value="7.5"></div></div>
            <p class="">Director: <a href="/name/nm1/">Alice</a> Stars: <a href="/name/nm2/">Bob</a>, <a href="/name/nm3/">Cara</a></p>
        </div>
    </div>
"#;

#[test]
fn title_listing_full_row() {
    let html = Html::parse_fragment(&listing_page(FULL_ROW));
    let result = ByTitle::new(1, 10).parse_result(html);
    let items = result.items();
    assert_eq!(items.len(), 1);
    let item = &items[0];
    assert_eq!(item.title().text(), "First Movie");
    assert_eq!(item.title().link(), "/title/tt1/");
    assert_eq!(item.years(), "(2001)");
    assert_eq!(item.info(), "Action 90 min");
    assert_eq!(item.rating(), "7.5");
    assert_eq!(item.summery(), "A summary here.");
    assert_eq!(item.image_url(), "http://img/1.jpg");

    let directors = item.directors();
    assert_eq!(directors.len(), 1);
    assert_eq!(directors[0].name(), "Alice");
    let stars = item.stars();
    assert_eq!(stars.len(), 2);
    assert_eq!(stars[0].name(), "Bob");
    assert_eq!(stars[1].name(), "Cara");
}

#[test]
fn title_listing_missing_rating_uses_sentinel() {
    let row = r#"
        <div class="lister-item">
            <div class="lister-item-image"><a href="/title/tt2/"><img src="http://img/2.jpg"></a></div>
            <div class="lister-item-content">
                <h3 class="lister-item-header"><a href="/title/tt2/">Second Movie</a><span class="lister-item-year">(2002)</span></h3>
                <p class="text-muted"><span class="genre">Drama</span></p>
                <p class="text-muted">Another summary.</p>
                <p class="">Director: <a href="/name/nm4/">Dee</a></p>
            </div>
        </div>
    "#;
    let html = Html::parse_fragment(&listing_page(row));
    let result = ByTitle::new(1, 10).parse_result(html);
    let items = result.items();
    assert_eq!(items.len(), 1);
    assert_eq!(items[0].rating(), "No rating.");
}

#[test]
fn title_listing_skips_rows_without_content_or_required_parts() {
    let rows = format!(
        r#"
        <div class="lister-item">this row has no content block</div>
        {}
        <div class="lister-item">
            <div class="lister-item-image"><a href="/title/tt3/"><img src="http://img/3.jpg"></a></div>
            <div class="lister-item-content">
                <h3 class="lister-item-header"><a href="/title/tt3/">Third Movie</a><span class="lister-item-year">(2003)</span></h3>
                <p class="text-muted"><span class="genre">Short</span></p>
            </div>
        </div>
    "#,
        FULL_ROW
    );
    let html = Html::parse_fragment(&listing_page(&rows));
    let result = ByTitle::new(1, 10).parse_result(html);
    let items = result.items();
    assert_eq!(items.len(), 1);
    assert_eq!(items[0].title().text(), "First Movie");
    for item in items {
        assert!(!item.title().text().is_empty());
        assert!(!item.title().link().is_empty());
    }
}

#[test]
fn title_get_by_role_and_unknown_role() {
    let html = Html::parse_fragment(&listing_page(FULL_ROW));
    let result = ByTitle::new(1, 10).parse_result(html);
    let item = &result.items()[0];
    let by_role = item.get_by_role("Stars");
    assert_eq!(by_role.len(), 2);
    assert_eq!(by_role[0].link(), "/name/nm2/");
    assert_eq!(item.get_by_role("Producer").len(), 0);
}

#[test]
fn title_get_by_roles_keeps_variant_order() {
    let html = Html::parse_fragment(&listing_page(FULL_ROW));
    let result = ByTitle::new(1, 10).parse_result(html);
    let item = &result.items()[0];
    let both = item.get_by_roles(vec!["Stars", "Director"]);
    assert_eq!(both.len(), 3);
    assert_eq!(both[0].name(), "Bob");
    assert_eq!(both[1].name(), "Cara");
    assert_eq!(both[2].name(), "Alice");
}

#[test]
fn title_to_string_rendering() {
    let html = Html::parse_fragment(&listing_page(FULL_ROW));
    let result = ByTitle::new(1, 10).parse_result(html);
    let item = &result.items()[0];
    assert_eq!(
        item.to_string(),
        "First Movie (2001)\n- Action 90 min\n- Rating: 7.5\n- A summary here."
    );
}

#[test]
fn title_join_peoples_rendering() {
    let html = Html::parse_fragment(&listing_page(FULL_ROW));
    let result = ByTitle::new(1, 10).parse_result(html);
    let item = &result.items()[0];
    let joined = item.join_peoples(
        |role: &String| format!("{}: ", role),
        "; ",
        |p: &imdb_search::PeopleInfo| p.name().to_string(),
        ", ",
    );
    assert_eq!(joined, "Director: Alice; Stars: Bob, Cara");
}
