use imdb_search::by_title::ByTitle;
use scraper::Html;

#[test]
fn test_parse_people() {
    ByTitle::parse_people_tag(
        Html::parse_fragment(
            r#"
            <p class="">
    Director:
<a href="/name/nm1918751/?ref_=adv_li_dr_0">Christopher Robin Collins</a>
                 <span class="ghost">|</span>
    Stars:
<a href="/name/nm5086781/?ref_=adv_li_st_0">Five Star</a>,
<a href="/name/nm1711245/?ref_=adv_li_st_1">Delroy Pearson</a>,
<a href="/name/nm1269772/?ref_=adv_li_st_2">Denise Pearson</a>,
<a href="/name/nm1711246/?ref_=adv_li_st_3">Doris Pearson</a>
    </p>
            "#,
        )
        .root_element(),
    );
}

#[test]
fn people_scenario_director_and_stars() {
    let html = Html::parse_fragment(
        r#"<p class="">Director: <a href="/name/nm1/">Alice</a> Stars: <a href="/name/nm2/">Bob</a>, <a href="/name/nm3/">Cara</a></p>"#,
    );
    let groups = ByTitle::parse_people_tag(html.root_element());
    assert_eq!(groups.len(), 2);

    assert_eq!(groups[0].role(), "Director");
    let director = groups[0].people();
    assert_eq!(director.len(), 1);
    assert_eq!(director[0].name(), "Alice");
    assert_eq!(director[0].role(), "Director");
    assert_eq!(director[0].link(), "/name/nm1/");

    assert_eq!(groups[1].role(), "Stars");
    let stars = groups[1].people();
    assert_eq!(stars.len(), 2);
    assert_eq!(stars[0].name(), "Bob");
    assert_eq!(stars[0].role(), "Stars");
    assert_eq!(stars[0].link(), "/name/nm2/");
    assert_eq!(stars[1].name(), "Cara");
    assert_eq!(stars[1].role(), "Stars");
    assert_eq!(stars[1].link(), "/name/nm3/");
}

#[test]
fn people_reparse_is_identical() {
    let block = r#"<p class="">Director: <a href="/name/nm1/">Alice</a> Stars: <a href="/name/nm2/">Bob</a>, <a href="/name/nm3/">Cara</a></p>"#;
    let first = ByTitle::parse_people_tag(Html::parse_fragment(block).root_element());
    let second = ByTitle::parse_people_tag(Html::parse_fragment(block).root_element());
    assert_eq!(first.len(), second.len());
    for (a, b) in first.iter().zip(second.iter()) {
        assert_eq!(a.role(), b.role());
        assert_eq!(a.people().len(), b.people().len());
        for (pa, pb) in a.people().iter().zip(b.people().iter()) {
            assert_eq!(pa.name(), pb.name());
            assert_eq!(pa.link(), pb.link());
            assert_eq!(pa.role(), pb.role());
        }
    }
}

#[test]
fn people_name_without_anchor_is_dropped() {
    let html = Html::parse_fragment(
        r#"<p class="">Stars: <a href="/name/nm2/">Bob</a>, Ghost</p>"#,
    );
    let groups = ByTitle::parse_people_tag(html.root_element());
    assert_eq!(groups.len(), 1);
    assert_eq!(groups[0].role(), "Stars");
    let stars = groups[0].people();
    assert_eq!(stars.len(), 1);
    assert_eq!(stars[0].name(), "Bob");
    for g in &groups {
        for p in g.people() {
            assert_ne!(p.name(), "Ghost");
            assert!(!p.link().is_empty());
        }
    }
}

#[test]
fn people_empty_role_bucket_is_dropped() {
    let html = Html::parse_fragment(r#"<p class="">Director:</p>"#);
    let groups = ByTitle::parse_people_tag(html.root_element());
    assert_eq!(groups.len(), 0);
}

#[test]
fn people_role_label_colon_stripped_at_first_colon() {
    let html = Html::parse_fragment(
        r#"<p class="">Written by: <a href="/name/nm9/">Dana</a></p>"#,
    );
    let groups = ByTitle::parse_people_tag(html.root_element());
    assert_eq!(groups.len(), 1);
    assert_eq!(groups[0].role(), "Written by");
    assert_eq!(groups[0].people()[0].name(), "Dana");
}

#[test]
fn people_name_before_first_label_goes_to_empty_role() {
    let html = Html::parse_fragment(
        r#"<p class=""><a href="/name/nm8/">Early Bird</a> Director: <a href="/name/nm1/">Alice</a></p>"#,
    );
    let groups = ByTitle::parse_people_tag(html.root_element());
    assert_eq!(groups.len(), 2);
    assert_eq!(groups[0].role(), "");
    assert_eq!(groups[0].people().len(), 1);
    assert_eq!(groups[0].people()[0].name(), "Early Bird");
    assert_eq!(groups[1].role(), "Director");
}
