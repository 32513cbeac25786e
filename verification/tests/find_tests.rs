use imdb_search::by_title_find::ByTitleFind;
use scraper::Html;

#[test]
pub fn test_by_title_parser() {
    let html = Html::parse_fragment(
        r#"
        <div id="main">
    <div class="article">
        <h1 class="findHeader">Displaying 200 results for <span class="findSearchTerm">"Starwars"</span></h1>

        <div id="findSubHeader"><span id="findSubHeaderLabel">Search category: </span>
            All Titles

        </div>

        <div class="findSection">
            <h3 class="findSectionHeader"><a name="tt"></a>Titles</h3>
            <table class="findList">
                <tbody>
                    <tr class="findResult odd">
                        <td class="primary_photo"> <a href="/title/tt9336300/?ref_=fn_tt_tt_1"><img
                                    src="https://m.media-amazon.com/images/M/MV5BNTI5OTBhMGYtNTZlNS00MjMzLTk5NTEtZDZkODM5YjYzYmE5XkEyXkFqcGdeQXVyMzU0OTU0MzY@._V1_UY44_CR2,0,32,44_AL_.jpg"></a>
                        </td>
                        <td class="result_text"> <a href="/title/tt9336300/?ref_=fn_tt_tt_1">Starwars: Goretech</a>
                            (2018) </td>
                    </tr>
                    <tr class="findResult even">
                        <td class="primary_photo"> <a href="/title/tt11953086/?ref_=fn_tt_tt_2"><img
                                    src="https://m.media-amazon.com/images/M/MV5BNGFlOWMxNTktMjJiOC00ZDczLWFiNDgtYTdmZTE5Nzc4Mjk4XkEyXkFqcGdeQXVyNzExMzc0MDg@._V1_UY44_CR23,0,32,44_AL_.jpg"></a>
                        </td>
                        <td class="result_text"> <a href="/title/tt11953086/?ref_=fn_tt_tt_2">StarWarsOnly</a> (2016)
                            (TV Series) </td>
                    </tr>
                    <tr class="findResult odd">
                        <td class="primary_photo"> <a href="/title/tt10763556/?ref_=fn_tt_tt_3"><img
                                    src="https://m.media-amazon.com/images/M/MV5BODNlZTQ0ZTYtNzk3Ni00ODA2LWJjNDItNzQ5MDhjZTNiYTQ1XkEyXkFqcGdeQXVyNjU1OTg4OTM@._V1_UY44_CR23,0,32,44_AL_.jpg"></a>
                        </td>
                        <td class="result_text"> <a href="/title/tt10763556/?ref_=fn_tt_tt_3">StarWarsTFA Spoiler Review
                                pt 12/12 - Favorite Lines and Moments</a> (2015) (TV Episode) <br> <small>- Season 1
                                <span class="ghost">|</span> Episode 13 </small> <br><small>- <a
                                    href="/title/tt10763450/?ref_=fn_tt_tt_3a">Blind Wave Movie Reviews</a> (2015) (TV
                                Series) </small> </td>
                    </tr>
                    <tr class="findResult even">
                        <td class="primary_photo"> <a href="/title/tt14640026/?ref_=fn_tt_tt_4"><img
                                    src="https://m.media-amazon.com/images/M/MV5BNGFlOWMxNTktMjJiOC00ZDczLWFiNDgtYTdmZTE5Nzc4Mjk4XkEyXkFqcGdeQXVyNzExMzc0MDg@._V1_UY44_CR23,0,32,44_AL_.jpg"></a>
                        </td>
                        <td class="result_text"> <a href="/title/tt14640026/?ref_=fn_tt_tt_4">Bad Batch Episode 2 Cut
                                and Run Review!</a> (2021) (TV Episode) <br><small>- <a
                                    href="/title/tt11953086/?ref_=fn_tt_tt_4a">StarWarsOnly</a> (2016) (TV Series)
                            </small> </td>
                    </tr>
                    <tr class="findResult odd">
                        <td class="primary_photo"> <a href="/title/tt10763540/?ref_=fn_tt_tt_5"><img
                                    src="https://m.media-amazon.com/images/M/MV5BM2FiNjliYzMtNTc1MC00MWIyLWJiOGMtYmZkZGYzZjYwMWU4XkEyXkFqcGdeQXVyNjU1OTg4OTM@._V1_UY44_CR23,0,32,44_AL_.jpg"></a>
                        </td>
                        <td class="result_text"> <a href="/title/tt10763540/?ref_=fn_tt_tt_5">StarWarsTFA Spoiler Review
                                pt 10/12 - Visions, Jedi, and Snoke</a> (2015) (TV Episode) <br> <small>- Season 1 <span
                                    class="ghost">|</span> Episode 11 </small> <br><small>- <a
                                    href="/title/tt10763450/?ref_=fn_tt_tt_5a">Blind Wave Movie Reviews</a> (2015) (TV
                                Series) </small> </td>
                    </tr>
                    <tr class="findResult even">
                        <td class="primary_photo"> <a href="/title/tt0076759/?ref_=fn_tt_tt_6"><img
                                    src="https://m.media-amazon.com/images/M/MV5BNzg4MjQxNTQtZmI5My00YjMwLWJlMjUtMmJlY2U2ZWFlNzY1XkEyXkFqcGdeQXVyODk4OTc3MTY@._V1_UX32_CR0,0,32,44_AL_.jpg"></a>
                        </td>
                        <td class="result_text"> <a href="/title/tt0076759/?ref_=fn_tt_tt_6">Star Wars</a> (1977) </td>
                    </tr>
                    <tr class="findResult odd">
                        <td class="primary_photo"> <a href="/title/tt0458290/?ref_=fn_tt_tt_7"><img
                                    src="https://m.media-amazon.com/images/M/MV5BZWFlNzRmOTItZjY1Ni00ZjZkLTk5MDgtOGFhOTYzNWFhYzhmXkEyXkFqcGdeQXVyMDM2NDM2MQ@@._V1_UX32_CR0,0,32,44_AL_.jpg"></a>
                        </td>
                        <td class="result_text"> <a href="/title/tt0458290/?ref_=fn_tt_tt_7">Star Wars: The Clone
                                Wars</a> (2008) (TV Series) </td>
                    </tr>
                    <tr class="findResult even">
                        <td class="primary_photo"> <a href="/title/tt2930604/?ref_=fn_tt_tt_8"><img
                                    src="https://m.media-amazon.com/images/M/MV5BY2Q1ZTAzNzMtMzlmNy00NjdjLThhYjgtMzgxN2ZkYmFhMDIwXkEyXkFqcGdeQXVyMjg5NDMwMQ@@._V1_UX32_CR0,0,32,44_AL_.jpg"></a>
                        </td>
                        <td class="result_text"> <a href="/title/tt2930604/?ref_=fn_tt_tt_8">Star Wars: Rebels</a>
                            (2014) (TV Series) </td>
                    </tr>
                    <tr class="findResult odd">
                        <td class="primary_photo"> <a href="/title/tt3778644/?ref_=fn_tt_tt_9"><img
                                    src="https://m.media-amazon.com/images/M/MV5BOTM2NTI3NTc3Nl5BMl5BanBnXkFtZTgwNzM1OTQyNTM@._V1_UX32_CR0,0,32,44_AL_.jpg"></a>
                        </td>
                        <td class="result_text"> <a href="/title/tt3778644/?ref_=fn_tt_tt_9">Solo: A Star Wars Story</a>
                            (2018) </td>
                    </tr>
                    <tr class="findResult even">
                        <td class="primary_photo"> <a href="/title/tt3748528/?ref_=fn_tt_tt_10"><img
                                    src="https://m.media-amazon.com/images/M/MV5BMjEwMzMxODIzOV5BMl5BanBnXkFtZTgwNzg3OTAzMDI@._V1_UX32_CR0,0,32,44_AL_.jpg"></a>
                        </td>
                        <td class="result_text"> <a href="/title/tt3748528/?ref_=fn_tt_tt_10">Rogue One: A Star Wars
                                Story</a> (2016) </td>
                    </tr>
                    <tr class="findResult odd">
                        <td class="primary_photo"> <a href="/title/tt12708542/?ref_=fn_tt_tt_11"><img
                                    src="https://m.media-amazon.com/images/M/MV5BNDA5YzQzYmItZTE4NC00NTNkLTljZGItNDQ0YjI3MzdhZjlhXkEyXkFqcGdeQXVyMTEyMjM2NDc2._V1_UX32_CR0,0,32,44_AL_.jpg"></a>
                        </td>
                        <td class="result_text"> <a href="/title/tt12708542/?ref_=fn_tt_tt_11">Star Wars: The Bad
                                Batch</a> (2021) (TV Series) </td>
                    </tr>
                    <tr class="findResult even">
                        <td class="primary_photo"> <a href="/title/tt13622982/?ref_=fn_tt_tt_12"><img
                                    src="https://m.media-amazon.com/images/M/MV5BNWJiMDA4OTEtOGU0MC00ZDc5LWE5NWItNWVhMTlhNDliMjc4XkEyXkFqcGdeQXVyMTEyMjM2NDc2._V1_UY44_CR1,0,32,44_AL_.jpg"></a>
                        </td>
                        <td class="result_text"> <a href="/title/tt13622982/?ref_=fn_tt_tt_12">Star Wars: Visions</a>
                            (2021) (TV Series) </td>
                    </tr>
                </tbody>
            </table>
        </div>
    </div>
</div>
        "#,
    );

    let by_title_find = ByTitleFind::default();
    let result = by_title_find.parse_result(html);

    let first = result.items().first().unwrap();
    let title_id = first.get_title_id();

    println!("{}", title_id);
}

fn find_page(rows: &str) -> String {
    format!(
        r#"<div id="main"><div class="article"><div class="findSection"><table class="findList"><tbody>{}</tbody></table></div></div></div>"#,
        rows
    )
}

#[test]
fn find_counts_only_well_formed_rows() {
    let rows = r#"
        <tr><td><a href="/title/tt1/"><img src="http://img/1.jpg"></a></td><td><a href="/title/tt1/">One</a></td></tr>
        <tr><td>no image here</td><td><a href="/title/tt2/">Two</a></td></tr>
        <tr><td><a href="/title/tt3/"><img src="http://img/3.jpg"></a></td><td>no anchor</td></tr>
        <tr><td><a href="/title/tt4/"><img src="http://img/4.jpg"></a></td><td><a href="/title/tt4/">Four</a></td></tr>
        <tr><td>only one cell</td></tr>
    "#;
    let html = Html::parse_fragment(&find_page(rows));
    let result = ByTitleFind::default().parse_result(html);
    let items = result.items();
    assert_eq!(items.len(), 2);
    for item in items {
        assert!(!item.title().is_empty());
        assert!(!item.link().is_empty());
        assert!(!item.img_uri().is_empty());
    }
    assert_eq!(items[0].title(), "One");
    assert_eq!(items[0].link(), "/title/tt1/");
    assert_eq!(items[0].img_uri(), "http://img/1.jpg");
    assert_eq!(items[1].title(), "Four");
}

#[test]
fn find_row_without_text_anchor_yields_nothing() {
    let rows = r#"
        <tr><td><a href="/title/tt1/"><img src="http://img/1.jpg"></a></td><td>plain text, no anchor</td></tr>
    "#;
    let html = Html::parse_fragment(&find_page(rows));
    let result = ByTitleFind::default().parse_result(html);
    assert_eq!(result.items().len(), 0);
}

#[test]
fn find_title_id_is_third_path_segment() {
    let rows = r#"
        <tr><td><a href="/title/tt9336300/?x=1"><img src="http://img/1.jpg"></a></td><td><a href="/title/tt9336300/?x=1">Goretech</a></td></tr>
    "#;
    let html = Html::parse_fragment(&find_page(rows));
    let result = ByTitleFind::default().parse_result(html);
    assert_eq!(result.items()[0].get_title_id(), "tt9336300");
}

#[test]
fn find_title_id_of_short_href_is_empty() {
    let rows = r#"
        <tr><td><a href="plain"><img src="http://img/1.jpg"></a></td><td><a href="plain">Odd</a></td></tr>
    "#;
    let html = Html::parse_fragment(&find_page(rows));
    let result = ByTitleFind::default().parse_result(html);
    assert_eq!(result.items()[0].get_title_id(), "");
}

#[test]
fn find_uri_shape() {
    let uri = ByTitleFind::default().get_uri("https://www.imdb.com", "star%20wars");
    assert_eq!(uri, "https://www.imdb.com/find?s=tt&q=star%20wars");
}
