//! The "quick find" results extractor: parses the results table of a find
//! page into lightweight title/link/image records, silently skipping every
//! row that does not have the expected two-cell shape (a photo cell holding
//! an anchor-wrapped image with a `src`, and a text cell holding an anchor
//! with an `href`).  A skipped row leaves no trace but a shorter result.

use vstd::prelude::*;
use vstd::string::StringExecFns;
use crate::dom::{get_selector, doc_select_all, elem_select_all, elem_select_first, elem_attr,
    parse_a_tag};
use crate::helper_tags::{ATag, AnchorV};
use crate::text::{nth_segment, segment_at};

verus! {

/// The find strategy: it has no parameters of its own.
pub struct ByTitleFind;

impl Default for ByTitleFind {
    fn default() -> Self {
        Self {  }
    }
}

/// The abstract value of one found title.
pub struct FoundItemV {
    pub title: Seq<char>,
    pub href: Seq<char>,
    pub img: Seq<char>,
}

/// One valid row of the find-results table: the anchor's display text and
/// href from the text cell, and the image source from the photo cell.
pub struct ByTitleFoundItem {
    pub(crate) title: String,
    pub(crate) link: String,
    pub(crate) img_uri: String,
}

impl View for ByTitleFoundItem {
    type V = FoundItemV;

    closed spec fn view(&self) -> FoundItemV {
        FoundItemV { title: self.title@, href: self.link@, img: self.img_uri@ }
    }
}

impl DeepView for ByTitleFoundItem {
    type V = FoundItemV;

    open spec fn deep_view(&self) -> FoundItemV {
        self.view()
    }
}

impl ByTitleFoundItem {
    /// The identifier taken from a fixed positional path segment of the
    /// href: its third `/`-delimited segment.  The shape of the URL path is
    /// assumed, not validated: a differently-shaped href yields an
    /// incorrect or empty identifier, never an error.
    pub fn get_title_id(&self) -> (r: String)
        ensures
            r@ == nth_segment(self@.href, '/', 2),
    {
        segment_at(self.link.as_str(), '/', 2)
    }

    /// The found title's display text.
    pub fn title(&self) -> (r: &str)
        ensures
            r@ == self@.title,
    {
        self.title.as_str()
    }

    /// The found title's link.
    pub fn link(&self) -> (r: &str)
        ensures
            r@ == self@.href,
    {
        self.link.as_str()
    }

    /// The source URL of the row's photo.
    pub fn img_uri(&self) -> (r: &str)
        ensures
            r@ == self@.img,
    {
        self.img_uri.as_str()
    }
}

/// The ordered results of one find parse.
pub struct ByTitleFound {
    pub(crate) items: Vec<ByTitleFoundItem>,
}

impl View for ByTitleFound {
    type V = Seq<FoundItemV>;

    closed spec fn view(&self) -> Seq<FoundItemV> {
        self.items.deep_view()
    }
}

impl ByTitleFound {
    /// The found items, in page order.
    pub fn items(&self) -> (r: &[ByTitleFoundItem])
        ensures
            r.deep_view() == self@,
    {
        self.items.as_slice()
    }
}

/// What one row of the results table yields once the document handles are
/// stripped away: the image source of the photo cell, if the cell, its
/// anchor, its image and the `src` attribute are all resolvable, and the
/// text cell's anchor, if the cell, the anchor and its `href` are.
pub struct FindRowParts {
    pub image_src: Option<String>,
    pub anchor: Option<ATag>,
}

/// The abstract value of `FindRowParts`.
pub struct FindRowPartsV {
    pub image_src: Option<Seq<char>>,
    pub anchor: Option<AnchorV>,
}

impl DeepView for FindRowParts {
    type V = FindRowPartsV;

    open spec fn deep_view(&self) -> FindRowPartsV {
        FindRowPartsV { image_src: self.image_src.deep_view(), anchor: self.anchor.deep_view() }
    }
}

/// Whether a row has everything a `ByTitleFoundItem` needs.
pub open spec fn row_complete(p: FindRowPartsV) -> bool {
    p.image_src is Some && p.anchor is Some
}

/// The item a row yields: a record exactly when the row is complete.
pub open spec fn found_item_spec(p: FindRowPartsV) -> Option<FoundItemV> {
    if row_complete(p) {
        Some(
            FoundItemV {
                title: p.anchor->Some_0.text,
                href: p.anchor->Some_0.href,
                img: p.image_src->Some_0,
            },
        )
    } else {
        None
    }
}

/// The items of a whole table: one per complete row, in page order;
/// incomplete rows are skipped without a trace.
pub open spec fn found_items_spec(rows: Seq<FindRowPartsV>) -> Seq<FoundItemV>
    decreases rows.len(),
{
    if rows.len() == 0 {
        Seq::empty()
    } else {
        let init = found_items_spec(rows.drop_last());
        match found_item_spec(rows.last()) {
            Some(item) => init.push(item),
            None => init,
        }
    }
}

/// The number of complete rows.
pub open spec fn count_complete(rows: Seq<FindRowPartsV>) -> int
    decreases rows.len(),
{
    if rows.len() == 0 {
        0
    } else {
        count_complete(rows.drop_last()) + (if row_complete(rows.last()) {
            1int
        } else {
            0int
        })
    }
}

/// Builds the record of one row, exactly as `found_item_spec` describes:
/// `Some` precisely when both the photo cell's image source and the text
/// cell's anchor were resolvable, carrying their values verbatim.
pub fn build_found_item(parts: &FindRowParts) -> (r: Option<ByTitleFoundItem>)
    ensures
        r.deep_view() == found_item_spec(parts.deep_view()),
{
    match (&parts.image_src, &parts.anchor) {
        (Some(img), Some(a)) => {
            Some(
                ByTitleFoundItem {
                    title: a.text().to_owned(),
                    link: a.link().to_owned(),
                    img_uri: img.clone(),
                },
            )
        },
        _ => None,
    }
}

/// Assembles the items of a parsed table from its rows' plain parts, as
/// `found_items_spec` describes: exactly one item per complete row, in
/// order, each carrying the row's anchor text, href and image source.
pub fn found_items_of(rows: &Vec<FindRowParts>) -> (r: Vec<ByTitleFoundItem>)
    ensures
        r.deep_view() == found_items_spec(rows.deep_view()),
{
    let mut out: Vec<ByTitleFoundItem> = Vec::new();
    let mut i: usize = 0;
    let ghost rowsv = rows.deep_view();
    proof {
        assert(out.deep_view() =~= found_items_spec(rowsv.take(0)));
    }
    while i < rows.len()
        invariant
            0 <= i <= rows.len(),
            rowsv == rows.deep_view(),
            out.deep_view() == found_items_spec(rowsv.take(i as int)),
        decreases rows.len() - i,
    {
        proof {
            assert(rows[i as int].deep_view() == rowsv[i as int]);
            assert(rowsv.take(i + 1).drop_last() =~= rowsv.take(i as int));
            assert(rowsv.take(i + 1).last() == rowsv[i as int]);
        }
        match build_found_item(&rows[i]) {
            Some(item) => {
                out.push(item);
                proof {
                    assert(out.deep_view() =~= found_items_spec(rowsv.take(i + 1)));
                }
            },
            None => {
                proof {
                    assert(out.deep_view() =~= found_items_spec(rowsv.take(i + 1)));
                }
            },
        }
        i = i + 1;
    }
    proof {
        assert(rowsv.take(rowsv.len() as int) =~= rowsv);
    }
    out
}

/// A parsed find-results table yields exactly one item per complete row.
pub proof fn lemma_find_results_count(rows: Seq<FindRowPartsV>)
    ensures
        found_items_spec(rows).len() == count_complete(rows),
    decreases rows.len(),
{
    if rows.len() == 0 {
    } else {
        lemma_find_results_count(rows.drop_last());
    }
}

/// When every complete row carries non-empty anchor text, href and image
/// source, every emitted item has non-empty title, href and image source.
pub proof fn lemma_find_results_nonempty(rows: Seq<FindRowPartsV>)
    requires
        forall|j: int|
            0 <= j < rows.len() && row_complete(#[trigger] rows[j]) ==> {
                (rows[j].anchor->Some_0).text.len() > 0 && (rows[j].anchor->Some_0).href.len() > 0
                    && (rows[j].image_src->Some_0).len() > 0
            },
    ensures
        forall|i: int|
            0 <= i < found_items_spec(rows).len() ==> {
                let it = #[trigger] found_items_spec(rows)[i];
                it.title.len() > 0 && it.href.len() > 0 && it.img.len() > 0
            },
    decreases rows.len(),
{
    if rows.len() == 0 {
    } else {
        lemma_find_results_nonempty(rows.drop_last());
        let init = found_items_spec(rows.drop_last());
        let whole = found_items_spec(rows);
        assert forall|i: int| 0 <= i < whole.len() implies {
            let it = #[trigger] whole[i];
            it.title.len() > 0 && it.href.len() > 0 && it.img.len() > 0
        } by {
            if i < init.len() {
                assert(whole[i] == init[i]);
            } else {
                assert(row_complete(rows[rows.len() - 1]));
            }
        }
    }
}

impl ByTitleFind {
    /// The request URL of a find search: the base URL followed by
    /// `/find?s=tt&q=` and the already-encoded query, by plain
    /// concatenation.
    pub fn get_uri(&self, base_uri: &str, query: &str) -> (r: String)
        ensures
            r@ == base_uri@ + "/find?s=tt&q="@ + query@,
    {
        let mut r = String::new();
        r.append(base_uri);
        r.append("/find?s=tt&q=");
        r.append(query);
        proof {
            assert(r@ =~= base_uri@ + "/find?s=tt&q="@ + query@);
        }
        r
    }

    /// Parses a find-results page.  Every table row either yields one item
    /// — when its photo cell holds an anchor-wrapped image with a `src`
    /// and its text cell holds an anchor with an `href` — or is skipped
    /// silently, so the result is `found_items_spec` of what the rows held.
    pub fn parse_result(&self, html: scraper::Html) -> (r: ByTitleFound)
        ensures
            exists|rows: Seq<FindRowPartsV>| r@ == found_items_spec(rows),
    {
        let items_sel = get_selector("#main > div > div.findSection > table > tbody > tr");
        let td_sel = get_selector("td");
        let img_sel = get_selector("a > img");
        let a_sel = get_selector("a");
        match (items_sel, td_sel, img_sel, a_sel) {
            (Ok(items_sel), Ok(td_sel), Ok(img_sel), Ok(a_sel)) => {
                let trs = doc_select_all(&html, &items_sel);
                let mut rows: Vec<FindRowParts> = Vec::new();
                let mut i: usize = 0;
                while i < trs.len()
                    decreases trs.len() - i,
                {
                    rows.push(gather_find_row(&trs[i], &td_sel, &img_sel, &a_sel));
                    i = i + 1;
                }
                let ghost rowsv = rows.deep_view();
                let items = found_items_of(&rows);
                let found = ByTitleFound { items };
                proof {
                    assert(found@ == found_items_spec(rowsv));
                }
                found
            },
            _ => {
                let found = ByTitleFound { items: Vec::new() };
                proof {
                    assert(found@ =~= found_items_spec(Seq::<FindRowPartsV>::empty()));
                }
                found
            },
        }
    }
}

/// Strips one table row down to plain values: the photo cell's image
/// source (first cell, anchor-wrapped image, `src` attribute) and the text
/// cell's anchor (second cell, first anchor, `href` attribute), each `None`
/// as soon as any piece of the chain is missing.
fn gather_find_row(
    tr: &scraper::ElementRef<'_>,
    td_sel: &scraper::Selector,
    img_sel: &scraper::Selector,
    a_sel: &scraper::Selector,
) -> FindRowParts {
    let tds = elem_select_all(tr, td_sel);
    if tds.len() < 2 {
        return FindRowParts { image_src: None, anchor: None };
    }
    let image_src = match elem_select_first(&tds[0], img_sel) {
        Some(img) => elem_attr(&img, "src"),
        None => None,
    };
    let anchor = match elem_select_first(&tds[1], a_sel) {
        Some(a_ele) => parse_a_tag(&a_ele),
        None => None,
    };
    FindRowParts { image_src, anchor }
}

} // verus!
