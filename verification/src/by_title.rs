//! The title-listing extractor: parses a search-results page into rich
//! items, each carrying a role-keyed grouping of people recovered from the
//! row's credit block.  A row without the item-content block is an ad or
//! separator and is skipped; a row missing a required structural element
//! (title anchor with non-empty text and href, year span, info block,
//! summary block, people block, image source) is malformed and skipped as
//! well, leaving only a shorter result.  The rating alone degrades
//! gracefully, to the literal sentinel `"No rating."`.

use vstd::prelude::*;
use vstd::string::StrSliceExecFns;
use vstd::string::StringExecFns;
use crate::dom::{get_selector, doc_select_all, elem_select_all, elem_select_first, elem_attr,
    elem_inner_html, elem_texts, parse_a_tag, collect_a_tags};
use crate::helper_tags::{ATag, AnchorV};
use crate::people::{PeopleInfo, PersonV, RoleGroup, RoleGroupV, people_spec, role_lookup,
    parse_people, lemma_people_linked, lemma_role_group_view};
use crate::text::{trim, trim_spec, str_eq, join_with, join_strings, dec_rep, u64_to_dec};

verus! {

/// The abstract value of one title-listing item.
pub struct TitleItemV {
    pub title: AnchorV,
    pub image_url: Seq<char>,
    pub years: Seq<char>,
    pub info: Seq<char>,
    pub rating: Seq<char>,
    pub summery: Seq<char>,
    pub peoples: Seq<RoleGroupV>,
}

/// One row of a title-listing page: the title anchor, the image source,
/// the year span, the joined info spans, the rating (or its sentinel), the
/// summary, and the role-keyed people grouping.
pub struct TitleSearchItem {
    pub(crate) title: ATag,
    pub(crate) image_url: String,
    pub(crate) years: String,
    pub(crate) info: String,
    pub(crate) rating: String,
    pub(crate) summery: String,
    pub(crate) peoples_info: Vec<RoleGroup>,
}

impl View for TitleSearchItem {
    type V = TitleItemV;

    closed spec fn view(&self) -> TitleItemV {
        TitleItemV {
            title: self.title@,
            image_url: self.image_url@,
            years: self.years@,
            info: self.info@,
            rating: self.rating@,
            summery: self.summery@,
            peoples: self.peoples_info.deep_view(),
        }
    }
}

impl DeepView for TitleSearchItem {
    type V = TitleItemV;

    open spec fn deep_view(&self) -> TitleItemV {
        self.view()
    }
}

/// The people of several role labels, one label's bucket after the other.
pub open spec fn multi_role_lookup(groups: Seq<RoleGroupV>, roles: Seq<Seq<char>>) -> Seq<
    PersonV,
>
    decreases roles.len(),
{
    if roles.len() == 0 {
        Seq::empty()
    } else {
        multi_role_lookup(groups, roles.drop_last()) + role_lookup(groups, roles.last())
    }
}

fn clone_people(v: &Vec<PeopleInfo>) -> (r: Vec<PeopleInfo>)
    ensures
        r.deep_view() == v.deep_view(),
{
    let mut out: Vec<PeopleInfo> = Vec::new();
    let mut i: usize = 0;
    proof {
        assert(out.deep_view() =~= v.deep_view().take(0));
    }
    while i < v.len()
        invariant
            0 <= i <= v.len(),
            out.deep_view() == v.deep_view().take(i as int),
        decreases v.len() - i,
    {
        let c = v[i].clone();
        proof {
            assert(c@ == v@[i as int]@);
            assert(c.deep_view() == v.deep_view()[i as int]);
        }
        let ghost pre = out.deep_view();
        out.push(c);
        proof {
            assert(out.deep_view() =~= pre.push(c.deep_view()));
            assert(pre.push(c.deep_view()) =~= v.deep_view().take(i + 1));
        }
        i = i + 1;
    }
    proof {
        assert(v.deep_view().take(v@.len() as int) =~= v.deep_view());
    }
    out
}

impl TitleSearchItem {
    /// The title anchor.
    pub fn title(&self) -> (r: &ATag)
        ensures
            r@ == self@.title,
    {
        &self.title
    }

    /// The year span's inner markup, verbatim.
    pub fn years(&self) -> (r: &str)
        ensures
            r@ == self@.years,
    {
        self.years.as_str()
    }

    /// The space-joined inner text of the info block's spans.
    pub fn info(&self) -> (r: &str)
        ensures
            r@ == self@.info,
    {
        self.info.as_str()
    }

    /// The rating's data attribute, or the literal sentinel `"No rating."`
    /// when the row has no rating bar: a non-numeric value, not an error.
    pub fn rating(&self) -> (r: &str)
        ensures
            r@ == self@.rating,
    {
        self.rating.as_str()
    }

    /// The trimmed inner markup of the summary block.
    pub fn summery(&self) -> (r: &str)
        ensures
            r@ == self@.summery,
    {
        self.summery.as_str()
    }

    /// The source URL of the row's image.
    pub fn image_url(&self) -> (r: &str)
        ensures
            r@ == self@.image_url,
    {
        self.image_url.as_str()
    }

    /// The people credited under exactly the given role label, in page
    /// order; empty when the row has no such bucket.
    pub fn get_by_role(&self, role: &str) -> (r: Vec<PeopleInfo>)
        ensures
            r.deep_view() == role_lookup(self@.peoples, role@),
    {
        let groups = &self.peoples_info;
        let ghost gv = self@.peoples;
        let mut i: usize = 0;
        proof {
            assert(gv.skip(0) =~= gv);
        }
        while i < groups.len()
            invariant
                0 <= i <= groups.len(),
                gv == self@.peoples,
                groups.deep_view() == gv,
                role_lookup(gv.skip(i as int), role@) == role_lookup(gv, role@),
            decreases groups.len() - i,
        {
            proof {
                assert(groups.deep_view()[i as int] == groups@[i as int]@);
                assert(gv.skip(i as int)[0] == gv[i as int]);
                assert(gv.skip(i as int).skip(1) =~= gv.skip(i + 1));
            }
            if str_eq(groups[i].role(), role) {
                return clone_people(groups[i].people());
            }
            i = i + 1;
        }
        proof {
            assert(role_lookup(gv.skip(groups@.len() as int), role@) == role_lookup(gv, role@));
        }
        Vec::new()
    }

    /// The people of the given role labels: all matches for the first
    /// label, in page order, then all matches for the next, and so on.
    pub fn get_by_roles(&self, roles: Vec<&str>) -> (r: Vec<PeopleInfo>)
        ensures
            r.deep_view() == multi_role_lookup(self@.peoples, roles.deep_view()),
    {
        let ghost rv = roles.deep_view();
        let mut out: Vec<PeopleInfo> = Vec::new();
        let mut i: usize = 0;
        proof {
            assert(out.deep_view() =~= multi_role_lookup(self@.peoples, rv.take(0)));
        }
        while i < roles.len()
            invariant
                0 <= i <= roles.len(),
                rv == roles.deep_view(),
                out.deep_view() == multi_role_lookup(self@.peoples, rv.take(i as int)),
            decreases roles.len() - i,
        {
            let mut part = self.get_by_role(roles[i]);
            proof {
                assert(roles.deep_view()[i as int] == roles@[i as int]@);
                assert(rv.take(i + 1).drop_last() =~= rv.take(i as int));
                assert(rv.take(i + 1).last() == rv[i as int]);
            }
            out.append(&mut part);
            proof {
                assert(out.deep_view() =~= multi_role_lookup(self@.peoples, rv.take(i + 1)));
            }
            i = i + 1;
        }
        proof {
            assert(rv.take(roles@.len() as int) =~= rv);
        }
        out
    }

    /// The people credited as `Director` or `Directors`.
    pub fn directors(&self) -> (r: Vec<PeopleInfo>)
        ensures
            r.deep_view() == multi_role_lookup(self@.peoples, seq!["Director"@, "Directors"@]),
    {
        let roles: Vec<&str> = vec!["Director", "Directors"];
        proof {
            assert(roles.deep_view() =~= seq!["Director"@, "Directors"@]);
        }
        self.get_by_roles(roles)
    }

    /// The people credited as `Star` or `Stars`.
    pub fn stars(&self) -> (r: Vec<PeopleInfo>)
        ensures
            r.deep_view() == multi_role_lookup(self@.peoples, seq!["Star"@, "Stars"@]),
    {
        let roles: Vec<&str> = vec!["Star", "Stars"];
        proof {
            assert(roles.deep_view() =~= seq!["Star"@, "Stars"@]);
        }
        self.get_by_roles(roles)
    }

    /// The full role-keyed grouping, in the order the roles were first
    /// seen on the row.
    pub fn peoples_info(&self) -> (r: &Vec<RoleGroup>)
        ensures
            r.deep_view() == self@.peoples,
    {
        &self.peoples_info
    }

    /// Renders the role groups as one string: each group becomes the
    /// rendered group name followed by its people's renderings joined with
    /// `people_separator`, and the group strings are joined with
    /// `separator`.  The result is pinned down up to what the two given
    /// closures return: some list of closure outputs explains it, as
    /// `joined_groups` states.
    pub fn join_peoples<P: Fn(&String) -> String, F: Fn(&PeopleInfo) -> String>(
        &self,
        parse_group_name: P,
        separator: &str,
        people_to_str: F,
        people_separator: &str,
    ) -> (r: String)
        requires
            forall|x: &String| #[trigger] call_requires(parse_group_name, (x,)),
            forall|p: &PeopleInfo| #[trigger] call_requires(people_to_str, (p,)),
        ensures
            exists|gs: Seq<Seq<char>>|
                joined_groups(
                    parse_group_name,
                    people_to_str,
                    people_separator@,
                    separator@,
                    self@.peoples,
                    gs,
                    r@,
                ),
    {
        let groups = &self.peoples_info;
        let ghost gv_all = self@.peoples;
        let mut pre: Vec<String> = Vec::new();
        let mut i: usize = 0;
        while i < groups.len()
            invariant
                0 <= i <= groups.len(),
                gv_all == self@.peoples,
                groups.deep_view() == gv_all,
                pre@.len() == i,
                forall|x: &String| #[trigger] call_requires(parse_group_name, (x,)),
                forall|p: &PeopleInfo| #[trigger] call_requires(people_to_str, (p,)),
                forall|k: int|
                    0 <= k < i ==> rendered_group(
                        parse_group_name,
                        people_to_str,
                        people_separator@,
                        gv_all[k],
                        (#[trigger] pre@[k])@,
                    ),
            decreases groups.len() - i,
        {
            let group = &groups[i];
            proof {
                assert(groups.deep_view()[i as int] == groups@[i as int]@);
                lemma_role_group_view(group);
            }
            let ghost role_g = group.role;
            let name_out = parse_group_name(&group.role);
            let ghost name_out_g = name_out;
            let mut pstrs: Vec<String> = Vec::new();
            let mut j: usize = 0;
            while j < group.people.len()
                invariant
                    0 <= j <= group.people.len(),
                    pstrs@.len() == j,
                    forall|p: &PeopleInfo| #[trigger] call_requires(people_to_str, (p,)),
                    forall|q: int|
                        0 <= q < j ==> call_ensures(
                            people_to_str,
                            (&group.people@[q],),
                            #[trigger] pstrs@[q],
                        ),
                decreases group.people.len() - j,
            {
                let piece = people_to_str(&group.people[j]);
                pstrs.push(piece);
                j = j + 1;
            }
            let joined = join_strings(&pstrs, people_separator);
            let mut group_str = name_out;
            group_str.append(joined.as_str());
            proof {
                assert(views_of_strings(pstrs@) =~= pstrs.deep_view());
                assert(forall|q: int|
                    0 <= q < group.people@.len() ==> (#[trigger] group.people@[q])@
                        == group.people.deep_view()[q]);
                assert(rendered_group_with(
                    parse_group_name,
                    people_to_str,
                    people_separator@,
                    gv_all[i as int],
                    group_str@,
                    role_g,
                    group.people@,
                    name_out_g,
                    pstrs@,
                ));
                assert(rendered_group(
                    parse_group_name,
                    people_to_str,
                    people_separator@,
                    gv_all[i as int],
                    group_str@,
                ));
            }
            pre.push(group_str);
            i = i + 1;
        }
        let r = join_strings(&pre, separator);
        proof {
            assert(forall|k: int|
                0 <= k < pre@.len() ==> (#[trigger] pre.deep_view()[k]) == pre@[k]@);
            assert(pre.deep_view().len() == gv_all.len());
            assert(joined_groups(
                parse_group_name,
                people_to_str,
                people_separator@,
                separator@,
                gv_all,
                pre.deep_view(),
                r@,
            ));
        }
        r
    }

    /// A plain-text rendering of the item: title and years on one line,
    /// then the info line, the rating line, and the summary.
    pub fn to_string(&self) -> (r: String)
        ensures
            r@ == self@.title.text + " "@ + self@.years + "\n- "@ + self@.info + "\n- Rating: "@
                + self@.rating + "\n- "@ + self@.summery,
    {
        let mut r = String::new();
        r.append(self.title.text());
        r.append(" ");
        r.append(self.years.as_str());
        r.append("\n- ");
        r.append(self.info.as_str());
        r.append("\n- Rating: ");
        r.append(self.rating.as_str());
        r.append("\n- ");
        r.append(self.summery.as_str());
        proof {
            assert(r@ =~= self@.title.text + " "@ + self@.years + "\n- "@ + self@.info
                + "\n- Rating: "@ + self@.rating + "\n- "@ + self@.summery);
        }
        r
    }
}

/// The character sequences of a list of strings.
pub open spec fn views_of_strings(s: Seq<String>) -> Seq<Seq<char>> {
    Seq::new(s.len(), |i: int| s[i]@)
}

/// One way `join_peoples` may render a role group, spelled out with the
/// values involved: `role` and `people` are the group's own data, and
/// `name_out` and `pstrs` are outputs the two closures may return for
/// them; `out` is the rendered name followed by the people's renderings
/// joined with `psep`.
pub open spec fn rendered_group_with<P: Fn(&String) -> String, F: Fn(&PeopleInfo) -> String>(
    pgn: P,
    pts: F,
    psep: Seq<char>,
    gv: RoleGroupV,
    out: Seq<char>,
    role: String,
    people: Seq<PeopleInfo>,
    name_out: String,
    pstrs: Seq<String>,
) -> bool {
    &&& role@ == gv.role
    &&& people.len() == gv.people.len()
    &&& (forall|j: int| 0 <= j < people.len() ==> (#[trigger] people[j])@ == gv.people[j])
    &&& call_ensures(pgn, (&role,), name_out)
    &&& pstrs.len() == people.len()
    &&& (forall|j: int|
        0 <= j < people.len() ==> call_ensures(pts, (&people[j],), #[trigger] pstrs[j]))
    &&& out == name_out@ + join_with(views_of_strings(pstrs), psep)
}

/// How one role group may be rendered by `join_peoples`: some outputs of
/// the two closures, on the group's own role string and people, joined
/// with the people separator behind the rendered group name.
pub open spec fn rendered_group<P: Fn(&String) -> String, F: Fn(&PeopleInfo) -> String>(
    pgn: P,
    pts: F,
    psep: Seq<char>,
    gv: RoleGroupV,
    out: Seq<char>,
) -> bool {
    exists|role: String, people: Seq<PeopleInfo>, name_out: String, pstrs: Seq<String>|
        rendered_group_with(pgn, pts, psep, gv, out, role, people, name_out, pstrs)
}

/// What `join_peoples` guarantees of its result: one rendered string per
/// role group, joined with the group separator.
pub open spec fn joined_groups<P: Fn(&String) -> String, F: Fn(&PeopleInfo) -> String>(
    pgn: P,
    pts: F,
    psep: Seq<char>,
    sep: Seq<char>,
    groups: Seq<RoleGroupV>,
    gs: Seq<Seq<char>>,
    out: Seq<char>,
) -> bool {
    &&& gs.len() == groups.len()
    &&& (forall|i: int|
        0 <= i < gs.len() ==> rendered_group(pgn, pts, psep, groups[i], #[trigger] gs[i]))
    &&& out == join_with(gs, sep)
}

/// The ordered results of one title-listing parse.
pub struct TitleSearch {
    pub(crate) items: Vec<TitleSearchItem>,
}

impl View for TitleSearch {
    type V = Seq<TitleItemV>;

    closed spec fn view(&self) -> Seq<TitleItemV> {
        self.items.deep_view()
    }
}

impl TitleSearch {
    /// The items, in page order.
    pub fn items(&self) -> (r: &[TitleSearchItem])
        ensures
            r.deep_view() == self@,
    {
        self.items.as_slice()
    }
}

/// The abstract value of the title-listing strategy's parameters.
pub struct ByTitleV {
    pub start: u16,
    pub count: u8,
}

/// The title-listing strategy: offset `start` (1-based) and page size
/// `count`.
pub struct ByTitle {
    pub(crate) start: u16,
    pub(crate) count: u8,
}

impl View for ByTitle {
    type V = ByTitleV;

    closed spec fn view(&self) -> ByTitleV {
        ByTitleV { start: self.start, count: self.count }
    }
}

/// The request URL of a title-listing search.
pub open spec fn title_uri(base: Seq<char>, query: Seq<char>, start: nat, count: nat) -> Seq<
    char,
> {
    base + "/search/title/?title="@ + query + "&start="@ + dec_rep(start) + "&count="@ + dec_rep(
        count,
    )
}

impl ByTitle {
    /// A strategy for the given offset and page size.
    pub fn new(start: u16, count: u8) -> (r: Self)
        requires
            start >= 1,
            count >= 1,
        ensures
            r@.start == start,
            r@.count == count,
    {
        Self { start, count }
    }

    /// The request URL: the base URL, the search path, the already-encoded
    /// query, and the strategy's `start` and `count` in decimal.
    pub fn get_uri(&self, base_uri: &str, query: &str) -> (r: String)
        ensures
            r@ == title_uri(base_uri@, query@, self@.start as nat, self@.count as nat),
    {
        let mut r = String::new();
        r.append(base_uri);
        r.append("/search/title/?title=");
        r.append(query);
        r.append("&start=");
        let start_dec = u64_to_dec(self.start as u64);
        r.append(start_dec.as_str());
        r.append("&count=");
        let count_dec = u64_to_dec(self.count as u64);
        r.append(count_dec.as_str());
        proof {
            assert(r@ =~= title_uri(base_uri@, query@, self@.start as nat, self@.count as nat));
        }
        r
    }
}

impl Default for ByTitle {
    /// The first page of ten results.
    fn default() -> (r: Self)
        ensures
            r@.start == 1,
            r@.count == 10,
    {
        Self { start: 1, count: 10 }
    }
}

/// What one listing row yields once the document handles are stripped
/// away: each field is `None` when the corresponding element or attribute
/// was missing.
pub struct TitleRowParts {
    pub title: Option<ATag>,
    pub image_url: Option<String>,
    pub years: Option<String>,
    pub info_spans: Option<Vec<String>>,
    pub summery: Option<String>,
    pub rating: Option<String>,
    pub people_texts: Option<Vec<String>>,
    pub people_anchors: Vec<ATag>,
}

/// The abstract value of `TitleRowParts`.
pub struct TitleRowPartsV {
    pub title: Option<AnchorV>,
    pub image_url: Option<Seq<char>>,
    pub years: Option<Seq<char>>,
    pub info_spans: Option<Seq<Seq<char>>>,
    pub summery: Option<Seq<char>>,
    pub rating: Option<Seq<char>>,
    pub people_texts: Option<Seq<Seq<char>>>,
    pub people_anchors: Seq<AnchorV>,
}

impl DeepView for TitleRowParts {
    type V = TitleRowPartsV;

    open spec fn deep_view(&self) -> TitleRowPartsV {
        TitleRowPartsV {
            title: self.title.deep_view(),
            image_url: self.image_url.deep_view(),
            years: self.years.deep_view(),
            info_spans: self.info_spans.deep_view(),
            summery: self.summery.deep_view(),
            rating: self.rating.deep_view(),
            people_texts: self.people_texts.deep_view(),
            people_anchors: self.people_anchors.deep_view(),
        }
    }
}

/// Whether a row has every required element: a title anchor with non-empty
/// text and href, an image source, a year span, and the three text blocks.
/// The rating is not required: it has a fallback.
pub open spec fn title_row_ok(p: TitleRowPartsV) -> bool {
    &&& p.title is Some
    &&& (p.title->Some_0).text.len() > 0
    &&& (p.title->Some_0).href.len() > 0
    &&& p.image_url is Some
    &&& p.years is Some
    &&& p.info_spans is Some
    &&& p.summery is Some
    &&& p.people_texts is Some
}

/// Every span's inner markup, trimmed.
pub open spec fn trim_all(spans: Seq<Seq<char>>) -> Seq<Seq<char>> {
    Seq::new(spans.len(), |k: int| trim_spec(spans[k]))
}

/// The info line: every span's inner markup trimmed, joined with spaces.
pub open spec fn info_of(spans: Seq<Seq<char>>) -> Seq<char> {
    join_with(trim_all(spans), " "@)
}

/// The rating value: the data attribute when the row has one, else the
/// literal sentinel.
pub open spec fn rating_of(r: Option<Seq<char>>) -> Seq<char> {
    match r {
        Some(v) => v,
        None => "No rating."@,
    }
}

/// The item a listing row yields: a record exactly when the row has every
/// required element, assembled as the page conventions dictate.
pub open spec fn build_item_spec(p: TitleRowPartsV) -> Option<TitleItemV> {
    if title_row_ok(p) {
        Some(
            TitleItemV {
                title: p.title->Some_0,
                image_url: p.image_url->Some_0,
                years: p.years->Some_0,
                info: info_of(p.info_spans->Some_0),
                rating: rating_of(p.rating),
                summery: trim_spec(p.summery->Some_0),
                peoples: people_spec(p.people_texts->Some_0, p.people_anchors),
            },
        )
    } else {
        None
    }
}

/// Every item a listing row can yield has non-empty title text and href,
/// and its rating is either the row's data attribute value, verbatim, or
/// exactly the literal sentinel `"No rating."`.
pub proof fn lemma_title_item_shape(p: TitleRowPartsV)
    ensures
        match build_item_spec(p) {
            Some(it) => {
                &&& it.title.text.len() > 0
                &&& it.title.href.len() > 0
                &&& (p.rating is Some ==> it.rating == p.rating->Some_0)
                &&& (p.rating is None ==> it.rating == "No rating."@)
            },
            None => !title_row_ok(p),
        },
{
}

/// Assembles one listing item from a row's plain parts, exactly as
/// `build_item_spec` describes: `Some` precisely when every required
/// element was resolvable and the title's text and href are non-empty.
pub fn build_title_item(parts: TitleRowParts) -> (r: Option<TitleSearchItem>)
    ensures
        r.deep_view() == build_item_spec(parts.deep_view()),
{
    let ghost pv = parts.deep_view();
    let TitleRowParts { title, image_url, years, info_spans, summery, rating, people_texts,
        people_anchors } = parts;
    let title = match title {
        Some(t) => t,
        None => {
            return None;
        },
    };
    if title.text().unicode_len() == 0 || title.link().unicode_len() == 0 {
        return None;
    }
    let image_url = match image_url {
        Some(v) => v,
        None => {
            return None;
        },
    };
    let years = match years {
        Some(v) => v,
        None => {
            return None;
        },
    };
    let info_spans = match info_spans {
        Some(v) => v,
        None => {
            return None;
        },
    };
    let summery = match summery {
        Some(v) => v,
        None => {
            return None;
        },
    };
    let people_texts = match people_texts {
        Some(v) => v,
        None => {
            return None;
        },
    };
    proof {
        assert(title_row_ok(pv));
    }
    let ghost spansv = info_spans.deep_view();
    let mut trimmed: Vec<String> = Vec::new();
    let mut i: usize = 0;
    proof {
        assert(trimmed.deep_view() =~= trim_all(spansv).take(0));
    }
    while i < info_spans.len()
        invariant
            0 <= i <= info_spans.len(),
            spansv == info_spans.deep_view(),
            trimmed.deep_view() == trim_all(spansv).take(i as int),
        decreases info_spans.len() - i,
    {
        let t = trim(info_spans[i].as_str());
        proof {
            assert(spansv[i as int] == info_spans@[i as int]@);
            assert(t@ == trim_all(spansv)[i as int]);
        }
        let ghost pre = trimmed.deep_view();
        trimmed.push(t);
        proof {
            assert(trimmed.deep_view() =~= pre.push(t@));
            assert(pre.push(t@) =~= trim_all(spansv).take(i + 1));
        }
        i = i + 1;
    }
    proof {
        assert(trim_all(spansv).take(spansv.len() as int) =~= trim_all(spansv));
    }
    let info = join_strings(&trimmed, " ");
    let rating = match rating {
        Some(v) => v,
        None => "No rating.".to_owned(),
    };
    let summery = trim(summery.as_str());
    let peoples_info = parse_people(&people_texts, &people_anchors);
    let item = TitleSearchItem { title, image_url, years, info, rating, summery, peoples_info };
    proof {
        assert(item@ == build_item_spec(pv)->Some_0);
    }
    Some(item)
}

impl ByTitle {
    /// Parses one people-credit block element into its role-keyed
    /// grouping.  Whatever the block held: no bucket in the result is
    /// empty, and every person's role is the bucket's own label.
    pub fn parse_people_tag(ele: scraper::ElementRef<'_>) -> (r: Vec<RoleGroup>)
        ensures
            forall|i: int|
                0 <= i < r.deep_view().len() ==> (#[trigger] r.deep_view()[i]).people.len() > 0,
            forall|i: int, j: int|
                0 <= i < r.deep_view().len() && 0 <= j < r.deep_view()[i].people.len() ==> (
                #[trigger] r.deep_view()[i].people[j]).role == r.deep_view()[i].role,
    {
        let a_sel = match get_selector("a") {
            Ok(s) => s,
            Err(_) => {
                let r: Vec<RoleGroup> = Vec::new();
                proof {
                    assert(r.deep_view().len() == 0);
                }
                return r;
            },
        };
        let texts = elem_texts(&ele);
        let anchors = collect_a_tags(&ele, &a_sel);
        let r = parse_people(&texts, &anchors);
        proof {
            lemma_people_linked(texts.deep_view(), anchors.deep_view());
        }
        r
    }

    /// Parses a title-listing page.  Every emitted item came from a row
    /// with all required elements, so its title text and href are
    /// non-empty; rows without them are skipped silently.
    pub fn parse_result(&self, html: scraper::Html) -> (r: TitleSearch)
        ensures
            forall|i: int|
                0 <= i < r@.len() ==> (#[trigger] r@[i]).title.text.len() > 0
                    && r@[i].title.href.len() > 0,
    {
        let rows_sel = get_selector("div.lister-list>div");
        let contents_sel = get_selector("div.lister-item-content");
        let img_sel = get_selector("div.lister-item-image>a>img");
        let name_sel = get_selector("h3.lister-item-header>a");
        let year_sel = get_selector("h3.lister-item-header>span.lister-item-year");
        let p_sel = get_selector("p");
        let span_sel = get_selector("span");
        let rating_sel = get_selector("div.ratings-bar>div.ratings-imdb-rating");
        let a_sel = get_selector("a");
        match (rows_sel, contents_sel, img_sel, name_sel, year_sel, p_sel, span_sel, rating_sel,
            a_sel) {
            (
                Ok(rows_sel),
                Ok(contents_sel),
                Ok(img_sel),
                Ok(name_sel),
                Ok(year_sel),
                Ok(p_sel),
                Ok(span_sel),
                Ok(rating_sel),
                Ok(a_sel),
            ) => {
                let rows = doc_select_all(&html, &rows_sel);
                let mut items: Vec<TitleSearchItem> = Vec::new();
                let mut i: usize = 0;
                while i < rows.len()
                    invariant
                        forall|k: int|
                            0 <= k < items.deep_view().len() ==> (#[trigger] items.deep_view()[k]).title.text.len()
                                > 0 && items.deep_view()[k].title.href.len() > 0,
                    decreases rows.len() - i,
                {
                    match gather_title_row(
                        &rows[i],
                        &contents_sel,
                        &img_sel,
                        &name_sel,
                        &year_sel,
                        &p_sel,
                        &span_sel,
                        &rating_sel,
                        &a_sel,
                    ) {
                        Some(parts) => {
                            match build_title_item(parts) {
                                Some(item) => {
                                    let ghost pre = items.deep_view();
                                    items.push(item);
                                    proof {
                                        assert(items.deep_view() =~= pre.push(item@));
                                    }
                                },
                                None => (),
                            }
                        },
                        None => (),
                    }
                    i = i + 1;
                }
                TitleSearch { items }
            },
            _ => TitleSearch { items: Vec::new() },
        }
    }
}

/// Strips one listing row down to plain values.  `None` means the row has
/// no item-content block at all (an ad or separator); inside the parts,
/// each `None` field records a missing element or attribute.
fn gather_title_row(
    row: &scraper::ElementRef<'_>,
    contents_sel: &scraper::Selector,
    img_sel: &scraper::Selector,
    name_sel: &scraper::Selector,
    year_sel: &scraper::Selector,
    p_sel: &scraper::Selector,
    span_sel: &scraper::Selector,
    rating_sel: &scraper::Selector,
    a_sel: &scraper::Selector,
) -> Option<TitleRowParts> {
    let contents = match elem_select_first(row, contents_sel) {
        Some(c) => c,
        None => {
            return None;
        },
    };
    let title = match elem_select_first(&contents, name_sel) {
        Some(e) => parse_a_tag(&e),
        None => None,
    };
    let image_url = match elem_select_first(row, img_sel) {
        Some(img) => elem_attr(&img, "src"),
        None => None,
    };
    let years = match elem_select_first(&contents, year_sel) {
        Some(e) => Some(elem_inner_html(&e)),
        None => None,
    };
    let rating = match elem_select_first(&contents, rating_sel) {
        Some(e) => elem_attr(&e, "data-value"),
        None => None,
    };
    let ps = elem_select_all(&contents, p_sel);
    let info_spans = if ps.len() >= 1 {
        let spans = elem_select_all(&ps[0], span_sel);
        let mut hs: Vec<String> = Vec::new();
        let mut k: usize = 0;
        while k < spans.len()
            decreases spans.len() - k,
        {
            hs.push(elem_inner_html(&spans[k]));
            k = k + 1;
        }
        Some(hs)
    } else {
        None
    };
    let summery = if ps.len() >= 2 {
        Some(elem_inner_html(&ps[1]))
    } else {
        None
    };
    let (people_texts, people_anchors) = if ps.len() >= 3 {
        (Some(elem_texts(&ps[2])), collect_a_tags(&ps[2], a_sel))
    } else {
        (None, Vec::new())
    };
    Some(
        TitleRowParts {
            title,
            image_url,
            years,
            info_spans,
            summery,
            rating,
            people_texts,
            people_anchors,
        },
    )
}

} // verus!
