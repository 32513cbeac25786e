//! The people-credit parser: recovers a role-keyed grouping of people from
//! the interleaved text tokens and anchors of a credit block.
//!
//! The block's markup carries role labels (`Director:`), separators (`,`,
//! `|`) and display names as sibling nodes with no per-name wrapper, so the
//! parse is a two-pass algorithm: a linear scan assigns names to the most
//! recent role label, a separate pass collects every anchor into a name-to-
//! href mapping, and the two are joined by exact name equality.  A name with
//! no matching anchor is dropped; a role whose bucket ends up empty is
//! dropped as well, so the result never holds a vacuous role entry.

use vstd::prelude::*;
use vstd::string::StrSliceExecFns;
use crate::helper_tags::{ATag, AnchorV};
use crate::text::{is_role_token, is_sep_token, token_is_role, token_is_sep, trim, trim_spec,
    str_eq, take_before_char, before_char};

verus! {

/// The abstract value of one credited person.
pub struct PersonV {
    pub name: Seq<char>,
    pub link: Seq<char>,
    pub role: Seq<char>,
}

/// The abstract value of one role bucket: a role label and the people
/// credited under it, in page order.
pub struct RoleGroupV {
    pub role: Seq<char>,
    pub people: Seq<PersonV>,
}

/// One credited person: display name, profile link, and the role label the
/// person was listed under, all taken verbatim from the page.
pub struct PeopleInfo {
    pub(crate) name: String,
    pub(crate) link: String,
    pub(crate) role: String,
}

impl View for PeopleInfo {
    type V = PersonV;

    closed spec fn view(&self) -> PersonV {
        PersonV { name: self.name@, link: self.link@, role: self.role@ }
    }
}

impl DeepView for PeopleInfo {
    type V = PersonV;

    open spec fn deep_view(&self) -> PersonV {
        self.view()
    }
}

impl PeopleInfo {
    /// The person's display name.
    pub fn name(&self) -> (r: &str)
        ensures
            r@ == self@.name,
    {
        self.name.as_str()
    }

    /// The person's profile link.
    pub fn link(&self) -> (r: &str)
        ensures
            r@ == self@.link,
    {
        self.link.as_str()
    }

    /// The role label the person was credited under.
    pub fn role(&self) -> (r: &str)
        ensures
            r@ == self@.role,
    {
        self.role.as_str()
    }
}

impl Clone for PeopleInfo {
    fn clone(&self) -> (r: Self)
        ensures
            r@ == self@,
    {
        PeopleInfo { name: self.name.clone(), link: self.link.clone(), role: self.role.clone() }
    }
}

/// One role bucket: the label and the people credited under it.
pub struct RoleGroup {
    pub(crate) role: String,
    pub(crate) people: Vec<PeopleInfo>,
}

impl View for RoleGroup {
    type V = RoleGroupV;

    closed spec fn view(&self) -> RoleGroupV {
        RoleGroupV { role: self.role@, people: self.people.deep_view() }
    }
}

impl DeepView for RoleGroup {
    type V = RoleGroupV;

    open spec fn deep_view(&self) -> RoleGroupV {
        self.view()
    }
}

impl RoleGroup {
    /// The role label, as it appears on the page, without its colon.
    pub fn role(&self) -> (r: &str)
        ensures
            r@ == self@.role,
    {
        self.role.as_str()
    }

    /// The people credited under this role, in page order.
    pub fn people(&self) -> (r: &Vec<PeopleInfo>)
        ensures
            r.deep_view() == self@.people,
    {
        &self.people
    }
}

/// The view of a role group, spelled out over its fields, for proofs in
/// the crate's other modules.
pub(crate) proof fn lemma_role_group_view(g: &RoleGroup)
    ensures
        g@.role == g.role@,
        g@.people == g.people.deep_view(),
{
}

// ---------------------------------------------------------------------------
// The mathematical model of the parse.
// ---------------------------------------------------------------------------
/// The text nodes of the block after trimming, with empty strings dropped.
pub open spec fn tokens_of(texts: Seq<Seq<char>>) -> Seq<Seq<char>>
    decreases texts.len(),
{
    if texts.len() == 0 {
        Seq::empty()
    } else {
        let rest = tokens_of(texts.drop_last());
        let t = trim_spec(texts.last());
        if t.len() == 0 {
            rest
        } else {
            rest.push(t)
        }
    }
}

/// The index of the first bucket with the given role, or `acc.len()` when
/// there is none.
pub open spec fn find_key(acc: Seq<(Seq<char>, Seq<Seq<char>>)>, key: Seq<char>) -> int
    decreases acc.len(),
{
    if acc.len() == 0 {
        0
    } else if acc[0].0 == key {
        0
    } else {
        1 + find_key(acc.skip(1), key)
    }
}

pub open spec fn has_key(acc: Seq<(Seq<char>, Seq<Seq<char>>)>, key: Seq<char>) -> bool {
    find_key(acc, key) < acc.len()
}

/// Opens a fresh, empty bucket for `role`: an existing bucket is emptied in
/// place, a new one is appended.
pub open spec fn reset_bucket(acc: Seq<(Seq<char>, Seq<Seq<char>>)>, role: Seq<char>) -> Seq<
    (Seq<char>, Seq<Seq<char>>),
> {
    if has_key(acc, role) {
        acc.update(find_key(acc, role), (role, Seq::empty()))
    } else {
        acc.push((role, Seq::empty()))
    }
}

/// Appends the display name `t` to the bucket of `cur`, opening that bucket
/// if it does not exist yet.
pub open spec fn add_name(
    acc: Seq<(Seq<char>, Seq<Seq<char>>)>,
    cur: Seq<char>,
    t: Seq<char>,
) -> Seq<(Seq<char>, Seq<Seq<char>>)> {
    if has_key(acc, cur) {
        let i = find_key(acc, cur);
        acc.update(i, (cur, acc[i].1.push(t)))
    } else {
        acc.push((cur, seq![t]))
    }
}

/// The linear scan over the block's tokens: a token ending in `:` opens a
/// new bucket and becomes the current role, a standalone separator is
/// discarded, and any other token is a display name filed under the current
/// role.
pub open spec fn roles_scan(
    toks: Seq<Seq<char>>,
    acc: Seq<(Seq<char>, Seq<Seq<char>>)>,
    cur: Seq<char>,
) -> Seq<(Seq<char>, Seq<Seq<char>>)>
    decreases toks.len(),
{
    if toks.len() == 0 {
        acc
    } else {
        let t = toks[0];
        if is_role_token(t) {
            let role = before_char(t, ':');
            roles_scan(toks.skip(1), reset_bucket(acc, role), role)
        } else if is_sep_token(t) {
            roles_scan(toks.skip(1), acc, cur)
        } else {
            roles_scan(toks.skip(1), add_name(acc, cur, t), cur)
        }
    }
}

/// The name-to-href mapping collected from the block's anchors; a later
/// anchor with the same display text overrides an earlier one.
pub open spec fn link_map_of(anchors: Seq<AnchorV>) -> Map<Seq<char>, Seq<char>>
    decreases anchors.len(),
{
    if anchors.len() == 0 {
        Map::empty()
    } else {
        link_map_of(anchors.drop_last()).insert(anchors.last().text, anchors.last().href)
    }
}

/// The people of one bucket after the join: each name that the anchor map
/// knows becomes a full person record; the others are dropped.
pub open spec fn bucket_people(
    names: Seq<Seq<char>>,
    lm: Map<Seq<char>, Seq<char>>,
    role: Seq<char>,
) -> Seq<PersonV>
    decreases names.len(),
{
    if names.len() == 0 {
        Seq::empty()
    } else {
        let rest = bucket_people(names.drop_last(), lm, role);
        if lm.contains_key(names.last()) {
            rest.push(PersonV { name: names.last(), link: lm[names.last()], role: role })
        } else {
            rest
        }
    }
}

/// The final grouping: every bucket is joined against the anchor map, and a
/// bucket left without people is dropped.
pub open spec fn groups_join(
    acc: Seq<(Seq<char>, Seq<Seq<char>>)>,
    lm: Map<Seq<char>, Seq<char>>,
) -> Seq<RoleGroupV>
    decreases acc.len(),
{
    if acc.len() == 0 {
        Seq::empty()
    } else {
        let init = groups_join(acc.drop_last(), lm);
        let ppl = bucket_people(acc.last().1, lm, acc.last().0);
        if ppl.len() == 0 {
            init
        } else {
            init.push(RoleGroupV { role: acc.last().0, people: ppl })
        }
    }
}

/// What the people-credit parse returns, as a function of the block's text
/// nodes and anchors alone.
pub open spec fn people_spec(texts: Seq<Seq<char>>, anchors: Seq<AnchorV>) -> Seq<RoleGroupV> {
    groups_join(
        roles_scan(tokens_of(texts), Seq::empty(), Seq::empty()),
        link_map_of(anchors),
    )
}

/// The bucket of the first group carrying `role`, or empty when none does.
pub open spec fn role_lookup(groups: Seq<RoleGroupV>, role: Seq<char>) -> Seq<PersonV>
    decreases groups.len(),
{
    if groups.len() == 0 {
        Seq::empty()
    } else if groups[0].role == role {
        groups[0].people
    } else {
        role_lookup(groups.skip(1), role)
    }
}

// ---------------------------------------------------------------------------
// Views of the executable accumulators.
// ---------------------------------------------------------------------------
/// The abstract value of the role-to-names accumulator.
pub open spec fn rn_view(s: Seq<(String, Vec<String>)>) -> Seq<(Seq<char>, Seq<Seq<char>>)> {
    s.map_values(|p: (String, Vec<String>)| (p.0.view(), p.1.deep_view()))
}

/// The abstract value of the collected anchor pairs.
pub open spec fn pairs_view(s: Seq<(String, String)>) -> Seq<(Seq<char>, Seq<char>)> {
    s.map_values(|p: (String, String)| (p.0.view(), p.1.view()))
}

/// The mapping that an ordered list of pairs stands for: a later pair with
/// the same key overrides an earlier one.
pub open spec fn assoc_map(s: Seq<(Seq<char>, Seq<char>)>) -> Map<Seq<char>, Seq<char>>
    decreases s.len(),
{
    if s.len() == 0 {
        Map::empty()
    } else {
        assoc_map(s.drop_last()).insert(s.last().0, s.last().1)
    }
}

proof fn lemma_find_key_at(s: Seq<(Seq<char>, Seq<Seq<char>>)>, key: Seq<char>, i: int)
    requires
        0 <= i <= s.len(),
        forall|t: int| 0 <= t < i ==> (#[trigger] s[t]).0 != key,
        i == s.len() || s[i].0 == key,
    ensures
        find_key(s, key) == i,
    decreases i,
{
    if s.len() == 0 {
    } else if i == 0 {
    } else {
        lemma_find_key_at(s.skip(1), key, i - 1);
    }
}

proof fn lemma_find_key_bounds(s: Seq<(Seq<char>, Seq<Seq<char>>)>, key: Seq<char>)
    ensures
        0 <= find_key(s, key) <= s.len(),
    decreases s.len(),
{
    if s.len() == 0 {
    } else if s[0].0 == key {
    } else {
        lemma_find_key_bounds(s.skip(1), key);
    }
}

proof fn lemma_find_key_found(s: Seq<(Seq<char>, Seq<Seq<char>>)>, key: Seq<char>)
    requires
        find_key(s, key) < s.len(),
    ensures
        s[find_key(s, key)].0 == key,
    decreases s.len(),
{
    if s.len() == 0 {
    } else if s[0].0 == key {
    } else {
        let i = find_key(s.skip(1), key);
        lemma_find_key_bounds(s.skip(1), key);
        assert(find_key(s, key) == 1 + i);
        lemma_find_key_found(s.skip(1), key);
        assert(s.skip(1)[i] == s[1 + i]);
    }
}

proof fn lemma_assoc_agree(s: Seq<(Seq<char>, Seq<char>)>, name: Seq<char>, j: int)
    requires
        0 <= j <= s.len(),
        forall|k: int| j <= k < s.len() ==> (#[trigger] s[k]).0 != name,
    ensures
        assoc_map(s).contains_key(name) == assoc_map(s.take(j)).contains_key(name),
        assoc_map(s).contains_key(name) ==> assoc_map(s)[name] == assoc_map(s.take(j))[name],
    decreases s.len() - j,
{
    if j == s.len() {
        assert(s.take(j) =~= s);
    } else {
        lemma_assoc_agree(s, name, j + 1);
        assert(s.take(j + 1).drop_last() =~= s.take(j));
        assert(s.take(j + 1).last() == s[j]);
    }
}

// ---------------------------------------------------------------------------
// The executable passes.
// ---------------------------------------------------------------------------
/// Trims every text node and drops the empty ones, as `tokens_of` describes.
fn tokenize(texts: &Vec<String>) -> (r: Vec<String>)
    ensures
        r.deep_view() == tokens_of(texts.deep_view()),
{
    let mut toks: Vec<String> = Vec::new();
    let mut i: usize = 0;
    while i < texts.len()
        invariant
            0 <= i <= texts.len(),
            toks.deep_view() == tokens_of(texts.deep_view().take(i as int)),
        decreases texts.len() - i,
    {
        let t = trim(texts[i].as_str());
        proof {
            assert(texts.deep_view().take(i + 1).drop_last() =~= texts.deep_view().take(i as int));
            assert(texts.deep_view().take(i + 1).last() == texts.deep_view()[i as int]);
            assert(texts.deep_view()[i as int] == texts[i as int]@);
        }
        if t.as_str().unicode_len() != 0 {
            toks.push(t);
            proof {
                assert(toks.deep_view() =~= tokens_of(texts.deep_view().take(i + 1)));
            }
        } else {
            proof {
                assert(toks.deep_view() =~= tokens_of(texts.deep_view().take(i + 1)));
            }
        }
        i = i + 1;
    }
    proof {
        assert(texts.deep_view().take(texts.len() as int) =~= texts.deep_view());
    }
    toks
}

/// The index of the bucket for `key`, or `acc.len()` when there is none.
fn find_role(acc: &Vec<(String, Vec<String>)>, key: &str) -> (r: usize)
    ensures
        r as int == find_key(rn_view(acc@), key@),
        r <= acc.len(),
{
    let mut k: usize = 0;
    while k < acc.len()
        invariant
            0 <= k <= acc.len(),
            forall|t: int| 0 <= t < k ==> (#[trigger] rn_view(acc@)[t]).0 != key@,
        decreases acc.len() - k,
    {
        if str_eq(acc[k].0.as_str(), key) {
            proof {
                lemma_find_key_at(rn_view(acc@), key@, k as int);
            }
            return k;
        }
        proof {
            assert(rn_view(acc@)[k as int].0 == acc@[k as int].0@);
        }
        k = k + 1;
    }
    proof {
        lemma_find_key_at(rn_view(acc@), key@, acc@.len() as int);
    }
    k
}

/// The first scan: files the tokens into ordered role buckets of raw
/// display names, as `roles_scan` describes.
fn scan_roles(toks: &Vec<String>) -> (r: Vec<(String, Vec<String>)>)
    ensures
        rn_view(r@) == roles_scan(toks.deep_view(), Seq::empty(), Seq::empty()),
{
    let mut acc: Vec<(String, Vec<String>)> = Vec::new();
    let mut cur: String = String::new();
    let mut j: usize = 0;
    proof {
        assert(rn_view(acc@) =~= Seq::<(Seq<char>, Seq<Seq<char>>)>::empty());
        assert(toks.deep_view().skip(0) =~= toks.deep_view());
    }
    while j < toks.len()
        invariant
            0 <= j <= toks.len(),
            roles_scan(toks.deep_view().skip(j as int), rn_view(acc@), cur@) == roles_scan(
                toks.deep_view(),
                Seq::empty(),
                Seq::empty(),
            ),
        decreases toks.len() - j,
    {
        let ghost pre_rest = toks.deep_view().skip(j as int);
        let ghost pre_acc = rn_view(acc@);
        let ghost pre_cur = cur@;
        proof {
            assert(pre_rest[0] == toks.deep_view()[j as int]);
            assert(toks.deep_view()[j as int] == toks[j as int]@);
            assert(pre_rest.skip(1) =~= toks.deep_view().skip(j + 1));
        }
        let t = &toks[j];
        if token_is_role(t.as_str()) {
            let role = take_before_char(t.as_str(), ':');
            let k = find_role(&acc, role.as_str());
            if k < acc.len() {
                let e = &mut acc[k];
                e.0 = role.clone();
                e.1 = Vec::new();
                proof {
                    assert(rn_view(acc@) =~~= pre_acc.update(
                        find_key(pre_acc, role@),
                        (role@, Seq::empty()),
                    ));
                }
            } else {
                acc.push((role.clone(), Vec::new()));
                proof {
                    assert(rn_view(acc@) =~~= pre_acc.push((role@, Seq::empty())));
                }
            }
            cur = role;
            proof {
                assert(rn_view(acc@) == reset_bucket(pre_acc, before_char(pre_rest[0], ':')));
            }
        } else if token_is_sep(t.as_str()) {
        } else {
            let name = t.clone();
            let k = find_role(&acc, cur.as_str());
            if k < acc.len() {
                proof {
                    lemma_find_key_found(rn_view(acc@), cur@);
                }
                let e = &mut acc[k];
                e.1.push(name);
                proof {
                    assert(rn_view(acc@) =~~= pre_acc.update(
                        find_key(pre_acc, cur@),
                        (cur@, pre_acc[find_key(pre_acc, cur@)].1.push(pre_rest[0])),
                    ));
                }
            } else {
                acc.push((cur.clone(), vec![name]));
                proof {
                    assert(rn_view(acc@) =~~= pre_acc.push((cur@, seq![pre_rest[0]])));
                }
            }
            proof {
                assert(rn_view(acc@) == add_name(pre_acc, pre_cur, pre_rest[0]));
            }
        }
        proof {
            assert(roles_scan(toks.deep_view().skip(j + 1), rn_view(acc@), cur@) == roles_scan(
                pre_rest,
                pre_acc,
                pre_cur,
            ));
        }
        j = j + 1;
    }
    proof {
        assert(toks.deep_view().skip(toks.len() as int) =~= Seq::<Seq<char>>::empty());
    }
    acc
}

/// The second pass: collects every anchor's text and href, in page order,
/// so that `assoc_map` of the result is `link_map_of` the anchors.
fn collect_links(anchors: &Vec<ATag>) -> (r: Vec<(String, String)>)
    ensures
        assoc_map(pairs_view(r@)) == link_map_of(anchors.deep_view()),
{
    let mut lm: Vec<(String, String)> = Vec::new();
    let mut i: usize = 0;
    proof {
        assert(pairs_view(lm@) =~= Seq::<(Seq<char>, Seq<char>)>::empty());
    }
    while i < anchors.len()
        invariant
            0 <= i <= anchors.len(),
            assoc_map(pairs_view(lm@)) == link_map_of(anchors.deep_view().take(i as int)),
        decreases anchors.len() - i,
    {
        let ghost pre = pairs_view(lm@);
        let a = &anchors[i];
        lm.push((a.text().to_owned(), a.link().to_owned()));
        proof {
            assert(anchors.deep_view()[i as int] == anchors[i as int]@);
            assert(pairs_view(lm@).drop_last() =~= pre);
            assert(anchors.deep_view().take(i + 1).drop_last() =~= anchors.deep_view().take(
                i as int,
            ));
            assert(anchors.deep_view().take(i + 1).last() == anchors.deep_view()[i as int]);
        }
        i = i + 1;
    }
    proof {
        assert(anchors.deep_view().take(anchors.len() as int) =~= anchors.deep_view());
    }
    lm
}

/// Looks a display name up in the collected anchor pairs, honouring the
/// later-anchor-wins rule of `assoc_map`.
fn lookup_link(lm: &Vec<(String, String)>, name: &str) -> (r: Option<String>)
    ensures
        match r {
            Some(v) => assoc_map(pairs_view(lm@)).contains_key(name@) && v@ == assoc_map(
                pairs_view(lm@),
            )[name@],
            None => !assoc_map(pairs_view(lm@)).contains_key(name@),
        },
{
    let mut j: usize = lm.len();
    while j > 0
        invariant
            0 <= j <= lm.len(),
            forall|k: int| j <= k < lm.len() ==> (#[trigger] pairs_view(lm@)[k]).0 != name@,
        decreases j,
    {
        if str_eq(lm[j - 1].0.as_str(), name) {
            proof {
                lemma_assoc_agree(pairs_view(lm@), name@, j as int);
                assert(pairs_view(lm@).take(j as int).drop_last() =~= pairs_view(lm@).take(
                    j - 1,
                ));
                assert(pairs_view(lm@).take(j as int).last() == pairs_view(lm@)[j - 1]);
            }
            return Some(lm[j - 1].1.clone());
        }
        proof {
            assert(pairs_view(lm@)[j - 1].0 == lm@[j - 1].0@);
        }
        j = j - 1;
    }
    proof {
        lemma_assoc_agree(pairs_view(lm@), name@, 0);
        assert(pairs_view(lm@).take(0) =~= Seq::<(Seq<char>, Seq<char>)>::empty());
    }
    None
}

/// Parses a people-credit block, given its text nodes (in document order,
/// untrimmed) and its anchors (in document order).  The result is exactly
/// `people_spec` of the two inputs: the parse is a pure function of the
/// block's content.
pub fn parse_people(texts: &Vec<String>, anchors: &Vec<ATag>) -> (r: Vec<RoleGroup>)
    ensures
        r.deep_view() == people_spec(texts.deep_view(), anchors.deep_view()),
{
    let toks = tokenize(texts);
    let acc = scan_roles(&toks);
    let lm = collect_links(anchors);
    let ghost accv = rn_view(acc@);
    let ghost lmv = assoc_map(pairs_view(lm@));
    let mut out: Vec<RoleGroup> = Vec::new();
    let mut g: usize = 0;
    proof {
        assert(out.deep_view() =~= groups_join(accv.take(0), lmv));
    }
    while g < acc.len()
        invariant
            0 <= g <= acc.len(),
            accv == rn_view(acc@),
            lmv == assoc_map(pairs_view(lm@)),
            out.deep_view() == groups_join(accv.take(g as int), lmv),
        decreases acc.len() - g,
    {
        let ghost names = accv[g as int].1;
        let ghost role_v = accv[g as int].0;
        let mut ppl: Vec<PeopleInfo> = Vec::new();
        let mut q: usize = 0;
        proof {
            assert(ppl.deep_view() =~= bucket_people(names.take(0), lmv, role_v));
        }
        while q < acc[g].1.len()
            invariant
                0 <= q <= acc[g as int].1.len(),
                0 <= g < acc.len(),
                accv == rn_view(acc@),
                lmv == assoc_map(pairs_view(lm@)),
                names == accv[g as int].1,
                role_v == accv[g as int].0,
                ppl.deep_view() == bucket_people(names.take(q as int), lmv, role_v),
            decreases acc[g as int].1.len() - q,
        {
            proof {
                assert(names[q as int] == acc@[g as int].1.deep_view()[q as int]);
                assert(acc@[g as int].1.deep_view()[q as int] == acc@[g as int].1@[q as int]@);
                assert(names.take(q + 1).drop_last() =~= names.take(q as int));
                assert(names.take(q + 1).last() == names[q as int]);
            }
            match lookup_link(&lm, acc[g].1[q].as_str()) {
                Some(href) => {
                    let p = PeopleInfo {
                        name: acc[g].1[q].clone(),
                        link: href,
                        role: acc[g].0.clone(),
                    };
                    proof {
                        assert(acc@[g as int].0@ == role_v);
                    }
                    ppl.push(p);
                    proof {
                        assert(ppl.deep_view() =~= bucket_people(names.take(q + 1), lmv, role_v));
                    }
                },
                None => {
                    proof {
                        assert(ppl.deep_view() =~= bucket_people(names.take(q + 1), lmv, role_v));
                    }
                },
            }
            q = q + 1;
        }
        proof {
            assert(names.take(names.len() as int) =~= names);
            assert(accv.take(g + 1).drop_last() =~= accv.take(g as int));
            assert(accv.take(g + 1).last() == accv[g as int]);
        }
        if ppl.len() > 0 {
            let grp = RoleGroup { role: acc[g].0.clone(), people: ppl };
            out.push(grp);
            proof {
                assert(out.deep_view() =~= groups_join(accv.take(g + 1), lmv));
            }
        } else {
            proof {
                assert(out.deep_view() =~= groups_join(accv.take(g + 1), lmv));
            }
        }
        g = g + 1;
    }
    proof {
        assert(accv.take(acc@.len() as int) =~= accv);
    }
    out
}

proof fn lemma_bucket_props(names: Seq<Seq<char>>, lm: Map<Seq<char>, Seq<char>>, role: Seq<char>)
    ensures
        forall|j: int|
            0 <= j < bucket_people(names, lm, role).len() ==> {
                let p = #[trigger] bucket_people(names, lm, role)[j];
                p.role == role && lm.contains_key(p.name) && p.link == lm[p.name]
            },
    decreases names.len(),
{
    if names.len() == 0 {
    } else {
        lemma_bucket_props(names.drop_last(), lm, role);
        let rest = bucket_people(names.drop_last(), lm, role);
        let whole = bucket_people(names, lm, role);
        assert forall|j: int| 0 <= j < whole.len() implies {
            let p = #[trigger] whole[j];
            p.role == role && lm.contains_key(p.name) && p.link == lm[p.name]
        } by {
            if lm.contains_key(names.last()) {
                if j < rest.len() {
                    assert(whole[j] == rest[j]);
                } else {
                    assert(whole[j] == (PersonV {
                        name: names.last(),
                        link: lm[names.last()],
                        role: role,
                    }));
                }
            } else {
                assert(whole[j] == rest[j]);
            }
        }
    }
}

proof fn lemma_link_map_member(anchors: Seq<AnchorV>, key: Seq<char>)
    requires
        link_map_of(anchors).contains_key(key),
    ensures
        exists|k: int|
            0 <= k < anchors.len() && (#[trigger] anchors[k]).text == key && anchors[k].href
                == link_map_of(anchors)[key],
    decreases anchors.len(),
{
    if anchors.len() == 0 {
    } else {
        if anchors.last().text == key {
            assert((anchors[anchors.len() - 1]).text == key && anchors[anchors.len() - 1].href
                == link_map_of(anchors)[key]);
        } else {
            lemma_link_map_member(anchors.drop_last(), key);
            let k = choose|k: int|
                0 <= k < anchors.drop_last().len() && (#[trigger] anchors.drop_last()[k]).text
                    == key && anchors.drop_last()[k].href == link_map_of(anchors.drop_last())[key];
            assert(anchors.drop_last()[k] == anchors[k]);
            assert((anchors[k]).text == key && anchors[k].href == link_map_of(anchors)[key]);
        }
    }
}

proof fn lemma_groups_props(acc: Seq<(Seq<char>, Seq<Seq<char>>)>, lm: Map<Seq<char>, Seq<char>>)
    ensures
        forall|i: int|
            0 <= i < groups_join(acc, lm).len() ==> (#[trigger] groups_join(acc, lm)[i]).people.len()
                > 0,
        forall|i: int, j: int|
            0 <= i < groups_join(acc, lm).len() && 0 <= j < groups_join(acc, lm)[i].people.len()
                ==> {
                let g = groups_join(acc, lm)[i];
                let p = #[trigger] groups_join(acc, lm)[i].people[j];
                p.role == g.role && lm.contains_key(p.name) && p.link == lm[p.name]
            },
    decreases acc.len(),
{
    if acc.len() == 0 {
    } else {
        lemma_groups_props(acc.drop_last(), lm);
        lemma_bucket_props(acc.last().1, lm, acc.last().0);
        let init = groups_join(acc.drop_last(), lm);
        let whole = groups_join(acc, lm);
        let ppl = bucket_people(acc.last().1, lm, acc.last().0);
        assert forall|i: int| 0 <= i < whole.len() implies (#[trigger] whole[i]).people.len() > 0 by {
            if i < init.len() {
                assert(whole[i] == init[i]);
            }
        }
        assert forall|i: int, j: int|
            0 <= i < whole.len() && 0 <= j < whole[i].people.len() implies {
            let g = whole[i];
            let p = #[trigger] whole[i].people[j];
            p.role == g.role && lm.contains_key(p.name) && p.link == lm[p.name]
        } by {
            if i < init.len() {
                assert(whole[i] == init[i]);
                assert(init[i].people[j] == whole[i].people[j]);
            } else {
                assert(whole[i] == (RoleGroupV { role: acc.last().0, people: ppl }));
            }
        }
    }
}

/// Re-parsing an identical people-credit block yields an identical grouping:
/// the parse is a pure function of the block's text nodes and anchors, with
/// no dependence on anything outside them.
pub proof fn lemma_people_parse_repeatable(
    texts1: Seq<Seq<char>>,
    anchors1: Seq<AnchorV>,
    texts2: Seq<Seq<char>>,
    anchors2: Seq<AnchorV>,
)
    requires
        texts1 == texts2,
        anchors1 == anchors2,
    ensures
        people_spec(texts1, anchors1) == people_spec(texts2, anchors2),
{
}

/// Name/link correlation: every person in every bucket of a parsed people
/// block carries the display text and href of one of the block's anchors,
/// under the bucket's own role label; and no bucket is empty.  So a display
/// name with no matching anchor is absent from every role bucket.
pub proof fn lemma_people_linked(texts: Seq<Seq<char>>, anchors: Seq<AnchorV>)
    ensures
        forall|i: int|
            0 <= i < people_spec(texts, anchors).len() ==> (#[trigger] people_spec(
                texts,
                anchors,
            )[i]).people.len() > 0,
        forall|i: int, j: int|
            0 <= i < people_spec(texts, anchors).len() && 0 <= j < people_spec(
                texts,
                anchors,
            )[i].people.len() ==> {
                let g = people_spec(texts, anchors)[i];
                let p = #[trigger] people_spec(texts, anchors)[i].people[j];
                p.role == g.role && exists|k: int|
                    0 <= k < anchors.len() && (#[trigger] anchors[k]).text == p.name
                        && anchors[k].href == p.link
            },
{
    let acc = roles_scan(tokens_of(texts), Seq::empty(), Seq::empty());
    let lm = link_map_of(anchors);
    lemma_groups_props(acc, lm);
    assert forall|i: int, j: int|
        0 <= i < people_spec(texts, anchors).len() && 0 <= j < people_spec(
            texts,
            anchors,
        )[i].people.len() implies {
        let g = people_spec(texts, anchors)[i];
        let p = #[trigger] people_spec(texts, anchors)[i].people[j];
        p.role == g.role && exists|k: int|
            0 <= k < anchors.len() && (#[trigger] anchors[k]).text == p.name && anchors[k].href
                == p.link
    } by {
        let p = people_spec(texts, anchors)[i].people[j];
        lemma_link_map_member(anchors, p.name);
    }
}

} // verus!
