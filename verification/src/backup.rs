//! Server structure backups: what a backup holds and in which order, the
//! backup file (a JSON document, written and read back), and how a backup
//! is rebuilt in another guild (roles first, then categories with their
//! channels, then the channels outside any category), with role
//! permission overwrites carried over to the new roles.
use vstd::prelude::*;
use crate::json::{
    array_items, as_bool, as_i64, as_str, as_u64, bool_value, entries_view, field, get_field,
    i64_value, items, items_view, json_bytes, json_of, json_text, lemma_array_view,
    lemma_lookup_at, lemma_object_view, opt_text, parse_json, put, str_value, text_json,
    u64_value, Json, JsonV,
};
use crate::order::{covers, stable_order, stable_order_by};
use crate::perms::{known_bits, Overwrite, Target, KNOWN_PERMISSIONS};
use crate::text::{
    chars_eq, chars_of, decimal, decimal_chars, lemma_decimal, lemma_parse_decimal, string_of,
};

verus! {

/// The kinds of channel a backup distinguishes.
#[derive(Clone, Copy, Debug, PartialEq, Eq)]
pub enum ChannelKind {
    Text,
    Voice,
    News,
    Stage,
    Forum,
    Category,
    /// Any other kind.
    Other,
}

/// The name under which a channel kind is saved; kinds that cannot be
/// recreated are saved as text channels.
pub open spec fn kind_name(k: ChannelKind) -> Seq<char> {
    match k {
        ChannelKind::Voice => "Voice"@,
        ChannelKind::News => "News"@,
        ChannelKind::Stage => "Stage"@,
        ChannelKind::Forum => "Forum"@,
        _ => "Text"@,
    }
}

/// The name under which a channel kind is saved.
pub fn channel_type_str(k: ChannelKind) -> (r: &'static str)
    ensures
        r@ == kind_name(k),
{
    match k {
        ChannelKind::Voice => "Voice",
        ChannelKind::News => "News",
        ChannelKind::Stage => "Stage",
        ChannelKind::Forum => "Forum",
        _ => "Text",
    }
}

/// The kind a saved kind name recreates: `Voice`, `News`, `Stage`,
/// `Forum`, and text for anything else.
pub open spec fn kind_of_name(s: Seq<char>) -> ChannelKind {
    if s == "Voice"@ {
        ChannelKind::Voice
    } else if s == "News"@ {
        ChannelKind::News
    } else if s == "Stage"@ {
        ChannelKind::Stage
    } else if s == "Forum"@ {
        ChannelKind::Forum
    } else {
        ChannelKind::Text
    }
}

fn same_text(s: &Vec<char>, lit: &str) -> (r: bool)
    ensures
        r == (s@ == lit@),
{
    chars_eq(s, &chars_of(lit))
}

/// The kind that a saved kind name recreates; a missing name is `Text`.
pub fn kind_from_name(s: Option<&str>) -> (r: ChannelKind)
    ensures
        r == kind_of_name(
            match s {
                Some(t) => t@,
                None => "Text"@,
            },
        ),
{
    let c = match s {
        Some(t) => chars_of(t),
        None => chars_of("Text"),
    };
    if same_text(&c, "Voice") {
        ChannelKind::Voice
    } else if same_text(&c, "News") {
        ChannelKind::News
    } else if same_text(&c, "Stage") {
        ChannelKind::Stage
    } else if same_text(&c, "Forum") {
        ChannelKind::Forum
    } else {
        ChannelKind::Text
    }
}

/// Whom a channel's overwrite applies to, as the Discord library reports it.
#[derive(Clone, Copy, Debug, PartialEq, Eq)]
pub enum OverwriteSubject {
    Role(u64),
    Member(u64),
    /// A kind of subject the library does not name.
    Unknown,
}

/// How an overwrite is saved: its type, the id it applies to, its bits.
pub struct SavedOverwrite {
    pub kind: String,
    pub id: String,
    pub allow: u64,
    pub deny: u64,
}

/// The saved type and id of an overwrite's subject; an unknown subject is
/// saved as role `0`.
pub open spec fn saved_subject(s: OverwriteSubject) -> (Seq<char>, Seq<char>) {
    match s {
        OverwriteSubject::Role(r) => ("role"@, crate::text::decimal(r as nat)),
        OverwriteSubject::Member(u) => ("member"@, crate::text::decimal(u as nat)),
        OverwriteSubject::Unknown => ("role"@, "0"@),
    }
}

/// How a channel's overwrites are saved, in their order.
pub fn save_overwrites(ows: &Vec<(OverwriteSubject, u64, u64)>) -> (r: Vec<SavedOverwrite>)
    ensures
        r.len() == ows.len(),
        forall|i: int|
            0 <= i < ows.len() ==> {
                let (kind, id) = saved_subject(ows@[i].0);
                &&& (#[trigger] r@[i]).kind@ == kind
                &&& r@[i].id@ == id
                &&& r@[i].allow == ows@[i].1
                &&& r@[i].deny == ows@[i].2
            },
{
    let mut r: Vec<SavedOverwrite> = Vec::new();
    let mut i: usize = 0;
    while i < ows.len()
        invariant
            i <= ows.len(),
            r.len() == i,
            forall|j: int|
                0 <= j < i ==> {
                    let (kind, id) = saved_subject(ows@[j].0);
                    &&& (#[trigger] r@[j]).kind@ == kind
                    &&& r@[j].id@ == id
                    &&& r@[j].allow == ows@[j].1
                    &&& r@[j].deny == ows@[j].2
                },
        decreases ows.len() - i,
    {
        let (subject, allow, deny) = ows[i];
        let (kind, id) = match subject {
            OverwriteSubject::Role(x) => (
                string_of(&chars_of("role")),
                string_of(&crate::text::decimal_chars(x)),
            ),
            OverwriteSubject::Member(x) => (
                string_of(&chars_of("member")),
                string_of(&crate::text::decimal_chars(x)),
            ),
            OverwriteSubject::Unknown => (string_of(&chars_of("role")), string_of(&chars_of("0"))),
        };
        r.push(SavedOverwrite { kind, id, allow, deny });
        i = i + 1;
    }
    r
}

/// The slow mode saved for a channel: none is 0.
pub fn saved_slowmode(rate: Option<u16>) -> (r: u16)
    ensures
        r == match rate {
            Some(x) => x,
            None => 0,
        },
{
    match rate {
        Some(x) => x,
        None => 0,
    }
}

/// A role of the guild being saved: its name and position.
pub struct RoleSummary {
    pub name: String,
    pub position: u16,
}

/// A channel of the guild being saved: its id, whether it is a category,
/// its category, its position.
pub struct ChannelSummary {
    pub id: u64,
    pub is_category: bool,
    pub parent: Option<u64>,
    pub position: u16,
}

/// The roles a backup keeps: all but `@everyone`, by position, ties in
/// the order given.
pub open spec fn saved_roles(roles: Seq<RoleSummary>, kept: Seq<usize>) -> bool {
    &&& forall|i: int| 0 <= i < kept.len() ==> #[trigger] kept[i] < roles.len()
    &&& forall|i: int| 0 <= i < kept.len() ==> roles[#[trigger] kept[i] as int].name@ != "@everyone"@
    &&& forall|k: int|
        0 <= k < roles.len() && roles[k].name@ != "@everyone"@ ==> #[trigger] kept.contains(
            k as usize,
        )
    &&& forall|i: int, j: int|
        0 <= i < j < kept.len() ==> {
            let a = roles[#[trigger] kept[i] as int];
            let b = roles[#[trigger] kept[j] as int];
            a.position < b.position || (a.position == b.position && kept[i] < kept[j])
        }
}

/// The places of `items` at which `keep` holds, by ascending key, ties in
/// the order given.
fn ordered_selection(keys: &Vec<u64>, keep: &Vec<bool>) -> (r: Vec<usize>)
    requires
        keys.len() == keep.len(),
    ensures
        forall|i: int| 0 <= i < r.len() ==> #[trigger] r@[i] < keys.len() && keep@[r@[i] as int],
        forall|k: int| 0 <= k < keys.len() && keep@[k] ==> #[trigger] r@.contains(k as usize),
        forall|i: int, j: int|
            0 <= i < j < r.len() ==> {
                let a = #[trigger] r@[i];
                let b = #[trigger] r@[j];
                keys@[a as int] < keys@[b as int] || (keys@[a as int] == keys@[b as int] && a < b)
            },
{
    let order = stable_order_by(keys);
    let mut r: Vec<usize> = Vec::new();
    let ghost mut pos: Seq<int> = Seq::empty();
    let mut i: usize = 0;
    while i < order.len()
        invariant
            i <= order.len(),
            stable_order(keys@, order@),
            covers(keys@, order@),
            keys.len() == keep.len(),
            pos.len() == r.len(),
            forall|a: int| 0 <= a < r.len() ==> 0 <= #[trigger] pos[a] < i,
            forall|a: int| 0 <= a < r.len() ==> order@[pos[a]] == #[trigger] r@[a],
            forall|a: int, c: int| 0 <= a < c < r.len() ==> #[trigger] pos[a] < #[trigger] pos[c],
            forall|a: int| 0 <= a < r.len() ==> #[trigger] r@[a] < keys.len() && keep@[r@[a] as int],
            forall|b: int|
                0 <= b < i && keep@[order@[b] as int] ==> #[trigger] r@.contains(order@[b]),
        decreases order.len() - i,
    {
        let idx = order[i];
        if keep[idx] {
            let ghost old_r = r@;
            r.push(idx);
            proof {
                pos = pos.push(i as int);
                assert forall|b: int|
                    0 <= b < i + 1 && keep@[order@[b] as int] implies #[trigger] r@.contains(
                    order@[b],
                ) by {
                    if b < i {
                        assert(old_r.contains(order@[b]));
                        let w = choose|w: int| 0 <= w < old_r.len() && old_r[w] == order@[b];
                        assert(r@[w] == order@[b]);
                    } else {
                        assert(r@[old_r.len() as int] == order@[b]);
                    }
                }
            }
        }
        i = i + 1;
    }
    proof {
        assert forall|k: int| 0 <= k < keys.len() && keep@[k] implies #[trigger] r@.contains(
            k as usize,
        ) by {
            assert(order@.contains(k as usize));
            let b = choose|b: int| 0 <= b < order.len() && order@[b] == k as usize;
            assert(keep@[order@[b] as int]);
        }
        assert forall|a: int, c: int| 0 <= a < c < r.len() implies {
            let x = #[trigger] r@[a];
            let y = #[trigger] r@[c];
            keys@[x as int] < keys@[y as int] || (keys@[x as int] == keys@[y as int] && x < y)
        } by {
            assert(pos[a] < pos[c]);
            assert(crate::order::before(keys@, order@[pos[a]], order@[pos[c]]));
        }
    }
    r
}

/// The roles a backup keeps, in the order it saves them.
pub fn backup_roles(roles: &Vec<RoleSummary>) -> (r: Vec<usize>)
    ensures
        saved_roles(roles@, r@),
{
    let mut keys: Vec<u64> = Vec::new();
    let mut keep: Vec<bool> = Vec::new();
    let everyone = chars_of("@everyone");
    let mut i: usize = 0;
    while i < roles.len()
        invariant
            i <= roles.len(),
            everyone@ == "@everyone"@,
            keys.len() == i,
            keep.len() == i,
            forall|k: int| 0 <= k < i ==> #[trigger] keys@[k] == roles@[k].position as u64,
            forall|k: int| 0 <= k < i ==> #[trigger] keep@[k] == (roles@[k].name@ != "@everyone"@),
        decreases roles.len() - i,
    {
        keys.push(roles[i].position as u64);
        keep.push(!chars_eq(&chars_of(roles[i].name.as_str()), &everyone));
        i = i + 1;
    }
    let r = ordered_selection(&keys, &keep);
    assert forall|i: int, j: int| 0 <= i < j < r.len() implies {
        let a = roles@[#[trigger] r@[i] as int];
        let b = roles@[#[trigger] r@[j] as int];
        a.position < b.position || (a.position == b.position && r@[i] < r@[j])
    } by {
        assert(keys@[r@[i] as int] == roles@[r@[i] as int].position as u64);
        assert(keys@[r@[j] as int] == roles@[r@[j] as int].position as u64);
    }
    assert forall|k: int|
        0 <= k < roles.len() && roles@[k].name@ != "@everyone"@ implies #[trigger] r@.contains(
        k as usize,
    ) by {
        assert(keep@[k]);
    }
    r
}

/// A category in a backup, and the channels saved inside it.
pub struct SavedCategory {
    pub category: usize,
    pub channels: Vec<usize>,
}

/// `order` lists the places of `chans` that satisfy `pick`, by position,
/// ties in the order given, each once.
pub open spec fn listed_by_position(chans: Seq<ChannelSummary>, order: Seq<usize>, pick: spec_fn(ChannelSummary) -> bool) -> bool {
    &&& forall|i: int| 0 <= i < order.len() ==> #[trigger] order[i] < chans.len() && pick(chans[order[i] as int])
    &&& forall|k: int| 0 <= k < chans.len() && pick(chans[k]) ==> #[trigger] order.contains(k as usize)
    &&& forall|i: int, j: int|
        0 <= i < j < order.len() ==> {
            let a = chans[#[trigger] order[i] as int];
            let b = chans[#[trigger] order[j] as int];
            a.position < b.position || (a.position == b.position && order[i] < order[j])
        }
}

/// The channels of a backup: categories by position, each with the
/// channels whose category it is, by position; then the channels that
/// are neither categories nor in one, by position. Ties keep the order
/// given.
pub open spec fn saved_layout(chans: Seq<ChannelSummary>, cats: Seq<SavedCategory>, orphans: Seq<usize>) -> bool {
    &&& listed_by_position(
        chans,
        cats.map_values(|c: SavedCategory| c.category),
        |c: ChannelSummary| c.is_category,
    )
    &&& forall|i: int|
        0 <= i < cats.len() ==> listed_by_position(
            chans,
            (#[trigger] cats[i]).channels@,
            |c: ChannelSummary| c.parent == Some(chans[cats[i].category as int].id),
        )
    &&& listed_by_position(
        chans,
        orphans,
        |c: ChannelSummary| !c.is_category && c.parent is None,
    )
}

/// The places of the channels that `pick` selects, by position.
fn channels_by_position(
    chans: &Vec<ChannelSummary>,
    keep: &Vec<bool>,
    Ghost(pick): Ghost<spec_fn(ChannelSummary) -> bool>,
) -> (r: Vec<usize>)
    requires
        keep.len() == chans.len(),
        forall|k: int| 0 <= k < chans.len() ==> keep@[k] == pick(chans@[k]),
    ensures
        listed_by_position(chans@, r@, pick),
{
    let mut keys: Vec<u64> = Vec::new();
    let mut i: usize = 0;
    while i < chans.len()
        invariant
            i <= chans.len(),
            keys.len() == i,
            forall|k: int| 0 <= k < i ==> #[trigger] keys@[k] == chans@[k].position as u64,
        decreases chans.len() - i,
    {
        keys.push(chans[i].position as u64);
        i = i + 1;
    }
    let r = ordered_selection(&keys, keep);
    assert forall|a: int, b: int| 0 <= a < b < r.len() implies {
        let x = chans@[#[trigger] r@[a] as int];
        let y = chans@[#[trigger] r@[b] as int];
        x.position < y.position || (x.position == y.position && r@[a] < r@[b])
    } by {
        assert(keys@[r@[a] as int] == chans@[r@[a] as int].position as u64);
        assert(keys@[r@[b] as int] == chans@[r@[b] as int].position as u64);
    }
    assert forall|k: int| 0 <= k < chans.len() && pick(chans@[k]) implies #[trigger] r@.contains(
        k as usize,
    ) by {
        assert(keep@[k]);
    }
    r
}

/// How the channels of a guild are laid out in its backup.
pub fn backup_layout(chans: &Vec<ChannelSummary>) -> (r: (Vec<SavedCategory>, Vec<usize>))
    ensures
        saved_layout(chans@, r.0@, r.1@),
{
    let mut is_cat: Vec<bool> = Vec::new();
    let mut is_orphan: Vec<bool> = Vec::new();
    let mut i: usize = 0;
    while i < chans.len()
        invariant
            i <= chans.len(),
            is_cat.len() == i,
            is_orphan.len() == i,
            forall|k: int| 0 <= k < i ==> #[trigger] is_cat@[k] == chans@[k].is_category,
            forall|k: int|
                0 <= k < i ==> #[trigger] is_orphan@[k] == (!chans@[k].is_category
                    && chans@[k].parent is None),
        decreases chans.len() - i,
    {
        is_cat.push(chans[i].is_category);
        is_orphan.push(!chans[i].is_category && chans[i].parent.is_none());
        i = i + 1;
    }
    let cat_order = channels_by_position(
        chans,
        &is_cat,
        Ghost(|c: ChannelSummary| c.is_category),
    );
    let orphans = channels_by_position(
        chans,
        &is_orphan,
        Ghost(|c: ChannelSummary| !c.is_category && c.parent is None),
    );
    let mut cats: Vec<SavedCategory> = Vec::new();
    let mut j: usize = 0;
    while j < cat_order.len()
        invariant
            j <= cat_order.len(),
            cats.len() == j,
            listed_by_position(chans@, cat_order@, |c: ChannelSummary| c.is_category),
            forall|a: int| 0 <= a < j ==> (#[trigger] cats@[a]).category == cat_order@[a],
            forall|a: int|
                0 <= a < j ==> listed_by_position(
                    chans@,
                    (#[trigger] cats@[a]).channels@,
                    |c: ChannelSummary| c.parent == Some(chans@[cats@[a].category as int].id),
                ),
        decreases cat_order.len() - j,
    {
        let cat = cat_order[j];
        let cat_id = chans[cat].id;
        let mut inside: Vec<bool> = Vec::new();
        let mut k: usize = 0;
        while k < chans.len()
            invariant
                k <= chans.len(),
                inside.len() == k,
                forall|m: int| 0 <= m < k ==> #[trigger] inside@[m] == (chans@[m].parent == Some(cat_id)),
            decreases chans.len() - k,
        {
            inside.push(chans[k].parent == Some(cat_id));
            k = k + 1;
        }
        let children = channels_by_position(
            chans,
            &inside,
            Ghost(|c: ChannelSummary| c.parent == Some(cat_id)),
        );
        cats.push(SavedCategory { category: cat, channels: children });
        j = j + 1;
    }
    assert(cats@.map_values(|c: SavedCategory| c.category) =~= cat_order@);
    (cats, orphans)
}

/// Old role ids (as saved) mapped to the ids of the roles recreated from
/// them.
pub struct RoleMap {
    entries: Vec<(String, u64)>,
}

impl RoleMap {
    /// The mapping.
    pub closed spec fn view(&self) -> Map<Seq<char>, u64> {
        Map::new(
            |k: Seq<char>| exists|i: int| 0 <= i < self.entries.len() && self.entries@[i].0@ == k,
            |k: Seq<char>|
                self.entries@[choose|i: int|
                    0 <= i < self.entries.len() && self.entries@[i].0@ == k].1,
        )
    }

    /// No old id occurs twice.
    pub closed spec fn wf(&self) -> bool {
        forall|i: int, j: int|
            0 <= i < j < self.entries.len() ==> (#[trigger] self.entries@[i]).0@
                != (#[trigger] self.entries@[j]).0@
    }

    /// An empty mapping.
    pub fn new() -> (r: RoleMap)
        ensures
            r.wf(),
            r.view() == Map::<Seq<char>, u64>::empty(),
    {
        let r = RoleMap { entries: Vec::new() };
        assert(r.view() =~= Map::<Seq<char>, u64>::empty());
        r
    }

    fn find(&self, key: &Vec<char>) -> (r: Option<usize>)
        requires
            self.wf(),
        ensures
            match r {
                Some(i) => i < self.entries.len() && self.entries@[i as int].0@ == key@,
                None => forall|i: int| 0 <= i < self.entries.len() ==> self.entries@[i].0@ != key@,
            },
    {
        let mut i: usize = 0;
        while i < self.entries.len()
            invariant
                i <= self.entries.len(),
                forall|j: int| 0 <= j < i ==> self.entries@[j].0@ != key@,
            decreases self.entries.len() - i,
        {
            if chars_eq(&chars_of(self.entries[i].0.as_str()), key) {
                return Some(i);
            }
            i = i + 1;
        }
        None
    }

    /// The new role recreated from the old role `old`, if any.
    pub fn get(&self, id: &str) -> (r: Option<u64>)
        requires
            self.wf(),
        ensures
            r == if self.view().dom().contains(id@) {
                Some(self.view()[id@])
            } else {
                None::<u64>
            },
    {
        let key = chars_of(id);
        match self.find(&key) {
            Some(i) => {
                assert(self.view().dom().contains(id@));
                let ghost c = choose|j: int| 0 <= j < self.entries.len() && self.entries@[j].0@ == id@;
                assert(c == i as int);
                Some(self.entries[i].1)
            },
            None => {
                assert(!self.view().dom().contains(id@));
                None
            },
        }
    }

    /// Records that `old` was recreated as `new`, replacing any earlier
    /// record of `old`.
    pub fn insert(&mut self, old_id: String, new_id: u64)
        requires
            old(self).wf(),
        ensures
            final(self).wf(),
            final(self).view() == old(self).view().insert(old_id@, new_id),
    {
        let key = chars_of(old_id.as_str());
        let ghost before = self.entries@;
        match self.find(&key) {
            Some(i) => {
                self.entries.set(i, (old_id, new_id));
                proof {
                    assert forall|a: int, b: int|
                        0 <= a < b < self.entries.len() implies (#[trigger] self.entries@[a]).0@
                        != (#[trigger] self.entries@[b]).0@ by {
                        if a != i && b != i {
                            assert(self.entries@[a] == before[a] && self.entries@[b] == before[b]);
                        } else if a == i {
                            assert(self.entries@[b] == before[b]);
                            assert(before[i as int].0@ == key@);
                        } else {
                            assert(self.entries@[a] == before[a]);
                            assert(before[i as int].0@ == key@);
                        }
                    }
                    assert(self.view() =~= old(self).view().insert(key@, new_id)) by {
                        assert forall|k: Seq<char>|
                            #[trigger] self.view().dom().contains(k) == old(self).view().insert(
                                key@,
                                new_id,
                            ).dom().contains(k) by {
                            if k == key@ {
                                assert(self.entries@[i as int].0@ == k);
                            } else if old(self).view().dom().contains(k) {
                                let w = choose|w: int|
                                    0 <= w < before.len() && before[w].0@ == k;
                                assert(self.entries@[w] == before[w]);
                            } else if self.view().dom().contains(k) {
                                let w = choose|w: int|
                                    0 <= w < self.entries.len() && self.entries@[w].0@ == k;
                                assert(before[w] == self.entries@[w]);
                            }
                        }
                        assert forall|k: Seq<char>|
                            self.view().dom().contains(k) implies #[trigger] self.view()[k]
                            == old(self).view().insert(key@, new_id)[k] by {
                            let w = choose|w: int|
                                0 <= w < self.entries.len() && self.entries@[w].0@ == k;
                            if k == key@ {
                                assert(w == i as int);
                            } else {
                                assert(before[w] == self.entries@[w]);
                                let w2 = choose|w2: int|
                                    0 <= w2 < before.len() && before[w2].0@ == k;
                                assert(w2 == w);
                            }
                        }
                    }
                }
            },
            None => {
                self.entries.push((old_id, new_id));
                proof {
                    let n = before.len() as int;
                    assert forall|a: int, b: int|
                        0 <= a < b < self.entries.len() implies (#[trigger] self.entries@[a]).0@
                        != (#[trigger] self.entries@[b]).0@ by {
                        assert(self.entries@[a] == before[a]);
                        if b < n {
                            assert(self.entries@[b] == before[b]);
                        }
                    }
                    assert(self.view() =~= old(self).view().insert(key@, new_id)) by {
                        assert forall|k: Seq<char>|
                            #[trigger] self.view().dom().contains(k) == old(self).view().insert(
                                key@,
                                new_id,
                            ).dom().contains(k) by {
                            if k == key@ {
                                assert(self.entries@[n].0@ == k);
                            } else if old(self).view().dom().contains(k) {
                                let w = choose|w: int|
                                    0 <= w < before.len() && before[w].0@ == k;
                                assert(self.entries@[w] == before[w]);
                            } else if self.view().dom().contains(k) {
                                let w = choose|w: int|
                                    0 <= w < self.entries.len() && self.entries@[w].0@ == k;
                                assert(w < n);
                                assert(before[w] == self.entries@[w]);
                            }
                        }
                        assert forall|k: Seq<char>|
                            self.view().dom().contains(k) implies #[trigger] self.view()[k]
                            == old(self).view().insert(key@, new_id)[k] by {
                            let w = choose|w: int|
                                0 <= w < self.entries.len() && self.entries@[w].0@ == k;
                            if k == key@ {
                                assert(w == n);
                            } else {
                                assert(w < n);
                                assert(before[w] == self.entries@[w]);
                                let w2 = choose|w2: int|
                                    0 <= w2 < before.len() && before[w2].0@ == k;
                                assert(w2 == w);
                            }
                        }
                    }
                }
            },
        }
    }
}


impl RoleMap {
    /// Records the outcome of recreating the role saved as `old_id`: a
    /// created role is recorded when the saved id is not empty.
    pub fn record(&mut self, old_id: String, created: Option<u64>)
        requires
            old(self).wf(),
        ensures
            final(self).wf(),
            final(self).view() == match created {
                Some(n) => if old_id@.len() > 0 {
                    old(self).view().insert(old_id@, n)
                } else {
                    old(self).view()
                },
                None => old(self).view(),
            },
    {
        match created {
            Some(n) => {
                if old_id.as_str().unicode_len() > 0 {
                    self.insert(old_id, n);
                }
            },
            None => {},
        }
    }
}

/// A saved overwrite as read back: each field when present with the
/// expected JSON type.
pub struct OverwriteRecord {
    pub kind: Option<String>,
    pub id: Option<String>,
    pub allow: Option<u64>,
    pub deny: Option<u64>,
}

pub open spec fn or_zero(x: Option<u64>) -> u64 {
    match x {
        Some(v) => v,
        None => 0,
    }
}

/// The overwrite a saved one becomes in the new guild. Only role
/// overwrites come back: the old `@everyone` becomes the new guild's
/// `@everyone`, another role the role recreated from it; a role that was
/// not recreated, a member, or an incomplete record give nothing.
pub open spec fn restored_overwrite(
    o: OverwriteRecord,
    roles: Map<Seq<char>, u64>,
    everyone: Seq<char>,
    guild: u64,
) -> Option<Overwrite> {
    match (o.kind, o.id) {
        (Some(k), Some(id)) => if k@ == "role"@ {
            let role = if everyone.len() > 0 && id@ == everyone {
                Some(guild)
            } else if roles.dom().contains(id@) {
                Some(roles[id@])
            } else {
                None
            };
            match role {
                Some(r) => Some(
                    Overwrite {
                        target: Target::Role(r),
                        allow: or_zero(o.allow) & KNOWN_PERMISSIONS,
                        deny: or_zero(o.deny) & KNOWN_PERMISSIONS,
                    },
                ),
                None => None,
            }
        } else {
            None
        },
        _ => None,
    }
}

/// The overwrites that saved ones become, in their order.
pub open spec fn restored_overwrites(
    os: Seq<OverwriteRecord>,
    roles: Map<Seq<char>, u64>,
    everyone: Seq<char>,
    guild: u64,
) -> Seq<Overwrite>
    decreases os.len(),
{
    if os.len() == 0 {
        Seq::empty()
    } else {
        let prev = restored_overwrites(os.drop_last(), roles, everyone, guild);
        match restored_overwrite(os.last(), roles, everyone, guild) {
            Some(o) => prev.push(o),
            None => prev,
        }
    }
}

fn restore_overwrite(o: &OverwriteRecord, roles: &RoleMap, everyone: &Vec<char>, guild: u64) -> (r: Option<Overwrite>)
    requires
        roles.wf(),
    ensures
        r == restored_overwrite(*o, roles.view(), everyone@, guild),
{
    let (kind, id) = match (&o.kind, &o.id) {
        (Some(k), Some(id)) => (k, id),
        _ => return None,
    };
    let allow = known_bits(
        match o.allow {
            Some(v) => v,
            None => 0,
        },
    );
    let deny = known_bits(
        match o.deny {
            Some(v) => v,
            None => 0,
        },
    );
    if !same_text(&chars_of(kind.as_str()), "role") {
        return None;
    }
    let idc = chars_of(id.as_str());
    let role = if everyone.len() > 0 && chars_eq(&idc, everyone) {
        guild
    } else {
        match roles.get(id.as_str()) {
            Some(r) => r,
            None => return None,
        }
    };
    Some(Overwrite { target: Target::Role(role), allow, deny })
}

/// The overwrites that saved ones become in the guild `guild`, whose old
/// `@everyone` id was `everyone`.
pub fn build_overwrites(os: &Vec<OverwriteRecord>, roles: &RoleMap, everyone: &str, guild: u64) -> (r: Vec<Overwrite>)
    requires
        roles.wf(),
    ensures
        r@ == restored_overwrites(os@, roles.view(), everyone@, guild),
{
    let ev = chars_of(everyone);
    let mut r: Vec<Overwrite> = Vec::new();
    let mut i: usize = 0;
    assert(os@.take(0) =~= Seq::<OverwriteRecord>::empty());
    while i < os.len()
        invariant
            i <= os.len(),
            roles.wf(),
            ev@ == everyone@,
            r@ == restored_overwrites(os@.take(i as int), roles.view(), everyone@, guild),
        decreases os.len() - i,
    {
        assert(os@.take(i + 1).drop_last() =~= os@.take(i as int));
        assert(os@.take(i + 1).last() == os@[i as int]);
        match restore_overwrite(&os[i], roles, &ev, guild) {
            Some(o) => r.push(o),
            None => {},
        }
        i = i + 1;
    }
    assert(os@.take(os.len() as int) =~= os@);
    r
}

/// The id that the old `@everyone` role had: the saved one, else the
/// saved guild id, else none (empty).
pub fn old_everyone_id(everyone_role_id: Option<&str>, guild_id: Option<&str>) -> (r: String)
    ensures
        r@ == match everyone_role_id {
            Some(e) => e@,
            None => match guild_id {
                Some(g) => g@,
                None => Seq::empty(),
            },
        },
{
    match everyone_role_id {
        Some(e) => string_of(&chars_of(e)),
        None => match guild_id {
            Some(g) => string_of(&chars_of(g)),
            None => string_of(&Vec::new()),
        },
    }
}

/// A saved role as read back.
pub struct RoleRecord {
    pub id: Option<String>,
    pub name: Option<String>,
    pub color: Option<u64>,
    pub permissions: Option<u64>,
    pub hoist: Option<bool>,
    pub mentionable: Option<bool>,
    pub position: Option<i64>,
}

/// A role to create.
pub struct RolePlan {
    /// The saved id, or empty.
    pub old_id: String,
    pub name: String,
    pub colour: u32,
    pub permissions: u64,
    pub hoist: bool,
    pub mentionable: bool,
}

/// The role that a saved one becomes: missing fields take their defaults
/// (`role`, colour 0, no permission, not hoisted, not mentionable), the
/// colour keeps its low 32 bits and the permissions the known ones.
pub open spec fn role_plan_of(r: RoleRecord) -> (Seq<char>, Seq<char>, u32, u64, bool, bool) {
    (
        match r.id {
            Some(i) => i@,
            None => Seq::empty(),
        },
        match r.name {
            Some(n) => n@,
            None => "role"@,
        },
        or_zero(r.color) as u32,
        or_zero(r.permissions) & KNOWN_PERMISSIONS,
        match r.hoist {
            Some(b) => b,
            None => false,
        },
        match r.mentionable {
            Some(b) => b,
            None => false,
        },
    )
}

/// The sort key of a saved role: its position, 0 when missing, shifted so
/// that unsigned order is signed order.
pub open spec fn role_key(r: RoleRecord) -> u64 {
    (match r.position {
        Some(p) => p as int,
        None => 0,
    } + 0x8000_0000_0000_0000) as u64
}

/// The roles to create, by saved position, ties in the order saved, with
/// the place each comes from.
pub fn restore_roles(roles: &Vec<RoleRecord>) -> (r: (Vec<usize>, Vec<RolePlan>))
    ensures
        stable_order(roles@.map_values(|x: RoleRecord| role_key(x)), r.0@),
        covers(roles@.map_values(|x: RoleRecord| role_key(x)), r.0@),
        r.1.len() == r.0.len(),
        forall|i: int|
            0 <= i < r.1.len() ==> {
                let p = #[trigger] r.1@[i];
                (p.old_id@, p.name@, p.colour, p.permissions, p.hoist, p.mentionable)
                    == role_plan_of(roles@[r.0@[i] as int])
            },
{
    let ghost kv = roles@.map_values(|x: RoleRecord| role_key(x));
    let mut keys: Vec<u64> = Vec::new();
    let mut i: usize = 0;
    while i < roles.len()
        invariant
            i <= roles.len(),
            kv == roles@.map_values(|x: RoleRecord| role_key(x)),
            keys@ == kv.take(i as int),
        decreases roles.len() - i,
    {
        let p: i64 = match roles[i].position {
            Some(p) => p,
            None => 0,
        };
        keys.push(((p as i128) + 0x8000_0000_0000_0000) as u64);
        i = i + 1;
        assert(keys@ =~= kv.take(i as int));
    }
    assert(kv.take(roles.len() as int) =~= kv);
    let order = stable_order_by(&keys);
    let mut plans: Vec<RolePlan> = Vec::new();
    let mut j: usize = 0;
    while j < order.len()
        invariant
            j <= order.len(),
            stable_order(kv, order@),
            kv.len() == roles.len(),
            plans.len() == j,
            forall|a: int|
                0 <= a < j ==> {
                    let p = #[trigger] plans@[a];
                    (p.old_id@, p.name@, p.colour, p.permissions, p.hoist, p.mentionable)
                        == role_plan_of(roles@[order@[a] as int])
                },
        decreases order.len() - j,
    {
        let rr = &roles[order[j]];
        let old_id = match &rr.id {
            Some(x) => string_of(&chars_of(x.as_str())),
            None => string_of(&Vec::new()),
        };
        let name = match &rr.name {
            Some(x) => string_of(&chars_of(x.as_str())),
            None => string_of(&chars_of("role")),
        };
        let colour: u64 = match rr.color {
            Some(c) => c,
            None => 0,
        };
        let permissions = known_bits(
            match rr.permissions {
                Some(v) => v,
                None => 0,
            },
        );
        plans.push(
            RolePlan {
                old_id,
                name,
                colour: colour as u32,
                permissions,
                hoist: match rr.hoist {
                    Some(b) => b,
                    None => false,
                },
                mentionable: match rr.mentionable {
                    Some(b) => b,
                    None => false,
                },
            },
        );
        j = j + 1;
    }
    (order, plans)
}

/// A saved channel as read back.
pub struct ChannelRecord {
    pub name: Option<String>,
    pub kind: Option<String>,
    pub topic: Option<String>,
    pub nsfw: Option<bool>,
    pub slowmode: Option<u64>,
    pub bitrate: Option<u64>,
    pub user_limit: Option<u64>,
    pub overwrites: Vec<OverwriteRecord>,
}

/// A channel to create.
pub struct ChannelPlan {
    pub name: String,
    pub kind: ChannelKind,
    pub category: Option<u64>,
    pub bitrate: Option<u32>,
    pub user_limit: Option<u32>,
    pub topic: Option<String>,
    pub rate_limit: Option<u16>,
    pub nsfw: bool,
    pub overwrites: Vec<Overwrite>,
}

/// Whether a kind is a voice kind (voice or stage).
pub open spec fn is_voice(k: ChannelKind) -> bool {
    k == ChannelKind::Voice || k == ChannelKind::Stage
}

/// The channel a saved one becomes in category `category`: its name
/// (`channel` when missing) and kind; for voice kinds, a positive bitrate
/// and the user limit, kept to 32 bits; for the others, a non-empty topic,
/// a positive slow mode kept to 16 bits, and the NSFW flag.
pub open spec fn channel_plan_ok(
    c: ChannelRecord,
    category: Option<u64>,
    roles: Map<Seq<char>, u64>,
    everyone: Seq<char>,
    guild: u64,
    p: ChannelPlan,
) -> bool {
    let kind = kind_of_name(
        match c.kind {
            Some(k) => k@,
            None => "Text"@,
        },
    );
    &&& p.name@ == match c.name {
        Some(n) => n@,
        None => "channel"@,
    }
    &&& p.kind == kind
    &&& p.category == category
    &&& p.overwrites@ == restored_overwrites(c.overwrites@, roles, everyone, guild)
    &&& if is_voice(kind) {
        &&& p.bitrate == match c.bitrate {
            Some(b) => if b > 0 {
                Some(b as u32)
            } else {
                None
            },
            None => None,
        }
        &&& p.user_limit == match c.user_limit {
            Some(l) => Some(l as u32),
            None => None,
        }
        &&& p.topic is None
        &&& p.rate_limit is None
        &&& !p.nsfw
    } else {
        &&& p.bitrate is None
        &&& p.user_limit is None
        &&& match c.topic {
            Some(t) => if t@.len() > 0 {
                p.topic is Some && p.topic->0@ == t@
            } else {
                p.topic is None
            },
            None => p.topic is None,
        }
        &&& p.rate_limit == if (or_zero(c.slowmode) as u16) > 0 {
            Some(or_zero(c.slowmode) as u16)
        } else {
            None
        }
        &&& p.nsfw == match c.nsfw {
            Some(b) => b,
            None => false,
        }
    }
}

/// The channel that a saved one becomes.
pub fn channel_plan(c: &ChannelRecord, category: Option<u64>, roles: &RoleMap, everyone: &str, guild: u64) -> (r: ChannelPlan)
    requires
        roles.wf(),
    ensures
        channel_plan_ok(*c, category, roles.view(), everyone@, guild, r),
{
    let name = match &c.name {
        Some(n) => string_of(&chars_of(n.as_str())),
        None => string_of(&chars_of("channel")),
    };
    let kind = kind_from_name(
        match &c.kind {
            Some(k) => Some(k.as_str()),
            None => None,
        },
    );
    let overwrites = build_overwrites(&c.overwrites, roles, everyone, guild);
    let voice = match kind {
        ChannelKind::Voice | ChannelKind::Stage => true,
        _ => false,
    };
    if voice {
        let bitrate = match c.bitrate {
            Some(b) => if b > 0 {
                Some(b as u32)
            } else {
                None
            },
            None => None,
        };
        let user_limit = match c.user_limit {
            Some(l) => Some(l as u32),
            None => None,
        };
        ChannelPlan {
            name,
            kind,
            category,
            bitrate,
            user_limit,
            topic: None,
            rate_limit: None,
            nsfw: false,
            overwrites,
        }
    } else {
        let topic = match &c.topic {
            Some(t) => if t.as_str().unicode_len() > 0 {
                Some(string_of(&chars_of(t.as_str())))
            } else {
                None
            },
            None => None,
        };
        let slow: u64 = match c.slowmode {
            Some(s) => s,
            None => 0,
        };
        let slow16 = slow as u16;
        let rate_limit = if slow16 > 0 {
            Some(slow16)
        } else {
            None
        };
        ChannelPlan {
            name,
            kind,
            category,
            bitrate: None,
            user_limit: None,
            topic,
            rate_limit,
            nsfw: match c.nsfw {
                Some(b) => b,
                None => false,
            },
            overwrites,
        }
    }
}

/// A category to create: its name (`category` when missing) and the
/// overwrites its saved ones become.
pub fn category_plan(
    name: Option<&str>,
    overwrites: &Vec<OverwriteRecord>,
    roles: &RoleMap,
    everyone: &str,
    guild: u64,
) -> (r: (String, Vec<Overwrite>))
    requires
        roles.wf(),
    ensures
        r.0@ == match name {
            Some(n) => n@,
            None => "category"@,
        },
        r.1@ == restored_overwrites(overwrites@, roles.view(), everyone@, guild),
{
    let n = match name {
        Some(n) => string_of(&chars_of(n)),
        None => string_of(&chars_of("category")),
    };
    (n, build_overwrites(overwrites, roles, everyone, guild))
}

/// The channels a restore creates inside a saved category, given what
/// creating the category gave: none when it failed (the category is
/// skipped with all its channels), else each of its saved channels, in
/// order, placed in the category created.
pub fn category_channel_plans(
    c: &CategoryRecord,
    created: Option<u64>,
    roles: &RoleMap,
    everyone: &str,
    guild: u64,
) -> (r: Vec<ChannelPlan>)
    requires
        roles.wf(),
    ensures
        created is None ==> r.len() == 0,
        created is Some ==> r.len() == c.channels.len(),
        forall|i: int|
            0 <= i < r.len() ==> channel_plan_ok(
                c.channels@[i],
                created,
                roles.view(),
                everyone@,
                guild,
                #[trigger] r@[i],
            ),
{
    let mut r: Vec<ChannelPlan> = Vec::new();
    if created.is_none() {
        return r;
    }
    let mut i: usize = 0;
    while i < c.channels.len()
        invariant
            i <= c.channels.len(),
            roles.wf(),
            created is Some,
            r.len() == i,
            forall|m: int|
                0 <= m < i ==> channel_plan_ok(
                    c.channels@[m],
                    created,
                    roles.view(),
                    everyone@,
                    guild,
                    #[trigger] r@[m],
                ),
        decreases c.channels.len() - i,
    {
        r.push(channel_plan(&c.channels[i], created, roles, everyone, guild));
        i = i + 1;
    }
    r
}

/// The name of the restored backup in the closing message: the saved one,
/// else `backup`.
pub fn restored_name(name: Option<&str>) -> (r: String)
    ensures
        r@ == match name {
            Some(n) => n@,
            None => "backup"@,
        },
{
    match name {
        Some(n) => string_of(&chars_of(n)),
        None => string_of(&chars_of("backup")),
    }
}


/// A role of the guild being saved.
pub struct RoleData {
    pub id: u64,
    pub name: String,
    pub colour: u32,
    pub permissions: u64,
    pub hoist: bool,
    pub mentionable: bool,
    pub position: u16,
}

/// A channel of the guild being saved, with its overwrites as the Discord
/// library reports them (subject, allowed bits, denied bits).
pub struct ChannelData {
    pub name: String,
    pub kind: ChannelKind,
    pub topic: Option<String>,
    pub nsfw: bool,
    pub rate_limit: Option<u16>,
    pub position: u16,
    pub bitrate: Option<u32>,
    pub user_limit: Option<u32>,
    pub overwrites: Vec<(OverwriteSubject, u64, u64)>,
}

/// A category of the guild being saved, with its channels in the order
/// they are saved.
pub struct CategoryData {
    pub name: String,
    pub position: u16,
    pub overwrites: Vec<(OverwriteSubject, u64, u64)>,
    pub channels: Vec<ChannelData>,
}

/// What a backup saves of a guild: its name and id, its roles, its
/// categories and the channels outside any category, each list in the
/// order it is saved.
pub struct BackupData {
    pub guild_name: String,
    pub guild_id: u64,
    pub roles: Vec<RoleData>,
    pub categories: Vec<CategoryData>,
    pub channels: Vec<ChannelData>,
}

/// A saved overwrite: `{type, id, allow, deny}`.
pub open spec fn overwrite_doc(o: (OverwriteSubject, u64, u64)) -> JsonV {
    let (kind, id) = saved_subject(o.0);
    JsonV::Object(
        seq![
            ("type"@, JsonV::Str(kind)),
            ("id"@, JsonV::Str(id)),
            ("allow"@, JsonV::UInt(o.1)),
            ("deny"@, JsonV::UInt(o.2)),
        ],
    )
}

/// The saved overwrites of a channel, in order.
pub open spec fn overwrites_doc(os: Seq<(OverwriteSubject, u64, u64)>) -> JsonV {
    JsonV::Array(Seq::new(os.len(), |i: int| overwrite_doc(os[i])))
}

/// An optional text: the text, or `null`.
pub open spec fn opt_text_doc(o: Option<String>) -> JsonV {
    match o {
        Some(t) => JsonV::Str(t@),
        None => JsonV::Null,
    }
}

/// An optional number: the number, or `null`.
pub open spec fn opt_u32_doc(o: Option<u32>) -> JsonV {
    match o {
        Some(n) => JsonV::UInt(n as u64),
        None => JsonV::Null,
    }
}

/// A saved channel: name, type, topic, NSFW flag, slow mode, position,
/// bitrate, user limit and overwrites.
pub open spec fn channel_doc(c: ChannelData) -> JsonV {
    JsonV::Object(
        seq![
            ("name"@, JsonV::Str(c.name@)),
            ("type"@, JsonV::Str(kind_name(c.kind))),
            ("topic"@, opt_text_doc(c.topic)),
            ("nsfw"@, JsonV::Bool(c.nsfw)),
            ("slowmode"@, JsonV::UInt(
                match c.rate_limit {
                    Some(x) => x as u64,
                    None => 0,
                },
            )),
            ("position"@, JsonV::UInt(c.position as u64)),
            ("bitrate"@, opt_u32_doc(c.bitrate)),
            ("user_limit"@, opt_u32_doc(c.user_limit)),
            ("permission_overwrites"@, overwrites_doc(c.overwrites@)),
        ],
    )
}

/// A list of saved channels, in order.
pub open spec fn channels_doc(cs: Seq<ChannelData>) -> JsonV {
    JsonV::Array(Seq::new(cs.len(), |i: int| channel_doc(cs[i])))
}

/// A saved role: its old id in decimal, name, colour, permissions, flags
/// and position.
pub open spec fn role_doc(r: RoleData) -> JsonV {
    JsonV::Object(
        seq![
            ("id"@, JsonV::Str(decimal(r.id as nat))),
            ("name"@, JsonV::Str(r.name@)),
            ("color"@, JsonV::UInt(r.colour as u64)),
            ("permissions"@, JsonV::UInt(r.permissions)),
            ("hoist"@, JsonV::Bool(r.hoist)),
            ("mentionable"@, JsonV::Bool(r.mentionable)),
            ("position"@, JsonV::UInt(r.position as u64)),
        ],
    )
}

/// A saved category: name, position, overwrites and channels.
pub open spec fn category_doc(c: CategoryData) -> JsonV {
    JsonV::Object(
        seq![
            ("name"@, JsonV::Str(c.name@)),
            ("position"@, JsonV::UInt(c.position as u64)),
            ("permission_overwrites"@, overwrites_doc(c.overwrites@)),
            ("channels"@, channels_doc(c.channels@)),
        ],
    )
}

/// The backup document of a guild: its name, its id (also the id of its
/// `@everyone` role), its roles, categories and other channels.
pub open spec fn backup_doc(b: BackupData) -> JsonV {
    JsonV::Object(
        seq![
            ("guild_name"@, JsonV::Str(b.guild_name@)),
            ("guild_id"@, JsonV::Str(decimal(b.guild_id as nat))),
            ("everyone_role_id"@, JsonV::Str(decimal(b.guild_id as nat))),
            ("roles"@, JsonV::Array(Seq::new(b.roles.len() as nat, |i: int| role_doc(b.roles@[i])))),
            ("categories"@, JsonV::Array(
                Seq::new(b.categories.len() as nat, |i: int| category_doc(b.categories@[i])),
            )),
            ("channels"@, channels_doc(b.channels@)),
        ],
    )
}

fn overwrites_json(os: &Vec<(OverwriteSubject, u64, u64)>) -> (r: Json)
    ensures
        r@ == overwrites_doc(os@),
{
    let saved = save_overwrites(os);
    let mut v: Vec<Json> = Vec::new();
    let mut i: usize = 0;
    while i < saved.len()
        invariant
            i <= saved.len(),
            saved.len() == os.len(),
            v.len() == i,
            forall|m: int|
                0 <= m < os.len() ==> {
                    let (kind, id) = saved_subject(os@[m].0);
                    &&& (#[trigger] saved@[m]).kind@ == kind
                    &&& saved@[m].id@ == id
                    &&& saved@[m].allow == os@[m].1
                    &&& saved@[m].deny == os@[m].2
                },
            forall|m: int| 0 <= m < i ==> (#[trigger] v@[m])@ == overwrite_doc(os@[m]),
        decreases saved.len() - i,
    {
        let o = &saved[i];
        let mut es: Vec<(String, Json)> = Vec::new();
        put(&mut es, "type", text_json(o.kind.as_str()));
        put(&mut es, "id", text_json(o.id.as_str()));
        put(&mut es, "allow", Json::UInt(o.allow));
        put(&mut es, "deny", Json::UInt(o.deny));
        proof {
            lemma_object_view(es);
            assert(entries_view(Seq::<(String, Json)>::empty()) =~= Seq::empty());
            let (kind, id) = saved_subject(os@[i as int].0);
            assert(entries_view(es@) =~= seq![
                ("type"@, JsonV::Str(kind)),
                ("id"@, JsonV::Str(id)),
                ("allow"@, JsonV::UInt(os@[i as int].1)),
                ("deny"@, JsonV::UInt(os@[i as int].2)),
            ]);
        }
        v.push(Json::Object(es));
        i = i + 1;
    }
    proof {
        lemma_array_view(v);
        assert(items_view(v@) =~= Seq::new(os@.len(), |m: int| overwrite_doc(os@[m])));
    }
    Json::Array(v)
}

fn opt_text_json(o: &Option<String>) -> (r: Json)
    ensures
        r@ == opt_text_doc(*o),
{
    match o {
        Some(t) => text_json(t.as_str()),
        None => Json::Null,
    }
}

fn opt_u32_json(o: Option<u32>) -> (r: Json)
    ensures
        r@ == opt_u32_doc(o),
{
    match o {
        Some(n) => Json::UInt(n as u64),
        None => Json::Null,
    }
}

fn channel_json(c: &ChannelData) -> (r: Json)
    ensures
        r@ == channel_doc(*c),
{
    let mut es: Vec<(String, Json)> = Vec::new();
    put(&mut es, "name", text_json(c.name.as_str()));
    put(&mut es, "type", text_json(channel_type_str(c.kind)));
    put(&mut es, "topic", opt_text_json(&c.topic));
    put(&mut es, "nsfw", Json::Bool(c.nsfw));
    put(&mut es, "slowmode", Json::UInt(saved_slowmode(c.rate_limit) as u64));
    put(&mut es, "position", Json::UInt(c.position as u64));
    put(&mut es, "bitrate", opt_u32_json(c.bitrate));
    put(&mut es, "user_limit", opt_u32_json(c.user_limit));
    put(&mut es, "permission_overwrites", overwrites_json(&c.overwrites));
    proof {
        lemma_object_view(es);
        assert(entries_view(Seq::<(String, Json)>::empty()) =~= Seq::empty());
        assert(entries_view(es@) =~= seq![
            ("name"@, JsonV::Str(c.name@)),
            ("type"@, JsonV::Str(kind_name(c.kind))),
            ("topic"@, opt_text_doc(c.topic)),
            ("nsfw"@, JsonV::Bool(c.nsfw)),
            ("slowmode"@, JsonV::UInt(
                match c.rate_limit {
                    Some(x) => x as u64,
                    None => 0,
                },
            )),
            ("position"@, JsonV::UInt(c.position as u64)),
            ("bitrate"@, opt_u32_doc(c.bitrate)),
            ("user_limit"@, opt_u32_doc(c.user_limit)),
            ("permission_overwrites"@, overwrites_doc(c.overwrites@)),
        ]);
    }
    Json::Object(es)
}

fn channels_json(cs: &Vec<ChannelData>) -> (r: Json)
    ensures
        r@ == channels_doc(cs@),
{
    let mut v: Vec<Json> = Vec::new();
    let mut i: usize = 0;
    while i < cs.len()
        invariant
            i <= cs.len(),
            v.len() == i,
            forall|m: int| 0 <= m < i ==> (#[trigger] v@[m])@ == channel_doc(cs@[m]),
        decreases cs.len() - i,
    {
        v.push(channel_json(&cs[i]));
        i = i + 1;
    }
    proof {
        lemma_array_view(v);
        assert(items_view(v@) =~= Seq::new(cs@.len(), |m: int| channel_doc(cs@[m])));
    }
    Json::Array(v)
}

fn role_json(r: &RoleData) -> (j: Json)
    ensures
        j@ == role_doc(*r),
{
    let mut es: Vec<(String, Json)> = Vec::new();
    put(&mut es, "id", Json::Str(string_of(&decimal_chars(r.id))));
    put(&mut es, "name", text_json(r.name.as_str()));
    put(&mut es, "color", Json::UInt(r.colour as u64));
    put(&mut es, "permissions", Json::UInt(r.permissions));
    put(&mut es, "hoist", Json::Bool(r.hoist));
    put(&mut es, "mentionable", Json::Bool(r.mentionable));
    put(&mut es, "position", Json::UInt(r.position as u64));
    proof {
        lemma_object_view(es);
        assert(entries_view(Seq::<(String, Json)>::empty()) =~= Seq::empty());
        assert(entries_view(es@) =~= seq![
            ("id"@, JsonV::Str(decimal(r.id as nat))),
            ("name"@, JsonV::Str(r.name@)),
            ("color"@, JsonV::UInt(r.colour as u64)),
            ("permissions"@, JsonV::UInt(r.permissions)),
            ("hoist"@, JsonV::Bool(r.hoist)),
            ("mentionable"@, JsonV::Bool(r.mentionable)),
            ("position"@, JsonV::UInt(r.position as u64)),
        ]);
    }
    Json::Object(es)
}

fn category_json(c: &CategoryData) -> (r: Json)
    ensures
        r@ == category_doc(*c),
{
    let mut es: Vec<(String, Json)> = Vec::new();
    put(&mut es, "name", text_json(c.name.as_str()));
    put(&mut es, "position", Json::UInt(c.position as u64));
    put(&mut es, "permission_overwrites", overwrites_json(&c.overwrites));
    put(&mut es, "channels", channels_json(&c.channels));
    proof {
        lemma_object_view(es);
        assert(entries_view(Seq::<(String, Json)>::empty()) =~= Seq::empty());
        assert(entries_view(es@) =~= seq![
            ("name"@, JsonV::Str(c.name@)),
            ("position"@, JsonV::UInt(c.position as u64)),
            ("permission_overwrites"@, overwrites_doc(c.overwrites@)),
            ("channels"@, channels_doc(c.channels@)),
        ]);
    }
    Json::Object(es)
}

/// The backup document of a guild.
pub fn backup_json(b: &BackupData) -> (r: Json)
    ensures
        r@ == backup_doc(*b),
{
    let mut roles: Vec<Json> = Vec::new();
    let mut i: usize = 0;
    while i < b.roles.len()
        invariant
            i <= b.roles.len(),
            roles.len() == i,
            forall|m: int| 0 <= m < i ==> (#[trigger] roles@[m])@ == role_doc(b.roles@[m]),
        decreases b.roles.len() - i,
    {
        roles.push(role_json(&b.roles[i]));
        i = i + 1;
    }
    let mut cats: Vec<Json> = Vec::new();
    let mut k: usize = 0;
    while k < b.categories.len()
        invariant
            k <= b.categories.len(),
            cats.len() == k,
            forall|m: int| 0 <= m < k ==> (#[trigger] cats@[m])@ == category_doc(b.categories@[m]),
        decreases b.categories.len() - k,
    {
        cats.push(category_json(&b.categories[k]));
        k = k + 1;
    }
    proof {
        lemma_array_view(roles);
        assert(items_view(roles@) =~= Seq::new(
            b.roles.len() as nat,
            |m: int| role_doc(b.roles@[m]),
        ));
        lemma_array_view(cats);
        assert(items_view(cats@) =~= Seq::new(
            b.categories.len() as nat,
            |m: int| category_doc(b.categories@[m]),
        ));
    }
    let mut es: Vec<(String, Json)> = Vec::new();
    put(&mut es, "guild_name", text_json(b.guild_name.as_str()));
    put(&mut es, "guild_id", Json::Str(string_of(&decimal_chars(b.guild_id))));
    put(&mut es, "everyone_role_id", Json::Str(string_of(&decimal_chars(b.guild_id))));
    put(&mut es, "roles", Json::Array(roles));
    put(&mut es, "categories", Json::Array(cats));
    put(&mut es, "channels", channels_json(&b.channels));
    proof {
        lemma_object_view(es);
        assert(entries_view(Seq::<(String, Json)>::empty()) =~= Seq::empty());
        assert(entries_view(es@) =~= seq![
            ("guild_name"@, JsonV::Str(b.guild_name@)),
            ("guild_id"@, JsonV::Str(decimal(b.guild_id as nat))),
            ("everyone_role_id"@, JsonV::Str(decimal(b.guild_id as nat))),
            ("roles"@, JsonV::Array(Seq::new(b.roles.len() as nat, |i: int| role_doc(b.roles@[i])))),
            ("categories"@, JsonV::Array(
                Seq::new(b.categories.len() as nat, |i: int| category_doc(b.categories@[i])),
            )),
            ("channels"@, channels_doc(b.channels@)),
        ]);
    }
    Json::Object(es)
}

/// The backup file of a guild: its document, written as pretty JSON.
pub fn write_backup(b: &BackupData) -> (r: Vec<u8>)
    ensures
        r@ == json_text(backup_doc(*b)),
{
    json_bytes(&backup_json(b))
}

/// A saved category as read back: its name, its overwrites, its channels.
pub struct CategoryRecord {
    pub name: Option<String>,
    pub overwrites: Vec<OverwriteRecord>,
    pub channels: Vec<ChannelRecord>,
}

/// A backup as read back.
pub struct BackupRecord {
    pub guild_name: Option<String>,
    pub guild_id: Option<String>,
    pub everyone_role_id: Option<String>,
    pub roles: Vec<RoleRecord>,
    pub categories: Vec<CategoryRecord>,
    pub channels: Vec<ChannelRecord>,
}

/// `r` is the overwrite that the JSON object `j` saves.
pub open spec fn overwrite_read(r: OverwriteRecord, j: JsonV) -> bool {
    &&& opt_text(r.kind) == as_str(field(j, "type"@))
    &&& opt_text(r.id) == as_str(field(j, "id"@))
    &&& r.allow == as_u64(field(j, "allow"@))
    &&& r.deny == as_u64(field(j, "deny"@))
}

/// `rs` are the overwrites that the JSON array `j` saves, in order; none
/// when `j` is not an array.
pub open spec fn overwrites_read(rs: Seq<OverwriteRecord>, j: JsonV) -> bool {
    &&& rs.len() == items(j).len()
    &&& forall|i: int| 0 <= i < rs.len() ==> overwrite_read(#[trigger] rs[i], items(j)[i])
}

/// `c` is the channel that the JSON object `j` saves.
pub open spec fn channel_read(c: ChannelRecord, j: JsonV) -> bool {
    &&& opt_text(c.name) == as_str(field(j, "name"@))
    &&& opt_text(c.kind) == as_str(field(j, "type"@))
    &&& opt_text(c.topic) == as_str(field(j, "topic"@))
    &&& c.nsfw == as_bool(field(j, "nsfw"@))
    &&& c.slowmode == as_u64(field(j, "slowmode"@))
    &&& c.bitrate == as_u64(field(j, "bitrate"@))
    &&& c.user_limit == as_u64(field(j, "user_limit"@))
    &&& overwrites_read(c.overwrites@, field(j, "permission_overwrites"@))
}

/// `cs` are the channels that the JSON array `j` saves, in order.
pub open spec fn channels_read(cs: Seq<ChannelRecord>, j: JsonV) -> bool {
    &&& cs.len() == items(j).len()
    &&& forall|i: int| 0 <= i < cs.len() ==> channel_read(#[trigger] cs[i], items(j)[i])
}

/// `r` is the role that the JSON object `j` saves.
pub open spec fn role_read(r: RoleRecord, j: JsonV) -> bool {
    &&& opt_text(r.id) == as_str(field(j, "id"@))
    &&& opt_text(r.name) == as_str(field(j, "name"@))
    &&& r.color == as_u64(field(j, "color"@))
    &&& r.permissions == as_u64(field(j, "permissions"@))
    &&& r.hoist == as_bool(field(j, "hoist"@))
    &&& r.mentionable == as_bool(field(j, "mentionable"@))
    &&& r.position == as_i64(field(j, "position"@))
}

/// `c` is the category that the JSON object `j` saves.
pub open spec fn category_read(c: CategoryRecord, j: JsonV) -> bool {
    &&& opt_text(c.name) == as_str(field(j, "name"@))
    &&& overwrites_read(c.overwrites@, field(j, "permission_overwrites"@))
    &&& channels_read(c.channels@, field(j, "channels"@))
}

/// `b` is the backup that the JSON document `j` holds: each part read from
/// its key, a list that is missing or not an array being empty.
pub open spec fn backup_read(b: BackupRecord, j: JsonV) -> bool {
    &&& opt_text(b.guild_name) == as_str(field(j, "guild_name"@))
    &&& opt_text(b.guild_id) == as_str(field(j, "guild_id"@))
    &&& opt_text(b.everyone_role_id) == as_str(field(j, "everyone_role_id"@))
    &&& b.roles.len() == items(field(j, "roles"@)).len()
    &&& (forall|i: int|
        0 <= i < b.roles.len() ==> role_read(#[trigger] b.roles@[i], items(field(j, "roles"@))[i]))
    &&& b.categories.len() == items(field(j, "categories"@)).len()
    &&& (forall|i: int|
        0 <= i < b.categories.len() ==> category_read(
            #[trigger] b.categories@[i],
            items(field(j, "categories"@))[i],
        ))
    &&& channels_read(b.channels@, field(j, "channels"@))
}

fn read_overwrite(j: &Json) -> (r: OverwriteRecord)
    ensures
        overwrite_read(r, j@),
{
    OverwriteRecord {
        kind: str_value(get_field(j, "type")),
        id: str_value(get_field(j, "id")),
        allow: u64_value(get_field(j, "allow")),
        deny: u64_value(get_field(j, "deny")),
    }
}

fn read_overwrites(j: Option<&Json>) -> (r: Vec<OverwriteRecord>)
    ensures
        overwrites_read(
            r@,
            match j {
                Some(v) => v@,
                None => JsonV::Null,
            },
        ),
{
    let mut r: Vec<OverwriteRecord> = Vec::new();
    match array_items(j) {
        None => r,
        Some(v) => {
            let mut i: usize = 0;
            while i < v.len()
                invariant
                    i <= v.len(),
                    r.len() == i,
                    v@.len() == items(j->0@).len(),
                    forall|m: int| 0 <= m < v.len() ==> (#[trigger] v@[m])@ == items(j->0@)[m],
                    forall|m: int| 0 <= m < i ==> overwrite_read(#[trigger] r@[m], items(j->0@)[m]),
                decreases v.len() - i,
            {
                r.push(read_overwrite(&v[i]));
                i = i + 1;
            }
            r
        },
    }
}

fn read_channel(j: &Json) -> (r: ChannelRecord)
    ensures
        channel_read(r, j@),
{
    ChannelRecord {
        name: str_value(get_field(j, "name")),
        kind: str_value(get_field(j, "type")),
        topic: str_value(get_field(j, "topic")),
        nsfw: bool_value(get_field(j, "nsfw")),
        slowmode: u64_value(get_field(j, "slowmode")),
        bitrate: u64_value(get_field(j, "bitrate")),
        user_limit: u64_value(get_field(j, "user_limit")),
        overwrites: read_overwrites(get_field(j, "permission_overwrites")),
    }
}

fn read_channels(j: Option<&Json>) -> (r: Vec<ChannelRecord>)
    ensures
        channels_read(
            r@,
            match j {
                Some(v) => v@,
                None => JsonV::Null,
            },
        ),
{
    let mut r: Vec<ChannelRecord> = Vec::new();
    match array_items(j) {
        None => r,
        Some(v) => {
            let mut i: usize = 0;
            while i < v.len()
                invariant
                    i <= v.len(),
                    r.len() == i,
                    v@.len() == items(j->0@).len(),
                    forall|m: int| 0 <= m < v.len() ==> (#[trigger] v@[m])@ == items(j->0@)[m],
                    forall|m: int| 0 <= m < i ==> channel_read(#[trigger] r@[m], items(j->0@)[m]),
                decreases v.len() - i,
            {
                r.push(read_channel(&v[i]));
                i = i + 1;
            }
            r
        },
    }
}

fn read_role(j: &Json) -> (r: RoleRecord)
    ensures
        role_read(r, j@),
{
    RoleRecord {
        id: str_value(get_field(j, "id")),
        name: str_value(get_field(j, "name")),
        color: u64_value(get_field(j, "color")),
        permissions: u64_value(get_field(j, "permissions")),
        hoist: bool_value(get_field(j, "hoist")),
        mentionable: bool_value(get_field(j, "mentionable")),
        position: i64_value(get_field(j, "position")),
    }
}

fn read_category(j: &Json) -> (r: CategoryRecord)
    ensures
        category_read(r, j@),
{
    CategoryRecord {
        name: str_value(get_field(j, "name")),
        overwrites: read_overwrites(get_field(j, "permission_overwrites")),
        channels: read_channels(get_field(j, "channels")),
    }
}

/// The backup that a JSON document holds.
pub fn backup_from_json(j: &Json) -> (r: BackupRecord)
    ensures
        backup_read(r, j@),
{
    let mut roles: Vec<RoleRecord> = Vec::new();
    let rj = get_field(j, "roles");
    let ghost rv = match rj {
        Some(v) => v@,
        None => JsonV::Null,
    };
    assert(rv == field(j@, "roles"@));
    match array_items(rj) {
        None => {},
        Some(v) => {
            let mut i: usize = 0;
            while i < v.len()
                invariant
                    i <= v.len(),
                    roles.len() == i,
                    v@.len() == items(rv).len(),
                    forall|m: int| 0 <= m < v.len() ==> (#[trigger] v@[m])@ == items(rv)[m],
                    forall|m: int| 0 <= m < i ==> role_read(#[trigger] roles@[m], items(rv)[m]),
                decreases v.len() - i,
            {
                roles.push(read_role(&v[i]));
                i = i + 1;
            }
        },
    }
    let mut categories: Vec<CategoryRecord> = Vec::new();
    let cj = get_field(j, "categories");
    let ghost cv = match cj {
        Some(v) => v@,
        None => JsonV::Null,
    };
    assert(cv == field(j@, "categories"@));
    match array_items(cj) {
        None => {},
        Some(v) => {
            let mut i: usize = 0;
            while i < v.len()
                invariant
                    i <= v.len(),
                    categories.len() == i,
                    v@.len() == items(cv).len(),
                    forall|m: int| 0 <= m < v.len() ==> (#[trigger] v@[m])@ == items(cv)[m],
                    forall|m: int|
                        0 <= m < i ==> category_read(#[trigger] categories@[m], items(cv)[m]),
                decreases v.len() - i,
            {
                categories.push(read_category(&v[i]));
                i = i + 1;
            }
        },
    }
    BackupRecord {
        guild_name: str_value(get_field(j, "guild_name")),
        guild_id: str_value(get_field(j, "guild_id")),
        everyone_role_id: str_value(get_field(j, "everyone_role_id")),
        roles,
        categories,
        channels: read_channels(get_field(j, "channels")),
    }
}

/// The backup that a file holds: `None` when the file is not JSON;
/// otherwise what the document holds, as `backup_read` reads it.
pub fn read_backup(bytes: &[u8]) -> (r: Option<BackupRecord>)
    ensures
        match json_of(bytes@) {
            None => r is None,
            Some(j) => r is Some && backup_read(r->0, j),
        },
{
    match parse_json(bytes) {
        None => None,
        Some(j) => Some(backup_from_json(&j)),
    }
}

/// The role a saved overwrite names: its role, or role 0 for a subject
/// the Discord library does not name (it is saved as role `0`); none for
/// a member.
pub open spec fn saved_role(s: OverwriteSubject) -> Option<u64> {
    match s {
        OverwriteSubject::Role(r) => Some(r),
        OverwriteSubject::Unknown => Some(0),
        OverwriteSubject::Member(_) => None,
    }
}

/// The role that a saved role becomes in the new guild `new`: the old
/// `@everyone` (the old guild's id `old`) becomes the new guild's, another
/// role the one recreated under its old id; none when it was not
/// recreated.
pub open spec fn new_role(r: u64, roles: Map<Seq<char>, u64>, old: u64, new: u64) -> Option<u64> {
    if r == old {
        Some(new)
    } else if roles.dom().contains(decimal(r as nat)) {
        Some(roles[decimal(r as nat)])
    } else {
        None
    }
}

/// The overwrites that saved ones come back as, in order: each role
/// overwrite whose role has a counterpart in the new guild, pointing at
/// it, with the bits the Discord library knows; member overwrites and
/// overwrites of roles that were not recreated are left out.
pub open spec fn restored_role_overwrites(
    os: Seq<(OverwriteSubject, u64, u64)>,
    roles: Map<Seq<char>, u64>,
    old: u64,
    new: u64,
) -> Seq<Overwrite>
    decreases os.len(),
{
    if os.len() == 0 {
        Seq::empty()
    } else {
        let prev = restored_role_overwrites(os.drop_last(), roles, old, new);
        let o = os.last();
        match saved_role(o.0) {
            Some(r) => match new_role(r, roles, old, new) {
                Some(t) => prev.push(
                    Overwrite {
                        target: Target::Role(t),
                        allow: o.1 & KNOWN_PERMISSIONS,
                        deny: o.2 & KNOWN_PERMISSIONS,
                    },
                ),
                None => prev,
            },
            None => prev,
        }
    }
}

/// What reading a saved overwrite gives: its type, its id, its bits.
proof fn lemma_overwrite_read(r: OverwriteRecord, o: (OverwriteSubject, u64, u64))
    requires
        overwrite_read(r, overwrite_doc(o)),
    ensures
        opt_text(r.kind) == Some(saved_subject(o.0).0),
        opt_text(r.id) == Some(saved_subject(o.0).1),
        r.allow == Some(o.1),
        r.deny == Some(o.2),
{
    let (kind, id) = saved_subject(o.0);
    let es = seq![
        ("type"@, JsonV::Str(kind)),
        ("id"@, JsonV::Str(id)),
        ("allow"@, JsonV::UInt(o.1)),
        ("deny"@, JsonV::UInt(o.2)),
    ];
    reveal_strlit("type");
    reveal_strlit("id");
    reveal_strlit("allow");
    reveal_strlit("deny");
    assert(es[0].0 == "type"@ && es[1].0 == "id"@ && es[2].0 == "allow"@ && es[3].0 == "deny"@);
    assert("type"@.len() == 4 && "id"@.len() == 2 && "allow"@.len() == 5 && "deny"@.len() == 4);
    assert(es[1].0 != es[0].0);
    assert(es[2].0 != es[0].0 && es[2].0 != es[1].0);
    assert(es[3].0[0] != es[0].0[0]);
    assert(es[3].0 != es[0].0 && es[3].0 != es[1].0 && es[3].0 != es[2].0);
    lemma_lookup_at(es, 0);
    lemma_lookup_at(es, 1);
    lemma_lookup_at(es, 2);
    lemma_lookup_at(es, 3);
}

/// Two numbers with the same decimal form are the same number.
proof fn lemma_decimal_injective(a: u64, b: u64)
    requires
        decimal(a as nat) == decimal(b as nat),
    ensures
        a == b,
{
    lemma_parse_decimal(a as nat, u64::MAX as nat);
    lemma_parse_decimal(b as nat, u64::MAX as nat);
}

/// Saving a channel's overwrites in the guild `old` and restoring them in
/// the guild `new` with the role map `roles` (old role id in decimal to
/// the role recreated from it) gives back each role overwrite whose role
/// has a counterpart (the old `@everyone` becomes the new one), in order,
/// with the bits the Discord library knows; member overwrites and those
/// of roles that were not recreated are dropped.
pub proof fn overwrites_round_trip(
    os: Seq<(OverwriteSubject, u64, u64)>,
    rs: Seq<OverwriteRecord>,
    roles: Map<Seq<char>, u64>,
    old: u64,
    new: u64,
)
    requires
        overwrites_read(rs, overwrites_doc(os)),
    ensures
        restored_overwrites(rs, roles, decimal(old as nat), new) == restored_role_overwrites(
            os,
            roles,
            old,
            new,
        ),
    decreases os.len(),
{
    if os.len() > 0 {
        let n = os.len() - 1;
        let os0 = os.drop_last();
        let rs0 = rs.drop_last();
        assert(items(overwrites_doc(os0)) =~= items(overwrites_doc(os)).take(n));
        assert forall|i: int| 0 <= i < rs0.len() implies overwrite_read(
            #[trigger] rs0[i],
            items(overwrites_doc(os0))[i],
        ) by {
            assert(rs0[i] == rs[i]);
            assert(overwrite_read(rs[i], items(overwrites_doc(os))[i]));
        }
        overwrites_round_trip(os0, rs0, roles, old, new);
        let o = os[n];
        let r = rs[n];
        assert(overwrite_read(r, items(overwrites_doc(os))[n]));
        lemma_overwrite_read(r, o);
        assert(os.last() == o);
        assert(rs.last() == r);
        let ev = decimal(old as nat);
        lemma_decimal(old as nat);
        reveal_strlit("role");
        reveal_strlit("member");
        reveal_strlit("0");
        assert(decimal(0) =~= "0"@);
        match saved_role(o.0) {
            Some(x) => {
                assert(r.id->0@ == decimal(x as nat));
                if x != old && decimal(x as nat) == ev {
                    lemma_decimal_injective(x, old);
                }
            },
            None => {
                assert(r.kind->0@ == "member"@);
                assert("member"@.len() != "role"@.len());
            },
        }
    }
}

/// What reading back a saved role gives: each field as it was saved.
proof fn lemma_role_read(r: RoleRecord, d: RoleData)
    requires
        role_read(r, role_doc(d)),
    ensures
        opt_text(r.id) == Some(decimal(d.id as nat)),
        opt_text(r.name) == Some(d.name@),
        r.color == Some(d.colour as u64),
        r.permissions == Some(d.permissions),
        r.hoist == Some(d.hoist),
        r.mentionable == Some(d.mentionable),
        r.position == Some(d.position as i64),
{
    let es = seq![
        ("id"@, JsonV::Str(decimal(d.id as nat))),
        ("name"@, JsonV::Str(d.name@)),
        ("color"@, JsonV::UInt(d.colour as u64)),
        ("permissions"@, JsonV::UInt(d.permissions)),
        ("hoist"@, JsonV::Bool(d.hoist)),
        ("mentionable"@, JsonV::Bool(d.mentionable)),
        ("position"@, JsonV::UInt(d.position as u64)),
    ];
    assert(role_doc(d) == JsonV::Object(es));
    reveal_strlit("id");
    reveal_strlit("name");
    reveal_strlit("color");
    reveal_strlit("permissions");
    reveal_strlit("hoist");
    reveal_strlit("mentionable");
    reveal_strlit("position");
    assert(es[0].0 == "id"@ && es[1].0 == "name"@ && es[2].0 == "color"@ && es[3].0 == "permissions"@ && es[4].0 == "hoist"@ && es[5].0 == "mentionable"@ && es[6].0 == "position"@);
    assert("id"@.len() != "name"@.len());
    assert("id"@.len() != "color"@.len());
    assert("name"@.len() != "color"@.len());
    assert("id"@.len() != "permissions"@.len());
    assert("name"@.len() != "permissions"@.len());
    assert("color"@.len() != "permissions"@.len());
    assert("id"@.len() != "hoist"@.len());
    assert("name"@.len() != "hoist"@.len());
    assert("color"@[0] != "hoist"@[0]);
    assert("permissions"@.len() != "hoist"@.len());
    assert("id"@.len() != "mentionable"@.len());
    assert("name"@.len() != "mentionable"@.len());
    assert("color"@.len() != "mentionable"@.len());
    assert("permissions"@[0] != "mentionable"@[0]);
    assert("hoist"@.len() != "mentionable"@.len());
    assert("id"@.len() != "position"@.len());
    assert("name"@.len() != "position"@.len());
    assert("color"@.len() != "position"@.len());
    assert("permissions"@.len() != "position"@.len());
    assert("hoist"@.len() != "position"@.len());
    assert("mentionable"@.len() != "position"@.len());
    lemma_lookup_at(es, 0);
    lemma_lookup_at(es, 1);
    lemma_lookup_at(es, 2);
    lemma_lookup_at(es, 3);
    lemma_lookup_at(es, 4);
    lemma_lookup_at(es, 5);
    lemma_lookup_at(es, 6);
}

/// A channel read back holds what was saved of it: name, type, topic,
/// NSFW flag, slow mode, bitrate, user limit and overwrites.
pub open spec fn channel_back(rc: ChannelRecord, c: ChannelData) -> bool {
    &&& opt_text(rc.name) == Some(c.name@)
    &&& opt_text(rc.kind) == Some(kind_name(c.kind))
    &&& opt_text(rc.topic) == match c.topic {
        Some(t) => Some(t@),
        None => None,
    }
    &&& rc.nsfw == Some(c.nsfw)
    &&& rc.slowmode == Some(
        match c.rate_limit {
            Some(x) => x as u64,
            None => 0,
        },
    )
    &&& rc.bitrate == match c.bitrate {
        Some(x) => Some(x as u64),
        None => None,
    }
    &&& rc.user_limit == match c.user_limit {
        Some(x) => Some(x as u64),
        None => None,
    }
    &&& overwrites_read(rc.overwrites@, overwrites_doc(c.overwrites@))
}

proof fn lemma_channel_read(rc: ChannelRecord, c: ChannelData)
    requires
        channel_read(rc, channel_doc(c)),
    ensures
        channel_back(rc, c),
{
    let es = seq![
        ("name"@, JsonV::Str(c.name@)),
        ("type"@, JsonV::Str(kind_name(c.kind))),
        ("topic"@, opt_text_doc(c.topic)),
        ("nsfw"@, JsonV::Bool(c.nsfw)),
        ("slowmode"@, JsonV::UInt(
            match c.rate_limit {
                Some(x) => x as u64,
                None => 0,
            },
        )),
        ("position"@, JsonV::UInt(c.position as u64)),
        ("bitrate"@, opt_u32_doc(c.bitrate)),
        ("user_limit"@, opt_u32_doc(c.user_limit)),
        ("permission_overwrites"@, overwrites_doc(c.overwrites@)),
    ];
    assert(channel_doc(c) == JsonV::Object(es));
    reveal_strlit("name");
    reveal_strlit("type");
    reveal_strlit("topic");
    reveal_strlit("nsfw");
    reveal_strlit("slowmode");
    reveal_strlit("position");
    reveal_strlit("bitrate");
    reveal_strlit("user_limit");
    reveal_strlit("permission_overwrites");
    assert(es[0].0 == "name"@ && es[1].0 == "type"@ && es[2].0 == "topic"@ && es[3].0 == "nsfw"@ && es[4].0 == "slowmode"@ && es[5].0 == "position"@ && es[6].0 == "bitrate"@ && es[7].0 == "user_limit"@ && es[8].0 == "permission_overwrites"@);
    assert("name"@[0] != "type"@[0]);
    assert("name"@.len() != "topic"@.len());
    assert("type"@.len() != "topic"@.len());
    assert("name"@[1] != "nsfw"@[1]);
    assert("type"@[0] != "nsfw"@[0]);
    assert("topic"@.len() != "nsfw"@.len());
    assert("name"@.len() != "slowmode"@.len());
    assert("type"@.len() != "slowmode"@.len());
    assert("topic"@.len() != "slowmode"@.len());
    assert("nsfw"@.len() != "slowmode"@.len());
    assert("name"@.len() != "position"@.len());
    assert("type"@.len() != "position"@.len());
    assert("topic"@.len() != "position"@.len());
    assert("nsfw"@.len() != "position"@.len());
    assert("slowmode"@[0] != "position"@[0]);
    assert("name"@.len() != "bitrate"@.len());
    assert("type"@.len() != "bitrate"@.len());
    assert("topic"@.len() != "bitrate"@.len());
    assert("nsfw"@.len() != "bitrate"@.len());
    assert("slowmode"@.len() != "bitrate"@.len());
    assert("position"@.len() != "bitrate"@.len());
    assert("name"@.len() != "user_limit"@.len());
    assert("type"@.len() != "user_limit"@.len());
    assert("topic"@.len() != "user_limit"@.len());
    assert("nsfw"@.len() != "user_limit"@.len());
    assert("slowmode"@.len() != "user_limit"@.len());
    assert("position"@.len() != "user_limit"@.len());
    assert("bitrate"@.len() != "user_limit"@.len());
    assert("name"@.len() != "permission_overwrites"@.len());
    assert("type"@.len() != "permission_overwrites"@.len());
    assert("topic"@.len() != "permission_overwrites"@.len());
    assert("nsfw"@.len() != "permission_overwrites"@.len());
    assert("slowmode"@.len() != "permission_overwrites"@.len());
    assert("position"@.len() != "permission_overwrites"@.len());
    assert("bitrate"@.len() != "permission_overwrites"@.len());
    assert("user_limit"@.len() != "permission_overwrites"@.len());
    lemma_lookup_at(es, 0);
    lemma_lookup_at(es, 1);
    lemma_lookup_at(es, 2);
    lemma_lookup_at(es, 3);
    lemma_lookup_at(es, 4);
    lemma_lookup_at(es, 5);
    lemma_lookup_at(es, 6);
    lemma_lookup_at(es, 7);
    lemma_lookup_at(es, 8);
}

proof fn lemma_channels_read(rs: Seq<ChannelRecord>, cs: Seq<ChannelData>)
    requires
        channels_read(rs, channels_doc(cs)),
    ensures
        rs.len() == cs.len(),
        forall|i: int| 0 <= i < rs.len() ==> channel_back(#[trigger] rs[i], cs[i]),
{
    assert forall|i: int| 0 <= i < rs.len() implies channel_back(#[trigger] rs[i], cs[i]) by {
        assert(channel_read(rs[i], items(channels_doc(cs))[i]));
        lemma_channel_read(rs[i], cs[i]);
    }
}

/// A category read back holds what was saved of it.
pub open spec fn category_back(rc: CategoryRecord, c: CategoryData) -> bool {
    &&& opt_text(rc.name) == Some(c.name@)
    &&& overwrites_read(rc.overwrites@, overwrites_doc(c.overwrites@))
    &&& rc.channels.len() == c.channels.len()
    &&& forall|i: int|
        0 <= i < rc.channels.len() ==> channel_back(#[trigger] rc.channels@[i], c.channels@[i])
}

proof fn lemma_category_read(rc: CategoryRecord, c: CategoryData)
    requires
        category_read(rc, category_doc(c)),
    ensures
        category_back(rc, c),
{
    let es = seq![
        ("name"@, JsonV::Str(c.name@)),
        ("position"@, JsonV::UInt(c.position as u64)),
        ("permission_overwrites"@, overwrites_doc(c.overwrites@)),
        ("channels"@, channels_doc(c.channels@)),
    ];
    assert(category_doc(c) == JsonV::Object(es));
    reveal_strlit("name");
    reveal_strlit("position");
    reveal_strlit("permission_overwrites");
    reveal_strlit("channels");
    assert(es[0].0 == "name"@ && es[1].0 == "position"@ && es[2].0 == "permission_overwrites"@ && es[3].0 == "channels"@);
    assert("name"@.len() != "position"@.len());
    assert("name"@.len() != "permission_overwrites"@.len());
    assert("position"@.len() != "permission_overwrites"@.len());
    assert("name"@.len() != "channels"@.len());
    assert("position"@[0] != "channels"@[0]);
    assert("permission_overwrites"@.len() != "channels"@.len());
    lemma_lookup_at(es, 0);
    lemma_lookup_at(es, 1);
    lemma_lookup_at(es, 2);
    lemma_lookup_at(es, 3);
    lemma_channels_read(rc.channels@, c.channels@);
}

/// Reading back a backup gives back what it saved: the guild's name, its
/// id as the old `@everyone` id, each role (its old id in decimal, name,
/// colour, permissions, flags and position), each category (name,
/// overwrites, channels) and each channel outside a category (name, type,
/// topic, NSFW flag, slow mode, bitrate, user limit and overwrites), in
/// the order saved.
pub proof fn backup_round_trip(b: BackupData, rec: BackupRecord)
    requires
        backup_read(rec, backup_doc(b)),
    ensures
        opt_text(rec.guild_name) == Some(b.guild_name@),
        opt_text(rec.guild_id) == Some(decimal(b.guild_id as nat)),
        opt_text(rec.everyone_role_id) == Some(decimal(b.guild_id as nat)),
        rec.roles.len() == b.roles.len(),
        forall|i: int|
            0 <= i < rec.roles.len() ==> {
                let (old_id, name, colour, permissions, hoist, mentionable) = role_plan_of(
                    #[trigger] rec.roles@[i],
                );
                let d = b.roles@[i];
                &&& old_id == decimal(d.id as nat)
                &&& name == d.name@
                &&& colour == d.colour
                &&& permissions == d.permissions & KNOWN_PERMISSIONS
                &&& hoist == d.hoist
                &&& mentionable == d.mentionable
                &&& rec.roles@[i].position == Some(d.position as i64)
            },
        rec.categories.len() == b.categories.len(),
        forall|i: int|
            0 <= i < rec.categories.len() ==> category_back(
                #[trigger] rec.categories@[i],
                b.categories@[i],
            ),
        rec.channels.len() == b.channels.len(),
        forall|i: int|
            0 <= i < rec.channels.len() ==> channel_back(#[trigger] rec.channels@[i], b.channels@[i]),
{
    let es = seq![
        ("guild_name"@, JsonV::Str(b.guild_name@)),
        ("guild_id"@, JsonV::Str(decimal(b.guild_id as nat))),
        ("everyone_role_id"@, JsonV::Str(decimal(b.guild_id as nat))),
        ("roles"@, JsonV::Array(Seq::new(b.roles.len() as nat, |i: int| role_doc(b.roles@[i])))),
        ("categories"@, JsonV::Array(
            Seq::new(b.categories.len() as nat, |i: int| category_doc(b.categories@[i])),
        )),
        ("channels"@, channels_doc(b.channels@)),
    ];
    assert(backup_doc(b) == JsonV::Object(es));
    reveal_strlit("guild_name");
    reveal_strlit("guild_id");
    reveal_strlit("everyone_role_id");
    reveal_strlit("roles");
    reveal_strlit("categories");
    reveal_strlit("channels");
    assert(es[0].0 == "guild_name"@ && es[1].0 == "guild_id"@ && es[2].0 == "everyone_role_id"@ && es[3].0 == "roles"@ && es[4].0 == "categories"@ && es[5].0 == "channels"@);
    assert("guild_name"@.len() != "guild_id"@.len());
    assert("guild_name"@.len() != "everyone_role_id"@.len());
    assert("guild_id"@.len() != "everyone_role_id"@.len());
    assert("guild_name"@.len() != "roles"@.len());
    assert("guild_id"@.len() != "roles"@.len());
    assert("everyone_role_id"@.len() != "roles"@.len());
    assert("guild_name"@[0] != "categories"@[0]);
    assert("guild_id"@.len() != "categories"@.len());
    assert("everyone_role_id"@.len() != "categories"@.len());
    assert("roles"@.len() != "categories"@.len());
    assert("guild_name"@.len() != "channels"@.len());
    assert("guild_id"@[0] != "channels"@[0]);
    assert("everyone_role_id"@.len() != "channels"@.len());
    assert("roles"@.len() != "channels"@.len());
    assert("categories"@.len() != "channels"@.len());
    lemma_lookup_at(es, 0);
    lemma_lookup_at(es, 1);
    lemma_lookup_at(es, 2);
    lemma_lookup_at(es, 3);
    lemma_lookup_at(es, 4);
    lemma_lookup_at(es, 5);
    let j = backup_doc(b);
    assert forall|i: int| 0 <= i < rec.roles.len() implies {
        let (old_id, name, colour, permissions, hoist, mentionable) = role_plan_of(
            #[trigger] rec.roles@[i],
        );
        let d = b.roles@[i];
        &&& old_id == decimal(d.id as nat)
        &&& name == d.name@
        &&& colour == d.colour
        &&& permissions == d.permissions & KNOWN_PERMISSIONS
        &&& hoist == d.hoist
        &&& mentionable == d.mentionable
        &&& rec.roles@[i].position == Some(d.position as i64)
    } by {
        assert(role_read(rec.roles@[i], items(field(j, "roles"@))[i]));
        lemma_role_read(rec.roles@[i], b.roles@[i]);
    }
    assert forall|i: int| 0 <= i < rec.categories.len() implies category_back(
        #[trigger] rec.categories@[i],
        b.categories@[i],
    ) by {
        assert(category_read(rec.categories@[i], items(field(j, "categories"@))[i]));
        lemma_category_read(rec.categories@[i], b.categories@[i]);
    }
    lemma_channels_read(rec.channels@, b.channels@);
}

/// The kind that a saved kind name recreates is the kind saved, but for a
/// category or another kind, which come back as text channels.
pub open spec fn recreated_kind(k: ChannelKind) -> ChannelKind {
    match k {
        ChannelKind::Category | ChannelKind::Other => ChannelKind::Text,
        _ => k,
    }
}

proof fn lemma_kind_round_trip(k: ChannelKind)
    ensures
        kind_of_name(kind_name(k)) == recreated_kind(k),
{
    reveal_strlit("Voice");
    reveal_strlit("News");
    reveal_strlit("Stage");
    reveal_strlit("Forum");
    reveal_strlit("Text");
    assert("Voice"@.len() != "News"@.len());
    assert("Voice"@[0] != "Stage"@[0]);
    assert("Voice"@[0] != "Forum"@[0]);
    assert("Voice"@.len() != "Text"@.len());
    assert("News"@.len() != "Stage"@.len());
    assert("News"@.len() != "Forum"@.len());
    assert("News"@[0] != "Text"@[0]);
    assert("Stage"@[0] != "Forum"@[0]);
    assert("Stage"@.len() != "Text"@.len());
    assert("Forum"@.len() != "Text"@.len());
}

/// A channel saved in the guild `old` and restored in the guild `new`
/// keeps its name and kind (a category or another kind comes back as a
/// text channel), goes in the category it is given, and gets back its
/// role overwrites, in order, pointing at the new guild's roles as
/// `restored_role_overwrites` says; member overwrites are dropped. A
/// voice or stage channel keeps its positive bitrate and its user limit;
/// any other keeps its non-empty topic, its NSFW flag and its positive
/// slow mode.
pub proof fn restored_channel_matches_saved(
    c: ChannelData,
    rc: ChannelRecord,
    category: Option<u64>,
    roles: Map<Seq<char>, u64>,
    old: u64,
    new: u64,
    p: ChannelPlan,
)
    requires
        channel_back(rc, c),
        channel_plan_ok(rc, category, roles, decimal(old as nat), new, p),
    ensures
        p.name@ == c.name@,
        p.kind == recreated_kind(c.kind),
        p.category == category,
        p.overwrites@ == restored_role_overwrites(c.overwrites@, roles, old, new),
        c.kind == ChannelKind::Voice || c.kind == ChannelKind::Stage ==> {
            &&& p.bitrate == match c.bitrate {
                Some(b) => if b > 0 {
                    Some(b)
                } else {
                    None
                },
                None => None,
            }
            &&& p.user_limit == c.user_limit
            &&& p.topic is None
            &&& p.rate_limit is None
            &&& !p.nsfw
        },
        !(c.kind == ChannelKind::Voice || c.kind == ChannelKind::Stage) ==> {
            &&& (c.topic matches Some(t) && t@.len() > 0) ==> (p.topic is Some && p.topic->0@
                == c.topic->0@)
            &&& !(c.topic matches Some(t) && t@.len() > 0) ==> p.topic is None
            &&& p.nsfw == c.nsfw
            &&& p.rate_limit == match c.rate_limit {
                Some(x) => if x > 0 {
                    Some(x)
                } else {
                    None
                },
                None => None,
            }
            &&& p.bitrate is None
            &&& p.user_limit is None
        },
{
    lemma_kind_round_trip(c.kind);
    overwrites_round_trip(c.overwrites@, rc.overwrites@, roles, old, new);
}

/// Restored overwrites apply only to roles of the new guild: its
/// `@everyone` role, or a role recreated from the backup.
pub proof fn restored_overwrites_use_new_roles(
    os: Seq<OverwriteRecord>,
    roles: Map<Seq<char>, u64>,
    everyone: Seq<char>,
    guild: u64,
)
    ensures
        forall|i: int|
            0 <= i < restored_overwrites(os, roles, everyone, guild).len() ==> {
                let t = (#[trigger] restored_overwrites(os, roles, everyone, guild)[i]).target;
                t matches Target::Role(r) && (r == guild || exists|k: Seq<char>|
                    roles.dom().contains(k) && roles[k] == r)
            },
    decreases os.len(),
{
    if os.len() > 0 {
        restored_overwrites_use_new_roles(os.drop_last(), roles, everyone, guild);
        let prev = restored_overwrites(os.drop_last(), roles, everyone, guild);
        let all = restored_overwrites(os, roles, everyone, guild);
        assert forall|i: int| 0 <= i < all.len() implies {
            let t = (#[trigger] all[i]).target;
            t matches Target::Role(r) && (r == guild || exists|k: Seq<char>|
                roles.dom().contains(k) && roles[k] == r)
        } by {
            if i < prev.len() {
                assert(all[i] == prev[i]);
            } else {
                let o = os.last();
                let id = o.id->0;
                if !(everyone.len() > 0 && id@ == everyone) {
                    assert(roles.dom().contains(id@));
                }
            }
        }
    }
}

} // verus!
