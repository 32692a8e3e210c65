use vstd::prelude::*;

use crate::metadata::{
    opt_text, parse_folder_metadata_from_media_path, parse_nfo_metadata_for_media_path,
    spec_folder_metadata, spec_nfo_metadata, year_nat,
};
use crate::naming::{
    extract_episode_signature_from_media_path, normalize_duplicate_key_chars,
    normalize_filename_stem_chars, spec_duplicate_key, spec_episode_signature,
    spec_normalize_filename_stem,
};
use crate::order::{chars_lt, lemma_text_lt_asymmetric, lemma_text_lt_total, lemma_text_lt_transitive, text_lt};
use crate::paths::{file_stem_of, path_file_stem};
use crate::text::{
    append_chars, append_str, ascii_lower, chars_eq, chars_of, copy_string, decimal, decimal_chars,
    lower_chars, string_from_chars,
};

verus! {

// ---------------------------------------------------------------------------
// Duplicate keys
// ---------------------------------------------------------------------------

/// `build_semantic_duplicate_key`: "title|year|provider", lower-cased, with
/// "none" and "provider:none" for what is unknown.
pub open spec fn spec_semantic_key(title: Seq<char>, year: Option<nat>, provider: Option<Seq<char>>) -> Seq<char> {
    ascii_lower(spec_normalize_filename_stem(title)) + seq!['|'] + match year {
        Some(y) => decimal(y),
        None => "none"@,
    } + seq!['|'] + match provider {
        Some(p) => ascii_lower(p),
        None => "provider:none"@,
    }
}

pub fn build_semantic_duplicate_key(title: &str, year: Option<u16>, provider_id: &Option<String>) -> (r: String)
    ensures
        r@ == spec_semantic_key(title@, year_nat(year), opt_text(*provider_id)),
{
    let mut out = lower_chars(&normalize_filename_stem_chars(&chars_of(title)));
    out.push('|');
    match year {
        Some(y) => {
            let d = decimal_chars(y as u64);
            append_chars(&mut out, &d);
        },
        None => append_str(&mut out, "none"),
    }
    out.push('|');
    match provider_id {
        Some(p) => {
            let l = lower_chars(&chars_of(p.as_str()));
            append_chars(&mut out, &l);
        },
        None => append_str(&mut out, "provider:none"),
    }
    string_from_chars(&out)
}

pub open spec fn stem_or_unknown(media_path: Seq<char>) -> Seq<char> {
    match path_file_stem(media_path) {
        Some(s) => s,
        None => "unknown-item"@,
    }
}

/// `duplicate_key_for_media_path`: the NFO's metadata, else the folder
/// pattern's, else the file stem's duplicate key.
pub open spec fn spec_duplicate_key_for(media_path: Seq<char>, nfo_contents: Seq<Option<String>>) -> Seq<char> {
    match spec_nfo_metadata(nfo_contents) {
        Some(v) => spec_semantic_key(v.0, v.1, v.2),
        None => match spec_folder_metadata(media_path) {
            Some(v) => spec_semantic_key(v.0, v.1, v.2),
            None => spec_duplicate_key(stem_or_unknown(media_path)),
        },
    }
}

fn stem_or_unknown_chars(media_path: &str) -> (r: Vec<char>)
    ensures
        r@ == stem_or_unknown(media_path@),
{
    match file_stem_of(&chars_of(media_path)) {
        Some(s) => s,
        None => chars_of("unknown-item"),
    }
}

/// `duplicate_key_for_media_path`, given the text of each candidate NFO.
pub fn duplicate_key_for_media_path(media_path: &str, nfo_contents: &Vec<Option<String>>) -> (r: String)
    ensures
        r@ == spec_duplicate_key_for(media_path@, nfo_contents@),
{
    if let Some(p) = parse_nfo_metadata_for_media_path(nfo_contents) {
        return build_semantic_duplicate_key(p.title.as_str(), p.year, &p.provider_id);
    }
    if let Some(p) = parse_folder_metadata_from_media_path(media_path) {
        return build_semantic_duplicate_key(p.title.as_str(), p.year, &p.provider_id);
    }
    let stem = stem_or_unknown_chars(media_path);
    string_from_chars(&normalize_duplicate_key_chars(&stem))
}

// ---------------------------------------------------------------------------
// Duplicate groups
// ---------------------------------------------------------------------------

/// A media path with its duplicate key.
pub struct KeyedPath {
    pub media_path: String,
    pub key: String,
}

/// The media paths that share one key.
#[derive(Debug)]
pub struct DuplicateGroup {
    pub key: String,
    pub media_paths: Vec<String>,
}

/// Media paths grouped by duplicate key, groups in the order their keys first
/// appear.
#[derive(Debug)]
pub struct DuplicateGroups {
    pub groups: Vec<DuplicateGroup>,
}

/// The distinct keys, in order of first appearance.
pub open spec fn group_keys(items: Seq<KeyedPath>) -> Seq<Seq<char>>
    decreases items.len(),
{
    if items.len() == 0 {
        seq![]
    } else {
        let r = group_keys(items.drop_last());
        if r.contains(items.last().key@) {
            r
        } else {
            r.push(items.last().key@)
        }
    }
}

/// The media paths with key `k`, in order.
pub open spec fn group_members(items: Seq<KeyedPath>, k: Seq<char>) -> Seq<Seq<char>>
    decreases items.len(),
{
    if items.len() == 0 {
        seq![]
    } else {
        let r = group_members(items.drop_last(), k);
        if items.last().key@ == k {
            r.push(items.last().media_path@)
        } else {
            r
        }
    }
}

pub open spec fn texts(v: Seq<String>) -> Seq<Seq<char>> {
    v.map_values(|s: String| s@)
}

impl DuplicateGroups {
    /// The groups describe `items`: one per distinct key, in order, each with
    /// the media paths of that key.
    pub open spec fn describes(&self, items: Seq<KeyedPath>) -> bool {
        &&& self.groups@.len() == group_keys(items).len()
        &&& forall|g: int|
            0 <= g < self.groups@.len() ==> {
                &&& (#[trigger] self.groups@[g]).key@ == group_keys(items)[g]
                &&& texts(self.groups@[g].media_paths@) == group_members(items, group_keys(items)[g])
            }
    }

    /// The members of the group with key `key`, if there is one.
    pub fn get(&self, key: &str) -> (r: Option<&Vec<String>>)
        ensures
            match r {
                Some(v) => exists|g: int|
                    0 <= g < self.groups@.len() && (#[trigger] self.groups@[g]).key@ == key@
                        && self.groups@[g].media_paths == *v,
                None => forall|g: int|
                    0 <= g < self.groups@.len() ==> (#[trigger] self.groups@[g]).key@ != key@,
            },
    {
        let k = chars_of(key);
        let mut i: usize = 0;
        while i < self.groups.len()
            invariant
                i <= self.groups@.len(),
                k@ == key@,
                forall|g: int| 0 <= g < i ==> (#[trigger] self.groups@[g]).key@ != key@,
            decreases self.groups.len() - i,
        {
            if chars_eq(&chars_of(self.groups[i].key.as_str()), &k) {
                return Some(&self.groups[i].media_paths);
            }
            i += 1;
        }
        None
    }
}

proof fn lemma_keys_index(items: Seq<KeyedPath>, k: Seq<char>)
    ensures
        group_keys(items).contains(k) <==> group_members(items, k).len() > 0,
    decreases items.len(),
{
    if items.len() > 0 {
        let d = items.drop_last();
        let r = group_keys(d);
        let x = items.last().key@;
        lemma_keys_index(d, k);
        if !r.contains(x) {
            assert(r.push(x).contains(k) <==> (r.contains(k) || x == k)) by {
                if r.push(x).contains(k) {
                    let i = choose|i: int| 0 <= i < r.push(x).len() && r.push(x)[i] == k;
                    if i < r.len() {
                        assert(r[i] == k);
                    }
                }
                if r.contains(k) {
                    let i = choose|i: int| 0 <= i < r.len() && r[i] == k;
                    assert(r.push(x)[i] == k);
                }
                if x == k {
                    assert(r.push(x)[r.len() as int] == x);
                }
            }
        }
    }
}

proof fn lemma_keys_distinct(items: Seq<KeyedPath>)
    ensures
        forall|a: int, b: int|
            0 <= a < b < group_keys(items).len() ==> group_keys(items)[a] != group_keys(items)[b],
    decreases items.len(),
{
    if items.len() > 0 {
        let d = items.drop_last();
        let r = group_keys(d);
        let x = items.last().key@;
        lemma_keys_distinct(d);
        if !r.contains(x) {
            assert forall|a: int, b: int| 0 <= a < b < r.push(x).len() implies r.push(x)[a] != r.push(
                x,
            )[b] by {
                if b == r.len() {
                    assert(r.push(x)[a] == r[a]);
                    if r[a] == x {
                        assert(r.contains(x));
                    }
                } else {
                    assert(r.push(x)[a] == r[a] && r.push(x)[b] == r[b]);
                }
            }
        }
    }
}

/// `build_duplicate_groups` over the items' keys (see
/// `duplicate_key_for_media_path`).
pub fn build_duplicate_groups(items: &Vec<KeyedPath>) -> (r: DuplicateGroups)
    ensures
        r.describes(items@),
        r.wf(),
{
    let mut groups: Vec<DuplicateGroup> = Vec::new();
    let mut i: usize = 0;
    while i < items.len()
        invariant
            i <= items.len(),
            (DuplicateGroups { groups }).describes(items@.take(i as int)),
        decreases items.len() - i,
    {
        let ghost pre = items@.take(i as int);
        let ghost post = items@.take(i + 1);
        assert(post.drop_last() =~= pre);
        assert(post.last() == items@[i as int]);
        let key = chars_of(items[i].key.as_str());
        let mut j: usize = 0;
        while j < groups.len()
            invariant
                j <= groups@.len(),
                key@ == items@[i as int].key@,
                forall|g: int| 0 <= g < j ==> (#[trigger] groups@[g]).key@ != key@,
            ensures
                j <= groups@.len(),
                forall|g: int| 0 <= g < j ==> (#[trigger] groups@[g]).key@ != key@,
                j < groups@.len() ==> groups@[j as int].key@ == key@,
            decreases groups.len() - j,
        {
            if chars_eq(&chars_of(groups[j].key.as_str()), &key) {
                break;
            }
            j += 1;
        }
        proof {
            lemma_keys_distinct(pre);
        }
        if j < groups.len() {
            let mut g = groups.remove(j);
            let ghost before = g.media_paths@;
            g.media_paths.push(copy_string(&items[i].media_path));
            groups.insert(j, g);
            assert(group_keys(post) =~= group_keys(pre)) by {
                assert(group_keys(pre)[j as int] == key@);
            }
            assert forall|h: int| 0 <= h < groups@.len() implies {
                &&& (#[trigger] groups@[h]).key@ == group_keys(post)[h]
                &&& texts(groups@[h].media_paths@) == group_members(post, group_keys(post)[h])
            } by {
                if h == j {
                    assert(texts(groups@[h].media_paths@) =~= texts(before).push(
                        items@[i as int].media_path@,
                    ));
                } else {
                    assert(group_keys(pre)[h] != group_keys(pre)[j as int]);
                }
            }
        } else {
            assert(!group_keys(pre).contains(key@)) by {
                if group_keys(pre).contains(key@) {
                    let h = choose|h: int| 0 <= h < group_keys(pre).len() && group_keys(pre)[h] == key@;
                    assert(groups@[h].key@ == key@);
                }
            }
            let mut members: Vec<String> = Vec::new();
            members.push(copy_string(&items[i].media_path));
            groups.push(DuplicateGroup { key: copy_string(&items[i].key), media_paths: members });
            proof {
                lemma_keys_index(pre, key@);
            }
            assert forall|h: int| 0 <= h < groups@.len() implies {
                &&& (#[trigger] groups@[h]).key@ == group_keys(post)[h]
                &&& texts(groups@[h].media_paths@) == group_members(post, group_keys(post)[h])
            } by {
                if h == groups@.len() - 1 {
                    assert(group_members(pre, key@).len() == 0);
                    assert(texts(groups@[h].media_paths@) =~= seq![items@[i as int].media_path@]);
                    assert(group_members(post, key@) =~= group_members(pre, key@).push(
                        items@[i as int].media_path@,
                    ));
                } else {
                    assert(group_keys(pre)[h] != key@);
                }
            }
        }
        i += 1;
    }
    assert(items@.take(items.len() as int) =~= items@);
    let r = DuplicateGroups { groups };
    proof {
        lemma_keys_distinct(items@);
        assert forall|g: int| 0 <= g < r.groups@.len() implies (#[trigger] r.groups@[g]).media_paths@.len() > 0 by {
            let k = group_keys(items@)[g];
            assert(group_keys(items@).contains(k));
            lemma_keys_index(items@, k);
            assert(texts(r.groups@[g].media_paths@).len() == r.groups@[g].media_paths@.len());
        }
    }
    r
}

/// `m` is the least of the texts in `v` (the first after sorting).
pub open spec fn is_least(v: Seq<Seq<char>>, m: Seq<char>) -> bool {
    v.contains(m) && forall|j: int| 0 <= j < v.len() ==> !text_lt(#[trigger] v[j], m)
}

proof fn lemma_least_unique(v: Seq<Seq<char>>, a: Seq<char>, b: Seq<char>)
    requires
        is_least(v, a),
        is_least(v, b),
    ensures
        a == b,
{
    let i = choose|i: int| 0 <= i < v.len() && v[i] == a;
    let j = choose|j: int| 0 <= j < v.len() && v[j] == b;
    assert(!text_lt(v[i], b));
    assert(!text_lt(v[j], a));
    lemma_text_lt_total(a, b);
}

/// `duplicate_uid_for_item`: the item's own normalised stem and 1 when its
/// key has no group; else the normalised stem of the group's least media
/// path, shared by all its members, and the group's size.
pub open spec fn spec_duplicate_uid(media_path: Seq<char>, group: Option<Seq<Seq<char>>>) -> (Seq<char>, nat) {
    match group {
        None => (spec_normalize_filename_stem(stem_or_unknown(media_path)), 1),
        Some(g) => {
            let m = choose|m: Seq<char>| is_least(g, m);
            (spec_normalize_filename_stem(stem_or_unknown(m)), g.len())
        },
    }
}

proof fn lemma_least_exists(v: Seq<Seq<char>>)
    requires
        v.len() > 0,
    ensures
        exists|m: Seq<char>| is_least(v, m),
    decreases v.len(),
{
    if v.len() == 1 {
        crate::order::lemma_text_lt_irreflexive(v[0]);
        assert(is_least(v, v[0]));
    } else {
        let rest = v.drop_last();
        lemma_least_exists(rest);
        let m = choose|m: Seq<char>| is_least(rest, m);
        let last = v.last();
        let k = choose|k: int| 0 <= k < rest.len() && rest[k] == m;
        assert(v[k] == m);
        if text_lt(last, m) {
            assert forall|j: int| 0 <= j < v.len() implies !text_lt(#[trigger] v[j], last) by {
                if j < v.len() - 1 {
                    assert(v[j] == rest[j]);
                    if text_lt(v[j], last) {
                        lemma_text_lt_transitive(v[j], last, m);
                    }
                } else {
                    crate::order::lemma_text_lt_irreflexive(last);
                }
            }
            assert(v[v.len() - 1] == last);
            assert(is_least(v, last));
        } else {
            assert forall|j: int| 0 <= j < v.len() implies !text_lt(#[trigger] v[j], m) by {
                if j < v.len() - 1 {
                    assert(v[j] == rest[j]);
                }
            }
            assert(is_least(v, m));
        }
    }
}

/// All members of a duplicate group are proposed one item uid, the normalised
/// stem of one of the group's media paths (its least one).
pub proof fn lemma_group_members_share_uid(a: Seq<char>, b: Seq<char>, group: Seq<Seq<char>>)
    requires
        group.len() > 0,
    ensures
        spec_duplicate_uid(a, Some(group)) == spec_duplicate_uid(b, Some(group)),
        exists|m: Seq<char>|
            group.contains(m) && spec_duplicate_uid(a, Some(group)).0 == spec_normalize_filename_stem(
                stem_or_unknown(m),
            ),
        spec_duplicate_uid(a, Some(group)).1 == group.len(),
{
    lemma_least_exists(group);
    let m = choose|m: Seq<char>| is_least(group, m);
    assert(group.contains(m));
}

fn least_path(v: &Vec<String>) -> (r: usize)
    requires
        v@.len() > 0,
    ensures
        r < v@.len(),
        is_least(texts(v@), v@[r as int]@),
{
    let mut best: usize = 0;
    let mut i: usize = 1;
    assert(texts(v@)[0] == v@[0]@);
    proof {
        crate::order::lemma_text_lt_irreflexive(v@[0]@);
    }
    while i < v.len()
        invariant
            1 <= i <= v@.len(),
            best < i,
            forall|j: int| 0 <= j < i ==> !text_lt(#[trigger] texts(v@)[j], v@[best as int]@),
        decreases v.len() - i,
    {
        let a = chars_of(v[i].as_str());
        let b = chars_of(v[best].as_str());
        if chars_lt(&a, &b) {
            proof {
                assert forall|j: int| 0 <= j < i + 1 implies !text_lt(#[trigger] texts(v@)[j], v@[i as int]@) by {
                    if j < i {
                        if text_lt(texts(v@)[j], v@[i as int]@) {
                            lemma_text_lt_transitive(texts(v@)[j], v@[i as int]@, v@[best as int]@);
                        }
                    } else {
                        crate::order::lemma_text_lt_irreflexive(v@[i as int]@);
                    }
                }
            }
            best = i;
        } else {
            assert(texts(v@)[i as int] == v@[i as int]@);
        }
        i += 1;
    }
    assert(texts(v@)[best as int] == v@[best as int]@);
    best
}

/// `duplicate_uid_for_item`, given the item's key and the groups.
pub fn duplicate_uid_for_item(media_path: &str, key: &str, groups: &DuplicateGroups) -> (r: (String, usize))
    requires
        groups.wf(),
    ensures
        (r.0@, r.1 as nat) == spec_duplicate_uid(
            media_path@,
            match groups.get_spec(key@) {
                Some(v) => Some(texts(v)),
                None => None,
            },
        ),
{
    match groups.get(key) {
        None => {
            let stem = stem_or_unknown_chars(media_path);
            (string_from_chars(&normalize_filename_stem_chars(&stem)), 1)
        },
        Some(g) => {
            proof {
                let gi = choose|gi: int|
                    0 <= gi < groups.groups@.len() && (#[trigger] groups.groups@[gi]).key@ == key@
                        && groups.groups@[gi].media_paths == *g;
                let gj = choose|gj: int|
                    0 <= gj < groups.groups@.len() && (#[trigger] groups.groups@[gj]).key@ == key@;
                if gi != gj {
                    if gi < gj {
                        assert(groups.groups@[gi].key@ != groups.groups@[gj].key@);
                    } else {
                        assert(groups.groups@[gj].key@ != groups.groups@[gi].key@);
                    }
                }
                assert(groups.groups@[gi].media_paths@.len() > 0);
            }
            let k = least_path(g);
            proof {
                let m = choose|m: Seq<char>| is_least(texts(g@), m);
                lemma_least_unique(texts(g@), m, g@[k as int]@);
            }
            let stem = stem_or_unknown_chars(g[k].as_str());
            (string_from_chars(&normalize_filename_stem_chars(&stem)), g.len())
        },
    }
}

impl DuplicateGroups {
    /// Keys are distinct and every group has a member.
    pub open spec fn wf(&self) -> bool {
        &&& forall|a: int, b: int|
            0 <= a < b < self.groups@.len() ==> (#[trigger] self.groups@[a]).key@ != (
            #[trigger] self.groups@[b]).key@
        &&& forall|g: int| 0 <= g < self.groups@.len() ==> (#[trigger] self.groups@[g]).media_paths@.len() > 0
    }

    /// The members of the group with key `key`.
    pub open spec fn get_spec(&self, key: Seq<char>) -> Option<Seq<String>> {
        if exists|g: int| 0 <= g < self.groups@.len() && (#[trigger] self.groups@[g]).key@ == key {
            let g = choose|g: int| 0 <= g < self.groups@.len() && (#[trigger] self.groups@[g]).key@ == key;
            Some(self.groups@[g].media_paths@)
        } else {
            None
        }
    }
}

// ---------------------------------------------------------------------------
// Semantic duplicates
// ---------------------------------------------------------------------------

/// An indexed media file that shares its title, year and provider id with others.
#[derive(Debug)]
pub struct SemanticDuplicateItem {
    pub media_path: String,
    pub file_size: u64,
    pub content_hash: Option<String>,
    pub video_codec: Option<String>,
    pub audio_codec: Option<String>,
    pub width: Option<i64>,
    pub height: Option<i64>,
}

pub open spec fn signature_of(item: SemanticDuplicateItem) -> Option<Seq<char>> {
    spec_episode_signature(item.media_path@)
}

/// The distinct episode signatures, in order of first appearance.
pub open spec fn episode_keys(items: Seq<SemanticDuplicateItem>) -> Seq<Seq<char>>
    decreases items.len(),
{
    if items.len() == 0 {
        seq![]
    } else {
        let r = episode_keys(items.drop_last());
        match signature_of(items.last()) {
            Some(k) => if r.contains(k) {
                r
            } else {
                r.push(k)
            },
            None => r,
        }
    }
}

/// The items of one episode, in order.
pub open spec fn episode_items(items: Seq<SemanticDuplicateItem>, k: Seq<char>) -> Seq<SemanticDuplicateItem>
    decreases items.len(),
{
    if items.len() == 0 {
        seq![]
    } else {
        let r = episode_items(items.drop_last(), k);
        if signature_of(items.last()) == Some(k) {
            r.push(items.last())
        } else {
            r
        }
    }
}

/// The items that carry no episode signature, in order.
pub open spec fn plain_items(items: Seq<SemanticDuplicateItem>) -> Seq<SemanticDuplicateItem>
    decreases items.len(),
{
    if items.len() == 0 {
        seq![]
    } else {
        let r = plain_items(items.drop_last());
        if signature_of(items.last()) is None {
            r.push(items.last())
        } else {
            r
        }
    }
}

/// The episode buckets, in order of first appearance, that are large enough.
pub open spec fn large_buckets(
    items: Seq<SemanticDuplicateItem>,
    keys: Seq<Seq<char>>,
    min: nat,
) -> Seq<Seq<SemanticDuplicateItem>>
    decreases keys.len(),
{
    if keys.len() == 0 {
        seq![]
    } else {
        let r = large_buckets(items, keys.drop_last(), min);
        let b = episode_items(items, keys.last());
        if b.len() >= min {
            r.push(b)
        } else {
            r
        }
    }
}

/// `partition_semantic_group_items`: the items split by episode signature,
/// buckets smaller than `min` dropped, the items without a signature last
/// when there are enough of them.
pub open spec fn spec_partition(items: Seq<SemanticDuplicateItem>, min: nat) -> Seq<Seq<SemanticDuplicateItem>> {
    let buckets = large_buckets(items, episode_keys(items), min);
    let plain = plain_items(items);
    if plain.len() >= min {
        buckets.push(plain)
    } else {
        buckets
    }
}

/// One bucket in the making: its signature and items.
struct Bucket {
    key: Vec<char>,
    items: Vec<SemanticDuplicateItem>,
}

proof fn lemma_episode_keys_distinct(items: Seq<SemanticDuplicateItem>)
    ensures
        forall|a: int, b: int|
            0 <= a < b < episode_keys(items).len() ==> episode_keys(items)[a] != episode_keys(items)[b],
    decreases items.len(),
{
    if items.len() > 0 {
        let r = episode_keys(items.drop_last());
        lemma_episode_keys_distinct(items.drop_last());
        if let Some(x) = signature_of(items.last()) {
            if !r.contains(x) {
                assert forall|a: int, b: int| 0 <= a < b < r.push(x).len() implies r.push(x)[a] != r.push(
                    x,
                )[b] by {
                    if b == r.len() {
                        assert(r.push(x)[a] == r[a]);
                        if r[a] == x {
                            assert(r.contains(x));
                        }
                    } else {
                        assert(r.push(x)[a] == r[a] && r.push(x)[b] == r[b]);
                    }
                }
            }
        }
    }
}

proof fn lemma_episode_keys_members(items: Seq<SemanticDuplicateItem>, k: Seq<char>)
    ensures
        episode_keys(items).contains(k) <==> episode_items(items, k).len() > 0,
    decreases items.len(),
{
    if items.len() > 0 {
        let d = items.drop_last();
        let r = episode_keys(d);
        lemma_episode_keys_members(d, k);
        if let Some(x) = signature_of(items.last()) {
            if !r.contains(x) {
                assert(r.push(x).contains(k) <==> (r.contains(k) || x == k)) by {
                    if r.push(x).contains(k) {
                        let i = choose|i: int| 0 <= i < r.push(x).len() && r.push(x)[i] == k;
                        if i < r.len() {
                            assert(r[i] == k);
                        }
                    }
                    if r.contains(k) {
                        let i = choose|i: int| 0 <= i < r.len() && r[i] == k;
                        assert(r.push(x)[i] == k);
                    }
                    if x == k {
                        assert(r.push(x)[r.len() as int] == x);
                    }
                }
            }
        }
    }
}

fn take_items(items: Vec<SemanticDuplicateItem>) -> (r: Vec<SemanticDuplicateItem>)
    ensures
        forall|k: int| 0 <= k < r@.len() ==> #[trigger] r@[k] == items@[items@.len() - 1 - k],
        r@.len() == items@.len(),
{
    let mut rest = items;
    let ghost orig = rest@;
    let n = rest.len();
    let mut stack: Vec<SemanticDuplicateItem> = Vec::new();
    while rest.len() > 0
        invariant
            stack@.len() + rest@.len() == orig.len(),
            orig.len() == n,
            rest@ == orig.take(rest@.len() as int),
            forall|k: int| 0 <= k < stack@.len() ==> #[trigger] stack@[k] == orig[orig.len() - 1 - k],
        decreases rest.len(),
    {
        let x = rest.pop().unwrap();
        stack.push(x);
        assert(rest@ =~= orig.take(rest@.len() as int));
    }
    stack
}

/// `partition_semantic_group_items`.
pub fn partition_semantic_group_items(items: Vec<SemanticDuplicateItem>, min_group_size: usize) -> (r: Vec<Vec<SemanticDuplicateItem>>)
    ensures
        r@.map_values(|b: Vec<SemanticDuplicateItem>| b@) == spec_partition(items@, min_group_size as nat),
{
    let ghost orig = items@;
    let mut stack = take_items(items);
    let total = stack.len();
    let mut buckets: Vec<Bucket> = Vec::new();
    let mut plain: Vec<SemanticDuplicateItem> = Vec::new();
    let mut taken: usize = 0;
    while stack.len() > 0
        invariant
            taken + stack@.len() == orig.len(),
            orig.len() == total,
            forall|k: int| 0 <= k < stack@.len() ==> #[trigger] stack@[k] == orig[orig.len() - 1 - k],
            buckets@.len() == episode_keys(orig.take(taken as int)).len(),
            forall|g: int|
                0 <= g < buckets@.len() ==> {
                    &&& (#[trigger] buckets@[g]).key@ == episode_keys(orig.take(taken as int))[g]
                    &&& buckets@[g].items@ == episode_items(
                        orig.take(taken as int),
                        episode_keys(orig.take(taken as int))[g],
                    )
                },
            plain@ == plain_items(orig.take(taken as int)),
        decreases stack.len(),
    {
        let x = stack.pop().unwrap();
        let ghost pre = orig.take(taken as int);
        let ghost post = orig.take(taken + 1);
        assert(x == orig[taken as int]);
        assert(post.drop_last() =~= pre);
        assert(post.last() == x);
        proof {
            lemma_episode_keys_distinct(pre);
        }
        match extract_episode_signature_from_media_path(x.media_path.as_str()) {
            None => {
                plain.push(x);
                assert forall|g: int| 0 <= g < buckets@.len() implies {
                    &&& (#[trigger] buckets@[g]).key@ == episode_keys(post)[g]
                    &&& buckets@[g].items@ == episode_items(post, episode_keys(post)[g])
                } by {}
            },
            Some(sig) => {
                let key = chars_of(sig.as_str());
                let mut j: usize = 0;
                while j < buckets.len()
                    invariant
                        j <= buckets@.len(),
                        forall|g: int| 0 <= g < j ==> (#[trigger] buckets@[g]).key@ != key@,
                    ensures
                        j <= buckets@.len(),
                        forall|g: int| 0 <= g < j ==> (#[trigger] buckets@[g]).key@ != key@,
                        j < buckets@.len() ==> buckets@[j as int].key@ == key@,
                    decreases buckets.len() - j,
                {
                    if chars_eq(&buckets[j].key, &key) {
                        break;
                    }
                    j += 1;
                }
                if j < buckets.len() {
                    let mut b = buckets.remove(j);
                    let ghost before = b.items@;
                    b.items.push(x);
                    buckets.insert(j, b);
                    assert(episode_keys(post) =~= episode_keys(pre)) by {
                        assert(episode_keys(pre)[j as int] == key@);
                    }
                    assert forall|g: int| 0 <= g < buckets@.len() implies {
                        &&& (#[trigger] buckets@[g]).key@ == episode_keys(post)[g]
                        &&& buckets@[g].items@ == episode_items(post, episode_keys(post)[g])
                    } by {
                        if g != j {
                            assert(episode_keys(pre)[g] != episode_keys(pre)[j as int]);
                        }
                    }
                } else {
                    assert(!episode_keys(pre).contains(key@)) by {
                        if episode_keys(pre).contains(key@) {
                            let h = choose|h: int|
                                0 <= h < episode_keys(pre).len() && episode_keys(pre)[h] == key@;
                            assert(buckets@[h].key@ == key@);
                        }
                    }
                    proof {
                        lemma_episode_keys_members(pre, key@);
                    }
                    let mut v: Vec<SemanticDuplicateItem> = Vec::new();
                    v.push(x);
                    buckets.push(Bucket { key, items: v });
                    assert forall|g: int| 0 <= g < buckets@.len() implies {
                        &&& (#[trigger] buckets@[g]).key@ == episode_keys(post)[g]
                        &&& buckets@[g].items@ == episode_items(post, episode_keys(post)[g])
                    } by {
                        if g == buckets@.len() - 1 {
                            assert(episode_items(pre, key@).len() == 0);
                            assert(episode_items(pre, key@) =~= Seq::<SemanticDuplicateItem>::empty());
                            assert(buckets@[g].items@ =~= seq![x]);
                        } else {
                            assert(episode_keys(pre)[g] != key@);
                        }
                    }
                }
            },
        }
        taken += 1;
    }
    assert(orig.take(taken as int) =~= orig);
    let ghost keys = episode_keys(orig);
    let mut out: Vec<Vec<SemanticDuplicateItem>> = Vec::new();
    let mut bstack: Vec<Bucket> = Vec::new();
    let nb = buckets.len();
    while buckets.len() > 0
        invariant
            bstack@.len() + buckets@.len() == nb,
            nb == keys.len(),
            forall|g: int| 0 <= g < buckets@.len() ==> {
                &&& (#[trigger] buckets@[g]).key@ == keys[g]
                &&& buckets@[g].items@ == episode_items(orig, keys[g])
            },
            forall|k: int| 0 <= k < bstack@.len() ==> {
                &&& (#[trigger] bstack@[k]).key@ == keys[nb - 1 - k]
                &&& bstack@[k].items@ == episode_items(orig, keys[nb - 1 - k])
            },
        decreases buckets.len(),
    {
        let b = buckets.pop().unwrap();
        bstack.push(b);
    }
    let mut done: usize = 0;
    while bstack.len() > 0
        invariant
            done + bstack@.len() == nb,
            nb == keys.len(),
            forall|k: int| 0 <= k < bstack@.len() ==> {
                &&& (#[trigger] bstack@[k]).key@ == keys[nb - 1 - k]
                &&& bstack@[k].items@ == episode_items(orig, keys[nb - 1 - k])
            },
            out@.map_values(|b: Vec<SemanticDuplicateItem>| b@) == large_buckets(
                orig,
                keys.take(done as int),
                min_group_size as nat,
            ),
        decreases bstack.len(),
    {
        let b = bstack.pop().unwrap();
        assert(keys.take(done + 1).drop_last() =~= keys.take(done as int));
        assert(keys.take(done + 1).last() == keys[done as int]);
        let ghost before = out@;
        if b.items.len() >= min_group_size {
            out.push(b.items);
            assert(out@.map_values(|b: Vec<SemanticDuplicateItem>| b@) =~= before.map_values(
                |b: Vec<SemanticDuplicateItem>| b@,
            ).push(episode_items(orig, keys[done as int])));
        }
        done += 1;
    }
    assert(keys.take(done as int) =~= keys);
    let ghost before = out@;
    if plain.len() >= min_group_size {
        out.push(plain);
        assert(out@.map_values(|b: Vec<SemanticDuplicateItem>| b@) =~= before.map_values(
            |b: Vec<SemanticDuplicateItem>| b@,
        ).push(plain_items(orig)));
    }
    out
}

proof fn lemma_large_buckets(items: Seq<SemanticDuplicateItem>, keys: Seq<Seq<char>>, min: nat)
    ensures
        forall|g: int|
            0 <= g < large_buckets(items, keys, min).len() ==> (#[trigger] large_buckets(
                items,
                keys,
                min,
            )[g]).len() >= min && exists|k: Seq<char>|
                keys.contains(k) && large_buckets(items, keys, min)[g] == episode_items(items, k),
    decreases keys.len(),
{
    if keys.len() > 0 {
        let r = large_buckets(items, keys.drop_last(), min);
        lemma_large_buckets(items, keys.drop_last(), min);
        let b = episode_items(items, keys.last());
        assert forall|g: int| 0 <= g < large_buckets(items, keys, min).len() implies (
        #[trigger] large_buckets(items, keys, min)[g]).len() >= min && exists|k: Seq<char>|
            keys.contains(k) && large_buckets(items, keys, min)[g] == episode_items(items, k) by {
            if g < r.len() {
                assert(large_buckets(items, keys, min)[g] == r[g]);
                let k = choose|k: Seq<char>|
                    keys.drop_last().contains(k) && r[g] == episode_items(items, k);
                let i = choose|i: int| 0 <= i < keys.drop_last().len() && keys.drop_last()[i] == k;
                assert(keys[i] == k);
            } else {
                assert(keys[keys.len() - 1] == keys.last());
            }
        }
    }
}

proof fn lemma_episode_items_signature(items: Seq<SemanticDuplicateItem>, k: Seq<char>)
    ensures
        forall|i: int|
            0 <= i < episode_items(items, k).len() ==> signature_of(
                #[trigger] episode_items(items, k)[i],
            ) == Some(k),
    decreases items.len(),
{
    if items.len() > 0 {
        lemma_episode_items_signature(items.drop_last(), k);
    }
}

proof fn lemma_plain_items_signature(items: Seq<SemanticDuplicateItem>)
    ensures
        forall|i: int| 0 <= i < plain_items(items).len() ==> signature_of(#[trigger] plain_items(items)[i]) is None,
    decreases items.len(),
{
    if items.len() > 0 {
        lemma_plain_items_signature(items.drop_last());
    }
}

/// Every group that partitioning semantic duplicates yields has at least
/// `min` items, and all its items have the same episode signature (or all
/// have none).
pub proof fn lemma_partition_groups(items: Seq<SemanticDuplicateItem>, min: nat)
    ensures
        forall|g: int|
            0 <= g < spec_partition(items, min).len() ==> (#[trigger] spec_partition(items, min)[g]).len()
                >= min,
        forall|g: int, i: int|
            0 <= g < spec_partition(items, min).len() && 0 <= i < spec_partition(items, min)[g].len()
                ==> signature_of(#[trigger] spec_partition(items, min)[g][i]) == signature_of(
                spec_partition(items, min)[g][0],
            ),
{
    let keys = episode_keys(items);
    let buckets = large_buckets(items, keys, min);
    lemma_large_buckets(items, keys, min);
    lemma_plain_items_signature(items);
    let p = spec_partition(items, min);
    assert forall|g: int| 0 <= g < p.len() implies (#[trigger] p[g]).len() >= min by {
        if g < buckets.len() {
            assert(p[g] == buckets[g]);
        }
    }
    assert forall|g: int, i: int| 0 <= g < p.len() && 0 <= i < p[g].len() implies signature_of(
        #[trigger] p[g][i],
    ) == signature_of(p[g][0]) by {
        if g < buckets.len() {
            assert(p[g] == buckets[g]);
            let k = choose|k: Seq<char>| keys.contains(k) && buckets[g] == episode_items(items, k);
            lemma_episode_items_signature(items, k);
            assert(signature_of(p[g][i]) == Some(k));
            assert(signature_of(p[g][0]) == Some(k));
        } else {
            assert(p[g] == plain_items(items));
        }
    }
}

/// The text that tells variants apart: the content hash when known, else the path.
pub open spec fn variant_key(item: SemanticDuplicateItem) -> Seq<char> {
    match item.content_hash {
        Some(h) => h@,
        None => item.media_path@,
    }
}

/// How many distinct variant keys the items have.
pub open spec fn variant_count(items: Seq<SemanticDuplicateItem>) -> nat
    decreases items.len(),
{
    if items.len() == 0 {
        0
    } else {
        let d = items.drop_last();
        variant_count(d) + if exists|i: int| 0 <= i < d.len() && variant_key(#[trigger] d[i]) == variant_key(items.last()) {
            0nat
        } else {
            1nat
        }
    }
}

fn variant_key_chars(item: &SemanticDuplicateItem) -> (r: Vec<char>)
    ensures
        r@ == variant_key(*item),
{
    match &item.content_hash {
        Some(h) => chars_of(h.as_str()),
        None => chars_of(item.media_path.as_str()),
    }
}

pub fn count_variants(items: &Vec<SemanticDuplicateItem>) -> (r: usize)
    ensures
        r as nat == variant_count(items@),
{
    let mut n: usize = 0;
    let mut i: usize = 0;
    while i < items.len()
        invariant
            i <= items.len(),
            n as nat == variant_count(items@.take(i as int)),
            n <= i,
        decreases items.len() - i,
    {
        let ghost d = items@.take(i as int);
        assert(items@.take(i + 1).drop_last() =~= d);
        assert(items@.take(i + 1).last() == items@[i as int]);
        let key = variant_key_chars(&items[i]);
        let mut j: usize = 0;
        let mut seen = false;
        while j < i
            invariant
                j <= i < items@.len(),
                key@ == variant_key(items@[i as int]),
                seen ==> exists|t: int| 0 <= t < i && variant_key(#[trigger] items@[t]) == key@,
                !seen ==> forall|t: int| 0 <= t < j ==> variant_key(#[trigger] items@[t]) != key@,
            decreases i - j,
        {
            if chars_eq(&variant_key_chars(&items[j]), &key) {
                seen = true;
            }
            j += 1;
        }
        proof {
            if seen {
                let t = choose|t: int| 0 <= t < i && variant_key(#[trigger] items@[t]) == key@;
                assert(d[t] == items@[t]);
            } else {
                assert forall|t: int| 0 <= t < d.len() implies variant_key(#[trigger] d[t]) != key@ by {
                    assert(d[t] == items@[t]);
                }
            }
        }
        if !seen {
            n += 1;
        }
        i += 1;
    }
    assert(items@.take(items.len() as int) =~= items@);
    n
}

/// A group of semantic duplicates that differ in content.
#[derive(Debug)]
pub struct SemanticSubgroup {
    pub item_count: usize,
    pub variant_count: usize,
    pub items: Vec<SemanticDuplicateItem>,
}

/// The part of `consolidation_semantic_duplicates` that follows the queries:
/// the items of one title/year/provider group partitioned (buckets of at
/// least `max(min_group_size, 2)`), keeping the subgroups with more than one
/// variant.
pub open spec fn spec_semantic_subgroups(items: Seq<SemanticDuplicateItem>, min_group_size: nat) -> Seq<Seq<SemanticDuplicateItem>> {
    let min = if min_group_size < 2 {
        2
    } else {
        min_group_size
    };
    keep_varied(spec_partition(items, min))
}

pub open spec fn keep_varied(parts: Seq<Seq<SemanticDuplicateItem>>) -> Seq<Seq<SemanticDuplicateItem>>
    decreases parts.len(),
{
    if parts.len() == 0 {
        seq![]
    } else {
        let r = keep_varied(parts.drop_last());
        if variant_count(parts.last()) > 1 {
            r.push(parts.last())
        } else {
            r
        }
    }
}

pub fn semantic_subgroups(items: Vec<SemanticDuplicateItem>, min_group_size: usize) -> (r: Vec<SemanticSubgroup>)
    ensures
        r@.map_values(|g: SemanticSubgroup| g.items@) == spec_semantic_subgroups(items@, min_group_size as nat),
        forall|g: int|
            0 <= g < r@.len() ==> (#[trigger] r@[g]).item_count == r@[g].items@.len()
                && r@[g].variant_count as nat == variant_count(r@[g].items@) && r@[g].variant_count > 1,
{
    let min = if min_group_size < 2 {
        2
    } else {
        min_group_size
    };
    let parts = partition_semantic_group_items(items, min);
    let ghost pv = parts@.map_values(|b: Vec<SemanticDuplicateItem>| b@);
    let n = parts.len();
    let mut stack: Vec<Vec<SemanticDuplicateItem>> = Vec::new();
    let mut rest = parts;
    while rest.len() > 0
        invariant
            stack@.len() + rest@.len() == n,
            pv.len() == n,
            forall|k: int| 0 <= k < rest@.len() ==> #[trigger] rest@[k]@ == pv[k],
            forall|k: int| 0 <= k < stack@.len() ==> #[trigger] stack@[k]@ == pv[n - 1 - k],
        decreases rest.len(),
    {
        let x = rest.pop().unwrap();
        stack.push(x);
    }
    let mut out: Vec<SemanticSubgroup> = Vec::new();
    let mut done: usize = 0;
    while stack.len() > 0
        invariant
            done + stack@.len() == n,
            pv.len() == n,
            forall|k: int| 0 <= k < stack@.len() ==> #[trigger] stack@[k]@ == pv[n - 1 - k],
            out@.map_values(|g: SemanticSubgroup| g.items@) == keep_varied(pv.take(done as int)),
            forall|g: int|
                0 <= g < out@.len() ==> (#[trigger] out@[g]).item_count == out@[g].items@.len()
                    && out@[g].variant_count as nat == variant_count(out@[g].items@) && out@[g].variant_count > 1,
        decreases stack.len(),
    {
        let b = stack.pop().unwrap();
        assert(pv.take(done + 1).drop_last() =~= pv.take(done as int));
        assert(pv.take(done + 1).last() == b@);
        let vc = count_variants(&b);
        let ghost before = out@;
        if vc > 1 {
            let len = b.len();
            out.push(SemanticSubgroup { item_count: len, variant_count: vc, items: b });
            assert(out@.map_values(|g: SemanticSubgroup| g.items@) =~= before.map_values(
                |g: SemanticSubgroup| g.items@,
            ).push(pv[done as int]));
        }
        done += 1;
    }
    assert(pv.take(done as int) =~= pv);
    out
}

} // verus!
