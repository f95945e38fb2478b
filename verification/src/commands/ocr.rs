//! Turning a recognised clear list into updates of the clear records.

use vstd::prelude::*;
use crate::ids::{utc_timestamp_text, uuid_v4_text};
use crate::models::character::{Character, DungeonDef};
use crate::models::ocr::{DungeonCdItem, OcrResult};
use crate::utils::text::{chars_of, decimal, is_digit, parse_u32, parse_u32_spec, trim, trim_chars, trim_end, trim_start};

verus! {

/// The text before the first `/` (all of it when there is none).
pub open spec fn first_segment(s: Seq<char>) -> Seq<char>
    decreases s.len(),
{
    if s.len() == 0 {
        s
    } else if s[0] == '/' {
        Seq::empty()
    } else {
        seq![s[0]] + first_segment(s.drop_first())
    }
}

/// The clear count in a `clears/max` text: the number before the first
/// `/`, trimmed; zero when it is not a number.
pub open spec fn clears_of(s: Seq<char>) -> u32 {
    match parse_u32_spec(trim(first_segment(s))) {
        Some(v) => v,
        None => 0,
    }
}

proof fn lemma_first_segment_prefix(s: Seq<char>, k: int)
    requires
        0 <= k <= s.len(),
        forall|j: int| 0 <= j < k ==> s[j] != '/',
        k == s.len() || s[k] == '/',
    ensures
        first_segment(s) == s.take(k),
    decreases k,
{
    if k > 0 {
        lemma_first_segment_prefix(s.drop_first(), k - 1);
        assert(seq![s[0]] + s.drop_first().take(k - 1) =~= s.take(k));
    } else {
        assert(s.take(0) =~= Seq::<char>::empty());
    }
}

/// A count written as a number, alone or before a `/` and the maximum,
/// reads as that number: the clears of `"1/2"` are 1.
pub proof fn lemma_clears_read_before_slash(n: u32, rest: Seq<char>)
    ensures
        clears_of(decimal(n as nat) + seq!['/'] + rest) == n,
        clears_of(decimal(n as nat)) == n,
{
    let d = decimal(n as nat);
    crate::store::lemma_decimal_parses(n as nat);
    crate::store::lemma_u32_text_roundtrip(n);
    let s1 = d + seq!['/'] + rest;
    assert forall|j: int| 0 <= j < d.len() implies s1[j] != '/' by {
        assert(s1[j] == d[j]);
        assert(is_digit(d[j]));
    }
    lemma_first_segment_prefix(s1, d.len() as int);
    assert(s1.take(d.len() as int) =~= d);
    assert forall|j: int| 0 <= j < d.len() implies d[j] != '/' by {
        assert(is_digit(d[j]));
    }
    lemma_first_segment_prefix(d, d.len() as int);
    assert(d.take(d.len() as int) =~= d);
    assert(is_digit(d[0]) && is_digit(d.last()));
    assert(trim_start(d) == d);
    assert(trim_end(d) == d);
}

/// The clear count in a `clears/max` text such as `"2/3"`.
pub fn parse_clears(s: &str) -> (n: u32)
    ensures
        n == clears_of(s@),
{
    let v = chars_of(s);
    let len = v.len();
    let mut k: usize = 0;
    while k < len && v[k] != '/'
        invariant
            len == v@.len(),
            k <= len,
            forall|j: int| 0 <= j < k ==> v@[j] != '/',
        decreases len - k,
    {
        k = k + 1;
    }
    proof {
        lemma_first_segment_prefix(v@, k as int);
    }
    let mut seg: Vec<char> = Vec::new();
    let mut i: usize = 0;
    while i < k
        invariant
            k <= len == v@.len(),
            i <= k,
            seg@ =~= v@.take(i as int),
        decreases k - i,
    {
        seg.push(v[i]);
        i = i + 1;
    }
    let t = trim_chars(&seg);
    match parse_u32(&t) {
        Some(n) => n,
        None => 0,
    }
}

/// The dungeon goes by `name`: its name, short name or one of its keywords.
pub open spec fn goes_by(d: DungeonDef, name: Seq<char>) -> bool {
    ||| d.name@ == name
    ||| d.short_name@ == name
    ||| exists|k: int| 0 <= k < d.keywords@.len() && (#[trigger] d.keywords@[k])@ == name
}

/// The position of the first dungeon that goes by `name`.
pub open spec fn first_goes_by(ds: Seq<DungeonDef>, name: Seq<char>) -> Option<int>
    decreases ds.len(),
{
    if ds.len() == 0 {
        None
    } else {
        match first_goes_by(ds.drop_last(), name) {
            Some(i) => Some(i),
            None => if goes_by(ds.last(), name) {
                Some(ds.len() - 1)
            } else {
                None
            },
        }
    }
}

/// Whether the dungeon goes by `name`.
pub fn dungeon_goes_by(d: &DungeonDef, name: &String) -> (b: bool)
    ensures
        b == goes_by(*d, name@),
{
    if d.name == *name || d.short_name == *name {
        return true;
    }
    let n = d.keywords.len();
    let mut k: usize = 0;
    while k < n
        invariant
            n == d.keywords@.len(),
            k <= n,
            forall|j: int| 0 <= j < k ==> (#[trigger] d.keywords@[j])@ != name@,
        decreases n - k,
    {
        if d.keywords[k] == *name {
            return true;
        }
        k = k + 1;
    }
    false
}

/// The position of the first dungeon that goes by `name`.
pub fn find_dungeon(dungeons: &Vec<DungeonDef>, name: &String) -> (r: Option<usize>)
    ensures
        match r {
            Some(i) => first_goes_by(dungeons@, name@) == Some(i as int) && i < dungeons@.len(),
            None => first_goes_by(dungeons@, name@) is None,
        },
{
    let n = dungeons.len();
    let mut i: usize = 0;
    while i < n
        invariant
            n == dungeons@.len(),
            i <= n,
            first_goes_by(dungeons@.take(i as int), name@) is None,
        decreases n - i,
    {
        assert(dungeons@.take(i + 1).drop_last() =~= dungeons@.take(i as int));
        if dungeon_goes_by(&dungeons[i], name) {
            proof {
                lemma_first_goes_by_prefix(dungeons@, name@, i + 1);
            }
            return Some(i);
        }
        i = i + 1;
    }
    assert(dungeons@.take(n as int) =~= dungeons@);
    None
}

proof fn lemma_first_goes_by_prefix(ds: Seq<DungeonDef>, name: Seq<char>, k: int)
    requires
        0 <= k <= ds.len(),
        first_goes_by(ds.take(k), name) is Some,
    ensures
        first_goes_by(ds, name) == first_goes_by(ds.take(k), name),
    decreases ds.len() - k,
{
    if k < ds.len() {
        assert(ds.take(k + 1).drop_last() =~= ds.take(k));
        lemma_first_goes_by_prefix(ds, name, k + 1);
    } else {
        assert(ds.take(k) =~= ds);
    }
}

/// What the first dungeon found by `name` is: one that bears it as its
/// name, short name or keyword, with none before it that does; no dungeon
/// is found when none bears it.
proof fn lemma_first_goes_by_found(ds: Seq<DungeonDef>, name: Seq<char>)
    ensures
        match first_goes_by(ds, name) {
            Some(i) => 0 <= i < ds.len() && goes_by(ds[i], name) && forall|j: int|
                0 <= j < i ==> !goes_by(#[trigger] ds[j], name),
            None => forall|j: int| 0 <= j < ds.len() ==> !goes_by(#[trigger] ds[j], name),
        },
    decreases ds.len(),
{
    if ds.len() > 0 {
        lemma_first_goes_by_found(ds.drop_last(), name);
        assert forall|j: int| 0 <= j < ds.len() - 1 implies ds.drop_last()[j] == ds[j] by {}
    }
}

/// A dungeon is found by its full name, by its short name and by each of
/// its keywords: a recognised item so named yields an update of the first
/// dungeon that bears the name (none before it does), setting its clears
/// to the item's count and keeping that dungeon's maximum; an item that no
/// dungeon bears yields none.
pub proof fn lemma_items_find_named_dungeons(item: DungeonCdItem, ds: Seq<DungeonDef>)
    ensures
        (exists|j: int|
            0 <= j < ds.len() && ((#[trigger] ds[j]).name@ == item.name@ || ds[j].short_name@
                == item.name@ || exists|k: int|
                0 <= k < ds[j].keywords@.len() && (#[trigger] ds[j].keywords@[k])@ == item.name@))
            ==> (item_update(item, ds) matches Some(u) && exists|i: int|
            0 <= i < ds.len() && u.dungeon_id == (#[trigger] ds[i]).id && u.max_clears
                == ds[i].max_clears && u.current_clears == clears_of(item.count@) && (ds[i].name@
                == item.name@ || ds[i].short_name@ == item.name@ || exists|k: int|
                0 <= k < ds[i].keywords@.len() && (#[trigger] ds[i].keywords@[k])@ == item.name@)
                && forall|j: int|
                0 <= j < i ==> (#[trigger] ds[j]).name@ != item.name@ && ds[j].short_name@
                    != item.name@ && forall|k: int|
                    0 <= k < ds[j].keywords@.len() ==> (#[trigger] ds[j].keywords@[k])@
                        != item.name@),
        (forall|j: int|
            0 <= j < ds.len() ==> (#[trigger] ds[j]).name@ != item.name@ && ds[j].short_name@
                != item.name@ && forall|k: int|
                0 <= k < ds[j].keywords@.len() ==> (#[trigger] ds[j].keywords@[k])@ != item.name@)
            ==> item_update(item, ds) is None,
{
    lemma_first_goes_by_found(ds, item.name@);
}

/// A new value for one clear record.
pub struct ClearUpdate {
    pub dungeon_id: String,
    pub current_clears: u32,
    pub max_clears: u32,
}

/// The update that one recognised item asks for, if a dungeon goes by its name.
pub open spec fn item_update(item: DungeonCdItem, ds: Seq<DungeonDef>) -> Option<ClearUpdate> {
    match first_goes_by(ds, item.name@) {
        Some(i) => Some(
            ClearUpdate {
                dungeon_id: ds[i].id,
                current_clears: clears_of(item.count@),
                max_clears: ds[i].max_clears,
            },
        ),
        None => None,
    }
}

/// The updates of a list of recognised items, in order.
pub open spec fn item_updates(items: Seq<DungeonCdItem>, ds: Seq<DungeonDef>) -> Seq<ClearUpdate>
    decreases items.len(),
{
    if items.len() == 0 {
        Seq::empty()
    } else {
        item_updates(items.drop_last(), ds) + match item_update(items.last(), ds) {
            Some(u) => seq![u],
            None => Seq::empty(),
        }
    }
}

/// The updates of a recognised list are those of its items one by one, in
/// the items' order, with the items that name no dungeon left out.
pub proof fn lemma_updates_follow_items(items: Seq<DungeonCdItem>, ds: Seq<DungeonDef>)
    ensures
        item_updates(items, ds) == items.filter_map(|it: DungeonCdItem| item_update(it, ds)),
    decreases items.len(),
{
    if items.len() > 0 {
        lemma_updates_follow_items(items.drop_last(), ds);
        let f = |it: DungeonCdItem| item_update(it, ds);
        assert(items.filter_map(f) == match f(items.last()) {
            Some(u) => items.drop_last().filter_map(f) + seq![u],
            None => items.drop_last().filter_map(f),
        });
        if item_update(items.last(), ds) is None {
            assert(item_updates(items, ds) =~= item_updates(items.drop_last(), ds));
        }
    }
}

/// The clear-record updates that recognised items ask for: each item whose
/// name a dungeon goes by sets that dungeon's clears to the item's count.
pub fn clear_updates(items: &Vec<DungeonCdItem>, dungeons: &Vec<DungeonDef>) -> (r: Vec<ClearUpdate>)
    ensures
        r@ == item_updates(items@, dungeons@),
{
    let mut r: Vec<ClearUpdate> = Vec::new();
    let n = items.len();
    let mut i: usize = 0;
    while i < n
        invariant
            n == items@.len(),
            i <= n,
            r@ == item_updates(items@.take(i as int), dungeons@),
        decreases n - i,
    {
        assert(items@.take(i + 1).drop_last() =~= items@.take(i as int));
        assert(items@.take(i + 1).last() == items@[i as int]);
        let item = &items[i];
        match find_dungeon(dungeons, &item.name) {
            Some(j) => {
                let d = &dungeons[j];
                r.push(
                    ClearUpdate {
                        dungeon_id: d.id.clone(),
                        current_clears: parse_clears(item.count.as_str()),
                        max_clears: d.max_clears,
                    },
                );
            },
            None => {},
        }
        assert(r@ =~= item_updates(items@.take(i + 1), dungeons@));
        i = i + 1;
    }
    assert(items@.take(n as int) =~= items@);
    r
}

/// The position of the first character named `name`.
pub open spec fn first_named(cs: Seq<Character>, name: Seq<char>) -> Option<int>
    decreases cs.len(),
{
    if cs.len() == 0 {
        None
    } else {
        match first_named(cs.drop_last(), name) {
            Some(i) => Some(i),
            None => if cs.last().name@ == name {
                Some(cs.len() - 1)
            } else {
                None
            },
        }
    }
}

proof fn lemma_first_named_prefix(cs: Seq<Character>, name: Seq<char>, k: int)
    requires
        0 <= k <= cs.len(),
        first_named(cs.take(k), name) is Some,
    ensures
        first_named(cs, name) == first_named(cs.take(k), name),
    decreases cs.len() - k,
{
    if k < cs.len() {
        assert(cs.take(k + 1).drop_last() =~= cs.take(k));
        lemma_first_named_prefix(cs, name, k + 1);
    } else {
        assert(cs.take(k) =~= cs);
    }
}

/// The character found by a name is the first one that bears exactly that
/// name; no character is found when none bears it.
pub proof fn lemma_character_found_by_name(cs: Seq<Character>, name: Seq<char>)
    ensures
        match first_named(cs, name) {
            Some(i) => 0 <= i < cs.len() && cs[i].name@ == name && forall|j: int|
                0 <= j < i ==> (#[trigger] cs[j]).name@ != name,
            None => forall|j: int| 0 <= j < cs.len() ==> (#[trigger] cs[j]).name@ != name,
        },
    decreases cs.len(),
{
    if cs.len() > 0 {
        lemma_character_found_by_name(cs.drop_last(), name);
        assert forall|j: int| 0 <= j < cs.len() - 1 implies cs.drop_last()[j] == cs[j] by {}
    }
}

/// The id of the first character named `name`.
pub fn find_character(characters: &Vec<Character>, name: &String) -> (r: Option<String>)
    ensures
        match first_named(characters@, name@) {
            Some(i) => r == Some(characters@[i].id),
            None => r is None,
        },
{
    let n = characters.len();
    let mut i: usize = 0;
    while i < n
        invariant
            n == characters@.len(),
            i <= n,
            first_named(characters@.take(i as int), name@) is None,
        decreases n - i,
    {
        assert(characters@.take(i + 1).drop_last() =~= characters@.take(i as int));
        if characters[i].name == *name {
            proof {
                lemma_first_named_prefix(characters@, name@, i + 1);
            }
            return Some(characters[i].id.clone());
        }
        i = i + 1;
    }
    assert(characters@.take(n as int) =~= characters@);
    None
}

/// The character that recognised clears belong to.
pub enum CharacterTarget {
    /// A known character, by id.
    Existing(String),
    /// A character to add first.
    Create(Character),
}

/// What to write after a recognition.
pub struct CdPlan {
    pub character: Option<CharacterTarget>,
    pub updates: Vec<ClearUpdate>,
}

/// What a recognition writes: nothing unless it succeeded and named a
/// character; else that character (an existing one of that name, or a new
/// one to add) and the clear updates of the recognised items.
pub fn recognize_cd(result: &OcrResult, characters: &Vec<Character>, dungeons: &Vec<DungeonDef>) -> (plan: CdPlan)
    ensures
        !(result.success && result.character_name is Some) ==> plan.character is None
            && plan.updates@.len() == 0,
        result.success && result.character_name is Some ==> {
            let name = result.character_name.unwrap();
            &&& match first_named(characters@, name@) {
                Some(i) => plan.character == Some(CharacterTarget::Existing(characters@[i].id)),
                None => plan.character matches Some(CharacterTarget::Create(c)) && c.name@
                    == name@ && c.server is None && c.class_key is None && c.note is None
                    && uuid_v4_text(c.id@) && utc_timestamp_text(c.created_at@),
            }
            &&& plan.updates@ == item_updates(result.dungeon_cds@, dungeons@)
        },
{
    if !result.success {
        return CdPlan { character: None, updates: Vec::new() };
    }
    match &result.character_name {
        None => CdPlan { character: None, updates: Vec::new() },
        Some(name) => {
            let target = match find_character(characters, name) {
                Some(id) => CharacterTarget::Existing(id),
                None => CharacterTarget::Create(Character::new(name.as_str(), None, None)),
            };
            let updates = clear_updates(&result.dungeon_cds, dungeons);
            CdPlan { character: Some(target), updates }
        },
    }
}

/// A sidecar answer line, trimmed; an empty line is refused.
pub fn check_sidecar_response(raw: &str) -> (r: Result<String, String>)
    ensures
        trim(raw@).len() > 0 ==> (r matches Ok(s) && s@ == trim(raw@)),
        trim(raw@).len() == 0 ==> (r matches Err(e) && e@ == "Empty response from sidecar"@),
{
    let cs = chars_of(raw);
    let t = trim_chars(&cs);
    if t.len() == 0 {
        Err(crate::utils::text::text("Empty response from sidecar"))
    } else {
        Ok(crate::utils::text::string_of(&t))
    }
}

} // verus!
