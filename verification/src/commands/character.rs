//! Editing dungeon definitions and looking up clear limits.

use vstd::prelude::*;
use crate::ids::{utc_timestamp_text, uuid_v4_text};
use crate::models::character::{Character, DungeonDef};
use crate::commands::ocr::ClearUpdate;
use crate::utils::text::{str_eq, text};

verus! {

/// A new dungeon from the add form: no keywords, the reset day defaults to
/// Saturday and is at most 6, the reset hour defaults to 9 and is at most 23.
pub fn add_dungeon_def(
    name: &str,
    short_name: &str,
    max_clears: u32,
    reset_day: Option<u8>,
    reset_hour: Option<u8>,
    note: Option<String>,
) -> (d: DungeonDef)
    ensures
        uuid_v4_text(d.id@),
        d.name@ == name@,
        d.short_name@ == short_name@,
        d.keywords@.len() == 0,
        d.icon is None,
        d.max_clears == max_clears,
        d.reset_day == match reset_day {
            Some(v) => if v < 6 { v } else { 6 },
            None => 6,
        },
        d.reset_hour == match reset_hour {
            Some(v) => if v < 23 { v } else { 23 },
            None => 9,
        },
        d.note == note,
        d.sort_order == 0,
{
    let mut d = DungeonDef::new(name, short_name, Vec::new(), max_clears);
    let day = match reset_day {
        Some(v) => v,
        None => 6,
    };
    let hour = match reset_hour {
        Some(v) => v,
        None => 9,
    };
    d.reset_day = if day < 6 { day } else { 6 };
    d.reset_hour = if hour < 23 { hour } else { 23 };
    d.note = note;
    d
}

/// The position of the dungeon with id `id`.
pub open spec fn dungeon_position(ds: Seq<DungeonDef>, id: Seq<char>) -> Option<int>
    decreases ds.len(),
{
    if ds.len() == 0 {
        None
    } else {
        match dungeon_position(ds.drop_last(), id) {
            Some(i) => Some(i),
            None => if ds.last().id@ == id {
                Some(ds.len() - 1)
            } else {
                None
            },
        }
    }
}

proof fn lemma_dungeon_position_prefix(ds: Seq<DungeonDef>, id: Seq<char>, k: int)
    requires
        0 <= k <= ds.len(),
        dungeon_position(ds.take(k), id) is Some,
    ensures
        dungeon_position(ds, id) == dungeon_position(ds.take(k), id),
    decreases ds.len() - k,
{
    if k < ds.len() {
        assert(ds.take(k + 1).drop_last() =~= ds.take(k));
        lemma_dungeon_position_prefix(ds, id, k + 1);
    } else {
        assert(ds.take(k) =~= ds);
    }
}

/// The dungeon found by an id is the first one that has exactly that id;
/// none is found when no dungeon has it.
pub proof fn lemma_dungeon_found_by_id(ds: Seq<DungeonDef>, id: Seq<char>)
    ensures
        match dungeon_position(ds, id) {
            Some(i) => 0 <= i < ds.len() && ds[i].id@ == id && forall|j: int|
                0 <= j < i ==> (#[trigger] ds[j]).id@ != id,
            None => forall|j: int| 0 <= j < ds.len() ==> (#[trigger] ds[j]).id@ != id,
        },
    decreases ds.len(),
{
    if ds.len() > 0 {
        lemma_dungeon_found_by_id(ds.drop_last(), id);
        assert forall|j: int| 0 <= j < ds.len() - 1 implies ds.drop_last()[j] == ds[j] by {}
    }
}

/// The position of the dungeon with id `id`.
pub fn find_dungeon_by_id(dungeons: &Vec<DungeonDef>, id: &str) -> (r: Option<usize>)
    ensures
        match r {
            Some(i) => dungeon_position(dungeons@, id@) == Some(i as int) && i < dungeons@.len(),
            None => dungeon_position(dungeons@, id@) is None,
        },
{
    let n = dungeons.len();
    let mut i: usize = 0;
    while i < n
        invariant
            n == dungeons@.len(),
            i <= n,
            dungeon_position(dungeons@.take(i as int), id@) is None,
        decreases n - i,
    {
        assert(dungeons@.take(i + 1).drop_last() =~= dungeons@.take(i as int));
        if str_eq(dungeons[i].id.as_str(), id) {
            proof {
                lemma_dungeon_position_prefix(dungeons@, id@, i + 1);
            }
            return Some(i);
        }
        i = i + 1;
    }
    assert(dungeons@.take(n as int) =~= dungeons@);
    None
}

/// Applies the edit form to the dungeon with id `id`: name and short name
/// replaced and used as its keywords, at least one clear, reset day at
/// most 6, reset hour at most 23, note replaced; icon, id and order kept.
/// A missing dungeon is refused.
pub fn update_dungeon_def(
    dungeons: &Vec<DungeonDef>,
    id: &str,
    name: String,
    short_name: String,
    max_clears: u32,
    reset_day: u8,
    reset_hour: u8,
    note: Option<String>,
) -> (r: Result<DungeonDef, String>)
    ensures
        r is Ok <==> dungeon_position(dungeons@, id@) is Some,
        r matches Err(e) ==> e@ == "Dungeon not found"@,
        r matches Ok(d) ==> {
            let old_d = dungeons@[dungeon_position(dungeons@, id@).unwrap()];
            &&& d.id == old_d.id
            &&& d.name == name
            &&& d.short_name == short_name
            &&& d.keywords@ == seq![name, short_name]
            &&& d.icon == old_d.icon
            &&& d.max_clears == if max_clears > 1 { max_clears } else { 1 }
            &&& d.reset_day == if reset_day < 6 { reset_day } else { 6 }
            &&& d.reset_hour == if reset_hour < 23 { reset_hour } else { 23 }
            &&& d.note == note
            &&& d.sort_order == old_d.sort_order
        },
{
    match find_dungeon_by_id(dungeons, id) {
        None => Err(text("Dungeon not found")),
        Some(pos) => {
            let mut d = dungeons[pos].copy();
            let mut keywords: Vec<String> = Vec::new();
            keywords.push(name.clone());
            keywords.push(short_name.clone());
            d.name = name;
            d.short_name = short_name;
            d.keywords = keywords;
            d.max_clears = if max_clears > 1 { max_clears } else { 1 };
            d.reset_day = if reset_day < 6 { reset_day } else { 6 };
            d.reset_hour = if reset_hour < 23 { reset_hour } else { 23 };
            d.note = note;
            assert(d.keywords@ =~= seq![d.name, d.short_name]);
            Ok(d)
        },
    }
}

/// The clear limit recorded with a manual edit: the dungeon's limit, or 1
/// for an unknown dungeon.
pub fn update_clear_record(dungeons: &Vec<DungeonDef>, dungeon_id: &str) -> (max: u32)
    ensures
        max == match dungeon_position(dungeons@, dungeon_id@) {
            Some(i) => dungeons@[i].max_clears,
            None => 1,
        },
{
    match find_dungeon_by_id(dungeons, dungeon_id) {
        Some(i) => dungeons[i].max_clears,
        None => 1,
    }
}

/// The records a new character starts with: no clears of every dungeon.
pub fn add_character(
    name: &str,
    server: Option<&str>,
    class_key: Option<&str>,
    dungeons: &Vec<DungeonDef>,
) -> (r: (Character, Vec<ClearUpdate>))
    ensures
        uuid_v4_text(r.0.id@),
        r.0.name@ == name@,
        r.0.server is Some <==> server is Some,
        r.0.server is Some ==> r.0.server.unwrap()@ == server.unwrap()@,
        r.0.class_key is Some <==> class_key is Some,
        r.0.class_key is Some ==> r.0.class_key.unwrap()@ == class_key.unwrap()@,
        r.0.note is None,
        utc_timestamp_text(r.0.created_at@),
        r.1@.len() == dungeons@.len(),
        forall|i: int|
            0 <= i < dungeons@.len() ==> (#[trigger] r.1@[i]) == (ClearUpdate {
                dungeon_id: dungeons@[i].id,
                current_clears: 0,
                max_clears: dungeons@[i].max_clears,
            }),
{
    let c = Character::new(name, server, class_key);
    let mut records: Vec<ClearUpdate> = Vec::new();
    let n = dungeons.len();
    let mut i: usize = 0;
    while i < n
        invariant
            n == dungeons@.len(),
            i <= n,
            records@.len() == i,
            forall|j: int|
                0 <= j < i ==> (#[trigger] records@[j]) == (ClearUpdate {
                    dungeon_id: dungeons@[j].id,
                    current_clears: 0,
                    max_clears: dungeons@[j].max_clears,
                }),
        decreases n - i,
    {
        records.push(
            ClearUpdate {
                dungeon_id: dungeons[i].id.clone(),
                current_clears: 0,
                max_clears: dungeons[i].max_clears,
            },
        );
        i = i + 1;
    }
    (c, records)
}

} // verus!
