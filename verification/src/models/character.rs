//! Characters, dungeon definitions and their weekly clear status.

use vstd::prelude::*;
use crate::ids::{new_id, utc_now_rfc3339, utc_timestamp_text, uuid_v4_text};
use crate::models::preset::clone_opt_string;

verus! {

/// A game character. `created_at` is an RFC 3339 time stamp.
pub struct Character {
    pub id: String,
    pub name: String,
    pub server: Option<String>,
    pub class_key: Option<String>,
    pub note: Option<String>,
    pub created_at: String,
}

/// An optional borrowed string, owned.
pub fn opt_str_to_string(o: Option<&str>) -> (r: Option<String>)
    ensures
        r is Some <==> o is Some,
        r is Some ==> r.unwrap()@ == o.unwrap()@,
{
    match o {
        Some(s) => Some(s.to_owned()),
        None => None,
    }
}

impl Character {
    /// A new character with a fresh id, no note, created now.
    pub fn new(name: &str, server: Option<&str>, class_key: Option<&str>) -> (c: Self)
        ensures
            uuid_v4_text(c.id@),
            c.name@ == name@,
            c.server is Some <==> server is Some,
            c.server is Some ==> c.server.unwrap()@ == server.unwrap()@,
            c.class_key is Some <==> class_key is Some,
            c.class_key is Some ==> c.class_key.unwrap()@ == class_key.unwrap()@,
            c.note is None,
            utc_timestamp_text(c.created_at@),
    {
        Character {
            id: new_id(),
            name: name.to_owned(),
            server: opt_str_to_string(server),
            class_key: opt_str_to_string(class_key),
            note: None,
            created_at: utc_now_rfc3339(),
        }
    }
}

/// A dungeon with a weekly clear limit. `reset_day` counts from Sunday (0)
/// to Saturday (6); `reset_hour` is the hour of the weekly reset.
pub struct DungeonDef {
    pub id: String,
    pub name: String,
    pub short_name: String,
    pub keywords: Vec<String>,
    pub icon: Option<String>,
    pub max_clears: u32,
    pub reset_day: u8,
    pub reset_hour: u8,
    pub note: Option<String>,
    pub sort_order: i32,
}

/// The views of a list of strings.
pub open spec fn string_views(v: Seq<String>) -> Seq<Seq<char>> {
    v.map_values(|s: String| s@)
}

/// The views of a list of string slices.
pub open spec fn str_views(v: Seq<&str>) -> Seq<Seq<char>> {
    v.map_values(|s: &str| s@)
}

impl DungeonDef {
    /// A new dungeon with a fresh id, reset on Saturday at 9, no icon or note.
    pub fn new(name: &str, short_name: &str, keywords: Vec<&str>, max_clears: u32) -> (d: Self)
        ensures
            uuid_v4_text(d.id@),
            d.name@ == name@,
            d.short_name@ == short_name@,
            d.keywords@.len() == keywords@.len(),
            string_views(d.keywords@) == str_views(keywords@),
            d.icon is None,
            d.max_clears == max_clears,
            d.reset_day == 6,
            d.reset_hour == 9,
            d.note is None,
            d.sort_order == 0,
    {
        let mut kws: Vec<String> = Vec::new();
        let n = keywords.len();
        let mut i: usize = 0;
        while i < n
            invariant
                n == keywords@.len(),
                i <= n,
                kws@.len() == i,
                forall|j: int| 0 <= j < i ==> #[trigger] kws@[j]@ == keywords@[j]@,
            decreases n - i,
        {
            kws.push(keywords[i].to_owned());
            i = i + 1;
        }
        assert(string_views(kws@) =~= str_views(keywords@));
        DungeonDef {
            id: new_id(),
            name: name.to_owned(),
            short_name: short_name.to_owned(),
            keywords: kws,
            icon: None,
            max_clears,
            reset_day: 6,
            reset_hour: 9,
            note: None,
            sort_order: 0,
        }
    }
}

/// Copies a list of strings.
pub fn clone_strings(v: &Vec<String>) -> (r: Vec<String>)
    ensures
        r@ == v@,
{
    let mut r: Vec<String> = Vec::new();
    let n = v.len();
    let mut i: usize = 0;
    while i < n
        invariant
            n == v@.len(),
            i <= n,
            r@ =~= v@.take(i as int),
        decreases n - i,
    {
        r.push(v[i].clone());
        i = i + 1;
    }
    assert(v@.take(n as int) =~= v@);
    r
}

impl DungeonDef {
    /// Two dungeon definitions hold the same values.
    pub open spec fn same(self, other: DungeonDef) -> bool {
        &&& self.id == other.id
        &&& self.name == other.name
        &&& self.short_name == other.short_name
        &&& self.keywords@ == other.keywords@
        &&& self.icon == other.icon
        &&& self.max_clears == other.max_clears
        &&& self.reset_day == other.reset_day
        &&& self.reset_hour == other.reset_hour
        &&& self.note == other.note
        &&& self.sort_order == other.sort_order
    }

    /// A copy of this definition.
    pub fn copy(&self) -> (r: Self)
        ensures
            r.same(*self),
    {
        DungeonDef {
            id: self.id.clone(),
            name: self.name.clone(),
            short_name: self.short_name.clone(),
            keywords: clone_strings(&self.keywords),
            icon: clone_opt_string(&self.icon),
            max_clears: self.max_clears,
            reset_day: self.reset_day,
            reset_hour: self.reset_hour,
            note: clone_opt_string(&self.note),
            sort_order: self.sort_order,
        }
    }
}

/// A character's clears of a dungeon this week. `week_start` is a
/// `YYYY-MM-DD` date and `last_updated` an RFC 3339 time stamp.
pub struct ClearRecord {
    pub character_id: String,
    pub dungeon_id: String,
    pub current_clears: u32,
    pub max_clears: u32,
    pub week_start: String,
    pub last_updated: String,
}

/// Whether a character can still clear a dungeon this week.
pub enum ClearStatus {
    Available,
    Exhausted,
    Unknown,
}

/// A dungeon and a character's clears of it this week.
pub struct DungeonStatusItem {
    pub dungeon: DungeonDef,
    pub current: u32,
    pub max: u32,
    pub status: ClearStatus,
}

/// A character with the status of every dungeon.
pub struct CharacterCDPanel {
    pub character: Character,
    pub dungeon_statuses: Vec<DungeonStatusItem>,
}

} // verus!
