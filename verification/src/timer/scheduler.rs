//! The weekly reset schedule: on the hour, dungeons whose reset falls on
//! this weekday and hour have their clears reset, once per hour.

use vstd::prelude::*;
use crate::models::character::DungeonDef;
use crate::utils::text::{decimal, push_char, push_decimal, push_str};

verus! {

/// The key of an hour: the date, the weekday (0 = Sunday) and the hour,
/// joined by `-`.
pub open spec fn hour_key(date: Seq<char>, day: u8, hour: u8) -> Seq<char> {
    date + seq!['-'] + decimal(day as nat) + seq!['-'] + decimal(hour as nat)
}

/// The key of an hour.
pub fn reset_key(date: &str, day: u8, hour: u8) -> (k: String)
    ensures
        k@ == hour_key(date@, day, hour),
{
    let mut k = String::new();
    push_str(&mut k, date);
    push_char(&mut k, '-');
    push_decimal(&mut k, day as u64);
    push_char(&mut k, '-');
    push_decimal(&mut k, hour as u64);
    assert(k@ =~= hour_key(date@, day, hour));
    k
}

/// The ids of the dungeons that reset on `day` at `hour`, in order.
pub open spec fn resetting_ids(ds: Seq<DungeonDef>, day: u8, hour: u8) -> Seq<String>
    decreases ds.len(),
{
    if ds.len() == 0 {
        Seq::empty()
    } else {
        resetting_ids(ds.drop_last(), day, hour) + if ds.last().reset_day == day
            && ds.last().reset_hour == hour {
            seq![ds.last().id]
        } else {
            Seq::empty()
        }
    }
}

/// The ids of the dungeons that reset on `day` at `hour`.
pub fn due_dungeons(dungeons: &Vec<DungeonDef>, day: u8, hour: u8) -> (ids: Vec<String>)
    ensures
        ids@ == resetting_ids(dungeons@, day, hour),
{
    let mut ids: Vec<String> = Vec::new();
    let n = dungeons.len();
    let mut i: usize = 0;
    while i < n
        invariant
            n == dungeons@.len(),
            i <= n,
            ids@ == resetting_ids(dungeons@.take(i as int), day, hour),
        decreases n - i,
    {
        assert(dungeons@.take(i + 1).drop_last() =~= dungeons@.take(i as int));
        assert(dungeons@.take(i + 1).last() == dungeons@[i as int]);
        let d = &dungeons[i];
        if d.reset_day == day && d.reset_hour == hour {
            ids.push(d.id.clone());
        }
        assert(ids@ =~= resetting_ids(dungeons@.take(i + 1), day, hour));
        i = i + 1;
    }
    assert(dungeons@.take(n as int) =~= dungeons@);
    ids
}

/// The hour whose resets were last handled.
pub struct SchedulerState {
    pub last_reset_key: String,
}

/// What one look at the clock decides: the hour to handle, with its weekday
/// and hour, or nothing.
pub struct DueHour {
    pub key: String,
    pub day: u8,
    pub hour: u8,
}

impl SchedulerState {
    /// No hour handled yet.
    pub fn new() -> (s: Self)
        ensures
            s.last_reset_key@ == Seq::<char>::empty(),
    {
        SchedulerState { last_reset_key: String::new() }
    }

    /// The hour to handle now, if any: only on the hour, and only an hour
    /// not handled last.
    pub open spec fn due(self, minute: u32, weekday: u32, hour: u32, date: Seq<char>) -> bool {
        minute == 0 && hour_key(date, weekday as u8, hour as u8) != self.last_reset_key@
    }

    /// Looks at the clock: minute, weekday counted from Sunday, hour and date.
    pub fn check(&self, minute: u32, weekday: u32, hour: u32, date: &str) -> (r: Option<DueHour>)
        ensures
            r is Some <==> self.due(minute, weekday, hour, date@),
            r matches Some(d) ==> d.day == weekday as u8 && d.hour == hour as u8 && d.key@
                == hour_key(date@, weekday as u8, hour as u8),
    {
        if minute != 0 {
            return None;
        }
        let day = weekday as u8;
        let h = hour as u8;
        let key = reset_key(date, day, h);
        if key == self.last_reset_key {
            None
        } else {
            Some(DueHour { key, day, hour: h })
        }
    }

    /// Records that the hour was handled.
    pub fn mark_handled(&mut self, key: String)
        ensures
            final(self).last_reset_key == key,
    {
        self.last_reset_key = key;
    }
}

/// An hour is handled once: after it is recorded, the same clock reading
/// is no longer due.
pub proof fn lemma_reset_once_per_hour(minute: u32, weekday: u32, hour: u32, date: Seq<char>, key: String)
    requires
        key@ == hour_key(date, weekday as u8, hour as u8),
    ensures
        !(SchedulerState { last_reset_key: key }).due(minute, weekday, hour, date),
{
}

/// The dungeons due at an hour are exactly those whose reset day and hour
/// are that weekday and hour, listed by id in the order they are kept.
pub proof fn lemma_due_are_those_of_the_hour(ds: Seq<DungeonDef>, day: u8, hour: u8)
    ensures
        resetting_ids(ds, day, hour) == ds.filter(
            |d: DungeonDef| d.reset_day == day && d.reset_hour == hour,
        ).map_values(|d: DungeonDef| d.id),
    decreases ds.len(),
{
    if ds.len() > 0 {
        lemma_due_are_those_of_the_hour(ds.drop_last(), day, hour);
        let pred = |d: DungeonDef| d.reset_day == day && d.reset_hour == hour;
        let f = ds.drop_last().filter(pred);
        reveal(Seq::filter);
        assert(ds.filter(pred) == if pred(ds.last()) { f.push(ds.last()) } else { f });
        if pred(ds.last()) {
            assert(f.push(ds.last()).map_values(|d: DungeonDef| d.id) =~= f.map_values(
                |d: DungeonDef| d.id,
            ) + seq![ds.last().id]);
        } else {
            assert(resetting_ids(ds, day, hour) =~= resetting_ids(ds.drop_last(), day, hour));
        }
    }
}

} // verus!
