//! Sizing of the compact window: wide enough for the longest slot name.

use vstd::prelude::*;
use crate::utils::text::chars_of;

verus! {

/// The width a character of a slot name takes: 7 for ASCII, 13 otherwise.
pub open spec fn char_width(c: char) -> nat {
    if (c as u32) < 128 { 7 } else { 13 }
}

/// The width of a slot name.
pub open spec fn name_width(s: Seq<char>) -> nat
    decreases s.len(),
{
    if s.len() == 0 {
        0
    } else {
        name_width(s.drop_last()) + char_width(s.last())
    }
}

/// The width of the widest name (zero when there is none).
pub open spec fn widest_name(names: Seq<String>) -> nat
    decreases names.len(),
{
    if names.len() == 0 {
        0
    } else {
        let a = widest_name(names.drop_last());
        let b = name_width(names.last()@);
        if a >= b { a } else { b }
    }
}

/// The compact window's width: the widest name plus 330, between 430 and 760.
pub open spec fn simple_mode_width(names: Seq<String>) -> nat {
    let w = widest_name(names) + 330;
    if w < 430 {
        430
    } else if w > 760 {
        760
    } else {
        w
    }
}

/// A name is 7 wide per ASCII character and 13 per other character: an
/// all-ASCII name is 7 times its length wide, any name lies between 7 and
/// 13 times its length.
pub proof fn lemma_name_width_per_char(s: Seq<char>)
    ensures
        7 * s.len() <= name_width(s) <= 13 * s.len(),
        (forall|i: int| 0 <= i < s.len() ==> ((#[trigger] s[i]) as u32) < 128) ==> name_width(s)
            == 7 * s.len(),
        (forall|i: int| 0 <= i < s.len() ==> ((#[trigger] s[i]) as u32) >= 128) ==> name_width(s)
            == 13 * s.len(),
    decreases s.len(),
{
    if s.len() > 0 {
        let p = s.drop_last();
        lemma_name_width_per_char(p);
        assert forall|i: int| 0 <= i < p.len() implies p[i] == s[i] by {}
        assert(s[s.len() - 1] == s.last());
    }
}

/// The widest name is as wide as some name and at least as wide as every
/// name, so the compact window leaves 330 beside the longest name, within
/// its least and greatest widths.
pub proof fn lemma_width_fits_longest_name(names: Seq<String>)
    ensures
        forall|i: int| 0 <= i < names.len() ==> name_width((#[trigger] names[i])@) <= widest_name(names),
        names.len() > 0 ==> exists|i: int|
            0 <= i < names.len() && name_width((#[trigger] names[i])@) == widest_name(names),
        430 <= simple_mode_width(names) <= 760,
        430 <= widest_name(names) + 330 <= 760 ==> simple_mode_width(names) == widest_name(names) + 330,
    decreases names.len(),
{
    if names.len() > 0 {
        let p = names.drop_last();
        lemma_width_fits_longest_name(p);
        assert forall|i: int| 0 <= i < names.len() implies name_width((#[trigger] names[i])@)
            <= widest_name(names) by {
            if i < p.len() {
                assert(names[i] == p[i]);
            }
        }
        if widest_name(names) != name_width(names.last()@) {
            let i = choose|i: int| 0 <= i < p.len() && name_width((#[trigger] p[i])@) == widest_name(p);
            assert(names[i] == p[i]);
        } else {
            assert(names[names.len() - 1] == names.last());
        }
    }
}

/// The width of a slot name, counted up to 1000.
fn capped_name_width(name: &String) -> (w: u32)
    ensures
        w == if name_width(name@) < 1000 { name_width(name@) } else { 1000 },
{
    let cs = chars_of(name.as_str());
    let n = cs.len();
    let mut w: u32 = 0;
    let mut i: usize = 0;
    while i < n
        invariant
            n == cs@.len(),
            cs@ == name@,
            i <= n,
            w == if name_width(cs@.take(i as int)) < 1000 { name_width(cs@.take(i as int)) } else { 1000 },
        decreases n - i,
    {
        assert(cs@.take(i + 1).drop_last() =~= cs@.take(i as int));
        let c = cs[i];
        let cw: u32 = if (c as u32) < 128 { 7 } else { 13 };
        w = if w + cw < 1000 { w + cw } else { 1000 };
        i = i + 1;
    }
    assert(cs@.take(n as int) =~= cs@);
    w
}

/// The width of the compact window for slots with these names.
pub fn estimate_simple_mode_width(names: &Vec<String>) -> (w: u32)
    ensures
        w == simple_mode_width(names@),
{
    let n = names.len();
    let mut best: u32 = 0;
    let mut i: usize = 0;
    while i < n
        invariant
            n == names@.len(),
            i <= n,
            best == if widest_name(names@.take(i as int)) < 1000 { widest_name(names@.take(i as int)) } else { 1000 },
        decreases n - i,
    {
        assert(names@.take(i + 1).drop_last() =~= names@.take(i as int));
        let w = capped_name_width(&names[i]);
        if w > best {
            best = w;
        }
        i = i + 1;
    }
    assert(names@.take(n as int) =~= names@);
    let total = best + 330;
    if total < 430 {
        430
    } else if total > 760 {
        760
    } else {
        total
    }
}

} // verus!
