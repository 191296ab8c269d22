//! The short-lived list of catalog applications found installed on this machine.

use vstd::prelude::*;
use crate::models::strs_view;
use crate::text::{chars_of, eq_ascii_ci, eq_ignore_ascii_case, string_of};

verus! {

/// How long a detection stays valid, in seconds.
pub const DETECTED_IDS_MAX_AGE_SECONDS: u64 = 120;

/// The detected application ids, with the time (in seconds) they were found.
pub struct DetectedIdsCache {
    entry: Option<(u64, Vec<String>)>,
}

pub type DetectedView = Option<(u64, Seq<Seq<char>>)>;

impl View for DetectedIdsCache {
    type V = DetectedView;

    closed spec fn view(&self) -> DetectedView {
        match self.entry {
            Some(e) => Some((e.0, strs_view(e.1@))),
            None => None,
        }
    }
}

/// `ids` without those equal to `app_id`, ASCII case ignored.
pub open spec fn without_id(ids: Seq<Seq<char>>, app_id: Seq<char>) -> Seq<Seq<char>> {
    ids.filter(|x: Seq<char>| !eq_ascii_ci(x, app_id))
}

pub open spec fn has_id(ids: Seq<Seq<char>>, app_id: Seq<char>) -> bool {
    exists|i: int| 0 <= i < ids.len() && eq_ascii_ci(#[trigger] ids[i], app_id)
}

/// `ids` with `app_id` added at the end unless it is already there.
pub open spec fn with_id(ids: Seq<Seq<char>>, app_id: Seq<char>) -> Seq<Seq<char>> {
    if has_id(ids, app_id) {
        ids
    } else {
        ids.push(app_id)
    }
}

pub open spec fn held_ids(c: DetectedView) -> Seq<Seq<char>> {
    match c {
        Some(e) => e.1,
        None => Seq::empty(),
    }
}

pub open spec fn found_at(c: DetectedView) -> u64 {
    match c {
        Some(e) => e.0,
        None => 0,
    }
}

/// Seconds elapsed since `found`; none when the clock went back.
pub open spec fn detection_age(found: u64, now: u64) -> int {
    if now >= found {
        now - found
    } else {
        0
    }
}

pub open spec fn after_remove(c: DetectedView, app_id: Seq<char>) -> DetectedView {
    match c {
        Some(e) => Some((e.0, without_id(e.1, app_id))),
        None => None,
    }
}

pub open spec fn after_add(c: DetectedView, app_id: Seq<char>) -> DetectedView {
    match c {
        Some(e) => Some((e.0, with_id(e.1, app_id))),
        None => None,
    }
}

impl DetectedIdsCache {
    /// Nothing detected yet.
    pub fn new() -> (r: DetectedIdsCache)
        ensures
            r@ is None,
    {
        DetectedIdsCache { entry: None }
    }

    /// Records the ids found at time `now`.
    pub fn store(&mut self, now: u64, ids: Vec<String>)
        ensures
            final(self)@ == Some((now, strs_view(ids@))),
    {
        self.entry = Some((now, ids));
    }

    /// The ids found, unless `force` asks for a new detection or they are
    /// older than the maximum age at time `now`.
    pub fn fresh_ids(&self, now: u64, force: bool) -> (r: Option<Vec<String>>)
        ensures
            match r {
                Some(ids) => !force && self@ is Some && detection_age(found_at(self@), now)
                    < DETECTED_IDS_MAX_AGE_SECONDS && strs_view(ids@) == held_ids(self@),
                None => force || self@ is None || detection_age(found_at(self@), now) >= DETECTED_IDS_MAX_AGE_SECONDS,
            },
    {
        if force {
            return None;
        }
        match &self.entry {
            Some(e) => {
                let age: u64 = if now >= e.0 {
                    now - e.0
                } else {
                    0
                };
                if age < DETECTED_IDS_MAX_AGE_SECONDS {
                    Some(copy_ids(&e.1))
                } else {
                    None
                }
            },
            None => None,
        }
    }
}

fn copy_ids(v: &Vec<String>) -> (r: Vec<String>)
    ensures
        r@ == v@,
{
    let mut r: Vec<String> = Vec::new();
    let mut i: usize = 0;
    while i < v.len()
        invariant
            i <= v.len(),
            r@ == v@.subrange(0, i as int),
        decreases v.len() - i,
    {
        r.push(v[i].clone());
        i = i + 1;
        assert(r@ =~= v@.subrange(0, i as int));
    }
    assert(v@.subrange(0, i as int) =~= v@);
    r
}

/// Forgets the detected ids.
pub fn invalidate_detected_app_ids_cache(cache: &mut DetectedIdsCache)
    ensures
        final(cache)@ is None,
{
    cache.entry = None;
}

fn retain_other_ids(ids: Vec<String>, app_id: &[char]) -> (r: Vec<String>)
    ensures
        strs_view(r@) == without_id(strs_view(ids@), app_id@),
{
    let ghost sv = strs_view(ids@);
    let mut out: Vec<String> = Vec::new();
    let mut i: usize = 0;
    while i < ids.len()
        invariant
            i <= ids@.len(),
            sv == strs_view(ids@),
            strs_view(out@) == without_id(sv.take(i as int), app_id@),
        decreases ids@.len() - i,
    {
        assert(sv.take(i + 1).drop_last() =~= sv.take(i as int));
        assert(sv.take(i + 1).last() == ids@[i as int]@);
        reveal(Seq::filter);
        assert(without_id(sv.take(i + 1), app_id@) == (if !eq_ascii_ci(ids@[i as int]@, app_id@) {
            without_id(sv.take(i as int), app_id@).push(ids@[i as int]@)
        } else {
            without_id(sv.take(i as int), app_id@)
        }));
        if !eq_ignore_ascii_case(&chars_of(ids[i].as_str()), app_id) {
            out.push(ids[i].clone());
            assert(strs_view(out@) =~= without_id(sv.take(i + 1), app_id@));
        } else {
            assert(strs_view(out@) =~= without_id(sv.take(i + 1), app_id@));
        }
        i = i + 1;
    }
    assert(sv.take(i as int) =~= sv);
    out
}

/// Drops `app_id` (ASCII case ignored) from the detected ids, if any are held.
pub fn remove_from_detected_cache(cache: &mut DetectedIdsCache, app_id: &str)
    ensures
        final(cache)@ == after_remove(old(cache)@, app_id@),
{
    let taken = cache.entry.take();
    match taken {
        Some(e) => {
            let kept = retain_other_ids(e.1, &chars_of(app_id));
            cache.entry = Some((e.0, kept));
        },
        None => {},
    }
}

fn contains_id(ids: &Vec<String>, app_id: &[char]) -> (r: bool)
    ensures
        r == has_id(strs_view(ids@), app_id@),
{
    let mut i: usize = 0;
    while i < ids.len()
        invariant
            i <= ids@.len(),
            forall|j: int| 0 <= j < i ==> !eq_ascii_ci(#[trigger] strs_view(ids@)[j], app_id@),
        decreases ids@.len() - i,
    {
        if eq_ignore_ascii_case(&chars_of(ids[i].as_str()), app_id) {
            assert(eq_ascii_ci(strs_view(ids@)[i as int], app_id@));
            return true;
        }
        i = i + 1;
    }
    false
}

/// Adds `app_id` to the detected ids, if any are held and it is not among
/// them (ASCII case ignored).
pub fn add_to_detected_cache(cache: &mut DetectedIdsCache, app_id: &str)
    ensures
        final(cache)@ == after_add(old(cache)@, app_id@),
{
    let taken = cache.entry.take();
    match taken {
        Some(e) => {
            let id = chars_of(app_id);
            let mut ids = e.1;
            if !contains_id(&ids, &id) {
                ids.push(string_of(&id));
                assert(strs_view(ids@) =~= with_id(strs_view(e.1@), app_id@));
            }
            cache.entry = Some((e.0, ids));
        },
        None => {},
    }
}

/// Adding an id twice is the same as adding it once.
pub proof fn law_add_idempotent(c: DetectedView, app_id: Seq<char>)
    ensures
        after_add(after_add(c, app_id), app_id) == after_add(c, app_id),
{
    match c {
        Some(e) => {
            if !has_id(e.1, app_id) {
                let n = e.1.push(app_id);
                assert(eq_ascii_ci(n[e.1.len() as int], app_id));
            }
        },
        None => {},
    }
}

/// After an id is added to a held detection, the detection holds it.
pub proof fn law_added_id_is_held(c: DetectedView, app_id: Seq<char>)
    requires
        c is Some,
    ensures
        has_id(held_ids(after_add(c, app_id)), app_id),
{
    let e = c->0;
    if !has_id(e.1, app_id) {
        let n = e.1.push(app_id);
        assert(eq_ascii_ci(n[e.1.len() as int], app_id));
    }
}

/// After an id is removed, no held id equals it, and every other id is kept.
pub proof fn law_removed_id_is_gone(c: DetectedView, app_id: Seq<char>, other: Seq<char>)
    requires
        c is Some,
        !eq_ascii_ci(other, app_id),
    ensures
        !has_id(held_ids(after_remove(c, app_id)), app_id),
        held_ids(c).contains(other) ==> held_ids(after_remove(c, app_id)).contains(other),
{
    let ids = held_ids(c);
    let pred = |x: Seq<char>| !eq_ascii_ci(x, app_id);
    broadcast use vstd::seq_lib::group_filter_ensures;
    let f = ids.filter(pred);
    assert forall|i: int| 0 <= i < f.len() implies !eq_ascii_ci(#[trigger] f[i], app_id) by {
        assert(pred(f[i]));
    }
    if ids.contains(other) {
        assert(pred(other));
    }
}

} // verus!
