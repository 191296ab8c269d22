//! Update checks for installed applications and notifications for watched ones.

use vstd::prelude::*;
use crate::models::UpdateRule;
use crate::text::{chars_of, eq_chars, lowercase, string_of, to_lowercase, trim, trim_chars};
use crate::version::{is_version_newer, version_newer};

verus! {

/// Seconds between two notifications for one application under the daily policy.
pub const WATCH_DAILY_INTERVAL_SECONDS: i64 = 86400;

/// An application whose rule freezes or hides it is left out of update checks.
pub open spec fn rule_excludes(rule: Option<UpdateRule>) -> bool {
    match rule {
        Some(r) => r.is_frozen || r.is_hidden,
        None => false,
    }
}

pub fn excluded_by_rule(rule: Option<&UpdateRule>) -> (r: bool)
    ensures
        r == rule_excludes(
            match rule {
                Some(x) => Some(*x),
                None => None,
            },
        ),
{
    match rule {
        Some(x) => x.is_frozen || x.is_hidden,
        None => false,
    }
}

/// The rule that applies to an application: the last of the rules whose
/// lower-cased id is the application's lower-cased id (rules keyed by
/// lower-cased id keep the last one of several).
pub open spec fn rule_index_for(rules: Seq<UpdateRule>, app_id: Seq<char>) -> Option<int>
    decreases rules.len(),
{
    if rules.len() == 0 {
        None
    } else if lowercase(rules.last().app_id@) == lowercase(app_id) {
        Some(rules.len() - 1)
    } else {
        rule_index_for(rules.drop_last(), app_id)
    }
}

/// Finds the rule for an application, by index into `rules`.
pub fn rule_for(rules: &Vec<UpdateRule>, app_id: &str) -> (r: Option<usize>)
    ensures
        match r {
            Some(i) => rule_index_for(rules@, app_id@) == Some(i as int),
            None => rule_index_for(rules@, app_id@) is None,
        },
{
    let key = to_lowercase(app_id);
    let key_chars = chars_of(key.as_str());
    let mut i: usize = rules.len();
    proof {
        assert(rules@.take(i as int) =~= rules@);
    }
    while i > 0
        invariant
            i <= rules@.len(),
            key_chars@ == lowercase(app_id@),
            rule_index_for(rules@, app_id@) == rule_index_for(rules@.take(i as int), app_id@),
        decreases i,
    {
        let id = to_lowercase(rules[i - 1].app_id.as_str());
        proof {
            assert(rules@.take(i as int).drop_last() =~= rules@.take(i - 1));
            assert(rules@.take(i as int).last() == rules@[i - 1]);
        }
        if eq_chars(&chars_of(id.as_str()), &key_chars) {
            return Some(i - 1);
        }
        i = i - 1;
    }
    proof {
        assert(rules@.take(0) =~= Seq::<UpdateRule>::empty());
    }
    None
}

/// The rule found for an application does not depend on the case of its id.
pub proof fn law_rule_lookup_ignores_case(rules: Seq<UpdateRule>, a: Seq<char>, b: Seq<char>)
    requires
        lowercase(a) == lowercase(b),
    ensures
        rule_index_for(rules, a) == rule_index_for(rules, b),
    decreases rules.len(),
{
    if rules.len() > 0 {
        law_rule_lookup_ignores_case(rules.drop_last(), a, b);
    }
}

/// What to do for one watched application.
#[derive(Debug, PartialEq, Eq)]
pub enum WatchAction {
    /// Nothing.
    Skip,
    /// Record this version as the starting point, without notifying.
    SetBaseline(String),
    /// Notify about this version and record it.
    Notify(String),
}

pub enum WatchActionView {
    Skip,
    SetBaseline(Seq<char>),
    Notify(Seq<char>),
}

impl View for WatchAction {
    type V = WatchActionView;

    open spec fn view(&self) -> WatchActionView {
        match self {
            WatchAction::Skip => WatchActionView::Skip,
            WatchAction::SetBaseline(v) => WatchActionView::SetBaseline(v@),
            WatchAction::Notify(v) => WatchActionView::Notify(v@),
        }
    }
}

/// `now - then`, held within the range of `i64`.
pub open spec fn saturating_elapsed(now: i64, then: i64) -> int {
    let d = now - then;
    if d > i64::MAX {
        i64::MAX as int
    } else if d < i64::MIN {
        i64::MIN as int
    } else {
        d
    }
}

/// The decision for one watched application: nothing when a rule excludes
/// it, when no latest version could be had or it is blank; a silent baseline
/// the first time; a notification when the latest version is newer than the
/// one last recorded, unless the daily policy already notified within a day.
pub open spec fn watch_decision(
    excluded: bool,
    latest: Option<Seq<char>>,
    last_notified_version: Option<Seq<char>>,
    frequency: Seq<char>,
    last_notified_at: Option<i64>,
    now: i64,
) -> WatchActionView {
    if excluded {
        WatchActionView::Skip
    } else {
        match latest {
            None => WatchActionView::Skip,
            Some(l) => {
                let t = trim(l);
                if t.len() == 0 {
                    WatchActionView::Skip
                } else {
                    match last_notified_version {
                        None => WatchActionView::SetBaseline(t),
                        Some(base) => if !version_newer(base, t) {
                            WatchActionView::Skip
                        } else if frequency == "daily"@ && (last_notified_at matches Some(at)
                            && saturating_elapsed(now, at) < WATCH_DAILY_INTERVAL_SECONDS) {
                            WatchActionView::Skip
                        } else {
                            WatchActionView::Notify(t)
                        },
                    }
                }
            },
        }
    }
}

pub open spec fn opt_ref_view(o: Option<&str>) -> Option<Seq<char>> {
    match o {
        Some(s) => Some(s@),
        None => None,
    }
}

/// Decides whether to notify about a watched application.
pub fn decide_watch_action(
    excluded: bool,
    latest: Option<&str>,
    last_notified_version: Option<&str>,
    frequency: &str,
    last_notified_at: Option<i64>,
    now: i64,
) -> (r: WatchAction)
    ensures
        r@ == watch_decision(
            excluded,
            opt_ref_view(latest),
            opt_ref_view(last_notified_version),
            frequency@,
            last_notified_at,
            now,
        ),
{
    if excluded {
        return WatchAction::Skip;
    }
    let l = match latest {
        None => {
            return WatchAction::Skip;
        },
        Some(l) => l,
    };
    let t = trim_chars(&chars_of(l));
    if t.len() == 0 {
        return WatchAction::Skip;
    }
    let latest_s = string_of(&t);
    let base = match last_notified_version {
        None => {
            return WatchAction::SetBaseline(latest_s);
        },
        Some(b) => b,
    };
    if !is_version_newer(base, latest_s.as_str()) {
        return WatchAction::Skip;
    }
    if crate::text::eq_chars(&chars_of(frequency), &chars_of("daily")) {
        match last_notified_at {
            Some(at) => {
                let d: i128 = now as i128 - at as i128;
                let elapsed: i128 = if d > i64::MAX as i128 {
                    i64::MAX as i128
                } else if d < i64::MIN as i128 {
                    i64::MIN as i128
                } else {
                    d
                };
                if elapsed < WATCH_DAILY_INTERVAL_SECONDS as i128 {
                    return WatchAction::Skip;
                }
            },
            None => {},
        }
    }
    WatchAction::Notify(latest_s)
}

/// The first look at a watched application records a baseline and never notifies.
pub proof fn law_first_watch_is_silent(
    excluded: bool,
    latest: Option<Seq<char>>,
    frequency: Seq<char>,
    last_notified_at: Option<i64>,
    now: i64,
)
    ensures
        !(watch_decision(excluded, latest, None, frequency, last_notified_at, now) is Notify),
{
}

/// Under the daily policy, no application is notified twice within a day.
pub proof fn law_daily_at_most_once(
    excluded: bool,
    latest: Option<Seq<char>>,
    last_notified_version: Option<Seq<char>>,
    at: i64,
    now: i64,
)
    requires
        saturating_elapsed(now, at) < WATCH_DAILY_INTERVAL_SECONDS,
    ensures
        !(watch_decision(excluded, latest, last_notified_version, "daily"@, Some(at), now) is Notify),
{
}

/// A notification is only ever about a version newer than the one last recorded.
pub proof fn law_notify_only_newer(
    excluded: bool,
    latest: Option<Seq<char>>,
    base: Seq<char>,
    frequency: Seq<char>,
    last_notified_at: Option<i64>,
    now: i64,
)
    ensures
        watch_decision(excluded, latest, Some(base), frequency, last_notified_at, now) matches WatchActionView::Notify(
            v,
        ) ==> version_newer(base, v),
{
}

/// The version shown when the release request gave nothing usable: the
/// cached detail's version and change log, else the catalog's default
/// version with no change log, else an error.
pub open spec fn fallback_release(
    cached: Option<(Seq<char>, Seq<char>)>,
    catalog_version: Option<Seq<char>>,
    not_modified: bool,
) -> Result<(Seq<char>, Seq<char>), Seq<char>> {
    match cached {
        Some(c) => Ok(c),
        None => match catalog_version {
            Some(v) => Ok((v, Seq::empty())),
            None => if not_modified {
                Err("304 响应但未能提取到有效版本信息"@)
            } else {
                Err("检查更新网络不可达且无本地缓存"@)
            },
        },
    }
}

pub fn release_fallback(
    cached: Option<(String, String)>,
    catalog_version: Option<String>,
    not_modified: bool,
) -> (r: Result<(String, String), String>)
    ensures
        match r {
            Ok(p) => fallback_release(
                match cached {
                    Some(c) => Some((c.0@, c.1@)),
                    None => None,
                },
                match catalog_version {
                    Some(v) => Some(v@),
                    None => None,
                },
                not_modified,
            ) == Ok::<(Seq<char>, Seq<char>), Seq<char>>((p.0@, p.1@)),
            Err(e) => fallback_release(
                match cached {
                    Some(c) => Some((c.0@, c.1@)),
                    None => None,
                },
                match catalog_version {
                    Some(v) => Some(v@),
                    None => None,
                },
                not_modified,
            ) == Err::<(Seq<char>, Seq<char>), Seq<char>>(e@),
        },
{
    match cached {
        Some(c) => Ok(c),
        None => match catalog_version {
            Some(v) => Ok((v, String::new())),
            None => {
                if not_modified {
                    Err(string_of(&chars_of("304 响应但未能提取到有效版本信息")))
                } else {
                    Err(string_of(&chars_of("检查更新网络不可达且无本地缓存")))
                }
            },
        },
    }
}

} // verus!
