//! Release version comparison and the update policy built on it.

use vstd::prelude::*;
use crate::text::{
    chars_of, eq_chars, is_ascii_digit, seqs_of, split, split_chars, strip_leading, strip_leading_chars,
    trim, trim_chars,
};
use crate::models::UpdateRule;

verus! {

/// Characters that separate the numeric components of a version.
pub open spec fn version_seps() -> Seq<char> {
    seq!['.', '-', '_']
}

/// Length of the run of ASCII digits at the start of `p`.
pub open spec fn digit_run(p: Seq<char>) -> nat
    decreases p.len(),
{
    if p.len() > 0 && is_ascii_digit(p[0]) {
        1 + digit_run(p.drop_first())
    } else {
        0
    }
}

pub open spec fn digit_value(c: char) -> nat {
    ((c as u32) - ('0' as u32)) as nat
}

/// Decimal value of a sequence of digits.
pub open spec fn decimal_value(d: Seq<char>) -> nat
    decreases d.len(),
{
    if d.len() == 0 {
        0
    } else {
        decimal_value(d.drop_last()) * 10 + digit_value(d.last())
    }
}

/// The number a version component stands for: its leading digits read as a `u64`;
/// none when it has no leading digit or the value does not fit.
pub open spec fn part_number(p: Seq<char>) -> Option<u64> {
    let n = digit_run(p);
    if n > 0 && decimal_value(p.take(n as int)) <= u64::MAX {
        Some(decimal_value(p.take(n as int)) as u64)
    } else {
        None
    }
}

/// The numeric components of a version string: leading `v`s and surrounding
/// white space removed, split at `.`, `-` and `_`, components without a number dropped.
pub open spec fn version_numbers(s: Seq<char>) -> Seq<u64> {
    split(trim(strip_leading(s, 'v')), version_seps()).filter_map(|p: Seq<char>| part_number(p))
}

/// Component `i` of `a`, or 0 past its end.
pub open spec fn num_at(a: Seq<u64>, i: int) -> int {
    if 0 <= i < a.len() {
        a[i] as int
    } else {
        0
    }
}

pub open spec fn max_len(a: Seq<u64>, b: Seq<u64>) -> int {
    if a.len() >= b.len() {
        a.len() as int
    } else {
        b.len() as int
    }
}

/// `l` is greater than `c` when both are compared component by component,
/// the shorter one padded with zeros.
pub open spec fn numbers_newer(c: Seq<u64>, l: Seq<u64>) -> bool {
    exists|k: int|
        #![trigger num_at(l, k)]
        0 <= k < max_len(c, l) && num_at(l, k) > num_at(c, k) && forall|j: int|
            0 <= j < k ==> num_at(l, j) == num_at(c, j)
}

/// `latest` is strictly newer than `current`. Where either has no numeric
/// component, any difference (ignoring leading `v`s) counts as newer.
pub open spec fn version_newer(current: Seq<char>, latest: Seq<char>) -> bool {
    let c = version_numbers(current);
    let l = version_numbers(latest);
    if c.len() == 0 || l.len() == 0 {
        strip_leading(current, 'v') != strip_leading(latest, 'v')
    } else {
        numbers_newer(c, l)
    }
}

/// Whether an update from `current` to `latest` is offered under `rule`.
pub open spec fn include_update(current: Seq<char>, latest: Seq<char>, rule: Option<UpdateRule>) -> bool {
    match rule {
        Some(r) => {
            &&& !r.is_frozen
            &&& !r.is_hidden
            &&& !(r.skipped_version matches Some(sv) && trim(strip_leading(sv@, 'v')) == trim(
                strip_leading(latest, 'v'),
            ))
            &&& version_newer(current, latest)
        },
        None => version_newer(current, latest),
    }
}

proof fn lemma_digit_run_at(p: Seq<char>, i: int)
    requires
        0 <= i <= p.len(),
        forall|j: int| 0 <= j < i ==> is_ascii_digit(p[j]),
        i == p.len() || !is_ascii_digit(p[i]),
    ensures
        digit_run(p) == i,
    decreases i,
{
    if i > 0 {
        let t = p.drop_first();
        assert forall|j: int| 0 <= j < i - 1 implies is_ascii_digit(t[j]) by {
            assert(t[j] == p[j + 1]);
        }
        if i < p.len() {
            assert(t[i - 1] == p[i]);
        }
        lemma_digit_run_at(t, i - 1);
    }
}

/// Reads the number of one version component.
fn component_number(p: &[char]) -> (r: Option<u64>)
    ensures
        r == part_number(p@),
{
    let mut i: usize = 0;
    let mut val: u64 = 0;
    let mut overflow = false;
    while i < p.len() && '0' <= p[i] && p[i] <= '9'
        invariant
            i <= p.len(),
            forall|j: int| 0 <= j < i ==> is_ascii_digit(p@[j]),
            !overflow ==> val as nat == decimal_value(p@.take(i as int)),
            overflow ==> decimal_value(p@.take(i as int)) > u64::MAX,
        decreases p.len() - i,
    {
        let c = p[i];
        let d: u64 = ((c as u32) - ('0' as u32)) as u64;
        let ghost prev = p@.take(i as int);
        assert(p@.take(i + 1).drop_last() =~= prev);
        assert(p@.take(i + 1).last() == c);
        if !overflow {
            match val.checked_mul(10) {
                Some(m) => match m.checked_add(d) {
                    Some(n) => {
                        val = n;
                    },
                    None => {
                        overflow = true;
                    },
                },
                None => {
                    overflow = true;
                },
            }
        }
        i = i + 1;
    }
    proof {
        lemma_digit_run_at(p@, i as int);
    }
    if i > 0 && !overflow {
        Some(val)
    } else {
        None
    }
}

/// The numeric components of a version string.
fn parse_version_numbers(s: &[char]) -> (r: Vec<u64>)
    ensures
        r@ == version_numbers(s@),
{
    let stripped = strip_leading_chars(s, 'v');
    let clean = trim_chars(&stripped);
    let seps = vec!['.', '-', '_'];
    assert(seps@ =~= version_seps());
    let parts = split_chars(&clean, &seps);
    let ghost ps = seqs_of(parts@);
    let mut r: Vec<u64> = Vec::new();
    let mut i: usize = 0;
    assert(ps.take(0) =~= Seq::<Seq<char>>::empty());
    while i < parts.len()
        invariant
            i <= parts.len(),
            ps == seqs_of(parts@),
            ps.len() == parts.len(),
            r@ == ps.take(i as int).filter_map(|p: Seq<char>| part_number(p)),
        decreases parts.len() - i,
    {
        assert(ps[i as int] == parts@[i as int]@);
        let n = component_number(&parts[i]);
        assert(ps.take(i + 1).drop_last() =~= ps.take(i as int));
        assert(ps.take(i + 1).last() == ps[i as int]);
        match n {
            Some(x) => {
                r.push(x);
            },
            None => {},
        }
        assert(r@ =~= ps.take(i + 1).filter_map(|p: Seq<char>| part_number(p)));
        i = i + 1;
    }
    assert(ps.take(parts.len() as int) =~= ps);
    r
}

/// Strictly compares two versions; true only when `latest` is higher than `current`.
/// Missing trailing components count as zero, so `3.0.21.0` and `v3.0.21` are equal.
pub fn is_version_newer(current: &str, latest: &str) -> (r: bool)
    ensures
        r == version_newer(current@, latest@),
{
    let cur = chars_of(current);
    let lat = chars_of(latest);
    let c = parse_version_numbers(&cur);
    let l = parse_version_numbers(&lat);
    if c.len() == 0 || l.len() == 0 {
        let a = strip_leading_chars(&cur, 'v');
        let b = strip_leading_chars(&lat, 'v');
        return !eq_chars(&a, &b);
    }
    let m: usize = if c.len() >= l.len() { c.len() } else { l.len() };
    let mut i: usize = 0;
    while i < m
        invariant
            cur@ == current@,
            lat@ == latest@,
            c.len() > 0,
            l.len() > 0,
            c@ == version_numbers(cur@),
            l@ == version_numbers(lat@),
            m == max_len(c@, l@),
            i <= m,
            forall|j: int| 0 <= j < i ==> num_at(l@, j) == num_at(c@, j),
        decreases m - i,
    {
        let cv: u64 = if i < c.len() { c[i] } else { 0 };
        let lv: u64 = if i < l.len() { l[i] } else { 0 };
        assert(cv == num_at(c@, i as int));
        assert(lv == num_at(l@, i as int));
        if lv > cv {
            assert(numbers_newer(c@, l@));
            return true;
        } else if lv < cv {
            assert forall|k: int|
                #![trigger num_at(l@, k)]
                0 <= k < max_len(c@, l@) && num_at(l@, k) > num_at(c@, k) implies exists|j: int|
                0 <= j < k && num_at(l@, j) != num_at(c@, j) by {
                assert(k > i);
                assert(num_at(l@, i as int) != num_at(c@, i as int));
            }
            return false;
        }
        i = i + 1;
    }
    assert forall|k: int|
        #![trigger num_at(l@, k)]
        0 <= k < max_len(c@, l@) implies num_at(l@, k) == num_at(c@, k) by {}
    false
}

/// Whether the update to `latest_version` should be offered, given the user's
/// rule for the application: frozen or hidden applications are never offered,
/// a skipped release (leading `v` ignored) is not offered again, and otherwise
/// the release must be strictly newer.
pub fn should_include_update(current_version: &str, latest_version: &str, rule: Option<&UpdateRule>) -> (r: bool)
    ensures
        r == include_update(
            current_version@,
            latest_version@,
            match rule {
                Some(x) => Some(*x),
                None => None,
            },
        ),
        rule matches Some(x) && (x.is_frozen || x.is_hidden) ==> !r,
        r ==> version_newer(current_version@, latest_version@),
{
    match rule {
        Some(x) => {
            if x.is_frozen || x.is_hidden {
                return false;
            }
            match &x.skipped_version {
                Some(skipped) => {
                    let sv = chars_of(skipped.as_str());
                    let lv = chars_of(latest_version);
                    let a = trim_chars(&strip_leading_chars(&sv, 'v'));
                    let b = trim_chars(&strip_leading_chars(&lv, 'v'));
                    if eq_chars(&a, &b) {
                        return false;
                    }
                },
                None => {},
            }
        },
        None => {},
    }
    is_version_newer(current_version, latest_version)
}


/// No version is newer than itself.
pub proof fn law_version_irreflexive(v: Seq<char>)
    ensures
        !version_newer(v, v),
{
}

/// Between two versions that both carry a number, at most one direction is newer.
pub proof fn law_version_asymmetric(a: Seq<char>, b: Seq<char>)
    requires
        version_numbers(a).len() > 0,
        version_numbers(b).len() > 0,
    ensures
        !(version_newer(a, b) && version_newer(b, a)),
{
    let x = version_numbers(a);
    let y = version_numbers(b);
    if numbers_newer(x, y) && numbers_newer(y, x) {
        let k1 = choose|k: int|
            #![trigger num_at(y, k)]
            0 <= k < max_len(x, y) && num_at(y, k) > num_at(x, k) && forall|j: int|
                0 <= j < k ==> num_at(y, j) == num_at(x, j);
        let k2 = choose|k: int|
            #![trigger num_at(x, k)]
            0 <= k < max_len(y, x) && num_at(x, k) > num_at(y, k) && forall|j: int|
                0 <= j < k ==> num_at(x, j) == num_at(y, j);
        if k1 < k2 {
            assert(num_at(x, k1) == num_at(y, k1));
        } else if k2 < k1 {
            assert(num_at(y, k2) == num_at(x, k2));
        }
    }
}

/// Newer is transitive among versions that all carry a number.
pub proof fn law_version_transitive(a: Seq<char>, b: Seq<char>, c: Seq<char>)
    requires
        version_numbers(a).len() > 0,
        version_numbers(b).len() > 0,
        version_numbers(c).len() > 0,
        version_newer(a, b),
        version_newer(b, c),
    ensures
        version_newer(a, c),
{
    let x = version_numbers(a);
    let y = version_numbers(b);
    let z = version_numbers(c);
    let k1 = choose|k: int|
        #![trigger num_at(y, k)]
        0 <= k < max_len(x, y) && num_at(y, k) > num_at(x, k) && forall|j: int|
            0 <= j < k ==> num_at(y, j) == num_at(x, j);
    let k2 = choose|k: int|
        #![trigger num_at(z, k)]
        0 <= k < max_len(y, z) && num_at(z, k) > num_at(y, k) && forall|j: int|
            0 <= j < k ==> num_at(z, j) == num_at(y, j);
    let k = if k1 <= k2 { k1 } else { k2 };
    if k1 <= k2 {
        assert(num_at(z, k1) >= num_at(y, k1)) by {
            if k1 < k2 {
                assert(num_at(z, k1) == num_at(y, k1));
            }
        }
    } else {
        assert(num_at(y, k2) == num_at(x, k2));
    }
    assert(forall|j: int| 0 <= j < k ==> num_at(z, j) == num_at(x, j)) by {
        assert forall|j: int| 0 <= j < k implies num_at(z, j) == num_at(x, j) by {
            assert(num_at(z, j) == num_at(y, j));
            assert(num_at(y, j) == num_at(x, j));
        }
    }
    assert(0 <= k < max_len(x, z)) by {
        if k1 <= k2 {
            if k1 >= max_len(x, z) {
                assert(num_at(y, k1) > num_at(x, k1));
                assert(num_at(z, k1) >= num_at(y, k1));
            }
        } else {
            if k2 >= max_len(x, z) {
                assert(num_at(z, k2) > num_at(y, k2));
            }
        }
    }
    assert(num_at(z, k) > num_at(x, k));
}

proof fn first_difference(x: Seq<u64>, y: Seq<u64>, d: int) -> (i: int)
    requires
        num_at(x, d) != num_at(y, d),
    ensures
        i <= d,
        num_at(x, i) != num_at(y, i),
        forall|j: int| 0 <= j < i ==> num_at(x, j) == num_at(y, j),
    decreases d,
{
    if d > 0 && exists|j: int| 0 <= j < d && num_at(x, j) != num_at(y, j) {
        let j = choose|j: int| 0 <= j < d && num_at(x, j) != num_at(y, j);
        first_difference(x, y, j)
    } else {
        d
    }
}

/// Between two versions that both carry a number, either one is newer or
/// they agree on every component once padded with zeros.
pub proof fn law_version_total(a: Seq<char>, b: Seq<char>)
    requires
        version_numbers(a).len() > 0,
        version_numbers(b).len() > 0,
    ensures
        version_newer(a, b) || version_newer(b, a) || forall|k: int|
            #![trigger num_at(version_numbers(a), k)]
            num_at(version_numbers(a), k) == num_at(version_numbers(b), k),
{
    let x = version_numbers(a);
    let y = version_numbers(b);
    if !(forall|k: int| #![trigger num_at(x, k)] num_at(x, k) == num_at(y, k)) {
        let d = choose|k: int| #![trigger num_at(x, k)] num_at(x, k) != num_at(y, k);
        let i = first_difference(x, y, d);
        assert(0 <= i < max_len(x, y)) by {
            if i >= max_len(x, y) {
                assert(num_at(x, i) == 0);
            }
        }
        if num_at(y, i) > num_at(x, i) {
            assert(numbers_newer(x, y));
        } else {
            assert(num_at(x, i) > num_at(y, i));
            assert(numbers_newer(y, x));
        }
    }
}

} // verus!
