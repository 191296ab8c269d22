//! How a directory written in the settings is read: the home-directory
//! shorthand `~` and the environment variables it may name.

use vstd::prelude::*;
use crate::models::strs_view;
use crate::text::{chars_of, is_prefix, seqs_of, split, split_chars, starts_with, string_of, trim, trim_chars};

verus! {

/// What a directory setting denotes.
#[derive(Debug)]
pub enum PathForm {
    /// Blank: the default download directory.
    Empty,
    /// `~` alone: the home directory.
    Home,
    /// `~/...` or `~\...`: the pieces below the home directory, and the
    /// setting as written (trimmed), used when there is no home directory.
    BelowHome { pieces: Vec<String>, written: String },
    /// Anything else, trimmed.
    Written(String),
}

/// Mathematical value of a `PathForm`.
pub enum PathFormView {
    Empty,
    Home,
    BelowHome(Seq<Seq<char>>, Seq<char>),
    Written(Seq<char>),
}

impl View for PathForm {
    type V = PathFormView;

    open spec fn view(&self) -> PathFormView {
        match self {
            PathForm::Empty => PathFormView::Empty,
            PathForm::Home => PathFormView::Home,
            PathForm::BelowHome { pieces, written } => PathFormView::BelowHome(strs_view(pieces@), written@),
            PathForm::Written(w) => PathFormView::Written(w@),
        }
    }
}

/// How a setting is read: trimmed; blank, `~`, a path under `~/` or `~\`
/// (split at both separators), or a path as written.
pub open spec fn path_form_of(path: Seq<char>) -> PathFormView {
    let t = trim(path);
    if t.len() == 0 {
        PathFormView::Empty
    } else if t == "~"@ {
        PathFormView::Home
    } else if is_prefix("~/"@, t) || is_prefix("~\\"@, t) {
        PathFormView::BelowHome(split(t.skip(2), seq!['/', '\\']), t)
    } else {
        PathFormView::Written(t)
    }
}

fn strings_of(v: &Vec<Vec<char>>) -> (r: Vec<String>)
    ensures
        strs_view(r@) == seqs_of(v@),
{
    let mut out: Vec<String> = Vec::new();
    let mut i: usize = 0;
    while i < v.len()
        invariant
            i <= v@.len(),
            out@.len() == i,
            forall|j: int| 0 <= j < i ==> (#[trigger] out@[j])@ == v@[j]@,
        decreases v@.len() - i,
    {
        out.push(string_of(&v[i]));
        i = i + 1;
    }
    assert(strs_view(out@) =~= seqs_of(v@));
    out
}

/// Reads a directory setting.
pub fn path_form(path: &str) -> (r: PathForm)
    ensures
        r@ == path_form_of(path@),
{
    let t = trim_chars(&chars_of(path));
    if t.len() == 0 {
        return PathForm::Empty;
    }
    let tilde = chars_of("~");
    proof {
        reveal_strlit("~");
        reveal_strlit("~/");
        reveal_strlit("~\\");
    }
    if crate::text::eq_chars(&t, &tilde) {
        return PathForm::Home;
    }
    if starts_with(&t, &chars_of("~/")) || starts_with(&t, &chars_of("~\\")) {
        let rest = crate::text::slice_chars(&t, 2, t.len());
        assert(rest@ == t@.skip(2));
        let seps = vec!['/', '\\'];
        assert(seps@ =~= seq!['/', '\\']);
        let pieces = strings_of(&split_chars(&rest, &seps));
        return PathForm::BelowHome { pieces, written: string_of(&t) };
    }
    PathForm::Written(string_of(&t))
}

/// `s` with every occurrence of `pat` replaced by `rep`, scanning from the
/// left without overlaps, as `str::replace` does for a non-empty pattern.
pub open spec fn replaced(s: Seq<char>, pat: Seq<char>, rep: Seq<char>) -> Seq<char>
    decreases s.len(),
{
    if pat.len() == 0 || s.len() < pat.len() {
        s
    } else if s.subrange(0, pat.len() as int) == pat {
        rep + replaced(s.skip(pat.len() as int), pat, rep)
    } else {
        seq![s[0]] + replaced(s.drop_first(), pat, rep)
    }
}

fn matches_at(s: &[char], i: usize, pat: &[char]) -> (r: bool)
    requires
        i <= s.len(),
    ensures
        r == (pat.len() <= s.len() - i && s@.skip(i as int).subrange(0, pat.len() as int) == pat@),
{
    if pat.len() > s.len() - i {
        return false;
    }
    let mut k: usize = 0;
    while k < pat.len()
        invariant
            k <= pat.len(),
            pat.len() <= s.len() - i,
            forall|j: int| 0 <= j < k ==> s@[i + j] == pat@[j],
        decreases pat.len() - k,
    {
        if s[i + k] != pat[k] {
            assert(s@.skip(i as int).subrange(0, pat.len() as int)[k as int] != pat@[k as int]);
            return false;
        }
        k = k + 1;
    }
    assert(s@.skip(i as int).subrange(0, pat.len() as int) =~= pat@);
    true
}

fn replace_all(s: &[char], pat: &[char], rep: &[char]) -> (r: Vec<char>)
    requires
        pat.len() > 0,
    ensures
        r@ == replaced(s@, pat@, rep@),
{
    let mut out: Vec<char> = Vec::new();
    let mut i: usize = 0;
    assert(s@.skip(0) =~= s@);
    while i < s.len()
        invariant
            i <= s.len(),
            pat.len() > 0,
            out@ + replaced(s@.skip(i as int), pat@, rep@) == replaced(s@, pat@, rep@),
        decreases s.len() - i,
    {
        let ghost tail = s@.skip(i as int);
        if matches_at(s, i, pat) {
            assert(tail.skip(pat.len() as int) =~= s@.skip(i + pat.len()));
            let mut k: usize = 0;
            let ghost before = out@;
            while k < rep.len()
                invariant
                    k <= rep.len(),
                    out@ == before + rep@.take(k as int),
                decreases rep.len() - k,
            {
                out.push(rep[k]);
                assert(out@ =~= before + rep@.take(k + 1));
                k = k + 1;
            }
            assert(rep@.take(k as int) =~= rep@);
            assert(before + rep@ + replaced(s@.skip(i + pat.len()), pat@, rep@) =~= before + (rep@ + replaced(
                s@.skip(i + pat.len()),
                pat@,
                rep@,
            )));
            i = i + pat.len();
        } else {
            assert(tail.drop_first() =~= s@.skip(i + 1));
            assert(tail[0] == s@[i as int]);
            proof {
                if tail.len() < pat@.len() {
                    assert(s@.skip(i + 1).len() < pat@.len());
                    assert(seq![s@[i as int]] + s@.skip(i + 1) =~= tail);
                }
            }
            let ghost before = out@;
            out.push(s[i]);
            assert(out@ + replaced(s@.skip(i + 1), pat@, rep@) =~= before + (seq![s@[i as int]] + replaced(
                s@.skip(i + 1),
                pat@,
                rep@,
            )));
            i = i + 1;
        }
    }
    assert(s@.skip(i as int).len() == 0);
    assert(out@ + replaced(s@.skip(i as int), pat@, rep@) =~= out@);
    out
}

/// `path` with `%NAME%` replaced by the value of each given variable, one
/// variable after the other, in the order given.
pub open spec fn windows_expanded(path: Seq<char>, vars: Seq<(Seq<char>, Seq<char>)>) -> Seq<char>
    decreases vars.len(),
{
    if vars.len() == 0 {
        path
    } else {
        replaced(
            windows_expanded(path, vars.drop_last()),
            "%"@ + vars.last().0 + "%"@,
            vars.last().1,
        )
    }
}

/// Expands the `%NAME%` variables of a Windows directory setting with the
/// values given, in order (the store reads `LOCALAPPDATA`, `USERPROFILE`,
/// `TEMP` and `APPDATA`, those that are set).
pub fn expand_windows_variables(path: &str, vars: &Vec<(String, String)>) -> (r: String)
    ensures
        r@ == windows_expanded(path@, crate::settings::pairs_view(vars@)),
{
    let mut cur = chars_of(path);
    let ghost pv = crate::settings::pairs_view(vars@);
    let mut i: usize = 0;
    assert(pv.take(0) =~= Seq::<(Seq<char>, Seq<char>)>::empty());
    while i < vars.len()
        invariant
            i <= vars@.len(),
            pv == crate::settings::pairs_view(vars@),
            pv.len() == vars@.len(),
            cur@ == windows_expanded(path@, pv.take(i as int)),
        decreases vars@.len() - i,
    {
        proof {
            reveal_strlit("%");
        }
        let pct = chars_of("%");
        let pat = crate::text::concat(&crate::text::concat(&pct, &chars_of(vars[i].0.as_str())), &pct);
        assert(pv.take(i + 1).drop_last() =~= pv.take(i as int));
        assert(pv.take(i + 1).last() == pv[i as int]);
        assert(pv[i as int] == (vars@[i as int].0@, vars@[i as int].1@));
        cur = replace_all(&cur, &pat, &chars_of(vars[i].1.as_str()));
        i = i + 1;
    }
    assert(pv.take(i as int) =~= pv);
    string_of(&cur)
}

/// Expands a leading `$HOME` of a directory setting with the home directory,
/// when one is known.
pub fn expand_home_variable(path: &str, home: Option<&str>) -> (r: String)
    ensures
        r@ == match home {
            Some(h) => if is_prefix("$HOME"@, path@) {
                h@ + path@.skip(5)
            } else {
                path@
            },
            None => path@,
        },
{
    let p = chars_of(path);
    proof {
        reveal_strlit("$HOME");
    }
    match home {
        Some(h) => {
            if starts_with(&p, &chars_of("$HOME")) {
                let rest = crate::text::slice_chars(&p, 5, p.len());
                assert(rest@ == path@.skip(5));
                return string_of(&crate::text::concat(&chars_of(h), &rest));
            }
            string_of(&p)
        },
        None => string_of(&p),
    }
}

} // verus!
