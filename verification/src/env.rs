//! Environment discovery: picking `node` / `dsh` out of `where` output and
//! reading the real JavaScript entry out of an npm `.cmd` shim.
use vstd::prelude::*;

use crate::text::{
    chars_of, ends_with, find, find_str, lines, lines_exec, lowercase, replace_all, replace_exec,
    rfind, rfind_exec, slice, string_of, to_lowercase, trim, trim_char, trim_matches, trim_ws,
    ends_with_str,
};

verus! {

/// Result of the environment check.
pub struct EnvInfo {
    pub node: Option<String>,
    pub dsh: Option<String>,
    pub dsh_entry: Option<String>,
}

impl EnvInfo {
    /// A field-by-field copy.
    pub fn copy(&self) -> (r: EnvInfo)
        ensures
            r == *self,
    {
        EnvInfo {
            node: copy_opt(&self.node),
            dsh: copy_opt(&self.dsh),
            dsh_entry: copy_opt(&self.dsh_entry),
        }
    }
}

fn copy_opt(o: &Option<String>) -> (r: Option<String>)
    ensures
        r == *o,
{
    match o {
        Some(s) => Some(s.clone()),
        None => None,
    }
}

// ---------------------------------------------------------------- where

/// The non-empty trimmed lines of `where` output, in order.
pub open spec fn where_candidates(ls: Seq<Seq<char>>) -> Seq<Seq<char>>
    decreases ls.len(),
{
    if ls.len() == 0 {
        seq![]
    } else {
        let t = trim(ls[0]);
        let rest = where_candidates(ls.drop_first());
        if t.len() > 0 {
            seq![t] + rest
        } else {
            rest
        }
    }
}

/// A path whose lowercase form ends in `.cmd` or `.exe`.
pub open spec fn is_launcher(path: Seq<char>) -> bool {
    ends_with(lowercase(path), ".cmd"@) || ends_with(lowercase(path), ".exe"@)
}

/// The first launcher among the candidates.
pub open spec fn first_launcher(cs: Seq<Seq<char>>) -> Option<Seq<char>>
    decreases cs.len(),
{
    if cs.len() == 0 {
        None
    } else if is_launcher(cs[0]) {
        Some(cs[0])
    } else {
        first_launcher(cs.drop_first())
    }
}

/// The entry that `where` output selects: the first launcher (`.cmd` /
/// `.exe`) line, else the first non-empty line.
pub open spec fn where_pick(output: Seq<char>) -> Option<Seq<char>> {
    let cs = where_candidates(lines(output));
    match first_launcher(cs) {
        Some(c) => Some(c),
        None => if cs.len() > 0 {
            Some(cs[0])
        } else {
            None
        },
    }
}

proof fn lemma_where_candidates_skip(ls: Seq<Seq<char>>, i: int)
    requires
        0 <= i < ls.len(),
    ensures
        where_candidates(ls.skip(i)) == (if trim(ls[i]).len() > 0 {
            seq![trim(ls[i])]
        } else {
            seq![]
        }) + where_candidates(ls.skip(i + 1)),
{
    assert(ls.skip(i)[0] == ls[i]);
    assert(ls.skip(i).drop_first() == ls.skip(i + 1));
    if trim(ls[i]).len() == 0 {
        assert(seq![] + where_candidates(ls.skip(i + 1)) == where_candidates(ls.skip(i + 1)));
    }
}

/// A line of the output that is a candidate launcher.
pub open spec fn launcher_line(ls: Seq<Seq<char>>, j: int) -> bool {
    trim(ls[j]).len() > 0 && is_launcher(trim(ls[j]))
}

proof fn lemma_candidates_in_lines(ls: Seq<Seq<char>>)
    ensures
        first_launcher(where_candidates(ls)) matches Some(p) ==> exists|i: int|
            0 <= i < ls.len() && trim(ls[i]) == p && #[trigger] launcher_line(ls, i) && forall|j: int|
                0 <= j < i ==> !#[trigger] launcher_line(ls, j),
        first_launcher(where_candidates(ls)) is None ==> forall|j: int|
            0 <= j < ls.len() ==> !#[trigger] launcher_line(ls, j),
        where_candidates(ls).len() > 0 ==> exists|i: int|
            0 <= i < ls.len() && #[trigger] trim(ls[i]) == where_candidates(ls)[0] && trim(
                ls[i],
            ).len() > 0 && forall|j: int| 0 <= j < i ==> #[trigger] trim(ls[j]).len() == 0,
        where_candidates(ls).len() == 0 ==> forall|j: int|
            0 <= j < ls.len() ==> #[trigger] trim(ls[j]).len() == 0,
    decreases ls.len(),
{
    if ls.len() > 0 {
        let t = ls.drop_first();
        lemma_candidates_in_lines(t);
        let cs = where_candidates(ls);
        let rest = where_candidates(t);
        assert forall|j: int| 0 <= j < t.len() implies t[j] == ls[j + 1] by {}
        assert forall|j: int| 0 < j < ls.len() implies launcher_line(ls, j) == launcher_line(t, j - 1) by {
            assert(ls[j] == t[j - 1]);
        }
        if trim(ls[0]).len() > 0 {
            assert(cs == seq![trim(ls[0])] + rest);
            assert(cs[0] == trim(ls[0]));
            assert(cs.drop_first() == rest);
            if is_launcher(trim(ls[0])) {
                assert(launcher_line(ls, 0));
            } else {
                assert(!launcher_line(ls, 0));
                assert(first_launcher(cs) == first_launcher(rest));
                if let Some(p) = first_launcher(rest) {
                    let i = choose|i: int|
                        0 <= i < t.len() && trim(t[i]) == p && #[trigger] launcher_line(t, i)
                            && forall|j: int| 0 <= j < i ==> !#[trigger] launcher_line(t, j);
                    assert(launcher_line(ls, i + 1));
                    assert forall|j: int| 0 <= j < i + 1 implies !#[trigger] launcher_line(ls, j) by {
                        if j > 0 {
                            assert(launcher_line(ls, j) == launcher_line(t, j - 1));
                        }
                    }
                }
            }
        } else {
            assert(cs == rest);
            assert(!launcher_line(ls, 0));
            if let Some(p) = first_launcher(rest) {
                let i = choose|i: int|
                    0 <= i < t.len() && trim(t[i]) == p && #[trigger] launcher_line(t, i) && forall|
                        j: int,
                    | 0 <= j < i ==> !#[trigger] launcher_line(t, j);
                assert(launcher_line(ls, i + 1));
                assert forall|j: int| 0 <= j < i + 1 implies !#[trigger] launcher_line(ls, j) by {
                    if j > 0 {
                        assert(launcher_line(ls, j) == launcher_line(t, j - 1));
                    }
                }
            }
            if rest.len() > 0 {
                let i = choose|i: int|
                    0 <= i < t.len() && #[trigger] trim(t[i]) == rest[0] && trim(t[i]).len() > 0
                        && forall|j: int| 0 <= j < i ==> #[trigger] trim(t[j]).len() == 0;
                assert(trim(ls[i + 1]) == cs[0]);
                assert forall|j: int| 0 <= j < i + 1 implies #[trigger] trim(ls[j]).len() == 0 by {
                    if j > 0 {
                        assert(ls[j] == t[j - 1]);
                    }
                }
            }
            assert forall|j: int| 0 <= j < ls.len() && rest.len() == 0 implies #[trigger] trim(
                ls[j],
            ).len() == 0 by {
                if j > 0 {
                    assert(ls[j] == t[j - 1]);
                }
            }
        }
    }
}

/// What `where` output selects, stated over its lines: when some non-empty
/// line is a launcher (`.cmd` / `.exe`), the pick is the trimmed launcher
/// line of least index, and no earlier line is a launcher; when none is, the
/// pick is the first non-empty line; when every line is blank, nothing.
pub proof fn lemma_where_pick_is_first_launcher(output: Seq<char>)
    ensures
        forall|i: int|
            0 <= i < lines(output).len() && #[trigger] launcher_line(lines(output), i) && (forall|j: int|
                0 <= j < i ==> !launcher_line(lines(output), j)) ==> where_pick(output) == Some(
                trim(lines(output)[i]),
            ),
        (forall|j: int| 0 <= j < lines(output).len() ==> !#[trigger] launcher_line(lines(output), j))
            ==> forall|i: int|
            0 <= i < lines(output).len() && #[trigger] trim(lines(output)[i]).len() > 0 && (forall|
                j: int,
            | 0 <= j < i ==> trim(lines(output)[j]).len() == 0) ==> where_pick(output) == Some(
                trim(lines(output)[i]),
            ),
        (forall|j: int| 0 <= j < lines(output).len() ==> #[trigger] trim(lines(output)[j]).len() == 0)
            ==> where_pick(output) is None,
{
    let ls = lines(output);
    lemma_candidates_in_lines(ls);
}

/// The executable that `where <name>` found, from its standard output (used
/// when the command succeeded).
pub fn where_find(output: &str) -> (r: Option<String>)
    ensures
        r matches Some(p) ==> where_pick(output@) == Some(p@),
        r is None ==> where_pick(output@) is None,
{
    let v = chars_of(output);
    let ls = lines_exec(&v);
    let ghost lv = lines(v@);
    let mut cands: Vec<Vec<char>> = Vec::new();
    let ghost mut cv: Seq<Seq<char>> = seq![];
    let mut i: usize = 0;
    assert(lv.skip(0) == lv);
    while i < ls.len()
        invariant
            i <= ls@.len(),
            ls@.len() == lv.len(),
            forall|k: int| 0 <= k < ls@.len() ==> #[trigger] ls@[k]@ == lv[k],
            cands@.len() == cv.len(),
            forall|k: int| 0 <= k < cands@.len() ==> #[trigger] cands@[k]@ == cv[k],
            cv + where_candidates(lv.skip(i as int)) == where_candidates(lv),
        decreases ls.len() - i,
    {
        proof {
            lemma_where_candidates_skip(lv, i as int);
        }
        let t = trim_ws(&ls[i]);
        if t.len() > 0 {
            proof {
                cv = cv.push(t@);
            }
            cands.push(t);
        }
        i = i + 1;
    }
    proof {
        assert(lv.skip(i as int).len() == 0);
        assert(cv + Seq::<Seq<char>>::empty() == cv);
    }
    let mut j: usize = 0;
    assert(cv.skip(0) == cv);
    while j < cands.len()
        invariant
            j <= cands@.len(),
            cands@.len() == cv.len(),
            forall|k: int| 0 <= k < cands@.len() ==> #[trigger] cands@[k]@ == cv[k],
            cv == where_candidates(lv),
            lv == lines(output@),
            first_launcher(cv) == first_launcher(cv.skip(j as int)),
        decreases cands.len() - j,
    {
        assert(cv.skip(j as int)[0] == cv[j as int]);
        assert(cv.skip(j as int).drop_first() == cv.skip(j + 1));
        let s = string_of(&cands[j]);
        let low = to_lowercase(s.as_str());
        let lv2 = chars_of(low.as_str());
        if ends_with_str(&lv2, ".cmd") || ends_with_str(&lv2, ".exe") {
            assert(lv2@ == lowercase(cv[j as int]));
            assert(is_launcher(cv[j as int]));
            assert(first_launcher(cv.skip(j as int)) == Some(cv[j as int]));
            return Some(s);
        }
        j = j + 1;
    }
    assert(cv.skip(j as int).len() == 0);
    if cands.len() > 0 {
        Some(string_of(&cands[0]))
    } else {
        None
    }
}

// ---------------------------------------------------------------- shim

/// The JavaScript entry that an npm `.cmd` shim names, before the check that
/// the file exists: from the last `"` (else `%`) before the first
/// `node_modules` up to the next `"` (else the end), with the shim's
/// directory put in for `%~dp0`, then `%dp0%`, then `%dp0`, and surrounding
/// quotes removed.
pub open spec fn dsh_entry_of(content: Seq<char>, shim_dir: Seq<char>) -> Option<Seq<char>> {
    match find(content, "node_modules"@) {
        None => None,
        Some(idx) => {
            let head = content.take(idx);
            let start = match rfind(head, '"') {
                Some(k) => Some(k),
                None => rfind(head, '%'),
            };
            match start {
                None => None,
                Some(st) => {
                    let end = match find(content.skip(idx), seq!['"']) {
                        Some(i) => idx + i,
                        None => content.len() as int,
                    };
                    let raw = content.subrange(st, end);
                    Some(
                        trim_char(
                            replace_all(
                                replace_all(replace_all(raw, "%~dp0"@, shim_dir), "%dp0%"@, shim_dir),
                                "%dp0"@,
                                shim_dir,
                            ),
                            '"',
                        ),
                    )
                },
            }
        },
    }
}

/// The entry path that a shim's text names (see [`dsh_entry_of`]); the
/// caller keeps it only if that file exists.
pub fn dsh_entry_candidate(content: &str, shim_dir: &str) -> (r: Option<String>)
    ensures
        r matches Some(p) ==> dsh_entry_of(content@, shim_dir@) == Some(p@),
        r is None ==> dsh_entry_of(content@, shim_dir@) is None,
{
    let v = chars_of(content);
    let idx = match find_str(&v, "node_modules") {
        Some(i) => i,
        None => return None,
    };
    proof {
        crate::text::lemma_find(v@, "node_modules"@);
    }
    let start = match rfind_exec(&v, idx, '"') {
        Some(k) => k,
        None => match rfind_exec(&v, idx, '%') {
            Some(k) => k,
            None => return None,
        },
    };
    proof {
        crate::text::lemma_rfind(v@.take(idx as int), '"');
        crate::text::lemma_rfind(v@.take(idx as int), '%');
    }
    let tail = slice(&v, idx, v.len());
    assert(tail@ == v@.skip(idx as int));
    let end = match find_str(&tail, "\"") {
        Some(i) => {
            proof {
                crate::text::lemma_find(tail@, "\""@);
            }
            idx + i
        },
        None => v.len(),
    };
    proof {
        reveal_strlit("\"");
        assert("\""@ == seq!['"']);
    }
    let raw = slice(&v, start, end);
    let dir = chars_of(shim_dir);
    let p1 = chars_of("%~dp0");
    let p2 = chars_of("%dp0%");
    let p3 = chars_of("%dp0");
    proof {
        reveal_strlit("%~dp0");
        reveal_strlit("%dp0%");
        reveal_strlit("%dp0");
    }
    let r1 = replace_exec(&raw, &p1, &dir);
    let r2 = replace_exec(&r1, &p2, &dir);
    let r2b = replace_exec(&r2, &p3, &dir);
    let r3 = trim_matches(&r2b, '"');
    Some(string_of(&r3))
}

// ---------------------------------------------------------------- environment check

/// Runs the environment check: `find` looks an executable up on `PATH`,
/// `resolve` reads a shim's entry (asked only when `dsh` was found).
pub fn detect_env<F: Fn(&str) -> Option<String>, G: Fn(&String) -> Option<String>>(
    find_exe: F,
    resolve: G,
) -> (r: EnvInfo)
    requires
        forall|s: &str| call_requires(find_exe, (s,)),
        forall|s: &String| call_requires(resolve, (s,)),
    ensures
        call_ensures(find_exe, ("node",), r.node),
        call_ensures(find_exe, ("dsh",), r.dsh),
        r.dsh matches Some(shim) ==> call_ensures(resolve, (&shim,), r.dsh_entry),
        r.dsh is None ==> r.dsh_entry is None,
{
    let node = find_exe("node");
    let dsh = find_exe("dsh");
    let dsh_entry = match &dsh {
        Some(shim) => resolve(shim),
        None => None,
    };
    EnvInfo { node, dsh, dsh_entry }
}

/// The environment check with its cache: unless `force` is set, a cached
/// result is returned as it is; otherwise the check runs and its result
/// replaces the cache.
pub fn get_env_info<F: Fn(&str) -> Option<String>, G: Fn(&String) -> Option<String>>(
    force: Option<bool>,
    cache: &mut Option<EnvInfo>,
    find_exe: F,
    resolve: G,
) -> (r: EnvInfo)
    requires
        forall|s: &str| call_requires(find_exe, (s,)),
        forall|s: &String| call_requires(resolve, (s,)),
    ensures
        force != Some(true) && (*old(cache)) is Some ==> r == (*old(cache)).unwrap() && *final(cache) == *old(
            cache,
        ),
        !(force != Some(true) && (*old(cache)) is Some) ==> {
            &&& call_ensures(find_exe, ("node",), r.node)
            &&& call_ensures(find_exe, ("dsh",), r.dsh)
            &&& r.dsh matches Some(shim) ==> call_ensures(resolve, (&shim,), r.dsh_entry)
            &&& r.dsh is None ==> r.dsh_entry is None
            &&& *final(cache) == Some(r)
        },
{
    let forced = match force {
        Some(f) => f,
        None => false,
    };
    if !forced {
        if let Some(cached) = cache {
            return cached.copy();
        }
    }
    let info = detect_env(find_exe, resolve);
    *cache = Some(info.copy());
    info
}

} // verus!
