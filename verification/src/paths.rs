//! Where the launcher looks for relative paths, and how it shows a path
//! relative to its own directory.
use vstd::prelude::*;
use std::path::PathBuf;

verus! {

#[verifier::external_type_specification]
#[verifier::external_body]
pub struct ExPathBuf(std::path::PathBuf);

/// The directories a relative path is tried under, in order: the working
/// directory (when known), the launcher's directory, its parent and its
/// grandparent (each when it has one).
pub open spec fn candidate_list<P>(
    cwd: Option<P>,
    app_dir: P,
    parent: Option<P>,
    grand_parent: Option<P>,
) -> Seq<P> {
    let first: Seq<P> = match cwd {
        Some(c) => seq![c],
        None => Seq::empty(),
    };
    let ancestors: Seq<P> = match parent {
        Some(p) => match grand_parent {
            Some(g) => seq![p, g],
            None => seq![p],
        },
        None => Seq::empty(),
    };
    first + seq![app_dir] + ancestors
}

/// Lists the base directories for a relative path; a grandparent counts only
/// together with its parent.
pub fn candidate_bases<P>(
    cwd: Option<P>,
    app_dir: P,
    parent: Option<P>,
    grand_parent: Option<P>,
) -> (r: Vec<P>)
    ensures
        r@ == candidate_list(cwd, app_dir, parent, grand_parent),
        r.len() >= 1,
{
    let ghost expected = candidate_list(cwd, app_dir, parent, grand_parent);
    let mut out: Vec<P> = Vec::new();
    match cwd {
        Some(c) => out.push(c),
        None => {},
    }
    out.push(app_dir);
    match parent {
        Some(p) => {
            out.push(p);
            match grand_parent {
                Some(g) => out.push(g),
                None => {},
            }
        },
        None => {},
    }
    proof {
        assert(out@ =~= expected);
    }
    out
}

/// How a path is resolved: as given (it is absolute), or joined onto the
/// candidate base with this index.
#[derive(Clone, Copy, Debug, PartialEq, Eq, Structural)]
pub enum Resolution {
    AsGiven,
    Joined(usize),
}

/// The first index at which `flags` holds `true`, if any.
pub open spec fn first_true(flags: Seq<bool>) -> Option<int>
    decreases flags.len(),
{
    if flags.len() == 0 {
        None
    } else if flags[0] {
        Some(0)
    } else {
        match first_true(flags.drop_first()) {
            Some(i) => Some(i + 1),
            None => None,
        }
    }
}

/// An absolute path is used as given; a relative one goes under the first
/// base where it exists, or under the first base when it exists nowhere.
pub open spec fn resolution_for(is_absolute: bool, exists: Seq<bool>) -> Resolution {
    if is_absolute {
        Resolution::AsGiven
    } else {
        match first_true(exists) {
            Some(i) => Resolution::Joined(i as usize),
            None => Resolution::Joined(0),
        }
    }
}

/// Chooses how to resolve a path, given whether it is absolute and, for
/// each candidate base in order, whether the path exists under it.
pub fn resolve_choice(is_absolute: bool, exists: &Vec<bool>) -> (r: Resolution)
    ensures
        r == resolution_for(is_absolute, exists@),
{
    if is_absolute {
        return Resolution::AsGiven;
    }
    let n = exists.len();
    let mut i: usize = 0;
    proof {
        assert(exists@.subrange(0, n as int) == exists@);
    }
    while i < n
        invariant
            i <= n == exists.len(),
            !is_absolute,
            match first_true(exists@.subrange(i as int, n as int)) {
                Some(k) => first_true(exists@) == Some(k + i),
                None => first_true(exists@) is None,
            },
        decreases n - i,
    {
        let ghost rest = exists@.subrange(i as int, n as int);
        proof {
            assert(rest.drop_first() == exists@.subrange(i + 1, n as int));
            assert(rest[0] == exists@[i as int]);
        }
        if exists[i] {
            proof {
                assert(first_true(rest) == Some(0int));
            }
            return Resolution::Joined(i);
        }
        i = i + 1;
    }
    proof {
        assert(exists@.subrange(n as int, n as int) =~= Seq::<bool>::empty());
    }
    Resolution::Joined(0)
}

/// How a path is shown: `.` for the launcher's directory itself, `./` and the
/// relative part for a path inside it, and the full text otherwise.
pub open spec fn shown_path(relative: Option<Seq<char>>, full: Seq<char>) -> Seq<char> {
    match relative {
        Some(r) => if r.len() == 0 {
            "."@
        } else {
            "./"@ + r
        },
        None => full,
    }
}

/// Shows a path given its text relative to the launcher's directory (if it
/// lies inside) and its full text.
pub fn display_relative(relative: Option<String>, full: String) -> (r: String)
    ensures
        r@ == shown_path(
            match relative {
                Some(s) => Some(s@),
                None => None,
            },
            full@,
        ),
{
    match relative {
        Some(rel) => {
            if rel.as_str().is_empty() {
                String::from_str(".")
            } else {
                let mut out = String::from_str("./");
                out.append(rel.as_str());
                out
            }
        },
        None => full,
    }
}

/// Names the part of `path` after `base` that std `Path::strip_prefix` gives
/// (compared by whole components), or `None` when `base` is not a prefix of it.
pub uninterp spec fn stripped_path_of(path: PathBuf, base: PathBuf) -> Option<PathBuf>;

/// Names the text std `Path::to_string_lossy` gives for `path`, invalid
/// Unicode replaced.
pub uninterp spec fn path_text_of(path: PathBuf) -> Seq<char>;

/// The part of `path` after `base` (std `Path::strip_prefix`), if `base` is a
/// prefix of it. Trusted: the outcome is the one `stripped_path_of` names.
#[verifier::external_body]
fn strip_path_prefix(path: &PathBuf, base: &PathBuf) -> (r: Option<PathBuf>)
    ensures
        r == stripped_path_of(*path, *base),
{
    path.strip_prefix(base).ok().map(|p| p.to_path_buf())
}

/// The text of a path, invalid Unicode replaced (std `Path::to_string_lossy`).
/// Trusted: the text is the one `path_text_of` names.
#[verifier::external_body]
fn path_text(path: &PathBuf) -> (r: String)
    ensures
        r@ == path_text_of(*path),
{
    path.to_string_lossy().into_owned()
}

/// How `abs` is shown next to the launcher's directory `app_dir`: `.` when
/// it is that directory, `./` and the rest when it lies inside it, its full
/// text otherwise.
pub open spec fn shown_path_of(app_dir: PathBuf, abs: PathBuf) -> Seq<char> {
    shown_path(
        match stripped_path_of(abs, app_dir) {
            Some(p) => Some(path_text_of(p)),
            None => None,
        },
        path_text_of(abs),
    )
}

/// Shows `abs` relative to `app_dir` when it lies inside it.
pub fn path_to_string(app_dir: &PathBuf, abs: &PathBuf) -> (r: String)
    ensures
        r@ == shown_path_of(*app_dir, *abs),
{
    let relative = match strip_path_prefix(abs, app_dir) {
        Some(rel) => Some(path_text(&rel)),
        None => None,
    };
    let full = path_text(abs);
    display_relative(relative, full)
}

/// `first_true` finds the first set flag: what it returns is set and every
/// flag before it is clear, and it finds one whenever any flag is set.
pub proof fn lemma_first_true_is_first(flags: Seq<bool>)
    ensures
        match first_true(flags) {
            Some(i) => 0 <= i < flags.len() && flags[i] && forall|j: int| 0 <= j < i ==> !flags[j],
            None => forall|j: int| 0 <= j < flags.len() ==> !flags[j],
        },
    decreases flags.len(),
{
    if flags.len() > 0 && !flags[0] {
        let rest = flags.drop_first();
        lemma_first_true_is_first(rest);
        assert forall|j: int| 1 <= j < flags.len() implies flags[j] == rest[j - 1] by {}
    }
}

/// A relative path is joined onto the first base under which it exists;
/// when it exists under none, onto the first base. An absolute path is used
/// as given.
pub proof fn lemma_resolution_prefers_first_existing(is_absolute: bool, exists: Seq<bool>)
    ensures
        is_absolute ==> resolution_for(is_absolute, exists) == Resolution::AsGiven,
        !is_absolute && (exists|k: int| 0 <= k < exists.len() && exists[k]) ==> (
        exists|i: int|
            0 <= i < exists.len() && exists[i] && (forall|j: int| 0 <= j < i ==> !exists[j])
                && resolution_for(is_absolute, exists) == Resolution::Joined(i as usize)),
        !is_absolute && (forall|k: int| 0 <= k < exists.len() ==> !exists[k]) ==> resolution_for(
            is_absolute,
            exists,
        ) == Resolution::Joined(0),
{
    lemma_first_true_is_first(exists);
    if !is_absolute {
        match first_true(exists) {
            Some(i) => {
                assert(resolution_for(is_absolute, exists) == Resolution::Joined(i as usize));
            },
            None => {},
        }
    }
}

} // verus!
