//! Which entries of a project's `src` directory are source files, and the
//! names they are stored under.
use vstd::prelude::*;
use crate::text::{char_count, push_str, string_push};

verus! {

/// Whether a file name has the extension `quik`. A name's extension is what
/// follows its last `.`, provided that `.` is not the name's first
/// character; as `quik` holds no `.`, that is a `.` followed by exactly
/// `quik` at the end, with at least one character before it.
pub open spec fn has_quik_extension(file_name: Seq<char>) -> bool {
    exists|k: int| 1 <= k < file_name.len() && file_name[k] == '.' && #[trigger] file_name.skip(k + 1) == seq!['q', 'u', 'i', 'k']
}

/// `rel` joined onto `base` as a path: an absolute `rel` replaces `base`;
/// otherwise a `/` goes between them unless `base` is empty or already ends
/// with one.
pub open spec fn path_join(base: Seq<char>, rel: Seq<char>) -> Seq<char> {
    if rel.len() > 0 && rel[0] == '/' {
        rel
    } else if base.len() == 0 || base.last() == '/' {
        base + rel
    } else {
        base + seq!['/'] + rel
    }
}

/// What loading a project does with an entry of its source tree.
#[derive(Debug, Clone, PartialEq, Eq)]
pub enum EntryAction {
    /// A directory: its entries are visited, under this directory relative to `src`.
    Descend { relative_dir: String },
    /// A source file: it is read and stored under this name.
    AddSource { name: String },
    /// Anything else is left alone.
    Skip,
}

/// `rel` joined onto `base` as a path.
pub fn join_path(base: &String, rel: &String) -> (r: String)
    ensures
        r@ == path_join(base@, rel@),
{
    let nb = char_count(base);
    let nr = char_count(rel);
    if nr > 0 && rel.as_str().get_char(0) == '/' {
        return rel.clone();
    }
    let mut out = base.clone();
    if !(nb == 0 || base.as_str().get_char(nb - 1) == '/') {
        string_push(&mut out, '/');
    }
    push_str(&mut out, rel.as_str());
    out
}

/// Whether a file name has the extension `quik`.
pub fn is_quik_file_name(file_name: &String) -> (r: bool)
    ensures
        r == has_quik_extension(file_name@),
{
    let n = char_count(file_name);
    let s = file_name.as_str();
    let r = n >= 6 && s.get_char(n - 5) == '.' && s.get_char(n - 4) == 'q' && s.get_char(n - 3) == 'u'
        && s.get_char(n - 2) == 'i' && s.get_char(n - 1) == 'k';
    proof {
        let f = file_name@;
        let quik = seq!['q', 'u', 'i', 'k'];
        if r {
            let k = n - 5;
            assert(f.skip(k + 1) =~= quik);
        }
        if has_quik_extension(f) {
            let k = choose|k: int| 1 <= k < f.len() && f[k] == '.' && #[trigger] f.skip(k + 1) == quik;
            assert(f.skip(k + 1).len() == 4);
            assert(k == n - 5);
            assert(f.skip(k + 1)[0] == f[n - 4]);
            assert(f.skip(k + 1)[1] == f[n - 3]);
            assert(f.skip(k + 1)[2] == f[n - 2]);
            assert(f.skip(k + 1)[3] == f[n - 1]);
        }
    }
    r
}

/// What loading a project does with the entry `file_name` of the directory
/// `relative_dir` (relative to `src_dir`, empty for `src_dir` itself): a
/// directory is descended into; a file with the extension `quik` is stored
/// under `src_dir` joined with its path relative to `src_dir`; anything else
/// is skipped.
pub fn classify_entry(src_dir: &String, relative_dir: &String, file_name: &String, is_dir: bool) -> (r: EntryAction)
    ensures
        is_dir ==> (r matches EntryAction::Descend { relative_dir: d } && d@ == path_join(relative_dir@, file_name@)),
        !is_dir && has_quik_extension(file_name@) ==> (r matches EntryAction::AddSource { name }
            && name@ == path_join(src_dir@, path_join(relative_dir@, file_name@))),
        !is_dir && !has_quik_extension(file_name@) ==> r is Skip,
{
    if is_dir {
        EntryAction::Descend { relative_dir: join_path(relative_dir, file_name) }
    } else if is_quik_file_name(file_name) {
        let relative = join_path(relative_dir, file_name);
        EntryAction::AddSource { name: join_path(src_dir, &relative) }
    } else {
        EntryAction::Skip
    }
}

} // verus!
