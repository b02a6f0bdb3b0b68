//! Output-layout planning.
//!
//! Given the input workbook's path and an optional root override, `plan`
//! validates the input (it must exist, be a regular file, and carry one of
//! the recognized grid-format extensions) and derives the full output layout:
//! a hidden-style root directory named after the input file, placed under the
//! override root or the input's parent directory, with fixed subdirectories
//! and file names beneath it. `plan` itself is pure; the caller performs the
//! destructive recreate of the root directory that the model at the end of
//! this module describes, and only after validation has succeeded.

use crate::text::push_char;
use vstd::prelude::*;
use vstd::string::{StrSliceExecFns, StringExecFns};

verus! {

/// Why an input path was rejected before any output was produced.
#[derive(Clone, Copy, Debug, PartialEq, Eq, Structural)]
pub enum PlanError {
    /// The input path does not exist.
    NotFound,
    /// The input path exists but is not a regular file.
    NotAFile,
    /// The input has an extension, but not a recognized grid-format one.
    UnrecognizedExtension,
    /// The input has no extension at all.
    MissingExtension,
}

/// Every output path of one conversion run, derived deterministically from
/// the input path and the optional root override.
pub struct OutputLayout {
    /// The hidden-style root directory all artifacts live under.
    pub root_dir: String,
    /// Directory of the rendered value tables, one per non-empty sheet.
    pub data_dir: String,
    /// Directory of the rendered formula tables, one per non-empty sheet.
    pub formula_dir: String,
    /// Directory of the extracted macro modules.
    pub vba_dir: String,
    /// File listing the macro project's library references.
    pub refs_file: String,
    /// File listing the workbook's defined names.
    pub names_file: String,
}

/// The index of the last occurrence of `c` in `s`, or `-1` when `s` does not
/// contain `c`.
pub open spec fn spec_last_index_of(s: Seq<char>, c: char) -> int
    decreases s.len(),
{
    if s.len() == 0 {
        -1
    } else if s.last() == c {
        s.len() - 1
    } else {
        spec_last_index_of(s.drop_last(), c)
    }
}

/// The file-name part of a path: everything after the last separator, or the
/// whole path when it has none.
pub open spec fn spec_file_name(p: Seq<char>) -> Seq<char> {
    p.subrange(spec_last_index_of(p, '/') + 1, p.len() as int)
}

/// The parent directory of a path: everything before the last separator,
/// the root directory for a path whose only separator leads it, and the
/// empty path when there is no separator at all.
pub open spec fn spec_parent(p: Seq<char>) -> Seq<char> {
    let i = spec_last_index_of(p, '/');
    if i < 0 {
        Seq::empty()
    } else if i == 0 {
        seq!['/']
    } else {
        p.subrange(0, i)
    }
}

/// Joining a relative name onto a base path: a separator is inserted unless
/// the base is empty or already ends with one.
pub open spec fn spec_join(base: Seq<char>, rel: Seq<char>) -> Seq<char> {
    if base.len() == 0 {
        rel
    } else if base.last() == '/' {
        base + rel
    } else {
        base + seq!['/'] + rel
    }
}

/// The extension of a file name: everything after the last dot, provided
/// that dot is not the file name's leading character. A name without a dot,
/// or whose only dot leads it, has no extension.
pub open spec fn spec_extension(name: Seq<char>) -> Option<Seq<char>> {
    let j = spec_last_index_of(name, '.');
    if j <= 0 {
        None
    } else {
        Some(name.subrange(j + 1, name.len() as int))
    }
}

/// The recognized grid-format extensions.
pub open spec fn spec_recognized(ext: Seq<char>) -> bool {
    ext == "xls"@ || ext == "xlsx"@ || ext == "xlsb"@ || ext == "ods"@
}

/// The base directory the output root is placed under: the override when one
/// is given, else the input's parent directory.
pub open spec fn spec_base_dir(path: Seq<char>, root_override: Option<&str>) -> Seq<char> {
    match root_override {
        Some(s) => s@,
        None => spec_parent(path),
    }
}

/// The output root directory: the base directory joined with a hidden-style
/// name, a dot followed by the input's file name.
pub open spec fn spec_root_dir(path: Seq<char>, root_override: Option<&str>) -> Seq<char> {
    spec_join(spec_base_dir(path, root_override), seq!['.'] + spec_file_name(path))
}

/// The error `plan` owes for the given input, or `None` when the input is
/// accepted. `exists` and `is_file` are the caller's filesystem findings
/// about the input path.
pub open spec fn spec_plan_error(path: Seq<char>, exists: bool, is_file: bool) -> Option<
    PlanError,
> {
    if !exists {
        Some(PlanError::NotFound)
    } else if !is_file {
        Some(PlanError::NotAFile)
    } else {
        match spec_extension(spec_file_name(path)) {
            None => Some(PlanError::MissingExtension),
            Some(e) => if !spec_recognized(e) {
                Some(PlanError::UnrecognizedExtension)
            } else {
                None
            },
        }
    }
}

/// The index of the last occurrence of `c` in `s`, if any.
pub fn last_index_of(s: &str, c: char) -> (r: Option<usize>)
    ensures
        r matches Some(i) ==> i < s@.len() && spec_last_index_of(s@, c) == i as int,
        r is None ==> spec_last_index_of(s@, c) == -1,
{
    let n = s.unicode_len();
    let mut i: usize = n;
    proof {
        assert(s@.take(n as int) =~= s@);
    }
    while i > 0
        invariant
            i <= n,
            n == s@.len(),
            spec_last_index_of(s@, c) == spec_last_index_of(s@.take(i as int), c),
        decreases i,
    {
        if s.get_char(i - 1) == c {
            proof {
                assert(s@.take(i as int).last() == s@[i - 1]);
            }
            return Some(i - 1);
        }
        proof {
            assert(s@.take(i as int).drop_last() =~= s@.take(i as int - 1));
        }
        i = i - 1;
    }
    None
}

/// The file-name part of a path.
pub fn file_name_part(path: &str) -> (r: String)
    ensures
        r@ == spec_file_name(path@),
{
    let n = path.unicode_len();
    let start: usize = match last_index_of(path, '/') {
        Some(i) => i + 1,
        None => 0,
    };
    path.substring_char(start, n).to_owned()
}

/// The parent directory of a path.
pub fn parent_part(path: &str) -> (r: String)
    ensures
        r@ == spec_parent(path@),
{
    match last_index_of(path, '/') {
        None => String::new(),
        Some(0) => {
            let mut s = String::new();
            push_char(&mut s, '/');
            proof {
                assert(s@ =~= seq!['/']);
            }
            s
        },
        Some(i) => path.substring_char(0, i).to_owned(),
    }
}

/// Joins a relative name onto a base path.
pub fn join_path(base: &str, rel: &str) -> (r: String)
    ensures
        r@ == spec_join(base@, rel@),
{
    let n = base.unicode_len();
    if n == 0 {
        return rel.to_owned();
    }
    let mut s = base.to_owned();
    if base.get_char(n - 1) != '/' {
        push_char(&mut s, '/');
        proof {
            assert(s@ =~= base@ + seq!['/']);
        }
    }
    s.append(rel);
    s
}

/// Character-by-character string equality.
fn str_eq(a: &str, b: &str) -> (r: bool)
    ensures
        r == (a@ == b@),
{
    let na = a.unicode_len();
    let nb = b.unicode_len();
    if na != nb {
        return false;
    }
    let mut i: usize = 0;
    while i < na
        invariant
            i <= na,
            na == a@.len(),
            na == b@.len(),
            forall|k: int| 0 <= k < i ==> a@[k] == b@[k],
        decreases na - i,
    {
        if a.get_char(i) != b.get_char(i) {
            return false;
        }
        i = i + 1;
    }
    proof {
        assert(a@ =~= b@);
    }
    true
}

/// Validates the input path and derives the output layout.
///
/// `exists` and `is_file` are the caller's filesystem findings about
/// `path`. The function itself touches nothing: it returns exactly the error
/// [`spec_plan_error`] assigns to the input, or the layout whose every field
/// is the documented derivation from the path and the override.
pub fn plan(path: &str, root_override: Option<&str>, exists: bool, is_file: bool) -> (r: Result<
    OutputLayout,
    PlanError,
>)
    ensures
        r is Err <==> spec_plan_error(path@, exists, is_file) is Some,
        r matches Err(e) ==> spec_plan_error(path@, exists, is_file) == Some(e),
        r matches Ok(l) ==> {
            let root = spec_root_dir(path@, root_override);
            &&& l.root_dir@ == root
            &&& l.data_dir@ == spec_join(root, "data"@)
            &&& l.formula_dir@ == spec_join(root, "formula"@)
            &&& l.vba_dir@ == spec_join(root, "vba"@)
            &&& l.refs_file@ == spec_join(root, "refs.md"@)
            &&& l.names_file@ == spec_join(root, "names.md"@)
        },
{
    if !exists {
        return Err(PlanError::NotFound);
    }
    if !is_file {
        return Err(PlanError::NotAFile);
    }

    let name = file_name_part(path);
    match last_index_of(name.as_str(), '.') {
        None => {
            return Err(PlanError::MissingExtension);
        },
        Some(j) => {
            if j == 0 {
                return Err(PlanError::MissingExtension);
            }
            let name_len = name.as_str().unicode_len();
            let ext = name.as_str().substring_char(j + 1, name_len);
            if !(str_eq(ext, "xls") || str_eq(ext, "xlsx") || str_eq(ext, "xlsb") || str_eq(
                ext,
                "ods",
            )) {
                return Err(PlanError::UnrecognizedExtension);
            }
        },
    }

    let base: String = match root_override {
        Some(r) => r.to_owned(),
        None => parent_part(path),
    };
    let mut hidden = String::new();
    push_char(&mut hidden, '.');
    hidden.append(name.as_str());
    proof {
        assert(hidden@ =~= seq!['.'] + spec_file_name(path@));
    }
    let root_dir = join_path(base.as_str(), hidden.as_str());
    let data_dir = join_path(root_dir.as_str(), "data");
    let formula_dir = join_path(root_dir.as_str(), "formula");
    let vba_dir = join_path(root_dir.as_str(), "vba");
    let refs_file = join_path(root_dir.as_str(), "refs.md");
    let names_file = join_path(root_dir.as_str(), "names.md");
    Ok(
        OutputLayout {
            root_dir,
            data_dir,
            formula_dir,
            vba_dir,
            refs_file,
            names_file,
        },
    )
}

/// Whether path `p` lies in the subtree rooted at `root`: it is `root`
/// itself, or `root` followed by a separator is a prefix of it.
pub open spec fn under_root(p: Seq<char>, root: Seq<char>) -> bool {
    p == root || (p.len() > root.len() && p.subrange(0, root.len() as int + 1) == root.push('/'))
}

/// The directories the layout setup leaves freshly created.
pub open spec fn setup_dirs(l: OutputLayout) -> Set<Seq<char>> {
    set![l.root_dir@, l.data_dir@, l.vba_dir@, l.formula_dir@]
}

/// The destructive-recreate policy as a transition on the set of existing
/// filesystem paths: every path under the output root is removed, then the
/// root and its fixed subdirectories are created.
pub open spec fn spec_recreate(fs: Set<Seq<char>>, l: OutputLayout) -> Set<Seq<char>> {
    fs.filter(|p: Seq<char>| !under_root(p, l.root_dir@)).union(setup_dirs(l))
}

/// A layout whose subdirectories are the documented joins beneath a
/// non-empty root that does not end in a separator — as every layout `plan`
/// returns is.
pub open spec fn layout_wf(l: OutputLayout) -> bool {
    &&& l.root_dir@.len() > 0
    &&& l.root_dir@.last() != '/'
    &&& l.data_dir@ == spec_join(l.root_dir@, "data"@)
    &&& l.vba_dir@ == spec_join(l.root_dir@, "vba"@)
    &&& l.formula_dir@ == spec_join(l.root_dir@, "formula"@)
}

proof fn lemma_last_index_bounds(s: Seq<char>, c: char)
    ensures
        -1 <= spec_last_index_of(s, c) < s.len(),
    decreases s.len(),
{
    if s.len() > 0 && s.last() != c {
        lemma_last_index_bounds(s.drop_last(), c);
    }
}

proof fn lemma_after_last_index(s: Seq<char>, c: char)
    ensures
        forall|j: int| spec_last_index_of(s, c) < j < s.len() ==> s[j] != c,
    decreases s.len(),
{
    if s.len() > 0 && s.last() != c {
        lemma_after_last_index(s.drop_last(), c);
        lemma_last_index_bounds(s.drop_last(), c);
        assert forall|j: int| spec_last_index_of(s, c) < j < s.len() implies s[j] != c by {
            if j < s.len() - 1 {
                assert(s[j] == s.drop_last()[j]);
            } else {
                assert(s[j] == s.last());
            }
        }
    }
}

/// The root directory any accepted plan derives is non-empty and does not
/// end in a separator: it ends in the hidden-style name, whose characters
/// come after the path's last separator.
pub proof fn lemma_planned_layout_wf(l: OutputLayout, path: Seq<char>, root_override: Option<&str>)
    requires
        l.root_dir@ == spec_root_dir(path, root_override),
        l.data_dir@ == spec_join(l.root_dir@, "data"@),
        l.vba_dir@ == spec_join(l.root_dir@, "vba"@),
        l.formula_dir@ == spec_join(l.root_dir@, "formula"@),
    ensures
        layout_wf(l),
{
    let fname = spec_file_name(path);
    let rel = seq!['.'] + fname;
    let base = spec_base_dir(path, root_override);
    lemma_after_last_index(path, '/');
    lemma_last_index_bounds(path, '/');
    assert(rel.len() > 0);
    if fname.len() == 0 {
        assert(rel.last() == '.');
    } else {
        let li = spec_last_index_of(path, '/');
        assert(rel.last() == fname.last());
        assert(fname.last() == path[path.len() - 1]);
        assert(li < path.len() - 1);
        assert(path[path.len() - 1] != '/');
    }
    assert(rel.last() != '/');
    if base.len() == 0 {
        assert(spec_join(base, rel) == rel);
    } else if base.last() == '/' {
        assert(spec_join(base, rel).last() == rel.last());
    } else {
        assert(spec_join(base, rel) == base + seq!['/'] + rel);
        assert(spec_join(base, rel).last() == rel.last());
    }
}

proof fn lemma_join_under(root: Seq<char>, rel: Seq<char>)
    requires
        root.len() > 0,
        root.last() != '/',
        rel.len() > 0,
    ensures
        under_root(spec_join(root, rel), root),
{
    let joined = spec_join(root, rel);
    assert(joined =~= root + seq!['/'] + rel);
    assert(joined.subrange(0, root.len() as int + 1) =~= root.push('/'));
}

proof fn lemma_setup_dirs_under(l: OutputLayout)
    requires
        layout_wf(l),
    ensures
        forall|p: Seq<char>| setup_dirs(l).contains(p) ==> under_root(p, l.root_dir@),
{
    reveal_strlit("data");
    reveal_strlit("vba");
    reveal_strlit("formula");
    lemma_join_under(l.root_dir@, "data"@);
    lemma_join_under(l.root_dir@, "vba"@);
    lemma_join_under(l.root_dir@, "formula"@);
}

/// The destructive-recreate setup is insensitive to pre-existing state: the
/// subtree under the output root afterwards consists of exactly the planned
/// directories, whatever was there before — two runs against the same layout
/// start from identical trees — and running the setup twice is the same as
/// running it once.
pub proof fn lemma_recreate_idempotent(fs1: Set<Seq<char>>, fs2: Set<Seq<char>>, l: OutputLayout)
    requires
        layout_wf(l),
    ensures
        spec_recreate(fs1, l).filter(|p: Seq<char>| under_root(p, l.root_dir@)) == setup_dirs(l),
        spec_recreate(fs1, l).filter(|p: Seq<char>| under_root(p, l.root_dir@)) == spec_recreate(
            fs2,
            l,
        ).filter(|p: Seq<char>| under_root(p, l.root_dir@)),
        spec_recreate(spec_recreate(fs1, l), l) == spec_recreate(fs1, l),
{
    lemma_setup_dirs_under(l);
    assert(spec_recreate(fs1, l).filter(|p: Seq<char>| under_root(p, l.root_dir@))
        =~= setup_dirs(l));
    assert(spec_recreate(fs2, l).filter(|p: Seq<char>| under_root(p, l.root_dir@))
        =~= setup_dirs(l));
    assert(spec_recreate(spec_recreate(fs1, l), l) =~= spec_recreate(fs1, l));
}

} // verus!
