//! Extracting an embedded macro project: one source file per module, named
//! after the module, and a pipe-table listing of the project's library
//! references.

use vstd::prelude::*;
use vstd::string::StringExecFns;

verus! {

/// One external reference of a macro project.
pub struct Reference {
    /// The reference's name.
    pub name: String,
    /// Its human-readable description.
    pub description: String,
    /// The filesystem or library path it resolves to.
    pub path: String,
}

/// An embedded macro project: its source modules and its references.
pub struct VbaProject {
    /// Module name and verbatim source text, in the project's own order.
    pub modules: Vec<(String, String)>,
    /// Library references, in the project's own order.
    pub references: Vec<Reference>,
}

/// The file name a macro module is emitted under: the module's own name with
/// the source suffix appended.
pub open spec fn spec_module_file_name(name: Seq<char>) -> Seq<char> {
    name + ".vb"@
}

/// The first `k` rows of the references table, one per reference, in order:
/// name, description, path.
pub open spec fn ref_rows(refs: Seq<Reference>, k: nat) -> Seq<char>
    decreases k,
{
    if k == 0 {
        Seq::empty()
    } else {
        ref_rows(refs, (k - 1) as nat) + "| "@ + refs[k - 1].name@ + " | "@ + refs[k
            - 1].description@ + " | "@ + refs[k - 1].path@ + " |\n"@
    }
}

/// The full references table: header line, separator line, one row per
/// reference in the project's order.
pub open spec fn spec_references_table(refs: Seq<Reference>) -> Seq<char> {
    "| Name | Description | Path |\n"@ + "|------|-------------|------|\n"@ + ref_rows(
        refs,
        refs.len(),
    )
}

/// The files a macro project's modules are emitted as: for each module, in
/// the project's order, its file name and its verbatim source text.
pub fn module_files(p: &VbaProject) -> (r: Vec<(String, String)>)
    ensures
        r@.len() == p.modules@.len(),
        forall|i: int|
            0 <= i < r@.len() ==> (#[trigger] r@[i]).0@ == spec_module_file_name(
                p.modules@[i].0@,
            ) && r@[i].1@ == p.modules@[i].1@,
{
    let mut out: Vec<(String, String)> = Vec::new();
    let mut i: usize = 0;
    while i < p.modules.len()
        invariant
            i <= p.modules@.len(),
            out@.len() == i,
            forall|k: int|
                0 <= k < i ==> (#[trigger] out@[k]).0@ == spec_module_file_name(
                    p.modules@[k].0@,
                ) && out@[k].1@ == p.modules@[k].1@,
        decreases p.modules@.len() - i,
    {
        let mut fname = p.modules[i].0.clone();
        fname.append(".vb");
        let content = p.modules[i].1.clone();
        out.push((fname, content));
        i = i + 1;
    }
    out
}

/// Renders the references table for the given references, in order.
pub fn references_table(refs: &Vec<Reference>) -> (r: String)
    ensures
        r@ == spec_references_table(refs@),
{
    let mut s = "| Name | Description | Path |\n".to_owned();
    s.append("|------|-------------|------|\n");
    let ghost head: Seq<char> = s@;
    let mut i: usize = 0;
    while i < refs.len()
        invariant
            i <= refs@.len(),
            s@ == head + ref_rows(refs@, i as nat),
        decreases refs@.len() - i,
    {
        s.append("| ");
        s.append(refs[i].name.as_str());
        s.append(" | ");
        s.append(refs[i].description.as_str());
        s.append(" | ");
        s.append(refs[i].path.as_str());
        s.append(" |\n");
        proof {
            assert(s@ =~= head + ref_rows(refs@, (i + 1) as nat));
        }
        i = i + 1;
    }
    s
}

} // verus!
