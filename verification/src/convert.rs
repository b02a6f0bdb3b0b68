//! The conversion orchestrator's pure core: from a workbook's plain data —
//! defined names, per-sheet value and formula grids, and the optional macro
//! project — to the ordered list of artifacts a run writes, each a path
//! relative to the output root together with its full text.
//!
//! Order and presence follow the run's sequence: the defined-names table
//! first; then, per sheet in workbook order, the rendered value table and the
//! rendered formula table, each omitted entirely when its grid is empty;
//! then, only when a macro project is present, one file per macro module and
//! finally the references table.

use crate::grid::Grid;
use crate::table::{render, spec_table};
use crate::vba::{module_files, references_table, spec_module_file_name, spec_references_table,
    VbaProject};
use vstd::prelude::*;
use vstd::string::StringExecFns;

verus! {

/// One sheet's input: its name and its two grids.
pub struct Sheet {
    /// The sheet's name, used to derive its artifact file names.
    pub name: String,
    /// The sheet's cell values.
    pub values: Grid,
    /// The sheet's cell formulas.
    pub formulas: Grid,
}

/// Everything a conversion run reads from a workbook, as plain values.
pub struct Workbook {
    /// Workbook-level defined names with their formula text, in workbook
    /// order.
    pub defined_names: Vec<(String, String)>,
    /// The sheets, in workbook order.
    pub sheets: Vec<Sheet>,
    /// The embedded macro project, when the workbook carries one.
    pub vba: Option<VbaProject>,
}

impl Workbook {
    /// Every sheet's grids are well-formed.
    pub open spec fn wf(&self) -> bool {
        forall|i: int|
            0 <= i < self.sheets@.len() ==> (#[trigger] self.sheets@[i]).values.wf()
                && self.sheets@[i].formulas.wf()
    }
}

/// One output artifact: a path relative to the output root, and the full
/// text to write there.
pub struct Artifact {
    /// Path relative to the output root directory.
    pub path: String,
    /// The artifact's entire text.
    pub content: String,
}

/// The view of an artifact list: each artifact's path and content as
/// character sequences.
pub open spec fn artifacts_view(v: Seq<Artifact>) -> Seq<(Seq<char>, Seq<char>)> {
    v.map_values(|a: Artifact| (a.path@, a.content@))
}

/// The first `k` rows of the defined-names table, one per name, in order:
/// name, then formula text.
pub open spec fn name_rows(names: Seq<(String, String)>, k: nat) -> Seq<char>
    decreases k,
{
    if k == 0 {
        Seq::empty()
    } else {
        name_rows(names, (k - 1) as nat) + "| "@ + names[k - 1].0@ + " | "@ + names[k - 1].1@
            + " |\n"@
    }
}

/// The full defined-names table: header line, separator line, one row per
/// defined name in workbook order.
pub open spec fn spec_names_table(names: Seq<(String, String)>) -> Seq<char> {
    "| Name | Formula |\n"@ + "|------|---------|\n"@ + name_rows(names, names.len())
}

/// The artifacts of the first `k` sheets: per sheet, in order, the rendered
/// value table under the data directory and the rendered formula table under
/// the formula directory, each omitted when its grid is empty.
pub open spec fn sheet_artifacts(sheets: Seq<Sheet>, k: nat) -> Seq<(Seq<char>, Seq<char>)>
    decreases k,
{
    if k == 0 {
        Seq::empty()
    } else {
        let s = sheets[k - 1];
        let prev = sheet_artifacts(sheets, (k - 1) as nat);
        let with_values = if s.values.spec_is_empty() {
            prev
        } else {
            prev.push(("data/"@ + s.name@ + ".md"@, spec_table(s.values)))
        };
        if s.formulas.spec_is_empty() {
            with_values
        } else {
            with_values.push(("formula/"@ + s.name@ + ".md"@, spec_table(s.formulas)))
        }
    }
}

/// The artifacts of the first `k` macro modules: one file per module, named
/// after the module, holding its verbatim source.
pub open spec fn module_artifacts(mods: Seq<(String, String)>, k: nat) -> Seq<
    (Seq<char>, Seq<char>),
>
    decreases k,
{
    if k == 0 {
        Seq::empty()
    } else {
        module_artifacts(mods, (k - 1) as nat).push(
            ("vba/"@ + spec_module_file_name(mods[k - 1].0@), mods[k - 1].1@),
        )
    }
}

/// Every artifact of a run over the given workbook data, in write order.
pub open spec fn spec_artifacts(wb: Workbook) -> Seq<(Seq<char>, Seq<char>)> {
    let base = seq![("names.md"@, spec_names_table(wb.defined_names@))] + sheet_artifacts(
        wb.sheets@,
        wb.sheets@.len(),
    );
    match wb.vba {
        None => base,
        Some(p) => base + module_artifacts(p.modules@, p.modules@.len()).push(
            ("refs.md"@, spec_references_table(p.references@)),
        ),
    }
}

/// Renders the defined-names table for the given names, in order.
pub fn names_table(names: &Vec<(String, String)>) -> (r: String)
    ensures
        r@ == spec_names_table(names@),
{
    let mut s = "| Name | Formula |\n".to_owned();
    s.append("|------|---------|\n");
    let ghost head: Seq<char> = s@;
    let mut i: usize = 0;
    while i < names.len()
        invariant
            i <= names@.len(),
            s@ == head + name_rows(names@, i as nat),
        decreases names@.len() - i,
    {
        s.append("| ");
        s.append(names[i].0.as_str());
        s.append(" | ");
        s.append(names[i].1.as_str());
        s.append(" |\n");
        proof {
            assert(s@ =~= head + name_rows(names@, (i + 1) as nat));
        }
        i = i + 1;
    }
    s
}

proof fn lemma_view_push(prev: Seq<Artifact>, a: Artifact)
    ensures
        artifacts_view(prev.push(a)) =~= artifacts_view(prev).push((a.path@, a.content@)),
{
}

/// Computes every artifact of a run over the given workbook data, in write
/// order: exactly [`spec_artifacts`].
pub fn convert(wb: &Workbook) -> (r: Vec<Artifact>)
    requires
        wb.wf(),
    ensures
        artifacts_view(r@) == spec_artifacts(*wb),
{
    let mut out: Vec<Artifact> = Vec::new();
    let names_content = names_table(&wb.defined_names);
    out.push(Artifact { path: "names.md".to_owned(), content: names_content });
    let ghost base0: Seq<(Seq<char>, Seq<char>)> = seq![
        ("names.md"@, spec_names_table(wb.defined_names@)),
    ];
    proof {
        assert(artifacts_view(out@) =~~= base0);
    }

    let mut i: usize = 0;
    while i < wb.sheets.len()
        invariant
            wb.wf(),
            i <= wb.sheets@.len(),
            artifacts_view(out@) == base0 + sheet_artifacts(wb.sheets@, i as nat),
        decreases wb.sheets@.len() - i,
    {
        let sheet = &wb.sheets[i];
        match render(&sheet.values) {
            Some(content) => {
                let mut path = "data/".to_owned();
                path.append(sheet.name.as_str());
                path.append(".md");
                proof {
                    assert(path@ == "data/"@ + sheet.name@ + ".md"@);
                }
                let ghost prev_out: Seq<Artifact> = out@;
                out.push(Artifact { path, content });
                proof {
                    assert(out@ == prev_out.push(out@.last()));
                    lemma_view_push(prev_out, out@.last());
                    assert(artifacts_view(out@) =~~= base0 + sheet_artifacts(
                        wb.sheets@,
                        i as nat,
                    ).push(("data/"@ + sheet.name@ + ".md"@, spec_table(sheet.values))));
                }
            },
            None => {},
        }
        match render(&sheet.formulas) {
            Some(content) => {
                let mut path = "formula/".to_owned();
                path.append(sheet.name.as_str());
                path.append(".md");
                proof {
                    assert(path@ == "formula/"@ + sheet.name@ + ".md"@);
                }
                let ghost prev_out: Seq<Artifact> = out@;
                out.push(Artifact { path, content });
                proof {
                    assert(out@ == prev_out.push(out@.last()));
                    lemma_view_push(prev_out, out@.last());
                    assert(artifacts_view(out@) =~~= artifacts_view(prev_out).push(
                        ("formula/"@ + sheet.name@ + ".md"@, spec_table(sheet.formulas)),
                    ));
                }
            },
            None => {},
        }
        proof {
            assert(artifacts_view(out@) =~~= base0 + sheet_artifacts(wb.sheets@, (i + 1) as nat));
        }
        i = i + 1;
    }
    proof {
        assert(artifacts_view(out@) == base0 + sheet_artifacts(wb.sheets@, wb.sheets@.len()));
    }

    if let Some(p) = &wb.vba {
        let ghost base: Seq<(Seq<char>, Seq<char>)> = artifacts_view(out@);
        let files = module_files(p);
        let mut j: usize = 0;
        while j < files.len()
            invariant
                j <= files@.len(),
                files@.len() == p.modules@.len(),
                forall|k: int|
                    0 <= k < files@.len() ==> (#[trigger] files@[k]).0@ == spec_module_file_name(
                        p.modules@[k].0@,
                    ) && files@[k].1@ == p.modules@[k].1@,
                artifacts_view(out@) == base + module_artifacts(p.modules@, j as nat),
            decreases files@.len() - j,
        {
            let mut path = "vba/".to_owned();
            path.append(files[j].0.as_str());
            let content = files[j].1.clone();
            proof {
                assert(path@ == "vba/"@ + spec_module_file_name(p.modules@[j as int].0@));
            }
            let ghost prev_out: Seq<Artifact> = out@;
            out.push(Artifact { path, content });
            proof {
                assert(out@ == prev_out.push(out@.last()));
                lemma_view_push(prev_out, out@.last());
                assert(artifacts_view(out@) =~~= base + module_artifacts(
                    p.modules@,
                    (j + 1) as nat,
                ));
            }
            j = j + 1;
        }
        let refs_content = references_table(&p.references);
        let ghost prev_out: Seq<Artifact> = out@;
        out.push(Artifact { path: "refs.md".to_owned(), content: refs_content });
        proof {
            assert(out@ == prev_out.push(out@.last()));
            lemma_view_push(prev_out, out@.last());
            assert(artifacts_view(out@) =~~= spec_artifacts(*wb));
        }
    }
    out
}

/// Whether `p` is a prefix of `s`.
pub open spec fn has_prefix(s: Seq<char>, p: Seq<char>) -> bool {
    s.len() >= p.len() && s.subrange(0, p.len() as int) == p
}

proof fn lemma_sheet_artifact_paths(sheets: Seq<Sheet>, k: nat)
    ensures
        forall|i: int|
            0 <= i < sheet_artifacts(sheets, k).len() ==> has_prefix(
                (#[trigger] sheet_artifacts(sheets, k)[i]).0,
                "data/"@,
            ) || has_prefix(sheet_artifacts(sheets, k)[i].0, "formula/"@),
    decreases k,
{
    if k > 0 {
        lemma_sheet_artifact_paths(sheets, (k - 1) as nat);
        let s = sheets[k - 1];
        let d = ("data/"@ + s.name@ + ".md"@, spec_table(s.values));
        let f = ("formula/"@ + s.name@ + ".md"@, spec_table(s.formulas));
        assert(d.0.subrange(0, "data/"@.len() as int) =~= "data/"@);
        assert(f.0.subrange(0, "formula/"@.len() as int) =~= "formula/"@);
        let prev = sheet_artifacts(sheets, (k - 1) as nat);
        let cur = sheet_artifacts(sheets, k);
        assert forall|i: int|
            0 <= i < cur.len() implies has_prefix((#[trigger] cur[i]).0, "data/"@) || has_prefix(
            cur[i].0,
            "formula/"@,
        ) by {
            if i < prev.len() {
                assert(cur[i] == prev[i]);
            } else {
                assert(cur[i] == d || cur[i] == f);
            }
        }
    }
}

/// A workbook that reports no macro project yields no macro-module file and
/// no references file: every artifact's path is other than the references
/// file's name and lies outside the macro directory.
pub proof fn lemma_no_macro_no_macro_artifacts(wb: Workbook)
    requires
        wb.vba is None,
    ensures
        forall|i: int|
            0 <= i < spec_artifacts(wb).len() ==> (#[trigger] spec_artifacts(wb)[i]).0
                != "refs.md"@ && !has_prefix(spec_artifacts(wb)[i].0, "vba/"@),
{
    reveal_strlit("names.md");
    reveal_strlit("refs.md");
    reveal_strlit("vba/");
    reveal_strlit("data/");
    reveal_strlit("formula/");
    lemma_sheet_artifact_paths(wb.sheets@, wb.sheets@.len());
    let arts = spec_artifacts(wb);
    assert forall|i: int|
        0 <= i < arts.len() implies (#[trigger] arts[i]).0 != "refs.md"@ && !has_prefix(
        arts[i].0,
        "vba/"@,
    ) by {
        let p = arts[i].0;
        if i == 0 {
            assert(p == "names.md"@);
            assert(p.len() == 8 && "refs.md"@.len() == 7);
            if has_prefix(p, "vba/"@) {
                assert(p.subrange(0, 4)[0] == p[0]);
                assert(p[0] == 'n' && "vba/"@[0] == 'v');
            }
        } else {
            let sa = sheet_artifacts(wb.sheets@, wb.sheets@.len());
            assert(p == sa[i - 1].0);
            if has_prefix(p, "data/"@) {
                assert(p.subrange(0, 5)[0] == p[0]);
                assert(p[0] == 'd');
            } else {
                assert(has_prefix(p, "formula/"@));
                assert(p.subrange(0, 8)[0] == p[0]);
                assert(p[0] == 'f');
            }
            if p == "refs.md"@ {
                assert(p[0] == 'r');
            }
            if has_prefix(p, "vba/"@) {
                assert(p.subrange(0, 4)[0] == p[0]);
                assert("vba/"@[0] == 'v');
            }
        }
    }
}

proof fn lemma_module_artifacts_index(mods: Seq<(String, String)>, k: nat)
    ensures
        module_artifacts(mods, k).len() == k,
        forall|j: int|
            0 <= j < k ==> #[trigger] module_artifacts(mods, k)[j] == (
                "vba/"@ + spec_module_file_name(mods[j].0@),
                mods[j].1@,
            ),
    decreases k,
{
    if k > 0 {
        lemma_module_artifacts_index(mods, (k - 1) as nat);
    }
}

/// A workbook that reports a macro project yields exactly one module file
/// per macro module, named after the module and holding its verbatim source,
/// followed by the references table as the run's last artifact.
pub proof fn lemma_macro_project_artifacts(wb: Workbook, p: VbaProject)
    requires
        wb.vba == Some(p),
    ensures
        ({
            let base = 1 + sheet_artifacts(wb.sheets@, wb.sheets@.len()).len();
            let arts = spec_artifacts(wb);
            &&& arts.len() == base + p.modules@.len() + 1
            &&& forall|j: int|
                0 <= j < p.modules@.len() ==> #[trigger] arts[base + j] == (
                    "vba/"@ + spec_module_file_name(p.modules@[j].0@),
                    p.modules@[j].1@,
                )
            &&& arts.last() == ("refs.md"@, spec_references_table(p.references@))
        }),
{
    lemma_module_artifacts_index(p.modules@, p.modules@.len());
}

} // verus!
