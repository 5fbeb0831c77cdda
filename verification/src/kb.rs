//! `ws kb`: the knowledge-base scaffold under `catalog/knowledge/`.
//!
//! The knowledge-base tree ships embedded in the binary; `AssetId` names each
//! of its files. Scaffolding is skip-by-default: files already on disk are
//! left alone and only missing ones are written. `--reset <asset>` rewrites
//! exactly one named file.
use vstd::prelude::*;
use crate::error::{unknown_asset_text, WorkspaceError};
use crate::text::{decimal_text, owned, push_str, str_eq, u64_text};

verus! {

/// Outcome of one asset in a scaffold run.
#[derive(Clone, Copy, PartialEq, Eq, Structural, Debug)]
pub enum AssetStatus {
    /// Newly created (the file did not exist before).
    Written,
    /// Left untouched (the file already existed).
    Skipped,
    /// Explicitly rewritten via `ws kb init --reset <asset>`.
    Refreshed,
}

/// One of the embedded assets under `catalog-knowledge/`.
#[derive(Clone, Copy, PartialEq, Eq, Structural, Debug)]
pub enum AssetId {
    Gitkeep,
    Readme,
    Schema,
    RawGitignore,
    RawReadme,
    RawAssetsGitkeep,
    WikiTemplate,
    WikiIndex,
    WikiLog,
    WikiEntitiesGitkeep,
    WikiSourcesGitkeep,
    WikiSynthesisGitkeep,
    WikiTopicsGitkeep,
}

/// Every asset, in declaration order.
pub open spec fn all_assets() -> Seq<AssetId> {
    seq![
        AssetId::Gitkeep,
        AssetId::Readme,
        AssetId::Schema,
        AssetId::RawGitignore,
        AssetId::RawReadme,
        AssetId::RawAssetsGitkeep,
        AssetId::WikiTemplate,
        AssetId::WikiIndex,
        AssetId::WikiLog,
        AssetId::WikiEntitiesGitkeep,
        AssetId::WikiSourcesGitkeep,
        AssetId::WikiSynthesisGitkeep,
        AssetId::WikiTopicsGitkeep,
    ]
}

/// The path of an asset relative to the knowledge-base root.
pub open spec fn asset_path(a: AssetId) -> Seq<char> {
    match a {
        AssetId::Gitkeep => ".gitkeep"@,
        AssetId::Readme => "README.md"@,
        AssetId::Schema => "SCHEMA.md"@,
        AssetId::RawGitignore => "raw/.gitignore"@,
        AssetId::RawReadme => "raw/README.md"@,
        AssetId::RawAssetsGitkeep => "raw/assets/.gitkeep"@,
        AssetId::WikiTemplate => "wiki/_template.md"@,
        AssetId::WikiIndex => "wiki/index.md"@,
        AssetId::WikiLog => "wiki/log.md"@,
        AssetId::WikiEntitiesGitkeep => "wiki/entities/.gitkeep"@,
        AssetId::WikiSourcesGitkeep => "wiki/sources/.gitkeep"@,
        AssetId::WikiSynthesisGitkeep => "wiki/synthesis/.gitkeep"@,
        AssetId::WikiTopicsGitkeep => "wiki/topics/.gitkeep"@,
    }
}

/// The position of the first asset whose path is `s`.
pub open spec fn asset_named(s: Seq<char>) -> Option<int>
    decreases 13int,
{
    asset_named_from(s, 0)
}

pub open spec fn asset_named_from(s: Seq<char>, i: int) -> Option<int>
    decreases 13 - i,
{
    if i < 0 || i >= 13 {
        None
    } else if asset_path(all_assets()[i]) == s {
        Some(i)
    } else {
        asset_named_from(s, i + 1)
    }
}

impl AssetId {
    /// Path of this asset relative to the embedded root; this is the exact,
    /// case-sensitive `--reset <asset>` token.
    pub fn relative_path(self) -> (p: &'static str)
        ensures
            p@ == asset_path(self),
    {
        match self {
            AssetId::Gitkeep => ".gitkeep",
            AssetId::Readme => "README.md",
            AssetId::Schema => "SCHEMA.md",
            AssetId::RawGitignore => "raw/.gitignore",
            AssetId::RawReadme => "raw/README.md",
            AssetId::RawAssetsGitkeep => "raw/assets/.gitkeep",
            AssetId::WikiTemplate => "wiki/_template.md",
            AssetId::WikiIndex => "wiki/index.md",
            AssetId::WikiLog => "wiki/log.md",
            AssetId::WikiEntitiesGitkeep => "wiki/entities/.gitkeep",
            AssetId::WikiSourcesGitkeep => "wiki/sources/.gitkeep",
            AssetId::WikiSynthesisGitkeep => "wiki/synthesis/.gitkeep",
            AssetId::WikiTopicsGitkeep => "wiki/topics/.gitkeep",
        }
    }

    /// All embedded assets, in declaration order.
    pub fn all() -> (v: Vec<AssetId>)
        ensures
            v@ == all_assets(),
    {
        let v = vec![
            AssetId::Gitkeep,
            AssetId::Readme,
            AssetId::Schema,
            AssetId::RawGitignore,
            AssetId::RawReadme,
            AssetId::RawAssetsGitkeep,
            AssetId::WikiTemplate,
            AssetId::WikiIndex,
            AssetId::WikiLog,
            AssetId::WikiEntitiesGitkeep,
            AssetId::WikiSourcesGitkeep,
            AssetId::WikiSynthesisGitkeep,
            AssetId::WikiTopicsGitkeep,
        ];
        assert(v@ =~= all_assets());
        v
    }

    /// All valid `--reset` tokens, in declaration order.
    pub fn valid_names() -> (v: Vec<String>)
        ensures
            v@.len() == 13,
            forall|i: int| 0 <= i < 13 ==> #[trigger] v@[i]@ == asset_path(all_assets()[i]),
    {
        let all = AssetId::all();
        let mut v: Vec<String> = Vec::new();
        let mut i: usize = 0;
        while i < all.len()
            invariant
                all@ == all_assets(),
                i <= all.len(),
                v@.len() == i,
                forall|k: int| 0 <= k < i ==> #[trigger] v@[k]@ == asset_path(all_assets()[k]),
            decreases all.len() - i,
        {
            v.push(owned(all[i].relative_path()));
            i += 1;
        }
        v
    }

    /// Parses a `--reset` token into an asset.
    pub fn from_arg(s: &str) -> (res: Result<AssetId, UnknownAsset>)
        ensures
            match asset_named(s@) {
                Some(i) => res == Ok::<AssetId, UnknownAsset>(all_assets()[i]),
                None => res matches Err(u) && u.requested@ == s@ && u.valid@.len() == 13
                    && forall|i: int|
                    0 <= i < 13 ==> #[trigger] u.valid@[i]@ == asset_path(all_assets()[i]),
            },
    {
        let all = AssetId::all();
        let mut i: usize = 0;
        while i < all.len()
            invariant
                all@ == all_assets(),
                i <= 13,
                asset_named(s@) == asset_named_from(s@, i as int),
            decreases all.len() - i,
        {
            if str_eq(all[i].relative_path(), s) {
                return Ok(all[i]);
            }
            i += 1;
        }
        Err(UnknownAsset { requested: owned(s), valid: AssetId::valid_names() })
    }
}

/// A requested `--reset` asset name that is not known.
#[derive(Debug)]
pub struct UnknownAsset {
    pub requested: String,
    pub valid: Vec<String>,
}

impl UnknownAsset {
    /// The human-readable message: the request and the valid names.
    pub fn message(&self) -> (s: String)
        ensures
            s@ == unknown_asset_text(self.requested@, self.valid@),
    {
        let e = WorkspaceError::UnknownAsset {
            requested: self.requested.clone(),
            valid: self.valid.clone(),
        };
        e.message()
    }
}

/// One asset's path and its scaffold outcome.
#[derive(PartialEq, Eq, Debug)]
pub struct AssetReport {
    pub path: String,
    pub status: AssetStatus,
}

/// One report entry per embedded file, in order.
pub struct ScaffoldReport {
    pub assets: Vec<AssetReport>,
}

/// The path is among those already present on disk.
pub open spec fn present(existing: Seq<String>, p: Seq<char>) -> bool {
    exists|j: int| 0 <= j < existing.len() && #[trigger] existing[j]@ == p
}

/// Whether `p` is among the given paths.
fn is_present(existing: &Vec<String>, p: &str) -> (res: bool)
    ensures
        res == present(existing@, p@),
{
    let mut j: usize = 0;
    while j < existing.len()
        invariant
            j <= existing.len(),
            forall|k: int| 0 <= k < j ==> existing@[k]@ != p@,
        decreases existing.len() - j,
    {
        if str_eq(existing[j].as_str(), p) {
            return true;
        }
        j += 1;
    }
    false
}

/// The status a plain scaffold gives asset `i`: skipped when its path is
/// already on disk, else written.
pub open spec fn planned_status(existing: Seq<String>, i: int) -> AssetStatus {
    if present(existing, asset_path(all_assets()[i])) {
        AssetStatus::Skipped
    } else {
        AssetStatus::Written
    }
}

/// The plain scaffold's report: one entry per asset, in order, each with
/// the asset's path and its planned status.
pub open spec fn scaffold_plan(assets: Seq<AssetReport>, existing: Seq<String>) -> bool {
    &&& assets.len() == 13
    &&& forall|i: int|
        0 <= i < 13 ==> {
            &&& (#[trigger] assets[i]).path@ == asset_path(all_assets()[i])
            &&& assets[i].status == planned_status(existing, i)
        }
}

/// The list of valid `--reset` names: every asset's path, in order.
pub open spec fn valid_name_list(valid: Seq<String>) -> bool {
    &&& valid.len() == 13
    &&& forall|i: int| 0 <= i < 13 ==> #[trigger] valid[i]@ == asset_path(all_assets()[i])
}

/// Scaffolding is idempotent: once the assets a scaffold marked `Written`
/// are on disk (and what was there stays), a second scaffold skips every
/// asset.
pub proof fn lemma_rescaffold_skips_all(existing: Seq<String>, after: Seq<String>)
    requires
        forall|p: Seq<char>| present(existing, p) ==> present(after, p),
        forall|i: int|
            0 <= i < 13 && #[trigger] planned_status(existing, i) == AssetStatus::Written
                ==> present(after, asset_path(all_assets()[i])),
    ensures
        forall|i: int| 0 <= i < 13 ==> #[trigger] planned_status(after, i) == AssetStatus::Skipped,
{
    assert forall|i: int| 0 <= i < 13 implies #[trigger] planned_status(after, i)
        == AssetStatus::Skipped by {
        if planned_status(existing, i) == AssetStatus::Written {
        } else {
            assert(present(existing, asset_path(all_assets()[i])));
        }
    }
}

/// Plans a scaffold of the knowledge base. `existing` lists the asset paths
/// already on disk under `catalog/knowledge/`.
///
/// Without `reset`, every asset gets one entry: `Skipped` if it already
/// exists, else `Written` (the caller then writes exactly the `Written`
/// ones). With `reset`, the report holds exactly one `Refreshed` entry for
/// the named asset, which the caller rewrites; nothing else is touched.
pub fn scaffold(reset: Option<AssetId>, existing: &Vec<String>) -> (report: ScaffoldReport)
    ensures
        match reset {
            Some(id) => report.assets@.len() == 1 && report.assets@[0].path@ == asset_path(id)
                && report.assets@[0].status == AssetStatus::Refreshed,
            None => scaffold_plan(report.assets@, existing@),
        },
{
    let mut assets: Vec<AssetReport> = Vec::new();
    match reset {
        Some(id) => {
            assets.push(AssetReport { path: owned(id.relative_path()), status: AssetStatus::Refreshed });
        },
        None => {
            let all = AssetId::all();
            let mut i: usize = 0;
            while i < all.len()
                invariant
                    all@ == all_assets(),
                    i <= all.len(),
                    assets@.len() == i,
                    forall|k: int|
                        0 <= k < i ==> {
                            &&& (#[trigger] assets@[k]).path@ == asset_path(all_assets()[k])
                            &&& assets@[k].status == if present(
                                existing@,
                                asset_path(all_assets()[k]),
                            ) {
                                AssetStatus::Skipped
                            } else {
                                AssetStatus::Written
                            }
                        },
                decreases all.len() - i,
            {
                let p = all[i].relative_path();
                let status = if is_present(existing, p) {
                    AssetStatus::Skipped
                } else {
                    AssetStatus::Written
                };
                assets.push(AssetReport { path: owned(p), status });
                i += 1;
            }
        },
    }
    ScaffoldReport { assets }
}

/// The lower-case status label, padded to ten columns.
pub open spec fn status_label(s: AssetStatus) -> Seq<char> {
    match s {
        AssetStatus::Written => "written   "@,
        AssetStatus::Skipped => "skipped   "@,
        AssetStatus::Refreshed => "refreshed "@,
    }
}

/// One line per asset: `"  <status> <path>\n"`.
pub open spec fn report_lines(assets: Seq<AssetReport>) -> Seq<char>
    decreases assets.len(),
{
    if assets.len() == 0 {
        Seq::empty()
    } else {
        report_lines(assets.drop_last()) + "  "@ + status_label(assets.last().status) + " "@
            + assets.last().path@ + "\n"@
    }
}

/// The number of entries with the given status.
pub open spec fn count_status(assets: Seq<AssetReport>, s: AssetStatus) -> nat
    decreases assets.len(),
{
    if assets.len() == 0 {
        0
    } else {
        count_status(assets.drop_last(), s) + if assets.last().status == s { 1nat } else { 0nat }
    }
}

/// The summary `ws kb init` prints: a header, one line per asset and a tally.
pub open spec fn summary_text(assets: Seq<AssetReport>, reset: bool) -> Seq<char> {
    (if reset { "Knowledge base reset:"@ } else { "Knowledge base scaffold:"@ }) + "\n"@
        + report_lines(assets) + if reset {
        "\n1 refreshed."@
    } else {
        "\n"@ + decimal_text(count_status(assets, AssetStatus::Written)) + " written, "@
            + decimal_text(count_status(assets, AssetStatus::Skipped)) + " skipped."@
    }
}

fn label(s: AssetStatus) -> (l: &'static str)
    ensures
        l@ == status_label(s),
{
    match s {
        AssetStatus::Written => "written   ",
        AssetStatus::Skipped => "skipped   ",
        AssetStatus::Refreshed => "refreshed ",
    }
}

/// Renders the summary of a scaffold run.
pub fn render_summary(report: &ScaffoldReport, reset: bool) -> (s: String)
    ensures
        s@ == summary_text(report.assets@, reset),
{
    let mut s = if reset {
        owned("Knowledge base reset:")
    } else {
        owned("Knowledge base scaffold:")
    };
    push_str(&mut s, "\n");
    let ghost head = s@;
    let mut written: u64 = 0;
    let mut skipped: u64 = 0;
    let mut i: usize = 0;
    while i < report.assets.len()
        invariant
            i <= report.assets.len(),
            s@ == head + report_lines(report.assets@.take(i as int)),
            written == count_status(report.assets@.take(i as int), AssetStatus::Written),
            skipped == count_status(report.assets@.take(i as int), AssetStatus::Skipped),
            written <= i,
            skipped <= i,
        decreases report.assets.len() - i,
    {
        let a = &report.assets[i];
        push_str(&mut s, "  ");
        push_str(&mut s, label(a.status));
        push_str(&mut s, " ");
        push_str(&mut s, a.path.as_str());
        push_str(&mut s, "\n");
        assert(report.assets@.take(i + 1).drop_last() =~= report.assets@.take(i as int));
        match a.status {
            AssetStatus::Written => {
                written += 1;
            },
            AssetStatus::Skipped => {
                skipped += 1;
            },
            AssetStatus::Refreshed => {},
        }
        i += 1;
    }
    assert(report.assets@.take(i as int) =~= report.assets@);
    if reset {
        push_str(&mut s, "\n1 refreshed.");
    } else {
        push_str(&mut s, "\n");
        let w = u64_text(written);
        push_str(&mut s, w.as_str());
        push_str(&mut s, " written, ");
        let k = u64_text(skipped);
        push_str(&mut s, k.as_str());
        push_str(&mut s, " skipped.");
    }
    s
}

/// Reads the `--reset` token: none means a plain scaffold; an unknown name
/// is an `UnknownAsset` error listing the valid names.
pub fn parse_reset(reset: Option<&str>) -> (res: Result<Option<AssetId>, WorkspaceError>)
    ensures
        match reset {
            None => res == Ok::<Option<AssetId>, WorkspaceError>(None),
            Some(name) => match asset_named(name@) {
                Some(i) => res == Ok::<Option<AssetId>, WorkspaceError>(Some(all_assets()[i])),
                None => res matches Err(WorkspaceError::UnknownAsset { requested, valid })
                    && requested@ == name@ && valid_name_list(valid@),
            },
        },
{
    match reset {
        None => Ok(None),
        Some(name) => match AssetId::from_arg(name) {
            Ok(id) => Ok(Some(id)),
            Err(u) => Err(WorkspaceError::UnknownAsset { requested: u.requested, valid: u.valid }),
        },
    }
}

/// The `ws kb init` workflow: reads the `--reset` token, plans the scaffold
/// against the asset paths already on disk, and renders the summary. The
/// caller writes the files the report marks `Written` or `Refreshed` and
/// prints the summary.
pub fn run_init(reset: Option<&str>, existing: &Vec<String>) -> (res: Result<
    (ScaffoldReport, String),
    WorkspaceError,
>)
    ensures
        match reset {
            None => res matches Ok((r, s)) && scaffold_plan(r.assets@, existing@) && s@
                == summary_text(r.assets@, false),
            Some(name) => match asset_named(name@) {
                Some(i) => res matches Ok((r, s)) && r.assets@.len() == 1 && r.assets@[0].path@
                    == asset_path(all_assets()[i]) && r.assets@[0].status == AssetStatus::Refreshed
                    && s@ == summary_text(r.assets@, true),
                None => res matches Err(WorkspaceError::UnknownAsset { requested, valid })
                    && requested@ == name@ && valid_name_list(valid@),
            },
        },
{
    let id = match parse_reset(reset) {
        Ok(id) => id,
        Err(e) => return Err(e),
    };
    let report = scaffold(id, existing);
    let summary = render_summary(&report, reset.is_some());
    Ok((report, summary))
}

} // verus!
