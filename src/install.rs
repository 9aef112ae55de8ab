//! The file operations that put the extension into the server's
//! installation tree, once its archive has been unpacked into a scratch
//! directory.

use vstd::prelude::*;

use crate::layout::{extension_dir, extension_dir_of, join_path, joined, library_dir, library_dir_of};
use crate::text::has_prefix;

verus! {

/// The directory that the downloaded archive is unpacked into.
pub const SCRATCH_DIR: &'static str = "vectors";

/// Name of the extension's compiled library.
pub const LIBRARY_NAME: &'static str = "vectors.so";

/// Name of the extension's control file.
pub const CONTROL_NAME: &'static str = "vectors.control";

/// Prefix of the extension's versioned schema scripts.
pub const SCHEMA_PREFIX: &'static str = "vectors--";

/// Where the extension's archive is downloaded from.
pub const ARCHIVE_URL: &'static str = "https://github.com/tensorchord/pgvecto.rs/releases/download/v0.3.0/vectors-pg16_x86_64-unknown-linux-gnu_0.3.0.zip";

/// One entry of the unpacked scratch directory.
#[derive(Clone, Debug, PartialEq, Eq)]
pub struct ScratchEntry {
    pub name: String,
    pub is_file: bool,
}

impl View for ScratchEntry {
    type V = (Seq<char>, bool);

    open spec fn view(&self) -> (Seq<char>, bool) {
        (self.name@, self.is_file)
    }
}

/// One file operation of an installation.
#[derive(Clone, Debug, PartialEq, Eq)]
pub enum InstallStep {
    Copy { from: String, to: String },
    RemoveDir { path: String },
}

/// What an `InstallStep` does, over plain paths.
pub ghost enum PlannedStep {
    Copy { from: Seq<char>, to: Seq<char> },
    RemoveDir { path: Seq<char> },
}

impl View for InstallStep {
    type V = PlannedStep;

    open spec fn view(&self) -> PlannedStep {
        match self {
            InstallStep::Copy { from, to } => PlannedStep::Copy { from: from@, to: to@ },
            InstallStep::RemoveDir { path } => PlannedStep::RemoveDir { path: path@ },
        }
    }
}

/// A scratch entry that is one of the extension's schema scripts: a regular
/// file whose name starts with `vectors--`.
pub open spec fn is_schema_entry(e: (Seq<char>, bool)) -> bool {
    e.1 && SCHEMA_PREFIX@.is_prefix_of(e.0)
}

/// Copying a schema script from the scratch directory into the extension directory.
pub open spec fn schema_copy(ext: Seq<char>, scratch: Seq<char>, name: Seq<char>) -> PlannedStep {
    PlannedStep::Copy { from: joined(scratch, name), to: joined(ext, name) }
}

/// The copies of the schema scripts among `entries`, in their order.
pub open spec fn schema_copies(ext: Seq<char>, scratch: Seq<char>, entries: Seq<(Seq<char>, bool)>) -> Seq<PlannedStep>
    decreases entries.len(),
{
    if entries.len() == 0 {
        Seq::empty()
    } else {
        let rest = schema_copies(ext, scratch, entries.drop_last());
        if is_schema_entry(entries.last()) {
            rest.push(schema_copy(ext, scratch, entries.last().0))
        } else {
            rest
        }
    }
}

/// The whole installation: the library into the library directory, each
/// schema script and then the control file into the extension directory,
/// and last the removal of the scratch directory.
pub open spec fn install_plan_of(install: Seq<char>, scratch: Seq<char>, entries: Seq<(Seq<char>, bool)>) -> Seq<PlannedStep> {
    let lib = library_dir_of(install);
    let ext = extension_dir_of(install);
    seq![PlannedStep::Copy { from: joined(scratch, LIBRARY_NAME@), to: joined(lib, LIBRARY_NAME@) }]
        + schema_copies(ext, scratch, entries)
        + seq![
        PlannedStep::Copy { from: joined(scratch, CONTROL_NAME@), to: joined(ext, CONTROL_NAME@) },
        PlannedStep::RemoveDir { path: scratch },
    ]
}

/// Whether a scratch entry is one of the extension's schema scripts.
pub fn is_schema_file(entry: &ScratchEntry) -> (r: bool)
    ensures
        r == is_schema_entry(entry@),
{
    entry.is_file && has_prefix(entry.name.as_str(), SCHEMA_PREFIX)
}

/// The file operations that install the extension from the unpacked
/// `scratch` directory, whose entries are `entries` in the order they were
/// listed, into the server installed under `install`.
pub fn install_plan(install: &str, scratch: &str, entries: &Vec<ScratchEntry>) -> (r: Vec<InstallStep>)
    ensures
        r@.map_values(|s: InstallStep| s@) == install_plan_of(install@, scratch@, entries@.map_values(|e: ScratchEntry| e@)),
{
    let lib = library_dir(install);
    let ext = extension_dir(install);
    let ghost ents = entries@.map_values(|e: ScratchEntry| e@);
    let mut r: Vec<InstallStep> = Vec::new();
    r.push(InstallStep::Copy { from: join_path(scratch, LIBRARY_NAME), to: join_path(lib.as_str(), LIBRARY_NAME) });
    let ghost first = r@.map_values(|s: InstallStep| s@);
    let mut i: usize = 0;
    while i < entries.len()
        invariant
            i <= entries@.len(),
            ents == entries@.map_values(|e: ScratchEntry| e@),
            ext@ == extension_dir_of(install@),
            first.len() == 1,
            r@.map_values(|s: InstallStep| s@) =~= first + schema_copies(ext@, scratch@, ents.take(i as int)),
        decreases entries@.len() - i,
    {
        let e = &entries[i];
        let ghost before = r@.map_values(|s: InstallStep| s@);
        let ghost done = schema_copies(ext@, scratch@, ents.take(i as int));
        proof {
            assert(ents.take(i + 1).drop_last() =~= ents.take(i as int));
            assert(ents.take(i + 1).last() == e@);
        }
        if is_schema_file(e) {
            let step = InstallStep::Copy {
                from: join_path(scratch, e.name.as_str()),
                to: join_path(ext.as_str(), e.name.as_str()),
            };
            r.push(step);
            proof {
                assert(r@.map_values(|s: InstallStep| s@) =~= before.push(step@));
                assert(schema_copies(ext@, scratch@, ents.take(i + 1)) == done.push(step@));
                assert(first + done.push(step@) =~= (first + done).push(step@));
            }
        } else {
            assert(schema_copies(ext@, scratch@, ents.take(i + 1)) == done);
        }
        i += 1;
    }
    proof {
        assert(ents.take(entries@.len() as int) =~= ents);
    }
    let ghost middle = r@.map_values(|s: InstallStep| s@);
    let control = InstallStep::Copy { from: join_path(scratch, CONTROL_NAME), to: join_path(ext.as_str(), CONTROL_NAME) };
    let remove = InstallStep::RemoveDir { path: scratch.to_owned() };
    let ghost tail = seq![control@, remove@];
    r.push(control);
    r.push(remove);
    proof {
        assert(r@.map_values(|s: InstallStep| s@) =~= middle + tail);
        assert(r@.map_values(|s: InstallStep| s@) =~= install_plan_of(install@, scratch@, ents));
    }
    r
}

/// Each schema copy comes from a schema entry, and each schema entry is copied.
proof fn lemma_schema_copies(ext: Seq<char>, scratch: Seq<char>, entries: Seq<(Seq<char>, bool)>)
    ensures
        forall|k: int|
            0 <= k < schema_copies(ext, scratch, entries).len() ==> exists|j: int|
                0 <= j < entries.len() && is_schema_entry(#[trigger] entries[j])
                    && #[trigger] schema_copies(ext, scratch, entries)[k] == schema_copy(ext, scratch, entries[j].0),
        forall|j: int|
            0 <= j < entries.len() && is_schema_entry(#[trigger] entries[j]) ==> exists|k: int|
                0 <= k < schema_copies(ext, scratch, entries).len()
                    && schema_copies(ext, scratch, entries)[k] == schema_copy(ext, scratch, entries[j].0),
    decreases entries.len(),
{
    if entries.len() > 0 {
        let init = entries.drop_last();
        lemma_schema_copies(ext, scratch, init);
        let sc = schema_copies(ext, scratch, entries);
        let rest = schema_copies(ext, scratch, init);
        assert forall|k: int| 0 <= k < sc.len() implies exists|j: int|
            0 <= j < entries.len() && is_schema_entry(#[trigger] entries[j])
                && #[trigger] sc[k] == schema_copy(ext, scratch, entries[j].0) by {
            if k < rest.len() {
                let j = choose|j: int|
                    0 <= j < init.len() && is_schema_entry(#[trigger] init[j])
                        && rest[k] == schema_copy(ext, scratch, init[j].0);
                assert(entries[j] == init[j]);
            } else {
                assert(entries[entries.len() - 1] == entries.last());
            }
        }
        assert forall|j: int| 0 <= j < entries.len() && is_schema_entry(#[trigger] entries[j]) implies exists|k: int|
            0 <= k < sc.len() && sc[k] == schema_copy(ext, scratch, entries[j].0) by {
            if j < init.len() {
                assert(init[j] == entries[j]);
                let k = choose|k: int| 0 <= k < rest.len() && rest[k] == schema_copy(ext, scratch, init[j].0);
                assert(sc[k] == rest[k]);
            } else {
                assert(sc[rest.len() as int] == schema_copy(ext, scratch, entries[j].0));
            }
        }
    }
}

/// An installation ends by removing the scratch directory, and before that
/// only copies files. The files it copies are exactly the library into the
/// library directory, the control file into the extension directory, and
/// each schema script of the scratch directory into the extension directory.
pub proof fn lemma_install_plan_copies_exactly(install: Seq<char>, scratch: Seq<char>, entries: Seq<(Seq<char>, bool)>)
    ensures
        ({
            let plan = install_plan_of(install, scratch, entries);
            let lib = library_dir_of(install);
            let ext = extension_dir_of(install);
            &&& plan.len() >= 3
            &&& plan.last() == PlannedStep::RemoveDir { path: scratch }
            &&& forall|k: int| 0 <= k < plan.len() - 1 ==> (#[trigger] plan[k]) is Copy
            &&& forall|k: int|
                0 <= k < plan.len() - 1 ==> {
                    let to = (#[trigger] plan[k])->Copy_to;
                    ||| to == joined(lib, LIBRARY_NAME@)
                    ||| to == joined(ext, CONTROL_NAME@)
                    ||| exists|j: int| 0 <= j < entries.len() && is_schema_entry(#[trigger] entries[j]) && to == joined(ext, entries[j].0)
                }
            &&& plan[0]->Copy_to == joined(lib, LIBRARY_NAME@)
            &&& plan[plan.len() - 2]->Copy_to == joined(ext, CONTROL_NAME@)
            &&& forall|j: int|
                0 <= j < entries.len() && is_schema_entry(#[trigger] entries[j]) ==> exists|k: int|
                    0 <= k < plan.len() - 1 && plan[k] is Copy && plan[k]->Copy_to == joined(ext, entries[j].0)
        }),
{
    let plan = install_plan_of(install, scratch, entries);
    let lib = library_dir_of(install);
    let ext = extension_dir_of(install);
    let sc = schema_copies(ext, scratch, entries);
    lemma_schema_copies(ext, scratch, entries);
    assert forall|k: int| 0 <= k < plan.len() - 1 implies {
        let to = (#[trigger] plan[k])->Copy_to;
        &&& plan[k] is Copy
        &&& (to == joined(lib, LIBRARY_NAME@) || to == joined(ext, CONTROL_NAME@)
            || exists|j: int| 0 <= j < entries.len() && is_schema_entry(#[trigger] entries[j]) && to == joined(ext, entries[j].0))
    } by {
        if 1 <= k < 1 + sc.len() {
            assert(plan[k] == sc[k - 1]);
            let j = choose|j: int|
                0 <= j < entries.len() && is_schema_entry(#[trigger] entries[j])
                    && sc[k - 1] == schema_copy(ext, scratch, entries[j].0);
        }
    }
    assert forall|j: int| 0 <= j < entries.len() && is_schema_entry(#[trigger] entries[j]) implies exists|k: int|
        0 <= k < plan.len() - 1 && plan[k] is Copy && plan[k]->Copy_to == joined(ext, entries[j].0) by {
        let k = choose|k: int| 0 <= k < sc.len() && sc[k] == schema_copy(ext, scratch, entries[j].0);
        assert(plan[k + 1] == sc[k]);
    }
}

} // verus!
