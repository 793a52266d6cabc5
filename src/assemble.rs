//! Assembly of every parsed argument into one package specification, in a fixed order,
//! stopping at the first failure.

use vstd::prelude::*;
use crate::changelog::{changelog_result, parse_changelog_entry, ChangelogEntry, ChangelogModel};
use crate::error::{ArgCategory, ErrorModel, ScriptletKind, SpecError};
use crate::file_spec::{file_spec_result, parse_file_spec};
use crate::numbers::{epoch_result, parse_epoch, parse_release, release_result};
use crate::package::{
    add_entry,
    add_entry_keeps_unique,
    add_file,
    entries_model,
    entry_model,
    file_entry,
    CompressionMode,
    FileEntry,
    FileEntryModel,
    FileRole,
    PackageSpec,
    unique_destinations,
};
use crate::relation::{parse_dependency, relationship_result, DependencyModel, DependencySpec};
use crate::tree::{expand_directory, expand_nodes, DirNode};

verus! {

/// Applies `step` to each item in turn, starting from `init`; the first failure wins.
pub open spec fn fold_steps<A, S>(
    init: S,
    items: Seq<A>,
    step: spec_fn(S, A) -> Result<S, ErrorModel>,
) -> Result<S, ErrorModel>
    decreases items.len(),
{
    if items.len() == 0 {
        Ok(init)
    } else {
        match fold_steps(init, items.drop_last(), step) {
            Err(e) => Err(e),
            Ok(s) => step(s, items.last()),
        }
    }
}

proof fn lemma_fold_next<A, S>(
    init: S,
    items: Seq<A>,
    i: int,
    step: spec_fn(S, A) -> Result<S, ErrorModel>,
)
    requires
        0 <= i < items.len(),
    ensures
        fold_steps(init, items.take(i + 1), step) == match fold_steps(init, items.take(i), step) {
            Err(e) => Err(e),
            Ok(s) => step(s, items[i]),
        },
{
    assert(items.take(i + 1).drop_last() =~= items.take(i));
}

proof fn lemma_fold_prefix_failure<A, S>(
    init: S,
    items: Seq<A>,
    k: int,
    step: spec_fn(S, A) -> Result<S, ErrorModel>,
)
    requires
        0 <= k <= items.len(),
        fold_steps(init, items.take(k), step) is Err,
    ensures
        fold_steps(init, items, step) == fold_steps(init, items.take(k), step),
    decreases items.len(),
{
    if k == items.len() {
        assert(items.take(k) =~= items);
    } else {
        let front = items.drop_last();
        assert(front.take(k) =~= items.take(k));
        lemma_fold_prefix_failure(init, front, k, step);
    }
}

/// A script to attach to a hook: where it was read from and what reading it gave.
#[derive(Debug)]
pub struct ScriptSource {
    pub path: String,
    /// The file's text, or the description of why it could not be read.
    pub content: Result<String, String>,
}

/// A `source-dir:destination-prefix` argument with the listing read at its source directory.
#[derive(Debug)]
pub struct DirSource {
    pub raw: String,
    /// The directory's listing, or the description of why it could not be read.
    pub listing: Result<Vec<DirNode>, String>,
}

/// Everything the command line supplied, with the file reads already done.
#[derive(Debug)]
pub struct AssemblyInput {
    pub name: String,
    pub version: String,
    pub license: String,
    pub arch: String,
    pub description: String,
    pub release: String,
    pub epoch: String,
    pub compression: CompressionMode,
    pub files: Vec<String>,
    pub exec_files: Vec<String>,
    pub config_files: Vec<String>,
    pub dirs: Vec<DirSource>,
    pub doc_files: Vec<String>,
    pub pre_install_script: Option<ScriptSource>,
    pub post_install_script: Option<ScriptSource>,
    pub pre_uninstall_script: Option<ScriptSource>,
    pub post_uninstall_script: Option<ScriptSource>,
    pub changelog: Vec<String>,
    pub required: Vec<String>,
    pub obsoletes: Vec<String>,
    pub conflicts: Vec<String>,
    pub provides: Vec<String>,
    pub signing_key: Option<String>,
}

/// [`PackageSpec`] over character sequences.
pub struct PackageModel {
    pub name: Seq<char>,
    pub version: Seq<char>,
    pub release: u16,
    pub epoch: i32,
    pub license: Seq<char>,
    pub arch: Seq<char>,
    pub description: Seq<char>,
    pub compression: CompressionMode,
    pub files: Seq<FileEntryModel>,
    pub required: Seq<DependencyModel>,
    pub provides: Seq<DependencyModel>,
    pub conflicts: Seq<DependencyModel>,
    pub obsoletes: Seq<DependencyModel>,
    pub changelog: Seq<ChangelogModel>,
    pub pre_install: Option<Seq<char>>,
    pub post_install: Option<Seq<char>>,
    pub pre_uninstall: Option<Seq<char>>,
    pub post_uninstall: Option<Seq<char>>,
    pub signing_key: Option<Seq<char>>,
}

pub open spec fn text_model(s: Option<String>) -> Option<Seq<char>> {
    match s {
        Some(t) => Some(t@),
        None => None,
    }
}

pub open spec fn dependencies_model(v: Seq<DependencySpec>) -> Seq<DependencyModel> {
    v.map_values(|d: DependencySpec| d@)
}

pub open spec fn changelog_model(v: Seq<ChangelogEntry>) -> Seq<ChangelogModel> {
    v.map_values(|c: ChangelogEntry| c@)
}

impl View for PackageSpec {
    type V = PackageModel;

    open spec fn view(&self) -> PackageModel {
        PackageModel {
            name: self.name@,
            version: self.version@,
            release: self.release,
            epoch: self.epoch,
            license: self.license@,
            arch: self.arch@,
            description: self.description@,
            compression: self.compression,
            files: entries_model(self.files@),
            required: dependencies_model(self.required@),
            provides: dependencies_model(self.provides@),
            conflicts: dependencies_model(self.conflicts@),
            obsoletes: dependencies_model(self.obsoletes@),
            changelog: changelog_model(self.changelog@),
            pre_install: text_model(self.pre_install),
            post_install: text_model(self.post_install),
            pre_uninstall: text_model(self.pre_uninstall),
            post_uninstall: text_model(self.post_uninstall),
            signing_key: text_model(self.signing_key),
        }
    }
}

/// Adding one placement string of the given role.
pub open spec fn file_step(role: FileRole, category: ArgCategory) -> spec_fn(
    Seq<FileEntryModel>,
    String,
) -> Result<Seq<FileEntryModel>, ErrorModel> {
    |fs: Seq<FileEntryModel>, raw: String|
        match file_spec_result(raw@, category) {
            Err(e) => Err(e),
            Ok(pair) => add_entry(fs, entry_model(pair.0, pair.1, role), category),
        }
}

/// Adding one already expanded entry.
pub open spec fn entry_step(category: ArgCategory) -> spec_fn(
    Seq<FileEntryModel>,
    FileEntryModel,
) -> Result<Seq<FileEntryModel>, ErrorModel> {
    |fs: Seq<FileEntryModel>, e: FileEntryModel| add_entry(fs, e, category)
}

/// Adding every file below one directory argument.
pub open spec fn dir_step() -> spec_fn(Seq<FileEntryModel>, DirSource) -> Result<
    Seq<FileEntryModel>,
    ErrorModel,
> {
    |fs: Seq<FileEntryModel>, d: DirSource|
        match file_spec_result(d.raw@, ArgCategory::Dir) {
            Err(e) => Err(e),
            Ok(pair) => match d.listing {
                Err(m) => Err(
                    ErrorModel::FilesystemAccessError {
                        category: ArgCategory::Dir,
                        path: pair.0,
                        message: m@,
                    },
                ),
                Ok(nodes) => match expand_nodes(nodes@, pair.1) {
                    Err(e) => Err(e),
                    Ok(es) => fold_steps(fs, es, entry_step(ArgCategory::Dir)),
                },
            },
        }
}

/// Appending one parsed changelog entry.
pub open spec fn changelog_step() -> spec_fn(Seq<ChangelogModel>, String) -> Result<
    Seq<ChangelogModel>,
    ErrorModel,
> {
    |cs: Seq<ChangelogModel>, raw: String|
        match changelog_result(raw@) {
            Err(e) => Err(e),
            Ok(c) => Ok(cs.push(c)),
        }
}

/// Appending one parsed relationship.
pub open spec fn dependency_step(category: ArgCategory) -> spec_fn(
    Seq<DependencyModel>,
    String,
) -> Result<Seq<DependencyModel>, ErrorModel> {
    |ds: Seq<DependencyModel>, raw: String|
        match relationship_result(raw@, category) {
            Err(e) => Err(e),
            Ok(d) => Ok(ds.push(d)),
        }
}

/// The script attached to a hook, if any.
pub open spec fn script_result(s: Option<ScriptSource>, kind: ScriptletKind) -> Result<
    Option<Seq<char>>,
    ErrorModel,
> {
    match s {
        None => Ok(None),
        Some(src) => match src.content {
            Ok(c) => Ok(Some(c@)),
            Err(m) => Err(ErrorModel::ScriptletReadError { kind, path: src.path@, message: m@ }),
        },
    }
}

/// The manifest with release and epoch: metadata, plain files, release, epoch, executable
/// files, config files, directories, then doc files.
pub open spec fn files_stage(i: AssemblyInput) -> Result<(Seq<FileEntryModel>, u16, i32), ErrorModel> {
    match fold_steps(Seq::empty(), i.files@, file_step(FileRole::Plain, ArgCategory::File)) {
        Err(e) => Err(e),
        Ok(f1) => match release_result(i.release@) {
            Err(e) => Err(e),
            Ok(release) => match epoch_result(i.epoch@) {
                Err(e) => Err(e),
                Ok(epoch) => match fold_steps(
                    f1,
                    i.exec_files@,
                    file_step(FileRole::Executable, ArgCategory::ExecFile),
                ) {
                    Err(e) => Err(e),
                    Ok(f2) => match fold_steps(
                        f2,
                        i.config_files@,
                        file_step(FileRole::Config, ArgCategory::ConfigFile),
                    ) {
                        Err(e) => Err(e),
                        Ok(f3) => match fold_steps(f3, i.dirs@, dir_step()) {
                            Err(e) => Err(e),
                            Ok(f4) => match fold_steps(
                                f4,
                                i.doc_files@,
                                file_step(FileRole::Doc, ArgCategory::DocFile),
                            ) {
                                Err(e) => Err(e),
                                Ok(f5) => Ok((f5, release, epoch)),
                            },
                        },
                    },
                },
            },
        },
    }
}

/// The four hooks, in the order pre-install, post-install, pre-uninstall, post-uninstall.
pub open spec fn scripts_stage(i: AssemblyInput) -> Result<
    (Option<Seq<char>>, Option<Seq<char>>, Option<Seq<char>>, Option<Seq<char>>),
    ErrorModel,
> {
    match script_result(i.pre_install_script, ScriptletKind::PreInstall) {
        Err(e) => Err(e),
        Ok(a) => match script_result(i.post_install_script, ScriptletKind::PostInstall) {
            Err(e) => Err(e),
            Ok(b) => match script_result(i.pre_uninstall_script, ScriptletKind::PreUninstall) {
                Err(e) => Err(e),
                Ok(c) => match script_result(
                    i.post_uninstall_script,
                    ScriptletKind::PostUninstall,
                ) {
                    Err(e) => Err(e),
                    Ok(d) => Ok((a, b, c, d)),
                },
            },
        },
    }
}

/// The changelog, then requires, obsoletes, conflicts and provides.
pub open spec fn relations_stage(i: AssemblyInput) -> Result<
    (
        Seq<ChangelogModel>,
        Seq<DependencyModel>,
        Seq<DependencyModel>,
        Seq<DependencyModel>,
        Seq<DependencyModel>,
    ),
    ErrorModel,
> {
    match fold_steps(Seq::empty(), i.changelog@, changelog_step()) {
        Err(e) => Err(e),
        Ok(cl) => match fold_steps(
            Seq::empty(),
            i.required@,
            dependency_step(ArgCategory::Requires),
        ) {
            Err(e) => Err(e),
            Ok(rq) => match fold_steps(
                Seq::empty(),
                i.obsoletes@,
                dependency_step(ArgCategory::Obsoletes),
            ) {
                Err(e) => Err(e),
                Ok(ob) => match fold_steps(
                    Seq::empty(),
                    i.conflicts@,
                    dependency_step(ArgCategory::Conflicts),
                ) {
                    Err(e) => Err(e),
                    Ok(co) => match fold_steps(
                        Seq::empty(),
                        i.provides@,
                        dependency_step(ArgCategory::Provides),
                    ) {
                        Err(e) => Err(e),
                        Ok(pr) => Ok((cl, rq, ob, co, pr)),
                    },
                },
            },
        },
    }
}

/// The package specification the input denotes, or the first failure met in the fixed order
/// files, scripts, changelog and relationships.
pub open spec fn assembly_of(i: AssemblyInput) -> Result<PackageModel, ErrorModel> {
    match files_stage(i) {
        Err(e) => Err(e),
        Ok((files, release, epoch)) => match scripts_stage(i) {
            Err(e) => Err(e),
            Ok((pre_install, post_install, pre_uninstall, post_uninstall)) => match relations_stage(
                i,
            ) {
                Err(e) => Err(e),
                Ok((changelog, required, obsoletes, conflicts, provides)) => Ok(
                    PackageModel {
                        name: i.name@,
                        version: i.version@,
                        release,
                        epoch,
                        license: i.license@,
                        arch: i.arch@,
                        description: i.description@,
                        compression: i.compression,
                        files,
                        required,
                        provides,
                        conflicts,
                        obsoletes,
                        changelog,
                        pre_install,
                        post_install,
                        pre_uninstall,
                        post_uninstall,
                        signing_key: text_model(i.signing_key),
                    },
                ),
            },
        },
    }
}

/// Adds the placements of one argument list, each with the given role.
fn add_file_args(
    files: &mut Vec<FileEntry>,
    raws: &Vec<String>,
    role: FileRole,
    category: ArgCategory,
) -> (r: Result<(), SpecError>)
    ensures
        match r {
            Ok(()) => fold_steps(entries_model(old(files)@), raws@, file_step(role, category))
                == Ok::<_, ErrorModel>(entries_model(final(files)@)),
            Err(e) => fold_steps(entries_model(old(files)@), raws@, file_step(role, category))
                == Err::<Seq<FileEntryModel>, _>(e@),
        },
{
    let ghost init = entries_model(files@);
    let ghost step = file_step(role, category);
    let mut i: usize = 0;
    assert(raws@.take(0) =~= Seq::<String>::empty());
    while i < raws.len()
        invariant
            i <= raws@.len(),
            step == file_step(role, category),
            init == entries_model(old(files)@),
            fold_steps(init, raws@.take(i as int), step) == Ok::<_, ErrorModel>(
                entries_model(files@),
            ),
        decreases raws.len() - i,
    {
        proof {
            lemma_fold_next(init, raws@, i as int, step);
        }
        match parse_file_spec(raws[i].as_str(), category) {
            Err(e) => {
                proof {
                    lemma_fold_prefix_failure(init, raws@, i + 1, step);
                }
                return Err(e);
            },
            Ok((source, destination)) => {
                let entry = file_entry(source, destination, role);
                match add_file(files, entry, category) {
                    Err(e) => {
                        proof {
                            lemma_fold_prefix_failure(init, raws@, i + 1, step);
                        }
                        return Err(e);
                    },
                    Ok(()) => {},
                }
            },
        }
        i += 1;
    }
    assert(raws@.take(raws@.len() as int) =~= raws@);
    Ok(())
}

fn copy_entry(e: &FileEntry) -> (r: FileEntry)
    ensures
        r@ == e@,
{
    FileEntry {
        source: e.source.clone(),
        destination: e.destination.clone(),
        role: e.role,
        mode: e.mode,
    }
}

/// Adds entries produced by a directory expansion.
fn add_expanded(files: &mut Vec<FileEntry>, entries: &Vec<FileEntry>, category: ArgCategory) -> (r:
    Result<(), SpecError>)
    ensures
        match r {
            Ok(()) => fold_steps(
                entries_model(old(files)@),
                entries_model(entries@),
                entry_step(category),
            ) == Ok::<_, ErrorModel>(entries_model(final(files)@)),
            Err(e) => fold_steps(
                entries_model(old(files)@),
                entries_model(entries@),
                entry_step(category),
            ) == Err::<Seq<FileEntryModel>, _>(e@),
        },
{
    let ghost init = entries_model(files@);
    let ghost items = entries_model(entries@);
    let ghost step = entry_step(category);
    let mut i: usize = 0;
    assert(items.take(0) =~= Seq::<FileEntryModel>::empty());
    while i < entries.len()
        invariant
            i <= entries@.len(),
            items == entries_model(entries@),
            step == entry_step(category),
            init == entries_model(old(files)@),
            fold_steps(init, items.take(i as int), step) == Ok::<_, ErrorModel>(
                entries_model(files@),
            ),
        decreases entries.len() - i,
    {
        proof {
            lemma_fold_next(init, items, i as int, step);
        }
        let entry = copy_entry(&entries[i]);
        match add_file(files, entry, category) {
            Err(e) => {
                proof {
                    lemma_fold_prefix_failure(init, items, i + 1, step);
                }
                return Err(e);
            },
            Ok(()) => {},
        }
        i += 1;
    }
    assert(items.take(items.len() as int) =~= items);
    Ok(())
}

/// Adds every file below each directory argument.
fn add_dir_args(files: &mut Vec<FileEntry>, dirs: &Vec<DirSource>) -> (r: Result<(), SpecError>)
    ensures
        match r {
            Ok(()) => fold_steps(entries_model(old(files)@), dirs@, dir_step()) == Ok::<
                _,
                ErrorModel,
            >(entries_model(final(files)@)),
            Err(e) => fold_steps(entries_model(old(files)@), dirs@, dir_step()) == Err::<
                Seq<FileEntryModel>,
                _,
            >(e@),
        },
{
    let ghost init = entries_model(files@);
    let ghost step = dir_step();
    let mut i: usize = 0;
    assert(dirs@.take(0) =~= Seq::<DirSource>::empty());
    while i < dirs.len()
        invariant
            i <= dirs@.len(),
            step == dir_step(),
            init == entries_model(old(files)@),
            fold_steps(init, dirs@.take(i as int), step) == Ok::<_, ErrorModel>(
                entries_model(files@),
            ),
        decreases dirs.len() - i,
    {
        proof {
            lemma_fold_next(init, dirs@, i as int, step);
        }
        let d = &dirs[i];
        let (source, destination) = match parse_file_spec(d.raw.as_str(), ArgCategory::Dir) {
            Err(e) => {
                proof {
                    lemma_fold_prefix_failure(init, dirs@, i + 1, step);
                }
                return Err(e);
            },
            Ok(pair) => pair,
        };
        let nodes = match &d.listing {
            Err(m) => {
                proof {
                    lemma_fold_prefix_failure(init, dirs@, i + 1, step);
                }
                return Err(
                    SpecError::FilesystemAccessError {
                        category: ArgCategory::Dir,
                        path: source,
                        message: m.clone(),
                    },
                );
            },
            Ok(nodes) => nodes,
        };
        let entries = match expand_directory(nodes, destination.as_str()) {
            Err(e) => {
                proof {
                    lemma_fold_prefix_failure(init, dirs@, i + 1, step);
                }
                return Err(e);
            },
            Ok(entries) => entries,
        };
        match add_expanded(files, &entries, ArgCategory::Dir) {
            Err(e) => {
                proof {
                    lemma_fold_prefix_failure(init, dirs@, i + 1, step);
                }
                return Err(e);
            },
            Ok(()) => {},
        }
        i += 1;
    }
    assert(dirs@.take(dirs@.len() as int) =~= dirs@);
    Ok(())
}

/// Parses every changelog string, keeping their order.
fn parse_changelog_list(raws: &Vec<String>) -> (r: Result<Vec<ChangelogEntry>, SpecError>)
    ensures
        match r {
            Ok(v) => fold_steps(Seq::empty(), raws@, changelog_step()) == Ok::<_, ErrorModel>(
                changelog_model(v@),
            ),
            Err(e) => fold_steps(Seq::empty(), raws@, changelog_step()) == Err::<
                Seq<ChangelogModel>,
                _,
            >(e@),
        },
{
    let ghost init = Seq::<ChangelogModel>::empty();
    let ghost step = changelog_step();
    let mut out: Vec<ChangelogEntry> = Vec::new();
    let mut i: usize = 0;
    assert(raws@.take(0) =~= Seq::<String>::empty());
    assert(changelog_model(out@) =~= init);
    while i < raws.len()
        invariant
            i <= raws@.len(),
            step == changelog_step(),
            init == Seq::<ChangelogModel>::empty(),
            fold_steps(init, raws@.take(i as int), step) == Ok::<_, ErrorModel>(
                changelog_model(out@),
            ),
        decreases raws.len() - i,
    {
        proof {
            lemma_fold_next(init, raws@, i as int, step);
        }
        match parse_changelog_entry(raws[i].as_str()) {
            Err(e) => {
                proof {
                    lemma_fold_prefix_failure(init, raws@, i + 1, step);
                }
                return Err(e);
            },
            Ok(entry) => {
                let ghost before = out@;
                out.push(entry);
                assert(changelog_model(out@) =~= changelog_model(before).push(entry@));
            },
        }
        i += 1;
    }
    assert(raws@.take(raws@.len() as int) =~= raws@);
    Ok(out)
}

/// Parses every relationship string of one category, keeping their order.
fn parse_dependency_list(raws: &Vec<String>, category: ArgCategory) -> (r: Result<
    Vec<DependencySpec>,
    SpecError,
>)
    ensures
        match r {
            Ok(v) => fold_steps(Seq::empty(), raws@, dependency_step(category)) == Ok::<
                _,
                ErrorModel,
            >(dependencies_model(v@)),
            Err(e) => fold_steps(Seq::empty(), raws@, dependency_step(category)) == Err::<
                Seq<DependencyModel>,
                _,
            >(e@),
        },
{
    let ghost init = Seq::<DependencyModel>::empty();
    let ghost step = dependency_step(category);
    let mut out: Vec<DependencySpec> = Vec::new();
    let mut i: usize = 0;
    assert(raws@.take(0) =~= Seq::<String>::empty());
    assert(dependencies_model(out@) =~= init);
    while i < raws.len()
        invariant
            i <= raws@.len(),
            step == dependency_step(category),
            init == Seq::<DependencyModel>::empty(),
            fold_steps(init, raws@.take(i as int), step) == Ok::<_, ErrorModel>(
                dependencies_model(out@),
            ),
        decreases raws.len() - i,
    {
        proof {
            lemma_fold_next(init, raws@, i as int, step);
        }
        match parse_dependency(raws[i].as_str(), category) {
            Err(e) => {
                proof {
                    lemma_fold_prefix_failure(init, raws@, i + 1, step);
                }
                return Err(e);
            },
            Ok(d) => {
                let ghost before = out@;
                out.push(d);
                assert(dependencies_model(out@) =~= dependencies_model(before).push(d@));
            },
        }
        i += 1;
    }
    assert(raws@.take(raws@.len() as int) =~= raws@);
    Ok(out)
}

/// The text of the script for one hook, or the read failure naming the hook and path.
fn load_script(s: &Option<ScriptSource>, kind: ScriptletKind) -> (r: Result<Option<String>, SpecError>)
    ensures
        match r {
            Ok(t) => script_result(*s, kind) == Ok::<_, ErrorModel>(text_model(t)),
            Err(e) => script_result(*s, kind) == Err::<Option<Seq<char>>, _>(e@),
        },
{
    match s {
        None => Ok(None),
        Some(src) => match &src.content {
            Ok(c) => Ok(Some(c.clone())),
            Err(m) => Err(
                SpecError::ScriptletReadError { kind, path: src.path.clone(), message: m.clone() },
            ),
        },
    }
}

/// Assembles the package specification, stopping at the first failure.
pub fn assemble(input: &AssemblyInput) -> (r: Result<PackageSpec, SpecError>)
    ensures
        match r {
            Ok(p) => assembly_of(*input) == Ok::<_, ErrorModel>(p@),
            Err(e) => assembly_of(*input) == Err::<PackageModel, _>(e@),
        },
        r matches Ok(p) ==> unique_destinations(p@.files),
{
    proof {
        assembled_destinations_unique(*input);
    }
    let mut files: Vec<FileEntry> = Vec::new();
    assert(entries_model(files@) =~= Seq::<FileEntryModel>::empty());
    add_file_args(&mut files, &input.files, FileRole::Plain, ArgCategory::File)?;
    let release = parse_release(input.release.as_str())?;
    let epoch = parse_epoch(input.epoch.as_str())?;
    add_file_args(&mut files, &input.exec_files, FileRole::Executable, ArgCategory::ExecFile)?;
    add_file_args(&mut files, &input.config_files, FileRole::Config, ArgCategory::ConfigFile)?;
    add_dir_args(&mut files, &input.dirs)?;
    add_file_args(&mut files, &input.doc_files, FileRole::Doc, ArgCategory::DocFile)?;
    let pre_install = load_script(&input.pre_install_script, ScriptletKind::PreInstall)?;
    let post_install = load_script(&input.post_install_script, ScriptletKind::PostInstall)?;
    let pre_uninstall = load_script(&input.pre_uninstall_script, ScriptletKind::PreUninstall)?;
    let post_uninstall = load_script(&input.post_uninstall_script, ScriptletKind::PostUninstall)?;
    let changelog = parse_changelog_list(&input.changelog)?;
    let required = parse_dependency_list(&input.required, ArgCategory::Requires)?;
    let obsoletes = parse_dependency_list(&input.obsoletes, ArgCategory::Obsoletes)?;
    let conflicts = parse_dependency_list(&input.conflicts, ArgCategory::Conflicts)?;
    let provides = parse_dependency_list(&input.provides, ArgCategory::Provides)?;
    let signing_key = match &input.signing_key {
        Some(k) => Some(k.clone()),
        None => None,
    };
    Ok(
        PackageSpec {
            name: input.name.clone(),
            version: input.version.clone(),
            release,
            epoch,
            license: input.license.clone(),
            arch: input.arch.clone(),
            description: input.description.clone(),
            compression: input.compression,
            files,
            required,
            provides,
            conflicts,
            obsoletes,
            changelog,
            pre_install,
            post_install,
            pre_uninstall,
            post_uninstall,
            signing_key,
        },
    )
}

proof fn lemma_fold_keeps_unique<A>(
    init: Seq<FileEntryModel>,
    items: Seq<A>,
    step: spec_fn(Seq<FileEntryModel>, A) -> Result<Seq<FileEntryModel>, ErrorModel>,
)
    requires
        unique_destinations(init),
        forall|s: Seq<FileEntryModel>, a: A|
            unique_destinations(s) && (#[trigger] step(s, a)) is Ok ==> unique_destinations(
                step(s, a)->Ok_0,
            ),
    ensures
        fold_steps(init, items, step) is Ok ==> unique_destinations(
            fold_steps(init, items, step)->Ok_0,
        ),
    decreases items.len(),
{
    if items.len() > 0 {
        lemma_fold_keeps_unique(init, items.drop_last(), step);
    }
}

proof fn lemma_file_step_keeps_unique(role: FileRole, category: ArgCategory)
    ensures
        forall|s: Seq<FileEntryModel>, a: String|
            unique_destinations(s) && (#[trigger] file_step(role, category)(s, a)) is Ok
                ==> unique_destinations(file_step(role, category)(s, a)->Ok_0),
{
    assert forall|s: Seq<FileEntryModel>, a: String|
        unique_destinations(s) && (#[trigger] file_step(role, category)(s, a)) is Ok
            implies unique_destinations(file_step(role, category)(s, a)->Ok_0) by {
        if let Ok(pair) = file_spec_result(a@, category) {
            add_entry_keeps_unique(s, entry_model(pair.0, pair.1, role), category);
        }
    }
}

proof fn lemma_entry_step_keeps_unique(category: ArgCategory)
    ensures
        forall|s: Seq<FileEntryModel>, a: FileEntryModel|
            unique_destinations(s) && (#[trigger] entry_step(category)(s, a)) is Ok
                ==> unique_destinations(entry_step(category)(s, a)->Ok_0),
{
    assert forall|s: Seq<FileEntryModel>, a: FileEntryModel|
        unique_destinations(s) && (#[trigger] entry_step(category)(s, a)) is Ok
            implies unique_destinations(entry_step(category)(s, a)->Ok_0) by {
        add_entry_keeps_unique(s, a, category);
    }
}

proof fn lemma_dir_step_keeps_unique()
    ensures
        forall|s: Seq<FileEntryModel>, a: DirSource|
            unique_destinations(s) && (#[trigger] dir_step()(s, a)) is Ok ==> unique_destinations(
                dir_step()(s, a)->Ok_0,
            ),
{
    assert forall|s: Seq<FileEntryModel>, a: DirSource|
        unique_destinations(s) && (#[trigger] dir_step()(s, a)) is Ok implies unique_destinations(
            dir_step()(s, a)->Ok_0,
        ) by {
        if let Ok(pair) = file_spec_result(a.raw@, ArgCategory::Dir) {
            if let Ok(nodes) = a.listing {
                if let Ok(es) = expand_nodes(nodes@, pair.1) {
                    lemma_entry_step_keeps_unique(ArgCategory::Dir);
                    lemma_fold_keeps_unique(s, es, entry_step(ArgCategory::Dir));
                }
            }
        }
    }
}

/// No two files of an assembled package share a destination path.
pub proof fn assembled_destinations_unique(input: AssemblyInput)
    ensures
        assembly_of(input) is Ok ==> unique_destinations(assembly_of(input)->Ok_0.files),
{
    lemma_file_step_keeps_unique(FileRole::Plain, ArgCategory::File);
    lemma_file_step_keeps_unique(FileRole::Executable, ArgCategory::ExecFile);
    lemma_file_step_keeps_unique(FileRole::Config, ArgCategory::ConfigFile);
    lemma_file_step_keeps_unique(FileRole::Doc, ArgCategory::DocFile);
    lemma_dir_step_keeps_unique();
    let empty = Seq::<FileEntryModel>::empty();
    lemma_fold_keeps_unique(empty, input.files@, file_step(FileRole::Plain, ArgCategory::File));
    if let Ok(f1) = fold_steps(empty, input.files@, file_step(FileRole::Plain, ArgCategory::File)) {
        let exec = file_step(FileRole::Executable, ArgCategory::ExecFile);
        lemma_fold_keeps_unique(f1, input.exec_files@, exec);
        if let Ok(f2) = fold_steps(f1, input.exec_files@, exec) {
            let config = file_step(FileRole::Config, ArgCategory::ConfigFile);
            lemma_fold_keeps_unique(f2, input.config_files@, config);
            if let Ok(f3) = fold_steps(f2, input.config_files@, config) {
                lemma_fold_keeps_unique(f3, input.dirs@, dir_step());
                if let Ok(f4) = fold_steps(f3, input.dirs@, dir_step()) {
                    lemma_fold_keeps_unique(
                        f4,
                        input.doc_files@,
                        file_step(FileRole::Doc, ArgCategory::DocFile),
                    );
                }
            }
        }
    }
}

proof fn lemma_changelog_fold(items: Seq<String>)
    ensures
        fold_steps(Seq::empty(), items, changelog_step()) is Ok ==> {
            let cs = fold_steps(Seq::empty(), items, changelog_step())->Ok_0;
            &&& cs.len() == items.len()
            &&& forall|k: int|
                0 <= k < items.len() ==> changelog_result(#[trigger] items[k]@) == Ok::<
                    _,
                    ErrorModel,
                >(cs[k])
        },
    decreases items.len(),
{
    if items.len() > 0 {
        let front = items.drop_last();
        lemma_changelog_fold(front);
        if fold_steps(Seq::empty(), items, changelog_step()) is Ok {
            let cs = fold_steps(Seq::empty(), items, changelog_step())->Ok_0;
            assert forall|k: int| 0 <= k < items.len() implies changelog_result(
                #[trigger] items[k]@,
            ) == Ok::<_, ErrorModel>(cs[k]) by {
                if k < front.len() {
                    assert(items[k] == front[k]);
                }
            }
        }
    }
}

/// The changelog of an assembled package holds one entry per changelog string, in the order
/// the strings were given, each the entry its string denotes.
pub proof fn changelog_keeps_input_order(input: AssemblyInput)
    ensures
        assembly_of(input) is Ok ==> {
            let p = assembly_of(input)->Ok_0;
            &&& p.changelog.len() == input.changelog@.len()
            &&& forall|k: int|
                0 <= k < input.changelog@.len() ==> changelog_result(
                    #[trigger] input.changelog@[k]@,
                ) == Ok::<_, ErrorModel>(p.changelog[k])
        },
{
    lemma_changelog_fold(input.changelog@);
}

} // verus!
