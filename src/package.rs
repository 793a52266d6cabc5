//! The assembled build request and its file manifest.

use vstd::prelude::*;
use crate::changelog::ChangelogEntry;
use crate::error::{ArgCategory, ErrorModel, SpecError};
use crate::relation::DependencySpec;

verus! {

/// Permission bits and file type given to executable files: a regular file, mode 0755.
pub const EXECUTABLE_MODE: u32 = 0o100755;

/// How a file is classified inside the package.
#[derive(Clone, Copy, Debug, PartialEq, Eq, Structural)]
pub enum FileRole {
    Plain,
    Executable,
    Config,
    Doc,
}

/// One file to be placed in the package.
#[derive(Debug)]
pub struct FileEntry {
    pub source: String,
    pub destination: String,
    pub role: FileRole,
    /// An explicit mode; `None` keeps the mode the packaging engine derives.
    pub mode: Option<u32>,
}

pub struct FileEntryModel {
    pub source: Seq<char>,
    pub destination: Seq<char>,
    pub role: FileRole,
    pub mode: Option<u32>,
}

impl View for FileEntry {
    type V = FileEntryModel;

    open spec fn view(&self) -> FileEntryModel {
        FileEntryModel {
            source: self.source@,
            destination: self.destination@,
            role: self.role,
            mode: self.mode,
        }
    }
}

/// The mode a role implies when nothing overrides it.
pub open spec fn default_mode(role: FileRole) -> Option<u32> {
    if role == FileRole::Executable {
        Some(EXECUTABLE_MODE)
    } else {
        None
    }
}

/// The entry for a file of the given role.
pub open spec fn entry_model(source: Seq<char>, destination: Seq<char>, role: FileRole) -> FileEntryModel {
    FileEntryModel { source, destination, role, mode: default_mode(role) }
}

/// Makes the entry for a file of the given role, with that role's default mode.
pub fn file_entry(source: String, destination: String, role: FileRole) -> (r: FileEntry)
    ensures
        r@ == entry_model(source@, destination@, role),
{
    let mode = if role == FileRole::Executable {
        Some(EXECUTABLE_MODE)
    } else {
        None
    };
    FileEntry { source, destination, role, mode }
}

pub open spec fn entries_model(v: Seq<FileEntry>) -> Seq<FileEntryModel> {
    v.map_values(|f: FileEntry| f@)
}

pub open spec fn has_destination(fs: Seq<FileEntryModel>, d: Seq<char>) -> bool {
    exists|i: int| 0 <= i < fs.len() && #[trigger] fs[i].destination == d
}

/// No two entries share a destination.
pub open spec fn unique_destinations(fs: Seq<FileEntryModel>) -> bool {
    forall|i: int, j: int|
        0 <= i < j < fs.len() ==> #[trigger] fs[i].destination != #[trigger] fs[j].destination
}

/// The manifest after adding `e`, or the duplicate it would create.
pub open spec fn add_entry(fs: Seq<FileEntryModel>, e: FileEntryModel, category: ArgCategory) -> Result<
    Seq<FileEntryModel>,
    ErrorModel,
> {
    if has_destination(fs, e.destination) {
        Err(ErrorModel::DuplicateDestination { category, path: e.destination })
    } else {
        Ok(fs.push(e))
    }
}

/// Adding an entry keeps destinations unique.
pub proof fn add_entry_keeps_unique(fs: Seq<FileEntryModel>, e: FileEntryModel, category: ArgCategory)
    requires
        unique_destinations(fs),
    ensures
        add_entry(fs, e, category) matches Ok(g) ==> unique_destinations(g),
{
    if !has_destination(fs, e.destination) {
        let g = fs.push(e);
        assert forall|i: int, j: int| 0 <= i < j < g.len() implies #[trigger] g[i].destination
            != #[trigger] g[j].destination by {
            if j == fs.len() {
                assert(fs[i].destination != e.destination);
            }
        }
    }
}

/// Appends `entry` unless its destination is already taken.
pub fn add_file(files: &mut Vec<FileEntry>, entry: FileEntry, category: ArgCategory) -> (r: Result<
    (),
    SpecError,
>)
    ensures
        match r {
            Ok(()) => add_entry(entries_model(old(files)@), entry@, category) == Ok::<_, ErrorModel>(
                entries_model(final(files)@),
            ),
            Err(e) => add_entry(entries_model(old(files)@), entry@, category) == Err::<
                Seq<FileEntryModel>,
                _,
            >(e@) && final(files)@ == old(files)@,
        },
{
    let ghost fs = entries_model(files@);
    let mut i: usize = 0;
    while i < files.len()
        invariant
            i <= files@.len(),
            fs == entries_model(files@),
            forall|j: int| 0 <= j < i ==> fs[j].destination != entry.destination@,
        decreases files.len() - i,
    {
        if files[i].destination == entry.destination {
            assert(fs[i as int].destination == entry.destination@);
            return Err(SpecError::DuplicateDestination { category, path: entry.destination });
        }
        i += 1;
    }
    assert(!has_destination(fs, entry.destination@));
    files.push(entry);
    assert(entries_model(files@) =~= fs.push(entry@));
    Ok(())
}

/// The packaging engine's compression of the payload.
#[derive(Clone, Copy, Debug, PartialEq, Eq, Structural)]
pub enum CompressionMode {
    Uncompressed,
    Gzip,
    Zstd,
}

/// The name by which a compression mode is selected.
pub open spec fn compression_name(m: CompressionMode) -> Seq<char> {
    match m {
        CompressionMode::Uncompressed => "none"@,
        CompressionMode::Gzip => "gzip"@,
        CompressionMode::Zstd => "zstd"@,
    }
}

impl CompressionMode {
    /// The name that selects this mode.
    pub fn name(&self) -> (r: &'static str)
        ensures
            r@ == compression_name(*self),
    {
        match self {
            CompressionMode::Uncompressed => "none",
            CompressionMode::Gzip => "gzip",
            CompressionMode::Zstd => "zstd",
        }
    }
}

pub open spec fn is_compression_name(s: Seq<char>) -> bool {
    s == "none"@ || s == "gzip"@ || s == "zstd"@
}

#[verifier::external_type_specification]
#[verifier::external_body]
pub struct ExRpmError(rpm::RPMError);

/// Relies on rpm's `FromStr` for `Compressor`: "none", "gzip" and "zstd" select the mode of that
/// name and any other text is an error; "none" cannot fail, while starting the gzip or zstd
/// encoder may.
#[verifier::external_body]
fn compressor_from_name(name: &str) -> (r: Result<CompressionMode, rpm::RPMError>)
    ensures
        match r {
            Ok(m) => name@ == compression_name(m),
            Err(_) => name@ != "none"@,
        },
        !is_compression_name(name@) ==> r is Err,
{
    match <rpm::Compressor as std::str::FromStr>::from_str(name) {
        Ok(rpm::Compressor::None(_)) => Ok(CompressionMode::Uncompressed),
        Ok(rpm::Compressor::Gzip(_)) => Ok(CompressionMode::Gzip),
        Ok(rpm::Compressor::Zstd(_)) => Ok(CompressionMode::Zstd),
        Err(e) => Err(e),
    }
}

/// Selects the compression mode named by `raw`.
pub fn parse_compression(raw: &str) -> (r: Result<CompressionMode, SpecError>)
    ensures
        match r {
            Ok(m) => raw@ == compression_name(m),
            Err(e) => e@ == (ErrorModel::UnrecognizedCompressionMode { raw: raw@ }) && raw@
                != "none"@,
        },
        !is_compression_name(raw@) ==> r is Err,
{
    match compressor_from_name(raw) {
        Ok(m) => Ok(m),
        Err(_) => Err(SpecError::UnrecognizedCompressionMode { raw: raw.to_owned() }),
    }
}

/// The complete, validated build request handed to the packaging engine.
#[derive(Debug)]
pub struct PackageSpec {
    pub name: String,
    pub version: String,
    pub release: u16,
    pub epoch: i32,
    pub license: String,
    pub arch: String,
    pub description: String,
    pub compression: CompressionMode,
    pub files: Vec<FileEntry>,
    pub required: Vec<DependencySpec>,
    pub provides: Vec<DependencySpec>,
    pub conflicts: Vec<DependencySpec>,
    pub obsoletes: Vec<DependencySpec>,
    pub changelog: Vec<ChangelogEntry>,
    pub pre_install: Option<String>,
    pub post_install: Option<String>,
    pub pre_uninstall: Option<String>,
    pub post_uninstall: Option<String>,
    /// Path of the signing key, read and loaded by the packaging side.
    pub signing_key: Option<String>,
}

} // verus!
