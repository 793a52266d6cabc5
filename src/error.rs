//! The errors of assembly, each naming the offending input and where it came from.

use vstd::prelude::*;

verus! {

/// The argument list a raw value came from.
#[derive(Clone, Copy, Debug, PartialEq, Eq, Structural)]
pub enum ArgCategory {
    File,
    ExecFile,
    ConfigFile,
    DocFile,
    Dir,
    Changelog,
    Requires,
    Obsoletes,
    Conflicts,
    Provides,
}

/// The four lifecycle hooks a script can be attached to.
#[derive(Clone, Copy, Debug, PartialEq, Eq, Structural)]
pub enum ScriptletKind {
    PreInstall,
    PostInstall,
    PreUninstall,
    PostUninstall,
}

/// Why a package specification could not be assembled.
#[derive(Debug)]
pub enum SpecError {
    MalformedFileSpec { category: ArgCategory, raw: String },
    MalformedRelationship { category: ArgCategory, raw: String },
    MalformedChangelogEntry { raw: String },
    InvalidChangelogDate { raw: String },
    DuplicateDestination { category: ArgCategory, path: String },
    MissingFileName { path: String },
    ScriptletReadError { kind: ScriptletKind, path: String, message: String },
    UnrecognizedCompressionMode { raw: String },
    SigningCredentialError { path: String, message: String },
    FilesystemAccessError { category: ArgCategory, path: String, message: String },
    InvalidRelease { raw: String },
    InvalidEpoch { raw: String },
}

/// [`SpecError`] with its strings seen as character sequences.
pub enum ErrorModel {
    MalformedFileSpec { category: ArgCategory, raw: Seq<char> },
    MalformedRelationship { category: ArgCategory, raw: Seq<char> },
    MalformedChangelogEntry { raw: Seq<char> },
    InvalidChangelogDate { raw: Seq<char> },
    DuplicateDestination { category: ArgCategory, path: Seq<char> },
    MissingFileName { path: Seq<char> },
    ScriptletReadError { kind: ScriptletKind, path: Seq<char>, message: Seq<char> },
    UnrecognizedCompressionMode { raw: Seq<char> },
    SigningCredentialError { path: Seq<char>, message: Seq<char> },
    FilesystemAccessError { category: ArgCategory, path: Seq<char>, message: Seq<char> },
    InvalidRelease { raw: Seq<char> },
    InvalidEpoch { raw: Seq<char> },
}

impl View for SpecError {
    type V = ErrorModel;

    open spec fn view(&self) -> ErrorModel {
        match self {
            SpecError::MalformedFileSpec { category, raw } => ErrorModel::MalformedFileSpec {
                category: *category,
                raw: raw@,
            },
            SpecError::MalformedRelationship { category, raw } =>
                ErrorModel::MalformedRelationship { category: *category, raw: raw@ },
            SpecError::MalformedChangelogEntry { raw } => ErrorModel::MalformedChangelogEntry {
                raw: raw@,
            },
            SpecError::InvalidChangelogDate { raw } => ErrorModel::InvalidChangelogDate {
                raw: raw@,
            },
            SpecError::DuplicateDestination { category, path } => ErrorModel::DuplicateDestination {
                category: *category,
                path: path@,
            },
            SpecError::MissingFileName { path } => ErrorModel::MissingFileName { path: path@ },
            SpecError::ScriptletReadError { kind, path, message } =>
                ErrorModel::ScriptletReadError { kind: *kind, path: path@, message: message@ },
            SpecError::UnrecognizedCompressionMode { raw } =>
                ErrorModel::UnrecognizedCompressionMode { raw: raw@ },
            SpecError::SigningCredentialError { path, message } =>
                ErrorModel::SigningCredentialError { path: path@, message: message@ },
            SpecError::FilesystemAccessError { category, path, message } =>
                ErrorModel::FilesystemAccessError {
                    category: *category,
                    path: path@,
                    message: message@,
                },
            SpecError::InvalidRelease { raw } => ErrorModel::InvalidRelease { raw: raw@ },
            SpecError::InvalidEpoch { raw } => ErrorModel::InvalidEpoch { raw: raw@ },
        }
    }
}

/// A failure reported to the user as a single line of text.
pub struct AppError {
    pub cause: String,
}

impl AppError {
    /// An error carrying exactly the given text.
    pub fn new(cause: String) -> (r: AppError)
        ensures
            r.cause@ == cause@,
    {
        AppError { cause }
    }
}

impl ArgCategory {
    /// The name of the argument the category stands for.
    pub open spec fn label_spec(self) -> Seq<char> {
        match self {
            ArgCategory::File => "file"@,
            ArgCategory::ExecFile => "exec-file"@,
            ArgCategory::ConfigFile => "config-file"@,
            ArgCategory::DocFile => "doc-file"@,
            ArgCategory::Dir => "dir"@,
            ArgCategory::Changelog => "changelog"@,
            ArgCategory::Requires => "requires"@,
            ArgCategory::Obsoletes => "obsoletes"@,
            ArgCategory::Conflicts => "conflicts"@,
            ArgCategory::Provides => "provides"@,
        }
    }

    pub fn label(&self) -> (r: &'static str)
        ensures
            r@ == self.label_spec(),
    {
        match self {
            ArgCategory::File => "file",
            ArgCategory::ExecFile => "exec-file",
            ArgCategory::ConfigFile => "config-file",
            ArgCategory::DocFile => "doc-file",
            ArgCategory::Dir => "dir",
            ArgCategory::Changelog => "changelog",
            ArgCategory::Requires => "requires",
            ArgCategory::Obsoletes => "obsoletes",
            ArgCategory::Conflicts => "conflicts",
            ArgCategory::Provides => "provides",
        }
    }
}

impl ScriptletKind {
    /// The name of the argument that supplies the hook's script.
    pub open spec fn label_spec(self) -> Seq<char> {
        match self {
            ScriptletKind::PreInstall => "pre-install-script"@,
            ScriptletKind::PostInstall => "post-install-script"@,
            ScriptletKind::PreUninstall => "pre-uninstall-script"@,
            ScriptletKind::PostUninstall => "post-uninstall-script"@,
        }
    }

    pub fn label(&self) -> (r: &'static str)
        ensures
            r@ == self.label_spec(),
    {
        match self {
            ScriptletKind::PreInstall => "pre-install-script",
            ScriptletKind::PostInstall => "post-install-script",
            ScriptletKind::PreUninstall => "pre-uninstall-script",
            ScriptletKind::PostUninstall => "post-uninstall-script",
        }
    }
}

/// The one-line text reported for an error.
pub open spec fn message_of(e: ErrorModel) -> Seq<char> {
    match e {
        ErrorModel::MalformedFileSpec { category, raw } => "invalid "@ + category.label_spec()
            + " argument: "@ + raw + "; it needs to be of the form <source-path>:<dest-path>"@,
        ErrorModel::MalformedRelationship { category, raw } => "invalid pattern in "@
            + category.label_spec() + " entry: "@ + raw,
        ErrorModel::MalformedChangelogEntry { raw } => "invalid changelog entry: "@ + raw
            + "; it needs to be of the form <author>:<content>:<yyyy-mm-dd>"@,
        ErrorModel::InvalidChangelogDate { raw } => "invalid date in changelog entry: "@ + raw
            + "; expected yyyy-mm-dd"@,
        ErrorModel::DuplicateDestination { category, path } => "duplicate destination "@ + path
            + " in "@ + category.label_spec() + " arguments"@,
        ErrorModel::MissingFileName { path } => "path does not have a file name: "@ + path,
        ErrorModel::ScriptletReadError { kind, path, message } => "error reading "@
            + kind.label_spec() + " "@ + path + ": "@ + message,
        ErrorModel::UnrecognizedCompressionMode { raw } => "unknown compression mode: "@ + raw
            + "; expected none, gzip or zstd"@,
        ErrorModel::SigningCredentialError { path, message } => "unable to load signing key "@
            + path + ": "@ + message,
        ErrorModel::FilesystemAccessError { category, path, message } => "error reading "@
            + category.label_spec() + " "@ + path + ": "@ + message,
        ErrorModel::InvalidRelease { raw } => "invalid release: "@ + raw
            + "; expected a number from 0 to 65535"@,
        ErrorModel::InvalidEpoch { raw } => "invalid epoch: "@ + raw
            + "; expected a 32-bit signed integer"@,
    }
}

fn joined(parts: &[&str]) -> (r: String)
    ensures
        r@ == parts@.fold_left(Seq::<char>::empty(), |acc: Seq<char>, p: &str| acc + p@),
{
    let mut out = String::new();
    let mut i: usize = 0;
    while i < parts.len()
        invariant
            i <= parts@.len(),
            out@ == parts@.take(i as int).fold_left(
                Seq::<char>::empty(),
                |acc: Seq<char>, p: &str| acc + p@,
            ),
        decreases parts.len() - i,
    {
        assert(parts@.take(i + 1).drop_last() =~= parts@.take(i as int));
        out.append(parts[i]);
        i += 1;
    }
    assert(parts@.take(parts@.len() as int) =~= parts@);
    out
}

impl SpecError {
    /// The one-line text reported for this error.
    pub fn describe(&self) -> (r: String)
        ensures
            r@ == message_of(self@),
    {
        let parts: Vec<&str> = match self {
            SpecError::MalformedFileSpec { category, raw } => vec![
                "invalid ",
                category.label(),
                " argument: ",
                raw.as_str(),
                "; it needs to be of the form <source-path>:<dest-path>",
            ],
            SpecError::MalformedRelationship { category, raw } => vec![
                "invalid pattern in ",
                category.label(),
                " entry: ",
                raw.as_str(),
            ],
            SpecError::MalformedChangelogEntry { raw } => vec![
                "invalid changelog entry: ",
                raw.as_str(),
                "; it needs to be of the form <author>:<content>:<yyyy-mm-dd>",
            ],
            SpecError::InvalidChangelogDate { raw } => vec![
                "invalid date in changelog entry: ",
                raw.as_str(),
                "; expected yyyy-mm-dd",
            ],
            SpecError::DuplicateDestination { category, path } => vec![
                "duplicate destination ",
                path.as_str(),
                " in ",
                category.label(),
                " arguments",
            ],
            SpecError::MissingFileName { path } => vec![
                "path does not have a file name: ",
                path.as_str(),
            ],
            SpecError::ScriptletReadError { kind, path, message } => vec![
                "error reading ",
                kind.label(),
                " ",
                path.as_str(),
                ": ",
                message.as_str(),
            ],
            SpecError::UnrecognizedCompressionMode { raw } => vec![
                "unknown compression mode: ",
                raw.as_str(),
                "; expected none, gzip or zstd",
            ],
            SpecError::SigningCredentialError { path, message } => vec![
                "unable to load signing key ",
                path.as_str(),
                ": ",
                message.as_str(),
            ],
            SpecError::FilesystemAccessError { category, path, message } => vec![
                "error reading ",
                category.label(),
                " ",
                path.as_str(),
                ": ",
                message.as_str(),
            ],
            SpecError::InvalidRelease { raw } => vec![
                "invalid release: ",
                raw.as_str(),
                "; expected a number from 0 to 65535",
            ],
            SpecError::InvalidEpoch { raw } => vec![
                "invalid epoch: ",
                raw.as_str(),
                "; expected a 32-bit signed integer",
            ],
        };
        let r = joined(parts.as_slice());
        proof {
            reveal_with_fuel(Seq::fold_left, 7);
        }
        r
    }
}

} // verus!
