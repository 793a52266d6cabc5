use rpm_builder::assemble::{assemble, AssemblyInput, DirSource, ScriptSource};
use rpm_builder::error::{AppError, ArgCategory, ScriptletKind, SpecError};
use rpm_builder::package::{parse_compression, CompressionMode, FileRole, EXECUTABLE_MODE};
use rpm_builder::relation::{Comparator, VersionConstraint};
use rpm_builder::tree::{expand_directory, join_path_exec, names_a_file, DirNode};

fn s(x: &str) -> String {
    x.to_string()
}

fn strings(xs: &[&str]) -> Vec<String> {
    xs.iter().map(|x| x.to_string()).collect()
}

fn sample_tree() -> Vec<DirNode> {
    vec![DirNode::Dir {
        name: s("a"),
        path: s("/work/assets/a"),
        children: vec![
            DirNode::File { name: s("b.txt"), path: s("/work/assets/a/b.txt") },
            DirNode::Symlink { name: s("c.txt"), target: s("/elsewhere/d.txt") },
        ],
    }]
}

fn base_input(name: &str) -> AssemblyInput {
    AssemblyInput {
        name: s(name),
        version: s("1.0.0"),
        license: s("MIT"),
        arch: s("x86_64"),
        description: s(""),
        release: s("1"),
        epoch: s("0"),
        compression: CompressionMode::Uncompressed,
        files: vec![],
        exec_files: vec![],
        config_files: vec![],
        dirs: vec![],
        doc_files: vec![],
        pre_install_script: None,
        post_install_script: None,
        pre_uninstall_script: None,
        post_uninstall_script: None,
        changelog: vec![],
        required: vec![],
        obsoletes: vec![],
        conflicts: vec![],
        provides: vec![],
        signing_key: None,
    }
}

#[test]
fn directory_expansion_mirrors_tree_and_resolves_links() {
    let entries = expand_directory(&sample_tree(), "/src").unwrap();
    let got: Vec<(String, String, FileRole)> =
        entries.into_iter().map(|e| (e.source, e.destination, e.role)).collect();
    assert_eq!(
        got,
        vec![
            (s("/work/assets/a/b.txt"), s("/src/a/b.txt"), FileRole::Plain),
            (s("/elsewhere/d.txt"), s("/src/a/c.txt"), FileRole::Plain),
        ]
    );
}

#[test]
fn directory_expansion_depth_first_in_listing_order() {
    let nodes = vec![
        DirNode::File { name: s("z"), path: s("/t/z") },
        DirNode::Dir {
            name: s("d"),
            path: s("/t/d"),
            children: vec![DirNode::Dir {
                name: s("e"),
                path: s("/t/d/e"),
                children: vec![DirNode::File { name: s("f"), path: s("/t/d/e/f") }],
            }],
        },
        DirNode::File { name: s("a"), path: s("/t/a") },
    ];
    let dests: Vec<String> =
        expand_directory(&nodes, "/p/").unwrap().into_iter().map(|e| e.destination).collect();
    assert_eq!(dests, strings(&["/p/z", "/p/d/e/f", "/p/a"]));
}

#[test]
fn directory_expansion_rejects_link_without_file_name() {
    let nodes = vec![DirNode::Symlink { name: s("root"), target: s("/") }];
    match expand_directory(&nodes, "/src") {
        Err(SpecError::MissingFileName { path }) => assert_eq!(path, "/"),
        other => panic!("unexpected {:?}", other),
    }
}

#[test]
fn path_helpers() {
    assert_eq!(join_path_exec("/src", "a"), "/src/a");
    assert_eq!(join_path_exec("/src/", "a"), "/src/a");
    assert_eq!(join_path_exec("", "a"), "a");
    assert!(names_a_file("/elsewhere/d.txt"));
    assert!(names_a_file("dir/sub/"));
    assert!(!names_a_file("/"));
    assert!(!names_a_file(""));
    assert!(!names_a_file("../.."));
    assert!(!names_a_file("a/."));
}

#[test]
fn duplicate_destination_is_rejected() {
    let mut input = base_input("dup");
    input.files = strings(&["a.txt:/usr/bin/x", "b.txt:/usr/bin/x"]);
    match assemble(&input) {
        Err(SpecError::DuplicateDestination { category, path }) => {
            assert_eq!(category, ArgCategory::File);
            assert_eq!(path, "/usr/bin/x");
        }
        other => panic!("unexpected {:?}", other),
    }
}

#[test]
fn duplicate_across_categories_names_later_category() {
    let mut input = base_input("dup");
    input.files = strings(&["a.txt:/etc/x"]);
    input.dirs = vec![DirSource { raw: s("/work/assets:/etc"), listing: Ok(vec![DirNode::File { name: s("x"), path: s("/work/assets/x") }]) }];
    match assemble(&input) {
        Err(SpecError::DuplicateDestination { category, path }) => {
            assert_eq!(category, ArgCategory::Dir);
            assert_eq!(path, "/etc/x");
        }
        other => panic!("unexpected {:?}", other),
    }
}

#[test]
fn end_to_end_spec() {
    let mut input = base_input("demo");
    input.compression = parse_compression("gzip").unwrap();
    input.exec_files = strings(&["target/app:/usr/bin/app"]);
    input.required = strings(&["libfoo >= 1.2"]);
    let spec = assemble(&input).unwrap();
    assert_eq!(spec.name, "demo");
    assert_eq!(spec.compression, CompressionMode::Gzip);
    assert_eq!(spec.files.len(), 1);
    assert_eq!(spec.files[0].source, "target/app");
    assert_eq!(spec.files[0].destination, "/usr/bin/app");
    assert_eq!(spec.files[0].role, FileRole::Executable);
    assert_eq!(spec.files[0].mode, Some(EXECUTABLE_MODE));
    assert_eq!(EXECUTABLE_MODE, 0o100755);
    assert_eq!(spec.required.len(), 1);
    assert_eq!(spec.required[0].name, "libfoo");
    match &spec.required[0].constraint {
        VersionConstraint::Constrained { comparator, version } => {
            assert_eq!(*comparator, Comparator::GreaterEq);
            assert_eq!(version, "1.2");
        }
        other => panic!("unexpected {:?}", other),
    }
}

#[test]
fn full_assembly_keeps_every_part() {
    let mut input = base_input("full");
    input.release = s("7");
    input.epoch = s("-2");
    input.files = strings(&["r:/usr/share/r"]);
    input.config_files = strings(&["c:/etc/c.conf"]);
    input.doc_files = strings(&["d:/usr/share/doc/d"]);
    input.dirs = vec![DirSource { raw: s("/work/assets:/src"), listing: Ok(sample_tree()) }];
    input.pre_install_script = Some(ScriptSource { path: s("pre.sh"), content: Ok(s("echo pre")) });
    input.post_uninstall_script = Some(ScriptSource { path: s("post.sh"), content: Ok(s("echo post")) });
    input.changelog = strings(&["b:second:2024-01-16", "a:first:2024-01-15"]);
    input.obsoletes = strings(&["old-pkg < 2"]);
    input.conflicts = strings(&["other"]);
    input.provides = strings(&["virtual = 1"]);
    input.signing_key = Some(s("key.asc"));
    let spec = assemble(&input).unwrap();
    assert_eq!(spec.release, 7);
    assert_eq!(spec.epoch, -2);
    let files: Vec<(String, FileRole)> =
        spec.files.iter().map(|f| (f.destination.clone(), f.role)).collect();
    assert_eq!(
        files,
        vec![
            (s("/usr/share/r"), FileRole::Plain),
            (s("/etc/c.conf"), FileRole::Config),
            (s("/src/a/b.txt"), FileRole::Plain),
            (s("/src/a/c.txt"), FileRole::Plain),
            (s("/usr/share/doc/d"), FileRole::Doc),
        ]
    );
    assert_eq!(spec.pre_install, Some(s("echo pre")));
    assert_eq!(spec.post_install, None);
    assert_eq!(spec.pre_uninstall, None);
    assert_eq!(spec.post_uninstall, Some(s("echo post")));
    let authors: Vec<&str> = spec.changelog.iter().map(|c| c.author.as_str()).collect();
    assert_eq!(authors, vec!["b", "a"]);
    assert_eq!(spec.changelog[1].timestamp, 1705276800);
    assert_eq!(spec.obsoletes[0].name, "old-pkg");
    assert!(matches!(spec.conflicts[0].constraint, VersionConstraint::Unconstrained));
    assert_eq!(spec.provides[0].name, "virtual");
    assert_eq!(spec.signing_key, Some(s("key.asc")));
}

#[test]
fn first_error_follows_processing_order() {
    let mut input = base_input("order");
    input.files = strings(&["bad"]);
    input.changelog = strings(&["bad"]);
    input.release = s("x");
    assert!(matches!(assemble(&input), Err(SpecError::MalformedFileSpec { category: ArgCategory::File, .. })));
    input.files = vec![];
    assert!(matches!(assemble(&input), Err(SpecError::InvalidRelease { .. })));
    input.release = s("1");
    assert!(matches!(assemble(&input), Err(SpecError::MalformedChangelogEntry { .. })));
    input.changelog = vec![];
    input.provides = strings(&["ok", "not ok"]);
    match assemble(&input) {
        Err(SpecError::MalformedRelationship { category, raw }) => {
            assert_eq!(category, ArgCategory::Provides);
            assert_eq!(raw, "not ok");
        }
        other => panic!("unexpected {:?}", other),
    }
}

#[test]
fn read_failures_are_reported_with_context() {
    let mut input = base_input("io");
    input.post_install_script = Some(ScriptSource { path: s("missing.sh"), content: Err(s("not found")) });
    match assemble(&input) {
        Err(SpecError::ScriptletReadError { kind, path, message }) => {
            assert_eq!(kind, ScriptletKind::PostInstall);
            assert_eq!(path, "missing.sh");
            assert_eq!(message, "not found");
        }
        other => panic!("unexpected {:?}", other),
    }
    let mut input = base_input("io");
    input.dirs = vec![DirSource { raw: s("/nowhere:/dst"), listing: Err(s("denied")) }];
    match assemble(&input) {
        Err(SpecError::FilesystemAccessError { category, path, message }) => {
            assert_eq!(category, ArgCategory::Dir);
            assert_eq!(path, "/nowhere");
            assert_eq!(message, "denied");
        }
        other => panic!("unexpected {:?}", other),
    }
    let mut input = base_input("io");
    input.dirs = vec![DirSource { raw: s("no-colon"), listing: Err(s("unread")) }];
    assert!(matches!(assemble(&input), Err(SpecError::MalformedFileSpec { category: ArgCategory::Dir, .. })));
}

#[test]
fn compression_names() {
    assert_eq!(parse_compression("none").unwrap(), CompressionMode::Uncompressed);
    assert_eq!(parse_compression("gzip").unwrap(), CompressionMode::Gzip);
    assert_eq!(parse_compression("zstd").unwrap(), CompressionMode::Zstd);
    match parse_compression("bzip2") {
        Err(SpecError::UnrecognizedCompressionMode { raw }) => assert_eq!(raw, "bzip2"),
        other => panic!("unexpected {:?}", other),
    }
    assert!(parse_compression("GZIP").is_err());
    assert_eq!(CompressionMode::Zstd.name(), "zstd");
    assert_eq!(CompressionMode::Uncompressed.name(), "none");
}

#[test]
fn error_descriptions() {
    let e = SpecError::DuplicateDestination { category: ArgCategory::File, path: s("/usr/bin/x") };
    assert_eq!(e.describe(), "duplicate destination /usr/bin/x in file arguments");
    let e = SpecError::ScriptletReadError { kind: ScriptletKind::PreInstall, path: s("p.sh"), message: s("gone") };
    assert_eq!(e.describe(), "error reading pre-install-script p.sh: gone");
    let e = SpecError::MalformedFileSpec { category: ArgCategory::Dir, raw: s("x") };
    assert_eq!(e.describe(), "invalid dir argument: x; it needs to be of the form <source-path>:<dest-path>");
    let e = SpecError::SigningCredentialError { path: s("k.asc"), message: s("bad armor") };
    assert_eq!(e.describe(), "unable to load signing key k.asc: bad armor");
    let e = SpecError::MalformedRelationship { category: ArgCategory::Conflicts, raw: s("a b") };
    assert_eq!(e.describe(), "invalid pattern in conflicts entry: a b");
    let e = SpecError::InvalidEpoch { raw: s("x") };
    assert_eq!(e.describe(), "invalid epoch: x; expected a 32-bit signed integer");
    assert_eq!(AppError::new(s("boom")).cause, "boom");
}
