use std::collections::HashMap;

use rho::project::{ProjectError, MAX_PROJECT_FILES};
use rho::project_scan::{
    lex_le_exec, list_project_files, sort_entries, DirectoryReader, EntryKind, ListedTree,
    ProjectScan, ScanEntry,
};

struct FakeTree {
    dirs: HashMap<String, Vec<ScanEntry>>,
    reads: Vec<(String, usize)>,
}

fn file(dir: &str, name: &str, size: u64) -> ScanEntry {
    ScanEntry {
        name: name.to_string(),
        path: format!("{dir}/{name}"),
        kind: EntryKind::File,
        size_bytes: size,
        canonical: format!("{dir}/{name}"),
    }
}

fn dir(parent: &str, name: &str) -> ScanEntry {
    ScanEntry {
        name: name.to_string(),
        path: format!("{parent}/{name}"),
        kind: EntryKind::Directory,
        size_bytes: 0,
        canonical: format!("{parent}/{name}"),
    }
}

impl DirectoryReader for FakeTree {
    fn read_entries(&mut self, directory: &str, limit: usize) -> Result<Vec<ScanEntry>, String> {
        self.reads.push((directory.to_string(), limit));
        match self.dirs.get(directory) {
            Some(entries) => Ok(entries.iter().take(limit).cloned().collect()),
            None => Err(format!("cannot read {directory}")),
        }
    }
}

#[test]
fn project_files_preserve_r_package_content_for_the_frontend_tree() {
    let mut dirs = HashMap::new();
    dirs.insert(
        "/p".to_string(),
        vec![
            file("/p", "DESCRIPTION", 10),
            dir("/p", "R"),
            dir("/p", ".git"),
            file("/p", "image.png", 5),
            file("/p", "NAMESPACE", 3),
            ScanEntry {
                name: "link.R".to_string(),
                path: "/p/link.R".to_string(),
                kind: EntryKind::Symlink,
                size_bytes: 0,
                canonical: "/elsewhere/link.R".to_string(),
            },
        ],
    );
    dirs.insert("/p/R".to_string(), vec![file("/p/R", "b.R", 2), file("/p/R", "a.R", 1)]);
    let mut reader = FakeTree { dirs, reads: Vec::new() };
    let state = list_project_files("/p", &mut reader).unwrap();
    assert!(!state.truncated);
    assert_eq!(state.root, "/p");
    let paths: Vec<&str> = state.files.iter().map(|f| f.path.as_str()).collect();
    assert_eq!(paths, vec!["DESCRIPTION", "NAMESPACE", "R/a.R", "R/b.R"]);
    assert!(state.files.iter().all(|f| f.kind == "source"));
    assert_eq!(state.files[2].size_bytes, 1);
    // `.git` is never read.
    assert!(reader.reads.iter().all(|(d, _)| d != "/p/.git"));
    assert_eq!(reader.reads[0], ("/p".to_string(), 10_001));
}

#[test]
fn unreadable_directories_fail_the_listing() {
    let mut reader = FakeTree { dirs: HashMap::new(), reads: Vec::new() };
    assert_eq!(
        list_project_files("/missing", &mut reader).unwrap_err(),
        ProjectError::ReadFailed("cannot read /missing".to_string())
    );
}

#[test]
fn listing_is_truncated_at_the_file_limit() {
    let entries: Vec<ScanEntry> = (0..MAX_PROJECT_FILES + 5)
        .map(|i| file("/p", &format!("f{i:05}.R"), 1))
        .collect();
    let mut dirs = HashMap::new();
    dirs.insert("/p".to_string(), entries);
    let mut reader = FakeTree { dirs, reads: Vec::new() };
    let state = list_project_files("/p", &mut reader).unwrap();
    assert!(state.truncated);
    assert_eq!(state.files.len(), MAX_PROJECT_FILES);
}

#[test]
fn listing_is_truncated_below_the_depth_limit() {
    let mut dirs = HashMap::new();
    let mut path = "/p".to_string();
    for level in 0..10 {
        let next = format!("{path}/d{level}");
        dirs.insert(path.clone(), vec![dir(&path, &format!("d{level}")), file(&path, "x.R", 1)]);
        path = next;
    }
    let mut reader = FakeTree { dirs, reads: Vec::new() };
    let state = list_project_files("/p", &mut reader).unwrap();
    assert!(state.truncated);
    // Depths 0 to 8 are read.
    assert_eq!(state.files.len(), 9);
}

#[test]
fn entries_beyond_the_budget_truncate_the_directory() {
    let mut scan = ProjectScan::new("/p");
    let budget = scan.read_budget(0).unwrap();
    assert_eq!(budget, 10_001);
    let entries: Vec<ScanEntry> = (0..budget).map(|i| file("/p", &format!("n{i}.txt"), 1)).collect();
    let result = scan.scan_directory(entries).unwrap();
    assert!(result.truncated);
    assert_eq!(scan.read_budget(1), None);
}

#[test]
fn escaping_files_fail_and_names_sort_case_insensitively() {
    let mut scan = ProjectScan::new("/p");
    assert_eq!(
        scan.scan_directory(vec![file("/elsewhere", "a.R", 1)]).unwrap_err(),
        ProjectError::NotUnderRoot
    );
    let sorted = sort_entries(vec![file("/p", "b.R", 1), file("/p", "A.R", 1), file("/p", "a0.R", 1)]);
    let names: Vec<&str> = sorted.iter().map(|e| e.name.as_str()).collect();
    assert_eq!(names, vec!["A.R", "a0.R", "b.R"]);
    assert!(lex_le_exec(&"ab".chars().collect(), &"abc".chars().collect()));
    assert!(!lex_le_exec(&"b".chars().collect(), &"abc".chars().collect()));
}

#[test]
fn listing_over_a_fixed_tree_reads_each_directory_it_reaches() {
    let tree = vec![
        (
            "/p".to_string(),
            Ok(vec![file("/p", "main.R", 4), dir("/p", "R"), dir("/p", "missing")]),
        ),
        ("/p/R".to_string(), Ok(vec![file("/p/R", "util.R", 2)])),
        ("/p/missing".to_string(), Err("permission denied".to_string())),
    ];
    let mut reader = ListedTree::new(tree);
    assert_eq!(
        list_project_files("/p", &mut reader).unwrap_err(),
        ProjectError::ReadFailed("permission denied".to_string())
    );
    let mut reader = ListedTree::new(vec![(
        "/p".to_string(),
        Ok(vec![file("/p", "main.R", 4), dir("/p", "R")]),
    ), ("/p/R".to_string(), Ok(vec![file("/p/R", "util.R", 2)]))]);
    let state = list_project_files("/p", &mut reader).unwrap();
    let paths: Vec<&str> = state.files.iter().map(|f| f.path.as_str()).collect();
    assert_eq!(paths, vec!["R/util.R", "main.R"]);
    let mut empty = ListedTree::new(Vec::new());
    assert_eq!(
        list_project_files("/nowhere", &mut empty).unwrap_err(),
        ProjectError::ReadFailed("cannot read /nowhere".to_string())
    );
}

#[test]
fn a_flat_listing_within_bounds_is_never_truncated() {
    let mut reader = ListedTree::new(vec![(
        "/flat".to_string(),
        Ok(vec![
            file("/flat", "DESCRIPTION", 10),
            file("/flat", "NAMESPACE", 5),
            file("/flat", "logo.png", 100),
        ]),
    )]);
    let state = list_project_files("/flat", &mut reader).unwrap();
    assert!(!state.truncated);
    let paths: Vec<&str> = state.files.iter().map(|f| f.path.as_str()).collect();
    assert_eq!(paths, vec!["DESCRIPTION", "NAMESPACE"]);
}

#[test]
fn a_nested_package_tree_is_listed_whole() {
    let mut reader = ListedTree::new(vec![
        (
            "/pkg".to_string(),
            Ok(vec![
                file("/pkg", "DESCRIPTION", 10),
                file("/pkg", "NAMESPACE", 5),
                file("/pkg", ".Rbuildignore", 3),
                file("/pkg", "logo.png", 100),
                dir("/pkg", "R"),
                dir("/pkg", "man"),
                dir("/pkg", "tests"),
            ]),
        ),
        ("/pkg/R".to_string(), Ok(vec![file("/pkg/R", "example.R", 4)])),
        ("/pkg/man".to_string(), Ok(vec![file("/pkg/man", "example.Rd", 4)])),
        ("/pkg/tests".to_string(), Ok(vec![dir("/pkg/tests", "testthat")])),
        (
            "/pkg/tests/testthat".to_string(),
            Ok(vec![file("/pkg/tests/testthat", "test-example.R", 4)]),
        ),
    ]);
    let state = list_project_files("/pkg", &mut reader).unwrap();
    assert!(!state.truncated);
    let paths: Vec<&str> = state.files.iter().map(|f| f.path.as_str()).collect();
    assert_eq!(
        paths,
        vec![
            ".Rbuildignore",
            "DESCRIPTION",
            "NAMESPACE",
            "R/example.R",
            "man/example.Rd",
            "tests/testthat/test-example.R"
        ]
    );
}
