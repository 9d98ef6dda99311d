use fsx::error::FsError;
use fsx::find::{failed_search, FindVisitor};
use fsx::test_utils::{gitignore_filter, FsNode};
use fsx::walk::{consult, deliver, EntryKind, EntryMeta, Probe, WalkReply, WalkStep, Walker};
use fsx::{FindReport, FsVisitor, GitIgnoreFilter, PathFilter};
use std::collections::HashMap;

// A file system held in memory, and the loop that drives a walk over it.

enum MemNode {
    File(u64),
    Dir(Vec<String>),
    Link(String),
}

struct MemFs {
    nodes: HashMap<String, MemNode>,
    denied: Vec<String>,
}

fn denied_error() -> std::io::Error {
    std::io::Error::from(std::io::ErrorKind::PermissionDenied)
}

fn missing_error() -> std::io::Error {
    std::io::Error::from(std::io::ErrorKind::NotFound)
}

impl MemFs {
    fn new(base: &str) -> MemFs {
        let mut nodes: HashMap<String, MemNode> = HashMap::new();
        nodes.insert(base.to_string(), MemNode::Dir(Vec::new()));
        MemFs { nodes, denied: Vec::new() }
    }

    fn add(&mut self, dir: &str, node: &FsNode) {
        let name = node.name().to_string();
        let path = format!("{}/{}", dir, name);
        if let Some(MemNode::Dir(children)) = self.nodes.get_mut(dir) {
            children.push(name);
        }
        match node {
            FsNode::File(_, _) => {
                self.nodes.insert(path, MemNode::File(node.meta().len()));
            }
            FsNode::Dir(_, children) => {
                self.nodes.insert(path.clone(), MemNode::Dir(Vec::new()));
                for child in children {
                    self.add(&path, child);
                }
            }
            FsNode::SymlinkFile(_, target) | FsNode::SymlinkDir(_, target) => {
                self.nodes.insert(path, MemNode::Link(format!("{}/{}", dir, target)));
            }
        }
    }

    fn deny(&mut self, path: &str) {
        self.denied.push(path.to_string());
    }

    fn canonicalize(&self, path: &str) -> Result<String, std::io::Error> {
        let mut pending: Vec<String> = path.split('/').rev().map(|s| s.to_string()).collect();
        let mut done: Vec<String> = Vec::new();
        let mut hops: usize = 0;
        while let Some(part) = pending.pop() {
            if part.is_empty() || part == "." {
                continue;
            }
            if part == ".." {
                done.pop();
                continue;
            }
            done.push(part);
            let here = format!("/{}", done.join("/"));
            match self.nodes.get(&here) {
                Some(MemNode::Link(target)) => {
                    hops += 1;
                    if hops > 40 {
                        return Err(std::io::Error::from(std::io::ErrorKind::InvalidInput));
                    }
                    done.clear();
                    for piece in target.split('/').rev() {
                        pending.push(piece.to_string());
                    }
                }
                _ => {}
            }
        }
        let resolved = format!("/{}", done.join("/"));
        if self.nodes.contains_key(&resolved) {
            Ok(resolved)
        } else {
            Err(missing_error())
        }
    }

    fn meta(&self, path: &str) -> Result<EntryMeta, std::io::Error> {
        match self.nodes.get(path) {
            Some(MemNode::File(size)) => Ok(EntryMeta { kind: EntryKind::File, size: *size }),
            Some(MemNode::Dir(_)) => Ok(EntryMeta { kind: EntryKind::Directory, size: 0 }),
            Some(MemNode::Link(_)) => Ok(EntryMeta { kind: EntryKind::Symlink, size: 0 }),
            None => Err(missing_error()),
        }
    }

    fn stat(&self, path: &str) -> Result<EntryMeta, std::io::Error> {
        let target = self.canonicalize(path)?;
        self.meta(&target)
    }

    fn list(&self, path: &str) -> Result<Vec<Probe>, std::io::Error> {
        if self.denied.iter().any(|d| d == path) {
            return Err(denied_error());
        }
        match self.nodes.get(path) {
            Some(MemNode::Dir(children)) => {
                let mut entries: Vec<Probe> = Vec::new();
                for name in children {
                    let child = format!("{}/{}", path, name);
                    match self.meta(&child) {
                        Ok(meta) => entries.push(Probe::Found { path: child, meta }),
                        Err(cause) => entries.push(Probe::Failed(FsError::Io(child, cause))),
                    }
                }
                Ok(entries)
            }
            _ => Err(missing_error()),
        }
    }
}

fn create_fs_tree(base: &str, tree: &FsNode) -> MemFs {
    let mut fs = MemFs::new(base);
    fs.add(base, tree);
    fs
}

fn walk_dir<V: FsVisitor, F: PathFilter>(
    fs: &MemFs,
    root: &str,
    visitor: &mut V,
    filter: &F,
    max_depth: Option<usize>,
    follow_symlinks: bool,
) {
    let mut walker = Walker::new(root, max_depth, follow_symlinks);
    let mut reply = WalkReply::Nothing;
    let mut steps: usize = 0;
    loop {
        steps += 1;
        assert!(steps < 100_000, "the walk does not end");
        reply = match walker.step(reply) {
            WalkStep::Emit(event) => {
                deliver(visitor, event);
                WalkReply::Nothing
            }
            WalkStep::Consult { path, is_dir } => consult(filter, &path, is_dir),
            WalkStep::ListDir { path } => match fs.list(&path) {
                Ok(entries) => WalkReply::Listing(entries),
                Err(cause) => WalkReply::ListFailed(cause),
            },
            WalkStep::Resolve { path } => match fs.canonicalize(&path) {
                Ok(target) => WalkReply::Resolved(target),
                Err(cause) => WalkReply::ResolveFailed(cause),
            },
            WalkStep::Stat { path } => match fs.stat(&path) {
                Ok(meta) => WalkReply::Stat(meta),
                Err(cause) => WalkReply::StatFailed(cause),
            },
            WalkStep::Done => break,
        };
    }
    assert!(walker.is_finished());
}

const TMP: &str = "/tmp/find";

fn find<F: PathFilter>(
    fs: &MemFs,
    root: &str,
    max_depth: Option<usize>,
    follow_symlinks: bool,
    ignore_filter: &F,
    pattern: &str,
) -> FindReport {
    let mut visitor = match FindVisitor::new(pattern) {
        Ok(vis) => vis,
        Err(err) => return failed_search(err),
    };
    walk_dir(fs, root, &mut visitor, ignore_filter, max_depth, follow_symlinks);
    visitor.into_report()
}

fn run_find(fs: &MemFs, root: &str, filter: &GitIgnoreFilter, pattern: &str) -> FindReport {
    find(fs, root, None, false, filter, pattern)
}

fn two_files<'a>() -> FsNode<'a> {
    FsNode::Dir("root", vec![FsNode::File("a.txt", "a"), FsNode::File("b.log", "b")])
}

#[test]
fn finds_files_without_ignore() {
    let fs = create_fs_tree(TMP, &two_files());

    let filter = gitignore_filter(TMP, &[]);
    let report = run_find(&fs, TMP, &filter, r".*");

    assert_eq!(report.errors.len(), 0);
    assert_eq!(report.entries.len(), 2);
}

#[test]
fn ignores_files_matching_pattern() {
    let fs = create_fs_tree(TMP, &two_files());

    let filter = gitignore_filter(TMP, &["*.log"]);
    let report = run_find(&fs, TMP, &filter, r".*");

    assert_eq!(report.entries.len(), 1);
    assert!(report.entries[0].name.ends_with("a.txt"));
}

#[test]
fn ignores_directory_and_children() {
    let fs = create_fs_tree(
        TMP,
        &FsNode::Dir(
            "root",
            vec![
                FsNode::Dir("target", vec![FsNode::File("a.txt", "a")]),
                FsNode::File("b.txt", "b"),
            ],
        ),
    );

    let filter = gitignore_filter(TMP, &["target/"]);
    let report = run_find(&fs, TMP, &filter, r".*\.txt");

    assert_eq!(report.entries.len(), 1);
    assert!(report.entries[0].name.ends_with("b.txt"));
}

#[test]
fn negated_pattern_reincludes_file() {
    let fs = create_fs_tree(
        TMP,
        &FsNode::Dir("root", vec![FsNode::File("a.log", "a"), FsNode::File("keep.log", "b")]),
    );

    let filter = gitignore_filter(TMP, &["*.log", "!keep.log"]);

    let report = run_find(&fs, TMP, &filter, r".*\.log");

    assert_eq!(report.entries.len(), 1);
    assert!(report.entries[0].name.ends_with("keep.log"));
}

#[test]
fn cli_patterns_override_gitignore() {
    let ignore_text = "*.txt\n";
    let mut fs = MemFs::new(TMP);
    fs.add(TMP, &FsNode::File(".gitignore", ignore_text));
    fs.add(TMP, &two_files());

    let filter = GitIgnoreFilter::from_gitignore(TMP, Some(ignore_text), &[String::from("!a.txt")]);

    let report = run_find(&fs, TMP, &filter, r".*");

    assert_eq!(report.entries.len(), 3);
}

#[test]
fn invalid_regex_is_reported() {
    let fs = MemFs::new(TMP);

    let filter = gitignore_filter(TMP, &[]);
    let report = find(&fs, TMP, None, false, &filter, "(");

    assert_eq!(report.entries.len(), 0);
    assert_eq!(report.errors.len(), 1);
    assert!(matches!(report.errors[0], FsError::RegexError(_)));
    assert_eq!(report.errors[0].path(), None);
    assert!(!report.errors[0].message().is_empty());
}

#[test]
fn found_files_carry_path_size_and_depth() {
    let fs = create_fs_tree(
        TMP,
        &FsNode::Dir(
            "root",
            vec![
                FsNode::File("notes.md", "12345"),
                FsNode::Dir("docs", vec![FsNode::File("guide.md", "123"), FsNode::File("x.rs", "")]),
            ],
        ),
    );
    let root = format!("{}/root", TMP);
    let filter = gitignore_filter(&root, &[]);

    let report = run_find(&fs, &root, &filter, r"\.md$");

    assert_eq!(report.entries.len(), 2);
    assert_eq!(report.entries[0].name, format!("{}/notes.md", root));
    assert_eq!(report.entries[0].size, 5);
    assert_eq!(report.entries[0].depth, 1);
    assert_eq!(report.entries[1].name, format!("{}/docs/guide.md", root));
    assert_eq!(report.entries[1].size, 3);
    assert_eq!(report.entries[1].depth, 2);
}

#[test]
fn expression_is_held_against_the_file_name_alone() {
    let mut visitor = FindVisitor::new("^docs").unwrap();
    let meta = EntryMeta { kind: EntryKind::File, size: 1 };
    visitor.visit_file("/r/docs/readme", &meta, 2);
    visitor.visit_file("/r/src/docs.txt", &meta, 2);
    visitor.visit_file("/r/src/..", &meta, 2);
    visitor.enter_dir("/r/docs", &EntryMeta { kind: EntryKind::Directory, size: 0 }, 1);
    visitor.visit_symlink("/r/docs_link", 1);
    assert!(visitor.matches_name("docs.txt"));
    assert!(!visitor.matches_name("readme"));
    let report = visitor.into_report();
    assert_eq!(report.entries.len(), 1);
    assert_eq!(report.entries[0].name, "/r/src/docs.txt");
}

#[test]
fn search_keeps_the_errors_of_the_walk() {
    let mut fs = create_fs_tree(
        TMP,
        &FsNode::Dir(
            "root",
            vec![FsNode::Dir("locked", Vec::new()), FsNode::File("a.txt", "a")],
        ),
    );
    let root = format!("{}/root", TMP);
    fs.deny(&format!("{}/locked", root));
    let filter = gitignore_filter(&root, &[]);

    let report = run_find(&fs, &root, &filter, r".*");

    assert_eq!(report.entries.len(), 1);
    assert_eq!(report.errors.len(), 1);
    assert_eq!(report.errors[0].path(), Some(format!("{}/locked", root).as_str()));
    assert!(report.errors[0].message().starts_with(&format!("{}/locked: ", root)));
}

#[test]
fn file_system_error_is_put_in_words_with_its_path() {
    assert_eq!(fsx::error::io_message("/r/locked", "denied"), "/r/locked: denied");
    let error = FsError::Io("/r/locked".to_string(), denied_error());
    assert_eq!(error.message(), format!("/r/locked: {}", denied_error()));
    assert_eq!(error.path(), Some("/r/locked"));
}

#[test]
fn refused_expression_becomes_an_error_of_the_search() {
    let cause = regex::Regex::new("(").unwrap_err();
    let words = cause.to_string();
    let error = FsError::from(cause);
    assert!(matches!(error, FsError::RegexError(_)));
    assert_eq!(error.message(), words);
}
