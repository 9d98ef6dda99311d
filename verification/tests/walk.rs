use fsx::error::FsError;
use fsx::test_utils::FsNode;
use fsx::walk::{
    consult, deliver, EntryKind, EntryMeta, Probe, WalkEvent, WalkReply, WalkStep, Walker,
};
use fsx::{FsVisitor, PathFilter};
use std::collections::HashMap;
use std::path::Path;

// A file system held in memory, and the loop that drives a walk over it.

enum MemNode {
    File(u64),
    Dir(Vec<String>),
    Link(String),
}

struct MemFs {
    nodes: HashMap<String, MemNode>,
    denied: Vec<String>,
}

fn denied_error() -> std::io::Error {
    std::io::Error::from(std::io::ErrorKind::PermissionDenied)
}

fn missing_error() -> std::io::Error {
    std::io::Error::from(std::io::ErrorKind::NotFound)
}

impl MemFs {
    fn new(base: &str) -> MemFs {
        let mut nodes: HashMap<String, MemNode> = HashMap::new();
        nodes.insert(base.to_string(), MemNode::Dir(Vec::new()));
        MemFs { nodes, denied: Vec::new() }
    }

    fn add(&mut self, dir: &str, node: &FsNode) {
        let name = node.name().to_string();
        let path = format!("{}/{}", dir, name);
        if let Some(MemNode::Dir(children)) = self.nodes.get_mut(dir) {
            children.push(name);
        }
        match node {
            FsNode::File(_, _) => {
                self.nodes.insert(path, MemNode::File(node.meta().len()));
            }
            FsNode::Dir(_, children) => {
                self.nodes.insert(path.clone(), MemNode::Dir(Vec::new()));
                for child in children {
                    self.add(&path, child);
                }
            }
            FsNode::SymlinkFile(_, target) | FsNode::SymlinkDir(_, target) => {
                self.nodes.insert(path, MemNode::Link(format!("{}/{}", dir, target)));
            }
        }
    }

    fn deny(&mut self, path: &str) {
        self.denied.push(path.to_string());
    }

    fn canonicalize(&self, path: &str) -> Result<String, std::io::Error> {
        let mut pending: Vec<String> = path.split('/').rev().map(|s| s.to_string()).collect();
        let mut done: Vec<String> = Vec::new();
        let mut hops: usize = 0;
        while let Some(part) = pending.pop() {
            if part.is_empty() || part == "." {
                continue;
            }
            if part == ".." {
                done.pop();
                continue;
            }
            done.push(part);
            let here = format!("/{}", done.join("/"));
            match self.nodes.get(&here) {
                Some(MemNode::Link(target)) => {
                    hops += 1;
                    if hops > 40 {
                        return Err(std::io::Error::from(std::io::ErrorKind::InvalidInput));
                    }
                    done.clear();
                    for piece in target.split('/').rev() {
                        pending.push(piece.to_string());
                    }
                }
                _ => {}
            }
        }
        let resolved = format!("/{}", done.join("/"));
        if self.nodes.contains_key(&resolved) {
            Ok(resolved)
        } else {
            Err(missing_error())
        }
    }

    fn meta(&self, path: &str) -> Result<EntryMeta, std::io::Error> {
        match self.nodes.get(path) {
            Some(MemNode::File(size)) => Ok(EntryMeta { kind: EntryKind::File, size: *size }),
            Some(MemNode::Dir(_)) => Ok(EntryMeta { kind: EntryKind::Directory, size: 0 }),
            Some(MemNode::Link(_)) => Ok(EntryMeta { kind: EntryKind::Symlink, size: 0 }),
            None => Err(missing_error()),
        }
    }

    fn stat(&self, path: &str) -> Result<EntryMeta, std::io::Error> {
        let target = self.canonicalize(path)?;
        self.meta(&target)
    }

    fn list(&self, path: &str) -> Result<Vec<Probe>, std::io::Error> {
        if self.denied.iter().any(|d| d == path) {
            return Err(denied_error());
        }
        match self.nodes.get(path) {
            Some(MemNode::Dir(children)) => {
                let mut entries: Vec<Probe> = Vec::new();
                for name in children {
                    let child = format!("{}/{}", path, name);
                    match self.meta(&child) {
                        Ok(meta) => entries.push(Probe::Found { path: child, meta }),
                        Err(cause) => entries.push(Probe::Failed(FsError::Io(child, cause))),
                    }
                }
                Ok(entries)
            }
            _ => Err(missing_error()),
        }
    }
}

fn create_fs_tree(base: &str, tree: &FsNode) -> MemFs {
    let mut fs = MemFs::new(base);
    fs.add(base, tree);
    fs
}

fn walk_dir<V: FsVisitor, F: PathFilter>(
    fs: &MemFs,
    root: &str,
    visitor: &mut V,
    filter: &F,
    max_depth: Option<usize>,
    follow_symlinks: bool,
) {
    let mut walker = Walker::new(root, max_depth, follow_symlinks);
    let mut reply = WalkReply::Nothing;
    let mut steps: usize = 0;
    loop {
        steps += 1;
        assert!(steps < 100_000, "the walk does not end");
        reply = match walker.step(reply) {
            WalkStep::Emit(event) => {
                deliver(visitor, event);
                WalkReply::Nothing
            }
            WalkStep::Consult { path, is_dir } => consult(filter, &path, is_dir),
            WalkStep::ListDir { path } => match fs.list(&path) {
                Ok(entries) => WalkReply::Listing(entries),
                Err(cause) => WalkReply::ListFailed(cause),
            },
            WalkStep::Resolve { path } => match fs.canonicalize(&path) {
                Ok(target) => WalkReply::Resolved(target),
                Err(cause) => WalkReply::ResolveFailed(cause),
            },
            WalkStep::Stat { path } => match fs.stat(&path) {
                Ok(meta) => WalkReply::Stat(meta),
                Err(cause) => WalkReply::StatFailed(cause),
            },
            WalkStep::Done => break,
        };
    }
    assert!(walker.is_finished());
}

const TMP: &str = "/tmp/walk";

fn join(base: &str, rel: &str) -> String {
    format!("{}/{}", base, rel)
}

#[derive(Default, Debug)]
struct WalkTestVisitor {
    seen_files: Vec<(String, usize)>,
    seen_dirs_enter: Vec<(String, usize)>,
    seen_dirs_exit: Vec<(String, usize)>,
}

impl FsVisitor for WalkTestVisitor {
    fn visit_file(&mut self, path: &str, _meta: &EntryMeta, depth: usize) {
        self.seen_files.push((path.to_string(), depth));
    }

    fn enter_dir(&mut self, path: &str, _meta: &EntryMeta, depth: usize) {
        self.seen_dirs_enter.push((path.to_string(), depth));
    }

    fn exit_dir(&mut self, path: &str, _meta: &EntryMeta, depth: usize) {
        self.seen_dirs_exit.push((path.to_string(), depth));
    }

    fn visit_symlink(&mut self, _path: &str, _depth: usize) {}

    fn on_error(&mut self, error: FsError) {
        panic!("Unexpected error: {:?}", error);
    }
}

#[derive(Default, Debug)]
struct TestPathFilter {
    ignored_paths: Vec<String>,
}

impl PathFilter for TestPathFilter {
    fn is_ignored(&self, path: &str, _is_dir: bool) -> bool {
        self.ignored_paths.iter().any(|p| p.as_str() == path)
    }
}

#[derive(Default)]
struct FalsePathFilter {}

impl PathFilter for FalsePathFilter {
    fn is_ignored(&self, _path: &str, _is_dir: bool) -> bool {
        false
    }
}

#[derive(Default)]
struct TruePathFilter {}

impl PathFilter for TruePathFilter {
    fn is_ignored(&self, _path: &str, _is_dir: bool) -> bool {
        true
    }
}

/// Writes down every event, in order.
#[derive(Default)]
struct Recorder {
    log: Vec<String>,
    errors: Vec<FsError>,
}

impl FsVisitor for Recorder {
    fn visit_file(&mut self, path: &str, meta: &EntryMeta, depth: usize) {
        self.log.push(format!("file {} {} {}", path, meta.len(), depth));
    }

    fn enter_dir(&mut self, path: &str, _meta: &EntryMeta, depth: usize) {
        self.log.push(format!("enter {} {}", path, depth));
    }

    fn exit_dir(&mut self, path: &str, _meta: &EntryMeta, depth: usize) {
        self.log.push(format!("exit {} {}", path, depth));
    }

    fn visit_symlink(&mut self, path: &str, depth: usize) {
        self.log.push(format!("link {} {}", path, depth));
    }

    fn on_error(&mut self, error: FsError) {
        self.log.push(format!("error {}", error.path().unwrap_or("")));
        self.errors.push(error);
    }
}

fn three_level_tree<'a>() -> FsNode<'a> {
    FsNode::Dir(
        "root",
        vec![
            FsNode::File("file.txt", "hello"),
            FsNode::Dir(
                "subdir",
                vec![
                    FsNode::File("file2.txt", "world"),
                    FsNode::Dir("subdir2", vec![FsNode::File("file3.txt", "!")]),
                ],
            ),
        ],
    )
}

#[test]
fn walks_directory_and_reports_depth() {
    let tree = FsNode::Dir(
        "root",
        vec![
            FsNode::File("file.txt", "hello"),
            FsNode::Dir("subdir", vec![FsNode::File("file2.txt", "world")]),
        ],
    );
    let fs = create_fs_tree(TMP, &tree);
    let root = join(TMP, "root");

    let mut visitor = WalkTestVisitor::default();
    let filter = TestPathFilter::default();

    walk_dir(&fs, &root, &mut visitor, &filter, None, false);

    assert_eq!(visitor.seen_files.len(), 2);
    assert_eq!(visitor.seen_dirs_enter.len(), 1);

    visitor.seen_dirs_enter.sort();
    visitor.seen_dirs_exit.sort();
    assert_eq!(visitor.seen_dirs_enter, visitor.seen_dirs_exit);

    assert!(visitor.seen_files.contains(&(join(&root, "file.txt"), 1)));
    assert!(visitor.seen_dirs_enter.contains(&(join(&root, "subdir"), 1)));
    assert!(visitor.seen_files.contains(&(join(&root, "subdir/file2.txt"), 2)));
}

#[test]
fn walks_directories_to_max_depth() {
    let fs = create_fs_tree(TMP, &three_level_tree());
    let root = join(TMP, "root");

    let mut visitor = WalkTestVisitor::default();
    let filter = TestPathFilter::default();

    walk_dir(&fs, &root, &mut visitor, &filter, Some(2), false);

    visitor.seen_dirs_enter.sort();
    visitor.seen_dirs_exit.sort();
    assert_eq!(visitor.seen_dirs_enter, visitor.seen_dirs_exit);

    assert!(visitor.seen_files.contains(&(join(&root, "file.txt"), 1)));
    assert!(visitor.seen_dirs_enter.contains(&(join(&root, "subdir"), 1)));
    assert!(visitor.seen_files.contains(&(join(&root, "subdir/file2.txt"), 2)));
    assert!(visitor.seen_dirs_enter.contains(&(join(&root, "subdir/subdir2"), 2)));
    for (path, depth) in visitor.seen_files {
        assert!(depth <= 2);
        assert!(path != join(&root, "subdir/subdir2/file3.txt"));
    }
    for (_path, depth) in visitor.seen_dirs_enter {
        assert!(depth <= 2);
    }
}

#[test]
fn ignore_single_file() {
    let tree = FsNode::Dir("root", vec![FsNode::File("file.txt", "hello")]);
    let fs = create_fs_tree(TMP, &tree);
    let root = join(TMP, "root");

    let mut visitor = WalkTestVisitor::default();
    let filter = TestPathFilter { ignored_paths: vec![join(&root, "file.txt")] };

    walk_dir(&fs, &root, &mut visitor, &filter, None, false);

    assert_eq!(visitor.seen_dirs_enter.len(), 0);
    assert!(!visitor.seen_files.contains(&(join(&root, "file.txt"), 1)));
}

#[test]
fn ignore_single_directory() {
    let tree = FsNode::Dir(
        "root",
        vec![
            FsNode::File("file.txt", "hello"),
            FsNode::Dir(
                "subdir",
                vec![FsNode::File("file2.txt", "world"), FsNode::Dir("subdir2", Vec::new())],
            ),
        ],
    );
    let fs = create_fs_tree(TMP, &tree);
    let root = join(TMP, "root");

    let mut visitor = WalkTestVisitor::default();
    let filter = TestPathFilter { ignored_paths: vec![join(&root, "subdir/subdir2")] };

    walk_dir(&fs, &root, &mut visitor, &filter, None, false);

    assert_eq!(visitor.seen_dirs_enter.len(), 1);
    assert!(visitor.seen_dirs_enter.contains(&(join(&root, "subdir"), 1)));
    assert_eq!(visitor.seen_files.len(), 2);
    assert!(visitor.seen_files.contains(&(join(&root, "file.txt"), 1)));
    assert!(visitor.seen_files.contains(&(join(&root, "subdir/file2.txt"), 2)));
}

#[test]
fn ignore_nested_directory() {
    let fs = create_fs_tree(TMP, &three_level_tree());
    let root = join(TMP, "root");

    let mut visitor = WalkTestVisitor::default();
    let filter = TestPathFilter { ignored_paths: vec![join(&root, "subdir")] };

    walk_dir(&fs, &root, &mut visitor, &filter, None, false);

    assert_eq!(visitor.seen_dirs_enter.len(), 0);
    assert_eq!(visitor.seen_files.len(), 1);
    assert!(visitor.seen_files.contains(&(join(&root, "file.txt"), 1)));
}

#[test]
fn ignore_nothing() {
    let fs = create_fs_tree(TMP, &three_level_tree());
    let root = join(TMP, "root");

    let mut visitor = WalkTestVisitor::default();
    let filter = FalsePathFilter::default();

    walk_dir(&fs, &root, &mut visitor, &filter, None, true);

    assert_eq!(visitor.seen_dirs_enter.len(), 2);
    assert!(visitor.seen_dirs_enter.contains(&(join(&root, "subdir"), 1)));
    assert!(visitor.seen_dirs_enter.contains(&(join(&root, "subdir/subdir2"), 2)));
    assert_eq!(visitor.seen_files.len(), 3);
    assert!(visitor.seen_files.contains(&(join(&root, "file.txt"), 1)));
    assert!(visitor.seen_files.contains(&(join(&root, "subdir/file2.txt"), 2)));
    assert!(visitor.seen_files.contains(&(join(&root, "subdir/subdir2/file3.txt"), 3)));
}

#[test]
fn ignore_everything() {
    let fs = create_fs_tree(TMP, &three_level_tree());
    let root = join(TMP, "root");

    let mut visitor = WalkTestVisitor::default();
    let filter = TruePathFilter::default();

    walk_dir(&fs, &root, &mut visitor, &filter, None, true);

    assert_eq!(visitor.seen_dirs_enter.len(), 0);
    assert_eq!(visitor.seen_files.len(), 0);
}

#[derive(Default, Debug)]
struct SymlinkTestVisitor {
    files: Vec<(String, usize)>,
    dirs: Vec<(String, usize)>,
    symlinks: Vec<(String, usize)>,
}

impl FsVisitor for SymlinkTestVisitor {
    fn visit_file(&mut self, path: &str, _meta: &EntryMeta, depth: usize) {
        self.files.push((path.to_string(), depth));
    }

    fn enter_dir(&mut self, path: &str, _meta: &EntryMeta, depth: usize) {
        self.dirs.push((path.to_string(), depth));
    }

    fn exit_dir(&mut self, _path: &str, _meta: &EntryMeta, _depth: usize) {}

    fn visit_symlink(&mut self, path: &str, depth: usize) {
        self.symlinks.push((path.to_string(), depth));
    }

    fn on_error(&mut self, err: FsError) {
        panic!("Unexpected error: {:?}", err);
    }
}

#[test]
fn detects_symlinks_but_does_not_follow_by_default() {
    let tree = FsNode::Dir(
        "root",
        vec![FsNode::Dir(
            "subdir",
            vec![
                FsNode::File("file.txt", "hello"),
                FsNode::SymlinkDir("link_to_subdir", "subdir"),
            ],
        )],
    );
    let fs = create_fs_tree(TMP, &tree);
    let root = join(TMP, "root");

    let mut visitor = SymlinkTestVisitor::default();
    let filter = TestPathFilter::default();

    walk_dir(&fs, &root, &mut visitor, &filter, None, false);

    assert_eq!(visitor.dirs.iter().filter(|(p, _)| Path::new(p).ends_with("subdir")).count(), 1);
    assert!(visitor.symlinks.iter().any(|(p, _)| Path::new(p).ends_with("link_to_subdir")));
    assert_eq!(visitor.files.iter().filter(|(p, _)| Path::new(p).ends_with("file.txt")).count(), 1);
}

#[test]
fn symlink_cycle_does_not_revisit_directories() {
    let tree = FsNode::Dir(
        "a",
        vec![FsNode::Dir(
            "b",
            vec![FsNode::Dir("c", vec![FsNode::SymlinkDir("d", "../../../a")])],
        )],
    );
    let fs = create_fs_tree(TMP, &tree);
    let start = join(TMP, "a/b");

    let mut visitor = SymlinkTestVisitor::default();
    let filter = TestPathFilter::default();

    walk_dir(&fs, &start, &mut visitor, &filter, None, true);

    let mut dirs = visitor.dirs.clone();
    dirs.sort();
    dirs.dedup();

    assert_eq!(dirs.len(), visitor.dirs.len(), "Directory visited more than once");
    assert!(
        visitor.dirs.iter().any(|(p, _)| Path::new(p).ends_with("a")),
        "Expected to reach directory 'a' via symlink"
    );
}

#[test]
fn ignore_symlink_file() {
    let tree = FsNode::Dir(
        "root",
        vec![
            FsNode::File("file.txt", "hello"),
            FsNode::Dir(
                "subdir",
                vec![
                    FsNode::File("file2.txt", "world"),
                    FsNode::Dir(
                        "subdir2",
                        vec![FsNode::SymlinkFile("file3.txt", "../../file.txt")],
                    ),
                ],
            ),
        ],
    );
    let fs = create_fs_tree(TMP, &tree);
    let root = join(TMP, "root");
    let start = join(&root, "subdir");

    let mut visitor = SymlinkTestVisitor::default();
    let filter = TestPathFilter {
        ignored_paths: vec![fs.canonicalize(&join(&root, "file.txt")).unwrap()],
    };

    walk_dir(&fs, &start, &mut visitor, &filter, None, true);

    assert_eq!(visitor.dirs.len(), 1);
    assert!(visitor.dirs.contains(&(join(&root, "subdir/subdir2"), 1)));
    assert_eq!(visitor.files.len(), 1);
    assert!(visitor.files.contains(&(join(&root, "subdir/file2.txt"), 1)));
    assert_eq!(visitor.symlinks.len(), 1);
    assert!(visitor.symlinks.contains(&(join(&root, "subdir/subdir2/file3.txt"), 2)));
}

#[test]
fn ignore_symlink_dir() {
    let tree = FsNode::Dir(
        "root",
        vec![
            FsNode::Dir(
                "symlinked_dir",
                vec![
                    FsNode::File("File4.txt", "Some content"),
                    FsNode::File("File5.txt", "Some more content"),
                ],
            ),
            FsNode::Dir(
                "subdir",
                vec![
                    FsNode::File("file2.txt", "world"),
                    FsNode::Dir(
                        "subdir2",
                        vec![FsNode::SymlinkDir("dir_link", "../../symlinked_dir")],
                    ),
                ],
            ),
        ],
    );
    let fs = create_fs_tree(TMP, &tree);
    let root = join(TMP, "root");
    let start = join(&root, "subdir");

    let mut visitor = SymlinkTestVisitor::default();
    let filter = TestPathFilter {
        ignored_paths: vec![fs.canonicalize(&join(&root, "symlinked_dir")).unwrap()],
    };

    walk_dir(&fs, &start, &mut visitor, &filter, None, true);

    assert_eq!(visitor.dirs.len(), 1);
    assert!(visitor.dirs.contains(&(join(&root, "subdir/subdir2"), 1)));
    assert_eq!(visitor.files.len(), 1);
    assert!(visitor.files.contains(&(join(&root, "subdir/file2.txt"), 1)));
    assert_eq!(visitor.symlinks.len(), 1);
    assert!(visitor.symlinks.contains(&(join(&root, "subdir/subdir2/dir_link"), 2)));
}

fn sized_tree<'a>() -> FsNode<'a> {
    FsNode::Dir(
        "root",
        vec![
            FsNode::File("file.txt", "hello"),
            FsNode::Dir(
                "subdir",
                vec![
                    FsNode::File("file2.txt", "world!"),
                    FsNode::Dir("subdir2", vec![FsNode::File("file3.txt", "hello world!")]),
                ],
            ),
        ],
    )
}

#[test]
fn events_come_in_depth_first_order() {
    let fs = create_fs_tree(TMP, &sized_tree());
    let root = join(TMP, "root");
    let mut recorder = Recorder::default();

    walk_dir(&fs, &root, &mut recorder, &FalsePathFilter::default(), None, false);

    assert_eq!(
        recorder.log,
        vec![
            format!("file {}/file.txt 5 1", root),
            format!("enter {}/subdir 1", root),
            format!("file {}/subdir/file2.txt 6 2", root),
            format!("enter {}/subdir/subdir2 2", root),
            format!("file {}/subdir/subdir2/file3.txt 12 3", root),
            format!("exit {}/subdir/subdir2 2", root),
            format!("exit {}/subdir 1", root),
        ]
    );
}

#[test]
fn entries_at_the_depth_limit_fire_but_are_not_listed() {
    let fs = create_fs_tree(TMP, &sized_tree());
    let root = join(TMP, "root");
    let mut recorder = Recorder::default();

    walk_dir(&fs, &root, &mut recorder, &FalsePathFilter::default(), Some(2), false);

    assert_eq!(
        recorder.log,
        vec![
            format!("file {}/file.txt 5 1", root),
            format!("enter {}/subdir 1", root),
            format!("file {}/subdir/file2.txt 6 2", root),
            format!("enter {}/subdir/subdir2 2", root),
            format!("exit {}/subdir/subdir2 2", root),
            format!("exit {}/subdir 1", root),
        ]
    );
}

#[test]
fn depth_limit_zero_still_visits_the_entries_of_the_root() {
    let fs = create_fs_tree(TMP, &sized_tree());
    let root = join(TMP, "root");
    let mut recorder = Recorder::default();

    walk_dir(&fs, &root, &mut recorder, &FalsePathFilter::default(), Some(0), false);

    assert_eq!(
        recorder.log,
        vec![
            format!("file {}/file.txt 5 1", root),
            format!("enter {}/subdir 1", root),
            format!("exit {}/subdir 1", root),
        ]
    );
}

#[test]
fn unreadable_directory_is_reported_and_siblings_are_visited() {
    let tree = FsNode::Dir(
        "root",
        vec![
            FsNode::File("a.txt", "a"),
            FsNode::Dir("locked", vec![FsNode::File("secret.txt", "s")]),
            FsNode::Dir("open", vec![FsNode::File("b.txt", "bb")]),
            FsNode::File("c.txt", "ccc"),
        ],
    );
    let mut fs = create_fs_tree(TMP, &tree);
    let root = join(TMP, "root");
    fs.deny(&join(&root, "locked"));
    let mut recorder = Recorder::default();

    walk_dir(&fs, &root, &mut recorder, &FalsePathFilter::default(), None, false);

    assert_eq!(recorder.errors.len(), 1);
    assert_eq!(recorder.errors[0].path(), Some(join(&root, "locked").as_str()));
    assert_eq!(
        recorder.log,
        vec![
            format!("file {}/a.txt 1 1", root),
            format!("enter {}/locked 1", root),
            format!("error {}/locked", root),
            format!("exit {}/locked 1", root),
            format!("enter {}/open 1", root),
            format!("file {}/open/b.txt 2 2", root),
            format!("exit {}/open 1", root),
            format!("file {}/c.txt 3 1", root),
        ]
    );
}

#[test]
fn unreadable_root_is_reported_once() {
    let fs = MemFs::new(TMP);
    let mut recorder = Recorder::default();

    walk_dir(&fs, &join(TMP, "missing"), &mut recorder, &FalsePathFilter::default(), None, false);

    assert_eq!(recorder.log, vec![format!("error {}/missing", TMP)]);
}

#[test]
fn dangling_link_is_reported_when_followed() {
    let tree = FsNode::Dir(
        "root",
        vec![FsNode::SymlinkFile("broken", "nowhere"), FsNode::File("z.txt", "z")],
    );
    let fs = create_fs_tree(TMP, &tree);
    let root = join(TMP, "root");
    let mut recorder = Recorder::default();

    walk_dir(&fs, &root, &mut recorder, &FalsePathFilter::default(), None, true);

    assert_eq!(
        recorder.log,
        vec![
            format!("link {}/broken 1", root),
            format!("error {}/broken", root),
            format!("file {}/z.txt 1 1", root),
        ]
    );
}

#[test]
fn followed_link_to_directory_is_entered_under_the_target_path() {
    let tree = FsNode::Dir(
        "root",
        vec![
            FsNode::Dir("start", vec![FsNode::SymlinkDir("link", "../data")]),
            FsNode::Dir("data", vec![FsNode::File("d.txt", "dd")]),
        ],
    );
    let fs = create_fs_tree(TMP, &tree);
    let root = join(TMP, "root");
    let mut recorder = Recorder::default();

    walk_dir(&fs, &join(&root, "start"), &mut recorder, &FalsePathFilter::default(), None, true);

    assert_eq!(
        recorder.log,
        vec![
            format!("link {}/start/link 1", root),
            format!("enter {}/data 1", root),
            format!("file {}/data/d.txt 2 2", root),
            format!("exit {}/data 1", root),
        ]
    );
}

#[test]
fn two_links_to_one_directory_enter_it_once() {
    let tree = FsNode::Dir(
        "root",
        vec![
            FsNode::Dir(
                "start",
                vec![FsNode::SymlinkDir("one", "../data"), FsNode::SymlinkDir("two", "../data")],
            ),
            FsNode::Dir("data", vec![FsNode::File("d.txt", "dd")]),
        ],
    );
    let fs = create_fs_tree(TMP, &tree);
    let root = join(TMP, "root");
    let mut visitor = SymlinkTestVisitor::default();

    walk_dir(&fs, &join(&root, "start"), &mut visitor, &FalsePathFilter::default(), None, true);

    assert_eq!(visitor.symlinks.len(), 2);
    assert_eq!(visitor.dirs, vec![(join(&root, "data"), 1)]);
    assert_eq!(visitor.files, vec![(join(&root, "data/d.txt"), 2)]);
}

#[test]
fn failed_probe_is_reported_and_the_walk_goes_on() {
    let mut walker = Walker::new("/r", None, false);
    assert!(matches!(walker.step(WalkReply::Nothing), WalkStep::ListDir { path } if path == "/r"));
    let entries = vec![
        Probe::Failed(FsError::Io("/r/x".to_string(), denied_error())),
        Probe::Found {
            path: "/r/y".to_string(),
            meta: EntryMeta { kind: EntryKind::File, size: 7 },
        },
    ];
    let first = walker.step(WalkReply::Listing(entries));
    assert!(matches!(first, WalkStep::Emit(WalkEvent::Error(FsError::Io(path, _))) if path == "/r/x"));
    let second = walker.step(WalkReply::Nothing);
    assert!(matches!(second, WalkStep::Consult { path, is_dir: false } if path == "/r/y"));
    let third = walker.step(WalkReply::Verdict(false));
    assert!(matches!(
        third,
        WalkStep::Emit(WalkEvent::VisitFile { path, meta, depth: 1 }) if path == "/r/y" && meta.size == 7
    ));
    assert!(matches!(walker.step(WalkReply::Nothing), WalkStep::Done));
    assert!(walker.is_finished());
    assert!(matches!(walker.step(WalkReply::Nothing), WalkStep::Done));
}

#[test]
fn answer_of_the_wrong_kind_repeats_the_question() {
    let mut walker = Walker::new("/r", None, false);
    assert!(matches!(walker.step(WalkReply::Nothing), WalkStep::ListDir { .. }));
    assert!(matches!(walker.step(WalkReply::Verdict(true)), WalkStep::ListDir { path } if path == "/r"));
    let entries = vec![Probe::Found {
        path: "/r/d".to_string(),
        meta: EntryMeta { kind: EntryKind::Directory, size: 0 },
    }];
    assert!(matches!(
        walker.step(WalkReply::Listing(entries)),
        WalkStep::Consult { path, is_dir: true } if path == "/r/d"
    ));
    assert!(matches!(
        walker.step(WalkReply::Nothing),
        WalkStep::Consult { path, is_dir: true } if path == "/r/d"
    ));
    assert!(matches!(
        walker.step(WalkReply::Verdict(false)),
        WalkStep::Emit(WalkEvent::EnterDir { depth: 1, .. })
    ));
}

#[test]
fn other_kinds_of_entry_are_passed_by() {
    let mut walker = Walker::new("/r", None, false);
    walker.step(WalkReply::Nothing);
    let entries = vec![Probe::Found {
        path: "/r/socket".to_string(),
        meta: EntryMeta { kind: EntryKind::Other, size: 0 },
    }];
    assert!(matches!(walker.step(WalkReply::Listing(entries)), WalkStep::Consult { .. }));
    assert!(matches!(walker.step(WalkReply::Verdict(false)), WalkStep::Done));
}

#[test]
fn failures_of_a_listing_go_under_the_right_path() {
    let unread = Probe::unread("/r/dir", denied_error());
    assert!(matches!(unread, Probe::Failed(FsError::Io(path, _)) if path == "/r/dir"));
    let unprobed = Probe::unprobed("/r/dir/x".to_string(), missing_error());
    assert!(matches!(unprobed, Probe::Failed(FsError::Io(path, _)) if path == "/r/dir/x"));
    let found = Probe::found("/r/dir/y".to_string(), EntryMeta { kind: EntryKind::Symlink, size: 0 });
    assert!(matches!(
        found,
        Probe::Found { path, meta } if path == "/r/dir/y" && meta.is_symlink() && !meta.is_file() && !meta.is_dir()
    ));
}

#[test]
fn the_filters_own_verdict_is_handed_to_the_walk() {
    assert!(matches!(consult(&TruePathFilter::default(), "/r/a", false), WalkReply::Verdict(true)));
    assert!(matches!(consult(&FalsePathFilter::default(), "/r/a", true), WalkReply::Verdict(false)));
    let filter = TestPathFilter { ignored_paths: vec!["/r/a".to_string()] };
    assert!(matches!(consult(&filter, "/r/a", false), WalkReply::Verdict(true)));
    assert!(matches!(consult(&filter, "/r/b", false), WalkReply::Verdict(false)));
}

#[test]
fn each_kind_of_event_goes_to_its_own_method() {
    let meta = EntryMeta { kind: EntryKind::Directory, size: 0 };
    let mut recorder = Recorder::default();
    deliver(&mut recorder, WalkEvent::EnterDir { path: "/r/d".to_string(), meta, depth: 2 });
    deliver(&mut recorder, WalkEvent::VisitSymlink { path: "/r/d/l".to_string(), depth: 3 });
    deliver(
        &mut recorder,
        WalkEvent::VisitFile {
            path: "/r/d/f".to_string(),
            meta: EntryMeta { kind: EntryKind::File, size: 9 },
            depth: 3,
        },
    );
    deliver(&mut recorder, WalkEvent::Error(FsError::Io("/r/d/x".to_string(), denied_error())));
    deliver(&mut recorder, WalkEvent::ExitDir { path: "/r/d".to_string(), meta, depth: 2 });
    assert_eq!(
        recorder.log,
        vec!["enter /r/d 2", "link /r/d/l 3", "file /r/d/f 9 3", "error /r/d/x", "exit /r/d 2"]
    );
}
