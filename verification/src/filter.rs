//! Ignore rules in the manner of a version-control ignore file: an ordered
//! list of patterns is compiled into an ordered list of rules, and a path
//! is judged by the last rule that matches it.

use vstd::prelude::*;
use crate::glob::{
    accepted_paths, compile_glob, glob_error_text, glob_language, glob_matches,
    glob_set_is_match, relative_path, strip_root,
};
use crate::text::{append_str, chars_of, lines, split_lines, string_of, texts, trim, trim_bounds};

verus! {

/// Decides, for a path of the tree being walked, whether it is left out.
pub trait PathFilter {
    fn is_ignored(&self, path: &str, is_dir: bool) -> bool;
}

/// A raw pattern taken apart: its markers and what is left of the text.
pub struct PatternParts {
    /// A leading `!`: a match re-includes the path.
    pub negated: bool,
    /// A leading `/`: the pattern holds from the root only.
    pub anchored: bool,
    /// A trailing `/`: the pattern holds for directories and what lies in them.
    pub dir_only: bool,
    /// The pattern without white space around it and without its markers.
    pub body: Seq<char>,
}

/// A compiled rule, as the contracts see it.
pub struct Rule {
    /// The glob text that the rule's matcher was compiled from.
    pub glob: Seq<char>,
    /// The rule is passed over for paths that are no directory.
    pub dir_only: bool,
    /// A match re-includes the path.
    pub negated: bool,
}

/// A pattern that was dropped: the raw pattern and the glob text that did
/// not compile.
pub struct Rejection {
    pub pattern: Seq<char>,
    pub glob: Seq<char>,
}

/// A filter as the contracts see it.
pub struct FilterView {
    pub root: Seq<char>,
    pub rules: Seq<Rule>,
    pub rejected: Seq<Rejection>,
}

/// Takes a raw pattern apart: white space is trimmed, then a leading `!`,
/// then a leading `/`, then a trailing `/` are taken off, in this order.
pub open spec fn pattern_parts(raw: Seq<char>) -> PatternParts {
    let t = trim(raw);
    let negated = t.len() > 0 && t[0] == '!';
    let t1 = if negated { t.drop_first() } else { t };
    let anchored = t1.len() > 0 && t1[0] == '/';
    let t2 = if anchored { t1.drop_first() } else { t1 };
    let dir_only = t2.len() > 0 && t2.last() == '/';
    let body = if dir_only { t2.drop_last() } else { t2 };
    PatternParts { negated, anchored, dir_only, body }
}

/// The glob text of a pattern: the body itself if anchored, else the body
/// behind `**/`, so that it holds at any depth.
pub open spec fn effective_glob(parts: PatternParts) -> Seq<char> {
    if parts.anchored {
        parts.body
    } else {
        seq!['*', '*', '/'] + parts.body
    }
}

/// The glob text for what lies below a directory matched by `glob`.
pub open spec fn descendants_glob(glob: Seq<char>) -> Seq<char> {
    glob + seq!['/', '*', '*']
}

/// The rules that one raw pattern compiles to: none if its glob text is
/// refused; one otherwise; for a directory-only pattern a second one, for
/// the directory's descendants, unless that text is refused.
pub open spec fn compile_one(raw: Seq<char>) -> Seq<Rule> {
    let parts = pattern_parts(raw);
    let glob = effective_glob(parts);
    if glob_language(glob) is None {
        Seq::empty()
    } else if parts.dir_only && glob_language(descendants_glob(glob)) is Some {
        seq![
            Rule { glob, dir_only: true, negated: parts.negated },
            Rule { glob: descendants_glob(glob), dir_only: false, negated: parts.negated },
        ]
    } else {
        seq![Rule { glob, dir_only: parts.dir_only, negated: parts.negated }]
    }
}

/// The glob texts of one raw pattern that are refused.
pub open spec fn reject_one(raw: Seq<char>) -> Seq<Rejection> {
    let parts = pattern_parts(raw);
    let glob = effective_glob(parts);
    if glob_language(glob) is None {
        seq![Rejection { pattern: raw, glob }]
    } else if parts.dir_only && glob_language(descendants_glob(glob)) is None {
        seq![Rejection { pattern: raw, glob: descendants_glob(glob) }]
    } else {
        Seq::empty()
    }
}

/// The rules of a list of raw patterns: those of each pattern, in the
/// order of the patterns.
pub open spec fn compile_all(raws: Seq<Seq<char>>) -> Seq<Rule>
    decreases raws.len(),
{
    if raws.len() == 0 {
        Seq::empty()
    } else {
        compile_all(raws.drop_last()) + compile_one(raws.last())
    }
}

/// The rejections of a list of raw patterns, in the order of the patterns.
pub open spec fn reject_all(raws: Seq<Seq<char>>) -> Seq<Rejection>
    decreases raws.len(),
{
    if raws.len() == 0 {
        Seq::empty()
    } else {
        reject_all(raws.drop_last()) + reject_one(raws.last())
    }
}

/// Whether `rule` applies to the relative path `rel` and matches it. A
/// directory-only rule applies to directories alone.
pub open spec fn rule_hits(rule: Rule, rel: Seq<char>, is_dir: bool) -> bool {
    (is_dir || !rule.dir_only) && glob_matches(rule.glob, rel)
}

/// The judgement of an ordered rule list on a relative path: the last rule
/// that hits decides, a negated one for keeping the path, any other for
/// ignoring it; with no hit the path is kept.
pub open spec fn verdict(rules: Seq<Rule>, rel: Seq<char>, is_dir: bool) -> bool
    decreases rules.len(),
{
    if rules.len() == 0 {
        false
    } else if rule_hits(rules.last(), rel, is_dir) {
        !rules.last().negated
    } else {
        verdict(rules.drop_last(), rel, is_dir)
    }
}

/// The judgement of a filter on a path as the walk reports it: a path that
/// is not below the filter's root is never ignored.
pub open spec fn ignores(filter: FilterView, path: Seq<char>, is_dir: bool) -> bool {
    match relative_path(path, filter.root) {
        Some(rel) => verdict(filter.rules, rel, is_dir),
        None => false,
    }
}

/// The lines of an ignore file that are patterns: each line trimmed, blank
/// lines and lines that start with `#` left out.
pub open spec fn pattern_lines(all: Seq<Seq<char>>) -> Seq<Seq<char>>
    decreases all.len(),
{
    if all.len() == 0 {
        Seq::empty()
    } else {
        let line = trim(all.last());
        if line.len() == 0 || line[0] == '#' {
            pattern_lines(all.drop_last())
        } else {
            pattern_lines(all.drop_last()).push(line)
        }
    }
}

/// A raw pattern taken apart, with its body as a string.
pub struct ParsedPattern {
    pub negated: bool,
    pub anchored: bool,
    pub dir_only: bool,
    pub body: String,
}

impl View for ParsedPattern {
    type V = PatternParts;

    open spec fn view(&self) -> PatternParts {
        PatternParts {
            negated: self.negated,
            anchored: self.anchored,
            dir_only: self.dir_only,
            body: self.body@,
        }
    }
}

/// Takes a raw pattern apart.
pub fn parse_pattern(raw: &str) -> (r: ParsedPattern)
    ensures
        r@ == pattern_parts(raw@),
{
    let v = chars_of(raw);
    let (start, end) = trim_bounds(&v, 0, v.len());
    assert(v@.subrange(0, v.len() as int) == v@);
    let negated = start < end && v[start] == '!';
    let a1: usize = if negated { start + 1 } else { start };
    let anchored = a1 < end && v[a1] == '/';
    let a2: usize = if anchored { a1 + 1 } else { a1 };
    let dir_only = a2 < end && v[end - 1] == '/';
    let b: usize = if dir_only { end - 1 } else { end };
    let body = string_of(&v, a2, b);
    proof {
        lemma_markers(v@, start as int, end as int);
    }
    ParsedPattern { negated, anchored, dir_only, body }
}

/// The markers of a pattern whose trimmed text is `v[start..end]`, read
/// off by position.
proof fn lemma_markers(v: Seq<char>, start: int, end: int)
    requires
        0 <= start <= end <= v.len(),
    ensures
        ({
            let t = v.subrange(start, end);
            let negated = start < end && v[start] == '!';
            let a1 = if negated { start + 1 } else { start };
            let anchored = a1 < end && v[a1] == '/';
            let a2 = if anchored { a1 + 1 } else { a1 };
            let dir_only = a2 < end && v[end - 1] == '/';
            let b = if dir_only { end - 1 } else { end };
            let t1 = if t.len() > 0 && t[0] == '!' { t.drop_first() } else { t };
            let t2 = if t1.len() > 0 && t1[0] == '/' { t1.drop_first() } else { t1 };
            &&& negated == (t.len() > 0 && t[0] == '!')
            &&& anchored == (t1.len() > 0 && t1[0] == '/')
            &&& dir_only == (t2.len() > 0 && t2.last() == '/')
            &&& v.subrange(a2, b) == if dir_only { t2.drop_last() } else { t2 }
        }),
{
    let t = v.subrange(start, end);
    let negated = start < end && v[start] == '!';
    let a1 = if negated { start + 1 } else { start };
    let t1 = if t.len() > 0 && t[0] == '!' { t.drop_first() } else { t };
    assert(t1 == v.subrange(a1, end));
    let anchored = a1 < end && v[a1] == '/';
    let a2 = if anchored { a1 + 1 } else { a1 };
    let t2 = if t1.len() > 0 && t1[0] == '/' { t1.drop_first() } else { t1 };
    assert(t2 == v.subrange(a2, end));
    let dir_only = a2 < end && v[end - 1] == '/';
    if dir_only {
        assert(t2.drop_last() == v.subrange(a2, end - 1));
    }
}

/// The glob text of a parsed pattern.
pub fn effective_text(parsed: &ParsedPattern) -> (r: String)
    ensures
        r@ == effective_glob(parsed@),
{
    if parsed.anchored {
        parsed.body.clone()
    } else {
        let mut text = String::new();
        text.push('*');
        text.push('*');
        text.push('/');
        assert(text@ == seq!['*', '*', '/']);
        append_str(&mut text, parsed.body.as_str());
        text
    }
}

/// The glob text for what lies below a directory matched by `glob`.
pub fn descendants_text(glob: &str) -> (r: String)
    ensures
        r@ == descendants_glob(glob@),
{
    let mut text = glob.to_owned();
    text.push('/');
    text.push('*');
    text.push('*');
    assert(text@ == glob@ + seq!['/', '*', '*']);
    text
}

/// One compiled rule: a matcher with the glob text it was compiled from,
/// and the two markers that steer its use.
pub struct GitignorePattern {
    glob: String,
    matcher: globset::GlobSet,
    dir: bool,
    negated: bool,
}

impl View for GitignorePattern {
    type V = Rule;

    closed spec fn view(&self) -> Rule {
        Rule { glob: self.glob@, dir_only: self.dir, negated: self.negated }
    }
}

impl GitignorePattern {
    /// The matcher is the compiled form of the glob text.
    #[verifier::type_invariant]
    spec fn matcher_is_compiled_glob(self) -> bool {
        glob_language(self.glob@) == Some(accepted_paths(self.matcher))
    }

    /// The compiled matcher of this rule.
    pub fn matcher(&self) -> (r: &globset::GlobSet)
        ensures
            glob_language(self@.glob) == Some(accepted_paths(*r)),
    {
        proof {
            use_type_invariant(self);
        }
        &self.matcher
    }

    /// The glob text that the matcher was compiled from.
    pub fn glob(&self) -> (r: &str)
        ensures
            r@ == self@.glob,
    {
        self.glob.as_str()
    }

    /// Whether the rule is passed over for paths that are no directory.
    pub fn is_dir_only(&self) -> (r: bool)
        ensures
            r == self@.dir_only,
    {
        self.dir
    }

    /// Whether a match of this rule re-includes the path.
    pub fn is_negated(&self) -> (r: bool)
        ensures
            r == self@.negated,
    {
        self.negated
    }

    /// Whether the rule applies to `rel`, a path relative to the root, and
    /// matches it.
    pub fn hits(&self, rel: &str, is_dir: bool) -> (r: bool)
        ensures
            r == rule_hits(self@, rel@, is_dir),
    {
        proof {
            use_type_invariant(self);
        }
        if self.dir && !is_dir {
            false
        } else {
            glob_set_is_match(&self.matcher, rel)
        }
    }
}

/// The judgement after one more rule: a hit overwrites what earlier rules
/// said, whichever way; without a hit it stands.
pub fn settle(earlier: bool, hit: bool, negated: bool) -> (r: bool)
    ensures
        r == if hit { !negated } else { earlier },
{
    if hit {
        !negated
    } else {
        earlier
    }
}

/// A pattern that was dropped because a glob text made from it did not
/// compile.
pub struct PatternError {
    pattern: String,
    glob: String,
    error: globset::Error,
}

impl View for PatternError {
    type V = Rejection;

    closed spec fn view(&self) -> Rejection {
        Rejection { pattern: self.pattern@, glob: self.glob@ }
    }
}

/// The warning for a dropped pattern, given the engine's own words for the
/// cause.
pub open spec fn warning_text(pattern: Seq<char>, cause: Seq<char>) -> Seq<char> {
    "Warning: Invalid ignore pattern '"@ + pattern + "': "@ + cause
}

/// The warning for the dropped pattern `pattern` with cause `cause`.
pub fn warning_line(pattern: &str, cause: &str) -> (r: String)
    ensures
        r@ == warning_text(pattern@, cause@),
{
    let mut line = String::new();
    append_str(&mut line, "Warning: Invalid ignore pattern '");
    append_str(&mut line, pattern);
    append_str(&mut line, "': ");
    append_str(&mut line, cause);
    line
}

impl PatternError {
    /// The raw pattern as it was given.
    pub fn pattern(&self) -> (r: &str)
        ensures
            r@ == self@.pattern,
    {
        self.pattern.as_str()
    }

    /// The glob text that did not compile.
    pub fn glob(&self) -> (r: &str)
        ensures
            r@ == self@.glob,
    {
        self.glob.as_str()
    }

    /// The engine's error, as the contracts see it.
    pub closed spec fn cause(&self) -> globset::Error {
        self.error
    }

    /// The engine's error.
    pub fn error(&self) -> (r: &globset::Error)
        ensures
            *r == self.cause(),
    {
        &self.error
    }

    /// The warning for this pattern: fixed words, the raw pattern, and the
    /// engine's own words for the cause.
    pub fn message(&self) -> (r: String)
        ensures
            exists|cause: Seq<char>| r@ == warning_text(self@.pattern, cause),
    {
        let cause = glob_error_text(&self.error);
        let line = warning_line(self.pattern.as_str(), cause.as_str());
        assert(line@ == warning_text(self@.pattern, cause@));
        line
    }
}

/// The views of a list of compiled rules.
pub open spec fn rule_views(patterns: Seq<GitignorePattern>) -> Seq<Rule> {
    patterns.map_values(|p: GitignorePattern| p@)
}

/// The views of a list of dropped patterns.
pub open spec fn rejection_views(errors: Seq<PatternError>) -> Seq<Rejection> {
    errors.map_values(|e: PatternError| e@)
}

/// Compiles one raw pattern: its rules are appended to `rules`, what was
/// refused of it to `rejected`.
pub fn compile_pattern(
    raw: &str,
    rules: &mut Vec<GitignorePattern>,
    rejected: &mut Vec<PatternError>,
)
    ensures
        rule_views(final(rules)@) == rule_views(old(rules)@) + compile_one(raw@),
        rejection_views(final(rejected)@) == rejection_views(old(rejected)@) + reject_one(raw@),
{
    let parsed = parse_pattern(raw);
    let glob = effective_text(&parsed);
    let ghost rules0 = rule_views(rules@);
    let ghost rejected0 = rejection_views(rejected@);
    match compile_glob(glob.as_str()) {
        Err(error) => {
            let dropped = PatternError { pattern: raw.to_owned(), glob, error };
            proof {
                assert(rejection_views(rejected@.push(dropped)) == rejected0.push(dropped@));
                assert(rejected0.push(dropped@) == rejected0 + reject_one(raw@));
                assert(rules0 + compile_one(raw@) == rules0);
            }
            rejected.push(dropped);
        },
        Ok(matcher) => {
            if parsed.dir_only {
                let below = descendants_text(glob.as_str());
                let first = GitignorePattern {
                    glob,
                    matcher,
                    dir: true,
                    negated: parsed.negated,
                };
                proof {
                    assert(rule_views(rules@.push(first)) == rules0.push(first@));
                }
                rules.push(first);
                match compile_glob(below.as_str()) {
                    Err(error) => {
                        let dropped = PatternError {
                            pattern: raw.to_owned(),
                            glob: below,
                            error,
                        };
                        proof {
                            assert(rejection_views(rejected@.push(dropped)) == rejected0.push(
                                dropped@,
                            ));
                            assert(rejected0.push(dropped@) == rejected0 + reject_one(raw@));
                            assert(rules0.push(first@) == rules0 + compile_one(raw@));
                        }
                        rejected.push(dropped);
                    },
                    Ok(matcher_below) => {
                        let second = GitignorePattern {
                            glob: below,
                            matcher: matcher_below,
                            dir: false,
                            negated: parsed.negated,
                        };
                        proof {
                            assert(rule_views(rules@.push(second)) == rules0.push(first@).push(
                                second@,
                            ));
                            assert(rules0.push(first@).push(second@) == rules0 + compile_one(raw@));
                            assert(rejected0 + reject_one(raw@) == rejected0);
                        }
                        rules.push(second);
                    },
                }
            } else {
                let only = GitignorePattern { glob, matcher, dir: false, negated: parsed.negated };
                proof {
                    assert(rule_views(rules@.push(only)) == rules0.push(only@));
                    assert(rules0.push(only@) == rules0 + compile_one(raw@));
                    assert(rejected0 + reject_one(raw@) == rejected0);
                }
                rules.push(only);
            }
        },
    }
}

/// An ordered list of compiled rules for the tree below one root.
pub struct GitIgnoreFilter {
    root: String,
    patterns: Vec<GitignorePattern>,
    rejected: Vec<PatternError>,
}

impl View for GitIgnoreFilter {
    type V = FilterView;

    closed spec fn view(&self) -> FilterView {
        FilterView {
            root: self.root@,
            rules: rule_views(self.patterns@),
            rejected: rejection_views(self.rejected@),
        }
    }
}

impl GitIgnoreFilter {
    /// Compiles `patterns`, in their order, into a filter for the tree
    /// below `root`. A pattern whose glob text is refused is dropped and
    /// recorded; the others are not affected.
    pub fn new(root: &str, patterns: &[String]) -> (r: Self)
        ensures
            r@.root == root@,
            r@.rules == compile_all(texts(patterns@)),
            r@.rejected == reject_all(texts(patterns@)),
    {
        let mut rules: Vec<GitignorePattern> = Vec::new();
        let mut rejected: Vec<PatternError> = Vec::new();
        let mut i: usize = 0;
        assert(texts(patterns@).take(0) == Seq::<Seq<char>>::empty());
        assert(rule_views(rules@) == Seq::<Rule>::empty());
        assert(rejection_views(rejected@) == Seq::<Rejection>::empty());
        while i < patterns.len()
            invariant
                i <= patterns.len(),
                rule_views(rules@) == compile_all(texts(patterns@).take(i as int)),
                rejection_views(rejected@) == reject_all(texts(patterns@).take(i as int)),
            decreases patterns.len() - i,
        {
            proof {
                let all = texts(patterns@);
                assert(all.take(i + 1).drop_last() == all.take(i as int));
                assert(all.take(i + 1).last() == patterns@[i as int]@);
            }
            compile_pattern(patterns[i].as_str(), &mut rules, &mut rejected);
            i = i + 1;
        }
        assert(texts(patterns@).take(patterns.len() as int) == texts(patterns@));
        GitIgnoreFilter { root: root.to_owned(), patterns: rules, rejected }
    }

    /// The filter for the tree below `root` from the text of its ignore
    /// file, if it has a readable one, followed by the caller's own
    /// patterns, which thus take precedence.
    pub fn from_gitignore(root: &str, gitignore: Option<&str>, cli_patterns: &[String]) -> (r:
        Self)
        ensures
            r@.root == root@,
            r@.rules == compile_all(ignore_sources(gitignore, texts(cli_patterns@))),
            r@.rejected == reject_all(ignore_sources(gitignore, texts(cli_patterns@))),
    {
        let mut patterns: Vec<String> = match gitignore {
            Some(text) => parse_gitignore(text),
            None => Vec::new(),
        };
        let ghost from_file = texts(patterns@);
        let mut i: usize = 0;
        while i < cli_patterns.len()
            invariant
                i <= cli_patterns.len(),
                texts(patterns@) == from_file + texts(cli_patterns@).take(i as int),
            decreases cli_patterns.len() - i,
        {
            let ghost before = patterns@;
            let copy = cli_patterns[i].clone();
            patterns.push(copy);
            proof {
                assert(texts(before.push(copy)) == texts(before).push(copy@));
                assert(texts(cli_patterns@).take(i + 1) == texts(cli_patterns@).take(
                    i as int,
                ).push(cli_patterns@[i as int]@));
            }
            i = i + 1;
        }
        assert(texts(cli_patterns@).take(cli_patterns.len() as int) == texts(cli_patterns@));
        Self::new(root, patterns.as_slice())
    }

    /// The compiled rules, in order.
    pub fn patterns(&self) -> (r: &[GitignorePattern])
        ensures
            rule_views(r@) == self@.rules,
    {
        self.patterns.as_slice()
    }

    /// The patterns that were dropped, in order.
    pub fn diagnostics(&self) -> (r: &[PatternError])
        ensures
            rejection_views(r@) == self@.rejected,
    {
        self.rejected.as_slice()
    }

    /// The root that paths are taken relative to.
    pub fn root(&self) -> (r: &str)
        ensures
            r@ == self@.root,
    {
        self.root.as_str()
    }

    /// The judgement on `rel`, a path already relative to the root: the
    /// rules are gone through in order, and each hit overwrites the
    /// judgement so far.
    pub fn verdict_on(&self, rel: &str, is_dir: bool) -> (r: bool)
        ensures
            r == verdict(self@.rules, rel@, is_dir),
    {
        let mut ignored = false;
        let mut i: usize = 0;
        let ghost rules = rule_views(self.patterns@);
        assert(rules.take(0) == Seq::<Rule>::empty());
        while i < self.patterns.len()
            invariant
                i <= self.patterns.len(),
                rules == rule_views(self.patterns@),
                ignored == verdict(rules.take(i as int), rel@, is_dir),
            decreases self.patterns.len() - i,
        {
            let pattern = &self.patterns[i];
            proof {
                assert(rules.take(i + 1).drop_last() == rules.take(i as int));
                assert(rules.take(i + 1).last() == pattern@);
            }
            let hit = pattern.hits(rel, is_dir);
            ignored = settle(ignored, hit, pattern.is_negated());
            i = i + 1;
        }
        assert(rules.take(self.patterns.len() as int) == rules);
        ignored
    }
}

/// The raw patterns behind a filter built from an ignore file's text and
/// the caller's patterns: the file's pattern lines first.
pub open spec fn ignore_sources(gitignore: Option<&str>, cli: Seq<Seq<char>>) -> Seq<Seq<char>> {
    match gitignore {
        Some(text) => pattern_lines(lines(text@)) + cli,
        None => cli,
    }
}

/// The patterns in the text of an ignore file, one per line: each line is
/// trimmed; blank lines and lines that start with `#` are no patterns.
pub fn parse_gitignore(text: &str) -> (r: Vec<String>)
    ensures
        texts(r@) == pattern_lines(lines(text@)),
{
    let found = split_lines(text);
    let ghost all = texts(found@);
    let mut patterns: Vec<String> = Vec::new();
    let mut i: usize = 0;
    assert(all.take(0) == Seq::<Seq<char>>::empty());
    assert(texts(patterns@) == Seq::<Seq<char>>::empty());
    while i < found.len()
        invariant
            i <= found.len(),
            all == texts(found@),
            texts(patterns@) == pattern_lines(all.take(i as int)),
        decreases found.len() - i,
    {
        let v = chars_of(found[i].as_str());
        let (a, b) = trim_bounds(&v, 0, v.len());
        proof {
            assert(v@.subrange(0, v.len() as int) == v@);
            assert(all.take(i + 1).drop_last() == all.take(i as int));
            assert(all.take(i + 1).last() == found@[i as int]@);
        }
        if a < b && v[a] != '#' {
            let line = string_of(&v, a, b);
            proof {
                assert(texts(patterns@.push(line)) == texts(patterns@).push(line@));
            }
            patterns.push(line);
        }
        i = i + 1;
    }
    assert(all.take(found.len() as int) == all);
    patterns
}

impl PathFilter for GitIgnoreFilter {
    /// Whether `path` is left out: never if it is not below the root;
    /// otherwise as the last rule that hits its relative path says.
    fn is_ignored(&self, path: &str, is_dir: bool) -> (r: bool)
        ensures
            r == ignores(self@, path@, is_dir),
    {
        match strip_root(path, self.root.as_str()) {
            Some(rel) => self.verdict_on(rel.as_str(), is_dir),
            None => false,
        }
    }
}

/// A path that no rule hits is not ignored.
pub proof fn law_unmatched_never_ignored(rules: Seq<Rule>, rel: Seq<char>, is_dir: bool)
    requires
        forall|i: int| 0 <= i < rules.len() ==> !rule_hits(#[trigger] rules[i], rel, is_dir),
    ensures
        !verdict(rules, rel, is_dir),
    decreases rules.len(),
{
    if rules.len() > 0 {
        assert(!rule_hits(rules[rules.len() - 1], rel, is_dir));
        law_unmatched_never_ignored(rules.drop_last(), rel, is_dir);
    }
}

/// An entry is not ignored if it lies outside the root, or if no rule hits
/// its relative path.
pub proof fn law_unmatched_entry_never_ignored(filter: FilterView, path: Seq<char>, is_dir: bool)
    requires
        relative_path(path, filter.root) matches Some(rel) ==> forall|i: int|
            0 <= i < filter.rules.len() ==> !rule_hits(#[trigger] filter.rules[i], rel, is_dir),
    ensures
        !ignores(filter, path, is_dir),
{
    if let Some(rel) = relative_path(path, filter.root) {
        law_unmatched_never_ignored(filter.rules, rel, is_dir);
    }
}

/// Last match wins: the rule at `k` hits and none behind it does, so the
/// rule at `k` decides, whatever the rules before it say.
pub proof fn law_last_match_wins(rules: Seq<Rule>, k: int, rel: Seq<char>, is_dir: bool)
    requires
        0 <= k < rules.len(),
        rule_hits(rules[k], rel, is_dir),
        forall|j: int| k < j < rules.len() ==> !rule_hits(#[trigger] rules[j], rel, is_dir),
    ensures
        verdict(rules, rel, is_dir) == !rules[k].negated,
    decreases rules.len(),
{
    if k < rules.len() - 1 {
        assert(!rule_hits(rules[rules.len() - 1], rel, is_dir));
        law_last_match_wins(rules.drop_last(), k, rel, is_dir);
    }
}

/// Rules that come later take precedence: where a rule of `later` hits,
/// `later` alone decides; where none does, `earlier` decides.
pub proof fn law_later_rules_take_precedence(
    earlier: Seq<Rule>,
    later: Seq<Rule>,
    rel: Seq<char>,
    is_dir: bool,
)
    ensures
        verdict(earlier + later, rel, is_dir) == if exists|i: int|
            0 <= i < later.len() && rule_hits(#[trigger] later[i], rel, is_dir) {
            verdict(later, rel, is_dir)
        } else {
            verdict(earlier, rel, is_dir)
        },
    decreases later.len(),
{
    if later.len() == 0 {
        assert(earlier + later == earlier);
    } else {
        let all = earlier + later;
        assert(all.last() == later.last());
        assert(all.drop_last() == earlier + later.drop_last());
        if rule_hits(later.last(), rel, is_dir) {
            assert(rule_hits(later[later.len() - 1], rel, is_dir));
        } else {
            law_later_rules_take_precedence(earlier, later.drop_last(), rel, is_dir);
            if exists|i: int| 0 <= i < later.len() && rule_hits(#[trigger] later[i], rel, is_dir) {
                let i = choose|i: int|
                    0 <= i < later.len() && rule_hits(#[trigger] later[i], rel, is_dir);
                assert(later.drop_last()[i] == later[i]);
            } else {
                assert forall|i: int| 0 <= i < later.drop_last().len() implies !rule_hits(
                    #[trigger] later.drop_last()[i],
                    rel,
                    is_dir,
                ) by {
                    assert(later.drop_last()[i] == later[i]);
                }
            }
        }
    }
}

/// Negated rules alone ignore nothing.
pub proof fn law_negations_never_ignore(rules: Seq<Rule>, rel: Seq<char>, is_dir: bool)
    requires
        forall|i: int| 0 <= i < rules.len() ==> (#[trigger] rules[i]).negated,
    ensures
        !verdict(rules, rel, is_dir),
    decreases rules.len(),
{
    if rules.len() > 0 {
        assert(rules[rules.len() - 1].negated);
        law_negations_never_ignore(rules.drop_last(), rel, is_dir);
    }
}

/// A directory-only rule never hits a path that is no directory, so for
/// such a path the judgement is that of the other rules alone.
pub proof fn law_directory_rules_spare_files(rules: Seq<Rule>, rel: Seq<char>)
    ensures
        forall|i: int| 0 <= i < rules.len() && (#[trigger] rules[i]).dir_only ==> !rule_hits(
            rules[i],
            rel,
            false,
        ),
        verdict(rules, rel, false) == verdict(rules.filter(|r: Rule| !r.dir_only), rel, false),
    decreases rules.len(),
{
    let keep = |r: Rule| !r.dir_only;
    reveal(Seq::filter);
    if rules.len() > 0 {
        law_directory_rules_spare_files(rules.drop_last(), rel);
        if keep(rules.last()) {
            assert(rules.filter(keep) == rules.drop_last().filter(keep).push(rules.last()));
            assert(rules.filter(keep).drop_last() == rules.drop_last().filter(keep));
        }
    }
}

/// Compiling keeps the order of the patterns, and each pattern compiles
/// by itself: the rules of a list are those of its front followed by
/// those of its back.
pub proof fn law_compile_keeps_order(front: Seq<Seq<char>>, back: Seq<Seq<char>>)
    ensures
        compile_all(front + back) == compile_all(front) + compile_all(back),
        reject_all(front + back) == reject_all(front) + reject_all(back),
    decreases back.len(),
{
    if back.len() == 0 {
        assert(front + back == front);
        assert(compile_all(front) + compile_all(back) == compile_all(front));
        assert(reject_all(front) + reject_all(back) == reject_all(front));
    } else {
        let all = front + back;
        assert(all.last() == back.last());
        assert(all.drop_last() == front + back.drop_last());
        law_compile_keeps_order(front, back.drop_last());
        assert((compile_all(front) + compile_all(back.drop_last())) + compile_one(back.last())
            == compile_all(front) + (compile_all(back.drop_last()) + compile_one(back.last())));
        assert((reject_all(front) + reject_all(back.drop_last())) + reject_one(back.last())
            == reject_all(front) + (reject_all(back.drop_last()) + reject_one(back.last())));
    }
}

/// The caller's patterns take precedence over those of the ignore file:
/// where a rule made of the caller's patterns hits, these decide alone;
/// where none does, the file's patterns decide.
pub proof fn law_callers_patterns_take_precedence(
    gitignore: Option<&str>,
    cli: Seq<Seq<char>>,
    rel: Seq<char>,
    is_dir: bool,
)
    ensures
        verdict(compile_all(ignore_sources(gitignore, cli)), rel, is_dir) == if exists|i: int|
            0 <= i < compile_all(cli).len() && rule_hits(
                #[trigger] compile_all(cli)[i],
                rel,
                is_dir,
            ) {
            verdict(compile_all(cli), rel, is_dir)
        } else {
            verdict(compile_all(ignore_sources(gitignore, Seq::empty())), rel, is_dir)
        },
{
    let from_file = ignore_sources(gitignore, Seq::empty());
    assert(ignore_sources(gitignore, cli) =~= from_file + cli);
    law_compile_keeps_order(from_file, cli);
    law_later_rules_take_precedence(compile_all(from_file), compile_all(cli), rel, is_dir);
}

/// A directory-only pattern reaches a path that is no directory only as a
/// descendant: such a path is ignored by the pattern alone only if the
/// glob for the directory's descendants matches it.
pub proof fn law_directory_pattern_spares_files(raw: Seq<char>, rel: Seq<char>)
    requires
        pattern_parts(raw).dir_only,
        !glob_matches(descendants_glob(effective_glob(pattern_parts(raw))), rel),
    ensures
        !verdict(compile_one(raw), rel, false),
{
    let rules = compile_one(raw);
    assert forall|i: int| 0 <= i < rules.len() implies !rule_hits(
        #[trigger] rules[i],
        rel,
        false,
    ) by {}
    law_unmatched_never_ignored(rules, rel, false);
}

} // verus!
