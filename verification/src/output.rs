//! The lines that report totals and found files, ready to be printed.

use vstd::prelude::*;
use crate::collect_stats::{FsStats, Stats};
use crate::find::FindEntry;
use crate::text::{append_str, decimal, decimal_string, texts};

verus! {

/// How a report is rendered.
#[derive(Clone, Copy, Debug)]
pub enum OutputFormat {
    /// Line by line, sizes with a unit prefix.
    Human,
    /// Line by line, sizes in bytes.
    Raw,
    /// The value as the language's debug form shows it.
    Debug,
}

impl OutputFormat {
    /// For a format that is rendered line by line, whether sizes get a
    /// unit prefix; `None` for the debug form, which has no lines of its
    /// own.
    pub fn human(&self) -> (r: Option<bool>)
        ensures
            r == match *self {
                OutputFormat::Human => Some(true),
                OutputFormat::Raw => Some(false),
                OutputFormat::Debug => None::<bool>,
            },
    {
        match self {
            OutputFormat::Human => Some(true),
            OutputFormat::Raw => Some(false),
            OutputFormat::Debug => None,
        }
    }
}

/// The value and the number of the unit prefix after scaling: the value is
/// divided by 1000, rounding down, while it is above 1000 and a larger
/// prefix is left.
pub open spec fn scaled(value: u64, prefix: nat) -> (u64, nat)
    decreases 4 - prefix,
{
    if value > 1000 && prefix < 4 {
        scaled(value / 1000, prefix + 1)
    } else {
        (value, prefix)
    }
}

/// The unit prefixes, from none to tera.
pub open spec fn unit_prefix(prefix: nat) -> Seq<char> {
    if prefix == 0 {
        Seq::empty()
    } else if prefix == 1 {
        seq!['k']
    } else if prefix == 2 {
        seq!['M']
    } else if prefix == 3 {
        seq!['G']
    } else {
        seq!['T']
    }
}

/// A size in bytes with a unit prefix: the scaled value in decimal, the
/// prefix, and `B`.
pub open spec fn human_readable(bytes: u64) -> Seq<char> {
    let (value, prefix) = scaled(bytes, 0);
    decimal(value as nat) + unit_prefix(prefix) + seq!['B']
}

/// A size as a report shows it.
pub open spec fn size_text(bytes: u64, human: bool) -> Seq<char> {
    if human {
        human_readable(bytes)
    } else {
        decimal(bytes as nat) + " bytes"@
    }
}

/// The report of the totals, line by line. The line on the largest file is
/// there only if a file was seen.
pub open spec fn stats_text(s: Stats, human: bool) -> Seq<Seq<char>> {
    let head = seq![
        "Files: "@ + decimal(s.total_files as nat),
        "Dirs: "@ + decimal(s.total_dirs as nat),
        "Symlinks: "@ + decimal(s.total_symlinks as nat),
        "Size: "@ + size_text(s.total_size, human),
    ];
    let tail = seq!["Max depth: "@ + decimal(s.max_depth as nat)];
    match s.largest_file {
        Some((path, size)) => head + seq![
            "Largest file: "@ + path + " ("@ + size_text(size, human) + ")"@,
        ] + tail,
        None => head + tail,
    }
}

/// A size in bytes with a unit prefix, such as `12kB`.
pub fn convert_to_human_readable(bytes: u64) -> (r: String)
    ensures
        r@ == human_readable(bytes),
{
    let mut prefix: usize = 0;
    let mut value: u64 = bytes;
    while value > 1000 && prefix < 4
        invariant
            prefix <= 4,
            scaled(value, prefix as nat) == scaled(bytes, 0),
        decreases 4 - prefix,
    {
        value = value / 1000;
        prefix = prefix + 1;
    }
    let mut text = decimal_string(value);
    if prefix == 1 {
        text.push('k');
    } else if prefix == 2 {
        text.push('M');
    } else if prefix == 3 {
        text.push('G');
    } else if prefix == 4 {
        text.push('T');
    }
    assert(text@ == decimal(value as nat) + unit_prefix(prefix as nat));
    text.push('B');
    text
}

/// A size as a report shows it.
fn size_string(bytes: u64, human: bool) -> (r: String)
    ensures
        r@ == size_text(bytes, human),
{
    if human {
        convert_to_human_readable(bytes)
    } else {
        let mut text = decimal_string(bytes);
        append_str(&mut text, " bytes");
        text
    }
}

/// One line of a report: a label and a count.
fn count_line(label: &str, count: usize) -> (r: String)
    ensures
        r@ == label@ + decimal(count as nat),
{
    let mut line = label.to_owned();
    let digits = decimal_string(count as u64);
    append_str(&mut line, digits.as_str());
    line
}

/// The report of the totals, line by line, with sizes in bytes or, if
/// `human` is set, with a unit prefix.
pub fn stats_lines(stats: &FsStats, human: bool) -> (r: Vec<String>)
    ensures
        texts(r@) == stats_text(stats@, human),
{
    let mut lines: Vec<String> = Vec::new();
    lines.push(count_line("Files: ", stats.total_files));
    lines.push(count_line("Dirs: ", stats.total_dirs));
    lines.push(count_line("Symlinks: ", stats.total_symlinks));
    let mut size = "Size: ".to_owned();
    let total = size_string(stats.total_size, human);
    append_str(&mut size, total.as_str());
    lines.push(size);
    match &stats.largest_file {
        Some((path, largest)) => {
            let mut line = "Largest file: ".to_owned();
            append_str(&mut line, path.as_str());
            append_str(&mut line, " (");
            let text = size_string(*largest, human);
            append_str(&mut line, text.as_str());
            append_str(&mut line, ")");
            lines.push(line);
        },
        None => {},
    }
    lines.push(count_line("Max depth: ", stats.max_depth));
    assert(texts(lines@) =~= stats_text(stats@, human));
    lines
}

/// The report of a search: the path of each found file on a line of its
/// own.
pub fn find_lines(entries: &[FindEntry]) -> (r: Vec<String>)
    ensures
        texts(r@) == entries@.map_values(|e: FindEntry| e.name@),
{
    let mut lines: Vec<String> = Vec::new();
    let mut i: usize = 0;
    assert(entries@.take(0).map_values(|e: FindEntry| e.name@) =~= texts(lines@));
    while i < entries.len()
        invariant
            i <= entries.len(),
            texts(lines@) == entries@.take(i as int).map_values(|e: FindEntry| e.name@),
        decreases entries.len() - i,
    {
        let name = entries[i].name.clone();
        proof {
            let names = |e: FindEntry| e.name@;
            assert(texts(lines@.push(name)) =~= texts(lines@).push(name@));
            assert(entries@.take(i + 1) =~= entries@.take(i as int).push(entries@[i as int]));
            assert(entries@.take(i + 1).map_values(names) =~= entries@.take(
                i as int,
            ).map_values(names).push(name@));
        }
        lines.push(name);
        i = i + 1;
    }
    assert(entries@.take(entries.len() as int) == entries@);
    lines
}

} // verus!
