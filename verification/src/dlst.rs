//! Data lister: renders the finally gathered keep list as a grouped,
//! colour-coded tree for the user to review. The driver gathers one
//! [`EntryInfo`] per path (the only filesystem reads involved) and prints
//! the returned lines.

use vstd::prelude::*;
use vstd::string::*;
use colored::Colorize;
use crate::pathstr::{
    parent_seq, parent_of, file_name_seq, file_name_of, is_suffix_of, str_ends_with, str_contains,
    str_eq,
};
use crate::resources::is_archive_name;

verus! {

/// What one listed path looks like on disk, gathered by the driver.
pub struct EntryInfo {
    /// The path itself.
    pub path: String,
    /// File size in bytes.
    pub size: u64,
    /// The path is a directory.
    pub is_dir: bool,
    /// The path is a symlink.
    pub is_symlink: bool,
    /// The raw link target; meaningful only for symlinks.
    pub link_target: String,
    /// Some execute bit is set.
    pub executable: bool,
}

/// The uppercase folding of a string. What it is for given characters only
/// `str::to_uppercase` decides; it depends on the characters alone.
pub uninterp spec fn upper_of(s: Seq<char>) -> Seq<char>;

/// Relies on str::to_uppercase: the result is a function of the characters
/// alone; an empty string stays empty.
#[verifier::external_body]
fn to_upper(s: &str) -> (r: String)
    ensures
        r@ == upper_of(s@),
        s@.len() == 0 ==> r@.len() == 0,
{
    s.to_uppercase()
}

/// The human-readable byte-count text. What it is for a given count only
/// bytesize's default rendering decides; it depends on the count alone.
pub uninterp spec fn human_size_of(n: u64) -> Seq<char>;

/// Relies on bytesize::ByteSize::b and its default display: a pure
/// rendering of the byte count.
#[verifier::external_body]
fn human_size(n: u64) -> (r: String)
    ensures
        r@ == human_size_of(n),
{
    bytesize::ByteSize::b(n).to_string()
}

/// Relies on colored's bright_blue and bold: styling may add escape codes
/// around the text but never shortens it.
#[verifier::external_body]
fn paint_bright_blue_bold(s: &str) -> (r: String)
    ensures
        r@.len() >= s@.len(),
{
    s.bright_blue().bold().to_string()
}

/// Relies on colored's blue: styling may add escape codes around the text
/// but never shortens it.
#[verifier::external_body]
fn paint_blue(s: &str) -> (r: String)
    ensures
        r@.len() >= s@.len(),
{
    s.blue().to_string()
}

/// Relies on colored's bright_cyan and bold: styling may add escape codes
/// around the text but never shortens it.
#[verifier::external_body]
fn paint_bright_cyan_bold(s: &str) -> (r: String)
    ensures
        r@.len() >= s@.len(),
{
    s.bright_cyan().bold().to_string()
}

/// Relies on colored's yellow and dimmed: styling may add escape codes
/// around the text but never shortens it.
#[verifier::external_body]
fn paint_yellow_dimmed(s: &str) -> (r: String)
    ensures
        r@.len() >= s@.len(),
{
    s.yellow().dimmed().to_string()
}

/// Relies on colored's cyan: styling may add escape codes around the text
/// but never shortens it.
#[verifier::external_body]
fn paint_cyan(s: &str) -> (r: String)
    ensures
        r@.len() >= s@.len(),
{
    s.cyan().to_string()
}

/// Relies on colored's bright_green and bold: styling may add escape codes
/// around the text but never shortens it.
#[verifier::external_body]
fn paint_bright_green_bold(s: &str) -> (r: String)
    ensures
        r@.len() >= s@.len(),
{
    s.bright_green().bold().to_string()
}

/// Relies on colored's green: styling may add escape codes around the text
/// but never shortens it.
#[verifier::external_body]
fn paint_green(s: &str) -> (r: String)
    ensures
        r@.len() >= s@.len(),
{
    s.green().to_string()
}

/// Relies on colored's bright_red: styling may add escape codes around the
/// text but never shortens it.
#[verifier::external_body]
fn paint_bright_red(s: &str) -> (r: String)
    ensures
        r@.len() >= s@.len(),
{
    s.bright_red().to_string()
}

/// Relies on colored's bright_red and bold: styling may add escape codes
/// around the text but never shortens it.
#[verifier::external_body]
fn paint_bright_red_bold(s: &str) -> (r: String)
    ensures
        r@.len() >= s@.len(),
{
    s.bright_red().bold().to_string()
}

/// The decimal digit character for a value below ten.
pub open spec fn digit_char(d: nat) -> char {
    if d == 0 {
        '0'
    } else if d == 1 {
        '1'
    } else if d == 2 {
        '2'
    } else if d == 3 {
        '3'
    } else if d == 4 {
        '4'
    } else if d == 5 {
        '5'
    } else if d == 6 {
        '6'
    } else if d == 7 {
        '7'
    } else if d == 8 {
        '8'
    } else {
        '9'
    }
}

/// The decimal digit string of a number, most significant digit first.
pub open spec fn dec_digits(n: nat) -> Seq<char>
    decreases n,
{
    if n < 10 {
        seq![digit_char(n)]
    } else {
        dec_digits(n / 10).push(digit_char(n % 10))
    }
}

/// Renders a number in decimal.
pub fn usize_to_string(n: usize) -> (r: String)
    ensures
        r@ == dec_digits(n as nat),
    decreases n,
{
    let d: usize = n % 10;
    let ds: &str = if d == 0 {
        "0"
    } else if d == 1 {
        "1"
    } else if d == 2 {
        "2"
    } else if d == 3 {
        "3"
    } else if d == 4 {
        "4"
    } else if d == 5 {
        "5"
    } else if d == 6 {
        "6"
    } else if d == 7 {
        "7"
    } else if d == 8 {
        "8"
    } else {
        "9"
    };
    proof {
        reveal_strlit("0");
        reveal_strlit("1");
        reveal_strlit("2");
        reveal_strlit("3");
        reveal_strlit("4");
        reveal_strlit("5");
        reveal_strlit("6");
        reveal_strlit("7");
        reveal_strlit("8");
        reveal_strlit("9");
        assert(ds@ =~= seq![digit_char((n % 10) as nat)]);
    }
    if n < 10 {
        ds.to_owned()
    } else {
        let mut r = usize_to_string(n / 10);
        r.append(ds);
        proof {
            assert(r@ =~= dec_digits(n as nat));
        }
        r
    }
}

/// The sum of the entry sizes.
pub open spec fn sum_sizes(s: Seq<EntryInfo>) -> int
    decreases s.len(),
{
    if s.len() == 0 {
        0
    } else {
        sum_sizes(s.drop_last()) + s.last().size
    }
}

proof fn lemma_sum_take_succ(s: Seq<EntryInfo>, i: int)
    requires
        0 <= i < s.len(),
    ensures
        sum_sizes(s.take(i + 1)) == sum_sizes(s.take(i)) + s[i].size,
{
    assert(s.take(i + 1).drop_last() =~= s.take(i));
}

proof fn lemma_sum_take_le(s: Seq<EntryInfo>, i: int)
    requires
        0 <= i <= s.len(),
    ensures
        sum_sizes(s.take(i)) <= sum_sizes(s),
    decreases s.len() - i,
{
    if i == s.len() {
        assert(s.take(i) =~= s);
    } else {
        lemma_sum_take_succ(s, i);
        lemma_sum_take_le(s, i + 1);
    }
}

proof fn lemma_sum_nonneg(s: Seq<EntryInfo>)
    ensures
        sum_sizes(s) >= 0,
    decreases s.len(),
{
    if s.len() != 0 {
        lemma_sum_nonneg(s.drop_last());
    }
}

/// A documentation-file suffix.
pub open spec fn is_doc_name(s: Seq<char>) -> bool {
    ||| is_suffix_of(".md"@, s)
    ||| is_suffix_of(".rst"@, s)
    ||| is_suffix_of(".txt"@, s)
    ||| is_suffix_of(".doc"@, s)
    ||| is_suffix_of(".html"@, s)
}

/// A source or header file suffix.
pub open spec fn is_src_name(s: Seq<char>) -> bool {
    ||| is_suffix_of(".h"@, s)
    ||| is_suffix_of(".hpp"@, s)
    ||| is_suffix_of(".c"@, s)
    ||| is_suffix_of(".cpp"@, s)
}

/// A compressed manual-page suffix.
pub open spec fn is_manpage_name(s: Seq<char>) -> bool {
    ||| is_suffix_of(".1.gz"@, s)
    ||| is_suffix_of(".3.gz"@, s)
    ||| is_suffix_of(".5.gz"@, s)
    ||| is_suffix_of(".8.gz"@, s)
}

/// A well-known documentation stub filename.
pub open spec fn is_stub_name(s: Seq<char>) -> bool {
    ||| s == "README"@
    ||| s == "LICENSE"@
    ||| s == "COPYING"@
    ||| s == "TODO"@
    ||| s == "NEWS"@
    ||| s == "AUTHORS"@
    ||| s == "CHANGELOG"@
    ||| s == "INSTALL"@
}

/// A filename that is likely junk in a trimmed image: documentation,
/// archives, sources, manual pages, known stub files, or a filename that is
/// entirely its own uppercase folding (a stub that does not look like a
/// known one).
pub open spec fn is_junk_name(s: Seq<char>) -> bool {
    ||| is_doc_name(s)
    ||| is_archive_name(s)
    ||| is_src_name(s)
    ||| is_manpage_name(s)
    ||| is_stub_name(s)
    ||| s == upper_of(s)
}

/// The closing summary line of the listing.
pub open spec fn summary_line(count: nat, total: u64) -> Seq<char> {
    "\nPreserved "@ + dec_digits(count) + " files, taking space: "@ + human_size_of(total) + "\n"@
}

/// Lister for the finally gathered information, displayed on the screen for
/// the user's review.
pub struct ContentFormatter<'a> {
    /// The entries to list, in the already-sorted display order.
    pub fs_data: &'a Vec<EntryInfo>,
    /// The directory group currently open.
    pub last_dir: String,
}

impl<'a> ContentFormatter<'a> {
    /// A lister over the given entries.
    pub fn new(fs_data: &'a Vec<EntryInfo>) -> (f: ContentFormatter<'a>)
        ensures
            f.fs_data == fs_data,
            f.last_dir@.len() == 0,
    {
        ContentFormatter { fs_data, last_dir: String::new() }
    }

    /// The filename looks like junk that survived into the keep set.
    pub fn is_potential_junk(&self, fname: &str) -> (r: bool)
        ensures
            r == is_junk_name(fname@),
    {
        if str_ends_with(fname, ".md") || str_ends_with(fname, ".rst") || str_ends_with(
            fname,
            ".txt",
        ) || str_ends_with(fname, ".doc") || str_ends_with(fname, ".html") {
            return true;
        }
        if crate::resources::has_archive_suffix(fname) {
            return true;
        }
        if str_ends_with(fname, ".h") || str_ends_with(fname, ".hpp") || str_ends_with(fname, ".c")
            || str_ends_with(fname, ".cpp") {
            return true;
        }
        if str_ends_with(fname, ".1.gz") || str_ends_with(fname, ".3.gz") || str_ends_with(
            fname,
            ".5.gz",
        ) || str_ends_with(fname, ".8.gz") {
            return true;
        }
        if str_eq(fname, "README") || str_eq(fname, "LICENSE") || str_eq(fname, "COPYING")
            || str_eq(fname, "TODO") || str_eq(fname, "NEWS") || str_eq(fname, "AUTHORS") || str_eq(
            fname,
            "CHANGELOG",
        ) || str_eq(fname, "INSTALL") {
            return true;
        }
        let up = to_upper(fname);
        str_eq(fname, up.as_str())
    }

    /// Splits an entry into its directory and filename parts; a directory
    /// entry gets a painted group header and an empty filename.
    pub fn dn(&self, e: &EntryInfo) -> (r: (String, String))
        ensures
            !e.is_dir ==> r.0@ == parent_seq(e.path@) && r.1@ == file_name_seq(e.path@),
            e.is_dir ==> r.0@.len() >= parent_seq(e.path@).len() && r.1@.len() == 0,
    {
        let dname = parent_of(e.path.as_str());
        let fname = file_name_of(e.path.as_str());
        if e.is_dir {
            return (paint_bright_blue_bold(dname.as_str()), String::new());
        }
        (dname, fname)
    }

    /// Renders the listing: entries grouped by directory under painted
    /// headers, symlinks with their targets, executables and shared objects
    /// highlighted, junk flagged, and a closing line with the file count
    /// and the total size.
    pub fn format(&mut self) -> (lines: Vec<String>)
        requires
            old(self).fs_data@.len() > 0,
            sum_sizes(old(self).fs_data@) <= u64::MAX,
        ensures
            final(self).fs_data == old(self).fs_data,
            old(self).fs_data@.len() + 1 <= lines@.len() <= 3 * old(self).fs_data@.len() + 1,
            lines@[lines@.len() - 1]@ == summary_line(
                old(self).fs_data@.len(),
                sum_sizes(old(self).fs_data@) as u64,
            ),
    {
        let data: &Vec<EntryInfo> = self.fs_data;
        let d_len: usize = data.len() - 1;
        let mut t_size: u64 = 0;
        let mut lines: Vec<String> = Vec::new();
        let mut pi: usize = 0;
        proof {
            assert(data@.take(0) =~= Seq::<EntryInfo>::empty());
        }
        while pi < data.len()
            invariant
                self.fs_data == old(self).fs_data,
                data == old(self).fs_data,
                pi <= data@.len(),
                data@.len() > 0,
                sum_sizes(data@) <= u64::MAX,
                d_len + 1 == data@.len(),
                t_size == sum_sizes(data@.take(pi as int)),
                pi <= lines@.len() <= 3 * pi,
            decreases data@.len() - pi,
        {
            let e = &data[pi];
            proof {
                lemma_sum_take_succ(data@, pi as int);
                lemma_sum_take_le(data@, pi + 1);
                lemma_sum_nonneg(data@.take(pi as int));
            }
            t_size = t_size + e.size;
            let (dname, mut fname) = self.dn(e);
            if !str_eq(self.last_dir.as_str(), dname.as_str()) {
                self.last_dir = dname.clone();
                let mut hdr = "\n".to_owned();
                hdr.append(paint_bright_blue_bold(self.last_dir.as_str()).as_str());
                lines.push(hdr);
                lines.push(paint_blue("──┬──┄┄╌╌ ╌  ╌"));
            }
            let use_closing_leaf = if pi == d_len {
                true
            } else {
                let next_parent = parent_of(data[pi + 1].path.as_str());
                !str_eq(dname.as_str(), next_parent.as_str())
            };
            let leaf: &str = if use_closing_leaf {
                "  ╰─"
            } else {
                "  ├─"
            };
            let mut line = paint_blue(leaf);
            if e.is_symlink {
                line.append(" ");
                line.append(paint_bright_cyan_bold(fname.as_str()).as_str());
                line.append(" ");
                line.append(paint_yellow_dimmed("⮕").as_str());
                line.append(" ");
                line.append(paint_cyan(e.link_target.as_str()).as_str());
            } else if e.executable {
                line.append(" ");
                line.append(paint_bright_green_bold(fname.as_str()).as_str());
            } else {
                if str_ends_with(fname.as_str(), ".so") || str_contains(fname.as_str(), ".so.") {
                    fname = paint_green(fname.as_str());
                } else if self.is_potential_junk(fname.as_str()) {
                    let mut warn = paint_bright_red_bold("⚠️");
                    warn.append("  ");
                    warn.append(paint_bright_red(fname.as_str()).as_str());
                    fname = warn;
                }
                line.append(" ");
                line.append(fname.as_str());
            }
            lines.push(line);
            pi += 1;
        }
        proof {
            assert(data@.take(data@.len() as int) =~= data@);
        }
        let mut summary = "\nPreserved ".to_owned();
        summary.append(usize_to_string(d_len + 1).as_str());
        summary.append(" files, taking space: ");
        summary.append(human_size(t_size).as_str());
        summary.append("\n");
        lines.push(summary);
        proof {
            assert(lines@[lines@.len() - 1]@ =~= summary_line(
                old(self).fs_data@.len(),
                sum_sizes(old(self).fs_data@) as u64,
            ));
        }
        lines
    }
}

} // verus!
