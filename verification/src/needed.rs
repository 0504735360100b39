//! Reading the `NeededLibraries` section that `llvm-readobj --needed-libs`
//! prints for an ELF file.

use vstd::prelude::*;
use crate::text::{chars_eq, chars_of, split_chars, string_of, trim_chars};

verus! {

broadcast use vstd::string::group_string_axioms;

/// Why the output of `llvm-readobj --needed-libs` could not be read.
#[derive(Debug, Clone, Copy, PartialEq, Eq)]
pub enum NeededLibrariesError {
    /// No `NeededLibraries [` line was found, or the last section opened
    /// by one was never closed by a `]` line.
    IncompleteSection,
}

/// The line that opens the list of needed libraries.
pub open spec fn section_header() -> Seq<char> {
    "NeededLibraries ["@
}

/// The line that closes it.
pub open spec fn section_footer() -> Seq<char> {
    "]"@
}

/// What has been read after some lines: whether a section is open, whether
/// any section was opened, and the libraries collected so far.
pub type NeededScan = (bool, bool, Seq<Seq<char>>);

/// The effect of one line, already trimmed, on what has been read.
pub open spec fn scan_line(st: NeededScan, line: Seq<char>) -> NeededScan {
    if line == section_header() {
        (true, true, st.2)
    } else if st.0 && line == section_footer() {
        (false, st.1, st.2)
    } else if st.0 && line.len() > 0 {
        (st.0, st.1, st.2.push(line))
    } else {
        st
    }
}

/// What has been read after the given lines, each trimmed of white space.
pub open spec fn scan_lines(lines: Seq<Seq<char>>) -> NeededScan
    decreases lines.len(),
{
    if lines.len() == 0 {
        (false, false, Seq::<Seq<char>>::empty())
    } else {
        scan_line(scan_lines(lines.drop_last()), crate::text::trim(lines.last()))
    }
}

/// What the whole of `output` gives, read line by line.  Lines are taken
/// between `\n` characters; a `\r` before a `\n` is white space and goes
/// with the trimming, and an empty last line changes nothing.
pub open spec fn scan_output(output: Seq<char>) -> NeededScan {
    scan_lines(crate::text::split_on(output, '\n'))
}

/// Whether `output` holds a complete section: one was opened, and the last
/// one opened was closed.
pub open spec fn needed_section_complete(output: Seq<char>) -> bool {
    scan_output(output).1 && !scan_output(output).0
}

/// The names listed inside the sections of `output`, in order.
pub open spec fn needed_libraries_of(output: Seq<char>) -> Seq<Seq<char>> {
    scan_output(output).2
}

/// Whether line `i` of `lines` lies inside a section: an earlier line,
/// trimmed, opens one, and no line after it and before `i` closes it.
pub open spec fn inside_section(lines: Seq<Seq<char>>, i: int) -> bool {
    exists|j: int|
        0 <= j < i && #[trigger] crate::text::trim(lines[j]) == section_header() && forall|k: int|
            j < k < i ==> #[trigger] crate::text::trim(lines[k]) != section_footer()
}

/// Whether line `i` names a library: it lies inside a section and, trimmed,
/// is neither empty nor a line that opens or closes one.
pub open spec fn listed_line(lines: Seq<Seq<char>>, i: int) -> bool {
    let t = crate::text::trim(lines[i]);
    inside_section(lines, i) && t != section_header() && t != section_footer() && t.len() > 0
}

/// The lines among the first `n` that name a library, trimmed, in order.
pub open spec fn listed_lines(lines: Seq<Seq<char>>, n: int) -> Seq<Seq<char>>
    decreases n,
{
    if n <= 0 {
        Seq::<Seq<char>>::empty()
    } else if listed_line(lines, n - 1) {
        listed_lines(lines, n - 1).push(crate::text::trim(lines[n - 1]))
    } else {
        listed_lines(lines, n - 1)
    }
}

proof fn lemma_scan_prefix(lines: Seq<Seq<char>>, n: int)
    requires
        0 <= n <= lines.len(),
    ensures
        scan_lines(lines.subrange(0, n)).0 == inside_section(lines, n),
        scan_lines(lines.subrange(0, n)).2 == listed_lines(lines, n),
    decreases n,
{
    reveal_strlit("NeededLibraries [");
    reveal_strlit("]");
    assert(section_header().len() != section_footer().len());
    if n > 0 {
        lemma_scan_prefix(lines, n - 1);
        assert(lines.subrange(0, n).drop_last() =~= lines.subrange(0, n - 1));
        assert(lines.subrange(0, n).last() == lines[n - 1]);
        let st = scan_lines(lines.subrange(0, n - 1));
        let t = crate::text::trim(lines[n - 1]);
        if t == section_header() {
            assert(inside_section(lines, n)) by {
                assert(crate::text::trim(lines[n - 1]) == section_header());
            }
        } else if st.0 && t == section_footer() {
            assert(!inside_section(lines, n)) by {
                if inside_section(lines, n) {
                    let j = choose|j: int|
                        0 <= j < n && #[trigger] crate::text::trim(lines[j]) == section_header() && forall|k: int|
                            j < k < n ==> #[trigger] crate::text::trim(lines[k]) != section_footer();
                    assert(j != n - 1);
                    assert(crate::text::trim(lines[n - 1]) != section_footer());
                }
            }
        } else if st.0 && t.len() > 0 {
            let j = choose|j: int|
                0 <= j < n - 1 && #[trigger] crate::text::trim(lines[j]) == section_header() && forall|k: int|
                    j < k < n - 1 ==> #[trigger] crate::text::trim(lines[k]) != section_footer();
            assert(forall|k: int| j < k < n ==> #[trigger] crate::text::trim(lines[k]) != section_footer());
            assert(inside_section(lines, n));
        } else {
            if st.0 {
                let j = choose|j: int|
                    0 <= j < n - 1 && #[trigger] crate::text::trim(lines[j]) == section_header() && forall|k: int|
                        j < k < n - 1 ==> #[trigger] crate::text::trim(lines[k]) != section_footer();
                assert(forall|k: int| j < k < n ==> #[trigger] crate::text::trim(lines[k]) != section_footer());
                assert(inside_section(lines, n));
            } else {
                assert(!inside_section(lines, n)) by {
                    if inside_section(lines, n) {
                        let j = choose|j: int|
                            0 <= j < n && #[trigger] crate::text::trim(lines[j]) == section_header() && forall|
                                k: int,
                            | j < k < n ==> #[trigger] crate::text::trim(lines[k]) != section_footer();
                        assert(j != n - 1);
                        assert(forall|k: int| j < k < n - 1 ==> #[trigger] crate::text::trim(lines[k]) != section_footer());
                        assert(inside_section(lines, n - 1));
                    }
                }
            }
        }
    }
}

/// The libraries read are exactly the lines that name one: every line
/// inside a section that, trimmed, is not empty and neither opens nor
/// closes a section, trimmed, in the order they come; no line is left out
/// for what it says.
pub proof fn lemma_needed_libraries_are_the_listed_lines(output: Seq<char>)
    ensures
        needed_libraries_of(output) == listed_lines(
            crate::text::split_on(output, '\n'),
            crate::text::split_on(output, '\n').len() as int,
        ),
{
    let lines = crate::text::split_on(output, '\n');
    lemma_scan_prefix(lines, lines.len() as int);
    assert(lines.subrange(0, lines.len() as int) =~= lines);
}

/// Reads the libraries that `llvm-readobj --needed-libs` lists: every
/// non-empty trimmed line between a `NeededLibraries [` line and the next
/// `]` line.  Fails when no such section exists or the last one is left open.
pub fn parse_needed_libraries(output: &str) -> (r: Result<Vec<String>, NeededLibrariesError>)
    ensures
        r is Ok <==> needed_section_complete(output@),
        r matches Ok(libs) ==> crate::text::string_views(libs@) == needed_libraries_of(output@),
{
    let header = chars_of("NeededLibraries [");
    let footer = chars_of("]");
    let chars = chars_of(output);
    let lines = split_chars(chars.as_slice(), '\n');
    let mut in_needed_libraries = false;
    let mut found_section = false;
    let mut libraries: Vec<String> = Vec::new();
    let mut i: usize = 0;
    while i < lines.len()
        invariant
            i <= lines@.len(),
            header@ == section_header(),
            footer@ == section_footer(),
            crate::text::views_of(lines@) == crate::text::split_on(output@, '\n'),
            scan_lines(crate::text::views_of(lines@).subrange(0, i as int)) == (
                in_needed_libraries,
                found_section,
                crate::text::string_views(libraries@),
            ),
        decreases lines@.len() - i,
    {
        let line = trim_chars(lines[i].as_slice());
        proof {
            let all = crate::text::views_of(lines@);
            assert(all.subrange(0, i + 1).drop_last() =~= all.subrange(0, i as int));
            assert(all.subrange(0, i + 1).last() == lines@[i as int]@);
        }
        if chars_eq(line.as_slice(), header.as_slice()) {
            in_needed_libraries = true;
            found_section = true;
        } else if in_needed_libraries && chars_eq(line.as_slice(), footer.as_slice()) {
            in_needed_libraries = false;
        } else if in_needed_libraries && line.len() > 0 {
            let name = string_of(line.as_slice());
            libraries.push(name);
            assert(crate::text::string_views(libraries@) =~= crate::text::string_views(libraries@.drop_last()).push(
                name@,
            ));
        }
        i = i + 1;
    }
    assert(crate::text::views_of(lines@).subrange(0, lines@.len() as int) =~= crate::text::views_of(lines@));
    if !found_section || in_needed_libraries {
        return Err(NeededLibrariesError::IncompleteSection);
    }
    Ok(libraries)
}

} // verus!
