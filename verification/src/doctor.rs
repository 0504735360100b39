//! `ohrs doctor`: reading what `rustc --version` and `rustup target list
//! --installed` print, and the report that says which requirements of an
//! OHOS build the machine meets.

use vstd::prelude::*;
use owo_colors::OwoColorize;
use crate::arch::Arch;
use crate::text::{chars_of, string_of};

verus! {

broadcast use vstd::string::group_string_axioms;

/// `owo_colors`: `text.green().bold()` displayed: the bold and green
/// escape sequences, the text, then the sequences that end them.
#[verifier::external_body]
fn green_bold(text: &str) -> (r: String)
    ensures
        r@ == "\x1b[1m\x1b[32m"@ + text@ + "\x1b[39m\x1b[0m"@,
{
    text.green().bold().to_string()
}

/// `owo_colors`: `text.red().bold()` displayed.
#[verifier::external_body]
fn red_bold(text: &str) -> (r: String)
    ensures
        r@ == "\x1b[1m\x1b[31m"@ + text@ + "\x1b[39m\x1b[0m"@,
{
    text.red().bold().to_string()
}

/// `owo_colors`: `text.green()` displayed.
#[verifier::external_body]
fn green(text: &str) -> (r: String)
    ensures
        r@ == green_of(text@),
{
    text.green().to_string()
}

/// `text` in green.
pub open spec fn green_of(text: Seq<char>) -> Seq<char> {
    "\x1b[32m"@ + text + "\x1b[39m"@
}

/// The mark of a requirement: a bold green tick when it is met, a bold red
/// cross when it is not.
pub open spec fn mark_of(is_support: bool) -> Seq<char> {
    if is_support {
        "\x1b[1m\x1b[32m"@ + "✔"@ + "\x1b[39m\x1b[0m"@
    } else {
        "\x1b[1m\x1b[31m"@ + "✖"@ + "\x1b[39m\x1b[0m"@
    }
}

/// The mark of a requirement (see `mark_of`).
pub fn render(is_support: bool) -> (r: String)
    ensures
        r@ == mark_of(is_support),
{
    if is_support {
        return green_bold("✔");
    }
    red_bold("✖")
}

/// A version as far as the requirement reads it: its three numbers and
/// its pre-release part.
pub struct VersionCore {
    pub major: u64,
    pub minor: u64,
    pub patch: u64,
    pub pre: String,
}

/// What `semver::Version::parse` gives for `text`: the three numbers and
/// the pre-release part, or the text of the error.
pub uninterp spec fn semver_parse_of(text: Seq<char>) -> Result<(u64, u64, u64, Seq<char>), Seq<char>>;

/// `semver::Version::parse`: its outcome is named by `semver_parse_of`;
/// the grammar of versions it accepts is not stated.
#[verifier::external_body]
fn parse_version(text: &str) -> (r: Result<VersionCore, String>)
    ensures
        match r {
            Ok(v) => semver_parse_of(text@) == Ok::<(u64, u64, u64, Seq<char>), Seq<char>>(
                (v.major, v.minor, v.patch, v.pre@),
            ),
            Err(e) => semver_parse_of(text@) == Err::<(u64, u64, u64, Seq<char>), Seq<char>>(e@),
        },
{
    match semver::Version::parse(text) {
        Ok(v) => Ok(VersionCore { major: v.major, minor: v.minor, patch: v.patch, pre: v.pre.as_str().to_owned() }),
        Err(e) => Err(e.to_string()),
    }
}

/// Whether a version is at least 1.78.0, as semver orders versions: by
/// the three numbers, a pre-release coming before its release.
pub open spec fn at_least_1_78(major: u64, minor: u64, patch: u64, pre: Seq<char>) -> bool {
    if major != 1 {
        major > 1
    } else if minor != 78 {
        minor > 78
    } else if patch != 0 {
        true
    } else {
        pre.len() == 0
    }
}

/// The requirement follows semver's order against 1.78.0: a version whose
/// numbers are above 1.78.0 meets it whatever its pre-release part, one
/// below does not, and 1.78.0 itself meets it only as a release; so the
/// pre-release part matters only at 1.78.0.
pub proof fn lemma_requirement_is_semver_order(major: u64, minor: u64, patch: u64, pre: Seq<char>, other_pre: Seq<char>)
    ensures
        major > 1 || (major == 1 && minor > 78) || (major == 1 && minor == 78 && patch > 0) ==> at_least_1_78(
            major,
            minor,
            patch,
            pre,
        ),
        major < 1 || (major == 1 && minor < 78) ==> !at_least_1_78(major, minor, patch, pre),
        major == 1 && minor == 78 && patch == 0 ==> (at_least_1_78(major, minor, patch, pre) <==> pre.len() == 0),
        !(major == 1 && minor == 78 && patch == 0) ==> at_least_1_78(major, minor, patch, pre) == at_least_1_78(
            major,
            minor,
            patch,
            other_pre,
        ),
{
}

/// Whether the Rust version meets the requirement (see `at_least_1_78`).
pub fn rust_version_ok(v: &VersionCore) -> (r: bool)
    ensures
        r == at_least_1_78(v.major, v.minor, v.patch, v.pre@),
{
    if v.major != 1 {
        v.major > 1
    } else if v.minor != 78 {
        v.minor > 78
    } else if v.patch != 0 {
        true
    } else {
        v.pre.unicode_len() == 0
    }
}

/// The state of splitting at white space: the words finished and the one
/// being read.
pub open spec fn scan_words(s: Seq<char>) -> (Seq<Seq<char>>, Seq<char>)
    decreases s.len(),
{
    if s.len() == 0 {
        (Seq::<Seq<char>>::empty(), Seq::<char>::empty())
    } else {
        let (done, cur) = scan_words(s.drop_last());
        if crate::text::is_white_space(s.last()) {
            if cur.len() > 0 {
                (done.push(cur), Seq::<char>::empty())
            } else {
                (done, cur)
            }
        } else {
            (done, cur.push(s.last()))
        }
    }
}

/// The words of `s`: the non-empty runs between white space
/// (`str::split_whitespace`).
pub open spec fn words_of(s: Seq<char>) -> Seq<Seq<char>> {
    let (done, cur) = scan_words(s);
    if cur.len() > 0 {
        done.push(cur)
    } else {
        done
    }
}

/// The version in what `rustc --version` printed: its second word, or
/// `0.0.0` when there is none.
pub open spec fn rust_version_of(output: Seq<char>) -> Seq<char> {
    if words_of(output).len() > 1 {
        words_of(output)[1]
    } else {
        "0.0.0"@
    }
}

/// The words of `s` (see `words_of`).
pub fn words(s: &str) -> (r: Vec<String>)
    ensures
        crate::text::string_views(r@) == words_of(s@),
{
    let v = chars_of(s);
    let mut done: Vec<String> = Vec::new();
    let mut cur: Vec<char> = Vec::new();
    let mut i: usize = 0;
    while i < v.len()
        invariant
            i <= v@.len(),
            v@ == s@,
            scan_words(s@.subrange(0, i as int)) == (crate::text::string_views(done@), cur@),
        decreases v@.len() - i,
    {
        assert(s@.subrange(0, i + 1).drop_last() =~= s@.subrange(0, i as int));
        assert(s@.subrange(0, i + 1).last() == v@[i as int]);
        let c = v[i];
        if crate::text::char_is_whitespace(c) {
            if cur.len() > 0 {
                let w = string_of(cur.as_slice());
                let ghost before = crate::text::string_views(done@);
                done.push(w);
                assert(crate::text::string_views(done@) =~= before.push(cur@));
                cur = Vec::new();
            }
        } else {
            cur.push(c);
        }
        i = i + 1;
    }
    assert(s@.subrange(0, v@.len() as int) =~= s@);
    if cur.len() > 0 {
        let w = string_of(cur.as_slice());
        let ghost before = crate::text::string_views(done@);
        done.push(w);
        assert(crate::text::string_views(done@) =~= before.push(cur@));
    }
    done
}

/// The version in what `rustc --version` printed (see `rust_version_of`).
pub fn resolve_rust_version(output: &str) -> (r: String)
    ensures
        r@ == rust_version_of(output@),
{
    let w = words(output);
    if w.len() > 1 {
        w[1].clone()
    } else {
        "0.0.0".to_owned()
    }
}

/// The lines of `s` as `str::lines` gives them: the pieces between `\n`,
/// each that a `\n` ends losing one trailing `\r`, and a last empty piece
/// left out.
pub open spec fn lines_of(s: Seq<char>) -> Seq<Seq<char>> {
    let ps = crate::text::split_on(s, '\n');
    let n = ps.len() as int;
    let kept = if ps.last().len() == 0 {
        n - 1
    } else {
        n
    };
    Seq::new(
        kept as nat,
        |i: int|
            if i < n - 1 && ps[i].len() > 0 && ps[i].last() == '\r' {
                ps[i].drop_last()
            } else {
                ps[i]
            },
    )
}

/// The installed targets that `rustup target list --installed` printed,
/// one a line.
pub fn resolve_targets(output: &str) -> (r: Vec<String>)
    ensures
        crate::text::string_views(r@) == lines_of(output@),
{
    let chars = chars_of(output);
    let pieces = crate::text::split_chars(chars.as_slice(), '\n');
    proof {
        crate::text::lemma_split_on_nonempty(output@, '\n');
    }
    let ghost ps = crate::text::split_on(output@, '\n');
    let n = pieces.len();
    let kept = if pieces[n - 1].len() == 0 {
        n - 1
    } else {
        n
    };
    let mut out: Vec<String> = Vec::new();
    let mut i: usize = 0;
    while i < kept
        invariant
            i <= kept <= n,
            n == pieces@.len(),
            n >= 1,
            ps == crate::text::split_on(output@, '\n'),
            crate::text::views_of(pieces@) == ps,
            kept == (if ps.last().len() == 0 {
                n - 1
            } else {
                n as int
            }),
            crate::text::string_views(out@) == lines_of(output@).subrange(0, i as int),
        decreases kept - i,
    {
        assert(ps[i as int] == pieces@[i as int]@);
        let p = &pieces[i];
        let line = if i + 1 < n && p.len() > 0 && p[p.len() - 1] == '\r' {
            let mut t: Vec<char> = Vec::new();
            let mut j: usize = 0;
            while j < p.len() - 1
                invariant
                    j <= p@.len() - 1,
                    p@.len() > 0,
                    t@ == p@.subrange(0, j as int),
                decreases p@.len() - 1 - j,
            {
                t.push(p[j]);
                j = j + 1;
                assert(t@ =~= p@.subrange(0, j as int));
            }
            assert(t@ =~= p@.drop_last());
            string_of(t.as_slice())
        } else {
            string_of(p.as_slice())
        };
        let ghost before = crate::text::string_views(out@);
        let ghost lv = line@;
        out.push(line);
        assert(crate::text::string_views(out@) =~= before.push(lv));
        assert(lines_of(output@).subrange(0, i + 1) =~= lines_of(output@).subrange(0, i as int).push(
            lv,
        ));
        i = i + 1;
    }
    assert(lines_of(output@).subrange(0, kept as int) =~= lines_of(output@));
    out
}

/// The report of `ohrs doctor`, one line a requirement: `OHOS_NDK_HOME`
/// set, Rust at least 1.78.0, and the targets of arm64, arm and x86_64
/// installed; or the error that parsing the Rust version gave.
pub open spec fn doctor_report_of(
    ndk: Seq<char>,
    version: Result<(u64, u64, u64, Seq<char>), Seq<char>>,
    targets: Seq<Seq<char>>,
) -> Result<Seq<Seq<char>>, Seq<char>> {
    match version {
        Err(e) => Err(e),
        Ok((major, minor, patch, pre)) => Ok(
            seq![
                mark_of(ndk.len() > 0) + "  Environment variable "@ + green_of("OHOS_NDK_HOME"@)
                    + " should be set."@,
                mark_of(at_least_1_78(major, minor, patch, pre)) + "  Rust version should be >= 1.78.0."@,
            ] + Seq::new(
                3,
                |i: int|
                    {
                        let t = crate::arch::rust_target_of(
                            seq![Arch::ARM64, Arch::ARM32, Arch::X86_64][i],
                        );
                        mark_of(targets.contains(t)) + "  Rustup target: "@ + green_of(t)
                            + " should be installed."@
                    },
            ),
        ),
    }
}

/// The report of `ohrs doctor` (see `doctor_report_of`), from what
/// `OHOS_NDK_HOME` holds (empty when unset), the parsed Rust version and
/// the installed targets.
pub fn doctor_report(ndk: &str, version: &Result<VersionCore, String>, targets: &Vec<String>) -> (r: Result<
    Vec<String>,
    String,
>)
    ensures
        match r {
            Ok(lines) => doctor_report_of(
                ndk@,
                match version {
                    Ok(v) => Ok::<(u64, u64, u64, Seq<char>), Seq<char>>(
                        (v.major, v.minor, v.patch, v.pre@),
                    ),
                    Err(e) => Err::<(u64, u64, u64, Seq<char>), Seq<char>>(e@),
                },
                crate::text::string_views(targets@),
            ) == Ok::<Seq<Seq<char>>, Seq<char>>(crate::text::string_views(lines@)),
            Err(m) => doctor_report_of(
                ndk@,
                match version {
                    Ok(v) => Ok::<(u64, u64, u64, Seq<char>), Seq<char>>(
                        (v.major, v.minor, v.patch, v.pre@),
                    ),
                    Err(e) => Err::<(u64, u64, u64, Seq<char>), Seq<char>>(e@),
                },
                crate::text::string_views(targets@),
            ) == Err::<Seq<Seq<char>>, Seq<char>>(m@),
        },
{
    let v = match version {
        Ok(v) => v,
        Err(e) => {
            return Err(e.clone());
        },
    };
    let mut lines: Vec<String> = Vec::new();
    lines.push(
        render(ndk.unicode_len() > 0).concat("  Environment variable ").concat(
            green("OHOS_NDK_HOME").as_str(),
        ).concat(" should be set."),
    );
    lines.push(render(rust_version_ok(v)).concat("  Rust version should be >= 1.78.0."));
    let arches = [Arch::ARM64, Arch::ARM32, Arch::X86_64];
    let ghost av = seq![Arch::ARM64, Arch::ARM32, Arch::X86_64];
    assert(arches@ =~= av);
    let ghost report = doctor_report_of(
        ndk@,
        Ok::<(u64, u64, u64, Seq<char>), Seq<char>>((v.major, v.minor, v.patch, v.pre@)),
        crate::text::string_views(targets@),
    )->Ok_0;
    assert(crate::text::string_views(lines@) =~= report.subrange(0, 2));
    let mut i: usize = 0;
    while i < 3
        invariant
            i <= 3,
            arches@ == av,
            av == seq![Arch::ARM64, Arch::ARM32, Arch::X86_64],
            report == doctor_report_of(
                ndk@,
                Ok::<(u64, u64, u64, Seq<char>), Seq<char>>((v.major, v.minor, v.patch, v.pre@)),
                crate::text::string_views(targets@),
            )->Ok_0,
            report.len() == 5,
            crate::text::string_views(lines@) == report.subrange(0, 2 + i),
        decreases 3 - i,
    {
        let t = arches[i].rust_target();
        let owned = t.to_owned();
        let installed = crate::search::contains_string(targets, &owned);
        let line = render(installed).concat("  Rustup target: ").concat(green(t).as_str()).concat(
            " should be installed.",
        );
        let ghost before = crate::text::string_views(lines@);
        let ghost lv = line@;
        lines.push(line);
        assert(crate::text::string_views(lines@) =~= before.push(lv));
        let ghost t_spec = crate::arch::rust_target_of(seq![Arch::ARM64, Arch::ARM32, Arch::X86_64][i as int]);
        assert(av[i as int] == seq![Arch::ARM64, Arch::ARM32, Arch::X86_64][i as int]);
        assert(t@ == t_spec);
        assert(owned@ == t_spec);
        assert(lv == mark_of(crate::text::string_views(targets@).contains(t_spec)) + "  Rustup target: "@
            + green_of(t_spec) + " should be installed."@);
        assert(report[2 + i] == lv);
        assert(report.subrange(0, 2 + i + 1) =~= report.subrange(0, 2 + i).push(report[2 + i]));
        i = i + 1;
    }
    assert(report.subrange(0, 5) =~= report);
    Ok(lines)
}

/// The report of `ohrs doctor` from what `OHOS_NDK_HOME` holds (empty when
/// unset) and from what `rustc --version` and `rustup target list
/// --installed` printed: the version is the second word of the former,
/// parsed as semver (see `doctor_report_of`).
pub fn doctor_lines(ndk: &str, rustc_output: &str, rustup_output: &str) -> (r: Result<Vec<String>, String>)
    ensures
        match r {
            Ok(lines) => doctor_report_of(
                ndk@,
                semver_parse_of(rust_version_of(rustc_output@)),
                lines_of(rustup_output@),
            ) == Ok::<Seq<Seq<char>>, Seq<char>>(crate::text::string_views(lines@)),
            Err(m) => doctor_report_of(
                ndk@,
                semver_parse_of(rust_version_of(rustc_output@)),
                lines_of(rustup_output@),
            ) == Err::<Seq<Seq<char>>, Seq<char>>(m@),
        },
{
    let targets = resolve_targets(rustup_output);
    let version_text = resolve_rust_version(rustc_output);
    let version = parse_version(version_text.as_str());
    doctor_report(ndk, &version, &targets)
}

} // verus!
