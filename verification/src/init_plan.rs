//! `ohrs init`: the files of a new project and of its ohpm package, filled
//! in from templates, and the author name read from git.

use vstd::prelude::*;
use crate::paths::join_path;
use crate::text::{chars_of, string_of};

verus! {

broadcast use vstd::string::group_string_axioms;

/// The build script of a new project.
pub const BUILD_INIT: &'static str = "fn main() {\n  napi_build_ohos::setup();\n}\n";

/// The manifest of a new project; `entry` stands for its name.
pub const CARGO_TOML: &'static str = "[package]\nname    = \"entry\"\nversion = \"0.1.0\"\nedition = \"2021\"\n\n# See more keys and their definitions at https://doc.rust-lang.org/cargo/reference/manifest.html\n\n[lib]\ncrate-type = [\"cdylib\"]\n\n[dependencies]\nnapi-ohos        = { version = \"1.0.0-beta.5\" }\nnapi-derive-ohos = { version = \"1.0.0-beta.5\" }\n\n[build-dependencies]\nnapi-build-ohos = { version = \"1.0.0-beta.5\" }\n\n[profile.release]\nlto = true\n";

/// The library source of a new project.
pub const LIB_CODE: &'static str = "use napi_derive_ohos::napi;\n\n#[napi]\npub fn add(left: u32, right: u32) -> u32 {\n  left + right\n}\n";

/// The `.gitignore` of a new project.
pub const GIT_IGNORE: &'static str = "dist/\ntarget/\n.DS_Store\n.idea/\npackage/libs\n\n*.har\n\nCargo.lock\n";

/// `s` with every occurrence of `from`, taken from left to right without
/// overlapping, replaced by `to` (`str::replace` with a non-empty pattern).
pub open spec fn replace_all(s: Seq<char>, from: Seq<char>, to: Seq<char>) -> Seq<char>
    recommends
        from.len() > 0,
    decreases s.len(),
{
    if from.len() == 0 || s.len() < from.len() {
        s
    } else if s.subrange(0, from.len() as int) == from {
        to + replace_all(s.subrange(from.len() as int, s.len() as int), from, to)
    } else {
        seq![s[0]] + replace_all(s.drop_first(), from, to)
    }
}

/// Replaces every occurrence of a non-empty `from` (see `replace_all`).
pub fn replace_str(s: &str, from: &str, to: &str) -> (r: String)
    requires
        from@.len() > 0,
    ensures
        r@ == replace_all(s@, from@, to@),
{
    let sv = chars_of(s);
    let fv = chars_of(from);
    let tv = chars_of(to);
    let n = sv.len();
    let mut out: Vec<char> = Vec::new();
    assert(s@.subrange(0, n as int) =~= s@);
    assert(out@ + replace_all(s@, from@, to@) =~= replace_all(s@, from@, to@));
    let mut i: usize = 0;
    while i < n
        invariant
            i <= n,
            n == sv@.len(),
            sv@ == s@,
            fv@ == from@,
            tv@ == to@,
            fv@.len() > 0,
            out@ + replace_all(s@.subrange(i as int, n as int), from@, to@) == replace_all(s@, from@, to@),
        decreases n - i,
    {
        let ghost rest = s@.subrange(i as int, n as int);
        if crate::text::chars_occur_at(&sv, &fv, i) {
            assert(rest.subrange(0, from@.len() as int) =~= s@.subrange(i as int, i + from@.len()));
            assert(rest.subrange(from@.len() as int, rest.len() as int) =~= s@.subrange(
                i + from@.len(),
                n as int,
            ));
            let ghost before = out@;
            let mut k: usize = 0;
            while k < tv.len()
                invariant
                    k <= tv@.len(),
                    out@ == before + tv@.subrange(0, k as int),
                decreases tv@.len() - k,
            {
                out.push(tv[k]);
                k = k + 1;
                assert(out@ =~= before + tv@.subrange(0, k as int));
            }
            assert(tv@.subrange(0, tv@.len() as int) =~= tv@);
            assert(before + replace_all(rest, from@, to@) =~= out@ + replace_all(
                s@.subrange(i + from@.len(), n as int),
                from@,
                to@,
            ));
            i = i + fv.len();
        } else {
            proof {
                if rest.len() >= from@.len() {
                    assert(rest.subrange(0, from@.len() as int) =~= s@.subrange(
                        i as int,
                        i + from@.len(),
                    ));
                }
            }
            assert(rest.drop_first() =~= s@.subrange(i + 1, n as int));
            let ghost before = out@;
            out.push(sv[i]);
            assert(before + replace_all(rest, from@, to@) =~= out@ + replace_all(
                s@.subrange(i + 1, n as int),
                from@,
                to@,
            ));
            i = i + 1;
        }
    }
    assert(out@ =~= out@ + replace_all(s@.subrange(n as int, n as int), from@, to@));
    string_of(out.as_slice())
}

/// `s` without its `\n` and `\r` characters.
pub open spec fn without_newlines(s: Seq<char>) -> Seq<char>
    decreases s.len(),
{
    if s.len() == 0 {
        s
    } else if s.last() == '\n' || s.last() == '\r' {
        without_newlines(s.drop_last())
    } else {
        without_newlines(s.drop_last()).push(s.last())
    }
}

/// What is left of a name once its line breaks are removed holds none.
pub proof fn lemma_without_newlines(s: Seq<char>)
    ensures
        !without_newlines(s).contains('\n'),
        !without_newlines(s).contains('\r'),
    decreases s.len(),
{
    if s.len() > 0 {
        lemma_without_newlines(s.drop_last());
        let r = without_newlines(s.drop_last());
        if !(s.last() == '\n' || s.last() == '\r') {
            assert forall|c: char| (c == '\n' || c == '\r') implies !r.push(s.last()).contains(c) by {
                if r.push(s.last()).contains(c) {
                    let k = choose|k: int| 0 <= k < r.push(s.last()).len() && r.push(s.last())[k] == c;
                    if k < r.len() {
                        assert(r[k] == c);
                    }
                }
            }
        }
    }
}

/// The author of a new package, as git's configuration gives it.
pub struct GitConfig {
    pub author: String,
}

/// The author name from what `git config user.name` printed: without its
/// line breaks.
pub fn git_config_from(username: &str) -> (r: GitConfig)
    ensures
        r.author@ == without_newlines(username@),
{
    let v = chars_of(username);
    let mut out: Vec<char> = Vec::new();
    let mut i: usize = 0;
    while i < v.len()
        invariant
            i <= v@.len(),
            v@ == username@,
            out@ == without_newlines(username@.subrange(0, i as int)),
        decreases v@.len() - i,
    {
        assert(username@.subrange(0, i + 1).drop_last() =~= username@.subrange(0, i as int));
        if v[i] != '\n' && v[i] != '\r' {
            out.push(v[i]);
        }
        i = i + 1;
    }
    assert(username@.subrange(0, v@.len() as int) =~= username@);
    GitConfig { author: string_of(out.as_slice()) }
}

/// `whoami::username`: the name of the user running the process; nothing
/// is stated of it.
#[verifier::external_body]
fn current_username() -> String {
    whoami::username()
}

/// The author of a new package: from what `git config user.name` printed
/// when git could be run, else from the name of the user running the
/// process.
pub fn get_git_config(git_output: Option<String>) -> (r: GitConfig)
    ensures
        git_output matches Some(o) ==> r.author@ == without_newlines(o@),
        git_output is None ==> exists|user: Seq<char>| r.author@ == without_newlines(user),
        !r.author@.contains('\n') && !r.author@.contains('\r'),
{
    let default_user = current_username();
    let r = match &git_output {
        Some(o) => git_config_from(o.as_str()),
        None => git_config_from(default_user.as_str()),
    };
    proof {
        match git_output {
            Some(o) => lemma_without_newlines(o@),
            None => lemma_without_newlines(default_user@),
        }
    }
    r
}

/// The manifest of a new project named `name`.
pub open spec fn cargo_toml_for(name: Seq<char>) -> Seq<char> {
    replace_all(CARGO_TOML@, "entry"@, name)
}

/// `name` with `-` written `_`, as the library's file is named.
pub open spec fn lib_name_of(name: Seq<char>) -> Seq<char> {
    crate::toolchain::replace_char(name, '-', '_')
}

/// The `index.ets` of a new package: it exports the library.
pub open spec fn index_ets_for(name: Seq<char>) -> Seq<char> {
    "export * from \"lib"@ + lib_name_of(name) + ".so\""@
}

/// The files of a new project in `target`: the library, the build script,
/// `.gitignore` and the manifest, as (path, content).
pub open spec fn project_files_of(target: Seq<char>, name: Seq<char>) -> Seq<(Seq<char>, Seq<char>)> {
    seq![
        (crate::paths::path_join(crate::paths::path_join(target, "src"@), "lib.rs"@), LIB_CODE@),
        (crate::paths::path_join(target, "build.rs"@), BUILD_INIT@),
        (crate::paths::path_join(target, ".gitignore"@), GIT_IGNORE@),
        (crate::paths::path_join(target, "Cargo.toml"@), cargo_toml_for(name)),
    ]
}

/// The files of a new project (see `project_files_of`).
pub fn project_files(target: &str, name: &str) -> (r: Vec<(String, String)>)
    ensures
        crate::envmap::pairs_view(r@) == project_files_of(target@, name@),
{
    proof {
        reveal_strlit("entry");
    }
    let src = join_path(target, "src");
    let mut files: Vec<(String, String)> = Vec::new();
    files.push((join_path(src.as_str(), "lib.rs"), LIB_CODE.to_owned()));
    files.push((join_path(target, "build.rs"), BUILD_INIT.to_owned()));
    files.push((join_path(target, ".gitignore"), GIT_IGNORE.to_owned()));
    files.push((join_path(target, "Cargo.toml"), replace_str(CARGO_TOML, "entry", name)));
    assert(crate::envmap::pairs_view(files@) =~= project_files_of(target@, name@));
    files
}

/// The templates of a new ohpm package.
pub struct PackageTemplates {
    /// `README.md`; `@pkg` stands for the package name.
    pub readme: String,
    /// `oh-package.json5`; `@author` and `@pkg` stand for the author and
    /// the package name.
    pub manifest: String,
    /// `LICENSE`; `@author` stands for the author.
    pub license: String,
    /// `CHANGELOG.md`.
    pub changelog: String,
}

/// The files of a new ohpm package in `target/package`, as (path,
/// content): the package is named `package_name` or else after the
/// project.
pub open spec fn package_files_of(
    target: Seq<char>,
    name: Seq<char>,
    package_name: Option<Seq<char>>,
    author: Seq<char>,
    t: PackageTemplates,
) -> Seq<(Seq<char>, Seq<char>)> {
    let pkg = match package_name {
        Some(p) => p,
        None => name,
    };
    let dir = crate::paths::path_join(target, "package"@);
    seq![
        (crate::paths::path_join(dir, "README.md"@), replace_all(t.readme@, "@pkg"@, pkg)),
        (
            crate::paths::path_join(dir, "oh-package.json5"@),
            replace_all(replace_all(t.manifest@, "@author"@, author), "@pkg"@, pkg),
        ),
        (crate::paths::path_join(dir, "LICENSE"@), replace_all(t.license@, "@author"@, author)),
        (crate::paths::path_join(dir, "index.ets"@), index_ets_for(name)),
        (crate::paths::path_join(dir, "CHANGELOG.md"@), t.changelog@),
    ]
}

/// The README and the manifest of a new package name the package, not the
/// project: with a package name given, they are the same whatever the
/// project is called, and without one, they are those of a package named
/// after the project.
pub proof fn lemma_package_is_named_by_package_name(
    target: Seq<char>,
    name: Seq<char>,
    other_name: Seq<char>,
    package_name: Seq<char>,
    author: Seq<char>,
    t: PackageTemplates,
)
    ensures
        package_files_of(target, name, Some(package_name), author, t)[0] == package_files_of(
            target,
            other_name,
            Some(package_name),
            author,
            t,
        )[0],
        package_files_of(target, name, Some(package_name), author, t)[1] == package_files_of(
            target,
            other_name,
            Some(package_name),
            author,
            t,
        )[1],
        package_files_of(target, name, None, author, t) == package_files_of(target, name, Some(name), author, t),
{
}

proof fn lemma_replace_skips_plain(x: Seq<char>, from: Seq<char>, to: Seq<char>)
    requires
        !x.contains('@'),
        from.len() > 0,
        from[0] == '@',
    ensures
        replace_all(x, from, to) == x,
    decreases x.len(),
{
    if x.len() >= from.len() {
        if x.subrange(0, from.len() as int) == from {
            assert(x.subrange(0, from.len() as int)[0] == x[0]);
            assert(x.contains(x[0]));
        }
        assert forall|c: char| x.drop_first().contains(c) implies x.contains(c) by {
            let k = choose|k: int| 0 <= k < x.drop_first().len() && x.drop_first()[k] == c;
            assert(x[k + 1] == c);
        }
        lemma_replace_skips_plain(x.drop_first(), from, to);
        assert(seq![x[0]] + x.drop_first() =~= x);
    }
}

proof fn lemma_replace_after_plain(a: Seq<char>, y: Seq<char>, from: Seq<char>, to: Seq<char>)
    requires
        !a.contains('@'),
        from.len() > 0,
        from[0] == '@',
    ensures
        replace_all(a + y, from, to) == a + replace_all(y, from, to),
    decreases a.len(),
{
    if a.len() == 0 {
        assert(a + y =~= y);
        assert(a + replace_all(y, from, to) =~= replace_all(y, from, to));
    } else {
        let s = a + y;
        assert(s[0] == a[0]);
        assert(a.contains(a[0]));
        if s.len() < from.len() {
            assert(y.len() < from.len());
        } else {
            if s.subrange(0, from.len() as int) == from {
                assert(s.subrange(0, from.len() as int)[0] == s[0]);
            }
            assert forall|c: char| a.drop_first().contains(c) implies a.contains(c) by {
                let k = choose|k: int| 0 <= k < a.drop_first().len() && a.drop_first()[k] == c;
                assert(a[k + 1] == c);
            }
            assert(s.drop_first() =~= a.drop_first() + y);
            lemma_replace_after_plain(a.drop_first(), y, from, to);
            assert(seq![a[0]] + (a.drop_first() + replace_all(y, from, to)) =~= a + replace_all(y, from, to));
        }
    }
}

proof fn lemma_fill_pkg(a: Seq<char>, b: Seq<char>, p: Seq<char>, author: Seq<char>)
    requires
        !a.contains('@'),
        !b.contains('@'),
    ensures
        replace_all(a + "@pkg"@ + b, "@pkg"@, p) == a + p + b,
        replace_all(replace_all(a + "@pkg"@ + b, "@author"@, author), "@pkg"@, p) == a + p + b,
{
    reveal_strlit("@pkg");
    reveal_strlit("@author");
    reveal_strlit("pkg");
    let k = "@pkg"@ + b;
    assert(a + "@pkg"@ + b =~= a + k);
    // `@pkg` at the front is replaced, the rest holds no `@`.
    assert(k.subrange(0, 4) =~= "@pkg"@);
    assert(k.subrange(4, k.len() as int) =~= b);
    lemma_replace_skips_plain(b, "@pkg"@, p);
    lemma_replace_after_plain(a, k, "@pkg"@, p);
    assert(a + (p + b) =~= a + p + b);
    // `@author` is nowhere: the `@` of `@pkg` is followed by `p`.
    let tail = k.drop_first();
    assert(tail =~= "pkg"@ + b);
    assert(!tail.contains('@')) by {
        if tail.contains('@') {
            let j = choose|j: int| 0 <= j < tail.len() && tail[j] == '@';
            if j >= 3 {
                assert(b[j - 3] == '@');
                assert(b.contains('@'));
            }
        }
    }
    lemma_replace_skips_plain(tail, "@author"@, author);
    if k.len() >= 7 {
        assert(k.subrange(0, 7)[1] != "@author"@[1]);
    }
    assert(seq![k[0]] + tail =~= k);
    lemma_replace_after_plain(a, k, "@author"@, author);
}

/// The package name given is what the README and the manifest are filled
/// with: where a template holds `@pkg` once among text with no other `@`,
/// the file holds the package name there, and the project name only when
/// no package name is given.
pub proof fn lemma_package_name_fills_templates(
    target: Seq<char>,
    name: Seq<char>,
    package_name: Option<Seq<char>>,
    author: Seq<char>,
    t: PackageTemplates,
    a: Seq<char>,
    b: Seq<char>,
)
    requires
        !a.contains('@'),
        !b.contains('@'),
    ensures
        t.readme@ == a + "@pkg"@ + b ==> package_files_of(target, name, package_name, author, t)[0].1 == a + (
        match package_name {
            Some(p) => p,
            None => name,
        }) + b,
        t.manifest@ == a + "@pkg"@ + b ==> package_files_of(target, name, package_name, author, t)[1].1 == a
            + (match package_name {
            Some(p) => p,
            None => name,
        }) + b,
{
    let pkg = match package_name {
        Some(p) => p,
        None => name,
    };
    lemma_fill_pkg(a, b, pkg, author);
}

/// The files of a new ohpm package (see `package_files_of`).
pub fn package_files(
    target: &str,
    name: &str,
    package_name: &Option<String>,
    author: &str,
    t: &PackageTemplates,
) -> (r: Vec<(String, String)>)
    ensures
        crate::envmap::pairs_view(r@) == package_files_of(
            target@,
            name@,
            match package_name {
                Some(p) => Some(p@),
                None => None,
            },
            author@,
            *t,
        ),
{
    proof {
        reveal_strlit("@pkg");
        reveal_strlit("@author");
    }
    let pkg = match package_name {
        Some(p) => p.clone(),
        None => name.to_owned(),
    };
    let dir = join_path(target, "package");
    let lib = crate::toolchain::replace_char_in(name, '-', '_');
    let index = "export * from \"lib".to_owned().concat(lib.as_str()).concat(".so\"");
    let manifest = replace_str(t.manifest.as_str(), "@author", author);
    let mut files: Vec<(String, String)> = Vec::new();
    files.push((join_path(dir.as_str(), "README.md"), replace_str(t.readme.as_str(), "@pkg", pkg.as_str())));
    files.push(
        (join_path(dir.as_str(), "oh-package.json5"), replace_str(manifest.as_str(), "@pkg", pkg.as_str())),
    );
    files.push((join_path(dir.as_str(), "LICENSE"), replace_str(t.license.as_str(), "@author", author)));
    files.push((join_path(dir.as_str(), "index.ets"), index));
    files.push((join_path(dir.as_str(), "CHANGELOG.md"), t.changelog.clone()));
    assert(crate::envmap::pairs_view(files@) =~= package_files_of(
        target@,
        name@,
        match package_name {
            Some(p) => Some(p@),
            None => None,
        },
        author@,
        *t,
    ));
    files
}

/// The message for a project whose directory already exists.
pub open spec fn already_exists_message(name: Seq<char>) -> Seq<char> {
    name + " already existed. Please change your project name."@
}

/// The message for a project whose directory already exists.
pub fn already_exists(name: &str) -> (r: String)
    ensures
        r@ == already_exists_message(name@),
{
    name.to_owned().concat(" already existed. Please change your project name.")
}

} // verus!
