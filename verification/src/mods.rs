//! Checks on the mod files a server is given.

use vstd::prelude::*;

use crate::config::opt_text;
use crate::error::{outcome, AppError, AppErrorView};
use crate::text::{
    chars_of, ends_with, ends_with_exec, lemma_split_absent, lower, lower_range, owned, split_on,
    starts_with,
};

verus! {

/// Why a mod file is refused, if it is: judged by its file name, which is
/// `None` when the path has none.  Hidden files are refused first, then
/// anything but a `.jar`, then source and development jars; case is ignored
/// in the extension checks.
pub open spec fn mod_verdict(path: Seq<char>, file_name: Option<Seq<char>>) -> Result<(), AppErrorView> {
    match file_name {
        None => Err(AppErrorView::InvalidMod { path, reason: "missing file name"@ }),
        Some(f) => if starts_with(f, "."@) {
            Err(AppErrorView::InvalidMod { path, reason: "hidden files are not allowed"@ })
        } else if !ends_with(lower(f), ".jar"@) {
            Err(AppErrorView::InvalidMod { path, reason: "mods must be .jar files"@ })
        } else if ends_with(lower(f), "-sources.jar"@) || ends_with(lower(f), "-dev.jar"@) {
            Err(AppErrorView::InvalidMod { path, reason: "source/dev jars are not runtime mods"@ })
        } else {
            Ok(())
        },
    }
}

fn invalid_mod(path: &str, reason: &str) -> (e: AppError)
    ensures
        e@ == (AppErrorView::InvalidMod { path: path@, reason: reason@ }),
{
    AppError::InvalidMod { path: owned(path), reason: owned(reason) }
}

/// Whether `path` holds none of the characters that some platform reads as
/// a separator or a prefix mark: `/`, a backslash and `:`.
pub open spec fn no_separator(path: Seq<char>) -> bool {
    forall|i: int| 0 <= i < path.len() ==> path[i] != '/' && path[i] != '\\' && path[i] != ':'
}

/// The file name of a path that has no separator: the path itself, but for
/// the empty path, `.` and `..`, which name no file.
pub open spec fn plain_file_name(path: Seq<char>) -> Option<Seq<char>> {
    if path.len() == 0 || path == "."@ || path == ".."@ {
        None
    } else {
        Some(path)
    }
}

/// Whether `/` is the only separator `path` can hold on any platform: it has
/// no backslash and no `:`, and does not start with `//` (which opens a
/// network share's prefix on Windows).
pub open spec fn slash_only(path: Seq<char>) -> bool {
    &&& !path.contains('\\')
    &&& !path.contains(':')
    &&& !(path.len() >= 2 && path[0] == '/' && path[1] == '/')
}

/// The pieces that name something: those that are neither empty nor `.`.
pub open spec fn named_pieces(pieces: Seq<Seq<char>>) -> Seq<Seq<char>>
    decreases pieces.len(),
{
    if pieces.len() == 0 {
        seq![]
    } else {
        let rest = named_pieces(pieces.drop_last());
        if pieces.last().len() == 0 || pieces.last() == "."@ {
            rest
        } else {
            rest.push(pieces.last())
        }
    }
}

/// The final component of a path whose only separator is `/`: split at `/`,
/// empty and `.` pieces dropped, the last piece left, and none when no piece
/// is left or the last is `..`.
pub open spec fn last_component(path: Seq<char>) -> Option<Seq<char>> {
    let names = named_pieces(split_on(path, seq!['/']));
    if names.len() == 0 || names.last() == ".."@ {
        None
    } else {
        Some(names.last())
    }
}

/// Lemma: a path without separators is its own final component, but for the
/// empty path, `.` and `..`.
pub proof fn lemma_plain_last_component(path: Seq<char>)
    requires
        no_separator(path),
    ensures
        slash_only(path),
        last_component(path) == plain_file_name(path),
{
    assert(!path.contains('/'));
    assert(!path.contains('\\'));
    assert(!path.contains(':'));
    lemma_split_absent(path, '/');
    let ps = seq![path];
    assert(ps.drop_last() =~= Seq::<Seq<char>>::empty());
    reveal_with_fuel(named_pieces, 2);
}

/// Whether `name` can be the file name of `path`: a path whose only
/// separator is `/` has its `last_component` as file name, and a file name,
/// where there is one, is a non-empty piece of the path other than `.` and
/// `..`.
pub open spec fn file_name_fits(path: Seq<char>, name: Option<Seq<char>>) -> bool {
    &&& slash_only(path) ==> name == last_component(path)
    &&& name matches Some(n) ==> n.len() > 0 && n != "."@ && n != ".."@ && exists|i: int|
        0 <= i && i + n.len() <= path.len() && #[trigger] path.subrange(i, i + n.len()) == n
}

/// The final component of a path, as text: std's `Path::file_name`, read
/// with `OsStr::to_str`.
///
/// Claims what std documents of it on every platform: the final component
/// is a normal component of the path (a piece of it that is neither empty,
/// `.` nor `..`), there is none for a path ending in `..` or holding no
/// normal component, `/` separates components everywhere, and `.` pieces
/// past the start are normalized away.  For a path whose only separator is
/// `/` that fixes the result (`last_component`).  Which piece a path with a
/// backslash, a `:` or a leading `//` gives is left unsaid: there the
/// platform's own separators and prefixes decide.
#[verifier::external_body]
fn file_name_of(path: &str) -> (r: Option<String>)
    ensures
        file_name_fits(path@, opt_text(r)),
{
    Some(String::from(std::path::Path::new(path).file_name()?.to_str()?))
}

/// Judges a mod file by the file name of its path.
pub fn check_mod_file(path: &str, file_name: Option<&str>) -> (r: Result<(), AppError>)
    ensures
        outcome(r) == mod_verdict(
            path@,
            match file_name {
                Some(f) => Some(f@),
                None => None,
            },
        ),
{
    let name = match file_name {
        None => return Err(invalid_mod(path, "missing file name")),
        Some(n) => n,
    };
    let cs = chars_of(name);
    if cs.len() > 0 && cs[0] == '.' {
        proof {
            reveal_strlit(".");
        }
        assert(cs@.subrange(0, 1) =~= "."@);
        return Err(invalid_mod(path, "hidden files are not allowed"));
    }
    proof {
        reveal_strlit(".");
    }
    assert(!starts_with(name@, "."@)) by {
        if starts_with(name@, "."@) {
            assert(cs@.subrange(0, 1)[0] == '.');
        }
    }
    let low = lower_range(&cs, 0, cs.len());
    assert(cs@.subrange(0, cs@.len() as int) == cs@);
    if !ends_with_exec(&low, &chars_of(".jar")) {
        return Err(invalid_mod(path, "mods must be .jar files"));
    }
    if ends_with_exec(&low, &chars_of("-sources.jar")) || ends_with_exec(&low, &chars_of("-dev.jar")) {
        return Err(invalid_mod(path, "source/dev jars are not runtime mods"));
    }
    Ok(())
}

/// Validates that a file looks like a Minecraft mod JAR, judged by the
/// final component of its path.
pub fn validate_mod_jar(path: &str) -> (r: Result<(), AppError>)
    ensures
        no_separator(path@) ==> outcome(r) == mod_verdict(path@, plain_file_name(path@)),
        slash_only(path@) ==> outcome(r) == mod_verdict(path@, last_component(path@)),
        exists|f: Option<Seq<char>>|
            file_name_fits(path@, f) && outcome(r) == #[trigger] mod_verdict(path@, f),
{
    proof {
        if no_separator(path@) {
            lemma_plain_last_component(path@);
        }
    }
    let name = file_name_of(path);
    match &name {
        Some(n) => {
            let r = check_mod_file(path, Some(n.as_str()));
            assert(file_name_fits(path@, Some(n@)) && outcome(r) == mod_verdict(path@, Some(n@)));
            r
        },
        None => {
            let r = check_mod_file(path, None);
            assert(file_name_fits(path@, None) && outcome(r) == mod_verdict(path@, None));
            r
        },
    }
}

/// What becomes of one entry of the mods directory: a file is checked and
/// kept, anything else is skipped.
pub fn handle_dir_entry(path: &str, is_file: bool) -> (r: Result<Option<String>, AppError>)
    ensures
        !is_file ==> r matches Ok(None),
        is_file && no_separator(path@) ==> match mod_verdict(path@, plain_file_name(path@)) {
            Ok(()) => r matches Ok(Some(p)) && p@ == path@,
            Err(e) => r matches Err(x) && x@ == e,
        },
        is_file && slash_only(path@) ==> match mod_verdict(path@, last_component(path@)) {
            Ok(()) => r matches Ok(Some(p)) && p@ == path@,
            Err(e) => r matches Err(x) && x@ == e,
        },
        is_file ==> exists|f: Option<Seq<char>>|
            file_name_fits(path@, f) && match #[trigger] mod_verdict(path@, f) {
                Ok(()) => r matches Ok(Some(p)) && p@ == path@,
                Err(e) => r matches Err(x) && x@ == e,
            },
{
    if !is_file {
        return Ok(None);
    }
    match validate_mod_jar(path) {
        Ok(()) => Ok(Some(owned(path))),
        Err(e) => Err(e),
    }
}

/// Law: a mod file is judged by its file name alone.  Two paths with the same
/// file name are both accepted or both refused, for the same reason, each
/// refusal carrying its own path.
pub proof fn lemma_mod_verdict_reads_only_the_name(p: Seq<char>, q: Seq<char>, f: Option<Seq<char>>)
    ensures
        mod_verdict(p, f) is Ok <==> mod_verdict(q, f) is Ok,
        mod_verdict(p, f) is Ok || exists|reason: Seq<char>|
            mod_verdict(p, f) == Err::<(), AppErrorView>(AppErrorView::InvalidMod { path: p, reason }),
        forall|reason: Seq<char>|
            mod_verdict(p, f) == Err::<(), AppErrorView>(AppErrorView::InvalidMod { path: p, reason })
                <==> mod_verdict(q, f) == Err::<(), AppErrorView>(AppErrorView::InvalidMod { path: q, reason }),
{
}

/// Whether every character of `s` is a lowercase ASCII letter, a digit, `.`
/// or `_`.
pub open spec fn plain_stem(s: Seq<char>) -> bool {
    forall|i: int|
        0 <= i < s.len() ==> ('a' <= #[trigger] s[i] <= 'z' || '0' <= s[i] <= '9' || s[i] == '.' || s[i] == '_')
}

/// Law: a `.jar` whose name does not start with `.` and holds no `-` is a
/// runtime mod, whatever the case of its extension and whatever directory
/// it is in; a name starting with `.` is refused as hidden.
pub proof fn lemma_plain_jars_accepted(p: Seq<char>, stem: Seq<char>, rest: Seq<char>)
    requires
        stem.len() > 0,
        stem[0] != '.',
        plain_stem(stem),
    ensures
        mod_verdict(p, Some(stem + seq!['.', 'j', 'a', 'r'])) is Ok,
        mod_verdict(p, Some(stem + seq!['.', 'J', 'A', 'R'])) is Ok,
        mod_verdict(p, Some(seq!['.'] + rest)) == Err::<(), AppErrorView>(
            AppErrorView::InvalidMod { path: p, reason: "hidden files are not allowed"@ },
        ),
{
    reveal_strlit(".");
    reveal_strlit(".jar");
    reveal_strlit("-sources.jar");
    reveal_strlit("-dev.jar");
    assert((seq!['.'] + rest).subrange(0, 1) =~= "."@);
    let exts = seq![seq!['.', 'j', 'a', 'r'], seq!['.', 'J', 'A', 'R']];
    assert forall|k: int| 0 <= k < 2 implies mod_verdict(p, Some(stem + #[trigger] exts[k])) is Ok by {
        let f = stem + exts[k];
        let n = stem.len() as int;
        let l = lower(f);
        assert(l.len() == n + 4);
        assert forall|i: int| 0 <= i < n implies l[i] == stem[i] && l[i] != '-' by {
            assert(f[i] == stem[i]);
        }
        assert(l.subrange(n, n + 4) =~= ".jar"@);
        assert(ends_with(l, ".jar"@));
        assert(f.subrange(0, 1)[0] == stem[0]);
        assert(!starts_with(f, "."@));
        assert(!ends_with(l, "-sources.jar"@)) by {
            if ends_with(l, "-sources.jar"@) {
                assert(l.subrange(n + 4 - 12, n + 4)[0] == '-');
                assert(l[n - 8] == '-');
            }
        }
        assert(!ends_with(l, "-dev.jar"@)) by {
            if ends_with(l, "-dev.jar"@) {
                assert(l.subrange(n + 4 - 8, n + 4)[0] == '-');
                assert(l[n - 4] == '-');
            }
        }
    }
    assert(exts[0] == seq!['.', 'j', 'a', 'r']);
    assert(exts[1] == seq!['.', 'J', 'A', 'R']);
}

/// Law: source and development jars are refused as not runtime mods, in any
/// case, and a name that does not end in `.jar` is refused as not a jar,
/// whatever precedes the suffix (so long as the name is not hidden, nor the
/// bare suffix `.zip`, which is).
pub proof fn lemma_non_mods_refused(p: Seq<char>, stem: Seq<char>)
    requires
        stem.len() == 0 || stem[0] != '.',
    ensures
        mod_verdict(p, Some(stem + "-sources.jar"@)) == Err::<(), AppErrorView>(
            AppErrorView::InvalidMod { path: p, reason: "source/dev jars are not runtime mods"@ },
        ),
        mod_verdict(p, Some(stem + "-dev.jar"@)) == Err::<(), AppErrorView>(
            AppErrorView::InvalidMod { path: p, reason: "source/dev jars are not runtime mods"@ },
        ),
        mod_verdict(p, Some(stem + "-DEV.JAR"@)) == Err::<(), AppErrorView>(
            AppErrorView::InvalidMod { path: p, reason: "source/dev jars are not runtime mods"@ },
        ),
        stem.len() > 0 ==> mod_verdict(p, Some(stem + ".zip"@)) == Err::<(), AppErrorView>(
            AppErrorView::InvalidMod { path: p, reason: "mods must be .jar files"@ },
        ),
{
    reveal_strlit(".");
    reveal_strlit(".jar");
    reveal_strlit("-sources.jar");
    reveal_strlit("-dev.jar");
    reveal_strlit("-DEV.JAR");
    reveal_strlit(".zip");
    assert(!starts_with(stem + "-sources.jar"@, "."@)) by { lemma_not_hidden(stem, "-sources.jar"@); }
    assert(!starts_with(stem + "-dev.jar"@, "."@)) by { lemma_not_hidden(stem, "-dev.jar"@); }
    assert(!starts_with(stem + "-DEV.JAR"@, "."@)) by { lemma_not_hidden(stem, "-DEV.JAR"@); }
    if stem.len() > 0 {
        lemma_not_hidden(stem, ".zip"@);
    }
    lemma_lower_suffix(stem, "-sources.jar"@);
    lemma_lower_suffix(stem, "-dev.jar"@);
    lemma_lower_suffix(stem, "-DEV.JAR"@);
    lemma_lower_suffix(stem, ".zip"@);
    assert(lower("-sources.jar"@) =~= "-sources.jar"@);
    assert(lower("-dev.jar"@) =~= "-dev.jar"@);
    assert(lower("-DEV.JAR"@) =~= "-dev.jar"@);
    assert(lower(".zip"@) =~= ".zip"@);
    let n = stem.len() as int;
    let l1 = lower(stem + "-sources.jar"@);
    assert(l1.subrange(n + 12 - 4, n + 12) =~= ".jar"@);
    assert(l1.subrange(n, n + 12) =~= "-sources.jar"@);
    let l2 = lower(stem + "-dev.jar"@);
    assert(l2.subrange(n + 8 - 4, n + 8) =~= ".jar"@);
    assert(l2.subrange(n, n + 8) =~= "-dev.jar"@);
    let l3 = lower(stem + "-DEV.JAR"@);
    assert(l3.subrange(n + 8 - 4, n + 8) =~= ".jar"@);
    assert(l3.subrange(n, n + 8) =~= "-dev.jar"@);
    let l4 = lower(stem + ".zip"@);
    assert(l4.subrange(n, n + 4) =~= ".zip"@);
    assert(!ends_with(l4, ".jar"@)) by {
        assert(l4.subrange(n, n + 4)[1] == 'z');
    }
}

/// Lemma: the lowercase form of a text ends with the lowercase form of its
/// suffix.
proof fn lemma_lower_suffix(stem: Seq<char>, suf: Seq<char>)
    ensures
        lower(stem + suf).len() == stem.len() + suf.len(),
        lower(stem + suf).subrange(stem.len() as int, (stem.len() + suf.len()) as int) == lower(suf),
{
    let l = lower(stem + suf);
    assert(l.subrange(stem.len() as int, (stem.len() + suf.len()) as int) =~= lower(suf));
}

/// Lemma: a name that starts like a non-hidden stem, or with a suffix that
/// starts with `-`, is not hidden.
proof fn lemma_not_hidden(stem: Seq<char>, suf: Seq<char>)
    requires
        stem.len() == 0 || stem[0] != '.',
        suf.len() > 0,
        stem.len() > 0 || suf[0] == '-',
    ensures
        !starts_with(stem + suf, "."@),
{
    reveal_strlit(".");
    let f = stem + suf;
    if starts_with(f, "."@) {
        assert(f.subrange(0, 1)[0] == f[0]);
    }
}

/// The container path the mods volume is mounted at.
pub fn mods_mount_path() -> (p: &'static str)
    ensures
        p@ == "/data/mods"@,
{
    "/data/mods"
}

} // verus!
