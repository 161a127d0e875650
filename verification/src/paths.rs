//! How a path or a model is named to an engine that runs elsewhere.

use crate::runtime::Runtime;
use crate::text::{
    chars_of, find_char, is_digit, is_letter, is_white, lemma_strip_ends, lemma_strip_nothing,
    lemma_strip_start, lemma_strip_start_of, lower_letter, starts_with, strip_chars, strip_chars_start, strip_start,
    string_of, trim, CharSet,
};
use vstd::prelude::*;

verus! {

/// `path` begins with a Windows drive, a letter and a colon.
pub open spec fn has_drive(path: Seq<char>) -> bool {
    path.len() >= 2 && is_letter(path[0]) && path[1] == ':'
}

/// `path` with a slash for each backslash.
pub open spec fn slashed(path: Seq<char>) -> Seq<char> {
    path.map_values(|c: char| if c == '\\' { '/' } else { c })
}

/// The path by which WSL reaches `path`: one that begins with `/` is one of the distribution
/// already; a drive is mounted under `/mnt`; of any other only the separators change. White
/// space around the path does not belong to it.
pub open spec fn wsl_path(path: Seq<char>) -> Seq<char> {
    let path = trim(path);
    if path.len() > 0 && path[0] == '/' {
        path
    } else if has_drive(path) {
        "/mnt/"@ + seq![lower_letter(path[0])] + "/"@ + strip_start(
            slashed(path.skip(2)),
            CharSet::Only('/'),
        )
    } else {
        slashed(path)
    }
}

/// What an owner or a name on Hugging Face is made of.
pub open spec fn is_repo_char(c: char) -> bool {
    is_letter(c) || is_digit(c) || c == '-' || c == '_' || c == '.'
}

/// `value` is an `owner/name` with one slash in it, between an owner and a name, and does not
/// begin as a relative path does.
pub open spec fn is_repo_id(value: Seq<char>) -> bool {
    exists|slash: int| #[trigger] is_repo_id_at(value, slash)
}

/// `value` is an `owner/name` whose slash is at `slash`.
pub open spec fn is_repo_id_at(value: Seq<char>, slash: int) -> bool {
    &&& 0 < slash < value.len() - 1
    &&& value[slash] == '/'
    &&& value[0] != '.'
    &&& forall|i: int| 0 <= i < value.len() && i != slash ==> is_repo_char(#[trigger] value[i])
}

/// What the engine is told of a model: the identifier of a repository stays as it is, and so
/// does a path, unless the engine runs in WSL.
pub open spec fn engine_model(model: Seq<char>, runtime: Runtime) -> Seq<char> {
    let model = trim(model);
    if is_repo_id(model) || runtime is Native {
        model
    } else {
        wsl_path(model)
    }
}

/// Whether `path` begins with a Windows drive.
pub fn is_letter_drive(path: &Vec<char>) -> (drive: bool)
    ensures
        drive == has_drive(path@),
{
    path.len() >= 2 && (('a' <= path[0] && path[0] <= 'z') || ('A' <= path[0] && path[0] <= 'Z'))
        && path[1] == ':'
}

/// The characters of `path` from `from` on, with a slash for each backslash.
fn slashed_from(path: &Vec<char>, from: usize) -> (result: Vec<char>)
    requires
        from <= path@.len(),
    ensures
        result@ == slashed(path@.skip(from as int)),
{
    let mut result: Vec<char> = Vec::new();
    let mut i: usize = from;
    while i < path.len()
        invariant
            from <= i <= path@.len(),
            result@ == slashed(path@.subrange(from as int, i as int)),
        decreases path@.len() - i,
    {
        result.push(if path[i] == '\\' { '/' } else { path[i] });
        i += 1;
        assert(path@.subrange(from as int, i as int) =~= path@.subrange(from as int, i - 1).push(
            path@[i - 1],
        ));
        assert(result@ =~= slashed(path@.subrange(from as int, i as int)));
    }
    assert(path@.subrange(from as int, i as int) =~= path@.skip(from as int));
    result
}

/// The path by which WSL reaches the Windows path `path`.
///
/// `D:\Documents\modeles` becomes `/mnt/d/Documents/modeles`. A POSIX path is returned as it
/// is: the weights may well live in the distribution itself.
pub fn to_wsl_path(path: &str) -> (result: String)
    ensures
        result@ == wsl_path(path@),
{
    let trimmed = strip_chars(&chars_of(path), CharSet::White);
    if trimmed.len() > 0 && trimmed[0] == '/' {
        return string_of(&trimmed);
    }
    if is_letter_drive(&trimmed) {
        let letter = trimmed[0];
        let lower: char = if 'A' <= letter && letter <= 'Z' {
            (letter as u8 + 32) as char
        } else {
            letter
        };
        let rest = strip_chars_start(&slashed_from(&trimmed, 2), CharSet::Only('/'));
        let mut result = "/mnt/".to_string();
        result.push(lower);
        assert(result@ =~= "/mnt/"@ + seq![lower_letter(letter)]);
        result.append("/");
        result.append(string_of(&rest).as_str());
        return result;
    }
    assert(trimmed@.skip(0) =~= trimmed@);
    string_of(&slashed_from(&trimmed, 0))
}

/// Whether `value` reads as `owner/name`, the identifier of a Hugging Face repository, and not
/// as a URL or as a path.
pub fn looks_like_hf_repo_id(value: &str) -> (looks: bool)
    ensures
        looks == is_repo_id(value@),
{
    let chars = chars_of(value);
    let slash = find_char(&chars, 0, '/');
    if slash == 0 || slash >= chars.len() || slash + 1 == chars.len() || chars[0] == '.' {
        proof {
            if is_repo_id(value@) {
                let at = choose|at: int| is_repo_id_at(value@, at);
                assert(value@[at] == '/');
                assert(slash <= at);
                if slash < at {
                    assert(is_repo_char(value@[slash as int]));
                }
            }
        }
        return false;
    }
    let mut i: usize = 0;
    while i < chars.len()
        invariant
            i <= chars@.len(),
            chars@ == value@,
            0 < slash < chars@.len() - 1,
            chars@[slash as int] == '/',
            forall|j: int| 0 <= j < i && j != slash ==> is_repo_char(#[trigger] chars@[j]),
        decreases chars@.len() - i,
    {
        let c = chars[i];
        let allowed: bool = ('a' <= c && c <= 'z') || ('A' <= c && c <= 'Z') || ('0' <= c && c
            <= '9') || c == '-' || c == '_' || c == '.';
        if i != slash && !allowed {
            proof {
                if is_repo_id(value@) {
                    let at = choose|at: int| is_repo_id_at(value@, at);
                    if slash != at {
                        assert(is_repo_char(value@[slash as int]));
                    }
                    assert(is_repo_char(value@[i as int]));
                }
            }
            return false;
        }
        i += 1;
    }
    assert(is_repo_id_at(value@, slash as int));
    true
}

/// The model, named for the engine.
///
/// The identifier of a Hugging Face repository (`Qwen/Qwen3.6-35B-A3B`) is left as it is: the
/// engine recognises it and downloads by itself. A path is translated where the engine runs in
/// WSL.
pub fn model_for_engine(model: &str, runtime: &Runtime) -> (result: String)
    ensures
        result@ == engine_model(model@, *runtime),
{
    let trimmed = string_of(&strip_chars(&chars_of(model), CharSet::White));
    if looks_like_hf_repo_id(trimmed.as_str()) {
        return trimmed;
    }
    match runtime {
        Runtime::Wsl { .. } => to_wsl_path(trimmed.as_str()),
        Runtime::Native => trimmed,
    }
}

// ---------------------------------------------------------------------------
// Laws
// ---------------------------------------------------------------------------

/// The slashed path is as long, ends alike where no backslash is concerned, and holds no
/// backslash.
proof fn lemma_slashed(path: Seq<char>)
    ensures
        slashed(path).len() == path.len(),
        forall|i: int| 0 <= i < path.len() ==> #[trigger] slashed(path)[i] != '\\',
        forall|i: int|
            0 <= i < path.len() && path[i] != '\\' ==> #[trigger] slashed(path)[i] == path[i],
        forall|i: int|
            0 <= i < path.len() && path[i] == '\\' ==> #[trigger] slashed(path)[i] == '/',
{
}

/// What stands before and after a translated path: nothing white.
proof fn lemma_wsl_path_ends(path: Seq<char>)
    ensures
        wsl_path(path).len() > 0 ==> !is_white(wsl_path(path)[0]) && !is_white(
            wsl_path(path).last(),
        ),
{
    reveal_strlit("/mnt/");
    reveal_strlit("/");
    lemma_strip_ends(path, CharSet::White);
    let trimmed = trim(path);
    if trimmed.len() > 0 && trimmed[0] == '/' {
    } else if has_drive(trimmed) {
        let rest = slashed(trimmed.skip(2));
        lemma_slashed(trimmed.skip(2));
        lemma_strip_start(rest, CharSet::Only('/'));
        let kept = strip_start(rest, CharSet::Only('/'));
        if kept.len() > 0 {
            assert(wsl_path(path).last() == kept.last());
            assert(kept.last() == rest.last());
            assert(trimmed.skip(2).last() == trimmed.last());
        } else {
            assert(wsl_path(path).last() == '/');
        }
    } else {
        lemma_slashed(trimmed);
    }
}

/// A path that begins with `/` is one of the distribution: nothing of it is rewritten.
pub proof fn law_posix_path_is_kept(path: Seq<char>)
    requires
        trim(path).len() > 0,
        trim(path)[0] == '/',
    ensures
        wsl_path(path) == trim(path),
{
}

/// A path on a drive is found under the mount point of that drive, whichever the case of its
/// letter.
pub proof fn law_drive_is_mounted(letter: char, rest: Seq<char>)
    requires
        is_letter(letter),
        rest.len() > 0 ==> !is_white(rest.last()),
    ensures
        starts_with(
            wsl_path(seq![letter, ':'] + rest),
            "/mnt/"@ + seq![lower_letter(letter)] + "/"@,
        ),
{
    let path = seq![letter, ':'] + rest;
    lemma_strip_nothing(path, CharSet::White);
    let mount = "/mnt/"@ + seq![lower_letter(letter)] + "/"@;
    assert(wsl_path(path).take(mount.len() as int) =~= mount);
}

/// A translated path is translated: doing it again changes nothing.
pub proof fn law_wsl_path_is_idempotent(path: Seq<char>)
    ensures
        wsl_path(wsl_path(path)) == wsl_path(path),
{
    reveal_strlit("/mnt/");
    lemma_wsl_path_ends(path);
    lemma_strip_nothing(wsl_path(path), CharSet::White);
    let trimmed = trim(path);
    if trimmed.len() > 0 && trimmed[0] == '/' {
    } else if has_drive(trimmed) {
        assert(wsl_path(path)[0] == '/');
    } else {
        lemma_slashed(trimmed);
        assert(slashed(slashed(trimmed)) =~= slashed(trimmed));
    }
}

/// No backslash is left in a path that did not begin with `/`.
pub proof fn law_no_backslash_is_left(path: Seq<char>)
    requires
        !(trim(path).len() > 0 && trim(path)[0] == '/'),
    ensures
        !wsl_path(path).contains('\\'),
{
    reveal_strlit("/mnt/");
    reveal_strlit("/");
    let trimmed = trim(path);
    if has_drive(trimmed) {
        let rest = slashed(trimmed.skip(2));
        lemma_slashed(trimmed.skip(2));
        lemma_strip_start(rest, CharSet::Only('/'));
    } else {
        lemma_slashed(trimmed);
    }
}

/// The identifier of a repository reaches the engine unchanged, wherever the engine runs.
pub proof fn law_repo_id_is_kept(model: Seq<char>, runtime: Runtime)
    requires
        is_repo_id(model),
    ensures
        engine_model(model, runtime) == model,
{
    let slash = choose|slash: int| is_repo_id_at(model, slash);
    assert(is_repo_char(model[0]));
    assert(is_repo_char(model.last()));
    lemma_strip_nothing(model, CharSet::White);
}

/// A path, a URL or a single name is no identifier of a repository.
pub proof fn law_what_is_no_repo_id(value: Seq<char>)
    requires
        value.contains('\\') || value.contains(' ') || value.contains(':') || (value.len() > 0 && (
        value[0] == '/' || value[0] == '.')) || !value.contains('/'),
    ensures
        !is_repo_id(value),
{
    if is_repo_id(value) {
        let slash = choose|slash: int| is_repo_id_at(value, slash);
        if value.contains('\\') {
            let i = choose|i: int| 0 <= i < value.len() && value[i] == '\\';
            assert(is_repo_char(value[i]));
        }
        if value.contains(' ') {
            let i = choose|i: int| 0 <= i < value.len() && value[i] == ' ';
            assert(is_repo_char(value[i]));
        }
        if value.contains(':') {
            let i = choose|i: int| 0 <= i < value.len() && value[i] == ':';
            assert(is_repo_char(value[i]));
        }
        assert(is_repo_char(value[0]));
        assert(value[slash] == '/');
    }
}

/// A path on a drive is the path under the mount point of that drive, in lower case, with a slash
/// for each backslash and every other character as it was.
pub proof fn law_path_on_a_drive_is_kept_whole(letter: char, separator: char, rest: Seq<char>)
    requires
        is_letter(letter),
        separator == '/' || separator == '\\',
        rest.len() > 0,
        rest[0] != '/' && rest[0] != '\\',
        !is_white(rest.last()),
    ensures
        ({
            let path = wsl_path(seq![letter, ':', separator] + rest);
            &&& path.len() == 7 + rest.len()
            &&& path.take(5) == "/mnt/"@
            &&& 'a' <= path[5] <= 'z'
            &&& path[5] == letter || path[5] as int == letter as int + 32
            &&& path[6] == '/'
            &&& forall|i: int|
                0 <= i < rest.len() ==> #[trigger] path[7 + i] == (if rest[i] == '\\' {
                    '/'
                } else {
                    rest[i]
                })
        }),
{
    reveal_strlit("/mnt/");
    reveal_strlit("/");
    let whole = seq![letter, ':', separator] + rest;
    assert(whole.last() == rest.last());
    lemma_strip_nothing(whole, CharSet::White);
    let after = whole.skip(2);
    assert(after =~= seq![separator] + rest);
    lemma_slashed(after);
    let inner = slashed(after);
    assert(inner[0] == '/');
    assert(inner[1] == rest[0]);
    reveal_with_fuel(strip_start, 2);
    assert(inner.skip(1)[0] == inner[1]);
    assert(strip_start(inner, CharSet::Only('/')) == inner.skip(1));
    let path = wsl_path(whole);
    assert(path.take(5) =~= "/mnt/"@);
    assert forall|i: int| 0 <= i < rest.len() implies #[trigger] path[7 + i] == (if rest[i]
        == '\\' {
        '/'
    } else {
        rest[i]
    }) by {
        assert(path[7 + i] == inner[1 + i]);
        assert(after[1 + i] == rest[i]);
    }
}

/// A path without a drive that is not one of the distribution keeps every character, but for a
/// slash in place of each backslash.
pub proof fn law_path_without_a_drive_is_kept_whole(path: Seq<char>)
    requires
        path.len() > 0,
        path[0] != '/',
        !has_drive(path),
        !is_white(path[0]) && !is_white(path.last()),
    ensures
        wsl_path(path).len() == path.len(),
        forall|i: int|
            0 <= i < path.len() ==> #[trigger] wsl_path(path)[i] == (if path[i] == '\\' {
                '/'
            } else {
                path[i]
            }),
{
    lemma_strip_nothing(path, CharSet::White);
    lemma_slashed(path);
}

/// An owner and a name made of letters, digits, dashes, underscores and dots are the identifier of
/// a repository, unless the owner begins with a dot.
pub proof fn law_owner_and_name_are_a_repo_id(owner: Seq<char>, name: Seq<char>)
    requires
        owner.len() > 0 && name.len() > 0,
        owner[0] != '.',
        forall|i: int|
            0 <= i < owner.len() ==> is_letter(#[trigger] owner[i]) || is_digit(owner[i])
                || owner[i] == '-' || owner[i] == '_' || owner[i] == '.',
        forall|i: int|
            0 <= i < name.len() ==> is_letter(#[trigger] name[i]) || is_digit(name[i]) || name[i]
                == '-' || name[i] == '_' || name[i] == '.',
    ensures
        is_repo_id(owner + seq!['/'] + name),
{
    let value = owner + seq!['/'] + name;
    let slash = owner.len() as int;
    assert forall|i: int| 0 <= i < value.len() && i != slash implies is_repo_char(
        #[trigger] value[i],
    ) by {
        if i < slash {
            assert(value[i] == owner[i]);
        } else {
            assert(value[i] == name[i - slash - 1]);
        }
    }
    assert(is_repo_id_at(value, slash));
}

/// A path is named to the engine as it is under Linux, and as WSL reaches it under Windows, without
/// the white space around it.
pub proof fn law_path_is_named_where_the_engine_runs(path: Seq<char>, distro: Option<String>)
    requires
        !is_repo_id(trim(path)),
    ensures
        engine_model(path, Runtime::Native) == trim(path),
        engine_model(path, Runtime::Wsl { distro }) == wsl_path(path),
{
    lemma_strip_ends(path, CharSet::White);
    lemma_strip_nothing(trim(path), CharSet::White);
}

/// What is the identifier of a repository is an owner and a name, with one slash between them, both
/// made of letters, digits, dashes, underscores and dots.
pub proof fn law_repo_id_is_an_owner_and_a_name(value: Seq<char>)
    requires
        is_repo_id(value),
    ensures
        exists|slash: int|
            {
                &&& 0 < slash < value.len() - 1
                &&& #[trigger] value[slash] == '/'
                &&& value[0] != '.'
                &&& forall|i: int|
                    0 <= i < value.len() && i != slash ==> is_letter(#[trigger] value[i])
                        || is_digit(value[i]) || value[i] == '-' || value[i] == '_' || value[i]
                        == '.'
            },
{
    let slash = choose|slash: int| is_repo_id_at(value, slash);
    assert forall|i: int| 0 <= i < value.len() && i != slash implies is_letter(#[trigger] value[i])
        || is_digit(value[i]) || value[i] == '-' || value[i] == '_' || value[i] == '.' by {
        assert(is_repo_char(value[i]));
    }
    assert(value[slash] == '/');
}

/// However many separators follow a drive, of either kind, and where none does, what follows them
/// is found under one slash after the mount point of the drive.
pub proof fn law_separators_after_a_drive_are_one(
    letter: char,
    separators: Seq<char>,
    rest: Seq<char>,
)
    requires
        is_letter(letter),
        forall|i: int|
            0 <= i < separators.len() ==> #[trigger] separators[i] == '/' || separators[i] == '\\',
        rest.len() > 0 ==> rest[0] != '/' && rest[0] != '\\' && !is_white(rest.last()),
    ensures
        wsl_path(seq![letter, ':'] + separators + rest) == wsl_path(seq![letter, ':', '/'] + rest),
        wsl_path(seq![letter, ':']) == "/mnt/"@ + seq![lower_letter(letter)] + "/"@,
{
    lemma_after_drive(letter, separators, rest);
    lemma_after_drive(letter, seq!['/'], rest);
    assert(seq![letter, ':'] + seq!['/'] + rest =~= seq![letter, ':', '/'] + rest);
    lemma_after_drive(letter, seq![], seq![]);
    assert(seq![letter, ':'] + Seq::<char>::empty() + Seq::<char>::empty() =~= seq![letter, ':']);
    let mount = "/mnt/"@ + seq![lower_letter(letter)] + "/"@;
    assert(mount + slashed(Seq::<char>::empty()) =~= mount);
}

/// What a path on a drive is translated to.
proof fn lemma_after_drive(letter: char, separators: Seq<char>, rest: Seq<char>)
    requires
        is_letter(letter),
        forall|i: int|
            0 <= i < separators.len() ==> #[trigger] separators[i] == '/' || separators[i] == '\\',
        rest.len() > 0 ==> rest[0] != '/' && rest[0] != '\\' && !is_white(rest.last()),
    ensures
        wsl_path(seq![letter, ':'] + separators + rest) == "/mnt/"@ + seq![lower_letter(letter)]
            + "/"@ + slashed(rest),
{
    let whole = seq![letter, ':'] + separators + rest;
    if rest.len() > 0 {
        assert(whole.last() == rest.last());
    } else if separators.len() > 0 {
        assert(whole.last() == separators.last());
        assert(separators[separators.len() - 1] == separators.last());
    } else {
        assert(whole.last() == ':');
    }
    lemma_strip_nothing(whole, CharSet::White);
    let after = whole.skip(2);
    assert(after =~= separators + rest);
    lemma_slashed(after);
    lemma_slashed(separators);
    lemma_slashed(rest);
    assert(slashed(after) =~= slashed(separators) + slashed(rest));
    assert forall|i: int| 0 <= i < slashed(separators).len() implies CharSet::Only('/').has(
        #[trigger] slashed(separators)[i],
    ) by {
        assert(separators[i] == '/' || separators[i] == '\\');
    }
    lemma_strip_start_of(slashed(separators), slashed(rest), CharSet::Only('/'));
}

} // verus!
