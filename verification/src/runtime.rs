//! Where the engine runs, and the folders that the extension keeps.

use crate::paths::{has_drive, is_letter_drive};
use crate::settings::Settings;
use crate::text::{
    after_prefix, chars_of, find, find_char, is_letter, law_first_character_is_found, same_text, starts_with, string_between, string_of,
    strip_chars_end, strip_end, CharSet,
};
use vstd::prelude::*;

verus! {

/// What `ft`, the command line of the engine, is called.
pub const CLI: &'static str = "ft";

/// How the engine is reached on this machine.
#[derive(Debug, Clone, PartialEq, Eq)]
pub enum Runtime {
    /// Linux: the engine runs as it is, from the managed Python environment or from the
    /// search path of the system.
    Native,
    /// Windows: the engine runs in a WSL2 distribution, reached through `wsl.exe`. No
    /// distribution stands for the default one.
    Wsl { distro: Option<String> },
}

impl Runtime {
    /// What the machine imposes: under Windows only WSL can run the engine, in the
    /// distribution that the settings name; elsewhere it runs as it is.
    pub fn detect(settings: &Settings, windows: bool) -> (runtime: Runtime)
        ensures
            runtime == (if windows {
                Runtime::Wsl { distro: settings.wsl_distro }
            } else {
                Runtime::Native
            }),
    {
        if windows {
            Runtime::Wsl {
                distro: match &settings.wsl_distro {
                    Some(distro) => Some(distro.clone()),
                    None => None,
                },
            }
        } else {
            Runtime::Native
        }
    }

    pub fn is_wsl(&self) -> (wsl: bool)
        ensures
            wsl == (*self is Wsl),
    {
        match self {
            Runtime::Wsl { .. } => true,
            Runtime::Native => false,
        }
    }
}

/// What the process knows of the machine that it runs on.
#[derive(Debug, Clone)]
pub struct Host {
    /// The process runs under Windows: paths are written with its separators.
    pub windows: bool,
    /// The private folder of the extension, see [`extension_data_dir`].
    pub data_dir: String,
    /// The file that [`venv_cli_path`] names exists.
    pub cli_present: bool,
}

/// What separates the components of a path, on a host that is Windows or is not.
pub open spec fn is_separator(windows: bool, c: char) -> bool {
    c == '/' || (windows && c == '\\')
}

/// The path is a verbatim one of Windows, which the system takes as it is written: a slash
/// separates nothing in it.
pub open spec fn is_verbatim(windows: bool, path: Seq<char>) -> bool {
    windows && starts_with(path, "\\\\?\\"@)
}

/// `path` with one backslash for each run of them.
pub open spec fn without_runs(path: Seq<char>) -> Seq<char>
    decreases path.len(),
{
    if path.len() == 0 {
        path
    } else if path.last() == '\\' && path.len() > 1 && path[path.len() - 2] == '\\' {
        without_runs(path.drop_last())
    } else {
        without_runs(path.drop_last()).push(path.last())
    }
}

/// How many characters of a verbatim path name what it is a path of: a share, as in
/// `\\?\UNC\server\share`, a drive, as in `\\?\C:`, or anything else by its first component.
pub open spec fn verbatim_prefix(path: Seq<char>) -> int {
    let rest = path.skip(4);
    if rest.len() >= 4 && rest.take(3) == "UNC"@ && is_separator(true, rest[3]) {
        let server = find(rest.skip(4), '\\');
        let share = find(rest.skip(4).skip(server + 1), '\\');
        if server < rest.len() - 4 && share > 0 {
            8 + server + 1 + share
        } else {
            8 + server
        }
    } else if has_drive(rest) && (rest.len() == 2 || is_separator(true, rest[2])) {
        6
    } else {
        4 + find(rest, '\\')
    }
}

/// What follows the prefix of a verbatim path: its root, a separator, and its components. Each
/// component is written after one backslash, and none of them is empty.
pub open spec fn verbatim_components(after: Seq<char>) -> Seq<char> {
    if after.len() == 0 {
        after
    } else {
        strip_end(without_runs(seq!['\\'] + after.skip(1)), CharSet::Only('\\'))
    }
}

/// The folder `base`, with what separates it from a name in it.
///
/// A separator is put at its end where it does not end in one already; none follows an empty path
/// or, under Windows, a drive alone (`C:`). A verbatim path is written anew: its prefix, its root
/// and its components.
pub open spec fn within(windows: bool, base: Seq<char>) -> Seq<char> {
    if is_verbatim(windows, base) {
        let prefix = verbatim_prefix(base);
        base.take(prefix) + verbatim_components(base.skip(prefix)) + "\\"@
    } else if base.len() == 0 || is_separator(windows, base.last()) || (windows && base.len() == 2
        && has_drive(base)) {
        base
    } else {
        base.push(if windows { '\\' } else { '/' })
    }
}

/// The path of `name`, which is not empty, holds no separator and is not `..`, in the folder
/// `base`.
///
/// Under Windows a name that begins with a drive is a path of its own, in which `base` has no
/// part, and `.` adds nothing to a verbatim path, of which the root alone ends in a separator.
pub open spec fn join(windows: bool, base: Seq<char>, name: Seq<char>) -> Seq<char> {
    if windows && has_drive(name) {
        name
    } else if is_verbatim(windows, base) && name == "."@ {
        let prefix = verbatim_prefix(base);
        let components = verbatim_components(base.skip(prefix));
        if base.skip(prefix).len() > 0 && components.len() == 0 {
            within(windows, base)
        } else {
            base.take(prefix) + components
        }
    } else {
        within(windows, base) + name
    }
}

/// How many characters of a verbatim path name what it is a path of.
fn verbatim_prefix_len(path: &Vec<char>) -> (len: usize)
    requires
        path@.len() >= 4,
    ensures
        len == verbatim_prefix(path@),
        4 <= len <= path@.len(),
{
    let ghost rest = path@.skip(4);
    proof {
        reveal_strlit("UNC");
    }
    let share_follows: bool = path.len() >= 8 && path[4] == 'U' && path[5] == 'N' && path[6] == 'C'
        && (path[7] == '\\' || path[7] == '/');
    assert(share_follows == (rest.len() >= 4 && rest.take(3) == "UNC"@ && is_separator(
        true,
        rest[3],
    ))) by {
        if rest.len() >= 4 {
            assert(rest.take(3)[0] == path@[4] && rest.take(3)[1] == path@[5] && rest.take(3)[2]
                == path@[6]);
            if share_follows {
                assert(rest.take(3) =~= "UNC"@);
            }
        }
    }
    if share_follows {
        let server_end = find_char(path, 8, '\\');
        assert(rest.skip(4) =~= path@.skip(8));
        if server_end < path.len() {
            let share_end = find_char(path, server_end + 1, '\\');
            assert(rest.skip(4).skip(server_end - 8 + 1) =~= path@.skip(server_end + 1));
            if share_end > server_end + 1 {
                return share_end;
            }
        }
        return server_end;
    }
    let drive: bool = path.len() >= 6 && (('a' <= path[4] && path[4] <= 'z') || ('A' <= path[4]
        && path[4] <= 'Z')) && path[5] == ':';
    assert(drive == has_drive(rest));
    if drive && (path.len() == 6 || path[6] == '\\' || path[6] == '/') {
        return 6;
    }
    find_char(path, 4, '\\')
}

/// `path` with one backslash for each run of them.
fn chars_without_runs(path: &Vec<char>) -> (result: Vec<char>)
    ensures
        result@ == without_runs(path@),
{
    let mut result: Vec<char> = Vec::new();
    let mut i: usize = 0;
    assert(path@.take(0) =~= seq![]);
    while i < path.len()
        invariant
            i <= path@.len(),
            result@ == without_runs(path@.take(i as int)),
        decreases path@.len() - i,
    {
        let ghost next = path@.take(i + 1);
        assert(next.drop_last() =~= path@.take(i as int));
        if !(path[i] == '\\' && i > 0 && path[i - 1] == '\\') {
            result.push(path[i]);
        }
        i += 1;
    }
    assert(path@.take(i as int) =~= path@);
    result
}

/// What follows the prefix of a verbatim path, which ends at `from`.
fn components_from(path: &Vec<char>, from: usize) -> (components: Vec<char>)
    requires
        from <= path@.len(),
    ensures
        components@ == verbatim_components(path@.skip(from as int)),
{
    let ghost after = path@.skip(from as int);
    if from == path.len() {
        let components: Vec<char> = Vec::new();
        assert(components@ =~= after);
        return components;
    }
    let mut rooted: Vec<char> = Vec::new();
    rooted.push('\\');
    let mut i: usize = from + 1;
    while i < path.len()
        invariant
            from < i <= path@.len(),
            rooted@ =~= seq!['\\'] + path@.subrange(from + 1, i as int),
        decreases path@.len() - i,
    {
        rooted.push(path[i]);
        i += 1;
    }
    assert(rooted@ =~= seq!['\\'] + after.skip(1));
    strip_chars_end(&chars_without_runs(&rooted), CharSet::Only('\\'))
}

/// The path of `name`, which is not empty, holds no separator and is not `..`, in the folder
/// `base`.
pub fn join_path(windows: bool, base: &str, name: &str) -> (path: String)
    ensures
        path@ == join(windows, base@, name@),
{
    if windows && is_letter_drive(&chars_of(name)) {
        return name.to_string();
    }
    let chars = chars_of(base);
    if windows && after_prefix(base, "\\\\?\\").is_some() {
        proof {
            reveal_strlit("\\\\?\\");
        }
        let prefix = verbatim_prefix_len(&chars);
        let components = components_from(&chars, prefix);
        assert(chars@.subrange(0, prefix as int) =~= chars@.take(prefix as int));
        let mut path = string_between(&chars, 0, prefix);
        path.append(string_of(&components).as_str());
        if !same_text(name, ".") {
            path.append("\\");
            path.append(name);
        } else if prefix < chars.len() && components.len() == 0 {
            path.append("\\");
        }
        return path;
    }
    let len: usize = chars.len();
    let mut path = base.to_string();
    let bare: bool = len == 0 || chars[len - 1] == '/' || (windows && chars[len - 1] == '\\') || (
    windows && len == 2 && is_letter_drive(&chars));
    if !bare {
        path.push(if windows { '\\' } else { '/' });
    }
    path.append(name);
    path
}

/// The private folder of the extension: the one that the application configured, or else a
/// folder of its own among the temporary files.
pub fn extension_data_dir(windows: bool, configured: Option<&str>, temp_dir: &str) -> (dir: String)
    ensures
        dir@ == (match configured {
            Some(configured) => configured@,
            None => join(windows, temp_dir@, "locaryn-freetoken"@),
        }),
{
    match configured {
        Some(configured) => configured.to_string(),
        None => join_path(windows, temp_dir, "locaryn-freetoken"),
    }
}

impl Host {
    /// The path of a folder or file directly in the private folder.
    pub open spec fn in_data_dir(self, name: Seq<char>) -> Seq<char> {
        join(self.windows, self.data_dir@, name)
    }

    /// The managed Python environment.
    pub open spec fn venv(self) -> Seq<char> {
        self.in_data_dir("venv"@)
    }

    /// The `ft` of the managed environment.
    pub open spec fn venv_cli(self) -> Seq<char> {
        join(self.windows, join(self.windows, self.venv(), "bin"@), CLI@)
    }
}

/// The Python environment that the extension manages for the engine. It lives in the private
/// folder of the extension, so that removing the extension removes it too.
pub fn venv_dir(host: &Host) -> (dir: String)
    ensures
        dir@ == host.venv(),
{
    join_path(host.windows, host.data_dir.as_str(), "venv")
}

/// The folder of the checkpoints that the extension has converted.
pub fn converted_dir(host: &Host) -> (dir: String)
    ensures
        dir@ == host.in_data_dir("models"@),
{
    join_path(host.windows, host.data_dir.as_str(), "models")
}

/// Where the `ft` of the managed environment is, once it is installed.
pub fn venv_cli_path(host: &Host) -> (path: String)
    ensures
        path@ == host.venv_cli(),
{
    let bin = join_path(host.windows, venv_dir(host).as_str(), "bin");
    join_path(host.windows, bin.as_str(), CLI)
}

/// The `ft` of the managed environment, if it is there. Under WSL the environment is seen
/// from the distribution alone, so that nothing is found from here.
pub fn venv_cli(host: &Host, runtime: &Runtime) -> (path: Option<String>)
    ensures
        path is Some == (*runtime is Native && host.cli_present),
        path matches Some(path) ==> path@ == host.venv_cli(),
{
    match runtime {
        Runtime::Wsl { .. } => None,
        Runtime::Native => if host.cli_present {
            Some(venv_cli_path(host))
        } else {
            None
        },
    }
}

/// What the extension keeps lies in its private folder, so that removing that folder removes it.
pub proof fn law_folders_lie_in_the_private_folder(host: Host)
    ensures
        starts_with(host.venv(), within(host.windows, host.data_dir@)),
        starts_with(host.in_data_dir("models"@), within(host.windows, host.data_dir@)),
{
    reveal_strlit("venv");
    reveal_strlit("models");
    reveal_strlit(".");
    assert("venv"@[1] != ':' && "models"@[1] != ':');
    assert("venv"@.len() > 1 && "models"@.len() > 1);
    let windows = host.windows;
    let inside = within(windows, host.data_dir@);
    assert(host.venv().take(inside.len() as int) =~= inside);
    assert(host.in_data_dir("models"@).take(inside.len() as int) =~= inside);
}

/// A name is put after its folder, one separator between them and nothing else changed.
pub proof fn law_name_is_put_after_its_folder(base: Seq<char>, name: Seq<char>)
    requires
        base.len() > 2,
        base.last() != '/' && base.last() != '\\',
        !has_drive(name),
    ensures
        join(false, base, name) == base + "/"@ + name,
        join(false, base.push('/'), name) == base + "/"@ + name,
        !is_verbatim(true, base) ==> join(true, base, name) == base + "\\"@ + name,
        !is_verbatim(true, base.push('\\')) ==> join(true, base.push('\\'), name) == base + "\\"@
            + name,
{
    reveal_strlit("/");
    reveal_strlit("\\");
    assert(base.push('/') =~= base + "/"@);
    assert(base.push('\\') =~= base + "\\"@);
}

/// A path without runs of backslashes is kept.
proof fn lemma_without_runs(path: Seq<char>)
    requires
        forall|i: int| 0 <= i < path.len() - 1 ==> #[trigger] path[i] != '\\' || path[i + 1] != '\\',
    ensures
        without_runs(path) == path,
    decreases path.len(),
{
    if path.len() > 0 {
        let front = path.drop_last();
        assert forall|i: int| 0 <= i < front.len() - 1 implies #[trigger] front[i] != '\\' || front[i
            + 1] != '\\' by {
            assert(front[i] == path[i]);
        }
        lemma_without_runs(front);
        assert(path.len() > 1 ==> path[path.len() - 2] != '\\' || path[path.len() - 1] != '\\');
        assert(front.push(path.last()) =~= path);
    }
}

/// A name is put after a folder on a verbatim drive in the same way: what the folder is written
/// with, a slash too, is kept.
pub proof fn law_name_is_put_after_its_verbatim_folder(
    letter: char,
    folder: Seq<char>,
    name: Seq<char>,
)
    requires
        is_letter(letter),
        folder.len() > 0,
        folder[0] != '\\',
        folder.last() != '\\',
        forall|i: int|
            0 <= i < folder.len() - 1 ==> #[trigger] folder[i] != '\\' || folder[i + 1] != '\\',
        !has_drive(name),
        name != "."@,
    ensures
        ({
            let base = "\\\\?\\"@ + seq![letter, ':', '\\'] + folder;
            join(true, base, name) == base + "\\"@ + name
        }),
{
    reveal_strlit("\\\\?\\");
    reveal_strlit("UNC");
    reveal_strlit("\\");
    let base = "\\\\?\\"@ + seq![letter, ':', '\\'] + folder;
    assert(base.take(4) =~= "\\\\?\\"@);
    let rest = base.skip(4);
    assert(rest =~= seq![letter, ':', '\\'] + folder);
    assert(rest.take(3)[1] == ':');
    assert("UNC"@[1] == 'N');
    assert(verbatim_prefix(base) == 6);
    let after = base.skip(6);
    assert(after =~= seq!['\\'] + folder);
    assert(after.skip(1) =~= folder);
    assert forall|i: int| 0 <= i < after.len() - 1 implies #[trigger] after[i] != '\\' || after[i + 1]
        != '\\' by {
        assert(after[i + 1] == folder[i]);
        if i > 0 {
            assert(after[i] == folder[i - 1]);
        }
    }
    lemma_without_runs(after);
    assert(after.last() == folder.last());
    assert(verbatim_components(after) == after);
    assert(base.take(6) + after =~= base);
}

/// The managed environment and the converted checkpoints are the folders of those names directly
/// in the private one, and the engine is the program of its name among those of the environment.
pub proof fn law_folders_have_their_names(host: Host)
    ensures
        host.venv() == within(host.windows, host.data_dir@) + "venv"@,
        host.in_data_dir("models"@) == within(host.windows, host.data_dir@) + "models"@,
        host.venv_cli() == within(
            host.windows,
            within(host.windows, within(host.windows, host.data_dir@) + "venv"@) + "bin"@,
        ) + "ft"@,
{
    reveal_strlit("venv");
    reveal_strlit("models");
    reveal_strlit("bin");
    reveal_strlit("ft");
    reveal_strlit(".");
    assert("venv"@[1] != ':' && "models"@[1] != ':' && "bin"@[1] != ':' && "ft"@[1] != ':');
    assert("venv"@.len() > 1 && "models"@.len() > 1 && "bin"@.len() > 1 && "ft"@.len() > 1);
}

/// A separator that ends a folder is not repeated, of either kind under Windows. Nothing separates
/// a name from an empty folder or, under Windows, from a drive alone, and there a name that begins
/// with a drive is the whole path.
pub proof fn law_folders_need_no_separator_twice(base: Seq<char>, letter: char, name: Seq<char>)
    requires
        is_letter(letter),
        !has_drive(name),
        !is_verbatim(true, base.push('/')),
    ensures
        join(true, base.push('/'), name) == base + "/"@ + name,
        join(true, seq![letter, ':'], name) == seq![letter, ':'] + name,
        join(false, seq![letter, ':'], name) == seq![letter, ':', '/'] + name,
        join(true, Seq::<char>::empty(), name) == name,
        join(false, Seq::<char>::empty(), name) == name,
        join(true, base, seq![letter, ':'] + name) == seq![letter, ':'] + name,
        join(false, base.push('\\'), name) == base + "\\/"@ + name,
{
    reveal_strlit("/");
    reveal_strlit("\\/");
    reveal_strlit("\\\\?\\");
    assert(base.push('/') =~= base + "/"@);
    assert(base.push('\\').push('/') =~= base + "\\/"@);
    assert(seq![letter, ':'].push('/') =~= seq![letter, ':', '/']);
    assert(Seq::<char>::empty() + name =~= name);
}

/// A run of backslashes is one, wherever in a path it stands.
pub proof fn law_run_of_separators_is_one(a: Seq<char>, b: Seq<char>)
    ensures
        without_runs(a + seq!['\\', '\\'] + b) == without_runs(a + seq!['\\'] + b),
    decreases b.len(),
{
    let twice = a + seq!['\\', '\\'] + b;
    let once = a + seq!['\\'] + b;
    if b.len() == 0 {
        assert(twice.drop_last() =~= once);
    } else {
        let front = b.drop_last();
        law_run_of_separators_is_one(a, front);
        assert(twice.drop_last() =~= a + seq!['\\', '\\'] + front);
        assert(once.drop_last() =~= a + seq!['\\'] + front);
        assert(twice.last() == b.last() && once.last() == b.last());
        if front.len() > 0 {
            assert(twice[twice.len() - 2] == front.last());
            assert(once[once.len() - 2] == front.last());
        } else {
            assert(twice[twice.len() - 2] == '\\');
            assert(once[once.len() - 2] == '\\');
        }
    }
}

/// A name is put after a folder of a verbatim share in the same way as after one of a drive: the
/// server and the share are kept, whatever they are called, and so is the folder.
pub proof fn law_name_is_put_after_a_folder_of_a_share(
    server: Seq<char>,
    share: Seq<char>,
    folder: Seq<char>,
    name: Seq<char>,
)
    requires
        !server.contains('\\'),
        !share.contains('\\'),
        share.len() > 0,
        folder.len() > 0,
        folder[0] != '\\',
        folder.last() != '\\',
        forall|i: int|
            0 <= i < folder.len() - 1 ==> #[trigger] folder[i] != '\\' || folder[i + 1] != '\\',
        !has_drive(name),
        name != "."@,
    ensures
        ({
            let base = "\\\\?\\UNC\\"@ + server + "\\"@ + share + "\\"@ + folder;
            join(true, base, name) == base + "\\"@ + name
        }),
{
    reveal_strlit("\\\\?\\");
    reveal_strlit("\\\\?\\UNC\\");
    reveal_strlit("UNC");
    reveal_strlit("\\");
    let base = "\\\\?\\UNC\\"@ + server + "\\"@ + share + "\\"@ + folder;
    assert(base.take(4) =~= "\\\\?\\"@);
    let rest = base.skip(4);
    assert(rest.take(3) =~= "UNC"@);
    let named = rest.skip(4);
    let tail = share + seq!['\\'] + folder;
    assert(named =~= server + seq!['\\'] + tail);
    law_first_character_is_found(server, '\\', tail);
    assert(named.skip(server.len() as int + 1) =~= tail);
    law_first_character_is_found(share, '\\', folder);
    let prefix = verbatim_prefix(base);
    assert(prefix == 8 + server.len() + 1 + share.len());
    let after = base.skip(prefix);
    assert(after =~= seq!['\\'] + folder);
    assert(after.skip(1) =~= folder);
    assert forall|i: int| 0 <= i < after.len() - 1 implies #[trigger] after[i] != '\\' || after[i + 1]
        != '\\' by {
        assert(after[i + 1] == folder[i]);
        if i > 0 {
            assert(after[i] == folder[i - 1]);
        }
    }
    lemma_without_runs(after);
    assert(after.last() == folder.last());
    assert(verbatim_components(after) == after);
    assert(base.take(prefix) + after =~= base);
}

} // verus!
