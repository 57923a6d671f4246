//! Finding the shells of a Windows machine.
//!
//! Nothing here touches the disk: a caller asks which of the paths in
//! `shell_probe_paths` exist and hands the answer over as a `Disk`.
use vstd::prelude::*;
use vstd::string::StringExecFns;

use crate::text;

verus! {

/// The paths that are known to exist.
pub struct Disk {
    pub existing: Vec<String>,
}

impl View for Disk {
    type V = Set<Seq<char>>;

    open spec fn view(&self) -> Set<Seq<char>> {
        text::texts(self.existing@).to_set()
    }
}

impl Disk {
    /// Whether `path` is known to exist.
    pub fn has_path(&self, path: &str) -> (r: bool)
        ensures
            r == self@.contains(path@),
    {
        let mut i: usize = 0;
        while i < self.existing.len()
            invariant
                i <= self.existing@.len(),
                forall|j: int| 0 <= j < i ==> (#[trigger] self.existing@[j])@ != path@,
            decreases self.existing@.len() - i,
        {
            if text::same_text(self.existing[i].as_str(), path) {
                assert(text::texts(self.existing@)[i as int] == path@);
                return true;
            }
            i = i + 1;
        }
        proof {
            if self@.contains(path@) {
                let k = choose|k: int|
                    0 <= k < text::texts(self.existing@).len() && text::texts(self.existing@)[k]
                        == path@;
                assert(self.existing@[k]@ == path@);
            }
        }
        false
    }
}

/// The variables of the environment that lead to shells.
pub struct EnvVars {
    pub path: Option<String>,
    pub program_files: Option<String>,
    pub program_files_x86: Option<String>,
    pub local_app_data: Option<String>,
    pub system_root: Option<String>,
}

/// The places that the environment names.
pub struct Places {
    pub path: Option<Seq<char>>,
    pub program_files: Seq<char>,
    pub program_files_x86: Seq<char>,
    pub local_app_data: Seq<char>,
    pub system_root: Seq<char>,
}

/// The text of a variable, or `other` where it is not set.
pub open spec fn var_or(v: Option<String>, other: Seq<char>) -> Seq<char> {
    match v {
        Some(t) => t@,
        None => other,
    }
}

impl View for EnvVars {
    type V = Places;

    open spec fn view(&self) -> Places {
        Places {
            path: text::text_of(self.path),
            program_files: var_or(self.program_files, Seq::empty()),
            program_files_x86: var_or(self.program_files_x86, Seq::empty()),
            local_app_data: var_or(self.local_app_data, Seq::empty()),
            system_root: var_or(self.system_root, "C:\\Windows"@),
        }
    }
}

/// The text of a variable, or `other` where it is not set.
fn var_text(v: &Option<String>, other: &str) -> (r: String)
    ensures
        r@ == var_or(*v, other@),
{
    match v {
        Some(t) => t.clone(),
        None => other.to_owned(),
    }
}

/// A shell that can be started.
#[derive(Debug)]
pub struct ShellSpec {
    /// The name in menus.
    pub label: String,
    /// The name that tabs begin with and settings refer to.
    pub short: String,
    pub program: String,
    pub args: Vec<String>,
    /// Where the icon comes from, if not from the program.
    pub icon_source: Option<String>,
}

/// A `ShellSpec` with its texts.
pub struct ShellView {
    pub label: Seq<char>,
    pub short: Seq<char>,
    pub program: Seq<char>,
    pub args: Seq<Seq<char>>,
    pub icon_source: Option<Seq<char>>,
}

impl View for ShellSpec {
    type V = ShellView;

    open spec fn view(&self) -> ShellView {
        ShellView {
            label: self.label@,
            short: self.short@,
            program: self.program@,
            args: text::texts(self.args@),
            icon_source: text::text_of(self.icon_source),
        }
    }
}

impl ShellSpec {
    /// A copy.
    pub fn copy(&self) -> (r: ShellSpec)
        ensures
            r@ == self@,
    {
        ShellSpec {
            label: self.label.clone(),
            short: self.short.clone(),
            program: self.program.clone(),
            args: text::copy_texts(&self.args),
            icon_source: text::copy_text(&self.icon_source),
        }
    }

    /// The file that the icon comes from.
    pub fn icon_path(&self) -> (r: String)
        ensures
            r@ == (match self@.icon_source {
                Some(p) => p,
                None => self@.program,
            }),
    {
        match &self.icon_source {
            Some(p) => p.clone(),
            None => self.program.clone(),
        }
    }
}

/// The views of a list of shells.
pub open spec fn shell_views(v: Seq<ShellSpec>) -> Seq<ShellView> {
    v.map_values(|s: ShellSpec| s@)
}

/// Adding a shell adds its view.
pub proof fn lemma_shell_views_push(v: Seq<ShellSpec>, s: ShellSpec)
    ensures
        shell_views(v.push(s)) == shell_views(v).push(s@),
{
    assert(shell_views(v.push(s)) =~= shell_views(v).push(s@));
}

// ---- looking for files ----

/// The first of `paths` that is not empty and exists.
pub open spec fn first_existing(paths: Seq<Seq<char>>, disk: Set<Seq<char>>) -> Option<Seq<char>>
    decreases paths.len(),
{
    if paths.len() == 0 {
        None
    } else if paths[0].len() > 0 && disk.contains(paths[0]) {
        Some(paths[0])
    } else {
        first_existing(paths.drop_first(), disk)
    }
}

/// The first of `paths` that is not empty and exists.
pub fn find_existing(paths: &Vec<String>, disk: &Disk) -> (r: Option<String>)
    ensures
        text::text_of(r) == first_existing(text::texts(paths@), disk@),
{
    let ghost all = text::texts(paths@);
    let mut i: usize = 0;
    assert(all.skip(0) =~= all);
    while i < paths.len()
        invariant
            i <= paths@.len(),
            all == text::texts(paths@),
            first_existing(all, disk@) == first_existing(all.skip(i as int), disk@),
        decreases paths@.len() - i,
    {
        let p: &String = &paths[i];
        assert(all.skip(i as int)[0] == p@);
        assert(all.skip(i as int).drop_first() =~= all.skip(i + 1));
        if !p.as_str().is_empty() && disk.has_path(p.as_str()) {
            return Some(p.clone());
        }
        i = i + 1;
    }
    None
}

/// `name` in each of the directories `dirs` that is not empty.
pub open spec fn in_dirs(dirs: Seq<Seq<char>>, name: Seq<char>) -> Seq<Seq<char>>
    decreases dirs.len(),
{
    if dirs.len() == 0 {
        Seq::empty()
    } else {
        let before = in_dirs(dirs.drop_last(), name);
        if dirs.last().len() == 0 {
            before
        } else {
            before.push(dirs.last() + "\\"@ + name)
        }
    }
}

/// The paths at which `name` is looked for along a search path.
pub open spec fn search_paths(path: Option<Seq<char>>, name: Seq<char>) -> Seq<Seq<char>> {
    match path {
        Some(p) => in_dirs(text::pieces(p, ';'), name),
        None => Seq::empty(),
    }
}

/// The paths at which `name` is looked for along a search path.
pub fn which_paths(path: &Option<String>, name: &str) -> (r: Vec<String>)
    ensures
        text::texts(r@) == search_paths(text::text_of(*path), name@),
{
    let mut out: Vec<String> = Vec::new();
    match path {
        None => {
            assert(text::texts(out@) =~= Seq::<Seq<char>>::empty());
        },
        Some(p) => {
            let dirs: Vec<String> = text::split(p.as_str(), ';');
            let ghost all = text::pieces(p@, ';');
            let mut i: usize = 0;
            assert(text::texts(out@) =~= in_dirs(all.take(0), name@));
            while i < dirs.len()
                invariant
                    i <= dirs@.len(),
                    text::texts(dirs@) == all,
                    text::texts(out@) == in_dirs(all.take(i as int), name@),
                decreases dirs@.len() - i,
            {
                proof {
                    assert(all.take(i + 1).drop_last() =~= all.take(i as int));
                    assert(all.take(i + 1).last() == dirs@[i as int]@);
                }
                if !dirs[i].as_str().is_empty() {
                    let mut full: String = dirs[i].clone();
                    full.append("\\");
                    full.append(name);
                    proof {
                        text::lemma_texts_push(out@, full);
                    }
                    out.push(full);
                }
                i = i + 1;
            }
            assert(all.take(all.len() as int) =~= all);
        },
    }
    out
}

/// The first place along the search path at which `name` exists.
pub fn which(name: &str, path: &Option<String>, disk: &Disk) -> (r: Option<String>)
    ensures
        text::text_of(r) == first_existing(
            search_paths(text::text_of(*path), name@),
            disk@,
        ),
{
    find_existing(&which_paths(path, name), disk)
}

/// The file of a program, which is named by its full path (`absolute`) or
/// looked for along the search path.
pub fn resolve_program(program: &str, absolute: bool, path: &Option<String>, disk: &Disk) -> (r:
    Option<String>)
    ensures
        text::text_of(r) == (if absolute {
            if disk@.contains(program@) {
                Some(program@)
            } else {
                None
            }
        } else {
            first_existing(search_paths(text::text_of(*path), program@), disk@)
        }),
{
    if absolute {
        return if disk.has_path(program) {
            Some(program.to_owned())
        } else {
            None
        };
    }
    which(program, path, disk)
}

/// Where Visual Studio 2022 may be installed, one directory per edition.
pub open spec fn vs_dirs(program_files: Seq<char>) -> Seq<Seq<char>> {
    let base = program_files + "\\Microsoft Visual Studio\\2022\\"@;
    seq![
        base + "Community"@,
        base + "Professional"@,
        base + "Enterprise"@,
        base + "BuildTools"@,
        base + "Preview"@,
    ]
}

/// The script that sets up a developer's command prompt.
pub open spec fn dev_script(dir: Seq<char>) -> Seq<char> {
    dir + "\\Common7\\Tools\\VsDevCmd.bat"@
}

/// The program whose icon the developer shells wear.
pub open spec fn devenv(dir: Seq<char>) -> Seq<char> {
    dir + "\\Common7\\IDE\\devenv.exe"@
}

/// The first of `dirs` that holds the developer's script.
pub open spec fn first_with_script(dirs: Seq<Seq<char>>, disk: Set<Seq<char>>) -> Option<Seq<char>>
    decreases dirs.len(),
{
    if dirs.len() == 0 {
        None
    } else if disk.contains(dev_script(dirs[0])) {
        Some(dirs[0])
    } else {
        first_with_script(dirs.drop_first(), disk)
    }
}

/// `a` followed by `b`.
fn joined_text(a: &str, b: &str) -> (r: String)
    ensures
        r@ == a@ + b@,
{
    let mut s: String = a.to_owned();
    s.append(b);
    s
}

/// A list with one string.
fn one_text(a: String) -> (r: Vec<String>)
    ensures
        text::texts(r@) == seq![a@],
{
    let mut v: Vec<String> = Vec::new();
    v.push(a);
    assert(text::texts(v@) =~= seq![a@]);
    v
}

/// A list with one string more.
fn push_text(v: &mut Vec<String>, a: String)
    ensures
        text::texts(final(v)@) == text::texts(old(v)@).push(a@),
{
    proof {
        text::lemma_texts_push(v@, a);
    }
    v.push(a);
}

/// Where Visual Studio 2022 may be installed.
fn vs_dir_list(program_files: &str) -> (r: Vec<String>)
    ensures
        text::texts(r@) == vs_dirs(program_files@),
{
    let base: String = joined_text(program_files, "\\Microsoft Visual Studio\\2022\\");
    let mut v: Vec<String> = one_text(joined_text(base.as_str(), "Community"));
    push_text(&mut v, joined_text(base.as_str(), "Professional"));
    push_text(&mut v, joined_text(base.as_str(), "Enterprise"));
    push_text(&mut v, joined_text(base.as_str(), "BuildTools"));
    push_text(&mut v, joined_text(base.as_str(), "Preview"));
    assert(text::texts(v@) =~= vs_dirs(program_files@));
    v
}

/// The directory of Visual Studio 2022, if it is installed.
pub fn find_vs2022(program_files: &str, disk: &Disk) -> (r: Option<String>)
    ensures
        text::text_of(r) == first_with_script(vs_dirs(program_files@), disk@),
{
    let dirs: Vec<String> = vs_dir_list(program_files);
    let ghost all = vs_dirs(program_files@);
    let mut i: usize = 0;
    assert(all.skip(0) =~= all);
    while i < dirs.len()
        invariant
            i <= dirs@.len(),
            all == text::texts(dirs@),
            all == vs_dirs(program_files@),
            first_with_script(all, disk@) == first_with_script(all.skip(i as int), disk@),
        decreases dirs@.len() - i,
    {
        let d: &String = &dirs[i];
        assert(all.skip(i as int)[0] == d@);
        assert(all.skip(i as int).drop_first() =~= all.skip(i + 1));
        let script: String = joined_text(d.as_str(), "\\Common7\\Tools\\VsDevCmd.bat");
        if disk.has_path(script.as_str()) {
            return Some(d.clone());
        }
        i = i + 1;
    }
    None
}

// ---- the shells ----

/// The file if it exists, else the bare name.
pub open spec fn file_or_name(file: Seq<char>, name: Seq<char>, disk: Set<Seq<char>>) -> Seq<
    char,
> {
    match first_existing(seq![file], disk) {
        Some(p) => p,
        None => name,
    }
}

/// The file of Windows PowerShell.
pub open spec fn powershell_file(e: Places) -> Seq<char> {
    e.system_root + "\\System32\\WindowsPowerShell\\v1.0\\powershell.exe"@
}

/// The file of the command prompt.
pub open spec fn cmd_file(e: Places) -> Seq<char> {
    e.system_root + "\\System32\\cmd.exe"@
}

/// The file of the Windows Subsystem for Linux.
pub open spec fn wsl_file(e: Places) -> Seq<char> {
    e.system_root + "\\System32\\wsl.exe"@
}

/// The fixed place of PowerShell 7.
pub open spec fn pwsh_file(e: Places) -> Seq<char> {
    e.program_files + "\\PowerShell\\7\\pwsh.exe"@
}

/// The places at which Git may be installed.
pub open spec fn git_roots(e: Places) -> Seq<Seq<char>> {
    seq![
        e.program_files + "\\Git"@,
        e.program_files_x86 + "\\Git"@,
        e.local_app_data + "\\Programs\\Git"@,
    ]
}

/// The bash of a Git installation.
pub open spec fn bash_file(root: Seq<char>) -> Seq<char> {
    root + "\\bin\\bash.exe"@
}

/// The program whose icon Git Bash wears.
pub open spec fn git_bash_file(root: Seq<char>) -> Seq<char> {
    root + "\\git-bash.exe"@
}

/// PowerShell 7: at its fixed place, or else along the search path.
pub open spec fn pwsh_program(e: Places, disk: Set<Seq<char>>) -> Option<Seq<char>> {
    match first_existing(seq![pwsh_file(e)], disk) {
        Some(p) => Some(p),
        None => first_existing(search_paths(e.path, "pwsh.exe"@), disk),
    }
}

/// The first Git installation that has a bash.
pub open spec fn first_git(roots: Seq<Seq<char>>, disk: Set<Seq<char>>) -> Option<Seq<char>>
    decreases roots.len(),
{
    if roots.len() == 0 {
        None
    } else if disk.contains(bash_file(roots[0])) {
        Some(roots[0])
    } else {
        first_git(roots.drop_first(), disk)
    }
}

/// Arguments that keep a PowerShell open and switch its predictions off,
/// where it has any.
pub open spec fn ps_args() -> Seq<Seq<char>> {
    seq![
        "-NoExit"@,
        "-Command"@,
        "$c = Get-Command Set-PSReadLineOption -ErrorAction SilentlyContinue; if ($c -and $c.Parameters.ContainsKey('PredictionSource')) { Set-PSReadLineOption -PredictionSource None }"@,
    ]
}

/// The command that enters a developer's PowerShell.
pub open spec fn dev_shell_command(vs: Seq<char>) -> Seq<char> {
    "&{ Import-Module '"@ + vs + "\\Common7\\Tools\\Microsoft.VisualStudio.DevShell.dll"@
        + "'; Enter-VsDevShell -SkipAutomaticLocation -VsInstallPath '"@ + vs
        + "' -DevCmdArguments '-arch=x64' }"@
}

/// `p` if it exists.
pub open spec fn if_present(p: Seq<char>, disk: Set<Seq<char>>) -> Option<Seq<char>> {
    if disk.contains(p) {
        Some(p)
    } else {
        None
    }
}

/// PowerShell 7, if it is installed.
pub open spec fn pwsh_shells(e: Places, disk: Set<Seq<char>>, icon: Option<Seq<char>>) -> Seq<
    ShellView,
> {
    match pwsh_program(e, disk) {
        Some(p) => seq![
            ShellView {
                label: "PowerShell 7"@,
                short: "pwsh"@,
                program: p,
                args: ps_args(),
                icon_source: icon,
            },
        ],
        None => Seq::empty(),
    }
}

/// The shells that every machine has.
pub open spec fn standing_shells(e: Places, disk: Set<Seq<char>>) -> Seq<ShellView> {
    seq![
        ShellView {
            label: "Windows PowerShell"@,
            short: "powershell"@,
            program: file_or_name(powershell_file(e), "powershell.exe"@, disk),
            args: ps_args(),
            icon_source: None,
        },
        ShellView {
            label: "Command Prompt"@,
            short: "cmd"@,
            program: file_or_name(cmd_file(e), "cmd.exe"@, disk),
            args: Seq::empty(),
            icon_source: None,
        },
    ]
}

/// The developer shells of Visual Studio 2022, if it is installed.
pub open spec fn vs_shells(e: Places, disk: Set<Seq<char>>) -> Seq<ShellView> {
    match first_with_script(vs_dirs(e.program_files), disk) {
        Some(vs) => seq![
            ShellView {
                label: "Developer Command Prompt for VS 2022"@,
                short: "devcmd"@,
                program: file_or_name(cmd_file(e), "cmd.exe"@, disk),
                args: seq!["/k"@, dev_script(vs)],
                icon_source: if_present(devenv(vs), disk),
            },
            ShellView {
                label: "Developer PowerShell for VS 2022"@,
                short: "devps"@,
                program: match pwsh_program(e, disk) {
                    Some(p) => p,
                    None => file_or_name(powershell_file(e), "powershell.exe"@, disk),
                },
                args: seq!["-NoExit"@, "-Command"@, dev_shell_command(vs)],
                icon_source: if_present(devenv(vs), disk),
            },
        ],
        None => Seq::empty(),
    }
}

/// Git Bash, if it is installed.
pub open spec fn git_shells(e: Places, disk: Set<Seq<char>>) -> Seq<ShellView> {
    match first_git(git_roots(e), disk) {
        Some(root) => seq![
            ShellView {
                label: "Git Bash"@,
                short: "bash"@,
                program: bash_file(root),
                args: seq!["-l"@, "-i"@],
                icon_source: if_present(git_bash_file(root), disk),
            },
        ],
        None => Seq::empty(),
    }
}

/// The Windows Subsystem for Linux, if it is installed.
pub open spec fn wsl_shells(e: Places, disk: Set<Seq<char>>) -> Seq<ShellView> {
    match first_existing(seq![wsl_file(e)], disk) {
        Some(p) => seq![
            ShellView {
                label: "WSL"@,
                short: "wsl"@,
                program: p,
                args: Seq::empty(),
                icon_source: None,
            },
        ],
        None => Seq::empty(),
    }
}

/// The shells of the machine, in the order of the menus.
pub open spec fn shells_found(e: Places, disk: Set<Seq<char>>, icon: Option<Seq<char>>) -> Seq<
    ShellView,
> {
    pwsh_shells(e, disk, icon) + standing_shells(e, disk) + vs_shells(e, disk) + git_shells(e, disk)
        + wsl_shells(e, disk)
}

/// Arguments that keep a PowerShell open and switch its predictions off.
fn ps_arg_list() -> (r: Vec<String>)
    ensures
        text::texts(r@) == ps_args(),
{
    let mut v: Vec<String> = one_text("-NoExit".to_owned());
    push_text(&mut v, "-Command".to_owned());
    push_text(
        &mut v,
        "$c = Get-Command Set-PSReadLineOption -ErrorAction SilentlyContinue; if ($c -and $c.Parameters.ContainsKey('PredictionSource')) { Set-PSReadLineOption -PredictionSource None }".to_owned(),
    );
    assert(text::texts(v@) =~= ps_args());
    v
}

/// The file if it exists, else the bare name.
fn program_file(file: String, name: &str, disk: &Disk) -> (r: String)
    ensures
        r@ == file_or_name(file@, name@, disk@),
{
    let one: Vec<String> = one_text(file);
    match find_existing(&one, disk) {
        Some(p) => p,
        None => name.to_owned(),
    }
}

/// The file if it exists.
fn present(file: String, disk: &Disk) -> (r: Option<String>)
    ensures
        text::text_of(r) == if_present(file@, disk@),
{
    if disk.has_path(file.as_str()) {
        Some(file)
    } else {
        None
    }
}

/// PowerShell 7: at its fixed place, or else along the search path.
pub fn find_pwsh(env: &EnvVars, disk: &Disk) -> (r: Option<String>)
    ensures
        text::text_of(r) == pwsh_program(env@, disk@),
{
    let pf: String = var_text(&env.program_files, "");
    proof {
        reveal_strlit("");
        assert(""@ =~= Seq::<char>::empty());
    }
    let fixed: Vec<String> = one_text(joined_text(pf.as_str(), "\\PowerShell\\7\\pwsh.exe"));
    match find_existing(&fixed, disk) {
        Some(p) => Some(p),
        None => which("pwsh.exe", &env.path, disk),
    }
}

/// The command that enters a developer's PowerShell.
fn dev_shell_text(vs: &str) -> (r: String)
    ensures
        r@ == dev_shell_command(vs@),
{
    let mut s: String = joined_text("&{ Import-Module '", vs);
    s.append("\\Common7\\Tools\\Microsoft.VisualStudio.DevShell.dll");
    s.append("'; Enter-VsDevShell -SkipAutomaticLocation -VsInstallPath '");
    s.append(vs);
    s.append("' -DevCmdArguments '-arch=x64' }");
    s
}

/// The places at which Git may be installed.
fn git_root_list(pf: &str, pf86: &str, lad: &str) -> (r: Vec<String>)
    ensures
        text::texts(r@) == seq![
            pf@ + "\\Git"@,
            pf86@ + "\\Git"@,
            lad@ + "\\Programs\\Git"@,
        ],
{
    let mut v: Vec<String> = one_text(joined_text(pf, "\\Git"));
    push_text(&mut v, joined_text(pf86, "\\Git"));
    push_text(&mut v, joined_text(lad, "\\Programs\\Git"));
    assert(text::texts(v@) =~= seq![
        pf@ + "\\Git"@,
        pf86@ + "\\Git"@,
        lad@ + "\\Programs\\Git"@,
    ]);
    v
}

/// The first Git installation that has a bash.
fn find_git(roots: &Vec<String>, disk: &Disk) -> (r: Option<String>)
    ensures
        text::text_of(r) == first_git(text::texts(roots@), disk@),
{
    let ghost all = text::texts(roots@);
    let mut i: usize = 0;
    assert(all.skip(0) =~= all);
    while i < roots.len()
        invariant
            i <= roots@.len(),
            all == text::texts(roots@),
            first_git(all, disk@) == first_git(all.skip(i as int), disk@),
        decreases roots@.len() - i,
    {
        let d: &String = &roots[i];
        assert(all.skip(i as int)[0] == d@);
        assert(all.skip(i as int).drop_first() =~= all.skip(i + 1));
        let bash: String = joined_text(d.as_str(), "\\bin\\bash.exe");
        if disk.has_path(bash.as_str()) {
            return Some(d.clone());
        }
        i = i + 1;
    }
    None
}

/// PowerShell 7 as a list of at most one shell.
fn pwsh_list(pwsh: &Option<String>, icon: Option<String>) -> (r: Vec<ShellSpec>)
    ensures
        shell_views(r@) == (match text::text_of(*pwsh) {
            Some(p) => seq![
                ShellView {
                    label: "PowerShell 7"@,
                    short: "pwsh"@,
                    program: p,
                    args: ps_args(),
                    icon_source: text::text_of(icon),
                },
            ],
            None => Seq::empty(),
        }),
{
    let mut v: Vec<ShellSpec> = Vec::new();
    if let Some(p) = pwsh {
        v.push(
            ShellSpec {
                label: "PowerShell 7".to_owned(),
                short: "pwsh".to_owned(),
                program: p.clone(),
                args: ps_arg_list(),
                icon_source: icon,
            },
        );
        assert(shell_views(v@) =~= seq![v@[0]@]);
    } else {
        assert(shell_views(v@) =~= Seq::<ShellView>::empty());
    }
    v
}

/// Adds the developer shells of Visual Studio.
fn push_vs_shells(
    v: &mut Vec<ShellSpec>,
    pf: &str,
    cmd: &String,
    winps: &String,
    pwsh: &Option<String>,
    disk: &Disk,
)
    ensures
        shell_views(final(v)@) == shell_views(old(v)@) + (match first_with_script(
            vs_dirs(pf@),
            disk@,
        ) {
            Some(vs) => seq![
                ShellView {
                    label: "Developer Command Prompt for VS 2022"@,
                    short: "devcmd"@,
                    program: cmd@,
                    args: seq!["/k"@, dev_script(vs)],
                    icon_source: if_present(devenv(vs), disk@),
                },
                ShellView {
                    label: "Developer PowerShell for VS 2022"@,
                    short: "devps"@,
                    program: match text::text_of(*pwsh) {
                        Some(p) => p,
                        None => winps@,
                    },
                    args: seq!["-NoExit"@, "-Command"@, dev_shell_command(vs)],
                    icon_source: if_present(devenv(vs), disk@),
                },
            ],
            None => Seq::<ShellView>::empty(),
        }),
{
    let ghost before = shell_views(v@);
    if let Some(vs) = find_vs2022(pf, disk) {
        let icon: Option<String> = present(
            joined_text(vs.as_str(), "\\Common7\\IDE\\devenv.exe"),
            disk,
        );
        let icon_too: Option<String> = text::copy_text(&icon);
        let mut cmd_args: Vec<String> = one_text("/k".to_owned());
        push_text(&mut cmd_args, joined_text(vs.as_str(), "\\Common7\\Tools\\VsDevCmd.bat"));
        assert(text::texts(cmd_args@) =~= seq!["/k"@, dev_script(vs@)]);
        let dev_cmd: ShellSpec = ShellSpec {
            label: "Developer Command Prompt for VS 2022".to_owned(),
            short: "devcmd".to_owned(),
            program: cmd.clone(),
            args: cmd_args,
            icon_source: icon,
        };
        let mut ps: Vec<String> = one_text("-NoExit".to_owned());
        push_text(&mut ps, "-Command".to_owned());
        push_text(&mut ps, dev_shell_text(vs.as_str()));
        assert(text::texts(ps@) =~= seq!["-NoExit"@, "-Command"@, dev_shell_command(vs@)]);
        let program: String = match pwsh {
            Some(p) => p.clone(),
            None => winps.clone(),
        };
        let dev_ps: ShellSpec = ShellSpec {
            label: "Developer PowerShell for VS 2022".to_owned(),
            short: "devps".to_owned(),
            program,
            args: ps,
            icon_source: icon_too,
        };
        proof {
            lemma_shell_views_push(v@, dev_cmd);
            lemma_shell_views_push(v@.push(dev_cmd), dev_ps);
            assert(before.push(dev_cmd@).push(dev_ps@) =~= before + seq![dev_cmd@, dev_ps@]);
        }
        v.push(dev_cmd);
        v.push(dev_ps);
    } else {
        assert(before + Seq::<ShellView>::empty() =~= before);
    }
}

/// The shells of the machine, in the order of the menus. `pwsh_icon` is the
/// icon found for PowerShell 7.
pub fn discover_shells(env: &EnvVars, disk: &Disk, pwsh_icon: Option<String>) -> (r: Vec<
    ShellSpec,
>)
    ensures
        shell_views(r@) == shells_found(env@, disk@, text::text_of(pwsh_icon)),
        r@.len() > 0,
{
    proof {
        reveal_strlit("");
        assert(""@ =~= Seq::<char>::empty());
    }
    let ghost e = env@;
    let ghost icon = text::text_of(pwsh_icon);
    let pf: String = var_text(&env.program_files, "");
    let pf86: String = var_text(&env.program_files_x86, "");
    let lad: String = var_text(&env.local_app_data, "");
    let sysroot: String = var_text(&env.system_root, "C:\\Windows");
    let winps: String = program_file(
        joined_text(
            sysroot.as_str(),
            "\\System32\\WindowsPowerShell\\v1.0\\powershell.exe",
        ),
        "powershell.exe",
        disk,
    );
    let cmd: String = program_file(
        joined_text(sysroot.as_str(), "\\System32\\cmd.exe"),
        "cmd.exe",
        disk,
    );
    let pwsh: Option<String> = find_pwsh(env, disk);
    let mut v: Vec<ShellSpec> = pwsh_list(&pwsh, pwsh_icon);
    let ps_shell: ShellSpec = ShellSpec {
        label: "Windows PowerShell".to_owned(),
        short: "powershell".to_owned(),
        program: winps.clone(),
        args: ps_arg_list(),
        icon_source: None,
    };
    let cmd_shell: ShellSpec = ShellSpec {
        label: "Command Prompt".to_owned(),
        short: "cmd".to_owned(),
        program: cmd.clone(),
        args: Vec::new(),
        icon_source: None,
    };
    proof {
        lemma_shell_views_push(v@, ps_shell);
        lemma_shell_views_push(v@.push(ps_shell), cmd_shell);
        assert(text::texts(cmd_shell.args@) =~= Seq::<Seq<char>>::empty());
        assert(seq![ps_shell@, cmd_shell@] =~= standing_shells(e, disk@));
        assert(shell_views(v@).push(ps_shell@).push(cmd_shell@) =~= pwsh_shells(e, disk@, icon)
            + standing_shells(e, disk@));
    }
    v.push(ps_shell);
    v.push(cmd_shell);
    push_vs_shells(&mut v, pf.as_str(), &cmd, &winps, &pwsh, disk);
    let ghost upto_vs = shell_views(v@);
    assert(upto_vs == pwsh_shells(e, disk@, icon) + standing_shells(e, disk@) + vs_shells(e, disk@));
    let roots: Vec<String> = git_root_list(pf.as_str(), pf86.as_str(), lad.as_str());
    if let Some(root) = find_git(&roots, disk) {
        let mut args: Vec<String> = one_text("-l".to_owned());
        push_text(&mut args, "-i".to_owned());
        assert(text::texts(args@) =~= seq!["-l"@, "-i"@]);
        let git: ShellSpec = ShellSpec {
            label: "Git Bash".to_owned(),
            short: "bash".to_owned(),
            program: joined_text(root.as_str(), "\\bin\\bash.exe"),
            args,
            icon_source: present(joined_text(root.as_str(), "\\git-bash.exe"), disk),
        };
        proof {
            lemma_shell_views_push(v@, git);
            assert(upto_vs.push(git@) =~= upto_vs + git_shells(e, disk@));
        }
        v.push(git);
    } else {
        assert(upto_vs + git_shells(e, disk@) =~= upto_vs);
    }
    let ghost upto_git = shell_views(v@);
    let wsl: Vec<String> = one_text(joined_text(sysroot.as_str(), "\\System32\\wsl.exe"));
    if let Some(p) = find_existing(&wsl, disk) {
        let shell: ShellSpec = ShellSpec {
            label: "WSL".to_owned(),
            short: "wsl".to_owned(),
            program: p,
            args: Vec::new(),
            icon_source: None,
        };
        proof {
            lemma_shell_views_push(v@, shell);
            assert(text::texts(shell.args@) =~= Seq::<Seq<char>>::empty());
            assert(upto_git.push(shell@) =~= upto_git + wsl_shells(e, disk@));
        }
        v.push(shell);
    } else {
        assert(upto_git + wsl_shells(e, disk@) =~= upto_git);
    }
    v
}

/// Every path whose existence `discover_shells` may ask for.
pub open spec fn probe_paths(e: Places) -> Seq<Seq<char>> {
    seq![powershell_file(e), cmd_file(e), pwsh_file(e), wsl_file(e)] + search_paths(
        e.path,
        "pwsh.exe"@,
    ) + vs_dirs(e.program_files).map_values(|d: Seq<char>| dev_script(d)) + vs_dirs(
        e.program_files,
    ).map_values(|d: Seq<char>| devenv(d)) + git_roots(e).map_values(|d: Seq<char>| bash_file(d))
        + git_roots(e).map_values(|d: Seq<char>| git_bash_file(d))
}

/// Adds the paths `dirs[..] + tail`.
fn push_each(v: &mut Vec<String>, dirs: &Vec<String>, tail: &str)
    ensures
        text::texts(final(v)@) == text::texts(old(v)@) + text::texts(dirs@).map_values(
            |d: Seq<char>| d + tail@,
        ),
{
    let ghost before = text::texts(v@);
    let ghost more = text::texts(dirs@).map_values(|d: Seq<char>| d + tail@);
    let mut i: usize = 0;
    assert(before + more.take(0) =~= before);
    while i < dirs.len()
        invariant
            i <= dirs@.len(),
            more == text::texts(dirs@).map_values(|d: Seq<char>| d + tail@),
            text::texts(v@) == before + more.take(i as int),
        decreases dirs@.len() - i,
    {
        push_text(v, joined_text(dirs[i].as_str(), tail));
        assert(before + more.take(i + 1) =~= (before + more.take(i as int)).push(more[i as int]));
        i = i + 1;
    }
    assert(more.take(more.len() as int) =~= more);
}

/// Every path whose existence `discover_shells` may ask for.
pub fn shell_probe_paths(env: &EnvVars) -> (r: Vec<String>)
    ensures
        text::texts(r@) == probe_paths(env@),
{
    proof {
        reveal_strlit("");
        assert(""@ =~= Seq::<char>::empty());
    }
    let ghost e = env@;
    let pf: String = var_text(&env.program_files, "");
    let pf86: String = var_text(&env.program_files_x86, "");
    let lad: String = var_text(&env.local_app_data, "");
    let sysroot: String = var_text(&env.system_root, "C:\\Windows");
    let mut v: Vec<String> = one_text(
        joined_text(
            sysroot.as_str(),
            "\\System32\\WindowsPowerShell\\v1.0\\powershell.exe",
        ),
    );
    push_text(&mut v, joined_text(sysroot.as_str(), "\\System32\\cmd.exe"));
    push_text(&mut v, joined_text(pf.as_str(), "\\PowerShell\\7\\pwsh.exe"));
    push_text(&mut v, joined_text(sysroot.as_str(), "\\System32\\wsl.exe"));
    assert(text::texts(v@) =~= seq![powershell_file(e), cmd_file(e), pwsh_file(e), wsl_file(e)]);
    let mut found: Vec<String> = which_paths(&env.path, "pwsh.exe");
    proof {
        assert(text::texts(v@ + found@) =~= text::texts(v@) + text::texts(found@));
    }
    v.append(&mut found);
    let dirs: Vec<String> = vs_dir_list(pf.as_str());
    push_each(&mut v, &dirs, "\\Common7\\Tools\\VsDevCmd.bat");
    push_each(&mut v, &dirs, "\\Common7\\IDE\\devenv.exe");
    let roots: Vec<String> = git_root_list(pf.as_str(), pf86.as_str(), lad.as_str());
    push_each(&mut v, &roots, "\\bin\\bash.exe");
    push_each(&mut v, &roots, "\\git-bash.exe");
    proof {
        assert(text::texts(v@) =~= probe_paths(e));
    }
    v
}

// ---- laws ----

proof fn lemma_first_existing_agrees(paths: Seq<Seq<char>>, a: Set<Seq<char>>, b: Set<Seq<char>>)
    requires
        forall|i: int|
            0 <= i < paths.len() ==> a.contains(#[trigger] paths[i]) == b.contains(paths[i]),
    ensures
        first_existing(paths, a) == first_existing(paths, b),
    decreases paths.len(),
{
    if paths.len() > 0 {
        let rest = paths.drop_first();
        assert forall|i: int| 0 <= i < rest.len() implies a.contains(#[trigger] rest[i])
            == b.contains(rest[i]) by {
            assert(rest[i] == paths[i + 1]);
        }
        lemma_first_existing_agrees(rest, a, b);
    }
}

proof fn lemma_first_with_script_agrees(
    dirs: Seq<Seq<char>>,
    a: Set<Seq<char>>,
    b: Set<Seq<char>>,
)
    requires
        forall|i: int|
            0 <= i < dirs.len() ==> a.contains(dev_script(#[trigger] dirs[i])) == b.contains(
                dev_script(dirs[i]),
            ),
    ensures
        first_with_script(dirs, a) == first_with_script(dirs, b),
        first_with_script(dirs, a) matches Some(d) ==> dirs.contains(d),
    decreases dirs.len(),
{
    if dirs.len() > 0 {
        let rest = dirs.drop_first();
        assert forall|i: int| 0 <= i < rest.len() implies a.contains(dev_script(#[trigger] rest[i]))
            == b.contains(dev_script(rest[i])) by {
            assert(rest[i] == dirs[i + 1]);
        }
        lemma_first_with_script_agrees(rest, a, b);
        assert(dirs.contains(dirs[0]));
        if let Some(d) = first_with_script(rest, a) {
            let k = choose|k: int| 0 <= k < rest.len() && rest[k] == d;
            assert(dirs[k + 1] == d);
        }
    }
}

proof fn lemma_first_git_agrees(roots: Seq<Seq<char>>, a: Set<Seq<char>>, b: Set<Seq<char>>)
    requires
        forall|i: int|
            0 <= i < roots.len() ==> a.contains(bash_file(#[trigger] roots[i])) == b.contains(
                bash_file(roots[i]),
            ),
    ensures
        first_git(roots, a) == first_git(roots, b),
        first_git(roots, a) matches Some(d) ==> roots.contains(d),
    decreases roots.len(),
{
    if roots.len() > 0 {
        let rest = roots.drop_first();
        assert forall|i: int| 0 <= i < rest.len() implies a.contains(bash_file(#[trigger] rest[i]))
            == b.contains(bash_file(rest[i])) by {
            assert(rest[i] == roots[i + 1]);
        }
        lemma_first_git_agrees(rest, a, b);
        assert(roots.contains(roots[0]));
        if let Some(d) = first_git(rest, a) {
            let k = choose|k: int| 0 <= k < rest.len() && rest[k] == d;
            assert(roots[k + 1] == d);
        }
    }
}

/// A piece of a longer list: where two disks agree on the list they agree on
/// the piece.
proof fn lemma_agree_on_part(
    all: Seq<Seq<char>>,
    part: Seq<Seq<char>>,
    at: int,
    a: Set<Seq<char>>,
    b: Set<Seq<char>>,
)
    requires
        0 <= at,
        at + part.len() <= all.len(),
        part == all.subrange(at, at + part.len()),
        forall|p: Seq<char>| all.contains(p) ==> (#[trigger] a.contains(p) == b.contains(p)),
    ensures
        forall|i: int|
            0 <= i < part.len() ==> a.contains(#[trigger] part[i]) == b.contains(part[i]),
{
    assert forall|i: int| 0 <= i < part.len() implies a.contains(#[trigger] part[i]) == b.contains(
        part[i],
    ) by {
        assert(part[i] == all[at + i]);
        assert(all.contains(part[i]));
    }
}

/// The paths of `shell_probe_paths` are all that matters: disks that agree on
/// them have the same shells, and PowerShell 7 at the same place.
pub proof fn law_probes_suffice(
    e: Places,
    a: Set<Seq<char>>,
    b: Set<Seq<char>>,
    icon: Option<Seq<char>>,
)
    requires
        forall|p: Seq<char>|
            probe_paths(e).contains(p) ==> (#[trigger] a.contains(p) == b.contains(p)),
    ensures
        shells_found(e, a, icon) == shells_found(e, b, icon),
        pwsh_program(e, a) == pwsh_program(e, b),
{
    let all = probe_paths(e);
    let fixed = seq![powershell_file(e), cmd_file(e), pwsh_file(e), wsl_file(e)];
    let found = search_paths(e.path, "pwsh.exe"@);
    let dirs = vs_dirs(e.program_files);
    let roots = git_roots(e);
    let scripts = dirs.map_values(|d: Seq<char>| dev_script(d));
    let icons = dirs.map_values(|d: Seq<char>| devenv(d));
    let bashes = roots.map_values(|d: Seq<char>| bash_file(d));
    let gits = roots.map_values(|d: Seq<char>| git_bash_file(d));
    let at1 = fixed.len() as int;
    let at2 = at1 + found.len();
    let at3 = at2 + scripts.len();
    let at4 = at3 + icons.len();
    let at5 = at4 + bashes.len();
    assert(fixed =~= all.subrange(0, at1));
    assert(found =~= all.subrange(at1, at2));
    assert(scripts =~= all.subrange(at2, at3));
    assert(icons =~= all.subrange(at3, at4));
    assert(bashes =~= all.subrange(at4, at5));
    assert(gits =~= all.subrange(at5, at5 + gits.len()));
    lemma_agree_on_part(all, fixed, 0, a, b);
    lemma_agree_on_part(all, found, at1, a, b);
    lemma_agree_on_part(all, scripts, at2, a, b);
    lemma_agree_on_part(all, icons, at3, a, b);
    lemma_agree_on_part(all, bashes, at4, a, b);
    lemma_agree_on_part(all, gits, at5, a, b);
    assert(a.contains(fixed[0]) == b.contains(fixed[0]));
    assert(a.contains(fixed[1]) == b.contains(fixed[1]));
    assert(a.contains(fixed[2]) == b.contains(fixed[2]));
    assert(a.contains(fixed[3]) == b.contains(fixed[3]));
    lemma_first_existing_agrees(seq![powershell_file(e)], a, b);
    lemma_first_existing_agrees(seq![cmd_file(e)], a, b);
    lemma_first_existing_agrees(seq![pwsh_file(e)], a, b);
    lemma_first_existing_agrees(seq![wsl_file(e)], a, b);
    lemma_first_existing_agrees(found, a, b);
    assert forall|i: int| 0 <= i < dirs.len() implies a.contains(dev_script(#[trigger] dirs[i]))
        == b.contains(dev_script(dirs[i])) by {
        assert(scripts[i] == dev_script(dirs[i]));
    }
    lemma_first_with_script_agrees(dirs, a, b);
    if let Some(vs) = first_with_script(dirs, a) {
        let k = choose|k: int| 0 <= k < dirs.len() && dirs[k] == vs;
        assert(icons[k] == devenv(vs));
    }
    assert forall|i: int| 0 <= i < roots.len() implies a.contains(bash_file(#[trigger] roots[i]))
        == b.contains(bash_file(roots[i])) by {
        assert(bashes[i] == bash_file(roots[i]));
    }
    lemma_first_git_agrees(roots, a, b);
    if let Some(root) = first_git(roots, a) {
        let k = choose|k: int| 0 <= k < roots.len() && roots[k] == root;
        assert(gits[k] == git_bash_file(root));
    }
}

/// There is always a shell: Windows PowerShell and the command prompt stand
/// in every list, and PowerShell 7 comes first where it is installed.
pub proof fn law_there_is_a_shell(e: Places, disk: Set<Seq<char>>, icon: Option<Seq<char>>)
    ensures
        shells_found(e, disk, icon).len() >= 2,
        ({
            let s = shells_found(e, disk, icon);
            match pwsh_program(e, disk) {
                Some(p) => s[0].short == "pwsh"@ && s[0].program == p && s[1].short
                    == "powershell"@ && s[2].short == "cmd"@,
                None => s[0].short == "powershell"@ && s[1].short == "cmd"@,
            }
        }),
{
}

/// No two shells share a short name, so that settings can refer to a shell
/// by it.
pub proof fn law_short_names_differ(
    e: Places,
    disk: Set<Seq<char>>,
    icon: Option<Seq<char>>,
    i: int,
    j: int,
)
    requires
        0 <= i < j < shells_found(e, disk, icon).len(),
    ensures
        shells_found(e, disk, icon)[i].short != shells_found(e, disk, icon)[j].short,
{
    reveal_strlit("pwsh");
    reveal_strlit("powershell");
    reveal_strlit("cmd");
    reveal_strlit("devcmd");
    reveal_strlit("devps");
    reveal_strlit("bash");
    reveal_strlit("wsl");
    assert("pwsh"@[0] != "bash"@[0]);
    assert("cmd"@[0] != "wsl"@[0]);
    assert("pwsh"@.len() == 4 && "bash"@.len() == 4 && "powershell"@.len() == 10);
    assert("cmd"@.len() == 3 && "wsl"@.len() == 3 && "devcmd"@.len() == 6 && "devps"@.len() == 5);
}

/// A file that is found exists, and so none is found on an empty disk.
pub proof fn law_found_exists(paths: Seq<Seq<char>>, disk: Set<Seq<char>>)
    ensures
        first_existing(paths, disk) matches Some(p) ==> disk.contains(p) && paths.contains(p)
            && p.len() > 0,
        first_existing(paths, disk) is None ==> forall|i: int|
            0 <= i < paths.len() && (#[trigger] paths[i]).len() > 0 ==> !disk.contains(paths[i]),
    decreases paths.len(),
{
    if paths.len() > 0 {
        let rest = paths.drop_first();
        law_found_exists(rest, disk);
        assert(paths.contains(paths[0]));
        if let Some(p) = first_existing(rest, disk) {
            let k = choose|k: int| 0 <= k < rest.len() && rest[k] == p;
            assert(paths[k + 1] == p);
        }
        if first_existing(paths, disk) is None {
            assert forall|i: int| 0 <= i < paths.len() && (#[trigger] paths[i]).len() > 0 implies
                !disk.contains(paths[i]) by {
                if i > 0 {
                    assert(paths[i] == rest[i - 1]);
                }
            }
        }
    }
}

/// The first path that exists is found: nothing before it does.
pub proof fn law_first_is_found(paths: Seq<Seq<char>>, disk: Set<Seq<char>>, i: int)
    requires
        0 <= i < paths.len(),
        paths[i].len() > 0,
        disk.contains(paths[i]),
        forall|j: int| 0 <= j < i ==> (#[trigger] paths[j]).len() == 0 || !disk.contains(paths[j]),
    ensures
        first_existing(paths, disk) == Some(paths[i]),
    decreases i,
{
    if i > 0 {
        let rest = paths.drop_first();
        assert(paths[0].len() == 0 || !disk.contains(paths[0]));
        assert forall|j: int| 0 <= j < i - 1 implies (#[trigger] rest[j]).len() == 0
            || !disk.contains(rest[j]) by {
            assert(rest[j] == paths[j + 1]);
        }
        law_first_is_found(rest, disk, i - 1);
    }
}

/// A search path is gone through entry by entry, from one semicolon to the
/// next: a program is looked for in each directory in turn, and an empty entry
/// is none.
pub proof fn law_search_path(a: Seq<char>, b: Seq<char>, dir: Seq<char>, name: Seq<char>)
    requires
        dir.len() > 0,
        !dir.contains(';'),
    ensures
        search_paths(Some(a + seq![';'] + b), name) == search_paths(Some(a), name) + search_paths(
            Some(b),
            name,
        ),
        search_paths(Some(dir), name) == seq![dir + seq!['\\'] + name],
        search_paths(Some(Seq::empty()), name) == Seq::<Seq<char>>::empty(),
        search_paths(None, name) == Seq::<Seq<char>>::empty(),
{
    text::law_split_at(a, b, ';');
    lemma_in_dirs_joins(text::pieces(a, ';'), text::pieces(b, ';'), name);
    text::law_split_at(dir, b, ';');
    reveal_strlit("\\");
    assert("\\"@ =~= seq!['\\']);
    reveal_with_fuel(in_dirs, 2);
    assert(seq![dir].drop_last() =~= Seq::<Seq<char>>::empty());
    assert(search_paths(Some(dir), name) =~= seq![dir + seq!['\\'] + name]);
    let nothing = Seq::<char>::empty();
    text::law_split_at(nothing, b, ';');
    assert(seq![nothing].drop_last() =~= Seq::<Seq<char>>::empty());
    assert(search_paths(Some(nothing), name) =~= Seq::<Seq<char>>::empty());
}

proof fn lemma_in_dirs_joins(a: Seq<Seq<char>>, b: Seq<Seq<char>>, name: Seq<char>)
    ensures
        in_dirs(a + b, name) == in_dirs(a, name) + in_dirs(b, name),
    decreases b.len(),
{
    if b.len() == 0 {
        assert(a + b =~= a);
        assert(in_dirs(a, name) + in_dirs(b, name) =~= in_dirs(a, name));
    } else {
        lemma_in_dirs_joins(a, b.drop_last(), name);
        assert((a + b).drop_last() =~= a + b.drop_last());
        assert((a + b).last() == b.last());
        assert(in_dirs(a + b, name) =~= in_dirs(a, name) + in_dirs(b, name));
    }
}

/// How the two PowerShells are started: they stay open and switch their
/// predictions off where there are any.
pub proof fn law_powershells_stay_open(
    e: Places,
    disk: Set<Seq<char>>,
    icon: Option<Seq<char>>,
    i: int,
)
    requires
        0 <= i < shells_found(e, disk, icon).len(),
        shells_found(e, disk, icon)[i].short == "pwsh"@ || shells_found(e, disk, icon)[i].short
            == "powershell"@,
    ensures
        ({
            let args = shells_found(e, disk, icon)[i].args;
            &&& args.len() == 3
            &&& args[0] == "-NoExit"@
            &&& args[1] == "-Command"@
            &&& args[2]
                == "$c = Get-Command Set-PSReadLineOption -ErrorAction SilentlyContinue; if ($c -and $c.Parameters.ContainsKey('PredictionSource')) { Set-PSReadLineOption -PredictionSource None }"@
        }),
{
    reveal_strlit("pwsh");
    reveal_strlit("powershell");
    reveal_strlit("cmd");
    reveal_strlit("devcmd");
    reveal_strlit("devps");
    reveal_strlit("bash");
    reveal_strlit("wsl");
    assert("pwsh"@[0] != "bash"@[0]);
    assert("pwsh"@.len() == 4 && "bash"@.len() == 4 && "powershell"@.len() == 10);
    assert("cmd"@.len() == 3 && "wsl"@.len() == 3 && "devcmd"@.len() == 6 && "devps"@.len() == 5);
}

/// How many of the shells before the others are PowerShell 7.
pub open spec fn pwsh_count(e: Places, disk: Set<Seq<char>>) -> int {
    if pwsh_program(e, disk) is Some {
        1
    } else {
        0
    }
}

/// PowerShell 7 is the one in its own directory, or else the first along the
/// search path; it stands first and wears the icon that was found for it.
pub proof fn law_powershell_seven(e: Places, disk: Set<Seq<char>>, icon: Option<Seq<char>>)
    ensures
        ({
            let s = shells_found(e, disk, icon);
            let own = e.program_files + "\\PowerShell\\7\\pwsh.exe"@;
            let along = first_existing(search_paths(e.path, "pwsh.exe"@), disk);
            &&& disk.contains(own) ==> pwsh_program(e, disk) == Some(own)
            &&& !disk.contains(own) ==> pwsh_program(e, disk) == along
            &&& pwsh_program(e, disk) matches Some(p) ==> s[0].program == p && s[0].label
                == "PowerShell 7"@ && s[0].short == "pwsh"@ && s[0].icon_source == icon
        }),
{
    reveal_strlit("\\PowerShell\\7\\pwsh.exe");
    let own = e.program_files + "\\PowerShell\\7\\pwsh.exe"@;
    assert(own.len() > 0);
    lemma_first_of_one(own, disk);
}

proof fn lemma_first_of_one(p: Seq<char>, disk: Set<Seq<char>>)
    requires
        p.len() > 0,
    ensures
        first_existing(seq![p], disk) == (if disk.contains(p) {
            Some(p)
        } else {
            None
        }),
{
    reveal_with_fuel(first_existing, 2);
    assert(seq![p].drop_first() =~= Seq::<Seq<char>>::empty());
}

/// Behind PowerShell 7 stand Windows PowerShell and the command prompt, by
/// their files in the system's directory or else by their bare names.
pub proof fn law_standing_shells(e: Places, disk: Set<Seq<char>>, icon: Option<Seq<char>>)
    ensures
        ({
            let s = shells_found(e, disk, icon);
            let n = pwsh_count(e, disk);
            let ps = e.system_root + "\\System32\\WindowsPowerShell\\v1.0\\powershell.exe"@;
            let cmd = e.system_root + "\\System32\\cmd.exe"@;
            &&& s[n].label == "Windows PowerShell"@
            &&& s[n].short == "powershell"@
            &&& disk.contains(ps) ==> s[n].program == ps
            &&& !disk.contains(ps) ==> s[n].program == "powershell.exe"@
            &&& s[n].icon_source is None
            &&& s[n + 1].label == "Command Prompt"@
            &&& s[n + 1].short == "cmd"@
            &&& disk.contains(cmd) ==> s[n + 1].program == cmd
            &&& !disk.contains(cmd) ==> s[n + 1].program == "cmd.exe"@
            &&& s[n + 1].args.len() == 0
            &&& s[n + 1].icon_source is None
        }),
{
    reveal_strlit("\\System32\\WindowsPowerShell\\v1.0\\powershell.exe");
    reveal_strlit("\\System32\\cmd.exe");
    lemma_first_of_one(powershell_file(e), disk);
    lemma_first_of_one(cmd_file(e), disk);
}

/// The editions of Visual Studio, in the order in which they are looked for.
pub open spec fn editions() -> Seq<Seq<char>> {
    seq!["Community"@, "Professional"@, "Enterprise"@, "BuildTools"@, "Preview"@]
}

/// The developer shells come with the first edition of Visual Studio that has
/// its script: the command prompt runs the script, a PowerShell enters the
/// developer's shell, and both wear the icon of Visual Studio if it is there.
/// Without such an edition neither is there.
pub proof fn law_developer_shells(
    e: Places,
    disk: Set<Seq<char>>,
    icon: Option<Seq<char>>,
    k: int,
)
    requires
        0 <= k <= 5,
        forall|j: int|
            0 <= j < k ==> !disk.contains(
                e.program_files + "\\Microsoft Visual Studio\\2022\\"@ + #[trigger] editions()[j]
                    + "\\Common7\\Tools\\VsDevCmd.bat"@,
            ),
        k < 5 ==> disk.contains(
            e.program_files + "\\Microsoft Visual Studio\\2022\\"@ + editions()[k]
                + "\\Common7\\Tools\\VsDevCmd.bat"@,
        ),
    ensures
        ({
            let s = shells_found(e, disk, icon);
            let n = pwsh_count(e, disk) + 2;
            let vs = e.program_files + "\\Microsoft Visual Studio\\2022\\"@ + editions()[k];
            let wears = vs + "\\Common7\\IDE\\devenv.exe"@;
            k < 5 ==> {
                &&& s.len() >= n + 2
                &&& s[n].label == "Developer Command Prompt for VS 2022"@
                &&& s[n].short == "devcmd"@
                &&& s[n].program == s[n - 1].program
                &&& s[n].args == seq!["/k"@, vs + "\\Common7\\Tools\\VsDevCmd.bat"@]
                &&& s[n + 1].label == "Developer PowerShell for VS 2022"@
                &&& s[n + 1].short == "devps"@
                &&& s[n + 1].program == s[0].program
                &&& s[n + 1].args == seq![
                    "-NoExit"@,
                    "-Command"@,
                    "&{ Import-Module '"@ + vs
                        + "\\Common7\\Tools\\Microsoft.VisualStudio.DevShell.dll"@
                        + "'; Enter-VsDevShell -SkipAutomaticLocation -VsInstallPath '"@ + vs
                        + "' -DevCmdArguments '-arch=x64' }"@,
                ]
                &&& disk.contains(wears) ==> s[n].icon_source == Some(wears)
                &&& !disk.contains(wears) ==> s[n].icon_source is None
                &&& s[n + 1].icon_source == s[n].icon_source
            }
        }),
        vs_shells(e, disk).len() == (if k < 5 {
            2int
        } else {
            0
        }),
{
    let dirs = vs_dirs(e.program_files);
    assert forall|j: int| 0 <= j < 5 implies #[trigger] dirs[j] == e.program_files
        + "\\Microsoft Visual Studio\\2022\\"@ + editions()[j] by {}
    assert forall|j: int| 0 <= j < k implies !disk.contains(dev_script(#[trigger] dirs[j])) by {
        assert(dirs[j] == e.program_files + "\\Microsoft Visual Studio\\2022\\"@ + editions()[j]);
    }
    lemma_first_script(dirs, disk, k);
}

proof fn lemma_first_script(dirs: Seq<Seq<char>>, disk: Set<Seq<char>>, k: int)
    requires
        0 <= k <= dirs.len(),
        forall|j: int| 0 <= j < k ==> !disk.contains(dev_script(#[trigger] dirs[j])),
        k < dirs.len() ==> disk.contains(dev_script(dirs[k])),
    ensures
        first_with_script(dirs, disk) == (if k < dirs.len() {
            Some(dirs[k])
        } else {
            None
        }),
    decreases dirs.len(),
{
    if k > 0 {
        assert(!disk.contains(dev_script(dirs[0])));
        let rest = dirs.drop_first();
        assert forall|j: int| 0 <= j < k - 1 implies !disk.contains(dev_script(#[trigger] rest[j])) by {
            assert(rest[j] == dirs[j + 1]);
        }
        lemma_first_script(rest, disk, k - 1);
    }
}

/// Where Git is looked for, in order.
pub open spec fn git_places(e: Places) -> Seq<Seq<char>> {
    seq![
        e.program_files + "\\Git"@,
        e.program_files_x86 + "\\Git"@,
        e.local_app_data + "\\Programs\\Git"@,
    ]
}

/// Git Bash stands behind the developer shells, from the first place where Git
/// has it: as a login shell that is talked to, with the icon of Git Bash if
/// that is there. The Windows Subsystem for Linux stands last, where its file
/// is there. Nothing else is in the list.
pub proof fn law_git_and_wsl(e: Places, disk: Set<Seq<char>>, icon: Option<Seq<char>>, k: int)
    requires
        0 <= k <= 3,
        forall|j: int|
            0 <= j < k ==> !disk.contains(#[trigger] git_places(e)[j] + "\\bin\\bash.exe"@),
        k < 3 ==> disk.contains(git_places(e)[k] + "\\bin\\bash.exe"@),
    ensures
        ({
            let s = shells_found(e, disk, icon);
            let n = pwsh_count(e, disk) + 2 + vs_shells(e, disk).len();
            let git = if k < 3 {
                1int
            } else {
                0
            };
            let root = git_places(e)[k];
            let wears = root + "\\git-bash.exe"@;
            let wsl = e.system_root + "\\System32\\wsl.exe"@;
            &&& k < 3 ==> {
                &&& s[n].label == "Git Bash"@
                &&& s[n].short == "bash"@
                &&& s[n].program == root + "\\bin\\bash.exe"@
                &&& s[n].args == seq!["-l"@, "-i"@]
                &&& disk.contains(wears) ==> s[n].icon_source == Some(wears)
                &&& !disk.contains(wears) ==> s[n].icon_source is None
            }
            &&& disk.contains(wsl) ==> {
                &&& s.len() == n + git + 1
                &&& s.last().label == "WSL"@
                &&& s.last().short == "wsl"@
                &&& s.last().program == wsl
                &&& s.last().args.len() == 0
                &&& s.last().icon_source is None
            }
            &&& !disk.contains(wsl) ==> s.len() == n + git
        }),
{
    let roots = git_roots(e);
    assert(roots =~= git_places(e));
    assert forall|j: int| 0 <= j < k implies !disk.contains(bash_file(#[trigger] roots[j])) by {
        assert(roots[j] == git_places(e)[j]);
    }
    lemma_first_git(roots, disk, k);
    reveal_strlit("\\System32\\wsl.exe");
    lemma_first_of_one(wsl_file(e), disk);
}

proof fn lemma_first_git(roots: Seq<Seq<char>>, disk: Set<Seq<char>>, k: int)
    requires
        0 <= k <= roots.len(),
        forall|j: int| 0 <= j < k ==> !disk.contains(bash_file(#[trigger] roots[j])),
        k < roots.len() ==> disk.contains(bash_file(roots[k])),
    ensures
        first_git(roots, disk) == (if k < roots.len() {
            Some(roots[k])
        } else {
            None
        }),
    decreases roots.len(),
{
    if k > 0 {
        assert(!disk.contains(bash_file(roots[0])));
        let rest = roots.drop_first();
        assert forall|j: int| 0 <= j < k - 1 implies !disk.contains(bash_file(#[trigger] rest[j])) by {
            assert(rest[j] == roots[j + 1]);
        }
        lemma_first_git(rest, disk, k - 1);
    }
}

/// What the environment leaves out is empty, but for the directory of the
/// system; what it names is as it names it.
pub proof fn law_environment(env: EnvVars)
    ensures
        env@.path == text::text_of(env.path),
        env.program_files matches Some(t) ==> env@.program_files == t@,
        env.program_files is None ==> env@.program_files.len() == 0,
        env.program_files_x86 matches Some(t) ==> env@.program_files_x86 == t@,
        env.program_files_x86 is None ==> env@.program_files_x86.len() == 0,
        env.local_app_data matches Some(t) ==> env@.local_app_data == t@,
        env.local_app_data is None ==> env@.local_app_data.len() == 0,
        env.system_root matches Some(t) ==> env@.system_root == t@,
        env.system_root is None ==> env@.system_root == "C:\\Windows"@,
{
}

/// A path is on the disk where it is among those that exist.
pub proof fn law_disk(d: Disk, p: Seq<char>)
    ensures
        d@.contains(p) <==> exists|i: int| 0 <= i < d.existing@.len() && (#[trigger] d.existing@[i])@ == p,
{
    let all = text::texts(d.existing@);
    if d@.contains(p) {
        let i = choose|i: int| 0 <= i < all.len() && all[i] == p;
        assert(d.existing@[i]@ == p);
    }
    if exists|i: int| 0 <= i < d.existing@.len() && (#[trigger] d.existing@[i])@ == p {
        let i = choose|i: int| 0 <= i < d.existing@.len() && (#[trigger] d.existing@[i])@ == p;
        assert(all[i] == p);
    }
}

/// Shells are viewed one by one.
pub proof fn law_shell_views(v: Seq<ShellSpec>, i: int)
    requires
        0 <= i < v.len(),
    ensures
        shell_views(v).len() == v.len(),
        shell_views(v)[i].label == v[i].label@,
        shell_views(v)[i].short == v[i].short@,
        shell_views(v)[i].program == v[i].program@,
        shell_views(v)[i].args == text::texts(v[i].args@),
        shell_views(v)[i].icon_source == text::text_of(v[i].icon_source),
{
}

/// A program that is named by its full path is that file or none, and one that
/// is named otherwise is the first of its name along the search path.
pub proof fn law_resolved_programs(
    program: &str,
    path: &Option<String>,
    disk: &Disk,
    full: Option<String>,
    named: Option<String>,
    along: Option<String>,
)
    requires
        call_ensures(resolve_program, (program, true, path, disk), full),
        call_ensures(resolve_program, (program, false, path, disk), named),
        call_ensures(which, (program, path, disk), along),
    ensures
        disk@.contains(program@) ==> full is Some && full->0@ == program@,
        !disk@.contains(program@) ==> full is None,
        text::text_of(named) == text::text_of(along),
        path is None ==> along is None,
        along matches Some(p) ==> disk@.contains(p@),
{
    law_found_exists(search_paths(text::text_of(*path), program@), disk@);
}

} // verus!
