use lust_termina::shells;
use lust_termina::shells::{Disk, EnvVars, ShellSpec};

fn strings(v: &[&str]) -> Vec<String> {
    v.iter().map(|s| s.to_string()).collect()
}

fn disk(v: &[&str]) -> Disk {
    Disk { existing: strings(v) }
}

fn env() -> EnvVars {
    EnvVars {
        path: Some("C:\\bin;;D:\\tools".to_string()),
        program_files: Some("C:\\PF".to_string()),
        program_files_x86: Some("C:\\PF86".to_string()),
        local_app_data: Some("C:\\LAD".to_string()),
        system_root: None,
    }
}

fn shorts(v: &[ShellSpec]) -> Vec<&str> {
    v.iter().map(|s| s.short.as_str()).collect()
}

#[test]
fn finds_the_first_that_exists() {
    let d = disk(&["b", "c"]);
    assert_eq!(shells::find_existing(&strings(&["a", "b", "c"]), &d), Some("b".to_string()));
    assert_eq!(shells::find_existing(&strings(&["a"]), &d), None);
    assert_eq!(shells::find_existing(&strings(&[]), &d), None);
    assert!(d.has_path("c") && !d.has_path("a"));
}

#[test]
fn searches_along_the_path_without_empty_entries() {
    let e = env();
    assert_eq!(
        shells::which_paths(&e.path, "x.exe"),
        strings(&["C:\\bin\\x.exe", "D:\\tools\\x.exe"])
    );
    let d = disk(&["D:\\tools\\x.exe", "\\x.exe"]);
    assert_eq!(shells::which("x.exe", &e.path, &d), Some("D:\\tools\\x.exe".to_string()));
    assert_eq!(shells::which("x.exe", &None, &d), None);
}

#[test]
fn resolves_full_paths_and_names() {
    let e = env();
    let d = disk(&["C:\\x.exe", "C:\\bin\\y.exe"]);
    let r = |p: &str, absolute: bool| shells::resolve_program(p, absolute, &e.path, &d);
    assert_eq!(r("C:\\x.exe", true), Some("C:\\x.exe".to_string()));
    assert_eq!(r("C:\\z.exe", true), None);
    assert_eq!(r("y.exe", false), Some("C:\\bin\\y.exe".to_string()));
    assert_eq!(r("z.exe", false), None);
}

#[test]
fn finds_visual_studio_by_its_script() {
    let script = |ed: &str| {
        format!("C:\\PF\\Microsoft Visual Studio\\2022\\{ed}\\Common7\\Tools\\VsDevCmd.bat")
    };
    let d = disk(&[&script("BuildTools"), &script("Professional")]);
    assert_eq!(
        shells::find_vs2022("C:\\PF", &d),
        Some("C:\\PF\\Microsoft Visual Studio\\2022\\Professional".to_string())
    );
    assert_eq!(shells::find_vs2022("C:\\Other", &d), None);
}

#[test]
fn a_bare_machine_has_two_shells() {
    let v = shells::discover_shells(&env(), &disk(&[]), None);
    assert_eq!(shorts(&v), vec!["powershell", "cmd"]);
    assert_eq!(v[0].program, "powershell.exe");
    assert_eq!(v[0].label, "Windows PowerShell");
    assert_eq!(v[0].args.len(), 3);
    assert_eq!(v[0].args[0], "-NoExit");
    assert_eq!(v[1].program, "cmd.exe");
    assert!(v[1].args.is_empty() && v[1].icon_source.is_none());
}

#[test]
fn a_full_machine_has_all_shells_in_order() {
    let vs = "C:\\PF\\Microsoft Visual Studio\\2022\\Community";
    let d = disk(&[
        "C:\\Windows\\System32\\WindowsPowerShell\\v1.0\\powershell.exe",
        "C:\\Windows\\System32\\cmd.exe",
        "C:\\Windows\\System32\\wsl.exe",
        "C:\\PF\\PowerShell\\7\\pwsh.exe",
        "C:\\bin\\pwsh.exe",
        &format!("{vs}\\Common7\\Tools\\VsDevCmd.bat"),
        &format!("{vs}\\Common7\\IDE\\devenv.exe"),
        "C:\\PF86\\Git\\bin\\bash.exe",
        "C:\\PF86\\Git\\git-bash.exe",
    ]);
    let v = shells::discover_shells(&env(), &d, Some("pwsh.png".to_string()));
    assert_eq!(
        shorts(&v),
        vec!["pwsh", "powershell", "cmd", "devcmd", "devps", "bash", "wsl"]
    );
    assert_eq!(v[0].program, "C:\\PF\\PowerShell\\7\\pwsh.exe");
    assert_eq!(v[0].icon_path(), "pwsh.png");
    assert_eq!(v[2].icon_path(), "C:\\Windows\\System32\\cmd.exe");
    assert_eq!(v[3].args, strings(&["/k", &format!("{vs}\\Common7\\Tools\\VsDevCmd.bat")]));
    assert_eq!(v[3].icon_source, Some(format!("{vs}\\Common7\\IDE\\devenv.exe")));
    assert_eq!(v[4].program, v[0].program);
    assert_eq!(
        v[4].args[2],
        format!(
            "&{{ Import-Module '{vs}\\Common7\\Tools\\Microsoft.VisualStudio.DevShell.dll'; \
             Enter-VsDevShell -SkipAutomaticLocation -VsInstallPath '{vs}' \
             -DevCmdArguments '-arch=x64' }}"
        )
    );
    assert_eq!(v[5].args, strings(&["-l", "-i"]));
    assert_eq!(v[5].icon_source, Some("C:\\PF86\\Git\\git-bash.exe".to_string()));
    assert_eq!(v[6].program, "C:\\Windows\\System32\\wsl.exe");
}

#[test]
fn powershell_seven_is_found_along_the_path() {
    let d = disk(&["D:\\tools\\pwsh.exe"]);
    assert_eq!(shells::find_pwsh(&env(), &d), Some("D:\\tools\\pwsh.exe".to_string()));
    assert_eq!(shells::find_pwsh(&env(), &disk(&[])), None);
}

#[test]
fn probes_name_every_file_that_matters() {
    let probes = shells::shell_probe_paths(&env());
    let everything = Disk { existing: probes.clone() };
    let v = shells::discover_shells(&env(), &everything, None);
    assert_eq!(v.len(), 7);
    for s in &v {
        assert!(probes.contains(&s.program));
    }
    let mut short = shorts(&v);
    short.sort();
    short.dedup();
    assert_eq!(short.len(), 7);
}

#[test]
fn a_copied_shell_is_the_same() {
    let v = shells::discover_shells(&env(), &disk(&[]), None);
    let c = v[0].copy();
    assert_eq!((c.label, c.short, c.program), ("Windows PowerShell".to_string(), "powershell".to_string(), "powershell.exe".to_string()));
    assert_eq!(c.args, v[0].args);
    assert_eq!(c.icon_source, None);
}
