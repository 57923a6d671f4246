use lust_termina::icons;
use lust_termina::icons::{AppsEntry, AssetFile, PackageDir};

fn text(s: &str) -> Option<String> {
    Some(s.to_string())
}

fn asset(name: &str, extension: &str) -> AssetFile {
    AssetFile {
        path: format!("assets\\{name}.{extension}"),
        name: text(&format!("{name}.{extension}")),
        extension: text(extension),
    }
}

#[test]
fn takes_the_asset_that_suits_a_menu_best() {
    let dir = text("C:\\Program Files\\WINDOWSAPPS\\pwsh");
    let files = Some(vec![
        asset("StoreLogo", "png"),
        asset("Square44x44Logo.targetsize-48", "ico"),
        asset("Square44x44Logo.targetsize-48", "PNG"),
        asset("Square44x44Logo", "png"),
    ]);
    assert_eq!(
        icons::msix_icon_for(&dir, &files),
        text("assets\\Square44x44Logo.targetsize-48.PNG")
    );
    assert_eq!(
        icons::msix_icon_for(&dir, &Some(vec![asset("StoreLogo.scale-100", "png")])),
        text("assets\\StoreLogo.scale-100.png")
    );
    assert_eq!(icons::msix_icon_for(&dir, &Some(vec![asset("other", "png")])), None);
}

#[test]
fn only_packaged_applications_have_assets() {
    let files = Some(vec![asset("StoreLogo", "png")]);
    assert_eq!(icons::msix_icon_for(&text("C:\\tools"), &files), None);
    assert_eq!(icons::msix_icon_for(&None, &files), None);
    assert_eq!(icons::msix_icon_for(&text("C:\\WindowsApps"), &None), None);
}

fn package(base: &str, icons: Vec<Option<String>>) -> PackageDir {
    PackageDir { base: base.to_string(), icons }
}

#[test]
fn x64_packages_come_first() {
    let v = vec![
        package("pwsh_arm64_", vec![text("arm.png")]),
        package("pwsh_x64_", vec![None, text("x64.png"), text("later.png")]),
    ];
    assert_eq!(icons::pwsh_pkg_icon(&v), text("x64.png"));
}

#[test]
fn other_packages_stand_in() {
    let v = vec![
        package("pwsh_arm64_", vec![None, None]),
        package("pwsh_x86_", vec![text("x86.png")]),
        package("pwsh_x64_", vec![None]),
    ];
    assert_eq!(icons::pwsh_pkg_icon(&v), text("x86.png"));
    assert_eq!(icons::pwsh_pkg_icon(&vec![]), None);
    assert_eq!(icons::package_icon_names().len(), 5);
    assert_eq!(icons::package_icon_names()[4], "StoreLogo.png");
}

fn entry(name: &str, assets: Option<Vec<AssetFile>>) -> AppsEntry {
    AppsEntry { name: text(name), path: format!("C:\\PF\\WindowsApps\\{name}"), assets }
}

#[test]
fn scans_packages_of_powershell_only() {
    let v = vec![
        entry("Other_x64_", Some(vec![asset("StoreLogo", "png")])),
        entry("Microsoft.PowerShell_7_x64_", None),
        entry("Microsoft.PowerShell_7_arm64_", Some(vec![asset("Square150x150Logo", "png")])),
    ];
    assert_eq!(icons::pwsh_msix_icon(&v), text("assets\\Square150x150Logo.png"));
    let v = vec![
        entry("Microsoft.PowerShell_7_arm64_", Some(vec![asset("Square150x150Logo", "png")])),
        entry("Microsoft.PowerShell_7_x64_", Some(vec![asset("StoreLogo", "png")])),
    ];
    assert_eq!(icons::pwsh_msix_icon(&v), text("assets\\StoreLogo.png"));
    assert_eq!(icons::pwsh_msix_icon(&vec![]), None);
}

#[test]
fn installed_then_scanned_then_beside() {
    assert_eq!(icons::pwsh_icon(text("a"), text("b"), text("c")), text("a"));
    assert_eq!(icons::pwsh_icon(None, text("b"), text("c")), text("b"));
    assert_eq!(icons::pwsh_icon(None, None, text("c")), text("c"));
    assert_eq!(icons::pwsh_icon(None, None, None), None);
}

#[test]
fn package_paths_are_decoded_up_to_the_zero() {
    let mut buffer: Vec<u16> = "C:\\日\u{1F600}".encode_utf16().collect();
    buffer.push(0);
    let n = buffer.len() as u32;
    assert_eq!(icons::package_path(&buffer, n), text("C:\\日\u{1F600}"));
    assert_eq!(icons::package_path(&buffer, 3), text("C:"));
    assert_eq!(icons::package_path(&buffer, 0), None);
    assert_eq!(icons::package_path(&vec![], 9), None);
}

#[test]
fn lone_surrogates_become_replacement_characters() {
    for units in [
        vec![0xd800u16, 0x41],
        vec![0xdc00, 0xd800],
        vec![0xd83d, 0xd83d, 0xde00],
        vec![0x41, 0xdfff, 0xdbff, 0xdc00],
    ] {
        let expected = String::from_utf16_lossy(&units);
        assert_eq!(icons::package_path(&units, units.len() as u32 + 1), Some(expected));
    }
    assert_eq!(icons::package_path(&vec![0xd800, 0x41], 3), text("\u{FFFD}A"));
}
