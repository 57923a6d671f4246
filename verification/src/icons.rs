//! Icons of shells: which file is taken.
use vstd::prelude::*;

use crate::text;

verus! {

// ---- icons of packaged applications ----

/// A file among the assets of a package.
pub struct AssetFile {
    pub path: String,
    pub name: Option<String>,
    pub extension: Option<String>,
}

/// An `AssetFile` with its texts.
pub struct AssetView {
    pub path: Seq<char>,
    pub name: Option<Seq<char>>,
    pub extension: Option<Seq<char>>,
}

impl View for AssetFile {
    type V = AssetView;

    open spec fn view(&self) -> AssetView {
        AssetView {
            path: self.path@,
            name: text::text_of(self.name),
            extension: text::text_of(self.extension),
        }
    }
}

/// The views of a list of files.
pub open spec fn asset_views(v: Seq<AssetFile>) -> Seq<AssetView> {
    v.map_values(|a: AssetFile| a@)
}

/// The file is a PNG whose name holds `key`.
pub open spec fn is_png_named(a: AssetView, key: Seq<char>) -> bool {
    &&& a.extension matches Some(x) && text::lowered(x) == "png"@
    &&& a.name matches Some(n) && text::holds(n, key)
}

/// The first PNG whose name holds `key`.
pub open spec fn first_named(files: Seq<AssetView>, key: Seq<char>) -> Option<Seq<char>>
    decreases files.len(),
{
    if files.len() == 0 {
        None
    } else if is_png_named(files[0], key) {
        Some(files[0].path)
    } else {
        first_named(files.drop_first(), key)
    }
}

/// The first PNG of the first of `keys` that some PNG's name holds.
pub open spec fn best_named(files: Seq<AssetView>, keys: Seq<Seq<char>>) -> Option<Seq<char>>
    decreases keys.len(),
{
    if keys.len() == 0 {
        None
    } else {
        match first_named(files, keys[0]) {
            Some(p) => Some(p),
            None => best_named(files, keys.drop_first()),
        }
    }
}

/// Parts of asset names, those that suit a menu best first: small ones
/// without a plate.
pub open spec fn asset_keys() -> Seq<Seq<char>> {
    seq![
        "Square44x44Logo.targetsize-48_altform-unplated"@,
        "Square44x44Logo.targetsize-48"@,
        "Square44x44Logo"@,
        "Square150x150Logo"@,
        "StoreLogo"@,
    ]
}

/// A directory of packaged applications.
pub open spec fn in_windows_apps(dir: Seq<char>) -> bool {
    text::holds(text::lowered(dir), "windowsapps"@)
}

/// The icon of the packaged application in `dir` with these assets.
pub open spec fn msix_icon(dir: Option<Seq<char>>, assets: Option<Seq<AssetView>>) -> Option<
    Seq<char>,
> {
    match (dir, assets) {
        (Some(d), Some(files)) => if in_windows_apps(d) {
            best_named(files, asset_keys())
        } else {
            None
        },
        _ => None,
    }
}

/// The views of an optional list of files.
pub open spec fn assets_of(v: Option<Vec<AssetFile>>) -> Option<Seq<AssetView>> {
    match v {
        Some(files) => Some(asset_views(files@)),
        None => None,
    }
}

/// A list of five strings.
fn five(a: &str, b: &str, c: &str, d: &str, e: &str) -> (r: Vec<String>)
    ensures
        text::texts(r@) == seq![a@, b@, c@, d@, e@],
{
    let mut v: Vec<String> = Vec::new();
    v.push(a.to_owned());
    v.push(b.to_owned());
    v.push(c.to_owned());
    v.push(d.to_owned());
    v.push(e.to_owned());
    assert(text::texts(v@) =~= seq![a@, b@, c@, d@, e@]);
    v
}

/// Whether the file is a PNG whose name holds `key`.
fn png_named(a: &AssetFile, key: &str) -> (r: bool)
    ensures
        r == is_png_named(a@, key@),
{
    match (&a.extension, &a.name) {
        (Some(x), Some(n)) => {
            let low: String = text::to_ascii_lower(x.as_str());
            text::same_text(low.as_str(), "png") && text::contains(n.as_str(), key)
        },
        _ => false,
    }
}

/// The first PNG whose name holds `key`.
fn find_named(files: &Vec<AssetFile>, key: &str) -> (r: Option<String>)
    ensures
        text::text_of(r) == first_named(asset_views(files@), key@),
{
    let ghost all = asset_views(files@);
    let mut i: usize = 0;
    assert(all.skip(0) =~= all);
    while i < files.len()
        invariant
            i <= files@.len(),
            all == asset_views(files@),
            first_named(all, key@) == first_named(all.skip(i as int), key@),
        decreases files@.len() - i,
    {
        assert(all.skip(i as int)[0] == files@[i as int]@);
        assert(all.skip(i as int).drop_first() =~= all.skip(i + 1));
        if png_named(&files[i], key) {
            return Some(files[i].path.clone());
        }
        i = i + 1;
    }
    None
}

/// The icon of the packaged application in `dir`, chosen from its assets. An
/// application that is not packaged has none.
pub fn msix_icon_for(dir: &Option<String>, assets: &Option<Vec<AssetFile>>) -> (r: Option<String>)
    ensures
        text::text_of(r) == msix_icon(text::text_of(*dir), assets_of(*assets)),
{
    let d: &String = match dir {
        Some(d) => d,
        None => {
            return None;
        },
    };
    let low: String = text::to_ascii_lower(d.as_str());
    if !text::contains(low.as_str(), "windowsapps") {
        return None;
    }
    let files: &Vec<AssetFile> = match assets {
        Some(files) => files,
        None => {
            return None;
        },
    };
    let keys: Vec<String> = five(
        "Square44x44Logo.targetsize-48_altform-unplated",
        "Square44x44Logo.targetsize-48",
        "Square44x44Logo",
        "Square150x150Logo",
        "StoreLogo",
    );
    let ghost all = asset_keys();
    let ghost views = asset_views(files@);
    let mut i: usize = 0;
    assert(all.skip(0) =~= all);
    while i < keys.len()
        invariant
            i <= keys@.len(),
            all == text::texts(keys@),
            views == asset_views(files@),
            best_named(views, all) == best_named(views, all.skip(i as int)),
            all == asset_keys(),
            text::text_of(*dir) == Some(d@),
            in_windows_apps(d@),
            assets_of(*assets) == Some(views),
        decreases keys@.len() - i,
    {
        assert(all.skip(i as int)[0] == keys@[i as int]@);
        assert(all.skip(i as int).drop_first() =~= all.skip(i + 1));
        match find_named(files, keys[i].as_str()) {
            Some(hit) => {
                return Some(hit);
            },
            None => {},
        }
        i = i + 1;
    }
    None
}

/// An icon, where there is one, and whether it belongs to an x64 package.
pub struct IconChoice {
    pub x64: bool,
    pub icon: Option<String>,
}

/// An `IconChoice` with its text.
pub struct ChoiceView {
    pub x64: bool,
    pub icon: Option<Seq<char>>,
}

impl View for IconChoice {
    type V = ChoiceView;

    open spec fn view(&self) -> ChoiceView {
        ChoiceView { x64: self.x64, icon: text::text_of(self.icon) }
    }
}

/// The views of a list of choices.
pub open spec fn choice_views(v: Seq<IconChoice>) -> Seq<ChoiceView> {
    v.map_values(|c: IconChoice| c@)
}

/// The first icon among the packages that are x64, or among those that are
/// not.
pub open spec fn first_icon_of(choices: Seq<ChoiceView>, x64: bool) -> Option<Seq<char>>
    decreases choices.len(),
{
    if choices.len() == 0 {
        None
    } else if choices[0].x64 == x64 && choices[0].icon is Some {
        choices[0].icon
    } else {
        first_icon_of(choices.drop_first(), x64)
    }
}

/// The first icon of an x64 package, or else the first icon there is.
pub open spec fn preferred_icon(choices: Seq<ChoiceView>) -> Option<Seq<char>> {
    match first_icon_of(choices, true) {
        Some(p) => Some(p),
        None => first_icon_of(choices, false),
    }
}

/// The first icon among the packages that are x64, or among those that are
/// not.
fn find_icon_of(choices: &Vec<IconChoice>, x64: bool) -> (r: Option<String>)
    ensures
        text::text_of(r) == first_icon_of(choice_views(choices@), x64),
{
    let ghost all = choice_views(choices@);
    let mut i: usize = 0;
    assert(all.skip(0) =~= all);
    while i < choices.len()
        invariant
            i <= choices@.len(),
            all == choice_views(choices@),
            first_icon_of(all, x64) == first_icon_of(all.skip(i as int), x64),
        decreases choices@.len() - i,
    {
        assert(all.skip(i as int)[0] == choices@[i as int]@);
        assert(all.skip(i as int).drop_first() =~= all.skip(i + 1));
        if choices[i].x64 == x64 && choices[i].icon.is_some() {
            return text::copy_text(&choices[i].icon);
        }
        i = i + 1;
    }
    None
}

/// The first icon of an x64 package, or else the first icon there is.
fn prefer_x64(choices: &Vec<IconChoice>) -> (r: Option<String>)
    ensures
        text::text_of(r) == preferred_icon(choice_views(choices@)),
{
    match find_icon_of(choices, true) {
        Some(p) => Some(p),
        None => find_icon_of(choices, false),
    }
}

/// A directory in which a package is installed, with the icons that exist
/// there: one place for each name of `package_icon_names`.
pub struct PackageDir {
    pub base: String,
    pub icons: Vec<Option<String>>,
}

/// The first icon that exists.
pub open spec fn first_present(icons: Seq<Option<String>>) -> Option<Seq<char>>
    decreases icons.len(),
{
    if icons.len() == 0 {
        None
    } else if icons[0] is Some {
        text::text_of(icons[0])
    } else {
        first_present(icons.drop_first())
    }
}

/// What a package offers.
pub open spec fn package_choice(d: PackageDir) -> ChoiceView {
    ChoiceView { x64: text::holds(d.base@, "_x64_"@), icon: first_present(d.icons@) }
}

/// The names of the icons a package may have, those that suit a menu best
/// first.
pub fn package_icon_names() -> (r: Vec<String>)
    ensures
        text::texts(r@) == seq![
            "Square44x44Logo.targetsize-48_altform-unplated.png"@,
            "Square44x44Logo.targetsize-48.png"@,
            "Square44x44Logo.png"@,
            "Square150x150Logo.png"@,
            "StoreLogo.png"@,
        ],
{
    five(
        "Square44x44Logo.targetsize-48_altform-unplated.png",
        "Square44x44Logo.targetsize-48.png",
        "Square44x44Logo.png",
        "Square150x150Logo.png",
        "StoreLogo.png",
    )
}

/// The first icon that exists.
fn find_present(icons: &Vec<Option<String>>) -> (r: Option<String>)
    ensures
        text::text_of(r) == first_present(icons@),
{
    let ghost all = icons@;
    let mut i: usize = 0;
    assert(all.skip(0) =~= all);
    while i < icons.len()
        invariant
            i <= icons@.len(),
            all == icons@,
            first_present(all) == first_present(all.skip(i as int)),
        decreases icons@.len() - i,
    {
        assert(all.skip(i as int)[0] == icons@[i as int]);
        assert(all.skip(i as int).drop_first() =~= all.skip(i + 1));
        if icons[i].is_some() {
            return text::copy_text(&icons[i]);
        }
        i = i + 1;
    }
    None
}

/// The icon of PowerShell among its installed packages: x64 packages first,
/// and in each the icon that suits a menu best.
pub fn pwsh_pkg_icon(packages: &Vec<PackageDir>) -> (r: Option<String>)
    ensures
        text::text_of(r) == preferred_icon(
            packages@.map_values(|d: PackageDir| package_choice(d)),
        ),
{
    let ghost all = packages@.map_values(|d: PackageDir| package_choice(d));
    let mut choices: Vec<IconChoice> = Vec::new();
    let mut i: usize = 0;
    assert(choice_views(choices@) =~= all.take(0));
    while i < packages.len()
        invariant
            i <= packages@.len(),
            all == packages@.map_values(|d: PackageDir| package_choice(d)),
            choice_views(choices@) == all.take(i as int),
        decreases packages@.len() - i,
    {
        let c: IconChoice = IconChoice {
            x64: text::contains(packages[i].base.as_str(), "_x64_"),
            icon: find_present(&packages[i].icons),
        };
        assert(c@ == all[i as int]);
        assert(choice_views(choices@.push(c)) =~= choice_views(choices@).push(c@));
        assert(all.take(i + 1) =~= all.take(i as int).push(c@));
        choices.push(c);
        i = i + 1;
    }
    assert(all.take(all.len() as int) =~= all);
    prefer_x64(&choices)
}

/// A directory of packaged applications, with the files among its assets.
pub struct AppsEntry {
    pub name: Option<String>,
    pub path: String,
    pub assets: Option<Vec<AssetFile>>,
}

/// What a directory offers: a package of PowerShell offers its icon.
pub open spec fn entry_choice(e: AppsEntry) -> ChoiceView {
    ChoiceView {
        x64: text::holds(e.path@, "_x64_"@),
        icon: match e.name {
            Some(n) => if text::begins_with(n@, "Microsoft.PowerShell_"@) {
                msix_icon(Some(e.path@), assets_of(e.assets))
            } else {
                None
            },
            None => None,
        },
    }
}

/// The icon of PowerShell among the directories of packaged applications.
pub fn pwsh_msix_icon(entries: &Vec<AppsEntry>) -> (r: Option<String>)
    ensures
        text::text_of(r) == preferred_icon(entries@.map_values(|e: AppsEntry| entry_choice(e))),
{
    let ghost all = entries@.map_values(|e: AppsEntry| entry_choice(e));
    let mut choices: Vec<IconChoice> = Vec::new();
    let mut i: usize = 0;
    assert(choice_views(choices@) =~= all.take(0));
    while i < entries.len()
        invariant
            i <= entries@.len(),
            all == entries@.map_values(|e: AppsEntry| entry_choice(e)),
            choice_views(choices@) == all.take(i as int),
        decreases entries@.len() - i,
    {
        let e: &AppsEntry = &entries[i];
        let is_ps: bool = match &e.name {
            Some(n) => text::starts_with(n.as_str(), "Microsoft.PowerShell_"),
            None => false,
        };
        let icon: Option<String> = if is_ps {
            let dir: Option<String> = Some(e.path.clone());
            msix_icon_for(&dir, &e.assets)
        } else {
            None
        };
        let c: IconChoice = IconChoice { x64: text::contains(e.path.as_str(), "_x64_"), icon };
        assert(c@ == all[i as int]);
        assert(choice_views(choices@.push(c)) =~= choice_views(choices@).push(c@));
        assert(all.take(i + 1) =~= all.take(i as int).push(c@));
        choices.push(c);
        i = i + 1;
    }
    assert(all.take(all.len() as int) =~= all);
    prefer_x64(&choices)
}

/// The icon of PowerShell 7: from its installed packages, or else from the
/// directories of packaged applications, or else from the assets beside it.
pub fn pwsh_icon(
    installed: Option<String>,
    scanned: Option<String>,
    beside: Option<String>,
) -> (r: Option<String>)
    ensures
        r == (match (installed, scanned) {
            (Some(p), _) => Some(p),
            (None, Some(p)) => Some(p),
            (None, None) => beside,
        }),
{
    match installed {
        Some(p) => Some(p),
        None => match scanned {
            Some(p) => Some(p),
            None => beside,
        },
    }
}

/// The path that a package query left in its buffer, whose length counts the
/// zero at the end. An empty path is none.
pub fn package_path(buffer: &Vec<u16>, length: u32) -> (r: Option<String>)
    ensures
        ({
            let end = if length == 0 {
                0
            } else if length - 1 < buffer@.len() {
                length - 1
            } else {
                buffer@.len() as int
            };
            let t = text::utf16_lossy(buffer@.take(end));
            text::text_of(r) == (if t.len() == 0 {
                None
            } else {
                Some(t)
            })
        }),
{
    let wanted: usize = if length == 0 {
        0
    } else {
        (length - 1) as usize
    };
    let end: usize = if wanted < buffer.len() {
        wanted
    } else {
        buffer.len()
    };
    let s: String = String::from_utf16_lossy(
        vstd::slice::slice_subrange(buffer.as_slice(), 0, end),
    );
    assert(buffer@.subrange(0, end as int) =~= buffer@.take(end as int));
    if s.as_str().is_empty() {
        None
    } else {
        Some(s)
    }
}

// ---- laws ----

/// There is an icon where some package has one, it is one that a package has,
/// and it is that of an x64 package where such a package has one.
pub proof fn law_x64_first(choices: Seq<ChoiceView>, i: int)
    requires
        0 <= i < choices.len(),
        choices[i].icon is Some,
    ensures
        ({
            let p = preferred_icon(choices);
            &&& p is Some
            &&& exists|k: int|
                0 <= k < choices.len() && (#[trigger] choices[k]).icon == p && (choices[i].x64
                    ==> choices[k].x64)
        }),
{
    lemma_first_icon(choices, true);
    lemma_first_icon(choices, false);
}

proof fn lemma_first_icon(choices: Seq<ChoiceView>, x64: bool)
    ensures
        match first_icon_of(choices, x64) {
            Some(p) => exists|k: int|
                0 <= k < choices.len() && (#[trigger] choices[k]).icon == Some(p)
                    && choices[k].x64 == x64,
            None => forall|k: int|
                0 <= k < choices.len() && (#[trigger] choices[k]).x64 == x64
                    ==> choices[k].icon is None,
        },
    decreases choices.len(),
{
    if choices.len() > 0 && !(choices[0].x64 == x64 && choices[0].icon is Some) {
        let rest = choices.drop_first();
        lemma_first_icon(rest, x64);
        match first_icon_of(rest, x64) {
            Some(p) => {
                let k = choose|k: int|
                    0 <= k < rest.len() && (#[trigger] rest[k]).icon == Some(p) && rest[k].x64
                        == x64;
                assert(choices[k + 1] == rest[k]);
            },
            None => {
                assert forall|k: int|
                    0 <= k < choices.len() && (#[trigger] choices[k]).x64 == x64 implies
                    choices[k].icon is None by {
                    if k > 0 {
                        assert(rest[k - 1] == choices[k]);
                    }
                }
            },
        }
    }
}

/// An application that does not lie among the packaged ones has no icon
/// there, whatever its assets.
pub proof fn law_only_packages(dir: Seq<char>, assets: Option<Seq<AssetView>>)
    requires
        !in_windows_apps(dir),
    ensures
        msix_icon(Some(dir), assets) is None,
{
}

/// The icon of a packaged application is a PNG, by its extension in either
/// case, whose name holds the best of the keys that any PNG's name holds; of
/// those it is the first.
pub proof fn law_best_asset(dir: Seq<char>, files: Seq<AssetView>, key: int, at: int)
    requires
        in_windows_apps(dir),
        0 <= key < 5,
        0 <= at < files.len(),
        png_with(files[at], menu_keys()[key]),
        forall|f: int|
            0 <= f < at ==> !png_with(#[trigger] files[f], menu_keys()[key]),
        forall|k: int, f: int|
            0 <= k < key && 0 <= f < files.len() ==> !png_with(
                #[trigger] files[f],
                #[trigger] menu_keys()[k],
            ),
    ensures
        msix_icon(Some(dir), Some(files)) == Some(files[at].path),
{
    assert(asset_keys() =~= menu_keys());
    assert forall|f: int, k: Seq<char>| is_png_named(#[trigger] files[f], k) == #[trigger] png_with(
        files[f],
        k,
    ) by {}
    lemma_best_named(files, menu_keys(), key, at);
}

/// The parts of names that suit a menu, the best first.
pub open spec fn menu_keys() -> Seq<Seq<char>> {
    seq![
        "Square44x44Logo.targetsize-48_altform-unplated"@,
        "Square44x44Logo.targetsize-48"@,
        "Square44x44Logo"@,
        "Square150x150Logo"@,
        "StoreLogo"@,
    ]
}

/// The file has an extension that is `png` in lower case and a name that holds
/// `key`.
pub open spec fn png_with(a: AssetView, key: Seq<char>) -> bool {
    match (a.extension, a.name) {
        (Some(x), Some(n)) => text::lowered(x) == "png"@ && text::holds(n, key),
        _ => false,
    }
}

proof fn lemma_first_named(files: Seq<AssetView>, key: Seq<char>, at: int)
    requires
        0 <= at < files.len(),
        is_png_named(files[at], key),
        forall|f: int| 0 <= f < at ==> !is_png_named(#[trigger] files[f], key),
    ensures
        first_named(files, key) == Some(files[at].path),
    decreases at,
{
    if at > 0 {
        assert(!is_png_named(files[0], key));
        let rest = files.drop_first();
        assert forall|f: int| 0 <= f < at - 1 implies !is_png_named(#[trigger] rest[f], key) by {
            assert(rest[f] == files[f + 1]);
        }
        lemma_first_named(rest, key, at - 1);
    }
}

proof fn lemma_none_named(files: Seq<AssetView>, key: Seq<char>)
    requires
        forall|f: int| 0 <= f < files.len() ==> !is_png_named(#[trigger] files[f], key),
    ensures
        first_named(files, key) is None,
    decreases files.len(),
{
    if files.len() > 0 {
        assert(!is_png_named(files[0], key));
        let rest = files.drop_first();
        assert forall|f: int| 0 <= f < rest.len() implies !is_png_named(#[trigger] rest[f], key) by {
            assert(rest[f] == files[f + 1]);
        }
        lemma_none_named(rest, key);
    }
}

proof fn lemma_best_named(files: Seq<AssetView>, keys: Seq<Seq<char>>, key: int, at: int)
    requires
        0 <= key < keys.len(),
        0 <= at < files.len(),
        is_png_named(files[at], keys[key]),
        forall|f: int| 0 <= f < at ==> !is_png_named(#[trigger] files[f], keys[key]),
        forall|k: int, f: int|
            0 <= k < key && 0 <= f < files.len() ==> !is_png_named(
                #[trigger] files[f],
                #[trigger] keys[k],
            ),
    ensures
        best_named(files, keys) == Some(files[at].path),
    decreases key,
{
    if key == 0 {
        lemma_first_named(files, keys[0], at);
    } else {
        lemma_none_named(files, keys[0]);
        let rest = keys.drop_first();
        assert forall|k: int, f: int| 0 <= k < key - 1 && 0 <= f < files.len() implies !is_png_named(
            #[trigger] files[f],
            #[trigger] rest[k],
        ) by {
            assert(rest[k] == keys[k + 1]);
        }
        lemma_best_named(files, rest, key - 1, at);
    }
}

/// An application that has no such PNG has no icon, and none is taken where
/// the directory or its assets are not known.
pub proof fn law_no_asset(dir: Option<Seq<char>>, files: Seq<AssetView>)
    requires
        forall|k: int, f: int|
            0 <= k < 5 && 0 <= f < files.len() ==> !png_with(
                #[trigger] files[f],
                #[trigger] menu_keys()[k],
            ),
    ensures
        msix_icon(dir, Some(files)) is None,
        msix_icon(dir, None) is None,
        msix_icon(None, Some(files)) is None,
{
    assert(asset_keys() =~= menu_keys());
    assert forall|f: int, k: Seq<char>| is_png_named(#[trigger] files[f], k) == #[trigger] png_with(
        files[f],
        k,
    ) by {}
    lemma_no_best(files, menu_keys());
}

proof fn lemma_no_best(files: Seq<AssetView>, keys: Seq<Seq<char>>)
    requires
        forall|k: int, f: int|
            0 <= k < keys.len() && 0 <= f < files.len() ==> !is_png_named(
                #[trigger] files[f],
                #[trigger] keys[k],
            ),
    ensures
        best_named(files, keys) is None,
    decreases keys.len(),
{
    if keys.len() > 0 {
        lemma_none_named(files, keys[0]);
        let rest = keys.drop_first();
        assert forall|k: int, f: int| 0 <= k < rest.len() && 0 <= f < files.len() implies
            !is_png_named(#[trigger] files[f], #[trigger] rest[k]) by {
            assert(rest[k] == keys[k + 1]);
        }
        lemma_no_best(files, rest);
    }
}

/// A directory is one of packaged applications where its name holds
/// `windowsapps`, in capitals or not.
pub proof fn law_windows_apps(dir: Seq<char>, a: Seq<char>, b: Seq<char>)
    requires
        text::lowered(dir) == a + "windowsapps"@ + b,
    ensures
        in_windows_apps(dir),
{
    text::law_search(text::lowered(dir), "windowsapps"@, a, b);
}

/// Of the packages for x64 the first with an icon gives it; where none of them
/// has one, the first of the others does; and where no package has one there
/// is none.
pub proof fn law_first_package(choices: Seq<ChoiceView>, i: int)
    requires
        0 <= i < choices.len(),
        choices[i].icon is Some,
        choices[i].x64 ==> forall|j: int|
            0 <= j < i ==> !(#[trigger] choices[j]).x64 || choices[j].icon is None,
        !choices[i].x64 ==> forall|j: int|
            0 <= j < choices.len() && (#[trigger] choices[j]).x64 ==> choices[j].icon is None,
        !choices[i].x64 ==> forall|j: int| 0 <= j < i ==> (#[trigger] choices[j]).icon is None,
    ensures
        preferred_icon(choices) == choices[i].icon,
{
    lemma_first_icon(choices, true);
    lemma_first_icon_at(choices, i);
}

proof fn lemma_first_icon_at(choices: Seq<ChoiceView>, i: int)
    requires
        0 <= i < choices.len(),
        choices[i].icon is Some,
        forall|j: int|
            0 <= j < i ==> (#[trigger] choices[j]).x64 != choices[i].x64 || choices[j].icon is None,
    ensures
        first_icon_of(choices, choices[i].x64) == choices[i].icon,
    decreases i,
{
    if i > 0 {
        assert(choices[0].x64 != choices[i].x64 || choices[0].icon is None);
        let rest = choices.drop_first();
        assert forall|j: int| 0 <= j < i - 1 implies (#[trigger] rest[j]).x64 != rest[i - 1].x64
            || rest[j].icon is None by {
            assert(rest[j] == choices[j + 1]);
        }
        lemma_first_icon_at(rest, i - 1);
    }
}

/// Where no package has an icon none is found.
pub proof fn law_no_package(choices: Seq<ChoiceView>)
    requires
        forall|j: int| 0 <= j < choices.len() ==> (#[trigger] choices[j]).icon is None,
    ensures
        preferred_icon(choices) is None,
{
    lemma_first_icon(choices, true);
    lemma_first_icon(choices, false);
}

/// A package is one for x64 where its directory's name holds `_x64_`, and it
/// offers the first of its icons that is there.
pub proof fn law_package_offers(d: PackageDir, i: int)
    requires
        0 <= i < d.icons@.len(),
        d.icons@[i] is Some,
        forall|j: int| 0 <= j < i ==> (#[trigger] d.icons@[j]) is None,
    ensures
        package_choice(d).icon == Some(d.icons@[i]->0@),
        package_choice(d).x64 <==> text::holds(d.base@, "_x64_"@),
{
    lemma_first_present(d.icons@, i);
}

proof fn lemma_first_present(icons: Seq<Option<String>>, i: int)
    requires
        0 <= i < icons.len(),
        icons[i] is Some,
        forall|j: int| 0 <= j < i ==> (#[trigger] icons[j]) is None,
    ensures
        first_present(icons) == Some(icons[i]->0@),
    decreases i,
{
    if i > 0 {
        assert(icons[0] is None);
        let rest = icons.drop_first();
        assert forall|j: int| 0 <= j < i - 1 implies (#[trigger] rest[j]) is None by {
            assert(rest[j] == icons[j + 1]);
        }
        lemma_first_present(rest, i - 1);
    }
}

/// A package without an icon offers none.
pub proof fn law_package_without_icons(d: PackageDir)
    requires
        forall|j: int| 0 <= j < d.icons@.len() ==> (#[trigger] d.icons@[j]) is None,
    ensures
        package_choice(d).icon is None,
{
    lemma_none_present(d.icons@);
}

proof fn lemma_none_present(icons: Seq<Option<String>>)
    requires
        forall|j: int| 0 <= j < icons.len() ==> (#[trigger] icons[j]) is None,
    ensures
        first_present(icons) is None,
    decreases icons.len(),
{
    if icons.len() > 0 {
        assert(icons[0] is None);
        let rest = icons.drop_first();
        assert forall|j: int| 0 <= j < rest.len() implies (#[trigger] rest[j]) is None by {
            assert(rest[j] == icons[j + 1]);
        }
        lemma_none_present(rest);
    }
}

/// Among the packaged applications, one whose name begins with that of
/// PowerShell offers its icon, and every other offers none.
pub proof fn law_powershell_package_offers(e: AppsEntry, rest: Seq<char>)
    ensures
        (e.name matches Some(n) && n@ == "Microsoft.PowerShell_"@ + rest) ==> entry_choice(e).icon
            == msix_icon(Some(e.path@), assets_of(e.assets)),
        (e.name matches Some(n) ==> !text::begins_with(n@, "Microsoft.PowerShell_"@))
            ==> entry_choice(e).icon is None,
        entry_choice(e).x64 <==> text::holds(e.path@, "_x64_"@),
{
    let p = "Microsoft.PowerShell_"@;
    text::law_search(p, p, p, rest);
}

/// Files and choices are viewed one by one.
pub proof fn law_icon_views(files: Seq<AssetFile>, choices: Seq<IconChoice>, i: int, j: int)
    requires
        0 <= i < files.len(),
        0 <= j < choices.len(),
    ensures
        asset_views(files).len() == files.len(),
        asset_views(files)[i].path == files[i].path@,
        asset_views(files)[i].name == text::text_of(files[i].name),
        asset_views(files)[i].extension == text::text_of(files[i].extension),
        choice_views(choices).len() == choices.len(),
        choice_views(choices)[j].x64 == choices[j].x64,
        choice_views(choices)[j].icon == text::text_of(choices[j].icon),
{
}

/// The icon of an installed package goes before one that was found by looking
/// through the directories, and that before one beside the program.
pub proof fn law_icons_in_turn(
    p: String,
    scanned: Option<String>,
    beside: Option<String>,
    a: Option<String>,
    b: Option<String>,
    c: Option<String>,
)
    requires
        call_ensures(pwsh_icon, (Some(p), scanned, beside), a),
        call_ensures(pwsh_icon, (None::<String>, Some(p), beside), b),
        call_ensures(pwsh_icon, (None::<String>, None::<String>, beside), c),
    ensures
        a == Some(p) && b == Some(p) && c == beside,
{
}

/// The path of a package is what was encoded before the zero at its end.
pub proof fn law_package_path(s: Seq<char>, buffer: &Vec<u16>, length: u32, r: Option<String>)
    requires
        buffer@ == text::utf16(s).push(0),
        length == buffer@.len(),
        call_ensures(package_path, (buffer, length), r),
    ensures
        s.len() > 0 ==> r is Some && r->0@ == s,
        s.len() == 0 ==> r is None,
{
    assert(buffer@.take(length - 1) =~= text::utf16(s));
    text::law_utf16_round_trip(s);
}

} // verus!
