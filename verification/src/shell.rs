use vstd::prelude::*;
use crate::catalog::{InstalledAppCatalogEntry, InstalledAppCatalogSource, InstalledAppCatalogTarget, InstalledPackageRuntimeInfo};
use crate::event_log::{eq_ignore_ascii_case, is_absolute_windows, names_equal_ignoring_case, starts_with, with_backslashes};
use crate::text::{concat, str_chars, string_from_chars, trim, trim_spec};
use crate::winpath::{extension, extension_of, file_name_spec, file_stem, stem_of};

verus! {

/// What `str::to_lowercase` gives for a text (Unicode lower-casing).
pub uninterp spec fn unicode_lowercase(s: Seq<char>) -> Seq<char>;

/// Lower-cases `s` with `str::to_lowercase`. Claimed: the result is the named lower-casing of
/// the text, the same for the same text (it does not depend on a locale).
#[verifier::external_body]
pub(crate) fn to_lowercase(s: &str) -> (r: String)
    ensures
        r@ == unicode_lowercase(s@),
{
    s.to_lowercase()
}

/// Whether a Start Menu entry's name marks an uninstaller or maintenance tool: once trimmed
/// and lower-cased it starts with `uninstall `, `remove ` or `repair `.
pub open spec fn is_ignored_entry_name(name: Seq<char>) -> bool {
    let lower = unicode_lowercase(trim_spec(name));
    starts_with(lower, "uninstall "@) || starts_with(lower, "remove "@) || starts_with(lower, "repair "@)
}

fn starts_with_str(s: &str, prefix: &str) -> (r: bool)
    ensures
        r == starts_with(s@, prefix@),
{
    let v = str_chars(s);
    let p = str_chars(prefix);
    if v.len() < p.len() {
        return false;
    }
    let mut i: usize = 0;
    while i < p.len()
        invariant
            v@ == s@,
            p@ == prefix@,
            v@.len() >= p@.len(),
            i <= p@.len(),
            forall|k: int| 0 <= k < i ==> v@[k] == p@[k],
        decreases p.len() - i,
    {
        if v[i] != p[i] {
            assert(v@.take(p@.len() as int)[i as int] != p@[i as int]);
            return false;
        }
        i = i + 1;
    }
    assert(v@.take(p@.len() as int) =~= p@);
    true
}

/// Whether a Start Menu entry's name marks an uninstaller or maintenance tool.
pub fn is_ignored_start_menu_entry_name(name: &str) -> (r: bool)
    ensures
        r == is_ignored_entry_name(name@),
{
    let trimmed = trim(name);
    let lower = to_lowercase(trimmed.as_str());
    starts_with_str(lower.as_str(), "uninstall ") || starts_with_str(lower.as_str(), "remove ")
        || starts_with_str(lower.as_str(), "repair ")
}

/// `value` without one pair of surrounding double quotes, when it has both.
pub open spec fn unquoted(value: Seq<char>) -> Seq<char> {
    if value.len() >= 2 && value[0] == '"' && value.last() == '"' {
        value.subrange(1, value.len() - 1)
    } else {
        value
    }
}

/// Strips one pair of surrounding double quotes.
pub fn unquote_wrapped_text(value: &str) -> (r: String)
    ensures
        r@ == unquoted(value@),
{
    let v = str_chars(value);
    if v.len() >= 2 && v[0] == '"' && v[v.len() - 1] == '"' {
        string_from_chars(v.as_slice(), 1, v.len() - 1)
    } else {
        string_from_chars(v.as_slice(), 0, v.len())
    }
}

/// A path without its verbatim prefix: `\\?\UNC\server\share` becomes `\\server\share`,
/// `\\?\C:\x` becomes `C:\x`, other paths stay as they are.
pub open spec fn without_verbatim_prefix(path: Seq<char>) -> Seq<char> {
    if starts_with(path, "\\\\?\\UNC\\"@) {
        "\\\\"@ + path.skip(8)
    } else if starts_with(path, "\\\\?\\"@) {
        path.skip(4)
    } else {
        path
    }
}

/// Removes the verbatim prefix of a canonical Windows path.
pub fn strip_windows_verbatim_prefix(path: &str) -> (r: String)
    ensures
        r@ == without_verbatim_prefix(path@),
{
    let v = str_chars(path);
    proof {
        reveal_strlit("\\\\?\\UNC\\");
        reveal_strlit("\\\\?\\");
        reveal_strlit("\\\\");
    }
    if starts_with_str(path, "\\\\?\\UNC\\") {
        let rest = string_from_chars(v.as_slice(), 8, v.len());
        proof {
            assert(path@.len() >= 8);
        }
        return concat("\\\\", rest.as_str());
    }
    if starts_with_str(path, "\\\\?\\") {
        return string_from_chars(v.as_slice(), 4, v.len());
    }
    string_from_chars(v.as_slice(), 0, v.len())
}

/// Whether a path is an absolute path to a `.exe` file (the extension compared without
/// regard to ASCII case); whether the file exists is asked separately.
pub open spec fn is_absolute_exe_path(path: Seq<char>) -> bool {
    is_absolute_windows(path) && (file_name_spec(path) matches Some(n) && extension_of(n) matches Some(e)
        && eq_ignore_ascii_case(e, "exe"@))
}

fn is_absolute_exe_path_exec(path: &str) -> (r: bool)
    ensures
        r == is_absolute_exe_path(path@),
{
    let v = str_chars(path);
    let absolute = (v.len() >= 2 && v[0] == '\\' && v[1] == '\\') || (v.len() >= 3 && (('a' <= v[0]
        && v[0] <= 'z') || ('A' <= v[0] && v[0] <= 'Z')) && v[1] == ':' && v[2] == '\\');
    if !absolute {
        return false;
    }
    match extension(path) {
        Some(e) => names_equal_ignoring_case(e.as_str(), "exe"),
        None => false,
    }
}

/// Whether a path names an executable the picker can offer: an absolute `.exe` path whose file
/// exists (`exists`, as the file system reports it).
pub fn is_supported_absolute_exe_path(path: &str, exists: bool) -> (r: bool)
    ensures
        r == (is_absolute_exe_path(path@) && exists),
{
    is_absolute_exe_path_exec(path) && exists
}

/// The picker entry that an AppsFolder record gives: names and targets are trimmed and must
/// not be empty; a target with `!` is an application id; a target that is an absolute `.exe`
/// path counts when the file exists (`existing_file` is then its normalized path); anything
/// else is left out.
pub open spec fn catalog_record_entry(
    name: Seq<char>,
    raw_target: Seq<char>,
    existing_file: Option<Seq<char>>,
) -> Option<(Seq<char>, InstalledAppTargetView)> {
    let n = trim_spec(name);
    let t = trim_spec(raw_target);
    if n.len() == 0 || t.len() == 0 {
        None
    } else if t.contains('!') {
        Some((n, InstalledAppTargetView::Aumid(t)))
    } else if is_absolute_exe_path(t) && existing_file is Some {
        Some((n, InstalledAppTargetView::Path(existing_file.unwrap())))
    } else {
        None
    }
}

/// The abstract value of a picker target.
pub enum InstalledAppTargetView {
    Aumid(Seq<char>),
    Path(Seq<char>),
}

/// The abstract value of a picker target.
pub open spec fn target_view(t: InstalledAppCatalogTarget) -> InstalledAppTargetView {
    match t {
        InstalledAppCatalogTarget::Aumid(a) => InstalledAppTargetView::Aumid(a@),
        InstalledAppCatalogTarget::Path(p) => InstalledAppTargetView::Path(p@),
    }
}

fn contains_char(s: &str, c: char) -> (r: bool)
    ensures
        r == s@.contains(c),
{
    let v = str_chars(s);
    let mut i: usize = 0;
    while i < v.len()
        invariant
            v@ == s@,
            i <= v@.len(),
            forall|k: int| 0 <= k < i ==> v@[k] != c,
        decreases v.len() - i,
    {
        if v[i] == c {
            return true;
        }
        i = i + 1;
    }
    false
}

/// Classifies an AppsFolder record (see `catalog_record_entry`); `existing_file` is the
/// normalized path of the trimmed target when that file exists.
pub fn classify_catalog_record(name: &str, raw_target: &str, existing_file: Option<String>) -> (r: Option<
    InstalledAppCatalogEntry,
>)
    ensures
        match catalog_record_entry(
            name@,
            raw_target@,
            match existing_file {
                Some(f) => Some(f@),
                None => None,
            },
        ) {
            None => r is None,
            Some((n, t)) => r matches Some(e) && e.name@ == n && target_view(e.target) == t
                && e.source == InstalledAppCatalogSource::WindowsAppsFolder,
        },
{
    let n = trim(name);
    let t = trim(raw_target);
    if str_chars(n.as_str()).len() == 0 || str_chars(t.as_str()).len() == 0 {
        return None;
    }
    if contains_char(t.as_str(), '!') {
        return Some(
            InstalledAppCatalogEntry::new_aumid(n, t, InstalledAppCatalogSource::WindowsAppsFolder),
        );
    }
    if is_absolute_exe_path_exec(t.as_str()) {
        match existing_file {
            Some(f) => {
                return Some(
                    InstalledAppCatalogEntry::new_path(n, f, InstalledAppCatalogSource::WindowsAppsFolder),
                );
            },
            None => {},
        }
    }
    None
}

/// The picker entry an App Paths registration gives: its default value (environment
/// variables already expanded, as `expanded_value`) trimmed and unquoted must be an
/// absolute `.exe` path whose file exists (`existing_file`, its normalized path), and the
/// display name, trimmed, must not be empty.
pub open spec fn app_paths_entry(
    display_name: Seq<char>,
    expanded_value: Seq<char>,
    existing_file: Option<Seq<char>>,
) -> Option<(Seq<char>, Seq<char>)> {
    let candidate = unquoted(trim_spec(expanded_value));
    let n = trim_spec(display_name);
    if !is_absolute_exe_path(candidate) || existing_file is None {
        None
    } else if n.len() == 0 {
        None
    } else {
        Some((n, existing_file.unwrap()))
    }
}

/// Classifies an App Paths registration (see `app_paths_entry`).
pub fn classify_app_paths_entry(display_name: &str, expanded_value: &str, existing_file: Option<String>) -> (r:
    Option<InstalledAppCatalogEntry>)
    ensures
        match app_paths_entry(
            display_name@,
            expanded_value@,
            match existing_file {
                Some(f) => Some(f@),
                None => None,
            },
        ) {
            None => r is None,
            Some((n, p)) => r matches Some(e) && e.name@ == n && target_view(e.target)
                == InstalledAppTargetView::Path(p) && e.source == InstalledAppCatalogSource::WindowsAppPaths,
        },
{
    let trimmed = trim(expanded_value);
    let candidate = unquote_wrapped_text(trimmed.as_str());
    if !is_absolute_exe_path_exec(candidate.as_str()) {
        return None;
    }
    let file = match existing_file {
        Some(f) => f,
        None => return None,
    };
    let n = trim(display_name);
    if str_chars(n.as_str()).len() == 0 {
        return None;
    }
    Some(InstalledAppCatalogEntry::new_path(n, file, InstalledAppCatalogSource::WindowsAppPaths))
}

/// The name shown for an App Paths registration: the stem of its key name, else of its
/// default path, else the default path itself.
pub open spec fn app_paths_display_name_spec(key_name: Seq<char>, default_path: Seq<char>) -> Seq<char> {
    match file_name_spec(key_name) {
        Some(n) => stem_of(n),
        None => match file_name_spec(default_path) {
            Some(n) => stem_of(n),
            None => default_path,
        },
    }
}

/// The name shown for an App Paths registration (see `app_paths_display_name_spec`).
pub fn app_paths_display_name(key_name: &str, default_path: &str) -> (r: String)
    ensures
        r@ == app_paths_display_name_spec(key_name@, default_path@),
{
    match file_stem(key_name) {
        Some(s) => s,
        None => match file_stem(default_path) {
            Some(s) => s,
            None => crate::text::owned(default_path),
        },
    }
}

/// Index of the first `!` in `s`, or its length.
pub open spec fn first_bang(s: Seq<char>) -> int
    decreases s.len(),
{
    if s.len() == 0 {
        0
    } else if s[0] == '!' {
        0
    } else {
        1 + first_bang(s.drop_first())
    }
}

/// The package family of an application id: the trimmed part before the first `!`, which
/// must not be empty.
pub open spec fn package_family_spec(aumid: Seq<char>) -> Option<Seq<char>> {
    let family = trim_spec(aumid.take(first_bang(aumid)));
    if family.len() == 0 {
        None
    } else {
        Some(family)
    }
}

proof fn lemma_first_bang(s: Seq<char>)
    ensures
        0 <= first_bang(s) <= s.len(),
        forall|j: int| 0 <= j < first_bang(s) ==> s[j] != '!',
        first_bang(s) < s.len() ==> s[first_bang(s)] == '!',
    decreases s.len(),
{
    if s.len() > 0 && s[0] != '!' {
        lemma_first_bang(s.drop_first());
        assert forall|j: int| 0 <= j < first_bang(s) implies s[j] != '!' by {
            if j > 0 {
                assert(s[j] == s.drop_first()[j - 1]);
            }
        }
    }
}

proof fn lemma_first_bang_exact(s: Seq<char>, k: int)
    requires
        0 <= k <= s.len(),
        forall|j: int| 0 <= j < k ==> s[j] != '!',
        k == s.len() || s[k] == '!',
    ensures
        first_bang(s) == k,
    decreases s.len(),
{
    if k > 0 {
        assert forall|j: int| 0 <= j < k - 1 implies s.drop_first()[j] != '!' by {
            assert(s.drop_first()[j] == s[j + 1]);
        }
        if k < s.len() {
            assert(s.drop_first()[k - 1] == s[k]);
        }
        lemma_first_bang_exact(s.drop_first(), k - 1);
    }
}

/// The package family of an application id (see `package_family_spec`); an id without one
/// is refused with `Invalid AUMID (missing package family name): <id>`.
pub fn package_family_name_from_aumid(aumid: &str) -> (r: Result<String, String>)
    ensures
        match package_family_spec(aumid@) {
            Some(f) => r matches Ok(s) && s@ == f,
            None => r matches Err(e) && e@ == "Invalid AUMID (missing package family name): "@ + aumid@,
        },
{
    let v = str_chars(aumid);
    let mut k: usize = 0;
    while k < v.len() && v[k] != '!'
        invariant
            v@ == aumid@,
            k <= v@.len(),
            forall|j: int| 0 <= j < k ==> v@[j] != '!',
        decreases v.len() - k,
    {
        k = k + 1;
    }
    proof {
        lemma_first_bang_exact(v@, k as int);
    }
    let head = string_from_chars(v.as_slice(), 0, k);
    assert(head@ =~= aumid@.take(first_bang(aumid@)));
    let family = trim(head.as_str());
    if str_chars(family.as_str()).len() == 0 {
        return Err(concat("Invalid AUMID (missing package family name): ", aumid));
    }
    Ok(family)
}


/// Whether an install location names an absolute directory (`/` read as `\`).
pub open spec fn is_absolute_location(s: Seq<char>) -> bool {
    is_absolute_windows(with_backslashes(s))
}

fn is_absolute_location_exec(s: &str) -> (r: bool)
    ensures
        r == is_absolute_location(s@),
{
    let v = str_chars(s);
    let sep = |c: char| -> (b: bool)
        ensures
            b == (c == '\\' || c == '/'),
    { c == '\\' || c == '/' };
    let absolute = (v.len() >= 2 && sep(v[0]) && sep(v[1])) || (v.len() >= 3 && (('a' <= v[0] && v[0] <= 'z') || (
    'A' <= v[0] && v[0] <= 'Z')) && v[1] == ':' && sep(v[2]));
    proof {
        let w = with_backslashes(s@);
        assert(w.len() == v@.len());
        if v@.len() >= 1 {
            assert(w[0] == (if v@[0] == '/' { '\\' } else { v@[0] }));
        }
        if v@.len() >= 2 {
            assert(w[1] == (if v@[1] == '/' { '\\' } else { v@[1] }));
        }
        if v@.len() >= 3 {
            assert(w[2] == (if v@[2] == '/' { '\\' } else { v@[2] }));
        }
    }
    absolute
}

/// The runtime facts of an installed package from what its AppX record gives: the package
/// family name must not be blank, and the trimmed install location must be an absolute
/// directory; the facts keep the application id, the family name as given and the trimmed
/// location.
pub fn appx_package_runtime_info(
    package_family_name: String,
    install_location: String,
    aumid: &str,
) -> (r: Result<InstalledPackageRuntimeInfo, String>)
    ensures
        trim_spec(package_family_name@).len() == 0 ==> (r matches Err(e) && e@ == "Package metadata for "@ + aumid@
            + " is missing PackageFamilyName"@),
        trim_spec(package_family_name@).len() != 0 && !(trim_spec(install_location@).len() != 0
            && is_absolute_location(trim_spec(install_location@))) ==> (r matches Err(e) && e@
            == "Package metadata for "@ + aumid@ + " has invalid InstallLocation: "@ + install_location@),
        trim_spec(package_family_name@).len() != 0 && trim_spec(install_location@).len() != 0
            && is_absolute_location(trim_spec(install_location@)) ==> (r matches Ok(info) && info.aumid@ == aumid@
            && info.package_family_name == package_family_name && info.install_root@ == trim_spec(install_location@)),
{
    let root = trim(install_location.as_str());
    let family = trim(package_family_name.as_str());
    if str_chars(family.as_str()).len() == 0 {
        let a = concat("Package metadata for ", aumid);
        return Err(concat(a.as_str(), " is missing PackageFamilyName"));
    }
    if str_chars(root.as_str()).len() == 0 || !is_absolute_location_exec(root.as_str()) {
        let a = concat("Package metadata for ", aumid);
        let b = concat(a.as_str(), " has invalid InstallLocation: ");
        return Err(concat(b.as_str(), install_location.as_str()));
    }
    Ok(InstalledPackageRuntimeInfo { aumid: crate::text::owned(aumid), package_family_name, install_root: root })
}

/// What the system reports of a Start Menu file: its normalized path when the file exists,
/// and for a shortcut the target and arguments it resolves to (`None` when it cannot be
/// resolved) with the target's normalized path when that file exists.
pub struct StartMenuFileFacts {
    pub existing_file: Option<String>,
    pub shortcut: Option<(String, Vec<String>)>,
    pub existing_target: Option<String>,
}

/// The picker entry a Start Menu file gives: its name is the file's stem, trimmed, which must
/// not be empty nor mark an uninstaller; an absolute `.exe` file that exists counts as itself;
/// a `.lnk` shortcut without arguments counts when its target is an absolute `.exe` that
/// exists; anything else is left out.
pub open spec fn start_menu_entry(
    path: Seq<char>,
    existing_file: Option<Seq<char>>,
    shortcut: Option<(Seq<char>, nat)>,
    existing_target: Option<Seq<char>>,
) -> Option<(Seq<char>, Seq<char>)> {
    match file_name_spec(path) {
        None => None,
        Some(n) => {
            let display = trim_spec(stem_of(n));
            if display.len() == 0 || is_ignored_entry_name(display) {
                None
            } else {
                match extension_of(n) {
                    None => None,
                    Some(e) => if eq_ignore_ascii_case(e, "exe"@) {
                        if is_absolute_exe_path(path) && existing_file is Some {
                            Some((display, existing_file.unwrap()))
                        } else {
                            None
                        }
                    } else if eq_ignore_ascii_case(e, "lnk"@) {
                        match shortcut {
                            Some((target, arg_count)) => if arg_count == 0 && is_absolute_exe_path(target)
                                && existing_target is Some {
                                Some((display, existing_target.unwrap()))
                            } else {
                                None
                            },
                            None => None,
                        }
                    } else {
                        None
                    },
                }
            }
        },
    }
}

/// The plain values of a Start Menu file's facts.
pub open spec fn facts_view(f: StartMenuFileFacts) -> (Option<Seq<char>>, Option<(Seq<char>, nat)>, Option<Seq<char>>) {
    (
        match f.existing_file {
            Some(p) => Some(p@),
            None => None,
        },
        match f.shortcut {
            Some((t, args)) => Some((t@, args@.len())),
            None => None,
        },
        match f.existing_target {
            Some(p) => Some(p@),
            None => None,
        },
    )
}

/// Classifies a Start Menu file (see `start_menu_entry`).
pub fn classify_start_menu_entry(path: &str, facts: StartMenuFileFacts) -> (r: Option<InstalledAppCatalogEntry>)
    ensures
        ({
            let (f, s, t) = facts_view(facts);
            match start_menu_entry(path@, f, s, t) {
                None => r is None,
                Some((n, p)) => r matches Some(e) && e.name@ == n && target_view(e.target)
                    == InstalledAppTargetView::Path(p) && e.source == InstalledAppCatalogSource::WindowsStartMenu,
            }
        }),
{
    let stem = match file_stem(path) {
        Some(s) => s,
        None => return None,
    };
    let display = trim(stem.as_str());
    if str_chars(display.as_str()).len() == 0 || is_ignored_start_menu_entry_name(display.as_str()) {
        return None;
    }
    let ext = match extension(path) {
        Some(e) => e,
        None => return None,
    };
    proof {
        reveal_strlit("exe");
        reveal_strlit("lnk");
    }
    if names_equal_ignoring_case(ext.as_str(), "exe") {
        if is_absolute_exe_path_exec(path) {
            match facts.existing_file {
                Some(f) => {
                    return Some(InstalledAppCatalogEntry::new_path(display, f, InstalledAppCatalogSource::WindowsStartMenu));
                },
                None => {},
            }
        }
        return None;
    }
    if names_equal_ignoring_case(ext.as_str(), "lnk") {
        match facts.shortcut {
            Some((target, args)) => {
                if args.len() == 0 && is_absolute_exe_path_exec(target.as_str()) {
                    match facts.existing_target {
                        Some(t) => {
                            return Some(
                                InstalledAppCatalogEntry::new_path(display, t, InstalledAppCatalogSource::WindowsStartMenu),
                            );
                        },
                        None => {},
                    }
                }
            },
            None => {},
        }
    }
    None
}

} // verus!

verus! {

/// A Start Menu entry name is left out only as an uninstaller or maintenance tool: exactly
/// when, trimmed and lower-cased, it begins with `uninstall `, `remove ` or `repair `. Every
/// other name is kept, whatever else it holds (spaces included).
pub proof fn lemma_ignored_entry_names(name: Seq<char>)
    ensures
        is_ignored_entry_name(name) <==> ({
            let lower = unicode_lowercase(trim_spec(name));
            ||| lower.len() >= 10 && lower.subrange(0, 10) == seq!['u', 'n', 'i', 'n', 's', 't', 'a', 'l', 'l', ' ']
            ||| lower.len() >= 7 && lower.subrange(0, 7) == seq!['r', 'e', 'm', 'o', 'v', 'e', ' ']
            ||| lower.len() >= 7 && lower.subrange(0, 7) == seq!['r', 'e', 'p', 'a', 'i', 'r', ' ']
        }),
{
    reveal_strlit("uninstall ");
    reveal_strlit("remove ");
    reveal_strlit("repair ");
    assert("uninstall "@ =~= seq!['u', 'n', 'i', 'n', 's', 't', 'a', 'l', 'l', ' ']);
    assert("remove "@ =~= seq!['r', 'e', 'm', 'o', 'v', 'e', ' ']);
    assert("repair "@ =~= seq!['r', 'e', 'p', 'a', 'i', 'r', ' ']);
    let lower = unicode_lowercase(trim_spec(name));
    if lower.len() >= 10 {
        assert(lower.take(10) =~= lower.subrange(0, 10));
    }
    if lower.len() >= 7 {
        assert(lower.take(7) =~= lower.subrange(0, 7));
    }
}

} // verus!
