use vstd::prelude::*;

verus! {

/// Where an entry of the installed-application picker was found.
#[derive(Debug, Clone, Copy, PartialEq, Eq, Structural)]
pub enum InstalledAppCatalogSource {
    WindowsAppsFolder,
    WindowsStartMenu,
    WindowsAppPaths,
    LinuxDesktopEntry,
    LinuxPathExecutable,
}

/// The label shown for a catalog source.
pub open spec fn source_label(s: InstalledAppCatalogSource) -> Seq<char> {
    match s {
        InstalledAppCatalogSource::WindowsAppsFolder => "AppsFolder"@,
        InstalledAppCatalogSource::WindowsStartMenu => "Start Menu"@,
        InstalledAppCatalogSource::WindowsAppPaths => "App Paths"@,
        InstalledAppCatalogSource::LinuxDesktopEntry => "Desktop entry"@,
        InstalledAppCatalogSource::LinuxPathExecutable => "PATH executable"@,
    }
}

/// The rank of a catalog source in the picker: lower ranks are listed first.
pub open spec fn source_priority(s: InstalledAppCatalogSource) -> usize {
    match s {
        InstalledAppCatalogSource::WindowsAppsFolder => 0,
        InstalledAppCatalogSource::LinuxDesktopEntry => 0,
        InstalledAppCatalogSource::WindowsStartMenu => 1,
        InstalledAppCatalogSource::WindowsAppPaths => 2,
        InstalledAppCatalogSource::LinuxPathExecutable => 2,
    }
}

impl InstalledAppCatalogSource {
    /// The label shown for this source.
    pub fn label(self) -> (r: &'static str)
        ensures
            r@ == source_label(self),
    {
        match self {
            InstalledAppCatalogSource::WindowsAppsFolder => "AppsFolder",
            InstalledAppCatalogSource::WindowsStartMenu => "Start Menu",
            InstalledAppCatalogSource::WindowsAppPaths => "App Paths",
            InstalledAppCatalogSource::LinuxDesktopEntry => "Desktop entry",
            InstalledAppCatalogSource::LinuxPathExecutable => "PATH executable",
        }
    }

    /// The picker rank of this source: packaged and desktop entries first, then Start Menu
    /// shortcuts, then registered or `PATH` executables.
    pub fn picker_priority(self) -> (r: usize)
        ensures
            r == source_priority(self),
    {
        match self {
            InstalledAppCatalogSource::WindowsAppsFolder => 0,
            InstalledAppCatalogSource::LinuxDesktopEntry => 0,
            InstalledAppCatalogSource::WindowsStartMenu => 1,
            InstalledAppCatalogSource::WindowsAppPaths => 2,
            InstalledAppCatalogSource::LinuxPathExecutable => 2,
        }
    }

    /// Whether entries of this source stay hidden until the user types a query.
    pub fn hide_until_query(self) -> (r: bool)
        ensures
            r == (self == InstalledAppCatalogSource::LinuxPathExecutable),
    {
        match self {
            InstalledAppCatalogSource::LinuxPathExecutable => true,
            _ => false,
        }
    }
}

/// What a catalog entry starts: an installed application id or an executable path.
#[derive(Debug, Clone, PartialEq, Eq)]
pub enum InstalledAppCatalogTarget {
    Aumid(String),
    Path(String),
}

/// One entry of the installed-application picker.
#[derive(Debug, Clone, PartialEq, Eq)]
pub struct InstalledAppCatalogEntry {
    pub name: String,
    pub target: InstalledAppCatalogTarget,
    pub source: InstalledAppCatalogSource,
    pub detail: String,
}

impl InstalledAppCatalogEntry {
    /// An entry for an installed application; its detail line is the application id.
    pub fn new_aumid(name: String, aumid: String, source: InstalledAppCatalogSource) -> (r: Self)
        ensures
            r.name == name,
            r.target == InstalledAppCatalogTarget::Aumid(aumid),
            r.source == source,
            r.detail == aumid,
    {
        let detail = aumid.clone();
        InstalledAppCatalogEntry {
            name,
            target: InstalledAppCatalogTarget::Aumid(aumid),
            source,
            detail,
        }
    }

    /// An entry for an executable path; its detail line is the path.
    pub fn new_path(name: String, path: String, source: InstalledAppCatalogSource) -> (r: Self)
        ensures
            r.name == name,
            r.target == InstalledAppCatalogTarget::Path(path),
            r.source == source,
            r.detail == path,
    {
        let detail = path.clone();
        InstalledAppCatalogEntry {
            name,
            target: InstalledAppCatalogTarget::Path(path),
            source,
            detail,
        }
    }

    /// The same entry with another detail line.
    pub fn with_detail(self, detail: String) -> (r: Self)
        ensures
            r.name == self.name,
            r.target == self.target,
            r.source == self.source,
            r.detail == detail,
    {
        let mut entry = self;
        entry.detail = detail;
        entry
    }
}

/// What the system reports of an installed package: the application id it was asked
/// about, the package family and the directory the package is installed in.
#[derive(Debug, Clone, PartialEq, Eq)]
pub struct InstalledPackageRuntimeInfo {
    pub aumid: String,
    pub package_family_name: String,
    pub install_root: String,
}

} // verus!
