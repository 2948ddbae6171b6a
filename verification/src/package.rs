//! The applications that the uninstaller lists: how each one was installed,
//! and the labels shown for that.
use vstd::prelude::*;

verus! {

/// How an application was installed, with the name that its package manager
/// knows it by.
#[derive(Debug, Clone, PartialEq, Eq)]
pub enum PackageType {
    /// A Flatpak application, by its application ID.
    Flatpak(String),
    /// A Snap, by its snap name.
    Snap(String),
    /// A Debian package, by its package name.
    Deb(String),
    /// A desktop file that no package manager owns.
    Local,
}

/// The mathematical form of a [`PackageType`].
pub enum PackageKind {
    Flatpak(Seq<char>),
    Snap(Seq<char>),
    Deb(Seq<char>),
    Local,
}

impl View for PackageType {
    type V = PackageKind;

    open spec fn view(&self) -> PackageKind {
        match self {
            PackageType::Flatpak(id) => PackageKind::Flatpak(id@),
            PackageType::Snap(name) => PackageKind::Snap(name@),
            PackageType::Deb(pkg) => PackageKind::Deb(pkg@),
            PackageType::Local => PackageKind::Local,
        }
    }
}

/// The label of the badge shown for a package kind.
pub open spec fn badge_text(k: PackageKind) -> Seq<char> {
    match k {
        PackageKind::Flatpak(_) => "Flatpak"@,
        PackageKind::Snap(_) => "Snap"@,
        PackageKind::Deb(_) => "APT / Deb"@,
        PackageKind::Local => "Local / File"@,
    }
}

/// The style class of the badge shown for a package kind.
pub open spec fn badge_class(k: PackageKind) -> Seq<char> {
    match k {
        PackageKind::Flatpak(_) => "badge-flatpak"@,
        PackageKind::Snap(_) => "badge-snap"@,
        PackageKind::Deb(_) => "badge-deb"@,
        PackageKind::Local => "badge-local"@,
    }
}

/// The one-line description of a package kind.
pub open spec fn details_text(k: PackageKind) -> Seq<char> {
    match k {
        PackageKind::Flatpak(id) => "Flatpak App ID: "@ + id,
        PackageKind::Snap(name) => "Snap Package: "@ + name,
        PackageKind::Deb(pkg) => "APT Package: "@ + pkg,
        PackageKind::Local => "Custom desktop shortcut / file"@,
    }
}

impl PackageType {
    /// The label of the badge shown beside the application's name.
    pub fn badge_label(&self) -> (r: &str)
        ensures
            r@ == badge_text(self@),
    {
        match self {
            PackageType::Flatpak(_) => "Flatpak",
            PackageType::Snap(_) => "Snap",
            PackageType::Deb(_) => "APT / Deb",
            PackageType::Local => "Local / File",
        }
    }

    /// The style class of that badge.
    pub fn badge_css_class(&self) -> (r: &str)
        ensures
            r@ == badge_class(self@),
    {
        match self {
            PackageType::Flatpak(_) => "badge-flatpak",
            PackageType::Snap(_) => "badge-snap",
            PackageType::Deb(_) => "badge-deb",
            PackageType::Local => "badge-local",
        }
    }

    /// A line that names the package.
    pub fn details(&self) -> (r: String)
        ensures
            r@ == details_text(self@),
    {
        match self {
            PackageType::Flatpak(id) => {
                let mut r = String::from_str("Flatpak App ID: ");
                r.append(id.as_str());
                r
            },
            PackageType::Snap(name) => {
                let mut r = String::from_str("Snap Package: ");
                r.append(name.as_str());
                r
            },
            PackageType::Deb(pkg) => {
                let mut r = String::from_str("APT Package: ");
                r.append(pkg.as_str());
                r
            },
            PackageType::Local => String::from_str("Custom desktop shortcut / file"),
        }
    }

    /// A copy of this value.
    pub fn duplicate(&self) -> (r: PackageType)
        ensures
            r@ == self@,
    {
        match self {
            PackageType::Flatpak(id) => PackageType::Flatpak(id.clone()),
            PackageType::Snap(name) => PackageType::Snap(name.clone()),
            PackageType::Deb(pkg) => PackageType::Deb(pkg.clone()),
            PackageType::Local => PackageType::Local,
        }
    }
}

/// An application found in the menu.
#[derive(Debug, Clone)]
pub struct AppEntry {
    pub name: String,
    pub comment: String,
    pub icon: String,
    pub desktop_path: String,
    pub package_type: PackageType,
}

/// The mathematical form of an [`AppEntry`].
pub struct AppInfo {
    pub name: Seq<char>,
    pub comment: Seq<char>,
    pub icon: Seq<char>,
    pub desktop_path: Seq<char>,
    pub package: PackageKind,
}

impl View for AppEntry {
    type V = AppInfo;

    open spec fn view(&self) -> AppInfo {
        AppInfo {
            name: self.name@,
            comment: self.comment@,
            icon: self.icon@,
            desktop_path: self.desktop_path@,
            package: self.package_type@,
        }
    }
}

impl AppEntry {
    /// A copy of this entry.
    pub fn duplicate(&self) -> (r: AppEntry)
        ensures
            r@ == self@,
    {
        AppEntry {
            name: self.name.clone(),
            comment: self.comment.clone(),
            icon: self.icon.clone(),
            desktop_path: self.desktop_path.clone(),
            package_type: self.package_type.duplicate(),
        }
    }
}

/// The entries held by a sequence of applications.
pub open spec fn infos(v: Seq<AppEntry>) -> Seq<AppInfo> {
    v.map_values(|e: AppEntry| e@)
}

} // verus!
