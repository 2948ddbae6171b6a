//! Desktop entry files: reading the `[Desktop Entry]` group of a `.desktop`
//! file, deciding whether the application shows in the GNOME menu, and
//! finding out which package manager installed it.
use vstd::prelude::*;

use crate::dpkg::DpkgIndex;
use crate::package::{AppEntry, AppInfo, PackageKind, PackageType};
use crate::path::{components, file_name, file_stem, path_file_name, path_file_stem};
use crate::text::{
    before_first, chars_before_first, chars_eq, chars_eq_ignore_ascii_case, chars_of,
    chars_split_once, contains_chars, eq_ignore_ascii_case, has_substring, replace_all,
    replace_chars, split_chars, split_on, split_once, starts_with_chars, string_of, texts, trim,
    trim_chars, lemma_trim_idempotent,
};

verus! {

/// What the lines read so far of a desktop file have set.
pub struct EntryFields {
    /// Whether the current group is `[Desktop Entry]`.
    pub in_entry: bool,
    pub name: Option<Seq<char>>,
    pub comment: Seq<char>,
    pub icon: Seq<char>,
    pub no_display: bool,
    pub is_application: bool,
    pub flatpak_id: Option<Seq<char>>,
    pub snap_name: Option<Seq<char>>,
    pub only_show_in: Option<Seq<char>>,
    pub not_show_in: Option<Seq<char>>,
}

/// Nothing read yet.
pub open spec fn no_fields() -> EntryFields {
    EntryFields {
        in_entry: false,
        name: None,
        comment: seq![],
        icon: seq![],
        no_display: false,
        is_application: false,
        flatpak_id: None,
        snap_name: None,
        only_show_in: None,
        not_show_in: None,
    }
}

/// Whether a trimmed line opens a group: it starts with `[` and ends with `]`.
pub open spec fn is_group_header(t: Seq<char>) -> bool {
    t.len() > 0 && t[0] == '[' && t.last() == ']'
}

/// The fields after a `key=value` line of the `[Desktop Entry]` group.
/// `Type` makes the entry an application when its value is `Application` in
/// any ASCII case; the first `Name` counts; `Comment` and `Icon` are taken
/// while they are still empty; `NoDisplay` hides the entry when it is `true`
/// in any ASCII case; for the other keys read, the last value counts.
pub open spec fn read_pair(f: EntryFields, key: Seq<char>, value: Seq<char>) -> EntryFields {
    if key == "Type"@ {
        if eq_ignore_ascii_case(value, "Application"@) {
            EntryFields { is_application: true, ..f }
        } else {
            f
        }
    } else if key == "Name"@ {
        if f.name is None {
            EntryFields { name: Some(value), ..f }
        } else {
            f
        }
    } else if key == "Comment"@ {
        if f.comment.len() == 0 {
            EntryFields { comment: value, ..f }
        } else {
            f
        }
    } else if key == "Icon"@ {
        if f.icon.len() == 0 {
            EntryFields { icon: value, ..f }
        } else {
            f
        }
    } else if key == "NoDisplay"@ {
        if eq_ignore_ascii_case(value, "true"@) {
            EntryFields { no_display: true, ..f }
        } else {
            f
        }
    } else if key == "OnlyShowIn"@ {
        EntryFields { only_show_in: Some(value), ..f }
    } else if key == "NotShowIn"@ {
        EntryFields { not_show_in: Some(value), ..f }
    } else if key == "X-Flatpak"@ {
        EntryFields { flatpak_id: Some(value), ..f }
    } else if key == "X-SnapInstanceName"@ {
        EntryFields { snap_name: Some(value), ..f }
    } else {
        f
    }
}

/// The fields after one more line: a group header switches the group; inside
/// `[Desktop Entry]` a line with `=` is a key and a value, both trimmed;
/// other lines change nothing.
pub open spec fn read_line(f: EntryFields, raw: Seq<char>) -> EntryFields {
    let t = trim(raw);
    if is_group_header(t) {
        EntryFields { in_entry: t == "[Desktop Entry]"@, ..f }
    } else if !f.in_entry {
        f
    } else {
        match split_once(t, '=') {
            Some(kv) => read_pair(f, trim(kv.0), trim(kv.1)),
            None => f,
        }
    }
}

/// The fields after the given lines, read in order.
pub open spec fn read_lines(lines: Seq<Seq<char>>) -> EntryFields
    decreases lines.len(),
{
    if lines.len() == 0 {
        no_fields()
    } else {
        read_line(read_lines(lines.drop_last()), lines.last())
    }
}

/// The fields that a desktop file sets.
pub open spec fn entry_fields(content: Seq<char>) -> EntryFields {
    read_lines(split_on(content, '\n'))
}

/// Whether a `;`-separated list of desktops names GNOME, in any ASCII case.
pub open spec fn lists_gnome(list: Seq<char>) -> bool {
    exists|k: int|
        0 <= k < split_on(list, ';').len() && eq_ignore_ascii_case(
            #[trigger] split_on(list, ';')[k],
            "GNOME"@,
        )
}

/// Whether the entry is an application that the GNOME menu shows.
pub open spec fn shown_in_gnome(f: EntryFields) -> bool {
    &&& f.is_application
    &&& !f.no_display
    &&& !(f.not_show_in matches Some(l) && lists_gnome(l))
    &&& (f.only_show_in matches Some(l) ==> lists_gnome(l))
}

/// The name of a snap as its desktop file's name gives it: the part before
/// the first `_`, without `.desktop`.
pub open spec fn snap_name_of(path: Seq<char>) -> Seq<char> {
    replace_all(before_first(file_name(path), '_'), ".desktop"@, seq![])
}

/// How the application of the desktop file at `path` was installed.
/// `path` is the text of the file's path, with any bytes that are not UTF-8
/// replaced; `path_exact` tells whether the whole path is UTF-8 and
/// `name_exact` whether its file name is.
/// An `X-Flatpak` key, or `flatpak` in the path, marks a Flatpak (by the key,
/// else by the file's stem, empty when the name is not UTF-8); an
/// `X-SnapInstanceName` key, or `/snap/` or `snapd` in the path, marks a Snap
/// (by the key, else by the file's name, empty when it is not UTF-8); a file
/// under `/usr/share/applications` that a Debian package installs belongs to
/// that package (dpkg's lists name UTF-8 paths only); anything else is local.
pub open spec fn package_of(
    path: Seq<char>,
    path_exact: bool,
    name_exact: bool,
    f: EntryFields,
    dpkg: Map<Seq<Seq<char>>, Seq<char>>,
) -> PackageKind {
    if f.flatpak_id is Some {
        PackageKind::Flatpak(f.flatpak_id.unwrap())
    } else if has_substring(path, "flatpak"@) {
        PackageKind::Flatpak(
            if name_exact {
                file_stem(path)
            } else {
                seq![]
            },
        )
    } else if f.snap_name is Some {
        PackageKind::Snap(f.snap_name.unwrap())
    } else if has_substring(path, "/snap/"@) || has_substring(path, "snapd"@) {
        PackageKind::Snap(
            if name_exact {
                snap_name_of(path)
            } else {
                seq![]
            },
        )
    } else if "/usr/share/applications"@.is_prefix_of(path) && path_exact && dpkg.contains_key(
        components(path),
    ) {
        PackageKind::Deb(dpkg[components(path)])
    } else {
        PackageKind::Local
    }
}

/// The application that the desktop file at `path` with text `content`
/// describes, if the GNOME menu shows it and it has a non-empty name
/// (`path_exact` and `name_exact` as for `package_of`).
pub open spec fn desktop_app(
    path: Seq<char>,
    path_exact: bool,
    name_exact: bool,
    content: Seq<char>,
    dpkg: Map<Seq<Seq<char>>, Seq<char>>,
) -> Option<AppInfo> {
    let f = entry_fields(content);
    if !shown_in_gnome(f) || f.name is None || trim(f.name.unwrap()).len() == 0 {
        None
    } else {
        Some(
            AppInfo {
                name: f.name.unwrap(),
                comment: f.comment,
                icon: f.icon,
                desktop_path: path,
                package: package_of(path, path_exact, name_exact, f, dpkg),
            },
        )
    }
}

/// A name read from a desktop file has no surrounding whitespace.
pub proof fn lemma_read_names_trimmed(lines: Seq<Seq<char>>)
    ensures
        read_lines(lines).name matches Some(v) ==> trim(v) == v,
    decreases lines.len(),
{
    if lines.len() > 0 {
        lemma_read_names_trimmed(lines.drop_last());
        let t = trim(lines.last());
        if let Some(kv) = split_once(t, '=') {
            lemma_trim_idempotent(kv.1);
        }
    }
}

/// The optional text that an optional character vector holds.
pub open spec fn opt_text(o: Option<Vec<char>>) -> Option<Seq<char>> {
    match o {
        Some(v) => Some(v@),
        None => None,
    }
}

/// The fields read so far, as character vectors.
struct FieldScan {
    in_entry: bool,
    name: Option<Vec<char>>,
    comment: Vec<char>,
    icon: Vec<char>,
    no_display: bool,
    is_application: bool,
    flatpak_id: Option<Vec<char>>,
    snap_name: Option<Vec<char>>,
    only_show_in: Option<Vec<char>>,
    not_show_in: Option<Vec<char>>,
}

impl View for FieldScan {
    type V = EntryFields;

    closed spec fn view(&self) -> EntryFields {
        EntryFields {
            in_entry: self.in_entry,
            name: opt_text(self.name),
            comment: self.comment@,
            icon: self.icon@,
            no_display: self.no_display,
            is_application: self.is_application,
            flatpak_id: opt_text(self.flatpak_id),
            snap_name: opt_text(self.snap_name),
            only_show_in: opt_text(self.only_show_in),
            not_show_in: opt_text(self.not_show_in),
        }
    }
}

/// The texts that the reader compares keys and values with.
struct Words {
    header: Vec<char>,
    type_key: Vec<char>,
    name_key: Vec<char>,
    comment_key: Vec<char>,
    icon_key: Vec<char>,
    no_display_key: Vec<char>,
    only_show_in_key: Vec<char>,
    not_show_in_key: Vec<char>,
    flatpak_key: Vec<char>,
    snap_key: Vec<char>,
    application: Vec<char>,
    true_word: Vec<char>,
}

impl Words {
    spec fn wf(&self) -> bool {
        &&& self.header@ == "[Desktop Entry]"@
        &&& self.type_key@ == "Type"@
        &&& self.name_key@ == "Name"@
        &&& self.comment_key@ == "Comment"@
        &&& self.icon_key@ == "Icon"@
        &&& self.no_display_key@ == "NoDisplay"@
        &&& self.only_show_in_key@ == "OnlyShowIn"@
        &&& self.not_show_in_key@ == "NotShowIn"@
        &&& self.flatpak_key@ == "X-Flatpak"@
        &&& self.snap_key@ == "X-SnapInstanceName"@
        &&& self.application@ == "Application"@
        &&& self.true_word@ == "true"@
    }

    fn new() -> (w: Words)
        ensures
            w.wf(),
    {
        Words {
            header: chars_of("[Desktop Entry]"),
            type_key: chars_of("Type"),
            name_key: chars_of("Name"),
            comment_key: chars_of("Comment"),
            icon_key: chars_of("Icon"),
            no_display_key: chars_of("NoDisplay"),
            only_show_in_key: chars_of("OnlyShowIn"),
            not_show_in_key: chars_of("NotShowIn"),
            flatpak_key: chars_of("X-Flatpak"),
            snap_key: chars_of("X-SnapInstanceName"),
            application: chars_of("Application"),
            true_word: chars_of("true"),
        }
    }
}

impl FieldScan {
    fn new() -> (r: FieldScan)
        ensures
            r@ == no_fields(),
    {
        FieldScan {
            in_entry: false,
            name: None,
            comment: Vec::new(),
            icon: Vec::new(),
            no_display: false,
            is_application: false,
            flatpak_id: None,
            snap_name: None,
            only_show_in: None,
            not_show_in: None,
        }
    }

    fn read_pair(&mut self, key: &[char], value: Vec<char>, w: &Words)
        requires
            w.wf(),
        ensures
            final(self)@ == read_pair(old(self)@, key@, value@),
    {
        if chars_eq(key, w.type_key.as_slice()) {
            if chars_eq_ignore_ascii_case(value.as_slice(), w.application.as_slice()) {
                self.is_application = true;
            }
        } else if chars_eq(key, w.name_key.as_slice()) {
            if self.name.is_none() {
                self.name = Some(value);
            }
        } else if chars_eq(key, w.comment_key.as_slice()) {
            if self.comment.len() == 0 {
                self.comment = value;
            }
        } else if chars_eq(key, w.icon_key.as_slice()) {
            if self.icon.len() == 0 {
                self.icon = value;
            }
        } else if chars_eq(key, w.no_display_key.as_slice()) {
            if chars_eq_ignore_ascii_case(value.as_slice(), w.true_word.as_slice()) {
                self.no_display = true;
            }
        } else if chars_eq(key, w.only_show_in_key.as_slice()) {
            self.only_show_in = Some(value);
        } else if chars_eq(key, w.not_show_in_key.as_slice()) {
            self.not_show_in = Some(value);
        } else if chars_eq(key, w.flatpak_key.as_slice()) {
            self.flatpak_id = Some(value);
        } else if chars_eq(key, w.snap_key.as_slice()) {
            self.snap_name = Some(value);
        }
    }

    fn read_line(&mut self, raw: &[char], w: &Words)
        requires
            w.wf(),
        ensures
            final(self)@ == read_line(old(self)@, raw@),
    {
        let t = trim_chars(raw);
        let n = t.len();
        if n > 0 && t[0] == '[' && t[n - 1] == ']' {
            self.in_entry = chars_eq(t.as_slice(), w.header.as_slice());
            return ;
        }
        if !self.in_entry {
            return ;
        }
        match chars_split_once(t.as_slice(), '=') {
            Some(kv) => {
                let key = trim_chars(kv.0.as_slice());
                let value = trim_chars(kv.1.as_slice());
                self.read_pair(key.as_slice(), value, w);
            },
            None => {},
        }
    }
}

/// Whether the `;`-separated list `list` names GNOME in any ASCII case.
pub fn list_names_gnome(list: &[char]) -> (r: bool)
    ensures
        r == lists_gnome(list@),
{
    let parts = split_chars(list, ';');
    let gnome = chars_of("GNOME");
    let mut i: usize = 0;
    while i < parts.len()
        invariant
            i <= parts@.len(),
            gnome@ == "GNOME"@,
            texts(parts@) == split_on(list@, ';'),
            forall|k: int| 0 <= k < i ==> !eq_ignore_ascii_case(parts@[k]@, "GNOME"@),
        decreases parts@.len() - i,
    {
        if chars_eq_ignore_ascii_case(parts[i].as_slice(), gnome.as_slice()) {
            assert(split_on(list@, ';')[i as int] == parts@[i as int]@);
            return true;
        }
        i += 1;
    }
    assert forall|k: int|
        0 <= k < split_on(list@, ';').len() implies !eq_ignore_ascii_case(
        #[trigger] split_on(list@, ';')[k],
        "GNOME"@,
    ) by {
        assert(split_on(list@, ';')[k] == parts@[k]@);
    }
    false
}

/// Whether the entry read is an application that the GNOME menu shows.
fn scan_shown_in_gnome(f: &FieldScan) -> (r: bool)
    ensures
        r == shown_in_gnome(f@),
{
    if !f.is_application || f.no_display {
        return false;
    }
    match &f.not_show_in {
        Some(l) => {
            if list_names_gnome(l.as_slice()) {
                return false;
            }
        },
        None => {},
    }
    match &f.only_show_in {
        Some(l) => list_names_gnome(l.as_slice()),
        None => true,
    }
}

/// How the application of the desktop file at `path` was installed.
fn classify_package(
    path: &[char],
    path_exact: bool,
    name_exact: bool,
    f: &FieldScan,
    dpkg: &DpkgIndex,
) -> (r: PackageType)
    ensures
        r@ == package_of(path@, path_exact, name_exact, f@, dpkg@),
{
    match &f.flatpak_id {
        Some(id) => {
            return PackageType::Flatpak(string_of(id.as_slice()));
        },
        None => {},
    }
    if contains_chars(path, chars_of("flatpak").as_slice()) {
        if !name_exact {
            return PackageType::Flatpak(String::new());
        }
        let stem = path_file_stem(path);
        return PackageType::Flatpak(string_of(stem.as_slice()));
    }
    match &f.snap_name {
        Some(name) => {
            return PackageType::Snap(string_of(name.as_slice()));
        },
        None => {},
    }
    if contains_chars(path, chars_of("/snap/").as_slice()) || contains_chars(
        path,
        chars_of("snapd").as_slice(),
    ) {
        if !name_exact {
            return PackageType::Snap(String::new());
        }
        let file = path_file_name(path);
        let first = chars_before_first(file.as_slice(), '_');
        let suffix = chars_of(".desktop");
        proof {
            reveal_strlit(".desktop");
        }
        let empty: Vec<char> = Vec::new();
        let name = replace_chars(first.as_slice(), suffix.as_slice(), empty.as_slice());
        assert(empty@ =~= seq![]);
        return PackageType::Snap(string_of(name.as_slice()));
    }
    if starts_with_chars(path, chars_of("/usr/share/applications").as_slice()) && path_exact {
        let p = string_of(path);
        match dpkg.package_for(p.as_str()) {
            Some(pkg) => {
                return PackageType::Deb(pkg);
            },
            None => {},
        }
    }
    PackageType::Local
}

/// The application that the desktop file at `path`, whose text is `content`,
/// describes: `None` when the file is not an application of the GNOME menu
/// or has no name. `path` is the path's text, any bytes that are not UTF-8
/// replaced; `path_exact` tells whether the whole path is UTF-8 and
/// `name_exact` whether its file name is.
pub fn parse_desktop_entry(
    path: &str,
    path_exact: bool,
    name_exact: bool,
    content: &str,
    dpkg: &DpkgIndex,
) -> (r: Option<AppEntry>)
    ensures
        r matches Some(e) ==> desktop_app(path@, path_exact, name_exact, content@, dpkg@) == Some(
            e@,
        ),
        r is None ==> desktop_app(path@, path_exact, name_exact, content@, dpkg@) is None,
{
    let w = Words::new();
    let c = chars_of(content);
    let lines = split_chars(c.as_slice(), '\n');
    let mut f = FieldScan::new();
    let mut i: usize = 0;
    proof {
        assert(texts(lines@).take(0) =~= Seq::<Seq<char>>::empty());
    }
    while i < lines.len()
        invariant
            i <= lines@.len(),
            w.wf(),
            texts(lines@) == split_on(content@, '\n'),
            f@ == read_lines(texts(lines@).take(i as int)),
        decreases lines@.len() - i,
    {
        f.read_line(lines[i].as_slice(), &w);
        proof {
            let taken = texts(lines@).take(i + 1);
            assert(taken.drop_last() =~= texts(lines@).take(i as int));
            assert(taken.last() == lines@[i as int]@);
        }
        i += 1;
    }
    proof {
        assert(texts(lines@).take(lines@.len() as int) =~= texts(lines@));
    }
    if !scan_shown_in_gnome(&f) {
        return None;
    }
    let p = chars_of(path);
    let package_type = classify_package(p.as_slice(), path_exact, name_exact, &f, dpkg);
    match f.name {
        Some(name) => {
            proof {
                lemma_read_names_trimmed(split_on(content@, '\n'));
            }
            if name.len() == 0 {
                return None;
            }
            Some(
                AppEntry {
                    name: string_of(name.as_slice()),
                    comment: string_of(f.comment.as_slice()),
                    icon: string_of(f.icon.as_slice()),
                    desktop_path: String::from_str(path),
                    package_type,
                },
            )
        },
        None => None,
    }
}

} // verus!
