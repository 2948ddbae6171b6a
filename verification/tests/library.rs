use luninstaller::catalog::{build_catalog, is_desktop_file, search_dirs, sort_by_name};
use luninstaller::desktop::parse_desktop_entry;
use luninstaller::dpkg::{dpkg_list_package, DpkgIndex};
use luninstaller::package::{AppEntry, PackageType};
use luninstaller::path::path_under;
use luninstaller::presentation::{
    confirm_details, confirm_markup, icon_plan, matches_search, progress_text, result_title,
    row_subtitle, status_text,
};
use luninstaller::text::chars_of;
use luninstaller::uninstall::{finish_uninstall, plan_uninstall, ActionOutcome, UninstallAction};

fn app(name: &str, comment: &str, path: &str, package_type: PackageType) -> AppEntry {
    AppEntry {
        name: name.to_string(),
        comment: comment.to_string(),
        icon: String::new(),
        desktop_path: path.to_string(),
        package_type,
    }
}

fn parse(path: &str, content: &str) -> Option<AppEntry> {
    parse_desktop_entry(path, true, true, content, &DpkgIndex::new())
}

// ----------------------------------------------------------------------------
// Package types
// ----------------------------------------------------------------------------

#[test]
fn badge_labels_of_each_kind() {
    assert_eq!(PackageType::Flatpak("a".into()).badge_label(), "Flatpak");
    assert_eq!(PackageType::Snap("a".into()).badge_label(), "Snap");
    assert_eq!(PackageType::Deb("a".into()).badge_label(), "APT / Deb");
    assert_eq!(PackageType::Local.badge_label(), "Local / File");
}

#[test]
fn badge_classes_of_each_kind() {
    assert_eq!(PackageType::Flatpak("a".into()).badge_css_class(), "badge-flatpak");
    assert_eq!(PackageType::Snap("a".into()).badge_css_class(), "badge-snap");
    assert_eq!(PackageType::Deb("a".into()).badge_css_class(), "badge-deb");
    assert_eq!(PackageType::Local.badge_css_class(), "badge-local");
}

#[test]
fn details_of_each_kind() {
    assert_eq!(
        PackageType::Flatpak("org.mozilla.firefox".into()).details(),
        "Flatpak App ID: org.mozilla.firefox"
    );
    assert_eq!(PackageType::Snap("discord".into()).details(), "Snap Package: discord");
    assert_eq!(PackageType::Deb("brave-browser".into()).details(), "APT Package: brave-browser");
    assert_eq!(PackageType::Local.details(), "Custom desktop shortcut / file");
}

#[test]
fn duplicate_keeps_every_field() {
    let a = app("Editor", "Edit text", "/x/e.desktop", PackageType::Deb("ed".into()));
    let b = a.duplicate();
    assert_eq!(b.name, "Editor");
    assert_eq!(b.comment, "Edit text");
    assert_eq!(b.desktop_path, "/x/e.desktop");
    assert_eq!(b.package_type, PackageType::Deb("ed".into()));
}

// ----------------------------------------------------------------------------
// Desktop files
// ----------------------------------------------------------------------------

const BASIC: &str = "[Desktop Entry]\nType=Application\nName=Text Editor\nComment=Edit files\nIcon=org.gnome.TextEditor\n";

#[test]
fn parses_a_plain_application() {
    let e = parse("/home/u/.local/share/applications/editor.desktop", BASIC).unwrap();
    assert_eq!(e.name, "Text Editor");
    assert_eq!(e.comment, "Edit files");
    assert_eq!(e.icon, "org.gnome.TextEditor");
    assert_eq!(e.desktop_path, "/home/u/.local/share/applications/editor.desktop");
    assert_eq!(e.package_type, PackageType::Local);
}

#[test]
fn hidden_entries_are_not_listed() {
    let c = "[Desktop Entry]\nType=Application\nName=Hidden\nNoDisplay=TRUE\n";
    assert!(parse("/tmp/h.desktop", c).is_none());
    let shown = "[Desktop Entry]\nType=Application\nName=Shown\nNoDisplay=false\n";
    assert!(parse("/tmp/h.desktop", shown).is_some());
}

#[test]
fn entries_that_are_not_applications_are_not_listed() {
    assert!(parse("/tmp/l.desktop", "[Desktop Entry]\nType=Link\nName=Site\n").is_none());
    assert!(parse("/tmp/l.desktop", "[Desktop Entry]\nName=No type\n").is_none());
    assert!(parse("/tmp/l.desktop", "[Desktop Entry]\ntype=Application\nName=Lower key\n").is_none());
    assert!(parse("/tmp/l.desktop", "[Desktop Entry]\nType=APPLICATION\nName=Upper value\n").is_some());
}

#[test]
fn not_show_in_gnome_hides() {
    let c = "[Desktop Entry]\nType=Application\nName=K\nNotShowIn=KDE;gnome;\n";
    assert!(parse("/tmp/k.desktop", c).is_none());
    let other = "[Desktop Entry]\nType=Application\nName=K\nNotShowIn=KDE;XFCE;\n";
    assert!(parse("/tmp/k.desktop", other).is_some());
}

#[test]
fn only_show_in_must_name_gnome() {
    let c = "[Desktop Entry]\nType=Application\nName=K\nOnlyShowIn=KDE;\n";
    assert!(parse("/tmp/k.desktop", c).is_none());
    let g = "[Desktop Entry]\nType=Application\nName=G\nOnlyShowIn=XFCE;GNOME;\n";
    assert!(parse("/tmp/g.desktop", g).is_some());
}

#[test]
fn names_must_be_present_and_non_empty() {
    assert!(parse("/tmp/n.desktop", "[Desktop Entry]\nType=Application\n").is_none());
    assert!(parse("/tmp/n.desktop", "[Desktop Entry]\nType=Application\nName=   \n").is_none());
}

#[test]
fn other_groups_are_ignored() {
    let c = "[Desktop Action new]\nName=New Window\n[Desktop Entry]\nType=Application\nName=Browser\n[Other]\nName=Ignored\nNoDisplay=true\n";
    let e = parse("/tmp/b.desktop", c).unwrap();
    assert_eq!(e.name, "Browser");
}

#[test]
fn first_name_wins_and_empty_comment_is_replaced() {
    let c = "[Desktop Entry]\nName=First\nComment=\nType=Application\nName=Second\nComment=Later\nComment=Last\n";
    let e = parse("/tmp/f.desktop", c).unwrap();
    assert_eq!(e.name, "First");
    assert_eq!(e.comment, "Later");
}

#[test]
fn whitespace_and_carriage_returns_are_trimmed() {
    let c = "  [Desktop Entry]  \r\n Type = Application \r\n Name =  Spaced App \r\n";
    let e = parse("/tmp/s.desktop", c).unwrap();
    assert_eq!(e.name, "Spaced App");
}

#[test]
fn values_may_hold_equals_signs() {
    let c = "[Desktop Entry]\nType=Application\nName=a=b\n";
    assert_eq!(parse("/tmp/e.desktop", c).unwrap().name, "a=b");
}

#[test]
fn flatpak_key_gives_the_app_id() {
    let c = "[Desktop Entry]\nType=Application\nName=Firefox\nX-Flatpak=org.mozilla.firefox\n";
    let e = parse("/usr/share/applications/firefox.desktop", c).unwrap();
    assert_eq!(e.package_type, PackageType::Flatpak("org.mozilla.firefox".into()));
}

#[test]
fn flatpak_directory_gives_the_file_stem() {
    let c = "[Desktop Entry]\nType=Application\nName=Files\n";
    let e = parse("/var/lib/flatpak/exports/share/applications/org.gnome.Files.desktop", c).unwrap();
    assert_eq!(e.package_type, PackageType::Flatpak("org.gnome.Files".into()));
}

#[test]
fn snap_key_gives_the_instance_name() {
    let c = "[Desktop Entry]\nType=Application\nName=Discord\nX-SnapInstanceName=discord\n";
    let e = parse("/var/lib/snapd/desktop/applications/discord_discord.desktop", c).unwrap();
    assert_eq!(e.package_type, PackageType::Snap("discord".into()));
}

#[test]
fn snap_directory_gives_the_name_before_underscore() {
    let c = "[Desktop Entry]\nType=Application\nName=Spotify\n";
    let e = parse("/var/lib/snapd/desktop/applications/spotify_spotify.desktop", c).unwrap();
    assert_eq!(e.package_type, PackageType::Snap("spotify".into()));
    let plain = parse("/snap/code/current/code.desktop", c).unwrap();
    assert_eq!(plain.package_type, PackageType::Snap("code".into()));
}

#[test]
fn system_files_of_a_package_are_deb() {
    let mut index = DpkgIndex::new();
    index.add_list("brave-browser", "/.\n/usr/share/applications/brave-browser.desktop\n/usr/bin/brave\n");
    let c = "[Desktop Entry]\nType=Application\nName=Brave\n";
    let e = parse_desktop_entry("/usr/share/applications/brave-browser.desktop", true, true, c, &index).unwrap();
    assert_eq!(e.package_type, PackageType::Deb("brave-browser".into()));
    let other = parse_desktop_entry("/usr/share/applications/other.desktop", true, true, c, &index).unwrap();
    assert_eq!(other.package_type, PackageType::Local);
    let elsewhere = parse_desktop_entry("/opt/brave-browser.desktop", true, true, c, &index).unwrap();
    assert_eq!(elsewhere.package_type, PackageType::Local);
}

// ----------------------------------------------------------------------------
// dpkg index
// ----------------------------------------------------------------------------

#[test]
fn list_files_name_their_package() {
    assert_eq!(dpkg_list_package("/var/lib/dpkg/info/firefox.list", true).unwrap(), "firefox");
    assert_eq!(dpkg_list_package("/var/lib/dpkg/info/libc6:amd64.list", true).unwrap(), "libc6");
    assert!(dpkg_list_package("/var/lib/dpkg/info/firefox.md5sums", true).is_none());
    assert!(dpkg_list_package("/var/lib/dpkg/info/.list", true).is_none());
}

#[test]
fn index_reads_desktop_lines_only() {
    let mut index = DpkgIndex::new();
    index.add_list("gedit", "/usr/share/applications/org.gnome.gedit.desktop\r\n/usr/bin/gedit\n/usr/share/doc/x.desktop.gz\n");
    assert_eq!(index.package_for("/usr/share/applications/org.gnome.gedit.desktop").unwrap(), "gedit");
    assert!(index.package_for("/usr/bin/gedit").is_none());
    assert!(index.package_for("/usr/share/doc/x.desktop.gz").is_none());
}

#[test]
fn index_compares_paths_by_components_and_later_wins() {
    let mut index = DpkgIndex::new();
    index.insert("/usr/share/applications/a.desktop", "first");
    index.insert("/usr//share/./applications/a.desktop", "second");
    assert_eq!(index.package_for("/usr/share/applications/a.desktop/").unwrap(), "second");
    assert!(index.package_for("/usr/share/applications/b.desktop").is_none());
}

// ----------------------------------------------------------------------------
// Catalog
// ----------------------------------------------------------------------------

#[test]
fn search_directories_with_and_without_home() {
    let with = search_dirs(Some("/home/ann"));
    assert_eq!(
        with,
        vec![
            "/home/ann/.local/share/applications".to_string(),
            "/home/ann/.local/share/flatpak/exports/share/applications".to_string(),
            "/var/lib/flatpak/exports/share/applications".to_string(),
            "/var/lib/snapd/desktop/applications".to_string(),
            "/usr/share/applications".to_string(),
        ]
    );
    assert_eq!(search_dirs(None).len(), 3);
    assert_eq!(search_dirs(None)[0], "/var/lib/flatpak/exports/share/applications");
}

#[test]
fn desktop_files_are_recognised_by_extension() {
    assert!(is_desktop_file("/usr/share/applications/firefox.desktop"));
    assert!(!is_desktop_file("/usr/share/applications/firefox.desktop.bak"));
    assert!(!is_desktop_file("/usr/share/applications/.desktop"));
    assert!(!is_desktop_file("/usr/share/applications/mimeinfo.cache"));
}

#[test]
fn catalog_is_sorted_ignoring_case() {
    let found = vec![
        app("beta", "", "/a/1.desktop", PackageType::Local),
        app("Alpha", "", "/a/2.desktop", PackageType::Local),
        app("B", "", "/a/3.desktop", PackageType::Local),
        app("a", "", "/a/4.desktop", PackageType::Local),
    ];
    let names: Vec<String> = build_catalog(&found).into_iter().map(|e| e.name).collect();
    assert_eq!(names, vec!["a", "Alpha", "B", "beta"]);
}

#[test]
fn catalog_sort_is_stable() {
    let found = vec![
        app("Same", "first", "/a/1.desktop", PackageType::Local),
        app("same", "second", "/a/2.desktop", PackageType::Snap("x".into())),
        app("SAME", "third", "/a/3.desktop", PackageType::Deb("y".into())),
    ];
    let sorted = sort_by_name(&found);
    let comments: Vec<&str> = sorted.iter().map(|e| e.comment.as_str()).collect();
    assert_eq!(comments, vec!["first", "second", "third"]);
}

#[test]
fn catalog_drops_repeats_and_itself() {
    let found = vec![
        app("Files", "user copy", "/home/u/files.desktop", PackageType::Local),
        app("luninstaller", "", "/usr/share/applications/luninstaller.desktop", PackageType::Local),
        app("Files", "system copy", "/usr/share/applications/files.desktop", PackageType::Local),
        app("Files", "flatpak", "/var/lib/flatpak/x/files.desktop", PackageType::Flatpak("org.gnome.Files".into())),
        app("Application Uninstaller", "", "/x.desktop", PackageType::Local),
        app("Удаление программ", "", "/y.desktop", PackageType::Local),
    ];
    let listed = build_catalog(&found);
    assert_eq!(listed.len(), 2);
    assert_eq!(listed[0].comment, "user copy");
    assert_eq!(listed[1].comment, "flatpak");
}

#[test]
fn catalog_of_nothing_is_empty() {
    assert!(build_catalog(&Vec::new()).is_empty());
}

// ----------------------------------------------------------------------------
// Paths
// ----------------------------------------------------------------------------

#[test]
fn paths_lie_under_directories_by_component() {
    assert!(path_under(&chars_of("/home/ann/.local/a.desktop"), &chars_of("/home/ann/")));
    assert!(!path_under(&chars_of("/home/ann2/a.desktop"), &chars_of("/home/ann")));
    assert!(path_under(&chars_of("/home/ann"), &chars_of("/home/ann")));
    assert!(!path_under(&chars_of("home/ann/a"), &chars_of("/home/ann")));
}

// ----------------------------------------------------------------------------
// Uninstalling
// ----------------------------------------------------------------------------

fn command(action: &UninstallAction) -> (String, Vec<String>, bool) {
    match action {
        UninstallAction::RunCommand { program, args, with_file } => {
            (program.clone(), args.clone(), *with_file)
        }
        other => panic!("expected a command, got {:?}", other),
    }
}

#[test]
fn flatpak_is_removed_with_flatpak() {
    let a = app("Firefox", "", "/p", PackageType::Flatpak("org.mozilla.firefox".into()));
    let action = plan_uninstall(&a, true, Some("/home/u"));
    let (prog, args, with_file) = command(&action);
    assert_eq!(prog, "flatpak");
    assert_eq!(args, vec!["uninstall", "-y", "org.mozilla.firefox"]);
    assert!(!with_file);
    let ok = finish_uninstall(&a, &action, &ActionOutcome::Exited { success: true, status: "exit status: 0".into() });
    assert!(ok.success);
    assert_eq!(ok.message, "'Firefox' was successfully uninstalled via Flatpak.");
    let failed = finish_uninstall(&a, &action, &ActionOutcome::Exited { success: false, status: "exit status: 1".into() });
    assert!(!failed.success);
    assert_eq!(failed.message, "Flatpak returned an error (exit code: exit status: 1).");
    let absent = finish_uninstall(&a, &action, &ActionOutcome::NotStarted { error: "not found".into() });
    assert!(!absent.success);
    assert_eq!(absent.message, "Failed to run 'flatpak' command: not found");
}

#[test]
fn snap_is_removed_with_pkexec() {
    let a = app("Discord", "", "/p", PackageType::Snap("discord".into()));
    let action = plan_uninstall(&a, false, None);
    let (prog, args, with_file) = command(&action);
    assert_eq!(prog, "pkexec");
    assert_eq!(args, vec!["snap", "remove", "discord"]);
    assert!(!with_file);
    let ok = finish_uninstall(&a, &action, &ActionOutcome::Exited { success: true, status: String::new() });
    assert_eq!(ok.message, "Snap package 'Discord' was successfully removed.");
    let failed = finish_uninstall(&a, &action, &ActionOutcome::Exited { success: false, status: "exit status: 126".into() });
    assert_eq!(failed.message, "Snap removal failed (exit code: exit status: 126). Authorization might have been canceled.");
    let absent = finish_uninstall(&a, &action, &ActionOutcome::NotStarted { error: "e".into() });
    assert_eq!(absent.message, "Failed to launch pkexec: e");
}

#[test]
fn deb_is_purged_with_apt_get() {
    let a = app("Brave", "", "/p", PackageType::Deb("brave-browser".into()));
    let action = plan_uninstall(&a, true, None);
    let (prog, args, with_file) = command(&action);
    assert_eq!(prog, "pkexec");
    assert_eq!(args, vec!["apt-get", "purge", "-y", "brave-browser"]);
    assert!(!with_file);
    let ok = finish_uninstall(&a, &action, &ActionOutcome::Exited { success: true, status: String::new() });
    assert!(ok.success);
    assert_eq!(ok.message, "System package 'Brave' (brave-browser) was successfully purged.");
    let failed = finish_uninstall(&a, &action, &ActionOutcome::Exited { success: false, status: "s".into() });
    assert_eq!(failed.message, "APT removal failed (exit code: s). Authorization might have been canceled.");
    let absent = finish_uninstall(&a, &action, &ActionOutcome::NotStarted { error: "e".into() });
    assert_eq!(absent.message, "Failed to run pkexec apt-get: e");
}

#[test]
fn missing_local_file_needs_nothing() {
    let a = app("Gone", "", "/home/u/.local/share/applications/gone.desktop", PackageType::Local);
    let action = plan_uninstall(&a, false, Some("/home/u"));
    assert!(matches!(action, UninstallAction::AlreadyGone));
    let r = finish_uninstall(&a, &action, &ActionOutcome::Skipped);
    assert!(r.success);
    assert_eq!(r.message, "File does not exist anymore.");
}

#[test]
fn local_file_of_the_user_is_deleted_directly() {
    let a = app("Mine", "", "/home/u/.local/share/applications/mine.desktop", PackageType::Local);
    let action = plan_uninstall(&a, true, Some("/home/u"));
    assert!(matches!(action, UninstallAction::RemoveUserFile));
    let ok = finish_uninstall(&a, &action, &ActionOutcome::Removed);
    assert!(ok.success);
    assert_eq!(ok.message, "Shortcut for 'Mine' has been removed.");
    let failed = finish_uninstall(&a, &action, &ActionOutcome::NotRemoved { error: "Permission denied".into() });
    assert!(!failed.success);
    assert_eq!(failed.message, "Failed to delete file /home/u/.local/share/applications/mine.desktop: Permission denied");
}

#[test]
fn other_local_files_are_deleted_with_pkexec() {
    let a = app("Sys", "", "/usr/share/applications/sys.desktop", PackageType::Local);
    for home in [Some("/home/u"), Some("/home/u2/../u"), None] {
        let action = plan_uninstall(&a, true, home);
        let (prog, args, with_file) = command(&action);
        assert_eq!(prog, "pkexec");
        assert_eq!(args, vec!["rm", "-f"]);
        assert!(with_file);
    }
    let near = app("Near", "", "/home/u2/x.desktop", PackageType::Local);
    let (prog, _, _) = command(&plan_uninstall(&near, true, Some("/home/u")));
    assert_eq!(prog, "pkexec");
    let action = plan_uninstall(&a, true, None);
    let ok = finish_uninstall(&a, &action, &ActionOutcome::Exited { success: true, status: String::new() });
    assert_eq!(ok.message, "File '/usr/share/applications/sys.desktop' has been removed.");
    let failed = finish_uninstall(&a, &action, &ActionOutcome::Exited { success: false, status: "exit status: 1".into() });
    assert!(!failed.success);
    assert_eq!(failed.message, "Failed to delete file: exit status: 1");
    let absent = finish_uninstall(&a, &action, &ActionOutcome::NotStarted { error: "e".into() });
    assert_eq!(absent.message, "Failed to launch pkexec: e");
}

// ----------------------------------------------------------------------------
// Presentation
// ----------------------------------------------------------------------------

#[test]
fn blank_search_matches_everything() {
    let a = app("Editor", "", "/p", PackageType::Local);
    assert!(matches_search(&a, ""));
    assert!(matches_search(&a, "   "));
}

#[test]
fn search_ignores_case_and_looks_at_all_texts() {
    let a = app("Firefox Web Browser", "Browse the Web", "/p", PackageType::Flatpak("org.mozilla.firefox".into()));
    assert!(matches_search(&a, "FIREFOX"));
    assert!(matches_search(&a, "browse the"));
    assert!(matches_search(&a, "flatpak"));
    assert!(matches_search(&a, "mozilla"));
    assert!(!matches_search(&a, "snap"));
    assert!(!matches_search(&a, " firefox"));
    let d = app("Brave", "", "/p", PackageType::Deb("brave-browser".into()));
    assert!(matches_search(&d, "apt / deb"));
}

#[test]
fn subtitle_is_comment_or_details() {
    assert_eq!(row_subtitle(&app("A", "Comment", "/p", PackageType::Local)), "Comment");
    assert_eq!(row_subtitle(&app("A", "", "/p", PackageType::Snap("a".into()))), "Snap Package: a");
}

#[test]
fn status_counts_applications() {
    assert_eq!(status_text(0), "Applications found: 0");
    assert_eq!(status_text(7), "Applications found: 7");
    assert_eq!(status_text(1204), "Applications found: 1204");
    assert_eq!(status_text(usize::MAX), format!("Applications found: {}", usize::MAX));
}

#[test]
fn dialog_texts() {
    assert_eq!(confirm_markup("A &amp; B"), "<b>Are you sure you want to uninstall \"A &amp; B\"?</b>");
    let a = app("Brave", "", "/usr/share/applications/brave.desktop", PackageType::Deb("brave-browser".into()));
    assert_eq!(
        confirm_details(&a),
        "Type: APT / Deb\nAPT Package: brave-browser\nPath: /usr/share/applications/brave.desktop"
    );
    assert_eq!(progress_text(&a), "Uninstalling 'Brave'...");
    assert_eq!(result_title(true), "Success");
    assert_eq!(result_title(false), "Error");
}

#[test]
fn icons_are_looked_for_by_path_then_theme() {
    let p = icon_plan("/opt/app/icon.png");
    assert!(p.from_file && p.from_theme);
    let t = icon_plan("firefox");
    assert!(!t.from_file && t.from_theme);
    let none = icon_plan("");
    assert!(!none.from_file && !none.from_theme);
}

#[test]
fn final_line_keeps_its_carriage_return() {
    let mut index = DpkgIndex::new();
    index.add_list("p", "/usr/share/applications/a.desktop\r\n/usr/share/applications/b.desktop\r");
    assert_eq!(index.package_for("/usr/share/applications/a.desktop").unwrap(), "p");
    assert!(index.package_for("/usr/share/applications/b.desktop").is_none());
    let mut last = DpkgIndex::new();
    last.add_list("q", "/usr/share/applications/c.desktop");
    assert_eq!(last.package_for("/usr/share/applications/c.desktop").unwrap(), "q");
}

#[test]
fn names_that_are_not_utf8_give_empty_package_names() {
    let c = "[Desktop Entry]\nType=Application\nName=Odd\n";
    let idx = DpkgIndex::new();
    let f = parse_desktop_entry("/var/lib/flatpak/exports/share/applications/\u{FFFD}.desktop", false, false, c, &idx).unwrap();
    assert_eq!(f.package_type, PackageType::Flatpak(String::new()));
    let s = parse_desktop_entry("/var/lib/snapd/desktop/applications/x\u{FFFD}_y.desktop", false, false, c, &idx).unwrap();
    assert_eq!(s.package_type, PackageType::Snap(String::new()));
    let d = parse_desktop_entry("/var/lib/\u{FFFD}/flatpak/app.desktop", false, true, c, &idx).unwrap();
    assert_eq!(d.package_type, PackageType::Flatpak("app".into()));
    assert_eq!(dpkg_list_package("/var/lib/dpkg/info/\u{FFFD}.list", false).unwrap(), "");
}

#[test]
fn paths_that_are_not_utf8_are_never_debian_files() {
    let mut index = DpkgIndex::new();
    index.insert("/usr/share/applications/\u{FFFD}.desktop", "weird");
    let c = "[Desktop Entry]\nType=Application\nName=Odd\n";
    let e = parse_desktop_entry("/usr/share/applications/\u{FFFD}.desktop", false, false, c, &index).unwrap();
    assert_eq!(e.package_type, PackageType::Local);
    let t = parse_desktop_entry("/usr/share/applications/\u{FFFD}.desktop", true, true, c, &index).unwrap();
    assert_eq!(t.package_type, PackageType::Deb("weird".into()));
}
