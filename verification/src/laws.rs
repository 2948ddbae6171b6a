//! Properties that hold of the library as a whole, each proved from the
//! specifications that its functions meet.
use vstd::prelude::*;

use crate::catalog::{
    arrange, first_listings, goes_before, is_name_order, is_own_entry, name_key, name_keys,
    same_listing, sorted_by_name,
};
use crate::desktop::{desktop_app, entry_fields, is_group_header, read_line, EntryFields};
use crate::package::{badge_class, badge_text, AppInfo, PackageKind};
use crate::path::{components, path_starts_with, same_path};
use crate::presentation::search_matches;
use crate::text::{
    lemma_text_less_asymmetric, lemma_text_less_irreflexive, lowercase, text_less, trim,
};
use crate::uninstall::{outcome_fits, uninstall_plan, uninstall_report, ActionKind, OutcomeKind};

verus! {

// ---------------------------------------------------------------------------
// The list of applications
// ---------------------------------------------------------------------------

proof fn lemma_goes_before_strict(keys: Seq<Seq<char>>, i: int, j: int)
    requires
        goes_before(keys, i, j),
    ensures
        i != j,
        !goes_before(keys, j, i),
{
    lemma_text_less_irreflexive(keys[i]);
    if text_less(keys[i], keys[j]) {
        lemma_text_less_asymmetric(keys[i], keys[j]);
    }
}

proof fn lemma_name_order_no_duplicates(ord: Seq<int>, keys: Seq<Seq<char>>)
    requires
        is_name_order(ord, keys),
    ensures
        ord.no_duplicates(),
{
    assert forall|i: int, j: int|
        0 <= i < ord.len() && 0 <= j < ord.len() && i != j implies ord[i] != ord[j] by {
        if i < j {
            lemma_goes_before_strict(keys, ord[i], ord[j]);
        } else {
            lemma_goes_before_strict(keys, ord[j], ord[i]);
        }
    }
}

/// An order of the applications by name lists every one of them.
pub proof fn lemma_name_order_covers(ord: Seq<int>, keys: Seq<Seq<char>>, k: int)
    requires
        is_name_order(ord, keys),
        0 <= k < keys.len(),
    ensures
        ord.contains(k),
{
    broadcast use vstd::seq_lib::seq_to_set_is_finite;

    lemma_name_order_no_duplicates(ord, keys);
    ord.unique_seq_to_set();
    vstd::set_lib::lemma_int_range(0, keys.len() as int);
    let all = vstd::set_lib::set_int_range(0, keys.len() as int);
    assert(ord.to_set().subset_of(all));
    vstd::set_lib::lemma_subset_equality(ord.to_set(), all);
    assert(all.contains(k));
    assert(ord.to_set().contains(k));
}

proof fn lemma_name_order_agree(o1: Seq<int>, o2: Seq<int>, keys: Seq<Seq<char>>, p: int)
    requires
        is_name_order(o1, keys),
        is_name_order(o2, keys),
        0 <= p < o1.len(),
    ensures
        o1[p] == o2[p],
    decreases p,
{
    assert forall|q: int| 0 <= q < p implies o1[q] == o2[q] by {
        lemma_name_order_agree(o1, o2, keys, q);
    }
    let a = o1[p];
    let b = o2[p];
    if a != b {
        lemma_name_order_covers(o1, keys, b);
        lemma_name_order_covers(o2, keys, a);
        let q1 = choose|q: int| 0 <= q < o1.len() && o1[q] == b;
        let q2 = choose|q: int| 0 <= q < o2.len() && o2[q] == a;
        lemma_name_order_no_duplicates(o1, keys);
        lemma_name_order_no_duplicates(o2, keys);
        if q1 < p {
            assert(o2[q1] == b);
        }
        if q2 < p {
            assert(o1[q2] == a);
        }
        assert(goes_before(keys, o1[p], o1[q1]));
        assert(goes_before(keys, o2[p], o2[q2]));
        lemma_goes_before_strict(keys, a, b);
    }
}

/// Law: the order in which the applications are listed is fully determined:
/// two orders of the same applications by name are the same order.
pub proof fn lemma_name_order_unique(o1: Seq<int>, o2: Seq<int>, keys: Seq<Seq<char>>)
    requires
        is_name_order(o1, keys),
        is_name_order(o2, keys),
    ensures
        o1 == o2,
{
    assert forall|p: int| 0 <= p < o1.len() implies o1[p] == o2[p] by {
        lemma_name_order_agree(o1, o2, keys, p);
    }
    assert(o1 =~= o2);
}

/// Law: sorting by name gives one result for given applications.
pub proof fn lemma_sorted_by_name_unique(r1: Seq<AppInfo>, r2: Seq<AppInfo>, s: Seq<AppInfo>)
    requires
        sorted_by_name(r1, s),
        sorted_by_name(r2, s),
    ensures
        r1 == r2,
{
    let o1 = choose|o: Seq<int>| #[trigger] is_name_order(o, name_keys(s)) && r1 == arrange(s, o);
    let o2 = choose|o: Seq<int>| #[trigger] is_name_order(o, name_keys(s)) && r2 == arrange(s, o);
    lemma_name_order_unique(o1, o2, name_keys(s));
}

/// Law: the listed applications are in order of their lower-case names.
pub proof fn lemma_listing_in_name_order(r: Seq<AppInfo>, s: Seq<AppInfo>, i: int, j: int)
    requires
        sorted_by_name(r, s),
        0 <= i < j < r.len(),
    ensures
        !text_less(name_key(r[j]), name_key(r[i])),
{
    let keys = name_keys(s);
    let o = choose|o: Seq<int>| #[trigger] is_name_order(o, keys) && r == arrange(s, o);
    assert(goes_before(keys, o[i], o[j]));
    assert(name_key(r[i]) == keys[o[i]]);
    assert(name_key(r[j]) == keys[o[j]]);
    lemma_text_less_irreflexive(keys[o[i]]);
    if text_less(keys[o[i]], keys[o[j]]) {
        lemma_text_less_asymmetric(keys[o[i]], keys[o[j]]);
    }
}

/// Law: sorting by name rearranges the applications, losing and adding none.
pub proof fn lemma_sorted_is_rearrangement(r: Seq<AppInfo>, s: Seq<AppInfo>)
    requires
        sorted_by_name(r, s),
    ensures
        r.len() == s.len(),
        forall|j: int| 0 <= j < r.len() ==> s.contains(#[trigger] r[j]),
        forall|i: int| 0 <= i < s.len() ==> r.contains(#[trigger] s[i]),
{
    let keys = name_keys(s);
    let o = choose|o: Seq<int>| #[trigger] is_name_order(o, keys) && r == arrange(s, o);
    assert forall|j: int| 0 <= j < r.len() implies s.contains(#[trigger] r[j]) by {
        assert(r[j] == s[o[j]]);
    }
    assert forall|i: int| 0 <= i < s.len() implies r.contains(#[trigger] s[i]) by {
        lemma_name_order_covers(o, keys, i);
        let j = choose|j: int| 0 <= j < o.len() && o[j] == i;
        assert(r[j] == s[o[j]]);
    }
}

proof fn lemma_first_listings(s: Seq<AppInfo>)
    ensures
        forall|k: int|
            0 <= k < first_listings(s).len() ==> !is_own_entry(#[trigger] first_listings(s)[k].name)
                && exists|i: int| 0 <= i < s.len() && first_listings(s)[k] == s[i],
        forall|a: int, b: int|
            0 <= a < b < first_listings(s).len() ==> !same_listing(
                #[trigger] first_listings(s)[a],
                #[trigger] first_listings(s)[b],
            ),
        forall|i: int|
            0 <= i < s.len() && !is_own_entry(#[trigger] s[i].name) ==> exists|k: int|
                0 <= k < first_listings(s).len() && same_listing(first_listings(s)[k], s[i]),
    decreases s.len(),
{
    if s.len() > 0 {
        let init = s.drop_last();
        lemma_first_listings(init);
        let kept = first_listings(init);
        let e = s.last();
        let fl = first_listings(s);
        assert forall|k: int| 0 <= k < fl.len() implies !is_own_entry(#[trigger] fl[k].name)
            && exists|i: int| 0 <= i < s.len() && fl[k] == s[i] by {
            if k < kept.len() {
                assert(fl[k] == kept[k]);
                let i = choose|i: int| 0 <= i < init.len() && kept[k] == init[i];
                assert(s[i] == init[i]);
            } else {
                assert(fl[k] == s[s.len() - 1]);
            }
        }
        assert forall|i: int|
            0 <= i < s.len() && !is_own_entry(#[trigger] s[i].name) implies exists|k: int|
            0 <= k < fl.len() && same_listing(fl[k], s[i]) by {
            if i < init.len() {
                assert(s[i] == init[i]);
                let k = choose|k: int| 0 <= k < kept.len() && same_listing(kept[k], init[i]);
                assert(fl[k] == kept[k]);
            } else if exists|j: int| 0 <= j < kept.len() && same_listing(#[trigger] kept[j], e) {
                let k = choose|k: int| 0 <= k < kept.len() && same_listing(#[trigger] kept[k], e);
                assert(fl[k] == kept[k]);
            } else {
                assert(fl[kept.len() as int] == e);
            }
        }
    }
}

/// Law: the uninstaller never lists itself.
pub proof fn lemma_catalog_omits_itself(found: Seq<AppInfo>, r: Seq<AppInfo>, j: int)
    requires
        sorted_by_name(r, first_listings(found)),
        0 <= j < r.len(),
    ensures
        !is_own_entry(r[j].name),
{
    let s = first_listings(found);
    lemma_sorted_is_rearrangement(r, s);
    lemma_first_listings(found);
    assert(s.contains(r[j]));
    let i = choose|i: int| 0 <= i < s.len() && s[i] == r[j];
    assert(!is_own_entry(s[i].name));
}

/// Law: no two listed applications have the same name and package.
pub proof fn lemma_catalog_has_no_repeats(found: Seq<AppInfo>, r: Seq<AppInfo>, a: int, b: int)
    requires
        sorted_by_name(r, first_listings(found)),
        0 <= a < b < r.len(),
    ensures
        !same_listing(r[a], r[b]),
{
    let s = first_listings(found);
    let keys = name_keys(s);
    let o = choose|o: Seq<int>| #[trigger] is_name_order(o, keys) && r == arrange(s, o);
    lemma_first_listings(found);
    lemma_name_order_no_duplicates(o, keys);
    assert(r[a] == s[o[a]] && r[b] == s[o[b]]);
    assert(o[a] != o[b]);
    if o[a] < o[b] {
        assert(!same_listing(s[o[a]], s[o[b]]));
    } else {
        assert(!same_listing(s[o[b]], s[o[a]]));
    }
}

/// Law: every application found, other than the uninstaller itself, is
/// listed under its name and package.
pub proof fn lemma_catalog_lists_every_app(found: Seq<AppInfo>, r: Seq<AppInfo>, i: int)
    requires
        sorted_by_name(r, first_listings(found)),
        0 <= i < found.len(),
        !is_own_entry(found[i].name),
    ensures
        exists|j: int| 0 <= j < r.len() && same_listing(r[j], found[i]),
{
    let s = first_listings(found);
    assert(exists|k: int| 0 <= k < s.len() && same_listing(s[k], found[i])) by {
        lemma_first_listings(found);
    }
    let k = choose|k: int| 0 <= k < s.len() && same_listing(s[k], found[i]);
    assert(r.contains(s[k])) by {
        lemma_sorted_is_rearrangement(r, s);
    }
    let j = choose|j: int| 0 <= j < r.len() && r[j] == s[k];
    assert(same_listing(r[j], found[i]));
}

// ---------------------------------------------------------------------------
// Desktop files
// ---------------------------------------------------------------------------

/// Law: outside the `[Desktop Entry]` group, lines other than group headers
/// change nothing.
pub proof fn lemma_other_groups_ignored(f: EntryFields, raw: Seq<char>)
    requires
        !f.in_entry,
        !is_group_header(trim(raw)),
    ensures
        read_line(f, raw) == f,
{
}

/// Law: once a name is read, later lines do not change it.
pub proof fn lemma_first_name_kept(f: EntryFields, raw: Seq<char>)
    requires
        f.name is Some,
    ensures
        read_line(f, raw).name == f.name,
{
}

/// Law: a listed application is an application entry that is not hidden,
/// with a non-empty name.
pub proof fn lemma_listed_entries_are_visible(
    path: Seq<char>,
    path_exact: bool,
    name_exact: bool,
    content: Seq<char>,
    dpkg: Map<Seq<Seq<char>>, Seq<char>>,
)
    requires
        desktop_app(path, path_exact, name_exact, content, dpkg) is Some,
    ensures
        entry_fields(content).is_application,
        !entry_fields(content).no_display,
        desktop_app(path, path_exact, name_exact, content, dpkg).unwrap().name.len() > 0,
        desktop_app(path, path_exact, name_exact, content, dpkg).unwrap().desktop_path == path,
{
}

/// Law: the name of a listed application has no surrounding whitespace.
pub proof fn lemma_listed_names_trimmed(
    path: Seq<char>,
    path_exact: bool,
    name_exact: bool,
    content: Seq<char>,
    dpkg: Map<Seq<Seq<char>>, Seq<char>>,
)
    requires
        desktop_app(path, path_exact, name_exact, content, dpkg) is Some,
    ensures
        trim(desktop_app(path, path_exact, name_exact, content, dpkg).unwrap().name)
            == desktop_app(path, path_exact, name_exact, content, dpkg).unwrap().name,
{
    crate::desktop::lemma_read_names_trimmed(crate::text::split_on(content, '\n'));
}

/// Law: an application is taken for a Debian package only when its desktop
/// file lies in `/usr/share/applications`, its path is UTF-8, and dpkg's
/// index names its package.
pub proof fn lemma_deb_only_from_dpkg(
    path: Seq<char>,
    path_exact: bool,
    name_exact: bool,
    content: Seq<char>,
    dpkg: Map<Seq<Seq<char>>, Seq<char>>,
)
    requires
        desktop_app(path, path_exact, name_exact, content, dpkg) matches Some(a) && a.package is Deb,
    ensures
        "/usr/share/applications"@.is_prefix_of(path),
        path_exact,
        dpkg.contains_key(components(path)),
        desktop_app(path, path_exact, name_exact, content, dpkg).unwrap().package == PackageKind::Deb(
            dpkg[components(path)],
        ),
{
}

// ---------------------------------------------------------------------------
// The dpkg index and paths
// ---------------------------------------------------------------------------

/// Law: looking up a path just recorded gives the package recorded for it,
/// and recording leaves the other paths as they were.
pub proof fn lemma_index_read_after_write(
    m: Map<Seq<Seq<char>>, Seq<char>>,
    path: Seq<char>,
    pkg: Seq<char>,
    other: Seq<char>,
)
    ensures
        m.insert(components(path), pkg).contains_key(components(path)),
        m.insert(components(path), pkg)[components(path)] == pkg,
        !same_path(other, path) ==> (m.insert(components(path), pkg).contains_key(
            components(other),
        ) == m.contains_key(components(other))),
        !same_path(other, path) && m.contains_key(components(other)) ==> m.insert(
            components(path),
            pkg,
        )[components(other)] == m[components(other)],
{
}

/// Law: a path lies under itself.
pub proof fn lemma_path_under_itself(p: Seq<char>)
    ensures
        path_starts_with(p, p),
{
    assert(components(p).subrange(0, components(p).len() as int) =~= components(p));
}

/// Law: lying under a directory is transitive.
pub proof fn lemma_path_under_transitive(a: Seq<char>, b: Seq<char>, c: Seq<char>)
    requires
        path_starts_with(a, b),
        path_starts_with(b, c),
    ensures
        path_starts_with(a, c),
{
    let ca = components(a);
    let cb = components(b);
    let cc = components(c);
    assert forall|i: int| 0 <= i < cc.len() implies cc[i] == ca[i] by {
        assert(cc[i] == cb.subrange(0, cc.len() as int)[i]);
        assert(cb[i] == ca.subrange(0, cb.len() as int)[i]);
    }
    assert(cc =~= ca.subrange(0, cc.len() as int));
}

// ---------------------------------------------------------------------------
// Uninstalling
// ---------------------------------------------------------------------------

/// Law: administrative removals go through Polkit: every command run is
/// `flatpak` (for a Flatpak, which runs as the user) or `pkexec`; a command
/// is given the desktop file only for a local file, through `pkexec`; the
/// desktop file is deleted directly only when it is local and lies under the
/// user's home directory; nothing is done only for a local file that no
/// longer exists.
pub proof fn lemma_uninstall_privileges(app: AppInfo, file_exists: bool, home: Option<Seq<char>>)
    ensures
        uninstall_plan(app, file_exists, home) matches ActionKind::Run(prog, _, with_file) ==> (
        prog == "pkexec"@ || (prog == "flatpak"@ && app.package is Flatpak)) && (with_file ==> (
        prog == "pkexec"@ && app.package is Local)),
        uninstall_plan(app, file_exists, home) is RemoveUserFile ==> (app.package is Local
            && home is Some && path_starts_with(app.desktop_path, home.unwrap())),
        uninstall_plan(app, file_exists, home) is AlreadyGone <==> (app.package is Local
            && !file_exists),
{
}

/// Whether an outcome means that the removal was done.
pub open spec fn outcome_succeeded(action: ActionKind, outcome: OutcomeKind) -> bool {
    match action {
        ActionKind::AlreadyGone => true,
        ActionKind::RemoveUserFile => outcome is Removed,
        ActionKind::Run(_, _, _) => outcome matches OutcomeKind::Exited(ok, _) && ok,
    }
}

/// Law: an uninstallation is reported as successful exactly when its step
/// was done: the command exited successfully, the file was deleted, or
/// there was nothing left to delete.
pub proof fn lemma_report_tells_success(app: AppInfo, action: ActionKind, outcome: OutcomeKind)
    requires
        outcome_fits(action, outcome),
    ensures
        uninstall_report(app, action, outcome).0 == outcome_succeeded(action, outcome),
{
}

// ---------------------------------------------------------------------------
// Presentation
// ---------------------------------------------------------------------------

/// Law: a search text that is blank once lower-cased shows every application.
pub proof fn lemma_blank_search_shows_all(app: AppInfo, text: Seq<char>)
    requires
        trim(lowercase(text)).len() == 0,
    ensures
        search_matches(app, text),
{
}

/// Law: the badges of two kinds of package differ, in label and in style.
pub proof fn lemma_badges_tell_kinds_apart(a: PackageKind, b: PackageKind)
    requires
        !(a is Flatpak && b is Flatpak),
        !(a is Snap && b is Snap),
        !(a is Deb && b is Deb),
        !(a is Local && b is Local),
    ensures
        badge_text(a) != badge_text(b),
        badge_class(a) != badge_class(b),
{
    reveal_strlit("Flatpak");
    reveal_strlit("Snap");
    reveal_strlit("APT / Deb");
    reveal_strlit("Local / File");
    reveal_strlit("badge-flatpak");
    reveal_strlit("badge-snap");
    reveal_strlit("badge-deb");
    reveal_strlit("badge-local");
    assert("Flatpak"@.len() != "Snap"@.len());
    assert("badge-flatpak"@.len() != "badge-snap"@.len());
    assert("Flatpak"@[0] != "APT / Deb"@[0]);
    assert("Flatpak"@[0] != "Local / File"@[0]);
    assert("Snap"@[0] != "APT / Deb"@[0]);
    assert("Snap"@[0] != "Local / File"@[0]);
    assert("APT / Deb"@[0] != "Local / File"@[0]);
    assert("badge-flatpak"@[6] != "badge-deb"@[6]);
    assert("badge-flatpak"@[6] != "badge-local"@[6]);
    assert("badge-snap"@[6] != "badge-deb"@[6]);
    assert("badge-snap"@[6] != "badge-local"@[6]);
    assert("badge-deb"@.len() != "badge-local"@.len());
}

} // verus!
