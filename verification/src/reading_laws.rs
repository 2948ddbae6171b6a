//! Properties of reading desktop files and dpkg's lists, of the search
//! filter and of file extensions, stated over their inputs and results.
use vstd::prelude::*;

use crate::desktop::{lists_gnome, package_of, shown_in_gnome, EntryFields};
use crate::dpkg::{index_lines, names_desktop_file};
use crate::package::{AppInfo, PackageKind};
use crate::path::{components, extension_of, file_name, has_extension};
use crate::presentation::search_matches;
use crate::text::{
    ascii_fold, eq_ignore_ascii_case, has_substring, lemma_find_first_at, lemma_find_first_none,
    lemma_find_last_at, lowercase, replace_all, split_on, trim,
};

verus! {

// ---------------------------------------------------------------------------
// Desktop lists (OnlyShowIn, NotShowIn)
// ---------------------------------------------------------------------------

/// A word that equals `GNOME` up to ASCII case holds no `;`.
proof fn lemma_gnome_word_has_no_separator(x: Seq<char>)
    requires
        eq_ignore_ascii_case(x, "GNOME"@),
    ensures
        forall|i: int| 0 <= i < x.len() ==> x[i] != ';',
{
    reveal_strlit("GNOME");
    assert forall|i: int| 0 <= i < x.len() implies x[i] != ';' by {
        assert(ascii_fold(x[i]) == ascii_fold("GNOME"@[i]));
        assert(ascii_fold("GNOME"@[i]) >= 101);
    }
}

/// Law: a `;`-separated list names GNOME exactly when its first item is
/// GNOME (up to ASCII case) or the rest of the list names GNOME; a list of
/// one item names GNOME exactly when that item is GNOME.
pub proof fn lemma_gnome_list_items(a: Seq<char>, b: Seq<char>)
    requires
        forall|i: int| 0 <= i < a.len() ==> a[i] != ';',
    ensures
        lists_gnome(a + seq![';'] + b) == (eq_ignore_ascii_case(a, "GNOME"@) || lists_gnome(b)),
        lists_gnome(a) == eq_ignore_ascii_case(a, "GNOME"@),
{
    let s = a + seq![';'] + b;
    assert(s[a.len() as int] == ';');
    assert forall|j: int| 0 <= j < a.len() implies s[j] != ';' by {
        assert(s[j] == a[j]);
    }
    lemma_find_first_at(s, ';', a.len() as int);
    assert(s.take(a.len() as int) =~= a);
    assert(s.skip(a.len() as int + 1) =~= b);
    let ps = split_on(s, ';');
    let pb = split_on(b, ';');
    assert(ps == seq![a] + pb);
    if lists_gnome(s) {
        let k = choose|k: int|
            0 <= k < ps.len() && eq_ignore_ascii_case(#[trigger] split_on(s, ';')[k], "GNOME"@);
        if k > 0 {
            assert(ps[k] == pb[k - 1]);
            assert(eq_ignore_ascii_case(split_on(b, ';')[k - 1], "GNOME"@));
        }
    }
    if eq_ignore_ascii_case(a, "GNOME"@) {
        assert(ps[0] == a);
        assert(eq_ignore_ascii_case(split_on(s, ';')[0], "GNOME"@));
    }
    if lists_gnome(b) {
        let k = choose|k: int|
            0 <= k < pb.len() && eq_ignore_ascii_case(#[trigger] split_on(b, ';')[k], "GNOME"@);
        assert(ps[k + 1] == pb[k]);
        assert(eq_ignore_ascii_case(split_on(s, ';')[k + 1], "GNOME"@));
    }
    lemma_find_first_none(a, ';');
    assert(split_on(a, ';') == seq![a]);
    if lists_gnome(a) {
        let k = choose|k: int|
            0 <= k < split_on(a, ';').len() && eq_ignore_ascii_case(
                #[trigger] split_on(a, ';')[k],
                "GNOME"@,
            );
        assert(k == 0);
    }
    if eq_ignore_ascii_case(a, "GNOME"@) {
        assert(eq_ignore_ascii_case(split_on(a, ';')[0], "GNOME"@));
    }
}

/// Law: a list whose first item is GNOME (in any ASCII case) names GNOME,
/// whatever follows it.
pub proof fn lemma_gnome_first_item(x: Seq<char>, rest: Seq<char>)
    requires
        eq_ignore_ascii_case(x, "GNOME"@),
    ensures
        lists_gnome(x),
        lists_gnome(x + seq![';'] + rest),
{
    lemma_gnome_word_has_no_separator(x);
    lemma_gnome_list_items(x, rest);
}

/// Law: a visible application entry whose OnlyShowIn list starts with GNOME
/// is shown, and one whose NotShowIn list starts with GNOME is not.
pub proof fn lemma_show_in_lists_starting_with_gnome(
    f: EntryFields,
    x: Seq<char>,
    rest: Seq<char>,
)
    requires
        f.is_application,
        !f.no_display,
        eq_ignore_ascii_case(x, "GNOME"@),
    ensures
        f.not_show_in is None && f.only_show_in == Some(x + seq![';'] + rest) ==> shown_in_gnome(f),
        f.not_show_in is None && f.only_show_in == Some(x) ==> shown_in_gnome(f),
        f.not_show_in == Some(x + seq![';'] + rest) ==> !shown_in_gnome(f),
        f.not_show_in == Some(x) ==> !shown_in_gnome(f),
{
    lemma_gnome_first_item(x, rest);
}

// ---------------------------------------------------------------------------
// Snap names
// ---------------------------------------------------------------------------

/// Replacing a pattern by a text that lacks `c` in a text that lacks `c`
/// gives a text that lacks `c`.
proof fn lemma_replace_keeps_absent(s: Seq<char>, p: Seq<char>, w: Seq<char>, c: char)
    requires
        forall|i: int| 0 <= i < s.len() ==> s[i] != c,
        forall|i: int| 0 <= i < w.len() ==> w[i] != c,
    ensures
        forall|i: int| 0 <= i < replace_all(s, p, w).len() ==> replace_all(s, p, w)[i] != c,
    decreases s.len(),
{
    if s.len() == 0 {
    } else if p.len() > 0 && p.is_prefix_of(s) {
        let t = s.skip(p.len() as int);
        assert forall|i: int| 0 <= i < t.len() implies t[i] != c by {
            assert(t[i] == s[i + p.len()]);
        }
        lemma_replace_keeps_absent(t, p, w, c);
        let r = replace_all(s, p, w);
        assert forall|i: int| 0 <= i < r.len() implies r[i] != c by {
            if i >= w.len() {
                assert(r[i] == replace_all(t, p, w)[i - w.len()]);
            }
        }
    } else {
        let t = s.drop_first();
        lemma_replace_keeps_absent(t, p, w, c);
        let r = replace_all(s, p, w);
        assert forall|i: int| 0 <= i < r.len() implies r[i] != c by {
            if i >= 1 {
                assert(r[i] == replace_all(t, p, w)[i - 1]);
            }
        }
    }
}

/// Law: a snap desktop file known by its path alone (no X-Flatpak or
/// X-SnapInstanceName key, `/snap/` or `snapd` in the path, no `flatpak`)
/// belongs to the snap named by its file name's text before the first `_`,
/// with `.desktop` removed; that name holds no `_`.
pub proof fn lemma_snap_named_before_first_underscore(
    path: Seq<char>,
    f: EntryFields,
    dpkg: Map<Seq<Seq<char>>, Seq<char>>,
    a: Seq<char>,
    b: Seq<char>,
)
    requires
        f.flatpak_id is None,
        f.snap_name is None,
        !has_substring(path, "flatpak"@),
        has_substring(path, "/snap/"@) || has_substring(path, "snapd"@),
        file_name(path) == a + seq!['_'] + b,
        forall|i: int| 0 <= i < a.len() ==> a[i] != '_',
    ensures
        package_of(path, true, true, f, dpkg) == PackageKind::Snap(
            replace_all(a, ".desktop"@, seq![]),
        ),
        forall|i: int|
            0 <= i < replace_all(a, ".desktop"@, seq![]).len() ==> replace_all(
                a,
                ".desktop"@,
                seq![],
            )[i] != '_',
{
    let n = a + seq!['_'] + b;
    assert(n[a.len() as int] == '_');
    assert forall|j: int| 0 <= j < a.len() implies n[j] != '_' by {
        assert(n[j] == a[j]);
    }
    lemma_find_first_at(n, '_', a.len() as int);
    assert(n.take(a.len() as int) =~= a);
    lemma_replace_keeps_absent(a, ".desktop"@, seq![], '_');
}

// ---------------------------------------------------------------------------
// dpkg's lists
// ---------------------------------------------------------------------------

/// Law: after the lines of a package's list are read, every line that ends
/// in `.desktop` maps, trimmed and by its components, to that package; any
/// other path keeps what the index held for it before.
pub proof fn lemma_list_indexes_every_desktop_line(
    m: Map<Seq<Seq<char>>, Seq<char>>,
    lines: Seq<Seq<char>>,
    pkg: Seq<char>,
)
    ensures
        forall|j: int|
            0 <= j < lines.len() && names_desktop_file(#[trigger] lines[j]) ==> index_lines(
                m,
                lines,
                pkg,
            ).contains_key(components(trim(lines[j]))) && index_lines(m, lines, pkg)[components(
                trim(lines[j]),
            )] == pkg,
        forall|k: Seq<Seq<char>>|
            (forall|j: int|
                0 <= j < lines.len() && names_desktop_file(#[trigger] lines[j]) ==> components(
                    trim(lines[j]),
                ) != k) ==> (#[trigger] index_lines(m, lines, pkg).contains_key(k)
                == m.contains_key(k) && (m.contains_key(k) ==> index_lines(m, lines, pkg)[k]
                == m[k])),
    decreases lines.len(),
{
    if lines.len() > 0 {
        let init = lines.drop_last();
        lemma_list_indexes_every_desktop_line(m, init, pkg);
        let r = index_lines(m, lines, pkg);
        assert forall|j: int|
            0 <= j < lines.len() && names_desktop_file(#[trigger] lines[j]) implies r.contains_key(
            components(trim(lines[j])),
        ) && r[components(trim(lines[j]))] == pkg by {
            if j < lines.len() - 1 {
                assert(lines[j] == init[j]);
            }
        }
        assert forall|k: Seq<Seq<char>>|
            (forall|j: int|
                0 <= j < lines.len() && names_desktop_file(#[trigger] lines[j]) ==> components(
                    trim(lines[j]),
                ) != k) implies (#[trigger] index_lines(m, lines, pkg).contains_key(k)
            == m.contains_key(k) && (m.contains_key(k) ==> index_lines(m, lines, pkg)[k]
            == m[k])) by {
            assert forall|j: int|
                0 <= j < init.len() && names_desktop_file(#[trigger] init[j]) implies components(
                trim(init[j]),
            ) != k by {
                assert(init[j] == lines[j]);
            }
            let before = index_lines(m, init, pkg);
            assert(before.contains_key(k) == m.contains_key(k));
            assert(m.contains_key(k) ==> before[k] == m[k]);
            if names_desktop_file(lines.last()) {
                assert(components(trim(lines[lines.len() - 1])) != k);
                assert(r == before.insert(components(trim(lines.last())), pkg));
            } else {
                assert(r == before);
            }
        }
    }
}

// ---------------------------------------------------------------------------
// Search
// ---------------------------------------------------------------------------

/// Law: the search ignores case in the name, comment, badge and details:
/// whenever the lower-cased search text occurs in the lower-cased name or
/// comment, the application matches.
pub proof fn lemma_search_finds_by_lowercase(app: AppInfo, text: Seq<char>)
    ensures
        has_substring(lowercase(app.name), lowercase(text)) ==> search_matches(app, text),
        has_substring(lowercase(app.comment), lowercase(text)) ==> search_matches(app, text),
{
}

/// Law: whether an application matches does not change when the letters of
/// its name or comment change case (any change that keeps their lower-case
/// forms).
pub proof fn lemma_search_case_blind(a: AppInfo, b: AppInfo, text: Seq<char>)
    requires
        lowercase(a.name) == lowercase(b.name),
        lowercase(a.comment) == lowercase(b.comment),
        a.package == b.package,
    ensures
        search_matches(a, text) == search_matches(b, text),
{
}

// ---------------------------------------------------------------------------
// Extensions
// ---------------------------------------------------------------------------

/// Law: the extension of a file name is the text after its last dot: for a
/// non-empty `s` and an `e` without a dot, the extension of `s.e` is `e`.
pub proof fn lemma_extension_after_last_dot(s: Seq<char>, e: Seq<char>)
    requires
        s.len() > 0,
        forall|i: int| 0 <= i < e.len() ==> e[i] != '.',
    ensures
        extension_of(s + seq!['.'] + e) == Some(e),
{
    let n = s + seq!['.'] + e;
    assert(n[s.len() as int] == '.');
    assert forall|j: int| s.len() < j < n.len() implies n[j] != '.' by {
        assert(n[j] == e[j - s.len() - 1]);
    }
    lemma_find_last_at(n, '.', s.len() as int);
    assert(n.skip(s.len() as int + 1) =~= e);
}

/// Law: a file named `X.desktop`, with `X` not empty, is a desktop file,
/// whatever dots `X` holds.
pub proof fn lemma_named_desktop_files_are_desktop_files(path: Seq<char>, x: Seq<char>)
    requires
        x.len() > 0,
        file_name(path) == x + seq!['.'] + "desktop"@,
    ensures
        has_extension(path, "desktop"@),
{
    reveal_strlit("desktop");
    lemma_extension_after_last_dot(x, "desktop"@);
}

} // verus!
