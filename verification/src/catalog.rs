//! The list of installed applications: where desktop files are looked for,
//! which of them are kept, and the order they are shown in.
use vstd::prelude::*;

use crate::package::{infos, AppEntry, AppInfo, PackageType};
use crate::path::{has_extension, path_has_extension};
use crate::text::{
    chars_eq, chars_less, chars_of, lemma_text_less_total, lemma_text_less_transitive, lowercase,
    strings, text_less, to_lowercase,
};

verus! {

/// The directories searched for desktop files, in order: the user's own
/// application and Flatpak directories when the home directory is known,
/// then the system Flatpak, Snap and application directories.
pub open spec fn search_dir_list(home: Option<Seq<char>>) -> Seq<Seq<char>> {
    let fixed = seq![
        "/var/lib/flatpak/exports/share/applications"@,
        "/var/lib/snapd/desktop/applications"@,
        "/usr/share/applications"@,
    ];
    match home {
        Some(h) => seq![
            h + "/.local/share/applications"@,
            h + "/.local/share/flatpak/exports/share/applications"@,
        ] + fixed,
        None => fixed,
    }
}

/// The directories to search, given the home directory if it is known.
pub fn search_dirs(home: Option<&str>) -> (r: Vec<String>)
    ensures
        strings(r@) == search_dir_list(
            match home {
                Some(h) => Some(h@),
                None => None,
            },
        ),
{
    let mut r: Vec<String> = Vec::new();
    match home {
        Some(h) => {
            let mut a = String::from_str(h);
            a.append("/.local/share/applications");
            r.push(a);
            let mut b = String::from_str(h);
            b.append("/.local/share/flatpak/exports/share/applications");
            r.push(b);
        },
        None => {},
    }
    r.push(String::from_str("/var/lib/flatpak/exports/share/applications"));
    r.push(String::from_str("/var/lib/snapd/desktop/applications"));
    r.push(String::from_str("/usr/share/applications"));
    assert(strings(r@) =~= search_dir_list(
        match home {
            Some(h) => Some(h@),
            None => None,
        },
    ));
    r
}

/// Whether the file at `path` is a desktop file (its extension is `desktop`).
pub fn is_desktop_file(path: &str) -> (r: bool)
    ensures
        r == has_extension(path@, "desktop"@),
{
    let p = chars_of(path);
    let ext = chars_of("desktop");
    path_has_extension(p.as_slice(), ext.as_slice())
}

/// Whether an application is the uninstaller itself, which never lists itself.
pub open spec fn is_own_entry(name: Seq<char>) -> bool {
    ||| name == "luninstaller"@
    ||| name == "Application Uninstaller"@
    ||| name == "Удаление программ"@
}

/// Whether two applications have the same name and the same package.
pub open spec fn same_listing(a: AppInfo, b: AppInfo) -> bool {
    a.name == b.name && a.package == b.package
}

/// The applications found, in the order found, without the uninstaller
/// itself and without any that has the name and package of one before it.
pub open spec fn first_listings(s: Seq<AppInfo>) -> Seq<AppInfo>
    decreases s.len(),
{
    if s.len() == 0 {
        seq![]
    } else {
        let kept = first_listings(s.drop_last());
        let e = s.last();
        if is_own_entry(e.name) || exists|j: int|
            0 <= j < kept.len() && same_listing(#[trigger] kept[j], e) {
            kept
        } else {
            kept.push(e)
        }
    }
}

/// Whether the application named `name` is the uninstaller itself.
pub fn is_own_app(name: &str) -> (r: bool)
    ensures
        r == is_own_entry(name@),
{
    let n = chars_of(name);
    chars_eq(n.as_slice(), chars_of("luninstaller").as_slice()) || chars_eq(
        n.as_slice(),
        chars_of("Application Uninstaller").as_slice(),
    ) || chars_eq(n.as_slice(), chars_of("Удаление программ").as_slice())
}

fn same_string(a: &String, b: &String) -> (r: bool)
    ensures
        r == (a@ == b@),
{
    a.eq(b)
}

/// Whether two package types are the same.
pub fn same_package(a: &PackageType, b: &PackageType) -> (r: bool)
    ensures
        r == (a@ == b@),
{
    match (a, b) {
        (PackageType::Flatpak(x), PackageType::Flatpak(y)) => same_string(x, y),
        (PackageType::Snap(x), PackageType::Snap(y)) => same_string(x, y),
        (PackageType::Deb(x), PackageType::Deb(y)) => same_string(x, y),
        (PackageType::Local, PackageType::Local) => true,
        _ => false,
    }
}

/// Whether two applications have the same name and the same package.
pub fn same_app_listing(a: &AppEntry, b: &AppEntry) -> (r: bool)
    ensures
        r == same_listing(a@, b@),
{
    same_string(&a.name, &b.name) && same_package(&a.package_type, &b.package_type)
}

/// The applications found without the uninstaller itself and without
/// repeats of a name with a package, the first one found being kept.
pub fn keep_first_listings(found: &Vec<AppEntry>) -> (r: Vec<AppEntry>)
    ensures
        infos(r@) == first_listings(infos(found@)),
{
    let mut kept: Vec<AppEntry> = Vec::new();
    let mut i: usize = 0;
    proof {
        assert(infos(found@).take(0) =~= Seq::<AppInfo>::empty());
        assert(infos(kept@) =~= Seq::<AppInfo>::empty());
    }
    while i < found.len()
        invariant
            i <= found@.len(),
            infos(kept@) == first_listings(infos(found@).take(i as int)),
        decreases found@.len() - i,
    {
        let e = &found[i];
        let ghost taken = infos(found@).take(i + 1);
        proof {
            assert(taken.drop_last() =~= infos(found@).take(i as int));
            assert(taken.last() == e@);
        }
        if !is_own_app(e.name.as_str()) {
            let mut seen = false;
            let mut j: usize = 0;
            while j < kept.len()
                invariant
                    j <= kept@.len(),
                    seen == exists|m: int| 0 <= m < j && same_listing(#[trigger] infos(kept@)[m], e@),
                decreases kept@.len() - j,
            {
                let b = same_app_listing(&kept[j], e);
                proof {
                    assert(infos(kept@)[j as int] == kept@[j as int]@);
                    if seen || b {
                        if b {
                            assert(same_listing(infos(kept@)[j as int], e@));
                        }
                    } else {
                        assert forall|m: int| 0 <= m < j + 1 implies !same_listing(
                            #[trigger] infos(kept@)[m],
                            e@,
                        ) by {
                            if m == j {
                            }
                        }
                    }
                }
                seen = seen || b;
                j += 1;
            }
            if !seen {
                let ghost before = infos(kept@);
                kept.push(e.duplicate());
                assert(infos(kept@) =~= before.push(e@));
            }
        }
        i += 1;
    }
    proof {
        assert(infos(found@).take(found@.len() as int) =~= infos(found@));
    }
    kept
}

// ---------------------------------------------------------------------------
// Ordering by name
// ---------------------------------------------------------------------------

/// What applications are ordered by: the lower-case form of the name.
pub open spec fn name_key(e: AppInfo) -> Seq<char> {
    lowercase(e.name)
}

/// Whether the application at index `i` comes before the one at index `j`:
/// its key is smaller, or the keys are equal and it was found first.
pub open spec fn goes_before(keys: Seq<Seq<char>>, i: int, j: int) -> bool {
    text_less(keys[i], keys[j]) || (keys[i] == keys[j] && i < j)
}

/// Whether `ord` lists every index of `keys` once, ordered by `goes_before`.
pub open spec fn is_name_order(ord: Seq<int>, keys: Seq<Seq<char>>) -> bool {
    &&& ord.len() == keys.len()
    &&& forall|p: int| 0 <= p < ord.len() ==> 0 <= #[trigger] ord[p] < keys.len()
    &&& forall|p: int, q: int|
        0 <= p < q < ord.len() ==> goes_before(keys, #[trigger] ord[p], #[trigger] ord[q])
}

/// Whether `r` is `s` sorted by the lower-case names, applications with the
/// same key staying in the order they had (a stable sort).
pub open spec fn sorted_by_name(r: Seq<AppInfo>, s: Seq<AppInfo>) -> bool {
    exists|ord: Seq<int>| #[trigger] is_name_order(ord, name_keys(s)) && r == arrange(s, ord)
}

/// The keys of a sequence of applications.
pub open spec fn name_keys(s: Seq<AppInfo>) -> Seq<Seq<char>> {
    s.map_values(|e: AppInfo| name_key(e))
}

/// The applications of `s` at the indices `ord`, in that order.
pub open spec fn arrange(s: Seq<AppInfo>, ord: Seq<int>) -> Seq<AppInfo> {
    ord.map_values(|p: int| s[p])
}

/// Sorts `entries` by their lower-case names, keeping the order of those
/// with equal names.
pub fn sort_by_name(entries: &Vec<AppEntry>) -> (r: Vec<AppEntry>)
    ensures
        sorted_by_name(infos(r@), infos(entries@)),
{
    let n = entries.len();
    let ghost s = infos(entries@);
    let ghost skeys = name_keys(s);
    let mut keys: Vec<Vec<char>> = Vec::new();
    let mut i: usize = 0;
    while i < n
        invariant
            n == entries@.len(),
            s == infos(entries@),
            skeys == name_keys(s),
            i <= n,
            keys@.len() == i,
            forall|k: int| 0 <= k < i ==> #[trigger] keys@[k]@ == skeys[k],
        decreases n - i,
    {
        let low = to_lowercase(entries[i].name.as_str());
        keys.push(chars_of(low.as_str()));
        i += 1;
    }
    // insertion of the indices, one at a time, into the order
    let mut order: Vec<usize> = Vec::new();
    let mut i: usize = 0;
    while i < n
        invariant
            n == entries@.len() == keys@.len() == skeys.len(),
            forall|k: int| 0 <= k < n ==> #[trigger] keys@[k]@ == skeys[k],
            i <= n,
            order@.len() == i,
            forall|p: int| 0 <= p < i ==> #[trigger] order@[p] < i,
            forall|p: int, q: int|
                0 <= p < q < i ==> goes_before(
                    skeys,
                    #[trigger] order@[p] as int,
                    #[trigger] order@[q] as int,
                ),
        decreases n - i,
    {
        let mut pos: usize = 0;
        while pos < order.len() && !chars_less(keys[i].as_slice(), keys[order[pos]].as_slice())
            invariant
                n == keys@.len() == skeys.len(),
                forall|k: int| 0 <= k < n ==> #[trigger] keys@[k]@ == skeys[k],
                i < n,
                order@.len() == i,
                forall|p: int| 0 <= p < i ==> #[trigger] order@[p] < i,
                pos <= i,
                forall|q: int| 0 <= q < pos ==> !text_less(skeys[i as int], skeys[#[trigger] order@[q] as int]),
            decreases i - pos,
        {
            pos += 1;
        }
        let ghost old_order = order@;
        proof {
            assert(pos < i ==> text_less(skeys[i as int], skeys[old_order[pos as int] as int]));
        }
        order.insert(pos, i);
        proof {
            let o = order@;
            assert forall|p: int| 0 <= p < i + 1 implies #[trigger] o[p] < i + 1 by {
                if p < pos {
                    assert(o[p] == old_order[p]);
                } else if p > pos {
                    assert(o[p] == old_order[p - 1]);
                }
            }
            assert forall|p: int, q: int| 0 <= p < q < i + 1 implies goes_before(
                skeys,
                #[trigger] o[p] as int,
                #[trigger] o[q] as int,
            ) by {
                let a = o[p] as int;
                let b = o[q] as int;
                if p < pos && q < pos {
                    assert(o[p] == old_order[p] && o[q] == old_order[q]);
                } else if p > pos && q > pos {
                    assert(o[p] == old_order[p - 1] && o[q] == old_order[q - 1]);
                } else if p < pos && q > pos {
                    assert(o[p] == old_order[p] && o[q] == old_order[q - 1]);
                } else if p == pos {
                    // the new index before an old one at or after `pos`
                    assert(o[q] == old_order[q - 1]);
                    let c = old_order[pos as int] as int;
                    assert(text_less(skeys[i as int], skeys[c]));
                    if q - 1 > pos {
                        assert(goes_before(skeys, c, b));
                        if text_less(skeys[c], skeys[b]) {
                            lemma_text_less_transitive(skeys[i as int], skeys[c], skeys[b]);
                        }
                    }
                } else {
                    // an old index before `pos`, then the new index
                    assert(q == pos);
                    assert(o[p] == old_order[p]);
                    assert(!text_less(skeys[i as int], skeys[a]));
                    lemma_text_less_total(skeys[i as int], skeys[a]);
                }
            }
        }
        i += 1;
    }
    // build the sorted list
    let ghost ord = order@.map_values(|x: usize| x as int);
    let mut r: Vec<AppEntry> = Vec::new();
    let mut p: usize = 0;
    proof {
        assert(infos(r@) =~= ord.take(0).map_values(|k: int| s[k]));
    }
    while p < n
        invariant
            n == entries@.len() == order@.len(),
            s == infos(entries@),
            ord == order@.map_values(|x: usize| x as int),
            forall|q: int| 0 <= q < n ==> #[trigger] order@[q] < n,
            p <= n,
            infos(r@) == ord.take(p as int).map_values(|k: int| s[k]),
        decreases n - p,
    {
        let ghost before = infos(r@);
        r.push(entries[order[p]].duplicate());
        proof {
            assert(ord[p as int] == order@[p as int] as int);
            assert(s[ord[p as int]] == entries@[order@[p as int] as int]@);
            assert(ord.take(p + 1) =~= ord.take(p as int).push(ord[p as int]));
            assert(ord.take(p + 1).map_values(|k: int| s[k]) =~= ord.take(p as int).map_values(
                |k: int| s[k],
            ).push(s[ord[p as int]]));
            assert(infos(r@) =~= ord.take(p + 1).map_values(|k: int| s[k]));
        }
        p += 1;
    }
    proof {
        assert(ord.take(n as int) =~= ord);
        assert(is_name_order(ord, skeys));
        assert(infos(r@) == arrange(s, ord));
    }
    r
}

/// The applications to list, from those found in the order found: without
/// the uninstaller itself, without repeats of a name with a package, and
/// sorted by lower-case name.
pub fn build_catalog(found: &Vec<AppEntry>) -> (r: Vec<AppEntry>)
    ensures
        sorted_by_name(infos(r@), first_listings(infos(found@))),
{
    let kept = keep_first_listings(found);
    sort_by_name(&kept)
}

} // verus!
