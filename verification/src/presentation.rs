//! What the window shows of the applications: the search filter, the texts
//! of rows and dialogs, and where an application's icon is looked for.
use vstd::prelude::*;

use crate::package::{badge_text, details_text, AppEntry, AppInfo};
use crate::text::{
    chars_of, contains_chars, decimal, has_substring, lowercase, push_decimal,
    string_of, to_lowercase, trim, trim_chars,
};

verus! {

/// Whether an application matches the search text: a text that is blank
/// once lower-cased matches everything; otherwise the lower-cased text must
/// occur in the lower-cased name, comment, badge label or package details.
pub open spec fn search_matches(app: AppInfo, text: Seq<char>) -> bool {
    let q = lowercase(text);
    ||| trim(q).len() == 0
    ||| has_substring(lowercase(app.name), q)
    ||| has_substring(lowercase(app.comment), q)
    ||| has_substring(lowercase(badge_text(app.package)), q)
    ||| has_substring(lowercase(details_text(app.package)), q)
}

fn lower_contains(hay: &str, q: &[char]) -> (r: bool)
    ensures
        r == has_substring(lowercase(hay@), q@),
{
    let low = to_lowercase(hay);
    let h = chars_of(low.as_str());
    contains_chars(h.as_slice(), q)
}

/// Whether `app` matches the search text `text`.
pub fn matches_search(app: &AppEntry, text: &str) -> (r: bool)
    ensures
        r == search_matches(app@, text@),
{
    let low = to_lowercase(text);
    let q = chars_of(low.as_str());
    let t = trim_chars(q.as_slice());
    if t.len() == 0 {
        return true;
    }
    let details = app.package_type.details();
    lower_contains(app.name.as_str(), q.as_slice()) || lower_contains(
        app.comment.as_str(),
        q.as_slice(),
    ) || lower_contains(app.package_type.badge_label(), q.as_slice()) || lower_contains(
        details.as_str(),
        q.as_slice(),
    )
}

/// The line shown under an application's name: its comment, or the package
/// details when it has none.
pub open spec fn subtitle_text(app: AppInfo) -> Seq<char> {
    if app.comment.len() > 0 {
        app.comment
    } else {
        details_text(app.package)
    }
}

/// The line shown under an application's name.
pub fn row_subtitle(app: &AppEntry) -> (r: String)
    ensures
        r@ == subtitle_text(app@),
{
    if !app.comment.as_str().is_empty() {
        app.comment.clone()
    } else {
        app.package_type.details()
    }
}

/// The count shown under the list.
pub open spec fn status_line(count: nat) -> Seq<char> {
    "Applications found: "@ + decimal(count)
}

/// The count shown under the list of `count` applications.
pub fn status_text(count: usize) -> (r: String)
    ensures
        r@ == status_line(count as nat),
{
    let mut v = chars_of("Applications found: ");
    push_decimal(&mut v, count);
    string_of(v.as_slice())
}

/// The question asked before an uninstallation, as markup, for a name that
/// has already been escaped for markup.
pub open spec fn confirm_question(escaped_name: Seq<char>) -> Seq<char> {
    "<b>Are you sure you want to uninstall \""@ + escaped_name + "\"?</b>"@
}

/// The question asked before removing the application whose markup-escaped
/// name is `escaped_name`.
pub fn confirm_markup(escaped_name: &str) -> (r: String)
    ensures
        r@ == confirm_question(escaped_name@),
{
    let mut r = String::from_str("<b>Are you sure you want to uninstall \"");
    r.append(escaped_name);
    r.append("\"?</b>");
    r
}

/// The details shown before an uninstallation: kind, package and path.
pub open spec fn confirm_details_text(app: AppInfo) -> Seq<char> {
    "Type: "@ + badge_text(app.package) + "\n"@ + details_text(app.package) + "\nPath: "@
        + app.desktop_path
}

/// The details shown before removing `app`.
pub fn confirm_details(app: &AppEntry) -> (r: String)
    ensures
        r@ == confirm_details_text(app@),
{
    let mut r = String::from_str("Type: ");
    r.append(app.package_type.badge_label());
    r.append("\n");
    let d = app.package_type.details();
    r.append(d.as_str());
    r.append("\nPath: ");
    r.append(app.desktop_path.as_str());
    r
}

/// The line shown while an application is being removed.
pub open spec fn progress_line(app: AppInfo) -> Seq<char> {
    "Uninstalling '"@ + app.name + "'..."@
}

/// The line shown while `app` is being removed.
pub fn progress_text(app: &AppEntry) -> (r: String)
    ensures
        r@ == progress_line(app@),
{
    let mut r = String::from_str("Uninstalling '");
    r.append(app.name.as_str());
    r.append("'...");
    r
}

/// The title of the dialog that reports how an uninstallation went.
pub fn result_title(success: bool) -> (r: &'static str)
    ensures
        r@ == (if success {
            "Success"@
        } else {
            "Error"@
        }),
{
    if success {
        "Success"
    } else {
        "Error"
    }
}

/// Where an application's icon is looked for, in order: a file when the icon
/// is given by an absolute path, then the icon theme when an icon is given
/// at all; the generic executable icon is the last resort.
pub struct IconPlan {
    pub from_file: bool,
    pub from_theme: bool,
}

/// Where the icon named `icon` is looked for.
pub fn icon_plan(icon: &str) -> (r: IconPlan)
    ensures
        r.from_file == (icon@.len() > 0 && icon@[0] == '/'),
        r.from_theme == (icon@.len() > 0),
{
    let c = chars_of(icon);
    let given = c.len() > 0;
    IconPlan { from_file: given && c[0] == '/', from_theme: given }
}

} // verus!
