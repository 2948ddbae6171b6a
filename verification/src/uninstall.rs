//! Removing an application: what to run or delete for each kind of package,
//! and what to report once that has been done.
use vstd::prelude::*;

use crate::package::{AppEntry, AppInfo, PackageKind, PackageType};
use crate::path::{path_starts_with, path_under};
use crate::text::{chars_of, strings};

verus! {

/// How an uninstallation went, with a message for the user.
#[derive(Debug, Clone)]
pub struct UninstallResult {
    pub success: bool,
    pub message: String,
}

/// The step that removes an application.
#[derive(Debug, Clone)]
pub enum UninstallAction {
    /// Run `program` with `args`, followed, when `with_file` holds, by the
    /// application's desktop file as one more argument, and wait for it to
    /// finish.
    RunCommand { program: String, args: Vec<String>, with_file: bool },
    /// Delete the application's desktop file, which belongs to the user.
    RemoveUserFile,
    /// Nothing: the desktop file is already gone.
    AlreadyGone,
}

/// What came of an [`UninstallAction`].
#[derive(Debug, Clone)]
pub enum ActionOutcome {
    /// The command ran and ended; `status` describes its exit status.
    Exited { success: bool, status: String },
    /// The command could not be started, for the reason given.
    NotStarted { error: String },
    /// The file was deleted.
    Removed,
    /// The file could not be deleted, for the reason given.
    NotRemoved { error: String },
    /// Nothing was done, the plan being that nothing was needed.
    Skipped,
}

/// The mathematical form of an [`UninstallAction`].
pub enum ActionKind {
    Run(Seq<char>, Seq<Seq<char>>, bool),
    RemoveUserFile,
    AlreadyGone,
}

/// The mathematical form of an [`ActionOutcome`].
pub enum OutcomeKind {
    Exited(bool, Seq<char>),
    NotStarted(Seq<char>),
    Removed,
    NotRemoved(Seq<char>),
    Skipped,
}

impl View for UninstallAction {
    type V = ActionKind;

    open spec fn view(&self) -> ActionKind {
        match self {
            UninstallAction::RunCommand { program, args, with_file } => ActionKind::Run(
                program@,
                strings(args@),
                *with_file,
            ),
            UninstallAction::RemoveUserFile => ActionKind::RemoveUserFile,
            UninstallAction::AlreadyGone => ActionKind::AlreadyGone,
        }
    }
}

impl View for ActionOutcome {
    type V = OutcomeKind;

    open spec fn view(&self) -> OutcomeKind {
        match self {
            ActionOutcome::Exited { success, status } => OutcomeKind::Exited(*success, status@),
            ActionOutcome::NotStarted { error } => OutcomeKind::NotStarted(error@),
            ActionOutcome::Removed => OutcomeKind::Removed,
            ActionOutcome::NotRemoved { error } => OutcomeKind::NotRemoved(error@),
            ActionOutcome::Skipped => OutcomeKind::Skipped,
        }
    }
}

/// The step that removes `app`. Flatpaks are removed with
/// `flatpak uninstall -y <id>`, snaps with `pkexec snap remove <name>` and
/// Debian packages with `pkexec apt-get purge -y <package>`. A local desktop
/// file that is gone needs nothing; one under the user's home directory is
/// deleted directly; any other is deleted with `pkexec rm -f` followed by the
/// file itself.
pub open spec fn uninstall_plan(app: AppInfo, file_exists: bool, home: Option<Seq<char>>) -> ActionKind {
    match app.package {
        PackageKind::Flatpak(id) => ActionKind::Run(
            "flatpak"@,
            seq!["uninstall"@, "-y"@, id],
            false,
        ),
        PackageKind::Snap(name) => ActionKind::Run(
            "pkexec"@,
            seq!["snap"@, "remove"@, name],
            false,
        ),
        PackageKind::Deb(pkg) => ActionKind::Run(
            "pkexec"@,
            seq!["apt-get"@, "purge"@, "-y"@, pkg],
            false,
        ),
        PackageKind::Local => {
            if !file_exists {
                ActionKind::AlreadyGone
            } else if home is Some && path_starts_with(app.desktop_path, home.unwrap()) {
                ActionKind::RemoveUserFile
            } else {
                ActionKind::Run("pkexec"@, seq!["rm"@, "-f"@], true)
            }
        },
    }
}

/// Whether an outcome is one that the action can have.
pub open spec fn outcome_fits(action: ActionKind, outcome: OutcomeKind) -> bool {
    match action {
        ActionKind::Run(_, _, _) => outcome is Exited || outcome is NotStarted,
        ActionKind::RemoveUserFile => outcome is Removed || outcome is NotRemoved,
        ActionKind::AlreadyGone => true,
    }
}

/// The report on removing `app` by `action`, which came to `outcome`: whether
/// it succeeded, and the message shown.
pub open spec fn uninstall_report(app: AppInfo, action: ActionKind, outcome: OutcomeKind) -> (
    bool,
    Seq<char>,
) {
    match action {
        ActionKind::AlreadyGone => (true, "File does not exist anymore."@),
        ActionKind::RemoveUserFile => match outcome {
            OutcomeKind::NotRemoved(e) => (
                false,
                "Failed to delete file "@ + app.desktop_path + ": "@ + e,
            ),
            _ => (true, "Shortcut for '"@ + app.name + "' has been removed."@),
        },
        ActionKind::Run(_, _, _) => match app.package {
            PackageKind::Flatpak(_) => match outcome {
                OutcomeKind::Exited(true, _) => (
                    true,
                    "'"@ + app.name + "' was successfully uninstalled via Flatpak."@,
                ),
                OutcomeKind::Exited(false, s) => (
                    false,
                    "Flatpak returned an error (exit code: "@ + s + ")."@,
                ),
                OutcomeKind::NotStarted(e) => (false, "Failed to run 'flatpak' command: "@ + e),
                _ => (false, seq![]),
            },
            PackageKind::Snap(_) => match outcome {
                OutcomeKind::Exited(true, _) => (
                    true,
                    "Snap package '"@ + app.name + "' was successfully removed."@,
                ),
                OutcomeKind::Exited(false, s) => (
                    false,
                    "Snap removal failed (exit code: "@ + s
                        + "). Authorization might have been canceled."@,
                ),
                OutcomeKind::NotStarted(e) => (false, "Failed to launch pkexec: "@ + e),
                _ => (false, seq![]),
            },
            PackageKind::Deb(pkg) => match outcome {
                OutcomeKind::Exited(true, _) => (
                    true,
                    "System package '"@ + app.name + "' ("@ + pkg + ") was successfully purged."@,
                ),
                OutcomeKind::Exited(false, s) => (
                    false,
                    "APT removal failed (exit code: "@ + s
                        + "). Authorization might have been canceled."@,
                ),
                OutcomeKind::NotStarted(e) => (false, "Failed to run pkexec apt-get: "@ + e),
                _ => (false, seq![]),
            },
            PackageKind::Local => match outcome {
                OutcomeKind::Exited(true, _) => (
                    true,
                    "File '"@ + app.desktop_path + "' has been removed."@,
                ),
                OutcomeKind::Exited(false, s) => (false, "Failed to delete file: "@ + s),
                OutcomeKind::NotStarted(e) => (false, "Failed to launch pkexec: "@ + e),
                _ => (false, seq![]),
            },
        },
    }
}

fn strings_of(parts: &[&str]) -> (r: Vec<String>)
    ensures
        r@.len() == parts@.len(),
        forall|i: int| 0 <= i < parts@.len() ==> #[trigger] r@[i]@ == parts@[i]@,
{
    let mut r: Vec<String> = Vec::new();
    let mut i: usize = 0;
    while i < parts.len()
        invariant
            i <= parts@.len(),
            r@.len() == i,
            forall|k: int| 0 <= k < i ==> #[trigger] r@[k]@ == parts@[k]@,
        decreases parts@.len() - i,
    {
        r.push(String::from_str(parts[i]));
        i += 1;
    }
    r
}

/// The step that removes `app`: `file_exists` tells whether its desktop
/// file exists and `home` is the user's home directory if it is known; both
/// matter only for a local desktop file.
pub fn plan_uninstall(app: &AppEntry, file_exists: bool, home: Option<&str>) -> (r: UninstallAction)
    ensures
        r@ == uninstall_plan(
            app@,
            file_exists,
            match home {
                Some(h) => Some(h@),
                None => None,
            },
        ),
{
    match &app.package_type {
        PackageType::Flatpak(id) => {
            let args = strings_of(&["uninstall", "-y", id.as_str()]);
            let r = UninstallAction::RunCommand {
                program: String::from_str("flatpak"),
                args,
                with_file: false,
            };
            assert(strings(args@) =~= seq!["uninstall"@, "-y"@, id@]);
            r
        },
        PackageType::Snap(name) => {
            let args = strings_of(&["snap", "remove", name.as_str()]);
            let r = UninstallAction::RunCommand {
                program: String::from_str("pkexec"),
                args,
                with_file: false,
            };
            assert(strings(args@) =~= seq!["snap"@, "remove"@, name@]);
            r
        },
        PackageType::Deb(pkg) => {
            let args = strings_of(&["apt-get", "purge", "-y", pkg.as_str()]);
            let r = UninstallAction::RunCommand {
                program: String::from_str("pkexec"),
                args,
                with_file: false,
            };
            assert(strings(args@) =~= seq!["apt-get"@, "purge"@, "-y"@, pkg@]);
            r
        },
        PackageType::Local => {
            if !file_exists {
                return UninstallAction::AlreadyGone;
            }
            match home {
                Some(h) => {
                    let p = chars_of(app.desktop_path.as_str());
                    let b = chars_of(h);
                    if path_under(p.as_slice(), b.as_slice()) {
                        return UninstallAction::RemoveUserFile;
                    }
                },
                None => {},
            }
            let args = strings_of(&["rm", "-f"]);
            let r = UninstallAction::RunCommand {
                program: String::from_str("pkexec"),
                args,
                with_file: true,
            };
            assert(strings(args@) =~= seq!["rm"@, "-f"@]);
            r
        },
    }
}

fn text3(a: &str, b: &str, c: &str) -> (r: String)
    ensures
        r@ == a@ + b@ + c@,
{
    let mut r = String::from_str(a);
    r.append(b);
    r.append(c);
    r
}

fn text2(a: &str, b: &str) -> (r: String)
    ensures
        r@ == a@ + b@,
{
    let mut r = String::from_str(a);
    r.append(b);
    r
}

/// The report on removing `app` by `action`, which came to `outcome`.
pub fn finish_uninstall(app: &AppEntry, action: &UninstallAction, outcome: &ActionOutcome) -> (r:
    UninstallResult)
    requires
        outcome_fits(action@, outcome@),
    ensures
        (r.success, r.message@) == uninstall_report(app@, action@, outcome@),
{
    let name = app.name.as_str();
    let path = app.desktop_path.as_str();
    match action {
        UninstallAction::AlreadyGone => UninstallResult {
            success: true,
            message: String::from_str("File does not exist anymore."),
        },
        UninstallAction::RemoveUserFile => match outcome {
            ActionOutcome::NotRemoved { error } => {
                let mut m = text3("Failed to delete file ", path, ": ");
                m.append(error.as_str());
                UninstallResult { success: false, message: m }
            },
            _ => UninstallResult {
                success: true,
                message: text3("Shortcut for '", name, "' has been removed."),
            },
        },
        UninstallAction::RunCommand { .. } => match &app.package_type {
            PackageType::Flatpak(_) => match outcome {
                ActionOutcome::Exited { success, status } => {
                    if *success {
                        UninstallResult {
                            success: true,
                            message: text3("'", name, "' was successfully uninstalled via Flatpak."),
                        }
                    } else {
                        UninstallResult {
                            success: false,
                            message: text3(
                                "Flatpak returned an error (exit code: ",
                                status.as_str(),
                                ").",
                            ),
                        }
                    }
                },
                ActionOutcome::NotStarted { error } => UninstallResult {
                    success: false,
                    message: text2("Failed to run 'flatpak' command: ", error.as_str()),
                },
                _ => UninstallResult { success: false, message: String::new() },
            },
            PackageType::Snap(_) => match outcome {
                ActionOutcome::Exited { success, status } => {
                    if *success {
                        UninstallResult {
                            success: true,
                            message: text3("Snap package '", name, "' was successfully removed."),
                        }
                    } else {
                        UninstallResult {
                            success: false,
                            message: text3(
                                "Snap removal failed (exit code: ",
                                status.as_str(),
                                "). Authorization might have been canceled.",
                            ),
                        }
                    }
                },
                ActionOutcome::NotStarted { error } => UninstallResult {
                    success: false,
                    message: text2("Failed to launch pkexec: ", error.as_str()),
                },
                _ => UninstallResult { success: false, message: String::new() },
            },
            PackageType::Deb(pkg) => match outcome {
                ActionOutcome::Exited { success, status } => {
                    if *success {
                        let mut m = text3("System package '", name, "' (");
                        m.append(pkg.as_str());
                        m.append(") was successfully purged.");
                        UninstallResult { success: true, message: m }
                    } else {
                        UninstallResult {
                            success: false,
                            message: text3(
                                "APT removal failed (exit code: ",
                                status.as_str(),
                                "). Authorization might have been canceled.",
                            ),
                        }
                    }
                },
                ActionOutcome::NotStarted { error } => UninstallResult {
                    success: false,
                    message: text2("Failed to run pkexec apt-get: ", error.as_str()),
                },
                _ => UninstallResult { success: false, message: String::new() },
            },
            PackageType::Local => match outcome {
                ActionOutcome::Exited { success, status } => {
                    if *success {
                        UninstallResult {
                            success: true,
                            message: text3("File '", path, "' has been removed."),
                        }
                    } else {
                        UninstallResult {
                            success: false,
                            message: text2("Failed to delete file: ", status.as_str()),
                        }
                    }
                },
                ActionOutcome::NotStarted { error } => UninstallResult {
                    success: false,
                    message: text2("Failed to launch pkexec: ", error.as_str()),
                },
                _ => UninstallResult { success: false, message: String::new() },
            },
        },
    }
}

} // verus!
