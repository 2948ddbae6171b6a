//! A verified core for a GNOME application uninstaller: it reads desktop
//! entry files and dpkg's file lists, decides which applications the menu
//! shows and how each was installed (Flatpak, Snap, Debian package or a local
//! file), orders and filters the list, and plans and reports the removal of
//! an application.
pub mod text;
pub mod path;
pub mod package;
pub mod dpkg;
pub mod desktop;
pub mod catalog;
pub mod uninstall;
pub mod presentation;
pub mod laws;
pub mod reading_laws;
