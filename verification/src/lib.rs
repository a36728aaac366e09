//! The rules of a screenshot tray application, stated and proved.
//!
//! The heart of the crate is native file transfer: how a requested path list
//! is made ready for transfer (`paths`), how the list is laid out as the
//! binary file-list payload that both drag-and-drop and the clipboard carry
//! (`file_list`), which questions of the desktop shell a drag source answers
//! and how (`provider`, `drop_source`), when a drag may start and how it ends
//! (`guard`, `outcome`, `drag_drop`), and the steps by which files reach the
//! clipboard (`clipboard`). Around it stand the smaller rules of the
//! application: which files count as screenshots (`watcher`), how thumbnails
//! are kept (`thumbnail`), what the tray icon and its window do (`tray`),
//! which release is newer (`update_checker`) and which language is spoken
//! (`i18n_helpers`).
//!
//! Every function states what it computes over a mathematical model, and the
//! statements are proved. The file system, the desktop shell, the clipboard
//! and the network are not touched from here: a caller gathers what the
//! platform reports, hands it over as plain values, and carries out what is
//! decided. The language module alone calls out, to read the system's locale
//! and to keep the current one.

pub mod clipboard;
pub mod drag_drop;
pub mod drop_source;
pub mod file_list;
pub mod guard;
pub mod i18n_helpers;
pub mod outcome;
pub mod paths;
pub mod provider;
pub mod text;
pub mod thumbnail;
pub mod tray;
pub mod update_checker;
pub mod watcher;
