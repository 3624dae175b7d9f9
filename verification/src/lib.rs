//! The core of a launcher for programs, files, folders and web sites.
//!
//! The launcher keeps entries in groups, shows a group in an order that the user sets by hand and
//! by pinning, finds entries by what is typed, and launches them. It lives in the tray and is
//! called up by a hotkey. This crate holds what it stores, the rules by which it shows, finds,
//! orders, adds and edits entries, and the decisions about its windows. It reads no file and draws
//! nothing: what the system tells it, it takes as plain values, and what is to be done it gives
//! back as plain values.
//!
//! - [`models`], [`config`], [`legacy`]: what is stored, where, and how older settings are brought
//!   up to date.
//! - [`catalog`], [`groups`], [`search`], [`entries`]: orders, groups and their locks, searching, and
//!   what the user does with entries.
//! - [`settings`], [`custom_hotkey`], [`hotkey_mouse_win`]: settings and the hotkey.
//! - [`window`], [`win_extra`], [`edge_auto_hide`]: where the windows stand and when they hide.
//! - [`win_ole_drop`], [`dnd`], [`links`]: dragging in and out.
//! - [`app_launcher`], [`everything_search`], [`favicon`], [`web`], [`path_convert`]: launching,
//!   searching the computer, site icons, addresses and paths.
//! - [`icon_loader`], [`raster`]: icons and pictures.
//! - [`text`], [`utf16`], [`numbers`], [`ordering`], [`lists`], [`paths`]: what the others rest on.
//!
//! What all this comes to is stated and proved apart from how it is done:
//!
//! - [`entry_laws`], [`display_laws`], [`group_laws`], [`search_laws`]: of entries, groups and
//!   searches.
//! - [`launch_laws`], [`action_laws`], [`drop_laws`], [`link_laws`]: of launching, of menus and what
//!   the user is told, and of what is dropped.
//! - [`settings_laws`], [`hotkey_laws`], [`store_laws`]: of settings, the hotkey and what is stored.
//! - [`window_laws`], [`edge_laws`], [`picture_laws`], [`file_laws`]: of windows, pictures and the
//!   search for files.
//! - [`text_laws`], [`unit_laws`]: of texts and numbers.

pub mod action_laws;
pub mod app_launcher;
pub mod catalog;
pub mod config;
pub mod custom_hotkey;
pub mod display_laws;
pub mod dnd;
pub mod drop_laws;
pub mod edge_auto_hide;
pub mod edge_laws;
pub mod entries;
pub mod entry_laws;
pub mod everything_search;
pub mod favicon;
pub mod file_laws;
pub mod group_laws;
pub mod groups;
pub mod hotkey_laws;
pub mod hotkey_mouse_win;
pub mod icon_loader;
pub mod launch_laws;
pub mod legacy;
pub mod link_laws;
pub mod links;
pub mod lists;
pub mod models;
pub mod numbers;
pub mod ordering;
pub mod path_convert;
pub mod paths;
pub mod picture_laws;
pub mod raster;
pub mod search;
pub mod search_laws;
pub mod settings;
pub mod settings_laws;
pub mod store_laws;
pub mod text;
pub mod text_laws;
pub mod unit_laws;
pub mod utf16;
pub mod web;
pub mod win_extra;
pub mod win_ole_drop;
pub mod window;
pub mod window_laws;
