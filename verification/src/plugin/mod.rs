//! Plugins: the launcher's sources of choices, and the messages between the
//! plugin manager and the frontend.

pub mod fuzzy;
pub mod entry;
pub mod manager;
pub mod protocol;
pub mod usage;
pub mod session;
pub mod user;
pub mod application;
pub mod dmenu;
pub mod list;
pub mod table;

use vstd::prelude::*;
use indexmap::IndexMap;
use crate::icon::{icon_path_model, IconPath};
use crate::index_map::string_map_entries;
use crate::ini_parser::Pairs;
use crate::plugin::entry::{DisplayEntry, Label};

verus! {

/// A plugin as the launcher lists it: its name, icon and comment, the
/// prefix that selects it, and its options with their values.
#[derive(Debug)]
pub struct Plugin {
    pub name: String,
    pub icon: Option<IconPath>,
    pub comment: Option<String>,
    pub prefix: String,
    pub config: IndexMap<String, String>,
}

/// A plugin seen as its name, icon (as `icon_path_model`), comment, prefix
/// and options.
pub type PluginModel = (Seq<char>, Option<(bool, bool, Seq<char>)>, Option<Seq<char>>, Seq<char>, Pairs);

/// A plugin seen as its name, icon, comment, prefix and options.
pub open spec fn plugin_view(p: Plugin) -> PluginModel {
    (
        p.name@,
        match p.icon {
            Some(i) => Some(icon_path_model(i)),
            None => None,
        },
        match p.comment {
            Some(c) => Some(c@),
            None => None,
        },
        p.prefix@,
        string_map_entries(p.config),
    )
}

/// A program to run: its path or name, its arguments, and the directory to
/// run it in.
#[derive(Debug)]
pub struct CommandSpec {
    pub program: String,
    pub args: Vec<String>,
    pub current_dir: Option<String>,
}

/// What a plugin asks the launcher to do.
#[derive(Debug)]
pub enum Action {
    /// Nothing.
    Nothing,
    /// Replace the whole input field.
    ChangeInput(String),
    /// Replace the query, keeping the plugin prefix.
    ChangeQuery(String),
    /// Replace the launcher's process with a program.
    Exec(CommandSpec),
    /// Print a line and close.
    PrintAndClose(String),
    /// Close the window and let the plugin go on in its own process.
    Fork,
    /// Wait for the plugin to end, then close.
    WaitAndClose,
}

/// A message from the plugin manager to the frontend.
#[derive(Debug)]
pub enum FrontendAction {
    UpdateEntries { entries: Vec<DisplayEntry>, query: String },
    ChangeInput(String),
    Close,
}

/// A message from the frontend to the plugin manager.
#[derive(Debug)]
pub enum FrontendEvent {
    UpdateInput { input: String, from_user: bool },
    Launch(Option<Label>),
}

} // verus!
