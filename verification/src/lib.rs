//! Verified core of a terminal Minecraft launcher's content browser:
//! tab navigation, the installed/discovery content lists, provider search
//! paging, the version popup state machine, the instance list, the log
//! viewer and the global focus navigation.

pub mod text;
pub mod keys;
pub mod list;
pub mod model;
pub mod order;
pub mod path;
pub mod search;
pub mod stems;
pub mod stream;
pub mod tabs;
pub mod discovery;
pub mod merge;
pub mod watcher;
pub mod navigation;
pub mod panel;
pub mod time;
pub mod instances;
pub mod logs;
pub mod rows;
pub mod mctext;
pub mod provider_search;
pub mod states;
pub mod install;
