//! The logic of the EdenExplorer file manager: listing order and loading,
//! selection, name rules, configuration documents, tab and favorite
//! bookkeeping, folder navigation and the item viewer's actions, keyboard
//! shortcuts, window geometry and rendering diagnostics.

pub mod actions;
pub mod config;
pub mod filename;
pub mod listing;
pub mod navigation;
pub mod rendering;
pub mod selection;
pub mod shortcuts;
pub mod sorting;
pub mod text;
pub mod viewer;
pub mod window;
pub mod workspace;
