//! Verified core of a code editor: undo history, file-tree model, text
//! outlines, picker state and extension metadata handling.

pub mod text;
pub mod order;
pub mod history;
pub mod paths;
pub mod fs_tree;
pub mod breadcrumbs;
pub mod picker;
pub mod extension;
pub mod extensions;
pub mod actions;
pub mod settings;
pub mod badge;
pub mod collapsible;
pub mod dock;
pub mod form;
pub mod color;
pub mod window_border;
pub mod title_bar;
pub mod linux_desktop;
pub mod gpu;
pub mod workspace;
pub mod terminal;
pub mod app_icon;
pub mod panic_log;
pub mod sidebar;
pub mod tab_bar;
pub mod theme;
pub mod explorer;
pub mod tabs;
pub mod entry_ops;
pub mod goto;
pub mod palette;
pub mod diagnostics;
pub mod git_ops;
pub mod buffer;
pub mod lsp_events;
