//! The colors a theme file sets, by key, before they are parsed.

use vstd::prelude::*;

verus! {

/// The colors of a theme file: each color as written under its key (such
/// as `accent.background`), when the theme sets it.
#[derive(Clone, Debug, Default)]
pub struct ThemeConfigColors {
    /// `accent.background`.
    pub accent: Option<String>,
    /// `accent.foreground`.
    pub accent_foreground: Option<String>,
    /// `accordion.background`.
    pub accordion: Option<String>,
    /// `accordion.hover.background`.
    pub accordion_hover: Option<String>,
    /// `background`.
    pub background: Option<String>,
    /// `border`.
    pub border: Option<String>,
    /// `group_box.background`.
    pub group_box: Option<String>,
    /// `group_box.foreground`.
    pub group_box_foreground: Option<String>,
    /// `group_box.title.foreground`.
    pub group_box_title_foreground: Option<String>,
    /// `caret`.
    pub caret: Option<String>,
    /// `chart.1`.
    pub chart_1: Option<String>,
    /// `chart.2`.
    pub chart_2: Option<String>,
    /// `chart.3`.
    pub chart_3: Option<String>,
    /// `chart.4`.
    pub chart_4: Option<String>,
    /// `chart.5`.
    pub chart_5: Option<String>,
    /// `danger.background`.
    pub danger: Option<String>,
    /// `danger.active.background`.
    pub danger_active: Option<String>,
    /// `danger.foreground`.
    pub danger_foreground: Option<String>,
    /// `danger.hover.background`.
    pub danger_hover: Option<String>,
    /// `description_list.label.background`.
    pub description_list_label: Option<String>,
    /// `description_list.label.foreground`.
    pub description_list_label_foreground: Option<String>,
    /// `drag.border`.
    pub drag_border: Option<String>,
    /// `drop_target.background`.
    pub drop_target: Option<String>,
    /// `foreground`.
    pub foreground: Option<String>,
    /// `info.background`.
    pub info: Option<String>,
    /// `info.active.background`.
    pub info_active: Option<String>,
    /// `info.foreground`.
    pub info_foreground: Option<String>,
    /// `info.hover.background`.
    pub info_hover: Option<String>,
    /// `input.border`.
    pub input: Option<String>,
    /// `link`.
    pub link: Option<String>,
    /// `link.active`.
    pub link_active: Option<String>,
    /// `link.hover`.
    pub link_hover: Option<String>,
    /// `list.background`.
    pub list: Option<String>,
    /// `list.active.background`.
    pub list_active: Option<String>,
    /// `list.active.border`.
    pub list_active_border: Option<String>,
    /// `list.even.background`.
    pub list_even: Option<String>,
    /// `list.head.background`.
    pub list_head: Option<String>,
    /// `list.hover.background`.
    pub list_hover: Option<String>,
    /// `muted.background`.
    pub muted: Option<String>,
    /// `muted.foreground`.
    pub muted_foreground: Option<String>,
    /// `popover.background`.
    pub popover: Option<String>,
    /// `popover.foreground`.
    pub popover_foreground: Option<String>,
    /// `primary.background`.
    pub primary: Option<String>,
    /// `primary.active.background`.
    pub primary_active: Option<String>,
    /// `primary.foreground`.
    pub primary_foreground: Option<String>,
    /// `primary.hover.background`.
    pub primary_hover: Option<String>,
    /// `progress.bar.background`.
    pub progress_bar: Option<String>,
    /// `ring`.
    pub ring: Option<String>,
    /// `scrollbar.background`.
    pub scrollbar: Option<String>,
    /// `scrollbar.thumb.background`.
    pub scrollbar_thumb: Option<String>,
    /// `scrollbar.thumb.hover.background`.
    pub scrollbar_thumb_hover: Option<String>,
    /// `secondary.background`.
    pub secondary: Option<String>,
    /// `secondary.active.background`.
    pub secondary_active: Option<String>,
    /// `secondary.foreground`.
    pub secondary_foreground: Option<String>,
    /// `secondary.hover.background`.
    pub secondary_hover: Option<String>,
    /// `selection.background`.
    pub selection: Option<String>,
    /// `sidebar.background`.
    pub sidebar: Option<String>,
    /// `sidebar.accent.background`.
    pub sidebar_accent: Option<String>,
    /// `sidebar.accent.foreground`.
    pub sidebar_accent_foreground: Option<String>,
    /// `sidebar.border`.
    pub sidebar_border: Option<String>,
    /// `sidebar.foreground`.
    pub sidebar_foreground: Option<String>,
    /// `sidebar.primary.background`.
    pub sidebar_primary: Option<String>,
    /// `sidebar.primary.foreground`.
    pub sidebar_primary_foreground: Option<String>,
    /// `skeleton.background`.
    pub skeleton: Option<String>,
    /// `slider.background`.
    pub slider_bar: Option<String>,
    /// `slider.thumb.background`.
    pub slider_thumb: Option<String>,
    /// `success.background`.
    pub success: Option<String>,
    /// `success.foreground`.
    pub success_foreground: Option<String>,
    /// `success.hover.background`.
    pub success_hover: Option<String>,
    /// `success.active.background`.
    pub success_active: Option<String>,
    /// `bullish.background`.
    pub bullish: Option<String>,
    /// `bearish.background`.
    pub bearish: Option<String>,
    /// `switch.background`.
    pub switch: Option<String>,
    /// `switch.thumb.background`.
    pub switch_thumb: Option<String>,
    /// `tab.background`.
    pub tab: Option<String>,
    /// `tab.active.background`.
    pub tab_active: Option<String>,
    /// `tab.active.foreground`.
    pub tab_active_foreground: Option<String>,
    /// `tab_bar.background`.
    pub tab_bar: Option<String>,
    /// `tab_bar.segmented.background`.
    pub tab_bar_segmented: Option<String>,
    /// `tab.foreground`.
    pub tab_foreground: Option<String>,
    /// `table.background`.
    pub table: Option<String>,
    /// `table.active.background`.
    pub table_active: Option<String>,
    /// `table.active.border`.
    pub table_active_border: Option<String>,
    /// `table.even.background`.
    pub table_even: Option<String>,
    /// `table.head.background`.
    pub table_head: Option<String>,
    /// `table.head.foreground`.
    pub table_head_foreground: Option<String>,
    /// `table.hover.background`.
    pub table_hover: Option<String>,
    /// `table.row.border`.
    pub table_row_border: Option<String>,
    /// `title_bar.background`.
    pub title_bar: Option<String>,
    /// `title_bar.border`.
    pub title_bar_border: Option<String>,
    /// `tiles.background`.
    pub tiles: Option<String>,
    /// `warning.background`.
    pub warning: Option<String>,
    /// `warning.active.background`.
    pub warning_active: Option<String>,
    /// `warning.hover.background`.
    pub warning_hover: Option<String>,
    /// `warning.foreground`.
    pub warning_foreground: Option<String>,
    /// `overlay`.
    pub overlay: Option<String>,
    /// `window.border`.
    pub window_border: Option<String>,
    /// `base.blue`.
    pub blue: Option<String>,
    /// `base.blue.light`.
    pub blue_light: Option<String>,
    /// `base.cyan`.
    pub cyan: Option<String>,
    /// `base.cyan.light`.
    pub cyan_light: Option<String>,
    /// `base.green`.
    pub green: Option<String>,
    /// `base.green.light`.
    pub green_light: Option<String>,
    /// `base.magenta`.
    pub magenta: Option<String>,
    /// `base.magenta.light`.
    pub magenta_light: Option<String>,
    /// `base.red`.
    pub red: Option<String>,
    /// `base.red.light`.
    pub red_light: Option<String>,
    /// `base.yellow`.
    pub yellow: Option<String>,
    /// `base.yellow.light`.
    pub yellow_light: Option<String>,
}

} // verus!
