//! Zed-compatible extensions: an extension written for Zed (its
//! `extension.toml`, its `themes/`, `icon_themes/` and `languages/` folders)
//! installs here unchanged.

pub mod manifest;
pub mod store;
pub mod languages;
pub mod lsp;
pub mod themes;

use crate::extension::store::{config_paths, flagged, json_paths, Capabilities, DirListing, InstalledExtension};
use crate::text::{copy_strings, strs};
use vstd::prelude::*;

verus! {

/// What the extensions panel shows of one extension.
pub struct ExtensionSummary {
    pub id: String,
    pub name: String,
    pub version: String,
    pub authors: Vec<String>,
    pub description: String,
    pub capabilities: Capabilities,
}

/// The summary of an installed extension whose folder holds `listing`: its
/// id, its name (the id when the name is blank), version, authors,
/// description and capabilities.
pub open spec fn summary_matches(s: ExtensionSummary, ext: InstalledExtension, listing: DirListing) -> bool {
    let id = ext.manifest.spec_effective_id();
    &&& s.id@ == id
    &&& s.name@ == (if ext.manifest.name@.len() == 0 { id } else { ext.manifest.name@ })
    &&& s.version@ == ext.manifest.version@
    &&& strs(s.authors@) == strs(ext.manifest.authors@)
    &&& s.description@ == ext.manifest.description@
    &&& s.capabilities.themes == (json_paths(strs(listing.theme_entries@)).len() > 0)
    &&& s.capabilities.icon_themes == (json_paths(strs(listing.icon_theme_entries@)).len() > 0)
    &&& s.capabilities.languages == (config_paths(flagged(listing.language_entries@)).len() > 0)
    &&& s.capabilities.grammars == (ext.manifest.grammars@.len() > 0)
    &&& s.capabilities.language_servers == (ext.manifest.language_servers@.len() > 0)
    &&& s.capabilities.wasm == listing.wasm_is_file
}

/// The display summaries of the installed extensions, each given with what
/// its folder holds, in order.
pub fn summaries(installed: &[(InstalledExtension, DirListing)]) -> (r: Vec<ExtensionSummary>)
    ensures
        r@.len() == installed@.len(),
        forall|i: int| 0 <= i < r@.len() ==> summary_matches(#[trigger] r@[i], installed@[i].0, installed@[i].1),
{
    let mut out: Vec<ExtensionSummary> = Vec::new();
    let mut i: usize = 0;
    while i < installed.len()
        invariant
            0 <= i <= installed@.len(),
            out@.len() == i,
            forall|k: int| 0 <= k < i ==> summary_matches(#[trigger] out@[k], installed@[k].0, installed@[k].1),
        decreases installed@.len() - i,
    {
        let ext = &installed[i].0;
        let id = ext.manifest.effective_id();
        let name = if ext.manifest.name.as_str().is_empty() {
            ext.manifest.effective_id()
        } else {
            ext.manifest.name.clone()
        };
        let s = ExtensionSummary {
            id,
            name,
            version: ext.manifest.version.clone(),
            authors: copy_strings(&ext.manifest.authors),
            description: ext.manifest.description.clone(),
            capabilities: ext.capabilities(&installed[i].1),
        };
        out.push(s);
        i = i + 1;
    }
    out
}

} // verus!
pub mod wasm;
