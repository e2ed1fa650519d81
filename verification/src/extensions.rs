//! VS Code extensions installed by the `ezicode-ext` tool:
//!
//! ```text
//! <data>/ezicode/extensions/<publisher>.<name>/   unpacked .vsix + .ezicode.json
//! <data>/ezicode/themes/<publisher>.<name>.json   themes converted at install time
//! ```
//!
//! An extension folder is described by the installer's `.ezicode.json`, or,
//! for a side-loaded folder, by the raw VS Code `package.json`. The fields
//! read from those documents arrive as [`ExtensionMetadata`].

use crate::order::{items_of, keyed_view, sort_keyed, stable_sort_by_key, SortKey};
use crate::paths::{
    extension_of, file_name_of, path_extension, path_file_name, path_join, path_joined, path_sorted,
    sort_paths,
};
use crate::text::{ascii_lower, chars_of, push_all, same_chars, string_of, strs, to_ascii_lower};
use vstd::prelude::*;

verus! {

/// One folder of `<data>/ezicode/extensions/`.
pub struct InstalledExtension {
    pub id: String,
    pub display_name: String,
    pub publisher: String,
    pub version: String,
    pub description: String,
    /// `false` when the user switched it off.
    pub enabled: bool,
    /// Themes or snippets only: runs without the Node extension host.
    pub declarative_only: bool,
    /// Names of the themes it contributed, already converted.
    pub themes: Vec<String>,
    /// `works`, `partial` or `unsupported`, from the install-time report.
    pub compatibility: String,
    pub path: String,
}

/// The fields of an extension's metadata document: each string field when it
/// is present and a string, each flag when it is present and a boolean.
pub struct ExtensionMetadata {
    pub id: Option<String>,
    pub name: Option<String>,
    pub publisher: Option<String>,
    pub display_name: Option<String>,
    pub version: Option<String>,
    pub description: Option<String>,
    pub compatibility: Option<String>,
    pub enabled: Option<bool>,
    pub declarative_only: Option<bool>,
    /// The string items of `themes`, when it is an array.
    pub themes: Option<Vec<String>>,
    /// Whether the document has a `main` entry point.
    pub has_main: bool,
}

/// The mathematical value of an installed extension.
pub struct ExtView {
    pub id: Seq<char>,
    pub display_name: Seq<char>,
    pub publisher: Seq<char>,
    pub version: Seq<char>,
    pub description: Seq<char>,
    pub enabled: bool,
    pub declarative_only: bool,
    pub themes: Seq<Seq<char>>,
    pub compatibility: Seq<char>,
    pub path: Seq<char>,
}

/// The value of an installed extension.
pub open spec fn ext_view(e: InstalledExtension) -> ExtView {
    ExtView {
        id: e.id@,
        display_name: e.display_name@,
        publisher: e.publisher@,
        version: e.version@,
        description: e.description@,
        enabled: e.enabled,
        declarative_only: e.declarative_only,
        themes: strs(e.themes@),
        compatibility: e.compatibility@,
        path: e.path@,
    }
}

/// A string field, or the empty text when it is missing.
pub open spec fn text_field(f: Option<String>) -> Seq<char> {
    match f {
        Some(s) => s@,
        None => Seq::empty(),
    }
}

/// The extension described by the folder `dir`, from its installer metadata
/// when there is some, else from its `package.json`; `None` when there is
/// neither, or when nothing names it and the folder has no name.
pub open spec fn extension_in(
    dir: Seq<char>,
    meta: Option<ExtensionMetadata>,
    manifest: Option<ExtensionMetadata>,
) -> Option<ExtView> {
    let source = if meta is Some { meta } else { manifest };
    match source {
        None => None,
        Some(src) => {
            let name = text_field(src.name);
            let publisher = if text_field(src.publisher).len() == 0 {
                "unknown"@
            } else {
                text_field(src.publisher)
            };
            let id_opt = if text_field(src.id).len() > 0 {
                Some(text_field(src.id))
            } else if name.len() > 0 {
                Some(publisher + "."@ + name)
            } else {
                path_file_name(dir)
            };
            match id_opt {
                None => None,
                Some(id) => Some(
                    ExtView {
                        id,
                        display_name: if text_field(src.display_name).len() > 0 {
                            text_field(src.display_name)
                        } else if name.len() == 0 {
                            id
                        } else {
                            name
                        },
                        publisher,
                        version: text_field(src.version),
                        description: text_field(src.description),
                        enabled: match src.enabled {
                            Some(b) => b,
                            None => true,
                        },
                        declarative_only: match src.declarative_only {
                            Some(b) => b,
                            None => match manifest {
                                Some(m) => !m.has_main,
                                None => true,
                            },
                        },
                        themes: match src.themes {
                            Some(t) => strs(t@),
                            None => Seq::empty(),
                        },
                        compatibility: text_field(src.compatibility),
                        path: dir,
                    },
                ),
            }
        },
    }
}

/// The text of a string field, empty when it is missing.
fn string_field(f: &Option<String>) -> (r: String)
    ensures
        r@ == text_field(*f),
{
    match f {
        Some(s) => s.clone(),
        None => String::new(),
    }
}

/// A copy of a string list.
fn copy_list(v: &Vec<String>) -> (r: Vec<String>)
    ensures
        strs(r@) == strs(v@),
{
    crate::text::copy_strings(v)
}

/// Reads one extension folder from its metadata documents.
pub fn read_extension(
    dir: &str,
    meta: Option<ExtensionMetadata>,
    manifest: Option<ExtensionMetadata>,
) -> (r: Option<InstalledExtension>)
    ensures
        match r {
            Some(e) => extension_in(dir@, meta, manifest) == Some(ext_view(e)),
            None => extension_in(dir@, meta, manifest) is None,
        },
{
    let from_meta = meta.is_some();
    let manifest_has_main: Option<bool> = match &manifest {
        Some(m) => Some(m.has_main),
        None => None,
    };
    let src = if from_meta {
        meta.unwrap()
    } else {
        match manifest {
            Some(m) => m,
            None => return None,
        }
    };
    let name = string_field(&src.name);
    let publisher = {
        let p = string_field(&src.publisher);
        if p.as_str().is_empty() {
            "unknown".to_string()
        } else {
            p
        }
    };
    proof {
        reveal_strlit("unknown");
    }
    let explicit = string_field(&src.id);
    let id = if !explicit.as_str().is_empty() {
        explicit
    } else if !name.as_str().is_empty() {
        let mut cs = chars_of(publisher.as_str());
        cs.push('.');
        push_all(&mut cs, chars_of(name.as_str()).as_slice());
        proof {
            reveal_strlit(".");
            assert(cs@ =~= publisher@ + "."@ + name@);
        }
        string_of(&cs)
    } else {
        match file_name_of(dir) {
            Some(n) => n,
            None => return None,
        }
    };
    let display_name = {
        let d = string_field(&src.display_name);
        if !d.as_str().is_empty() {
            d
        } else if name.as_str().is_empty() {
            id.clone()
        } else {
            name.clone()
        }
    };
    let themes = match &src.themes {
        Some(t) => copy_list(t),
        None => Vec::new(),
    };
    let declarative_only = match src.declarative_only {
        Some(b) => b,
        None => match manifest_has_main {
            Some(h) => !h,
            None => true,
        },
    };
    let enabled = match src.enabled {
        Some(b) => b,
        None => true,
    };
    let ext = InstalledExtension {
        id,
        display_name,
        publisher,
        version: string_field(&src.version),
        description: string_field(&src.description),
        enabled,
        declarative_only,
        themes,
        compatibility: string_field(&src.compatibility),
        path: dir.to_string(),
    };
    assert(ext_view(ext).themes == match src.themes {
        Some(t) => strs(t@),
        None => Seq::<Seq<char>>::empty(),
    });
    Some(ext)
}

impl InstalledExtension {
    /// The line under the name in the sidebar: the id, then the version.
    pub open spec fn spec_subtitle(&self) -> Seq<char> {
        if self.version@.len() == 0 {
            self.id@
        } else {
            self.id@ + "  v"@ + self.version@
        }
    }

    /// Short line shown under the extension name in the sidebar.
    pub fn subtitle(&self) -> (r: String)
        ensures
            r@ == self.spec_subtitle(),
    {
        if self.version.as_str().is_empty() {
            return self.id.clone();
        }
        let mut cs = chars_of(self.id.as_str());
        push_all(&mut cs, chars_of("  v").as_slice());
        push_all(&mut cs, chars_of(self.version.as_str()).as_slice());
        string_of(&cs)
    }
}

/// Where the data directory's inputs come from.
pub struct DataDirEnv {
    /// `EZICODE_DATA_DIR`.
    pub explicit: Option<String>,
    /// Whether the platform is Windows.
    pub windows: bool,
    /// `LOCALAPPDATA`.
    pub local_app_data: Option<String>,
    /// `XDG_DATA_HOME`.
    pub xdg_data_home: Option<String>,
    /// `HOME`.
    pub home: Option<String>,
    /// The system temporary directory.
    pub temp_dir: String,
}

/// `EZICODE_DATA_DIR` when set; otherwise `ezicode` under `%LOCALAPPDATA%`
/// on Windows, `$XDG_DATA_HOME` or `~/.local/share` elsewhere, the
/// temporary directory when none is known.
pub open spec fn spec_data_dir(env: DataDirEnv) -> Seq<char> {
    match env.explicit {
        Some(e) => e@,
        None => {
            let base = if env.windows {
                match env.local_app_data {
                    Some(l) => l@,
                    None => env.temp_dir@,
                }
            } else if env.xdg_data_home is Some {
                env.xdg_data_home->0@
            } else if env.home is Some {
                path_joined(env.home->0@, ".local/share"@)
            } else {
                env.temp_dir@
            };
            path_joined(base, "ezicode"@)
        },
    }
}

/// The directory holding ezicode's data.
pub fn data_dir(env: &DataDirEnv) -> (r: String)
    ensures
        r@ == spec_data_dir(*env),
{
    if let Some(e) = &env.explicit {
        return e.clone();
    }
    let base = if env.windows {
        match &env.local_app_data {
            Some(l) => l.clone(),
            None => env.temp_dir.clone(),
        }
    } else if let Some(x) = &env.xdg_data_home {
        x.clone()
    } else if let Some(h) = &env.home {
        path_join(h.as_str(), ".local/share")
    } else {
        env.temp_dir.clone()
    };
    path_join(base.as_str(), "ezicode")
}

/// Where unpacked extensions live.
pub fn extensions_dir(data_dir: &str) -> (r: String)
    ensures
        r@ == path_joined(data_dir@, "extensions"@),
{
    path_join(data_dir, "extensions")
}

/// Where converted theme families live.
pub fn themes_dir(data_dir: &str) -> (r: String)
    ensures
        r@ == path_joined(data_dir@, "themes"@),
{
    path_join(data_dir, "themes")
}

/// Whether a folder of the extensions directory is read: it has a name and
/// the name does not start with a dot.
pub open spec fn listed_entry(path: Seq<char>) -> bool {
    match path_file_name(path) {
        Some(n) => !(n.len() > 0 && n[0] == '.'),
        None => false,
    }
}

/// Whether the extensions-directory entry `path` is read (hidden folders
/// are skipped).
pub fn is_listed_entry(path: &str) -> (r: bool)
    ensures
        r == listed_entry(path@),
{
    match file_name_of(path) {
        Some(n) => {
            let cs = chars_of(n.as_str());
            !(cs.len() > 0 && cs[0] == '.')
        },
        None => false,
    }
}

/// The store keyed by id.
pub open spec fn id_keyed(s: Seq<InstalledExtension>) -> Seq<(InstalledExtension, (int, Seq<char>))> {
    s.map_values(|e: InstalledExtension| (e, (0int, e.id@)))
}

/// Orders the extensions by id; equal ids keep their order.
pub fn sorted_by_id(exts: Vec<InstalledExtension>) -> (r: Vec<InstalledExtension>)
    ensures
        r@ == items_of(sort_keyed(id_keyed(exts@))),
{
    let ghost all = exts@;
    let total = exts.len();
    let mut rest = exts;
    let mut keyed: Vec<(InstalledExtension, SortKey)> = Vec::new();
    let mut i: usize = 0;
    while rest.len() > 0
        invariant
            all.len() == total,
            all.len() == i + rest@.len(),
            rest@ == all.skip(i as int),
            keyed_view(keyed@) == id_keyed(all).take(i as int),
        decreases rest@.len(),
    {
        let ghost before = rest@;
        let e = rest.remove(0);
        assert(e == all[i as int]) by {
            assert(before[0] == all.skip(i as int)[0]);
        }
        assert(rest@ =~= all.skip(i + 1));
        let key = SortKey { group: 0, text: chars_of(e.id.as_str()) };
        let ghost kb = keyed@;
        keyed.push((e, key));
        proof {
            assert(keyed_view(keyed@) =~= keyed_view(kb).push((e, (0int, e.id@))));
            assert(id_keyed(all).take(i + 1) =~= id_keyed(all).take(i as int).push(id_keyed(all)[i as int]));
        }
        i = i + 1;
    }
    assert(id_keyed(all).take(i as int) =~= id_keyed(all));
    stable_sort_by_key(keyed)
}

/// The entries (each with whether it is a file) that are theme files:
/// files whose extension is `json` in any ASCII case, in order.
pub open spec fn theme_sources(s: Seq<(Seq<char>, bool)>) -> Seq<Seq<char>>
    decreases s.len(),
{
    if s.len() == 0 {
        Seq::empty()
    } else if s.last().1 && (match path_extension(s.last().0) {
        Some(e) => ascii_lower(e) == "json"@,
        None => false,
    }) {
        theme_sources(s.drop_last()).push(s.last().0)
    } else {
        theme_sources(s.drop_last())
    }
}

/// The converted theme files among the entries of the themes directory,
/// in path order.
pub fn user_theme_files(entries: &[(String, bool)]) -> (r: Vec<String>)
    ensures
        strs(r@) == path_sorted(theme_sources(entries@.map_values(|x: (String, bool)| (x.0@, x.1)))),
{
    let ghost es = entries@.map_values(|x: (String, bool)| (x.0@, x.1));
    let json = chars_of("json");
    let mut out: Vec<String> = Vec::new();
    let mut i: usize = 0;
    while i < entries.len()
        invariant
            0 <= i <= entries@.len(),
            es == entries@.map_values(|x: (String, bool)| (x.0@, x.1)),
            json@ == "json"@,
            strs(out@) == theme_sources(es.take(i as int)),
        decreases entries@.len() - i,
    {
        proof {
            assert(es.take(i + 1).drop_last() =~= es.take(i as int));
        }
        let keep = entries[i].1 && match extension_of(entries[i].0.as_str()) {
            Some(e) => same_chars(to_ascii_lower(chars_of(e.as_str()).as_slice()).as_slice(), json.as_slice()),
            None => false,
        };
        if keep {
            let ghost before = out@;
            out.push(entries[i].0.clone());
            proof {
                assert(strs(out@) =~= strs(before).push(es[i as int].0));
            }
        }
        i = i + 1;
    }
    assert(es.take(i as int) =~= es);
    sort_paths(out)
}

} // verus!
