//! The on-disk extension store:
//!
//! ```text
//! <config>/extensions/
//!     installed/
//!         <extension-id>/
//!             extension.toml
//!             themes/*.json
//!             icon_themes/*.json
//!             languages/<lang>/config.toml
//!             extension.wasm
//! ```
//!
//! What is read from the disk is handed in as listings; the decisions made
//! on them (which files count, which capabilities an extension has, where
//! it installs, how the store is ordered) are made here.

use crate::extension::manifest::ExtensionManifest;
use crate::order::{items_of, sort_keyed, stable_sort_by_key, SortKey, keyed_view};
use crate::paths::{extension_of, path_extension, path_join, path_joined, path_sorted, sort_paths};
use crate::text::{
    strs, is_ws, lemma_trim_clean, lemma_trim_idempotent, lemma_trim_of_clean,
    chars_of, same_chars, contains_char, contains_seq, contains_seq_exec, has_prefix, has_suffix, push_all,
    starts_with, ends_with, string_of, to_lowercase, trim, trim_chars, unicode_lower,
};
use vstd::prelude::*;

verus! {

/// `<config>/extensions`: the directory that holds all extension state.
pub fn extensions_root(config_dir: &str) -> (r: String)
    ensures
        r@ == path_joined(config_dir@, "extensions"@),
{
    path_join(config_dir, "extensions")
}

/// `<config>/extensions/installed`: one folder per installed extension.
pub fn installed_dir(config_dir: &str) -> (r: String)
    ensures
        r@ == path_joined(path_joined(config_dir@, "extensions"@), "installed"@),
{
    let root = extensions_root(config_dir);
    path_join(root.as_str(), "installed")
}

/// An installed extension: its manifest and its folder.
pub struct InstalledExtension {
    pub manifest: ExtensionManifest,
    pub dir: String,
}

/// Which Zed-compatible capabilities an extension advertises.
#[derive(Clone, Copy, Debug, Default, PartialEq, Eq, Structural)]
pub struct Capabilities {
    pub themes: bool,
    pub icon_themes: bool,
    pub languages: bool,
    pub grammars: bool,
    pub language_servers: bool,
    /// A compiled `extension.wasm` component is present.
    pub wasm: bool,
}

/// What a look into an extension's folder found.
pub struct DirListing {
    /// The entries of `themes/`.
    pub theme_entries: Vec<String>,
    /// The entries of `icon_themes/`.
    pub icon_theme_entries: Vec<String>,
    /// The entries of `languages/`, each with whether `<entry>/config.toml`
    /// is a file.
    pub language_entries: Vec<(String, bool)>,
    /// Whether `extension.wasm` is a file.
    pub wasm_is_file: bool,
}

/// The paths among `s` whose extension is `json`, in order.
pub open spec fn json_paths(s: Seq<Seq<char>>) -> Seq<Seq<char>>
    decreases s.len(),
{
    if s.len() == 0 {
        Seq::empty()
    } else if path_extension(s.last()) == Some("json"@) {
        json_paths(s.drop_last()).push(s.last())
    } else {
        json_paths(s.drop_last())
    }
}

/// `<entry>/config.toml` for each entry whose config file exists, in order.
pub open spec fn config_paths(s: Seq<(Seq<char>, bool)>) -> Seq<Seq<char>>
    decreases s.len(),
{
    if s.len() == 0 {
        Seq::empty()
    } else if s.last().1 {
        config_paths(s.drop_last()).push(path_joined(s.last().0, "config.toml"@))
    } else {
        config_paths(s.drop_last())
    }
}

/// The views of a list of `(path, flag)` entries.
pub open spec fn flagged(s: Seq<(String, bool)>) -> Seq<(Seq<char>, bool)> {
    s.map_values(|x: (String, bool)| (x.0@, x.1))
}

/// Whether the path's extension is `json`.
fn has_json_extension(p: &str) -> (r: bool)
    ensures
        r == (path_extension(p@) == Some("json"@)),
{
    match extension_of(p) {
        Some(e) => same_chars(chars_of(e.as_str()).as_slice(), chars_of("json").as_slice()),
        None => false,
    }
}

/// The `.json` files among the entries of a folder, in path order.
pub(crate) fn json_files_in(entries: &[String]) -> (r: Vec<String>)
    ensures
        strs(r@) == path_sorted(json_paths(strs(entries@))),
{
    let mut out: Vec<String> = Vec::new();
    let mut i: usize = 0;
    while i < entries.len()
        invariant
            0 <= i <= entries@.len(),
            strs(out@) == json_paths(strs(entries@).take(i as int)),
        decreases entries@.len() - i,
    {
        proof {
            assert(strs(entries@).take(i + 1).drop_last() =~= strs(entries@).take(i as int));
        }
        let is_json = has_json_extension(entries[i].as_str());
        if is_json {
            let ghost before = out@;
            out.push(entries[i].clone());
            proof {
                assert(strs(out@) =~= strs(before).push(entries@[i as int]@));
            }
        }
        i = i + 1;
    }
    proof {
        assert(strs(entries@).take(entries@.len() as int) =~= strs(entries@));
    }
    sort_paths(out)
}

impl InstalledExtension {
    /// `<dir>/themes`.
    pub fn themes_dir(&self) -> (r: String)
        ensures
            r@ == path_joined(self.dir@, "themes"@),
    {
        path_join(self.dir.as_str(), "themes")
    }

    /// `<dir>/icon_themes`.
    pub fn icon_themes_dir(&self) -> (r: String)
        ensures
            r@ == path_joined(self.dir@, "icon_themes"@),
    {
        path_join(self.dir.as_str(), "icon_themes")
    }

    /// `<dir>/languages`.
    pub fn languages_dir(&self) -> (r: String)
        ensures
            r@ == path_joined(self.dir@, "languages"@),
    {
        path_join(self.dir.as_str(), "languages")
    }

    /// `<dir>/extension.wasm`.
    pub fn wasm_path(&self) -> (r: String)
        ensures
            r@ == path_joined(self.dir@, "extension.wasm"@),
    {
        path_join(self.dir.as_str(), "extension.wasm")
    }

    /// The theme files: the `.json` entries of `themes/`, in path order.
    pub fn theme_files(&self, theme_entries: &[String]) -> (r: Vec<String>)
        ensures
            strs(r@) == path_sorted(json_paths(strs(theme_entries@))),
    {
        json_files_in(theme_entries)
    }

    /// The icon theme files: the `.json` entries of `icon_themes/`, in path
    /// order.
    pub fn icon_theme_files(&self, icon_theme_entries: &[String]) -> (r: Vec<String>)
        ensures
            strs(r@) == path_sorted(json_paths(strs(icon_theme_entries@))),
    {
        json_files_in(icon_theme_entries)
    }

    /// Each `languages/<lang>/config.toml` that exists, in path order.
    pub fn language_config_files(&self, language_entries: &[(String, bool)]) -> (r: Vec<String>)
        ensures
            strs(r@) == path_sorted(config_paths(flagged(language_entries@))),
    {
        let ghost es = flagged(language_entries@);
        let mut out: Vec<String> = Vec::new();
        let mut i: usize = 0;
        while i < language_entries.len()
            invariant
                0 <= i <= language_entries@.len(),
                es == flagged(language_entries@),
                strs(out@) == config_paths(es.take(i as int)),
            decreases language_entries@.len() - i,
        {
            proof {
                assert(es.take(i + 1).drop_last() =~= es.take(i as int));
            }
            if language_entries[i].1 {
                let cfg = path_join(language_entries[i].0.as_str(), "config.toml");
                let ghost before = out@;
                out.push(cfg);
                proof {
                    assert(strs(out@) =~= strs(before).push(path_joined(es[i as int].0, "config.toml"@)));
                }
            }
            i = i + 1;
        }
        proof {
            assert(es.take(es.len() as int) =~= es);
        }
        sort_paths(out)
    }

    /// The capabilities the extension advertises, given what its folder
    /// holds.
    pub fn capabilities(&self, listing: &DirListing) -> (r: Capabilities)
        ensures
            r.themes == (json_paths(strs(listing.theme_entries@)).len() > 0),
            r.icon_themes == (json_paths(strs(listing.icon_theme_entries@)).len() > 0),
            r.languages == (config_paths(flagged(listing.language_entries@)).len() > 0),
            r.grammars == (self.manifest.grammars@.len() > 0),
            r.language_servers == (self.manifest.language_servers@.len() > 0),
            r.wasm == listing.wasm_is_file,
    {
        let themes = json_count(listing.theme_entries.as_slice()) > 0;
        let icon_themes = json_count(listing.icon_theme_entries.as_slice()) > 0;
        let languages = config_count(listing.language_entries.as_slice()) > 0;
        Capabilities {
            themes,
            icon_themes,
            languages,
            grammars: self.manifest.grammars.len() > 0,
            language_servers: self.manifest.language_servers.len() > 0,
            wasm: listing.wasm_is_file,
        }
    }
}

/// How many entries are `.json` files.
fn json_count(entries: &[String]) -> (r: usize)
    ensures
        r == json_paths(strs(entries@)).len(),
{
    let mut n: usize = 0;
    let mut i: usize = 0;
    while i < entries.len()
        invariant
            0 <= i <= entries@.len(),
            n == json_paths(strs(entries@).take(i as int)).len(),
            n <= i,
        decreases entries@.len() - i,
    {
        proof {
            assert(strs(entries@).take(i + 1).drop_last() =~= strs(entries@).take(i as int));
        }
        let is_json = has_json_extension(entries[i].as_str());
        if is_json {
            n = n + 1;
        }
        i = i + 1;
    }
    proof {
        assert(strs(entries@).take(entries@.len() as int) =~= strs(entries@));
    }
    n
}

/// How many entries have a config file.
fn config_count(entries: &[(String, bool)]) -> (r: usize)
    ensures
        r == config_paths(flagged(entries@)).len(),
{
    let ghost es = flagged(entries@);
    let mut n: usize = 0;
    let mut i: usize = 0;
    while i < entries.len()
        invariant
            0 <= i <= entries@.len(),
            es == flagged(entries@),
            n == config_paths(es.take(i as int)).len(),
            n <= i,
        decreases entries@.len() - i,
    {
        proof {
            assert(es.take(i + 1).drop_last() =~= es.take(i as int));
        }
        if entries[i].1 {
            n = n + 1;
        }
        i = i + 1;
    }
    proof {
        assert(es.take(es.len() as int) =~= es);
    }
    n
}

/// How many times `c` occurs in `s`.
pub open spec fn count_char(s: Seq<char>, c: char) -> nat
    decreases s.len(),
{
    if s.len() == 0 {
        0
    } else {
        count_char(s.drop_last(), c) + if s.last() == c { 1nat } else { 0nat }
    }
}

/// The git URL that `input` stands for: a URL (`http://`, `https://`,
/// `git@`, `ssh://`, or anything ending in `.git`) as it is, trimmed; the
/// `owner/repo` shorthand (one slash, no space) as a GitHub HTTPS URL;
/// anything else trimmed.
pub open spec fn git_url(input: Seq<char>) -> Seq<char> {
    let s = trim(input);
    if has_prefix(s, "http://"@) || has_prefix(s, "https://"@) || has_prefix(s, "git@"@)
        || has_prefix(s, "ssh://"@) || has_suffix(s, ".git"@) {
        s
    } else if count_char(s, '/') == 1 && !s.contains(' ') {
        "https://github.com/"@ + s
    } else {
        s
    }
}

/// How many times `c` occurs in `v`.
fn count_of(v: &[char], c: char) -> (r: usize)
    ensures
        r == count_char(v@, c),
{
    let mut n: usize = 0;
    let mut i: usize = 0;
    while i < v.len()
        invariant
            0 <= i <= v@.len(),
            n == count_char(v@.take(i as int), c),
            n <= i,
        decreases v@.len() - i,
    {
        assert(v@.take(i + 1).drop_last() =~= v@.take(i as int));
        if v[i] == c {
            n = n + 1;
        }
        i = i + 1;
    }
    assert(v@.take(v@.len() as int) =~= v@);
    n
}

/// Expands a git source given by the user into a URL to clone.
pub fn normalize_git_url(input: &str) -> (r: String)
    ensures
        r@ == git_url(input@),
{
    let s = trim_chars(chars_of(input).as_slice());
    if starts_with(&s, chars_of("http://").as_slice()) || starts_with(&s, chars_of("https://").as_slice())
        || starts_with(&s, chars_of("git@").as_slice()) || starts_with(&s, chars_of("ssh://").as_slice())
        || ends_with(&s, chars_of(".git").as_slice()) {
        return string_of(&s);
    }
    if count_of(&s, '/') == 1 && !contains_char(&s, ' ') {
        let mut out = chars_of("https://github.com/");
        push_all(&mut out, &s);
        return string_of(&out);
    }
    string_of(&s)
}

/// Whether an id could name a folder outside the store.
pub open spec fn unsafe_id(id: Seq<char>) -> bool {
    id.len() == 0 || id.contains('/') || id.contains('\\') || contains_seq(id, ".."@)
}

/// The folder that uninstalling `id` removes, or `None` when the id could
/// reach outside the store (empty, or holding `/`, `\` or `..`).
pub fn uninstall_dir(installed_dir: &str, id: &str) -> (r: Option<String>)
    ensures
        r is None <==> unsafe_id(id@),
        r matches Some(d) ==> d@ == path_joined(installed_dir@, id@),
{
    let cs = chars_of(id);
    if cs.len() == 0 || contains_char(&cs, '/') || contains_char(&cs, '\\')
        || contains_seq_exec(&cs, chars_of("..").as_slice()) {
        return None;
    }
    Some(path_join(installed_dir, id))
}

/// Where an extension with this manifest installs: its id and its folder,
/// or `None` when it has no id (neither an `id` nor a name to derive one).
pub fn install_destination(installed_dir: &str, manifest: &ExtensionManifest) -> (r: Option<(String, String)>)
    ensures
        r is None <==> manifest.spec_effective_id().len() == 0,
        r matches Some(p) ==> p.0@ == manifest.spec_effective_id() && p.1@ == path_joined(
            installed_dir@,
            manifest.spec_effective_id(),
        ),
{
    let id = manifest.effective_id();
    if id.as_str().is_empty() {
        return None;
    }
    let dest = path_join(installed_dir, id.as_str());
    Some((id, dest))
}

/// The store ordered by display name, compared lowercased.
pub open spec fn name_keyed(s: Seq<InstalledExtension>) -> Seq<(InstalledExtension, (int, Seq<char>))> {
    s.map_values(|e: InstalledExtension| (e, (0int, unicode_lower(e.manifest.name@))))
}

/// Orders the store by display name, compared lowercased; extensions whose
/// names compare equal keep their order.
pub fn sorted_by_name(exts: Vec<InstalledExtension>) -> (r: Vec<InstalledExtension>)
    ensures
        r@ == items_of(sort_keyed(name_keyed(exts@))),
{
    let ghost all = exts@;
    let total = exts.len();
    let mut rest = exts;
    let mut keyed: Vec<(InstalledExtension, SortKey)> = Vec::new();
    let mut i: usize = 0;
    while rest.len() > 0
        invariant
            all.len() == total,
            all.len() == i + rest@.len(),
            rest@ == all.skip(i as int),
            keyed_view(keyed@) == name_keyed(all).take(i as int),
        decreases rest@.len(),
    {
        let ghost before = rest@;
        let e = rest.remove(0);
        assert(e == all[i as int]) by {
            assert(before[0] == all.skip(i as int)[0]);
        }
        assert(rest@ =~= all.skip(i + 1));
        let lower = to_lowercase(e.manifest.name.as_str());
        let key = SortKey { group: 0, text: chars_of(lower.as_str()) };
        let ghost kb = keyed@;
        keyed.push((e, key));
        proof {
            assert(keyed_view(keyed@) =~= keyed_view(kb).push((e, (0int, unicode_lower(e.manifest.name@)))));
            assert(name_keyed(all).take(i + 1) =~= name_keyed(all).take(i as int).push(name_keyed(all)[i as int]));
        }
        i = i + 1;
    }
    assert(name_keyed(all).take(i as int) =~= name_keyed(all));
    stable_sort_by_key(keyed)
}

/// Normalizing a git source twice is normalizing it once: what comes out
/// is already a URL, or is left as it is.
pub proof fn lemma_git_url_idempotent(input: Seq<char>)
    ensures
        git_url(git_url(input)) == git_url(input),
{
    let s = trim(input);
    lemma_trim_idempotent(input);
    lemma_trim_clean(input);
    let r = git_url(input);
    if has_prefix(s, "http://"@) || has_prefix(s, "https://"@) || has_prefix(s, "git@"@)
        || has_prefix(s, "ssh://"@) || has_suffix(s, ".git"@) {
        assert(r == s);
    } else if count_char(s, '/') == 1 && !s.contains(' ') {
        let p = "https://github.com/"@;
        reveal_strlit("https://github.com/");
        reveal_strlit("https://");
        assert(s.len() > 0) by {
            if s.len() == 0 {
                assert(count_char(s, '/') == 0);
            }
        }
        assert(r == p + s);
        assert(r[0] == 'h');
        assert(r.last() == s.last());
        assert(!is_ws(r[0]));
        lemma_trim_of_clean(r);
        assert(r.take(8) =~= "https://"@);
        assert(has_prefix(r, "https://"@));
    } else {
        assert(r == s);
    }
}

} // verus!
