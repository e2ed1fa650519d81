//! Language servers declared by extensions, as launchable adapters.
//!
//! A `[language_servers.<id>]` entry can name a native binary (`command`,
//! with `args`) to start directly; only such entries become adapters. The
//! languages a server declares by display name are turned into language
//! ids.

use crate::extension::languages::{id_for_name, language_id_for_name};
use crate::extension::manifest::{LanguageConfigManifest, LanguageServerManifest};
use crate::extension::store::InstalledExtension;
use crate::text::{chars_of, copy_strings, strs, trim, trim_chars};
use vstd::prelude::*;

verus! {

/// A language server that can be started as a native process.
pub struct ServerAdapter {
    pub name: String,
    /// The binary to launch, resolved on `$PATH`.
    pub binary: String,
    pub args: Vec<String>,
    /// The language ids the server attaches to.
    pub languages: Vec<String>,
}

/// The mathematical value of an adapter.
pub struct AdapterView {
    pub name: Seq<char>,
    pub binary: Seq<char>,
    pub args: Seq<Seq<char>>,
    pub languages: Seq<Seq<char>>,
}

/// The value of an adapter.
pub open spec fn adapter_view(a: ServerAdapter) -> AdapterView {
    AdapterView { name: a.name@, binary: a.binary@, args: strs(a.args@), languages: strs(a.languages@) }
}

/// The values of a list of adapters.
pub open spec fn adapters_view(s: Seq<ServerAdapter>) -> Seq<AdapterView> {
    s.map_values(|a: ServerAdapter| adapter_view(a))
}

/// The non-empty language ids of the given language names.
pub open spec fn language_ids(names: Seq<Seq<char>>, cfgs: Seq<LanguageConfigManifest>) -> Seq<Seq<char>>
    decreases names.len(),
{
    if names.len() == 0 {
        Seq::empty()
    } else if id_for_name(cfgs, names.last()).len() > 0 {
        language_ids(names.drop_last(), cfgs).push(id_for_name(cfgs, names.last()))
    } else {
        language_ids(names.drop_last(), cfgs)
    }
}

/// The adapter for server `id`, when it names a non-blank command.
pub open spec fn adapter_for(
    id: Seq<char>,
    server: LanguageServerManifest,
    cfgs: Seq<LanguageConfigManifest>,
) -> Option<AdapterView> {
    match server.command {
        Some(c) => if trim(c@).len() > 0 {
            Some(
                AdapterView {
                    name: match server.name {
                        Some(n) => n@,
                        None => id,
                    },
                    binary: c@,
                    args: strs(server.args@),
                    languages: language_ids(server.spec_all_languages(), cfgs),
                },
            )
        } else {
            None
        },
        None => None,
    }
}

/// The adapters of a list of `(id, server)` entries, in order.
pub open spec fn adapters_of(
    servers: Seq<(String, LanguageServerManifest)>,
    cfgs: Seq<LanguageConfigManifest>,
) -> Seq<AdapterView>
    decreases servers.len(),
{
    if servers.len() == 0 {
        Seq::empty()
    } else {
        let rest = adapters_of(servers.drop_last(), cfgs);
        match adapter_for(servers.last().0@, servers.last().1, cfgs) {
            Some(a) => rest.push(a),
            None => rest,
        }
    }
}

/// The adapters of every installed extension, in store order.
pub open spec fn all_adapters(
    exts: Seq<InstalledExtension>,
    cfgs: Seq<LanguageConfigManifest>,
) -> Seq<AdapterView>
    decreases exts.len(),
{
    if exts.len() == 0 {
        Seq::empty()
    } else {
        all_adapters(exts.drop_last(), cfgs) + adapters_of(exts.last().manifest.language_servers@, cfgs)
    }
}

/// The language ids of the languages a server names.
fn ids_for(names: &Vec<String>, cfgs: &[LanguageConfigManifest]) -> (r: Vec<String>)
    ensures
        strs(r@) == language_ids(strs(names@), cfgs@),
{
    let mut out: Vec<String> = Vec::new();
    let mut i: usize = 0;
    while i < names.len()
        invariant
            0 <= i <= names@.len(),
            strs(out@) == language_ids(strs(names@).take(i as int), cfgs@),
        decreases names@.len() - i,
    {
        proof {
            assert(strs(names@).take(i + 1).drop_last() =~= strs(names@).take(i as int));
        }
        let id = language_id_for_name(cfgs, names[i].as_str());
        if !id.as_str().is_empty() {
            let ghost before = out@;
            out.push(id);
            proof {
                assert(strs(out@) =~= strs(before).push(id_for_name(cfgs@, names@[i as int]@)));
            }
        }
        i = i + 1;
    }
    assert(strs(names@).take(i as int) =~= strs(names@));
    out
}

/// The adapter for one `[language_servers.<id>]` entry.
fn adapter(id: &String, server: &LanguageServerManifest, cfgs: &[LanguageConfigManifest]) -> (r: Option<ServerAdapter>)
    ensures
        match r {
            Some(a) => adapter_for(id@, *server, cfgs@) == Some(adapter_view(a)),
            None => adapter_for(id@, *server, cfgs@) is None,
        },
{
    let command = match &server.command {
        Some(c) => c,
        None => return None,
    };
    if trim_chars(chars_of(command.as_str()).as_slice()).len() == 0 {
        return None;
    }
    let name = match &server.name {
        Some(n) => n.clone(),
        None => id.clone(),
    };
    let langs = server.all_languages();
    let languages = ids_for(&langs, cfgs);
    Some(ServerAdapter { name, binary: command.clone(), args: copy_strings(&server.args), languages })
}

/// The language-server adapters contributed by installed extensions: by
/// extension, and within one in the order of its server table, which is
/// key order for a manifest whose tables are keyed.
pub fn extension_adapters(installed: &[InstalledExtension], cfgs: &[LanguageConfigManifest]) -> (r: Vec<ServerAdapter>)
    ensures
        adapters_view(r@) == all_adapters(installed@, cfgs@),
{
    let mut out: Vec<ServerAdapter> = Vec::new();
    let mut i: usize = 0;
    while i < installed.len()
        invariant
            0 <= i <= installed@.len(),
            adapters_view(out@) == all_adapters(installed@.take(i as int), cfgs@),
        decreases installed@.len() - i,
    {
        let servers = &installed[i].manifest.language_servers;
        let ghost base = adapters_view(out@);
        let mut j: usize = 0;
        while j < servers.len()
            invariant
                0 <= j <= servers@.len(),
                servers@ == installed@[i as int].manifest.language_servers@,
                adapters_view(out@) == base + adapters_of(servers@.take(j as int), cfgs@),
            decreases servers@.len() - j,
        {
            proof {
                assert(servers@.take(j + 1).drop_last() =~= servers@.take(j as int));
            }
            let a = adapter(&servers[j].0, &servers[j].1, cfgs);
            match a {
                Some(a) => {
                    let ghost before = out@;
                    out.push(a);
                    proof {
                        assert(adapters_view(out@) =~= adapters_view(before).push(adapter_view(a)));
                    }
                },
                None => {},
            }
            j = j + 1;
        }
        proof {
            assert(servers@.take(j as int) =~= servers@);
            assert(installed@.take(i + 1).drop_last() =~= installed@.take(i as int));
        }
        i = i + 1;
    }
    assert(installed@.take(i as int) =~= installed@);
    out
}

} // verus!
