//! Language extensions as file-type associations.
//!
//! Each `languages/<lang>/config.toml` names a language, the grammar it uses
//! and the file extensions (`path_suffixes`) it claims. The configs are taken
//! in store order; when two claim the same extension, the first one wins.

use crate::extension::manifest::{slug, slugify, LanguageConfigManifest};
use crate::text::{
    ascii_lower, chars_of, copy_strings, same_chars, string_of, strs, to_ascii_lower,
    trim_start_char, trim_start_matches,
};
use vstd::prelude::*;

verus! {

/// The id of a language: its grammar name in ASCII lowercase, or, when it
/// names no grammar, the slug of its name.
pub open spec fn spec_language_id(cfg: LanguageConfigManifest) -> Seq<char> {
    if cfg.grammar is Some && cfg.grammar->0@.len() > 0 {
        ascii_lower(cfg.grammar->0@)
    } else {
        slug(cfg.name@)
    }
}

/// The id under which the language of `cfg` is known.
pub fn language_id(cfg: &LanguageConfigManifest) -> (r: String)
    ensures
        r@ == spec_language_id(*cfg),
{
    if let Some(g) = &cfg.grammar {
        if !g.as_str().is_empty() {
            let l = to_ascii_lower(chars_of(g.as_str()).as_slice());
            return string_of(&l);
        }
    }
    slugify(cfg.name.as_str())
}

/// The file extension a path suffix stands for: leading dots dropped, ASCII
/// lowercase.
pub open spec fn suffix_key(s: Seq<char>) -> Seq<char> {
    ascii_lower(trim_start_char(s, '.'))
}

/// The `(file extension, language id)` claims of one config, in order.
pub open spec fn claims_of(cfg: LanguageConfigManifest) -> Seq<(Seq<char>, Seq<char>)> {
    strs(cfg.path_suffixes@).map_values(|s: Seq<char>| (suffix_key(s), spec_language_id(cfg)))
}

/// The claims of all configs, in order.
pub open spec fn claims(cfgs: Seq<LanguageConfigManifest>) -> Seq<(Seq<char>, Seq<char>)>
    decreases cfgs.len(),
{
    if cfgs.len() == 0 {
        Seq::empty()
    } else {
        claims(cfgs.drop_last()) + claims_of(cfgs.last())
    }
}

/// The language of the first claim on `k`.
pub open spec fn first_claim(cs: Seq<(Seq<char>, Seq<char>)>, k: Seq<char>) -> Option<Seq<char>>
    decreases cs.len(),
{
    if cs.len() == 0 {
        None
    } else if cs[0].0 == k {
        Some(cs[0].1)
    } else {
        first_claim(cs.drop_first(), k)
    }
}

/// File extension to language id, first claim first.
pub struct LanguageMap {
    claims: Vec<(String, String)>,
}

impl LanguageMap {
    /// The claims the map was built from, in order.
    pub closed spec fn claims_view(&self) -> Seq<(Seq<char>, Seq<char>)> {
        self.claims@.map_values(|p: (String, String)| (p.0@, p.1@))
    }
}

/// The map of file extensions claimed by the given language configs.
pub fn build_map(cfgs: &[LanguageConfigManifest]) -> (r: LanguageMap)
    ensures
        r.claims_view() == claims(cfgs@),
{
    let mut out: Vec<(String, String)> = Vec::new();
    let mut i: usize = 0;
    while i < cfgs.len()
        invariant
            0 <= i <= cfgs@.len(),
            out@.map_values(|p: (String, String)| (p.0@, p.1@)) == claims(cfgs@.take(i as int)),
        decreases cfgs@.len() - i,
    {
        let cfg = &cfgs[i];
        let id = language_id(cfg);
        let ghost base = out@.map_values(|p: (String, String)| (p.0@, p.1@));
        let mut j: usize = 0;
        while j < cfg.path_suffixes.len()
            invariant
                0 <= j <= cfg.path_suffixes@.len(),
                cfg == cfgs@[i as int],
                id@ == spec_language_id(*cfg),
                out@.map_values(|p: (String, String)| (p.0@, p.1@)) == base + claims_of(*cfg).take(j as int),
            decreases cfg.path_suffixes@.len() - j,
        {
            let trimmed = trim_start_matches(chars_of(cfg.path_suffixes[j].as_str()).as_slice(), '.');
            let key = to_ascii_lower(trimmed.as_slice());
            let ghost before = out@;
            out.push((string_of(&key), id.clone()));
            proof {
                assert(claims_of(*cfg)[j as int] == (suffix_key(cfg.path_suffixes@[j as int]@), spec_language_id(*cfg)));
                assert(claims_of(*cfg).take(j + 1) =~= claims_of(*cfg).take(j as int).push(claims_of(*cfg)[j as int]));
                assert(out@.map_values(|p: (String, String)| (p.0@, p.1@)) =~= before.map_values(
                    |p: (String, String)| (p.0@, p.1@),
                ).push(claims_of(*cfg)[j as int]));
            }
            j = j + 1;
        }
        proof {
            assert(claims_of(*cfg).take(j as int) =~= claims_of(*cfg));
            assert(cfgs@.take(i + 1).drop_last() =~= cfgs@.take(i as int));
        }
        i = i + 1;
    }
    assert(cfgs@.take(i as int) =~= cfgs@);
    LanguageMap { claims: out }
}

/// The language id that installed extensions give to files with extension
/// `ext`, or `None` when none claims it.
pub fn language_for_extension(map: &LanguageMap, ext: &str) -> (r: Option<String>)
    ensures
        r matches Some(s) ==> ext@.len() > 0 && first_claim(map.claims_view(), ext@) == Some(s@),
        r is None ==> ext@.len() == 0 || first_claim(map.claims_view(), ext@) is None,
{
    if ext.is_empty() {
        return None;
    }
    let e = chars_of(ext);
    let ghost cs = map.claims_view();
    let mut i: usize = 0;
    assert(cs.skip(0) =~= cs);
    while i < map.claims.len()
        invariant
            0 <= i <= map.claims@.len(),
            cs == map.claims_view(),
            e@ == ext@,
            ext@.len() > 0,
            first_claim(cs, ext@) == first_claim(cs.skip(i as int), ext@),
        decreases map.claims@.len() - i,
    {
        proof {
            assert(cs.skip(i as int)[0] == cs[i as int]);
            assert(cs[i as int] == (map.claims@[i as int].0@, map.claims@[i as int].1@));
            assert(cs.skip(i as int).drop_first() =~= cs.skip(i + 1));
        }
        if same_chars(chars_of(map.claims[i].0.as_str()).as_slice(), e.as_slice()) {
            let found = map.claims[i].1.clone();
            assert(first_claim(cs.skip(i as int), ext@) == Some(found@));
            return Some(found);
        }
        i = i + 1;
    }
    None
}

/// The `(language name, file extensions)` of each config that names its
/// language, in order.
pub open spec fn summaries_of(cfgs: Seq<LanguageConfigManifest>) -> Seq<(Seq<char>, Seq<Seq<char>>)>
    decreases cfgs.len(),
{
    if cfgs.len() == 0 {
        Seq::empty()
    } else if cfgs.last().name@.len() > 0 {
        summaries_of(cfgs.drop_last()).push((cfgs.last().name@, strs(cfgs.last().path_suffixes@)))
    } else {
        summaries_of(cfgs.drop_last())
    }
}

/// The languages contributed by extensions, with their file extensions.
pub fn language_summaries(cfgs: &[LanguageConfigManifest]) -> (r: Vec<(String, Vec<String>)>)
    ensures
        r@.map_values(|p: (String, Vec<String>)| (p.0@, strs(p.1@))) == summaries_of(cfgs@),
{
    let mut out: Vec<(String, Vec<String>)> = Vec::new();
    let mut i: usize = 0;
    while i < cfgs.len()
        invariant
            0 <= i <= cfgs@.len(),
            out@.map_values(|p: (String, Vec<String>)| (p.0@, strs(p.1@))) == summaries_of(cfgs@.take(i as int)),
        decreases cfgs@.len() - i,
    {
        proof {
            assert(cfgs@.take(i + 1).drop_last() =~= cfgs@.take(i as int));
        }
        if !cfgs[i].name.as_str().is_empty() {
            let ghost before = out@;
            out.push((cfgs[i].name.clone(), copy_strings(&cfgs[i].path_suffixes)));
            proof {
                assert(out@.map_values(|p: (String, Vec<String>)| (p.0@, strs(p.1@))) =~= before.map_values(
                    |p: (String, Vec<String>)| (p.0@, strs(p.1@)),
                ).push((cfgs@[i as int].name@, strs(cfgs@[i as int].path_suffixes@))));
            }
        }
        i = i + 1;
    }
    assert(cfgs@.take(i as int) =~= cfgs@);
    out
}

/// The language id for a language display name: that of the first config
/// whose name matches it ignoring ASCII case, or the slug of the name.
pub open spec fn id_for_name(cfgs: Seq<LanguageConfigManifest>, name: Seq<char>) -> Seq<char>
    decreases cfgs.len(),
{
    if cfgs.len() == 0 {
        slug(name)
    } else if ascii_lower(cfgs[0].name@) == ascii_lower(name) {
        spec_language_id(cfgs[0])
    } else {
        id_for_name(cfgs.drop_first(), name)
    }
}

/// Maps a language display name (as a language server names it) to the
/// language id used everywhere else.
pub fn language_id_for_name(cfgs: &[LanguageConfigManifest], name: &str) -> (r: String)
    ensures
        r@ == id_for_name(cfgs@, name@),
{
    let lname = to_ascii_lower(chars_of(name).as_slice());
    let mut i: usize = 0;
    assert(cfgs@.skip(0) =~= cfgs@);
    while i < cfgs.len()
        invariant
            0 <= i <= cfgs@.len(),
            lname@ == ascii_lower(name@),
            id_for_name(cfgs@, name@) == id_for_name(cfgs@.skip(i as int), name@),
        decreases cfgs@.len() - i,
    {
        proof {
            assert(cfgs@.skip(i as int)[0] == cfgs@[i as int]);
            assert(cfgs@.skip(i as int).drop_first() =~= cfgs@.skip(i + 1));
        }
        let cname = to_ascii_lower(chars_of(cfgs[i].name.as_str()).as_slice());
        if same_chars(cname.as_slice(), lname.as_slice()) {
            return language_id(&cfgs[i]);
        }
        i = i + 1;
    }
    proof {
        assert(cfgs@.skip(i as int) =~= Seq::<LanguageConfigManifest>::empty());
    }
    slugify(name)
}

} // verus!
