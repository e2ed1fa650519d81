//! The `extension.toml` manifest and `languages/<lang>/config.toml` model,
//! extension ids and slugs.

use crate::text::{copy_strings, strs, chars_of, lower_char, string_of, to_ascii_lower, trim_end_char, trim_end_matches};
use crate::order::{lemma_lex_lt_asym, lex_lt};
use vstd::prelude::*;

verus! {

/// The `[lib]` table: the compiled component, if any.
#[derive(Clone, Debug, Default)]
pub struct LibManifest {
    pub kind: Option<String>,
    pub version: Option<String>,
}

/// A `[grammars.<name>]` entry.
#[derive(Clone, Debug, Default)]
pub struct GrammarManifest {
    pub repository: String,
    pub commit: String,
    pub path: Option<String>,
}

/// A `[language_servers.<id>]` entry.
#[derive(Clone, Debug, Default)]
pub struct LanguageServerManifest {
    pub name: Option<String>,
    pub language: Option<String>,
    pub languages: Vec<String>,
    /// Language name to language id overrides, in key order.
    pub language_ids: Vec<(String, String)>,
    pub command: Option<String>,
    pub args: Vec<String>,
}

/// The `extension.toml` manifest. The keyed tables are held as
/// `(key, entry)` pairs in key order ([`ExtensionManifest::tables_keyed`]).
#[derive(Clone, Debug, Default)]
pub struct ExtensionManifest {
    pub id: String,
    pub name: String,
    pub version: String,
    pub schema_version: u32,
    pub description: String,
    pub repository: String,
    pub authors: Vec<String>,
    pub lib: Option<LibManifest>,
    pub grammars: Vec<(String, GrammarManifest)>,
    pub language_servers: Vec<(String, LanguageServerManifest)>,
}

/// The keys of a keyed table come in strictly increasing order, as they do
/// when the table is read into a sorted map.
pub open spec fn keys_ascending<T>(table: Seq<(String, T)>) -> bool {
    forall|i: int, j: int| 0 <= i < j < table.len() ==> lex_lt(#[trigger] table[i].0@, #[trigger] table[j].0@)
}

impl ExtensionManifest {
    /// Every keyed table of the manifest is in key order.
    pub open spec fn tables_keyed(&self) -> bool {
        &&& keys_ascending(self.grammars@)
        &&& keys_ascending(self.language_servers@)
        &&& forall|k: int|
            0 <= k < self.language_servers@.len() ==> keys_ascending(
                #[trigger] self.language_servers@[k].1.language_ids@,
            )
    }
}

/// A table in key order names each key once: a lookup by key finds at most
/// one entry.
pub proof fn lemma_keyed_table_has_unique_keys<T>(table: Seq<(String, T)>, i: int, j: int)
    requires
        keys_ascending(table),
        0 <= i < table.len(),
        0 <= j < table.len(),
        i != j,
    ensures
        table[i].0@ != table[j].0@,
{
    lemma_lex_lt_asym(table[i].0@, table[j].0@);
    lemma_lex_lt_asym(table[j].0@, table[i].0@);
}

/// A `languages/<lang>/config.toml` file.
#[derive(Clone, Debug, Default)]
pub struct LanguageConfigManifest {
    pub name: String,
    pub grammar: Option<String>,
    pub path_suffixes: Vec<String>,
    pub line_comments: Vec<String>,
}

/// An ASCII letter or digit (`char::is_ascii_alphanumeric`).
pub open spec fn is_alnum(c: char) -> bool {
    ('0' <= c && c <= '9') || ('a' <= c && c <= 'z') || ('A' <= c && c <= 'Z')
}

/// The slug built so far, and whether it ends with a separator dash.
pub open spec fn slug_fold(s: Seq<char>) -> (Seq<char>, bool)
    decreases s.len(),
{
    if s.len() == 0 {
        (Seq::empty(), false)
    } else {
        let (out, prev_dash) = slug_fold(s.drop_last());
        let ch = s.last();
        if is_alnum(ch) {
            (out.push(lower_char(ch)), false)
        } else if !prev_dash && out.len() > 0 {
            (out.push('-'), true)
        } else {
            (out, prev_dash)
        }
    }
}

/// The slug of a name: its ASCII letters and digits, lowercased, with one
/// dash for each run of other characters between them.
pub open spec fn slug(s: Seq<char>) -> Seq<char> {
    trim_end_char(slug_fold(s).0, '-')
}

/// A filesystem and id friendly slug of a display name.
pub fn slugify(name: &str) -> (r: String)
    ensures
        r@ == slug(name@),
{
    let cs = chars_of(name);
    let mut out: Vec<char> = Vec::new();
    let mut prev_dash = false;
    let mut i: usize = 0;
    while i < cs.len()
        invariant
            0 <= i <= cs@.len(),
            (out@, prev_dash) == slug_fold(cs@.take(i as int)),
        decreases cs@.len() - i,
    {
        let ch = cs[i];
        proof {
            assert(cs@.take(i + 1).drop_last() =~= cs@.take(i as int));
            assert(cs@.take(i + 1).last() == ch);
        }
        if ('0' <= ch && ch <= '9') || ('a' <= ch && ch <= 'z') || ('A' <= ch && ch <= 'Z') {
            let one = [ch];
            let l = to_ascii_lower(&one);
            proof {
                assert(one@ =~= seq![ch]);
                assert(l@[0] == lower_char(ch));
            }
            out.push(l[0]);
            prev_dash = false;
        } else if !prev_dash && out.len() > 0 {
            out.push('-');
            prev_dash = true;
        }
        i = i + 1;
    }
    assert(cs@.take(cs@.len() as int) =~= name@);
    let t = trim_end_matches(&out, '-');
    string_of(&t)
}

impl LanguageServerManifest {
    /// Every language the server handles: `languages`, then `language` when
    /// it is not among them.
    pub open spec fn spec_all_languages(&self) -> Seq<Seq<char>> {
        match self.language {
            Some(l) => if strs(self.languages@).contains(l@) {
                strs(self.languages@)
            } else {
                strs(self.languages@).push(l@)
            },
            None => strs(self.languages@),
        }
    }

    /// Every language this server handles, merging both schema styles.
    pub fn all_languages(&self) -> (r: Vec<String>)
        ensures
            strs(r@) == self.spec_all_languages(),
    {
        let ghost langs = strs(self.languages@);
        let mut out = copy_strings(&self.languages);
        match &self.language {
            Some(l) => {
                let mut found = false;
                let mut j: usize = 0;
                while j < out.len()
                    invariant
                        0 <= j <= out@.len(),
                        strs(out@) == langs,
                        found <==> exists|k: int| 0 <= k < j && #[trigger] langs[k] == l@,
                    decreases out@.len() - j,
                {
                    assert(langs[j as int] == out@[j as int]@);
                    if out[j] == *l {
                        found = true;
                    }
                    j = j + 1;
                }
                if !found {
                    let ghost before = out@;
                    out.push(l.clone());
                    assert(strs(out@) =~= strs(before).push(l@));
                }
            },
            None => {},
        }
        out
    }
}

impl ExtensionManifest {
    /// The id, or the slug of the name when the id is blank.
    pub open spec fn spec_effective_id(&self) -> Seq<char> {
        if self.id@.len() > 0 {
            self.id@
        } else {
            slug(self.name@)
        }
    }

    /// The id, or the slug of the name when the id is blank.
    pub fn effective_id(&self) -> (r: String)
        ensures
            r@ == self.spec_effective_id(),
    {
        if !self.id.as_str().is_empty() {
            return self.id.clone();
        }
        slugify(self.name.as_str())
    }
}

/// A character a slug keeps: an ASCII lowercase letter or a digit.
pub open spec fn slug_char(c: char) -> bool {
    ('0' <= c && c <= '9') || ('a' <= c && c <= 'z')
}

/// Slug characters and single dashes, not starting with a dash.
pub open spec fn slug_prefix_shape(u: Seq<char>) -> bool {
    &&& forall|i: int| 0 <= i < u.len() ==> slug_char(#[trigger] u[i]) || u[i] == '-'
    &&& u.len() > 0 ==> u[0] != '-'
    &&& forall|i: int, j: int| 0 <= i && j == i + 1 && j < u.len() ==> !(#[trigger] u[i] == '-' && #[trigger] u[j] == '-')
}

/// The shape of a slug: slug characters joined by single dashes, with no
/// dash at either end.
pub open spec fn slug_shape(u: Seq<char>) -> bool {
    slug_prefix_shape(u) && (u.len() > 0 ==> u.last() != '-')
}

proof fn lemma_lower_alnum(c: char)
    requires
        is_alnum(c),
    ensures
        slug_char(lower_char(c)),
{
    if 'A' <= c && c <= 'Z' {
        let n = (c as u32) + 32;
        assert(('a' as u32) <= n <= ('z' as u32));
    }
}

proof fn lemma_fold_shape(s: Seq<char>)
    ensures
        slug_prefix_shape(slug_fold(s).0),
        slug_fold(s).1 == (slug_fold(s).0.len() > 0 && slug_fold(s).0.last() == '-'),
    decreases s.len(),
{
    if s.len() > 0 {
        lemma_fold_shape(s.drop_last());
        let (out, pd) = slug_fold(s.drop_last());
        let ch = s.last();
        if is_alnum(ch) {
            lemma_lower_alnum(ch);
            let o = out.push(lower_char(ch));
            assert forall|i: int| 0 <= i < o.len() implies slug_char(#[trigger] o[i]) || o[i] == '-' by {
                if i < out.len() {
                    assert(o[i] == out[i]);
                }
            }
            assert forall|i: int, j: int| 0 <= i && j == i + 1 && j < o.len() implies !(#[trigger] o[i] == '-' && #[trigger] o[j] == '-') by {
                if j < out.len() {
                    assert(o[i] == out[i] && o[j] == out[j]);
                }
            }
        } else if !pd && out.len() > 0 {
            let o = out.push('-');
            assert forall|i: int| 0 <= i < o.len() implies slug_char(#[trigger] o[i]) || o[i] == '-' by {
                if i < out.len() {
                    assert(o[i] == out[i]);
                }
            }
            assert forall|i: int, j: int| 0 <= i && j == i + 1 && j < o.len() implies !(#[trigger] o[i] == '-' && #[trigger] o[j] == '-') by {
                if j < out.len() {
                    assert(o[i] == out[i] && o[j] == out[j]);
                } else {
                    assert(o[i] == out.last());
                }
            }
        }
    }
}

proof fn lemma_trim_dashes_shape(u: Seq<char>)
    requires
        slug_prefix_shape(u),
    ensures
        slug_shape(trim_end_char(u, '-')),
    decreases u.len(),
{
    if u.len() > 0 && u.last() == '-' {
        let v = u.drop_last();
        assert forall|i: int| 0 <= i < v.len() implies slug_char(#[trigger] v[i]) || v[i] == '-' by {
            assert(v[i] == u[i]);
        }
        assert forall|i: int, j: int| 0 <= i && j == i + 1 && j < v.len() implies !(#[trigger] v[i] == '-' && #[trigger] v[j] == '-') by {
            assert(v[i] == u[i] && v[j] == u[j]);
        }
        if v.len() > 0 {
            assert(v[0] == u[0]);
        }
        lemma_trim_dashes_shape(v);
    }
}

proof fn lemma_fold_of_shape(u: Seq<char>)
    requires
        slug_prefix_shape(u),
    ensures
        slug_fold(u) == (u, u.len() > 0 && u.last() == '-'),
    decreases u.len(),
{
    if u.len() > 0 {
        let v = u.drop_last();
        assert forall|i: int| 0 <= i < v.len() implies slug_char(#[trigger] v[i]) || v[i] == '-' by {
            assert(v[i] == u[i]);
        }
        assert forall|i: int, j: int| 0 <= i && j == i + 1 && j < v.len() implies !(#[trigger] v[i] == '-' && #[trigger] v[j] == '-') by {
            assert(v[i] == u[i] && v[j] == u[j]);
        }
        if v.len() > 0 {
            assert(v[0] == u[0]);
        }
        lemma_fold_of_shape(v);
        let c = u.last();
        assert(slug_char(u[u.len() - 1]) || u[u.len() - 1] == '-');
        if c != '-' {
            assert(is_alnum(c));
            assert(lower_char(c) == c);
            assert(v.push(c) =~= u);
        } else {
            if v.len() > 0 {
                assert(!(u[u.len() - 2] == '-' && u[u.len() - 1] == '-'));
            }
            assert(v.push('-') =~= u);
        }
    }
}

/// A slug is made of ASCII lowercase letters and digits joined by single
/// dashes, with no dash at either end.
pub proof fn lemma_slug_shape(s: Seq<char>)
    ensures
        slug_shape(slug(s)),
{
    lemma_fold_shape(s);
    lemma_trim_dashes_shape(slug_fold(s).0);
}

/// Slugifying a slug gives it back.
pub proof fn lemma_slug_idempotent(s: Seq<char>)
    ensures
        slug(slug(s)) == slug(s),
{
    let t = slug(s);
    lemma_slug_shape(s);
    lemma_fold_of_shape(t);
    if t.len() > 0 {
        assert(trim_end_char(t, '-') == t);
    }
}

/// The ASCII letters and digits of `s`, lowercased, in order.
pub open spec fn slug_letters(s: Seq<char>) -> Seq<char>
    decreases s.len(),
{
    if s.len() == 0 {
        Seq::empty()
    } else if is_alnum(s.last()) {
        slug_letters(s.drop_last()).push(lower_char(s.last()))
    } else {
        slug_letters(s.drop_last())
    }
}

/// `u` without its dashes.
pub open spec fn undashed(u: Seq<char>) -> Seq<char>
    decreases u.len(),
{
    if u.len() == 0 {
        Seq::empty()
    } else if u.last() == '-' {
        undashed(u.drop_last())
    } else {
        undashed(u.drop_last()).push(u.last())
    }
}

proof fn lemma_fold_letters(s: Seq<char>)
    ensures
        undashed(slug_fold(s).0) == slug_letters(s),
    decreases s.len(),
{
    if s.len() > 0 {
        lemma_fold_letters(s.drop_last());
        let (out, pd) = slug_fold(s.drop_last());
        let ch = s.last();
        if is_alnum(ch) {
            lemma_lower_alnum(ch);
            assert(out.push(lower_char(ch)).drop_last() =~= out);
        } else if !pd && out.len() > 0 {
            assert(out.push('-').drop_last() =~= out);
        }
    }
}

proof fn lemma_trim_dashes_undashed(u: Seq<char>)
    ensures
        undashed(trim_end_char(u, '-')) == undashed(u),
    decreases u.len(),
{
    if u.len() > 0 && u.last() == '-' {
        lemma_trim_dashes_undashed(u.drop_last());
    }
}

proof fn lemma_undashed_empty(u: Seq<char>)
    requires
        undashed(u).len() == 0,
    ensures
        forall|i: int| 0 <= i < u.len() ==> u[i] == '-',
    decreases u.len(),
{
    if u.len() > 0 {
        if u.last() != '-' {
            assert(undashed(u).len() == undashed(u.drop_last()).len() + 1);
        }
        lemma_undashed_empty(u.drop_last());
        assert forall|i: int| 0 <= i < u.len() implies u[i] == '-' by {
            if i < u.len() - 1 {
                assert(u[i] == u.drop_last()[i]);
            }
        }
    }
}

/// A slug is the name's ASCII letters and digits, lowercased and in order,
/// with dashes between some of them; it is empty exactly when the name has
/// no ASCII letter or digit.
pub proof fn lemma_slug_letters(s: Seq<char>)
    ensures
        undashed(slug(s)) == slug_letters(s),
        slug(s).len() == 0 <==> slug_letters(s).len() == 0,
{
    lemma_fold_letters(s);
    lemma_trim_dashes_undashed(slug_fold(s).0);
    lemma_slug_shape(s);
    let t = slug(s);
    if slug_letters(s).len() == 0 && t.len() > 0 {
        lemma_undashed_empty(t);
        assert(t[0] == '-');
    }
}

} // verus!
