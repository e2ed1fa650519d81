//! The extensions panel of the side bar: its heading, a row per installed
//! extension with its tags and status, and the footer summary.

use crate::extensions::InstalledExtension;
use crate::paths::display_of;
use crate::text::{chars_of, decimal, push_all, push_decimal, same_chars, string_of};
use vstd::prelude::*;

verus! {

/// The color a piece of panel text takes.
#[derive(Clone, Copy, Debug, PartialEq, Eq, Structural)]
pub enum Tone {
    Accent,
    Muted,
    Modified,
}

/// A tag under an extension's name.
pub struct Tag {
    pub text: String,
    pub tone: Tone,
}

/// The number of themes all extensions contributed.
pub open spec fn total_themes(s: Seq<InstalledExtension>) -> nat
    decreases s.len(),
{
    if s.len() == 0 {
        0
    } else {
        total_themes(s.drop_last()) + s.last().themes@.len()
    }
}

/// How many themes the installed extensions contributed.
pub fn theme_count(installed: &[InstalledExtension]) -> (r: usize)
    requires
        total_themes(installed@) <= usize::MAX,
    ensures
        r == total_themes(installed@),
{
    let mut n: usize = 0;
    let mut i: usize = 0;
    while i < installed.len()
        invariant
            0 <= i <= installed@.len(),
            n == total_themes(installed@.take(i as int)),
            total_themes(installed@) <= usize::MAX,
        decreases installed@.len() - i,
    {
        assert(installed@.take(i + 1).drop_last() =~= installed@.take(i as int));
        proof {
            lemma_total_prefix(installed@, i + 1);
        }
        n = n + installed[i].themes.len();
        i = i + 1;
    }
    assert(installed@.take(i as int) =~= installed@);
    n
}

/// The themes of a prefix are no more than those of the whole.
proof fn lemma_total_prefix(s: Seq<InstalledExtension>, k: int)
    requires
        0 <= k <= s.len(),
    ensures
        total_themes(s.take(k)) <= total_themes(s),
    decreases s.len() - k,
{
    if k < s.len() {
        lemma_total_prefix(s, k + 1);
        assert(s.take(k + 1).drop_last() =~= s.take(k));
    } else {
        assert(s.take(k) =~= s);
    }
}

/// The heading above the list: `INSTALLED (<count>)`.
pub fn installed_heading(count: usize) -> (r: String)
    ensures
        r@ == "INSTALLED ("@ + decimal(count as nat) + ")"@,
{
    let mut cs = chars_of("INSTALLED (");
    push_decimal(&mut cs, count as u64);
    push_all(&mut cs, chars_of(")").as_slice());
    string_of(&cs)
}

/// The tags of an extension, as `(text, tone)`: its theme count when it has
/// themes, whether it needs the extension host, and partial support.
pub open spec fn tags_for(e: InstalledExtension) -> Seq<(Seq<char>, Tone)> {
    let t1: Seq<(Seq<char>, Tone)> = if e.themes@.len() > 0 {
        seq![(decimal(e.themes@.len()) + " themes"@, Tone::Accent)]
    } else {
        seq![]
    };
    let t2 = t1.push(
        if e.declarative_only {
            ("no runtime"@, Tone::Muted)
        } else {
            ("extension host"@, Tone::Muted)
        },
    );
    if e.compatibility@ == "partial"@ {
        t2.push(("partial support"@, Tone::Modified))
    } else {
        t2
    }
}

/// The tags shown under an extension's name.
pub fn extension_tags(item: &InstalledExtension) -> (r: Vec<Tag>)
    ensures
        r@.map_values(|t: Tag| (t.text@, t.tone)) == tags_for(*item),
{
    let mut out: Vec<Tag> = Vec::new();
    if item.themes.len() > 0 {
        let mut cs: Vec<char> = Vec::new();
        push_decimal(&mut cs, item.themes.len() as u64);
        push_all(&mut cs, chars_of(" themes").as_slice());
        out.push(Tag { text: string_of(&cs), tone: Tone::Accent });
    }
    let runtime = if item.declarative_only {
        "no runtime".to_string()
    } else {
        "extension host".to_string()
    };
    out.push(Tag { text: runtime, tone: Tone::Muted });
    if same_chars(chars_of(item.compatibility.as_str()).as_slice(), chars_of("partial").as_slice()) {
        out.push(Tag { text: "partial support".to_string(), tone: Tone::Modified });
    }
    assert(out@.map_values(|t: Tag| (t.text@, t.tone)) =~= tags_for(*item));
    out
}

/// The colors of the status badge of a row.
#[derive(Clone, Copy, Debug, PartialEq, Eq, Structural)]
pub enum StatusColors {
    /// Muted text on the active element color.
    Enabled,
    /// Background-colored text on the focused border color.
    Disabled,
}

/// The status badge of an extension row: its label and colors.
pub fn status_badge(enabled: bool) -> (r: (&'static str, StatusColors))
    ensures
        r.0@ == (if enabled { "Enabled"@ } else { "Disabled"@ }),
        r.1 == (if enabled { StatusColors::Enabled } else { StatusColors::Disabled }),
{
    if enabled {
        ("Enabled", StatusColors::Enabled)
    } else {
        ("Disabled", StatusColors::Disabled)
    }
}

/// The footer: where extensions go when none is installed, else the counts.
pub open spec fn footer_text(count: nat, themes: nat, extensions_dir: Seq<char>) -> Seq<char> {
    if count == 0 {
        extensions_dir
    } else {
        decimal(count) + " installed · "@ + decimal(themes) + " themes contributed"@
    }
}

/// The footer line of the panel.
pub fn footer_summary(count: usize, theme_count: usize, extensions_dir: &str) -> (r: String)
    ensures
        r@ == footer_text(count as nat, theme_count as nat, extensions_dir@),
{
    if count == 0 {
        return display_of(extensions_dir);
    }
    let mut cs: Vec<char> = Vec::new();
    push_decimal(&mut cs, count as u64);
    push_all(&mut cs, chars_of(" installed · ").as_slice());
    push_decimal(&mut cs, theme_count as u64);
    push_all(&mut cs, chars_of(" themes contributed").as_slice());
    string_of(&cs)
}

} // verus!
