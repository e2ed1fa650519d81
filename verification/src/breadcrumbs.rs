//! Breadcrumbs for the editor: the folders of the open file, the file, and
//! the outline symbols (Markdown headings or code declarations) around the
//! cursor.

use crate::paths::{
    components_of, extension_of, file_name_of, parent_of, path_components, path_extension,
    path_file_name, path_has_prefix, path_parent, path_strip_prefix, path_suffix,
};
use crate::text::{
    char_utf8_len, chars_of, contains_seq, contains_seq_exec, ends_with, find_char, find_char_from,
    find_from, find_seq, has_prefix, has_suffix, lemma_find_char_result, lemma_find_result, lines,
    push_all, same_chars, slice_chars, split_lines, starts_with, string_of, trim, trim_chars,
    trim_end_char, trim_end_matches, utf8_len, views, to_lowercase, unicode_lower,
};
use vstd::prelude::*;

verus! {

/// What a breadcrumb stands for.
#[derive(Clone, Copy, Debug, PartialEq, Eq, Structural)]
pub enum BreadcrumbKind {
    Folder,
    File,
    Symbol,
}

/// One breadcrumb: its text, kind, icon and the 1-based line it jumps to.
#[derive(Clone, Debug)]
pub struct BreadcrumbItem {
    pub label: String,
    pub kind: BreadcrumbKind,
    pub icon: Option<String>,
    pub line: Option<usize>,
}

/// The value of a breadcrumb.
pub struct CrumbView {
    pub label: Seq<char>,
    pub kind: BreadcrumbKind,
    pub icon: Option<Seq<char>>,
    pub line: Option<int>,
}

/// The value of a breadcrumb item.
pub open spec fn crumb_view(b: BreadcrumbItem) -> CrumbView {
    CrumbView {
        label: b.label@,
        kind: b.kind,
        icon: match b.icon {
            Some(s) => Some(s@),
            None => None,
        },
        line: match b.line {
            Some(l) => Some(l as int),
            None => None,
        },
    }
}

/// The values of a sequence of breadcrumbs.
pub open spec fn crumbs_view(s: Seq<BreadcrumbItem>) -> Seq<CrumbView> {
    s.map_values(|b: BreadcrumbItem| crumb_view(b))
}

/// An outline entry: the symbol's text at a 1-based line.
pub open spec fn symbol_crumb(line: int, label: Seq<char>) -> CrumbView {
    CrumbView { label, kind: BreadcrumbKind::Symbol, icon: None, line: Some(line) }
}

/// Number of leading `#` of `t`.
pub open spec fn leading_hashes(t: Seq<char>) -> nat
    decreases t.len(),
{
    if t.len() > 0 && t[0] == '#' {
        1 + leading_hashes(t.drop_first())
    } else {
        0
    }
}

/// The level (1 to 6) of a Markdown heading line, or 0 for any other line.
pub open spec fn heading_level(line: Seq<char>) -> nat {
    let t = trim(line);
    let h = leading_hashes(t);
    if 1 <= h <= 6 && trim(t.skip(h as int)).len() > 0 {
        h
    } else {
        0
    }
}

/// The stack without its entries of level `h` or deeper on top.
pub open spec fn pop_deeper(st: Seq<(nat, int, Seq<char>)>, h: nat) -> Seq<(nat, int, Seq<char>)>
    decreases st.len(),
{
    if st.len() > 0 && st.last().0 >= h {
        pop_deeper(st.drop_last(), h)
    } else {
        st
    }
}

/// The chain of headings that encloses the end of `ls`: each heading
/// replaces those of its own level or deeper.
pub open spec fn heading_chain(ls: Seq<Seq<char>>) -> Seq<(nat, int, Seq<char>)>
    decreases ls.len(),
{
    if ls.len() == 0 {
        Seq::empty()
    } else {
        let st = heading_chain(ls.drop_last());
        let h = heading_level(ls.last());
        if h > 0 {
            pop_deeper(st, h).push((h, ls.len() as int, trim(ls.last())))
        } else {
            st
        }
    }
}

/// The lines up to and including the 1-based `cursor_line`.
pub open spec fn lines_upto(text: Seq<char>, cursor_line: int) -> Seq<Seq<char>> {
    let ls = lines(text);
    if cursor_line < ls.len() {
        ls.take(cursor_line)
    } else {
        ls
    }
}

/// The heading chain as breadcrumbs.
pub open spec fn heading_crumbs(text: Seq<char>, cursor_line: int) -> Seq<CrumbView> {
    heading_chain(lines_upto(text, cursor_line)).map_values(
        |e: (nat, int, Seq<char>)| symbol_crumb(e.1, e.2),
    )
}

/// The text between the first and the second occurrence of `kw` in `line`
/// (`line.split(kw).nth(1)`).
pub open spec fn after_keyword(line: Seq<char>, kw: Seq<char>) -> Option<Seq<char>> {
    let i = find_from(line, kw, 0);
    if i < 0 {
        None
    } else {
        let rest = line.skip(i + kw.len());
        let j = find_from(rest, kw, 0);
        Some(
            if j < 0 {
                rest
            } else {
                rest.take(j)
            },
        )
    }
}

/// A character that ends a declared name.
pub open spec fn is_name_end(c: char) -> bool {
    c == '(' || c == ':' || c == '{' || c == '<' || c == ' '
}

/// The text before the first character that ends a name.
pub open spec fn name_part(s: Seq<char>) -> Seq<char>
    decreases s.len(),
{
    if s.len() == 0 || is_name_end(s[0]) {
        Seq::empty()
    } else {
        seq![s[0]] + name_part(s.drop_first())
    }
}

/// `kw` and the name declared after it, e.g. `fn new` for `pub fn new() {`.
pub open spec fn keyword_name(line: Seq<char>, kw: Seq<char>) -> Option<Seq<char>> {
    match after_keyword(line, kw) {
        None => None,
        Some(after) => {
            let name = trim(name_part(trim(after)));
            if name.len() == 0 {
                None
            } else {
                Some(
                    trim(kw) + (if has_suffix(kw, seq![' ']) {
                        seq![' ']
                    } else {
                        Seq::empty()
                    }) + name,
                )
            }
        },
    }
}

/// A declaration line up to its body, without trailing `;`, trimmed.
pub open spec fn declaration_head(line: Seq<char>) -> Seq<char> {
    let i = find_char_from(line, '{', 0);
    let before = if i < 0 {
        line
    } else {
        line.take(i)
    };
    trim(trim_end_char(before, ';'))
}

/// Number of characters whose UTF-8 encoding takes exactly 38 bytes, if any.
pub open spec fn cut_at_38(s: Seq<char>) -> Option<int> {
    if exists|k: int| 0 <= k <= s.len() && utf8_len(s.take(k)) == 38 {
        Some(choose|k: int| 0 <= k <= s.len() && utf8_len(s.take(k)) == 38)
    } else {
        None
    }
}

/// Whether shortening a declaration head stays on a character boundary.
pub open spec fn head_cut_ok(line: Seq<char>) -> bool {
    let h = declaration_head(line);
    utf8_len(h) > 40 ==> cut_at_38(h) is Some
}

/// A declaration head, cut to 38 bytes plus an ellipsis when longer than 40.
pub open spec fn clean_head(line: Seq<char>) -> Seq<char> {
    let h = declaration_head(line);
    if utf8_len(h) > 40 {
        h.take(cut_at_38(h).unwrap()) + seq!['…']
    } else {
        h
    }
}

/// `t` starts with one of the given prefixes.
pub open spec fn starts_with_any(t: Seq<char>, ps: Seq<Seq<char>>) -> bool {
    exists|i: int| 0 <= i < ps.len() && has_prefix(t, #[trigger] ps[i])
}

/// Prefixes of Rust function declarations.
pub open spec fn rs_fn_prefixes() -> Seq<Seq<char>> {
    seq!["pub fn "@, "fn "@, "pub(crate) fn "@, "async fn "@, "pub async fn "@]
}

/// Prefixes of Rust type and impl declarations.
pub open spec fn rs_type_prefixes() -> Seq<Seq<char>> {
    seq!["impl "@, "pub struct "@, "struct "@, "pub enum "@, "enum "@, "pub trait "@, "trait "@]
}

/// Prefixes of Rust module declarations.
pub open spec fn rs_mod_prefixes() -> Seq<Seq<char>> {
    seq!["mod "@, "pub mod "@]
}

/// Prefixes of JavaScript/TypeScript function declarations.
pub open spec fn js_fn_prefixes() -> Seq<Seq<char>> {
    seq!["function "@, "export function "@, "async function "@, "export async function "@]
}

/// Prefixes of JavaScript/TypeScript type declarations.
pub open spec fn js_type_prefixes() -> Seq<Seq<char>> {
    seq!["class "@, "export class "@, "interface "@, "export interface "@, "type "@, "export type "@]
}

/// The outline symbol a trimmed line declares in a file with extension `ext`.
pub open spec fn line_symbol(t: Seq<char>, ext: Seq<char>) -> Option<Seq<char>> {
    if ext == "rs"@ {
        if starts_with_any(t, rs_fn_prefixes()) {
            keyword_name(t, "fn "@)
        } else if starts_with_any(t, rs_type_prefixes()) || starts_with_any(t, rs_mod_prefixes()) {
            Some(clean_head(t))
        } else {
            None
        }
    } else if ext == "ts"@ || ext == "tsx"@ || ext == "js"@ || ext == "jsx"@ {
        if starts_with_any(t, js_fn_prefixes()) {
            keyword_name(t, "function "@)
        } else if starts_with_any(t, js_type_prefixes()) {
            Some(clean_head(t))
        } else if has_prefix(t, "const "@) && contains_seq(t, " = "@) && (contains_seq(t, "=>"@)
            || contains_seq(t, "function"@)) {
            keyword_name(t, "const "@)
        } else {
            None
        }
    } else if ext == "py"@ {
        if has_prefix(t, "def "@) {
            keyword_name(t, "def "@)
        } else if has_prefix(t, "class "@) {
            keyword_name(t, "class "@)
        } else {
            None
        }
    } else if ext == "go"@ {
        if has_prefix(t, "func "@) {
            keyword_name(t, "func "@)
        } else if has_prefix(t, "type "@) {
            Some(clean_head(t))
        } else {
            None
        }
    } else {
        None
    }
}

/// A trimmed line that cannot declare anything: empty or a comment.
pub open spec fn is_skipped(t: Seq<char>) -> bool {
    t.len() == 0 || has_prefix(t, "//"@) || has_prefix(t, "/*"@) || has_prefix(t, "*"@)
}

/// Whether the outline symbol of the trimmed line `t` is its declaration head.
pub open spec fn needs_head(t: Seq<char>, ext: Seq<char>) -> bool {
    if ext == "rs"@ {
        !starts_with_any(t, rs_fn_prefixes()) && (starts_with_any(t, rs_type_prefixes())
            || starts_with_any(t, rs_mod_prefixes()))
    } else if ext == "ts"@ || ext == "tsx"@ || ext == "js"@ || ext == "jsx"@ {
        !starts_with_any(t, js_fn_prefixes()) && starts_with_any(t, js_type_prefixes())
    } else if ext == "go"@ {
        !has_prefix(t, "func "@) && has_prefix(t, "type "@)
    } else {
        false
    }
}

/// Whether the outline symbol of a line is computed without cutting inside
/// a character (the case in which slicing the text would fail).
pub open spec fn line_safe(line: Seq<char>, ext: Seq<char>) -> bool {
    let t = trim(line);
    is_skipped(t) || !needs_head(t, ext) || head_cut_ok(t)
}

/// The declarations found in `ls`, with their 1-based line numbers.
pub open spec fn symbols_in(ls: Seq<Seq<char>>, ext: Seq<char>) -> Seq<(int, Seq<char>)>
    decreases ls.len(),
{
    if ls.len() == 0 {
        Seq::empty()
    } else {
        let prev = symbols_in(ls.drop_last(), ext);
        let t = trim(ls.last());
        if is_skipped(t) {
            prev
        } else {
            match line_symbol(t, ext) {
                Some(s) => prev.push((ls.len() as int, s)),
                None => prev,
            }
        }
    }
}

/// The last (at most two) declarations up to the cursor, as breadcrumbs.
pub open spec fn symbol_crumbs(text: Seq<char>, cursor_line: int, ext: Seq<char>) -> Seq<CrumbView> {
    let syms = symbols_in(lines_upto(text, cursor_line), ext);
    let keep = if syms.len() < 2 {
        syms.len() as int
    } else {
        2
    };
    syms.skip(syms.len() - keep).map_values(|e: (int, Seq<char>)| symbol_crumb(e.0, e.1))
}

proof fn lemma_heading_chain_lines(ls: Seq<Seq<char>>)
    ensures
        forall|k: int| 0 <= k < heading_chain(ls).len() ==> 1 <= #[trigger] heading_chain(ls)[k].1 <= ls.len(),
    decreases ls.len(),
{
    if ls.len() > 0 {
        lemma_heading_chain_lines(ls.drop_last());
        lemma_pop_deeper_prefix(heading_chain(ls.drop_last()), heading_level(ls.last()));
    }
}

proof fn lemma_pop_deeper_prefix(st: Seq<(nat, int, Seq<char>)>, h: nat)
    ensures
        pop_deeper(st, h).len() <= st.len(),
        pop_deeper(st, h) == st.take(pop_deeper(st, h).len() as int),
    decreases st.len(),
{
    if st.len() > 0 && st.last().0 >= h {
        lemma_pop_deeper_prefix(st.drop_last(), h);
        let p = pop_deeper(st.drop_last(), h);
        assert(st.drop_last().take(p.len() as int) =~= st.take(p.len() as int));
    } else {
        assert(st.take(st.len() as int) =~= st);
    }
}

proof fn lemma_leading_hashes_step(t: Seq<char>, i: int)
    requires
        0 <= i < t.len(),
        forall|j: int| 0 <= j <= i ==> #[trigger] t[j] == '#',
    ensures
        leading_hashes(t) == i + 1 + leading_hashes(t.skip(i + 1)),
    decreases i,
{
    if i > 0 {
        lemma_leading_hashes_step(t.drop_first(), i - 1);
        assert(t.drop_first().skip(i) =~= t.skip(i + 1));
    } else {
        assert(t.drop_first() =~= t.skip(1));
    }
}

/// Number of leading `#` of `t`.
fn count_hashes(t: &[char]) -> (r: usize)
    ensures
        r == leading_hashes(t@),
        r <= t@.len(),
{
    let mut i: usize = 0;
    while i < t.len() && t[i] == '#'
        invariant
            0 <= i <= t@.len(),
            forall|j: int| 0 <= j < i ==> #[trigger] t@[j] == '#',
        decreases t@.len() - i,
    {
        i = i + 1;
    }
    proof {
        if i > 0 {
            lemma_leading_hashes_step(t@, i - 1);
        }
        let rest = t@.skip(i as int);
        if i < t@.len() {
            assert(rest[0] == t@[i as int]);
        }
        assert(leading_hashes(rest) == 0);
        if i == 0 {
            assert(rest =~= t@);
        }
    }
    i
}

/// The Markdown headings whose sections enclose the 1-based `cursor_line`,
/// outermost first, each with the line it starts on.
pub fn extract_markdown_headings(text: &str, cursor_line: usize) -> (r: Vec<BreadcrumbItem>)
    ensures
        crumbs_view(r@) == heading_crumbs(text@, cursor_line as int),
{
    let all = chars_of(text);
    let ls = split_lines(&all);
    let ghost lsv = lines(text@);
    let mut stack: Vec<(usize, usize, Vec<char>)> = Vec::new();
    let mut idx: usize = 0;
    let limit: usize = if cursor_line < ls.len() {
        cursor_line
    } else {
        ls.len()
    };
    proof {
        assert(lsv.take(0) =~= Seq::<Seq<char>>::empty());
    }
    while idx < limit
        invariant
            views(ls@) == lsv,
            limit <= ls@.len(),
            0 <= idx <= limit,
            stack@.len() == heading_chain(lsv.take(idx as int)).len(),
            forall|k: int| 0 <= k < stack@.len() ==> {
                let e = #[trigger] stack@[k];
                let s = heading_chain(lsv.take(idx as int))[k];
                e.0 as nat == s.0 && e.1 as int == s.1 && e.2@ == s.2
            },
            forall|k: int| 0 <= k < stack@.len() ==> 1 <= #[trigger] stack@[k].0 <= 6,
        decreases limit - idx,
    {
        let line = &ls[idx];
        assert(line@ == lsv[idx as int]);
        let t = trim_chars(line);
        let hashes = count_hashes(&t);
        let ghost h = heading_level(lsv[idx as int]);
        let mut is_heading = false;
        if hashes >= 1 && hashes <= 6 {
            let rest = slice_chars(&t, hashes, t.len());
            let rt = trim_chars(&rest);
            if rt.len() > 0 {
                is_heading = true;
            }
        }
        assert(is_heading <==> h > 0);
        let ghost prev_chain = heading_chain(lsv.take(idx as int));
        proof {
            assert(lsv.take(idx + 1).drop_last() =~= lsv.take(idx as int));
            assert(lsv.take(idx + 1).last() == lsv[idx as int]);
        }
        if is_heading {
            let ghost mut popped = prev_chain;
            while stack.len() > 0 && stack[stack.len() - 1].0 >= hashes
                invariant
                    stack@.len() == popped.len(),
                    h == hashes as nat,
                    pop_deeper(prev_chain, h) == pop_deeper(popped, h),
                    forall|k: int| 0 <= k < stack@.len() ==> {
                        let e = #[trigger] stack@[k];
                        let s = popped[k];
                        e.0 as nat == s.0 && e.1 as int == s.1 && e.2@ == s.2
                    },
                    forall|k: int| 0 <= k < stack@.len() ==> 1 <= #[trigger] stack@[k].0 <= 6,
                decreases stack@.len(),
            {
                stack.pop();
                proof {
                    popped = popped.drop_last();
                }
            }
            proof {
                if popped.len() > 0 {
                    assert(popped.last().0 < h);
                }
                assert(pop_deeper(popped, h) == popped);
            }
            let line_num = idx + 1;
            stack.push((hashes, line_num, t));
        }
        idx = idx + 1;
    }
    let mut out: Vec<BreadcrumbItem> = Vec::new();
    let mut k: usize = 0;
    let ghost chain = heading_chain(lsv.take(limit as int));
    proof {
        assert(lsv.take(limit as int) =~= lines_upto(text@, cursor_line as int));
    }
    while k < stack.len()
        invariant
            0 <= k <= stack@.len(),
            stack@.len() == chain.len(),
            chain == heading_chain(lines_upto(text@, cursor_line as int)),
            forall|j: int| 0 <= j < stack@.len() ==> {
                let e = #[trigger] stack@[j];
                let s = chain[j];
                e.0 as nat == s.0 && e.1 as int == s.1 && e.2@ == s.2
            },
            crumbs_view(out@) == chain.take(k as int).map_values(
                |e: (nat, int, Seq<char>)| symbol_crumb(e.1, e.2),
            ),
        decreases stack@.len() - k,
    {
        let item = BreadcrumbItem {
            label: string_of(&stack[k].2),
            kind: BreadcrumbKind::Symbol,
            icon: None,
            line: Some(stack[k].1),
        };
        let ghost before = out@;
        proof {
            assert(crumb_view(item) == symbol_crumb(chain[k as int].1, chain[k as int].2));
        }
        out.push(item);
        proof {
            assert(crumbs_view(out@) =~= crumbs_view(before).push(crumb_view(item)));
            assert(chain.take(k + 1) =~= chain.take(k as int).push(chain[k as int]));
            assert(crumbs_view(out@) =~= chain.take(k + 1).map_values(
                |e: (nat, int, Seq<char>)| symbol_crumb(e.1, e.2),
            ));
        }
        k = k + 1;
    }
    assert(chain.take(chain.len() as int) =~= chain);
    out
}

proof fn lemma_utf8_len_take_step(s: Seq<char>, k: int)
    requires
        0 <= k < s.len(),
    ensures
        utf8_len(s.take(k + 1)) == utf8_len(s.take(k)) + char_utf8_len(s[k]),
{
    assert(s.take(k + 1).drop_last() =~= s.take(k));
}

proof fn lemma_utf8_len_take_mono(s: Seq<char>, a: int, b: int)
    requires
        0 <= a < b <= s.len(),
    ensures
        utf8_len(s.take(a)) < utf8_len(s.take(b)),
    decreases b - a,
{
    lemma_utf8_len_take_step(s, b - 1);
    if a < b - 1 {
        lemma_utf8_len_take_mono(s, a, b - 1);
    }
}

/// Whether the UTF-8 encoding of `v` takes more than `limit` bytes.
fn utf8_longer_than(v: &[char], limit: usize) -> (r: bool)
    requires
        limit < usize::MAX - 4,
    ensures
        r == (utf8_len(v@) > limit),
{
    let mut total: usize = 0;
    let mut i: usize = 0;
    while i < v.len()
        invariant
            limit < usize::MAX - 4,
            0 <= i <= v@.len(),
            total == utf8_len(v@.take(i as int)),
            total <= limit,
        decreases v@.len() - i,
    {
        let n = v[i] as u32;
        let w: usize = if n < 0x80 {
            1
        } else if n < 0x800 {
            2
        } else if n < 0x10000 {
            3
        } else {
            4
        };
        proof {
            lemma_utf8_len_take_step(v@, i as int);
        }
        total = total + w;
        i = i + 1;
        if total > limit {
            proof {
                if (i as int) < v@.len() {
                    lemma_utf8_len_take_mono(v@, i as int, v@.len() as int);
                }
                assert(v@.take(v@.len() as int) =~= v@);
            }
            return true;
        }
    }
    assert(v@.take(v@.len() as int) =~= v@);
    false
}

/// The text before the first character that ends a name.
fn name_part_exec(s: &[char]) -> (r: Vec<char>)
    ensures
        r@ == name_part(s@),
{
    let mut i: usize = 0;
    assert(s@.take(0) + s@.skip(0) =~= s@);
    assert(s@.take(0) =~= Seq::<char>::empty());
    while i < s.len() && !(s[i] == '(' || s[i] == ':' || s[i] == '{' || s[i] == '<' || s[i] == ' ')
        invariant
            0 <= i <= s@.len(),
            forall|j: int| 0 <= j < i ==> !is_name_end(#[trigger] s@[j]),
            name_part(s@) == s@.take(i as int) + name_part(s@.skip(i as int)),
        decreases s@.len() - i,
    {
        proof {
            let rest = s@.skip(i as int);
            assert(rest[0] == s@[i as int]);
            assert(rest.drop_first() =~= s@.skip(i + 1));
            assert(s@.take(i + 1) =~= s@.take(i as int) + seq![s@[i as int]]);
        }
        i = i + 1;
    }
    proof {
        let rest = s@.skip(i as int);
        if i < s@.len() {
            assert(rest[0] == s@[i as int]);
        }
        assert(name_part(rest) =~= Seq::<char>::empty());
    }
    slice_chars(s, 0, i)
}

/// `kw` and the name declared after it in `line`, if any.
fn keyword_name_exec(line: &[char], kw: &[char]) -> (r: Option<Vec<char>>)
    ensures
        match r {
            Some(v) => keyword_name(line@, kw@) == Some(v@),
            None => keyword_name(line@, kw@) is None,
        },
{
    let i = match find_seq(line, kw, 0) {
        Some(i) => i,
        None => {
            return None;
        },
    };
    proof {
        lemma_find_result(line@, kw@, 0);
    }
    assert(i + kw@.len() <= line@.len());
    assert(i + kw.len() <= line.len());
    let rest = slice_chars(line, i + kw.len(), line.len());
    assert(rest@ =~= line@.skip(i + kw@.len()));
    let seg = match find_seq(&rest, kw, 0) {
        Some(j) => {
            proof {
                lemma_find_result(rest@, kw@, 0);
            }
            slice_chars(&rest, 0, j)
        },
        None => rest,
    };
    assert(after_keyword(line@, kw@) == Some(seg@));
    let after = trim_chars(&seg);
    let np = name_part_exec(&after);
    let name = trim_chars(&np);
    if name.len() == 0 {
        return None;
    }
    let mut out = trim_chars(kw);
    if ends_with(kw, &[' ']) {
        assert([' ']@ =~= seq![' ']);
        out.push(' ');
    } else {
        assert([' ']@ =~= seq![' ']);
    }
    let ghost before = out@;
    push_all(&mut out, &name);
    Some(out)
}

/// A declaration head, shortened to 38 bytes and an ellipsis when longer
/// than 40 bytes.
fn clean_head_exec(line: &[char]) -> (r: Vec<char>)
    requires
        head_cut_ok(line@),
    ensures
        r@ == clean_head(line@),
{
    let before = match find_char(line, '{', 0) {
        Some(i) => {
            proof {
                lemma_find_char_result(line@, '{', 0);
            }
            slice_chars(line, 0, i)
        },
        None => slice_chars(line, 0, line.len()),
    };
    assert(line@.subrange(0, line@.len() as int) =~= line@);
    let semi = trim_end_matches(&before, ';');
    let h = trim_chars(&semi);
    assert(h@ == declaration_head(line@));
    if !utf8_longer_than(&h, 40) {
        return h;
    }
    let mut k: usize = 0;
    let mut total: usize = 0;
    while total < 38
        invariant
            head_cut_ok(line@),
            h@ == declaration_head(line@),
            utf8_len(h@) > 40,
            0 <= k <= h@.len(),
            total == utf8_len(h@.take(k as int)),
            total <= 38,
        decreases 38 - total,
    {
        proof {
            let c = cut_at_38(h@).unwrap();
            assert(0 <= c <= h@.len() && utf8_len(h@.take(c)) == 38);
            if k >= h@.len() {
                assert(h@.take(k as int) =~= h@);
            }
            if c <= k {
                if c < k {
                    lemma_utf8_len_take_mono(h@, c, k as int);
                }
            }
        }
        assert(k < h@.len());
        assert(k < h.len());
        let n = h[k] as u32;
        let w: usize = if n < 0x80 {
            1
        } else if n < 0x800 {
            2
        } else if n < 0x10000 {
            3
        } else {
            4
        };
        proof {
            lemma_utf8_len_take_step(h@, k as int);
            let c = cut_at_38(h@).unwrap();
            if c > k + 1 {
                lemma_utf8_len_take_mono(h@, k + 1, c);
            }
        }
        total = total + w;
        k = k + 1;
    }
    proof {
        let c = cut_at_38(h@).unwrap();
        if c < k {
            lemma_utf8_len_take_mono(h@, c, k as int);
        } else if c > k {
            lemma_utf8_len_take_mono(h@, k as int, c);
        }
    }
    let mut out = slice_chars(&h, 0, k);
    out.push('…');
    proof {
        assert(h@.subrange(0, k as int) =~= h@.take(k as int));
    }
    out
}

/// Whether `t` starts with one of `ps`.
fn starts_with_any_exec(t: &[char], ps: &Vec<Vec<char>>) -> (r: bool)
    ensures
        r == starts_with_any(t@, views(ps@)),
{
    let mut i: usize = 0;
    while i < ps.len()
        invariant
            0 <= i <= ps@.len(),
            forall|j: int| 0 <= j < i ==> !has_prefix(t@, #[trigger] views(ps@)[j]),
        decreases ps@.len() - i,
    {
        if starts_with(t, &ps[i]) {
            assert(views(ps@)[i as int] == ps@[i as int]@);
            return true;
        }
        i = i + 1;
    }
    false
}

/// The characters of each of the given texts.
fn char_lists(items: &[&str]) -> (r: Vec<Vec<char>>)
    ensures
        views(r@) == items@.map_values(|s: &str| s@),
{
    let mut out: Vec<Vec<char>> = Vec::new();
    let mut i: usize = 0;
    while i < items.len()
        invariant
            0 <= i <= items@.len(),
            views(out@) == items@.take(i as int).map_values(|s: &str| s@),
        decreases items@.len() - i,
    {
        let c = chars_of(items[i]);
        let ghost before = out@;
        out.push(c);
        proof {
            assert(views(out@) =~= views(before).push(c@));
            assert(items@.take(i + 1).map_values(|s: &str| s@) =~= items@.take(i as int).map_values(|s: &str| s@).push(items@[i as int]@));
        }
        i = i + 1;
    }
    assert(items@.take(items@.len() as int) =~= items@);
    out
}

/// The outline symbol the trimmed line `t` declares in a file with
/// extension `ext`.
fn line_symbol_exec(t: &[char], ext: &[char]) -> (r: Option<Vec<char>>)
    requires
        needs_head(t@, ext@) ==> head_cut_ok(t@),
    ensures
        match r {
            Some(v) => line_symbol(t@, ext@) == Some(v@),
            None => line_symbol(t@, ext@) is None,
        },
{
    let rs = chars_of("rs");
    if same_chars(ext, &rs) {
        let fns = char_lists(&["pub fn ", "fn ", "pub(crate) fn ", "async fn ", "pub async fn "]);
        let types = char_lists(&["impl ", "pub struct ", "struct ", "pub enum ", "enum ", "pub trait ", "trait "]);
        let mods = char_lists(&["mod ", "pub mod "]);
        assert(views(fns@) =~= rs_fn_prefixes());
        assert(views(types@) =~= rs_type_prefixes());
        assert(views(mods@) =~= rs_mod_prefixes());
        if starts_with_any_exec(t, &fns) {
            let kw = chars_of("fn ");
            return keyword_name_exec(t, &kw);
        } else if starts_with_any_exec(t, &types) || starts_with_any_exec(t, &mods) {
            return Some(clean_head_exec(t));
        } else {
            return None;
        }
    }
    let ts = chars_of("ts");
    let tsx = chars_of("tsx");
    let js = chars_of("js");
    let jsx = chars_of("jsx");
    if same_chars(ext, &ts) || same_chars(ext, &tsx) || same_chars(ext, &js) || same_chars(ext, &jsx) {
        let fns = char_lists(&["function ", "export function ", "async function ", "export async function "]);
        let types = char_lists(&["class ", "export class ", "interface ", "export interface ", "type ", "export type "]);
        assert(views(fns@) =~= js_fn_prefixes());
        assert(views(types@) =~= js_type_prefixes());
        if starts_with_any_exec(t, &fns) {
            let kw = chars_of("function ");
            return keyword_name_exec(t, &kw);
        } else if starts_with_any_exec(t, &types) {
            return Some(clean_head_exec(t));
        }
        let kc = chars_of("const ");
        let eq = chars_of(" = ");
        let arrow = chars_of("=>");
        let func = chars_of("function");
        if starts_with(t, &kc) && contains_seq_exec(t, &eq) && (contains_seq_exec(t, &arrow)
            || contains_seq_exec(t, &func)) {
            return keyword_name_exec(t, &kc);
        }
        return None;
    }
    let py = chars_of("py");
    if same_chars(ext, &py) {
        let d = chars_of("def ");
        let c = chars_of("class ");
        if starts_with(t, &d) {
            return keyword_name_exec(t, &d);
        } else if starts_with(t, &c) {
            return keyword_name_exec(t, &c);
        }
        return None;
    }
    let go = chars_of("go");
    if same_chars(ext, &go) {
        let f = chars_of("func ");
        let ty = chars_of("type ");
        if starts_with(t, &f) {
            return keyword_name_exec(t, &f);
        } else if starts_with(t, &ty) {
            return Some(clean_head_exec(t));
        }
        return None;
    }
    None
}

/// The last (at most two) declarations up to the 1-based `cursor_line` in a
/// file with extension `ext`, each with the line it is on.
pub fn extract_code_symbols(text: &str, cursor_line: usize, ext: &str) -> (r: Vec<BreadcrumbItem>)
    requires
        forall|i: int|
            0 <= i < lines_upto(text@, cursor_line as int).len() ==> line_safe(
                #[trigger] lines_upto(text@, cursor_line as int)[i],
                ext@,
            ),
    ensures
        crumbs_view(r@) == symbol_crumbs(text@, cursor_line as int, ext@),
{
    let all = chars_of(text);
    let ext_chars = chars_of(ext);
    let ls = split_lines(&all);
    let ghost lsv = lines(text@);
    let limit: usize = if cursor_line < ls.len() {
        cursor_line
    } else {
        ls.len()
    };
    let ghost upto = lines_upto(text@, cursor_line as int);
    assert(upto =~= lsv.take(limit as int));
    let mut syms: Vec<(usize, Vec<char>)> = Vec::new();
    let mut idx: usize = 0;
    let c1 = chars_of("//");
    let c2 = chars_of("/*");
    let c3 = chars_of("*");
    assert(lsv.take(0) =~= Seq::<Seq<char>>::empty());
    while idx < limit
        invariant
            views(ls@) == lsv,
            limit <= ls@.len(),
            upto == lsv.take(limit as int),
            ext_chars@ == ext@,
            c1@ == "//"@,
            c2@ == "/*"@,
            c3@ == "*"@,
            forall|i: int| 0 <= i < upto.len() ==> line_safe(#[trigger] upto[i], ext@),
            0 <= idx <= limit,
            syms@.len() == symbols_in(lsv.take(idx as int), ext@).len(),
            forall|k: int| 0 <= k < syms@.len() ==> {
                let e = #[trigger] syms@[k];
                let s = symbols_in(lsv.take(idx as int), ext@)[k];
                e.0 as int == s.0 && e.1@ == s.1 && 1 <= e.0 <= idx
            },
        decreases limit - idx,
    {
        let line = &ls[idx];
        assert(line@ == lsv[idx as int]);
        assert(upto[idx as int] == lsv[idx as int]);
        let t = trim_chars(line);
        proof {
            assert(lsv.take(idx + 1).drop_last() =~= lsv.take(idx as int));
            assert(lsv.take(idx + 1).last() == lsv[idx as int]);
        }
        let skipped = t.len() == 0 || starts_with(&t, &c1) || starts_with(&t, &c2) || starts_with(&t, &c3);
        if !skipped {
            match line_symbol_exec(&t, &ext_chars) {
                Some(sym) => {
                    syms.push((idx + 1, sym));
                },
                None => {},
            }
        }
        idx = idx + 1;
    }
    let keep: usize = if syms.len() < 2 {
        syms.len()
    } else {
        2
    };
    let start = syms.len() - keep;
    let ghost all_syms = symbols_in(upto, ext@);
    let ghost kept = all_syms.skip(all_syms.len() - keep);
    let mut out: Vec<BreadcrumbItem> = Vec::new();
    let mut k = start;
    while k < syms.len()
        invariant
            start <= k <= syms@.len(),
            start == syms@.len() - keep,
            syms@.len() == all_syms.len(),
            kept == all_syms.skip(start as int),
            forall|j: int| 0 <= j < syms@.len() ==> {
                let e = #[trigger] syms@[j];
                let s = all_syms[j];
                e.0 as int == s.0 && e.1@ == s.1
            },
            crumbs_view(out@) == kept.take(k - start).map_values(|e: (int, Seq<char>)| symbol_crumb(e.0, e.1)),
        decreases syms@.len() - k,
    {
        let item = BreadcrumbItem {
            label: string_of(&syms[k].1),
            kind: BreadcrumbKind::Symbol,
            icon: None,
            line: Some(syms[k].0),
        };
        let ghost before = out@;
        proof {
            assert(kept[k - start] == all_syms[k as int]);
            assert(crumb_view(item) == symbol_crumb(all_syms[k as int].0, all_syms[k as int].1));
        }
        out.push(item);
        proof {
            assert(crumbs_view(out@) =~= crumbs_view(before).push(crumb_view(item)));
            assert(kept.take(k + 1 - start) =~= kept.take(k - start).push(kept[k - start]));
            assert(crumbs_view(out@) =~= kept.take(k + 1 - start).map_values(|e: (int, Seq<char>)| symbol_crumb(e.0, e.1)));
        }
        k = k + 1;
    }
    assert(kept.take(kept.len() as int) =~= kept);
    out
}

/// The part of `path` below `root`, or `path` itself.
pub open spec fn relative_path(path: Seq<char>, root: Option<Seq<char>>) -> Seq<char> {
    match root {
        Some(r) => if path_has_prefix(path, r) {
            path_suffix(path, r)
        } else {
            path
        },
        None => path,
    }
}

/// A folder component worth showing: not empty and not `.`.
pub open spec fn shown_folder(c: Seq<char>) -> bool {
    c.len() > 0 && c != seq!['.']
}

/// The folder breadcrumbs of `path` relative to `root`.
pub open spec fn folder_crumbs(path: Seq<char>, root: Option<Seq<char>>) -> Seq<CrumbView> {
    match path_parent(relative_path(path, root)) {
        Some(p) => path_components(p).filter(|c: Seq<char>| shown_folder(c)).map_values(
            |c: Seq<char>| CrumbView { label: c, kind: BreadcrumbKind::Folder, icon: None, line: None },
        ),
        None => Seq::empty(),
    }
}

/// The lowercase extension of `path`, or the empty text.
pub open spec fn lower_extension(path: Seq<char>) -> Seq<char> {
    match path_extension(path) {
        Some(e) => unicode_lower(e),
        None => unicode_lower(Seq::empty()),
    }
}

/// The outline part of the breadcrumbs.
pub open spec fn outline_crumbs(path: Seq<char>, text: Seq<char>, cursor_line: int) -> Seq<CrumbView> {
    let ext = lower_extension(path);
    if ext == "md"@ || ext == "markdown"@ {
        heading_crumbs(text, cursor_line)
    } else if ext.len() > 0 {
        symbol_crumbs(text, cursor_line, ext)
    } else {
        Seq::empty()
    }
}

/// The breadcrumb of the file itself.
pub open spec fn file_crumb(path: Seq<char>, icon: Seq<char>) -> CrumbView {
    CrumbView {
        label: match path_file_name(path) {
            Some(n) => n,
            None => "Untitled"@,
        },
        kind: BreadcrumbKind::File,
        icon: Some(icon),
        line: Some(1),
    }
}

/// The folder crumbs of the components in `comps`.
fn folder_items(comps: &Vec<String>) -> (r: Vec<BreadcrumbItem>)
    ensures
        crumbs_view(r@) == comps@.map_values(|s: String| s@).filter(|c: Seq<char>| shown_folder(c)).map_values(
            |c: Seq<char>| CrumbView { label: c, kind: BreadcrumbKind::Folder, icon: None, line: None },
        ),
{
    let ghost cv = comps@.map_values(|s: String| s@);
    let mut out: Vec<BreadcrumbItem> = Vec::new();
    let mut i: usize = 0;
    proof {
        assert(cv.take(0).filter(|c: Seq<char>| shown_folder(c)) =~= Seq::<Seq<char>>::empty()) by {
            reveal_with_fuel(Seq::<_>::filter, 1);
        }
    }
    while i < comps.len()
        invariant
            0 <= i <= comps@.len(),
            cv == comps@.map_values(|s: String| s@),
            crumbs_view(out@) == cv.take(i as int).filter(|c: Seq<char>| shown_folder(c)).map_values(
                |c: Seq<char>| CrumbView { label: c, kind: BreadcrumbKind::Folder, icon: None, line: None },
            ),
        decreases comps@.len() - i,
    {
        let name = &comps[i];
        let nc = chars_of(name.as_str());
        let shown = nc.len() > 0 && !(nc.len() == 1 && nc[0] == '.');
        proof {
            assert(cv[i as int] == name@);
            assert(cv.take(i + 1).drop_last() =~= cv.take(i as int));
            assert(cv.take(i + 1).last() == cv[i as int]);
            reveal_with_fuel(Seq::<_>::filter, 1);
            if nc@.len() == 1 && nc@[0] == '.' {
                assert(nc@ =~= seq!['.']);
            }
            assert(shown == shown_folder(name@));
        }
        if shown {
            let item = BreadcrumbItem { label: name.clone(), kind: BreadcrumbKind::Folder, icon: None, line: None };
            let ghost before = out@;
            out.push(item);
            proof {
                assert(crumbs_view(out@) =~= crumbs_view(before).push(crumb_view(item)));
            }
        }
        i = i + 1;
    }
    assert(cv.take(comps@.len() as int) =~= cv);
    out
}

/// The breadcrumbs of the file at `path` with contents `text` and the cursor
/// on the 1-based `cursor_line`: the folders below `root`, the file (with
/// `icon`), then the Markdown headings or code declarations around the
/// cursor.
pub fn extract_breadcrumbs(path: &str, text: &str, cursor_line: usize, root: Option<&str>, icon: &str) -> (r: Vec<BreadcrumbItem>)
    requires
        ({
            let ext = lower_extension(path@);
            !(ext == "md"@ || ext == "markdown"@) && ext.len() > 0 ==> forall|i: int|
                0 <= i < lines_upto(text@, cursor_line as int).len() ==> line_safe(
                    #[trigger] lines_upto(text@, cursor_line as int)[i],
                    ext,
                )
        }),
    ensures
        crumbs_view(r@) == folder_crumbs(path@, match root { Some(r) => Some(r@), None => None })
            + seq![file_crumb(path@, icon@)] + outline_crumbs(path@, text@, cursor_line as int),
{
    let ghost root_v: Option<Seq<char>> = match root { Some(r) => Some(r@), None => None };
    let relative: String = match root {
        Some(r) => match path_strip_prefix(path, r) {
            Some(s) => s,
            None => path.to_string(),
        },
        None => path.to_string(),
    };
    assert(relative@ == relative_path(path@, root_v));
    let mut items: Vec<BreadcrumbItem> = match parent_of(relative.as_str()) {
        Some(p) => {
            let comps = components_of(p.as_str());
            folder_items(&comps)
        },
        None => Vec::new(),
    };
    let ghost folders = crumbs_view(items@);
    assert(folders == folder_crumbs(path@, root_v));
    let label = match file_name_of(path) {
        Some(n) => n,
        None => "Untitled".to_string(),
    };
    let file_item = BreadcrumbItem {
        label,
        kind: BreadcrumbKind::File,
        icon: Some(icon.to_string()),
        line: Some(1),
    };
    assert(crumb_view(file_item) == file_crumb(path@, icon@));
    items.push(file_item);
    assert(crumbs_view(items@) =~= folders + seq![file_crumb(path@, icon@)]);
    let ext = match extension_of(path) {
        Some(e) => to_lowercase(e.as_str()),
        None => to_lowercase(""),
    };
    proof {
        assert(""@ =~= Seq::<char>::empty()) by {
            reveal_strlit("");
        }
    }
    assert(ext@ == lower_extension(path@));
    let ec = chars_of(ext.as_str());
    let md = chars_of("md");
    let markdown = chars_of("markdown");
    let outline = if same_chars(&ec, &md) || same_chars(&ec, &markdown) {
        extract_markdown_headings(text, cursor_line)
    } else if ec.len() > 0 {
        extract_code_symbols(text, cursor_line, ext.as_str())
    } else {
        Vec::new()
    };
    let ghost head = crumbs_view(items@);
    let mut i: usize = 0;
    while i < outline.len()
        invariant
            0 <= i <= outline@.len(),
            crumbs_view(items@) == head + crumbs_view(outline@.take(i as int)),
        decreases outline@.len() - i,
    {
        let o = &outline[i];
        let item = BreadcrumbItem { label: o.label.clone(), kind: o.kind, icon: o.icon.clone(), line: o.line };
        let ghost before = items@;
        items.push(item);
        proof {
            assert(crumb_view(item) == crumb_view(outline@[i as int]));
            assert(crumbs_view(items@) =~= crumbs_view(before).push(crumb_view(item)));
            assert(crumbs_view(outline@.take(i + 1)) =~= crumbs_view(outline@.take(i as int)).push(crumb_view(outline@[i as int])));
        }
        i = i + 1;
    }
    assert(outline@.take(outline@.len() as int) =~= outline@);
    assert(crumbs_view(outline@) =~= outline_crumbs(path@, text@, cursor_line as int));
    items
}

/// A declaration line up to its body, without trailing `;`, trimmed.
fn declaration_head_exec(line: &[char]) -> (r: Vec<char>)
    ensures
        r@ == declaration_head(line@),
{
    let before = match find_char(line, '{', 0) {
        Some(i) => {
            proof {
                lemma_find_char_result(line@, '{', 0);
            }
            slice_chars(line, 0, i)
        },
        None => slice_chars(line, 0, line.len()),
    };
    assert(line@.subrange(0, line@.len() as int) =~= line@);
    let semi = trim_end_matches(&before, ';');
    trim_chars(&semi)
}

/// Whether shortening the declaration head of `line` stays on a character
/// boundary.
fn head_cut_ok_exec(line: &[char]) -> (r: bool)
    ensures
        r == head_cut_ok(line@),
{
    let h = declaration_head_exec(line);
    if !utf8_longer_than(&h, 40) {
        return true;
    }
    let mut k: usize = 0;
    let mut total: usize = 0;
    while total < 38 && k < h.len()
        invariant
            0 <= k <= h@.len(),
            total == utf8_len(h@.take(k as int)),
            total <= 41,
            forall|j: int| 0 <= j < k ==> utf8_len(h@.take(j)) < 38,
        decreases h@.len() - k,
    {
        let n = h[k] as u32;
        let w: usize = if n < 0x80 {
            1
        } else if n < 0x800 {
            2
        } else if n < 0x10000 {
            3
        } else {
            4
        };
        proof {
            lemma_utf8_len_take_step(h@, k as int);
        }
        total = total + w;
        k = k + 1;
    }
    proof {
        if total == 38 {
            assert(utf8_len(h@.take(k as int)) == 38);
        } else {
            assert forall|j: int| 0 <= j <= h@.len() implies utf8_len(#[trigger] h@.take(j)) != 38 by {
                if j > k {
                    lemma_utf8_len_take_mono(h@, k as int, j);
                }
            }
        }
    }
    total == 38
}

/// Whether the outline symbol of the trimmed line `t` is its declaration
/// head.
fn needs_head_exec(t: &[char], ext: &[char]) -> (r: bool)
    ensures
        r == needs_head(t@, ext@),
{
    if same_chars(ext, chars_of("rs").as_slice()) {
        let fns = char_lists(&["pub fn ", "fn ", "pub(crate) fn ", "async fn ", "pub async fn "]);
        let types = char_lists(&["impl ", "pub struct ", "struct ", "pub enum ", "enum ", "pub trait ", "trait "]);
        let mods = char_lists(&["mod ", "pub mod "]);
        assert(views(fns@) =~= rs_fn_prefixes());
        assert(views(types@) =~= rs_type_prefixes());
        assert(views(mods@) =~= rs_mod_prefixes());
        return !starts_with_any_exec(t, &fns) && (starts_with_any_exec(t, &types) || starts_with_any_exec(t, &mods));
    }
    if same_chars(ext, chars_of("ts").as_slice()) || same_chars(ext, chars_of("tsx").as_slice()) || same_chars(
        ext,
        chars_of("js").as_slice(),
    ) || same_chars(ext, chars_of("jsx").as_slice()) {
        let fns = char_lists(&["function ", "export function ", "async function ", "export async function "]);
        let types = char_lists(&["class ", "export class ", "interface ", "export interface ", "type ", "export type "]);
        assert(views(fns@) =~= js_fn_prefixes());
        assert(views(types@) =~= js_type_prefixes());
        return !starts_with_any_exec(t, &fns) && starts_with_any_exec(t, &types);
    }
    if same_chars(ext, chars_of("go").as_slice()) {
        return !starts_with(t, chars_of("func ").as_slice()) && starts_with(t, chars_of("type ").as_slice());
    }
    false
}

/// Whether the outline symbol of `line` can be worked out in a file with
/// extension `ext` (see [`line_safe`]).
pub fn line_is_safe(line: &[char], ext: &[char]) -> (r: bool)
    ensures
        r == line_safe(line@, ext@),
{
    let t = trim_chars(line);
    let skipped = t.len() == 0 || starts_with(&t, chars_of("//").as_slice()) || starts_with(
        &t,
        chars_of("/*").as_slice(),
    ) || starts_with(&t, chars_of("*").as_slice());
    skipped || !needs_head_exec(&t, ext) || head_cut_ok_exec(&t)
}

/// Whether every line up to the 1-based `cursor_line` of `text` is one whose
/// outline symbol can be worked out in a file with extension `ext`.
pub open spec fn lines_safe(text: Seq<char>, cursor_line: int, ext: Seq<char>) -> bool {
    forall|i: int|
        0 <= i < lines_upto(text, cursor_line).len() ==> line_safe(#[trigger] lines_upto(text, cursor_line)[i], ext)
}

/// Tests [`lines_safe`].
pub fn lines_are_safe(text: &str, cursor_line: usize, ext: &str) -> (r: bool)
    ensures
        r == lines_safe(text@, cursor_line as int, ext@),
{
    let all = chars_of(text);
    let e = chars_of(ext);
    let ls = split_lines(&all);
    let ghost lsv = lines(text@);
    let limit: usize = if cursor_line < ls.len() {
        cursor_line
    } else {
        ls.len()
    };
    let ghost upto = lines_upto(text@, cursor_line as int);
    assert(upto =~= lsv.take(limit as int));
    let mut i: usize = 0;
    while i < limit
        invariant
            views(ls@) == lsv,
            limit <= ls@.len(),
            upto == lsv.take(limit as int),
            upto == lines_upto(text@, cursor_line as int),
            lsv == lines(text@),
            e@ == ext@,
            0 <= i <= limit,
            forall|j: int| 0 <= j < i ==> line_safe(#[trigger] upto[j], ext@),
        decreases limit - i,
    {
        assert(ls@[i as int]@ == lsv[i as int]);
        assert(upto[i as int] == lsv[i as int]);
        if !line_is_safe(ls[i].as_slice(), e.as_slice()) {
            assert(!line_safe(upto[i as int], ext@));
            return false;
        }
        i = i + 1;
    }
    true
}

/// [`extract_code_symbols`] where every line up to the cursor can be read;
/// `None` where one cannot (where the symbol would be cut inside a
/// character).
pub fn extract_code_symbols_checked(text: &str, cursor_line: usize, ext: &str) -> (r: Option<Vec<BreadcrumbItem>>)
    ensures
        lines_safe(text@, cursor_line as int, ext@) ==> (r matches Some(v) && crumbs_view(v@) == symbol_crumbs(
            text@,
            cursor_line as int,
            ext@,
        )),
        !lines_safe(text@, cursor_line as int, ext@) ==> r is None,
{
    if lines_are_safe(text, cursor_line, ext) {
        Some(extract_code_symbols(text, cursor_line, ext))
    } else {
        None
    }
}

/// [`extract_breadcrumbs`] where the outline can be read; `None` for a
/// source file with a line up to the cursor whose symbol would be cut
/// inside a character.
pub fn extract_breadcrumbs_checked(path: &str, text: &str, cursor_line: usize, root: Option<&str>, icon: &str) -> (r:
    Option<Vec<BreadcrumbItem>>)
    ensures
        ({
            let ext = lower_extension(path@);
            let readable = ext == "md"@ || ext == "markdown"@ || ext.len() == 0 || lines_safe(
                text@,
                cursor_line as int,
                ext,
            );
            &&& readable ==> (r matches Some(v) && crumbs_view(v@) == folder_crumbs(
                path@,
                match root {
                    Some(x) => Some(x@),
                    None => None,
                },
            ) + seq![file_crumb(path@, icon@)] + outline_crumbs(path@, text@, cursor_line as int))
            &&& !readable ==> r is None
        }),
{
    let ext = match extension_of(path) {
        Some(e) => to_lowercase(e.as_str()),
        None => to_lowercase(""),
    };
    proof {
        assert(""@ =~= Seq::<char>::empty()) by {
            reveal_strlit("");
        }
    }
    assert(ext@ == lower_extension(path@));
    let ec = chars_of(ext.as_str());
    let prose = same_chars(&ec, chars_of("md").as_slice()) || same_chars(&ec, chars_of("markdown").as_slice());
    if prose || ec.len() == 0 || lines_are_safe(text, cursor_line, ext.as_str()) {
        Some(extract_breadcrumbs(path, text, cursor_line, root, icon))
    } else {
        None
    }
}

/// Headings that nest strictly: each deeper and later than the one before
/// it, with levels from 1 to 6 and lines from 1 to `n`.
pub open spec fn strictly_nested(st: Seq<(nat, int, Seq<char>)>, n: int) -> bool {
    &&& forall|i: int, j: int| 0 <= i < j < st.len() ==> #[trigger] st[i].0 < #[trigger] st[j].0 && st[i].1 < st[j].1
    &&& forall|i: int| 0 <= i < st.len() ==> 1 <= #[trigger] st[i].0 <= 6 && 1 <= st[i].1 <= n
}

proof fn lemma_pop_deeper(st: Seq<(nat, int, Seq<char>)>, h: nat)
    ensures
        pop_deeper(st, h).len() <= st.len(),
        pop_deeper(st, h) == st.take(pop_deeper(st, h).len() as int),
        pop_deeper(st, h).len() > 0 ==> pop_deeper(st, h).last().0 < h,
    decreases st.len(),
{
    if st.len() > 0 && st.last().0 >= h {
        lemma_pop_deeper(st.drop_last(), h);
        let p = pop_deeper(st.drop_last(), h);
        assert(st.drop_last().take(p.len() as int) =~= st.take(p.len() as int));
    } else {
        assert(st.take(st.len() as int) =~= st);
    }
}

/// The heading chain nests strictly: every heading on it is deeper and
/// further down than the one before, so each encloses the next.
pub proof fn lemma_headings_nested(ls: Seq<Seq<char>>)
    ensures
        strictly_nested(heading_chain(ls), ls.len() as int),
    decreases ls.len(),
{
    if ls.len() > 0 {
        let pre = ls.drop_last();
        lemma_headings_nested(pre);
        let st = heading_chain(pre);
        let h = heading_level(ls.last());
        if h > 0 {
            lemma_pop_deeper(st, h);
            let p = pop_deeper(st, h);
            let q = p.push((h, ls.len() as int, trim(ls.last())));
            assert forall|i: int| 0 <= i < p.len() implies #[trigger] p[i] == st[i] by {
                assert(p[i] == st.take(p.len() as int)[i]);
            }
            assert forall|i: int, j: int| 0 <= i < j < q.len() implies #[trigger] q[i].0 < #[trigger] q[j].0 && q[i].1 < q[j].1 by {
                assert(q[i] == p[i]);
                if j < p.len() {
                    assert(q[j] == p[j]);
                    assert(st[i].0 < st[j].0);
                } else {
                    if i < p.len() - 1 {
                        assert(st[i].0 < st[p.len() - 1].0);
                    }
                }
            }
            assert forall|i: int| 0 <= i < q.len() implies 1 <= #[trigger] q[i].0 <= 6 && 1 <= q[i].1 <= ls.len() by {
                if i < p.len() {
                    assert(q[i] == p[i]);
                    assert(1 <= st[i].0 <= 6);
                }
            }
        }
    }
}

/// `k` hash signs.
pub open spec fn hash_marks(k: nat) -> Seq<char> {
    Seq::new(k, |i: int| '#')
}

proof fn lemma_leading_hashes_of(k: nat, rest: Seq<char>)
    requires
        rest.len() == 0 || rest[0] != '#',
    ensures
        leading_hashes(hash_marks(k) + rest) == k,
    decreases k,
{
    if k > 0 {
        assert((hash_marks(k) + rest).drop_first() =~= hash_marks((k - 1) as nat) + rest);
        lemma_leading_hashes_of((k - 1) as nat, rest);
    } else {
        assert(hash_marks(0) + rest =~= rest);
    }
}

/// A line that, trimmed, is `k` hash signs (1 to 6) followed by text that is
/// not blank (and does not go on with another hash sign) is a heading of
/// level `k`.
pub proof fn lemma_hash_line_is_heading(line: Seq<char>, k: nat, rest: Seq<char>)
    requires
        1 <= k <= 6,
        trim(line) == hash_marks(k) + rest,
        rest.len() > 0,
        rest[0] != '#',
        trim(rest).len() > 0,
    ensures
        heading_level(line) == k,
{
    lemma_leading_hashes_of(k, rest);
    assert((hash_marks(k) + rest).skip(k as int) =~= rest);
}

proof fn lemma_last_heading_ends_chain(ls: Seq<Seq<char>>, i: int)
    requires
        0 <= i < ls.len(),
        heading_level(ls[i]) > 0,
        forall|j: int| i < j < ls.len() ==> heading_level(#[trigger] ls[j]) == 0,
    ensures
        heading_chain(ls).len() > 0,
        heading_chain(ls).last() == (heading_level(ls[i]), i + 1, trim(ls[i])),
    decreases ls.len(),
{
    if i < ls.len() - 1 {
        let pre = ls.drop_last();
        assert(heading_level(ls[ls.len() - 1]) == 0);
        assert forall|j: int| i < j < pre.len() implies heading_level(#[trigger] pre[j]) == 0 by {
            assert(pre[j] == ls[j]);
        }
        assert(pre[i] == ls[i]);
        lemma_last_heading_ends_chain(pre, i);
    }
}

/// The Markdown outline ends with the last heading up to the cursor: when
/// line `i + 1` is `k` hash signs (1 to 6) and a title, and no line after it
/// up to the cursor is a heading, the last crumb is that line, trimmed.
pub proof fn lemma_last_heading_is_last_crumb(text: Seq<char>, cursor_line: int, i: int, k: nat, rest: Seq<char>)
    requires
        0 <= i < lines_upto(text, cursor_line).len(),
        1 <= k <= 6,
        trim(lines_upto(text, cursor_line)[i]) == hash_marks(k) + rest,
        rest.len() > 0,
        rest[0] != '#',
        trim(rest).len() > 0,
        forall|j: int|
            i < j < lines_upto(text, cursor_line).len() ==> heading_level(
                #[trigger] lines_upto(text, cursor_line)[j],
            ) == 0,
    ensures
        heading_crumbs(text, cursor_line).len() > 0,
        heading_crumbs(text, cursor_line).last() == symbol_crumb(i + 1, hash_marks(k) + rest),
{
    let ls = lines_upto(text, cursor_line);
    lemma_hash_line_is_heading(ls[i], k, rest);
    lemma_last_heading_ends_chain(ls, i);
}

/// The code outline is the last two declarations found up to the cursor
/// (the one before the last first), or all of them when there are fewer.
pub proof fn lemma_code_outline_is_last_two(text: Seq<char>, cursor_line: int, ext: Seq<char>)
    ensures
        ({
            let syms = symbols_in(lines_upto(text, cursor_line), ext);
            let r = symbol_crumbs(text, cursor_line, ext);
            let n = syms.len() as int;
            &&& n >= 2 ==> r.len() == 2 && r[0] == symbol_crumb(syms[n - 2].0, syms[n - 2].1) && r[1]
                == symbol_crumb(syms[n - 1].0, syms[n - 1].1)
            &&& n == 1 ==> r.len() == 1 && r[0] == symbol_crumb(syms[0].0, syms[0].1)
            &&& n == 0 ==> r.len() == 0
        }),
{
}

} // verus!
