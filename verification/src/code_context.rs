//! What the assistant knows about the code on screen: the language of a file or
//! of a snippet, the declarations it holds, and what an editor's window title
//! says about the open file.

use vstd::prelude::*;
use crate::text::{
    after_last, after_last_exec, chars_of, lemma_ends_with_piece_contains, lemma_strip_all_prefix_is_skip, lemma_trim_is_subrange, contains_exec, lowercase, to_lowercase, find, find_from_exec, lemma_find_from_some, strip_all_prefix_exec, contains, join, push_all, contains_lit, ends_with, ends_with_lit, eq_lit, first_token,
    first_token_exec, index_of, index_of2_exec, index_of2_from, lemma_index_of2_from, lines, next_line,
    starts_with, starts_with_lit, string_from_chars, strip_all_prefix, strip_all_prefix_lit,
    trim, trim_bounds, until, until2,
};

verus! {

broadcast use vstd::string::group_string_axioms;

/// A declaration found in source text: its kind (`fn`, `class`, …), its name and
/// its 1-based line.
#[derive(Clone, Debug)]
pub struct Symbol {
    pub kind: String,
    pub name: String,
    pub line: u32,
}

/// What the assistant knows about the code the user is looking at.
#[derive(Clone, Debug)]
pub struct CodeContext {
    pub file_path: Option<String>,
    pub file_name: Option<String>,
    pub language: Option<String>,
    pub content: Option<String>,
    pub window_title: String,
    pub active_app: String,
    pub is_ide: bool,
    pub symbols: Vec<Symbol>,
}

#[verifier::ext_equal]
pub struct CodeContextView {
    pub file_path: Option<Seq<char>>,
    pub file_name: Option<Seq<char>>,
    pub language: Option<Seq<char>>,
    pub content: Option<Seq<char>>,
    pub window_title: Seq<char>,
    pub active_app: Seq<char>,
    pub is_ide: bool,
    pub symbols: Seq<SymbolView>,
}

pub struct SymbolView {
    pub kind: Seq<char>,
    pub name: Seq<char>,
    pub line: u32,
}

impl View for Symbol {
    type V = SymbolView;

    open spec fn view(&self) -> SymbolView {
        SymbolView { kind: self.kind@, name: self.name@, line: self.line }
    }
}

pub open spec fn opt_symbol_view(o: Option<Symbol>) -> Option<SymbolView> {
    match o {
        Some(s) => Some(s@),
        None => None,
    }
}

// ───────────────────────────── symbol grammar ─────────────────────────────

/// A symbol of the given kind, unless its name is empty.
pub open spec fn named(kind: Seq<char>, name: Seq<char>, n: u32) -> Option<SymbolView> {
    if name.len() > 0 {
        Some(SymbolView { kind, name, line: n })
    } else {
        None
    }
}

/// After the keyword `kw`, the name runs up to the first `a` or `b`, trimmed.
pub open spec fn keyword_symbol(
    s: Seq<char>,
    kw: Seq<char>,
    kind: Seq<char>,
    a: char,
    b: char,
    n: u32,
) -> Option<SymbolView> {
    named(kind, trim(until2(s.skip(kw.len() as int), a, b)), n)
}

/// A Rust line with its visibility and `async` qualifiers removed.
pub open spec fn rust_decl(line: Seq<char>) -> Seq<char> {
    strip_all_prefix(
        strip_all_prefix(
            strip_all_prefix(strip_all_prefix(line, "pub "@), "pub(crate) "@),
            "async "@,
        ),
        "pub async "@,
    )
}

/// The Rust declaration that a trimmed line opens, if any.
pub open spec fn spec_rust_symbol(line: Seq<char>, n: u32) -> Option<SymbolView> {
    let s = rust_decl(line);
    if starts_with(s, "fn "@) {
        keyword_symbol(s, "fn "@, "fn"@, '(', '(', n)
    } else if starts_with(s, "struct "@) {
        keyword_symbol(s, "struct "@, "struct"@, '{', '<', n)
    } else if starts_with(s, "enum "@) {
        keyword_symbol(s, "enum "@, "enum"@, '{', '<', n)
    } else if starts_with(s, "trait "@) {
        keyword_symbol(s, "trait "@, "trait"@, '{', '<', n)
    } else if starts_with(s, "impl "@) {
        keyword_symbol(s, "impl "@, "impl"@, '{', '{', n)
    } else {
        None
    }
}

/// A JavaScript/TypeScript line with `export`, `default` and `async` removed.
pub open spec fn js_decl(line: Seq<char>) -> Seq<char> {
    strip_all_prefix(strip_all_prefix(strip_all_prefix(line, "export "@), "default "@), "async "@)
}

/// `const name = (…` / `let name = async …` / `… = function …`: a function bound
/// to a name.
pub open spec fn js_binding(s: Seq<char>, n: u32) -> Option<SymbolView> {
    let after = if starts_with(s, "const "@) {
        s.skip("const "@.len() as int)
    } else {
        s.skip("let "@.len() as int)
    };
    let i = index_of(after, '=');
    if i < after.len() {
        let name = trim(after.take(i));
        let rest = trim(after.skip(i + 1));
        if (starts_with(rest, "("@) || starts_with(rest, "async"@) || starts_with(
            rest,
            "function"@,
        )) && name.len() > 0 {
            Some(SymbolView { kind: "function"@, name, line: n })
        } else {
            None
        }
    } else {
        None
    }
}

/// The JavaScript/TypeScript declaration that a trimmed line opens, if any.
pub open spec fn spec_js_ts_symbol(line: Seq<char>, n: u32) -> Option<SymbolView> {
    let s = js_decl(line);
    if starts_with(s, "function "@) {
        keyword_symbol(s, "function "@, "function"@, '(', '(', n)
    } else if starts_with(s, "class "@) {
        keyword_symbol(s, "class "@, "class"@, '{', ' ', n)
    } else if starts_with(s, "interface "@) {
        keyword_symbol(s, "interface "@, "interface"@, '{', '<', n)
    } else if starts_with(s, "type "@) {
        keyword_symbol(s, "type "@, "type"@, '=', '<', n)
    } else if starts_with(s, "const "@) || starts_with(s, "let "@) {
        js_binding(s, n)
    } else {
        None
    }
}

/// The Python declaration that a trimmed line opens, if any.
pub open spec fn spec_py_symbol(line: Seq<char>, n: u32) -> Option<SymbolView> {
    if starts_with(line, "def "@) || starts_with(line, "async def "@) {
        let after = if starts_with(line, "async "@) {
            line.skip("async def "@.len() as int)
        } else {
            line.skip("def "@.len() as int)
        };
        named("def"@, trim(until(after, '(')), n)
    } else if starts_with(line, "class "@) {
        keyword_symbol(line, "class "@, "class"@, '(', ':', n)
    } else {
        None
    }
}

/// The name in `func name(…` or `func (recv) name(…`; none when a receiver
/// list is not closed.
pub open spec fn go_func_name(after: Seq<char>) -> Option<Seq<char>> {
    if starts_with(after, "("@) {
        let p = index_of(after, ')');
        if p < after.len() {
            let seg = until(after.skip(p + 1), ')');
            Some(trim(until(trim(seg), '(')))
        } else {
            None
        }
    } else {
        Some(trim(until(after, '(')))
    }
}

/// The Go declaration that a trimmed line opens, if any.
pub open spec fn spec_go_symbol(line: Seq<char>, n: u32) -> Option<SymbolView> {
    if starts_with(line, "func "@) {
        match go_func_name(line.skip("func "@.len() as int)) {
            Some(name) => named("func"@, name, n),
            None => None,
        }
    } else if starts_with(line, "type "@) {
        match first_token(line.skip("type "@.len() as int)) {
            Some(name) => named("type"@, name, n),
            None => None,
        }
    } else {
        None
    }
}

/// The declaration a trimmed line opens in the given language.
pub open spec fn symbol_for(language: Seq<char>, line: Seq<char>, n: u32) -> Option<SymbolView> {
    if language == "Rust"@ {
        spec_rust_symbol(line, n)
    } else if language == "TypeScript"@ || language == "JavaScript"@ {
        spec_js_ts_symbol(line, n)
    } else if language == "Python"@ {
        spec_py_symbol(line, n)
    } else if language == "Go"@ {
        spec_go_symbol(line, n)
    } else {
        None
    }
}

/// The symbols of `ls`, whose first line has index `k` (so line number `k + 1`).
pub open spec fn symbols_from(ls: Seq<Seq<char>>, language: Seq<char>, k: int) -> Seq<SymbolView>
    decreases ls.len(),
{
    if ls.len() == 0 {
        seq![]
    } else {
        let rest = symbols_from(ls.drop_first(), language, k + 1);
        match symbol_for(language, trim(ls[0]), (k + 1) as u32) {
            Some(sym) => seq![sym] + rest,
            None => rest,
        }
    }
}

/// The maximum number of symbols reported for one text.
pub const MAX_SYMBOLS: usize = 20;

/// The first twenty declarations of `content`, in line order.
pub open spec fn spec_extract_symbols(content: Seq<char>, language: Seq<char>) -> Seq<SymbolView> {
    let all = symbols_from(lines(content), language, 0);
    if all.len() > MAX_SYMBOLS {
        all.take(MAX_SYMBOLS as int)
    } else {
        all
    }
}

proof fn lemma_first_paren(name: Seq<char>, rest: Seq<char>)
    requires
        forall|j: int| 0 <= j < name.len() ==> name[j] != '(',
    ensures
        until2(name + "("@ + rest, '(', '(') == name,
{
    reveal_strlit("(");
    let x = name + "("@ + rest;
    lemma_index_of2_from(x, '(', '(', 0);
    let r = index_of2_from(x, '(', '(', 0);
    assert(x[name.len() as int] == '(');
    if r < name.len() {
        assert(x[r] == name[r]);
    }
    assert(r == name.len());
    assert(x.take(r) =~= name);
}

/// A Rust line `fn NAME(…` declares the function `NAME` (trimmed) at the line
/// it is on, for any name without `(` that is not blank.
pub proof fn law_rust_functions_are_found(name: Seq<char>, rest: Seq<char>, n: u32)
    requires
        forall|j: int| 0 <= j < name.len() ==> name[j] != '(',
        trim(name).len() > 0,
    ensures
        spec_rust_symbol("fn "@ + name + "("@ + rest, n) == Some(
            SymbolView { kind: "fn"@, name: trim(name), line: n },
        ),
{
    reveal_strlit("fn ");
    reveal_strlit("fn");
    reveal_strlit("pub ");
    reveal_strlit("pub(crate) ");
    reveal_strlit("async ");
    reveal_strlit("pub async ");
    let line = "fn "@ + name + "("@ + rest;
    assert(line[0] == 'f');
    assert(!starts_with(line, "pub "@)) by {
        assert(line.take(4)[0] != "pub "@[0]);
    }
    assert(!starts_with(line, "pub(crate) "@)) by {
        if "pub(crate) "@.len() <= line.len() {
            assert(line.take(11)[0] != "pub(crate) "@[0]);
        }
    }
    assert(!starts_with(line, "async "@)) by {
        if 6 <= line.len() {
            assert(line.take(6)[0] != "async "@[0]);
        }
    }
    assert(!starts_with(line, "pub async "@)) by {
        if 10 <= line.len() {
            assert(line.take(10)[0] != "pub async "@[0]);
        }
    }
    assert(rust_decl(line) == line);
    assert(line.take(3) =~= "fn "@);
    assert(line.skip(3) =~= name + "("@ + rest);
    lemma_first_paren(name, rest);
}

/// A Python line `def NAME(…` declares `NAME` (trimmed) at the line it is on,
/// for any name without `(` that is not blank.
pub proof fn law_python_functions_are_found(name: Seq<char>, rest: Seq<char>, n: u32)
    requires
        forall|j: int| 0 <= j < name.len() ==> name[j] != '(',
        trim(name).len() > 0,
    ensures
        spec_py_symbol("def "@ + name + "("@ + rest, n) == Some(
            SymbolView { kind: "def"@, name: trim(name), line: n },
        ),
{
    reveal_strlit("def ");
    reveal_strlit("def");
    reveal_strlit("async ");
    let line = "def "@ + name + "("@ + rest;
    assert(line.take(4) =~= "def "@);
    assert(!starts_with(line, "async "@)) by {
        if 6 <= line.len() {
            assert(line.take(6)[0] != "async "@[0]);
        }
    }
    assert(line.skip(4) =~= name + "("@ + rest);
    lemma_first_paren(name, rest);
}

proof fn lemma_symbol_on_its_line(language: Seq<char>, line: Seq<char>, n: u32)
    ensures
        symbol_for(language, line, n) matches Some(sym) ==> sym.line == n && sym.name.len() > 0,
{
}

proof fn lemma_symbols_from_ordered(ls: Seq<Seq<char>>, language: Seq<char>, k: int)
    requires
        0 <= k,
        k + ls.len() <= u32::MAX,
    ensures
        forall|i: int|
            0 <= i < symbols_from(ls, language, k).len() ==> k < (#[trigger] symbols_from(
                ls,
                language,
                k,
            )[i]).line <= k + ls.len() && symbols_from(ls, language, k)[i].name.len() > 0,
        forall|i: int, j: int|
            0 <= i < j < symbols_from(ls, language, k).len() ==> (#[trigger] symbols_from(
                ls,
                language,
                k,
            )[i]).line < (#[trigger] symbols_from(ls, language, k)[j]).line,
    decreases ls.len(),
{
    if ls.len() > 0 {
        let rest = symbols_from(ls.drop_first(), language, k + 1);
        lemma_symbols_from_ordered(ls.drop_first(), language, k + 1);
        lemma_symbol_on_its_line(language, trim(ls[0]), (k + 1) as u32);
        let s = symbols_from(ls, language, k);
        match symbol_for(language, trim(ls[0]), (k + 1) as u32) {
            Some(sym) => {
                assert(s == seq![sym] + rest);
                assert forall|i: int| 0 <= i < s.len() implies k < (#[trigger] s[i]).line <= k
                    + ls.len() && s[i].name.len() > 0 by {
                    if i > 0 {
                        assert(s[i] == rest[i - 1]);
                    }
                }
                assert forall|i: int, j: int| 0 <= i < j < s.len() implies (#[trigger] s[i]).line
                    < (#[trigger] s[j]).line by {
                    assert(s[j] == rest[j - 1]);
                    if i > 0 {
                        assert(s[i] == rest[i - 1]);
                    }
                }
            },
            None => {},
        }
    }
}

/// Symbols come in the order of their lines, at most one per line and at most
/// twenty in all, each with a non-empty name and the 1-based number of a line
/// of the text (for texts whose line numbers fit in `u32`).
pub proof fn law_symbols_in_line_order(content: Seq<char>, language: Seq<char>)
    requires
        lines(content).len() <= u32::MAX,
    ensures
        spec_extract_symbols(content, language).len() <= MAX_SYMBOLS,
        forall|i: int|
            0 <= i < spec_extract_symbols(content, language).len() ==> 1 <= (
            #[trigger] spec_extract_symbols(content, language)[i]).line <= lines(content).len()
                && spec_extract_symbols(content, language)[i].name.len() > 0,
        forall|i: int, j: int|
            0 <= i < j < spec_extract_symbols(content, language).len() ==> (
            #[trigger] spec_extract_symbols(content, language)[i]).line < (
            #[trigger] spec_extract_symbols(content, language)[j]).line,
{
    let all = symbols_from(lines(content), language, 0);
    lemma_symbols_from_ordered(lines(content), language, 0);
    let s = spec_extract_symbols(content, language);
    if all.len() > MAX_SYMBOLS {
        assert forall|i: int| 0 <= i < s.len() implies s[i] == all[i] by {}
    }
    assert forall|i: int| 0 <= i < s.len() implies 1 <= (#[trigger] s[i]).line <= lines(
        content,
    ).len() && s[i].name.len() > 0 by {
        assert(s[i] == all[i]);
    }
    assert forall|i: int, j: int| 0 <= i < j < s.len() implies (#[trigger] s[i]).line < (
    #[trigger] s[j]).line by {
        assert(s[i] == all[i]);
        assert(s[j] == all[j]);
    }
}

// ───────────────────────────── symbol extraction ─────────────────────────────

fn make_symbol(kind: &str, name: &[char], n: u32) -> (r: Option<Symbol>)
    ensures
        opt_symbol_view(r) == named(kind@, name@, n),
{
    if name.len() > 0 {
        Some(Symbol { kind: kind.to_owned(), name: string_from_chars(name), line: n })
    } else {
        None
    }
}

/// The trimmed text of `s` up to its first `a` or `b`.
fn trimmed_until2(s: &[char], a: char, b: char) -> (r: (usize, usize))
    ensures
        r.0 <= r.1 <= s@.len(),
        s@.subrange(r.0 as int, r.1 as int) == trim(until2(s@, a, b)),
{
    let e = index_of2_exec(s, a, b, 0);
    let (x, y) = trim_bounds(&s[0..e]);
    assert(s@.subrange(0, e as int) =~= until2(s@, a, b));
    assert(s@.subrange(0, e as int).subrange(x as int, y as int) =~= s@.subrange(
        x as int,
        y as int,
    ));
    (x, y)
}

fn keyword_symbol_exec(s: &[char], kw: &str, kind: &str, a: char, b: char, n: u32) -> (r: Option<
    Symbol,
>)
    requires
        starts_with(s@, kw@),
    ensures
        opt_symbol_view(r) == keyword_symbol(s@, kw@, kind@, a, b, n),
{
    let k = kw.unicode_len();
    let rest = &s[k..s.len()];
    assert(rest@ =~= s@.skip(kw@.len() as int));
    let (x, y) = trimmed_until2(rest, a, b);
    make_symbol(kind, &rest[x..y], n)
}

/// The Rust declaration that a trimmed line opens, if any.
fn rust_symbol(line: &[char], n: u32) -> (r: Option<Symbol>)
    ensures
        opt_symbol_view(r) == spec_rust_symbol(line@, n),
{
    let k1 = strip_all_prefix_lit(line, "pub ");
    let s1 = &line[k1..line.len()];
    assert(s1@ =~= line@.skip(k1 as int));
    let k2 = strip_all_prefix_lit(s1, "pub(crate) ");
    let s2 = &s1[k2..s1.len()];
    assert(s2@ =~= s1@.skip(k2 as int));
    let k3 = strip_all_prefix_lit(s2, "async ");
    let s3 = &s2[k3..s2.len()];
    assert(s3@ =~= s2@.skip(k3 as int));
    let k4 = strip_all_prefix_lit(s3, "pub async ");
    let s = &s3[k4..s3.len()];
    assert(s@ =~= s3@.skip(k4 as int));
    assert(s@ == rust_decl(line@));
    if starts_with_lit(s, "fn ") {
        keyword_symbol_exec(s, "fn ", "fn", '(', '(', n)
    } else if starts_with_lit(s, "struct ") {
        keyword_symbol_exec(s, "struct ", "struct", '{', '<', n)
    } else if starts_with_lit(s, "enum ") {
        keyword_symbol_exec(s, "enum ", "enum", '{', '<', n)
    } else if starts_with_lit(s, "trait ") {
        keyword_symbol_exec(s, "trait ", "trait", '{', '<', n)
    } else if starts_with_lit(s, "impl ") {
        keyword_symbol_exec(s, "impl ", "impl", '{', '{', n)
    } else {
        None
    }
}

fn js_binding_exec(s: &[char], n: u32) -> (r: Option<Symbol>)
    requires
        starts_with(s@, "const "@) || starts_with(s@, "let "@),
    ensures
        opt_symbol_view(r) == js_binding(s@, n),
{
    let k = if starts_with_lit(s, "const ") {
        "const ".unicode_len()
    } else {
        "let ".unicode_len()
    };
    let after = &s[k..s.len()];
    assert(after@ =~= s@.skip(k as int));
    let i = index_of2_exec(after, '=', '=', 0);
    if i == after.len() {
        return None;
    }
    let (x, y) = trim_bounds(&after[0..i]);
    assert(after@.subrange(0, i as int) =~= after@.take(i as int));
    assert(after@.take(i as int).subrange(x as int, y as int) =~= after@.subrange(
        x as int,
        y as int,
    ));
    let tail = &after[i + 1..after.len()];
    assert(tail@ =~= after@.skip(i + 1));
    let (u, v) = trim_bounds(tail);
    let rest = &tail[u..v];
    if (starts_with_lit(rest, "(") || starts_with_lit(rest, "async") || starts_with_lit(
        rest,
        "function",
    )) && y > x {
        Some(Symbol { kind: "function".to_owned(), name: string_from_chars(&after[x..y]), line: n })
    } else {
        None
    }
}

/// The JavaScript/TypeScript declaration that a trimmed line opens, if any.
fn js_ts_symbol(line: &[char], n: u32) -> (r: Option<Symbol>)
    ensures
        opt_symbol_view(r) == spec_js_ts_symbol(line@, n),
{
    let k1 = strip_all_prefix_lit(line, "export ");
    let s1 = &line[k1..line.len()];
    assert(s1@ =~= line@.skip(k1 as int));
    let k2 = strip_all_prefix_lit(s1, "default ");
    let s2 = &s1[k2..s1.len()];
    assert(s2@ =~= s1@.skip(k2 as int));
    let k3 = strip_all_prefix_lit(s2, "async ");
    let s = &s2[k3..s2.len()];
    assert(s@ =~= s2@.skip(k3 as int));
    assert(s@ == js_decl(line@));
    if starts_with_lit(s, "function ") {
        keyword_symbol_exec(s, "function ", "function", '(', '(', n)
    } else if starts_with_lit(s, "class ") {
        keyword_symbol_exec(s, "class ", "class", '{', ' ', n)
    } else if starts_with_lit(s, "interface ") {
        keyword_symbol_exec(s, "interface ", "interface", '{', '<', n)
    } else if starts_with_lit(s, "type ") {
        keyword_symbol_exec(s, "type ", "type", '=', '<', n)
    } else if starts_with_lit(s, "const ") || starts_with_lit(s, "let ") {
        js_binding_exec(s, n)
    } else {
        None
    }
}

/// The Python declaration that a trimmed line opens, if any.
fn py_symbol(line: &[char], n: u32) -> (r: Option<Symbol>)
    ensures
        opt_symbol_view(r) == spec_py_symbol(line@, n),
{
    if starts_with_lit(line, "def ") || starts_with_lit(line, "async def ") {
        proof {
            reveal_strlit("async ");
            reveal_strlit("async def ");
            reveal_strlit("def ");
            if starts_with(line@, "async "@) && starts_with(line@, "def "@) {
                assert(line@[0] == line@.take(4)[0]);
                assert(line@[0] == line@.take(6)[0]);
            }
            if starts_with(line@, "async "@) && starts_with(line@, "async def "@) {
                assert(10 <= line@.len());
            }
        }
        let k = if starts_with_lit(line, "async ") {
            "async def ".unicode_len()
        } else {
            "def ".unicode_len()
        };
        let after = &line[k..line.len()];
        assert(after@ =~= line@.skip(k as int));
        let (x, y) = trimmed_until2(after, '(', '(');
        make_symbol("def", &after[x..y], n)
    } else if starts_with_lit(line, "class ") {
        keyword_symbol_exec(line, "class ", "class", '(', ':', n)
    } else {
        None
    }
}

/// The Go declaration that a trimmed line opens, if any.
fn go_symbol(line: &[char], n: u32) -> (r: Option<Symbol>)
    ensures
        opt_symbol_view(r) == spec_go_symbol(line@, n),
{
    if starts_with_lit(line, "func ") {
        let k = "func ".unicode_len();
        let after = &line[k..line.len()];
        assert(after@ =~= line@.skip(k as int));
        if starts_with_lit(after, "(") {
            let p = index_of2_exec(after, ')', ')', 0);
            if p == after.len() {
                return None;
            }
            let tail = &after[p + 1..after.len()];
            assert(tail@ =~= after@.skip(p + 1));
            let e = index_of2_exec(tail, ')', ')', 0);
            let seg = &tail[0..e];
            assert(seg@ =~= until(tail@, ')'));
            let (u, v) = trim_bounds(seg);
            let tseg = &seg[u..v];
            let (x, y) = trimmed_until2(tseg, '(', '(');
            make_symbol("func", &tseg[x..y], n)
        } else {
            let (x, y) = trimmed_until2(after, '(', '(');
            make_symbol("func", &after[x..y], n)
        }
    } else if starts_with_lit(line, "type ") {
        let k = "type ".unicode_len();
        let after = &line[k..line.len()];
        assert(after@ =~= line@.skip(k as int));
        match first_token_exec(after) {
            Some((x, y)) => make_symbol("type", &after[x..y], n),
            None => None,
        }
    } else {
        None
    }
}


/// Which grammar a language name selects: 1 Rust, 2 JavaScript/TypeScript,
/// 3 Python, 4 Go, 0 none.
spec fn grammar_of(language: Seq<char>) -> u8 {
    if language == "Rust"@ {
        1
    } else if language == "TypeScript"@ || language == "JavaScript"@ {
        2
    } else if language == "Python"@ {
        3
    } else if language == "Go"@ {
        4
    } else {
        0
    }
}

fn grammar_exec(language: &[char]) -> (r: u8)
    ensures
        r == grammar_of(language@),
{
    if eq_lit(language, "Rust") {
        1
    } else if eq_lit(language, "TypeScript") || eq_lit(language, "JavaScript") {
        2
    } else if eq_lit(language, "Python") {
        3
    } else if eq_lit(language, "Go") {
        4
    } else {
        0
    }
}

fn symbol_for_exec(grammar: u8, language: Ghost<Seq<char>>, line: &[char], n: u32) -> (r: Option<
    Symbol,
>)
    requires
        grammar == grammar_of(language@),
    ensures
        opt_symbol_view(r) == symbol_for(language@, line@, n),
{
    if grammar == 1 {
        rust_symbol(line, n)
    } else if grammar == 2 {
        js_ts_symbol(line, n)
    } else if grammar == 3 {
        py_symbol(line, n)
    } else if grammar == 4 {
        go_symbol(line, n)
    } else {
        None
    }
}

pub open spec fn symbols_view(v: Seq<Symbol>) -> Seq<SymbolView> {
    v.map_values(|s: Symbol| s@)
}

/// The declarations found in `content`, read as source text of `language`
/// (`"Rust"`, `"TypeScript"`, `"JavaScript"`, `"Python"` or `"Go"`; any other
/// language has none): at most the first twenty, in line order, each with its
/// 1-based line number.
pub fn extract_symbols(content: &str, language: &str) -> (r: Vec<Symbol>)
    ensures
        symbols_view(r@) == spec_extract_symbols(content@, language@),
        r@.len() <= MAX_SYMBOLS,
{
    let v = chars_of(content);
    let lang = chars_of(language);
    let grammar = grammar_exec(lang.as_slice());
    let mut out: Vec<Symbol> = Vec::new();
    let mut pos: usize = 0;
    let mut k: usize = 0;
    assert(v@.skip(0) =~= v@);
    while pos < v.len() && out.len() < MAX_SYMBOLS
        invariant
            pos <= v@.len(),
            k <= pos,
            out@.len() <= MAX_SYMBOLS,
            grammar == grammar_of(language@),
            lang@ == language@,
            v@ == content@,
            symbols_from(lines(v@), language@, 0) == symbols_view(out@) + symbols_from(
                lines(v@.skip(pos as int)),
                language@,
                k as int,
            ),
        decreases v.len() - pos,
    {
        let (a, b, next) = next_line(v.as_slice(), pos);
        let line = &v[a..b];
        let (x, y) = trim_bounds(line);
        let t = &line[x..y];
        let n = (k + 1) as u32;
        let sym = symbol_for_exec(grammar, Ghost(language@), t, n);
        let ghost ls = lines(v@.skip(pos as int));
        let ghost rest = lines(v@.skip(next as int));
        proof {
            assert(ls.drop_first() =~= rest);
            assert(ls[0] == line@);
        }
        let ghost before = symbols_view(out@);
        match sym {
            Some(sy) => {
                out.push(sy);
                assert(symbols_view(out@) =~= before + seq![sy@]);
            },
            None => {},
        }
        k = k + 1;
        pos = next;
    }
    proof {
        let all = symbols_from(lines(v@), language@, 0);
        if pos == v.len() {
            assert(v@.skip(pos as int) =~= Seq::<char>::empty());
            assert(all =~= symbols_view(out@));
        } else {
            assert(all.take(MAX_SYMBOLS as int) =~= symbols_view(out@));
        }
    }
    out
}

// ───────────────────────────── languages ─────────────────────────────

/// The language a file extension names.
pub open spec fn language_of_extension(ext: Seq<char>) -> Option<Seq<char>> {
    if ext == "rs"@ {
        Some("Rust"@)
    } else if ext == "ts"@ || ext == "tsx"@ {
        Some("TypeScript"@)
    } else if ext == "js"@ || ext == "jsx"@ || ext == "mjs"@ {
        Some("JavaScript"@)
    } else if ext == "py"@ {
        Some("Python"@)
    } else if ext == "go"@ {
        Some("Go"@)
    } else if ext == "cpp"@ || ext == "cc"@ || ext == "cxx"@ {
        Some("C++"@)
    } else if ext == "c"@ || ext == "h"@ {
        Some("C"@)
    } else if ext == "java"@ {
        Some("Java"@)
    } else if ext == "cs"@ {
        Some("C#"@)
    } else if ext == "rb"@ {
        Some("Ruby"@)
    } else if ext == "swift"@ {
        Some("Swift"@)
    } else if ext == "kt"@ {
        Some("Kotlin"@)
    } else if ext == "toml"@ {
        Some("TOML"@)
    } else if ext == "json"@ {
        Some("JSON"@)
    } else if ext == "yaml"@ || ext == "yml"@ {
        Some("YAML"@)
    } else if ext == "md"@ {
        Some("Markdown"@)
    } else if ext == "html"@ || ext == "htm"@ {
        Some("HTML"@)
    } else if ext == "css"@ || ext == "scss"@ || ext == "sass"@ {
        Some("CSS"@)
    } else if ext == "sh"@ || ext == "bash"@ || ext == "zsh"@ {
        Some("Shell"@)
    } else {
        None
    }
}

/// The extension of a file name: what follows its last `.` (the whole name
/// when it has none).
pub open spec fn extension(filename: Seq<char>) -> Seq<char> {
    after_last(filename, '.')
}

pub open spec fn spec_detect_language(filename: Seq<char>) -> Option<Seq<char>> {
    language_of_extension(extension(filename))
}

pub open spec fn opt_str_view(o: Option<&str>) -> Option<Seq<char>> {
    match o {
        Some(s) => Some(s@),
        None => None,
    }
}

fn language_of_extension_exec(ext: &[char]) -> (r: Option<&'static str>)
    ensures
        opt_str_view(r) == language_of_extension(ext@),
{
    if eq_lit(ext, "rs") {
        Some("Rust")
    } else if eq_lit(ext, "ts") || eq_lit(ext, "tsx") {
        Some("TypeScript")
    } else if eq_lit(ext, "js") || eq_lit(ext, "jsx") || eq_lit(ext, "mjs") {
        Some("JavaScript")
    } else if eq_lit(ext, "py") {
        Some("Python")
    } else if eq_lit(ext, "go") {
        Some("Go")
    } else if eq_lit(ext, "cpp") || eq_lit(ext, "cc") || eq_lit(ext, "cxx") {
        Some("C++")
    } else if eq_lit(ext, "c") || eq_lit(ext, "h") {
        Some("C")
    } else if eq_lit(ext, "java") {
        Some("Java")
    } else if eq_lit(ext, "cs") {
        Some("C#")
    } else if eq_lit(ext, "rb") {
        Some("Ruby")
    } else if eq_lit(ext, "swift") {
        Some("Swift")
    } else if eq_lit(ext, "kt") {
        Some("Kotlin")
    } else if eq_lit(ext, "toml") {
        Some("TOML")
    } else if eq_lit(ext, "json") {
        Some("JSON")
    } else if eq_lit(ext, "yaml") || eq_lit(ext, "yml") {
        Some("YAML")
    } else if eq_lit(ext, "md") {
        Some("Markdown")
    } else if eq_lit(ext, "html") || eq_lit(ext, "htm") {
        Some("HTML")
    } else if eq_lit(ext, "css") || eq_lit(ext, "scss") || eq_lit(ext, "sass") {
        Some("CSS")
    } else if eq_lit(ext, "sh") || eq_lit(ext, "bash") || eq_lit(ext, "zsh") {
        Some("Shell")
    } else {
        None
    }
}

/// The language of a file, from its extension.
pub fn detect_language(filename: &str) -> (r: Option<&'static str>)
    ensures
        opt_str_view(r) == spec_detect_language(filename@),
{
    let v = chars_of(filename);
    let k = after_last_exec(v.as_slice(), '.');
    let ext = &v[k..v.len()];
    assert(ext@ =~= v@.skip(k as int));
    language_of_extension_exec(ext)
}

/// The language that a snippet's text suggests.
pub open spec fn spec_language_from_content(s: Seq<char>) -> Option<Seq<char>> {
    if contains(s, "fn main()"@) || contains(s, "use std::"@) || (contains(s, "impl "@) && contains(
        s,
        "->"@,
    )) {
        Some("Rust"@)
    } else if contains(s, "import React"@) || contains(s, ": React.FC"@) || contains(
        s,
        "useState"@,
    ) {
        Some("TypeScript"@)
    } else if contains(s, "def "@) && contains(s, "self"@) {
        Some("Python"@)
    } else if contains(s, "package main"@) || contains(s, "func main()"@) {
        Some("Go"@)
    } else if contains(s, "function "@) && (contains(s, "const "@) || contains(s, "let "@)) {
        Some("JavaScript"@)
    } else {
        None
    }
}

/// A snippet with none of the Rust, TypeScript, Python or Go markers that
/// holds `"function "` together with `"const "` or `"let "` is JavaScript; one
/// with no marker of any of these languages has no language.
pub proof fn law_javascript_snippets(s: Seq<char>)
    ensures
        ({
            let others = contains(s, "fn main()"@) || contains(s, "use std::"@) || (contains(
                s,
                "impl "@,
            ) && contains(s, "->"@)) || contains(s, "import React"@) || contains(
                s,
                ": React.FC"@,
            ) || contains(s, "useState"@) || (contains(s, "def "@) && contains(s, "self"@))
                || contains(s, "package main"@) || contains(s, "func main()"@);
            &&& !others && contains(s, "function "@) && contains(s, "const "@)
                ==> spec_language_from_content(s) == Some("JavaScript"@)
            &&& !others && contains(s, "function "@) && contains(s, "let "@)
                ==> spec_language_from_content(s) == Some("JavaScript"@)
            &&& !others && !(contains(s, "function "@) && (contains(s, "const "@) || contains(
                s,
                "let "@,
            ))) ==> spec_language_from_content(s) is None
            &&& spec_language_from_content(s) == Some("JavaScript"@) ==> contains(s, "function "@)
        }),
{
    reveal_strlit("Rust");
    reveal_strlit("TypeScript");
    reveal_strlit("Python");
    reveal_strlit("Go");
    reveal_strlit("JavaScript");
    assert("Rust"@.len() != "JavaScript"@.len());
    assert("TypeScript"@[0] != "JavaScript"@[0]);
    assert("Python"@.len() != "JavaScript"@.len());
    assert("Go"@.len() != "JavaScript"@.len());
}

/// An explicit selection's language is the one its trimmed text suggests, and
/// its declarations are read in that language; the selection is refused only
/// when it is blank.
pub proof fn law_selection_language(
    clipboard: Seq<char>,
    title: Seq<char>,
    app: Seq<char>,
    found_path: Option<Seq<char>>,
)
    requires
        trim(clipboard).len() > 0,
        spec_language_from_content(trim(clipboard)) is Some,
    ensures
        ({
            let r = spec_clipboard_context(clipboard, title, app, found_path);
            let lang = spec_language_from_content(trim(clipboard));
            &&& r is Ok
            &&& r->Ok_0.language == lang
            &&& r->Ok_0.symbols == spec_extract_symbols(trim(clipboard), lang->Some_0)
            &&& r->Ok_0.content == Some(spec_truncate_content(trim(clipboard), SELECTION_LINES as nat))
        }),
{
}

/// The language that a snippet's text suggests, if any.
pub fn detect_language_from_content(s: &str) -> (r: Option<&'static str>)
    ensures
        opt_str_view(r) == spec_language_from_content(s@),
{
    let v = chars_of(s);
    let t = v.as_slice();
    if contains_lit(t, "fn main()") || contains_lit(t, "use std::") || (contains_lit(t, "impl ")
        && contains_lit(t, "->")) {
        Some("Rust")
    } else if contains_lit(t, "import React") || contains_lit(t, ": React.FC") || contains_lit(
        t,
        "useState",
    ) {
        Some("TypeScript")
    } else if contains_lit(t, "def ") && contains_lit(t, "self") {
        Some("Python")
    } else if contains_lit(t, "package main") || contains_lit(t, "func main()") {
        Some("Go")
    } else if contains_lit(t, "function ") && (contains_lit(t, "const ") || contains_lit(
        t,
        "let ",
    )) {
        Some("JavaScript")
    } else {
        None
    }
}

/// The first `max_lines` lines of `content`, joined with `'\n'`.
pub open spec fn spec_truncate_content(content: Seq<char>, max_lines: nat) -> Seq<char> {
    let ls = lines(content);
    join(
        if ls.len() > max_lines {
            ls.take(max_lines as int)
        } else {
            ls
        },
        seq!['\n'],
    )
}

/// The first `max_lines` lines of `content`, joined with `'\n'`.
pub fn truncate_content(content: &str, max_lines: usize) -> (r: String)
    ensures
        r@ == spec_truncate_content(content@, max_lines as nat),
{
    let v = chars_of(content);
    let mut out: Vec<char> = Vec::new();
    let mut pos: usize = 0;
    let mut k: usize = 0;
    let ghost mut taken: Seq<Seq<char>> = seq![];
    assert(v@.skip(0) =~= v@);
    while pos < v.len() && k < max_lines
        invariant
            pos <= v@.len(),
            k <= pos,
            k <= max_lines,
            v@ == content@,
            taken.len() == k,
            lines(v@) == taken + lines(v@.skip(pos as int)),
            out@ == join(taken, seq!['\n']),
        decreases v.len() - pos,
    {
        let (a, b, next) = next_line(v.as_slice(), pos);
        let line = &v[a..b];
        if k > 0 {
            out.push('\n');
        }
        push_all(&mut out, line);
        proof {
            let ls = lines(v@.skip(pos as int));
            assert(ls.drop_first() =~= lines(v@.skip(next as int)));
            let nt = taken.push(line@);
            assert(nt.drop_last() =~= taken);
            assert(taken + ls =~= nt + lines(v@.skip(next as int)));
            if k > 0 {
                assert(join(nt, seq!['\n']) == join(taken, seq!['\n']) + seq!['\n'] + line@);
            } else {
                assert(nt =~= seq![line@]);
            }
            taken = nt;
        }
        k = k + 1;
        pos = next;
    }
    proof {
        let ls = lines(v@);
        if pos == v.len() {
            assert(v@.skip(pos as int) =~= Seq::<char>::empty());
            assert(ls =~= taken);
        } else {
            assert(ls.take(max_lines as int) =~= taken);
        }
    }
    string_from_chars(out.as_slice())
}


// ───────────────────────────── editor windows ─────────────────────────────

/// Whether a window title or application name belongs to a code editor.
pub open spec fn spec_is_ide_window(app: Seq<char>, title: Seq<char>) -> bool {
    ||| contains(title, "Visual Studio Code"@)
    ||| contains(title, "JetBrains"@)
    ||| contains(title, "IntelliJ"@)
    ||| contains(title, "PyCharm"@)
    ||| contains(title, "WebStorm"@)
    ||| contains(title, "CLion"@)
    ||| contains(title, "RustRover"@)
    ||| contains(app, "vscode"@)
    ||| contains(app, "jetbrains"@)
    ||| ends_with(title, " - vim"@)
    ||| ends_with(title, " - nvim"@)
    ||| contains(title, "Neovim"@)
    ||| contains(title, "Emacs"@)
}

/// Whether a window belongs to a code editor.
pub fn is_ide_window(app: &str, title: &str) -> (r: bool)
    ensures
        r == spec_is_ide_window(app@, title@),
{
    let a = chars_of(app);
    let t = chars_of(title);
    let a = a.as_slice();
    let t = t.as_slice();
    contains_lit(t, "Visual Studio Code") || contains_lit(t, "JetBrains") || contains_lit(
        t,
        "IntelliJ",
    ) || contains_lit(t, "PyCharm") || contains_lit(t, "WebStorm") || contains_lit(t, "CLion")
        || contains_lit(t, "RustRover") || contains_lit(a, "vscode") || contains_lit(a, "jetbrains")
        || ends_with_lit(t, " - vim") || ends_with_lit(t, " - nvim") || contains_lit(t, "Neovim")
        || contains_lit(t, "Emacs")
}

/// The editor family a foreground window title names: `"vscode"`,
/// `"jetbrains"`, or empty.
pub open spec fn spec_editor_app(title: Seq<char>) -> Seq<char> {
    if contains(title, "Visual Studio Code"@) {
        "vscode"@
    } else if contains(title, "JetBrains"@) || contains(title, "IntelliJ"@) || contains(
        title,
        "PyCharm"@,
    ) || contains(title, "WebStorm"@) || contains(title, "CLion"@) || contains(
        title,
        "RustRover"@,
    ) {
        "jetbrains"@
    } else {
        seq![]
    }
}

/// The editor family a foreground window title names.
pub fn editor_app_from_title(title: &str) -> (r: String)
    ensures
        r@ == spec_editor_app(title@),
{
    let v = chars_of(title);
    let t = v.as_slice();
    if contains_lit(t, "Visual Studio Code") {
        "vscode".to_owned()
    } else if contains_lit(t, "JetBrains") || contains_lit(t, "IntelliJ") || contains_lit(
        t,
        "PyCharm",
    ) || contains_lit(t, "WebStorm") || contains_lit(t, "CLion") || contains_lit(t, "RustRover") {
        "jetbrains".to_owned()
    } else {
        String::new()
    }
}

/// The separator between the parts of an editor title.
pub open spec fn title_sep() -> Seq<char> {
    " - "@
}

/// What a VS Code title `"● file.ext - workspace - Visual Studio Code"` says:
/// the file name and, when the title has a third part, the workspace.
pub open spec fn spec_parse_vscode_title(title: Seq<char>) -> Option<(Seq<char>, Option<Seq<char>>)> {
    let t = trim(strip_all_prefix(title, seq!['\u{25CF}']));
    if !ends_with(t, "Visual Studio Code"@) {
        None
    } else {
        match find(t, title_sep()) {
            None => None,
            Some(i) => {
                let filename = trim(t.take(i));
                if starts_with(filename, "Untitled"@) || filename.len() == 0 {
                    None
                } else {
                    let rest = t.skip(i + title_sep().len());
                    let workspace = match find(rest, title_sep()) {
                        Some(j) => Some(trim(rest.take(j))),
                        None => None,
                    };
                    Some((filename, workspace))
                }
            },
        }
    }
}

/// A title from which a file name can be read is an editor's title, whatever
/// the application name.
pub proof fn law_vscode_title_is_ide(app: Seq<char>, title: Seq<char>)
    requires
        spec_parse_vscode_title(title) is Some,
    ensures
        spec_is_ide_window(app, title),
{
    let s0 = strip_all_prefix(title, seq!['\u{25CF}']);
    let k = lemma_strip_all_prefix_is_skip(title, seq!['\u{25CF}']);
    let (a, b) = lemma_trim_is_subrange(s0);
    assert(trim(s0) =~= title.subrange(k + a, k + b));
    lemma_ends_with_piece_contains(title, k + a, k + b, "Visual Studio Code"@);
}

pub open spec fn opt_string_view(o: Option<String>) -> Option<Seq<char>> {
    match o {
        Some(s) => Some(s@),
        None => None,
    }
}

pub open spec fn title_parse_view(o: Option<(String, Option<String>)>) -> Option<
    (Seq<char>, Option<Seq<char>>),
> {
    match o {
        Some((f, w)) => Some((f@, opt_string_view(w))),
        None => None,
    }
}

/// The file name and workspace that a VS Code window title shows.
pub fn parse_vscode_title(title: &str) -> (r: Option<(String, Option<String>)>)
    ensures
        title_parse_view(r) == spec_parse_vscode_title(title@),
{
    let v = chars_of(title);
    let bullet: [char; 1] = ['\u{25CF}'];
    let k = strip_all_prefix_exec(v.as_slice(), bullet.as_slice());
    assert(bullet@ =~= seq!['\u{25CF}']);
    let s0 = &v[k..v.len()];
    assert(s0@ =~= v@.skip(k as int));
    let (a, b) = trim_bounds(s0);
    let t = &s0[a..b];
    if !ends_with_lit(t, "Visual Studio Code") {
        return None;
    }
    let sep = chars_of(" - ");
    let first = find_from_exec(t, sep.as_slice(), 0);
    let i = match first {
        None => return None,
        Some(i) => i,
    };
    proof {
        lemma_find_from_some(t@, sep@, 0);
    }
    let head = &t[0..i];
    assert(head@ =~= t@.take(i as int));
    let (x, y) = trim_bounds(head);
    let filename = &head[x..y];
    if starts_with_lit(filename, "Untitled") || filename.len() == 0 {
        return None;
    }
    let rest = &t[i + sep.len()..t.len()];
    assert(rest@ =~= t@.skip(i + sep@.len()));
    let workspace = match find_from_exec(rest, sep.as_slice(), 0) {
        Some(j) => {
            proof {
                lemma_find_from_some(rest@, sep@, 0);
            }
            let part = &rest[0..j];
            assert(part@ =~= rest@.take(j as int));
            let (u, w) = trim_bounds(part);
            Some(string_from_chars(&part[u..w]))
        },
        None => None,
    };
    Some((string_from_chars(filename), workspace))
}


impl View for CodeContext {
    type V = CodeContextView;

    open spec fn view(&self) -> CodeContextView {
        CodeContextView {
            file_path: opt_string_view(self.file_path),
            file_name: opt_string_view(self.file_name),
            language: opt_string_view(self.language),
            content: opt_string_view(self.content),
            window_title: self.window_title@,
            active_app: self.active_app@,
            is_ide: self.is_ide,
            symbols: symbols_view(self.symbols@),
        }
    }
}

/// Lines of an open file kept in a context.
pub const FILE_CONTEXT_LINES: usize = 150;

/// Lines of a clipboard snippet kept when it stands in for the open file.
pub const CLIPBOARD_FALLBACK_LINES: usize = 100;

/// Lines of an explicit clipboard selection kept.
pub const SELECTION_LINES: usize = 200;

/// Clipboard text must be longer than this many bytes to stand in for the open file.
pub const MIN_CLIPBOARD_BYTES: usize = 30;

pub open spec fn unwrap_or_empty(o: Option<Seq<char>>) -> Seq<char> {
    match o {
        Some(s) => s,
        None => seq![],
    }
}

/// The file a window shows, when it is an editor whose title names one.
pub open spec fn spec_editor_file(app: Seq<char>, title: Seq<char>) -> Option<
    (Seq<char>, Option<Seq<char>>),
> {
    if spec_is_ide_window(app, title) {
        spec_parse_vscode_title(title)
    } else {
        None
    }
}

/// The file (and workspace) an editor window shows, for the file search.
pub fn editor_file(app: &str, title: &str) -> (r: Option<(String, Option<String>)>)
    ensures
        title_parse_view(r) == spec_editor_file(app@, title@),
{
    if is_ide_window(app, title) {
        parse_vscode_title(title)
    } else {
        None
    }
}

/// The context of the active window, from what was found on disk: `found_path`
/// is where the file the window shows was found, `file_text` what reading it gave.
pub open spec fn spec_file_context(
    title: Seq<char>,
    app: Seq<char>,
    found_path: Option<Seq<char>>,
    file_text: Option<Seq<char>>,
) -> CodeContextView {
    let empty = CodeContextView {
        file_path: None,
        file_name: None,
        language: None,
        content: None,
        window_title: title,
        active_app: app,
        is_ide: spec_is_ide_window(app, title),
        symbols: seq![],
    };
    match spec_editor_file(app, title) {
        None => empty,
        Some((f, _)) => {
            let lang = spec_detect_language(f);
            match found_path {
                None => CodeContextView { file_name: Some(f), language: lang, ..empty },
                Some(p) => match file_text {
                    None => CodeContextView {
                        file_path: Some(p),
                        file_name: Some(f),
                        language: lang,
                        ..empty
                    },
                    Some(text) => CodeContextView {
                        file_path: Some(p),
                        file_name: Some(f),
                        language: lang,
                        symbols: spec_extract_symbols(text, unwrap_or_empty(lang)),
                        content: Some(spec_truncate_content(text, FILE_CONTEXT_LINES as nat)),
                        ..empty
                    },
                },
            }
        },
    }
}

/// The length in bytes of the UTF-8 encoding of a string (`str::len`).
pub open spec fn utf8_len(s: Seq<char>) -> usize {
    vstd::utf8::encode_utf8(s).len() as usize
}

/// A context without content takes the clipboard's text in its place, when
/// that text is longer than `MIN_CLIPBOARD_BYTES` bytes.
pub open spec fn spec_clipboard_fallback(
    ctx: CodeContextView,
    clipboard: Option<Seq<char>>,
) -> CodeContextView {
    match (ctx.content, clipboard) {
        (None, Some(text)) => if utf8_len(text) > MIN_CLIPBOARD_BYTES {
            let lang = spec_language_from_content(text);
            CodeContextView {
                language: lang,
                symbols: spec_extract_symbols(text, unwrap_or_empty(lang)),
                content: Some(spec_truncate_content(text, CLIPBOARD_FALLBACK_LINES as nat)),
                ..ctx
            }
        } else {
            ctx
        },
        _ => ctx,
    }
}

/// The context of the active window, from what was found on disk and in the
/// clipboard.
pub open spec fn spec_active_context(
    title: Seq<char>,
    app: Seq<char>,
    found_path: Option<Seq<char>>,
    file_text: Option<Seq<char>>,
    clipboard: Option<Seq<char>>,
) -> CodeContextView {
    spec_clipboard_fallback(spec_file_context(title, app, found_path, file_text), clipboard)
}

fn language_name(l: Option<&'static str>) -> (r: Option<String>)
    ensures
        opt_string_view(r) == opt_str_view(l),
{
    match l {
        Some(s) => Some(s.to_owned()),
        None => None,
    }
}

fn str_or_empty(o: &Option<String>) -> (r: &str)
    ensures
        r@ == unwrap_or_empty(opt_string_view(*o)),
{
    proof {
        reveal_strlit("");
    }
    match o {
        Some(s) => s.as_str(),
        None => "",
    }
}

fn context_from_file(
    window_title: String,
    active_app: String,
    found_path: Option<String>,
    file_text: Option<String>,
) -> (r: CodeContext)
    ensures
        r@ == spec_file_context(
            window_title@,
            active_app@,
            opt_string_view(found_path),
            opt_string_view(file_text),
        ),
{
    let ghost spec = spec_file_context(
        window_title@,
        active_app@,
        opt_string_view(found_path),
        opt_string_view(file_text),
    );
    let is_ide = is_ide_window(active_app.as_str(), window_title.as_str());
    let shown = editor_file(active_app.as_str(), window_title.as_str());
    let mut ctx = CodeContext {
        file_path: None,
        file_name: None,
        language: None,
        content: None,
        window_title,
        active_app,
        is_ide,
        symbols: Vec::new(),
    };
    assert(symbols_view(ctx.symbols@) =~= Seq::<SymbolView>::empty());
    match shown {
        None => {
            assert(ctx@ == spec);
        },
        Some((f, _)) => {
            let lang = detect_language(f.as_str());
            ctx.language = language_name(lang);
            match found_path {
                None => {},
                Some(p) => {
                    ctx.file_path = Some(p);
                    match file_text {
                        None => {},
                        Some(text) => {
                            let l = str_or_empty(&ctx.language);
                            ctx.symbols = extract_symbols(text.as_str(), l);
                            ctx.content = Some(truncate_content(text.as_str(), FILE_CONTEXT_LINES));
                        },
                    }
                },
            }
            ctx.file_name = Some(f);
            assert(ctx@ =~= spec);
        },
    }
    ctx
}

/// The context of the active window (see `spec_active_context`).
pub fn active_context(
    window_title: String,
    active_app: String,
    found_path: Option<String>,
    file_text: Option<String>,
    clipboard: Option<String>,
) -> (r: CodeContext)
    ensures
        r@ == spec_active_context(
            window_title@,
            active_app@,
            opt_string_view(found_path),
            opt_string_view(file_text),
            opt_string_view(clipboard),
        ),
{
    let mut ctx = context_from_file(window_title, active_app, found_path, file_text);
    let ghost before = ctx@;
    if ctx.content.is_none() {
        match clipboard {
            Some(text) => {
                if text.as_str().len() > MIN_CLIPBOARD_BYTES {
                    let lang = detect_language_from_content(text.as_str());
                    ctx.language = language_name(lang);
                    let l = str_or_empty(&ctx.language);
                    ctx.symbols = extract_symbols(text.as_str(), l);
                    ctx.content = Some(truncate_content(text.as_str(), CLIPBOARD_FALLBACK_LINES));
                    assert(ctx@ =~= spec_clipboard_fallback(before, opt_string_view(Some(text))));
                }
            },
            None => {},
        }
    }
    ctx
}

/// When no file text was read, clipboard text longer than `MIN_CLIPBOARD_BYTES`
/// bytes stands in for it, whatever the window (an editor or not): the content
/// is the clipboard's first `CLIPBOARD_FALLBACK_LINES` lines, the language is
/// the one its text suggests and the declarations are read in that language;
/// the window's title and application are kept.
pub proof fn law_clipboard_stands_in_for_missing_file(
    title: Seq<char>,
    app: Seq<char>,
    found_path: Option<Seq<char>>,
    text: Seq<char>,
)
    requires
        utf8_len(text) > MIN_CLIPBOARD_BYTES,
    ensures
        ({
            let c = spec_active_context(title, app, found_path, None, Some(text));
            let lang = spec_language_from_content(text);
            &&& c.content == Some(spec_truncate_content(text, CLIPBOARD_FALLBACK_LINES as nat))
            &&& c.language == lang
            &&& c.symbols == spec_extract_symbols(text, unwrap_or_empty(lang))
            &&& c.is_ide == spec_is_ide_window(app, title)
            &&& c.window_title == title
            &&& c.active_app == app
        }),
{
}

/// Without file text, a missing or short clipboard (at most
/// `MIN_CLIPBOARD_BYTES` bytes) leaves the context without content.
pub proof fn law_no_content_without_text(
    title: Seq<char>,
    app: Seq<char>,
    found_path: Option<Seq<char>>,
    clipboard: Option<Seq<char>>,
)
    requires
        clipboard matches Some(t) ==> utf8_len(t) <= MIN_CLIPBOARD_BYTES,
    ensures
        spec_active_context(title, app, found_path, None, clipboard).content is None,
        spec_active_context(title, app, found_path, None, clipboard).symbols.len() == 0,
{
}

/// When an editor window names a file that was found and read, its first
/// `FILE_CONTEXT_LINES` lines are the content, whatever the clipboard holds.
pub proof fn law_file_text_wins_over_clipboard(
    title: Seq<char>,
    app: Seq<char>,
    path: Seq<char>,
    text: Seq<char>,
    clipboard: Option<Seq<char>>,
)
    requires
        spec_editor_file(app, title) is Some,
    ensures
        ({
            let c = spec_active_context(title, app, Some(path), Some(text), clipboard);
            let f = spec_editor_file(app, title)->Some_0.0;
            &&& c.content == Some(spec_truncate_content(text, FILE_CONTEXT_LINES as nat))
            &&& c.file_name == Some(f)
            &&& c.file_path == Some(path)
            &&& c.language == spec_detect_language(f)
            &&& c.is_ide
        }),
{
}

/// The context of an explicit selection read from the clipboard, shown in the
/// window with the given title; `found_path` is where the file the window
/// shows was found.
pub open spec fn spec_clipboard_context(
    clipboard: Seq<char>,
    title: Seq<char>,
    app: Seq<char>,
    found_path: Option<Seq<char>>,
) -> Result<CodeContextView, Seq<char>> {
    let text = trim(clipboard);
    if text.len() == 0 {
        Err("Clipboard is empty"@)
    } else {
        let language = spec_language_from_content(text);
        let symbols = spec_extract_symbols(text, unwrap_or_empty(language));
        let (file_path, file_name, resolved) = match spec_editor_file(app, title) {
            Some((f, _)) => (
                found_path,
                Some(f),
                if language is None {
                    spec_detect_language(f)
                } else {
                    language
                },
            ),
            None => (None, Some("selection"@), language),
        };
        Ok(
            CodeContextView {
                file_path,
                file_name,
                language: resolved,
                content: Some(spec_truncate_content(text, SELECTION_LINES as nat)),
                window_title: if title.len() == 0 {
                    "Clipboard"@
                } else {
                    title
                },
                active_app: if app.len() == 0 {
                    "clipboard"@
                } else {
                    app
                },
                is_ide: true,
                symbols,
            },
        )
    }
}

pub open spec fn context_result_view(r: Result<CodeContext, String>) -> Result<
    CodeContextView,
    Seq<char>,
> {
    match r {
        Ok(c) => Ok(c@),
        Err(e) => Err(e@),
    }
}

/// The context of an explicit selection (see `spec_clipboard_context`).
pub fn clipboard_context(
    clipboard: &str,
    window_title: String,
    active_app: String,
    found_path: Option<String>,
) -> (r: Result<CodeContext, String>)
    ensures
        context_result_view(r) == spec_clipboard_context(
            clipboard@,
            window_title@,
            active_app@,
            opt_string_view(found_path),
        ),
{
    let ghost old_title = window_title;
    let ghost old_app = active_app;
    let ghost old_found = found_path;
    let v = chars_of(clipboard);
    let (a, b) = trim_bounds(v.as_slice());
    let text = string_from_chars(&v[a..b]);
    if text.as_str().unicode_len() == 0 {
        return Err("Clipboard is empty".to_owned());
    }
    let language = detect_language_from_content(text.as_str());
    proof {
        reveal_strlit("");
    }
    let l: &str = match language {
        Some(l) => l,
        None => "",
    };
    assert(l@ == unwrap_or_empty(opt_str_view(language)));
    let symbols = extract_symbols(text.as_str(), l);
    let mut file_path = None;
    let mut file_name = Some("selection".to_owned());
    let mut resolved = language_name(language);
    match editor_file(active_app.as_str(), window_title.as_str()) {
        Some((f, _)) => {
            if resolved.is_none() {
                resolved = language_name(detect_language(f.as_str()));
            }
            file_name = Some(f);
            file_path = found_path;
        },
        None => {},
    }
    let content = truncate_content(text.as_str(), SELECTION_LINES);
    let window_title = if window_title.as_str().unicode_len() == 0 {
        "Clipboard".to_owned()
    } else {
        window_title
    };
    let active_app = if active_app.as_str().unicode_len() == 0 {
        "clipboard".to_owned()
    } else {
        active_app
    };
    let r = CodeContext {
        file_path,
        file_name,
        language: resolved,
        content: Some(content),
        window_title,
        active_app,
        is_ide: true,
        symbols,
    };
    proof {
        let spec = spec_clipboard_context(
            clipboard@,
            old_title@,
            old_app@,
            opt_string_view(old_found),
        );
        assert(r@ =~= spec->Ok_0);
    }
    Ok(r)
}


// ───────────────────────────── finding the shown file ─────────────────────────────

/// Directories the file search does not enter.
pub open spec fn spec_is_skipped_dir(name: Seq<char>) -> bool {
    ||| name == "node_modules"@
    ||| name == ".git"@
    ||| name == "target"@
    ||| name == ".cargo"@
    ||| name == "__pycache__"@
    ||| name == ".venv"@
    ||| name == "dist"@
    ||| name == "build"@
    ||| name == ".next"@
    ||| name == "out"@
}

/// Whether the file search skips a directory of this name.
pub fn is_skipped_dir(name: &str) -> (r: bool)
    ensures
        r == spec_is_skipped_dir(name@),
{
    let v = chars_of(name);
    let n = v.as_slice();
    eq_lit(n, "node_modules") || eq_lit(n, ".git") || eq_lit(n, "target") || eq_lit(n, ".cargo")
        || eq_lit(n, "__pycache__") || eq_lit(n, ".venv") || eq_lit(n, "dist") || eq_lit(n, "build")
        || eq_lit(n, ".next") || eq_lit(n, "out")
}

/// The number of candidates after which the file search stops.
pub const MAX_CANDIDATES: usize = 10;

/// Whether the search of a directory at `depth` stops before reading it.
pub fn search_exhausted(depth: usize, max_depth: usize, found: usize) -> (r: bool)
    ensures
        r == (depth > max_depth || found >= MAX_CANDIDATES),
{
    depth > max_depth || found >= MAX_CANDIDATES
}

/// Order of modification times, an unknown time coming first.
pub open spec fn time_le(a: Option<i128>, b: Option<i128>) -> bool {
    match (a, b) {
        (None, _) => true,
        (Some(_), None) => false,
        (Some(x), Some(y)) => x <= y,
    }
}

/// `i` is the first of the latest times in `times`: where a stable sort from
/// latest to earliest puts it.
pub open spec fn is_first_latest(times: Seq<Option<i128>>, i: int) -> bool {
    &&& 0 <= i < times.len()
    &&& forall|j: int| 0 <= j < times.len() ==> time_le(#[trigger] times[j], times[i])
    &&& forall|j: int| 0 <= j < i ==> !time_le(times[i], #[trigger] times[j])
}

fn time_le_exec(a: Option<i128>, b: Option<i128>) -> (r: bool)
    ensures
        r == time_le(a, b),
{
    match (a, b) {
        (None, _) => true,
        (Some(_), None) => false,
        (Some(x), Some(y)) => x <= y,
    }
}

/// Index of the most recently modified candidate (the first one among equals).
pub fn latest_index(times: &Vec<Option<i128>>) -> (r: usize)
    requires
        times@.len() > 0,
    ensures
        is_first_latest(times@, r as int),
{
    let mut best: usize = 0;
    let mut i: usize = 1;
    while i < times.len()
        invariant
            1 <= i <= times@.len(),
            best < i,
            forall|j: int| 0 <= j < i ==> time_le(#[trigger] times@[j], times@[best as int]),
            forall|j: int| 0 <= j < best ==> !time_le(times@[best as int], #[trigger] times@[j]),
        decreases times.len() - i,
    {
        if !time_le_exec(times[i], times[best]) {
            best = i;
        }
        i = i + 1;
    }
    best
}

/// A candidate path that shows the workspace name (both lowercased).
pub open spec fn shows_workspace(path: Seq<char>, ws: Seq<char>) -> bool {
    contains(lowercase(path), lowercase(ws))
}

pub open spec fn strings_view(v: Seq<String>) -> Seq<Seq<char>> {
    v.map_values(|s: String| s@)
}

/// Some candidate path shows the workspace name.
pub open spec fn some_shows_workspace(candidates: Seq<Seq<char>>, ws: Option<Seq<char>>) -> bool {
    match ws {
        Some(w) => exists|j: int| 0 <= j < candidates.len() && shows_workspace(#[trigger] candidates[j], w),
        None => false,
    }
}

/// `i` is the first candidate path that shows the workspace name.
pub open spec fn first_showing_workspace(candidates: Seq<Seq<char>>, ws: Seq<char>, i: int) -> bool {
    &&& 0 <= i < candidates.len()
    &&& shows_workspace(candidates[i], ws)
    &&& forall|j: int| 0 <= j < i ==> !shows_workspace(#[trigger] candidates[j], ws)
}

/// `i` is the first of the given texts that contains `w`.
pub open spec fn first_containing(texts: Seq<Seq<char>>, w: Seq<char>, i: int) -> bool {
    &&& 0 <= i < texts.len()
    &&& contains(texts[i], w)
    &&& forall|j: int| 0 <= j < i ==> !contains(#[trigger] texts[j], w)
}

/// Which candidate is chosen once the paths and the workspace name are
/// lowercased: the first path that holds the workspace name, else the most
/// recently modified (`times[i]` is when candidate `i` was modified).
pub fn pick_candidate(
    lowered_paths: &Vec<String>,
    lowered_workspace: Option<&str>,
    times: &Vec<Option<i128>>,
) -> (r: Result<usize, String>)
    requires
        times@.len() == lowered_paths@.len(),
    ensures
        lowered_paths@.len() == 0 <==> r is Err,
        r matches Err(e) ==> e@ == "File not found on disk"@,
        r matches Ok(i) ==> i < lowered_paths@.len() && match lowered_workspace {
            Some(w) => if exists|j: int|
                0 <= j < lowered_paths@.len() && contains(
                    #[trigger] strings_view(lowered_paths@)[j],
                    w@,
                ) {
                first_containing(strings_view(lowered_paths@), w@, i as int)
            } else {
                is_first_latest(times@, i as int)
            },
            None => is_first_latest(times@, i as int),
        },
{
    if lowered_paths.len() == 0 {
        return Err("File not found on disk".to_owned());
    }
    match lowered_workspace {
        Some(w) => {
            let wv = chars_of(w);
            let mut i: usize = 0;
            while i < lowered_paths.len()
                invariant
                    i <= lowered_paths@.len(),
                    lowered_workspace == Some(w),
                    wv@ == w@,
                    forall|j: int|
                        0 <= j < i ==> !contains(#[trigger] strings_view(lowered_paths@)[j], w@),
                decreases lowered_paths.len() - i,
            {
                let pv = chars_of(lowered_paths[i].as_str());
                assert(strings_view(lowered_paths@)[i as int] == lowered_paths@[i as int]@);
                if contains_exec(pv.as_slice(), wv.as_slice()) {
                    assert(contains(strings_view(lowered_paths@)[i as int], w@));
                    return Ok(i);
                }
                i = i + 1;
            }
        },
        None => {},
    }
    Ok(latest_index(times))
}

/// Which of the files found on disk is the one the editor shows: the first
/// whose path, lowercased, holds the lowercased workspace name; else the most
/// recently modified (`times[i]` is when `candidates[i]` was modified).
pub fn choose_candidate(
    candidates: &Vec<String>,
    workspace: Option<&str>,
    times: &Vec<Option<i128>>,
) -> (r: Result<usize, String>)
    requires
        times@.len() == candidates@.len(),
    ensures
        candidates@.len() == 0 <==> r is Err,
        r matches Err(e) ==> e@ == "File not found on disk"@,
        r matches Ok(i) ==> i < candidates@.len() && if some_shows_workspace(
            strings_view(candidates@),
            opt_str_view(workspace),
        ) {
            first_showing_workspace(strings_view(candidates@), workspace->0@, i as int)
        } else {
            is_first_latest(times@, i as int)
        },
{
    let mut lowered: Vec<String> = Vec::new();
    let mut k: usize = 0;
    while k < candidates.len()
        invariant
            k <= candidates@.len(),
            lowered@.len() == k,
            forall|j: int|
                0 <= j < k ==> (#[trigger] lowered@[j])@ == lowercase(candidates@[j]@),
        decreases candidates.len() - k,
    {
        lowered.push(to_lowercase(candidates[k].as_str()));
        k = k + 1;
    }
    let lw = match workspace {
        Some(ws) => Some(to_lowercase(ws)),
        None => None,
    };
    let lws: Option<&str> = match &lw {
        Some(s) => Some(s.as_str()),
        None => None,
    };
    let r = pick_candidate(&lowered, lws, times);
    proof {
        let cs = strings_view(candidates@);
        let ls = strings_view(lowered@);
        assert forall|j: int| 0 <= j < cs.len() implies #[trigger] ls[j] == lowercase(cs[j]) by {
            assert(lowered@[j]@ == lowercase(candidates@[j]@));
        }
        match workspace {
            Some(ws) => {
                let w = lowercase(ws@);
                if some_shows_workspace(cs, opt_str_view(workspace)) {
                    let j = choose|j: int| 0 <= j < cs.len() && shows_workspace(#[trigger] cs[j], ws@);
                    assert(contains(ls[j], w));
                }
                if exists|j: int| 0 <= j < ls.len() && contains(#[trigger] ls[j], w) {
                    let j = choose|j: int| 0 <= j < ls.len() && contains(#[trigger] ls[j], w);
                    assert(shows_workspace(cs[j], ws@));
                }
                match r {
                    Ok(i) => {
                        assert forall|j: int| 0 <= j < i implies !shows_workspace(#[trigger] cs[j], ws@) by {
                            assert(ls[j] == lowercase(cs[j]));
                        }
                    },
                    Err(_) => {},
                }
            },
            None => {},
        }
    }
    r
}

} // verus!
