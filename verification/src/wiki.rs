//! The session wiki: which files are pages, how a search ranks them, and the
//! text of the index and of the session log.

use vstd::prelude::*;
use std::path::PathBuf;
use crate::text::{
    chars_of, concat, contains, contains_exec, count_matches, count_matches_exec, decimal,
    decimal_string, ends_with, ends_with_lit, eq_lit, join, lines, lowercase, next_line,
    string_from_chars, strip_all_suffix, strip_all_suffix_exec, take_chars, take_chars_exec,
    to_lowercase, words, words_exec, bounds_view, bounds_ok, push_all, occurs_at,
};

verus! {

broadcast use vstd::string::group_string_axioms;

#[verifier::external_type_specification]
#[verifier::external_body]
pub struct ExPathBuf(PathBuf);

/// The wiki kept under a base directory.
pub struct WikiManager {
    pub base_path: PathBuf,
}

impl WikiManager {
    pub fn new(base_path: PathBuf) -> (r: Self)
        ensures
            r.base_path == base_path,
    {
        Self { base_path }
    }
}

/// Text of a new `index.md`.
pub const INDEX_TEMPLATE: &'static str = "# Cluddy Wiki Index\n\n_Auto-managed by Cluddy. Edit via conversation._\n\n## Pages\n\n";

/// Text of a new `log.md`.
pub const LOG_TEMPLATE: &'static str = "# Cluddy Session Log\n\n";

/// Text of a new `SCHEMA.md`.
pub const SCHEMA_TEMPLATE: &'static str = "# Cluddy Wiki Schema\n\nThis wiki is maintained automatically by Cluddy during your dev sessions.\n\n## Page Types\n- **entities/**: Concepts, tools, languages, frameworks\n- **index.md**: Catalog of all pages (auto-updated)\n- **log.md**: Append-only session log\n- **SCHEMA.md**: This file\n\n## Conventions\n- Page names: kebab-case (e.g., `entities/rust-lifetimes`)\n- Each page starts with a one-line summary\n- Contradictions noted as `> \u{26a0}\u{fe0f} Contradicts: ...`\n- Code blocks use fenced syntax with language tags\n\n## Log entry format\n```\n## [2026-04-18] session | topic summary\n```\n";

pub open spec fn md_ext() -> Seq<char> {
    ".md"@
}

/// The file that holds a page: its name with `.md` appended.
pub fn page_file_name(name: &str) -> (r: String)
    ensures
        r@ == name@ + ".md"@,
{
    concat(name, ".md")
}

// ───────────────────────────── listing pages ─────────────────────────────

/// The wiki's own files, which are not pages.
pub open spec fn is_reserved_file(name: Seq<char>) -> bool {
    name == "index.md"@ || name == "log.md"@ || name == "SCHEMA.md"@
}

/// The page a file in the wiki's base directory holds, if any.
pub open spec fn spec_root_page(file_name: Seq<char>) -> Option<Seq<char>> {
    if ends_with(file_name, md_ext()) && !is_reserved_file(file_name) {
        Some(strip_all_suffix(file_name, md_ext()))
    } else {
        None
    }
}

/// The page a file in `entities/` holds, if any.
pub open spec fn spec_entity_page(file_name: Seq<char>) -> Option<Seq<char>> {
    if ends_with(file_name, md_ext()) {
        Some("entities/"@ + strip_all_suffix(file_name, md_ext()))
    } else {
        None
    }
}

/// The pages held by the files `names` (in the base directory when `root`, else
/// in `entities/`), in directory order.
pub open spec fn pages_of(names: Seq<Seq<char>>, root: bool) -> Seq<Seq<char>>
    decreases names.len(),
{
    if names.len() == 0 {
        seq![]
    } else {
        let prev = pages_of(names.drop_last(), root);
        match if root {
            spec_root_page(names.last())
        } else {
            spec_entity_page(names.last())
        } {
            Some(p) => prev.push(p),
            None => prev,
        }
    }
}

pub open spec fn strings_view(v: Seq<String>) -> Seq<Seq<char>> {
    v.map_values(|s: String| s@)
}

fn page_of_file(file_name: &str, root: bool) -> (r: Option<String>)
    ensures
        match r {
            Some(p) => (if root {
                spec_root_page(file_name@)
            } else {
                spec_entity_page(file_name@)
            }) == Some(p@),
            None => (if root {
                spec_root_page(file_name@)
            } else {
                spec_entity_page(file_name@)
            }) is None,
        },
{
    let v = chars_of(file_name);
    let n = v.as_slice();
    if !ends_with_lit(n, ".md") {
        return None;
    }
    if root && (eq_lit(n, "index.md") || eq_lit(n, "log.md") || eq_lit(n, "SCHEMA.md")) {
        return None;
    }
    let md = chars_of(".md");
    let k = strip_all_suffix_exec(n, md.as_slice());
    let stem = string_from_chars(&n[0..k]);
    assert(n@.subrange(0, k as int) =~= n@.take(k as int));
    if root {
        Some(stem)
    } else {
        Some(concat("entities/", stem.as_str()))
    }
}

fn pages_of_exec(names: &Vec<String>, root: bool, out: &mut Vec<String>)
    ensures
        strings_view(final(out)@) == strings_view(old(out)@) + pages_of(strings_view(names@), root),
{
    let ghost start = strings_view(out@);
    let mut i: usize = 0;
    assert(strings_view(names@).take(0) =~= Seq::<Seq<char>>::empty());
    assert(start + Seq::<Seq<char>>::empty() =~= start);
    while i < names.len()
        invariant
            i <= names@.len(),
            strings_view(out@) == start + pages_of(strings_view(names@).take(i as int), root),
        decreases names.len() - i,
    {
        let ghost before = strings_view(out@);
        assert(strings_view(names@).take(i + 1).drop_last() =~= strings_view(names@).take(
            i as int,
        ));
        match page_of_file(names[i].as_str(), root) {
            Some(p) => {
                out.push(p);
                assert(strings_view(out@) =~= before.push(p@));
            },
            None => {},
        }
        i = i + 1;
    }
    assert(strings_view(names@).take(names@.len() as int) =~= strings_view(names@));
}

/// The wiki's pages, from the file names of its base directory and of its
/// `entities/` directory (each in directory order).
pub open spec fn spec_list_pages(root_files: Seq<Seq<char>>, entity_files: Seq<Seq<char>>) -> Seq<
    Seq<char>,
> {
    pages_of(root_files, true) + pages_of(entity_files, false)
}

/// The wiki's pages: `name` for `name.md` in the base directory (but for the
/// index, the log and the schema), `entities/name` for `name.md` in `entities/`.
pub fn list_pages(root_files: &Vec<String>, entity_files: &Vec<String>) -> (r: Vec<String>)
    ensures
        strings_view(r@) == spec_list_pages(strings_view(root_files@), strings_view(entity_files@)),
{
    let mut out: Vec<String> = Vec::new();
    assert(strings_view(out@) =~= Seq::<Seq<char>>::empty());
    pages_of_exec(root_files, true, &mut out);
    pages_of_exec(entity_files, false, &mut out);
    assert(Seq::<Seq<char>>::empty() + pages_of(strings_view(root_files@), true) =~= pages_of(
        strings_view(root_files@),
        true,
    ));
    out
}

// ───────────────────────────── index and log ─────────────────────────────

/// The index's line for a page.
pub open spec fn index_line(page: Seq<char>) -> Seq<char> {
    "- ["@ + page + "]("@ + page + ".md)"@
}

pub open spec fn index_lines(pages: Seq<Seq<char>>) -> Seq<Seq<char>>
    decreases pages.len(),
{
    if pages.len() == 0 {
        seq![]
    } else {
        index_lines(pages.drop_last()).push(index_line(pages.last()))
    }
}

/// The text of `index.md` listing the given pages.
pub open spec fn spec_index_markdown(pages: Seq<Seq<char>>) -> Seq<char> {
    join(
        seq![
            "# Cluddy Wiki Index\n"@,
            "_Auto-managed by Cluddy. Edit via conversation._\n"@,
            "## Pages\n"@,
        ] + index_lines(pages),
        seq!['\n'],
    )
}

proof fn lemma_index_lines(pages: Seq<Seq<char>>)
    ensures
        index_lines(pages).len() == pages.len(),
        forall|k: int| 0 <= k < pages.len() ==> #[trigger] index_lines(pages)[k] == index_line(pages[k]),
    decreases pages.len(),
{
    if pages.len() > 0 {
        lemma_index_lines(pages.drop_last());
        let prev = index_lines(pages.drop_last());
        assert forall|k: int| 0 <= k < pages.len() implies #[trigger] index_lines(pages)[k] == index_line(
            pages[k],
        ) by {
            if k < pages.len() - 1 {
                assert(index_lines(pages)[k] == prev[k]);
                assert(pages.drop_last()[k] == pages[k]);
            }
        }
    }
}

proof fn lemma_join_holds_part(parts: Seq<Seq<char>>, sep: Seq<char>, k: int)
    requires
        0 <= k < parts.len(),
    ensures
        contains(join(parts, sep), parts[k]),
    decreases parts.len(),
{
    let j = join(parts, sep);
    if parts.len() == 1 {
        assert(occurs_at(j, parts[k], 0)) by {
            assert(j.subrange(0, parts[k].len() as int) =~= parts[k]);
        }
    } else {
        let prev = join(parts.drop_last(), sep);
        if k == parts.len() - 1 {
            let at = (prev.len() + sep.len()) as int;
            assert(occurs_at(j, parts[k], at)) by {
                assert(j.subrange(at, at + parts[k].len()) =~= parts[k]);
            }
        } else {
            lemma_join_holds_part(parts.drop_last(), sep, k);
            assert(parts.drop_last()[k] == parts[k]);
            let i = choose|i: int| occurs_at(prev, parts[k], i);
            assert(occurs_at(j, parts[k], i)) by {
                assert(j.subrange(i, i + parts[k].len()) =~= prev.subrange(i, i + parts[k].len()));
            }
        }
    }
}

/// The index lists every page, each with a link to its file.
pub proof fn law_index_lists_every_page(pages: Seq<Seq<char>>)
    ensures
        forall|k: int|
            0 <= k < pages.len() ==> contains(
                spec_index_markdown(pages),
                #[trigger] index_line(pages[k]),
            ),
{
    let head = seq![
        "# Cluddy Wiki Index\n"@,
        "_Auto-managed by Cluddy. Edit via conversation._\n"@,
        "## Pages\n"@,
    ];
    let parts = head + index_lines(pages);
    lemma_index_lines(pages);
    assert forall|k: int| 0 <= k < pages.len() implies contains(
        spec_index_markdown(pages),
        #[trigger] index_line(pages[k]),
    ) by {
        assert(parts[3 + k] == index_lines(pages)[k]);
        lemma_join_holds_part(parts, seq!['\n'], 3 + k);
    }
}

fn index_line_exec(page: &str) -> (r: String)
    ensures
        r@ == index_line(page@),
{
    let mut r = "- [".to_owned();
    r.append(page);
    r.append("](");
    r.append(page);
    r.append(".md)");
    r
}

/// The text of `index.md` listing the given pages.
pub fn index_markdown(pages: &Vec<String>) -> (r: String)
    ensures
        r@ == spec_index_markdown(strings_view(pages@)),
{
    let mut r = "# Cluddy Wiki Index\n".to_owned();
    r.append("\n");
    r.append("_Auto-managed by Cluddy. Edit via conversation._\n");
    r.append("\n");
    r.append("## Pages\n");
    let ghost head = seq![
        "# Cluddy Wiki Index\n"@,
        "_Auto-managed by Cluddy. Edit via conversation._\n"@,
        "## Pages\n"@,
    ];
    proof {
        reveal_strlit("\n");
        let h1 = head.drop_last().drop_last();
        assert(h1 =~= seq!["# Cluddy Wiki Index\n"@]);
        assert(join(h1, seq!['\n']) == "# Cluddy Wiki Index\n"@);
        assert(head.drop_last() =~= seq![
            "# Cluddy Wiki Index\n"@,
            "_Auto-managed by Cluddy. Edit via conversation._\n"@,
        ]);
        assert(join(head.drop_last(), seq!['\n']) =~= "# Cluddy Wiki Index\n"@ + seq!['\n']
            + "_Auto-managed by Cluddy. Edit via conversation._\n"@);
        assert(r@ =~= join(head, seq!['\n']));
        assert(head + index_lines(strings_view(pages@).take(0)) =~= head);
    }
    let mut i: usize = 0;
    while i < pages.len()
        invariant
            i <= pages@.len(),
            head.len() == 3,
            r@ == join(head + index_lines(strings_view(pages@).take(i as int)), seq!['\n']),
        decreases pages.len() - i,
    {
        let line = index_line_exec(pages[i].as_str());
        r.append("\n");
        r.append(line.as_str());
        proof {
            let prev = head + index_lines(strings_view(pages@).take(i as int));
            let next = head + index_lines(strings_view(pages@).take(i + 1));
            assert(strings_view(pages@).take(i + 1).drop_last() =~= strings_view(pages@).take(
                i as int,
            ));
            assert(next =~= prev.push(line@));
            assert(next.drop_last() =~= prev);
            reveal_strlit("\n");
            assert(next.last() == line@);
            assert(next.len() > 1);
            assert(join(next, seq!['\n']) == join(prev, seq!['\n']) + seq!['\n'] + line@);
        }
        i = i + 1;
    }
    assert(strings_view(pages@).take(pages@.len() as int) =~= strings_view(pages@));
    r
}

/// The log's text after appending an entry as a line of its own.
pub fn log_with_entry(existing: &str, entry: &str) -> (r: String)
    ensures
        r@ == existing@ + entry@ + "\n"@,
{
    let mut r = existing.to_owned();
    r.append(entry);
    r.append("\n");
    r
}

/// The log entry for a conversation turn that updated `count` pages at `date`.
pub open spec fn spec_log_entry(date: Seq<char>, count: nat) -> Seq<char> {
    "## ["@ + date + "] session | "@ + decimal(count) + " pages updated"@
}

/// The log entry for a conversation turn that updated `count` pages at `date`.
pub fn log_entry(date: &str, count: u64) -> (r: String)
    ensures
        r@ == spec_log_entry(date@, count as nat),
{
    let n = decimal_string(count);
    let mut r = "## [".to_owned();
    r.append(date);
    r.append("] session | ");
    r.append(n.as_str());
    r.append(" pages updated");
    r
}


// ───────────────────────────── searching ─────────────────────────────

/// How often the query words occur in a page's lowercased text, in total.
pub open spec fn page_score(content: Seq<char>, ws: Seq<Seq<char>>) -> nat
    decreases ws.len(),
{
    if ws.len() == 0 {
        0
    } else {
        page_score(content, ws.drop_last()) + count_matches(lowercase(content), ws.last())
    }
}

/// A page's score adds up over the query words: the score for the words `ws`
/// followed by `more` is the score for `ws` plus the score for `more`; one
/// word scores its non-overlapping occurrences in the lowercased page text, so
/// another occurrence of any query word raises the score.
pub proof fn law_page_score_adds_up(content: Seq<char>, ws: Seq<Seq<char>>, more: Seq<Seq<char>>)
    ensures
        page_score(content, ws + more) == page_score(content, ws) + page_score(content, more),
        more.len() == 1 ==> page_score(content, more) == count_matches(lowercase(content), more[0]),
        more.len() == 1 && count_matches(lowercase(content), more[0]) > 0 ==> page_score(
            content,
            ws + more,
        ) > page_score(content, ws),
    decreases more.len(),
{
    if more.len() == 0 {
        assert(ws + more =~= ws);
    } else {
        law_page_score_adds_up(content, ws, more.drop_last());
        assert((ws + more).drop_last() =~= ws + more.drop_last());
        assert((ws + more).last() == more.last());
        if more.len() == 1 {
            assert(more.drop_last() =~= Seq::<Seq<char>>::empty());
        }
    }
}

/// A line mentions a query word (compared in lowercase).
pub open spec fn mentions(line: Seq<char>, ws: Seq<Seq<char>>) -> bool {
    exists|k: int| 0 <= k < ws.len() && contains(lowercase(line), #[trigger] ws[k])
}

/// The first line that mentions a query word (empty when none does).
pub open spec fn first_mentioning(ls: Seq<Seq<char>>, ws: Seq<Seq<char>>) -> Seq<char>
    decreases ls.len(),
{
    if ls.len() == 0 {
        seq![]
    } else if mentions(ls[0], ws) {
        ls[0]
    } else {
        first_mentioning(ls.drop_first(), ws)
    }
}

/// Characters of a page shown with a search hit.
pub const SNIPPET_CHARS: usize = 120;

/// A search hit as shown: the page name in bold and the first 120 characters
/// of its first line that mentions a query word.
pub open spec fn hit_text(page: Seq<char>, content: Seq<char>, ws: Seq<Seq<char>>) -> Seq<char> {
    "**"@ + page + "**: "@ + take_chars(
        first_mentioning(lines(content), ws),
        SNIPPET_CHARS as nat,
    )
}

/// The pages that mention a query word, with their scores, in page order;
/// a page whose text could not be read (`None`) is left out.
pub open spec fn hits(pages: Seq<(Seq<char>, Option<Seq<char>>)>, ws: Seq<Seq<char>>) -> Seq<
    (Seq<char>, nat),
>
    decreases pages.len(),
{
    if pages.len() == 0 {
        seq![]
    } else {
        let prev = hits(pages.drop_last(), ws);
        let (p, c) = pages.last();
        match c {
            Some(content) => {
                let sc = page_score(content, ws);
                if sc > 0 {
                    prev.push((hit_text(p, content, ws), sc))
                } else {
                    prev
                }
            },
            None => prev,
        }
    }
}

/// `x` placed after every entry of a ranking whose score is at least its own.
pub open spec fn insert_ranked(sorted: Seq<(Seq<char>, nat)>, x: (Seq<char>, nat)) -> Seq<
    (Seq<char>, nat),
>
    decreases sorted.len(),
{
    if sorted.len() == 0 {
        seq![x]
    } else if sorted[0].1 >= x.1 {
        seq![sorted[0]] + insert_ranked(sorted.drop_first(), x)
    } else {
        seq![x] + sorted
    }
}

/// Entries ordered by score, highest first, equal scores keeping their order
/// (a stable sort by descending score).
pub open spec fn ranked(s: Seq<(Seq<char>, nat)>) -> Seq<(Seq<char>, nat)>
    decreases s.len(),
{
    if s.len() == 0 {
        seq![]
    } else {
        insert_ranked(ranked(s.drop_last()), s.last())
    }
}

/// Number of hits a wiki search returns.
pub const MAX_RESULTS: usize = 3;

pub open spec fn pages_view(v: Seq<(String, Option<String>)>) -> Seq<(Seq<char>, Option<Seq<char>>)> {
    v.map_values(
        |e: (String, Option<String>)|
            (
                e.0@,
                match e.1 {
                    Some(c) => Some(c@),
                    None => None,
                },
            ),
    )
}

/// The texts of the best three of the given scored hits: highest score
/// first, equal scores in their given order.
pub open spec fn spec_top_hits(h: Seq<(Seq<char>, nat)>) -> Seq<Seq<char>> {
    let r = ranked(h);
    let top = if r.len() > MAX_RESULTS {
        r.take(MAX_RESULTS as int)
    } else {
        r
    };
    top.map_values(|e: (Seq<char>, nat)| e.0)
}

/// The best three hits of a search for the words of `query` (lowercased).
pub open spec fn spec_wiki_search(query: Seq<char>, pages: Seq<(Seq<char>, Option<Seq<char>>)>) -> Seq<
    Seq<char>,
> {
    spec_top_hits(hits(pages, words(lowercase(query))))
}

/// Scores never rise from one entry to the next.
pub open spec fn by_descending_score(s: Seq<(Seq<char>, nat)>) -> bool {
    forall|i: int, j: int| 0 <= i < j < s.len() ==> (#[trigger] s[i]).1 >= (#[trigger] s[j]).1
}

proof fn lemma_insert_ranked(sorted: Seq<(Seq<char>, nat)>, x: (Seq<char>, nat))
    requires
        by_descending_score(sorted),
    ensures
        by_descending_score(insert_ranked(sorted, x)),
        insert_ranked(sorted, x).to_multiset() == sorted.to_multiset().insert(x),
        insert_ranked(sorted, x).len() == sorted.len() + 1,
        insert_ranked(sorted, x)[0] == x || (sorted.len() > 0 && insert_ranked(sorted, x)[0]
            == sorted[0]),
    decreases sorted.len(),
{
    broadcast use vstd::seq_lib::group_to_multiset_ensures;
    broadcast use vstd::seq_lib::lemma_multiset_commutative;
    broadcast use vstd::multiset::group_multiset_axioms;

    let r = insert_ranked(sorted, x);
    if sorted.len() == 0 {
        assert(seq![x] =~= Seq::<(Seq<char>, nat)>::empty().push(x));
        assert(r.to_multiset() =~= sorted.to_multiset().insert(x));
    } else if sorted[0].1 >= x.1 {
        let t = sorted.drop_first();
        assert forall|i: int, j: int| 0 <= i < j < t.len() implies (#[trigger] t[i]).1 >= (
        #[trigger] t[j]).1 by {
            assert(t[i] == sorted[i + 1] && t[j] == sorted[j + 1]);
        }
        lemma_insert_ranked(t, x);
        let rec = insert_ranked(t, x);
        let head = seq![sorted[0]];
        assert(r == head + rec);
        assert(sorted =~= head + t);
        assert forall|i: int, j: int| 0 <= i < j < r.len() implies (#[trigger] r[i]).1 >= (
        #[trigger] r[j]).1 by {
            assert(r[j] == rec[j - 1]);
            if i == 0 {
                if j - 1 > 0 {
                    assert(rec[0].1 >= rec[j - 1].1);
                }
                if rec[0] != x {
                    assert(rec[0] == sorted[1]);
                }
            } else {
                assert(r[i] == rec[i - 1]);
            }
        }
        assert(r.to_multiset() =~= head.to_multiset().add(rec.to_multiset()));
        assert(sorted.to_multiset() =~= head.to_multiset().add(t.to_multiset()));
        assert(r.to_multiset() =~= sorted.to_multiset().insert(x));
    } else {
        let head = seq![x];
        assert(r == head + sorted);
        assert forall|i: int, j: int| 0 <= i < j < r.len() implies (#[trigger] r[i]).1 >= (
        #[trigger] r[j]).1 by {
            assert(r[j] == sorted[j - 1]);
            if i == 0 {
                if j - 1 > 0 {
                    assert(sorted[0].1 >= sorted[j - 1].1);
                }
            } else {
                assert(r[i] == sorted[i - 1]);
            }
        }
        assert(head =~= Seq::<(Seq<char>, nat)>::empty().push(x));
        assert(r.to_multiset() =~= head.to_multiset().add(sorted.to_multiset()));
        assert(r.to_multiset() =~= sorted.to_multiset().insert(x));
    }
}

/// The ranking behind a search keeps every hit exactly once and puts the hits
/// in order of descending score.
pub proof fn law_ranking_is_sorted(s: Seq<(Seq<char>, nat)>)
    ensures
        by_descending_score(ranked(s)),
        ranked(s).to_multiset() == s.to_multiset(),
        ranked(s).len() == s.len(),
    decreases s.len(),
{
    broadcast use vstd::seq_lib::group_to_multiset_ensures;

    if s.len() == 0 {
        assert(ranked(s).to_multiset() =~= s.to_multiset());
    } else {
        law_ranking_is_sorted(s.drop_last());
        lemma_insert_ranked(ranked(s.drop_last()), s.last());
        assert(s =~= s.drop_last().push(s.last()));
    }
}

/// A search returns at most three hits.
pub proof fn law_search_returns_at_most_three(query: Seq<char>, pages: Seq<
    (Seq<char>, Option<Seq<char>>),
>)
    ensures
        spec_wiki_search(query, pages).len() <= MAX_RESULTS,
{
}

proof fn lemma_insert_ranked_at(sorted: Seq<(Seq<char>, nat)>, x: (Seq<char>, nat), p: int)
    requires
        0 <= p <= sorted.len(),
        forall|j: int| 0 <= j < p ==> (#[trigger] sorted[j]).1 >= x.1,
        p == sorted.len() || sorted[p].1 < x.1,
    ensures
        insert_ranked(sorted, x) == sorted.insert(p, x),
    decreases p,
{
    if sorted.len() == 0 {
        assert(sorted.insert(p, x) =~= seq![x]);
    } else if p == 0 {
        assert(seq![x] + sorted =~= sorted.insert(0, x));
    } else {
        let t = sorted.drop_first();
        assert forall|j: int| 0 <= j < p - 1 implies (#[trigger] t[j]).1 >= x.1 by {
            assert(t[j] == sorted[j + 1]);
        }
        if p - 1 < t.len() {
            assert(t[p - 1] == sorted[p]);
        }
        lemma_insert_ranked_at(t, x, p - 1);
        assert(sorted[0].1 >= x.1);
        assert(seq![sorted[0]] + t.insert(p - 1, x) =~= sorted.insert(p, x));
    }
}

pub open spec fn ranking_view(v: Seq<(String, u128)>) -> Seq<(Seq<char>, nat)> {
    v.map_values(|e: (String, u128)| (e.0@, e.1 as nat))
}

fn insert_ranked_exec(sorted: &mut Vec<(String, u128)>, x: (String, u128))
    ensures
        ranking_view(final(sorted)@) == insert_ranked(ranking_view(old(sorted)@), (x.0@, x.1 as nat)),
{
    let mut p: usize = 0;
    while p < sorted.len() && sorted[p].1 >= x.1
        invariant
            p <= sorted@.len(),
            forall|j: int| 0 <= j < p ==> (#[trigger] ranking_view(sorted@)[j]).1 >= x.1,
        decreases sorted.len() - p,
    {
        p = p + 1;
    }
    let ghost before = ranking_view(sorted@);
    let ghost xv = (x.0@, x.1 as nat);
    proof {
        lemma_insert_ranked_at(before, xv, p as int);
    }
    sorted.insert(p, x);
    assert(ranking_view(sorted@) =~= before.insert(p as int, xv));
}

fn copy_chars(s: &[char]) -> (r: Vec<char>)
    ensures
        r@ == s@,
{
    let mut v: Vec<char> = Vec::new();
    push_all(&mut v, s);
    assert(v@ =~= s@);
    v
}

pub open spec fn chars_seqs_view(v: Seq<Vec<char>>) -> Seq<Seq<char>> {
    v.map_values(|w: Vec<char>| w@)
}

/// The words of the lowercased query, as character vectors.
fn query_words(query: &str) -> (r: Vec<Vec<char>>)
    ensures
        chars_seqs_view(r@) == words(lowercase(query@)),
{
    let ql = to_lowercase(query);
    let qv = chars_of(ql.as_str());
    let b = words_exec(qv.as_slice());
    let mut out: Vec<Vec<char>> = Vec::new();
    let mut i: usize = 0;
    while i < b.len()
        invariant
            i <= b@.len(),
            bounds_ok(qv@, b@),
            chars_seqs_view(out@) == bounds_view(qv@, b@).take(i as int),
        decreases b.len() - i,
    {
        let (x, y) = b[i];
        assert(x <= y <= qv@.len()) by {
            assert(b@[i as int].0 <= b@[i as int].1 <= qv@.len());
        }
        let w = copy_chars(&qv[x..y]);
        let ghost before = chars_seqs_view(out@);
        assert(bounds_view(qv@, b@)[i as int] == qv@.subrange(x as int, y as int));
        let ghost wv = w@;
        out.push(w);
        assert(chars_seqs_view(out@) =~= before.push(wv));
        assert(bounds_view(qv@, b@).take(i + 1) =~= bounds_view(qv@, b@).take(i as int).push(wv));
        assert(chars_seqs_view(out@) =~= bounds_view(qv@, b@).take(i + 1));
        i = i + 1;
    }
    assert(bounds_view(qv@, b@).take(b@.len() as int) =~= bounds_view(qv@, b@));
    out
}

/// How often the query words occur in the lowercased page text.
fn page_score_exec(content: &str, ws: &Vec<Vec<char>>) -> (r: u128)
    ensures
        r == page_score(content@, chars_seqs_view(ws@)),
{
    let cl = to_lowercase(content);
    let cv = chars_of(cl.as_str());
    let n = cv.len();
    let mut score: u128 = 0;
    let mut k: usize = 0;
    while k < ws.len()
        invariant
            k <= ws@.len(),
            n == cv@.len(),
            cv@ == lowercase(content@),
            score == page_score(content@, chars_seqs_view(ws@).take(k as int)),
            score <= (k as u128) * (n as u128),
        decreases ws.len() - k,
    {
        let w = &ws[k];
        let c: usize = if w.len() > 0 {
            count_matches_exec(cv.as_slice(), w.as_slice())
        } else {
            0
        };
        proof {
            assert(chars_seqs_view(ws@).take(k + 1).drop_last() =~= chars_seqs_view(ws@).take(
                k as int,
            ));
            assert(chars_seqs_view(ws@).take(k + 1).last() == w@);
            assert((k as u128) * (n as u128) + (n as u128) == ((k + 1) as u128) * (n as u128))
                by (nonlinear_arith);
            assert(((k + 1) as int) * (n as int) <= 0xffff_ffff_ffff_ffff * 0xffff_ffff_ffff_ffff)
                by (nonlinear_arith)
                requires
                    k + 1 <= 0xffff_ffff_ffff_ffff,
                    n <= 0xffff_ffff_ffff_ffff,
            ;
        }
        score = score + c as u128;
        k = k + 1;
    }
    assert(chars_seqs_view(ws@).take(ws@.len() as int) =~= chars_seqs_view(ws@));
    score
}

/// Whether a line mentions a query word.
fn mentions_exec(line: &[char], ws: &Vec<Vec<char>>) -> (r: bool)
    ensures
        r == mentions(line@, chars_seqs_view(ws@)),
{
    let l = string_from_chars(line);
    let ll = to_lowercase(l.as_str());
    let lv = chars_of(ll.as_str());
    let mut k: usize = 0;
    while k < ws.len()
        invariant
            k <= ws@.len(),
            lv@ == lowercase(line@),
            forall|j: int| 0 <= j < k ==> !contains(lowercase(line@), #[trigger] chars_seqs_view(ws@)[j]),
        decreases ws.len() - k,
    {
        if contains_exec(lv.as_slice(), ws[k].as_slice()) {
            assert(contains(lowercase(line@), chars_seqs_view(ws@)[k as int]));
            return true;
        }
        k = k + 1;
    }
    false
}

/// The snippet of a page: its first line that mentions a query word, cut to
/// `SNIPPET_CHARS` characters.
fn snippet_exec(content: &str, ws: &Vec<Vec<char>>) -> (r: String)
    ensures
        r@ == take_chars(first_mentioning(lines(content@), chars_seqs_view(ws@)), SNIPPET_CHARS as nat),
{
    let v = chars_of(content);
    let mut pos: usize = 0;
    assert(v@.skip(0) =~= v@);
    while pos < v.len()
        invariant
            pos <= v@.len(),
            v@ == content@,
            first_mentioning(lines(content@), chars_seqs_view(ws@)) == first_mentioning(
                lines(v@.skip(pos as int)),
                chars_seqs_view(ws@),
            ),
        decreases v.len() - pos,
    {
        let (a, b, next) = next_line(v.as_slice(), pos);
        let line = &v[a..b];
        proof {
            let ls = lines(v@.skip(pos as int));
            assert(ls.drop_first() =~= lines(v@.skip(next as int)));
            assert(ls[0] == line@);
        }
        if mentions_exec(line, ws) {
            let s = string_from_chars(line);
            return take_chars_exec(s.as_str(), SNIPPET_CHARS);
        }
        pos = next;
    }
    proof {
        assert(v@.skip(pos as int) =~= Seq::<char>::empty());
        assert(lines(v@.skip(pos as int)) =~= Seq::<Seq<char>>::empty());
        reveal_strlit("");
    }
    take_chars_exec("", SNIPPET_CHARS)
}

/// The texts of the best three scored hits, highest score first, equal
/// scores in their given order (see `spec_top_hits`).
pub fn top_hits(hits: Vec<(String, u128)>) -> (r: Vec<String>)
    ensures
        strings_view(r@) == spec_top_hits(ranking_view(hits@)),
{
    let ghost hv = ranking_view(hits@);
    let mut sorted: Vec<(String, u128)> = Vec::new();
    let n = hits.len();
    let mut taken: usize = 0;
    assert(ranking_view(sorted@) =~= ranked(hv.take(0)));
    while taken < n
        invariant
            n == hv.len() == hits@.len(),
            hv == ranking_view(hits@),
            taken <= n,
            ranking_view(sorted@) == ranked(hv.take(taken as int)),
        decreases n - taken,
    {
        let x = (hits[taken].0.clone(), hits[taken].1);
        assert((x.0@, x.1 as nat) == hv[taken as int]);
        insert_ranked_exec(&mut sorted, x);
        assert(hv.take(taken + 1).drop_last() =~= hv.take(taken as int));
        assert(hv.take(taken + 1).last() == hv[taken as int]);
        taken = taken + 1;
    }
    assert(hv.take(n as int) =~= hv);
    let ghost all = ranking_view(sorted@);
    let mut out: Vec<String> = Vec::new();
    let mut j: usize = 0;
    while j < sorted.len() && j < MAX_RESULTS
        invariant
            j <= sorted@.len(),
            j <= MAX_RESULTS,
            all == ranking_view(sorted@),
            strings_view(out@) == all.take(j as int).map_values(|e: (Seq<char>, nat)| e.0),
        decreases sorted.len() - j,
    {
        out.push(sorted[j].0.clone());
        assert(all.take(j + 1).map_values(|e: (Seq<char>, nat)| e.0) =~= all.take(j as int).map_values(|e: (Seq<char>, nat)| e.0).push(sorted@[j as int].0@));
        assert(strings_view(out@) =~= all.take(j + 1).map_values(|e: (Seq<char>, nat)| e.0));
        j = j + 1;
    }
    proof {
        if all.len() <= MAX_RESULTS {
            assert(all.take(j as int) =~= all);
        }
    }
    out
}

/// The best three hits of a wiki search: pages (with the text read from them,
/// `None` when reading failed) in which the lowercased query words occur, best
/// score first (see `spec_wiki_search`).
pub fn search_pages(query: &str, pages: &Vec<(String, Option<String>)>) -> (r: Vec<String>)
    ensures
        strings_view(r@) == spec_wiki_search(query@, pages_view(pages@)),
{
    let ws = query_words(query);
    let ghost wsv = words(lowercase(query@));
    let mut found: Vec<(String, u128)> = Vec::new();
    let mut i: usize = 0;
    assert(pages_view(pages@).take(0) =~= Seq::<(Seq<char>, Option<Seq<char>>)>::empty());
    assert(ranking_view(found@) =~= Seq::<(Seq<char>, nat)>::empty());
    while i < pages.len()
        invariant
            i <= pages@.len(),
            chars_seqs_view(ws@) == wsv,
            ranking_view(found@) == hits(pages_view(pages@).take(i as int), wsv),
        decreases pages.len() - i,
    {
        let ghost pv = pages_view(pages@);
        proof {
            assert(pv.take(i + 1).drop_last() =~= pv.take(i as int));
            assert(pv.take(i + 1).last() == pv[i as int]);
        }
        let ghost prev = hits(pv.take(i as int), wsv);
        match &pages[i].1 {
            Some(content) => {
                let score = page_score_exec(content.as_str(), &ws);
                if score > 0 {
                    let snippet = snippet_exec(content.as_str(), &ws);
                    let mut entry = "**".to_owned();
                    entry.append(pages[i].0.as_str());
                    entry.append("**: ");
                    entry.append(snippet.as_str());
                    assert(entry@ == hit_text(pages@[i as int].0@, content@, wsv));
                    assert(hits(pv.take(i + 1), wsv) == prev.push((entry@, score as nat)));
                    found.push((entry, score));
                    assert(ranking_view(found@) =~= prev.push((entry@, score as nat)));
                } else {
                    assert(hits(pv.take(i + 1), wsv) == prev);
                }
            },
            None => {
                assert(hits(pv.take(i + 1), wsv) == prev);
            },
        }
        i = i + 1;
    }
    assert(pages_view(pages@).take(pages@.len() as int) =~= pages_view(pages@));
    top_hits(found)
}

} // verus!
