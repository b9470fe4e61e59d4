use cluddy::api::{required_field, rg_command_line, rg_output, transcript_entry, write_label};
use cluddy::assistant::{
    analysis_stale, context_summary, cursor_moved, env_keys, key_configured, panel_height,
    selection_error, vision_unavailable, window_mode, WindowMode, SELECTION_HINT,
};
use cluddy::claude::{
    explain_prompt, groq_reply, image_data_url, json_span, proposal_prompt, proposal_summary,
    proposal_target, require_groq_key, vision_reply, wiki_update_enabled, wiki_update_prompt,
    EXPLAIN_INTRO, PROPOSAL_HEAD, WIKI_PROMPT_HEAD, WIKI_PROMPT_MIDDLE, WIKI_PROMPT_TAIL,
};
use cluddy::code_context::{CodeContext, Symbol};
use cluddy::file_edit::{check_request, edit_result, plan_edit, ApplyCodeActionRequest};
use cluddy::memory::{
    check_embedding_len, collection_url, memory_configured, normalize_base_url, points_url,
    search_url,
};
use cluddy::text::{decimal_string, is_ws_char};
use cluddy::web_search::{check_search_key, search_result, search_status_error};
use cluddy::wiki::{
    index_markdown, list_pages, log_entry, log_with_entry, page_file_name, search_pages,
    WikiManager,
};

fn ctx(file_name: Option<&str>, language: Option<&str>, content: Option<&str>) -> CodeContext {
    CodeContext {
        file_path: None,
        file_name: file_name.map(String::from),
        language: language.map(String::from),
        content: content.map(String::from),
        window_title: String::new(),
        active_app: String::new(),
        is_ide: false,
        symbols: vec![],
    }
}

fn strings(v: &[&str]) -> Vec<String> {
    v.iter().map(|s| s.to_string()).collect()
}

// ── text ─────────────────────────────────────────────────────────────────────

#[test]
fn whitespace_matches_std_for_every_char() {
    for u in 0u32..=0x10FFFF {
        if let Some(c) = char::from_u32(u) {
            assert_eq!(is_ws_char(c), c.is_whitespace(), "char {:x}", u);
        }
    }
}

#[test]
fn decimal_numerals() {
    assert_eq!(decimal_string(0), "0");
    assert_eq!(decimal_string(7), "7");
    assert_eq!(decimal_string(10), "10");
    assert_eq!(decimal_string(1234567890), "1234567890");
    assert_eq!(decimal_string(u64::MAX), u64::MAX.to_string());
}

// ── wiki ─────────────────────────────────────────────────────────────────────

#[test]
fn wiki_manager_keeps_its_path() {
    let w = WikiManager::new(std::path::PathBuf::from("/tmp/wiki"));
    assert_eq!(w.base_path, std::path::PathBuf::from("/tmp/wiki"));
}

#[test]
fn wiki_page_names() {
    let root = strings(&["index.md", "log.md", "notes.md", "SCHEMA.md", "readme.txt", "a.md.md", ".md"]);
    let ents = strings(&["rust.md", "x.txt", "index.md"]);
    assert_eq!(
        list_pages(&root, &ents),
        strings(&["notes", "a", "", "entities/rust", "entities/index"])
    );
    assert_eq!(page_file_name("entities/rust"), "entities/rust.md");
}

#[test]
fn wiki_index_text() {
    assert_eq!(
        index_markdown(&strings(&["notes", "entities/rust"])),
        "# Cluddy Wiki Index\n\n_Auto-managed by Cluddy. Edit via conversation._\n\n## Pages\n\n- [notes](notes.md)\n- [entities/rust](entities/rust.md)"
    );
    assert_eq!(
        index_markdown(&vec![]),
        "# Cluddy Wiki Index\n\n_Auto-managed by Cluddy. Edit via conversation._\n\n## Pages\n"
    );
}

#[test]
fn wiki_log_text() {
    assert_eq!(log_entry("2026-04-18 10:00", 3), "## [2026-04-18 10:00] session | 3 pages updated");
    assert_eq!(log_with_entry("# Log\n\n", "x"), "# Log\n\nx\n");
}

fn page(name: &str, content: Option<&str>) -> (String, Option<String>) {
    (name.to_string(), content.map(String::from))
}

#[test]
fn wiki_search_ranks_by_matches() {
    let pages = vec![
        page("entities/rust", Some("# Rust\nLifetimes and borrowing.\nrust rust")),
        page("notes", Some("nothing here")),
        page("entities/go", Some("Go has no lifetimes")),
        page("broken", None),
    ];
    assert_eq!(
        search_pages("Rust LIFETIMES", &pages),
        strings(&["**entities/rust**: # Rust", "**entities/go**: Go has no lifetimes"])
    );
}

#[test]
fn wiki_search_keeps_page_order_on_ties_and_returns_three() {
    let pages = vec![
        page("a", Some("x")),
        page("b", Some("x x x")),
        page("c", Some("x x")),
        page("d", Some("x x x")),
        page("e", Some("x")),
    ];
    assert_eq!(search_pages("x", &pages), strings(&["**b**: x x x", "**d**: x x x", "**c**: x x"]));
    let ties = vec![page("p", Some("y")), page("q", Some("y")), page("r", Some("y")), page("s", Some("y"))];
    assert_eq!(search_pages("y", &ties), strings(&["**p**: y", "**q**: y", "**r**: y"]));
    assert!(search_pages("   ", &ties).is_empty());
}

#[test]
fn wiki_search_snippet_is_cut_and_counts_do_not_overlap() {
    let long = "z".repeat(200);
    let pages = vec![page("long", Some(&format!("intro\n{long}")))];
    let got = search_pages("zz", &pages);
    assert_eq!(got, vec![format!("**long**: {}", "z".repeat(120))]);
    // "aaaa" holds "aa" twice without overlap, so it outranks "aa aa a"? both score 2: order kept
    let pages = vec![page("one", Some("aaa")), page("two", Some("aaaa"))];
    assert_eq!(search_pages("aa", &pages), strings(&["**two**: aaaa", "**one**: aaa"]));
}

// ── editing files ────────────────────────────────────────────────────────────

fn req(t: &str, o: &str, r: &str) -> ApplyCodeActionRequest {
    ApplyCodeActionRequest { target_file: t.into(), old_text: o.into(), replacement: r.into() }
}

#[test]
fn edit_requests_are_checked() {
    assert_eq!(check_request(&req("  ", "x", "y")), Err("No target file for this action".to_string()));
    assert_eq!(check_request(&req("/a.rs", "", "y")), Err("Cannot apply an empty selection".to_string()));
    assert_eq!(check_request(&req("/a.rs", "x", "y")), Ok(()));
}

#[test]
fn edits_replace_the_first_occurrence() {
    assert_eq!(
        plan_edit("let a = 1;\nlet a = 1;", "a = 1", "b = 2"),
        Ok(Some("let b = 2;\nlet a = 1;".to_string()))
    );
    assert_eq!(
        plan_edit("abc", "x", "y"),
        Err("Selected text no longer matches the file".to_string())
    );
    assert_eq!(plan_edit("abc", "b", "b"), Ok(None));
    assert_eq!(plan_edit("aaa", "aa", "b"), Ok(Some("ba".to_string())));
    assert_eq!(plan_edit("héllo wörld", "wörld", "welt"), Ok(Some("héllo welt".to_string())));
    let r = edit_result("/a.rs".to_string(), true);
    assert_eq!((r.target_file.as_str(), r.changed, r.message.as_str()), ("/a.rs", true, "Applied change"));
    let r = edit_result("/a.rs".to_string(), false);
    assert_eq!(r.message, "No change needed");
}

#[test]
fn law_applied_edit_holds_replacement_example() {
    let edited = plan_edit("one two one", "one", "three").unwrap().unwrap();
    assert_eq!(edited, "three two one");
    assert!(edited.contains("three"));
}

// ── the language model ───────────────────────────────────────────────────────

#[test]
fn prompts_for_questions() {
    let c = ctx(Some("main.rs"), Some("Rust"), Some("let x = 1;"));
    assert_eq!(
        explain_prompt(&c, "why?"),
        format!("{EXPLAIN_INTRO}why?\n\nFile: main.rs (Rust)\n```rust\nlet x = 1;\n```")
    );
    let c = ctx(None, None, Some("x"));
    assert_eq!(explain_prompt(&c, "q"), format!("{EXPLAIN_INTRO}q\n\nFile: unknown (text)\n```\nx\n```"));
    let c = ctx(Some("main.rs"), Some("Rust"), None);
    assert_eq!(explain_prompt(&c, "hi"), format!("{EXPLAIN_INTRO}hi"));
    assert!(EXPLAIN_INTRO.starts_with("Answer concisely."));
}

#[test]
fn prompts_for_edits() {
    let c = ctx(None, None, Some("  code  "));
    let (selected, prompt) = proposal_prompt(&c, "   ").unwrap();
    assert_eq!(selected, "code");
    assert_eq!(
        prompt,
        format!("{PROPOSAL_HEAD}unknown\nLanguage: text\nInstruction: (infer the best edit)\n\nSelected code:\n```\ncode\n```")
    );
    let mut c = ctx(Some("lib.rs"), Some("Rust"), Some("fn f() {}"));
    c.file_path = Some("/w/lib.rs".to_string());
    let (_, prompt) = proposal_prompt(&c, " add docs ").unwrap();
    assert_eq!(
        prompt,
        format!("{PROPOSAL_HEAD}/w/lib.rs\nLanguage: Rust\nInstruction: add docs\n\nSelected code:\n```rust\nfn f() {{}}\n```")
    );
    assert_eq!(
        proposal_prompt(&ctx(None, None, None), "x").unwrap_err(),
        "No selected code or active context found"
    );
    assert_eq!(
        proposal_prompt(&ctx(None, None, Some(" \n ")), "x").unwrap_err(),
        "No selected code or active context found"
    );
    assert!(PROPOSAL_HEAD.contains("Return ONLY valid JSON"));
    assert!(PROPOSAL_HEAD.ends_with("Active file: "));
}

#[test]
fn prompts_for_the_wiki() {
    assert_eq!(
        wiki_update_prompt("turn", "index"),
        format!("{WIKI_PROMPT_HEAD}index{WIKI_PROMPT_MIDDLE}turn{WIKI_PROMPT_TAIL}")
    );
    assert!(WIKI_PROMPT_TAIL.contains("# Rust Lifetimes\\nOne-line summary.\\n"));
    assert!(wiki_update_enabled("k"));
    assert!(!wiki_update_enabled(""));
}

#[test]
fn keys_and_proposals() {
    assert_eq!(require_groq_key(""), Err("Groq API key not configured".to_string()));
    assert_eq!(require_groq_key("gsk"), Ok(()));
    assert_eq!(proposal_summary("  ".to_string()), "Suggested code change");
    assert_eq!(proposal_summary("Fix".to_string()), "Fix");
    assert_eq!(proposal_target(None, Some("/a".to_string())), Some("/a".to_string()));
    assert_eq!(proposal_target(Some("/b".to_string()), Some("/a".to_string())), Some("/b".to_string()));
    assert_eq!(proposal_target(None, None), None);
}

#[test]
fn json_spans() {
    assert_eq!(json_span("Sure: {\"a\": 1} done", '{', '}'), Some("{\"a\": 1}".to_string()));
    assert_eq!(json_span("no json", '{', '}'), Some("no json".to_string()));
    assert_eq!(json_span("} then {", '{', '}'), None);
    assert_eq!(json_span("x [1,[2]] y", '[', ']'), Some("[1,[2]]".to_string()));
    assert_eq!(json_span("open { only", '{', '}'), Some("{ only".to_string()));
    assert_eq!(json_span("", '[', ']'), Some(String::new()));
}

#[test]
fn model_replies() {
    assert_eq!(
        groq_reply(false, "401 Unauthorized", Some("bad key".into()), None),
        Err("Groq API 401 Unauthorized: bad key".to_string())
    );
    assert_eq!(groq_reply(false, "500", None, Some("x".into())), Err("Groq API 500: unknown".to_string()));
    assert_eq!(groq_reply(true, "200 OK", None, None), Ok(String::new()));
    assert_eq!(groq_reply(true, "200 OK", None, Some("hi".into())), Ok("hi".to_string()));
    assert_eq!(vision_reply(true, "200 OK", None, None), Err("No content in response".to_string()));
    assert_eq!(vision_reply(true, "200 OK", None, Some("a".into())), Ok("a".to_string()));
    assert_eq!(
        vision_reply(false, "429", Some("slow down".into()), None),
        Err("Groq API error 429: slow down".to_string())
    );
    assert_eq!(image_data_url("abc"), "data:image/png;base64,abc");
}

// ── search and memory ────────────────────────────────────────────────────────

#[test]
fn search_keys_and_results() {
    let msg = "Tavily API key not configured \u{2014} add TAVILY_API_KEY to .env".to_string();
    assert_eq!(check_search_key(""), Err(msg.clone()));
    assert_eq!(check_search_key("your_tavily_key"), Err(msg));
    assert_eq!(check_search_key("tvly-1"), Ok(()));
    let r = search_result("t".into(), "u".into(), &"é".repeat(400));
    assert_eq!(r.content.chars().count(), 350);
    assert_eq!((r.title.as_str(), r.url.as_str()), ("t", "u"));
    assert_eq!(search_result("t".into(), "u".into(), "short").content, "short");
    assert_eq!(search_status_error("502 Bad Gateway"), "Search API error: 502 Bad Gateway");
}

#[test]
fn memory_addresses() {
    assert_eq!(normalize_base_url("http://h:6333//"), "http://h:6333");
    assert_eq!(normalize_base_url("http://h"), "http://h");
    assert_eq!(normalize_base_url(&normalize_base_url("x///")), normalize_base_url("x///"));
    assert_eq!(collection_url("http://h"), "http://h/collections/cluddy_memories_v2");
    assert_eq!(points_url("http://h"), "http://h/collections/cluddy_memories_v2/points");
    assert_eq!(search_url("http://h"), "http://h/collections/cluddy_memories_v2/points/search");
    assert_eq!(check_embedding_len(256), Ok(()));
    assert_eq!(check_embedding_len(768), Err("expected 256 dims, got 768".to_string()));
    assert_eq!(check_embedding_len(3), Err("expected 256 dims, got 3".to_string()));
    assert!(memory_configured("http://h", "k"));
    assert!(!memory_configured("", "k"));
    assert!(!memory_configured("http://h", ""));
}

// ── the local interface ──────────────────────────────────────────────────────

#[test]
fn api_requests() {
    assert_eq!(required_field("  hi ", "question"), Ok("hi".to_string()));
    assert_eq!(required_field("  ", "question"), Err("question is required".to_string()));
    assert_eq!(write_label(""), "Infer and apply the best edit.");
    assert_eq!(write_label(" tidy up "), "tidy up");
    assert_eq!(rg_output(String::new(), String::new(), false), "no matches");
    assert_eq!(rg_output(String::new(), "err".into(), false), "err");
    assert_eq!(rg_output("out".into(), "err".into(), true), "out");
    assert_eq!(rg_output(String::new(), String::new(), true), "");
    assert_eq!(rg_command_line("foo", "/ws"), "rg --line-number --color never foo /ws");
    let e = transcript_entry("user", "hi", "ask", "2026-01-01T00:00:00+00:00".to_string());
    assert_eq!(
        (e.role.as_str(), e.text.as_str(), e.kind.as_str(), e.timestamp.as_str()),
        ("user", "hi", "ask", "2026-01-01T00:00:00+00:00")
    );
}

// ── the assistant ────────────────────────────────────────────────────────────

#[test]
fn configured_keys() {
    assert!(!key_configured("your_x"));
    assert!(!key_configured(""));
    assert!(key_configured("gsk_1"));
    let k = env_keys("pub".into(), "asst".into(), "gsk_1", "your_tavily");
    assert_eq!((k.has_claude, k.has_groq, k.has_search), (true, true, false));
    assert_eq!((k.vapi_public_key.as_str(), k.vapi_assistant_id.as_str()), ("pub", "asst"));
}

#[test]
fn when_screens_are_analysed_again() {
    let h = [1u64, 2, 3, 4];
    let far = [u64::MAX, 2, 3, 4];
    assert!(analysis_stale(None, &h, 0));
    assert!(!analysis_stale(Some(h), &h, 1));
    assert!(analysis_stale(Some(h), &h, 2));
    assert!(analysis_stale(Some(h), &far, 0));
    assert_eq!(vision_unavailable("timeout"), "Vision unavailable: timeout");
}

#[test]
fn window_modes_and_sizes() {
    assert_eq!(window_mode("expanded"), WindowMode::Expanded);
    assert_eq!(window_mode("calling"), WindowMode::Calling);
    assert_eq!(window_mode("orb"), WindowMode::Orb);
    assert_eq!(window_mode("Expanded"), WindowMode::Orb);
    assert_eq!(panel_height(100), 168);
    assert_eq!(panel_height(300), 300);
    assert_eq!(panel_height(999), 460);
    assert!(cursor_moved(10, 10, 5, 10));
    assert!(!cursor_moved(9, 10, 5, 10));
    assert!(cursor_moved(0, 0, 0, -5));
    assert!(!cursor_moved(-4, 4, 0, 0));
}

#[test]
fn selection_errors_and_summaries() {
    assert_eq!(
        selection_error("Clipboard is empty", SELECTION_HINT),
        format!("Clipboard is empty. {SELECTION_HINT}")
    );
    let mut c = ctx(Some("main.rs"), None, None);
    c.symbols = vec![
        Symbol { kind: "fn".into(), name: "main".into(), line: 1 },
        Symbol { kind: "struct".into(), name: "Foo".into(), line: 3 },
    ];
    assert_eq!(context_summary(&c), "main.rs main Foo");
    assert_eq!(context_summary(&ctx(None, None, None)), " ");
}
