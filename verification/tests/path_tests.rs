use cluddy::api::{check_path_allowed, OUTSIDE_ERROR};
use cluddy::assistant::{analysis_from_reply, retry_delay_ms, screen_step, ScreenAction};
use cluddy::claude::{VISION_MAX_TOKENS, VISION_MODEL, VISION_PROMPT};
use cluddy::code_context::{choose_candidate, extract_symbols, pick_candidate};
use cluddy::file_edit::{check_in_workspace, OUTSIDE_WORKSPACE_ERROR};
use cluddy::paths::{path_lies_under, workspace_root};
use cluddy::wiki::{search_pages, top_hits};

fn parts(v: &[&str]) -> Vec<String> {
    v.iter().map(|s| s.to_string()).collect()
}

#[test]
fn a_path_lies_under_its_ancestors_only() {
    let ws = parts(&["/", "home", "me", "proj"]);
    assert!(path_lies_under(&parts(&["/", "home", "me", "proj", "src", "a.rs"]), &ws));
    assert!(path_lies_under(&ws, &ws));
    assert!(!path_lies_under(&parts(&["/", "home", "me"]), &ws));
    // a sibling whose name merely begins like the workspace is not inside it
    assert!(!path_lies_under(&parts(&["/", "home", "me", "project2", "a.rs"]), &ws));
}

#[test]
fn reads_are_kept_to_the_workspace_and_the_wiki() {
    let ws = parts(&["/", "w"]);
    let wiki = parts(&["/", "h", ".cluddy", "wiki"]);
    assert_eq!(check_path_allowed(&parts(&["/", "w", "x.txt"]), &ws, &wiki), Ok(()));
    assert_eq!(check_path_allowed(&parts(&["/", "h", ".cluddy", "wiki", "index.md"]), &ws, &wiki), Ok(()));
    assert_eq!(
        check_path_allowed(&parts(&["/", "etc", "passwd"]), &ws, &wiki),
        Err(OUTSIDE_ERROR.to_string())
    );
    assert_eq!(OUTSIDE_ERROR, "path is outside workspace/wiki");
}

#[test]
fn edits_are_kept_to_the_workspace() {
    let ws = parts(&["/", "w"]);
    assert_eq!(check_in_workspace(&parts(&["/", "w", "src", "main.rs"]), &ws), Ok(()));
    assert_eq!(
        check_in_workspace(&parts(&["/", "tmp", "main.rs"]), &ws),
        Err("Refusing to edit a file outside this workspace".to_string())
    );
    assert_eq!(OUTSIDE_WORKSPACE_ERROR, "Refusing to edit a file outside this workspace");
}

#[test]
fn the_build_directory_points_at_its_parent() {
    assert_eq!(workspace_root(parts(&["/", "app", "src-tauri"])), parts(&["/", "app"]));
    assert_eq!(workspace_root(parts(&["/", "app"])), parts(&["/", "app"]));
    assert_eq!(workspace_root(parts(&["/", "src-tauri", "x"])), parts(&["/", "src-tauri", "x"]));
    assert_eq!(workspace_root(vec![]), Vec::<String>::new());
}

#[test]
fn selection_reads_are_retried_six_times() {
    let delays: Vec<u64> = (0..10).filter_map(retry_delay_ms).collect();
    assert_eq!(delays, vec![80, 140, 220, 320, 480, 650]);
    assert_eq!(retry_delay_ms(6), None);
}

#[test]
fn symbols_come_in_line_order() {
    let mut src = String::new();
    for i in 0..30 {
        src.push_str(&format!("fn f{i}() {{}}\n\n"));
    }
    let syms = extract_symbols(&src, "Rust");
    assert_eq!(syms.len(), 20);
    for w in syms.windows(2) {
        assert!(w[0].line < w[1].line);
    }
    assert_eq!(syms[0].line, 1);
    assert_eq!(syms[19].line, 39);
    assert!(syms.iter().all(|s| !s.name.is_empty()));
}

#[test]
fn search_ranks_by_score_and_keeps_three() {
    let pages = vec![
        ("a".to_string(), Some("rust".to_string())),
        ("b".to_string(), Some("rust rust rust".to_string())),
        ("c".to_string(), None),
        ("d".to_string(), Some("rust rust".to_string())),
        ("e".to_string(), Some("nothing here".to_string())),
        ("f".to_string(), Some("Rust and rust".to_string())),
    ];
    let r = search_pages("RUST", &pages);
    assert_eq!(r.len(), 3);
    assert_eq!(r[0], "**b**: rust rust rust");
    // equal scores keep page order
    assert_eq!(r[1], "**d**: rust rust");
    assert_eq!(r[2], "**f**: Rust and rust");
}

#[test]
fn top_hits_keep_the_three_best() {
    let hits = vec![
        ("a".to_string(), 1u128),
        ("b".to_string(), 3),
        ("c".to_string(), 1),
        ("d".to_string(), 2),
    ];
    assert_eq!(top_hits(hits), vec!["b".to_string(), "d".to_string(), "a".to_string()]);
    assert_eq!(top_hits(vec![]), Vec::<String>::new());
    assert_eq!(top_hits(vec![("x".to_string(), 5)]), vec!["x".to_string()]);
}

#[test]
fn candidates_are_picked_by_workspace_then_time() {
    let paths = parts(&["/a/other/main.rs", "/b/myproj/main.rs", "/c/myproj/main.rs"]);
    let times = vec![Some(5i128), Some(1), Some(9)];
    assert_eq!(pick_candidate(&paths, Some("myproj"), &times), Ok(1));
    assert_eq!(pick_candidate(&paths, Some("nowhere"), &times), Ok(2));
    assert_eq!(pick_candidate(&paths, None, &times), Ok(2));
    // lowercasing happens before the comparison
    let mixed = parts(&["/a/Other/main.rs", "/b/MyProj/main.rs"]);
    assert_eq!(choose_candidate(&mixed, Some("MYPROJ"), &vec![Some(1), None]), Ok(1));
    assert_eq!(pick_candidate(&mixed, Some("MYPROJ"), &vec![Some(1), None]), Ok(0));
    assert_eq!(
        pick_candidate(&vec![], None, &vec![]),
        Err("File not found on disk".to_string())
    );
}

#[test]
fn the_screen_cache_steps() {
    let h = [1u64, 2, 3, 4];
    // never analysed: analyse, with the vision service or without it
    let (next, action) = screen_step(None, "old", 0, h, true);
    assert_eq!(next, Some(h));
    assert!(matches!(action, ScreenAction::AskVision));
    let (_, action) = screen_step(None, "old", 0, h, false);
    assert!(matches!(action, ScreenAction::Report(ref a) if a == "No Groq API key configured."));
    // the same screen within two seconds: the cached analysis again
    let earlier = [1u64, 2, 3, 5];
    let (next, action) = screen_step(Some(earlier), "old", 1, h, true);
    assert_eq!(next, Some(earlier));
    assert!(matches!(action, ScreenAction::Reuse(ref a) if a == "old"));
    // the cache has expired
    let (next, action) = screen_step(Some(h), "old", 2, h, true);
    assert_eq!(next, Some(h));
    assert!(matches!(action, ScreenAction::AskVision));
    // a different screen
    let (next, _) = screen_step(Some([0; 4]), "old", 0, [u64::MAX; 4], true);
    assert_eq!(next, Some([u64::MAX; 4]));
}

#[test]
fn vision_replies_become_analyses() {
    assert_eq!(analysis_from_reply(Ok("a file".to_string())), "a file");
    assert_eq!(analysis_from_reply(Err("down".to_string())), "Vision unavailable: down");
    assert_eq!(VISION_MODEL, "meta-llama/llama-4-scout-17b-16e-instruct");
    assert_eq!(VISION_MAX_TOKENS, 120);
    assert!(VISION_PROMPT.starts_with("One sentence: what code/error is on this screen?"));
    assert!(VISION_PROMPT.contains("Be specific \u{2014} file name"));
}
