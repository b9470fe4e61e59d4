use cluddy::code_context::{
    active_context, choose_candidate, clipboard_context, detect_language,
    detect_language_from_content, editor_app_from_title, editor_file, extract_symbols,
    is_ide_window, is_skipped_dir, latest_index, parse_vscode_title, search_exhausted,
    truncate_content, Symbol,
};

fn syms(v: &[Symbol]) -> Vec<(String, String, u32)> {
    v.iter().map(|s| (s.kind.clone(), s.name.clone(), s.line)).collect()
}

fn t(kind: &str, name: &str, line: u32) -> (String, String, u32) {
    (kind.to_string(), name.to_string(), line)
}

#[test]
fn detect_language_by_extension() {
    assert_eq!(detect_language("main.rs"), Some("Rust"));
    assert_eq!(detect_language("App.tsx"), Some("TypeScript"));
    assert_eq!(detect_language("x.ts"), Some("TypeScript"));
    assert_eq!(detect_language("script.mjs"), Some("JavaScript"));
    assert_eq!(detect_language("tool.py"), Some("Python"));
    assert_eq!(detect_language("server.go"), Some("Go"));
    assert_eq!(detect_language("a.cxx"), Some("C++"));
    assert_eq!(detect_language("a.h"), Some("C"));
    assert_eq!(detect_language("Main.java"), Some("Java"));
    assert_eq!(detect_language("P.cs"), Some("C#"));
    assert_eq!(detect_language("x.rb"), Some("Ruby"));
    assert_eq!(detect_language("x.swift"), Some("Swift"));
    assert_eq!(detect_language("x.kt"), Some("Kotlin"));
    assert_eq!(detect_language("Cargo.toml"), Some("TOML"));
    assert_eq!(detect_language("a.json"), Some("JSON"));
    assert_eq!(detect_language("ci.yml"), Some("YAML"));
    assert_eq!(detect_language("notes.md"), Some("Markdown"));
    assert_eq!(detect_language("index.htm"), Some("HTML"));
    assert_eq!(detect_language("s.sass"), Some("CSS"));
    assert_eq!(detect_language("run.zsh"), Some("Shell"));
}

#[test]
fn detect_language_uses_last_extension_only() {
    assert_eq!(detect_language("archive.tar.gz"), None);
    assert_eq!(detect_language("weird.py.rs"), Some("Rust"));
    assert_eq!(detect_language("Makefile"), None);
    // a name without a dot is its own extension
    assert_eq!(detect_language("rs"), Some("Rust"));
    assert_eq!(detect_language("a.H"), None);
    assert_eq!(detect_language(""), None);
    assert_eq!(detect_language("trailing."), None);
}

#[test]
fn detect_language_from_snippets() {
    assert_eq!(detect_language_from_content("fn main() { }"), Some("Rust"));
    assert_eq!(detect_language_from_content("impl Foo { fn x() -> u8 { 1 } }"), Some("Rust"));
    assert_eq!(detect_language_from_content("use std::io;"), Some("Rust"));
    assert_eq!(detect_language_from_content("import React from 'react'"), Some("TypeScript"));
    assert_eq!(detect_language_from_content("const [a, b] = useState(0)"), Some("TypeScript"));
    assert_eq!(detect_language_from_content("def f(self):\n    pass"), Some("Python"));
    assert_eq!(detect_language_from_content("package main\n"), Some("Go"));
    assert_eq!(detect_language_from_content("function f() { let x = 1; }"), Some("JavaScript"));
    assert_eq!(detect_language_from_content("def f():\n    pass"), None);
    assert_eq!(detect_language_from_content("hello world"), None);
    // Rust wins over everything checked later
    assert_eq!(detect_language_from_content("fn main() import React"), Some("Rust"));
}

#[test]
fn truncate_keeps_first_lines() {
    assert_eq!(truncate_content("a\nb\nc", 2), "a\nb");
    assert_eq!(truncate_content("a\r\nb\r\n", 5), "a\nb");
    assert_eq!(truncate_content("", 3), "");
    assert_eq!(truncate_content("x\n\ny", 3), "x\n\ny");
    assert_eq!(truncate_content("a\nb", 0), "");
    assert_eq!(truncate_content("last\r", 1), "last\r");
    assert_eq!(truncate_content("a\n\n", 5), "a\n");
}

#[test]
fn rust_symbols() {
    let src = "pub fn main() {\n    let x = 1;\n}\npub(crate) struct Foo<T> {\nenum Bar {\ntrait Baz {\nimpl Foo {\nasync fn run(\npub async fn go() {\nimpl<T> Tr for X<T> {\nfn (\n";
    let got = syms(&extract_symbols(src, "Rust"));
    assert_eq!(
        got,
        vec![
            t("fn", "main", 1),
            t("struct", "Foo", 4),
            t("enum", "Bar", 5),
            t("trait", "Baz", 6),
            t("impl", "Foo", 7),
            t("fn", "run", 8),
            t("fn", "go", 9),
        ]
    );
}

#[test]
fn js_ts_symbols() {
    let src = "export default async function load(x) {\nclass Widget extends Base {\ninterface Props<T> {\ntype Id = string;\nconst handler = async (e) => {\nlet f = function() {}\nconst x = 5;\nexport const Y = (a) => a\nconst = (a) => a\n";
    let got = syms(&extract_symbols(src, "TypeScript"));
    assert_eq!(
        got,
        vec![
            t("function", "load", 1),
            t("class", "Widget", 2),
            t("interface", "Props", 3),
            t("type", "Id", 4),
            t("function", "handler", 5),
            t("function", "f", 6),
            t("function", "Y", 8),
        ]
    );
    assert_eq!(syms(&extract_symbols(src, "JavaScript")), got);
}

#[test]
fn python_symbols() {
    let src = "def foo(a):\n    return a\nasync def bar():\nclass Baz(Base):\n    def method(self):\nclass Plain:\n";
    let got = syms(&extract_symbols(src, "Python"));
    assert_eq!(
        got,
        vec![
            t("def", "foo", 1),
            t("def", "bar", 3),
            t("class", "Baz", 4),
            t("def", "method", 5),
            t("class", "Plain", 6),
        ]
    );
}

#[test]
fn go_symbols() {
    let src = "package main\nfunc main() {\nfunc (s *Server) Start(ctx context.Context) error {\ntype Config struct {\nfunc (broken\ntype   \n";
    let got = syms(&extract_symbols(src, "Go"));
    assert_eq!(got, vec![t("func", "main", 2), t("func", "Start", 3), t("type", "Config", 4)]);
}

#[test]
fn unknown_language_has_no_symbols() {
    assert!(extract_symbols("fn main() {}", "rust").is_empty());
    assert!(extract_symbols("fn main() {}", "").is_empty());
}

#[test]
fn at_most_twenty_symbols() {
    let src: String = (0..25).map(|i| format!("fn f{i}() {{}}\n")).collect();
    let got = extract_symbols(&src, "Rust");
    assert_eq!(got.len(), 20);
    assert_eq!(got[19].name, "f19");
    assert_eq!(got[19].line, 20);
}

#[test]
fn ide_windows() {
    assert!(is_ide_window("", "main.rs - proj - Visual Studio Code"));
    assert!(!is_ide_window("code", "Terminal"));
    assert!(is_ide_window("vscode", ""));
    assert!(is_ide_window("", "file.txt - vim"));
    assert!(is_ide_window("", "file.txt - nvim"));
    assert!(!is_ide_window("", "file.txt - vim!"));
    assert!(is_ide_window("", "GNU Emacs"));
    assert!(is_ide_window("", "PyCharm 2024"));
}

#[test]
fn editor_app_names() {
    assert_eq!(editor_app_from_title("x - Visual Studio Code"), "vscode");
    assert_eq!(editor_app_from_title("IntelliJ IDEA"), "jetbrains");
    assert_eq!(editor_app_from_title("Notepad"), "");
}

#[test]
fn vscode_titles() {
    assert_eq!(
        parse_vscode_title("\u{25CF} main.rs - cluddy - Visual Studio Code"),
        Some(("main.rs".to_string(), Some("cluddy".to_string())))
    );
    assert_eq!(
        parse_vscode_title("main.rs - Visual Studio Code"),
        Some(("main.rs".to_string(), None))
    );
    assert_eq!(parse_vscode_title("Untitled-1 - Visual Studio Code"), None);
    assert_eq!(parse_vscode_title("Visual Studio Code"), None);
    // the title is trimmed before it is split, so its leading separator loses its space
    assert_eq!(parse_vscode_title(" - x - Visual Studio Code"), Some(("- x".to_string(), None)));
    assert_eq!(parse_vscode_title("  - Visual Studio Code"), None);
    assert_eq!(parse_vscode_title("main.rs - w - Visual Studio Code - Insiders"), None);
    assert_eq!(
        parse_vscode_title("\u{25CF}\u{25CF}  lib.rs - ws - Visual Studio Code  "),
        Some(("lib.rs".to_string(), Some("ws".to_string())))
    );
    assert_eq!(
        parse_vscode_title("a - b - c - Visual Studio Code"),
        Some(("a".to_string(), Some("b".to_string())))
    );
}

#[test]
fn editor_file_needs_an_editor() {
    assert_eq!(editor_file("", "notes - Visual Studio Code"), Some(("notes".to_string(), None)));
    assert_eq!(editor_file("", "notes - Terminal"), None);
}

#[test]
fn active_context_from_file() {
    let ctx = active_context(
        "main.rs - proj - Visual Studio Code".to_string(),
        "vscode".to_string(),
        Some("/home/u/proj/main.rs".to_string()),
        Some("fn main() {}\nstruct S;\n".to_string()),
        Some("ignored clipboard text that is long enough".to_string()),
    );
    assert!(ctx.is_ide);
    assert_eq!(ctx.file_name.as_deref(), Some("main.rs"));
    assert_eq!(ctx.file_path.as_deref(), Some("/home/u/proj/main.rs"));
    assert_eq!(ctx.language.as_deref(), Some("Rust"));
    assert_eq!(ctx.content.as_deref(), Some("fn main() {}\nstruct S;"));
    assert_eq!(syms(&ctx.symbols), vec![t("fn", "main", 1), t("struct", "S;", 2)]);
}

#[test]
fn active_context_falls_back_to_clipboard() {
    let ctx = active_context(
        "Terminal".to_string(),
        "".to_string(),
        None,
        None,
        Some("def run(self):\n    return self.value  # long enough".to_string()),
    );
    assert!(!ctx.is_ide);
    assert_eq!(ctx.file_name, None);
    assert_eq!(ctx.language.as_deref(), Some("Python"));
    assert_eq!(syms(&ctx.symbols), vec![t("def", "run", 1)]);
    // short clipboard text is ignored
    let short = active_context("Terminal".to_string(), "".to_string(), None, None, Some("abc".to_string()));
    assert_eq!(short.content, None);
    // exactly 30 bytes is still too short; 31 is enough
    let thirty = "x".repeat(30);
    let c30 = active_context("T".to_string(), "".to_string(), None, None, Some(thirty));
    assert_eq!(c30.content, None);
    let c31 = active_context("T".to_string(), "".to_string(), None, None, Some("x".repeat(31)));
    assert_eq!(c31.content.as_deref(), Some("x".repeat(31).as_str()));
    assert_eq!(c31.language, None);
}

#[test]
fn active_context_file_not_found() {
    let ctx = active_context(
        "app.py - ws - Visual Studio Code".to_string(),
        "".to_string(),
        None,
        None,
        None,
    );
    assert_eq!(ctx.file_name.as_deref(), Some("app.py"));
    assert_eq!(ctx.language.as_deref(), Some("Python"));
    assert_eq!(ctx.file_path, None);
    assert_eq!(ctx.content, None);
}

#[test]
fn clipboard_context_cases() {
    assert_eq!(
        clipboard_context(" \n ", "".to_string(), "".to_string(), None).unwrap_err(),
        "Clipboard is empty"
    );
    let ctx = clipboard_context("  fn main() {}  ", "".to_string(), "".to_string(), None).unwrap();
    assert_eq!(ctx.file_name.as_deref(), Some("selection"));
    assert_eq!(ctx.language.as_deref(), Some("Rust"));
    assert_eq!(ctx.content.as_deref(), Some("fn main() {}"));
    assert_eq!(ctx.window_title, "Clipboard");
    assert_eq!(ctx.active_app, "clipboard");
    assert!(ctx.is_ide);
    assert_eq!(syms(&ctx.symbols), vec![t("fn", "main", 1)]);

    let ctx = clipboard_context(
        "x = 1",
        "tool.py - ws - Visual Studio Code".to_string(),
        "vscode".to_string(),
        Some("/w/tool.py".to_string()),
    )
    .unwrap();
    assert_eq!(ctx.file_name.as_deref(), Some("tool.py"));
    assert_eq!(ctx.language.as_deref(), Some("Python"));
    assert_eq!(ctx.file_path.as_deref(), Some("/w/tool.py"));
    assert_eq!(ctx.window_title, "tool.py - ws - Visual Studio Code");
}

#[test]
fn skipped_directories() {
    for d in ["node_modules", ".git", "target", ".cargo", "__pycache__", ".venv", "dist", "build", ".next", "out"] {
        assert!(is_skipped_dir(d));
    }
    assert!(!is_skipped_dir("src"));
    assert!(!is_skipped_dir("Target"));
    assert!(search_exhausted(6, 5, 0));
    assert!(search_exhausted(0, 5, 10));
    assert!(!search_exhausted(5, 5, 9));
}

#[test]
fn choosing_the_shown_file() {
    let cands = vec!["/home/u/proj/src/main.rs".to_string(), "/home/u/Other/main.rs".to_string()];
    assert_eq!(choose_candidate(&cands, Some("OTHER"), &vec![Some(9), Some(1)]), Ok(1));
    assert_eq!(choose_candidate(&cands, None, &vec![Some(5), Some(9)]), Ok(1));
    assert_eq!(choose_candidate(&cands, Some("nowhere"), &vec![Some(9), Some(9)]), Ok(0));
    assert_eq!(choose_candidate(&cands, None, &vec![None, Some(-1)]), Ok(1));
    assert_eq!(
        choose_candidate(&vec![], None, &vec![]),
        Err("File not found on disk".to_string())
    );
    assert_eq!(latest_index(&vec![Some(3), None, Some(7), Some(7)]), 2);
}
