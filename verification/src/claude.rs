//! The requests the assistant sends to its language model, and what it makes
//! of the replies: prompts for explaining code, proposing an edit and updating
//! the wiki, the JSON text cut out of a reply, and how a proposal is completed.

use vstd::prelude::*;
use crate::code_context::{CodeContext, CodeContextView, opt_string_view, unwrap_or_empty};
use crate::text::{
    chars_of, concat, index_of, index_of2_exec, lowercase, string_from_chars, to_lowercase, trim,
    trim_bounds,
};

verus! {

broadcast use vstd::string::group_string_axioms;

/// A page the model proposes to create or update.
#[derive(Clone, Debug)]
pub struct WikiDiff {
    pub page: String,
    pub content: String,
}

/// Model for questions about code.
pub const CHAT_MODEL: &'static str = "llama-3.3-70b-versatile";

/// Model for wiki updates.
pub const WIKI_MODEL: &'static str = "llama-3.1-8b-instant";

/// Token budget of an explanation.
pub const EXPLAIN_MAX_TOKENS: u32 = 512;

/// Token budget of an edit proposal or a wiki update.
pub const LONG_MAX_TOKENS: u32 = 2048;

pub const EXPLAIN_INTRO: &'static str = "Answer concisely. For non-coding questions, ignore any code context and use at most 2 short sentences. For coding questions, use the selected code only if it is relevant, and prefer direct actionable guidance over reciting code.\n\nQuestion: ";

pub const PROPOSAL_HEAD: &'static str = "You are an agentic coding assistant. The user selected code and expects you to infer the most useful edit unless they gave a specific instruction.\n\nReturn ONLY valid JSON with this exact shape:\n{\n  \"summary\": \"short human-readable edit summary\",\n  \"confidence\": 0.0,\n  \"target_file\": \"absolute or null\",\n  \"old_text\": \"the exact selected text to replace\",\n  \"replacement\": \"the complete replacement text\",\n  \"needs_confirmation\": true,\n  \"risk_notes\": [\"short risk notes, or empty array\"]\n}\n\nRules:\n- Prefer making a concrete improvement over explaining.\n- If the instruction is blank, infer a conservative useful edit from the selected code.\n- Preserve the selected code's language and surrounding style.\n- old_text must be exactly the selected text provided below.\n- replacement must contain only the replacement for old_text, not markdown fences.\n- Set needs_confirmation true for behavior changes, file writes, broad refactors, or confidence under 0.75.\n- If no useful edit is obvious, return the same old_text as replacement and explain the uncertainty in risk_notes.\n\nActive file: ";

pub const WIKI_PROMPT_HEAD: &'static str = "Given this developer conversation and wiki index, output a JSON array of wiki pages to create or update. Only include pages directly relevant to what was discussed.\n\nWiki Index:\n";

pub const WIKI_PROMPT_MIDDLE: &'static str = "\n\nConversation:\n";

pub const WIKI_PROMPT_TAIL: &'static str = "\n\nOutput ONLY a JSON array like:\n[{\"page\": \"entities/rust-lifetimes\", \"content\": \"# Rust Lifetimes\\nOne-line summary.\\n\"}]\n\nIf nothing worth recording, output: []";

/// `o`, or `d` when `o` is absent.
pub open spec fn or_default(o: Option<Seq<char>>, d: Seq<char>) -> Seq<char> {
    match o {
        Some(s) => s,
        None => d,
    }
}

fn str_or<'a>(o: &'a Option<String>, d: &'a str) -> (r: &'a str)
    ensures
        r@ == or_default(opt_string_view(*o), d@),
{
    match o {
        Some(s) => s.as_str(),
        None => d,
    }
}

/// A request needs the Groq key.
pub open spec fn spec_require_key(key: Seq<char>) -> Option<Seq<char>> {
    if key.len() == 0 {
        Some("Groq API key not configured"@)
    } else {
        None
    }
}

/// Refuses a model request when the Groq key is empty.
pub fn require_groq_key(key: &str) -> (r: Result<(), String>)
    ensures
        match r {
            Ok(()) => spec_require_key(key@) is None,
            Err(e) => spec_require_key(key@) == Some(e@),
        },
{
    if key.unicode_len() == 0 {
        Err("Groq API key not configured".to_owned())
    } else {
        Ok(())
    }
}

// ───────────────────────────── explaining code ─────────────────────────────

/// The code shown to the model with a question: file, language and content,
/// when the context has content.
pub open spec fn spec_code_block(ctx: CodeContextView) -> Seq<char> {
    match ctx.content {
        Some(c) => "\n\nFile: "@ + or_default(ctx.file_name, "unknown"@) + " ("@ + or_default(
            ctx.language,
            "text"@,
        ) + ")\n```"@ + lowercase(unwrap_or_empty(ctx.language)) + "\n"@ + c + "\n```"@,
        None => seq![],
    }
}

/// The prompt for a question about the code in `ctx`.
pub open spec fn spec_explain_prompt(ctx: CodeContextView, question: Seq<char>) -> Seq<char> {
    EXPLAIN_INTRO@ + question + spec_code_block(ctx)
}

fn lowercase_language(language: &Option<String>) -> (r: String)
    ensures
        r@ == lowercase(unwrap_or_empty(opt_string_view(*language))),
{
    proof {
        reveal_strlit("");
        assert(""@ =~= Seq::<char>::empty());
    }
    let l = str_or(language, "");
    assert(l@ == unwrap_or_empty(opt_string_view(*language)));
    to_lowercase(l)
}

/// The prompt for a question about the code in `ctx`.
pub fn explain_prompt(ctx: &CodeContext, question: &str) -> (r: String)
    ensures
        r@ == spec_explain_prompt(ctx@, question@),
{
    let mut p = concat(EXPLAIN_INTRO, question);
    match &ctx.content {
        Some(c) => {
            let lang_lower = lowercase_language(&ctx.language);
            p.append("\n\nFile: ");
            p.append(str_or(&ctx.file_name, "unknown"));
            p.append(" (");
            p.append(str_or(&ctx.language, "text"));
            p.append(")\n```");
            p.append(lang_lower.as_str());
            p.append("\n");
            p.append(c.as_str());
            p.append("\n```");
        },
        None => {},
    }
    p
}

// ───────────────────────────── proposing an edit ─────────────────────────────

/// The instruction as the prompt states it.
pub open spec fn instruction_label(instruction: Seq<char>) -> Seq<char> {
    if trim(instruction).len() == 0 {
        "(infer the best edit)"@
    } else {
        trim(instruction)
    }
}

/// The file an edit proposal names: the context's path, else its file name.
pub open spec fn proposal_file(ctx: CodeContextView) -> Seq<char> {
    match ctx.file_path {
        Some(p) => p,
        None => or_default(ctx.file_name, "unknown"@),
    }
}

/// The selected code and the prompt for an edit of it; refused when the
/// context holds no code (only whitespace).
pub open spec fn spec_proposal_prompt(ctx: CodeContextView, instruction: Seq<char>) -> Result<
    (Seq<char>, Seq<char>),
    Seq<char>,
> {
    let selected = trim(unwrap_or_empty(ctx.content));
    if selected.len() == 0 {
        Err("No selected code or active context found"@)
    } else {
        Ok(
            (
                selected,
                PROPOSAL_HEAD@ + proposal_file(ctx) + "\nLanguage: "@ + or_default(
                    ctx.language,
                    "text"@,
                ) + "\nInstruction: "@ + instruction_label(instruction) + "\n\nSelected code:\n```"@
                    + lowercase(unwrap_or_empty(ctx.language)) + "\n"@ + selected + "\n```"@,
            ),
        )
    }
}

pub open spec fn pair_result_view(r: Result<(String, String), String>) -> Result<
    (Seq<char>, Seq<char>),
    Seq<char>,
> {
    match r {
        Ok((a, b)) => Ok((a@, b@)),
        Err(e) => Err(e@),
    }
}

fn trimmed(s: &str) -> (r: String)
    ensures
        r@ == trim(s@),
{
    let v = chars_of(s);
    let (a, b) = trim_bounds(v.as_slice());
    string_from_chars(&v[a..b])
}

/// The selected code and the prompt for an edit of it (see
/// `spec_proposal_prompt`).
pub fn proposal_prompt(ctx: &CodeContext, instruction: &str) -> (r: Result<(String, String), String>)
    ensures
        pair_result_view(r) == spec_proposal_prompt(ctx@, instruction@),
{
    proof {
        reveal_strlit("");
    }
    let selected = trimmed(str_or(&ctx.content, ""));
    if selected.as_str().unicode_len() == 0 {
        return Err("No selected code or active context found".to_owned());
    }
    let instr = trimmed(instruction);
    let label: &str = if instr.as_str().unicode_len() == 0 {
        "(infer the best edit)"
    } else {
        instr.as_str()
    };
    let file: &str = match &ctx.file_path {
        Some(p) => p.as_str(),
        None => str_or(&ctx.file_name, "unknown"),
    };
    let lang_lower = lowercase_language(&ctx.language);
    let mut p = concat(PROPOSAL_HEAD, file);
    p.append("\nLanguage: ");
    p.append(str_or(&ctx.language, "text"));
    p.append("\nInstruction: ");
    p.append(label);
    p.append("\n\nSelected code:\n```");
    p.append(lang_lower.as_str());
    p.append("\n");
    p.append(selected.as_str());
    p.append("\n```");
    Ok((selected, p))
}

/// The summary a proposal keeps: a blank one is replaced.
pub open spec fn spec_proposal_summary(summary: Seq<char>) -> Seq<char> {
    if trim(summary).len() == 0 {
        "Suggested code change"@
    } else {
        summary
    }
}

/// The summary a proposal keeps: a blank one is replaced.
pub fn proposal_summary(summary: String) -> (r: String)
    ensures
        r@ == spec_proposal_summary(summary@),
{
    let v = chars_of(summary.as_str());
    let (a, b) = trim_bounds(v.as_slice());
    if a == b {
        "Suggested code change".to_owned()
    } else {
        summary
    }
}

/// The file a proposal edits: the one the model named, else the context's.
pub fn proposal_target(proposed: Option<String>, context_path: Option<String>) -> (r: Option<String>)
    ensures
        r == (match proposed {
            Some(p) => Some(p),
            None => context_path,
        }),
{
    match proposed {
        Some(p) => Some(p),
        None => context_path,
    }
}

// ───────────────────────────── the wiki ─────────────────────────────

/// The prompt that asks which wiki pages a conversation turn should update.
pub open spec fn spec_wiki_update_prompt(turn: Seq<char>, wiki_index: Seq<char>) -> Seq<char> {
    WIKI_PROMPT_HEAD@ + wiki_index + WIKI_PROMPT_MIDDLE@ + turn + WIKI_PROMPT_TAIL@
}

/// The prompt that asks which wiki pages a conversation turn should update.
pub fn wiki_update_prompt(turn: &str, wiki_index: &str) -> (r: String)
    ensures
        r@ == spec_wiki_update_prompt(turn@, wiki_index@),
{
    let mut p = concat(WIKI_PROMPT_HEAD, wiki_index);
    p.append(WIKI_PROMPT_MIDDLE);
    p.append(turn);
    p.append(WIKI_PROMPT_TAIL);
    p
}

/// Whether a conversation turn is sent for a wiki update: only with a Groq key.
pub fn wiki_update_enabled(key: &str) -> (r: bool)
    ensures
        r == (key@.len() > 0),
{
    key.unicode_len() > 0
}

// ───────────────────────────── replies ─────────────────────────────

/// Index of the last `c` in `s` before index `i` (`-1` when there is none).
pub open spec fn rindex_before(s: Seq<char>, c: char, i: int) -> int
    decreases i,
{
    if i <= 0 || i > s.len() {
        -1
    } else if s[i - 1] == c {
        i - 1
    } else {
        rindex_before(s, c, i - 1)
    }
}

/// The piece of a reply from its first `open` to its last `close` (inclusive);
/// from the start when there is no `open`, to the end when there is no
/// `close`. None when the last `close` comes before the first `open`.
pub open spec fn spec_json_span(text: Seq<char>, open: char, close: char) -> Option<Seq<char>> {
    let i = index_of(text, open);
    let start = if i < text.len() {
        i
    } else {
        0
    };
    let j = rindex_before(text, close, text.len() as int);
    let end = if j >= 0 {
        j + 1
    } else {
        text.len() as int
    };
    if start <= end {
        Some(text.subrange(start, end))
    } else {
        None
    }
}

pub proof fn lemma_rindex_before(s: Seq<char>, c: char, i: int)
    requires
        0 <= i <= s.len(),
    ensures
        -1 <= rindex_before(s, c, i) < i,
        rindex_before(s, c, i) >= 0 ==> s[rindex_before(s, c, i)] == c,
    decreases i,
{
    if i > 0 && s[i - 1] != c {
        lemma_rindex_before(s, c, i - 1);
    }
}

/// The JSON text of a reply (see `spec_json_span`).
pub fn json_span(text: &str, open: char, close: char) -> (r: Option<String>)
    ensures
        opt_string_view(r) == spec_json_span(text@, open, close),
{
    let v = chars_of(text);
    let n = v.len();
    let i = index_of2_exec(v.as_slice(), open, open, 0);
    let start = if i < n {
        i
    } else {
        0
    };
    let mut j = n;
    while j > 0 && v[j - 1] != close
        invariant
            j <= n == v@.len(),
            rindex_before(v@, close, n as int) == rindex_before(v@, close, j as int),
        decreases j,
    {
        j = j - 1;
    }
    let end = if j > 0 {
        j
    } else {
        n
    };
    if start <= end {
        Some(string_from_chars(&v[start..end]))
    } else {
        None
    }
}

pub open spec fn string_result_view(r: Result<String, String>) -> Result<Seq<char>, Seq<char>> {
    match r {
        Ok(s) => Ok(s@),
        Err(e) => Err(e@),
    }
}

/// What a chat request yields: on an error status, an error naming the status
/// and the API's message; else the reply's text (empty when it has none).
pub open spec fn spec_groq_reply(
    success: bool,
    status: Seq<char>,
    error_message: Option<Seq<char>>,
    content: Option<Seq<char>>,
) -> Result<Seq<char>, Seq<char>> {
    if !success {
        Err("Groq API "@ + status + ": "@ + or_default(error_message, "unknown"@))
    } else {
        Ok(or_default(content, seq![]))
    }
}

/// What a chat request yields (see `spec_groq_reply`).
pub fn groq_reply(
    success: bool,
    status: &str,
    error_message: Option<String>,
    content: Option<String>,
) -> (r: Result<String, String>)
    ensures
        string_result_view(r) == spec_groq_reply(
            success,
            status@,
            opt_string_view(error_message),
            opt_string_view(content),
        ),
{
    if !success {
        let mut e = concat("Groq API ", status);
        e.append(": ");
        e.append(str_or(&error_message, "unknown"));
        Err(e)
    } else {
        match content {
            Some(c) => Ok(c),
            None => Ok(String::new()),
        }
    }
}

/// Model that describes screenshots.
pub const VISION_MODEL: &'static str = "meta-llama/llama-4-scout-17b-16e-instruct";

/// Token budget of a screenshot description.
pub const VISION_MAX_TOKENS: u32 = 120;

/// What the screenshot model is asked.
pub const VISION_PROMPT: &'static str = "One sentence: what code/error is on this screen? Be specific \u{2014} file name, language, error message if visible.";

/// What a screenshot request yields: on an error status, an error naming the
/// status and the API's message; else the reply's text, which must be present.
pub open spec fn spec_vision_reply(
    success: bool,
    status: Seq<char>,
    error_message: Option<Seq<char>>,
    content: Option<Seq<char>>,
) -> Result<Seq<char>, Seq<char>> {
    if !success {
        Err("Groq API error "@ + status + ": "@ + or_default(error_message, "unknown"@))
    } else {
        match content {
            Some(c) => Ok(c),
            None => Err("No content in response"@),
        }
    }
}

/// What a screenshot request yields (see `spec_vision_reply`).
pub fn vision_reply(
    success: bool,
    status: &str,
    error_message: Option<String>,
    content: Option<String>,
) -> (r: Result<String, String>)
    ensures
        string_result_view(r) == spec_vision_reply(
            success,
            status@,
            opt_string_view(error_message),
            opt_string_view(content),
        ),
{
    if !success {
        let mut e = concat("Groq API error ", status);
        e.append(": ");
        e.append(str_or(&error_message, "unknown"));
        Err(e)
    } else {
        match content {
            Some(c) => Ok(c),
            None => Err("No content in response".to_owned()),
        }
    }
}

/// The data URL under which a base64 screenshot is sent.
pub fn image_data_url(base64_image: &str) -> (r: String)
    ensures
        r@ == "data:image/png;base64,"@ + base64_image@,
{
    concat("data:image/png;base64,", base64_image)
}

} // verus!
