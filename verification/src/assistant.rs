//! The assistant's own decisions: which services are configured, when a
//! screen is analysed again, how the window is sized and when it follows the
//! cursor.

use vstd::prelude::*;
use crate::code_context::{CodeContext, CodeContextView, opt_string_view, symbols_view, SymbolView, unwrap_or_empty};
use crate::screenshot::{ScreenHash, differing_bits, hamming, screens_differ, DIFF_THRESHOLD};
use crate::text::{chars_of, concat, starts_with_lit, join};
use crate::web_search::placeholder_key;

verus! {

broadcast use vstd::string::group_string_axioms;

/// Which keys the front end may use.
#[derive(Clone, Debug)]
pub struct EnvKeys {
    pub vapi_public_key: String,
    pub vapi_assistant_id: String,
    pub has_claude: bool,
    pub has_search: bool,
    pub has_groq: bool,
}

/// What a screen analysis yields: the analysis and related memories.
#[derive(Clone, Debug)]
pub struct AnalysisResult {
    pub analysis: String,
    pub memories: Vec<String>,
}

/// Whether a key is set to a real value (not empty, not the `your_…` placeholder).
pub fn key_configured(key: &str) -> (r: bool)
    ensures
        r == !placeholder_key(key@),
{
    let v = chars_of(key);
    !(v.len() == 0 || starts_with_lit(v.as_slice(), "your_"))
}

/// The keys reported to the front end.
pub fn env_keys(
    vapi_public_key: String,
    vapi_assistant_id: String,
    groq_api_key: &str,
    tavily_api_key: &str,
) -> (r: EnvKeys)
    ensures
        r.vapi_public_key == vapi_public_key,
        r.vapi_assistant_id == vapi_assistant_id,
        r.has_claude == !placeholder_key(groq_api_key@),
        r.has_groq == !placeholder_key(groq_api_key@),
        r.has_search == !placeholder_key(tavily_api_key@),
{
    let has_groq = key_configured(groq_api_key);
    EnvKeys {
        vapi_public_key,
        vapi_assistant_id,
        has_claude: has_groq,
        has_search: key_configured(tavily_api_key),
        has_groq,
    }
}

/// Seconds after which a cached screen analysis is redone anyway.
pub const ANALYSIS_TTL_SECS: u64 = 2;

/// Whether a screen is analysed again: no earlier hash, a screen that differs
/// from the last analysed one, or a cached analysis that has expired.
pub open spec fn spec_analysis_stale(last: Option<ScreenHash>, hash: ScreenHash, elapsed_secs: u64) -> bool {
    let hash_changed = match last {
        None => true,
        Some(h) => hamming(h@, hash@) > DIFF_THRESHOLD,
    };
    hash_changed || elapsed_secs >= ANALYSIS_TTL_SECS
}

/// Whether a screen is analysed again (see `spec_analysis_stale`).
pub fn analysis_stale(last: Option<ScreenHash>, hash: &ScreenHash, elapsed_secs: u64) -> (r: bool)
    ensures
        r == spec_analysis_stale(last, *hash, elapsed_secs),
{
    let hash_changed = match last {
        None => true,
        Some(h) => screens_differ(&h, hash),
    };
    hash_changed || elapsed_secs >= ANALYSIS_TTL_SECS
}

/// A screen whose hash differs from the last analysed one in more than
/// `DIFF_THRESHOLD` of its 256 bits is analysed again however recent the
/// cache; one that differs in at most that many bits is analysed again only
/// once the cache has expired.
pub proof fn law_changed_screen_is_analysed_again(last: ScreenHash, hash: ScreenHash, elapsed_secs: u64)
    ensures
        hamming(last@, hash@) > DIFF_THRESHOLD ==> spec_analysis_stale(Some(last), hash, elapsed_secs),
        differing_bits(last@, hash@, 256) > DIFF_THRESHOLD ==> spec_analysis_stale(
            Some(last),
            hash,
            elapsed_secs,
        ),
        hamming(last@, hash@) <= DIFF_THRESHOLD ==> (spec_analysis_stale(
            Some(last),
            hash,
            elapsed_secs,
        ) <==> elapsed_secs >= ANALYSIS_TTL_SECS),
{
    crate::screenshot::law_hamming_counts_differing_bits(last, hash);
}

/// An unchanged screen keeps its cached analysis until the cache expires; a
/// screen never analysed before is always analysed.
pub proof fn law_unchanged_screen_reuses_analysis(hash: ScreenHash, elapsed_secs: u64)
    ensures
        spec_analysis_stale(Some(hash), hash, elapsed_secs) <==> elapsed_secs >= ANALYSIS_TTL_SECS,
        spec_analysis_stale(None, hash, elapsed_secs),
{
    crate::screenshot::law_screen_same_as_itself(hash);
}

/// What to do with a fresh capture.
#[derive(Clone, Debug)]
pub enum ScreenAction {
    /// Show the cached analysis again.
    Reuse(String),
    /// Ask the vision service to describe the screen.
    AskVision,
    /// Show this analysis without asking (no key for the vision service).
    Report(String),
}

/// The screen cache after a capture with hash `hash`: the hash is recorded
/// when the screen is analysed again, else the cache is kept.
pub open spec fn spec_next_hash(last: Option<ScreenHash>, hash: ScreenHash, elapsed_secs: u64) -> Option<
    ScreenHash,
> {
    if spec_analysis_stale(last, hash, elapsed_secs) {
        Some(hash)
    } else {
        last
    }
}

/// One step of the screen cache, from the last analysed hash, the cached
/// analysis and the seconds since it was made, for a capture with hash `hash`:
/// the hash to remember and what to do. A stale cache is analysed again, by
/// the vision service when its key is configured, else with the fixed
/// `NO_GROQ_ANALYSIS`; otherwise the cached analysis is shown again.
pub fn screen_step(
    last: Option<ScreenHash>,
    cached: &str,
    elapsed_secs: u64,
    hash: ScreenHash,
    has_vision_key: bool,
) -> (r: (Option<ScreenHash>, ScreenAction))
    ensures
        r.0 == spec_next_hash(last, hash, elapsed_secs),
        !spec_analysis_stale(last, hash, elapsed_secs) ==> (r.1 matches ScreenAction::Reuse(a)
            && a@ == cached@),
        spec_analysis_stale(last, hash, elapsed_secs) && has_vision_key ==> r.1 is AskVision,
        spec_analysis_stale(last, hash, elapsed_secs) && !has_vision_key ==> (
        r.1 matches ScreenAction::Report(a) && a@ == NO_GROQ_ANALYSIS@),
{
    if analysis_stale(last, &hash, elapsed_secs) {
        if has_vision_key {
            (Some(hash), ScreenAction::AskVision)
        } else {
            (Some(hash), ScreenAction::Report(NO_GROQ_ANALYSIS.to_owned()))
        }
    } else {
        (last, ScreenAction::Reuse(cached.to_owned()))
    }
}

/// The analysis that a vision request gives: its reply, or the error reported
/// as `"Vision unavailable: …"`.
pub fn analysis_from_reply(reply: Result<String, String>) -> (r: String)
    ensures
        match reply {
            Ok(a) => r == a,
            Err(e) => r@ == "Vision unavailable: "@ + e@,
        },
{
    match reply {
        Ok(a) => a,
        Err(e) => vision_unavailable(e.as_str()),
    }
}

/// The analysis reported when the vision request failed.
pub fn vision_unavailable(error: &str) -> (r: String)
    ensures
        r@ == "Vision unavailable: "@ + error@,
{
    concat("Vision unavailable: ", error)
}

/// The analysis reported without a Groq key.
pub const NO_GROQ_ANALYSIS: &'static str = "No Groq API key configured.";

/// The window's modes.
#[derive(Clone, Copy, Debug, PartialEq, Eq, Structural)]
pub enum WindowMode {
    Expanded,
    Calling,
    Orb,
}

/// The mode a mode name selects: `"expanded"`, `"calling"`, anything else the orb.
pub fn window_mode(mode: &str) -> (r: WindowMode)
    ensures
        mode@ == "expanded"@ ==> r is Expanded,
        mode@ == "calling"@ ==> r is Calling,
        mode@ != "expanded"@ && mode@ != "calling"@ ==> r is Orb,
{
    proof {
        reveal_strlit("expanded");
        reveal_strlit("calling");
        assert("expanded"@[0] != "calling"@[0]);
    }
    let v = chars_of(mode);
    if crate::text::eq_lit(v.as_slice(), "expanded") {
        WindowMode::Expanded
    } else if crate::text::eq_lit(v.as_slice(), "calling") {
        WindowMode::Calling
    } else {
        WindowMode::Orb
    }
}

/// Smallest and largest height of the expanded panel, in logical pixels.
pub const PANEL_MIN_HEIGHT: u32 = 168;

pub const PANEL_MAX_HEIGHT: u32 = 460;

/// The panel height for content of the given height: clamped to the panel's range.
pub fn panel_height(height: u32) -> (r: u32)
    ensures
        PANEL_MIN_HEIGHT <= r <= PANEL_MAX_HEIGHT,
        PANEL_MIN_HEIGHT <= height <= PANEL_MAX_HEIGHT ==> r == height,
        height < PANEL_MIN_HEIGHT ==> r == PANEL_MIN_HEIGHT,
        height > PANEL_MAX_HEIGHT ==> r == PANEL_MAX_HEIGHT,
{
    if height < PANEL_MIN_HEIGHT {
        PANEL_MIN_HEIGHT
    } else if height > PANEL_MAX_HEIGHT {
        PANEL_MAX_HEIGHT
    } else {
        height
    }
}

/// Pixels the cursor must move along an axis before the orb follows it.
pub const FOLLOW_THRESHOLD: i32 = 4;

/// Whether the cursor moved far enough from where the orb last followed it.
pub fn cursor_moved(x: i32, y: i32, last_x: i32, last_y: i32) -> (r: bool)
    requires
        i32::MIN < x - last_x <= i32::MAX,
        i32::MIN < y - last_y <= i32::MAX,
    ensures
        r == ((x - last_x > 4 || last_x - x > 4) || (y - last_y > 4 || last_y - y > 4)),
{
    let dx = x - last_x;
    let dy = y - last_y;
    let ax = if dx < 0 {
        -dx
    } else {
        dx
    };
    let ay = if dy < 0 {
        -dy
    } else {
        dy
    };
    ax > FOLLOW_THRESHOLD || ay > FOLLOW_THRESHOLD
}

/// How long to wait before each attempt to read a fresh selection from the
/// clipboard, in milliseconds; after the sixth attempt the capture gives up.
pub open spec fn spec_retry_delay_ms(attempt: nat) -> Option<u64> {
    if attempt == 0 {
        Some(80)
    } else if attempt == 1 {
        Some(140)
    } else if attempt == 2 {
        Some(220)
    } else if attempt == 3 {
        Some(320)
    } else if attempt == 4 {
        Some(480)
    } else if attempt == 5 {
        Some(650)
    } else {
        None
    }
}

/// The wait before attempt `attempt` (counted from 0) to read the selection,
/// or `None` once every attempt has been made (see `spec_retry_delay_ms`).
pub fn retry_delay_ms(attempt: usize) -> (r: Option<u64>)
    ensures
        r == spec_retry_delay_ms(attempt as nat),
{
    if attempt == 0 {
        Some(80)
    } else if attempt == 1 {
        Some(140)
    } else if attempt == 2 {
        Some(220)
    } else if attempt == 3 {
        Some(320)
    } else if attempt == 4 {
        Some(480)
    } else if attempt == 5 {
        Some(650)
    } else {
        None
    }
}

/// The hint added to a failed selection capture on macOS.
pub const MAC_SELECTION_HINT: &'static str = "Select text in your editor, then press Cmd+Shift+T. If it keeps failing, grant Accessibility in System Settings \u{2192} Privacy.";

/// The hint added to a failed selection capture elsewhere.
pub const SELECTION_HINT: &'static str = "Select text in the editor, then press Ctrl+Shift+T without focusing Cluddy first.";

/// The error reported when no selection could be read: the last error and a hint.
pub fn selection_error(last_error: &str, hint: &str) -> (r: String)
    ensures
        r@ == last_error@ + ". "@ + hint@,
{
    let mut r = concat(last_error, ". ");
    r.append(hint);
    r
}

/// What is remembered of a code context: the file name and the symbol names.
pub open spec fn spec_context_summary(ctx: CodeContextView) -> Seq<char> {
    unwrap_or_empty(ctx.file_name) + " "@ + join(
        ctx.symbols.map_values(|s: SymbolView| s.name),
        " "@,
    )
}

/// What is remembered of a code context (see `spec_context_summary`).
pub fn context_summary(ctx: &CodeContext) -> (r: String)
    ensures
        r@ == spec_context_summary(ctx@),
{
    proof {
        reveal_strlit("");
    }
    let mut r = match &ctx.file_name {
        Some(f) => f.clone(),
        None => String::new(),
    };
    r.append(" ");
    let ghost head = r@;
    let ghost names = symbols_view(ctx.symbols@).map_values(|s: SymbolView| s.name);
    let mut i: usize = 0;
    assert(names.take(0) =~= Seq::<Seq<char>>::empty());
    assert(head + join(names.take(0), " "@) =~= head);
    while i < ctx.symbols.len()
        invariant
            i <= ctx.symbols@.len(),
            names == symbols_view(ctx.symbols@).map_values(|s: SymbolView| s.name),
            names.len() == ctx.symbols@.len(),
            r@ == head + join(names.take(i as int), " "@),
        decreases ctx.symbols.len() - i,
    {
        if i > 0 {
            r.append(" ");
        }
        r.append(ctx.symbols[i].name.as_str());
        proof {
            let t = names.take(i + 1);
            assert(t.drop_last() =~= names.take(i as int));
            assert(t.last() == ctx.symbols@[i as int].name@);
            if i == 0 {
                assert(t =~= seq![ctx.symbols@[0].name@]);
            }
        }
        i = i + 1;
    }
    assert(names.take(names.len() as int) =~= names);
    r
}

} // verus!
