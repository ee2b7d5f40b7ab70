//! Page interaction: validation of an ordered batch of DOM actions, the self-contained
//! scripts that carry each one out, and the bookkeeping of their results.
use vstd::prelude::*;
use crate::protocol::{
    InteractionAction, InteractionActionKind, InteractionStepCode, InteractionStepResult,
    MAX_INTERACTION_ACTIONS, MAX_INTERACTION_KEY_CHARS, MAX_INTERACTION_SELECTOR_CHARS,
    MAX_INTERACTION_TEXT_CHARS, MAX_INTERACTION_TIMEOUT_MS, MAX_INTERACTION_VALUE_CHARS,
    MAX_LOAD_ERROR_CHARS, MIN_INTERACTION_TIMEOUT_MS,
};
use crate::auth_domain::opt_view;
use crate::text::{all_ws, all_whitespace, chars_of, string_from_chars, take_chars};
use crate::window_core::clip;
use crate::protocol::{ConsoleResult, InteractionPostError, ScreenshotResult, MAX_FRAME_BYTES};
use crate::registry::{entry_views, history_view, ActiveWindow, WindowView};
use crate::auth_domain::string_views;

verus! {

/// The outcome of an interaction batch.
#[derive(Debug)]
pub struct InteractionExecution {
    pub completed: bool,
    pub actions: Vec<InteractionStepResult>,
}

/// What a page script reports for one action.
#[derive(Clone, Debug, PartialEq, Eq)]
pub struct ScriptResult {
    pub ok: bool,
    pub code: InteractionStepCode,
    pub message: Option<String>,
}

/// The first failing check of a selector: blank, or longer than its bound.
pub open spec fn selector_error(s: Seq<char>) -> Option<Seq<char>> {
    if all_ws(s) {
        Some("interaction selector must not be blank"@)
    } else if s.len() > MAX_INTERACTION_SELECTOR_CHARS {
        Some("interaction selector must be at most 512 characters"@)
    } else {
        None
    }
}

/// Validates a selector.
pub fn validate_selector(selector: &str) -> (r: Result<(), String>)
    ensures
        match r {
            Ok(()) => selector_error(selector@) is None,
            Err(m) => selector_error(selector@) == Some(m@),
        },
{
    let v = chars_of(selector);
    if all_whitespace(&v) {
        return Err(String::from_str("interaction selector must not be blank"));
    }
    if v.len() > MAX_INTERACTION_SELECTOR_CHARS {
        return Err(String::from_str("interaction selector must be at most 512 characters"));
    }
    Ok(())
}

/// The first failing check of an optional selector.
pub open spec fn opt_selector_error(s: Option<Seq<char>>) -> Option<Seq<char>> {
    match s {
        Some(s) => selector_error(s),
        None => None,
    }
}

/// The first failing check of one action.
pub open spec fn action_error(a: InteractionAction) -> Option<Seq<char>> {
    match a {
        InteractionAction::Click { selector } => selector_error(selector@),
        InteractionAction::WaitForSelector { selector } => selector_error(selector@),
        InteractionAction::CheckSelector { selector } => selector_error(selector@),
        InteractionAction::Fill { selector, value } => if selector_error(selector@) is Some {
            selector_error(selector@)
        } else if value@.len() > MAX_INTERACTION_VALUE_CHARS {
            Some("interaction fill value must be at most 4096 characters"@)
        } else {
            None
        },
        InteractionAction::PressKey { key, selector } => if all_ws(key@) {
            Some("interaction key must not be blank"@)
        } else if key@.len() > MAX_INTERACTION_KEY_CHARS {
            Some("interaction key must be at most 64 characters"@)
        } else {
            opt_selector_error(opt_view(selector))
        },
        InteractionAction::WaitForText { text, selector } => text_error(text@, opt_view(selector)),
        InteractionAction::CheckText { text, selector } => text_error(text@, opt_view(selector)),
    }
}

/// The first failing check of a text condition.
pub open spec fn text_error(text: Seq<char>, selector: Option<Seq<char>>) -> Option<Seq<char>> {
    if text.len() == 0 {
        Some("interaction text must not be empty"@)
    } else if text.len() > MAX_INTERACTION_TEXT_CHARS {
        Some("interaction text must be at most 1024 characters"@)
    } else {
        opt_selector_error(selector)
    }
}

fn validate_opt_selector(selector: &Option<String>) -> (r: Result<(), String>)
    ensures
        match r {
            Ok(()) => opt_selector_error(opt_view(*selector)) is None,
            Err(m) => opt_selector_error(opt_view(*selector)) == Some(m@),
        },
{
    match selector {
        Some(s) => validate_selector(s.as_str()),
        None => Ok(()),
    }
}

fn validate_text(text: &String, selector: &Option<String>) -> (r: Result<(), String>)
    ensures
        match r {
            Ok(()) => text_error(text@, opt_view(*selector)) is None,
            Err(m) => text_error(text@, opt_view(*selector)) == Some(m@),
        },
{
    let n = text.as_str().unicode_len();
    if n == 0 {
        return Err(String::from_str("interaction text must not be empty"));
    }
    if n > MAX_INTERACTION_TEXT_CHARS {
        return Err(String::from_str("interaction text must be at most 1024 characters"));
    }
    validate_opt_selector(selector)
}

/// Validates one action.
pub fn validate_action(action: &InteractionAction) -> (r: Result<(), String>)
    ensures
        match r {
            Ok(()) => action_error(*action) is None,
            Err(m) => action_error(*action) == Some(m@),
        },
{
    match action {
        InteractionAction::Click { selector } => validate_selector(selector.as_str()),
        InteractionAction::WaitForSelector { selector } => validate_selector(selector.as_str()),
        InteractionAction::CheckSelector { selector } => validate_selector(selector.as_str()),
        InteractionAction::Fill { selector, value } => {
            match validate_selector(selector.as_str()) {
                Ok(()) => {},
                Err(m) => return Err(m),
            }
            if value.as_str().unicode_len() > MAX_INTERACTION_VALUE_CHARS {
                return Err(String::from_str("interaction fill value must be at most 4096 characters"));
            }
            Ok(())
        },
        InteractionAction::PressKey { key, selector } => {
            let kv = chars_of(key.as_str());
            if all_whitespace(&kv) {
                return Err(String::from_str("interaction key must not be blank"));
            }
            if kv.len() > MAX_INTERACTION_KEY_CHARS {
                return Err(String::from_str("interaction key must be at most 64 characters"));
            }
            validate_opt_selector(selector)
        },
        InteractionAction::WaitForText { text, selector } => validate_text(text, selector),
        InteractionAction::CheckText { text, selector } => validate_text(text, selector),
    }
}

/// The first failing check of a batch: its size, its timeout, then each action in order.
pub open spec fn request_error(actions: Seq<InteractionAction>, timeout_ms: u64) -> Option<Seq<char>> {
    if actions.len() == 0 {
        Some("interaction requires at least one action"@)
    } else if actions.len() > MAX_INTERACTION_ACTIONS {
        Some("interaction supports at most 32 ordered actions"@)
    } else if !(MIN_INTERACTION_TIMEOUT_MS <= timeout_ms <= MAX_INTERACTION_TIMEOUT_MS) {
        Some("interaction timeout must be between 100 and 60000 ms"@)
    } else {
        first_action_error(actions)
    }
}

/// The error of the first invalid action.
pub open spec fn first_action_error(actions: Seq<InteractionAction>) -> Option<Seq<char>>
    decreases actions.len(),
{
    if actions.len() == 0 {
        None
    } else if action_error(actions[0]) is Some {
        action_error(actions[0])
    } else {
        first_action_error(actions.drop_first())
    }
}

/// Validates an interaction batch.
pub fn validate_request(actions: &[InteractionAction], timeout_ms: u64) -> (r: Result<(), String>)
    ensures
        match r {
            Ok(()) => request_error(actions@, timeout_ms) is None,
            Err(m) => request_error(actions@, timeout_ms) == Some(m@),
        },
{
    if actions.len() == 0 {
        return Err(String::from_str("interaction requires at least one action"));
    }
    if actions.len() > MAX_INTERACTION_ACTIONS {
        return Err(String::from_str("interaction supports at most 32 ordered actions"));
    }
    if !(MIN_INTERACTION_TIMEOUT_MS <= timeout_ms && timeout_ms <= MAX_INTERACTION_TIMEOUT_MS) {
        return Err(String::from_str("interaction timeout must be between 100 and 60000 ms"));
    }
    let mut i: usize = 0;
    assert(actions@.skip(0) =~= actions@);
    while i < actions.len()
        invariant
            i <= actions@.len(),
            request_error(actions@, timeout_ms) == first_action_error(actions@),
            first_action_error(actions@) == first_action_error(actions@.skip(i as int)),
        decreases actions@.len() - i,
    {
        assert(actions@.skip(i as int)[0] == actions@[i as int]);
        assert(actions@.skip(i as int).drop_first() =~= actions@.skip(i + 1));
        match validate_action(&actions[i]) {
            Ok(()) => {},
            Err(m) => return Err(m),
        }
        i += 1;
    }
    Ok(())
}

/// The kind of an action.
pub open spec fn kind_of(a: InteractionAction) -> InteractionActionKind {
    match a {
        InteractionAction::Click { .. } => InteractionActionKind::Click,
        InteractionAction::Fill { .. } => InteractionActionKind::Fill,
        InteractionAction::PressKey { .. } => InteractionActionKind::PressKey,
        InteractionAction::WaitForSelector { .. } => InteractionActionKind::WaitForSelector,
        InteractionAction::WaitForText { .. } => InteractionActionKind::WaitForText,
        InteractionAction::CheckSelector { .. } => InteractionActionKind::CheckSelector,
        InteractionAction::CheckText { .. } => InteractionActionKind::CheckText,
    }
}

/// The kind of an action.
pub fn action_kind(action: &InteractionAction) -> (k: InteractionActionKind)
    ensures
        k == kind_of(*action),
{
    match action {
        InteractionAction::Click { .. } => InteractionActionKind::Click,
        InteractionAction::Fill { .. } => InteractionActionKind::Fill,
        InteractionAction::PressKey { .. } => InteractionActionKind::PressKey,
        InteractionAction::WaitForSelector { .. } => InteractionActionKind::WaitForSelector,
        InteractionAction::WaitForText { .. } => InteractionActionKind::WaitForText,
        InteractionAction::CheckSelector { .. } => InteractionActionKind::CheckSelector,
        InteractionAction::CheckText { .. } => InteractionActionKind::CheckText,
    }
}

/// The selector an action targets, if it names one.
pub open spec fn selector_of(a: InteractionAction) -> Option<Seq<char>> {
    match a {
        InteractionAction::Click { selector } => Some(selector@),
        InteractionAction::Fill { selector, .. } => Some(selector@),
        InteractionAction::WaitForSelector { selector } => Some(selector@),
        InteractionAction::CheckSelector { selector } => Some(selector@),
        InteractionAction::PressKey { selector, .. } => opt_view(selector),
        InteractionAction::WaitForText { selector, .. } => opt_view(selector),
        InteractionAction::CheckText { selector, .. } => opt_view(selector),
    }
}

/// The selector an action targets, if it names one.
pub fn action_selector(action: &InteractionAction) -> (s: Option<String>)
    ensures
        opt_view(s) == selector_of(*action),
{
    match action {
        InteractionAction::Click { selector } => Some(selector.clone()),
        InteractionAction::Fill { selector, .. } => Some(selector.clone()),
        InteractionAction::WaitForSelector { selector } => Some(selector.clone()),
        InteractionAction::CheckSelector { selector } => Some(selector.clone()),
        InteractionAction::PressKey { selector, .. } => crate::auth_domain::clone_opt(selector),
        InteractionAction::WaitForText { selector, .. } => crate::auth_domain::clone_opt(selector),
        InteractionAction::CheckText { selector, .. } => crate::auth_domain::clone_opt(selector),
    }
}

/// A message cut to `MAX_LOAD_ERROR_CHARS` characters.
pub fn bounded_message(message: String) -> (m: String)
    ensures
        m@ == clip(message@, MAX_LOAD_ERROR_CHARS as nat),
{
    crate::window_core::truncate_chars(message, MAX_LOAD_ERROR_CHARS)
}

/// A failed step with a bounded message.
pub fn failure_result(code: InteractionStepCode, message: String) -> (r: ScriptResult)
    ensures
        !r.ok && r.code == code && opt_view(r.message) == Some(clip(message@, MAX_LOAD_ERROR_CHARS as nat)),
{
    ScriptResult { ok: false, code, message: Some(bounded_message(message)) }
}

/// A step that ran out of time.
pub fn timeout_result(message: &str) -> (r: ScriptResult)
    ensures
        !r.ok && r.code == InteractionStepCode::Timeout && opt_view(r.message) == Some(clip(message@, MAX_LOAD_ERROR_CHARS as nat)),
{
    failure_result(InteractionStepCode::Timeout, String::from_str(message))
}

/// Checks what a page script reported: success and the `ok` code must agree; a success
/// carries no message, a failure a bounded one.
pub fn sanitize_script_result(result: ScriptResult) -> (r: Result<ScriptResult, String>)
    ensures
        match r {
            Ok(s) => result.ok == (result.code == InteractionStepCode::Succeeded) && s.ok == result.ok && s.code == result.code
                && opt_view(s.message) == (if result.ok { None } else {
                    match result.message {
                        Some(m) => Some(clip(m@, MAX_LOAD_ERROR_CHARS as nat)),
                        None => None,
                    }
                }),
            Err(m) => result.ok != (result.code == InteractionStepCode::Succeeded)
                && m@ == "interaction result returned inconsistent success/code state"@,
        },
{
    if result.ok != (result.code == InteractionStepCode::Succeeded) {
        return Err(String::from_str("interaction result returned inconsistent success/code state"));
    }
    let message = if result.ok {
        None
    } else {
        match result.message {
            Some(m) => Some(bounded_message(m)),
            None => None,
        }
    };
    Ok(ScriptResult { ok: result.ok, code: result.code, message })
}

/// A lower-case hex digit.
pub open spec fn lower_hex_digit(n: int) -> char {
    if n < 10 { (('0' as int) + n) as char } else { (('a' as int) + n - 10) as char }
}

/// How a JSON string literal writes one character: a quote and a backslash behind a
/// backslash; backspace, form feed, line feed, carriage return and tab as `\b`, `\f`,
/// `\n`, `\r`, `\t`; any other character below U+0020 as `\u00` and two lower-case hex
/// digits; every other character as itself.
pub open spec fn json_char_escape(c: char) -> Seq<char> {
    if c == '"' {
        seq!['\\', '"']
    } else if c == '\\' {
        seq!['\\', '\\']
    } else if c == '\u{8}' {
        seq!['\\', 'b']
    } else if c == '\u{c}' {
        seq!['\\', 'f']
    } else if c == '\n' {
        seq!['\\', 'n']
    } else if c == '\r' {
        seq!['\\', 'r']
    } else if c == '\t' {
        seq!['\\', 't']
    } else if (c as u32) < 0x20 {
        seq!['\\', 'u', '0', '0', lower_hex_digit(((c as u32) / 16) as int), lower_hex_digit(((c as u32) % 16) as int)]
    } else {
        seq![c]
    }
}

/// The characters of a text, each written as `json_char_escape` writes it.
pub open spec fn json_escaped(s: Seq<char>) -> Seq<char>
    decreases s.len(),
{
    if s.len() == 0 {
        Seq::empty()
    } else {
        json_escaped(s.drop_last()) + json_char_escape(s.last())
    }
}

/// The JSON string literal `serde_json::to_string` writes for a text: the escaped text
/// between double quotes.
pub open spec fn json_string_literal(s: Seq<char>) -> Seq<char> {
    seq!['"'] + json_escaped(s) + seq!['"']
}

/// Serializes a text as a JSON string literal with `serde_json::to_string`, which
/// cannot fail for a string.
#[verifier::external_body]
pub(crate) fn json_quote(value: &str) -> (q: String)
    ensures
        q@ == json_string_literal(value@),
{
    serde_json::to_string(value).unwrap_or_default()
}

/// `s` with U+2028 and U+2029 written as the escapes `\u2028` and `\u2029`, which
/// JavaScript source would otherwise read as line breaks.
pub open spec fn escape_separators(s: Seq<char>) -> Seq<char>
    decreases s.len(),
{
    if s.len() == 0 {
        Seq::empty()
    } else {
        let rest = escape_separators(s.drop_last());
        if s.last() == '\u{2028}' {
            rest + "\\u2028"@
        } else if s.last() == '\u{2029}' {
            rest + "\\u2029"@
        } else {
            rest.push(s.last())
        }
    }
}

/// The JavaScript string literal for a text: its JSON literal with the two line
/// separators escaped.
pub open spec fn js_literal(s: Seq<char>) -> Seq<char> {
    escape_separators(json_string_literal(s))
}

/// A character that ends a line in JavaScript source.
pub open spec fn is_line_terminator(c: char) -> bool {
    c == '\n' || c == '\r' || c == '\u{2028}' || c == '\u{2029}'
}

proof fn lemma_json_escaped_has_no_line_break(s: Seq<char>)
    ensures
        forall|i: int| 0 <= i < json_escaped(s).len() ==> #[trigger] json_escaped(s)[i] != '\n' && json_escaped(s)[i] != '\r',
    decreases s.len(),
{
    if s.len() > 0 {
        lemma_json_escaped_has_no_line_break(s.drop_last());
        let a = json_escaped(s.drop_last());
        let c = s.last();
        let e = json_char_escape(c);
        assert forall|i: int| 0 <= i < e.len() implies #[trigger] e[i] != '\n' && e[i] != '\r' by {
            if (c as u32) < 0x20 && c != '"' && c != '\\' && c != '\u{8}' && c != '\u{c}' && c != '\n' && c != '\r' && c != '\t' {
                let ci = c as u32;
                let h = (ci / 16) as int;
                let l = (ci % 16) as int;
                assert(0 <= h < 16 && 0 <= l < 16);
                assert((lower_hex_digit(h) as int) >= 48);
                assert((lower_hex_digit(l) as int) >= 48);
            }
        }
        assert forall|i: int| 0 <= i < json_escaped(s).len() implies #[trigger] json_escaped(s)[i] != '\n' && json_escaped(s)[i] != '\r' by {
            if i < a.len() {
                assert(json_escaped(s)[i] == a[i]);
            } else {
                assert(json_escaped(s)[i] == e[i - a.len()]);
            }
        }
    }
}

proof fn lemma_separators_escaped(t: Seq<char>)
    ensures
        forall|i: int| 0 <= i < escape_separators(t).len() ==> {
            let c = #[trigger] escape_separators(t)[i];
            c != '\u{2028}' && c != '\u{2029}' && (t.contains(c) || c == '\\' || c == 'u' || c == '2' || c == '0' || c == '8' || c == '9')
        },
    decreases t.len(),
{
    if t.len() > 0 {
        lemma_separators_escaped(t.drop_last());
        let r = escape_separators(t.drop_last());
        let out = escape_separators(t);
        reveal_strlit("\\u2028");
        reveal_strlit("\\u2029");
        assert forall|i: int| 0 <= i < out.len() implies {
            let c = #[trigger] out[i];
            c != '\u{2028}' && c != '\u{2029}' && (t.contains(c) || c == '\\' || c == 'u' || c == '2' || c == '0' || c == '8' || c == '9')
        } by {
            if i < r.len() {
                assert(out[i] == r[i]);
                if t.drop_last().contains(r[i]) {
                    let j = choose|j: int| 0 <= j < t.drop_last().len() && t.drop_last()[j] == r[i];
                    assert(t[j] == r[i]);
                }
            } else if t.last() != '\u{2028}' && t.last() != '\u{2029}' {
                assert(out[i] == t.last());
                assert(t[t.len() - 1] == t.last());
            }
        }
    }
}

/// The JavaScript literal of any text is one line of source: it holds no character that
/// ends a line, so what a page script embeds cannot spill out of its string.
pub proof fn law_js_literal_holds_no_line_break(s: Seq<char>)
    ensures
        forall|i: int| 0 <= i < js_literal(s).len() ==> !is_line_terminator(#[trigger] js_literal(s)[i]),
{
    let q = json_string_literal(s);
    lemma_json_escaped_has_no_line_break(s);
    assert forall|i: int| 0 <= i < q.len() implies #[trigger] q[i] != '\n' && q[i] != '\r' by {
        let b = json_escaped(s);
        if 1 <= i < q.len() - 1 {
            assert(q[i] == b[i - 1]);
        }
    }
    lemma_separators_escaped(q);
    assert forall|i: int| 0 <= i < js_literal(s).len() implies !is_line_terminator(#[trigger] js_literal(s)[i]) by {
        let c = js_literal(s)[i];
        if q.contains(c) {
            let j = choose|j: int| 0 <= j < q.len() && q[j] == c;
            assert(q[j] != '\n' && q[j] != '\r');
        }
    }
}

/// A text as a JavaScript string literal.
pub fn js_string(value: &str) -> (s: String)
    ensures
        s@ == js_literal(value@),
{
    let quoted = json_quote(value);
    let v = chars_of(quoted.as_str());
    let mut out = String::new();
    let mut i: usize = 0;
    assert(v@.subrange(0, 0) =~= Seq::<char>::empty());
    while i < v.len()
        invariant
            i <= v@.len(),
            out@ == escape_separators(v@.subrange(0, i as int)),
        decreases v@.len() - i,
    {
        let c = v[i];
        assert(v@.subrange(0, i + 1).drop_last() =~= v@.subrange(0, i as int));
        if c == '\u{2028}' {
            out.append("\\u2028");
        } else if c == '\u{2029}' {
            out.append("\\u2029");
        } else {
            let mut one: Vec<char> = Vec::new();
            one.push(c);
            let cs = string_from_chars(&one);
            assert(cs@ =~= seq![c]);
            out.append(cs.as_str());
            assert(out@ =~= escape_separators(v@.subrange(0, i as int)).push(c));
        }
        i += 1;
    }
    assert(v@.subrange(0, v@.len() as int) =~= v@);
    out
}

pub const SCRIPT_HEAD: &'static str = r#"(() => {
  try {
    const selector = "#;

pub const CLICK_TAIL: &'static str = r#";
    const element = document.querySelector(selector);
    if (!element) return { ok:false, code:"selector_not_found", message:"selector did not match an element" };
    if (typeof element.click !== "function" || element.disabled === true) return { ok:false, code:"selector_not_interactable", message:"matched element is not clickable" };
    if (typeof element.scrollIntoView === "function") element.scrollIntoView({ block:"center", inline:"center" });
    if (typeof element.focus === "function") element.focus();
    element.click();
    return { ok:true, code:"ok", message:null };
  } catch (error) {
    return { ok:false, code:"script_error", message:error && error.message ? String(error.message) : String(error) };
  }
})()"#;

pub const FILL_MIDDLE: &'static str = r#";
    const value = "#;

pub const FILL_TAIL: &'static str = r#";
    const element = document.querySelector(selector);
    if (!element) return { ok:false, code:"selector_not_found", message:"selector did not match an element" };
    if (element.disabled === true || element.readOnly === true) return { ok:false, code:"selector_not_interactable", message:"matched element is disabled or read-only" };
    const type = String(element.type || "").toLowerCase();
    if (["checkbox","radio","file","button","submit","reset"].includes(type)) return { ok:false, code:"selector_not_interactable", message:"matched input type is not fillable" };
    if (typeof element.focus === "function") element.focus();
    if (element.isContentEditable === true) {
      element.textContent = value;
    } else if ("value" in element) {
      const descriptor = Object.getOwnPropertyDescriptor(Object.getPrototypeOf(element), "value");
      if (descriptor && typeof descriptor.set === "function") descriptor.set.call(element, value);
      else element.value = value;
    } else {
      return { ok:false, code:"selector_not_interactable", message:"matched element has no fillable value" };
    }
    element.dispatchEvent(new Event("input", { bubbles:true, composed:true }));
    element.dispatchEvent(new Event("change", { bubbles:true, composed:true }));
    return { ok:true, code:"ok", message:null };
  } catch (error) {
    return { ok:false, code:"script_error", message:error && error.message ? String(error.message) : String(error) };
  }
})()"#;

pub const PRESS_KEY_MIDDLE: &'static str = r#";
    const key = "#;

pub const PRESS_KEY_TAIL: &'static str = r#";
    const target = selector === null ? document.activeElement : document.querySelector(selector);
    if (!target) return { ok:false, code:"selector_not_found", message:"key target is unavailable" };
    if (typeof target.focus === "function") target.focus();
    const options = { key, bubbles:true, cancelable:true, composed:true };
    target.dispatchEvent(new KeyboardEvent("keydown", options));
    if (key.length === 1) target.dispatchEvent(new KeyboardEvent("keypress", options));
    target.dispatchEvent(new KeyboardEvent("keyup", options));
    return { ok:true, code:"ok", message:null };
  } catch (error) {
    return { ok:false, code:"script_error", message:error && error.message ? String(error.message) : String(error) };
  }
})()"#;

pub const SELECTOR_PROBE_TAIL: &'static str = r#";
    const matched = document.querySelector(selector) !== null;
    return matched
      ? { ok:true, code:"ok", message:null }
      : { ok:false, code:"selector_not_found", message:"selector condition is not satisfied" };
  } catch (error) {
    return { ok:false, code:"script_error", message:error && error.message ? String(error.message) : String(error) };
  }
})()"#;

pub const TEXT_PROBE_MIDDLE: &'static str = r#";
    const expected = "#;

pub const TEXT_PROBE_TAIL: &'static str = r#";
    const root = selector === null ? document.body : document.querySelector(selector);
    if (!root) return { ok:false, code:"selector_not_found", message:"text root selector did not match an element" };
    const matched = String(root.textContent || "").includes(expected);
    return matched
      ? { ok:true, code:"ok", message:null }
      : { ok:false, code:"text_not_found", message:"text condition is not satisfied" };
  } catch (error) {
    return { ok:false, code:"script_error", message:error && error.message ? String(error.message) : String(error) };
  }
})()"#;

/// The script that checks for a selector; a miss reports `selector_not_found`.
pub open spec fn selector_probe_text(selector: Seq<char>) -> Seq<char> {
    SCRIPT_HEAD@ + js_literal(selector) + SELECTOR_PROBE_TAIL@
}

/// The script that checks for a text under a selector (or the body); a missing root
/// reports `selector_not_found`, a missing text `text_not_found`.
pub open spec fn text_probe_text(text: Seq<char>, selector: Option<Seq<char>>) -> Seq<char> {
    SCRIPT_HEAD@ + match selector {
        Some(s) => js_literal(s),
        None => "null"@,
    } + TEXT_PROBE_MIDDLE@ + js_literal(text) + TEXT_PROBE_TAIL@
}

/// The script that carries out an action. Every value enters the page as a JavaScript
/// string literal, never as source.
pub open spec fn script_text(a: InteractionAction) -> Seq<char> {
    match a {
        InteractionAction::Click { selector } => SCRIPT_HEAD@ + js_literal(selector@) + CLICK_TAIL@,
        InteractionAction::Fill { selector, value } => SCRIPT_HEAD@ + js_literal(selector@) + FILL_MIDDLE@ + js_literal(value@) + FILL_TAIL@,
        InteractionAction::PressKey { key, selector } => SCRIPT_HEAD@ + match opt_view(selector) {
            Some(s) => js_literal(s),
            None => "null"@,
        } + PRESS_KEY_MIDDLE@ + js_literal(key@) + PRESS_KEY_TAIL@,
        InteractionAction::WaitForSelector { selector } => selector_probe_text(selector@),
        InteractionAction::CheckSelector { selector } => selector_probe_text(selector@),
        InteractionAction::WaitForText { text, selector } => text_probe_text(text@, opt_view(selector)),
        InteractionAction::CheckText { text, selector } => text_probe_text(text@, opt_view(selector)),
    }
}

/// Every action's script declares what the action acts on before it does anything: it
/// opens with `const selector = ` and the JavaScript literal of the action's selector (or
/// `null` where an optional selector is absent), then declares the action's value, key or
/// expected text as the literal of that input.
pub proof fn law_scripts_declare_the_action_inputs(a: InteractionAction)
    ensures
        SCRIPT_HEAD@ == "(() => {\n  try {\n    const selector = "@,
        FILL_MIDDLE@ == ";\n    const value = "@,
        PRESS_KEY_MIDDLE@ == ";\n    const key = "@,
        TEXT_PROBE_MIDDLE@ == ";\n    const expected = "@,
        match a {
            InteractionAction::Click { selector } => (SCRIPT_HEAD@ + js_literal(selector@)).is_prefix_of(script_text(a)),
            InteractionAction::WaitForSelector { selector } => (SCRIPT_HEAD@ + js_literal(selector@)).is_prefix_of(script_text(a)),
            InteractionAction::CheckSelector { selector } => (SCRIPT_HEAD@ + js_literal(selector@)).is_prefix_of(script_text(a)),
            InteractionAction::Fill { selector, value } => (SCRIPT_HEAD@ + js_literal(selector@) + FILL_MIDDLE@ + js_literal(value@))
                .is_prefix_of(script_text(a)),
            InteractionAction::PressKey { key, selector } => match selector {
                Some(s) => (SCRIPT_HEAD@ + js_literal(s@) + PRESS_KEY_MIDDLE@ + js_literal(key@)).is_prefix_of(script_text(a)),
                None => (SCRIPT_HEAD@ + "null"@ + PRESS_KEY_MIDDLE@ + js_literal(key@)).is_prefix_of(script_text(a)),
            },
            InteractionAction::WaitForText { text, selector } => match selector {
                Some(s) => (SCRIPT_HEAD@ + js_literal(s@) + TEXT_PROBE_MIDDLE@ + js_literal(text@)).is_prefix_of(script_text(a)),
                None => (SCRIPT_HEAD@ + "null"@ + TEXT_PROBE_MIDDLE@ + js_literal(text@)).is_prefix_of(script_text(a)),
            },
            InteractionAction::CheckText { text, selector } => match selector {
                Some(s) => (SCRIPT_HEAD@ + js_literal(s@) + TEXT_PROBE_MIDDLE@ + js_literal(text@)).is_prefix_of(script_text(a)),
                None => (SCRIPT_HEAD@ + "null"@ + TEXT_PROBE_MIDDLE@ + js_literal(text@)).is_prefix_of(script_text(a)),
            },
        },
{
    let t = script_text(a);
    match a {
        InteractionAction::Click { selector } => {
            let p = SCRIPT_HEAD@ + js_literal(selector@);
            assert(p =~= t.subrange(0, p.len() as int));
        },
        InteractionAction::WaitForSelector { selector } => {
            let p = SCRIPT_HEAD@ + js_literal(selector@);
            assert(p =~= t.subrange(0, p.len() as int));
        },
        InteractionAction::CheckSelector { selector } => {
            let p = SCRIPT_HEAD@ + js_literal(selector@);
            assert(p =~= t.subrange(0, p.len() as int));
        },
        InteractionAction::Fill { selector, value } => {
            let p = SCRIPT_HEAD@ + js_literal(selector@) + FILL_MIDDLE@ + js_literal(value@);
            assert(p =~= t.subrange(0, p.len() as int));
        },
        InteractionAction::PressKey { key, selector } => {
            let l = match selector { Some(s) => js_literal(s@), None => "null"@ };
            let p = SCRIPT_HEAD@ + l + PRESS_KEY_MIDDLE@ + js_literal(key@);
            assert(p =~= t.subrange(0, p.len() as int));
        },
        InteractionAction::WaitForText { text, selector } => {
            let l = match selector { Some(s) => js_literal(s@), None => "null"@ };
            let p = SCRIPT_HEAD@ + l + TEXT_PROBE_MIDDLE@ + js_literal(text@);
            assert(p =~= t.subrange(0, p.len() as int));
        },
        InteractionAction::CheckText { text, selector } => {
            let l = match selector { Some(s) => js_literal(s@), None => "null"@ };
            let p = SCRIPT_HEAD@ + l + TEXT_PROBE_MIDDLE@ + js_literal(text@);
            assert(p =~= t.subrange(0, p.len() as int));
        },
    }
}

/// The script that checks for a selector.
pub fn selector_probe(selector: &str, check: bool) -> (s: String)
    ensures
        s@ == selector_probe_text(selector@),
{
    let mut s = String::from_str(SCRIPT_HEAD);
    s.append(js_string(selector).as_str());
    s.append(SELECTOR_PROBE_TAIL);
    s
}

fn selector_or_null(selector: Option<&str>) -> (s: String)
    ensures
        s@ == match selector {
            Some(x) => js_literal(x@),
            None => "null"@,
        },
{
    match selector {
        Some(x) => js_string(x),
        None => String::from_str("null"),
    }
}

/// The script that checks for a text.
pub fn text_probe(text: &str, selector: Option<&str>) -> (s: String)
    ensures
        s@ == text_probe_text(text@, match selector {
            Some(x) => Some(x@),
            None => None,
        }),
{
    let mut s = String::from_str(SCRIPT_HEAD);
    s.append(selector_or_null(selector).as_str());
    s.append(TEXT_PROBE_MIDDLE);
    s.append(js_string(text).as_str());
    s.append(TEXT_PROBE_TAIL);
    s
}

fn opt_str(o: &Option<String>) -> (r: Option<&str>)
    ensures
        match r {
            Some(x) => opt_view(*o) == Some(x@),
            None => o is None,
        },
{
    match o {
        Some(s) => Some(s.as_str()),
        None => None,
    }
}

/// The script that carries out an action.
pub fn script_for(action: &InteractionAction) -> (s: String)
    ensures
        s@ == script_text(*action),
{
    match action {
        InteractionAction::Click { selector } => {
            let mut s = String::from_str(SCRIPT_HEAD);
            s.append(js_string(selector.as_str()).as_str());
            s.append(CLICK_TAIL);
            s
        },
        InteractionAction::Fill { selector, value } => {
            let mut s = String::from_str(SCRIPT_HEAD);
            s.append(js_string(selector.as_str()).as_str());
            s.append(FILL_MIDDLE);
            s.append(js_string(value.as_str()).as_str());
            s.append(FILL_TAIL);
            s
        },
        InteractionAction::PressKey { key, selector } => {
            let mut s = String::from_str(SCRIPT_HEAD);
            s.append(selector_or_null(opt_str(selector)).as_str());
            s.append(PRESS_KEY_MIDDLE);
            s.append(js_string(key.as_str()).as_str());
            s.append(PRESS_KEY_TAIL);
            s
        },
        InteractionAction::WaitForSelector { selector } => selector_probe(selector.as_str(), false),
        InteractionAction::CheckSelector { selector } => selector_probe(selector.as_str(), true),
        InteractionAction::WaitForText { text, selector } => text_probe(text.as_str(), opt_str(selector)),
        InteractionAction::CheckText { text, selector } => text_probe(text.as_str(), opt_str(selector)),
    }
}

/// Whether a wait action should poll again after this result: only while its selector or
/// text is not yet found.
pub fn wait_should_retry(result: &ScriptResult) -> (b: bool)
    ensures
        b == (!result.ok && (result.code == InteractionStepCode::SelectorNotFound || result.code == InteractionStepCode::TextNotFound)),
{
    !result.ok && (result.code == InteractionStepCode::SelectorNotFound || result.code == InteractionStepCode::TextNotFound)
}

/// Whether an action is a wait that polls until its condition holds.
pub fn is_wait_action(action: &InteractionAction) -> (b: bool)
    ensures
        b == (*action is WaitForSelector || *action is WaitForText),
{
    match action {
        InteractionAction::WaitForSelector { .. } | InteractionAction::WaitForText { .. } => true,
        _ => false,
    }
}

/// The step record of the action at `index`: its kind, its selector, and what its
/// script reported.
pub fn step_result(index: usize, action: &InteractionAction, result: ScriptResult, elapsed_ms: u64) -> (s: InteractionStepResult)
    ensures
        s.index == index && s.kind == kind_of(*action) && opt_view(s.selector) == selector_of(*action)
            && s.ok == result.ok && s.code == result.code && s.message == result.message && s.elapsed_ms == elapsed_ms,
{
    InteractionStepResult {
        index,
        kind: action_kind(action),
        selector: action_selector(action),
        ok: result.ok,
        code: result.code,
        message: result.message,
        elapsed_ms,
    }
}

/// The outcome of a batch from the steps that ran: complete only when every action ran
/// and succeeded.
pub fn finish_execution(actions_len: usize, results: Vec<InteractionStepResult>) -> (e: InteractionExecution)
    ensures
        e.actions@ == results@,
        e.completed == (results@.len() == actions_len && forall|i: int| 0 <= i < results@.len() ==> (#[trigger] results@[i]).ok),
{
    let mut all_ok = true;
    let mut i: usize = 0;
    while i < results.len()
        invariant
            i <= results@.len(),
            all_ok == forall|j: int| 0 <= j < i ==> (#[trigger] results@[j]).ok,
        decreases results@.len() - i,
    {
        all_ok = all_ok && results[i].ok;
        i += 1;
    }
    InteractionExecution { completed: results.len() == actions_len && all_ok, actions: results }
}

/// What an interaction batch answers: the steps that ran and what was gathered after
/// them.
#[derive(Debug)]
pub struct InteractionResult {
    pub window_session_id: String,
    pub completed: bool,
    pub actions: Vec<InteractionStepResult>,
    pub post_status: Option<ActiveWindow>,
    pub console: Option<ConsoleResult>,
    pub screenshot: Option<ScreenshotResult>,
    pub post_errors: Vec<InteractionPostError>,
    pub output_truncated: bool,
}

/// The bytes kept free in a frame beside an interaction result.
pub const FRAME_HEADROOM: usize = 1024;

/// The most bytes an interaction result may take once encoded.
pub const RESULT_BUDGET: usize = MAX_FRAME_BYTES - FRAME_HEADROOM;

/// What trimming takes next from a result that does not fit, in this order: the oldest
/// console entry, the oldest console error of the post-status, the oldest URL of its
/// history (one is always kept), the whole console, the whole post-status.
pub enum FrameTrim {
    ConsoleEntry,
    ConsoleError,
    HistoryEntry,
    Console,
    PostStatus,
    Nothing,
}

/// The URL history of a post-status, if it has one.
pub open spec fn status_history(w: ActiveWindow) -> Seq<String> {
    match w.url_history {
        Some(h) => h@,
        None => Seq::empty(),
    }
}

/// The next thing trimming takes from a result.
pub open spec fn next_trim(r: InteractionResult) -> FrameTrim {
    if r.console is Some && r.console->0.entries@.len() > 0 {
        FrameTrim::ConsoleEntry
    } else if r.post_status is Some && r.post_status->0.console_errors@.len() > 0 {
        FrameTrim::ConsoleError
    } else if r.post_status is Some && status_history(r.post_status->0).len() > 1 {
        FrameTrim::HistoryEntry
    } else if r.console is Some {
        FrameTrim::Console
    } else if r.post_status is Some {
        FrameTrim::PostStatus
    } else {
        FrameTrim::Nothing
    }
}

/// `after` is `before` with one more thing trimmed, as `next_trim` names it, and marked
/// as truncated; everything else is kept.
pub open spec fn trimmed_once(before: InteractionResult, after: InteractionResult) -> bool {
    &&& after.window_session_id == before.window_session_id
    &&& after.completed == before.completed
    &&& after.actions == before.actions
    &&& after.screenshot == before.screenshot
    &&& after.post_errors == before.post_errors
    &&& after.output_truncated
    &&& match next_trim(before) {
        FrameTrim::ConsoleEntry => {
            &&& after.post_status == before.post_status
            &&& after.console is Some
            &&& after.console->0.window_session_id == before.console->0.window_session_id
            &&& after.console->0.entries@ == before.console->0.entries@.drop_first()
            &&& after.console->0.truncated
        },
        FrameTrim::ConsoleError => {
            &&& after.console == before.console
            &&& after.post_status is Some
            &&& after.post_status->0@ == WindowView {
                console_errors: entry_views(before.post_status->0.console_errors@.drop_first()),
                console_errors_truncated: true,
                ..before.post_status->0@
            }
        },
        FrameTrim::HistoryEntry => {
            &&& after.console == before.console
            &&& after.post_status is Some
            &&& after.post_status->0@ == WindowView {
                url_history: Some(string_views(status_history(before.post_status->0).drop_first())),
                url_history_truncated: Some(true),
                ..before.post_status->0@
            }
        },
        FrameTrim::Console => after.console is None && after.post_status == before.post_status,
        FrameTrim::PostStatus => after.console == before.console && after.post_status is None,
        FrameTrim::Nothing => false,
    }
}

/// How much trimming can still take from a result.
pub open spec fn trim_room(r: InteractionResult) -> nat {
    (match r.console {
        Some(c) => c.entries@.len() + 1,
        None => 0,
    }) + (match r.post_status {
        Some(w) => w.console_errors@.len() + (if status_history(w).len() > 1 { (status_history(w).len() - 1) as nat } else { 0 }) + 1,
        None => 0,
    })
}

fn history_len(w: &ActiveWindow) -> (n: usize)
    ensures
        n == status_history(*w).len(),
{
    match &w.url_history {
        Some(h) => h.len(),
        None => 0,
    }
}

/// Takes the oldest console error of a post-status, or else the oldest URL of its
/// history when more than one is left; gives back whether anything was taken.
fn trim_status(w: &mut ActiveWindow) -> (changed: bool)
    ensures
        changed == (old(w).console_errors@.len() > 0 || status_history(*old(w)).len() > 1),
        !changed ==> *final(w) == *old(w),
        old(w).console_errors@.len() > 0 ==> final(w)@ == (WindowView {
            console_errors: entry_views(old(w).console_errors@.drop_first()),
            console_errors_truncated: true,
            ..old(w)@
        }) && final(w).console_errors@ == old(w).console_errors@.drop_first()
            && status_history(*final(w)) == status_history(*old(w)),
        old(w).console_errors@.len() == 0 && status_history(*old(w)).len() > 1 ==> final(w)@ == (WindowView {
            url_history: Some(string_views(status_history(*old(w)).drop_first())),
            url_history_truncated: Some(true),
            ..old(w)@
        }) && final(w).console_errors@ == old(w).console_errors@
            && status_history(*final(w)) == status_history(*old(w)).drop_first(),
{
    if w.console_errors.len() > 0 {
        let ghost old_w = *w;
        w.console_errors.remove(0);
        w.console_errors_truncated = true;
        assert(w.console_errors@ =~= old_w.console_errors@.drop_first());
        assert(w@ =~= WindowView {
            console_errors: entry_views(old_w.console_errors@.drop_first()),
            console_errors_truncated: true,
            ..old_w@
        });
        return true;
    }
    if history_len(w) > 1 {
        let ghost old_w = *w;
        let mut h = w.url_history.take().unwrap();
        let ghost old_h = h@;
        h.remove(0);
        assert(h@ =~= old_h.drop_first());
        assert(string_views(h@) =~= string_views(old_h).drop_first());
        w.url_history = Some(h);
        w.url_history_truncated = Some(true);
        assert(w@ =~= WindowView {
            url_history: Some(string_views(status_history(old_w).drop_first())),
            url_history_truncated: Some(true),
            ..old_w@
        });
        return true;
    }
    false
}

/// Takes from a result the next thing `next_trim` names and marks it as truncated; gives
/// back whether anything was taken.
pub fn trim_for_frame(result: &mut InteractionResult) -> (changed: bool)
    ensures
        changed == !(next_trim(*old(result)) is Nothing),
        changed ==> trimmed_once(*old(result), *final(result)),
        !changed ==> *final(result) == *old(result),
        changed ==> trim_room(*final(result)) < trim_room(*old(result)),
{
    let has_entries = match &result.console {
        Some(c) => c.entries.len() > 0,
        None => false,
    };
    if has_entries {
        let ghost before = *result;
        let mut c = result.console.take().unwrap();
        c.entries.remove(0);
        c.truncated = true;
        assert(c.entries@ =~= before.console->0.entries@.drop_first());
        result.console = Some(c);
        result.output_truncated = true;
        return true;
    }
    let status_trims = match &result.post_status {
        Some(w) => w.console_errors.len() > 0 || history_len(w) > 1,
        None => false,
    };
    if status_trims {
        let mut w = result.post_status.take().unwrap();
        trim_status(&mut w);
        result.post_status = Some(w);
        result.output_truncated = true;
        return true;
    }
    if result.console.is_some() {
        result.console = None;
        result.output_truncated = true;
        return true;
    }
    if result.post_status.is_some() {
        result.post_status = None;
        result.output_truncated = true;
        return true;
    }
    false
}

/// A run of trimming: each result is the one before it trimmed once, after `fits` said
/// of the one before that it does not fit.
pub open spec fn trim_chain<F: Fn(&InteractionResult) -> bool>(chain: Seq<InteractionResult>, fits: F) -> bool {
    forall|i: int| 0 <= i < chain.len() - 1 ==> trimmed_once(#[trigger] chain[i], chain[i + 1])
        && call_ensures(fits, (&chain[i],), false)
}

/// Trims a result until it fits a frame: `fits` says whether a result, once encoded,
/// stays within `RESULT_BUDGET`. The truncation mark is cleared first; then, while the
/// result does not fit, the next thing `next_trim` names is taken and the result is
/// marked as truncated. When nothing is left to take, the result is given back as it is.
pub fn bound_result_for_frame<F: Fn(&InteractionResult) -> bool>(result: InteractionResult, fits: F) -> (r: InteractionResult)
    requires
        forall|x: &InteractionResult| #[trigger] fits.requires((x,)),
    ensures
        exists|chain: Seq<InteractionResult>| {
            &&& chain.len() >= 1
            &&& trim_chain(chain, fits)
            &&& chain[0] == (InteractionResult { output_truncated: false, ..result })
            &&& chain.last() == r
            &&& r.output_truncated == (chain.len() > 1)
        },
        call_ensures(fits, (&r,), true) || next_trim(r) is Nothing,
{
    let ghost input = result;
    let mut result = result;
    result.output_truncated = false;
    let ghost start = result;
    assert(start == (InteractionResult { output_truncated: false, ..input }));
    let ghost mut chain: Seq<InteractionResult> = seq![result];
    loop
        invariant
            forall|x: &InteractionResult| #[trigger] fits.requires((x,)),
            chain.len() >= 1,
            trim_chain(chain, fits),
            chain[0] == start,
            chain.last() == result,
            result.output_truncated == (chain.len() > 1),
        ensures
            chain.len() >= 1,
            trim_chain(chain, fits),
            chain[0] == start,
            chain.last() == result,
            result.output_truncated == (chain.len() > 1),
            call_ensures(fits, (&result,), true) || next_trim(result) is Nothing,
        decreases trim_room(result),
    {
        let ok = fits(&result);
        if ok {
            break;
        }
        let ghost before = result;
        let changed = trim_for_frame(&mut result);
        if !changed {
            break;
        }
        proof {
            let old_chain = chain;
            chain = chain.push(result);
            assert forall|i: int| 0 <= i < chain.len() - 1 implies trimmed_once(#[trigger] chain[i], chain[i + 1])
                && call_ensures(fits, (&chain[i],), false) by {
                if i < old_chain.len() - 1 {
                    assert(chain[i] == old_chain[i]);
                    assert(chain[i + 1] == old_chain[i + 1]);
                } else {
                    assert(chain[i] == before);
                }
            }
        }
    }
    result
}

} // verus!
