//! The configurable defines of an application, read from its `config.h`.
//!
//! A define counts as configurable where it stands under an `#ifndef` of its own
//! name, so that a build flag can override it. Defines outside any platform
//! conditional go to the schema's common list; those under a conditional on one
//! known platform go to that platform's list; those under a conditional that
//! names several platforms, or none any more after `#else`, are left out.
//!
//! The header is read line by line. `scan_line` says what one line does to the
//! state of the scan, and `scan_lines` folds it over the lines.

use crate::numbers::{is_decimal, is_decimal_number, is_i64, is_i64_text};
use crate::pattern::{
    all_captures, captures, captures_iter, first_captures, group, group_text, groups_view,
    matches_view, Groups,
};
use crate::table::StringMap;
use crate::text::{
    after_first, after_prefix, before_first, contains_char, contains_seq, contains_str,
    content_lines, text_view,
    char_is_ascii_alphanumeric, ends_with, first_token, first_token_of, is_ascii_alphanumeric,
    split_once, starts_with, str_contains, str_eq, strip_prefix, subvec, to_chars, trim, trimmed,
    trimmed_lines, views,
};
use vstd::prelude::*;

verus! {

/// Matches a `#define` line: the name, then, after whitespace, the rest.
pub const DEFINE_PATTERN: &'static str = r"^#define\s+(\w+)(?:\s+(.*))?$";

/// Matches `!defined(NAME)`, with or without the parentheses.
pub const IFNDEF_EXPR_PATTERN: &'static str =
    r"!\s*defined\s*\(?\s*([A-Za-z_][A-Za-z0-9_]*)\s*\)?";

/// Matches one `number = label` of a comment that lists a define's choices.
pub const ENUM_PATTERN: &'static str = r"(\d+)\s*=\s*([^,]+)";

/// The kind of value a define takes.
#[derive(Debug, Clone, Copy, PartialEq, Eq, Structural)]
pub enum ValueType {
    Integer,
    Float,
    Boolean,
    String,
    Enum,
    Pin,
}

/// One choice of a define that takes one of a few numbers.
#[derive(Debug, Clone)]
pub struct EnumValue {
    pub value: String,
    pub label: String,
}

/// A choice with its texts as sequences of characters.
pub struct EnumValueView {
    pub value: Seq<char>,
    pub label: Seq<char>,
}

impl View for EnumValue {
    type V = EnumValueView;

    open spec fn view(&self) -> EnumValueView {
        EnumValueView { value: self.value@, label: self.label@ }
    }
}

/// The views of the choices of `values`.
pub open spec fn enum_views(values: Seq<EnumValue>) -> Seq<EnumValueView> {
    values.map_values(|v: EnumValue| v@)
}

/// One configurable define.
#[derive(Debug, Clone)]
pub struct ConfigDefine {
    pub name: String,
    pub default_value: String,
    pub value_type: ValueType,
    pub enum_values: Option<Vec<EnumValue>>,
    pub platform: Option<String>,
    pub description: Option<String>,
}

/// A define with its texts as sequences of characters.
pub struct ConfigDefineView {
    pub name: Seq<char>,
    pub default_value: Seq<char>,
    pub value_type: ValueType,
    pub enum_values: Option<Seq<EnumValueView>>,
    pub platform: Option<Seq<char>>,
    pub description: Option<Seq<char>>,
}

impl View for ConfigDefine {
    type V = ConfigDefineView;

    open spec fn view(&self) -> ConfigDefineView {
        ConfigDefineView {
            name: self.name@,
            default_value: self.default_value@,
            value_type: self.value_type,
            enum_values: match self.enum_values {
                Some(values) => Some(enum_views(values@)),
                None => None,
            },
            platform: text_view(self.platform),
            description: text_view(self.description),
        }
    }
}

/// The views of the defines of `defines`.
pub open spec fn define_views(defines: Seq<ConfigDefine>) -> Seq<ConfigDefineView> {
    defines.map_values(|d: ConfigDefine| d@)
}

/// The defines of each platform, by the platform's name.
pub open spec fn platform_views(by_platform: Map<Seq<char>, Vec<ConfigDefine>>) -> Map<
    Seq<char>,
    Seq<ConfigDefineView>,
> {
    Map::new(
        |p: Seq<char>| by_platform.contains_key(p),
        |p: Seq<char>| define_views(by_platform[p]@),
    )
}

/// What is known of an application's configuration.
#[derive(Debug, Clone)]
pub struct AppConfigSchema {
    pub has_config: bool,
    pub defines: Vec<ConfigDefine>,
    pub platform_conditional: StringMap<Vec<ConfigDefine>>,
}

/// A schema with its texts as sequences of characters.
pub struct SchemaView {
    pub has_config: bool,
    pub defines: Seq<ConfigDefineView>,
    pub platform_conditional: Map<Seq<char>, Seq<ConfigDefineView>>,
}

impl View for AppConfigSchema {
    type V = SchemaView;

    open spec fn view(&self) -> SchemaView {
        SchemaView {
            has_config: self.has_config,
            defines: define_views(self.defines@),
            platform_conditional: platform_views(self.platform_conditional@),
        }
    }
}

/// One open conditional of the preprocessor.
#[derive(Debug, Clone)]
pub struct ConditionalFrame {
    /// The one platform that the condition names, if it names exactly one.
    pub platform: Option<String>,
    /// The condition names a platform.
    pub platform_conditional: bool,
    /// The name whose absence the condition asks for.
    pub ifndef_name: Option<String>,
}

/// A conditional with its texts as sequences of characters.
pub struct FrameView {
    pub platform: Option<Seq<char>>,
    pub platform_conditional: bool,
    pub ifndef_name: Option<Seq<char>>,
}

impl View for ConditionalFrame {
    type V = FrameView;

    open spec fn view(&self) -> FrameView {
        FrameView {
            platform: text_view(self.platform),
            platform_conditional: self.platform_conditional,
            ifndef_name: text_view(self.ifndef_name),
        }
    }
}

/// The views of the conditionals of `stack`.
pub open spec fn frame_views(stack: Seq<ConditionalFrame>) -> Seq<FrameView> {
    stack.map_values(|f: ConditionalFrame| f@)
}

/// Where a line stands with respect to the platform conditionals around it.
#[derive(Debug, Clone, Copy, PartialEq, Eq, Structural)]
pub enum PlatformContext {
    /// Under no platform conditional.
    Neutral,
    /// Under a conditional on one platform.
    Specific,
    /// Under a platform conditional that does not single out one platform.
    Other,
}

/// What stands on a line before its `//` comment, trimmed.
pub open spec fn directive_of(line: Seq<char>) -> Seq<char> {
    trimmed(before_first(line, "//"@))
}

/// What stands on a line before its `//` comment, trimmed.
pub fn strip_inline_comment<'a>(line: &'a str) -> (r: &'a str)
    ensures
        r@ == directive_of(line@),
{
    let (head, _rest) = split_once(line, "//");
    trim(head)
}

/// The name that `expr` asks to be undefined, if it asks so of one.
pub open spec fn ifndef_of_expr(expr: Seq<char>) -> Option<Seq<char>> {
    match first_captures(IFNDEF_EXPR_PATTERN@, expr) {
        Some(groups) => group_text(groups, 1),
        None => None,
    }
}

/// The name that the condition `expr` asks to be undefined, if it asks so of one.
pub fn extract_ifndef_from_expr(expr: &str) -> (r: Option<String>)
    ensures
        text_view(r) == ifndef_of_expr(expr@),
{
    match captures(IFNDEF_EXPR_PATTERN, expr) {
        Some(groups) => match group(&groups, 1) {
            Some(name) => Some(String::from_str(name)),
            None => None,
        },
        None => None,
    }
}

/// The macros that tell the platform.
pub open spec fn is_platform_name(token: Seq<char>) -> bool {
    token == "ESP32"@ || token == "ESP8266"@ || token == "__AVR__"@
}

/// The platform that `token` tells, if it tells one.
pub open spec fn platform_of_token(token: Seq<char>) -> Option<Seq<char>> {
    if is_platform_name(token) {
        Some(token)
    } else {
        None
    }
}

/// The platform that the macro `token` tells, if it tells one.
pub fn extract_platform_from_tokens(token: &str) -> (r: Option<String>)
    ensures
        text_view(r) == platform_of_token(token@),
{
    if str_eq(token, "ESP32") || str_eq(token, "ESP8266") || str_eq(token, "__AVR__") {
        Some(String::from_str(token))
    } else {
        None
    }
}

/// A character of an identifier.
pub open spec fn is_word_char(c: char) -> bool {
    is_ascii_alphanumeric(c) || c == '_'
}

/// The number of identifier characters that `s` holds in a row from `from` on.
pub open spec fn word_run(s: Seq<char>, from: int) -> int
    decreases s.len() - from,
{
    if from < 0 || from >= s.len() || !is_word_char(s[from]) {
        0
    } else {
        1 + word_run(s, from + 1)
    }
}

/// A run of identifier characters ends within the text, and is not empty where
/// it begins at one.
pub proof fn lemma_word_run(s: Seq<char>, from: int)
    requires
        0 <= from <= s.len(),
    ensures
        0 <= word_run(s, from),
        from + word_run(s, from) <= s.len(),
        from < s.len() && is_word_char(s[from]) ==> word_run(s, from) >= 1,
    decreases s.len() - from,
{
    if from < s.len() && is_word_char(s[from]) {
        lemma_word_run(s, from + 1);
    }
}

/// The identifiers and numbers of `s` from index `from` on: its longest runs of
/// identifier characters.
pub open spec fn word_tokens_from(s: Seq<char>, from: int) -> Seq<Seq<char>>
    decreases s.len() - from,
{
    if from < 0 || from >= s.len() {
        Seq::empty()
    } else if !is_word_char(s[from]) {
        word_tokens_from(s, from + 1)
    } else {
        proof {
            lemma_word_run(s, from);
        }
        seq![s.subrange(from, from + word_run(s, from))] + word_tokens_from(
            s,
            from + word_run(s, from),
        )
    }
}

pub open spec fn word_tokens(s: Seq<char>) -> Seq<Seq<char>> {
    word_tokens_from(s, 0)
}

fn word_tokens_of(expr: &str) -> (tokens: Vec<String>)
    ensures
        views(tokens@) == word_tokens(expr@),
{
    let chars = to_chars(expr);
    let n = chars.len();
    let mut tokens: Vec<String> = Vec::new();
    let mut i: usize = 0;
    assert(views(tokens@) =~= Seq::<Seq<char>>::empty());
    while i < n
        invariant
            i <= n,
            n == chars@.len(),
            chars@ == expr@,
            word_tokens(expr@) == views(tokens@) + word_tokens_from(expr@, i as int),
        decreases n - i,
    {
        let c = chars[i];
        if !(char_is_ascii_alphanumeric(c) || c == '_') {
            i += 1;
        } else {
            let mut end: usize = i;
            while end < n && (char_is_ascii_alphanumeric(chars[end]) || chars[end] == '_')
                invariant
                    i <= end <= n,
                    n == chars@.len(),
                    word_run(chars@, i as int) == (end - i) + word_run(chars@, end as int),
                decreases n - end,
            {
                end += 1;
            }
            let ghost before = views(tokens@);
            let token = expr.substring_char(i, end);
            tokens.push(String::from_str(token));
            assert(views(tokens@) =~= before + seq![token@]);
            assert(word_tokens(expr@) =~= views(tokens@) + word_tokens_from(expr@, end as int));
            i = end;
        }
    }
    assert(views(tokens@) + word_tokens_from(expr@, n as int) =~= views(tokens@));
    tokens
}

/// The one platform that `expr` names, if it names exactly one.
pub open spec fn expr_platform(expr: Seq<char>) -> Option<Seq<char>> {
    let tokens = word_tokens(expr);
    let esp32 = tokens.contains("ESP32"@);
    let esp8266 = tokens.contains("ESP8266"@);
    let avr = tokens.contains("__AVR__"@);
    if esp32 && !esp8266 && !avr {
        Some("ESP32"@)
    } else if !esp32 && esp8266 && !avr {
        Some("ESP8266"@)
    } else if !esp32 && !esp8266 && avr {
        Some("__AVR__"@)
    } else {
        None
    }
}

/// `expr` names a platform.
pub open spec fn expr_names_platform(expr: Seq<char>) -> bool {
    let tokens = word_tokens(expr);
    tokens.contains("ESP32"@) || tokens.contains("ESP8266"@) || tokens.contains("__AVR__"@)
}

/// Reads a preprocessor condition for the platforms it names: the platform, if
/// it names exactly one, and whether it names any.
pub fn extract_platform_from_expr(expr: &str) -> (r: (Option<String>, bool))
    ensures
        text_view(r.0) == expr_platform(expr@),
        r.1 == expr_names_platform(expr@),
{
    let tokens = word_tokens_of(expr);
    let esp32 = contains_str(&tokens, "ESP32");
    let esp8266 = contains_str(&tokens, "ESP8266");
    let avr = contains_str(&tokens, "__AVR__");
    let platform = if esp32 && !esp8266 && !avr {
        Some(String::from_str("ESP32"))
    } else if !esp32 && esp8266 && !avr {
        Some(String::from_str("ESP8266"))
    } else if !esp32 && !esp8266 && avr {
        Some(String::from_str("__AVR__"))
    } else {
        None
    };
    (platform, esp32 || esp8266 || avr)
}

/// The innermost open conditional that names a platform.
pub open spec fn governing_frame(stack: Seq<FrameView>) -> Option<FrameView>
    decreases stack.len(),
{
    if stack.len() == 0 {
        None
    } else if stack.last().platform_conditional {
        Some(stack.last())
    } else {
        governing_frame(stack.drop_last())
    }
}

/// Where a line under the conditionals of `stack` stands.
pub open spec fn platform_context(stack: Seq<FrameView>) -> PlatformContext {
    match governing_frame(stack) {
        None => PlatformContext::Neutral,
        Some(frame) => if frame.platform is Some {
            PlatformContext::Specific
        } else {
            PlatformContext::Other
        },
    }
}

/// The platform that the conditionals of `stack` single out, if they do.
pub open spec fn platform_name(stack: Seq<FrameView>) -> Option<Seq<char>> {
    match governing_frame(stack) {
        None => None,
        Some(frame) => frame.platform,
    }
}

fn governing_index(stack: &Vec<ConditionalFrame>) -> (r: Option<usize>)
    ensures
        match r {
            Some(i) => i < stack@.len() && governing_frame(frame_views(stack@)) == Some(
                stack@[i as int]@,
            ),
            None => governing_frame(frame_views(stack@)) is None,
        },
{
    let ghost all = frame_views(stack@);
    let mut i: usize = stack.len();
    assert(all.take(i as int) =~= all);
    while i > 0
        invariant
            i <= stack@.len(),
            all == frame_views(stack@),
            governing_frame(all) == governing_frame(all.take(i as int)),
        decreases i,
    {
        assert(all.take(i as int).drop_last() =~= all.take(i as int - 1));
        assert(all.take(i as int).last() == stack@[i as int - 1]@);
        if stack[i - 1].platform_conditional {
            return Some(i - 1);
        }
        i -= 1;
    }
    None
}

/// Where a line under the open conditionals stands.
pub fn current_platform_context(stack: &Vec<ConditionalFrame>) -> (r: PlatformContext)
    ensures
        r == platform_context(frame_views(stack@)),
{
    match governing_index(stack) {
        None => PlatformContext::Neutral,
        Some(i) => if stack[i].platform.is_some() {
            PlatformContext::Specific
        } else {
            PlatformContext::Other
        },
    }
}

/// The platform that the open conditionals single out, if they do.
pub fn current_platform_name(stack: &Vec<ConditionalFrame>) -> (r: Option<String>)
    ensures
        text_view(r) == platform_name(frame_views(stack@)),
{
    match governing_index(stack) {
        None => None,
        Some(i) => stack[i].platform.clone(),
    }
}

/// Some open conditional asks for `name` to be undefined.
pub open spec fn is_configurable(stack: Seq<FrameView>, name: Seq<char>) -> bool {
    exists|i: int| 0 <= i < stack.len() && (#[trigger] stack[i]).ifndef_name == Some(name)
}

/// Whether some open conditional asks for `name` to be undefined.
pub fn is_configurable_define(stack: &Vec<ConditionalFrame>, name: &str) -> (b: bool)
    ensures
        b == is_configurable(frame_views(stack@), name@),
{
    let mut i: usize = 0;
    while i < stack.len()
        invariant
            i <= stack@.len(),
            forall|k: int|
                0 <= k < i ==> (#[trigger] frame_views(stack@)[k]).ifndef_name != Some(name@),
        decreases stack@.len() - i,
    {
        let named = match &stack[i].ifndef_name {
            Some(n) => str_eq(n.as_str(), name),
            None => false,
        };
        if named {
            assert(frame_views(stack@)[i as int].ifndef_name == Some(name@));
            return true;
        }
        i += 1;
    }
    false
}

/// The choices that the matches of `ENUM_PATTERN` in a comment list: of each
/// match the number and, trimmed, the label.
pub open spec fn enum_values_from(found: Seq<Seq<Option<Seq<char>>>>) -> Seq<EnumValueView>
    decreases found.len(),
{
    if found.len() == 0 {
        Seq::empty()
    } else {
        let rest = enum_values_from(found.drop_last());
        let groups = found.last();
        if group_text(groups, 1) is Some && group_text(groups, 2) is Some {
            rest.push(
                EnumValueView {
                    value: group_text(groups, 1)->0,
                    label: trimmed(group_text(groups, 2)->0),
                },
            )
        } else {
            rest
        }
    }
}

/// The choices that `found`, the matches of `ENUM_PATTERN` in a comment, list.
pub fn enum_values_of(found: &Vec<Groups>) -> (values: Vec<EnumValue>)
    ensures
        enum_views(values@) == enum_values_from(matches_view(found@)),
{
    let ghost all = matches_view(found@);
    let mut values: Vec<EnumValue> = Vec::new();
    let mut i: usize = 0;
    assert(enum_views(values@) =~= Seq::<EnumValueView>::empty());
    while i < found.len()
        invariant
            i <= found@.len(),
            all == matches_view(found@),
            enum_views(values@) == enum_values_from(all.take(i as int)),
        decreases found@.len() - i,
    {
        proof {
            assert(all.take(i as int + 1).drop_last() =~= all.take(i as int));
            assert(all.take(i as int + 1).last() == groups_view(found@[i as int]));
        }
        let ghost before = enum_views(values@);
        match (group(&found[i], 1), group(&found[i], 2)) {
            (Some(value), Some(label)) => {
                let choice = EnumValue {
                    value: String::from_str(value),
                    label: String::from_str(trim(label)),
                };
                values.push(choice);
                assert(enum_views(values@) =~= before.push(choice@));
            },
            _ => {},
        }
        i += 1;
    }
    assert(all.take(found@.len() as int) =~= all);
    values
}

/// A value that a switch takes.
pub open spec fn is_boolean_text(raw: Seq<char>) -> bool {
    raw == "true"@ || raw == "false"@ || raw == "1"@ || raw == "0"@
}

/// A name that says the define switches something on or off.
pub open spec fn names_a_switch(name: Seq<char>) -> bool {
    contains_seq(name, "ENABLED"@) || contains_seq(name, "ENABLE"@) || "USE_"@.is_prefix_of(name)
}

/// A value in the notation of a hexadecimal literal.
pub open spec fn is_hex_literal(raw: Seq<char>) -> bool {
    (seq!['0', 'x'].is_prefix_of(raw) || seq!['0', 'X'].is_prefix_of(raw)) && is_i64_text(
        raw.subrange(2, raw.len() as int),
        16,
    )
}

/// The kind of a define that lists no choices, by its name and its value: a pin
/// by its name; a switch by its name and value; else a number where the value
/// writes one; else text.
pub open spec fn plain_value_type(name: Seq<char>, raw: Seq<char>) -> ValueType {
    if "PIN_"@.is_prefix_of(name) || "_PIN"@.is_suffix_of(name) {
        ValueType::Pin
    } else if is_boolean_text(raw) && names_a_switch(name) {
        ValueType::Boolean
    } else if raw.contains('.') && is_decimal_number(raw) {
        ValueType::Float
    } else if is_i64_text(raw, 10) {
        ValueType::Integer
    } else if is_hex_literal(raw) {
        ValueType::Integer
    } else {
        ValueType::String
    }
}

fn plain_value_type_of(name: &str, raw_value: &str) -> (t: ValueType)
    ensures
        t == plain_value_type(name@, raw_value@),
{
    if starts_with(name, "PIN_") || ends_with(name, "_PIN") {
        return ValueType::Pin;
    }
    let boolean = str_eq(raw_value, "true") || str_eq(raw_value, "false") || str_eq(raw_value, "1")
        || str_eq(raw_value, "0");
    if boolean && (str_contains(name, "ENABLED") || str_contains(name, "ENABLE") || starts_with(
        name,
        "USE_",
    )) {
        return ValueType::Boolean;
    }
    let chars = to_chars(raw_value);
    if contains_char(&chars, '.') && is_decimal(&chars) {
        return ValueType::Float;
    }
    if is_i64(&chars, false) {
        return ValueType::Integer;
    }
    let n = chars.len();
    if n >= 2 && chars[0] == '0' && (chars[1] == 'x' || chars[1] == 'X') {
        assert(raw_value@.subrange(0, 2) =~= seq!['0', chars@[1]]);
        let digits = subvec(&chars, 2, n);
        if is_i64(&digits, true) {
            return ValueType::Integer;
        }
    } else {
        proof {
            if seq!['0', 'x'].is_prefix_of(raw_value@) {
                assert(raw_value@.subrange(0, 2)[1] == 'x');
                assert(raw_value@.subrange(0, 2)[0] == '0');
            }
            if seq!['0', 'X'].is_prefix_of(raw_value@) {
                assert(raw_value@.subrange(0, 2)[1] == 'X');
                assert(raw_value@.subrange(0, 2)[0] == '0');
            }
        }
    }
    ValueType::String
}

/// The kind of a define, the choices it lists, and its default: a define whose
/// comment lists choices takes one of them, whatever its name and value.
pub fn classify_value(name: &str, raw_value: &str, choices: Vec<EnumValue>) -> (r: (
    ValueType,
    Option<Vec<EnumValue>>,
    String,
))
    ensures
        r.0 == (if choices@.len() > 0 {
            ValueType::Enum
        } else {
            plain_value_type(name@, raw_value@)
        }),
        r.1 == (if choices@.len() > 0 {
            Some(choices)
        } else {
            None
        }),
        r.2@ == raw_value@,
{
    if choices.len() > 0 {
        (ValueType::Enum, Some(choices), String::from_str(raw_value))
    } else {
        (plain_value_type_of(name, raw_value), None, String::from_str(raw_value))
    }
}

/// The choices that a define's comment lists; none where it has no comment.
pub open spec fn choices_of(comment: Option<Seq<char>>) -> Seq<EnumValueView> {
    match comment {
        Some(text) => enum_values_from(all_captures(ENUM_PATTERN@, text)),
        None => Seq::empty(),
    }
}

/// The define that a `#define` of `name` with the value `raw` and the comment
/// `comment` declares, not yet assigned to a platform.
pub open spec fn declared(name: Seq<char>, raw: Seq<char>, comment: Option<Seq<char>>) -> ConfigDefineView {
    ConfigDefineView {
        name,
        default_value: raw,
        value_type: if choices_of(comment).len() > 0 {
            ValueType::Enum
        } else {
            plain_value_type(name, raw)
        },
        enum_values: if choices_of(comment).len() > 0 {
            Some(choices_of(comment))
        } else {
            None
        },
        platform: None,
        description: comment,
    }
}

/// Reads a define's value: its kind, the choices its comment lists, and its default.
pub fn parse_value(name: &str, raw_value: &str, comment: &Option<String>) -> (r: (
    ValueType,
    Option<Vec<EnumValue>>,
    String,
))
    ensures
        r.0 == declared(name@, raw_value@, text_view(*comment)).value_type,
        match r.1 {
            Some(values) => Some(enum_views(values@)) == declared(
                name@,
                raw_value@,
                text_view(*comment),
            ).enum_values,
            None => declared(name@, raw_value@, text_view(*comment)).enum_values is None,
        },
        r.2@ == raw_value@,
{
    let choices = match comment {
        Some(text) => {
            let found = captures_iter(ENUM_PATTERN, text.as_str());
            enum_values_of(&found)
        },
        None => {
            let none: Vec<EnumValue> = Vec::new();
            assert(enum_views(none@) =~= Seq::<EnumValueView>::empty());
            none
        },
    };
    classify_value(name, raw_value, choices)
}

/// What a match of `DEFINE_PATTERN` says: the name, the value before any `//`,
/// trimmed, and the comment after it, trimmed.
pub open spec fn define_parts_of(groups: Seq<Option<Seq<char>>>) -> (
    Seq<char>,
    Seq<char>,
    Option<Seq<char>>,
) {
    let name = match group_text(groups, 1) {
        Some(n) => n,
        None => Seq::empty(),
    };
    let rest = match group_text(groups, 2) {
        Some(r) => r,
        None => Seq::empty(),
    };
    (
        name,
        trimmed(before_first(rest, "//"@)),
        match after_first(rest, "//"@) {
            Some(c) => Some(trimmed(c)),
            None => None,
        },
    )
}

/// What a match of `DEFINE_PATTERN` says: name, value and comment.
pub fn define_parts(groups: &Groups) -> (r: (String, String, Option<String>))
    ensures
        (r.0@, r.1@, text_view(r.2)) == define_parts_of(groups_view(*groups)),
{
    let name = match group(groups, 1) {
        Some(n) => n,
        None => "",
    };
    let rest = match group(groups, 2) {
        Some(r) => r,
        None => "",
    };
    proof {
        reveal_strlit("");
        assert(""@ =~= Seq::<char>::empty());
    }
    let (value, comment) = split_once(rest, "//");
    (
        String::from_str(name),
        String::from_str(trim(value)),
        match comment {
            Some(c) => Some(String::from_str(trim(c))),
            None => None,
        },
    )
}

/// Some define of `defines` has the name `name`.
pub open spec fn has_name(defines: Seq<ConfigDefineView>, name: Seq<char>) -> bool {
    exists|i: int| 0 <= i < defines.len() && (#[trigger] defines[i]).name == name
}

fn lists_name(defines: &Vec<ConfigDefine>, name: &str) -> (b: bool)
    ensures
        b == has_name(define_views(defines@), name@),
{
    let mut i: usize = 0;
    while i < defines.len()
        invariant
            i <= defines@.len(),
            forall|k: int| 0 <= k < i ==> (#[trigger] define_views(defines@)[k]).name != name@,
        decreases defines@.len() - i,
    {
        if str_eq(defines[i].name.as_str(), name) {
            assert(define_views(defines@)[i as int].name == name@);
            return true;
        }
        i += 1;
    }
    false
}

/// The state of a scan: the conditionals that are open, and the defines found.
#[derive(Debug)]
pub struct Scan {
    pub stack: Vec<ConditionalFrame>,
    pub defines: Vec<ConfigDefine>,
    pub platform_conditional: StringMap<Vec<ConfigDefine>>,
}

/// A scan with its texts as sequences of characters.
pub struct ScanView {
    pub stack: Seq<FrameView>,
    pub defines: Seq<ConfigDefineView>,
    pub platform_conditional: Map<Seq<char>, Seq<ConfigDefineView>>,
}

impl View for Scan {
    type V = ScanView;

    open spec fn view(&self) -> ScanView {
        ScanView {
            stack: frame_views(self.stack@),
            defines: define_views(self.defines@),
            platform_conditional: platform_views(self.platform_conditional@),
        }
    }
}

impl ScanView {
    /// The scan before the first line.
    pub open spec fn start() -> ScanView {
        ScanView { stack: Seq::empty(), defines: Seq::empty(), platform_conditional: Map::empty() }
    }

    /// A conditional opened.
    pub open spec fn push(self, frame: FrameView) -> ScanView {
        ScanView { stack: self.stack.push(frame), ..self }
    }

    /// The innermost open conditional replaced; nothing where none is open.
    pub open spec fn replace_top(self, frame: FrameView) -> ScanView {
        if self.stack.len() > 0 {
            ScanView { stack: self.stack.drop_last().push(frame), ..self }
        } else {
            self
        }
    }

    /// The innermost open conditional closed; nothing where none is open.
    pub open spec fn pop(self) -> ScanView {
        if self.stack.len() > 0 {
            ScanView { stack: self.stack.drop_last(), ..self }
        } else {
            self
        }
    }

    /// The defines listed for `platform` so far.
    pub open spec fn listed_for(self, platform: Seq<char>) -> Seq<ConfigDefineView> {
        if self.platform_conditional.contains_key(platform) {
            self.platform_conditional[platform]
        } else {
            Seq::empty()
        }
    }

    /// A define entered where the open conditionals put it. The first define of
    /// a name in a list stays; a later one of the same name is dropped.
    pub open spec fn record(self, define: ConfigDefineView) -> ScanView {
        match platform_context(self.stack) {
            PlatformContext::Neutral => if has_name(self.defines, define.name) {
                self
            } else {
                ScanView {
                    defines: self.defines.push(ConfigDefineView { platform: None, ..define }),
                    ..self
                }
            },
            PlatformContext::Specific => {
                let platform = platform_name(self.stack)->0;
                if has_name(self.listed_for(platform), define.name) {
                    self
                } else {
                    ScanView {
                        platform_conditional: self.platform_conditional.insert(
                            platform,
                            self.listed_for(platform).push(
                                ConfigDefineView { platform: Some(platform), ..define },
                            ),
                        ),
                        ..self
                    }
                }
            },
            PlatformContext::Other => self,
        }
    }

    /// What a line that is no conditional does: a `#define` of a configurable
    /// name is recorded, anything else is passed over.
    pub open spec fn define_line(self, line: Seq<char>) -> ScanView {
        match first_captures(DEFINE_PATTERN@, line) {
            None => self,
            Some(groups) => {
                let (name, raw, comment) = define_parts_of(groups);
                if name.len() == 0 || !is_configurable(self.stack, name) {
                    self
                } else {
                    self.record(declared(name, raw, comment))
                }
            },
        }
    }

    /// The conditional that `#if` or `#elif` opens on `expr`.
    pub open spec fn frame_of_expr(expr: Seq<char>) -> FrameView {
        FrameView {
            platform: expr_platform(expr),
            platform_conditional: expr_names_platform(expr),
            ifndef_name: ifndef_of_expr(expr),
        }
    }

    /// What one line, trimmed and not blank, does to the scan.
    pub open spec fn scan_line(self, line: Seq<char>) -> ScanView {
        let directive = directive_of(line);
        if after_prefix(directive, "#ifdef"@) is Some {
            let name = first_token(after_prefix(directive, "#ifdef"@)->0);
            self.push(
                FrameView {
                    platform: platform_of_token(name),
                    platform_conditional: is_platform_name(name),
                    ifndef_name: None,
                },
            )
        } else if after_prefix(directive, "#ifndef"@) is Some {
            let name = first_token(after_prefix(directive, "#ifndef"@)->0);
            self.push(
                FrameView {
                    platform: None,
                    platform_conditional: false,
                    ifndef_name: if name.len() == 0 {
                        None
                    } else {
                        Some(name)
                    },
                },
            )
        } else if after_prefix(directive, "#elif"@) is Some {
            self.replace_top(Self::frame_of_expr(trimmed(after_prefix(directive, "#elif"@)->0)))
        } else if "#else"@.is_prefix_of(directive) {
            if self.stack.len() > 0 {
                self.replace_top(
                    FrameView { platform: None, ifndef_name: None, ..self.stack.last() },
                )
            } else {
                self
            }
        } else if "#endif"@.is_prefix_of(directive) {
            self.pop()
        } else if after_prefix(directive, "#if"@) is Some {
            self.push(Self::frame_of_expr(trimmed(after_prefix(directive, "#if"@)->0)))
        } else {
            self.define_line(line)
        }
    }

    /// The scan after the lines `lines`, in order.
    pub open spec fn scan_lines(self, lines: Seq<Seq<char>>) -> ScanView
        decreases lines.len(),
    {
        if lines.len() == 0 {
            self
        } else {
            self.scan_lines(lines.drop_last()).scan_line(lines.last())
        }
    }
}

/// What the header `content` declares.
pub open spec fn scanned(content: Seq<char>) -> ScanView {
    ScanView::start().scan_lines(content_lines(content))
}

impl Scan {
    /// The table of the platforms' defines is well-formed.
    pub open spec fn wf(&self) -> bool {
        self.platform_conditional.wf()
    }

    /// The scan before the first line.
    pub fn new() -> (scan: Self)
        ensures
            scan.wf(),
            scan@ == ScanView::start(),
    {
        let scan = Scan {
            stack: Vec::new(),
            defines: Vec::new(),
            platform_conditional: StringMap::new(),
        };
        assert(scan@.stack =~= Seq::empty());
        assert(scan@.defines =~= Seq::empty());
        assert(scan@.platform_conditional =~= Map::empty());
        scan
    }

    fn push(&mut self, frame: ConditionalFrame)
        requires
            old(self).wf(),
        ensures
            final(self).wf(),
            final(self)@ == old(self)@.push(frame@),
    {
        self.stack.push(frame);
        assert(self@.stack =~= old(self)@.stack.push(frame@));
    }

    fn replace_top(&mut self, frame: ConditionalFrame)
        requires
            old(self).wf(),
        ensures
            final(self).wf(),
            final(self)@ == old(self)@.replace_top(frame@),
    {
        if self.stack.len() > 0 {
            self.stack.pop();
            self.stack.push(frame);
            assert(self@.stack =~= old(self)@.stack.drop_last().push(frame@));
        }
    }

    fn pop(&mut self)
        requires
            old(self).wf(),
        ensures
            final(self).wf(),
            final(self)@ == old(self)@.pop(),
    {
        if self.stack.len() > 0 {
            self.stack.pop();
            assert(self@.stack =~= old(self)@.stack.drop_last());
        }
    }

    /// Enters `define` where the open conditionals put it.
    pub fn record(&mut self, define: ConfigDefine)
        requires
            old(self).wf(),
        ensures
            final(self).wf(),
            final(self)@ == old(self)@.record(define@),
    {
        match current_platform_context(&self.stack) {
            PlatformContext::Neutral => {
                if !lists_name(&self.defines, define.name.as_str()) {
                    let mut entry = define;
                    entry.platform = None;
                    self.defines.push(entry);
                    assert(self@.defines =~= old(self)@.defines.push(entry@));
                }
            },
            PlatformContext::Specific => {
                let platform = match current_platform_name(&self.stack) {
                    Some(p) => p,
                    None => {
                        return ;
                    },
                };
                let listed = match self.platform_conditional.get(platform.as_str()) {
                    Some(list) => lists_name(list, define.name.as_str()),
                    None => false,
                };
                if !listed {
                    let mut list = match self.platform_conditional.remove(platform.as_str()) {
                        Some(list) => list,
                        None => Vec::new(),
                    };
                    let ghost before = define_views(list@);
                    assert(before =~= old(self)@.listed_for(platform@));
                    let mut entry = define;
                    entry.platform = Some(platform.clone());
                    list.push(entry);
                    assert(define_views(list@) =~= before.push(entry@));
                    self.platform_conditional.insert(platform, list);
                    assert(self@.platform_conditional =~= old(self)@.record(
                        define@,
                    ).platform_conditional);
                }
            },
            PlatformContext::Other => {},
        }
    }

    /// Handles a line that is no conditional, given what `DEFINE_PATTERN` found
    /// in it.
    pub fn scan_define(&mut self, found: &Option<Groups>)
        requires
            old(self).wf(),
        ensures
            final(self).wf(),
            final(self)@ == (match *found {
                None => old(self)@,
                Some(groups) => {
                    let (name, raw, comment) = define_parts_of(groups_view(groups));
                    if name.len() == 0 || !is_configurable(old(self)@.stack, name) {
                        old(self)@
                    } else {
                        old(self)@.record(declared(name, raw, comment))
                    }
                },
            }),
    {
        let groups = match found {
            Some(groups) => groups,
            None => {
                return ;
            },
        };
        let (name, raw_value, comment) = define_parts(groups);
        if name.as_str().is_empty() || !is_configurable_define(&self.stack, name.as_str()) {
            return ;
        }
        let (value_type, enum_values, default_value) = parse_value(
            name.as_str(),
            raw_value.as_str(),
            &comment,
        );
        self.record(
            ConfigDefine {
                name,
                default_value,
                value_type,
                enum_values,
                platform: None,
                description: comment,
            },
        );
    }

    /// Handles one line of the header, trimmed and not blank.
    pub fn scan_line(&mut self, line: &str)
        requires
            old(self).wf(),
        ensures
            final(self).wf(),
            final(self)@ == old(self)@.scan_line(line@),
    {
        let directive = strip_inline_comment(line);
        match strip_prefix(directive, "#ifdef") {
            Some(rest) => {
                let name = first_token_of(rest);
                let platform = extract_platform_from_tokens(name);
                let named = platform.is_some();
                self.push(
                    ConditionalFrame { platform, platform_conditional: named, ifndef_name: None },
                );
                return ;
            },
            None => {},
        }
        match strip_prefix(directive, "#ifndef") {
            Some(rest) => {
                let name = first_token_of(rest);
                let ifndef_name = if name.is_empty() {
                    None
                } else {
                    Some(String::from_str(name))
                };
                self.push(
                    ConditionalFrame { platform: None, platform_conditional: false, ifndef_name },
                );
                return ;
            },
            None => {},
        }
        match strip_prefix(directive, "#elif") {
            Some(rest) => {
                let expr = trim(rest);
                let (platform, platform_conditional) = extract_platform_from_expr(expr);
                let ifndef_name = extract_ifndef_from_expr(expr);
                self.replace_top(ConditionalFrame { platform, platform_conditional, ifndef_name });
                return ;
            },
            None => {},
        }
        if starts_with(directive, "#else") {
            let n = self.stack.len();
            if n > 0 {
                let platform_conditional = self.stack[n - 1].platform_conditional;
                assert(old(self)@.stack.last() == self.stack@[n - 1]@);
                self.replace_top(
                    ConditionalFrame { platform: None, platform_conditional, ifndef_name: None },
                );
            }
            return ;
        }
        if starts_with(directive, "#endif") {
            self.pop();
            return ;
        }
        match strip_prefix(directive, "#if") {
            Some(rest) => {
                let expr = trim(rest);
                let (platform, platform_conditional) = extract_platform_from_expr(expr);
                let ifndef_name = extract_ifndef_from_expr(expr);
                self.push(ConditionalFrame { platform, platform_conditional, ifndef_name });
                return ;
            },
            None => {},
        }
        let found = captures(DEFINE_PATTERN, line);
        self.scan_define(&found);
    }
}

/// Reads the configurable defines of a header: those common to all platforms,
/// and those of each platform.
pub fn extract_config_defines(content: &str) -> (r: Result<
    (Vec<ConfigDefine>, StringMap<Vec<ConfigDefine>>),
    String,
>)
    ensures
        r is Ok,
        r->Ok_0.1.wf(),
        define_views(r->Ok_0.0@) == scanned(content@).defines,
        platform_views(r->Ok_0.1@) == scanned(content@).platform_conditional,
{
    let lines = trimmed_lines(content);
    let ghost all = content_lines(content@);
    let mut scan = Scan::new();
    let mut i: usize = 0;
    assert(all.take(0) =~= Seq::<Seq<char>>::empty());
    while i < lines.len()
        invariant
            i <= lines@.len(),
            all == views(lines@),
            scan.wf(),
            scan@ == ScanView::start().scan_lines(all.take(i as int)),
        decreases lines@.len() - i,
    {
        proof {
            assert(all.take(i as int + 1).drop_last() =~= all.take(i as int));
            assert(all.take(i as int + 1).last() == lines@[i as int]@);
        }
        scan.scan_line(lines[i].as_str());
        i += 1;
    }
    assert(all.take(lines@.len() as int) =~= all);
    Ok((scan.defines, scan.platform_conditional))
}

/// What was found where an application's `config.h` should be.
#[derive(Debug)]
pub enum ConfigSource {
    /// No such file.
    Absent,
    /// A file that could not be read: the error's text.
    Unreadable(String),
    /// The file's text.
    Content(String),
}

/// The schema of an application without a configuration header.
pub open spec fn no_config() -> SchemaView {
    SchemaView { has_config: false, defines: Seq::empty(), platform_conditional: Map::empty() }
}

/// Parses a `config.h` to extract its configurable defines. An application
/// without the file has no configuration, which is no error.
pub fn parse_config_schema(source: &ConfigSource) -> (r: Result<AppConfigSchema, String>)
    ensures
        match *source {
            ConfigSource::Absent => r is Ok && r->Ok_0@ == no_config(),
            ConfigSource::Unreadable(e) => r is Err && r->Err_0@ == "Failed to read config.h: "@
                + e@,
            ConfigSource::Content(text) => r is Ok && r->Ok_0@ == (SchemaView {
                has_config: true,
                defines: scanned(text@).defines,
                platform_conditional: scanned(text@).platform_conditional,
            }),
        },
        r is Ok ==> r->Ok_0.platform_conditional.wf(),
{
    match source {
        ConfigSource::Absent => {
            let schema = AppConfigSchema {
                has_config: false,
                defines: Vec::new(),
                platform_conditional: StringMap::new(),
            };
            assert(schema@.defines =~= Seq::empty());
            assert(schema@.platform_conditional =~= Map::empty());
            Ok(schema)
        },
        ConfigSource::Unreadable(e) => Err(
            crate::text::concat2("Failed to read config.h: ", e.as_str()),
        ),
        ConfigSource::Content(text) => {
            match extract_config_defines(text.as_str()) {
                Ok((defines, platform_conditional)) => Ok(
                    AppConfigSchema { has_config: true, defines, platform_conditional },
                ),
                Err(e) => Err(e),
            }
        },
    }
}

/// The names of `defines` differ from one another.
pub open spec fn distinct_names(defines: Seq<ConfigDefineView>) -> bool {
    forall|i: int, j: int| 0 <= i < j < defines.len() ==> defines[i].name != defines[j].name
}

impl ScanView {
    /// No list holds a name twice; the common defines belong to no platform; and
    /// each platform has a list only if it has a define, and its defines say so.
    pub open spec fn consistent(self) -> bool {
        &&& distinct_names(self.defines)
        &&& forall|i: int| 0 <= i < self.defines.len() ==> (#[trigger] self.defines[i]).platform is None
        &&& forall|p: Seq<char>| #[trigger]
            self.platform_conditional.contains_key(p) ==> {
                &&& self.platform_conditional[p].len() > 0
                &&& distinct_names(self.platform_conditional[p])
                &&& forall|i: int|
                    0 <= i < self.platform_conditional[p].len() ==> (
                    #[trigger] self.platform_conditional[p][i]).platform == Some(p)
            }
    }
}

proof fn lemma_push_distinct(defines: Seq<ConfigDefineView>, define: ConfigDefineView)
    requires
        distinct_names(defines),
        !has_name(defines, define.name),
    ensures
        distinct_names(defines.push(define)),
{
    let grown = defines.push(define);
    assert forall|i: int, j: int| 0 <= i < j < grown.len() implies grown[i].name
        != grown[j].name by {
        if j == defines.len() {
            assert(defines[i].name != define.name);
        }
    }
}

/// Recording a define keeps the scan consistent.
pub proof fn lemma_record_consistent(scan: ScanView, define: ConfigDefineView)
    requires
        scan.consistent(),
    ensures
        scan.record(define).consistent(),
{
    let after = scan.record(define);
    match platform_context(scan.stack) {
        PlatformContext::Neutral => {
            if !has_name(scan.defines, define.name) {
                lemma_push_distinct(scan.defines, ConfigDefineView { platform: None, ..define });
            }
        },
        PlatformContext::Specific => {
            let platform = platform_name(scan.stack)->0;
            let listed = scan.listed_for(platform);
            if !has_name(listed, define.name) {
                let entry = ConfigDefineView { platform: Some(platform), ..define };
                lemma_push_distinct(listed, entry);
                assert forall|p: Seq<char>| #[trigger]
                    after.platform_conditional.contains_key(p) implies {
                    &&& after.platform_conditional[p].len() > 0
                    &&& distinct_names(after.platform_conditional[p])
                    &&& forall|i: int|
                        0 <= i < after.platform_conditional[p].len() ==> (
                        #[trigger] after.platform_conditional[p][i]).platform == Some(p)
                } by {
                    if p != platform {
                        assert(scan.platform_conditional.contains_key(p));
                    }
                }
            }
        },
        PlatformContext::Other => {},
    }
}

/// Whatever the header holds, the scan of it is consistent.
pub proof fn lemma_scan_consistent(content: Seq<char>)
    ensures
        scanned(content).consistent(),
{
    lemma_scan_lines_consistent(content_lines(content));
}

proof fn lemma_scan_lines_consistent(lines: Seq<Seq<char>>)
    ensures
        ScanView::start().scan_lines(lines).consistent(),
    decreases lines.len(),
{
    if lines.len() > 0 {
        lemma_scan_lines_consistent(lines.drop_last());
        let before = ScanView::start().scan_lines(lines.drop_last());
        let line = lines.last();
        match first_captures(DEFINE_PATTERN@, line) {
            Some(groups) => {
                let (name, raw, comment) = define_parts_of(groups);
                lemma_record_consistent(before, declared(name, raw, comment));
            },
            None => {},
        }
    }
}

} // verus!
