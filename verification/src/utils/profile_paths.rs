//! Names of saved profiles: what may stand in a file name, and the file name.

use crate::text::{
    char_is_ascii_alphanumeric, concat3, contains_char, contains_seq, is_ascii_alphanumeric,
    to_chars, trim, trimmed,
};
use vstd::prelude::*;

verus! {

/// The most bytes a component of a profile's file name may take.
pub const MAX_COMPONENT_BYTES: usize = 50;

/// A character that every file system takes in a file name.
pub open spec fn is_portable_char(c: char) -> bool {
    is_ascii_alphanumeric(c) || c == ' ' || c == '_' || c == '-' || c == '.'
}

/// Every character of `s` is one that every file system takes.
pub open spec fn all_portable(s: Seq<char>) -> bool {
    forall|i: int| 0 <= i < s.len() ==> is_portable_char(#[trigger] s[i])
}

/// A name that could lead out of the directory it is meant for.
pub open spec fn has_traversal(s: Seq<char>) -> bool {
    contains_seq(s, ".."@) || s.contains('/') || s.contains('\\') || s.contains('\0')
}

/// Why `value`, trimmed, is no component of a profile's file name, if it is none.
/// `label` says in the message what the value is.
pub open spec fn profile_component_error(label: Seq<char>, value: Seq<char>) -> Option<Seq<char>> {
    let kept = trimmed(value);
    if kept.len() == 0 {
        Some("Invalid "@ + label + ": empty or whitespace-only"@)
    } else if vstd::utf8::encode_utf8(kept).len() > MAX_COMPONENT_BYTES {
        Some("Invalid "@ + label + ": too long (max "@ + crate::text::decimal(
            MAX_COMPONENT_BYTES as nat,
        ) + " characters)"@)
    } else if !all_portable(kept) {
        Some("Invalid "@ + label + ": use letters, numbers, spaces, '.', '_', or '-'"@)
    } else if has_traversal(kept) {
        Some("Invalid "@ + label + ": contains path traversal characters"@)
    } else {
        None
    }
}

/// Sanitizes a profile identifier to prevent path traversal: on success, the
/// value without the whitespace around it.
pub fn sanitize_profile_component(label: &str, value: &str) -> (r: Result<String, String>)
    ensures
        match r {
            Ok(s) => profile_component_error(label@, value@) is None && s@ == trimmed(value@),
            Err(e) => profile_component_error(label@, value@) == Some(e@),
        },
{
    let kept = trim(value);
    if kept.is_empty() {
        return Err(concat3("Invalid ", label, ": empty or whitespace-only"));
    }
    if kept.as_bytes().len() > MAX_COMPONENT_BYTES {
        let mut message = concat3("Invalid ", label, ": too long (max ");
        let limit = crate::text::to_decimal(MAX_COMPONENT_BYTES as u64);
        message.append(limit.as_str());
        message.append(" characters)");
        return Err(message);
    }
    let chars = to_chars(kept);
    let mut i: usize = 0;
    while i < chars.len()
        invariant
            i <= chars@.len(),
            chars@ == trimmed(value@),
            trimmed(value@).len() > 0,
            vstd::utf8::encode_utf8(trimmed(value@)).len() <= MAX_COMPONENT_BYTES,
            forall|k: int| 0 <= k < i ==> is_portable_char(#[trigger] chars@[k]),
        decreases chars@.len() - i,
    {
        let c = chars[i];
        if !(char_is_ascii_alphanumeric(c) || c == ' ' || c == '_' || c == '-' || c == '.') {
            return Err(
                concat3("Invalid ", label, ": use letters, numbers, spaces, '.', '_', or '-'"),
            );
        }
        i += 1;
    }
    if crate::text::str_contains(kept, "..") || contains_char(&chars, '/') || contains_char(
        &chars,
        '\\',
    ) || contains_char(&chars, '\0') {
        return Err(concat3("Invalid ", label, ": contains path traversal characters"));
    }
    Ok(String::from_str(kept))
}

/// The file name of a profile: the two names, trimmed, then `.json`.
pub open spec fn profile_filename(app: Seq<char>, profile: Seq<char>) -> Seq<char> {
    trimmed(app) + "_"@ + trimmed(profile) + ".json"@
}

/// Builds a profile filename from app/profile names after sanitization.
pub fn build_profile_filename(app_name: &str, profile_name: &str) -> (r: Result<String, String>)
    ensures
        match r {
            Ok(name) => profile_component_error("app name"@, app_name@) is None
                && profile_component_error("profile name"@, profile_name@) is None && name@
                == profile_filename(app_name@, profile_name@),
            Err(e) => Some(e@) == (if profile_component_error("app name"@, app_name@) is Some {
                profile_component_error("app name"@, app_name@)
            } else {
                profile_component_error("profile name"@, profile_name@)
            }),
        },
{
    let app = match sanitize_profile_component("app name", app_name) {
        Ok(s) => s,
        Err(e) => {
            return Err(e);
        },
    };
    let profile = match sanitize_profile_component("profile name", profile_name) {
        Ok(s) => s,
        Err(e) => {
            return Err(e);
        },
    };
    let mut name = concat3(app.as_str(), "_", profile.as_str());
    name.append(".json");
    Ok(name)
}

/// A component that is accepted holds no path separator and no NUL, and no two
/// dots in a row: a file name built from accepted components names a file in
/// the directory it is joined to.
pub proof fn lemma_accepted_component_stays_inside(label: Seq<char>, value: Seq<char>)
    requires
        profile_component_error(label, value) is None,
    ensures
        !trimmed(value).contains('/'),
        !trimmed(value).contains('\\'),
        !trimmed(value).contains('\0'),
        !contains_seq(trimmed(value), ".."@),
        trimmed(value).len() > 0,
{
}

} // verus!
