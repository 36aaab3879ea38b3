//! The synthesis service's JSON responses, as far as the client reads them:
//! a plain model of a JSON value, and the search for the text or the inline
//! audio of the first candidate that carries one.

use vstd::prelude::*;
use crate::text::same_text;

verus! {

/// A JSON value. Numbers are not read here and carry nothing.
pub enum Json {
    Null,
    Bool(bool),
    Number,
    Text(String),
    Array(Vec<Json>),
    /// The members of an object, each key once.
    Object(Vec<(String, Json)>),
}

/// The inline audio of a response: its base64 text and its MIME type.
pub struct InlineAudio<'a> {
    pub data: &'a str,
    pub mime: &'a str,
}

/// The MIME type assumed for inline data that names none.
pub open spec fn default_inline_mime() -> Seq<char> {
    "application/octet-stream"@
}

/// The first member at or after `from` whose key is `key`.
pub open spec fn member_from(entries: Seq<(String, Json)>, key: Seq<char>, from: int) -> Option<
    Json,
>
    decreases entries.len() - from,
{
    if from < 0 || from >= entries.len() {
        None
    } else if entries[from].0@ == key {
        Some(entries[from].1)
    } else {
        member_from(entries, key, from + 1)
    }
}

/// The member `key` of an object; nothing for a missing key or another value.
pub open spec fn member(v: Json, key: Seq<char>) -> Option<Json> {
    match v {
        Json::Object(entries) => member_from(entries@, key, 0),
        _ => None,
    }
}

/// The characters of a JSON string; nothing for another value.
pub open spec fn text_of(v: Option<Json>) -> Option<Seq<char>> {
    match v {
        Some(Json::Text(s)) => Some(s@),
        _ => None,
    }
}

/// The elements of a JSON array; nothing for another value.
pub open spec fn elements_of(v: Option<Json>) -> Option<Seq<Json>> {
    match v {
        Some(Json::Array(items)) => Some(items@),
        _ => None,
    }
}

/// The parts of a candidate: the array `content.parts`.
pub open spec fn parts_of(candidate: Json) -> Option<Seq<Json>> {
    match member(candidate, "content"@) {
        Some(content) => elements_of(member(content, "parts"@)),
        None => None,
    }
}

/// The first non-empty `text` among the parts from `from` on.
pub open spec fn text_in_parts(parts: Seq<Json>, from: int) -> Option<Seq<char>>
    decreases parts.len() - from,
{
    if from < 0 || from >= parts.len() {
        None
    } else {
        match text_of(member(parts[from], "text"@)) {
            Some(t) => if t.len() > 0 {
                Some(t)
            } else {
                text_in_parts(parts, from + 1)
            },
            None => text_in_parts(parts, from + 1),
        }
    }
}

/// The first text among the candidates from `from` on. A candidate without
/// parts ends the search without a result.
pub open spec fn text_in_candidates(candidates: Seq<Json>, from: int) -> Option<Seq<char>>
    decreases candidates.len() - from,
{
    if from < 0 || from >= candidates.len() {
        None
    } else {
        match parts_of(candidates[from]) {
            None => None,
            Some(parts) => match text_in_parts(parts, 0) {
                Some(t) => Some(t),
                None => text_in_candidates(candidates, from + 1),
            },
        }
    }
}

/// The first text of a response.
pub open spec fn first_text(response: Json) -> Option<Seq<char>> {
    match elements_of(member(response, "candidates"@)) {
        Some(candidates) => text_in_candidates(candidates, 0),
        None => None,
    }
}

/// What a scan of parts or candidates came to.
pub enum Scan<T> {
    /// This was found.
    Found(T),
    /// Nothing here; the search goes on.
    Nothing,
    /// The response is not of the expected shape; the search ends.
    Broken,
}

/// The inline audio in an object under the given names: its `data` must be
/// a string, else the search ends; its MIME type falls back to the default.
pub open spec fn audio_in(inline: Json, mime_key: Seq<char>) -> Scan<(Seq<char>, Seq<char>)> {
    match text_of(member(inline, "data"@)) {
        None => Scan::Broken,
        Some(data) => Scan::Found(
            (
                data,
                match text_of(member(inline, mime_key)) {
                    Some(mime) => mime,
                    None => default_inline_mime(),
                },
            ),
        ),
    }
}

/// The inline audio of a part: under `inlineData` with `mimeType`, else
/// under `inline_data` with `mime_type`.
pub open spec fn audio_in_part(part: Json) -> Scan<(Seq<char>, Seq<char>)> {
    match member(part, "inlineData"@) {
        Some(inline) => audio_in(inline, "mimeType"@),
        None => match member(part, "inline_data"@) {
            Some(inline) => audio_in(inline, "mime_type"@),
            None => Scan::Nothing,
        },
    }
}

/// The first inline audio among the parts from `from` on.
pub open spec fn audio_in_parts(parts: Seq<Json>, from: int) -> Scan<(Seq<char>, Seq<char>)>
    decreases parts.len() - from,
{
    if from < 0 || from >= parts.len() {
        Scan::Nothing
    } else {
        match audio_in_part(parts[from]) {
            Scan::Nothing => audio_in_parts(parts, from + 1),
            other => other,
        }
    }
}

/// The first inline audio among the candidates from `from` on. A candidate
/// without parts ends the search without a result.
pub open spec fn audio_in_candidates(candidates: Seq<Json>, from: int) -> Option<
    (Seq<char>, Seq<char>),
>
    decreases candidates.len() - from,
{
    if from < 0 || from >= candidates.len() {
        None
    } else {
        match parts_of(candidates[from]) {
            None => None,
            Some(parts) => match audio_in_parts(parts, 0) {
                Scan::Found(found) => Some(found),
                Scan::Broken => None,
                Scan::Nothing => audio_in_candidates(candidates, from + 1),
            },
        }
    }
}

/// The first inline audio of a response.
pub open spec fn first_inline_audio(response: Json) -> Option<(Seq<char>, Seq<char>)> {
    match elements_of(member(response, "candidates"@)) {
        Some(candidates) => audio_in_candidates(candidates, 0),
        None => None,
    }
}

impl Json {
    /// The member `key` of an object.
    #[verifier::loop_isolation(false)]
    pub fn get(&self, key: &str) -> (r: Option<&Json>)
        ensures
            match r {
                Some(found) => member(*self, key@) == Some(*found),
                None => member(*self, key@) is None,
            },
    {
        match self {
            Json::Object(entries) => {
                let n: usize = entries.len();
                let mut i: usize = 0;
                while i < n
                    invariant
                        n == entries@.len(),
                        i <= n,
                        member_from(entries@, key@, 0) == member_from(entries@, key@, i as int),
                    decreases n - i,
                {
                    if same_text(entries[i].0.as_str(), key) {
                        return Some(&entries[i].1);
                    }
                    i = i + 1;
                }
                None
            },
            _ => None,
        }
    }

    /// The characters of a JSON string.
    pub fn as_str(&self) -> (r: Option<&str>)
        ensures
            match r {
                Some(s) => text_of(Some(*self)) == Some(s@),
                None => text_of(Some(*self)) is None,
            },
    {
        match self {
            Json::Text(s) => Some(s.as_str()),
            _ => None,
        }
    }

    /// The elements of a JSON array.
    pub fn as_array(&self) -> (r: Option<&Vec<Json>>)
        ensures
            match r {
                Some(items) => elements_of(Some(*self)) == Some(items@),
                None => elements_of(Some(*self)) is None,
            },
    {
        match self {
            Json::Array(items) => Some(items),
            _ => None,
        }
    }
}

/// The string member `key` of an object.
fn text_member<'a>(v: &'a Json, key: &str) -> (r: Option<&'a str>)
    ensures
        match r {
            Some(s) => text_of(member(*v, key@)) == Some(s@),
            None => text_of(member(*v, key@)) is None,
        },
{
    match v.get(key) {
        Some(found) => found.as_str(),
        None => None,
    }
}

/// The array `content.parts` of a candidate.
fn candidate_parts(candidate: &Json) -> (r: Option<&Vec<Json>>)
    ensures
        match r {
            Some(parts) => parts_of(*candidate) == Some(parts@),
            None => parts_of(*candidate) is None,
        },
{
    match candidate.get("content") {
        None => None,
        Some(content) => match content.get("parts") {
            Some(parts) => parts.as_array(),
            None => None,
        },
    }
}

/// The candidates of a response.
fn candidates_of(response: &Json) -> (r: Option<&Vec<Json>>)
    ensures
        match r {
            Some(items) => elements_of(member(*response, "candidates"@)) == Some(items@),
            None => elements_of(member(*response, "candidates"@)) is None,
        },
{
    match response.get("candidates") {
        Some(found) => found.as_array(),
        None => None,
    }
}

/// The first non-empty text of any part of the response's candidates, in
/// order.
#[verifier::loop_isolation(false)]
pub fn extract_first_text(response: &Json) -> (r: Option<&str>)
    ensures
        match r {
            Some(t) => first_text(*response) == Some(t@),
            None => first_text(*response) is None,
        },
{
    let candidates: &Vec<Json> = match candidates_of(response) {
        Some(items) => items,
        None => {
            return None;
        },
    };
    let n: usize = candidates.len();
    let mut i: usize = 0;
    while i < n
        invariant
            n == candidates@.len(),
            i <= n,
            first_text(*response) == text_in_candidates(candidates@, i as int),
        decreases n - i,
    {
        let parts: &Vec<Json> = match candidate_parts(&candidates[i]) {
            Some(parts) => parts,
            None => {
                return None;
            },
        };
        let m: usize = parts.len();
        let mut j: usize = 0;
        while j < m
            invariant
                m == parts@.len(),
                j <= m,
                text_in_parts(parts@, 0) == text_in_parts(parts@, j as int),
            decreases m - j,
        {
            match text_member(&parts[j], "text") {
                Some(t) => {
                    if !t.is_empty() {
                        return Some(t);
                    }
                },
                None => {},
            }
            j = j + 1;
        }
        i = i + 1;
    }
    None
}

/// The inline audio in an object under the given names.
fn inline_audio_in<'a>(inline: &'a Json, mime_key: &str) -> (r: Scan<InlineAudio<'a>>)
    ensures
        match r {
            Scan::Found(found) => audio_in(*inline, mime_key@) == Scan::Found(
                (found.data@, found.mime@),
            ),
            Scan::Nothing => false,
            Scan::Broken => audio_in(*inline, mime_key@) is Broken,
        },
{
    match text_member(inline, "data") {
        None => Scan::Broken,
        Some(data) => {
            let mime: &str = match text_member(inline, mime_key) {
                Some(mime) => mime,
                None => "application/octet-stream",
            };
            Scan::Found(InlineAudio { data, mime })
        },
    }
}

/// The inline audio of a part.
fn inline_audio_in_part(part: &Json) -> (r: Scan<InlineAudio<'_>>)
    ensures
        match r {
            Scan::Found(found) => audio_in_part(*part) == Scan::Found((found.data@, found.mime@)),
            Scan::Nothing => audio_in_part(*part) is Nothing,
            Scan::Broken => audio_in_part(*part) is Broken,
        },
{
    match part.get("inlineData") {
        Some(inline) => inline_audio_in(inline, "mimeType"),
        None => match part.get("inline_data") {
            Some(inline) => inline_audio_in(inline, "mime_type"),
            None => Scan::Nothing,
        },
    }
}

/// The inline audio of the first part, of any of the response's candidates
/// in order, that carries one.
#[verifier::loop_isolation(false)]
pub fn extract_audio_inline_data(response: &Json) -> (r: Option<InlineAudio<'_>>)
    ensures
        match r {
            Some(found) => first_inline_audio(*response) == Some((found.data@, found.mime@)),
            None => first_inline_audio(*response) is None,
        },
{
    let candidates: &Vec<Json> = match candidates_of(response) {
        Some(items) => items,
        None => {
            return None;
        },
    };
    let n: usize = candidates.len();
    let mut i: usize = 0;
    while i < n
        invariant
            n == candidates@.len(),
            i <= n,
            first_inline_audio(*response) == audio_in_candidates(candidates@, i as int),
        decreases n - i,
    {
        let parts: &Vec<Json> = match candidate_parts(&candidates[i]) {
            Some(parts) => parts,
            None => {
                return None;
            },
        };
        let m: usize = parts.len();
        let mut j: usize = 0;
        while j < m
            invariant
                m == parts@.len(),
                j <= m,
                audio_in_parts(parts@, 0) == audio_in_parts(parts@, j as int),
            decreases m - j,
        {
            match inline_audio_in_part(&parts[j]) {
                Scan::Found(found) => {
                    return Some(found);
                },
                Scan::Broken => {
                    return None;
                },
                Scan::Nothing => {},
            }
            j = j + 1;
        }
        i = i + 1;
    }
    None
}

} // verus!
