//! Audio books from Markdown: the text pipeline that prepares a chapter for
//! speech synthesis, the decisions of the synthesis client, and the engine
//! that joins the audio fragments of a chapter into one playable file.
//! Every function states what it returns. The statements are proved, except
//! those on the calls into the `regex` and `base64` crates and on
//! `String::push`, which are taken on trust.

pub mod le;
pub mod wav;
pub mod roundtrip;
pub mod merge;
pub mod merge_theorems;
pub mod silence;
pub mod text;
pub mod mime;
pub mod lines;
pub mod chunking;
pub mod dispatch;
pub mod retry;
pub mod fences;
pub mod json;
pub mod pattern;
pub mod anchors;
pub mod sanitize;
pub mod includes;
pub mod tts;
