//! Cutting a long text into pieces of bounded length for synthesis, at
//! paragraph breaks where there are any, else at sentence ends.

use vstd::prelude::*;
use crate::lines::{string_of, texts};
use crate::text::chars_of;

verus! {

/// A character that ends a sentence.
pub open spec fn is_sentence_end(c: char) -> bool {
    c == '.' || c == '!' || c == '?'
}

/// A run of newlines begins at `i`, looking no further back than `start`.
pub open spec fn run_starts_at(chars: Seq<char>, start: int, i: int) -> bool {
    chars[i] == '\n' && (i == start || chars[i - 1] != '\n')
}

/// Where the last run of newlines in `start..end` begins.
pub open spec fn last_break(chars: Seq<char>, start: int, end: int) -> Option<int>
    decreases end - start,
{
    if end <= start {
        None
    } else if run_starts_at(chars, start, end - 1) {
        Some(end - 1)
    } else {
        last_break(chars, start, end - 1)
    }
}

/// The last sentence end in `start..end`.
pub open spec fn last_sentence_end(chars: Seq<char>, start: int, end: int) -> Option<int>
    decreases end - start,
{
    if end <= start {
        None
    } else if is_sentence_end(chars[end - 1]) {
        Some(end - 1)
    } else {
        last_sentence_end(chars, start, end - 1)
    }
}

/// As far as a piece starting at `start` may reach: `max` characters, or the
/// end of the text.
pub open spec fn reach(chars: Seq<char>, start: int, max: int) -> int {
    if start + max < chars.len() {
        start + max
    } else {
        chars.len() as int
    }
}

/// Where the piece that starts at `start` ends. The last piece takes what is
/// left. Any other piece ends just after the newline that begins the last run
/// of newlines within reach; without one, just after the last sentence end
/// within reach; without that either, at the limit of its reach.
pub open spec fn piece_end(chars: Seq<char>, start: int, max: int) -> int {
    let limit = reach(chars, start, max);
    if limit >= chars.len() {
        limit
    } else {
        match last_break(chars, start, limit) {
            Some(at) => at + 1,
            None => match last_sentence_end(chars, start, limit) {
                Some(at) => at + 1,
                None => limit,
            },
        }
    }
}

/// The pieces of the text from `start` on.
pub open spec fn pieces_from(chars: Seq<char>, start: int, max: int) -> Seq<Seq<char>>
    decreases chars.len() - start,
{
    let end = piece_end(chars, start, max);
    if start < 0 || start >= chars.len() || end <= start || end > chars.len() {
        Seq::empty()
    } else {
        seq![chars.subrange(start, end)] + pieces_from(chars, end, max)
    }
}

/// The pieces of a text under a limit of `max` characters: the text itself
/// where it is within the limit, else its pieces from the start.
pub open spec fn pieces(chars: Seq<char>, max: int) -> Seq<Seq<char>> {
    if chars.len() <= max {
        seq![chars]
    } else {
        pieces_from(chars, 0, max)
    }
}

/// What the search for a break finds lies in the range searched.
pub proof fn lemma_last_break_in_range(chars: Seq<char>, start: int, end: int)
    ensures
        last_break(chars, start, end) matches Some(at) ==> start <= at < end,
    decreases end - start,
{
    if end > start && !run_starts_at(chars, start, end - 1) {
        lemma_last_break_in_range(chars, start, end - 1);
    }
}

/// What the search for a sentence end finds lies in the range searched.
pub proof fn lemma_last_sentence_end_in_range(chars: Seq<char>, start: int, end: int)
    ensures
        last_sentence_end(chars, start, end) matches Some(at) ==> start <= at < end,
    decreases end - start,
{
    if end > start && !is_sentence_end(chars[end - 1]) {
        lemma_last_sentence_end_in_range(chars, start, end - 1);
    }
}

/// A piece is not empty and not longer than the limit.
pub proof fn lemma_piece_bounds(chars: Seq<char>, start: int, max: int)
    requires
        0 <= start < chars.len(),
        max > 0,
    ensures
        start < piece_end(chars, start, max) <= chars.len(),
        piece_end(chars, start, max) - start <= max,
{
    let limit = reach(chars, start, max);
    lemma_last_break_in_range(chars, start, limit);
    lemma_last_sentence_end_in_range(chars, start, limit);
}

/// The pieces from `start` on, joined, are the text from `start` on: nothing
/// is lost, repeated or reordered.
pub proof fn lemma_pieces_from_cover(chars: Seq<char>, start: int, max: int)
    requires
        0 <= start <= chars.len(),
        max > 0,
    ensures
        pieces_from(chars, start, max).flatten() == chars.skip(start),
    decreases chars.len() - start,
{
    if start < chars.len() {
        lemma_piece_bounds(chars, start, max);
        let end = piece_end(chars, start, max);
        let first = chars.subrange(start, end);
        let rest = pieces_from(chars, end, max);
        lemma_pieces_from_cover(chars, end, max);
        assert((seq![first] + rest).drop_first() =~= rest);
        assert((seq![first] + rest).flatten() == first + rest.flatten());
        assert(first + chars.skip(end) =~= chars.skip(start));
    } else {
        assert(chars.skip(start) =~= Seq::<char>::empty());
    }
}

/// The pieces of a text, joined, are the text.
pub proof fn lemma_pieces_cover(chars: Seq<char>, max: int)
    requires
        max > 0 || chars.len() == 0,
    ensures
        pieces(chars, max).flatten() == chars,
{
    if chars.len() <= max {
        seq![chars].lemma_flatten_one_element();
    } else if max > 0 {
        lemma_pieces_from_cover(chars, 0, max);
        assert(chars.skip(0) =~= chars);
    } else {
        assert(pieces_from(chars, 0, max).flatten() =~= chars);
    }
}

/// Every piece of a text that exceeds the limit has between one and `max`
/// characters.
pub proof fn lemma_pieces_from_bounded(chars: Seq<char>, start: int, max: int, k: int)
    requires
        0 <= start,
        max > 0,
        0 <= k < pieces_from(chars, start, max).len(),
    ensures
        0 < pieces_from(chars, start, max)[k].len() <= max,
    decreases chars.len() - start,
{
    if start < chars.len() {
        lemma_piece_bounds(chars, start, max);
        let end = piece_end(chars, start, max);
        if k > 0 {
            lemma_pieces_from_bounded(chars, end, max, k - 1);
        }
    }
}

/// Where the last run of newlines in `start..end` begins.
fn find_last_break(chars: &[char], start: usize, end: usize) -> (r: Option<usize>)
    requires
        start <= end <= chars@.len(),
    ensures
        match r {
            Some(at) => last_break(chars@, start as int, end as int) == Some(at as int),
            None => last_break(chars@, start as int, end as int) is None,
        },
{
    let mut i: usize = end;
    while i > start
        invariant
            start <= i <= end <= chars@.len(),
            last_break(chars@, start as int, end as int) == last_break(
                chars@,
                start as int,
                i as int,
            ),
        decreases i,
    {
        let at: usize = i - 1;
        if chars[at] == '\n' && (at == start || chars[at - 1] != '\n') {
            return Some(at);
        }
        i = at;
    }
    None
}

/// The last sentence end in `start..end`.
fn find_last_sentence_end(chars: &[char], start: usize, end: usize) -> (r: Option<usize>)
    requires
        start <= end <= chars@.len(),
    ensures
        match r {
            Some(at) => last_sentence_end(chars@, start as int, end as int) == Some(at as int),
            None => last_sentence_end(chars@, start as int, end as int) is None,
        },
{
    let mut i: usize = end;
    while i > start
        invariant
            start <= i <= end <= chars@.len(),
            last_sentence_end(chars@, start as int, end as int) == last_sentence_end(
                chars@,
                start as int,
                i as int,
            ),
        decreases i,
    {
        let at: usize = i - 1;
        let c: char = chars[at];
        if c == '.' || c == '!' || c == '?' {
            return Some(at);
        }
        i = at;
    }
    None
}

/// Cuts `input` into pieces of at most `max_chars` characters each; a text
/// within the limit stays whole. With a limit of zero only the empty text can
/// be cut.
pub fn split_into_chunks_by_paragraph(input: &str, max_chars: usize) -> (chunks: Vec<String>)
    requires
        max_chars > 0 || input@.len() == 0,
    ensures
        texts(chunks@) == pieces(input@, max_chars as int),
{
    let chars: Vec<char> = chars_of(input);
    let total: usize = chars.len();
    let mut chunks: Vec<String> = Vec::new();
    if total <= max_chars {
        chunks.push(string_of(chars.as_slice(), 0, total));
        proof {
            assert(chars@.subrange(0, total as int) =~= input@);
            assert(texts(chunks@) =~= seq![input@]);
        }
        return chunks;
    }
    let mut start: usize = 0;
    let ghost done: Seq<Seq<char>> = Seq::empty();
    proof {
        assert(texts(chunks@) =~= done);
    }
    while start < total
        invariant
            chars@ == input@,
            total == chars@.len(),
            max_chars > 0,
            start <= total,
            texts(chunks@) == done,
            done + pieces_from(chars@, start as int, max_chars as int) == pieces_from(
                chars@,
                0,
                max_chars as int,
            ),
        decreases total - start,
    {
        let limit: usize = if max_chars < total - start {
            start + max_chars
        } else {
            total
        };
        let mut end: usize = limit;
        if limit < total {
            match find_last_break(chars.as_slice(), start, limit) {
                Some(at) => {
                    proof {
                        lemma_last_break_in_range(chars@, start as int, limit as int);
                    }
                    end = at + 1;
                },
                None => match find_last_sentence_end(chars.as_slice(), start, limit) {
                    Some(at) => {
                        proof {
                            lemma_last_sentence_end_in_range(chars@, start as int, limit as int);
                        }
                        end = at + 1;
                    },
                    None => {},
                },
            }
        }
        proof {
            lemma_piece_bounds(chars@, start as int, max_chars as int);
            assert(end == piece_end(chars@, start as int, max_chars as int));
        }
        let piece: String = string_of(chars.as_slice(), start, end);
        proof {
            let rest = pieces_from(chars@, end as int, max_chars as int);
            assert(done.push(piece@) + rest =~= done + (seq![piece@] + rest));
            assert(texts(chunks@.push(piece)) =~= texts(chunks@).push(piece@));
            done = done.push(piece@);
        }
        chunks.push(piece);
        start = end;
    }
    proof {
        assert(pieces_from(chars@, total as int, max_chars as int) =~= Seq::<Seq<char>>::empty());
        assert(done + Seq::<Seq<char>>::empty() =~= done);
    }
    chunks
}

} // verus!
