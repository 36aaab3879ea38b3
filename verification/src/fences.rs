//! Fenced code blocks in a Markdown text: telling fence lines, and the
//! line-by-line scan that replaces each block's code with a spoken summary.
//! The scan decides; whoever drives it obtains the summaries.

use vstd::prelude::*;
use vstd::string::StringExecFns;
use crate::lines::{join_lines, joined, texts};
use crate::text::{begins_with, chars_of, skip_spaces, starts_with, trimmed_start};

verus! {

/// A line that opens or closes a fenced code block: three backticks after
/// any leading white space.
pub open spec fn is_fence(line: Seq<char>) -> bool {
    starts_with(trimmed_start(line), "```"@)
}

/// The state of a scan for fenced code blocks.
pub struct CodeBlockScanner {
    /// The text produced so far.
    pub out: String,
    /// The scan is between an opening fence and its closing fence.
    pub in_block: bool,
    /// The lines of the block being scanned.
    pub code: Vec<String>,
    /// How many blocks were handed out for a summary; it stops counting at
    /// the largest number it can hold.
    pub blocks: usize,
}

/// `text` and a newline.
pub open spec fn with_newline(text: Seq<char>) -> Seq<char> {
    text + seq!['\n']
}

/// One more than `n`, but not beyond what a `usize` holds.
pub open spec fn counted(n: usize) -> usize {
    if n < usize::MAX {
        (n + 1) as usize
    } else {
        n
    }
}

/// Whether the line opens a fenced code block.
pub fn is_fence_open(line: &str) -> (r: bool)
    ensures
        r == is_fence(line@),
{
    let chars: Vec<char> = chars_of(line);
    let n: usize = chars.len();
    let first: usize = skip_spaces(chars.as_slice(), 0, n);
    proof {
        assert(chars@.subrange(0, n as int) =~= line@);
    }
    begins_with(chars.as_slice(), first, "```")
}

/// Whether the line closes a fenced code block.
pub fn is_fence_close(line: &str) -> (r: bool)
    ensures
        r == is_fence(line@),
{
    is_fence_open(line)
}

impl CodeBlockScanner {
    /// A scan at the start of a text.
    pub fn new() -> (s: Self)
        ensures
            s.out@ == Seq::<char>::empty(),
            !s.in_block,
            s.code@.len() == 0,
            s.blocks == 0,
    {
        CodeBlockScanner { out: String::new(), in_block: false, code: Vec::new(), blocks: 0 }
    }

    /// Ends the block being scanned and hands out its code.
    fn take_block(&mut self) -> (code: String)
        ensures
            code@ == joined(texts(old(self).code@)),
            final(self).out@ == old(self).out@,
            !final(self).in_block,
            final(self).code@.len() == 0,
            final(self).blocks == counted(old(self).blocks),
    {
        let code: String = join_lines(&self.code);
        self.code.clear();
        self.in_block = false;
        if self.blocks < usize::MAX {
            self.blocks = self.blocks + 1;
        }
        code
    }

    /// Takes the next line of the text. Outside a block the line goes to the
    /// output, and a fence opens a block. Inside a block a fence closes it:
    /// the block's code is handed out to be summarized, and `close_block`
    /// takes the summary; any other line is collected as code.
    pub fn push_line(&mut self, line: &str) -> (request: Option<String>)
        ensures
            !old(self).in_block ==> {
                &&& request is None
                &&& final(self).out@ == old(self).out@ + with_newline(line@)
                &&& final(self).in_block == is_fence(line@)
                &&& final(self).blocks == old(self).blocks
                &&& (is_fence(line@) ==> final(self).code@.len() == 0)
                &&& (!is_fence(line@) ==> final(self).code@ == old(self).code@)
            },
            old(self).in_block && is_fence(line@) ==> {
                &&& request matches Some(code)
                &&& code@ == joined(texts(old(self).code@))
                &&& final(self).out@ == old(self).out@
                &&& !final(self).in_block
                &&& final(self).code@.len() == 0
                &&& final(self).blocks == counted(old(self).blocks)
            },
            old(self).in_block && !is_fence(line@) ==> {
                &&& request is None
                &&& final(self).out@ == old(self).out@
                &&& final(self).in_block
                &&& texts(final(self).code@) == texts(old(self).code@).push(line@)
                &&& final(self).blocks == old(self).blocks
            },
    {
        if !self.in_block {
            self.out.append(line);
            self.out.push('\n');
            if is_fence_open(line) {
                self.in_block = true;
                self.code.clear();
            }
            proof {
                assert(self.out@ =~= old(self).out@ + with_newline(line@));
            }
            None
        } else if is_fence_close(line) {
            Some(self.take_block())
        } else {
            let owned: String = line.to_owned();
            proof {
                assert(texts(self.code@.push(owned)) =~= texts(self.code@).push(line@));
            }
            self.code.push(owned);
            None
        }
    }

    /// Ends the text. A block that is still open is handed out to be
    /// summarized like one that was closed.
    pub fn finish(&mut self) -> (request: Option<String>)
        ensures
            final(self).out@ == old(self).out@,
            !final(self).in_block,
            old(self).in_block ==> {
                &&& request matches Some(code)
                &&& code@ == joined(texts(old(self).code@))
                &&& final(self).code@.len() == 0
                &&& final(self).blocks == counted(old(self).blocks)
            },
            !old(self).in_block ==> {
                &&& request is None
                &&& final(self).code@ == old(self).code@
                &&& final(self).blocks == old(self).blocks
            },
    {
        if self.in_block {
            Some(self.take_block())
        } else {
            None
        }
    }

    /// Puts the summary of a block in the place of its code, followed by the
    /// fence that closed the block, where one did.
    pub fn close_block(&mut self, summary: &str, closing_fence: Option<&str>)
        ensures
            final(self).out@ == old(self).out@ + with_newline(summary@) + match closing_fence {
                Some(fence) => with_newline(fence@),
                None => Seq::<char>::empty(),
            },
            final(self).in_block == old(self).in_block,
            final(self).code@ == old(self).code@,
            final(self).blocks == old(self).blocks,
    {
        self.out.append(summary);
        self.out.push('\n');
        match closing_fence {
            Some(fence) => {
                self.out.append(fence);
                self.out.push('\n');
                proof {
                    assert(self.out@ =~= old(self).out@ + with_newline(summary@) + with_newline(
                        fence@,
                    ));
                }
            },
            None => {
                proof {
                    assert(self.out@ =~= old(self).out@ + with_newline(summary@) + Seq::<
                        char,
                    >::empty());
                }
            },
        }
    }
}

} // verus!
