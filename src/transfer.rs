use vstd::prelude::*;

use crate::text::{decimal, decimal_text};

verus! {

/// The value of the `Range` header that asks for everything from byte `offset` on.
pub open spec fn range_value(offset: u64) -> Seq<char> {
    "bytes="@ + decimal(offset as nat) + "-"@
}

/// The `Range` header value `bytes=<offset>-`.
pub fn range_header(offset: u64) -> (r: String)
    ensures
        r@ == range_value(offset),
{
    let mut h = String::from_str("bytes=");
    let d = decimal_text(offset);
    h.append(d.as_str());
    h.append("-");
    h
}

/// The state of one transfer: the bytes its destination file holds, the
/// progress shown for it, and whether it has completed.
pub struct Transfer {
    /// The size the server announced, zero where it announced none.
    pub expected: u64,
    /// The length of the destination file.
    pub file_len: u64,
    /// The position of the progress bar.
    pub position: u64,
    pub done: bool,
}

/// What a transfer asks of the outside world when it begins.
pub struct Request {
    /// The `Range` header to send, if any.
    pub range: Option<String>,
    /// Whether to append to the destination rather than create it.
    pub append: bool,
}

/// The state of a transfer that begins on a destination holding `existing`
/// bytes (none: no file there yet).
pub open spec fn started(expected: u64, existing: Option<u64>) -> Transfer {
    match existing {
        Some(l) => Transfer { expected, file_len: l, position: l, done: false },
        None => Transfer { expected, file_len: 0, position: 0, done: false },
    }
}

/// The state after a chunk of `n` bytes has been appended.
pub open spec fn after_chunk(t: Transfer, n: u64) -> Transfer {
    Transfer {
        expected: t.expected,
        file_len: (t.file_len + n) as u64,
        position: (t.position + n) as u64,
        done: t.done,
    }
}

/// The state after the chunks have been appended one by one.
pub open spec fn after_chunks(t: Transfer, chunks: Seq<u64>) -> Transfer
    decreases chunks.len(),
{
    if chunks.len() == 0 {
        t
    } else {
        after_chunk(after_chunks(t, chunks.drop_last()), chunks.last())
    }
}

pub open spec fn total(chunks: Seq<u64>) -> nat
    decreases chunks.len(),
{
    if chunks.len() == 0 {
        0
    } else {
        total(chunks.drop_last()) + chunks.last() as nat
    }
}

impl Transfer {
    /// Begins a transfer of `expected` bytes. Where the destination already
    /// holds `existing` bytes, asks for the rest with a `Range` header, appends
    /// to the file, and starts the progress there; else fetches the whole body
    /// into a new file.
    pub fn start(expected: u64, existing: Option<u64>) -> (r: (Transfer, Request))
        ensures
            r.0 == started(expected, existing),
            existing matches Some(l) ==> r.1.range matches Some(h) && h@ == range_value(l),
            existing is None ==> r.1.range is None,
            r.1.append == existing is Some,
    {
        match existing {
            Some(l) => (
                Transfer { expected, file_len: l, position: l, done: false },
                Request { range: Some(range_header(l)), append: true },
            ),
            None => (
                Transfer { expected, file_len: 0, position: 0, done: false },
                Request { range: None, append: false },
            ),
        }
    }

    /// Records a chunk of `n` bytes appended to the destination.
    pub fn on_chunk(&mut self, n: u64)
        requires
            old(self).file_len + n <= u64::MAX,
            old(self).position + n <= u64::MAX,
        ensures
            *final(self) == after_chunk(*old(self), n),
    {
        self.file_len = self.file_len + n;
        self.position = self.position + n;
    }

    /// Marks the transfer complete.
    pub fn finish(&mut self)
        ensures
            final(self).done,
            final(self).file_len == old(self).file_len,
            final(self).position == old(self).position,
            final(self).expected == old(self).expected,
    {
        self.done = true;
    }
}

proof fn lemma_after_chunks(t: Transfer, chunks: Seq<u64>)
    requires
        t.file_len + total(chunks) <= u64::MAX,
        t.position + total(chunks) <= u64::MAX,
    ensures
        after_chunks(t, chunks).file_len == t.file_len + total(chunks),
        after_chunks(t, chunks).position == t.position + total(chunks),
        after_chunks(t, chunks).expected == t.expected,
    decreases chunks.len(),
{
    if chunks.len() > 0 {
        lemma_after_chunks(t, chunks.drop_last());
    }
}

/// Resuming a partial file of `existing` bytes sends `Range: bytes=<existing>-`
/// and starts the progress at `existing`; once the server has sent the rest of
/// the body, the file holds exactly the expected size.
pub proof fn lemma_resume_completes(expected: u64, existing: u64, body: Seq<u64>)
    requires
        existing <= expected,
        total(body) == expected - existing,
    ensures
        started(expected, Some(existing)).position == existing,
        after_chunks(started(expected, Some(existing)), body).file_len == expected,
        after_chunks(started(expected, Some(existing)), body).position == expected,
{
    lemma_after_chunks(started(expected, Some(existing)), body);
}

/// The room a progress bar keeps beside the title for rate and byte counts.
pub const RESERVED_WIDTH: usize = 45;

/// How many characters of a title a progress bar shows on a terminal of
/// `width` columns (none: the width is unknown).
pub open spec fn label_len(width: Option<usize>) -> nat {
    match width {
        Some(w) => if RESERVED_WIDTH < w {
            (w - RESERVED_WIDTH) as nat
        } else {
            10
        },
        None => 40,
    }
}

/// The title cut to fit beside a progress bar.
pub fn truncate_title(title: &str, width: Option<usize>) -> (r: String)
    ensures
        r@ == title@.take(
            if title@.len() <= label_len(width) {
                title@.len() as int
            } else {
                label_len(width) as int
            },
        ),
{
    let keep: usize = match width {
        Some(w) => if RESERVED_WIDTH < w {
            w - RESERVED_WIDTH
        } else {
            10
        },
        None => 40,
    };
    let n = title.unicode_len();
    let cut = if n <= keep {
        n
    } else {
        keep
    };
    String::from_str(title.substring_char(0, cut))
}

} // verus!
