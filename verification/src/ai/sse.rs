//! Server-sent events: cutting a byte stream into lines and reading the
//! `data:` lines, shared by the three provider protocols.
use vstd::prelude::*;
use vstd::utf8::{decode_utf8, valid_utf8};

use crate::text::{starts_with, trim_start};

verus! {

/// Index of the first `\n` in `b` at or after `i`.
pub open spec fn newline_from(b: Seq<u8>, i: int) -> Option<int>
    decreases b.len() - i,
{
    if i < 0 || i >= b.len() {
        None
    } else if b[i] == 10u8 {
        Some(i)
    } else {
        newline_from(b, i + 1)
    }
}

pub proof fn lemma_newline_from_bounds(b: Seq<u8>, i: int)
    ensures
        newline_from(b, i) matches Some(j) ==> i <= j < b.len() && b[j] == 10u8 && (forall|
            k: int,
        | i <= k < j ==> b[k] != 10u8),
        newline_from(b, i) is None ==> forall|k: int| 0 <= i <= k < b.len() ==> b[k] != 10u8,
    decreases b.len() - i,
{
    if i < 0 || i >= b.len() {
    } else if b[i] == 10u8 {
    } else {
        lemma_newline_from_bounds(b, i + 1);
    }
}

/// The first newline of `b + c` is that of `b` where `b` has one.
pub proof fn lemma_newline_prefix(b: Seq<u8>, c: Seq<u8>, i: int)
    requires
        0 <= i,
        newline_from(b, i) is Some,
    ensures
        newline_from(b + c, i) == newline_from(b, i),
    decreases b.len() - i,
{
    if i >= b.len() {
    } else if b[i] == 10u8 {
        assert((b + c)[i] == b[i]);
    } else {
        assert((b + c)[i] == b[i]);
        lemma_newline_prefix(b, c, i + 1);
    }
}

/// A line without its terminating `\n`, minus a final `\r`.
pub open spec fn strip_cr(line: Seq<u8>) -> Seq<u8> {
    if line.len() > 0 && line.last() == 13u8 {
        line.drop_last()
    } else {
        line
    }
}

/// The text `std::str::Utf8Error` displays for bytes that are not UTF-8.
pub uninterp spec fn spec_utf8_error_text(bytes: Seq<u8>) -> Seq<char>;

/// What one decoded line asks for: an error message that ends the stream,
/// a text delta, and whether the stream is done (in this order of effect).
pub type LineOutcome = (Option<Seq<char>>, Option<Seq<char>>, bool);

/// The result of reading the complete lines of a buffer: the deltas and
/// whether the stream said it was done, or the error that ended it; and the
/// bytes left in the buffer.
pub type ScanResult = (Result<(Seq<Seq<char>>, bool), Seq<char>>, Seq<u8>);

/// Reads the complete lines of `b` one by one, after the deltas `acc`,
/// until the bytes run out of newlines, a line ends the stream, or a line
/// is not UTF-8.
pub open spec fn sse_scan(
    b: Seq<u8>,
    acc: Seq<Seq<char>>,
    f: spec_fn(Seq<char>) -> LineOutcome,
) -> ScanResult
    decreases b.len(),
{
    match newline_from(b, 0) {
        None => (Ok((acc, false)), b),
        Some(i) => {
            proof {
                lemma_newline_from_bounds(b, 0);
            }
            let rest = b.subrange(i + 1, b.len() as int);
            let line = strip_cr(b.subrange(0, i));
            if !valid_utf8(line) {
                (Err("invalid UTF-8 in SSE line: "@ + spec_utf8_error_text(line)), rest)
            } else {
                let o = f(decode_utf8(line));
                if o.0 is Some {
                    (Err(o.0.unwrap()), rest)
                } else {
                    let acc2 = if o.1 is Some {
                        acc.push(o.1.unwrap())
                    } else {
                        acc
                    };
                    if o.2 {
                        (Ok((acc2, true)), rest)
                    } else {
                        sse_scan(rest, acc2, f)
                    }
                }
            }
        },
    }
}

/// The payload of a `data:` line, without the whitespace after the colon.
pub open spec fn data_payload(line: Seq<char>) -> Option<Seq<char>> {
    if starts_with(line, "data:"@) {
        Some(trim_start(line.subrange(5, line.len() as int)))
    } else {
        None
    }
}

/// Reading a stream in two pieces gives what reading it in one does: once
/// the first piece has been read up to its last newline without the stream
/// ending, reading the rest after the leftover bytes continues the same scan.
pub proof fn lemma_sse_scan_split(
    b: Seq<u8>,
    acc: Seq<Seq<char>>,
    f: spec_fn(Seq<char>) -> LineOutcome,
    c: Seq<u8>,
)
    requires
        sse_scan(b, acc, f).0 matches Ok((_, done)) && !done,
    ensures
        sse_scan(b + c, acc, f) == sse_scan(
            sse_scan(b, acc, f).1 + c,
            sse_scan(b, acc, f).0->Ok_0.0,
            f,
        ),
    decreases b.len(),
{
    lemma_newline_from_bounds(b, 0);
    match newline_from(b, 0) {
        None => {},
        Some(i) => {
            lemma_newline_prefix(b, c, 0);
            lemma_newline_from_bounds(b + c, 0);
            let rest = b.subrange(i + 1, b.len() as int);
            assert((b + c).subrange(0, i) =~= b.subrange(0, i));
            assert((b + c).subrange(i + 1, (b + c).len() as int) =~= rest + c);
            let line = strip_cr(b.subrange(0, i));
            let o = f(decode_utf8(line));
            let acc2 = if o.1 is Some {
                acc.push(o.1.unwrap())
            } else {
                acc
            };
            lemma_sse_scan_split(rest, acc2, f, c);
        },
    }
}

/// A scan result with the deltas `acc` put in front of its deltas.
pub open spec fn after_deltas(r: ScanResult, acc: Seq<Seq<char>>) -> ScanResult {
    match r.0 {
        Ok((ds, done)) => (Ok((acc + ds, done)), r.1),
        Err(m) => (Err(m), r.1),
    }
}

/// The deltas read before a scan only come in front of what it reads.
pub proof fn lemma_sse_scan_acc(
    b: Seq<u8>,
    acc: Seq<Seq<char>>,
    f: spec_fn(Seq<char>) -> LineOutcome,
)
    ensures
        sse_scan(b, acc, f) == after_deltas(sse_scan(b, seq![], f), acc),
    decreases b.len(),
{
    lemma_newline_from_bounds(b, 0);
    match newline_from(b, 0) {
        None => {
            assert(acc + seq![] =~= acc);
        },
        Some(i) => {
            let rest = b.subrange(i + 1, b.len() as int);
            let line = strip_cr(b.subrange(0, i));
            if valid_utf8(line) {
                let o = f(decode_utf8(line));
                if o.0 is None {
                    if o.1 is Some {
                        let x = o.1.unwrap();
                        assert(seq![].push(x) =~= seq![x]);
                        lemma_sse_scan_acc(rest, acc.push(x), f);
                        lemma_sse_scan_acc(rest, seq![x], f);
                        assert(acc + seq![x] =~= acc.push(x));
                        match sse_scan(rest, seq![], f).0 {
                            Ok((ds, done)) => {
                                assert(acc.push(x) + ds =~= acc + (seq![x] + ds));
                            },
                            Err(_) => {},
                        }
                    } else {
                        lemma_sse_scan_acc(rest, acc, f);
                        if o.2 {
                            assert(acc + seq![] =~= acc);
                        }
                    }
                }
            }
        },
    }
}

/// Reading a stream chunk by chunk reads what reading it whole does: the
/// deltas of two consecutive reads, the second one started on the bytes the
/// first left over, are the deltas of one read of both chunks, with the same
/// end of stream, the same error and the same bytes left over; provided the
/// first read neither failed nor met the end of the stream.
pub proof fn lemma_chunked_stream_reads_like_whole(
    buffer: Seq<u8>,
    first: Seq<u8>,
    second: Seq<u8>,
    f: spec_fn(Seq<char>) -> LineOutcome,
)
    requires
        sse_scan(buffer + first, seq![], f).0 matches Ok((_, done)) && !done,
    ensures
        ({
            let one = sse_scan(buffer + first, seq![], f);
            let two = sse_scan(one.1 + second, seq![], f);
            let whole = sse_scan(buffer + first + second, seq![], f);
            &&& whole.1 == two.1
            &&& match (whole.0, two.0) {
                (Ok((dw, done_w)), Ok((d2, done_2))) => dw == one.0->Ok_0.0 + d2 && done_w
                    == done_2,
                (Err(mw), Err(m2)) => mw == m2,
                _ => false,
            }
        }),
{
    let one = sse_scan(buffer + first, seq![], f);
    lemma_sse_scan_split(buffer + first, seq![], f, second);
    lemma_sse_scan_acc(one.1 + second, one.0->Ok_0.0, f);
}

/// `std::str::from_utf8`, with the error displayed as text.
/// Claimed: `Ok` exactly for valid UTF-8 (as `vstd::utf8::valid_utf8`
/// states it), holding the decoded characters; otherwise the displayed
/// `Utf8Error`, named by `spec_utf8_error_text`.
#[verifier::external_body]
pub fn utf8_to_string(bytes: &[u8]) -> (r: Result<String, String>)
    ensures
        match r {
            Ok(s) => valid_utf8(bytes@) && s@ == decode_utf8(bytes@),
            Err(m) => !valid_utf8(bytes@) && m@ == spec_utf8_error_text(bytes@),
        },
{
    match std::str::from_utf8(bytes) {
        Ok(s) => Ok(s.to_string()),
        Err(e) => Err(e.to_string()),
    }
}

/// Appends `chunk` to `buffer`.
pub fn append_bytes(buffer: &mut Vec<u8>, chunk: &[u8])
    ensures
        final(buffer)@ == old(buffer)@ + chunk@,
{
    let mut i: usize = 0;
    while i < chunk.len()
        invariant
            i <= chunk.len(),
            buffer@ == old(buffer)@ + chunk@.subrange(0, i as int),
        decreases chunk.len() - i,
    {
        buffer.push(chunk[i]);
        i = i + 1;
        assert(buffer@ =~= old(buffer)@ + chunk@.subrange(0, i as int));
    }
    assert(chunk@.subrange(0, chunk.len() as int) =~= chunk@);
}

fn copy_bytes(b: &[u8], from: usize, to: usize) -> (r: Vec<u8>)
    requires
        from <= to <= b.len(),
    ensures
        r@ == b@.subrange(from as int, to as int),
{
    let mut out: Vec<u8> = Vec::new();
    let mut i: usize = from;
    while i < to
        invariant
            from <= i <= to <= b.len(),
            out@ == b@.subrange(from as int, i as int),
        decreases to - i,
    {
        out.push(b[i]);
        i = i + 1;
        assert(out@ =~= b@.subrange(from as int, i as int));
    }
    out
}

/// Takes the first complete line out of `buffer` and decodes it.
/// `None` (buffer unchanged) where the buffer holds no newline.
pub fn take_line(buffer: &mut Vec<u8>) -> (r: Option<Result<String, String>>)
    ensures
        match newline_from(old(buffer)@, 0) {
            None => r is None && final(buffer)@ == old(buffer)@,
            Some(i) => {
                let line = strip_cr(old(buffer)@.subrange(0, i));
                &&& final(buffer)@ == old(buffer)@.subrange(i + 1, old(buffer)@.len() as int)
                &&& match r {
                    Some(Ok(s)) => valid_utf8(line) && s@ == decode_utf8(line),
                    Some(Err(m)) => !valid_utf8(line) && m@ == "invalid UTF-8 in SSE line: "@
                        + spec_utf8_error_text(line),
                    None => false,
                }
            },
        },
{
    proof {
        lemma_newline_from_bounds(buffer@, 0);
    }
    let mut i: usize = 0;
    while i < buffer.len() && buffer[i] != 10u8
        invariant
            i <= buffer@.len(),
            forall|k: int| 0 <= k < i ==> buffer@[k] != 10u8,
        decreases buffer.len() - i,
    {
        i = i + 1;
    }
    if i == buffer.len() {
        proof {
            if newline_from(buffer@, 0) is Some {
                let j = newline_from(buffer@, 0)->Some_0;
                assert(buffer@[j] == 10u8);
            }
        }
        return None;
    }
    proof {
        if newline_from(buffer@, 0) is None {
            assert(buffer@[i as int] != 10u8);
        } else {
            let j = newline_from(buffer@, 0)->Some_0;
            if j < i {
                assert(buffer@[j] != 10u8);
            }
            if j > i {
                assert(buffer@[i as int] != 10u8);
            }
        }
    }
    let mut end: usize = i;
    if end > 0 && buffer[end - 1] == 13u8 {
        end = end - 1;
    }
    let line = copy_bytes(buffer, 0, end);
    assert(line@ =~= strip_cr(buffer@.subrange(0, i as int)));
    let rest = copy_bytes(buffer, i + 1, buffer.len());
    *buffer = rest;
    match utf8_to_string(&line) {
        Ok(s) => Some(Ok(s)),
        Err(e) => {
            let mut message = crate::text::chars_of("invalid UTF-8 in SSE line: ");
            crate::text::push_str(&mut message, e.as_str());
            Some(Err(crate::text::string_of(&message)))
        },
    }
}

pub open spec fn string_seq_views(v: Seq<String>) -> Seq<Seq<char>> {
    v.map_values(|s: String| s@)
}

pub proof fn lemma_string_seq_views_push(v: Seq<String>, s: String)
    ensures
        string_seq_views(v.push(s)) == string_seq_views(v).push(s@),
{
    assert(string_seq_views(v.push(s)) =~= string_seq_views(v).push(s@));
}

pub open spec fn opt_view(o: Option<String>) -> Option<Seq<char>> {
    match o {
        Some(s) => Some(s@),
        None => None,
    }
}

/// The payload of a `data:` line (see `data_payload`).
pub fn data_payload_of(line: &[char]) -> (r: Option<Vec<char>>)
    ensures
        match r {
            Some(d) => data_payload(line@) == Some(d@),
            None => data_payload(line@) is None,
        },
{
    let prefix = crate::text::chars_of("data:");
    proof {
        reveal_strlit("data:");
    }
    if crate::text::starts_with_chars(line, &prefix) {
        let rest = crate::text::sub_chars(line, 5, line.len());
        Some(crate::text::trim_start_chars(&rest))
    } else {
        None
    }
}

} // verus!
