//! The backend's output log: a capped buffer fed line by line, and the tail
//! of it that is shown when the backend dies.

use vstd::prelude::*;
use vstd::utf8::{decode_utf8, encode_utf8, is_char_boundary};

verus! {

/// The log grows up to this many bytes before it is cut down.
pub const LOG_CAP_BYTES: usize = 3000;

/// How many bytes a cut keeps, taken from the end.
pub const LOG_KEEP_BYTES: usize = 2000;

/// How many characters of the log a crash report shows.
pub const TAIL_CHARS: usize = 900;

/// The first character boundary of `bytes` at or after byte `i` (the end, if none is before it).
pub open spec fn first_boundary_from(bytes: Seq<u8>, i: int) -> int
    decreases bytes.len() - i,
{
    if i >= bytes.len() {
        bytes.len() as int
    } else if is_char_boundary(bytes, i) {
        i
    } else {
        first_boundary_from(bytes, i + 1)
    }
}

/// A character boundary lies within every four bytes of a UTF-8 encoding: at or after
/// `i`, and at most three bytes on.
pub proof fn lemma_boundary_within_reach(bytes: Seq<u8>, i: int) -> (b: int)
    requires
        vstd::utf8::valid_utf8(bytes),
        0 <= i <= bytes.len(),
    ensures
        i <= b <= i + 3,
        b <= bytes.len(),
        is_char_boundary(bytes, b),
    decreases bytes.len(),
{
    if i == 0 {
        0
    } else {
        let w = vstd::utf8::length_of_first_scalar(bytes);
        let rest = vstd::utf8::pop_first_scalar(bytes);
        assert(1 <= w <= 4 && w <= bytes.len());
        assert(rest.len() == bytes.len() - w);
        if i <= w {
            vstd::utf8::is_char_boundary_start_end_of_seq(rest);
            assert(is_char_boundary(rest, 0));
            w
        } else {
            let b1 = lemma_boundary_within_reach(rest, i - w);
            b1 + w
        }
    }
}

/// The first boundary at or after `i` comes no later than any boundary at or after `i`.
pub proof fn lemma_first_boundary_is_first(bytes: Seq<u8>, i: int, b: int)
    requires
        0 <= i <= b <= bytes.len(),
        is_char_boundary(bytes, b),
    ensures
        first_boundary_from(bytes, i) <= b,
    decreases b - i,
{
    if i < bytes.len() && !is_char_boundary(bytes, i) {
        lemma_first_boundary_is_first(bytes, i + 1, b);
    }
}

/// What the buffer's bytes become once `bytes` (the old buffer and the new line) are in it:
/// past `LOG_CAP_BYTES` bytes, the tail from the first character boundary at or after
/// the last `LOG_KEEP_BYTES` bytes.
pub open spec fn capped(bytes: Seq<u8>) -> Seq<u8> {
    if bytes.len() > LOG_CAP_BYTES {
        bytes.subrange(first_boundary_from(bytes, bytes.len() - LOG_KEEP_BYTES), bytes.len() as int)
    } else {
        bytes
    }
}

/// Adds one line of backend output to the log. Past `LOG_CAP_BYTES` bytes the log
/// keeps its tail from the first character that starts within its last
/// `LOG_KEEP_BYTES` bytes.
pub fn append_line(log: &mut String, line: &str)
    requires
        encode_utf8(old(log)@ + line@).len() <= usize::MAX,
    ensures
        encode_utf8(final(log)@) == capped(encode_utf8(old(log)@ + line@)),
        final(log)@ == decode_utf8(capped(encode_utf8(old(log)@ + line@))),
        encode_utf8(final(log)@).len() <= LOG_CAP_BYTES,
        encode_utf8(old(log)@ + line@).len() > LOG_CAP_BYTES ==> LOG_KEEP_BYTES - 3 <= encode_utf8(
            final(log)@,
        ).len() <= LOG_KEEP_BYTES,
        encode_utf8(old(log)@ + line@).len() <= LOG_CAP_BYTES ==> final(log)@ == old(log)@ + line@,
        ({
            let all = encode_utf8(old(log)@ + line@);
            let kept = encode_utf8(final(log)@);
            &&& kept.len() <= all.len()
            &&& all.subrange(all.len() - kept.len(), all.len() as int) == kept
            &&& (all.len() > LOG_CAP_BYTES && is_char_boundary(all, all.len() - LOG_KEEP_BYTES)
                ==> kept == all.subrange(all.len() - LOG_KEEP_BYTES, all.len() as int))
        }),
{
    broadcast use vstd::utf8::encode_utf8_valid_utf8;

    log.append(line);
    let ghost bytes = encode_utf8(log@);
    let len = log.as_str().len();
    if len > LOG_CAP_BYTES {
        let mut cut = len - LOG_KEEP_BYTES;
        while cut < len && !log.as_str().is_char_boundary(cut)
            invariant
                bytes == encode_utf8(log@),
                len == bytes.len(),
                len - LOG_KEEP_BYTES <= cut <= len,
                first_boundary_from(bytes, len - LOG_KEEP_BYTES) == first_boundary_from(bytes, cut as int),
            decreases len - cut,
        {
            cut = cut + 1;
        }
        proof {
            vstd::utf8::is_char_boundary_start_end_of_seq(bytes);
            let b = lemma_boundary_within_reach(bytes, len - LOG_KEEP_BYTES);
            lemma_first_boundary_is_first(bytes, len - LOG_KEEP_BYTES, b);
        }
        let kept = {
            let (_, tail) = log.as_str().split_at(cut);
            tail.to_owned()
        };
        *log = kept;
        proof {
            let k = encode_utf8(log@);
            assert(bytes.subrange(bytes.len() - k.len(), bytes.len() as int) =~= k);
        }
    }
    proof {
        vstd::utf8::encode_utf8_decode_utf8(log@);
        if len <= LOG_CAP_BYTES {
            assert(bytes.subrange(0, bytes.len() as int) =~= bytes);
        }
    }
}

/// The last `n` characters of `s` (all of it when it is shorter).
pub open spec fn last_chars(s: Seq<char>, n: nat) -> Seq<char> {
    if s.len() <= n {
        s
    } else {
        s.subrange(s.len() - n, s.len() as int)
    }
}

/// The note shown with a crash: `None` for an empty log, else its last `TAIL_CHARS` characters.
pub open spec fn tail_note(log: Seq<char>) -> Option<Seq<char>> {
    if log.len() == 0 {
        None
    } else {
        Some(last_chars(log, TAIL_CHARS as nat))
    }
}

/// The tail of the log that a crash report shows.
pub fn log_tail(log: &str) -> (r: Option<String>)
    ensures
        r is None <==> log@.len() == 0,
        r matches Some(t) ==> Some(t@) == tail_note(log@),
        r matches Some(t) ==> t@ == log@.subrange(
            if log@.len() > TAIL_CHARS { log@.len() - TAIL_CHARS } else { 0 },
            log@.len() as int,
        ),
{
    if log.is_empty() {
        return None;
    }
    let n = log.unicode_len();
    let from = if n > TAIL_CHARS { n - TAIL_CHARS } else { 0 };
    let tail = log.substring_char(from, n);
    proof {
        if n <= TAIL_CHARS {
            assert(log@.subrange(0, n as int) =~= log@);
        }
    }
    Some(tail.to_owned())
}

} // verus!

verus! {

/// The lines of `lines`, one after another.
pub open spec fn joined(lines: Seq<Seq<char>>) -> Seq<char>
    decreases lines.len(),
{
    if lines.len() == 0 {
        Seq::empty()
    } else {
        joined(lines.drop_last()) + lines.last()
    }
}

/// The log after `lines` were appended, one by one, to an empty log.
pub open spec fn log_after(lines: Seq<Seq<char>>) -> Seq<char>
    decreases lines.len(),
{
    if lines.len() == 0 {
        Seq::empty()
    } else {
        decode_utf8(capped(encode_utf8(log_after(lines.drop_last()) + lines.last())))
    }
}

/// `x` is the end of `y`.
pub open spec fn ends_with(y: Seq<u8>, x: Seq<u8>) -> bool {
    x.len() <= y.len() && y.subrange(y.len() - x.len(), y.len() as int) == x
}

/// The encoding of joined text is the encodings joined.
pub proof fn lemma_encode_concat(a: Seq<char>, b: Seq<char>)
    ensures
        encode_utf8(a + b) == encode_utf8(a) + encode_utf8(b),
    decreases a.len(),
{
    if a.len() > 0 {
        lemma_encode_concat(a.drop_first(), b);
        assert((a + b).drop_first() =~= a.drop_first() + b);
        assert((a + b)[0] == a[0]);
        assert(encode_utf8(a + b) =~= encode_utf8(a) + encode_utf8(b));
    } else {
        assert(a + b =~= b);
    }
}

/// The first boundary at or after `i` is a boundary, no earlier than `i`.
pub proof fn lemma_first_boundary(bytes: Seq<u8>, i: int)
    requires
        vstd::utf8::valid_utf8(bytes),
        0 <= i,
    ensures
        is_char_boundary(bytes, first_boundary_from(bytes, i)),
        i <= first_boundary_from(bytes, i) || i > bytes.len(),
        first_boundary_from(bytes, i) <= bytes.len(),
    decreases bytes.len() - i,
{
    vstd::utf8::is_char_boundary_start_end_of_seq(bytes);
    if i < bytes.len() && !is_char_boundary(bytes, i) {
        lemma_first_boundary(bytes, i + 1);
    }
}

/// Line by line, the log is the end of all the output read so far: all of it while
/// that is at most `LOG_CAP_BYTES` bytes, never more than `LOG_CAP_BYTES` bytes, and,
/// once the output is longer, at least its last `LOG_KEEP_BYTES` bytes less the bytes
/// of a character cut through (at most three).
pub proof fn lemma_log_is_capped_tail(lines: Seq<Seq<char>>)
    ensures
        ends_with(encode_utf8(joined(lines)), encode_utf8(log_after(lines))),
        encode_utf8(log_after(lines)).len() <= LOG_CAP_BYTES,
        encode_utf8(joined(lines)).len() <= LOG_CAP_BYTES ==> log_after(lines) == joined(lines),
        encode_utf8(joined(lines)).len() > LOG_CAP_BYTES ==> encode_utf8(log_after(lines)).len() + 3
            >= LOG_KEEP_BYTES,
    decreases lines.len(),
{
    broadcast use vstd::utf8::encode_utf8_valid_utf8;

    if lines.len() == 0 {
        assert(encode_utf8(Seq::<char>::empty()) =~= Seq::<u8>::empty());
        assert(encode_utf8(joined(lines)).subrange(0, 0) =~= Seq::<u8>::empty());
    } else {
        let prev = lines.drop_last();
        let line = lines.last();
        lemma_log_is_capped_tail(prev);
        let lp = log_after(prev);
        let jp = joined(prev);
        lemma_encode_concat(lp, line);
        lemma_encode_concat(jp, line);
        let x = encode_utf8(lp + line);
        let y = encode_utf8(jp + line);
        assert(joined(lines) == jp + line);
        let pj = encode_utf8(jp);
        let pl = encode_utf8(lp);
        let el = encode_utf8(line);
        assert(y == pj + el);
        assert(x == pl + el);
        assert(pj.subrange(pj.len() - pl.len(), pj.len() as int) == pl);
        assert forall|t: int| 0 <= t < x.len() implies y[y.len() - x.len() + t] == #[trigger] x[t] by {
            if t < pl.len() {
                assert(pj.subrange(pj.len() - pl.len(), pj.len() as int)[t] == pl[t]);
            }
        }
        assert(ends_with(y, x)) by {
            assert(y.subrange(y.len() - x.len(), y.len() as int) =~= x);
        }
        if x.len() > LOG_CAP_BYTES {
            let c = first_boundary_from(x, x.len() - LOG_KEEP_BYTES);
            lemma_first_boundary(x, x.len() - LOG_KEEP_BYTES);
            let b = lemma_boundary_within_reach(x, x.len() - LOG_KEEP_BYTES);
            lemma_first_boundary_is_first(x, x.len() - LOG_KEEP_BYTES, b);
            vstd::utf8::valid_utf8_split(x, c);
            vstd::utf8::decode_utf8_encode_utf8(x.subrange(c, x.len() as int));
            let k = x.subrange(c, x.len() as int);
            assert(encode_utf8(log_after(lines)) == k);
            assert(y.subrange(y.len() - k.len(), y.len() as int) =~= k) by {
                assert forall|t: int| 0 <= t < k.len() implies y[y.len() - k.len() + t] == #[trigger] k[t] by {
                    assert(k[t] == x[c + t]);
                    assert(x[c + t] == y[y.len() - x.len() + c + t]);
                }
            }
            assert(ends_with(y, k));
        } else {
            vstd::utf8::decode_utf8_encode_utf8(x);
            vstd::utf8::encode_utf8_decode_utf8(lp + line);
            assert(log_after(lines) == lp + line);
            assert(encode_utf8(log_after(lines)) == x);
            if y.len() <= LOG_CAP_BYTES {
                assert(encode_utf8(jp).len() <= y.len());
            }
            if pj.len() <= LOG_CAP_BYTES {
                assert(lp == jp);
            }
        }
    }
}

} // verus!

verus! {

/// The crash note of a non-empty log is its last `min(TAIL_CHARS, len)` characters:
/// the whole log when it has at most `TAIL_CHARS` characters, otherwise exactly its
/// last `TAIL_CHARS`. An empty log has no note.
pub proof fn lemma_tail_note_is_the_end_of_the_log(log: Seq<char>)
    ensures
        log.len() == 0 ==> tail_note(log) is None,
        0 < log.len() <= TAIL_CHARS ==> tail_note(log) == Some(log),
        log.len() > TAIL_CHARS ==> tail_note(log) == Some(
            log.subrange(log.len() - TAIL_CHARS, log.len() as int),
        ),
        tail_note(log) matches Some(t) ==> {
            &&& t.len() == (if log.len() > TAIL_CHARS { TAIL_CHARS as nat } else { log.len() })
            &&& forall|i: int| 0 <= i < t.len() ==> #[trigger] t[i] == log[log.len() - t.len() + i]
        },
{
}

} // verus!
