//! The two views of a log file: its last lines, and its first lines from the
//! place where the process started writing. Both are rebuilt from the bytes
//! of the file each time.

use crate::text::texts;
use vstd::prelude::*;
use vstd::utf8::{decode_utf8, encode_utf8, valid_utf8};

verus! {

/// How many lines the tail view keeps.
pub const MAX_LOG_LINES: usize = 500;

/// How many lines the view from the start of a run reads.
pub const MAX_INITIAL_LINES: usize = 100;

/// The byte that ends a line.
pub open spec fn line_feed() -> u8 {
    0x0a
}

/// The byte that may stand before a line feed.
pub open spec fn carriage_return() -> u8 {
    0x0d
}

/// What follows the last line feed of `bytes`: the line that is not yet
/// ended.
pub open spec fn pending(bytes: Seq<u8>) -> Seq<u8>
    decreases bytes.len(),
{
    if bytes.len() == 0 || bytes.last() == line_feed() {
        Seq::empty()
    } else {
        pending(bytes.drop_last()).push(bytes.last())
    }
}

/// An ended line without the carriage return that may stand before its
/// line feed.
pub open spec fn strip_cr(line: Seq<u8>) -> Seq<u8> {
    if line.len() > 0 && line.last() == carriage_return() {
        line.drop_last()
    } else {
        line
    }
}

/// The lines of `bytes` that a line feed ends, without their line ending.
pub open spec fn ended_lines(bytes: Seq<u8>) -> Seq<Seq<u8>>
    decreases bytes.len(),
{
    if bytes.len() == 0 {
        Seq::empty()
    } else if bytes.last() == line_feed() {
        ended_lines(bytes.drop_last()).push(strip_cr(pending(bytes.drop_last())))
    } else {
        ended_lines(bytes.drop_last())
    }
}

/// The lines of a file: those that a line feed ends and, if the file does
/// not end with a line feed, what follows the last one.
pub open spec fn raw_lines(bytes: Seq<u8>) -> Seq<Seq<u8>> {
    if pending(bytes).len() > 0 {
        ended_lines(bytes).push(pending(bytes))
    } else {
        ended_lines(bytes)
    }
}

/// The lines of `raw` that are text, decoded; a line that is not valid
/// UTF-8 is dropped.
pub open spec fn decoded(raw: Seq<Seq<u8>>) -> Seq<Seq<char>>
    decreases raw.len(),
{
    if raw.len() == 0 {
        Seq::empty()
    } else if valid_utf8(raw.last()) {
        decoded(raw.drop_last()).push(decode_utf8(raw.last()))
    } else {
        decoded(raw.drop_last())
    }
}

/// The last `n` entries of `s`, all of it when it has fewer.
pub open spec fn last_n<T>(s: Seq<T>, n: nat) -> Seq<T> {
    if s.len() > n {
        s.subrange(s.len() - n, s.len() as int)
    } else {
        s
    }
}

/// The first `n` entries of `s`, all of it when it has fewer.
pub open spec fn first_n<T>(s: Seq<T>, n: nat) -> Seq<T> {
    if s.len() > n {
        s.take(n as int)
    } else {
        s
    }
}

/// The tail view of a log file with the content `content`; `None` stands for
/// a file that could not be opened.
pub open spec fn tail_view(content: Option<Seq<u8>>) -> Seq<Seq<char>> {
    match content {
        Some(bytes) => last_n(decoded(raw_lines(bytes)), MAX_LOG_LINES as nat),
        None => Seq::empty(),
    }
}

/// The view of a log file from the start of a run; `content` is what the
/// file holds from the recorded offset on, `None` when the file could not be
/// opened or the offset could not be sought. It reads the first
/// `MAX_INITIAL_LINES` lines and keeps those that are text.
pub open spec fn initial_view(content: Option<Seq<u8>>) -> Seq<Seq<char>> {
    match content {
        Some(bytes) => decoded(first_n(raw_lines(bytes), MAX_INITIAL_LINES as nat)),
        None => Seq::empty(),
    }
}

/// What was read of a file, as contracts see it.
pub open spec fn content_view(content: Option<&[u8]>) -> Option<Seq<u8>> {
    match content {
        Some(bytes) => Some(bytes@),
        None => None,
    }
}

/// The views of a sequence of byte vectors.
pub open spec fn byte_views(v: Seq<Vec<u8>>) -> Seq<Seq<u8>> {
    v.map_values(|x: Vec<u8>| x@)
}

/// At most as many lines are decoded as there are.
pub proof fn lemma_decoded_len(raw: Seq<Seq<u8>>)
    ensures
        decoded(raw).len() <= raw.len(),
    decreases raw.len(),
{
    if raw.len() > 0 {
        lemma_decoded_len(raw.drop_last());
    }
}

/// Where every line is text, none is dropped: line `k` of the decoded lines
/// is line `k` of the file.
pub proof fn lemma_decoded_all_text(raw: Seq<Seq<u8>>)
    requires
        forall|k: int| 0 <= k < raw.len() ==> valid_utf8(#[trigger] raw[k]),
    ensures
        decoded(raw).len() == raw.len(),
        forall|k: int| 0 <= k < raw.len() ==> #[trigger] decoded(raw)[k] == decode_utf8(raw[k]),
    decreases raw.len(),
{
    if raw.len() > 0 {
        let front = raw.drop_last();
        assert forall|k: int| 0 <= k < front.len() implies valid_utf8(#[trigger] front[k]) by {
            assert(front[k] == raw[k]);
        }
        lemma_decoded_all_text(front);
        assert forall|k: int| 0 <= k < raw.len() implies #[trigger] decoded(raw)[k] == decode_utf8(
            raw[k],
        ) by {
            if k < front.len() {
                assert(decoded(raw)[k] == decoded(front)[k]);
                assert(front[k] == raw[k]);
            }
        }
    }
}

/// The tail view of a file holds `min(n, MAX_LOG_LINES)` lines, where `n` is
/// the number of text lines of the file, and they are the last text lines of
/// the file in the order of the file.
pub proof fn lemma_tail_bound(bytes: Seq<u8>)
    ensures
        tail_view(Some(bytes)).len() <= MAX_LOG_LINES,
        tail_view(Some(bytes)).len() == if decoded(raw_lines(bytes)).len() <= MAX_LOG_LINES {
            decoded(raw_lines(bytes)).len()
        } else {
            MAX_LOG_LINES as nat
        },
        forall|k: int|
            0 <= k < tail_view(Some(bytes)).len() ==> #[trigger] tail_view(Some(bytes))[k]
                == decoded(raw_lines(bytes))[decoded(raw_lines(bytes)).len() - tail_view(
                Some(bytes),
            ).len() + k],
{
}

/// The view from the start of a run never holds more than
/// `MAX_INITIAL_LINES` lines.
pub proof fn lemma_initial_bound(content: Option<Seq<u8>>)
    ensures
        initial_view(content).len() <= MAX_INITIAL_LINES,
{
    match content {
        Some(bytes) => {
            lemma_decoded_len(first_n(raw_lines(bytes), MAX_INITIAL_LINES as nat));
        },
        None => {},
    }
}

/// Splits `bytes` into the lines of the file.
pub fn split_raw_lines(bytes: &[u8]) -> (r: Vec<Vec<u8>>)
    ensures
        byte_views(r@) == raw_lines(bytes@),
{
    let mut done: Vec<Vec<u8>> = Vec::new();
    let mut cur: Vec<u8> = Vec::new();
    let mut i: usize = 0;
    assert(bytes@.take(0) =~= Seq::<u8>::empty());
    assert(byte_views(done@) =~= Seq::<Seq<u8>>::empty());
    while i < bytes.len()
        invariant
            i <= bytes.len(),
            byte_views(done@) == ended_lines(bytes@.take(i as int)),
            cur@ == pending(bytes@.take(i as int)),
        decreases bytes.len() - i,
    {
        let b = bytes[i];
        let ghost prefix = bytes@.take(i as int + 1);
        let ghost old_done = done@;
        assert(prefix.drop_last() =~= bytes@.take(i as int));
        assert(prefix.last() == b);
        if b == 0x0a {
            if cur.len() > 0 && cur[cur.len() - 1] == 0x0d {
                cur.pop();
                assert(cur@ =~= strip_cr(pending(prefix.drop_last())));
            }
            done.push(cur);
            cur = Vec::new();
            assert(byte_views(done@) =~= byte_views(old_done).push(
                strip_cr(pending(prefix.drop_last())),
            ));
        } else {
            cur.push(b);
        }
        i += 1;
    }
    assert(bytes@.take(i as int) =~= bytes@);
    if cur.len() > 0 {
        let ghost old_done = done@;
        let ghost last = cur@;
        done.push(cur);
        assert(byte_views(done@) =~= byte_views(old_done).push(last));
    }
    done
}

/// `String::from_utf8` of the standard library, its error dropped: the
/// bytes as a string when they are valid UTF-8, nothing when they are not.
/// The string then holds those same bytes.
#[verifier::external_body]
fn string_from_utf8(bytes: &Vec<u8>) -> (r: Option<String>)
    ensures
        r is Some <==> valid_utf8(bytes@),
        r matches Some(s) ==> encode_utf8(s@) == bytes@,
{
    String::from_utf8(bytes.clone()).ok()
}

/// Decodes the first `upto` lines of `raw`, dropping those that are not
/// text.
fn decode_lines(raw: &Vec<Vec<u8>>, upto: usize) -> (r: Vec<String>)
    requires
        upto <= raw.len(),
    ensures
        texts(r@) == decoded(byte_views(raw@).take(upto as int)),
{
    let mut out: Vec<String> = Vec::new();
    let mut i: usize = 0;
    assert(byte_views(raw@).take(0) =~= Seq::<Seq<u8>>::empty());
    assert(texts(out@) =~= Seq::<Seq<char>>::empty());
    while i < upto
        invariant
            i <= upto <= raw.len(),
            texts(out@) == decoded(byte_views(raw@).take(i as int)),
        decreases upto - i,
    {
        let ghost read = byte_views(raw@).take(i as int + 1);
        let ghost old_out = texts(out@);
        assert(read.drop_last() =~= byte_views(raw@).take(i as int));
        assert(read.last() == raw@[i as int]@);
        match string_from_utf8(&raw[i]) {
            Some(s) => {
                proof {
                    vstd::utf8::encode_utf8_decode_utf8(s@);
                }
                out.push(s);
                assert(texts(out@) =~= old_out.push(s@));
            },
            None => {},
        }
        i += 1;
    }
    out
}

/// The last lines of a log file, at most `MAX_LOG_LINES` of them, oldest
/// first. `content` holds the bytes of the file, or nothing when the file
/// could not be opened: the view is then empty.
pub fn tail_lines(content: Option<&[u8]>) -> (r: Vec<String>)
    ensures
        texts(r@) == tail_view(content_view(content)),
        r@.len() <= MAX_LOG_LINES,
        content is None ==> r@.len() == 0,
{
    match content {
        Some(bytes) => {
            let raw = split_raw_lines(bytes);
            assert(byte_views(raw@).take(raw@.len() as int) =~= byte_views(raw@));
            let mut all = decode_lines(&raw, raw.len());
            if all.len() > MAX_LOG_LINES {
                let ghost whole = texts(all@);
                let start: usize = all.len() - MAX_LOG_LINES;
                let kept = all.split_off(start);
                assert(texts(kept@) =~= whole.subrange(start as int, whole.len() as int));
                kept
            } else {
                all
            }
        },
        None => {
            let r: Vec<String> = Vec::new();
            assert(texts(r@) =~= Seq::<Seq<char>>::empty());
            r
        },
    }
}

/// The first lines that a process wrote since it started, read from the
/// first `MAX_INITIAL_LINES` lines of `content`. `content` holds the bytes
/// of the file from the recorded offset on, or nothing when the file could
/// not be opened or the offset could not be sought: the view is then empty.
pub fn initial_lines(content: Option<&[u8]>) -> (r: Vec<String>)
    ensures
        texts(r@) == initial_view(content_view(content)),
        r@.len() <= MAX_INITIAL_LINES,
        content is None ==> r@.len() == 0,
{
    match content {
        Some(bytes) => {
            let raw = split_raw_lines(bytes);
            let upto: usize = if raw.len() > MAX_INITIAL_LINES {
                MAX_INITIAL_LINES
            } else {
                raw.len()
            };
            assert(byte_views(raw@).take(upto as int) =~= first_n(
                raw_lines(bytes@),
                MAX_INITIAL_LINES as nat,
            ));
            proof {
                lemma_initial_bound(Some(bytes@));
            }
            decode_lines(&raw, upto)
        },
        None => {
            let r: Vec<String> = Vec::new();
            assert(texts(r@) =~= Seq::<Seq<char>>::empty());
            r
        },
    }
}

} // verus!
