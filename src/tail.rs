//! The tail reader: the last N structured records of a log file, read from a
//! bounded window at the end of the file.

use vstd::prelude::*;
use crate::json::{
    is_json, lemma_record_determined, parse_log_line, parsed_from, same_fields, LogEntry,
};

verus! {

/// Files below this size (in bytes) are read whole.
pub const SMALL_FILE_LIMIT: u64 = 1_000_000;

/// Size in bytes of the trailing window read from larger files.
pub const TAIL_WINDOW: u64 = 500_000;

/// Number of records returned when the caller names no count.
pub const DEFAULT_RECORD_COUNT: usize = 100;

pub const NEWLINE: u8 = 10;

/// Offset at which reading starts: the whole file when it is small, else
/// the last `TAIL_WINDOW` bytes.
pub open spec fn spec_read_offset(file_size: nat) -> nat {
    if file_size < SMALL_FILE_LIMIT {
        0
    } else {
        (file_size - TAIL_WINDOW) as nat
    }
}

/// The byte offset at which to start reading a log file of the given size.
pub fn read_offset(file_size: u64) -> (r: u64)
    ensures
        r == spec_read_offset(file_size as nat),
        r <= file_size,
        file_size >= SMALL_FILE_LIMIT ==> file_size - r == TAIL_WINDOW,
{
    if file_size < SMALL_FILE_LIMIT {
        0
    } else {
        file_size - TAIL_WINDOW
    }
}

/// The pieces of `s` from `start` on, where `s[start..i]` holds no newline:
/// the text is cut at every newline, and the piece after the last newline
/// is kept (empty when the text ends with one).
pub open spec fn split_from(s: Seq<u8>, start: int, i: int) -> Seq<Seq<u8>>
    decreases s.len() - i,
{
    if i >= s.len() {
        seq![s.subrange(start, s.len() as int)]
    } else if s[i] == NEWLINE {
        seq![s.subrange(start, i)] + split_from(s, i + 1, i + 1)
    } else {
        split_from(s, start, i + 1)
    }
}

/// The lines of a text: its pieces between newlines. A carriage return
/// before a newline stays in its line; JSON parsing reads it as white space.
pub open spec fn lines_of(s: Seq<u8>) -> Seq<Seq<u8>> {
    split_from(s, 0, 0)
}

/// The lines that parse as one JSON document, in order.
pub open spec fn record_lines(lines: Seq<Seq<u8>>) -> Seq<Seq<u8>> {
    lines.filter(|l: Seq<u8>| is_json(l))
}

/// The last `n` elements of `s` (all of them when it has fewer).
pub open spec fn last_n<T>(s: Seq<T>, n: nat) -> Seq<T> {
    if s.len() <= n {
        s
    } else {
        s.subrange(s.len() - n, s.len() as int)
    }
}

/// The raw lines of the last `n` records of a text.
pub open spec fn tail_record_lines(text: Seq<u8>, n: nat) -> Seq<Seq<u8>> {
    last_n(record_lines(lines_of(text)), n)
}

pub open spec fn lines_view(v: Seq<Vec<u8>>) -> Seq<Seq<u8>> {
    v.map_values(|l: Vec<u8>| l@)
}

fn copy_range(s: &Vec<u8>, from: usize, to: usize) -> (r: Vec<u8>)
    requires
        from <= to <= s@.len(),
    ensures
        r@ == s@.subrange(from as int, to as int),
{
    let mut r: Vec<u8> = Vec::new();
    let mut i: usize = from;
    while i < to
        invariant
            from <= i <= to <= s@.len(),
            r@ == s@.subrange(from as int, i as int),
        decreases to - i,
    {
        r.push(s[i]);
        proof {
            assert(s@.subrange(from as int, i + 1) == s@.subrange(from as int, i as int).push(s@[i as int]));
        }
        i = i + 1;
    }
    r
}

/// Cuts a text into its lines (see `lines_of`).
pub fn split_lines(text: &Vec<u8>) -> (r: Vec<Vec<u8>>)
    ensures
        lines_view(r@) == lines_of(text@),
{
    let mut r: Vec<Vec<u8>> = Vec::new();
    let mut start: usize = 0;
    let mut i: usize = 0;
    while i < text.len()
        invariant
            start <= i <= text@.len(),
            lines_view(r@) + split_from(text@, start as int, i as int) == lines_of(text@),
        decreases text@.len() - i,
    {
        if text[i] == NEWLINE {
            let piece = copy_range(text, start, i);
            proof {
                assert(lines_view(r@.push(piece)) == lines_view(r@).push(piece@));
                assert(lines_view(r@).push(piece@) + split_from(text@, i + 1, i + 1) =~= lines_view(r@)
                    + split_from(text@, start as int, i as int));
            }
            r.push(piece);
            start = i + 1;
        }
        i = i + 1;
    }
    let piece = copy_range(text, start, text.len());
    proof {
        assert(lines_view(r@.push(piece)) =~= lines_view(r@) + split_from(text@, start as int, i as int));
    }
    r.push(piece);
    r
}

/// Keeps the last `n` elements, dropping from the front.
pub fn keep_last<T>(v: Vec<T>, n: usize) -> (r: Vec<T>)
    ensures
        r@ == last_n(v@, n as nat),
{
    let mut v = v;
    if v.len() <= n {
        v
    } else {
        let at = v.len() - n;
        v.split_off(at)
    }
}

/// The lines of the last `limit` records of a text, oldest first: lines that
/// are not one JSON document are dropped.
pub fn tail_lines(text: &Vec<u8>, limit: usize) -> (r: Vec<Vec<u8>>)
    ensures
        lines_view(r@) == tail_record_lines(text@, limit as nat),
{
    let lines = split_lines(text);
    let mut kept: Vec<Vec<u8>> = Vec::new();
    let mut i: usize = 0;
    while i < lines.len()
        invariant
            i <= lines@.len(),
            lines_view(lines@) == lines_of(text@),
            lines_view(kept@) == record_lines(lines_view(lines@).subrange(0, i as int)),
        decreases lines@.len() - i,
    {
        let ok = crate::json::parse_members(lines[i].as_slice()).is_some();
        proof {
            let ls = lines_view(lines@);
            assert(ls.subrange(0, i + 1) == ls.subrange(0, i as int).push(ls[i as int]));
            ls.subrange(0, i as int).lemma_filter_push(ls[i as int], |l: Seq<u8>| is_json(l));
        }
        if ok {
            let line = copy_range(&lines[i], 0, lines[i].len());
            proof {
                assert(line@ =~= lines@[i as int]@);
                assert(lines_view(kept@.push(line)) =~= lines_view(kept@).push(line@));
            }
            kept.push(line);
        }
        i = i + 1;
    }
    proof {
        assert(lines_view(lines@).subrange(0, lines@.len() as int) == lines_view(lines@));
    }
    let r = keep_last(kept, limit);
    proof {
        assert(lines_view(r@) =~= last_n(lines_view(kept@), limit as nat));
    }
    r
}

/// `r` holds, in order, the record of each of the last `n` record lines of
/// `text`.
pub open spec fn is_tail_of(r: Seq<LogEntry>, text: Seq<u8>, n: nat) -> bool {
    &&& r.len() == tail_record_lines(text, n).len()
    &&& forall|i: int|
        0 <= i < r.len() ==> parsed_from(#[trigger] r[i], tail_record_lines(text, n)[i])
}

/// The last `limit` structured records of a text, oldest first. Lines that
/// are not one JSON document are dropped; record `i` is the record of line
/// `i` of `tail_record_lines`.
pub fn tail_records(text: &Vec<u8>, limit: usize) -> (r: Vec<LogEntry>)
    ensures
        is_tail_of(r@, text@, limit as nat),
        r@.len() == if record_lines(lines_of(text@)).len() <= limit {
            record_lines(lines_of(text@)).len()
        } else {
            limit as nat
        },
{
    let lines = tail_lines(text, limit);
    proof {
        let f = record_lines(lines_of(text@));
        assert forall|j: int| 0 <= j < lines@.len() implies is_json(#[trigger] lines@[j]@) by {
            assert(lines@[j]@ == lines_view(lines@)[j]);
            assert(lines_view(lines@) == last_n(f, limit as nat));
            assert(lines_view(lines@).len() == lines@.len());
            let k = if f.len() <= limit as int { j } else { f.len() - limit as int + j };
            assert(0 <= k < f.len());
            assert(lines_view(lines@)[j] == f[k]);
            lines_of(text@).lemma_filter_pred(|l: Seq<u8>| is_json(l), k);
        }
    }
    let mut r: Vec<LogEntry> = Vec::new();
    let mut i: usize = 0;
    while i < lines.len()
        invariant
            i <= lines@.len(),
            r@.len() == i,
            forall|j: int| 0 <= j < lines@.len() ==> is_json(#[trigger] lines@[j]@),
            lines_view(lines@) == tail_record_lines(text@, limit as nat),
            forall|j: int| 0 <= j < i ==> parsed_from(#[trigger] r@[j], lines@[j]@),
        decreases lines@.len() - i,
    {
        match parse_log_line(lines[i].as_slice()) {
            Some(e) => {
                let ghost before = r@;
                r.push(e);
                assert forall|j: int| 0 <= j < i + 1 implies parsed_from(#[trigger] r@[j], lines@[j]@) by {
                    if j < i {
                        assert(r@[j] == before[j]);
                    }
                }
            },
            None => {
                assert(false);
            },
        }
        i = i + 1;
    }
    proof {
        assert forall|j: int| 0 <= j < r@.len() implies parsed_from(
            #[trigger] r@[j],
            tail_record_lines(text@, limit as nat)[j],
        ) by {
            assert(lines_view(lines@)[j] == lines@[j]@);
        }
    }
    r
}

/// The records of the active log file: none when the file does not exist
/// (`None`), else the last `limit` records (100 by default) of `contents`,
/// the bytes read from `read_offset` on.
pub fn get_logs(contents: Option<&Vec<u8>>, limit: Option<usize>) -> (r: Vec<LogEntry>)
    ensures
        match contents {
            None => r@.len() == 0,
            Some(text) => is_tail_of(
                r@,
                text@,
                (match limit {
                    Some(n) => n,
                    None => DEFAULT_RECORD_COUNT,
                }) as nat,
            ),
        },
{
    match contents {
        None => Vec::new(),
        Some(text) => {
            let n = match limit {
                Some(n) => n,
                None => DEFAULT_RECORD_COUNT,
            };
            tail_records(text, n)
        },
    }
}

/// A text with no more than `n` records gives all of them: no padding and
/// no error.
pub proof fn lemma_fewer_records_all_returned(text: Seq<u8>, n: nat)
    requires
        record_lines(lines_of(text)).len() <= n,
    ensures
        tail_record_lines(text, n) == record_lines(lines_of(text)),
{
}

proof fn lemma_split_nonempty(s: Seq<u8>, start: int, i: int)
    ensures
        split_from(s, start, i).len() >= 1,
    decreases s.len() - i,
{
    if i < s.len() {
        if s[i] == NEWLINE {
            lemma_split_nonempty(s, i + 1, i + 1);
        } else {
            lemma_split_nonempty(s, start, i + 1);
        }
    }
}

/// Cutting a text at `c` shifts its pieces: nothing before `c` matters to
/// the pieces from `start >= c` on.
proof fn lemma_split_shift(s: Seq<u8>, c: int, start: int, i: int)
    requires
        0 <= c <= start <= i <= s.len(),
    ensures
        split_from(s, start, i) == split_from(s.subrange(c, s.len() as int), start - c, i - c),
    decreases s.len() - i,
{
    let w = s.subrange(c, s.len() as int);
    if i < s.len() {
        assert(w[i - c] == s[i]);
        if s[i] == NEWLINE {
            lemma_split_shift(s, c, i + 1, i + 1);
            assert(w.subrange(start - c, i - c) == s.subrange(start, i));
        } else {
            lemma_split_shift(s, c, start, i + 1);
        }
    } else {
        assert(w.subrange(start - c, w.len() as int) == s.subrange(start, s.len() as int));
    }
}

/// Where the current piece starts changes only the first piece.
proof fn lemma_split_first_only(s: Seq<u8>, a: int, b: int, i: int)
    requires
        0 <= a <= i,
        0 <= b <= i,
        i <= s.len(),
    ensures
        split_from(s, a, i).drop_first() == split_from(s, b, i).drop_first(),
    decreases s.len() - i,
{
    if i < s.len() {
        if s[i] == NEWLINE {
            let rest = split_from(s, i + 1, i + 1);
            assert((seq![s.subrange(a, i)] + rest).drop_first() == rest);
            assert((seq![s.subrange(b, i)] + rest).drop_first() == rest);
        } else {
            lemma_split_first_only(s, a, b, i + 1);
        }
    }
}

/// The pieces from `i` on end with the pieces from `c >= i` on, whatever
/// piece `c` falls in.
proof fn lemma_split_suffix(s: Seq<u8>, start: int, i: int, c: int)
    requires
        0 <= start <= i <= c <= s.len(),
    ensures
        exists|p: Seq<Seq<u8>>, a: int|
            start <= a <= c && split_from(s, start, i) == #[trigger] (p + split_from(s, a, c)),
    decreases c - i,
{
    if i == c {
        assert(split_from(s, start, i) == Seq::<Seq<u8>>::empty() + split_from(s, start, c));
    } else if s[i] == NEWLINE {
        lemma_split_suffix(s, i + 1, i + 1, c);
        let (p, a) = choose|p: Seq<Seq<u8>>, a: int|
            i + 1 <= a <= c && split_from(s, i + 1, i + 1) == #[trigger] (p + split_from(s, a, c));
        let q = seq![s.subrange(start, i)] + p;
        assert(split_from(s, start, i) == q + split_from(s, a, c));
    } else {
        lemma_split_suffix(s, start, i + 1, c);
    }
}

proof fn lemma_last_n_of_tail<T>(a: Seq<T>, b: Seq<T>, n: nat)
    requires
        n <= b.len(),
    ensures
        last_n(a + b, n) == last_n(b, n),
{
    assert(last_n(a + b, n) =~= last_n(b, n));
}

/// Reading only a trailing window of a text, from byte `offset` on, gives
/// the lines of the text that follow the window's first line (which may be
/// the partial end of a longer line); and it gives the same last `n`
/// records as reading the whole text whenever the window holds at least
/// `n` records after its first line.
pub proof fn lemma_window_matches_whole(text: Seq<u8>, offset: int, n: nat)
    requires
        0 <= offset <= text.len(),
        n <= record_lines(lines_of(text.subrange(offset, text.len() as int)).drop_first()).len(),
    ensures
        ({
            let whole = lines_of(text);
            let rest = lines_of(text.subrange(offset, text.len() as int)).drop_first();
            rest.len() < whole.len() && whole.subrange(whole.len() - rest.len(), whole.len() as int)
                == rest
        }),
        tail_record_lines(text.subrange(offset, text.len() as int), n) == tail_record_lines(text, n),
{
    let w = text.subrange(offset, text.len() as int);
    lemma_split_suffix(text, 0, 0, offset);
    let (p, a) = choose|p: Seq<Seq<u8>>, a: int|
        0 <= a <= offset && split_from(text, 0, 0) == #[trigger] (p + split_from(text, a, offset));
    lemma_split_shift(text, offset, offset, offset);
    lemma_split_first_only(text, a, offset, offset);
    lemma_split_nonempty(text, a, offset);
    lemma_split_nonempty(text, offset, offset);
    let mid = split_from(text, a, offset);
    let rest = lines_of(w).drop_first();
    assert(mid == seq![mid[0]] + rest);
    assert(lines_of(w) == seq![lines_of(w)[0]] + rest);
    let whole = lines_of(text);
    assert(whole == (p + seq![mid[0]]) + rest);
    assert(whole.subrange(whole.len() - rest.len(), whole.len() as int) == rest);
    let pred = |l: Seq<u8>| is_json(l);
    Seq::filter_distributes_over_add(p + seq![mid[0]], rest, pred);
    Seq::filter_distributes_over_add(seq![lines_of(w)[0]], rest, pred);
    lemma_last_n_of_tail((p + seq![mid[0]]).filter(pred), rest.filter(pred), n);
    lemma_last_n_of_tail(seq![lines_of(w)[0]].filter(pred), rest.filter(pred), n);
}

/// Tail results of the same text agree record by record: reading an
/// unchanged file twice, or two files whose read windows hold the same
/// bytes, gives the same records (text fields and metadata keys).
pub proof fn lemma_same_text_same_records(text: Seq<u8>, n: nat, a: Seq<LogEntry>, b: Seq<LogEntry>)
    requires
        is_tail_of(a, text, n),
        is_tail_of(b, text, n),
    ensures
        a.len() == b.len(),
        forall|i: int| 0 <= i < a.len() ==> same_fields(#[trigger] a[i], b[i]),
{
    assert forall|i: int| 0 <= i < a.len() implies same_fields(#[trigger] a[i], b[i]) by {
        lemma_record_determined(a[i], b[i], crate::json::json_member_texts(tail_record_lines(text, n)[i]));
    }
}

/// Reading only a trailing window gives the same last `n` records as
/// reading the whole text, record by record, whenever the window holds at
/// least `n` records after its first (possibly partial) line.
pub proof fn lemma_window_records_match(
    text: Seq<u8>,
    offset: int,
    n: nat,
    from_window: Seq<LogEntry>,
    from_whole: Seq<LogEntry>,
)
    requires
        0 <= offset <= text.len(),
        n <= record_lines(lines_of(text.subrange(offset, text.len() as int)).drop_first()).len(),
        is_tail_of(from_window, text.subrange(offset, text.len() as int), n),
        is_tail_of(from_whole, text, n),
    ensures
        from_window.len() == from_whole.len(),
        forall|i: int| 0 <= i < from_window.len() ==> same_fields(#[trigger] from_window[i], from_whole[i]),
{
    lemma_window_matches_whole(text, offset, n);
    lemma_same_text_same_records(text, n, from_window, from_whole);
}

/// A text with at most `n` records gives all of them, in file order.
pub proof fn lemma_fewer_records_in_order(text: Seq<u8>, n: nat, r: Seq<LogEntry>)
    requires
        record_lines(lines_of(text)).len() <= n,
        is_tail_of(r, text, n),
    ensures
        r.len() == record_lines(lines_of(text)).len(),
        forall|i: int| 0 <= i < r.len() ==> parsed_from(#[trigger] r[i], record_lines(lines_of(text))[i]),
{
}

} // verus!
