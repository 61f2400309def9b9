//! Record files: UTF-8 text, one identifier per line.
use crate::identifier::{is_identifier, is_hex_digit};
use vstd::prelude::*;
use vstd::utf8::{decode_utf8, encode_utf8, valid_utf8};

verus! {

broadcast use vstd::utf8::group_utf8_lib;

pub const NEWLINE: u8 = 10;

pub const CARRIAGE_RETURN: u8 = 13;

/// A line's bytes without its trailing carriage return, if it has one.
pub open spec fn line_body(seg: Seq<u8>) -> Seq<u8> {
    if seg.len() > 0 && seg.last() == CARRIAGE_RETURN {
        seg.drop_last()
    } else {
        seg
    }
}

/// What one line contributes: its text when it is non-empty valid UTF-8,
/// nothing otherwise.
pub open spec fn line_entry(seg: Seq<u8>) -> Seq<Seq<char>> {
    let body = line_body(seg);
    if body.len() > 0 && valid_utf8(body) {
        seq![decode_utf8(body)]
    } else {
        seq![]
    }
}

/// The identifiers of `b` from the line that starts at `start`, scanning on
/// from position `i` (`start <= i`).
pub open spec fn records_from(b: Seq<u8>, start: int, i: int) -> Seq<Seq<char>>
    decreases b.len() - i,
{
    if i >= b.len() {
        line_entry(b.subrange(start, b.len() as int))
    } else if b[i] == NEWLINE {
        line_entry(b.subrange(start, i)) + records_from(b, i + 1, i + 1)
    } else {
        records_from(b, start, i + 1)
    }
}

/// The identifiers that a record file with contents `b` holds, in order.
pub open spec fn record_identifiers(b: Seq<u8>) -> Seq<Seq<char>> {
    records_from(b, 0, 0)
}

/// The contents of a record file that lists `ids`, each on its own line.
pub open spec fn rendered_record(ids: Seq<Seq<char>>) -> Seq<u8>
    decreases ids.len(),
{
    if ids.len() == 0 {
        seq![]
    } else {
        rendered_record(ids.drop_last()) + encode_utf8(ids.last()) + seq![NEWLINE]
    }
}

/// Scanning a suffix of `p + q` is scanning `q`.
proof fn lemma_records_shift(p: Seq<u8>, q: Seq<u8>, s: int, i: int)
    requires
        p.len() <= s <= i <= p.len() + q.len(),
    ensures
        records_from(p + q, s, i) == records_from(q, s - p.len(), i - p.len()),
    decreases p.len() + q.len() - i,
{
    let b = p + q;
    if i >= b.len() {
        assert(b.subrange(s, b.len() as int) == q.subrange(s - p.len(), q.len() as int));
    } else {
        assert(b[i] == q[i - p.len()]);
        if b[i] == NEWLINE {
            assert(b.subrange(s, i) == q.subrange(s - p.len(), i - p.len()));
            lemma_records_shift(p, q, i + 1, i + 1);
        } else {
            lemma_records_shift(p, q, s, i + 1);
        }
    }
}

/// The lines of `p + q`, where `p` ends a line, are those of `p` and then
/// those of `q`.
proof fn lemma_records_split(p: Seq<u8>, q: Seq<u8>, s: int, i: int)
    requires
        p.len() > 0,
        p.last() == NEWLINE,
        0 <= s <= i < p.len(),
    ensures
        records_from(p + q, s, i) == records_from(p, s, i) + record_identifiers(q),
    decreases p.len() - i,
{
    let b = p + q;
    assert(b[i] == p[i]);
    if p[i] == NEWLINE {
        assert(b.subrange(s, i) == p.subrange(s, i));
        if i + 1 == p.len() {
            lemma_records_shift(p, q, i + 1, i + 1);
            assert(p.subrange(i + 1, p.len() as int).len() == 0);
            assert(records_from(p, i + 1, i + 1) == Seq::<Seq<char>>::empty());
        } else {
            lemma_records_split(p, q, i + 1, i + 1);
        }
        assert(records_from(b, s, i) == line_entry(p.subrange(s, i)) + (records_from(
            p,
            i + 1,
            i + 1,
        ) + record_identifiers(q)));
    } else {
        lemma_records_split(p, q, s, i + 1);
    }
}

/// A line that holds one identifier reads back as that identifier.
proof fn lemma_records_single(id: Seq<char>)
    requires
        is_identifier(id),
    ensures
        record_identifiers(encode_utf8(id) + seq![NEWLINE]) == seq![id],
{
    assert(vstd::utf8::is_ascii_chars(id)) by {
        assert forall|i| 0 <= i < id.len() implies '\0' <= #[trigger] id[i] <= '\u{7f}' by {
            if !crate::identifier::is_hyphen_position(i) {
                assert(is_hex_digit(id[i]));
            }
        }
    }
    vstd::utf8::is_ascii_chars_encode_utf8(id);
    let e = encode_utf8(id);
    let t = e + seq![NEWLINE];
    assert forall|i: int| 0 <= i < e.len() implies #[trigger] t[i] != NEWLINE
        && t[i] != CARRIAGE_RETURN by {
        assert(t[i] == e[i]);
        assert(id[i] as u8 == e[i]);
        if !crate::identifier::is_hyphen_position(i) {
            assert(is_hex_digit(id[i]));
        }
    }
    assert forall|i: int| 0 <= i <= e.len() implies #[trigger] records_from(t, 0, i)
        == records_from(t, 0, e.len() as int) by {
        lemma_records_scan(t, e.len() as int, i);
    }
    assert(t.subrange(0, e.len() as int) == e);
    assert(t.subrange((e.len() + 1) as int, t.len() as int).len() == 0int);
    assert(e.last() == t[e.len() - 1]);
    assert(line_body(e) == e);
    assert(valid_utf8(e) && decode_utf8(e) == id);
    assert(t[e.len() as int] == NEWLINE);
    assert(records_from(t, (e.len() + 1) as int, (e.len() + 1) as int) == Seq::<Seq<char>>::empty());
    assert(records_from(t, 0, e.len() as int) == line_entry(e) + Seq::<Seq<char>>::empty());
    assert(records_from(t, 0, 0) == records_from(t, 0, e.len() as int));
}

proof fn lemma_records_scan(t: Seq<u8>, n: int, i: int)
    requires
        0 <= i <= n < t.len(),
        forall|j: int| 0 <= j < n ==> #[trigger] t[j] != NEWLINE,
    ensures
        records_from(t, 0, i) == records_from(t, 0, n),
    decreases n - i,
{
    if i < n {
        lemma_records_scan(t, n, i + 1);
    }
}

/// Reading back a record file written for a batch of identifiers gives the
/// batch again, in the order written.
pub proof fn lemma_record_round_trip(ids: Seq<Seq<char>>)
    requires
        forall|i: int| 0 <= i < ids.len() ==> is_identifier(#[trigger] ids[i]),
    ensures
        record_identifiers(rendered_record(ids)) == ids,
    decreases ids.len(),
{
    if ids.len() > 0 {
        let front = ids.drop_last();
        let r = rendered_record(front);
        let tail = encode_utf8(ids.last()) + seq![NEWLINE];
        assert(rendered_record(ids) == r + tail);
        lemma_records_single(ids.last());
        if front.len() == 0 {
            assert(r + tail == tail);
            assert(ids == seq![ids.last()]);
        } else {
            lemma_record_round_trip(front);
            assert(r.last() == NEWLINE);
            lemma_records_split(r, tail, 0, 0);
            assert(ids == front + seq![ids.last()]);
        }
    }
}

/// Relies on std's `str::from_utf8`: `Ok` exactly for valid UTF-8, holding
/// the decoded characters.
#[verifier::external_body]
fn utf8_text(b: &[u8]) -> (r: Option<&str>)
    ensures
        r is Some <==> valid_utf8(b@),
        r is Some ==> r->0@ == decode_utf8(b@),
{
    std::str::from_utf8(b).ok()
}

/// Reads the identifiers from the contents of a record file: one per line,
/// a trailing carriage return dropped, empty lines and lines that are not
/// valid UTF-8 skipped.
pub fn parse_record(b: &[u8]) -> (r: Vec<String>)
    ensures
        r@.map_values(|s: String| s@) == record_identifiers(b@),
{
    let mut out: Vec<String> = Vec::new();
    let mut line: Vec<u8> = Vec::new();
    let ghost mut start: int = 0;
    let mut i: usize = 0;
    while i < b.len()
        invariant
            0 <= start <= i <= b@.len(),
            line@ == b@.subrange(start, i as int),
            out@.map_values(|s: String| s@) + records_from(b@, start, i as int)
                == record_identifiers(b@),
        decreases b.len() - i,
    {
        if b[i] == NEWLINE {
            let ghost before = out@.map_values(|s: String| s@);
            take_line(&line, &mut out);
            proof {
                assert(out@.map_values(|s: String| s@) == before + line_entry(line@));
                start = i + 1;
            }
            line = Vec::new();
        } else {
            line.push(b[i]);
            assert(line@ == b@.subrange(start, i + 1));
        }
        i = i + 1;
    }
    take_line(&line, &mut out);
    out
}

/// Appends the entry of one line to `out`.
fn take_line(line: &Vec<u8>, out: &mut Vec<String>)
    ensures
        final(out)@.map_values(|s: String| s@) == old(out)@.map_values(|s: String| s@)
            + line_entry(line@),
{
    let mut n: usize = line.len();
    if n > 0 && line[n - 1] == CARRIAGE_RETURN {
        n = n - 1;
    }
    let mut body: Vec<u8> = Vec::new();
    let mut k: usize = 0;
    while k < n
        invariant
            n <= line.len(),
            k <= n,
            body@ == line@.subrange(0, k as int),
        decreases n - k,
    {
        body.push(line[k]);
        k = k + 1;
    }
    assert(body@ == line_body(line@));
    if n > 0 {
        match utf8_text(body.as_slice()) {
            Some(text) => {
                let ghost before = out@;
                out.push(text.to_owned());
                assert(out@.map_values(|s: String| s@) == before.map_values(|s: String| s@)
                    + line_entry(line@));
            },
            None => {
                assert(out@.map_values(|s: String| s@) == old(out)@.map_values(|s: String| s@)
                    + line_entry(line@));
            },
        }
    } else {
        assert(out@.map_values(|s: String| s@) == old(out)@.map_values(|s: String| s@)
            + line_entry(line@));
    }
}

/// Writes the contents of a record file for `ids`: each identifier's UTF-8
/// bytes followed by a newline, in order.
pub fn render_record(ids: &Vec<String>) -> (r: Vec<u8>)
    ensures
        r@ == rendered_record(ids@.map_values(|s: String| s@)),
{
    let mut out: Vec<u8> = Vec::new();
    let mut k: usize = 0;
    while k < ids.len()
        invariant
            k <= ids.len(),
            out@ == rendered_record(ids@.subrange(0, k as int).map_values(|s: String| s@)),
        decreases ids.len() - k,
    {
        let bytes = ids[k].as_str().as_bytes();
        let mut j: usize = 0;
        let ghost base = out@;
        while j < bytes.len()
            invariant
                j <= bytes@.len(),
                k < ids.len(),
                bytes@ == encode_utf8(ids[k as int]@),
                out@ == base + bytes@.subrange(0, j as int),
            decreases bytes.len() - j,
        {
            out.push(bytes[j]);
            j = j + 1;
        }
        out.push(NEWLINE);
        proof {
            let v = ids@.subrange(0, k + 1).map_values(|s: String| s@);
            assert(v.drop_last() == ids@.subrange(0, k as int).map_values(|s: String| s@));
            assert(v.last() == ids[k as int]@);
            assert(bytes@.subrange(0, bytes@.len() as int) == bytes@);
        }
        k = k + 1;
    }
    assert(ids@.subrange(0, ids.len() as int) == ids@);
    out
}

} // verus!
