use vstd::prelude::*;
use vstd::utf8::{decode_utf8, encode_utf8, encode_utf8_decode_utf8, encode_utf8_valid_utf8, decode_utf8_encode_utf8, valid_utf8};

use crate::error::WorktreeError;
use crate::registry::{unique_names, Timestamp, WorktreeInfo, WorktreeRecord, XlaudeState};

verus! {

/// The eight big-endian bytes of a 64-bit integer.
pub open spec fn u64_be(n: u64) -> Seq<u8> {
    seq![
        (n >> 56u64) as u8,
        (n >> 48u64) as u8,
        (n >> 40u64) as u8,
        (n >> 32u64) as u8,
        (n >> 24u64) as u8,
        (n >> 16u64) as u8,
        (n >> 8u64) as u8,
        n as u8,
    ]
}

/// The 64-bit integer whose big-endian bytes open `b`.
pub open spec fn be_u64(b: Seq<u8>) -> u64 {
    ((b[0] as u64) << 56u64) | ((b[1] as u64) << 48u64) | ((b[2] as u64) << 40u64) | ((b[3] as u64) << 32u64)
        | ((b[4] as u64) << 24u64) | ((b[5] as u64) << 16u64) | ((b[6] as u64) << 8u64) | (b[7] as u64)
}

/// A text field: its UTF-8 length as eight big-endian bytes, then its UTF-8 bytes.
pub open spec fn field_bytes(s: Seq<char>) -> Seq<u8> {
    u64_be(encode_utf8(s).len() as u64) + encode_utf8(s)
}

/// A record: name, branch, path and repository name as text fields, then the
/// creation time's seconds (two's complement) and nanoseconds as integers.
#[verifier::opaque]
pub open spec fn record_bytes(r: WorktreeRecord) -> Seq<u8> {
    field_bytes(r.name) + field_bytes(r.branch) + field_bytes(r.path) + field_bytes(r.repo_name)
        + u64_be(r.created_at.secs as u64) + u64_be(r.created_at.nanos as u64)
}

/// The stored form of a registry: its records, one after another, in order.
pub open spec fn registry_bytes(recs: Seq<WorktreeRecord>) -> Seq<u8>
    decreases recs.len(),
{
    if recs.len() == 0 {
        Seq::empty()
    } else {
        record_bytes(recs[0]) + registry_bytes(recs.drop_first())
    }
}

/// The bytes are the stored form of some registry.
pub open spec fn is_registry_encoding(b: Seq<u8>) -> bool {
    exists|recs: Seq<WorktreeRecord>| unique_names(recs) && #[trigger] registry_bytes(recs) == b
}

proof fn lemma_be_u64_of_bytes(n: u64)
    ensures
        be_u64(u64_be(n)) == n,
{
    assert(((((n >> 56u64) as u8) as u64) << 56u64) | ((((n >> 48u64) as u8) as u64) << 48u64)
        | ((((n >> 40u64) as u8) as u64) << 40u64) | ((((n >> 32u64) as u8) as u64) << 32u64)
        | ((((n >> 24u64) as u8) as u64) << 24u64) | ((((n >> 16u64) as u8) as u64) << 16u64)
        | ((((n >> 8u64) as u8) as u64) << 8u64) | ((n as u8) as u64) == n) by (bit_vector);
}

proof fn lemma_bytes_of_be_u64(b: Seq<u8>)
    requires
        b.len() == 8,
    ensures
        u64_be(be_u64(b)) == b,
{
    let (b0, b1, b2, b3, b4, b5, b6, b7) = (b[0], b[1], b[2], b[3], b[4], b[5], b[6], b[7]);
    let n = be_u64(b);
    assert(n == ((b0 as u64) << 56u64) | ((b1 as u64) << 48u64) | ((b2 as u64) << 40u64) | ((b3 as u64) << 32u64)
        | ((b4 as u64) << 24u64) | ((b5 as u64) << 16u64) | ((b6 as u64) << 8u64) | (b7 as u64));
    assert(
        ((((b0 as u64) << 56u64) | ((b1 as u64) << 48u64) | ((b2 as u64) << 40u64) | ((b3 as u64) << 32u64)
        | ((b4 as u64) << 24u64) | ((b5 as u64) << 16u64) | ((b6 as u64) << 8u64) | (b7 as u64)) >> 56u64) as u8 == b0
        && ((((b0 as u64) << 56u64) | ((b1 as u64) << 48u64) | ((b2 as u64) << 40u64) | ((b3 as u64) << 32u64)
        | ((b4 as u64) << 24u64) | ((b5 as u64) << 16u64) | ((b6 as u64) << 8u64) | (b7 as u64)) >> 48u64) as u8 == b1
        && ((((b0 as u64) << 56u64) | ((b1 as u64) << 48u64) | ((b2 as u64) << 40u64) | ((b3 as u64) << 32u64)
        | ((b4 as u64) << 24u64) | ((b5 as u64) << 16u64) | ((b6 as u64) << 8u64) | (b7 as u64)) >> 40u64) as u8 == b2
        && ((((b0 as u64) << 56u64) | ((b1 as u64) << 48u64) | ((b2 as u64) << 40u64) | ((b3 as u64) << 32u64)
        | ((b4 as u64) << 24u64) | ((b5 as u64) << 16u64) | ((b6 as u64) << 8u64) | (b7 as u64)) >> 32u64) as u8 == b3
        && ((((b0 as u64) << 56u64) | ((b1 as u64) << 48u64) | ((b2 as u64) << 40u64) | ((b3 as u64) << 32u64)
        | ((b4 as u64) << 24u64) | ((b5 as u64) << 16u64) | ((b6 as u64) << 8u64) | (b7 as u64)) >> 24u64) as u8 == b4
        && ((((b0 as u64) << 56u64) | ((b1 as u64) << 48u64) | ((b2 as u64) << 40u64) | ((b3 as u64) << 32u64)
        | ((b4 as u64) << 24u64) | ((b5 as u64) << 16u64) | ((b6 as u64) << 8u64) | (b7 as u64)) >> 16u64) as u8 == b5
        && ((((b0 as u64) << 56u64) | ((b1 as u64) << 48u64) | ((b2 as u64) << 40u64) | ((b3 as u64) << 32u64)
        | ((b4 as u64) << 24u64) | ((b5 as u64) << 16u64) | ((b6 as u64) << 8u64) | (b7 as u64)) >> 8u64) as u8 == b6
        && (((b0 as u64) << 56u64) | ((b1 as u64) << 48u64) | ((b2 as u64) << 40u64) | ((b3 as u64) << 32u64)
        | ((b4 as u64) << 24u64) | ((b5 as u64) << 16u64) | ((b6 as u64) << 8u64) | (b7 as u64)) as u8 == b7
    ) by (bit_vector);
    assert(u64_be(n) =~= b);
}

proof fn lemma_secs_cast(secs: i64, v: u64)
    ensures
        ((secs as u64) as i64) == secs,
        ((v as i64) as u64) == v,
{
    assert(((secs as u64) as i64) == secs) by (bit_vector);
    assert(((v as i64) as u64) == v) by (bit_vector);
}

proof fn lemma_registry_bytes_push(recs: Seq<WorktreeRecord>, r: WorktreeRecord)
    ensures
        registry_bytes(recs.push(r)) == registry_bytes(recs) + record_bytes(r),
    decreases recs.len(),
{
    if recs.len() == 0 {
        assert(recs.push(r).drop_first() =~= Seq::<WorktreeRecord>::empty());
        assert(recs.push(r)[0] == r);
        assert(registry_bytes(recs.push(r).drop_first()) == Seq::<u8>::empty());
        assert(registry_bytes(recs) == Seq::<u8>::empty());
        assert(registry_bytes(recs.push(r)) =~= registry_bytes(recs) + record_bytes(r));
    } else {
        assert(recs.push(r).drop_first() =~= recs.drop_first().push(r));
        assert(recs.push(r)[0] == recs[0]);
        lemma_registry_bytes_push(recs.drop_first(), r);
        assert(registry_bytes(recs.push(r)) == record_bytes(recs[0]) + (registry_bytes(recs.drop_first()) + record_bytes(r)));
        assert(registry_bytes(recs.push(r)) =~= registry_bytes(recs) + record_bytes(r));
    }
}

proof fn lemma_registry_bytes_skip(recs: Seq<WorktreeRecord>, k: int)
    requires
        0 <= k < recs.len(),
    ensures
        registry_bytes(recs.skip(k)) == record_bytes(recs[k]) + registry_bytes(recs.skip(k + 1)),
{
    assert(recs.skip(k).drop_first() =~= recs.skip(k + 1));
}

proof fn lemma_registry_bytes_split(recs: Seq<WorktreeRecord>, k: int)
    requires
        0 <= k <= recs.len(),
    ensures
        registry_bytes(recs) == registry_bytes(recs.take(k)) + registry_bytes(recs.skip(k)),
    decreases k,
{
    if k == 0 {
        assert(recs.take(0) =~= Seq::<WorktreeRecord>::empty());
        assert(recs.skip(0) =~= recs);
        assert(registry_bytes(recs.take(0)) == Seq::<u8>::empty());
        assert(registry_bytes(recs) =~= registry_bytes(recs.take(k)) + registry_bytes(recs.skip(k)));
    } else {
        lemma_registry_bytes_split(recs, k - 1);
        lemma_registry_bytes_skip(recs, k - 1);
        assert(recs.take(k) =~= recs.take(k - 1).push(recs[k - 1]));
        lemma_registry_bytes_push(recs.take(k - 1), recs[k - 1]);
        let front = registry_bytes(recs.take(k - 1));
        let mid = record_bytes(recs[k - 1]);
        let back = registry_bytes(recs.skip(k));
        assert(front + (mid + back) =~= (front + mid) + back);
    }
}

/// Relies on `String::from_utf8`: it accepts exactly the valid UTF-8 byte
/// sequences, and the string then holds the characters they encode.
#[verifier::external_body]
fn string_from_utf8(bytes: Vec<u8>) -> (r: Option<String>)
    ensures
        r is Some <==> valid_utf8(bytes@),
        r matches Some(s) ==> s@ == decode_utf8(bytes@),
{
    String::from_utf8(bytes).ok()
}

fn push_u64(out: &mut Vec<u8>, n: u64)
    ensures
        final(out)@ == old(out)@ + u64_be(n),
{
    out.push((n >> 56u64) as u8);
    out.push((n >> 48u64) as u8);
    out.push((n >> 40u64) as u8);
    out.push((n >> 32u64) as u8);
    out.push((n >> 24u64) as u8);
    out.push((n >> 16u64) as u8);
    out.push((n >> 8u64) as u8);
    out.push(n as u8);
    assert(out@ =~= old(out)@ + u64_be(n));
}

fn push_field(out: &mut Vec<u8>, s: &String)
    ensures
        final(out)@ == old(out)@ + field_bytes(s@),
        encode_utf8(s@).len() <= usize::MAX,
{
    let bytes = s.as_str().as_bytes();
    push_u64(out, bytes.len() as u64);
    let ghost start = out@;
    let mut k: usize = 0;
    while k < bytes.len()
        invariant
            k <= bytes@.len(),
            bytes@ == encode_utf8(s@),
            out@ == start + bytes@.take(k as int),
        decreases bytes@.len() - k,
    {
        out.push(bytes[k]);
        assert(bytes@.take(k + 1) =~= bytes@.take(k as int).push(bytes@[k as int]));
        k = k + 1;
    }
    assert(bytes@.take(k as int) =~= bytes@);
    assert(out@ =~= old(out)@ + field_bytes(s@));
}

fn read_u64(b: &[u8], pos: usize) -> (r: u64)
    requires
        pos + 8 <= b@.len(),
    ensures
        r == be_u64(b@.subrange(pos as int, pos + 8)),
{
    ((b[pos] as u64) << 56u64) | ((b[pos + 1] as u64) << 48u64) | ((b[pos + 2] as u64) << 40u64)
        | ((b[pos + 3] as u64) << 32u64) | ((b[pos + 4] as u64) << 24u64) | ((b[pos + 5] as u64) << 16u64)
        | ((b[pos + 6] as u64) << 8u64) | (b[pos + 7] as u64)
}

/// Reads an integer at `pos`; `None` when fewer than eight bytes are left.
fn parse_u64(b: &[u8], pos: usize, Ghost(expect): Ghost<Option<u64>>) -> (r: Option<(u64, usize)>)
    requires
        pos <= b@.len(),
    ensures
        r is None <==> b@.len() < pos + 8,
        r matches Some((v, next)) ==> next == pos + 8 && next <= b@.len()
            && b@.subrange(pos as int, next as int) == u64_be(v),
        expect matches Some(n) ==> (pos + 8 <= b@.len() && b@.subrange(pos as int, pos + 8) == u64_be(n)
            ==> r == Some((n, (pos + 8) as usize))),
{
    if b.len() - pos < 8 {
        return None;
    }
    let v = read_u64(b, pos);
    proof {
        lemma_bytes_of_be_u64(b@.subrange(pos as int, pos + 8));
        if let Some(n) = expect {
            lemma_be_u64_of_bytes(n);
        }
    }
    Some((v, pos + 8))
}

/// Reads a text field at `pos`; `None` when the bytes do not hold one there.
fn parse_field(b: &[u8], pos: usize, Ghost(expect): Ghost<Option<Seq<char>>>) -> (r: Option<(String, usize)>)
    requires
        pos <= b@.len(),
    ensures
        r matches Some((s, next)) ==> pos < next <= b@.len()
            && b@.subrange(pos as int, next as int) == field_bytes(s@),
        expect matches Some(c) ==> (pos + field_bytes(c).len() <= b@.len()
            && b@.subrange(pos as int, pos + field_bytes(c).len()) == field_bytes(c)
            ==> (r matches Some((s, next)) && s@ == c && next == pos + field_bytes(c).len())),
{
    let (len, start) = match parse_u64(b, pos, Ghost(None)) {
        Some(p) => p,
        None => {
            proof {
                assert forall|c: Seq<char>| expect == Some(c) && pos + field_bytes(c).len() <= b@.len()
                    && #[trigger] b@.subrange(pos as int, pos + field_bytes(c).len()) == field_bytes(c)
                    implies false by {
                    assert(field_bytes(c).len() >= 8);
                }
            }
            return None;
        },
    };
    let blen = b.len();
    if len > (blen - start) as u64 {
        proof {
            assert forall|c: Seq<char>| expect == Some(c) && pos + field_bytes(c).len() <= b@.len()
                && #[trigger] b@.subrange(pos as int, pos + field_bytes(c).len()) == field_bytes(c)
                implies false by {
                assert(b@.subrange(pos as int, pos + 8) =~= field_bytes(c).subrange(0, 8));
                assert(field_bytes(c).subrange(0, 8) =~= u64_be(encode_utf8(c).len() as u64));
                lemma_be_u64_of_bytes(encode_utf8(c).len() as u64);
                lemma_be_u64_of_bytes(len);
                assert(u64_be(len) == u64_be(encode_utf8(c).len() as u64));
                assert(len == encode_utf8(c).len() as u64);
                assert(field_bytes(c).len() == 8 + encode_utf8(c).len());
                assert(encode_utf8(c).len() <= blen);
            }
        }
        return None;
    }
    let end: usize = start + len as usize;
    let mut v: Vec<u8> = Vec::new();
    let mut k: usize = start;
    while k < end
        invariant
            start <= k <= end <= b@.len(),
            v@ == b@.subrange(start as int, k as int),
        decreases end - k,
    {
        v.push(b[k]);
        assert(b@.subrange(start as int, k + 1) =~= b@.subrange(start as int, k as int).push(b@[k as int]));
        k = k + 1;
    }
    let ghost body = v@;
    proof {
        assert forall|c: Seq<char>| expect == Some(c) && pos + field_bytes(c).len() <= b@.len()
            && #[trigger] b@.subrange(pos as int, pos + field_bytes(c).len()) == field_bytes(c)
            implies encode_utf8(c) == body by {
            assert(b@.subrange(pos as int, pos + 8) =~= field_bytes(c).subrange(0, 8));
            assert(field_bytes(c).subrange(0, 8) =~= u64_be(encode_utf8(c).len() as u64));
            lemma_be_u64_of_bytes(encode_utf8(c).len() as u64);
            lemma_be_u64_of_bytes(len);
            assert(body =~= field_bytes(c).subrange(8, field_bytes(c).len() as int));
        }
    }
    match string_from_utf8(v) {
        Some(s) => {
            proof {
                decode_utf8_encode_utf8(body);
                assert(b@.subrange(pos as int, end as int) =~= b@.subrange(pos as int, start as int) + body);
                assert forall|c: Seq<char>| expect == Some(c) && pos + field_bytes(c).len() <= b@.len()
                    && #[trigger] b@.subrange(pos as int, pos + field_bytes(c).len()) == field_bytes(c)
                    implies s@ == c && end == pos + field_bytes(c).len() by {
                    encode_utf8_decode_utf8(c);
                }
            }
            Some((s, end))
        },
        None => {
            proof {
                assert forall|c: Seq<char>| expect == Some(c) && pos + field_bytes(c).len() <= b@.len()
                    && #[trigger] b@.subrange(pos as int, pos + field_bytes(c).len()) == field_bytes(c)
                    implies false by {
                    encode_utf8_valid_utf8(c);
                }
            }
            None
        },
    }
}

/// `b` holds the stored form of `rec` at `pos`.
pub open spec fn record_at(b: Seq<u8>, pos: int, rec: WorktreeRecord) -> bool {
    &&& 0 <= pos
    &&& pos + record_bytes(rec).len() <= b.len()
    &&& b.subrange(pos, pos + record_bytes(rec).len()) == record_bytes(rec)
}

proof fn lemma_record_pieces(b: Seq<u8>, pos: int, rec: WorktreeRecord)
    requires
        record_at(b, pos, rec),
    ensures
        ({
            let after_name = pos + field_bytes(rec.name).len();
            let after_branch = after_name + field_bytes(rec.branch).len();
            let after_path = after_branch + field_bytes(rec.path).len();
            let after_repo = after_path + field_bytes(rec.repo_name).len();
            &&& b.subrange(pos, after_name) == field_bytes(rec.name)
            &&& b.subrange(after_name, after_branch) == field_bytes(rec.branch)
            &&& b.subrange(after_branch, after_path) == field_bytes(rec.path)
            &&& b.subrange(after_path, after_repo) == field_bytes(rec.repo_name)
            &&& b.subrange(after_repo, after_repo + 8) == u64_be(rec.created_at.secs as u64)
            &&& b.subrange(after_repo + 8, after_repo + 16) == u64_be(rec.created_at.nanos as u64)
            &&& after_repo + 16 == pos + record_bytes(rec).len()
        }),
{
    reveal(record_bytes);
    let r = record_bytes(rec);
    let f1 = field_bytes(rec.name);
    let f2 = field_bytes(rec.branch);
    let f3 = field_bytes(rec.path);
    let f4 = field_bytes(rec.repo_name);
    let after_name = pos + f1.len();
    let after_branch = after_name + f2.len();
    let after_path = after_branch + f3.len();
    let after_repo = after_path + f4.len();
    let w = b.subrange(pos, pos + r.len());
    assert(b.subrange(pos, after_name) =~= w.subrange(0, f1.len() as int));
    assert(w.subrange(0, f1.len() as int) =~= f1);
    assert(b.subrange(after_name, after_branch) =~= w.subrange(after_name - pos, after_branch - pos));
    assert(w.subrange(after_name - pos, after_branch - pos) =~= f2);
    assert(b.subrange(after_branch, after_path) =~= w.subrange(after_branch - pos, after_path - pos));
    assert(w.subrange(after_branch - pos, after_path - pos) =~= f3);
    assert(b.subrange(after_path, after_repo) =~= w.subrange(after_path - pos, after_repo - pos));
    assert(w.subrange(after_path - pos, after_repo - pos) =~= f4);
    assert(b.subrange(after_repo, after_repo + 8) =~= w.subrange(after_repo - pos, after_repo - pos + 8));
    assert(w.subrange(after_repo - pos, after_repo - pos + 8) =~= u64_be(rec.created_at.secs as u64));
    assert(b.subrange(after_repo + 8, after_repo + 16) =~= w.subrange(after_repo - pos + 8, after_repo - pos + 16));
    assert(w.subrange(after_repo - pos + 8, after_repo - pos + 16) =~= u64_be(rec.created_at.nanos as u64));
}

/// Reads a record at `pos`; `None` when the bytes do not hold one there.
#[verifier::rlimit(100)]
#[verifier::spinoff_prover]
fn parse_record(b: &[u8], pos: usize, Ghost(expect): Ghost<Option<WorktreeRecord>>) -> (r: Option<(WorktreeInfo, usize)>)
    requires
        pos <= b@.len(),
    ensures
        r matches Some((w, next)) ==> pos < next <= b@.len()
            && b@.subrange(pos as int, next as int) == record_bytes(w@),
        expect matches Some(rec) ==> (record_at(b@, pos as int, rec)
            ==> (r matches Some((w, next)) && w@ == rec && next == pos + record_bytes(rec).len())),
{
    let ghost ok = expect is Some && record_at(b@, pos as int, expect->0);
    let ghost rec = expect->0;
    proof {
        if ok {
            lemma_record_pieces(b@, pos as int, rec);
        }
    }
    let ghost want_after_name = pos + field_bytes(rec.name).len();
    let ghost want_after_branch = want_after_name + field_bytes(rec.branch).len();
    let ghost want_after_path = want_after_branch + field_bytes(rec.path).len();
    let ghost want_after_repo = want_after_path + field_bytes(rec.repo_name).len();
    let (name, after_name) = match parse_field(b, pos, Ghost(if ok { Some(rec.name) } else { None })) {
        Some(x) => x,
        None => {
            return None;
        },
    };
    let (branch, after_branch) = match parse_field(b, after_name, Ghost(if ok && after_name == want_after_name { Some(rec.branch) } else { None })) {
        Some(x) => x,
        None => {
            return None;
        },
    };
    let (path, after_path) = match parse_field(b, after_branch, Ghost(if ok && after_branch == want_after_branch { Some(rec.path) } else { None })) {
        Some(x) => x,
        None => {
            return None;
        },
    };
    let (repo_name, after_repo) = match parse_field(b, after_path, Ghost(if ok && after_path == want_after_path { Some(rec.repo_name) } else { None })) {
        Some(x) => x,
        None => {
            return None;
        },
    };
    let (secs, after_secs) = match parse_u64(b, after_repo, Ghost(if ok && after_repo == want_after_repo { Some(rec.created_at.secs as u64) } else { None })) {
        Some(x) => x,
        None => {
            return None;
        },
    };
    let (nanos, after_nanos) = match parse_u64(b, after_secs, Ghost(if ok && after_secs == want_after_repo + 8 { Some(rec.created_at.nanos as u64) } else { None })) {
        Some(x) => x,
        None => {
            return None;
        },
    };
    if nanos > 0xFFFF_FFFFu64 {
        proof {
            if ok {
                lemma_be_u64_of_bytes(nanos);
                lemma_be_u64_of_bytes(rec.created_at.nanos as u64);
            }
        }
        return None;
    }
    let w = WorktreeInfo {
        name,
        branch,
        path,
        repo_name,
        created_at: Timestamp { secs: secs as i64, nanos: nanos as u32 },
    };
    proof {
        reveal(record_bytes);
        lemma_secs_cast(w.created_at.secs, secs);
        assert(b@.subrange(pos as int, after_nanos as int) =~= b@.subrange(pos as int, after_name as int)
            + b@.subrange(after_name as int, after_branch as int) + b@.subrange(after_branch as int, after_path as int)
            + b@.subrange(after_path as int, after_repo as int) + b@.subrange(after_repo as int, after_secs as int)
            + b@.subrange(after_secs as int, after_nanos as int));
        if ok {
            lemma_secs_cast(rec.created_at.secs, secs);
            assert(w@ == rec);
        }
    }
    Some((w, after_nanos))
}

/// Each text field of the record fits in memory as UTF-8.
pub open spec fn storable(r: WorktreeRecord) -> bool {
    &&& encode_utf8(r.name).len() <= usize::MAX
    &&& encode_utf8(r.branch).len() <= usize::MAX
    &&& encode_utf8(r.path).len() <= usize::MAX
    &&& encode_utf8(r.repo_name).len() <= usize::MAX
}

/// Every record fits in memory.
pub open spec fn all_storable(recs: Seq<WorktreeRecord>) -> bool {
    forall|i: int| 0 <= i < recs.len() ==> storable(#[trigger] recs[i])
}

proof fn lemma_u64_prefix(m: u64, n: u64, s: Seq<u8>, t: Seq<u8>)
    requires
        u64_be(m) + s == u64_be(n) + t,
    ensures
        m == n,
        s == t,
{
    let a = u64_be(m) + s;
    assert(a.subrange(0, 8) =~= u64_be(m));
    assert(a.subrange(0, 8) =~= u64_be(n));
    lemma_be_u64_of_bytes(m);
    lemma_be_u64_of_bytes(n);
    assert(s =~= a.subrange(8, a.len() as int));
    assert(t =~= a.subrange(8, a.len() as int));
}

proof fn lemma_field_prefix(x: Seq<char>, y: Seq<char>, s: Seq<u8>, t: Seq<u8>)
    requires
        encode_utf8(x).len() <= usize::MAX,
        encode_utf8(y).len() <= usize::MAX,
        field_bytes(x) + s == field_bytes(y) + t,
    ensures
        x == y,
        s == t,
{
    let ex = encode_utf8(x);
    let ey = encode_utf8(y);
    assert(field_bytes(x) + s =~= u64_be(ex.len() as u64) + (ex + s));
    assert(field_bytes(y) + t =~= u64_be(ey.len() as u64) + (ey + t));
    lemma_u64_prefix(ex.len() as u64, ey.len() as u64, ex + s, ey + t);
    assert(ex.len() == ey.len());
    let a = ex + s;
    assert(a.subrange(0, ex.len() as int) =~= ex);
    assert((ey + t).subrange(0, ey.len() as int) =~= ey);
    encode_utf8_decode_utf8(x);
    encode_utf8_decode_utf8(y);
    assert(s =~= a.subrange(ex.len() as int, a.len() as int));
    assert(t =~= (ey + t).subrange(ey.len() as int, a.len() as int));
}

proof fn lemma_record_prefix(r1: WorktreeRecord, r2: WorktreeRecord, s: Seq<u8>, t: Seq<u8>)
    requires
        storable(r1),
        storable(r2),
        record_bytes(r1) + s == record_bytes(r2) + t,
    ensures
        r1 == r2,
        s == t,
{
    reveal(record_bytes);
    let s4 = u64_be(r1.created_at.secs as u64) + (u64_be(r1.created_at.nanos as u64) + s);
    let t4 = u64_be(r2.created_at.secs as u64) + (u64_be(r2.created_at.nanos as u64) + t);
    let s3 = field_bytes(r1.repo_name) + s4;
    let t3 = field_bytes(r2.repo_name) + t4;
    let s2 = field_bytes(r1.path) + s3;
    let t2 = field_bytes(r2.path) + t3;
    let s1 = field_bytes(r1.branch) + s2;
    let t1 = field_bytes(r2.branch) + t2;
    assert(record_bytes(r1) + s =~= field_bytes(r1.name) + s1);
    assert(record_bytes(r2) + t =~= field_bytes(r2.name) + t1);
    lemma_field_prefix(r1.name, r2.name, s1, t1);
    lemma_field_prefix(r1.branch, r2.branch, s2, t2);
    lemma_field_prefix(r1.path, r2.path, s3, t3);
    lemma_field_prefix(r1.repo_name, r2.repo_name, s4, t4);
    lemma_u64_prefix(r1.created_at.secs as u64, r2.created_at.secs as u64,
        u64_be(r1.created_at.nanos as u64) + s, u64_be(r2.created_at.nanos as u64) + t);
    lemma_u64_prefix(r1.created_at.nanos as u64, r2.created_at.nanos as u64, s, t);
    lemma_secs_cast(r1.created_at.secs, 0);
    lemma_secs_cast(r2.created_at.secs, 0);
}

proof fn lemma_record_bytes_nonempty(r: WorktreeRecord)
    ensures
        record_bytes(r).len() >= 48,
{
    reveal(record_bytes);
}

/// Two registries of storable records with the same stored form hold the
/// same records in the same order.
proof fn lemma_registry_bytes_injective(a: Seq<WorktreeRecord>, b: Seq<WorktreeRecord>)
    requires
        all_storable(a),
        all_storable(b),
        registry_bytes(a) == registry_bytes(b),
    ensures
        a == b,
    decreases a.len(),
{
    if a.len() == 0 || b.len() == 0 {
        if b.len() > 0 {
            lemma_record_bytes_nonempty(b[0]);
            assert(registry_bytes(b).len() >= 48);
        }
        if a.len() > 0 {
            lemma_record_bytes_nonempty(a[0]);
            assert(registry_bytes(a).len() >= 48);
        }
        assert(a =~= b);
    } else {
        let a1 = a.drop_first();
        let b1 = b.drop_first();
        assert(storable(a[0]));
        assert(storable(b[0]));
        assert(registry_bytes(a) == record_bytes(a[0]) + registry_bytes(a1));
        assert(registry_bytes(b) == record_bytes(b[0]) + registry_bytes(b1));
        lemma_record_prefix(a[0], b[0], registry_bytes(a1), registry_bytes(b1));
        assert forall|i: int| 0 <= i < a1.len() implies storable(#[trigger] a1[i]) by {
            assert(a1[i] == a[i + 1]);
        }
        assert forall|i: int| 0 <= i < b1.len() implies storable(#[trigger] b1[i]) by {
            assert(b1[i] == b[i + 1]);
        }
        lemma_registry_bytes_injective(a1, b1);
        assert(a.len() == b.len());
        assert forall|i: int| 0 <= i < a.len() implies a[i] == b[i] by {
            if i > 0 {
                assert(a[i] == a1[i - 1]);
                assert(b[i] == b1[i - 1]);
            }
        }
        assert(a =~= b);
    }
}

/// Saving a registry and loading the saved bytes reproduces it: the stored
/// form of a registry is a valid encoding, and the only registry of storable
/// records with that stored form is the registry itself.
pub proof fn lemma_save_load_round_trip(saved: Seq<WorktreeRecord>, loaded: Seq<WorktreeRecord>)
    requires
        unique_names(saved),
        all_storable(saved),
        all_storable(loaded),
        registry_bytes(loaded) == registry_bytes(saved),
    ensures
        is_registry_encoding(registry_bytes(saved)),
        loaded == saved,
{
    lemma_registry_bytes_injective(loaded, saved);
}

proof fn lemma_next_record(b: Seq<u8>, pos: int, target: Seq<WorktreeRecord>, k: int)
    requires
        0 <= pos < b.len(),
        0 <= k <= target.len(),
        b.subrange(pos, b.len() as int) == registry_bytes(target.skip(k)),
    ensures
        k < target.len(),
        record_at(b, pos, target[k]),
        b.subrange(pos + record_bytes(target[k]).len(), b.len() as int) == registry_bytes(target.skip(k + 1)),
{
    let rest = b.subrange(pos, b.len() as int);
    if k == target.len() {
        assert(target.skip(k) =~= Seq::<WorktreeRecord>::empty());
        assert(rest.len() > 0);
    }
    lemma_registry_bytes_skip(target, k);
    let rb = record_bytes(target[k]);
    assert(b.subrange(pos, pos + rb.len()) =~= rest.subrange(0, rb.len() as int));
    assert(rest.subrange(0, rb.len() as int) =~= rb);
    assert(b.subrange(pos + rb.len(), b.len() as int) =~= rest.subrange(rb.len() as int, rest.len() as int));
    assert(rest.subrange(rb.len() as int, rest.len() as int) =~= registry_bytes(target.skip(k + 1)));
}

proof fn lemma_prefix_extend(b: Seq<u8>, pos: int, next: int, before: Seq<WorktreeRecord>, rec: WorktreeRecord)
    requires
        0 <= pos <= next <= b.len(),
        b.subrange(0, pos) == registry_bytes(before),
        b.subrange(pos, next) == record_bytes(rec),
    ensures
        b.subrange(0, next) == registry_bytes(before.push(rec)),
{
    lemma_registry_bytes_push(before, rec);
    assert(b.subrange(0, next) =~= b.subrange(0, pos) + b.subrange(pos, next));
}

impl XlaudeState {
    /// The registry's stored form.
    pub fn to_bytes(&self) -> (r: Vec<u8>)
        ensures
            r@ == registry_bytes(self@),
            all_storable(self@),
    {
        let mut out: Vec<u8> = Vec::new();
        let mut i: usize = 0;
        while i < self.len()
            invariant
                i <= self@.len(),
                out@ == registry_bytes(self@.take(i as int)),
                forall|k: int| 0 <= k < i ==> storable(#[trigger] self@[k]),
            decreases self@.len() - i,
        {
            let w = self.entry(i);
            let ghost before = out@;
            push_field(&mut out, &w.name);
            push_field(&mut out, &w.branch);
            push_field(&mut out, &w.path);
            push_field(&mut out, &w.repo_name);
            push_u64(&mut out, w.created_at.secs as u64);
            push_u64(&mut out, w.created_at.nanos as u64);
            proof {
                reveal(record_bytes);
                assert(out@ =~= before + record_bytes(w@));
                assert(self@.take(i + 1) =~= self@.take(i as int).push(w@));
                lemma_registry_bytes_push(self@.take(i as int), w@);
            }
            i = i + 1;
        }
        assert(self@.take(i as int) =~= self@);
        out
    }

    /// Loads a registry from its stored form; any other bytes are a
    /// `MalformedRegistry`.
    pub fn from_bytes(b: &[u8]) -> (r: Result<XlaudeState, WorktreeError>)
        ensures
            r is Ok <==> is_registry_encoding(b@),
            r matches Ok(s) ==> s.wf() && all_storable(s@) && registry_bytes(s@) == b@,
            r matches Err(e) ==> e is MalformedRegistry,
    {
        let ghost has = is_registry_encoding(b@);
        let ghost target = choose|recs: Seq<WorktreeRecord>| unique_names(recs) && #[trigger] registry_bytes(recs) == b@;
        let mut state = XlaudeState::new();
        let mut pos: usize = 0;
        proof {
            assert(b@.subrange(0, 0) =~= Seq::<u8>::empty());
            if has {
                assert(target.take(0) =~= Seq::<WorktreeRecord>::empty());
                assert(target.skip(0) =~= target);
                assert(b@.subrange(0, b@.len() as int) =~= b@);
            }
        }
        while pos < b.len()
            invariant
                has == is_registry_encoding(b@),
                pos <= b@.len(),
                state.wf(),
                all_storable(state@),
                b@.subrange(0, pos as int) == registry_bytes(state@),
                has ==> unique_names(target) && registry_bytes(target) == b@,
                has ==> state@.len() <= target.len() && state@ == target.take(state@.len() as int)
                    && b@.subrange(pos as int, b@.len() as int) == registry_bytes(target.skip(state@.len() as int)),
            decreases b@.len() - pos,
        {
            let ghost k = state@.len() as int;
            proof {
                if has {
                    lemma_next_record(b@, pos as int, target, k);
                }
            }
            let (w, next) = match parse_record(b, pos, Ghost(if has { Some(target[k]) } else { None })) {
                Some(x) => x,
                None => {
                    proof {
                        if has {
                            assert(record_at(b@, pos as int, target[k]));
                        }
                    }
                    assert(!has);
                    return Err(WorktreeError::MalformedRegistry);
                },
            };
            if state.contains(&w.name) {
                proof {
                    if has {
                        let j = choose|j: int| 0 <= j < state@.len() && state@[j].name == w@.name;
                        assert(target[j].name == target[k].name);
                    }
                }
                assert(!has);
                return Err(WorktreeError::MalformedRegistry);
            }
            let ghost old_view = state@;
            let ghost wv = w@;
            proof {
                reveal(record_bytes);
                assert(record_bytes(wv).len() <= b@.len());
                assert(storable(wv));
            }
            state.insert(w);
            proof {
                assert(state@ == old_view.push(wv));
                lemma_prefix_extend(b@, pos as int, next as int, old_view, wv);
                assert forall|i: int| 0 <= i < state@.len() implies storable(#[trigger] state@[i]) by {
                    if i < old_view.len() {
                        assert(state@[i] == old_view[i]);
                    }
                }
                if has {
                    assert(state@ =~= target.take(k + 1));
                }
            }
            pos = next;
        }
        proof {
            assert(b@.subrange(0, b@.len() as int) =~= b@);
            assert(unique_names(state@) && registry_bytes(state@) == b@);
        }
        Ok(state)
    }
}

} // verus!
