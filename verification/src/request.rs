//! The verified steps of batch lookups: which addresses go to the API, how
//! they are split into requests, how per-entry results are decoded, and how
//! cached and fresh results are put back together in input order.

use vstd::prelude::*;

use serde_json::Error as DecodeError;
use vstd::utf8::encode_utf8;

use crate::error::{ApiError, ApiErrorPayload, Error, is_missing_result, payload_error};

verus! {

/// The elements of `v` in reverse order.
fn reversed<T>(v: Vec<T>) -> (r: Vec<T>)
    ensures
        r@.len() == v@.len(),
        forall|i: int| 0 <= i < v@.len() ==> #[trigger] r@[i] == v@[v@.len() - 1 - i],
{
    let ghost orig = v@;
    let mut v = v;
    let mut r: Vec<T> = Vec::new();
    while v.len() > 0
        invariant
            v@ == orig.take(v@.len() as int),
            r@.len() + v@.len() == orig.len(),
            forall|i: int| 0 <= i < r@.len() ==> #[trigger] r@[i] == orig[orig.len() - 1 - i],
        decreases v@.len(),
    {
        let x = v.pop().unwrap();
        r.push(x);
    }
    r
}

/// One element of a batch response: an error object or a resolved payload.
#[derive(Debug, Clone, PartialEq, Eq)]
pub enum BatchEntry<T> {
    /// The entry failed; the payload describes why.
    Failed(ApiErrorPayload),
    /// The entry succeeded.
    Resolved(T),
}

/// `r` is the result of batch entry `e`: its value, or the typed error of
/// its payload (with no HTTP status).
pub open spec fn entry_result<T>(e: BatchEntry<T>, r: Result<T, ApiError>) -> bool {
    match e {
        BatchEntry::Resolved(v) => r == Ok::<T, ApiError>(v),
        BatchEntry::Failed(p) => r matches Err(err) && payload_error(p, None, err),
    }
}

impl<T> BatchEntry<T> {
    /// The result of the entry: its value, or the typed error of its payload
    /// (with no HTTP status).
    pub fn into_result(self) -> (r: Result<T, ApiError>)
        ensures
            entry_result(self, r),
    {
        match self {
            BatchEntry::Failed(payload) => Err(payload.into_api_error(None)),
            BatchEntry::Resolved(value) => Ok(value),
        }
    }
}

/// The `{"results": [...]}` envelope wrapping batch responses.
#[derive(Debug, Clone, PartialEq, Eq)]
pub struct BatchEnvelope<T> {
    /// The entries, in request order.
    pub results: Vec<BatchEntry<T>>,
}

impl<T> BatchEnvelope<T> {
    /// The results of the entries, in order.
    pub fn into_results(self) -> (r: Vec<Result<T, ApiError>>)
        ensures
            r@.len() == self.results@.len(),
            forall|i: int| 0 <= i < r@.len() ==> entry_result(self.results@[i], #[trigger] r@[i]),
    {
        let ghost orig = self.results@;
        let n = self.results.len();
        let mut rest = reversed(self.results);
        let mut out: Vec<Result<T, ApiError>> = Vec::new();
        while rest.len() > 0
            invariant
                n == orig.len(),
                out@.len() + rest@.len() == n,
                forall|i: int| 0 <= i < rest@.len() ==> #[trigger] rest@[i] == orig[n - 1 - i],
                forall|i: int| 0 <= i < out@.len() ==> entry_result(orig[i], #[trigger] out@[i]),
            decreases rest@.len(),
        {
            let entry = rest.pop().unwrap();
            out.push(entry.into_result());
        }
        out
    }
}

// ---------------------------------------------------------------------------
// Cache hits and misses.
// ---------------------------------------------------------------------------

/// The items of `items` whose position is not marked in `hit`, in order.
pub open spec fn misses_spec<T>(items: Seq<T>, hit: Seq<bool>) -> Seq<T>
    decreases items.len(),
{
    if items.len() == 0 {
        Seq::empty()
    } else {
        let n = items.len() - 1;
        let rest = misses_spec(items.take(n), hit);
        if hit[n] {
            rest
        } else {
            rest.push(items[n])
        }
    }
}

/// The number of unmarked positions before position `i`: the position of
/// item `i`, when it is a miss, among the misses.
pub open spec fn miss_rank(hit: Seq<bool>, i: int) -> nat
    decreases i,
{
    if i <= 0 {
        0
    } else if hit[i - 1] {
        miss_rank(hit, i - 1)
    } else {
        miss_rank(hit, i - 1) + 1
    }
}

proof fn lemma_misses_len<T>(items: Seq<T>, hit: Seq<bool>)
    ensures
        misses_spec(items, hit).len() == miss_rank(hit, items.len() as int),
    decreases items.len(),
{
    if items.len() > 0 {
        lemma_misses_len(items.take(items.len() - 1), hit);
    }
}

proof fn lemma_misses_index<T>(items: Seq<T>, hit: Seq<bool>, i: int)
    requires
        0 <= i < items.len(),
        !hit[i],
    ensures
        miss_rank(hit, i) < misses_spec(items, hit).len(),
        misses_spec(items, hit)[miss_rank(hit, i) as int] == items[i],
    decreases items.len(),
{
    let n = items.len() - 1;
    assert(items.take(n).len() == n);
    lemma_misses_len(items.take(n), hit);
    if i < n {
        assert(items.take(n)[i] == items[i]);
        lemma_misses_index(items.take(n), hit, i);
        lemma_rank_mono(hit, i + 1, n);
    }
}

proof fn lemma_rank_mono(hit: Seq<bool>, i: int, j: int)
    requires
        0 <= i <= j,
    ensures
        miss_rank(hit, i) <= miss_rank(hit, j),
    decreases j,
{
    if j > i {
        lemma_rank_mono(hit, i, j - 1);
    }
}

/// The items that the cache could not serve, in input order: those whose
/// position is not marked as a hit.
pub fn select_misses<T: Copy>(items: &Vec<T>, hit: &Vec<bool>) -> (r: Vec<T>)
    requires
        hit@.len() == items@.len(),
    ensures
        r@ == misses_spec(items@, hit@),
{
    let mut r: Vec<T> = Vec::new();
    let mut i: usize = 0;
    while i < items.len()
        invariant
            i <= items@.len(),
            hit@.len() == items@.len(),
            r@ == misses_spec(items@.take(i as int), hit@),
        decreases items@.len() - i,
    {
        assert(items@.take(i + 1).take(i as int) =~= items@.take(i as int));
        if !hit[i] {
            r.push(items[i]);
        }
        i = i + 1;
    }
    assert(items@.take(items@.len() as int) =~= items@);
    r
}

/// `r` is the merged result at position `i` of a batch whose cache lookups
/// gave `cached` and whose fresh results, for the misses in order, are
/// `fresh`: the cached value when there was one; otherwise the fresh result
/// of that miss, or a missing-result error when the response was short.
pub open spec fn merged_at<V>(
    cached: Seq<Option<V>>,
    fresh: Seq<Result<V, ApiError>>,
    i: int,
    r: Result<V, ApiError>,
) -> bool {
    let hit = cached.map_values(|c: Option<V>| c is Some);
    let rank = miss_rank(hit, i) as int;
    match cached[i] {
        Some(v) => r == Ok::<V, ApiError>(v),
        None => if rank < fresh.len() {
            r == fresh[rank]
        } else {
            r matches Err(e) && is_missing_result(e)
        },
    }
}

/// Position `i` of a batch holds a freshly fetched value, to be cached.
pub open spec fn fetched_at<V>(cached: Seq<Option<V>>, fresh: Seq<Result<V, ApiError>>, i: int) -> bool {
    let hit = cached.map_values(|c: Option<V>| c is Some);
    let rank = miss_rank(hit, i) as int;
    cached[i] is None && rank < fresh.len() && fresh[rank] is Ok
}

/// The number of positions before `i` that the cache did not serve.
pub open spec fn misses_before<V>(cached: Seq<Option<V>>, i: int) -> nat {
    cached.take(i).filter(|c: Option<V>| c is None).len()
}

proof fn lemma_miss_rank_counts<V>(cached: Seq<Option<V>>, i: int)
    requires
        0 <= i <= cached.len(),
    ensures
        miss_rank(cached.map_values(|c: Option<V>| c is Some), i) == misses_before(cached, i),
    decreases i,
{
    reveal(Seq::filter);
    if i > 0 {
        lemma_miss_rank_counts(cached, i - 1);
        assert(cached.take(i).drop_last() =~= cached.take(i - 1));
        assert(cached.take(i).last() == cached[i - 1]);
    } else {
        assert(cached.take(0) =~= Seq::<Option<V>>::empty());
    }
}

/// A position the cache served keeps the cached value, whatever was
/// fetched for the other positions.
pub proof fn lemma_merge_keeps_cache_hits<V>(
    cached: Seq<Option<V>>,
    fresh: Seq<Result<V, ApiError>>,
    i: int,
    r: Result<V, ApiError>,
)
    requires
        0 <= i < cached.len(),
        merged_at(cached, fresh, i, r),
        cached[i] is Some,
    ensures
        r == Ok::<V, ApiError>(cached[i]->0),
        !fetched_at(cached, fresh, i),
{
}

/// The positions the cache did not serve take the fetched results in
/// order: the miss preceded by `k` other misses gets the `k`-th fetched
/// result, or a missing-result error when fewer results came back.
pub proof fn lemma_merge_fills_misses_in_order<V>(
    cached: Seq<Option<V>>,
    fresh: Seq<Result<V, ApiError>>,
    i: int,
    r: Result<V, ApiError>,
)
    requires
        0 <= i < cached.len(),
        merged_at(cached, fresh, i, r),
        cached[i] is None,
    ensures
        misses_before(cached, i) < fresh.len() ==> r == fresh[misses_before(cached, i) as int],
        misses_before(cached, i) >= fresh.len() ==> (r matches Err(e) && is_missing_result(e)),
        fetched_at(cached, fresh, i) <==> (misses_before(cached, i) < fresh.len()
            && fresh[misses_before(cached, i) as int] is Ok),
{
    lemma_miss_rank_counts(cached, i);
}

/// Puts a batch back together in input order. `cached` holds, for every
/// requested address, the value the cache served or `None`; `fresh` holds
/// the results fetched for the misses, in order. Also returns, for every
/// position, whether it holds a freshly fetched value that should be cached.
pub fn merge_batch_results<V>(cached: Vec<Option<V>>, fresh: Vec<Result<V, ApiError>>) -> (r: (
    Vec<Result<V, ApiError>>,
    Vec<bool>,
))
    ensures
        r.0@.len() == cached@.len(),
        r.1@.len() == cached@.len(),
        forall|i: int| 0 <= i < cached@.len() ==> merged_at(cached@, fresh@, i, #[trigger] r.0@[i]),
        forall|i: int| 0 <= i < cached@.len() ==> #[trigger] r.1@[i] == fetched_at(cached@, fresh@, i),
        forall|i: int|
            0 <= i < cached@.len() && cached@[i] is Some ==> #[trigger] r.0@[i] == Ok::<V, ApiError>(
                cached@[i]->0,
            ) && !r.1@[i],
{
    let ghost c0 = cached@;
    let ghost f0 = fresh@;
    let ghost hit = c0.map_values(|c: Option<V>| c is Some);
    let n = cached.len();
    let m = fresh.len();
    let mut hits = reversed(cached);
    let mut fresh_rest = reversed(fresh);
    let mut results: Vec<Result<V, ApiError>> = Vec::new();
    let mut fetched: Vec<bool> = Vec::new();
    let mut used: usize = 0;
    let mut i: usize = 0;
    while i < n
        invariant
            n == c0.len(),
            m == f0.len(),
            hit == c0.map_values(|c: Option<V>| c is Some),
            i <= n,
            hits@.len() == n - i,
            forall|k: int| 0 <= k < hits@.len() ==> #[trigger] hits@[k] == c0[n - 1 - k],
            used == if miss_rank(hit, i as int) < m { miss_rank(hit, i as int) } else { m as nat },
            fresh_rest@.len() == m - used,
            forall|k: int| 0 <= k < fresh_rest@.len() ==> #[trigger] fresh_rest@[k] == f0[m - 1 - k],
            results@.len() == i,
            fetched@.len() == i,
            forall|k: int| 0 <= k < i ==> merged_at(c0, f0, k, #[trigger] results@[k]),
            forall|k: int| 0 <= k < i ==> #[trigger] fetched@[k] == fetched_at(c0, f0, k),
        decreases n - i,
    {
        let entry = hits.pop().unwrap();
        assert(entry == c0[i as int]);
        assert(hit[i as int] == c0[i as int] is Some);
        match entry {
            Some(v) => {
                results.push(Ok(v));
                fetched.push(false);
            },
            None => {
                match fresh_rest.pop() {
                    Some(res) => {
                        assert(res == f0[used as int]);
                        let ok = res.is_ok();
                        results.push(res);
                        fetched.push(ok);
                        used = used + 1;
                    },
                    None => {
                        results.push(Err(ApiError::missing_result()));
                        fetched.push(false);
                    },
                }
            },
        }
        i = i + 1;
    }
    (results, fetched)
}

// ---------------------------------------------------------------------------
// Splitting a batch into requests.
// ---------------------------------------------------------------------------

/// `r` splits positions `0..n` into consecutive chunks of `size` positions,
/// the last one possibly shorter: the ranges start at `0`, each begins where
/// the previous ends, the last ends at `n`, every range is non-empty and at
/// most `size` long, and every range but the last is exactly `size` long.
pub open spec fn chunks_of(r: Seq<(usize, usize)>, n: nat, size: nat) -> bool {
    &&& (r.len() == 0) == (n == 0)
    &&& r.len() > 0 ==> r[0].0 == 0 && r.last().1 == n
    &&& forall|k: int| 0 <= k < r.len() - 1 ==> #[trigger] r[k].1 == r[k + 1].0
    &&& forall|k: int| 0 <= k < r.len() ==> 0 < #[trigger] r[k].1 - r[k].0 <= size
    &&& forall|k: int| 0 <= k < r.len() - 1 ==> #[trigger] r[k].1 - r[k].0 == size
}

/// Splits `n` positions into the ranges of consecutive chunks of at most
/// `size` positions, in order. Each range is sent as one batch request.
pub fn chunk_ranges(n: usize, size: usize) -> (r: Vec<(usize, usize)>)
    requires
        size > 0,
    ensures
        chunks_of(r@, n as nat, size as nat),
{
    let mut r: Vec<(usize, usize)> = Vec::new();
    let mut start: usize = 0;
    while start < n
        invariant
            size > 0,
            start <= n,
            (r@.len() == 0) == (start == 0),
            r@.len() > 0 ==> r@[0].0 == 0 && r@.last().1 == start,
            forall|k: int| 0 <= k < r@.len() - 1 ==> #[trigger] r@[k].1 == r@[k + 1].0,
            forall|k: int| 0 <= k < r@.len() ==> 0 < #[trigger] r@[k].1 - r@[k].0 <= size,
            forall|k: int| 0 <= k < r@.len() - 1 ==> #[trigger] r@[k].1 - r@[k].0 == size,
            r@.len() > 0 && start < n ==> r@.last().1 - r@.last().0 == size,
        decreases n - start,
    {
        let end = if n - start > size {
            start + size
        } else {
            n
        };
        r.push((start, end));
        start = end;
    }
    r
}

proof fn lemma_chunk_starts_grow(r: Seq<(usize, usize)>, n: nat, size: nat, k: int)
    requires
        chunks_of(r, n, size),
        1 <= k < r.len(),
    ensures
        r[k].0 >= r[1].0,
    decreases k,
{
    if k > 1 {
        lemma_chunk_starts_grow(r, n, size, k - 1);
        assert(r[k - 1].1 == r[k].0);
        assert(r[k - 1].1 - r[k - 1].0 > 0);
    }
}

/// A batch that fits within the limit is sent as a single request.
pub proof fn lemma_small_batch_single_request(r: Seq<(usize, usize)>, n: nat, size: nat)
    requires
        chunks_of(r, n, size),
        0 < n <= size,
    ensures
        r.len() == 1,
        r[0] == (0usize, n as usize),
{
    if r.len() > 1 {
        assert(r[0].1 == r[1].0);
        assert(r[0].1 - r[0].0 == size);
        let last = r.len() - 1;
        lemma_chunk_starts_grow(r, n, size, last);
        assert(r[last].1 - r[last].0 > 0);
    }
}

/// The chunks cover every position exactly once, in order: position `p` lies
/// in chunk `k` exactly when `k` is the chunk whose range holds it.
pub proof fn lemma_chunks_partition(r: Seq<(usize, usize)>, n: nat, size: nat, p: int)
    requires
        chunks_of(r, n, size),
        0 <= p < n,
    ensures
        exists|k: int| 0 <= k < r.len() && #[trigger] r[k].0 <= p < r[k].1,
        forall|k1: int, k2: int|
            0 <= k1 < r.len() && 0 <= k2 < r.len() && #[trigger] r[k1].0 <= p < r[k1].1
                && #[trigger] r[k2].0 <= p < r[k2].1 ==> k1 == k2,
{
    lemma_chunk_locate(r, n, size, p, r.len() - 1);
    assert forall|k1: int, k2: int|
        0 <= k1 < r.len() && 0 <= k2 < r.len() && #[trigger] r[k1].0 <= p < r[k1].1
            && #[trigger] r[k2].0 <= p < r[k2].1 implies k1 == k2 by {
        if k1 < k2 {
            lemma_chunk_ends_before(r, n, size, k1, k2);
        } else if k2 < k1 {
            lemma_chunk_ends_before(r, n, size, k2, k1);
        }
    }
}

proof fn lemma_chunk_ends_before(r: Seq<(usize, usize)>, n: nat, size: nat, a: int, b: int)
    requires
        chunks_of(r, n, size),
        0 <= a < b < r.len(),
    ensures
        r[a].1 <= r[b].0,
    decreases b - a,
{
    if b > a + 1 {
        lemma_chunk_ends_before(r, n, size, a, b - 1);
        assert(r[b - 1].1 == r[b].0);
    } else {
        assert(r[a].1 == r[a + 1].0);
    }
}

proof fn lemma_chunk_locate(r: Seq<(usize, usize)>, n: nat, size: nat, p: int, j: int)
    requires
        chunks_of(r, n, size),
        0 <= p < n,
        0 <= j < r.len(),
        p < r[j].1,
    ensures
        exists|k: int| 0 <= k <= j && #[trigger] r[k].0 <= p < r[k].1,
    decreases j,
{
    if r[j].0 <= p {
        assert(r[j].0 <= p < r[j].1);
    } else {
        assert(j > 0);
        assert(r[j - 1].1 == r[j].0);
        lemma_chunk_locate(r, n, size, p, j - 1);
    }
}

// ---------------------------------------------------------------------------
// Request bodies.
// ---------------------------------------------------------------------------

/// Lower-case hexadecimal digit of `d < 16`, as a byte.
pub open spec fn hex_lower_byte(d: nat) -> u8 {
    if d < 10 {
        (48 + d) as u8
    } else {
        (87 + d) as u8
    }
}

/// The JSON encoding of one character inside a string: `"` and `\` and the
/// control characters below U+0020 escaped (`\b`, `\t`, `\n`, `\f`, `\r`,
/// or `\u00XX`), anything else as its UTF-8 bytes.
pub open spec fn json_char(c: char) -> Seq<u8> {
    let u = c as u32;
    if u == 0x22 {
        seq![0x5cu8, 0x22u8]
    } else if u == 0x5c {
        seq![0x5cu8, 0x5cu8]
    } else if u == 0x08 {
        seq![0x5cu8, 0x62u8]
    } else if u == 0x09 {
        seq![0x5cu8, 0x74u8]
    } else if u == 0x0a {
        seq![0x5cu8, 0x6eu8]
    } else if u == 0x0c {
        seq![0x5cu8, 0x66u8]
    } else if u == 0x0d {
        seq![0x5cu8, 0x72u8]
    } else if u < 0x20 {
        seq![
            0x5cu8,
            0x75u8,
            0x30u8,
            0x30u8,
            hex_lower_byte((u / 16) as nat),
            hex_lower_byte((u % 16) as nat),
        ]
    } else {
        encode_utf8(seq![c])
    }
}

/// The escaped characters of a JSON string.
pub open spec fn json_chars(s: Seq<char>) -> Seq<u8>
    decreases s.len(),
{
    if s.len() == 0 {
        Seq::empty()
    } else {
        json_chars(s.drop_last()) + json_char(s.last())
    }
}

/// A JSON string: the escaped characters between double quotes.
pub open spec fn json_string(s: Seq<char>) -> Seq<u8> {
    seq![0x22u8] + json_chars(s) + seq![0x22u8]
}

/// The JSON strings of `items`, separated by commas.
pub open spec fn json_items(items: Seq<Seq<char>>) -> Seq<u8>
    decreases items.len(),
{
    if items.len() == 0 {
        Seq::empty()
    } else if items.len() == 1 {
        json_string(items[0])
    } else {
        json_items(items.drop_last()) + seq![0x2cu8] + json_string(items.last())
    }
}

/// The compact JSON array of the strings `items`: `[` then the strings
/// separated by `,`, then `]`.
pub open spec fn json_string_array(items: Seq<Seq<char>>) -> Seq<u8> {
    seq![0x5bu8] + json_items(items) + seq![0x5du8]
}

/// `serde_json::to_vec` on a vector of strings: the compact JSON array of
/// the strings, with `"`, `\` and control characters escaped. It succeeds:
/// strings always serialize, and writing into a `Vec<u8>` cannot fail.
#[verifier::external_body]
fn json_to_vec(items: &Vec<String>) -> (r: Result<Vec<u8>, DecodeError>)
    ensures
        r is Ok,
        r matches Ok(b) ==> b@ == json_string_array(items@.map_values(|s: String| s@)),
{
    serde_json::to_vec(items)
}

/// The body of a POST request listing IP addresses or User-Agent strings:
/// the JSON array of the given strings. Serializing strings does not fail,
/// so the result is always `Ok`.
pub fn json_body(items: &Vec<String>) -> (r: Result<Vec<u8>, Error>)
    ensures
        r matches Ok(b) && b@ == json_string_array(items@.map_values(|s: String| s@)),
{
    match json_to_vec(items) {
        Ok(bytes) => Ok(bytes),
        Err(e) => Err(Error::Decode(e)),
    }
}

} // verus!
