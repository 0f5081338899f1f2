//! Writing telemetry: how a batch of records is split into per-shard,
//! per-slice batches for the shard writers.
use vstd::prelude::*;

use crate::store::error::Error;
use crate::store::telemetry::{slice_from_ts_ms, spec_slice_name, spec_utc_date_of_millis};
use crate::text::{bytes_less, bytes_lt, lemma_lt_total, lemma_lt_trans};

verus! {

/// A batch for one shard writer: the shard, the slice and the positions of
/// the records in the batch handed in.
#[derive(Debug)]
pub struct ShardBatch {
    pub shard: usize,
    pub slice: String,
    pub records: Vec<usize>,
}

/// The slice name of a record's timestamp, where it has one.
pub open spec fn slice_of(ts_ms: u64) -> Option<Seq<char>> {
    match spec_utc_date_of_millis(ts_ms as i64) {
        Some((y, m, d)) => Some(spec_slice_name(y, m, d)),
        None => None,
    }
}

/// Whether batch `a` goes out before batch `b`: by shard, then by slice name
/// (byte order).
pub open spec fn batch_before(a: ShardBatch, b: ShardBatch) -> bool {
    a.shard < b.shard || (a.shard == b.shard && bytes_lt(
        vstd::utf8::encode_utf8(a.slice@),
        vstd::utf8::encode_utf8(b.slice@),
    ))
}

/// Whether some batch holds the record at position `k`.
pub open spec fn batch_holds(bs: Seq<ShardBatch>, k: int) -> bool {
    exists|i: int| 0 <= i < bs.len() && (#[trigger] bs[i]).records@.contains(k as usize)
}

/// `bs` splits the records with shards `shards` and timestamps `ts`: one
/// batch per shard and slice that has records, in shard and slice order,
/// each holding the positions of its records in ascending order.
pub open spec fn is_split_of(shards: Seq<usize>, ts: Seq<u64>, bs: Seq<ShardBatch>) -> bool {
    &&& forall|i: int, j: int| 0 <= i < j < bs.len() ==> batch_before(#[trigger] bs[i], #[trigger] bs[j])
    &&& forall|i: int|
        0 <= i < bs.len() ==> {
            &&& (#[trigger] bs[i]).records@.len() > 0
            &&& forall|p: int, q: int|
                0 <= p < q < bs[i].records@.len() ==> #[trigger] bs[i].records@[p] < #[trigger] bs[i].records@[q]
            &&& forall|p: int|
                0 <= p < bs[i].records@.len() ==> {
                    &&& #[trigger] bs[i].records@[p] < shards.len()
                    &&& shards[bs[i].records@[p] as int] == bs[i].shard
                    &&& slice_of(ts[bs[i].records@[p] as int]) == Some(bs[i].slice@)
                }
        }
    &&& forall|k: int| 0 <= k < shards.len() ==> #[trigger] batch_holds(bs, k)
}

/// Whether the key (shard, slice) `a` comes before `b`.
pub open spec fn key_before(a: (usize, Seq<char>), b: (usize, Seq<char>)) -> bool {
    a.0 < b.0 || (a.0 == b.0 && bytes_lt(vstd::utf8::encode_utf8(a.1), vstd::utf8::encode_utf8(b.1)))
}

proof fn lemma_utf8_injective(a: Seq<char>, b: Seq<char>)
    requires
        vstd::utf8::encode_utf8(a) == vstd::utf8::encode_utf8(b),
    ensures
        a == b,
{
    vstd::utf8::encode_utf8_decode_utf8(a);
    vstd::utf8::encode_utf8_decode_utf8(b);
}

proof fn lemma_key_total(a: (usize, Seq<char>), b: (usize, Seq<char>))
    ensures
        key_before(a, b) || key_before(b, a) || a == b,
{
    if a.0 == b.0 {
        lemma_lt_total(vstd::utf8::encode_utf8(a.1), vstd::utf8::encode_utf8(b.1));
        if vstd::utf8::encode_utf8(a.1) == vstd::utf8::encode_utf8(b.1) {
            lemma_utf8_injective(a.1, b.1);
        }
    }
}

proof fn lemma_key_trans(a: (usize, Seq<char>), b: (usize, Seq<char>), c: (usize, Seq<char>))
    requires
        key_before(a, b),
        key_before(b, c),
    ensures
        key_before(a, c),
{
    if a.0 == b.0 && b.0 == c.0 {
        lemma_lt_trans(
            vstd::utf8::encode_utf8(a.1),
            vstd::utf8::encode_utf8(b.1),
            vstd::utf8::encode_utf8(c.1),
        );
    }
}

/// The abstract keys of a list of (shard, slice) pairs.
pub open spec fn keys_view(ks: Seq<(usize, String)>) -> Seq<(usize, Seq<char>)> {
    ks.map_values(|k: (usize, String)| (k.0, k.1@))
}

fn key_less(a: &(usize, String), b: &(usize, String)) -> (r: bool)
    ensures
        r == key_before((a.0, a.1@), (b.0, b.1@)),
{
    if a.0 != b.0 {
        return a.0 < b.0;
    }
    bytes_less(a.1.as_str().as_bytes(), b.1.as_str().as_bytes())
}

/// The slice names of all records; an error where a timestamp has none.
fn slices_of(ts: &Vec<u64>) -> (r: Result<Vec<String>, Error>)
    ensures
        match r {
            Ok(v) => v@.len() == ts@.len() && forall|k: int| 0 <= k < ts@.len() ==> slice_of(ts@[k]) == Some(#[trigger] v@[k]@),
            Err(e) => e matches Error::Schema(m) && m@ == "telemetry timestamp is out of range"@ && exists|k: int|
                0 <= k < ts@.len() && #[trigger] slice_of(ts@[k]) is None,
        },
{
    let mut names: Vec<String> = Vec::new();
    let mut k: usize = 0;
    while k < ts.len()
        invariant
            k <= ts@.len(),
            names@.len() == k,
            forall|j: int| 0 <= j < k ==> slice_of(ts@[j]) == Some(#[trigger] names@[j]@),
        decreases ts@.len() - k,
    {
        match slice_from_ts_ms(ts[k]) {
            Ok(name) => names.push(name),
            Err(e) => {
                assert(slice_of(ts@[k as int]) is None);
                return Err(e);
            },
        }
        k = k + 1;
    }
    Ok(names)
}

/// Whether one of the first `bound` records has the key.
pub open spec fn key_of_record(key: (usize, Seq<char>), shards: Seq<usize>, names: Seq<String>, bound: int) -> bool {
    exists|m: int| 0 <= m < bound && key == (shards[m], #[trigger] names[m]@)
}

/// The distinct (shard, slice) keys of the records, in key order.
fn sorted_keys(shards: &Vec<usize>, names: &Vec<String>) -> (r: Vec<(usize, String)>)
    requires
        shards@.len() == names@.len(),
    ensures
        forall|i: int, j: int| 0 <= i < j < r@.len() ==> key_before(#[trigger] keys_view(r@)[i], #[trigger] keys_view(r@)[j]),
        forall|i: int| 0 <= i < r@.len() ==> #[trigger] key_of_record(keys_view(r@)[i], shards@, names@, shards@.len() as int),
        forall|k: int| 0 <= k < shards@.len() ==> #[trigger] keys_view(r@).contains((shards@[k], names@[k]@)),
{
    let mut keys: Vec<(usize, String)> = Vec::new();
    let mut k: usize = 0;
    while k < shards.len()
        invariant
            shards@.len() == names@.len(),
            k <= shards@.len(),
            forall|i: int, j: int| 0 <= i < j < keys@.len() ==> key_before(#[trigger] keys_view(keys@)[i], #[trigger] keys_view(keys@)[j]),
            forall|i: int| 0 <= i < keys@.len() ==> #[trigger] key_of_record(keys_view(keys@)[i], shards@, names@, k as int),
            forall|m: int| 0 <= m < k ==> #[trigger] keys_view(keys@).contains((shards@[m], names@[m]@)),
        decreases shards@.len() - k,
    {
        let key = (shards[k], names[k].clone());
        let ghost kv = (shards@[k as int], names@[k as int]@);
        let mut pos: usize = 0;
        while pos < keys.len() && key_less(&keys[pos], &key)
            invariant
                pos <= keys@.len(),
                (key.0, key.1@) == kv,
                forall|p: int| 0 <= p < pos ==> key_before(#[trigger] keys_view(keys@)[p], kv),
            decreases keys@.len() - pos,
        {
            pos = pos + 1;
        }
        let ghost before = keys@;
        let present = pos < keys.len() && keys[pos].0 == key.0 && crate::text::str_eq(keys[pos].1.as_str(), key.1.as_str());
        if !present {
            proof {
                if pos < before.len() {
                    lemma_key_total(keys_view(before)[pos as int], kv);
                }
            }
            keys.insert(pos, key);
            proof {
                let bv = keys_view(before);
                let nv = keys_view(keys@);
                assert(nv =~= bv.insert(pos as int, kv));
                assert forall|i: int, j: int| 0 <= i < j < nv.len() implies key_before(#[trigger] nv[i], #[trigger] nv[j]) by {
                    if j < pos {
                        assert(key_before(bv[i], bv[j]));
                    } else if j == pos {
                        assert(key_before(bv[i], kv));
                    } else if i == pos {
                        assert(key_before(kv, bv[pos as int]));
                        if j - 1 > pos {
                            assert(key_before(bv[pos as int], bv[j - 1]));
                            lemma_key_trans(kv, bv[pos as int], bv[j - 1]);
                        }
                    } else if i < pos {
                        assert(key_before(bv[i], bv[j - 1]));
                    } else {
                        assert(key_before(bv[i - 1], bv[j - 1]));
                    }
                }
                assert forall|i: int| 0 <= i < nv.len() implies #[trigger] key_of_record(nv[i], shards@, names@, k + 1) by {
                    if i < pos {
                        assert(nv[i] == bv[i]);
                        assert(key_of_record(bv[i], shards@, names@, k as int));
                    } else if i > pos {
                        assert(nv[i] == bv[i - 1]);
                        assert(key_of_record(bv[i - 1], shards@, names@, k as int));
                    } else {
                        assert(nv[i] == (shards@[k as int], names@[k as int]@));
                    }
                }
                assert forall|m: int| 0 <= m < k + 1 implies #[trigger] nv.contains((shards@[m], names@[m]@)) by {
                    if m == k {
                        assert(nv[pos as int] == kv);
                    } else {
                        assert(bv.contains((shards@[m], names@[m]@)));
                        let i = choose|i: int| 0 <= i < bv.len() && bv[i] == (shards@[m], names@[m]@);
                        if i < pos {
                            assert(nv[i] == bv[i]);
                        } else {
                            assert(nv[i + 1] == bv[i]);
                        }
                    }
                }
            }
        } else {
            proof {
                let bv = keys_view(before);
                assert(bv[pos as int] == kv);
                assert forall|m: int| 0 <= m < k + 1 implies #[trigger] bv.contains((shards@[m], names@[m]@)) by {
                    if m == k {
                        assert(bv[pos as int] == kv);
                    }
                }
                assert forall|i: int| 0 <= i < bv.len() implies #[trigger] key_of_record(bv[i], shards@, names@, k + 1) by {
                    assert(key_of_record(bv[i], shards@, names@, k as int));
                }
            }
        }
        k = k + 1;
    }
    keys
}

/// The positions of the records with key `key`, in ascending order.
fn records_with_key(shards: &Vec<usize>, names: &Vec<String>, key: &(usize, String)) -> (r: Vec<usize>)
    requires
        shards@.len() == names@.len(),
    ensures
        forall|p: int| 0 <= p < r@.len() ==> #[trigger] r@[p] < shards@.len() && (shards@[r@[p] as int], names@[r@[p] as int]@) == (key.0, key.1@),
        forall|p: int, q: int| 0 <= p < q < r@.len() ==> #[trigger] r@[p] < #[trigger] r@[q],
        forall|j: int| 0 <= j < shards@.len() && (shards@[j], names@[j]@) == (key.0, key.1@) ==> #[trigger] r@.contains(j as usize),
{
    let mut out: Vec<usize> = Vec::new();
    let mut k: usize = 0;
    while k < shards.len()
        invariant
            shards@.len() == names@.len(),
            k <= shards@.len(),
            forall|p: int| 0 <= p < out@.len() ==> #[trigger] out@[p] < k && (shards@[out@[p] as int], names@[out@[p] as int]@) == (key.0, key.1@),
            forall|p: int, q: int| 0 <= p < q < out@.len() ==> #[trigger] out@[p] < #[trigger] out@[q],
            forall|j: int| 0 <= j < k && (shards@[j], names@[j]@) == (key.0, key.1@) ==> #[trigger] out@.contains(j as usize),
        decreases shards@.len() - k,
    {
        if shards[k] == key.0 && crate::text::str_eq(names[k].as_str(), key.1.as_str()) {
            let ghost before = out@;
            out.push(k);
            proof {
                assert forall|j: int| 0 <= j < k + 1 && (shards@[j], names@[j]@) == (key.0, key.1@) implies #[trigger] out@.contains(j as usize) by {
                    if j < k {
                        assert(before.contains(j as usize));
                        let p = choose|p: int| 0 <= p < before.len() && before[p] == j as usize;
                        assert(out@[p] == before[p]);
                    } else {
                        assert(out@[before.len() as int] == k);
                    }
                }
            }
        }
        k = k + 1;
    }
    out
}

/// Splits a batch of records (their shards and timestamps) for the shard
/// writers: one batch per shard and daily slice that has records, in shard
/// and slice order. A schema error where a timestamp has no slice.
pub fn split_batches(shards: &Vec<usize>, ts: &Vec<u64>) -> (r: Result<Vec<ShardBatch>, Error>)
    requires
        shards@.len() == ts@.len(),
    ensures
        match r {
            Ok(bs) => is_split_of(shards@, ts@, bs@),
            Err(e) => e matches Error::Schema(m) && m@ == "telemetry timestamp is out of range"@ && exists|k: int|
                0 <= k < ts@.len() && #[trigger] slice_of(ts@[k]) is None,
        },
        (forall|k: int| 0 <= k < ts@.len() ==> #[trigger] slice_of(ts@[k]) is Some) ==> r is Ok,
{
    let names = match slices_of(ts) {
        Ok(n) => n,
        Err(e) => return Err(e),
    };
    let keys = sorted_keys(shards, &names);
    let mut out: Vec<ShardBatch> = Vec::new();
    let mut i: usize = 0;
    while i < keys.len()
        invariant
            shards@.len() == ts@.len(),
            names@.len() == ts@.len(),
            forall|k: int| 0 <= k < ts@.len() ==> slice_of(ts@[k]) == Some(#[trigger] names@[k]@),
            forall|a: int, b: int| 0 <= a < b < keys@.len() ==> key_before(#[trigger] keys_view(keys@)[a], #[trigger] keys_view(keys@)[b]),
            forall|a: int| 0 <= a < keys@.len() ==> #[trigger] key_of_record(keys_view(keys@)[a], shards@, names@, shards@.len() as int),
            i <= keys@.len(),
            out@.len() == i,
            forall|a: int| 0 <= a < i ==> (#[trigger] out@[a]).shard == keys@[a].0 && out@[a].slice@ == keys@[a].1@,
            forall|a: int|
                0 <= a < i ==> {
                    &&& (#[trigger] out@[a]).records@.len() > 0
                    &&& forall|p: int, q: int|
                        0 <= p < q < out@[a].records@.len() ==> #[trigger] out@[a].records@[p] < #[trigger] out@[a].records@[q]
                    &&& forall|p: int|
                        0 <= p < out@[a].records@.len() ==> {
                            &&& #[trigger] out@[a].records@[p] < shards@.len()
                            &&& shards@[out@[a].records@[p] as int] == out@[a].shard
                            &&& slice_of(ts@[out@[a].records@[p] as int]) == Some(out@[a].slice@)
                        }
                    &&& forall|j: int| 0 <= j < shards@.len() && (shards@[j], names@[j]@) == (out@[a].shard, out@[a].slice@) ==> #[trigger] out@[a].records@.contains(j as usize)
                },
        decreases keys@.len() - i,
    {
        let recs = records_with_key(shards, &names, &keys[i]);
        proof {
            assert(key_of_record(keys_view(keys@)[i as int], shards@, names@, shards@.len() as int));
            let m = choose|m: int| 0 <= m < shards@.len() && keys_view(keys@)[i as int] == (shards@[m], #[trigger] names@[m]@);
            assert(recs@.contains(m as usize));
        }
        let batch = ShardBatch { shard: keys[i].0, slice: keys[i].1.clone(), records: recs };
        out.push(batch);
        i = i + 1;
    }
    proof {
        let bs = out@;
        assert forall|a: int, b: int| 0 <= a < b < bs.len() implies batch_before(#[trigger] bs[a], #[trigger] bs[b]) by {
            assert(key_before(keys_view(keys@)[a], keys_view(keys@)[b]));
        }
        assert forall|k: int| 0 <= k < shards@.len() implies #[trigger] batch_holds(bs, k) by {
            assert(keys_view(keys@).contains((shards@[k], names@[k]@)));
            let a = choose|a: int| 0 <= a < keys_view(keys@).len() && keys_view(keys@)[a] == (shards@[k], names@[k]@);
            assert(bs[a].records@.contains(k as usize));
        }
    }
    Ok(out)
}

// ---------------------------------------------------------------------------
// A shard writer's pending batch
// ---------------------------------------------------------------------------

/// What a shard writer keeps of its pending batch: the slice its database
/// connection is open on (if any), and the batch's approximate size in bytes
/// and in records.
#[derive(Debug)]
pub struct WriterBatch {
    pub current_slice: Option<String>,
    pub bytes: usize,
    pub records: usize,
}

impl WriterBatch {
    /// A writer with nothing pending and no connection open.
    pub fn new() -> (r: WriterBatch)
        ensures
            r.current_slice is None,
            r.bytes == 0,
            r.records == 0,
    {
        WriterBatch { current_slice: None, bytes: 0, records: 0 }
    }
}

/// How a writer takes in a record: the record's slice, whether the pending
/// batch must be written out first (it belongs to another slice), and
/// whether a connection to the record's slice must be opened.
#[derive(Debug)]
pub struct EnqueuePlan {
    pub slice: String,
    pub flush_first: bool,
    pub open: bool,
}

/// Plans taking in a record with timestamp `ts_ms`: a new slice (or none
/// yet) means opening it, and writing out a non-empty pending batch first. A
/// schema error where the timestamp has no slice; the record is then
/// dropped.
pub fn plan_enqueue(batch: &WriterBatch, ts_ms: u64) -> (r: Result<EnqueuePlan, Error>)
    ensures
        match slice_of(ts_ms) {
            None => r matches Err(Error::Schema(m)) && m@ == "telemetry timestamp is out of range"@,
            Some(s) => r matches Ok(p) && {
                &&& p.slice@ == s
                &&& p.open == !(batch.current_slice matches Some(c) && c@ == s)
                &&& p.flush_first == (p.open && batch.records > 0)
            },
        },
{
    let slice = match slice_from_ts_ms(ts_ms) {
        Ok(s) => s,
        Err(e) => return Err(e),
    };
    let same = match &batch.current_slice {
        Some(c) => crate::text::str_eq(c.as_str(), slice.as_str()),
        None => false,
    };
    let open = !same;
    Ok(EnqueuePlan { slice, flush_first: open && batch.records > 0, open })
}

/// Counts a record of `size` bytes into the pending batch.
pub fn add_record(batch: &mut WriterBatch, size: usize)
    requires
        old(batch).bytes + size <= usize::MAX,
        old(batch).records < usize::MAX,
    ensures
        final(batch).bytes == old(batch).bytes + size,
        final(batch).records == old(batch).records + 1,
        final(batch).current_slice == old(batch).current_slice,
{
    batch.bytes = batch.bytes + size;
    batch.records = batch.records + 1;
}

/// How a writer writes out its pending batch.
#[derive(Debug)]
pub enum FlushPlan {
    /// Nothing is pending.
    Nothing,
    /// The pending records are dropped: no slice can be found for them.
    Discard,
    /// The pending records go to this slice.
    Write { slice: String },
}

/// Plans writing out the pending batch, whose first record has timestamp
/// `first_ts` (none when nothing is pending): into the open slice, or else
/// into the slice of the first record; where that has none, the batch is
/// dropped.
pub fn plan_flush(batch: &WriterBatch, first_ts: Option<u64>) -> (r: FlushPlan)
    ensures
        batch.records == 0 ==> r is Nothing,
        batch.records > 0 ==> match batch.current_slice {
            Some(c) => r matches FlushPlan::Write { slice } && slice@ == c@,
            None => match first_ts {
                Some(t) => match slice_of(t) {
                    Some(s) => r matches FlushPlan::Write { slice } && slice@ == s,
                    None => r is Discard,
                },
                None => r is Discard,
            },
        },
{
    if batch.records == 0 {
        return FlushPlan::Nothing;
    }
    match &batch.current_slice {
        Some(c) => FlushPlan::Write { slice: c.clone() },
        None => match first_ts {
            Some(t) => match slice_from_ts_ms(t) {
                Ok(s) => FlushPlan::Write { slice: s },
                Err(_) => FlushPlan::Discard,
            },
            None => FlushPlan::Discard,
        },
    }
}

/// Empties the pending batch after it was written out (or dropped);
/// `written_to` is the slice it went to, which stays open.
pub fn reset_batch(batch: &mut WriterBatch, written_to: Option<String>)
    ensures
        final(batch).bytes == 0,
        final(batch).records == 0,
        match written_to {
            Some(s) => final(batch).current_slice matches Some(c) && c@ == s@,
            None => final(batch).current_slice == old(batch).current_slice,
        },
{
    batch.bytes = 0;
    batch.records = 0;
    if let Some(s) = written_to {
        batch.current_slice = Some(s);
    }
}

} // verus!
