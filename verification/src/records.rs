//! Fixed-width records read back from device storage buffers.
//!
//! A readback is a flat run of `u32` words; a well-formed one is a whole
//! number of records, which are handed out in device order.

use vstd::prelude::*;
use crate::error::LodWebGpuError;

verus! {

/// Words of one prepared-patch record.
pub const PREPARED_PATCH_RECORD_WORDS: usize = 52;

/// Record `i` of a run of `width`-word records.
pub open spec fn record_at(words: Seq<u32>, width: int, i: int) -> Seq<u32> {
    words.subrange(i * width, i * width + width)
}

/// A run of words is a whole number of `width`-word records.
pub open spec fn whole_records(words: Seq<u32>, width: int) -> bool {
    (words.len() as int) % width == 0
}

/// The records held by `records`, exactly the consecutive `N`-word chunks of
/// `words`, in order.
pub open spec fn chunks_match<const N: usize>(records: Seq<[u32; N]>, words: Seq<u32>) -> bool {
    &&& records.len() == (words.len() as int) / (N as int)
    &&& forall|i: int| 0 <= i < records.len() ==> (#[trigger] records[i])@ == record_at(words, N as int, i)
}

/// Split a whole number of `N`-word records out of `words`.
fn split_records<const N: usize>(words: &Vec<u32>) -> (records: Vec<[u32; N]>)
    requires
        N > 0,
        whole_records(words@, N as int),
    ensures
        chunks_match(records@, words@),
{
    let len = words.len();
    let count = len / N;
    let mut records: Vec<[u32; N]> = Vec::new();
    let mut i: usize = 0;
    while i < count
        invariant
            N > 0,
            len == words@.len(),
            count == (words@.len() as int) / (N as int),
            i <= count,
            records@.len() == i,
            forall|r: int| 0 <= r < i ==> (#[trigger] records@[r])@ == record_at(words@, N as int, r),
        decreases count - i,
    {
        proof {
            assert(i * N + N <= words@.len()) by (nonlinear_arith)
                requires
                    N > 0,
                    i < count,
                    count == (words@.len() as int) / (N as int),
            ;
        }
        let base = i * N;
        let mut record = [0u32; N];
        let mut j: usize = 0;
        while j < N
            invariant
                N > 0,
                base == i * N,
                base + N <= words@.len(),
                len == words@.len(),
                j <= N,
                forall|k: int| 0 <= k < j ==> record@[k] == words@[base + k],
            decreases N - j,
        {
            record[j] = words[base + j];
            j = j + 1;
        }
        assert(record@ =~= record_at(words@, N as int, i as int));
        records.push(record);
        i = i + 1;
    }
    records
}

/// Prepared-patch records read back from the device; a readback that is not a
/// whole number of records is a mapping error.
pub fn words_to_patch_records(words: Vec<u32>) -> (r: Result<Vec<[u32; 52]>, LodWebGpuError>)
    ensures
        r is Ok <==> whole_records(words@, 52),
        r matches Ok(records) ==> chunks_match(records@, words@),
        r matches Err(e) ==> e is Mapping,
{
    if words.len() % PREPARED_PATCH_RECORD_WORDS != 0 {
        return Err(
            LodWebGpuError::mapping("prepared-patch readback does not contain 52-word records"),
        );
    }
    Ok(split_records::<52>(&words))
}

/// Five-word records of the readback named `label`; the error of a malformed
/// readback carries that name.
pub fn words_to_five_records(words: Vec<u32>, label: &str) -> (r: Result<
    Vec<[u32; 5]>,
    LodWebGpuError,
>)
    ensures
        r is Ok <==> whole_records(words@, 5),
        r matches Ok(records) ==> chunks_match(records@, words@),
        r matches Err(e) ==> e is Mapping,
{
    if words.len() % 5 != 0 {
        return Err(LodWebGpuError::mapping(label));
    }
    Ok(split_records::<5>(&words))
}

/// Twelve-word resident-root topology records.
pub fn words_to_twelve_records(words: Vec<u32>) -> (r: Result<Vec<[u32; 12]>, LodWebGpuError>)
    ensures
        r is Ok <==> whole_records(words@, 12),
        r matches Ok(records) ==> chunks_match(records@, words@),
        r matches Err(e) ==> e is Mapping,
{
    if words.len() % 12 != 0 {
        return Err(
            LodWebGpuError::mapping(
                "resident root topology readback does not contain twelve-word records",
            ),
        );
    }
    Ok(split_records::<12>(&words))
}

/// Words of the records, concatenated in order.
pub open spec fn concat_records<const N: usize>(records: Seq<[u32; N]>) -> Seq<u32>
    decreases records.len(),
{
    if records.len() == 0 {
        Seq::empty()
    } else {
        concat_records(records.drop_last()) + records.last()@
    }
}

/// Splitting a readback into records loses, adds, and reorders no word:
/// concatenating the records gives back the readback.
pub proof fn lemma_records_concatenate_to_words<const N: usize>(
    records: Seq<[u32; N]>,
    words: Seq<u32>,
)
    requires
        N > 0,
        whole_records(words, N as int),
        chunks_match(records, words),
    ensures
        concat_records(records) == words,
{
    lemma_concat_prefix(records, words, records.len() as int);
    assert(records.subrange(0, records.len() as int) =~= records);
    assert(words.len() == records.len() * N) by (nonlinear_arith)
        requires
            (words.len() as int) % (N as int) == 0,
            records.len() == (words.len() as int) / (N as int),
            N > 0,
    ;
    assert(words.subrange(0, records.len() * N) =~= words);
}

proof fn lemma_concat_prefix<const N: usize>(records: Seq<[u32; N]>, words: Seq<u32>, n: int)
    requires
        N > 0,
        0 <= n <= records.len(),
        chunks_match(records, words),
    ensures
        concat_records(records.subrange(0, n)) == words.subrange(0, n * N),
    decreases n,
{
    if n > 0 {
        lemma_concat_prefix(records, words, n - 1);
        let prefix = records.subrange(0, n);
        assert(prefix.drop_last() =~= records.subrange(0, n - 1));
        assert(n * N == (n - 1) * N + N) by (nonlinear_arith);
        assert(n * N <= words.len()) by (nonlinear_arith)
            requires
                n <= records.len(),
                records.len() == (words.len() as int) / (N as int),
                N > 0,
        ;
        assert(prefix.last()@ == record_at(words, N as int, n - 1));
        assert(words.subrange(0, n * N) =~= words.subrange(0, (n - 1) * N) + record_at(
            words,
            N as int,
            n - 1,
        ));
    } else {
        assert(records.subrange(0, 0) =~= Seq::<[u32; N]>::empty());
        assert(words.subrange(0, 0) =~= Seq::<u32>::empty());
    }
}

} // verus!
