use vstd::prelude::*;

verus! {

/// The block size used when an instance's file is checkpointed.
pub const DEFAULT_BLOCK_SIZE: usize = 40960;

/// The byte sequences held by a list of buffers.
pub open spec fn views(v: Seq<Vec<u8>>) -> Seq<Seq<u8>> {
    v.map_values(|b: Vec<u8>| b@)
}

/// The length of the block that starts a file: a whole block, or what is
/// left of the file when that is shorter.
pub open spec fn first_block_len(len: nat, block_size: nat) -> nat {
    if len < block_size {
        len
    } else {
        block_size
    }
}

/// A file cut into consecutive blocks of `block_size` bytes; the last one
/// may be shorter, and an empty file has no block.
pub open spec fn blocks_of(file: Seq<u8>, block_size: nat) -> Seq<Seq<u8>>
    decreases file.len(),
{
    if file.len() == 0 || block_size == 0 {
        Seq::empty()
    } else {
        let n = first_block_len(file.len(), block_size);
        seq![file.take(n as int)] + blocks_of(file.skip(n as int), block_size)
    }
}

/// What a decoder writes: the records in order, at most `count` of them,
/// stopping early at the first empty record.
pub open spec fn decoded(count: int, records: Seq<Seq<u8>>) -> Seq<u8>
    decreases records.len(),
{
    if count <= 0 || records.len() == 0 || records[0].len() == 0 {
        Seq::empty()
    } else {
        records[0] + decoded(count - 1, records.drop_first())
    }
}

proof fn lemma_blocks_step(file: Seq<u8>, block_size: nat, pos: nat)
    requires
        block_size > 0,
        pos < file.len(),
    ensures
        ({
            let rest = file.skip(pos as int);
            let n = first_block_len(rest.len(), block_size);
            &&& blocks_of(rest, block_size) == seq![rest.take(n as int)] + blocks_of(
                file.skip((pos + n) as int),
                block_size,
            )
            &&& rest.take(n as int) == file.subrange(pos as int, (pos + n) as int)
        }),
{
    let rest = file.skip(pos as int);
    let n = first_block_len(rest.len(), block_size);
    assert(rest.skip(n as int) =~= file.skip((pos + n) as int));
    assert(rest.take(n as int) =~= file.subrange(pos as int, (pos + n) as int));
}

proof fn lemma_blocks_len_bound(file: Seq<u8>, block_size: nat)
    requires
        block_size > 0,
    ensures
        blocks_of(file, block_size).len() <= file.len(),
    decreases file.len(),
{
    if file.len() > 0 {
        let n = first_block_len(file.len(), block_size);
        lemma_blocks_len_bound(file.skip(n as int), block_size);
    }
}

/// Cuts a file into the blocks that a checkpoint stores, and returns the
/// number of blocks to write ahead of them.
pub fn encode_blocks(file: &Vec<u8>, block_size: usize) -> (r: (i64, Vec<Vec<u8>>))
    requires
        block_size > 0,
        file@.len() <= i64::MAX,
    ensures
        views(r.1@) == blocks_of(file@, block_size as nat),
        r.0 == r.1@.len(),
{
    let mut blocks: Vec<Vec<u8>> = Vec::new();
    let mut pos: usize = 0;
    proof {
        lemma_blocks_len_bound(file@, block_size as nat);
        assert(file@.skip(0) =~= file@);
        assert(views(blocks@) =~= Seq::<Seq<u8>>::empty());
        assert(views(blocks@) + blocks_of(file@, block_size as nat) =~= blocks_of(
            file@,
            block_size as nat,
        ));
    }
    while pos < file.len()
        invariant
            block_size > 0,
            pos <= file@.len(),
            file@.len() <= i64::MAX,
            blocks_of(file@, block_size as nat) == views(blocks@) + blocks_of(
                file@.skip(pos as int),
                block_size as nat,
            ),
        decreases file@.len() - pos,
    {
        let rest: usize = file.len() - pos;
        let n: usize = if rest < block_size {
            rest
        } else {
            block_size
        };
        let mut block: Vec<u8> = Vec::new();
        let mut j: usize = 0;
        while j < n
            invariant
                pos + n <= file.len(),
                j <= n,
                block@ == file@.subrange(pos as int, pos + j),
            decreases n - j,
        {
            block.push(file[pos + j]);
            j = j + 1;
            assert(block@ =~= file@.subrange(pos as int, pos + j));
        }
        proof {
            lemma_blocks_step(file@, block_size as nat, pos as nat);
            assert(views(blocks@.push(block)) =~= views(blocks@).push(block@));
            assert(views(blocks@) + blocks_of(file@.skip(pos as int), block_size as nat)
                =~= views(blocks@.push(block)) + blocks_of(file@.skip((pos + n) as int), block_size as nat));
        }
        blocks.push(block);
        pos = pos + n;
    }
    proof {
        assert(file@.skip(pos as int).len() == 0);
        assert(views(blocks@) + Seq::<Seq<u8>>::empty() =~= views(blocks@));
        lemma_blocks_len_bound(file@, block_size as nat);
        assert(views(blocks@).len() == blocks@.len());
    }
    let count = blocks.len() as i64;
    (count, blocks)
}

proof fn lemma_decoded_push(count: int, records: Seq<Seq<u8>>, k: int)
    requires
        0 <= k < records.len(),
        k < count,
        forall|i: int| 0 <= i < k ==> records[i].len() > 0,
        records[k].len() > 0,
    ensures
        decoded(count, records.take(k + 1)) == decoded(count, records.take(k)) + records[k],
    decreases k,
{
    let a = records.take(k + 1);
    let b = records.take(k);
    if k == 0 {
        assert(a.drop_first() =~= Seq::<Seq<u8>>::empty());
        assert(decoded(count - 1, a.drop_first()) == Seq::<u8>::empty());
        assert(decoded(count, a) =~= records[0]);
        assert(decoded(count, b) =~= Seq::<u8>::empty());
        assert(decoded(count, b) + records[k] =~= records[k]);
    } else {
        let rest = records.drop_first();
        lemma_decoded_push(count - 1, rest, k - 1);
        assert(a.drop_first() =~= rest.take(k));
        assert(b.drop_first() =~= rest.take(k - 1));
        assert(decoded(count, a) == records[0] + decoded(count - 1, rest.take(k)));
        assert(decoded(count, b) == records[0] + decoded(count - 1, rest.take(k - 1)));
        assert(records[0] + (decoded(count - 1, rest.take(k - 1)) + records[k])
            =~= (records[0] + decoded(count - 1, rest.take(k - 1))) + records[k]);
    }
}

proof fn lemma_decoded_stop(count: int, records: Seq<Seq<u8>>, k: int)
    requires
        0 <= k <= records.len(),
        forall|i: int| 0 <= i < k ==> records[i].len() > 0,
        k == records.len() || k >= count || records[k].len() == 0,
    ensures
        decoded(count, records.take(k)) == decoded(count, records),
    decreases k,
{
    if k == 0 {
        assert(records.take(0) =~= Seq::<Seq<u8>>::empty());
    } else if records.len() > 0 && count > 0 {
        let rest = records.drop_first();
        lemma_decoded_stop(count - 1, rest, k - 1);
        assert(records.take(k).drop_first() =~= rest.take(k - 1));
    } else {
        if count <= 0 {
            assert(decoded(count, records.take(k)) == Seq::<u8>::empty());
        }
    }
}

/// Writes back the file that a checkpoint holds: the records in order, at
/// most `count` of them, ending early at an empty record.
pub fn decode_blocks(count: i64, records: &Vec<Vec<u8>>) -> (r: Vec<u8>)
    ensures
        r@ == decoded(count as int, views(records@)),
{
    let ghost recs = views(records@);
    let mut out: Vec<u8> = Vec::new();
    let mut k: usize = 0;
    let mut left: i64 = count;
    while k < records.len() && left > 0 && records[k].len() > 0
        invariant
            k <= records@.len(),
            left == count - k,
            recs == views(records@),
            recs.len() == records@.len(),
            forall|i: int| 0 <= i < k ==> recs[i].len() > 0,
            out@ == decoded(count as int, recs.take(k as int)),
        decreases records@.len() - k,
    {
        let block = &records[k];
        let mut j: usize = 0;
        let ghost before = out@;
        while j < block.len()
            invariant
                j <= block@.len(),
                out@ == before + block@.take(j as int),
            decreases block@.len() - j,
        {
            out.push(block[j]);
            j = j + 1;
            assert(out@ =~= before + block@.take(j as int));
        }
        proof {
            assert(block@.take(block@.len() as int) =~= block@);
            assert(recs[k as int] == block@);
            lemma_decoded_push(count as int, recs, k as int);
        }
        k = k + 1;
        left = left - 1;
    }
    proof {
        lemma_decoded_stop(count as int, recs, k as int);
    }
    out
}

proof fn lemma_blocks_nonempty(file: Seq<u8>, block_size: nat)
    requires
        block_size > 0,
    ensures
        forall|i: int|
            0 <= i < blocks_of(file, block_size).len() ==> #[trigger] blocks_of(
                file,
                block_size,
            )[i].len() > 0,
    decreases file.len(),
{
    if file.len() > 0 {
        let n = first_block_len(file.len(), block_size);
        let rest = file.skip(n as int);
        lemma_blocks_nonempty(rest, block_size);
        let b = blocks_of(file, block_size);
        assert forall|i: int| 0 <= i < b.len() implies #[trigger] b[i].len() > 0 by {
            if i > 0 {
                assert(b[i] == blocks_of(rest, block_size)[i - 1]);
            }
        }
    }
}

/// Decoding with the count and the blocks that encoding produced gives
/// back the file byte for byte, whatever its size.
pub proof fn lemma_round_trip(file: Seq<u8>, block_size: nat)
    requires
        block_size > 0,
    ensures
        decoded(blocks_of(file, block_size).len() as int, blocks_of(file, block_size)) == file,
    decreases file.len(),
{
    if file.len() > 0 {
        let n = first_block_len(file.len(), block_size);
        let rest = file.skip(n as int);
        lemma_round_trip(rest, block_size);
        let b = blocks_of(file, block_size);
        assert(b.drop_first() =~= blocks_of(rest, block_size));
        assert(file.take(n as int) + rest =~= file);
    } else {
        assert(file =~= Seq::<u8>::empty());
    }
}

} // verus!
