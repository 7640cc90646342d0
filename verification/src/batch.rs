//! Samples flattened into the flat buffers that tensors are made of.
use vstd::prelude::*;
use crate::dataset::VolSample;

verus! {

/// The first `upto` blocks, one after the other.
pub open spec fn joined<T>(blocks: Seq<Seq<T>>, upto: int) -> Seq<T>
    decreases upto,
{
    if upto <= 0 {
        Seq::empty()
    } else {
        joined(blocks, upto - 1) + blocks[upto - 1]
    }
}

/// The rows of a feature matrix as plain sequences.
pub open spec fn row_blocks<T>(rows: Seq<Vec<T>>) -> Seq<Seq<T>> {
    Seq::new(rows.len(), |s: int| rows[s]@)
}

/// The features of one sample, row after row.
pub open spec fn flat_features<T>(sample: VolSample<T>) -> Seq<T> {
    joined(row_blocks(sample.features@), sample.features@.len() as int)
}

/// Each sample's features, row after row.
pub open spec fn sample_blocks<T>(items: Seq<VolSample<T>>) -> Seq<Seq<T>> {
    Seq::new(items.len(), |b: int| flat_features(items[b]))
}

/// The targets of the samples, in their order.
pub open spec fn targets_of<T>(items: Seq<VolSample<T>>) -> Seq<T> {
    Seq::new(items.len(), |b: int| items[b].target)
}

/// The rows per sample of a batch: those of its first sample, 0 for an
/// empty batch.
pub open spec fn seq_len_of<T>(items: Seq<VolSample<T>>) -> nat {
    if items.len() > 0 {
        items[0].features@.len()
    } else {
        0
    }
}

/// The values per row of a batch: those of the first row of its first
/// sample, 0 where there is none.
pub open spec fn width_of<T>(items: Seq<VolSample<T>>) -> nat {
    if items.len() > 0 && items[0].features@.len() > 0 {
        items[0].features@[0]@.len()
    } else {
        0
    }
}

/// Every sample has `seq_len` rows of `width` values.
pub open spec fn same_shape<T>(items: Seq<VolSample<T>>, seq_len: int, width: int) -> bool {
    forall|b: int|
        0 <= b < items.len() ==> {
            &&& (#[trigger] items[b]).features@.len() == seq_len
            &&& forall|s: int| 0 <= s < seq_len ==> (#[trigger] items[b].features@[s])@.len() == width
        }
}

/// Samples flattened for a tensor of shape `[batch_size, seq_len,
/// num_features]` and one of shape `[batch_size, 1]`.
#[derive(Debug, Clone)]
pub struct VolBatch<T> {
    /// The features of all samples, sample after sample, row after row.
    pub inputs: Vec<T>,
    /// One target per sample.
    pub targets: Vec<T>,
    pub batch_size: usize,
    pub seq_len: usize,
    pub num_features: usize,
}

/// Turns samples into flat batches.
#[derive(Debug, Clone)]
pub struct VolBatcher {}

/// Blocks of one width joined: the result has `upto * width` items, and
/// item `f` of block `b` stands at `b * width + f`.
pub proof fn lemma_joined_uniform<T>(blocks: Seq<Seq<T>>, upto: int, width: int)
    requires
        0 <= upto <= blocks.len(),
        0 <= width,
        forall|b: int| 0 <= b < upto ==> (#[trigger] blocks[b]).len() == width,
    ensures
        joined(blocks, upto).len() == upto * width,
        forall|b: int, f: int|
            0 <= b < upto && 0 <= f < width ==> joined(blocks, upto)[b * width + f]
                == #[trigger] blocks[b][f],
    decreases upto,
{
    if upto > 0 {
        lemma_joined_uniform(blocks, upto - 1, width);
        let before = joined(blocks, upto - 1);
        assert(before.len() == (upto - 1) * width);
        assert((upto - 1) * width + width == upto * width) by (nonlinear_arith);
        assert forall|b: int, f: int| 0 <= b < upto && 0 <= f < width implies joined(blocks, upto)[b
            * width + f] == #[trigger] blocks[b][f] by {
            if b < upto - 1 {
                assert(b * width + f < (upto - 1) * width) by (nonlinear_arith)
                    requires
                        0 <= b < upto - 1,
                        0 <= f < width,
                ;
                assert(before[b * width + f] == blocks[b][f]);
            } else {
                assert(b * width + f == before.len() + f);
            }
        }
    } else {
        assert(upto * width == 0) by (nonlinear_arith)
            requires
                upto == 0,
        ;
    }
}

/// The layout of a batch of equally shaped samples: the inputs hold
/// `batch * seq_len * width` values, and value `f` of row `s` of sample
/// `b` stands at `(b * seq_len + s) * width + f`.
pub proof fn lemma_batch_layout<T>(items: Seq<VolSample<T>>, seq_len: int, width: int)
    requires
        0 <= seq_len,
        0 <= width,
        same_shape(items, seq_len, width),
    ensures
        joined(sample_blocks(items), items.len() as int).len() == items.len() * seq_len * width,
        forall|b: int, s: int, f: int|
            0 <= b < items.len() && 0 <= s < seq_len && 0 <= f < width ==> joined(
                sample_blocks(items),
                items.len() as int,
            )[(b * seq_len + s) * width + f] == #[trigger] items[b].features@[s]@[f],
{
    let blocks = sample_blocks(items);
    let size = seq_len * width;
    assert(size >= 0) by (nonlinear_arith)
        requires
            seq_len >= 0,
            width >= 0,
            size == seq_len * width,
    ;
    assert forall|b: int| 0 <= b < items.len() implies (#[trigger] blocks[b]).len() == size by {
        assert(items[b].features@.len() == seq_len);
        lemma_joined_uniform(row_blocks(items[b].features@), seq_len, width);
    }
    lemma_joined_uniform(blocks, items.len() as int, size);
    assert(items.len() * size == items.len() * seq_len * width) by (nonlinear_arith)
        requires
            size == seq_len * width,
    ;
    assert forall|b: int, s: int, f: int|
        0 <= b < items.len() && 0 <= s < seq_len && 0 <= f < width implies joined(
        blocks,
        items.len() as int,
    )[(b * seq_len + s) * width + f] == #[trigger] items[b].features@[s]@[f] by {
        let rows = row_blocks(items[b].features@);
        assert(items[b].features@.len() == seq_len);
        lemma_joined_uniform(rows, seq_len, width);
        let g = s * width + f;
        assert(0 <= g < size) by (nonlinear_arith)
            requires
                0 <= s < seq_len,
                0 <= f < width,
                g == s * width + f,
                size == seq_len * width,
        ;
        assert((b * seq_len + s) * width + f == b * size + g) by (nonlinear_arith)
            requires
                size == seq_len * width,
                g == s * width + f,
        ;
        assert(blocks[b][g] == rows[s][f]);
        assert(joined(blocks, items.len() as int)[b * size + g] == blocks[b][g]);
    }
}

impl VolBatcher {
    /// A batcher.
    pub fn new() -> (out: Self) {
        VolBatcher {  }
    }

    /// Flattens the samples into one batch: all feature values in the
    /// order sample, row, column, and the targets in the samples' order.
    /// The shape is read from the first sample.
    pub fn batch<T: Copy>(&self, items: &[VolSample<T>]) -> (out: VolBatch<T>)
        ensures
            out.inputs@ == joined(sample_blocks(items@), items@.len() as int),
            out.targets@ == targets_of(items@),
            out.batch_size == items@.len(),
            out.seq_len == seq_len_of(items@),
            out.num_features == width_of(items@),
    {
        let batch_size = items.len();
        let seq_len = if batch_size > 0 {
            items[0].features.len()
        } else {
            0
        };
        let num_features = if batch_size > 0 && seq_len > 0 {
            items[0].features[0].len()
        } else {
            0
        };
        let mut inputs: Vec<T> = Vec::new();
        let mut targets: Vec<T> = Vec::new();
        let mut b: usize = 0;
        while b < batch_size
            invariant
                b <= batch_size,
                batch_size == items@.len(),
                inputs@ == joined(sample_blocks(items@), b as int),
                targets@ == targets_of(items@).take(b as int),
            decreases batch_size - b,
        {
            let sample = &items[b];
            let ghost before = inputs@;
            let ghost rows = row_blocks(sample.features@);
            let mut s: usize = 0;
            while s < sample.features.len()
                invariant
                    s <= sample.features@.len(),
                    rows == row_blocks(sample.features@),
                    inputs@ == before + joined(rows, s as int),
                decreases sample.features@.len() - s,
            {
                let row = &sample.features[s];
                let ghost start = inputs@;
                let mut f: usize = 0;
                while f < row.len()
                    invariant
                        f <= row@.len(),
                        inputs@ == start + row@.take(f as int),
                    decreases row@.len() - f,
                {
                    inputs.push(row[f]);
                    assert(row@.take(f + 1) == row@.take(f as int).push(row@[f as int]));
                    f += 1;
                }
                assert(row@.take(row@.len() as int) == row@);
                assert(rows[s as int] == row@);
                assert(inputs@ == before + joined(rows, s + 1));
                s += 1;
            }
            targets.push(sample.target);
            assert(sample_blocks(items@)[b as int] == joined(rows, sample.features@.len() as int));
            assert(targets@ == targets_of(items@).take(b + 1));
            b += 1;
        }
        assert(targets_of(items@).take(batch_size as int) == targets_of(items@));
        VolBatch { inputs, targets, batch_size, seq_len, num_features }
    }
}

} // verus!
