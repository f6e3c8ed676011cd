//! The send pipeline: a batch goes out in chunks, one chunk after another,
//! each transaction of a chunk in its wire form on a stream of its own.

use vstd::prelude::*;
use solana_sdk::transaction::VersionedTransaction;

verus! {

/// Streams that may be open at once towards one destination, and so the
/// number of transactions in a full chunk.
pub const MAX_PARALLEL_STREAMS: usize = 6;

/// `bincode::ErrorKind`: what went wrong inside the encoder.
#[verifier::external_type_specification]
#[verifier::external_body]
pub struct ExErrorKind(bincode::ErrorKind);

/// The wire form of `transaction`: the bytes that make up the whole body of
/// its stream, or `None` where the transaction has no wire form.
pub uninterp spec fn wire_form(transaction: VersionedTransaction) -> Option<Seq<u8>>;

/// Encodes `transaction` with `bincode::serialize`, which uses fixed-width
/// integers and sets no size limit. The outcome depends on the transaction
/// alone: the same transaction always gives the same bytes, or always fails.
#[verifier::external_body]
fn encode(transaction: &VersionedTransaction) -> (encoded: Result<
    Vec<u8>,
    Box<bincode::ErrorKind>,
>)
    ensures
        match encoded {
            Ok(bytes) => wire_form(*transaction) == Some(bytes@),
            Err(_) => wire_form(*transaction) is None,
        },
{
    bincode::serialize(transaction)
}

/// A transaction could not be put into its wire form.
#[derive(Clone, Copy, Debug, PartialEq, Eq, Structural)]
pub struct SerializeError {
    /// Where in the batch the transaction stands.
    pub index: usize,
}

/// Chunks that a batch of `len` transactions goes out in.
pub open spec fn chunks_needed(len: nat) -> nat {
    (len + 5) / 6
}

/// Where chunk `k` of a batch of `len` transactions begins.
pub open spec fn chunk_start(len: nat, k: nat) -> nat {
    if 6 * k <= len {
        6 * k
    } else {
        len
    }
}

/// Where chunk `k` of a batch of `len` transactions ends.
pub open spec fn chunk_end(len: nat, k: nat) -> nat {
    if 6 * k + 6 <= len {
        6 * k + 6
    } else {
        len
    }
}

/// Chunk `k` of `batch`. Beyond the last chunk it is empty.
pub open spec fn chunk_of<T>(batch: Seq<T>, k: nat) -> Seq<T> {
    batch.subrange(chunk_start(batch.len(), k) as int, chunk_end(batch.len(), k) as int)
}

/// The first `n` chunks of `batch`, joined in order.
pub open spec fn first_chunks<T>(batch: Seq<T>, n: nat) -> Seq<T>
    decreases n,
{
    if n == 0 {
        Seq::empty()
    } else {
        first_chunks(batch, (n - 1) as nat) + chunk_of(batch, (n - 1) as nat)
    }
}

/// Whether `payloads` are the wire forms of `transactions`, one for one and
/// in the same order.
pub open spec fn encodes(payloads: Seq<Vec<u8>>, transactions: Seq<VersionedTransaction>) -> bool {
    &&& payloads.len() == transactions.len()
    &&& forall|i: int|
        0 <= i < payloads.len() ==> wire_form(transactions[i]) == Some((#[trigger] payloads[i])@)
}

/// Whether the transaction at `index` is the first of `transactions`, from
/// `start` on, that has no wire form.
pub open spec fn first_failure(
    transactions: Seq<VersionedTransaction>,
    start: int,
    index: int,
) -> bool {
    &&& start <= index < transactions.len()
    &&& wire_form(transactions[index]) is None
    &&& forall|j: int| start <= j < index ==> wire_form(#[trigger] transactions[j]) is Some
}

/// The number of chunks that a batch of `len` transactions goes out in.
pub fn count_chunks(len: usize) -> (n: usize)
    ensures
        n == chunks_needed(len as nat),
{
    if len % MAX_PARALLEL_STREAMS == 0 {
        len / MAX_PARALLEL_STREAMS
    } else {
        len / MAX_PARALLEL_STREAMS + 1
    }
}

/// Where chunk `k` of a batch of `len` transactions begins and ends.
pub fn chunk_bounds(len: usize, k: usize) -> (bounds: (usize, usize))
    ensures
        bounds.0 == chunk_start(len as nat, k as nat),
        bounds.1 == chunk_end(len as nat, k as nat),
{
    if k > len / MAX_PARALLEL_STREAMS {
        (len, len)
    } else {
        let start: usize = k * MAX_PARALLEL_STREAMS;
        if len - start >= MAX_PARALLEL_STREAMS {
            (start, start + MAX_PARALLEL_STREAMS)
        } else {
            (start, len)
        }
    }
}

/// Puts the transactions from `start` up to `end` into their wire forms, in
/// order, and stops at the first that has none.
fn serialize_range(transactions: &Vec<VersionedTransaction>, start: usize, end: usize) -> (encoded:
    Result<Vec<Vec<u8>>, SerializeError>)
    requires
        start <= end <= transactions@.len(),
    ensures
        match encoded {
            Ok(payloads) => encodes(payloads@, transactions@.subrange(start as int, end as int)),
            Err(error) => error.index < end && first_failure(
                transactions@,
                start as int,
                error.index as int,
            ),
        },
{
    let mut payloads: Vec<Vec<u8>> = Vec::new();
    let mut at: usize = start;
    while at < end
        invariant
            start <= at <= end <= transactions@.len(),
            encodes(payloads@, transactions@.subrange(start as int, at as int)),
        decreases end - at,
    {
        match encode(&transactions[at]) {
            Ok(bytes) => {
                payloads.push(bytes);
            },
            Err(_) => {
                assert forall|j: int| start <= j < at implies wire_form(
                    #[trigger] transactions@[j],
                ) is Some by {
                    let done = transactions@.subrange(start as int, at as int);
                    assert(wire_form(done[j - start]) == Some(payloads@[j - start]@));
                }
                return Err(SerializeError { index: at });
            },
        }
        at = at + 1;
    }
    Ok(payloads)
}

/// Puts every transaction into its wire form, in order.
///
/// Succeeds exactly when every transaction has a wire form. Otherwise the
/// error holds the place of the first that has none.
pub fn serialize_to_vecvec(transactions: &Vec<VersionedTransaction>) -> (encoded: Result<
    Vec<Vec<u8>>,
    SerializeError,
>)
    ensures
        match encoded {
            Ok(payloads) => encodes(payloads@, transactions@),
            Err(error) => first_failure(transactions@, 0, error.index as int),
        },
{
    let encoded = serialize_range(transactions, 0, transactions.len());
    assert(transactions@.subrange(0, transactions@.len() as int) == transactions@);
    encoded
}

/// Puts the transactions of chunk `k` into their wire forms, in order: the
/// payloads to send side by side before chunk `k + 1` is begun.
///
/// Succeeds exactly when every transaction of the chunk has a wire form.
/// Otherwise the error holds the place, in the whole batch, of the first of
/// the chunk that has none.
pub fn serialize_chunk(transactions: &Vec<VersionedTransaction>, k: usize) -> (encoded: Result<
    Vec<Vec<u8>>,
    SerializeError,
>)
    ensures
        match encoded {
            Ok(payloads) => encodes(payloads@, chunk_of(transactions@, k as nat)),
            Err(error) => error.index < chunk_end(transactions@.len(), k as nat) && first_failure(
                transactions@,
                chunk_start(transactions@.len(), k as nat) as int,
                error.index as int,
            ),
        },
{
    let (start, end): (usize, usize) = chunk_bounds(transactions.len(), k);
    serialize_range(transactions, start, end)
}

/// How one send ended. The pipeline goes on the same way whichever it was.
#[derive(Clone, Copy, Debug, PartialEq, Eq, Structural)]
pub enum SendResult {
    /// The payload was written and its stream closed.
    Sent,
    /// The stream could not be opened, written or closed.
    Failed,
}

/// A pipeline as a value: the batch, how many of its chunks have been handed
/// out, and whether the sends of the last one are still awaited.
pub struct PipelineState {
    pub batch: Seq<VersionedTransaction>,
    pub handed_out: nat,
    pub awaiting: bool,
}

/// The sending of one batch, chunk after chunk.
pub struct SendPipeline {
    batch: Vec<VersionedTransaction>,
    handed_out: usize,
    awaiting: bool,
}

impl View for SendPipeline {
    type V = PipelineState;

    closed spec fn view(&self) -> PipelineState {
        PipelineState {
            batch: self.batch@,
            handed_out: self.handed_out as nat,
            awaiting: self.awaiting,
        }
    }
}

impl SendPipeline {
    /// A pipeline for `batch`, with no chunk handed out yet.
    pub fn new(batch: Vec<VersionedTransaction>) -> (pipeline: Self)
        ensures
            pipeline@ == (PipelineState { batch: batch@, handed_out: 0, awaiting: false }),
    {
        SendPipeline { batch, handed_out: 0, awaiting: false }
    }

    /// Hands out the payloads of the next chunk, to be sent side by side, or
    /// `None` when every chunk has been handed out. The sends of a chunk are
    /// to be awaited, and `chunk_done` called, before the next is asked for.
    ///
    /// Where a transaction of the chunk has no wire form nothing is handed
    /// out and the pipeline stays as it was.
    pub fn next_chunk(&mut self) -> (next: Result<Option<Vec<Vec<u8>>>, SerializeError>)
        requires
            !old(self)@.awaiting,
        ensures
            match next {
                Ok(Some(payloads)) => {
                    &&& old(self)@.handed_out < chunks_needed(old(self)@.batch.len())
                    &&& encodes(payloads@, chunk_of(old(self)@.batch, old(self)@.handed_out))
                    &&& final(self)@ == (PipelineState {
                        handed_out: old(self)@.handed_out + 1,
                        awaiting: true,
                        ..old(self)@
                    })
                },
                Ok(None) => {
                    &&& old(self)@.handed_out >= chunks_needed(old(self)@.batch.len())
                    &&& final(self)@ == old(self)@
                },
                Err(error) => {
                    &&& old(self)@.handed_out < chunks_needed(old(self)@.batch.len())
                    &&& error.index < chunk_end(old(self)@.batch.len(), old(self)@.handed_out)
                    &&& first_failure(
                        old(self)@.batch,
                        chunk_start(old(self)@.batch.len(), old(self)@.handed_out) as int,
                        error.index as int,
                    )
                    &&& final(self)@ == old(self)@
                },
            },
    {
        if self.handed_out >= count_chunks(self.batch.len()) {
            return Ok(None);
        }
        match serialize_chunk(&self.batch, self.handed_out) {
            Ok(payloads) => {
                self.handed_out = self.handed_out + 1;
                self.awaiting = true;
                Ok(Some(payloads))
            },
            Err(error) => Err(error),
        }
    }

    /// Takes note that the sends of the chunk last handed out have all ended.
    /// How each ended changes nothing: a send that failed is neither
    /// repeated nor reported, and the chunks after it still go out.
    pub fn chunk_done(&mut self, results: &Vec<SendResult>)
        requires
            old(self)@.awaiting,
        ensures
            final(self)@ == (PipelineState { awaiting: false, ..old(self)@ }),
    {
        self.awaiting = false;
    }

    /// Whether the sends of a chunk are still awaited.
    pub fn awaiting(&self) -> (awaiting: bool)
        ensures
            awaiting == self@.awaiting,
    {
        self.awaiting
    }

    /// Chunks handed out so far.
    pub fn handed_out(&self) -> (n: usize)
        ensures
            n == self@.handed_out,
    {
        self.handed_out
    }
}

/// The first `n` chunks of a batch are its first `6 * n` transactions, or all
/// of them where it has fewer.
pub proof fn lemma_first_chunks_are_a_prefix<T>(batch: Seq<T>, n: nat)
    ensures
        first_chunks(batch, n) == batch.take(chunk_start(batch.len(), n) as int),
    decreases n,
{
    if n > 0 {
        let before: nat = (n - 1) as nat;
        lemma_first_chunks_are_a_prefix(batch, before);
        assert(chunk_end(batch.len(), before) == chunk_start(batch.len(), n));
        assert(batch.take(chunk_start(batch.len(), before) as int) + chunk_of(batch, before)
            == batch.take(chunk_start(batch.len(), n) as int));
    } else {
        assert(batch.take(0) == Seq::<T>::empty());
    }
}

/// Chunking neither loses, repeats nor reorders: the chunks of a batch,
/// joined in order, are the batch. Every chunk but the last is full, the
/// last holds between one and six transactions, and there is nothing beyond
/// it.
pub proof fn lemma_chunks_partition_batch<T>(batch: Seq<T>)
    ensures
        first_chunks(batch, chunks_needed(batch.len())) == batch,
        forall|k: nat|
            k + 1 < chunks_needed(batch.len()) ==> (#[trigger] chunk_of(batch, k)).len()
                == MAX_PARALLEL_STREAMS,
        forall|k: nat|
            k + 1 == chunks_needed(batch.len()) ==> 1 <= (#[trigger] chunk_of(batch, k)).len()
                <= MAX_PARALLEL_STREAMS,
        forall|k: nat|
            k >= chunks_needed(batch.len()) ==> (#[trigger] chunk_of(batch, k)).len() == 0,
{
    lemma_first_chunks_are_a_prefix(batch, chunks_needed(batch.len()));
    assert(batch.take(batch.len() as int) == batch);
}

} // verus!
