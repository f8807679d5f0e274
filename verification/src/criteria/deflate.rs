//! The deflate-ratio classifier: feeds the file's leading bytes through a
//! raw deflate stream and selects the file when the achieved compression
//! ratio stays under a configured ceiling.

use vstd::prelude::*;
use crate::criteria::{Consuming, Criteria, Ratio, Selection};
use crate::error::ProcError;

verus! {

/// Declares flate2's raw in-memory compression stream so that it can live
/// in a field and pass through signatures.
#[verifier::external_type_specification]
#[verifier::external_body]
pub struct ExCompress(flate2::Compress);

/// The bytes a compression stream has consumed since it was created or last
/// reset, in order: the stream's input contents. flate2 counts their number
/// in `total_in`.
pub uninterp spec fn stream_fed(c: flate2::Compress) -> Seq<u8>;

/// The number of output bytes the stream has produced so far, as flate2's
/// `total_out` reports it.
pub uninterp spec fn stream_out_count(c: flate2::Compress) -> u64;

/// The stage a compression stream is in: 0 while it takes input (fresh,
/// reset, or fed only by ordinary writes), 1 once finishing was requested
/// and the tail is still draining, 2 once the stream has ended. miniz
/// keeps this as the previous return status together with the last flush
/// kind; a parameter error can arise only by leaving this discipline.
pub uninterp spec fn stream_mode(c: flate2::Compress) -> int;

/// The size, in bytes, of the complete deflate output for a given input:
/// at a fixed level with no intermediate flushes, the compressor's
/// decisions depend only on the accumulated input bytes, never on how they
/// were split across calls or how large the output slices were, so the
/// finished stream's total output is a function of the bytes fed alone.
pub uninterp spec fn deflate_output_len(input: Seq<u8>) -> u64;

/// Relies on flate2's `Compress::new`: a fresh raw deflate stream (default
/// level, no zlib header), both running totals at zero, taking input.
#[verifier::external_body]
fn new_compressor() -> (c: flate2::Compress)
    ensures
        stream_fed(c) == Seq::<u8>::empty(),
        stream_out_count(c) == 0,
        stream_mode(c) == 0,
{
    flate2::Compress::new(flate2::Compression::default(), false)
}

/// Relies on flate2's `Compress::reset`: equivalent to dropping the stream
/// and creating a new one, with both running totals back at zero.
#[verifier::external_body]
fn reset_compressor(c: &mut flate2::Compress)
    ensures
        stream_fed(*final(c)) == Seq::<u8>::empty(),
        stream_out_count(*final(c)) == 0,
        stream_mode(*final(c)) == 0,
{
    c.reset();
}

/// Relies on flate2's `Compress::total_in`: the number of input bytes the
/// stream has consumed so far. The count is a 64-bit register, so it is
/// only read of streams that were fed few enough bytes for it to hold.
#[verifier::external_body]
fn stream_total_in(c: &flate2::Compress) -> (r: u64)
    requires
        stream_fed(*c).len() <= u64::MAX,
    ensures
        r == stream_fed(*c).len(),
{
    c.total_in()
}

/// Relies on flate2's `Compress::total_out`: the number of output bytes the
/// stream has produced so far.
#[verifier::external_body]
fn stream_total_out(c: &flate2::Compress) -> (r: u64)
    ensures
        r == stream_out_count(*c),
{
    c.total_out()
}

/// Holds when `post` is `pre` extended with some prefix of `input`: the
/// shape in which a compression stream consumes its input.
pub open spec fn fed_extended(pre: Seq<u8>, post: Seq<u8>, input: Seq<u8>) -> bool {
    exists|k: int| 0 <= k <= input.len() && post == pre + input.subrange(0, k)
}

/// Relies on flate2's `Compress::compress` with `FlushCompress::None` on a
/// stream that is taking input. Its write loop returns only once it has
/// consumed the whole input or filled the output slice completely, and it
/// keeps taking input afterwards. Neither error return can arise here: the
/// parameter error needs a previous error or an ordinary write after a
/// finish, which the stream's stage rules out, and the put-buffer failure
/// needs the function-callback output path, not the slice flate2 hands in.
/// The output so far never exceeds twice the input and change: the worst
/// case stores blocks at five bytes of framing per 64 KiB of data. The
/// input bound below keeps both 64-bit totals away from their ends even at
/// that worst case.
#[verifier::external_body]
fn deflate_more(c: &mut flate2::Compress, input: &[u8], scratch: &mut Vec<u8>) -> (r: Result<
    (),
    flate2::CompressError,
>)
    requires
        stream_mode(*old(c)) == 0,
        stream_fed(*old(c)).len() + input@.len() <= u64::MAX / 4,
        old(scratch)@.len() > 0,
    ensures
        r is Ok,
        stream_mode(*final(c)) == 0,
        fed_extended(stream_fed(*old(c)), stream_fed(*final(c)), input@),
        stream_fed(*final(c)) == stream_fed(*old(c)) + input@ || stream_out_count(*final(c))
            == stream_out_count(*old(c)) + old(scratch)@.len(),
        stream_out_count(*final(c)) >= stream_out_count(*old(c)),
        stream_out_count(*final(c)) <= 2 * stream_fed(*final(c)).len() + 1024,
        final(scratch)@.len() == old(scratch)@.len(),
{
    match c.compress(input, scratch.as_mut_slice(), flate2::FlushCompress::None) {
        Ok(_) => Ok(()),
        Err(e) => Err(e),
    }
}

/// Relies on flate2's `Compress::compress` with `FlushCompress::Finish` on
/// an empty input, from a stream that has not ended: it consumes nothing
/// and returns either having ended the stream or having filled the whole
/// output slice with more tail to drain. A finish may follow a finish, so
/// the parameter error cannot arise, and the put-buffer failure cannot
/// reach the slice output path; hence the call succeeds. Once the stream
/// ends, its total output is `deflate_output_len` of the bytes it
/// consumed.
#[verifier::external_body]
fn deflate_finish(c: &mut flate2::Compress, scratch: &mut Vec<u8>) -> (r: Result<
    bool,
    flate2::CompressError,
>)
    requires
        stream_mode(*old(c)) == 0 || stream_mode(*old(c)) == 1,
        stream_fed(*old(c)).len() <= u64::MAX / 4,
        old(scratch)@.len() > 0,
    ensures
        r is Ok,
        stream_fed(*final(c)) == stream_fed(*old(c)),
        stream_out_count(*final(c)) >= stream_out_count(*old(c)),
        stream_out_count(*final(c)) <= 2 * stream_fed(*final(c)).len() + 1024,
        r matches Ok(ended) ==> {
            &&& (ended ==> stream_mode(*final(c)) == 2 && stream_out_count(*final(c))
                == deflate_output_len(stream_fed(*old(c))))
            &&& (!ended ==> stream_mode(*final(c)) == 1 && stream_out_count(*final(c))
                == stream_out_count(*old(c)) + old(scratch)@.len())
        },
        final(scratch)@.len() == old(scratch)@.len(),
{
    match c.compress(&[], scratch.as_mut_slice(), flate2::FlushCompress::Finish) {
        Ok(flate2::Status::StreamEnd) => Ok(true),
        Ok(flate2::Status::Ok) => Ok(false),
        Ok(flate2::Status::BufError) => Ok(false),
        Err(e) => Err(e),
    }
}

/// The decision the deflate classifier reaches when the stream consumed
/// `fed` input bytes and produced `out` output bytes: select when at least
/// one byte went in and the achieved ratio `out / fed` does not exceed the
/// ceiling. A file that fed the stream nothing is never selected, so the
/// undefined ratio of an empty file never arises.
pub open spec fn deflate_selection(fed: u64, out: u64, ceiling: Ratio) -> Selection {
    if fed > 0 && (Ratio { num: out, den: fed }).spec_le(ceiling) {
        Selection::Select(Some(Ratio { num: out, den: fed }))
    } else {
        Selection::Ignore
    }
}

/// An empty file is ignored by the deflate criterion whatever the stream
/// produced: no division ever happens, so no division by zero can either.
pub proof fn lemma_empty_deflate_ignored(out: u64, ceiling: Ratio)
    ensures
        deflate_selection(0, out, ceiling) == Selection::Ignore,
{
}

/// The fixed scratch buffer the stream writes its output into; the output
/// itself is discarded, only its count matters.
fn make_scratch() -> (v: Vec<u8>)
    ensures
        v@.len() == 8192,
{
    let mut v: Vec<u8> = Vec::new();
    let mut i: usize = 0;
    while i < 8192
        invariant
            v@.len() == i,
            i <= 8192,
        decreases 8192 - i,
    {
        v.push(0u8);
        i = i + 1;
    }
    v
}

/// Classifier that selects files whose leading window compresses to at
/// most the configured fraction of its size.
pub struct DeflatableFiles {
    pub deflate: flate2::Compress,
    pub buffer: Vec<u8>,
    pub ratio: Ratio,
}

impl DeflatableFiles {
    /// A fresh deflate classifier with the given ratio ceiling.
    pub fn new(ratio: Ratio) -> (r: DeflatableFiles)
        requires
            ratio.valid(),
        ensures
            r.wf(),
            r.ready(),
            r.seen() == Seq::<u8>::empty(),
            r.ceiling() == ratio,
    {
        DeflatableFiles { deflate: new_compressor(), buffer: make_scratch(), ratio }
    }

    /// The configured ceiling on the achieved compression ratio.
    pub open spec fn ceiling(&self) -> Ratio {
        self.ratio
    }
}

impl Criteria for DeflatableFiles {
    open spec fn wf(&self) -> bool {
        &&& self.buffer@.len() == 8192
        &&& self.ratio.valid()
        &&& stream_fed(self.deflate).len() <= u64::MAX / 4
        &&& stream_out_count(self.deflate) <= 2 * stream_fed(self.deflate).len() + 1024
    }

    open spec fn seen(&self) -> Seq<u8> {
        stream_fed(self.deflate)
    }

    open spec fn ready(&self) -> bool {
        stream_mode(self.deflate) == 0
    }

    open spec fn done_now(&self) -> bool {
        false
    }

    open spec fn decision(&self) -> Selection {
        deflate_selection(
            stream_fed(self.deflate).len() as u64,
            deflate_output_len(stream_fed(self.deflate)),
            self.ratio,
        )
    }

    fn initialize(&mut self)
        ensures
            final(self).ceiling() == old(self).ceiling(),
            stream_out_count(final(self).deflate) == 0,
    {
        reset_compressor(&mut self.deflate);
    }

    fn process(&mut self, data: &[u8]) -> (r: Result<Consuming, ProcError>)
        ensures
            final(self).ceiling() == old(self).ceiling(),
            r matches Ok(c) ==> c == Consuming::Working,
    {
        let ghost fed_start = stream_fed(self.deflate);
        let total_start: u64 = stream_total_in(&self.deflate);
        let mut in_processed: usize = 0;
        while in_processed < data.len()
            invariant
                in_processed <= data@.len(),
                total_start == fed_start.len(),
                fed_start == stream_fed(old(self).deflate),
                fed_start.len() + data@.len() <= u64::MAX / 4,
                stream_fed(self.deflate) == fed_start + data@.subrange(0, in_processed as int),
                stream_mode(self.deflate) == 0,
                stream_out_count(self.deflate) <= 2 * stream_fed(self.deflate).len() + 1024,
                self.buffer@.len() == 8192,
                self.ratio == old(self).ratio,
                self.ratio.valid(),
            decreases
                data@.len() - in_processed,
                2 * (fed_start.len() + data@.len()) + 1024 - stream_out_count(self.deflate),
        {
            let ghost fed_before = stream_fed(self.deflate);
            let input: &[u8] = &data[in_processed..data.len()];
            match deflate_more(&mut self.deflate, input, &mut self.buffer) {
                Ok(()) => {}
                // The wrapper's contract excludes this arm; a stream error
                // would still be passed along, never discarded.
                Err(e) => {
                    return Err(ProcError::Compress(e));
                }
            }
            let total_now: u64 = stream_total_in(&self.deflate);
            proof {
                let k = choose|k: int|
                    0 <= k <= input@.len() && stream_fed(self.deflate) == fed_before
                        + input@.subrange(0, k);
                assert(fed_before + input@.subrange(0, k) == fed_start + data@.subrange(
                    0,
                    in_processed + k,
                ));
            }
            let consumed_total: u64 = total_now - total_start;
            in_processed = consumed_total as usize;
        }
        proof {
            assert(data@.subrange(0, data@.len() as int) == data@);
        }
        Ok(Consuming::Working)
    }

    fn finalize(&mut self) -> (r: Result<Selection, ProcError>)
        ensures
            final(self).ceiling() == old(self).ceiling(),
    {
        let mut stream_ended: bool = false;
        while !stream_ended
            invariant
                stream_fed(self.deflate) == stream_fed(old(self).deflate),
                stream_fed(self.deflate).len() <= u64::MAX / 4,
                self.buffer@.len() == 8192,
                self.ratio == old(self).ratio,
                self.ratio.valid(),
                !stream_ended ==> stream_mode(self.deflate) == 0 || stream_mode(self.deflate)
                    == 1,
                stream_ended ==> stream_mode(self.deflate) == 2 && stream_out_count(self.deflate)
                    == deflate_output_len(stream_fed(self.deflate)),
                stream_out_count(self.deflate) <= 2 * stream_fed(self.deflate).len() + 1024,
            decreases
                2 * stream_fed(self.deflate).len() + 1024 - stream_out_count(self.deflate),
                (if stream_ended {
                    0int
                } else {
                    1int
                }),
        {
            match deflate_finish(&mut self.deflate, &mut self.buffer) {
                Ok(true) => {
                    stream_ended = true;
                }
                Ok(false) => {}
                // Excluded by the wrapper's contract, as above.
                Err(e) => {
                    return Err(ProcError::Compress(e));
                }
            }
        }
        let in_total: u64 = stream_total_in(&self.deflate);
        let out_total: u64 = stream_total_out(&self.deflate);
        let achieved = Ratio { num: out_total, den: in_total };
        if in_total > 0 && achieved.le(self.ratio) {
            Ok(Selection::Select(Some(achieved)))
        } else {
            Ok(Selection::Ignore)
        }
    }
}

} // verus!
