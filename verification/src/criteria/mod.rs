//! The classifier protocol: a classifier consumes the leading bytes of a
//! file chunk by chunk and finally decides whether the file is a candidate.

use vstd::prelude::*;
use crate::error::ProcError;

mod deflate;
mod text;

pub use self::deflate::DeflatableFiles;
pub use self::deflate::deflate_output_len;
pub use self::deflate::deflate_selection;
pub use self::deflate::fed_extended;
pub use self::deflate::lemma_empty_deflate_ignored;
pub use self::deflate::stream_fed;
pub use self::deflate::stream_out_count;
pub use self::text::TextFiles;
pub use self::text::all_text;
pub use self::text::is_text;
pub use self::text::is_text_byte;
pub use self::text::lemma_all_text_concat;
pub use self::text::lemma_all_text_push;
pub use self::text::lemma_done_stays_done;
pub use self::text::text_selection;

verus! {

/// Whether a classifier can still use more data.
#[derive(Clone, Copy, PartialEq, Eq, Structural, Debug)]
pub enum Consuming {
    /// The classifier is still working, and may consume more data.
    Working,
    /// The classifier has made a determination and does not need more data.
    Done,
}

/// A ratio of byte counts, `num` over `den`: both the configured ceiling for
/// the deflate classifier and the achieved estimate it reports.
#[derive(Clone, Copy, PartialEq, Eq, Structural, Debug)]
pub struct Ratio {
    pub num: u64,
    pub den: u64,
}

impl Ratio {
    /// A meaningful ratio has a positive denominator.
    pub open spec fn valid(self) -> bool {
        self.den > 0
    }

    /// `self <= other`, compared exactly by cross-multiplication.
    pub open spec fn spec_le(self, other: Ratio) -> bool {
        self.num * other.den <= other.num * self.den
    }

    /// Compares two ratios without ever dividing, so a zero denominator
    /// cannot crash the comparison.
    pub fn le(self, other: Ratio) -> (r: bool)
        ensures
            r == self.spec_le(other),
    {
        proof {
            lemma_u64_product_fits(self.num, other.den);
            lemma_u64_product_fits(other.num, self.den);
        }
        let lhs: u128 = (self.num as u128) * (other.den as u128);
        let rhs: u128 = (other.num as u128) * (self.den as u128);
        lhs <= rhs
    }
}

/// The product of two 64-bit values always fits in 128 bits.
proof fn lemma_u64_product_fits(a: u64, b: u64)
    ensures
        a * b <= u128::MAX,
{
    assert(a * b <= (u64::MAX as int) * (u64::MAX as int)) by (nonlinear_arith)
        requires
            0 <= a <= u64::MAX,
            0 <= b <= u64::MAX,
    ;
}

/// The final decision a classifier reaches for one file.
#[derive(Clone, Copy, PartialEq, Debug)]
pub enum Selection {
    /// The file fits the selection criteria; the deflate classifier also
    /// reports the compression ratio it achieved.
    Select(Option<Ratio>),
    /// The file does not fit the selection criteria.
    Ignore,
}

/// The capability every classifier variant implements. A classifier is
/// reset before each file, fed the file's leading bytes in order, and
/// finally asked for its decision.
///
/// The specification model: `seen()` is the sequence of bytes fed since the
/// last reset, `ready()` says the classifier stands between a reset and a
/// final decision and so can take bytes, `done_now()` says whether the
/// decision is already fixed, and `decision()` is the decision `finalize`
/// reaches from the current state. Every operation is owed success: the
/// `Result` in the signatures keeps a failure of the underlying machinery
/// visible, but each implementation proves it returns the success case.
pub trait Criteria: Sized {
    /// Internal consistency of the classifier state.
    spec fn wf(&self) -> bool;

    /// The bytes fed to this classifier since it was last initialized.
    spec fn seen(&self) -> Seq<u8>;

    /// Whether the classifier stands between a reset and a final decision,
    /// ready to take bytes.
    spec fn ready(&self) -> bool;

    /// Whether the eventual decision is already fixed, so further bytes
    /// are pointless.
    spec fn done_now(&self) -> bool;

    /// The decision `finalize` reaches from the current state.
    spec fn decision(&self) -> Selection;

    /// Resets the classifier to the start-of-stream condition.
    fn initialize(&mut self)
        requires
            old(self).wf(),
        ensures
            final(self).wf(),
            final(self).ready(),
            final(self).seen() == Seq::<u8>::empty(),
            !final(self).done_now(),
    ;

    /// Feeds the next in-order slice of the file's leading bytes and says
    /// whether more data is useful. `Done` promises that the decision is
    /// fixed; the driver must not deliver further chunks.
    fn process(&mut self, data: &[u8]) -> (r: Result<Consuming, ProcError>)
        requires
            old(self).wf(),
            old(self).ready(),
            old(self).seen().len() + data@.len() <= u64::MAX / 4,
        ensures
            final(self).wf(),
            final(self).ready(),
            r is Ok,
            r matches Ok(c) ==> final(self).seen() == old(self).seen() + data@ && (c
                == Consuming::Done <==> final(self).done_now()),
    ;

    /// Produces the final decision. Callable even if no byte was ever fed.
    fn finalize(&mut self) -> (r: Result<Selection, ProcError>)
        requires
            old(self).wf(),
            old(self).ready(),
        ensures
            final(self).wf(),
            final(self).seen() == old(self).seen(),
            r == Ok::<Selection, ProcError>(old(self).decision()),
    ;
}

/// The two concrete classifiers behind one dispatch point. The file
/// processor owns one of these and swaps or resets it per file.
pub enum Classifier {
    Text(TextFiles),
    Deflate(DeflatableFiles),
}

impl Classifier {
    /// Internal consistency of whichever classifier is active.
    pub open spec fn wf(&self) -> bool {
        match self {
            Classifier::Text(t) => t.wf(),
            Classifier::Deflate(d) => d.wf(),
        }
    }

    /// The bytes fed since the last initialization.
    pub open spec fn seen(&self) -> Seq<u8> {
        match self {
            Classifier::Text(t) => t.seen(),
            Classifier::Deflate(d) => d.seen(),
        }
    }

    /// Whether the text classifier is the active one.
    pub open spec fn is_text_kind(&self) -> bool {
        self is Text
    }

    /// The configured ratio ceiling; meaningful for the deflate classifier.
    pub open spec fn ceiling(&self) -> Ratio {
        match self {
            Classifier::Text(_) => (Ratio { num: 0, den: 1 }),
            Classifier::Deflate(d) => d.ceiling(),
        }
    }

    /// Whether the eventual decision is already fixed.
    pub open spec fn done_now(&self) -> bool {
        match self {
            Classifier::Text(t) => t.done_now(),
            Classifier::Deflate(d) => d.done_now(),
        }
    }

    /// Whether the active classifier stands between a reset and a final
    /// decision, ready to take bytes.
    pub open spec fn ready(&self) -> bool {
        match self {
            Classifier::Text(t) => t.ready(),
            Classifier::Deflate(d) => d.ready(),
        }
    }

    /// The decision `finalize` reaches from the current state.
    pub open spec fn decision(&self) -> Selection {
        match self {
            Classifier::Text(t) => t.decision(),
            Classifier::Deflate(d) => d.decision(),
        }
    }

    /// The output count of the deflate stream; meaningful for the deflate
    /// classifier.
    pub open spec fn out_count(&self) -> u64 {
        match self {
            Classifier::Text(_) => 0,
            Classifier::Deflate(d) => self::deflate::stream_out_count(d.deflate),
        }
    }

    /// Resets the active classifier for the next file: afterwards nothing
    /// of the previous file remains, not even the stream's output count.
    pub fn initialize(&mut self)
        requires
            old(self).wf(),
        ensures
            final(self).wf(),
            final(self).ready(),
            final(self).seen() == Seq::<u8>::empty(),
            final(self).out_count() == 0,
            !final(self).done_now(),
            final(self).is_text_kind() == old(self).is_text_kind(),
            final(self).ceiling() == old(self).ceiling(),
    {
        match self {
            Classifier::Text(t) => t.initialize(),
            Classifier::Deflate(d) => d.initialize(),
        }
    }

    /// Feeds the next chunk to the active classifier.
    pub fn process(&mut self, data: &[u8]) -> (r: Result<Consuming, ProcError>)
        requires
            old(self).wf(),
            old(self).ready(),
            old(self).seen().len() + data@.len() <= u64::MAX / 4,
        ensures
            final(self).wf(),
            final(self).ready(),
            final(self).is_text_kind() == old(self).is_text_kind(),
            final(self).ceiling() == old(self).ceiling(),
            r is Ok,
            r matches Ok(c) ==> final(self).seen() == old(self).seen() + data@ && (c
                == Consuming::Done <==> final(self).done_now()),
    {
        match self {
            Classifier::Text(t) => t.process(data),
            Classifier::Deflate(d) => d.process(data),
        }
    }

    /// Asks the active classifier for its final decision.
    pub fn finalize(&mut self) -> (r: Result<Selection, ProcError>)
        requires
            old(self).wf(),
            old(self).ready(),
        ensures
            final(self).wf(),
            final(self).seen() == old(self).seen(),
            final(self).is_text_kind() == old(self).is_text_kind(),
            final(self).ceiling() == old(self).ceiling(),
            r == Ok::<Selection, ProcError>(old(self).decision()),
    {
        match self {
            Classifier::Text(t) => t.finalize(),
            Classifier::Deflate(d) => d.finalize(),
        }
    }
}

} // verus!
