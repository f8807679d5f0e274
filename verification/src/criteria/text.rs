//! The text classifier: selects a file whose inspected window consists
//! solely of printable ASCII and common whitespace bytes.

use vstd::prelude::*;
use crate::criteria::{Consuming, Criteria, Selection};
use crate::error::ProcError;

verus! {

/// A byte that plain text may contain: printable ASCII (0x20 through 0x7e)
/// or one of the whitespace and control bytes 0x09 through 0x0d.
pub open spec fn is_text_byte(byte: u8) -> bool {
    (0x20 <= byte <= 0x7e) || (0x09 <= byte <= 0x0d)
}

/// Every byte of the sequence may appear in plain text.
pub open spec fn all_text(s: Seq<u8>) -> bool {
    forall|i: int| 0 <= i < s.len() ==> is_text_byte(s[i])
}

/// The decision the text classifier reaches after inspecting `s`.
pub open spec fn text_selection(s: Seq<u8>) -> Selection {
    if all_text(s) {
        Selection::Select(None)
    } else {
        Selection::Ignore
    }
}

/// A concatenation is all text exactly when both halves are.
pub proof fn lemma_all_text_concat(a: Seq<u8>, b: Seq<u8>)
    ensures
        all_text(a + b) == (all_text(a) && all_text(b)),
{
    if all_text(a + b) {
        assert forall|i: int| 0 <= i < a.len() implies is_text_byte(a[i]) by {
            assert((a + b)[i] == a[i]);
        }
        assert forall|i: int| 0 <= i < b.len() implies is_text_byte(b[i]) by {
            assert((a + b)[a.len() + i] == b[i]);
        }
    }
    if all_text(a) && all_text(b) {
        assert forall|i: int| 0 <= i < (a + b).len() implies is_text_byte((a + b)[i]) by {
            if i < a.len() {
                assert((a + b)[i] == a[i]);
            } else {
                assert((a + b)[i] == b[i - a.len()]);
            }
        }
    }
}

/// Appending one byte keeps a sequence all text exactly when the byte
/// itself is a text byte.
pub proof fn lemma_all_text_push(s: Seq<u8>, b: u8)
    ensures
        all_text(s.push(b)) == (all_text(s) && is_text_byte(b)),
{
    assert(s.push(b)[s.len() as int] == b);
    if all_text(s) && is_text_byte(b) {
        assert forall|i: int| 0 <= i < s.push(b).len() implies is_text_byte(s.push(b)[i]) by {
            if i < s.len() {
                assert(s.push(b)[i] == s[i]);
            }
        }
    }
    if all_text(s.push(b)) {
        assert forall|i: int| 0 <= i < s.len() implies is_text_byte(s[i]) by {
            assert(s.push(b)[i] == s[i]);
        }
    }
}

/// Once one disqualifying byte has been seen, no amount of further data
/// can turn the decision around: `Done` is a safe promise.
pub proof fn lemma_done_stays_done(seen: Seq<u8>, more: Seq<u8>)
    requires
        !all_text(seen),
    ensures
        !all_text(seen + more),
        text_selection(seen + more) == text_selection(seen),
{
    lemma_all_text_concat(seen, more);
}

/// Tells whether a byte may appear in a plain-text file.
pub fn is_text(byte: u8) -> (r: bool)
    ensures
        r == is_text_byte(byte),
{
    (0x20 <= byte && byte <= 0x7e) || (0x09 <= byte && byte <= 0x0d)
}

/// Classifier that selects files whose inspected window is plain text.
pub struct TextFiles {
    pub is_text: bool,
    pub seen: Ghost<Seq<u8>>,
}

impl TextFiles {
    /// A fresh text classifier, ready for its first file.
    pub fn new() -> (r: TextFiles)
        ensures
            r.wf(),
            r.seen() == Seq::<u8>::empty(),
    {
        TextFiles { is_text: true, seen: Ghost(Seq::empty()) }
    }
}

impl Criteria for TextFiles {
    open spec fn wf(&self) -> bool {
        &&& self.is_text == all_text(self.seen@)
        &&& self.seen@.len() <= u64::MAX
    }

    open spec fn seen(&self) -> Seq<u8> {
        self.seen@
    }

    open spec fn ready(&self) -> bool {
        true
    }

    open spec fn done_now(&self) -> bool {
        !all_text(self.seen@)
    }

    open spec fn decision(&self) -> Selection {
        text_selection(self.seen@)
    }

    fn initialize(&mut self) {
        self.is_text = true;
        self.seen = Ghost(Seq::empty());
    }

    fn process(&mut self, data: &[u8]) -> (r: Result<Consuming, ProcError>) {
        let mut ok: bool = true;
        let mut i: usize = 0;
        while i < data.len()
            invariant
                0 <= i <= data@.len(),
                ok == all_text(data@.take(i as int)),
            decreases data@.len() - i,
        {
            if !is_text(data[i]) {
                ok = false;
            }
            proof {
                assert(data@.take(i + 1) =~= data@.take(i as int).push(data@[i as int]));
                lemma_all_text_push(data@.take(i as int), data@[i as int]);
            }
            i = i + 1;
        }
        proof {
            assert(data@.take(data@.len() as int) =~= data@);
            lemma_all_text_concat(self.seen@, data@);
        }
        self.is_text = self.is_text && ok;
        self.seen = Ghost(self.seen@ + data@);
        if self.is_text {
            Ok(Consuming::Working)
        } else {
            Ok(Consuming::Done)
        }
    }

    fn finalize(&mut self) -> (r: Result<Selection, ProcError>) {
        if self.is_text {
            Ok(Selection::Select(None))
        } else {
            Ok(Selection::Ignore)
        }
    }
}

} // verus!
