//! Scoring of model output: a tagging capability and an accuracy
//! accumulator that resolves label identifiers back to strings through the
//! symbol table and counts per-token agreement.

use vstd::prelude::*;

use crate::error::ToponnError;
use crate::input::Token;
use crate::numberer::Numberer;

verus! {

/// A tagging capability: any component that turns a sentence into a
/// sequence of topological-field label identifiers, one per token, can be
/// scored against gold labels.
pub trait Tag {
    fn tag(&self, sentence: &Vec<Token>) -> Result<Vec<usize>, ToponnError>;
}

/// Are both identifiers at position `i` within a table of `len` labels?
pub open spec fn pair_ok(gold: Seq<usize>, pred: Seq<usize>, len: nat, i: int) -> bool {
    gold[i] < len && pred[i] < len
}

/// Is `i` the position of the first identifier pair with a member outside
/// the table?
pub open spec fn is_first_bad_pair(
    gold: Seq<usize>,
    pred: Seq<usize>,
    len: nat,
    i: int,
) -> bool {
    &&& 0 <= i < gold.len()
    &&& !pair_ok(gold, pred, len, i)
    &&& forall|j: int| 0 <= j < i ==> pair_ok(gold, pred, len, j)
}

/// How many of the first `n` positions agree.
pub open spec fn count_matches_upto(gold: Seq<usize>, pred: Seq<usize>, n: int) -> int
    decreases n,
{
    if n <= 0 {
        0
    } else {
        count_matches_upto(gold, pred, n - 1) + if gold[n - 1] == pred[n - 1] {
            1int
        } else {
            0int
        }
    }
}

/// How many positions of the two equally long sequences agree.
pub open spec fn count_matches(gold: Seq<usize>, pred: Seq<usize>) -> int {
    count_matches_upto(gold, pred, gold.len() as int)
}

/// Is every identifier within a table of `len` labels?
pub open spec fn ids_in_range(ids: Seq<usize>, len: nat) -> bool {
    forall|i: int| 0 <= i < ids.len() ==> ids[i] < len
}

/// Running accuracy counts across a corpus: how many predicted labels were
/// scored at all, and how many of them agreed with the gold label. Both
/// counts only ever grow; the accuracy ratio is `correct / total`, which a
/// caller derives once `total` is nonzero.
pub struct ModelPerformance {
    pub correct: u64,
    pub total: u64,
}

impl ModelPerformance {
    /// No more labels agree than were scored.
    pub open spec fn wf(&self) -> bool {
        self.correct <= self.total
    }

    /// An accumulator with nothing scored yet.
    pub fn new() -> (r: ModelPerformance)
        ensures
            r.correct == 0,
            r.total == 0,
            r.wf(),
    {
        ModelPerformance { correct: 0, total: 0 }
    }

    /// How many labels agreed with the gold label so far.
    pub fn correct(&self) -> (r: u64)
        ensures
            r == self.correct,
    {
        self.correct
    }

    /// How many labels were scored so far.
    pub fn total(&self) -> (r: u64)
        ensures
            r == self.total,
    {
        self.total
    }

    /// Score one sentence: resolve the gold and predicted identifiers to
    /// label strings through the table and count per-token agreement.
    ///
    /// Succeeds exactly when every identifier of both sequences is within
    /// the table; the first identifier outside it — at each position the
    /// gold one is checked before the predicted one — is reported in an
    /// `InconsistentVocabulary` error, and on an error the counts do not
    /// change at all.
    pub fn add_sentence(
        &mut self,
        gold: &Vec<usize>,
        predicted: &Vec<usize>,
        numberer: &Numberer,
    ) -> (r: Result<(), ToponnError>)
        requires
            old(self).wf(),
            gold@.len() == predicted@.len(),
            old(self).total + gold@.len() <= u64::MAX,
            numberer.wf(),
        ensures
            final(self).wf(),
            (r is Ok) <==> (ids_in_range(gold@, numberer@.len()) && ids_in_range(
                predicted@,
                numberer@.len(),
            )),
            r is Ok ==> final(self).total == old(self).total + gold@.len()
                && final(self).correct == old(self).correct + count_matches(gold@, predicted@),
            r is Err ==> *final(self) == *old(self),
            forall|i: int|
                is_first_bad_pair(gold@, predicted@, numberer@.len(), i) ==> (r matches Err(e)
                    && e == (ToponnError::InconsistentVocabulary {
                    id: if gold@[i] >= numberer@.len() {
                        gold@[i]
                    } else {
                        predicted@[i]
                    },
                })),
    {
        let n = gold.len();
        let mut agreed: u64 = 0;
        for i in 0..n
            invariant
                n == gold@.len(),
                n == predicted@.len(),
                numberer.wf(),
                self == old(self),
                old(self).wf(),
                agreed == count_matches_upto(gold@, predicted@, i as int),
                agreed <= i,
                forall|j: int| 0 <= j < i ==> pair_ok(gold@, predicted@, numberer@.len(), j),
        {
            let g = gold[i];
            let p = predicted[i];
            let gold_label = match numberer.value(g) {
                Some(l) => l,
                None => {
                    proof {
                        assert(!pair_ok(gold@, predicted@, numberer@.len(), i as int));
                        assert forall|k: int|
                            is_first_bad_pair(gold@, predicted@, numberer@.len(), k) implies k
                            == i as int by {
                            if k < i as int {
                                assert(pair_ok(gold@, predicted@, numberer@.len(), k));
                            } else if k > i as int {
                                assert(pair_ok(gold@, predicted@, numberer@.len(), i as int));
                            }
                        }
                        assert(!ids_in_range(gold@, numberer@.len()));
                    }
                    return Err(ToponnError::InconsistentVocabulary { id: g });
                },
            };
            let pred_label = match numberer.value(p) {
                Some(l) => l,
                None => {
                    proof {
                        assert(!pair_ok(gold@, predicted@, numberer@.len(), i as int));
                        assert forall|k: int|
                            is_first_bad_pair(gold@, predicted@, numberer@.len(), k) implies k
                            == i as int by {
                            if k < i as int {
                                assert(pair_ok(gold@, predicted@, numberer@.len(), k));
                            } else if k > i as int {
                                assert(pair_ok(gold@, predicted@, numberer@.len(), i as int));
                            }
                        }
                        assert(!ids_in_range(predicted@, numberer@.len()));
                    }
                    return Err(ToponnError::InconsistentVocabulary { id: p });
                },
            };
            // Per-token string equality; by the bijection this agrees with
            // identifier equality, which the contract is stated over.
            if *gold_label == *pred_label {
                proof {
                    assert(numberer@[g as int] == numberer@[p as int]);
                    if g != p {
                        assert(numberer@[g as int] != numberer@[p as int]);
                    }
                    assert(gold@[i as int] == predicted@[i as int]);
                }
                agreed = agreed + 1;
            } else {
                proof {
                    if gold@[i as int] == predicted@[i as int] {
                        assert(gold_label@ == numberer@[g as int]);
                        assert(pred_label@ == numberer@[p as int]);
                        assert(gold_label@ == pred_label@);
                    }
                    assert(gold@[i as int] != predicted@[i as int]);
                }
            }
        }
        proof {
            assert forall|i: int| 0 <= i < gold@.len() implies gold@[i]
                < numberer@.len() by {
                assert(pair_ok(gold@, predicted@, numberer@.len(), i));
            }
            assert forall|i: int| 0 <= i < predicted@.len() implies predicted@[i]
                < numberer@.len() by {
                assert(pair_ok(gold@, predicted@, numberer@.len(), i));
            }
        }
        self.correct = self.correct + agreed;
        self.total = self.total + n as u64;
        Ok(())
    }
}

} // verus!
