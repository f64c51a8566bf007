//! A bidirectional mapping between categorical string labels and dense,
//! 0-based integer identifiers, assigned in first-seen order.

use vstd::prelude::*;

use crate::error::{DeserializationReason, ToponnError};

verus! {

/// Does `tbl` hold `l` at some position?
pub open spec fn table_contains(tbl: Seq<Seq<char>>, l: Seq<char>) -> bool {
    exists|i: int| 0 <= i < tbl.len() && tbl[i] == l
}

/// The position of `l` in `tbl`; meaningful only when `table_contains(tbl, l)`
/// holds, and unique whenever `tbl` has no duplicates.
pub open spec fn table_id_of(tbl: Seq<Seq<char>>, l: Seq<char>) -> int {
    choose|i: int| 0 <= i < tbl.len() && tbl[i] == l
}

/// The table after numbering `l`: unchanged if `l` is known, otherwise
/// extended by `l`, whose identifier becomes the previous length.
pub open spec fn table_number(tbl: Seq<Seq<char>>, l: Seq<char>) -> Seq<Seq<char>> {
    if table_contains(tbl, l) {
        tbl
    } else {
        tbl.push(l)
    }
}

/// The identifier that numbering `l` in `tbl` yields.
pub open spec fn table_number_id(tbl: Seq<Seq<char>>, l: Seq<char>) -> int {
    if table_contains(tbl, l) {
        table_id_of(tbl, l)
    } else {
        tbl.len() as int
    }
}

/// No label occurs at two positions.
pub open spec fn table_distinct(tbl: Seq<Seq<char>>) -> bool {
    forall|i: int, j: int| 0 <= i < j < tbl.len() ==> tbl[i] != tbl[j]
}

/// A table that assigns dense integer identifiers to string labels.
///
/// The identifier of a label is its position in `values`: identifiers are
/// 0-based, contiguous, and handed out in first-seen order. Looking a label
/// up by identifier and an identifier up by label are exact inverses as long
/// as the labels are distinct, which every operation preserves.
#[derive(Debug)]
pub struct Numberer {
    pub values: Vec<String>,
}

impl View for Numberer {
    type V = Seq<Seq<char>>;

    open spec fn view(&self) -> Seq<Seq<char>> {
        self.values.deep_view()
    }
}

impl Numberer {
    /// The bijection invariant: no label is stored twice, so positions and
    /// labels determine each other.
    pub open spec fn wf(&self) -> bool {
        table_distinct(self@)
    }

    /// An empty table.
    pub fn new() -> (r: Numberer)
        ensures
            r@ =~= Seq::<Seq<char>>::empty(),
            r.wf(),
    {
        Numberer { values: Vec::new() }
    }

    /// Build a table that maps each label of `values` to its position.
    /// Fails when two positions hold the same label, since that would break
    /// the bijection.
    pub fn from_labels(values: Vec<String>) -> (r: Result<Numberer, ToponnError>)
        ensures
            table_distinct(values.deep_view()) ==> (r matches Ok(n) && n@ == values.deep_view()),
            !table_distinct(values.deep_view()) ==> (r matches Err(e) && e == (ToponnError::Deserialization {
                reason: DeserializationReason::DuplicateLabel,
            })),
            r matches Ok(n) ==> n.wf(),
    {
        let n = values.len();
        for i in 0..n
            invariant
                n == values.len(),
                forall|p: int, q: int|
                    0 <= p < i && p < q < n ==> values.deep_view()[p] != values.deep_view()[q],
        {
            for j in (i + 1)..n
                invariant
                    n == values.len(),
                    i < n,
                    forall|p: int, q: int|
                        0 <= p < i && p < q < n ==> values.deep_view()[p] != values.deep_view()[q],
                    forall|q: int| i < q < j ==> values.deep_view()[i as int] != values.deep_view()[q],
            {
                if values[i] == values[j] {
                    assert(values.deep_view()[i as int] == values.deep_view()[j as int]);
                    return Err(ToponnError::Deserialization {
                        reason: DeserializationReason::DuplicateLabel,
                    });
                }
            }
        }
        Ok(Numberer { values })
    }

    /// How many labels the table holds; identifiers are exactly
    /// `0 .. len() - 1`.
    pub fn len(&self) -> (r: usize)
        ensures
            r == self@.len(),
    {
        self.values.len()
    }

    /// The identifier of `label`, or `None` if it was never numbered.
    /// A pure read: the table does not change.
    pub fn lookup(&self, label: &String) -> (r: Option<usize>)
        requires
            self.wf(),
        ensures
            table_contains(self@, label@) ==> (r matches Some(id) && id == table_id_of(
                self@,
                label@,
            ) && 0 <= id < self@.len() && self@[id as int] == label@),
            !table_contains(self@, label@) ==> r is None,
    {
        let n = self.values.len();
        for i in 0..n
            invariant
                self.wf(),
                n == self@.len(),
                forall|p: int| 0 <= p < i ==> self@[p] != label@,
        {
            if self.values[i] == *label {
                assert(self@[i as int] == label@);
                assert(forall|k: int|
                    0 <= k < self@.len() && self@[k] == label@ ==> k == i as int);
                return Some(i);
            }
        }
        None
    }

    /// The label that `id` stands for, or `None` if `id` was never handed
    /// out.
    pub fn value(&self, id: usize) -> (r: Option<&String>)
        ensures
            id < self@.len() ==> (r matches Some(l) && l@ == self@[id as int]),
            id >= self@.len() ==> r is None,
    {
        if id < self.values.len() {
            Some(&self.values[id])
        } else {
            None
        }
    }

    /// The identifier of `label`, allocating the next unused identifier if
    /// `label` is new. Never fails; the table grows by at most one entry.
    pub fn number(&mut self, label: &String) -> (id: usize)
        requires
            old(self).wf(),
            old(self)@.len() < usize::MAX,
        ensures
            final(self).wf(),
            final(self)@ == table_number(old(self)@, label@),
            id == table_number_id(old(self)@, label@),
            id < final(self)@.len(),
            final(self)@[id as int] == label@,
    {
        let n = self.values.len();
        for i in 0..n
            invariant
                self.wf(),
                self == old(self),
                n == self@.len(),
                forall|p: int| 0 <= p < i ==> self@[p] != label@,
        {
            if self.values[i] == *label {
                assert(self@[i as int] == label@);
                assert(forall|k: int|
                    0 <= k < self@.len() && self@[k] == label@ ==> k == i as int);
                return i;
            }
        }
        assert(!table_contains(self@, label@));
        self.values.push(label.clone());
        assert(self@ =~= old(self)@.push(label@));
        n
    }
}

/// The bijection law: in a well-formed table, looking a label up by its
/// identifier and an identifier up by its label are exact inverses, and
/// identifiers are contiguous from 0 to the table's length.
pub proof fn lemma_bijection(t: Numberer)
    requires
        t.wf(),
    ensures
        forall|id: int|
            0 <= id < t@.len() ==> table_contains(t@, t@[id]) && table_id_of(t@, t@[id]) == id,
        forall|l: Seq<char>|
            table_contains(t@, l) ==> {
                let id = table_id_of(t@, l);
                0 <= id < t@.len() && t@[id] == l
            },
{
    assert forall|id: int| 0 <= id < t@.len() implies table_contains(t@, t@[id])
        && table_id_of(t@, t@[id]) == id by {
        assert(table_contains(t@, t@[id]));
        let w = table_id_of(t@, t@[id]);
        assert(0 <= w < t@.len() && t@[w] == t@[id]);
        if w != id {
            assert(t@[w] != t@[id]);
        }
    }
    assert forall|l: Seq<char>| table_contains(t@, l) implies {
        let id = table_id_of(t@, l);
        0 <= id < t@.len() && t@[id] == l
    } by {
        let w = choose|i: int| 0 <= i < t@.len() && t@[i] == l;
        assert(0 <= w < t@.len() && t@[w] == l);
    }
}

/// Determinism of numbering: numbering a label a second time returns the
/// same identifier as the first time and leaves the table unchanged.
pub proof fn lemma_number_deterministic(tbl: Seq<Seq<char>>, l: Seq<char>)
    requires
        table_distinct(tbl),
    ensures
        table_number(table_number(tbl, l), l) == table_number(tbl, l),
        table_number_id(table_number(tbl, l), l) == table_number_id(tbl, l),
{
    if table_contains(tbl, l) {
    } else {
        let grown = tbl.push(l);
        assert(grown[tbl.len() as int] == l);
        assert(table_contains(grown, l));
        let w = table_id_of(grown, l);
        assert(0 <= w < grown.len() && grown[w] == l);
        if w != tbl.len() as int {
            assert(grown[w] == tbl[w]);
            assert(table_contains(tbl, l));
        }
    }
}

/// Numbering preserves the bijection invariant, and it never disturbs an
/// identifier that was already handed out: the old table is a prefix of
/// the new one.
pub proof fn lemma_number_preserves_distinct(tbl: Seq<Seq<char>>, l: Seq<char>)
    requires
        table_distinct(tbl),
    ensures
        table_distinct(table_number(tbl, l)),
        table_number(tbl, l).take(tbl.len() as int) == tbl,
{
    assert(table_number(tbl, l).take(tbl.len() as int) =~= tbl);
    if !table_contains(tbl, l) {
        let grown = tbl.push(l);
        assert forall|i: int, j: int| 0 <= i < j < grown.len() implies grown[i] != grown[j] by {
            if j == tbl.len() as int {
                assert(grown[i] == tbl[i]);
                if grown[i] == l {
                    assert(table_contains(tbl, l));
                }
            }
        }
    }
}

} // verus!
