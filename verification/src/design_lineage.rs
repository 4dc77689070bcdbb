//! Generic design lineage: a mutable head design plus frozen, numbered revisions.

use vstd::prelude::*;

verus! {

/// A frozen snapshot of a design at a point in time.
#[derive(Debug, Clone)]
pub struct Revision<T: Clone> {
    pub revision_number: u32,
    pub snapshot: T,
    pub label: String,
}

/// A design lineage: the current (mutable) head design plus the list of frozen
/// revisions that can be used for manufacturing.
#[derive(Debug, Clone)]
pub struct DesignLineage<T: Clone> {
    pub name: String,
    pub head: T,
    pub revisions: Vec<Revision<T>>,
    next_revision: u32,
}

/// What a lineage holds, as mathematical values.
pub struct LineageView<T: Clone> {
    pub name: Seq<char>,
    pub head: T,
    pub revisions: Seq<Revision<T>>,
    /// Number the next revision will get.
    pub next_revision: nat,
}

impl<T: Clone> LineageView<T> {
    /// Revisions are numbered 1, 2, 3, ... in the order they were cut, and the next one
    /// gets the number after the last.
    pub open spec fn wf(self) -> bool {
        &&& self.next_revision == self.revisions.len() + 1
        &&& forall|i: int|
            0 <= i < self.revisions.len() ==> (#[trigger] self.revisions[i]).revision_number == i
                + 1
    }

    /// The revision numbered `n`, if one was cut.
    pub open spec fn revision_lookup(self, n: int) -> Option<Revision<T>> {
        if 1 <= n <= self.revisions.len() {
            Some(self.revisions[n - 1])
        } else {
            None
        }
    }
}

impl<T: Clone> View for DesignLineage<T> {
    type V = LineageView<T>;

    closed spec fn view(&self) -> LineageView<T> {
        LineageView {
            name: self.name@,
            head: self.head,
            revisions: self.revisions@,
            next_revision: self.next_revision as nat,
        }
    }
}

impl<T: Clone> DesignLineage<T> {
    /// Create a new lineage with the given name and initial head design.
    pub fn new(name: &str, head: T) -> (l: Self)
        ensures
            l@.wf(),
            l@.name == name@,
            l@.head == head,
            l@.revisions.len() == 0,
    {
        DesignLineage { name: String::from_str(name), head, revisions: Vec::new(), next_revision: 1 }
    }

    /// Freeze a copy of the current head as a new revision; returns its number, one past
    /// the previous revision's.
    pub fn cut_revision(&mut self, label: &str) -> (n: u32)
        requires
            old(self)@.wf(),
            old(self)@.revisions.len() + 1 < u32::MAX,
        ensures
            final(self)@.wf(),
            n == old(self)@.revisions.len() + 1,
            final(self)@.revisions.len() == old(self)@.revisions.len() + 1,
            forall|i: int|
                0 <= i < old(self)@.revisions.len() ==> final(self)@.revisions[i] == old(
                    self,
                )@.revisions[i],
            final(self)@.revisions.last().revision_number == n,
            final(self)@.revisions.last().label@ == label@,
            cloned::<T>(old(self)@.head, final(self)@.revisions.last().snapshot),
            final(self)@.head == old(self)@.head,
            final(self)@.name == old(self)@.name,
    {
        let rev_num = self.next_revision;
        let snapshot = self.head.clone();
        self.revisions.push(
            Revision { revision_number: rev_num, snapshot, label: String::from_str(label) },
        );
        self.next_revision = self.next_revision + 1;
        rev_num
    }

    /// Get a revision by its number: the first one that carries it. On a well-formed
    /// lineage that is the revision cut in that position.
    pub fn get_revision(&self, revision_number: u32) -> (r: Option<&Revision<T>>)
        ensures
            match r {
                Some(rev) => {
                    &&& revision_index(self@.revisions, revision_number, 0) < self@.revisions.len()
                    &&& *rev == self@.revisions[revision_index(self@.revisions, revision_number, 0)]
                },
                None => revision_index(self@.revisions, revision_number, 0) == self@.revisions.len(),
            },
            self@.wf() ==> match r {
                Some(rev) => self@.revision_lookup(revision_number as int) == Some(*rev),
                None => self@.revision_lookup(revision_number as int) is None,
            },
    {
        proof {
            lemma_revision_index(self@.revisions, revision_number, 0);
        }
        let mut i: usize = 0;
        while i < self.revisions.len()
            invariant
                i <= self.revisions@.len(),
                forall|j: int| 0 <= j < i ==> (#[trigger] self.revisions@[j]).revision_number != revision_number,
                i <= revision_index(self.revisions@, revision_number, 0) <= self.revisions@.len(),
                revision_index(self.revisions@, revision_number, 0) < self.revisions@.len()
                    ==> self.revisions@[revision_index(self.revisions@, revision_number, 0)].revision_number
                    == revision_number,
            decreases self.revisions@.len() - i,
        {
            if self.revisions[i].revision_number == revision_number {
                proof {
                    lemma_revision_index(self.revisions@, revision_number, 0);
                    if (i as int) < revision_index(self.revisions@, revision_number, 0) {
                        assert(self.revisions@[i as int].revision_number != revision_number);
                    }
                    if self@.wf() {
                        assert(self.revisions@[i as int].revision_number == i + 1);
                    }
                }
                return Some(&self.revisions[i]);
            }
            i = i + 1;
        }
        proof {
            if self@.wf() && 1 <= revision_number <= self.revisions@.len() {
                assert(self.revisions@[revision_number - 1].revision_number == revision_number);
            }
        }
        None
    }

    /// The most recent revision, if any.
    pub fn latest_revision(&self) -> (r: Option<&Revision<T>>)
        ensures
            match r {
                Some(rev) => self@.revisions.len() > 0 && *rev == self@.revisions.last(),
                None => self@.revisions.len() == 0,
            },
    {
        let n = self.revisions.len();
        if n == 0 {
            None
        } else {
            Some(&self.revisions[n - 1])
        }
    }

    /// The current head design.
    pub fn head(&self) -> (h: &T)
        ensures
            *h == self@.head,
    {
        &self.head
    }

    /// Mutable access to the current head design; nothing else of the lineage changes.
    pub fn head_mut(&mut self) -> (h: &mut T)
        ensures
            *h == old(self)@.head,
            final(self)@ == (LineageView { head: *final(h), ..old(self)@ }),
    {
        &mut self.head
    }
}

/// Position of the first revision numbered `n`, from position `from` on (the length when
/// there is none).
pub open spec fn revision_index<T: Clone>(revs: Seq<Revision<T>>, n: u32, from: int) -> int
    decreases revs.len() - from,
{
    if from < 0 || from >= revs.len() {
        revs.len() as int
    } else if revs[from].revision_number == n {
        from
    } else {
        revision_index(revs, n, from + 1)
    }
}

proof fn lemma_revision_index<T: Clone>(revs: Seq<Revision<T>>, n: u32, from: int)
    requires
        0 <= from <= revs.len(),
    ensures
        from <= revision_index(revs, n, from) <= revs.len(),
        revision_index(revs, n, from) < revs.len() ==> revs[revision_index(revs, n, from)].revision_number
            == n,
        forall|j: int| from <= j < revision_index(revs, n, from) ==> (#[trigger] revs[j]).revision_number != n,
    decreases revs.len() - from,
{
    if from < revs.len() && revs[from].revision_number != n {
        lemma_revision_index(revs, n, from + 1);
    }
}

/// Revisions are frozen: replacing the head design leaves every revision lookup as it was.
pub proof fn lemma_head_edit_keeps_revisions<T: Clone>(l: LineageView<T>, new_head: T, n: int)
    ensures
        (LineageView { head: new_head, ..l }).revision_lookup(n) == l.revision_lookup(n),
        (LineageView { head: new_head, ..l }).wf() == l.wf(),
{
}

} // verus!
