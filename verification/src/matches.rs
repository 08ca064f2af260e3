//! The result of a search: the lines found, each under the place where it
//! was found.

use vstd::prelude::*;

verus! {

/// One line found, with the line number and the column, both counted from
/// zero, of the place where it was found.
pub struct Hit {
    pub line: usize,
    pub column: usize,
    pub text: String,
}

impl Hit {
    /// The place of the hit.
    pub open spec fn key(&self) -> (usize, usize) {
        (self.line, self.column)
    }
}

/// The lines found by a search, keyed by place. No place occurs twice: a line
/// found at a place that is already taken replaces the line that stood there.
pub struct Matches {
    hits: Vec<Hit>,
}

impl View for Matches {
    type V = Map<(usize, usize), Seq<char>>;

    closed spec fn view(&self) -> Map<(usize, usize), Seq<char>> {
        Map::new(
            |k: (usize, usize)| exists|i: int| 0 <= i < self.hits@.len() && self.hits@[i].key() == k,
            |k: (usize, usize)| self.hits@[self.index_of(k)].text@,
        )
    }
}

impl Matches {
    /// Where the hit at place `k` is kept.
    closed spec fn index_of(&self, k: (usize, usize)) -> int {
        choose|i: int| 0 <= i < self.hits@.len() && self.hits@[i].key() == k
    }

    /// No place occurs twice among the hits.
    pub closed spec fn wf(&self) -> bool {
        forall|i: int, j: int|
            0 <= i < j < self.hits@.len() ==> (#[trigger] self.hits@[i]).key() != (
            #[trigger] self.hits@[j]).key()
    }

    /// The places of the hits, in the order in which they were first found.
    pub closed spec fn places(&self) -> Seq<(usize, usize)> {
        Seq::new(self.hits@.len(), |i: int| self.hits@[i].key())
    }

    /// The places are exactly the keys of the view, each listed once, and the
    /// view holds under each place the text kept for it.
    pub proof fn lemma_places(&self)
        requires
            self.wf(),
        ensures
            self.places().no_duplicates(),
            self.places().to_set() == self@.dom(),
            self.places().len() == self@.dom().len(),
            self@.dom().finite(),
    {
        let p = self.places();
        assert forall|i: int, j: int| 0 <= i < p.len() && 0 <= j < p.len() && i != j implies p[i]
            != p[j] by {
            if i < j {
                assert(self.hits@[i].key() != self.hits@[j].key());
            } else {
                assert(self.hits@[j].key() != self.hits@[i].key());
            }
        }
        assert forall|k: (usize, usize)| p.to_set().contains(k) <==> self@.dom().contains(k) by {
            if p.to_set().contains(k) {
                let i = choose|i: int| 0 <= i < p.len() && p[i] == k;
                assert(self.hits@[i].key() == k);
            }
            if self@.dom().contains(k) {
                let i = self.index_of(k);
                assert(p[i] == k);
            }
        }
        assert(p.to_set() =~= self@.dom());
        p.unique_seq_to_set();
        vstd::seq_lib::seq_to_set_is_finite(p);
    }

    /// No hits.
    pub fn new() -> (res: Matches)
        ensures
            res.wf(),
            res@ == Map::<(usize, usize), Seq<char>>::empty(),
    {
        let res = Matches { hits: Vec::new() };
        assert(res@ =~= Map::<(usize, usize), Seq<char>>::empty());
        res
    }

    /// Where the hit at the given place is kept, if there is one.
    fn position(&self, line: usize, column: usize) -> (res: Option<usize>)
        requires
            self.wf(),
        ensures
            match res {
                Some(i) => i < self.hits@.len() && self.hits@[i as int].key() == (line, column)
                    && self.index_of((line, column)) == i && self@.dom().contains((line, column)),
                None => !self@.dom().contains((line, column)),
            },
    {
        let mut i: usize = 0;
        while i < self.hits.len()
            invariant
                self.wf(),
                i <= self.hits@.len(),
                forall|j: int| 0 <= j < i ==> (#[trigger] self.hits@[j]).key() != (line, column),
            decreases self.hits@.len() - i,
        {
            if self.hits[i].line == line && self.hits[i].column == column {
                proof {
                    assert(self.hits@[i as int].key() == (line, column));
                    assert(self@.dom().contains((line, column)));
                    let c = self.index_of((line, column));
                    assert(0 <= c < self.hits@.len() && self.hits@[c].key() == (line, column));
                    if c < i {
                        assert(self.hits@[c].key() != self.hits@[i as int].key());
                    }
                    if i < c {
                        assert(self.hits@[i as int].key() != self.hits@[c].key());
                    }
                }
                return Some(i);
            }
            i += 1;
        }
        None
    }

    /// Puts `text` under the given place; a line that stood there is
    /// replaced.
    pub fn insert(&mut self, line: usize, column: usize, text: String)
        requires
            old(self).wf(),
        ensures
            final(self).wf(),
            final(self)@ == old(self)@.insert((line, column), text@),
    {
        let ghost k = (line, column);
        let ghost before = self@;
        let ghost old_hits = self.hits@;
        match self.position(line, column) {
            Some(i) => {
                self.hits.set(i, Hit { line, column, text });
                proof {
                    assert forall|a: int, b: int| 0 <= a < b < self.hits@.len() implies (
                    #[trigger] self.hits@[a]).key() != (#[trigger] self.hits@[b]).key() by {
                        assert(old_hits[a].key() != old_hits[b].key());
                    }
                    assert forall|q: (usize, usize)| self@.dom().contains(q) <==> before.insert(
                        k,
                        text@,
                    ).dom().contains(q) by {
                        if self@.dom().contains(q) {
                            let c = self.index_of(q);
                            assert(old_hits[c].key() == q);
                        }
                        if before.dom().contains(q) {
                            let c = old(self).index_of(q);
                            assert(self.hits@[c].key() == q);
                        }
                        if q == k {
                            assert(self.hits@[i as int].key() == k);
                        }
                    }
                    assert forall|q: (usize, usize)| self@.dom().contains(q) implies self@[q]
                        == before.insert(k, text@)[q] by {
                        let c = self.index_of(q);
                        assert(old_hits[c].key() == q);
                        let d = old(self).index_of(q);
                        if c < d {
                            assert(old_hits[c].key() != old_hits[d].key());
                        }
                        if d < c {
                            assert(old_hits[d].key() != old_hits[c].key());
                        }
                    }
                    assert(self@ =~= before.insert(k, text@));
                }
            },
            None => {
                self.hits.push(Hit { line, column, text });
                proof {
                    let n = old_hits.len() as int;
                    assert forall|a: int, b: int| 0 <= a < b < self.hits@.len() implies (
                    #[trigger] self.hits@[a]).key() != (#[trigger] self.hits@[b]).key() by {
                        if b < n {
                            assert(old_hits[a].key() != old_hits[b].key());
                        } else {
                            assert(old_hits[a].key() == self.hits@[a].key());
                            if old_hits[a].key() == k {
                                assert(before.dom().contains(k));
                            }
                        }
                    }
                    assert forall|q: (usize, usize)| self@.dom().contains(q) <==> before.insert(
                        k,
                        text@,
                    ).dom().contains(q) by {
                        if self@.dom().contains(q) {
                            let c = self.index_of(q);
                            if c < n {
                                assert(old_hits[c].key() == q);
                            }
                        }
                        if before.dom().contains(q) {
                            let c = old(self).index_of(q);
                            assert(self.hits@[c].key() == q);
                        }
                        if q == k {
                            assert(self.hits@[n].key() == k);
                        }
                    }
                    assert forall|q: (usize, usize)| self@.dom().contains(q) implies self@[q]
                        == before.insert(k, text@)[q] by {
                        let c = self.index_of(q);
                        if q != k {
                            assert(c < n);
                            assert(old_hits[c].key() == q);
                            let d = old(self).index_of(q);
                            if c < d {
                                assert(old_hits[c].key() != old_hits[d].key());
                            }
                            if d < c {
                                assert(old_hits[d].key() != old_hits[c].key());
                            }
                        } else {
                            if c < n {
                                assert(old_hits[c].key() == k);
                                assert(before.dom().contains(k));
                            }
                        }
                    }
                    assert(self@ =~= before.insert(k, text@));
                }
            },
        }
    }

    /// The number of hits.
    pub fn len(&self) -> (n: usize)
        requires
            self.wf(),
        ensures
            n == self@.dom().len(),
    {
        proof {
            self.lemma_places();
        }
        self.hits.len()
    }

    /// The line found at the given place, if there is one.
    pub fn get(&self, line: usize, column: usize) -> (res: Option<&String>)
        requires
            self.wf(),
        ensures
            match res {
                Some(text) => self@.dom().contains((line, column)) && text@ == self@[(
                    line,
                    column,
                )],
                None => !self@.dom().contains((line, column)),
            },
    {
        match self.position(line, column) {
            Some(i) => Some(&self.hits[i].text),
            None => None,
        }
    }

    /// The places of the hits, each once, in the order in which they were
    /// first found.
    pub fn keys(&self) -> (res: Vec<(usize, usize)>)
        requires
            self.wf(),
        ensures
            res@ == self.places(),
            res@.no_duplicates(),
            res@.to_set() == self@.dom(),
    {
        let mut res: Vec<(usize, usize)> = Vec::new();
        let mut i: usize = 0;
        while i < self.hits.len()
            invariant
                i <= self.hits@.len(),
                res@.len() == i,
                forall|j: int| 0 <= j < i ==> res@[j] == (#[trigger] self.hits@[j]).key(),
            decreases self.hits@.len() - i,
        {
            res.push((self.hits[i].line, self.hits[i].column));
            i += 1;
        }
        proof {
            assert(res@ =~= self.places());
            self.lemma_places();
        }
        res
    }

    /// The lines found, in the order of [`Matches::keys`].
    pub fn values(&self) -> (res: Vec<String>)
        requires
            self.wf(),
        ensures
            res@.len() == self.places().len(),
            forall|i: int| 0 <= i < res@.len() ==> (#[trigger] res@[i])@ == self@[self.places()[i]],
    {
        let mut res: Vec<String> = Vec::new();
        let mut i: usize = 0;
        while i < self.hits.len()
            invariant
                self.wf(),
                i <= self.hits@.len(),
                res@.len() == i,
                forall|j: int| 0 <= j < i ==> (#[trigger] res@[j])@ == self@[self.places()[j]],
            decreases self.hits@.len() - i,
        {
            let ghost k = self.hits@[i as int].key();
            proof {
                assert(self@.dom().contains(k));
                let c = self.index_of(k);
                assert(0 <= c < self.hits@.len() && self.hits@[c].key() == k);
                if c < i {
                    assert(self.hits@[c].key() != self.hits@[i as int].key());
                }
                if i < c {
                    assert(self.hits@[i as int].key() != self.hits@[c].key());
                }
            }
            res.push(self.hits[i].text.clone());
            i += 1;
        }
        res
    }
}

} // verus!
