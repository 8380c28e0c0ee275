//! A map from hrefs to optional values (entity-tags, resource bodies), kept
//! as a list sorted by href so that walking it is deterministic.

use vstd::prelude::*;

use crate::text::chars_of;
use crate::types::opt_chars;

verus! {

/// Lexicographic order on character sequences, code point by code point; a
/// proper prefix comes first. UTF-8 preserves code point order, so this is
/// the order of `str`'s `Ord`.
pub open spec fn chars_lt(a: Seq<char>, b: Seq<char>) -> bool
    decreases a.len(),
{
    if b.len() == 0 {
        false
    } else if a.len() == 0 {
        true
    } else if a[0] != b[0] {
        a[0] < b[0]
    } else {
        chars_lt(a.drop_first(), b.drop_first())
    }
}

pub proof fn lemma_lt_irreflexive(a: Seq<char>)
    ensures
        !chars_lt(a, a),
    decreases a.len(),
{
    if a.len() > 0 {
        lemma_lt_irreflexive(a.drop_first());
    }
}

pub proof fn lemma_lt_transitive(a: Seq<char>, b: Seq<char>, c: Seq<char>)
    requires
        chars_lt(a, b),
        chars_lt(b, c),
    ensures
        chars_lt(a, c),
    decreases a.len(),
{
    if a.len() > 0 && b.len() > 0 && c.len() > 0 && a[0] == b[0] && b[0] == c[0] {
        lemma_lt_transitive(a.drop_first(), b.drop_first(), c.drop_first());
    }
}

pub proof fn lemma_lt_total(a: Seq<char>, b: Seq<char>)
    requires
        a != b,
    ensures
        chars_lt(a, b) || chars_lt(b, a),
    decreases a.len(),
{
    if a.len() == 0 && b.len() == 0 {
        assert(a =~= b);
    } else if a.len() > 0 && b.len() > 0 && a[0] == b[0] {
        if a.drop_first() == b.drop_first() {
            assert(a.len() == a.drop_first().len() + 1);
            assert(b.len() == b.drop_first().len() + 1);
            assert forall|i: int| 0 <= i < a.len() implies a[i] == b[i] by {
                if i > 0 {
                    assert(a[i] == a.drop_first()[i - 1]);
                    assert(b[i] == b.drop_first()[i - 1]);
                }
            }
            assert(a =~= b);
        }
        lemma_lt_total(a.drop_first(), b.drop_first());
    }
}

/// Whether `a` sorts before `b` (see [`chars_lt`]).
pub fn str_lt(a: &str, b: &str) -> (r: bool)
    ensures
        r == chars_lt(a@, b@),
{
    let x = chars_of(a);
    let y = chars_of(b);
    let mut i: usize = 0;
    assert(x@.skip(0) =~= x@);
    assert(y@.skip(0) =~= y@);
    while i < x.len() && i < y.len()
        invariant
            i <= x@.len(),
            i <= y@.len(),
            x@ == a@,
            y@ == b@,
            chars_lt(a@, b@) == chars_lt(x@.skip(i as int), y@.skip(i as int)),
        decreases x.len() - i,
    {
        if x[i] != y[i] {
            return x[i] < y[i];
        }
        assert(x@.skip(i as int).drop_first() =~= x@.skip(i as int + 1));
        assert(y@.skip(i as int).drop_first() =~= y@.skip(i as int + 1));
        i += 1;
    }
    i < y.len()
}

/// An association list: hrefs paired with values.
pub type PairsView = Seq<(Seq<char>, Option<Seq<char>>)>;

/// Hrefs strictly increasing along the list (so no href occurs twice).
pub open spec fn strictly_sorted(s: PairsView) -> bool {
    forall|i: int, j: int| 0 <= i < j < s.len() ==> chars_lt(#[trigger] s[i].0, #[trigger] s[j].0)
}

pub open spec fn has_key(s: PairsView, k: Seq<char>) -> bool {
    exists|i: int| 0 <= i < s.len() && (#[trigger] s[i]).0 == k
}

pub open spec fn key_index(s: PairsView, k: Seq<char>) -> int {
    choose|i: int| 0 <= i < s.len() && (#[trigger] s[i]).0 == k
}

/// The map an association list stands for.
pub open spec fn assoc_map(s: PairsView) -> Map<Seq<char>, Option<Seq<char>>> {
    Map::new(|k: Seq<char>| has_key(s, k), |k: Seq<char>| s[key_index(s, k)].1)
}

/// In a sorted list, the entry at `i` is what the map holds for its href.
pub proof fn lemma_assoc_at(s: PairsView, i: int)
    requires
        strictly_sorted(s),
        0 <= i < s.len(),
    ensures
        assoc_map(s).dom().contains(s[i].0),
        assoc_map(s)[s[i].0] == s[i].1,
{
    assert(has_key(s, s[i].0));
    let j = key_index(s, s[i].0);
    if j != i {
        lemma_lt_irreflexive(s[i].0);
        if j < i {
            assert(chars_lt(s[j].0, s[i].0));
        } else {
            assert(chars_lt(s[i].0, s[j].0));
        }
    }
}

/// An href the list does not hold is not in the map.
pub proof fn lemma_assoc_absent(s: PairsView, k: Seq<char>)
    requires
        forall|i: int| 0 <= i < s.len() ==> (#[trigger] s[i]).0 != k,
    ensures
        !assoc_map(s).dom().contains(k),
{
}

/// A map from hrefs to optional values, held sorted by href.
pub struct HrefMap {
    entries: Vec<(String, Option<String>)>,
}

impl HrefMap {
    /// The entries, in href order.
    pub closed spec fn pairs(&self) -> PairsView {
        Seq::new(self.entries@.len(), |i: int| (self.entries@[i].0@, opt_chars(self.entries@[i].1)))
    }

    pub open spec fn wf(&self) -> bool {
        strictly_sorted(self.pairs())
    }

    /// An empty map.
    pub fn new() -> (m: Self)
        ensures
            m.wf(),
            m.pairs().len() == 0,
            m@ == Map::<Seq<char>, Option<Seq<char>>>::empty(),
    {
        let m = HrefMap { entries: Vec::new() };
        assert(m@ =~= Map::<Seq<char>, Option<Seq<char>>>::empty());
        m
    }

    /// Number of hrefs held.
    pub fn len(&self) -> (n: usize)
        ensures
            n == self.pairs().len(),
    {
        self.entries.len()
    }

    /// The `i`-th href in href order.
    pub fn href_at(&self, i: usize) -> (h: &String)
        requires
            i < self.pairs().len(),
        ensures
            h@ == self.pairs()[i as int].0,
    {
        &self.entries[i].0
    }

    /// The value of the `i`-th href in href order.
    pub fn value_at(&self, i: usize) -> (v: &Option<String>)
        requires
            i < self.pairs().len(),
        ensures
            opt_chars(*v) == self.pairs()[i as int].1,
    {
        &self.entries[i].1
    }

    /// Binary search: the position of `href`, or where it would go.
    fn locate(&self, href: &str) -> (r: (bool, usize))
        requires
            self.wf(),
        ensures
            r.1 <= self.pairs().len(),
            forall|j: int| 0 <= j < r.1 ==> chars_lt(#[trigger] self.pairs()[j].0, href@),
            r.0 ==> r.1 < self.pairs().len() && self.pairs()[r.1 as int].0 == href@,
            !r.0 ==> forall|j: int| r.1 <= j < self.pairs().len() ==> chars_lt(href@, #[trigger] self.pairs()[j].0),
    {
        let ghost s = self.pairs();
        let mut lo: usize = 0;
        let mut hi: usize = self.entries.len();
        while lo < hi
            invariant
                s == self.pairs(),
                strictly_sorted(s),
                lo <= hi <= s.len(),
                s.len() == self.entries@.len(),
                forall|j: int| 0 <= j < lo ==> chars_lt(#[trigger] s[j].0, href@),
                forall|j: int| hi <= j < s.len() ==> !chars_lt(#[trigger] s[j].0, href@),
            decreases hi - lo,
        {
            let mid = lo + (hi - lo) / 2;
            let less = str_lt(self.entries[mid].0.as_str(), href);
            if less {
                assert forall|j: int| 0 <= j < mid + 1 implies chars_lt(#[trigger] s[j].0, href@) by {
                    if j < mid {
                        lemma_lt_transitive(s[j].0, s[mid as int].0, href@);
                    }
                }
                lo = mid + 1;
            } else {
                assert forall|j: int| mid <= j < s.len() implies !chars_lt(#[trigger] s[j].0, href@) by {
                    if j > mid && chars_lt(s[j].0, href@) {
                        lemma_lt_transitive(s[mid as int].0, s[j].0, href@);
                    }
                }
                hi = mid;
            }
        }
        if lo < self.entries.len() && !str_lt(href, self.entries[lo].0.as_str()) {
            proof {
                if s[lo as int].0 != href@ {
                    lemma_lt_total(s[lo as int].0, href@);
                }
            }
            (true, lo)
        } else {
            assert forall|j: int| lo <= j < s.len() implies chars_lt(href@, #[trigger] s[j].0) by {
                if j > lo {
                    lemma_lt_transitive(href@, s[lo as int].0, s[j].0);
                }
            }
            (false, lo)
        }
    }

    /// The value held for `href`, if any.
    pub fn get(&self, href: &str) -> (r: Option<&Option<String>>)
        requires
            self.wf(),
        ensures
            match r {
                Some(v) => self@.dom().contains(href@) && self@[href@] == opt_chars(*v),
                None => !self@.dom().contains(href@),
            },
    {
        let (found, p) = self.locate(href);
        proof {
            let s = self.pairs();
            if found {
                lemma_assoc_at(s, p as int);
            } else {
                assert forall|i: int| 0 <= i < s.len() implies (#[trigger] s[i]).0 != href@ by {
                    lemma_lt_irreflexive(href@);
                }
                lemma_assoc_absent(s, href@);
            }
        }
        if found {
            Some(&self.entries[p].1)
        } else {
            None
        }
    }

    /// Whether `href` is held.
    pub fn contains(&self, href: &str) -> (r: bool)
        requires
            self.wf(),
        ensures
            r == self@.dom().contains(href@),
    {
        self.get(href).is_some()
    }

    /// Set the value of `href`, replacing any earlier one.
    pub fn insert(&mut self, href: String, value: Option<String>)
        requires
            old(self).wf(),
        ensures
            final(self).wf(),
            final(self)@ == old(self)@.insert(href@, opt_chars(value)),
    {
        let ghost s = self.pairs();
        let ghost k = href@;
        let ghost v = opt_chars(value);
        let (found, p) = self.locate(href.as_str());
        if found {
            self.entries.set(p, (href, value));
            proof {
                let t = self.pairs();
                assert(t =~= s.update(p as int, (k, v)));
                assert forall|i: int, j: int| 0 <= i < j < t.len() implies chars_lt(#[trigger] t[i].0, #[trigger] t[j].0) by {
                    assert(t[i].0 == s[i].0 && t[j].0 == s[j].0);
                }
                assert forall|q: Seq<char>| #[trigger] assoc_map(t).dom().contains(q) <==> assoc_map(s).insert(k, v).dom().contains(q) by {
                    if has_key(t, q) {
                        let i = choose|i: int| 0 <= i < t.len() && (#[trigger] t[i]).0 == q;
                        assert(s[i].0 == q);
                    }
                    if has_key(s, q) {
                        let i = choose|i: int| 0 <= i < s.len() && (#[trigger] s[i]).0 == q;
                        assert(t[i].0 == q);
                    }
                    if q == k {
                        assert(t[p as int].0 == q);
                    }
                }
                assert forall|q: Seq<char>| #[trigger] assoc_map(t).dom().contains(q) implies assoc_map(t)[q] == assoc_map(s).insert(k, v)[q] by {
                    let i = choose|i: int| 0 <= i < t.len() && (#[trigger] t[i]).0 == q;
                    lemma_assoc_at(t, i);
                    if q == k {
                        lemma_assoc_at(t, p as int);
                    } else {
                        lemma_assoc_at(s, i);
                    }
                }
                assert(assoc_map(t) =~= assoc_map(s).insert(k, v));
            }
        } else {
            self.entries.insert(p, (href, value));
            proof {
                let t = self.pairs();
                assert(t =~= s.insert(p as int, (k, v)));
                assert forall|i: int, j: int| 0 <= i < j < t.len() implies chars_lt(#[trigger] t[i].0, #[trigger] t[j].0) by {
                    if i < p && j < p {
                        assert(t[i] == s[i] && t[j] == s[j]);
                    } else if i < p && j == p {
                        assert(t[i] == s[i]);
                    } else if i < p {
                        assert(t[i] == s[i] && t[j] == s[j - 1]);
                        lemma_lt_transitive(s[i].0, k, s[j - 1].0);
                    } else if i == p {
                        assert(t[j] == s[j - 1]);
                    } else {
                        assert(t[i] == s[i - 1] && t[j] == s[j - 1]);
                    }
                }
                assert forall|q: Seq<char>| #[trigger] assoc_map(t).dom().contains(q) <==> assoc_map(s).insert(k, v).dom().contains(q) by {
                    if has_key(t, q) {
                        let i = choose|i: int| 0 <= i < t.len() && (#[trigger] t[i]).0 == q;
                        if i < p {
                            assert(s[i].0 == q);
                        } else if i > p {
                            assert(s[i - 1].0 == q);
                        }
                    }
                    if has_key(s, q) {
                        let i = choose|i: int| 0 <= i < s.len() && (#[trigger] s[i]).0 == q;
                        if i < p {
                            assert(t[i].0 == q);
                        } else {
                            assert(t[i + 1].0 == q);
                        }
                    }
                    if q == k {
                        assert(t[p as int].0 == q);
                    }
                }
                assert forall|q: Seq<char>| #[trigger] assoc_map(t).dom().contains(q) implies assoc_map(t)[q] == assoc_map(s).insert(k, v)[q] by {
                    let i = choose|i: int| 0 <= i < t.len() && (#[trigger] t[i]).0 == q;
                    lemma_assoc_at(t, i);
                    if q == k {
                        lemma_assoc_at(t, p as int);
                    } else if i < p {
                        lemma_assoc_at(s, i);
                    } else {
                        lemma_assoc_at(s, i - 1);
                    }
                }
                assert(assoc_map(t) =~= assoc_map(s).insert(k, v));
            }
        }
    }

    /// Drop `href` from the map.
    pub fn remove(&mut self, href: &str)
        requires
            old(self).wf(),
        ensures
            final(self).wf(),
            final(self)@ == old(self)@.remove(href@),
    {
        let ghost s = self.pairs();
        let ghost k = href@;
        let (found, p) = self.locate(href);
        if found {
            self.entries.remove(p);
            proof {
                let t = self.pairs();
                assert(t =~= s.remove(p as int));
                assert forall|i: int, j: int| 0 <= i < j < t.len() implies chars_lt(#[trigger] t[i].0, #[trigger] t[j].0) by {
                    if j < p {
                        assert(t[i] == s[i] && t[j] == s[j]);
                    } else if i < p {
                        assert(t[i] == s[i] && t[j] == s[j + 1]);
                    } else {
                        assert(t[i] == s[i + 1] && t[j] == s[j + 1]);
                    }
                }
                assert forall|q: Seq<char>| #[trigger] assoc_map(t).dom().contains(q) <==> assoc_map(s).remove(k).dom().contains(q) by {
                    if has_key(t, q) {
                        let i = choose|i: int| 0 <= i < t.len() && (#[trigger] t[i]).0 == q;
                        if i < p {
                            assert(s[i].0 == q);
                            assert(chars_lt(s[i].0, s[p as int].0));
                            lemma_lt_irreflexive(q);
                        } else {
                            assert(s[i + 1].0 == q);
                            assert(chars_lt(s[p as int].0, s[i + 1].0));
                            lemma_lt_irreflexive(q);
                        }
                    }
                    if has_key(s, q) && q != k {
                        let i = choose|i: int| 0 <= i < s.len() && (#[trigger] s[i]).0 == q;
                        if i < p {
                            assert(t[i].0 == q);
                        } else {
                            assert(i != p);
                            assert(t[i - 1].0 == q);
                        }
                    }
                }
                assert forall|q: Seq<char>| #[trigger] assoc_map(t).dom().contains(q) implies assoc_map(t)[q] == assoc_map(s).remove(k)[q] by {
                    let i = choose|i: int| 0 <= i < t.len() && (#[trigger] t[i]).0 == q;
                    lemma_assoc_at(t, i);
                    if i < p {
                        lemma_assoc_at(s, i);
                    } else {
                        lemma_assoc_at(s, i + 1);
                    }
                }
                assert(assoc_map(t) =~= assoc_map(s).remove(k));
            }
        } else {
            proof {
                assert forall|i: int| 0 <= i < s.len() implies (#[trigger] s[i]).0 != k by {
                    lemma_lt_irreflexive(k);
                }
                lemma_assoc_absent(s, k);
                assert(assoc_map(s) =~= assoc_map(s).remove(k));
            }
        }
    }
}

impl View for HrefMap {
    type V = Map<Seq<char>, Option<Seq<char>>>;

    open spec fn view(&self) -> Map<Seq<char>, Option<Seq<char>>> {
        assoc_map(self.pairs())
    }
}

} // verus!
