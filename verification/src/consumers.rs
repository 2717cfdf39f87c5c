//! The set of consumers that require a resource.

use vstd::prelude::*;
use vstd::string::*;
use crate::text::{same_text, views};
use crate::version::{
    ascending, codes, lemma_ascending_distinct, lemma_sequence_rank_chain,
    lemma_sequence_rank_mirror, text_before, text_rank,
};

verus! {

/// A set of consumer identifiers. Each identifier is held once, and the
/// identifiers are held in the ascending order of strings.
#[derive(Debug)]
pub struct ConsumerSet {
    ids: Vec<String>,
}

impl View for ConsumerSet {
    type V = Set<Seq<char>>;

    open spec fn view(&self) -> Set<Seq<char>> {
        self.order().to_set()
    }
}

/// Where `id` stands in `ids`, if it does.
fn position(ids: &Vec<String>, id: &str) -> (r: Option<usize>)
    ensures
        match r {
            Some(i) => i < ids.len() && ids@[i as int]@ == id@ && views(ids@).contains(id@),
            None => !views(ids@).contains(id@),
        },
{
    let mut i: usize = 0;
    while i < ids.len()
        invariant
            i <= ids.len(),
            forall|j: int| 0 <= j < i ==> ids@[j]@ != id@,
        decreases ids.len() - i,
    {
        if same_text(ids[i].as_str(), id) {
            assert(views(ids@)[i as int] == id@);
            return Some(i);
        }
        i = i + 1;
    }
    None
}

/// Where `id`, which is not among `ids`, belongs in their ascending order:
/// behind everything that comes before it, and before the rest.
fn slot(ids: &Vec<String>, id: &str) -> (r: usize)
    requires
        ascending(views(ids@)),
        !views(ids@).contains(id@),
    ensures
        r <= ids.len(),
        forall|j: int| 0 <= j < r ==> text_before(#[trigger] views(ids@)[j], id@),
        forall|j: int| r <= j < ids.len() ==> text_before(id@, #[trigger] views(ids@)[j]),
{
    let mut i: usize = 0;
    while i < ids.len() && text_rank(ids[i].as_str(), id) < 0
        invariant
            i <= ids.len(),
            forall|j: int| 0 <= j < i ==> text_before(#[trigger] views(ids@)[j], id@),
        decreases ids.len() - i,
    {
        i = i + 1;
    }
    proof {
        let order = views(ids@);
        if i < ids.len() {
            assert(order[i as int] == ids@[i as int]@);
            assert(order.contains(order[i as int]));
            lemma_sequence_rank_mirror(codes(order[i as int]), codes(id@));
            assert(text_before(id@, order[i as int]));
            assert forall|j: int| i <= j < ids.len() implies text_before(
                id@,
                #[trigger] order[j],
            ) by {
                if i < j {
                    assert(text_before(order[i as int], order[j]));
                    lemma_sequence_rank_chain(codes(id@), codes(order[i as int]), codes(order[j]));
                }
            }
        }
    }
    i
}

impl Clone for ConsumerSet {
    fn clone(&self) -> (r: Self)
        ensures
            r@ == self@,
            r.order() == self.order(),
    {
        proof {
            use_type_invariant(self);
        }
        let ids = self.to_vec();
        ConsumerSet { ids }
    }
}

impl ConsumerSet {
    #[verifier::type_invariant]
    spec fn sorted(self) -> bool {
        ascending(views(self.ids@))
    }

    /// The identifiers in the order in which they are held.
    pub closed spec fn order(self) -> Seq<Seq<char>> {
        views(self.ids@)
    }

    pub fn new() -> (r: ConsumerSet)
        ensures
            r@ == Set::<Seq<char>>::empty(),
            r.order() == Seq::<Seq<char>>::empty(),
    {
        let r = ConsumerSet { ids: Vec::new() };
        assert(views(r.ids@) == Seq::<Seq<char>>::empty());
        assert(r@ == Set::<Seq<char>>::empty());
        r
    }

    pub fn contains(&self, id: &str) -> (r: bool)
        ensures
            r == self@.contains(id@),
    {
        position(&self.ids, id).is_some()
    }

    pub fn is_empty(&self) -> (r: bool)
        ensures
            r == (self@ == Set::<Seq<char>>::empty()),
            r == (self.order().len() == 0),
    {
        let r = self.ids.len() == 0;
        proof {
            if r {
                assert(views(self.ids@) == Seq::<Seq<char>>::empty());
                assert(self@ == Set::<Seq<char>>::empty());
            } else {
                assert(views(self.ids@)[0] == self.ids@[0]@);
                assert(views(self.ids@).contains(self.ids@[0]@));
                assert(self@.contains(self.ids@[0]@));
            }
        }
        r
    }

    pub fn len(&self) -> (r: usize)
        ensures
            self@.finite(),
            r == self@.len(),
            r == self.order().len(),
    {
        proof {
            use_type_invariant(self);
            lemma_ascending_distinct(views(self.ids@));
            views(self.ids@).unique_seq_to_set();
        }
        self.ids.len()
    }

    /// Adds `id` in its place in the ascending order; says whether the set
    /// grew.
    pub fn insert(&mut self, id: &str) -> (r: bool)
        ensures
            final(self)@ == old(self)@.insert(id@),
            r == !old(self)@.contains(id@),
            ascending(final(self).order()),
            !r ==> final(self).order() == old(self).order(),
            r ==> exists|i: int|
                {
                    &&& 0 <= i <= old(self).order().len()
                    &&& final(self).order() == #[trigger] old(self).order().insert(i, id@)
                },
            r && old(self).order().len() == 0 ==> final(self).order() == seq![id@],
    {
        proof {
            use_type_invariant(&*self);
        }
        match position(&self.ids, id) {
            Some(_) => {
                assert(self@ == self@.insert(id@));
                false
            },
            None => {
                let ghost before = views(self.ids@);
                let at = slot(&self.ids, id);
                let mut ids: Vec<String> = Vec::new();
                proof {
                    assert(views(ids@) == Seq::<Seq<char>>::empty());
                }
                std::mem::swap(&mut self.ids, &mut ids);
                ids.insert(at, String::from_str(id));
                proof {
                    let after = before.insert(at as int, id@);
                    assert(views(ids@) == after);
                    assert forall|j: int, k: int| 0 <= j < k < after.len() implies text_before(
                        #[trigger] after[j],
                        #[trigger] after[k],
                    ) by {
                        if k < at {
                            assert(after[j] == before[j] && after[k] == before[k]);
                        } else if k == at {
                            assert(after[j] == before[j]);
                        } else if j < at {
                            assert(after[j] == before[j] && after[k] == before[k - 1]);
                        } else if j == at {
                            assert(after[k] == before[k - 1]);
                        } else {
                            assert(after[j] == before[j - 1] && after[k] == before[k - 1]);
                        }
                    }
                    lemma_insert_to_set(before, at as int, id@);
                }
                self.ids = ids;
                proof {
                    assert(self.order() == old(self).order().insert(at as int, id@));
                    if old(self).order().len() == 0 {
                        assert(self.order() =~= seq![id@]);
                    }
                }
                true
            },
        }
    }

    /// Takes `id` out; says whether it was there.
    pub fn remove(&mut self, id: &str) -> (r: bool)
        ensures
            final(self)@ == old(self)@.remove(id@),
            r == old(self)@.contains(id@),
            ascending(final(self).order()),
            r ==> exists|i: int|
                {
                    &&& 0 <= i < old(self).order().len()
                    &&& #[trigger] old(self).order()[i] == id@
                    &&& final(self).order() == old(self).order().remove(i)
                },
            !r ==> final(self).order() == old(self).order(),
    {
        proof {
            use_type_invariant(&*self);
        }
        match position(&self.ids, id) {
            Some(i) => {
                let ghost before = views(self.ids@);
                let mut ids: Vec<String> = Vec::new();
                proof {
                    assert(views(ids@) == Seq::<Seq<char>>::empty());
                }
                std::mem::swap(&mut self.ids, &mut ids);
                ids.remove(i);
                proof {
                    let after = before.remove(i as int);
                    assert(views(ids@) == after);
                    lemma_ascending_distinct(before);
                    lemma_remove_to_set(before, i as int);
                    assert forall|j: int, k: int| 0 <= j < k < after.len() implies text_before(
                        #[trigger] after[j],
                        #[trigger] after[k],
                    ) by {
                        let jj = if j < i { j } else { j + 1 };
                        let kk = if k < i { k } else { k + 1 };
                        assert(after[j] == before[jj] && after[k] == before[kk]);
                    }
                }
                self.ids = ids;
                proof {
                    assert(old(self).order() == before);
                    assert(old(self).order()[i as int] == id@);
                    assert(self.order() == old(self).order().remove(i as int));
                }
                true
            },
            None => {
                assert(self@ == self@.remove(id@));
                false
            },
        }
    }

    /// The identifiers, in ascending order.
    pub fn to_vec(&self) -> (r: Vec<String>)
        ensures
            views(r@) == self.order(),
            views(r@).to_set() == self@,
            ascending(views(r@)),
    {
        proof {
            use_type_invariant(self);
        }
        let mut out: Vec<String> = Vec::new();
        let mut i: usize = 0;
        while i < self.ids.len()
            invariant
                i <= self.ids.len(),
                out@ == self.ids@.subrange(0, i as int),
            decreases self.ids.len() - i,
        {
            out.push(self.ids[i].clone());
            i = i + 1;
        }
        proof {
            assert(out@ == self.ids@);
        }
        out
    }

    /// The set of the identifiers in `ids`.
    pub fn from_vec(ids: &Vec<String>) -> (r: ConsumerSet)
        ensures
            r@ == views(ids@).to_set(),
            ascending(r.order()),
    {
        let mut out = ConsumerSet::new();
        let mut i: usize = 0;
        while i < ids.len()
            invariant
                i <= ids.len(),
                out@ == views(ids@).subrange(0, i as int).to_set(),
                ascending(out.order()),
            decreases ids.len() - i,
        {
            proof {
                let prefix = views(ids@).subrange(0, i as int);
                assert(views(ids@).subrange(0, i + 1) == prefix.push(ids@[i as int]@));
                lemma_push_to_set(prefix, ids@[i as int]@);
            }
            out.insert(ids[i].as_str());
            i = i + 1;
        }
        proof {
            assert(views(ids@).subrange(0, ids.len() as int) == views(ids@));
        }
        out
    }
}

/// Appending an element to a sequence adds it to the set of its elements.
pub proof fn lemma_push_to_set(s: Seq<Seq<char>>, a: Seq<char>)
    ensures
        s.push(a).to_set() == s.to_set().insert(a),
{
    assert(s.push(a) == s.insert(s.len() as int, a));
    lemma_insert_to_set(s, s.len() as int, a);
}

/// Putting an element into a sequence adds it to the set of its elements.
pub proof fn lemma_insert_to_set(s: Seq<Seq<char>>, at: int, a: Seq<char>)
    requires
        0 <= at <= s.len(),
    ensures
        s.insert(at, a).to_set() == s.to_set().insert(a),
{
    let t = s.insert(at, a);
    assert forall|x: Seq<char>| t.to_set().contains(x) <==> s.to_set().insert(a).contains(x) by {
        if t.contains(x) {
            let i = choose|i: int| 0 <= i < t.len() && t[i] == x;
            if i < at {
                assert(s[i] == x);
                assert(s.contains(x));
            } else if i > at {
                assert(s[i - 1] == x);
                assert(s.contains(x));
            }
        }
        if s.contains(x) {
            let i = choose|i: int| 0 <= i < s.len() && s[i] == x;
            if i < at {
                assert(t[i] == x);
            } else {
                assert(t[i + 1] == x);
            }
        }
        if x == a {
            assert(t[at] == a);
        }
    }
    assert(t.to_set() =~= s.to_set().insert(a));
}

/// Taking one element out of a sequence without repeats takes it out of the
/// set of its elements.
pub proof fn lemma_remove_to_set(s: Seq<Seq<char>>, i: int)
    requires
        0 <= i < s.len(),
        s.no_duplicates(),
    ensures
        s.remove(i).no_duplicates(),
        s.remove(i).to_set() == s.to_set().remove(s[i]),
{
    let t = s.remove(i);
    assert forall|j: int, k: int| 0 <= j < t.len() && 0 <= k < t.len() && j != k implies t[j]
        != t[k] by {
        let jj = if j < i { j } else { j + 1 };
        let kk = if k < i { k } else { k + 1 };
        assert(t[j] == s[jj]);
        assert(t[k] == s[kk]);
    }
    assert forall|x: Seq<char>| t.to_set().contains(x) <==> s.to_set().remove(s[i]).contains(
        x,
    ) by {
        if t.contains(x) {
            let j = choose|j: int| 0 <= j < t.len() && t[j] == x;
            let jj = if j < i { j } else { j + 1 };
            assert(s[jj] == x);
            assert(s.contains(x));
        }
        if s.contains(x) && x != s[i] {
            let j = choose|j: int| 0 <= j < s.len() && s[j] == x;
            let jj = if j < i { j } else { j - 1 };
            assert(t[jj] == x);
        }
    }
    assert(t.to_set() =~= s.to_set().remove(s[i]));
}

} // verus!
