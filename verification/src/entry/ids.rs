//! Which request of the daemon stands for which name outside.
use vstd::prelude::*;

use crate::daemon::protocol::{RequestId, RequestIdView};

verus! {

/// Names outside, each with the request of the daemon that it stands for.
#[derive(Debug)]
pub struct IdMap {
    pub entries: Vec<(RequestId, RequestId)>,
}

/// No name stands twice.
pub open spec fn names_differ(v: Seq<(RequestId, RequestId)>) -> bool {
    forall|i: int, k: int| 0 <= i < k < v.len() ==> (#[trigger] v[i]).0@ != (#[trigger] v[k]).0@
}

/// The requests by their names.
pub open spec fn id_map(v: Seq<(RequestId, RequestId)>) -> Map<RequestIdView, RequestIdView>
    decreases v.len(),
{
    if v.len() == 0 {
        Map::empty()
    } else {
        id_map(v.drop_last()).insert(v.last().0@, v.last().1@)
    }
}

impl View for IdMap {
    type V = Map<RequestIdView, RequestIdView>;

    open spec fn view(&self) -> Map<RequestIdView, RequestIdView> {
        id_map(self.entries@)
    }
}

proof fn lemma_dom(v: Seq<(RequestId, RequestId)>, name: RequestIdView)
    ensures
        id_map(v).dom().contains(name) <==> exists|i: int|
            0 <= i < v.len() && (#[trigger] v[i]).0@ == name,
    decreases v.len(),
{
    if v.len() > 0 {
        let front = v.drop_last();
        lemma_dom(front, name);
        if v.last().0@ == name {
            assert(v[v.len() - 1].0@ == name);
        } else {
            if exists|i: int| 0 <= i < v.len() && (#[trigger] v[i]).0@ == name {
                let i = choose|i: int| 0 <= i < v.len() && (#[trigger] v[i]).0@ == name;
                assert(front[i] == v[i]);
            }
            if id_map(front).dom().contains(name) {
                let i = choose|i: int| 0 <= i < front.len() && (#[trigger] front[i]).0@ == name;
                assert(v[i].0@ == name);
            }
        }
    }
}

proof fn lemma_front(v: Seq<(RequestId, RequestId)>)
    requires
        v.len() > 0,
        names_differ(v),
    ensures
        names_differ(v.drop_last()),
{
    let front = v.drop_last();
    assert forall|a: int, b: int| 0 <= a < b < front.len() implies (#[trigger] front[a]).0@ != (
    #[trigger] front[b]).0@ by {
        assert(v[a].0@ != v[b].0@);
    }
}

proof fn lemma_at(v: Seq<(RequestId, RequestId)>, i: int)
    requires
        0 <= i < v.len(),
        names_differ(v),
    ensures
        id_map(v).dom().contains(v[i].0@),
        id_map(v)[v[i].0@] == v[i].1@,
    decreases v.len(),
{
    if i < v.len() - 1 {
        lemma_front(v);
        lemma_at(v.drop_last(), i);
        assert(v.drop_last()[i] == v[i]);
        assert(v[i].0@ != v[v.len() - 1].0@);
    }
}

proof fn lemma_remove(v: Seq<(RequestId, RequestId)>, i: int)
    requires
        0 <= i < v.len(),
        names_differ(v),
    ensures
        id_map(v.remove(i)) == id_map(v).remove(v[i].0@),
        names_differ(v.remove(i)),
    decreases v.len(),
{
    let name = v[i].0@;
    let front = v.drop_last();
    if i == v.len() - 1 {
        assert(v.remove(i) =~= front);
        lemma_front(v);
        lemma_dom(front, name);
        if id_map(front).dom().contains(name) {
            let k = choose|k: int| 0 <= k < front.len() && (#[trigger] front[k]).0@ == name;
            assert(v[k].0@ != v[i].0@);
        }
        assert(id_map(front) =~= id_map(v).remove(name));
    } else {
        lemma_front(v);
        assert(v.remove(i) =~= front.remove(i).push(v.last()));
        assert(v.remove(i).drop_last() =~= front.remove(i));
        lemma_remove(front, i);
        assert(v[i].0@ != v[v.len() - 1].0@);
        assert(id_map(v.remove(i)) =~= id_map(v).remove(name));
    }
}

impl IdMap {
    /// No name stands twice.
    pub open spec fn wf(self) -> bool {
        names_differ(self.entries@)
    }

    /// Nothing yet.
    pub fn new() -> (r: Self)
        ensures
            r.wf(),
            r@ == Map::<RequestIdView, RequestIdView>::empty(),
    {
        IdMap { entries: Vec::new() }
    }

    fn find(&self, name: &RequestId) -> (r: Option<usize>)
        requires
            self.wf(),
        ensures
            match r {
                Some(i) => i < self.entries@.len() && self.entries@[i as int].0@ == name@,
                None => !self@.dom().contains(name@),
            },
    {
        let mut i: usize = 0;
        while i < self.entries.len()
            invariant
                i <= self.entries@.len(),
                forall|k: int| 0 <= k < i ==> (#[trigger] self.entries@[k]).0@ != name@,
            decreases self.entries@.len() - i,
        {
            if self.entries[i].0.same(name) {
                return Some(i);
            }
            i = i + 1;
        }
        proof {
            lemma_dom(self.entries@, name@);
        }
        None
    }

    /// The request that a name stands for.
    pub fn get(&self, name: &RequestId) -> (r: Option<RequestId>)
        requires
            self.wf(),
        ensures
            match r {
                Some(id) => self@.dom().contains(name@) && self@[name@] == id@,
                None => !self@.dom().contains(name@),
            },
    {
        match self.find(name) {
            Some(i) => {
                proof {
                    lemma_at(self.entries@, i as int);
                }
                Some(self.entries[i].1.clone())
            },
            None => None,
        }
    }

    /// Forgets a name.
    pub fn remove(&mut self, name: &RequestId)
        requires
            old(self).wf(),
        ensures
            final(self).wf(),
            final(self)@ == old(self)@.remove(name@),
    {
        match self.find(name) {
            Some(i) => {
                proof {
                    lemma_remove(self.entries@, i as int);
                }
                self.entries.remove(i);
            },
            None => {
                assert(self@ =~= self@.remove(name@));
            },
        }
    }

    /// Notes what a name stands for.
    pub fn insert(&mut self, name: RequestId, id: RequestId)
        requires
            old(self).wf(),
        ensures
            final(self).wf(),
            final(self)@ == old(self)@.insert(name@, id@),
    {
        self.remove(&name);
        proof {
            lemma_dom(self.entries@, name@);
        }
        let ghost before = self.entries@;
        self.entries.push((name, id));
        assert(self.entries@.drop_last() =~= before);
        assert(self@ =~= old(self)@.insert(name@, id@));
    }
}

/// A name stands for what was last kept under it.
pub proof fn law_names_stand_for_the_last_kept(v: Seq<(RequestId, RequestId)>, k: int)
    requires
        0 <= k < v.len(),
        forall|j: int| k < j < v.len() ==> (#[trigger] v[j]).0@ != v[k].0@,
    ensures
        id_map(v).dom().contains(v[k].0@),
        id_map(v)[v[k].0@] == v[k].1@,
    decreases v.len(),
{
    let w = v.drop_last();
    if k < w.len() {
        assert(v[v.len() - 1].0@ != v[k].0@);
        assert(w[k] == v[k]);
        assert forall|j: int| k < j < w.len() implies (#[trigger] w[j]).0@ != w[k].0@ by {
            assert(v[j] == w[j]);
        }
        law_names_stand_for_the_last_kept(w, k);
    }
}

/// A name under which nothing was kept stands for nothing.
pub proof fn law_other_names_stand_for_nothing(
    v: Seq<(RequestId, RequestId)>,
    name: RequestIdView,
)
    requires
        forall|i: int| 0 <= i < v.len() ==> (#[trigger] v[i]).0@ != name,
    ensures
        !id_map(v).dom().contains(name),
    decreases v.len(),
{
    if v.len() > 0 {
        let w = v.drop_last();
        assert(v[v.len() - 1].0@ != name);
        assert forall|i: int| 0 <= i < w.len() implies (#[trigger] w[i]).0@ != name by {
            assert(v[i] == w[i]);
        }
        law_other_names_stand_for_nothing(w, name);
    }
}

} // verus!
