//! Interning arena for places.
//!
//! A *place* is a path rooted in a local variable and descending through
//! fields (`x`, `x.f`, `x.f.g`). Places are hash-consed: structurally equal
//! paths receive the same stable handle, so the rest of the compiler can
//! compare places by handle. The arena also decides the *covered-by*
//! relation used by permission subtyping: a place `p` covers `q` exactly
//! when `q` is a prefix of `p` at the same root.

use vstd::prelude::*;

verus! {

/// Stable handle of an interned place.
#[derive(Copy, Clone, PartialEq, Eq, Structural, Debug)]
pub struct PlaceId(pub u32);

/// A place as a path: the first element is the root local variable, each
/// further element a field.
pub struct Place {
    pub path: Vec<u32>,
}

impl Place {
    pub open spec fn view_path(&self) -> Seq<u32> {
        self.path@
    }

    /// A place must at least name its root variable.
    pub open spec fn wf(&self) -> bool {
        self.path@.len() >= 1
    }
}

/// `prefix` is an initial segment of `path`.
pub open spec fn is_prefix_of(prefix: Seq<u32>, path: Seq<u32>) -> bool {
    prefix.len() <= path.len() && prefix == path.subrange(0, prefix.len() as int)
}

/// `p` covers `q` iff `q` is a prefix of `p` at the same root.
pub open spec fn covers(p: Seq<u32>, q: Seq<u32>) -> bool {
    is_prefix_of(q, p)
}

/// The arena owning every interned place. Handles index into `paths`.
pub struct PlaceStore {
    pub paths: Vec<Place>,
}

impl PlaceStore {
    /// The paths interned so far, by handle.
    pub open spec fn view_paths(&self) -> Seq<Seq<u32>> {
        self.paths@.map(|i: int, p: Place| p.path@)
    }

    pub open spec fn contains_id(&self, id: PlaceId) -> bool {
        id.0 < self.view_paths().len()
    }

    pub open spec fn path_of(&self, id: PlaceId) -> Seq<u32> {
        self.view_paths()[id.0 as int]
    }

    /// The arena never interns the same path twice.
    pub open spec fn wf(&self) -> bool {
        &&& self.view_paths().len() <= u32::MAX
        &&& forall|i: int, j: int|
            0 <= i < j < self.view_paths().len() ==> self.view_paths()[i] !== self.view_paths()[j]
    }

    pub fn new() -> (r: PlaceStore)
        ensures
            r.wf(),
            r.view_paths().len() == 0,
    {
        PlaceStore { paths: Vec::new() }
    }

    /// Intern a path, returning the handle of the structurally equal place.
    /// Equal inputs map to equal handles; distinct inputs to distinct ones.
    pub fn intern(&mut self, path: Vec<u32>) -> (r: PlaceId)
        requires
            old(self).wf(),
            old(self).view_paths().len() < u32::MAX,
        ensures
            final(self).wf(),
            final(self).contains_id(r),
            final(self).path_of(r) == path@,
            // existing places keep their handles and paths
            final(self).view_paths().len() >= old(self).view_paths().len(),
            forall|i: int|
                0 <= i < old(self).view_paths().len() ==> final(self).view_paths()[i]
                    == old(self).view_paths()[i],
            // nothing new is added unless the path was absent
            (forall|i: int|
                0 <= i < old(self).view_paths().len() ==> old(self).view_paths()[i] !== path@)
                ==> final(self).view_paths().len() == old(self).view_paths().len() + 1,
            (exists|i: int| 0 <= i < old(self).view_paths().len() && old(self).view_paths()[i]
                == path@) ==> final(self).view_paths() == old(self).view_paths(),
    {
        let n = self.paths.len();
        match self.find(&path) {
            Some(i) => PlaceId(i as u32),
            None => {
                self.paths.push(Place { path });
                assert(self.view_paths() =~= old(self).view_paths().push(
                    self.paths@[self.view_paths().len() - 1].path@,
                ));
                PlaceId(n as u32)
            },
        }
    }

    /// Look up the handle of an already interned path.
    pub fn find(&self, path: &Vec<u32>) -> (r: Option<usize>)
        ensures
            match r {
                Some(i) => i < self.view_paths().len() && self.view_paths()[i as int] == path@,
                None => forall|j: int|
                    0 <= j < self.view_paths().len() ==> self.view_paths()[j] !== path@,
            },
    {
        let n = self.paths.len();
        let mut i: usize = 0;
        while i < n
            invariant
                n == self.view_paths().len(),
                i <= n,
                forall|j: int| 0 <= j < i ==> self.view_paths()[j] !== path@,
            decreases n - i,
        {
            if eq_paths(&self.paths[i].path, path) {
                return Some(i);
            }
            i += 1;
        }
        None
    }

    /// Whether `a` is covered by `b`, that is, `b` covers `a`: the path of
    /// `a` is a prefix of the path of `b`.
    pub fn is_covered_by(&self, a: PlaceId, b: PlaceId) -> (r: bool)
        requires
            self.contains_id(a),
            self.contains_id(b),
        ensures
            r == covers(self.path_of(b), self.path_of(a)),
    {
        let pa = &self.paths[a.0 as usize].path;
        let pb = &self.paths[b.0 as usize].path;
        if pa.len() > pb.len() {
            assert(!is_prefix_of(pa@, pb@));
            return false;
        }
        let mut i: usize = 0;
        while i < pa.len()
            invariant
                i <= pa@.len() <= pb@.len(),
                pa@ == self.path_of(a),
                pb@ == self.path_of(b),
                forall|j: int| 0 <= j < i ==> pa@[j] == pb@[j],
            decreases pa@.len() - i,
        {
            if pa[i] != pb[i] {
                assert(pa@[i as int] != pb@.subrange(0, pa@.len() as int)[i as int]);
                return false;
            }
            i += 1;
        }
        assert(pa@ =~= pb@.subrange(0, pa@.len() as int));
        true
    }
}

/// Element-wise equality of two paths.
pub fn eq_paths(a: &Vec<u32>, b: &Vec<u32>) -> (r: bool)
    ensures
        r == (a@ == b@),
{
    if a.len() != b.len() {
        assert(a@ !== b@);
        return false;
    }
    let mut i: usize = 0;
    while i < a.len()
        invariant
            i <= a@.len(),
            a@.len() == b@.len(),
            forall|j: int| 0 <= j < i ==> a@[j] == b@[j],
        decreases a@.len() - i,
    {
        if a[i] != b[i] {
            assert(a@[i as int] != b@[i as int]);
            return false;
        }
        i += 1;
    }
    assert(a@ =~= b@);
    true
}

/// Interning identity: two interned handles are equal exactly when the
/// interned paths are structurally equal.
pub proof fn lemma_intern_identity(store: PlaceStore, a: PlaceId, b: PlaceId)
    requires
        store.wf(),
        store.contains_id(a),
        store.contains_id(b),
    ensures
        (a == b) <==> (store.path_of(a) == store.path_of(b)),
{
    if a != b && store.path_of(a) == store.path_of(b) {
        if a.0 < b.0 {
            assert(store.view_paths()[a.0 as int] !== store.view_paths()[b.0 as int]);
        } else {
            assert(store.view_paths()[b.0 as int] !== store.view_paths()[a.0 as int]);
        }
    }
}

} // verus!
