use vstd::prelude::*;

use crate::error::ContractError;
use crate::resource_type::{Resource, ResourceType, Status};

verus! {

/// The registry of resources: a keyed store owning one `Resource` per
/// resource id, viewed abstractly as a map from id to record.
pub struct ResourceLedger {
    entries: Vec<Resource>,
}

impl View for ResourceLedger {
    type V = Map<Seq<char>, Resource>;

    closed spec fn view(&self) -> Map<Seq<char>, Resource> {
        Map::new(
            |k: Seq<char>|
                exists|i: int| 0 <= i < self.entries@.len() && self.entries@[i].id@ == k,
            |k: Seq<char>| self.entries@[idx_of(self.entries@, k)],
        )
    }
}

/// The index of the entry carrying id `k`; meaningful only while some entry
/// does and ids are unique.
spec fn idx_of(s: Seq<Resource>, k: Seq<char>) -> int {
    choose|i: int| 0 <= i < s.len() && s[i].id@ == k
}

/// No two entries share an id.
spec fn ids_unique(s: Seq<Resource>) -> bool {
    forall|i: int, j: int|
        0 <= i < j < s.len() ==> (#[trigger] s[i]).id@ != (#[trigger] s[j]).id@
}

impl ResourceLedger {
    /// The representation invariant: ids are unique, so the map view loses
    /// nothing.
    pub closed spec fn inv(self) -> bool {
        ids_unique(self.entries@)
    }

    /// The ledger invariant: a faithful representation holding only
    /// well-formed resources, each filed under its own id.
    pub open spec fn wf(self) -> bool {
        &&& self.inv()
        &&& forall|k: Seq<char>|
            #[trigger] self@.contains_key(k) ==> self@[k].wf() && self@[k].id@ == k
    }

    /// Entry `i` is what the map view stores under its id.
    proof fn lemma_entry_is_viewed(self, i: int)
        requires
            self.inv(),
            0 <= i < self.entries@.len(),
        ensures
            self@.contains_key(self.entries@[i].id@),
            self@[self.entries@[i].id@] == self.entries@[i],
    {
        let s = self.entries@;
        let k = s[i].id@;
        assert(exists|j: int| 0 <= j < s.len() && s[j].id@ == k);
        let j = idx_of(s, k);
        assert(0 <= j < s.len() && s[j].id@ == k);
        if i != j {
            assert(false);
        }
    }

    pub fn new() -> (r: Self)
        ensures
            r.wf(),
            r@ == Map::<Seq<char>, Resource>::empty(),
    {
        let r = ResourceLedger { entries: Vec::new() };
        proof {
            assert(r@ =~= Map::<Seq<char>, Resource>::empty());
        }
        r
    }

    /// The index of the entry with the given id, if one is present.
    fn find(&self, id: &String) -> (r: Option<usize>)
        ensures
            match r {
                Some(i) => i < self.entries@.len() && self.entries@[i as int].id@ == id@,
                None => !self@.contains_key(id@),
            },
    {
        let mut i: usize = 0;
        while i < self.entries.len()
            invariant
                i <= self.entries@.len(),
                forall|j: int| 0 <= j < i ==> (#[trigger] self.entries@[j]).id@ != id@,
            decreases self.entries@.len() - i,
        {
            if self.entries[i].id == *id {
                return Some(i);
            }
            i = i + 1;
        }
        None
    }

    pub fn contains(&self, id: &String) -> (r: bool)
        requires
            self.inv(),
        ensures
            r == self@.contains_key(id@),
    {
        match self.find(id) {
            Some(i) => {
                proof {
                    self.lemma_entry_is_viewed(i as int);
                }
                true
            },
            None => false,
        }
    }

    /// Looks a resource up by id, handing back a copy of the record.
    pub fn get(&self, id: &String) -> (r: Option<Resource>)
        requires
            self.inv(),
        ensures
            match r {
                Some(res) => self@.contains_key(id@) && res == self@[id@],
                None => !self@.contains_key(id@),
            },
    {
        match self.find(id) {
            Some(i) => {
                proof {
                    self.lemma_entry_is_viewed(i as int);
                }
                Some(self.entries[i].clone())
            },
            None => None,
        }
    }

    /// Files `resource` under its id, overwriting any record already there.
    pub fn put(&mut self, resource: Resource)
        requires
            old(self).inv(),
        ensures
            final(self).inv(),
            final(self)@ == old(self)@.insert(resource.id@, resource),
    {
        let ghost k = resource.id@;
        let found = self.find(&resource.id);
        match found {
            Some(i) => {
                proof {
                    self.lemma_entry_is_viewed(i as int);
                }
                self.entries[i] = resource;
                proof {
                    let s0 = old(self).entries@;
                    let s1 = self.entries@;
                    assert(s1 =~= s0.update(i as int, resource));
                    assert forall|k2: Seq<char>| #[trigger]
                        self@.contains_key(k2) implies old(self)@.insert(k, resource).contains_key(
                        k2,
                    ) && self@[k2] == old(self)@.insert(k, resource)[k2] by {
                        let j = choose|j: int| 0 <= j < s1.len() && s1[j].id@ == k2;
                        self.lemma_entry_is_viewed(j);
                        if j != i {
                            old(self).lemma_entry_is_viewed(j);
                        }
                    }
                    assert forall|k2: Seq<char>| #[trigger]
                        old(self)@.insert(k, resource).contains_key(k2) implies self@.contains_key(
                        k2,
                    ) by {
                        if k2 == k {
                            self.lemma_entry_is_viewed(i as int);
                        } else {
                            let j = choose|j: int| 0 <= j < s0.len() && s0[j].id@ == k2;
                            assert(0 <= j < s0.len() && s0[j].id@ == k2);
                            if j != i {
                                self.lemma_entry_is_viewed(j);
                            }
                        }
                    }
                    assert(self@ =~= old(self)@.insert(k, resource));
                }
            },
            None => {
                self.entries.push(resource);
                proof {
                    let s0 = old(self).entries@;
                    let s1 = self.entries@;
                    let n = s0.len() as int;
                    assert forall|i: int, j: int| 0 <= i < j < s1.len() implies (
                    #[trigger] s1[i]).id@ != (#[trigger] s1[j]).id@ by {
                        if j == n {
                            old(self).lemma_entry_is_viewed(i);
                        }
                    }
                    assert forall|k2: Seq<char>| #[trigger]
                        self@.contains_key(k2) implies old(self)@.insert(k, resource).contains_key(
                        k2,
                    ) && self@[k2] == old(self)@.insert(k, resource)[k2] by {
                        let j = choose|j: int| 0 <= j < s1.len() && s1[j].id@ == k2;
                        self.lemma_entry_is_viewed(j);
                        if j != n {
                            old(self).lemma_entry_is_viewed(j);
                        }
                    }
                    assert forall|k2: Seq<char>| #[trigger]
                        old(self)@.insert(k, resource).contains_key(k2) implies self@.contains_key(
                        k2,
                    ) by {
                        if k2 == k {
                            self.lemma_entry_is_viewed(n);
                        } else {
                            let j = choose|j: int| 0 <= j < s0.len() && s0[j].id@ == k2;
                            assert(0 <= j < s0.len() && s0[j].id@ == k2);
                            self.lemma_entry_is_viewed(j);
                        }
                    }
                    assert(self@ =~= old(self)@.insert(k, resource));
                }
            },
        }
    }

    /// Removes the record filed under `id`.
    pub fn remove(&mut self, id: &String)
        requires
            old(self).inv(),
            old(self)@.contains_key(id@),
        ensures
            final(self).inv(),
            final(self)@ == old(self)@.remove(id@),
    {
        let ghost k = id@;
        let found = self.find(id);
        match found {
            Some(i) => {
                self.entries.remove(i);
                proof {
                    let s0 = old(self).entries@;
                    let s1 = self.entries@;
                    let n = s0.len() as int;
                    assert(s1 =~= s0.subrange(0, i as int) + s0.subrange(i as int + 1, n));
                    assert forall|j: int| 0 <= j < s1.len() implies #[trigger] s1[j] == (
                    if j < i as int {
                        s0[j]
                    } else {
                        s0[j + 1]
                    }) by {}
                    assert forall|i2: int, j2: int| 0 <= i2 < j2 < s1.len() implies (
                    #[trigger] s1[i2]).id@ != (#[trigger] s1[j2]).id@ by {}
                    assert forall|k2: Seq<char>| #[trigger]
                        self@.contains_key(k2) implies old(self)@.remove(k).contains_key(k2)
                        && self@[k2] == old(self)@.remove(k)[k2] by {
                        let j = choose|j: int| 0 <= j < s1.len() && s1[j].id@ == k2;
                        self.lemma_entry_is_viewed(j);
                        let j0 = if j < i as int {
                            j
                        } else {
                            j + 1
                        };
                        old(self).lemma_entry_is_viewed(j0);
                    }
                    assert forall|k2: Seq<char>| #[trigger]
                        old(self)@.remove(k).contains_key(k2) implies self@.contains_key(k2) by {
                        let j = choose|j: int| 0 <= j < s0.len() && s0[j].id@ == k2;
                        assert(0 <= j < s0.len() && s0[j].id@ == k2);
                        let j1 = if j < i as int {
                            j
                        } else {
                            j - 1
                        };
                        assert(s1[j1] == s0[j]);
                        self.lemma_entry_is_viewed(j1);
                    }
                    assert(self@ =~= old(self)@.remove(k));
                }
            },
            None => {
                proof {
                    assert(false);
                }
            },
        }
    }
}

impl Clone for ResourceLedger {
    /// A faithful copy: same map view, same invariant.
    fn clone(&self) -> (res: Self)
        ensures
            res@ == self@,
            res.inv() == self.inv(),
    {
        let mut entries: Vec<Resource> = Vec::new();
        let mut i: usize = 0;
        while i < self.entries.len()
            invariant
                i <= self.entries@.len(),
                entries@ =~= self.entries@.take(i as int),
            decreases self.entries@.len() - i,
        {
            entries.push(self.entries[i].clone());
            i = i + 1;
        }
        let res = ResourceLedger { entries };
        proof {
            assert(res.entries@ =~= self.entries@);
            assert(res.entries@ == self.entries@);
            assert forall|k2: Seq<char>| #[trigger]
                res@.contains_key(k2) == self@.contains_key(k2) by {}
            assert(res@ =~= self@);
        }
        res
    }
}

/// Applies `step` to the ledger view once per element of `xs`, left to
/// right, stopping at the first failure. Every batch operation below is
/// specified as such a fold; a batch commits only as a whole.
pub open spec fn spec_apply_all<X>(
    m: Map<Seq<char>, Resource>,
    xs: Seq<X>,
    step: spec_fn(Map<Seq<char>, Resource>, X) -> Result<Map<Seq<char>, Resource>, ContractError>,
) -> Result<Map<Seq<char>, Resource>, ContractError>
    decreases xs.len(),
{
    if xs.len() == 0 {
        Ok(m)
    } else {
        match spec_apply_all(m, xs.drop_last(), step) {
            Ok(m2) => step(m2, xs.last()),
            Err(e) => Err(e),
        }
    }
}

/// Once a prefix of the batch fails, the whole batch fails the same way.
proof fn lemma_apply_all_err_prefix<X>(
    m: Map<Seq<char>, Resource>,
    xs: Seq<X>,
    step: spec_fn(Map<Seq<char>, Resource>, X) -> Result<Map<Seq<char>, Resource>, ContractError>,
    j: int,
)
    requires
        0 <= j <= xs.len(),
        spec_apply_all(m, xs.take(j), step) is Err,
    ensures
        spec_apply_all(m, xs, step) == spec_apply_all(m, xs.take(j), step),
    decreases xs.len() - j,
{
    if j == xs.len() {
        assert(xs.take(j) =~= xs);
    } else {
        assert(xs.take(j + 1).drop_last() =~= xs.take(j));
        lemma_apply_all_err_prefix(m, xs, step, j + 1);
    }
}

/// One step of `query_resources`: a present id contributes its record, a
/// missing id is silently omitted.
pub open spec fn spec_query(m: Map<Seq<char>, Resource>, ids: Seq<Seq<char>>) -> Seq<Resource>
    decreases ids.len(),
{
    if ids.len() == 0 {
        Seq::empty()
    } else {
        spec_query(m, ids.drop_last()) + (if m.contains_key(ids.last()) {
            seq![m[ids.last()]]
        } else {
            Seq::empty()
        })
    }
}

/// Looks up each id in turn, collecting the records that are present;
/// missing ids are omitted, not errors.
pub fn query_resources(ledger: &ResourceLedger, ids: Vec<String>) -> (r: Vec<Resource>)
    requires
        ledger.inv(),
    ensures
        r@ == spec_query(ledger@, ids.deep_view()),
{
    let ghost dv = ids.deep_view();
    let mut resources: Vec<Resource> = Vec::new();
    let mut i: usize = 0;
    while i < ids.len()
        invariant
            ledger.inv(),
            i <= ids@.len(),
            dv == ids.deep_view(),
            resources@ == spec_query(ledger@, dv.take(i as int)),
        decreases ids@.len() - i,
    {
        proof {
            assert(dv.take(i + 1).drop_last() =~= dv.take(i as int));
            assert(dv[i as int] == ids@[i as int]@);
        }
        match ledger.get(&ids[i]) {
            Some(resource) => {
                resources.push(resource);
            },
            None => {},
        }
        i = i + 1;
        proof {
            assert(resources@ =~= spec_query(ledger@, dv.take(i as int)));
        }
    }
    proof {
        assert(dv.take(ids@.len() as int) =~= dv);
    }
    resources
}

/// One step of `add_resources`: registering a resource whose id is already
/// taken fails; otherwise the record is filed under its id.
pub open spec fn spec_add_step(m: Map<Seq<char>, Resource>, r: Resource) -> Result<
    Map<Seq<char>, Resource>,
    ContractError,
> {
    if m.contains_key(r.id@) {
        Err(ContractError::AlreadyExists)
    } else {
        Ok(m.insert(r.id@, r))
    }
}

/// Registers a batch of new resources; admin-gated. Fails with
/// `AlreadyExists`, changing nothing, if any id in the batch is already
/// registered (or repeated within the batch).
#[verifier::loop_isolation(false)]
pub fn add_resources(ledger: &mut ResourceLedger, is_admin: bool, resources: Vec<Resource>) -> (r:
    Result<(), ContractError>)
    requires
        old(ledger).wf(),
        forall|i: int| 0 <= i < resources@.len() ==> (#[trigger] resources@[i]).wf(),
    ensures
        final(ledger).wf(),
        !is_admin ==> r == Err::<(), ContractError>(ContractError::Unauthorized) && final(ledger)@
            == old(ledger)@,
        is_admin ==> match spec_apply_all(
            old(ledger)@,
            resources@,
            |m: Map<Seq<char>, Resource>, x: Resource| spec_add_step(m, x),
        ) {
            Ok(m) => r is Ok && final(ledger)@ == m,
            Err(e) => r == Err::<(), ContractError>(e) && final(ledger)@ == old(ledger)@,
        },
{
    let ghost step = |m: Map<Seq<char>, Resource>, x: Resource| spec_add_step(m, x);
    if !is_admin {
        return Err(ContractError::Unauthorized);
    }

    let ghost m0 = ledger@;
    let snapshot = ledger.clone();
    let mut err: Option<ContractError> = None;
    let mut i: usize = 0;
    while i < resources.len()
        invariant
            i <= resources@.len(),
            ledger.wf(),
            match err {
                None => spec_apply_all(m0, resources@.take(i as int), step) == Ok::<
                    Map<Seq<char>, Resource>,
                    ContractError,
                >(ledger@),
                Some(e) => spec_apply_all(m0, resources@, step) == Err::<
                    Map<Seq<char>, Resource>,
                    ContractError,
                >(e),
            },
        decreases resources@.len() - i,
    {
        if err.is_none() {
            proof {
                assert(resources@.take(i + 1).drop_last() =~= resources@.take(i as int));
                assert(resources@.take(i + 1).last() == resources@[i as int]);
            }
            let resource = resources[i].clone();
            if ledger.contains(&resource.id) {
                err = Some(ContractError::AlreadyExists);
                proof {
                    lemma_apply_all_err_prefix(m0, resources@, step, i + 1);
                }
            } else {
                ledger.put(resource);
            }
        }
        i = i + 1;
    }
    match err {
        Some(e) => {
            *ledger = snapshot;
            Err(e)
        },
        None => {
            proof {
                assert(resources@.take(resources@.len() as int) =~= resources@);
            }
            Ok(())
        },
    }
}

/// One step of `use_resources`: the id must be registered and the resource
/// `Unused`; its whole capacity is then allocated and it turns `Suspended`.
pub open spec fn spec_use_step(m: Map<Seq<char>, Resource>, id: Seq<char>) -> Result<
    Map<Seq<char>, Resource>,
    ContractError,
> {
    if !m.contains_key(id) {
        Err(ContractError::NotFound)
    } else if !(m[id].status is Unused) {
        Err(ContractError::OtherError)
    } else {
        Ok(m.insert(id, m[id].after_use()))
    }
}

/// Allocates each listed resource in full; admin-gated. Fails, changing
/// nothing, on a missing id (`NotFound`) or one that is not `Unused` at its
/// turn (`OtherError`) -- so also on a repeated id.
#[verifier::loop_isolation(false)]
pub fn use_resources(ledger: &mut ResourceLedger, is_admin: bool, ids: Vec<String>) -> (r: Result<
    (),
    ContractError,
>)
    requires
        old(ledger).wf(),
    ensures
        final(ledger).wf(),
        !is_admin ==> r == Err::<(), ContractError>(ContractError::Unauthorized) && final(ledger)@
            == old(ledger)@,
        is_admin ==> match spec_apply_all(
            old(ledger)@,
            ids.deep_view(),
            |m: Map<Seq<char>, Resource>, id: Seq<char>| spec_use_step(m, id),
        ) {
            Ok(m) => r is Ok && final(ledger)@ == m,
            Err(e) => r == Err::<(), ContractError>(e) && final(ledger)@ == old(ledger)@,
        },
{
    let ghost step = |m: Map<Seq<char>, Resource>, id: Seq<char>| spec_use_step(m, id);
    let ghost dv = ids.deep_view();
    if !is_admin {
        return Err(ContractError::Unauthorized);
    }

    let ghost m0 = ledger@;
    let snapshot = ledger.clone();
    let mut err: Option<ContractError> = None;
    let mut i: usize = 0;
    while i < ids.len()
        invariant
            i <= ids@.len(),
            ledger.wf(),
            match err {
                None => spec_apply_all(m0, dv.take(i as int), step) == Ok::<
                    Map<Seq<char>, Resource>,
                    ContractError,
                >(ledger@),
                Some(e) => spec_apply_all(m0, dv, step) == Err::<
                    Map<Seq<char>, Resource>,
                    ContractError,
                >(e),
            },
        decreases ids@.len() - i,
    {
        if err.is_none() {
            proof {
                assert(dv.take(i + 1).drop_last() =~= dv.take(i as int));
                assert(dv[i as int] == ids@[i as int]@);
            }
            match ledger.get(&ids[i]) {
                None => {
                    err = Some(ContractError::NotFound);
                    proof {
                        lemma_apply_all_err_prefix(m0, dv, step, i + 1);
                    }
                },
                Some(mut resource) => {
                    match resource.use_resource() {
                        Ok(()) => {
                            ledger.put(resource);
                        },
                        Err(e) => {
                            err = Some(e);
                            proof {
                                lemma_apply_all_err_prefix(m0, dv, step, i + 1);
                            }
                        },
                    }
                },
            }
        }
        i = i + 1;
    }
    match err {
        Some(e) => {
            *ledger = snapshot;
            Err(e)
        },
        None => {
            proof {
                assert(dv.take(ids@.len() as int) =~= dv);
            }
            Ok(())
        },
    }
}

/// One step of `release_resources`: the id must be registered and the
/// resource `Suspended`; its allocation is then freed and it turns `Unused`.
pub open spec fn spec_release_step(m: Map<Seq<char>, Resource>, id: Seq<char>) -> Result<
    Map<Seq<char>, Resource>,
    ContractError,
> {
    if !m.contains_key(id) {
        Err(ContractError::NotFound)
    } else if !(m[id].status is Suspended) {
        Err(ContractError::OtherError)
    } else {
        Ok(m.insert(id, m[id].after_release()))
    }
}

/// Frees each listed resource in full; admin-gated. Fails, changing
/// nothing, on a missing id (`NotFound`) or one that is not `Suspended` at
/// its turn (`OtherError`).
#[verifier::loop_isolation(false)]
pub fn release_resources(ledger: &mut ResourceLedger, is_admin: bool, ids: Vec<String>) -> (r:
    Result<(), ContractError>)
    requires
        old(ledger).wf(),
    ensures
        final(ledger).wf(),
        !is_admin ==> r == Err::<(), ContractError>(ContractError::Unauthorized) && final(ledger)@
            == old(ledger)@,
        is_admin ==> match spec_apply_all(
            old(ledger)@,
            ids.deep_view(),
            |m: Map<Seq<char>, Resource>, id: Seq<char>| spec_release_step(m, id),
        ) {
            Ok(m) => r is Ok && final(ledger)@ == m,
            Err(e) => r == Err::<(), ContractError>(e) && final(ledger)@ == old(ledger)@,
        },
{
    let ghost step = |m: Map<Seq<char>, Resource>, id: Seq<char>| spec_release_step(m, id);
    let ghost dv = ids.deep_view();
    if !is_admin {
        return Err(ContractError::Unauthorized);
    }

    let ghost m0 = ledger@;
    let snapshot = ledger.clone();
    let mut err: Option<ContractError> = None;
    let mut i: usize = 0;
    while i < ids.len()
        invariant
            i <= ids@.len(),
            ledger.wf(),
            match err {
                None => spec_apply_all(m0, dv.take(i as int), step) == Ok::<
                    Map<Seq<char>, Resource>,
                    ContractError,
                >(ledger@),
                Some(e) => spec_apply_all(m0, dv, step) == Err::<
                    Map<Seq<char>, Resource>,
                    ContractError,
                >(e),
            },
        decreases ids@.len() - i,
    {
        if err.is_none() {
            proof {
                assert(dv.take(i + 1).drop_last() =~= dv.take(i as int));
                assert(dv[i as int] == ids@[i as int]@);
            }
            match ledger.get(&ids[i]) {
                None => {
                    err = Some(ContractError::NotFound);
                    proof {
                        lemma_apply_all_err_prefix(m0, dv, step, i + 1);
                    }
                },
                Some(mut resource) => {
                    match resource.release_resource() {
                        Ok(()) => {
                            ledger.put(resource);
                        },
                        Err(e) => {
                            err = Some(e);
                            proof {
                                lemma_apply_all_err_prefix(m0, dv, step, i + 1);
                            }
                        },
                    }
                },
            }
        }
        i = i + 1;
    }
    match err {
        Some(e) => {
            *ledger = snapshot;
            Err(e)
        },
        None => {
            proof {
                assert(dv.take(ids@.len() as int) =~= dv);
            }
            Ok(())
        },
    }
}

/// The ids paired up with the updates aimed at them, for `update_resources`.
pub open spec fn id_type_pairs(ids: Seq<String>, types: Seq<ResourceType>) -> Seq<
    (Seq<char>, ResourceType),
> {
    Seq::new(ids.len(), |i: int| (ids[i]@, types[i]))
}

/// One step of `update_resources`: the id must be registered and the
/// resource `Unused`; the named ceiling or classification is then
/// overwritten.
pub open spec fn spec_update_step(
    m: Map<Seq<char>, Resource>,
    p: (Seq<char>, ResourceType),
) -> Result<Map<Seq<char>, Resource>, ContractError> {
    if !m.contains_key(p.0) {
        Err(ContractError::NotFound)
    } else if !(m[p.0].status is Unused) {
        Err(ContractError::OtherError)
    } else {
        Ok(
            m.insert(
                p.0,
                Resource { resources_attr: m[p.0].resources_attr.updated(p.1), ..m[p.0] },
            ),
        )
    }
}

/// Applies one typed update to each listed resource; admin-gated. The two
/// vectors must pair up (`OtherError` otherwise); each id must be registered
/// (`NotFound`) and `Unused` (`OtherError`), or nothing changes.
#[verifier::loop_isolation(false)]
pub fn update_resources(
    ledger: &mut ResourceLedger,
    is_admin: bool,
    ids: Vec<String>,
    resource_types: Vec<ResourceType>,
) -> (r: Result<(), ContractError>)
    requires
        old(ledger).wf(),
    ensures
        final(ledger).wf(),
        !is_admin ==> r == Err::<(), ContractError>(ContractError::Unauthorized) && final(ledger)@
            == old(ledger)@,
        is_admin && ids@.len() != resource_types@.len() ==> r == Err::<(), ContractError>(
            ContractError::OtherError,
        ) && final(ledger)@ == old(ledger)@,
        is_admin && ids@.len() == resource_types@.len() ==> match spec_apply_all(
            old(ledger)@,
            id_type_pairs(ids@, resource_types@),
            |m: Map<Seq<char>, Resource>, p: (Seq<char>, ResourceType)| spec_update_step(m, p),
        ) {
            Ok(m) => r is Ok && final(ledger)@ == m,
            Err(e) => r == Err::<(), ContractError>(e) && final(ledger)@ == old(ledger)@,
        },
{
    let ghost step = |m: Map<Seq<char>, Resource>, p: (Seq<char>, ResourceType)|
        spec_update_step(m, p);
    let ghost dv = id_type_pairs(ids@, resource_types@);
    if !is_admin {
        return Err(ContractError::Unauthorized);
    }

    if ids.len() != resource_types.len() {
        return Err(ContractError::OtherError);
    }

    let ghost m0 = ledger@;
    let snapshot = ledger.clone();
    let mut err: Option<ContractError> = None;
    let mut i: usize = 0;
    while i < ids.len()
        invariant
            i <= ids@.len(),
            ledger.wf(),
            match err {
                None => spec_apply_all(m0, dv.take(i as int), step) == Ok::<
                    Map<Seq<char>, Resource>,
                    ContractError,
                >(ledger@),
                Some(e) => spec_apply_all(m0, dv, step) == Err::<
                    Map<Seq<char>, Resource>,
                    ContractError,
                >(e),
            },
        decreases ids@.len() - i,
    {
        if err.is_none() {
            proof {
                assert(dv.take(i + 1).drop_last() =~= dv.take(i as int));
                assert(dv[i as int] == (ids@[i as int]@, resource_types@[i as int]));
            }
            let resource_type = resource_types[i].clone();
            match ledger.get(&ids[i]) {
                None => {
                    err = Some(ContractError::NotFound);
                    proof {
                        lemma_apply_all_err_prefix(m0, dv, step, i + 1);
                    }
                },
                Some(mut resource) => {
                    match resource.update_resource(resource_type) {
                        Ok(()) => {
                            ledger.put(resource);
                        },
                        Err(e) => {
                            err = Some(e);
                            proof {
                                lemma_apply_all_err_prefix(m0, dv, step, i + 1);
                            }
                        },
                    }
                },
            }
        }
        i = i + 1;
    }
    match err {
        Some(e) => {
            *ledger = snapshot;
            Err(e)
        },
        None => {
            proof {
                assert(dv.take(ids@.len() as int) =~= dv);
            }
            Ok(())
        },
    }
}

/// One step of `delete_resources`: the id must be registered (`NotFound`)
/// and the resource `Unused` (`OtherError`); the record is then removed for
/// good.
pub open spec fn spec_delete_step(m: Map<Seq<char>, Resource>, id: Seq<char>) -> Result<
    Map<Seq<char>, Resource>,
    ContractError,
> {
    if !m.contains_key(id) {
        Err(ContractError::NotFound)
    } else if !(m[id].status is Unused) {
        Err(ContractError::OtherError)
    } else {
        Ok(m.remove(id))
    }
}

/// Unregisters each listed resource; admin-gated. Only an `Unused` resource
/// may be deleted; any failure leaves the whole ledger untouched.
#[verifier::loop_isolation(false)]
pub fn delete_resources(ledger: &mut ResourceLedger, is_admin: bool, ids: Vec<String>) -> (r:
    Result<(), ContractError>)
    requires
        old(ledger).wf(),
    ensures
        final(ledger).wf(),
        !is_admin ==> r == Err::<(), ContractError>(ContractError::Unauthorized) && final(ledger)@
            == old(ledger)@,
        is_admin ==> match spec_apply_all(
            old(ledger)@,
            ids.deep_view(),
            |m: Map<Seq<char>, Resource>, id: Seq<char>| spec_delete_step(m, id),
        ) {
            Ok(m) => r is Ok && final(ledger)@ == m,
            Err(e) => r == Err::<(), ContractError>(e) && final(ledger)@ == old(ledger)@,
        },
{
    let ghost step = |m: Map<Seq<char>, Resource>, id: Seq<char>| spec_delete_step(m, id);
    let ghost dv = ids.deep_view();
    if !is_admin {
        return Err(ContractError::Unauthorized);
    }

    let ghost m0 = ledger@;
    let snapshot = ledger.clone();
    let mut err: Option<ContractError> = None;
    let mut i: usize = 0;
    while i < ids.len()
        invariant
            i <= ids@.len(),
            ledger.wf(),
            match err {
                None => spec_apply_all(m0, dv.take(i as int), step) == Ok::<
                    Map<Seq<char>, Resource>,
                    ContractError,
                >(ledger@),
                Some(e) => spec_apply_all(m0, dv, step) == Err::<
                    Map<Seq<char>, Resource>,
                    ContractError,
                >(e),
            },
        decreases ids@.len() - i,
    {
        if err.is_none() {
            proof {
                assert(dv.take(i + 1).drop_last() =~= dv.take(i as int));
                assert(dv[i as int] == ids@[i as int]@);
            }
            match ledger.get(&ids[i]) {
                None => {
                    err = Some(ContractError::NotFound);
                    proof {
                        lemma_apply_all_err_prefix(m0, dv, step, i + 1);
                    }
                },
                Some(resource) => {
                    if resource.get_status() != Status::Unused {
                        err = Some(ContractError::OtherError);
                        proof {
                            lemma_apply_all_err_prefix(m0, dv, step, i + 1);
                        }
                    } else {
                        ledger.remove(&ids[i]);
                    }
                },
            }
        }
        i = i + 1;
    }
    match err {
        Some(e) => {
            *ledger = snapshot;
            Err(e)
        },
        None => {
            proof {
                assert(dv.take(ids@.len() as int) =~= dv);
            }
            Ok(())
        },
    }
}

/// In every registered resource, at all times, no dimension's usage exceeds
/// its capacity ceiling: the ledger invariant, which every operation above
/// preserves, pins `used <= total` for cpu, memory and bandwidth alike.
pub proof fn lemma_usage_within_capacity(ledger: ResourceLedger, k: Seq<char>)
    requires
        ledger.wf(),
        ledger@.contains_key(k),
    ensures
        ledger@[k].resources_attr.cpu.used <= ledger@[k].resources_attr.cpu.total,
        ledger@[k].resources_attr.memory.used <= ledger@[k].resources_attr.memory.total,
        ledger@[k].resources_attr.bandwidth.used <= ledger@[k].resources_attr.bandwidth.total,
{
}

} // verus!
