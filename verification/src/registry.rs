use vstd::prelude::*;

verus! {

/// A long-lived server-to-client push channel. The server only ever hands a
/// whole text message to a connection; a send either succeeds or fails as a
/// unit, and a failed send marks the connection as dead.
///
/// The process embedding this library implements it for its real transport
/// (a websocket behind a channel); tests implement it with in-memory fakes.
/// A send needs only shared access: the handle itself is not consumed or
/// reshaped by sending.
///
/// No contract binds an implementation — what a connection does with a
/// message lies outside the verified boundary. The registry's contracts
/// therefore speak of entries and evictions, never of delivery; delivery is
/// exercised by the tests' fakes.
pub trait PushConnection {
    /// Deliver one text message over the connection.
    fn send_text(&self, message: &String) -> Result<(), ()>;
}

/// Relies on uuid::Uuid::new_v4 for a freshly drawn random version-4
/// identifier, taken as its 128-bit value. Nothing is promised of the value:
/// the registry itself checks it against the identifiers already present.
#[verifier::external_body]
fn new_client_id() -> (id: u128) {
    uuid::Uuid::new_v4().as_u128()
}

/// The registry of live push connections: a mapping from generated
/// identifier to connection. Entries are added when a client connects and
/// removed when a send fails or the client is explicitly dropped. No ordering
/// is guaranteed across entries.
pub struct WebsocketManager<C> {
    clients: Vec<(u128, C)>,
}

impl<C> WebsocketManager<C> {
    /// The identifiers currently registered, one per entry.
    pub closed spec fn ids(&self) -> Seq<u128> {
        self.clients@.map_values(|e: (u128, C)| e.0)
    }

    /// Whether `id` names a registered connection.
    pub closed spec fn contains_id(&self, id: u128) -> bool {
        self.ids().contains(id)
    }

    /// Whether the pair `e` — an identifier with its connection — is an
    /// entry of the registry.
    pub closed spec fn has_entry(&self, e: (u128, C)) -> bool {
        self.clients@.contains(e)
    }

    /// The number of registered connections.
    pub closed spec fn client_count(&self) -> nat {
        self.clients@.len()
    }

    /// Well-formedness: every registered identifier is distinct, so an
    /// identifier names at most one connection.
    pub closed spec fn wf(&self) -> bool {
        self.ids().no_duplicates()
    }

    /// What one broadcast pass does to the registry: the evicted identifiers
    /// are distinct, each named a registered connection, exactly the
    /// non-evicted entries remain — each surviving identifier still paired
    /// with the very connection it was registered with — and the counts add
    /// up.
    pub open spec fn broadcast_outcome(pre: Self, post: Self, removed: Seq<u128>) -> bool {
        &&& post.wf()
        &&& removed.no_duplicates()
        &&& forall|x: u128| removed.contains(x) ==> pre.contains_id(x)
        &&& forall|x: u128| post.contains_id(x) <==> (pre.contains_id(x) && !removed.contains(x))
        &&& forall|e: (u128, C)| post.has_entry(e) <==> (pre.has_entry(e) && !removed.contains(e.0))
        &&& post.client_count() + removed.len() == pre.client_count()
    }

    pub fn new() -> (m: Self)
        ensures
            m.wf(),
            m.client_count() == 0,
    {
        WebsocketManager { clients: Vec::new() }
    }

    /// The number of registered connections.
    pub fn count(&self) -> (n: usize)
        ensures
            n == self.client_count(),
    {
        self.clients.len()
    }

    /// The index of the entry registered under `id`, if any.
    fn index_of_id(&self, id: u128) -> (r: Option<usize>)
        ensures
            match r {
                Some(i) => i < self.clients@.len() && self.ids()[i as int] == id,
                None => !self.contains_id(id),
            },
    {
        let mut j: usize = 0;
        while j < self.clients.len()
            invariant
                j <= self.clients@.len(),
                forall|k: int| 0 <= k < j ==> self.ids()[k] != id,
            decreases self.clients@.len() - j,
        {
            if self.clients[j].0 == id {
                return Some(j);
            }
            j += 1;
        }
        None
    }

    /// Register a connection under a freshly generated identifier and return
    /// that identifier. When the drawn identifier is new — the collision case
    /// is never expected of a 128-bit random draw — the registry grows by one
    /// entry; a colliding draw replaces the previous holder, as a map
    /// insertion would.
    pub fn add_client(&mut self, conn: C) -> (id: u128)
        requires
            old(self).wf(),
        ensures
            final(self).wf(),
            final(self).contains_id(id),
            final(self).has_entry((id, conn)),
            forall|x: u128|
                x != id ==> (final(self).contains_id(x) <==> old(self).contains_id(x)),
            forall|e: (u128, C)|
                e.0 != id ==> (final(self).has_entry(e) <==> old(self).has_entry(e)),
            !old(self).contains_id(id) ==> final(self).client_count() == old(
                self,
            ).client_count() + 1,
            old(self).contains_id(id) ==> final(self).client_count() == old(self).client_count(),
    {
        let id = new_client_id();
        self.remove_client(id);
        let ghost mid = *self;
        self.clients.push((id, conn));
        proof {
            assert(self.ids() =~= mid.ids().push(id));
            assert(self.ids()[mid.ids().len() as int] == id);
            assert(self.clients@[mid.clients@.len() as int] == (id, conn));
            assert(self.clients@.contains((id, conn)));
            assert forall|e: (u128, C)| e.0 != id implies (self.clients@.contains(e)
                <==> mid.clients@.contains(e)) by {
                if self.clients@.contains(e) {
                    let k = choose|k: int| 0 <= k < self.clients@.len() && self.clients@[k] == e;
                    assert(k < mid.clients@.len());
                    assert(mid.clients@[k] == e);
                }
                if mid.clients@.contains(e) {
                    let k = choose|k: int| 0 <= k < mid.clients@.len() && mid.clients@[k] == e;
                    assert(self.clients@[k] == e);
                }
            }
            assert forall|x: u128| x != id implies (self.contains_id(x) <==> mid.contains_id(
                x,
            )) by {
                if self.contains_id(x) {
                    let k = choose|k: int| 0 <= k < self.ids().len() && self.ids()[k] == x;
                    assert(k < mid.ids().len());
                    assert(mid.ids()[k] == x);
                }
                if mid.contains_id(x) {
                    let k = choose|k: int| 0 <= k < mid.ids().len() && mid.ids()[k] == x;
                    assert(self.ids()[k] == x);
                }
            }
        }
        id
    }

    /// Drop the connection registered under `id`, if any. Removing an absent
    /// identifier is a no-op, so removal is idempotent.
    pub fn remove_client(&mut self, id: u128)
        requires
            old(self).wf(),
        ensures
            final(self).wf(),
            !final(self).contains_id(id),
            forall|x: u128|
                x != id ==> (final(self).contains_id(x) <==> old(self).contains_id(x)),
            forall|e: (u128, C)|
                final(self).has_entry(e) <==> (old(self).has_entry(e) && e.0 != id),
            old(self).contains_id(id) ==> final(self).client_count() == old(
                self,
            ).client_count() - 1,
            !old(self).contains_id(id) ==> *final(self) == *old(self),
    {
        match self.index_of_id(id) {
            Some(i) => {
                let ghost before = self.clients@;
                self.clients.remove(i);
                proof {
                    assert(self.ids() =~= before.map_values(|e: (u128, C)| e.0).remove(i as int));
                    let orig_ids_p = before.map_values(|e: (u128, C)| e.0);
                    assert(orig_ids_p[i as int] == id);
                    assert(orig_ids_p.no_duplicates());
                    assert forall|e: (u128, C)| self.clients@.contains(e) <==> (before.contains(e)
                        && e.0 != id) by {
                        if self.clients@.contains(e) {
                            let k = choose|k: int|
                                0 <= k < self.clients@.len() && self.clients@[k] == e;
                            if k < i {
                                assert(before[k] == e);
                                assert(orig_ids_p[k] == e.0);
                                assert(k != i);
                            } else {
                                assert(before[k + 1] == e);
                                assert(orig_ids_p[k + 1] == e.0);
                                assert(k + 1 != i);
                            }
                            assert(before.contains(e));
                            assert(e.0 != id);
                        }
                        if before.contains(e) && e.0 != id {
                            let k = choose|k: int| 0 <= k < before.len() && before[k] == e;
                            assert(orig_ids_p[k] == e.0);
                            assert(k != i);
                            if k < i {
                                assert(self.clients@[k] == e);
                            } else {
                                assert(self.clients@[k - 1] == e);
                            }
                            assert(self.clients@.contains(e));
                        }
                    }
                    assert forall|x: u128| x != id implies (self.contains_id(x) <==> before.map_values(
                        |e: (u128, C)| e.0,
                    ).contains(x)) by {
                        let orig_ids = before.map_values(|e: (u128, C)| e.0);
                        if self.contains_id(x) {
                            let k = choose|k: int| 0 <= k < self.ids().len() && self.ids()[k] == x;
                            if k < i {
                                assert(orig_ids[k] == x);
                            } else {
                                assert(orig_ids[k + 1] == x);
                            }
                        }
                        if orig_ids.contains(x) {
                            let k = choose|k: int| 0 <= k < orig_ids.len() && orig_ids[k] == x;
                            if k < i {
                                assert(self.ids()[k] == x);
                            } else {
                                assert(k > i);
                                assert(self.ids()[k - 1] == x);
                            }
                        }
                    }
                }
            },
            None => {
                proof {
                    assert forall|e: (u128, C)| self.clients@.contains(e) implies e.0 != id by {
                        let k = choose|k: int|
                            0 <= k < self.clients@.len() && self.clients@[k] == e;
                        assert(self.ids()[k] == e.0);
                        assert(self.contains_id(e.0));
                    }
                }
            },
        }
    }
}

impl<C> Default for WebsocketManager<C> {
    /// An empty registry.
    fn default() -> (m: Self)
        ensures
            m.wf(),
            m.client_count() == 0,
    {
        WebsocketManager::new()
    }
}

/// Whether `x` occurs in `v`.
fn contains_u128(v: &Vec<u128>, x: u128) -> (r: bool)
    ensures
        r <==> v@.contains(x),
{
    let mut j: usize = 0;
    while j < v.len()
        invariant
            j <= v@.len(),
            forall|k: int| 0 <= k < j ==> v@[k] != x,
        decreases v@.len() - j,
    {
        if v[j] == x {
            return true;
        }
        j += 1;
    }
    false
}

impl<C: PushConnection> WebsocketManager<C> {
    /// Fan-out: deliver `message` to every registered connection, then evict
    /// every connection whose send failed. The send pass never mutates the
    /// registry; eviction happens only after the pass completes. A failed
    /// send is contained to its own connection: broadcasting itself never
    /// fails, and the returned identifiers are exactly the evicted ones.
    pub fn broadcast(&mut self, message: &String) -> (removed: Vec<u128>)
        requires
            old(self).wf(),
        ensures
            WebsocketManager::broadcast_outcome(*old(self), *final(self), removed@),
    {
        let ghost orig = *self;
        let mut removed: Vec<u128> = Vec::new();
        let n = self.clients.len();
        let mut i: usize = 0;
        while i < n
            invariant
                n == self.clients@.len(),
                i <= n,
                *self == orig,
                self.wf(),
                removed@.no_duplicates(),
                forall|x: u128| removed@.contains(x) ==> orig.contains_id(x),
            decreases n - i,
        {
            let failed = self.clients[i].1.send_text(message).is_err();
            if failed {
                let id = self.clients[i].0;
                if !contains_u128(&removed, id) {
                    let ghost prev = removed@;
                    removed.push(id);
                    proof {
                        assert(orig.ids()[i as int] == id);
                        assert(orig.contains_id(id));
                        assert forall|x: u128| removed@.contains(x) implies orig.contains_id(
                            x,
                        ) by {
                            if x != id {
                                let j = choose|j: int|
                                    0 <= j < removed@.len() && removed@[j] == x;
                                assert(j < prev.len());
                                assert(prev[j] == x);
                                assert(prev.contains(x));
                            }
                        }
                        assert(removed@ =~= prev.push(id));
                        assert forall|a: int, b: int|
                            0 <= a < b < removed@.len() implies removed@[a] != removed@[b] by {
                            if b < prev.len() {
                                assert(prev[a] != prev[b]);
                            } else {
                                assert(removed@[b] == id);
                                assert(removed@[a] == prev[a]);
                                assert(prev.contains(prev[a]));
                                assert(!prev.contains(id));
                            }
                        }
                    }
                }
            }
            i += 1;
        }
        let mut k: usize = 0;
        while k < removed.len()
            invariant
                k <= removed@.len(),
                self.wf(),
                removed@.no_duplicates(),
                forall|x: u128| removed@.contains(x) ==> orig.contains_id(x),
                forall|x: u128|
                    self.contains_id(x) <==> (orig.contains_id(x) && !removed@.subrange(
                        0,
                        k as int,
                    ).contains(x)),
                forall|e: (u128, C)|
                    #![trigger orig.has_entry(e)]
                    self.has_entry(e) <==> (orig.has_entry(e) && !removed@.subrange(
                        0,
                        k as int,
                    ).contains(e.0)),
                self.client_count() + k == orig.client_count(),
            decreases removed@.len() - k,
        {
            let id = removed[k];
            proof {
                assert(removed@[k as int] == id);
                assert(removed@.contains(id));
                if removed@.subrange(0, k as int).contains(id) {
                    let j = choose|j: int|
                        0 <= j < k && removed@.subrange(0, k as int)[j] == id;
                    assert(removed@[j] == removed@[k as int]);
                    assert(false);
                }
                assert(self.contains_id(id));
            }
            let ghost prev_self = *self;
            let ghost prev_k = k as int;
            self.remove_client(id);
            k += 1;
            proof {
                let kk = k as int;
                assert(kk == prev_k + 1);
                let sub_old = removed@.subrange(0, prev_k);
                let sub_new = removed@.subrange(0, kk);
                assert(sub_new =~= sub_old.push(id));
                assert(sub_new[prev_k] == id);
                assert(sub_new.contains(id));
                assert forall|y: u128|
                    y != id implies (sub_new.contains(y) <==> sub_old.contains(y)) by {
                    if sub_new.contains(y) {
                        let j = choose|j: int| 0 <= j < sub_new.len() && sub_new[j] == y;
                        assert(j < sub_old.len());
                        assert(sub_old[j] == y);
                    }
                    if sub_old.contains(y) {
                        let j = choose|j: int| 0 <= j < sub_old.len() && sub_old[j] == y;
                        assert(sub_new[j] == y);
                    }
                }
                assert forall|x: u128| self.contains_id(x) <==> (orig.contains_id(x)
                    && !removed@.subrange(0, kk).contains(x)) by {
                    if x == id {
                        assert(!self.contains_id(id));
                    } else {
                        assert(prev_self.contains_id(x) <==> (orig.contains_id(x)
                            && !sub_old.contains(x)));
                        assert(self.contains_id(x) <==> prev_self.contains_id(x));
                        assert(sub_new.contains(x) <==> sub_old.contains(x));
                    }
                }
                assert forall|e: (u128, C)|
                    #![trigger orig.has_entry(e)]
                    self.has_entry(e) <==> (orig.has_entry(e) && !removed@.subrange(
                        0,
                        kk,
                    ).contains(e.0)) by {
                    assert(self.has_entry(e) <==> (prev_self.has_entry(e) && e.0 != id));
                    if e.0 != id {
                        assert(prev_self.has_entry(e) <==> (orig.has_entry(e)
                            && !sub_old.contains(e.0)));
                        assert(sub_new.contains(e.0) <==> sub_old.contains(e.0));
                    }
                }
            }
        }
        proof {
            assert(removed@.subrange(0, removed@.len() as int) =~= removed@);
        }
        removed
    }
}

/// Law: registering a connection and then immediately dropping it under the
/// identifier that registration returned leaves the registry exactly as it
/// was — same size, same membership — provided the freshly drawn identifier
/// did not collide with one already present. `before` is the registry before
/// the registration, `mid` the state after `add_client` returned `id`, and
/// `after` the state after `remove_client(id)`; the premises are the
/// contracts of those two calls.
pub proof fn lemma_add_then_remove_restores_registry<C>(
    before: WebsocketManager<C>,
    mid: WebsocketManager<C>,
    after: WebsocketManager<C>,
    id: u128,
)
    requires
        before.wf(),
        !before.contains_id(id),
        mid.wf(),
        mid.contains_id(id),
        forall|x: u128| x != id ==> (mid.contains_id(x) <==> before.contains_id(x)),
        mid.client_count() == before.client_count() + 1,
        after.wf(),
        !after.contains_id(id),
        forall|x: u128| x != id ==> (after.contains_id(x) <==> mid.contains_id(x)),
        after.client_count() == mid.client_count() - 1,
    ensures
        after.client_count() == before.client_count(),
        forall|x: u128| after.contains_id(x) <==> before.contains_id(x),
{
}

} // verus!
