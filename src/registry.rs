//! The lease registry: every outstanding keep-awake lease, keyed by its
//! identifier, and the one shared power request that holds the machine
//! awake while at least one lease is live.
//!
//! The request is set when the first lease is created and cleared when the
//! last one ends (or at teardown); the operations report when such a native
//! call is due, and the caller that owns the native object issues it.
use vstd::prelude::*;
use crate::access::{AccessError, access_outcome, check_access, opt_view};
use crate::order::{join, joined, sorted, sorted_copy, views};
use crate::request::PowerRequest;
use crate::token::{ID_LEN, is_token, random_alphanumeric};

verus! {

/// How many random identifiers `keep_awake` draws before it gives up.
pub const ID_ATTEMPTS: usize = 1000;

/// The views of (identifier, reason) pairs.
pub open spec fn pair_views(s: Seq<(String, String)>) -> Seq<(Seq<char>, Seq<char>)> {
    s.map_values(|p: (String, String)| (p.0@, p.1@))
}

/// No identifier occurs twice.
pub open spec fn ids_unique(s: Seq<(Seq<char>, Seq<char>)>) -> bool {
    forall|i: int, j: int| 0 <= i < s.len() && 0 <= j < s.len() && i != j ==> #[trigger] s[i].0 != #[trigger] s[j].0
}

/// Some lease has identifier `id`.
pub open spec fn has_id(s: Seq<(Seq<char>, Seq<char>)>, id: Seq<char>) -> bool {
    exists|i: int| 0 <= i < s.len() && #[trigger] s[i].0 == id
}

/// The reasons of the leases, in registry order.
pub open spec fn reasons(s: Seq<(Seq<char>, Seq<char>)>) -> Seq<Seq<char>> {
    s.map_values(|p: (Seq<char>, Seq<char>)| p.1)
}

/// Ending a lease right after creating it gives back its reason, and ending
/// it again finds nothing: in a registry with unique identifiers and no lease
/// `id`, once `(id, x)` is added, the lease with identifier `id` has reason
/// `x`, and removing it leaves a registry with no lease `id` (the one it
/// started from).
pub proof fn lemma_end_after_create(s: Seq<(Seq<char>, Seq<char>)>, id: Seq<char>, x: Seq<char>)
    requires
        ids_unique(s),
        !has_id(s, id),
    ensures
        has_id(s.push((id, x)), id),
        forall|i: int| 0 <= i < s.len() + 1 && #[trigger] s.push((id, x))[i].0 == id ==> {
            &&& s.push((id, x))[i].1 == x
            &&& s.push((id, x)).remove(i) == s
            &&& !has_id(s.push((id, x)).remove(i), id)
        },
{
    let t = s.push((id, x));
    assert(t[s.len() as int].0 == id);
    assert forall|i: int| 0 <= i < s.len() + 1 && #[trigger] t[i].0 == id implies {
        &&& t[i].1 == x
        &&& t.remove(i) == s
        &&& !has_id(t.remove(i), id)
    } by {
        if i < s.len() {
            assert(s[i].0 == id);
        }
        assert(t.remove(i) =~= s);
    }
}

/// The text of a JSON object with the given (key, string value) entries.
pub uninterp spec fn json_object_text(pairs: Seq<(Seq<char>, Seq<char>)>) -> Seq<char>;

/// Relies on `serde_json::to_string` on a string-keyed `BTreeMap` of strings:
/// the text depends on the entries alone, and such a map always serialises.
#[verifier::external_body]
fn to_json_object(pairs: &Vec<(String, String)>) -> (r: String)
    ensures
        r@ == json_object_text(pair_views(pairs@)),
{
    let map: std::collections::BTreeMap<&String, &String> = pairs.iter().map(|(k, v)| (k, v)).collect();
    serde_json::to_string(&map).expect("a map with string keys serialises")
}

/// A lease that was just created.
pub struct Created {
    /// The identifier by which the lease is ended.
    pub id: String,
    /// This was the first live lease: the native request must now be set.
    pub set_request: bool,
}

/// A lease that was just ended.
pub struct Ended {
    /// The reason the lease was created with.
    pub reason: String,
    /// This was the last live lease: the native request must now be cleared.
    pub clear_request: bool,
}

pub struct State {
    wakers: Vec<(String, String)>,
    password: Option<String>,
    request: PowerRequest,
}

impl State {
    /// The live leases as (identifier, reason), in registry order.
    pub closed spec fn leases(&self) -> Seq<(Seq<char>, Seq<char>)> {
        pair_views(self.wakers@)
    }

    /// The configured secret.
    pub closed spec fn secret(&self) -> Option<Seq<char>> {
        opt_view(self.password)
    }

    /// Whether the shared power request currently holds the machine awake.
    pub closed spec fn inhibiting(&self) -> bool {
        self.request.active()
    }

    /// Identifiers are unique, and the machine is held awake exactly while
    /// some lease is live.
    pub open spec fn wf(&self) -> bool {
        &&& ids_unique(self.leases())
        &&& self.inhibiting() == (self.leases().len() > 0)
    }

    /// An empty registry guarded by `password`, whose shared power request
    /// carries `request_reason`.
    pub fn new(password: Option<String>, request_reason: String) -> (r: State)
        ensures
            r.wf(),
            r.leases() == Seq::<(Seq<char>, Seq<char>)>::empty(),
            r.secret() == opt_view(password),
    {
        let r = State { wakers: Vec::new(), password, request: PowerRequest::new(request_reason) };
        assert(r.leases() =~= Seq::<(Seq<char>, Seq<char>)>::empty());
        r
    }

    /// Checks a caller's credential against this registry's secret.
    pub fn check_password(&self, p: Option<String>) -> (r: Result<(), AccessError>)
        ensures
            r == access_outcome(self.secret(), opt_view(p)),
    {
        check_access(&self.password, &p)
    }

    /// Whether the shared power request currently holds the machine awake.
    pub fn is_inhibiting(&self) -> (r: bool)
        ensures
            r == self.inhibiting(),
    {
        self.request.is_active()
    }

    /// The position of the lease with identifier `id`, if any.
    fn find(&self, id: &String) -> (r: Option<usize>)
        ensures
            match r {
                Some(i) => i < self.leases().len() && self.leases()[i as int].0 == id@,
                None => !has_id(self.leases(), id@),
            },
    {
        let mut i: usize = 0;
        while i < self.wakers.len()
            invariant
                i <= self.wakers@.len(),
                forall|k: int| 0 <= k < i ==> #[trigger] self.leases()[k].0 != id@,
            decreases self.wakers@.len() - i,
        {
            if self.wakers[i].0 == *id {
                return Some(i);
            }
            i = i + 1;
        }
        None
    }

    /// Creates a lease for `name` under the identifier `id`, unless a live
    /// lease already has that identifier, in which case nothing changes.
    pub fn keep_awake_with_id(&mut self, id: String, name: String) -> (r: Option<Created>)
        requires
            old(self).wf(),
        ensures
            final(self).wf(),
            final(self).secret() == old(self).secret(),
            has_id(old(self).leases(), id@) ==> r is None && *final(self) == *old(self),
            !has_id(old(self).leases(), id@) ==> (r matches Some(c) && c.id@ == id@
                && c.set_request == (old(self).leases().len() == 0)
                && final(self).leases() == old(self).leases().push((id@, name@))),
    {
        if self.find(&id).is_some() {
            return None;
        }
        let ghost before = self.leases();
        self.wakers.push((id.clone(), name));
        let set_request = self.request.enter();
        assert(self.leases() =~= before.push((id@, name@)));
        assert forall|i: int, j: int|
            0 <= i < self.leases().len() && 0 <= j < self.leases().len() && i != j
            implies #[trigger] self.leases()[i].0 != #[trigger] self.leases()[j].0 by {
            if i == before.len() {
                assert(before[j].0 != id@);
            } else if j == before.len() {
                assert(before[i].0 != id@);
            }
        }
        Some(Created { id, set_request })
    }

    /// Creates a lease for `name` under a fresh random identifier, drawing
    /// again while the identifier drawn is taken. Succeeds whenever no live
    /// lease has an identifier of the drawn shape (an empty registry, say);
    /// otherwise gives up, changing nothing, after `ID_ATTEMPTS` taken draws.
    pub fn keep_awake(&mut self, name: String) -> (r: Option<Created>)
        requires
            old(self).wf(),
        ensures
            final(self).wf(),
            final(self).secret() == old(self).secret(),
            (forall|i: int| 0 <= i < old(self).leases().len() ==> !is_token(#[trigger] old(self).leases()[i].0))
                ==> r is Some,
            r is None ==> *final(self) == *old(self),
            r matches Some(c) ==> is_token(c.id@) && !has_id(old(self).leases(), c.id@)
                && c.set_request == (old(self).leases().len() == 0)
                && final(self).leases() == old(self).leases().push((c.id@, name@)),
    {
        let mut attempt: usize = 0;
        while attempt < ID_ATTEMPTS
            invariant
                *self == *old(self),
                self.wf(),
                (forall|i: int| 0 <= i < old(self).leases().len() ==> !is_token(#[trigger] old(self).leases()[i].0))
                    ==> attempt == 0,
            decreases ID_ATTEMPTS - attempt,
        {
            let id = random_alphanumeric(ID_LEN);
            let r = self.keep_awake_with_id(id, name.clone());
            if r.is_some() {
                return r;
            }
            attempt = attempt + 1;
        }
        None
    }

    /// Ends the lease with identifier `id` and returns it, or returns `None`,
    /// changing nothing, when no live lease has that identifier.
    pub fn task_done(&mut self, id: String) -> (r: Option<Ended>)
        requires
            old(self).wf(),
        ensures
            final(self).wf(),
            final(self).secret() == old(self).secret(),
            !has_id(old(self).leases(), id@) ==> r is None && *final(self) == *old(self),
            has_id(old(self).leases(), id@) ==> exists|i: int|
                0 <= i < old(self).leases().len() && #[trigger] old(self).leases()[i].0 == id@
                && (r matches Some(e) && e.reason@ == old(self).leases()[i].1
                && final(self).leases() == old(self).leases().remove(i)
                && e.clear_request == (final(self).leases().len() == 0)),
    {
        match self.find(&id) {
            None => None,
            Some(i) => {
                let ghost before = self.leases();
                let (_, reason) = self.wakers.remove(i);
                assert(self.leases() =~= before.remove(i as int));
                let clear_request = if self.wakers.len() == 0 {
                    self.request.leave()
                } else {
                    false
                };
                assert forall|a: int, b: int|
                    0 <= a < self.leases().len() && 0 <= b < self.leases().len() && a != b
                    implies #[trigger] self.leases()[a].0 != #[trigger] self.leases()[b].0 by {
                    let a2 = if a < i { a } else { a + 1 };
                    let b2 = if b < i { b } else { b + 1 };
                    assert(before[a2].0 != before[b2].0);
                }
                Some(Ended { reason, clear_request })
            },
        }
    }

    /// Ends every lease at teardown; returns whether the native request must
    /// now be cleared, which is exactly when some lease was live.
    pub fn release_all(&mut self) -> (clear_request: bool)
        requires
            old(self).wf(),
        ensures
            final(self).wf(),
            final(self).secret() == old(self).secret(),
            final(self).leases().len() == 0,
            !final(self).inhibiting(),
            clear_request == (old(self).leases().len() > 0),
    {
        self.wakers.clear();
        assert(self.leases() =~= Seq::<(Seq<char>, Seq<char>)>::empty());
        self.request.leave()
    }

    /// The reasons of all live leases, sorted, duplicates kept.
    pub fn list_reasons(&self) -> (r: Vec<String>)
        ensures
            sorted(views(r@)),
            views(r@).to_multiset() == reasons(self.leases()).to_multiset(),
            r@.len() == self.leases().len(),
    {
        let mut rs: Vec<String> = Vec::new();
        let mut i: usize = 0;
        while i < self.wakers.len()
            invariant
                i <= self.wakers@.len(),
                views(rs@) == reasons(self.leases()).take(i as int),
            decreases self.wakers@.len() - i,
        {
            let x = self.wakers[i].1.clone();
            assert(x@ == self.leases()[i as int].1);
            let ghost prev = rs@;
            rs.push(x);
            assert(rs@ == prev.push(x));
            assert(views(rs@) =~= views(prev).push(x@));
            assert(reasons(self.leases()).take(i + 1) =~= reasons(self.leases()).take(i as int).push(x@));
            i = i + 1;
        }
        assert(reasons(self.leases()).take(i as int) =~= reasons(self.leases()));
        let r = sorted_copy(&rs);
        proof {
            broadcast use vstd::seq_lib::group_to_multiset_ensures;
            assert(views(r@).to_multiset().len() == views(rs@).to_multiset().len());
            assert(views(r@).len() == views(rs@).len());
        }
        r
    }

    /// The sorted reasons of all live leases, separated by ", ".
    pub fn list_wakers(&self) -> (r: String)
        ensures
            exists|rs: Seq<Seq<char>>|
                sorted(rs) && rs.to_multiset() == reasons(self.leases()).to_multiset()
                && r@ == joined(rs, ", "@),
    {
        let rs = self.list_reasons();
        let r = join(&rs, ", ");
        proof { reveal_strlit(", "); }
        r
    }

    /// Every live lease as an (identifier, reason) pair.
    pub fn list_wakers_map(&self) -> (r: Vec<(String, String)>)
        ensures
            pair_views(r@) == self.leases(),
    {
        let mut out: Vec<(String, String)> = Vec::new();
        let mut i: usize = 0;
        while i < self.wakers.len()
            invariant
                i <= self.wakers@.len(),
                pair_views(out@) == self.leases().take(i as int),
            decreases self.wakers@.len() - i,
        {
            let (id, reason) = (self.wakers[i].0.clone(), self.wakers[i].1.clone());
            assert(id@ == self.leases()[i as int].0 && reason@ == self.leases()[i as int].1);
            let ghost prev = out@;
            out.push((id, reason));
            assert(out@ == prev.push((id, reason)));
            assert(pair_views(out@) =~= pair_views(prev).push((id@, reason@)));
            assert(self.leases().take(i + 1) =~= self.leases().take(i as int).push((id@, reason@)));
            i = i + 1;
        }
        assert(self.leases().take(i as int) =~= self.leases());
        out
    }

    /// Every live lease as a JSON object from identifier to reason.
    pub fn list_wakers_json(&self) -> (r: String)
        ensures
            r@ == json_object_text(self.leases()),
    {
        let pairs = self.list_wakers_map();
        to_json_object(&pairs)
    }
}

} // verus!
