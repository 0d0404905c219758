//! The state of one native power request: whether it currently holds the
//! machine awake, and the reason it was created with.
//!
//! The native object itself is owned by the caller; each transition reports
//! whether the caller must issue the matching native call, so that the
//! request is set and cleared exactly once per activation.
use vstd::prelude::*;

verus! {

/// The native calls that a run of transitions makes due, starting from
/// `active`: each step is `enter` (true) or `leave` (false), and yields a set
/// call (true) or a clear call (false) exactly when `enter` or `leave`
/// reports one due.
pub open spec fn due_calls(active: bool, steps: Seq<bool>) -> Seq<bool>
    decreases steps.len(),
{
    if steps.len() == 0 {
        Seq::empty()
    } else if steps[0] != active {
        seq![steps[0]] + due_calls(steps[0], steps.drop_first())
    } else {
        due_calls(active, steps.drop_first())
    }
}

/// Whether the request is active after a run of transitions from `active`.
pub open spec fn active_after(active: bool, steps: Seq<bool>) -> bool
    decreases steps.len(),
{
    if steps.len() == 0 {
        active
    } else {
        active_after(steps[0], steps.drop_first())
    }
}

/// Over any run of transitions the due native calls alternate, the first
/// being the one that leaves the starting state, and their number is odd
/// exactly when the run changes the state.
pub proof fn lemma_due_calls_alternate(active: bool, steps: Seq<bool>)
    ensures
        forall|i: int| 0 <= i < due_calls(active, steps).len()
            ==> #[trigger] due_calls(active, steps)[i] == (if i % 2 == 0 { !active } else { active }),
        (due_calls(active, steps).len() % 2 == 1) == (active_after(active, steps) != active),
    decreases steps.len(),
{
    if steps.len() > 0 {
        let rest = steps.drop_first();
        lemma_due_calls_alternate(steps[0], rest);
        if steps[0] != active {
            let tail = due_calls(steps[0], rest);
            assert forall|i: int| 0 <= i < due_calls(active, steps).len()
                implies #[trigger] due_calls(active, steps)[i] == (if i % 2 == 0 { !active } else { active }) by {
                if i > 0 {
                    assert(due_calls(active, steps)[i] == tail[i - 1]);
                }
            }
        }
    }
}

/// Each activation of a request is deactivated exactly once: from a new
/// (inactive) request, any run of transitions that ends with `leave` (as
/// ending the last lease and teardown do) makes set and clear calls due in
/// alternation, beginning with a set, and equally many of each.
pub proof fn lemma_each_activation_cleared_once(steps: Seq<bool>)
    requires
        steps.len() > 0,
        !steps.last(),
    ensures
        forall|i: int| 0 <= i < due_calls(false, steps).len()
            ==> #[trigger] due_calls(false, steps)[i] == (i % 2 == 0),
        due_calls(false, steps).len() % 2 == 0,
{
    lemma_due_calls_alternate(false, steps);
    lemma_active_after_last(false, steps);
}

/// The state after a non-empty run is the one its last step asks for.
proof fn lemma_active_after_last(active: bool, steps: Seq<bool>)
    requires
        steps.len() > 0,
    ensures
        active_after(active, steps) == steps.last(),
    decreases steps.len(),
{
    let rest = steps.drop_first();
    assert(active_after(steps[0], rest) == active_after(active, steps));
    if steps.len() > 1 {
        lemma_active_after_last(steps[0], rest);
        assert(rest.last() == steps.last());
    } else {
        assert(active_after(steps[0], rest) == steps[0]);
    }
}

pub struct PowerRequest {
    enabled: bool,
    reason: String,
}

impl PowerRequest {
    /// Whether the request currently keeps the machine awake.
    pub closed spec fn active(&self) -> bool {
        self.enabled
    }

    /// The reason the request was created with.
    pub closed spec fn reason_view(&self) -> Seq<char> {
        self.reason@
    }

    /// A new request for `reason`, created inactive.
    pub fn new(reason: String) -> (r: PowerRequest)
        ensures
            !r.active(),
            r.reason_view() == reason@,
    {
        PowerRequest { enabled: false, reason }
    }

    pub fn reason(&self) -> (r: &str)
        ensures
            r@ == self.reason_view(),
    {
        self.reason.as_str()
    }

    pub fn is_active(&self) -> (r: bool)
        ensures
            r == self.active(),
    {
        self.enabled
    }

    /// Activates the request. Idempotent: returns whether the native "execution
    /// required" call is due, which is exactly when it was inactive.
    pub fn enter(&mut self) -> (set_due: bool)
        ensures
            final(self).active(),
            set_due == !old(self).active(),
            final(self).reason_view() == old(self).reason_view(),
    {
        if self.enabled {
            return false;
        }
        self.enabled = true;
        true
    }

    /// Deactivates the request. Idempotent: returns whether the native clear
    /// call is due, which is exactly when it was active.
    pub fn leave(&mut self) -> (clear_due: bool)
        ensures
            !final(self).active(),
            clear_due == old(self).active(),
            final(self).reason_view() == old(self).reason_view(),
    {
        if !self.enabled {
            return false;
        }
        self.enabled = false;
        true
    }
}

} // verus!
