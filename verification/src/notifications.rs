//! In-process notification store used by the renderer to show toast overlays.
//!
//! The store keeps at most [`MAX_ACTIVE`] notifications, oldest first. When a
//! new notification arrives at a full store, the oldest one is dropped.

use std::collections::VecDeque;
use std::time::SystemTime;
use vstd::prelude::*;

verus! {

/// How many notifications the store holds at once.
pub const MAX_ACTIVE: usize = 10;

#[verifier::external_type_specification]
#[verifier::external_body]
pub struct ExSystemTime(SystemTime);

/// `SystemTime`'s `Clone`: the type is `Copy`, and its clone is the same instant.
pub assume_specification[ <SystemTime as Clone>::clone ](t: &SystemTime) -> (r: SystemTime)
    ensures
        r == *t,
;

/// `SystemTime::now`: the current wall-clock time. Nothing is stated of it.
#[verifier::external_body]
fn system_time_now() -> SystemTime {
    SystemTime::now()
}

/// `SystemTime::elapsed`: the time from `t` until now in nanoseconds, or `None`
/// where the clock now reads earlier than `t`. It depends on the clock, so
/// nothing is stated of the result.
#[verifier::external_body]
fn elapsed_nanos(t: &SystemTime) -> Option<u128> {
    t.elapsed().ok().map(|d| d.as_nanos())
}

/// A single notification.
#[derive(Debug, Clone)]
pub struct Notification {
    pub id: u32,
    pub app_name: String,
    pub summary: String,
    pub body: String,
    pub created_at: SystemTime,
    /// How long the notification stays active, in milliseconds.
    pub timeout_ms: u64,
}

/// Whether a notification with the given timeout has expired, given the time
/// that elapsed since it was created (`None` where the clock went backwards).
pub open spec fn expired_after(elapsed_nanos: Option<u128>, timeout_ms: u64) -> bool {
    match elapsed_nanos {
        Some(e) => e > timeout_ms * 1_000_000,
        None => false,
    }
}

impl Notification {
    /// Whether this notification has expired, given the time that elapsed since
    /// it was created, in nanoseconds (`None` where the clock went backwards).
    pub fn is_expired_after(&self, elapsed_nanos: Option<u128>) -> (r: bool)
        ensures
            r == expired_after(elapsed_nanos, self.timeout_ms),
    {
        match elapsed_nanos {
            Some(e) => e > (self.timeout_ms as u128) * 1_000_000,
            None => false,
        }
    }

    /// Whether this notification's timeout has passed on the wall clock. The
    /// clock is read here, so nothing is stated of the result; see
    /// [`Notification::is_expired_after`] for the rule.
    pub fn is_expired(&self) -> bool {
        let e = elapsed_nanos(&self.created_at);
        self.is_expired_after(e)
    }

    fn duplicate(&self) -> (r: Notification)
        ensures
            r == *self,
    {
        Notification {
            id: self.id,
            app_name: self.app_name.clone(),
            summary: self.summary.clone(),
            body: self.body.clone(),
            created_at: self.created_at,
            timeout_ms: self.timeout_ms,
        }
    }
}

/// The id that follows `id`: one more, wrapping past `u32::MAX` to 1, so that
/// no notification ever gets the id 0.
pub open spec fn next_id_after(id: u32) -> u32 {
    if id == u32::MAX {
        1
    } else {
        (id + 1) as u32
    }
}

/// The queue after appending `n`: the oldest entry is dropped first where the
/// queue is full.
pub open spec fn queue_after_push(q: Seq<Notification>, n: Notification) -> Seq<Notification> {
    if q.len() >= MAX_ACTIVE {
        q.drop_first().push(n)
    } else {
        q.push(n)
    }
}

/// The queue without the notifications whose id is `id`.
pub open spec fn queue_without(q: Seq<Notification>, id: u32) -> Seq<Notification> {
    q.filter(|n: Notification| n.id != id)
}

/// The notifications of `q` that have not expired, where `elapsed[i]` is the
/// time that elapsed since `q[i]` was created.
pub open spec fn unexpired(q: Seq<Notification>, elapsed: Seq<Option<u128>>) -> Seq<Notification>
    decreases q.len(),
{
    if q.len() == 0 {
        q
    } else {
        let rest = unexpired(q.drop_last(), elapsed.drop_last());
        if expired_after(elapsed.last(), q.last().timeout_ms) {
            rest
        } else {
            rest.push(q.last())
        }
    }
}

/// Store of the active notifications, oldest first.
///
/// A store is one value, and the library gives it no `Clone`: a copy that
/// went its own way would not be the same store. Where several threads share
/// one store, with one queue and one id counter, the caller holds it behind a
/// lock and hands that around.
#[derive(Debug)]
pub struct NotificationStore {
    inner: VecDeque<Notification>,
    next_id: u32,
}

impl NotificationStore {
    /// The notifications in the store, oldest first.
    pub closed spec fn queue(&self) -> Seq<Notification> {
        self.inner@
    }

    /// The id that the next pushed notification gets.
    pub closed spec fn upcoming_id(&self) -> u32 {
        self.next_id
    }

    /// The store's invariant: at most [`MAX_ACTIVE`] notifications, and no id 0.
    pub open spec fn wf(&self) -> bool {
        &&& self.queue().len() <= MAX_ACTIVE
        &&& self.upcoming_id() != 0
        &&& forall|i: int| 0 <= i < self.queue().len() ==> #[trigger] self.queue()[i].id != 0
    }

    /// An empty store whose first notification gets the id 1.
    pub fn new() -> (s: Self)
        ensures
            s.wf(),
            s.queue() == Seq::<Notification>::empty(),
            s.upcoming_id() == 1,
    {
        NotificationStore { inner: VecDeque::with_capacity(MAX_ACTIVE), next_id: 1 }
    }

    /// Push a new notification and return its id. Where the store is full the
    /// oldest notification is dropped.
    pub fn push(&mut self, app: &str, summary: &str, body: &str, timeout_ms: u32) -> (id: u32)
        requires
            old(self).wf(),
        ensures
            final(self).wf(),
            id == old(self).upcoming_id(),
            id != 0,
            final(self).upcoming_id() == next_id_after(id),
            final(self).queue().len() >= 1,
            final(self).queue() == queue_after_push(
                old(self).queue(),
                final(self).queue().last(),
            ),
            final(self).queue().last().id == id,
            final(self).queue().last().app_name@ == app@,
            final(self).queue().last().summary@ == summary@,
            final(self).queue().last().body@ == body@,
            final(self).queue().last().timeout_ms == timeout_ms as u64,
    {
        let id = self.next_id;
        self.next_id = if id == u32::MAX {
            1
        } else {
            id + 1
        };
        let notif = Notification {
            id,
            app_name: String::from_str(app),
            summary: String::from_str(summary),
            body: String::from_str(body),
            created_at: system_time_now(),
            timeout_ms: timeout_ms as u64,
        };
        if self.inner.len() >= MAX_ACTIVE {
            let _ = self.inner.pop_front();
        }
        self.inner.push_back(notif);
        proof {
            let q = self.inner@;
            assert forall|i: int| 0 <= i < q.len() implies #[trigger] q[i].id != 0 by {
                if i < q.len() - 1 {
                    if old(self).inner@.len() >= MAX_ACTIVE {
                        assert(q[i] == old(self).inner@[i + 1]);
                    } else {
                        assert(q[i] == old(self).inner@[i]);
                    }
                }
            }
        }
        id
    }

    /// Dismiss every notification with the given id.
    pub fn dismiss(&mut self, id: u32)
        requires
            old(self).wf(),
        ensures
            final(self).wf(),
            final(self).queue() == queue_without(old(self).queue(), id),
            final(self).upcoming_id() == old(self).upcoming_id(),
    {
        let ghost pred = |n: Notification| n.id != id;
        let mut kept: VecDeque<Notification> = VecDeque::new();
        let len = self.inner.len();
        let mut i: usize = 0;
        while i < len
            invariant
                len == self.inner@.len(),
                i <= len,
                self.inner@ == old(self).inner@,
                self.next_id == old(self).next_id,
                pred == (|n: Notification| n.id != id),
                kept@ == self.inner@.take(i as int).filter(pred),
                kept@.len() <= i,
                forall|k: int| 0 <= k < kept@.len() ==> #[trigger] kept@[k].id != 0,
                forall|k: int| 0 <= k < self.inner@.len() ==> #[trigger] self.inner@[k].id != 0,
            decreases len - i,
        {
            let ghost before = kept@;
            if self.inner[i].id != id {
                let n = self.inner[i].duplicate();
                kept.push_back(n);
            }
            proof {
                let t = self.inner@.take(i + 1);
                assert(t.drop_last() =~= self.inner@.take(i as int));
                assert(t.last() == self.inner@[i as int]);
                reveal_with_fuel(Seq::filter, 1);
                assert(t.filter(pred) == if pred(t.last()) {
                    t.drop_last().filter(pred).push(t.last())
                } else {
                    t.drop_last().filter(pred)
                });
                if self.inner@[i as int].id != id {
                    assert(kept@ == before.push(self.inner@[i as int]));
                } else {
                    assert(kept@ == before);
                }
                assert(t.filter(pred) == kept@);
            }
            i = i + 1;
        }
        proof {
            assert(self.inner@.take(len as int) =~= self.inner@);
        }
        self.inner = kept;
    }

    /// Keep only the notifications that have not expired and return them,
    /// where `elapsed[i]` is the time since the `i`-th notification was created.
    pub fn active_given(&mut self, elapsed: &Vec<Option<u128>>) -> (r: Vec<Notification>)
        requires
            old(self).wf(),
            elapsed@.len() == old(self).queue().len(),
        ensures
            final(self).wf(),
            final(self).queue() == unexpired(old(self).queue(), elapsed@),
            r@ == final(self).queue(),
            final(self).upcoming_id() == old(self).upcoming_id(),
    {
        let mut kept: VecDeque<Notification> = VecDeque::new();
        let mut out: Vec<Notification> = Vec::new();
        let len = self.inner.len();
        let mut i: usize = 0;
        while i < len
            invariant
                len == self.inner@.len(),
                len == elapsed@.len(),
                i <= len,
                self.inner@ == old(self).inner@,
                self.next_id == old(self).next_id,
                kept@ == unexpired(self.inner@.take(i as int), elapsed@.take(i as int)),
                out@ == kept@,
                kept@.len() <= i,
                forall|k: int| 0 <= k < kept@.len() ==> #[trigger] kept@[k].id != 0,
                forall|k: int| 0 <= k < self.inner@.len() ==> #[trigger] self.inner@[k].id != 0,
            decreases len - i,
        {
            proof {
                assert(self.inner@.take(i + 1).drop_last() =~= self.inner@.take(i as int));
                assert(elapsed@.take(i + 1).drop_last() =~= elapsed@.take(i as int));
            }
            if !self.inner[i].is_expired_after(elapsed[i]) {
                let n = self.inner[i].duplicate();
                let m = self.inner[i].duplicate();
                kept.push_back(n);
                out.push(m);
            }
            i = i + 1;
        }
        proof {
            assert(self.inner@.take(len as int) =~= self.inner@);
            assert(elapsed@.take(len as int) =~= elapsed@);
        }
        self.inner = kept;
        out
    }

    /// Return all notifications that have not expired, and drop the expired ones.
    pub fn active(&mut self) -> (r: Vec<Notification>)
        requires
            old(self).wf(),
        ensures
            final(self).wf(),
            r@ == final(self).queue(),
            final(self).upcoming_id() == old(self).upcoming_id(),
            exists|e: Seq<Option<u128>>|
                e.len() == old(self).queue().len() && final(self).queue() == unexpired(
                    old(self).queue(),
                    e,
                ),
    {
        let mut elapsed: Vec<Option<u128>> = Vec::new();
        let len = self.inner.len();
        let mut i: usize = 0;
        while i < len
            invariant
                len == self.inner@.len(),
                i <= len,
                elapsed@.len() == i,
            decreases len - i,
        {
            let e = elapsed_nanos(&self.inner[i].created_at);
            elapsed.push(e);
            i = i + 1;
        }
        let r = self.active_given(&elapsed);
        r
    }

    /// Remove all notifications.
    pub fn clear(&mut self)
        requires
            old(self).wf(),
        ensures
            final(self).wf(),
            final(self).queue() == Seq::<Notification>::empty(),
            final(self).upcoming_id() == old(self).upcoming_id(),
    {
        self.inner.clear();
    }
}

/// No notification in the store keeps an id that was dismissed.
pub proof fn law_dismissed_id_gone(q: Seq<Notification>, id: u32)
    ensures
        forall|k: int| 0 <= k < queue_without(q, id).len() ==> #[trigger] queue_without(q, id)[k].id != id,
{
    let r = queue_without(q, id);
    assert forall|k: int| 0 <= k < r.len() implies #[trigger] r[k].id != id by {
        let pred = |n: Notification| n.id != id;
        assert(pred(r[k]));
    }
}

/// Dismissing an id that no notification has changes nothing.
pub proof fn law_dismiss_absent_id(q: Seq<Notification>, id: u32)
    requires
        forall|k: int| 0 <= k < q.len() ==> #[trigger] q[k].id != id,
    ensures
        queue_without(q, id) == q,
{
    lemma_filter_all(q, id);
}

proof fn lemma_filter_all(q: Seq<Notification>, id: u32)
    requires
        forall|k: int| 0 <= k < q.len() ==> #[trigger] q[k].id != id,
    ensures
        queue_without(q, id) == q,
    decreases q.len(),
{
    reveal_with_fuel(Seq::filter, 1);
    if q.len() > 0 {
        assert forall|k: int| 0 <= k < q.drop_last().len() implies #[trigger] q.drop_last()[k].id != id by {
            assert(q.drop_last()[k] == q[k]);
        }
        lemma_filter_all(q.drop_last(), id);
        assert(q.last().id != id);
        assert(q.drop_last().push(q.last()) =~= q);
    } else {
        assert(q.filter(|n: Notification| n.id != id) =~= q);
    }
}

/// Dismissing the same id twice is the same as dismissing it once.
pub proof fn law_dismiss_idempotent(q: Seq<Notification>, id: u32)
    ensures
        queue_without(queue_without(q, id), id) == queue_without(q, id),
{
    law_dismissed_id_gone(q, id);
    law_dismiss_absent_id(queue_without(q, id), id);
}

/// Dismissing a notification right after pushing it, into a store that is not
/// full and holds no notification with its id, gives back the store as it was.
pub proof fn law_push_then_dismiss(q: Seq<Notification>, n: Notification)
    requires
        q.len() < MAX_ACTIVE,
        forall|k: int| 0 <= k < q.len() ==> #[trigger] q[k].id != n.id,
    ensures
        queue_without(queue_after_push(q, n), n.id) == q,
{
    reveal_with_fuel(Seq::filter, 1);
    let p = queue_after_push(q, n);
    assert(p == q.push(n));
    assert(p.drop_last() =~= q);
    law_dismiss_absent_id(q, n.id);
}

/// The id after any id is neither 0 nor the id itself: consecutive pushes get
/// different ids, and none gets 0.
pub proof fn law_next_id(id: u32)
    ensures
        next_id_after(id) != 0,
        next_id_after(id) != id,
{
}

/// The notifications kept as active are some of those in the store, in their
/// order: never more of them, and each was in the store.
pub proof fn law_active_keeps_some(q: Seq<Notification>, elapsed: Seq<Option<u128>>)
    requires
        elapsed.len() == q.len(),
    ensures
        unexpired(q, elapsed).len() <= q.len(),
        forall|k: int| 0 <= k < unexpired(q, elapsed).len() ==> q.contains(#[trigger] unexpired(q, elapsed)[k]),
    decreases q.len(),
{
    if q.len() > 0 {
        law_active_keeps_some(q.drop_last(), elapsed.drop_last());
        let rest = unexpired(q.drop_last(), elapsed.drop_last());
        assert forall|k: int| 0 <= k < unexpired(q, elapsed).len() implies q.contains(#[trigger] unexpired(q, elapsed)[k]) by {
            if k < rest.len() {
                let x = rest[k];
                assert(q.drop_last().contains(x));
                let j = choose|j: int| 0 <= j < q.drop_last().len() && q.drop_last()[j] == x;
                assert(q[j] == x);
            } else {
                assert(unexpired(q, elapsed)[k] == q.last());
                assert(q[q.len() - 1] == q.last());
            }
        }
    }
}

/// A notification whose timeout has not passed is kept as active: with every
/// elapsed time within its timeout, nothing is dropped.
pub proof fn law_fresh_notifications_stay(q: Seq<Notification>, elapsed: Seq<Option<u128>>)
    requires
        elapsed.len() == q.len(),
        forall|k: int| 0 <= k < q.len() ==> !expired_after(#[trigger] elapsed[k], q[k].timeout_ms),
    ensures
        unexpired(q, elapsed) == q,
    decreases q.len(),
{
    if q.len() > 0 {
        assert forall|k: int| 0 <= k < q.drop_last().len() implies !expired_after(#[trigger] elapsed.drop_last()[k], q.drop_last()[k].timeout_ms) by {
            assert(elapsed.drop_last()[k] == elapsed[k]);
            assert(q.drop_last()[k] == q[k]);
        }
        law_fresh_notifications_stay(q.drop_last(), elapsed.drop_last());
        assert(!expired_after(elapsed[q.len() - 1], q[q.len() - 1].timeout_ms));
        assert(q.drop_last().push(q.last()) =~= q);
    }
}

/// A push into a store of at most ten notifications leaves at most ten: the
/// new one last, after the newest of the others in their order.
pub proof fn law_push_bounded(q: Seq<Notification>, n: Notification)
    requires
        q.len() <= MAX_ACTIVE,
    ensures
        queue_after_push(q, n).len() <= MAX_ACTIVE,
        queue_after_push(q, n).last() == n,
        queue_after_push(q, n).drop_last() == q.skip(q.len() - (queue_after_push(q, n).len() - 1)),
{
    let p = queue_after_push(q, n);
    if q.len() >= MAX_ACTIVE {
        assert(p.drop_last() =~= q.skip(1));
    } else {
        assert(p.drop_last() =~= q.skip(0));
    }
}

} // verus!
