//! Toast notifications: transient, non-blocking messages.
//!
//! Info, Warning and Error toasts dismiss themselves after a while; Progress
//! toasts stay until their download reports done. Times are nanosecond readings
//! of the caller's monotonic clock; toast IDs come from the caller's counter.

use vstd::prelude::*;

use std::sync::atomic::{AtomicBool, AtomicU64};
use std::sync::Arc;

use crate::frame_pacer::since;

verus! {

/// How long each kind of toast stays: 3 s, 5 s, 6 s, and an hour for progress.
pub const INFO_DURATION: u64 = 3_000_000_000;

pub const WARNING_DURATION: u64 = 5_000_000_000;

pub const ERROR_DURATION: u64 = 6_000_000_000;

pub const PROGRESS_DURATION: u64 = 3_600_000_000_000;

/// At most this many toasts are shown at once.
pub const MAX_TOASTS: usize = 5;

/// Severity level for a toast notification.
#[derive(Debug, Clone, Copy, PartialEq, Eq, Structural)]
pub enum ToastLevel {
    Info,
    Warning,
    Error,
    /// Sticky progress toast — stays until explicitly dismissed.
    Progress,
}

/// A single toast notification.
#[derive(Clone)]
pub struct Toast {
    pub message: String,
    pub level: ToastLevel,
    /// When it was created.
    pub created: u64,
    /// How long it stays.
    pub duration: u64,
    /// For Progress toasts: shared counter of bytes downloaded.
    pub progress_bytes: Option<Arc<AtomicU64>>,
    /// For Progress toasts: shared counter of total bytes.
    pub progress_total: Option<Arc<AtomicU64>>,
    /// For Progress toasts: flag to dismiss when done.
    pub progress_done: Option<Arc<AtomicBool>>,
    /// Unique ID for toast management.
    pub id: u64,
}

/// A plain toast of the given level, message, lifetime, ID and creation time.
pub open spec fn plain_toast(t: Toast, level: ToastLevel, message: Seq<char>, duration: u64, id: u64, now: u64) -> bool {
    &&& t.level == level
    &&& t.message@ == message
    &&& t.duration == duration
    &&& t.created == now
    &&& t.id == id
    &&& t.progress_bytes is None
    &&& t.progress_total is None
    &&& t.progress_done is None
}

impl Toast {
    fn plain(message: String, level: ToastLevel, duration: u64, id: u64, now: u64) -> (r: Self)
        ensures
            plain_toast(r, level, message@, duration, id, now),
    {
        Toast {
            message,
            level,
            created: now,
            duration,
            progress_bytes: None,
            progress_total: None,
            progress_done: None,
            id,
        }
    }

    pub fn info(message: String, id: u64, now: u64) -> (r: Self)
        ensures
            plain_toast(r, ToastLevel::Info, message@, INFO_DURATION, id, now),
    {
        Self::plain(message, ToastLevel::Info, INFO_DURATION, id, now)
    }

    pub fn warning(message: String, id: u64, now: u64) -> (r: Self)
        ensures
            plain_toast(r, ToastLevel::Warning, message@, WARNING_DURATION, id, now),
    {
        Self::plain(message, ToastLevel::Warning, WARNING_DURATION, id, now)
    }

    pub fn error(message: String, id: u64, now: u64) -> (r: Self)
        ensures
            plain_toast(r, ToastLevel::Error, message@, ERROR_DURATION, id, now),
    {
        Self::plain(message, ToastLevel::Error, ERROR_DURATION, id, now)
    }

    /// Create a sticky progress toast that tracks download progress.
    /// It will stay visible until `progress_done` is set to true.
    pub fn progress(
        message: String,
        downloaded: Arc<AtomicU64>,
        total: Arc<AtomicU64>,
        done: Arc<AtomicBool>,
        id: u64,
        now: u64,
    ) -> (r: Self)
        ensures
            r.level == ToastLevel::Progress,
            r.message@ == message@,
            r.duration == PROGRESS_DURATION,
            r.created == now,
            r.id == id,
            r.progress_bytes == Some(downloaded),
            r.progress_total == Some(total),
            r.progress_done == Some(done),
    {
        Toast {
            message,
            level: ToastLevel::Progress,
            created: now,
            duration: PROGRESS_DURATION,
            progress_bytes: Some(downloaded),
            progress_total: Some(total),
            progress_done: Some(done),
            id,
        }
    }

    /// Returns true if the toast has expired at time `now` and should be removed.
    pub fn is_expired(&self, now: u64) -> (r: bool)
        ensures
            r == (since(now, self.created) >= self.duration),
    {
        let elapsed = if now >= self.created {
            now - self.created
        } else {
            0
        };
        elapsed >= self.duration
    }
}

/// The queue after a push: the oldest toast gives way when five are shown.
pub open spec fn pushed_queue<T>(q: Seq<T>, t: T) -> Seq<T> {
    if q.len() >= MAX_TOASTS {
        q.drop_first().push(t)
    } else {
        q.push(t)
    }
}

/// Hands out toast IDs, counting up from 1.
pub struct ToastIds {
    next: u64,
}

impl ToastIds {
    /// The ID the next call of `next_id` gives.
    pub closed spec fn upcoming(&self) -> u64 {
        self.next
    }

    pub fn new() -> (r: Self)
        ensures
            r.upcoming() == 1,
    {
        ToastIds { next: 1 }
    }

    /// A fresh ID: the counter's value, which then goes up by one (wrapping past
    /// the largest `u64`).
    pub fn next_id(&mut self) -> (r: u64)
        ensures
            r == old(self).upcoming(),
            final(self).upcoming() == (if old(self).upcoming() < u64::MAX {
                old(self).upcoming() + 1
            } else {
                0
            }),
    {
        let id = self.next;
        self.next = self.next.wrapping_add(1);
        id
    }
}

/// Manages a queue of active toasts.
pub struct ToastManager {
    toasts: Vec<Toast>,
}

impl View for ToastManager {
    type V = Seq<Toast>;

    closed spec fn view(&self) -> Seq<Toast> {
        self.toasts@
    }
}

impl ToastManager {
    pub fn new() -> (r: Self)
        ensures
            r@.len() == 0,
    {
        ToastManager { toasts: Vec::new() }
    }

    /// The active toasts, oldest first.
    pub fn toasts(&self) -> (r: &[Toast])
        ensures
            r@ == self@,
    {
        self.toasts.as_slice()
    }

    /// Push a new toast notification.
    pub fn push(&mut self, toast: Toast)
        ensures
            final(self)@ == pushed_queue(old(self)@, toast),
    {
        if self.toasts.len() >= MAX_TOASTS {
            self.toasts.remove(0);
        }
        self.toasts.push(toast);
    }

    /// Convenience: push an info toast.
    pub fn info(&mut self, message: String, id: u64, now: u64)
        ensures
            final(self)@ == pushed_queue(old(self)@, final(self)@.last()),
            plain_toast(final(self)@.last(), ToastLevel::Info, message@, INFO_DURATION, id, now),
    {
        self.push(Toast::info(message, id, now));
    }

    /// Convenience: push a warning toast.
    pub fn warning(&mut self, message: String, id: u64, now: u64)
        ensures
            final(self)@ == pushed_queue(old(self)@, final(self)@.last()),
            plain_toast(
                final(self)@.last(),
                ToastLevel::Warning,
                message@,
                WARNING_DURATION,
                id,
                now,
            ),
    {
        self.push(Toast::warning(message, id, now));
    }

    /// Convenience: push an error toast.
    pub fn error(&mut self, message: String, id: u64, now: u64)
        ensures
            final(self)@ == pushed_queue(old(self)@, final(self)@.last()),
            plain_toast(final(self)@.last(), ToastLevel::Error, message@, ERROR_DURATION, id, now),
    {
        self.push(Toast::error(message, id, now));
    }

    /// Drops the toasts that are over at time `now`: a progress toast when its
    /// download is done (`done[i]` for toast `i`), any other when it has expired.
    pub fn retain_active(&mut self, now: u64, done: &[bool])
        requires
            done@.len() == old(self)@.len(),
        ensures
            final(self)@ == active_toasts(old(self)@, done@, now),
    {
        let ghost q = self.toasts@;
        let mut kept: Vec<Toast> = Vec::new();
        let mut rest = Vec::new();
        std::mem::swap(&mut rest, &mut self.toasts);
        let mut i: usize = 0;
        let n = rest.len();
        while rest.len() > 0
            invariant
                n == q.len(),
                done@.len() == q.len(),
                i + rest@.len() == n,
                rest@ == q.subrange(i as int, n as int),
                kept@ == active_toasts(q.subrange(0, i as int), done@, now),
            decreases rest@.len(),
        {
            let t = rest.remove(0);
            assert(q.subrange(0, i + 1).drop_last() =~= q.subrange(0, i as int));
            let keep = if t.level == ToastLevel::Progress {
                !done[i]
            } else {
                !t.is_expired(now)
            };
            if keep {
                kept.push(t);
            }
            i += 1;
            assert(rest@ =~= q.subrange(i as int, n as int));
        }
        assert(q.subrange(0, n as int) =~= q);
        self.toasts = kept;
    }
}

/// Whether toast `i` of the queue is still active at time `now`.
pub open spec fn still_active(t: Toast, done: bool, now: u64) -> bool {
    if t.level == ToastLevel::Progress {
        !done
    } else {
        since(now, t.created) < t.duration
    }
}

/// The toasts still active at `now`, in order; `done` tells, position by
/// position, whether a progress toast's download is done.
pub open spec fn active_toasts(q: Seq<Toast>, done: Seq<bool>, now: u64) -> Seq<Toast>
    decreases q.len(),
{
    if q.len() == 0 {
        Seq::empty()
    } else {
        let rest = active_toasts(q.drop_last(), done, now);
        if still_active(q.last(), done[q.len() - 1], now) {
            rest.push(q.last())
        } else {
            rest
        }
    }
}

impl Default for ToastManager {
    fn default() -> (r: Self)
        ensures
            r@.len() == 0,
    {
        Self::new()
    }
}

/// Info toasts stay three seconds, warnings five, errors six; a toast other than a
/// progress toast is active until that long after it was made (a clock reading
/// before its creation counts as no time passed), while a progress toast stays
/// exactly until its download is done.
pub proof fn lemma_toast_lifetimes(t: Toast, done: bool, now: u64)
    ensures
        INFO_DURATION == 3_000_000_000,
        WARNING_DURATION == 5_000_000_000,
        ERROR_DURATION == 6_000_000_000,
        PROGRESS_DURATION == 3_600_000_000_000,
        t.level != ToastLevel::Progress ==> (still_active(t, done, now) <==> (if now
            >= t.created {
            now - t.created
        } else {
            0
        }) < t.duration),
        t.level == ToastLevel::Progress ==> (still_active(t, done, now) <==> !done),
{
}

/// Clearing out finished toasts keeps exactly the active ones, in their order.
pub proof fn lemma_active_toasts_kept(q: Seq<Toast>, done: Seq<bool>, now: u64)
    requires
        done.len() == q.len(),
    ensures
        active_toasts(q, done, now).len() <= q.len(),
        forall|i: int| 0 <= i < active_toasts(q, done, now).len() ==> exists|j: int|
            0 <= j < q.len() && #[trigger] active_toasts(q, done, now)[i] == q[j] && still_active(
                q[j],
                done[j],
                now,
            ),
        forall|j: int| 0 <= j < q.len() && still_active(q[j], done[j], now) ==> active_toasts(
            q,
            done,
            now,
        ).contains(#[trigger] q[j]),
    decreases q.len(),
{
    if q.len() > 0 {
        let p = q.drop_last();
        lemma_active_toasts_kept(p, done.drop_last(), now);
        assert forall|i: int| 0 <= i < p.len() implies q[i] == p[i] && done[i] == done.drop_last()[i] by {}
        assert(active_toasts(p, done, now) == active_toasts(p, done.drop_last(), now)) by {
            lemma_active_prefix_done(p, done, done.drop_last(), now);
        }
        let r = active_toasts(p, done, now);
        assert forall|j: int| 0 <= j < q.len() && still_active(q[j], done[j], now) implies active_toasts(
            q,
            done,
            now,
        ).contains(#[trigger] q[j]) by {
            if j < p.len() {
                assert(q[j] == p[j]);
                assert(done.drop_last()[j] == done[j]);
                assert(r.contains(p[j]));
                let k = choose|k: int| 0 <= k < r.len() && r[k] == p[j];
                assert(active_toasts(q, done, now)[k] == r[k]);
            } else {
                assert(active_toasts(q, done, now).last() == q.last());
            }
        }
        assert forall|i: int| 0 <= i < active_toasts(q, done, now).len() implies exists|j: int|
            0 <= j < q.len() && #[trigger] active_toasts(q, done, now)[i] == q[j] && still_active(
                q[j],
                done[j],
                now,
            ) by {
            if i < r.len() {
                let j = choose|j: int|
                    0 <= j < p.len() && #[trigger] r[i] == p[j] && still_active(
                        p[j],
                        done.drop_last()[j],
                        now,
                    );
                assert(q[j] == p[j]);
                assert(done.drop_last()[j] == done[j]);
            } else {
                assert(active_toasts(q, done, now)[i] == q.last());
            }
        }
    }
}

/// Only the flags of the toasts themselves matter, not what lies past them.
proof fn lemma_active_prefix_done(q: Seq<Toast>, d1: Seq<bool>, d2: Seq<bool>, now: u64)
    requires
        d1.len() >= q.len(),
        d2.len() >= q.len(),
        forall|i: int| 0 <= i < q.len() ==> d1[i] == d2[i],
    ensures
        active_toasts(q, d1, now) == active_toasts(q, d2, now),
    decreases q.len(),
{
    if q.len() > 0 {
        lemma_active_prefix_done(q.drop_last(), d1, d2, now);
    }
}

/// However many toasts are pushed, at most five are kept, the newest last.
pub proof fn lemma_push_caps_queue(q: Seq<Toast>, t: Toast)
    requires
        q.len() <= MAX_TOASTS,
    ensures
        pushed_queue(q, t).len() <= MAX_TOASTS,
        pushed_queue(q, t).last() == t,
{
}

} // verus!
