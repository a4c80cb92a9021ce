//! Short-lived messages shown in a corner of the canvas.
use vstd::prelude::*;

verus! {

/// How long a message stays up, in nanoseconds.
pub const LIFETIME_NANOS: u128 = 3_000_000_000;

/// A message and the time (in nanoseconds on the caller's clock) from which
/// it is no longer shown.
pub struct Notification {
    pub message: String,
    pub expires_at: u128,
}

/// The messages of `messages` still shown at time `now`, in order.
pub open spec fn unexpired(messages: Seq<Notification>, now: u128) -> Seq<Notification>
    decreases messages.len(),
{
    if messages.len() == 0 {
        Seq::empty()
    } else {
        let rest = unexpired(messages.drop_last(), now);
        if now < messages.last().expires_at {
            rest.push(messages.last())
        } else {
            rest
        }
    }
}

/// The messages on show, oldest first.
pub struct Notifications {
    messages: Vec<Notification>,
}

impl Notifications {
    /// The messages held, oldest first.
    pub closed spec fn spec_messages(&self) -> Seq<Notification> {
        self.messages@
    }

    /// No messages.
    pub fn new() -> (n: Self)
        ensures
            n.spec_messages() == Seq::<Notification>::empty(),
    {
        Notifications { messages: Vec::new() }
    }

    /// Shows `message` for [`LIFETIME_NANOS`] from `now`.
    pub fn push(&mut self, message: String, now: u128)
        requires
            now + LIFETIME_NANOS <= u128::MAX,
        ensures
            final(self).spec_messages() == old(self).spec_messages().push(
                Notification { message, expires_at: (now + LIFETIME_NANOS) as u128 },
            ),
    {
        let expires_at = now + LIFETIME_NANOS;
        self.messages.push(Notification { message, expires_at });
    }

    /// Drops the messages that have expired by `now`.
    pub fn prune(&mut self, now: u128)
        ensures
            final(self).spec_messages() == unexpired(old(self).spec_messages(), now),
    {
        let ghost start = self.messages@;
        let mut pending: Vec<Notification> = Vec::new();
        std::mem::swap(&mut pending, &mut self.messages);
        let mut i: usize = 0;
        let total = pending.len();
        while pending.len() > 0
            invariant
                total == start.len(),
                i + pending.len() == total,
                pending@ == start.skip(i as int),
                self.messages@ == unexpired(start.take(i as int), now),
            decreases pending.len(),
        {
            let n = pending.remove(0);
            assert(start.take(i + 1).drop_last() =~= start.take(i as int));
            assert(start.take(i + 1).last() == n);
            if now < n.expires_at {
                self.messages.push(n);
            }
            assert(pending@ =~= start.skip(i + 1));
            i = i + 1;
        }
        assert(start.take(i as int) =~= start);
    }

    /// The messages on show, oldest first.
    pub fn messages(&self) -> (res: &[Notification])
        ensures
            res@ == self.spec_messages(),
    {
        self.messages.as_slice()
    }
}

impl Default for Notifications {
    /// No messages.
    fn default() -> (n: Self)
        ensures
            n.spec_messages() == Seq::<Notification>::empty(),
    {
        Notifications::new()
    }
}

/// A message stays up until its lifetime has passed, and not after: at any
/// time before it expires, pruning keeps it; at any time after, pruning
/// drops it.
pub proof fn lemma_prune_keeps_exactly_unexpired(messages: Seq<Notification>, now: u128)
    ensures
        forall|n: Notification| #[trigger] unexpired(messages, now).contains(n) <==> (
            messages.contains(n) && now < n.expires_at
        ),
    decreases messages.len(),
{
    if messages.len() > 0 {
        lemma_prune_keeps_exactly_unexpired(messages.drop_last(), now);
        assert forall|n: Notification| #[trigger] unexpired(messages, now).contains(n) <==> (
            messages.contains(n) && now < n.expires_at
        ) by {
            let rest = unexpired(messages.drop_last(), now);
            if messages.contains(n) && now < n.expires_at {
                let k = choose|k: int| 0 <= k < messages.len() && messages[k] == n;
                if k < messages.len() - 1 {
                    assert(messages.drop_last()[k] == n);
                    assert(rest.contains(n));
                    if now < messages.last().expires_at {
                        let j = choose|j: int| 0 <= j < rest.len() && rest[j] == n;
                        assert(rest.push(messages.last())[j] == n);
                    }
                } else {
                    assert(rest.push(messages.last())[rest.len() as int] == n);
                }
            }
            if unexpired(messages, now).contains(n) {
                if now < messages.last().expires_at && n == messages.last() {
                    assert(messages[messages.len() - 1] == n);
                } else {
                    let j = choose|j: int| 0 <= j < unexpired(messages, now).len() && unexpired(messages, now)[j] == n;
                    if now < messages.last().expires_at {
                        assert(j < rest.len());
                        assert(rest[j] == n);
                    }
                    assert(rest.contains(n));
                    let k = choose|k: int| 0 <= k < messages.drop_last().len() && messages.drop_last()[k] == n;
                    assert(messages[k] == n);
                }
            }
        }
    }
}

/// A message pushed at `pushed_at` and pruned at `pruned_at` is still on
/// show, after the messages kept from before, when its lifetime has not yet
/// passed; once it has, pruning removes it and keeps exactly what it would
/// have kept without it. (`push` asks that the expiry time fits the clock.)
pub proof fn lemma_pushed_message_expires(
    messages: Seq<Notification>,
    message: String,
    pushed_at: u128,
    pruned_at: u128,
)
    requires
        pushed_at + LIFETIME_NANOS <= u128::MAX,
    ensures
        ({
            let n = Notification { message, expires_at: (pushed_at + LIFETIME_NANOS) as u128 };
            &&& pruned_at < pushed_at + LIFETIME_NANOS ==> unexpired(messages.push(n), pruned_at)
                == unexpired(messages, pruned_at).push(n)
            &&& pruned_at >= pushed_at + LIFETIME_NANOS ==> unexpired(messages.push(n), pruned_at)
                == unexpired(messages, pruned_at)
        }),
{
    let n = Notification { message, expires_at: (pushed_at + LIFETIME_NANOS) as u128 };
    assert(messages.push(n).drop_last() =~= messages);
}

} // verus!
