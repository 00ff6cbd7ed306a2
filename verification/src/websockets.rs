//! The connected clients and the sending of text frames to them.
//!
//! Each client has a bounded queue of outgoing frames. A frame that cannot
//! be queued at once, because the queue is full or the client is gone,
//! costs the client its connection.

use vstd::prelude::*;

use crate::table::{distinct, index_of, lemma_first_index, lemma_index_of_is, lemma_index_of_none};

verus! {

#[verifier::external_type_specification]
#[verifier::external_body]
#[verifier::reject_recursive_types(T)]
pub struct ExSender<T>(tokio::sync::mpsc::Sender<T>);

#[verifier::external_type_specification]
#[verifier::external_body]
pub struct ExMessage(warp::ws::Message);

/// A connected client: its id and the sending half of its queue.
pub struct User {
    pub id: usize,
    pub sender: tokio::sync::mpsc::Sender<warp::ws::Message>,
}

/// Makes a text frame.
///
/// Calls `warp::ws::Message::text`. A frame is opaque to the library, so
/// nothing is claimed of it.
#[verifier::external_body]
fn text_frame(text: &str) -> (frame: warp::ws::Message) {
    warp::ws::Message::text(text)
}

/// Offers a frame to the queue of a client; `true` where the queue took
/// it.
///
/// Calls `tokio::sync::mpsc::Sender::try_send`. Whether the queue takes
/// the frame depends on how full it is and on whether the receiving half
/// is still there, so nothing is claimed of the result.
#[verifier::external_body]
fn try_send_frame(sender: &tokio::sync::mpsc::Sender<warp::ws::Message>, frame: warp::ws::Message) -> (delivered:
    bool) {
    sender.try_send(frame).is_ok()
}

/// The ids of the clients, in order.
pub open spec fn user_ids(users: Seq<User>) -> Seq<usize> {
    Seq::new(users.len(), |i: int| users[i].id)
}

/// The clients once `user` has connected: in the place of the client of
/// its id, or at the end.
pub open spec fn users_after_connect(users: Seq<User>, user: User) -> Seq<User> {
    match index_of(user_ids(users), user.id) {
        Some(i) => users.update(i, user),
        None => users.push(user),
    }
}

/// The clients without the one under `id`.
pub open spec fn users_without(users: Seq<User>, id: usize) -> Seq<User> {
    match index_of(user_ids(users), id) {
        Some(i) => users.remove(i),
        None => users,
    }
}

/// Of the first `n` clients, those whose frame was delivered.
pub open spec fn users_kept(users: Seq<User>, delivered: Seq<bool>, n: int) -> Seq<User>
    decreases n,
{
    if n <= 0 {
        Seq::empty()
    } else {
        let rest = users_kept(users, delivered, n - 1);
        if delivered[n - 1] {
            rest.push(users[n - 1])
        } else {
            rest
        }
    }
}

/// Of the first `n` clients, the ids of those whose frame was not
/// delivered.
pub open spec fn users_dropped(users: Seq<User>, delivered: Seq<bool>, n: int) -> Seq<usize>
    decreases n,
{
    if n <= 0 {
        Seq::empty()
    } else {
        let rest = users_dropped(users, delivered, n - 1);
        if delivered[n - 1] {
            rest
        } else {
            rest.push(users[n - 1].id)
        }
    }
}

/// Whether `u` is one of the first `n` clients.
pub open spec fn among(users: Seq<User>, n: int, u: User) -> bool {
    exists|s: int| 0 <= s < n && #[trigger] users[s] == u
}

/// Those kept were clients before, and no id occurs twice among them if
/// none did before.
proof fn lemma_kept_ids(users: Seq<User>, delivered: Seq<bool>, n: int)
    requires
        0 <= n <= users.len(),
        n <= delivered.len(),
        distinct(user_ids(users)),
    ensures
        forall|t: int|
            0 <= t < users_kept(users, delivered, n).len() ==> among(
                users,
                n,
                #[trigger] users_kept(users, delivered, n)[t],
            ),
        distinct(user_ids(users_kept(users, delivered, n))),
    decreases n,
{
    if n > 0 {
        lemma_kept_ids(users, delivered, n - 1);
        let rest = users_kept(users, delivered, n - 1);
        let kept = users_kept(users, delivered, n);
        assert forall|t: int| 0 <= t < kept.len() implies among(users, n, #[trigger] kept[t]) by {
            if t < rest.len() {
                assert(among(users, n - 1, rest[t]));
                let s = choose|s: int| 0 <= s < n - 1 && #[trigger] users[s] == rest[t];
                assert(users[s] == kept[t]);
            } else {
                assert(users[n - 1] == kept[t]);
            }
        }
        assert forall|a: int, b: int| 0 <= a < b < kept.len() implies user_ids(kept)[a]
            != user_ids(kept)[b] by {
            if b < rest.len() {
                assert(user_ids(rest)[a] != user_ids(rest)[b]);
            } else {
                assert(among(users, n - 1, rest[a]));
                let s = choose|s: int| 0 <= s < n - 1 && #[trigger] users[s] == rest[a];
                assert(user_ids(users)[s] != user_ids(users)[n - 1]);
            }
        }
    }
}

/// The connected clients.
pub struct WebSockets {
    users: Vec<User>,
}

impl WebSockets {
    /// The clients, in the order they connected.
    pub closed spec fn users(&self) -> Seq<User> {
        self.users@
    }

    /// No id occurs twice.
    pub open spec fn wf(&self) -> bool {
        distinct(user_ids(self.users()))
    }

    pub fn new() -> (r: WebSockets)
        ensures
            r.wf(),
            r.users() == Seq::<User>::empty(),
    {
        WebSockets { users: Vec::new() }
    }

    fn find(&self, id: usize) -> (r: Option<usize>)
        ensures
            match r {
                Some(i) => index_of(user_ids(self.users()), id) == Some(i as int) && i
                    < self.users().len() && self.users()[i as int].id == id,
                None => index_of(user_ids(self.users()), id) is None,
            },
    {
        let mut i: usize = 0;
        while i < self.users.len()
            invariant
                i <= self.users.len(),
                forall|j: int| 0 <= j < i ==> user_ids(self.users@)[j] != id,
            decreases self.users.len() - i,
        {
            if self.users[i].id == id {
                proof {
                    lemma_index_of_is(user_ids(self.users@), id, i as int);
                }
                return Some(i);
            }
            i += 1;
        }
        proof {
            lemma_index_of_none(user_ids(self.users@), id);
        }
        None
    }

    /// Takes in a client. A client already connected under the id gives
    /// way to the new one.
    pub fn user_connected(&mut self, user_id: usize, sender: tokio::sync::mpsc::Sender<warp::ws::Message>)
        requires
            old(self).wf(),
        ensures
            final(self).wf(),
            final(self).users() == users_after_connect(
                old(self).users(),
                User { id: user_id, sender },
            ),
    {
        let ghost before = self.users@;
        match self.find(user_id) {
            Some(i) => {
                self.users.set(i, User { id: user_id, sender });
                assert(user_ids(self.users@) =~= user_ids(before));
            },
            None => {
                self.users.push(User { id: user_id, sender });
                proof {
                    lemma_first_index(user_ids(before), user_id, 0);
                    assert forall|a: int, b: int|
                        0 <= a < b < user_ids(self.users@).len() implies user_ids(self.users@)[a]
                        != user_ids(self.users@)[b] by {
                        if b < before.len() {
                            assert(user_ids(before)[a] != user_ids(before)[b]);
                        } else {
                            assert(user_ids(before)[a] != user_id);
                        }
                    }
                }
            },
        }
    }

    /// Lets go of the client under `user_id`, if there is one.
    pub fn user_disconnected(&mut self, user_id: usize)
        requires
            old(self).wf(),
        ensures
            final(self).wf(),
            final(self).users() == users_without(old(self).users(), user_id),
    {
        let ghost before = self.users@;
        match self.find(user_id) {
            Some(i) => {
                self.users.remove(i);
                assert forall|a: int, b: int|
                    0 <= a < b < user_ids(self.users@).len() implies user_ids(self.users@)[a]
                    != user_ids(self.users@)[b] by {
                    let a0 = if a < i { a } else { a + 1 };
                    let b0 = if b < i { b } else { b + 1 };
                    assert(user_ids(before)[a0] != user_ids(before)[b0]);
                }
            },
            None => {},
        }
    }

    /// How many clients are connected.
    pub fn num_users(&self) -> (n: usize)
        ensures
            n == self.users().len(),
    {
        self.users.len()
    }

    /// Whether a client is connected under `user_id`.
    pub fn is_connected(&self, user_id: usize) -> (b: bool)
        ensures
            b == (index_of(user_ids(self.users()), user_id) is Some),
    {
        self.find(user_id).is_some()
    }

    /// Keeps the clients whose frame was delivered and lets go of the
    /// others; returns the ids of those let go, in order.
    pub fn drop_undelivered(&mut self, delivered: &Vec<bool>) -> (dropped: Vec<usize>)
        requires
            old(self).wf(),
            delivered@.len() == old(self).users().len(),
        ensures
            final(self).wf(),
            final(self).users() == users_kept(
                old(self).users(),
                delivered@,
                delivered@.len() as int,
            ),
            dropped@ == users_dropped(old(self).users(), delivered@, delivered@.len() as int),
    {
        let ghost before = self.users@;
        let mut all: Vec<User> = Vec::new();
        core::mem::swap(&mut all, &mut self.users);
        let mut kept: Vec<User> = Vec::new();
        let mut dropped: Vec<usize> = Vec::new();
        let n = all.len();
        let mut i: usize = n;
        // The clients are taken from the end; `tail` collects them in
        // reverse.
        let mut tail: Vec<User> = Vec::new();
        while i > 0
            invariant
                i <= n,
                n == before.len(),
                all@ == before.take(i as int),
                tail@.len() == n - i,
                forall|t: int| 0 <= t < tail@.len() ==> tail@[t] == before[n - 1 - t],
            decreases i,
        {
            let u = all.pop();
            match u {
                Some(u) => {
                    tail.push(u);
                },
                None => {},
            }
            i -= 1;
            assert(all@ =~= before.take(i as int));
        }
        let mut j: usize = 0;
        while j < n
            invariant
                j <= n,
                n == before.len(),
                delivered@.len() == n,
                tail@.len() == n - j,
                forall|t: int| 0 <= t < tail@.len() ==> tail@[t] == before[n - 1 - t],
                kept@ == users_kept(before, delivered@, j as int),
                dropped@ == users_dropped(before, delivered@, j as int),
            decreases n - j,
        {
            let u = tail.pop();
            match u {
                Some(u) => {
                    if delivered[j] {
                        kept.push(u);
                    } else {
                        dropped.push(u.id);
                    }
                },
                None => {},
            }
            j += 1;
        }
        proof {
            lemma_kept_ids(before, delivered@, n as int);
        }
        self.users = kept;
        dropped
    }

    /// What a send to one client comes to, given whether its frame was
    /// delivered: a client whose frame was not delivered is let go, and the
    /// send has failed.
    pub fn settle_unicast(&mut self, user_id: usize, delivered: bool) -> (r: Option<()>)
        requires
            old(self).wf(),
        ensures
            final(self).wf(),
            delivered ==> r is Some && final(self).users() == old(self).users(),
            !delivered ==> r is None && final(self).users() == users_without(
                old(self).users(),
                user_id,
            ),
    {
        if delivered {
            Some(())
        } else {
            self.user_disconnected(user_id);
            None
        }
    }

    /// Sends a text frame to the client under `user_id`, or to every client
    /// where none is named. A client whose queue does not take the frame at
    /// once is let go. A send to one client fails where that client is let
    /// go; a send to a client that is not connected, and a send to all,
    /// succeed.
    pub fn send(&mut self, user_id: Option<usize>, text: &str) -> (r: Option<()>)
        requires
            old(self).wf(),
        ensures
            final(self).wf(),
            match user_id {
                Some(id) => {
                    ||| r is Some && final(self).users() == old(self).users()
                    ||| r is None && index_of(user_ids(old(self).users()), id) is Some
                        && final(self).users() == users_without(old(self).users(), id)
                },
                None => r is Some && exists|delivered: Seq<bool>|
                    delivered.len() == old(self).users().len() && #[trigger] users_kept(
                        old(self).users(),
                        delivered,
                        delivered.len() as int,
                    ) == final(self).users(),
            },
            old(self).users().len() == 0 ==> r is Some && final(self).users() == old(self).users(),
    {
        match user_id {
            Some(id) => {
                match self.find(id) {
                    Some(i) => {
                        let delivered = try_send_frame(&self.users[i].sender, text_frame(text));
                        self.settle_unicast(id, delivered)
                    },
                    None => Some(()),
                }
            },
            None => {
                let mut delivered: Vec<bool> = Vec::new();
                let mut i: usize = 0;
                while i < self.users.len()
                    invariant
                        i <= self.users.len(),
                        *self == *old(self),
                        delivered@.len() == i,
                    decreases self.users.len() - i,
                {
                    delivered.push(try_send_frame(&self.users[i].sender, text_frame(text)));
                    i += 1;
                }
                let _ = self.drop_undelivered(&delivered);
                assert(old(self).users().len() == 0 ==> self.users() =~= old(self).users());
                Some(())
            },
        }
    }
}

} // verus!
