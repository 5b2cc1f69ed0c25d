//! The rules of a session around the two protocols: which discovered
//! listeners a writer connects to and which it drops, which peers a reader
//! accepts data from and when a new speaker is announced.

use vstd::prelude::*;

use crate::discovery::{EndpointInfo, EndpointView};
use crate::io_kind::IoKind;

verus! {

broadcast use vstd::seq_lib::group_filter_ensures;

/// The names in a list of users.
pub open spec fn names_of(users: Seq<String>) -> Seq<Seq<char>> {
    users.map_values(|u: String| u@)
}

/// Whether a peer called `name` takes part: without a list of users every
/// peer does, with one only those named in it.
pub open spec fn wanted(users: Option<Seq<Seq<char>>>, name: Seq<char>) -> bool {
    match users {
        None => true,
        Some(us) => us.contains(name),
    }
}

/// The list of users that an optional list names.
pub open spec fn users_view(users: Option<&Vec<String>>) -> Option<Seq<Seq<char>>> {
    match users {
        None => None,
        Some(us) => Some(names_of(us@)),
    }
}

fn is_listed(users: &Vec<String>, name: &String) -> (r: bool)
    ensures
        r == names_of(users@).contains(name@),
{
    let mut i: usize = 0;
    while i < users.len()
        invariant
            0 <= i <= users@.len(),
            forall|j: int| 0 <= j < i ==> names_of(users@)[j] != name@,
        decreases users@.len() - i,
    {
        if users[i] == *name {
            assert(names_of(users@)[i as int] == name@);
            return true;
        }
        i = i + 1;
    }
    false
}

/// The listeners that a writer connects to: those whose name is in `users`,
/// or all of them, in the order they were found.
pub fn select_endpoints(remotes: &Vec<EndpointInfo>, users: Option<&Vec<String>>) -> (r: Vec<
    EndpointInfo,
>)
    ensures
        r@.map_values(|e: EndpointInfo| e@) == remotes@.map_values(|e: EndpointInfo| e@).filter(
            |e: EndpointView| wanted(users_view(users), e.name),
        ),
{
    let ghost pred: spec_fn(EndpointView) -> bool = |e: EndpointView| wanted(users_view(users), e.name);
    let ghost all = remotes@.map_values(|e: EndpointInfo| e@);
    let mut chosen: Vec<EndpointInfo> = Vec::new();
    let mut i: usize = 0;
    while i < remotes.len()
        invariant
            0 <= i <= remotes@.len(),
            all == remotes@.map_values(|e: EndpointInfo| e@),
            pred == (|e: EndpointView| wanted(users_view(users), e.name)),
            chosen@.map_values(|e: EndpointInfo| e@) == all.subrange(0, i as int).filter(pred),
        decreases remotes@.len() - i,
    {
        let remote = &remotes[i];
        let keep = match users {
            None => true,
            Some(us) => is_listed(us, &remote.name),
        };
        let ghost before = chosen@;
        if keep {
            chosen.push(EndpointInfo { name: remote.name.clone(), addr: remote.addr });
        }
        proof {
            reveal(Seq::filter);
            let s = all.subrange(0, i + 1);
            assert(s.drop_last() =~= all.subrange(0, i as int));
            assert(s.last() == remote@);
            assert(keep == pred(remote@));
            if keep {
                assert(chosen@.map_values(|e: EndpointInfo| e@) =~= before.map_values(
                    |e: EndpointInfo| e@,
                ).push(remote@));
            }
            assert(chosen@.map_values(|e: EndpointInfo| e@) == s.filter(pred));
        }
        i = i + 1;
    }
    assert(all.subrange(0, remotes@.len() as int) =~= all);
    chosen
}

/// Whether a writer keeps a connection after one write to it: yes when the
/// write went through, no when the peer has gone; any other failure is
/// handed back.
pub fn keeps_peer(written: Result<(), IoKind>) -> (r: Result<bool, IoKind>)
    ensures
        match written {
            Ok(()) => r == Ok::<bool, IoKind>(true),
            Err(k) => if k == IoKind::BrokenPipe || k == IoKind::ConnectionReset {
                r == Ok::<bool, IoKind>(false)
            } else {
                r == Err::<bool, IoKind>(k)
            },
        },
{
    match written {
        Ok(()) => Ok(true),
        Err(k) => if k.is_peer_gone() {
            Ok(false)
        } else {
            Err(k)
        },
    }
}

/// What a reader does with one chunk of payload.
#[derive(Debug, PartialEq, Eq, Clone, Copy, Structural)]
pub enum Delivery {
    /// The sender is not wanted: drop the chunk and the connection.
    Refuse,
    /// Write the chunk out, announcing the sender first when `announce`.
    Write { announce: bool },
}

/// The reader's side of a session: the users it takes data from and the
/// last one it wrote data of.
pub struct ReadSession {
    users: Option<Vec<String>>,
    last_user: String,
}

impl ReadSession {
    pub closed spec fn users(&self) -> Option<Seq<Seq<char>>> {
        match self.users {
            None => None,
            Some(us) => Some(names_of(us@)),
        }
    }

    pub closed spec fn last_user(&self) -> Seq<char> {
        self.last_user@
    }

    /// A session that takes data from `users`, or from everyone; nobody has
    /// spoken yet.
    pub fn new(users: Option<Vec<String>>) -> (r: ReadSession)
        ensures
            r.users() == match users {
                None => None,
                Some(us) => Some(names_of(us@)),
            },
            r.last_user() == Seq::<char>::empty(),
    {
        ReadSession { users, last_user: String::new() }
    }

    /// Decides on a chunk of payload from `user`. A chunk from an unwanted
    /// user is refused; otherwise it is written, announced when its user is
    /// not the one who spoke last.
    pub fn on_data(&mut self, user: &str) -> (r: Delivery)
        ensures
            final(self).users() == old(self).users(),
            !wanted(old(self).users(), user@) ==> r == Delivery::Refuse && final(self).last_user()
                == old(self).last_user(),
            wanted(old(self).users(), user@) ==> r == (Delivery::Write {
                announce: old(self).last_user() != user@,
            }) && final(self).last_user() == user@,
    {
        let user = user.to_owned();
        let listed = match &self.users {
            None => true,
            Some(us) => is_listed(us, &user),
        };
        if !listed {
            return Delivery::Refuse;
        }
        let announce = !(self.last_user == user);
        if announce {
            self.last_user = user;
        }
        Delivery::Write { announce }
    }
}

/// How a banner of `info_len` bytes is centred on a line of `term_width`
/// columns: the width of the margin on each side, and whether one more
/// column is filled at the end. Wider text gets no margin.
pub fn banner_margins(term_width: usize, info_len: usize) -> (r: (usize, bool))
    ensures
        info_len <= term_width ==> r.0 == (term_width - info_len) / 2,
        info_len > term_width ==> r.0 == 0,
        r.1 == (term_width > 2 * r.0 + info_len),
{
    let margin = if info_len <= term_width {
        (term_width - info_len) / 2
    } else {
        0
    };
    let extra = if info_len <= term_width {
        term_width - info_len > 2 * margin
    } else {
        false
    };
    (margin, extra)
}

} // verus!
