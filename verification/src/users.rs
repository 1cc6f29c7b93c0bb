//! The user registry behind the plain HTTP user interface: in-memory
//! storage of (id, username) pairs with sequentially assigned ids.
use vstd::prelude::*;

verus! {

/// A stored user, as the HTTP interface reports it.
#[derive(Debug, PartialEq, Eq)]
pub struct User {
    pub id: usize,
    pub username: String,
}

/// The request body for creating a user.
pub struct CreateUserPayload {
    pub username: String,
}

/// One row of the user list as a client reads it back.
#[derive(Debug, PartialEq, Eq)]
pub struct UserResponse {
    pub id: usize,
    pub username: String,
}

/// In-memory user storage: ids are unique and always below the next id to
/// be assigned.
pub struct UserState {
    pub users: Vec<User>,
    pub next_user_id: usize,
}

impl UserState {
    /// Ids are unique and below the next id.
    pub open spec fn wf(self) -> bool {
        &&& forall|i: int, j: int|
            0 <= i < j < self.users@.len() ==> self.users@[i].id != self.users@[j].id
        &&& forall|i: int| 0 <= i < self.users@.len() ==> self.users@[i].id < self.next_user_id
    }

    /// An empty registry.
    pub fn new() -> (r: UserState)
        ensures
            r.wf(),
            r.users@.len() == 0,
            r.next_user_id == 0,
    {
        UserState { users: Vec::new(), next_user_id: 0 }
    }
}

/// Store a new user under the next id and return it.
pub fn create_user(state: &mut UserState, payload: CreateUserPayload) -> (u: User)
    requires
        old(state).wf(),
        old(state).next_user_id < usize::MAX,
    ensures
        final(state).wf(),
        u.id == old(state).next_user_id,
        u.username == payload.username,
        final(state).users@ == old(state).users@.push(u),
        final(state).next_user_id == old(state).next_user_id + 1,
{
    let user = User { id: state.next_user_id, username: payload.username };
    let stored = User { id: user.id, username: user.username.clone() };
    assert(stored == user);
    state.users.push(stored);
    state.next_user_id = state.next_user_id + 1;
    user
}

/// All stored users, in insertion order.
pub fn list_users(state: &UserState) -> (r: Vec<User>)
    ensures
        r@ == state.users@,
{
    let mut out: Vec<User> = Vec::new();
    let mut i: usize = 0;
    while i < state.users.len()
        invariant
            i <= state.users@.len(),
            out@ =~= state.users@.subrange(0, i as int),
        decreases state.users@.len() - i,
    {
        let u = &state.users[i];
        let copied = User { id: u.id, username: u.username.clone() };
        assert(copied == state.users@[i as int]);
        out.push(copied);
        proof {
            assert(out@ =~= state.users@.subrange(0, i + 1 as int));
        }
        i = i + 1;
    }
    proof {
        assert(state.users@.subrange(0, state.users@.len() as int) =~= state.users@);
    }
    out
}

/// Delete the user with the given id, if stored. Returns whether one was:
/// exactly when some stored user carries the id. All other users are kept
/// in order.
pub fn delete_user(state: &mut UserState, id: usize) -> (found: bool)
    requires
        old(state).wf(),
    ensures
        final(state).wf(),
        final(state).next_user_id == old(state).next_user_id,
        found <==> exists|i: int|
            0 <= i < old(state).users@.len() && old(state).users@[i].id == id,
        !found ==> final(state).users == old(state).users,
        found ==> exists|i: int|
            {
                &&& 0 <= i < old(state).users@.len()
                &&& old(state).users@[i].id == id
                &&& final(state).users@ == old(state).users@.remove(i)
            },
{
    let n = state.users.len();
    let mut idx: usize = 0;
    while idx < n
        invariant
            idx <= n,
            n == state.users@.len(),
            *state == *old(state),
            old(state).wf(),
            forall|j: int| 0 <= j < idx ==> state.users@[j].id != id,
        decreases n - idx,
    {
        if state.users[idx].id == id {
            let ghost users0 = state.users@;
            let ghost at = idx as int;
            state.users.remove(idx);
            proof {
                assert(state.users@ == users0.remove(at));
                assert(users0[at].id == id);
                let post = state.users@;
                assert forall|i: int, j: int|
                    0 <= i < j < post.len() implies post[i].id != post[j].id by {
                    users0.remove_ensures(at);
                    if i < at {
                        assert(post[i] == users0[i]);
                    } else {
                        assert(post[i] == users0[i + 1]);
                    }
                    if j < at {
                        assert(post[j] == users0[j]);
                    } else {
                        assert(post[j] == users0[j + 1]);
                    }
                }
                assert forall|i: int|
                    0 <= i < post.len() implies post[i].id < state.next_user_id by {
                    users0.remove_ensures(at);
                    if i < at {
                        assert(post[i] == users0[i]);
                    } else {
                        assert(post[i] == users0[i + 1]);
                    }
                }
            }
            return true;
        }
        idx = idx + 1;
    }
    false
}

/// The usernames of a fetched user list, in order.
pub fn usernames_of(users: &Vec<UserResponse>) -> (r: Vec<String>)
    ensures
        r@.len() == users@.len(),
        forall|i: int| 0 <= i < users@.len() ==> r@[i]@ == users@[i].username@,
{
    let mut out: Vec<String> = Vec::new();
    let mut i: usize = 0;
    while i < users.len()
        invariant
            i <= users@.len(),
            out@.len() == i,
            forall|j: int| 0 <= j < i ==> out@[j]@ == users@[j].username@,
        decreases users@.len() - i,
    {
        out.push(users[i].username.clone());
        i = i + 1;
    }
    out
}

/// Append a chat line to the on-screen history, keeping only the ten most
/// recent lines.
pub fn push_message(messages: &mut Vec<String>, msg: String)
    ensures
        final(messages)@ == if old(messages)@.len() >= 10 {
            old(messages)@.push(msg).drop_first()
        } else {
            old(messages)@.push(msg)
        },
{
    messages.push(msg);
    if messages.len() > 10 {
        messages.remove(0);
        proof {
            assert(messages@ =~= old(messages)@.push(msg).drop_first());
        }
    }
}

} // verus!
