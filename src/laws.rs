use vstd::prelude::*;

use crate::authenticator::{login_outcome, register_step};
use crate::protocol::LoginError;

verus! {

/// Runs the `register` calls `calls` (username, secret), in order, from the
/// mapping `m`: the final mapping, and for each call whether it succeeded.
pub open spec fn replay(m: Map<Seq<char>, Seq<char>>, calls: Seq<(Seq<char>, Seq<char>)>) -> (
    Map<Seq<char>, Seq<char>>,
    Seq<bool>,
)
    decreases calls.len(),
{
    if calls.len() == 0 {
        (m, Seq::empty())
    } else {
        let before = replay(m, calls.drop_last());
        let step = register_step(before.0, calls.last().0, calls.last().1);
        (step.0, before.1.push(step.1))
    }
}

/// What a run of `register` calls does to the mapping and which of its calls
/// succeed.
proof fn lemma_replay(m: Map<Seq<char>, Seq<char>>, calls: Seq<(Seq<char>, Seq<char>)>)
    ensures
        replay(m, calls).1.len() == calls.len(),
        forall|k: Seq<char>| #[trigger]
            m.contains_key(k) ==> replay(m, calls).0.contains_key(k) && replay(m, calls).0[k]
                == m[k],
        forall|k: Seq<char>| #[trigger]
            replay(m, calls).0.contains_key(k) ==> m.contains_key(k) || exists|i: int|
                0 <= i < calls.len() && calls[i].0 == k,
        forall|i: int|
            0 <= i < calls.len() ==> #[trigger] replay(m, calls).1[i] == !replay(
                m,
                calls.subrange(0, i),
            ).0.contains_key(calls[i].0),
        forall|i: int|
            0 <= i < calls.len() && #[trigger] replay(m, calls).1[i] ==> replay(
                m,
                calls,
            ).0.contains_key(calls[i].0) && replay(m, calls).0[calls[i].0] == calls[i].1,
        forall|i: int, j: int|
            0 <= i < j < calls.len() && calls[i].0 == calls[j].0 && #[trigger] replay(
                m,
                calls,
            ).1[i] ==> !#[trigger] replay(m, calls).1[j],
    decreases calls.len(),
{
    if calls.len() > 0 {
        let p = calls.drop_last();
        let n = calls.len() - 1;
        lemma_replay(m, p);
        let before = replay(m, p);
        let after = replay(m, calls);
        assert(calls.subrange(0, n) =~= p);
        assert forall|i: int| 0 <= i < n implies #[trigger] calls.subrange(0, i) =~= p.subrange(
            0,
            i,
        ) && calls[i] == p[i] by {}
        assert forall|i: int|
            0 <= i < calls.len() implies #[trigger] after.1[i] == !replay(
            m,
            calls.subrange(0, i),
        ).0.contains_key(calls[i].0) by {
            if i < n {
                assert(calls.subrange(0, i) =~= p.subrange(0, i));
                assert(after.1[i] == before.1[i]);
            }
        }
        assert forall|i: int, j: int|
            0 <= i < j < calls.len() && calls[i].0 == calls[j].0 && #[trigger] after.1[i]
                implies !#[trigger] after.1[j] by {
            assert(after.1[i] == before.1[i]);
            if j < n {
                assert(after.1[j] == before.1[j]);
            } else {
                assert(p[i] == calls[i]);
            }
        }
        assert forall|k: Seq<char>| #[trigger]
            after.0.contains_key(k) implies m.contains_key(k) || exists|i: int|
                0 <= i < calls.len() && calls[i].0 == k by {
            if k != calls[n].0 && !m.contains_key(k) {
                let i = choose|i: int| 0 <= i < p.len() && p[i].0 == k;
                assert(calls[i].0 == k);
            }
        }
        assert forall|i: int| 0 <= i < calls.len() && #[trigger] after.1[i] implies after.0.contains_key(
            calls[i].0,
        ) && after.0[calls[i].0] == calls[i].1 by {
            if i < n {
                assert(after.1[i] == before.1[i]);
                assert(p[i] == calls[i]);
            }
        }
    }
}

/// Once a `register` call for a username has succeeded, every later
/// `register` call for the same username fails, whatever its secret: each
/// username is registered at most once.
pub proof fn lemma_username_registered_at_most_once(
    m: Map<Seq<char>, Seq<char>>,
    calls: Seq<(Seq<char>, Seq<char>)>,
    i: int,
    j: int,
)
    requires
        0 <= i < j < calls.len(),
        calls[i].0 == calls[j].0,
        replay(m, calls).1[i],
    ensures
        !replay(m, calls).1[j],
{
    lemma_replay(m, calls);
}

/// After `register(u, s)` succeeds, whatever `register` calls come later, a
/// login as `u` with `s` is granted the token, and a login as `u` with any
/// other secret is refused with `InvalidCredentials`.
pub proof fn lemma_registered_secret_logs_in(
    m: Map<Seq<char>, Seq<char>>,
    u: Seq<char>,
    s: Seq<char>,
    later: Seq<(Seq<char>, Seq<char>)>,
    other: Seq<char>,
    token: Seq<char>,
)
    requires
        register_step(m, u, s).1,
    ensures
        login_outcome(replay(register_step(m, u, s).0, later).0, u, s, token) == Ok::<
            Seq<char>,
            LoginError,
        >(token),
        other != s ==> login_outcome(replay(register_step(m, u, s).0, later).0, u, other, token)
            == Err::<Seq<char>, LoginError>(LoginError::InvalidCredentials),
{
    let m1 = register_step(m, u, s).0;
    lemma_replay(m1, later);
    assert(m1.contains_key(u));
}

/// A login as a username that no `register` call ever added is refused with
/// `InvalidCredentials`, whatever the secret.
pub proof fn lemma_unknown_user_refused(
    m: Map<Seq<char>, Seq<char>>,
    calls: Seq<(Seq<char>, Seq<char>)>,
    u: Seq<char>,
    s: Seq<char>,
    token: Seq<char>,
)
    requires
        !m.contains_key(u),
        forall|i: int| 0 <= i < calls.len() ==> calls[i].0 != u,
    ensures
        login_outcome(replay(m, calls).0, u, s, token) == Err::<Seq<char>, LoginError>(
            LoginError::InvalidCredentials,
        ),
{
    lemma_replay(m, calls);
    if replay(m, calls).0.contains_key(u) {
        let i = choose|i: int| 0 <= i < calls.len() && calls[i].0 == u;
    }
}

/// A login as an unknown user and a login with a wrong secret for a known
/// user give the same outcome, so the reply does not tell them apart.
pub proof fn lemma_unknown_user_looks_like_wrong_secret(
    m: Map<Seq<char>, Seq<char>>,
    u: Seq<char>,
    s: Seq<char>,
    known: Seq<char>,
    wrong: Seq<char>,
    token: Seq<char>,
    known_token: Seq<char>,
)
    requires
        !m.contains_key(u),
        m.contains_key(known),
        m[known] != wrong,
    ensures
        login_outcome(m, u, s, token) == login_outcome(m, known, wrong, known_token),
{
}

/// One `register` call for `u` per secret of `secrets`, in that order.
pub open spec fn same_user_calls(u: Seq<char>, secrets: Seq<Seq<char>>) -> Seq<(Seq<char>, Seq<char>)> {
    secrets.map_values(|s: Seq<char>| (u, s))
}

/// Concurrent `register` calls for one new username, serialised by the
/// store's lock in any order and with any secrets: exactly one succeeds, the
/// first to take the lock, and its secret is the one stored; all others fail.
pub proof fn lemma_same_username_race(
    m: Map<Seq<char>, Seq<char>>,
    u: Seq<char>,
    secrets: Seq<Seq<char>>,
)
    requires
        !m.contains_key(u),
        secrets.len() > 0,
    ensures
        ({
            let calls = same_user_calls(u, secrets);
            let (end, outcomes) = replay(m, calls);
            &&& outcomes.len() == secrets.len()
            &&& outcomes[0]
            &&& forall|i: int| 0 < i < outcomes.len() ==> !outcomes[i]
            &&& end == m.insert(u, secrets[0])
        }),
{
    let calls = same_user_calls(u, secrets);
    lemma_replay(m, calls);
    assert(calls.subrange(0, 0) =~= Seq::<(Seq<char>, Seq<char>)>::empty());
    assert(replay(m, calls).1[0]);
    assert forall|i: int| 0 < i < calls.len() implies !replay(m, calls).1[i] by {
        assert(calls[0].0 == calls[i].0);
    }
    lemma_race_end(m, u, secrets);
}

/// Calls for a single username leave the mapping with the first call's
/// secret, when the username was new.
proof fn lemma_race_end(m: Map<Seq<char>, Seq<char>>, u: Seq<char>, secrets: Seq<Seq<char>>)
    requires
        !m.contains_key(u),
        secrets.len() > 0,
    ensures
        replay(m, same_user_calls(u, secrets)).0 == m.insert(u, secrets[0]),
    decreases secrets.len(),
{
    let calls = same_user_calls(u, secrets);
    let p = secrets.drop_last();
    assert(calls.drop_last() =~= same_user_calls(u, p));
    assert(calls.last() == (u, secrets.last()));
    if secrets.len() > 1 {
        lemma_race_end(m, u, p);
        assert(p[0] == secrets[0]);
        assert(replay(m, calls.drop_last()).0.contains_key(u));
    } else {
        assert(calls.drop_last() =~= Seq::<(Seq<char>, Seq<char>)>::empty());
        assert(replay(m, calls.drop_last()).0 == m);
        assert(secrets.last() == secrets[0]);
    }
}

} // verus!
