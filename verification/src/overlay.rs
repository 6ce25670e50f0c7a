//! Layering a user store over a system store by name: for every name that
//! occurs in either store, the last user entry of that name wins, else the
//! last system entry; the result is ordered by name.

use vstd::prelude::*;
use crate::text::{lemma_text_lt_asym, lemma_text_lt_trans, names, str_eq, text_lt, text_lt_exec};

verus! {

/// Index of the last entry named `k` in `v`, or `-1`.
pub open spec fn last_key_index(v: Seq<Seq<char>>, k: Seq<char>) -> int
    decreases v.len(),
{
    if v.len() == 0 {
        -1
    } else if v.last() == k {
        v.len() - 1
    } else {
        last_key_index(v.drop_last(), k)
    }
}

pub proof fn lemma_last_key_index(v: Seq<Seq<char>>, k: Seq<char>)
    ensures
        -1 <= last_key_index(v, k) < v.len(),
        last_key_index(v, k) >= 0 ==> v[last_key_index(v, k)] == k,
        last_key_index(v, k) < 0 ==> forall|i: int| 0 <= i < v.len() ==> #[trigger] v[i] != k,
        forall|i: int| last_key_index(v, k) < i < v.len() ==> #[trigger] v[i] != k,
    decreases v.len(),
{
    if v.len() > 0 && v.last() != k {
        lemma_last_key_index(v.drop_last(), k);
        assert forall|i: int| 0 <= i < v.len() && last_key_index(v, k) < 0 implies #[trigger] v[i] != k by {
            if i < v.len() - 1 {
                assert(v.drop_last()[i] == v[i]);
            }
        }
        assert forall|i: int| last_key_index(v, k) < i < v.len() implies #[trigger] v[i] != k by {
            if i < v.len() - 1 {
                assert(v.drop_last()[i] == v[i]);
            }
        }
    }
}

proof fn lemma_last_key_index_push(v: Seq<Seq<char>>, x: Seq<char>, k: Seq<char>)
    ensures
        last_key_index(v.push(x), k) == (if x == k {
            v.len() as int
        } else {
            last_key_index(v, k)
        }),
{
    assert(v.push(x).drop_last() =~= v);
}

/// The entry that wins name `k`: (from the user store, index).
pub open spec fn winner(system: Seq<Seq<char>>, user: Seq<Seq<char>>, k: Seq<char>) -> Option<(bool, int)> {
    if last_key_index(user, k) >= 0 {
        Some((true, last_key_index(user, k)))
    } else if last_key_index(system, k) >= 0 {
        Some((false, last_key_index(system, k)))
    } else {
        None
    }
}

/// The name of an entry (from the user store, index).
pub open spec fn entry_key(system: Seq<Seq<char>>, user: Seq<Seq<char>>, e: (bool, usize)) -> Seq<char> {
    if e.0 {
        user[e.1 as int]
    } else {
        system[e.1 as int]
    }
}

pub open spec fn entry_view(e: (bool, usize)) -> (bool, int) {
    (e.0, e.1 as int)
}

/// `r` holds, in strictly ascending name order, exactly one entry for every
/// name `w` gives a winner, and that entry is the winner.
pub open spec fn layered(
    r: Seq<(bool, usize)>,
    kf: spec_fn((bool, usize)) -> Seq<char>,
    w: spec_fn(Seq<char>) -> Option<(bool, int)>,
) -> bool {
    &&& forall|j: int| 0 <= j < r.len() ==> w(kf(#[trigger] r[j])) == Some(entry_view(r[j]))
    &&& forall|i: int, j: int| 0 <= i < j < r.len() ==> text_lt(kf(#[trigger] r[i]), kf(#[trigger] r[j]))
    &&& forall|k: Seq<char>| (#[trigger] w(k)) is Some ==> exists|j: int| 0 <= j < r.len() && kf(#[trigger] r[j]) == k
}

pub open spec fn key_fn(system: Seq<Seq<char>>, user: Seq<Seq<char>>) -> spec_fn((bool, usize)) -> Seq<char> {
    |e: (bool, usize)| entry_key(system, user, e)
}

pub open spec fn winner_fn(system: Seq<Seq<char>>, user: Seq<Seq<char>>) -> spec_fn(Seq<char>) -> Option<
    (bool, int),
> {
    |k: Seq<char>| winner(system, user, k)
}

/// `r` is the layering of `user` over `system`.
pub open spec fn is_overlay(system: Seq<Seq<char>>, user: Seq<Seq<char>>, r: Seq<(bool, usize)>) -> bool {
    layered(r, key_fn(system, user), winner_fn(system, user))
}

/// `w` with name `k0` now won by `e`.
pub open spec fn rewin(
    w: spec_fn(Seq<char>) -> Option<(bool, int)>,
    k0: Seq<char>,
    e: (bool, usize),
) -> spec_fn(Seq<char>) -> Option<(bool, int)> {
    |k: Seq<char>| if k == k0 {
        Some(entry_view(e))
    } else {
        w(k)
    }
}

/// Placing a new winner `e` of name `kf(e)` at the first position whose
/// name is not below it (replacing an entry of the same name) keeps the
/// layering.
proof fn lemma_place(
    r: Seq<(bool, usize)>,
    kf: spec_fn((bool, usize)) -> Seq<char>,
    w: spec_fn(Seq<char>) -> Option<(bool, int)>,
    e: (bool, usize),
    p: int,
)
    requires
        layered(r, kf, w),
        0 <= p <= r.len(),
        forall|q: int| 0 <= q < p ==> text_lt(kf(#[trigger] r[q]), kf(e)),
        p < r.len() ==> !text_lt(kf(r[p]), kf(e)),
    ensures
        p < r.len() && kf(r[p]) == kf(e) ==> layered(r.update(p, e), kf, rewin(w, kf(e), e)),
        !(p < r.len() && kf(r[p]) == kf(e)) ==> layered(r.insert(p, e), kf, rewin(w, kf(e), e)),
{
    let k0 = kf(e);
    let w2 = rewin(w, k0, e);
    // entries at or after p are above k0 (or equal at p)
    assert forall|j: int| p <= j < r.len() && !(j == p && kf(r[p]) == k0) implies text_lt(k0, kf(#[trigger] r[j])) by {
        lemma_text_lt_asym(kf(r[p]), k0);
        if j > p {
            assert(text_lt(kf(r[p]), kf(r[j])));
            if kf(r[p]) != k0 {
                lemma_text_lt_trans(k0, kf(r[p]), kf(r[j]));
            }
        }
    }
    // every old entry other than one named k0 is not named k0
    assert forall|j: int| 0 <= j < r.len() && j != p implies kf(#[trigger] r[j]) != k0 by {
        if j < p {
            lemma_text_lt_asym(kf(r[j]), k0);
        } else if p < r.len() && kf(r[p]) == k0 {
            assert(text_lt(kf(r[p]), kf(r[j])));
            lemma_text_lt_asym(kf(r[p]), kf(r[j]));
        } else {
            lemma_text_lt_asym(k0, kf(r[j]));
        }
    }
    if p < r.len() && kf(r[p]) == k0 {
        let r2 = r.update(p, e);
        assert forall|j: int| 0 <= j < r2.len() implies w2(kf(#[trigger] r2[j])) == Some(entry_view(r2[j])) by {
            if j != p {
                assert(r2[j] == r[j]);
            }
        }
        assert forall|i: int, j: int| 0 <= i < j < r2.len() implies text_lt(kf(#[trigger] r2[i]), kf(#[trigger] r2[j])) by {
            assert(text_lt(kf(r[i]), kf(r[j])));
        }
        assert forall|k: Seq<char>| (#[trigger] w2(k)) is Some implies exists|j: int| 0 <= j < r2.len() && kf(#[trigger] r2[j]) == k by {
            if k == k0 {
                assert(kf(r2[p]) == k);
            } else {
                assert(w(k) is Some);
                let j = choose|j: int| 0 <= j < r.len() && kf(#[trigger] r[j]) == k;
                assert(kf(r2[j]) == k);
            }
        }
    } else {
        let r2 = r.insert(p, e);
        assert forall|j: int| 0 <= j < r2.len() implies w2(kf(#[trigger] r2[j])) == Some(entry_view(r2[j])) by {
            if j < p {
                assert(r2[j] == r[j]);
            } else if j > p {
                assert(r2[j] == r[j - 1]);
            }
        }
        assert forall|i: int, j: int| 0 <= i < j < r2.len() implies text_lt(kf(#[trigger] r2[i]), kf(#[trigger] r2[j])) by {
            if j < p {
                assert(text_lt(kf(r[i]), kf(r[j])));
            } else if i < p && j == p {
                assert(r2[i] == r[i]);
            } else if i < p && j > p {
                assert(r2[j] == r[j - 1]);
                if i < j - 1 {
                    assert(text_lt(kf(r[i]), kf(r[j - 1])));
                }
            } else if i == p {
                assert(r2[j] == r[j - 1]);
            } else {
                assert(r2[i] == r[i - 1]);
                assert(r2[j] == r[j - 1]);
                assert(text_lt(kf(r[i - 1]), kf(r[j - 1])));
            }
        }
        assert forall|k: Seq<char>| (#[trigger] w2(k)) is Some implies exists|j: int| 0 <= j < r2.len() && kf(#[trigger] r2[j]) == k by {
            if k == k0 {
                assert(kf(r2[p]) == k);
            } else {
                assert(w(k) is Some);
                let j = choose|j: int| 0 <= j < r.len() && kf(#[trigger] r[j]) == k;
                if j < p {
                    assert(kf(r2[j]) == k);
                } else {
                    assert(kf(r2[j + 1]) == k);
                }
            }
        }
    }
}


/// Entries point into the first `ns` system and first `nu` user names.
pub open spec fn entries_within(r: Seq<(bool, usize)>, ns: int, nu: int) -> bool {
    forall|j: int|
        0 <= j < r.len() ==> (if (#[trigger] r[j]).0 {
            r[j].1 < nu
        } else {
            r[j].1 < ns
        })
}

fn place(
    r: &mut Vec<(bool, usize)>,
    system: &[String],
    user: &[String],
    e: (bool, usize),
    Ghost(w): Ghost<spec_fn(Seq<char>) -> Option<(bool, int)>>,
    Ghost(ns): Ghost<int>,
    Ghost(nu): Ghost<int>,
)
    requires
        layered(old(r)@, key_fn(names(system@), names(user@)), w),
        ns <= system@.len(),
        nu <= user@.len(),
        entries_within(old(r)@, ns, nu),
        if e.0 {
            e.1 < nu
        } else {
            e.1 < ns
        },
    ensures
        layered(final(r)@, key_fn(names(system@), names(user@)), rewin(w, entry_key(names(system@), names(user@), e), e)),
        entries_within(final(r)@, ns, nu),
{
    let ghost kf = key_fn(names(system@), names(user@));
    let k: &str = if e.0 {
        user[e.1].as_str()
    } else {
        system[e.1].as_str()
    };
    assert(k@ == kf(e));
    let mut p: usize = 0;
    while p < r.len()
        invariant
            p <= r@.len(),
            r@ == old(r)@,
            kf == key_fn(names(system@), names(user@)),
            k@ == kf(e),
            entries_within(r@, ns, nu),
            ns <= system@.len(),
            nu <= user@.len(),
            forall|q: int| 0 <= q < p ==> text_lt(kf(#[trigger] r@[q]), kf(e)),
        ensures
            p <= r@.len(),
            r@ == old(r)@,
            forall|q: int| 0 <= q < p ==> text_lt(kf(#[trigger] r@[q]), kf(e)),
            p < r@.len() ==> !text_lt(kf(r@[p as int]), kf(e)),
        decreases r.len() - p,
    {
        let (b, idx) = r[p];
        assert(r@[p as int] == (b, idx));
        let kp: &str = if b {
            user[idx].as_str()
        } else {
            system[idx].as_str()
        };
        assert(kp@ == kf(r@[p as int]));
        if !text_lt_exec(kp, k) {
            break;
        }
        p = p + 1;
    }
    let same = if p < r.len() {
        let (b, idx) = r[p];
        let kp: &str = if b {
            user[idx].as_str()
        } else {
            system[idx].as_str()
        };
        assert(kp@ == kf(r@[p as int]));
        str_eq(kp, k)
    } else {
        false
    };
    proof {
        lemma_place(old(r)@, kf, w, e, p as int);
    }
    if same {
        r.set(p, e);
    } else {
        r.insert(p, e);
    }
    assert forall|j: int| 0 <= j < r@.len() implies (if (#[trigger] r@[j]).0 {
        r@[j].1 < nu
    } else {
        r@[j].1 < ns
    }) by {
        if j != p as int {
            if same || j < p {
                assert(r@[j] == old(r)@[j]);
            } else {
                assert(r@[j] == old(r)@[j - 1]);
            }
        }
    }
}

proof fn lemma_winner_push_system(system: Seq<Seq<char>>, i: usize)
    requires
        i < system.len(),
    ensures
        winner_fn(system.subrange(0, i + 1), Seq::empty()) =~= rewin(
            winner_fn(system.subrange(0, i as int), Seq::empty()),
            system[i as int],
            (false, i),
        ),
{
    let s = system.subrange(0, i as int);
    assert(system.subrange(0, i + 1) =~= s.push(system[i as int]));
    assert forall|k: Seq<char>| #[trigger] winner_fn(system.subrange(0, i + 1), Seq::empty())(k)
        == rewin(winner_fn(s, Seq::empty()), system[i as int], (false, i))(k) by {
        lemma_last_key_index_push(s, system[i as int], k);
        assert(last_key_index(Seq::<Seq<char>>::empty(), k) == -1);
    }
}

proof fn lemma_winner_push_user(system: Seq<Seq<char>>, user: Seq<Seq<char>>, i: usize)
    requires
        i < user.len(),
    ensures
        winner_fn(system, user.subrange(0, i + 1)) =~= rewin(
            winner_fn(system, user.subrange(0, i as int)),
            user[i as int],
            (true, i),
        ),
{
    let u = user.subrange(0, i as int);
    assert(user.subrange(0, i + 1) =~= u.push(user[i as int]));
    assert forall|k: Seq<char>| #[trigger] winner_fn(system, user.subrange(0, i + 1))(k) == rewin(
        winner_fn(system, u),
        user[i as int],
        (true, i),
    )(k) by {
        lemma_last_key_index_push(u, user[i as int], k);
    }
}

/// Layers `user` names over `system` names: for every name in either list,
/// the entry (from the user list, index) of the last user name equal to it,
/// else of the last system name equal to it, in ascending name order.
pub fn overlay_keys(system: &[String], user: &[String]) -> (r: Vec<(bool, usize)>)
    ensures
        is_overlay(names(system@), names(user@), r@),
{
    let ghost kf = key_fn(names(system@), names(user@));
    let mut r: Vec<(bool, usize)> = Vec::new();
    assert(winner_fn(names(system@).subrange(0, 0), Seq::empty()) =~= |k: Seq<char>| None::<(bool, int)>) by {
        assert forall|k: Seq<char>| #[trigger] winner_fn(names(system@).subrange(0, 0), Seq::empty())(k)
            == None::<(bool, int)> by {
            lemma_last_key_index(names(system@).subrange(0, 0), k);
            lemma_last_key_index(Seq::<Seq<char>>::empty(), k);
        }
    }
    let mut i: usize = 0;
    while i < system.len()
        invariant
            i <= system@.len(),
            kf == key_fn(names(system@), names(user@)),
            layered(r@, kf, winner_fn(names(system@).subrange(0, i as int), Seq::empty())),
            entries_within(r@, i as int, 0),
        decreases system.len() - i,
    {
        proof {
            lemma_winner_push_system(names(system@), i);
            assert(entries_within(r@, i + 1, 0));
        }
        place(
            &mut r,
            system,
            user,
            (false, i),
            Ghost(winner_fn(names(system@).subrange(0, i as int), Seq::empty())),
            Ghost(i + 1),
            Ghost(0),
        );
        i = i + 1;
    }
    assert(names(system@).subrange(0, system@.len() as int) =~= names(system@));
    assert(names(user@).subrange(0, 0) =~= Seq::<Seq<char>>::empty());
    let mut j: usize = 0;
    while j < user.len()
        invariant
            j <= user@.len(),
            kf == key_fn(names(system@), names(user@)),
            layered(r@, kf, winner_fn(names(system@), names(user@).subrange(0, j as int))),
            entries_within(r@, system@.len() as int, j as int),
        decreases user.len() - j,
    {
        proof {
            lemma_winner_push_user(names(system@), names(user@), j);
            assert(entries_within(r@, system@.len() as int, j + 1));
        }
        place(
            &mut r,
            system,
            user,
            (true, j),
            Ghost(winner_fn(names(system@), names(user@).subrange(0, j as int))),
            Ghost(system@.len() as int),
            Ghost(j + 1),
        );
        j = j + 1;
    }
    assert(names(user@).subrange(0, user@.len() as int) =~= names(user@));
    r
}


/// User over system: in any layering, a name the user store has is taken
/// from the user store (its last entry of that name), a name only the
/// system store has is taken from the system store, and every name of
/// either store is present exactly once.
pub proof fn law_user_overrides_system(system: Seq<Seq<char>>, user: Seq<Seq<char>>, r: Seq<(bool, usize)>)
    requires
        is_overlay(system, user, r),
    ensures
        forall|j: int, i: int|
            0 <= j < r.len() && 0 <= i < user.len() && #[trigger] user[i] == entry_key(system, user, #[trigger] r[j])
                ==> r[j].0 && i <= r[j].1,
        forall|i: int|
            0 <= i < user.len() ==> exists|j: int|
                0 <= j < r.len() && #[trigger] entry_key(system, user, r[j]) == #[trigger] user[i],
        forall|i: int|
            0 <= i < system.len() ==> exists|j: int|
                0 <= j < r.len() && #[trigger] entry_key(system, user, r[j]) == #[trigger] system[i],
        forall|j1: int, j2: int|
            0 <= j1 < j2 < r.len() ==> entry_key(system, user, #[trigger] r[j1]) != entry_key(
                system,
                user,
                #[trigger] r[j2],
            ),
{
    let kf = key_fn(system, user);
    let wf = winner_fn(system, user);
    assert forall|j: int, i: int|
        0 <= j < r.len() && 0 <= i < user.len() && #[trigger] user[i] == entry_key(system, user, #[trigger] r[j])
        implies r[j].0 && i <= r[j].1 by {
        let k = entry_key(system, user, r[j]);
        assert(kf(r[j]) == k);
        assert(wf(k) == Some(entry_view(r[j])));
        lemma_last_key_index(user, k);
        assert(last_key_index(user, k) >= i);
    }
    assert forall|i: int| 0 <= i < user.len() implies exists|j: int|
        0 <= j < r.len() && #[trigger] entry_key(system, user, r[j]) == #[trigger] user[i] by {
        let k = user[i];
        lemma_last_key_index(user, k);
        assert(wf(k) is Some);
        let j = choose|j: int| 0 <= j < r.len() && kf(#[trigger] r[j]) == k;
        assert(entry_key(system, user, r[j]) == k);
    }
    assert forall|i: int| 0 <= i < system.len() implies exists|j: int|
        0 <= j < r.len() && #[trigger] entry_key(system, user, r[j]) == #[trigger] system[i] by {
        let k = system[i];
        lemma_last_key_index(user, k);
        lemma_last_key_index(system, k);
        assert(wf(k) is Some);
        let j = choose|j: int| 0 <= j < r.len() && kf(#[trigger] r[j]) == k;
        assert(entry_key(system, user, r[j]) == k);
    }
    assert forall|j1: int, j2: int| 0 <= j1 < j2 < r.len() implies entry_key(system, user, #[trigger] r[j1])
        != entry_key(system, user, #[trigger] r[j2]) by {
        assert(text_lt(kf(r[j1]), kf(r[j2])));
        lemma_text_lt_asym(kf(r[j1]), kf(r[j2]));
    }
}

} // verus!
