use vstd::prelude::*;
use crate::state::{PoolEntry, PoolInfo, UserEntry, UserInfo};
use vstd::utf8::{decode_utf8, encode_utf8, encode_utf8_decode_utf8};

verus! {

/// Sum of the weights of a sequence of pools.
pub open spec fn sum_alloc(pools: Seq<PoolEntry>) -> int
    decreases pools.len(),
{
    if pools.len() == 0 {
        0
    } else {
        sum_alloc(pools.drop_last()) + pools.last().info.alloc_point
    }
}

/// No two pools share an LP token.
pub open spec fn pool_keys_unique(pools: Seq<PoolEntry>) -> bool {
    forall|i: int, j: int|
        0 <= i < pools.len() && 0 <= j < pools.len() && i != j ==> pools[i].lp_token@
            != pools[j].lp_token@
}

pub open spec fn has_pool(pools: Seq<PoolEntry>, lp_token: Seq<char>) -> bool {
    exists|i: int| 0 <= i < pools.len() && pools[i].lp_token@ == lp_token
}

/// Position of the pool of an LP token (meaningful when there is one).
pub open spec fn pool_pos(pools: Seq<PoolEntry>, lp_token: Seq<char>) -> int {
    choose|i: int| 0 <= i < pools.len() && pools[i].lp_token@ == lp_token
}

pub open spec fn user_matches(e: UserEntry, lp_token: Seq<char>, account: Seq<char>) -> bool {
    e.lp_token@ == lp_token && e.account@ == account
}

/// No two positions share a (pool, account) pair.
pub open spec fn user_keys_unique(users: Seq<UserEntry>) -> bool {
    forall|i: int, j: int|
        0 <= i < users.len() && 0 <= j < users.len() && i != j ==> !user_matches(
            users[i],
            users[j].lp_token@,
            users[j].account@,
        )
}

pub open spec fn has_user(users: Seq<UserEntry>, lp_token: Seq<char>, account: Seq<char>) -> bool {
    exists|i: int| 0 <= i < users.len() && user_matches(users[i], lp_token, account)
}

pub open spec fn user_pos(users: Seq<UserEntry>, lp_token: Seq<char>, account: Seq<char>) -> int {
    choose|i: int| 0 <= i < users.len() && user_matches(users[i], lp_token, account)
}

/// An empty position.
pub open spec fn empty_user() -> UserInfo {
    UserInfo { amount: 0, reward_debt: 0, reward_debt_proxy: 0 }
}

/// The position of an account in a pool; an empty one where there is none.
pub open spec fn user_of(users: Seq<UserEntry>, lp_token: Seq<char>, account: Seq<char>) -> UserInfo {
    if has_user(users, lp_token, account) {
        users[user_pos(users, lp_token, account)].info
    } else {
        empty_user()
    }
}

pub proof fn lemma_pool_pos(pools: Seq<PoolEntry>, i: int)
    requires
        pool_keys_unique(pools),
        0 <= i < pools.len(),
    ensures
        has_pool(pools, pools[i].lp_token@),
        pool_pos(pools, pools[i].lp_token@) == i,
{
    assert(has_pool(pools, pools[i].lp_token@));
}

pub proof fn lemma_user_pos(users: Seq<UserEntry>, i: int)
    requires
        user_keys_unique(users),
        0 <= i < users.len(),
    ensures
        has_user(users, users[i].lp_token@, users[i].account@),
        user_pos(users, users[i].lp_token@, users[i].account@) == i,
        user_of(users, users[i].lp_token@, users[i].account@) == users[i].info,
{
    assert(user_matches(users[i], users[i].lp_token@, users[i].account@));
}

/// The weight sum of a prefix never exceeds that of the whole sequence.
pub proof fn lemma_sum_alloc_update(pools: Seq<PoolEntry>, i: int, e: PoolEntry)
    requires
        0 <= i < pools.len(),
    ensures
        sum_alloc(pools.update(i, e)) == sum_alloc(pools) - pools[i].info.alloc_point
            + e.info.alloc_point,
        sum_alloc(pools) >= pools[i].info.alloc_point,
    decreases pools.len(),
{
    lemma_sum_alloc_nonneg(pools.drop_last());
    if i == pools.len() - 1 {
        assert(pools.update(i, e).drop_last() =~= pools.drop_last());
    } else {
        lemma_sum_alloc_update(pools.drop_last(), i, e);
        assert(pools.update(i, e).drop_last() =~= pools.drop_last().update(i, e));
    }
}

pub proof fn lemma_sum_alloc_nonneg(pools: Seq<PoolEntry>)
    ensures
        sum_alloc(pools) >= 0,
    decreases pools.len(),
{
    if pools.len() > 0 {
        lemma_sum_alloc_nonneg(pools.drop_last());
    }
}

pub proof fn lemma_sum_alloc_push(pools: Seq<PoolEntry>, e: PoolEntry)
    ensures
        sum_alloc(pools.push(e)) == sum_alloc(pools) + e.info.alloc_point,
{
    assert(pools.push(e).drop_last() =~= pools);
}

/// Replacing the position at `i` by one under the same key changes that position only.
pub proof fn lemma_user_of_update(
    users: Seq<UserEntry>,
    i: int,
    e: UserEntry,
    lp_token: Seq<char>,
    account: Seq<char>,
)
    requires
        user_keys_unique(users),
        0 <= i < users.len(),
        e.lp_token@ == users[i].lp_token@,
        e.account@ == users[i].account@,
    ensures
        user_keys_unique(users.update(i, e)),
        user_of(users.update(i, e), lp_token, account) == if user_matches(e, lp_token, account) {
            e.info
        } else {
            user_of(users, lp_token, account)
        },
{
    let n = users.update(i, e);
    assert forall|a: int, b: int|
        0 <= a < n.len() && 0 <= b < n.len() && a != b implies !user_matches(
            n[a],
            n[b].lp_token@,
            n[b].account@,
        ) by {
        assert(user_matches(n[a], n[b].lp_token@, n[b].account@) ==> user_matches(
            users[a],
            users[b].lp_token@,
            users[b].account@,
        ));
    }
    if user_matches(e, lp_token, account) {
        lemma_user_pos(n, i);
    } else {
        if has_user(users, lp_token, account) {
            let k = user_pos(users, lp_token, account);
            lemma_user_pos(users, k);
            lemma_user_pos(n, k);
        } else {
            assert(!has_user(n, lp_token, account)) by {
                if has_user(n, lp_token, account) {
                    let k = user_pos(n, lp_token, account);
                    assert(user_matches(users[k], lp_token, account));
                }
            }
        }
    }
}

/// Appending a position under a new key adds that position only.
pub proof fn lemma_user_of_push(users: Seq<UserEntry>, e: UserEntry, lp_token: Seq<char>, account: Seq<char>)
    requires
        user_keys_unique(users),
        !has_user(users, e.lp_token@, e.account@),
    ensures
        user_keys_unique(users.push(e)),
        user_of(users.push(e), lp_token, account) == if user_matches(e, lp_token, account) {
            e.info
        } else {
            user_of(users, lp_token, account)
        },
{
    let n = users.push(e);
    assert forall|i: int, j: int|
        0 <= i < n.len() && 0 <= j < n.len() && i != j implies !user_matches(
            n[i],
            n[j].lp_token@,
            n[j].account@,
        ) by {
        if i == users.len() as int {
            assert(user_matches(users[j], e.lp_token@, e.account@) ==> has_user(users, e.lp_token@, e.account@));
        } else if j == users.len() as int {
            assert(user_matches(users[i], e.lp_token@, e.account@) ==> has_user(users, e.lp_token@, e.account@));
        }
    }
    if user_matches(e, lp_token, account) {
        lemma_user_pos(n, users.len() as int);
    } else if has_user(users, lp_token, account) {
        let k = user_pos(users, lp_token, account);
        lemma_user_pos(users, k);
        lemma_user_pos(n, k);
    } else {
        assert(!has_user(n, lp_token, account)) by {
            if has_user(n, lp_token, account) {
                let k = user_pos(n, lp_token, account);
                assert(user_matches(users[k], lp_token, account));
            }
        }
    }
}

/// Removing the position at `i` removes that position only.
pub proof fn lemma_user_of_remove(users: Seq<UserEntry>, i: int, lp_token: Seq<char>, account: Seq<char>)
    requires
        user_keys_unique(users),
        0 <= i < users.len(),
    ensures
        user_keys_unique(users.remove(i)),
        !has_user(users.remove(i), users[i].lp_token@, users[i].account@),
        user_of(users.remove(i), lp_token, account) == if user_matches(users[i], lp_token, account) {
            empty_user()
        } else {
            user_of(users, lp_token, account)
        },
{
    let n = users.remove(i);
    assert forall|a: int, b: int|
        0 <= a < n.len() && 0 <= b < n.len() && a != b implies !user_matches(
            n[a],
            n[b].lp_token@,
            n[b].account@,
        ) by {
        let a2 = if a < i { a } else { a + 1 };
        let b2 = if b < i { b } else { b + 1 };
        assert(n[a] == users[a2] && n[b] == users[b2]);
    }
    assert(!has_user(n, users[i].lp_token@, users[i].account@)) by {
        if has_user(n, users[i].lp_token@, users[i].account@) {
            let k = user_pos(n, users[i].lp_token@, users[i].account@);
            let k2 = if k < i { k } else { k + 1 };
            assert(n[k] == users[k2]);
        }
    }
    if !user_matches(users[i], lp_token, account) {
        if has_user(users, lp_token, account) {
            let k = user_pos(users, lp_token, account);
            lemma_user_pos(users, k);
            let k2 = if k < i { k } else { k - 1 };
            assert(n[k2] == users[k]);
            lemma_user_pos(n, k2);
        } else {
            assert(!has_user(n, lp_token, account)) by {
                if has_user(n, lp_token, account) {
                    let k = user_pos(n, lp_token, account);
                    let k2 = if k < i { k } else { k + 1 };
                    assert(n[k] == users[k2]);
                }
            }
        }
    }
}

/// Replacing the pool at `i` by one under the same key keeps the keys unique.
pub proof fn lemma_pool_keys_update(pools: Seq<PoolEntry>, i: int, info: PoolInfo)
    requires
        pool_keys_unique(pools),
        0 <= i < pools.len(),
    ensures
        ({
            let e = PoolEntry { lp_token: pools[i].lp_token, info };
            &&& pool_keys_unique(pools.update(i, e))
            &&& sum_alloc(pools.update(i, e)) == sum_alloc(pools) - pools[i].info.alloc_point
                + info.alloc_point
            &&& pools_sorted(pools) ==> pools_sorted(pools.update(i, e))
        }),
{
    let e = PoolEntry { lp_token: pools[i].lp_token, info };
    lemma_sum_alloc_update(pools, i, e);
    let n = pools.update(i, e);
    if pools_sorted(pools) {
        assert forall|a: int, b: int| 0 <= a < b < n.len() implies key_lt(
            #[trigger] n[a].lp_token@,
            #[trigger] n[b].lp_token@,
        ) by {
            assert(n[a].lp_token@ == pools[a].lp_token@);
            assert(n[b].lp_token@ == pools[b].lp_token@);
        }
    }
}

/// The bytes a key is stored and ordered by: its UTF-8 encoding.
pub open spec fn key_bytes(key: Seq<char>) -> Seq<u8> {
    encode_utf8(key)
}

/// Lexicographic order on byte strings; a proper prefix comes first.
pub open spec fn bytes_lt(a: Seq<u8>, b: Seq<u8>) -> bool
    decreases a.len(),
{
    if a.len() == 0 {
        b.len() > 0
    } else if b.len() == 0 {
        false
    } else if a[0] != b[0] {
        a[0] < b[0]
    } else {
        bytes_lt(a.drop_first(), b.drop_first())
    }
}

/// Whether key `a` comes before key `b`.
pub open spec fn key_lt(a: Seq<char>, b: Seq<char>) -> bool {
    bytes_lt(key_bytes(a), key_bytes(b))
}

/// Pools stand in ascending order of their LP tokens.
pub open spec fn pools_sorted(pools: Seq<PoolEntry>) -> bool {
    forall|i: int, j: int|
        0 <= i < j < pools.len() ==> key_lt(#[trigger] pools[i].lp_token@, #[trigger] pools[j].lp_token@)
}

pub proof fn lemma_bytes_lt_irreflexive(a: Seq<u8>)
    ensures
        !bytes_lt(a, a),
    decreases a.len(),
{
    if a.len() > 0 {
        lemma_bytes_lt_irreflexive(a.drop_first());
    }
}

pub proof fn lemma_bytes_lt_transitive(a: Seq<u8>, b: Seq<u8>, c: Seq<u8>)
    requires
        bytes_lt(a, b),
        bytes_lt(b, c),
    ensures
        bytes_lt(a, c),
    decreases a.len(),
{
    if a.len() > 0 && b.len() > 0 && c.len() > 0 && a[0] == b[0] && b[0] == c[0] {
        lemma_bytes_lt_transitive(a.drop_first(), b.drop_first(), c.drop_first());
    }
}

/// Two different byte strings are ordered one way or the other.
pub proof fn lemma_bytes_lt_total(a: Seq<u8>, b: Seq<u8>)
    requires
        a != b,
    ensures
        bytes_lt(a, b) || bytes_lt(b, a),
    decreases a.len(),
{
    if a.len() > 0 && b.len() > 0 && a[0] == b[0] {
        if a.drop_first() == b.drop_first() {
            assert(a =~= seq![a[0]] + a.drop_first());
            assert(b =~= seq![b[0]] + b.drop_first());
        }
        lemma_bytes_lt_total(a.drop_first(), b.drop_first());
    } else if a.len() == 0 && b.len() == 0 {
        assert(a =~= b);
    }
}

/// Different keys have different bytes.
pub proof fn lemma_key_bytes_injective(a: Seq<char>, b: Seq<char>)
    requires
        a != b,
    ensures
        key_bytes(a) != key_bytes(b),
{
    encode_utf8_decode_utf8(a);
    encode_utf8_decode_utf8(b);
}

/// Sorted pools have unique keys.
pub proof fn lemma_sorted_unique(pools: Seq<PoolEntry>)
    requires
        pools_sorted(pools),
    ensures
        pool_keys_unique(pools),
{
    assert forall|i: int, j: int|
        0 <= i < pools.len() && 0 <= j < pools.len() && i != j implies pools[i].lp_token@
        != pools[j].lp_token@ by {
        lemma_bytes_lt_irreflexive(key_bytes(pools[i].lp_token@));
        if i < j {
            assert(key_lt(pools[i].lp_token@, pools[j].lp_token@));
        } else {
            assert(key_lt(pools[j].lp_token@, pools[i].lp_token@));
        }
    }
}

pub proof fn lemma_sum_alloc_insert(pools: Seq<PoolEntry>, p: int, e: PoolEntry)
    requires
        0 <= p <= pools.len(),
    ensures
        sum_alloc(pools.insert(p, e)) == sum_alloc(pools) + e.info.alloc_point,
    decreases pools.len(),
{
    if p == pools.len() {
        assert(pools.insert(p, e) =~= pools.push(e));
        lemma_sum_alloc_push(pools, e);
    } else {
        lemma_sum_alloc_insert(pools.drop_last(), p, e);
        assert(pools.insert(p, e).drop_last() =~= pools.drop_last().insert(p, e));
    }
}

/// Whether key `a` comes before key `b`, as the byte order of their encodings decides.
pub fn key_less(a: &String, b: &String) -> (r: bool)
    ensures
        r == key_lt(a@, b@),
{
    let x = a.as_str().as_bytes();
    let y = b.as_str().as_bytes();
    let mut i: usize = 0;
    proof {
        assert(x@.subrange(0, x@.len() as int) =~= x@);
        assert(y@.subrange(0, y@.len() as int) =~= y@);
    }
    while i < x.len() && i < y.len()
        invariant
            x@ == key_bytes(a@),
            y@ == key_bytes(b@),
            i <= x@.len(),
            i <= y@.len(),
            bytes_lt(x@, y@) == bytes_lt(x@.subrange(i as int, x@.len() as int), y@.subrange(i as int, y@.len() as int)),
        decreases x@.len() - i,
    {
        if x[i] != y[i] {
            return x[i] < y[i];
        }
        proof {
            let xs = x@.subrange(i as int, x@.len() as int);
            let ys = y@.subrange(i as int, y@.len() as int);
            assert(xs.drop_first() =~= x@.subrange(i + 1, x@.len() as int));
            assert(ys.drop_first() =~= y@.subrange(i + 1, y@.len() as int));
        }
        i = i + 1;
    }
    i < y.len()
}

/// `p` is where `key` belongs among the pools: after every smaller key, before every larger.
pub open spec fn is_sorted_pos(pools: Seq<PoolEntry>, key: Seq<char>, p: int) -> bool {
    &&& 0 <= p <= pools.len()
    &&& forall|i: int| 0 <= i < p ==> key_lt(#[trigger] pools[i].lp_token@, key)
    &&& forall|i: int| p <= i < pools.len() ==> key_lt(key, #[trigger] pools[i].lp_token@)
}

/// The pools with `e` inserted at the place its key belongs.
pub open spec fn added_pools(pools: Seq<PoolEntry>, e: PoolEntry) -> Seq<PoolEntry> {
    pools.insert(choose|p: int| is_sorted_pos(pools, e.lp_token@, p), e)
}

/// A sorted insertion keeps the pools sorted, and its place is unique.
pub proof fn lemma_sorted_insert(pools: Seq<PoolEntry>, e: PoolEntry, p: int)
    requires
        pools_sorted(pools),
        is_sorted_pos(pools, e.lp_token@, p),
    ensures
        added_pools(pools, e) == pools.insert(p, e),
        pools_sorted(pools.insert(p, e)),
{
    let key = e.lp_token@;
    let q = choose|q: int| is_sorted_pos(pools, key, q);
    assert(is_sorted_pos(pools, key, q));
    if q != p {
        let m = if q < p { q } else { p };
        assert(key_lt(pools[m].lp_token@, key));
        assert(key_lt(key, pools[m].lp_token@));
        lemma_bytes_lt_transitive(
            key_bytes(pools[m].lp_token@),
            key_bytes(key),
            key_bytes(pools[m].lp_token@),
        );
        lemma_bytes_lt_irreflexive(key_bytes(pools[m].lp_token@));
    }
    let n = pools.insert(p, e);
    assert forall|a: int, b: int| 0 <= a < b < n.len() implies key_lt(
        #[trigger] n[a].lp_token@,
        #[trigger] n[b].lp_token@,
    ) by {
        if a < p && b < p {
            assert(n[a] == pools[a] && n[b] == pools[b]);
        } else if a < p && b == p {
            assert(n[a] == pools[a]);
        } else if a < p {
            assert(n[a] == pools[a] && n[b] == pools[b - 1]);
        } else if a == p {
            assert(n[b] == pools[b - 1]);
        } else {
            assert(n[a] == pools[a - 1] && n[b] == pools[b - 1]);
        }
    }
}

/// A key not yet registered has a place among sorted pools.
pub proof fn lemma_sorted_pos_exists(pools: Seq<PoolEntry>, key: Seq<char>) -> (p: int)
    requires
        pools_sorted(pools),
        !has_pool(pools, key),
    ensures
        is_sorted_pos(pools, key, p),
    decreases pools.len(),
{
    if pools.len() == 0 {
        0
    } else {
        let init = pools.drop_last();
        let n = pools.len() - 1;
        assert(pools_sorted(init)) by {
            assert forall|i: int, j: int| 0 <= i < j < init.len() implies key_lt(
                #[trigger] init[i].lp_token@,
                #[trigger] init[j].lp_token@,
            ) by {
                assert(init[i] == pools[i] && init[j] == pools[j]);
            }
        }
        assert(!has_pool(init, key)) by {
            if has_pool(init, key) {
                let k = pool_pos(init, key);
                assert(pools[k] == init[k]);
            }
        }
        let q = lemma_sorted_pos_exists(init, key);
        let last = pools[n].lp_token@;
        assert(last != key);
        lemma_key_bytes_injective(last, key);
        lemma_bytes_lt_total(key_bytes(last), key_bytes(key));
        if key_lt(last, key) {
            assert forall|i: int| 0 <= i < pools.len() implies key_lt(#[trigger] pools[i].lp_token@, key) by {
                if i < n {
                    assert(key_lt(pools[i].lp_token@, last));
                    lemma_bytes_lt_transitive(key_bytes(pools[i].lp_token@), key_bytes(last), key_bytes(key));
                }
            }
            pools.len() as int
        } else {
            if q < n {
                assert(key_lt(key, init[q].lp_token@));
                assert(key_lt(pools[q].lp_token@, last));
                lemma_bytes_lt_transitive(key_bytes(key), key_bytes(pools[q].lp_token@), key_bytes(last));
            }
            assert forall|i: int| 0 <= i < q implies key_lt(#[trigger] pools[i].lp_token@, key) by {
                assert(pools[i] == init[i]);
            }
            assert forall|i: int| q <= i < pools.len() implies key_lt(key, #[trigger] pools[i].lp_token@) by {
                if i < n {
                    assert(pools[i] == init[i]);
                }
            }
            q
        }
    }
}

} // verus!
