use vstd::prelude::*;

use crate::account::AccountId;
use crate::errors::PSP22Error;

verus! {

/// First-match lookup of an account's entry; absent accounts hold zero.
pub open spec fn bal_lookup(s: Seq<(AccountId, u128)>, a: AccountId) -> u128
    decreases s.len(),
{
    if s.len() == 0 {
        0
    } else if s[0].0 == a {
        s[0].1
    } else {
        bal_lookup(s.drop_first(), a)
    }
}

pub open spec fn bal_has_key(s: Seq<(AccountId, u128)>, a: AccountId) -> bool {
    exists|k: int| 0 <= k < s.len() && s[k].0 == a
}

/// Sum of all entries.
pub open spec fn bal_sum(s: Seq<(AccountId, u128)>) -> int
    decreases s.len(),
{
    if s.len() == 0 {
        0
    } else {
        s[0].1 + bal_sum(s.drop_first())
    }
}

pub proof fn lemma_bal_sum_nonneg(s: Seq<(AccountId, u128)>)
    ensures
        bal_sum(s) >= 0,
    decreases s.len(),
{
    if s.len() > 0 {
        lemma_bal_sum_nonneg(s.drop_first());
    }
}

/// Any account's balance is at most the sum of all entries.
pub proof fn lemma_bal_lookup_le_sum(s: Seq<(AccountId, u128)>, a: AccountId)
    ensures
        bal_lookup(s, a) <= bal_sum(s),
    decreases s.len(),
{
    if s.len() > 0 {
        lemma_bal_sum_nonneg(s.drop_first());
        if s[0].0 != a {
            lemma_bal_lookup_le_sum(s.drop_first(), a);
        }
    }
}

/// Updating entry `i` does not change any other key's first-match value.
proof fn lemma_bal_update_other(s: Seq<(AccountId, u128)>, i: int, a: AccountId, v: u128, b: AccountId)
    requires
        0 <= i < s.len(),
        s[i].0 == a,
        b != a,
    ensures
        bal_lookup(s.update(i, (a, v)), b) == bal_lookup(s, b),
    decreases s.len(),
{
    let s2 = s.update(i, (a, v));
    if i == 0 {
        assert(s2.drop_first() =~= s.drop_first());
    } else {
        assert(s2.drop_first() =~= s.drop_first().update(i - 1, (a, v)));
        lemma_bal_update_other(s.drop_first(), i - 1, a, v, b);
    }
}

/// Updating entry `i` shifts the sum by the difference of the values.
proof fn lemma_bal_update_sum(s: Seq<(AccountId, u128)>, i: int, a: AccountId, v: u128)
    requires
        0 <= i < s.len(),
    ensures
        bal_sum(s.update(i, (a, v))) == bal_sum(s) - s[i].1 + v,
    decreases s.len(),
{
    let s2 = s.update(i, (a, v));
    if i == 0 {
        assert(s2.drop_first() =~= s.drop_first());
    } else {
        assert(s2.drop_first() =~= s.drop_first().update(i - 1, (a, v)));
        lemma_bal_update_sum(s.drop_first(), i - 1, a, v);
    }
}

/// Overwriting the first entry of `a` with value `v` sets `a`'s balance
/// to `v`, leaves every other account's balance alone, and shifts the sum
/// by the difference.
pub proof fn lemma_bal_update(s: Seq<(AccountId, u128)>, i: int, a: AccountId, v: u128)
    requires
        0 <= i < s.len(),
        s[i].0 == a,
        forall|k: int| 0 <= k < i ==> s[k].0 != a,
    ensures
        bal_lookup(s.update(i, (a, v)), a) == v,
        forall|b: AccountId| b != a ==> bal_lookup(s.update(i, (a, v)), b) == bal_lookup(s, b),
        bal_sum(s.update(i, (a, v))) == bal_sum(s) - s[i].1 + v,
    decreases s.len(),
{
    lemma_bal_prefix_lookup(s.update(i, (a, v)), i, a);
    lemma_bal_update_sum(s, i, a, v);
    assert forall|b: AccountId| b != a implies bal_lookup(s.update(i, (a, v)), b) == bal_lookup(
        s,
        b,
    ) by {
        lemma_bal_update_other(s, i, a, v, b);
    }
}

/// Appending an entry does not change any other key's first-match value.
proof fn lemma_bal_push_other(s: Seq<(AccountId, u128)>, a: AccountId, v: u128, b: AccountId)
    requires
        b != a,
    ensures
        bal_lookup(s.push((a, v)), b) == bal_lookup(s, b),
    decreases s.len(),
{
    let s2 = s.push((a, v));
    assert(s2.len() == s.len() + 1);
    assert(s2[0] == (if s.len() == 0 { (a, v) } else { s[0] }));
    if s.len() == 0 {
        assert(s2.drop_first() =~= Seq::empty());
        assert(bal_lookup(s2.drop_first(), b) == 0);
        assert(bal_lookup(s2, b) == 0);
        assert(bal_lookup(s, b) == 0);
    } else {
        assert(s2.drop_first() =~= s.drop_first().push((a, v)));
        lemma_bal_push_other(s.drop_first(), a, v, b);
        assert(bal_lookup(s2.drop_first(), b) == bal_lookup(s.drop_first(), b));
        assert(bal_lookup(s2, b) == (if s2[0].0 == b {
            s2[0].1
        } else {
            bal_lookup(s2.drop_first(), b)
        }));
        assert(bal_lookup(s, b) == (if s[0].0 == b {
            s[0].1
        } else {
            bal_lookup(s.drop_first(), b)
        }));
    }
}

/// Appending an entry adds its value to the sum.
proof fn lemma_bal_push_sum(s: Seq<(AccountId, u128)>, a: AccountId, v: u128)
    ensures
        bal_sum(s.push((a, v))) == bal_sum(s) + v,
    decreases s.len(),
{
    let s2 = s.push((a, v));
    assert(s2.len() == s.len() + 1);
    assert(s2[0] == (if s.len() == 0 { (a, v) } else { s[0] }));
    if s.len() == 0 {
        assert(s2.drop_first() =~= Seq::empty());
        assert(bal_sum(s2.drop_first()) == 0);
        assert(bal_sum(s2) == s2[0].1 + bal_sum(s2.drop_first()));
        assert(bal_sum(s2) == v);
        assert(bal_sum(s) == 0);
    } else {
        assert(s2.drop_first() =~= s.drop_first().push((a, v)));
        lemma_bal_push_sum(s.drop_first(), a, v);
        assert(bal_sum(s2.drop_first()) == bal_sum(s.drop_first()) + v);
        assert(bal_sum(s2) == s2[0].1 + bal_sum(s2.drop_first()));
        assert(bal_sum(s) == s[0].1 + bal_sum(s.drop_first()));
    }
}

/// Appending an entry for an absent account sets its balance, leaves
/// every other account's balance alone, and adds to the sum.
pub proof fn lemma_bal_push(s: Seq<(AccountId, u128)>, a: AccountId, v: u128)
    requires
        !bal_has_key(s, a),
    ensures
        bal_lookup(s.push((a, v)), a) == v,
        forall|b: AccountId| b != a ==> bal_lookup(s.push((a, v)), b) == bal_lookup(s, b),
        bal_sum(s.push((a, v))) == bal_sum(s) + v,
{
    assert(s.push((a, v))[s.len() as int].0 == a);
    lemma_bal_prefix_lookup(s.push((a, v)), s.len() as int, a);
    lemma_bal_push_sum(s, a, v);
    assert forall|b: AccountId| b != a implies bal_lookup(s.push((a, v)), b) == bal_lookup(
        s,
        b,
    ) by {
        lemma_bal_push_other(s, a, v, b);
    }
}

/// An absent account's balance is zero.
pub proof fn lemma_bal_absent(s: Seq<(AccountId, u128)>, a: AccountId)
    requires
        !bal_has_key(s, a),
    ensures
        bal_lookup(s, a) == 0,
    decreases s.len(),
{
    if s.len() > 0 {
        assert(s[0].0 != a);
        assert(!bal_has_key(s.drop_first(), a)) by {
            if bal_has_key(s.drop_first(), a) {
                let k = choose|k: int|
                    0 <= k < s.drop_first().len() && s.drop_first()[k].0 == a;
                assert(s[k + 1].0 == a);
            }
        }
        lemma_bal_absent(s.drop_first(), a);
    }
}

/// First-match lookup of an allowance entry; absent pairs hold zero.
pub open spec fn alw_lookup(
    s: Seq<(AccountId, AccountId, u128)>,
    o: AccountId,
    p: AccountId,
) -> u128
    decreases s.len(),
{
    if s.len() == 0 {
        0
    } else if s[0].0 == o && s[0].1 == p {
        s[0].2
    } else {
        alw_lookup(s.drop_first(), o, p)
    }
}

pub open spec fn alw_has_key(s: Seq<(AccountId, AccountId, u128)>, o: AccountId, p: AccountId) -> bool {
    exists|k: int| 0 <= k < s.len() && s[k].0 == o && s[k].1 == p
}

/// Updating entry `i` does not change any other pair's first-match value.
proof fn lemma_alw_update_other(
    s: Seq<(AccountId, AccountId, u128)>,
    i: int,
    o: AccountId,
    p: AccountId,
    v: u128,
    b: AccountId,
    q: AccountId,
)
    requires
        0 <= i < s.len(),
        s[i].0 == o && s[i].1 == p,
        !(b == o && q == p),
    ensures
        alw_lookup(s.update(i, (o, p, v)), b, q) == alw_lookup(s, b, q),
    decreases s.len(),
{
    let s2 = s.update(i, (o, p, v));
    if i == 0 {
        assert(s2.drop_first() =~= s.drop_first());
    } else {
        assert(s2.drop_first() =~= s.drop_first().update(i - 1, (o, p, v)));
        lemma_alw_update_other(s.drop_first(), i - 1, o, p, v, b, q);
    }
}

/// The allowance analogue of [`lemma_bal_update`].
pub proof fn lemma_alw_update(
    s: Seq<(AccountId, AccountId, u128)>,
    i: int,
    o: AccountId,
    p: AccountId,
    v: u128,
)
    requires
        0 <= i < s.len(),
        s[i].0 == o && s[i].1 == p,
        forall|k: int| 0 <= k < i ==> !(s[k].0 == o && s[k].1 == p),
    ensures
        alw_lookup(s.update(i, (o, p, v)), o, p) == v,
        forall|b: AccountId, q: AccountId|
            !(b == o && q == p) ==> alw_lookup(s.update(i, (o, p, v)), b, q) == alw_lookup(
                s,
                b,
                q,
            ),
{
    lemma_alw_prefix_lookup(s.update(i, (o, p, v)), i, o, p);
    assert forall|b: AccountId, q: AccountId| !(b == o && q == p) implies alw_lookup(
        s.update(i, (o, p, v)),
        b,
        q,
    ) == alw_lookup(s, b, q) by {
        lemma_alw_update_other(s, i, o, p, v, b, q);
    }
}

/// Appending an entry does not change any other pair's first-match value.
proof fn lemma_alw_push_other(
    s: Seq<(AccountId, AccountId, u128)>,
    o: AccountId,
    p: AccountId,
    v: u128,
    b: AccountId,
    q: AccountId,
)
    requires
        !(b == o && q == p),
    ensures
        alw_lookup(s.push((o, p, v)), b, q) == alw_lookup(s, b, q),
    decreases s.len(),
{
    let s2 = s.push((o, p, v));
    assert(s2.len() == s.len() + 1);
    assert(s2[0] == (if s.len() == 0 { (o, p, v) } else { s[0] }));
    if s.len() == 0 {
        assert(s2.drop_first() =~= Seq::empty());
        assert(alw_lookup(s2.drop_first(), b, q) == 0);
        assert(alw_lookup(s2, b, q) == 0);
        assert(alw_lookup(s, b, q) == 0);
    } else {
        assert(s2.drop_first() =~= s.drop_first().push((o, p, v)));
        lemma_alw_push_other(s.drop_first(), o, p, v, b, q);
        assert(alw_lookup(s2.drop_first(), b, q) == alw_lookup(s.drop_first(), b, q));
        assert(alw_lookup(s2, b, q) == (if s2[0].0 == b && s2[0].1 == q {
            s2[0].2
        } else {
            alw_lookup(s2.drop_first(), b, q)
        }));
        assert(alw_lookup(s, b, q) == (if s[0].0 == b && s[0].1 == q {
            s[0].2
        } else {
            alw_lookup(s.drop_first(), b, q)
        }));
    }
}

/// The allowance analogue of [`lemma_bal_push`].
pub proof fn lemma_alw_push(s: Seq<(AccountId, AccountId, u128)>, o: AccountId, p: AccountId, v: u128)
    requires
        !alw_has_key(s, o, p),
    ensures
        alw_lookup(s.push((o, p, v)), o, p) == v,
        forall|b: AccountId, q: AccountId|
            !(b == o && q == p) ==> alw_lookup(s.push((o, p, v)), b, q) == alw_lookup(s, b, q),
{
    assert(s.push((o, p, v))[s.len() as int].0 == o);
    lemma_alw_prefix_lookup(s.push((o, p, v)), s.len() as int, o, p);
    assert forall|b: AccountId, q: AccountId| !(b == o && q == p) implies alw_lookup(
        s.push((o, p, v)),
        b,
        q,
    ) == alw_lookup(s, b, q) by {
        lemma_alw_push_other(s, o, p, v, b, q);
    }
}

/// The allowance analogue of [`lemma_bal_absent`].
pub proof fn lemma_alw_absent(s: Seq<(AccountId, AccountId, u128)>, o: AccountId, p: AccountId)
    requires
        !alw_has_key(s, o, p),
    ensures
        alw_lookup(s, o, p) == 0,
    decreases s.len(),
{
    if s.len() > 0 {
        assert(!alw_has_key(s.drop_first(), o, p)) by {
            if alw_has_key(s.drop_first(), o, p) {
                let k = choose|k: int|
                    0 <= k < s.drop_first().len() && s.drop_first()[k].0 == o
                        && s.drop_first()[k].1 == p;
                assert(s[k + 1].0 == o && s[k + 1].1 == p);
            }
        }
        lemma_alw_absent(s.drop_first(), o, p);
    }
}

/// An in-memory fungible-token ledger for the pool's own LP shares: total
/// supply, per-account balances, and per-pair allowances.
#[derive(Debug)]
pub struct PSP22Data {
    pub total: u128,
    pub balances: Vec<(AccountId, u128)>,
    pub allowances: Vec<(AccountId, AccountId, u128)>,
}

impl PSP22Data {
    /// The balances always account for the whole supply.
    pub open spec fn wf(self) -> bool {
        bal_sum(self.balances@) == self.total
    }

    pub open spec fn spec_total_supply(self) -> u128 {
        self.total
    }

    pub open spec fn spec_balance_of(self, owner: AccountId) -> u128 {
        bal_lookup(self.balances@, owner)
    }

    pub open spec fn spec_allowance(self, owner: AccountId, spender: AccountId) -> u128 {
        alw_lookup(self.allowances@, owner, spender)
    }

    pub fn new() -> (r: PSP22Data)
        ensures
            r.wf(),
            r.spec_total_supply() == 0,
            forall|a: AccountId| r.spec_balance_of(a) == 0,
            forall|a: AccountId, b: AccountId| r.spec_allowance(a, b) == 0,
    {
        PSP22Data { total: 0, balances: Vec::new(), allowances: Vec::new() }
    }

    pub fn total_supply(&self) -> (r: u128)
        ensures
            r == self.spec_total_supply(),
    {
        self.total
    }

    #[verifier::loop_isolation(false)]
    pub fn balance_of(&self, owner: AccountId) -> (r: u128)
        ensures
            r == self.spec_balance_of(owner),
    {
        let len = self.balances.len();
        let mut i: usize = 0;
        while i < len
            invariant
                i <= len,
                len == self.balances@.len(),
                forall|k: int| 0 <= k < i ==> self.balances@[k].0 != owner,
            decreases len - i,
        {
            if self.balances[i].0 == owner {
                proof {
                    lemma_bal_prefix_lookup(self.balances@, i as int, owner);
                }
                return self.balances[i].1;
            }
            i += 1;
        }
        proof {
            lemma_bal_absent(self.balances@, owner);
        }
        0
    }

    #[verifier::loop_isolation(false)]
    pub fn allowance(&self, owner: AccountId, spender: AccountId) -> (r: u128)
        ensures
            r == self.spec_allowance(owner, spender),
    {
        let len = self.allowances.len();
        let mut i: usize = 0;
        while i < len
            invariant
                i <= len,
                len == self.allowances@.len(),
                forall|k: int|
                    0 <= k < i ==> !(self.allowances@[k].0 == owner && self.allowances@[k].1
                        == spender),
            decreases len - i,
        {
            let e = self.allowances[i];
            if e.0 == owner && e.1 == spender {
                proof {
                    lemma_alw_prefix_lookup(self.allowances@, i as int, owner, spender);
                }
                return e.2;
            }
            i += 1;
        }
        proof {
            lemma_alw_absent(self.allowances@, owner, spender);
        }
        0
    }

    /// Writes `value` into `owner`'s balance entry, creating it if absent.
    #[verifier::loop_isolation(false)]
    fn set_balance(&mut self, owner: AccountId, value: u128)
        ensures
            final(self).spec_balance_of(owner) == value,
            forall|b: AccountId|
                b != owner ==> final(self).spec_balance_of(b) == old(self).spec_balance_of(b),
            bal_sum(final(self).balances@) == bal_sum(old(self).balances@) - old(self).spec_balance_of(owner) + value,
            final(self).total == old(self).total,
            final(self).allowances@ == old(self).allowances@,
    {
        let len = self.balances.len();
        let mut i: usize = 0;
        while i < len
            invariant
                i <= len,
                len == self.balances@.len(),
                *self == *old(self),
                forall|k: int| 0 <= k < i ==> self.balances@[k].0 != owner,
            decreases len - i,
        {
            if self.balances[i].0 == owner {
                proof {
                    lemma_bal_prefix_lookup(self.balances@, i as int, owner);
                    lemma_bal_update(self.balances@, i as int, owner, value);
                }
                self.balances.set(i, (owner, value));
                return ;
            }
            i += 1;
        }
        proof {
            lemma_bal_absent(self.balances@, owner);
            lemma_bal_push(self.balances@, owner, value);
        }
        self.balances.push((owner, value));
    }

    /// Writes `value` into the allowance entry of `(owner, spender)`,
    /// creating it if absent.
    #[verifier::loop_isolation(false)]
    fn set_allowance(&mut self, owner: AccountId, spender: AccountId, value: u128)
        ensures
            final(self).spec_allowance(owner, spender) == value,
            forall|b: AccountId, q: AccountId|
                !(b == owner && q == spender) ==> final(self).spec_allowance(b, q) == old(self).spec_allowance(b, q),
            final(self).total == old(self).total,
            final(self).balances@ == old(self).balances@,
    {
        let len = self.allowances.len();
        let mut i: usize = 0;
        while i < len
            invariant
                i <= len,
                len == self.allowances@.len(),
                *self == *old(self),
                forall|k: int|
                    0 <= k < i ==> !(self.allowances@[k].0 == owner && self.allowances@[k].1
                        == spender),
            decreases len - i,
        {
            let e = self.allowances[i];
            if e.0 == owner && e.1 == spender {
                proof {
                    lemma_alw_update(self.allowances@, i as int, owner, spender, value);
                }
                self.allowances.set(i, (owner, spender, value));
                return ;
            }
            i += 1;
        }
        proof {
            lemma_alw_absent(self.allowances@, owner, spender);
            lemma_alw_push(self.allowances@, owner, spender, value);
        }
        self.allowances.push((owner, spender, value));
    }

    /// Mints `value` shares to `to`: the supply and `to`'s balance grow by
    /// `value`; fails only when the supply would overflow.
    pub fn mint(&mut self, to: AccountId, value: u128) -> (r: Result<(), PSP22Error>)
        requires
            old(self).wf(),
        ensures
            final(self).wf(),
            (match r {
                Ok(()) => final(self).spec_total_supply() == old(self).spec_total_supply() + value
                    && final(self).spec_balance_of(to) == old(self).spec_balance_of(to) + value
                    && (forall|b: AccountId|
                    b != to ==> final(self).spec_balance_of(b) == old(self).spec_balance_of(b))
                    && final(self).allowances@ == old(self).allowances@,
                Err(e) => e == PSP22Error::SupplyOverflow && old(self).spec_total_supply() + value
                    >= crate::wide::lim128() && *final(self) == *old(self),
            }),
    {
        let new_total = match self.total.checked_add(value) {
            Some(v) => v,
            None => {
                return Err(PSP22Error::SupplyOverflow);
            },
        };
        proof {
            lemma_bal_lookup_le_sum(self.balances@, to);
        }
        let bal = self.balance_of(to);
        self.set_balance(to, bal + value);
        self.total = new_total;
        Ok(())
    }

    /// Burns `value` shares from `from`: the supply and `from`'s balance
    /// shrink by `value`; fails only when the balance is too small.
    pub fn burn(&mut self, from: AccountId, value: u128) -> (r: Result<(), PSP22Error>)
        requires
            old(self).wf(),
        ensures
            final(self).wf(),
            (match r {
                Ok(()) => old(self).spec_balance_of(from) >= value && final(self).spec_total_supply() == old(self).spec_total_supply() - value && final(self).spec_balance_of(from) == old(self).spec_balance_of(from) - value && (forall|b: AccountId|
                    b != from ==> final(self).spec_balance_of(b) == old(self).spec_balance_of(b))
                    && final(self).allowances@ == old(self).allowances@,
                Err(e) => e == PSP22Error::InsufficientBalance && old(self).spec_balance_of(from)
                    < value && *final(self) == *old(self),
            }),
    {
        let bal = self.balance_of(from);
        if bal < value {
            return Err(PSP22Error::InsufficientBalance);
        }
        proof {
            lemma_bal_lookup_le_sum(self.balances@, from);
        }
        self.set_balance(from, bal - value);
        self.total = self.total - value;
        Ok(())
    }

    /// Moves `value` shares from `from` to `to`; a transfer to oneself
    /// changes nothing. Fails only when `from`'s balance is too small.
    pub fn transfer(&mut self, from: AccountId, to: AccountId, value: u128) -> (r: Result<
        (),
        PSP22Error,
    >)
        requires
            old(self).wf(),
        ensures
            final(self).wf(),
            (match r {
                Ok(()) => old(self).spec_balance_of(from) >= value && final(self).spec_total_supply() == old(self).spec_total_supply() && final(self).allowances@ == old(self).allowances@ && (if from == to {
                    *final(self) == *old(self)
                } else {
                    final(self).spec_balance_of(from) == old(self).spec_balance_of(from) - value
                        && final(self).spec_balance_of(to) == old(self).spec_balance_of(to) + value
                        && (forall|b: AccountId|
                        b != from && b != to ==> final(self).spec_balance_of(b) == old(self).spec_balance_of(b))
                }),
                Err(e) => e == PSP22Error::InsufficientBalance && old(self).spec_balance_of(from)
                    < value && *final(self) == *old(self),
            }),
    {
        let bal_from = self.balance_of(from);
        if bal_from < value {
            return Err(PSP22Error::InsufficientBalance);
        }
        if from == to {
            return Ok(());
        }
        proof {
            lemma_bal_lookup_le_sum(self.balances@, from);
        }
        self.set_balance(from, bal_from - value);
        proof {
            lemma_bal_lookup_le_sum(self.balances@, to);
            lemma_bal_sum_nonneg(self.balances@);
        }
        let bal_to = self.balance_of(to);
        self.set_balance(to, bal_to + value);
        Ok(())
    }

    /// Sets the allowance of `spender` over `owner`'s shares.
    pub fn approve(&mut self, owner: AccountId, spender: AccountId, value: u128) -> (r: Result<
        (),
        PSP22Error,
    >)
        requires
            old(self).wf(),
        ensures
            final(self).wf(),
            r is Ok,
            final(self).spec_allowance(owner, spender) == value,
            forall|b: AccountId, q: AccountId|
                !(b == owner && q == spender) ==> final(self).spec_allowance(b, q) == old(self).spec_allowance(b, q),
            final(self).total == old(self).total,
            final(self).balances@ == old(self).balances@,
    {
        self.set_allowance(owner, spender, value);
        Ok(())
    }

    /// Raises the allowance by `delta`, saturating at the maximum.
    pub fn increase_allowance(&mut self, owner: AccountId, spender: AccountId, delta: u128) -> (r:
        Result<(), PSP22Error>)
        requires
            old(self).wf(),
        ensures
            final(self).wf(),
            r is Ok,
            final(self).spec_allowance(owner, spender) == (if old(self).spec_allowance(
                owner,
                spender,
            ) + delta < crate::wide::lim128() {
                old(self).spec_allowance(owner, spender) + delta
            } else {
                (crate::wide::lim128() - 1) as int
            }),
            forall|b: AccountId, q: AccountId|
                !(b == owner && q == spender) ==> final(self).spec_allowance(b, q) == old(self).spec_allowance(b, q),
            final(self).total == old(self).total,
            final(self).balances@ == old(self).balances@,
    {
        let cur = self.allowance(owner, spender);
        let next = match cur.checked_add(delta) {
            Some(v) => v,
            None => u128::MAX,
        };
        self.set_allowance(owner, spender, next);
        Ok(())
    }

    /// Lowers the allowance by `delta`; fails when it is too small.
    pub fn decrease_allowance(&mut self, owner: AccountId, spender: AccountId, delta: u128) -> (r:
        Result<(), PSP22Error>)
        requires
            old(self).wf(),
        ensures
            final(self).wf(),
            (match r {
                Ok(()) => old(self).spec_allowance(owner, spender) >= delta && final(self).spec_allowance(owner, spender) == old(self).spec_allowance(owner, spender)
                    - delta && (forall|b: AccountId, q: AccountId|
                    !(b == owner && q == spender) ==> final(self).spec_allowance(b, q) == old(self).spec_allowance(b, q)) && final(self).total == old(self).total && final(self).balances@ == old(self).balances@,
                Err(e) => e == PSP22Error::InsufficientAllowance && old(self).spec_allowance(
                    owner,
                    spender,
                ) < delta && *final(self) == *old(self),
            }),
    {
        let cur = self.allowance(owner, spender);
        if cur < delta {
            return Err(PSP22Error::InsufficientAllowance);
        }
        self.set_allowance(owner, spender, cur - delta);
        Ok(())
    }

    /// Moves `value` shares from `from` to `to` on `caller`'s authority,
    /// spending `caller`'s allowance; the caller's own shares need none.
    pub fn transfer_from(
        &mut self,
        caller: AccountId,
        from: AccountId,
        to: AccountId,
        value: u128,
    ) -> (r: Result<(), PSP22Error>)
        requires
            old(self).wf(),
        ensures
            final(self).wf(),
            r is Err ==> *final(self) == *old(self),
            (match r {
                Ok(()) => old(self).spec_balance_of(from) >= value && (caller != from ==> old(self).spec_allowance(from, caller) >= value && final(self).spec_allowance(
                    from,
                    caller,
                ) == old(self).spec_allowance(from, caller) - value) && final(self).spec_total_supply() == old(self).spec_total_supply() && (if from == to {
                    final(self).balances@ == old(self).balances@
                } else {
                    final(self).spec_balance_of(from) == old(self).spec_balance_of(from) - value
                        && final(self).spec_balance_of(to) == old(self).spec_balance_of(to) + value
                        && (forall|b: AccountId|
                        b != from && b != to ==> final(self).spec_balance_of(b) == old(self).spec_balance_of(b))
                }),
                Err(e) => (e == PSP22Error::InsufficientAllowance && caller != from && old(self).spec_allowance(from, caller) < value) || (e == PSP22Error::InsufficientBalance
                    && old(self).spec_balance_of(from) < value),
            }),
    {
        if caller == from {
            return self.transfer(from, to, value);
        }
        let alw = self.allowance(from, caller);
        if alw < value {
            return Err(PSP22Error::InsufficientAllowance);
        }
        let bal_from = self.balance_of(from);
        if bal_from < value {
            return Err(PSP22Error::InsufficientBalance);
        }
        let result = self.transfer(from, to, value);
        proof {
            assert(result is Ok);
        }
        self.set_allowance(from, caller, alw - value);
        Ok(())
    }
}

/// If the first `i` entries are not `a`'s and entry `i` is, the lookup
/// yields entry `i`'s value.
pub proof fn lemma_bal_prefix_lookup(s: Seq<(AccountId, u128)>, i: int, a: AccountId)
    requires
        0 <= i < s.len(),
        s[i].0 == a,
        forall|k: int| 0 <= k < i ==> s[k].0 != a,
    ensures
        bal_lookup(s, a) == s[i].1,
    decreases i,
{
    if i > 0 {
        lemma_bal_prefix_lookup(s.drop_first(), i - 1, a);
    }
}

/// The allowance analogue of [`lemma_bal_prefix_lookup`].
pub proof fn lemma_alw_prefix_lookup(
    s: Seq<(AccountId, AccountId, u128)>,
    i: int,
    o: AccountId,
    p: AccountId,
)
    requires
        0 <= i < s.len(),
        s[i].0 == o && s[i].1 == p,
        forall|k: int| 0 <= k < i ==> !(s[k].0 == o && s[k].1 == p),
    ensures
        alw_lookup(s, o, p) == s[i].2,
    decreases i,
{
    if i > 0 {
        lemma_alw_prefix_lookup(s.drop_first(), i - 1, o, p);
    }
}

} // verus!
