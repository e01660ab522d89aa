//! Fair settlements of a tab: what each user paid minus their shares of
//! the expenses they took part in, written exactly at one scale, and the
//! payments from the users who owe to the users who are owed that settle
//! those balances.

use vstd::prelude::*;
use std::rc::Rc;
use crate::costing::expense::Expense;
use crate::costing::settlement::Settlement;
use crate::costing::tab::{Tab, unique_user_ids};
use crate::costing::user::{User, UserID};
use crate::currency::Commodity;
use crate::decimal::{Decimal, MAX_MANTISSA, checked_quotient, ten_pow};

verus! {

/// The share of each user sharing expense `e`: its amount divided by the
/// number of users sharing it, as `rust_decimal` divides.
pub open spec fn share_parts(e: Expense) -> (int, int) {
    checked_quotient(e.amount.value@, (e.shared_by.len() as int, 0int))->0
}

/// The share of expense `e` is defined: someone shares it, and the
/// division does not overflow.
pub open spec fn share_defined(e: Expense) -> bool {
    &&& 0 < e.shared_by.len() <= i64::MAX
    &&& checked_quotient(e.amount.value@, (e.shared_by.len() as int, 0int)) is Some
}

/// The larger of two integers.
pub open spec fn larger(a: int, b: int) -> int {
    if a < b { b } else { a }
}

/// The finest scale among the amounts of the expenses and their shares.
pub open spec fn balance_scale(es: Seq<Expense>) -> int
    decreases es.len(),
{
    if es.len() == 0 {
        0
    } else {
        larger(balance_scale(es.drop_last()), larger(es.last().amount.value@.1, share_parts(es.last()).1))
    }
}

/// The number with parts `p`, in units of `10^-s`, rounded toward zero
/// where its scale is finer than `s`.
pub open spec fn at(p: (int, int), s: int) -> int {
    if p.1 <= s {
        p.0 * ten_pow(s - p.1)
    } else if p.0 >= 0 {
        p.0 / ten_pow(p.1 - s)
    } else {
        -((-p.0) / ten_pow(p.1 - s))
    }
}

/// The absolute value.
pub open spec fn abs(x: int) -> int {
    if x < 0 { -x } else { x }
}

/// How many times `u` occurs in `us`.
pub open spec fn occurrences(us: Seq<UserID>, u: UserID) -> int
    decreases us.len(),
{
    if us.len() == 0 {
        0
    } else {
        occurrences(us.drop_last(), u) + (if us.last() == u { 1int } else { 0int })
    }
}

/// What user `u` paid for the expenses, minus their shares of the expenses
/// they share (a share for each time they are named), in units of `10^-s`.
pub open spec fn net(es: Seq<Expense>, u: UserID, s: int) -> int
    decreases es.len(),
{
    if es.len() == 0 {
        0
    } else {
        let e = es.last();
        net(es.drop_last(), u, s) + (if e.paid_by == u { at(e.amount.value@, s) } else { 0 }) - occurrences(e.shared_by@, u) * at(
            share_parts(e),
            s,
        )
    }
}

/// The sum of the absolute values of the amounts and of all the shares of
/// the expenses, in units of `10^-s`: a bound on every balance.
pub open spec fn magnitude(es: Seq<Expense>, s: int) -> int
    decreases es.len(),
{
    if es.len() == 0 {
        0
    } else {
        let e = es.last();
        magnitude(es.drop_last(), s) + abs(at(e.amount.value@, s)) + e.shared_by.len() * abs(at(share_parts(e), s))
    }
}

/// The sum of the integers.
pub open spec fn total(xs: Seq<int>) -> int
    decreases xs.len(),
{
    if xs.len() == 0 {
        0
    } else {
        total(xs.drop_last()) + xs.last()
    }
}

/// How many of the integers are not zero.
pub open spec fn nonzero(xs: Seq<int>) -> int
    decreases xs.len(),
{
    if xs.len() == 0 {
        0
    } else {
        nonzero(xs.drop_last()) + (if xs.last() != 0 { 1int } else { 0int })
    }
}

/// The finest scale, from `s` down, at which the amounts and shares of the
/// expenses add up in absolute value to at most `2^96 - 1` (the largest
/// mantissa); `-1` when there is none.
pub open spec fn fit_scale(es: Seq<Expense>, s: int) -> int
    decreases s,
{
    if s < 0 {
        -1
    } else if magnitude(es, s) <= MAX_MANTISSA {
        s
    } else if s == 0 {
        -1
    } else {
        fit_scale(es, s - 1)
    }
}

/// The scale at which a tab is settled: the finest scale, at most that of
/// the amounts and shares, at which they fit in a mantissa (see
/// `fit_scale`). Amounts and shares finer than it are rounded toward zero.
pub open spec fn settle_scale(es: Seq<Expense>) -> int {
    fit_scale(es, balance_scale(es))
}

/// The balance of each user of the tab (see `net`), at the tab's scale.
pub open spec fn user_nets(tab: Tab) -> Seq<int> {
    Seq::new(tab.users_seq().len(), |i: int| net(tab.expenses@, tab.users_seq()[i].id, settle_scale(tab.expenses@)))
}

/// The balances can be settled exactly at one scale: every share is
/// defined, and at some scale the amounts and shares add up in absolute
/// value to at most `2^96 - 1` (the largest mantissa).
pub open spec fn fair_fits(tab: Tab) -> bool {
    &&& forall|k: int| 0 <= k < tab.expenses@.len() ==> share_defined(#[trigger] tab.expenses@[k])
    &&& settle_scale(tab.expenses@) >= 0
}

/// What the settlements give user `u`, in units of `10^-s`.
pub open spec fn received(ss: Seq<Settlement>, u: UserID, s: int) -> int
    decreases ss.len(),
{
    if ss.len() == 0 {
        0
    } else {
        received(ss.drop_last(), u, s) + (if ss.last().receiver == u { at(ss.last().amount.value@, s) } else { 0 })
    }
}

/// What the settlements take from user `u`, in units of `10^-s`.
pub open spec fn sent(ss: Seq<Settlement>, u: UserID, s: int) -> int
    decreases ss.len(),
{
    if ss.len() == 0 {
        0
    } else {
        sent(ss.drop_last(), u, s) + (if ss.last().sender == u { at(ss.last().amount.value@, s) } else { 0 })
    }
}

/// The settlements `ss` settle the tab fairly. Each one sends a positive
/// amount of the working currency, at the tab's scale (`settle_scale`),
/// from a user of the tab who owes (a negative balance, see `net`) to one
/// who is owed, and no more than either of their balances. Each user
/// receives, less what they send, what they paid less their shares, up to
/// the amount by which the shares, as divided, miss the expenses (the sum
/// of all the balances; zero where the divisions are exact). There is at
/// least one user with a balance more than there are settlements (none
/// when no one has a balance).
pub open spec fn fair(tab: Tab, ss: Seq<Settlement>) -> bool {
    let s = settle_scale(tab.expenses@);
    let nets = user_nets(tab);
    &&& forall|k: int|
        0 <= k < ss.len() ==> (#[trigger] ss[k]).amount.value@.1 == s && ss[k].amount.value@.0 > 0 && ss[k].amount.currency_code
            == tab.working_currency && tab.user_with_id(ss[k].sender) is Some && tab.user_with_id(ss[k].receiver) is Some
            && net(tab.expenses@, ss[k].sender, s) < 0 < net(tab.expenses@, ss[k].receiver, s)
            && ss[k].amount.value@.0 <= -net(tab.expenses@, ss[k].sender, s)
            && ss[k].amount.value@.0 <= net(tab.expenses@, ss[k].receiver, s)
    &&& forall|i: int|
        0 <= i < tab.users_seq().len() ==> abs(
            received(ss, tab.users_seq()[i].id, s) - sent(ss, tab.users_seq()[i].id, s) - #[trigger] nets[i],
        ) <= abs(total(nets))
    &&& ss.len() + 1 <= larger(nonzero(nets), 1)
}

/// `balance_scale` over the first `k + 1` expenses grows from that over the
/// first `k`.
proof fn lemma_scale_step(es: Seq<Expense>, k: int)
    requires
        0 <= k < es.len(),
    ensures
        balance_scale(es.take(k + 1)) == larger(balance_scale(es.take(k)), larger(es[k].amount.value@.1, share_parts(es[k]).1)),
{
    assert(es.take(k + 1).drop_last() =~= es.take(k));
}


/// The magnitude over a prefix of the expenses is at most that over all.
proof fn lemma_magnitude_prefix(es: Seq<Expense>, j: int, s: int)
    requires
        0 <= j <= es.len(),
    ensures
        0 <= magnitude(es.take(j), s) <= magnitude(es, s),
    decreases es.len(),
{
    if j == es.len() {
        assert(es.take(j) =~= es);
        lemma_magnitude_nonnegative(es, s);
    } else {
        lemma_magnitude_prefix(es.drop_last(), j, s);
        assert(es.drop_last().take(j) =~= es.take(j));
        let e = es.last();
        assert(e.shared_by.len() * abs(at(share_parts(e), s)) >= 0) by (nonlinear_arith)
            requires e.shared_by.len() >= 0, abs(at(share_parts(e), s)) >= 0;
    }
}

/// The magnitude is not negative.
proof fn lemma_magnitude_nonnegative(es: Seq<Expense>, s: int)
    ensures
        magnitude(es, s) >= 0,
    decreases es.len(),
{
    if es.len() > 0 {
        lemma_magnitude_nonnegative(es.drop_last(), s);
        let e = es.last();
        assert(e.shared_by.len() * abs(at(share_parts(e), s)) >= 0) by (nonlinear_arith)
            requires e.shared_by.len() >= 0, abs(at(share_parts(e), s)) >= 0;
    }
}

/// The share of each expense, and the finest scale of the amounts and
/// shares; `None` when a share is not defined.
fn shares_and_scale(es: &Vec<Expense>) -> (r: Option<(Vec<Decimal>, u32)>)
    ensures
        r is None <==> exists|k: int| 0 <= k < es.len() && !share_defined(#[trigger] es@[k]),
        r matches Some((qs, s)) ==> qs.len() == es.len() && s == balance_scale(es@) && s <= crate::decimal::MAX_SCALE
            && forall|k: int| 0 <= k < es.len() ==> (#[trigger] qs@[k])@ == share_parts(es@[k]),
{
    let mut qs: Vec<Decimal> = Vec::new();
    let mut s: u32 = 0;
    let mut k: usize = 0;
    while k < es.len()
        invariant
            k <= es.len(),
            qs.len() == k,
            s == balance_scale(es@.take(k as int)),
            s <= crate::decimal::MAX_SCALE,
            forall|j: int| 0 <= j < k ==> share_defined(#[trigger] es@[j]),
            forall|j: int| 0 <= j < k ==> (#[trigger] qs@[j])@ == share_parts(es@[j]),
        decreases es.len() - k,
    {
        let n = es[k].shared_by.len();
        if n == 0 || (n as u64) > 0x7FFF_FFFF_FFFF_FFFFu64 {
            return None;
        }
        let q = match es[k].amount.try_div_i64(n as i64) {
            Some(q) => q,
            None => {
                return None;
            },
        };
        proof {
            lemma_scale_step(es@, k as int);
        }
        let qv = q.value;
        let _ = es[k].amount.value.parts_in_range_check();
        let _ = qv.parts_in_range_check();
        let a_scale = es[k].amount.value.scale();
        let q_scale = qv.scale();
        let m = if a_scale < q_scale { q_scale } else { a_scale };
        if s < m {
            s = m;
        }
        qs.push(qv);
        k = k + 1;
    }
    proof {
        assert(es@.take(k as int) =~= es@);
    }
    Some((qs, s))
}

/// `10^28`.
proof fn lemma_ten_pow_28()
    ensures
        ten_pow(28) == 10000000000000000000000000000int,
{
    reveal_with_fuel(vstd::arithmetic::power::pow, 30);
}

/// The number `d` in units of `10^-s` (rounded toward zero where its
/// scale is finer); `None` when that does not fit in an `i128`.
fn scale_to(d: &Decimal, s: u32) -> (r: Option<i128>)
    ensures
        r matches Some(x) ==> x == at(d@, s as int),
        r is None ==> abs(at(d@, s as int)) > i128::MAX,
{
    let _ = d.parts_in_range_check();
    if d.scale() > s {
        let mut p: i128 = 1;
        let mut k: u32 = s;
        proof {
            vstd::arithmetic::power::lemma_pow0(10);
        }
        while k < d.scale()
            invariant
                s <= k <= d@.1,
                d@.1 <= 28,
                p == ten_pow(k - s),
            decreases d@.1 - k,
        {
            proof {
                vstd::arithmetic::power::lemma_pow_adds(10, (k - s) as nat, 1);
                vstd::arithmetic::power::lemma_pow1(10);
                vstd::arithmetic::power::lemma_pow_increases(10, (k + 1 - s) as nat, 28);
                lemma_ten_pow_28();
                assert(p * 10 == ten_pow(k + 1 - s));
                assert(ten_pow(k + 1 - s) <= ten_pow(28));
                assert(p * 10 <= 10000000000000000000000000000int);
                vstd::arithmetic::power::lemma_pow_positive(10, (k + 1 - s) as nat);
                assert(p * 10 > 0);
            }
            p = p * 10;
            k = k + 1;
        }
        proof {
            vstd::arithmetic::power::lemma_pow_positive(10, (d@.1 - s) as nat);
        }
        let m = d.mantissa();
        if m >= 0 {
            Some(m / p)
        } else {
            Some(-((-m) / p))
        }
    } else {
        scale_up(d, s)
    }
}

/// The number `d`, of a scale at most `s`, in units of `10^-s`; `None` when
/// that does not fit in an `i128`.
fn scale_up(d: &Decimal, s: u32) -> (r: Option<i128>)
    requires
        d@.1 <= s,
    ensures
        r matches Some(x) ==> x == at(d@, s as int),
        r is None ==> abs(at(d@, s as int)) > i128::MAX,
{
    let mut x: i128 = d.mantissa();
    let mut k: u32 = d.scale();
    proof {
        vstd::arithmetic::power::lemma_pow0(10);
    }
    while k < s
        invariant
            d@.1 <= k <= s,
            x == d@.0 * ten_pow(k - d@.1),
        decreases s - k,
    {
        proof {
            vstd::arithmetic::power::lemma_pow_adds(10, (k - d@.1) as nat, 1);
            vstd::arithmetic::power::lemma_pow1(10);
            vstd::arithmetic::power::lemma_pow_adds(10, (k + 1 - d@.1) as nat, (s - k - 1) as nat);
            vstd::arithmetic::power::lemma_pow_positive(10, (s - k - 1) as nat);
        }
        match x.checked_mul(10) {
            Some(y) => {
                proof {
                    assert(y == d@.0 * ten_pow(k + 1 - d@.1)) by (nonlinear_arith)
                        requires y == x * 10, x == d@.0 * ten_pow(k - d@.1), ten_pow(k + 1 - d@.1) == ten_pow(k - d@.1) * 10;
                }
                x = y;
            },
            None => {
                proof {
                    let big = d@.0 * ten_pow(k + 1 - d@.1);
                    let p = ten_pow(s - k - 1);
                    assert(at(d@, s as int) == big * p) by (nonlinear_arith)
                        requires at(d@, s as int) == d@.0 * ten_pow(s - d@.1), ten_pow(s - d@.1) == ten_pow(k + 1 - d@.1) * p,
                            big == d@.0 * ten_pow(k + 1 - d@.1);
                    assert(big == x * 10) by (nonlinear_arith)
                        requires x == d@.0 * ten_pow(k - d@.1), ten_pow(k + 1 - d@.1) == ten_pow(k - d@.1) * 10, big == d@.0 * ten_pow(k + 1 - d@.1);
                    assert(abs(big * p) >= abs(big)) by (nonlinear_arith)
                        requires p >= 1;
                }
                return None;
            },
        }
        k = k + 1;
    }
    Some(x)
}

/// The magnitude over the first `k + 1` expenses adds the `k`-th one's.
proof fn lemma_magnitude_step(es: Seq<Expense>, k: int, s: int)
    requires
        0 <= k < es.len(),
    ensures
        magnitude(es.take(k + 1), s) == magnitude(es.take(k), s) + abs(at(es[k].amount.value@, s)) + es[k].shared_by.len() * abs(
            at(share_parts(es[k]), s),
        ),
{
    assert(es.take(k + 1).drop_last() =~= es.take(k));
}

/// The amounts and the shares of the expenses in units of `10^-s`; `None`
/// when they add up in absolute value to more than the largest mantissa.
fn scaled_values(es: &Vec<Expense>, qs: &Vec<Decimal>, s: u32) -> (r: Option<(Vec<i128>, Vec<i128>)>)
    requires
        qs.len() == es.len(),
        forall|k: int| 0 <= k < es.len() ==> (#[trigger] qs@[k])@ == share_parts(es@[k]),
        forall|k: int| 0 <= k < es.len() ==> share_defined(#[trigger] es@[k]),
    ensures
        r is None <==> magnitude(es@, s as int) > MAX_MANTISSA,
        r matches Some((amounts, shares)) ==> amounts.len() == es.len() && shares.len() == es.len()
            && (forall|k: int| 0 <= k < es.len() ==> #[trigger] amounts@[k] == at(es@[k].amount.value@, s as int))
            && (forall|k: int| 0 <= k < es.len() ==> #[trigger] shares@[k] == at(share_parts(es@[k]), s as int)),
{
    let mut amounts: Vec<i128> = Vec::new();
    let mut shares: Vec<i128> = Vec::new();
    let mut mag: i128 = 0;
    let mut k: usize = 0;
    proof {
        assert(es@.take(0) =~= Seq::<Expense>::empty());
    }
    while k < es.len()
        invariant
            k <= es.len(),
            qs.len() == es.len(),
            forall|j: int| 0 <= j < es.len() ==> (#[trigger] qs@[j])@ == share_parts(es@[j]),
            forall|j: int| 0 <= j < es.len() ==> share_defined(#[trigger] es@[j]),
            amounts.len() == k,
            shares.len() == k,
            forall|j: int| 0 <= j < k ==> #[trigger] amounts@[j] == at(es@[j].amount.value@, s as int),
            forall|j: int| 0 <= j < k ==> #[trigger] shares@[j] == at(share_parts(es@[j]), s as int),
            mag == magnitude(es@.take(k as int), s as int),
            0 <= mag <= MAX_MANTISSA,
        decreases es.len() - k,
    {
        proof {
            lemma_magnitude_step(es@, k as int, s as int);
            lemma_magnitude_prefix(es@, k + 1, s as int);
            assert(qs@[k as int]@ == share_parts(es@[k as int]));
        }
        let a = match scale_to(&es[k].amount.value, s) {
            Some(a) => a,
            None => {
                proof {
                    let e = es@[k as int];
                    assert(e.shared_by.len() * abs(at(share_parts(e), s as int)) >= 0) by (nonlinear_arith)
                        requires e.shared_by.len() >= 0, abs(at(share_parts(e), s as int)) >= 0;
                }
                return None;
            },
        };
        let b = match scale_to(&qs[k], s) {
            Some(b) => b,
            None => {
                proof {
                    let e = es@[k as int];
                    let n = e.shared_by.len() as int;
                    assert(share_defined(e));
                    assert(n * abs(at(share_parts(e), s as int)) >= abs(at(share_parts(e), s as int))) by (nonlinear_arith)
                        requires n >= 1, abs(at(share_parts(e), s as int)) >= 0;
                }
                return None;
            },
        };
        proof {
            let e = es@[k as int];
            let n = e.shared_by.len() as int;
            assert(share_defined(e));
            assert(n * abs(b as int) >= abs(b as int)) by (nonlinear_arith)
                requires n >= 1, abs(b as int) >= 0;
        }
        if a < -MAX_MANTISSA || a > MAX_MANTISSA || b < -MAX_MANTISSA || b > MAX_MANTISSA {
            return None;
        }
        let abs_a: i128 = if a < 0 { -a } else { a };
        let abs_b: i128 = if b < 0 { -b } else { b };
        if mag + abs_a > MAX_MANTISSA {
            return None;
        }
        let n = es[k].shared_by.len();
        let part = match (n as i128).checked_mul(abs_b) {
            Some(p) => p,
            None => {
                return None;
            },
        };
        if part > MAX_MANTISSA || mag + abs_a + part > MAX_MANTISSA {
            return None;
        }
        mag = mag + abs_a + part;
        amounts.push(a);
        shares.push(b);
        k = k + 1;
    }
    proof {
        assert(es@.take(k as int) =~= es@);
    }
    Some((amounts, shares))
}

/// The occurrences in a prefix grow by one where `u` is.
proof fn lemma_occurrences_step(us: Seq<UserID>, j: int, u: UserID)
    requires
        0 <= j < us.len(),
    ensures
        occurrences(us.take(j + 1), u) == occurrences(us.take(j), u) + (if us[j] == u { 1int } else { 0int }),
{
    assert(us.take(j + 1).drop_last() =~= us.take(j));
}

/// The balance over the first `k + 1` expenses adds the `k`-th one's.
proof fn lemma_net_step(es: Seq<Expense>, k: int, u: UserID, s: int)
    requires
        0 <= k < es.len(),
    ensures
        net(es.take(k + 1), u, s) == net(es.take(k), u, s) + (if es[k].paid_by == u { at(es[k].amount.value@, s) } else { 0 })
            - occurrences(es[k].shared_by@, u) * at(share_parts(es[k]), s),
{
    assert(es.take(k + 1).drop_last() =~= es.take(k));
}

/// The balance of user `u` (see `net`), from the amounts and shares in
/// units of `10^-s`; it is at most the magnitude in absolute value.
fn user_net(es: &Vec<Expense>, u: UserID, amounts: &Vec<i128>, shares: &Vec<i128>, Ghost(s): Ghost<int>) -> (r: i128)
    requires
        amounts.len() == es.len(),
        shares.len() == es.len(),
        forall|k: int| 0 <= k < es.len() ==> #[trigger] amounts@[k] == at(es@[k].amount.value@, s),
        forall|k: int| 0 <= k < es.len() ==> #[trigger] shares@[k] == at(share_parts(es@[k]), s),
        magnitude(es@, s) <= MAX_MANTISSA,
    ensures
        r == net(es@, u, s),
        abs(r as int) <= magnitude(es@, s),
{
    let mut x: i128 = 0;
    let mut k: usize = 0;
    proof {
        assert(es@.take(0) =~= Seq::<Expense>::empty());
    }
    while k < es.len()
        invariant
            k <= es.len(),
            amounts.len() == es.len(),
            shares.len() == es.len(),
            forall|j: int| 0 <= j < es.len() ==> #[trigger] amounts@[j] == at(es@[j].amount.value@, s),
            forall|j: int| 0 <= j < es.len() ==> #[trigger] shares@[j] == at(share_parts(es@[j]), s),
            magnitude(es@, s) <= MAX_MANTISSA,
            x == net(es@.take(k as int), u, s),
            abs(x as int) <= magnitude(es@.take(k as int), s),
        decreases es.len() - k,
    {
        proof {
            lemma_magnitude_step(es@, k as int, s);
            lemma_magnitude_prefix(es@, k + 1, s);
            lemma_net_step(es@, k as int, u, s);
        }
        let ghost mag_k = magnitude(es@.take(k as int), s);
        let ghost a = at(es@[k as int].amount.value@, s);
        let ghost b = at(share_parts(es@[k as int]), s);
        let ghost n = es@[k as int].shared_by.len() as int;
        proof {
            assert(n * abs(b) >= 0) by (nonlinear_arith)
                requires n >= 0, abs(b) >= 0;
        }
        if es[k].paid_by == u {
            x = x + amounts[k];
        }
        let ghost x0: int = x as int;
        let mut j: usize = 0;
        proof {
            assert(es@[k as int].shared_by@.take(0) =~= Seq::<UserID>::empty());
            assert(0 * b == 0) by (nonlinear_arith);
            assert(0 * abs(b) == 0) by (nonlinear_arith);
        }
        while j < es[k].shared_by.len()
            invariant
                k < es.len(),
                j <= es@[k as int].shared_by.len(),
                n == es@[k as int].shared_by.len(),
                shares.len() == es.len(),
                shares@[k as int] == b,
                abs(x0) <= mag_k + abs(a),
                mag_k + abs(a) + n * abs(b) <= MAX_MANTISSA,
                x == x0 - occurrences(es@[k as int].shared_by@.take(j as int), u) * b,
                abs(x as int) <= mag_k + abs(a) + j * abs(b),
            decreases es@[k as int].shared_by.len() - j,
        {
            proof {
                lemma_occurrences_step(es@[k as int].shared_by@, j as int, u);
                let o = occurrences(es@[k as int].shared_by@.take(j as int), u);
                assert((o + 1) * b == o * b + b) by (nonlinear_arith);
                assert((j + 1) * abs(b) == j * abs(b) + abs(b)) by (nonlinear_arith);
                assert(j * abs(b) <= n * abs(b)) by (nonlinear_arith)
                    requires j < n, abs(b) >= 0;
                assert((j + 1) * abs(b) <= n * abs(b)) by (nonlinear_arith)
                    requires j + 1 <= n, abs(b) >= 0;
            }
            if es[k].shared_by[j] == u {
                x = x - shares[k];
            }
            j = j + 1;
        }
        proof {
            assert(es@[k as int].shared_by@.take(j as int) =~= es@[k as int].shared_by@);
        }
        k = k + 1;
    }
    proof {
        assert(es@.take(k as int) =~= es@);
    }
    x
}

/// A payment of `.2` from the user at index `.0` to the user at index `.1`.
type Transfer = (usize, usize, i128);

/// What the transfers give the user at index `i`.
spec fn received_at(ts: Seq<Transfer>, i: int) -> int
    decreases ts.len(),
{
    if ts.len() == 0 {
        0
    } else {
        received_at(ts.drop_last(), i) + (if ts.last().1 == i { ts.last().2 as int } else { 0 })
    }
}

/// What the transfers take from the user at index `i`.
spec fn sent_at(ts: Seq<Transfer>, i: int) -> int
    decreases ts.len(),
{
    if ts.len() == 0 {
        0
    } else {
        sent_at(ts.drop_last(), i) + (if ts.last().0 == i { ts.last().2 as int } else { 0 })
    }
}

/// The integers of a vector of `i128`.
spec fn ints(v: Seq<i128>) -> Seq<int> {
    v.map_values(|x: i128| x as int)
}

/// The state of the settling: the balances `bal` left after the transfers
/// `ts` from the balances `nets`. Each transfer goes from a user who owes
/// to one who is owed, for no more than either balance; what each user was owed or owed is what the
/// transfers gave them less what they took, plus what is left; what is
/// left has the sign of the balance and at most its size; the transfers
/// so far, and the users still with a balance, are at most the users with
/// a balance (one fewer once all is settled, when the balances add up to
/// zero).
spec fn settling(nets: Seq<int>, bal: Seq<int>, ts: Seq<Transfer>) -> bool {
    &&& bal.len() == nets.len()
    &&& forall|i: int| 0 <= i < nets.len() ==> received_at(ts, i) - sent_at(ts, i) + #[trigger] bal[i] == nets[i]
    &&& forall|i: int|
        0 <= i < nets.len() ==> (nets[i] < 0 ==> nets[i] <= #[trigger] bal[i] <= 0) && (nets[i] > 0 ==> 0 <= bal[i] <= nets[i])
            && (nets[i] == 0 ==> bal[i] == 0)
    &&& forall|k: int|
        0 <= k < ts.len() ==> (#[trigger] ts[k]).0 < nets.len() && ts[k].1 < nets.len() && nets[ts[k].0 as int] < 0 && nets[ts[k].1 as int]
            > 0 && 0 < ts[k].2 <= MAX_MANTISSA && ts[k].2 <= -nets[ts[k].0 as int] && ts[k].2 <= nets[ts[k].1 as int]
    &&& total(bal) == total(nets)
    &&& ts.len() + nonzero(bal) <= nonzero(nets)
    &&& total(nets) == 0 && nonzero(bal) == 0 && ts.len() > 0 ==> ts.len() + 1 <= nonzero(nets)
}

/// Changing one integer changes the total by the difference.
proof fn lemma_total_update(xs: Seq<int>, k: int, v: int)
    requires
        0 <= k < xs.len(),
    ensures
        total(xs.update(k, v)) == total(xs) - xs[k] + v,
        nonzero(xs.update(k, v)) == nonzero(xs) - (if xs[k] != 0 { 1int } else { 0int }) + (if v != 0 { 1int } else { 0int }),
    decreases xs.len(),
{
    let u = xs.update(k, v);
    if k == xs.len() - 1 {
        assert(u.drop_last() =~= xs.drop_last());
    } else {
        assert(u.drop_last() =~= xs.drop_last().update(k, v));
        lemma_total_update(xs.drop_last(), k, v);
    }
}

/// Integers none of which is zero add up to zero; a single integer that is
/// not zero adds up to itself.
proof fn lemma_nonzero_total(xs: Seq<int>)
    ensures
        nonzero(xs) >= 0,
        nonzero(xs) == 0 ==> total(xs) == 0,
        nonzero(xs) == 1 ==> total(xs) != 0,
    decreases xs.len(),
{
    if xs.len() > 0 {
        lemma_nonzero_total(xs.drop_last());
    }
}

/// Integers all of one sign are each at most their total in absolute
/// value; when that total is zero they are all zero.
proof fn lemma_one_sign(xs: Seq<int>)
    requires
        (forall|i: int| 0 <= i < xs.len() ==> #[trigger] xs[i] >= 0) || (forall|i: int| 0 <= i < xs.len() ==> #[trigger] xs[i] <= 0),
    ensures
        forall|i: int| 0 <= i < xs.len() ==> abs(#[trigger] xs[i]) <= abs(total(xs)),
        total(xs) == 0 ==> nonzero(xs) == 0,
    decreases xs.len(),
{
    if xs.len() > 0 {
        let p = xs.drop_last();
        assert(forall|i: int| 0 <= i < p.len() ==> p[i] == xs[i]);
        lemma_one_sign(p);
        if forall|i: int| 0 <= i < xs.len() ==> #[trigger] xs[i] >= 0 {
            lemma_sign_total(p, true);
        } else {
            lemma_sign_total(p, false);
        }
        assert forall|i: int| 0 <= i < xs.len() implies abs(#[trigger] xs[i]) <= abs(total(xs)) by {
            if i < xs.len() - 1 {
                assert(xs[i] == p[i]);
            }
        }
    }
}

/// Integers all of one sign add up to that sign.
proof fn lemma_sign_total(xs: Seq<int>, positive: bool)
    requires
        positive ==> forall|i: int| 0 <= i < xs.len() ==> #[trigger] xs[i] >= 0,
        !positive ==> forall|i: int| 0 <= i < xs.len() ==> #[trigger] xs[i] <= 0,
    ensures
        positive ==> total(xs) >= 0,
        !positive ==> total(xs) <= 0,
    decreases xs.len(),
{
    if xs.len() > 0 {
        let p = xs.drop_last();
        assert(forall|i: int| 0 <= i < p.len() ==> p[i] == xs[i]);
        lemma_sign_total(p, positive);
    }
}

/// A transfer of `x` from a user who owes to one who is owed, clearing one
/// of them, keeps the settling.
proof fn lemma_transfer(nets: Seq<int>, bal: Seq<int>, ts: Seq<Transfer>, d: usize, c: usize, x: i128)
    requires
        settling(nets, bal, ts),
        d < nets.len(),
        c < nets.len(),
        nets[d as int] < 0,
        nets[c as int] > 0,
        bal[d as int] < 0,
        bal[c as int] > 0,
        0 < x <= -bal[d as int],
        x <= bal[c as int],
        x == -bal[d as int] || x == bal[c as int],
        abs(nets[d as int]) <= MAX_MANTISSA,
    ensures
        settling(nets, bal.update(d as int, bal[d as int] + x).update(c as int, bal[c as int] - x), ts.push((d, c, x))),
{
    let b1 = bal.update(d as int, bal[d as int] + x);
    let b2 = b1.update(c as int, bal[c as int] - x);
    let ts2 = ts.push((d, c, x));
    assert(d != c);
    assert(ts2.drop_last() =~= ts);
    lemma_total_update(bal, d as int, bal[d as int] + x);
    lemma_total_update(b1, c as int, bal[c as int] - x);
    assert forall|i: int| 0 <= i < nets.len() implies received_at(ts2, i) - sent_at(ts2, i) + #[trigger] b2[i] == nets[i] by {
        assert(received_at(ts, i) - sent_at(ts, i) + bal[i] == nets[i]);
    }
    assert forall|k: int| 0 <= k < ts2.len() implies (#[trigger] ts2[k]).0 < nets.len() && ts2[k].1 < nets.len() && nets[ts2[k].0 as int] < 0
        && nets[ts2[k].1 as int] > 0 && 0 < ts2[k].2 <= MAX_MANTISSA && ts2[k].2 <= -nets[ts2[k].0 as int] && ts2[k].2 <= nets[ts2[k].1 as int] by {
        if k < ts.len() {
            assert(ts2[k] == ts[k]);
        }
    }
    assert forall|i: int| 0 <= i < nets.len() implies (nets[i] < 0 ==> nets[i] <= #[trigger] b2[i] <= 0) && (nets[i] > 0 ==> 0 <= b2[i] <= nets[i])
        && (nets[i] == 0 ==> b2[i] == 0) by {
        assert(nets[i] < 0 ==> nets[i] <= bal[i] <= 0);
        assert(nets[i] > 0 ==> 0 <= bal[i] <= nets[i]);
        assert(nets[i] == 0 ==> bal[i] == 0);
    }
    if total(nets) == 0 && nonzero(b2) == 0 {
        lemma_nonzero_total(bal);
        assert(nonzero(bal) >= 2);
    }
}

/// The balance `x` is owed (`negative`) or is due (otherwise).
spec fn signed(x: i128, negative: bool) -> bool {
    if negative { x < 0 } else { x > 0 }
}

/// The size of a balance.
fn size(x: i128) -> (r: i128)
    requires
        -MAX_MANTISSA <= x <= MAX_MANTISSA,
    ensures
        r == abs(x as int),
{
    if x < 0 { -x } else { x }
}

/// The indices of the balances that are owed (`negative`) or due, each
/// once, ordered by the size of the balance, smallest first.
fn indices_by_size(bal: &Vec<i128>, negative: bool) -> (r: Vec<usize>)
    requires
        forall|i: int| 0 <= i < bal.len() ==> -MAX_MANTISSA <= #[trigger] bal@[i] <= MAX_MANTISSA,
    ensures
        forall|k: int| 0 <= k < r.len() ==> (#[trigger] r@[k]) < bal.len() && signed(bal@[r@[k] as int], negative),
        forall|i: int| 0 <= i < bal.len() && signed(#[trigger] bal@[i], negative) ==> r@.contains(i as usize),
        forall|k1: int, k2: int|
            0 <= k1 < k2 < r.len() ==> abs(bal@[r@[k1] as int] as int) <= abs(bal@[#[trigger] r@[k2] as int] as int) && #[trigger] r@[k1]
                != r@[k2],
{
    let mut r: Vec<usize> = Vec::new();
    let mut i: usize = 0;
    while i < bal.len()
        invariant
            i <= bal.len(),
            forall|j: int| 0 <= j < bal.len() ==> -MAX_MANTISSA <= #[trigger] bal@[j] <= MAX_MANTISSA,
            forall|k: int| 0 <= k < r.len() ==> (#[trigger] r@[k]) < i && signed(bal@[r@[k] as int], negative),
            forall|j: int| 0 <= j < i && signed(#[trigger] bal@[j], negative) ==> r@.contains(j as usize),
            forall|k1: int, k2: int|
                0 <= k1 < k2 < r.len() ==> abs(bal@[r@[k1] as int] as int) <= abs(bal@[#[trigger] r@[k2] as int] as int) && #[trigger] r@[k1]
                    != r@[k2],
        decreases bal.len() - i,
    {
        let x = bal[i];
        let positive_case = !negative && x > 0;
        if (negative && x < 0) || positive_case {
            let key = size(x);
            let mut p: usize = 0;
            while p < r.len() && size(bal[r[p]]) <= key
                invariant
                    p <= r.len(),
                    i < bal.len(),
                    key == abs(bal@[i as int] as int),
                    forall|j: int| 0 <= j < bal.len() ==> -MAX_MANTISSA <= #[trigger] bal@[j] <= MAX_MANTISSA,
                    forall|k: int| 0 <= k < r.len() ==> (#[trigger] r@[k]) < i,
                    forall|k: int| 0 <= k < p ==> abs(bal@[#[trigger] r@[k] as int] as int) <= key,
                decreases r.len() - p,
            {
                p = p + 1;
            }
            let ghost old_r = r@;
            r.insert(p, i);
            proof {
                assert(r@ == old_r.insert(p as int, i));
                assert forall|k: int| 0 <= k < r.len() implies (#[trigger] r@[k]) < i + 1 && signed(bal@[r@[k] as int], negative) by {
                    if k < p {
                        assert(r@[k] == old_r[k]);
                    } else if k > p {
                        assert(r@[k] == old_r[k - 1]);
                    }
                }
                assert forall|k1: int, k2: int|
                    0 <= k1 < k2 < r.len() implies abs(bal@[r@[k1] as int] as int) <= abs(bal@[#[trigger] r@[k2] as int] as int) && #[trigger] r@[k1]
                        != r@[k2] by {
                    if p < old_r.len() {
                        assert(abs(bal@[old_r[p as int] as int] as int) > key);
                    }
                    if k2 < p {
                        assert(r@[k1] == old_r[k1] && r@[k2] == old_r[k2]);
                    } else if k2 == p {
                        assert(r@[k1] == old_r[k1]);
                    } else if k1 < p {
                        assert(r@[k1] == old_r[k1] && r@[k2] == old_r[k2 - 1]);
                        assert(abs(bal@[old_r[p as int] as int] as int) <= abs(bal@[old_r[k2 - 1] as int] as int) || k2 - 1 == p);
                    } else if k1 == p {
                        assert(r@[k2] == old_r[k2 - 1]);
                        assert(abs(bal@[old_r[p as int] as int] as int) <= abs(bal@[old_r[k2 - 1] as int] as int) || k2 - 1 == p);
                    } else {
                        assert(r@[k1] == old_r[k1 - 1] && r@[k2] == old_r[k2 - 1]);
                    }
                }
                assert forall|j: int| 0 <= j < i + 1 && signed(#[trigger] bal@[j], negative) implies r@.contains(j as usize) by {
                    if j < i {
                        assert(old_r.contains(j as usize));
                        let k = choose|k: int| 0 <= k < old_r.len() && old_r[k] == j as usize;
                        if k < p {
                            assert(r@[k] == old_r[k]);
                        } else {
                            assert(r@[k + 1] == old_r[k]);
                        }
                    } else {
                        assert(r@[p as int] == i);
                    }
                }
            }
        }
        i = i + 1;
    }
    r
}

/// The user at index `d` pays `x` to the user at index `c`.
fn pay(bal: &mut Vec<i128>, ts: &mut Vec<Transfer>, d: usize, c: usize, x: i128, Ghost(nets): Ghost<Seq<int>>)
    requires
        settling(nets, ints(old(bal)@), old(ts)@),
        d < nets.len(),
        c < nets.len(),
        nets[d as int] < 0,
        nets[c as int] > 0,
        old(bal)@[d as int] < 0,
        old(bal)@[c as int] > 0,
        0 < x <= -old(bal)@[d as int],
        x <= old(bal)@[c as int],
        x == -old(bal)@[d as int] || x == old(bal)@[c as int],
        abs(nets[d as int]) <= MAX_MANTISSA,
    ensures
        settling(nets, ints(final(bal)@), final(ts)@),
        final(bal)@ == old(bal)@.update(d as int, (old(bal)@[d as int] + x) as i128).update(c as int, (old(bal)@[c as int] - x) as i128),
        final(ts)@ == old(ts)@.push((d, c, x)),
{
    let ghost b = ints(bal@);
    proof {
        assert(b[d as int] == bal@[d as int]);
        assert(b[c as int] == bal@[c as int]);
        lemma_transfer(nets, b, ts@, d, c, x);
    }
    let nd = bal[d] + x;
    let nc = bal[c] - x;
    bal.set(d, nd);
    bal.set(c, nc);
    ts.push((d, c, x));
    proof {
        assert(ints(bal@) =~= b.update(d as int, b[d as int] + x).update(c as int, b[c as int] - x));
    }
}

/// The first position of a creditor whose balance covers `need`.
fn first_covering(bal: &Vec<i128>, creditors: &Vec<usize>, need: i128) -> (r: Option<usize>)
    requires
        forall|k: int| 0 <= k < creditors.len() ==> (#[trigger] creditors@[k]) < bal.len(),
    ensures
        r matches Some(q) ==> q < creditors.len() && bal@[creditors@[q as int] as int] >= need,
        r is None ==> forall|k: int| 0 <= k < creditors.len() ==> bal@[(#[trigger] creditors@[k]) as int] < need,
{
    let mut q: usize = 0;
    while q < creditors.len()
        invariant
            q <= creditors.len(),
            forall|k: int| 0 <= k < creditors.len() ==> (#[trigger] creditors@[k]) < bal.len(),
            forall|k: int| 0 <= k < q ==> bal@[(#[trigger] creditors@[k]) as int] < need,
        decreases creditors.len() - q,
    {
        if bal[creditors[q]] >= need {
            return Some(q);
        }
        q = q + 1;
    }
    None
}

/// No balance is due.
spec fn nobody_owed(bal: Seq<int>) -> bool {
    forall|i: int| 0 <= i < bal.len() ==> #[trigger] bal[i] <= 0
}

/// The payments that settle the balances `nets`: each user who owes,
/// smallest debt first, pays the whole debt to the first user owed at
/// least as much (smallest claim first); when there is none, they pay the
/// users owed in turn, each as much as it is owed or as is left of the
/// debt, until the debt is paid. At the end either nobody owes or nobody is
/// owed.
fn settle_balances(nets: &Vec<i128>) -> (r: (Vec<Transfer>, Vec<i128>))
    requires
        forall|i: int| 0 <= i < nets.len() ==> -MAX_MANTISSA <= #[trigger] nets@[i] <= MAX_MANTISSA,
    ensures
        settling(ints(nets@), ints(r.1@), r.0@),
        (forall|i: int| 0 <= i < nets.len() ==> #[trigger] r.1@[i] >= 0) || (forall|i: int| 0 <= i < nets.len() ==> #[trigger] r.1@[i] <= 0),
{
    let ghost ns = ints(nets@);
    let mut bal: Vec<i128> = Vec::new();
    let mut i: usize = 0;
    while i < nets.len()
        invariant
            i <= nets.len(),
            bal@ == nets@.take(i as int),
        decreases nets.len() - i,
    {
        bal.push(nets[i]);
        i = i + 1;
        proof {
            assert(bal@ =~= nets@.take(i as int));
        }
    }
    proof {
        assert(bal@ =~= nets@);
    }
    let debtors = indices_by_size(&bal, true);
    let creditors = indices_by_size(&bal, false);
    let mut ts: Vec<Transfer> = Vec::new();
    proof {
        assert(ints(bal@) =~= ns);
        assert forall|j: int| 0 <= j < ns.len() implies received_at(ts@, j) - sent_at(ts@, j) + #[trigger] ns[j] == ns[j] by {}
    }
    let mut p: usize = 0;
    while p < debtors.len()
        invariant
            ns == ints(nets@),
            ns.len() == nets.len(),
            forall|j: int| 0 <= j < nets.len() ==> -MAX_MANTISSA <= #[trigger] nets@[j] <= MAX_MANTISSA,
            p <= debtors.len(),
            settling(ns, ints(bal@), ts@),
            forall|k: int| 0 <= k < debtors.len() ==> (#[trigger] debtors@[k]) < nets.len() && nets@[debtors@[k] as int] < 0,
            forall|k: int| 0 <= k < creditors.len() ==> (#[trigger] creditors@[k]) < nets.len() && nets@[creditors@[k] as int] > 0,
            forall|j: int| 0 <= j < nets.len() && #[trigger] nets@[j] > 0 ==> creditors@.contains(j as usize),
            forall|q: int| 0 <= q < p ==> bal@[(#[trigger] debtors@[q]) as int] == 0 || nobody_owed(ints(bal@)),
        decreases debtors.len() - p,
    {
        let d = debtors[p];
        proof {
            assert(ints(bal@)[d as int] == bal@[d as int]);
        }
        if bal[d] < 0 {
            let need = -bal[d];
            match first_covering(&bal, &creditors, need) {
                Some(q) => {
                    let c = creditors[q];
                    proof {
                        assert(ints(bal@)[c as int] == bal@[c as int]);
                        assert(ns[d as int] == nets@[d as int]);
                    }
                    let ghost before = bal@;
                    pay(&mut bal, &mut ts, d, c, need, Ghost(ns));
                    proof {
                        assert forall|q2: int| 0 <= q2 < p + 1 implies bal@[(#[trigger] debtors@[q2]) as int] == 0 || nobody_owed(ints(bal@)) by {
                            if q2 < p {
                                if before[debtors@[q2] as int] == 0 {
                                    assert(debtors@[q2] != c);
                                } else {
                                    assert(nobody_owed(ints(before)));
                                    assert(ints(before)[c as int] == before[c as int]);
                                }
                            }
                        }
                    }
                },
                None => {
                    let mut q: usize = 0;
                    while q < creditors.len()
                        invariant
                            ns == ints(nets@),
                            ns.len() == nets.len(),
                            forall|j: int| 0 <= j < nets.len() ==> -MAX_MANTISSA <= #[trigger] nets@[j] <= MAX_MANTISSA,
                            p < debtors.len(),
                            d == debtors@[p as int],
                            d < nets.len(),
                            nets@[d as int] < 0,
                            q <= creditors.len(),
                            settling(ns, ints(bal@), ts@),
                            forall|k: int| 0 <= k < debtors.len() ==> (#[trigger] debtors@[k]) < nets.len() && nets@[debtors@[k] as int] < 0,
                            forall|k: int| 0 <= k < creditors.len() ==> (#[trigger] creditors@[k]) < nets.len() && nets@[creditors@[k] as int] > 0,
                            forall|q2: int| 0 <= q2 < p ==> bal@[(#[trigger] debtors@[q2]) as int] == 0 || nobody_owed(ints(bal@)),
                            bal@[d as int] == 0 || forall|k: int| 0 <= k < q ==> bal@[(#[trigger] creditors@[k]) as int] <= 0,
                        decreases creditors.len() - q,
                    {
                        let c = creditors[q];
                        proof {
                            assert(ints(bal@)[c as int] == bal@[c as int]);
                            assert(ints(bal@)[d as int] == bal@[d as int]);
                            assert(ns[d as int] == nets@[d as int]);
                            assert(ns[c as int] == nets@[c as int]);
                        }
                        if bal[d] < 0 && bal[c] > 0 {
                            let x = if bal[c] < -bal[d] { bal[c] } else { -bal[d] };
                            let ghost before = bal@;
                            pay(&mut bal, &mut ts, d, c, x, Ghost(ns));
                            proof {
                                assert forall|q2: int| 0 <= q2 < p implies bal@[(#[trigger] debtors@[q2]) as int] == 0 || nobody_owed(ints(bal@)) by {
                                    if before[debtors@[q2] as int] == 0 {
                                        assert(debtors@[q2] != c);
                                        assert(debtors@[q2] != d);
                                    } else {
                                        assert(nobody_owed(ints(before)));
                                        assert(ints(before)[c as int] == before[c as int]);
                                    }
                                }
                                if bal@[d as int] != 0 {
                                    assert forall|k: int| 0 <= k < q + 1 implies bal@[(#[trigger] creditors@[k]) as int] <= 0 by {
                                        if k < q {
                                            assert(before[creditors@[k] as int] <= 0);
                                            if creditors@[k] == c {
                                            } else {
                                                assert(creditors@[k] != d);
                                            }
                                        }
                                    }
                                }
                            }
                        } else {
                            proof {
                                if bal@[d as int] != 0 {
                                    assert(bal@[c as int] <= 0);
                                }
                            }
                        }
                        q = q + 1;
                    }
                    proof {
                        assert forall|q2: int| 0 <= q2 < p + 1 implies bal@[(#[trigger] debtors@[q2]) as int] == 0 || nobody_owed(ints(bal@)) by {
                            if q2 == p && bal@[d as int] != 0 {
                                assert forall|j: int| 0 <= j < ints(bal@).len() implies #[trigger] ints(bal@)[j] <= 0 by {
                                    assert(ints(bal@)[j] == bal@[j]);
                                    if nets@[j] > 0 {
                                        assert(creditors@.contains(j as usize));
                                        let k = choose|k: int| 0 <= k < creditors.len() && creditors@[k] == j as usize;
                                        assert(bal@[creditors@[k] as int] <= 0);
                                    } else {
                                        assert(ns[j] == nets@[j]);
                                    }
                                }
                            }
                        }
                    }
                },
            }
        } else {
            proof {
                assert(bal@[d as int] == 0) by {
                    assert(ns[d as int] == nets@[d as int]);
                    assert(ints(bal@)[d as int] == bal@[d as int]);
                }
            }
        }
        p = p + 1;
    }
    proof {
        let b = ints(bal@);
        if !nobody_owed(b) {
            assert forall|j: int| 0 <= j < nets.len() implies #[trigger] bal@[j] >= 0 by {
                assert(b[j] == bal@[j]);
                assert(ns[j] == nets@[j]);
                if nets@[j] < 0 {
                    let x = debtors@.len();
                    assert(bal@[j] <= 0);
                    assert(debtors@.contains(j as usize)) by {
                        assert(signed(nets@[j], true));
                    }
                    let k = choose|k: int| 0 <= k < debtors.len() && debtors@[k] == j as usize;
                    assert(bal@[debtors@[k] as int] == 0 || nobody_owed(b));
                }
            }
        } else {
            assert forall|j: int| 0 <= j < nets.len() implies #[trigger] bal@[j] <= 0 by {
                assert(b[j] == bal@[j]);
            }
        }
    }
    (ts, bal)
}

/// The settlements made from the transfers give and take from each user
/// what the transfers give and take from their index.
proof fn lemma_received(users: Seq<Rc<User>>, ts: Seq<Transfer>, ss: Seq<Settlement>, s: int, i: int)
    requires
        unique_user_ids(users),
        0 <= i < users.len(),
        ss.len() == ts.len(),
        forall|k: int|
            0 <= k < ts.len() ==> (#[trigger] ts[k]).0 < users.len() && ts[k].1 < users.len() && ss[k].sender == users[ts[k].0 as int].id
                && ss[k].receiver == users[ts[k].1 as int].id && ss[k].amount.value@ == (ts[k].2 as int, s),
    ensures
        received(ss, users[i].id, s) == received_at(ts, i),
        sent(ss, users[i].id, s) == sent_at(ts, i),
    decreases ts.len(),
{
    if ts.len() > 0 {
        let k = ts.len() - 1;
        assert forall|j: int| 0 <= j < ts.drop_last().len() implies (#[trigger] ts.drop_last()[j]).0 < users.len() && ts.drop_last()[j].1
            < users.len() && ss.drop_last()[j].sender == users[ts.drop_last()[j].0 as int].id && ss.drop_last()[j].receiver
            == users[ts.drop_last()[j].1 as int].id && ss.drop_last()[j].amount.value@ == (ts.drop_last()[j].2 as int, s) by {
            assert(ts.drop_last()[j] == ts[j]);
            assert(ss.drop_last()[j] == ss[j]);
        }
        lemma_received(users, ts.drop_last(), ss.drop_last(), s, i);
        assert(ts[k] == ts.last());
        assert(ss[k] == ss.last());
        vstd::arithmetic::power::lemma_pow0(10);
        assert(at(ss.last().amount.value@, s) == ts.last().2 as int);
        if ts.last().1 as int != i {
            assert(users[ts.last().1 as int].id != users[i].id);
        }
        if ts.last().0 as int != i {
            assert(users[ts.last().0 as int].id != users[i].id);
        }
    }
}

/// A user of the tab is found by their id.
proof fn lemma_user_found(tab: Tab, i: int)
    requires
        0 <= i < tab.users_seq().len(),
    ensures
        tab.user_with_id(tab.users_seq()[i].id) is Some,
{
    crate::search::lemma_first_match_found(tab.users_seq(), crate::costing::tab::has_user_id(tab.users_seq()[i].id));
}

impl Tab {
    /// The settlements that leave every user having paid their share of
    /// the expenses they took part in (see `fair`), computed exactly at the
    /// tab's finest scale: the balance of each user is what they paid less
    /// their shares; each user who owes, smallest debt first, pays the
    /// whole debt to the first user owed at least as much (smallest claim
    /// first), or else pays the users owed in turn until the debt is paid.
    /// `None` when a share is not defined or the amounts do not fit (see
    /// `fair_fits`).
    pub(crate) fn fair_settlements(&self) -> (r: Option<Vec<Settlement>>)
        requires
            self.wf(),
        ensures
            r is None <==> !fair_fits(*self),
            r matches Some(v) ==> fair(*self, v@),
    {
        let (qs, top) = match shares_and_scale(&self.expenses) {
            Some(x) => x,
            None => {
                return None;
            },
        };
        let mut s: u32 = top;
        let mut found = scaled_values(&self.expenses, &qs, s);
        while found.is_none() && s > 0
            invariant
                s <= top,
                qs.len() == self.expenses.len(),
                forall|k: int| 0 <= k < self.expenses.len() ==> (#[trigger] qs@[k])@ == share_parts(self.expenses@[k]),
                forall|k: int| 0 <= k < self.expenses.len() ==> share_defined(#[trigger] self.expenses@[k]),
                fit_scale(self.expenses@, top as int) == fit_scale(self.expenses@, s as int),
                found is None <==> magnitude(self.expenses@, s as int) > MAX_MANTISSA,
                found matches Some((amounts, shares)) ==> amounts.len() == self.expenses.len() && shares.len() == self.expenses.len()
                    && (forall|k: int| 0 <= k < self.expenses.len() ==> #[trigger] amounts@[k] == at(self.expenses@[k].amount.value@, s as int))
                    && (forall|k: int| 0 <= k < self.expenses.len() ==> #[trigger] shares@[k] == at(share_parts(self.expenses@[k]), s as int)),
            decreases s,
        {
            s = s - 1;
            found = scaled_values(&self.expenses, &qs, s);
        }
        let (amounts, shares) = match found {
            Some(x) => x,
            None => {
                return None;
            },
        };
        let mut nets: Vec<i128> = Vec::new();
        let mut i: usize = 0;
        while i < self.users.len()
            invariant
                i <= self.users.len(),
                nets.len() == i,
                amounts.len() == self.expenses.len(),
                shares.len() == self.expenses.len(),
                forall|k: int| 0 <= k < self.expenses.len() ==> #[trigger] amounts@[k] == at(self.expenses@[k].amount.value@, s as int),
                forall|k: int| 0 <= k < self.expenses.len() ==> #[trigger] shares@[k] == at(share_parts(self.expenses@[k]), s as int),
                magnitude(self.expenses@, s as int) <= MAX_MANTISSA,
                s == settle_scale(self.expenses@),
                forall|j: int| 0 <= j < i ==> #[trigger] nets@[j] == net(self.expenses@, self.users@[j].id, s as int),
                forall|j: int| 0 <= j < i ==> -MAX_MANTISSA <= #[trigger] nets@[j] <= MAX_MANTISSA,
            decreases self.users.len() - i,
        {
            let x = user_net(&self.expenses, self.users[i].id, &amounts, &shares, Ghost(s as int));
            nets.push(x);
            i = i + 1;
        }
        let (ts, bal) = settle_balances(&nets);
        let w = self.working_currency;
        let mut ss: Vec<Settlement> = Vec::new();
        let mut k: usize = 0;
        while k < ts.len()
            invariant
                k <= ts.len(),
                ss.len() == k,
                s == settle_scale(self.expenses@),
                0 <= s <= crate::decimal::MAX_SCALE,
                settling(ints(nets@), ints(bal@), ts@),
                nets.len() == self.users.len(),
                forall|j: int|
                    0 <= j < k ==> (#[trigger] ss@[j]).sender == self.users@[ts@[j].0 as int].id && ss@[j].receiver
                        == self.users@[ts@[j].1 as int].id && ss@[j].amount.value@ == (ts@[j].2 as int, s as int)
                        && ss@[j].amount.currency_code == w,
            decreases ts.len() - k,
        {
            let (d, c, x) = ts[k];
            proof {
                assert(ts@[k as int].0 < nets.len() && ts@[k as int].1 < nets.len() && 0 < ts@[k as int].2 <= MAX_MANTISSA);
            }
            let amount = Commodity::new(Decimal::from_i128_with_scale(x, s), w);
            ss.push(Settlement::new(self.users[d].id, self.users[c].id, amount));
            k = k + 1;
        }
        proof {
            let ns = ints(nets@);
            let b = ints(bal@);
            assert(user_nets(*self) =~= ns);
            lemma_one_sign(b);
            lemma_nonzero_total(b);
            lemma_nonzero_total(ns);
            assert(ts@.len() + 1 <= larger(nonzero(ns), 1)) by {
                if total(ns) == 0 {
                    if nonzero(b) == 0 && ts@.len() > 0 {
                    }
                } else {
                    assert(total(b) != 0);
                    assert(nonzero(b) >= 1);
                }
            }
            assert forall|j: int| 0 <= j < ts@.len() implies (#[trigger] ts@[j]).0 < self.users@.len() && ts@[j].1 < self.users@.len()
                && ss@[j].sender == self.users@[ts@[j].0 as int].id && ss@[j].receiver == self.users@[ts@[j].1 as int].id
                && ss@[j].amount.value@ == (ts@[j].2 as int, s as int) by {
                assert(ts@[j].0 < ns.len());
            }
            assert forall|j: int| 0 <= j < self.users_seq().len() implies abs(
                received(ss@, self.users_seq()[j].id, s as int) - sent(ss@, self.users_seq()[j].id, s as int) - #[trigger] user_nets(*self)[j],
            ) <= abs(total(user_nets(*self))) by {
                lemma_received(self.users@, ts@, ss@, s as int, j);
                assert(received_at(ts@, j) - sent_at(ts@, j) + b[j] == ns[j]);
            }
            assert forall|j: int|
                0 <= j < ss@.len() implies (#[trigger] ss@[j]).amount.value@.1 == s && ss@[j].amount.value@.0 > 0 && ss@[j].amount.currency_code
                    == self.working_currency && self.user_with_id(ss@[j].sender) is Some && self.user_with_id(ss@[j].receiver) is Some
                    && net(self.expenses@, ss@[j].sender, s as int) < 0 < net(self.expenses@, ss@[j].receiver, s as int)
                    && ss@[j].amount.value@.0 <= -net(self.expenses@, ss@[j].sender, s as int)
                    && ss@[j].amount.value@.0 <= net(self.expenses@, ss@[j].receiver, s as int) by {
                let t = ts@[j];
                assert(ns[t.0 as int] < 0 && ns[t.1 as int] > 0);
                assert(ns[t.0 as int] == user_nets(*self)[t.0 as int]);
                assert(ns[t.1 as int] == user_nets(*self)[t.1 as int]);
                lemma_user_found(*self, t.0 as int);
                lemma_user_found(*self, t.1 as int);
                assert(t.0 != t.1);
            }
        }
        Some(ss)
    }
}

} // verus!
