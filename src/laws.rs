//! Properties that relate several operations of the registry and the pair.
use vstd::prelude::*;

use crate::account::{lemma_sorted_pair_symmetric, sorted_pair, AccountId};
use crate::factory::{FactoryContract, FactoryError, PairRequest};
use crate::pair::{
    adjusted, amount_in, burn_amount, mint_liquidity, PairContract, MINIMUM_LIQUIDITY,
};

verus! {

/// `after` holds the reserves that a successful swap on `before` records.
pub open spec fn swapped(before: PairContract, after: PairContract) -> bool {
    exists|out_0: u128, out_1: u128, to: AccountId, b0: u128, b1: u128|
        #![trigger before.swap_outcome(out_0 as int, out_1 as int, to, b0 as int, b1 as int)]
        before.swap_outcome(out_0 as int, out_1 as int, to, b0 as int, b1 as int) is Ok
            && after.reserve_0 == b0 && after.reserve_1 == b1
}

/// A successful swap never lowers the product of the reserves: the
/// fee-adjusted balances must cover it, and they are below the balances.
pub proof fn lemma_swap_keeps_product(
    p: PairContract,
    out_0: u128,
    out_1: u128,
    to: AccountId,
    b0: u128,
    b1: u128,
)
    requires
        p.swap_outcome(out_0 as int, out_1 as int, to, b0 as int, b1 as int) is Ok,
    ensures
        b0 * b1 >= p.reserve_0 * p.reserve_1,
{
    let r0 = p.reserve_0 as int;
    let r1 = p.reserve_1 as int;
    let in0 = amount_in(b0 as int, r0, out_0 as int);
    let in1 = amount_in(b1 as int, r1, out_1 as int);
    let x = adjusted(b0 as int, in0);
    let y = adjusted(b1 as int, in1);
    assert(0 <= in0 <= b0 && 0 <= in1 <= b1);
    assert(0 <= x <= b0 * 1000 && 0 <= y <= b1 * 1000);
    assert(x * y <= (b0 * 1000) * (b1 * 1000)) by (nonlinear_arith)
        requires
            0 <= x <= b0 * 1000,
            0 <= y <= b1 * 1000,
    ;
    assert(x * y >= r0 * r1 * 1_000_000);
    assert(b0 * b1 >= r0 * r1) by (nonlinear_arith)
        requires
            x * y <= (b0 * 1000) * (b1 * 1000),
            x * y >= r0 * r1 * 1_000_000,
    ;
}

/// Over any run of successful swaps, with no mint or burn between them, the
/// product of the reserves never decreases.
pub proof fn lemma_swaps_keep_product(states: Seq<PairContract>)
    requires
        states.len() > 0,
        forall|i: int| 0 <= i < states.len() - 1 ==> swapped(#[trigger] states[i], states[i + 1]),
    ensures
        states.last().reserve_0 * states.last().reserve_1 >= states[0].reserve_0 * states[0].reserve_1,
    decreases states.len(),
{
    if states.len() > 1 {
        let front = states.drop_last();
        assert forall|i: int| 0 <= i < front.len() - 1 implies swapped(#[trigger] front[i], front[i + 1]) by {
            assert(front[i] == states[i] && front[i + 1] == states[i + 1]);
        }
        lemma_swaps_keep_product(front);
        let k = states.len() - 2;
        assert(swapped(states[k], states[k + 1]));
        let (out_0, out_1, to, b0, b1) = choose|out_0: u128, out_1: u128, to: AccountId, b0: u128, b1: u128|
            #![trigger states[k].swap_outcome(out_0 as int, out_1 as int, to, b0 as int, b1 as int)]
            states[k].swap_outcome(out_0 as int, out_1 as int, to, b0 as int, b1 as int) is Ok
                && states[k + 1].reserve_0 == b0 && states[k + 1].reserve_1 == b1;
        lemma_swap_keeps_product(states[k], out_0, out_1, to, b0, b1);
    }
}

proof fn lemma_equal_ratios_floor(x: int, d1: int, y: int, d2: int)
    requires
        x >= 0,
        y >= 0,
        d1 > 0,
        d2 > 0,
        x * d2 == y * d1,
    ensures
        x / d1 == y / d2,
{
    let q = x / d1;
    assert(q * d1 <= x < (q + 1) * d1) by (nonlinear_arith)
        requires
            q == x / d1,
            d1 > 0,
    ;
    assert(q * d1 * d2 <= y * d1 < (q + 1) * d1 * d2) by (nonlinear_arith)
        requires
            q * d1 <= x < (q + 1) * d1,
            d2 > 0,
            x * d2 == y * d1,
    ;
    assert(q * d2 <= y < (q + 1) * d2) by (nonlinear_arith)
        requires
            q * d1 * d2 <= y * d1 < (q + 1) * d1 * d2,
            d1 > 0,
    ;
    assert(y / d2 == q) by (nonlinear_arith)
        requires
            q * d2 <= y < (q + 1) * d2,
            d2 > 0,
    ;
}

/// A deposit in the exact ratio of the reserves earns exactly its share of
/// the supply, truncated: `amount_0 * supply / reserve_0`.
pub proof fn lemma_proportional_mint(amount_0: int, amount_1: int, supply: int, r0: int, r1: int)
    requires
        amount_0 >= 0,
        amount_1 >= 0,
        supply > 0,
        r0 > 0,
        r1 > 0,
        amount_0 * r1 == amount_1 * r0,
    ensures
        mint_liquidity(amount_0, amount_1, supply, r0, r1) == amount_0 * supply / r0,
{
    assert((amount_0 * supply) * r1 == (amount_1 * supply) * r0) by (nonlinear_arith)
        requires
            amount_0 * r1 == amount_1 * r0,
    ;
    assert(amount_0 * supply >= 0 && amount_1 * supply >= 0) by (nonlinear_arith)
        requires
            amount_0 >= 0,
            amount_1 >= 0,
            supply > 0,
    ;
    lemma_equal_ratios_floor(amount_0 * supply, r0, amount_1 * supply, r1);
}

/// Burning at once the shares that a deposit earned into a pool that already
/// has shares out returns no more than was deposited, on either side.
pub proof fn lemma_mint_then_burn(amount_0: int, amount_1: int, supply: int, r0: int, r1: int)
    requires
        amount_0 >= 0,
        amount_1 >= 0,
        supply > 0,
        r0 > 0,
        r1 > 0,
        mint_liquidity(amount_0, amount_1, supply, r0, r1) > 0,
    ensures
        ({
            let l = mint_liquidity(amount_0, amount_1, supply, r0, r1);
            &&& burn_amount(l, r0 + amount_0, supply + l) <= amount_0
            &&& burn_amount(l, r1 + amount_1, supply + l) <= amount_1
        }),
{
    let l = mint_liquidity(amount_0, amount_1, supply, r0, r1);
    assert(l <= amount_0 * supply / r0 && l <= amount_1 * supply / r1);
    lemma_share_bound(l, amount_0, supply, r0);
    lemma_share_bound(l, amount_1, supply, r1);
}

proof fn lemma_share_bound(l: int, a: int, s: int, r: int)
    requires
        l > 0,
        a >= 0,
        s > 0,
        r > 0,
        l <= a * s / r,
    ensures
        l * (r + a) / (s + l) <= a,
{
    assert(l * r <= a * s) by (nonlinear_arith)
        requires
            l <= a * s / r,
            r > 0,
            a >= 0,
            s > 0,
    ;
    assert(l * (r + a) <= a * (s + l)) by (nonlinear_arith)
        requires
            l * r <= a * s,
    ;
    assert(l * (r + a) / (s + l) <= a) by (nonlinear_arith)
        requires
            l * (r + a) <= a * (s + l),
            s + l > 0,
            l * (r + a) >= 0,
    ;
}

proof fn lemma_round_trip_loss(l: int, a: int, s: int, r: int)
    requires
        l > 0,
        a >= 0,
        s > 0,
        r > 0,
        l == a * s / r,
    ensures
        (a - burn_amount(l, r + a, s + l) - 1) * (s + l) < r,
{
    let b = burn_amount(l, r + a, s + l);
    assert((l + 1) * r > a * s) by (nonlinear_arith)
        requires
            l == a * s / r,
            r > 0,
    ;
    assert((b + 1) * (s + l) > l * (r + a)) by (nonlinear_arith)
        requires
            b == l * (r + a) / (s + l),
            s + l > 0,
    ;
    assert((a - b - 1) * (s + l) < r) by (nonlinear_arith)
        requires
            (b + 1) * (s + l) > l * (r + a),
            (l + 1) * r > a * s,
    ;
}

/// For a deposit in the exact ratio of the reserves, burning at once the
/// shares it earned loses on each side less than one unit plus
/// `reserve / supply`: what the truncation of the shares costs.
pub proof fn lemma_proportional_round_trip(
    amount_0: int,
    amount_1: int,
    supply: int,
    r0: int,
    r1: int,
)
    requires
        amount_0 >= 0,
        amount_1 >= 0,
        supply > 0,
        r0 > 0,
        r1 > 0,
        amount_0 * r1 == amount_1 * r0,
        mint_liquidity(amount_0, amount_1, supply, r0, r1) > 0,
    ensures
        ({
            let l = mint_liquidity(amount_0, amount_1, supply, r0, r1);
            &&& (amount_0 - burn_amount(l, r0 + amount_0, supply + l) - 1) * (supply + l) < r0
            &&& (amount_1 - burn_amount(l, r1 + amount_1, supply + l) - 1) * (supply + l) < r1
        }),
{
    let l = mint_liquidity(amount_0, amount_1, supply, r0, r1);
    lemma_proportional_mint(amount_0, amount_1, supply, r0, r1);
    assert((amount_0 * supply) * r1 == (amount_1 * supply) * r0) by (nonlinear_arith)
        requires
            amount_0 * r1 == amount_1 * r0,
    ;
    assert(amount_0 * supply >= 0 && amount_1 * supply >= 0) by (nonlinear_arith)
        requires
            amount_0 >= 0,
            amount_1 >= 0,
            supply > 0,
    ;
    lemma_equal_ratios_floor(amount_0 * supply, r0, amount_1 * supply, r1);
    lemma_round_trip_loss(l, amount_0, supply, r0);
    lemma_round_trip_loss(l, amount_1, supply, r1);
}

/// The first deposit, burned at once, returns no more than was deposited:
/// its shares are the supply less the locked minimum.
pub proof fn lemma_first_mint_then_burn(amount_0: int, amount_1: int)
    requires
        amount_0 >= 0,
        amount_1 >= 0,
        mint_liquidity(amount_0, amount_1, 0, 0, 0) > 0,
    ensures
        ({
            let l = mint_liquidity(amount_0, amount_1, 0, 0, 0);
            &&& burn_amount(l, amount_0, l + MINIMUM_LIQUIDITY) <= amount_0
            &&& burn_amount(l, amount_1, l + MINIMUM_LIQUIDITY) <= amount_1
        }),
{
    let l = mint_liquidity(amount_0, amount_1, 0, 0, 0);
    let s = l + MINIMUM_LIQUIDITY;
    assert(l * amount_0 / s <= amount_0) by (nonlinear_arith)
        requires
            0 < l < s,
            amount_0 >= 0,
    ;
    assert(l * amount_1 / s <= amount_1) by (nonlinear_arith)
        requires
            0 < l < s,
            amount_1 >= 0,
    ;
}

/// Once the pair of `a` and `b` is registered, a second request for it, in
/// either order, fails with `PairExists`, and both orders find the same pair.
pub proof fn lemma_factory_uniqueness(
    before: FactoryContract,
    after: FactoryContract,
    a: AccountId,
    b: AccountId,
    pair: AccountId,
)
    requires
        before.wf(),
        before.create_error(a, b) is None,
        FactoryContract::registered(before, after, sorted_pair(a, b).0, sorted_pair(a, b).1, pair),
    ensures
        after.pair_for(a, b) == Some(pair),
        after.pair_for(b, a) == Some(pair),
        after.create_error(b, a) == Some(FactoryError::PairExists),
        after.create_error(a, b) == Some(FactoryError::PairExists),
{
    lemma_sorted_pair_symmetric(a, b);
    let s = after.pairs@;
    let i = s.len() - 1;
    assert(s[i] == (sorted_pair(a, b).0, sorted_pair(a, b).1, pair));
    assert(crate::factory::lookup(s, s[i].0, s[i].1) is Some);
    let j = choose|j: int| 0 <= j < s.len() && s[j].0 == s[i].0 && s[j].1 == s[i].1;
    if j != i {
        assert(j < i);
        assert(before.pairs@[j] == s[j]);
        assert(crate::factory::lookup(before.pairs@, s[i].0, s[i].1) is Some);
    }
}

/// The registry finds a pair by its two tokens in either order.
pub proof fn lemma_get_pair_symmetric(f: FactoryContract, a: AccountId, b: AccountId)
    ensures
        f.pair_for(a, b) == f.pair_for(b, a),
{
    if a != b {
        lemma_sorted_pair_symmetric(a, b);
    }
}

/// Two registries with the same pair code ask for the same instantiation
/// for the same two tokens, so the deployed pair's address is the same.
pub proof fn lemma_deterministic_request(
    f: FactoryContract,
    g: FactoryContract,
    a: AccountId,
    b: AccountId,
    r: PairRequest,
    q: PairRequest,
)
    requires
        f.pair_contract_code_hash == g.pair_contract_code_hash,
        f.is_request_for(r, a, b),
        g.is_request_for(q, a, b),
    ensures
        r.token_0 == q.token_0,
        r.token_1 == q.token_1,
        r.code_hash == q.code_hash,
        r.salt@ == q.salt@,
{
}

} // verus!
