use vstd::prelude::*;

use crate::account::{is_zero, lemma_zero_unique, zero_account, AccountId};
use crate::ledger::{moved, moved_balance, PSP22Error, Psp22Ledger};
use crate::wide::{
    isqrt, modulus, mul_wide, sqrt_wide, uq112_div, uq112_value, wrapping_add, wrapping_mul_u32,
    Wide,
};

verus! {

/// Shares locked away for good by the first deposit into a pair.
pub const MINIMUM_LIQUIDITY: u128 = 1000;

/// The largest reserve a pair can record: 2^112 - 1, so that a Q112.112
/// price and a product of two reserves each fit in 256 bits.
pub const MAX_RESERVE: u128 = 0xffff_ffff_ffff_ffff_ffff_ffff_ffff;

/// Failures of the pair engine.
#[derive(Clone, Copy, Debug, PartialEq, Eq, Structural)]
pub enum PairError {
    InsufficientLiquidityMinted,
    InsufficientLiquidityBurned,
    InsufficientOutputAmount,
    InsufficientInputAmount,
    InsufficientLiquidity,
    InvalidTo,
    K,
    Locked,
    Overflow,
}

/// Shares were created or destroyed (`None` stands for the ledger itself) or moved.
#[derive(Clone, Copy, Debug, PartialEq, Eq)]
pub struct Transfer {
    pub from: Option<AccountId>,
    pub to: Option<AccountId>,
    pub value: u128,
}

/// `owner` let `spender` move up to `value` of its shares.
#[derive(Clone, Copy, Debug, PartialEq, Eq)]
pub struct Approval {
    pub owner: AccountId,
    pub spender: AccountId,
    pub value: u128,
}

/// Liquidity was added.
#[derive(Clone, Copy, Debug, PartialEq, Eq)]
pub struct Mint {
    pub sender: AccountId,
    pub amount_0: u128,
    pub amount_1: u128,
}

/// Liquidity was removed.
#[derive(Clone, Copy, Debug, PartialEq, Eq)]
pub struct Burn {
    pub sender: AccountId,
    pub amount_0: u128,
    pub amount_1: u128,
    pub to: AccountId,
}

/// A trade went through.
#[derive(Clone, Copy, Debug, PartialEq, Eq)]
pub struct Swap {
    pub sender: AccountId,
    pub amount_0_in: u128,
    pub amount_1_in: u128,
    pub amount_0_out: u128,
    pub amount_1_out: u128,
    pub to: AccountId,
}

/// The reserves were set.
#[derive(Clone, Copy, Debug, PartialEq, Eq)]
pub struct Sync {
    pub reserve_0: u128,
    pub reserve_1: u128,
}

/// A notification of a completed operation.
#[derive(Clone, Copy, Debug, PartialEq, Eq)]
pub enum PairEvent {
    Transfer(Transfer),
    Approval(Approval),
    Mint(Mint),
    Burn(Burn),
    Swap(Swap),
    Sync(Sync),
}

/// The state of one trading pair.
pub struct PairContract {
    /// The pair's own account, which holds the shares handed in for burning.
    pub address: AccountId,
    pub token_0: AccountId,
    pub token_1: AccountId,
    pub reserve_0: u128,
    pub reserve_1: u128,
    pub block_timestamp_last: u32,
    pub price_0_cumulative_last: Wide,
    pub price_1_cumulative_last: Wide,
    pub k_last: Wide,
    pub locked: bool,
    pub psp22: Psp22Ledger,
    pub events: Vec<PairEvent>,
}

/// The protocol fee is on when its recipient is not the null address.
pub open spec fn fee_on(fee_to: AccountId) -> bool {
    !is_zero(fee_to)
}

/// The low 32 bits of a timestamp.
pub open spec fn timestamp_32(now: u64) -> int {
    now as int % 0x1_0000_0000
}

/// Seconds from `last` to `now`, counted modulo 2^32.
pub open spec fn elapsed_since(last: u32, now: u64) -> int {
    if timestamp_32(now) >= last {
        timestamp_32(now) - last
    } else {
        timestamp_32(now) - last + 0x1_0000_0000
    }
}

/// An accumulator after `elapsed` seconds at the price `num / den`.
pub open spec fn accumulate(acc: Wide, num: int, den: int, elapsed: int) -> int {
    (acc.value() + (uq112_value(num, den) * elapsed) % modulus()) % modulus()
}

/// `after` is `before` with its reserves set to the given balances at time
/// `now`, and its price accumulators advanced over the time elapsed.
pub open spec fn updated(
    before: PairContract,
    after: PairContract,
    b0: int,
    b1: int,
    now: u64,
) -> bool {
    let e = elapsed_since(before.block_timestamp_last, now);
    &&& after.reserve_0 == b0
    &&& after.reserve_1 == b1
    &&& after.block_timestamp_last == timestamp_32(now)
    &&& if e > 0 && before.reserve_0 != 0 && before.reserve_1 != 0 {
        &&& after.price_0_cumulative_last.value() == accumulate(
            before.price_0_cumulative_last,
            before.reserve_1 as int,
            before.reserve_0 as int,
            e,
        )
        &&& after.price_1_cumulative_last.value() == accumulate(
            before.price_1_cumulative_last,
            before.reserve_0 as int,
            before.reserve_1 as int,
            e,
        )
    } else {
        &&& after.price_0_cumulative_last == before.price_0_cumulative_last
        &&& after.price_1_cumulative_last == before.price_1_cumulative_last
    }
}

/// The shares minted to the protocol for the growth of `sqrt(k)` over
/// `sqrt(k_last)`: a sixth of the growth, as a share of the pool.
pub open spec fn protocol_fee(supply: int, k: int, k_last: int) -> int {
    let rk = isqrt(k);
    let rkl = isqrt(k_last);
    if k_last != 0 && rk > rkl {
        supply * (rk - rkl) / (rk * 5 + rkl)
    } else {
        0
    }
}

/// The protocol fee does not fit in 128 bits.
pub open spec fn protocol_fee_overflows(supply: int, k: int, k_last: int) -> bool {
    let rk = isqrt(k);
    let rkl = isqrt(k_last);
    k_last != 0 && rk > rkl && (supply * (rk - rkl) > u128::MAX || supply + protocol_fee(
        supply,
        k,
        k_last,
    ) > u128::MAX)
}

/// The smaller of two integers.
pub open spec fn min_of(x: int, y: int) -> int {
    if x <= y {
        x
    } else {
        y
    }
}

/// The shares for a deposit of `amount_0` and `amount_1` into reserves `r0`
/// and `r1` with `supply` shares out: the square root of the product, less
/// the locked minimum, for the first deposit; else the share of the lesser side.
pub open spec fn mint_liquidity(
    amount_0: int,
    amount_1: int,
    supply: int,
    r0: int,
    r1: int,
) -> int {
    if supply == 0 {
        isqrt(amount_0 * amount_1) - MINIMUM_LIQUIDITY
    } else {
        min_of(amount_0 * supply / r0, amount_1 * supply / r1)
    }
}

/// What a mint adds to the balance of `b`.
pub open spec fn mint_credit(
    b: AccountId,
    to: AccountId,
    fee_to: AccountId,
    fee: int,
    liquidity: int,
    first: bool,
) -> int {
    (if fee_on(fee_to) && b == fee_to {
        fee
    } else {
        0
    }) + (if b == to {
        liquidity
    } else {
        0
    }) + (if first && is_zero(b) {
        MINIMUM_LIQUIDITY as int
    } else {
        0
    })
}

/// The notification of `value` new shares for `to`.
pub open spec fn created(to: AccountId, value: int) -> PairEvent {
    PairEvent::Transfer(Transfer { from: None, to: Some(to), value: value as u128 })
}

/// The notifications of the shares that a mint creates: the protocol fee,
/// the locked minimum on a first deposit, and the depositor's shares.
pub open spec fn mint_transfers(
    to: AccountId,
    fee_to: AccountId,
    fee: int,
    liquidity: int,
    first: bool,
) -> Seq<PairEvent> {
    (if fee > 0 {
        seq![created(fee_to, fee)]
    } else {
        Seq::empty()
    }) + (if first {
        seq![created(zero_account(), MINIMUM_LIQUIDITY as int)]
    } else {
        Seq::empty()
    }) + seq![created(to, liquidity)]
}

/// What a swap takes in on one side: how far the balance exceeds the reserve
/// less what was sent out.
pub open spec fn amount_in(balance: int, reserve: int, out: int) -> int {
    if balance > reserve - out {
        balance - (reserve - out)
    } else {
        0
    }
}

/// A balance less the 0.3% fee on what came in, scaled by 1000.
pub open spec fn adjusted(balance: int, input: int) -> int {
    balance * 1000 - input * 3
}

/// What a burn of `liquidity` shares out of `supply` pays out of `balance`.
pub open spec fn burn_amount(liquidity: int, balance: int, supply: int) -> int {
    liquidity * balance / supply
}

/// `after` is `before` with the guard released and nothing else changed.
pub open spec fn released(before: PairContract, after: PairContract) -> bool {
    &&& !after.locked
    &&& after.address == before.address
    &&& after.token_0 == before.token_0
    &&& after.token_1 == before.token_1
    &&& after.reserve_0 == before.reserve_0
    &&& after.reserve_1 == before.reserve_1
    &&& after.block_timestamp_last == before.block_timestamp_last
    &&& after.price_0_cumulative_last == before.price_0_cumulative_last
    &&& after.price_1_cumulative_last == before.price_1_cumulative_last
    &&& after.k_last == before.k_last
    &&& after.psp22 == before.psp22
    &&& after.events == before.events
}

impl PairContract {
    /// Why a swap of these outputs to `to` is refused before any transfer.
    pub open spec fn swap_request_error(
        self,
        amount_0_out: int,
        amount_1_out: int,
        to: AccountId,
    ) -> Option<PairError> {
        if amount_0_out == 0 && amount_1_out == 0 {
            Some(PairError::InsufficientOutputAmount)
        } else if amount_0_out >= self.reserve_0 || amount_1_out >= self.reserve_1 {
            Some(PairError::InsufficientLiquidity)
        } else if to == self.token_0 || to == self.token_1 {
            Some(PairError::InvalidTo)
        } else {
            None
        }
    }

    /// The result of settling a swap on the balances held afterwards.
    pub open spec fn swap_outcome(
        self,
        amount_0_out: int,
        amount_1_out: int,
        to: AccountId,
        balance_0: int,
        balance_1: int,
    ) -> Result<(), PairError> {
        let r0 = self.reserve_0 as int;
        let r1 = self.reserve_1 as int;
        let in0 = amount_in(balance_0, r0, amount_0_out);
        let in1 = amount_in(balance_1, r1, amount_1_out);
        if self.swap_request_error(amount_0_out, amount_1_out, to) is Some {
            Err(self.swap_request_error(amount_0_out, amount_1_out, to)->Some_0)
        } else if balance_0 > MAX_RESERVE || balance_1 > MAX_RESERVE {
            Err(PairError::Overflow)
        } else if in0 == 0 && in1 == 0 {
            Err(PairError::InsufficientInputAmount)
        } else if adjusted(balance_0, in0) * adjusted(balance_1, in1) < r0 * r1 * 1_000_000 {
            Err(PairError::K)
        } else {
            Ok(())
        }
    }

    /// The result of `burn` on the given balances.
    pub open spec fn burn_outcome(
        self,
        balance_0: int,
        balance_1: int,
        fee_to: AccountId,
    ) -> Result<
        (u128, u128),
        PairError,
    > {
        let liquidity = self.psp22.balance(self.address) as int;
        let s = self.psp22.supply() + self.fee_shares(fee_to);
        if self.locked {
            Err(PairError::Locked)
        } else if balance_0 > MAX_RESERVE || balance_1 > MAX_RESERVE || self.fee_fails(fee_to) {
            Err(PairError::Overflow)
        } else if s == 0 {
            Err(PairError::InsufficientLiquidityBurned)
        } else if liquidity * balance_0 > u128::MAX || liquidity * balance_1 > u128::MAX {
            Err(PairError::Overflow)
        } else if burn_amount(liquidity, balance_0, s) == 0 || burn_amount(liquidity, balance_1, s)
            == 0 {
            Err(PairError::InsufficientLiquidityBurned)
        } else {
            Ok(
                (
                    burn_amount(liquidity, balance_0, s) as u128,
                    burn_amount(liquidity, balance_1, s) as u128,
                ),
            )
        }
    }

    /// The result of `mint` on the given balances.
    pub open spec fn mint_outcome(
        self,
        balance_0: int,
        balance_1: int,
        fee_to: AccountId,
    ) -> Result<
        u128,
        PairError,
    > {
        let r0 = self.reserve_0 as int;
        let r1 = self.reserve_1 as int;
        let s = self.psp22.supply() + self.fee_shares(fee_to);
        let a0 = balance_0 - r0;
        let a1 = balance_1 - r1;
        let l = mint_liquidity(a0, a1, s, r0, r1);
        if self.locked {
            Err(PairError::Locked)
        } else if balance_0 < r0 || balance_1 < r1 || balance_0 > MAX_RESERVE || balance_1
            > MAX_RESERVE || self.fee_fails(fee_to) {
            Err(PairError::Overflow)
        } else if s != 0 && (r0 == 0 || r1 == 0 || a0 * s > u128::MAX || a1 * s > u128::MAX) {
            Err(PairError::Overflow)
        } else if l <= 0 {
            Err(PairError::InsufficientLiquidityMinted)
        } else if s + l > u128::MAX {
            Err(PairError::Overflow)
        } else {
            Ok(l as u128)
        }
    }
}

impl PairContract {
    /// The invariant of a pair.
    pub open spec fn wf(self) -> bool {
        &&& self.psp22.wf()
        &&& self.reserve_0 <= MAX_RESERVE
        &&& self.reserve_1 <= MAX_RESERVE
        &&& !is_zero(self.address)
    }

    /// The shares that the protocol fee adds before a mint or a burn.
    pub open spec fn fee_shares(self, fee_to: AccountId) -> int {
        if fee_on(fee_to) {
            protocol_fee(
                self.psp22.supply() as int,
                self.reserve_0 * self.reserve_1,
                self.k_last.value(),
            )
        } else {
            0
        }
    }

    /// The protocol fee cannot be minted without overflow.
    pub open spec fn fee_fails(self, fee_to: AccountId) -> bool {
        fee_on(fee_to) && protocol_fee_overflows(
            self.psp22.supply() as int,
            self.reserve_0 * self.reserve_1,
            self.k_last.value(),
        )
    }

    /// A new pair of `token_0` and `token_1`, held at `address`, with no reserves.
    pub fn new(address: AccountId, token_0: AccountId, token_1: AccountId) -> (r: PairContract)
        requires
            !is_zero(address),
        ensures
            r.wf(),
            r.address == address,
            r.token_0 == token_0,
            r.token_1 == token_1,
            r.reserve_0 == 0,
            r.reserve_1 == 0,
            r.block_timestamp_last == 0,
            r.price_0_cumulative_last.value() == 0,
            r.price_1_cumulative_last.value() == 0,
            r.k_last.value() == 0,
            !r.locked,
            r.psp22.supply() == 0,
            forall|a: AccountId| r.psp22.balance(a) == 0,
            r.events@.len() == 0,
    {
        PairContract {
            address,
            token_0,
            token_1,
            reserve_0: 0,
            reserve_1: 0,
            block_timestamp_last: 0,
            price_0_cumulative_last: Wide::zero(),
            price_1_cumulative_last: Wide::zero(),
            k_last: Wide::zero(),
            locked: false,
            psp22: Psp22Ledger::new(),
            events: Vec::new(),
        }
    }

    /// The reserves and the time of their last update.
    pub fn get_reserves(&self) -> (r: (u128, u128, u32))
        ensures
            r == (self.reserve_0, self.reserve_1, self.block_timestamp_last),
    {
        (self.reserve_0, self.reserve_1, self.block_timestamp_last)
    }

    /// Records the balances as the new reserves at time `now`, first advancing
    /// the price accumulators by the old prices over the time elapsed.
    fn update(&mut self, balance_0: u128, balance_1: u128, now: u64)
        requires
            old(self).wf(),
            balance_0 <= MAX_RESERVE,
            balance_1 <= MAX_RESERVE,
        ensures
            final(self).wf(),
            updated(*old(self), *final(self), balance_0 as int, balance_1 as int, now),
            final(self).address == old(self).address,
            final(self).token_0 == old(self).token_0,
            final(self).token_1 == old(self).token_1,
            final(self).k_last == old(self).k_last,
            final(self).locked == old(self).locked,
            final(self).psp22 == old(self).psp22,
            final(self).events@ == old(self).events@.push(
                PairEvent::Sync(Sync { reserve_0: balance_0, reserve_1: balance_1 }),
            ),
    {
        let ts = (now % 0x1_0000_0000) as u32;
        let elapsed = ts.wrapping_sub(self.block_timestamp_last);
        if elapsed > 0 && self.reserve_0 != 0 && self.reserve_1 != 0 {
            let p0 = uq112_div(self.reserve_1, self.reserve_0);
            let p1 = uq112_div(self.reserve_0, self.reserve_1);
            self.price_0_cumulative_last = wrapping_add(
                self.price_0_cumulative_last,
                wrapping_mul_u32(p0, elapsed),
            );
            self.price_1_cumulative_last = wrapping_add(
                self.price_1_cumulative_last,
                wrapping_mul_u32(p1, elapsed),
            );
        }
        self.reserve_0 = balance_0;
        self.reserve_1 = balance_1;
        self.block_timestamp_last = ts;
        self.events.push(PairEvent::Sync(Sync { reserve_0: balance_0, reserve_1: balance_1 }));
    }

    /// The shares owed to the protocol fee at the current reserves, or
    /// `Overflow` where they do not fit.
    fn protocol_fee_shares(&self, fee_to: &AccountId) -> (r: Result<u128, PairError>)
        requires
            self.wf(),
        ensures
            self.fee_fails(*fee_to) ==> r == Err::<u128, PairError>(PairError::Overflow),
            !self.fee_fails(*fee_to) ==> r == Ok::<u128, PairError>(
                self.fee_shares(*fee_to) as u128,
            ) && self.psp22.supply() + self.fee_shares(*fee_to) <= u128::MAX
                && self.fee_shares(*fee_to) >= 0,
    {
        proof {
            self.psp22.lemma_supply_fits();
        }
        if fee_to.is_zero() || self.k_last.is_zero() {
            return Ok(0);
        }
        let k = mul_wide(self.reserve_0, self.reserve_1);
        let root_k = sqrt_wide(k);
        let root_k_last = sqrt_wide(self.k_last);
        if root_k <= root_k_last {
            return Ok(0);
        }
        assert(root_k < 0x1_0000_0000_0000_0000_0000_0000_0000) by (nonlinear_arith)
            requires
                root_k * root_k <= k.value(),
                k.value() == self.reserve_0 * self.reserve_1,
                self.reserve_0 <= MAX_RESERVE,
                self.reserve_1 <= MAX_RESERVE,
        ;
        let supply = self.psp22.total_supply();
        let numerator = match supply.checked_mul(root_k - root_k_last) {
            Some(n) => n,
            None => {
                return Err(PairError::Overflow);
            },
        };
        let denominator = root_k * 5 + root_k_last;
        let liquidity = numerator / denominator;
        assert(liquidity <= numerator) by (nonlinear_arith)
            requires
                liquidity == numerator / denominator,
                denominator > 0,
                numerator >= 0,
        ;
        match supply.checked_add(liquidity) {
            Some(_) => Ok(liquidity),
            None => Err(PairError::Overflow),
        }
    }
    /// Creates `amount` shares for `to`, with its notification.
    fn mint_shares(&mut self, to: &AccountId, amount: u128)
        requires
            old(self).wf(),
            old(self).psp22.supply() + amount <= u128::MAX,
        ensures
            final(self).wf(),
            final(self).psp22.balance(*to) == old(self).psp22.balance(*to) + amount,
            forall|b: AccountId| b != *to ==> final(self).psp22.balance(b) == old(self).psp22.balance(b),
            final(self).psp22.supply() == old(self).psp22.supply() + amount,
            forall|o: AccountId, s: AccountId|
                final(self).psp22.allowance(o, s) == old(self).psp22.allowance(o, s),
            final(self).events@ == old(self).events@.push(created(*to, amount as int)),
            (PairContract { psp22: old(self).psp22, events: old(self).events, ..*final(self) }) == *old(self),
    {
        self.psp22.mint_to(to, amount);
        self.events.push(PairEvent::Transfer(Transfer { from: None, to: Some(*to), value: amount }));
    }

    /// Issues shares to `to` for the tokens deposited since the last update:
    /// `balance_0` and `balance_1` are what the pair now holds of each token.
    /// The protocol fee, where `fee_to` is set, is minted first; the first
    /// deposit locks `MINIMUM_LIQUIDITY` shares on the null address.
    pub fn mint(
        &mut self,
        sender: &AccountId,
        to: &AccountId,
        balance_0: u128,
        balance_1: u128,
        now: u64,
        fee_to: &AccountId,
    ) -> (r: Result<u128, PairError>)
        requires
            old(self).wf(),
        ensures
            final(self).wf(),
            r == old(self).mint_outcome(balance_0 as int, balance_1 as int, *fee_to),
            r is Err ==> *final(self) == *old(self),
            r is Ok ==> {
                let first = old(self).psp22.supply() + old(self).fee_shares(*fee_to) == 0;
                let fee = old(self).fee_shares(*fee_to);
                let l = r->Ok_0 as int;
                &&& forall|b: AccountId|
                    final(self).psp22.balance(b) == old(self).psp22.balance(b) + mint_credit(
                        b,
                        *to,
                        *fee_to,
                        fee,
                        l,
                        first,
                    )
                &&& forall|z: AccountId|
                    is_zero(z) ==> final(self).psp22.balance(z) >= old(self).psp22.balance(z) + (
                    if first {
                        MINIMUM_LIQUIDITY as int
                    } else {
                        0
                    })
                &&& final(self).psp22.supply() == old(self).psp22.supply() + fee + l + (if first {
                    MINIMUM_LIQUIDITY as int
                } else {
                    0
                })
                &&& forall|o: AccountId, s: AccountId|
                    final(self).psp22.allowance(o, s) == old(self).psp22.allowance(o, s)
                &&& updated(*old(self), *final(self), balance_0 as int, balance_1 as int, now)
                &&& final(self).k_last.value() == if fee_on(*fee_to) {
                    balance_0 * balance_1
                } else {
                    0
                }
                &&& final(self).events@ == old(self).events@ + mint_transfers(
                    *to,
                    *fee_to,
                    fee,
                    l,
                    first,
                ).push(PairEvent::Sync(Sync { reserve_0: balance_0, reserve_1: balance_1 })).push(
                    PairEvent::Mint(
                        Mint {
                            sender: *sender,
                            amount_0: (balance_0 - old(self).reserve_0) as u128,
                            amount_1: (balance_1 - old(self).reserve_1) as u128,
                        },
                    ),
                )
                &&& final(self).address == old(self).address
                &&& final(self).token_0 == old(self).token_0
                &&& final(self).token_1 == old(self).token_1
                &&& final(self).locked == old(self).locked
            },
    {
        if self.locked {
            return Err(PairError::Locked);
        }
        let r0 = self.reserve_0;
        let r1 = self.reserve_1;
        if balance_0 < r0 || balance_1 < r1 || balance_0 > MAX_RESERVE || balance_1 > MAX_RESERVE {
            return Err(PairError::Overflow);
        }
        let fee = match self.protocol_fee_shares(fee_to) {
            Ok(f) => f,
            Err(e) => {
                return Err(e);
            },
        };
        let amount_0 = balance_0 - r0;
        let amount_1 = balance_1 - r1;
        let supply = self.psp22.total_supply() + fee;
        let first = supply == 0;
        let liquidity: u128;
        if first {
            let root = sqrt_wide(mul_wide(amount_0, amount_1));
            if root <= MINIMUM_LIQUIDITY {
                return Err(PairError::InsufficientLiquidityMinted);
            }
            liquidity = root - MINIMUM_LIQUIDITY;
        } else {
            if r0 == 0 || r1 == 0 {
                return Err(PairError::Overflow);
            }
            let x0 = match amount_0.checked_mul(supply) {
                Some(x) => x / r0,
                None => {
                    return Err(PairError::Overflow);
                },
            };
            let x1 = match amount_1.checked_mul(supply) {
                Some(x) => x / r1,
                None => {
                    return Err(PairError::Overflow);
                },
            };
            liquidity = if x0 <= x1 {
                x0
            } else {
                x1
            };
            if liquidity == 0 {
                return Err(PairError::InsufficientLiquidityMinted);
            }
            if supply > u128::MAX - liquidity {
                return Err(PairError::Overflow);
            }
        }
        if fee > 0 {
            self.mint_shares(fee_to, fee);
        }
        if first {
            let zero = AccountId::zero();
            self.mint_shares(&zero, MINIMUM_LIQUIDITY);
            proof {
                assert forall|b: AccountId| is_zero(b) <==> b == zero by {
                    if is_zero(b) {
                        lemma_zero_unique(b, zero);
                    }
                }
            }
        }
        self.mint_shares(to, liquidity);
        self.update(balance_0, balance_1, now);
        if !fee_to.is_zero() {
            self.k_last = mul_wide(self.reserve_0, self.reserve_1);
        } else {
            self.k_last = Wide::zero();
        }
        self.events.push(PairEvent::Mint(Mint { sender: *sender, amount_0, amount_1 }));
        Ok(liquidity)
    }
    /// Redeems the shares held by the pair's own account for a proportional
    /// part of the balances `balance_0` and `balance_1`, which the caller is to
    /// hand on to `to`. The reserves are set to what remains.
    pub fn burn(
        &mut self,
        sender: &AccountId,
        to: &AccountId,
        balance_0: u128,
        balance_1: u128,
        now: u64,
        fee_to: &AccountId,
    ) -> (r: Result<(u128, u128), PairError>)
        requires
            old(self).wf(),
        ensures
            final(self).wf(),
            r == old(self).burn_outcome(balance_0 as int, balance_1 as int, *fee_to),
            r is Err ==> *final(self) == *old(self),
            r is Ok ==> {
                let fee = old(self).fee_shares(*fee_to);
                let liquidity = old(self).psp22.balance(old(self).address) as int;
                let (a0, a1) = r->Ok_0;
                &&& a0 <= balance_0 && a1 <= balance_1
                &&& forall|b: AccountId|
                    final(self).psp22.balance(b) == old(self).psp22.balance(b) + (if fee_on(*fee_to)
                        && b == *fee_to {
                        fee
                    } else {
                        0
                    }) - (if b == old(self).address {
                        liquidity
                    } else {
                        0
                    })
                &&& forall|z: AccountId|
                    is_zero(z) ==> final(self).psp22.balance(z) >= old(self).psp22.balance(z)
                &&& final(self).psp22.supply() == old(self).psp22.supply() + fee - liquidity
                &&& forall|o: AccountId, s: AccountId|
                    final(self).psp22.allowance(o, s) == old(self).psp22.allowance(o, s)
                &&& updated(*old(self), *final(self), balance_0 - a0, balance_1 - a1, now)
                &&& final(self).k_last.value() == if fee_on(*fee_to) {
                    (balance_0 - a0) * (balance_1 - a1)
                } else {
                    0
                }
                &&& final(self).events@ == old(self).events@ + (if fee > 0 {
                    seq![created(*fee_to, fee)]
                } else {
                    Seq::empty()
                }).push(
                    PairEvent::Transfer(
                        Transfer { from: Some(old(self).address), to: None, value: liquidity as u128 },
                    ),
                ).push(
                    PairEvent::Sync(
                        Sync {
                            reserve_0: (balance_0 - a0) as u128,
                            reserve_1: (balance_1 - a1) as u128,
                        },
                    ),
                ).push(
                    PairEvent::Burn(Burn { sender: *sender, amount_0: a0, amount_1: a1, to: *to }),
                )
                &&& final(self).address == old(self).address
                &&& final(self).token_0 == old(self).token_0
                &&& final(self).token_1 == old(self).token_1
                &&& final(self).locked == old(self).locked
            },
    {
        if self.locked {
            return Err(PairError::Locked);
        }
        if balance_0 > MAX_RESERVE || balance_1 > MAX_RESERVE {
            return Err(PairError::Overflow);
        }
        let liquidity = self.psp22.balance_of(&self.address);
        proof {
            self.psp22.lemma_balance_within_supply(self.address);
        }
        let fee = match self.protocol_fee_shares(fee_to) {
            Ok(f) => f,
            Err(e) => {
                return Err(e);
            },
        };
        let supply = self.psp22.total_supply() + fee;
        if supply == 0 {
            return Err(PairError::InsufficientLiquidityBurned);
        }
        let amount_0 = match liquidity.checked_mul(balance_0) {
            Some(x) => x / supply,
            None => {
                return Err(PairError::Overflow);
            },
        };
        let amount_1 = match liquidity.checked_mul(balance_1) {
            Some(x) => x / supply,
            None => {
                return Err(PairError::Overflow);
            },
        };
        if amount_0 == 0 || amount_1 == 0 {
            return Err(PairError::InsufficientLiquidityBurned);
        }
        assert(amount_0 <= balance_0 && amount_1 <= balance_1) by (nonlinear_arith)
            requires
                amount_0 == liquidity * balance_0 / (supply as int),
                amount_1 == liquidity * balance_1 / (supply as int),
                liquidity <= supply,
                supply > 0,
        ;
        if fee > 0 {
            self.mint_shares(fee_to, fee);
        }
        proof {
            self.psp22.lemma_balance_within_supply(self.address);
        }
        let own = self.address;
        let burned = self.psp22.burn_from(&own, liquidity);
        proof {
            assert(burned is Ok);
        }
        self.events.push(PairEvent::Transfer(Transfer { from: Some(own), to: None, value: liquidity }));
        self.update(balance_0 - amount_0, balance_1 - amount_1, now);
        if !fee_to.is_zero() {
            self.k_last = mul_wide(self.reserve_0, self.reserve_1);
        } else {
            self.k_last = Wide::zero();
        }
        self.events.push(
            PairEvent::Burn(Burn { sender: *sender, amount_0, amount_1, to: *to }),
        );
        Ok((amount_0, amount_1))
    }
    /// Checks a swap request and takes the guard, which stays held while the
    /// outputs go out and the receiver's hook runs, until `swap` settles.
    pub fn begin_swap(
        &mut self,
        amount_0_out: u128,
        amount_1_out: u128,
        to: &AccountId,
    ) -> (r: Result<(), PairError>)
        requires
            old(self).wf(),
        ensures
            final(self).wf(),
            old(self).locked ==> r == Err::<(), PairError>(PairError::Locked),
            !old(self).locked ==> r == match old(self).swap_request_error(amount_0_out as int, amount_1_out as int, *to) {
                Some(e) => Err(e),
                None => Ok(()),
            },
            r is Err ==> *final(self) == *old(self),
            r is Ok ==> final(self).locked && released(*old(self), (PairContract { locked: false, ..*final(self) })),
    {
        if self.locked {
            return Err(PairError::Locked);
        }
        match self.check_swap_request(amount_0_out, amount_1_out, to) {
            Some(e) => Err(e),
            None => {
                self.locked = true;
                Ok(())
            },
        }
    }

    fn check_swap_request(
        &self,
        amount_0_out: u128,
        amount_1_out: u128,
        to: &AccountId,
    ) -> (r: Option<PairError>)
        ensures
            r == self.swap_request_error(amount_0_out as int, amount_1_out as int, *to),
    {
        if amount_0_out == 0 && amount_1_out == 0 {
            Some(PairError::InsufficientOutputAmount)
        } else if amount_0_out >= self.reserve_0 || amount_1_out >= self.reserve_1 {
            Some(PairError::InsufficientLiquidity)
        } else if *to == self.token_0 || *to == self.token_1 {
            Some(PairError::InvalidTo)
        } else {
            None
        }
    }

    /// Settles a swap begun by `begin_swap`: `balance_0` and `balance_1` are
    /// what the pair holds once the outputs have gone out and the inputs come
    /// in. The fee-adjusted product of the balances must not fall below the
    /// product of the reserves. The guard is released on every path.
    pub fn swap(
        &mut self,
        sender: &AccountId,
        amount_0_out: u128,
        amount_1_out: u128,
        to: &AccountId,
        balance_0: u128,
        balance_1: u128,
        now: u64,
    ) -> (r: Result<(), PairError>)
        requires
            old(self).wf(),
            old(self).locked,
        ensures
            final(self).wf(),
            !final(self).locked,
            r == old(self).swap_outcome(
                amount_0_out as int,
                amount_1_out as int,
                *to,
                balance_0 as int,
                balance_1 as int,
            ),
            r is Err ==> released(*old(self), *final(self)),
            r is Ok ==> {
                let in0 = amount_in(balance_0 as int, old(self).reserve_0 as int, amount_0_out as int);
                let in1 = amount_in(balance_1 as int, old(self).reserve_1 as int, amount_1_out as int);
                &&& updated(*old(self), *final(self), balance_0 as int, balance_1 as int, now)
                &&& final(self).events@ == old(self).events@.push(
                    PairEvent::Sync(Sync { reserve_0: balance_0, reserve_1: balance_1 }),
                ).push(
                    PairEvent::Swap(
                        Swap {
                            sender: *sender,
                            amount_0_in: in0 as u128,
                            amount_1_in: in1 as u128,
                            amount_0_out,
                            amount_1_out,
                            to: *to,
                        },
                    ),
                )
                &&& final(self).address == old(self).address
                &&& final(self).token_0 == old(self).token_0
                &&& final(self).token_1 == old(self).token_1
                &&& final(self).k_last == old(self).k_last
                &&& final(self).psp22 == old(self).psp22
            },
    {
        self.locked = false;
        if let Some(e) = self.check_swap_request(amount_0_out, amount_1_out, to) {
            return Err(e);
        }
        if balance_0 > MAX_RESERVE || balance_1 > MAX_RESERVE {
            return Err(PairError::Overflow);
        }
        let r0 = self.reserve_0;
        let r1 = self.reserve_1;
        let amount_0_in = if balance_0 > r0 - amount_0_out {
            balance_0 - (r0 - amount_0_out)
        } else {
            0
        };
        let amount_1_in = if balance_1 > r1 - amount_1_out {
            balance_1 - (r1 - amount_1_out)
        } else {
            0
        };
        if amount_0_in == 0 && amount_1_in == 0 {
            return Err(PairError::InsufficientInputAmount);
        }
        let adjusted_0 = balance_0 * 1000 - amount_0_in * 3;
        let adjusted_1 = balance_1 * 1000 - amount_1_in * 3;
        let product = mul_wide(adjusted_0, adjusted_1);
        let floor = mul_wide(r0 * 1000, r1 * 1000);
        assert((r0 * 1000) * (r1 * 1000) == r0 * r1 * 1_000_000) by (nonlinear_arith);
        if !product.ge(&floor) {
            return Err(PairError::K);
        }
        self.update(balance_0, balance_1, now);
        self.events.push(
            PairEvent::Swap(
                Swap {
                    sender: *sender,
                    amount_0_in,
                    amount_1_in,
                    amount_0_out,
                    amount_1_out,
                    to: *to,
                },
            ),
        );
        Ok(())
    }
    /// Sets the reserves to the balances held, outside mint, burn and swap.
    pub fn sync(&mut self, balance_0: u128, balance_1: u128, now: u64) -> (r: Result<(), PairError>)
        requires
            old(self).wf(),
        ensures
            final(self).wf(),
            r == if old(self).locked {
                Err::<(), PairError>(PairError::Locked)
            } else if balance_0 > MAX_RESERVE || balance_1 > MAX_RESERVE {
                Err(PairError::Overflow)
            } else {
                Ok(())
            },
            r is Err ==> *final(self) == *old(self),
            r is Ok ==> {
                &&& updated(*old(self), *final(self), balance_0 as int, balance_1 as int, now)
                &&& final(self).events@ == old(self).events@.push(
                    PairEvent::Sync(Sync { reserve_0: balance_0, reserve_1: balance_1 }),
                )
                &&& final(self).address == old(self).address
                &&& final(self).token_0 == old(self).token_0
                &&& final(self).token_1 == old(self).token_1
                &&& final(self).k_last == old(self).k_last
                &&& final(self).locked == old(self).locked
                &&& final(self).psp22 == old(self).psp22
            },
    {
        if self.locked {
            return Err(PairError::Locked);
        }
        if balance_0 > MAX_RESERVE || balance_1 > MAX_RESERVE {
            return Err(PairError::Overflow);
        }
        self.update(balance_0, balance_1, now);
        Ok(())
    }

    /// What the pair holds beyond its reserves, which `skim` hands to a
    /// recipient of the caller's choosing.
    pub fn skim(&self, balance_0: u128, balance_1: u128) -> (r: Result<(u128, u128), PairError>)
        ensures
            r == if self.locked {
                Err::<(u128, u128), PairError>(PairError::Locked)
            } else if balance_0 < self.reserve_0 || balance_1 < self.reserve_1 {
                Err(PairError::Overflow)
            } else {
                Ok(((balance_0 - self.reserve_0) as u128, (balance_1 - self.reserve_1) as u128))
            },
    {
        if self.locked {
            return Err(PairError::Locked);
        }
        if balance_0 < self.reserve_0 || balance_1 < self.reserve_1 {
            return Err(PairError::Overflow);
        }
        Ok((balance_0 - self.reserve_0, balance_1 - self.reserve_1))
    }

    /// The shares held by `owner`.
    pub fn balance_of(&self, owner: &AccountId) -> (r: u128)
        requires
            self.wf(),
        ensures
            r == self.psp22.balance(*owner),
    {
        self.psp22.balance_of(owner)
    }

    /// The total number of shares.
    pub fn total_supply(&self) -> (r: u128)
        ensures
            r == self.psp22.supply(),
    {
        self.psp22.total_supply()
    }

    /// What `spender` may still move out of `owner`'s shares.
    pub fn allowance(&self, owner: &AccountId, spender: &AccountId) -> (r: u128)
        requires
            self.wf(),
        ensures
            r == self.psp22.allowance(*owner, *spender),
    {
        self.psp22.allowance_of(owner, spender)
    }

    /// Moves `value` of the caller's shares to `to`.
    pub fn transfer(
        &mut self,
        caller: &AccountId,
        to: &AccountId,
        value: u128,
    ) -> (r: Result<(), PSP22Error>)
        requires
            old(self).wf(),
        ensures
            final(self).wf(),
            r is Err <==> old(self).psp22.balance(*caller) < value,
            r is Err ==> r == Err::<(), PSP22Error>(PSP22Error::InsufficientBalance) && *final(self) == *old(self),
            r is Ok ==> {
                &&& moved(old(self).psp22, final(self).psp22, *caller, *to, value as nat)
                &&& final(self).events@ == old(self).events@.push(
                    PairEvent::Transfer(Transfer { from: Some(*caller), to: Some(*to), value }),
                )
                &&& final(self).reserve_0 == old(self).reserve_0
                &&& final(self).reserve_1 == old(self).reserve_1
                &&& final(self).locked == old(self).locked
            },
    {
        let moved = self.psp22.transfer_from_to(caller, to, value);
        if moved.is_err() {
            return moved;
        }
        self.events.push(PairEvent::Transfer(Transfer { from: Some(*caller), to: Some(*to), value }));
        Ok(())
    }

    /// Lets `spender` move up to `value` of the caller's shares.
    pub fn approve(&mut self, caller: &AccountId, spender: &AccountId, value: u128)
        requires
            old(self).wf(),
        ensures
            final(self).wf(),
            final(self).psp22.allowance(*caller, *spender) == value,
            forall|o: AccountId, s: AccountId|
                !(o == *caller && s == *spender) ==> final(self).psp22.allowance(o, s) == old(self).psp22.allowance(o, s),
            forall|b: AccountId| final(self).psp22.balance(b) == old(self).psp22.balance(b),
            final(self).psp22.supply() == old(self).psp22.supply(),
            final(self).events@ == old(self).events@.push(
                PairEvent::Approval(Approval { owner: *caller, spender: *spender, value }),
            ),
            final(self).reserve_0 == old(self).reserve_0,
            final(self).reserve_1 == old(self).reserve_1,
            final(self).locked == old(self).locked,
    {
        self.psp22.approve_from_to(caller, spender, value);
        self.events.push(PairEvent::Approval(Approval { owner: *caller, spender: *spender, value }));
    }

    /// Moves `value` shares from `from` to `to` on behalf of the caller,
    /// spending the caller's allowance unless it is unlimited (`u128::MAX`).
    pub fn transfer_from(
        &mut self,
        caller: &AccountId,
        from: &AccountId,
        to: &AccountId,
        value: u128,
    ) -> (r: Result<(), PSP22Error>)
        requires
            old(self).wf(),
        ensures
            final(self).wf(),
            r == Err::<(), PSP22Error>(PSP22Error::InsufficientAllowance) <==> old(self).psp22.allowance(*from, *caller) < value,
            r == Err::<(), PSP22Error>(PSP22Error::InsufficientBalance) <==> (old(self).psp22.allowance(*from, *caller) >= value
                && old(self).psp22.balance(*from) < value),
            r is Err ==> *final(self) == *old(self),
            r is Ok ==> {
                let spent = old(self).psp22.allowance(*from, *caller) != u128::MAX;
                &&& forall|b: AccountId| final(self).psp22.balance(b) == moved_balance(old(self).psp22, b, *from, *to, value as nat)
                &&& final(self).psp22.supply() == old(self).psp22.supply()
                &&& final(self).psp22.allowance(*from, *caller) == if spent {
                    (old(self).psp22.allowance(*from, *caller) - value) as nat
                } else {
                    u128::MAX as nat
                }
                &&& forall|o: AccountId, s: AccountId|
                    !(o == *from && s == *caller) ==> final(self).psp22.allowance(o, s) == old(self).psp22.allowance(o, s)
                &&& final(self).events@ == if spent {
                    old(self).events@.push(
                        PairEvent::Approval(Approval {
                            owner: *from,
                            spender: *caller,
                            value: (old(self).psp22.allowance(*from, *caller) - value) as u128,
                        }),
                    ).push(PairEvent::Transfer(Transfer { from: Some(*from), to: Some(*to), value }))
                } else {
                    old(self).events@.push(PairEvent::Transfer(Transfer { from: Some(*from), to: Some(*to), value }))
                }
                &&& final(self).reserve_0 == old(self).reserve_0
                &&& final(self).reserve_1 == old(self).reserve_1
                &&& final(self).locked == old(self).locked
            },
    {
        let allowance = self.psp22.allowance_of(from, caller);
        let r = self.psp22.transfer_from(caller, from, to, value);
        if r.is_err() {
            return r;
        }
        if allowance != u128::MAX {
            self.events.push(
                PairEvent::Approval(Approval { owner: *from, spender: *caller, value: allowance - value }),
            );
        }
        self.events.push(PairEvent::Transfer(Transfer { from: Some(*from), to: Some(*to), value }));
        Ok(())
    }
}

} // verus!
