//! Immutable value types: transaction events, monetary amounts, balances and
//! account snapshots.
//!
//! Monetary values are exact fixed-point decimals with four decimal places,
//! stored as counts of minor units (ten-thousandths of the currency unit).
//! A single transaction amount fits in a `u64`; account balances accumulate
//! many transactions and are kept as `u128`.

use vstd::prelude::*;
use vstd::arithmetic::div_mod::lemma_fundamental_div_mod;

verus! {

/// Number of minor units in one whole currency unit (four decimal places).
pub const MINOR_UNITS_PER_UNIT: u64 = 10_000;

/// An exact, non-negative monetary amount carried by a single deposit or
/// withdrawal: a count of minor units (ten-thousandths), so
/// `units == 123456` stands for `12.3456`.
#[derive(Clone, Copy, Debug, PartialEq, Eq, Hash, Structural)]
pub struct Amount {
    /// The amount in minor units.
    pub units: u64,
}

/// Ten to the power `e`, as a mathematical integer.
pub open spec fn pow10(e: nat) -> int
    decreases e,
{
    if e == 0 {
        1
    } else {
        10 * pow10((e - 1) as nat)
    }
}

/// Whether `units` minor units (four decimal places) represent exactly the
/// decimal value `mantissa / 10^scale`.
pub open spec fn represents(units: u64, mantissa: u128, scale: u32) -> bool {
    units as int * pow10(scale as nat) == mantissa as int * pow10(4)
}

/// Ten to any power is positive.
pub proof fn lemma_pow10_pos(e: nat)
    ensures
        pow10(e) > 0,
    decreases e,
{
    if e > 0 {
        lemma_pow10_pos((e - 1) as nat);
    }
}

/// Powers of ten multiply by adding their exponents.
pub proof fn lemma_pow10_adds(a: nat, b: nat)
    ensures
        pow10(a + b) == pow10(a) * pow10(b),
    decreases a,
{
    if a > 0 {
        lemma_pow10_adds((a - 1) as nat, b);
        assert(10 * (pow10((a - 1) as nat) * pow10(b)) == (10 * pow10((a - 1) as nat)) * pow10(
            b,
        )) by (nonlinear_arith);
    }
}

/// While more than four decimal places remain and the running mantissa is
/// not divisible by ten, the value has no exact four-decimal representation.
proof fn lemma_rescale_indivisible(mantissa: u128, scale: u32, m: u128, s: u32)
    requires
        4 < s <= scale,
        mantissa as int == m as int * pow10((scale - s) as nat),
        m as int % 10 != 0,
    ensures
        forall|units: u64| !represents(units, mantissa, scale),
{
    let k = (scale - s) as nat;
    let pk = pow10(k);
    let ps = pow10(s as nat);
    let p4 = pow10(4);
    let ps4 = pow10((s - 4) as nat);
    let ps5 = pow10((s - 5) as nat);
    lemma_pow10_pos(k);
    lemma_pow10_pos(4);
    lemma_pow10_adds(k, s as nat);
    lemma_pow10_adds(4, (s - 4) as nat);
    assert(ps4 == 10 * ps5);
    assert forall|units: u64| !represents(units, mantissa, scale) by {
        let u = units as int;
        let mi = m as int;
        if u * pow10(scale as nat) == mantissa as int * p4 {
            assert(u * ps == mi * p4) by (nonlinear_arith)
                requires
                    pk > 0,
                    u * (pk * ps) == (mi * pk) * p4,
            ;
            assert(mi == (u * ps5) * 10) by (nonlinear_arith)
                requires
                    p4 > 0,
                    ps == p4 * (10 * ps5),
                    u * ps == mi * p4,
            ;
            vstd::arithmetic::div_mod::lemma_mod_multiples_basic(u * ps5, 10);
            assert(false);
        }
    }
}

/// Once at most four decimal places remain, a count of minor units
/// represents the value exactly when, and only when, it is the running
/// mantissa times the missing power of ten.
proof fn lemma_rescale_iff(mantissa: u128, scale: u32, m: u128, s: u32, units: u64)
    requires
        s <= 4,
        s <= scale,
        mantissa as int == m as int * pow10((scale - s) as nat),
    ensures
        represents(units, mantissa, scale) <==> (units as int == m as int * pow10(
            (4 - s) as nat,
        )),
{
    let k = (scale - s) as nat;
    let pk = pow10(k);
    let ps = pow10(s as nat);
    let p4s = pow10((4 - s) as nat);
    let u = units as int;
    let mi = m as int;
    lemma_pow10_pos(k);
    lemma_pow10_pos(s as nat);
    lemma_pow10_adds(k, s as nat);
    lemma_pow10_adds(s as nat, (4 - s) as nat);
    assert((u * (pk * ps) == (mi * pk) * (ps * p4s)) <==> (u == mi * p4s)) by (nonlinear_arith)
        requires
            pk > 0,
            ps > 0,
    ;
}

/// Transaction type enum.
#[derive(Clone, Copy, Debug, PartialEq, Eq, Structural)]
pub enum TransactionType {
    Deposit,
    Withdrawal,
    Dispute,
    Resolve,
    Chargeback,
}

/// An incoming transaction event.
#[derive(Clone, Copy, Debug, PartialEq, Eq)]
pub struct TransactionEvent {
    /// Client (account) ID.
    pub client_id: u16,
    /// Transaction ID.
    pub tx_id: u32,
    /// Transaction type (deposit, withdrawal, dispute, ...).
    pub transaction_type: TransactionType,
    /// Transaction amount; present only for deposits and withdrawals.
    pub amount: Option<Amount>,
}

/// Balance for one account, in minor units. Both parts are non-negative by
/// construction; the reported total is `available + held` and is not stored.
#[derive(Clone, Copy, Debug, PartialEq, Eq, Structural)]
pub struct Balance {
    /// Funds available for withdrawal or dispute.
    pub available: u128,
    /// Funds held while a dispute is open.
    pub held: u128,
}

impl Amount {
    /// Exactly rescales the decimal value `mantissa / 10^scale` to four
    /// decimal places: returns its count of minor units when, and only when,
    /// the value has an exact four-decimal representation that fits in a
    /// `u64`. No rounding ever happens; a value that would need it is
    /// rejected.
    pub fn from_decimal_parts(mantissa: u128, scale: u32) -> (r: Option<Amount>)
        ensures
            match r {
                Some(a) => represents(a.units, mantissa, scale),
                None => forall|units: u64| !represents(units, mantissa, scale),
            },
    {
        let mut m = mantissa;
        let mut s = scale;
        while 4 < s
            invariant
                s <= scale,
                scale <= 4 ==> s == scale,
                scale > 4 ==> s >= 4,
                mantissa as int == m as int * pow10((scale - s) as nat),
            decreases s,
        {
            if m % 10 == 0 {
                proof {
                    lemma_fundamental_div_mod(m as int, 10);
                    assert(pow10((scale - s + 1) as nat) == 10 * pow10((scale - s) as nat));
                    assert((m as int / 10) * pow10((scale - s + 1) as nat) == m as int * pow10(
                        (scale - s) as nat,
                    )) by (nonlinear_arith)
                        requires
                            pow10((scale - s + 1) as nat) == 10 * pow10((scale - s) as nat),
                            m as int == 10 * (m as int / 10),
                    ;
                }
                m = m / 10;
                s = s - 1;
            } else {
                proof {
                    lemma_rescale_indivisible(mantissa, scale, m, s);
                }
                return None;
            }
        }
        let mult: u64 = if s == 0 {
            10000
        } else if s == 1 {
            1000
        } else if s == 2 {
            100
        } else if s == 3 {
            10
        } else {
            1
        };
        proof {
            assert(pow10(0) == 1 && pow10(1) == 10 && pow10(2) == 100 && pow10(3) == 1000
                && pow10(4) == 10000) by {
                reveal_with_fuel(pow10, 5);
            }
            assert(mult as int == pow10((4 - s) as nat));
        }
        let limit = u64::MAX / mult;
        if m <= limit as u128 {
            proof {
                lemma_fundamental_div_mod(u64::MAX as int, mult as int);
                assert(m as int * mult as int <= u64::MAX) by (nonlinear_arith)
                    requires
                        m as int <= limit as int,
                        mult as int >= 1,
                        u64::MAX as int == mult as int * limit as int + (u64::MAX as int
                            % mult as int),
                        (u64::MAX as int % mult as int) >= 0,
                ;
            }
            let units = (m as u64) * mult;
            proof {
                lemma_rescale_iff(mantissa, scale, m, s, units);
            }
            Some(Amount { units })
        } else {
            proof {
                lemma_fundamental_div_mod(u64::MAX as int, mult as int);
                assert(m as int * mult as int > u64::MAX) by (nonlinear_arith)
                    requires
                        m as int > limit as int,
                        mult as int >= 1,
                        u64::MAX as int == mult as int * limit as int + (u64::MAX as int
                            % mult as int),
                        (u64::MAX as int % mult as int) < mult as int,
                ;
                assert forall|units: u64| !represents(units, mantissa, scale) by {
                    lemma_rescale_iff(mantissa, scale, m, s, units);
                }
            }
            None
        }
    }
}

impl Balance {
    /// A balance with the given available funds and nothing held.
    pub fn new(available: Amount) -> (r: Balance)
        ensures
            r.available == available.units,
            r.held == 0,
    {
        Balance { available: available.units as u128, held: 0 }
    }
}

impl Default for Balance {
    /// The empty balance.
    fn default() -> (r: Balance)
        ensures
            r.available == 0,
            r.held == 0,
    {
        Balance { available: 0, held: 0 }
    }
}

/// A derived, immutable read of an account at a point in time.
#[derive(Clone, Copy, Debug, PartialEq, Eq, Structural)]
pub struct AccountSnapshot {
    /// Client (account) ID.
    pub client_id: u16,
    /// Available funds, in minor units.
    pub available: u128,
    /// Held funds, in minor units.
    pub held: u128,
    /// Total funds: `available + held`, in minor units.
    pub total: u128,
    /// Whether a chargeback has locked the account.
    pub locked: bool,
}

} // verus!
