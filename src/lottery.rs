use vstd::prelude::*;

use crate::constants::EPOCH_LENGTH;
use crate::field::{canonical, enc_lt, field_add, field_from_u64, field_lt, field_modulus, field_mul, le_value};

verus! {

/// A stake coin competing in the slot lottery.
#[derive(Clone, Debug)]
pub struct LeadCoin {
    /// Stake the coin holds
    pub value: u64,
    /// Nonce of the coin
    pub nonce: u64,
    /// The coin's lottery output for its slot, as a field element's encoding
    pub y: [u8; 32],
    /// First lottery parameter of the epoch, as a field element's encoding
    pub sigma1: [u8; 32],
    /// Second lottery parameter of the epoch, as a field element's encoding
    pub sigma2: [u8; 32],
    /// Public inputs of the coin's leader proof
    pub public_inputs: Vec<u8>,
    /// Serial number of the coin
    pub serial: [u8; 32],
}

impl LeadCoin {
    pub open spec fn wf(&self) -> bool {
        canonical(self.sigma1) && canonical(self.sigma2)
    }
}

/// Lottery target of a coin of value `v`: `sigma1 * v + sigma2 * v * v` in the field.
pub open spec fn lottery_target(sigma1: nat, sigma2: nat, v: nat) -> nat {
    let p = field_modulus();
    ((sigma1 * v) % p + (((sigma2 * v) % p) * v) % p) % p
}

/// Whether a coin wins its slot: its output is below its target.
pub open spec fn wins(c: LeadCoin) -> bool {
    exists|t: [u8; 32]|
        le_value(t@) == lottery_target(le_value(c.sigma1@), le_value(c.sigma2@), c.value as nat)
            && #[trigger] enc_lt(c.y, t)
}

/// Lottery target of a coin, as a field element's encoding.
pub fn coin_target(c: &LeadCoin) -> (r: [u8; 32])
    requires
        c.wf(),
    ensures
        le_value(r@) == lottery_target(le_value(c.sigma1@), le_value(c.sigma2@), c.value as nat),
{
    let v = field_from_u64(c.value);
    assert(canonical(v)) by {
        assert(0x40000000000000000000000000000000224698fc094cf91b992d30ed00000001nat > 0xffff_ffff_ffff_ffffnat);
    }
    let a = field_mul(&c.sigma1, &v);
    let b = field_mul(&c.sigma2, &v);
    let bb = field_mul(&b, &v);
    field_add(&a, &bb)
}

/// Whether a coin wins its slot.
pub fn coin_wins(c: &LeadCoin) -> (r: bool)
    requires
        c.wf(),
    ensures
        r == wins(*c),
{
    let t = coin_target(c);
    let r = field_lt(&c.y, &t);
    if !r {
        assert forall|u: [u8; 32]|
            le_value(u@) == lottery_target(le_value(c.sigma1@), le_value(c.sigma2@), c.value as nat)
            implies !#[trigger] enc_lt(c.y, u) by {
            lemma_same_value_same_encoding(t, u);
        }
    }
    r
}

proof fn lemma_same_value_same_encoding(a: [u8; 32], b: [u8; 32])
    requires
        le_value(a@) == le_value(b@),
    ensures
        a@ == b@,
{
    lemma_le_value_injective(a@, b@);
}

proof fn lemma_le_value_injective(a: Seq<u8>, b: Seq<u8>)
    requires
        a.len() == b.len(),
        le_value(a) == le_value(b),
    ensures
        a == b,
    decreases a.len(),
{
    if a.len() > 0 {
        let x = le_value(a.drop_first());
        let y = le_value(b.drop_first());
        assert(a[0] as nat + 256 * x == b[0] as nat + 256 * y);
        assert(a[0] == b[0] && x == y) by (nonlinear_arith)
            requires
                a[0] as nat + 256 * x == b[0] as nat + 256 * y,
                a[0] < 256,
                b[0] < 256,
        ;
        lemma_le_value_injective(a.drop_first(), b.drop_first());
        assert(a =~= seq![a[0]] + a.drop_first());
        assert(b =~= seq![b[0]] + b.drop_first());
    }
}

/// Whether `(won, idx)` is the lottery's verdict on `coins`: `won` tells whether any coin
/// wins; if so, `idx` is the winner of highest value, the first one among equals, and
/// otherwise zero.
pub open spec fn leader_verdict(coins: Seq<LeadCoin>, won: bool, idx: int) -> bool {
    if won {
        &&& 0 <= idx < coins.len()
        &&& wins(coins[idx])
        &&& forall|j: int| 0 <= j < coins.len() && #[trigger] wins(coins[j]) ==> coins[j].value <= coins[idx].value
        &&& forall|j: int| 0 <= j < idx && #[trigger] wins(coins[j]) ==> coins[j].value < coins[idx].value
    } else {
        &&& idx == 0
        &&& forall|j: int| 0 <= j < coins.len() ==> !#[trigger] wins(coins[j])
    }
}

/// The lottery over one slot's competing coins.
pub fn best_winner(coins: &Vec<LeadCoin>) -> (r: (bool, usize))
    requires
        forall|j: int| 0 <= j < coins@.len() ==> (#[trigger] coins@[j]).wf(),
    ensures
        leader_verdict(coins@, r.0, r.1 as int),
{
    let mut won = false;
    let mut best: usize = 0;
    let mut i: usize = 0;
    while i < coins.len()
        invariant
            i <= coins@.len(),
            forall|j: int| 0 <= j < coins@.len() ==> (#[trigger] coins@[j]).wf(),
            won ==> best < i,
            leader_verdict(coins@.take(i as int), won, best as int),
        decreases coins@.len() - i,
    {
        let w = coin_wins(&coins[i]);
        if w && (!won || coins[i].value > coins[best].value) {
            won = true;
            best = i;
        }
        i = i + 1;
        assert(forall|j: int| 0 <= j < i ==> coins@.take(i as int)[j] == coins@[j]);
        assert(forall|j: int| 0 <= j < i - 1 ==> coins@.take(i - 1)[j] == coins@[j]);
    }
    assert(coins@.take(coins@.len() as int) =~= coins@);
    (won, best)
}

/// The lottery's verdict on a slot's coins is unique: the same coins always give the
/// same outcome and winner.
pub proof fn lemma_leader_verdict_unique(coins: Seq<LeadCoin>, w1: bool, i1: int, w2: bool, i2: int)
    requires
        leader_verdict(coins, w1, i1),
        leader_verdict(coins, w2, i2),
    ensures
        w1 == w2,
        i1 == i2,
{
    if w1 && !w2 {
        assert(wins(coins[i1]));
    } else if !w1 && w2 {
        assert(wins(coins[i2]));
    } else if w1 && w2 {
        if i1 < i2 {
            assert(wins(coins[i1]));
        } else if i2 < i1 {
            assert(wins(coins[i2]));
        }
    }
}

/// Whether `coins` is a matrix of epoch coins: one non-empty row of well-formed coins
/// per slot of the epoch.
pub open spec fn epoch_coins_wf(coins: Seq<Vec<LeadCoin>>) -> bool {
    &&& coins.len() == EPOCH_LENGTH
    &&& forall|s: int| 0 <= s < coins.len() ==> (#[trigger] coins[s])@.len() > 0
    &&& forall|s: int, j: int|
        0 <= s < coins.len() && 0 <= j < coins[s]@.len() ==> (#[trigger] coins[s]@[j]).wf()
}

/// Lays out the coins minted for an epoch, one per slot, each the only competitor of
/// its slot.
pub fn create_coins(minted: Vec<LeadCoin>) -> (r: Vec<Vec<LeadCoin>>)
    requires
        minted@.len() == EPOCH_LENGTH,
        forall|j: int| 0 <= j < minted@.len() ==> (#[trigger] minted@[j]).wf(),
    ensures
        epoch_coins_wf(r@),
        forall|s: int| 0 <= s < r@.len() ==> (#[trigger] r@[s])@ == seq![minted@[s]],
{
    let mut rows: Vec<Vec<LeadCoin>> = Vec::new();
    let mut rest = minted;
    let ghost all = rest@;
    while rest.len() > 0
        invariant
            all.len() == EPOCH_LENGTH,
            forall|j: int| 0 <= j < all.len() ==> (#[trigger] all[j]).wf(),
            rows@.len() + rest@.len() == all.len(),
            rest@ == all.subrange(rows@.len() as int, all.len() as int),
            forall|s: int| 0 <= s < rows@.len() ==> (#[trigger] rows@[s])@ == seq![all[s]],
        decreases rest@.len(),
    {
        let c = rest.remove(0);
        let mut row: Vec<LeadCoin> = Vec::new();
        row.push(c);
        rows.push(row);
        assert(rest@ =~= all.subrange(rows@.len() as int, all.len() as int));
    }
    rows
}

} // verus!
