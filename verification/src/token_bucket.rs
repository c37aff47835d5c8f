//! Retry-admission token bucket.
//!
//! A bounded pool of whole tokens expressing how much retry budget remains.
//! Each admitted retry attempt deducts a cost keyed by the failure
//! classification; budget is restored either one whole token at a time
//! (driven by an external policy) or by fractional rewards credited per
//! successful call. Rewards are accumulated in thousandths of a token and
//! settled into whole tokens whenever the accumulator reaches one.

use vstd::prelude::*;

verus! {

/// Number of fractional units that make one whole token: rewards and the
/// fractional accumulator are measured in thousandths of a token.
pub const REWARD_SCALE: u64 = 1000;

/// Default bucket capacity, in whole tokens.
pub const DEFAULT_CAPACITY: u64 = 500;

/// Default cost of a retry after an ordinary retryable failure.
pub const DEFAULT_RETRY_COST: u32 = 5;

/// Default cost of a retry after a timeout/transient failure, which more
/// strongly suggests overload.
pub const DEFAULT_RETRY_TIMEOUT_COST: u32 = DEFAULT_RETRY_COST * 2;

/// Default reward per successful call, in thousandths of a token.
pub const DEFAULT_SUCCESS_REWARD: u32 = 0;

/// Classification of a failed attempt, as reported by the retry strategy.
/// Transient (timeout-like) failures are charged at the higher rate.
#[derive(Clone, Copy, Debug, PartialEq, Eq, Structural)]
pub enum FailureKind {
    /// A timeout or connection-level failure: likely overload.
    TransientError,
    /// The server asked the client to slow down.
    ThrottlingError,
    /// A retryable server-side error.
    ServerError,
    /// A retryable client-side error.
    ClientError,
}

/// Receipt for a successful token deduction. Carries no refund obligation:
/// dropping a permit returns nothing to the bucket.
pub struct Permit {
    cost: u32,
}

impl Permit {
    /// The number of whole tokens this permit deducted.
    pub closed spec fn spec_cost(&self) -> u32 {
        self.cost
    }

    /// The number of whole tokens this permit deducted.
    pub fn cost(&self) -> (r: u32)
        ensures
            r == self.spec_cost(),
    {
        self.cost
    }
}

/// Mathematical model of a token bucket: all counts as unbounded integers.
pub struct BucketModel {
    /// Maximum number of whole tokens the pool can hold.
    pub capacity: int,
    /// Current number of whole tokens.
    pub available: int,
    /// Cost charged per ordinary retryable failure.
    pub retry_cost: int,
    /// Cost charged per timeout/transient failure.
    pub timeout_retry_cost: int,
    /// Reward per success, in thousandths of a token.
    pub success_reward: int,
    /// Fractional accumulator, in thousandths of a token.
    pub fractional: int,
}

/// Well-formedness of a bucket model: the token count stays within
/// `[0, capacity]` and the fractional accumulator within `[0, REWARD_SCALE)`.
pub open spec fn bucket_wf(m: BucketModel) -> bool {
    &&& 0 <= m.available <= m.capacity <= u64::MAX
    &&& 0 <= m.fractional < REWARD_SCALE
    &&& 0 <= m.retry_cost <= u32::MAX
    &&& 0 <= m.timeout_retry_cost <= u32::MAX
    &&& 0 <= m.success_reward <= u32::MAX
}

/// The cost an acquisition deducts for the given failure classification.
pub open spec fn spec_cost_for(m: BucketModel, kind: FailureKind) -> int {
    if kind == FailureKind::TransientError {
        m.timeout_retry_cost
    } else {
        m.retry_cost
    }
}

/// Whether an acquisition for `kind` is admitted: charges apply only when
/// enough whole tokens are available (no partial charges, never negative).
pub open spec fn spec_acquire_ok(m: BucketModel, kind: FailureKind) -> bool {
    spec_cost_for(m, kind) <= m.available
}

/// The bucket after one `acquire` call: the cost is deducted when admitted,
/// nothing changes when refused.
pub open spec fn spec_acquire(m: BucketModel, kind: FailureKind) -> BucketModel {
    if spec_acquire_ok(m, kind) {
        BucketModel { available: m.available - spec_cost_for(m, kind), ..m }
    } else {
        m
    }
}

/// The bucket after one `regenerate_a_token` call: one whole token credited,
/// capped at capacity.
pub open spec fn spec_regenerate(m: BucketModel) -> BucketModel {
    BucketModel { available: vstd::math::min(m.available + 1, m.capacity), ..m }
}

/// The bucket after one `reward_success` call: the reward joins the
/// fractional accumulator, whole thousands settle into tokens (capped at
/// capacity) and the remainder stays accumulated.
pub open spec fn spec_reward(m: BucketModel) -> BucketModel {
    let total = m.fractional + m.success_reward;
    BucketModel {
        available: vstd::math::min(m.available + total / (REWARD_SCALE as int), m.capacity),
        fractional: total % (REWARD_SCALE as int),
        ..m
    }
}

/// The model of an unlimited bucket: maximal capacity, zero costs, zero
/// reward.
pub open spec fn unlimited_model() -> BucketModel {
    BucketModel {
        capacity: u64::MAX as int,
        available: u64::MAX as int,
        retry_cost: 0,
        timeout_retry_cost: 0,
        success_reward: 0,
        fractional: 0,
    }
}

/// Token bucket used to admit or refuse retry attempts.
///
/// Every operation is a single read-modify-write step on the counters; a
/// host that shares one bucket across threads guards it with a mutex (or an
/// equivalent single atomic step), never holding the guard across a
/// suspension point.
#[derive(Clone, Debug)]
pub struct TokenBucket {
    capacity: u64,
    available: u64,
    retry_cost: u32,
    timeout_retry_cost: u32,
    success_reward: u32,
    fractional: u64,
}

impl View for TokenBucket {
    type V = BucketModel;

    closed spec fn view(&self) -> BucketModel {
        BucketModel {
            capacity: self.capacity as int,
            available: self.available as int,
            retry_cost: self.retry_cost as int,
            timeout_retry_cost: self.timeout_retry_cost as int,
            success_reward: self.success_reward as int,
            fractional: self.fractional as int,
        }
    }
}

impl TokenBucket {
    /// Validity of the executable bucket: its model is well formed.
    pub open spec fn wf(&self) -> bool {
        bucket_wf(self@)
    }

    /// Creates a bucket whose capacity and initial budget are `initial_quota`
    /// whole tokens, with the default costs and reward.
    pub fn new(initial_quota: u64) -> (b: Self)
        ensures
            b.wf(),
            b@ == (BucketModel {
                capacity: initial_quota as int,
                available: initial_quota as int,
                retry_cost: DEFAULT_RETRY_COST as int,
                timeout_retry_cost: DEFAULT_RETRY_TIMEOUT_COST as int,
                success_reward: DEFAULT_SUCCESS_REWARD as int,
                fractional: 0,
            }),
    {
        TokenBucket {
            capacity: initial_quota,
            available: initial_quota,
            retry_cost: DEFAULT_RETRY_COST,
            timeout_retry_cost: DEFAULT_RETRY_TIMEOUT_COST,
            success_reward: DEFAULT_SUCCESS_REWARD,
            fractional: 0,
        }
    }

    /// A bucket with effectively unlimited capacity and zero costs: `acquire`
    /// always succeeds and observable availability never changes. Used to
    /// disable admission control without changing call sites.
    pub fn unlimited() -> (b: Self)
        ensures
            b.wf(),
            b@ == unlimited_model(),
    {
        TokenBucket {
            capacity: u64::MAX,
            available: u64::MAX,
            retry_cost: 0,
            timeout_retry_cost: 0,
            success_reward: 0,
            fractional: 0,
        }
    }

    /// Creates a builder for constructing a `TokenBucket`.
    pub fn builder() -> (b: TokenBucketBuilder)
        ensures
            b@ == TokenBucketBuilder::empty_model(),
    {
        TokenBucketBuilder::new()
    }

    /// Attempts to deduct the cost keyed by `kind`. Returns a permit exactly
    /// when enough whole tokens are available; otherwise returns `None`,
    /// which the retry strategy must read as "budget exhausted, do not
    /// retry", never as an error to surface.
    pub fn acquire(&mut self, kind: &FailureKind) -> (r: Option<Permit>)
        requires
            old(self).wf(),
        ensures
            final(self).wf(),
            final(self)@ == spec_acquire(old(self)@, *kind),
            r is Some <==> spec_acquire_ok(old(self)@, *kind),
            r is Some ==> r->0.spec_cost() == spec_cost_for(old(self)@, *kind),
    {
        let cost: u32 = match kind {
            FailureKind::TransientError => self.timeout_retry_cost,
            _ => self.retry_cost,
        };
        if cost as u64 <= self.available {
            self.available = self.available - cost as u64;
            Some(Permit { cost })
        } else {
            None
        }
    }

    /// Unconditionally credits one whole token back, capped at capacity.
    /// Driven by an external periodic or event-driven policy, deliberately
    /// decoupled from any permit's lifetime.
    pub fn regenerate_a_token(&mut self)
        requires
            old(self).wf(),
        ensures
            final(self).wf(),
            final(self)@ == spec_regenerate(old(self)@),
    {
        self.add_tokens(1);
    }

    /// Credits the configured fractional reward for one successful call:
    /// the reward joins the accumulator, whole tokens are settled out of it
    /// (capped at capacity) and the remainder carries over.
    pub fn reward_success(&mut self)
        requires
            old(self).wf(),
        ensures
            final(self).wf(),
            final(self)@ == spec_reward(old(self)@),
    {
        let total: u64 = self.fractional + self.success_reward as u64;
        let credit: u64 = total / REWARD_SCALE;
        self.fractional = total % REWARD_SCALE;
        self.add_tokens(credit);
    }

    /// Credits `amount` whole tokens, capped at capacity.
    fn add_tokens(&mut self, amount: u64)
        requires
            old(self).wf(),
        ensures
            final(self).wf(),
            final(self)@ == (BucketModel {
                available: vstd::math::min(old(self)@.available + amount, old(self)@.capacity),
                ..old(self)@
            }),
    {
        let headroom: u64 = self.capacity - self.available;
        let tokens_to_add: u64 = if amount <= headroom {
            amount
        } else {
            headroom
        };
        self.available = self.available + tokens_to_add;
    }

    /// The number of whole tokens currently available.
    pub fn available_permits(&self) -> (r: u64)
        ensures
            r == self@.available,
    {
        self.available
    }

    /// The bucket's capacity in whole tokens.
    pub fn max_permits(&self) -> (r: u64)
        ensures
            r == self@.capacity,
    {
        self.capacity
    }

    /// The cost charged per ordinary retryable failure.
    pub fn retry_cost(&self) -> (r: u32)
        ensures
            r == self@.retry_cost,
    {
        self.retry_cost
    }

    /// The cost charged per timeout/transient failure.
    pub fn timeout_retry_cost(&self) -> (r: u32)
        ensures
            r == self@.timeout_retry_cost,
    {
        self.timeout_retry_cost
    }

    /// The reward per success, in thousandths of a token.
    pub fn success_reward(&self) -> (r: u32)
        ensures
            r == self@.success_reward,
    {
        self.success_reward
    }
}

impl Default for TokenBucket {
    /// The default bucket: default capacity, costs and reward.
    fn default() -> (b: Self)
        ensures
            b.wf(),
            b@ == (BucketModel {
                capacity: DEFAULT_CAPACITY as int,
                available: DEFAULT_CAPACITY as int,
                retry_cost: DEFAULT_RETRY_COST as int,
                timeout_retry_cost: DEFAULT_RETRY_TIMEOUT_COST as int,
                success_reward: DEFAULT_SUCCESS_REWARD as int,
                fractional: 0,
            }),
    {
        TokenBucket::new(DEFAULT_CAPACITY)
    }
}

/// Ghost record of a builder's settings: `None` means "use the default".
pub struct BuilderModel {
    /// Chosen capacity, in whole tokens.
    pub capacity: Option<u64>,
    /// Chosen ordinary retry cost.
    pub retry_cost: Option<u32>,
    /// Chosen timeout retry cost.
    pub timeout_retry_cost: Option<u32>,
    /// Chosen success reward, in thousandths of a token.
    pub success_reward: Option<u32>,
}

/// Builder for constructing a `TokenBucket`; every setting is optional and
/// has a documented default.
#[derive(Clone, Debug)]
pub struct TokenBucketBuilder {
    capacity: Option<u64>,
    retry_cost: Option<u32>,
    timeout_retry_cost: Option<u32>,
    success_reward: Option<u32>,
}

impl View for TokenBucketBuilder {
    type V = BuilderModel;

    closed spec fn view(&self) -> BuilderModel {
        BuilderModel {
            capacity: self.capacity,
            retry_cost: self.retry_cost,
            timeout_retry_cost: self.timeout_retry_cost,
            success_reward: self.success_reward,
        }
    }
}

impl TokenBucketBuilder {
    /// The model of a builder with nothing set.
    pub open spec fn empty_model() -> BuilderModel {
        BuilderModel {
            capacity: None,
            retry_cost: None,
            timeout_retry_cost: None,
            success_reward: None,
        }
    }

    /// Creates a builder with every setting left at its default.
    pub fn new() -> (b: Self)
        ensures
            b@ == Self::empty_model(),
    {
        TokenBucketBuilder {
            capacity: None,
            retry_cost: None,
            timeout_retry_cost: None,
            success_reward: None,
        }
    }

    /// Sets the maximum bucket capacity, in whole tokens (default
    /// `DEFAULT_CAPACITY`).
    pub fn capacity(self, capacity: u64) -> (b: Self)
        ensures
            b@ == (BuilderModel { capacity: Some(capacity), ..self@ }),
    {
        TokenBucketBuilder { capacity: Some(capacity), ..self }
    }

    /// Sets the cost charged per ordinary retryable failure (default
    /// `DEFAULT_RETRY_COST`).
    pub fn retry_cost(self, retry_cost: u32) -> (b: Self)
        ensures
            b@ == (BuilderModel { retry_cost: Some(retry_cost), ..self@ }),
    {
        TokenBucketBuilder { retry_cost: Some(retry_cost), ..self }
    }

    /// Sets the cost charged per timeout/transient failure (default
    /// `DEFAULT_RETRY_TIMEOUT_COST`).
    pub fn timeout_retry_cost(self, timeout_retry_cost: u32) -> (b: Self)
        ensures
            b@ == (BuilderModel { timeout_retry_cost: Some(timeout_retry_cost), ..self@ }),
    {
        TokenBucketBuilder { timeout_retry_cost: Some(timeout_retry_cost), ..self }
    }

    /// Sets the reward per successful call, in thousandths of a token
    /// (default `DEFAULT_SUCCESS_REWARD`, meaning no reward).
    pub fn success_reward(self, reward: u32) -> (b: Self)
        ensures
            b@ == (BuilderModel { success_reward: Some(reward), ..self@ }),
    {
        TokenBucketBuilder { success_reward: Some(reward), ..self }
    }

    /// The bucket a builder produces: each unset field takes its default,
    /// the budget starts full and the accumulator empty.
    pub open spec fn built_model(m: BuilderModel) -> BucketModel {
        let capacity = if m.capacity is Some { m.capacity->0 as int } else { DEFAULT_CAPACITY as int };
        BucketModel {
            capacity: capacity,
            available: capacity,
            retry_cost: if m.retry_cost is Some { m.retry_cost->0 as int } else { DEFAULT_RETRY_COST as int },
            timeout_retry_cost: if m.timeout_retry_cost is Some { m.timeout_retry_cost->0 as int } else { DEFAULT_RETRY_TIMEOUT_COST as int },
            success_reward: if m.success_reward is Some { m.success_reward->0 as int } else { DEFAULT_SUCCESS_REWARD as int },
            fractional: 0,
        }
    }

    /// Builds the `TokenBucket`, starting with a full budget.
    pub fn build(self) -> (b: TokenBucket)
        ensures
            b.wf(),
            b@ == Self::built_model(self@),
    {
        let capacity: u64 = match self.capacity {
            Some(c) => c,
            None => DEFAULT_CAPACITY,
        };
        TokenBucket {
            capacity,
            available: capacity,
            retry_cost: match self.retry_cost {
                Some(c) => c,
                None => DEFAULT_RETRY_COST,
            },
            timeout_retry_cost: match self.timeout_retry_cost {
                Some(c) => c,
                None => DEFAULT_RETRY_TIMEOUT_COST,
            },
            success_reward: match self.success_reward {
                Some(r) => r,
                None => DEFAULT_SUCCESS_REWARD,
            },
            fractional: 0,
        }
    }
}

impl Default for TokenBucketBuilder {
    /// A builder with every setting left at its default.
    fn default() -> (b: Self)
        ensures
            b@ == Self::empty_model(),
    {
        TokenBucketBuilder::new()
    }
}

/// One operation on a shared bucket, as some concurrent caller would issue
/// it. Used to state what holds of every interleaving of callers.
pub enum BucketOp {
    /// An admission attempt for the given failure classification.
    Acquire(FailureKind),
    /// One whole token credited back by the external replenishment policy.
    RegenerateOne,
    /// One successful call rewarded.
    RewardSuccess,
}

/// The bucket after one operation.
pub open spec fn apply_op(m: BucketModel, op: BucketOp) -> BucketModel {
    match op {
        BucketOp::Acquire(kind) => spec_acquire(m, kind),
        BucketOp::RegenerateOne => spec_regenerate(m),
        BucketOp::RewardSuccess => spec_reward(m),
    }
}

/// The bucket after a whole history of operations, applied in order.
pub open spec fn apply_ops(m: BucketModel, ops: Seq<BucketOp>) -> BucketModel
    decreases ops.len(),
{
    if ops.len() == 0 {
        m
    } else {
        apply_op(apply_ops(m, ops.drop_last()), ops.last())
    }
}

/// Every single operation keeps the bucket well formed: in particular the
/// token count never exceeds the capacity and never goes negative.
pub proof fn lemma_op_preserves_wf(m: BucketModel, op: BucketOp)
    requires
        bucket_wf(m),
    ensures
        bucket_wf(apply_op(m, op)),
        apply_op(m, op).capacity == m.capacity,
{
    let s = REWARD_SCALE as int;
    match op {
        BucketOp::Acquire(kind) => {},
        BucketOp::RegenerateOne => {},
        BucketOp::RewardSuccess => {
            let total = m.fractional + m.success_reward;
            vstd::arithmetic::div_mod::lemma_mod_bound(total, s);
            vstd::arithmetic::div_mod::lemma_fundamental_div_mod(total, s);
        },
    }
}

/// Law: the token count never exceeds `capacity` and never goes negative,
/// for any interleaving of `acquire`, `regenerate_a_token` and
/// `reward_success` across concurrent callers. Each operation is one atomic
/// step, so any interleaving is some sequence of operations.
pub proof fn lemma_any_interleaving_preserves_bounds(m: BucketModel, ops: Seq<BucketOp>)
    requires
        bucket_wf(m),
    ensures
        bucket_wf(apply_ops(m, ops)),
        0 <= apply_ops(m, ops).available <= m.capacity,
        apply_ops(m, ops).capacity == m.capacity,
    decreases ops.len(),
{
    if ops.len() > 0 {
        lemma_any_interleaving_preserves_bounds(m, ops.drop_last());
        lemma_op_preserves_wf(apply_ops(m, ops.drop_last()), ops.last());
    }
}

/// The bucket after `n` consecutive `acquire` calls for one failure kind.
pub open spec fn after_acquires(m: BucketModel, kind: FailureKind, n: nat) -> BucketModel
    decreases n,
{
    if n == 0 {
        m
    } else {
        spec_acquire(after_acquires(m, kind, (n - 1) as nat), kind)
    }
}

/// How many of `n` consecutive `acquire` calls for one failure kind are
/// admitted.
pub open spec fn acquires_granted(m: BucketModel, kind: FailureKind, n: nat) -> int
    decreases n,
{
    if n == 0 {
        0
    } else {
        acquires_granted(m, kind, (n - 1) as nat) + if spec_acquire_ok(
            after_acquires(m, kind, (n - 1) as nat),
            kind,
        ) {
            1int
        } else {
            0int
        }
    }
}

/// Acquisitions change nothing but the token count.
pub proof fn lemma_after_acquires_frame(m: BucketModel, kind: FailureKind, n: nat)
    ensures
        after_acquires(m, kind, n) == (BucketModel {
            available: after_acquires(m, kind, n).available,
            ..m
        }),
    decreases n,
{
    if n > 0 {
        lemma_after_acquires_frame(m, kind, (n - 1) as nat);
    }
}

/// Law: starting from a full bucket, the number of admitted acquisitions
/// among any `n` consecutive `acquire` calls with one failure kind is
/// `min(n, floor(capacity / cost))`, and once `floor(capacity / cost)` calls
/// have been admitted every further call is refused until tokens are
/// replenished.
pub proof fn lemma_full_bucket_exhaustion(m: BucketModel, kind: FailureKind, n: nat)
    requires
        bucket_wf(m),
        m.available == m.capacity,
        spec_cost_for(m, kind) >= 1,
    ensures
        acquires_granted(m, kind, n) == vstd::math::min(
            n as int,
            m.capacity / spec_cost_for(m, kind),
        ),
        after_acquires(m, kind, n).available == m.capacity - acquires_granted(m, kind, n)
            * spec_cost_for(m, kind),
        n >= m.capacity / spec_cost_for(m, kind) ==> !spec_acquire_ok(
            after_acquires(m, kind, n),
            kind,
        ),
    decreases n,
{
    let c = spec_cost_for(m, kind);
    let d = m.capacity / c;
    vstd::arithmetic::div_mod::lemma_fundamental_div_mod(m.capacity, c);
    vstd::arithmetic::div_mod::lemma_mod_bound(m.capacity, c);
    if n == 0 {
        assert(d >= 0) by {
            if d < 0 {
                assert(c * d <= c * -1) by (nonlinear_arith)
                    requires c >= 1 && d <= -1;
            }
        }
    } else {
        lemma_full_bucket_exhaustion(m, kind, (n - 1) as nat);
        lemma_after_acquires_frame(m, kind, (n - 1) as nat);
        let prev = after_acquires(m, kind, (n - 1) as nat);
        let g = acquires_granted(m, kind, (n - 1) as nat);
        assert(spec_cost_for(prev, kind) == c);
        if spec_acquire_ok(prev, kind) {
            // The admitted call shows (g + 1) * c <= capacity, so g + 1 <= d.
            assert((g + 1) * c == g * c + c) by (nonlinear_arith);
            assert(g + 1 <= d) by {
                if g + 1 > d {
                    assert((g + 1) * c >= (d + 1) * c) by (nonlinear_arith)
                        requires c >= 1 && g + 1 >= d + 1;
                    assert((d + 1) * c == d * c + c) by (nonlinear_arith);
                }
            }
        } else {
            // The refused call shows (g + 1) * c > capacity, so g >= d.
            assert((g + 1) * c == g * c + c) by (nonlinear_arith);
            assert(g >= d) by {
                if g < d {
                    assert((g + 1) * c <= d * c) by (nonlinear_arith)
                        requires c >= 1 && g + 1 <= d;
                    assert(d * c == c * d) by (nonlinear_arith);
                    assert(g * c + c <= m.capacity);
                    assert(false);
                }
            }
        }
    }
    // Once the quotient has been paid out, what remains is the division's
    // remainder, which is too small for one more cost.
    if n >= d {
        lemma_after_acquires_frame(m, kind, n);
        assert(acquires_granted(m, kind, n) == d);
        assert(acquires_granted(m, kind, n) * c == c * d) by (nonlinear_arith)
            requires acquires_granted(m, kind, n) == d;
        assert(after_acquires(m, kind, n).available == m.capacity % c);
    }
}

/// Law: `acquire` against an unlimited bucket is admitted arbitrarily many
/// times and never changes observable availability.
pub proof fn lemma_unlimited_never_exhausts(kind: FailureKind, n: nat)
    ensures
        after_acquires(unlimited_model(), kind, n) == unlimited_model(),
        acquires_granted(unlimited_model(), kind, n) == n,
    decreases n,
{
    if n > 0 {
        lemma_unlimited_never_exhausts(kind, (n - 1) as nat);
    }
}

/// The bucket after `n` consecutive `reward_success` calls.
pub open spec fn after_rewards(m: BucketModel, n: nat) -> BucketModel
    decreases n,
{
    if n == 0 {
        m
    } else {
        spec_reward(after_rewards(m, (n - 1) as nat))
    }
}

/// Law: after `n` `reward_success` calls starting from an empty accumulator,
/// exactly `floor(n * reward / REWARD_SCALE)` whole tokens have been
/// credited (capped at capacity) and the accumulator holds the remainder.
/// The totals depend only on how many rewards ran, not on how concurrent
/// callers were scheduled.
pub proof fn lemma_reward_accumulation(m: BucketModel, n: nat)
    requires
        bucket_wf(m),
        m.fractional == 0,
    ensures
        bucket_wf(after_rewards(m, n)),
        after_rewards(m, n).fractional == (n * m.success_reward) % (REWARD_SCALE as int),
        after_rewards(m, n).available == vstd::math::min(
            m.available + (n * m.success_reward) / (REWARD_SCALE as int),
            m.capacity,
        ),
        after_rewards(m, n) == (BucketModel {
            available: after_rewards(m, n).available,
            fractional: after_rewards(m, n).fractional,
            ..m
        }),
    decreases n,
{
    let s = REWARD_SCALE as int;
    let r = m.success_reward;
    if n == 0 {
        assert((0int * r) == 0) by (nonlinear_arith);
        vstd::arithmetic::div_mod::lemma_fundamental_div_mod_converse(0, s, 0, 0);
    } else {
        lemma_reward_accumulation(m, (n - 1) as nat);
        let prev = after_rewards(m, (n - 1) as nat);
        let k = n - 1;
        let tk = ((n - 1) as nat) * r;
        assert(tk == k * r);
        assert(tk >= 0) by (nonlinear_arith)
            requires tk == k * r && k >= 0 && r >= 0;
        let q = tk / s;
        let rem = tk % s;
        vstd::arithmetic::div_mod::lemma_fundamental_div_mod(tk, s);
        vstd::arithmetic::div_mod::lemma_mod_bound(tk, s);
        // One more reward settles `t` further whole tokens out of the
        // accumulator and leaves remainder `u`.
        let total = rem + r;
        let t = total / s;
        let u = total % s;
        vstd::arithmetic::div_mod::lemma_fundamental_div_mod(total, s);
        vstd::arithmetic::div_mod::lemma_mod_bound(total, s);
        assert(t >= 0) by {
            if t < 0 {
                assert(s * t <= s * -1) by (nonlinear_arith)
                    requires s >= 1 && t <= -1;
            }
        }
        assert(q >= 0) by {
            if q < 0 {
                assert(s * q <= s * -1) by (nonlinear_arith)
                    requires s >= 1 && q <= -1;
            }
        }
        assert(n * r == tk + r) by (nonlinear_arith)
            requires tk == k * r && k == n - 1;
        assert(n * r == (q + t) * s + u) by (nonlinear_arith)
            requires n * r == tk + r && tk == s * q + rem && total == rem + r && total == s * t + u;
        vstd::arithmetic::div_mod::lemma_fundamental_div_mod_converse(n * r, s, q + t, u);
    }
}

} // verus!
