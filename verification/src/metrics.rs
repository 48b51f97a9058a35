//! Monitoring counters and their Prometheus text exposition.

use vstd::prelude::*;

verus! {

/// A snapshot of the monitoring counters.
#[derive(Clone, Copy, Debug, PartialEq, Eq, Structural)]
pub struct Metrics {
    pub total_loans: u64,
    pub active_loans: u64,
    pub total_vouches: u64,
    pub total_stake: i128,
    pub total_yield_distributed: i128,
    pub total_slashed: i128,
    pub contract_balance: i128,
}

/// The stored monitoring counters; a counter that was never written reads 0.
#[derive(Clone, Copy, Debug, PartialEq, Eq, Structural)]
pub struct MetricsStore {
    pub loan_count: u64,
    pub active_loan_count: u64,
    pub vouch_count: u64,
    pub total_stake: i128,
    pub total_yield_distributed: i128,
    pub total_slashed: i128,
    pub contract_balance: i128,
}

/// A counter stored as an unsigned count.
#[derive(Clone, Copy, Debug, PartialEq, Eq, Structural)]
pub enum CounterKey {
    LoanCount,
    ActiveLoanCount,
    VouchCount,
}

/// A gauge stored as a signed amount of stroops.
#[derive(Clone, Copy, Debug, PartialEq, Eq, Structural)]
pub enum GaugeKey {
    TotalStake,
    TotalYieldDistributed,
    TotalSlashed,
    ContractBalance,
}

impl MetricsStore {
    pub fn new() -> (s: Self)
        ensures
            s == (MetricsStore {
                loan_count: 0,
                active_loan_count: 0,
                vouch_count: 0,
                total_stake: 0,
                total_yield_distributed: 0,
                total_slashed: 0,
                contract_balance: 0,
            }),
    {
        MetricsStore {
            loan_count: 0,
            active_loan_count: 0,
            vouch_count: 0,
            total_stake: 0,
            total_yield_distributed: 0,
            total_slashed: 0,
            contract_balance: 0,
        }
    }

    pub open spec fn counter(&self, key: CounterKey) -> u64 {
        match key {
            CounterKey::LoanCount => self.loan_count,
            CounterKey::ActiveLoanCount => self.active_loan_count,
            CounterKey::VouchCount => self.vouch_count,
        }
    }

    pub open spec fn gauge(&self, key: GaugeKey) -> i128 {
        match key {
            GaugeKey::TotalStake => self.total_stake,
            GaugeKey::TotalYieldDistributed => self.total_yield_distributed,
            GaugeKey::TotalSlashed => self.total_slashed,
            GaugeKey::ContractBalance => self.contract_balance,
        }
    }
}

/// The current metrics.
pub fn get_metrics(store: &MetricsStore) -> (m: Metrics)
    ensures
        m == (Metrics {
            total_loans: store.loan_count,
            active_loans: store.active_loan_count,
            total_vouches: store.vouch_count,
            total_stake: store.total_stake,
            total_yield_distributed: store.total_yield_distributed,
            total_slashed: store.total_slashed,
            contract_balance: store.contract_balance,
        }),
{
    Metrics {
        total_loans: store.loan_count,
        active_loans: store.active_loan_count,
        total_vouches: store.vouch_count,
        total_stake: store.total_stake,
        total_yield_distributed: store.total_yield_distributed,
        total_slashed: store.total_slashed,
        contract_balance: store.contract_balance,
    }
}

/// Adds `amount` to the counter `key`.
pub fn increment_metric(store: &mut MetricsStore, key: CounterKey, amount: u64)
    requires
        old(store).counter(key) + amount <= u64::MAX,
    ensures
        final(store).counter(key) == old(store).counter(key) + amount,
        forall|other: CounterKey| other != key ==> #[trigger] final(store).counter(other) == old(
            store,
        ).counter(other),
        forall|g: GaugeKey| #[trigger] final(store).gauge(g) == old(store).gauge(g),
{
    match key {
        CounterKey::LoanCount => store.loan_count = store.loan_count + amount,
        CounterKey::ActiveLoanCount => store.active_loan_count = store.active_loan_count + amount,
        CounterKey::VouchCount => store.vouch_count = store.vouch_count + amount,
    }
}

/// `new` is `old` with `amount` added to the gauge `key`.
pub open spec fn gauge_added(new: MetricsStore, old: MetricsStore, key: GaugeKey, amount: int) -> bool {
    &&& new.gauge(key) == old.gauge(key) + amount
    &&& forall|other: GaugeKey| other != key ==> #[trigger] new.gauge(other) == old.gauge(other)
    &&& forall|c: CounterKey| #[trigger] new.counter(c) == old.counter(c)
}

/// Adds `amount` (possibly negative) to the gauge `key`.
pub fn increment_gauge(store: &mut MetricsStore, key: GaugeKey, amount: i128)
    requires
        i128::MIN <= old(store).gauge(key) + amount <= i128::MAX,
    ensures
        gauge_added(*final(store), *old(store), key, amount as int),
        final(store).gauge(key) == old(store).gauge(key) + amount,
        forall|other: GaugeKey| other != key ==> #[trigger] final(store).gauge(other) == old(
            store,
        ).gauge(other),
        forall|c: CounterKey| #[trigger] final(store).counter(c) == old(store).counter(c),
{
    match key {
        GaugeKey::TotalStake => store.total_stake = store.total_stake + amount,
        GaugeKey::TotalYieldDistributed => store.total_yield_distributed = store.total_yield_distributed
            + amount,
        GaugeKey::TotalSlashed => store.total_slashed = store.total_slashed + amount,
        GaugeKey::ContractBalance => store.contract_balance = store.contract_balance + amount,
    }
}

// ── Decimal text ──────────────────────────────────────────────────────────────

/// The character of decimal digit `d`.
pub open spec fn digit_char(d: int) -> char {
    if d == 0 {
        '0'
    } else if d == 1 {
        '1'
    } else if d == 2 {
        '2'
    } else if d == 3 {
        '3'
    } else if d == 4 {
        '4'
    } else if d == 5 {
        '5'
    } else if d == 6 {
        '6'
    } else if d == 7 {
        '7'
    } else if d == 8 {
        '8'
    } else {
        '9'
    }
}

/// The decimal representation of `n`, without leading zeros.
pub open spec fn decimal(n: nat) -> Seq<char>
    decreases n,
{
    if n < 10 {
        seq![digit_char(n as int)]
    } else {
        decimal(n / 10).push(digit_char((n % 10) as int))
    }
}

/// The decimal representation of `i`, with a leading `-` when negative.
pub open spec fn signed_decimal(i: int) -> Seq<char> {
    if i < 0 {
        seq!['-'] + decimal((-i) as nat)
    } else {
        decimal(i as nat)
    }
}

fn append_digit(out: &mut String, d: u8)
    requires
        d < 10,
    ensures
        final(out)@ == old(out)@.push(digit_char(d as int)),
{
    proof {
        reveal_strlit("0");
        reveal_strlit("1");
        reveal_strlit("2");
        reveal_strlit("3");
        reveal_strlit("4");
        reveal_strlit("5");
        reveal_strlit("6");
        reveal_strlit("7");
        reveal_strlit("8");
        reveal_strlit("9");
    }
    match d {
        0 => out.append("0"),
        1 => out.append("1"),
        2 => out.append("2"),
        3 => out.append("3"),
        4 => out.append("4"),
        5 => out.append("5"),
        6 => out.append("6"),
        7 => out.append("7"),
        8 => out.append("8"),
        _ => out.append("9"),
    }
}

/// Appends the decimal representation of `n`.
pub fn append_decimal(out: &mut String, n: u128)
    ensures
        final(out)@ == old(out)@ + decimal(n as nat),
    decreases n,
{
    if n >= 10 {
        append_decimal(out, n / 10);
    }
    append_digit(out, (n % 10) as u8);
    assert(out@ =~= old(out)@ + decimal(n as nat));
}

/// Appends the decimal representation of `x`, with a leading `-` when negative.
pub fn append_signed_decimal(out: &mut String, x: i128)
    ensures
        final(out)@ == old(out)@ + signed_decimal(x as int),
{
    if x < 0 {
        proof {
            reveal_strlit("-");
        }
        out.append("-");
        let magnitude: u128 = ((-(x + 1)) as u128) + 1;
        append_decimal(out, magnitude);
        assert(out@ =~= old(out)@ + signed_decimal(x as int));
    } else {
        append_decimal(out, x as u128);
    }
}

// ── Prometheus exposition ─────────────────────────────────────────────────────

pub const TOTAL_LOANS_NAME: &'static str = "quorum_credit_total_loans";
pub const TOTAL_LOANS_HELP: &'static str = "Total number of loans";
pub const ACTIVE_LOANS_NAME: &'static str = "quorum_credit_active_loans";
pub const ACTIVE_LOANS_HELP: &'static str = "Number of active loans";
pub const TOTAL_VOUCHES_NAME: &'static str = "quorum_credit_total_vouches";
pub const TOTAL_VOUCHES_HELP: &'static str = "Total number of vouches";
pub const TOTAL_STAKE_NAME: &'static str = "quorum_credit_total_stake";
pub const TOTAL_STAKE_HELP: &'static str = "Total staked amount in stroops";
pub const TOTAL_YIELD_NAME: &'static str = "quorum_credit_total_yield_distributed";
pub const TOTAL_YIELD_HELP: &'static str = "Total yield distributed in stroops";
pub const TOTAL_SLASHED_NAME: &'static str = "quorum_credit_total_slashed";
pub const TOTAL_SLASHED_HELP: &'static str = "Total amount slashed in stroops";
pub const CONTRACT_BALANCE_NAME: &'static str = "quorum_credit_contract_balance";
pub const CONTRACT_BALANCE_HELP: &'static str = "Contract balance in stroops";

/// The three lines that expose gauge `name`: its help text, its type and
/// its value.
pub open spec fn metric_block(name: Seq<char>, help: Seq<char>, value: Seq<char>) -> Seq<char> {
    "# HELP "@ + name + " "@ + help + "\n"@ + "# TYPE "@ + name + " gauge\n"@ + name + " "@ + value
        + "\n"@
}

/// The Prometheus exposition of `m`.
pub open spec fn prometheus_text(m: Metrics) -> Seq<char> {
    metric_block(TOTAL_LOANS_NAME@, TOTAL_LOANS_HELP@, decimal(m.total_loans as nat))
        + metric_block(ACTIVE_LOANS_NAME@, ACTIVE_LOANS_HELP@, decimal(m.active_loans as nat))
        + metric_block(TOTAL_VOUCHES_NAME@, TOTAL_VOUCHES_HELP@, decimal(m.total_vouches as nat))
        + metric_block(TOTAL_STAKE_NAME@, TOTAL_STAKE_HELP@, signed_decimal(m.total_stake as int))
        + metric_block(TOTAL_YIELD_NAME@, TOTAL_YIELD_HELP@, signed_decimal(m.total_yield_distributed as int))
        + metric_block(TOTAL_SLASHED_NAME@, TOTAL_SLASHED_HELP@, signed_decimal(m.total_slashed as int))
        + metric_block(CONTRACT_BALANCE_NAME@, CONTRACT_BALANCE_HELP@, signed_decimal(m.contract_balance as int))
}

fn append_block_head(out: &mut String, name: &str, help: &str)
    ensures
        final(out)@ == old(out)@ + "# HELP "@ + name@ + " "@ + help@ + "\n"@ + "# TYPE "@ + name@
            + " gauge\n"@ + name@ + " "@,
{
    out.append("# HELP ");
    out.append(name);
    out.append(" ");
    out.append(help);
    out.append("\n");
    out.append("# TYPE ");
    out.append(name);
    out.append(" gauge\n");
    out.append(name);
    out.append(" ");
    assert(out@ =~= old(out)@ + "# HELP "@ + name@ + " "@ + help@ + "\n"@ + "# TYPE "@ + name@
        + " gauge\n"@ + name@ + " "@);
}

fn append_count_block(out: &mut String, name: &str, help: &str, value: u64)
    ensures
        final(out)@ == old(out)@ + metric_block(name@, help@, decimal(value as nat)),
{
    append_block_head(out, name, help);
    append_decimal(out, value as u128);
    out.append("\n");
    assert(out@ =~= old(out)@ + metric_block(name@, help@, decimal(value as nat)));
}

fn append_amount_block(out: &mut String, name: &str, help: &str, value: i128)
    ensures
        final(out)@ == old(out)@ + metric_block(name@, help@, signed_decimal(value as int)),
{
    append_block_head(out, name, help);
    append_signed_decimal(out, value);
    out.append("\n");
    assert(out@ =~= old(out)@ + metric_block(name@, help@, signed_decimal(value as int)));
}

/// The metrics in the Prometheus text format, every counter exposed as a gauge.
pub fn format_prometheus_metrics(store: &MetricsStore) -> (text: String)
    ensures
        text@ == prometheus_text(get_metrics_spec(*store)),
{
    let metrics = get_metrics(store);
    let mut output = String::new();
    append_count_block(&mut output, TOTAL_LOANS_NAME, TOTAL_LOANS_HELP, metrics.total_loans);
    append_count_block(&mut output, ACTIVE_LOANS_NAME, ACTIVE_LOANS_HELP, metrics.active_loans);
    append_count_block(&mut output, TOTAL_VOUCHES_NAME, TOTAL_VOUCHES_HELP, metrics.total_vouches);
    append_amount_block(&mut output, TOTAL_STAKE_NAME, TOTAL_STAKE_HELP, metrics.total_stake);
    append_amount_block(
        &mut output,
        TOTAL_YIELD_NAME,
        TOTAL_YIELD_HELP,
        metrics.total_yield_distributed,
    );
    append_amount_block(&mut output, TOTAL_SLASHED_NAME, TOTAL_SLASHED_HELP, metrics.total_slashed);
    append_amount_block(
        &mut output,
        CONTRACT_BALANCE_NAME,
        CONTRACT_BALANCE_HELP,
        metrics.contract_balance,
    );
    assert(output@ =~= prometheus_text(get_metrics_spec(*store)));
    output
}

/// The metrics that `get_metrics` reads from `store`.
pub open spec fn get_metrics_spec(store: MetricsStore) -> Metrics {
    Metrics {
        total_loans: store.loan_count,
        active_loans: store.active_loan_count,
        total_vouches: store.vouch_count,
        total_stake: store.total_stake,
        total_yield_distributed: store.total_yield_distributed,
        total_slashed: store.total_slashed,
        contract_balance: store.contract_balance,
    }
}

} // verus!
