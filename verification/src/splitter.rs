//! The reward splitter: pays a balance out to receivers in proportion to
//! their shares, and decides when a stored contract version is outdated.

use vstd::prelude::*;
use crate::version::{is_version, semver_error, semver_precedes, version_error, version_precedes};

verus! {

/// Why the splitter refused.
#[derive(Clone, Debug, PartialEq, Eq)]
pub enum SplitterError {
    /// The shares add up to nothing.
    NoShares,
    /// The balance is smaller than the sum of the shares.
    InsufficientFunds,
    /// A version text is no semantic version; the message says why.
    SemVer(String),
}

/// Who receives, with what share, and in which denomination.
#[derive(Clone, Debug, PartialEq, Eq)]
pub struct Config {
    pub receivers: Vec<(String, u128)>,
    pub denom: String,
}

/// Mathematical model of a splitter [`Config`].
pub struct ConfigView {
    pub receivers: Seq<(Seq<char>, nat)>,
    pub denom: Seq<char>,
}

/// The models of a sequence of receivers.
pub open spec fn receiver_views(receivers: Seq<(String, u128)>) -> Seq<(Seq<char>, nat)> {
    Seq::new(receivers.len(), |i: int| (receivers[i].0@, receivers[i].1 as nat))
}

impl View for Config {
    type V = ConfigView;

    open spec fn view(&self) -> ConfigView {
        ConfigView { receivers: receiver_views(self.receivers@), denom: self.denom@ }
    }
}

/// One payment out of the splitter's balance.
#[derive(Clone, Debug, PartialEq, Eq)]
pub struct BankSend {
    pub to_address: String,
    pub amount: u128,
    pub denom: String,
}

/// Mathematical model of a [`BankSend`].
pub struct BankSendView {
    pub to_address: Seq<char>,
    pub amount: nat,
    pub denom: Seq<char>,
}

impl View for BankSend {
    type V = BankSendView;

    open spec fn view(&self) -> BankSendView {
        BankSendView {
            to_address: self.to_address@,
            amount: self.amount as nat,
            denom: self.denom@,
        }
    }
}

/// The models of a sequence of payments.
pub open spec fn send_views(sends: Seq<BankSend>) -> Seq<BankSendView> {
    Seq::new(sends.len(), |i: int| sends[i]@)
}

/// The sum of the shares.
pub open spec fn total_of(receivers: Seq<(Seq<char>, nat)>) -> nat
    decreases receivers.len(),
{
    if receivers.len() == 0 {
        0
    } else {
        total_of(receivers.drop_last()) + receivers.last().1
    }
}

/// The payments for a balance: each receiver gets its share times the
/// whole number of times that the sum of the shares goes into the balance.
pub open spec fn payouts(config: ConfigView, balance: nat) -> Seq<BankSendView> {
    let unit = balance / total_of(config.receivers);
    Seq::new(
        config.receivers.len(),
        |i: int|
            BankSendView {
                to_address: config.receivers[i].0,
                amount: config.receivers[i].1 * unit,
                denom: config.denom,
            },
    )
}

/// The sum of the amounts paid.
pub open spec fn total_paid(sends: Seq<BankSendView>) -> nat
    decreases sends.len(),
{
    if sends.len() == 0 {
        0
    } else {
        total_paid(sends.drop_last()) + sends.last().amount
    }
}

/// The sum over a prefix is at most the sum over the whole, and no share is
/// larger than the sum.
pub proof fn lemma_total_of_prefix(receivers: Seq<(Seq<char>, nat)>, n: int)
    requires
        0 <= n <= receivers.len(),
    ensures
        total_of(receivers.take(n)) <= total_of(receivers),
        n < receivers.len() ==> total_of(receivers.take(n)) + receivers[n].1 <= total_of(
            receivers,
        ),
    decreases receivers.len(),
{
    if n == receivers.len() {
        assert(receivers.take(n) =~= receivers);
    } else {
        let front = receivers.drop_last();
        assert(front.take(n) =~= receivers.take(n));
        lemma_total_of_prefix(front, n);
        if n < front.len() {
            assert(front[n] == receivers[n]);
        } else {
            assert(front.take(n) =~= front);
        }
    }
}

/// The sum of the shares, where it fits an amount.
pub fn total_share(config: &Config) -> (r: Option<u128>)
    ensures
        total_of(config@.receivers) <= u128::MAX ==> r == Some(
            total_of(config@.receivers) as u128,
        ),
        total_of(config@.receivers) > u128::MAX ==> r is None,
{
    let mut sum: u128 = 0;
    let mut i: usize = 0;
    let ghost shares = config@.receivers;
    assert(shares.take(0) =~= Seq::<(Seq<char>, nat)>::empty());
    while i < config.receivers.len()
        invariant
            i <= config.receivers.len(),
            shares == config@.receivers,
            sum == total_of(shares.take(i as int)),
        decreases config.receivers.len() - i,
    {
        let share = config.receivers[i].1;
        proof {
            assert(shares.take(i as int + 1).drop_last() =~= shares.take(i as int));
            assert(shares[i as int].1 == share);
            lemma_total_of_prefix(shares, i as int);
        }
        match sum.checked_add(share) {
            Some(next) => {
                sum = next;
            },
            None => {
                return None;
            },
        }
        i += 1;
    }
    assert(shares.take(i as int) =~= shares);
    Some(sum)
}

/// The sum of the shares, which must not be nothing.
pub fn require_shares(config: &Config) -> (r: Result<u128, SplitterError>)
    requires
        total_of(config@.receivers) <= u128::MAX,
    ensures
        total_of(config@.receivers) == 0 ==> r matches Err(SplitterError::NoShares),
        total_of(config@.receivers) > 0 ==> r == Ok::<u128, SplitterError>(
            total_of(config@.receivers) as u128,
        ),
{
    match total_share(config) {
        Some(total) if total > 0 => Ok(total),
        _ => Err(SplitterError::NoShares),
    }
}

/// Splits `balance` among the receivers in proportion to their shares.
///
/// Fails with `NoShares` where the shares add up to nothing and with
/// `InsufficientFunds` where the balance is below their sum. Otherwise
/// there is one payment per receiver, in the receivers' order.
pub fn execute_distribute(config: &Config, balance: u128) -> (r: Result<Vec<BankSend>, SplitterError>)
    requires
        total_of(config@.receivers) <= u128::MAX,
    ensures
        total_of(config@.receivers) == 0 ==> r matches Err(SplitterError::NoShares),
        0 < total_of(config@.receivers) && balance < total_of(config@.receivers) ==> r matches Err(
            SplitterError::InsufficientFunds,
        ),
        0 < total_of(config@.receivers) <= balance ==> (r matches Ok(sends) && send_views(sends@)
            == payouts(config@, balance as nat)),
{
    let total = require_shares(config)?;
    if balance < total {
        return Err(SplitterError::InsufficientFunds);
    }
    let unit = balance / total;
    let ghost shares = config@.receivers;
    let mut sends: Vec<BankSend> = Vec::new();
    let mut i: usize = 0;
    while i < config.receivers.len()
        invariant
            i <= config.receivers.len(),
            shares == config@.receivers,
            total == total_of(shares),
            total > 0,
            unit == balance / total,
            sends@.len() == i,
            forall|j: int| 0 <= j < i ==> (#[trigger] sends@[j])@ == payouts(config@, balance as nat)[j],
        decreases config.receivers.len() - i,
    {
        let share = config.receivers[i].1;
        proof {
            lemma_total_of_prefix(shares, i as int);
            assert(shares[i as int].1 == share);
            assert(share <= total);
            assert(share * unit <= balance) by (nonlinear_arith)
                requires
                    share <= total,
                    total > 0,
                    unit == balance / total,
            ;
        }
        sends.push(
            BankSend {
                to_address: config.receivers[i].0.clone(),
                amount: share * unit,
                denom: config.denom.clone(),
            },
        );
        i += 1;
    }
    assert(send_views(sends@) =~= payouts(config@, balance as nat));
    Ok(sends)
}

/// What is paid out never exceeds the balance: the payments add up to the
/// sum of the shares times the unit, which is at most the balance.
pub proof fn law_payouts_within_balance(config: ConfigView, balance: nat)
    requires
        total_of(config.receivers) > 0,
    ensures
        total_paid(payouts(config, balance)) == total_of(config.receivers) * (balance / total_of(
            config.receivers,
        )),
        total_paid(payouts(config, balance)) <= balance,
{
    let total = total_of(config.receivers);
    let unit = balance / total;
    lemma_scaled_total(config, balance, config.receivers.len() as int);
    assert(config.receivers.take(config.receivers.len() as int) =~= config.receivers);
    assert(payouts(config, balance).take(config.receivers.len() as int) =~= payouts(
        config,
        balance,
    ));
    assert(total * unit <= balance) by (nonlinear_arith)
        requires
            total > 0,
            unit == balance / total,
    ;
}

/// The first `n` payments add up to the first `n` shares times the unit.
proof fn lemma_scaled_total(config: ConfigView, balance: nat, n: int)
    requires
        0 <= n <= config.receivers.len(),
    ensures
        total_paid(payouts(config, balance).take(n)) == total_of(config.receivers.take(n)) * (
        balance / total_of(config.receivers)),
    decreases n,
{
    let unit = balance / total_of(config.receivers);
    let paid = payouts(config, balance).take(n);
    let shares = config.receivers.take(n);
    if n == 0 {
        assert(total_of(shares) * unit == 0) by (nonlinear_arith)
            requires
                total_of(shares) == 0,
        ;
    } else {
        lemma_scaled_total(config, balance, n - 1);
        assert(paid.drop_last() =~= payouts(config, balance).take(n - 1));
        assert(shares.drop_last() =~= config.receivers.take(n - 1));
        let before = total_of(shares.drop_last());
        let share = shares.last().1;
        assert(paid.last().amount == share * unit);
        assert((before + share) * unit == before * unit + share * unit) by (nonlinear_arith);
    }
}

/// Accepts `text` where it spells a semantic version, and fails with the
/// parser's message where it does not.
pub fn check_version(text: &str) -> (r: Result<(), SplitterError>)
    ensures
        is_version(text@) ==> r is Ok,
        semver_error(text@) matches Some(message) ==> (r matches Err(SplitterError::SemVer(m))
            && m@ == message),
{
    match version_error(text) {
        Some(message) => Err(SplitterError::SemVer(message)),
        None => Ok(()),
    }
}

/// Whether the stored contract version is older than the version of the
/// code, so that the stored version has to be replaced.
///
/// The version of the code is read first, then the stored one; the first
/// text that is no semantic version fails the migration with its message.
pub fn migrate(contract_version: &str, storage_version: &str) -> (r: Result<bool, SplitterError>)
    ensures
        semver_error(contract_version@) matches Some(message) ==> (r matches Err(
            SplitterError::SemVer(m),
        ) && m@ == message),
        is_version(contract_version@) ==> (semver_error(storage_version@) matches Some(message)
            ==> (r matches Err(SplitterError::SemVer(m)) && m@ == message)),
        is_version(contract_version@) && is_version(storage_version@) ==> r == Ok::<
            bool,
            SplitterError,
        >(semver_precedes(storage_version@, contract_version@)),
{
    check_version(contract_version)?;
    check_version(storage_version)?;
    Ok(version_precedes(storage_version, contract_version))
}

} // verus!
