//! Search over loans and vouches.  Loans are searched by purpose and by
//! status, in the order they were created; no index of vouches by voucher
//! or of stakes by voucher is kept, so those searches find nothing.

use vstd::prelude::*;

use crate::contract::QuorumCreditContract;
use crate::errors::ContractError;
use crate::types::{AccountId, LoanRecord, LoanStatus, VouchRecord};

verus! {

broadcast use vstd::std_specs::hash::group_hash_axioms;

/// `c` with ASCII upper case letters turned to lower case.
pub open spec fn lower_char(c: char) -> char {
    if 'A' as int <= c as int <= 'Z' as int {
        ((c as int) + 32) as char
    } else {
        c
    }
}

/// `s` with ASCII upper case letters turned to lower case.
pub open spec fn lowercase(s: Seq<char>) -> Seq<char> {
    Seq::new(s.len(), |i: int| lower_char(s[i]))
}

/// `needle` occurs in `hay`.
pub open spec fn contains_text(hay: Seq<char>, needle: Seq<char>) -> bool {
    exists|i: int| 0 <= i <= hay.len() - needle.len() && #[trigger] hay.subrange(i, i + needle.len()) == needle
}

/// The purpose of `l` contains `query`, ignoring ASCII case.
pub open spec fn purpose_matches(l: LoanRecord, query: Seq<char>) -> bool {
    contains_text(lowercase(l.loan_purpose@), lowercase(query))
}

/// The loans with ids 1 to `n` whose purpose matches `query`, in id order.
pub open spec fn loans_matching(loans: Map<u64, LoanRecord>, query: Seq<char>, n: int) -> Seq<LoanRecord>
    decreases n,
{
    if n <= 0 {
        Seq::empty()
    } else {
        let earlier = loans_matching(loans, query, n - 1);
        if loans.contains_key(n as u64) && purpose_matches(loans[n as u64], query) {
            earlier.push(loans[n as u64])
        } else {
            earlier
        }
    }
}

proof fn lemma_loans_matching_prefix(loans: Map<u64, LoanRecord>, query: Seq<char>, i: int, n: int)
    requires
        0 <= i <= n,
    ensures
        loans_matching(loans, query, i).len() <= loans_matching(loans, query, n).len(),
        loans_matching(loans, query, n).take(loans_matching(loans, query, i).len() as int)
            == loans_matching(loans, query, i),
    decreases n - i,
{
    let small = loans_matching(loans, query, i);
    if i == n {
        assert(small.take(small.len() as int) =~= small);
    } else {
        lemma_loans_matching_prefix(loans, query, i, n - 1);
        let mid = loans_matching(loans, query, n - 1);
        let big = loans_matching(loans, query, n);
        assert(big.take(small.len() as int) =~= mid.take(small.len() as int));
    }
}

fn lower(c: char) -> (r: char)
    ensures
        r == lower_char(c),
{
    if 'A' <= c && c <= 'Z' {
        let b = c as u8;
        assert(b as int == c as int);
        (b + 32) as char
    } else {
        c
    }
}

fn lowered(s: &str) -> (r: Vec<char>)
    ensures
        r@ == lowercase(s@),
{
    let n = s.unicode_len();
    let mut out: Vec<char> = Vec::new();
    for i in 0..n
        invariant
            n == s@.len(),
            out@ == lowercase(s@).take(i as int),
    {
        out.push(lower(s.get_char(i)));
        assert(out@ =~= lowercase(s@).take(i + 1));
    }
    assert(out@ =~= lowercase(s@));
    out
}

/// Whether `needle` occurs in `hay`.
fn text_contains(hay: &Vec<char>, needle: &Vec<char>) -> (r: bool)
    ensures
        r == contains_text(hay@, needle@),
{
    let h = hay.len();
    let q = needle.len();
    if q > h {
        return false;
    }
    let mut i: usize = 0;
    while i <= h - q
        invariant
            h == hay@.len(),
            q == needle@.len(),
            q <= h,
            i <= h - q + 1,
            forall|k: int| 0 <= k < i ==> #[trigger] hay@.subrange(k, k + q) != needle@,
        decreases h - q + 1 - i,
    {
        let mut j: usize = 0;
        let mut same = true;
        while j < q
            invariant
                h == hay@.len(),
                q == needle@.len(),
                i + q <= h,
                j <= q,
                same <==> forall|t: int| 0 <= t < j ==> hay@[i + t] == needle@[t],
            decreases q - j,
        {
            if hay[i + j] != needle[j] {
                same = false;
            }
            j = j + 1;
        }
        if same {
            assert(hay@.subrange(i as int, i + q) =~= needle@);
            return true;
        }
        assert(hay@.subrange(i as int, i + q) != needle@) by {
            let t = choose|t: int| 0 <= t < q && hay@[i + t] != needle@[t];
            assert(hay@.subrange(i as int, i + q)[t] == hay@[i + t]);
        }
        i = i + 1;
    }
    false
}

/// Searches loans by loan purpose: the loans whose purpose contains `query`,
/// ignoring ASCII case, in the order they were created, at most `limit` of
/// them and never more than 100.  Borrowers are account handles here and
/// carry no text to match.
pub fn search_loans(contract: &QuorumCreditContract, query: &String, limit: u32) -> (r: Result<
    Vec<LoanRecord>,
    ContractError,
>)
    ensures
        r matches Ok(found) && {
            let all = loans_matching(contract.loans@, query@, contract.loan_counter as int);
            same_loans(
                found@,
                all.take(if result_cap(limit) < all.len() { result_cap(limit) } else { all.len() as int }),
            )
        },
{
    let needle = lowered(query.as_str());
    let cap: usize = if limit > 100 {
        100
    } else {
        limit as usize
    };
    let n = contract.loan_counter;
    let mut found: Vec<LoanRecord> = Vec::new();
    let mut id: u64 = 0;
    while id < n && found.len() < cap
        invariant
            id <= n,
            n == contract.loan_counter,
            cap == result_cap(limit),
            needle@ == lowercase(query@),
            found@.len() <= cap,
            same_loans(found@, loans_matching(contract.loans@, query@, id as int)),
        decreases n - id,
    {
        id = id + 1;
        match contract.loans.get(&id) {
            Some(l) => {
                let hay = lowered(l.loan_purpose.as_str());
                if text_contains(&hay, &needle) {
                    found.push(copy_loan(l));
                }
            },
            None => {},
        }
    }
    proof {
        lemma_loans_matching_prefix(contract.loans@, query@, id as int, n as int);
        let all = loans_matching(contract.loans@, query@, n as int);
        let got = loans_matching(contract.loans@, query@, id as int);
        if id == n {
            assert(all.take(all.len() as int) =~= all);
        }
        assert(got =~= all.take(got.len() as int));
    }
    Ok(found)
}

/// Searches the vouches of `borrower` by voucher address.  Vouchers are
/// account handles here and carry no address text, so nothing is found.
pub fn search_vouches(
    contract: &QuorumCreditContract,
    borrower: AccountId,
    query: &String,
    limit: u32,
) -> (r: Result<Vec<VouchRecord>, ContractError>)
    ensures
        r matches Ok(found) && found@.len() == 0,
{
    Ok(Vec::new())
}

/// The loan status that a status name selects, if any.
pub open spec fn status_named(name: Seq<char>) -> Option<LoanStatus> {
    if name == "Active"@ {
        Some(LoanStatus::Active)
    } else if name == "Repaid"@ {
        Some(LoanStatus::Repaid)
    } else if name == "Defaulted"@ {
        Some(LoanStatus::Defaulted)
    } else {
        None
    }
}

/// The most results a search returns for `limit`: at most 100.
pub open spec fn result_cap(limit: u32) -> int {
    if limit > 100 {
        100
    } else {
        limit as int
    }
}

/// The loans with ids 1 to `n` whose status is `st`, in id order.
pub open spec fn loans_with_status(loans: Map<u64, LoanRecord>, st: LoanStatus, n: int) -> Seq<LoanRecord>
    decreases n,
{
    if n <= 0 {
        Seq::empty()
    } else {
        let earlier = loans_with_status(loans, st, n - 1);
        if loans.contains_key(n as u64) && loans[n as u64].status == st {
            earlier.push(loans[n as u64])
        } else {
            earlier
        }
    }
}

/// `a` and `b` hold the same loan records, in the same order.
pub open spec fn same_loans(a: Seq<LoanRecord>, b: Seq<LoanRecord>) -> bool {
    &&& a.len() == b.len()
    &&& forall|i: int| 0 <= i < a.len() ==> same_loan(#[trigger] a[i], b[i])
}

/// `a` and `b` describe the same loan.
pub open spec fn same_loan(a: LoanRecord, b: LoanRecord) -> bool {
    &&& a.id == b.id
    &&& a.borrower == b.borrower
    &&& a.co_borrowers@ == b.co_borrowers@
    &&& a.amount == b.amount
    &&& a.amount_repaid == b.amount_repaid
    &&& a.total_yield == b.total_yield
    &&& a.status == b.status
    &&& a.created_at == b.created_at
    &&& a.disbursement_timestamp == b.disbursement_timestamp
    &&& a.repayment_timestamp == b.repayment_timestamp
    &&& a.deadline == b.deadline
    &&& a.loan_purpose@ == b.loan_purpose@
    &&& a.token_address == b.token_address
    &&& a.amortization_schedule@ == b.amortization_schedule@
    &&& a.reminder_sent == b.reminder_sent
    &&& a.risk_score == b.risk_score
}

proof fn lemma_loans_with_status_prefix(loans: Map<u64, LoanRecord>, st: LoanStatus, i: int, n: int)
    requires
        0 <= i <= n,
    ensures
        loans_with_status(loans, st, i).len() <= loans_with_status(loans, st, n).len(),
        loans_with_status(loans, st, n).take(loans_with_status(loans, st, i).len() as int)
            == loans_with_status(loans, st, i),
    decreases n - i,
{
    let small = loans_with_status(loans, st, i);
    if i == n {
        assert(small.take(small.len() as int) =~= small);
    } else {
        lemma_loans_with_status_prefix(loans, st, i, n - 1);
        let mid = loans_with_status(loans, st, n - 1);
        let big = loans_with_status(loans, st, n);
        assert(big.take(small.len() as int) =~= mid.take(small.len() as int));
    }
}

fn copy_loan(l: &LoanRecord) -> (r: LoanRecord)
    ensures
        same_loan(r, *l),
{
    LoanRecord {
        id: l.id,
        borrower: l.borrower,
        co_borrowers: l.co_borrowers.clone(),
        amount: l.amount,
        amount_repaid: l.amount_repaid,
        total_yield: l.total_yield,
        status: l.status,
        created_at: l.created_at,
        disbursement_timestamp: l.disbursement_timestamp,
        repayment_timestamp: l.repayment_timestamp,
        deadline: l.deadline,
        loan_purpose: l.loan_purpose.clone(),
        token_address: l.token_address,
        amortization_schedule: l.amortization_schedule.clone(),
        reminder_sent: l.reminder_sent,
        risk_score: l.risk_score,
    }
}

fn status_from_name(name: &String) -> (r: Option<LoanStatus>)
    ensures
        r == status_named(name@),
{
    if *name == String::from_str("Active") {
        Some(LoanStatus::Active)
    } else if *name == String::from_str("Repaid") {
        Some(LoanStatus::Repaid)
    } else if *name == String::from_str("Defaulted") {
        Some(LoanStatus::Defaulted)
    } else {
        None
    }
}

/// Loans with the given status (Active, Repaid, Defaulted), in the order
/// they were created, at most `limit` of them and never more than 100.  An
/// unknown status name finds nothing.
pub fn get_loans_by_status(contract: &QuorumCreditContract, status: &String, limit: u32) -> (r:
    Result<Vec<LoanRecord>, ContractError>)
    ensures
        r matches Ok(found) && match status_named(status@) {
            Some(st) => {
                let all = loans_with_status(contract.loans@, st, contract.loan_counter as int);
                same_loans(
                    found@,
                    all.take(if result_cap(limit) < all.len() { result_cap(limit) } else { all.len() as int }),
                )
            },
            None => found@.len() == 0,
        },
{
    let st = match status_from_name(status) {
        Some(st) => st,
        None => return Ok(Vec::new()),
    };
    let cap: usize = if limit > 100 {
        100
    } else {
        limit as usize
    };
    let n = contract.loan_counter;
    let mut found: Vec<LoanRecord> = Vec::new();
    let mut id: u64 = 0;
    while id < n && found.len() < cap
        invariant
            id <= n,
            n == contract.loan_counter,
            cap == result_cap(limit),
            found@.len() <= cap,
            same_loans(found@, loans_with_status(contract.loans@, st, id as int)),
        decreases n - id,
    {
        id = id + 1;
        match contract.loans.get(&id) {
            Some(l) => {
                if l.status == st {
                    found.push(copy_loan(l));
                }
            },
            None => {},
        }
    }
    proof {
        lemma_loans_with_status_prefix(contract.loans@, st, id as int, n as int);
        let all = loans_with_status(contract.loans@, st, n as int);
        let got = loans_with_status(contract.loans@, st, id as int);
        if id == n {
            assert(all.take(all.len() as int) =~= all);
        }
        assert(got =~= all.take(got.len() as int));
    }
    Ok(found)
}

/// Vouchers with the largest total stake, largest first.  No total of
/// stakes by voucher is kept, so nothing is found.
pub fn get_top_vouchers(contract: &QuorumCreditContract, limit: u32) -> (r: Result<
    Vec<(AccountId, i128)>,
    ContractError,
>)
    ensures
        r matches Ok(found) && found@.len() == 0,
{
    Ok(Vec::new())
}

} // verus!
