//! The account transform: each account becomes an account row, an item named
//! after it, and a zero-amount opening transaction.
use vstd::prelude::*;

use crate::error::MigrationError;
use crate::model::{currency_name_of, find_currency_name, FinancistoAccount, FinancistoCurrency};
use crate::sql::{account_sql, account_text, item_sql, item_text, transaction_sql, transaction_text, TransactionRow, TxRow};
use crate::time::{dated, local_date_text};
use crate::transactions::{texts, LAST_RESERVED_ITEM};

verus! {

/// The item id of the first account; the next accounts take the ids after it.
pub const FIRST_ACCOUNT_ITEM: i64 = 5;

/// The most accounts whose items fit below the transaction-side item ids.
pub const MAX_ACCOUNTS: usize = 36;

/// The Bluecoins account type of a Financisto account kind; an unknown kind
/// gets the empty code.
pub open spec fn account_type_code(kind: Seq<char>) -> Seq<char> {
    if kind == "ASSET"@ {
        "15"@
    } else if kind == "BANK"@ {
        "3"@
    } else if kind == "CREDIT_CARD"@ {
        "8"@
    } else if kind == "DEBIT_CARD"@ {
        "8"@
    } else if kind == "CASH"@ {
        "4"@
    } else if kind == "ELECTRONIC"@ {
        "15"@
    } else if kind == "OTHER"@ {
        "15"@
    } else {
        ""@
    }
}

fn is(s: &String, lit: &str) -> (r: bool)
    ensures
        r == (s@ == lit@),
{
    let t = String::from_str(lit);
    s.eq(&t)
}

/// The Bluecoins account type of a Financisto account kind.
pub fn account_type(kind: &String) -> (r: &'static str)
    ensures
        r@ == account_type_code(kind@),
{
    if is(kind, "ASSET") {
        "15"
    } else if is(kind, "BANK") {
        "3"
    } else if is(kind, "CREDIT_CARD") {
        "8"
    } else if is(kind, "DEBIT_CARD") {
        "8"
    } else if is(kind, "CASH") {
        "4"
    } else if is(kind, "ELECTRONIC") {
        "15"
    } else if is(kind, "OTHER") {
        "15"
    } else {
        ""
    }
}

/// The opening transaction of the account with item `item`, in `currency`, dated `date`.
pub open spec fn opening_row(a: FinancistoAccount, item: int, currency: Seq<char>, date: Seq<char>) -> TxRow {
    TxRow {
        key: a.id as int,
        item,
        amount: 0,
        currency,
        date,
        type_id: 2,
        category: 2,
        account: a.id as int,
        notes: Seq::empty(),
        status: 2,
        account_ref: 3,
        pair_account: a.id as int,
        uid_pair: a.creation_date as int,
        split_group: 0,
        transfer_group: 0,
    }
}

/// Whether every account's currency is in `currencies`.
pub open spec fn accounts_resolve(accounts: Seq<FinancistoAccount>, currencies: Seq<FinancistoCurrency>) -> bool {
    forall|k: int| 0 <= k < accounts.len() ==> (#[trigger] currency_name_of(currencies, accounts[k].currency_id)) is Some
}

/// The three statements of account `k`.
pub open spec fn account_statements_of(
    accounts: Seq<FinancistoAccount>,
    currencies: Seq<FinancistoCurrency>,
    dates: Seq<Seq<char>>,
    k: int,
) -> Seq<Seq<char>> {
    let a = accounts[k];
    let item = FIRST_ACCOUNT_ITEM + k;
    let currency = currency_name_of(currencies, a.currency_id)->Some_0;
    seq![
        account_text(a.id as int, a.title@, account_type_code(a.account_type@), currency),
        item_text(item, a.title@),
        transaction_text(opening_row(a, item, currency, dates[k])),
    ]
}

/// The statements of the first `n` accounts.
pub open spec fn account_statements_upto(
    accounts: Seq<FinancistoAccount>,
    currencies: Seq<FinancistoCurrency>,
    dates: Seq<Seq<char>>,
    n: int,
) -> Seq<Seq<char>>
    decreases n,
{
    if n <= 0 {
        Seq::empty()
    } else {
        account_statements_upto(accounts, currencies, dates, n - 1) + account_statements_of(accounts, currencies, dates, n - 1)
    }
}

/// The statements of the account transform, given the local date text of
/// each account's creation (`dates[k]` for `accounts[k]`), whose currencies
/// all resolve.
pub fn migrate_accounts_with_dates(
    accounts: &Vec<FinancistoAccount>,
    currencies: &Vec<FinancistoCurrency>,
    dates: &Vec<String>,
) -> (r: Vec<String>)
    requires
        accounts@.len() <= MAX_ACCOUNTS,
        dates@.len() == accounts@.len(),
        accounts_resolve(accounts@, currencies@),
    ensures
        texts(r@) == account_statements_upto(accounts@, currencies@, texts(dates@), accounts@.len() as int),
{
    let n = accounts.len();
    let mut out: Vec<String> = Vec::new();
    let mut k: usize = 0;
    assert(texts(out@) =~= Seq::<Seq<char>>::empty());
    while k < n
        invariant
            n == accounts@.len(),
            n <= MAX_ACCOUNTS,
            dates@.len() == n,
            accounts_resolve(accounts@, currencies@),
            k <= n,
            texts(out@) == account_statements_upto(accounts@, currencies@, texts(dates@), k as int),
        decreases n - k,
    {
        let a = &accounts[k];
        assert(currency_name_of(currencies@, accounts@[k as int].currency_id) is Some);
        let currency = match find_currency_name(currencies, a.currency_id) {
            Some(c) => c,
            None => {
                return out;
            },
        };
        let item: i64 = FIRST_ACCOUNT_ITEM + k as i64;
        let row = TransactionRow {
            key: a.id as i64,
            item,
            amount: 0,
            currency: currency.clone(),
            date: dates[k].clone(),
            type_id: 2,
            category: 2,
            account: a.id as i64,
            notes: String::new(),
            status: 2,
            account_ref: 3,
            pair_account: a.id as i64,
            uid_pair: a.creation_date,
            split_group: 0,
            transfer_group: 0,
        };
        let ghost pre = out@;
        out.push(account_sql(a.id as i64, a.title.as_str(), account_type(&a.account_type), currency.as_str()));
        out.push(item_sql(item, a.title.as_str()));
        out.push(transaction_sql(&row));
        assert(row@ == opening_row(*a, item as int, currency@, texts(dates@)[k as int]));
        assert(texts(out@) =~= texts(pre) + account_statements_of(accounts@, currencies@, texts(dates@), k as int));
        k = k + 1;
    }
    out
}

/// Whether account `k` can be migrated: its currency resolves and its
/// creation time has a date.
pub open spec fn account_ready(accounts: Seq<FinancistoAccount>, currencies: Seq<FinancistoCurrency>, k: int) -> bool {
    &&& currency_name_of(currencies, accounts[k].currency_id) is Some
    &&& dated(accounts[k].creation_date)
}

/// Whether the first `n` accounts can be migrated.
pub open spec fn accounts_ready(accounts: Seq<FinancistoAccount>, currencies: Seq<FinancistoCurrency>, n: int) -> bool {
    forall|j: int| 0 <= j < n ==> #[trigger] account_ready(accounts, currencies, j)
}

/// The statements of the account transform. Each opening transaction is dated
/// at the account's creation, in the machine's local time. The accounts are
/// taken in order, and the first one whose currency is unknown, or whose
/// creation time has no date, stops the transform.
pub fn migrate_accounts(
    accounts: &Vec<FinancistoAccount>,
    currencies: &Vec<FinancistoCurrency>,
) -> (r: Result<Vec<String>, MigrationError>)
    ensures
        (r is Ok) <==> (accounts@.len() <= MAX_ACCOUNTS && accounts_ready(accounts@, currencies@, accounts@.len() as int)),
        match r {
            Ok(s) => exists|dates: Seq<Seq<char>>| dates.len() == accounts@.len()
                && #[trigger] texts(s@) == account_statements_upto(accounts@, currencies@, dates, accounts@.len() as int),
            Err(MigrationError::UnknownCurrency { account_id, currency_id }) => accounts@.len() <= MAX_ACCOUNTS
                && exists|k: int| 0 <= k < accounts@.len() && accounts_ready(accounts@, currencies@, k)
                && #[trigger] accounts@[k].id == account_id && accounts@[k].currency_id == currency_id
                && currency_name_of(currencies@, currency_id) is None,
            Err(MigrationError::TimeOutOfRange { millis }) => accounts@.len() <= MAX_ACCOUNTS
                && exists|k: int| 0 <= k < accounts@.len() && accounts_ready(accounts@, currencies@, k)
                && currency_name_of(currencies@, accounts@[k].currency_id) is Some
                && #[trigger] accounts@[k].creation_date == millis && !dated(millis),
            Err(e) => e == MigrationError::ValueOutOfRange && accounts@.len() > MAX_ACCOUNTS,
        },
{
    if accounts.len() > MAX_ACCOUNTS {
        return Err(MigrationError::ValueOutOfRange);
    }
    let mut dates: Vec<String> = Vec::new();
    let mut k: usize = 0;
    while k < accounts.len()
        invariant
            k <= accounts@.len(),
            accounts@.len() <= MAX_ACCOUNTS,
            dates@.len() == k,
            accounts_ready(accounts@, currencies@, k as int),
        decreases accounts@.len() - k,
    {
        let a = &accounts[k];
        if find_currency_name(currencies, a.currency_id).is_none() {
            assert(accounts@[k as int].id == a.id);
            assert(!account_ready(accounts@, currencies@, k as int));
            return Err(MigrationError::UnknownCurrency { account_id: a.id, currency_id: a.currency_id });
        }
        match local_date_text(a.creation_date) {
            Some(d) => dates.push(d),
            None => {
                assert(accounts@[k as int].creation_date == a.creation_date);
                assert(!account_ready(accounts@, currencies@, k as int));
                return Err(MigrationError::TimeOutOfRange { millis: a.creation_date });
            },
        }
        assert(account_ready(accounts@, currencies@, k as int));
        k = k + 1;
    }
    assert forall|j: int| 0 <= j < accounts@.len() implies
        (#[trigger] currency_name_of(currencies@, accounts@[j].currency_id)) is Some by {
        assert(account_ready(accounts@, currencies@, j));
    }
    Ok(migrate_accounts_with_dates(accounts, currencies, &dates))
}

} // verus!
