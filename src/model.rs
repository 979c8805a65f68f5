//! The entities of a Financisto backup.
use vstd::prelude::*;

verus! {

/// A currency of the backup.
#[derive(Debug, Clone, PartialEq)]
pub struct FinancistoCurrency {
    pub id: i32,
    pub decimal_separator: Option<String>,
    pub updated_on: i64,
    pub title: String,
    pub entity: String,
    pub decimals: i32,
    pub symbol: String,
    pub is_active: i32,
    pub name: String,
    pub is_default: i32,
    pub symbol_format: String,
    pub group_separator: Option<String>,
}

/// An account of the backup.
#[derive(Debug, Clone, PartialEq)]
pub struct FinancistoAccount {
    pub id: i32,
    pub note: Option<String>,
    pub total_limit: i32,
    pub entity: String,
    pub total_amount: i32,
    pub last_transaction_date: i64,
    pub payment_day: i32,
    pub sort_order: i32,
    pub account_type: String,
    pub updated_on: i64,
    pub is_active: i32,
    pub issuer: Option<String>,
    pub title: String,
    pub creation_date: i64,
    pub last_account_id: i32,
    pub last_category_id: i32,
    pub currency_id: i32,
    pub closing_day: i64,
    pub card_issuer: Option<String>,
    pub is_include_into_totals: i32,
}

/// A category of the backup, placed in the tree by its nested-set interval.
#[derive(Debug, Clone, PartialEq)]
pub struct FinancistoCategory {
    pub category_type: i32,
    pub id: i32,
    pub updated_on: i64,
    pub right: i32,
    pub left: i32,
    pub last_location_id: i32,
    pub is_active: i32,
    pub title: String,
    pub last_project_id: i32,
    pub entity: String,
}

/// A transaction of the backup. Amounts carry two implied decimal digits;
/// `datetime` is in milliseconds since the epoch. The location fields are
/// kept as the backup writes them: nothing in the migration reads them.
#[derive(Debug, Clone, PartialEq)]
pub struct FinancistoTransaction {
    pub longitude: String,
    pub from_account_id: i32,
    pub location_id: i32,
    pub note: Option<String>,
    pub to_account_id: i32,
    pub entity: String,
    pub datetime: i64,
    pub project_id: i32,
    pub provider: Option<String>,
    pub template_name: Option<String>,
    pub latitude: String,
    pub accuracy: String,
    pub status: Option<String>,
    pub is_ccard_payment: i32,
    pub payee_id: i32,
    pub category_id: i32,
    pub parent_id: i32,
    pub to_amount: i64,
    pub from_amount: i64,
    pub original_currency_id: i32,
    pub original_from_amount: i32,
    pub last_recurrence: i64,
    pub is_template: i32,
    pub updated_on: i64,
    pub id: i32,
}

/// All entities decoded from one backup.
#[derive(Debug)]
pub struct Financisto {
    pub currencies: Vec<FinancistoCurrency>,
    pub accounts: Vec<FinancistoAccount>,
    pub categories: Vec<FinancistoCategory>,
    pub transactions: Vec<FinancistoTransaction>,
}

impl Financisto {
    /// An empty collection of entities.
    pub fn new() -> (r: Financisto)
        ensures
            r.currencies@.len() == 0,
            r.accounts@.len() == 0,
            r.categories@.len() == 0,
            r.transactions@.len() == 0,
    {
        Financisto {
            currencies: Vec::new(),
            accounts: Vec::new(),
            categories: Vec::new(),
            transactions: Vec::new(),
        }
    }
}

/// The name of the first currency with the given id, if there is one.
pub open spec fn currency_name_of(currencies: Seq<FinancistoCurrency>, id: i32) -> Option<Seq<char>>
    decreases currencies.len(),
{
    if currencies.len() == 0 {
        None
    } else if currencies[0].id == id {
        Some(currencies[0].name@)
    } else {
        currency_name_of(currencies.drop_first(), id)
    }
}

/// Looks up the name of the first currency with the given id.
pub fn find_currency_name(currencies: &Vec<FinancistoCurrency>, id: i32) -> (r: Option<&String>)
    ensures
        match r {
            Some(s) => currency_name_of(currencies@, id) == Some(s@),
            None => currency_name_of(currencies@, id) is None,
        },
{
    let n = currencies.len();
    let mut i: usize = 0;
    assert(currencies@.subrange(0, n as int) =~= currencies@);
    while i < n
        invariant
            n == currencies@.len(),
            i <= n,
            currency_name_of(currencies@, id) == currency_name_of(currencies@.subrange(i as int, n as int), id),
        decreases n - i,
    {
        assert(currencies@.subrange(i as int, n as int).drop_first() =~= currencies@.subrange(i + 1, n as int));
        if currencies[i].id == id {
            return Some(&currencies[i].name);
        }
        i = i + 1;
    }
    None
}

} // verus!
