//! Decoding of backup records into entities.
use vstd::prelude::*;

use crate::error::MigrationError;
use crate::model::{FinancistoAccount, FinancistoCategory, FinancistoCurrency, FinancistoTransaction};
use crate::text::{decimal_in, parse_int};

verus! {

/// The field names and values of a record.
pub open spec fn record_view(rec: Seq<(String, String)>) -> Seq<(Seq<char>, Seq<char>)> {
    rec.map_values(|p: (String, String)| (p.0@, p.1@))
}

/// The value of field `name`: the last one given, as a later field of the same
/// name replaces an earlier one.
pub open spec fn field_of(rec: Seq<(Seq<char>, Seq<char>)>, name: Seq<char>) -> Option<Seq<char>>
    decreases rec.len(),
{
    if rec.len() == 0 {
        None
    } else if rec.last().0 == name {
        Some(rec.last().1)
    } else {
        field_of(rec.drop_last(), name)
    }
}

/// The value of the numeric field `name`, if it is present and a decimal integer in `[lo, hi]`.
pub open spec fn int_value(rec: Seq<(Seq<char>, Seq<char>)>, name: Seq<char>, lo: int, hi: int) -> Option<int> {
    match field_of(rec, name) {
        Some(v) => decimal_in(v, lo, hi),
        None => None,
    }
}

pub open spec fn opt_view(o: Option<String>) -> Option<Seq<char>> {
    match o {
        Some(s) => Some(s@),
        None => None,
    }
}

/// Whether `e` names a field of `rec` that is absent, or not a 32-bit number.
pub open spec fn names_bad_field(rec: Seq<(Seq<char>, Seq<char>)>, e: MigrationError) -> bool {
    match e {
        MigrationError::MissingField { field, .. } => field_of(rec, field@) is None,
        MigrationError::MalformedField { field, .. } => match field_of(rec, field@) {
            Some(v) => decimal_in(v, i32::MIN as int, i32::MAX as int) is None,
            None => false,
        },
        _ => false,
    }
}

/// The value of field `name` of `rec`.
pub fn field<'a>(rec: &'a Vec<(String, String)>, name: &str) -> (r: Option<&'a String>)
    ensures
        match r {
            Some(v) => field_of(record_view(rec@), name@) == Some(v@),
            None => field_of(record_view(rec@), name@) is None,
        },
{
    let wanted = String::from_str(name);
    let mut k: usize = rec.len();
    assert(record_view(rec@).subrange(0, k as int) =~= record_view(rec@));
    while k > 0
        invariant
            k <= rec@.len(),
            wanted@ == name@,
            field_of(record_view(rec@), name@) == field_of(record_view(rec@).subrange(0, k as int), name@),
        decreases k,
    {
        let ghost sub = record_view(rec@).subrange(0, k as int);
        assert(sub.drop_last() =~= record_view(rec@).subrange(0, k - 1));
        if rec[k - 1].0.eq(&wanted) {
            return Some(&rec[k - 1].1);
        }
        k = k - 1;
    }
    None
}

fn int_field(rec: &Vec<(String, String)>, entity: &str, name: &str, lo: i64, hi: i64) -> (r: Result<i64, MigrationError>)
    requires
        (lo == i32::MIN && hi == i32::MAX) || (lo == i64::MIN && hi == i64::MAX),
    ensures
        match r {
            Ok(v) => int_value(record_view(rec@), name@, lo as int, hi as int) == Some(v as int),
            Err(e) => int_value(record_view(rec@), name@, lo as int, hi as int) is None
                && names_bad_field(record_view(rec@), e),
        },
{
    match field(rec, name) {
        Some(v) => match parse_int(v.as_str(), lo, hi) {
            Some(x) => Ok(x),
            None => Err(MigrationError::MalformedField { entity: String::from_str(entity), field: String::from_str(name) }),
        },
        None => Err(MigrationError::MissingField { entity: String::from_str(entity), field: String::from_str(name) }),
    }
}

fn text_field(rec: &Vec<(String, String)>, entity: &str, name: &str) -> (r: Result<String, MigrationError>)
    ensures
        match r {
            Ok(v) => field_of(record_view(rec@), name@) == Some(v@),
            Err(e) => field_of(record_view(rec@), name@) is None && names_bad_field(record_view(rec@), e),
        },
{
    match field(rec, name) {
        Some(v) => Ok(v.clone()),
        None => Err(MigrationError::MissingField { entity: String::from_str(entity), field: String::from_str(name) }),
    }
}

fn optional_field(rec: &Vec<(String, String)>, name: &str) -> (r: Option<String>)
    ensures
        opt_view(r) == field_of(record_view(rec@), name@),
{
    match field(rec, name) {
        Some(v) => Some(v.clone()),
        None => None,
    }
}

/// Whether every required field of a currency record is present and well formed.
#[verifier::opaque]
pub open spec fn currency_fields_ok(rec: Seq<(Seq<char>, Seq<char>)>) -> bool {
    &&& int_value(rec, "_id"@, i32::MIN as int, i32::MAX as int) is Some
    &&& int_value(rec, "updated_on"@, i64::MIN as int, i64::MAX as int) is Some
    &&& field_of(rec, "title"@) is Some
    &&& field_of(rec, "entity"@) is Some
    &&& int_value(rec, "decimals"@, i32::MIN as int, i32::MAX as int) is Some
    &&& field_of(rec, "symbol"@) is Some
    &&& int_value(rec, "is_active"@, i32::MIN as int, i32::MAX as int) is Some
    &&& field_of(rec, "name"@) is Some
    &&& int_value(rec, "is_default"@, i32::MIN as int, i32::MAX as int) is Some
    &&& field_of(rec, "symbol_format"@) is Some
}

/// Whether `x` holds the fields of the currency record `rec`.
#[verifier::opaque]
pub open spec fn currency_decodes(rec: Seq<(Seq<char>, Seq<char>)>, x: FinancistoCurrency) -> bool {
    &&& Some(x.id as int) == int_value(rec, "_id"@, i32::MIN as int, i32::MAX as int)
    &&& opt_view(x.decimal_separator) == field_of(rec, "decimal_separator"@)
    &&& Some(x.updated_on as int) == int_value(rec, "updated_on"@, i64::MIN as int, i64::MAX as int)
    &&& Some(x.title@) == field_of(rec, "title"@)
    &&& Some(x.entity@) == field_of(rec, "entity"@)
    &&& Some(x.decimals as int) == int_value(rec, "decimals"@, i32::MIN as int, i32::MAX as int)
    &&& Some(x.symbol@) == field_of(rec, "symbol"@)
    &&& Some(x.is_active as int) == int_value(rec, "is_active"@, i32::MIN as int, i32::MAX as int)
    &&& Some(x.name@) == field_of(rec, "name"@)
    &&& Some(x.is_default as int) == int_value(rec, "is_default"@, i32::MIN as int, i32::MAX as int)
    &&& Some(x.symbol_format@) == field_of(rec, "symbol_format"@)
    &&& opt_view(x.group_separator) == field_of(rec, "group_separator"@)
}

/// Whether two currencies hold the same values.
pub open spec fn same_currency(a: FinancistoCurrency, b: FinancistoCurrency) -> bool {
    &&& a.id == b.id
    &&& opt_view(a.decimal_separator) == opt_view(b.decimal_separator)
    &&& a.updated_on == b.updated_on
    &&& a.title@ == b.title@
    &&& a.entity@ == b.entity@
    &&& a.decimals == b.decimals
    &&& a.symbol@ == b.symbol@
    &&& a.is_active == b.is_active
    &&& a.name@ == b.name@
    &&& a.is_default == b.is_default
    &&& a.symbol_format@ == b.symbol_format@
    &&& opt_view(a.group_separator) == opt_view(b.group_separator)
}

/// Decoding is a function of the record: two currencies decoded from one record are equal.
pub proof fn lemma_currency_decode_deterministic(rec: Seq<(Seq<char>, Seq<char>)>, a: FinancistoCurrency, b: FinancistoCurrency)
    requires
        currency_decodes(rec, a),
        currency_decodes(rec, b),
    ensures
        same_currency(a, b),
{
    reveal(currency_decodes);
}

impl FinancistoCurrency {
    /// Decodes a currency record; fails on the first required field that is
    /// absent or not a number of its type.
    pub fn from_record(rec: &Vec<(String, String)>) -> (r: Result<FinancistoCurrency, MigrationError>)
        ensures
            r is Ok <==> currency_fields_ok(record_view(rec@)),
            match r {
                Ok(x) => currency_decodes(record_view(rec@), x),
                Err(e) => names_bad_field(record_view(rec@), e),
            },
    {
        reveal(currency_fields_ok);
        reveal(currency_decodes);
        let id = match int_field(rec, "currency", "_id", i32::MIN as i64, i32::MAX as i64) {
            Ok(v) => v as i32,
            Err(e) => {
                return Err(e);
            },
        };
        let decimal_separator = optional_field(rec, "decimal_separator");
        let updated_on = match int_field(rec, "currency", "updated_on", i64::MIN, i64::MAX) {
            Ok(v) => v as i64,
            Err(e) => {
                return Err(e);
            },
        };
        let title = match text_field(rec, "currency", "title") {
            Ok(v) => v,
            Err(e) => {
                return Err(e);
            },
        };
        let entity = match text_field(rec, "currency", "entity") {
            Ok(v) => v,
            Err(e) => {
                return Err(e);
            },
        };
        let decimals = match int_field(rec, "currency", "decimals", i32::MIN as i64, i32::MAX as i64) {
            Ok(v) => v as i32,
            Err(e) => {
                return Err(e);
            },
        };
        let symbol = match text_field(rec, "currency", "symbol") {
            Ok(v) => v,
            Err(e) => {
                return Err(e);
            },
        };
        let is_active = match int_field(rec, "currency", "is_active", i32::MIN as i64, i32::MAX as i64) {
            Ok(v) => v as i32,
            Err(e) => {
                return Err(e);
            },
        };
        let name = match text_field(rec, "currency", "name") {
            Ok(v) => v,
            Err(e) => {
                return Err(e);
            },
        };
        let is_default = match int_field(rec, "currency", "is_default", i32::MIN as i64, i32::MAX as i64) {
            Ok(v) => v as i32,
            Err(e) => {
                return Err(e);
            },
        };
        let symbol_format = match text_field(rec, "currency", "symbol_format") {
            Ok(v) => v,
            Err(e) => {
                return Err(e);
            },
        };
        let group_separator = optional_field(rec, "group_separator");
        Ok(FinancistoCurrency { id, decimal_separator, updated_on, title, entity, decimals, symbol, is_active, name, is_default, symbol_format, group_separator })
    }
}

/// Whether every required field of an account record is present and well formed.
#[verifier::opaque]
pub open spec fn account_fields_ok(rec: Seq<(Seq<char>, Seq<char>)>) -> bool {
    &&& int_value(rec, "_id"@, i32::MIN as int, i32::MAX as int) is Some
    &&& int_value(rec, "total_limit"@, i32::MIN as int, i32::MAX as int) is Some
    &&& field_of(rec, "entity"@) is Some
    &&& int_value(rec, "total_amount"@, i32::MIN as int, i32::MAX as int) is Some
    &&& int_value(rec, "last_transaction_date"@, i64::MIN as int, i64::MAX as int) is Some
    &&& int_value(rec, "payment_day"@, i32::MIN as int, i32::MAX as int) is Some
    &&& int_value(rec, "sort_order"@, i32::MIN as int, i32::MAX as int) is Some
    &&& field_of(rec, "type"@) is Some
    &&& int_value(rec, "updated_on"@, i64::MIN as int, i64::MAX as int) is Some
    &&& int_value(rec, "is_active"@, i32::MIN as int, i32::MAX as int) is Some
    &&& field_of(rec, "title"@) is Some
    &&& int_value(rec, "creation_date"@, i64::MIN as int, i64::MAX as int) is Some
    &&& int_value(rec, "last_account_id"@, i32::MIN as int, i32::MAX as int) is Some
    &&& int_value(rec, "last_category_id"@, i32::MIN as int, i32::MAX as int) is Some
    &&& int_value(rec, "currency_id"@, i32::MIN as int, i32::MAX as int) is Some
    &&& int_value(rec, "closing_day"@, i64::MIN as int, i64::MAX as int) is Some
    &&& int_value(rec, "is_include_into_totals"@, i32::MIN as int, i32::MAX as int) is Some
}

/// Whether `x` holds the fields of the account record `rec`.
#[verifier::opaque]
pub open spec fn account_decodes(rec: Seq<(Seq<char>, Seq<char>)>, x: FinancistoAccount) -> bool {
    &&& Some(x.id as int) == int_value(rec, "_id"@, i32::MIN as int, i32::MAX as int)
    &&& opt_view(x.note) == field_of(rec, "note"@)
    &&& Some(x.total_limit as int) == int_value(rec, "total_limit"@, i32::MIN as int, i32::MAX as int)
    &&& Some(x.entity@) == field_of(rec, "entity"@)
    &&& Some(x.total_amount as int) == int_value(rec, "total_amount"@, i32::MIN as int, i32::MAX as int)
    &&& Some(x.last_transaction_date as int) == int_value(rec, "last_transaction_date"@, i64::MIN as int, i64::MAX as int)
    &&& Some(x.payment_day as int) == int_value(rec, "payment_day"@, i32::MIN as int, i32::MAX as int)
    &&& Some(x.sort_order as int) == int_value(rec, "sort_order"@, i32::MIN as int, i32::MAX as int)
    &&& Some(x.account_type@) == field_of(rec, "type"@)
    &&& Some(x.updated_on as int) == int_value(rec, "updated_on"@, i64::MIN as int, i64::MAX as int)
    &&& Some(x.is_active as int) == int_value(rec, "is_active"@, i32::MIN as int, i32::MAX as int)
    &&& opt_view(x.issuer) == field_of(rec, "issuer"@)
    &&& Some(x.title@) == field_of(rec, "title"@)
    &&& Some(x.creation_date as int) == int_value(rec, "creation_date"@, i64::MIN as int, i64::MAX as int)
    &&& Some(x.last_account_id as int) == int_value(rec, "last_account_id"@, i32::MIN as int, i32::MAX as int)
    &&& Some(x.last_category_id as int) == int_value(rec, "last_category_id"@, i32::MIN as int, i32::MAX as int)
    &&& Some(x.currency_id as int) == int_value(rec, "currency_id"@, i32::MIN as int, i32::MAX as int)
    &&& Some(x.closing_day as int) == int_value(rec, "closing_day"@, i64::MIN as int, i64::MAX as int)
    &&& opt_view(x.card_issuer) == field_of(rec, "card_issuer"@)
    &&& Some(x.is_include_into_totals as int) == int_value(rec, "is_include_into_totals"@, i32::MIN as int, i32::MAX as int)
}

/// Whether two accounts hold the same values.
pub open spec fn same_account(a: FinancistoAccount, b: FinancistoAccount) -> bool {
    &&& a.id == b.id
    &&& opt_view(a.note) == opt_view(b.note)
    &&& a.total_limit == b.total_limit
    &&& a.entity@ == b.entity@
    &&& a.total_amount == b.total_amount
    &&& a.last_transaction_date == b.last_transaction_date
    &&& a.payment_day == b.payment_day
    &&& a.sort_order == b.sort_order
    &&& a.account_type@ == b.account_type@
    &&& a.updated_on == b.updated_on
    &&& a.is_active == b.is_active
    &&& opt_view(a.issuer) == opt_view(b.issuer)
    &&& a.title@ == b.title@
    &&& a.creation_date == b.creation_date
    &&& a.last_account_id == b.last_account_id
    &&& a.last_category_id == b.last_category_id
    &&& a.currency_id == b.currency_id
    &&& a.closing_day == b.closing_day
    &&& opt_view(a.card_issuer) == opt_view(b.card_issuer)
    &&& a.is_include_into_totals == b.is_include_into_totals
}

/// Decoding is a function of the record: two accounts decoded from one record are equal.
pub proof fn lemma_account_decode_deterministic(rec: Seq<(Seq<char>, Seq<char>)>, a: FinancistoAccount, b: FinancistoAccount)
    requires
        account_decodes(rec, a),
        account_decodes(rec, b),
    ensures
        same_account(a, b),
{
    reveal(account_decodes);
}

impl FinancistoAccount {
    /// Decodes an account record; fails on the first required field that is
    /// absent or not a number of its type.
    pub fn from_record(rec: &Vec<(String, String)>) -> (r: Result<FinancistoAccount, MigrationError>)
        ensures
            r is Ok <==> account_fields_ok(record_view(rec@)),
            match r {
                Ok(x) => account_decodes(record_view(rec@), x),
                Err(e) => names_bad_field(record_view(rec@), e),
            },
    {
        reveal(account_fields_ok);
        reveal(account_decodes);
        let id = match int_field(rec, "account", "_id", i32::MIN as i64, i32::MAX as i64) {
            Ok(v) => v as i32,
            Err(e) => {
                return Err(e);
            },
        };
        let note = optional_field(rec, "note");
        let total_limit = match int_field(rec, "account", "total_limit", i32::MIN as i64, i32::MAX as i64) {
            Ok(v) => v as i32,
            Err(e) => {
                return Err(e);
            },
        };
        let entity = match text_field(rec, "account", "entity") {
            Ok(v) => v,
            Err(e) => {
                return Err(e);
            },
        };
        let total_amount = match int_field(rec, "account", "total_amount", i32::MIN as i64, i32::MAX as i64) {
            Ok(v) => v as i32,
            Err(e) => {
                return Err(e);
            },
        };
        let last_transaction_date = match int_field(rec, "account", "last_transaction_date", i64::MIN, i64::MAX) {
            Ok(v) => v as i64,
            Err(e) => {
                return Err(e);
            },
        };
        let payment_day = match int_field(rec, "account", "payment_day", i32::MIN as i64, i32::MAX as i64) {
            Ok(v) => v as i32,
            Err(e) => {
                return Err(e);
            },
        };
        let sort_order = match int_field(rec, "account", "sort_order", i32::MIN as i64, i32::MAX as i64) {
            Ok(v) => v as i32,
            Err(e) => {
                return Err(e);
            },
        };
        let account_type = match text_field(rec, "account", "type") {
            Ok(v) => v,
            Err(e) => {
                return Err(e);
            },
        };
        let updated_on = match int_field(rec, "account", "updated_on", i64::MIN, i64::MAX) {
            Ok(v) => v as i64,
            Err(e) => {
                return Err(e);
            },
        };
        let is_active = match int_field(rec, "account", "is_active", i32::MIN as i64, i32::MAX as i64) {
            Ok(v) => v as i32,
            Err(e) => {
                return Err(e);
            },
        };
        let issuer = optional_field(rec, "issuer");
        let title = match text_field(rec, "account", "title") {
            Ok(v) => v,
            Err(e) => {
                return Err(e);
            },
        };
        let creation_date = match int_field(rec, "account", "creation_date", i64::MIN, i64::MAX) {
            Ok(v) => v as i64,
            Err(e) => {
                return Err(e);
            },
        };
        let last_account_id = match int_field(rec, "account", "last_account_id", i32::MIN as i64, i32::MAX as i64) {
            Ok(v) => v as i32,
            Err(e) => {
                return Err(e);
            },
        };
        let last_category_id = match int_field(rec, "account", "last_category_id", i32::MIN as i64, i32::MAX as i64) {
            Ok(v) => v as i32,
            Err(e) => {
                return Err(e);
            },
        };
        let currency_id = match int_field(rec, "account", "currency_id", i32::MIN as i64, i32::MAX as i64) {
            Ok(v) => v as i32,
            Err(e) => {
                return Err(e);
            },
        };
        let closing_day = match int_field(rec, "account", "closing_day", i64::MIN, i64::MAX) {
            Ok(v) => v as i64,
            Err(e) => {
                return Err(e);
            },
        };
        let card_issuer = optional_field(rec, "card_issuer");
        let is_include_into_totals = match int_field(rec, "account", "is_include_into_totals", i32::MIN as i64, i32::MAX as i64) {
            Ok(v) => v as i32,
            Err(e) => {
                return Err(e);
            },
        };
        Ok(FinancistoAccount { id, note, total_limit, entity, total_amount, last_transaction_date, payment_day, sort_order, account_type, updated_on, is_active, issuer, title, creation_date, last_account_id, last_category_id, currency_id, closing_day, card_issuer, is_include_into_totals })
    }
}

/// Whether every required field of a category record is present and well formed.
#[verifier::opaque]
pub open spec fn category_fields_ok(rec: Seq<(Seq<char>, Seq<char>)>) -> bool {
    &&& int_value(rec, "type"@, i32::MIN as int, i32::MAX as int) is Some
    &&& int_value(rec, "_id"@, i32::MIN as int, i32::MAX as int) is Some
    &&& int_value(rec, "updated_on"@, i64::MIN as int, i64::MAX as int) is Some
    &&& int_value(rec, "right"@, i32::MIN as int, i32::MAX as int) is Some
    &&& int_value(rec, "left"@, i32::MIN as int, i32::MAX as int) is Some
    &&& int_value(rec, "last_location_id"@, i32::MIN as int, i32::MAX as int) is Some
    &&& int_value(rec, "is_active"@, i32::MIN as int, i32::MAX as int) is Some
    &&& field_of(rec, "title"@) is Some
    &&& int_value(rec, "last_project_id"@, i32::MIN as int, i32::MAX as int) is Some
    &&& field_of(rec, "entity"@) is Some
}

/// Whether `x` holds the fields of the category record `rec`.
#[verifier::opaque]
pub open spec fn category_decodes(rec: Seq<(Seq<char>, Seq<char>)>, x: FinancistoCategory) -> bool {
    &&& Some(x.category_type as int) == int_value(rec, "type"@, i32::MIN as int, i32::MAX as int)
    &&& Some(x.id as int) == int_value(rec, "_id"@, i32::MIN as int, i32::MAX as int)
    &&& Some(x.updated_on as int) == int_value(rec, "updated_on"@, i64::MIN as int, i64::MAX as int)
    &&& Some(x.right as int) == int_value(rec, "right"@, i32::MIN as int, i32::MAX as int)
    &&& Some(x.left as int) == int_value(rec, "left"@, i32::MIN as int, i32::MAX as int)
    &&& Some(x.last_location_id as int) == int_value(rec, "last_location_id"@, i32::MIN as int, i32::MAX as int)
    &&& Some(x.is_active as int) == int_value(rec, "is_active"@, i32::MIN as int, i32::MAX as int)
    &&& Some(x.title@) == field_of(rec, "title"@)
    &&& Some(x.last_project_id as int) == int_value(rec, "last_project_id"@, i32::MIN as int, i32::MAX as int)
    &&& Some(x.entity@) == field_of(rec, "entity"@)
}

/// Whether two categorys hold the same values.
pub open spec fn same_category(a: FinancistoCategory, b: FinancistoCategory) -> bool {
    &&& a.category_type == b.category_type
    &&& a.id == b.id
    &&& a.updated_on == b.updated_on
    &&& a.right == b.right
    &&& a.left == b.left
    &&& a.last_location_id == b.last_location_id
    &&& a.is_active == b.is_active
    &&& a.title@ == b.title@
    &&& a.last_project_id == b.last_project_id
    &&& a.entity@ == b.entity@
}

/// Decoding is a function of the record: two categorys decoded from one record are equal.
pub proof fn lemma_category_decode_deterministic(rec: Seq<(Seq<char>, Seq<char>)>, a: FinancistoCategory, b: FinancistoCategory)
    requires
        category_decodes(rec, a),
        category_decodes(rec, b),
    ensures
        same_category(a, b),
{
    reveal(category_decodes);
}

impl FinancistoCategory {
    /// Decodes a category record; fails on the first required field that is
    /// absent or not a number of its type.
    pub fn from_record(rec: &Vec<(String, String)>) -> (r: Result<FinancistoCategory, MigrationError>)
        ensures
            r is Ok <==> category_fields_ok(record_view(rec@)),
            match r {
                Ok(x) => category_decodes(record_view(rec@), x),
                Err(e) => names_bad_field(record_view(rec@), e),
            },
    {
        reveal(category_fields_ok);
        reveal(category_decodes);
        let category_type = match int_field(rec, "category", "type", i32::MIN as i64, i32::MAX as i64) {
            Ok(v) => v as i32,
            Err(e) => {
                return Err(e);
            },
        };
        let id = match int_field(rec, "category", "_id", i32::MIN as i64, i32::MAX as i64) {
            Ok(v) => v as i32,
            Err(e) => {
                return Err(e);
            },
        };
        let updated_on = match int_field(rec, "category", "updated_on", i64::MIN, i64::MAX) {
            Ok(v) => v as i64,
            Err(e) => {
                return Err(e);
            },
        };
        let right = match int_field(rec, "category", "right", i32::MIN as i64, i32::MAX as i64) {
            Ok(v) => v as i32,
            Err(e) => {
                return Err(e);
            },
        };
        let left = match int_field(rec, "category", "left", i32::MIN as i64, i32::MAX as i64) {
            Ok(v) => v as i32,
            Err(e) => {
                return Err(e);
            },
        };
        let last_location_id = match int_field(rec, "category", "last_location_id", i32::MIN as i64, i32::MAX as i64) {
            Ok(v) => v as i32,
            Err(e) => {
                return Err(e);
            },
        };
        let is_active = match int_field(rec, "category", "is_active", i32::MIN as i64, i32::MAX as i64) {
            Ok(v) => v as i32,
            Err(e) => {
                return Err(e);
            },
        };
        let title = match text_field(rec, "category", "title") {
            Ok(v) => v,
            Err(e) => {
                return Err(e);
            },
        };
        let last_project_id = match int_field(rec, "category", "last_project_id", i32::MIN as i64, i32::MAX as i64) {
            Ok(v) => v as i32,
            Err(e) => {
                return Err(e);
            },
        };
        let entity = match text_field(rec, "category", "entity") {
            Ok(v) => v,
            Err(e) => {
                return Err(e);
            },
        };
        Ok(FinancistoCategory { category_type, id, updated_on, right, left, last_location_id, is_active, title, last_project_id, entity })
    }
}

/// Whether every required field of a transactions record is present and well formed.
#[verifier::opaque]
pub open spec fn transaction_fields_ok(rec: Seq<(Seq<char>, Seq<char>)>) -> bool {
    &&& field_of(rec, "longitude"@) is Some
    &&& int_value(rec, "from_account_id"@, i32::MIN as int, i32::MAX as int) is Some
    &&& int_value(rec, "location_id"@, i32::MIN as int, i32::MAX as int) is Some
    &&& int_value(rec, "to_account_id"@, i32::MIN as int, i32::MAX as int) is Some
    &&& field_of(rec, "entity"@) is Some
    &&& int_value(rec, "datetime"@, i64::MIN as int, i64::MAX as int) is Some
    &&& int_value(rec, "project_id"@, i32::MIN as int, i32::MAX as int) is Some
    &&& field_of(rec, "latitude"@) is Some
    &&& field_of(rec, "accuracy"@) is Some
    &&& int_value(rec, "is_ccard_payment"@, i32::MIN as int, i32::MAX as int) is Some
    &&& int_value(rec, "payee_id"@, i32::MIN as int, i32::MAX as int) is Some
    &&& int_value(rec, "category_id"@, i32::MIN as int, i32::MAX as int) is Some
    &&& int_value(rec, "parent_id"@, i32::MIN as int, i32::MAX as int) is Some
    &&& int_value(rec, "to_amount"@, i64::MIN as int, i64::MAX as int) is Some
    &&& int_value(rec, "from_amount"@, i64::MIN as int, i64::MAX as int) is Some
    &&& int_value(rec, "original_currency_id"@, i32::MIN as int, i32::MAX as int) is Some
    &&& int_value(rec, "original_from_amount"@, i32::MIN as int, i32::MAX as int) is Some
    &&& int_value(rec, "last_recurrence"@, i64::MIN as int, i64::MAX as int) is Some
    &&& int_value(rec, "is_template"@, i32::MIN as int, i32::MAX as int) is Some
    &&& int_value(rec, "updated_on"@, i64::MIN as int, i64::MAX as int) is Some
    &&& int_value(rec, "_id"@, i32::MIN as int, i32::MAX as int) is Some
}

/// Whether `x` holds the fields of the transactions record `rec`.
#[verifier::opaque]
pub open spec fn transaction_decodes(rec: Seq<(Seq<char>, Seq<char>)>, x: FinancistoTransaction) -> bool {
    &&& Some(x.longitude@) == field_of(rec, "longitude"@)
    &&& Some(x.from_account_id as int) == int_value(rec, "from_account_id"@, i32::MIN as int, i32::MAX as int)
    &&& Some(x.location_id as int) == int_value(rec, "location_id"@, i32::MIN as int, i32::MAX as int)
    &&& opt_view(x.note) == field_of(rec, "note"@)
    &&& Some(x.to_account_id as int) == int_value(rec, "to_account_id"@, i32::MIN as int, i32::MAX as int)
    &&& Some(x.entity@) == field_of(rec, "entity"@)
    &&& Some(x.datetime as int) == int_value(rec, "datetime"@, i64::MIN as int, i64::MAX as int)
    &&& Some(x.project_id as int) == int_value(rec, "project_id"@, i32::MIN as int, i32::MAX as int)
    &&& opt_view(x.provider) == field_of(rec, "provider"@)
    &&& opt_view(x.template_name) == field_of(rec, "template_name"@)
    &&& Some(x.latitude@) == field_of(rec, "latitude"@)
    &&& Some(x.accuracy@) == field_of(rec, "accuracy"@)
    &&& opt_view(x.status) == field_of(rec, "v"@)
    &&& Some(x.is_ccard_payment as int) == int_value(rec, "is_ccard_payment"@, i32::MIN as int, i32::MAX as int)
    &&& Some(x.payee_id as int) == int_value(rec, "payee_id"@, i32::MIN as int, i32::MAX as int)
    &&& Some(x.category_id as int) == int_value(rec, "category_id"@, i32::MIN as int, i32::MAX as int)
    &&& Some(x.parent_id as int) == int_value(rec, "parent_id"@, i32::MIN as int, i32::MAX as int)
    &&& Some(x.to_amount as int) == int_value(rec, "to_amount"@, i64::MIN as int, i64::MAX as int)
    &&& Some(x.from_amount as int) == int_value(rec, "from_amount"@, i64::MIN as int, i64::MAX as int)
    &&& Some(x.original_currency_id as int) == int_value(rec, "original_currency_id"@, i32::MIN as int, i32::MAX as int)
    &&& Some(x.original_from_amount as int) == int_value(rec, "original_from_amount"@, i32::MIN as int, i32::MAX as int)
    &&& Some(x.last_recurrence as int) == int_value(rec, "last_recurrence"@, i64::MIN as int, i64::MAX as int)
    &&& Some(x.is_template as int) == int_value(rec, "is_template"@, i32::MIN as int, i32::MAX as int)
    &&& Some(x.updated_on as int) == int_value(rec, "updated_on"@, i64::MIN as int, i64::MAX as int)
    &&& Some(x.id as int) == int_value(rec, "_id"@, i32::MIN as int, i32::MAX as int)
}

/// Whether two transactions hold the same values.
pub open spec fn same_transaction(a: FinancistoTransaction, b: FinancistoTransaction) -> bool {
    &&& a.longitude@ == b.longitude@
    &&& a.from_account_id == b.from_account_id
    &&& a.location_id == b.location_id
    &&& opt_view(a.note) == opt_view(b.note)
    &&& a.to_account_id == b.to_account_id
    &&& a.entity@ == b.entity@
    &&& a.datetime == b.datetime
    &&& a.project_id == b.project_id
    &&& opt_view(a.provider) == opt_view(b.provider)
    &&& opt_view(a.template_name) == opt_view(b.template_name)
    &&& a.latitude@ == b.latitude@
    &&& a.accuracy@ == b.accuracy@
    &&& opt_view(a.status) == opt_view(b.status)
    &&& a.is_ccard_payment == b.is_ccard_payment
    &&& a.payee_id == b.payee_id
    &&& a.category_id == b.category_id
    &&& a.parent_id == b.parent_id
    &&& a.to_amount == b.to_amount
    &&& a.from_amount == b.from_amount
    &&& a.original_currency_id == b.original_currency_id
    &&& a.original_from_amount == b.original_from_amount
    &&& a.last_recurrence == b.last_recurrence
    &&& a.is_template == b.is_template
    &&& a.updated_on == b.updated_on
    &&& a.id == b.id
}

/// Decoding is a function of the record: two transactions decoded from one record are equal.
pub proof fn lemma_transaction_decode_deterministic(rec: Seq<(Seq<char>, Seq<char>)>, a: FinancistoTransaction, b: FinancistoTransaction)
    requires
        transaction_decodes(rec, a),
        transaction_decodes(rec, b),
    ensures
        same_transaction(a, b),
{
    reveal(transaction_decodes);
}

impl FinancistoTransaction {
    /// Decodes a transactions record; fails on the first required field that is
    /// absent or not a number of its type.
    pub fn from_record(rec: &Vec<(String, String)>) -> (r: Result<FinancistoTransaction, MigrationError>)
        ensures
            r is Ok <==> transaction_fields_ok(record_view(rec@)),
            match r {
                Ok(x) => transaction_decodes(record_view(rec@), x),
                Err(e) => names_bad_field(record_view(rec@), e),
            },
    {
        reveal(transaction_fields_ok);
        reveal(transaction_decodes);
        let longitude = match text_field(rec, "transactions", "longitude") {
            Ok(v) => v,
            Err(e) => {
                return Err(e);
            },
        };
        let from_account_id = match int_field(rec, "transactions", "from_account_id", i32::MIN as i64, i32::MAX as i64) {
            Ok(v) => v as i32,
            Err(e) => {
                return Err(e);
            },
        };
        let location_id = match int_field(rec, "transactions", "location_id", i32::MIN as i64, i32::MAX as i64) {
            Ok(v) => v as i32,
            Err(e) => {
                return Err(e);
            },
        };
        let note = optional_field(rec, "note");
        let to_account_id = match int_field(rec, "transactions", "to_account_id", i32::MIN as i64, i32::MAX as i64) {
            Ok(v) => v as i32,
            Err(e) => {
                return Err(e);
            },
        };
        let entity = match text_field(rec, "transactions", "entity") {
            Ok(v) => v,
            Err(e) => {
                return Err(e);
            },
        };
        let datetime = match int_field(rec, "transactions", "datetime", i64::MIN, i64::MAX) {
            Ok(v) => v as i64,
            Err(e) => {
                return Err(e);
            },
        };
        let project_id = match int_field(rec, "transactions", "project_id", i32::MIN as i64, i32::MAX as i64) {
            Ok(v) => v as i32,
            Err(e) => {
                return Err(e);
            },
        };
        let provider = optional_field(rec, "provider");
        let template_name = optional_field(rec, "template_name");
        let latitude = match text_field(rec, "transactions", "latitude") {
            Ok(v) => v,
            Err(e) => {
                return Err(e);
            },
        };
        let accuracy = match text_field(rec, "transactions", "accuracy") {
            Ok(v) => v,
            Err(e) => {
                return Err(e);
            },
        };
        let status = optional_field(rec, "v");
        let is_ccard_payment = match int_field(rec, "transactions", "is_ccard_payment", i32::MIN as i64, i32::MAX as i64) {
            Ok(v) => v as i32,
            Err(e) => {
                return Err(e);
            },
        };
        let payee_id = match int_field(rec, "transactions", "payee_id", i32::MIN as i64, i32::MAX as i64) {
            Ok(v) => v as i32,
            Err(e) => {
                return Err(e);
            },
        };
        let category_id = match int_field(rec, "transactions", "category_id", i32::MIN as i64, i32::MAX as i64) {
            Ok(v) => v as i32,
            Err(e) => {
                return Err(e);
            },
        };
        let parent_id = match int_field(rec, "transactions", "parent_id", i32::MIN as i64, i32::MAX as i64) {
            Ok(v) => v as i32,
            Err(e) => {
                return Err(e);
            },
        };
        let to_amount = match int_field(rec, "transactions", "to_amount", i64::MIN, i64::MAX) {
            Ok(v) => v as i64,
            Err(e) => {
                return Err(e);
            },
        };
        let from_amount = match int_field(rec, "transactions", "from_amount", i64::MIN, i64::MAX) {
            Ok(v) => v as i64,
            Err(e) => {
                return Err(e);
            },
        };
        let original_currency_id = match int_field(rec, "transactions", "original_currency_id", i32::MIN as i64, i32::MAX as i64) {
            Ok(v) => v as i32,
            Err(e) => {
                return Err(e);
            },
        };
        let original_from_amount = match int_field(rec, "transactions", "original_from_amount", i32::MIN as i64, i32::MAX as i64) {
            Ok(v) => v as i32,
            Err(e) => {
                return Err(e);
            },
        };
        let last_recurrence = match int_field(rec, "transactions", "last_recurrence", i64::MIN, i64::MAX) {
            Ok(v) => v as i64,
            Err(e) => {
                return Err(e);
            },
        };
        let is_template = match int_field(rec, "transactions", "is_template", i32::MIN as i64, i32::MAX as i64) {
            Ok(v) => v as i32,
            Err(e) => {
                return Err(e);
            },
        };
        let updated_on = match int_field(rec, "transactions", "updated_on", i64::MIN, i64::MAX) {
            Ok(v) => v as i64,
            Err(e) => {
                return Err(e);
            },
        };
        let id = match int_field(rec, "transactions", "_id", i32::MIN as i64, i32::MAX as i64) {
            Ok(v) => v as i32,
            Err(e) => {
                return Err(e);
            },
        };
        Ok(FinancistoTransaction { longitude, from_account_id, location_id, note, to_account_id, entity, datetime, project_id, provider, template_name, latitude, accuracy, status, is_ccard_payment, payee_id, category_id, parent_id, to_amount, from_amount, original_currency_id, original_from_amount, last_recurrence, is_template, updated_on, id })
    }
}
} // verus!
