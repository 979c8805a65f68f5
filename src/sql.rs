//! The text of the SQL statements of the Bluecoins schema.
use vstd::prelude::*;

use crate::text::{append_escaped, append_int, escaped, int_text};

verus! {

/// The separator between two quoted values of a row.
pub const SEP: &'static str = "', '";

/// The start of a row of the transactions table, up to its first value.
pub const TRANSACTION_HEAD: &'static str = "INSERT INTO \"TRANSACTIONSTABLE\" (\"transactionsTableID\", \"itemID\", \"amount\", \"transactionCurrency\", \"conversionRateNew\", \"date\", \"transactionTypeID\", \"categoryID\", \"accountID\", \"notes\", \"status\", \"accountReference\", \"accountPairID\", \"uidPairID\", \"deletedTransaction\", \"newSplitTransactionID\", \"transferGroupID\", \"reminderTransaction\", \"reminderGroupID\", \"reminderFrequency\", \"reminderRepeatEvery\", \"reminderEndingType\", \"reminderStartDate\", \"reminderEndDate\", \"reminderAfterNoOfOccurences\", \"reminderAutomaticLogTransaction\", \"reminderRepeatByDayOfMonth\", \"reminderExcludeWeekend\", \"reminderWeekDayMoveSetting\", \"reminderUnbilled\", \"creditCardInstallment\", \"reminderVersion\", \"dataExtraColumnString1\") VALUES ('";

/// The end of a row of the transactions table, after its last value.
pub const TRANSACTION_TAIL: &'static str = "', NULL, NULL, NULL, NULL, NULL, NULL, NULL, NULL, NULL, NULL, NULL, NULL, NULL, NULL, NULL, NULL);";

/// The start of a row of the accounts table.
pub const ACCOUNT_HEAD: &'static str = "INSERT INTO \"ACCOUNTSTABLE\" (\"accountsTableID\", \"accountName\", \"accountTypeID\", \"accountHidden\", \"accountCurrency\", \"accountConversionRateNew\", \"currencyChanged\", \"creditLimit\", \"cutOffDa\", \"creditCardDueDate\", \"cashBasedAccounts\", \"accountSelectorVisibility\", \"accountsExtraColumnInt1\", \"accountsExtraColumnInt2\", \"accountsExtraColumnString1\", \"accountsExtraColumnString2\") VALUES ('";

/// The end of a row of the accounts table, after the currency.
pub const ACCOUNT_TAIL: &'static str = "', '1.0', NULL, '0', '0', '0', '0', '0', NULL, NULL, NULL, NULL);";

/// The start of a row of the items table.
pub const ITEM_HEAD: &'static str = "INSERT INTO \"ITEMTABLE\" (\"itemTableID\", \"itemName\", \"itemAutoFillVisibility\") VALUES ('";

/// The end of a row of the items table, after the name.
pub const ITEM_TAIL: &'static str = "', '0');";

/// The start of a row of the parent category table.
pub const PARENT_CATEGORY_HEAD: &'static str = "INSERT INTO \"PARENTCATEGORYTABLE\" (\"parentCategoryTableID\", \"parentCategoryName\", \"categoryGroupID\", \"budgetAmountCategoryParent\", \"budgetCustomSetupParent\", \"budgetPeriodCategoryParent\", \"budgetEnabledCategoryParent\", \"categoryParentExtraColumnInt1\", \"categoryParentExtraColumnInt2\", \"categoryParentExtraColumnString1\", \"categoryParentExtraColumnString2\") VALUES ('";

/// The end of a row of the parent category table, after the group.
pub const PARENT_CATEGORY_TAIL: &'static str = "', NULL, NULL, NULL, '1', NULL, NULL, NULL, NULL);";

/// The start of a row of the child category table.
pub const CHILD_CATEGORY_HEAD: &'static str = "INSERT INTO \"CHILDCATEGORYTABLE\" (\"categoryTableID\", \"childCategoryName\", \"parentCategoryID\", \"budgetAmount\", \"budgetCustomSetup\", \"budgetPeriod\", \"budgetEnabledCategoryChild\", \"childCategoryIcon\", \"categorySelectorVisibility\", \"categoryExtraColumnInt1\", \"categoryExtraColumnInt2\", \"categoryExtraColumnString1\", \"categoryExtraColumnString2\") VALUES ('";

/// The end of a row of the child category table, after the parent.
pub const CHILD_CATEGORY_TAIL: &'static str = "', '0', NULL, '3', '1', NULL, '0', NULL, NULL, NULL, NULL);";

/// The values of one row of the transactions table.
pub struct TxRow {
    pub key: int,
    pub item: int,
    pub amount: int,
    pub currency: Seq<char>,
    pub date: Seq<char>,
    pub type_id: int,
    pub category: int,
    pub account: int,
    pub notes: Seq<char>,
    pub status: int,
    pub account_ref: int,
    pub pair_account: int,
    pub uid_pair: int,
    pub split_group: int,
    pub transfer_group: int,
}

/// One row of the transactions table, as the program holds it.
pub struct TransactionRow {
    pub key: i64,
    pub item: i64,
    pub amount: i64,
    pub currency: String,
    pub date: String,
    pub type_id: i64,
    pub category: i64,
    pub account: i64,
    pub notes: String,
    pub status: i64,
    pub account_ref: i64,
    pub pair_account: i64,
    pub uid_pair: i64,
    pub split_group: i64,
    pub transfer_group: i64,
}

impl View for TransactionRow {
    type V = TxRow;

    open spec fn view(&self) -> TxRow {
        TxRow {
            key: self.key as int,
            item: self.item as int,
            amount: self.amount as int,
            currency: self.currency@,
            date: self.date@,
            type_id: self.type_id as int,
            category: self.category as int,
            account: self.account as int,
            notes: self.notes@,
            status: self.status as int,
            account_ref: self.account_ref as int,
            pair_account: self.pair_account as int,
            uid_pair: self.uid_pair as int,
            split_group: self.split_group as int,
            transfer_group: self.transfer_group as int,
        }
    }
}

/// The statement that inserts a row into the transactions table.
#[verifier::opaque]
pub open spec fn transaction_text(r: TxRow) -> Seq<char> {
    TRANSACTION_HEAD@ + int_text(r.key) + SEP@ + int_text(r.item) + SEP@ + int_text(r.amount)
        + SEP@ + r.currency + SEP@ + int_text(1) + SEP@ + r.date + SEP@ + int_text(r.type_id)
        + SEP@ + int_text(r.category) + SEP@ + int_text(r.account) + SEP@ + r.notes + SEP@
        + int_text(r.status) + SEP@ + int_text(r.account_ref) + SEP@ + int_text(r.pair_account)
        + SEP@ + int_text(r.uid_pair) + SEP@ + int_text(6) + SEP@ + int_text(r.split_group)
        + SEP@ + int_text(r.transfer_group) + TRANSACTION_TAIL@
}

/// The statement that inserts `row` into the transactions table.
pub fn transaction_sql(row: &TransactionRow) -> (r: String)
    ensures
        r@ == transaction_text(row@),
{
    reveal(transaction_text);
    let mut s = String::from_str(TRANSACTION_HEAD);
    append_int(&mut s, row.key);
    s.append(SEP);
    append_int(&mut s, row.item);
    s.append(SEP);
    append_int(&mut s, row.amount);
    s.append(SEP);
    s.append(row.currency.as_str());
    s.append(SEP);
    append_int(&mut s, 1);
    s.append(SEP);
    s.append(row.date.as_str());
    s.append(SEP);
    append_int(&mut s, row.type_id);
    s.append(SEP);
    append_int(&mut s, row.category);
    s.append(SEP);
    append_int(&mut s, row.account);
    s.append(SEP);
    s.append(row.notes.as_str());
    s.append(SEP);
    append_int(&mut s, row.status);
    s.append(SEP);
    append_int(&mut s, row.account_ref);
    s.append(SEP);
    append_int(&mut s, row.pair_account);
    s.append(SEP);
    append_int(&mut s, row.uid_pair);
    s.append(SEP);
    append_int(&mut s, 6);
    s.append(SEP);
    append_int(&mut s, row.split_group);
    s.append(SEP);
    append_int(&mut s, row.transfer_group);
    s.append(TRANSACTION_TAIL);
    s
}

/// The statement that inserts an item with the given id and name.
#[verifier::opaque]
pub open spec fn item_text(id: int, name: Seq<char>) -> Seq<char> {
    ITEM_HEAD@ + int_text(id) + SEP@ + escaped(name) + ITEM_TAIL@
}

/// The statement that inserts an item with the given id and name.
pub fn item_sql(id: i64, name: &str) -> (r: String)
    ensures
        r@ == item_text(id as int, name@),
{
    reveal(item_text);
    let mut s = String::from_str(ITEM_HEAD);
    append_int(&mut s, id);
    s.append(SEP);
    append_escaped(&mut s, name);
    s.append(ITEM_TAIL);
    s
}

/// The statement that inserts an account.
#[verifier::opaque]
pub open spec fn account_text(id: int, title: Seq<char>, type_code: Seq<char>, currency: Seq<char>) -> Seq<char> {
    ACCOUNT_HEAD@ + int_text(id) + SEP@ + escaped(title) + SEP@ + type_code + SEP@ + int_text(0)
        + SEP@ + currency + ACCOUNT_TAIL@
}

/// The statement that inserts an account.
pub fn account_sql(id: i64, title: &str, type_code: &str, currency: &str) -> (r: String)
    ensures
        r@ == account_text(id as int, title@, type_code@, currency@),
{
    reveal(account_text);
    let mut s = String::from_str(ACCOUNT_HEAD);
    append_int(&mut s, id);
    s.append(SEP);
    append_escaped(&mut s, title);
    s.append(SEP);
    s.append(type_code);
    s.append(SEP);
    append_int(&mut s, 0);
    s.append(SEP);
    s.append(currency);
    s.append(ACCOUNT_TAIL);
    s
}

/// The statement that inserts a parent category.
#[verifier::opaque]
pub open spec fn parent_category_text(id: int, title: Seq<char>, group: Seq<char>) -> Seq<char> {
    PARENT_CATEGORY_HEAD@ + int_text(id) + SEP@ + title + SEP@ + group + PARENT_CATEGORY_TAIL@
}

/// The statement that inserts a parent category.
pub fn parent_category_sql(id: i64, title: &str, group: &str) -> (r: String)
    ensures
        r@ == parent_category_text(id as int, title@, group@),
{
    reveal(parent_category_text);
    let mut s = String::from_str(PARENT_CATEGORY_HEAD);
    append_int(&mut s, id);
    s.append(SEP);
    s.append(title);
    s.append(SEP);
    s.append(group);
    s.append(PARENT_CATEGORY_TAIL);
    s
}

/// The statement that inserts a child category under `parent`.
#[verifier::opaque]
pub open spec fn child_category_text(id: int, title: Seq<char>, parent: int) -> Seq<char> {
    CHILD_CATEGORY_HEAD@ + int_text(id) + SEP@ + title + SEP@ + int_text(parent) + CHILD_CATEGORY_TAIL@
}

/// The statement that inserts a child category under `parent`.
pub fn child_category_sql(id: i64, title: &str, parent: i64) -> (r: String)
    ensures
        r@ == child_category_text(id as int, title@, parent as int),
{
    reveal(child_category_text);
    let mut s = String::from_str(CHILD_CATEGORY_HEAD);
    append_int(&mut s, id);
    s.append(SEP);
    s.append(title);
    s.append(SEP);
    append_int(&mut s, parent);
    s.append(CHILD_CATEGORY_TAIL);
    s
}

} // verus!
