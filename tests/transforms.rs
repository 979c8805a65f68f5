use financisto2bluecoins::accounts::{migrate_accounts, migrate_accounts_with_dates};
use financisto2bluecoins::categories::migrate_categories;
use financisto2bluecoins::error::MigrationError;
use financisto2bluecoins::model::{
    FinancistoAccount, FinancistoCategory, FinancistoCurrency, FinancistoTransaction,
};
use financisto2bluecoins::time::{EARLIEST_DATED_MILLIS, LATEST_DATED_MILLIS};
use financisto2bluecoins::transactions::{migrate_transactions, migrate_transactions_with_dates};

fn currency(id: i32, name: &str) -> FinancistoCurrency {
    FinancistoCurrency {
        id,
        decimal_separator: None,
        updated_on: 0,
        title: name.to_string(),
        entity: "currency".to_string(),
        decimals: 2,
        symbol: "$".to_string(),
        is_active: 1,
        name: name.to_string(),
        is_default: 1,
        symbol_format: "RS".to_string(),
        group_separator: None,
    }
}

fn account(id: i32, currency_id: i32, kind: &str, title: &str) -> FinancistoAccount {
    FinancistoAccount {
        id,
        note: None,
        total_limit: 0,
        entity: "account".to_string(),
        total_amount: 0,
        last_transaction_date: 0,
        payment_day: 0,
        sort_order: 0,
        account_type: kind.to_string(),
        updated_on: 0,
        is_active: 1,
        issuer: None,
        title: title.to_string(),
        creation_date: 1_600_000_000_000,
        last_account_id: 0,
        last_category_id: 0,
        currency_id,
        closing_day: 0,
        card_issuer: None,
        is_include_into_totals: 1,
    }
}

fn category(id: i32, title: &str, left: i32, right: i32) -> FinancistoCategory {
    FinancistoCategory {
        category_type: 0,
        id,
        updated_on: 0,
        right,
        left,
        last_location_id: 0,
        is_active: 1,
        title: title.to_string(),
        last_project_id: 0,
        entity: "category".to_string(),
    }
}

#[allow(clippy::too_many_arguments)]
fn tx(
    id: i32,
    parent_id: i32,
    from_account_id: i32,
    to_account_id: i32,
    from_amount: i64,
    to_amount: i64,
    note: Option<&str>,
    datetime: i64,
) -> FinancistoTransaction {
    FinancistoTransaction {
        longitude: "0.0".to_string(),
        from_account_id,
        location_id: 0,
        note: note.map(|n| n.to_string()),
        to_account_id,
        entity: "transactions".to_string(),
        datetime,
        project_id: 0,
        provider: None,
        template_name: None,
        latitude: "0.0".to_string(),
        accuracy: "0.0".to_string(),
        status: None,
        is_ccard_payment: 0,
        payee_id: 0,
        category_id: 7,
        parent_id,
        to_amount,
        from_amount,
        original_currency_id: 1,
        original_from_amount: 0,
        last_recurrence: 0,
        is_template: 0,
        updated_on: 0,
        id,
    }
}

fn dates(n: usize) -> Vec<String> {
    (0..n).map(|_| "2022-12-02 21:09:02".to_string()).collect()
}

/// The quoted values of an INSERT statement, in order.
fn values(stmt: &str) -> Vec<String> {
    let start = stmt.find("VALUES (").unwrap() + "VALUES (".len();
    let body = &stmt[start..stmt.len() - 2];
    body.split(", ").map(|v| v.trim_matches('\'').to_string()).collect()
}

fn rows(stmts: &[String]) -> Vec<Vec<String>> {
    stmts
        .iter()
        .filter(|s| s.starts_with("INSERT INTO \"TRANSACTIONSTABLE\""))
        .map(|s| values(s))
        .collect()
}

// Positions of the values of a transactions row.
const KEY: usize = 0;
const ITEM: usize = 1;
const AMOUNT: usize = 2;
const CURRENCY: usize = 3;
const DATE: usize = 5;
const TYPE: usize = 6;
const ACCOUNT: usize = 8;
const NOTES: usize = 9;
const UID_PAIR: usize = 13;
const SPLIT_GROUP: usize = 15;
const TRANSFER_GROUP: usize = 16;

#[test]
fn account_scenario() {
    let out = migrate_accounts(&vec![account(1, 1, "BANK", "Checking")], &vec![currency(1, "USD")]).unwrap();
    assert_eq!(out.len(), 3);
    assert!(out[0].starts_with("INSERT INTO \"ACCOUNTSTABLE\""));
    assert_eq!(values(&out[0])[..5], ["1", "Checking", "3", "0", "USD"]);
    assert_eq!(out[1], "INSERT INTO \"ITEMTABLE\" (\"itemTableID\", \"itemName\", \"itemAutoFillVisibility\") VALUES ('5', 'Checking', '0');");
    let init = values(&out[2]);
    assert_eq!(init[KEY], "1");
    assert_eq!(init[ITEM], "5");
    assert_eq!(init[AMOUNT], "0");
    assert_eq!(init[CURRENCY], "USD");
    assert_eq!(init[ACCOUNT], "1");
    assert_eq!(init[UID_PAIR], "1600000000000");
}

#[test]
fn account_date_is_local_time_text() {
    let mut a = account(2, 1, "CASH", "Wallet");
    a.creation_date = 0;
    let out = migrate_accounts(&vec![a], &vec![currency(1, "USD")]).unwrap();
    let date = &values(&out[2])[DATE];
    assert_eq!(date.len(), 19);
    assert!(date.starts_with("1970-01-01") || date.starts_with("1969-12-31"));
}

#[test]
fn account_types_and_escaping() {
    let accounts = vec![account(1, 1, "CREDIT_CARD", "Bob's card"), account(2, 1, "SAFE", "Box")];
    let out = migrate_accounts_with_dates(&accounts, &vec![currency(1, "TWD")], &dates(2));
    assert_eq!(out.len(), 6);
    assert!(out[0].contains("'Bob''s card', '8', '0', 'TWD'"));
    assert!(out[1].contains("VALUES ('5', 'Bob''s card', '0')"));
    assert!(out[3].contains("'Box', '', '0', 'TWD'"));
    assert!(out[4].contains("VALUES ('6', 'Box', '0')"));
}

#[test]
fn account_with_unknown_currency_fails() {
    let r = migrate_accounts(&vec![account(4, 9, "BANK", "X")], &vec![currency(1, "USD")]);
    assert_eq!(r, Err(MigrationError::UnknownCurrency { account_id: 4, currency_id: 9 }));
}

#[test]
fn too_many_accounts_fail() {
    let accounts: Vec<FinancistoAccount> = (0..37).map(|i| account(i, 1, "BANK", "A")).collect();
    assert_eq!(migrate_accounts(&accounts, &vec![currency(1, "USD")]), Err(MigrationError::ValueOutOfRange));
}

#[test]
fn simple_income_scenario() {
    let out = migrate_transactions_with_dates(&vec![tx(10, 0, 1, 0, 500, 0, None, 1000)], &vec![], &dates(1));
    assert_eq!(out.len(), 1);
    let r = values(&out[0]);
    assert_eq!(r[AMOUNT], "5000000");
    assert_eq!(r[ITEM], "3");
    assert_eq!(r[TYPE], "4");
    assert_eq!(r[CURRENCY], "TWD");
    assert_eq!(r[KEY], "1000");
    assert_eq!(r[UID_PAIR], "1000");
}

#[test]
fn unnamed_expense_uses_expense_item() {
    let out = migrate_transactions_with_dates(&vec![tx(10, 0, 1, 0, -250, 0, None, 1000)], &vec![], &dates(1));
    let r = values(&out[0]);
    assert_eq!(r[ITEM], "2");
    assert_eq!(r[TYPE], "3");
    assert_eq!(r[AMOUNT], "-2500000");
}

#[test]
fn transfer_scenario() {
    let out = migrate_transactions_with_dates(
        &vec![tx(11, 0, 1, 2, -1000, 1000, None, 5000)],
        &vec![currency(1, "USD")],
        &dates(1),
    );
    assert_eq!(out.len(), 3);
    assert!(out[0].contains("VALUES ('41', '轉帳', '0')"));
    let rs = rows(&out);
    assert_eq!(rs.len(), 2);
    assert_eq!(rs[0][AMOUNT], "-10000000");
    assert_eq!(rs[1][AMOUNT], "10000000");
    assert_eq!(rs[0][UID_PAIR], rs[1][KEY]);
    assert_eq!(rs[1][UID_PAIR], rs[0][KEY]);
    assert_eq!(rs[0][TRANSFER_GROUP], "5000");
    assert_eq!(rs[1][TRANSFER_GROUP], "5000");
    assert_eq!(rs[0][ACCOUNT], "1");
    assert_eq!(rs[1][ACCOUNT], "2");
    assert_eq!(rs[0][CURRENCY], "USD");
}

#[test]
fn split_children_in_time_order() {
    let txs = vec![
        tx(20, 0, 1, 0, -300, 0, Some("groceries"), 9000),
        tx(21, 20, 1, 0, -100, 0, Some("milk"), 9300),
        tx(22, 20, 1, 0, -200, 0, None, 9100),
    ];
    let out = migrate_transactions_with_dates(&txs, &vec![], &dates(3));
    let rs = rows(&out);
    assert_eq!(rs.len(), 2);
    assert_eq!(rs[0][AMOUNT], "-2000000");
    assert_eq!(rs[1][AMOUNT], "-1000000");
    assert_eq!(rs[0][NOTES], "");
    assert_eq!(rs[1][NOTES], "milk");
    assert_eq!(rs[0][SPLIT_GROUP], "9000");
    assert_eq!(rs[1][SPLIT_GROUP], "9000");
    assert_eq!(rs[0][KEY], "9001");
    assert_eq!(rs[1][KEY], "9002");
    assert_eq!(rs[0][ITEM], "41");
    assert_eq!(rs[1][ITEM], "41");
    assert_eq!(out.len(), 3);
    assert!(out[0].contains("VALUES ('41', 'groceries', '0')"));
}

#[test]
fn colliding_keys_are_bumped() {
    let txs = vec![
        tx(1, 0, 1, 0, 100, 0, None, 7000),
        tx(2, 0, 1, 0, 100, 0, None, 7000),
        tx(3, 0, 1, 0, 100, 0, None, 7000),
    ];
    let out = migrate_transactions_with_dates(&txs, &vec![], &dates(3));
    let keys: Vec<String> = rows(&out).iter().map(|r| r[KEY].clone()).collect();
    assert_eq!(keys, ["7000", "7001", "7002"]);
}

#[test]
fn same_note_same_item() {
    let txs = vec![
        tx(1, 0, 1, 0, -100, 0, Some("lunch"), 1),
        tx(2, 0, 1, 0, -150, 0, Some("coffee"), 2),
        tx(3, 0, 1, 0, -120, 0, Some("lunch"), 3),
    ];
    let out = migrate_transactions_with_dates(&txs, &vec![], &dates(3));
    let rs = rows(&out);
    assert_eq!(rs[0][ITEM], "41");
    assert_eq!(rs[1][ITEM], "42");
    assert_eq!(rs[2][ITEM], "41");
    assert_eq!(out.len(), 5);
}

#[test]
fn lottery_tickets_share_one_item() {
    let txs = vec![
        tx(1, 0, 33, 0, -50, 0, Some("12345"), 1),
        tx(2, 0, 33, 0, -50, 0, Some("67890"), 2),
    ];
    let out = migrate_transactions_with_dates(&txs, &vec![], &dates(2));
    assert_eq!(out.len(), 3);
    assert!(out[0].contains("VALUES ('41', '運動彩券', '0')"));
    let rs = rows(&out);
    assert_eq!(rs[0][ITEM], "41");
    assert_eq!(rs[1][ITEM], "41");
    assert_eq!(rs[0][NOTES], "12345");
    assert_eq!(rs[1][NOTES], "67890");
}

#[test]
fn transactions_out_of_range_fail() {
    let r = migrate_transactions(&vec![tx(1, 0, 1, 0, i64::MAX, 0, None, 1)], &vec![]);
    assert_eq!(r, Err(MigrationError::ValueOutOfRange));
}

#[test]
fn timestamp_without_local_time_fails() {
    let t: i64 = 1 << 59;
    let r = migrate_transactions(&vec![tx(1, 0, 1, 0, 1, 0, None, t)], &vec![]);
    assert_eq!(r, Err(MigrationError::TimeOutOfRange { millis: t }));
}

#[test]
fn transactions_with_local_dates() {
    let out = migrate_transactions(&vec![tx(1, 0, 1, 0, 1, 0, None, 0)], &vec![]).unwrap();
    let date = &values(&out[0])[DATE];
    assert!(date.starts_with("1970-01-01") || date.starts_with("1969-12-31"));
}

#[test]
fn categories_flatten_to_two_levels() {
    let cats = vec![
        category(1, "收入", 1, 4),
        category(2, "Salary", 2, 3),
        category(3, "Food", 5, 10),
        category(4, "Lunch", 6, 7),
        category(5, "Dinner", 8, 9),
        category(6, "Misc", 11, 12),
    ];
    let out = migrate_categories(&cats).unwrap();
    assert_eq!(out.len(), 9);
    assert!(out[0].starts_with("INSERT INTO \"PARENTCATEGORYTABLE\""));
    assert_eq!(values(&out[0])[..3], ["1", "收入", "2"]);
    assert_eq!(values(&out[1])[..3], ["1", "收入", "1"]);
    assert_eq!(values(&out[2])[..3], ["3", "Food", "3"]);
    assert_eq!(values(&out[4])[..3], ["6", "Misc", "3"]);
    assert_eq!(values(&out[6])[..3], ["2", "Salary", "1"]);
    assert_eq!(values(&out[7])[..3], ["4", "Lunch", "3"]);
    assert_eq!(values(&out[8])[..3], ["5", "Dinner", "3"]);
    for c in &cats {
        let n = out
            .iter()
            .filter(|s| s.starts_with("INSERT INTO \"CHILDCATEGORYTABLE\"") && values(s)[0] == c.id.to_string())
            .count();
        assert_eq!(n, 1);
    }
}

#[test]
fn empty_inputs_give_no_statements() {
    assert!(migrate_categories(&vec![]).unwrap().is_empty());
    assert!(migrate_accounts(&vec![], &vec![]).unwrap().is_empty());
    assert!(migrate_transactions(&vec![], &vec![]).unwrap().is_empty());
}

#[test]
fn dated_range_edges_for_accounts() {
    let usd = vec![currency(1, "USD")];
    for t in [EARLIEST_DATED_MILLIS, LATEST_DATED_MILLIS] {
        let mut a = account(1, 1, "BANK", "A");
        a.creation_date = t;
        assert_eq!(migrate_accounts(&vec![a], &usd).unwrap().len(), 3);
    }
    for t in [EARLIEST_DATED_MILLIS - 1, LATEST_DATED_MILLIS + 1] {
        let mut a = account(1, 1, "BANK", "A");
        a.creation_date = t;
        assert_eq!(migrate_accounts(&vec![a], &usd), Err(MigrationError::TimeOutOfRange { millis: t }));
    }
}

#[test]
fn dated_range_edges_for_transactions() {
    for t in [EARLIEST_DATED_MILLIS, LATEST_DATED_MILLIS] {
        assert_eq!(migrate_transactions(&vec![tx(1, 0, 1, 0, 1, 0, None, t)], &vec![]).unwrap().len(), 1);
    }
    for t in [EARLIEST_DATED_MILLIS - 1, LATEST_DATED_MILLIS + 1] {
        let r = migrate_transactions(&vec![tx(1, 0, 1, 0, 1, 0, None, 1), tx(2, 0, 1, 0, 1, 0, None, t)], &vec![]);
        assert_eq!(r, Err(MigrationError::TimeOutOfRange { millis: t }));
    }
}

#[test]
fn unknown_currency_comes_before_the_date() {
    let mut bad = account(7, 9, "BANK", "X");
    bad.creation_date = LATEST_DATED_MILLIS + 1;
    let r = migrate_accounts(&vec![account(1, 1, "CASH", "A"), bad], &vec![currency(1, "USD")]);
    assert_eq!(r, Err(MigrationError::UnknownCurrency { account_id: 7, currency_id: 9 }));
}

#[test]
fn id_zero_is_never_a_split_parent() {
    let txs = vec![tx(0, 0, 1, 0, 100, 0, None, 100), tx(5, 0, 1, 0, 200, 0, None, 200)];
    let rs = rows(&migrate_transactions_with_dates(&txs, &vec![], &dates(2)));
    assert_eq!(rs.len(), 2);
    assert_eq!(rs[0][AMOUNT], "1000000");
    assert_eq!(rs[0][SPLIT_GROUP], "0");
    assert_eq!(rs[1][AMOUNT], "2000000");
}

#[test]
fn split_group_holds_only_its_children() {
    let txs = vec![
        tx(30, 0, 1, 0, -500, 0, Some("trip"), 4000),
        tx(31, 30, 1, 0, -200, 0, None, 4002),
        tx(32, 0, 1, 0, -100, 0, None, 4001),
        tx(33, 30, 1, 0, -300, 0, None, 4001),
        tx(40, 0, 1, 0, -900, 0, Some("party"), 4000),
        tx(41, 40, 1, 0, -900, 0, None, 4005),
        tx(50, 0, 1, 2, -10, 10, None, 4000),
    ];
    let rs = rows(&migrate_transactions_with_dates(&txs, &vec![], &dates(7)));
    let in_group = |g: &str| rs.iter().filter(|r| r[SPLIT_GROUP] == g).count();
    assert_eq!(in_group("4000"), 2);
    assert_eq!(in_group("4001"), 1);
    assert_eq!(rs.len(), 2 + 1 + 1 + 2);
}
