//! The transaction transform: every source transaction becomes rows of the
//! Bluecoins transactions table, with items created on first use of a label
//! and primary keys taken from timestamps.
use vstd::prelude::*;

use crate::error::MigrationError;
use crate::model::{currency_name_of, find_currency_name, FinancistoCurrency, FinancistoTransaction};
use crate::sql::{item_sql, item_text, transaction_sql, transaction_text, TransactionRow, TxRow};
use crate::text::decimal_in;
use crate::time::{dated, local_date_text};

verus! {

/// The item id that the transaction-side item sequence starts after; the
/// ids below it are reserved for accounts and the fixed items.
pub const LAST_RESERVED_ITEM: i64 = 40;

/// The fixed item of a transaction without note and with an amount of at least zero.
pub const UNNAMED_INCOME_ITEM: i64 = 3;

/// The fixed item of a transaction without note and with a negative amount.
pub const UNNAMED_EXPENSE_ITEM: i64 = 2;

/// The account whose purely numeric notes are lottery ticket numbers.
pub const LOTTERY_ACCOUNT_ID: i32 = 33;

/// The item label of lottery tickets.
pub const LOTTERY_LABEL: &'static str = "運動彩券";

/// The item label of transfers.
pub const TRANSFER_LABEL: &'static str = "轉帳";

/// The currency code used when a transaction's currency is unknown.
pub const DEFAULT_CURRENCY: &'static str = "TWD";

/// Source amounts carry two decimal digits, target amounts six.
pub const AMOUNT_SCALE: i64 = 10000;

/// The largest number of transactions one run takes.
pub const MAX_TRANSACTIONS: usize = 16777216;

/// The largest magnitude of a timestamp, in milliseconds.
pub const MAX_TIME: i64 = 1152921504606846976;

/// The largest magnitude of a source amount whose rescaled value fits in 64 bits.
pub const MAX_AMOUNT: i64 = 922337203685477;

/// One statement of the transaction transform.
pub enum Statement {
    Item { id: int, name: Seq<char> },
    Row(TxRow),
}

/// The text of a statement.
pub open spec fn statement_text(s: Statement) -> Seq<char> {
    match s {
        Statement::Item { id, name } => item_text(id, name),
        Statement::Row(r) => transaction_text(r),
    }
}

/// The texts of a sequence of statements.
pub open spec fn statement_texts(s: Seq<Statement>) -> Seq<Seq<char>> {
    s.map_values(|x: Statement| statement_text(x))
}

/// The texts of a sequence of strings.
pub open spec fn texts(v: Seq<String>) -> Seq<Seq<char>> {
    v.map_values(|x: String| x@)
}

/// What a transform run carries from one transaction to the next.
pub struct RunState {
    /// The labels with an item so far, each with its item id, in order of creation.
    pub items: Seq<(Seq<char>, int)>,
    pub last_item_id: int,
    /// The next bump of a colliding key.
    pub seq: int,
    /// The primary keys taken so far.
    pub used: Seq<int>,
}

pub open spec fn initial_run() -> RunState {
    RunState { items: Seq::empty(), last_item_id: LAST_RESERVED_ITEM as int, seq: 1, used: Seq::empty() }
}

/// The item id of `label`, if it has one.
pub open spec fn find_label(items: Seq<(Seq<char>, int)>, label: Seq<char>) -> Option<int>
    decreases items.len(),
{
    if items.len() == 0 {
        None
    } else if items.last().0 == label {
        Some(items.last().1)
    } else {
        find_label(items.drop_last(), label)
    }
}

/// The item of `label`: the one it has, or a new one with the next id,
/// announced by an item statement.
pub open spec fn claim_label(st: RunState, label: Seq<char>) -> (RunState, Seq<Statement>, int) {
    match find_label(st.items, label) {
        Some(id) => (st, Seq::empty(), id),
        None => {
            let id = st.last_item_id + 1;
            (
                RunState { items: st.items.push((label, id)), last_item_id: id, seq: st.seq, used: st.used },
                seq![Statement::Item { id, name: label }],
                id,
            )
        },
    }
}

/// The item and the notes of an income or expense transaction.
pub open spec fn note_item(st: RunState, tx: FinancistoTransaction) -> (RunState, Seq<Statement>, int, Seq<char>) {
    match tx.note {
        None => (
            st,
            Seq::empty(),
            if tx.from_amount >= 0 { UNNAMED_INCOME_ITEM as int } else { UNNAMED_EXPENSE_ITEM as int },
            Seq::empty(),
        ),
        Some(n) => match find_label(st.items, n@) {
            Some(id) => (st, Seq::empty(), id, Seq::empty()),
            None => if tx.from_account_id == LOTTERY_ACCOUNT_ID
                && decimal_in(n@, i32::MIN as int, i32::MAX as int) is Some {
                let c = claim_label(st, LOTTERY_LABEL@);
                (c.0, c.1, c.2, n@)
            } else {
                let c = claim_label(st, n@);
                (c.0, c.1, c.2, Seq::empty())
            },
        },
    }
}

/// The primary key of a new top-level row at time `t`: `t` itself when free,
/// else `t` bumped by the sequence, which then moves past the `slots` keys
/// that the row needs.
pub open spec fn claim_key(st: RunState, t: int, slots: int) -> (RunState, int) {
    let taken = st.used.contains(t);
    let key = if taken { t + st.seq } else { t };
    (
        RunState {
            items: st.items,
            last_item_id: st.last_item_id,
            seq: if taken { st.seq + slots } else { st.seq },
            used: st.used.push(key),
        },
        key,
    )
}

/// The currency code of a transaction, with the default for an unknown one.
pub open spec fn currency_code(currencies: Seq<FinancistoCurrency>, id: i32) -> Seq<char> {
    match currency_name_of(currencies, id) {
        Some(n) => n,
        None => DEFAULT_CURRENCY@,
    }
}

pub open spec fn scaled(amount: i64) -> int {
    amount as int * AMOUNT_SCALE as int
}

pub open spec fn income_or_expense(amount: i64) -> int {
    if amount >= 0 { 4 } else { 3 }
}

/// The row of a transaction that is neither a transfer nor a split.
pub open spec fn simple_row(tx: FinancistoTransaction, currency: Seq<char>, date: Seq<char>, key: int, item: int, notes: Seq<char>) -> TxRow {
    TxRow {
        key,
        item,
        amount: scaled(tx.from_amount),
        currency,
        date,
        type_id: income_or_expense(tx.from_amount),
        category: tx.category_id as int,
        account: tx.from_account_id as int,
        notes,
        status: 0,
        account_ref: 1,
        pair_account: tx.from_account_id as int,
        uid_pair: key,
        split_group: 0,
        transfer_group: 0,
    }
}

/// The leg of a transfer that leaves the source account.
pub open spec fn transfer_out_row(tx: FinancistoTransaction, currency: Seq<char>, date: Seq<char>, key: int, item: int) -> TxRow {
    TxRow {
        key,
        item,
        amount: scaled(tx.from_amount),
        currency,
        date,
        type_id: 5,
        category: 3,
        account: tx.from_account_id as int,
        notes: Seq::empty(),
        status: 0,
        account_ref: 1,
        pair_account: tx.to_account_id as int,
        uid_pair: key + 1,
        split_group: 0,
        transfer_group: key,
    }
}

/// The leg of a transfer that enters the target account.
pub open spec fn transfer_in_row(tx: FinancistoTransaction, currency: Seq<char>, date: Seq<char>, key: int, item: int) -> TxRow {
    TxRow {
        key: key + 1,
        item,
        amount: scaled(tx.to_amount),
        currency,
        date,
        type_id: 5,
        category: 3,
        account: tx.to_account_id as int,
        notes: Seq::empty(),
        status: 0,
        account_ref: 2,
        pair_account: tx.from_account_id as int,
        uid_pair: key,
        split_group: 0,
        transfer_group: key,
    }
}

/// The row of the child at position `k` of a split whose anchor key is `key`.
pub open spec fn split_row(
    parent: FinancistoTransaction,
    child: FinancistoTransaction,
    currencies: Seq<FinancistoCurrency>,
    date: Seq<char>,
    key: int,
    item: int,
    k: int,
) -> TxRow {
    TxRow {
        key: key + k + 1,
        item,
        amount: scaled(child.from_amount),
        currency: currency_code(currencies, child.original_currency_id),
        date,
        type_id: income_or_expense(parent.from_amount),
        category: child.category_id as int,
        account: child.from_account_id as int,
        notes: match child.note {
            Some(n) => n@,
            None => Seq::empty(),
        },
        status: 0,
        account_ref: 1,
        pair_account: child.from_account_id as int,
        uid_pair: key + k + 1,
        split_group: key,
        transfer_group: 0,
    }
}

/// `s` with index `j` inserted after every index whose transaction is not later.
pub open spec fn insert_by_time(txs: Seq<FinancistoTransaction>, s: Seq<usize>, j: usize) -> Seq<usize>
    decreases s.len(),
{
    if s.len() == 0 {
        seq![j]
    } else if txs[s.last() as int].datetime <= txs[j as int].datetime {
        s.push(j)
    } else {
        insert_by_time(txs, s.drop_last(), j).push(s.last())
    }
}

/// The indices among the first `n` transactions whose parent is `id`, by time,
/// equal times in source order.
pub open spec fn children_upto(txs: Seq<FinancistoTransaction>, id: i32, n: int) -> Seq<usize>
    decreases n,
{
    if n <= 0 {
        Seq::empty()
    } else {
        let s = children_upto(txs, id, n - 1);
        if txs[n - 1].parent_id == id {
            insert_by_time(txs, s, (n - 1) as usize)
        } else {
            s
        }
    }
}

/// The split children of the transaction with id `id`, in the order they are
/// emitted. A parent id of 0 marks a transaction that is no split child, so a
/// transaction with id 0 has none.
pub open spec fn split_children(txs: Seq<FinancistoTransaction>, id: i32) -> Seq<usize> {
    if id == 0 {
        Seq::empty()
    } else {
        children_upto(txs, id, txs.len() as int)
    }
}

/// What the transform does with transaction `i`, in state `st`.
pub open spec fn run_step(
    st: RunState,
    txs: Seq<FinancistoTransaction>,
    currencies: Seq<FinancistoCurrency>,
    dates: Seq<Seq<char>>,
    i: int,
) -> (RunState, Seq<Statement>) {
    let tx = txs[i];
    let date = dates[i];
    let currency = currency_code(currencies, tx.original_currency_id);
    if tx.to_account_id != 0 {
        let c = claim_label(st, TRANSFER_LABEL@);
        let k = claim_key(c.0, tx.datetime as int, 2);
        (k.0, c.1 + seq![
            Statement::Row(transfer_out_row(tx, currency, date, k.1, c.2)),
            Statement::Row(transfer_in_row(tx, currency, date, k.1, c.2)),
        ])
    } else if tx.parent_id != 0 {
        (st, Seq::empty())
    } else {
        let c = note_item(st, tx);
        let kids = split_children(txs, tx.id);
        if kids.len() == 0 {
            let k = claim_key(c.0, tx.datetime as int, 1);
            (k.0, c.1 + seq![Statement::Row(simple_row(tx, currency, date, k.1, c.2, c.3))])
        } else {
            let k = claim_key(c.0, tx.datetime as int, kids.len() as int);
            (k.0, c.1 + Seq::new(kids.len(), |m: int| Statement::Row(split_row(tx, txs[kids[m] as int], currencies, date, k.1, c.2, m))))
        }
    }
}

/// The state and the statements after the first `n` transactions.
pub open spec fn run_upto(
    txs: Seq<FinancistoTransaction>,
    currencies: Seq<FinancistoCurrency>,
    dates: Seq<Seq<char>>,
    n: int,
) -> (RunState, Seq<Statement>)
    decreases n,
{
    if n <= 0 {
        (initial_run(), Seq::empty())
    } else {
        let prev = run_upto(txs, currencies, dates, n - 1);
        let next = run_step(prev.0, txs, currencies, dates, n - 1);
        (next.0, prev.1 + next.1)
    }
}

/// The statements of a whole run.
pub open spec fn transaction_statements(
    txs: Seq<FinancistoTransaction>,
    currencies: Seq<FinancistoCurrency>,
    dates: Seq<Seq<char>>,
) -> Seq<Statement> {
    run_upto(txs, currencies, dates, txs.len() as int).1
}

/// The inputs whose keys and amounts fit in 64 bits.
pub open spec fn transactions_in_range(txs: Seq<FinancistoTransaction>) -> bool {
    &&& txs.len() <= MAX_TRANSACTIONS
    &&& forall|i: int| 0 <= i < txs.len() ==> {
        &&& -MAX_TIME <= #[trigger] txs[i].datetime <= MAX_TIME
        &&& -MAX_AMOUNT <= txs[i].from_amount <= MAX_AMOUNT
        &&& -MAX_AMOUNT <= txs[i].to_amount <= MAX_AMOUNT
    }
}

/// The state of a transform run, as the program holds it.
struct TransactionRun {
    labels: Vec<String>,
    ids: Vec<i64>,
    last_item_id: i64,
    seq: i64,
    used: Vec<i64>,
}

impl View for TransactionRun {
    type V = RunState;

    closed spec fn view(&self) -> RunState {
        RunState {
            items: Seq::new(self.labels@.len(), |k: int| (self.labels@[k]@, self.ids@[k] as int)),
            last_item_id: self.last_item_id as int,
            seq: self.seq as int,
            used: self.used@.map_values(|x: i64| x as int),
        }
    }
}

impl TransactionRun {
    spec fn wf(&self) -> bool {
        self.labels@.len() == self.ids@.len()
    }

    /// A run before any transaction.
    fn new() -> (r: TransactionRun)
        ensures
            r.wf(),
            r@ == initial_run(),
    {
        let r = TransactionRun { labels: Vec::new(), ids: Vec::new(), last_item_id: LAST_RESERVED_ITEM, seq: 1, used: Vec::new() };
        assert(r@.items =~= Seq::<(Seq<char>, int)>::empty());
        assert(r@.used =~= Seq::<int>::empty());
        r
    }

    /// The item id of `label`, if it has one.
    fn find_label(&self, label: &str) -> (r: Option<i64>)
        requires
            self.wf(),
        ensures
            match r {
                Some(id) => find_label(self@.items, label@) == Some(id as int),
                None => find_label(self@.items, label@) is None,
            },
    {
        let wanted = String::from_str(label);
        let mut k: usize = self.labels.len();
        assert(self@.items.subrange(0, k as int) =~= self@.items);
        while k > 0
            invariant
                self.wf(),
                k <= self.labels@.len(),
                wanted@ == label@,
                find_label(self@.items, label@) == find_label(self@.items.subrange(0, k as int), label@),
            decreases k,
        {
            let ghost sub = self@.items.subrange(0, k as int);
            assert(sub.drop_last() =~= self@.items.subrange(0, k - 1));
            if self.labels[k - 1].eq(&wanted) {
                return Some(self.ids[k - 1]);
            }
            k = k - 1;
        }
        None
    }

    /// Whether `key` was taken already.
    fn is_used(&self, key: i64) -> (r: bool)
        ensures
            r == self@.used.contains(key as int),
    {
        let mut i: usize = 0;
        while i < self.used.len()
            invariant
                i <= self.used@.len(),
                forall|j: int| 0 <= j < i ==> self.used@[j] != key,
            decreases self.used@.len() - i,
        {
            if self.used[i] == key {
                assert(self@.used[i as int] == key as int);
                return true;
            }
            i = i + 1;
        }
        false
    }

    /// The item of `label`, created with an item statement where it has none.
    fn claim_label(&mut self, label: &str, out: &mut Vec<String>) -> (id: i64)
        requires
            old(self).wf(),
            old(self).last_item_id < i64::MAX,
        ensures
            final(self).wf(),
            final(self)@ == claim_label(old(self)@, label@).0,
            id as int == claim_label(old(self)@, label@).2,
            texts(final(out)@) == texts(old(out)@) + statement_texts(claim_label(old(self)@, label@).1),
            final(self).last_item_id <= old(self).last_item_id + 1,
            final(self).seq == old(self).seq,
    {
        match self.find_label(label) {
            Some(id) => {
                assert(texts(out@) =~= texts(out@) + statement_texts(Seq::empty()));
                id
            },
            None => {
                let ghost before = self@;
                let id = self.last_item_id + 1;
                self.last_item_id = id;
                self.labels.push(String::from_str(label));
                self.ids.push(id);
                let ghost pre = out@;
                out.push(item_sql(id, label));
                assert(self@.items =~= before.items.push((label@, id as int)));
                assert(texts(out@) =~= texts(pre) + statement_texts(claim_label(before, label@).1));
                id
            },
        }
    }

    /// The key of a new top-level row at time `t` that needs `slots` keys.
    fn claim_key(&mut self, t: i64, slots: i64) -> (key: i64)
        requires
            old(self).wf(),
            1 <= slots,
            1 <= old(self).seq,
            old(self).seq + slots <= i64::MAX,
            -MAX_TIME <= t <= MAX_TIME,
            old(self).seq <= MAX_TIME,
        ensures
            final(self).wf(),
            final(self)@ == claim_key(old(self)@, t as int, slots as int).0,
            key as int == claim_key(old(self)@, t as int, slots as int).1,
            final(self).seq <= old(self).seq + slots,
            final(self).seq >= old(self).seq,
            final(self).last_item_id == old(self).last_item_id,
    {
        let ghost before = self@;
        let key = if self.is_used(t) {
            let k = t + self.seq;
            self.seq = self.seq + slots;
            k
        } else {
            t
        };
        self.used.push(key);
        assert(self@.used =~= before.used.push(key as int));
        assert(self@.items =~= before.items);
        key
    }
}

/// Inserts index `j` into `v` after every index whose transaction is not later.
fn insert_by_time_exec(txs: &Vec<FinancistoTransaction>, v: &mut Vec<usize>, j: usize)
    requires
        j < txs@.len(),
        forall|k: int| 0 <= k < old(v)@.len() ==> old(v)@[k] < txs@.len(),
    ensures
        final(v)@ == insert_by_time(txs@, old(v)@, j),
        final(v)@.len() == old(v)@.len() + 1,
        forall|k: int| 0 <= k < final(v)@.len() ==> final(v)@[k] < txs@.len(),
    decreases old(v)@.len(),
{
    let n = v.len();
    if n == 0 {
        v.push(j);
        assert(v@ =~= seq![j]);
        return;
    }
    let last = v[n - 1];
    if txs[last].datetime <= txs[j].datetime {
        v.push(j);
    } else {
        let ghost o = v@;
        v.pop();
        assert(v@ =~= o.drop_last());
        insert_by_time_exec(txs, v, j);
        v.push(last);
    }
}

/// The split children of the transaction with id `id`, in the order they are emitted.
fn split_children_exec(txs: &Vec<FinancistoTransaction>, id: i32) -> (r: Vec<usize>)
    ensures
        r@ == split_children(txs@, id),
        r@.len() <= txs@.len(),
        forall|k: int| 0 <= k < r@.len() ==> r@[k] < txs@.len(),
{
    let n = txs.len();
    let mut v: Vec<usize> = Vec::new();
    if id == 0 {
        return v;
    }
    let mut j: usize = 0;
    while j < n
        invariant
            n == txs@.len(),
            j <= n,
            v@ == children_upto(txs@, id, j as int),
            v@.len() <= j,
            forall|k: int| 0 <= k < v@.len() ==> v@[k] < n,
        decreases n - j,
    {
        if txs[j].parent_id == id {
            insert_by_time_exec(txs, &mut v, j);
        }
        j = j + 1;
    }
    v
}

/// The currency code of a transaction, with the default for an unknown one.
fn currency_code_exec(currencies: &Vec<FinancistoCurrency>, id: i32) -> (r: String)
    ensures
        r@ == currency_code(currencies@, id),
{
    match find_currency_name(currencies, id) {
        Some(name) => name.clone(),
        None => String::from_str(DEFAULT_CURRENCY),
    }
}

fn scale(amount: i64) -> (r: i64)
    requires
        -MAX_AMOUNT <= amount <= MAX_AMOUNT,
    ensures
        r as int == scaled(amount),
{
    amount * AMOUNT_SCALE
}

impl TransactionRun {
    /// The item and the notes of an income or expense transaction.
    fn note_item(&mut self, tx: &FinancistoTransaction, out: &mut Vec<String>) -> (r: (i64, String))
        requires
            old(self).wf(),
            old(self).last_item_id < i64::MAX,
        ensures
            final(self).wf(),
            final(self)@ == note_item(old(self)@, *tx).0,
            r.0 as int == note_item(old(self)@, *tx).2,
            r.1@ == note_item(old(self)@, *tx).3,
            texts(final(out)@) == texts(old(out)@) + statement_texts(note_item(old(self)@, *tx).1),
            final(self).last_item_id <= old(self).last_item_id + 1,
            final(self).seq == old(self).seq,
    {
        match &tx.note {
            None => {
                assert(texts(out@) =~= texts(out@) + statement_texts(Seq::empty()));
                let id = if tx.from_amount >= 0 { UNNAMED_INCOME_ITEM } else { UNNAMED_EXPENSE_ITEM };
                (id, String::new())
            },
            Some(n) => match self.find_label(n.as_str()) {
                Some(id) => {
                    assert(texts(out@) =~= texts(out@) + statement_texts(Seq::empty()));
                    (id, String::new())
                },
                None => {
                    if tx.from_account_id == LOTTERY_ACCOUNT_ID
                        && crate::text::parse_int(n.as_str(), i32::MIN as i64, i32::MAX as i64).is_some() {
                        let id = self.claim_label(LOTTERY_LABEL, out);
                        (id, n.clone())
                    } else {
                        let id = self.claim_label(n.as_str(), out);
                        (id, String::new())
                    }
                },
            },
        }
    }

    /// The two legs of transfer `i`.
    fn emit_transfer(
        &mut self,
        txs: &Vec<FinancistoTransaction>,
        currencies: &Vec<FinancistoCurrency>,
        dates: &Vec<String>,
        i: usize,
        out: &mut Vec<String>,
    )
        requires
            old(self).wf(),
            i < txs@.len(),
            dates@.len() == txs@.len(),
            txs@[i as int].to_account_id != 0,
            transactions_in_range(txs@),
            old(self).last_item_id <= MAX_TIME,
            1 <= old(self).seq <= MAX_TIME,
        ensures
            final(self).wf(),
            final(self)@ == run_step(old(self)@, txs@, currencies@, texts(dates@), i as int).0,
            texts(final(out)@) == texts(old(out)@) + statement_texts(run_step(old(self)@, txs@, currencies@, texts(dates@), i as int).1),
            final(self).last_item_id <= old(self).last_item_id + 1,
            old(self).seq <= final(self).seq <= old(self).seq + 2,
    {
        let tx = &txs[i];
        assert(-MAX_TIME <= txs@[i as int].datetime <= MAX_TIME);
        let ghost st = self@;
        let ghost o = out@;
        let item = self.claim_label(TRANSFER_LABEL, out);
        let ghost o1 = out@;
        let key = self.claim_key(tx.datetime, 2);
        let currency = currency_code_exec(currencies, tx.original_currency_id);
        let row_out = TransactionRow {
            key,
            item,
            amount: scale(tx.from_amount),
            currency: currency.clone(),
            date: dates[i].clone(),
            type_id: 5,
            category: 3,
            account: tx.from_account_id as i64,
            notes: String::new(),
            status: 0,
            account_ref: 1,
            pair_account: tx.to_account_id as i64,
            uid_pair: key + 1,
            split_group: 0,
            transfer_group: key,
        };
        let row_in = TransactionRow {
            key: key + 1,
            item,
            amount: scale(tx.to_amount),
            currency: currency,
            date: dates[i].clone(),
            type_id: 5,
            category: 3,
            account: tx.to_account_id as i64,
            notes: String::new(),
            status: 0,
            account_ref: 2,
            pair_account: tx.from_account_id as i64,
            uid_pair: key,
            split_group: 0,
            transfer_group: key,
        };
        let ghost date = texts(dates@)[i as int];
        let ghost cur = currency_code(currencies@, tx.original_currency_id);
        let ghost c = claim_label(st, TRANSFER_LABEL@);
        assert(row_out@ == transfer_out_row(*tx, cur, date, key as int, item as int));
        assert(row_in@ == transfer_in_row(*tx, cur, date, key as int, item as int));
        out.push(transaction_sql(&row_out));
        out.push(transaction_sql(&row_in));
        let ghost step = run_step(st, txs@, currencies@, texts(dates@), i as int);
        assert(step.1 == c.1 + seq![Statement::Row(row_out@), Statement::Row(row_in@)]);
        assert(statement_texts(step.1) =~= statement_texts(c.1) + seq![transaction_text(row_out@), transaction_text(row_in@)]);
        assert(texts(out@) =~= texts(o1) + seq![transaction_text(row_out@), transaction_text(row_in@)]);
        assert(texts(out@) =~= texts(o) + statement_texts(step.1));
    }

    /// The row of income or expense `i`, or the rows of its split children.
    fn emit_money(
        &mut self,
        txs: &Vec<FinancistoTransaction>,
        currencies: &Vec<FinancistoCurrency>,
        dates: &Vec<String>,
        i: usize,
        out: &mut Vec<String>,
    )
        requires
            old(self).wf(),
            i < txs@.len(),
            dates@.len() == txs@.len(),
            txs@[i as int].to_account_id == 0,
            txs@[i as int].parent_id == 0,
            transactions_in_range(txs@),
            old(self).last_item_id <= MAX_TIME,
            1 <= old(self).seq <= MAX_TIME,
        ensures
            final(self).wf(),
            final(self)@ == run_step(old(self)@, txs@, currencies@, texts(dates@), i as int).0,
            texts(final(out)@) == texts(old(out)@) + statement_texts(run_step(old(self)@, txs@, currencies@, texts(dates@), i as int).1),
            final(self).last_item_id <= old(self).last_item_id + 1,
            old(self).seq <= final(self).seq <= old(self).seq + txs@.len() + 2,
    {
        let tx = &txs[i];
        assert(-MAX_TIME <= txs@[i as int].datetime <= MAX_TIME);
        assert(-MAX_AMOUNT <= txs@[i as int].from_amount <= MAX_AMOUNT);
        let ghost st = self@;
        let ghost o = out@;
        let ghost date = texts(dates@)[i as int];
        let ghost cur = currency_code(currencies@, tx.original_currency_id);
        let (item, notes) = self.note_item(tx, out);
        let ghost c = note_item(st, *tx);
        let ghost o1 = out@;
        let kids = split_children_exec(txs, tx.id);
        if kids.len() == 0 {
            let key = self.claim_key(tx.datetime, 1);
            let currency = currency_code_exec(currencies, tx.original_currency_id);
            let row = TransactionRow {
                key,
                item,
                amount: scale(tx.from_amount),
                currency,
                date: dates[i].clone(),
                type_id: if tx.from_amount >= 0 { 4 } else { 3 },
                category: tx.category_id as i64,
                account: tx.from_account_id as i64,
                notes,
                status: 0,
                account_ref: 1,
                pair_account: tx.from_account_id as i64,
                uid_pair: key,
                split_group: 0,
                transfer_group: 0,
            };
            assert(row@ == simple_row(*tx, cur, date, key as int, item as int, c.3));
            out.push(transaction_sql(&row));
            let ghost step = run_step(st, txs@, currencies@, texts(dates@), i as int);
            assert(step.1 == c.1 + seq![Statement::Row(row@)]);
            assert(statement_texts(step.1) =~= statement_texts(c.1) + seq![transaction_text(row@)]);
            assert(texts(out@) =~= texts(o1) + seq![transaction_text(row@)]);
            assert(texts(out@) =~= texts(o) + statement_texts(step.1));
        } else {
            let n = kids.len();
            let key = self.claim_key(tx.datetime, n as i64);
            let ghost rows = Seq::new(n as nat, |m: int| Statement::Row(split_row(*tx, txs@[kids@[m] as int], currencies@, date, key as int, item as int, m)));
            let type_id: i64 = if tx.from_amount >= 0 { 4 } else { 3 };
            let mut m: usize = 0;
            while m < n
                invariant
                    n == kids@.len(),
                    kids@ == split_children(txs@, tx.id),
                    rows.len() == n,
                    m <= n,
                    n <= txs@.len(),
                    txs@.len() <= MAX_TRANSACTIONS,
                    -MAX_TIME - MAX_TIME <= key <= MAX_TIME + MAX_TIME,
                    forall|k: int| 0 <= k < kids@.len() ==> kids@[k] < txs@.len(),
                    transactions_in_range(txs@),
                    dates@.len() == txs@.len(),
                    i < txs@.len(),
                    type_id as int == income_or_expense(tx.from_amount),
                    *tx == txs@[i as int],
                    date == texts(dates@)[i as int],
                    rows == Seq::new(n as nat, |m: int| Statement::Row(split_row(*tx, txs@[kids@[m] as int], currencies@, date, key as int, item as int, m))),
                    texts(out@) == texts(o1) + statement_texts(rows.subrange(0, m as int)),
                decreases n - m,
            {
                let child = &txs[kids[m]];
                assert(*child == txs@[kids@[m as int] as int]);
                assert(-MAX_TIME <= txs@[kids@[m as int] as int].datetime <= MAX_TIME);
                assert(-MAX_AMOUNT <= txs@[kids@[m as int] as int].from_amount <= MAX_AMOUNT);
                let k1 = key + m as i64 + 1;
                let row = TransactionRow {
                    key: k1,
                    item,
                    amount: scale(child.from_amount),
                    currency: currency_code_exec(currencies, child.original_currency_id),
                    date: dates[i].clone(),
                    type_id,
                    category: child.category_id as i64,
                    account: child.from_account_id as i64,
                    notes: match &child.note {
                        Some(t) => t.clone(),
                        None => String::new(),
                    },
                    status: 0,
                    account_ref: 1,
                    pair_account: child.from_account_id as i64,
                    uid_pair: k1,
                    split_group: key,
                    transfer_group: 0,
                };
                assert(row@ == split_row(*tx, *child, currencies@, date, key as int, item as int, m as int));
                let ghost pre = out@;
                out.push(transaction_sql(&row));
                assert(rows.subrange(0, m + 1) =~= rows.subrange(0, m as int).push(rows[m as int]));
                assert(texts(out@) =~= texts(pre).push(transaction_text(row@)));
                assert(statement_texts(rows.subrange(0, m + 1)) =~= statement_texts(rows.subrange(0, m as int)).push(transaction_text(row@)));
                m = m + 1;
            }
            assert(rows.subrange(0, n as int) =~= rows);
            let ghost step = run_step(st, txs@, currencies@, texts(dates@), i as int);
            assert(step.1 == c.1 + rows);
            assert(statement_texts(step.1) =~= statement_texts(c.1) + statement_texts(rows));
            assert(texts(out@) =~= texts(o) + statement_texts(step.1));
        }
    }
}

/// The statements of the transaction transform, given the local date text
/// of each transaction (`dates[i]` for `transactions[i]`).
pub fn migrate_transactions_with_dates(
    transactions: &Vec<FinancistoTransaction>,
    currencies: &Vec<FinancistoCurrency>,
    dates: &Vec<String>,
) -> (r: Vec<String>)
    requires
        transactions_in_range(transactions@),
        dates@.len() == transactions@.len(),
    ensures
        texts(r@) == statement_texts(transaction_statements(transactions@, currencies@, texts(dates@))),
{
    let ghost txs = transactions@;
    let ghost ds = texts(dates@);
    let n = transactions.len();
    let mut run = TransactionRun::new();
    let mut out: Vec<String> = Vec::new();
    let mut i: usize = 0;
    assert(texts(out@) =~= statement_texts(run_upto(txs, currencies@, ds, 0).1));
    while i < n
        invariant
            n == txs.len(),
            txs == transactions@,
            ds == texts(dates@),
            transactions_in_range(txs),
            dates@.len() == n,
            i <= n,
            run.wf(),
            run@ == run_upto(txs, currencies@, ds, i as int).0,
            texts(out@) == statement_texts(run_upto(txs, currencies@, ds, i as int).1),
            1 <= run.seq <= 1 + i * (MAX_TRANSACTIONS + 2),
            run.last_item_id <= LAST_RESERVED_ITEM + i,
        decreases n - i,
    {
        let ghost prev = run_upto(txs, currencies@, ds, i as int);
        let ghost o = out@;
        let ghost seq0 = run.seq;
        proof {
            assert(i * (MAX_TRANSACTIONS + 2) <= MAX_TRANSACTIONS * (MAX_TRANSACTIONS + 2)) by (nonlinear_arith)
                requires i <= MAX_TRANSACTIONS;
        }
        let tx = &transactions[i];
        if tx.to_account_id != 0 {
            run.emit_transfer(transactions, currencies, dates, i, &mut out);
        } else if tx.parent_id == 0 {
            run.emit_money(transactions, currencies, dates, i, &mut out);
        } else {
            assert(statement_texts(Seq::<Statement>::empty()) =~= Seq::<Seq<char>>::empty());
        }
        let ghost next = run_step(prev.0, txs, currencies@, ds, i as int);
        assert(statement_texts(prev.1 + next.1) =~= statement_texts(prev.1) + statement_texts(next.1));
        assert(texts(out@) =~= statement_texts(prev.1) + statement_texts(next.1));
        proof {
            assert((i + 1) * (MAX_TRANSACTIONS + 2) == i * (MAX_TRANSACTIONS + 2) + MAX_TRANSACTIONS + 2) by (nonlinear_arith);
        }
        i = i + 1;
    }
    out
}

/// Whether the transactions are few and small enough for the transform.
fn check_in_range(transactions: &Vec<FinancistoTransaction>) -> (r: bool)
    ensures
        r == transactions_in_range(transactions@),
{
    if transactions.len() > MAX_TRANSACTIONS {
        return false;
    }
    let mut i: usize = 0;
    while i < transactions.len()
        invariant
            i <= transactions@.len(),
            transactions@.len() <= MAX_TRANSACTIONS,
            forall|j: int| 0 <= j < i ==> {
                &&& -MAX_TIME <= #[trigger] transactions@[j].datetime <= MAX_TIME
                &&& -MAX_AMOUNT <= transactions@[j].from_amount <= MAX_AMOUNT
                &&& -MAX_AMOUNT <= transactions@[j].to_amount <= MAX_AMOUNT
            },
        decreases transactions@.len() - i,
    {
        let t = &transactions[i];
        if t.datetime < -MAX_TIME || t.datetime > MAX_TIME || t.from_amount < -MAX_AMOUNT
            || t.from_amount > MAX_AMOUNT || t.to_amount < -MAX_AMOUNT || t.to_amount > MAX_AMOUNT {
            assert(transactions@[i as int] == *t);
            return false;
        }
        i = i + 1;
    }
    true
}

/// Whether the first `n` transactions have dates.
pub open spec fn all_dated(txs: Seq<FinancistoTransaction>, n: int) -> bool {
    forall|j: int| 0 <= j < n ==> dated(#[trigger] txs[j].datetime)
}

/// The statements of the transaction transform. Each transaction's date is
/// its timestamp in the machine's local time.
pub fn migrate_transactions(
    transactions: &Vec<FinancistoTransaction>,
    currencies: &Vec<FinancistoCurrency>,
) -> (r: Result<Vec<String>, MigrationError>)
    ensures
        !transactions_in_range(transactions@) ==> r == Err::<Vec<String>, MigrationError>(MigrationError::ValueOutOfRange),
        (r is Ok) <==> (transactions_in_range(transactions@) && all_dated(transactions@, transactions@.len() as int)),
        match r {
            Ok(s) => exists|dates: Seq<Seq<char>>|
                dates.len() == transactions@.len()
                && #[trigger] texts(s@) == statement_texts(transaction_statements(transactions@, currencies@, dates)),
            Err(MigrationError::TimeOutOfRange { millis }) => transactions_in_range(transactions@)
                && exists|i: int| 0 <= i < transactions@.len() && all_dated(transactions@, i)
                && #[trigger] transactions@[i].datetime == millis && !dated(millis),
            Err(e) => e == MigrationError::ValueOutOfRange && !transactions_in_range(transactions@),
        },
{
    if !check_in_range(transactions) {
        return Err(MigrationError::ValueOutOfRange);
    }
    let mut dates: Vec<String> = Vec::new();
    let mut i: usize = 0;
    while i < transactions.len()
        invariant
            i <= transactions@.len(),
            dates@.len() == i,
            transactions_in_range(transactions@),
            all_dated(transactions@, i as int),
        decreases transactions@.len() - i,
    {
        assert(transactions@[i as int].datetime == transactions[i as int].datetime);
        match local_date_text(transactions[i].datetime) {
            Some(d) => dates.push(d),
            None => {
                assert(!all_dated(transactions@, transactions@.len() as int));
                return Err(MigrationError::TimeOutOfRange { millis: transactions[i].datetime });
            },
        }
        i = i + 1;
    }
    let out = migrate_transactions_with_dates(transactions, currencies, &dates);
    Ok(out)
}

/// A transfer gives exactly two rows, after the item statement it may
/// announce: the leg out of the source account with the source amount
/// rescaled, and the leg into the target account with the target amount
/// rescaled, each naming the other's key as its pair, both in one transfer group.
pub proof fn lemma_transfer_pairing(
    st: RunState,
    txs: Seq<FinancistoTransaction>,
    currencies: Seq<FinancistoCurrency>,
    dates: Seq<Seq<char>>,
    i: int,
)
    requires
        0 <= i < txs.len(),
        txs[i].to_account_id != 0,
    ensures
        ({
            let out = run_step(st, txs, currencies, dates, i).1;
            &&& out.len() >= 2
            &&& forall|j: int| 0 <= j < out.len() - 2 ==> out[j] is Item
            &&& out[out.len() - 2] matches Statement::Row(a) && out[out.len() - 1] matches Statement::Row(b) && {
                &&& a.uid_pair == b.key && b.uid_pair == a.key && a.key != b.key
                &&& a.transfer_group == a.key && b.transfer_group == a.key
                &&& a.amount == txs[i].from_amount * AMOUNT_SCALE && b.amount == txs[i].to_amount * AMOUNT_SCALE
                &&& a.account == txs[i].from_account_id && b.account == txs[i].to_account_id
            }
        }),
{
}

/// Labels once given an item keep it: a step never changes the item of a
/// label that has one.
proof fn lemma_step_keeps_labels(
    st: RunState,
    txs: Seq<FinancistoTransaction>,
    currencies: Seq<FinancistoCurrency>,
    dates: Seq<Seq<char>>,
    i: int,
    label: Seq<char>,
)
    requires
        0 <= i < txs.len(),
        find_label(st.items, label) is Some,
    ensures
        find_label(run_step(st, txs, currencies, dates, i).0.items, label) == find_label(st.items, label),
{
    let items = run_step(st, txs, currencies, dates, i).0.items;
    if items != st.items {
        assert(items.drop_last() =~= st.items);
    }
}

proof fn lemma_run_keeps_labels(
    txs: Seq<FinancistoTransaction>,
    currencies: Seq<FinancistoCurrency>,
    dates: Seq<Seq<char>>,
    i: int,
    j: int,
    label: Seq<char>,
)
    requires
        0 <= i <= j <= txs.len(),
        find_label(run_upto(txs, currencies, dates, i).0.items, label) is Some,
    ensures
        find_label(run_upto(txs, currencies, dates, j).0.items, label)
            == find_label(run_upto(txs, currencies, dates, i).0.items, label),
    decreases j - i,
{
    if i < j {
        lemma_step_keeps_labels(run_upto(txs, currencies, dates, i).0, txs, currencies, dates, i, label);
        lemma_run_keeps_labels(txs, currencies, dates, i + 1, j, label);
    }
}

/// Two income or expense transactions with the same note get the same item,
/// unless the first is a lottery ticket (a purely numeric note on the lottery
/// account), whose item is the shared lottery one.
pub proof fn lemma_same_note_same_item(
    txs: Seq<FinancistoTransaction>,
    currencies: Seq<FinancistoCurrency>,
    dates: Seq<Seq<char>>,
    i: int,
    j: int,
)
    requires
        0 <= i < j < txs.len(),
        txs[i].to_account_id == 0 && txs[i].parent_id == 0,
        txs[j].to_account_id == 0 && txs[j].parent_id == 0,
        txs[i].note matches Some(a) && txs[j].note matches Some(b) && a@ == b@,
        !(txs[i].from_account_id == LOTTERY_ACCOUNT_ID
            && decimal_in(txs[i].note->Some_0@, i32::MIN as int, i32::MAX as int) is Some),
    ensures
        note_item(run_upto(txs, currencies, dates, i).0, txs[i]).2
            == note_item(run_upto(txs, currencies, dates, j).0, txs[j]).2,
{
    let label = txs[i].note->Some_0@;
    let st = run_upto(txs, currencies, dates, i).0;
    let next = run_upto(txs, currencies, dates, i + 1).0;
    let id = note_item(st, txs[i]).2;
    if find_label(st.items, label) is None {
        assert(next.items == st.items.push((label, id)));
        assert(next.items.last().0 == label);
    }
    assert(find_label(next.items, label) == Some(id));
    lemma_run_keeps_labels(txs, currencies, dates, i + 1, j, label);
}

/// A transaction without note gets the unnamed income item when its amount is
/// at least zero, and the unnamed expense item otherwise.
pub proof fn lemma_unnamed_items(st: RunState, tx: FinancistoTransaction)
    requires
        tx.note is None,
    ensures
        note_item(st, tx).2 == if tx.from_amount >= 0 { UNNAMED_INCOME_ITEM as int } else { UNNAMED_EXPENSE_ITEM as int },
{
}

/// Whether, at each transaction that takes a key, a bumped key is free: the
/// bump by the sequence lands on no key taken before.
pub open spec fn bumps_land_free(
    txs: Seq<FinancistoTransaction>,
    currencies: Seq<FinancistoCurrency>,
    dates: Seq<Seq<char>>,
) -> bool {
    forall|i: int| 0 <= i < txs.len() ==> {
        let st = #[trigger] run_upto(txs, currencies, dates, i).0;
        let t = txs[i].datetime as int;
        st.used.contains(t) ==> !st.used.contains(t + st.seq)
    }
}

/// The keys of the top-level rows of a run (simple rows, the outgoing legs
/// of transfers, the anchors of splits) are pairwise distinct, wherever the
/// bumps land on free keys.
pub proof fn lemma_keys_unique(
    txs: Seq<FinancistoTransaction>,
    currencies: Seq<FinancistoCurrency>,
    dates: Seq<Seq<char>>,
)
    requires
        bumps_land_free(txs, currencies, dates),
    ensures
        ({
            let used = run_upto(txs, currencies, dates, txs.len() as int).0.used;
            forall|a: int, b: int| 0 <= a < b < used.len() ==> used[a] != used[b]
        }),
{
    lemma_keys_unique_upto(txs, currencies, dates, txs.len() as int);
}

proof fn lemma_keys_unique_upto(
    txs: Seq<FinancistoTransaction>,
    currencies: Seq<FinancistoCurrency>,
    dates: Seq<Seq<char>>,
    n: int,
)
    requires
        bumps_land_free(txs, currencies, dates),
        0 <= n <= txs.len(),
    ensures
        ({
            let used = run_upto(txs, currencies, dates, n).0.used;
            forall|a: int, b: int| 0 <= a < b < used.len() ==> used[a] != used[b]
        }),
    decreases n,
{
    if n > 0 {
        lemma_keys_unique_upto(txs, currencies, dates, n - 1);
        let st = run_upto(txs, currencies, dates, n - 1).0;
        let used = run_upto(txs, currencies, dates, n).0.used;
        let t = txs[n - 1].datetime as int;
        assert(st.used.contains(t) ==> !st.used.contains(t + st.seq));
        if used != st.used {
            assert(used.drop_last() =~= st.used);
            assert(!st.used.contains(used.last()));
            assert forall|a: int, b: int| 0 <= a < b < used.len() implies used[a] != used[b] by {
                if b == used.len() - 1 {
                    assert(st.used[a] == used[a]);
                } else {
                    assert(st.used[a] == used[a] && st.used[b] == used[b]);
                }
            }
        }
    }
}

/// Whether the transactions at the indices of `s` come in time order.
pub open spec fn by_time(txs: Seq<FinancistoTransaction>, s: Seq<usize>) -> bool {
    forall|a: int, b: int| 0 <= a < b < s.len() ==> txs[s[a] as int].datetime <= txs[s[b] as int].datetime
}

/// Whether no index occurs twice in `s`.
pub open spec fn no_repeats(s: Seq<usize>) -> bool {
    forall|a: int, b: int| 0 <= a < b < s.len() ==> s[a] != s[b]
}

proof fn lemma_insert_by_time(txs: Seq<FinancistoTransaction>, s: Seq<usize>, j: usize)
    requires
        by_time(txs, s),
        no_repeats(s),
        !s.contains(j),
    ensures
        by_time(txs, insert_by_time(txs, s, j)),
        no_repeats(insert_by_time(txs, s, j)),
        insert_by_time(txs, s, j).len() == s.len() + 1,
        forall|x: usize| insert_by_time(txs, s, j).contains(x) <==> (s.contains(x) || x == j),
    decreases s.len(),
{
    let r = insert_by_time(txs, s, j);
    if s.len() == 0 {
        assert(r =~= seq![j]);
        assert forall|x: usize| r.contains(x) <==> (s.contains(x) || x == j) by {
            if r.contains(x) {
                assert(r[0] == j);
            }
            if x == j {
                assert(r[0] == x);
            }
        }
    } else if txs[s.last() as int].datetime <= txs[j as int].datetime {
        assert(r == s.push(j));
        assert forall|x: usize| r.contains(x) <==> (s.contains(x) || x == j) by {
            if r.contains(x) {
                let k = choose|k: int| 0 <= k < r.len() && r[k] == x;
                if k < s.len() {
                    assert(s[k] == x);
                }
            }
            if s.contains(x) {
                let k = choose|k: int| 0 <= k < s.len() && s[k] == x;
                assert(r[k] == x);
            }
            if x == j {
                assert(r[s.len() as int] == x);
            }
        }
        assert forall|a: int, b: int| 0 <= a < b < r.len() implies txs[r[a] as int].datetime <= txs[r[b] as int].datetime by {
            if b == s.len() {
                assert(txs[s[a] as int].datetime <= txs[s.last() as int].datetime || a == s.len() - 1);
            }
        }
        assert forall|a: int, b: int| 0 <= a < b < r.len() implies r[a] != r[b] by {
            if b == s.len() {
                assert(s.contains(r[a]));
            }
        }
    } else {
        let d = s.drop_last();
        let last = s.last();
        assert(by_time(txs, d));
        assert(no_repeats(d));
        assert(!d.contains(j)) by {
            if d.contains(j) {
                let k = choose|k: int| 0 <= k < d.len() && d[k] == j;
                assert(s[k] == j);
            }
        }
        lemma_insert_by_time(txs, d, j);
        let p = insert_by_time(txs, d, j);
        assert(r == p.push(last));
        assert forall|x: usize| r.contains(x) <==> (s.contains(x) || x == j) by {
            if r.contains(x) {
                let k = choose|k: int| 0 <= k < r.len() && r[k] == x;
                if k < p.len() {
                    assert(p.contains(x));
                    if d.contains(x) {
                        let q = choose|q: int| 0 <= q < d.len() && d[q] == x;
                        assert(s[q] == x);
                    }
                } else {
                    assert(s[s.len() - 1] == x);
                }
            }
            if s.contains(x) {
                let k = choose|k: int| 0 <= k < s.len() && s[k] == x;
                if k < s.len() - 1 {
                    assert(d[k] == x);
                    assert(d.contains(x));
                    assert(p.contains(x));
                    let q = choose|q: int| 0 <= q < p.len() && p[q] == x;
                    assert(r[q] == x);
                } else {
                    assert(r[p.len() as int] == x);
                }
            }
            if x == j {
                assert(p.contains(x));
                let q = choose|q: int| 0 <= q < p.len() && p[q] == x;
                assert(r[q] == x);
            }
        }
        assert forall|a: int, b: int| 0 <= a < b < r.len() implies txs[r[a] as int].datetime <= txs[r[b] as int].datetime by {
            if b == p.len() {
                assert(p.contains(r[a]));
                if d.contains(r[a]) {
                    let q = choose|q: int| 0 <= q < d.len() && d[q] == r[a];
                    assert(s[q] == r[a]);
                }
            }
        }
        assert forall|a: int, b: int| 0 <= a < b < r.len() implies r[a] != r[b] by {
            if b == p.len() {
                assert(p.contains(r[a]));
                if d.contains(r[a]) {
                    let q = choose|q: int| 0 <= q < d.len() && d[q] == r[a];
                    assert(s[q] == r[a]);
                }
            }
        }
    }
}

proof fn lemma_children_upto(txs: Seq<FinancistoTransaction>, id: i32, n: int)
    requires
        0 <= n <= txs.len(),
        txs.len() <= usize::MAX,
    ensures
        by_time(txs, children_upto(txs, id, n)),
        no_repeats(children_upto(txs, id, n)),
        forall|x: usize| children_upto(txs, id, n).contains(x) <==> (x < n && txs[x as int].parent_id == id),
    decreases n,
{
    if n > 0 {
        lemma_children_upto(txs, id, n - 1);
        let s = children_upto(txs, id, n - 1);
        if txs[n - 1].parent_id == id {
            assert(!s.contains((n - 1) as usize)) by {
                if s.contains((n - 1) as usize) {
                    assert(((n - 1) as usize) < n - 1);
                }
            }
            lemma_insert_by_time(txs, s, (n - 1) as usize);
        }
        let r = children_upto(txs, id, n);
        assert forall|x: usize| r.contains(x) <==> (x < n && txs[x as int].parent_id == id) by {
            assert(s.contains(x) <==> (x < n - 1 && txs[x as int].parent_id == id));
            if x == n - 1 {
                assert(x as int == n - 1);
            }
        }
    }
}

/// A split parent with N children gives exactly N rows after the item
/// statement it may announce, and no row of its own: the m-th row is that of
/// the m-th child by time, with the child's amount rescaled, and all carry the
/// split group of the parent's key, each at its own offset from it. The
/// children listed are exactly the transactions whose parent is the split's
/// id, each once, in time order.
pub proof fn lemma_split_completeness(
    st: RunState,
    txs: Seq<FinancistoTransaction>,
    currencies: Seq<FinancistoCurrency>,
    dates: Seq<Seq<char>>,
    i: int,
)
    requires
        0 <= i < txs.len(),
        txs.len() <= usize::MAX,
        txs[i].to_account_id == 0,
        txs[i].parent_id == 0,
        split_children(txs, txs[i].id).len() > 0,
    ensures
        ({
            let kids = split_children(txs, txs[i].id);
            let out = run_step(st, txs, currencies, dates, i).1;
            let first = out.len() - kids.len();
            &&& first >= 0
            &&& forall|j: int| 0 <= j < first ==> out[j] is Item
            &&& forall|m: int| 0 <= m < kids.len() ==> {
                &&& (#[trigger] out[first + m]) is Row
                &&& out[first + m]->Row_0.amount == txs[kids[m] as int].from_amount * AMOUNT_SCALE
                &&& out[first + m]->Row_0.account == txs[kids[m] as int].from_account_id
                &&& out[first + m]->Row_0.split_group == out[first]->Row_0.split_group
                &&& out[first + m]->Row_0.key == out[first]->Row_0.split_group + m + 1
            }
            &&& by_time(txs, kids)
            &&& no_repeats(kids)
            &&& forall|x: usize| kids.contains(x) <==> (x < txs.len() && txs[x as int].parent_id == txs[i].id)
            &&& !kids.contains(i as usize)
        }),
{
    lemma_children_upto(txs, txs[i].id, txs.len() as int);
}

/// The number of rows of `stmts` in split group `g`.
pub open spec fn group_rows(stmts: Seq<Statement>, g: int) -> nat
    decreases stmts.len(),
{
    if stmts.len() == 0 {
        0
    } else {
        group_rows(stmts.drop_last(), g) + match stmts.last() {
            Statement::Row(r) => if r.split_group == g { 1nat } else { 0nat },
            _ => 0nat,
        }
    }
}

/// Whether transaction `i` is the parent of a split.
pub open spec fn is_split_parent(txs: Seq<FinancistoTransaction>, i: int) -> bool {
    &&& txs[i].to_account_id == 0
    &&& txs[i].parent_id == 0
    &&& split_children(txs, txs[i].id).len() > 0
}

/// The key that the split of transaction `i` takes in state `st`: its split group.
pub open spec fn split_anchor(st: RunState, txs: Seq<FinancistoTransaction>, i: int) -> int {
    claim_key(note_item(st, txs[i]).0, txs[i].datetime as int, split_children(txs, txs[i].id).len() as int).1
}

proof fn lemma_group_rows_concat(a: Seq<Statement>, b: Seq<Statement>, g: int)
    ensures
        group_rows(a + b, g) == group_rows(a, g) + group_rows(b, g),
    decreases b.len(),
{
    if b.len() > 0 {
        assert((a + b).drop_last() =~= a + b.drop_last());
        lemma_group_rows_concat(a, b.drop_last(), g);
    }
}

proof fn lemma_group_rows_none(s: Seq<Statement>, g: int)
    requires
        forall|k: int| 0 <= k < s.len() ==> !((#[trigger] s[k]) is Row && s[k]->Row_0.split_group == g),
    ensures
        group_rows(s, g) == 0,
    decreases s.len(),
{
    if s.len() > 0 {
        assert(s.last() == s[s.len() - 1]);
        lemma_group_rows_none(s.drop_last(), g);
    }
}

proof fn lemma_group_rows_all(s: Seq<Statement>, g: int)
    requires
        forall|k: int| 0 <= k < s.len() ==> (#[trigger] s[k]) is Row && s[k]->Row_0.split_group == g,
    ensures
        group_rows(s, g) == s.len(),
    decreases s.len(),
{
    if s.len() > 0 {
        assert(s.last() == s[s.len() - 1]);
        lemma_group_rows_all(s.drop_last(), g);
    }
}

/// What one step adds to split group `g`, other than group 0 of the rows
/// outside any split.
proof fn lemma_step_group(
    st: RunState,
    txs: Seq<FinancistoTransaction>,
    currencies: Seq<FinancistoCurrency>,
    dates: Seq<Seq<char>>,
    j: int,
    g: int,
)
    requires
        0 <= j < txs.len(),
        g != 0,
    ensures
        group_rows(run_step(st, txs, currencies, dates, j).1, g)
            == if is_split_parent(txs, j) && split_anchor(st, txs, j) == g {
                split_children(txs, txs[j].id).len()
            } else {
                0
            },
{
    let tx = txs[j];
    let out = run_step(st, txs, currencies, dates, j).1;
    if tx.to_account_id != 0 {
        let c = claim_label(st, TRANSFER_LABEL@);
        let k = claim_key(c.0, tx.datetime as int, 2);
        let legs = out.subrange(c.1.len() as int, out.len() as int);
        assert(out =~= c.1 + legs);
        lemma_group_rows_none(c.1, g);
        lemma_group_rows_none(legs, g);
        lemma_group_rows_concat(c.1, legs, g);
    } else if tx.parent_id != 0 {
    } else {
        let c = note_item(st, tx);
        let kids = split_children(txs, tx.id);
        let rest = out.subrange(c.1.len() as int, out.len() as int);
        assert(out =~= c.1 + rest);
        lemma_group_rows_none(c.1, g);
        lemma_group_rows_concat(c.1, rest, g);
        if kids.len() == 0 {
            lemma_group_rows_none(rest, g);
        } else if split_anchor(st, txs, j) == g {
            lemma_group_rows_all(rest, g);
        } else {
            lemma_group_rows_none(rest, g);
        }
    }
}

/// The keys taken by the first `m` transactions stay, in place, after more.
proof fn lemma_used_grows(
    txs: Seq<FinancistoTransaction>,
    currencies: Seq<FinancistoCurrency>,
    dates: Seq<Seq<char>>,
    m: int,
    n: int,
)
    requires
        0 <= m <= n <= txs.len(),
    ensures
        run_upto(txs, currencies, dates, m).0.used.len() <= run_upto(txs, currencies, dates, n).0.used.len(),
        forall|k: int| 0 <= k < run_upto(txs, currencies, dates, m).0.used.len() ==>
            #[trigger] run_upto(txs, currencies, dates, n).0.used[k] == run_upto(txs, currencies, dates, m).0.used[k],
    decreases n - m,
{
    if m < n {
        lemma_used_grows(txs, currencies, dates, m, n - 1);
        let a = run_upto(txs, currencies, dates, n - 1).0.used;
        let b = run_upto(txs, currencies, dates, n).0.used;
        assert(b == a || b == a.push(b.last()));
    }
}

/// The split group of a split parent is the key its step adds to the used keys.
proof fn lemma_anchor_is_used(
    txs: Seq<FinancistoTransaction>,
    currencies: Seq<FinancistoCurrency>,
    dates: Seq<Seq<char>>,
    j: int,
)
    requires
        0 <= j < txs.len(),
        is_split_parent(txs, j),
    ensures
        ({
            let before = run_upto(txs, currencies, dates, j).0.used;
            let after = run_upto(txs, currencies, dates, j + 1).0.used;
            &&& after.len() == before.len() + 1
            &&& after[before.len() as int] == split_anchor(run_upto(txs, currencies, dates, j).0, txs, j)
        }),
{
}

proof fn lemma_run_group(
    txs: Seq<FinancistoTransaction>,
    currencies: Seq<FinancistoCurrency>,
    dates: Seq<Seq<char>>,
    i: int,
    n: int,
)
    requires
        0 <= i < txs.len(),
        0 <= n <= txs.len(),
        is_split_parent(txs, i),
        bumps_land_free(txs, currencies, dates),
        split_anchor(run_upto(txs, currencies, dates, i).0, txs, i) != 0,
    ensures
        group_rows(run_upto(txs, currencies, dates, n).1, split_anchor(run_upto(txs, currencies, dates, i).0, txs, i))
            == if i < n { split_children(txs, txs[i].id).len() } else { 0 },
    decreases n,
{
    let g = split_anchor(run_upto(txs, currencies, dates, i).0, txs, i);
    if n > 0 {
        let j = n - 1;
        lemma_run_group(txs, currencies, dates, i, j);
        let prev = run_upto(txs, currencies, dates, j);
        let step = run_step(prev.0, txs, currencies, dates, j);
        lemma_group_rows_concat(prev.1, step.1, g);
        lemma_step_group(prev.0, txs, currencies, dates, j, g);
        if j != i && is_split_parent(txs, j) {
            let len = txs.len() as int;
            lemma_keys_unique(txs, currencies, dates);
            let used = run_upto(txs, currencies, dates, len).0.used;
            let (lo, hi) = if j < i { (j, i) } else { (i, j) };
            lemma_anchor_is_used(txs, currencies, dates, lo);
            lemma_anchor_is_used(txs, currencies, dates, hi);
            lemma_used_grows(txs, currencies, dates, lo + 1, hi);
            lemma_used_grows(txs, currencies, dates, lo + 1, len);
            lemma_used_grows(txs, currencies, dates, hi + 1, len);
            let p = run_upto(txs, currencies, dates, lo).0.used.len() as int;
            let q = run_upto(txs, currencies, dates, hi).0.used.len() as int;
            assert(used[p] != used[q]);
        }
    }
}

/// Over a whole run, the rows in the split group of a split parent are
/// exactly as many as its children, wherever the bumps land on free keys and
/// the group is not 0, the group of the rows outside any split: no other
/// transaction adds a row to it. With the rows of its own step (see
/// `lemma_split_completeness`) these are one row per child.
pub proof fn lemma_split_group_in_run(
    txs: Seq<FinancistoTransaction>,
    currencies: Seq<FinancistoCurrency>,
    dates: Seq<Seq<char>>,
    i: int,
)
    requires
        0 <= i < txs.len(),
        is_split_parent(txs, i),
        bumps_land_free(txs, currencies, dates),
        split_anchor(run_upto(txs, currencies, dates, i).0, txs, i) != 0,
    ensures
        group_rows(transaction_statements(txs, currencies, dates), split_anchor(run_upto(txs, currencies, dates, i).0, txs, i))
            == split_children(txs, txs[i].id).len(),
{
    lemma_run_group(txs, currencies, dates, i, txs.len() as int);
}

} // verus!
