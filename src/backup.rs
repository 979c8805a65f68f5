//! Reading the lines of a backup into records, and records into entities.
use vstd::prelude::*;

use crate::decode::{
    account_decodes, account_fields_ok, category_decodes, category_fields_ok, currency_decodes, currency_fields_ok,
    field, field_of, names_bad_field, record_view, transaction_decodes, transaction_fields_ok,
};
use crate::error::MigrationError;
use crate::model::{FinancistoAccount, FinancistoCategory, FinancistoCurrency, FinancistoTransaction};
use crate::model::Financisto;
use crate::transactions::texts;

verus! {

/// The number of header lines before the first record.
pub const HEADER_LINES: usize = 4;

/// The index of the first `:` in `line` at or after `j`, or -1.
pub open spec fn colon_from(line: Seq<char>, j: int) -> int
    decreases line.len() - j,
{
    if j < 0 || j >= line.len() {
        -1
    } else if line[j] == ':' {
        j
    } else {
        colon_from(line, j + 1)
    }
}

/// The field that a line of a record gives: the text before its first `:`
/// (with `$ENTITY` read as `entity`), and the text after it.
pub open spec fn line_field(line: Seq<char>) -> Option<(Seq<char>, Seq<char>)> {
    let p = colon_from(line, 0);
    if p < 0 {
        None
    } else {
        let name = line.subrange(0, p);
        Some((if name == "$ENTITY"@ { "entity"@ } else { name }, line.subrange(p + 1, line.len() as int)))
    }
}

/// The fields of lines `start` up to `end`, skipping lines without a `:`.
pub open spec fn block_fields(lines: Seq<Seq<char>>, start: int, end: int) -> Seq<(Seq<char>, Seq<char>)>
    decreases end - start,
{
    if end <= start {
        Seq::empty()
    } else {
        let prev = block_fields(lines, start, end - 1);
        match line_field(lines[end - 1]) {
            Some(f) => prev.push(f),
            None => prev,
        }
    }
}

/// The index of the first end marker `$$` at or after `j`, or -1.
pub open spec fn block_end(lines: Seq<Seq<char>>, j: int) -> int
    decreases lines.len() - j,
{
    if j < 0 || j >= lines.len() {
        -1
    } else if lines[j] == "$$"@ {
        j
    } else {
        block_end(lines, j + 1)
    }
}

/// Whether a line opens a record.
pub open spec fn opens_record(line: Seq<char>) -> bool {
    line.len() >= 8 && line.subrange(0, 8) == "$ENTITY:"@
}

/// The records from line `j` on, or `None` where one is not closed.
pub open spec fn records_from(lines: Seq<Seq<char>>, j: int) -> Option<Seq<Seq<(Seq<char>, Seq<char>)>>>
    decreases lines.len() - j,
{
    if j < 0 || j >= lines.len() {
        Some(Seq::empty())
    } else if opens_record(lines[j]) {
        let e = block_end(lines, j);
        if e < j || e >= lines.len() {
            None
        } else {
            match records_from(lines, e + 1) {
                Some(rest) => Some(seq![block_fields(lines, j, e)] + rest),
                None => None,
            }
        }
    } else {
        records_from(lines, j + 1)
    }
}

fn colon_position(line: &str) -> (r: Option<usize>)
    ensures
        match r {
            Some(p) => colon_from(line@, 0) == p as int && p < line@.len(),
            None => colon_from(line@, 0) == -1,
        },
{
    let n = line.unicode_len();
    let mut j: usize = 0;
    while j < n
        invariant
            n == line@.len(),
            j <= n,
            colon_from(line@, 0) == colon_from(line@, j as int),
        decreases n - j,
    {
        if line.get_char(j) == ':' {
            return Some(j);
        }
        j = j + 1;
    }
    None
}

/// Reads the record that starts at line `*index`, up to its end marker `$$`,
/// and moves `*index` past the marker; `None` where no marker follows.
pub fn convert_entity(lines: &Vec<String>, index: &mut usize) -> (r: Option<Vec<(String, String)>>)
    requires
        *old(index) <= lines@.len(),
    ensures
        block_end(texts(lines@), *old(index) as int) < 0 <==> r is None,
        r matches Some(rec) ==> record_view(rec@) == block_fields(texts(lines@), *old(index) as int, block_end(texts(lines@), *old(index) as int)),
        r is Some ==> *final(index) == block_end(texts(lines@), *old(index) as int) + 1,
{
    let ghost ls = texts(lines@);
    let ghost start = *index as int;
    let end_marker = String::from_str("$$");
    let entity_tag = String::from_str("$ENTITY");
    let mut rec: Vec<(String, String)> = Vec::new();
    assert(record_view(rec@) =~= block_fields(ls, start, start));
    while *index < lines.len()
        invariant
            ls == texts(lines@),
            start == *old(index) as int,
            start <= *index <= lines@.len(),
            end_marker@ == "$$"@,
            entity_tag@ == "$ENTITY"@,
            block_end(ls, start) == block_end(ls, *index as int),
            record_view(rec@) == block_fields(ls, start, *index as int),
        decreases lines@.len() - *index,
    {
        let i = *index;
        let line = &lines[i];
        *index = i + 1;
        assert(ls[i as int] == line@);
        if line.eq(&end_marker) {
            assert(block_end(ls, i as int) == i);
            return Some(rec);
        }
        let n = line.as_str().unicode_len();
        match colon_position(line.as_str()) {
            Some(p) => {
                let name = line.as_str().substring_char(0, p);
                let value = line.as_str().substring_char(p + 1, n);
                let name_s = String::from_str(name);
                let key = if name_s.eq(&entity_tag) { String::from_str("entity") } else { name_s };
                let ghost pre = rec@;
                rec.push((key, String::from_str(value)));
                assert(record_view(rec@) =~= record_view(pre).push(line_field(ls[i as int])->Some_0));
            },
            None => {},
        }
    }
    None
}

/// Reads all records of a backup, after its header lines; `None` where a
/// record is not closed. Lines outside records are skipped.
pub fn read_records(lines: &Vec<String>) -> (r: Option<Vec<Vec<(String, String)>>>)
    ensures
        match r {
            Some(recs) => records_from(texts(lines@), HEADER_LINES as int)
                == Some(recs@.map_values(|rec: Vec<(String, String)>| record_view(rec@))),
            None => records_from(texts(lines@), HEADER_LINES as int) is None,
        },
{
    let ghost ls = texts(lines@);
    let prefix = String::from_str("$ENTITY:");
    let mut recs: Vec<Vec<(String, String)>> = Vec::new();
    let mut index: usize = HEADER_LINES;
    while index < lines.len()
        invariant
            ls == texts(lines@),
            HEADER_LINES <= index,
            prefix@ == "$ENTITY:"@,
            ({
                let done = recs@.map_values(|rec: Vec<(String, String)>| record_view(rec@));
                records_from(ls, HEADER_LINES as int) == match records_from(ls, index as int) {
                    Some(rest) => Some(done + rest),
                    None => None,
                }
            }),
        decreases lines@.len() - index,
    {
        assert(ls[index as int] == lines@[index as int]@);
        proof { reveal_strlit("$ENTITY:"); }
        if starts_with(&lines[index], &prefix) {
            let ghost j = index as int;
            proof { lemma_block_end_after(ls, j); }
            let ghost done = recs@.map_values(|rec: Vec<(String, String)>| record_view(rec@));
            match convert_entity(lines, &mut index) {
                Some(rec) => {
                    recs.push(rec);
                    let ghost e = block_end(ls, j);
                    assert(opens_record(ls[j]));
                    assert(recs@.map_values(|rec: Vec<(String, String)>| record_view(rec@)) =~= done + seq![block_fields(ls, j, e)]);
                    proof {
                        match records_from(ls, e + 1) {
                            Some(rest) => {
                                assert(done + (seq![block_fields(ls, j, e)] + rest) =~= (done + seq![block_fields(ls, j, e)]) + rest);
                            },
                            None => {},
                        }
                    }
                },
                None => {
                    assert(opens_record(ls[j]));
                    return None;
                },
            }
        } else {
            index = index + 1;
        }
    }
    assert(recs@.map_values(|rec: Vec<(String, String)>| record_view(rec@)) + Seq::empty()
        =~= recs@.map_values(|rec: Vec<(String, String)>| record_view(rec@)));
    Some(recs)
}

proof fn lemma_block_end_after(lines: Seq<Seq<char>>, j: int)
    ensures
        block_end(lines, j) == -1 || j <= block_end(lines, j) < lines.len(),
    decreases lines.len() - j,
{
    if 0 <= j < lines.len() && lines[j] != "$$"@ {
        lemma_block_end_after(lines, j + 1);
    }
}

fn starts_with(s: &String, prefix: &String) -> (r: bool)
    ensures
        r == (s@.len() >= prefix@.len() && s@.subrange(0, prefix@.len() as int) == prefix@),
{
    let n = prefix.as_str().unicode_len();
    if s.as_str().unicode_len() < n {
        return false;
    }
    let mut j: usize = 0;
    while j < n
        invariant
            n == prefix@.len(),
            n <= s@.len(),
            j <= n,
            forall|k: int| 0 <= k < j ==> s@[k] == prefix@[k],
        decreases n - j,
    {
        if s.as_str().get_char(j) != prefix.as_str().get_char(j) {
            assert(s@.subrange(0, n as int)[j as int] != prefix@[j as int]);
            return false;
        }
        j = j + 1;
    }
    assert(s@.subrange(0, n as int) =~= prefix@);
    true
}

/// The records of kind `kind` among the first `n`.
pub open spec fn kind_records(recs: Seq<Seq<(Seq<char>, Seq<char>)>>, kind: Seq<char>, n: int) -> Seq<Seq<(Seq<char>, Seq<char>)>>
    decreases n,
{
    if n <= 0 {
        Seq::empty()
    } else {
        let prev = kind_records(recs, kind, n - 1);
        if field_of(recs[n - 1], "entity"@) == Some(kind) {
            prev.push(recs[n - 1])
        } else {
            prev
        }
    }
}

/// The records of kind `kind`.
pub open spec fn records_of(recs: Seq<Seq<(Seq<char>, Seq<char>)>>, kind: Seq<char>) -> Seq<Seq<(Seq<char>, Seq<char>)>> {
    kind_records(recs, kind, recs.len() as int)
}

/// Whether a record decodes: one of a known kind has all its required
/// fields; one of another kind, or without kind, is skipped.
pub open spec fn record_decodes(rec: Seq<(Seq<char>, Seq<char>)>) -> bool {
    match field_of(rec, "entity"@) {
        Some(k) => if k == "currency"@ {
            currency_fields_ok(rec)
        } else if k == "account"@ {
            account_fields_ok(rec)
        } else if k == "category"@ {
            category_fields_ok(rec)
        } else if k == "transactions"@ {
            transaction_fields_ok(rec)
        } else {
            true
        },
        None => true,
    }
}

fn is_kind(kind: &String, name: &str) -> (r: bool)
    ensures
        r == (kind@ == name@),
{
    let t = String::from_str(name);
    kind.eq(&t)
}

proof fn lemma_kinds_distinct()
    ensures
        "currency"@ != "account"@,
        "currency"@ != "category"@,
        "currency"@ != "transactions"@,
        "account"@ != "category"@,
        "account"@ != "transactions"@,
        "category"@ != "transactions"@,
{
    reveal_strlit("currency");
    reveal_strlit("account");
    reveal_strlit("category");
    reveal_strlit("transactions");
    assert("currency"@.len() != "account"@.len());
    assert("currency"@[2] != "category"@[2]);
    assert("currency"@.len() != "transactions"@.len());
    assert("account"@.len() != "category"@.len());
    assert("account"@.len() != "transactions"@.len());
    assert("category"@.len() != "transactions"@.len());
}

/// Decodes a record into the entities of its kind; one of another kind, or
/// without kind, is skipped.
fn add_record(data: &mut Financisto, rec: &Vec<(String, String)>) -> (r: Result<(), MigrationError>)
    ensures
        r is Ok <==> record_decodes(record_view(rec@)),
        r matches Err(e) ==> names_bad_field(record_view(rec@), e),
        r is Ok && field_of(record_view(rec@), "entity"@) == Some("currency"@) ==> {
            &&& final(data).currencies@.len() == old(data).currencies@.len() + 1
            &&& final(data).currencies@.drop_last() == old(data).currencies@
            &&& currency_decodes(record_view(rec@), final(data).currencies@.last())
        },
        field_of(record_view(rec@), "entity"@) != Some("currency"@) ==> final(data).currencies@ == old(data).currencies@,
        r is Ok && field_of(record_view(rec@), "entity"@) == Some("account"@) ==> {
            &&& final(data).accounts@.len() == old(data).accounts@.len() + 1
            &&& final(data).accounts@.drop_last() == old(data).accounts@
            &&& account_decodes(record_view(rec@), final(data).accounts@.last())
        },
        field_of(record_view(rec@), "entity"@) != Some("account"@) ==> final(data).accounts@ == old(data).accounts@,
        r is Ok && field_of(record_view(rec@), "entity"@) == Some("category"@) ==> {
            &&& final(data).categories@.len() == old(data).categories@.len() + 1
            &&& final(data).categories@.drop_last() == old(data).categories@
            &&& category_decodes(record_view(rec@), final(data).categories@.last())
        },
        field_of(record_view(rec@), "entity"@) != Some("category"@) ==> final(data).categories@ == old(data).categories@,
        r is Ok && field_of(record_view(rec@), "entity"@) == Some("transactions"@) ==> {
            &&& final(data).transactions@.len() == old(data).transactions@.len() + 1
            &&& final(data).transactions@.drop_last() == old(data).transactions@
            &&& transaction_decodes(record_view(rec@), final(data).transactions@.last())
        },
        field_of(record_view(rec@), "entity"@) != Some("transactions"@) ==> final(data).transactions@ == old(data).transactions@,
{
    proof {
        lemma_kinds_distinct();
    }
    match field(rec, "entity") {
        None => Ok(()),
        Some(kind) => if is_kind(kind, "currency") {
            match FinancistoCurrency::from_record(rec) {
                Ok(x) => {
                    data.currencies.push(x);
                    Ok(())
                },
                Err(e) => Err(e),
            }
        } else if is_kind(kind, "account") {
            match FinancistoAccount::from_record(rec) {
                Ok(x) => {
                    data.accounts.push(x);
                    Ok(())
                },
                Err(e) => Err(e),
            }
        } else if is_kind(kind, "category") {
            match FinancistoCategory::from_record(rec) {
                Ok(x) => {
                    data.categories.push(x);
                    Ok(())
                },
                Err(e) => Err(e),
            }
        } else if is_kind(kind, "transactions") {
            match FinancistoTransaction::from_record(rec) {
                Ok(x) => {
                    data.transactions.push(x);
                    Ok(())
                },
                Err(e) => Err(e),
            }
        } else {
            Ok(())
        },
    }
}

/// Reads the entities of a backup's lines: the currencies, accounts,
/// categories and transactions, each in the order of their records.
pub fn convert_maps(lines: &Vec<String>) -> (r: Result<Financisto, MigrationError>)
    ensures
        records_from(texts(lines@), HEADER_LINES as int) is None
            ==> r == Err::<Financisto, MigrationError>(MigrationError::UnterminatedRecord),
        match records_from(texts(lines@), HEADER_LINES as int) {
            Some(recs) => {
                &&& (r is Ok <==> (forall|k: int| 0 <= k < recs.len() ==> record_decodes(#[trigger] recs[k])))
                &&& (r matches Err(e) ==> (exists|k: int| 0 <= k < recs.len() && names_bad_field(#[trigger] recs[k], e)))
            },
            None => true,
        },
        match r {
            Ok(d) => records_from(texts(lines@), HEADER_LINES as int) matches Some(recs) && {
                &&& d.currencies@.len() == records_of(recs, "currency"@).len()
                &&& forall|i: int| 0 <= i < d.currencies@.len() ==>
                    currency_decodes(records_of(recs, "currency"@)[i], #[trigger] d.currencies@[i])
                &&& d.accounts@.len() == records_of(recs, "account"@).len()
                &&& forall|i: int| 0 <= i < d.accounts@.len() ==>
                    account_decodes(records_of(recs, "account"@)[i], #[trigger] d.accounts@[i])
                &&& d.categories@.len() == records_of(recs, "category"@).len()
                &&& forall|i: int| 0 <= i < d.categories@.len() ==>
                    category_decodes(records_of(recs, "category"@)[i], #[trigger] d.categories@[i])
                &&& d.transactions@.len() == records_of(recs, "transactions"@).len()
                &&& forall|i: int| 0 <= i < d.transactions@.len() ==>
                    transaction_decodes(records_of(recs, "transactions"@)[i], #[trigger] d.transactions@[i])
            },
            Err(_) => true,
        },
{
    let recs = match read_records(lines) {
        Some(recs) => recs,
        None => {
            return Err(MigrationError::UnterminatedRecord);
        },
    };
    let ghost rv = recs@.map_values(|rec: Vec<(String, String)>| record_view(rec@));
    let mut data = Financisto::new();
    let mut k: usize = 0;
    while k < recs.len()
        invariant
            k <= recs@.len(),
            rv == recs@.map_values(|rec: Vec<(String, String)>| record_view(rec@)),
            records_from(texts(lines@), HEADER_LINES as int) == Some(rv),
            forall|j: int| 0 <= j < k ==> record_decodes(#[trigger] rv[j]),
            data.currencies@.len() == kind_records(rv, "currency"@, k as int).len(),
            forall|i: int| 0 <= i < data.currencies@.len() ==>
                currency_decodes(kind_records(rv, "currency"@, k as int)[i], #[trigger] data.currencies@[i]),
            data.accounts@.len() == kind_records(rv, "account"@, k as int).len(),
            forall|i: int| 0 <= i < data.accounts@.len() ==>
                account_decodes(kind_records(rv, "account"@, k as int)[i], #[trigger] data.accounts@[i]),
            data.categories@.len() == kind_records(rv, "category"@, k as int).len(),
            forall|i: int| 0 <= i < data.categories@.len() ==>
                category_decodes(kind_records(rv, "category"@, k as int)[i], #[trigger] data.categories@[i]),
            data.transactions@.len() == kind_records(rv, "transactions"@, k as int).len(),
            forall|i: int| 0 <= i < data.transactions@.len() ==>
                transaction_decodes(kind_records(rv, "transactions"@, k as int)[i], #[trigger] data.transactions@[i]),
        decreases recs@.len() - k,
    {
        let rec = &recs[k];
        assert(rv[k as int] == record_view(rec@));
        let ghost before = data;
        proof {
            lemma_kinds_distinct();
        }
        match add_record(&mut data, rec) {
            Ok(()) => {
                assert(forall|i: int| 0 <= i < data.currencies@.len() ==>
                    currency_decodes(kind_records(rv, "currency"@, k + 1)[i], #[trigger] data.currencies@[i])) by {
                    if field_of(rv[k as int], "entity"@) == Some("currency"@) {
                        assert forall|i: int| 0 <= i < data.currencies@.len() implies
                            currency_decodes(kind_records(rv, "currency"@, k + 1)[i], #[trigger] data.currencies@[i]) by {
                            if i < data.currencies@.len() - 1 {
                                assert(data.currencies@[i] == before.currencies@[i]);
                            }
                        }
                    }
                }
                assert(forall|i: int| 0 <= i < data.accounts@.len() ==>
                    account_decodes(kind_records(rv, "account"@, k + 1)[i], #[trigger] data.accounts@[i])) by {
                    if field_of(rv[k as int], "entity"@) == Some("account"@) {
                        assert forall|i: int| 0 <= i < data.accounts@.len() implies
                            account_decodes(kind_records(rv, "account"@, k + 1)[i], #[trigger] data.accounts@[i]) by {
                            if i < data.accounts@.len() - 1 {
                                assert(data.accounts@[i] == before.accounts@[i]);
                            }
                        }
                    }
                }
                assert(forall|i: int| 0 <= i < data.categories@.len() ==>
                    category_decodes(kind_records(rv, "category"@, k + 1)[i], #[trigger] data.categories@[i])) by {
                    if field_of(rv[k as int], "entity"@) == Some("category"@) {
                        assert forall|i: int| 0 <= i < data.categories@.len() implies
                            category_decodes(kind_records(rv, "category"@, k + 1)[i], #[trigger] data.categories@[i]) by {
                            if i < data.categories@.len() - 1 {
                                assert(data.categories@[i] == before.categories@[i]);
                            }
                        }
                    }
                }
                assert(forall|i: int| 0 <= i < data.transactions@.len() ==>
                    transaction_decodes(kind_records(rv, "transactions"@, k + 1)[i], #[trigger] data.transactions@[i])) by {
                    if field_of(rv[k as int], "entity"@) == Some("transactions"@) {
                        assert forall|i: int| 0 <= i < data.transactions@.len() implies
                            transaction_decodes(kind_records(rv, "transactions"@, k + 1)[i], #[trigger] data.transactions@[i]) by {
                            if i < data.transactions@.len() - 1 {
                                assert(data.transactions@[i] == before.transactions@[i]);
                            }
                        }
                    }
                }
            },
            Err(e) => {
                assert(!(forall|j: int| 0 <= j < rv.len() ==> record_decodes(#[trigger] rv[j])));
                assert(exists|j: int| 0 <= j < rv.len() && names_bad_field(#[trigger] rv[j], e));
                assert(records_from(texts(lines@), HEADER_LINES as int) == Some(rv));
                let ghost recs = records_from(texts(lines@), HEADER_LINES as int)->Some_0;
                assert(!(forall|j: int| 0 <= j < recs.len() ==> record_decodes(#[trigger] recs[j])));
                return Err(e);
            },
        }
        k = k + 1;
    }
    Ok(data)
}

/// Whether some record of `list` has kind `kind`.
pub open spec fn kind_present(list: Seq<Vec<(String, String)>>, kind: Seq<char>) -> bool {
    exists|k: int| 0 <= k < list.len() && field_of(record_view(#[trigger] list[k]@), "entity"@) == Some(kind)
}

/// Whether `x` is one of the strings of `v`.
pub open spec fn listed(v: Seq<String>, x: Seq<char>) -> bool {
    exists|j: int| 0 <= j < v.len() && #[trigger] v[j]@ == x
}

fn contains_text(v: &Vec<String>, s: &String) -> (r: bool)
    ensures
        r == listed(v@, s@),
{
    let mut j: usize = 0;
    while j < v.len()
        invariant
            j <= v@.len(),
            forall|i: int| 0 <= i < j ==> #[trigger] v@[i]@ != s@,
        decreases v@.len() - j,
    {
        if v[j].eq(s) {
            return true;
        }
        j = j + 1;
    }
    false
}

/// The kinds of the records of `list`, each once, in order of first
/// appearance; records without kind are passed over.
pub fn print_entity(list: &Vec<Vec<(String, String)>>) -> (r: Vec<String>)
    ensures
        forall|a: int, b: int| 0 <= a < b < r@.len() ==> r@[a]@ != r@[b]@,
        forall|kind: Seq<char>| #[trigger] listed(r@, kind) <==> kind_present(list@, kind),
{
    let mut kinds: Vec<String> = Vec::new();
    let mut k: usize = 0;
    while k < list.len()
        invariant
            k <= list@.len(),
            forall|a: int, b: int| 0 <= a < b < kinds@.len() ==> kinds@[a]@ != kinds@[b]@,
            forall|kind: Seq<char>| #[trigger] listed(kinds@, kind) <==> kind_present(list@.subrange(0, k as int), kind),
        decreases list@.len() - k,
    {
        let ghost before = kinds@;
        assert forall|kind: Seq<char>| #[trigger] kind_present(list@.subrange(0, k + 1), kind)
            <==> (kind_present(list@.subrange(0, k as int), kind)
                || field_of(record_view(list@[k as int]@), "entity"@) == Some(kind)) by {
            if kind_present(list@.subrange(0, k + 1), kind) {
                let i = choose|i: int| 0 <= i < k + 1 && field_of(record_view(#[trigger] list@.subrange(0, k + 1)[i]@), "entity"@) == Some(kind);
                if i < k {
                    assert(list@.subrange(0, k as int)[i] == list@.subrange(0, k + 1)[i]);
                }
            }
            if kind_present(list@.subrange(0, k as int), kind) {
                let i = choose|i: int| 0 <= i < k && field_of(record_view(#[trigger] list@.subrange(0, k as int)[i]@), "entity"@) == Some(kind);
                assert(list@.subrange(0, k as int)[i] == list@.subrange(0, k + 1)[i]);
            }
            if field_of(record_view(list@[k as int]@), "entity"@) == Some(kind) {
                assert(list@.subrange(0, k + 1)[k as int] == list@[k as int]);
            }
        }
        match field(&list[k], "entity") {
            Some(kind) => {
                if !contains_text(&kinds, kind) {
                    kinds.push(kind.clone());
                    assert forall|x: Seq<char>| #[trigger] listed(kinds@, x) <==> listed(before, x) || x == kind@ by {
                        if listed(before, x) {
                            let j = choose|j: int| 0 <= j < before.len() && #[trigger] before[j]@ == x;
                            assert(kinds@[j] == before[j]);
                        }
                        if x == kind@ {
                            assert(kinds@[before.len() as int]@ == x);
                        }
                    }
                }
            },
            None => {},
        }
        k = k + 1;
    }
    assert(list@.subrange(0, list@.len() as int) =~= list@);
    kinds
}

} // verus!
