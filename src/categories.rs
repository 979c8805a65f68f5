//! The category transform: the nested-set tree of Financisto becomes the two
//! levels of Bluecoins, parent categories and child categories.
use vstd::prelude::*;

use crate::error::MigrationError;
use crate::model::FinancistoCategory;
use crate::sql::{child_category_sql, child_category_text, parent_category_sql, parent_category_text};
use crate::transactions::texts;

verus! {

/// The title of the category that goes into the income group.
pub const INCOME_TITLE: &'static str = "收入";

/// One row of the category tables.
pub enum CategoryRow {
    Parent { id: int, title: Seq<char>, group: Seq<char> },
    Child { id: int, title: Seq<char>, parent: int },
}

/// The statement that inserts a category row.
pub open spec fn category_row_text(r: CategoryRow) -> Seq<char> {
    match r {
        CategoryRow::Parent { id, title, group } => parent_category_text(id, title, group),
        CategoryRow::Child { id, title, parent } => child_category_text(id, title, parent),
    }
}

/// Whether the interval of `n` strictly contains that of `m`.
pub open spec fn encloses(n: FinancistoCategory, m: FinancistoCategory) -> bool {
    n.left < m.left && n.right > m.right
}

/// Whether some category of `cats` strictly contains `m`.
pub open spec fn has_encloser(cats: Seq<FinancistoCategory>, m: FinancistoCategory) -> bool {
    exists|j: int| 0 <= j < cats.len() && encloses(#[trigger] cats[j], m)
}

/// A top-level category: it has descendants, or nothing contains it.
pub open spec fn is_top(cats: Seq<FinancistoCategory>, m: FinancistoCategory) -> bool {
    m.right - m.left > 1 || !has_encloser(cats, m)
}

/// A leaf category under some top-level one.
pub open spec fn is_leaf(cats: Seq<FinancistoCategory>, m: FinancistoCategory) -> bool {
    m.right - m.left == 1 && has_encloser(cats, m)
}

/// The group of a top-level category.
pub open spec fn group_code(title: Seq<char>) -> Seq<char> {
    if title == INCOME_TITLE@ { "2"@ } else { "3"@ }
}

/// The index of the first top-level category at or after `j` that contains `m`,
/// or the number of categories if there is none.
pub open spec fn parent_index(cats: Seq<FinancistoCategory>, m: FinancistoCategory, j: int) -> int
    decreases cats.len() - j,
{
    if j < 0 || j >= cats.len() {
        cats.len() as int
    } else if is_top(cats, cats[j]) && encloses(cats[j], m) {
        j
    } else {
        parent_index(cats, m, j + 1)
    }
}

/// The rows of the top-level categories among the first `n`: each is a parent
/// and a child of itself.
pub open spec fn top_rows(cats: Seq<FinancistoCategory>, n: int) -> Seq<CategoryRow>
    decreases n,
{
    if n <= 0 {
        Seq::empty()
    } else {
        let m = cats[n - 1];
        if is_top(cats, m) {
            top_rows(cats, n - 1) + seq![
                CategoryRow::Parent { id: m.id as int, title: m.title@, group: group_code(m.title@) },
                CategoryRow::Child { id: m.id as int, title: m.title@, parent: m.id as int },
            ]
        } else {
            top_rows(cats, n - 1)
        }
    }
}

/// The rows of the leaf categories among the first `n`, each under its first
/// top-level encloser.
pub open spec fn leaf_rows(cats: Seq<FinancistoCategory>, n: int) -> Seq<CategoryRow>
    decreases n,
{
    if n <= 0 {
        Seq::empty()
    } else {
        let m = cats[n - 1];
        if is_leaf(cats, m) {
            leaf_rows(cats, n - 1) + seq![
                CategoryRow::Child { id: m.id as int, title: m.title@, parent: cats[parent_index(cats, m, 0)].id as int },
            ]
        } else {
            leaf_rows(cats, n - 1)
        }
    }
}

/// The rows of the category transform.
pub open spec fn category_rows(cats: Seq<FinancistoCategory>) -> Seq<CategoryRow> {
    top_rows(cats, cats.len() as int) + leaf_rows(cats, cats.len() as int)
}

/// The statements of the category transform.
pub open spec fn category_statements(cats: Seq<FinancistoCategory>) -> Seq<Seq<char>> {
    category_rows(cats).map_values(|r: CategoryRow| category_row_text(r))
}

fn encloses_exec(n: &FinancistoCategory, m: &FinancistoCategory) -> (r: bool)
    ensures
        r == encloses(*n, *m),
{
    n.left < m.left && n.right > m.right
}

fn has_encloser_exec(cats: &Vec<FinancistoCategory>, m: &FinancistoCategory) -> (r: bool)
    ensures
        r == has_encloser(cats@, *m),
{
    let mut j: usize = 0;
    while j < cats.len()
        invariant
            j <= cats@.len(),
            forall|k: int| 0 <= k < j ==> !encloses(#[trigger] cats@[k], *m),
        decreases cats@.len() - j,
    {
        if encloses_exec(&cats[j], m) {
            assert(encloses(cats@[j as int], *m));
            return true;
        }
        j = j + 1;
    }
    false
}

fn width(m: &FinancistoCategory) -> (r: i64)
    ensures
        r == m.right - m.left,
{
    m.right as i64 - m.left as i64
}

fn is_top_exec(cats: &Vec<FinancistoCategory>, m: &FinancistoCategory) -> (r: bool)
    ensures
        r == is_top(cats@, *m),
{
    width(m) > 1 || !has_encloser_exec(cats, m)
}

fn is_leaf_exec(cats: &Vec<FinancistoCategory>, m: &FinancistoCategory) -> (r: bool)
    ensures
        r == is_leaf(cats@, *m),
{
    width(m) == 1 && has_encloser_exec(cats, m)
}

/// The index of the first top-level category that contains the leaf `m`.
fn parent_index_exec(cats: &Vec<FinancistoCategory>, m: &FinancistoCategory) -> (r: usize)
    requires
        is_leaf(cats@, *m),
    ensures
        r as int == parent_index(cats@, *m, 0),
        r < cats@.len(),
{
    let ghost e = choose|e: int| 0 <= e < cats@.len() && encloses(#[trigger] cats@[e], *m);
    assert(is_top(cats@, cats@[e]));
    let mut j: usize = 0;
    while j < cats.len()
        invariant
            j <= e < cats@.len(),
            encloses(cats@[e], *m),
            is_top(cats@, cats@[e]),
            parent_index(cats@, *m, 0) == parent_index(cats@, *m, j as int),
        decreases cats@.len() - j,
    {
        if is_top_exec(cats, &cats[j]) && encloses_exec(&cats[j], m) {
            return j;
        }
        j = j + 1;
    }
    0
}

fn group(title: &String) -> (r: &'static str)
    ensures
        r@ == group_code(title@),
{
    let income = String::from_str(INCOME_TITLE);
    if title.eq(&income) {
        "2"
    } else {
        "3"
    }
}

/// The statements of the category transform: first a parent and a child row
/// for each top-level category, then a child row for each leaf.
pub fn migrate_categories(categories: &Vec<FinancistoCategory>) -> (r: Result<Vec<String>, MigrationError>)
    ensures
        r matches Ok(s) && texts(s@) == category_statements(categories@),
{
    let ghost cats = categories@;
    let n = categories.len();
    let mut out: Vec<String> = Vec::new();
    let mut k: usize = 0;
    assert(texts(out@) =~= top_rows(cats, 0).map_values(|r: CategoryRow| category_row_text(r)));
    while k < n
        invariant
            n == cats.len(),
            cats == categories@,
            k <= n,
            texts(out@) == top_rows(cats, k as int).map_values(|r: CategoryRow| category_row_text(r)),
        decreases n - k,
    {
        let m = &categories[k];
        let ghost pre = out@;
        if is_top_exec(categories, m) {
            out.push(parent_category_sql(m.id as i64, m.title.as_str(), group(&m.title)));
            out.push(child_category_sql(m.id as i64, m.title.as_str(), m.id as i64));
            let ghost row_p = CategoryRow::Parent { id: m.id as int, title: m.title@, group: group_code(m.title@) };
            let ghost row_c = CategoryRow::Child { id: m.id as int, title: m.title@, parent: m.id as int };
            assert(top_rows(cats, k + 1) == top_rows(cats, k as int) + seq![row_p, row_c]);
            assert(top_rows(cats, k + 1).map_values(|r: CategoryRow| category_row_text(r))
                =~= top_rows(cats, k as int).map_values(|r: CategoryRow| category_row_text(r))
                + seq![category_row_text(row_p), category_row_text(row_c)]);
            assert(texts(out@) =~= texts(pre) + seq![category_row_text(row_p), category_row_text(row_c)]);
        }
        k = k + 1;
    }
    let ghost tops = out@;
    let mut k: usize = 0;
    assert(texts(out@) =~= texts(tops) + leaf_rows(cats, 0).map_values(|r: CategoryRow| category_row_text(r)));
    while k < n
        invariant
            n == cats.len(),
            cats == categories@,
            k <= n,
            texts(out@) == texts(tops) + leaf_rows(cats, k as int).map_values(|r: CategoryRow| category_row_text(r)),
        decreases n - k,
    {
        let m = &categories[k];
        if is_leaf_exec(categories, m) {
            let p = parent_index_exec(categories, m);
            let ghost pre = out@;
            out.push(child_category_sql(m.id as i64, m.title.as_str(), categories[p].id as i64));
            let ghost row_c = CategoryRow::Child { id: m.id as int, title: m.title@, parent: cats[parent_index(cats, *m, 0)].id as int };
            assert(leaf_rows(cats, k + 1) == leaf_rows(cats, k as int) + seq![row_c]);
            assert(leaf_rows(cats, k + 1).map_values(|r: CategoryRow| category_row_text(r))
                =~= leaf_rows(cats, k as int).map_values(|r: CategoryRow| category_row_text(r)) + seq![category_row_text(row_c)]);
            assert(texts(out@) =~= texts(pre) + seq![category_row_text(row_c)]);
            assert(texts(out@) =~= texts(tops) + leaf_rows(cats, k + 1).map_values(|r: CategoryRow| category_row_text(r)));
        }
        k = k + 1;
    }
    assert(texts(out@) =~= category_statements(cats));
    Ok(out)
}

/// The number of child rows with id `id`.
pub open spec fn child_count(rows: Seq<CategoryRow>, id: int) -> nat
    decreases rows.len(),
{
    if rows.len() == 0 {
        0
    } else {
        child_count(rows.drop_last(), id) + match rows.last() {
            CategoryRow::Child { id: x, .. } => if x == id { 1nat } else { 0nat },
            _ => 0nat,
        }
    }
}

/// The number of top-level categories among the first `n` with id `id`.
pub open spec fn top_id_count(cats: Seq<FinancistoCategory>, n: int, id: int) -> nat
    decreases n,
{
    if n <= 0 {
        0
    } else {
        top_id_count(cats, n - 1, id) + if cats[n - 1].id == id && is_top(cats, cats[n - 1]) { 1nat } else { 0nat }
    }
}

/// The number of leaf categories among the first `n` with id `id`.
pub open spec fn leaf_id_count(cats: Seq<FinancistoCategory>, n: int, id: int) -> nat
    decreases n,
{
    if n <= 0 {
        0
    } else {
        leaf_id_count(cats, n - 1, id) + if cats[n - 1].id == id && is_leaf(cats, cats[n - 1]) { 1nat } else { 0nat }
    }
}

/// The number of categories among the first `n` with id `id`.
pub open spec fn id_count(cats: Seq<FinancistoCategory>, n: int, id: int) -> nat
    decreases n,
{
    if n <= 0 {
        0
    } else {
        id_count(cats, n - 1, id) + if cats[n - 1].id == id { 1nat } else { 0nat }
    }
}

/// Nested-set intervals that are not empty, and ids that are unique.
pub open spec fn categories_well_formed(cats: Seq<FinancistoCategory>) -> bool {
    &&& forall|i: int| 0 <= i < cats.len() ==> (#[trigger] cats[i]).left < cats[i].right
    &&& forall|a: int, b: int| 0 <= a < b < cats.len() ==> (#[trigger] cats[a]).id != (#[trigger] cats[b]).id
}

proof fn lemma_child_count_concat(a: Seq<CategoryRow>, b: Seq<CategoryRow>, id: int)
    ensures
        child_count(a + b, id) == child_count(a, id) + child_count(b, id),
    decreases b.len(),
{
    if b.len() > 0 {
        assert((a + b).drop_last() =~= a + b.drop_last());
        lemma_child_count_concat(a, b.drop_last(), id);
    }
}

proof fn lemma_top_count(cats: Seq<FinancistoCategory>, n: int, id: int)
    requires
        0 <= n <= cats.len(),
    ensures
        child_count(top_rows(cats, n), id) == top_id_count(cats, n, id),
    decreases n,
{
    if n > 0 {
        lemma_top_count(cats, n - 1, id);
        let m = cats[n - 1];
        if is_top(cats, m) {
            let pair = seq![
                CategoryRow::Parent { id: m.id as int, title: m.title@, group: group_code(m.title@) },
                CategoryRow::Child { id: m.id as int, title: m.title@, parent: m.id as int },
            ];
            lemma_child_count_concat(top_rows(cats, n - 1), pair, id);
            assert(pair.drop_last().drop_last() =~= Seq::<CategoryRow>::empty());
            assert(child_count(pair.drop_last().drop_last(), id) == 0);
            assert(pair.drop_last().last() == pair[0]);
            assert(pair.last() == pair[1]);
            assert(child_count(pair.drop_last(), id) == 0);
            assert(child_count(pair, id) == if m.id as int == id { 1nat } else { 0nat });
        }
    }
}

proof fn lemma_leaf_count(cats: Seq<FinancistoCategory>, n: int, id: int)
    requires
        0 <= n <= cats.len(),
    ensures
        child_count(leaf_rows(cats, n), id) == leaf_id_count(cats, n, id),
    decreases n,
{
    if n > 0 {
        lemma_leaf_count(cats, n - 1, id);
        let m = cats[n - 1];
        if is_leaf(cats, m) {
            let one = seq![
                CategoryRow::Child { id: m.id as int, title: m.title@, parent: cats[parent_index(cats, m, 0)].id as int },
            ];
            lemma_child_count_concat(leaf_rows(cats, n - 1), one, id);
            assert(one.drop_last() =~= Seq::<CategoryRow>::empty());
            assert(child_count(one.drop_last(), id) == 0);
            assert(one.last() == one[0]);
            assert(child_count(one, id) == if m.id as int == id { 1nat } else { 0nat });
        }
    }
}

proof fn lemma_top_or_leaf(cats: Seq<FinancistoCategory>, n: int, id: int)
    requires
        0 <= n <= cats.len(),
        categories_well_formed(cats),
    ensures
        top_id_count(cats, n, id)
            + leaf_id_count(cats, n, id)
            == id_count(cats, n, id),
    decreases n,
{
    if n > 0 {
        lemma_top_or_leaf(cats, n - 1, id);
        assert(cats[n - 1].left < cats[n - 1].right);
    }
}

proof fn lemma_unique_id(cats: Seq<FinancistoCategory>, n: int, i: int)
    requires
        0 <= n <= cats.len(),
        0 <= i < cats.len(),
        categories_well_formed(cats),
    ensures
        id_count(cats, n, cats[i].id as int) == if i < n { 1nat } else { 0nat },
    decreases n,
{
    if n > 0 {
        lemma_unique_id(cats, n - 1, i);
        if n - 1 != i {
            if n - 1 < i {
                assert(cats[n - 1].id != cats[i].id);
            } else {
                assert(cats[i].id != cats[n - 1].id);
            }
        }
    }
}

/// Every category keeps a leaf in the target: the transform gives exactly one
/// child row with the category's id, whether it is top-level or a leaf.
pub proof fn lemma_every_category_is_one_child(cats: Seq<FinancistoCategory>, i: int)
    requires
        categories_well_formed(cats),
        0 <= i < cats.len(),
    ensures
        child_count(category_rows(cats), cats[i].id as int) == 1,
{
    let n = cats.len() as int;
    let id = cats[i].id as int;
    lemma_child_count_concat(top_rows(cats, n), leaf_rows(cats, n), id);
    lemma_top_count(cats, n, id);
    lemma_leaf_count(cats, n, id);
    lemma_top_or_leaf(cats, n, id);
    lemma_unique_id(cats, n, i);
}

} // verus!
