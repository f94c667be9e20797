//! The order in which a mapping's tables are reconciled: parents before the tables that
//! reference them when upserting, the reverse when deleting.
use vstd::prelude::*;

use crate::error::RunnerHelperPlanError;
use crate::schema::{QualifiedTableName, TableView, ValidatedSchema, table_label};
use crate::text::{join, push_char};

verus! {

pub type TableKey = (Seq<char>, Seq<char>);

pub open spec fn name_views(v: Seq<QualifiedTableName>) -> Seq<TableKey> {
    v.map_values(|t: QualifiedTableName| t@)
}

/// The last index of `tables` that holds `name`, or -1.
pub open spec fn position_of(tables: Seq<TableKey>, name: TableKey) -> int
    decreases tables.len(),
{
    if tables.len() == 0 {
        -1
    } else if tables.last() == name {
        tables.len() - 1
    } else {
        position_of(tables.drop_last(), name)
    }
}

/// Table `child` has a foreign key that references selected table `parent`.
pub open spec fn depends_on(
    tables: Seq<TableKey>,
    schema: Map<TableKey, TableView>,
    child: int,
    parent: int,
) -> bool {
    &&& 0 <= child < tables.len()
    &&& 0 <= parent
    &&& schema.contains_key(tables[child])
    &&& exists|k: int|
        0 <= k < schema[tables[child]].foreign_keys.len() && position_of(
            tables,
            #[trigger] schema[tables[child]].foreign_keys[k].referenced_table,
        ) == parent
}

/// Table `i` is not yet placed and every table it depends on is.
pub open spec fn ready(
    tables: Seq<TableKey>,
    schema: Map<TableKey, TableView>,
    placed: Seq<usize>,
    i: int,
) -> bool {
    &&& 0 <= i < tables.len()
    &&& !placed.contains(i as usize)
    &&& forall|p: int| #[trigger] depends_on(tables, schema, i, p) ==> placed.contains(p as usize)
}

/// Each step of `order` places the smallest table that is ready at that step.
pub open spec fn greedy(
    tables: Seq<TableKey>,
    schema: Map<TableKey, TableView>,
    order: Seq<usize>,
) -> bool {
    forall|k: int|
        0 <= k < order.len() ==> {
            &&& ready(tables, schema, order.take(k), #[trigger] order[k] as int)
            &&& forall|j: int| 0 <= j < order[k] ==> !ready(tables, schema, order.take(k), j)
        }
}

/// No table is ready after `order`.
pub open spec fn stuck(
    tables: Seq<TableKey>,
    schema: Map<TableKey, TableView>,
    order: Seq<usize>,
) -> bool {
    forall|j: int| !ready(tables, schema, order, j)
}

/// An ordering of all tables in which every table comes after the tables it depends on.
pub open spec fn topological(
    tables: Seq<TableKey>,
    schema: Map<TableKey, TableView>,
    order: Seq<usize>,
) -> bool {
    &&& order.len() == tables.len()
    &&& forall|k: int| 0 <= k < order.len() ==> (#[trigger] order[k]) < tables.len()
    &&& forall|k: int, m: int| 0 <= k < m < order.len() ==> order[k] != order[m]
    &&& forall|k: int, p: int|
        0 <= k < order.len() && #[trigger] depends_on(tables, schema, order[k] as int, p)
            ==> order.take(k).contains(p as usize)
}

/// The labels of the tables that `placed` leaves out, among the first `n`.
pub open spec fn unplaced_labels(tables: Seq<TableKey>, placed: Seq<usize>, n: int) -> Seq<
    Seq<char>,
>
    decreases n,
{
    if n <= 0 {
        seq![]
    } else if placed.contains((n - 1) as usize) {
        unplaced_labels(tables, placed, n - 1)
    } else {
        unplaced_labels(tables, placed, n - 1).push(table_label(tables[n - 1]))
    }
}

/// The tables, in `order`.
pub open spec fn ordered_names(tables: Seq<TableKey>, order: Seq<usize>) -> Seq<TableKey> {
    order.map_values(|i: usize| tables[i as int])
}

/// The tables left after the greedy placement gets stuck, as the cycle error names them.
pub open spec fn cycle_error(
    tables: Seq<TableKey>,
    schema: Map<TableKey, TableView>,
    message: Seq<char>,
) -> bool {
    exists|order: Seq<usize>|
        #![trigger greedy(tables, schema, order)]
        greedy(tables, schema, order) && order.len() < tables.len() && stuck(tables, schema, order)
            && message == join(unplaced_labels(tables, order, tables.len() as int), ", "@)
}

/// `upsert` places every table greedily and `delete` is its reverse.
pub open spec fn valid_order(
    tables: Seq<TableKey>,
    schema: Map<TableKey, TableView>,
    upsert: Seq<TableKey>,
    delete: Seq<TableKey>,
) -> bool {
    &&& exists|order: Seq<usize>|
        #![trigger greedy(tables, schema, order)]
        greedy(tables, schema, order) && order.len() == tables.len() && upsert == ordered_names(
            tables,
            order,
        )
    &&& delete == upsert.reverse()
}

/// Index of the first selected table that the schema lacks.
pub open spec fn first_missing(tables: Seq<TableKey>, schema: Map<TableKey, TableView>, i: int) -> bool {
    0 <= i < tables.len() && !schema.contains_key(tables[i]) && forall|j: int|
        0 <= j < i ==> schema.contains_key(#[trigger] tables[j])
}

pub struct ReconcileOrder {
    upsert_order: Vec<QualifiedTableName>,
    delete_order: Vec<QualifiedTableName>,
}

impl ReconcileOrder {
    pub closed spec fn upsert_spec(&self) -> Seq<TableKey> {
        name_views(self.upsert_order@)
    }

    pub closed spec fn delete_spec(&self) -> Seq<TableKey> {
        name_views(self.delete_order@)
    }

    pub fn upsert_order(&self) -> (r: &Vec<QualifiedTableName>)
        ensures
            name_views(r@) == self.upsert_spec(),
    {
        &self.upsert_order
    }

    pub fn delete_order(&self) -> (r: &Vec<QualifiedTableName>)
        ensures
            name_views(r@) == self.delete_spec(),
    {
        &self.delete_order
    }
}

/// Exec lookup of `position_of`.
fn position_in(tables: &Vec<QualifiedTableName>, name: &QualifiedTableName) -> (r: Option<usize>)
    ensures
        match r {
            Some(i) => position_of(name_views(tables@), name@) == i,
            None => position_of(name_views(tables@), name@) == -1,
        },
{
    let mut i = tables.len();
    assert(name_views(tables@).take(i as int) == name_views(tables@));
    while i > 0
        invariant
            i <= tables.len(),
            position_of(name_views(tables@), name@) == position_of(
                name_views(tables@).take(i as int),
                name@,
            ),
        decreases i,
    {
        let ghost t = name_views(tables@).take(i as int);
        assert(t.drop_last() == name_views(tables@).take(i - 1));
        assert(t.last() == tables@[i - 1]@);
        if tables[i - 1].same(name) {
            return Some(i - 1);
        }
        i -= 1;
    }
    None
}


pub proof fn lemma_position_bounds(tables: Seq<TableKey>, name: TableKey)
    ensures
        -1 <= position_of(tables, name) < tables.len(),
        position_of(tables, name) >= 0 ==> tables[position_of(tables, name)] == name,
    decreases tables.len(),
{
    if tables.len() > 0 && tables.last() != name {
        lemma_position_bounds(tables.drop_last(), name);
    }
}

/// `row[p]` tells whether table `c` depends on table `p`.
fn dependency_row(
    tables: &Vec<QualifiedTableName>,
    table: &crate::schema::TableSchema,
    Ghost(schema): Ghost<Map<TableKey, TableView>>,
    Ghost(c): Ghost<int>,
) -> (row: Vec<bool>)
    requires
        0 <= c < tables.len(),
        schema.contains_key(name_views(tables@)[c]),
        schema[name_views(tables@)[c]] == table@,
    ensures
        row.len() == tables.len(),
        forall|p: int| 0 <= p < tables.len() ==> row@[p] == depends_on(name_views(tables@), schema, c, p),
{
    let n = tables.len();
    let mut row: Vec<bool> = Vec::new();
    let mut j: usize = 0;
    while j < n
        invariant
            j <= n,
            row.len() == j,
            forall|p: int| 0 <= p < j ==> !row@[p],
        decreases n - j,
    {
        row.push(false);
        j += 1;
    }
    let fks = table.foreign_keys();
    let ghost keys = name_views(tables@);
    let mut k: usize = 0;
    while k < fks.len()
        invariant
            n == tables.len(),
            keys == name_views(tables@),
            0 <= c < n,
            schema.contains_key(keys[c]),
            crate::schema::foreign_key_views(fks@) == schema[keys[c]].foreign_keys,
            k <= fks.len(),
            row.len() == n,
            forall|p: int|
                0 <= p < n ==> row@[p] == exists|m: int|
                    0 <= m < k && position_of(keys, #[trigger] schema[keys[c]].foreign_keys[m].referenced_table) == p,
        decreases fks.len() - k,
    {
        let fk = &fks[k];
        assert(schema[keys[c]].foreign_keys[k as int] == fk@);
        match position_in(tables, fk.referenced_table()) {
            Some(p) => {
                proof {
                    lemma_position_bounds(keys, fk@.referenced_table);
                }
                row.set(p, true);
            },
            None => {},
        }
        proof {
            assert forall|p: int| 0 <= p < n implies row@[p] == exists|m: int|
                0 <= m < k + 1 && position_of(keys, #[trigger] schema[keys[c]].foreign_keys[m].referenced_table) == p by {
                if position_of(keys, schema[keys[c]].foreign_keys[k as int].referenced_table) == p {
                    assert(row@[p]);
                }
            }
        }
        k += 1;
    }
    proof {
        assert forall|p: int| 0 <= p < n implies row@[p] == depends_on(keys, schema, c, p) by {
            if row@[p] {
                let m = choose|m: int|
                    0 <= m < fks.len() && position_of(keys, #[trigger] schema[keys[c]].foreign_keys[m].referenced_table) == p;
                assert(depends_on(keys, schema, c, p));
            }
        }
    }
    row
}


/// Whether table `i` is ready, read off the dependency matrix.
fn is_ready(
    deps: &Vec<Vec<bool>>,
    placed: &Vec<bool>,
    i: usize,
    Ghost(keys): Ghost<Seq<TableKey>>,
    Ghost(schema): Ghost<Map<TableKey, TableView>>,
    Ghost(order): Ghost<Seq<usize>>,
) -> (b: bool)
    requires
        deps.len() == keys.len(),
        placed.len() == keys.len(),
        i < keys.len(),
        forall|c: int| 0 <= c < keys.len() ==> (#[trigger] deps@[c]).len() == keys.len(),
        forall|c: int, p: int|
            0 <= c < keys.len() && 0 <= p < keys.len() ==> deps@[c]@[p] == depends_on(
                keys,
                schema,
                c,
                p,
            ),
        forall|j: int| 0 <= j < keys.len() ==> placed@[j] == order.contains(j as usize),
    ensures
        b == ready(keys, schema, order, i as int),
{
    if placed[i] {
        return false;
    }
    let n = placed.len();
    let row = &deps[i];
    let mut p: usize = 0;
    while p < n
        invariant
            n == keys.len(),
            row.len() == n,
            row@ == deps@[i as int]@,
            placed.len() == n,
            forall|j: int| 0 <= j < keys.len() ==> placed@[j] == order.contains(j as usize),
            forall|c: int, q: int|
                0 <= c < keys.len() && 0 <= q < keys.len() ==> deps@[c]@[q] == depends_on(
                    keys,
                    schema,
                    c,
                    q,
                ),
            i < n,
            p <= n,
            forall|q: int| 0 <= q < p && depends_on(keys, schema, i as int, q) ==> order.contains(q as usize),
        decreases n - p,
    {
        if row[p] && !placed[p] {
            assert(depends_on(keys, schema, i as int, p as int));
            return false;
        }
        p += 1;
    }
    proof {
        assert forall|q: int| #[trigger] depends_on(keys, schema, i as int, q) implies order.contains(
            q as usize,
        ) by {
            let name = schema[keys[i as int]].foreign_keys;
            let m = choose|m: int|
                0 <= m < name.len() && position_of(keys, #[trigger] name[m].referenced_table) == q;
            lemma_position_bounds(keys, name[m].referenced_table);
        }
    }
    true
}

/// Builds the reconcile order of the selected tables from their foreign keys.
///
/// Upserts run parents first: at each step the earliest selected table whose referenced
/// tables are all placed comes next. Deletes run in the reverse order. A table that the
/// schema lacks is reported first; when no table can be placed, the tables left over form a
/// dependency cycle.
pub fn reconcile_order_from_schema(
    mapping_id: &str,
    selected_tables: &Vec<QualifiedTableName>,
    schema: &ValidatedSchema,
) -> (r: Result<ReconcileOrder, RunnerHelperPlanError>)
    ensures
        ({
            let keys = name_views(selected_tables@);
            match r {
                Err(RunnerHelperPlanError::MissingValidatedTable { mapping_id: m, table }) => {
                    &&& m@ == mapping_id@
                    &&& exists|i: int| first_missing(keys, schema@, i) && table@ == table_label(keys[i])
                },
                Err(RunnerHelperPlanError::DependencyCycle { mapping_id: m, tables }) => {
                    &&& m@ == mapping_id@
                    &&& forall|i: int| 0 <= i < keys.len() ==> schema@.contains_key(#[trigger] keys[i])
                    &&& cycle_error(keys, schema@, tables@)
                },
                Ok(o) => {
                    &&& forall|i: int| 0 <= i < keys.len() ==> schema@.contains_key(#[trigger] keys[i])
                    &&& valid_order(keys, schema@, o.upsert_spec(), o.delete_spec())
                },
            }
        }),
{
    let n = selected_tables.len();
    let ghost keys = name_views(selected_tables@);
    let mut deps: Vec<Vec<bool>> = Vec::new();
    let mut c: usize = 0;
    while c < n
        invariant
            n == selected_tables.len(),
            keys == name_views(selected_tables@),
            c <= n,
            deps.len() == c,
            forall|j: int| 0 <= j < c ==> schema@.contains_key(#[trigger] keys[j]),
            forall|j: int| 0 <= j < c ==> (#[trigger] deps@[j]).len() == n,
            forall|j: int, p: int|
                0 <= j < c && 0 <= p < n ==> deps@[j]@[p] == depends_on(keys, schema@, j, p),
        decreases n - c,
    {
        match schema.table(&selected_tables[c]) {
            Some(table) => {
                let row = dependency_row(selected_tables, table, Ghost(schema@), Ghost(c as int));
                deps.push(row);
            },
            None => {
                assert(first_missing(keys, schema@, c as int));
                assert(keys[c as int] == selected_tables@[c as int]@);
                return Err(
                    RunnerHelperPlanError::MissingValidatedTable {
                        mapping_id: String::from_str(mapping_id),
                        table: selected_tables[c].label(),
                    },
                );
            },
        }
        c += 1;
    }
    let mut placed: Vec<bool> = Vec::new();
    let mut j: usize = 0;
    while j < n
        invariant
            j <= n,
            placed.len() == j,
            forall|q: int| 0 <= q < j ==> !placed@[q],
        decreases n - j,
    {
        placed.push(false);
        j += 1;
    }
    let mut order: Vec<usize> = Vec::new();
    while order.len() < n
        invariant
            n == selected_tables.len(),
            keys == name_views(selected_tables@),
            deps.len() == n,
            placed.len() == n,
            order.len() <= n,
            forall|j: int| 0 <= j < n ==> schema@.contains_key(#[trigger] keys[j]),
            forall|j: int| 0 <= j < n ==> (#[trigger] deps@[j]).len() == n,
            forall|j: int, p: int|
                0 <= j < n && 0 <= p < n ==> deps@[j]@[p] == depends_on(keys, schema@, j, p),
            forall|j: int| 0 <= j < n ==> placed@[j] == order@.contains(j as usize),
            greedy(keys, schema@, order@),
        decreases n - order.len(),
    {
        let mut i: usize = 0;
        let mut found = false;
        while i < n
            invariant
                n == keys.len(),
                deps.len() == n,
                placed.len() == n,
                i <= n,
                forall|c: int| 0 <= c < n ==> (#[trigger] deps@[c]).len() == n,
                forall|c: int, p: int|
                    0 <= c < n && 0 <= p < n ==> deps@[c]@[p] == depends_on(keys, schema@, c, p),
                forall|j: int| 0 <= j < n ==> placed@[j] == order@.contains(j as usize),
                forall|j: int| 0 <= j < i ==> !ready(keys, schema@, order@, j),
                found ==> i < n && ready(keys, schema@, order@, i as int),
            ensures
                found ==> i < n && ready(keys, schema@, order@, i as int),
                !found ==> i == n,
                forall|j: int| 0 <= j < i ==> !ready(keys, schema@, order@, j),
            decreases n - i,
        {
            if is_ready(&deps, &placed, i, Ghost(keys), Ghost(schema@), Ghost(order@)) {
                found = true;
                break;
            }
            i += 1;
        }
        if !found {
            assert forall|j: int| !ready(keys, schema@, order@, j) by {}
            assert(order@.len() < n);
            let mut labels: Vec<String> = Vec::new();
            let mut q: usize = 0;
            while q < n
                invariant
                    n == selected_tables.len(),
                    keys == name_views(selected_tables@),
                    placed.len() == n,
                    forall|j: int| 0 <= j < n ==> placed@[j] == order@.contains(j as usize),
                    q <= n,
                    crate::text::views(labels@) == unplaced_labels(keys, order@, q as int),
                decreases n - q,
            {
                if !placed[q] {
                    let l = selected_tables[q].label();
                    labels.push(l);
                    assert(crate::text::views(labels@) =~= unplaced_labels(keys, order@, q as int).push(table_label(keys[q as int])));
                } else {
                    assert(unplaced_labels(keys, order@, q + 1) == unplaced_labels(keys, order@, q as int));
                }
                q += 1;
            }
            let tables = crate::text::join_strings(&labels, ", ");
            assert(greedy(keys, schema@, order@) && order@.len() < keys.len() && stuck(keys, schema@, order@)
                && tables@ == join(unplaced_labels(keys, order@, keys.len() as int), ", "@));
            return Err(
                RunnerHelperPlanError::DependencyCycle {
                    mapping_id: String::from_str(mapping_id),
                    tables,
                },
            );
        }
        let ghost before = order@;
        order.push(i);
        placed.set(i, true);
        proof {
            assert forall|k: int| 0 <= k < order@.len() implies {
                &&& ready(keys, schema@, order@.take(k), #[trigger] order@[k] as int)
                &&& forall|j: int| 0 <= j < order@[k] ==> !ready(keys, schema@, order@.take(k), j)
            } by {
                if k < before.len() {
                    assert(order@.take(k) == before.take(k));
                    assert(order@[k] == before[k]);
                } else {
                    assert(order@.take(k) == before);
                }
            }
            assert forall|j: int| 0 <= j < n implies placed@[j] == order@.contains(j as usize) by {
                if j != i {
                    if before.contains(j as usize) {
                        let w = choose|w: int| 0 <= w < before.len() && before[w] == j as usize;
                        assert(order@[w] == before[w]);
                    }
                    if order@.contains(j as usize) {
                        let w = choose|w: int| 0 <= w < order@.len() && order@[w] == j as usize;
                        assert(w < before.len());
                        assert(before[w] == j as usize);
                    }
                } else {
                    assert(order@[before.len() as int] == i);
                }
            }
        }
    }
    let mut upsert_order: Vec<QualifiedTableName> = Vec::new();
    let mut k: usize = 0;
    while k < n
        invariant
            n == selected_tables.len(),
            keys == name_views(selected_tables@),
            order.len() == n,
            greedy(keys, schema@, order@),
            k <= n,
            name_views(upsert_order@) == ordered_names(keys, order@).take(k as int),
            upsert_order.len() == k,
        decreases n - k,
    {
        let idx = order[k];
        assert(ready(keys, schema@, order@.take(k as int), order@[k as int] as int));
        let t = selected_tables[idx].clone();
        let ghost prev = upsert_order@;
        upsert_order.push(t);
        assert(name_views(upsert_order@) =~= ordered_names(keys, order@).take(k + 1)) by {
            assert forall|m: int| 0 <= m < k + 1 implies name_views(upsert_order@)[m]
                == ordered_names(keys, order@).take(k + 1)[m] by {
                if m < k {
                    assert(upsert_order@[m] == prev[m]);
                    assert(name_views(prev)[m] == ordered_names(keys, order@).take(k as int)[m]);
                }
            }
        }
        k += 1;
    }
    assert(ordered_names(keys, order@).take(n as int) =~= ordered_names(keys, order@));
    let mut delete_order: Vec<QualifiedTableName> = Vec::new();
    let mut m = n;
    while m > 0
        invariant
            m <= n,
            upsert_order.len() == n,
            name_views(delete_order@) == name_views(upsert_order@).reverse().take(n - m),
            delete_order.len() == n - m,
        decreases m,
    {
        let t = upsert_order[m - 1].clone();
        let ghost prev = delete_order@;
        delete_order.push(t);
        assert(name_views(delete_order@) =~= name_views(upsert_order@).reverse().take(n - m + 1)) by {
            assert forall|w: int| 0 <= w < n - m + 1 implies name_views(delete_order@)[w]
                == name_views(upsert_order@).reverse().take(n - m + 1)[w] by {
                if w < n - m {
                    assert(delete_order@[w] == prev[w]);
                    assert(name_views(prev)[w] == name_views(upsert_order@).reverse().take(n - m)[w]);
                }
            }
        }
        m -= 1;
    }
    assert(name_views(upsert_order@).reverse().take(n as int) =~= name_views(upsert_order@).reverse());
    let o = ReconcileOrder { upsert_order, delete_order };
    assert(greedy(keys, schema@, order@) && order@.len() == keys.len()
        && o.upsert_spec() == ordered_names(keys, order@));
    Ok(o)
}


/// Two greedy placements agree on every step that both have taken: the reconcile order is
/// determined by the selected tables and their foreign keys alone.
pub proof fn lemma_greedy_unique(
    tables: Seq<TableKey>,
    schema: Map<TableKey, TableView>,
    a: Seq<usize>,
    b: Seq<usize>,
)
    requires
        greedy(tables, schema, a),
        greedy(tables, schema, b),
    ensures
        forall|k: int| 0 <= k < a.len() && k < b.len() ==> a[k] == b[k],
{
    let m = if a.len() < b.len() { a.len() as int } else { b.len() as int };
    lemma_greedy_prefix(tables, schema, a, b, m);
    assert forall|k: int| 0 <= k < a.len() && k < b.len() implies a[k] == b[k] by {
        assert(a.take(m)[k] == a[k]);
        assert(b.take(m)[k] == b[k]);
    }
}

proof fn lemma_greedy_prefix(
    tables: Seq<TableKey>,
    schema: Map<TableKey, TableView>,
    a: Seq<usize>,
    b: Seq<usize>,
    m: int,
)
    requires
        greedy(tables, schema, a),
        greedy(tables, schema, b),
        0 <= m <= a.len(),
        m <= b.len(),
    ensures
        a.take(m) == b.take(m),
    decreases m,
{
    if m > 0 {
        lemma_greedy_prefix(tables, schema, a, b, m - 1);
        let k = m - 1;
        let x = a[k] as int;
        let y = b[k] as int;
        assert(ready(tables, schema, a.take(k), x));
        assert(ready(tables, schema, b.take(k), y));
        if x < y {
            assert(!ready(tables, schema, b.take(k), x));
        }
        if y < x {
            assert(!ready(tables, schema, a.take(k), y));
        }
        assert(a.take(m) =~= a.take(k).push(a[k]));
        assert(b.take(m) =~= b.take(k).push(b[k]));
    }
}

/// A greedy placement of every table is a topological order: each table comes after the
/// tables it references, and no table appears twice.
pub proof fn lemma_greedy_is_topological(
    tables: Seq<TableKey>,
    schema: Map<TableKey, TableView>,
    order: Seq<usize>,
)
    requires
        greedy(tables, schema, order),
        order.len() == tables.len(),
    ensures
        topological(tables, schema, order),
{
    assert forall|k: int| 0 <= k < order.len() implies (#[trigger] order[k]) < tables.len() by {
        assert(ready(tables, schema, order.take(k), order[k] as int));
    }
    assert forall|k: int, m: int| 0 <= k < m < order.len() implies order[k] != order[m] by {
        assert(ready(tables, schema, order.take(m), order[m] as int));
        assert(order.take(m)[k] == order[k]);
    }
    assert forall|k: int, p: int|
        0 <= k < order.len() && #[trigger] depends_on(tables, schema, order[k] as int, p)
        implies order.take(k).contains(p as usize) by {
        assert(ready(tables, schema, order.take(k), order[k] as int));
    }
}

proof fn first_outside(t: Seq<usize>, p: Seq<usize>, k: int) -> (r: int)
    requires
        0 <= k <= t.len(),
        forall|j: int| 0 <= j < k ==> p.contains(#[trigger] t[j]),
        exists|j: int| k <= j < t.len() && !p.contains(#[trigger] t[j]),
    ensures
        k <= r < t.len(),
        !p.contains(t[r]),
        forall|j: int| 0 <= j < r ==> p.contains(#[trigger] t[j]),
    decreases t.len() - k,
{
    if !p.contains(t[k]) {
        k
    } else {
        first_outside(t, p, k + 1)
    }
}

/// When the greedy placement stops before every table is placed, no topological order of
/// the selected tables exists: the tables left over contain a foreign-key cycle.
pub proof fn lemma_stuck_means_cycle(
    tables: Seq<TableKey>,
    schema: Map<TableKey, TableView>,
    placed: Seq<usize>,
    order: Seq<usize>,
)
    requires
        placed.len() < tables.len(),
        stuck(tables, schema, placed),
    ensures
        !topological(tables, schema, order),
{
    if topological(tables, schema, order) {
        assert(order.no_duplicates());
        order.unique_seq_to_set();
        placed.lemma_cardinality_of_set();
        if forall|j: int| 0 <= j < order.len() ==> placed.contains(#[trigger] order[j]) {
            assert(order.to_set().subset_of(placed.to_set()));
            vstd::set_lib::lemma_len_subset(order.to_set(), placed.to_set());
        }
        let r = first_outside(order, placed, 0);
        let x = order[r] as int;
        assert forall|p: int| #[trigger] depends_on(tables, schema, x, p) implies placed.contains(
            p as usize,
        ) by {
            assert(order.take(r).contains(p as usize));
            let w = choose|w: int| 0 <= w < r && order.take(r)[w] == p as usize;
            assert(order[w] == p as usize);
        }
        assert(ready(tables, schema, placed, x));
    }
}

} // verus!
