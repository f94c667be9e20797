//! What the runtime runs: each mapping with its shadow tables and reconcile order, grouped by
//! destination database.
use vstd::prelude::*;

use crate::config::{PostgresTargetConfig, TargetView};
use crate::helper_plan::{helper_table_views, HelperShadowTablePlan, HelperTableView, MappingHelperPlan};
use crate::reconcile_order::{name_views, TableKey};
use crate::schema::{table_label, QualifiedTableName};
use crate::startup_plan::{
    groups_within, id_order, mapping_plan_views, ConfiguredMappingPlan, DestinationGroupView,
    MappingPlanView, RunnerStartupPlan, group_views,
};
use crate::ordering::nondecreasing;
use crate::text::{lemma_seq_lt_irreflexive, seq_lt};

verus! {

/// Why a runtime plan could not be built, or a request not routed to a mapping.
#[derive(Debug)]
pub enum RunnerRuntimePlanError {
    MissingHelperPlan { mapping_id: String },
    MissingReconcileTable { mapping_id: String, table: String },
}

pub enum RuntimePlanErrorView {
    MissingHelperPlan { mapping_id: Seq<char> },
    MissingReconcileTable { mapping_id: Seq<char>, table: Seq<char> },
}

impl View for RunnerRuntimePlanError {
    type V = RuntimePlanErrorView;

    open spec fn view(&self) -> RuntimePlanErrorView {
        match self {
            RunnerRuntimePlanError::MissingHelperPlan { mapping_id } =>
                RuntimePlanErrorView::MissingHelperPlan { mapping_id: mapping_id@ },
            RunnerRuntimePlanError::MissingReconcileTable { mapping_id, table } =>
                RuntimePlanErrorView::MissingReconcileTable { mapping_id: mapping_id@, table: table@ },
        }
    }
}

/// The shadow table planned for a source table (the last one planned for it).
pub open spec fn helper_for(tables: Seq<HelperTableView>, name: TableKey) -> Option<HelperTableView>
    decreases tables.len(),
{
    if tables.len() == 0 {
        None
    } else if tables.last().source_table == name {
        Some(tables.last())
    } else {
        helper_for(tables.drop_last(), name)
    }
}

/// The shadow tables in reconcile order; the first name without a shadow table is an error.
pub open spec fn reconcile_tables(
    mapping_id: Seq<char>,
    tables: Seq<HelperTableView>,
    order: Seq<TableKey>,
) -> Result<Seq<HelperTableView>, RuntimePlanErrorView>
    decreases order.len(),
{
    if order.len() == 0 {
        Ok(seq![])
    } else {
        match reconcile_tables(mapping_id, tables, order.drop_last()) {
            Err(e) => Err(e),
            Ok(prev) => match helper_for(tables, order.last()) {
                None => Err(
                    RuntimePlanErrorView::MissingReconcileTable {
                        mapping_id,
                        table: table_label(order.last()),
                    },
                ),
                Some(t) => Ok(prev.push(t)),
            },
        }
    }
}

/// A mapping as the runtime runs it.
pub struct MappingRuntimeView {
    pub mapping_id: Seq<char>,
    pub source_database: Seq<char>,
    pub destination: TargetView,
    pub helper_tables: Seq<HelperTableView>,
    pub upsert_tables: Seq<HelperTableView>,
    pub delete_tables: Seq<HelperTableView>,
}

/// The runtime form of a mapping and its helper plan: the upsert order, then the delete
/// order, resolved to shadow tables.
pub open spec fn mapping_runtime_spec(
    m: MappingPlanView,
    tables: Seq<HelperTableView>,
    upsert: Seq<TableKey>,
    delete: Seq<TableKey>,
) -> Result<MappingRuntimeView, RuntimePlanErrorView> {
    match reconcile_tables(m.mapping_id, tables, upsert) {
        Err(e) => Err(e),
        Ok(u) => match reconcile_tables(m.mapping_id, tables, delete) {
            Err(e) => Err(e),
            Ok(d) => Ok(
                MappingRuntimeView {
                    mapping_id: m.mapping_id,
                    source_database: m.source_database,
                    destination: m.destination,
                    helper_tables: tables,
                    upsert_tables: u,
                    delete_tables: d,
                },
            ),
        },
    }
}

pub struct MappingRuntimePlan {
    mapping_id: String,
    source_database: String,
    destination: PostgresTargetConfig,
    helper_tables: Vec<HelperShadowTablePlan>,
    reconcile_upsert_tables: Vec<HelperShadowTablePlan>,
    reconcile_delete_tables: Vec<HelperShadowTablePlan>,
}

impl View for MappingRuntimePlan {
    type V = MappingRuntimeView;

    closed spec fn view(&self) -> MappingRuntimeView {
        MappingRuntimeView {
            mapping_id: self.mapping_id@,
            source_database: self.source_database@,
            destination: self.destination@,
            helper_tables: helper_table_views(self.helper_tables@),
            upsert_tables: helper_table_views(self.reconcile_upsert_tables@),
            delete_tables: helper_table_views(self.reconcile_delete_tables@),
        }
    }
}

/// The tables of `tables` whose label has not occurred before them, in order.
pub open spec fn first_by_label(tables: Seq<HelperTableView>) -> Seq<HelperTableView>
    decreases tables.len(),
{
    if tables.len() == 0 {
        seq![]
    } else {
        let t = tables.last();
        let prev = first_by_label(tables.drop_last());
        if exists|k: int| 0 <= k < tables.len() - 1 && table_label(#[trigger] tables[k].source_table) == table_label(t.source_table) {
            prev
        } else {
            prev.push(t)
        }
    }
}

/// Whether some string of `labels` is `l`.
pub open spec fn label_in(labels: Seq<String>, l: Seq<char>) -> bool {
    exists|j: int| 0 <= j < labels.len() && #[trigger] labels[j]@ == l
}

/// Whether one of the first `i` tables has label `l`.
pub open spec fn label_before(tables: Seq<HelperTableView>, i: int, l: Seq<char>) -> bool {
    exists|k: int| 0 <= k < i && #[trigger] table_label(tables[k].source_table) == l
}

/// The tables kept by `first_by_label` carry distinct labels, each one a table of the input,
/// and every label of the input is among them.
pub proof fn lemma_first_by_label_distinct(tables: Seq<HelperTableView>)
    ensures
        forall|x: int, y: int|
            #![trigger first_by_label(tables)[x], first_by_label(tables)[y]]
            0 <= x < y < first_by_label(tables).len() ==> table_label(first_by_label(tables)[x].source_table)
                != table_label(first_by_label(tables)[y].source_table),
        forall|j: int|
            0 <= j < first_by_label(tables).len() ==> tables.contains(#[trigger] first_by_label(tables)[j]),
        forall|i: int|
            0 <= i < tables.len() ==> label_kept(first_by_label(tables), table_label(#[trigger] tables[i].source_table)),
    decreases tables.len(),
{
    if tables.len() > 0 {
        let n = tables.len() as int;
        let init = tables.drop_last();
        let t = tables.last();
        let prev = first_by_label(init);
        lemma_first_by_label_distinct(init);
        let dup = exists|k: int| 0 <= k < n - 1 && table_label(#[trigger] tables[k].source_table) == table_label(t.source_table);
        let r = first_by_label(tables);
        assert(r == if dup { prev } else { prev.push(t) });
        assert forall|j: int| 0 <= j < r.len() implies tables.contains(#[trigger] r[j]) by {
            if j < prev.len() {
                assert(r[j] == prev[j]);
                assert(init.contains(prev[j]));
                let k = choose|k: int| 0 <= k < init.len() && init[k] == prev[j];
                assert(tables[k] == init[k]);
            } else {
                assert(r[j] == t);
                assert(tables[n - 1] == t);
            }
        }
        if !dup {
            assert forall|x: int, y: int|
                #![trigger r[x], r[y]]
                0 <= x < y < r.len() implies table_label(r[x].source_table) != table_label(r[y].source_table) by {
                if y < prev.len() {
                    assert(r[x] == prev[x] && r[y] == prev[y]);
                } else {
                    assert(r[x] == prev[x]);
                    assert(init.contains(prev[x]));
                    let k = choose|k: int| 0 <= k < init.len() && init[k] == prev[x];
                    assert(tables[k] == init[k]);
                }
            }
        } else {
            assert forall|x: int, y: int|
                #![trigger r[x], r[y]]
                0 <= x < y < r.len() implies table_label(r[x].source_table) != table_label(r[y].source_table) by {
                assert(r[x] == prev[x] && r[y] == prev[y]);
            }
        }
        assert forall|i: int| 0 <= i < tables.len() implies label_kept(r, table_label(#[trigger] tables[i].source_table)) by {
            if i < n - 1 {
                assert(tables[i] == init[i]);
                assert(label_kept(prev, table_label(init[i].source_table)));
                let j = choose|j: int| 0 <= j < prev.len() && table_label(#[trigger] prev[j].source_table) == table_label(init[i].source_table);
                assert(r[j] == prev[j]);
            } else if dup {
                let k = choose|k: int| 0 <= k < n - 1 && table_label(#[trigger] tables[k].source_table) == table_label(t.source_table);
                assert(tables[k] == init[k]);
                assert(label_kept(prev, table_label(init[k].source_table)));
                let j = choose|j: int| 0 <= j < prev.len() && table_label(#[trigger] prev[j].source_table) == table_label(init[k].source_table);
                assert(r[j] == prev[j]);
            } else {
                assert(r[prev.len() as int] == t);
            }
        }
    }
}

/// Whether some table of `tables` has label `l`.
pub open spec fn label_kept(tables: Seq<HelperTableView>, l: Seq<char>) -> bool {
    exists|j: int| 0 <= j < tables.len() && table_label(#[trigger] tables[j].source_table) == l
}

proof fn lemma_label_in_push(labels: Seq<String>, s: String, l: Seq<char>)
    ensures
        label_in(labels.push(s), l) == (label_in(labels, l) || s@ == l),
{
    if label_in(labels.push(s), l) {
        let j = choose|j: int| 0 <= j < labels.push(s).len() && #[trigger] labels.push(s)[j]@ == l;
        if j < labels.len() {
            assert(labels[j]@ == l);
        }
    }
    if label_in(labels, l) {
        let j = choose|j: int| 0 <= j < labels.len() && #[trigger] labels[j]@ == l;
        assert(labels.push(s)[j]@ == l);
    }
    if s@ == l {
        assert(labels.push(s)[labels.len() as int]@ == l);
    }
}

proof fn lemma_label_before_step(tables: Seq<HelperTableView>, i: int, l: Seq<char>)
    requires
        0 <= i < tables.len(),
    ensures
        label_before(tables, i + 1, l) == (label_before(tables, i, l) || table_label(tables[i].source_table) == l),
{
    if label_before(tables, i + 1, l) {
        let k = choose|k: int| 0 <= k < i + 1 && #[trigger] table_label(tables[k].source_table) == l;
    }
}

proof fn lemma_first_by_label_step(tables: Seq<HelperTableView>, i: int)
    requires
        0 <= i < tables.len(),
    ensures
        first_by_label(tables.take(i + 1)) == if label_before(tables, i, table_label(tables[i].source_table)) {
            first_by_label(tables.take(i))
        } else {
            first_by_label(tables.take(i)).push(tables[i])
        },
{
    let s = tables.take(i + 1);
    assert(s.drop_last() =~= tables.take(i));
    assert(s.last() == tables[i]);
    let l = table_label(tables[i].source_table);
    if label_before(tables, i, l) {
        let k = choose|k: int| 0 <= k < i && #[trigger] table_label(tables[k].source_table) == l;
        assert(s[k] == tables[k]);
        assert(0 <= k < s.len() - 1 && table_label(s[k].source_table) == table_label(s.last().source_table));
    } else {
        if exists|k: int| 0 <= k < s.len() - 1 && table_label(#[trigger] s[k].source_table) == table_label(s.last().source_table) {
            let k = choose|k: int| 0 <= k < s.len() - 1 && table_label(#[trigger] s[k].source_table) == table_label(s.last().source_table);
            assert(s[k] == tables[k]);
            assert(table_label(tables[k].source_table) == l);
        }
    }
}

fn clone_helpers(v: &Vec<HelperShadowTablePlan>) -> (r: Vec<HelperShadowTablePlan>)
    ensures
        helper_table_views(r@) == helper_table_views(v@),
{
    let mut r: Vec<HelperShadowTablePlan> = Vec::new();
    let mut i: usize = 0;
    while i < v.len()
        invariant
            i <= v.len(),
            r@.len() == i,
            helper_table_views(r@) == helper_table_views(v@).take(i as int),
        decreases v.len() - i,
    {
        let ghost prev = r@;
        r.push(v[i].clone());
        assert forall|k: int| 0 <= k < i + 1 implies #[trigger] helper_table_views(r@)[k] == helper_table_views(v@).take(i + 1)[k] by {
            if k < i {
                assert(r@[k] == prev[k]);
                assert(helper_table_views(prev)[k] == helper_table_views(v@).take(i as int)[k]);
            }
        }
        assert(helper_table_views(r@) =~= helper_table_views(v@).take(i + 1));
        i += 1;
    }
    assert(helper_table_views(v@).take(v.len() as int) == helper_table_views(v@));
    r
}

impl Clone for MappingRuntimePlan {
    fn clone(&self) -> (r: Self)
        ensures
            r@ == self@,
    {
        MappingRuntimePlan {
            mapping_id: self.mapping_id.clone(),
            source_database: self.source_database.clone(),
            destination: self.destination.clone(),
            helper_tables: clone_helpers(&self.helper_tables),
            reconcile_upsert_tables: clone_helpers(&self.reconcile_upsert_tables),
            reconcile_delete_tables: clone_helpers(&self.reconcile_delete_tables),
        }
    }
}

proof fn lemma_helper_for(tables: Seq<HelperTableView>, name: TableKey, i: int)
    requires
        -1 <= i < tables.len(),
        forall|j: int| i < j < tables.len() ==> (#[trigger] tables[j]).source_table != name,
        i == -1 || tables[i].source_table == name,
    ensures
        helper_for(tables, name) == if i == -1 {
            None
        } else {
            Some(tables[i])
        },
    decreases tables.len(),
{
    if tables.len() > 0 && i < tables.len() - 1 {
        lemma_helper_for(tables.drop_last(), name, i);
    }
}

/// The shadow table planned for `name`, if any.
fn find_helper<'a>(tables: &'a Vec<HelperShadowTablePlan>, name: &QualifiedTableName) -> (r: Option<&'a HelperShadowTablePlan>)
    ensures
        match r {
            Some(t) => helper_for(helper_table_views(tables@), name@) == Some(t@),
            None => helper_for(helper_table_views(tables@), name@) is None,
        },
{
    let ghost tv = helper_table_views(tables@);
    let mut i = tables.len();
    while i > 0
        invariant
            i <= tables.len(),
            tv == helper_table_views(tables@),
            forall|j: int| i <= j < tables.len() ==> (#[trigger] tv[j]).source_table != name@,
        decreases i,
    {
        assert(tv[i - 1] == tables@[i - 1]@);
        if tables[i - 1].source_table().same(name) {
            proof {
                lemma_helper_for(tv, name@, i - 1);
            }
            return Some(&tables[i - 1]);
        }
        i -= 1;
    }
    proof {
        lemma_helper_for(tv, name@, -1);
    }
    None
}

pub proof fn lemma_reconcile_tables_err(
    mapping_id: Seq<char>,
    tables: Seq<HelperTableView>,
    order: Seq<TableKey>,
    k: int,
)
    requires
        0 <= k <= order.len(),
        reconcile_tables(mapping_id, tables, order.take(k)) is Err,
    ensures
        reconcile_tables(mapping_id, tables, order) == reconcile_tables(mapping_id, tables, order.take(k)),
    decreases order.len() - k,
{
    if k < order.len() {
        assert(order.take(k + 1).drop_last() == order.take(k));
        lemma_reconcile_tables_err(mapping_id, tables, order, k + 1);
    } else {
        assert(order.take(k) == order);
    }
}

/// The shadow tables in the given reconcile order.
pub fn build_reconcile_tables(
    mapping_id: &str,
    tables: &Vec<HelperShadowTablePlan>,
    order: &Vec<QualifiedTableName>,
) -> (r: Result<Vec<HelperShadowTablePlan>, RunnerRuntimePlanError>)
    ensures
        match (reconcile_tables(mapping_id@, helper_table_views(tables@), name_views(order@)), r) {
            (Ok(a), Ok(b)) => helper_table_views(b@) == a,
            (Err(a), Err(b)) => b@ == a,
            _ => false,
        },
{
    let ghost ov = name_views(order@);
    let ghost tv = helper_table_views(tables@);
    let mut out: Vec<HelperShadowTablePlan> = Vec::new();
    let mut i: usize = 0;
    assert(ov.take(0) =~= seq![]);
    assert(helper_table_views(out@) =~= seq![]);
    while i < order.len()
        invariant
            i <= order.len(),
            ov == name_views(order@),
            tv == helper_table_views(tables@),
            reconcile_tables(mapping_id@, tv, ov.take(i as int)) == Ok::<Seq<HelperTableView>, RuntimePlanErrorView>(
                helper_table_views(out@),
            ),
        decreases order.len() - i,
    {
        assert(ov.take(i + 1).drop_last() == ov.take(i as int));
        assert(ov.take(i + 1).last() == order@[i as int]@);
        match find_helper(tables, &order[i]) {
            Some(t) => {
                let ghost prev = helper_table_views(out@);
                out.push(t.clone());
                assert(helper_table_views(out@) =~= prev.push(t@));
            },
            None => {
                proof {
                    lemma_reconcile_tables_err(mapping_id@, tv, ov, i + 1);
                }
                return Err(
                    RunnerRuntimePlanError::MissingReconcileTable {
                        mapping_id: String::from_str(mapping_id),
                        table: order[i].label(),
                    },
                );
            },
        }
        i += 1;
    }
    assert(ov.take(order.len() as int) == ov);
    Ok(out)
}

impl MappingRuntimePlan {
    /// The runtime form of a mapping and its helper plan.
    pub fn from_parts(mapping: &ConfiguredMappingPlan, helper_plan: &MappingHelperPlan) -> (r: Result<
        Self,
        RunnerRuntimePlanError,
    >)
        ensures
            match (
                mapping_runtime_spec(
                    mapping@,
                    helper_plan.helper_tables_spec(),
                    helper_plan.upsert_spec(),
                    helper_plan.delete_spec(),
                ),
                r,
            ) {
                (Ok(a), Ok(b)) => b@ == a,
                (Err(a), Err(b)) => b@ == a,
                _ => false,
            },
    {
        let helper_tables = clone_helpers(helper_plan.helper_tables());
        let upsert = match build_reconcile_tables(
            mapping.mapping_id(),
            &helper_tables,
            helper_plan.reconcile_upsert_order(),
        ) {
            Ok(t) => t,
            Err(e) => return Err(e),
        };
        let delete = match build_reconcile_tables(
            mapping.mapping_id(),
            &helper_tables,
            helper_plan.reconcile_delete_order(),
        ) {
            Ok(t) => t,
            Err(e) => return Err(e),
        };
        Ok(
            MappingRuntimePlan {
                mapping_id: String::from_str(mapping.mapping_id()),
                source_database: String::from_str(mapping.source_database()),
                destination: mapping.destination().clone(),
                helper_tables,
                reconcile_upsert_tables: upsert,
                reconcile_delete_tables: delete,
            },
        )
    }

    pub fn mapping_id(&self) -> (r: &str)
        ensures
            r@ == self@.mapping_id,
    {
        self.mapping_id.as_str()
    }

    pub fn source_database(&self) -> (r: &str)
        ensures
            r@ == self@.source_database,
    {
        self.source_database.as_str()
    }

    pub fn destination(&self) -> (r: &PostgresTargetConfig)
        ensures
            r@ == self@.destination,
    {
        &self.destination
    }

    /// The shadow table of a source table.
    pub fn helper_table(&self, table_name: &QualifiedTableName) -> (r: Option<&HelperShadowTablePlan>)
        ensures
            match r {
                Some(t) => helper_for(self@.helper_tables, table_name@) == Some(t@),
                None => helper_for(self@.helper_tables, table_name@) is None,
            },
    {
        find_helper(&self.helper_tables, table_name)
    }

    pub fn reconcile_upsert_tables(&self) -> (r: &Vec<HelperShadowTablePlan>)
        ensures
            helper_table_views(r@) == self@.upsert_tables,
    {
        &self.reconcile_upsert_tables
    }

    pub fn reconcile_delete_tables(&self) -> (r: &Vec<HelperShadowTablePlan>)
        ensures
            helper_table_views(r@) == self@.delete_tables,
    {
        &self.reconcile_delete_tables
    }

    /// The tables whose metrics are refreshed after a pass: the upsert tables, then the
    /// delete tables, each label once, where it first occurs.
    pub fn snapshot_tables(&self) -> (r: Vec<HelperShadowTablePlan>)
        ensures
            helper_table_views(r@) == first_by_label(self@.upsert_tables + self@.delete_tables),
    {
        let mut all = clone_helpers(&self.reconcile_upsert_tables);
        let mut rest = clone_helpers(&self.reconcile_delete_tables);
        all.append(&mut rest);
        let ghost whole = self@.upsert_tables + self@.delete_tables;
        assert(helper_table_views(all@) =~= whole);
        let mut r: Vec<HelperShadowTablePlan> = Vec::new();
        let mut labels: Vec<String> = Vec::new();
        let mut i: usize = 0;
        while i < all.len()
            invariant
                i <= all.len(),
                helper_table_views(all@) == whole,
                helper_table_views(r@) == first_by_label(whole.take(i as int)),
                forall|l: Seq<char>| #[trigger] label_in(labels@, l) == label_before(whole, i as int, l),
            decreases all.len() - i,
        {
            let label = all[i].source_table().label();
            let mut seen = false;
            let mut j: usize = 0;
            while j < labels.len()
                invariant
                    j <= labels.len(),
                    seen == label_in(labels@.take(j as int), label@),
                decreases labels.len() - j,
            {
                assert(labels@.take(j + 1).drop_last() =~= labels@.take(j as int));
                if crate::text::str_eq(labels[j].as_str(), label.as_str()) {
                    seen = true;
                    assert(labels@.take(j + 1)[j as int] == labels@[j as int]);
                }
                proof { lemma_label_in_push(labels@.take(j as int), labels@[j as int], label@); }
                assert(labels@.take(j as int).push(labels@[j as int]) =~= labels@.take(j + 1));
                j += 1;
            }
            assert(labels@.take(labels.len() as int) =~= labels@);
            let ghost t = whole[i as int];
            assert(all@[i as int]@ == t);
            proof { lemma_first_by_label_step(whole, i as int); }
            assert(label_before(whole, i as int, table_label(t.source_table)) == seen);
            if !seen {
                let ghost prev = labels@;
                r.push(all[i].clone());
                labels.push(label);
                assert forall|l: Seq<char>| #[trigger] label_in(labels@, l) == label_before(whole, i + 1, l) by {
                    lemma_label_in_push(prev, labels@[prev.len() as int], l);
                    assert(prev.push(labels@[prev.len() as int]) =~= labels@);
                    lemma_label_before_step(whole, i as int, l);
                }
            } else {
                assert forall|l: Seq<char>| #[trigger] label_in(labels@, l) == label_before(whole, i + 1, l) by {
                    lemma_label_before_step(whole, i as int, l);
                }
            }
            i += 1;
        }
        assert(whole.take(all.len() as int) =~= whole);
        r
    }
}

pub open spec fn runtime_views(v: Seq<MappingRuntimePlan>) -> Seq<MappingRuntimeView> {
    v.map_values(|m: MappingRuntimePlan| m@)
}

/// The mappings that one destination database serves, as the runtime runs them.
pub struct DestinationRuntimePlan {
    mappings: Vec<MappingRuntimePlan>,
}

impl View for DestinationRuntimePlan {
    type V = Seq<MappingRuntimeView>;

    closed spec fn view(&self) -> Seq<MappingRuntimeView> {
        runtime_views(self.mappings@)
    }
}

impl DestinationRuntimePlan {
    pub fn mappings(&self) -> (r: &Vec<MappingRuntimePlan>)
        ensures
            runtime_views(r@) == self@,
    {
        &self.mappings
    }
}

/// A helper plan, as the runtime plan reads it.
pub struct HelperPlanView {
    pub tables: Seq<HelperTableView>,
    pub upsert: Seq<TableKey>,
    pub delete: Seq<TableKey>,
}

pub open spec fn helper_plan_view(p: MappingHelperPlan) -> HelperPlanView {
    HelperPlanView { tables: p.helper_tables_spec(), upsert: p.upsert_spec(), delete: p.delete_spec() }
}

pub open spec fn plan_entries(v: Seq<(String, MappingHelperPlan)>) -> Seq<(Seq<char>, HelperPlanView)> {
    v.map_values(|e: (String, MappingHelperPlan)| (e.0@, helper_plan_view(e.1)))
}

/// Index of the first helper plan listed for `id`, or -1.
pub open spec fn plan_index(plans: Seq<(Seq<char>, HelperPlanView)>, id: Seq<char>) -> int
    decreases plans.len(),
{
    if plans.len() == 0 {
        -1
    } else if plans[0].0 == id {
        0
    } else if plan_index(plans.drop_first(), id) < 0 {
        -1
    } else {
        plan_index(plans.drop_first(), id) + 1
    }
}

/// The runtime mappings, in the startup plan's order, each taking out the helper plan listed
/// for its id; and the helper plans left over.
pub open spec fn runtime_fold(
    ms: Seq<MappingPlanView>,
    plans: Seq<(Seq<char>, HelperPlanView)>,
) -> Result<(Seq<MappingRuntimeView>, Seq<(Seq<char>, HelperPlanView)>), RuntimePlanErrorView>
    decreases ms.len(),
{
    if ms.len() == 0 {
        Ok((seq![], plans))
    } else {
        match runtime_fold(ms.drop_last(), plans) {
            Err(e) => Err(e),
            Ok(st) => {
                let m = ms.last();
                let i = plan_index(st.1, m.mapping_id);
                if i < 0 {
                    Err(RuntimePlanErrorView::MissingHelperPlan { mapping_id: m.mapping_id })
                } else {
                    let p = st.1[i].1;
                    match mapping_runtime_spec(m, p.tables, p.upsert, p.delete) {
                        Err(e) => Err(e),
                        Ok(v) => Ok((st.0.push(v), st.1.remove(i))),
                    }
                }
            },
        }
    }
}

/// Whether a helper plan is listed for `id`.
pub open spec fn has_helper_plan(plans: Seq<(Seq<char>, HelperPlanView)>, id: Seq<char>) -> bool {
    exists|i: int| 0 <= i < plans.len() && #[trigger] plans[i].0 == id
}

proof fn lemma_plan_index_found(plans: Seq<(Seq<char>, HelperPlanView)>, id: Seq<char>)
    ensures
        plan_index(plans, id) >= 0 ==> plan_index(plans, id) < plans.len() && plans[plan_index(plans, id)].0 == id,
    decreases plans.len(),
{
    if plans.len() > 0 {
        lemma_plan_index_found(plans.drop_first(), id);
    }
}

/// What folding leaves of the helper plans comes from them, and every mapping folded so far
/// found a helper plan listed for its id.
proof fn lemma_fold_found(ms: Seq<MappingPlanView>, plans: Seq<(Seq<char>, HelperPlanView)>)
    ensures
        runtime_fold(ms, plans) matches Ok(st) ==> (forall|i: int| 0 <= i < st.1.len() ==> #[trigger] plans.contains(st.1[i]))
            && forall|j: int| 0 <= j < ms.len() ==> has_helper_plan(plans, #[trigger] ms[j].mapping_id),
    decreases ms.len(),
{
    if ms.len() > 0 {
        let d = ms.drop_last();
        lemma_fold_found(d, plans);
        if let Ok(st) = runtime_fold(d, plans) {
            let m = ms.last();
            let i = plan_index(st.1, m.mapping_id);
            lemma_plan_index_found(st.1, m.mapping_id);
            if i >= 0 {
                if let Ok(next) = runtime_fold(ms, plans) {
                    assert(next.1 == st.1.remove(i));
                    assert forall|k: int| 0 <= k < next.1.len() implies #[trigger] plans.contains(next.1[k]) by {
                        if k < i {
                            assert(next.1[k] == st.1[k]);
                        } else {
                            assert(next.1[k] == st.1[k + 1]);
                        }
                    }
                    assert(plans.contains(st.1[i]));
                    let w = choose|w: int| 0 <= w < plans.len() && plans[w] == st.1[i];
                    assert(plans[w].0 == m.mapping_id);
                    assert forall|j: int| 0 <= j < ms.len() implies has_helper_plan(plans, #[trigger] ms[j].mapping_id) by {
                        if j < d.len() {
                            assert(ms[j] == d[j]);
                        }
                    }
                }
            }
        }
    }
}

proof fn lemma_reconcile_tables_err_kind(mapping_id: Seq<char>, tables: Seq<HelperTableView>, order: Seq<TableKey>)
    ensures
        reconcile_tables(mapping_id, tables, order) matches Err(e) ==> e is MissingReconcileTable,
    decreases order.len(),
{
    if order.len() > 0 {
        lemma_reconcile_tables_err_kind(mapping_id, tables, order.drop_last());
    }
}

/// A fold refused for a missing helper plan stops at a mapping with that id, after every
/// earlier mapping found its helper plan.
proof fn lemma_fold_missing(ms: Seq<MappingPlanView>, plans: Seq<(Seq<char>, HelperPlanView)>, id: Seq<char>)
    ensures
        runtime_fold(ms, plans) == Err::<(Seq<MappingRuntimeView>, Seq<(Seq<char>, HelperPlanView)>), RuntimePlanErrorView>(
            RuntimePlanErrorView::MissingHelperPlan { mapping_id: id },
        ) ==> exists|k: int|
            0 <= k < ms.len() && #[trigger] ms[k].mapping_id == id && forall|j: int|
                0 <= j < k ==> has_helper_plan(plans, #[trigger] ms[j].mapping_id),
    decreases ms.len(),
{
    if ms.len() > 0 {
        let d = ms.drop_last();
        lemma_fold_missing(d, plans, id);
        lemma_fold_found(d, plans);
        if runtime_fold(ms, plans) == Err::<(Seq<MappingRuntimeView>, Seq<(Seq<char>, HelperPlanView)>), RuntimePlanErrorView>(
            RuntimePlanErrorView::MissingHelperPlan { mapping_id: id },
        ) {
            if runtime_fold(d, plans) is Err {
                let k = choose|k: int|
                    0 <= k < d.len() && #[trigger] d[k].mapping_id == id && forall|j: int|
                        0 <= j < k ==> has_helper_plan(plans, #[trigger] d[j].mapping_id);
                assert(ms[k] == d[k]);
                assert forall|j: int| 0 <= j < k implies has_helper_plan(plans, #[trigger] ms[j].mapping_id) by {
                    assert(ms[j] == d[j]);
                    assert(has_helper_plan(plans, d[j].mapping_id));
                }
            } else {
                let k = ms.len() - 1;
                let st = runtime_fold(d, plans)->Ok_0;
                let i = plan_index(st.1, ms.last().mapping_id);
                if i >= 0 {
                    let p = st.1[i].1;
                    lemma_reconcile_tables_err_kind(ms.last().mapping_id, p.tables, p.upsert);
                    lemma_reconcile_tables_err_kind(ms.last().mapping_id, p.tables, p.delete);
                }
                assert forall|j: int| 0 <= j < k implies has_helper_plan(plans, #[trigger] ms[j].mapping_id) by {
                    assert(ms[j] == d[j]);
                    assert(has_helper_plan(plans, d[j].mapping_id));
                }
                assert(ms[k].mapping_id == id);
            }
        }
    }
}

/// When the mappings come in id order and one of them finds no helper plan, the one reported
/// has the least such id: every mapping whose id sorts before it has a helper plan listed.
pub proof fn lemma_least_missing_helper_plan(
    ms: Seq<MappingPlanView>,
    plans: Seq<(Seq<char>, HelperPlanView)>,
    id: Seq<char>,
)
    requires
        nondecreasing(ms, id_order()),
        runtime_fold(ms, plans) == Err::<(Seq<MappingRuntimeView>, Seq<(Seq<char>, HelperPlanView)>), RuntimePlanErrorView>(
            RuntimePlanErrorView::MissingHelperPlan { mapping_id: id },
        ),
    ensures
        exists|k: int| 0 <= k < ms.len() && #[trigger] ms[k].mapping_id == id,
        forall|j: int|
            0 <= j < ms.len() && seq_lt(#[trigger] ms[j].mapping_id, id) ==> has_helper_plan(plans, ms[j].mapping_id),
{
    lemma_fold_missing(ms, plans, id);
    let k = choose|k: int|
        0 <= k < ms.len() && #[trigger] ms[k].mapping_id == id && forall|j: int|
            0 <= j < k ==> has_helper_plan(plans, #[trigger] ms[j].mapping_id);
    assert forall|j: int| 0 <= j < ms.len() && seq_lt(#[trigger] ms[j].mapping_id, id) implies has_helper_plan(
        plans,
        ms[j].mapping_id,
    ) by {
        lemma_seq_lt_irreflexive(id);
        if j > k {
            assert(!id_order()(ms[j], ms[k]));
        }
    }
}

/// The first runtime mapping with the given id.
pub open spec fn runtime_named(ms: Seq<MappingRuntimeView>, id: Seq<char>) -> Option<MappingRuntimeView>
    decreases ms.len(),
{
    if ms.len() == 0 {
        None
    } else if ms[0].mapping_id == id {
        Some(ms[0])
    } else {
        runtime_named(ms.drop_first(), id)
    }
}

/// A destination group, as runtime mappings.
pub open spec fn group_runtime(g: DestinationGroupView, runtime: Seq<MappingRuntimeView>) -> Seq<
    MappingRuntimeView,
> {
    g.mappings.map_values(|m: MappingPlanView| runtime_named(runtime, m.mapping_id)->0)
}

/// What the runtime runs.
pub struct RunnerRuntimePlan {
    reconcile_interval_secs: u64,
    mappings: Vec<MappingRuntimePlan>,
    destination_groups: Vec<DestinationRuntimePlan>,
}

pub struct RuntimePlanView {
    pub reconcile_interval_secs: u64,
    pub mappings: Seq<MappingRuntimeView>,
    pub destination_groups: Seq<Seq<MappingRuntimeView>>,
}

impl View for RunnerRuntimePlan {
    type V = RuntimePlanView;

    closed spec fn view(&self) -> RuntimePlanView {
        RuntimePlanView {
            reconcile_interval_secs: self.reconcile_interval_secs,
            mappings: runtime_views(self.mappings@),
            destination_groups: self.destination_groups@.map_values(|g: DestinationRuntimePlan| g@),
        }
    }
}

proof fn lemma_plan_index(plans: Seq<(Seq<char>, HelperPlanView)>, id: Seq<char>, i: int)
    requires
        0 <= i <= plans.len(),
        forall|j: int| 0 <= j < i ==> (#[trigger] plans[j]).0 != id,
        i == plans.len() || plans[i].0 == id,
    ensures
        plan_index(plans, id) == if i == plans.len() {
            -1
        } else {
            i
        },
    decreases i,
{
    if i > 0 {
        let t = plans.drop_first();
        assert forall|j: int| 0 <= j < i - 1 implies (#[trigger] t[j]).0 != id by {
            assert(t[j] == plans[j + 1]);
        }
        if i < plans.len() {
            assert(t[i - 1] == plans[i]);
        }
        lemma_plan_index(t, id, i - 1);
    }
}

proof fn lemma_runtime_named(ms: Seq<MappingRuntimeView>, id: Seq<char>, i: int)
    requires
        0 <= i <= ms.len(),
        forall|j: int| 0 <= j < i ==> (#[trigger] ms[j]).mapping_id != id,
        i == ms.len() || ms[i].mapping_id == id,
    ensures
        runtime_named(ms, id) == if i == ms.len() {
            None
        } else {
            Some(ms[i])
        },
    decreases i,
{
    if i > 0 {
        let t = ms.drop_first();
        assert forall|j: int| 0 <= j < i - 1 implies (#[trigger] t[j]).mapping_id != id by {
            assert(t[j] == ms[j + 1]);
        }
        if i < ms.len() {
            assert(t[i - 1] == ms[i]);
        }
        lemma_runtime_named(t, id, i - 1);
    }
}

pub proof fn lemma_runtime_fold_err(
    ms: Seq<MappingPlanView>,
    plans: Seq<(Seq<char>, HelperPlanView)>,
    k: int,
)
    requires
        0 <= k <= ms.len(),
        runtime_fold(ms.take(k), plans) is Err,
    ensures
        runtime_fold(ms, plans) == runtime_fold(ms.take(k), plans),
    decreases ms.len() - k,
{
    if k < ms.len() {
        assert(ms.take(k + 1).drop_last() == ms.take(k));
        lemma_runtime_fold_err(ms, plans, k + 1);
    } else {
        assert(ms.take(k) == ms);
    }
}

pub proof fn lemma_runtime_fold_ids(ms: Seq<MappingPlanView>, plans: Seq<(Seq<char>, HelperPlanView)>)
    requires
        runtime_fold(ms, plans) is Ok,
    ensures
        runtime_fold(ms, plans)->Ok_0.0.len() == ms.len(),
        forall|i: int| 0 <= i < ms.len() ==> (#[trigger] runtime_fold(ms, plans)->Ok_0.0[i]).mapping_id
            == ms[i].mapping_id,
    decreases ms.len(),
{
    if ms.len() > 0 {
        lemma_runtime_fold_ids(ms.drop_last(), plans);
    }
}

impl RunnerRuntimePlan {
    /// The runtime plan: each mapping of the startup plan with the helper plan listed for it,
    /// and the destination groups as runtime mappings.
    pub fn from_startup_plan(
        startup_plan: &RunnerStartupPlan,
        helper_plans: Vec<(String, MappingHelperPlan)>,
    ) -> (r: Result<Self, RunnerRuntimePlanError>)
        ensures
            match (runtime_fold(startup_plan@.mappings, plan_entries(helper_plans@)), r) {
                (Ok(st), Ok(p)) => p@ == (RuntimePlanView {
                    reconcile_interval_secs: startup_plan@.reconcile_interval_secs,
                    mappings: st.0,
                    destination_groups: startup_plan@.destination_groups.map_values(
                        |g: DestinationGroupView| group_runtime(g, st.0),
                    ),
                }),
                (Err(a), Err(b)) => b@ == a,
                _ => false,
            },
            runtime_fold(startup_plan@.mappings, plan_entries(helper_plans@)) matches Err(
                RuntimePlanErrorView::MissingHelperPlan { mapping_id },
            ) ==> forall|j: int|
                0 <= j < startup_plan@.mappings.len() && seq_lt(#[trigger] startup_plan@.mappings[j].mapping_id, mapping_id)
                    ==> has_helper_plan(plan_entries(helper_plans@), startup_plan@.mappings[j].mapping_id),
    {
        proof {
            use_type_invariant(startup_plan);
            if let Err(RuntimePlanErrorView::MissingHelperPlan { mapping_id }) = runtime_fold(
                startup_plan@.mappings,
                plan_entries(helper_plans@),
            ) {
                lemma_least_missing_helper_plan(startup_plan@.mappings, plan_entries(helper_plans@), mapping_id);
            }
        }
        let ms = startup_plan.mappings();
        let ghost mv = mapping_plan_views(ms@);
        let mut plans = helper_plans;
        let mut mappings: Vec<MappingRuntimePlan> = Vec::new();
        let mut i: usize = 0;
        assert(mv.take(0) =~= seq![]);
        assert(runtime_views(mappings@) =~= seq![]);
        while i < ms.len()
            invariant
                i <= ms.len(),
                mv == mapping_plan_views(ms@),
                mv == startup_plan@.mappings,
                runtime_fold(mv.take(i as int), plan_entries(helper_plans@)) == Ok::<
                    (Seq<MappingRuntimeView>, Seq<(Seq<char>, HelperPlanView)>),
                    RuntimePlanErrorView,
                >((runtime_views(mappings@), plan_entries(plans@))),
                runtime_fold(startup_plan@.mappings, plan_entries(helper_plans@)) matches Err(
                    RuntimePlanErrorView::MissingHelperPlan { mapping_id },
                ) ==> forall|j: int|
                    0 <= j < startup_plan@.mappings.len() && seq_lt(#[trigger] startup_plan@.mappings[j].mapping_id, mapping_id)
                        ==> has_helper_plan(plan_entries(helper_plans@), startup_plan@.mappings[j].mapping_id),
            decreases ms.len() - i,
        {
            let m = &ms[i];
            assert(mv[i as int] == m@);
            assert(mv.take(i + 1).drop_last() == mv.take(i as int));
            assert(mv.take(i + 1).last() == m@);
            let ghost pe = plan_entries(plans@);
            let mut k: usize = 0;
            while k < plans.len() && !crate::text::str_eq(plans[k].0.as_str(), m.mapping_id())
                invariant
                    k <= plans.len(),
                    pe == plan_entries(plans@),
                    forall|j: int| 0 <= j < k ==> (#[trigger] pe[j]).0 != m@.mapping_id,
                decreases plans.len() - k,
            {
                k += 1;
            }
            proof {
                lemma_plan_index(pe, m@.mapping_id, k as int);
            }
            if k == plans.len() {
                proof {
                    lemma_runtime_fold_err(mv, plan_entries(helper_plans@), i + 1);
                }
                return Err(RunnerRuntimePlanError::MissingHelperPlan { mapping_id: String::from_str(m.mapping_id()) });
            }
            let (_, plan) = plans.remove(k);
            assert(plan_entries(plans@) =~= pe.remove(k as int));
            match MappingRuntimePlan::from_parts(m, &plan) {
                Ok(rm) => {
                    let ghost prev = runtime_views(mappings@);
                    mappings.push(rm);
                    assert(runtime_views(mappings@) =~= prev.push(mappings@.last()@));
                },
                Err(e) => {
                    proof {
                        lemma_runtime_fold_err(mv, plan_entries(helper_plans@), i + 1);
                    }
                    return Err(e);
                },
            }
            i += 1;
        }
        assert(mv.take(ms.len() as int) == mv);
        let ghost rv = runtime_views(mappings@);
        proof {
            lemma_runtime_fold_ids(mv, plan_entries(helper_plans@));
        }
        let groups = startup_plan.destination_groups();
        let ghost gv = group_views(groups@);
        let mut out_groups: Vec<DestinationRuntimePlan> = Vec::new();
        let mut g: usize = 0;
        while g < groups.len()
            invariant
                g <= groups.len(),
                gv == group_views(groups@),
                gv == startup_plan@.destination_groups,
                groups_within(startup_plan@),
                mv == startup_plan@.mappings,
                rv == runtime_views(mappings@),
                rv.len() == mv.len(),
                forall|q: int| 0 <= q < mv.len() ==> (#[trigger] rv[q]).mapping_id == mv[q].mapping_id,
                out_groups@.len() == g,
                forall|h: int| 0 <= h < g ==> (#[trigger] out_groups@[h])@ == group_runtime(gv[h], rv),
            decreases groups.len() - g,
        {
            let gm = groups[g].mappings();
            let ghost gmv = mapping_plan_views(gm@);
            assert(gmv == gv[g as int].mappings);
            let mut members: Vec<MappingRuntimePlan> = Vec::new();
            let mut j: usize = 0;
            while j < gm.len()
                invariant
                    j <= gm.len(),
                    gmv == mapping_plan_views(gm@),
                    gmv == gv[g as int].mappings,
                    g < gv.len(),
                    groups_within(startup_plan@),
                    gv == startup_plan@.destination_groups,
                    mv == startup_plan@.mappings,
                    rv == runtime_views(mappings@),
                    rv.len() == mv.len(),
                    forall|q: int| 0 <= q < mv.len() ==> (#[trigger] rv[q]).mapping_id == mv[q].mapping_id,
                    members@.len() == j,
                    forall|h: int| 0 <= h < j ==> (#[trigger] members@[h])@ == runtime_named(rv, gmv[h].mapping_id)->0,
                decreases gm.len() - j,
            {
                let id = gm[j].mapping_id();
                assert(gmv[j as int] == gm@[j as int]@);
                assert(mv.contains(gmv[j as int]));
                let ghost w = choose|w: int| 0 <= w < mv.len() && mv[w] == gmv[j as int];
                let mut q: usize = 0;
                while q < mappings.len() && !crate::text::str_eq(mappings[q].mapping_id(), id)
                    invariant
                        q <= mappings.len(),
                        rv == runtime_views(mappings@),
                        forall|t: int| 0 <= t < q ==> (#[trigger] rv[t]).mapping_id != id@,
                    decreases mappings.len() - q,
                {
                    q += 1;
                }
                proof {
                    assert(rv[w].mapping_id == id@);
                    assert(q <= w);
                    lemma_runtime_named(rv, id@, q as int);
                }
                members.push(mappings[q].clone());
                j += 1;
            }
            proof {
                assert(DestinationRuntimePlan { mappings: members }@ =~= group_runtime(gv[g as int], rv));
            }
            out_groups.push(DestinationRuntimePlan { mappings: members });
            g += 1;
        }
        let r = RunnerRuntimePlan {
            reconcile_interval_secs: startup_plan.reconcile_interval_secs(),
            mappings,
            destination_groups: out_groups,
        };
        assert(r@.destination_groups =~= startup_plan@.destination_groups.map_values(
            |gr: DestinationGroupView| group_runtime(gr, rv),
        ));
        Ok(r)
    }

    pub fn reconcile_interval_secs(&self) -> (r: u64)
        ensures
            r == self@.reconcile_interval_secs,
    {
        self.reconcile_interval_secs
    }

    pub fn destination_groups(&self) -> (r: &Vec<DestinationRuntimePlan>)
        ensures
            r@.map_values(|g: DestinationRuntimePlan| g@) == self@.destination_groups,
    {
        &self.destination_groups
    }

    /// The mapping with the given id, for a request addressed to it.
    pub fn require_mapping(&self, mapping_id: &str) -> (r: Option<&MappingRuntimePlan>)
        ensures
            match r {
                Some(m) => runtime_named(self@.mappings, mapping_id@) == Some(m@),
                None => runtime_named(self@.mappings, mapping_id@) is None,
            },
    {
        let ghost rv = runtime_views(self.mappings@);
        let mut q: usize = 0;
        while q < self.mappings.len() && !crate::text::str_eq(self.mappings[q].mapping_id(), mapping_id)
            invariant
                q <= self.mappings.len(),
                rv == runtime_views(self.mappings@),
                forall|t: int| 0 <= t < q ==> (#[trigger] rv[t]).mapping_id != mapping_id@,
            decreases self.mappings.len() - q,
        {
            q += 1;
        }
        proof {
            lemma_runtime_named(rv, mapping_id@, q as int);
        }
        if q == self.mappings.len() {
            None
        } else {
            Some(&self.mappings[q])
        }
    }
}

/// The message of a runtime-plan error.
pub open spec fn runtime_plan_error_text(e: RuntimePlanErrorView) -> Seq<char> {
    match e {
        RuntimePlanErrorView::MissingHelperPlan { mapping_id } => "missing helper plan for mapping `"@
            + mapping_id + "`"@,
        RuntimePlanErrorView::MissingReconcileTable { mapping_id, table } => "missing helper table `"@ + table
            + "` in reconcile order for mapping `"@ + mapping_id + "`"@,
    }
}

impl RunnerRuntimePlanError {
    /// The error's message.
    pub fn render(&self) -> (r: String)
        ensures
            r@ == runtime_plan_error_text(self@),
    {
        match self {
            RunnerRuntimePlanError::MissingHelperPlan { mapping_id } => {
                let mut s = String::from_str("missing helper plan for mapping `");
                s.append(mapping_id.as_str());
                s.append("`");
                s
            },
            RunnerRuntimePlanError::MissingReconcileTable { mapping_id, table } => {
                let mut s = String::from_str("missing helper table `");
                s.append(table.as_str());
                s.append("` in reconcile order for mapping `");
                s.append(mapping_id.as_str());
                s.append("`");
                s
            },
        }
    }
}

} // verus!
