//! The plan the runner starts from: mappings grouped by the destination database they
//! write into, with each group checked for one connection contract and no shared table.
use vstd::prelude::*;

use crate::config::{
    MappingConfig, PostgresTargetConfig, RunnerConfig, TargetView, TlsView, WebhookConfig,
    effective_mode_spec, endpoint_label_spec,
};
use crate::reconcile_order::{TableKey, name_views};
use crate::schema::{QualifiedTableName, config_table_name, table_label};
use crate::text::{chars_of, lemma_seq_lt_irreflexive, lemma_seq_lt_total, lemma_seq_lt_transitive, seq_less, seq_lt};
use crate::ordering::{
    lemma_insert_sorted_at, lemma_sort_by_contains, lemma_sort_by_sorted, nondecreasing, sort_by,
};

verus! {

/// Why the mappings of a config cannot run side by side.
#[derive(Debug)]
pub enum RunnerStartupPlanError {
    InconsistentDestinationTarget {
        destination: String,
        first_mapping_id: String,
        second_mapping_id: String,
    },
    OverlappingDestinationTable {
        destination: String,
        table: String,
        first_mapping_id: String,
        second_mapping_id: String,
    },
}

pub struct MappingPlanView {
    pub mapping_id: Seq<char>,
    pub source_database: Seq<char>,
    pub destination: TargetView,
    pub selected_tables: Seq<TableKey>,
}

/// A mapping as the runtime uses it.
pub struct ConfiguredMappingPlan {
    mapping_id: String,
    source_database: String,
    destination: PostgresTargetConfig,
    selected_tables: Vec<QualifiedTableName>,
}

impl View for ConfiguredMappingPlan {
    type V = MappingPlanView;

    closed spec fn view(&self) -> MappingPlanView {
        MappingPlanView {
            mapping_id: self.mapping_id@,
            source_database: self.source_database@,
            destination: self.destination@,
            selected_tables: name_views(self.selected_tables@),
        }
    }
}

pub open spec fn mapping_plan_views(v: Seq<ConfiguredMappingPlan>) -> Seq<MappingPlanView> {
    v.map_values(|m: ConfiguredMappingPlan| m@)
}

/// The plan of a configured mapping.
pub open spec fn mapping_plan_spec(m: MappingConfig) -> MappingPlanView {
    MappingPlanView {
        mapping_id: m.id_spec(),
        source_database: m.source_spec().database,
        destination: m.destination_spec(),
        selected_tables: m.source_spec().tables.map_values(|t: Seq<char>| config_table_name(t)),
    }
}

pub fn clone_names(v: &Vec<QualifiedTableName>) -> (r: Vec<QualifiedTableName>)
    ensures
        name_views(r@) == name_views(v@),
{
    let mut r: Vec<QualifiedTableName> = Vec::new();
    let mut i: usize = 0;
    while i < v.len()
        invariant
            i <= v.len(),
            r.len() == i,
            name_views(r@) == name_views(v@).take(i as int),
        decreases v.len() - i,
    {
        let ghost prev = r@;
        let c = v[i].clone();
        r.push(c);
        assert(name_views(r@) =~= name_views(v@).take(i + 1)) by {
            assert forall|k: int| 0 <= k < i + 1 implies name_views(r@)[k] == name_views(v@).take(
                i + 1,
            )[k] by {
                if k < i {
                    assert(r@[k] == prev[k]);
                    assert(name_views(prev)[k] == name_views(v@).take(i as int)[k]);
                }
            }
        }
        i += 1;
    }
    assert(name_views(v@).take(v.len() as int) =~= name_views(v@));
    r
}

impl Clone for ConfiguredMappingPlan {
    fn clone(&self) -> (r: Self)
        ensures
            r@ == self@,
    {
        ConfiguredMappingPlan {
            mapping_id: self.mapping_id.clone(),
            source_database: self.source_database.clone(),
            destination: self.destination.clone(),
            selected_tables: clone_names(&self.selected_tables),
        }
    }
}

impl ConfiguredMappingPlan {
    pub fn from_config(mapping: &MappingConfig) -> (r: Self)
        ensures
            r@ == mapping_plan_spec(*mapping),
    {
        let tables = mapping.source().tables();
        let mut selected: Vec<QualifiedTableName> = Vec::new();
        let ghost f = |t: Seq<char>| config_table_name(t);
        let mut i: usize = 0;
        while i < tables.len()
            invariant
                f == (|t: Seq<char>| config_table_name(t)),
                i <= tables.len(),
                selected.len() == i,
                name_views(selected@) == crate::text::views(tables@).map_values(f).take(i as int),
            decreases tables.len() - i,
        {
            let ghost prev = selected@;
            let n = QualifiedTableName::from_config(tables[i].as_str());
            selected.push(n);
            assert(name_views(selected@) =~= crate::text::views(tables@).map_values(f).take(i + 1)) by {
                assert forall|k: int| 0 <= k < i + 1 implies name_views(selected@)[k]
                    == crate::text::views(tables@).map_values(f).take(i + 1)[k] by {
                    if k < i {
                        assert(selected@[k] == prev[k]);
                        assert(name_views(prev)[k] == crate::text::views(tables@).map_values(f).take(
                            i as int,
                        )[k]);
                    }
                }
            }
            i += 1;
        }
        assert(crate::text::views(tables@).map_values(f).take(tables.len() as int)
            =~= crate::text::views(tables@).map_values(f));
        ConfiguredMappingPlan {
            mapping_id: String::from_str(mapping.id()),
            source_database: String::from_str(mapping.source().database()),
            destination: mapping.destination().clone(),
            selected_tables: selected,
        }
    }

    pub fn mapping_id(&self) -> (r: &str)
        ensures
            r@ == self@.mapping_id,
    {
        self.mapping_id.as_str()
    }

    pub fn source_database(&self) -> (r: &str)
        ensures
            r@ == self@.source_database,
    {
        self.source_database.as_str()
    }

    pub fn destination(&self) -> (r: &PostgresTargetConfig)
        ensures
            r@ == self@.destination,
    {
        &self.destination
    }

    pub fn selected_tables(&self) -> (r: &Vec<QualifiedTableName>)
        ensures
            name_views(r@) == self@.selected_tables,
    {
        &self.selected_tables
    }
}

/// The database a destination names: host, port and database.
pub struct DbKeyView {
    pub host: Seq<char>,
    pub port: u16,
    pub database: Seq<char>,
}

pub open spec fn db_key_of(t: TargetView) -> DbKeyView {
    DbKeyView { host: t.host, port: t.port, database: t.database }
}

/// The order of destination databases: by host, then port, then database.
pub open spec fn key_lt(a: DbKeyView, b: DbKeyView) -> bool {
    ||| seq_lt(a.host, b.host)
    ||| (a.host == b.host && a.port < b.port)
    ||| (a.host == b.host && a.port == b.port && seq_lt(a.database, b.database))
}

pub proof fn lemma_key_lt_order(a: DbKeyView, b: DbKeyView, c: DbKeyView)
    ensures
        !key_lt(a, a),
        a != b ==> (key_lt(a, b) || key_lt(b, a)),
        !(key_lt(a, b) && key_lt(b, a)),
        key_lt(a, b) && key_lt(b, c) ==> key_lt(a, c),
{
    lemma_seq_lt_irreflexive(a.host);
    lemma_seq_lt_irreflexive(a.database);
    lemma_seq_lt_total(a.host, b.host);
    lemma_seq_lt_total(a.database, b.database);
    lemma_seq_lt_irreflexive(b.host);
    if key_lt(a, b) && key_lt(b, c) {
        if seq_lt(a.host, b.host) && seq_lt(b.host, c.host) {
            lemma_seq_lt_transitive(a.host, b.host, c.host);
        }
        if seq_lt(a.database, b.database) && seq_lt(b.database, c.database) {
            lemma_seq_lt_transitive(a.database, b.database, c.database);
        }
    }
}

/// `host:port/database` of a destination database.
pub open spec fn db_key_label(k: DbKeyView) -> Seq<char> {
    endpoint_label_spec(k.host, k.port, k.database)
}

struct DestinationDatabaseKey {
    host: String,
    port: u16,
    database: String,
}

impl View for DestinationDatabaseKey {
    type V = DbKeyView;

    closed spec fn view(&self) -> DbKeyView {
        DbKeyView { host: self.host@, port: self.port, database: self.database@ }
    }
}

impl DestinationDatabaseKey {
    fn from_target(target: &PostgresTargetConfig) -> (r: Self)
        ensures
            r@ == db_key_of(target@),
    {
        DestinationDatabaseKey {
            host: String::from_str(target.host()),
            port: target.port(),
            database: String::from_str(target.database()),
        }
    }

    fn label(&self) -> (r: String)
        ensures
            r@ == db_key_label(self@),
    {
        crate::config::endpoint_label(self.host.as_str(), self.port, self.database.as_str())
    }

    fn same(&self, other: &Self) -> (r: bool)
        ensures
            r == (self@ == other@),
    {
        self.host == other.host && self.port == other.port && self.database == other.database
    }

    fn less(&self, other: &Self) -> (r: bool)
        ensures
            r == key_lt(self@, other@),
    {
        let a = chars_of(self.host.as_str());
        let b = chars_of(other.host.as_str());
        if seq_less(&a, &b) {
            return true;
        }
        if !(self.host == other.host) {
            return false;
        }
        if self.port != other.port {
            return self.port < other.port;
        }
        let c = chars_of(self.database.as_str());
        let d = chars_of(other.database.as_str());
        seq_less(&c, &d)
    }
}

/// The tables of each mapping, labelled, with the mapping that selects them, in order.
pub open spec fn owned_tables(ms: Seq<MappingPlanView>) -> Seq<(Seq<char>, Seq<char>)>
    decreases ms.len(),
{
    if ms.len() == 0 {
        seq![]
    } else {
        owned_tables(ms.drop_last()) + tagged(ms.last())
    }
}

/// The labelled tables of one mapping, each with the mapping's id.
pub open spec fn tagged(m: MappingPlanView) -> Seq<(Seq<char>, Seq<char>)> {
    m.selected_tables.map_values(|t: TableKey| (table_label(t), m.mapping_id))
}

pub proof fn lemma_owned_prefix(ms: Seq<MappingPlanView>, i: int, j: int)
    requires
        0 <= i <= j <= ms.len(),
    ensures
        owned_tables(ms.take(i)).len() <= owned_tables(ms.take(j)).len(),
        owned_tables(ms.take(j)).take(owned_tables(ms.take(i)).len() as int) == owned_tables(ms.take(i)),
    decreases j - i,
{
    if i < j {
        lemma_owned_prefix(ms, i, j - 1);
        assert(ms.take(j).drop_last() == ms.take(j - 1));
        let a = owned_tables(ms.take(i));
        let b = owned_tables(ms.take(j - 1));
        let c = owned_tables(ms.take(j));
        assert(c == b + tagged(ms.take(j).last()));
        assert(c.take(a.len() as int) =~= b.take(a.len() as int));
    } else {
        assert(owned_tables(ms.take(j)).take(owned_tables(ms.take(i)).len() as int) =~= owned_tables(ms.take(i)));
    }
}

pub open spec fn pair_views(v: Seq<(String, String)>) -> Seq<(Seq<char>, Seq<char>)> {
    v.map_values(|p: (String, String)| (p.0@, p.1@))
}

/// Position `d` of `owned` repeats an earlier table label, and nothing before it does.
pub open spec fn first_repeat(owned: Seq<(Seq<char>, Seq<char>)>, d: int, e: int) -> bool {
    &&& 0 <= e < d < owned.len()
    &&& owned[e].0 == owned[d].0
    &&& forall|x: int, y: int| 0 <= x < y < d ==> (#[trigger] owned[x]).0 != (#[trigger] owned[y]).0
}

/// Index of the first mapping whose contract differs from the first mapping's.
pub open spec fn first_inconsistent(ms: Seq<MappingPlanView>, i: int) -> bool {
    &&& 0 < i < ms.len()
    &&& ms[i].destination.target_contract != ms[0].destination.target_contract
    &&& forall|j: int| 0 <= j < i ==> (#[trigger] ms[j]).destination.target_contract == ms[0].destination.target_contract
}

/// What checking one destination group returns.
pub open spec fn group_outcome(
    key: DbKeyView,
    ms: Seq<MappingPlanView>,
    r: Result<DestinationGroupView, StartupErrorView>,
) -> bool {
    if exists|i: int| first_inconsistent(ms, i) {
        exists|i: int|
            #![trigger first_inconsistent(ms, i)]
            first_inconsistent(ms, i) && r == Err::<DestinationGroupView, StartupErrorView>(
                StartupErrorView::InconsistentDestinationTarget {
                    destination: db_key_label(key),
                    first_mapping_id: ms[0].mapping_id,
                    second_mapping_id: ms[i].mapping_id,
                },
            )
    } else if exists|d: int, e: int| first_repeat(owned_tables(ms), d, e) {
        exists|d: int, e: int|
            #![trigger first_repeat(owned_tables(ms), d, e)]
            first_repeat(owned_tables(ms), d, e) && r == Err::<DestinationGroupView, StartupErrorView>(
                StartupErrorView::OverlappingDestinationTable {
                    destination: db_key_label(key),
                    table: owned_tables(ms)[d].0,
                    first_mapping_id: owned_tables(ms)[e].1,
                    second_mapping_id: owned_tables(ms)[d].1,
                },
            )
    } else {
        r == Ok::<DestinationGroupView, StartupErrorView>(
            DestinationGroupView { target: ms[0].destination, mappings: ms },
        )
    }
}

pub enum StartupErrorView {
    InconsistentDestinationTarget {
        destination: Seq<char>,
        first_mapping_id: Seq<char>,
        second_mapping_id: Seq<char>,
    },
    OverlappingDestinationTable {
        destination: Seq<char>,
        table: Seq<char>,
        first_mapping_id: Seq<char>,
        second_mapping_id: Seq<char>,
    },
}

impl View for RunnerStartupPlanError {
    type V = StartupErrorView;

    open spec fn view(&self) -> StartupErrorView {
        match self {
            RunnerStartupPlanError::InconsistentDestinationTarget {
                destination,
                first_mapping_id,
                second_mapping_id,
            } => StartupErrorView::InconsistentDestinationTarget {
                destination: destination@,
                first_mapping_id: first_mapping_id@,
                second_mapping_id: second_mapping_id@,
            },
            RunnerStartupPlanError::OverlappingDestinationTable {
                destination,
                table,
                first_mapping_id,
                second_mapping_id,
            } => StartupErrorView::OverlappingDestinationTable {
                destination: destination@,
                table: table@,
                first_mapping_id: first_mapping_id@,
                second_mapping_id: second_mapping_id@,
            },
        }
    }
}

pub struct DestinationGroupView {
    pub target: TargetView,
    pub mappings: Seq<MappingPlanView>,
}

/// The mappings that write into one destination database.
pub struct DestinationGroupPlan {
    target: PostgresTargetConfig,
    mappings: Vec<ConfiguredMappingPlan>,
}

impl View for DestinationGroupPlan {
    type V = DestinationGroupView;

    closed spec fn view(&self) -> DestinationGroupView {
        DestinationGroupView { target: self.target@, mappings: mapping_plan_views(self.mappings@) }
    }
}

pub open spec fn result_view(r: Result<DestinationGroupPlan, RunnerStartupPlanError>) -> Result<
    DestinationGroupView,
    StartupErrorView,
> {
    match r {
        Ok(g) => Ok(g@),
        Err(e) => Err(e@),
    }
}


impl DestinationGroupPlan {
    /// Checks that every mapping of a group gives the same connection contract and that no
    /// two of them select the same table; both failures name the mappings involved.
    fn new(key: &DestinationDatabaseKey, mappings: Vec<ConfiguredMappingPlan>) -> (r: Result<
        Self,
        RunnerStartupPlanError,
    >)
        requires
            mappings.len() > 0,
        ensures
            group_outcome(key@, mapping_plan_views(mappings@), result_view(r)),
    {
        let ghost ms = mapping_plan_views(mappings@);
        let target = mappings[0].destination().clone();
        let n = mappings.len();
        let mut i: usize = 0;
        while i < n
            invariant
                n == mappings.len(),
                ms == mapping_plan_views(mappings@),
                target@ == ms[0].destination,
                i <= n,
                forall|j: int| 0 <= j < i ==> (#[trigger] ms[j]).destination.target_contract == ms[0].destination.target_contract,
            decreases n - i,
        {
            if !mappings[i].destination().same_target_contract(&target) {
                assert(first_inconsistent(ms, i as int));
                let r = Err(
                    RunnerStartupPlanError::InconsistentDestinationTarget {
                        destination: key.label(),
                        first_mapping_id: String::from_str(mappings[0].mapping_id()),
                        second_mapping_id: String::from_str(mappings[i].mapping_id()),
                    },
                );
                return r;
            }
            i += 1;
        }
        assert(!exists|i: int| first_inconsistent(ms, i));
        let mut owners: Vec<(String, String)> = Vec::new();
        let mut i: usize = 0;
        assert(ms.take(0) =~= seq![]);
        assert(pair_views(owners@) =~= owned_tables(ms.take(0)));
        while i < n
            invariant
                n == mappings.len(),
                ms == mapping_plan_views(mappings@),
                i <= n,
                pair_views(owners@) == owned_tables(ms.take(i as int)),
                forall|x: int, y: int|
                    0 <= x < y < owners@.len() ==> (#[trigger] pair_views(owners@)[x]).0 != (#[trigger] pair_views(owners@)[y]).0,
                !exists|i: int| first_inconsistent(ms, i),
            decreases n - i,
        {
            let tables = mappings[i].selected_tables();
            let ghost base = owned_tables(ms.take(i as int));
            let ghost tg = tagged(ms[i as int]);
            let mut k: usize = 0;
            while k < tables.len()
                invariant
                    n == mappings.len(),
                    ms == mapping_plan_views(mappings@),
                    i < n,
                    name_views(tables@) == ms[i as int].selected_tables,
                    base == owned_tables(ms.take(i as int)),
                    tg == tagged(ms[i as int]),
                    k <= tables.len(),
                    pair_views(owners@) == base + tg.take(k as int),
                    forall|x: int, y: int|
                        0 <= x < y < owners@.len() ==> (#[trigger] pair_views(owners@)[x]).0 != (#[trigger] pair_views(owners@)[y]).0,
                    !exists|i: int| first_inconsistent(ms, i),
                decreases tables.len() - k,
            {
                let label = tables[k].label();
                let mut e: usize = 0;
                while e < owners.len()
                    invariant
                        n == mappings.len(),
                        ms == mapping_plan_views(mappings@),
                        i < n,
                        k < tables.len(),
                        name_views(tables@) == ms[i as int].selected_tables,
                        label@ == table_label(tables@[k as int]@),
                        base == owned_tables(ms.take(i as int)),
                        tg == tagged(ms[i as int]),
                        pair_views(owners@) == base + tg.take(k as int),
                        forall|x: int, y: int|
                            0 <= x < y < owners@.len() ==> (#[trigger] pair_views(owners@)[x]).0 != (#[trigger] pair_views(owners@)[y]).0,
                        e <= owners.len(),
                        !exists|i: int| first_inconsistent(ms, i),
                        forall|x: int| 0 <= x < e ==> pair_views(owners@)[x].0 != label@,
                    decreases owners.len() - e,
                {
                    if owners[e].0 == label {
                        proof {
                            let d = owners@.len() as int;
                            lemma_owned_prefix(ms, i + 1, n as int);
                            assert(ms.take(i + 1).drop_last() == ms.take(i as int));
                            assert(ms.take(n as int) == ms);
                            let full = owned_tables(ms);
                            let cur = owned_tables(ms.take(i + 1));
                            assert(cur == base + tg);
                            assert(full.take(cur.len() as int) == cur);
                            assert(tg.len() == tables@.len());
                            assert(pair_views(owners@).len() == owners@.len());
                            assert(d == base.len() + k);
                            assert(cur[d] == tg[(d - base.len()) as int]);
                            assert(ms[i as int].selected_tables[k as int] == tables@[k as int]@);
                            assert(tg[k as int] == (table_label(ms[i as int].selected_tables[k as int]), ms[i as int].mapping_id));
                            assert(full[d] == cur[d]);
                            assert(cur[d] == tg[k as int]);
                            assert(full[e as int] == cur[e as int]);
                            assert(cur[e as int] == pair_views(owners@)[e as int]);
                            assert forall|x: int, y: int| 0 <= x < y < d implies (#[trigger] full[x]).0 != (#[trigger] full[y]).0 by {
                                assert(full[x] == cur[x]);
                                assert(full[y] == cur[y]);
                                assert(cur[x] == (base + tg.take(k as int))[x]);
                                assert(cur[y] == (base + tg.take(k as int))[y]);
                            }
                            assert(first_repeat(full, d, e as int));
                        }
                        let first = owners[e].1.clone();
                        let r = Err(
                            RunnerStartupPlanError::OverlappingDestinationTable {
                                destination: key.label(),
                                table: label,
                                first_mapping_id: first,
                                second_mapping_id: String::from_str(mappings[i].mapping_id()),
                            },
                        );
                        proof {
                            let d = owners@.len() as int;
                            let full = owned_tables(ms);
                            assert(full[d].0 == label@);
                            assert(full[d].1 == ms[i as int].mapping_id);
                            assert(pair_views(owners@)[e as int].1 == owners@[e as int].1@);
                            assert(full[e as int].1 == first@);
                            assert(result_view(r) == Err::<DestinationGroupView, StartupErrorView>(
                                StartupErrorView::OverlappingDestinationTable {
                                    destination: db_key_label(key@),
                                    table: full[d].0,
                                    first_mapping_id: full[e as int].1,
                                    second_mapping_id: full[d].1,
                                },
                            ));
                            assert(first_repeat(owned_tables(ms), d, e as int));
                            assert(ms == mapping_plan_views(mappings@));
                            assert(!exists|i: int| first_inconsistent(ms, i));
                            assert(group_outcome(key@, ms, result_view(r)));
                        }
                        return r;
                    }
                    e += 1;
                }
                let ghost prev = owners@;
                owners.push((label, String::from_str(mappings[i].mapping_id())));
                proof {
                    assert(tg.take(k + 1) == tg.take(k as int).push(tg[k as int]));
                    assert(pair_views(owners@) =~= pair_views(prev).push(tg[k as int]));
                }
                k += 1;
            }
            proof {
                assert(tg.take(tables@.len() as int) == tg);
                assert(ms.take(i + 1).drop_last() == ms.take(i as int));
                assert(ms.take(i + 1).last() == ms[i as int]);
            }
            i += 1;
        }
        proof {
            assert(ms.take(n as int) == ms);
            assert(!exists|d: int, e: int| first_repeat(owned_tables(ms), d, e)) by {
                if exists|d: int, e: int| first_repeat(owned_tables(ms), d, e) {
                    let (d, e) = choose|d: int, e: int| first_repeat(owned_tables(ms), d, e);
                    assert(pair_views(owners@)[e] == owned_tables(ms)[e]);
                }
            }
        }
        Ok(DestinationGroupPlan { target, mappings })
    }

    pub fn target(&self) -> (r: &PostgresTargetConfig)
        ensures
            r@ == self@.target,
    {
        &self.target
    }

    pub fn mappings(&self) -> (r: &Vec<ConfiguredMappingPlan>)
        ensures
            mapping_plan_views(r@) == self@.mappings,
    {
        &self.mappings
    }
}


/// Indices of the first `n` keys that equal `k`, in order.
pub open spec fn members_of(keys: Seq<DbKeyView>, k: DbKeyView, n: int) -> Seq<int>
    decreases n,
{
    if n <= 0 {
        seq![]
    } else if keys[n - 1] == k {
        members_of(keys, k, n - 1).push(n - 1)
    } else {
        members_of(keys, k, n - 1)
    }
}

/// `sorted` lists each key of `keys` once, in increasing order.
pub open spec fn sorted_keys(keys: Seq<DbKeyView>, sorted: Seq<DbKeyView>) -> bool {
    &&& forall|a: int, b: int| 0 <= a < b < sorted.len() ==> key_lt(#[trigger] sorted[a], #[trigger] sorted[b])
    &&& forall|q: int| 0 <= q < sorted.len() ==> keys.contains(#[trigger] sorted[q])
    &&& forall|i: int| 0 <= i < keys.len() ==> sorted.contains(#[trigger] keys[i])
}

/// The mappings of a config, as plans.
pub open spec fn config_plans(config: RunnerConfig) -> Seq<MappingPlanView> {
    config.mappings_spec().map_values(|m: MappingConfig| mapping_plan_spec(m))
}

pub open spec fn plan_keys(ms: Seq<MappingPlanView>) -> Seq<DbKeyView> {
    ms.map_values(|m: MappingPlanView| db_key_of(m.destination))
}

/// The mappings of the group of key `k`, in config order.
pub open spec fn group_mappings(ms: Seq<MappingPlanView>, k: DbKeyView) -> Seq<MappingPlanView> {
    members_of(plan_keys(ms), k, ms.len() as int).map_values(|i: int| ms[i])
}

pub struct ListenerView {
    pub bind_addr: Seq<char>,
    pub tls: Option<TlsView>,
}

pub struct StartupPlanView {
    pub webhook_listener: ListenerView,
    pub reconcile_interval_secs: u64,
    pub mappings: Seq<MappingPlanView>,
    pub destination_groups: Seq<DestinationGroupView>,
}

/// The group of key `k` with mappings `ms` passes its checks.
pub open spec fn group_passes(k: DbKeyView, ms: Seq<MappingPlanView>) -> bool {
    group_outcome(
        k,
        ms,
        Ok::<DestinationGroupView, StartupErrorView>(
            DestinationGroupView { target: ms[0].destination, mappings: ms },
        ),
    )
}

/// Mapping-id order on planned mappings (a map keyed by mapping id walks them so).
pub open spec fn id_order() -> spec_fn(MappingPlanView, MappingPlanView) -> bool {
    |a: MappingPlanView, b: MappingPlanView| seq_lt(a.mapping_id, b.mapping_id)
}

/// What planning a config returns: the destination databases in increasing order, each
/// group checked in that order, and the first failing group's error.
pub open spec fn plan_outcome(config: RunnerConfig, r: Result<StartupPlanView, StartupErrorView>) -> bool {
    let ms = config_plans(config);
    exists|sorted: Seq<DbKeyView>|
        #![trigger sorted_keys(plan_keys(ms), sorted)]
        sorted_keys(plan_keys(ms), sorted) && match r {
            Ok(plan) => {
                &&& plan.mappings == sort_by(ms, id_order())
                &&& plan.webhook_listener == (ListenerView {
                    bind_addr: config.webhook_spec().bind_addr_spec(),
                    tls: config.webhook_spec().tls_spec(),
                })
                &&& plan.reconcile_interval_secs == config.reconcile_spec().interval_spec()
                &&& plan.destination_groups.len() == sorted.len()
                &&& forall|g: int|
                    0 <= g < sorted.len() ==> group_outcome(
                        sorted[g],
                        group_mappings(ms, sorted[g]),
                        Ok::<DestinationGroupView, StartupErrorView>(#[trigger] plan.destination_groups[g]),
                    )
            },
            Err(e) => exists|k: int|
                0 <= k < sorted.len() && (forall|g: int|
                    0 <= g < k ==> group_passes(#[trigger] sorted[g], group_mappings(ms, sorted[g])))
                    && group_outcome(
                    sorted[k],
                    group_mappings(ms, sorted[k]),
                    Err::<DestinationGroupView, StartupErrorView>(e),
                ),
        }
}

/// The webhook listener the runtime starts.
pub enum WebhookListenerTransport {
    Http,
    Https { cert_path: String, key_path: String, client_ca_path: Option<String> },
}

impl WebhookListenerTransport {
    pub open spec fn tls_spec(&self) -> Option<TlsView> {
        match self {
            WebhookListenerTransport::Http => None,
            WebhookListenerTransport::Https { cert_path, key_path, client_ca_path } => Some(
                TlsView {
                    cert_path: cert_path@,
                    key_path: key_path@,
                    client_ca_path: crate::config::opt_view(*client_ca_path),
                },
            ),
        }
    }

    pub fn effective_mode(&self) -> (r: &'static str)
        ensures
            r@ == effective_mode_spec(self.tls_spec()),
    {
        match self {
            WebhookListenerTransport::Http => "http",
            WebhookListenerTransport::Https { client_ca_path, .. } => if client_ca_path.is_some() {
                "https+mtls"
            } else {
                "https"
            },
        }
    }

    pub fn tls(&self) -> (r: Option<WebhookListenerTls<'_>>)
        ensures
            match r {
                Some(t) => self.tls_spec() == Some(t.view_tls()),
                None => self.tls_spec() is None,
            },
    {
        match self {
            WebhookListenerTransport::Http => None,
            WebhookListenerTransport::Https { cert_path, key_path, client_ca_path } => Some(
                WebhookListenerTls {
                    cert_path: cert_path.as_str(),
                    key_path: key_path.as_str(),
                    client_ca_path: match client_ca_path {
                        Some(p) => Some(p.as_str()),
                        None => None,
                    },
                },
            ),
        }
    }
}

/// The TLS material of an HTTPS listener, borrowed from its plan.
pub struct WebhookListenerTls<'a> {
    cert_path: &'a str,
    key_path: &'a str,
    client_ca_path: Option<&'a str>,
}

impl<'a> WebhookListenerTls<'a> {
    pub closed spec fn view_tls(&self) -> TlsView {
        TlsView {
            cert_path: self.cert_path@,
            key_path: self.key_path@,
            client_ca_path: match self.client_ca_path {
                Some(p) => Some(p@),
                None => None,
            },
        }
    }

    pub fn cert_path(&self) -> (r: &'a str)
        ensures
            r@ == self.view_tls().cert_path,
    {
        self.cert_path
    }

    pub fn key_path(&self) -> (r: &'a str)
        ensures
            r@ == self.view_tls().key_path,
    {
        self.key_path
    }

    pub fn client_ca_path(&self) -> (r: Option<&'a str>)
        ensures
            match r {
                Some(p) => self.view_tls().client_ca_path == Some(p@),
                None => self.view_tls().client_ca_path is None,
            },
    {
        self.client_ca_path
    }
}

pub struct WebhookListenerPlan {
    bind_addr: String,
    transport: WebhookListenerTransport,
}

impl WebhookListenerPlan {
    pub closed spec fn view_listener(&self) -> ListenerView {
        ListenerView { bind_addr: self.bind_addr@, tls: self.transport.tls_spec() }
    }

    fn from_config(config: &WebhookConfig) -> (r: Self)
        ensures
            r.view_listener() == (ListenerView { bind_addr: config.bind_addr_spec(), tls: config.tls_spec() }),
    {
        let transport = match config.tls() {
            Some(tls) => WebhookListenerTransport::Https {
                cert_path: String::from_str(tls.cert_path()),
                key_path: String::from_str(tls.key_path()),
                client_ca_path: match tls.client_ca_path() {
                    Some(p) => Some(String::from_str(p)),
                    None => None,
                },
            },
            None => WebhookListenerTransport::Http,
        };
        WebhookListenerPlan { bind_addr: String::from_str(config.bind_addr()), transport }
    }

    /// The socket address to bind, as text.
    pub fn bind_addr(&self) -> (r: &str)
        ensures
            r@ == self.view_listener().bind_addr,
    {
        self.bind_addr.as_str()
    }

    pub fn transport(&self) -> (r: &WebhookListenerTransport)
        ensures
            r.tls_spec() == self.view_listener().tls,
    {
        &self.transport
    }
}


pub proof fn lemma_members_range(keys: Seq<DbKeyView>, k: DbKeyView, n: int)
    requires
        0 <= n <= keys.len(),
    ensures
        forall|t: int| 0 <= t < members_of(keys, k, n).len() ==> 0 <= #[trigger] members_of(keys, k, n)[t] < n,
    decreases n,
{
    if n > 0 {
        lemma_members_range(keys, k, n - 1);
        let prev = members_of(keys, k, n - 1);
        assert forall|t: int| 0 <= t < members_of(keys, k, n).len() implies 0 <= #[trigger] members_of(keys, k, n)[t] < n by {
            if keys[n - 1] == k {
                assert(members_of(keys, k, n) == prev.push(n - 1));
                if t < prev.len() {
                    assert(members_of(keys, k, n)[t] == prev[t]);
                }
            } else {
                assert(members_of(keys, k, n) == prev);
            }
        }
    }
}

/// Every mapping of every destination group is one of the plan's mappings.
pub open spec fn groups_within(plan: StartupPlanView) -> bool {
    forall|g: int, j: int|
        0 <= g < plan.destination_groups.len() && 0 <= j < plan.destination_groups[g].mappings.len()
            ==> plan.mappings.contains(#[trigger] plan.destination_groups[g].mappings[j])
}

/// A successful plan puts in its groups only mappings of the config.
pub proof fn lemma_plan_groups_within(config: RunnerConfig, plan: StartupPlanView)
    requires
        plan_outcome(config, Ok::<StartupPlanView, StartupErrorView>(plan)),
    ensures
        groups_within(plan),
{
    let ms = config_plans(config);
    let sorted = choose|sorted: Seq<DbKeyView>| #![trigger sorted_keys(plan_keys(ms), sorted)] sorted_keys(plan_keys(ms), sorted)
        && match Ok::<StartupPlanView, StartupErrorView>(plan) {
            Ok(plan) => {
                &&& plan.mappings == sort_by(ms, id_order())
                &&& plan.webhook_listener == (ListenerView {
                    bind_addr: config.webhook_spec().bind_addr_spec(),
                    tls: config.webhook_spec().tls_spec(),
                })
                &&& plan.reconcile_interval_secs == config.reconcile_spec().interval_spec()
                &&& plan.destination_groups.len() == sorted.len()
                &&& forall|g: int|
                    0 <= g < sorted.len() ==> group_outcome(
                        sorted[g],
                        group_mappings(ms, sorted[g]),
                        Ok::<DestinationGroupView, StartupErrorView>(#[trigger] plan.destination_groups[g]),
                    )
            },
            Err(e) => false,
        };
    assert forall|g: int, j: int|
        0 <= g < plan.destination_groups.len() && 0 <= j < plan.destination_groups[g].mappings.len()
            implies plan.mappings.contains(#[trigger] plan.destination_groups[g].mappings[j]) by {
        let grp = plan.destination_groups[g];
        assert(group_outcome(sorted[g], group_mappings(ms, sorted[g]), Ok::<DestinationGroupView, StartupErrorView>(grp)));
        assert(grp.mappings == group_mappings(ms, sorted[g]));
        lemma_members_range(plan_keys(ms), sorted[g], ms.len() as int);
        let idx = members_of(plan_keys(ms), sorted[g], ms.len() as int)[j];
        assert(0 <= idx < ms.len());
        assert(grp.mappings[j] == ms[idx]);
        assert(ms.contains(grp.mappings[j]));
        lemma_sort_by_contains(ms, id_order(), grp.mappings[j]);
    }
}

proof fn lemma_first_inconsistent_exists(ms: Seq<MappingPlanView>, i: int)
    requires
        0 < i < ms.len(),
        ms[i].destination.target_contract != ms[0].destination.target_contract,
    ensures
        exists|k: int| first_inconsistent(ms, k),
    decreases i,
{
    if forall|j: int| 0 <= j < i ==> (#[trigger] ms[j]).destination.target_contract == ms[0].destination.target_contract {
        assert(first_inconsistent(ms, i));
    } else {
        let j = choose|j: int| 0 <= j < i && (#[trigger] ms[j]).destination.target_contract != ms[0].destination.target_contract;
        lemma_first_inconsistent_exists(ms, j);
    }
}

proof fn lemma_first_repeat_exists(owned: Seq<(Seq<char>, Seq<char>)>, d: int, e: int)
    requires
        0 <= e < d < owned.len(),
        owned[e].0 == owned[d].0,
    ensures
        exists|a: int, b: int| first_repeat(owned, a, b),
    decreases d,
{
    if forall|x: int, y: int| 0 <= x < y < d ==> (#[trigger] owned[x]).0 != (#[trigger] owned[y]).0 {
        assert(first_repeat(owned, d, e));
    } else {
        let (x, y) = choose|x: int, y: int| 0 <= x < y < d && (#[trigger] owned[x]).0 == (#[trigger] owned[y]).0;
        lemma_first_repeat_exists(owned, y, x);
    }
}

/// In a successful plan every destination group is consistent: all its mappings were given
/// the first mapping's connection contract, and no table is claimed twice within it.
pub proof fn lemma_plan_groups_consistent(config: RunnerConfig, plan: StartupPlanView)
    requires
        plan_outcome(config, Ok::<StartupPlanView, StartupErrorView>(plan)),
    ensures
        forall|g: int, i: int|
            0 <= g < plan.destination_groups.len() && 0 <= i < plan.destination_groups[g].mappings.len()
                ==> (#[trigger] plan.destination_groups[g].mappings[i]).destination.target_contract
                == plan.destination_groups[g].mappings[0].destination.target_contract,
        forall|g: int, x: int, y: int|
            #![trigger owned_tables(plan.destination_groups[g].mappings)[x], owned_tables(plan.destination_groups[g].mappings)[y]]
            0 <= g < plan.destination_groups.len() && 0 <= x < y < owned_tables(
                plan.destination_groups[g].mappings,
            ).len() ==> owned_tables(plan.destination_groups[g].mappings)[x].0 != owned_tables(
                plan.destination_groups[g].mappings,
            )[y].0,
{
    let ms = config_plans(config);
    let sorted = choose|sorted: Seq<DbKeyView>| #![trigger sorted_keys(plan_keys(ms), sorted)] sorted_keys(plan_keys(ms), sorted)
        && match Ok::<StartupPlanView, StartupErrorView>(plan) {
            Ok(plan) => {
                &&& plan.mappings == sort_by(ms, id_order())
                &&& plan.webhook_listener == (ListenerView {
                    bind_addr: config.webhook_spec().bind_addr_spec(),
                    tls: config.webhook_spec().tls_spec(),
                })
                &&& plan.reconcile_interval_secs == config.reconcile_spec().interval_spec()
                &&& plan.destination_groups.len() == sorted.len()
                &&& forall|g: int|
                    0 <= g < sorted.len() ==> group_outcome(
                        sorted[g],
                        group_mappings(ms, sorted[g]),
                        Ok::<DestinationGroupView, StartupErrorView>(#[trigger] plan.destination_groups[g]),
                    )
            },
            Err(e) => false,
        };
    assert forall|g: int, i: int|
        0 <= g < plan.destination_groups.len() && 0 <= i < plan.destination_groups[g].mappings.len()
            implies (#[trigger] plan.destination_groups[g].mappings[i]).destination.target_contract
            == plan.destination_groups[g].mappings[0].destination.target_contract by {
        let grp = plan.destination_groups[g];
        let gm = group_mappings(ms, sorted[g]);
        assert(group_outcome(sorted[g], gm, Ok::<DestinationGroupView, StartupErrorView>(grp)));
        assert(!exists|k: int| first_inconsistent(gm, k));
        assert(grp.mappings == gm);
        if i > 0 && gm[i].destination.target_contract != gm[0].destination.target_contract {
            lemma_first_inconsistent_exists(gm, i);
        }
    }
    assert forall|g: int, x: int, y: int|
        0 <= g < plan.destination_groups.len() && 0 <= x < y < owned_tables(
            plan.destination_groups[g].mappings,
        ).len() implies #[trigger] owned_tables(plan.destination_groups[g].mappings)[x].0 != #[trigger] owned_tables(
            plan.destination_groups[g].mappings,
        )[y].0 by {
        let grp = plan.destination_groups[g];
        let gm = group_mappings(ms, sorted[g]);
        assert(group_outcome(sorted[g], gm, Ok::<DestinationGroupView, StartupErrorView>(grp)));
        assert(grp.mappings == gm);
        if owned_tables(gm)[x].0 == owned_tables(gm)[y].0 {
            lemma_first_repeat_exists(owned_tables(gm), y, x);
        }
    }
}

pub proof fn lemma_members_nonempty(keys: Seq<DbKeyView>, k: DbKeyView, n: int, i: int)
    requires
        0 <= i < n <= keys.len(),
        keys[i] == k,
    ensures
        members_of(keys, k, n).len() > 0,
    decreases n,
{
    if i < n - 1 {
        lemma_members_nonempty(keys, k, n - 1, i);
    }
}

pub proof fn lemma_insert_contains<A>(s: Seq<A>, p: int, x: A, y: A)
    requires
        0 <= p <= s.len(),
    ensures
        s.insert(p, x).contains(y) == (s.contains(y) || y == x),
{
    let t = s.insert(p, x);
    if s.contains(y) {
        let w = choose|w: int| 0 <= w < s.len() && s[w] == y;
        if w < p {
            assert(t[w] == y);
        } else {
            assert(t[w + 1] == y);
        }
    }
    if y == x {
        assert(t[p] == x);
    }
    if t.contains(y) {
        let w = choose|w: int| 0 <= w < t.len() && t[w] == y;
        if w < p {
            assert(s[w] == y);
        } else if w > p {
            assert(s[w - 1] == y);
        }
    }
}

pub open spec fn db_key_views(v: Seq<DestinationDatabaseKey>) -> Seq<DbKeyView> {
    v.map_values(|k: DestinationDatabaseKey| k@)
}

/// The plan that the runtime starts from.
pub struct RunnerStartupPlan {
    webhook_listener: WebhookListenerPlan,
    reconcile_interval_secs: u64,
    mappings: Vec<ConfiguredMappingPlan>,
    destination_groups: Vec<DestinationGroupPlan>,
}

pub open spec fn group_views(v: Seq<DestinationGroupPlan>) -> Seq<DestinationGroupView> {
    v.map_values(|g: DestinationGroupPlan| g@)
}

impl RunnerStartupPlan {
    /// Every mapping of every destination group is one of the plan's mappings, and the
    /// mappings come in mapping-id order.
    #[verifier::type_invariant]
    pub open spec fn groups_known(self) -> bool {
        groups_within(self@) && nondecreasing(self@.mappings, id_order())
    }
}

/// The id order is a strict order.
pub proof fn lemma_id_order_strict_partial()
    ensures
        vstd::relations::irreflexive(id_order()),
        vstd::relations::transitive(id_order()),
{
    assert forall|a: MappingPlanView| #[trigger] id_order()(a, a) == false by {
        lemma_seq_lt_irreflexive(a.mapping_id);
    }
    assert forall|a: MappingPlanView, b: MappingPlanView, c: MappingPlanView|
        #[trigger] id_order()(a, b) && #[trigger] id_order()(b, c) implies id_order()(a, c) by {
        lemma_seq_lt_transitive(a.mapping_id, b.mapping_id, c.mapping_id);
    }
}

impl View for RunnerStartupPlan {
    type V = StartupPlanView;

    closed spec fn view(&self) -> StartupPlanView {
        StartupPlanView {
            webhook_listener: self.webhook_listener.view_listener(),
            reconcile_interval_secs: self.reconcile_interval_secs,
            mappings: mapping_plan_views(self.mappings@),
            destination_groups: group_views(self.destination_groups@),
        }
    }
}

pub open spec fn plan_result_view(r: Result<RunnerStartupPlan, RunnerStartupPlanError>) -> Result<
    StartupPlanView,
    StartupErrorView,
> {
    match r {
        Ok(p) => Ok(p@),
        Err(e) => Err(e@),
    }
}

/// The destination databases of `keys`, each once, in increasing order.
fn sorted_distinct_keys(keys: &Vec<DestinationDatabaseKey>) -> (sorted: Vec<DestinationDatabaseKey>)
    ensures
        sorted_keys(db_key_views(keys@), db_key_views(sorted@)),
{
    let ghost ks = db_key_views(keys@);
    let mut sorted: Vec<DestinationDatabaseKey> = Vec::new();
    let mut i: usize = 0;
    assert(ks.take(0) =~= seq![]);
    while i < keys.len()
        invariant
            ks == db_key_views(keys@),
            i <= keys.len(),
            sorted_keys(ks.take(i as int), db_key_views(sorted@)),
        decreases keys.len() - i,
    {
        let key = &keys[i];
        assert(ks[i as int] == key@);
        let ghost sv = db_key_views(sorted@);
        let mut p: usize = 0;
        let mut found = false;
        while p < sorted.len()
            invariant
                sv == db_key_views(sorted@),
                p <= sorted.len(),
                forall|q: int| 0 <= q < p ==> sv[q] != key@ && !key_lt(key@, sv[q]),
                found ==> p < sorted.len() && sv[p as int] == key@,
            ensures
                found ==> p < sorted.len() && sv[p as int] == key@,
                !found ==> forall|q: int| 0 <= q < p ==> sv[q] != key@ && !key_lt(key@, sv[q]),
                !found ==> p == sorted.len() || key_lt(key@, sv[p as int]),
            decreases sorted.len() - p,
        {
            if sorted[p].same(key) {
                found = true;
                break;
            }
            if key.less(&sorted[p]) {
                break;
            }
            p += 1;
        }
        proof {
            let pre = ks.take(i as int);
            let post = ks.take(i + 1);
            assert(post == pre.push(key@));
            assert forall|x: DbKeyView| post.contains(x) == (pre.contains(x) || x == key@) by {
                if post.contains(x) {
                    let w = choose|w: int| 0 <= w < post.len() && post[w] == x;
                    if w < pre.len() {
                        assert(pre[w] == x);
                    }
                }
                if pre.contains(x) {
                    let w = choose|w: int| 0 <= w < pre.len() && pre[w] == x;
                    assert(post[w] == x);
                }
                if x == key@ {
                    assert(post[i as int] == x);
                }
            }
        }
        if !found {
            let k = DestinationDatabaseKey {
                host: key.host.clone(),
                port: key.port,
                database: key.database.clone(),
            };
            sorted.insert(p, k);
            proof {
                let nv = db_key_views(sorted@);
                assert(nv == sv.insert(p as int, key@));
                assert forall|a: int, b: int| 0 <= a < b < nv.len() implies key_lt(#[trigger] nv[a], #[trigger] nv[b]) by {
                    if b < p {
                        assert(nv[a] == sv[a] && nv[b] == sv[b]);
                    } else if b == p {
                        lemma_key_lt_order(sv[a], key@, key@);
                        assert(nv[a] == sv[a]);
                    } else if a == p {
                        assert(nv[b] == sv[b - 1]);
                        lemma_key_lt_order(key@, sv[p as int], sv[b - 1]);
                    } else if a < p {
                        assert(nv[a] == sv[a] && nv[b] == sv[b - 1]);
                    } else {
                        assert(nv[a] == sv[a - 1] && nv[b] == sv[b - 1]);
                    }
                }
                assert forall|q: int| 0 <= q < nv.len() implies ks.take(i + 1).contains(#[trigger] nv[q]) by {
                    if q < p {
                        assert(nv[q] == sv[q]);
                    } else if q > p {
                        assert(nv[q] == sv[q - 1]);
                    }
                }
                assert forall|j: int| 0 <= j < i + 1 implies nv.contains(#[trigger] ks.take(i + 1)[j]) by {
                    lemma_insert_contains(sv, p as int, key@, ks.take(i + 1)[j]);
                    if j < i {
                        assert(ks.take(i + 1)[j] == ks.take(i as int)[j]);
                    }
                }
            }
        } else {
            proof {
                assert forall|j: int| 0 <= j < i + 1 implies sv.contains(#[trigger] ks.take(i + 1)[j]) by {
                    if j < i {
                        assert(ks.take(i + 1)[j] == ks.take(i as int)[j]);
                    } else {
                        assert(sv[p as int] == key@);
                    }
                }
            }
        }
        i += 1;
    }
    assert(ks.take(keys.len() as int) == ks);
    sorted
}


/// The `Duration` of `secs` whole seconds, as `Duration::from_secs` builds it; it depends
/// on `secs` alone.
pub uninterp spec fn duration_of_secs(secs: u64) -> std::time::Duration;

/// `Duration::from_secs` (std).
#[verifier::external_body]
fn duration_from_secs(secs: u64) -> (r: std::time::Duration)
    ensures
        r == duration_of_secs(secs),
{
    std::time::Duration::from_secs(secs)
}

/// The planned mappings in mapping-id order.
fn sort_by_mapping_id(plans: &Vec<ConfiguredMappingPlan>) -> (r: Vec<ConfiguredMappingPlan>)
    ensures
        mapping_plan_views(r@) == sort_by(mapping_plan_views(plans@), id_order()),
{
    let ghost vv = mapping_plan_views(plans@);
    let mut sorted: Vec<ConfiguredMappingPlan> = Vec::new();
    let mut i: usize = 0;
    assert(vv.take(0) =~= seq![]);
    while i < plans.len()
        invariant
            i <= plans.len(),
            vv == mapping_plan_views(plans@),
            mapping_plan_views(sorted@) == sort_by(vv.take(i as int), id_order()),
        decreases plans.len() - i,
    {
        let x = plans[i].clone();
        assert(vv[i as int] == x@);
        let xid = chars_of(x.mapping_id());
        let ghost sv = mapping_plan_views(sorted@);
        let mut p: usize = 0;
        while p < sorted.len() && !seq_less(&xid, &chars_of(sorted[p].mapping_id()))
            invariant
                p <= sorted.len(),
                sv == mapping_plan_views(sorted@),
                xid@ == x@.mapping_id,
                forall|j: int| 0 <= j < p ==> !seq_lt(x@.mapping_id, #[trigger] sv[j].mapping_id),
            decreases sorted.len() - p,
        {
            assert(sv[p as int] == sorted@[p as int]@);
            p += 1;
        }
        proof {
            if p < sorted.len() {
                assert(sv[p as int] == sorted@[p as int]@);
            }
            assert forall|j: int| 0 <= j < p implies !(#[trigger] id_order()(x@, sv[j])) by {}
            lemma_insert_sorted_at(sv, x@, id_order(), p as int);
            assert(vv.take(i + 1).drop_last() == vv.take(i as int));
        }
        sorted.insert(p, x);
        assert(mapping_plan_views(sorted@) =~= sv.take(p as int).push(x@) + sv.skip(p as int));
        i += 1;
    }
    assert(vv.take(plans.len() as int) == vv);
    sorted
}

impl RunnerStartupPlan {
    /// Plans a validated config: the mappings in mapping-id order, and one group per destination
    /// database (host, port, database), in increasing order of those, each group holding its
    /// mappings in config order and checked as `group_outcome` says.
    pub fn from_config(config: &RunnerConfig) -> (r: Result<Self, RunnerStartupPlanError>)
        ensures
            plan_outcome(*config, plan_result_view(r)),
    {
        let ghost ms = config_plans(*config);
        let configured = config.mappings();
        let mut plans: Vec<ConfiguredMappingPlan> = Vec::new();
        let mut keys: Vec<DestinationDatabaseKey> = Vec::new();
        let mut i: usize = 0;
        while i < configured.len()
            invariant
                configured@ == config.mappings_spec(),
                ms == config_plans(*config),
                i <= configured.len(),
                plans.len() == i,
                keys.len() == i,
                mapping_plan_views(plans@) == ms.take(i as int),
                db_key_views(keys@) == plan_keys(ms).take(i as int),
            decreases configured.len() - i,
        {
            let plan = ConfiguredMappingPlan::from_config(&configured[i]);
            let key = DestinationDatabaseKey::from_target(plan.destination());
            let ghost pv = plans@;
            let ghost kv = keys@;
            plans.push(plan);
            keys.push(key);
            proof {
                assert(mapping_plan_views(plans@) =~= ms.take(i + 1)) by {
                    assert forall|k: int| 0 <= k < i + 1 implies mapping_plan_views(plans@)[k] == ms.take(i + 1)[k] by {
                        if k < i {
                            assert(plans@[k] == pv[k]);
                            assert(mapping_plan_views(pv)[k] == ms.take(i as int)[k]);
                        }
                    }
                }
                assert(db_key_views(keys@) =~= plan_keys(ms).take(i + 1)) by {
                    assert forall|k: int| 0 <= k < i + 1 implies db_key_views(keys@)[k] == plan_keys(ms).take(i + 1)[k] by {
                        if k < i {
                            assert(keys@[k] == kv[k]);
                            assert(db_key_views(kv)[k] == plan_keys(ms).take(i as int)[k]);
                        }
                    }
                }
            }
            i += 1;
        }
        assert(ms.take(configured.len() as int) == ms);
        assert(plan_keys(ms).take(configured.len() as int) == plan_keys(ms));
        let ghost pk = plan_keys(ms);
        let sorted = sorted_distinct_keys(&keys);
        let ghost sv = db_key_views(sorted@);
        let n = plans.len();
        let mut groups: Vec<DestinationGroupPlan> = Vec::new();
        let mut g: usize = 0;
        while g < sorted.len()
            invariant
                n == plans.len(),
                n == keys.len(),
                ms == config_plans(*config),
                pk == plan_keys(ms),
                mapping_plan_views(plans@) == ms,
                db_key_views(keys@) == pk,
                sv == db_key_views(sorted@),
                sorted_keys(pk, sv),
                g <= sorted.len(),
                groups.len() == g,
                forall|h: int|
                    0 <= h < g ==> group_outcome(
                        #[trigger] sv[h],
                        group_mappings(ms, sv[h]),
                        Ok::<DestinationGroupView, StartupErrorView>(group_views(groups@)[h]),
                    ),
            decreases sorted.len() - g,
        {
            let key = &sorted[g];
            assert(sv[g as int] == key@);
            let mut members: Vec<ConfiguredMappingPlan> = Vec::new();
            let mut j: usize = 0;
            while j < n
                invariant
                    n == plans.len(),
                    n == keys.len(),
                    mapping_plan_views(plans@) == ms,
                    db_key_views(keys@) == pk,
                    pk == plan_keys(ms),
                    j <= n,
                    members@.len() == members_of(pk, key@, j as int).len(),
                    mapping_plan_views(members@) == members_of(pk, key@, j as int).map_values(|x: int| ms[x]),
                decreases n - j,
            {
                assert(db_key_views(keys@)[j as int] == keys@[j as int]@);
                if keys[j].same(key) {
                    let ghost prev = members@;
                    let c = plans[j].clone();
                    members.push(c);
                    proof {
                        let mo = members_of(pk, key@, j + 1);
                        assert(mo == members_of(pk, key@, j as int).push(j as int));
                        assert(mapping_plan_views(members@) =~= mo.map_values(|x: int| ms[x])) by {
                            assert forall|k: int| 0 <= k < mo.len() implies mapping_plan_views(members@)[k]
                                == mo.map_values(|x: int| ms[x])[k] by {
                                if k < prev.len() {
                                    assert(members@[k] == prev[k]);
                                    assert(mapping_plan_views(prev)[k] == members_of(pk, key@, j as int).map_values(|x: int| ms[x])[k]);
                                } else {
                                    assert(k == prev.len());
                                    assert(members@[k] == c);
                                    assert(mapping_plan_views(plans@)[j as int] == ms[j as int]);
                                    assert(mo[k] == j as int);
                                }
                            }
                        }
                    }
                }
                j += 1;
            }
            proof {
                assert(mapping_plan_views(members@) == group_mappings(ms, key@));
                assert(pk.contains(sv[g as int]));
                let w = choose|w: int| 0 <= w < pk.len() && pk[w] == sv[g as int];
                lemma_members_nonempty(pk, key@, n as int, w);
            }
            let ghost mv = mapping_plan_views(members@);
            let r = DestinationGroupPlan::new(key, members);
            assert(group_outcome(sv[g as int], group_mappings(ms, sv[g as int]), result_view(r)));
            match r {
                Ok(group) => {
                    let ghost prev = groups@;
                    groups.push(group);
                    proof {
                        assert forall|h: int| 0 <= h < g + 1 implies group_outcome(
                            #[trigger] sv[h],
                            group_mappings(ms, sv[h]),
                            Ok::<DestinationGroupView, StartupErrorView>(group_views(groups@)[h]),
                        ) by {
                            if h < g {
                                assert(groups@[h] == prev[h]);
                            }
                        }
                    }
                },
                Err(e) => {
                    let r = Err(e);
                    proof {
                        let kk = g as int;
                        assert forall|h: int| 0 <= h < kk implies group_passes(#[trigger] sv[h], group_mappings(ms, sv[h])) by {
                            let v = group_views(groups@)[h];
                            assert(group_outcome(sv[h], group_mappings(ms, sv[h]), Ok::<DestinationGroupView, StartupErrorView>(v)));
                        }
                        assert(plan_result_view(r) == Err::<StartupPlanView, StartupErrorView>(e@));
                        assert(group_outcome(
                            sv[kk],
                            group_mappings(ms, sv[kk]),
                            Err::<DestinationGroupView, StartupErrorView>(e@),
                        ));
                        assert(plan_outcome(*config, plan_result_view(r)));
                    }
                    return r;
                },
            }
            g += 1;
        }
        let by_id = sort_by_mapping_id(&plans);
        let webhook_listener = WebhookListenerPlan::from_config(config.webhook());
        let reconcile_interval_secs = config.reconcile().interval_secs();
        let ghost pv = StartupPlanView {
            webhook_listener: webhook_listener.view_listener(),
            reconcile_interval_secs,
            mappings: mapping_plan_views(by_id@),
            destination_groups: group_views(groups@),
        };
        proof {
            assert(plan_outcome(*config, Ok::<StartupPlanView, StartupErrorView>(pv)));
            lemma_plan_groups_within(*config, pv);
            lemma_id_order_strict_partial();
            lemma_sort_by_sorted(mapping_plan_views(plans@), id_order());
        }
        let plan = RunnerStartupPlan {
            webhook_listener,
            reconcile_interval_secs,
            mappings: by_id,
            destination_groups: groups,
        };
        assert(plan@ == pv);
        Ok(plan)
    }

    pub fn destination_groups(&self) -> (r: &Vec<DestinationGroupPlan>)
        ensures
            group_views(r@) == self@.destination_groups,
    {
        &self.destination_groups
    }

    pub fn webhook_listener(&self) -> (r: &WebhookListenerPlan)
        ensures
            r.view_listener() == self@.webhook_listener,
    {
        &self.webhook_listener
    }

    /// How often each mapping is reconciled, as a `Duration`.
    pub fn reconcile_interval(&self) -> (r: std::time::Duration)
        ensures
            r == duration_of_secs(self@.reconcile_interval_secs),
    {
        duration_from_secs(self.reconcile_interval_secs)
    }

    pub fn reconcile_interval_secs(&self) -> (r: u64)
        ensures
            r == self@.reconcile_interval_secs,
    {
        self.reconcile_interval_secs
    }

    /// The planned mappings, in mapping-id order.
    pub fn mappings(&self) -> (r: &Vec<ConfiguredMappingPlan>)
        ensures
            mapping_plan_views(r@) == self@.mappings,
            nondecreasing(self@.mappings, id_order()),
    {
        proof {
            use_type_invariant(self);
        }
        &self.mappings
    }
}

/// The message of a startup-plan error.
pub open spec fn startup_error_text(e: StartupErrorView) -> Seq<char> {
    match e {
        StartupErrorView::InconsistentDestinationTarget { destination, first_mapping_id, second_mapping_id } =>
            "destination database `"@ + destination
            + "` has conflicting PostgreSQL target contracts for mappings `"@ + first_mapping_id + "` and `"@
            + second_mapping_id + "`"@,
        StartupErrorView::OverlappingDestinationTable { destination, table, first_mapping_id, second_mapping_id } =>
            "destination database `"@ + destination + "` table `"@ + table + "` is claimed by both mappings `"@
            + first_mapping_id + "` and `"@ + second_mapping_id + "`"@,
    }
}

impl RunnerStartupPlanError {
    /// The error's message.
    pub fn render(&self) -> (r: String)
        ensures
            r@ == startup_error_text(self@),
    {
        match self {
            RunnerStartupPlanError::InconsistentDestinationTarget { destination, first_mapping_id, second_mapping_id } => {
                let mut s = String::from_str("destination database `");
                s.append(destination.as_str());
                s.append("` has conflicting PostgreSQL target contracts for mappings `");
                s.append(first_mapping_id.as_str());
                s.append("` and `");
                s.append(second_mapping_id.as_str());
                s.append("`");
                s
            },
            RunnerStartupPlanError::OverlappingDestinationTable { destination, table, first_mapping_id, second_mapping_id } => {
                let mut s = String::from_str("destination database `");
                s.append(destination.as_str());
                s.append("` table `");
                s.append(table.as_str());
                s.append("` is claimed by both mappings `");
                s.append(first_mapping_id.as_str());
                s.append("` and `");
                s.append(second_mapping_id.as_str());
                s.append("`");
                s
            },
        }
    }
}

} // verus!
