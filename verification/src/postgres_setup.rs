//! The grant scripts and notes that an operator runs on PostgreSQL before starting the runner.
use vstd::prelude::*;

use crate::config::{MappingConfig, RunnerConfig};
use crate::helper_plan::helper_schema;
use crate::ordering::name_views;
use crate::schema::{config_table_name, quote_ident, table_quoted, QualifiedTableName, SqlIdentifier};
use crate::text::{decimal, views};

verus! {

/// Why writing the setup artifacts failed.
#[derive(Debug)]
pub enum RunnerArtifactError {
    CreateOutputDirectory { path: String, message: String },
    CreateMappingDirectory { path: String, message: String },
    WriteFile { path: String, message: String },
}

pub enum ArtifactErrorView {
    CreateOutputDirectory { path: Seq<char> },
    CreateMappingDirectory { path: Seq<char> },
    WriteFile { path: Seq<char> },
}

impl View for RunnerArtifactError {
    type V = ArtifactErrorView;

    open spec fn view(&self) -> ArtifactErrorView {
        match self {
            RunnerArtifactError::CreateOutputDirectory { path, .. } =>
                ArtifactErrorView::CreateOutputDirectory { path: path@ },
            RunnerArtifactError::CreateMappingDirectory { path, .. } =>
                ArtifactErrorView::CreateMappingDirectory { path: path@ },
            RunnerArtifactError::WriteFile { path, .. } => ArtifactErrorView::WriteFile { path: path@ },
        }
    }
}

pub open spec fn artifact_error_text(e: ArtifactErrorView) -> Seq<char> {
    match e {
        ArtifactErrorView::CreateOutputDirectory { path } => "failed to create output directory `"@
            + path + "`"@,
        ArtifactErrorView::CreateMappingDirectory { path } => "failed to create mapping directory `"@
            + path + "`"@,
        ArtifactErrorView::WriteFile { path } => "failed to write artifact file `"@ + path + "`"@,
    }
}

impl RunnerArtifactError {
    /// The error's message.
    pub fn render(&self) -> (r: String)
        ensures
            r@ == artifact_error_text(self@),
    {
        let (head, path) = match self {
            RunnerArtifactError::CreateOutputDirectory { path, .. } => (
                "failed to create output directory `",
                path,
            ),
            RunnerArtifactError::CreateMappingDirectory { path, .. } => (
                "failed to create mapping directory `",
                path,
            ),
            RunnerArtifactError::WriteFile { path, .. } => ("failed to write artifact file `", path),
        };
        let mut s = String::from_str(head);
        s.append(path.as_str());
        s.append("`");
        s
    }
}

/// What the grants of one mapping are made of.
pub struct GrantView {
    pub mapping_id: Seq<char>,
    pub database: Seq<char>,
    pub role: Seq<char>,
    pub tables: Seq<(Seq<char>, Seq<char>)>,
}

/// The grants one mapping needs on its destination.
pub struct PostgresGrantPlan {
    mapping_id: String,
    destination_database: SqlIdentifier,
    runtime_role: SqlIdentifier,
    tables: Vec<QualifiedTableName>,
}

impl View for PostgresGrantPlan {
    type V = GrantView;

    closed spec fn view(&self) -> GrantView {
        GrantView {
            mapping_id: self.mapping_id@,
            database: self.destination_database@,
            role: self.runtime_role@,
            tables: name_views(self.tables@),
        }
    }
}

/// The grant plan of a mapping: its destination database and user, and its tables.
pub open spec fn grant_of(m: MappingConfig) -> GrantView {
    GrantView {
        mapping_id: m.id_spec(),
        database: m.destination_spec().database,
        role: m.destination_spec().user,
        tables: m.source_spec().tables.map_values(|t: Seq<char>| config_table_name(t)),
    }
}

impl PostgresGrantPlan {
    pub fn from_mapping(mapping: &MappingConfig) -> (r: Self)
        ensures
            r@ == grant_of(*mapping),
    {
        let destination = mapping.destination();
        let tables = mapping.source().tables();
        let ghost want = mapping.source_spec().tables.map_values(|t: Seq<char>| config_table_name(t));
        let mut names: Vec<QualifiedTableName> = Vec::new();
        let mut i: usize = 0;
        while i < tables.len()
            invariant
                i <= tables.len(),
                names@.len() == i,
                views(tables@) == mapping.source_spec().tables,
                want == mapping.source_spec().tables.map_values(|t: Seq<char>| config_table_name(t)),
                name_views(names@) == want.take(i as int),
            decreases tables.len() - i,
        {
            let ghost prev = names@;
            names.push(QualifiedTableName::from_config(tables[i].as_str()));
            assert(mapping.source_spec().tables[i as int] == tables@[i as int]@);
            assert forall|k: int| 0 <= k < i + 1 implies #[trigger] name_views(names@)[k] == want.take(i + 1)[k] by {
                if k < i {
                    assert(names@[k] == prev[k]);
                    assert(name_views(prev)[k] == want.take(i as int)[k]);
                }
            }
            assert(name_views(names@) =~= want.take(i + 1));
            i += 1;
        }
        assert(want.take(tables.len() as int) == want);
        PostgresGrantPlan {
            mapping_id: String::from_str(mapping.id()),
            destination_database: SqlIdentifier::new(destination.database()),
            runtime_role: SqlIdentifier::new(destination.user()),
            tables: names,
        }
    }

    pub fn mapping_id(&self) -> (r: &str)
        ensures
            r@ == self@.mapping_id,
    {
        self.mapping_id.as_str()
    }

    /// `grants.sql` of the mapping.
    pub fn grant_sql(&self) -> (r: String)
        ensures
            r@ == grant_sql_text(self@),
    {
        let mut s = String::from_str("-- PostgreSQL grants for mapping `");
        s.append(self.mapping_id.as_str());
        s.append("`\n");
        s.append("-- Destination database: ");
        s.append(self.destination_database.raw());
        s.append("\n");
        s.append("-- Runtime role: ");
        s.append(self.runtime_role.raw());
        s.append("\n");
        s.append("-- Helper schema: ");
        s.append("_cockroach_migration_tool");
        s.append("\n");
        s.append("\n");
        let role = self.runtime_role.quoted();
        s.append("GRANT CONNECT, TEMPORARY, CREATE ON DATABASE ");
        s.append(self.destination_database.quoted().as_str());
        s.append(" TO ");
        s.append(role.as_str());
        s.append(";\n");
        s.append("GRANT USAGE ON SCHEMA public TO ");
        s.append(role.as_str());
        s.append(";\n");
        let ghost head = s@;
        let ghost tv = name_views(self.tables@);
        let mut i: usize = 0;
        assert(tv.take(0) =~= seq![]);
        while i < self.tables.len()
            invariant
                i <= self.tables.len(),
                tv == name_views(self.tables@),
                role@ == quote_ident(self@.role),
                s@ == head + table_grants(tv.take(i as int), self@.role),
            decreases self.tables.len() - i,
        {
            s.append("GRANT SELECT, INSERT, UPDATE, DELETE ON TABLE ");
            s.append(self.tables[i].quoted().as_str());
            s.append(" TO ");
            s.append(role.as_str());
            s.append(";\n");
            assert(tv.take(i + 1).drop_last() == tv.take(i as int));
            assert(tv.take(i + 1).last() == self.tables@[i as int]@);
            i += 1;
        }
        assert(tv.take(self.tables.len() as int) == tv);
        s
    }

    /// `README.md` of the mapping.
    pub fn readme(&self) -> (r: String)
        ensures
            r@ == mapping_readme_text(self@),
    {
        let mut s = String::from_str("# PostgreSQL Setup For `");
        s.append(self.mapping_id.as_str());
        s.append("`\n");
        s.append("\n");
        s.append("Run `grants.sql` while connected to database `");
        s.append(self.destination_database.raw());
        s.append("` before starting the runner.\n");
        s.append("\n");
        s.append("These grants stay manual and explicit by design. The runtime role is `");
        s.append(self.runtime_role.raw());
        s.append("`.\n");
        s.append("\n");
        s.append("No superuser requirement is assumed or recommended.\n");
        s.append("\n");
        s.append("After the grants exist, `runner run --config <path>` creates helper objects in schema `");
        s.append("_cockroach_migration_tool");
        s.append("` automatically.\n");
        s.append("If `");
        s.append("_cockroach_migration_tool");
        s.append("` already exists, it must already be owned by `");
        s.append(self.runtime_role.raw());
        s.append("`.\n");
        s
    }
}

/// One `GRANT` line per table.
pub open spec fn table_grants(tables: Seq<(Seq<char>, Seq<char>)>, role: Seq<char>) -> Seq<char>
    decreases tables.len(),
{
    if tables.len() == 0 {
        seq![]
    } else {
        table_grants(tables.drop_last(), role) + "GRANT SELECT, INSERT, UPDATE, DELETE ON TABLE "@
            + table_quoted(tables.last()) + " TO "@ + quote_ident(role) + ";\n"@
    }
}

/// `grants.sql`: a commented header, then the database, schema and table grants.
pub open spec fn grant_sql_text(g: GrantView) -> Seq<char> {
    "-- PostgreSQL grants for mapping `"@ + g.mapping_id + "`\n"@ + "-- Destination database: "@
        + g.database + "\n"@ + "-- Runtime role: "@ + g.role + "\n"@ + "-- Helper schema: "@
        + helper_schema() + "\n"@ + "\n"@ + "GRANT CONNECT, TEMPORARY, CREATE ON DATABASE "@
        + quote_ident(g.database) + " TO "@ + quote_ident(g.role) + ";\n"@
        + "GRANT USAGE ON SCHEMA public TO "@ + quote_ident(g.role) + ";\n"@ + table_grants(
        g.tables,
        g.role,
    )
}

/// A mapping's `README.md`.
pub open spec fn mapping_readme_text(g: GrantView) -> Seq<char> {
    "# PostgreSQL Setup For `"@ + g.mapping_id + "`\n"@ + "\n"@
        + "Run `grants.sql` while connected to database `"@ + g.database
        + "` before starting the runner.\n"@ + "\n"@
        + "These grants stay manual and explicit by design. The runtime role is `"@ + g.role
        + "`.\n"@ + "\n"@ + "No superuser requirement is assumed or recommended.\n"@ + "\n"@
        + "After the grants exist, `runner run --config <path>` creates helper objects in schema `"@
        + helper_schema() + "` automatically.\n"@ + "If `"@ + helper_schema()
        + "` already exists, it must already be owned by `"@ + g.role + "`.\n"@
}

/// One entry per mapping in the top-level `README.md`.
pub open spec fn readme_entries(gs: Seq<GrantView>) -> Seq<char>
    decreases gs.len(),
{
    if gs.len() == 0 {
        seq![]
    } else {
        let g = gs.last();
        readme_entries(gs.drop_last()) + "- `"@ + g.mapping_id + "`: database `"@ + g.database
            + "` role `"@ + g.role + "`\n"@ + "  Artifacts: `"@ + g.mapping_id + "/grants.sql`, `"@
            + g.mapping_id + "/README.md`\n"@
    }
}

/// The top-level `README.md`.
pub open spec fn top_readme_text(gs: Seq<GrantView>) -> Seq<char> {
    "# PostgreSQL Setup Artifacts\n"@ + "\n"@
        + "These artifacts keep PostgreSQL grants explicit and manual. Render them, review them, run each `grants.sql`, then start the runner.\n"@
        + "\n"@
        + "Once the grants exist, `runner run --config <path>` bootstraps helper objects inside schema `"@
        + helper_schema()
        + "` automatically, but it does not create roles or execute grants for you.\n"@ + "\n"@
        + "No superuser requirement is assumed or recommended.\n"@ + "\n"@ + "## Mappings\n"@ + "\n"@
        + readme_entries(gs)
}

pub open spec fn grant_views(v: Seq<PostgresGrantPlan>) -> Seq<GrantView> {
    v.map_values(|g: PostgresGrantPlan| g@)
}

/// The grants of every mapping of a config.
pub struct PostgresSetupPlan {
    mappings: Vec<PostgresGrantPlan>,
}

impl View for PostgresSetupPlan {
    type V = Seq<GrantView>;

    closed spec fn view(&self) -> Seq<GrantView> {
        grant_views(self.mappings@)
    }
}

impl PostgresSetupPlan {
    pub fn from_config(config: &RunnerConfig) -> (r: Self)
        ensures
            r@ == config.mappings_spec().map_values(|m: MappingConfig| grant_of(m)),
    {
        let ms = config.mappings();
        let ghost want = config.mappings_spec().map_values(|m: MappingConfig| grant_of(m));
        let mut plans: Vec<PostgresGrantPlan> = Vec::new();
        let mut i: usize = 0;
        while i < ms.len()
            invariant
                i <= ms.len(),
                plans@.len() == i,
                ms@ == config.mappings_spec(),
                want == config.mappings_spec().map_values(|m: MappingConfig| grant_of(m)),
                grant_views(plans@) == want.take(i as int),
            decreases ms.len() - i,
        {
            let ghost prev = plans@;
            plans.push(PostgresGrantPlan::from_mapping(&ms[i]));
            assert forall|k: int| 0 <= k < i + 1 implies #[trigger] grant_views(plans@)[k] == want.take(i + 1)[k] by {
                if k < i {
                    assert(plans@[k] == prev[k]);
                    assert(grant_views(prev)[k] == want.take(i as int)[k]);
                }
            }
            assert(grant_views(plans@) =~= want.take(i + 1));
            i += 1;
        }
        assert(want.take(ms.len() as int) == want);
        PostgresSetupPlan { mappings: plans }
    }

    pub fn mapping_count(&self) -> (r: usize)
        ensures
            r == self@.len(),
    {
        self.mappings.len()
    }

    pub fn mappings(&self) -> (r: &Vec<PostgresGrantPlan>)
        ensures
            grant_views(r@) == self@,
    {
        &self.mappings
    }

    /// The top-level `README.md`.
    pub fn readme(&self) -> (r: String)
        ensures
            r@ == top_readme_text(self@),
    {
        let mut s = String::from_str("# PostgreSQL Setup Artifacts\n");
        s.append("\n");
        s.append(
            "These artifacts keep PostgreSQL grants explicit and manual. Render them, review them, run each `grants.sql`, then start the runner.\n",
        );
        s.append("\n");
        s.append("Once the grants exist, `runner run --config <path>` bootstraps helper objects inside schema `");
        s.append("_cockroach_migration_tool");
        s.append("` automatically, but it does not create roles or execute grants for you.\n");
        s.append("\n");
        s.append("No superuser requirement is assumed or recommended.\n");
        s.append("\n");
        s.append("## Mappings\n");
        s.append("\n");
        let ghost head = s@;
        let ghost gv = self@;
        let mut i: usize = 0;
        assert(gv.take(0) =~= seq![]);
        while i < self.mappings.len()
            invariant
                i <= self.mappings.len(),
                gv == grant_views(self.mappings@),
                s@ == head + readme_entries(gv.take(i as int)),
            decreases self.mappings.len() - i,
        {
            let m = &self.mappings[i];
            s.append("- `");
            s.append(m.mapping_id.as_str());
            s.append("`: database `");
            s.append(m.destination_database.raw());
            s.append("` role `");
            s.append(m.runtime_role.raw());
            s.append("`\n");
            s.append("  Artifacts: `");
            s.append(m.mapping_id.as_str());
            s.append("/grants.sql`, `");
            s.append(m.mapping_id.as_str());
            s.append("/README.md`\n");
            assert(gv.take(i + 1).drop_last() == gv.take(i as int));
            assert(gv.take(i + 1).last() == m@);
            i += 1;
        }
        assert(gv.take(self.mappings.len() as int) == gv);
        s
    }
}

/// What was written, for the operator.
pub struct PostgresSetupArtifacts {
    output_dir: String,
    mappings: usize,
}

pub open spec fn artifacts_text(output_dir: Seq<char>, mappings: nat) -> Seq<char> {
    "postgres setup artifacts written: output="@ + output_dir + " mappings="@ + decimal(mappings)
}

impl PostgresSetupArtifacts {
    pub closed spec fn output_dir_spec(&self) -> Seq<char> {
        self.output_dir@
    }

    pub closed spec fn mappings_spec(&self) -> nat {
        self.mappings as nat
    }

    pub fn new(output_dir: String, plan: &PostgresSetupPlan) -> (r: Self)
        ensures
            r.output_dir_spec() == output_dir@,
            r.mappings_spec() == plan@.len(),
    {
        PostgresSetupArtifacts { output_dir, mappings: plan.mapping_count() }
    }

    /// The summary line.
    pub fn render(&self) -> (r: String)
        ensures
            r@ == artifacts_text(self.output_dir_spec(), self.mappings_spec()),
    {
        let mut s = String::from_str("postgres setup artifacts written: output=");
        s.append(self.output_dir.as_str());
        s.append(" mappings=");
        crate::text::push_decimal(&mut s, self.mappings as u64);
        s
    }
}

/// The grants of two table lists one after the other are the grants of each list, in order.
pub proof fn lemma_table_grants_concat(
    a: Seq<(Seq<char>, Seq<char>)>,
    b: Seq<(Seq<char>, Seq<char>)>,
    role: Seq<char>,
)
    ensures
        table_grants(a + b, role) == table_grants(a, role) + table_grants(b, role),
    decreases b.len(),
{
    if b.len() == 0 {
        assert(a + b =~= a);
        assert(table_grants(a, role) + table_grants(b, role) =~= table_grants(a, role));
    } else {
        lemma_table_grants_concat(a, b.drop_last(), role);
        assert((a + b).drop_last() =~= a + b.drop_last());
        assert((a + b).last() == b.last());
    }
}

/// One selected table gets exactly one line: `GRANT SELECT, INSERT, UPDATE, DELETE ON TABLE`,
/// the table quoted, `TO` the role quoted.
pub proof fn lemma_table_grants_one(t: (Seq<char>, Seq<char>), role: Seq<char>)
    ensures
        table_grants(seq![t], role) == "GRANT SELECT, INSERT, UPDATE, DELETE ON TABLE "@ + table_quoted(t) + " TO "@
            + quote_ident(role) + ";\n"@,
{
    let one = seq![t];
    assert(one.drop_last() =~= Seq::<(Seq<char>, Seq<char>)>::empty());
    assert(table_grants(one.drop_last(), role) == Seq::<char>::empty());
    assert(one.last() == t);
    assert(table_grants(one, role) =~= "GRANT SELECT, INSERT, UPDATE, DELETE ON TABLE "@ + table_quoted(t) + " TO "@
        + quote_ident(role) + ";\n"@);
}

/// Each selected table, in order, gets its own grant line: the grants of a list are the grants
/// of all but its last table, followed by the last table's line.
pub proof fn lemma_table_grants_each(tables: Seq<(Seq<char>, Seq<char>)>, role: Seq<char>)
    requires
        tables.len() > 0,
    ensures
        table_grants(tables, role) == table_grants(tables.drop_last(), role)
            + "GRANT SELECT, INSERT, UPDATE, DELETE ON TABLE "@ + table_quoted(tables.last()) + " TO "@
            + quote_ident(role) + ";\n"@,
{
    assert(tables =~= tables.drop_last() + seq![tables.last()]);
    lemma_table_grants_concat(tables.drop_last(), seq![tables.last()], role);
    lemma_table_grants_one(tables.last(), role);
}

} // verus!
