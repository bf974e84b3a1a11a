//! The table registry: which tables are replicated, and with which columns.

use crate::text::{same_text, texts};
use vstd::prelude::*;

verus! {

/// The static description of one replicated table.
#[derive(Clone, Copy, Debug)]
pub struct TableConfig {
    /// The table's name.
    pub name: &'static str,
    /// The column that identifies a record on every installation.
    pub primary_key: &'static str,
    /// All columns, in the order in which they are selected.
    pub fields: &'static [&'static str],
    /// The columns that hold JSON-encoded text.
    pub json_fields: &'static [&'static str],
}

/// The column that holds a record's version.
pub open spec fn version_column() -> Seq<char> {
    "version"@
}

/// The column that holds the time of a record's last write.
pub open spec fn updated_at_column() -> Seq<char> {
    "updated_at"@
}

/// The column that marks a record as deleted.
pub open spec fn deleted_at_column() -> Seq<char> {
    "deleted_at"@
}

/// The column that the store manages itself and that is never replicated.
pub open spec fn created_at_column() -> Seq<char> {
    "created_at"@
}

/// The four bookkeeping columns are pairwise different.
pub proof fn lemma_bookkeeping_columns_differ()
    ensures
        version_column() != updated_at_column(),
        version_column() != deleted_at_column(),
        version_column() != created_at_column(),
        updated_at_column() != deleted_at_column(),
        updated_at_column() != created_at_column(),
        deleted_at_column() != created_at_column(),
{
    reveal_strlit("version");
    reveal_strlit("updated_at");
    reveal_strlit("deleted_at");
    reveal_strlit("created_at");
    assert("version"@.len() == 7);
    assert("updated_at"@[0] == 'u');
    assert("deleted_at"@[0] == 'd');
    assert("created_at"@[0] == 'c');
}

/// A table's description as mathematics.
pub struct Schema {
    /// The table's name.
    pub table: Seq<char>,
    /// The key column's name.
    pub key: Seq<char>,
    /// The names of all columns, in selection order.
    pub columns: Seq<Seq<char>>,
    /// The names of the JSON-encoded columns.
    pub json_columns: Seq<Seq<char>>,
}

impl View for TableConfig {
    type V = Schema;

    open spec fn view(&self) -> Schema {
        Schema {
            table: self.name@,
            key: self.primary_key@,
            columns: texts(self.fields@),
            json_columns: texts(self.json_fields@),
        }
    }
}

impl Schema {
    /// A table can be replicated if it exposes its key, `version`, `updated_at`
    /// and `deleted_at`, and if its key is none of the bookkeeping columns.
    pub open spec fn well_formed(self) -> bool {
        &&& self.columns.contains(self.key)
        &&& self.columns.contains(version_column())
        &&& self.columns.contains(updated_at_column())
        &&& self.columns.contains(deleted_at_column())
        &&& self.key != version_column()
        &&& self.key != updated_at_column()
        &&& self.key != deleted_at_column()
        &&& self.key != created_at_column()
    }
}

/// The names of the replicated tables, in the registry's order.
pub open spec fn table_names() -> Seq<Seq<char>> {
    seq!["notes"@, "moments"@, "assets"@, "workflows"@, "workflow_schemas"@]
}

/// Whether a name is that of a replicated table.
pub open spec fn is_sync_table(name: Seq<char>) -> bool {
    table_names().contains(name)
}

/// The columns of a replicated table, in selection order.
pub open spec fn table_columns(name: Seq<char>) -> Seq<Seq<char>> {
    if name == "notes"@ {
        seq![
            "uuid"@,
            "title"@,
            "content"@,
            "tags"@,
            "created_at"@,
            "updated_at"@,
            "deleted_at"@,
            "version"@,
        ]
    } else if name == "moments"@ {
        seq![
            "uuid"@,
            "content"@,
            "images"@,
            "tags"@,
            "created_at"@,
            "updated_at"@,
            "deleted_at"@,
            "version"@,
        ]
    } else if name == "assets"@ {
        seq![
            "uuid"@,
            "url"@,
            "path"@,
            "filename"@,
            "size"@,
            "mime_type"@,
            "storage_type"@,
            "created_at"@,
            "updated_at"@,
            "deleted_at"@,
            "version"@,
        ]
    } else if name == "workflows"@ {
        seq![
            "uuid"@,
            "name"@,
            "description"@,
            "steps"@,
            "schema_id"@,
            "type"@,
            "created_at"@,
            "updated_at"@,
            "deleted_at"@,
            "version"@,
        ]
    } else if name == "workflow_schemas"@ {
        seq![
            "uuid"@,
            "name"@,
            "description"@,
            "fields"@,
            "created_at"@,
            "updated_at"@,
            "deleted_at"@,
            "version"@,
        ]
    } else {
        Seq::empty()
    }
}

/// The JSON-encoded columns of a replicated table.
pub open spec fn table_json_columns(name: Seq<char>) -> Seq<Seq<char>> {
    if name == "notes"@ {
        seq!["tags"@]
    } else if name == "moments"@ {
        seq!["images"@, "tags"@]
    } else if name == "workflows"@ {
        seq!["steps"@]
    } else if name == "workflow_schemas"@ {
        seq!["fields"@]
    } else {
        Seq::empty()
    }
}

/// What the registry holds for a table: its own name, the key column `uuid`,
/// and the table's columns.
pub open spec fn schema_of(name: Seq<char>) -> Schema {
    Schema {
        table: name,
        key: "uuid"@,
        columns: table_columns(name),
        json_columns: table_json_columns(name),
    }
}

proof fn lemma_key_is_no_bookkeeping_column()
    ensures
        "uuid"@ != version_column(),
        "uuid"@ != updated_at_column(),
        "uuid"@ != deleted_at_column(),
        "uuid"@ != created_at_column(),
{
    reveal_strlit("uuid");
    reveal_strlit("version");
    reveal_strlit("updated_at");
    reveal_strlit("deleted_at");
    reveal_strlit("created_at");
    assert("uuid"@.len() == 4);
    assert("version"@.len() == 7);
    assert("updated_at"@.len() == 10);
    assert("deleted_at"@.len() == 10);
    assert("created_at"@.len() == 10);
}

/// Every registered table can be replicated.
pub proof fn lemma_registered_is_well_formed(name: Seq<char>)
    requires
        is_sync_table(name),
    ensures
        schema_of(name).well_formed(),
{
    lemma_key_is_no_bookkeeping_column();
    let cols = table_columns(name);
    let n = cols.len() as int;
    assert(cols[0] == "uuid"@);
    assert(cols[n - 1] == "version"@);
    assert(cols[n - 2] == "deleted_at"@);
    assert(cols[n - 3] == "updated_at"@);
}

fn notes_table() -> (r: TableConfig)
    ensures
        r@ == schema_of("notes"@),
{
    let r = TableConfig {
        name: "notes",
        primary_key: "uuid",
        fields: &[
            "uuid",
            "title",
            "content",
            "tags",
            "created_at",
            "updated_at",
            "deleted_at",
            "version",
        ],
        json_fields: &["tags"],
    };
    assert(r@.columns =~= table_columns("notes"@));
    assert(r@.json_columns =~= table_json_columns("notes"@));
    r
}

fn moments_table() -> (r: TableConfig)
    ensures
        r@ == schema_of("moments"@),
{
    proof {
        lemma_table_names_differ();
    }
    let r = TableConfig {
        name: "moments",
        primary_key: "uuid",
        fields: &[
            "uuid",
            "content",
            "images",
            "tags",
            "created_at",
            "updated_at",
            "deleted_at",
            "version",
        ],
        json_fields: &["images", "tags"],
    };
    assert(r@.columns =~= table_columns("moments"@));
    assert(r@.json_columns =~= table_json_columns("moments"@));
    r
}

fn assets_table() -> (r: TableConfig)
    ensures
        r@ == schema_of("assets"@),
{
    proof {
        lemma_table_names_differ();
    }
    let r = TableConfig {
        name: "assets",
        primary_key: "uuid",
        fields: &[
            "uuid",
            "url",
            "path",
            "filename",
            "size",
            "mime_type",
            "storage_type",
            "created_at",
            "updated_at",
            "deleted_at",
            "version",
        ],
        json_fields: &[],
    };
    assert(r@.columns =~= table_columns("assets"@));
    assert(r@.json_columns =~= table_json_columns("assets"@));
    r
}

fn workflows_table() -> (r: TableConfig)
    ensures
        r@ == schema_of("workflows"@),
{
    proof {
        lemma_table_names_differ();
    }
    let r = TableConfig {
        name: "workflows",
        primary_key: "uuid",
        fields: &[
            "uuid",
            "name",
            "description",
            "steps",
            "schema_id",
            "type",
            "created_at",
            "updated_at",
            "deleted_at",
            "version",
        ],
        json_fields: &["steps"],
    };
    assert(r@.columns =~= table_columns("workflows"@));
    assert(r@.json_columns =~= table_json_columns("workflows"@));
    r
}

fn workflow_schemas_table() -> (r: TableConfig)
    ensures
        r@ == schema_of("workflow_schemas"@),
{
    proof {
        lemma_table_names_differ();
    }
    let r = TableConfig {
        name: "workflow_schemas",
        primary_key: "uuid",
        fields: &[
            "uuid",
            "name",
            "description",
            "fields",
            "created_at",
            "updated_at",
            "deleted_at",
            "version",
        ],
        json_fields: &["fields"],
    };
    assert(r@.columns =~= table_columns("workflow_schemas"@));
    assert(r@.json_columns =~= table_json_columns("workflow_schemas"@));
    r
}

/// The names of the replicated tables are pairwise different.
pub proof fn lemma_table_names_differ()
    ensures
        "notes"@ != "moments"@,
        "notes"@ != "assets"@,
        "notes"@ != "workflows"@,
        "notes"@ != "workflow_schemas"@,
        "moments"@ != "assets"@,
        "moments"@ != "workflows"@,
        "moments"@ != "workflow_schemas"@,
        "assets"@ != "workflows"@,
        "assets"@ != "workflow_schemas"@,
        "workflows"@ != "workflow_schemas"@,
{
    reveal_strlit("notes");
    reveal_strlit("moments");
    reveal_strlit("assets");
    reveal_strlit("workflows");
    reveal_strlit("workflow_schemas");
    assert("notes"@.len() == 5);
    assert("moments"@.len() == 7);
    assert("assets"@.len() == 6);
    assert("workflows"@.len() == 9);
    assert("workflow_schemas"@.len() == 16);
}

/// All replicated tables, in the registry's order.
pub fn sync_tables() -> (r: Vec<TableConfig>)
    ensures
        r@.len() == table_names().len(),
        forall|i: int|
            0 <= i < r@.len() ==> (#[trigger] r@[i])@ == schema_of(table_names()[i])
                && r@[i]@.well_formed(),
{
    let mut all: Vec<TableConfig> = Vec::new();
    all.push(notes_table());
    all.push(moments_table());
    all.push(assets_table());
    all.push(workflows_table());
    all.push(workflow_schemas_table());
    proof {
        assert(is_sync_table("notes"@)) by {
            assert(table_names()[0] == "notes"@);
        }
        assert(is_sync_table("moments"@)) by {
            assert(table_names()[1] == "moments"@);
        }
        assert(is_sync_table("assets"@)) by {
            assert(table_names()[2] == "assets"@);
        }
        assert(is_sync_table("workflows"@)) by {
            assert(table_names()[3] == "workflows"@);
        }
        assert(is_sync_table("workflow_schemas"@)) by {
            assert(table_names()[4] == "workflow_schemas"@);
        }
        lemma_registered_is_well_formed("notes"@);
        lemma_registered_is_well_formed("moments"@);
        lemma_registered_is_well_formed("assets"@);
        lemma_registered_is_well_formed("workflows"@);
        lemma_registered_is_well_formed("workflow_schemas"@);
    }
    all
}

/// Looks a table up by name. A table that is not registered is not replicated.
pub fn get_table_config(table_name: &str) -> (r: Option<TableConfig>)
    ensures
        r is Some <==> is_sync_table(table_name@),
        r is Some ==> (r->0)@ == schema_of(table_name@) && (r->0)@.well_formed(),
{
    let found = if same_text(table_name, "notes") {
        Some(notes_table())
    } else if same_text(table_name, "moments") {
        Some(moments_table())
    } else if same_text(table_name, "assets") {
        Some(assets_table())
    } else if same_text(table_name, "workflows") {
        Some(workflows_table())
    } else if same_text(table_name, "workflow_schemas") {
        Some(workflow_schemas_table())
    } else {
        None
    };
    proof {
        let names = table_names();
        assert(names[0] == "notes"@);
        assert(names[1] == "moments"@);
        assert(names[2] == "assets"@);
        assert(names[3] == "workflows"@);
        assert(names[4] == "workflow_schemas"@);
        if found is Some {
            lemma_registered_is_well_formed(table_name@);
        }
    }
    found
}

} // verus!
