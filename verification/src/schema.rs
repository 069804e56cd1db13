//! The `contents` table schema as an explicit value: the declarative plan
//! a storage layer executes to bring the schema up or down.

use vstd::prelude::*;
use crate::content_type::ContentType;

verus! {

/// The column types the schema draws from.
#[derive(Clone, Copy, Debug)]
pub enum ColumnKind {
    /// Auto-incrementing integer primary key.
    AutoId,
    Uuid,
    VarChar,
    Text,
    TimestampWithTz,
    JsonBinary,
    /// A database enum type, named.
    DbEnum(&'static str),
}

/// One column: its name, type and constraints.
pub struct ColumnSpec {
    pub name: &'static str,
    pub kind: ColumnKind,
    pub nullable: bool,
    pub unique: bool,
    pub primary_key: bool,
}

/// A table: its name and columns, in order.
pub struct TableSpec {
    pub name: &'static str,
    pub columns: Vec<ColumnSpec>,
}

/// One schema-changing step.
pub enum SchemaOp {
    /// Create a database enum type holding exactly the given value strings.
    CreateEnumType { name: &'static str, values: Vec<&'static str> },
    CreateTable(TableSpec),
    DropTable { name: &'static str },
    DropEnumType { name: &'static str },
}

/// A column has exactly this name, kind and constraints.
pub open spec fn col_is(
    c: ColumnSpec,
    name: Seq<char>,
    kind: ColumnKind,
    nullable: bool,
    unique: bool,
    primary_key: bool,
) -> bool {
    &&& c.name@ == name
    &&& c.kind == kind
    &&& c.nullable == nullable
    &&& c.unique == unique
    &&& c.primary_key == primary_key
}

/// A column is typed by the database enum of this name.
pub open spec fn kind_is_enum(k: ColumnKind, name: Seq<char>) -> bool {
    match k {
        ColumnKind::DbEnum(n) => n@ == name,
        _ => false,
    }
}

/// The `contents` table, column for column: the persisted shape of a
/// `Content` record, with `pid` and `url` unique and the two timestamp
/// columns timezone-aware.
pub open spec fn is_contents_table(t: TableSpec) -> bool {
    &&& t.name@ == "contents"@
    &&& t.columns@.len() == 12
    &&& col_is(t.columns@[0], "id"@, ColumnKind::AutoId, false, false, true)
    &&& col_is(t.columns@[1], "pid"@, ColumnKind::Uuid, false, true, false)
    &&& col_is(t.columns@[2], "title"@, ColumnKind::VarChar, true, false, false)
    &&& col_is(t.columns@[3], "url"@, ColumnKind::VarChar, false, true, false)
    &&& t.columns@[4].name@ == "content_type"@
    &&& kind_is_enum(t.columns@[4].kind, "content_type"@)
    &&& !t.columns@[4].nullable && !t.columns@[4].unique && !t.columns@[4].primary_key
    &&& col_is(t.columns@[5], "image_url"@, ColumnKind::VarChar, true, false, false)
    &&& col_is(t.columns@[6], "description"@, ColumnKind::Text, true, false, false)
    &&& col_is(t.columns@[7], "raw_content"@, ColumnKind::Text, true, false, false)
    &&& col_is(t.columns@[8], "summary"@, ColumnKind::Text, true, false, false)
    &&& col_is(t.columns@[9], "metadata"@, ColumnKind::JsonBinary, true, false, false)
    &&& col_is(t.columns@[10], "created_at"@, ColumnKind::TimestampWithTz, false, false, false)
    &&& col_is(t.columns@[11], "updated_at"@, ColumnKind::TimestampWithTz, false, false, false)
}

/// The up-plan: first the `content_type` enum type with the five wire
/// strings in declaration order, then the `contents` table.
pub open spec fn is_contents_up_plan(ops: Seq<SchemaOp>) -> bool {
    &&& ops.len() == 2
    &&& ops[0] matches SchemaOp::CreateEnumType { name, values } && name@ == "content_type"@
        && values@.len() == 5 && values@[0]@ == ContentType::WebArticle.wire_view()
        && values@[1]@ == ContentType::YoutubeVideo.wire_view() && values@[2]@
        == ContentType::Publication.wire_view() && values@[3]@
        == ContentType::Bookmark.wire_view() && values@[4]@ == ContentType::Unknown.wire_view()
    &&& ops[1] matches SchemaOp::CreateTable(t) && is_contents_table(t)
}

/// The down-plan: drop the table, then the enum type.
pub open spec fn is_contents_down_plan(ops: Seq<SchemaOp>) -> bool {
    &&& ops.len() == 2
    &&& ops[0] matches SchemaOp::DropTable { name } && name@ == "contents"@
    &&& ops[1] matches SchemaOp::DropEnumType { name } && name@ == "content_type"@
}

/// The migration owning the `contents` table and its enum type.
pub struct Migration;

impl Migration {
    /// The steps that bring the schema up.
    pub fn up(&self) -> (ops: Vec<SchemaOp>)
        ensures
            is_contents_up_plan(ops@),
    {
        let mut values: Vec<&'static str> = Vec::new();
        values.push(ContentType::WebArticle.wire_str());
        values.push(ContentType::YoutubeVideo.wire_str());
        values.push(ContentType::Publication.wire_str());
        values.push(ContentType::Bookmark.wire_str());
        values.push(ContentType::Unknown.wire_str());
        let mut columns: Vec<ColumnSpec> = Vec::new();
        columns.push(
            ColumnSpec {
                name: "id",
                kind: ColumnKind::AutoId,
                nullable: false,
                unique: false,
                primary_key: true,
            },
        );
        columns.push(
            ColumnSpec {
                name: "pid",
                kind: ColumnKind::Uuid,
                nullable: false,
                unique: true,
                primary_key: false,
            },
        );
        columns.push(
            ColumnSpec {
                name: "title",
                kind: ColumnKind::VarChar,
                nullable: true,
                unique: false,
                primary_key: false,
            },
        );
        columns.push(
            ColumnSpec {
                name: "url",
                kind: ColumnKind::VarChar,
                nullable: false,
                unique: true,
                primary_key: false,
            },
        );
        columns.push(
            ColumnSpec {
                name: "content_type",
                kind: ColumnKind::DbEnum("content_type"),
                nullable: false,
                unique: false,
                primary_key: false,
            },
        );
        columns.push(
            ColumnSpec {
                name: "image_url",
                kind: ColumnKind::VarChar,
                nullable: true,
                unique: false,
                primary_key: false,
            },
        );
        columns.push(
            ColumnSpec {
                name: "description",
                kind: ColumnKind::Text,
                nullable: true,
                unique: false,
                primary_key: false,
            },
        );
        columns.push(
            ColumnSpec {
                name: "raw_content",
                kind: ColumnKind::Text,
                nullable: true,
                unique: false,
                primary_key: false,
            },
        );
        columns.push(
            ColumnSpec {
                name: "summary",
                kind: ColumnKind::Text,
                nullable: true,
                unique: false,
                primary_key: false,
            },
        );
        columns.push(
            ColumnSpec {
                name: "metadata",
                kind: ColumnKind::JsonBinary,
                nullable: true,
                unique: false,
                primary_key: false,
            },
        );
        columns.push(
            ColumnSpec {
                name: "created_at",
                kind: ColumnKind::TimestampWithTz,
                nullable: false,
                unique: false,
                primary_key: false,
            },
        );
        columns.push(
            ColumnSpec {
                name: "updated_at",
                kind: ColumnKind::TimestampWithTz,
                nullable: false,
                unique: false,
                primary_key: false,
            },
        );
        let table = TableSpec { name: "contents", columns };
        let mut ops: Vec<SchemaOp> = Vec::new();
        ops.push(SchemaOp::CreateEnumType { name: "content_type", values });
        ops.push(SchemaOp::CreateTable(table));
        ops
    }

    /// The steps that take the schema down again.
    pub fn down(&self) -> (ops: Vec<SchemaOp>)
        ensures
            is_contents_down_plan(ops@),
    {
        let mut ops: Vec<SchemaOp> = Vec::new();
        ops.push(SchemaOp::DropTable { name: "contents" });
        ops.push(SchemaOp::DropEnumType { name: "content_type" });
        ops
    }
}

} // verus!
