use vstd::prelude::*;

verus! {

// The term opcodes of the wire protocol's term-type registry, and the
// query types of its query envelope. The functions below tie each
// value to the registry itself.
pub const OP_MAKE_ARRAY: u64 = 2;

pub const OP_DB: u64 = 14;

pub const OP_TABLE: u64 = 15;

pub const OP_GET: u64 = 16;

pub const OP_WITHOUT: u64 = 34;

pub const OP_FILTER: u64 = 39;

pub const OP_ORDER_BY: u64 = 41;

pub const OP_UPDATE: u64 = 53;

pub const OP_DELETE: u64 = 54;

pub const OP_REPLACE: u64 = 55;

pub const OP_INSERT: u64 = 56;

pub const OP_DB_CREATE: u64 = 57;

pub const OP_DB_DROP: u64 = 58;

pub const OP_TABLE_CREATE: u64 = 60;

pub const OP_TABLE_DROP: u64 = 61;

pub const OP_LIMIT: u64 = 71;

pub const OP_INDEX_CREATE: u64 = 75;

pub const OP_INDEX_DROP: u64 = 76;

pub const OP_GET_ALL: u64 = 78;

pub const OP_CONTAINS: u64 = 93;

pub const QT_START: u64 = 1;

// The remaining query types; the submission pipeline only issues
// start queries, but their values are part of the envelope's registry
// and a caller of the envelope builder may use them.
pub const QT_CONTINUE: u64 = 2;

pub const QT_STOP: u64 = 3;

pub const QT_NOREPLY_WAIT: u64 = 4;

pub const QT_SERVER_INFO: u64 = 5;

/// Relies on ql2::term::TermType::MakeArray: its protocol value.
#[verifier::external_body]
pub fn term_make_array() -> (r: u64)
    ensures
        r == OP_MAKE_ARRAY,
{
    ql2::term::TermType::MakeArray as u64
}

/// Relies on ql2::term::TermType::Db: its protocol value.
#[verifier::external_body]
pub fn term_db() -> (r: u64)
    ensures
        r == OP_DB,
{
    ql2::term::TermType::Db as u64
}

/// Relies on ql2::term::TermType::Table: its protocol value.
#[verifier::external_body]
pub fn term_table() -> (r: u64)
    ensures
        r == OP_TABLE,
{
    ql2::term::TermType::Table as u64
}

/// Relies on ql2::term::TermType::Get: its protocol value.
#[verifier::external_body]
pub fn term_get() -> (r: u64)
    ensures
        r == OP_GET,
{
    ql2::term::TermType::Get as u64
}

/// Relies on ql2::term::TermType::Without: its protocol value.
#[verifier::external_body]
pub fn term_without() -> (r: u64)
    ensures
        r == OP_WITHOUT,
{
    ql2::term::TermType::Without as u64
}

/// Relies on ql2::term::TermType::Filter: its protocol value.
#[verifier::external_body]
pub fn term_filter() -> (r: u64)
    ensures
        r == OP_FILTER,
{
    ql2::term::TermType::Filter as u64
}

/// Relies on ql2::term::TermType::OrderBy: its protocol value.
#[verifier::external_body]
pub fn term_order_by() -> (r: u64)
    ensures
        r == OP_ORDER_BY,
{
    ql2::term::TermType::OrderBy as u64
}

/// Relies on ql2::term::TermType::Update: its protocol value.
#[verifier::external_body]
pub fn term_update() -> (r: u64)
    ensures
        r == OP_UPDATE,
{
    ql2::term::TermType::Update as u64
}

/// Relies on ql2::term::TermType::Delete: its protocol value.
#[verifier::external_body]
pub fn term_delete() -> (r: u64)
    ensures
        r == OP_DELETE,
{
    ql2::term::TermType::Delete as u64
}

/// Relies on ql2::term::TermType::Replace: its protocol value.
#[verifier::external_body]
pub fn term_replace() -> (r: u64)
    ensures
        r == OP_REPLACE,
{
    ql2::term::TermType::Replace as u64
}

/// Relies on ql2::term::TermType::Insert: its protocol value.
#[verifier::external_body]
pub fn term_insert() -> (r: u64)
    ensures
        r == OP_INSERT,
{
    ql2::term::TermType::Insert as u64
}

/// Relies on ql2::term::TermType::DbCreate: its protocol value.
#[verifier::external_body]
pub fn term_db_create() -> (r: u64)
    ensures
        r == OP_DB_CREATE,
{
    ql2::term::TermType::DbCreate as u64
}

/// Relies on ql2::term::TermType::DbDrop: its protocol value.
#[verifier::external_body]
pub fn term_db_drop() -> (r: u64)
    ensures
        r == OP_DB_DROP,
{
    ql2::term::TermType::DbDrop as u64
}

/// Relies on ql2::term::TermType::TableCreate: its protocol value.
#[verifier::external_body]
pub fn term_table_create() -> (r: u64)
    ensures
        r == OP_TABLE_CREATE,
{
    ql2::term::TermType::TableCreate as u64
}

/// Relies on ql2::term::TermType::TableDrop: its protocol value.
#[verifier::external_body]
pub fn term_table_drop() -> (r: u64)
    ensures
        r == OP_TABLE_DROP,
{
    ql2::term::TermType::TableDrop as u64
}

/// Relies on ql2::term::TermType::Limit: its protocol value.
#[verifier::external_body]
pub fn term_limit() -> (r: u64)
    ensures
        r == OP_LIMIT,
{
    ql2::term::TermType::Limit as u64
}

/// Relies on ql2::term::TermType::IndexCreate: its protocol value.
#[verifier::external_body]
pub fn term_index_create() -> (r: u64)
    ensures
        r == OP_INDEX_CREATE,
{
    ql2::term::TermType::IndexCreate as u64
}

/// Relies on ql2::term::TermType::IndexDrop: its protocol value.
#[verifier::external_body]
pub fn term_index_drop() -> (r: u64)
    ensures
        r == OP_INDEX_DROP,
{
    ql2::term::TermType::IndexDrop as u64
}

/// Relies on ql2::term::TermType::GetAll: its protocol value.
#[verifier::external_body]
pub fn term_get_all() -> (r: u64)
    ensures
        r == OP_GET_ALL,
{
    ql2::term::TermType::GetAll as u64
}

/// Relies on ql2::term::TermType::Contains: its protocol value.
#[verifier::external_body]
pub fn term_contains() -> (r: u64)
    ensures
        r == OP_CONTAINS,
{
    ql2::term::TermType::Contains as u64
}

/// Relies on ql2::query::QueryType::Start: its protocol value.
#[verifier::external_body]
pub fn query_start() -> (r: u64)
    ensures
        r == QT_START,
{
    ql2::query::QueryType::Start as u64
}

} // verus!
