//! The outbox of events waiting to be published.

use vstd::prelude::*;

verus! {

/// The DDL of the outbox in the Postgres dialect.
pub open spec fn spec_table_ddl() -> Seq<char> {
    "
    CREATE TABLE IF NOT EXISTS limiteron_event_outbox (
        id BIGSERIAL PRIMARY KEY,
        event_type TEXT NOT NULL,
        aggregate_id TEXT NOT NULL,
        payload TEXT NOT NULL,
        delivery_status VARCHAR(20) NOT NULL DEFAULT 'pending',
        created_at TIMESTAMP WITH TIME ZONE NOT NULL DEFAULT NOW(),
        published_at TIMESTAMP WITH TIME ZONE
    )
    "@
}

/// Creates the DDL of the outbox in the Postgres dialect.
pub fn create_table_ddl() -> (r: &'static str)
    ensures
        r@ == spec_table_ddl(),
{
    "
    CREATE TABLE IF NOT EXISTS limiteron_event_outbox (
        id BIGSERIAL PRIMARY KEY,
        event_type TEXT NOT NULL,
        aggregate_id TEXT NOT NULL,
        payload TEXT NOT NULL,
        delivery_status VARCHAR(20) NOT NULL DEFAULT 'pending',
        created_at TIMESTAMP WITH TIME ZONE NOT NULL DEFAULT NOW(),
        published_at TIMESTAMP WITH TIME ZONE
    )
    "
}

/// The DDL of the outbox in the SQLite dialect.
pub open spec fn spec_table_ddl_sqlite() -> Seq<char> {
    "
    CREATE TABLE IF NOT EXISTS limiteron_event_outbox (
        id INTEGER PRIMARY KEY AUTOINCREMENT,
        event_type TEXT NOT NULL,
        aggregate_id TEXT NOT NULL,
        payload TEXT NOT NULL,
        delivery_status TEXT NOT NULL DEFAULT 'pending',
        created_at TEXT NOT NULL DEFAULT (datetime('now')),
        published_at TEXT
    )
    "@
}

/// Creates the DDL of the outbox in the SQLite dialect.
pub fn create_table_ddl_sqlite() -> (r: &'static str)
    ensures
        r@ == spec_table_ddl_sqlite(),
{
    "
    CREATE TABLE IF NOT EXISTS limiteron_event_outbox (
        id INTEGER PRIMARY KEY AUTOINCREMENT,
        event_type TEXT NOT NULL,
        aggregate_id TEXT NOT NULL,
        payload TEXT NOT NULL,
        delivery_status TEXT NOT NULL DEFAULT 'pending',
        created_at TEXT NOT NULL DEFAULT (datetime('now')),
        published_at TEXT
    )
    "
}

} // verus!
