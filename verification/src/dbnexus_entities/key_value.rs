//! The key-value table.

use vstd::prelude::*;

verus! {

/// The DDL of the key-value table.
pub open spec fn spec_table_ddl() -> Seq<char> {
    "
    CREATE TABLE IF NOT EXISTS limiteron_kv (
        key VARCHAR(255) PRIMARY KEY,
        value TEXT NOT NULL,
        expires_at TIMESTAMP WITH TIME ZONE,
        created_at TIMESTAMP WITH TIME ZONE NOT NULL DEFAULT NOW(),
        updated_at TIMESTAMP WITH TIME ZONE NOT NULL DEFAULT NOW()
    )
    "@
}

/// Creates the DDL of the key-value table.
pub fn create_table_ddl() -> (r: &'static str)
    ensures
        r@ == spec_table_ddl(),
{
    "
    CREATE TABLE IF NOT EXISTS limiteron_kv (
        key VARCHAR(255) PRIMARY KEY,
        value TEXT NOT NULL,
        expires_at TIMESTAMP WITH TIME ZONE,
        created_at TIMESTAMP WITH TIME ZONE NOT NULL DEFAULT NOW(),
        updated_at TIMESTAMP WITH TIME ZONE NOT NULL DEFAULT NOW()
    )
    "
}

} // verus!
