//! The table of bans.

use vstd::prelude::*;
use crate::text::concat_str;

verus! {

/// The DDL of the table of bans.
pub open spec fn spec_table_ddl() -> Seq<char> {
    "
    CREATE TABLE IF NOT EXISTS limiteron_bans (
        id BIGSERIAL PRIMARY KEY,
        target_type VARCHAR(50) NOT NULL,
        target_value TEXT NOT NULL,
        target_key VARCHAR(511) NOT NULL UNIQUE,
        ban_times INTEGER NOT NULL DEFAULT 1,
        duration BIGINT NOT NULL,
        banned_at TIMESTAMP WITH TIME ZONE NOT NULL,
        expires_at TIMESTAMP WITH TIME ZONE NOT NULL,
        is_manual BOOLEAN NOT NULL DEFAULT FALSE,
        reason TEXT NOT NULL,
        created_at TIMESTAMP WITH TIME ZONE NOT NULL DEFAULT NOW(),
        updated_at TIMESTAMP WITH TIME ZONE NOT NULL DEFAULT NOW()
    )
    "@
}

/// Creates the DDL of the table of bans.
pub fn create_table_ddl() -> (r: &'static str)
    ensures
        r@ == spec_table_ddl(),
{
    "
    CREATE TABLE IF NOT EXISTS limiteron_bans (
        id BIGSERIAL PRIMARY KEY,
        target_type VARCHAR(50) NOT NULL,
        target_value TEXT NOT NULL,
        target_key VARCHAR(511) NOT NULL UNIQUE,
        ban_times INTEGER NOT NULL DEFAULT 1,
        duration BIGINT NOT NULL,
        banned_at TIMESTAMP WITH TIME ZONE NOT NULL,
        expires_at TIMESTAMP WITH TIME ZONE NOT NULL,
        is_manual BOOLEAN NOT NULL DEFAULT FALSE,
        reason TEXT NOT NULL,
        created_at TIMESTAMP WITH TIME ZONE NOT NULL DEFAULT NOW(),
        updated_at TIMESTAMP WITH TIME ZONE NOT NULL DEFAULT NOW()
    )
    "
}

/// The key of a ban target: its type, a colon and its value.
pub fn create_target_key(target_type: &str, target_value: &str) -> (r: String)
    ensures
        r@ == target_type@ + ":"@ + target_value@,
{
    let mut r = concat_str(target_type, ":");
    r.append(target_value);
    r
}

} // verus!
