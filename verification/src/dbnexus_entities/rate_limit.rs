//! The table of rate-limit counters.

use vstd::prelude::*;
use crate::text::concat_str;

verus! {

/// The DDL of the table of rate-limit counters.
pub open spec fn spec_table_ddl() -> Seq<char> {
    "
    CREATE TABLE IF NOT EXISTS limiteron_rate_limits (
        id BIGSERIAL PRIMARY KEY,
        rate_key VARCHAR(511) NOT NULL UNIQUE,
        count BIGINT NOT NULL DEFAULT 0,
        rate BIGINT NOT NULL,
        capacity BIGINT NOT NULL,
        last_update TIMESTAMP WITH TIME ZONE NOT NULL,
        created_at TIMESTAMP WITH TIME ZONE NOT NULL DEFAULT NOW(),
        updated_at TIMESTAMP WITH TIME ZONE NOT NULL DEFAULT NOW()
    )
    "@
}

/// Creates the DDL of the table of rate-limit counters.
pub fn create_table_ddl() -> (r: &'static str)
    ensures
        r@ == spec_table_ddl(),
{
    "
    CREATE TABLE IF NOT EXISTS limiteron_rate_limits (
        id BIGSERIAL PRIMARY KEY,
        rate_key VARCHAR(511) NOT NULL UNIQUE,
        count BIGINT NOT NULL DEFAULT 0,
        rate BIGINT NOT NULL,
        capacity BIGINT NOT NULL,
        last_update TIMESTAMP WITH TIME ZONE NOT NULL,
        created_at TIMESTAMP WITH TIME ZONE NOT NULL DEFAULT NOW(),
        updated_at TIMESTAMP WITH TIME ZONE NOT NULL DEFAULT NOW()
    )
    "
}

/// The key of a rate-limit counter: identifier, limiter type and parameters,
/// separated by colons.
pub fn create_rate_key(identifier: &str, limiter_type: &str, params: &str) -> (r: String)
    ensures
        r@ == identifier@ + ":"@ + limiter_type@ + ":"@ + params@,
{
    let mut r = concat_str(identifier, ":");
    r.append(limiter_type);
    r.append(":");
    r.append(params);
    r
}

} // verus!
