//! The table of quotas.

use vstd::prelude::*;
use crate::text::concat_str;

verus! {

/// The DDL of the table of quotas.
pub open spec fn spec_table_ddl() -> Seq<char> {
    "
    CREATE TABLE IF NOT EXISTS limiteron_quotas (
        id BIGSERIAL PRIMARY KEY,
        user_id VARCHAR(255) NOT NULL,
        resource VARCHAR(255) NOT NULL,
        quota_key VARCHAR(511) NOT NULL UNIQUE,
        limit BIGINT NOT NULL,
        consumed BIGINT NOT NULL DEFAULT 0,
        window_start TIMESTAMP WITH TIME ZONE NOT NULL,
        window_end TIMESTAMP WITH TIME ZONE NOT NULL,
        created_at TIMESTAMP WITH TIME ZONE NOT NULL DEFAULT NOW(),
        updated_at TIMESTAMP WITH TIME ZONE NOT NULL DEFAULT NOW()
    )
    "@
}

/// Creates the DDL of the table of quotas.
pub fn create_table_ddl() -> (r: &'static str)
    ensures
        r@ == spec_table_ddl(),
{
    "
    CREATE TABLE IF NOT EXISTS limiteron_quotas (
        id BIGSERIAL PRIMARY KEY,
        user_id VARCHAR(255) NOT NULL,
        resource VARCHAR(255) NOT NULL,
        quota_key VARCHAR(511) NOT NULL UNIQUE,
        limit BIGINT NOT NULL,
        consumed BIGINT NOT NULL DEFAULT 0,
        window_start TIMESTAMP WITH TIME ZONE NOT NULL,
        window_end TIMESTAMP WITH TIME ZONE NOT NULL,
        created_at TIMESTAMP WITH TIME ZONE NOT NULL DEFAULT NOW(),
        updated_at TIMESTAMP WITH TIME ZONE NOT NULL DEFAULT NOW()
    )
    "
}

/// The key of a quota: the user, a colon and the resource.
pub fn create_quota_key(user_id: &str, resource: &str) -> (r: String)
    ensures
        r@ == user_id@ + ":"@ + resource@,
{
    let mut r = concat_str(user_id, ":");
    r.append(resource);
    r
}

} // verus!
