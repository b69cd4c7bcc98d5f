//! Table definitions of the database back end: the DDL of each table and the
//! keys under which rows are found.

pub mod ban_record;
pub mod event_outbox;
pub mod key_value;
pub mod quota_record;
pub mod rate_limit;

use vstd::prelude::*;

verus! {

/// The DDL that creates every table, the statements joined by `";\n"`.
pub open spec fn spec_all_tables_ddl() -> Seq<char> {
    key_value::spec_table_ddl() + ";\n"@ + ban_record::spec_table_ddl() + ";\n"@
        + quota_record::spec_table_ddl() + ";\n"@ + rate_limit::spec_table_ddl()
}

/// Creates the DDL of all tables: key-value, bans, quotas and rate limits,
/// in that order.
pub fn create_all_tables_ddl() -> (r: String)
    ensures
        r@ == spec_all_tables_ddl(),
{
    let mut r = crate::text::concat_str(key_value::create_table_ddl(), ";\n");
    r.append(ban_record::create_table_ddl());
    r.append(";\n");
    r.append(quota_record::create_table_ddl());
    r.append(";\n");
    r.append(rate_limit::create_table_ddl());
    r
}

} // verus!
