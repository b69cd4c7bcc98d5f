//! The SQL that the database back end sends to its key-value table.
//!
//! The statements are built here; sending them through a connection pool is
//! left to the caller.

use vstd::prelude::*;
use crate::text::{chars_of, concat_str};

verus! {

/// A string with every single quote doubled, as SQL writes a quote inside a
/// quoted literal.
pub open spec fn spec_escape(s: Seq<char>) -> Seq<char>
    decreases s.len(),
{
    if s.len() == 0 {
        Seq::empty()
    } else {
        spec_escape(s.drop_last()) + (if s.last() == '\'' {
            seq!['\'', '\'']
        } else {
            seq![s.last()]
        })
    }
}

/// Doubles every single quote of the string.
pub fn escape_string(s: &str) -> (r: String)
    ensures
        r@ == spec_escape(s@),
{
    let v = chars_of(s);
    let mut r = String::new();
    let mut i: usize = 0;
    while i < v.len()
        invariant
            i <= v@.len(),
            r@ == spec_escape(v@.take(i as int)),
        decreases v@.len() - i,
    {
        let c = v[i];
        assert(v@.take(i + 1).drop_last() =~= v@.take(i as int));
        if c == '\'' {
            r.push('\'');
            r.push('\'');
        } else {
            r.push(c);
        }
        i = i + 1;
    }
    assert(v@.take(v@.len() as int) =~= v@);
    r
}

/// The statement that reads the value stored under a key.
pub open spec fn spec_get_query(key: Seq<char>) -> Seq<char> {
    "SELECT value FROM kv_store WHERE key = '"@ + spec_escape(key) + "'"@
}

/// Builds the statement that reads the value stored under a key.
pub fn get_query(key: &str) -> (r: String)
    ensures
        r@ == spec_get_query(key@),
{
    let escaped = escape_string(key);
    let mut r = concat_str("SELECT value FROM kv_store WHERE key = '", escaped.as_str());
    r.append("'");
    r
}

/// The statement that stores a value under a key, replacing an older one.
pub open spec fn spec_set_query(key: Seq<char>, value: Seq<char>) -> Seq<char> {
    "INSERT OR REPLACE INTO kv_store (key, value, updated_at) VALUES ('"@ + spec_escape(key)
        + "', '"@ + spec_escape(value) + "', datetime('now'))"@
}

/// Builds the statement that stores a value under a key.
pub fn set_query(key: &str, value: &str) -> (r: String)
    ensures
        r@ == spec_set_query(key@, value@),
{
    let escaped_key = escape_string(key);
    let escaped_value = escape_string(value);
    let mut r = concat_str(
        "INSERT OR REPLACE INTO kv_store (key, value, updated_at) VALUES ('",
        escaped_key.as_str(),
    );
    r.append("', '");
    r.append(escaped_value.as_str());
    r.append("', datetime('now'))");
    r
}

/// The statement that removes the value stored under a key.
pub open spec fn spec_delete_query(key: Seq<char>) -> Seq<char> {
    "DELETE FROM kv_store WHERE key = '"@ + spec_escape(key) + "'"@
}

/// Builds the statement that removes the value stored under a key.
pub fn delete_query(key: &str) -> (r: String)
    ensures
        r@ == spec_delete_query(key@),
{
    let escaped = escape_string(key);
    let mut r = concat_str("DELETE FROM kv_store WHERE key = '", escaped.as_str());
    r.append("'");
    r
}

/// Text without single quotes is left as it is.
pub proof fn law_escape_keeps_quote_free_text(s: Seq<char>)
    requires
        !crate::text::has_char(s, '\''),
    ensures
        spec_escape(s) == s,
    decreases s.len(),
{
    if s.len() > 0 {
        assert(!crate::text::has_char(s.drop_last(), '\'')) by {
            if crate::text::has_char(s.drop_last(), '\'') {
                let i = choose|i: int| 0 <= i < s.drop_last().len() && s.drop_last()[i] == '\'';
                assert(s[i] == '\'');
            }
        }
        assert(s.last() != '\'') by {
            assert(s[s.len() - 1] == s.last());
        }
        law_escape_keeps_quote_free_text(s.drop_last());
        assert(s.drop_last() + seq![s.last()] =~= s);
    }
}

} // verus!
