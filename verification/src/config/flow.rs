//! The whole flow control configuration, its validation, and the record of
//! its changes.

use vstd::prelude::*;

use crate::config::global::{GlobalConfig, TrustedProxyConfig};
use crate::config::history::{ChangeSource, ConfigChangeRecord};
use crate::config::limiter::validation_result;
use crate::config::names::{CacheBackend, MetricsBackend, StorageType};
use crate::config::rule::{spec_rule_error, Rule};
use crate::id_set::{string_set_contains, string_set_contents, string_set_insert, string_set_new};
use crate::text::{concat_str, decimal, join, join_strings, str_eq, strings_view, u64_to_string};
use crate::version::{dot_parts, law_version_order_is_a_sign, version_order, version_order_of};

verus! {

/// A configuration: a version, global settings and rules.
#[derive(Debug, PartialEq)]
pub struct FlowControlConfig {
    /// Version of the configuration.
    pub version: String,
    /// Global settings.
    pub global: GlobalConfig,
    /// The rules.
    pub rules: Vec<Rule>,
}

/// The ids of the rules, in order.
pub open spec fn rule_ids(rules: Seq<Rule>) -> Seq<Seq<char>> {
    Seq::new(rules.len(), |i: int| rules[i].id@)
}

/// Index of the first rule at or after `i` whose id occurs earlier, or
/// whose own check fails; the length when there is none.
pub open spec fn first_rule_problem(rules: Seq<Rule>, i: int) -> int
    decreases rules.len() - i,
{
    if i >= rules.len() || rule_ids(rules).take(i).contains(rules[i].id@) || spec_rule_error(
        rules[i],
    ) is Some {
        i
    } else {
        first_rule_problem(rules, i + 1)
    }
}

/// What `validate` answers for a configuration: the first problem found in
/// the version, the global settings and the rules (a repeated id, or a rule
/// that fails its own check), or that there are no rules; success otherwise.
pub open spec fn validation_answer(c: FlowControlConfig, r: Result<(), String>) -> bool {
    let rules = c.rules@;
    let k = first_rule_problem(rules, 0);
    if c.version@.len() == 0 {
        r matches Err(m) && m@ == "版本号不能为空"@
    } else if !(c.global.trusted_proxies.enabled ==> crate::config::global::first_invalid_proxy(
        c.global.trusted_proxies.proxies@,
        0,
    ) == c.global.trusted_proxies.proxies@.len()) {
        r is Err
    } else if k < rules.len() {
        if rule_ids(rules).take(k).contains(rules[k].id@) {
            r matches Err(m) && m@ == "规则ID重复: "@ + rules[k].id@
        } else {
            r matches Err(m) && m@ == "规则["@ + decimal(k as nat) + "]校验失败: "@
                + spec_rule_error(rules[k])->Some_0
        }
    } else if rules.len() == 0 {
        r matches Err(m) && m@ == "至少需要一个规则"@
    } else {
        r is Ok
    }
}

/// Whether `validate` accepts the configuration.
pub open spec fn config_is_valid(c: FlowControlConfig) -> bool {
    validation_answer(c, Ok(()))
}

impl FlowControlConfig {
    /// A configuration needs a version, valid global settings, and at least
    /// one rule, each valid and with an id of its own; the first problem is
    /// reported.
    pub fn validate(&self) -> (r: Result<(), String>)
        ensures
            validation_answer(*self, r),
    {
        if self.version.as_str().is_empty() {
            return Err(String::from_str("版本号不能为空"));
        }
        self.global.validate()?;
        let ghost rules = self.rules@;
        let mut seen = string_set_new();
        let n = self.rules.len();
        let mut i: usize = 0;
        while i < n
            invariant
                n == rules.len(),
                rules == self.rules@,
                i <= n,
                self.version@.len() != 0,
                self.global.trusted_proxies.enabled ==> crate::config::global::first_invalid_proxy(
                    self.global.trusted_proxies.proxies@,
                    0,
                ) == self.global.trusted_proxies.proxies@.len(),
                forall|x: Seq<char>| #[trigger]
                    string_set_contents(seen).contains(x) <==> rule_ids(rules).take(i as int).contains(x),
                first_rule_problem(rules, 0) == first_rule_problem(rules, i as int),
            decreases n - i,
        {
            let ghost before = string_set_contents(seen);
            let id = &self.rules[i].id;
            assert(rule_ids(rules)[i as int] == id@);
            assert(rule_ids(rules).take(i + 1) =~= rule_ids(rules).take(i as int).push(id@));
            if !string_set_insert(&mut seen, id.clone()) {
                assert(first_rule_problem(rules, i as int) == i);
                return Err(concat_str("规则ID重复: ", id.as_str()));
            }
            match self.rules[i].validate() {
                Err(e) => {
                    assert(first_rule_problem(rules, i as int) == i);
                    let m = concat_str("规则[", u64_to_string(i as u64).as_str());
                    let m = concat_str(m.as_str(), "]校验失败: ");
                    return Err(concat_str(m.as_str(), e.as_str()));
                },
                Ok(()) => {},
            }
            proof {
                let t0 = rule_ids(rules).take(i as int);
                let t1 = rule_ids(rules).take(i + 1);
                assert forall|x: Seq<char>| #[trigger]
                    string_set_contents(seen).contains(x) <==> t1.contains(x) by {
                    if t0.contains(x) {
                        let j = choose|j: int| 0 <= j < t0.len() && #[trigger] t0[j] == x;
                        assert(t1[j] == x);
                    }
                    if t1.contains(x) && x != id@ {
                        let j = choose|j: int| 0 <= j < t1.len() && #[trigger] t1[j] == x;
                        assert(j < i);
                        assert(t0[j] == x);
                    }
                    if x == id@ {
                        assert(t1[i as int] == x);
                    }
                }
            }
            i = i + 1;
        }
        if self.rules.len() == 0 {
            return Err(String::from_str("至少需要一个规则"));
        }
        Ok(())
    }
}

impl Default for FlowControlConfig {
    fn default() -> (r: Self)
        ensures
            r.version@ == "0.1.0"@,
            r.global.storage == StorageType::Memory,
            r.global.cache == CacheBackend::Memory,
            r.global.metrics == MetricsBackend::Prometheus,
            !r.global.trusted_proxies.enabled,
            r.global.trusted_proxies.proxies@.len() == 0,
            r.rules@.len() == 0,
    {
        FlowControlConfig {
            version: String::from_str("0.1.0"),
            global: GlobalConfig::default(),
            rules: Vec::new(),
        }
    }
}

/// The same global settings, field by field.
pub open spec fn same_global(a: GlobalConfig, b: GlobalConfig) -> bool {
    &&& a.storage == b.storage
    &&& a.cache == b.cache
    &&& a.metrics == b.metrics
    &&& a.trusted_proxies.enabled == b.trusted_proxies.enabled
    &&& strings_view(a.trusted_proxies.proxies@) == strings_view(b.trusted_proxies.proxies@)
    &&& a.trusted_proxies.max_hops == b.trusted_proxies.max_hops
}

/// The ids of `ids` that `other` lacks, each once, in order of first
/// appearance.
pub open spec fn ids_not_in(ids: Seq<Seq<char>>, other: Set<Seq<char>>) -> Seq<Seq<char>>
    decreases ids.len(),
{
    if ids.len() == 0 {
        Seq::empty()
    } else {
        let prev = ids_not_in(ids.drop_last(), other);
        let x = ids.last();
        if !other.contains(x) && !ids.drop_last().contains(x) {
            prev.push(x)
        } else {
            prev
        }
    }
}

/// A list shown as `["a", "b"]`.
pub open spec fn quoted_list(items: Seq<Seq<char>>) -> Seq<char> {
    "["@ + join(Seq::new(items.len(), |i: int| "\""@ + items[i] + "\""@), ", "@) + "]"@
}

/// The changes from `old` to `new`, in words: a new version, changed global
/// settings, a changed number of rules, added rule ids, removed rule ids;
/// "配置内容无变化" when none of these.
pub open spec fn spec_diff(new: FlowControlConfig, old: FlowControlConfig) -> Seq<Seq<char>> {
    let c1: Seq<Seq<char>> = if new.version@ != old.version@ {
        seq!["版本变更: "@ + old.version@ + " -> "@ + new.version@]
    } else {
        Seq::empty()
    };
    let c2 = if !same_global(new.global, old.global) {
        c1.push("全局配置已变更"@)
    } else {
        c1
    };
    let c3 = if new.rules@.len() != old.rules@.len() {
        c2.push(
            "规则数量变更: "@ + decimal(old.rules@.len()) + " -> "@ + decimal(new.rules@.len()),
        )
    } else {
        c2
    };
    let new_ids = rule_ids(new.rules@);
    let old_ids = rule_ids(old.rules@);
    let added = ids_not_in(new_ids, old_ids.to_set());
    let removed = ids_not_in(old_ids, new_ids.to_set());
    let c4 = if added.len() > 0 {
        c3.push("新增规则: "@ + quoted_list(added))
    } else {
        c3
    };
    let c5 = if removed.len() > 0 {
        c4.push("移除规则: "@ + quoted_list(removed))
    } else {
        c4
    };
    if c5.len() == 0 {
        seq!["配置内容无变化"@]
    } else {
        c5
    }
}

fn same_strings(a: &Vec<String>, b: &Vec<String>) -> (r: bool)
    ensures
        r == (strings_view(a@) == strings_view(b@)),
{
    if a.len() != b.len() {
        assert(strings_view(a@).len() != strings_view(b@).len());
        return false;
    }
    let n = a.len();
    let mut i: usize = 0;
    while i < n
        invariant
            n == a@.len(),
            n == b@.len(),
            i <= n,
            forall|k: int| 0 <= k < i ==> a@[k]@ == b@[k]@,
        decreases n - i,
    {
        if !str_eq(a[i].as_str(), b[i].as_str()) {
            assert(strings_view(a@)[i as int] != strings_view(b@)[i as int]);
            return false;
        }
        i = i + 1;
    }
    assert(strings_view(a@) =~= strings_view(b@));
    true
}

fn globals_equal(a: &GlobalConfig, b: &GlobalConfig) -> (r: bool)
    ensures
        r == same_global(*a, *b),
{
    a.storage == b.storage && a.cache == b.cache && a.metrics == b.metrics
        && a.trusted_proxies.enabled == b.trusted_proxies.enabled && same_strings(
        &a.trusted_proxies.proxies,
        &b.trusted_proxies.proxies,
    ) && a.trusted_proxies.max_hops == b.trusted_proxies.max_hops
}

fn id_set_of(rules: &Vec<Rule>) -> (r: ahash::AHashSet<String>)
    ensures
        forall|x: Seq<char>| #[trigger]
            string_set_contents(r).contains(x) <==> rule_ids(rules@).contains(x),
{
    let mut s = string_set_new();
    let ghost ids = rule_ids(rules@);
    let n = rules.len();
    let mut i: usize = 0;
    while i < n
        invariant
            n == rules@.len(),
            ids == rule_ids(rules@),
            i <= n,
            forall|x: Seq<char>| #[trigger]
                string_set_contents(s).contains(x) <==> ids.take(i as int).contains(x),
        decreases n - i,
    {
        let ghost t0 = ids.take(i as int);
        let ghost t1 = ids.take(i + 1);
        assert(ids[i as int] == rules@[i as int].id@);
        string_set_insert(&mut s, rules[i].id.clone());
        proof {
            assert forall|x: Seq<char>| #[trigger]
                string_set_contents(s).contains(x) <==> t1.contains(x) by {
                if t0.contains(x) {
                    let j = choose|j: int| 0 <= j < t0.len() && #[trigger] t0[j] == x;
                    assert(t1[j] == x);
                }
                if t1.contains(x) && x != ids[i as int] {
                    let j = choose|j: int| 0 <= j < t1.len() && #[trigger] t1[j] == x;
                    assert(t0[j] == x);
                }
                if x == ids[i as int] {
                    assert(t1[i as int] == x);
                }
            }
        }
        i = i + 1;
    }
    assert(ids.take(n as int) =~= ids);
    s
}

/// The ids of `rules` that the set `other` lacks, each once, in order.
fn missing_ids(rules: &Vec<Rule>, other: &ahash::AHashSet<String>) -> (r: Vec<String>)
    ensures
        strings_view(r@) == ids_not_in(rule_ids(rules@), string_set_contents(*other)),
{
    let ghost ids = rule_ids(rules@);
    let ghost o = string_set_contents(*other);
    let mut seen = string_set_new();
    let mut out: Vec<String> = Vec::new();
    let n = rules.len();
    let mut i: usize = 0;
    while i < n
        invariant
            n == rules@.len(),
            ids == rule_ids(rules@),
            o == string_set_contents(*other),
            i <= n,
            forall|x: Seq<char>| #[trigger]
                string_set_contents(seen).contains(x) <==> ids.take(i as int).contains(x),
            strings_view(out@) == ids_not_in(ids.take(i as int), o),
        decreases n - i,
    {
        let ghost t0 = ids.take(i as int);
        let ghost t1 = ids.take(i + 1);
        let ghost out0 = strings_view(out@);
        assert(ids[i as int] == rules@[i as int].id@);
        assert(t1.drop_last() =~= t0);
        assert(t1.last() == ids[i as int]);
        let id = &rules[i].id;
        let absent = !string_set_contains(other, id.as_str());
        let first = string_set_insert(&mut seen, id.clone());
        if absent && first {
            out.push(id.clone());
            assert(strings_view(out@) =~= out0.push(id@));
        }
        proof {
            assert forall|x: Seq<char>| #[trigger]
                string_set_contents(seen).contains(x) <==> t1.contains(x) by {
                if t0.contains(x) {
                    let j = choose|j: int| 0 <= j < t0.len() && #[trigger] t0[j] == x;
                    assert(t1[j] == x);
                }
                if t1.contains(x) && x != ids[i as int] {
                    let j = choose|j: int| 0 <= j < t1.len() && #[trigger] t1[j] == x;
                    assert(t0[j] == x);
                }
                if x == ids[i as int] {
                    assert(t1[i as int] == x);
                }
            }
        }
        i = i + 1;
    }
    assert(ids.take(n as int) =~= ids);
    out
}

fn quote_all(items: &Vec<String>) -> (r: String)
    ensures
        r@ == quoted_list(strings_view(items@)),
{
    let ghost iv = strings_view(items@);
    let mut quoted: Vec<String> = Vec::new();
    let n = items.len();
    let mut i: usize = 0;
    while i < n
        invariant
            n == items@.len(),
            iv == strings_view(items@),
            i <= n,
            quoted@.len() == i,
            forall|k: int| 0 <= k < i ==> #[trigger] quoted@[k]@ == "\""@ + iv[k] + "\""@,
        decreases n - i,
    {
        let q = concat_str("\"", items[i].as_str());
        quoted.push(concat_str(q.as_str(), "\""));
        i = i + 1;
    }
    assert(strings_view(quoted@) =~= Seq::new(iv.len(), |k: int| "\""@ + iv[k] + "\""@));
    let inner = join_strings(&quoted, ", ");
    let r = concat_str("[", inner.as_str());
    concat_str(r.as_str(), "]")
}

impl FlowControlConfig {
    /// Orders two configurations by version number: the dot-separated parts
    /// are compared in turn, as numbers when both are made of digits (a
    /// missing part counting as 0), as text otherwise; the first part that
    /// differs decides.
    pub fn compare_version(&self, other: &FlowControlConfig) -> (r: core::cmp::Ordering)
        ensures
            (r == core::cmp::Ordering::Less) == (version_order(dot_parts(self.version@), dot_parts(other.version@)) == -1),
            (r == core::cmp::Ordering::Equal) == (version_order(dot_parts(self.version@), dot_parts(other.version@)) == 0),
            (r == core::cmp::Ordering::Greater) == (version_order(dot_parts(self.version@), dot_parts(other.version@)) == 1),
    {
        proof {
            law_version_order_is_a_sign(dot_parts(self.version@), dot_parts(other.version@));
        }
        let c = version_order_of(self.version.as_str(), other.version.as_str());
        if c < 0 {
            core::cmp::Ordering::Less
        } else if c == 0 {
            core::cmp::Ordering::Equal
        } else {
            core::cmp::Ordering::Greater
        }
    }

    /// The changes from `old` to this configuration, in words.
    pub fn diff_changes(&self, old: &FlowControlConfig) -> (r: Vec<String>)
        ensures
            strings_view(r@) == spec_diff(*self, *old),
    {
        let mut changes: Vec<String> = Vec::new();
        if !str_eq(self.version.as_str(), old.version.as_str()) {
            let m = concat_str("版本变更: ", old.version.as_str());
            let m = concat_str(m.as_str(), " -> ");
            changes.push(concat_str(m.as_str(), self.version.as_str()));
        }
        let ghost c1 = strings_view(changes@);
        if !globals_equal(&self.global, &old.global) {
            changes.push(String::from_str("全局配置已变更"));
        }
        let ghost c2 = strings_view(changes@);
        if self.rules.len() != old.rules.len() {
            let m = concat_str("规则数量变更: ", u64_to_string(old.rules.len() as u64).as_str());
            let m = concat_str(m.as_str(), " -> ");
            changes.push(concat_str(m.as_str(), u64_to_string(self.rules.len() as u64).as_str()));
        }
        let ghost c3 = strings_view(changes@);
        let old_ids = id_set_of(&old.rules);
        let new_ids = id_set_of(&self.rules);
        assert(string_set_contents(old_ids) =~= rule_ids(old.rules@).to_set());
        assert(string_set_contents(new_ids) =~= rule_ids(self.rules@).to_set());
        let added = missing_ids(&self.rules, &old_ids);
        let removed = missing_ids(&old.rules, &new_ids);
        if added.len() > 0 {
            changes.push(concat_str("新增规则: ", quote_all(&added).as_str()));
        }
        let ghost c4 = strings_view(changes@);
        if removed.len() > 0 {
            changes.push(concat_str("移除规则: ", quote_all(&removed).as_str()));
        }
        if changes.len() == 0 {
            changes.push(String::from_str("配置内容无变化"));
        }
        proof {
            reveal_strlit("");
        }
        assert(strings_view(changes@) =~= spec_diff(*self, *old));
        changes
    }

    /// The record of a change to this configuration from `old_config`, with
    /// the time (milliseconds since the Unix epoch) and the fingerprints of
    /// both configurations supplied by the caller.
    pub fn create_change_record(
        &self,
        old_config: Option<&FlowControlConfig>,
        source: ChangeSource,
        timestamp_millis: i64,
        new_hash: String,
        old_hash: Option<String>,
    ) -> (r: ConfigChangeRecord)
        ensures
            r.timestamp_millis == timestamp_millis,
            r.new_version@ == self.version@,
            r.new_hash == new_hash,
            r.old_hash == old_hash,
            r.source == source,
            match old_config {
                Some(o) => r.old_version matches Some(v) && v@ == o.version@ && strings_view(
                    r.changes@,
                ) == spec_diff(*self, *o),
                None => r.old_version is None && strings_view(r.changes@) == seq!["初始配置"@],
            },
    {
        let (old_version, changes) = match old_config {
            Some(o) => (Some(o.version.clone()), self.diff_changes(o)),
            None => {
                let mut v: Vec<String> = Vec::new();
                v.push(String::from_str("初始配置"));
                assert(strings_view(v@) =~= seq!["初始配置"@]);
                (None, v)
            },
        };
        ConfigChangeRecord {
            timestamp_millis,
            old_version,
            new_version: self.version.clone(),
            old_hash,
            new_hash,
            source,
            changes,
        }
    }
}

} // verus!
