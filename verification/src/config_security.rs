//! Security review of a configuration: values that are empty, oversized or
//! carry characters used in injection attacks are reported as warnings.

use vstd::prelude::*;

use crate::config::flow::FlowControlConfig;
use crate::config::global::GlobalConfig;
use crate::config::limiter::LimiterConfig;
use crate::config::names::{spec_cache_backend_name, spec_metrics_backend_name, spec_storage_type_name};
use crate::config::rule::{Matcher, Rule};
use crate::text::{
    concat_str, decimal, ends_with, has_char, longer_than, str_ends_with, str_eq, str_has_char,
    strings_view, u64_to_string, utf8_len,
};

verus! {

/// The findings of a review.
#[derive(Debug, Clone)]
pub struct ConfigSecurityReport {
    /// True until a warning is added.
    pub is_safe: bool,
    /// Problems found.
    pub warnings: Vec<String>,
    /// Advice.
    pub suggestions: Vec<String>,
}

/// The abstract form of a report.
pub struct ReportView {
    pub is_safe: bool,
    pub warnings: Seq<Seq<char>>,
    pub suggestions: Seq<Seq<char>>,
}

impl View for ConfigSecurityReport {
    type V = ReportView;

    open spec fn view(&self) -> ReportView {
        ReportView {
            is_safe: self.is_safe,
            warnings: strings_view(self.warnings@),
            suggestions: strings_view(self.suggestions@),
        }
    }
}

/// The report after adding the warnings `w`: they are appended, and the
/// report stays safe only if there are none.
pub open spec fn with_warnings(r: ReportView, w: Seq<Seq<char>>) -> ReportView {
    ReportView { is_safe: r.is_safe && w.len() == 0, warnings: r.warnings + w, ..r }
}

impl ConfigSecurityReport {
    /// A safe report without warnings or suggestions.
    pub fn new() -> (r: Self)
        ensures
            r@ == (ReportView { is_safe: true, warnings: Seq::empty(), suggestions: Seq::empty() }),
    {
        let r = ConfigSecurityReport { is_safe: true, warnings: Vec::new(), suggestions: Vec::new() };
        assert(r@.warnings =~= Seq::<Seq<char>>::empty());
        assert(r@.suggestions =~= Seq::<Seq<char>>::empty());
        r
    }

    /// Adds a warning; the report is no longer safe.
    pub fn add_warning(&mut self, warning: String)
        ensures
            final(self)@ == (ReportView {
                is_safe: false,
                warnings: old(self)@.warnings.push(warning@),
                ..old(self)@
            }),
    {
        let ghost w0 = self@.warnings;
        self.warnings.push(warning);
        assert(self@.warnings =~= w0.push(warning@));
        self.is_safe = false;
    }

    /// Adds a suggestion.
    pub fn add_suggestion(&mut self, suggestion: String)
        ensures
            final(self)@ == (ReportView {
                suggestions: old(self)@.suggestions.push(suggestion@),
                ..old(self)@
            }),
    {
        let ghost s0 = self@.suggestions;
        self.suggestions.push(suggestion);
        assert(self@.suggestions =~= s0.push(suggestion@));
    }

    /// Whether anything was found.
    pub fn contains_sensitive_info(&self) -> (r: bool)
        ensures
            r == (self@.warnings.len() > 0),
    {
        self.warnings.len() > 0
    }
}

impl Default for ConfigSecurityReport {
    fn default() -> (r: Self)
        ensures
            r@ == (ReportView { is_safe: true, warnings: Seq::empty(), suggestions: Seq::empty() }),
    {
        ConfigSecurityReport::new()
    }
}

/// `seq![m]` when `c` holds, else nothing.
pub open spec fn warn_if(c: bool, m: Seq<char>) -> Seq<Seq<char>> {
    if c {
        seq![m]
    } else {
        Seq::empty()
    }
}

/// Any of `<`, `>`, `|`, `&`.
pub open spec fn has_shell_char(s: Seq<char>) -> bool {
    has_char(s, '<') || has_char(s, '>') || has_char(s, '|') || has_char(s, '&')
}

/// Any of `<`, `>`, `|`, `&`, `'`, `"`.
pub open spec fn has_quote_or_shell_char(s: Seq<char>) -> bool {
    has_shell_char(s) || has_char(s, '\'') || has_char(s, '"')
}

/// The warnings about a version.
pub open spec fn version_warnings(v: Seq<char>) -> Seq<Seq<char>> {
    warn_if(v.len() == 0, "版本号为空，可能导致配置管理问题"@) + warn_if(
        utf8_len(v) > 50,
        "版本号过长，可能影响性能"@,
    ) + warn_if(has_shell_char(v), "版本号包含特殊字符，可能存在注入风险"@)
}

/// The warnings about the backends: storage must be memory, redis or
/// postgresql; cache memory or redis; metrics prometheus or opentelemetry.
pub open spec fn global_warnings(g: GlobalConfig) -> Seq<Seq<char>> {
    let s = spec_storage_type_name(g.storage);
    let c = spec_cache_backend_name(g.cache);
    let m = spec_metrics_backend_name(g.metrics);
    warn_if(
        !(s == "memory"@ || s == "redis"@ || s == "postgresql"@),
        "无效的存储类型: "@ + s + "，仅支持 [\"memory\", \"redis\", \"postgresql\"]"@,
    ) + warn_if(
        !(c == "memory"@ || c == "redis"@),
        "无效的缓存类型: "@ + c + "，仅支持 [\"memory\", \"redis\"]"@,
    ) + warn_if(
        !(m == "prometheus"@ || m == "opentelemetry"@),
        "无效的指标类型: "@ + m + "，仅支持 [\"prometheus\", \"opentelemetry\"]"@,
    )
}

/// `规则[r]`.
pub open spec fn rule_label(r: nat) -> Seq<char> {
    "规则["@ + decimal(r) + "]"@
}

/// `规则[r]匹配器[m]`.
pub open spec fn matcher_label(r: nat, m: nat) -> Seq<char> {
    rule_label(r) + "匹配器["@ + decimal(m) + "]"@
}

/// `规则[r]限流器[l]`.
pub open spec fn limiter_label(r: nat, l: nat) -> Seq<char> {
    rule_label(r) + "限流器["@ + decimal(l) + "]"@
}

/// The warnings about one user id of a matcher.
pub open spec fn user_id_warnings(u: Seq<char>, label: Seq<char>) -> Seq<Seq<char>> {
    if u.len() == 0 {
        seq![label + "的用户ID为空"@]
    } else {
        warn_if(utf8_len(u) > 256, label + "的用户ID过长: "@ + u) + warn_if(
            has_shell_char(u),
            label + "的用户ID包含特殊字符: "@ + u,
        )
    }
}

/// The warnings about one IP range of a matcher.
pub open spec fn ip_range_warnings(u: Seq<char>, label: Seq<char>) -> Seq<Seq<char>> {
    if u.len() == 0 {
        seq![label + "的IP范围为空"@]
    } else {
        warn_if(utf8_len(u) > 100, label + "的IP范围过长: "@ + u) + warn_if(
            has_shell_char(u),
            label + "的IP范围包含特殊字符: "@ + u,
        )
    }
}

/// The warnings about one API version of a matcher.
pub open spec fn api_version_warnings(u: Seq<char>, label: Seq<char>) -> Seq<Seq<char>> {
    if u.len() == 0 {
        seq![label + "的API版本为空"@]
    } else {
        warn_if(utf8_len(u) > 50, label + "的API版本过长: "@ + u) + warn_if(
            has_char(u, ' ') || has_char(u, ';') || has_char(u, '$'),
            label + "的API版本格式可能无效: "@ + u,
        )
    }
}

/// The concatenation of the warnings about each item.
pub open spec fn each_warnings(items: Seq<Seq<char>>, label: Seq<char>, kind: int) -> Seq<Seq<char>>
    decreases items.len(),
{
    if items.len() == 0 {
        Seq::empty()
    } else {
        each_warnings(items.drop_last(), label, kind) + (if kind == 0 {
            user_id_warnings(items.last(), label)
        } else if kind == 1 {
            ip_range_warnings(items.last(), label)
        } else {
            api_version_warnings(items.last(), label)
        })
    }
}

/// The warnings about a matcher.
pub open spec fn matcher_warnings(m: Matcher, label: Seq<char>) -> Seq<Seq<char>> {
    match m {
        Matcher::User { user_ids } => each_warnings(strings_view(user_ids@), label, 0),
        Matcher::Ip { ip_ranges } => each_warnings(strings_view(ip_ranges@), label, 1),
        Matcher::Geo { countries } => warn_if(countries@.len() == 0, label + "的国家列表为空"@),
        Matcher::ApiVersion { versions } => each_warnings(strings_view(versions@), label, 2),
        Matcher::Device { device_types } => warn_if(
            device_types@.len() == 0,
            label + "的设备类型列表为空"@,
        ),
        Matcher::Custom { name, config } => warn_if(
            name@.len() == 0,
            label + "的自定义匹配器名称为空"@,
        ),
    }
}

/// The warnings about a window size: empty, oversized, or not ending in a
/// unit letter (`ms`, `s`, `m` or `h`).
pub open spec fn window_warnings(w: Seq<char>, label: Seq<char>) -> Seq<Seq<char>> {
    if w.len() == 0 {
        seq![label + "的窗口大小为空"@]
    } else {
        warn_if(utf8_len(w) > 50, label + "的窗口大小格式过长: "@ + w) + warn_if(
            !ends_with(w, "ms"@) && !ends_with(w, "s"@) && !ends_with(w, "m"@) && !ends_with(
                w,
                "h"@,
            ),
            label + "的窗口大小格式无效: "@ + w,
        )
    }
}

/// The warnings about a limiter.
pub open spec fn limiter_warnings(l: LimiterConfig, label: Seq<char>) -> Seq<Seq<char>> {
    match l {
        LimiterConfig::TokenBucket { capacity, refill_rate } => warn_if(
            capacity == 0,
            label + "的令牌桶容量为0"@,
        ) + warn_if(capacity > 1_000_000, label + "的令牌桶容量过大: "@ + decimal(capacity as nat))
            + warn_if(refill_rate == 0, label + "的填充速率为0"@) + warn_if(
            refill_rate > 1_000_000,
            label + "的填充速率过大: "@ + decimal(refill_rate as nat),
        ),
        LimiterConfig::SlidingWindow { window_size, max_requests } => window_warnings(
            window_size@,
            label,
        ) + warn_if(max_requests == 0, label + "的最大请求数为0"@) + warn_if(
            max_requests > 1_000_000,
            label + "的最大请求数过大: "@ + decimal(max_requests as nat),
        ),
        LimiterConfig::FixedWindow { window_size, max_requests } => window_warnings(
            window_size@,
            label,
        ) + warn_if(max_requests == 0, label + "的最大请求数为0"@),
        LimiterConfig::Quota { quota_type, limit, window, alert_threshold, overdraft } => warn_if(
            limit == 0,
            label + "的配额限制为0"@,
        ) + warn_if(limit > 1_000_000_000, label + "的配额限制过大: "@ + decimal(limit as nat))
            + (match overdraft {
            Some(o) => warn_if(
                o.max_overdraft > limit,
                label + "的透支配额("@ + decimal(o.max_overdraft as nat) + ")超过配额限制("@
                    + decimal(limit as nat) + ")"@,
            ),
            None => Seq::empty(),
        }) + window_warnings(window@, label),
        LimiterConfig::Concurrency { max_concurrent } => warn_if(
            max_concurrent == 0,
            label + "的最大并发数为0"@,
        ) + warn_if(
            max_concurrent > 100000,
            label + "的最大并发数过大: "@ + decimal(max_concurrent as nat),
        ),
        LimiterConfig::Custom { name, config } => warn_if(
            name@.len() == 0,
            label + "的自定义限流器名称为空"@,
        ),
    }
}

/// The warnings about the matchers of rule `r`, from the first.
pub open spec fn matchers_warnings(ms: Seq<Matcher>, r: nat) -> Seq<Seq<char>>
    decreases ms.len(),
{
    if ms.len() == 0 {
        Seq::empty()
    } else {
        matchers_warnings(ms.drop_last(), r) + matcher_warnings(
            ms.last(),
            matcher_label(r, (ms.len() - 1) as nat),
        )
    }
}

/// The warnings about the limiters of rule `r`, from the first.
pub open spec fn limiters_warnings(ls: Seq<LimiterConfig>, r: nat) -> Seq<Seq<char>>
    decreases ls.len(),
{
    if ls.len() == 0 {
        Seq::empty()
    } else {
        limiters_warnings(ls.drop_last(), r) + limiter_warnings(
            ls.last(),
            limiter_label(r, (ls.len() - 1) as nat),
        )
    }
}

/// The warnings about rule number `i`.
pub open spec fn rule_warnings(rule: Rule, i: nat) -> Seq<Seq<char>> {
    let id = rule.id@;
    let l = rule_label(i);
    (if id.len() == 0 {
        seq![l + "的ID为空"@]
    } else {
        warn_if(utf8_len(id) > 100, l + "的ID过长，可能影响性能"@)
    }) + warn_if(has_quote_or_shell_char(id), l + "的ID包含特殊字符，可能存在注入风险: "@ + id)
        + warn_if(rule.name@.len() == 0, l + "的名称为空"@) + warn_if(
        rule.priority > 10000,
        l + "的优先级过高("@ + decimal(rule.priority as nat) + ")，可能导致其他规则被忽略"@,
    ) + matchers_warnings(rule.matchers@, i) + limiters_warnings(rule.limiters@, i)
}

/// The warnings about the rules, from the first.
pub open spec fn rules_warnings(rules: Seq<Rule>) -> Seq<Seq<char>>
    decreases rules.len(),
{
    if rules.len() == 0 {
        Seq::empty()
    } else {
        rules_warnings(rules.drop_last()) + rule_warnings(rules.last(), (rules.len() - 1) as nat)
    }
}

/// The warnings about a whole configuration: its version, its backends,
/// then each rule in order.
pub open spec fn config_warnings(c: FlowControlConfig) -> Seq<Seq<char>> {
    version_warnings(c.version@) + global_warnings(c.global) + rules_warnings(c.rules@)
}

fn has_shell(s: &str) -> (r: bool)
    ensures
        r == has_shell_char(s@),
{
    str_has_char(s, '<') || str_has_char(s, '>') || str_has_char(s, '|') || str_has_char(s, '&')
}

fn warn(report: &mut ConfigSecurityReport, c: bool, m: String)
    ensures
        final(report)@ == with_warnings(old(report)@, warn_if(c, m@)),
{
    if c {
        report.add_warning(m);
    }
    assert(final(report)@.warnings =~= old(report)@.warnings + warn_if(c, m@)) by {
        if !c {
            assert(warn_if(c, m@) =~= Seq::<Seq<char>>::empty());
        }
    }
}

fn cat3(a: &str, b: &str, c: &str) -> (r: String)
    ensures
        r@ == a@ + b@ + c@,
{
    let x = concat_str(a, b);
    concat_str(x.as_str(), c)
}

fn rule_label_exec(r: usize) -> (s: String)
    ensures
        s@ == rule_label(r as nat),
{
    cat3("规则[", u64_to_string(r as u64).as_str(), "]")
}

fn sub_label(r: usize, kind: &str, m: usize) -> (s: String)
    ensures
        s@ == rule_label(r as nat) + kind@ + decimal(m as nat) + "]"@,
{
    let a = rule_label_exec(r);
    let b = concat_str(a.as_str(), kind);
    let c = cat3(b.as_str(), u64_to_string(m as u64).as_str(), "]");
    c
}

proof fn lemma_warn_assoc(a: ReportView, x: Seq<Seq<char>>, y: Seq<Seq<char>>)
    ensures
        with_warnings(with_warnings(a, x), y) == with_warnings(a, x + y),
{
    assert(a.warnings + x + y =~= a.warnings + (x + y));
}

/// Reviews configurations.
pub struct ConfigSecurityValidator;

impl ConfigSecurityValidator {
    /// Reviews a configuration: its version, its backends, and each rule
    /// with its matchers and limiters; every finding is a warning.
    pub fn validate_config(config: &FlowControlConfig) -> (r: ConfigSecurityReport)
        ensures
            r@ == with_warnings(
                ReportView { is_safe: true, warnings: Seq::empty(), suggestions: Seq::empty() },
                config_warnings(*config),
            ),
    {
        let mut report = ConfigSecurityReport::new();
        let ghost r0 = report@;
        Self::validate_version(config.version.as_str(), &mut report);
        Self::validate_global_config(&config.global, &mut report);
        let ghost r1 = report@;
        proof {
            lemma_warn_assoc(r0, version_warnings(config.version@), global_warnings(config.global));
        }
        let ghost rules = config.rules@;
        let n = config.rules.len();
        let mut i: usize = 0;
        while i < n
            invariant
                n == rules.len(),
                rules == config.rules@,
                i <= n,
                report@ == with_warnings(r1, rules_warnings(rules.take(i as int))),
            decreases n - i,
        {
            let ghost before = report@;
            Self::validate_rule(&config.rules[i], i, &mut report);
            proof {
                assert(rules.take(i + 1).drop_last() =~= rules.take(i as int));
                assert(rules.take(i + 1).last() == rules[i as int]);
                lemma_warn_assoc(r1, rules_warnings(rules.take(i as int)), rule_warnings(rules[i as int], i as nat));
            }
            i = i + 1;
        }
        proof {
            assert(rules.take(n as int) =~= rules);
            lemma_warn_assoc(r0, version_warnings(config.version@) + global_warnings(config.global), rules_warnings(rules));
            assert(version_warnings(config.version@) + global_warnings(config.global) + rules_warnings(rules) =~= config_warnings(*config));
        }
        report
    }

    fn validate_version(version: &str, report: &mut ConfigSecurityReport)
        ensures
            final(report)@ == with_warnings(old(report)@, version_warnings(version@)),
    {
        let ghost r0 = report@;
        warn(report, version.is_empty(), String::from_str("版本号为空，可能导致配置管理问题"));
        let ghost r1 = report@;
        warn(report, longer_than(version, 50), String::from_str("版本号过长，可能影响性能"));
        proof { lemma_warn_assoc(r0, warn_if(version@.len() == 0, "版本号为空，可能导致配置管理问题"@), warn_if(utf8_len(version@) > 50, "版本号过长，可能影响性能"@)); }
        let ghost r2 = report@;
        warn(report, has_shell(version), String::from_str("版本号包含特殊字符，可能存在注入风险"));
        proof {
            lemma_warn_assoc(r0, warn_if(version@.len() == 0, "版本号为空，可能导致配置管理问题"@) + warn_if(utf8_len(version@) > 50, "版本号过长，可能影响性能"@), warn_if(has_shell_char(version@), "版本号包含特殊字符，可能存在注入风险"@));
        }
    }

    fn validate_global_config(global: &GlobalConfig, report: &mut ConfigSecurityReport)
        ensures
            final(report)@ == with_warnings(old(report)@, global_warnings(*global)),
    {
        let ghost r0 = report@;
        let s = global.storage.as_str();
        let c = global.cache.as_str();
        let m = global.metrics.as_str();
        let ghost w1 = warn_if(
            !(s@ == "memory"@ || s@ == "redis"@ || s@ == "postgresql"@),
            "无效的存储类型: "@ + s@ + "，仅支持 [\"memory\", \"redis\", \"postgresql\"]"@,
        );
        let ghost w2 = warn_if(
            !(c@ == "memory"@ || c@ == "redis"@),
            "无效的缓存类型: "@ + c@ + "，仅支持 [\"memory\", \"redis\"]"@,
        );
        let ghost w3 = warn_if(
            !(m@ == "prometheus"@ || m@ == "opentelemetry"@),
            "无效的指标类型: "@ + m@ + "，仅支持 [\"prometheus\", \"opentelemetry\"]"@,
        );
        warn(
            report,
            !(str_eq(s, "memory") || str_eq(s, "redis") || str_eq(s, "postgresql")),
            cat3("无效的存储类型: ", s, "，仅支持 [\"memory\", \"redis\", \"postgresql\"]"),
        );
        warn(
            report,
            !(str_eq(c, "memory") || str_eq(c, "redis")),
            cat3("无效的缓存类型: ", c, "，仅支持 [\"memory\", \"redis\"]"),
        );
        proof { lemma_warn_assoc(r0, w1, w2); }
        warn(
            report,
            !(str_eq(m, "prometheus") || str_eq(m, "opentelemetry")),
            cat3("无效的指标类型: ", m, "，仅支持 [\"prometheus\", \"opentelemetry\"]"),
        );
        proof { lemma_warn_assoc(r0, w1 + w2, w3); }
    }

    fn validate_rule(rule: &Rule, index: usize, report: &mut ConfigSecurityReport)
        ensures
            final(report)@ == with_warnings(old(report)@, rule_warnings(*rule, index as nat)),
    {
        let ghost r0 = report@;
        let l = rule_label_exec(index);
        let id = rule.id.as_str();
        let ghost l0 = rule_label(index as nat);
        let ghost w1 = if id@.len() == 0 {
            seq![l0 + "的ID为空"@]
        } else {
            warn_if(utf8_len(id@) > 100, l0 + "的ID过长，可能影响性能"@)
        };
        if id.is_empty() {
            report.add_warning(concat_str(l.as_str(), "的ID为空"));
            assert(report@.warnings =~= r0.warnings + w1);
        } else {
            warn(report, longer_than(id, 100), concat_str(l.as_str(), "的ID过长，可能影响性能"));
        }
        assert(report@ == with_warnings(r0, w1));
        let quote = has_shell(id) || str_has_char(id, '\'') || str_has_char(id, '"');
        warn(report, quote, cat3(l.as_str(), "的ID包含特殊字符，可能存在注入风险: ", id));
        let ghost w2 = warn_if(has_quote_or_shell_char(id@), l0 + "的ID包含特殊字符，可能存在注入风险: "@ + id@);
        proof { lemma_warn_assoc(r0, w1, w2); }
        warn(report, rule.name.as_str().is_empty(), concat_str(l.as_str(), "的名称为空"));
        let ghost w3 = warn_if(rule.name@.len() == 0, l0 + "的名称为空"@);
        proof { lemma_warn_assoc(r0, w1 + w2, w3); }
        let p = cat3(l.as_str(), "的优先级过高(", u64_to_string(rule.priority as u64).as_str());
        warn(report, rule.priority > 10000, concat_str(p.as_str(), ")，可能导致其他规则被忽略"));
        let ghost w4 = warn_if(
            rule.priority > 10000,
            l0 + "的优先级过高("@ + decimal(rule.priority as nat) + ")，可能导致其他规则被忽略"@,
        );
        proof { lemma_warn_assoc(r0, w1 + w2 + w3, w4); }
        let ghost r1 = report@;
        let ghost head = w1 + w2 + w3 + w4;
        let ghost ms = rule.matchers@;
        let n = rule.matchers.len();
        let mut i: usize = 0;
        while i < n
            invariant
                n == ms.len(),
                ms == rule.matchers@,
                i <= n,
                report@ == with_warnings(r1, matchers_warnings(ms.take(i as int), index as nat)),
            decreases n - i,
        {
            Self::validate_matcher(&rule.matchers[i], index, i, report);
            proof {
                assert(ms.take(i + 1).drop_last() =~= ms.take(i as int));
                assert(ms.take(i + 1).last() == ms[i as int]);
                lemma_warn_assoc(r1, matchers_warnings(ms.take(i as int), index as nat), matcher_warnings(ms[i as int], matcher_label(index as nat, i as nat)));
            }
            i = i + 1;
        }
        let ghost r2 = report@;
        let ghost ls = rule.limiters@;
        let n = rule.limiters.len();
        let mut i: usize = 0;
        while i < n
            invariant
                n == ls.len(),
                ls == rule.limiters@,
                i <= n,
                report@ == with_warnings(r2, limiters_warnings(ls.take(i as int), index as nat)),
            decreases n - i,
        {
            Self::validate_limiter(&rule.limiters[i], index, i, report);
            proof {
                assert(ls.take(i + 1).drop_last() =~= ls.take(i as int));
                assert(ls.take(i + 1).last() == ls[i as int]);
                lemma_warn_assoc(r2, limiters_warnings(ls.take(i as int), index as nat), limiter_warnings(ls[i as int], limiter_label(index as nat, i as nat)));
            }
            i = i + 1;
        }
        proof {
            assert(ms.take(ms.len() as int) =~= ms);
            assert(ls.take(ls.len() as int) =~= ls);
            lemma_warn_assoc(r0, head, matchers_warnings(ms, index as nat));
            lemma_warn_assoc(r0, head + matchers_warnings(ms, index as nat), limiters_warnings(ls, index as nat));
            assert(head + matchers_warnings(ms, index as nat) + limiters_warnings(ls, index as nat) =~= rule_warnings(*rule, index as nat));
        }
    }

    fn validate_items(items: &Vec<String>, label: &String, kind: u8, report: &mut ConfigSecurityReport)
        requires
            kind <= 2,
        ensures
            final(report)@ == with_warnings(old(report)@, each_warnings(strings_view(items@), label@, kind as int)),
    {
        let ghost r0 = report@;
        let ghost iv = strings_view(items@);
        let n = items.len();
        let mut i: usize = 0;
        while i < n
            invariant
                n == items@.len(),
                iv == strings_view(items@),
                kind <= 2,
                i <= n,
                report@ == with_warnings(r0, each_warnings(iv.take(i as int), label@, kind as int)),
            decreases n - i,
        {
            let ghost before = report@;
            let u = items[i].as_str();
            let ghost w = if kind == 0 {
                user_id_warnings(u@, label@)
            } else if kind == 1 {
                ip_range_warnings(u@, label@)
            } else {
                api_version_warnings(u@, label@)
            };
            if kind == 0 {
                Self::validate_user_id(u, label, report);
            } else if kind == 1 {
                Self::validate_ip_range(u, label, report);
            } else {
                Self::validate_api_version(u, label, report);
            }
            proof {
                assert(iv.take(i + 1).drop_last() =~= iv.take(i as int));
                assert(iv.take(i + 1).last() == u@);
                lemma_warn_assoc(r0, each_warnings(iv.take(i as int), label@, kind as int), w);
            }
            i = i + 1;
        }
        assert(iv.take(n as int) =~= iv);
    }

    fn validate_matcher(matcher: &Matcher, rule_index: usize, matcher_index: usize, report: &mut ConfigSecurityReport)
        ensures
            final(report)@ == with_warnings(
                old(report)@,
                matcher_warnings(*matcher, matcher_label(rule_index as nat, matcher_index as nat)),
            ),
    {
        let label = sub_label(rule_index, "匹配器[", matcher_index);
        assert(label@ =~= matcher_label(rule_index as nat, matcher_index as nat));
        match matcher {
            Matcher::User { user_ids } => Self::validate_items(user_ids, &label, 0, report),
            Matcher::Ip { ip_ranges } => Self::validate_items(ip_ranges, &label, 1, report),
            Matcher::Geo { countries } => warn(report, countries.len() == 0, concat_str(label.as_str(), "的国家列表为空")),
            Matcher::ApiVersion { versions } => Self::validate_items(versions, &label, 2, report),
            Matcher::Device { device_types } => warn(report, device_types.len() == 0, concat_str(label.as_str(), "的设备类型列表为空")),
            Matcher::Custom { name, .. } => warn(report, name.as_str().is_empty(), concat_str(label.as_str(), "的自定义匹配器名称为空")),
        }
    }

    fn validate_user_id(user_id: &str, label: &String, report: &mut ConfigSecurityReport)
        ensures
            final(report)@ == with_warnings(old(report)@, user_id_warnings(user_id@, label@)),
    {
        let ghost r0 = report@;
        if user_id.is_empty() {
            report.add_warning(concat_str(label.as_str(), "的用户ID为空"));
            assert(report@.warnings =~= r0.warnings + user_id_warnings(user_id@, label@));
            return;
        }
        warn(report, longer_than(user_id, 256), cat3(label.as_str(), "的用户ID过长: ", user_id));
        warn(report, has_shell(user_id), cat3(label.as_str(), "的用户ID包含特殊字符: ", user_id));
        proof { lemma_warn_assoc(r0, warn_if(utf8_len(user_id@) > 256, label@ + "的用户ID过长: "@ + user_id@), warn_if(has_shell_char(user_id@), label@ + "的用户ID包含特殊字符: "@ + user_id@)); }
    }

    fn validate_ip_range(ip_range: &str, label: &String, report: &mut ConfigSecurityReport)
        ensures
            final(report)@ == with_warnings(old(report)@, ip_range_warnings(ip_range@, label@)),
    {
        let ghost r0 = report@;
        if ip_range.is_empty() {
            report.add_warning(concat_str(label.as_str(), "的IP范围为空"));
            assert(report@.warnings =~= r0.warnings + ip_range_warnings(ip_range@, label@));
            return;
        }
        warn(report, longer_than(ip_range, 100), cat3(label.as_str(), "的IP范围过长: ", ip_range));
        warn(report, has_shell(ip_range), cat3(label.as_str(), "的IP范围包含特殊字符: ", ip_range));
        proof { lemma_warn_assoc(r0, warn_if(utf8_len(ip_range@) > 100, label@ + "的IP范围过长: "@ + ip_range@), warn_if(has_shell_char(ip_range@), label@ + "的IP范围包含特殊字符: "@ + ip_range@)); }
    }

    fn validate_api_version(version: &str, label: &String, report: &mut ConfigSecurityReport)
        ensures
            final(report)@ == with_warnings(old(report)@, api_version_warnings(version@, label@)),
    {
        let ghost r0 = report@;
        if version.is_empty() {
            report.add_warning(concat_str(label.as_str(), "的API版本为空"));
            assert(report@.warnings =~= r0.warnings + api_version_warnings(version@, label@));
            return;
        }
        warn(report, longer_than(version, 50), cat3(label.as_str(), "的API版本过长: ", version));
        let odd = str_has_char(version, ' ') || str_has_char(version, ';') || str_has_char(version, '$');
        warn(report, odd, cat3(label.as_str(), "的API版本格式可能无效: ", version));
        proof { lemma_warn_assoc(r0, warn_if(utf8_len(version@) > 50, label@ + "的API版本过长: "@ + version@), warn_if(has_char(version@, ' ') || has_char(version@, ';') || has_char(version@, '$'), label@ + "的API版本格式可能无效: "@ + version@)); }
    }

    fn validate_window_size(window_size: &str, label: &String, report: &mut ConfigSecurityReport)
        ensures
            final(report)@ == with_warnings(old(report)@, window_warnings(window_size@, label@)),
    {
        let ghost r0 = report@;
        if window_size.is_empty() {
            report.add_warning(concat_str(label.as_str(), "的窗口大小为空"));
            assert(report@.warnings =~= r0.warnings + window_warnings(window_size@, label@));
            return;
        }
        warn(report, longer_than(window_size, 50), cat3(label.as_str(), "的窗口大小格式过长: ", window_size));
        let bad = !str_ends_with(window_size, "ms") && !str_ends_with(window_size, "s") && !str_ends_with(window_size, "m") && !str_ends_with(window_size, "h");
        warn(report, bad, cat3(label.as_str(), "的窗口大小格式无效: ", window_size));
        proof {
            lemma_warn_assoc(r0, warn_if(utf8_len(window_size@) > 50, label@ + "的窗口大小格式过长: "@ + window_size@), warn_if(
                !ends_with(window_size@, "ms"@) && !ends_with(window_size@, "s"@) && !ends_with(window_size@, "m"@) && !ends_with(window_size@, "h"@),
                label@ + "的窗口大小格式无效: "@ + window_size@,
            ));
        }
    }

    fn number_message(label: &String, text: &str, n: u64) -> (r: String)
        ensures
            r@ == label@ + text@ + decimal(n as nat),
    {
        cat3(label.as_str(), text, u64_to_string(n).as_str())
    }

    /// Reviews one limiter: zero or excessive counts and rates, borrowing
    /// beyond the quota, malformed windows, nameless custom limiters.
    fn validate_limiter(limiter: &LimiterConfig, rule_index: usize, limiter_index: usize, report: &mut ConfigSecurityReport)
        ensures
            final(report)@ == with_warnings(
                old(report)@,
                limiter_warnings(*limiter, limiter_label(rule_index as nat, limiter_index as nat)),
            ),
    {
        let label = sub_label(rule_index, "限流器[", limiter_index);
        assert(label@ =~= limiter_label(rule_index as nat, limiter_index as nat));
        let ghost l = label@;
        let ghost r0 = report@;
        match limiter {
            LimiterConfig::TokenBucket { capacity, refill_rate } => {
                let c = *capacity;
                let f = *refill_rate;
                let ghost w1 = warn_if(c == 0, l + "的令牌桶容量为0"@);
                let ghost w2 = warn_if(c > 1_000_000, l + "的令牌桶容量过大: "@ + decimal(c as nat));
                let ghost w3 = warn_if(f == 0, l + "的填充速率为0"@);
                let ghost w4 = warn_if(f > 1_000_000, l + "的填充速率过大: "@ + decimal(f as nat));
                warn(report, c == 0, concat_str(label.as_str(), "的令牌桶容量为0"));
                warn(report, c > 1_000_000, Self::number_message(&label, "的令牌桶容量过大: ", c));
                proof { lemma_warn_assoc(r0, w1, w2); }
                warn(report, f == 0, concat_str(label.as_str(), "的填充速率为0"));
                proof { lemma_warn_assoc(r0, w1 + w2, w3); }
                warn(report, f > 1_000_000, Self::number_message(&label, "的填充速率过大: ", f));
                proof { lemma_warn_assoc(r0, w1 + w2 + w3, w4); }
            },
            LimiterConfig::SlidingWindow { window_size, max_requests } => {
                let m = *max_requests;
                let ghost w1 = window_warnings(window_size@, l);
                let ghost w2 = warn_if(m == 0, l + "的最大请求数为0"@);
                let ghost w3 = warn_if(m > 1_000_000, l + "的最大请求数过大: "@ + decimal(m as nat));
                Self::validate_window_size(window_size.as_str(), &label, report);
                warn(report, m == 0, concat_str(label.as_str(), "的最大请求数为0"));
                proof { lemma_warn_assoc(r0, w1, w2); }
                warn(report, m > 1_000_000, Self::number_message(&label, "的最大请求数过大: ", m));
                proof { lemma_warn_assoc(r0, w1 + w2, w3); }
            },
            LimiterConfig::FixedWindow { window_size, max_requests } => {
                let m = *max_requests;
                let ghost w1 = window_warnings(window_size@, l);
                let ghost w2 = warn_if(m == 0, l + "的最大请求数为0"@);
                Self::validate_window_size(window_size.as_str(), &label, report);
                warn(report, m == 0, concat_str(label.as_str(), "的最大请求数为0"));
                proof { lemma_warn_assoc(r0, w1, w2); }
            },
            LimiterConfig::Quota { limit, window, overdraft, .. } => {
                let lim = *limit;
                let ghost w1 = warn_if(lim == 0, l + "的配额限制为0"@);
                let ghost w2 = warn_if(lim > 1_000_000_000, l + "的配额限制过大: "@ + decimal(lim as nat));
                let ghost w3: Seq<Seq<char>> = match overdraft {
                    Some(o) => warn_if(
                        o.max_overdraft > lim,
                        l + "的透支配额("@ + decimal(o.max_overdraft as nat) + ")超过配额限制("@
                            + decimal(lim as nat) + ")"@,
                    ),
                    None => Seq::empty(),
                };
                let ghost w4 = window_warnings(window@, l);
                warn(report, lim == 0, concat_str(label.as_str(), "的配额限制为0"));
                warn(report, lim > 1_000_000_000, Self::number_message(&label, "的配额限制过大: ", lim));
                proof { lemma_warn_assoc(r0, w1, w2); }
                match overdraft {
                    Some(o) => {
                        let a = Self::number_message(&label, "的透支配额(", o.max_overdraft);
                        let b = cat3(a.as_str(), ")超过配额限制(", u64_to_string(lim).as_str());
                        warn(report, o.max_overdraft > lim, concat_str(b.as_str(), ")"));
                    },
                    None => {
                        assert(report@.warnings + w3 =~= report@.warnings);
                    },
                }
                proof { lemma_warn_assoc(r0, w1 + w2, w3); }
                Self::validate_window_size(window.as_str(), &label, report);
                proof { lemma_warn_assoc(r0, w1 + w2 + w3, w4); }
            },
            LimiterConfig::Concurrency { max_concurrent } => {
                let m = *max_concurrent;
                let ghost w1 = warn_if(m == 0, l + "的最大并发数为0"@);
                let ghost w2 = warn_if(m > 100000, l + "的最大并发数过大: "@ + decimal(m as nat));
                warn(report, m == 0, concat_str(label.as_str(), "的最大并发数为0"));
                warn(report, m > 100000, Self::number_message(&label, "的最大并发数过大: ", m));
                proof { lemma_warn_assoc(r0, w1, w2); }
            },
            LimiterConfig::Custom { name, .. } => {
                warn(report, name.as_str().is_empty(), concat_str(label.as_str(), "的自定义限流器名称为空"));
            },
        }
    }
}


/// A report after a series of additions, in order: each is a warning (when
/// its flag is set) or a suggestion, with its text.
pub open spec fn spec_report_additions(r: ReportView, adds: Seq<(bool, Seq<char>)>) -> ReportView
    decreases adds.len(),
{
    if adds.len() == 0 {
        r
    } else {
        let next = if adds[0].0 {
            ReportView { is_safe: false, warnings: r.warnings.push(adds[0].1), ..r }
        } else {
            ReportView { suggestions: r.suggestions.push(adds[0].1), ..r }
        };
        spec_report_additions(next, adds.drop_first())
    }
}

/// Whatever warnings and suggestions are added to a fresh report, in any
/// order, it reports sensitive content exactly when it is not safe, exactly
/// when at least one warning was added; suggestions never change that.
pub proof fn law_report_safe_until_warned(adds: Seq<(bool, Seq<char>)>)
    ensures
        ({
            let r = spec_report_additions(
                ReportView { is_safe: true, warnings: Seq::empty(), suggestions: Seq::empty() },
                adds,
            );
            &&& (r.warnings.len() > 0) == !r.is_safe
            &&& !r.is_safe == exists|k: int| 0 <= k < adds.len() && #[trigger] adds[k].0
        }),
{
    lemma_report_additions(
        ReportView { is_safe: true, warnings: Seq::empty(), suggestions: Seq::empty() },
        adds,
    );
}

proof fn lemma_report_additions(r: ReportView, adds: Seq<(bool, Seq<char>)>)
    requires
        (r.warnings.len() > 0) == !r.is_safe,
    ensures
        ({
            let a = spec_report_additions(r, adds);
            &&& (a.warnings.len() > 0) == !a.is_safe
            &&& !a.is_safe == (!r.is_safe || exists|k: int| 0 <= k < adds.len() && #[trigger] adds[k].0)
        }),
    decreases adds.len(),
{
    if adds.len() > 0 {
        let next = if adds[0].0 {
            ReportView { is_safe: false, warnings: r.warnings.push(adds[0].1), ..r }
        } else {
            ReportView { suggestions: r.suggestions.push(adds[0].1), ..r }
        };
        let rest = adds.drop_first();
        lemma_report_additions(next, rest);
        if exists|k: int| 0 <= k < rest.len() && #[trigger] rest[k].0 {
            let k = choose|k: int| 0 <= k < rest.len() && #[trigger] rest[k].0;
            assert(adds[k + 1].0);
        }
        if exists|k: int| 0 <= k < adds.len() && #[trigger] adds[k].0 {
            let k = choose|k: int| 0 <= k < adds.len() && #[trigger] adds[k].0;
            if k > 0 {
                assert(rest[k - 1].0);
            }
        }
    }
}

} // verus!
