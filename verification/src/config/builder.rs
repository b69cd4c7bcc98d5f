//! Building configurations in code.

use vstd::prelude::*;

use crate::config::flow::FlowControlConfig;
use crate::config::global::{GlobalConfig, TrustedProxyConfig};
use crate::config::limiter::LimiterConfig;
use crate::config::names::{Action, CacheBackend, MetricsBackend, StorageType};
use crate::config::rule::{ActionConfig, Matcher, Rule};
use crate::error::LimiteronError;

verus! {

/// A rule in the making.
#[derive(Debug)]
pub struct RuleBuilder {
    id: String,
    name: String,
    priority: u16,
    matchers: Vec<Matcher>,
    limiters: Vec<LimiterConfig>,
    action: ActionConfig,
}

/// What a rule builder holds so far.
pub struct RuleDraft {
    pub id: Seq<char>,
    pub name: Seq<char>,
    pub priority: u16,
    pub matchers: Seq<Matcher>,
    pub limiters: Seq<LimiterConfig>,
    pub on_exceed: Action,
}

impl View for RuleBuilder {
    type V = RuleDraft;

    closed spec fn view(&self) -> RuleDraft {
        RuleDraft {
            id: self.id@,
            name: self.name@,
            priority: self.priority,
            matchers: self.matchers@,
            limiters: self.limiters@,
            on_exceed: self.action.on_exceed,
        }
    }
}

impl RuleBuilder {
    /// Whether the builder's action carries no ban.
    pub closed spec fn without_ban(&self) -> bool {
        self.action.ban is None
    }

    /// A draft with nothing set, priority 100, rejecting on exceeding.
    pub fn new() -> (r: Self)
        ensures
            r@ == (RuleDraft {
                id: Seq::empty(),
                name: Seq::empty(),
                priority: 100,
                matchers: Seq::empty(),
                limiters: Seq::empty(),
                on_exceed: Action::Reject,
            }),
            r.without_ban(),
    {
        let r = RuleBuilder {
            id: String::new(),
            name: String::new(),
            priority: 100,
            matchers: Vec::new(),
            limiters: Vec::new(),
            action: ActionConfig { on_exceed: Action::Reject, ban: None },
        };
        assert(r@.matchers =~= Seq::<Matcher>::empty());
        assert(r@.limiters =~= Seq::<LimiterConfig>::empty());
        r
    }

    /// With this id.
    pub fn id(self, id: String) -> (r: Self)
        ensures
            r@ == (RuleDraft { id: id@, ..self@ }),
            r.without_ban() == self.without_ban(),
    {
        let mut b = self;
        b.id = id;
        b
    }

    /// With this name.
    pub fn name(self, name: String) -> (r: Self)
        ensures
            r@ == (RuleDraft { name: name@, ..self@ }),
            r.without_ban() == self.without_ban(),
    {
        let mut b = self;
        b.name = name;
        b
    }

    /// With this priority.
    pub fn priority(self, priority: u16) -> (r: Self)
        ensures
            r@ == (RuleDraft { priority, ..self@ }),
            r.without_ban() == self.without_ban(),
    {
        let mut b = self;
        b.priority = priority;
        b
    }

    /// With one more matcher, of users.
    pub fn user_matcher(self, user_ids: Vec<String>) -> (r: Self)
        ensures
            r@ == (RuleDraft { matchers: self@.matchers.push(Matcher::User { user_ids }), ..self@ }),
            r.without_ban() == self.without_ban(),
    {
        let mut b = self;
        b.matchers.push(Matcher::User { user_ids });
        b
    }

    /// With one more matcher, of IP ranges.
    pub fn ip_matcher(self, ip_ranges: Vec<String>) -> (r: Self)
        ensures
            r@ == (RuleDraft { matchers: self@.matchers.push(Matcher::Ip { ip_ranges }), ..self@ }),
            r.without_ban() == self.without_ban(),
    {
        let mut b = self;
        b.matchers.push(Matcher::Ip { ip_ranges });
        b
    }

    /// With one more limiter, a token bucket.
    pub fn token_bucket(self, capacity: u64, refill_rate: u64) -> (r: Self)
        ensures
            r@ == (RuleDraft {
                limiters: self@.limiters.push(LimiterConfig::TokenBucket { capacity, refill_rate }),
                ..self@
            }),
            r.without_ban() == self.without_ban(),
    {
        let mut b = self;
        b.limiters.push(LimiterConfig::TokenBucket { capacity, refill_rate });
        b
    }

    /// With one more limiter, a fixed window.
    pub fn fixed_window(self, window_size: String, max_requests: u64) -> (r: Self)
        ensures
            r@ == (RuleDraft {
                limiters: self@.limiters.push(LimiterConfig::FixedWindow { window_size, max_requests }),
                ..self@
            }),
            r.without_ban() == self.without_ban(),
    {
        let mut b = self;
        b.limiters.push(LimiterConfig::FixedWindow { window_size, max_requests });
        b
    }

    /// With one more limiter, a sliding window.
    pub fn sliding_window(self, window_size: String, max_requests: u64) -> (r: Self)
        ensures
            r@ == (RuleDraft {
                limiters: self@.limiters.push(
                    LimiterConfig::SlidingWindow { window_size, max_requests },
                ),
                ..self@
            }),
            r.without_ban() == self.without_ban(),
    {
        let mut b = self;
        b.limiters.push(LimiterConfig::SlidingWindow { window_size, max_requests });
        b
    }

    /// With one more limiter, on concurrency.
    pub fn concurrency_limit(self, max_concurrent: u64) -> (r: Self)
        ensures
            r@ == (RuleDraft {
                limiters: self@.limiters.push(LimiterConfig::Concurrency { max_concurrent }),
                ..self@
            }),
            r.without_ban() == self.without_ban(),
    {
        let mut b = self;
        b.limiters.push(LimiterConfig::Concurrency { max_concurrent });
        b
    }

    /// Rejecting on exceeding.
    pub fn on_reject(self) -> (r: Self)
        ensures
            r@ == (RuleDraft { on_exceed: Action::Reject, ..self@ }),
            r.without_ban() == self.without_ban(),
    {
        let mut b = self;
        b.action.on_exceed = Action::Reject;
        b
    }

    /// Allowing on exceeding.
    pub fn on_allow(self) -> (r: Self)
        ensures
            r@ == (RuleDraft { on_exceed: Action::Allow, ..self@ }),
            r.without_ban() == self.without_ban(),
    {
        let mut b = self;
        b.action.on_exceed = Action::Allow;
        b
    }

    /// Degrading on exceeding.
    pub fn on_degrade(self) -> (r: Self)
        ensures
            r@ == (RuleDraft { on_exceed: Action::Degrade, ..self@ }),
            r.without_ban() == self.without_ban(),
    {
        let mut b = self;
        b.action.on_exceed = Action::Degrade;
        b
    }

    /// The rule, once it has an id, a name, a matcher and a limiter.
    pub fn build(self) -> (r: Result<Rule, String>)
        ensures
            self@.id.len() == 0 ==> (r matches Err(m) && m@ == "规则ID不能为空"@),
            self@.id.len() != 0 && self@.name.len() == 0 ==> (r matches Err(m) && m@
                == "规则名称不能为空"@),
            self@.id.len() != 0 && self@.name.len() != 0 && self@.matchers.len() == 0 ==> (
            r matches Err(m) && m@ == "规则至少需要一个匹配器"@),
            self@.id.len() != 0 && self@.name.len() != 0 && self@.matchers.len() != 0
                && self@.limiters.len() == 0 ==> (r matches Err(m) && m@ == "规则至少需要一个限流器"@),
            self@.id.len() != 0 && self@.name.len() != 0 && self@.matchers.len() != 0
                && self@.limiters.len() != 0 ==> (r matches Ok(rule) && rule.id@ == self@.id
                && rule.name@ == self@.name && rule.priority == self@.priority && rule.matchers@
                == self@.matchers && rule.limiters@ == self@.limiters && rule.action.on_exceed
                == self@.on_exceed && (self.without_ban() ==> rule.action.ban is None)),
    {
        if self.id.as_str().is_empty() {
            return Err(String::from_str("规则ID不能为空"));
        }
        if self.name.as_str().is_empty() {
            return Err(String::from_str("规则名称不能为空"));
        }
        if self.matchers.len() == 0 {
            return Err(String::from_str("规则至少需要一个匹配器"));
        }
        if self.limiters.len() == 0 {
            return Err(String::from_str("规则至少需要一个限流器"));
        }
        Ok(
            Rule {
                id: self.id,
                name: self.name,
                priority: self.priority,
                matchers: self.matchers,
                limiters: self.limiters,
                action: self.action,
            },
        )
    }
}

impl Default for RuleBuilder {
    fn default() -> (r: Self)
        ensures
            r@ == (RuleDraft {
                id: Seq::empty(),
                name: Seq::empty(),
                priority: 100,
                matchers: Seq::empty(),
                limiters: Seq::empty(),
                on_exceed: Action::Reject,
            }),
    {
        RuleBuilder::new()
    }
}

/// A configuration in the making.
#[derive(Debug)]
pub struct ConfigBuilder {
    storage: StorageType,
    cache: CacheBackend,
    metrics: MetricsBackend,
    trusted_proxies: TrustedProxyConfig,
    rules: Vec<RuleBuilder>,
}

impl ConfigBuilder {
    /// The backends chosen so far.
    pub closed spec fn backends(&self) -> (StorageType, CacheBackend, MetricsBackend) {
        (self.storage, self.cache, self.metrics)
    }

    /// The proxy trust chosen so far.
    pub closed spec fn proxies(&self) -> TrustedProxyConfig {
        self.trusted_proxies
    }

    /// The rules given so far.
    pub closed spec fn rule_drafts(&self) -> Seq<RuleDraft> {
        Seq::new(self.rules@.len(), |i: int| self.rules@[i]@)
    }

    /// Memory storage and cache, Prometheus metrics, no trusted proxy, no
    /// rule.
    pub fn new() -> (r: Self)
        ensures
            r.backends() == (StorageType::Memory, CacheBackend::Memory, MetricsBackend::Prometheus),
            !r.proxies().enabled,
            r.proxies().proxies@.len() == 0,
            r.proxies().max_hops == crate::config::global::DEFAULT_MAX_HOPS,
            r.rule_drafts().len() == 0,
    {
        ConfigBuilder {
            storage: StorageType::Memory,
            cache: CacheBackend::Memory,
            metrics: MetricsBackend::Prometheus,
            trusted_proxies: TrustedProxyConfig::default(),
            rules: Vec::new(),
        }
    }

    /// With this storage.
    pub fn with_storage(self, storage: StorageType) -> (r: Self)
        ensures
            r.backends() == (storage, self.backends().1, self.backends().2),
            r.proxies() == self.proxies(),
            r.rule_drafts() == self.rule_drafts(),
    {
        let mut b = self;
        b.storage = storage;
        b
    }

    /// With this cache.
    pub fn with_cache(self, cache: CacheBackend) -> (r: Self)
        ensures
            r.backends() == (self.backends().0, cache, self.backends().2),
            r.proxies() == self.proxies(),
            r.rule_drafts() == self.rule_drafts(),
    {
        let mut b = self;
        b.cache = cache;
        b
    }

    /// With these metrics.
    pub fn with_metrics(self, metrics: MetricsBackend) -> (r: Self)
        ensures
            r.backends() == (self.backends().0, self.backends().1, metrics),
            r.proxies() == self.proxies(),
            r.rule_drafts() == self.rule_drafts(),
    {
        let mut b = self;
        b.metrics = metrics;
        b
    }

    /// With this proxy trust.
    pub fn with_trusted_proxies(self, config: TrustedProxyConfig) -> (r: Self)
        ensures
            r.backends() == self.backends(),
            r.proxies() == config,
            r.rule_drafts() == self.rule_drafts(),
    {
        let mut b = self;
        b.trusted_proxies = config;
        b
    }

    /// With one more rule, made by `f` from a fresh rule builder.
    pub fn with_rule<F: FnOnce(RuleBuilder) -> RuleBuilder>(self, f: F) -> (r: Self)
        requires
            forall|b: RuleBuilder| call_requires(f, (b,)),
        ensures
            r.backends() == self.backends(),
            r.proxies() == self.proxies(),
            r.rule_drafts().len() == self.rule_drafts().len() + 1,
            forall|i: int| 0 <= i < self.rule_drafts().len() ==> r.rule_drafts()[i] == self.rule_drafts()[i],
    {
        let mut b = self;
        let rule = f(RuleBuilder::new());
        b.rules.push(rule);
        b
    }

    /// The configuration: every rule built, at least one rule, and the
    /// whole validated; each failure becomes a configuration error.
    pub fn build(self) -> (r: Result<FlowControlConfig, LimiteronError>)
        ensures
            self.rule_drafts().len() == 0 ==> (r matches Err(LimiteronError::ConfigError(m)) && m@
                == "至少需要一个规则"@),
            r matches Ok(c) ==> c.version@ == "0.1.0"@ && c.global.storage == self.backends().0
                && c.global.cache == self.backends().1 && c.global.metrics == self.backends().2
                && c.global.trusted_proxies == self.proxies()
                && c.rules@.len() == self.rule_drafts().len(),
    {
        let ghost drafts = self.rule_drafts();
        let mut pending = self.rules;
        let mut rules: Vec<Rule> = Vec::new();
        while pending.len() > 0
            invariant
                rules@.len() + pending@.len() == drafts.len(),
                drafts == self.rule_drafts(),
            decreases pending@.len(),
        {
            let rb = pending.remove(0);
            match rb.build() {
                Ok(rule) => rules.push(rule),
                Err(e) => return Err(LimiteronError::ConfigError(e)),
            }
        }
        if rules.len() == 0 {
            return Err(LimiteronError::ConfigError(String::from_str("至少需要一个规则")));
        }
        let config = FlowControlConfig {
            version: String::from_str("0.1.0"),
            global: GlobalConfig {
                storage: self.storage,
                cache: self.cache,
                metrics: self.metrics,
                trusted_proxies: self.trusted_proxies,
            },
            rules,
        };
        match config.validate() {
            Ok(()) => Ok(config),
            Err(m) => Err(LimiteronError::ConfigError(m)),
        }
    }
}

impl Default for ConfigBuilder {
    fn default() -> (r: Self)
        ensures
            r.backends() == (StorageType::Memory, CacheBackend::Memory, MetricsBackend::Prometheus),
            r.rule_drafts().len() == 0,
    {
        ConfigBuilder::new()
    }
}

} // verus!
