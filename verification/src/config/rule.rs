//! Rules: which requests they match, which limiters apply, and what to do
//! when a limit is exceeded.

use vstd::prelude::*;

use crate::config::limiter::{spec_limiter_error, validation_result, LimiterConfig};
use crate::config::names::{Action, BanScope};
use crate::json::JsonValue;
use crate::text::{concat_str, decimal, u64_to_string};

verus! {

/// The largest bit pattern of a positive `f64`: positive infinity. Every
/// pattern from 1 up to it is a positive number; zero, negative numbers and
/// NaNs lie outside.
pub const POSITIVE_INFINITY_BITS: u64 = 0x7FF0_0000_0000_0000;

/// Whether the `f64` with these bits is greater than zero.
pub open spec fn is_positive_f64_bits(bits: u64) -> bool {
    0 < bits <= POSITIVE_INFINITY_BITS
}

/// How bans escalate.
#[derive(Debug, Clone, PartialEq)]
pub struct BanConfig {
    /// Violations before a ban.
    pub threshold: u32,
    /// Length of the first ban, as a window size.
    pub initial_duration: String,
    /// Factor by which each ban is longer than the one before, as the bits
    /// of an `f64`.
    pub backoff_multiplier_bits: u64,
    /// Longest ban, as a window size.
    pub max_duration: String,
    /// What a ban applies to.
    pub scope: BanScope,
}

/// What `BanConfig::validate` says of a ban configuration.
pub open spec fn spec_ban_error(b: BanConfig) -> Option<Seq<char>> {
    if b.threshold == 0 {
        Some("封禁阈值不能为0"@)
    } else if !is_positive_f64_bits(b.backoff_multiplier_bits) {
        Some("退避倍数必须大于0"@)
    } else {
        None
    }
}

impl BanConfig {
    /// A ban needs a positive threshold and a positive backoff factor.
    pub fn validate(&self) -> (r: Result<(), String>)
        ensures
            validation_result(r, spec_ban_error(*self)),
    {
        if self.threshold == 0 {
            return Err(String::from_str("封禁阈值不能为0"));
        }
        if !(0 < self.backoff_multiplier_bits && self.backoff_multiplier_bits <= POSITIVE_INFINITY_BITS) {
            return Err(String::from_str("退避倍数必须大于0"));
        }
        Ok(())
    }
}

/// What to do when a rule's limits are exceeded.
#[derive(Debug, Clone, PartialEq)]
pub struct ActionConfig {
    /// The action on exceeding.
    pub on_exceed: Action,
    /// Bans, if any.
    pub ban: Option<BanConfig>,
}

/// What `ActionConfig::validate` says.
pub open spec fn spec_action_error(a: ActionConfig) -> Option<Seq<char>> {
    match a.ban {
        Some(b) => spec_ban_error(b),
        None => None,
    }
}

impl ActionConfig {
    /// Valid when its ban, if any, is.
    pub fn validate(&self) -> (r: Result<(), String>)
        ensures
            validation_result(r, spec_action_error(*self)),
    {
        if let Some(ban) = &self.ban {
            ban.validate()?;
        }
        Ok(())
    }
}

impl Default for ActionConfig {
    fn default() -> (r: Self)
        ensures
            r.on_exceed == Action::Reject,
            r.ban is None,
    {
        ActionConfig { on_exceed: Action::Reject, ban: None }
    }
}

/// Which requests a rule applies to.
#[derive(Debug, PartialEq)]
pub enum Matcher {
    User { user_ids: Vec<String> },
    Ip { ip_ranges: Vec<String> },
    Geo { countries: Vec<String> },
    ApiVersion { versions: Vec<String> },
    Device { device_types: Vec<String> },
    Custom { name: String, config: JsonValue },
}

/// What `Matcher::validate` says of a matcher.
pub open spec fn spec_matcher_error(m: Matcher) -> Option<Seq<char>> {
    match m {
        Matcher::User { user_ids } => if user_ids@.len() == 0 {
            Some("用户ID列表不能为空"@)
        } else {
            None
        },
        Matcher::Ip { ip_ranges } => if ip_ranges@.len() == 0 {
            Some("IP范围列表不能为空"@)
        } else {
            None
        },
        Matcher::Geo { countries } => if countries@.len() == 0 {
            Some("国家列表不能为空"@)
        } else {
            None
        },
        Matcher::ApiVersion { versions } => if versions@.len() == 0 {
            Some("API版本列表不能为空"@)
        } else {
            None
        },
        Matcher::Device { device_types } => if device_types@.len() == 0 {
            Some("设备类型列表不能为空"@)
        } else {
            None
        },
        Matcher::Custom { name, config } => if name@.len() == 0 {
            Some("自定义匹配器名称不能为空"@)
        } else if config is Null {
            Some("自定义匹配器配置不能为空"@)
        } else {
            None
        },
    }
}

impl Matcher {
    /// Every list must hold something; a custom matcher needs a name and
    /// settings.
    pub fn validate(&self) -> (r: Result<(), String>)
        ensures
            validation_result(r, spec_matcher_error(*self)),
    {
        match self {
            Matcher::User { user_ids } => {
                if user_ids.len() == 0 {
                    return Err(String::from_str("用户ID列表不能为空"));
                }
            },
            Matcher::Ip { ip_ranges } => {
                if ip_ranges.len() == 0 {
                    return Err(String::from_str("IP范围列表不能为空"));
                }
            },
            Matcher::Geo { countries } => {
                if countries.len() == 0 {
                    return Err(String::from_str("国家列表不能为空"));
                }
            },
            Matcher::ApiVersion { versions } => {
                if versions.len() == 0 {
                    return Err(String::from_str("API版本列表不能为空"));
                }
            },
            Matcher::Device { device_types } => {
                if device_types.len() == 0 {
                    return Err(String::from_str("设备类型列表不能为空"));
                }
            },
            Matcher::Custom { name, config } => {
                if name.as_str().is_empty() {
                    return Err(String::from_str("自定义匹配器名称不能为空"));
                }
                if config.is_null() {
                    return Err(String::from_str("自定义匹配器配置不能为空"));
                }
            },
        }
        Ok(())
    }
}

/// Index of the first present error at or after `i`, or the length.
pub open spec fn first_error_index(errs: Seq<Option<Seq<char>>>, i: int) -> int
    decreases errs.len() - i,
{
    if i >= errs.len() || errs[i] is Some {
        i
    } else {
        first_error_index(errs, i + 1)
    }
}

/// The first error of a list, labelled with its position: `label[i]: error`.
pub open spec fn first_indexed_error(errs: Seq<Option<Seq<char>>>, label: Seq<char>) -> Option<
    Seq<char>,
> {
    let k = first_error_index(errs, 0);
    if 0 <= k < errs.len() {
        Some(label + "["@ + decimal(k as nat) + "]: "@ + errs[k]->Some_0)
    } else {
        None
    }
}

/// A limiting rule.
#[derive(Debug, PartialEq)]
pub struct Rule {
    /// Identifier, unique in a configuration.
    pub id: String,
    /// Display name.
    pub name: String,
    /// Priority; higher applies first.
    pub priority: u16,
    /// Which requests the rule applies to.
    pub matchers: Vec<Matcher>,
    /// The limits applied.
    pub limiters: Vec<LimiterConfig>,
    /// What to do on exceeding.
    pub action: ActionConfig,
}

/// The errors of the matchers, in order.
pub open spec fn matcher_errors(ms: Seq<Matcher>) -> Seq<Option<Seq<char>>> {
    Seq::new(ms.len(), |i: int| spec_matcher_error(ms[i]))
}

/// The errors of the limiters, in order.
pub open spec fn limiter_errors(ls: Seq<LimiterConfig>) -> Seq<Option<Seq<char>>> {
    Seq::new(ls.len(), |i: int| spec_limiter_error(ls[i]))
}

/// What `Rule::validate` says of a rule.
pub open spec fn spec_rule_error(r: Rule) -> Option<Seq<char>> {
    if r.id@.len() == 0 {
        Some("规则ID不能为空"@)
    } else if r.name@.len() == 0 {
        Some("规则名称不能为空"@)
    } else if r.matchers@.len() == 0 {
        Some("规则至少需要一个匹配器"@)
    } else if r.limiters@.len() == 0 {
        Some("规则至少需要一个限流器"@)
    } else if first_indexed_error(matcher_errors(r.matchers@), "匹配器"@) is Some {
        first_indexed_error(matcher_errors(r.matchers@), "匹配器"@)
    } else if first_indexed_error(limiter_errors(r.limiters@), "限流器"@) is Some {
        first_indexed_error(limiter_errors(r.limiters@), "限流器"@)
    } else {
        spec_action_error(r.action)
    }
}

/// `label[index]: message`.
pub fn indexed_message(label: &str, index: usize, message: &str) -> (r: String)
    ensures
        r@ == label@ + "["@ + decimal(index as nat) + "]: "@ + message@,
{
    let m = concat_str(label, "[");
    let m = concat_str(m.as_str(), u64_to_string(index as u64).as_str());
    let m = concat_str(m.as_str(), "]: ");
    concat_str(m.as_str(), message)
}

impl Rule {
    /// A rule needs an id, a name, at least one matcher and one limiter, all
    /// valid, and a valid action; the first problem found is reported, with
    /// the position of a failing matcher or limiter.
    pub fn validate(&self) -> (r: Result<(), String>)
        ensures
            validation_result(r, spec_rule_error(*self)),
    {
        if self.id.as_str().is_empty() {
            return Err(String::from_str("规则ID不能为空"));
        }
        if self.name.as_str().is_empty() {
            return Err(String::from_str("规则名称不能为空"));
        }
        if self.matchers.len() == 0 {
            return Err(String::from_str("规则至少需要一个匹配器"));
        }
        if self.limiters.len() == 0 {
            return Err(String::from_str("规则至少需要一个限流器"));
        }
        let ghost me = matcher_errors(self.matchers@);
        let n = self.matchers.len();
        let mut i: usize = 0;
        while i < n
            invariant
                n == self.matchers@.len(),
                me == matcher_errors(self.matchers@),
                i <= n,
                self.id@.len() != 0 && self.name@.len() != 0,
                self.matchers@.len() != 0 && self.limiters@.len() != 0,
                first_error_index(me, 0) == first_error_index(me, i as int),
            decreases n - i,
        {
            assert(me[i as int] == spec_matcher_error(self.matchers@[i as int]));
            match self.matchers[i].validate() {
                Err(e) => {
                    assert(first_error_index(me, i as int) == i);

                    return Err(indexed_message("匹配器", i, e.as_str()));
                },
                Ok(()) => {},
            }
            i = i + 1;
        }
        let ghost le = limiter_errors(self.limiters@);
        let n = self.limiters.len();
        let mut i: usize = 0;
        while i < n
            invariant
                n == self.limiters@.len(),
                le == limiter_errors(self.limiters@),
                i <= n,
                self.id@.len() != 0 && self.name@.len() != 0,
                self.matchers@.len() != 0 && self.limiters@.len() != 0,
                first_error_index(le, 0) == first_error_index(le, i as int),
                first_indexed_error(matcher_errors(self.matchers@), "匹配器"@) is None,
            decreases n - i,
        {
            assert(le[i as int] == spec_limiter_error(self.limiters@[i as int]));
            match self.limiters[i].validate() {
                Err(e) => {
                    assert(first_error_index(le, i as int) == i);
                    return Err(indexed_message("限流器", i, e.as_str()));
                },
                Ok(()) => {},
            }
            i = i + 1;
        }
        self.action.validate()
    }
}

} // verus!
