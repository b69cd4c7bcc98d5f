//! Limiter settings and window sizes.

use vstd::prelude::*;

use crate::config::names::QuotaType;
use crate::json::JsonValue;
use crate::text::{
    chars_of, concat_str, decimal, is_alphabetic, parse_u64, spec_is_alphabetic, spec_parse_u64,
    spec_to_lowercase, spec_trim, str_eq, string_from_chars, to_lowercase, trim_chars, u64_to_string,
};
use crate::time::Duration;

verus! {

/// Borrowing beyond a quota.
#[derive(Debug, Clone, Copy, PartialEq, Eq, Structural)]
pub struct OverdraftConfig {
    /// Whether borrowing is allowed.
    pub enabled: bool,
    /// How much may be borrowed.
    pub max_overdraft: u64,
}

impl OverdraftConfig {
    /// Enabled borrowing needs a positive maximum.
    pub fn validate(&self) -> (r: Result<(), String>)
        ensures
            r is Ok <==> !(self.enabled && self.max_overdraft == 0),
            r matches Err(m) ==> m@ == "Overdraft enabled: max overdraft cannot be 0"@,
    {
        if self.enabled && self.max_overdraft == 0 {
            return Err(String::from_str("Overdraft enabled: max overdraft cannot be 0"));
        }
        Ok(())
    }
}

/// The settings of one limiter.
#[derive(Debug, PartialEq)]
pub enum LimiterConfig {
    TokenBucket { capacity: u64, refill_rate: u64 },
    SlidingWindow { window_size: String, max_requests: u64 },
    FixedWindow { window_size: String, max_requests: u64 },
    Quota {
        quota_type: QuotaType,
        limit: u64,
        window: String,
        alert_threshold: Option<u8>,
        overdraft: Option<OverdraftConfig>,
    },
    Concurrency { max_concurrent: u64 },
    Custom { name: String, config: JsonValue },
}

/// Index of the first alphabetic character at or after `i`, or the length.
pub open spec fn alpha_index(s: Seq<char>, i: int) -> int
    decreases s.len() - i,
{
    if i >= s.len() || spec_is_alphabetic(s[i]) {
        i
    } else {
        alpha_index(s, i + 1)
    }
}

pub open spec fn is_millis_unit(u: Seq<char>) -> bool {
    u == "ms"@ || u == "millisecond"@ || u == "milliseconds"@
}

pub open spec fn is_seconds_unit(u: Seq<char>) -> bool {
    u == "s"@ || u == "sec"@ || u == "second"@ || u == "seconds"@
}

pub open spec fn is_minutes_unit(u: Seq<char>) -> bool {
    u == "m"@ || u == "min"@ || u == "minute"@ || u == "minutes"@
}

pub open spec fn is_hours_unit(u: Seq<char>) -> bool {
    u == "h"@ || u == "hr"@ || u == "hour"@ || u == "hours"@
}

pub open spec fn is_days_unit(u: Seq<char>) -> bool {
    u == "d"@ || u == "day"@ || u == "days"@
}

/// `n` seconds times `factor`, as nanoseconds, unless the seconds overflow
/// 64 bits.
pub open spec fn spec_mul_secs(n: u64, factor: u64) -> Result<nat, Seq<char>> {
    if n * factor > u64::MAX {
        Err("窗口大小溢出: "@ + decimal(n as nat) + " * "@ + decimal(factor as nat))
    } else {
        Ok((n * factor * 1_000_000_000) as nat)
    }
}

/// A window size: a positive whole number and a unit (milliseconds,
/// seconds, minutes, hours or days, in short or long form, in any case),
/// with spaces allowed around both; the result is the length in
/// nanoseconds, or the message of the first thing wrong.
pub open spec fn spec_parse_window_size(s: Seq<char>) -> Result<nat, Seq<char>> {
    let t = spec_trim(s);
    let k = alpha_index(t, 0);
    let num = spec_trim(t.take(k));
    let unit = spec_to_lowercase(spec_trim(t.skip(k)));
    if t.len() == 0 {
        Err("窗口大小不能为空"@)
    } else if num.len() == 0 {
        Err("窗口大小格式错误：缺少数字部分"@)
    } else if unit.len() == 0 {
        Err("窗口大小格式错误：缺少单位"@)
    } else {
        match spec_parse_u64(num) {
            None => Err("无效的数字格式: "@ + num),
            Some(n) => if n == 0 {
                Err("窗口大小必须大于0"@)
            } else if is_millis_unit(unit) {
                Ok((n * 1_000_000) as nat)
            } else if is_seconds_unit(unit) {
                Ok((n * 1_000_000_000) as nat)
            } else if is_minutes_unit(unit) {
                spec_mul_secs(n, 60)
            } else if is_hours_unit(unit) {
                spec_mul_secs(n, 3600)
            } else if is_days_unit(unit) {
                spec_mul_secs(n, 86400)
            } else {
                Err("不支持的单位: "@ + unit + "。支持的单位: ms, s, m, h, d"@)
            },
        }
    }
}

/// The outcome of parsing a window size agrees with its specification.
pub open spec fn window_result(r: Result<Duration, String>, spec: Result<nat, Seq<char>>) -> bool {
    match spec {
        Ok(ns) => r matches Ok(d) && d@ == ns,
        Err(m) => r matches Err(e) && e@ == m,
    }
}

/// `num * factor` seconds, or the overflow message.
pub fn mul_secs(num: u64, factor: u64) -> (r: Result<Duration, String>)
    ensures
        window_result(r, spec_mul_secs(num, factor)),
{
    match num.checked_mul(factor) {
        Some(secs) => Ok(Duration::from_secs(secs)),
        None => {
            let m = concat_str("窗口大小溢出: ", u64_to_string(num).as_str());
            let m = concat_str(m.as_str(), " * ");
            Err(concat_str(m.as_str(), u64_to_string(factor).as_str()))
        },
    }
}

fn sub_chars(v: &Vec<char>, a: usize, b: usize) -> (r: Vec<char>)
    requires
        a <= b <= v@.len(),
    ensures
        r@ == v@.subrange(a as int, b as int),
{
    let mut out: Vec<char> = Vec::new();
    let mut i = a;
    while i < b
        invariant
            a <= i <= b <= v@.len(),
            out@ == v@.subrange(a as int, i as int),
        decreases b - i,
    {
        out.push(v[i]);
        i = i + 1;
        assert(out@ =~= v@.subrange(a as int, i as int));
    }
    out
}

/// Parses a window size such as `30s`, `5 minutes` or `500ms`.
pub fn parse_window_size(window_size: &str) -> (r: Result<Duration, String>)
    ensures
        window_result(r, spec_parse_window_size(window_size@)),
{
    let all = chars_of(window_size);
    let t = trim_chars(all.as_slice());
    if t.len() == 0 {
        return Err(String::from_str("窗口大小不能为空"));
    }
    let n = t.len();
    let mut k: usize = 0;
    while k < n && !is_alphabetic(t[k])
        invariant
            n == t@.len(),
            k <= n,
            alpha_index(t@, 0) == alpha_index(t@, k as int),
        decreases n - k,
    {
        k = k + 1;
    }
    let num_part = sub_chars(&t, 0, k);
    let unit_part = sub_chars(&t, k, n);
    assert(num_part@ =~= t@.take(k as int));
    assert(unit_part@ =~= t@.skip(k as int));
    let num_chars = trim_chars(num_part.as_slice());
    let unit_trimmed = string_from_chars(trim_chars(unit_part.as_slice()).as_slice());
    let unit = to_lowercase(unit_trimmed.as_str());
    if num_chars.len() == 0 {
        return Err(String::from_str("窗口大小格式错误：缺少数字部分"));
    }
    if unit.as_str().is_empty() {
        return Err(String::from_str("窗口大小格式错误：缺少单位"));
    }
    let num = match parse_u64(num_chars.as_slice()) {
        Some(x) => x,
        None => {
            let shown = string_from_chars(num_chars.as_slice());
            return Err(concat_str("无效的数字格式: ", shown.as_str()));
        },
    };
    if num == 0 {
        return Err(String::from_str("窗口大小必须大于0"));
    }
    let u = unit.as_str();
    if str_eq(u, "ms") || str_eq(u, "millisecond") || str_eq(u, "milliseconds") {
        Ok(Duration::from_millis(num))
    } else if str_eq(u, "s") || str_eq(u, "sec") || str_eq(u, "second") || str_eq(u, "seconds") {
        Ok(Duration::from_secs(num))
    } else if str_eq(u, "m") || str_eq(u, "min") || str_eq(u, "minute") || str_eq(u, "minutes") {
        mul_secs(num, 60)
    } else if str_eq(u, "h") || str_eq(u, "hr") || str_eq(u, "hour") || str_eq(u, "hours") {
        mul_secs(num, 3600)
    } else if str_eq(u, "d") || str_eq(u, "day") || str_eq(u, "days") {
        mul_secs(num, 86400)
    } else {
        let m = concat_str("不支持的单位: ", u);
        Err(concat_str(m.as_str(), "。支持的单位: ms, s, m, h, d"))
    }
}

/// What `LimiterConfig::validate` says of a configuration: the first of
/// its rules that fails, in the order they are checked.
pub open spec fn spec_limiter_error(c: LimiterConfig) -> Option<Seq<char>> {
    match c {
        LimiterConfig::TokenBucket { capacity, refill_rate } => if capacity == 0 {
            Some("Token bucket capacity cannot be 0"@)
        } else if refill_rate == 0 {
            Some("Refill rate cannot be 0"@)
        } else {
            None
        },
        LimiterConfig::SlidingWindow { window_size, max_requests } => if max_requests == 0 {
            Some("Max requests cannot be 0"@)
        } else {
            window_error(window_size@)
        },
        LimiterConfig::FixedWindow { window_size, max_requests } => if max_requests == 0 {
            Some("Max requests cannot be 0"@)
        } else {
            window_error(window_size@)
        },
        LimiterConfig::Quota { quota_type, limit, window, alert_threshold, overdraft } => if limit
            == 0 {
            Some("Quota limit cannot be 0"@)
        } else if alert_threshold matches Some(t) && t > 100 {
            Some("Alert threshold cannot exceed 100%"@)
        } else if window_error(window@) is Some {
            window_error(window@)
        } else if overdraft matches Some(o) && o.enabled && o.max_overdraft == 0 {
            Some("Overdraft enabled: max overdraft cannot be 0"@)
        } else {
            None
        },
        LimiterConfig::Concurrency { max_concurrent } => if max_concurrent == 0 {
            Some("Max concurrency cannot be 0"@)
        } else {
            None
        },
        LimiterConfig::Custom { name, config } => if name@.len() == 0 {
            Some("Custom limiter name cannot be empty"@)
        } else if config is Null {
            Some("Custom limiter config cannot be empty"@)
        } else {
            None
        },
    }
}

/// The message of a window size that does not parse.
pub open spec fn window_error(s: Seq<char>) -> Option<Seq<char>> {
    match spec_parse_window_size(s) {
        Ok(_) => None,
        Err(m) => Some(m),
    }
}

/// A validation result agrees with the expected message, if any.
pub open spec fn validation_result(r: Result<(), String>, e: Option<Seq<char>>) -> bool {
    match e {
        None => r is Ok,
        Some(m) => r matches Err(x) && x@ == m,
    }
}

fn check_window(window: &String) -> (r: Result<(), String>)
    ensures
        validation_result(r, window_error(window@)),
{
    match parse_window_size(window.as_str()) {
        Ok(_) => Ok(()),
        Err(e) => Err(e),
    }
}

impl LimiterConfig {
    /// Checks the settings: counts and rates must be positive, window sizes
    /// must parse, an alert threshold is a percentage, borrowing needs a
    /// positive maximum, and a custom limiter needs a name and settings.
    pub fn validate(&self) -> (r: Result<(), String>)
        ensures
            validation_result(r, spec_limiter_error(*self)),
    {
        match self {
            LimiterConfig::TokenBucket { capacity, refill_rate } => {
                if *capacity == 0 {
                    return Err(String::from_str("Token bucket capacity cannot be 0"));
                }
                if *refill_rate == 0 {
                    return Err(String::from_str("Refill rate cannot be 0"));
                }
            },
            LimiterConfig::SlidingWindow { window_size, max_requests } => {
                if *max_requests == 0 {
                    return Err(String::from_str("Max requests cannot be 0"));
                }
                check_window(window_size)?;
            },
            LimiterConfig::FixedWindow { window_size, max_requests } => {
                if *max_requests == 0 {
                    return Err(String::from_str("Max requests cannot be 0"));
                }
                check_window(window_size)?;
            },
            LimiterConfig::Quota { quota_type: _, limit, window, alert_threshold, overdraft } => {
                if *limit == 0 {
                    return Err(String::from_str("Quota limit cannot be 0"));
                }
                if let Some(threshold) = alert_threshold {
                    if *threshold > 100 {
                        return Err(String::from_str("Alert threshold cannot exceed 100%"));
                    }
                }
                check_window(window)?;
                if let Some(o) = overdraft {
                    o.validate()?;
                }
            },
            LimiterConfig::Concurrency { max_concurrent } => {
                if *max_concurrent == 0 {
                    return Err(String::from_str("Max concurrency cannot be 0"));
                }
            },
            LimiterConfig::Custom { name, config } => {
                if name.as_str().is_empty() {
                    return Err(String::from_str("Custom limiter name cannot be empty"));
                }
                if config.is_null() {
                    return Err(String::from_str("Custom limiter config cannot be empty"));
                }
            },
        }
        Ok(())
    }
}


/// The unit decides the length, and every spelling of a unit gives the same
/// length as its short form: for a window size whose number is `n` and
/// whose unit, in lower case, is `u`, milliseconds give `n` ms, seconds
/// `n` s, minutes `n` times 60 s, hours `n` times 3600 s and days `n` times
/// 86400 s (in nanoseconds), and a count of seconds past 64 bits is an
/// error.
pub proof fn law_window_unit_spellings(s: Seq<char>, n: u64, u: Seq<char>)
    requires
        spec_trim(s).len() > 0,
        spec_trim(spec_trim(s).take(alpha_index(spec_trim(s), 0))).len() > 0,
        spec_parse_u64(spec_trim(spec_trim(s).take(alpha_index(spec_trim(s), 0)))) == Some(n),
        n > 0,
        spec_to_lowercase(spec_trim(spec_trim(s).skip(alpha_index(spec_trim(s), 0)))) == u,
    ensures
        u == "ms"@ || u == "millisecond"@ || u == "milliseconds"@ ==> spec_parse_window_size(s) == Ok::<nat, Seq<char>>((n * 1_000_000) as nat),
        u == "s"@ || u == "sec"@ || u == "second"@ || u == "seconds"@ ==> spec_parse_window_size(s) == Ok::<nat, Seq<char>>((n * 1_000_000_000) as nat),
        (u == "m"@ || u == "min"@ || u == "minute"@ || u == "minutes"@) && n * 60 <= u64::MAX ==> spec_parse_window_size(s) == Ok::<nat, Seq<char>>((n * 60 * 1_000_000_000) as nat),
        (u == "h"@ || u == "hr"@ || u == "hour"@ || u == "hours"@) && n * 3600 <= u64::MAX ==> spec_parse_window_size(s) == Ok::<nat, Seq<char>>((n * 3600 * 1_000_000_000) as nat),
        (u == "d"@ || u == "day"@ || u == "days"@) && n * 86400 <= u64::MAX ==> spec_parse_window_size(s) == Ok::<nat, Seq<char>>((n * 86400 * 1_000_000_000) as nat),
        (u == "m"@ || u == "min"@ || u == "minute"@ || u == "minutes"@) && n * 60 > u64::MAX ==> spec_parse_window_size(s) is Err,
        (u == "h"@ || u == "hr"@ || u == "hour"@ || u == "hours"@) && n * 3600 > u64::MAX ==> spec_parse_window_size(s) is Err,
        (u == "d"@ || u == "day"@ || u == "days"@) && n * 86400 > u64::MAX ==> spec_parse_window_size(s) is Err,
{
        reveal_strlit("ms");
        reveal_strlit("millisecond");
        reveal_strlit("milliseconds");
        reveal_strlit("s");
        reveal_strlit("sec");
        reveal_strlit("second");
        reveal_strlit("seconds");
        reveal_strlit("m");
        reveal_strlit("min");
        reveal_strlit("minute");
        reveal_strlit("minutes");
        reveal_strlit("h");
        reveal_strlit("hr");
        reveal_strlit("hour");
        reveal_strlit("hours");
        reveal_strlit("d");
        reveal_strlit("day");
        reveal_strlit("days");
        assert("ms"@.len() == 2 && "ms"@[0] == 'm');
        assert("millisecond"@.len() == 11 && "millisecond"@[0] == 'm');
        assert("milliseconds"@.len() == 12 && "milliseconds"@[0] == 'm');
        assert("s"@.len() == 1 && "s"@[0] == 's');
        assert("sec"@.len() == 3 && "sec"@[0] == 's');
        assert("second"@.len() == 6 && "second"@[0] == 's');
        assert("seconds"@.len() == 7 && "seconds"@[0] == 's');
        assert("m"@.len() == 1 && "m"@[0] == 'm');
        assert("min"@.len() == 3 && "min"@[0] == 'm');
        assert("minute"@.len() == 6 && "minute"@[0] == 'm');
        assert("minutes"@.len() == 7 && "minutes"@[0] == 'm');
        assert("h"@.len() == 1 && "h"@[0] == 'h');
        assert("hr"@.len() == 2 && "hr"@[0] == 'h');
        assert("hour"@.len() == 4 && "hour"@[0] == 'h');
        assert("hours"@.len() == 5 && "hours"@[0] == 'h');
        assert("d"@.len() == 1 && "d"@[0] == 'd');
        assert("day"@.len() == 3 && "day"@[0] == 'd');
        assert("days"@.len() == 4 && "days"@[0] == 'd');
        if is_minutes_unit(u) {
            assert(!is_millis_unit(u) && !is_seconds_unit(u));
            assert(spec_parse_window_size(s) == spec_mul_secs(n, 60));
        }
        if is_hours_unit(u) {
            assert(!is_millis_unit(u) && !is_seconds_unit(u) && !is_minutes_unit(u));
            assert(spec_parse_window_size(s) == spec_mul_secs(n, 3600));
        }
        if is_days_unit(u) {
            assert(!is_millis_unit(u) && !is_seconds_unit(u) && !is_minutes_unit(u) && !is_hours_unit(u));
            assert(spec_parse_window_size(s) == spec_mul_secs(n, 86400));
        }
}

} // verus!
