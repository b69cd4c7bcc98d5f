//! The named choices of a configuration: each has a fixed name, and the
//! names that are read from configuration text are matched in lower case
//! (the limiter kind names exactly).

use vstd::prelude::*;
use vstd::std_specs::convert::FromSpecImpl;

use crate::text::{spec_to_lowercase, str_eq, to_lowercase};

verus! {

/// What to do with a request that exceeds its limits.
#[derive(Debug, Clone, Copy, PartialEq, Eq, Structural, Hash)]
pub enum Action {
    /// Turn it away.
    Reject,
    /// Let it through.
    Allow,
    /// Serve it in a degraded way.
    Degrade,
}

/// The action a name stands for, compared in lower case.
pub open spec fn spec_parse_action(s: Seq<char>) -> Option<Action> {
    let l = spec_to_lowercase(s);
    if l == "reject"@ {
        Some(Action::Reject)
    } else if l == "allow"@ {
        Some(Action::Allow)
    } else if l == "degrade"@ {
        Some(Action::Degrade)
    } else {
        None
    }
}

/// The name of each value.
pub open spec fn spec_action_name(v: Action) -> Seq<char> {
    match v {
        Action::Reject => "reject"@,
        Action::Allow => "allow"@,
        Action::Degrade => "degrade"@,
    }
}

impl Action {
    /// The value a name stands for, in any case.
    pub fn parse(s: &str) -> (r: Option<Self>)
        ensures
            r == spec_parse_action(s@),
    {
        let l = to_lowercase(s);
        let l = l.as_str();
        if str_eq(l, "reject") {
            Some(Action::Reject)
        } else if str_eq(l, "allow") {
            Some(Action::Allow)
        } else if str_eq(l, "degrade") {
            Some(Action::Degrade)
        } else {
            None
        }
    }

    /// The value a name stands for, in any case.
    pub fn from_str(s: &str) -> (r: Option<Self>)
        ensures
            r == spec_parse_action(s@),
    {
        Self::parse(s)
    }

    /// The name of the value.
    pub fn as_str(&self) -> (r: &'static str)
        ensures
            r@ == spec_action_name(*self),
    {
        match self {
            Action::Reject => "reject",
            Action::Allow => "allow",
            Action::Degrade => "degrade",
        }
    }

    /// The name of the value, as an owned string.
    pub fn to_string(&self) -> (r: String)
        ensures
            r@ == spec_action_name(*self),
    {
        String::from_str(self.as_str())
    }
}

impl Default for Action {
    fn default() -> (r: Self)
        ensures
            r == Action::Reject,
    {
        Action::Reject
    }
}

impl<'a> From<&'a str> for Action {
    fn from(s: &'a str) -> (r: Self) {
        match Action::parse(s) {
            Some(v) => v,
            None => Action::Reject,
        }
    }
}

impl<'a> FromSpecImpl<&'a str> for Action {
    open spec fn obeys_from_spec() -> bool {
        true
    }

    /// A name that stands for no value gives the default.
    open spec fn from_spec(s: &'a str) -> Self {
        match spec_parse_action(s@) {
            Some(v) => v,
            None => Action::Reject,
        }
    }
}

/// What a ban applies to.
#[derive(Debug, Clone, Copy, PartialEq, Eq, Structural, Hash)]
pub enum BanScope {
    /// An IP address.
    Ip,
    /// A user.
    User,
    /// A MAC address.
    Mac,
}

/// The ban scope a name stands for, compared in lower case.
pub open spec fn spec_parse_ban_scope(s: Seq<char>) -> Option<BanScope> {
    let l = spec_to_lowercase(s);
    if l == "ip"@ {
        Some(BanScope::Ip)
    } else if l == "user"@ {
        Some(BanScope::User)
    } else if l == "mac"@ {
        Some(BanScope::Mac)
    } else {
        None
    }
}

/// The name of each value.
pub open spec fn spec_ban_scope_name(v: BanScope) -> Seq<char> {
    match v {
        BanScope::Ip => "ip"@,
        BanScope::User => "user"@,
        BanScope::Mac => "mac"@,
    }
}

impl BanScope {
    /// The value a name stands for, in any case.
    pub fn parse(s: &str) -> (r: Option<Self>)
        ensures
            r == spec_parse_ban_scope(s@),
    {
        let l = to_lowercase(s);
        let l = l.as_str();
        if str_eq(l, "ip") {
            Some(BanScope::Ip)
        } else if str_eq(l, "user") {
            Some(BanScope::User)
        } else if str_eq(l, "mac") {
            Some(BanScope::Mac)
        } else {
            None
        }
    }

    /// The value a name stands for, in any case.
    pub fn from_str(s: &str) -> (r: Option<Self>)
        ensures
            r == spec_parse_ban_scope(s@),
    {
        Self::parse(s)
    }

    /// The name of the value.
    pub fn as_str(&self) -> (r: &'static str)
        ensures
            r@ == spec_ban_scope_name(*self),
    {
        match self {
            BanScope::Ip => "ip",
            BanScope::User => "user",
            BanScope::Mac => "mac",
        }
    }

    /// The name of the value, as an owned string.
    pub fn to_string(&self) -> (r: String)
        ensures
            r@ == spec_ban_scope_name(*self),
    {
        String::from_str(self.as_str())
    }
}

impl Default for BanScope {
    fn default() -> (r: Self)
        ensures
            r == BanScope::Ip,
    {
        BanScope::Ip
    }
}

impl<'a> From<&'a str> for BanScope {
    fn from(s: &'a str) -> (r: Self) {
        match BanScope::parse(s) {
            Some(v) => v,
            None => BanScope::Ip,
        }
    }
}

impl<'a> FromSpecImpl<&'a str> for BanScope {
    open spec fn obeys_from_spec() -> bool {
        true
    }

    /// A name that stands for no value gives the default.
    open spec fn from_spec(s: &'a str) -> Self {
        match spec_parse_ban_scope(s@) {
            Some(v) => v,
            None => BanScope::Ip,
        }
    }
}

/// Where limiter state is cached.
#[derive(Debug, Clone, Copy, PartialEq, Eq, Structural, Hash)]
pub enum CacheBackend {
    /// In process memory.
    Memory,
    /// In Redis.
    Redis,
    /// Not cached (named "none").
    Disabled,
}

/// The cache backend a name stands for, compared in lower case.
pub open spec fn spec_parse_cache_backend(s: Seq<char>) -> Option<CacheBackend> {
    let l = spec_to_lowercase(s);
    if l == "memory"@ {
        Some(CacheBackend::Memory)
    } else if l == "redis"@ {
        Some(CacheBackend::Redis)
    } else if l == "none"@ {
        Some(CacheBackend::Disabled)
    } else {
        None
    }
}

/// The name of each value.
pub open spec fn spec_cache_backend_name(v: CacheBackend) -> Seq<char> {
    match v {
        CacheBackend::Memory => "memory"@,
        CacheBackend::Redis => "redis"@,
        CacheBackend::Disabled => "none"@,
    }
}

impl CacheBackend {
    /// The value a name stands for, in any case.
    pub fn parse(s: &str) -> (r: Option<Self>)
        ensures
            r == spec_parse_cache_backend(s@),
    {
        let l = to_lowercase(s);
        let l = l.as_str();
        if str_eq(l, "memory") {
            Some(CacheBackend::Memory)
        } else if str_eq(l, "redis") {
            Some(CacheBackend::Redis)
        } else if str_eq(l, "none") {
            Some(CacheBackend::Disabled)
        } else {
            None
        }
    }

    /// The value a name stands for, in any case.
    pub fn from_str(s: &str) -> (r: Option<Self>)
        ensures
            r == spec_parse_cache_backend(s@),
    {
        Self::parse(s)
    }

    /// The name of the value.
    pub fn as_str(&self) -> (r: &'static str)
        ensures
            r@ == spec_cache_backend_name(*self),
    {
        match self {
            CacheBackend::Memory => "memory",
            CacheBackend::Redis => "redis",
            CacheBackend::Disabled => "none",
        }
    }

    /// The name of the value, as an owned string.
    pub fn to_string(&self) -> (r: String)
        ensures
            r@ == spec_cache_backend_name(*self),
    {
        String::from_str(self.as_str())
    }
}

impl Default for CacheBackend {
    fn default() -> (r: Self)
        ensures
            r == CacheBackend::Memory,
    {
        CacheBackend::Memory
    }
}

impl<'a> From<&'a str> for CacheBackend {
    fn from(s: &'a str) -> (r: Self) {
        match CacheBackend::parse(s) {
            Some(v) => v,
            None => CacheBackend::Memory,
        }
    }
}

impl<'a> FromSpecImpl<&'a str> for CacheBackend {
    open spec fn obeys_from_spec() -> bool {
        true
    }

    /// A name that stands for no value gives the default.
    open spec fn from_spec(s: &'a str) -> Self {
        match spec_parse_cache_backend(s@) {
            Some(v) => v,
            None => CacheBackend::Memory,
        }
    }
}

/// Where metrics are sent.
#[derive(Debug, Clone, Copy, PartialEq, Eq, Structural, Hash)]
pub enum MetricsBackend {
    /// Prometheus.
    Prometheus,
    /// StatsD.
    Statsd,
    /// Nowhere (named "none").
    Disabled,
}

/// The metrics backend a name stands for, compared in lower case.
pub open spec fn spec_parse_metrics_backend(s: Seq<char>) -> Option<MetricsBackend> {
    let l = spec_to_lowercase(s);
    if l == "prometheus"@ {
        Some(MetricsBackend::Prometheus)
    } else if l == "statsd"@ {
        Some(MetricsBackend::Statsd)
    } else if l == "none"@ {
        Some(MetricsBackend::Disabled)
    } else {
        None
    }
}

/// The name of each value.
pub open spec fn spec_metrics_backend_name(v: MetricsBackend) -> Seq<char> {
    match v {
        MetricsBackend::Prometheus => "prometheus"@,
        MetricsBackend::Statsd => "statsd"@,
        MetricsBackend::Disabled => "none"@,
    }
}

impl MetricsBackend {
    /// The value a name stands for, in any case.
    pub fn parse(s: &str) -> (r: Option<Self>)
        ensures
            r == spec_parse_metrics_backend(s@),
    {
        let l = to_lowercase(s);
        let l = l.as_str();
        if str_eq(l, "prometheus") {
            Some(MetricsBackend::Prometheus)
        } else if str_eq(l, "statsd") {
            Some(MetricsBackend::Statsd)
        } else if str_eq(l, "none") {
            Some(MetricsBackend::Disabled)
        } else {
            None
        }
    }

    /// The value a name stands for, in any case.
    pub fn from_str(s: &str) -> (r: Option<Self>)
        ensures
            r == spec_parse_metrics_backend(s@),
    {
        Self::parse(s)
    }

    /// The name of the value.
    pub fn as_str(&self) -> (r: &'static str)
        ensures
            r@ == spec_metrics_backend_name(*self),
    {
        match self {
            MetricsBackend::Prometheus => "prometheus",
            MetricsBackend::Statsd => "statsd",
            MetricsBackend::Disabled => "none",
        }
    }

    /// The name of the value, as an owned string.
    pub fn to_string(&self) -> (r: String)
        ensures
            r@ == spec_metrics_backend_name(*self),
    {
        String::from_str(self.as_str())
    }
}

impl Default for MetricsBackend {
    fn default() -> (r: Self)
        ensures
            r == MetricsBackend::Prometheus,
    {
        MetricsBackend::Prometheus
    }
}

impl<'a> From<&'a str> for MetricsBackend {
    fn from(s: &'a str) -> (r: Self) {
        match MetricsBackend::parse(s) {
            Some(v) => v,
            None => MetricsBackend::Prometheus,
        }
    }
}

impl<'a> FromSpecImpl<&'a str> for MetricsBackend {
    open spec fn obeys_from_spec() -> bool {
        true
    }

    /// A name that stands for no value gives the default.
    open spec fn from_spec(s: &'a str) -> Self {
        match spec_parse_metrics_backend(s@) {
            Some(v) => v,
            None => MetricsBackend::Prometheus,
        }
    }
}

/// Where limiter state is stored.
#[derive(Debug, Clone, Copy, PartialEq, Eq, Structural, Hash)]
pub enum StorageType {
    /// In process memory.
    Memory,
    /// In PostgreSQL.
    PostgreSQL,
    /// In Redis.
    Redis,
}

/// The storage type a name stands for, compared in lower case.
pub open spec fn spec_parse_storage_type(s: Seq<char>) -> Option<StorageType> {
    let l = spec_to_lowercase(s);
    if l == "memory"@ {
        Some(StorageType::Memory)
    } else if l == "postgresql"@ {
        Some(StorageType::PostgreSQL)
    } else if l == "postgres"@ {
        Some(StorageType::PostgreSQL)
    } else if l == "redis"@ {
        Some(StorageType::Redis)
    } else {
        None
    }
}

/// The name of each value.
pub open spec fn spec_storage_type_name(v: StorageType) -> Seq<char> {
    match v {
        StorageType::Memory => "memory"@,
        StorageType::PostgreSQL => "postgresql"@,
        StorageType::Redis => "redis"@,
    }
}

impl StorageType {
    /// The value a name stands for, in any case.
    pub fn parse(s: &str) -> (r: Option<Self>)
        ensures
            r == spec_parse_storage_type(s@),
    {
        let l = to_lowercase(s);
        let l = l.as_str();
        if str_eq(l, "memory") {
            Some(StorageType::Memory)
        } else if str_eq(l, "postgresql") {
            Some(StorageType::PostgreSQL)
        } else if str_eq(l, "postgres") {
            Some(StorageType::PostgreSQL)
        } else if str_eq(l, "redis") {
            Some(StorageType::Redis)
        } else {
            None
        }
    }

    /// The name of the value.
    pub fn as_str(&self) -> (r: &'static str)
        ensures
            r@ == spec_storage_type_name(*self),
    {
        match self {
            StorageType::Memory => "memory",
            StorageType::PostgreSQL => "postgresql",
            StorageType::Redis => "redis",
        }
    }

    /// The name of the value, as an owned string.
    pub fn to_string(&self) -> (r: String)
        ensures
            r@ == spec_storage_type_name(*self),
    {
        String::from_str(self.as_str())
    }
}

impl Default for StorageType {
    fn default() -> (r: Self)
        ensures
            r == StorageType::Memory,
    {
        StorageType::Memory
    }
}

impl<'a> From<&'a str> for StorageType {
    fn from(s: &'a str) -> (r: Self) {
        match StorageType::parse(s) {
            Some(v) => v,
            None => StorageType::Memory,
        }
    }
}

impl<'a> FromSpecImpl<&'a str> for StorageType {
    open spec fn obeys_from_spec() -> bool {
        true
    }

    /// A name that stands for no value gives the default.
    open spec fn from_spec(s: &'a str) -> Self {
        match spec_parse_storage_type(s@) {
            Some(v) => v,
            None => StorageType::Memory,
        }
    }
}

/// What a quota counts.
#[derive(Debug, Clone, Copy, PartialEq, Eq, Structural, Hash)]
pub enum QuotaType {
    /// Tokens.
    Token,
    /// Money.
    Money,
    /// Requests.
    Count,
}

/// The quota type a name stands for, compared in lower case.
pub open spec fn spec_parse_quota_type(s: Seq<char>) -> Option<QuotaType> {
    let l = spec_to_lowercase(s);
    if l == "token"@ {
        Some(QuotaType::Token)
    } else if l == "money"@ {
        Some(QuotaType::Money)
    } else if l == "count"@ {
        Some(QuotaType::Count)
    } else {
        None
    }
}

/// The name of each value.
pub open spec fn spec_quota_type_name(v: QuotaType) -> Seq<char> {
    match v {
        QuotaType::Token => "token"@,
        QuotaType::Money => "money"@,
        QuotaType::Count => "count"@,
    }
}

impl QuotaType {
    /// The value a name stands for, in any case.
    pub fn parse(s: &str) -> (r: Option<Self>)
        ensures
            r == spec_parse_quota_type(s@),
    {
        let l = to_lowercase(s);
        let l = l.as_str();
        if str_eq(l, "token") {
            Some(QuotaType::Token)
        } else if str_eq(l, "money") {
            Some(QuotaType::Money)
        } else if str_eq(l, "count") {
            Some(QuotaType::Count)
        } else {
            None
        }
    }

    /// The name of the value.
    pub fn as_str(&self) -> (r: &'static str)
        ensures
            r@ == spec_quota_type_name(*self),
    {
        match self {
            QuotaType::Token => "token",
            QuotaType::Money => "money",
            QuotaType::Count => "count",
        }
    }

    /// The name of the value, as an owned string.
    pub fn to_string(&self) -> (r: String)
        ensures
            r@ == spec_quota_type_name(*self),
    {
        String::from_str(self.as_str())
    }
}

impl Default for QuotaType {
    fn default() -> (r: Self)
        ensures
            r == QuotaType::Count,
    {
        QuotaType::Count
    }
}

impl<'a> From<&'a str> for QuotaType {
    fn from(s: &'a str) -> (r: Self) {
        match QuotaType::parse(s) {
            Some(v) => v,
            None => QuotaType::Count,
        }
    }
}

impl<'a> FromSpecImpl<&'a str> for QuotaType {
    open spec fn obeys_from_spec() -> bool {
        true
    }

    /// A name that stands for no value gives the default.
    open spec fn from_spec(s: &'a str) -> Self {
        match spec_parse_quota_type(s@) {
            Some(v) => v,
            None => QuotaType::Count,
        }
    }
}

/// The kinds of limiter a configuration can name.
#[derive(Debug, Clone, Copy, PartialEq, Eq, Structural, Hash)]
pub enum LimiterTypeName {
    /// Token bucket.
    TokenBucket,
    /// Sliding window.
    SlidingWindow,
    /// Fixed window.
    FixedWindow,
    /// Concurrency.
    Concurrency,
    /// Quota.
    Quota,
    /// A custom limiter.
    Custom,
}

/// The limiter type name a name stands for, compared exactly.
pub open spec fn spec_parse_limiter_type_name(s: Seq<char>) -> Option<LimiterTypeName> {
    if s == "TokenBucket"@ {
        Some(LimiterTypeName::TokenBucket)
    } else if s == "SlidingWindow"@ {
        Some(LimiterTypeName::SlidingWindow)
    } else if s == "FixedWindow"@ {
        Some(LimiterTypeName::FixedWindow)
    } else if s == "Concurrency"@ {
        Some(LimiterTypeName::Concurrency)
    } else if s == "Quota"@ {
        Some(LimiterTypeName::Quota)
    } else if s == "Custom"@ {
        Some(LimiterTypeName::Custom)
    } else {
        None
    }
}

/// The name of each value.
pub open spec fn spec_limiter_type_name_name(v: LimiterTypeName) -> Seq<char> {
    match v {
        LimiterTypeName::TokenBucket => "TokenBucket"@,
        LimiterTypeName::SlidingWindow => "SlidingWindow"@,
        LimiterTypeName::FixedWindow => "FixedWindow"@,
        LimiterTypeName::Concurrency => "Concurrency"@,
        LimiterTypeName::Quota => "Quota"@,
        LimiterTypeName::Custom => "Custom"@,
    }
}

impl LimiterTypeName {
    /// The value a name stands for.
    pub fn parse(s: &str) -> (r: Option<Self>)
        ensures
            r == spec_parse_limiter_type_name(s@),
    {
        if str_eq(s, "TokenBucket") {
            Some(LimiterTypeName::TokenBucket)
        } else if str_eq(s, "SlidingWindow") {
            Some(LimiterTypeName::SlidingWindow)
        } else if str_eq(s, "FixedWindow") {
            Some(LimiterTypeName::FixedWindow)
        } else if str_eq(s, "Concurrency") {
            Some(LimiterTypeName::Concurrency)
        } else if str_eq(s, "Quota") {
            Some(LimiterTypeName::Quota)
        } else if str_eq(s, "Custom") {
            Some(LimiterTypeName::Custom)
        } else {
            None
        }
    }

    /// The name of the value.
    pub fn as_str(&self) -> (r: &'static str)
        ensures
            r@ == spec_limiter_type_name_name(*self),
    {
        match self {
            LimiterTypeName::TokenBucket => "TokenBucket",
            LimiterTypeName::SlidingWindow => "SlidingWindow",
            LimiterTypeName::FixedWindow => "FixedWindow",
            LimiterTypeName::Concurrency => "Concurrency",
            LimiterTypeName::Quota => "Quota",
            LimiterTypeName::Custom => "Custom",
        }
    }

    /// The name of the value, as an owned string.
    pub fn to_string(&self) -> (r: String)
        ensures
            r@ == spec_limiter_type_name_name(*self),
    {
        String::from_str(self.as_str())
    }
}

} // verus!

verus! {

/// Reading back the name of a value gives the value, for names that lower
/// casing leaves as they are (as it leaves every ASCII lower-case name).
pub proof fn law_action_name_round_trip(v: Action)
    requires
        spec_to_lowercase(spec_action_name(v)) == spec_action_name(v),
    ensures
        spec_parse_action(spec_action_name(v)) == Some(v),
{
    reveal_strlit("reject");
    reveal_strlit("allow");
    reveal_strlit("degrade");
    match v {
        Action::Reject => {  },
        Action::Allow => { assert("allow"@.len() == 5 && "reject"@.len() == 6); },
        Action::Degrade => { assert("degrade"@.len() == 7 && "reject"@.len() == 6); assert("degrade"@.len() == 7 && "allow"@.len() == 5); },
    }
}

/// Reading back the name of a value gives the value, for names that lower
/// casing leaves as they are (as it leaves every ASCII lower-case name).
pub proof fn law_ban_scope_name_round_trip(v: BanScope)
    requires
        spec_to_lowercase(spec_ban_scope_name(v)) == spec_ban_scope_name(v),
    ensures
        spec_parse_ban_scope(spec_ban_scope_name(v)) == Some(v),
{
    reveal_strlit("ip");
    reveal_strlit("user");
    reveal_strlit("mac");
    match v {
        BanScope::Ip => {  },
        BanScope::User => { assert("user"@.len() == 4 && "ip"@.len() == 2); },
        BanScope::Mac => { assert("mac"@.len() == 3 && "ip"@.len() == 2); assert("mac"@.len() == 3 && "user"@.len() == 4); },
    }
}

/// Reading back the name of a value gives the value, for names that lower
/// casing leaves as they are (as it leaves every ASCII lower-case name).
pub proof fn law_cache_backend_name_round_trip(v: CacheBackend)
    requires
        spec_to_lowercase(spec_cache_backend_name(v)) == spec_cache_backend_name(v),
    ensures
        spec_parse_cache_backend(spec_cache_backend_name(v)) == Some(v),
{
    reveal_strlit("memory");
    reveal_strlit("redis");
    reveal_strlit("none");
    match v {
        CacheBackend::Memory => {  },
        CacheBackend::Redis => { assert("redis"@.len() == 5 && "memory"@.len() == 6); },
        CacheBackend::Disabled => { assert("none"@.len() == 4 && "memory"@.len() == 6); assert("none"@.len() == 4 && "redis"@.len() == 5); },
    }
}

/// Reading back the name of a value gives the value, for names that lower
/// casing leaves as they are (as it leaves every ASCII lower-case name).
pub proof fn law_metrics_backend_name_round_trip(v: MetricsBackend)
    requires
        spec_to_lowercase(spec_metrics_backend_name(v)) == spec_metrics_backend_name(v),
    ensures
        spec_parse_metrics_backend(spec_metrics_backend_name(v)) == Some(v),
{
    reveal_strlit("prometheus");
    reveal_strlit("statsd");
    reveal_strlit("none");
    match v {
        MetricsBackend::Prometheus => {  },
        MetricsBackend::Statsd => { assert("statsd"@.len() == 6 && "prometheus"@.len() == 10); },
        MetricsBackend::Disabled => { assert("none"@.len() == 4 && "prometheus"@.len() == 10); assert("none"@.len() == 4 && "statsd"@.len() == 6); },
    }
}

/// Reading back the name of a value gives the value, for names that lower
/// casing leaves as they are (as it leaves every ASCII lower-case name).
pub proof fn law_storage_type_name_round_trip(v: StorageType)
    requires
        spec_to_lowercase(spec_storage_type_name(v)) == spec_storage_type_name(v),
    ensures
        spec_parse_storage_type(spec_storage_type_name(v)) == Some(v),
{
    reveal_strlit("memory");
    reveal_strlit("postgresql");
    reveal_strlit("redis");
    reveal_strlit("postgres");
    match v {
        StorageType::Memory => {  },
        StorageType::PostgreSQL => { assert("postgresql"@.len() == 10 && "memory"@.len() == 6); },
        StorageType::Redis => { assert("redis"@.len() == 5 && "memory"@.len() == 6); assert("redis"@.len() == 5 && "postgresql"@.len() == 10); },
    }
}

/// Reading back the name of a value gives the value, for names that lower
/// casing leaves as they are (as it leaves every ASCII lower-case name).
pub proof fn law_quota_type_name_round_trip(v: QuotaType)
    requires
        spec_to_lowercase(spec_quota_type_name(v)) == spec_quota_type_name(v),
    ensures
        spec_parse_quota_type(spec_quota_type_name(v)) == Some(v),
{
    reveal_strlit("token");
    reveal_strlit("money");
    reveal_strlit("count");
    match v {
        QuotaType::Token => {  },
        QuotaType::Money => { assert("money"@[0] == 'm' && "token"@[0] == 't'); },
        QuotaType::Count => { assert("count"@[0] == 'c' && "token"@[0] == 't'); assert("count"@[0] == 'c' && "money"@[0] == 'm'); },
    }
}

/// Reading back the name of a value gives the value.
pub proof fn law_limiter_type_name_name_round_trip(v: LimiterTypeName)
    ensures
        spec_parse_limiter_type_name(spec_limiter_type_name_name(v)) == Some(v),
{
    reveal_strlit("TokenBucket");
    reveal_strlit("SlidingWindow");
    reveal_strlit("FixedWindow");
    reveal_strlit("Concurrency");
    reveal_strlit("Quota");
    reveal_strlit("Custom");
    match v {
        LimiterTypeName::TokenBucket => {  },
        LimiterTypeName::SlidingWindow => { assert("SlidingWindow"@.len() == 13 && "TokenBucket"@.len() == 11); },
        LimiterTypeName::FixedWindow => { assert("FixedWindow"@[0] == 'F' && "TokenBucket"@[0] == 'T'); assert("FixedWindow"@.len() == 11 && "SlidingWindow"@.len() == 13); },
        LimiterTypeName::Concurrency => { assert("Concurrency"@[0] == 'C' && "TokenBucket"@[0] == 'T'); assert("Concurrency"@.len() == 11 && "SlidingWindow"@.len() == 13); assert("Concurrency"@[0] == 'C' && "FixedWindow"@[0] == 'F'); },
        LimiterTypeName::Quota => { assert("Quota"@.len() == 5 && "TokenBucket"@.len() == 11); assert("Quota"@.len() == 5 && "SlidingWindow"@.len() == 13); assert("Quota"@.len() == 5 && "FixedWindow"@.len() == 11); assert("Quota"@.len() == 5 && "Concurrency"@.len() == 11); },
        LimiterTypeName::Custom => { assert("Custom"@.len() == 6 && "TokenBucket"@.len() == 11); assert("Custom"@.len() == 6 && "SlidingWindow"@.len() == 13); assert("Custom"@.len() == 6 && "FixedWindow"@.len() == 11); assert("Custom"@.len() == 6 && "Concurrency"@.len() == 11); assert("Custom"@.len() == 6 && "Quota"@.len() == 5); },
    }
}

} // verus!
