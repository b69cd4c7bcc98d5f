//! Recognising devices from User-Agent headers and matching them against
//! conditions. User agents are parsed by the `woothee` crate, custom rules
//! are regular expressions of the `regex` crate, and parsed agents are
//! cached in a `dashmap::DashMap`.

use vstd::prelude::*;

use dashmap::DashMap;

use crate::error::LimiteronError;
use crate::text::{
    chars_of, concat_str, has_char, has_substring, is_alphanumeric, is_ascii_char, longer_than,
    spec_is_alphanumeric, spec_to_lowercase, spec_trim, str_contains, str_eq, str_has_char,
    string_from_chars, to_lowercase, trim_str, utf8_len,
};

verus! {

/// Longest User-Agent accepted, in bytes.
pub const MAX_USER_AGENT_LENGTH: usize = 2048;

/// Most custom rules a matcher takes.
pub const MAX_CUSTOM_RULES_COUNT: usize = 100;

/// Longest regular expression accepted, in bytes.
pub const MAX_REGEX_PATTERN_LENGTH: usize = 500;

// ---------------------------------------------------------------------------
// Outside parsers
// ---------------------------------------------------------------------------

/// What `regex::Regex::new` makes of a pattern: nothing when it compiles,
/// else the message of its error.
pub uninterp spec fn spec_regex_error(pattern: Seq<char>) -> Option<Seq<char>>;

/// Whether the `regex` crate compiles the pattern.
pub open spec fn spec_regex_compiles(pattern: Seq<char>) -> bool {
    spec_regex_error(pattern) is None
}

/// Whether the compiled pattern matches somewhere in the text, as
/// `regex::Regex::is_match` decides.
pub uninterp spec fn spec_regex_is_match(pattern: Seq<char>, text: Seq<char>) -> bool;

/// What `woothee` makes of a User-Agent: category, name, version, OS and OS
/// version, when it recognises the text at all.
pub uninterp spec fn spec_woothee(ua: Seq<char>) -> Option<(Seq<char>, Seq<char>, Seq<char>, Seq<char>, Seq<char>)>;

/// Calls `regex::Regex::new`: `None` when the pattern compiles, else the
/// message of the error; the outcome is named `spec_regex_error`.
#[verifier::external_body]
pub(crate) fn regex_compile_error(pattern: &str) -> (r: Option<String>)
    ensures
        match r {
            Some(m) => spec_regex_error(pattern@) == Some(m@),
            None => spec_regex_error(pattern@) is None,
        },
{
    match regex::Regex::new(pattern) {
        Ok(_) => None,
        Err(e) => Some(e.to_string()),
    }
}

/// Compiles the pattern with `regex::Regex::new`, which must succeed, and
/// calls `Regex::is_match` on the text.
#[verifier::external_body]
pub(crate) fn regex_is_match(pattern: &str, text: &str) -> (r: bool)
    requires
        spec_regex_compiles(pattern@),
    ensures
        r == spec_regex_is_match(pattern@, text@),
{
    match regex::Regex::new(pattern) {
        Ok(re) => re.is_match(text),
        Err(_) => false,
    }
}

/// Calls `woothee::parser::Parser::parse` and hands out the fields the
/// library reads: category, name, version, OS and OS version.
#[verifier::external_body]
pub(crate) fn woothee_parse(ua: &str) -> (r: Option<(String, String, String, String, String)>)
    ensures
        match r {
            Some((c, n, v, o, ov)) => spec_woothee(ua@) == Some((c@, n@, v@, o@, ov@)),
            None => spec_woothee(ua@) is None,
        },
{
    woothee::parser::Parser::new().parse(ua).map(
        |w| (
            w.category.to_string(),
            w.name.to_string(),
            w.version.to_string(),
            w.os.to_string(),
            w.os_version.to_string(),
        ),
    )
}

// ---------------------------------------------------------------------------
// Validation
// ---------------------------------------------------------------------------

/// What `validate_user_agent` says of a User-Agent.
pub open spec fn spec_user_agent_error(ua: Seq<char>) -> Option<Seq<char>> {
    let t = spec_trim(ua);
    if t.len() == 0 {
        Some("User-Agent 不能为空"@)
    } else if utf8_len(t) > MAX_USER_AGENT_LENGTH {
        Some("User-Agent 长度超过限制（最大 2048 字符）"@)
    } else if has_char(t, '\0') {
        Some("User-Agent 包含无效字符"@)
    } else {
        None
    }
}

/// The configuration error carrying `m`, if any.
pub open spec fn config_error_result(r: Result<(), LimiteronError>, e: Option<Seq<char>>) -> bool {
    match e {
        None => r is Ok,
        Some(m) => r matches Err(LimiteronError::ConfigError(x)) && x@ == m,
    }
}

/// A User-Agent must hold something besides spaces, fit in the length
/// limit, and hold no NUL character.
pub fn validate_user_agent(user_agent: &str) -> (r: Result<(), LimiteronError>)
    ensures
        config_error_result(r, spec_user_agent_error(user_agent@)),
{
    let trimmed = trim_str(user_agent);
    let t = trimmed.as_str();
    if t.is_empty() {
        return Err(LimiteronError::ConfigError(String::from_str("User-Agent 不能为空")));
    }
    if longer_than(t, MAX_USER_AGENT_LENGTH) {
        return Err(
            LimiteronError::ConfigError(String::from_str("User-Agent 长度超过限制（最大 2048 字符）")),
        );
    }
    if str_has_char(t, '\0') {
        return Err(LimiteronError::ConfigError(String::from_str("User-Agent 包含无效字符")));
    }
    Ok(())
}

/// The deepest nesting of parentheses reached reading `s` from the start;
/// an unmatched `)` is ignored.
pub open spec fn paren_depths(s: Seq<char>) -> (int, int)
    decreases s.len(),
{
    if s.len() == 0 {
        (0, 0)
    } else {
        let (d, m) = paren_depths(s.drop_last());
        let c = s.last();
        if c == '(' {
            (d + 1, if d + 1 > m {
                d + 1
            } else {
                m
            })
        } else if c == ')' && d > 0 {
            (d - 1, m)
        } else {
            (d, m)
        }
    }
}

/// Patterns known to make backtracking explode.
pub open spec fn dangerous_patterns() -> Seq<Seq<char>> {
    seq!["(.+)+"@, "(.+)*"@, "(.+){2,}"@, "([a-z]+)+"@, "([a-z]+)*"@, ".*.*.*"@]
}

/// Index of the first dangerous pattern that occurs in `p`, from `i` on;
/// the number of patterns when none does.
pub open spec fn first_dangerous(p: Seq<char>, i: int) -> int
    decreases 6 - i,
{
    if i >= 6 || has_substring(p, dangerous_patterns()[i]) {
        i
    } else {
        first_dangerous(p, i + 1)
    }
}

/// What `validate_regex_pattern` says of a pattern, besides compiling it.
pub open spec fn spec_regex_pattern_error(p: Seq<char>) -> Option<Seq<char>> {
    let k = first_dangerous(p, 0);
    if p.len() == 0 {
        Some("正则表达式模式不能为空"@)
    } else if utf8_len(p) > MAX_REGEX_PATTERN_LENGTH {
        Some("正则表达式模式长度超过限制（最大 500 字符）"@)
    } else if paren_depths(p).1 > 10 {
        Some("正则表达式嵌套深度过大（最大 10）"@)
    } else if k < 6 {
        Some("正则表达式包含危险模式: "@ + dangerous_patterns()[k])
    } else {
        None
    }
}

fn max_paren_depth(p: &str) -> (r: u64)
    ensures
        r == paren_depths(p@).1,
{
    let v = chars_of(p);
    let n = v.len();
    let mut depth: u64 = 0;
    let mut max_depth: u64 = 0;
    let mut i: usize = 0;
    while i < n
        invariant
            n == v@.len(),
            v@ == p@,
            i <= n,
            (depth as int, max_depth as int) == paren_depths(v@.take(i as int)),
            depth <= i,
            max_depth <= i,
        decreases n - i,
    {
        assert(v@.take(i + 1).drop_last() =~= v@.take(i as int));
        let c = v[i];
        if c == '(' {
            depth = depth + 1;
            if depth > max_depth {
                max_depth = depth;
            }
        } else if c == ')' {
            if depth > 0 {
                depth = depth - 1;
            }
        }
        i = i + 1;
    }
    assert(v@.take(n as int) =~= v@);
    max_depth
}

fn dangerous_pattern(i: usize) -> (r: &'static str)
    requires
        i < 6,
    ensures
        r@ == dangerous_patterns()[i as int],
{
    if i == 0 {
        "(.+)+"
    } else if i == 1 {
        "(.+)*"
    } else if i == 2 {
        "(.+){2,}"
    } else if i == 3 {
        "([a-z]+)+"
    } else if i == 4 {
        "([a-z]+)*"
    } else {
        ".*.*.*"
    }
}

/// A regular expression must be nonempty, fit in the length limit, nest
/// parentheses at most ten deep, hold none of the patterns that make
/// backtracking explode, and compile.
pub fn validate_regex_pattern(pattern: &str) -> (r: Result<(), LimiteronError>)
    ensures
        spec_regex_pattern_error(pattern@) is Some ==> config_error_result(
            r,
            spec_regex_pattern_error(pattern@),
        ),
        spec_regex_pattern_error(pattern@) is None ==> (r is Ok <==> spec_regex_compiles(pattern@)),
        spec_regex_pattern_error(pattern@) is None && !spec_regex_compiles(pattern@) ==> (r matches Err(
            LimiteronError::ConfigError(m),
        ) && m@ == "无效的正则表达式: "@ + spec_regex_error(pattern@)->Some_0),
{
    if pattern.is_empty() {
        return Err(LimiteronError::ConfigError(String::from_str("正则表达式模式不能为空")));
    }
    if longer_than(pattern, MAX_REGEX_PATTERN_LENGTH) {
        return Err(
            LimiteronError::ConfigError(String::from_str("正则表达式模式长度超过限制（最大 500 字符）")),
        );
    }
    if max_paren_depth(pattern) > 10 {
        return Err(LimiteronError::ConfigError(String::from_str("正则表达式嵌套深度过大（最大 10）")));
    }
    let mut i: usize = 0;
    while i < 6
        invariant
            i <= 6,
            pattern@.len() != 0,
            utf8_len(pattern@) <= MAX_REGEX_PATTERN_LENGTH,
            paren_depths(pattern@).1 <= 10,
            first_dangerous(pattern@, 0) == first_dangerous(pattern@, i as int),
        decreases 6 - i,
    {
        let d = dangerous_pattern(i);
        if str_contains(pattern, d) {
            assert(first_dangerous(pattern@, i as int) == i);
            return Err(LimiteronError::ConfigError(concat_str("正则表达式包含危险模式: ", d)));
        }
        i = i + 1;
    }
    match regex_compile_error(pattern) {
        None => Ok(()),
        Some(e) => {
            let m = concat_str("无效的正则表达式: ", e.as_str());
            Err(LimiteronError::ConfigError(m))
        },
    }
}

/// The punctuation kept in a User-Agent besides ASCII and alphanumerics.
pub open spec fn is_kept_punctuation(c: char) -> bool {
    has_char(" -./:;()[]{}@"@, c)
}

/// Whether a character stays in a cleaned User-Agent: ASCII,
/// alphanumeric, or one of the kept punctuation marks.
pub open spec fn keeps_char(c: char) -> bool {
    is_ascii_char(c) || spec_is_alphanumeric(c) || is_kept_punctuation(c)
}

/// The characters that stay, in order.
pub open spec fn spec_sanitize(s: Seq<char>) -> Seq<char>
    decreases s.len(),
{
    if s.len() == 0 {
        Seq::empty()
    } else {
        let prev = spec_sanitize(s.drop_last());
        if keeps_char(s.last()) {
            prev.push(s.last())
        } else {
            prev
        }
    }
}

/// Keeps the characters that are ASCII, alphanumeric or kept punctuation.
pub fn sanitize_user_agent(user_agent: &str) -> (r: String)
    ensures
        r@ == spec_sanitize(user_agent@),
{
    let v = chars_of(user_agent);
    let n = v.len();
    let mut out: Vec<char> = Vec::new();
    let mut i: usize = 0;
    while i < n
        invariant
            n == v@.len(),
            v@ == user_agent@,
            i <= n,
            out@ == spec_sanitize(v@.take(i as int)),
        decreases n - i,
    {
        assert(v@.take(i + 1).drop_last() =~= v@.take(i as int));
        let c = v[i];
        if (c as u32) < 128 || is_alphanumeric(c) || str_has_char(" -./:;()[]{}@", c) {
            out.push(c);
        }
        i = i + 1;
    }
    assert(v@.take(n as int) =~= v@);
    string_from_chars(out.as_slice())
}

// ---------------------------------------------------------------------------
// Devices
// ---------------------------------------------------------------------------

/// The kinds of device.
#[derive(Debug, Clone, Copy, PartialEq, Eq, Structural, Hash)]
pub enum DeviceType {
    Mobile,
    Desktop,
    Tablet,
    API,
    Unknown,
}

/// The device kind a name stands for, in any case.
pub open spec fn spec_device_type_of(s: Seq<char>) -> DeviceType {
    let l = spec_to_lowercase(s);
    if l == "mobile"@ || l == "smartphone"@ {
        DeviceType::Mobile
    } else if l == "desktop"@ || l == "pc"@ {
        DeviceType::Desktop
    } else if l == "tablet"@ || l == "ipad"@ {
        DeviceType::Tablet
    } else if l == "api"@ || l == "bot"@ || l == "crawler"@ {
        DeviceType::API
    } else {
        DeviceType::Unknown
    }
}

/// The name of each device kind.
pub open spec fn spec_device_type_name(t: DeviceType) -> Seq<char> {
    match t {
        DeviceType::Mobile => "mobile"@,
        DeviceType::Desktop => "desktop"@,
        DeviceType::Tablet => "tablet"@,
        DeviceType::API => "api"@,
        DeviceType::Unknown => "unknown"@,
    }
}

impl DeviceType {
    /// The device kind a name stands for; unknown names give `Unknown`.
    pub fn from_str(s: &str) -> (r: Self)
        ensures
            r == spec_device_type_of(s@),
    {
        let l = to_lowercase(s);
        let l = l.as_str();
        if str_eq(l, "mobile") || str_eq(l, "smartphone") {
            DeviceType::Mobile
        } else if str_eq(l, "desktop") || str_eq(l, "pc") {
            DeviceType::Desktop
        } else if str_eq(l, "tablet") || str_eq(l, "ipad") {
            DeviceType::Tablet
        } else if str_eq(l, "api") || str_eq(l, "bot") || str_eq(l, "crawler") {
            DeviceType::API
        } else {
            DeviceType::Unknown
        }
    }

    /// The name of the kind.
    pub fn as_str(&self) -> (r: &'static str)
        ensures
            r@ == spec_device_type_name(*self),
    {
        match self {
            DeviceType::Mobile => "mobile",
            DeviceType::Desktop => "desktop",
            DeviceType::Tablet => "tablet",
            DeviceType::API => "api",
            DeviceType::Unknown => "unknown",
        }
    }

    /// The name of the kind, as an owned string.
    pub fn to_string(&self) -> (r: String)
        ensures
            r@ == spec_device_type_name(*self),
    {
        String::from_str(self.as_str())
    }

    /// Phones and tablets.
    pub fn is_mobile(&self) -> (r: bool)
        ensures
            r == (*self == DeviceType::Mobile || *self == DeviceType::Tablet),
    {
        match self {
            DeviceType::Mobile | DeviceType::Tablet => true,
            _ => false,
        }
    }

    /// Desktops.
    pub fn is_desktop(&self) -> (r: bool)
        ensures
            r == (*self == DeviceType::Desktop),
    {
        match self {
            DeviceType::Desktop => true,
            _ => false,
        }
    }

    /// API clients, bots and crawlers.
    pub fn is_api(&self) -> (r: bool)
        ensures
            r == (*self == DeviceType::API),
    {
        match self {
            DeviceType::API => true,
            _ => false,
        }
    }
}

/// What is known of a device.
#[derive(Debug, Clone, PartialEq)]
pub struct DeviceInfo {
    pub device_type: DeviceType,
    pub browser: Option<String>,
    pub browser_version: Option<String>,
    pub os: Option<String>,
    pub os_version: Option<String>,
    pub user_agent: Option<String>,
}

/// The abstract form of an optional text.
pub open spec fn opt_text(o: Option<String>) -> Option<Seq<char>> {
    match o {
        Some(s) => Some(s@),
        None => None,
    }
}

/// The abstract form of device information.
pub struct DeviceInfoView {
    pub device_type: DeviceType,
    pub browser: Option<Seq<char>>,
    pub browser_version: Option<Seq<char>>,
    pub os: Option<Seq<char>>,
    pub os_version: Option<Seq<char>>,
    pub user_agent: Option<Seq<char>>,
}

impl View for DeviceInfo {
    type V = DeviceInfoView;

    open spec fn view(&self) -> DeviceInfoView {
        DeviceInfoView {
            device_type: self.device_type,
            browser: opt_text(self.browser),
            browser_version: opt_text(self.browser_version),
            os: opt_text(self.os),
            os_version: opt_text(self.os_version),
            user_agent: opt_text(self.user_agent),
        }
    }
}

/// Nothing known: unknown kind, no browser, no OS.
pub open spec fn empty_info() -> DeviceInfoView {
    DeviceInfoView {
        device_type: DeviceType::Unknown,
        browser: None,
        browser_version: None,
        os: None,
        os_version: None,
        user_agent: None,
    }
}

/// The text, or nothing.
pub open spec fn text_or_empty(o: Option<Seq<char>>) -> Seq<char> {
    match o {
        Some(s) => s,
        None => Seq::empty(),
    }
}

/// A one-line description of a device.
pub open spec fn spec_description(i: DeviceInfoView) -> Seq<char> {
    let dt = spec_device_type_name(i.device_type);
    if i.device_type == DeviceType::API {
        "API Client"@
    } else {
        match (i.browser, i.os) {
            (Some(b), Some(o)) => b + " "@ + text_or_empty(i.browser_version) + " on "@ + o + " "@
                + text_or_empty(i.os_version),
            (Some(b), None) => b + " "@ + text_or_empty(i.browser_version) + " on "@ + dt,
            (None, Some(o)) => o + " on "@ + dt,
            (None, None) => dt,
        }
    }
}

/// The device kind of a `woothee` category.
pub open spec fn spec_woothee_device_type(category: Seq<char>) -> DeviceType {
    let l = spec_to_lowercase(category);
    if l == "pc"@ {
        DeviceType::Desktop
    } else if l == "smartphone"@ || l == "mobilephone"@ {
        DeviceType::Mobile
    } else if l == "tablet"@ {
        DeviceType::Tablet
    } else if l == "appliance"@ || l == "crawler"@ || l == "misc"@ {
        DeviceType::API
    } else {
        DeviceType::Unknown
    }
}

/// Device information from what `woothee` found; an API client gets no
/// browser or OS.
pub open spec fn spec_from_woothee(
    category: Seq<char>,
    name: Seq<char>,
    version: Seq<char>,
    os: Seq<char>,
    os_version: Seq<char>,
) -> DeviceInfoView {
    let t = spec_woothee_device_type(category);
    if t == DeviceType::API {
        DeviceInfoView { device_type: t, ..empty_info() }
    } else {
        DeviceInfoView {
            device_type: t,
            browser: Some(name),
            browser_version: Some(version),
            os: Some(os),
            os_version: Some(os_version),
            user_agent: None,
        }
    }
}

fn clone_text(o: &Option<String>) -> (r: Option<String>)
    ensures
        opt_text(r) == opt_text(*o),
{
    match o {
        Some(s) => Some(s.clone()),
        None => None,
    }
}

fn text_or_empty_exec(o: &Option<String>) -> (r: &str)
    ensures
        r@ == text_or_empty(opt_text(*o)),
{
    proof {
        reveal_strlit("");
    }
    match o {
        Some(s) => s.as_str(),
        None => "",
    }
}

impl DeviceInfo {
    /// Nothing known.
    pub fn empty() -> (r: Self)
        ensures
            r@ == empty_info(),
    {
        DeviceInfo {
            device_type: DeviceType::Unknown,
            browser: None,
            browser_version: None,
            os: None,
            os_version: None,
            user_agent: None,
        }
    }

    /// Unknown kind, no browser and no OS.
    pub fn is_empty(&self) -> (r: bool)
        ensures
            r == (self.device_type == DeviceType::Unknown && self.browser is None && self.os is None),
    {
        self.device_type == DeviceType::Unknown && self.browser.is_none() && self.os.is_none()
    }

    /// A one-line description: "API Client" for API clients, else browser
    /// and OS with their versions, falling back on the device kind.
    pub fn description(&self) -> (r: String)
        ensures
            r@ == spec_description(self@),
    {
        proof {
            reveal_strlit("");
        }
        let dt = self.device_type.as_str();
        if self.device_type == DeviceType::API {
            return String::from_str("API Client");
        }
        match (&self.browser, &self.os) {
            (Some(b), Some(o)) => {
                let m = concat_str(b.as_str(), " ");
                let m = concat_str(m.as_str(), text_or_empty_exec(&self.browser_version));
                let m = concat_str(m.as_str(), " on ");
                let m = concat_str(m.as_str(), o.as_str());
                let m = concat_str(m.as_str(), " ");
                concat_str(m.as_str(), text_or_empty_exec(&self.os_version))
            },
            (Some(b), None) => {
                let m = concat_str(b.as_str(), " ");
                let m = concat_str(m.as_str(), text_or_empty_exec(&self.browser_version));
                let m = concat_str(m.as_str(), " on ");
                concat_str(m.as_str(), dt)
            },
            (None, Some(o)) => {
                let m = concat_str(o.as_str(), " on ");
                concat_str(m.as_str(), dt)
            },
            (None, None) => String::from_str(dt),
        }
    }

    /// The device kind of a `woothee` category, in any case.
    pub fn map_woothee_device_type(category: &str) -> (r: DeviceType)
        ensures
            r == spec_woothee_device_type(category@),
    {
        let l = to_lowercase(category);
        let l = l.as_str();
        if str_eq(l, "pc") {
            DeviceType::Desktop
        } else if str_eq(l, "smartphone") || str_eq(l, "mobilephone") {
            DeviceType::Mobile
        } else if str_eq(l, "tablet") {
            DeviceType::Tablet
        } else if str_eq(l, "appliance") || str_eq(l, "crawler") || str_eq(l, "misc") {
            DeviceType::API
        } else {
            DeviceType::Unknown
        }
    }

    /// Device information from what `woothee` found.
    pub fn from_woothee(category: &str, name: &str, version: &str, os: &str, os_version: &str) -> (r: Self)
        ensures
            r@ == spec_from_woothee(category@, name@, version@, os@, os_version@),
    {
        let t = Self::map_woothee_device_type(category);
        if t == DeviceType::API {
            let mut i = Self::empty();
            i.device_type = t;
            i
        } else {
            DeviceInfo {
                device_type: t,
                browser: Some(String::from_str(name)),
                browser_version: Some(String::from_str(version)),
                os: Some(String::from_str(os)),
                os_version: Some(String::from_str(os_version)),
                user_agent: None,
            }
        }
    }

    /// A copy with the same contents.
    pub fn duplicate(&self) -> (r: Self)
        ensures
            r@ == self@,
    {
        DeviceInfo {
            device_type: self.device_type,
            browser: clone_text(&self.browser),
            browser_version: clone_text(&self.browser_version),
            os: clone_text(&self.os),
            os_version: clone_text(&self.os_version),
            user_agent: clone_text(&self.user_agent),
        }
    }
}

impl Default for DeviceInfo {
    fn default() -> (r: Self)
        ensures
            r@ == empty_info(),
    {
        DeviceInfo::empty()
    }
}

// ---------------------------------------------------------------------------
// Conditions
// ---------------------------------------------------------------------------

/// Which devices a rule applies to. Only the first nonempty list counts:
/// device kinds, else browsers, else operating systems.
#[derive(Debug, Clone, PartialEq)]
pub struct DeviceCondition {
    pub device_types: Vec<DeviceType>,
    pub browsers: Vec<String>,
    pub os: Vec<String>,
}

/// One text contains the other, ignoring case.
pub open spec fn loosely_matches(x: Seq<char>, y: Seq<char>) -> bool {
    has_substring(spec_to_lowercase(x), spec_to_lowercase(y)) || has_substring(
        spec_to_lowercase(y),
        spec_to_lowercase(x),
    )
}

/// Whether the value is present and loosely matches one of the names.
pub open spec fn matches_any(value: Option<Seq<char>>, names: Seq<String>) -> bool {
    match value {
        Some(v) => exists|k: int| 0 <= k < names.len() && loosely_matches(v, #[trigger] names[k]@),
        None => false,
    }
}

/// Whether a device satisfies a condition.
pub open spec fn spec_condition_matches(c: DeviceCondition, i: DeviceInfoView) -> bool {
    if c.device_types@.len() == 0 && c.browsers@.len() == 0 && c.os@.len() == 0 {
        true
    } else if c.device_types@.len() > 0 {
        c.device_types@.contains(i.device_type)
    } else if c.browsers@.len() > 0 {
        matches_any(i.browser, c.browsers@)
    } else {
        matches_any(i.os, c.os@)
    }
}

fn loosely_matches_exec(x: &str, y: &str) -> (r: bool)
    ensures
        r == loosely_matches(x@, y@),
{
    let lx = to_lowercase(x);
    let ly = to_lowercase(y);
    str_contains(lx.as_str(), ly.as_str()) || str_contains(ly.as_str(), lx.as_str())
}

fn matches_any_exec(value: &Option<String>, names: &Vec<String>) -> (r: bool)
    ensures
        r == matches_any(opt_text(*value), names@),
{
    match value {
        None => false,
        Some(v) => {
            let n = names.len();
            let mut k: usize = 0;
            while k < n
                invariant
                    n == names@.len(),
                    k <= n,
                    opt_text(*value) == Some(v@),
                    forall|j: int| 0 <= j < k ==> !loosely_matches(v@, #[trigger] names@[j]@),
                decreases n - k,
            {
                if loosely_matches_exec(v.as_str(), names[k].as_str()) {
                    assert(loosely_matches(v@, names@[k as int]@));
                    return true;
                }
                k = k + 1;
            }
            false
        },
    }
}

impl DeviceCondition {
    /// A condition every device satisfies.
    pub fn empty() -> (r: Self)
        ensures
            r.device_types@.len() == 0 && r.browsers@.len() == 0 && r.os@.len() == 0,
    {
        DeviceCondition { device_types: Vec::new(), browsers: Vec::new(), os: Vec::new() }
    }

    /// Devices of one of these kinds.
    pub fn device_types(device_types: Vec<DeviceType>) -> (r: Self)
        ensures
            r.device_types@ == device_types@ && r.browsers@.len() == 0 && r.os@.len() == 0,
    {
        DeviceCondition { device_types, browsers: Vec::new(), os: Vec::new() }
    }

    /// Devices with one of these browsers.
    pub fn browsers(browsers: Vec<String>) -> (r: Self)
        ensures
            r.device_types@.len() == 0 && r.browsers@ == browsers@ && r.os@.len() == 0,
    {
        DeviceCondition { device_types: Vec::new(), browsers, os: Vec::new() }
    }

    /// Devices with one of these operating systems.
    pub fn os(os: Vec<String>) -> (r: Self)
        ensures
            r.device_types@.len() == 0 && r.browsers@.len() == 0 && r.os@ == os@,
    {
        DeviceCondition { device_types: Vec::new(), browsers: Vec::new(), os }
    }

    /// No list holds anything.
    pub fn is_empty(&self) -> (r: bool)
        ensures
            r == (self.device_types@.len() == 0 && self.browsers@.len() == 0 && self.os@.len() == 0),
    {
        self.device_types.len() == 0 && self.browsers.len() == 0 && self.os.len() == 0
    }

    /// Whether the device satisfies the condition: an empty condition
    /// always; else by the first nonempty list, device kind exactly,
    /// browser or OS when one contains the other ignoring case.
    pub fn matches(&self, info: &DeviceInfo) -> (r: bool)
        ensures
            r == spec_condition_matches(*self, info@),
    {
        if self.is_empty() {
            return true;
        }
        if self.device_types.len() > 0 {
            let n = self.device_types.len();
            let mut k: usize = 0;
            while k < n
                invariant
                    n == self.device_types@.len(),
                    k <= n,
                    forall|j: int| 0 <= j < k ==> self.device_types@[j] != info.device_type,
                decreases n - k,
            {
                if self.device_types[k] == info.device_type {
                    assert(self.device_types@[k as int] == info.device_type);
                    return true;
                }
                k = k + 1;
            }
            return false;
        }
        if self.browsers.len() > 0 {
            return matches_any_exec(&info.browser, &self.browsers);
        }
        matches_any_exec(&info.os, &self.os)
    }
}

impl Default for DeviceCondition {
    fn default() -> (r: Self)
        ensures
            r.device_types@.len() == 0 && r.browsers@.len() == 0 && r.os@.len() == 0,
    {
        DeviceCondition::empty()
    }
}

/// A condition that lists device kinds accepts a device exactly when its
/// kind is listed, whatever browsers or systems are listed too.
pub proof fn law_device_kind_condition(c: DeviceCondition, i: DeviceInfoView)
    requires
        c.device_types@.len() > 0,
    ensures
        spec_condition_matches(c, i) <==> exists|k: int|
            0 <= k < c.device_types@.len() && #[trigger] c.device_types@[k] == i.device_type,
{
    if c.device_types@.contains(i.device_type) {
        let k = choose|k: int| 0 <= k < c.device_types@.len() && c.device_types@[k] == i.device_type;
        assert(c.device_types@[k] == i.device_type);
    }
}

/// A condition on browsers (no device kinds listed) accepts a device
/// exactly when the device names a browser and, for some listed name, one
/// of the two contains the other, ignoring case: a device whose browser
/// "Chrome Mobile" is accepted by the name "chrome", and a device whose
/// browser is "Edge" by the name "Microsoft Edge".
pub proof fn law_browser_condition_matches_either_containment(c: DeviceCondition, i: DeviceInfoView)
    requires
        c.device_types@.len() == 0,
        c.browsers@.len() > 0,
    ensures
        spec_condition_matches(c, i) <==> (i.browser matches Some(v) && exists|k: int|
            0 <= k < c.browsers@.len() && (has_substring(
                spec_to_lowercase(v),
                spec_to_lowercase(#[trigger] c.browsers@[k]@),
            ) || has_substring(spec_to_lowercase(c.browsers@[k]@), spec_to_lowercase(v)))),
{
}

/// A condition on operating systems (no device kinds or browsers listed)
/// accepts a device exactly when the device names an operating system and,
/// for some listed name, one of the two contains the other, ignoring case:
/// "Windows" accepts a device on "Windows 10".
pub proof fn law_os_condition_matches_either_containment(c: DeviceCondition, i: DeviceInfoView)
    requires
        c.device_types@.len() == 0,
        c.browsers@.len() == 0,
        c.os@.len() > 0,
    ensures
        spec_condition_matches(c, i) <==> (i.os matches Some(v) && exists|k: int|
            0 <= k < c.os@.len() && (has_substring(
                spec_to_lowercase(v),
                spec_to_lowercase(#[trigger] c.os@[k]@),
            ) || has_substring(spec_to_lowercase(c.os@[k]@), spec_to_lowercase(v)))),
{
}

/// The empty condition accepts every device.
pub proof fn law_empty_condition_matches_all(c: DeviceCondition, i: DeviceInfoView)
    requires
        c.device_types@.len() == 0 && c.browsers@.len() == 0 && c.os@.len() == 0,
    ensures
        spec_condition_matches(c, i),
{
}

// ---------------------------------------------------------------------------
// The cache
// ---------------------------------------------------------------------------

#[verifier::external_type_specification]
#[verifier::external_body]
#[verifier::reject_recursive_types(K)]
#[verifier::reject_recursive_types(V)]
#[verifier::reject_recursive_types(S)]
pub struct ExDashMap<K, V, S>(dashmap::DashMap<K, V, S>);

/// What the cache holds: device information by cleaned User-Agent.
pub uninterp spec fn cache_contents(c: DashMap<String, DeviceInfo>) -> Map<Seq<char>, DeviceInfoView>;

/// A cache that holds nothing.
pub open spec fn no_entries() -> Map<Seq<char>, DeviceInfoView> {
    Map::empty()
}

/// Calls `DashMap::new`: an empty cache.
#[verifier::external_body]
fn cache_new() -> (r: DashMap<String, DeviceInfo>)
    ensures
        cache_contents(r) == no_entries(),
{
    DashMap::new()
}

/// Calls `DashMap::get` and copies out the entry found.
#[verifier::external_body]
fn cache_get(c: &DashMap<String, DeviceInfo>, key: &str) -> (r: Option<DeviceInfo>)
    ensures
        match r {
            Some(i) => cache_contents(*c).contains_key(key@) && i@ == cache_contents(*c)[key@],
            None => !cache_contents(*c).contains_key(key@),
        },
{
    c.get(key).map(|e| e.value().clone())
}

/// Calls `DashMap::insert`.
#[verifier::external_body]
fn cache_insert(c: &mut DashMap<String, DeviceInfo>, key: String, value: DeviceInfo)
    ensures
        cache_contents(*final(c)) == cache_contents(*old(c)).insert(key@, value@),
{
    c.insert(key, value);
}

/// Calls `DashMap::remove`.
#[verifier::external_body]
fn cache_remove(c: &mut DashMap<String, DeviceInfo>, key: &str)
    ensures
        cache_contents(*final(c)) == cache_contents(*old(c)).remove(key@),
{
    c.remove(key);
}

/// Calls `DashMap::len`.
#[verifier::external_body]
fn cache_len(c: &DashMap<String, DeviceInfo>) -> (r: usize)
    ensures
        r == cache_contents(*c).dom().len(),
{
    c.len()
}

/// Calls `DashMap::clear`.
#[verifier::external_body]
fn cache_clear(c: &mut DashMap<String, DeviceInfo>)
    ensures
        cache_contents(*final(c)) == no_entries(),
{
    c.clear();
}

/// Walks the cache with `DashMap::iter`, which meets each entry once, and
/// takes the keys of the first `n` entries met: as many keys as `n` or as
/// the cache holds, whichever is less, no two the same, each in the cache.
/// Which entries come first is the map's affair.
#[verifier::external_body]
fn cache_first_keys(c: &DashMap<String, DeviceInfo>, n: usize) -> (r: Vec<String>)
    ensures
        cache_contents(*c).dom().finite() ==> r@.len() == if n < cache_contents(*c).dom().len() {
            n as nat
        } else {
            cache_contents(*c).dom().len()
        },
        forall|i: int, j: int| 0 <= i < j < r@.len() ==> r@[i]@ != r@[j]@,
        forall|i: int| 0 <= i < r@.len() ==> cache_contents(*c).contains_key(#[trigger] r@[i]@),
{
    c.iter().take(n).map(|e| e.key().clone()).collect()
}

// ---------------------------------------------------------------------------
// The matcher
// ---------------------------------------------------------------------------

/// A rule that recognises devices by a regular expression.
#[derive(Debug, Clone)]
struct DeviceCustomRule {
    name: String,
    pattern: String,
    device_type: DeviceType,
    browser: Option<String>,
    os: Option<String>,
}

/// The abstract form of a custom rule.
pub struct CustomRuleView {
    pub name: Seq<char>,
    pub pattern: Seq<char>,
    pub device_type: DeviceType,
    pub browser: Option<Seq<char>>,
    pub os: Option<Seq<char>>,
}

spec fn rule_view(r: DeviceCustomRule) -> CustomRuleView {
    CustomRuleView {
        name: r.name@,
        pattern: r.pattern@,
        device_type: r.device_type,
        browser: opt_text(r.browser),
        os: opt_text(r.os),
    }
}

/// The rules that come with every matcher: curl, wget, Googlebot and
/// Bingbot are API clients.
pub open spec fn default_rules() -> Seq<CustomRuleView> {
    seq![
        CustomRuleView { name: "curl"@, pattern: "^curl/"@, device_type: DeviceType::API, browser: Some("curl"@), os: None },
        CustomRuleView { name: "wget"@, pattern: "^Wget/"@, device_type: DeviceType::API, browser: Some("wget"@), os: None },
        CustomRuleView { name: "googlebot"@, pattern: "Googlebot"@, device_type: DeviceType::API, browser: Some("Googlebot"@), os: None },
        CustomRuleView { name: "bingbot"@, pattern: "Bingbot"@, device_type: DeviceType::API, browser: Some("Bingbot"@), os: None },
    ]
}

/// A rule applies to a cleaned User-Agent when its pattern compiles and
/// matches it.
pub open spec fn rule_applies(r: CustomRuleView, ua: Seq<char>) -> bool {
    spec_regex_compiles(r.pattern) && spec_regex_is_match(r.pattern, ua)
}

/// Index of the first rule that applies, from `i` on; the number of rules
/// when none does.
pub open spec fn first_applying_rule(rules: Seq<CustomRuleView>, ua: Seq<char>, i: int) -> int
    decreases rules.len() - i,
{
    if i >= rules.len() || rule_applies(rules[i], ua) {
        i
    } else {
        first_applying_rule(rules, ua, i + 1)
    }
}

/// The information for a cleaned User-Agent that is not cached: from the
/// first custom rule that applies, else from `woothee`, else empty; the
/// agent is recorded in it.
pub open spec fn spec_fresh_info(rules: Seq<CustomRuleView>, ua: Seq<char>) -> DeviceInfoView {
    let k = first_applying_rule(rules, ua, 0);
    if k < rules.len() {
        DeviceInfoView {
            device_type: rules[k].device_type,
            browser: rules[k].browser,
            browser_version: None,
            os: rules[k].os,
            os_version: None,
            user_agent: Some(ua),
        }
    } else {
        match spec_woothee(ua) {
            Some((c, n, v, o, ov)) => DeviceInfoView {
                user_agent: Some(ua),
                ..spec_from_woothee(c, n, v, o, ov)
            },
            None => DeviceInfoView { user_agent: Some(ua), ..empty_info() },
        }
    }
}

/// A User-Agent as the matcher reads it: cleaned, then trimmed.
pub open spec fn cleaned_agent(ua: Seq<char>) -> Seq<char> {
    spec_trim(spec_sanitize(ua))
}

/// The message for a User-Agent over the length limit.
pub open spec fn too_long_message() -> Seq<char> {
    "User-Agent 长度超过限制（最大 2048 字符）"@
}

/// The rules without those of the given name, in order.
pub open spec fn without_name(rules: Seq<CustomRuleView>, name: Seq<char>) -> Seq<CustomRuleView>
    decreases rules.len(),
{
    if rules.len() == 0 {
        rules
    } else {
        let p = without_name(rules.drop_last(), name);
        if rules.last().name != name {
            p.push(rules.last())
        } else {
            p
        }
    }
}

proof fn lemma_without_name_len(rules: Seq<CustomRuleView>, name: Seq<char>)
    ensures
        without_name(rules, name).len() <= rules.len(),
        without_name(rules, name).len() == rules.len() <==> forall|i: int|
            0 <= i < rules.len() ==> #[trigger] rules[i].name != name,
    decreases rules.len(),
{
    if rules.len() > 0 {
        lemma_without_name_len(rules.drop_last(), name);
        if without_name(rules, name).len() == rules.len() {
            assert forall|i: int| 0 <= i < rules.len() implies #[trigger] rules[i].name != name by {
                if i < rules.len() - 1 {
                    assert(rules.drop_last()[i] == rules[i]);
                }
            }
        }
        if forall|i: int| 0 <= i < rules.len() ==> #[trigger] rules[i].name != name {
            assert forall|i: int| 0 <= i < rules.drop_last().len() implies #[trigger] rules.drop_last()[i].name != name by {
                assert(rules.drop_last()[i] == rules[i]);
            }
            assert(rules[rules.len() - 1].name != name);
        }
    }
}

/// Recognises devices from User-Agent headers, with a cache.
pub struct DeviceMatcher {
    cache: DashMap<String, DeviceInfo>,
    cache_size_limit: usize,
    custom_rules: Vec<DeviceCustomRule>,
}

impl DeviceMatcher {
    /// The custom rules, in the order they are tried.
    pub closed spec fn rules(&self) -> Seq<CustomRuleView> {
        Seq::new(self.custom_rules@.len(), |i: int| rule_view(self.custom_rules@[i]))
    }

    /// What the cache holds.
    pub closed spec fn cached(&self) -> Map<Seq<char>, DeviceInfoView> {
        cache_contents(self.cache)
    }

    /// The size at which the cache is thinned.
    pub closed spec fn limit(&self) -> usize {
        self.cache_size_limit
    }

    fn default_custom_rules() -> (r: Vec<DeviceCustomRule>)
        ensures
            Seq::new(r@.len(), |i: int| rule_view(r@[i])) == default_rules(),
    {
        let mut v: Vec<DeviceCustomRule> = Vec::new();
        v.push(DeviceCustomRule { name: String::from_str("curl"), pattern: String::from_str("^curl/"), device_type: DeviceType::API, browser: Some(String::from_str("curl")), os: None });
        v.push(DeviceCustomRule { name: String::from_str("wget"), pattern: String::from_str("^Wget/"), device_type: DeviceType::API, browser: Some(String::from_str("wget")), os: None });
        v.push(DeviceCustomRule { name: String::from_str("googlebot"), pattern: String::from_str("Googlebot"), device_type: DeviceType::API, browser: Some(String::from_str("Googlebot")), os: None });
        v.push(DeviceCustomRule { name: String::from_str("bingbot"), pattern: String::from_str("Bingbot"), device_type: DeviceType::API, browser: Some(String::from_str("Bingbot")), os: None });
        assert(Seq::new(v@.len(), |i: int| rule_view(v@[i])) =~= default_rules());
        v
    }

    /// A matcher with the default rules, an empty cache and a limit of
    /// 10000 entries.
    pub fn new() -> (r: Result<Self, LimiteronError>)
        ensures
            r matches Ok(m) && m.rules() == default_rules() && m.cached() == no_entries()
                && m.limit() == 10_000,
    {
        Ok(DeviceMatcher { cache: cache_new(), cache_size_limit: 10_000, custom_rules: Self::default_custom_rules() })
    }

    /// A matcher with the default rules and the given cache limit.
    pub fn with_cache_limit(cache_size_limit: usize) -> (r: Result<Self, LimiteronError>)
        ensures
            r matches Ok(m) && m.rules() == default_rules() && m.cached() == no_entries()
                && m.limit() == cache_size_limit,
    {
        Ok(DeviceMatcher { cache: cache_new(), cache_size_limit, custom_rules: Self::default_custom_rules() })
    }

    /// Stores an entry; a full cache is first thinned by a tenth of its
    /// limit, removing entries of the map's choosing, so a cache within a
    /// limit of at least ten entries stays within it.
    fn update_cache(&mut self, user_agent: &str, info: &DeviceInfo)
        ensures
            final(self).cached().contains_key(user_agent@),
            final(self).cached()[user_agent@] == info@,
            forall|k: Seq<char>| #[trigger] final(self).cached().contains_key(k) && k != user_agent@
                ==> old(self).cached().contains_key(k) && final(self).cached()[k] == old(self).cached()[k],
            final(self).rules() == old(self).rules(),
            final(self).limit() == old(self).limit(),
            old(self).cached().dom().finite() ==> final(self).cached().dom().finite(),
            old(self).cached().dom().finite() && old(self).limit() >= 10 && old(self).cached().dom().len()
                <= old(self).limit() ==> final(self).cached().dom().len() <= final(self).limit(),
    {
        let ghost c0 = self.cached();
        let len0 = cache_len(&self.cache);
        if len0 >= self.cache_size_limit {
            let keys = cache_first_keys(&self.cache, self.cache_size_limit / 10);
            let n = keys.len();
            let mut i: usize = 0;
            while i < n
                invariant
                    n == keys@.len(),
                    i <= n,
                    self.rules() == old(self).rules(),
                    self.limit() == old(self).limit(),
                    c0 == old(self).cached(),
                    c0.dom().finite() ==> self.cached().dom().finite() && self.cached().dom().len()
                        == c0.dom().len() - i,
                    forall|a: int, b: int| 0 <= a < b < keys@.len() ==> keys@[a]@ != keys@[b]@,
                    forall|j: int| i <= j < n ==> self.cached().contains_key(#[trigger] keys@[j]@),
                    forall|k: Seq<char>| #[trigger] self.cached().contains_key(k) ==> c0.contains_key(k) && self.cached()[k] == c0[k],
                decreases n - i,
            {
                let ghost before = self.cached();
                let ghost gone = keys@[i as int]@;
                cache_remove(&mut self.cache, keys[i].as_str());
                assert forall|k: Seq<char>| #[trigger] self.cached().contains_key(k) implies c0.contains_key(k) && self.cached()[k] == c0[k] by {
                    assert(before.contains_key(k));
                }
                assert forall|j: int| i + 1 <= j < n implies self.cached().contains_key(#[trigger] keys@[j]@) by {
                    assert(before.contains_key(keys@[j]@));
                    assert(keys@[j]@ != gone);
                }
                assert(self.cached().dom() =~= before.dom().remove(gone));
                i = i + 1;
            }
        }
        let ghost before = self.cached();
        proof {
            if c0.dom().finite() && old(self).limit() >= 10 && c0.dom().len() <= old(self).limit() {
                assert(before.dom().finite());
                assert(before.dom().len() + 1 <= old(self).limit());
            }
        }
        let d = info.duplicate();
        let ghost key = user_agent@;
        cache_insert(&mut self.cache, String::from_str(user_agent), d);
        proof {
            assert(self.cached().dom() =~= before.dom().insert(key));
        }
        assert forall|k: Seq<char>| #[trigger] self.cached().contains_key(k) && k != user_agent@ implies c0.contains_key(k) && self.cached()[k] == c0[k] by {
            assert(before.contains_key(k));
        }
    }

    /// Recognises the device of a User-Agent. The agent is cleaned and
    /// trimmed; nothing left gives empty information; over 2048 bytes is an
    /// error; a cached agent gives what was cached; otherwise the first
    /// custom rule that applies decides, else `woothee` does, and the result
    /// is cached; a cache within a limit of at least ten entries stays
    /// within it.
    pub fn parse(&mut self, user_agent: &str) -> (r: Result<DeviceInfo, LimiteronError>)
        ensures
            ({
                let ua = cleaned_agent(user_agent@);
                if ua.len() == 0 {
                    r matches Ok(i) && i@ == empty_info() && final(self).cached() == old(self).cached()
                } else if utf8_len(ua) > MAX_USER_AGENT_LENGTH {
                    r matches Err(LimiteronError::ConfigError(m)) && m@ == too_long_message()
                        && final(self).cached() == old(self).cached()
                } else if old(self).cached().contains_key(ua) {
                    r matches Ok(i) && i@ == old(self).cached()[ua] && final(self).cached() == old(self).cached()
                } else {
                    r matches Ok(i) && i@ == spec_fresh_info(old(self).rules(), ua)
                        && final(self).cached().contains_key(ua) && final(self).cached()[ua] == i@
                }
            }),
            final(self).rules() == old(self).rules(),
            final(self).limit() == old(self).limit(),
            old(self).cached().dom().finite() ==> final(self).cached().dom().finite(),
            old(self).cached().dom().finite() && old(self).limit() >= 10 && old(self).cached().dom().len()
                <= old(self).limit() ==> final(self).cached().dom().len() <= final(self).limit(),
    {
        let sanitized = sanitize_user_agent(user_agent);
        let trimmed = trim_str(sanitized.as_str());
        let ua = trimmed.as_str();
        if ua.is_empty() {
            return Ok(DeviceInfo::empty());
        }
        if longer_than(ua, MAX_USER_AGENT_LENGTH) {
            return Err(LimiteronError::ConfigError(String::from_str("User-Agent 长度超过限制（最大 2048 字符）")));
        }
        if let Some(cached) = cache_get(&self.cache, ua) {
            return Ok(cached);
        }
        let ghost rules = self.rules();
        let n = self.custom_rules.len();
        let mut i: usize = 0;
        while i < n
            invariant
                n == self.custom_rules@.len(),
                rules == self.rules(),
                rules == old(self).rules(),
                self.cached() == old(self).cached(),
                self.limit() == old(self).limit(),
                ua@ == cleaned_agent(user_agent@),
                ua@.len() != 0,
                utf8_len(ua@) <= MAX_USER_AGENT_LENGTH,
                !old(self).cached().contains_key(ua@),
                i <= n,
                first_applying_rule(rules, ua@, 0) == first_applying_rule(rules, ua@, i as int),
            decreases n - i,
        {
            let rule = &self.custom_rules[i];
            assert(rules[i as int] == rule_view(*rule));
            if regex_compile_error(rule.pattern.as_str()).is_none() {
                if regex_is_match(rule.pattern.as_str(), ua) {
                    let info = DeviceInfo {
                        device_type: rule.device_type,
                        browser: clone_text(&rule.browser),
                        browser_version: None,
                        os: clone_text(&rule.os),
                        os_version: None,
                        user_agent: Some(String::from_str(ua)),
                    };
                    assert(first_applying_rule(rules, ua@, i as int) == i);
                    self.update_cache(ua, &info);
                    return Ok(info);
                }
            }
            i = i + 1;
        }
        let mut info = match woothee_parse(ua) {
            Some((c, nm, v, o, ov)) => DeviceInfo::from_woothee(c.as_str(), nm.as_str(), v.as_str(), o.as_str(), ov.as_str()),
            None => DeviceInfo::empty(),
        };
        info.user_agent = Some(String::from_str(ua));
        self.update_cache(ua, &info);
        Ok(info)
    }

    /// Parses each User-Agent in turn; each fails exactly when its cleaned
    /// form is over the length limit.
    pub fn batch_parse(&mut self, user_agents: &[String]) -> (r: Vec<Result<DeviceInfo, LimiteronError>>)
        ensures
            r@.len() == user_agents@.len(),
            forall|i: int| 0 <= i < r@.len() ==> (#[trigger] r@[i] is Err <==> utf8_len(cleaned_agent(user_agents@[i]@)) > MAX_USER_AGENT_LENGTH),
    {
        let n = user_agents.len();
        let mut out: Vec<Result<DeviceInfo, LimiteronError>> = Vec::new();
        let mut i: usize = 0;
        while i < n
            invariant
                n == user_agents@.len(),
                i <= n,
                out@.len() == i,
                forall|k: int| 0 <= k < i ==> (#[trigger] out@[k] is Err <==> utf8_len(cleaned_agent(user_agents@[k]@)) > MAX_USER_AGENT_LENGTH),
            decreases n - i,
        {
            let r = self.parse(user_agents[i].as_str());
            out.push(r);
            i = i + 1;
        }
        out
    }

    /// Parses the User-Agent and tests the condition on the result.
    pub fn matches_user_agent(&mut self, user_agent: &str, condition: &DeviceCondition) -> (r: Result<bool, LimiteronError>)
        ensures
            ({
                let ua = cleaned_agent(user_agent@);
                if ua.len() == 0 {
                    r == Ok::<bool, LimiteronError>(spec_condition_matches(*condition, empty_info()))
                } else if utf8_len(ua) > MAX_USER_AGENT_LENGTH {
                    r matches Err(LimiteronError::ConfigError(m)) && m@ == too_long_message()
                } else if old(self).cached().contains_key(ua) {
                    r == Ok::<bool, LimiteronError>(spec_condition_matches(*condition, old(self).cached()[ua]))
                } else {
                    r == Ok::<bool, LimiteronError>(spec_condition_matches(*condition, spec_fresh_info(old(self).rules(), ua)))
                }
            }),
    {
        let info = self.parse(user_agent)?;
        Ok(condition.matches(&info))
    }

    /// Tests the condition on device information.
    pub fn matches(&self, info: &DeviceInfo, condition: &DeviceCondition) -> (r: bool)
        ensures
            r == spec_condition_matches(*condition, info@),
    {
        condition.matches(info)
    }

    /// Adds a custom rule, tried after the existing ones; a pattern that
    /// does not compile is ignored.
    pub fn add_custom_rule(&mut self, name: &str, pattern: &str, device_type: DeviceType, browser: Option<String>, os: Option<String>)
        ensures
            spec_regex_compiles(pattern@) ==> final(self).rules() == old(self).rules().push(
                CustomRuleView { name: name@, pattern: pattern@, device_type, browser: opt_text(browser), os: opt_text(os) },
            ),
            !spec_regex_compiles(pattern@) ==> final(self).rules() == old(self).rules(),
            final(self).cached() == old(self).cached(),
            final(self).limit() == old(self).limit(),
    {
        if regex_compile_error(pattern).is_some() {
            return;
        }
        let ghost before = self.rules();
        let rule = DeviceCustomRule { name: String::from_str(name), pattern: String::from_str(pattern), device_type, browser, os };
        let ghost rv = rule_view(rule);
        self.custom_rules.push(rule);
        assert(self.rules() =~= before.push(rv));
    }

    /// Removes every custom rule with the given name; whether any was.
    pub fn remove_custom_rule(&mut self, name: &str) -> (r: bool)
        ensures
            final(self).rules() == without_name(old(self).rules(), name@),
            r == (final(self).rules().len() < old(self).rules().len()),
            final(self).cached() == old(self).cached(),
            final(self).limit() == old(self).limit(),
    {
        let ghost before = self.rules();
        let mut kept: Vec<DeviceCustomRule> = Vec::new();
        let mut rest: Vec<DeviceCustomRule> = Vec::new();
        std::mem::swap(&mut rest, &mut self.custom_rules);
        let initial_len = rest.len();
        let ghost all = Seq::new(rest@.len(), |i: int| rule_view(rest@[i]));
        assert(all == before);
        let mut i: usize = 0;
        while i < initial_len
            invariant
                initial_len == rest@.len(),
                all == Seq::new(rest@.len(), |i: int| rule_view(rest@[i])),
                i <= initial_len,
                Seq::new(kept@.len(), |k: int| rule_view(kept@[k])) == without_name(all.take(i as int), name@),
            decreases initial_len - i,
        {
            let ghost kv = Seq::new(kept@.len(), |k: int| rule_view(kept@[k]));
            assert(all.take(i + 1).drop_last() =~= all.take(i as int));
            assert(all.take(i + 1).last() == all[i as int]);
            assert(all[i as int] == rule_view(rest@[i as int]));
            let keep = !str_eq(rest[i].name.as_str(), name);
            if keep {
                kept.push(DeviceCustomRule { name: rest[i].name.clone(), pattern: rest[i].pattern.clone(), device_type: rest[i].device_type, browser: clone_text(&rest[i].browser), os: clone_text(&rest[i].os) });
                assert(Seq::new(kept@.len(), |k: int| rule_view(kept@[k])) =~= kv.push(all[i as int]));
            }
            i = i + 1;
        }
        assert(all.take(initial_len as int) =~= all);
        let removed = kept.len() < initial_len;
        proof {
            lemma_without_name_len(all, name@);
        }
        self.custom_rules = kept;
        assert(self.rules() =~= without_name(all, name@));
        removed
    }

    /// Empties the cache.
    pub fn clear_cache(&mut self)
        ensures
            final(self).cached() == no_entries(),
            final(self).rules() == old(self).rules(),
            final(self).limit() == old(self).limit(),
    {
        cache_clear(&mut self.cache);
    }

    /// How full the cache is: the number of entries and the limit.
    pub fn cache_stats(&self) -> (r: DeviceCacheStats)
        ensures
            r.size == self.cached().dom().len(),
            r.limit == self.limit(),
    {
        DeviceCacheStats { size: cache_len(&self.cache), limit: self.cache_size_limit }
    }
}

/// How full a device cache is.
#[derive(Debug, Clone, Copy, PartialEq, Eq)]
pub struct DeviceCacheStats {
    /// Entries in the cache.
    pub size: usize,
    /// Most entries the cache keeps before it is thinned.
    pub limit: usize,
}

} // verus!
