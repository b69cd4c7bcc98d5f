//! Custom request matchers: the interface, a registry, and two matchers
//! built on it (by time of day and by HTTP header).

use vstd::prelude::*;


use crate::config::limiter::validation_result;
use crate::device_matcher::{
    dangerous_patterns, paren_depths, regex_compile_error, spec_regex_compiles, spec_regex_error,
};
use crate::error::LimiteronError;
use crate::json::{JsonValue, spec_lookup};
use crate::text::{
    chars_of, concat_str, has_char, has_substring, is_alphanumeric, is_whitespace, longer_than,
    spec_is_alphanumeric, spec_is_whitespace, spec_to_lowercase, str_contains, str_eq,
    str_has_char, string_from_chars, strings_view, to_lowercase, utf8_len,
};

verus! {

/// Longest matcher name, in bytes.
pub const MAX_MATCHER_NAME_LENGTH: usize = 100;

/// Longest header name, in bytes.
pub const MAX_HEADER_NAME_LENGTH: usize = 256;

/// Longest header value, in bytes.
pub const MAX_HEADER_VALUE_LENGTH: usize = 4096;

/// Most values a header matcher allows.
pub const MAX_ALLOWED_VALUES_COUNT: usize = 100;

/// Deepest nesting of parentheses in a pattern.
pub const MAX_REGEX_NESTING_DEPTH: usize = 10;

/// A configuration error carrying the message `m`, if any.
pub open spec fn config_result(r: Result<(), LimiteronError>, e: Option<Seq<char>>) -> bool {
    match e {
        None => r is Ok,
        Some(m) => r matches Err(LimiteronError::ConfigError(x)) && x@ == m,
    }
}

/// Every character satisfies `ok`.
pub open spec fn all_chars(s: Seq<char>, allow_underscore: bool) -> bool {
    forall|i: int|
        0 <= i < s.len() ==> spec_is_alphanumeric(#[trigger] s[i]) || s[i] == '-' || (
        allow_underscore && s[i] == '_')
}

fn check_chars(s: &str, allow_underscore: bool) -> (r: bool)
    ensures
        r == all_chars(s@, allow_underscore),
{
    let v = chars_of(s);
    let n = v.len();
    let mut i: usize = 0;
    while i < n
        invariant
            n == v@.len(),
            v@ == s@,
            i <= n,
            forall|k: int|
                0 <= k < i ==> spec_is_alphanumeric(#[trigger] v@[k]) || v@[k] == '-' || (
                allow_underscore && v@[k] == '_'),
        decreases n - i,
    {
        let c = v[i];
        if !(is_alphanumeric(c) || c == '-' || (allow_underscore && c == '_')) {
            return false;
        }
        i = i + 1;
    }
    true
}

/// What `validate_matcher_name` says of a name.
pub open spec fn spec_matcher_name_error(name: Seq<char>) -> Option<Seq<char>> {
    if name.len() == 0 {
        Some("匹配器名称不能为空"@)
    } else if utf8_len(name) > MAX_MATCHER_NAME_LENGTH {
        Some("匹配器名称长度超过限制（最大 100 字符）"@)
    } else if !all_chars(name, true) {
        Some("匹配器名称只能包含字母、数字、下划线和连字符"@)
    } else {
        None
    }
}

/// A matcher name: nonempty, within the length limit, of letters, digits,
/// underscores and hyphens.
pub fn validate_matcher_name(name: &str) -> (r: Result<(), LimiteronError>)
    ensures
        config_result(r, spec_matcher_name_error(name@)),
{
    if name.is_empty() {
        return Err(LimiteronError::ConfigError(String::from_str("匹配器名称不能为空")));
    }
    if longer_than(name, MAX_MATCHER_NAME_LENGTH) {
        return Err(LimiteronError::ConfigError(String::from_str("匹配器名称长度超过限制（最大 100 字符）")));
    }
    if !check_chars(name, true) {
        return Err(LimiteronError::ConfigError(String::from_str("匹配器名称只能包含字母、数字、下划线和连字符")));
    }
    Ok(())
}

/// What `validate_header_name` says of a name.
pub open spec fn spec_header_name_error(name: Seq<char>) -> Option<Seq<char>> {
    if name.len() == 0 {
        Some("HTTP头名称不能为空"@)
    } else if utf8_len(name) > MAX_HEADER_NAME_LENGTH {
        Some("HTTP头名称长度超过限制（最大 256 字符）"@)
    } else if !all_chars(name, false) {
        Some("HTTP头名称只能包含字母、数字和连字符"@)
    } else {
        None
    }
}

/// A header name: nonempty, within the length limit, of letters, digits
/// and hyphens.
pub fn validate_header_name(name: &str) -> (r: Result<(), LimiteronError>)
    ensures
        config_result(r, spec_header_name_error(name@)),
{
    if name.is_empty() {
        return Err(LimiteronError::ConfigError(String::from_str("HTTP头名称不能为空")));
    }
    if longer_than(name, MAX_HEADER_NAME_LENGTH) {
        return Err(LimiteronError::ConfigError(String::from_str("HTTP头名称长度超过限制（最大 256 字符）")));
    }
    if !check_chars(name, false) {
        return Err(LimiteronError::ConfigError(String::from_str("HTTP头名称只能包含字母、数字和连字符")));
    }
    Ok(())
}

/// What `validate_header_value` says of a value.
pub open spec fn spec_header_value_error(value: Seq<char>) -> Option<Seq<char>> {
    if utf8_len(value) > MAX_HEADER_VALUE_LENGTH {
        Some("HTTP头值长度超过限制（最大 4096 字符）"@)
    } else {
        None
    }
}

/// A header value must be within the length limit.
pub fn validate_header_value(value: &str) -> (r: Result<(), LimiteronError>)
    ensures
        config_result(r, spec_header_value_error(value@)),
{
    if longer_than(value, MAX_HEADER_VALUE_LENGTH) {
        return Err(LimiteronError::ConfigError(String::from_str("HTTP头值长度超过限制（最大 4096 字符）")));
    }
    Ok(())
}

/// Index of the first of the first five dangerous patterns that occurs in
/// `p`, from `i` on; five when none does.
pub open spec fn first_dangerous_of_five(p: Seq<char>, i: int) -> int
    decreases 5 - i,
{
    if i >= 5 || has_substring(p, dangerous_patterns()[i]) {
        i
    } else {
        first_dangerous_of_five(p, i + 1)
    }
}

/// What `validate_regex_complexity` says of a pattern, besides compiling it.
pub open spec fn spec_regex_complexity_error(p: Seq<char>) -> Option<Seq<char>> {
    let k = first_dangerous_of_five(p, 0);
    if utf8_len(p) > 1000 {
        Some("正则表达式模式过长（最大 1000 字符）"@)
    } else if paren_depths(p).1 > MAX_REGEX_NESTING_DEPTH {
        Some("正则表达式嵌套深度过大（最大 10）"@)
    } else if k < 5 {
        Some("正则表达式包含危险模式: "@ + dangerous_patterns()[k])
    } else {
        None
    }
}

fn max_depth_of(p: &str) -> (r: u64)
    ensures
        r == paren_depths(p@).1,
{
    let v = chars_of(p);
    let n = v.len();
    let mut depth: u64 = 0;
    let mut max_depth: u64 = 0;
    let mut i: usize = 0;
    while i < n
        invariant
            n == v@.len(),
            v@ == p@,
            i <= n,
            (depth as int, max_depth as int) == paren_depths(v@.take(i as int)),
            depth <= i,
            max_depth <= i,
        decreases n - i,
    {
        assert(v@.take(i + 1).drop_last() =~= v@.take(i as int));
        let c = v[i];
        if c == '(' {
            depth = depth + 1;
            if depth > max_depth {
                max_depth = depth;
            }
        } else if c == ')' {
            depth = depth.saturating_sub(1);
        }
        i = i + 1;
    }
    assert(v@.take(n as int) =~= v@);
    max_depth
}

fn nth_dangerous(i: usize) -> (r: &'static str)
    requires
        i < 5,
    ensures
        r@ == dangerous_patterns()[i as int],
{
    if i == 0 {
        "(.+)+"
    } else if i == 1 {
        "(.+)*"
    } else if i == 2 {
        "(.+){2,}"
    } else if i == 3 {
        "([a-z]+)+"
    } else {
        "([a-z]+)*"
    }
}

/// A pattern must fit in 1000 bytes, nest parentheses at most ten deep,
/// hold none of the patterns that make backtracking explode, and compile.
pub fn validate_regex_complexity(pattern: &str) -> (r: Result<(), LimiteronError>)
    ensures
        spec_regex_complexity_error(pattern@) is Some ==> config_result(
            r,
            spec_regex_complexity_error(pattern@),
        ),
        spec_regex_complexity_error(pattern@) is None ==> (r is Ok <==> spec_regex_compiles(
            pattern@,
        )),
        spec_regex_complexity_error(pattern@) is None && !spec_regex_compiles(pattern@) ==> (r matches Err(
            LimiteronError::ConfigError(m),
        ) && m@ == "无效的正则表达式: "@ + spec_regex_error(pattern@)->Some_0),
{
    if longer_than(pattern, 1000) {
        return Err(LimiteronError::ConfigError(String::from_str("正则表达式模式过长（最大 1000 字符）")));
    }
    if max_depth_of(pattern) > 10 {
        return Err(LimiteronError::ConfigError(String::from_str("正则表达式嵌套深度过大（最大 10）")));
    }
    let mut i: usize = 0;
    while i < 5
        invariant
            i <= 5,
            utf8_len(pattern@) <= 1000,
            paren_depths(pattern@).1 <= MAX_REGEX_NESTING_DEPTH,
            first_dangerous_of_five(pattern@, 0) == first_dangerous_of_five(pattern@, i as int),
        decreases 5 - i,
    {
        let d = nth_dangerous(i);
        if str_contains(pattern, d) {
            assert(first_dangerous_of_five(pattern@, i as int) == i);
            return Err(LimiteronError::ConfigError(concat_str("正则表达式包含危险模式: ", d)));
        }
        i = i + 1;
    }
    match regex_compile_error(pattern) {
        None => Ok(()),
        Some(e) => Err(LimiteronError::ConfigError(concat_str("无效的正则表达式: ", e.as_str()))),
    }
}

/// Whether a character stays in a cleaned string.
pub open spec fn keeps_in_string(c: char) -> bool {
    spec_is_alphanumeric(c) || spec_is_whitespace(c) || has_char("-_."@, c)
}

/// The characters that stay, in order.
pub open spec fn spec_sanitize_string(s: Seq<char>) -> Seq<char>
    decreases s.len(),
{
    if s.len() == 0 {
        Seq::empty()
    } else {
        let prev = spec_sanitize_string(s.drop_last());
        if keeps_in_string(s.last()) {
            prev.push(s.last())
        } else {
            prev
        }
    }
}

/// Keeps letters, digits, whitespace, `-`, `_` and `.`.
pub fn sanitize_string(input: &str) -> (r: String)
    ensures
        r@ == spec_sanitize_string(input@),
{
    let v = chars_of(input);
    let n = v.len();
    let mut out: Vec<char> = Vec::new();
    let mut i: usize = 0;
    while i < n
        invariant
            n == v@.len(),
            v@ == input@,
            i <= n,
            out@ == spec_sanitize_string(v@.take(i as int)),
        decreases n - i,
    {
        assert(v@.take(i + 1).drop_last() =~= v@.take(i as int));
        let c = v[i];
        if is_alphanumeric(c) || is_whitespace(c) || str_has_char("-_.", c) {
            out.push(c);
        }
        i = i + 1;
    }
    assert(v@.take(n as int) =~= v@);
    string_from_chars(out.as_slice())
}

// ---------------------------------------------------------------------------
// Requests and the matcher interface
// ---------------------------------------------------------------------------

/// What a matcher sees of a request: its headers, in the order given.
#[derive(Debug, Clone)]
pub struct RequestContext {
    pub headers: Vec<(String, String)>,
}

/// The value of the first header with the given name.
pub open spec fn header_lookup(headers: Seq<(String, String)>, name: Seq<char>) -> Option<Seq<char>>
    decreases headers.len(),
{
    if headers.len() == 0 {
        None
    } else if headers[0].0@ == name {
        Some(headers[0].1@)
    } else {
        header_lookup(headers.drop_first(), name)
    }
}

impl RequestContext {
    /// A request without headers.
    pub fn new() -> (r: Self)
        ensures
            r.headers@.len() == 0,
    {
        RequestContext { headers: Vec::new() }
    }

    /// The request with one more header.
    pub fn with_header(self, name: String, value: String) -> (r: Self)
        ensures
            r.headers@ == self.headers@.push((name, value)),
    {
        let mut c = self;
        c.headers.push((name, value));
        c
    }

    /// The value of the first header with the given name.
    pub fn get_header(&self, name: &str) -> (r: Option<&String>)
        ensures
            match r {
                Some(v) => header_lookup(self.headers@, name@) == Some(v@),
                None => header_lookup(self.headers@, name@) is None,
            },
    {
        let n = self.headers.len();
        let mut i: usize = 0;
        assert(self.headers@.skip(0) =~= self.headers@);
        while i < n
            invariant
                n == self.headers@.len(),
                i <= n,
                header_lookup(self.headers@, name@) == header_lookup(self.headers@.skip(i as int), name@),
            decreases n - i,
        {
            assert(self.headers@.skip(i as int).drop_first() =~= self.headers@.skip(i + 1));
            assert(self.headers@.skip(i as int)[0] == self.headers@[i as int]);
            if str_eq(self.headers[i].0.as_str(), name) {
                return Some(&self.headers[i].1);
            }
            i = i + 1;
        }
        None
    }
}

/// Interface of a matcher that users can plug in.
pub trait CustomMatcher {
    /// The name the matcher goes by.
    spec fn spec_name(&self) -> Seq<char>;

    /// Whether `r` is an answer the matcher, as it stands, may give for the
    /// request `context`.
    spec fn may_answer(&self, context: RequestContext, r: Result<bool, LimiteronError>) -> bool;

    /// Whether `r` is what the matcher, as it stands, answers to loading
    /// `config`.
    spec fn load_answer(&self, config: JsonValue, r: Result<(), LimiteronError>) -> bool;

    /// Unique name of the matcher.
    fn name(&self) -> (r: &str)
        ensures
            r@ == self.spec_name(),
    ;

    /// Whether the request matches.
    fn matches(&self, context: &RequestContext) -> (r: Result<bool, LimiteronError>)
        ensures
            self.may_answer(*context, r),
    ;

    /// Loads the matcher's settings from a JSON configuration.
    fn load_config(&mut self, config: &JsonValue) -> (r: Result<(), LimiteronError>)
        ensures
            old(self).load_answer(*config, r),
    ;
}

/// A boxed matcher is a matcher, so that matchers of different kinds can
/// share one registry.
impl CustomMatcher for Box<dyn CustomMatcher> {
    open spec fn spec_name(&self) -> Seq<char> {
        (**self).spec_name()
    }

    open spec fn may_answer(&self, context: RequestContext, r: Result<bool, LimiteronError>) -> bool {
        (**self).may_answer(context, r)
    }

    open spec fn load_answer(&self, config: JsonValue, r: Result<(), LimiteronError>) -> bool {
        (**self).load_answer(config, r)
    }

    fn name(&self) -> &str {
        (**self).name()
    }

    fn matches(&self, context: &RequestContext) -> Result<bool, LimiteronError> {
        (**self).matches(context)
    }

    fn load_config(&mut self, config: &JsonValue) -> Result<(), LimiteronError> {
        (**self).load_config(config)
    }
}

// ---------------------------------------------------------------------------
// Registry
// ---------------------------------------------------------------------------

fn matcher_message(name: &str, tail: &str) -> (r: String)
    ensures
        r@ == "匹配器 '"@ + name@ + tail@,
{
    let m = concat_str("匹配器 '", name);
    concat_str(m.as_str(), tail)
}

/// A registry of custom matchers by name.
pub struct CustomMatcherRegistry<M: CustomMatcher = Box<dyn CustomMatcher>> {
    matchers: Vec<(String, M)>,
}

impl<M: CustomMatcher> View for CustomMatcherRegistry<M> {
    type V = Seq<Seq<char>>;

    /// The registered names, in the order they were registered.
    closed spec fn view(&self) -> Seq<Seq<char>> {
        Seq::new(self.matchers@.len(), |i: int| self.matchers@[i].0@)
    }
}

impl<M: CustomMatcher> CustomMatcherRegistry<M> {
    #[verifier::type_invariant]
    closed spec fn wf(self) -> bool {
        crate::custom_limiter::distinct_names(self@)
    }

    /// The registered matchers, in the order of their names in the view.
    pub closed spec fn matchers(&self) -> Seq<M> {
        Seq::new(self.matchers@.len(), |i: int| self.matchers@[i].1)
    }

    /// The matcher registered under `name`, where it is the `i`th.
    pub open spec fn registered_at(&self, i: int, name: Seq<char>) -> bool {
        0 <= i < self@.len() && self@[i] == name
    }

    /// An empty registry.
    pub fn new() -> (r: Self)
        ensures
            r@ == Seq::<Seq<char>>::empty(),
            r.matchers() == Seq::<M>::empty(),
    {
        let r = CustomMatcherRegistry { matchers: Vec::new() };
        assert(r@ =~= Seq::<Seq<char>>::empty());
        assert(r.matchers() =~= Seq::<M>::empty());
        r
    }

    /// There is one matcher for each registered name.
    pub proof fn lemma_matchers_match_names(&self)
        ensures
            self.matchers().len() == self@.len(),
    {
    }

    fn find(&self, name: &str) -> (r: Option<usize>)
        ensures
            match r {
                Some(i) => i < self@.len() && self@[i as int] == name@,
                None => !self@.contains(name@),
            },
    {
        let n = self.matchers.len();
        let mut i: usize = 0;
        while i < n
            invariant
                n == self.matchers@.len(),
                n == self@.len(),
                i <= n,
                forall|k: int| 0 <= k < i ==> self@[k] != name@,
            decreases n - i,
        {
            if str_eq(self.matchers[i].0.as_str(), name) {
                return Some(i);
            }
            i = i + 1;
        }
        None
    }

    /// Registers a matcher under a valid name that is not taken yet.
    pub fn register(&mut self, name: String, matcher: M) -> (r: Result<(), LimiteronError>)
        ensures
            spec_matcher_name_error(name@) is Some ==> config_result(r, spec_matcher_name_error(name@))
                && final(self)@ == old(self)@ && final(self).matchers() == old(self).matchers(),
            spec_matcher_name_error(name@) is None && old(self)@.contains(name@) ==> (
            r matches Err(LimiteronError::ConfigError(m)) && m@ == "匹配器 '"@ + name@ + "' 已存在"@)
                && final(self)@ == old(self)@ && final(self).matchers() == old(self).matchers(),
            spec_matcher_name_error(name@) is None && !old(self)@.contains(name@) ==> r is Ok
                && final(self)@ == old(self)@.push(name@) && final(self).matchers()
                == old(self).matchers().push(matcher),
    {
        proof {
            use_type_invariant(&*self);
        }
        validate_matcher_name(name.as_str())?;
        match self.find(name.as_str()) {
            Some(_) => Err(LimiteronError::ConfigError(matcher_message(name.as_str(), "' 已存在"))),
            None => {
                let ghost old_view = self@;
                let ghost old_list = self.matchers@;
                let ghost nm = name@;
                let ghost old_ms = self.matchers();
                let ghost nmatcher = matcher;
                let mut v: Vec<(String, M)> = Vec::new();
                std::mem::swap(&mut v, &mut self.matchers);
                assert(v@ == old_list);
                v.push((name, matcher));
                assert(Seq::new(v@.len(), |i: int| v@[i].1) =~= old_ms.push(nmatcher));
                let ghost new_view = Seq::new(v@.len(), |i: int| v@[i].0@);
                assert(new_view =~= old_view.push(nm));
                self.matchers = v;
                Ok(())
            },
        }
    }

    /// The matcher registered under the name, if any.
    pub fn get(&self, name: &str) -> (r: Option<&M>)
        ensures
            r is Some <==> self@.contains(name@),
            r matches Some(m) ==> forall|i: int| #[trigger] self.registered_at(i, name@) ==> *m
                == self.matchers()[i],
    {
        proof {
            use_type_invariant(&*self);
        }
        match self.find(name) {
            None => None,
            Some(i) => {
                assert(self@[i as int] == name@);
                Some(&self.matchers[i].1)
            },
        }
    }

    /// Whether a matcher is registered under the name.
    pub fn contains(&self, name: &str) -> (r: bool)
        ensures
            r == self@.contains(name@),
    {
        self.find(name).is_some()
    }

    /// Removes the matcher registered under the name.
    pub fn unregister(&mut self, name: &str) -> (r: Result<(), LimiteronError>)
        ensures
            !old(self)@.contains(name@) ==> (r matches Err(LimiteronError::ConfigError(m)) && m@
                == "匹配器 '"@ + name@ + "' 不存在"@) && final(self)@ == old(self)@
                && final(self).matchers() == old(self).matchers(),
            old(self)@.contains(name@) ==> r is Ok && exists|i: int|
                0 <= i < old(self)@.len() && old(self)@[i] == name@ && final(self)@ == old(
                    self,
                )@.remove(i) && final(self).matchers() == old(self).matchers().remove(i),
            !final(self)@.contains(name@),
    {
        proof {
            use_type_invariant(&*self);
        }
        match self.find(name) {
            None => Err(LimiteronError::ConfigError(matcher_message(name, "' 不存在"))),
            Some(i) => {
                let ghost old_view = self@;
                let ghost old_list = self.matchers@;
                let ghost old_ms = self.matchers();
                let mut v: Vec<(String, M)> = Vec::new();
                std::mem::swap(&mut v, &mut self.matchers);
                assert(v@ == old_list);
                v.remove(i);
                assert(Seq::new(v@.len(), |k: int| v@[k].1) =~= old_ms.remove(i as int));
                let ghost new_view = Seq::new(v@.len(), |k: int| v@[k].0@);
                assert(new_view =~= old_view.remove(i as int));
                assert(!new_view.contains(name@)) by {
                    if new_view.contains(name@) {
                        let k = choose|k: int| 0 <= k < new_view.len() && new_view[k] == name@;
                        if k < i {
                            assert(old_view[k] == old_view[i as int]);
                        } else {
                            assert(old_view[k + 1] == old_view[i as int]);
                        }
                    }
                }
                self.matchers = v;
                Ok(())
            },
        }
    }

    /// The registered names.
    pub fn list(&self) -> (r: Vec<String>)
        ensures
            strings_view(r@) == self@,
    {
        let n = self.matchers.len();
        let mut out: Vec<String> = Vec::new();
        let mut i: usize = 0;
        while i < n
            invariant
                n == self.matchers@.len(),
                n == self@.len(),
                i <= n,
                out@.len() == i,
                forall|k: int| 0 <= k < i ==> #[trigger] out@[k]@ == self@[k],
            decreases n - i,
        {
            out.push(self.matchers[i].0.clone());
            i = i + 1;
        }
        assert(strings_view(out@) =~= self@);
        out
    }

    /// How many matchers are registered.
    pub fn count(&self) -> (r: usize)
        ensures
            r == self@.len(),
    {
        self.matchers.len()
    }

    /// Removes every matcher.
    pub fn clear(&mut self)
        ensures
            final(self)@ == Seq::<Seq<char>>::empty(),
            final(self).matchers() == Seq::<M>::empty(),
    {
        self.matchers = Vec::new();
        assert(self@ =~= Seq::<Seq<char>>::empty());
        assert(self.matchers() =~= Seq::<M>::empty());
    }

    /// Asks the matcher registered under the name about the request: the
    /// answer is one that matcher may give; an unknown name is an error.
    pub fn match_with(&self, name: &str, context: &RequestContext) -> (r: Result<bool, LimiteronError>)
        ensures
            !self@.contains(name@) ==> (r matches Err(LimiteronError::ConfigError(m)) && m@
                == "匹配器 '"@ + name@ + "' 不存在"@),
            forall|i: int| #[trigger] self.registered_at(i, name@) ==> self.matchers()[i].may_answer(
                *context,
                r,
            ),
    {
        proof {
            use_type_invariant(&*self);
        }
        match self.find(name) {
            None => Err(LimiteronError::ConfigError(matcher_message(name, "' 不存在"))),
            Some(i) => {
                assert(self@[i as int] == name@);
                self.matchers[i].1.matches(context)
            },
        }
    }
}

/// A lookup after a successful registration finds the matcher just
/// registered: whatever the registry held before, the new name stands only
/// for the new matcher.
pub proof fn law_registered_matcher_is_found<M: CustomMatcher>(
    before: &CustomMatcherRegistry<M>,
    after: &CustomMatcherRegistry<M>,
    name: Seq<char>,
    matcher: M,
)
    requires
        !before@.contains(name),
        after@ == before@.push(name),
        after.matchers() == before.matchers().push(matcher),
    ensures
        after@.contains(name),
        forall|i: int| #[trigger] after.registered_at(i, name) ==> after.matchers()[i] == matcher,
{
    before.lemma_matchers_match_names();
    assert(after@[before@.len() as int] == name);
    assert forall|i: int| #[trigger] after.registered_at(i, name) implies after.matchers()[i] == matcher by {
        if i < before@.len() {
            assert(before@[i] == name);
        }
    }
}

impl<M: CustomMatcher> Default for CustomMatcherRegistry<M> {
    fn default() -> (r: Self)
        ensures
            r@ == Seq::<Seq<char>>::empty(),
            r.matchers() == Seq::<M>::empty(),
    {
        CustomMatcherRegistry::new()
    }
}

// ---------------------------------------------------------------------------
// Time of day
// ---------------------------------------------------------------------------

/// The hour of the day (UTC) at `secs` seconds after the Unix epoch.
pub open spec fn utc_hour_of(secs: u64) -> u8 {
    ((secs / 3600) % 24) as u8
}

/// The hour of the day (UTC) at `secs` seconds after the Unix epoch.
pub fn utc_hour_at(secs: u64) -> (r: u8)
    ensures
        r == utc_hour_of(secs),
        r < 24,
{
    ((secs / 3600) % 24) as u8
}

/// Whether `hour` lies in the window from `start` to `end`, both included;
/// a window whose start is after its end runs over midnight.
pub open spec fn in_window(start: u8, end: u8, hour: u8) -> bool {
    if start <= end {
        start <= hour && hour <= end
    } else {
        hour >= start || hour <= end
    }
}

/// Matches requests made in a window of hours (UTC).
#[derive(Debug, Clone)]
pub struct TimeWindowMatcher {
    start_hour: u8,
    end_hour: u8,
}

/// What `TimeWindowMatcher::load_config` reads: both hours, required, each
/// a whole number from 0 to 23.
pub open spec fn spec_window_config(config: JsonValue) -> Result<(u8, u8), Seq<char>> {
    match crate::json::spec_member_u64(config, "start_hour"@) {
        None => Err("缺少 start_hour 配置"@),
        Some(s) => match crate::json::spec_member_u64(config, "end_hour"@) {
            None => Err("缺少 end_hour 配置"@),
            Some(e) => if s > 23 {
                Err("start_hour 必须在 0-23 范围内"@)
            } else if e > 23 {
                Err("end_hour 必须在 0-23 范围内"@)
            } else {
                Ok((s as u8, e as u8))
            },
        },
    }
}

impl TimeWindowMatcher {
    /// The window from `start_hour` to `end_hour`, both hours of the day.
    pub fn new(start_hour: u8, end_hour: u8) -> (r: Self)
        requires
            start_hour <= 23,
            end_hour <= 23,
        ensures
            r.spec_start() == start_hour,
            r.spec_end() == end_hour,
    {
        TimeWindowMatcher { start_hour, end_hour }
    }

    /// The first hour of the window.
    pub fn start_hour(&self) -> (r: u8)
        ensures
            r == self.spec_start(),
    {
        self.start_hour
    }

    /// The last hour of the window.
    pub fn end_hour(&self) -> (r: u8)
        ensures
            r == self.spec_end(),
    {
        self.end_hour
    }

    pub closed spec fn spec_start(&self) -> u8 {
        self.start_hour
    }

    pub closed spec fn spec_end(&self) -> u8 {
        self.end_hour
    }

    /// Whether the hour lies in the window.
    pub fn matches_hour(&self, hour: u8) -> (r: bool)
        ensures
            r == in_window(self.spec_start(), self.spec_end(), hour),
    {
        if self.start_hour <= self.end_hour {
            hour >= self.start_hour && hour <= self.end_hour
        } else {
            hour >= self.start_hour || hour <= self.end_hour
        }
    }
}

impl CustomMatcher for TimeWindowMatcher {
    open spec fn spec_name(&self) -> Seq<char> {
        "time_window"@
    }

    /// Answers are never errors: whether some hour of the day lies in the
    /// window.
    open spec fn may_answer(&self, context: RequestContext, r: Result<bool, LimiteronError>) -> bool {
        exists|hour: u8| hour < 24 && r == Ok::<bool, LimiteronError>(in_window(self.spec_start(), self.spec_end(), hour))
    }

    open spec fn load_answer(&self, config: JsonValue, r: Result<(), LimiteronError>) -> bool {
        match spec_window_config(config) {
            Ok(_) => r is Ok,
            Err(m) => r matches Err(LimiteronError::ConfigError(x)) && x@ == m,
        }
    }

    fn name(&self) -> (r: &str)
        ensures
            r@ == "time_window"@,
    {
        "time_window"
    }

    fn matches(&self, context: &RequestContext) -> (r: Result<bool, LimiteronError>)
        ensures
            exists|hour: u8| hour < 24 && r == Ok::<bool, LimiteronError>(in_window(self.spec_start(), self.spec_end(), hour)),
    {
        let hour = utc_hour_at(crate::clock::now_unix_secs());
        Ok(self.matches_hour(hour))
    }

    fn load_config(&mut self, config: &JsonValue) -> (r: Result<(), LimiteronError>)
        ensures
            match spec_window_config(*config) {
                Ok((s, e)) => r is Ok && final(self).spec_start() == s && final(self).spec_end() == e,
                Err(m) => (r matches Err(LimiteronError::ConfigError(x)) && x@ == m)
                    && final(self).spec_start() == old(self).spec_start()
                    && final(self).spec_end() == old(self).spec_end(),
            },
    {
        let s = match crate::json::member_u64(config, "start_hour") {
            Some(v) => v,
            None => return Err(LimiteronError::ConfigError(String::from_str("缺少 start_hour 配置"))),
        };
        let e = match crate::json::member_u64(config, "end_hour") {
            Some(v) => v,
            None => return Err(LimiteronError::ConfigError(String::from_str("缺少 end_hour 配置"))),
        };
        if s > 23 {
            return Err(LimiteronError::ConfigError(String::from_str("start_hour 必须在 0-23 范围内")));
        }
        if e > 23 {
            return Err(LimiteronError::ConfigError(String::from_str("end_hour 必须在 0-23 范围内")));
        }
        self.start_hour = s as u8;
        self.end_hour = e as u8;
        Ok(())
    }
}

// ---------------------------------------------------------------------------
// HTTP headers
// ---------------------------------------------------------------------------

/// What a header matcher holds.
pub struct HeaderView {
    pub header_name: Seq<char>,
    pub allowed_values: Seq<Seq<char>>,
    pub case_sensitive: bool,
}

/// Matches requests whose header has one of the allowed values.
#[derive(Debug, Clone)]
pub struct HeaderMatcher {
    header_name: String,
    allowed_values: Vec<String>,
    case_sensitive: bool,
}

impl View for HeaderMatcher {
    type V = HeaderView;

    closed spec fn view(&self) -> HeaderView {
        HeaderView {
            header_name: self.header_name@,
            allowed_values: strings_view(self.allowed_values@),
            case_sensitive: self.case_sensitive,
        }
    }
}

/// Index of the first value over the length limit, from `i` on; the length
/// when there is none.
pub open spec fn first_long_value(vals: Seq<Seq<char>>, i: int) -> int
    decreases vals.len() - i,
{
    if i >= vals.len() || spec_header_value_error(vals[i]) is Some {
        i
    } else {
        first_long_value(vals, i + 1)
    }
}

/// The message for too many allowed values.
pub open spec fn too_many_values_message() -> Seq<char> {
    "允许的值数量超过限制（最大 100）"@
}

/// Whether the header value is allowed: exactly, or ignoring case.
pub open spec fn value_allowed(h: HeaderView, value: Option<Seq<char>>) -> bool {
    match value {
        None => false,
        Some(v) => if h.case_sensitive {
            h.allowed_values.contains(v)
        } else {
            exists|k: int|
                0 <= k < h.allowed_values.len() && spec_to_lowercase(#[trigger] h.allowed_values[k])
                    == spec_to_lowercase(v)
        },
    }
}

/// The strings among JSON values, in order.
pub open spec fn json_strings(vals: Seq<JsonValue>) -> Seq<Seq<char>>
    decreases vals.len(),
{
    if vals.len() == 0 {
        Seq::empty()
    } else {
        let prev = json_strings(vals.drop_last());
        match vals.last() {
            JsonValue::String(s) => prev.push(s@),
            _ => prev,
        }
    }
}

/// What `HeaderMatcher::load_config` does, step by step: a string
/// `header_name` is checked and taken in lower case; an array
/// `allowed_values` is checked for size, its strings are checked and taken;
/// a boolean `case_sensitive` is taken. A failed check ends the load with
/// the settings taken so far: the state reached and the message.
pub open spec fn spec_header_load(h: HeaderView, config: JsonValue) -> (HeaderView, Option<Seq<char>>) {
    let name_step: (HeaderView, Option<Seq<char>>) = match config.spec_get("header_name"@) {
        Some(JsonValue::String(n)) => match spec_header_name_error(n@) {
            Some(m) => (h, Some(m)),
            None => (HeaderView { header_name: spec_to_lowercase(n@), ..h }, None),
        },
        _ => (h, None),
    };
    if name_step.1 is Some {
        name_step
    } else {
        let h1 = name_step.0;
        let values_step: (HeaderView, Option<Seq<char>>) = match config.spec_get("allowed_values"@) {
            Some(JsonValue::Array(a)) => if a@.len() > MAX_ALLOWED_VALUES_COUNT {
                (h1, Some(too_many_values_message()))
            } else {
                let vals = json_strings(a@);
                let k = first_long_value(vals, 0);
                if k < vals.len() {
                    (h1, spec_header_value_error(vals[k]))
                } else {
                    (HeaderView { allowed_values: vals, ..h1 }, None)
                }
            },
            _ => (h1, None),
        };
        if values_step.1 is Some {
            values_step
        } else {
            let h2 = values_step.0;
            match config.spec_get("case_sensitive"@) {
                Some(JsonValue::Bool(b)) => (HeaderView { case_sensitive: b, ..h2 }, None),
                _ => (h2, None),
            }
        }
    }
}

proof fn lemma_first_long_value(vals: Seq<Seq<char>>, i: int)
    requires
        0 <= i <= vals.len(),
    ensures
        i <= first_long_value(vals, i) <= vals.len(),
        first_long_value(vals, i) < vals.len() ==> spec_header_value_error(
            vals[first_long_value(vals, i)],
        ) is Some,
    decreases vals.len() - i,
{
    if i < vals.len() && spec_header_value_error(vals[i]) is None {
        lemma_first_long_value(vals, i + 1);
    }
}

fn check_values(values: &Vec<String>) -> (r: Result<(), LimiteronError>)
    ensures
        r is Ok <==> first_long_value(strings_view(values@), 0) >= strings_view(values@).len(),
        ({
            let k = first_long_value(strings_view(values@), 0);
            if k < strings_view(values@).len() {
                config_result(r, spec_header_value_error(strings_view(values@)[k]))
            } else {
                r is Ok
            }
        }),
{
    let ghost vs = strings_view(values@);
    proof {
        lemma_first_long_value(vs, 0);
    }
    let n = values.len();
    let mut i: usize = 0;
    while i < n
        invariant
            n == values@.len(),
            vs == strings_view(values@),
            first_long_value(vs, 0) <= vs.len(),
            first_long_value(vs, 0) < vs.len() ==> spec_header_value_error(vs[first_long_value(vs, 0)]) is Some,
            i <= n,
            first_long_value(vs, 0) == first_long_value(vs, i as int),
        decreases n - i,
    {
        assert(vs[i as int] == values@[i as int]@);
        match validate_header_value(values[i].as_str()) {
            Err(e) => {
                assert(first_long_value(vs, i as int) == i);
                return Err(e);
            },
            Ok(()) => {},
        }
        i = i + 1;
    }
    Ok(())
}

impl HeaderMatcher {
    /// A matcher of the named header (kept in lower case), ignoring case;
    /// the name must be valid, the values at most a hundred and each within
    /// the length limit.
    pub fn new(header_name: &str, allowed_values: Vec<String>) -> (r: Result<Self, LimiteronError>)
        ensures
            spec_header_name_error(header_name@) is Some ==> (r matches Err(LimiteronError::ConfigError(m))
                && Some(m@) == spec_header_name_error(header_name@)),
            spec_header_name_error(header_name@) is None && allowed_values@.len() > MAX_ALLOWED_VALUES_COUNT
                ==> (r matches Err(LimiteronError::ValidationError(m)) && m@ == too_many_values_message()),
            ({
                let k = first_long_value(strings_view(allowed_values@), 0);
                spec_header_name_error(header_name@) is None && allowed_values@.len()
                    <= MAX_ALLOWED_VALUES_COUNT ==> if k < allowed_values@.len() {
                    (r matches Err(LimiteronError::ConfigError(m)) && Some(m@) == spec_header_value_error(
                        strings_view(allowed_values@)[k],
                    ))
                } else {
                    (r matches Ok(h) && h@ == (HeaderView {
                        header_name: spec_to_lowercase(header_name@),
                        allowed_values: strings_view(allowed_values@),
                        case_sensitive: false,
                    }))
                }
            }),
    {
        validate_header_name(header_name)?;
        if allowed_values.len() > MAX_ALLOWED_VALUES_COUNT {
            return Err(LimiteronError::ValidationError(String::from_str("允许的值数量超过限制（最大 100）")));
        }
        check_values(&allowed_values)?;
        Ok(HeaderMatcher { header_name: to_lowercase(header_name), allowed_values, case_sensitive: false })
    }

    /// The matcher, case-sensitive or not.
    pub fn with_case_sensitive(self, case_sensitive: bool) -> (r: Self)
        ensures
            r@ == (HeaderView { case_sensitive, ..self@ }),
    {
        let mut m = self;
        m.case_sensitive = case_sensitive;
        m
    }

    /// The header name, in lower case.
    pub fn header_name(&self) -> (r: &str)
        ensures
            r@ == self@.header_name,
    {
        self.header_name.as_str()
    }

    /// The allowed values.
    pub fn allowed_values(&self) -> (r: &[String])
        ensures
            strings_view(r@) == self@.allowed_values,
    {
        self.allowed_values.as_slice()
    }

    /// Whether a header value, if present, is allowed.
    pub fn matches_value(&self, value: Option<&str>) -> (r: bool)
        ensures
            r == value_allowed(self@, match value {
                Some(v) => Some(v@),
                None => None,
            }),
    {
        let v = match value {
            None => return false,
            Some(v) => v,
        };
        let ghost av = self@.allowed_values;
        let n = self.allowed_values.len();
        if self.case_sensitive {
            let mut k: usize = 0;
            while k < n
                invariant
                    n == self.allowed_values@.len(),
                    av == strings_view(self.allowed_values@),
                    av == self@.allowed_values,
                    self.case_sensitive,
                    value == Some(v),
                    k <= n,
                    forall|j: int| 0 <= j < k ==> av[j] != v@,
                decreases n - k,
            {
                if str_eq(self.allowed_values[k].as_str(), v) {
                    assert(av[k as int] == v@);
                    return true;
                }
                k = k + 1;
            }
            false
        } else {
            let lv = to_lowercase(v);
            let mut k: usize = 0;
            while k < n
                invariant
                    n == self.allowed_values@.len(),
                    av == strings_view(self.allowed_values@),
                    av == self@.allowed_values,
                    !self.case_sensitive,
                    value == Some(v),
                    k <= n,
                    lv@ == spec_to_lowercase(v@),
                    forall|j: int| 0 <= j < k ==> spec_to_lowercase(#[trigger] av[j]) != spec_to_lowercase(v@),
                decreases n - k,
            {
                let la = to_lowercase(self.allowed_values[k].as_str());
                if str_eq(la.as_str(), lv.as_str()) {
                    assert(spec_to_lowercase(av[k as int]) == spec_to_lowercase(v@));
                    return true;
                }
                k = k + 1;
            }
            false
        }
    }
}

fn strings_of(vals: &Vec<JsonValue>) -> (r: Vec<String>)
    ensures
        strings_view(r@) == json_strings(vals@),
{
    let n = vals.len();
    let mut out: Vec<String> = Vec::new();
    let mut i: usize = 0;
    while i < n
        invariant
            n == vals@.len(),
            i <= n,
            strings_view(out@) == json_strings(vals@.take(i as int)),
        decreases n - i,
    {
        assert(vals@.take(i + 1).drop_last() =~= vals@.take(i as int));
        assert(vals@.take(i + 1).last() == vals@[i as int]);
        let ghost before = strings_view(out@);
        match vals[i].as_str() {
            Some(s) => {
                out.push(String::from_str(s));
                assert(strings_view(out@) =~= before.push(s@));
            },
            None => {},
        }
        i = i + 1;
    }
    assert(vals@.take(n as int) =~= vals@);
    out
}

impl CustomMatcher for HeaderMatcher {
    open spec fn spec_name(&self) -> Seq<char> {
        "header"@
    }

    open spec fn may_answer(&self, context: RequestContext, r: Result<bool, LimiteronError>) -> bool {
        r == Ok::<bool, LimiteronError>(value_allowed(self@, header_lookup(context.headers@, self@.header_name)))
    }

    open spec fn load_answer(&self, config: JsonValue, r: Result<(), LimiteronError>) -> bool {
        match spec_header_load(self@, config).1 {
            None => r is Ok,
            Some(m) => r matches Err(LimiteronError::ConfigError(x)) && x@ == m,
        }
    }

    fn name(&self) -> (r: &str)
        ensures
            r@ == "header"@,
    {
        "header"
    }

    fn matches(&self, context: &RequestContext) -> (r: Result<bool, LimiteronError>)
        ensures
            r == Ok::<bool, LimiteronError>(value_allowed(self@, header_lookup(context.headers@, self@.header_name))),
    {
        let v = context.get_header(self.header_name.as_str());
        let value = match v {
            Some(s) => Some(s.as_str()),
            None => None,
        };
        Ok(self.matches_value(value))
    }

    fn load_config(&mut self, config: &JsonValue) -> (r: Result<(), LimiteronError>)
        ensures
            final(self)@ == spec_header_load(old(self)@, *config).0,
            match spec_header_load(old(self)@, *config).1 {
                None => r is Ok,
                Some(m) => r matches Err(LimiteronError::ConfigError(x)) && x@ == m,
            },
    {
        let ghost h0 = self@;
        let ghost ns = spec_header_load(h0, *config);
        match config.get("header_name") {
            Some(JsonValue::String(name)) => {
                validate_header_name(name.as_str())?;
                self.header_name = to_lowercase(name.as_str());
            },
            _ => {},
        }
        let ghost h1 = self@;
        match config.get("allowed_values") {
            Some(JsonValue::Array(vals)) => {
                if vals.len() > MAX_ALLOWED_VALUES_COUNT {
                    return Err(LimiteronError::ConfigError(String::from_str("允许的值数量超过限制（最大 100）")));
                }
                let taken = strings_of(vals);
                assert(strings_view(taken@).len() == taken@.len());
                check_values(&taken)?;
                self.allowed_values = taken;
            },
            _ => {},
        }
        match config.get("case_sensitive") {
            Some(JsonValue::Bool(b)) => {
                self.case_sensitive = *b;
            },
            _ => {},
        }
        Ok(())
    }
}

} // verus!
