//! The command line tool for rule files: which command the arguments ask
//! for, the warnings a configuration draws, and the JSON answer with its exit
//! code. Reading and writing files is left to the caller, which hands the
//! outcome of each step to the functions here.

use vstd::prelude::*;
use crate::config::flow::{config_is_valid, validation_answer, FlowControlConfig};
use crate::config::rule::Rule;
use crate::json::{JsonNumber, JsonValue};
use crate::text::{chars_of, concat_str, decimal, is_digit, str_eq, strings_view, u64_to_string};
use std::collections::HashSet;

verus! {

broadcast use vstd::std_specs::hash::group_hash_axioms;

/// Exit code of a success.
pub const EXIT_OK: i32 = 0;

/// Exit code of a success with warnings.
pub const EXIT_WARNINGS: i32 = 1;

/// Exit code of an error: a file that cannot be read or parsed, an invalid
/// configuration, or a usage error.
pub const EXIT_ERROR: i32 = 2;

// ---------------------------------------------------------------------------
// Warnings
// ---------------------------------------------------------------------------

/// The number of dots in a string.
pub open spec fn dot_count(s: Seq<char>) -> nat
    decreases s.len(),
{
    if s.len() == 0 {
        0
    } else {
        dot_count(s.drop_last()) + if s.last() == '.' {
            1nat
        } else {
            0nat
        }
    }
}

/// A version of the shape `x.y.z`: three nonempty runs of decimal digits
/// separated by single dots.
pub open spec fn is_semver(s: Seq<char>) -> bool {
    &&& s.len() > 0
    &&& forall|i: int| 0 <= i < s.len() ==> is_digit(#[trigger] s[i]) || s[i] == '.'
    &&& dot_count(s) == 2
    &&& s[0] != '.'
    &&& s.last() != '.'
    &&& forall|i: int| 0 <= i < s.len() - 1 ==> !(#[trigger] s[i] == '.' && s[i + 1] == '.')
}

/// Whether a rule before the `i`th has the same priority.
pub open spec fn priority_seen_before(rules: Seq<Rule>, i: int) -> bool {
    exists|j: int| 0 <= j < i && #[trigger] rules[j].priority == rules[i].priority
}

/// The warning about a version that is not of the shape `x.y.z`.
pub open spec fn version_warning(version: Seq<char>) -> Seq<char> {
    "version '"@ + version + "' 不是 x.y.z 数字形态（语义化版本建议）"@
}

/// The warning about a rule whose priority an earlier rule already has.
pub open spec fn priority_warning(rule: Rule) -> Seq<char> {
    "规则 '"@ + rule.id@ + "' 的 priority "@ + decimal(rule.priority as nat)
        + " 与其他规则重复（匹配顺序歧义）"@
}

/// The priority warnings of the first `n` rules, in rule order.
pub open spec fn priority_warnings(rules: Seq<Rule>, n: int) -> Seq<Seq<char>>
    decreases n,
{
    if n <= 0 {
        Seq::empty()
    } else {
        priority_warnings(rules, n - 1) + if priority_seen_before(rules, n - 1) {
            seq![priority_warning(rules[n - 1])]
        } else {
            Seq::empty()
        }
    }
}

/// The warnings a configuration draws: its version first, then each rule
/// whose priority repeats an earlier one.
pub open spec fn spec_warnings(config: FlowControlConfig) -> Seq<Seq<char>> {
    (if is_semver(config.version@) {
        Seq::empty()
    } else {
        seq![version_warning(config.version@)]
    }) + priority_warnings(config.rules@, config.rules@.len() as int)
}

/// Whether the version has the shape `x.y.z`.
pub fn version_is_semver(version: &str) -> (r: bool)
    ensures
        r == is_semver(version@),
{
    let v = chars_of(version);
    let n = v.len();
    let mut dots: usize = 0;
    let mut chars_ok = true;
    let mut no_double_dot = true;
    let mut i: usize = 0;
    while i < n
        invariant
            n == v@.len(),
            i <= n,
            dots <= i,
            dots == dot_count(v@.take(i as int)),
            chars_ok == (forall|j: int| 0 <= j < i ==> is_digit(#[trigger] v@[j]) || v@[j] == '.'),
            no_double_dot == (forall|j: int|
                0 <= j < i - 1 ==> !(#[trigger] v@[j] == '.' && v@[j + 1] == '.')),
        decreases n - i,
    {
        let c = v[i];
        assert(v@.take(i + 1).drop_last() =~= v@.take(i as int));
        if c == '.' {
            dots = dots + 1;
            if i > 0 && v[i - 1] == '.' {
                no_double_dot = false;
            }
        } else if !('0' <= c && c <= '9') {
            chars_ok = false;
        }
        proof {
            if !(i > 0 && v@[i - 1] == '.' && c == '.') {
                assert forall|j: int| 0 <= j < i + 1 - 1 implies !(#[trigger] v@[j] == '.'
                    && v@[j + 1] == '.') <== (forall|j: int|
                    0 <= j < i - 1 ==> !(#[trigger] v@[j] == '.' && v@[j + 1] == '.')) by {
                    if j == i - 1 {
                    }
                }
            }
        }
        i = i + 1;
    }
    assert(v@.take(n as int) =~= v@);
    n > 0 && chars_ok && dots == 2 && v[0] != '.' && v[n - 1] != '.' && no_double_dot
}

/// The warnings a configuration draws; they do not make it invalid.
pub fn collect_warnings(config: &FlowControlConfig) -> (r: Vec<String>)
    ensures
        strings_view(r@) == spec_warnings(*config),
{
    let mut warnings: Vec<String> = Vec::new();
    if !version_is_semver(config.version.as_str()) {
        let w = concat_str("version '", config.version.as_str());
        warnings.push(concat_str(w.as_str(), "' 不是 x.y.z 数字形态（语义化版本建议）"));
    }
    let ghost head = strings_view(warnings@);
    let ghost rules = config.rules@;
    let mut seen: HashSet<u16> = HashSet::new();
    let n = config.rules.len();
    let mut i: usize = 0;
    while i < n
        invariant
            n == rules.len(),
            rules == config.rules@,
            i <= n,
            head == (if is_semver(config.version@) {
                Seq::<Seq<char>>::empty()
            } else {
                seq![version_warning(config.version@)]
            }),
            strings_view(warnings@) == head + priority_warnings(rules, i as int),
            forall|p: u16| #[trigger]
                seen@.contains(p) <==> exists|j: int| 0 <= j < i && rules[j].priority == p,
        decreases n - i,
    {
        let rule = &config.rules[i];
        let fresh = seen.insert(rule.priority);
        let ghost before = strings_view(warnings@);
        if !fresh {
            let w = concat_str("规则 '", rule.id.as_str());
            let w = concat_str(w.as_str(), "' 的 priority ");
            let w = concat_str(w.as_str(), u64_to_string(rule.priority as u64).as_str());
            warnings.push(concat_str(w.as_str(), " 与其他规则重复（匹配顺序歧义）"));
            assert(priority_seen_before(rules, i as int));
            assert(strings_view(warnings@) =~= before.push(priority_warning(rules[i as int])));
        } else {
            assert(!priority_seen_before(rules, i as int));
            assert(strings_view(warnings@) =~= before);
        }
        proof {
            assert forall|p: u16| #[trigger]
                seen@.contains(p) <==> exists|j: int| 0 <= j < i + 1 && rules[j].priority == p by {
                if seen@.contains(p) && p != rules[i as int].priority {
                    let j = choose|j: int| 0 <= j < i && rules[j].priority == p;
                    assert(0 <= j < i + 1 && rules[j].priority == p);
                }
                if exists|j: int| 0 <= j < i + 1 && rules[j].priority == p {
                    let j = choose|j: int| 0 <= j < i + 1 && rules[j].priority == p;
                    if j < i {
                        assert(exists|j: int| 0 <= j < i && rules[j].priority == p);
                    }
                }
            }
        }
        i = i + 1;
    }
    warnings
}

// ---------------------------------------------------------------------------
// Answers
// ---------------------------------------------------------------------------

/// One run of the tool: the exit code and the JSON object it prints.
#[derive(Debug, PartialEq)]
pub struct CliInvocation {
    /// Exit code: `EXIT_OK`, `EXIT_WARNINGS` or `EXIT_ERROR`.
    pub exit_code: i32,
    /// The printed object; its first member `command` names the command.
    pub output: JsonValue,
}

/// The keys of the members of an object, in order.
pub open spec fn keys_of(v: JsonValue) -> Seq<Seq<char>> {
    match v {
        JsonValue::Object(m) => field_keys(m@),
        _ => Seq::empty(),
    }
}

/// The keys of a list of members.
pub open spec fn field_keys(fields: Seq<(String, JsonValue)>) -> Seq<Seq<char>> {
    Seq::new(fields.len(), |i: int| fields[i].0@)
}

/// No key occurs twice among the members.
pub open spec fn distinct_keys(fields: Seq<(String, JsonValue)>) -> bool {
    forall|a: int, b: int|
        0 <= a < b < fields.len() ==> (#[trigger] fields[a]).0@ != (#[trigger] fields[b]).0@
}

/// The value is the string `s`.
pub open spec fn is_str(v: JsonValue, s: Seq<char>) -> bool {
    v matches JsonValue::String(x) && x@ == s
}

/// The value is an array of the strings `ss`, in order.
pub open spec fn is_str_array(v: JsonValue, ss: Seq<Seq<char>>) -> bool {
    &&& v matches JsonValue::Array(a)
    &&& v->Array_0@.len() == ss.len()
    &&& forall|i: int| 0 <= i < ss.len() ==> is_str(#[trigger] v->Array_0@[i], ss[i])
}

/// The member `k` of the object is the string `s`.
pub open spec fn str_at(v: JsonValue, k: Seq<char>, s: Seq<char>) -> bool {
    v.spec_get(k) matches Some(x) && is_str(x, s)
}

/// The member `k` of the object is the boolean `b`.
pub open spec fn bool_at(v: JsonValue, k: Seq<char>, b: bool) -> bool {
    v.spec_get(k) == Some(JsonValue::Bool(b))
}

/// The member `k` of the object is the nonnegative integer `n`.
pub open spec fn count_at(v: JsonValue, k: Seq<char>, n: u64) -> bool {
    v.spec_get(k) == Some(JsonValue::Number(JsonNumber::PosInt(n)))
}

/// The member `k` of the object is an array of the strings `ss`.
pub open spec fn strs_at(v: JsonValue, k: Seq<char>, ss: Seq<Seq<char>>) -> bool {
    v.spec_get(k) matches Some(x) && is_str_array(x, ss)
}

/// An answer with the exit code `code` for `command` whose members after
/// `command` have the keys `keys`, in order.
pub open spec fn answers(inv: CliInvocation, code: i32, command: Seq<char>, keys: Seq<Seq<char>>) -> bool {
    &&& inv.exit_code == code
    &&& keys_of(inv.output) == seq!["command"@] + keys
    &&& str_at(inv.output, "command"@, command)
}

/// The lengths and first letters of the member keys, which tell them apart.
proof fn lemma_answer_keys()
    ensures
        "command"@.len() == 7 && "command"@[0] == 'c' && "command"@[1] == 'o',
        "file"@.len() == 4 && "file"@[0] == 'f' && "file"@[1] == 'i',
        "ok"@.len() == 2 && "ok"@[0] == 'o' && "ok"@[1] == 'k',
        "valid"@.len() == 5 && "valid"@[0] == 'v' && "valid"@[1] == 'a',
        "errors"@.len() == 6 && "errors"@[0] == 'e' && "errors"@[1] == 'r',
        "warnings"@.len() == 8 && "warnings"@[0] == 'w' && "warnings"@[1] == 'a',
        "rule_count"@.len() == 10 && "rule_count"@[0] == 'r' && "rule_count"@[1] == 'u',
        "config_hash"@.len() == 11 && "config_hash"@[0] == 'c' && "config_hash"@[1] == 'o',
        "applied"@.len() == 7 && "applied"@[0] == 'a' && "applied"@[1] == 'p',
        "dry_run"@.len() == 7 && "dry_run"@[0] == 'd' && "dry_run"@[1] == 'r',
        "rules_applied"@.len() == 13 && "rules_applied"@[0] == 'r' && "rules_applied"@[1] == 'u',
        "written_to"@.len() == 10 && "written_to"@[0] == 'w' && "written_to"@[1] == 'r',
        "format"@.len() == 6 && "format"@[0] == 'f' && "format"@[1] == 'o',
        "config"@.len() == 6 && "config"@[0] == 'c' && "config"@[1] == 'o',
        "error"@.len() == 5 && "error"@[0] == 'e' && "error"@[1] == 'r',
        "usage"@.len() == 5 && "usage"@[0] == 'u' && "usage"@[1] == 's',
        "version"@.len() == 7 && "version"@[0] == 'v' && "version"@[1] == 'e',
        "validate"@.len() == 8 && "validate"@[0] == 'v' && "validate"@[1] == 'a',
        "export"@.len() == 6 && "export"@[0] == 'e' && "export"@[1] == 'x',
        "apply"@.len() == 5 && "apply"@[0] == 'a' && "apply"@[1] == 'p',
{
    reveal_strlit("command");
    reveal_strlit("file");
    reveal_strlit("ok");
    reveal_strlit("valid");
    reveal_strlit("errors");
    reveal_strlit("warnings");
    reveal_strlit("rule_count");
    reveal_strlit("config_hash");
    reveal_strlit("applied");
    reveal_strlit("dry_run");
    reveal_strlit("rules_applied");
    reveal_strlit("written_to");
    reveal_strlit("format");
    reveal_strlit("config");
    reveal_strlit("error");
    reveal_strlit("usage");
    reveal_strlit("version");
    reveal_strlit("validate");
    reveal_strlit("export");
    reveal_strlit("apply");
}

/// A JSON string.
fn json_string(s: &str) -> (r: JsonValue)
    ensures
        is_str(r, s@),
{
    JsonValue::String(String::from_str(s))
}

/// A JSON array of the strings, in order.
fn json_strings(v: &Vec<String>) -> (r: JsonValue)
    ensures
        is_str_array(r, strings_view(v@)),
{
    let mut a: Vec<JsonValue> = Vec::new();
    let mut i: usize = 0;
    while i < v.len()
        invariant
            i <= v@.len(),
            a@.len() == i,
            forall|j: int| 0 <= j < i ==> is_str(#[trigger] a@[j], v@[j]@),
        decreases v@.len() - i,
    {
        a.push(json_string(v[i].as_str()));
        i = i + 1;
    }
    JsonValue::Array(a)
}

/// A JSON array holding one string.
fn json_one_string(s: &str) -> (r: JsonValue)
    ensures
        is_str_array(r, seq![s@]),
{
    let mut a: Vec<JsonValue> = Vec::new();
    a.push(json_string(s));
    JsonValue::Array(a)
}

/// A member of an object.
fn member(key: &str, value: JsonValue) -> (r: (String, JsonValue))
    ensures
        r.0@ == key@,
        r.1 == value,
{
    (String::from_str(key), value)
}

/// A JSON object of the given members, in order.
fn object(fields: Vec<(String, JsonValue)>) -> (r: JsonValue)
    requires
        distinct_keys(fields@),
    ensures
        keys_of(r) == field_keys(fields@),
        forall|i: int|
            0 <= i < fields@.len() ==> r.spec_get((#[trigger] fields@[i]).0@) == Some(fields@[i].1),
{
    proof {
        assert forall|i: int| 0 <= i < fields@.len() implies crate::json::spec_lookup(
            fields@,
            (#[trigger] fields@[i]).0@,
        ) == Some(fields@[i].1) by {
            crate::json::lemma_lookup_distinct(fields@, i);
        }
    }
    JsonValue::Object(fields)
}

/// The answer object: `command` first, then the given members.
fn answer(exit_code: i32, command: &str, fields: Vec<(String, JsonValue)>) -> (r: CliInvocation)
    requires
        distinct_keys(fields@),
        forall|i: int| 0 <= i < fields@.len() ==> (#[trigger] fields@[i]).0@ != "command"@,
    ensures
        r.exit_code == exit_code,
        keys_of(r.output) == seq!["command"@] + field_keys(fields@),
        str_at(r.output, "command"@, command@),
        forall|i: int|
            0 <= i < fields@.len() ==> r.output.spec_get((#[trigger] fields@[i]).0@) == Some(
                fields@[i].1,
            ),
{
    let mut members: Vec<(String, JsonValue)> = Vec::new();
    members.push(member("command", json_string(command)));
    let ghost head = members@;
    let mut rest = fields;
    let ghost tail = rest@;
    members.append(&mut rest);
    let ghost m = members@;
    proof {
        assert(m =~= head + tail);
        assert(distinct_keys(m)) by {
            assert forall|a: int, b: int|
                0 <= a < b < m.len() implies (#[trigger] m[a]).0@ != (#[trigger] m[b]).0@ by {
                if a == 0 {
                    assert(m[b] == tail[b - 1]);
                } else {
                    assert(m[a] == tail[a - 1]);
                    assert(m[b] == tail[b - 1]);
                }
            }
        }
        assert(field_keys(m) =~= seq!["command"@] + field_keys(tail));
    }
    let output = object(members);
    proof {
        assert(m[0].0@ == "command"@);
        assert forall|i: int| 0 <= i < tail.len() implies output.spec_get(
            (#[trigger] tail[i]).0@,
        ) == Some(tail[i].1) by {
            assert(m[i + 1] == tail[i]);
        }
    }
    CliInvocation { exit_code, output }
}

/// The answer to an argument list that asks for nothing the tool does.
pub fn usage_error(command: &str, message: &str) -> (r: CliInvocation)
    ensures
        answers(r, EXIT_ERROR, command@, seq!["ok"@, "error"@]),
        bool_at(r.output, "ok"@, false),
        str_at(r.output, "error"@, message@),
{
    let mut f: Vec<(String, JsonValue)> = Vec::new();
    f.push(member("ok", JsonValue::Bool(false)));
    f.push(member("error", json_string(message)));
    proof {
        lemma_answer_keys();
        assert(f@[0].0@ == "ok"@);
        assert(f@[1].0@ == "error"@);
        assert(field_keys(f@) =~= seq!["ok"@, "error"@]);
    }
    answer(EXIT_ERROR, command, f)
}

/// The answer to `help`: the usage of each command.
pub fn usage() -> (r: CliInvocation)
    ensures
        answers(r, EXIT_OK, "help"@, seq!["ok"@, "usage"@]),
        bool_at(r.output, "ok"@, true),
        r.output.spec_get("usage"@) matches Some(u) && {
            &&& keys_of(u) == seq!["validate"@, "export"@, "apply"@]
            &&& str_at(u, "validate"@, "validate <config-file>"@)
            &&& str_at(u, "export"@, "export <config-file>"@)
            &&& str_at(u, "apply"@, "apply <config-file> [--out <output-file>]"@)
        },
{
    let mut u: Vec<(String, JsonValue)> = Vec::new();
    u.push(member("validate", json_string("validate <config-file>")));
    u.push(member("export", json_string("export <config-file>")));
    u.push(member("apply", json_string("apply <config-file> [--out <output-file>]")));
    proof {
        lemma_answer_keys();
        assert(field_keys(u@) =~= seq!["validate"@, "export"@, "apply"@]);
        assert(u@[0].0@ == "validate"@);
        assert(u@[1].0@ == "export"@);
        assert(u@[2].0@ == "apply"@);
    }
    let usage = object(u);
    let mut f: Vec<(String, JsonValue)> = Vec::new();
    f.push(member("ok", JsonValue::Bool(true)));
    f.push(member("usage", usage));
    proof {
        assert(f@[0].0@ == "ok"@);
        assert(f@[1].0@ == "usage"@);
        assert(field_keys(f@) =~= seq!["ok"@, "usage"@]);
    }
    answer(EXIT_OK, "help", f)
}

/// The answer to `--version`: the given version of the tool.
pub fn version_report(version: &str) -> (r: CliInvocation)
    ensures
        answers(r, EXIT_OK, "version"@, seq!["ok"@, "version"@]),
        bool_at(r.output, "ok"@, true),
        str_at(r.output, "version"@, version@),
{
    let mut f: Vec<(String, JsonValue)> = Vec::new();
    f.push(member("ok", JsonValue::Bool(true)));
    f.push(member("version", json_string(version)));
    proof {
        lemma_answer_keys();
        assert(f@[0].0@ == "ok"@);
        assert(f@[1].0@ == "version"@);
        assert(field_keys(f@) =~= seq!["ok"@, "version"@]);
    }
    answer(EXIT_OK, "version", f)
}

// ---------------------------------------------------------------------------
// Arguments
// ---------------------------------------------------------------------------

/// What the arguments ask for.
#[derive(Debug, PartialEq)]
pub enum CliCommand {
    /// Print the usage.
    Help,
    /// Print the version.
    Version,
    /// Check the rule file at the path.
    Validate(String),
    /// Print the rule file at the path as canonical JSON.
    Export(String),
    /// Check the rule file and plan applying it, writing the canonical JSON
    /// to `out` when given.
    Apply { path: String, out: Option<String> },
    /// A usage error of `command`, with its message.
    Invalid { command: String, message: String },
}

/// The abstract form of a command.
pub enum CommandView {
    Help,
    Version,
    Validate(Seq<char>),
    Export(Seq<char>),
    Apply(Seq<char>, Option<Seq<char>>),
    Invalid(Seq<char>, Seq<char>),
}

/// The abstract form of an optional string.
pub open spec fn opt_view(o: Option<String>) -> Option<Seq<char>> {
    match o {
        Some(s) => Some(s@),
        None => None,
    }
}

impl View for CliCommand {
    type V = CommandView;

    open spec fn view(&self) -> CommandView {
        match self {
            CliCommand::Help => CommandView::Help,
            CliCommand::Version => CommandView::Version,
            CliCommand::Validate(p) => CommandView::Validate(p@),
            CliCommand::Export(p) => CommandView::Export(p@),
            CliCommand::Apply { path, out } => CommandView::Apply(path@, opt_view(*out)),
            CliCommand::Invalid { command, message } => CommandView::Invalid(command@, message@),
        }
    }
}

/// The options of `apply` from the `i`th of its arguments on, the path being
/// the first: `--out <file>` may come any number of times, the last one
/// counting; anything else is an error.
pub open spec fn spec_apply_options(rest: Seq<Seq<char>>, i: int, out: Option<Seq<char>>) -> Result<
    Option<Seq<char>>,
    Seq<char>,
>
    decreases rest.len() - i,
{
    if i >= rest.len() || i < 0 {
        Ok(out)
    } else if rest[i] == "--out"@ {
        if i + 1 < rest.len() {
            spec_apply_options(rest, i + 2, Some(rest[i + 1]))
        } else {
            Err("--out requires a file argument"@)
        }
    } else {
        Err("unknown option '"@ + rest[i] + "'"@)
    }
}

/// The command that an argument list asks for; the program name is not part
/// of it.
pub open spec fn spec_parse_args(a: Seq<Seq<char>>) -> CommandView {
    if a.len() == 0 {
        CommandView::Help
    } else {
        let c = a[0];
        if c == "help"@ || c == "--help"@ || c == "-h"@ {
            CommandView::Help
        } else if c == "--version"@ || c == "version"@ {
            CommandView::Version
        } else if c == "validate"@ || c == "export"@ {
            if a.len() < 2 {
                CommandView::Invalid(c, "missing <config-file> argument"@)
            } else if c == "validate"@ {
                CommandView::Validate(a[1])
            } else {
                CommandView::Export(a[1])
            }
        } else if c == "apply"@ {
            if a.len() < 2 {
                CommandView::Invalid("apply"@, "missing <config-file> argument"@)
            } else {
                match spec_apply_options(a.skip(1), 1, None) {
                    Ok(out) => CommandView::Apply(a[1], out),
                    Err(m) => CommandView::Invalid("apply"@, m),
                }
            }
        } else {
            CommandView::Invalid(c, "unknown command"@)
        }
    }
}

/// Reads the command from the arguments.
pub fn parse_args(args: &Vec<String>) -> (r: CliCommand)
    ensures
        r@ == spec_parse_args(strings_view(args@)),
{
    let ghost a = strings_view(args@);
    if args.len() == 0 {
        return CliCommand::Help;
    }
    let c = args[0].as_str();
    assert(a[0] == c@);
    if str_eq(c, "help") || str_eq(c, "--help") || str_eq(c, "-h") {
        return CliCommand::Help;
    }
    if str_eq(c, "--version") || str_eq(c, "version") {
        return CliCommand::Version;
    }
    if str_eq(c, "validate") || str_eq(c, "export") {
        if args.len() < 2 {
            return CliCommand::Invalid {
                command: String::from_str(c),
                message: String::from_str("missing <config-file> argument"),
            };
        }
        let path = args[1].clone();
        assert(a[1] == path@);
        if str_eq(c, "validate") {
            return CliCommand::Validate(path);
        }
        return CliCommand::Export(path);
    }
    if !str_eq(c, "apply") {
        return CliCommand::Invalid {
            command: String::from_str(c),
            message: String::from_str("unknown command"),
        };
    }
    if args.len() < 2 {
        return CliCommand::Invalid {
            command: String::from_str("apply"),
            message: String::from_str("missing <config-file> argument"),
        };
    }
    let ghost rest = a.skip(1);
    let n = args.len() - 1;
    let mut out: Option<String> = None;
    let mut i: usize = 1;
    while i < n
        invariant
            a == strings_view(args@),
            rest == a.skip(1),
            n == rest.len(),
            n + 1 == args@.len(),
            1 <= i <= n,
            spec_parse_args(a) == match spec_apply_options(rest, 1, None) {
                Ok(o) => CommandView::Apply(a[1], o),
                Err(m) => CommandView::Invalid("apply"@, m),
            },
            spec_apply_options(rest, i as int, opt_view(out)) == spec_apply_options(rest, 1, None),
        decreases n - i,
    {
        let opt = args[i + 1].as_str();
        assert(rest[i as int] == a[i + 1]);
        assert(rest[i as int] == opt@);
        if str_eq(opt, "--out") {
            if i + 1 < n {
                let file = args[i + 2].clone();
                assert(rest[i + 1] == a[i + 2]);
                assert(rest[i + 1] == file@);
                out = Some(file);
                i = i + 2;
            } else {
                return CliCommand::Invalid {
                    command: String::from_str("apply"),
                    message: String::from_str("--out requires a file argument"),
                };
            }
        } else {
            let m = concat_str("unknown option '", opt);
            return CliCommand::Invalid {
                command: String::from_str("apply"),
                message: concat_str(m.as_str(), "'"),
            };
        }
    }
    let path = args[1].clone();
    assert(a[1] == path@);
    CliCommand::Apply { path, out }
}

// ---------------------------------------------------------------------------
// Reports
// ---------------------------------------------------------------------------

/// The message of a configuration that could not be turned into JSON.
pub open spec fn spec_serialization_failure(e: Seq<char>) -> Seq<char> {
    "config serialization failed: "@ + e
}

/// Builds the message of a configuration that could not be turned into JSON.
pub fn serialization_failure(e: &str) -> (r: String)
    ensures
        r@ == spec_serialization_failure(e@),
{
    concat_str("config serialization failed: ", e)
}

/// The message of a canonical configuration that could not be written.
pub open spec fn spec_write_failure(out: Seq<char>, e: Seq<char>) -> Seq<char> {
    "failed to write normalized config to '"@ + out + "': "@ + e
}

/// Builds the message of a canonical configuration that could not be written.
pub fn write_failure(out: &str, e: &str) -> (r: String)
    ensures
        r@ == spec_write_failure(out@, e@),
{
    let m = concat_str("failed to write normalized config to '", out);
    let m = concat_str(m.as_str(), "': ");
    concat_str(m.as_str(), e)
}

/// The exit code of a success: with warnings or without.
pub open spec fn success_code(warnings: Seq<Seq<char>>) -> i32 {
    if warnings.len() == 0 {
        EXIT_OK
    } else {
        EXIT_WARNINGS
    }
}

/// The answer to `validate` for the rule file at `path`: `loaded` is the
/// configuration read from it or the reason it could not be read, and
/// `config_hash` the hash of that configuration.
pub fn validate_report(path: &str, loaded: &Result<FlowControlConfig, String>, config_hash: &str) -> (r: CliInvocation)
    ensures
        match loaded {
            Err(e) => {
                &&& answers(r, EXIT_ERROR, "validate"@, seq!["file"@, "ok"@, "valid"@, "errors"@, "warnings"@])
                &&& str_at(r.output, "file"@, path@)
                &&& bool_at(r.output, "ok"@, false)
                &&& bool_at(r.output, "valid"@, false)
                &&& strs_at(r.output, "errors"@, seq![e@])
                &&& strs_at(r.output, "warnings"@, Seq::empty())
            },
            Ok(c) => {
                let w = spec_warnings(*c);
                if config_is_valid(*c) {
                    &&& answers(
                        r,
                        success_code(w),
                        "validate"@,
                        seq!["file"@, "ok"@, "valid"@, "rule_count"@, "config_hash"@, "errors"@, "warnings"@],
                    )
                    &&& str_at(r.output, "file"@, path@)
                    &&& bool_at(r.output, "ok"@, true)
                    &&& bool_at(r.output, "valid"@, true)
                    &&& count_at(r.output, "rule_count"@, c.rules@.len() as u64)
                    &&& str_at(r.output, "config_hash"@, config_hash@)
                    &&& strs_at(r.output, "errors"@, Seq::empty())
                    &&& strs_at(r.output, "warnings"@, w)
                } else {
                    exists|m: String| #![trigger validation_answer(*c, Err(m))] {
                        &&& validation_answer(*c, Err(m))
                        &&& answers(r, EXIT_ERROR, "validate"@, seq!["file"@, "ok"@, "valid"@, "errors"@, "warnings"@])
                        &&& str_at(r.output, "file"@, path@)
                        &&& bool_at(r.output, "ok"@, false)
                        &&& bool_at(r.output, "valid"@, false)
                        &&& strs_at(r.output, "errors"@, seq![m@])
                        &&& strs_at(r.output, "warnings"@, w)
                    }
                }
            },
        },
{
    proof {
        lemma_answer_keys();
    }
    let mut f: Vec<(String, JsonValue)> = Vec::new();
    f.push(member("file", json_string(path)));
    match loaded {
        Err(e) => {
            f.push(member("ok", JsonValue::Bool(false)));
            f.push(member("valid", JsonValue::Bool(false)));
            f.push(member("errors", json_one_string(e.as_str())));
            f.push(member("warnings", json_strings(&Vec::new())));
            proof {
                assert(f@[0].0@ == "file"@);
                assert(f@[1].0@ == "ok"@);
                assert(f@[2].0@ == "valid"@);
                assert(f@[3].0@ == "errors"@);
                assert(f@[4].0@ == "warnings"@);
                assert(field_keys(f@) =~= seq!["file"@, "ok"@, "valid"@, "errors"@, "warnings"@]);
                assert(strings_view(Seq::<String>::empty()) =~= Seq::<Seq<char>>::empty());
            }
            answer(EXIT_ERROR, "validate", f)
        },
        Ok(config) => {
            let warnings = collect_warnings(config);
            let ghost w = strings_view(warnings@);
            let checked = config.validate();
            match checked {
                Ok(()) => {
                    f.push(member("ok", JsonValue::Bool(true)));
                    f.push(member("valid", JsonValue::Bool(true)));
                    f.push(member("rule_count", JsonValue::Number(JsonNumber::PosInt(config.rules.len() as u64))));
                    f.push(member("config_hash", json_string(config_hash)));
                    f.push(member("errors", json_strings(&Vec::new())));
                    f.push(member("warnings", json_strings(&warnings)));
                    proof {
                        assert(f@[0].0@ == "file"@);
                        assert(f@[1].0@ == "ok"@);
                        assert(f@[2].0@ == "valid"@);
                        assert(f@[3].0@ == "rule_count"@);
                        assert(f@[4].0@ == "config_hash"@);
                        assert(f@[5].0@ == "errors"@);
                        assert(f@[6].0@ == "warnings"@);
                        assert(field_keys(f@) =~= seq![
                            "file"@, "ok"@, "valid"@, "rule_count"@, "config_hash"@, "errors"@, "warnings"@
                        ]);
                        assert(strings_view(Seq::<String>::empty()) =~= Seq::<Seq<char>>::empty());
                    }
                    let code = if warnings.len() == 0 {
                        EXIT_OK
                    } else {
                        EXIT_WARNINGS
                    };
                    answer(code, "validate", f)
                },
                Err(m) => {
                    f.push(member("ok", JsonValue::Bool(false)));
                    f.push(member("valid", JsonValue::Bool(false)));
                    f.push(member("errors", json_one_string(m.as_str())));
                    f.push(member("warnings", json_strings(&warnings)));
                    proof {
                        assert(f@[0].0@ == "file"@);
                        assert(f@[1].0@ == "ok"@);
                        assert(f@[2].0@ == "valid"@);
                        assert(f@[3].0@ == "errors"@);
                        assert(f@[4].0@ == "warnings"@);
                        assert(field_keys(f@) =~= seq!["file"@, "ok"@, "valid"@, "errors"@, "warnings"@]);
                        assert(!config_is_valid(*config));
                    }
                    answer(EXIT_ERROR, "validate", f)
                },
            }
        },
    }
}

/// The answer to `export` for the rule file at `path`: `config` is the
/// configuration as JSON, or the reason it could not be read or turned into
/// JSON.
pub fn export_report(path: &str, config: Result<JsonValue, String>) -> (r: CliInvocation)
    ensures
        match config {
            Ok(v) => {
                &&& answers(r, EXIT_OK, "export"@, seq!["file"@, "ok"@, "format"@, "config"@])
                &&& str_at(r.output, "file"@, path@)
                &&& bool_at(r.output, "ok"@, true)
                &&& str_at(r.output, "format"@, "json"@)
                &&& r.output.spec_get("config"@) == Some(v)
            },
            Err(e) => {
                &&& answers(r, EXIT_ERROR, "export"@, seq!["file"@, "ok"@, "errors"@])
                &&& str_at(r.output, "file"@, path@)
                &&& bool_at(r.output, "ok"@, false)
                &&& strs_at(r.output, "errors"@, seq![e@])
            },
        },
{
    proof {
        lemma_answer_keys();
    }
    let mut f: Vec<(String, JsonValue)> = Vec::new();
    f.push(member("file", json_string(path)));
    match config {
        Ok(v) => {
            f.push(member("ok", JsonValue::Bool(true)));
            f.push(member("format", json_string("json")));
            f.push(member("config", v));
            proof {
                assert(f@[0].0@ == "file"@);
                assert(f@[1].0@ == "ok"@);
                assert(f@[2].0@ == "format"@);
                assert(f@[3].0@ == "config"@);
                assert(field_keys(f@) =~= seq!["file"@, "ok"@, "format"@, "config"@]);
            }
            answer(EXIT_OK, "export", f)
        },
        Err(e) => {
            f.push(member("ok", JsonValue::Bool(false)));
            f.push(member("errors", json_one_string(e.as_str())));
            proof {
                assert(f@[0].0@ == "file"@);
                assert(f@[1].0@ == "ok"@);
                assert(f@[2].0@ == "errors"@);
                assert(field_keys(f@) =~= seq!["file"@, "ok"@, "errors"@]);
            }
            answer(EXIT_ERROR, "export", f)
        },
    }
}

/// What became of the canonical copy that `apply --out` asks for.
#[derive(Debug, PartialEq)]
pub enum WriteOutcome {
    /// No `--out` was given.
    NotRequested,
    /// The copy was written to the path.
    Written(String),
    /// The copy could not be made; the message says why.
    Failed(String),
}

/// Whether `apply` goes on to its plan: the configuration was read and is
/// valid. Only then is the canonical copy made.
pub fn apply_ready(loaded: &Result<FlowControlConfig, String>) -> (r: bool)
    ensures
        r == (loaded matches Ok(c) && config_is_valid(*c)),
{
    match loaded {
        Ok(c) => c.validate().is_ok(),
        Err(_) => false,
    }
}

/// The members of an `apply` plan, before the outcome of writing.
pub open spec fn plan_keys() -> Seq<Seq<char>> {
    seq!["file"@, "dry_run"@, "valid"@, "rules_applied"@, "config_hash"@, "warnings"@]
}

/// The answer to `apply` for the rule file at `path`: `loaded` is the
/// configuration read from it or the reason it could not be read,
/// `config_hash` the hash of that configuration, and `write` what became of
/// the canonical copy. Nothing is applied: the answer is a plan.
pub fn apply_report(
    path: &str,
    loaded: &Result<FlowControlConfig, String>,
    config_hash: &str,
    write: WriteOutcome,
) -> (r: CliInvocation)
    ensures
        str_at(r.output, "file"@, path@),
        match loaded {
            Err(e) => {
                &&& answers(r, EXIT_ERROR, "apply"@, seq!["file"@, "ok"@, "applied"@, "errors"@])
                &&& bool_at(r.output, "ok"@, false)
                &&& bool_at(r.output, "applied"@, false)
                &&& strs_at(r.output, "errors"@, seq![e@])
            },
            Ok(c) => {
                let w = spec_warnings(*c);
                if !config_is_valid(*c) {
                    exists|m: String| #![trigger validation_answer(*c, Err(m))] {
                        &&& validation_answer(*c, Err(m))
                        &&& answers(r, EXIT_ERROR, "apply"@, seq!["file"@, "ok"@, "applied"@, "errors"@, "warnings"@])
                        &&& bool_at(r.output, "ok"@, false)
                        &&& bool_at(r.output, "applied"@, false)
                        &&& strs_at(r.output, "errors"@, seq![m@])
                        &&& strs_at(r.output, "warnings"@, w)
                    }
                } else {
                    &&& bool_at(r.output, "dry_run"@, true)
                    &&& bool_at(r.output, "valid"@, true)
                    &&& count_at(r.output, "rules_applied"@, c.rules@.len() as u64)
                    &&& str_at(r.output, "config_hash"@, config_hash@)
                    &&& strs_at(r.output, "warnings"@, w)
                    &&& match write {
                        WriteOutcome::NotRequested => {
                            &&& answers(r, success_code(w), "apply"@, plan_keys() + seq!["ok"@, "applied"@])
                            &&& bool_at(r.output, "ok"@, true)
                            &&& bool_at(r.output, "applied"@, true)
                        },
                        WriteOutcome::Written(out) => {
                            &&& answers(
                                r,
                                success_code(w),
                                "apply"@,
                                plan_keys() + seq!["written_to"@, "ok"@, "applied"@],
                            )
                            &&& str_at(r.output, "written_to"@, out@)
                            &&& bool_at(r.output, "ok"@, true)
                            &&& bool_at(r.output, "applied"@, true)
                        },
                        WriteOutcome::Failed(m) => {
                            &&& answers(r, EXIT_ERROR, "apply"@, plan_keys() + seq!["ok"@, "applied"@, "errors"@])
                            &&& bool_at(r.output, "ok"@, false)
                            &&& bool_at(r.output, "applied"@, false)
                            &&& strs_at(r.output, "errors"@, seq![m@])
                        },
                    }
                }
            },
        },
{
    proof {
        lemma_answer_keys();
    }
    let mut f: Vec<(String, JsonValue)> = Vec::new();
    f.push(member("file", json_string(path)));
    let config = match loaded {
        Err(e) => {
            f.push(member("ok", JsonValue::Bool(false)));
            f.push(member("applied", JsonValue::Bool(false)));
            f.push(member("errors", json_one_string(e.as_str())));
            proof {
                assert(f@[0].0@ == "file"@);
                assert(f@[1].0@ == "ok"@);
                assert(f@[2].0@ == "applied"@);
                assert(f@[3].0@ == "errors"@);
                assert(field_keys(f@) =~= seq!["file"@, "ok"@, "applied"@, "errors"@]);
            }
            return answer(EXIT_ERROR, "apply", f);
        },
        Ok(c) => c,
    };
    let warnings = collect_warnings(config);
    let ghost w = strings_view(warnings@);
    if let Err(m) = config.validate() {
        f.push(member("ok", JsonValue::Bool(false)));
        f.push(member("applied", JsonValue::Bool(false)));
        f.push(member("errors", json_one_string(m.as_str())));
        f.push(member("warnings", json_strings(&warnings)));
        proof {
            assert(f@[0].0@ == "file"@);
            assert(f@[1].0@ == "ok"@);
            assert(f@[2].0@ == "applied"@);
            assert(f@[3].0@ == "errors"@);
            assert(f@[4].0@ == "warnings"@);
            assert(field_keys(f@) =~= seq!["file"@, "ok"@, "applied"@, "errors"@, "warnings"@]);
            assert(!config_is_valid(*config));
        }
        return answer(EXIT_ERROR, "apply", f);
    }
    f.push(member("dry_run", JsonValue::Bool(true)));
    f.push(member("valid", JsonValue::Bool(true)));
    f.push(member("rules_applied", JsonValue::Number(JsonNumber::PosInt(config.rules.len() as u64))));
    f.push(member("config_hash", json_string(config_hash)));
    f.push(member("warnings", json_strings(&warnings)));
    let ghost plan = f@;
    proof {
        assert(plan[0].0@ == "file"@);
        assert(plan[1].0@ == "dry_run"@);
        assert(plan[2].0@ == "valid"@);
        assert(plan[3].0@ == "rules_applied"@);
        assert(plan[4].0@ == "config_hash"@);
        assert(plan[5].0@ == "warnings"@);
        assert(field_keys(plan) =~= plan_keys());
    }
    let code = if warnings.len() == 0 {
        EXIT_OK
    } else {
        EXIT_WARNINGS
    };
    match write {
        WriteOutcome::NotRequested => {
            f.push(member("ok", JsonValue::Bool(true)));
            f.push(member("applied", JsonValue::Bool(true)));
            proof {
                assert(f@[6].0@ == "ok"@);
                assert(f@[7].0@ == "applied"@);
                assert(forall|i: int| 0 <= i < 6 ==> f@[i] == plan[i]);
                assert(field_keys(f@) =~= plan_keys() + seq!["ok"@, "applied"@]);
            }
            answer(code, "apply", f)
        },
        WriteOutcome::Written(out) => {
            f.push(member("written_to", json_string(out.as_str())));
            f.push(member("ok", JsonValue::Bool(true)));
            f.push(member("applied", JsonValue::Bool(true)));
            proof {
                assert(f@[6].0@ == "written_to"@);
                assert(f@[7].0@ == "ok"@);
                assert(f@[8].0@ == "applied"@);
                assert(forall|i: int| 0 <= i < 6 ==> f@[i] == plan[i]);
                assert(field_keys(f@) =~= plan_keys() + seq!["written_to"@, "ok"@, "applied"@]);
            }
            answer(code, "apply", f)
        },
        WriteOutcome::Failed(m) => {
            f.push(member("ok", JsonValue::Bool(false)));
            f.push(member("applied", JsonValue::Bool(false)));
            f.push(member("errors", json_one_string(m.as_str())));
            proof {
                assert(f@[6].0@ == "ok"@);
                assert(f@[7].0@ == "applied"@);
                assert(f@[8].0@ == "errors"@);
                assert(forall|i: int| 0 <= i < 6 ==> f@[i] == plan[i]);
                assert(field_keys(f@) =~= plan_keys() + seq!["ok"@, "applied"@, "errors"@]);
            }
            answer(EXIT_ERROR, "apply", f)
        },
    }
}

} // verus!
