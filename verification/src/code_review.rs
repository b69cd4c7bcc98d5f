//! A code review run by several agents, its aggregated report and its
//! rendering as Markdown.

use vstd::prelude::*;

use crate::clock::now_unix_nanos;
use crate::error::LimiteronError;
use crate::text::{concat_str, decimal, u64_to_string};

verus! {

/// How serious an issue is, from most to least.
#[derive(Debug, Clone, Copy, PartialEq, Eq, Structural, Hash)]
pub enum Severity {
    Critical,
    High,
    Medium,
    Low,
    Info,
}

impl Severity {
    /// The rank of a severity: 4 for critical down to 0 for information.
    pub open spec fn spec_level(self) -> u8 {
        match self {
            Severity::Critical => 4,
            Severity::High => 3,
            Severity::Medium => 2,
            Severity::Low => 1,
            Severity::Info => 0,
        }
    }

    /// The rank of the severity.
    pub fn level(&self) -> (r: u8)
        ensures
            r == self.spec_level(),
    {
        match self {
            Severity::Critical => 4,
            Severity::High => 3,
            Severity::Medium => 2,
            Severity::Low => 1,
            Severity::Info => 0,
        }
    }

    /// The name of the severity.
    pub fn name(&self) -> (r: &'static str)
        ensures
            r@ == spec_severity_name(*self),
    {
        match self {
            Severity::Critical => "Critical",
            Severity::High => "High",
            Severity::Medium => "Medium",
            Severity::Low => "Low",
            Severity::Info => "Info",
        }
    }
}

/// The name of each severity.
pub open spec fn spec_severity_name(s: Severity) -> Seq<char> {
    match s {
        Severity::Critical => "Critical"@,
        Severity::High => "High"@,
        Severity::Medium => "Medium"@,
        Severity::Low => "Low"@,
        Severity::Info => "Info"@,
    }
}

/// What an issue is about.
#[derive(Debug, Clone, Copy, PartialEq, Eq, Structural, Hash)]
pub enum IssueCategory {
    Security,
    Performance,
    CodeQuality,
    Architecture,
    BestPractice,
    Documentation,
}

/// The name of each category.
pub open spec fn spec_category_name(c: IssueCategory) -> Seq<char> {
    match c {
        IssueCategory::Security => "Security"@,
        IssueCategory::Performance => "Performance"@,
        IssueCategory::CodeQuality => "CodeQuality"@,
        IssueCategory::Architecture => "Architecture"@,
        IssueCategory::BestPractice => "BestPractice"@,
        IssueCategory::Documentation => "Documentation"@,
    }
}

impl IssueCategory {
    /// The name of the category.
    pub fn name(&self) -> (r: &'static str)
        ensures
            r@ == spec_category_name(*self),
    {
        match self {
            IssueCategory::Security => "Security",
            IssueCategory::Performance => "Performance",
            IssueCategory::CodeQuality => "CodeQuality",
            IssueCategory::Architecture => "Architecture",
            IssueCategory::BestPractice => "BestPractice",
            IssueCategory::Documentation => "Documentation",
        }
    }
}

/// The reviewing agents.
#[derive(Debug, Clone, Copy, PartialEq, Eq, Structural)]
pub enum AgentType {
    SecurityAuditor,
    PerformanceEngineer,
    CodeReviewer,
    ArchitectReviewer,
}

/// How an agent's review went.
#[derive(Debug, Clone, Copy, PartialEq, Eq, Structural)]
pub enum ReviewStatus {
    Success,
    Partial,
    Failed,
    Skipped,
}

/// The verdict of a review.
#[derive(Debug, Clone, Copy, PartialEq, Eq, Structural)]
pub enum ReviewConclusion {
    Passed,
    PassedWithWarnings,
    ConditionalPass,
    Failed,
}

/// What to review and how.
#[derive(Debug, Clone)]
pub struct CodeReviewConfig {
    pub security_audit: bool,
    pub performance_analysis: bool,
    pub code_quality_check: bool,
    pub architecture_review: bool,
    /// Paths to review.
    pub paths: Vec<String>,
    /// Patterns of paths to skip.
    pub exclude_patterns: Vec<String>,
    /// Least severity reported.
    pub severity_threshold: Severity,
    /// Agents run at once.
    pub parallel_agents: usize,
    pub detailed_report: bool,
    /// Where to write the report.
    pub output_path: Option<String>,
}

impl Default for CodeReviewConfig {
    fn default() -> (r: Self)
        ensures
            r.security_audit && r.performance_analysis && r.code_quality_check && r.architecture_review,
            r.paths@.len() == 1 && r.paths@[0]@ == "src/"@,
            r.exclude_patterns@.len() == 3 && r.exclude_patterns@[0]@ == "target/"@
                && r.exclude_patterns@[1]@ == "*.generated.rs"@ && r.exclude_patterns@[2]@ == "*.pb.rs"@,
            r.severity_threshold == Severity::Info,
            r.parallel_agents == 4,
            !r.detailed_report,
            r.output_path is None,
    {
        let mut paths: Vec<String> = Vec::new();
        paths.push(String::from_str("src/"));
        let mut ex: Vec<String> = Vec::new();
        ex.push(String::from_str("target/"));
        ex.push(String::from_str("*.generated.rs"));
        ex.push(String::from_str("*.pb.rs"));
        CodeReviewConfig {
            security_audit: true,
            performance_analysis: true,
            code_quality_check: true,
            architecture_review: true,
            paths,
            exclude_patterns: ex,
            severity_threshold: Severity::Info,
            parallel_agents: 4,
            detailed_report: false,
            output_path: None,
        }
    }
}

/// One finding.
#[derive(Debug, Clone)]
pub struct CodeReviewIssue {
    pub id: String,
    pub category: IssueCategory,
    pub severity: Severity,
    pub title: String,
    pub description: String,
    pub file_path: String,
    pub start_line: Option<u32>,
    pub end_line: Option<u32>,
    pub suggestion: String,
    pub code_snippet: Option<String>,
    pub rule: Option<String>,
    pub auto_fixable: bool,
}

/// What one agent found.
#[derive(Debug)]
pub struct AgentReviewResult {
    pub agent_name: String,
    pub agent_type: AgentType,
    pub issues: Vec<CodeReviewIssue>,
    pub duration_ms: u128,
    pub status: ReviewStatus,
    pub error_message: Option<String>,
}

/// Counts over the issues of a review.
#[derive(Debug, Clone, Copy, PartialEq, Eq, Structural)]
pub struct ReviewSummary {
    pub total_issues: usize,
    pub critical_count: usize,
    pub high_count: usize,
    pub medium_count: usize,
    pub low_count: usize,
    pub info_count: usize,
    pub auto_fixable_count: usize,
    pub files_reviewed: usize,
}

/// Totals over the reviews a manager ran.
#[derive(Debug, Clone, Copy, PartialEq, Eq, Structural)]
pub struct CodeReviewStats {
    pub total_runs: u64,
    pub successful_runs: u64,
    pub failed_runs: u64,
    pub total_duration_ms: u128,
    pub total_issues_found: u64,
    pub critical_issues_found: u64,
}

impl Default for CodeReviewStats {
    fn default() -> (r: Self)
        ensures
            r == (CodeReviewStats {
                total_runs: 0,
                successful_runs: 0,
                failed_runs: 0,
                total_duration_ms: 0,
                total_issues_found: 0,
                critical_issues_found: 0,
            }),
    {
        CodeReviewStats {
            total_runs: 0,
            successful_runs: 0,
            failed_runs: 0,
            total_duration_ms: 0,
            total_issues_found: 0,
            critical_issues_found: 0,
        }
    }
}

/// The verdict for a summary: any critical issue fails; else any high one
/// passes on conditions; else any medium one passes with warnings; else it
/// passes.
pub open spec fn spec_conclusion(s: ReviewSummary) -> ReviewConclusion {
    if s.critical_count > 0 {
        ReviewConclusion::Failed
    } else if s.high_count > 0 {
        ReviewConclusion::ConditionalPass
    } else if s.medium_count > 0 {
        ReviewConclusion::PassedWithWarnings
    } else {
        ReviewConclusion::Passed
    }
}

/// How bad a verdict is: 0 for passed up to 3 for failed.
pub open spec fn conclusion_rank(c: ReviewConclusion) -> int {
    match c {
        ReviewConclusion::Passed => 0,
        ReviewConclusion::PassedWithWarnings => 1,
        ReviewConclusion::ConditionalPass => 2,
        ReviewConclusion::Failed => 3,
    }
}

/// The verdict follows the worst severity found: it is a failure exactly
/// when a critical issue was counted; with no critical issue, a conditional
/// pass exactly when a high one was; with neither, a pass with warnings
/// exactly when a medium one was; otherwise a plain pass. Counting more
/// issues of any severity never gives a better verdict.
pub proof fn law_conclusion_follows_worst_severity(s: ReviewSummary, t: ReviewSummary)
    ensures
        (spec_conclusion(s) == ReviewConclusion::Failed) <==> s.critical_count > 0,
        (spec_conclusion(s) == ReviewConclusion::ConditionalPass) <==> (s.critical_count == 0
            && s.high_count > 0),
        (spec_conclusion(s) == ReviewConclusion::PassedWithWarnings) <==> (s.critical_count == 0
            && s.high_count == 0 && s.medium_count > 0),
        (spec_conclusion(s) == ReviewConclusion::Passed) <==> (s.critical_count == 0 && s.high_count
            == 0 && s.medium_count == 0),
        s.critical_count <= t.critical_count && s.high_count <= t.high_count && s.medium_count
            <= t.medium_count ==> conclusion_rank(spec_conclusion(s)) <= conclusion_rank(
            spec_conclusion(t),
        ),
{
}

/// The verdict for a summary.
pub fn determine_conclusion(summary: &ReviewSummary) -> (r: ReviewConclusion)
    ensures
        r == spec_conclusion(*summary),
{
    if summary.critical_count > 0 {
        ReviewConclusion::Failed
    } else if summary.high_count > 0 {
        ReviewConclusion::ConditionalPass
    } else if summary.medium_count > 0 {
        ReviewConclusion::PassedWithWarnings
    } else {
        ReviewConclusion::Passed
    }
}

/// The abstract form of an optional text.
pub open spec fn opt_text(o: Option<String>) -> Option<Seq<char>> {
    match o {
        Some(s) => Some(s@),
        None => None,
    }
}

/// The abstract form of an issue.
pub struct IssueView {
    pub id: Seq<char>,
    pub category: IssueCategory,
    pub severity: Severity,
    pub title: Seq<char>,
    pub description: Seq<char>,
    pub file_path: Seq<char>,
    pub start_line: Option<u32>,
    pub end_line: Option<u32>,
    pub suggestion: Seq<char>,
    pub code_snippet: Option<Seq<char>>,
    pub rule: Option<Seq<char>>,
    pub auto_fixable: bool,
}

pub open spec fn issue_view(i: CodeReviewIssue) -> IssueView {
    IssueView {
        id: i.id@,
        category: i.category,
        severity: i.severity,
        title: i.title@,
        description: i.description@,
        file_path: i.file_path@,
        start_line: i.start_line,
        end_line: i.end_line,
        suggestion: i.suggestion@,
        code_snippet: opt_text(i.code_snippet),
        rule: opt_text(i.rule),
        auto_fixable: i.auto_fixable,
    }
}

/// The abstract form of a list of issues.
pub open spec fn issues_view(v: Seq<CodeReviewIssue>) -> Seq<IssueView> {
    Seq::new(v.len(), |k: int| issue_view(v[k]))
}

fn copy_text(o: &Option<String>) -> (r: Option<String>)
    ensures
        opt_text(r) == opt_text(*o),
{
    match o {
        Some(s) => Some(s.clone()),
        None => None,
    }
}

impl CodeReviewIssue {
    /// A copy with the same contents.
    pub fn duplicate(&self) -> (r: Self)
        ensures
            issue_view(r) == issue_view(*self),
    {
        CodeReviewIssue {
            id: self.id.clone(),
            category: self.category,
            severity: self.severity,
            title: self.title.clone(),
            description: self.description.clone(),
            file_path: self.file_path.clone(),
            start_line: self.start_line,
            end_line: self.end_line,
            suggestion: self.suggestion.clone(),
            code_snippet: copy_text(&self.code_snippet),
            rule: copy_text(&self.rule),
            auto_fixable: self.auto_fixable,
        }
    }
}

/// All issues of the results, agent by agent.
pub open spec fn all_issues(results: Seq<AgentReviewResult>) -> Seq<IssueView>
    decreases results.len(),
{
    if results.len() == 0 {
        Seq::empty()
    } else {
        all_issues(results.drop_last()) + issues_view(results.last().issues@)
    }
}

/// How many issues satisfy `f`.
pub open spec fn count_issues(issues: Seq<IssueView>, f: spec_fn(IssueView) -> bool) -> nat
    decreases issues.len(),
{
    if issues.len() == 0 {
        0
    } else {
        count_issues(issues.drop_last(), f) + if f(issues.last()) {
            1nat
        } else {
            0nat
        }
    }
}

/// The summary of a list of issues; no file count is kept.
pub open spec fn spec_summary(issues: Seq<IssueView>) -> ReviewSummary {
    ReviewSummary {
        total_issues: issues.len() as usize,
        critical_count: count_issues(issues, |i: IssueView| i.severity == Severity::Critical) as usize,
        high_count: count_issues(issues, |i: IssueView| i.severity == Severity::High) as usize,
        medium_count: count_issues(issues, |i: IssueView| i.severity == Severity::Medium) as usize,
        low_count: count_issues(issues, |i: IssueView| i.severity == Severity::Low) as usize,
        info_count: count_issues(issues, |i: IssueView| i.severity == Severity::Info) as usize,
        auto_fixable_count: count_issues(issues, |i: IssueView| i.auto_fixable) as usize,
        files_reviewed: 0,
    }
}

proof fn lemma_count_le(issues: Seq<IssueView>, f: spec_fn(IssueView) -> bool)
    ensures
        count_issues(issues, f) <= issues.len(),
    decreases issues.len(),
{
    if issues.len() > 0 {
        lemma_count_le(issues.drop_last(), f);
    }
}

/// The first group with key `c`, or the number of groups.
pub open spec fn category_group(g: Seq<(IssueCategory, Seq<IssueView>)>, c: IssueCategory, i: int) -> int
    decreases g.len() - i,
{
    if i >= g.len() || g[i].0 == c {
        i
    } else {
        category_group(g, c, i + 1)
    }
}

/// The issues grouped by category, groups in order of first appearance,
/// issues in order within each group.
pub open spec fn group_by_category(issues: Seq<IssueView>) -> Seq<(IssueCategory, Seq<IssueView>)>
    decreases issues.len(),
{
    if issues.len() == 0 {
        Seq::empty()
    } else {
        let g = group_by_category(issues.drop_last());
        let x = issues.last();
        let k = category_group(g, x.category, 0);
        if 0 <= k < g.len() {
            g.update(k, (x.category, g[k].1.push(x)))
        } else {
            g.push((x.category, seq![x]))
        }
    }
}

/// The first group with key `s`, or the number of groups.
pub open spec fn severity_group(g: Seq<(Severity, Seq<IssueView>)>, s: Severity, i: int) -> int
    decreases g.len() - i,
{
    if i >= g.len() || g[i].0 == s {
        i
    } else {
        severity_group(g, s, i + 1)
    }
}

/// The issues grouped by severity, groups in order of first appearance.
pub open spec fn group_by_severity(issues: Seq<IssueView>) -> Seq<(Severity, Seq<IssueView>)>
    decreases issues.len(),
{
    if issues.len() == 0 {
        Seq::empty()
    } else {
        let g = group_by_severity(issues.drop_last());
        let x = issues.last();
        let k = severity_group(g, x.severity, 0);
        if 0 <= k < g.len() {
            g.update(k, (x.severity, g[k].1.push(x)))
        } else {
            g.push((x.severity, seq![x]))
        }
    }
}

/// The result of a review.
#[derive(Debug)]
pub struct CodeReviewReport {
    /// When the report was made, in nanoseconds since the Unix epoch.
    pub timestamp_nanos: i64,
    pub config: CodeReviewConfig,
    pub files_reviewed: usize,
    pub agent_results: Vec<AgentReviewResult>,
    pub summary: ReviewSummary,
    /// Issues by category, in order of first appearance.
    pub issues_by_category: Vec<(IssueCategory, Vec<CodeReviewIssue>)>,
    /// Issues by severity, in order of first appearance.
    pub issues_by_severity: Vec<(Severity, Vec<CodeReviewIssue>)>,
    pub conclusion: ReviewConclusion,
}

/// The abstract form of grouped issues.
pub open spec fn category_groups_view(g: Seq<(IssueCategory, Vec<CodeReviewIssue>)>) -> Seq<(IssueCategory, Seq<IssueView>)> {
    Seq::new(g.len(), |k: int| (g[k].0, issues_view(g[k].1@)))
}

pub open spec fn severity_groups_view(g: Seq<(Severity, Vec<CodeReviewIssue>)>) -> Seq<(Severity, Seq<IssueView>)> {
    Seq::new(g.len(), |k: int| (g[k].0, issues_view(g[k].1@)))
}

fn add_to_category_groups(groups: &mut Vec<(IssueCategory, Vec<CodeReviewIssue>)>, issue: &CodeReviewIssue)
    ensures
        ({
            let g = category_groups_view(old(groups)@);
            let x = issue_view(*issue);
            let k = category_group(g, x.category, 0);
            category_groups_view(final(groups)@) == if 0 <= k < g.len() {
                g.update(k, (x.category, g[k].1.push(x)))
            } else {
                g.push((x.category, seq![x]))
            }
        }),
{
    let ghost g = category_groups_view(groups@);
    let ghost x = issue_view(*issue);
    let n = groups.len();
    let mut i: usize = 0;
    while i < n && groups[i].0 != issue.category
        invariant
            n == groups@.len(),
            g == category_groups_view(groups@),
            x == issue_view(*issue),
            i <= n,
            category_group(g, x.category, 0) == category_group(g, x.category, i as int),
        decreases n - i,
    {
        i = i + 1;
    }
    if i < n {
        let (c, mut v) = groups.remove(i);
        let ghost before = issues_view(v@);
        v.push(issue.duplicate());
        assert(issues_view(v@) =~= before.push(x));
        groups.insert(i, (c, v));
        assert(category_groups_view(groups@) =~= g.update(i as int, (x.category, g[i as int].1.push(x))));
    } else {
        let mut v: Vec<CodeReviewIssue> = Vec::new();
        v.push(issue.duplicate());
        assert(issues_view(v@) =~= seq![x]);
        groups.push((issue.category, v));
        assert(category_groups_view(groups@) =~= g.push((x.category, seq![x])));
    }
}

fn add_to_severity_groups(groups: &mut Vec<(Severity, Vec<CodeReviewIssue>)>, issue: &CodeReviewIssue)
    ensures
        ({
            let g = severity_groups_view(old(groups)@);
            let x = issue_view(*issue);
            let k = severity_group(g, x.severity, 0);
            severity_groups_view(final(groups)@) == if 0 <= k < g.len() {
                g.update(k, (x.severity, g[k].1.push(x)))
            } else {
                g.push((x.severity, seq![x]))
            }
        }),
{
    let ghost g = severity_groups_view(groups@);
    let ghost x = issue_view(*issue);
    let n = groups.len();
    let mut i: usize = 0;
    while i < n && groups[i].0 != issue.severity
        invariant
            n == groups@.len(),
            g == severity_groups_view(groups@),
            x == issue_view(*issue),
            i <= n,
            severity_group(g, x.severity, 0) == severity_group(g, x.severity, i as int),
        decreases n - i,
    {
        i = i + 1;
    }
    if i < n {
        let (c, mut v) = groups.remove(i);
        let ghost before = issues_view(v@);
        v.push(issue.duplicate());
        assert(issues_view(v@) =~= before.push(x));
        groups.insert(i, (c, v));
        assert(severity_groups_view(groups@) =~= g.update(i as int, (x.severity, g[i as int].1.push(x))));
    } else {
        let mut v: Vec<CodeReviewIssue> = Vec::new();
        v.push(issue.duplicate());
        assert(issues_view(v@) =~= seq![x]);
        groups.push((issue.severity, v));
        assert(severity_groups_view(groups@) =~= g.push((x.severity, seq![x])));
    }
}

/// Counts the issues into a summary.
fn summarize(issues: &Vec<CodeReviewIssue>) -> (r: ReviewSummary)
    ensures
        r == spec_summary(issues_view(issues@)),
{
    let ghost iv = issues_view(issues@);
    let n = issues.len();
    let mut crit: usize = 0;
    let mut high: usize = 0;
    let mut med: usize = 0;
    let mut low: usize = 0;
    let mut info: usize = 0;
    let mut fix: usize = 0;
    let mut i: usize = 0;
    while i < n
        invariant
            n == issues@.len(),
            iv == issues_view(issues@),
            i <= n,
            crit == count_issues(iv.take(i as int), |x: IssueView| x.severity == Severity::Critical),
            high == count_issues(iv.take(i as int), |x: IssueView| x.severity == Severity::High),
            med == count_issues(iv.take(i as int), |x: IssueView| x.severity == Severity::Medium),
            low == count_issues(iv.take(i as int), |x: IssueView| x.severity == Severity::Low),
            info == count_issues(iv.take(i as int), |x: IssueView| x.severity == Severity::Info),
            fix == count_issues(iv.take(i as int), |x: IssueView| x.auto_fixable),
            crit <= i && high <= i && med <= i && low <= i && info <= i && fix <= i,
        decreases n - i,
    {
        assert(iv.take(i + 1).drop_last() =~= iv.take(i as int));
        assert(iv.take(i + 1).last() == issue_view(issues@[i as int]));
        let sev = issues[i].severity;
        if sev == Severity::Critical {
            crit = crit + 1;
        } else if sev == Severity::High {
            high = high + 1;
        } else if sev == Severity::Medium {
            med = med + 1;
        } else if sev == Severity::Low {
            low = low + 1;
        } else {
            info = info + 1;
        }
        if issues[i].auto_fixable {
            fix = fix + 1;
        }
        i = i + 1;
    }
    assert(iv.take(n as int) =~= iv);
    ReviewSummary {
        total_issues: n,
        critical_count: crit,
        high_count: high,
        medium_count: med,
        low_count: low,
        info_count: info,
        auto_fixable_count: fix,
        files_reviewed: 0,
    }
}

fn copy_strings(v: &Vec<String>) -> (r: Vec<String>)
    ensures
        crate::text::strings_view(r@) == crate::text::strings_view(v@),
{
    let n = v.len();
    let mut out: Vec<String> = Vec::new();
    let mut i: usize = 0;
    while i < n
        invariant
            n == v@.len(),
            i <= n,
            out@.len() == i,
            forall|k: int| 0 <= k < i ==> #[trigger] out@[k]@ == v@[k]@,
        decreases n - i,
    {
        out.push(v[i].clone());
        i = i + 1;
    }
    assert(crate::text::strings_view(out@) =~= crate::text::strings_view(v@));
    out
}

/// Two configurations with the same contents, field by field.
pub open spec fn same_config(r: CodeReviewConfig, c: CodeReviewConfig) -> bool {
    &&& r.security_audit == c.security_audit && r.performance_analysis == c.performance_analysis
        && r.code_quality_check == c.code_quality_check && r.architecture_review == c.architecture_review
    &&& crate::text::strings_view(r.paths@) == crate::text::strings_view(c.paths@)
    &&& crate::text::strings_view(r.exclude_patterns@) == crate::text::strings_view(c.exclude_patterns@)
    &&& r.severity_threshold == c.severity_threshold && r.parallel_agents == c.parallel_agents
        && r.detailed_report == c.detailed_report && opt_text(r.output_path) == opt_text(c.output_path)
}

/// A copy of a configuration with the same contents.
fn copy_config(c: &CodeReviewConfig) -> (r: CodeReviewConfig)
    ensures
        same_config(r, *c),
{
    CodeReviewConfig {
        security_audit: c.security_audit,
        performance_analysis: c.performance_analysis,
        code_quality_check: c.code_quality_check,
        architecture_review: c.architecture_review,
        paths: copy_strings(&c.paths),
        exclude_patterns: copy_strings(&c.exclude_patterns),
        severity_threshold: c.severity_threshold,
        parallel_agents: c.parallel_agents,
        detailed_report: c.detailed_report,
        output_path: copy_text(&c.output_path),
    }
}

/// The report built from agent results at time `timestamp_nanos`: all
/// issues, agent by agent, grouped by category and by severity, counted
/// into a summary, with the verdict of that summary.
pub fn aggregate_results(config: &CodeReviewConfig, agent_results: Vec<AgentReviewResult>, timestamp_nanos: i64) -> (r: CodeReviewReport)
    ensures
        r.timestamp_nanos == timestamp_nanos,
        same_config(r.config, *config),
        r.summary == spec_summary(all_issues(agent_results@)),
        r.conclusion == spec_conclusion(r.summary),
        category_groups_view(r.issues_by_category@) == group_by_category(all_issues(agent_results@)),
        severity_groups_view(r.issues_by_severity@) == group_by_severity(all_issues(agent_results@)),
        r.files_reviewed == 0,
        r.agent_results@ == agent_results@,
{
    let mut all: Vec<CodeReviewIssue> = Vec::new();
    let mut by_category: Vec<(IssueCategory, Vec<CodeReviewIssue>)> = Vec::new();
    let mut by_severity: Vec<(Severity, Vec<CodeReviewIssue>)> = Vec::new();
    let ghost rs = agent_results@;
    let n = agent_results.len();
    let mut i: usize = 0;
    assert(category_groups_view(by_category@) =~= Seq::<(IssueCategory, Seq<IssueView>)>::empty());
    assert(severity_groups_view(by_severity@) =~= Seq::<(Severity, Seq<IssueView>)>::empty());
    assert(issues_view(all@) =~= Seq::<IssueView>::empty());
    while i < n
        invariant
            n == agent_results@.len(),
            rs == agent_results@,
            i <= n,
            issues_view(all@) == all_issues(rs.take(i as int)),
            category_groups_view(by_category@) == group_by_category(issues_view(all@)),
            severity_groups_view(by_severity@) == group_by_severity(issues_view(all@)),
        decreases n - i,
    {
        assert(rs.take(i + 1).drop_last() =~= rs.take(i as int));
        assert(rs.take(i + 1).last() == rs[i as int]);
        let issues = &agent_results[i].issues;
        let m = issues.len();
        let mut j: usize = 0;
        let ghost base = issues_view(all@);
        while j < m
            invariant
                m == issues@.len(),
                j <= m,
                issues_view(all@) == base + issues_view(issues@).take(j as int),
                category_groups_view(by_category@) == group_by_category(issues_view(all@)),
                severity_groups_view(by_severity@) == group_by_severity(issues_view(all@)),
            decreases m - j,
        {
            let ghost before = issues_view(all@);
            let issue = &issues[j];
            add_to_category_groups(&mut by_category, issue);
            add_to_severity_groups(&mut by_severity, issue);
            all.push(issue.duplicate());
            assert(issues_view(all@) =~= before.push(issue_view(*issue)));
            assert(issues_view(all@).drop_last() =~= before);
            assert(issues_view(issues@).take(j + 1) =~= issues_view(issues@).take(j as int).push(issue_view(issues@[j as int])));
            j = j + 1;
        }
        assert(issues_view(issues@).take(m as int) =~= issues_view(issues@));
        i = i + 1;
    }
    assert(rs.take(n as int) =~= rs);
    let summary = summarize(&all);
    let conclusion = determine_conclusion(&summary);
    CodeReviewReport {
        timestamp_nanos,
        config: copy_config(config),
        files_reviewed: summary.files_reviewed,
        agent_results,
        summary,
        issues_by_category: by_category,
        issues_by_severity: by_severity,
        conclusion,
    }
}

/// The name an agent reports under.
pub open spec fn spec_agent_name(t: AgentType) -> Seq<char> {
    match t {
        AgentType::SecurityAuditor => "SecurityAuditor"@,
        AgentType::PerformanceEngineer => "PerformanceEngineer"@,
        AgentType::CodeReviewer => "CodeReviewer"@,
        AgentType::ArchitectReviewer => "ArchitectReviewer"@,
    }
}

/// The agents a configuration enables, in their fixed order.
pub open spec fn enabled_agents(c: CodeReviewConfig) -> Seq<AgentType> {
    (if c.security_audit { seq![AgentType::SecurityAuditor] } else { Seq::empty() })
        + (if c.performance_analysis { seq![AgentType::PerformanceEngineer] } else { Seq::empty() })
        + (if c.code_quality_check { seq![AgentType::CodeReviewer] } else { Seq::empty() })
        + (if c.architecture_review { seq![AgentType::ArchitectReviewer] } else { Seq::empty() })
}

/// Runs one agent. The analyses themselves find nothing yet, so every
/// agent succeeds without issues; the time it took is measured.
pub fn run_agent_review(agent_type: AgentType, paths: &Vec<String>, exclude_patterns: &Vec<String>) -> (r: AgentReviewResult)
    ensures
        r.agent_type == agent_type,
        r.agent_name@ == spec_agent_name(agent_type),
        r.issues@.len() == 0,
        r.status == ReviewStatus::Success,
        r.error_message is None,
{
    let start = now_unix_nanos();
    let name = match agent_type {
        AgentType::SecurityAuditor => "SecurityAuditor",
        AgentType::PerformanceEngineer => "PerformanceEngineer",
        AgentType::CodeReviewer => "CodeReviewer",
        AgentType::ArchitectReviewer => "ArchitectReviewer",
    };
    let issues: Vec<CodeReviewIssue> = Vec::new();
    let end = now_unix_nanos();
    let elapsed: u64 = if end >= start { end - start } else { 0 };
    let status = if issues.len() == 0 { ReviewStatus::Success } else { ReviewStatus::Partial };
    AgentReviewResult {
        agent_name: String::from_str(name),
        agent_type,
        issues,
        duration_ms: (elapsed / 1_000_000) as u128,
        status,
        error_message: None,
    }
}

/// The totals after one more report: a failed verdict counts as a failed
/// run, any other as a successful one; durations and issue counts add up.
/// Counters wrap at their top.
pub open spec fn spec_update_stats(s: CodeReviewStats, r_failed: bool, duration: u128, total_issues: usize, critical: usize) -> CodeReviewStats {
    CodeReviewStats {
        total_runs: crate::custom_limiter::inc(s.total_runs),
        successful_runs: if r_failed { s.successful_runs } else { crate::custom_limiter::inc(s.successful_runs) },
        failed_runs: if r_failed { crate::custom_limiter::inc(s.failed_runs) } else { s.failed_runs },
        total_duration_ms: ((s.total_duration_ms + duration) % (u128::MAX as int + 1)) as u128,
        total_issues_found: ((s.total_issues_found + total_issues) % 0x1_0000_0000_0000_0000) as u64,
        critical_issues_found: ((s.critical_issues_found + critical) % 0x1_0000_0000_0000_0000) as u64,
    }
}

/// The sum of the agents' durations, wrapping at the top.
pub open spec fn durations_sum(rs: Seq<AgentReviewResult>) -> u128
    decreases rs.len(),
{
    if rs.len() == 0 {
        0
    } else {
        ((durations_sum(rs.drop_last()) + rs.last().duration_ms) % (u128::MAX as int + 1)) as u128
    }
}

/// Runs reviews and keeps their totals.
#[derive(Debug)]
pub struct CodeReviewManager {
    config: CodeReviewConfig,
    results: Vec<AgentReviewResult>,
    stats: CodeReviewStats,
}

impl CodeReviewManager {
    pub closed spec fn spec_stats(&self) -> CodeReviewStats {
        self.stats
    }

    pub closed spec fn spec_config(&self) -> CodeReviewConfig {
        self.config
    }

    /// The agent results the manager keeps.
    pub closed spec fn recent(&self) -> Seq<AgentReviewResult> {
        self.results@
    }

    /// A manager with the configuration and no runs.
    pub fn new(config: CodeReviewConfig) -> (r: Self)
        ensures
            r.spec_stats() == (CodeReviewStats {
                total_runs: 0,
                successful_runs: 0,
                failed_runs: 0,
                total_duration_ms: 0,
                total_issues_found: 0,
                critical_issues_found: 0,
            }),
            r.spec_config() == config,
            r.recent().len() == 0,
    {
        CodeReviewManager { config, results: Vec::new(), stats: CodeReviewStats::default() }
    }

    /// Counts a report into the totals.
    pub fn update_stats(&mut self, report: &CodeReviewReport)
        ensures
            final(self).spec_stats() == spec_update_stats(
                old(self).spec_stats(),
                report.conclusion == ReviewConclusion::Failed,
                durations_sum(report.agent_results@),
                report.summary.total_issues,
                report.summary.critical_count,
            ),
            final(self).spec_config() == old(self).spec_config(),
    {
        let n = report.agent_results.len();
        let mut sum: u128 = 0;
        let mut i: usize = 0;
        while i < n
            invariant
                n == report.agent_results@.len(),
                i <= n,
                sum == durations_sum(report.agent_results@.take(i as int)),
            decreases n - i,
        {
            assert(report.agent_results@.take(i + 1).drop_last() =~= report.agent_results@.take(i as int));
            sum = sum.wrapping_add(report.agent_results[i].duration_ms);
            i = i + 1;
        }
        assert(report.agent_results@.take(n as int) =~= report.agent_results@);
        let mut st = self.stats;
        st.total_runs = st.total_runs.wrapping_add(1);
        st.total_duration_ms = st.total_duration_ms.wrapping_add(sum);
        if report.conclusion == ReviewConclusion::Failed {
            st.failed_runs = st.failed_runs.wrapping_add(1);
        } else {
            st.successful_runs = st.successful_runs.wrapping_add(1);
        }
        st.total_issues_found = st.total_issues_found.wrapping_add(report.summary.total_issues as u64);
        st.critical_issues_found = st.critical_issues_found.wrapping_add(report.summary.critical_count as u64);
        self.stats = st;
    }

    /// Runs the enabled agents in order, aggregates their results into a
    /// report, and counts it into the totals.
    pub fn run_review(&mut self) -> (r: Result<CodeReviewReport, LimiteronError>)
        ensures
            r matches Ok(rep) && rep.agent_results@.len() == enabled_agents(old(self).spec_config()).len()
                && (forall|k: int| 0 <= k < rep.agent_results@.len() ==> (#[trigger] rep.agent_results@[k]).agent_type == enabled_agents(old(self).spec_config())[k])
                && (forall|k: int| 0 <= k < rep.agent_results@.len() ==> {
                    let a = #[trigger] rep.agent_results@[k];
                    &&& a.agent_name@ == spec_agent_name(a.agent_type)
                    &&& a.status == ReviewStatus::Success
                    &&& a.issues@.len() == 0
                    &&& a.error_message is None
                })
                && same_config(rep.config, old(self).spec_config())
                && rep.issues_by_category@.len() == 0 && rep.issues_by_severity@.len() == 0
                && rep.files_reviewed == 0
                && rep.summary == spec_summary(Seq::empty()) && rep.conclusion == ReviewConclusion::Passed
                && final(self).spec_stats() == spec_update_stats(
                old(self).spec_stats(),
                false,
                durations_sum(rep.agent_results@),
                0,
                0,
            ),
    {
        let mut results: Vec<AgentReviewResult> = Vec::new();
        let ghost agents = enabled_agents(self.config);
        if self.config.security_audit {
            results.push(run_agent_review(AgentType::SecurityAuditor, &self.config.paths, &self.config.exclude_patterns));
        }
        if self.config.performance_analysis {
            results.push(run_agent_review(AgentType::PerformanceEngineer, &self.config.paths, &self.config.exclude_patterns));
        }
        if self.config.code_quality_check {
            results.push(run_agent_review(AgentType::CodeReviewer, &self.config.paths, &self.config.exclude_patterns));
        }
        if self.config.architecture_review {
            results.push(run_agent_review(AgentType::ArchitectReviewer, &self.config.paths, &self.config.exclude_patterns));
        }
        assert(results@.len() == agents.len());
        assert forall|k: int| 0 <= k < results@.len() implies (#[trigger] results@[k]).agent_type == agents[k] by {}
        assert forall|k: int| 0 <= k < results@.len() implies {
            let a = #[trigger] results@[k];
            &&& a.agent_name@ == spec_agent_name(a.agent_type)
            &&& a.status == ReviewStatus::Success
            &&& a.issues@.len() == 0
            &&& a.error_message is None
        } by {}
        proof {
            lemma_no_issues(results@);
        }
        let now = now_unix_nanos();
        let stamp: i64 = if now > 9_223_372_036_854_775_807u64 {
            9_223_372_036_854_775_807i64
        } else {
            now as i64
        };
        let report = aggregate_results(&self.config, results, stamp);
        assert(category_groups_view(report.issues_by_category@).len() == report.issues_by_category@.len());
        assert(severity_groups_view(report.issues_by_severity@).len() == report.issues_by_severity@.len());
        assert(report.issues_by_category@.len() == 0);
        assert(report.issues_by_severity@.len() == 0);
        assert(same_config(report.config, self.config));
        self.update_stats(&report);
        Ok(report)
    }

    /// The totals so far.
    pub fn get_stats(&self) -> (r: CodeReviewStats)
        ensures
            r == self.spec_stats(),
    {
        self.stats
    }

    /// The agent results kept by the manager; a review keeps none.
    pub fn get_recent_results(&self) -> (r: &Vec<AgentReviewResult>)
        ensures
            r@ == self.recent(),
    {
        &self.results
    }

    /// Replaces the configuration.
    pub fn update_config(&mut self, config: CodeReviewConfig)
        ensures
            final(self).spec_config() == config,
            final(self).spec_stats() == old(self).spec_stats(),
    {
        self.config = config;
    }
}

proof fn lemma_no_issues(rs: Seq<AgentReviewResult>)
    requires
        forall|k: int| 0 <= k < rs.len() ==> (#[trigger] rs[k]).issues@.len() == 0,
    ensures
        all_issues(rs) == Seq::<IssueView>::empty(),
    decreases rs.len(),
{
    if rs.len() > 0 {
        lemma_no_issues(rs.drop_last());
        assert(issues_view(rs.last().issues@) =~= Seq::<IssueView>::empty());
        assert(all_issues(rs) =~= Seq::<IssueView>::empty());
    }
}

// ---------------------------------------------------------------------------
// Markdown
// ---------------------------------------------------------------------------

/// How `chrono` shows the instant `nanos` nanoseconds after the Unix epoch
/// in UTC, to the nanosecond.
pub uninterp spec fn spec_timestamp_text(nanos: i64) -> Seq<char>;

/// Calls `chrono::DateTime::<Utc>::from_timestamp_nanos`, which represents
/// every `i64`, and shows the instant with its `Display`; the text is named
/// `spec_timestamp_text`.
#[verifier::external_body]
fn timestamp_text(nanos: i64) -> (r: String)
    ensures
        r@ == spec_timestamp_text(nanos),
{
    chrono::DateTime::<chrono::Utc>::from_timestamp_nanos(nanos).to_string()
}

/// The verdict as shown in a report.
pub open spec fn conclusion_text(c: ReviewConclusion) -> Seq<char> {
    match c {
        ReviewConclusion::Passed => "✅ 通过"@,
        ReviewConclusion::PassedWithWarnings => "⚠️ 通过（有警告）"@,
        ReviewConclusion::ConditionalPass => "⚡ 有条件通过"@,
        ReviewConclusion::Failed => "❌ 失败"@,
    }
}

/// One row of the summary table.
pub open spec fn row(label: Seq<char>, n: usize) -> Seq<char> {
    "| "@ + label + " | "@ + decimal(n as nat) + " |\n"@
}

/// The opening of a report: title, time, verdict and summary table.
pub open spec fn report_head(time: Seq<char>, c: ReviewConclusion, s: ReviewSummary) -> Seq<char> {
    "# 代码审查报告\n\n"@ + "**生成时间:** "@ + time + "\n\n"@ + "**审查结论:** "@ + conclusion_text(c)
        + "\n\n"@ + "## 摘要\n\n"@ + "| 指标 | 数量 |\n"@ + "|------|------|\n"@ + row(
        "总问题数"@,
        s.total_issues,
    ) + row("🔴 严重"@, s.critical_count) + row("🟠 高"@, s.high_count) + row("🟡 中"@, s.medium_count)
        + row("🟢 低"@, s.low_count) + row("🔵 信息"@, s.info_count) + row(
        "可自动修复"@,
        s.auto_fixable_count,
    ) + "\n"@ + "## 详细问题\n\n"@
}

/// One issue of a report.
pub open spec fn issue_text(i: IssueView) -> Seq<char> {
    "#### "@ + i.title + "\n"@ + "**严重性:** "@ + spec_severity_name(i.severity) + "\n\n"@
        + "**描述:** "@ + i.description + "\n\n"@ + "**位置:** \""@ + i.file_path + "\"\n\n"@
        + match i.code_snippet {
        Some(c) => "```rust\n"@ + c + "\n```\n\n"@,
        None => Seq::empty(),
    } + "**建议:** "@ + i.suggestion + "\n\n"@
}

/// The issues of a group, in order.
pub open spec fn issues_text(s: Seq<IssueView>) -> Seq<char>
    decreases s.len(),
{
    if s.len() == 0 {
        Seq::empty()
    } else {
        issues_text(s.drop_last()) + issue_text(s.last())
    }
}

/// The groups of a report, in order, each under its category.
pub open spec fn groups_text(g: Seq<(IssueCategory, Seq<IssueView>)>) -> Seq<char>
    decreases g.len(),
{
    if g.len() == 0 {
        Seq::empty()
    } else {
        groups_text(g.drop_last()) + "### "@ + spec_category_name(g.last().0) + "\n\n"@ + issues_text(
            g.last().1,
        )
    }
}

/// A report as Markdown.
pub open spec fn spec_markdown(r: CodeReviewReport) -> Seq<char> {
    let time = spec_timestamp_text(r.timestamp_nanos);
    report_head(time, r.conclusion, r.summary) + groups_text(category_groups_view(r.issues_by_category@))
}

fn row_exec(label: &str, n: usize) -> (r: String)
    ensures
        r@ == row(label@, n),
{
    let m = concat_str("| ", label);
    let m = concat_str(m.as_str(), " | ");
    let m = concat_str(m.as_str(), u64_to_string(n as u64).as_str());
    concat_str(m.as_str(), " |\n")
}

fn append(s: &mut String, t: &str)
    ensures
        final(s)@ == old(s)@ + t@,
{
    s.append(t);
}

fn issue_exec(i: &CodeReviewIssue) -> (r: String)
    ensures
        r@ == issue_text(issue_view(*i)),
{
    proof {
        reveal_strlit("");
    }
    let mut m = String::from_str("#### ");
    append(&mut m, i.title.as_str());
    append(&mut m, "\n");
    append(&mut m, "**严重性:** ");
    append(&mut m, i.severity.name());
    append(&mut m, "\n\n");
    append(&mut m, "**描述:** ");
    append(&mut m, i.description.as_str());
    append(&mut m, "\n\n");
    append(&mut m, "**位置:** \"");
    append(&mut m, i.file_path.as_str());
    append(&mut m, "\"\n\n");
    let ghost before = m@;
    match &i.code_snippet {
        Some(c) => {
            let mut t = String::from_str("```rust\n");
            append(&mut t, c.as_str());
            append(&mut t, "\n```\n\n");
            append(&mut m, t.as_str());
        },
        None => {
            assert(m@ =~= before + Seq::<char>::empty());
        },
    }
    append(&mut m, "**建议:** ");
    append(&mut m, i.suggestion.as_str());
    append(&mut m, "\n\n");
    m
}

/// Renders a report as Markdown: the verdict, a table of counts, then the
/// issues by category.
pub fn format_report_as_markdown(report: &CodeReviewReport) -> (r: String)
    ensures
        r@ == spec_markdown(*report),
{
    proof {
        reveal_strlit("");
    }
    let time = timestamp_text(report.timestamp_nanos);
    let s = &report.summary;
    let mut md = String::from_str("# 代码审查报告\n\n");
    append(&mut md, "**生成时间:** ");
    append(&mut md, time.as_str());
    append(&mut md, "\n\n");
    append(&mut md, "**审查结论:** ");
    let c = match report.conclusion {
        ReviewConclusion::Passed => "✅ 通过",
        ReviewConclusion::PassedWithWarnings => "⚠️ 通过（有警告）",
        ReviewConclusion::ConditionalPass => "⚡ 有条件通过",
        ReviewConclusion::Failed => "❌ 失败",
    };
    append(&mut md, c);
    append(&mut md, "\n\n");
    append(&mut md, "## 摘要\n\n");
    append(&mut md, "| 指标 | 数量 |\n");
    append(&mut md, "|------|------|\n");
    append(&mut md, row_exec("总问题数", s.total_issues).as_str());
    append(&mut md, row_exec("🔴 严重", s.critical_count).as_str());
    append(&mut md, row_exec("🟠 高", s.high_count).as_str());
    append(&mut md, row_exec("🟡 中", s.medium_count).as_str());
    append(&mut md, row_exec("🟢 低", s.low_count).as_str());
    append(&mut md, row_exec("🔵 信息", s.info_count).as_str());
    append(&mut md, row_exec("可自动修复", s.auto_fixable_count).as_str());
    append(&mut md, "\n");
    append(&mut md, "## 详细问题\n\n");
    let ghost head = md@;
    let ghost gv = category_groups_view(report.issues_by_category@);
    let n = report.issues_by_category.len();
    let mut g: usize = 0;
    assert(md@ =~= head + groups_text(gv.take(0)));
    while g < n
        invariant
            n == report.issues_by_category@.len(),
            gv == category_groups_view(report.issues_by_category@),
            g <= n,
            md@ == head + groups_text(gv.take(g as int)),
        decreases n - g,
    {
        let ghost before = md@;
        assert(gv.take(g + 1).drop_last() =~= gv.take(g as int));
        assert(gv.take(g + 1).last() == gv[g as int]);
        let cat = report.issues_by_category[g].0;
        let issues = &report.issues_by_category[g].1;
        append(&mut md, "### ");
        append(&mut md, cat.name());
        append(&mut md, "\n\n");
        let ghost mid = md@;
        let ghost iv = issues_view(issues@);
        let m = issues.len();
        let mut k: usize = 0;
        assert(md@ =~= mid + issues_text(iv.take(0)));
        while k < m
            invariant
                m == issues@.len(),
                iv == issues_view(issues@),
                k <= m,
                md@ == mid + issues_text(iv.take(k as int)),
            decreases m - k,
        {
            assert(iv.take(k + 1).drop_last() =~= iv.take(k as int));
            assert(iv.take(k + 1).last() == issue_view(issues@[k as int]));
            let t = issue_exec(&issues[k]);
            let ghost b2 = md@;
            append(&mut md, t.as_str());
            assert(md@ =~= mid + issues_text(iv.take(k + 1)));
            k = k + 1;
        }
        assert(iv.take(m as int) =~= iv);
        assert(md@ =~= head + groups_text(gv.take(g + 1)));
        g = g + 1;
    }
    assert(gv.take(n as int) =~= gv);
    md
}

} // verus!
