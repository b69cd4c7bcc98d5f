//! A chain of responsibility over limiters: the nodes are consulted in order
//! of priority, highest first, and the chain decides from their answers.

use vstd::prelude::*;

use ahash::AHashMap;

use crate::clock::now_unix_nanos;
use crate::custom_limiter::{inc, CustomLimiter, LeakyBucketLimiter, TokenBucketLimiter};
use crate::error::{Decision, LimiteronError, RateLimitMetadata, RejectionMetadata};
use crate::id_set::{count_map_clear, count_map_contents, count_map_entries, count_map_get, count_map_insert, count_map_new};
use crate::text::{concat_str, join, join_strings, str_eq, strings_view};

verus! {

/// Something that decides whether a request of a given cost may pass.
pub trait Limiter {
    /// Whether `r` is an answer the limiter, as it stands, may give to a
    /// request of `cost`.
    spec fn admits(&self, cost: u64, r: Result<bool, LimiteronError>) -> bool;

    /// `Ok(true)` to let the request pass, `Ok(false)` to turn it away.
    fn allow(&mut self, cost: u64) -> (r: Result<bool, LimiteronError>)
        ensures
            old(self).admits(cost, r),
    ;
}

/// A boxed limiter is a limiter, so that nodes of one chain can hold
/// limiters of different kinds.
impl Limiter for Box<dyn Limiter> {
    open spec fn admits(&self, cost: u64, r: Result<bool, LimiteronError>) -> bool {
        (**self).admits(cost, r)
    }

    fn allow(&mut self, cost: u64) -> Result<bool, LimiteronError> {
        (**self).allow(cost)
    }
}

/// A token bucket answers as it does for a custom limiter: whether it holds
/// the tokens at the instant of the request.
impl Limiter for TokenBucketLimiter {
    open spec fn admits(&self, cost: u64, r: Result<bool, LimiteronError>) -> bool {
        CustomLimiter::may_answer(self, cost, r)
    }

    fn allow(&mut self, cost: u64) -> Result<bool, LimiteronError> {
        CustomLimiter::allow(self, cost)
    }
}

/// A leaky bucket answers as it does for a custom limiter: whether it has
/// room at the instant of the request.
impl Limiter for LeakyBucketLimiter {
    open spec fn admits(&self, cost: u64, r: Result<bool, LimiteronError>) -> bool {
        CustomLimiter::may_answer(self, cost, r)
    }

    fn allow(&mut self, cost: u64) -> Result<bool, LimiteronError> {
        CustomLimiter::allow(self, cost)
    }
}

// ---------------------------------------------------------------------------
// Nodes
// ---------------------------------------------------------------------------

/// What the chain knows of a node besides its limiter.
pub struct NodeView {
    pub id: Seq<char>,
    pub name: Seq<char>,
    pub priority: u16,
    pub enabled: bool,
    pub short_circuit: bool,
    pub cost: u64,
}

/// One node of a decision chain: a limiter and how the chain treats it.
pub struct DecisionNode<L: Limiter = Box<dyn Limiter>> {
    /// Identifier of the node.
    pub id: String,
    /// Display name of the node.
    pub name: String,
    /// The limiter consulted.
    pub limiter: L,
    /// Priority; higher is consulted first.
    pub priority: u16,
    /// Disabled nodes are skipped.
    pub enabled: bool,
    /// Whether a rejection by this node ends the check at once.
    pub short_circuit: bool,
    /// Cost of one request for this node's limiter.
    pub cost: u64,
}

impl<L: Limiter> View for DecisionNode<L> {
    type V = NodeView;

    open spec fn view(&self) -> NodeView {
        NodeView {
            id: self.id@,
            name: self.name@,
            priority: self.priority,
            enabled: self.enabled,
            short_circuit: self.short_circuit,
            cost: self.cost,
        }
    }
}

impl<L: Limiter> DecisionNode<L> {
    /// An enabled, short-circuiting node of cost one.
    pub fn with_dependencies(id: String, name: String, limiter: L, priority: u16) -> (r: Self)
        ensures
            r@ == (NodeView {
                id: id@,
                name: name@,
                priority,
                enabled: true,
                short_circuit: true,
                cost: 1,
            }),
            r.limiter == limiter,
    {
        DecisionNode { id, name, limiter, priority, enabled: true, short_circuit: true, cost: 1 }
    }

    /// The same as `with_dependencies`.
    pub fn new(id: String, name: String, limiter: L, priority: u16) -> (r: Self)
        ensures
            r@ == (NodeView {
                id: id@,
                name: name@,
                priority,
                enabled: true,
                short_circuit: true,
                cost: 1,
            }),
            r.limiter == limiter,
    {
        Self::with_dependencies(id, name, limiter, priority)
    }

    /// The node, enabled or not.
    pub fn with_enabled(self, enabled: bool) -> (r: Self)
        ensures
            r@ == (NodeView { enabled, ..self@ }),
            r.limiter == self.limiter,
    {
        let mut n = self;
        n.enabled = enabled;
        n
    }

    /// The node, short-circuiting or not.
    pub fn with_short_circuit(self, short_circuit: bool) -> (r: Self)
        ensures
            r@ == (NodeView { short_circuit, ..self@ }),
            r.limiter == self.limiter,
    {
        let mut n = self;
        n.short_circuit = short_circuit;
        n
    }

    /// The node with another cost.
    pub fn with_cost(self, cost: u64) -> (r: Self)
        ensures
            r@ == (NodeView { cost, ..self@ }),
            r.limiter == self.limiter,
    {
        let mut n = self;
        n.cost = cost;
        n
    }

    /// Asks this node alone: a disabled node lets everything pass, an
    /// enabled one asks its limiter with the node's cost.
    pub fn check(&mut self) -> (r: Result<bool, LimiteronError>)
        ensures
            final(self)@ == old(self)@,
            !old(self)@.enabled ==> r == Ok::<bool, LimiteronError>(true) && final(self).limiter
                == old(self).limiter,
            old(self)@.enabled ==> old(self).limiter.admits(old(self)@.cost, r),
    {
        if !self.enabled {
            return Ok(true);
        }
        let cost = self.cost;
        self.limiter.allow(cost)
    }
}

// ---------------------------------------------------------------------------
// Statistics
// ---------------------------------------------------------------------------

/// The abstract statistics of a chain.
pub struct ChainStatsView {
    pub total: u64,
    pub allowed: u64,
    pub rejected: u64,
    pub errors: u64,
    /// Rejections per node id, for the nodes that rejected.
    pub rejections: Map<Seq<char>, u64>,
}

/// Statistics of a chain, as a snapshot.
#[derive(Debug, Clone, Default)]
pub struct ChainStats {
    /// Checks made.
    pub total_checks: u64,
    /// Checks that ended allowed.
    pub allowed_count: u64,
    /// Rejections counted.
    pub rejected_count: u64,
    /// Checks that ended in an error.
    pub error_count: u64,
    /// Rejections per node id.
    pub node_rejections: Vec<(String, u64)>,
}

/// The counts per node of a list of per-node counts (a later entry for the
/// same node wins).
pub open spec fn rejections_view(v: Seq<(String, u64)>) -> Map<Seq<char>, u64>
    decreases v.len(),
{
    if v.len() == 0 {
        Map::empty()
    } else {
        rejections_view(v.drop_last()).insert(v.last().0@, v.last().1)
    }
}

/// No node appears twice in a list of per-node counts.
pub open spec fn distinct_ids(v: Seq<(String, u64)>) -> bool {
    forall|i: int, j: int| 0 <= i < j < v.len() ==> v[i].0@ != v[j].0@
}

proof fn lemma_rejections_view(v: Seq<(String, u64)>)
    ensures
        forall|k: Seq<char>|
            rejections_view(v).dom().contains(k) <==> exists|i: int|
                0 <= i < v.len() && #[trigger] v[i].0@ == k,
        distinct_ids(v) ==> forall|i: int|
            0 <= i < v.len() ==> rejections_view(v)[#[trigger] v[i].0@] == v[i].1,
    decreases v.len(),
{
    if v.len() > 0 {
        let d = v.drop_last();
        lemma_rejections_view(d);
        assert(rejections_view(v) == rejections_view(d).insert(v.last().0@, v.last().1));
        assert forall|k: Seq<char>|
            rejections_view(v).dom().contains(k) <==> exists|i: int|
                0 <= i < v.len() && #[trigger] v[i].0@ == k by {
            if k == v.last().0@ {
                assert(v[v.len() - 1].0@ == k);
            }
            if rejections_view(v).dom().contains(k) && k != v.last().0@ {
                assert(rejections_view(d).dom().contains(k));
                let i = choose|i: int| 0 <= i < d.len() && #[trigger] d[i].0@ == k;
                assert(v[i] == d[i]);
            }
            if exists|i: int| 0 <= i < v.len() && #[trigger] v[i].0@ == k {
                let i = choose|i: int| 0 <= i < v.len() && #[trigger] v[i].0@ == k;
                if i < v.len() - 1 {
                    assert(d[i] == v[i]);
                }
            }
        }
        if distinct_ids(v) {
            assert forall|i: int| 0 <= i < v.len() implies rejections_view(v)[#[trigger] v[i].0@]
                == v[i].1 by {
                if i < v.len() - 1 {
                    assert(d[i] == v[i]);
                    assert(v[i].0@ != v.last().0@);
                }
            }
        }
    }
}

impl View for ChainStats {
    type V = ChainStatsView;

    open spec fn view(&self) -> ChainStatsView {
        ChainStatsView {
            total: self.total_checks,
            allowed: self.allowed_count,
            rejected: self.rejected_count,
            errors: self.error_count,
            rejections: rejections_view(self.node_rejections@),
        }
    }
}

/// Statistics with nothing counted.
pub open spec fn empty_stats() -> ChainStatsView {
    ChainStatsView { total: 0, allowed: 0, rejected: 0, errors: 0, rejections: Map::empty() }
}

/// One more rejection by the node `id`.
pub open spec fn bump(r: Map<Seq<char>, u64>, id: Seq<char>) -> Map<Seq<char>, u64> {
    if r.dom().contains(id) {
        r.insert(id, inc(r[id]))
    } else {
        r.insert(id, 1)
    }
}

pub open spec fn count_total(s: ChainStatsView) -> ChainStatsView {
    ChainStatsView { total: inc(s.total), ..s }
}

pub open spec fn count_allowed(s: ChainStatsView) -> ChainStatsView {
    ChainStatsView { allowed: inc(s.allowed), ..s }
}

pub open spec fn count_rejection(s: ChainStatsView, id: Seq<char>) -> ChainStatsView {
    ChainStatsView { rejected: inc(s.rejected), rejections: bump(s.rejections, id), ..s }
}

pub open spec fn count_error(s: ChainStatsView) -> ChainStatsView {
    ChainStatsView { errors: inc(s.errors), ..s }
}

/// Counters of the chain.
#[derive(Debug)]
pub struct AtomicChainStats {
    total_checks: u64,
    allowed_count: u64,
    rejected_count: u64,
    error_count: u64,
    node_rejections: AHashMap<String, u64>,
}

impl View for AtomicChainStats {
    type V = ChainStatsView;

    closed spec fn view(&self) -> ChainStatsView {
        ChainStatsView {
            total: self.total_checks,
            allowed: self.allowed_count,
            rejected: self.rejected_count,
            errors: self.error_count,
            rejections: count_map_contents(self.node_rejections),
        }
    }
}

fn inc_u64(x: u64) -> (r: u64)
    ensures
        r == inc(x),
{
    if x == u64::MAX {
        0
    } else {
        x + 1
    }
}

impl AtomicChainStats {
    /// Counters at zero.
    pub fn new() -> (r: Self)
        ensures
            r@ == empty_stats(),
    {
        let r = AtomicChainStats {
            total_checks: 0,
            allowed_count: 0,
            rejected_count: 0,
            error_count: 0,
            node_rejections: count_map_new(),
        };
        r
    }

    /// One more check.
    pub fn increment_total(&mut self)
        ensures
            final(self)@ == count_total(old(self)@),
    {
        self.total_checks = inc_u64(self.total_checks);
    }

    /// One more allowed check.
    pub fn increment_allowed(&mut self)
        ensures
            final(self)@ == count_allowed(old(self)@),
    {
        self.allowed_count = inc_u64(self.allowed_count);
    }

    /// One more rejection.
    pub fn increment_rejected(&mut self)
        ensures
            final(self)@ == (ChainStatsView { rejected: inc(old(self)@.rejected), ..old(self)@ }),
    {
        self.rejected_count = inc_u64(self.rejected_count);
    }

    /// One more error.
    pub fn increment_error(&mut self)
        ensures
            final(self)@ == count_error(old(self)@),
    {
        self.error_count = inc_u64(self.error_count);
    }

    /// One more rejection by the node `node_id`.
    pub fn increment_node_rejection(&mut self, node_id: &str)
        ensures
            final(self)@ == (ChainStatsView {
                rejections: bump(old(self)@.rejections, node_id@),
                ..old(self)@
            }),
    {
        match count_map_get(&self.node_rejections, node_id) {
            Some(c) => count_map_insert(&mut self.node_rejections, String::from_str(node_id), inc_u64(c)),
            None => count_map_insert(&mut self.node_rejections, String::from_str(node_id), 1),
        }
    }

    /// A snapshot of the counters.
    pub fn snapshot(&self) -> (r: ChainStats)
        ensures
            r@ == self@,
    {
        let entries = count_map_entries(&self.node_rejections);
        proof {
            let m = count_map_contents(self.node_rejections);
            lemma_rejections_view(entries@);
            assert forall|k: Seq<char>| #[trigger] rejections_view(entries@).dom().contains(k) == m.dom().contains(k) by {
                if m.dom().contains(k) {
                    let i = choose|i: int| 0 <= i < entries@.len() && #[trigger] entries@[i].0@ == k;
                }
            }
            assert forall|k: Seq<char>| #[trigger] m.dom().contains(k) implies rejections_view(entries@)[k] == m[k] by {
                let i = choose|i: int| 0 <= i < entries@.len() && #[trigger] entries@[i].0@ == k;
            }
            assert(rejections_view(entries@) =~= m);
        }
        ChainStats {
            total_checks: self.total_checks,
            allowed_count: self.allowed_count,
            rejected_count: self.rejected_count,
            error_count: self.error_count,
            node_rejections: entries,
        }
    }

    /// Sets every counter back to zero.
    pub fn reset(&mut self)
        ensures
            final(self)@ == empty_stats(),
    {
        self.total_checks = 0;
        self.allowed_count = 0;
        self.rejected_count = 0;
        self.error_count = 0;
        count_map_clear(&mut self.node_rejections);
    }
}

impl Default for AtomicChainStats {
    fn default() -> (r: Self)
        ensures
            r@ == empty_stats(),
    {
        AtomicChainStats::new()
    }
}

// ---------------------------------------------------------------------------
// Deciding
// ---------------------------------------------------------------------------

/// How a check ends, before it is dressed as a `Decision`.
pub enum ChainOutcome {
    /// Every consulted node let the request pass.
    Allow,
    /// Rejected, with the reason.
    Reject(Seq<char>),
    /// A limiter failed with this error.
    Fail(LimiteronError),
}

/// The time a rejection lifts: a minute from `now` (seconds), saturating.
pub open spec fn retry_time(now: u64) -> u64 {
    if now <= u64::MAX - 60 {
        (now + 60) as u64
    } else {
        u64::MAX
    }
}

/// The result a check returns for an outcome at time `now` (seconds).
pub open spec fn result_of(r: Result<Decision, LimiteronError>, o: ChainOutcome, now: u64) -> bool {
    match o {
        ChainOutcome::Allow => r matches Ok(Decision::Allowed(m)) && m.limit == 0 && m.remaining
            == 0 && m.reset_at == 0 && m.retry_after is None && m.policy@ == Seq::<char>::empty(),
        ChainOutcome::Reject(reason) => r matches Ok(Decision::Rejected(m)) && m.reason@ == reason
            && m.retry_after == 60 && m.limit == 0 && m.reset_at == retry_time(now),
        ChainOutcome::Fail(e) => r == Err::<Decision, LimiteronError>(e),
    }
}

/// The reason given when the node named `name` rejects.
pub open spec fn rejected_by(name: Seq<char>) -> Seq<char> {
    "Rejected by "@ + name + ": rate limit exceeded"@
}

/// The first answer of a sequence of limiter answers; a missing answer
/// counts as a pass.
pub open spec fn first_answer(a: Seq<Result<bool, LimiteronError>>) -> Result<bool, LimiteronError> {
    if a.len() > 0 {
        a[0]
    } else {
        Ok(true)
    }
}

/// The answers after the first.
pub open spec fn rest_answers(a: Seq<Result<bool, LimiteronError>>) -> Seq<Result<bool, LimiteronError>> {
    if a.len() > 0 {
        a.drop_first()
    } else {
        a
    }
}

/// A check, given the answers of the enabled nodes in order: a rejection is
/// counted as one check and one rejection of the node; a short-circuiting
/// node ends the check with its rejection, another one is remembered and
/// the check goes on; an error is counted as one check and one error and
/// ends the check; when the nodes are done, one more check and one more
/// allowed check are counted, and the last remembered rejection, if any, is
/// the result.
pub open spec fn spec_check(
    nodes: Seq<NodeView>,
    answers: Seq<Result<bool, LimiteronError>>,
    st: ChainStatsView,
    last: Option<Seq<char>>,
) -> (ChainOutcome, ChainStatsView)
    decreases nodes.len(),
{
    if nodes.len() == 0 {
        let end = count_allowed(count_total(st));
        match last {
            Some(reason) => (ChainOutcome::Reject(reason), end),
            None => (ChainOutcome::Allow, end),
        }
    } else if !nodes[0].enabled {
        spec_check(nodes.drop_first(), answers, st, last)
    } else {
        let n = nodes[0];
        match first_answer(answers) {
            Ok(true) => spec_check(nodes.drop_first(), rest_answers(answers), st, last),
            Ok(false) => {
                let st1 = count_rejection(count_total(st), n.id);
                if n.short_circuit {
                    (ChainOutcome::Reject(rejected_by(n.name)), st1)
                } else {
                    spec_check(nodes.drop_first(), rest_answers(answers), st1, Some(rejected_by(n.name)))
                }
            },
            Err(e) => (ChainOutcome::Fail(e), count_error(count_total(st))),
        }
    }
}

/// A full check, given the answers of the enabled nodes in order (the
/// check was counted before it started): every enabled node is consulted;
/// each rejection is counted for the node and its reason collected; an
/// error ends the check; at the end, with no rejection one allowed check is
/// counted and the request passes, otherwise it is rejected with all
/// reasons joined by "; ".
pub open spec fn spec_check_all(
    nodes: Seq<NodeView>,
    answers: Seq<Result<bool, LimiteronError>>,
    st: ChainStatsView,
    reasons: Seq<Seq<char>>,
) -> (ChainOutcome, ChainStatsView)
    decreases nodes.len(),
{
    if nodes.len() == 0 {
        if reasons.len() == 0 {
            (ChainOutcome::Allow, count_allowed(st))
        } else {
            (ChainOutcome::Reject(join(reasons, "; "@)), st)
        }
    } else if !nodes[0].enabled {
        spec_check_all(nodes.drop_first(), answers, st, reasons)
    } else {
        let n = nodes[0];
        match first_answer(answers) {
            Ok(true) => spec_check_all(nodes.drop_first(), rest_answers(answers), st, reasons),
            Ok(false) => spec_check_all(
                nodes.drop_first(),
                rest_answers(answers),
                count_rejection(st, n.id),
                reasons.push(n.name + ": rate limit exceeded"@),
            ),
            Err(e) => (ChainOutcome::Fail(e), st),
        }
    }
}

/// The node of `nodes` that comes first among those with priority below
/// `p`, searching from `i`; the length when there is none.
pub open spec fn insert_position(nodes: Seq<NodeView>, p: u16, i: int) -> int
    decreases nodes.len() - i,
{
    if i >= nodes.len() || nodes[i].priority < p {
        i
    } else {
        insert_position(nodes, p, i + 1)
    }
}

/// The nodes after adding `n`: after every node of the same or higher
/// priority, before the first of lower priority.
pub open spec fn spec_add(nodes: Seq<NodeView>, n: NodeView) -> Seq<NodeView> {
    nodes.insert(insert_position(nodes, n.priority, 0), n)
}

/// Priorities never increase along the chain.
pub open spec fn sorted_by_priority(nodes: Seq<NodeView>) -> bool {
    forall|i: int, j: int| 0 <= i < j < nodes.len() ==> nodes[i].priority >= nodes[j].priority
}

/// The nodes after adding each of `added`, in order.
pub open spec fn spec_add_all(nodes: Seq<NodeView>, added: Seq<NodeView>) -> Seq<NodeView>
    decreases added.len(),
{
    if added.len() == 0 {
        nodes
    } else {
        spec_add_all(spec_add(nodes, added[0]), added.drop_first())
    }
}

/// The first position of a node with id `id`, from `i` on; the length
/// when there is none.
pub open spec fn node_position(nodes: Seq<NodeView>, id: Seq<char>, i: int) -> int
    decreases nodes.len() - i,
{
    if i >= nodes.len() || nodes[i].id == id {
        i
    } else {
        node_position(nodes, id, i + 1)
    }
}

/// How many nodes are enabled.
pub open spec fn count_enabled(nodes: Seq<NodeView>) -> nat
    decreases nodes.len(),
{
    if nodes.len() == 0 {
        0
    } else {
        (if nodes.last().enabled {
            1nat
        } else {
            0nat
        }) + count_enabled(nodes.drop_last())
    }
}

proof fn lemma_insert_position(nodes: Seq<NodeView>, p: u16, i: int)
    requires
        0 <= i <= nodes.len(),
    ensures
        i <= insert_position(nodes, p, i) <= nodes.len(),
        forall|k: int| i <= k < insert_position(nodes, p, i) ==> nodes[k].priority >= p,
        insert_position(nodes, p, i) < nodes.len() ==> nodes[insert_position(nodes, p, i)].priority
            < p,
    decreases nodes.len() - i,
{
    if i < nodes.len() && nodes[i].priority >= p {
        lemma_insert_position(nodes, p, i + 1);
    }
}

proof fn lemma_node_position(nodes: Seq<NodeView>, id: Seq<char>, i: int)
    requires
        0 <= i <= nodes.len(),
    ensures
        i <= node_position(nodes, id, i) <= nodes.len(),
        forall|k: int| i <= k < node_position(nodes, id, i) ==> nodes[k].id != id,
        node_position(nodes, id, i) < nodes.len() ==> nodes[node_position(nodes, id, i)].id == id,
    decreases nodes.len() - i,
{
    if i < nodes.len() && nodes[i].id != id {
        lemma_node_position(nodes, id, i + 1);
    }
}

/// The abstract state of a chain.
pub struct ChainView {
    pub nodes: Seq<NodeView>,
    pub stats: ChainStatsView,
}

/// A decision chain: nodes in order of priority and the statistics of the
/// checks made.
pub struct DecisionChain<L: Limiter = Box<dyn Limiter>> {
    nodes: Vec<DecisionNode<L>>,
    stats: AtomicChainStats,
}

/// The abstract form of a list of nodes.
pub open spec fn nodes_view<L: Limiter>(v: Seq<DecisionNode<L>>) -> Seq<NodeView> {
    Seq::new(v.len(), |i: int| v[i]@)
}

/// The limiters of a list of nodes, in the same order.
pub open spec fn limiters_of<L: Limiter>(v: Seq<DecisionNode<L>>) -> Seq<L> {
    Seq::new(v.len(), |i: int| v[i].limiter)
}

/// `answers` are exactly the answers a check gets from the limiters `lims`
/// of `nodes`, in order: one from each enabled node it reaches, each an
/// answer that node's limiter may give at the node's cost, up to the answer
/// that ends the check (an error; a rejection by a short-circuiting node,
/// unless `full`, where only an error ends it early) or up to the last node.
pub open spec fn answered_by<L: Limiter>(
    lims: Seq<L>,
    nodes: Seq<NodeView>,
    answers: Seq<Result<bool, LimiteronError>>,
    full: bool,
) -> bool
    decreases nodes.len(),
{
    if nodes.len() == 0 {
        answers.len() == 0
    } else if !nodes[0].enabled {
        answered_by(lims.drop_first(), nodes.drop_first(), answers, full)
    } else if answers.len() == 0 {
        false
    } else {
        lims[0].admits(nodes[0].cost, answers[0]) && match answers[0] {
            Ok(true) => answered_by(lims.drop_first(), nodes.drop_first(), answers.drop_first(), full),
            Ok(false) => if nodes[0].short_circuit && !full {
                answers.len() == 1
            } else {
                answered_by(lims.drop_first(), nodes.drop_first(), answers.drop_first(), full)
            },
            Err(_) => answers.len() == 1,
        }
    }
}

/// Given the answers of a check of `nodes` (as in `answered_by`), `after`
/// keeps every limiter the check did not consult as it was in `lims`: those
/// of disabled nodes, and all those after the node whose answer ended the
/// check.
pub open spec fn untouched<L: Limiter>(
    lims: Seq<L>,
    after: Seq<L>,
    nodes: Seq<NodeView>,
    answers: Seq<Result<bool, LimiteronError>>,
    full: bool,
) -> bool
    decreases nodes.len(),
{
    if nodes.len() == 0 {
        true
    } else if !nodes[0].enabled {
        after[0] == lims[0] && untouched(
            lims.drop_first(),
            after.drop_first(),
            nodes.drop_first(),
            answers,
            full,
        )
    } else if answers.len() == 0 {
        true
    } else {
        match answers[0] {
            Ok(true) => untouched(
                lims.drop_first(),
                after.drop_first(),
                nodes.drop_first(),
                answers.drop_first(),
                full,
            ),
            Ok(false) => if nodes[0].short_circuit && !full {
                after.drop_first() == lims.drop_first()
            } else {
                untouched(
                    lims.drop_first(),
                    after.drop_first(),
                    nodes.drop_first(),
                    answers.drop_first(),
                    full,
                )
            },
            Err(_) => after.drop_first() == lims.drop_first(),
        }
    }
}

/// The limiters after adding the nodes `added` with the limiters
/// `added_lims`, each in turn, to `nodes` with the limiters `lims`: each
/// limiter goes where its node goes.
pub open spec fn spec_add_all_limiters<L: Limiter>(
    nodes: Seq<NodeView>,
    lims: Seq<L>,
    added: Seq<NodeView>,
    added_lims: Seq<L>,
) -> Seq<L>
    decreases added.len(),
{
    if added.len() == 0 {
        lims
    } else {
        spec_add_all_limiters(
            spec_add(nodes, added[0]),
            lims.insert(insert_position(nodes, added[0].priority, 0), added_lims[0]),
            added.drop_first(),
            added_lims.drop_first(),
        )
    }
}

impl<L: Limiter> View for DecisionChain<L> {
    type V = ChainView;

    closed spec fn view(&self) -> ChainView {
        ChainView { nodes: nodes_view(self.nodes@), stats: self.stats@ }
    }
}

impl<L: Limiter> DecisionChain<L> {
    /// The limiters of the nodes, in the order of the nodes.
    pub closed spec fn limiters(&self) -> Seq<L> {
        limiters_of(self.nodes@)
    }
}

fn rejection_for(name: &str, now_secs: u64) -> (r: Decision)
    ensures
        result_of(Ok(r), ChainOutcome::Reject(rejected_by(name@)), now_secs),
{
    let m = concat_str("Rejected by ", name);
    let reason = concat_str(m.as_str(), ": rate limit exceeded");
    Decision::Rejected(RejectionMetadata::new(reason, 60, 0, now_secs.saturating_add(60)))
}

proof fn lemma_skip_drop<T>(s: Seq<T>, i: int)
    requires
        0 <= i < s.len(),
    ensures
        s.skip(i).drop_first() == s.skip(i + 1),
        s.skip(i)[0] == s[i],
        s.skip(i).len() > 0,
{
    assert(s.skip(i).drop_first() =~= s.skip(i + 1));
}

proof fn lemma_answers_cons(a: Result<bool, LimiteronError>, fut: Seq<Result<bool, LimiteronError>>)
    ensures
        first_answer(seq![a] + fut) == a,
        rest_answers(seq![a] + fut) == fut,
{
    assert((seq![a] + fut).drop_first() =~= fut);
}

impl<L: Limiter> DecisionChain<L> {
    /// A builder for a chain.
    pub fn builder() -> (r: DecisionChainBuilder<L>)
        ensures
            r@ == Seq::<NodeView>::empty(),
            r.limiters() == Seq::<L>::empty(),
    {
        DecisionChainBuilder::new()
    }

    /// A chain of the given nodes, each added in turn.
    pub fn with_dependencies(nodes: Vec<DecisionNode<L>>) -> (r: Self)
        ensures
            r@.nodes == spec_add_all(Seq::empty(), nodes_view(nodes@)),
            r@.stats == empty_stats(),
            r.limiters() == spec_add_all_limiters(
                Seq::empty(),
                Seq::empty(),
                nodes_view(nodes@),
                limiters_of(nodes@),
            ),
    {
        let mut chain = DecisionChain { nodes: Vec::new(), stats: AtomicChainStats::new() };
        assert(chain@.nodes =~= Seq::<NodeView>::empty());
        assert(chain.limiters() =~= Seq::<L>::empty());
        let mut rest = nodes;
        let ghost all = nodes_view(nodes@);
        let ghost all_l = limiters_of(nodes@);
        while rest.len() > 0
            invariant
                chain@.stats == empty_stats(),
                spec_add_all(Seq::empty(), all) == spec_add_all(chain@.nodes, nodes_view(rest@)),
                spec_add_all_limiters(Seq::empty(), Seq::empty(), all, all_l)
                    == spec_add_all_limiters(
                    chain@.nodes,
                    chain.limiters(),
                    nodes_view(rest@),
                    limiters_of(rest@),
                ),
            decreases rest@.len(),
        {
            let ghost before = nodes_view(rest@);
            let ghost before_l = limiters_of(rest@);
            let node = rest.remove(0);
            assert(nodes_view(rest@) =~= before.drop_first());
            assert(limiters_of(rest@) =~= before_l.drop_first());
            chain.add_node(node);
        }
        assert(nodes_view(rest@) =~= Seq::<NodeView>::empty());
        chain
    }

    /// The same as `with_dependencies`.
    pub fn new(nodes: Vec<DecisionNode<L>>) -> (r: Self)
        ensures
            r@.nodes == spec_add_all(Seq::empty(), nodes_view(nodes@)),
            r@.stats == empty_stats(),
            r.limiters() == spec_add_all_limiters(
                Seq::empty(),
                Seq::empty(),
                nodes_view(nodes@),
                limiters_of(nodes@),
            ),
    {
        Self::with_dependencies(nodes)
    }

    /// Adds a node after every node of the same or higher priority.
    pub fn add_node(&mut self, node: DecisionNode<L>)
        ensures
            final(self)@.nodes == spec_add(old(self)@.nodes, node@),
            final(self)@.stats == old(self)@.stats,
            final(self).limiters() == old(self).limiters().insert(
                insert_position(old(self)@.nodes, node@.priority, 0),
                node.limiter,
            ),
    {
        let ghost ns = self@.nodes;
        let ghost ls = self.limiters();
        let p = node.priority;
        let n = self.nodes.len();
        let mut i: usize = 0;
        while i < n && self.nodes[i].priority >= p
            invariant
                n == self.nodes@.len(),
                ns == nodes_view(self.nodes@),
                i <= n,
                insert_position(ns, p, 0) == insert_position(ns, p, i as int),
            decreases n - i,
        {
            i = i + 1;
        }
        let ghost nv = node@;
        let ghost nl = node.limiter;
        self.nodes.insert(i, node);
        assert(nodes_view(self.nodes@) =~= ns.insert(i as int, nv));
        assert(limiters_of(self.nodes@) =~= ls.insert(i as int, nl));
    }

    /// Removes the first node with the given id and hands it back.
    pub fn remove_node(&mut self, node_id: &str) -> (r: Option<DecisionNode<L>>)
        ensures
            final(self)@.stats == old(self)@.stats,
            ({
                let p = node_position(old(self)@.nodes, node_id@, 0);
                if p < old(self)@.nodes.len() {
                    r matches Some(n) && n@ == old(self)@.nodes[p] && final(self)@.nodes == old(
                        self,
                    )@.nodes.remove(p) && n.limiter == old(self).limiters()[p]
                        && final(self).limiters() == old(self).limiters().remove(p)
                } else {
                    r is None && final(self)@.nodes == old(self)@.nodes && final(self).limiters()
                        == old(self).limiters()
                }
            }),
    {
        match self.find(node_id) {
            Some(i) => {
                let ghost ns = self@.nodes;
                let ghost ls = self.limiters();
                let n = self.nodes.remove(i);
                assert(nodes_view(self.nodes@) =~= ns.remove(i as int));
                assert(limiters_of(self.nodes@) =~= ls.remove(i as int));
                Some(n)
            },
            None => None,
        }
    }

    fn find(&self, node_id: &str) -> (r: Option<usize>)
        ensures
            ({
                let p = node_position(self@.nodes, node_id@, 0);
                match r {
                    Some(i) => i == p && p < self@.nodes.len(),
                    None => p == self@.nodes.len(),
                }
            }),
    {
        let ghost ns = self@.nodes;
        proof {
            lemma_node_position(ns, node_id@, 0);
        }
        let n = self.nodes.len();
        let mut i: usize = 0;
        while i < n && !str_eq(self.nodes[i].id.as_str(), node_id)
            invariant
                n == self.nodes@.len(),
                ns == nodes_view(self.nodes@),
                i <= n,
                node_position(ns, node_id@, 0) == node_position(ns, node_id@, i as int),
            decreases n - i,
        {
            i = i + 1;
        }
        if i < n {
            Some(i)
        } else {
            None
        }
    }

    /// Number of nodes.
    pub fn node_count(&self) -> (r: usize)
        ensures
            r == self@.nodes.len(),
    {
        self.nodes.len()
    }

    /// Number of enabled nodes.
    pub fn enabled_node_count(&self) -> (r: usize)
        ensures
            r == count_enabled(self@.nodes),
    {
        let ghost ns = self@.nodes;
        let n = self.nodes.len();
        let mut c: usize = 0;
        let mut i: usize = 0;
        while i < n
            invariant
                n == self.nodes@.len(),
                ns == nodes_view(self.nodes@),
                i <= n,
                c == count_enabled(ns.take(i as int)),
                c <= i,
            decreases n - i,
        {
            assert(ns.take(i + 1).drop_last() =~= ns.take(i as int));
            if self.nodes[i].enabled {
                c = c + 1;
            }
            i = i + 1;
        }
        assert(ns.take(n as int) =~= ns);
        c
    }

    /// Sets the enabled flag of the first node with the given id; false when
    /// there is none.
    fn set_enabled(&mut self, node_id: &str, enabled: bool) -> (r: bool)
        ensures
            final(self)@.stats == old(self)@.stats,
            final(self).limiters() == old(self).limiters(),
            ({
                let p = node_position(old(self)@.nodes, node_id@, 0);
                if p < old(self)@.nodes.len() {
                    r && final(self)@.nodes == old(self)@.nodes.update(
                        p,
                        NodeView { enabled, ..old(self)@.nodes[p] },
                    )
                } else {
                    !r && final(self)@.nodes == old(self)@.nodes
                }
            }),
    {
        match self.find(node_id) {
            Some(i) => {
                let ghost ns = self@.nodes;
                let ghost ls = self.limiters();
                self.nodes[i].enabled = enabled;
                assert(limiters_of(self.nodes@) =~= ls);
                assert(nodes_view(self.nodes@) =~= ns.update(
                    i as int,
                    NodeView { enabled, ..ns[i as int] },
                ));
                true
            },
            None => false,
        }
    }

    /// Enables the first node with the given id; false when there is none.
    pub fn enable_node(&mut self, node_id: &str) -> (r: bool)
        ensures
            final(self)@.stats == old(self)@.stats,
            final(self).limiters() == old(self).limiters(),
            ({
                let p = node_position(old(self)@.nodes, node_id@, 0);
                if p < old(self)@.nodes.len() {
                    r && final(self)@.nodes == old(self)@.nodes.update(
                        p,
                        NodeView { enabled: true, ..old(self)@.nodes[p] },
                    )
                } else {
                    !r && final(self)@.nodes == old(self)@.nodes
                }
            }),
    {
        self.set_enabled(node_id, true)
    }

    /// Disables the first node with the given id; false when there is none.
    pub fn disable_node(&mut self, node_id: &str) -> (r: bool)
        ensures
            final(self)@.stats == old(self)@.stats,
            final(self).limiters() == old(self).limiters(),
            ({
                let p = node_position(old(self)@.nodes, node_id@, 0);
                if p < old(self)@.nodes.len() {
                    r && final(self)@.nodes == old(self)@.nodes.update(
                        p,
                        NodeView { enabled: false, ..old(self)@.nodes[p] },
                    )
                } else {
                    !r && final(self)@.nodes == old(self)@.nodes
                }
            }),
    {
        self.set_enabled(node_id, false)
    }

    /// Sets the short-circuit flag of the first node with the given id;
    /// false when there is none.
    pub fn set_short_circuit(&mut self, node_id: &str, short_circuit: bool) -> (r: bool)
        ensures
            final(self)@.stats == old(self)@.stats,
            final(self).limiters() == old(self).limiters(),
            ({
                let p = node_position(old(self)@.nodes, node_id@, 0);
                if p < old(self)@.nodes.len() {
                    r && final(self)@.nodes == old(self)@.nodes.update(
                        p,
                        NodeView { short_circuit, ..old(self)@.nodes[p] },
                    )
                } else {
                    !r && final(self)@.nodes == old(self)@.nodes
                }
            }),
    {
        match self.find(node_id) {
            Some(i) => {
                let ghost ns = self@.nodes;
                let ghost ls = self.limiters();
                self.nodes[i].short_circuit = short_circuit;
                assert(limiters_of(self.nodes@) =~= ls);
                assert(nodes_view(self.nodes@) =~= ns.update(
                    i as int,
                    NodeView { short_circuit, ..ns[i as int] },
                ));
                true
            },
            None => false,
        }
    }

    /// A snapshot of the statistics.
    pub fn stats(&self) -> (r: ChainStats)
        ensures
            r@ == self@.stats,
    {
        self.stats.snapshot()
    }

    /// The same as `stats`.
    pub fn stats_sync(&self) -> (r: ChainStats)
        ensures
            r@ == self@.stats,
    {
        self.stats.snapshot()
    }

    /// Sets the statistics back to zero.
    pub fn reset_stats(&mut self)
        ensures
            final(self)@ == (ChainView { stats: empty_stats(), ..old(self)@ }),
            final(self).limiters() == old(self).limiters(),
    {
        self.stats.reset();
    }

    /// The same as `reset_stats`.
    pub fn reset_stats_sync(&mut self)
        ensures
            final(self)@ == (ChainView { stats: empty_stats(), ..old(self)@ }),
            final(self).limiters() == old(self).limiters(),
    {
        self.stats.reset();
    }
}

/// Builds a chain node by node.
pub struct DecisionChainBuilder<L: Limiter = Box<dyn Limiter>> {
    nodes: Vec<DecisionNode<L>>,
}

impl<L: Limiter> View for DecisionChainBuilder<L> {
    type V = Seq<NodeView>;

    /// The nodes given so far, in the order given.
    closed spec fn view(&self) -> Seq<NodeView> {
        nodes_view(self.nodes@)
    }
}

impl<L: Limiter> DecisionChainBuilder<L> {
    /// The limiters of the nodes given so far, in the order given.
    pub closed spec fn limiters(&self) -> Seq<L> {
        limiters_of(self.nodes@)
    }

    /// A builder without nodes.
    pub fn new() -> (r: Self)
        ensures
            r@ == Seq::<NodeView>::empty(),
            r.limiters() == Seq::<L>::empty(),
    {
        let r = DecisionChainBuilder { nodes: Vec::new() };
        assert(r@ =~= Seq::<NodeView>::empty());
        assert(r.limiters() =~= Seq::<L>::empty());
        r
    }

    /// The builder with one more node.
    pub fn add_node(self, node: DecisionNode<L>) -> (r: Self)
        ensures
            r@ == self@.push(node@),
            r.limiters() == self.limiters().push(node.limiter),
    {
        let mut b = self;
        let ghost before = b@;
        let ghost before_l = b.limiters();
        let ghost nv = node@;
        let ghost nl = node.limiter;
        b.nodes.push(node);
        assert(b@ =~= before.push(nv));
        assert(b.limiters() =~= before_l.push(nl));
        b
    }

    /// The chain of the nodes given, each added in turn.
    pub fn build(self) -> (r: DecisionChain<L>)
        ensures
            r@.nodes == spec_add_all(Seq::empty(), self@),
            r@.stats == empty_stats(),
            r.limiters() == spec_add_all_limiters(Seq::empty(), Seq::empty(), self@, self.limiters()),
    {
        DecisionChain::with_dependencies(self.nodes)
    }
}

impl<L: Limiter> Default for DecisionChainBuilder<L> {
    fn default() -> (r: Self)
        ensures
            r@ == Seq::<NodeView>::empty(),
            r.limiters() == Seq::<L>::empty(),
    {
        DecisionChainBuilder::new()
    }
}

/// The abstract form of an optional message.
pub open spec fn opt_view(o: Option<String>) -> Option<Seq<char>> {
    match o {
        Some(s) => Some(s@),
        None => None,
    }
}

/// A check of `nodes` from the statistics `st`, given the answers, ends with
/// the result `r` at time `now` and the statistics `after`.
pub open spec fn check_ends(
    nodes: Seq<NodeView>,
    answers: Seq<Result<bool, LimiteronError>>,
    st: ChainStatsView,
    r: Result<Decision, LimiteronError>,
    now: u64,
    after: ChainStatsView,
) -> bool {
    result_of(r, spec_check(nodes, answers, st, None).0, now) && after == spec_check(
        nodes,
        answers,
        st,
        None,
    ).1
}

/// A full check of `nodes` from the statistics `st` (already counting the
/// check), given the answers, ends with the result `r` at time `now` and the
/// statistics `after`.
pub open spec fn check_all_ends(
    nodes: Seq<NodeView>,
    answers: Seq<Result<bool, LimiteronError>>,
    st: ChainStatsView,
    r: Result<Decision, LimiteronError>,
    now: u64,
    after: ChainStatsView,
) -> bool {
    result_of(r, spec_check_all(nodes, answers, st, Seq::empty()).0, now) && after
        == spec_check_all(nodes, answers, st, Seq::empty()).1
}

impl<L: Limiter> DecisionChain<L> {
    /// What one answer does to a check in progress: the statistics, the
    /// remembered rejection, and whether the check ends here.
    fn step(
        stats: &mut AtomicChainStats,
        node: &DecisionNode<L>,
        answer: Result<bool, LimiteronError>,
        last: &mut Option<String>,
        now_secs: u64,
    ) -> (r: Option<Result<Decision, LimiteronError>>)
        ensures
            match answer {
                Ok(true) => r is None && final(stats)@ == old(stats)@ && opt_view(*final(last))
                    == opt_view(*old(last)),
                Ok(false) => final(stats)@ == count_rejection(count_total(old(stats)@), node@.id) && (
                if node@.short_circuit {
                    r matches Some(x) && result_of(
                        x,
                        ChainOutcome::Reject(rejected_by(node@.name)),
                        now_secs,
                    )
                } else {
                    r is None && opt_view(*final(last)) == Some(rejected_by(node@.name))
                }),
                Err(e) => r == Some(Err::<Decision, LimiteronError>(e)) && final(stats)@
                    == count_error(count_total(old(stats)@)),
            },
    {
        match answer {
            Ok(true) => None,
            Ok(false) => {
                stats.increment_total();
                stats.increment_rejected();
                stats.increment_node_rejection(node.id.as_str());
                if node.short_circuit {
                    Some(Ok(rejection_for(node.name.as_str(), now_secs)))
                } else {
                    let m = concat_str("Rejected by ", node.name.as_str());
                    *last = Some(concat_str(m.as_str(), ": rate limit exceeded"));
                    None
                }
            },
            Err(e) => {
                stats.increment_total();
                stats.increment_error();
                Some(Err(e))
            },
        }
    }

    /// The end of a check that no node ended.
    fn finish(stats: &mut AtomicChainStats, last: Option<String>, now_secs: u64) -> (r: Result<
        Decision,
        LimiteronError,
    >)
        ensures
            final(stats)@ == count_allowed(count_total(old(stats)@)),
            result_of(
                r,
                match opt_view(last) {
                    Some(reason) => ChainOutcome::Reject(reason),
                    None => ChainOutcome::Allow,
                },
                now_secs,
            ),
    {
        stats.increment_total();
        stats.increment_allowed();
        match last {
            Some(reason) => Ok(
                Decision::Rejected(RejectionMetadata::new(reason, 60, 0, now_secs.saturating_add(60))),
            ),
            None => Ok(Decision::allowed_default()),
        }
    }

    /// Decides a check from answers already in hand, one per enabled node in
    /// order, without consulting the limiters; the statistics count it as a
    /// check.
    pub fn decide(&mut self, answers: Vec<Result<bool, LimiteronError>>, now_secs: u64) -> (r:
        Result<Decision, LimiteronError>)
        ensures
            final(self)@.nodes == old(self)@.nodes,
            final(self).limiters() == old(self).limiters(),
            check_ends(old(self)@.nodes, answers@, old(self)@.stats, r, now_secs, final(self)@.stats),
    {
        let ghost nodes0 = self@.nodes;
        let ghost st0 = self@.stats;
        let ghost ans0 = answers@;
        let mut answers = answers;
        let mut last: Option<String> = None;
        let n = self.nodes.len();
        let mut i: usize = 0;
        let mut outcome: Option<Result<Decision, LimiteronError>> = None;
        assert(nodes0.skip(0) =~= nodes0);
        while i < n && outcome.is_none()
            invariant
                n == nodes0.len(),
                nodes0 == nodes_view(self.nodes@),
                nodes0 == old(self)@.nodes,
                self.nodes@ == old(self).nodes@,
                st0 == old(self)@.stats,
                i <= n,
                outcome is None ==> spec_check(nodes0, ans0, st0, None) == spec_check(
                    nodes0.skip(i as int),
                    answers@,
                    self.stats@,
                    opt_view(last),
                ),
                outcome matches Some(res) ==> check_ends(nodes0, ans0, st0, res, now_secs, self.stats@),
            decreases n - i,
        {
            proof {
                lemma_skip_drop(nodes0, i as int);
            }
            if self.nodes[i].enabled {
                let ghost ans_before = answers@;
                let a = if answers.len() > 0 {
                    answers.remove(0)
                } else {
                    Ok(true)
                };
                proof {
                    if ans_before.len() > 0 {
                        assert(answers@ =~= ans_before.drop_first());
                    }
                    assert(first_answer(ans_before) == a);
                    assert(rest_answers(ans_before) == answers@);
                }
                assert(self.nodes@[i as int]@ == nodes0[i as int]);
                let ghost st_before = self.stats@;
                let ghost last_before = opt_view(last);
                let ghost ga = a;
                let res = Self::step(&mut self.stats, &self.nodes[i], a, &mut last, now_secs);
                assert(self@.nodes == nodes0);
                assert(nodes0.skip(i as int)[0].enabled);
                if let Some(res) = res {
                    assert(spec_check(nodes0.skip(i as int), ans_before, st_before, last_before).1
                        == self.stats@);
                    assert(result_of(res, spec_check(nodes0.skip(i as int), ans_before, st_before, last_before).0, now_secs));
                    assert(check_ends(nodes0, ans0, st0, res, now_secs, self.stats@));
                    outcome = Some(res);
                } else {
                assert(spec_check(nodes0.skip(i as int), ans_before, st_before, last_before)
                    == spec_check(nodes0.skip(i + 1), answers@, self.stats@, opt_view(last)));
                }
            }
            i = i + 1;
        }
        if let Some(res) = outcome {
            return res;
        }
        proof {
            assert(i == n);
            assert(nodes0.skip(n as int) =~= Seq::<NodeView>::empty());
        }
        Self::finish(&mut self.stats, last, now_secs)
    }

    /// A check at time `now_secs` (seconds since the Unix epoch): the enabled
    /// nodes are consulted in order, each with its cost, until one ends the
    /// check. The result and the statistics are those that `decide` gives for
    /// the answers the limiters gave, each an answer the node's limiter may
    /// give at the node's cost; the limiters not consulted stay as they were.
    pub fn check_at(&mut self, now_secs: u64) -> (r: Result<Decision, LimiteronError>)
        ensures
            final(self)@.nodes == old(self)@.nodes,
            exists|answers: Seq<Result<bool, LimiteronError>>|
                #[trigger] check_ends(
                    old(self)@.nodes,
                    answers,
                    old(self)@.stats,
                    r,
                    now_secs,
                    final(self)@.stats,
                ) && answered_by(old(self).limiters(), old(self)@.nodes, answers, false) && untouched(
                    old(self).limiters(),
                    final(self).limiters(),
                    old(self)@.nodes,
                    answers,
                    false,
                ),
            final(self).limiters().len() == old(self).limiters().len(),
    {
        let ghost nodes0 = self@.nodes;
        let ghost lims0 = self.limiters();
        let ghost st0 = self@.stats;
        let ghost mut seen: Seq<Result<bool, LimiteronError>> = Seq::empty();
        let mut last: Option<String> = None;
        let n = self.nodes.len();
        let mut i: usize = 0;
        assert(nodes0.skip(0) =~= nodes0);
        assert(lims0.skip(0) =~= lims0);
        assert forall|fut: Seq<Result<bool, LimiteronError>>|
            answered_by(lims0, nodes0, seen + fut, false) == #[trigger] answered_by(
                lims0.skip(0),
                nodes0.skip(0),
                fut,
                false,
            ) by {
            assert(seen + fut =~= fut);
        }
        assert forall|fut: Seq<Result<bool, LimiteronError>>, futl: Seq<L>|
            untouched(lims0, limiters_of(self.nodes@).take(0) + futl, nodes0, seen + fut, false)
                == #[trigger] untouched(lims0.skip(0), futl, nodes0.skip(0), fut, false) by {
            assert(seen + fut =~= fut);
            assert(limiters_of(self.nodes@).take(0) + futl =~= futl);
        }
        assert forall|fut: Seq<Result<bool, LimiteronError>>|
            spec_check(nodes0, seen + fut, st0, None) == #[trigger] spec_check(
                nodes0.skip(0),
                fut,
                self.stats@,
                opt_view(last),
            ) by {
            assert(seen + fut =~= fut);
        }
        let mut outcome: Option<Result<Decision, LimiteronError>> = None;
        while i < n && outcome.is_none()
            invariant
                n == nodes0.len(),
                nodes0 == nodes_view(self.nodes@),
                nodes0 == old(self)@.nodes,
                st0 == old(self)@.stats,
                lims0 == old(self).limiters(),
                self.nodes@.len() == n,
                forall|j: int|
                    0 <= j < n && (j >= i || !nodes0[j].enabled) ==> #[trigger] self.nodes@[j].limiter
                        == lims0[j],
                i <= n,
                outcome is None ==> forall|fut: Seq<Result<bool, LimiteronError>>|
                    answered_by(lims0, nodes0, seen + fut, false) == #[trigger] answered_by(
                        lims0.skip(i as int),
                        nodes0.skip(i as int),
                        fut,
                        false,
                    ),
                outcome is Some ==> answered_by(lims0, nodes0, seen, false),
                outcome is None ==> forall|fut: Seq<Result<bool, LimiteronError>>, futl: Seq<L>|
                    untouched(
                        lims0,
                        limiters_of(self.nodes@).take(i as int) + futl,
                        nodes0,
                        seen + fut,
                        false,
                    ) == #[trigger] untouched(lims0.skip(i as int), futl, nodes0.skip(i as int), fut, false),
                outcome is Some ==> untouched(lims0, limiters_of(self.nodes@), nodes0, seen, false),
                outcome is None ==> forall|fut: Seq<Result<bool, LimiteronError>>|
                    spec_check(nodes0, seen + fut, st0, None) == #[trigger] spec_check(
                        nodes0.skip(i as int),
                        fut,
                        self.stats@,
                        opt_view(last),
                    ),
                outcome matches Some(res) ==> check_ends(nodes0, seen, st0, res, now_secs, self.stats@),
            decreases n - i,
        {
            proof {
                lemma_skip_drop(nodes0, i as int);
                lemma_skip_drop(lims0, i as int);
            }
            let ghost cur0 = limiters_of(self.nodes@);
            let ghost seen_head = seen;
            if self.nodes[i].enabled {
                let cost = self.nodes[i].cost;
                assert(self.nodes@[i as int].limiter == lims0[i as int]);
                let a = self.nodes[i].limiter.allow(cost);
                assert(nodes_view(self.nodes@) =~= nodes0);
                let ghost ga = a;
                let ghost cur1 = limiters_of(self.nodes@);
                proof {
                    assert(cur1.take(i as int) =~= cur0.take(i as int));
                    assert forall|fut: Seq<Result<bool, LimiteronError>>, futl: Seq<L>|
                        #[trigger] untouched(lims0, cur1.take(i + 1) + futl, nodes0, seen_head.push(ga) + fut, false)
                            == untouched(
                            lims0.skip(i as int),
                            seq![cur1[i as int]] + futl,
                            nodes0.skip(i as int),
                            seq![ga] + fut,
                            false,
                        ) by {
                        assert(cur1.take(i + 1) + futl =~= cur0.take(i as int) + (seq![cur1[i as int]] + futl));
                        assert(seen_head.push(ga) + fut =~= seen_head + (seq![ga] + fut));
                    }
                    assert forall|fut: Seq<Result<bool, LimiteronError>>, futl: Seq<L>|
                        #[trigger] untouched(
                            lims0.skip(i as int),
                            seq![cur1[i as int]] + futl,
                            nodes0.skip(i as int),
                            seq![ga] + fut,
                            false,
                        ) == match ga {
                            Ok(true) => untouched(lims0.skip(i + 1), futl, nodes0.skip(i + 1), fut, false),
                            Ok(false) => if nodes0[i as int].short_circuit {
                                futl == lims0.skip(i + 1)
                            } else {
                                untouched(lims0.skip(i + 1), futl, nodes0.skip(i + 1), fut, false)
                            },
                            Err(_) => futl == lims0.skip(i + 1),
                        } by {
                        assert((seq![ga] + fut).drop_first() =~= fut);
                        assert((seq![ga] + fut)[0] == ga);
                        assert((seq![cur1[i as int]] + futl).drop_first() =~= futl);
                    }
                    assert(cur1.skip(i + 1) =~= lims0.skip(i + 1));
                    assert(cur1.take(i + 1) + cur1.skip(i + 1) =~= cur1);
                }
                let ghost seen0 = seen;
                let ghost st_before = self.stats@;
                let ghost last_before = opt_view(last);
                proof {
                    assert(lims0[i as int].admits(nodes0[i as int].cost, ga));
                    assert forall|fut: Seq<Result<bool, LimiteronError>>|
                        #[trigger] answered_by(lims0, nodes0, seen0.push(ga) + fut, false)
                            == answered_by(lims0.skip(i as int), nodes0.skip(i as int), seq![ga] + fut, false)
                        by {
                        assert(seen0.push(ga) + fut =~= seen0 + (seq![ga] + fut));
                    }
                    assert forall|fut: Seq<Result<bool, LimiteronError>>|
                        #[trigger] answered_by(lims0.skip(i as int), nodes0.skip(i as int), seq![ga] + fut, false)
                            == match ga {
                            Ok(true) => answered_by(lims0.skip(i + 1), nodes0.skip(i + 1), fut, false),
                            Ok(false) => if nodes0[i as int].short_circuit {
                                fut.len() == 0
                            } else {
                                answered_by(lims0.skip(i + 1), nodes0.skip(i + 1), fut, false)
                            },
                            Err(_) => fut.len() == 0,
                        } by {
                        assert((seq![ga] + fut).drop_first() =~= fut);
                        assert((seq![ga] + fut)[0] == ga);
                    }
                    seen = seen.push(ga);
                    assert forall|fut: Seq<Result<bool, LimiteronError>>|
                        #[trigger] spec_check(nodes0, seen + fut, st0, None) == spec_check(
                            nodes0.skip(i as int),
                            seq![ga] + fut,
                            st_before,
                            last_before,
                        ) by {
                        assert(seen + fut =~= seen0 + (seq![ga] + fut));
                    }
                }
                assert(self.nodes@[i as int]@ == nodes0[i as int]);
                let res = Self::step(&mut self.stats, &self.nodes[i], a, &mut last, now_secs);
                assert(nodes0.skip(i as int)[0].enabled);
                proof {
                    lemma_answers_cons(ga, Seq::empty());
                    assert(seq![ga] + Seq::<Result<bool, LimiteronError>>::empty() =~= seq![ga]);
                    assert(seen + Seq::<Result<bool, LimiteronError>>::empty() =~= seen);
                    assert(spec_check(nodes0, seen + Seq::<Result<bool, LimiteronError>>::empty(), st0, None)
                        == spec_check(
                        nodes0.skip(i as int),
                        seq![ga] + Seq::<Result<bool, LimiteronError>>::empty(),
                        st_before,
                        last_before,
                    ));
                }
                if let Some(res) = res {
                    proof {
                        assert(check_ends(nodes0, seen, st0, res, now_secs, self.stats@));
                        assert(seen + Seq::<Result<bool, LimiteronError>>::empty() =~= seen);
                        assert(answered_by(
                            lims0.skip(i as int),
                            nodes0.skip(i as int),
                            seq![ga] + Seq::<Result<bool, LimiteronError>>::empty(),
                            false,
                        ));
                        assert(answered_by(lims0, nodes0, seen, false));
                        assert(untouched(
                            lims0,
                            cur1.take(i + 1) + cur1.skip(i + 1),
                            nodes0,
                            seen + Seq::<Result<bool, LimiteronError>>::empty(),
                            false,
                        ) == untouched(
                            lims0.skip(i as int),
                            seq![cur1[i as int]] + cur1.skip(i + 1),
                            nodes0.skip(i as int),
                            seq![ga] + Seq::<Result<bool, LimiteronError>>::empty(),
                            false,
                        ));
                        assert(untouched(lims0, limiters_of(self.nodes@), nodes0, seen, false));
                    }
                    outcome = Some(res);
                } else {
                proof {
                    assert forall|fut: Seq<Result<bool, LimiteronError>>, futl: Seq<L>|
                        untouched(
                            lims0,
                            limiters_of(self.nodes@).take(i + 1) + futl,
                            nodes0,
                            seen + fut,
                            false,
                        ) == #[trigger] untouched(lims0.skip(i + 1), futl, nodes0.skip(i + 1), fut, false) by {
                        assert(untouched(lims0, cur1.take(i + 1) + futl, nodes0, seen_head.push(ga) + fut, false)
                            == untouched(
                            lims0.skip(i as int),
                            seq![cur1[i as int]] + futl,
                            nodes0.skip(i as int),
                            seq![ga] + fut,
                            false,
                        ));
                    }
                    assert forall|fut: Seq<Result<bool, LimiteronError>>|
                        answered_by(lims0, nodes0, seen + fut, false) == #[trigger] answered_by(
                            lims0.skip(i + 1),
                            nodes0.skip(i + 1),
                            fut,
                            false,
                        ) by {
                        assert(answered_by(lims0, nodes0, seen0.push(ga) + fut, false)
                            == answered_by(lims0.skip(i as int), nodes0.skip(i as int), seq![ga] + fut, false));
                    }
                    assert forall|fut: Seq<Result<bool, LimiteronError>>|
                        spec_check(nodes0, seen + fut, st0, None) == #[trigger] spec_check(
                            nodes0.skip(i + 1),
                            fut,
                            self.stats@,
                            opt_view(last),
                        ) by {
                        lemma_answers_cons(ga, fut);
                        assert(spec_check(nodes0, seen + fut, st0, None) == spec_check(
                            nodes0.skip(i as int),
                            seq![ga] + fut,
                            st_before,
                            last_before,
                        ));
                    }
                }
                }
            } else {
                proof {
                    assert forall|fut: Seq<Result<bool, LimiteronError>>, futl: Seq<L>|
                        untouched(
                            lims0,
                            limiters_of(self.nodes@).take(i + 1) + futl,
                            nodes0,
                            seen + fut,
                            false,
                        ) == #[trigger] untouched(lims0.skip(i + 1), futl, nodes0.skip(i + 1), fut, false) by {
                        assert(limiters_of(self.nodes@).take(i + 1) + futl =~= cur0.take(i as int) + (
                        seq![lims0[i as int]] + futl));
                        assert(untouched(
                            lims0,
                            cur0.take(i as int) + (seq![lims0[i as int]] + futl),
                            nodes0,
                            seen + fut,
                            false,
                        ) == untouched(
                            lims0.skip(i as int),
                            seq![lims0[i as int]] + futl,
                            nodes0.skip(i as int),
                            fut,
                            false,
                        ));
                        assert((seq![lims0[i as int]] + futl).drop_first() =~= futl);
                    }
                    assert forall|fut: Seq<Result<bool, LimiteronError>>|
                        answered_by(lims0, nodes0, seen + fut, false) == #[trigger] answered_by(
                            lims0.skip(i + 1),
                            nodes0.skip(i + 1),
                            fut,
                            false,
                        ) by {
                        assert(answered_by(lims0, nodes0, seen + fut, false) == answered_by(
                            lims0.skip(i as int),
                            nodes0.skip(i as int),
                            fut,
                            false,
                        ));
                    }
                    assert forall|fut: Seq<Result<bool, LimiteronError>>|
                        spec_check(nodes0, seen + fut, st0, None) == #[trigger] spec_check(
                            nodes0.skip(i + 1),
                            fut,
                            self.stats@,
                            opt_view(last),
                        ) by {
                        assert(spec_check(nodes0, seen + fut, st0, None) == spec_check(
                            nodes0.skip(i as int),
                            fut,
                            self.stats@,
                            opt_view(last),
                        ));
                    }
                }
            }
            i = i + 1;
        }
        assert(limiters_of(self.nodes@).len() == n);
        if let Some(res) = outcome {
            assert(check_ends(old(self)@.nodes, seen, old(self)@.stats, res, now_secs, self@.stats));
            return res;
        }
        proof {
            assert(i == n);
            assert(nodes0.skip(n as int) =~= Seq::<NodeView>::empty());
            assert(limiters_of(self.nodes@).take(n as int) + Seq::<L>::empty() =~= limiters_of(self.nodes@));
            assert(lims0.skip(n as int) =~= Seq::<L>::empty());
            assert(untouched(
                lims0,
                limiters_of(self.nodes@).take(n as int) + Seq::<L>::empty(),
                nodes0,
                seen + Seq::<Result<bool, LimiteronError>>::empty(),
                false,
            ) == untouched(
                lims0.skip(n as int),
                Seq::<L>::empty(),
                nodes0.skip(n as int),
                Seq::<Result<bool, LimiteronError>>::empty(),
                false,
            ));
            assert(answered_by(lims0, nodes0, seen + Seq::<Result<bool, LimiteronError>>::empty(), false)
                == answered_by(
                lims0.skip(n as int),
                nodes0.skip(n as int),
                Seq::<Result<bool, LimiteronError>>::empty(),
                false,
            ));
            assert(seen + Seq::<Result<bool, LimiteronError>>::empty() =~= seen);
            assert(spec_check(nodes0, seen + Seq::<Result<bool, LimiteronError>>::empty(), st0, None)
                == spec_check(
                nodes0.skip(n as int),
                Seq::<Result<bool, LimiteronError>>::empty(),
                self.stats@,
                opt_view(last),
            ));
        }
        let r = Self::finish(&mut self.stats, last, now_secs);
        assert(check_ends(nodes0, seen, st0, r, now_secs, self.stats@));
        assert(check_ends(old(self)@.nodes, seen, old(self)@.stats, r, now_secs, self@.stats));
        r
    }

    /// A check now; see `check_at`.
    pub fn check(&mut self) -> (r: Result<Decision, LimiteronError>)
        ensures
            final(self)@.nodes == old(self)@.nodes,
            exists|answers: Seq<Result<bool, LimiteronError>>, now: u64|
                #[trigger] check_ends(
                    old(self)@.nodes,
                    answers,
                    old(self)@.stats,
                    r,
                    now,
                    final(self)@.stats,
                ) && answered_by(old(self).limiters(), old(self)@.nodes, answers, false) && untouched(
                    old(self).limiters(),
                    final(self).limiters(),
                    old(self)@.nodes,
                    answers,
                    false,
                ),
            final(self).limiters().len() == old(self).limiters().len(),
    {
        let now = now_unix_nanos() / 1_000_000_000;
        self.check_at(now)
    }
}

impl<L: Limiter> DecisionChain<L> {
    /// What one answer does to a full check in progress.
    fn step_all(
        stats: &mut AtomicChainStats,
        node: &DecisionNode<L>,
        answer: Result<bool, LimiteronError>,
        reasons: &mut Vec<String>,
    ) -> (r: Option<LimiteronError>)
        ensures
            match answer {
                Ok(true) => r is None && final(stats)@ == old(stats)@ && strings_view(final(reasons)@)
                    == strings_view(old(reasons)@),
                Ok(false) => r is None && final(stats)@ == count_rejection(old(stats)@, node@.id)
                    && strings_view(final(reasons)@) == strings_view(old(reasons)@).push(
                    node@.name + ": rate limit exceeded"@,
                ),
                Err(e) => r == Some(e) && final(stats)@ == old(stats)@,
            },
    {
        match answer {
            Ok(true) => None,
            Ok(false) => {
                let ghost before = strings_view(reasons@);
                reasons.push(concat_str(node.name.as_str(), ": rate limit exceeded"));
                assert(strings_view(reasons@) =~= before.push(node@.name + ": rate limit exceeded"@));
                stats.increment_rejected();
                stats.increment_node_rejection(node.id.as_str());
                None
            },
            Err(e) => Some(e),
        }
    }

    /// The end of a full check that no error ended.
    fn finish_all(stats: &mut AtomicChainStats, reasons: &Vec<String>, now_secs: u64) -> (r: Result<
        Decision,
        LimiteronError,
    >)
        ensures
            strings_view(reasons@).len() == 0 ==> final(stats)@ == count_allowed(old(stats)@)
                && result_of(r, ChainOutcome::Allow, now_secs),
            strings_view(reasons@).len() > 0 ==> final(stats)@ == old(stats)@ && result_of(
                r,
                ChainOutcome::Reject(join(strings_view(reasons@), "; "@)),
                now_secs,
            ),
    {
        if reasons.len() == 0 {
            stats.increment_allowed();
            Ok(Decision::allowed_default())
        } else {
            let reason = join_strings(reasons, "; ");
            Ok(Decision::Rejected(RejectionMetadata::new(reason, 60, 0, now_secs.saturating_add(60))))
        }
    }

    /// Decides a full check from answers already in hand, one per enabled
    /// node in order, without consulting the limiters.
    pub fn decide_all(&mut self, answers: Vec<Result<bool, LimiteronError>>, now_secs: u64) -> (r:
        Result<Decision, LimiteronError>)
        ensures
            final(self)@.nodes == old(self)@.nodes,
            final(self).limiters() == old(self).limiters(),
            check_all_ends(
                old(self)@.nodes,
                answers@,
                count_total(old(self)@.stats),
                r,
                now_secs,
                final(self)@.stats,
            ),
    {
        self.stats.increment_total();
        let ghost nodes0 = self@.nodes;
        let ghost st0 = self@.stats;
        let ghost ans0 = answers@;
        let mut answers = answers;
        let mut reasons: Vec<String> = Vec::new();
        let n = self.nodes.len();
        let mut i: usize = 0;
        let mut failure: Option<LimiteronError> = None;
        assert(nodes0.skip(0) =~= nodes0);
        assert(strings_view(reasons@) =~= Seq::<Seq<char>>::empty());
        while i < n && failure.is_none()
            invariant
                n == nodes0.len(),
                nodes0 == nodes_view(self.nodes@),
                nodes0 == old(self)@.nodes,
                self.nodes@ == old(self).nodes@,
                st0 == count_total(old(self)@.stats),
                i <= n,
                failure is None ==> spec_check_all(nodes0, ans0, st0, Seq::empty()) == spec_check_all(
                    nodes0.skip(i as int),
                    answers@,
                    self.stats@,
                    strings_view(reasons@),
                ),
                failure matches Some(e) ==> spec_check_all(nodes0, ans0, st0, Seq::empty()) == (
                ChainOutcome::Fail(e), self.stats@),
            decreases n - i,
        {
            proof {
                lemma_skip_drop(nodes0, i as int);
            }
            if self.nodes[i].enabled {
                let ghost ans_before = answers@;
                let a = if answers.len() > 0 {
                    answers.remove(0)
                } else {
                    Ok(true)
                };
                proof {
                    if ans_before.len() > 0 {
                        assert(answers@ =~= ans_before.drop_first());
                    }
                }
                assert(self.nodes@[i as int]@ == nodes0[i as int]);
                failure = Self::step_all(&mut self.stats, &self.nodes[i], a, &mut reasons);
            }
            i = i + 1;
        }
        if let Some(e) = failure {
            return Err(e);
        }
        proof {
            assert(nodes0.skip(n as int) =~= Seq::<NodeView>::empty());
        }
        Self::finish_all(&mut self.stats, &reasons, now_secs)
    }

    /// A full check at time `now_secs` (seconds): counted as one check, then
    /// every enabled node is consulted in order, each with its cost, unless
    /// a limiter fails. The result and the statistics are those that
    /// `decide_all` gives for the answers the limiters gave, each an answer
    /// the node's limiter may give at the node's cost; the limiters not
    /// consulted stay as they were.
    pub fn check_all_at(&mut self, now_secs: u64) -> (r: Result<Decision, LimiteronError>)
        ensures
            final(self)@.nodes == old(self)@.nodes,
            exists|answers: Seq<Result<bool, LimiteronError>>|
                #[trigger] check_all_ends(
                    old(self)@.nodes,
                    answers,
                    count_total(old(self)@.stats),
                    r,
                    now_secs,
                    final(self)@.stats,
                ) && answered_by(old(self).limiters(), old(self)@.nodes, answers, true) && untouched(
                    old(self).limiters(),
                    final(self).limiters(),
                    old(self)@.nodes,
                    answers,
                    true,
                ),
            final(self).limiters().len() == old(self).limiters().len(),
    {
        self.stats.increment_total();
        let ghost nodes0 = self@.nodes;
        let ghost lims0 = self.limiters();
        let ghost st0 = self@.stats;
        let ghost mut seen: Seq<Result<bool, LimiteronError>> = Seq::empty();
        let mut reasons: Vec<String> = Vec::new();
        let n = self.nodes.len();
        let mut i: usize = 0;
        let mut failure: Option<LimiteronError> = None;
        assert(nodes0.skip(0) =~= nodes0);
        assert(strings_view(reasons@) =~= Seq::<Seq<char>>::empty());
        assert(lims0.skip(0) =~= lims0);
        assert forall|fut: Seq<Result<bool, LimiteronError>>|
            answered_by(lims0, nodes0, seen + fut, true) == #[trigger] answered_by(
                lims0.skip(0),
                nodes0.skip(0),
                fut,
                true,
            ) by {
            assert(seen + fut =~= fut);
        }
        assert forall|fut: Seq<Result<bool, LimiteronError>>, futl: Seq<L>|
            untouched(lims0, limiters_of(self.nodes@).take(0) + futl, nodes0, seen + fut, true)
                == #[trigger] untouched(lims0.skip(0), futl, nodes0.skip(0), fut, true) by {
            assert(seen + fut =~= fut);
            assert(limiters_of(self.nodes@).take(0) + futl =~= futl);
        }
        assert forall|fut: Seq<Result<bool, LimiteronError>>|
            spec_check_all(nodes0, seen + fut, st0, Seq::empty()) == #[trigger] spec_check_all(
                nodes0.skip(0),
                fut,
                self.stats@,
                strings_view(reasons@),
            ) by {
            assert(seen + fut =~= fut);
        }
        while i < n && failure.is_none()
            invariant
                n == nodes0.len(),
                nodes0 == nodes_view(self.nodes@),
                nodes0 == old(self)@.nodes,
                st0 == count_total(old(self)@.stats),
                lims0 == old(self).limiters(),
                self.nodes@.len() == n,
                forall|j: int|
                    0 <= j < n && (j >= i || !nodes0[j].enabled) ==> #[trigger] self.nodes@[j].limiter
                        == lims0[j],
                i <= n,
                failure is None ==> forall|fut: Seq<Result<bool, LimiteronError>>|
                    answered_by(lims0, nodes0, seen + fut, true) == #[trigger] answered_by(
                        lims0.skip(i as int),
                        nodes0.skip(i as int),
                        fut,
                        true,
                    ),
                failure is Some ==> answered_by(lims0, nodes0, seen, true),
                failure is None ==> forall|fut: Seq<Result<bool, LimiteronError>>, futl: Seq<L>|
                    untouched(
                        lims0,
                        limiters_of(self.nodes@).take(i as int) + futl,
                        nodes0,
                        seen + fut,
                        true,
                    ) == #[trigger] untouched(lims0.skip(i as int), futl, nodes0.skip(i as int), fut, true),
                failure is Some ==> untouched(lims0, limiters_of(self.nodes@), nodes0, seen, true),
                failure is None ==> forall|fut: Seq<Result<bool, LimiteronError>>|
                    spec_check_all(nodes0, seen + fut, st0, Seq::empty()) == #[trigger] spec_check_all(
                        nodes0.skip(i as int),
                        fut,
                        self.stats@,
                        strings_view(reasons@),
                    ),
                failure matches Some(e) ==> spec_check_all(nodes0, seen, st0, Seq::empty()) == (
                ChainOutcome::Fail(e), self.stats@),
            decreases n - i,
        {
            proof {
                lemma_skip_drop(nodes0, i as int);
                lemma_skip_drop(lims0, i as int);
            }
            let ghost cur0 = limiters_of(self.nodes@);
            let ghost seen_head = seen;
            if self.nodes[i].enabled {
                let cost = self.nodes[i].cost;
                assert(self.nodes@[i as int].limiter == lims0[i as int]);
                let a = self.nodes[i].limiter.allow(cost);
                assert(nodes_view(self.nodes@) =~= nodes0);
                let ghost ga = a;
                let ghost cur1 = limiters_of(self.nodes@);
                proof {
                    assert(cur1.take(i as int) =~= cur0.take(i as int));
                    assert forall|fut: Seq<Result<bool, LimiteronError>>, futl: Seq<L>|
                        #[trigger] untouched(lims0, cur1.take(i + 1) + futl, nodes0, seen_head.push(ga) + fut, true)
                            == untouched(
                            lims0.skip(i as int),
                            seq![cur1[i as int]] + futl,
                            nodes0.skip(i as int),
                            seq![ga] + fut,
                            true,
                        ) by {
                        assert(cur1.take(i + 1) + futl =~= cur0.take(i as int) + (seq![cur1[i as int]] + futl));
                        assert(seen_head.push(ga) + fut =~= seen_head + (seq![ga] + fut));
                    }
                    assert forall|fut: Seq<Result<bool, LimiteronError>>, futl: Seq<L>|
                        #[trigger] untouched(
                            lims0.skip(i as int),
                            seq![cur1[i as int]] + futl,
                            nodes0.skip(i as int),
                            seq![ga] + fut,
                            true,
                        ) == match ga {
                            Ok(_) => untouched(lims0.skip(i + 1), futl, nodes0.skip(i + 1), fut, true),
                            Err(_) => futl == lims0.skip(i + 1),
                        } by {
                        assert((seq![ga] + fut).drop_first() =~= fut);
                        assert((seq![ga] + fut)[0] == ga);
                        assert((seq![cur1[i as int]] + futl).drop_first() =~= futl);
                    }
                    assert(cur1.skip(i + 1) =~= lims0.skip(i + 1));
                    assert(cur1.take(i + 1) + cur1.skip(i + 1) =~= cur1);
                }
                let ghost seen0 = seen;
                let ghost st_before = self.stats@;
                let ghost reasons_before = strings_view(reasons@);
                proof {
                    assert(lims0[i as int].admits(nodes0[i as int].cost, ga));
                    assert forall|fut: Seq<Result<bool, LimiteronError>>|
                        #[trigger] answered_by(lims0, nodes0, seen0.push(ga) + fut, true)
                            == answered_by(lims0.skip(i as int), nodes0.skip(i as int), seq![ga] + fut, true)
                        by {
                        assert(seen0.push(ga) + fut =~= seen0 + (seq![ga] + fut));
                    }
                    assert forall|fut: Seq<Result<bool, LimiteronError>>|
                        #[trigger] answered_by(lims0.skip(i as int), nodes0.skip(i as int), seq![ga] + fut, true)
                            == match ga {
                            Ok(_) => answered_by(lims0.skip(i + 1), nodes0.skip(i + 1), fut, true),
                            Err(_) => fut.len() == 0,
                        } by {
                        assert((seq![ga] + fut).drop_first() =~= fut);
                        assert((seq![ga] + fut)[0] == ga);
                    }
                    seen = seen.push(ga);
                    assert forall|fut: Seq<Result<bool, LimiteronError>>|
                        #[trigger] spec_check_all(nodes0, seen + fut, st0, Seq::empty())
                            == spec_check_all(
                            nodes0.skip(i as int),
                            seq![ga] + fut,
                            st_before,
                            reasons_before,
                        ) by {
                        assert(seen + fut =~= seen0 + (seq![ga] + fut));
                    }
                }
                assert(self.nodes@[i as int]@ == nodes0[i as int]);
                failure = Self::step_all(&mut self.stats, &self.nodes[i], a, &mut reasons);
                proof {
                    lemma_answers_cons(ga, Seq::empty());
                    assert(seq![ga] + Seq::<Result<bool, LimiteronError>>::empty() =~= seq![ga]);
                    assert(seen + Seq::<Result<bool, LimiteronError>>::empty() =~= seen);
                    assert(spec_check_all(
                        nodes0,
                        seen + Seq::<Result<bool, LimiteronError>>::empty(),
                        st0,
                        Seq::empty(),
                    ) == spec_check_all(
                        nodes0.skip(i as int),
                        seq![ga] + Seq::<Result<bool, LimiteronError>>::empty(),
                        st_before,
                        reasons_before,
                    ));
                    if failure is Some {
                        assert(answered_by(
                            lims0.skip(i as int),
                            nodes0.skip(i as int),
                            seq![ga] + Seq::<Result<bool, LimiteronError>>::empty(),
                            true,
                        ));
                        assert(answered_by(lims0, nodes0, seen, true));
                        assert(untouched(
                            lims0,
                            cur1.take(i + 1) + cur1.skip(i + 1),
                            nodes0,
                            seen + Seq::<Result<bool, LimiteronError>>::empty(),
                            true,
                        ) == untouched(
                            lims0.skip(i as int),
                            seq![cur1[i as int]] + cur1.skip(i + 1),
                            nodes0.skip(i as int),
                            seq![ga] + Seq::<Result<bool, LimiteronError>>::empty(),
                            true,
                        ));
                        assert(untouched(lims0, limiters_of(self.nodes@), nodes0, seen, true));
                    }
                    if failure is None {
                        assert forall|fut: Seq<Result<bool, LimiteronError>>, futl: Seq<L>|
                            untouched(
                                lims0,
                                limiters_of(self.nodes@).take(i + 1) + futl,
                                nodes0,
                                seen + fut,
                                true,
                            ) == #[trigger] untouched(lims0.skip(i + 1), futl, nodes0.skip(i + 1), fut, true) by {
                            assert(untouched(lims0, cur1.take(i + 1) + futl, nodes0, seen_head.push(ga) + fut, true)
                                == untouched(
                                lims0.skip(i as int),
                                seq![cur1[i as int]] + futl,
                                nodes0.skip(i as int),
                                seq![ga] + fut,
                                true,
                            ));
                        }
                        assert forall|fut: Seq<Result<bool, LimiteronError>>|
                            answered_by(lims0, nodes0, seen + fut, true) == #[trigger] answered_by(
                                lims0.skip(i + 1),
                                nodes0.skip(i + 1),
                                fut,
                                true,
                            ) by {
                            assert(answered_by(lims0, nodes0, seen0.push(ga) + fut, true)
                                == answered_by(lims0.skip(i as int), nodes0.skip(i as int), seq![ga] + fut, true));
                        }
                        assert forall|fut: Seq<Result<bool, LimiteronError>>|
                            spec_check_all(nodes0, seen + fut, st0, Seq::empty())
                                == #[trigger] spec_check_all(
                                nodes0.skip(i + 1),
                                fut,
                                self.stats@,
                                strings_view(reasons@),
                            ) by {
                            lemma_answers_cons(ga, fut);
                            assert(spec_check_all(nodes0, seen + fut, st0, Seq::empty())
                                == spec_check_all(
                                nodes0.skip(i as int),
                                seq![ga] + fut,
                                st_before,
                                reasons_before,
                            ));
                        }
                    }
                }
            } else {
                proof {
                    assert forall|fut: Seq<Result<bool, LimiteronError>>, futl: Seq<L>|
                        untouched(
                            lims0,
                            limiters_of(self.nodes@).take(i + 1) + futl,
                            nodes0,
                            seen + fut,
                            true,
                        ) == #[trigger] untouched(lims0.skip(i + 1), futl, nodes0.skip(i + 1), fut, true) by {
                        assert(limiters_of(self.nodes@).take(i + 1) + futl =~= cur0.take(i as int) + (
                        seq![lims0[i as int]] + futl));
                        assert(untouched(
                            lims0,
                            cur0.take(i as int) + (seq![lims0[i as int]] + futl),
                            nodes0,
                            seen + fut,
                            true,
                        ) == untouched(
                            lims0.skip(i as int),
                            seq![lims0[i as int]] + futl,
                            nodes0.skip(i as int),
                            fut,
                            true,
                        ));
                        assert((seq![lims0[i as int]] + futl).drop_first() =~= futl);
                    }
                    assert forall|fut: Seq<Result<bool, LimiteronError>>|
                        answered_by(lims0, nodes0, seen + fut, true) == #[trigger] answered_by(
                            lims0.skip(i + 1),
                            nodes0.skip(i + 1),
                            fut,
                            true,
                        ) by {
                        assert(answered_by(lims0, nodes0, seen + fut, true) == answered_by(
                            lims0.skip(i as int),
                            nodes0.skip(i as int),
                            fut,
                            true,
                        ));
                    }
                    assert forall|fut: Seq<Result<bool, LimiteronError>>|
                        spec_check_all(nodes0, seen + fut, st0, Seq::empty())
                            == #[trigger] spec_check_all(
                            nodes0.skip(i + 1),
                            fut,
                            self.stats@,
                            strings_view(reasons@),
                        ) by {
                        assert(spec_check_all(nodes0, seen + fut, st0, Seq::empty())
                            == spec_check_all(
                            nodes0.skip(i as int),
                            fut,
                            self.stats@,
                            strings_view(reasons@),
                        ));
                    }
                }
            }
            i = i + 1;
        }
        assert(limiters_of(self.nodes@).len() == n);
        if let Some(e) = failure {
            assert(check_all_ends(
                old(self)@.nodes,
                seen,
                count_total(old(self)@.stats),
                Err(e),
                now_secs,
                self@.stats,
            ));
            return Err(e);
        }
        proof {
            assert(nodes0.skip(n as int) =~= Seq::<NodeView>::empty());
            assert(seen + Seq::<Result<bool, LimiteronError>>::empty() =~= seen);
            assert(limiters_of(self.nodes@).take(n as int) + Seq::<L>::empty() =~= limiters_of(self.nodes@));
            assert(lims0.skip(n as int) =~= Seq::<L>::empty());
            assert(untouched(
                lims0,
                limiters_of(self.nodes@).take(n as int) + Seq::<L>::empty(),
                nodes0,
                seen + Seq::<Result<bool, LimiteronError>>::empty(),
                true,
            ) == untouched(
                lims0.skip(n as int),
                Seq::<L>::empty(),
                nodes0.skip(n as int),
                Seq::<Result<bool, LimiteronError>>::empty(),
                true,
            ));
            assert(answered_by(lims0, nodes0, seen + Seq::<Result<bool, LimiteronError>>::empty(), true)
                == answered_by(
                lims0.skip(n as int),
                nodes0.skip(n as int),
                Seq::<Result<bool, LimiteronError>>::empty(),
                true,
            ));
            assert(spec_check_all(nodes0, seen + Seq::<Result<bool, LimiteronError>>::empty(), st0, Seq::empty())
                == spec_check_all(
                nodes0.skip(n as int),
                Seq::<Result<bool, LimiteronError>>::empty(),
                self.stats@,
                strings_view(reasons@),
            ));
        }
        let r = Self::finish_all(&mut self.stats, &reasons, now_secs);
        assert(check_all_ends(
            old(self)@.nodes,
            seen,
            count_total(old(self)@.stats),
            r,
            now_secs,
            self@.stats,
        ));
        r
    }

    /// A full check now; see `check_all_at`.
    pub fn check_all(&mut self) -> (r: Result<Decision, LimiteronError>)
        ensures
            final(self)@.nodes == old(self)@.nodes,
            exists|answers: Seq<Result<bool, LimiteronError>>, now: u64|
                #[trigger] check_all_ends(
                    old(self)@.nodes,
                    answers,
                    count_total(old(self)@.stats),
                    r,
                    now,
                    final(self)@.stats,
                ) && answered_by(old(self).limiters(), old(self)@.nodes, answers, true) && untouched(
                    old(self).limiters(),
                    final(self).limiters(),
                    old(self)@.nodes,
                    answers,
                    true,
                ),
            final(self).limiters().len() == old(self).limiters().len(),
    {
        let now = now_unix_nanos() / 1_000_000_000;
        self.check_all_at(now)
    }
}

/// The counters agree: allowed checks, rejections and errors add up to the
/// checks (modulo 2^64, where the counters wrap).
pub open spec fn stats_balanced(s: ChainStatsView) -> bool {
    (s.allowed + s.rejected + s.errors) % 0x1_0000_0000_0000_0000 == s.total as int
}

/// Every check keeps the counters balanced: each ends by counting one check
/// together with exactly one allowed check, rejection or error.
pub proof fn law_check_keeps_stats_balanced(
    nodes: Seq<NodeView>,
    answers: Seq<Result<bool, LimiteronError>>,
    st: ChainStatsView,
    last: Option<Seq<char>>,
)
    requires
        stats_balanced(st),
    ensures
        stats_balanced(spec_check(nodes, answers, st, last).1),
    decreases nodes.len(),
{
    if nodes.len() > 0 {
        if !nodes[0].enabled {
            law_check_keeps_stats_balanced(nodes.drop_first(), answers, st, last);
        } else {
            match first_answer(answers) {
                Ok(true) => {
                    law_check_keeps_stats_balanced(nodes.drop_first(), rest_answers(answers), st, last);
                },
                Ok(false) => {
                    let st1 = count_rejection(count_total(st), nodes[0].id);
                    assert(stats_balanced(st1));
                    if !nodes[0].short_circuit {
                        law_check_keeps_stats_balanced(
                            nodes.drop_first(),
                            rest_answers(answers),
                            st1,
                            Some(rejected_by(nodes[0].name)),
                        );
                    }
                },
                Err(e) => {},
            }
        }
    }
}

/// Adding a node keeps the chain in order of priority, and the chain then
/// holds the nodes it held and the new one, nothing else.
pub proof fn law_add_keeps_priority_order(nodes: Seq<NodeView>, n: NodeView)
    requires
        sorted_by_priority(nodes),
    ensures
        sorted_by_priority(spec_add(nodes, n)),
        spec_add(nodes, n).len() == nodes.len() + 1,
        spec_add(nodes, n).to_multiset() == nodes.to_multiset().insert(n),
{
    lemma_insert_position(nodes, n.priority, 0);
    vstd::seq_lib::to_multiset_insert(nodes, insert_position(nodes, n.priority, 0), n);
    let p = insert_position(nodes, n.priority, 0);
    let r = spec_add(nodes, n);
    assert forall|i: int, j: int| 0 <= i < j < r.len() implies r[i].priority >= r[j].priority by {
        if j < p {
        } else if j == p {
            assert(r[i] == nodes[i]);
        } else if i < p {
            assert(r[j] == nodes[j - 1]);
            assert(nodes[i].priority >= n.priority);
        } else if i == p {
            assert(r[j] == nodes[j - 1]);
            assert(nodes[p].priority < n.priority);
            assert(nodes[p].priority >= nodes[j - 1].priority);
        } else {
            assert(r[i] == nodes[i - 1]);
            assert(r[j] == nodes[j - 1]);
        }
    }
}

/// However the nodes are given, a chain built from them is in order of
/// priority and holds exactly the nodes given.
pub proof fn law_built_chain_in_priority_order(nodes: Seq<NodeView>, added: Seq<NodeView>)
    requires
        sorted_by_priority(nodes),
    ensures
        sorted_by_priority(spec_add_all(nodes, added)),
        spec_add_all(nodes, added).len() == nodes.len() + added.len(),
        spec_add_all(nodes, added).to_multiset() == nodes.to_multiset().add(added.to_multiset()),
    decreases added.len(),
{
    broadcast use vstd::multiset::group_multiset_axioms;

    if added.len() > 0 {
        law_add_keeps_priority_order(nodes, added[0]);
        law_built_chain_in_priority_order(spec_add(nodes, added[0]), added.drop_first());
        vstd::seq_lib::to_multiset_remove(added, 0);
        assert(added.remove(0) =~= added.drop_first());
        assert(added.to_multiset().count(added[0]) > 0) by {
            vstd::seq_lib::to_multiset_contains(added, added[0]);
        }
        assert(nodes.to_multiset().insert(added[0]).add(added.drop_first().to_multiset())
            =~= nodes.to_multiset().add(added.to_multiset()));
    } else {
        assert(added.to_multiset() =~= vstd::multiset::Multiset::empty()) by {
            vstd::seq_lib::to_multiset_len(added);
        }
        assert(nodes.to_multiset().add(added.to_multiset()) =~= nodes.to_multiset());
    }
}

/// The statistics after a run of checks of `nodes`, one per sequence of
/// answers in `runs`, in order.
pub open spec fn spec_check_runs(
    nodes: Seq<NodeView>,
    runs: Seq<Seq<Result<bool, LimiteronError>>>,
    st: ChainStatsView,
) -> ChainStatsView
    decreases runs.len(),
{
    if runs.len() == 0 {
        st
    } else {
        spec_check_runs(nodes, runs.drop_first(), spec_check(nodes, runs[0], st, None).1)
    }
}

proof fn lemma_check_counts_bounded(
    nodes: Seq<NodeView>,
    answers: Seq<Result<bool, LimiteronError>>,
    st: ChainStatsView,
    last: Option<Seq<char>>,
)
    requires
        st.total + nodes.len() + 1 <= u64::MAX,
        st.allowed + nodes.len() + 1 <= u64::MAX,
        st.rejected + nodes.len() + 1 <= u64::MAX,
        st.errors + nodes.len() + 1 <= u64::MAX,
    ensures
        ({
            let a = spec_check(nodes, answers, st, last).1;
            &&& st.total < a.total <= st.total + nodes.len() + 1
            &&& st.allowed <= a.allowed <= st.allowed + nodes.len() + 1
            &&& st.rejected <= a.rejected <= st.rejected + nodes.len() + 1
            &&& st.errors <= a.errors <= st.errors + nodes.len() + 1
        }),
    decreases nodes.len(),
{
    if nodes.len() > 0 {
        if !nodes[0].enabled {
            lemma_check_counts_bounded(nodes.drop_first(), answers, st, last);
        } else {
            match first_answer(answers) {
                Ok(true) => {
                    lemma_check_counts_bounded(nodes.drop_first(), rest_answers(answers), st, last);
                },
                Ok(false) => {
                    if !nodes[0].short_circuit {
                        lemma_check_counts_bounded(
                            nodes.drop_first(),
                            rest_answers(answers),
                            count_rejection(count_total(st), nodes[0].id),
                            Some(rejected_by(nodes[0].name)),
                        );
                    }
                },
                Err(e) => {},
            }
        }
    }
}

/// Over any run of checks of the same nodes, no counter ever goes down and
/// each check adds at least one to the checks counted, as long as no counter
/// reaches `u64::MAX` (one check moves a counter by at most one more than
/// the number of nodes); balanced counters stay balanced.
pub proof fn law_check_runs_never_lower_counters(
    nodes: Seq<NodeView>,
    runs: Seq<Seq<Result<bool, LimiteronError>>>,
    st: ChainStatsView,
)
    requires
        st.total + (nodes.len() + 1) * runs.len() <= u64::MAX,
        st.allowed + (nodes.len() + 1) * runs.len() <= u64::MAX,
        st.rejected + (nodes.len() + 1) * runs.len() <= u64::MAX,
        st.errors + (nodes.len() + 1) * runs.len() <= u64::MAX,
    ensures
        ({
            let a = spec_check_runs(nodes, runs, st);
            &&& a.total >= st.total + runs.len()
            &&& a.allowed >= st.allowed
            &&& a.rejected >= st.rejected
            &&& a.errors >= st.errors
            &&& stats_balanced(st) ==> stats_balanced(a)
        }),
    decreases runs.len(),
{
    if runs.len() > 0 {
        let k = nodes.len() + 1;
        let m = runs.len();
        assert(k * m == k * (m - 1) + k) by (nonlinear_arith);
        assert(k * (m - 1) >= 0) by (nonlinear_arith)
            requires
                k >= 0,
                m >= 1,
        ;
        lemma_check_counts_bounded(nodes, runs[0], st, None);
        if stats_balanced(st) {
            law_check_keeps_stats_balanced(nodes, runs[0], st, None);
        }
        let st1 = spec_check(nodes, runs[0], st, None).1;
        assert(runs.drop_first().len() == m - 1);
        law_check_runs_never_lower_counters(nodes, runs.drop_first(), st1);
    }
}

/// A chain whose nodes are all disabled consults no limiter and lets every
/// request pass, counting one allowed check.
pub proof fn law_disabled_chain_allows(
    nodes: Seq<NodeView>,
    answers: Seq<Result<bool, LimiteronError>>,
    st: ChainStatsView,
)
    requires
        forall|i: int| 0 <= i < nodes.len() ==> !(#[trigger] nodes[i]).enabled,
    ensures
        spec_check(nodes, answers, st, None) == (ChainOutcome::Allow, count_allowed(count_total(st))),
        spec_check_all(nodes, answers, st, Seq::empty()) == (ChainOutcome::Allow, count_allowed(st)),
    decreases nodes.len(),
{
    if nodes.len() > 0 {
        assert(!nodes[0].enabled);
        assert forall|i: int| 0 <= i < nodes.drop_first().len() implies !(
        #[trigger] nodes.drop_first()[i]).enabled by {
            assert(nodes.drop_first()[i] == nodes[i + 1]);
        }
        law_disabled_chain_allows(nodes.drop_first(), answers, st);
    }
}

/// When every consulted limiter lets the request pass, the check allows it.
pub proof fn law_all_pass_allows(
    nodes: Seq<NodeView>,
    answers: Seq<Result<bool, LimiteronError>>,
    st: ChainStatsView,
)
    requires
        forall|i: int| 0 <= i < answers.len() ==> #[trigger] answers[i] == Ok::<bool, LimiteronError>(true),
    ensures
        spec_check(nodes, answers, st, None) == (ChainOutcome::Allow, count_allowed(count_total(st))),
        spec_check_all(nodes, answers, st, Seq::empty()) == (ChainOutcome::Allow, count_allowed(st)),
    decreases nodes.len(),
{
    if nodes.len() > 0 {
        if answers.len() > 0 {
            assert(answers[0] == Ok::<bool, LimiteronError>(true));
        }
        let rest = if nodes[0].enabled {
            rest_answers(answers)
        } else {
            answers
        };
        assert forall|i: int| 0 <= i < rest.len() implies #[trigger] rest[i] == Ok::<
            bool,
            LimiteronError,
        >(true) by {
            if nodes[0].enabled && answers.len() > 0 {
                assert(rest[i] == answers[i + 1]);
            }
        }
        law_all_pass_allows(nodes.drop_first(), rest, st);
    }
}


/// A check that meets a rejection by a node that does not short-circuit
/// still ends rejected: when every answer the limiters gave was a pass or a
/// rejection and at least one was a rejection (or one is remembered), the
/// request does not pass.
pub proof fn law_rejection_ends_rejected<L: Limiter>(
    lims: Seq<L>,
    nodes: Seq<NodeView>,
    answers: Seq<Result<bool, LimiteronError>>,
    st: ChainStatsView,
    last: Option<Seq<char>>,
)
    requires
        answered_by(lims, nodes, answers, false),
        forall|k: int| 0 <= k < answers.len() ==> #[trigger] answers[k] is Ok,
        last is Some || exists|k: int|
            0 <= k < answers.len() && #[trigger] answers[k] == Ok::<bool, LimiteronError>(false),
    ensures
        spec_check(nodes, answers, st, last).0 is Reject,
    decreases nodes.len(),
{
    if nodes.len() > 0 {
        if !nodes[0].enabled {
            law_rejection_ends_rejected(lims.drop_first(), nodes.drop_first(), answers, st, last);
        } else {
            assert(answers[0] is Ok);
            let rest = answers.drop_first();
            assert forall|k: int| 0 <= k < rest.len() implies #[trigger] rest[k] is Ok by {
                assert(rest[k] == answers[k + 1]);
            }
            if answers[0] == Ok::<bool, LimiteronError>(true) {
                if last is None {
                    let k = choose|k: int|
                        0 <= k < answers.len() && #[trigger] answers[k] == Ok::<bool, LimiteronError>(
                            false,
                        );
                    assert(rest[k - 1] == answers[k]);
                }
                law_rejection_ends_rejected(lims.drop_first(), nodes.drop_first(), rest, st, last);
            } else if !nodes[0].short_circuit {
                let st1 = count_rejection(count_total(st), nodes[0].id);
                law_rejection_ends_rejected(
                    lims.drop_first(),
                    nodes.drop_first(),
                    rest,
                    st1,
                    Some(rejected_by(nodes[0].name)),
                );
            }
        }
    }
}

/// A full check in which some limiter rejects, and none fails, ends
/// rejected.
pub proof fn law_full_check_rejection_ends_rejected<L: Limiter>(
    lims: Seq<L>,
    nodes: Seq<NodeView>,
    answers: Seq<Result<bool, LimiteronError>>,
    st: ChainStatsView,
    reasons: Seq<Seq<char>>,
)
    requires
        answered_by(lims, nodes, answers, true),
        forall|k: int| 0 <= k < answers.len() ==> #[trigger] answers[k] is Ok,
        reasons.len() > 0 || exists|k: int|
            0 <= k < answers.len() && #[trigger] answers[k] == Ok::<bool, LimiteronError>(false),
    ensures
        spec_check_all(nodes, answers, st, reasons).0 is Reject,
    decreases nodes.len(),
{
    if nodes.len() > 0 {
        if !nodes[0].enabled {
            law_full_check_rejection_ends_rejected(
                lims.drop_first(),
                nodes.drop_first(),
                answers,
                st,
                reasons,
            );
        } else {
            assert(answers[0] is Ok);
            let rest = answers.drop_first();
            assert forall|k: int| 0 <= k < rest.len() implies #[trigger] rest[k] is Ok by {
                assert(rest[k] == answers[k + 1]);
            }
            if answers[0] == Ok::<bool, LimiteronError>(true) {
                if reasons.len() == 0 {
                    let k = choose|k: int|
                        0 <= k < answers.len() && #[trigger] answers[k] == Ok::<bool, LimiteronError>(
                            false,
                        );
                    assert(rest[k - 1] == answers[k]);
                }
                law_full_check_rejection_ends_rejected(
                    lims.drop_first(),
                    nodes.drop_first(),
                    rest,
                    st,
                    reasons,
                );
            } else {
                law_full_check_rejection_ends_rejected(
                    lims.drop_first(),
                    nodes.drop_first(),
                    rest,
                    count_rejection(st, nodes[0].id),
                    reasons.push(nodes[0].name + ": rate limit exceeded"@),
                );
            }
        }
    }
}

proof fn lemma_count_enabled_first(nodes: Seq<NodeView>)
    requires
        nodes.len() > 0,
    ensures
        count_enabled(nodes) == (if nodes[0].enabled {
            1nat
        } else {
            0nat
        }) + count_enabled(nodes.drop_first()),
    decreases nodes.len(),
{
    let d = nodes.drop_first();
    if nodes.len() > 1 {
        lemma_count_enabled_first(nodes.drop_last());
        assert(nodes.drop_last().drop_first() =~= d.drop_last());
        assert(nodes.drop_last()[0] == nodes[0]);
        assert(d.last() == nodes.last());
        assert(count_enabled(d) == (if d.last().enabled {
            1nat
        } else {
            0nat
        }) + count_enabled(d.drop_last()));
    } else {
        assert(d.len() == 0);
        assert(count_enabled(d) == 0);
        assert(nodes.drop_last().len() == 0);
        assert(count_enabled(nodes.drop_last()) == 0);
        assert(nodes.last() == nodes[0]);
    }
}

/// A full check in which no limiter fails consults every enabled node
/// exactly once: it gets as many answers as there are enabled nodes.
pub proof fn law_full_check_consults_every_enabled_node<L: Limiter>(
    lims: Seq<L>,
    nodes: Seq<NodeView>,
    answers: Seq<Result<bool, LimiteronError>>,
)
    requires
        answered_by(lims, nodes, answers, true),
        forall|k: int| 0 <= k < answers.len() ==> #[trigger] answers[k] is Ok,
    ensures
        answers.len() == count_enabled(nodes),
    decreases nodes.len(),
{
    if nodes.len() > 0 {
        lemma_count_enabled_first(nodes);
        if !nodes[0].enabled {
            law_full_check_consults_every_enabled_node(lims.drop_first(), nodes.drop_first(), answers);
        } else {
            assert(answers[0] is Ok);
            let rest = answers.drop_first();
            assert forall|k: int| 0 <= k < rest.len() implies #[trigger] rest[k] is Ok by {
                assert(rest[k] == answers[k + 1]);
            }
            law_full_check_consults_every_enabled_node(lims.drop_first(), nodes.drop_first(), rest);
        }
    }
}


/// A check never touches the limiter of a disabled node: after any check,
/// whatever the limiters answered, each disabled node's limiter is as it was.
pub proof fn law_disabled_limiters_untouched<L: Limiter>(
    lims: Seq<L>,
    after: Seq<L>,
    nodes: Seq<NodeView>,
    answers: Seq<Result<bool, LimiteronError>>,
    full: bool,
)
    requires
        lims.len() == nodes.len(),
        after.len() == nodes.len(),
        answered_by(lims, nodes, answers, full),
        untouched(lims, after, nodes, answers, full),
    ensures
        forall|j: int| 0 <= j < nodes.len() && !nodes[j].enabled ==> #[trigger] after[j] == lims[j],
    decreases nodes.len(),
{
    if nodes.len() > 0 {
        let rest_answers = if !nodes[0].enabled {
            answers
        } else {
            answers.drop_first()
        };
        let goes_on = !nodes[0].enabled || match answers[0] {
            Ok(true) => true,
            Ok(false) => !(nodes[0].short_circuit && !full),
            Err(_) => false,
        };
        if goes_on {
            law_disabled_limiters_untouched(
                lims.drop_first(),
                after.drop_first(),
                nodes.drop_first(),
                rest_answers,
                full,
            );
            assert forall|j: int| 0 <= j < nodes.len() && !nodes[j].enabled implies #[trigger] after[j]
                == lims[j] by {
                if j > 0 {
                    assert(after.drop_first()[j - 1] == after[j]);
                    assert(lims.drop_first()[j - 1] == lims[j]);
                    assert(nodes.drop_first()[j - 1] == nodes[j]);
                }
            }
        } else {
            assert forall|j: int| 0 <= j < nodes.len() && !nodes[j].enabled implies #[trigger] after[j]
                == lims[j] by {
                if j > 0 {
                    assert(after.drop_first()[j - 1] == after[j]);
                    assert(lims.drop_first()[j - 1] == lims[j]);
                }
            }
        }
    }
}

} // verus!
