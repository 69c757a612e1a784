//! The decisions of the bounded-parallelism crawl: admission of new workers under the cap,
//! cancellation on the first report, and the lifecycle of one node.
//!
//! The threads that run the visits hold one [`Coordinator`] behind a lock and one
//! [`NodeRun`] each; they perform the actions these return and feed back what happened.
use vstd::prelude::*;
use crate::access::PathAccessData;
use crate::data::{Page, SubContent};
use crate::report::{RecurseReport, ReportBuilder};
use crate::text::str_eq;

verus! {

/// The answer to a request for a worker slot.
#[derive(Clone, Copy, Debug, PartialEq, Eq, Structural)]
pub enum Admit {
    /// A slot was taken; `last_slot` when it was the last free one, in which case the
    /// requester joins the new worker at once.
    Granted { last_slot: bool },
    /// No slot is free: wait for a release and ask again.
    Wait,
    /// The crawl is cancelled: spawn nothing more.
    Abandon,
}

/// The state of the coordination record, as numbers.
pub struct CoordView {
    pub cap: nat,
    pub active: nat,
    pub poisoned: bool,
    pub keep_going: bool,
    pub reports: nat,
}

/// One operation on the coordination record.
pub enum CoordOp {
    Admit,
    Release,
    Report,
}

pub open spec fn coord_wf(s: CoordView) -> bool {
    1 <= s.cap && s.active <= s.cap
}

/// What a request for a slot does: refused once cancelled, granted while a slot is free.
pub open spec fn admit_spec(s: CoordView) -> (CoordView, Admit) {
    if s.poisoned {
        (s, Admit::Abandon)
    } else if s.active < s.cap {
        (CoordView { active: s.active + 1, ..s }, Admit::Granted { last_slot: s.active + 1 == s.cap })
    } else {
        (s, Admit::Wait)
    }
}

/// A worker gives its slot back.
pub open spec fn release_spec(s: CoordView) -> CoordView {
    if s.active > 0 {
        CoordView { active: (s.active - 1) as nat, ..s }
    } else {
        s
    }
}

/// A report is recorded; without `keep_going` it cancels the crawl.
pub open spec fn report_spec(s: CoordView) -> CoordView {
    CoordView { reports: s.reports + 1, poisoned: s.poisoned || !s.keep_going, ..s }
}

pub open spec fn step_spec(s: CoordView, op: CoordOp) -> CoordView {
    match op {
        CoordOp::Admit => admit_spec(s).0,
        CoordOp::Release => release_spec(s),
        CoordOp::Report => report_spec(s),
    }
}

/// The state after the operations `ops`, in order.
pub open spec fn run_spec(s: CoordView, ops: Seq<CoordOp>) -> CoordView
    decreases ops.len(),
{
    if ops.len() == 0 {
        s
    } else {
        step_spec(run_spec(s, ops.drop_last()), ops.last())
    }
}

/// How many requests among `ops` were granted a slot.
pub open spec fn grants_spec(s: CoordView, ops: Seq<CoordOp>) -> nat
    decreases ops.len(),
{
    if ops.len() == 0 {
        0
    } else {
        grants_spec(s, ops.drop_last()) + if ops.last() is Admit && admit_spec(
            run_spec(s, ops.drop_last()),
        ).1 is Granted {
            1nat
        } else {
            0nat
        }
    }
}

/// How many reports `ops` record.
pub open spec fn report_ops(ops: Seq<CoordOp>) -> nat
    decreases ops.len(),
{
    if ops.len() == 0 {
        0
    } else {
        report_ops(ops.drop_last()) + if ops.last() is Report {
            1nat
        } else {
            0nat
        }
    }
}

/// Whatever happens, no more workers are active than the cap allows.
pub proof fn lemma_active_within_cap(s: CoordView, ops: Seq<CoordOp>)
    requires
        coord_wf(s),
    ensures
        coord_wf(run_spec(s, ops)),
        run_spec(s, ops).active <= s.cap,
        run_spec(s, ops).cap == s.cap,
    decreases ops.len(),
{
    if ops.len() > 0 {
        lemma_active_within_cap(s, ops.drop_last());
    }
}

/// Once cancelled, the crawl stays cancelled and grants no slot: no node that was not
/// already admitted starts.
pub proof fn lemma_poison_stops_admission(s: CoordView, ops: Seq<CoordOp>)
    requires
        s.poisoned,
    ensures
        run_spec(s, ops).poisoned,
        grants_spec(s, ops) == 0,
    decreases ops.len(),
{
    if ops.len() > 0 {
        lemma_poison_stops_admission(s, ops.drop_last());
    }
}

/// Without `keep_going`, the first report cancels the crawl, and the report is kept.
pub proof fn lemma_report_poisons(s: CoordView)
    requires
        !s.keep_going,
    ensures
        report_spec(s).poisoned,
        report_spec(s).reports == s.reports + 1,
{
}

/// With `keep_going`, nothing cancels the crawl, and every report that is made is kept: the
/// count of reports grows by exactly the number of reports made.
pub proof fn lemma_keep_going_keeps_all(s: CoordView, ops: Seq<CoordOp>)
    requires
        s.keep_going,
        !s.poisoned,
    ensures
        !run_spec(s, ops).poisoned,
        run_spec(s, ops).keep_going,
        run_spec(s, ops).reports == s.reports + report_ops(ops),
        forall|i: int|
            0 <= i < ops.len() && ops[i] is Admit ==> !(admit_spec(#[trigger] run_spec(s, ops.take(i))).1 is Abandon),
    decreases ops.len(),
{
    if ops.len() > 0 {
        lemma_keep_going_keeps_all(s, ops.drop_last());
        assert forall|i: int|
            0 <= i < ops.len() && ops[i] is Admit implies !(admit_spec(#[trigger] run_spec(s, ops.take(i))).1 is Abandon) by {
            if i < ops.len() - 1 {
                assert(ops.drop_last().take(i) =~= ops.take(i));
                assert(ops.drop_last()[i] == ops[i]);
            } else {
                assert(ops.take(i) =~= ops.drop_last());
            }
        }
    }
}

/// With a single slot, every granted slot is the last one: each child is joined as soon as
/// it is spawned, so the crawl runs depth first in page order.
pub proof fn lemma_single_slot_is_depth_first(s: CoordView)
    requires
        coord_wf(s),
        s.cap == 1,
    ensures
        admit_spec(s).1 matches Admit::Granted { last_slot } ==> last_slot,
{
}

/// The shared record of a crawl: the cap, the active workers, the cancellation flag and
/// the reports.
pub struct Coordinator {
    thread_nb: usize,
    active: usize,
    poisoned: bool,
    keep_going: bool,
    reports: Vec<RecurseReport>,
}

impl Coordinator {
    pub closed spec fn view(&self) -> CoordView {
        CoordView {
            cap: self.thread_nb as nat,
            active: self.active as nat,
            poisoned: self.poisoned,
            keep_going: self.keep_going,
            reports: self.reports@.len(),
        }
    }

    pub closed spec fn reports_spec(&self) -> Seq<RecurseReport> {
        self.reports@
    }

    pub open spec fn wf(&self) -> bool {
        coord_wf(self.view())
    }

    /// A record for a crawl on at most `thread_nb` workers (at least one), whose root worker
    /// is already active.
    pub fn new(thread_nb: usize, keep_going: bool) -> (r: Self)
        ensures
            r.wf(),
            r.view().cap == if thread_nb == 0 {
                1
            } else {
                thread_nb as nat
            },
            r.view().active == 1,
            !r.view().poisoned,
            r.view().keep_going == keep_going,
            r.reports_spec().len() == 0,
    {
        let cap = if thread_nb == 0 {
            1
        } else {
            thread_nb
        };
        Coordinator { thread_nb: cap, active: 1, poisoned: false, keep_going, reports: Vec::new() }
    }

    /// Asks for a worker slot.
    pub fn wait_to_spawn_child_then_increment_worker(&mut self) -> (r: Admit)
        requires
            old(self).wf(),
        ensures
            final(self).wf(),
            (final(self).view(), r) == admit_spec(old(self).view()),
            final(self).reports_spec() == old(self).reports_spec(),
    {
        if self.poisoned {
            Admit::Abandon
        } else if self.active < self.thread_nb {
            self.active = self.active + 1;
            Admit::Granted { last_slot: self.active == self.thread_nb }
        } else {
            Admit::Wait
        }
    }

    /// Gives a worker slot back.
    pub fn decrement_worker(&mut self)
        requires
            old(self).wf(),
            old(self).view().active > 0,
        ensures
            final(self).wf(),
            final(self).view() == release_spec(old(self).view()),
            final(self).reports_spec() == old(self).reports_spec(),
    {
        self.active = self.active - 1;
    }

    /// Records a report; without `keep_going` the crawl is cancelled.
    pub fn add_error(&mut self, report: RecurseReport)
        requires
            old(self).wf(),
        ensures
            final(self).wf(),
            final(self).view() == report_spec(old(self).view()),
            final(self).reports_spec() == old(self).reports_spec().push(report),
    {
        self.reports.push(report);
        if !self.keep_going {
            self.poisoned = true;
        }
    }

    /// Whether the crawl is cancelled.
    pub fn get_is_poisoned(&self) -> (r: bool)
        ensures
            r == self.view().poisoned,
    {
        self.poisoned
    }

    /// The number of active workers.
    pub fn active(&self) -> (r: usize)
        ensures
            r == self.view().active,
    {
        self.active
    }

    /// The reports recorded so far, in order.
    pub fn into_reports(self) -> (r: Vec<RecurseReport>)
        ensures
            r@ == self.reports_spec(),
    {
        self.reports
    }
}


/// Where one node's visit stands.
#[derive(Clone, Copy, Debug, PartialEq, Eq, Structural)]
pub enum Stage {
    Resolving,
    Filtering,
    Visiting,
    Spawning,
    Joining,
    Done,
}

/// What happened since the last action of a node's worker.
#[derive(Clone, Copy, Debug, PartialEq, Eq, Structural)]
pub enum NodeEvent {
    /// The resolver returned a page with this many children.
    Resolved { children: usize },
    /// The resolver asked for input.
    Prompted,
    /// The resolver failed.
    ResolveFailed,
    /// The skip predicate ran.
    Filtered { skip: bool },
    /// The visitor ran; `descend` when it returned data for the children.
    Visited { descend: bool },
    /// The answer to a request for a slot for the next child.
    Admission(Admit),
    /// Every deferred child was joined.
    Joined,
}

/// What a node's worker does next.
#[derive(Clone, Copy, Debug, PartialEq, Eq, Structural)]
pub enum NodeAction {
    /// Record a resolver failure, give the slot back, count the node as finished.
    ReportResolveFailure,
    /// Record that a non-root node asked for input, give the slot back, count it as finished.
    ReportPrompt,
    /// Give the slot back and count the node as finished, without report.
    ReleaseAndStop,
    /// Run the skip predicate.
    RunFilter,
    /// Run the visitor.
    RunVisitor,
    /// Give the slot back, count the node as finished, and ask for a slot for the first child.
    ReleaseAndRequestSlot,
    /// Wait for a slot to be released, then ask again.
    WaitForSlot,
    /// Spawn the child of this index and join it at once (it took the last slot).
    SpawnInline(usize),
    /// Spawn the child of this index and join it later.
    SpawnDeferred(usize),
    /// Join every deferred child.
    JoinDeferred,
    /// The visit is over.
    Finish,
    /// The event does not fit the stage; nothing changes.
    Ignore,
}

impl NodeAction {
    /// Whether the action gives the node's slot back.
    pub open spec fn releases(self) -> bool {
        self is ReportResolveFailure || self is ReportPrompt || self is ReleaseAndStop
            || self is ReleaseAndRequestSlot
    }
}

/// The lifecycle of one node's visit.
pub struct NodeRun {
    stage: Stage,
    at_root: bool,
    children: usize,
    next_child: usize,
    released: bool,
    abandoned: bool,
    spawned: Ghost<Seq<int>>,
}

/// The indices `0..n`, in order.
pub open spec fn first_indices(n: int) -> Seq<int> {
    Seq::new(n as nat, |i: int| i)
}

impl NodeRun {
    pub closed spec fn stage_spec(&self) -> Stage {
        self.stage
    }

    pub closed spec fn children_spec(&self) -> nat {
        self.children as nat
    }

    pub closed spec fn next_spec(&self) -> nat {
        self.next_child as nat
    }

    /// Whether the node's slot was given back.
    pub closed spec fn released_spec(&self) -> bool {
        self.released
    }

    /// Whether the spawning of children stopped on a cancellation.
    pub closed spec fn abandoned_spec(&self) -> bool {
        self.abandoned
    }

    /// The children spawned so far, by index, in the order they were spawned.
    pub closed spec fn spawned_spec(&self) -> Seq<int> {
        self.spawned@
    }

    pub closed spec fn at_root_spec(&self) -> bool {
        self.at_root
    }

    pub open spec fn wf(&self) -> bool {
        &&& self.next_spec() <= self.children_spec()
        &&& self.spawned_spec() == first_indices(self.next_spec() as int)
        &&& self.released_spec() <==> (self.stage_spec() is Spawning || self.stage_spec() is Joining
            || self.stage_spec() is Done)
        &&& (self.stage_spec() is Resolving || self.stage_spec() is Filtering
            || self.stage_spec() is Visiting) ==> self.next_spec() == 0
        &&& self.stage_spec() is Spawning ==> self.next_spec() < self.children_spec() && !self.abandoned_spec()
        &&& self.abandoned_spec() ==> (self.stage_spec() is Joining || self.stage_spec() is Done)
    }

    /// A visit about to resolve its node; `at_root` for the node the crawl starts from.
    pub fn new(at_root: bool) -> (r: Self)
        ensures
            r.wf(),
            r.stage_spec() == Stage::Resolving,
            r.at_root_spec() == at_root,
            !r.released_spec(),
    {
        assert(Seq::<int>::empty() =~= first_indices(0));
        NodeRun {
            stage: Stage::Resolving,
            at_root,
            children: 0,
            next_child: 0,
            released: false,
            abandoned: false,
            spawned: Ghost(Seq::empty()),
        }
    }

    /// Where the visit stands.
    pub fn stage(&self) -> (r: Stage)
        ensures
            r == self.stage_spec(),
    {
        self.stage
    }

    /// Advances the visit on `event` and says what to do next.
    ///
    /// A failed resolution is reported; a request for input is reported except at the root;
    /// an empty page or a visitor that returns nothing ends the visit without report. The slot
    /// is given back once, before any child is spawned. Children are then spawned one at a
    /// time in page order, each after a granted slot; a child that took the last slot is
    /// joined at once; a cancellation stops the spawning, and the deferred children are joined.
    pub fn step(&mut self, event: NodeEvent) -> (r: NodeAction)
        requires
            old(self).wf(),
        ensures
            final(self).wf(),
            final(self).at_root_spec() == old(self).at_root_spec(),
            r.releases() ==> !old(self).released_spec(),
            !r.releases() ==> final(self).released_spec() == old(self).released_spec(),
            r is Ignore ==> *final(self) == *old(self),
            !(r is SpawnInline || r is SpawnDeferred) ==> final(self).next_spec() == old(self).next_spec()
                && final(self).spawned_spec() == old(self).spawned_spec(),
            !(old(self).stage_spec() is Resolving) ==> final(self).children_spec() == old(self).children_spec(),
            match (old(self).stage_spec(), event) {
                (Stage::Resolving, NodeEvent::Resolved { children }) => r == NodeAction::RunFilter
                    && final(self).stage_spec() == Stage::Filtering && final(self).children_spec() == children,
                (Stage::Resolving, NodeEvent::Prompted) => final(self).stage_spec() == Stage::Done && r == if old(
                    self,
                ).at_root_spec() {
                    NodeAction::ReleaseAndStop
                } else {
                    NodeAction::ReportPrompt
                },
                (Stage::Resolving, NodeEvent::ResolveFailed) => r == NodeAction::ReportResolveFailure
                    && final(self).stage_spec() == Stage::Done,
                (Stage::Filtering, NodeEvent::Filtered { skip }) => if skip {
                    r == NodeAction::ReleaseAndStop && final(self).stage_spec() == Stage::Done
                } else {
                    r == NodeAction::RunVisitor && final(self).stage_spec() == Stage::Visiting
                },
                (Stage::Visiting, NodeEvent::Visited { descend }) => if descend && old(self).children_spec() > 0 {
                    r == NodeAction::ReleaseAndRequestSlot && final(self).stage_spec() == Stage::Spawning
                } else {
                    r == NodeAction::ReleaseAndStop && final(self).stage_spec() == Stage::Done
                },
                (Stage::Spawning, NodeEvent::Admission(Admit::Granted { last_slot })) => {
                    &&& r == if last_slot {
                        NodeAction::SpawnInline(old(self).next_spec() as usize)
                    } else {
                        NodeAction::SpawnDeferred(old(self).next_spec() as usize)
                    }
                    &&& final(self).next_spec() == old(self).next_spec() + 1
                    &&& final(self).spawned_spec() == old(self).spawned_spec().push(old(self).next_spec() as int)
                    &&& final(self).stage_spec() == if final(self).next_spec() == old(self).children_spec() {
                        Stage::Joining
                    } else {
                        Stage::Spawning
                    }
                },
                (Stage::Spawning, NodeEvent::Admission(Admit::Wait)) => r == NodeAction::WaitForSlot
                    && *final(self) == *old(self),
                (Stage::Spawning, NodeEvent::Admission(Admit::Abandon)) => r == NodeAction::JoinDeferred
                    && final(self).stage_spec() == Stage::Joining && final(self).abandoned_spec()
                    && final(self).spawned_spec() == old(self).spawned_spec(),
                (Stage::Joining, NodeEvent::Joined) => r == NodeAction::Finish && final(self).stage_spec()
                    == Stage::Done && final(self).spawned_spec() == old(self).spawned_spec()
                    && final(self).abandoned_spec() == old(self).abandoned_spec(),
                _ => r is Ignore,
            },
    {
        match (self.stage, event) {
            (Stage::Resolving, NodeEvent::Resolved { children }) => {
                self.stage = Stage::Filtering;
                self.children = children;
                NodeAction::RunFilter
            },
            (Stage::Resolving, NodeEvent::Prompted) => {
                self.stage = Stage::Done;
                self.released = true;
                if self.at_root {
                    NodeAction::ReleaseAndStop
                } else {
                    NodeAction::ReportPrompt
                }
            },
            (Stage::Resolving, NodeEvent::ResolveFailed) => {
                self.stage = Stage::Done;
                self.released = true;
                NodeAction::ReportResolveFailure
            },
            (Stage::Filtering, NodeEvent::Filtered { skip }) => {
                if skip {
                    self.stage = Stage::Done;
                    self.released = true;
                    NodeAction::ReleaseAndStop
                } else {
                    self.stage = Stage::Visiting;
                    NodeAction::RunVisitor
                }
            },
            (Stage::Visiting, NodeEvent::Visited { descend }) => {
                self.released = true;
                if descend && self.children > 0 {
                    self.stage = Stage::Spawning;
                    NodeAction::ReleaseAndRequestSlot
                } else {
                    self.stage = Stage::Done;
                    NodeAction::ReleaseAndStop
                }
            },
            (Stage::Spawning, NodeEvent::Admission(Admit::Granted { last_slot })) => {
                let index = self.next_child;
                self.next_child = self.next_child + 1;
                proof {
                    self.spawned@ = self.spawned@.push(index as int);
                    assert(self.spawned@ =~= first_indices(self.next_child as int));
                }
                if self.next_child == self.children {
                    self.stage = Stage::Joining;
                }
                if last_slot {
                    NodeAction::SpawnInline(index)
                } else {
                    NodeAction::SpawnDeferred(index)
                }
            },
            (Stage::Spawning, NodeEvent::Admission(Admit::Wait)) => NodeAction::WaitForSlot,
            (Stage::Spawning, NodeEvent::Admission(Admit::Abandon)) => {
                self.stage = Stage::Joining;
                self.abandoned = true;
                NodeAction::JoinDeferred
            },
            (Stage::Joining, NodeEvent::Joined) => {
                self.stage = Stage::Done;
                NodeAction::Finish
            },
            _ => NodeAction::Ignore,
        }
    }
}

/// Unless the crawl was cancelled, a node whose spawning ended spawned each of its children
/// exactly once, in page order.
pub proof fn lemma_children_spawned_once_in_order(run: NodeRun)
    requires
        run.wf(),
        run.stage_spec() is Joining || run.stage_spec() is Done,
        run.released_spec(),
        !run.abandoned_spec(),
        run.next_spec() == run.children_spec(),
    ensures
        run.spawned_spec() == first_indices(run.children_spec() as int),
        run.spawned_spec().no_duplicates(),
{
}

/// When a worker ended abnormally, its parent gives its slot back for it unless the worker
/// did so itself.
pub fn must_release_for_panicked_child(child_released: bool) -> (r: bool)
    ensures
        r == !child_released,
{
    !child_released
}

/// The context a visitor sees for one node: its page, the entry of the parent that led to
/// it, its descriptor and its parent's, and the reports it makes.
pub struct RecurseInfo<'a> {
    pub page: &'a Page,
    pub sub_content_from_parent: Option<&'a SubContent>,
    pub access: &'a PathAccessData,
    pub parent_access: Option<&'a PathAccessData>,
    pub errors: Vec<RecurseReport>,
}

impl<'a> RecurseInfo<'a> {
    /// A context with no report yet.
    pub fn new(
        page: &'a Page,
        sub_content_from_parent: Option<&'a SubContent>,
        access: &'a PathAccessData,
        parent_access: Option<&'a PathAccessData>,
    ) -> (r: Self)
        ensures
            r.errors@.len() == 0,
            r.page == page,
            r.access == access,
            r.parent_access == parent_access,
            r.sub_content_from_parent == sub_content_from_parent,
    {
        RecurseInfo { page, sub_content_from_parent, access, parent_access, errors: Vec::new() }
    }

    pub open spec fn page_spec(&self) -> &'a Page {
        self.page
    }

    /// The node's page.
    pub fn get_page(&self) -> (r: &'a Page)
        ensures
            r == self.page_spec(),
    {
        self.page
    }

    /// The entry of the parent's page that led to this node, if known.
    pub fn get_sub_content_from_parent(&self) -> (r: Option<&'a SubContent>)
        ensures
            r == self.sub_content_from_parent,
    {
        self.sub_content_from_parent
    }

    /// The node's descriptor.
    pub fn get_access(&self) -> (r: &'a PathAccessData)
        ensures
            r == self.access,
    {
        self.access
    }

    /// Records `report` as a report of the visitor on this node.
    pub fn add_report(&mut self, report: ReportBuilder)
        ensures
            final(self).errors@.len() == old(self).errors@.len() + 1,
            final(self).errors@.drop_last() == old(self).errors@,
            final(self).errors@.last() matches RecurseReport::CalledReport(child, parent, b) && child.same_as(
                old(self).access,
            ) && b == report && (parent is Some <==> old(self).parent_access is Some) && (parent matches Some(
                p,
            ) ==> p.same_as(old(self).parent_access.unwrap())),
            final(self).access == old(self).access,
            final(self).parent_access == old(self).parent_access,
            final(self).sub_content_from_parent == old(self).sub_content_from_parent,
            final(self).page_spec() == old(self).page_spec(),
    {
        let parent = match self.parent_access {
            Some(p) => Some(p.duplicate()),
            None => None,
        };
        self.errors.push(RecurseReport::CalledReport(self.access.duplicate(), parent, report));
    }

    /// Records an error report with this summary on this node.
    pub fn add_error_string(&mut self, error_message: String)
        ensures
            final(self).errors@.len() == old(self).errors@.len() + 1,
            final(self).errors@.drop_last() == old(self).errors@,
            final(self).errors@.last() matches RecurseReport::CalledReport(child, _, b) && child.same_as(
                old(self).access,
            ) && b.summary == error_message && b.kind == crate::report::ReportKind::Error && !b.is_internal_error,
            final(self).access == old(self).access,
            final(self).parent_access == old(self).parent_access,
            final(self).sub_content_from_parent == old(self).sub_content_from_parent,
            final(self).page_spec() == old(self).page_spec(),
    {
        self.add_report(ReportBuilder::new_error(error_message));
    }

    /// Takes the reports made so far, leaving none.
    pub fn drain_errors(&mut self) -> (r: Vec<RecurseReport>)
        ensures
            r@ == old(self).errors@,
            final(self).errors@.len() == 0,
            final(self).access == old(self).access,
            final(self).parent_access == old(self).parent_access,
            final(self).sub_content_from_parent == old(self).sub_content_from_parent,
            final(self).page_spec() == old(self).page_spec(),
    {
        let mut r: Vec<RecurseReport> = Vec::new();
        std::mem::swap(&mut r, &mut self.errors);
        r
    }
}

/// The index of the first entry of `page` whose path is `child_path`.
pub fn find_sub_content(page: &Page, child_path: &str) -> (r: Option<usize>)
    ensures
        r matches Some(i) ==> i < page.sub_content@.len() && page.sub_content@[i as int].url@ == child_path@
            && forall|j: int| 0 <= j < i ==> page.sub_content@[j].url@ != child_path@,
        r is None ==> forall|j: int| 0 <= j < page.sub_content@.len() ==> page.sub_content@[j].url@ != child_path@,
{
    let mut i: usize = 0;
    while i < page.sub_content.len()
        invariant
            i <= page.sub_content@.len(),
            forall|j: int| 0 <= j < i ==> page.sub_content@[j].url@ != child_path@,
        decreases page.sub_content@.len() - i,
    {
        if str_eq(page.sub_content[i].url.as_str(), child_path) {
            return Some(i);
        }
        i = i + 1;
    }
    None
}

/// The report made when a node other than the root asks for input.
pub fn prompt_report(child: &PathAccessData, parent: Option<&PathAccessData>) -> (r: RecurseReport)
    ensures
        r matches RecurseReport::CalledReport(c, p, b) && c.same_as(child) && (p is Some <==> parent is Some)
            && b.kind == crate::report::ReportKind::Error && b.is_internal_error,
{
    let p = match parent {
        Some(p) => Some(p.duplicate()),
        None => None,
    };
    let b = ReportBuilder::new_error("can't use a keyboard prompt in a recursive context".to_owned()).set_internal_error(
        true,
    );
    RecurseReport::CalledReport(child.duplicate(), p, b)
}

} // verus!
