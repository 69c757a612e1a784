use kodi_recurse::access::PathAccessData;
use kodi_recurse::data::{ListItem, Page, SubContent};
use kodi_recurse::report::{KodiError, RecurseReport, ReportBuilder};
use kodi_recurse::scheduler::{
    find_sub_content, must_release_for_panicked_child, prompt_report, Admit, Coordinator, NodeAction,
    NodeEvent, NodeRun, RecurseInfo, Stage,
};
use kodi_recurse::user_config::UserConfig;
use std::collections::HashMap;

enum Node {
    Folder(Vec<&'static str>),
    Fail,
    Prompt,
}

struct World {
    tree: HashMap<&'static str, Node>,
    report_on: Vec<&'static str>,
    panic_on: Vec<&'static str>,
    visits: Vec<String>,
    resolves: Vec<String>,
    max_active: usize,
}

fn access(path: &str) -> PathAccessData {
    PathAccessData::new(path.to_string(), None, UserConfig::new_empty())
}

impl World {
    fn new(tree: Vec<(&'static str, Node)>) -> Self {
        World {
            tree: tree.into_iter().collect(),
            report_on: Vec::new(),
            panic_on: Vec::new(),
            visits: Vec::new(),
            resolves: Vec::new(),
            max_active: 1,
        }
    }

    fn request_slot(&mut self, c: &mut Coordinator) -> Admit {
        let a = c.wait_to_spawn_child_then_increment_worker();
        self.max_active = self.max_active.max(c.active());
        a
    }

    /// Runs one worker to completion; returns false when it "panicked" before giving its
    /// slot back.
    fn run(&mut self, c: &mut Coordinator, path: &'static str, parent: Option<&'static str>) -> bool {
        let mut node = NodeRun::new(parent.is_none());
        self.resolves.push(path.to_string());
        let children: Vec<&'static str> = match self.tree.get(path) {
            Some(Node::Folder(ch)) => ch.clone(),
            _ => Vec::new(),
        };
        let event = match self.tree.get(path) {
            Some(Node::Folder(ch)) => NodeEvent::Resolved { children: ch.len() },
            Some(Node::Prompt) => NodeEvent::Prompted,
            _ => NodeEvent::ResolveFailed,
        };
        let mut action = node.step(event);
        let mut deferred: Vec<&'static str> = Vec::new();
        loop {
            match action {
                NodeAction::RunFilter => action = node.step(NodeEvent::Filtered { skip: false }),
                NodeAction::RunVisitor => {
                    self.visits.push(path.to_string());
                    if self.panic_on.contains(&path) {
                        return false;
                    }
                    if self.report_on.contains(&path) {
                        c.add_error(RecurseReport::CalledReport(
                            access(path),
                            parent.map(access),
                            ReportBuilder::new_error("bad node".to_string()),
                        ));
                    }
                    action = node.step(NodeEvent::Visited { descend: true });
                }
                NodeAction::ReleaseAndStop => {
                    c.decrement_worker();
                    break;
                }
                NodeAction::ReportResolveFailure => {
                    c.add_error(RecurseReport::KodiCallError(access(path), KodiError::CantCreateProcess(String::new())));
                    c.decrement_worker();
                    break;
                }
                NodeAction::ReportPrompt => {
                    c.add_error(prompt_report(&access(path), parent.map(access).as_ref()));
                    c.decrement_worker();
                    break;
                }
                NodeAction::ReleaseAndRequestSlot => {
                    c.decrement_worker();
                    let a = self.request_slot(c);
                    action = node.step(NodeEvent::Admission(a));
                }
                NodeAction::SpawnInline(i) | NodeAction::SpawnDeferred(i) => {
                    if let NodeAction::SpawnInline(_) = action {
                        self.join(c, children[i], path);
                    } else {
                        deferred.push(children[i]);
                    }
                    action = if node.stage() == Stage::Spawning {
                        let a = self.request_slot(c);
                        node.step(NodeEvent::Admission(a))
                    } else {
                        NodeAction::JoinDeferred
                    };
                }
                NodeAction::WaitForSlot => panic!("a sequential crawl never waits"),
                NodeAction::JoinDeferred => {
                    for child in deferred.drain(..) {
                        self.join(c, child, path);
                    }
                    action = node.step(NodeEvent::Joined);
                }
                NodeAction::Finish => break,
                NodeAction::Ignore => panic!("event out of place"),
            }
        }
        true
    }

    fn join(&mut self, c: &mut Coordinator, child: &'static str, parent: &'static str) {
        if !self.run(c, child, Some(parent)) {
            if must_release_for_panicked_child(false) {
                c.decrement_worker();
            }
            c.add_error(RecurseReport::ThreadPanicked(access(child), Some(access(parent))));
        }
    }

    fn crawl(&mut self, root: &'static str, jobs: usize, keep_going: bool) -> Vec<RecurseReport> {
        let mut c = Coordinator::new(jobs, keep_going);
        if !self.run(&mut c, root, None) {
            c.decrement_worker();
            c.add_error(RecurseReport::ThreadPanicked(access(root), None));
        }
        assert_eq!(c.active(), 0);
        c.into_reports()
    }
}

#[test]
fn singleton_success() {
    let mut w = World::new(vec![("plugin://x/?a", Node::Folder(vec![]))]);
    let reports = w.crawl("plugin://x/?a", 4, false);
    assert!(reports.is_empty());
    assert_eq!(w.visits, vec!["plugin://x/?a"]);
}

#[test]
fn two_level_fan_out() {
    let mut w = World::new(vec![
        ("root", Node::Folder(vec!["c1", "c2", "c3"])),
        ("c1", Node::Folder(vec![])),
        ("c2", Node::Folder(vec![])),
        ("c3", Node::Folder(vec![])),
    ]);
    let reports = w.crawl("root", 2, false);
    assert!(reports.is_empty());
    assert_eq!(w.visits.len(), 4);
    assert!(w.max_active <= 2);
    let mut seen = w.visits.clone();
    seen.sort();
    assert_eq!(seen, vec!["c1", "c2", "c3", "root"]);
}

#[test]
fn each_node_visited_once() {
    let mut w = World::new(vec![
        ("r", Node::Folder(vec!["a", "b"])),
        ("a", Node::Folder(vec!["a1", "a2", "a3"])),
        ("b", Node::Folder(vec!["b1"])),
        ("a1", Node::Folder(vec![])),
        ("a2", Node::Folder(vec![])),
        ("a3", Node::Folder(vec![])),
        ("b1", Node::Folder(vec![])),
    ]);
    let reports = w.crawl("r", 3, false);
    assert!(reports.is_empty());
    let mut seen = w.visits.clone();
    seen.sort();
    assert_eq!(seen, vec!["a", "a1", "a2", "a3", "b", "b1", "r"]);
    assert!(w.max_active <= 3);
}

#[test]
fn single_job_is_depth_first_in_page_order() {
    let mut w = World::new(vec![
        ("r", Node::Folder(vec!["a", "b"])),
        ("a", Node::Folder(vec!["a1", "a2"])),
        ("b", Node::Folder(vec!["b1"])),
        ("a1", Node::Folder(vec![])),
        ("a2", Node::Folder(vec![])),
        ("b1", Node::Folder(vec![])),
    ]);
    w.crawl("r", 1, false);
    assert_eq!(w.visits, vec!["r", "a", "a1", "a2", "b", "b1"]);
    assert_eq!(w.max_active, 1);
}

#[test]
fn resolver_failure_stops_the_crawl() {
    let mut w = World::new(vec![
        ("root", Node::Folder(vec!["c1", "c2", "c3"])),
        ("c1", Node::Folder(vec![])),
        ("c2", Node::Fail),
        ("c3", Node::Folder(vec![])),
    ]);
    let reports = w.crawl("root", 1, false);
    assert_eq!(reports.len(), 1);
    match &reports[0] {
        RecurseReport::KodiCallError(child, _) => assert_eq!(child.path, "c2"),
        _ => panic!("expected a resolver failure"),
    }
    assert!(!w.resolves.contains(&"c3".to_string()));
}

#[test]
fn resolver_failure_keep_going() {
    let mut w = World::new(vec![
        ("root", Node::Folder(vec!["c1", "c2", "c3"])),
        ("c1", Node::Folder(vec!["g1"])),
        ("g1", Node::Folder(vec![])),
        ("c2", Node::Fail),
        ("c3", Node::Folder(vec![])),
    ]);
    let reports = w.crawl("root", 2, true);
    assert_eq!(reports.len(), 1);
    assert!(w.visits.contains(&"g1".to_string()));
    assert!(w.visits.contains(&"c3".to_string()));
}

#[test]
fn keep_going_collects_every_visitor_report() {
    let tree = || {
        vec![
            ("r", Node::Folder(vec!["a", "b", "c"])),
            ("a", Node::Folder(vec!["a1"])),
            ("a1", Node::Folder(vec![])),
            ("b", Node::Folder(vec![])),
            ("c", Node::Folder(vec![])),
        ]
    };
    let mut w = World::new(tree());
    w.report_on = vec!["a", "a1", "c"];
    let reports = w.crawl("r", 2, true);
    assert_eq!(reports.len(), 3);
    let mut stop = World::new(tree());
    stop.report_on = vec!["a", "a1", "c"];
    let first = stop.crawl("r", 1, false);
    assert!(!first.is_empty());
    assert!(!stop.visits.contains(&"b".to_string()));
}

#[test]
fn worker_panic_is_reported_and_slot_recovered() {
    let mut w = World::new(vec![
        ("root", Node::Folder(vec!["c1", "c2"])),
        ("c1", Node::Folder(vec![])),
        ("c2", Node::Folder(vec!["g"])),
        ("g", Node::Folder(vec![])),
    ]);
    w.panic_on = vec!["c1"];
    let reports = w.crawl("root", 1, true);
    assert_eq!(reports.len(), 1);
    match &reports[0] {
        RecurseReport::ThreadPanicked(child, Some(parent)) => {
            assert_eq!(child.path, "c1");
            assert_eq!(parent.path, "root");
        }
        _ => panic!("expected a worker panic"),
    }
    assert!(w.visits.contains(&"g".to_string()));
    let mut stop = World::new(vec![
        ("root", Node::Folder(vec!["c1", "c2"])),
        ("c1", Node::Folder(vec![])),
        ("c2", Node::Folder(vec![])),
    ]);
    stop.panic_on = vec!["c1"];
    let r = stop.crawl("root", 1, false);
    assert_eq!(r.len(), 1);
    assert!(!stop.visits.contains(&"c2".to_string()));
}

#[test]
fn prompt_at_root_is_not_an_error() {
    let mut w = World::new(vec![("root", Node::Prompt)]);
    assert!(w.crawl("root", 2, false).is_empty());
    let mut v = World::new(vec![("root", Node::Folder(vec!["k", "x"])), ("k", Node::Prompt), ("x", Node::Folder(vec![]))]);
    let reports = v.crawl("root", 1, true);
    assert_eq!(reports.len(), 1);
    match &reports[0] {
        RecurseReport::CalledReport(child, _, b) => {
            assert_eq!(child.path, "k");
            assert!(b.is_internal_error);
        }
        _ => panic!("expected a report on the prompt"),
    }
}

#[test]
fn empty_folder_is_not_an_error() {
    let mut run = NodeRun::new(false);
    assert_eq!(run.step(NodeEvent::Resolved { children: 0 }), NodeAction::RunFilter);
    assert_eq!(run.step(NodeEvent::Filtered { skip: false }), NodeAction::RunVisitor);
    assert_eq!(run.step(NodeEvent::Visited { descend: true }), NodeAction::ReleaseAndStop);
    assert_eq!(run.stage(), Stage::Done);
    assert_eq!(run.step(NodeEvent::Joined), NodeAction::Ignore);
}

#[test]
fn skipped_node_spawns_nothing() {
    let mut run = NodeRun::new(true);
    run.step(NodeEvent::Resolved { children: 3 });
    assert_eq!(run.step(NodeEvent::Filtered { skip: true }), NodeAction::ReleaseAndStop);
    assert_eq!(run.stage(), Stage::Done);
}

#[test]
fn spawning_follows_admission() {
    let mut run = NodeRun::new(true);
    run.step(NodeEvent::Resolved { children: 2 });
    run.step(NodeEvent::Filtered { skip: false });
    assert_eq!(run.step(NodeEvent::Visited { descend: true }), NodeAction::ReleaseAndRequestSlot);
    assert_eq!(run.step(NodeEvent::Admission(Admit::Wait)), NodeAction::WaitForSlot);
    assert_eq!(run.step(NodeEvent::Admission(Admit::Granted { last_slot: false })), NodeAction::SpawnDeferred(0));
    assert_eq!(run.step(NodeEvent::Admission(Admit::Granted { last_slot: true })), NodeAction::SpawnInline(1));
    assert_eq!(run.stage(), Stage::Joining);
    assert_eq!(run.step(NodeEvent::Joined), NodeAction::Finish);
    let mut cancelled = NodeRun::new(true);
    cancelled.step(NodeEvent::Resolved { children: 2 });
    cancelled.step(NodeEvent::Filtered { skip: false });
    cancelled.step(NodeEvent::Visited { descend: true });
    assert_eq!(cancelled.step(NodeEvent::Admission(Admit::Abandon)), NodeAction::JoinDeferred);
    assert_eq!(cancelled.stage(), Stage::Joining);
}

#[test]
fn coordinator_admission_and_poison() {
    let mut c = Coordinator::new(0, false);
    assert_eq!(c.active(), 1);
    assert_eq!(c.wait_to_spawn_child_then_increment_worker(), Admit::Wait);
    c.decrement_worker();
    assert_eq!(c.wait_to_spawn_child_then_increment_worker(), Admit::Granted { last_slot: true });
    c.decrement_worker();
    assert!(!c.get_is_poisoned());
    c.add_error(RecurseReport::ThreadPanicked(access("x"), None));
    assert!(c.get_is_poisoned());
    assert_eq!(c.wait_to_spawn_child_then_increment_worker(), Admit::Abandon);
    let mut k = Coordinator::new(3, true);
    k.add_error(RecurseReport::ThreadPanicked(access("x"), None));
    assert!(!k.get_is_poisoned());
    assert_eq!(k.wait_to_spawn_child_then_increment_worker(), Admit::Granted { last_slot: false });
    assert_eq!(k.wait_to_spawn_child_then_increment_worker(), Admit::Granted { last_slot: true });
    assert_eq!(k.into_reports().len(), 1);
}

#[test]
fn visit_context_records_reports() {
    let page = Page { sub_content: Vec::new(), resolved_listitem: None };
    let me = access("me");
    let parent = access("dad");
    let mut info = RecurseInfo::new(&page, None, &me, Some(&parent));
    info.add_error_string("wrong".to_string());
    info.add_report(ReportBuilder::new_warning("odd".to_string()));
    assert_eq!(info.get_access().path, "me");
    assert!(info.get_page().sub_content.is_empty());
    assert!(info.get_sub_content_from_parent().is_none());
    let drained = info.drain_errors();
    assert_eq!(drained.len(), 2);
    assert!(info.errors.is_empty());
    match &drained[0] {
        RecurseReport::CalledReport(c, Some(p), b) => {
            assert_eq!(c.path, "me");
            assert_eq!(p.path, "dad");
            assert_eq!(b.summary, "wrong");
        }
        _ => panic!("expected a visitor report"),
    }
}

#[test]
fn sub_content_lookup_and_mixed_page() {
    let entry = |url: &str| SubContent { url: url.to_string(), is_folder: true, total_items: 0, listitem: ListItem::default() };
    let page = Page {
        sub_content: vec![entry("a"), entry("b"), entry("b")],
        resolved_listitem: Some(ListItem::default()),
    };
    assert_eq!(find_sub_content(&page, "b"), Some(1));
    assert_eq!(find_sub_content(&page, "z"), None);
    let mut run = NodeRun::new(false);
    assert_eq!(run.step(NodeEvent::Resolved { children: page.sub_content.len() }), NodeAction::RunFilter);
}
