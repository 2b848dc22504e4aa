//! The reconciliation daemon's state machine.
//!
//! The daemon's decisions are pure functions of its state and the
//! incoming event: watchers only produce events, and the runtime
//! around this library performs the filesystem work the returned
//! actions and drained queues call for.  Debounced events for one
//! package coalesce into a single queue entry, so each tick attempts
//! at most one relink per package.

use vstd::prelude::*;
use vstd::seq_lib::*;
use vstd::string::StrSliceExecFns;
use vstd::string::StringExecFns;
use crate::config::{AutoSyncConfig, ConflictResolution};
use crate::stow::{TargetState, TargetStateV, join_chars, join_path};
use crate::strutil::{
    all_digits, concat_str, contains_sub, copy_str, dec_chars, digits_value, ends_with,
    find_char, has_substring, parse_u32, starts_with, str_eq, substr, trim,
    trim_chars, two_digits, u64_to_string,
};
use crate::ignore::{file_name, file_name_of};

verus! {

broadcast use vstd::set::group_set_axioms;

/// The daemon's lifecycle errors.
#[derive(Debug)]
pub enum DaemonError {
    AlreadyRunning(u32),
    NotRunning,
    Io(String),
    Config(String),
    Watch(String),
}

impl DaemonError {
    /// A human-readable line for this error.
    pub fn message(&self) -> (r: String)
        ensures
            match self {
                DaemonError::AlreadyRunning(pid) => r@ == "Daemon already running (PID: "@
                    + dec_chars(*pid as int) + ")"@,
                DaemonError::NotRunning => r@ == "Daemon is not running"@,
                DaemonError::Io(s) => r@ == "IO error: "@ + s@,
                DaemonError::Config(s) => r@ == "Config error: "@ + s@,
                DaemonError::Watch(s) => r@ == "Watch error: "@ + s@,
            },
    {
        match self {
            DaemonError::AlreadyRunning(pid) => concat_str(
                concat_str(
                    String::from_str("Daemon already running (PID: "),
                    u64_to_string(*pid as u64).as_str(),
                ),
                ")",
            ),
            DaemonError::NotRunning => String::from_str("Daemon is not running"),
            DaemonError::Io(s) => concat_str(String::from_str("IO error: "), s.as_str()),
            DaemonError::Config(s) => concat_str(String::from_str("Config error: "), s.as_str()),
            DaemonError::Watch(s) => concat_str(String::from_str("Watch error: "), s.as_str()),
        }
    }
}

/// One event on the daemon's channel.
#[derive(Debug)]
pub enum DaemonEvent {
    DotfileChanged(String),
    NewPackage(String),
    GitChanged,
    SymlinkDeleted(String),
    Shutdown,
}

pub enum EventV {
    DotfileChanged(Seq<char>),
    NewPackage(Seq<char>),
    GitChanged,
    SymlinkDeleted(Seq<char>),
    Shutdown,
}

impl View for DaemonEvent {
    type V = EventV;

    open spec fn view(&self) -> EventV {
        match self {
            DaemonEvent::DotfileChanged(p) => EventV::DotfileChanged(p@),
            DaemonEvent::NewPackage(n) => EventV::NewPackage(n@),
            DaemonEvent::GitChanged => EventV::GitChanged,
            DaemonEvent::SymlinkDeleted(p) => EventV::SymlinkDeleted(p@),
            DaemonEvent::Shutdown => EventV::Shutdown,
        }
    }
}

/// What the runtime must do right away in response to an event.
#[derive(Debug)]
pub enum DaemonAction {
    Nothing,
    AutoLink(String),
}

pub enum ActionV {
    Nothing,
    AutoLink(Seq<char>),
}

impl View for DaemonAction {
    type V = ActionV;

    open spec fn view(&self) -> ActionV {
        match self {
            DaemonAction::Nothing => ActionV::Nothing,
            DaemonAction::AutoLink(n) => ActionV::AutoLink(n@),
        }
    }
}

/// The daemon's owned state: the packages it has seen, the pending
/// relink queue, the pending git pull, and the stop flag.
pub struct DaemonState {
    pub known_packages: Vec<String>,
    pub relink_queue: Vec<String>,
    pub git_pull_pending: bool,
    pub running: bool,
}

pub struct DaemonV {
    pub known: Seq<Seq<char>>,
    pub relink: Seq<Seq<char>>,
    pub pull_pending: bool,
    pub running: bool,
}

impl View for DaemonState {
    type V = DaemonV;

    open spec fn view(&self) -> DaemonV {
        DaemonV {
            known: self.known_packages@.map_values(|p: String| p@),
            relink: self.relink_queue@.map_values(|p: String| p@),
            pull_pending: self.git_pull_pending,
            running: self.running,
        }
    }
}

impl DaemonState {
    /// Both queues hold each package at most once.
    pub open spec fn wf(&self) -> bool {
        self@.known.no_duplicates() && self@.relink.no_duplicates()
    }
}

/// `s` with `x` queued, unless it is already there.
pub open spec fn seq_insert(s: Seq<Seq<char>>, x: Seq<char>) -> Seq<Seq<char>> {
    if s.contains(x) {
        s
    } else {
        s.push(x)
    }
}

/// `s` with every element of `xs` queued once.
pub open spec fn seq_insert_all(s: Seq<Seq<char>>, xs: Seq<Seq<char>>) -> Seq<Seq<char>>
    decreases xs.len(),
{
    if xs.len() == 0 {
        s
    } else {
        seq_insert_all(seq_insert(s, xs[0]), xs.drop_first())
    }
}

/// The package that owns a changed path: the first segment of the path
/// below the stow root, unless it is hidden.
pub open spec fn package_from_path_spec(path: Seq<char>, root: Seq<char>) -> Option<Seq<char>> {
    if !root.is_prefix_of(path) {
        None
    } else {
        let rel = path.skip(root.len() as int);
        if rel.len() > 0 && rel[0] != '/' && !(root.len() > 0 && root.last() == '/') {
            None
        } else {
            let rel2 = if rel.len() > 0 && rel[0] == '/' {
                rel.drop_first()
            } else {
                rel
            };
            let seg = if rel2.contains('/') {
                rel2.take(crate::strutil::first_index_of(rel2, '/'))
            } else {
                rel2
            };
            if seg.len() == 0 || seg[0] == '.' {
                None
            } else {
                Some(seg)
            }
        }
    }
}

/// Resolve which package a changed path belongs to.
pub fn get_package_from_path(path: &str, root: &str) -> (r: Option<String>)
    ensures
        match r {
            Some(name) => package_from_path_spec(path@, root@) == Some(name@),
            None => package_from_path_spec(path@, root@) is None,
        },
{
    if !starts_with(path, root) {
        return None;
    }
    let n = path.unicode_len();
    let rl = root.unicode_len();
    let ghost rel = path@.skip(root@.len() as int);
    let root_slashed = rl > 0 && root.get_char(rl - 1) == '/';
    if rl < n && path.get_char(rl) != '/' && !root_slashed {
        return None;
    }
    let start: usize = if rl < n && path.get_char(rl) == '/' {
        rl + 1
    } else {
        rl
    };
    let ghost rel2 = if rel.len() > 0 && rel[0] == '/' {
        rel.drop_first()
    } else {
        rel
    };
    proof {
        assert(rel2 =~= path@.skip(start as int));
    }
    let seg_end: usize = match find_char(path, '/', start) {
        Some(i) => i,
        None => n,
    };
    let ghost seg = if rel2.contains('/') {
        rel2.take(crate::strutil::first_index_of(rel2, '/'))
    } else {
        rel2
    };
    proof {
        if seg_end < n {
            assert(rel2[seg_end - start] == '/');
            assert(rel2.contains('/'));
            crate::strutil::lemma_first_index_of(rel2, '/', seg_end - start);
            assert(seg =~= path@.subrange(start as int, seg_end as int));
        } else {
            if rel2.contains('/') {
                let w = choose|w: int| 0 <= w < rel2.len() && rel2[w] == '/';
                assert(path@[start + w] == '/');
            }
            assert(seg =~= path@.subrange(start as int, seg_end as int));
        }
    }
    if seg_end == start {
        return None;
    }
    if path.get_char(start) == '.' {
        return None;
    }
    Some(substr(path, start, seg_end))
}

/// One step of the daemon's event handling: the state after the event,
/// and the immediate action it calls for.
pub open spec fn step_event(
    v: DaemonV,
    ev: EventV,
    auto_link_new: bool,
    auto_git_pull: bool,
    root: Seq<char>,
) -> (DaemonV, ActionV) {
    match ev {
        EventV::DotfileChanged(path) => match package_from_path_spec(path, root) {
            Some(pkg) => (DaemonV { relink: seq_insert(v.relink, pkg), ..v }, ActionV::Nothing),
            None => (v, ActionV::Nothing),
        },
        EventV::NewPackage(name) => if !v.known.contains(name) {
            (
                DaemonV { known: v.known.push(name), ..v },
                if auto_link_new {
                    ActionV::AutoLink(name)
                } else {
                    ActionV::Nothing
                },
            )
        } else {
            (DaemonV { relink: seq_insert(v.relink, name), ..v }, ActionV::Nothing)
        },
        EventV::GitChanged => (
            DaemonV { pull_pending: v.pull_pending || auto_git_pull, ..v },
            ActionV::Nothing,
        ),
        EventV::SymlinkDeleted(_) => (
            DaemonV { relink: seq_insert_all(v.relink, v.known), ..v },
            ActionV::Nothing,
        ),
        EventV::Shutdown => (DaemonV { running: false, ..v }, ActionV::Nothing),
    }
}

fn vec_contains_str(v: &Vec<String>, x: &str) -> (r: bool)
    ensures
        r == v@.map_values(|p: String| p@).contains(x@),
{
    let ghost s = v@.map_values(|p: String| p@);
    let mut i: usize = 0;
    while i < v.len()
        invariant
            i <= v.len(),
            s == v@.map_values(|p: String| p@),
            forall|j: int| 0 <= j < i ==> s[j] != x@,
        decreases v.len() - i,
    {
        if str_eq(v[i].as_str(), x) {
            assert(s[i as int] == x@);
            return true;
        }
        i += 1;
    }
    proof {
        if s.contains(x@) {
            let w = choose|w: int| 0 <= w < s.len() && s[w] == x@;
        }
    }
    false
}

fn queue_insert(q: &mut Vec<String>, x: String)
    ensures
        final(q)@.map_values(|p: String| p@) == seq_insert(
            old(q)@.map_values(|p: String| p@),
            x@,
        ),
        old(q)@.map_values(|p: String| p@).no_duplicates() ==> final(q)@.map_values(
            |p: String| p@,
        ).no_duplicates(),
{
    let ghost before = q@.map_values(|p: String| p@);
    if !vec_contains_str(q, x.as_str()) {
        q.push(x);
        proof {
            assert(q@.map_values(|p: String| p@) =~= before.push(x@));
        }
    }
}

fn queue_insert_all(q: &mut Vec<String>, xs: &Vec<String>)
    ensures
        final(q)@.map_values(|p: String| p@) == seq_insert_all(
            old(q)@.map_values(|p: String| p@),
            xs@.map_values(|p: String| p@),
        ),
        old(q)@.map_values(|p: String| p@).no_duplicates() ==> final(q)@.map_values(
            |p: String| p@,
        ).no_duplicates(),
{
    let ghost sxs = xs@.map_values(|p: String| p@);
    let mut i: usize = 0;
    proof {
        assert(sxs.skip(0) =~= sxs);
    }
    while i < xs.len()
        invariant
            i <= xs.len(),
            sxs == xs@.map_values(|p: String| p@),
            seq_insert_all(old(q)@.map_values(|p: String| p@), sxs) == seq_insert_all(
                q@.map_values(|p: String| p@),
                sxs.skip(i as int),
            ),
            old(q)@.map_values(|p: String| p@).no_duplicates() ==> q@.map_values(
                |p: String| p@,
            ).no_duplicates(),
        decreases xs.len() - i,
    {
        proof {
            assert(sxs.skip(i as int)[0] == sxs[i as int]);
            assert(sxs.skip(i as int).drop_first() =~= sxs.skip(i + 1));
        }
        queue_insert(q, copy_str(xs[i].as_str()));
        i += 1;
    }
    proof {
        assert(sxs.skip(xs@.len() as int) =~= Seq::<Seq<char>>::empty());
    }
}

impl DaemonState {
    /// Fresh daemon state, seeded with the packages of an initial
    /// scan: every distinct name becomes known, nothing is queued, and
    /// the daemon is running.
    pub fn new(initial_packages: Vec<String>) -> (s: DaemonState)
        ensures
            s.wf(),
            s@.known.to_set() == initial_packages@.map_values(|p: String| p@).to_set(),
            s@.relink.len() == 0,
            !s@.pull_pending,
            s@.running,
    {
        let ghost sinit = initial_packages@.map_values(|p: String| p@);
        let mut known: Vec<String> = Vec::new();
        let mut i: usize = 0;
        proof {
            assert(known@.map_values(|p: String| p@).to_set() =~= sinit.take(0).to_set());
        }
        while i < initial_packages.len()
            invariant
                i <= initial_packages.len(),
                sinit == initial_packages@.map_values(|p: String| p@),
                known@.map_values(|p: String| p@).no_duplicates(),
                known@.map_values(|p: String| p@).to_set() == sinit.take(i as int).to_set(),
            decreases initial_packages.len() - i,
        {
            let ghost before = known@.map_values(|p: String| p@);
            queue_insert(&mut known, copy_str(initial_packages[i].as_str()));
            proof {
                assert(sinit.take(i + 1).drop_last() =~= sinit.take(i as int));
                assert(sinit.take(i + 1).last() == sinit[i as int]);
                assert(sinit.take(i + 1) =~= sinit.take(i as int).push(sinit[i as int]));
                assert(sinit.take(i as int).push(sinit[i as int]).to_set() =~= sinit.take(
                    i as int,
                ).to_set().insert(sinit[i as int]));
                if before.contains(sinit[i as int]) {
                    assert(before.to_set().contains(sinit[i as int]));
                    assert(known@.map_values(|p: String| p@) == before);
                    assert(known@.map_values(|p: String| p@).to_set() =~= before.to_set().insert(
                        sinit[i as int],
                    ));
                } else {
                    assert(known@.map_values(|p: String| p@) == before.push(sinit[i as int]));
                    assert(before.push(sinit[i as int]).drop_last() =~= before);
                    assert(before.push(sinit[i as int]).to_set() =~= before.to_set().insert(
                        sinit[i as int],
                    )) by {
                        let kp = before.push(sinit[i as int]);
                        assert forall|a: Seq<char>| kp.to_set().contains(a)
                            == before.to_set().insert(sinit[i as int]).contains(a) by {
                            if kp.contains(a) {
                                let j = choose|j: int| 0 <= j < kp.len() && kp[j] == a;
                                if j < before.len() {
                                    assert(before[j] == a);
                                }
                            }
                            if before.contains(a) {
                                let j = choose|j: int|
                                    0 <= j < before.len() && before[j] == a;
                                assert(kp[j] == a);
                            }
                            if a == sinit[i as int] {
                                assert(kp[before.len() as int] == a);
                            }
                        }
                    }
                }
            }
            i += 1;
        }
        proof {
            assert(sinit.take(sinit.len() as int) =~= sinit);
        }
        DaemonState { known_packages: known, relink_queue: Vec::new(), git_pull_pending: false, running: true }
    }

    /// Handle one event: update the state as `step_event` says and
    /// return the action the runtime must take.  Repeated events for
    /// one package coalesce in the relink queue.
    pub fn handle_event(
        &mut self,
        event: DaemonEvent,
        cfg: &AutoSyncConfig,
        stow_dir: &str,
    ) -> (act: DaemonAction)
        ensures
            (final(self)@, act@) == step_event(
                old(self)@,
                event@,
                cfg.auto_link_new_packages,
                cfg.auto_git_pull,
                stow_dir@,
            ),
            old(self).wf() ==> final(self).wf(),
    {
        match event {
            DaemonEvent::DotfileChanged(path) => {
                match get_package_from_path(path.as_str(), stow_dir) {
                    Some(pkg) => {
                        queue_insert(&mut self.relink_queue, pkg);
                    }
                    None => {}
                }
                DaemonAction::Nothing
            }
            DaemonEvent::NewPackage(name) => {
                if !vec_contains_str(&self.known_packages, name.as_str()) {
                    let ghost before = self.known_packages@.map_values(|p: String| p@);
                    let auto = cfg.auto_link_new_packages;
                    let act = if auto {
                        DaemonAction::AutoLink(copy_str(name.as_str()))
                    } else {
                        DaemonAction::Nothing
                    };
                    self.known_packages.push(name);
                    proof {
                        assert(self.known_packages@.map_values(|p: String| p@) =~= before.push(
                            self.known_packages@.last()@,
                        ));
                    }
                    act
                } else {
                    queue_insert(&mut self.relink_queue, name);
                    DaemonAction::Nothing
                }
            }
            DaemonEvent::GitChanged => {
                if cfg.auto_git_pull && !self.git_pull_pending {
                    self.git_pull_pending = true;
                }
                DaemonAction::Nothing
            }
            DaemonEvent::SymlinkDeleted(_) => {
                let known = clone_string_vec(&self.known_packages);
                queue_insert_all(&mut self.relink_queue, &known);
                DaemonAction::Nothing
            }
            DaemonEvent::Shutdown => {
                self.running = false;
                DaemonAction::Nothing
            }
        }
    }

    /// Take the pending relink work for this tick: the queue is
    /// emptied and handed out, each package exactly once.
    pub fn drain_relink_queue(&mut self) -> (pkgs: Vec<String>)
        ensures
            pkgs@ == old(self).relink_queue@,
            final(self)@.relink.len() == 0,
            final(self)@.known == old(self)@.known,
            final(self)@.pull_pending == old(self)@.pull_pending,
            final(self)@.running == old(self)@.running,
            old(self).wf() ==> pkgs@.map_values(|p: String| p@).no_duplicates(),
            old(self).wf() ==> final(self).wf(),
    {
        let mut out: Vec<String> = Vec::new();
        core::mem::swap(&mut out, &mut self.relink_queue);
        proof {
            assert(self.relink_queue@.map_values(|p: String| p@) =~= Seq::<Seq<char>>::empty());
        }
        out
    }

    /// Take the pending git-pull flag for this tick: repeated
    /// `GitChanged` signals before a tick coalesce into this one pull.
    pub fn take_git_pull(&mut self) -> (pull: bool)
        ensures
            pull == old(self)@.pull_pending,
            !final(self)@.pull_pending,
            final(self)@.known == old(self)@.known,
            final(self)@.relink == old(self)@.relink,
            final(self)@.running == old(self)@.running,
            old(self).wf() ==> final(self).wf(),
    {
        let p = self.git_pull_pending;
        self.git_pull_pending = false;
        p
    }

    /// Queue every known package for relink, as a pull that brought
    /// new content calls for.
    pub fn queue_all_known(&mut self)
        ensures
            final(self)@.relink == seq_insert_all(old(self)@.relink, old(self)@.known),
            final(self)@.known == old(self)@.known,
            final(self)@.pull_pending == old(self)@.pull_pending,
            final(self)@.running == old(self)@.running,
            old(self).wf() ==> final(self).wf(),
    {
        let known = clone_string_vec(&self.known_packages);
        queue_insert_all(&mut self.relink_queue, &known);
    }
}

fn clone_string_vec(v: &Vec<String>) -> (r: Vec<String>)
    ensures
        r@.map_values(|p: String| p@) == v@.map_values(|p: String| p@),
{
    let mut r: Vec<String> = Vec::new();
    let mut i: usize = 0;
    while i < v.len()
        invariant
            i <= v.len(),
            r@.map_values(|p: String| p@) == v@.map_values(|p: String| p@).take(i as int),
        decreases v.len() - i,
    {
        let ghost before = r@.map_values(|p: String| p@);
        r.push(copy_str(v[i].as_str()));
        proof {
            assert(r@.map_values(|p: String| p@) =~= before.push(v@.map_values(|p: String| p@)[
                i as int
            ]));
            assert(r@.map_values(|p: String| p@) =~= v@.map_values(|p: String| p@).take(i + 1));
        }
        i += 1;
    }
    proof {
        assert(v@.map_values(|p: String| p@).take(v@.len() as int) =~= v@.map_values(
            |p: String| p@,
        ));
    }
    r
}

// ---- laws of event handling ---------------------------------------------

proof fn lemma_seq_insert_idempotent(s: Seq<Seq<char>>, x: Seq<char>)
    ensures
        seq_insert(seq_insert(s, x), x) == seq_insert(s, x),
{
    if !s.contains(x) {
        assert(s.push(x)[s.len() as int] == x);
        assert(s.push(x).contains(x));
    }
}

/// Debounce coalescing: however many change events for the same path
/// arrive within one window, the state after the first is the state
/// after them all, so the next tick attempts exactly one relink for
/// that package.
pub proof fn lemma_change_events_coalesce(
    v: DaemonV,
    path: Seq<char>,
    auto_link_new: bool,
    auto_git_pull: bool,
    root: Seq<char>,
)
    ensures
        step_event(
            step_event(v, EventV::DotfileChanged(path), auto_link_new, auto_git_pull, root).0,
            EventV::DotfileChanged(path),
            auto_link_new,
            auto_git_pull,
            root,
        ).0 == step_event(v, EventV::DotfileChanged(path), auto_link_new, auto_git_pull, root).0,
{
    match package_from_path_spec(path, root) {
        Some(pkg) => {
            lemma_seq_insert_idempotent(v.relink, pkg);
        }
        None => {}
    }
}

/// The state after the same event has arrived `n` times in a row.
pub open spec fn step_events(
    v: DaemonV,
    ev: EventV,
    n: nat,
    auto_link_new: bool,
    auto_git_pull: bool,
    root: Seq<char>,
) -> DaemonV
    decreases n,
{
    if n == 0 {
        v
    } else {
        step_events(
            step_event(v, ev, auto_link_new, auto_git_pull, root).0,
            ev,
            (n - 1) as nat,
            auto_link_new,
            auto_git_pull,
            root,
        )
    }
}

/// A whole burst of change events for one path, however long, leaves
/// the daemon in the state the first event alone produced: the next
/// tick makes exactly one relink attempt for that package.
pub proof fn lemma_change_burst_coalesces(
    v: DaemonV,
    path: Seq<char>,
    n: nat,
    auto_link_new: bool,
    auto_git_pull: bool,
    root: Seq<char>,
)
    requires
        n >= 1,
    ensures
        step_events(v, EventV::DotfileChanged(path), n, auto_link_new, auto_git_pull, root)
            == step_event(v, EventV::DotfileChanged(path), auto_link_new, auto_git_pull, root).0,
    decreases n,
{
    let ev = EventV::DotfileChanged(path);
    let v1 = step_event(v, ev, auto_link_new, auto_git_pull, root).0;
    if n == 1 {
        assert(step_events(v1, ev, 0, auto_link_new, auto_git_pull, root) == v1);
    } else {
        lemma_change_burst_coalesces(v1, path, (n - 1) as nat, auto_link_new, auto_git_pull, root);
        lemma_change_events_coalesce(v, path, auto_link_new, auto_git_pull, root);
        assert(step_event(v1, ev, auto_link_new, auto_git_pull, root).0 == v1);
    }
}

/// Repeated git-change signals before the next tick coalesce into one
/// pending pull.
pub proof fn lemma_git_signals_coalesce(
    v: DaemonV,
    auto_link_new: bool,
    auto_git_pull: bool,
    root: Seq<char>,
)
    ensures
        step_event(
            step_event(v, EventV::GitChanged, auto_link_new, auto_git_pull, root).0,
            EventV::GitChanged,
            auto_link_new,
            auto_git_pull,
            root,
        ).0 == step_event(v, EventV::GitChanged, auto_link_new, auto_git_pull, root).0,
{
}

// ---- watcher-path classification ----------------------------------------

/// Raw notification paths that the watcher discards: editor droppings,
/// temporaries, and git bookkeeping.
pub open spec fn watch_ignored_spec(path: Seq<char>) -> bool {
    ||| has_substring(path, ".git/"@)
    ||| has_substring(path, ".DS_Store"@)
    ||| has_substring(path, ".swp"@)
    ||| has_substring(path, ".swo"@)
    ||| has_substring(path, "~"@)
    ||| has_substring(path, ".tmp"@)
    ||| has_substring(path, ".temp"@)
    ||| has_substring(path, "4913"@)
    ||| has_substring(path, ".gitignore"@)
    ||| ("."@.is_prefix_of(file_name_of(path)) && ".swp"@.is_suffix_of(file_name_of(path)))
    ||| ("#"@.is_prefix_of(file_name_of(path)) && "#"@.is_suffix_of(file_name_of(path)))
}

/// Whether a raw notification path is noise that the watcher drops.
pub fn should_ignore_path(path: &str) -> (r: bool)
    ensures
        r == watch_ignored_spec(path@),
{
    if contains_sub(path, ".git/") || contains_sub(path, ".DS_Store") || contains_sub(
        path,
        ".swp",
    ) || contains_sub(path, ".swo") || contains_sub(path, "~") || contains_sub(path, ".tmp")
        || contains_sub(path, ".temp") || contains_sub(path, "4913") || contains_sub(
        path,
        ".gitignore",
    ) {
        return true;
    }
    let name = file_name(path);
    if starts_with(name.as_str(), ".") && ends_with(name.as_str(), ".swp") {
        return true;
    }
    if starts_with(name.as_str(), "#") && ends_with(name.as_str(), "#") {
        return true;
    }
    false
}

/// Whether a changed path lies inside the stow root's `.git`
/// directory.
pub open spec fn git_dir_change_spec(path: Seq<char>, root: Seq<char>) -> bool {
    let g = join_chars(root, ".git"@);
    g.is_prefix_of(path) && (path.len() == g.len() || path[g.len() as int] == '/')
}

/// Whether a changed path is git bookkeeping under the stow root.
pub fn is_git_dir_change(path: &str, root: &str) -> (r: bool)
    ensures
        r == git_dir_change_spec(path@, root@),
{
    let g = join_path(root, ".git");
    let gl = g.as_str().unicode_len();
    let n = path.unicode_len();
    if !starts_with(path, g.as_str()) {
        return false;
    }
    if n == gl {
        return true;
    }
    path.get_char(gl) == '/'
}

// ---- the singleton / PID marker -----------------------------------------

/// What the PID marker's contents denote: the recorded process id, if
/// the trimmed contents are a valid decimal number.
pub open spec fn pid_of_contents(s: Seq<char>) -> Option<u32> {
    let t = trim_chars(s);
    if t.len() > 0 && all_digits(t) && digits_value(t) <= u32::MAX {
        Some(digits_value(t) as u32)
    } else {
        None
    }
}

/// Read a PID marker's contents, as `str::parse::<u32>` of the trimmed
/// text does.
pub fn parse_pid_file(contents: &str) -> (r: Option<u32>)
    ensures
        r == pid_of_contents(contents@),
{
    let t = trim(contents);
    parse_u32(t.as_str())
}

/// The daemon recorded in the PID marker, given whether that process
/// is alive: a dead process's marker is stale and names no daemon.
pub open spec fn live_daemon_spec(pid: Option<u32>, alive: bool) -> Option<u32> {
    match pid {
        Some(p) => if alive {
            Some(p)
        } else {
            None
        },
        None => None,
    }
}

/// The PID of the live daemon, if the marker names a live process.
pub fn live_daemon_pid(pid: Option<u32>, alive: bool) -> (r: Option<u32>)
    ensures
        r == live_daemon_spec(pid, alive),
{
    match pid {
        Some(p) => if alive {
            Some(p)
        } else {
            None
        },
        None => None,
    }
}

/// Whether a daemon is running: the marker names a live process.
pub fn is_daemon_running(pid: Option<u32>, alive: bool) -> (r: bool)
    ensures
        r == (live_daemon_spec(pid, alive) is Some),
{
    match live_daemon_pid(pid, alive) {
        Some(_) => true,
        None => false,
    }
}

/// Whether a daemon may start, given the marker's pid and that
/// process's liveness.
pub open spec fn start_decision_spec(pid: Option<u32>, alive: bool) -> Result<(), u32> {
    match live_daemon_spec(pid, alive) {
        Some(p) => Err(p),
        None => Ok(()),
    }
}

/// Decide whether a new daemon may start.  A marker naming a live
/// process refuses the start with `AlreadyRunning`; a missing,
/// unreadable, or stale marker lets it proceed.
pub fn daemon_start_decision(pid: Option<u32>, alive: bool) -> (r: Result<(), DaemonError>)
    ensures
        match r {
            Ok(_) => start_decision_spec(pid, alive) is Ok,
            Err(e) => (e matches DaemonError::AlreadyRunning(p) && start_decision_spec(pid, alive)
                == Err::<(), u32>(p)),
        },
{
    match live_daemon_pid(pid, alive) {
        Some(p) => Err(DaemonError::AlreadyRunning(p)),
        None => Ok(()),
    }
}

/// Singleton enforcement: a marker naming a live process blocks a
/// second daemon with exactly that PID, and a marker whose process is
/// dead is stale and blocks nothing.
pub proof fn lemma_singleton_enforcement(p: u32)
    ensures
        start_decision_spec(Some(p), true) == Err::<(), u32>(p),
        start_decision_spec(Some(p), false) is Ok,
        start_decision_spec(None::<u32>, false) is Ok,
{
}

// ---- the conflict resolver ----------------------------------------------

/// The filesystem side effect a conflict resolution calls for before
/// the executor proceeds.
#[derive(Debug)]
pub enum ConflictEffect {
    NoEffect,
    BackupThenRemove,
    RemoveFile,
    RemoveDirAll,
}

/// What the resolver decides for one conflicting target.
pub struct ConflictDecision {
    pub proceed: bool,
    pub effect: ConflictEffect,
}

/// The decision for each policy and target state: `Backup` copies a
/// real file aside and proceeds, `Skip` leaves everything untouched,
/// `Overwrite` removes whatever stands there and proceeds.
pub open spec fn resolve_spec(policy: ConflictResolution, st: TargetStateV) -> ConflictDecision {
    match policy {
        ConflictResolution::Backup => match st {
            TargetStateV::PresentFile | TargetStateV::PresentDir => ConflictDecision {
                proceed: true,
                effect: ConflictEffect::BackupThenRemove,
            },
            _ => ConflictDecision { proceed: true, effect: ConflictEffect::NoEffect },
        },
        ConflictResolution::Skip => ConflictDecision {
            proceed: false,
            effect: ConflictEffect::NoEffect,
        },
        ConflictResolution::Overwrite => match st {
            TargetStateV::Absent => ConflictDecision {
                proceed: true,
                effect: ConflictEffect::NoEffect,
            },
            TargetStateV::PresentDir => ConflictDecision {
                proceed: true,
                effect: ConflictEffect::RemoveDirAll,
            },
            _ => ConflictDecision { proceed: true, effect: ConflictEffect::RemoveFile },
        },
    }
}

/// Resolve a conflicting target under the configured policy.  `Skip`
/// never proceeds and nothing but `Skip` refuses; only `Overwrite` on
/// a real directory removes recursively.
pub fn resolve_conflict(policy: ConflictResolution, state: &TargetState) -> (d: ConflictDecision)
    ensures
        d == resolve_spec(policy, state@),
        policy == ConflictResolution::Skip <==> !d.proceed,
{
    match policy {
        ConflictResolution::Backup => match state {
            TargetState::PresentFile | TargetState::PresentDir => ConflictDecision {
                proceed: true,
                effect: ConflictEffect::BackupThenRemove,
            },
            _ => ConflictDecision { proceed: true, effect: ConflictEffect::NoEffect },
        },
        ConflictResolution::Skip => ConflictDecision {
            proceed: false,
            effect: ConflictEffect::NoEffect,
        },
        ConflictResolution::Overwrite => match state {
            TargetState::Absent => ConflictDecision {
                proceed: true,
                effect: ConflictEffect::NoEffect,
            },
            TargetState::PresentDir => ConflictDecision {
                proceed: true,
                effect: ConflictEffect::RemoveDirAll,
            },
            _ => ConflictDecision { proceed: true, effect: ConflictEffect::RemoveFile },
        },
    }
}

/// Where a conflicting file is copied before it is replaced.
pub fn backup_path_for(target: &str) -> (r: String)
    ensures
        r@ == target@ + ".backup"@,
{
    concat_str(copy_str(target), ".backup")
}

// ---- interpreting a git pull --------------------------------------------

/// What one fast-forward pull accomplished.
#[derive(Debug)]
pub enum PullOutcome {
    Changed,
    UpToDate,
    Failed(String),
}

pub enum PullOutcomeV {
    Changed,
    UpToDate,
    Failed(Seq<char>),
}

impl View for PullOutcome {
    type V = PullOutcomeV;

    open spec fn view(&self) -> PullOutcomeV {
        match self {
            PullOutcome::Changed => PullOutcomeV::Changed,
            PullOutcome::UpToDate => PullOutcomeV::UpToDate,
            PullOutcome::Failed(s) => PullOutcomeV::Failed(s@),
        }
    }
}

/// How a pull's exit status and streams are read.
pub open spec fn pull_outcome_spec(
    success: bool,
    stdout: Seq<char>,
    stderr: Seq<char>,
) -> PullOutcomeV {
    if !success {
        if has_substring(stderr, "Already up to date"@) {
            PullOutcomeV::UpToDate
        } else {
            PullOutcomeV::Failed(stderr)
        }
    } else if has_substring(stdout, "Already up to date"@) {
        PullOutcomeV::UpToDate
    } else {
        PullOutcomeV::Changed
    }
}

/// Interpret what a fast-forward-only pull reported: whether it
/// brought new content, found nothing new, or failed.
pub fn interpret_pull_output(success: bool, stdout: &str, stderr: &str) -> (r: PullOutcome)
    ensures
        r@ == pull_outcome_spec(success, stdout@, stderr@),
{
    if !success {
        if contains_sub(stderr, "Already up to date") {
            PullOutcome::UpToDate
        } else {
            PullOutcome::Failed(copy_str(stderr))
        }
    } else if contains_sub(stdout, "Already up to date") {
        PullOutcome::UpToDate
    } else {
        PullOutcome::Changed
    }
}

// ---- timestamps and log lines -------------------------------------------

/// The `hh:mm:ss` characters of a moment given in seconds since the
/// epoch.
pub open spec fn clock_chars(secs: int) -> Seq<char> {
    let h = (secs / 3600) % 24;
    let m = (secs / 60) % 60;
    let s = secs % 60;
    seq![
        crate::strutil::digit_char(h / 10),
        crate::strutil::digit_char(h % 10),
    ] + ":"@ + seq![
        crate::strutil::digit_char(m / 10),
        crate::strutil::digit_char(m % 10),
    ] + ":"@ + seq![crate::strutil::digit_char(s / 10), crate::strutil::digit_char(s % 10)]
}

/// The wall-clock `hh:mm:ss` stamp of a moment given in seconds since
/// the epoch.
pub fn chrono_lite_now(secs: u64) -> (r: String)
    ensures
        r@ == clock_chars(secs as int),
{
    let h = (secs / 3600) % 24;
    let m = (secs / 60) % 60;
    let s = secs % 60;
    concat_str(
        concat_str(
            concat_str(concat_str(two_digits(h), ":"), two_digits(m).as_str()),
            ":",
        ),
        two_digits(s).as_str(),
    )
}

/// One line of the daemon log: the stamped message.
pub fn format_log_line(timestamp: &str, msg: &str) -> (r: String)
    ensures
        r@ == "["@ + timestamp@ + "] "@ + msg@ + "\n"@,
{
    concat_str(
        concat_str(concat_str(concat_str(String::from_str("["), timestamp), "] "), msg),
        "\n",
    )
}

} // verus!
