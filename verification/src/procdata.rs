//! The orchestrator: a sequential, no-branching-back pipeline that seeds the
//! keep set from scanner results, applies the ordered filter chain and the
//! explicit overrides, closes over symlinks, obtains the removal set from
//! the dissector and ends in a report (dry run) or a destructive apply.
//!
//! All filesystem work — root confinement, the lock check, scanning,
//! external filters, dissection, deletion — is performed by a driver. The
//! engine decides: each call to [`TintRun::step`] consumes the outcome of
//! the previous action and says what to do next.

use vstd::prelude::*;
use crate::links::{LinkMap, link_closure, ext_path};
use crate::pathset::PathSet;
use crate::pathstr::{str_eq, views_of, sorted_lex, sort_paths};
use crate::profile::Profile;
use crate::resources::{ResourcesDataFilter, resource_keep};

verus! {

/// Autodependency mode: how aggressively the package scanner expands
/// dependencies. The engine only threads this value through.
#[derive(Clone, Copy, PartialEq, Eq, Structural, Debug)]
pub enum Autodeps {
    Undef,
    Free,
    Clean,
    Tight,
}

/// What ends a run early, or a whole run.
#[derive(Clone, Copy, PartialEq, Eq, Structural, Debug)]
pub enum TintError {
    /// Confinement to the target root failed; nothing was read or written.
    ConfinementFailed,
    /// The completion marker already exists: this root was already
    /// processed.
    AlreadyProcessed,
    /// A scanner failed while the keep set was being seeded.
    ScanFailed,
    /// An external filter failed.
    FilterFailed,
    /// The dissector could not compute the removal set.
    DissectFailed,
    /// The completion marker could not be created after the apply.
    MarkerFailed,
    /// An event arrived that the current stage cannot accept.
    UnexpectedEvent,
}

/// The pipeline stages, in order; `Failed` is terminal and reachable from
/// every stage.
#[derive(Clone, Copy, PartialEq, Eq, Structural, Debug)]
pub enum Stage {
    NotStarted,
    RootBound,
    LockChecked,
    KeepSeeded,
    TextFiltered,
    DirFiltered,
    OverridesApplied,
    SymlinkClosed,
    ResourceFiltered,
    TreeDissected,
    Done,
    Failed,
}

/// What the driver reports back: the outcome of the action the engine
/// requested last.
pub enum Event {
    /// Confinement to the target root succeeded.
    BindOk,
    /// Confinement failed.
    BindFailed,
    /// Whether the completion marker exists under the confined root.
    Lock(bool),
    /// The per-target binary scans, per-target package scans and package
    /// content listings, each as one set to union in.
    ScanData(Vec<PathSet>),
    /// A scanner failed.
    ScanFailed,
    /// The set an external filter handed back.
    Filtered(PathSet),
    /// An external filter failed.
    FilterFailed,
    /// Nothing to report: the engine works on its own state.
    Proceed,
    /// The symlinks among the current keep set, with their raw targets.
    Links(LinkMap),
    /// The removal set the dissector computed against the real tree.
    Removal(PathSet),
    /// The dissector failed.
    DissectFailed,
    /// The dry-run report was printed.
    Reported,
    /// Deletion ran; the flag says whether the completion marker was
    /// created.
    Applied(bool),
}

/// What the driver must do next. Binding the root is not requested: the
/// driver binds before it sends the first event, and that event reports
/// the outcome of the binding.
#[derive(Clone, Copy, PartialEq, Eq, Structural, Debug)]
pub enum Action {
    /// Check whether the completion marker exists.
    CheckLock,
    /// Run the binary and package scanners for the profile's targets and
    /// packages.
    Seed,
    /// Run the external text-content filter on the current keep set.
    RunTextFilter,
    /// Run the external directory-level filter on the current keep set.
    RunDirFilter,
    /// Call `step` again with `Proceed`: the next stage is internal.
    Continue,
    /// Read the link target of every keep-set member that is a symlink.
    ReadLinks,
    /// Hand the keep set to the dissector for the removal set.
    Dissect,
    /// Print the dry-run report; nothing is mutated.
    Report,
    /// Delete the removal set, prune empty directories and broken
    /// symlinks, then create the completion marker.
    Apply,
    /// The run is over.
    Finish,
    /// The run failed with this error.
    Fail(TintError),
}

/// The autodependency mode a textual flag selects.
pub open spec fn spec_autodeps(s: Seq<char>) -> Autodeps {
    if s == "free"@ {
        Autodeps::Free
    } else if s == "clean"@ {
        Autodeps::Clean
    } else if s == "tight"@ {
        Autodeps::Tight
    } else {
        Autodeps::Undef
    }
}

/// Main processor of a profile against one confined root.
pub struct TintProcessor {
    /// The profile driving this run.
    pub profile: Profile,
    /// The root to confine to.
    pub root: String,
    /// Report only; write nothing.
    pub dry_run: bool,
    /// Autodependency mode threaded through to the package scanner.
    pub autodeps: Autodeps,
    /// Where the completion marker lives under the confined root.
    pub lockfile: String,
}

impl TintProcessor {
    /// A processor for the given root: dry-run by default, free
    /// autodependencies, the marker at its fixed path.
    pub fn new(root: String) -> (s: TintProcessor)
        ensures
            s.root == root,
            s.dry_run,
            s.autodeps == Autodeps::Free,
            s.lockfile@ == "/.tinted.lock"@,
            s.profile.targets@.len() == 0,
            s.profile.packages@.len() == 0,
            s.profile.keep_paths@.len() == 0,
            s.profile.prune_paths@.len() == 0,
            !s.profile.filter_arc,
            !s.profile.filter_img,
    {
        TintProcessor {
            profile: Profile::default(),
            root,
            dry_run: true,
            autodeps: Autodeps::Free,
            lockfile: "/.tinted.lock".to_owned(),
        }
    }

    /// Set configuration from a profile.
    pub fn set_profile(&mut self, profile: Profile)
        ensures
            final(self).profile == profile,
            final(self).root == old(self).root,
            final(self).dry_run == old(self).dry_run,
            final(self).autodeps == old(self).autodeps,
            final(self).lockfile == old(self).lockfile,
    {
        self.profile = profile;
    }

    /// Set the dry-run flag (no actual writes on the target image).
    pub fn set_dry_run(&mut self, dr: bool)
        ensures
            final(self).dry_run == dr,
            final(self).profile == old(self).profile,
            final(self).root == old(self).root,
            final(self).autodeps == old(self).autodeps,
            final(self).lockfile == old(self).lockfile,
    {
        self.dry_run = dr;
    }

    /// Set the autodependency mode from its textual flag.
    pub fn set_autodeps(&mut self, ad: String)
        ensures
            final(self).autodeps == spec_autodeps(ad@),
            final(self).profile == old(self).profile,
            final(self).root == old(self).root,
            final(self).dry_run == old(self).dry_run,
            final(self).lockfile == old(self).lockfile,
    {
        if str_eq(ad.as_str(), "free") {
            self.autodeps = Autodeps::Free;
        } else if str_eq(ad.as_str(), "clean") {
            self.autodeps = Autodeps::Clean;
        } else if str_eq(ad.as_str(), "tight") {
            self.autodeps = Autodeps::Tight;
        } else {
            self.autodeps = Autodeps::Undef;
        }
    }

    /// Begin a run: the returned state machine starts before confinement,
    /// with empty keep and removal sets. The driver binds the root first
    /// and reports the outcome as the first event.
    pub fn start(self) -> (run: TintRun)
        ensures
            run.cfg == self,
            run.stage == Stage::NotStarted,
            run.keep@ == Set::<Seq<char>>::empty(),
            run.keep.wf(),
            run.keep_sorted@.len() == 0,
            run.removal@.len() == 0,
    {
        TintRun {
            cfg: self,
            stage: Stage::NotStarted,
            keep: PathSet::new(),
            keep_sorted: Vec::new(),
            removal: Vec::new(),
        }
    }
}

/// The union of a list of path sets.
pub open spec fn union_all(sets: Seq<Set<Seq<char>>>) -> Set<Seq<char>>
    decreases sets.len(),
{
    if sets.len() == 0 {
        Set::empty()
    } else {
        union_all(sets.drop_last()).union(sets.last())
    }
}

/// The views of a list of path sets.
pub open spec fn set_views(sets: Seq<PathSet>) -> Seq<Set<Seq<char>>> {
    sets.map_values(|ps: PathSet| ps@)
}

/// The stage one event moves the pipeline to. Terminal stages absorb every
/// event; an event the stage cannot accept fails the run.
pub open spec fn next_stage(st: Stage, ev: Event) -> Stage {
    match (st, ev) {
        (Stage::NotStarted, Event::BindOk) => Stage::RootBound,
        (Stage::NotStarted, Event::BindFailed) => Stage::Failed,
        (Stage::RootBound, Event::Lock(true)) => Stage::Failed,
        (Stage::RootBound, Event::Lock(false)) => Stage::LockChecked,
        (Stage::LockChecked, Event::ScanData(_)) => Stage::KeepSeeded,
        (Stage::LockChecked, Event::ScanFailed) => Stage::Failed,
        (Stage::KeepSeeded, Event::Filtered(_)) => Stage::TextFiltered,
        (Stage::KeepSeeded, Event::FilterFailed) => Stage::Failed,
        (Stage::TextFiltered, Event::Filtered(_)) => Stage::DirFiltered,
        (Stage::TextFiltered, Event::FilterFailed) => Stage::Failed,
        (Stage::DirFiltered, Event::Proceed) => Stage::OverridesApplied,
        (Stage::OverridesApplied, Event::Links(_)) => Stage::SymlinkClosed,
        (Stage::SymlinkClosed, Event::Proceed) => Stage::ResourceFiltered,
        (Stage::ResourceFiltered, Event::Removal(_)) => Stage::TreeDissected,
        (Stage::ResourceFiltered, Event::DissectFailed) => Stage::Failed,
        (Stage::TreeDissected, Event::Reported) => Stage::Done,
        (Stage::TreeDissected, Event::Applied(true)) => Stage::Done,
        (Stage::TreeDissected, Event::Applied(false)) => Stage::Failed,
        (Stage::Done, _) => Stage::Done,
        (Stage::Failed, _) => Stage::Failed,
        _ => Stage::Failed,
    }
}

/// The action the engine requests after one event. Only an apply-mode run
/// that reached dissection is ever asked to apply.
pub open spec fn next_action(st: Stage, dry_run: bool, ev: Event) -> Action {
    match (st, ev) {
        (Stage::NotStarted, Event::BindOk) => Action::CheckLock,
        (Stage::NotStarted, Event::BindFailed) => Action::Fail(TintError::ConfinementFailed),
        (Stage::RootBound, Event::Lock(true)) => Action::Fail(TintError::AlreadyProcessed),
        (Stage::RootBound, Event::Lock(false)) => Action::Seed,
        (Stage::LockChecked, Event::ScanData(_)) => Action::RunTextFilter,
        (Stage::LockChecked, Event::ScanFailed) => Action::Fail(TintError::ScanFailed),
        (Stage::KeepSeeded, Event::Filtered(_)) => Action::RunDirFilter,
        (Stage::KeepSeeded, Event::FilterFailed) => Action::Fail(TintError::FilterFailed),
        (Stage::TextFiltered, Event::Filtered(_)) => Action::Continue,
        (Stage::TextFiltered, Event::FilterFailed) => Action::Fail(TintError::FilterFailed),
        (Stage::DirFiltered, Event::Proceed) => Action::ReadLinks,
        (Stage::OverridesApplied, Event::Links(_)) => Action::Continue,
        (Stage::SymlinkClosed, Event::Proceed) => Action::Dissect,
        (Stage::ResourceFiltered, Event::Removal(_)) => if dry_run {
            Action::Report
        } else {
            Action::Apply
        },
        (Stage::ResourceFiltered, Event::DissectFailed) => Action::Fail(TintError::DissectFailed),
        (Stage::TreeDissected, Event::Reported) => Action::Finish,
        (Stage::TreeDissected, Event::Applied(true)) => Action::Finish,
        (Stage::TreeDissected, Event::Applied(false)) => Action::Fail(TintError::MarkerFailed),
        (Stage::Done, _) => Action::Finish,
        (Stage::Failed, _) => Action::Finish,
        _ => Action::Fail(TintError::UnexpectedEvent),
    }
}

/// The keep set after one event. Filters may only shrink what they are
/// given; the closure and the explicit keeps are the only stages that add.
pub open spec fn next_keep(pre: TintRun, ev: Event) -> Set<Seq<char>> {
    match (pre.stage, ev) {
        (Stage::LockChecked, Event::ScanData(sets)) => union_all(set_views(sets@)).union(
            views_of(pre.cfg.profile.targets@).to_set(),
        ),
        (Stage::KeepSeeded, Event::Filtered(s)) => s@,
        (Stage::TextFiltered, Event::Filtered(s)) => s@,
        (Stage::DirFiltered, Event::Proceed) => pre.keep@.union(
            views_of(pre.cfg.profile.keep_paths@).to_set(),
        ).difference(views_of(pre.cfg.profile.prune_paths@).to_set()),
        (Stage::OverridesApplied, Event::Links(lm)) => pre.keep@.union(
            link_closure(pre.keep@, lm.entries@),
        ),
        (Stage::SymlinkClosed, Event::Proceed) => pre.keep@.filter(
            |s: Seq<char>|
                resource_keep(pre.cfg.profile.filter_arc, pre.cfg.profile.filter_img, s),
        ),
        _ => pre.keep@,
    }
}

/// One run of the pipeline against one confined root: the engine's state
/// between two driver actions.
pub struct TintRun {
    /// The configuration the run was started with; never changed by a step.
    pub cfg: TintProcessor,
    /// The last completed stage.
    pub stage: Stage,
    /// The growing keep set.
    pub keep: PathSet,
    /// The keep set in lexicographic order, fixed at dissection.
    pub keep_sorted: Vec<String>,
    /// The removal set in lexicographic order, fixed at dissection.
    pub removal: Vec<String>,
}

impl TintRun {
    /// Consumes the outcome of the last requested action and answers with
    /// the next one.
    pub fn step(&mut self, ev: Event) -> (a: Action)
        requires
            old(self).keep.wf(),
        ensures
            final(self).keep.wf(),
            final(self).cfg == old(self).cfg,
            final(self).stage == next_stage(old(self).stage, ev),
            a == next_action(old(self).stage, old(self).cfg.dry_run, ev),
            final(self).keep@ == next_keep(*old(self), ev),
            old(self).stage == Stage::ResourceFiltered ==> (ev matches Event::Removal(r) ==> (
            sorted_lex(views_of(final(self).removal@)) && views_of(final(self).removal@).to_set()
                == r@ && sorted_lex(views_of(final(self).keep_sorted@)) && views_of(
                final(self).keep_sorted@,
            ).to_set() == old(self).keep@)),
            !(old(self).stage == Stage::ResourceFiltered && ev matches Event::Removal(_)) ==> (
            final(self).removal == old(self).removal && final(self).keep_sorted == old(
                self,
            ).keep_sorted),
    {
        let stage = self.stage;
        match (stage, ev) {
            (Stage::NotStarted, Event::BindOk) => {
                self.stage = Stage::RootBound;
                Action::CheckLock
            },
            (Stage::NotStarted, Event::BindFailed) => {
                self.stage = Stage::Failed;
                Action::Fail(TintError::ConfinementFailed)
            },
            (Stage::RootBound, Event::Lock(present)) => {
                if present {
                    self.stage = Stage::Failed;
                    Action::Fail(TintError::AlreadyProcessed)
                } else {
                    self.stage = Stage::LockChecked;
                    Action::Seed
                }
            },
            (Stage::LockChecked, Event::ScanData(sets)) => {
                let mut k = PathSet::new();
                let mut i: usize = 0;
                proof {
                    assert(set_views(sets@).take(0) =~= Seq::<Set<Seq<char>>>::empty());
                    assert(k@ =~= union_all(set_views(sets@).take(0)));
                }
                while i < sets.len()
                    invariant
                        i <= sets@.len(),
                        k.wf(),
                        k@ == union_all(set_views(sets@).take(i as int)),
                    decreases sets@.len() - i,
                {
                    k.union_with(&sets[i]);
                    proof {
                        let sv = set_views(sets@);
                        assert(sv.take(i + 1).drop_last() =~= sv.take(i as int));
                        assert(sv.take(i + 1).last() == sv[i as int]);
                        assert(sv[i as int] == sets@[i as int]@);
                        assert(k@ =~= union_all(sv.take(i + 1)));
                    }
                    i += 1;
                }
                proof {
                    assert(set_views(sets@).take(sets@.len() as int) =~= set_views(sets@));
                }
                k.union_vec(self.cfg.profile.get_targets());
                self.keep = k;
                self.stage = Stage::KeepSeeded;
                Action::RunTextFilter
            },
            (Stage::LockChecked, Event::ScanFailed) => {
                self.stage = Stage::Failed;
                Action::Fail(TintError::ScanFailed)
            },
            (Stage::KeepSeeded, Event::Filtered(s)) => {
                let mut k = PathSet::new();
                k.union_with(&s);
                proof {
                    assert(k@ =~= s@);
                }
                self.keep = k;
                self.stage = Stage::TextFiltered;
                Action::RunDirFilter
            },
            (Stage::KeepSeeded, Event::FilterFailed) => {
                self.stage = Stage::Failed;
                Action::Fail(TintError::FilterFailed)
            },
            (Stage::TextFiltered, Event::Filtered(s)) => {
                let mut k = PathSet::new();
                k.union_with(&s);
                proof {
                    assert(k@ =~= s@);
                }
                self.keep = k;
                self.stage = Stage::DirFiltered;
                Action::Continue
            },
            (Stage::TextFiltered, Event::FilterFailed) => {
                self.stage = Stage::Failed;
                Action::Fail(TintError::FilterFailed)
            },
            (Stage::DirFiltered, Event::Proceed) => {
                self.keep.union_vec(self.cfg.profile.get_keep_paths());
                self.keep.remove_vec(self.cfg.profile.get_prune_paths());
                self.stage = Stage::OverridesApplied;
                Action::ReadLinks
            },
            (Stage::OverridesApplied, Event::Links(lm)) => {
                let np = ext_path(&self.keep, &lm);
                self.keep.union_with(&np);
                self.stage = Stage::SymlinkClosed;
                Action::Continue
            },
            (Stage::SymlinkClosed, Event::Proceed) => {
                let data = self.keep.to_vec();
                let rdf = ResourcesDataFilter::new(data, &self.cfg.profile);
                rdf.filter(&mut self.keep);
                proof {
                    assert(self.keep@ =~= old(self).keep@.filter(
                        |s: Seq<char>|
                            resource_keep(
                                old(self).cfg.profile.filter_arc,
                                old(self).cfg.profile.filter_img,
                                s,
                            ),
                    ));
                }
                self.stage = Stage::ResourceFiltered;
                Action::Dissect
            },
            (Stage::ResourceFiltered, Event::Removal(r)) => {
                self.removal = sort_paths(r.to_vec());
                self.keep_sorted = self.keep.to_sorted_vec();
                self.stage = Stage::TreeDissected;
                if self.cfg.dry_run {
                    Action::Report
                } else {
                    Action::Apply
                }
            },
            (Stage::ResourceFiltered, Event::DissectFailed) => {
                self.stage = Stage::Failed;
                Action::Fail(TintError::DissectFailed)
            },
            (Stage::TreeDissected, Event::Reported) => {
                self.stage = Stage::Done;
                Action::Finish
            },
            (Stage::TreeDissected, Event::Applied(ok)) => {
                if ok {
                    self.stage = Stage::Done;
                    Action::Finish
                } else {
                    self.stage = Stage::Failed;
                    Action::Fail(TintError::MarkerFailed)
                }
            },
            (Stage::Done, _) => Action::Finish,
            (Stage::Failed, _) => Action::Finish,
            _ => {
                self.stage = Stage::Failed;
                Action::Fail(TintError::UnexpectedEvent)
            },
        }
    }
}

/// Whether any step along a trace of events asks the driver to apply
/// destructive changes.
pub open spec fn trace_has_apply(st: Stage, dry_run: bool, evs: Seq<Event>) -> bool
    decreases evs.len(),
{
    evs.len() != 0 && (next_action(st, dry_run, evs[0]) == Action::Apply || trace_has_apply(
        next_stage(st, evs[0]),
        dry_run,
        evs.drop_first(),
    ))
}

/// The idempotency guard: when the completion marker is present, the run
/// fails as already processed at the lock check — before any scanning or
/// mutation — and no later event can ever make the failed run issue a
/// destructive apply.
pub proof fn lemma_idempotency_guard(dry_run: bool, evs: Seq<Event>)
    ensures
        next_stage(Stage::RootBound, Event::Lock(true)) == Stage::Failed,
        next_action(Stage::RootBound, dry_run, Event::Lock(true)) == Action::Fail(
            TintError::AlreadyProcessed,
        ),
        !trace_has_apply(Stage::Failed, dry_run, evs),
    decreases evs.len(),
{
    if evs.len() != 0 {
        lemma_idempotency_guard(dry_run, evs.drop_first());
    }
}

/// Dry-run purity: a dry run never asks the driver to apply destructive
/// changes, from any stage, over any sequence of events.
pub proof fn lemma_dry_run_purity(st: Stage, evs: Seq<Event>)
    ensures
        !trace_has_apply(st, true, evs),
    decreases evs.len(),
{
    if evs.len() != 0 {
        lemma_dry_run_purity(next_stage(st, evs[0]), evs.drop_first());
    }
}

/// What the dissector owes and what follows from it: a removal set that is
/// exactly the scanned tree minus the keep set minus the protected paths is
/// disjoint from the keep set, and keep, removal and protected paths
/// together cover the whole tree.
pub proof fn lemma_dissection_partition(
    tree: Set<Seq<char>>,
    keep: Set<Seq<char>>,
    protected: Set<Seq<char>>,
)
    requires
        keep.subset_of(tree),
        protected.subset_of(tree),
    ensures
        tree.difference(keep).difference(protected).disjoint(keep),
        keep.union(tree.difference(keep).difference(protected)).union(protected) == tree,
{
    assert(keep.union(tree.difference(keep).difference(protected)).union(protected) =~= tree);
}

/// Override precedence: a path named by both the explicit keeps and the
/// explicit prunes is absent from the keep set after the overrides — prune
/// wins, because keeps are unioned in before prunes are removed.
pub proof fn lemma_override_precedence(
    keep: Set<Seq<char>>,
    keeps: Set<Seq<char>>,
    prunes: Set<Seq<char>>,
    p: Seq<char>,
)
    requires
        prunes.contains(p),
    ensures
        !keep.union(keeps).difference(prunes).contains(p),
{
}

} // verus!
