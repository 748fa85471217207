use tint::links::LinkMap;
use tint::pathset::PathSet;
use tint::procdata::{Action, Autodeps, Event, Stage, TintError, TintProcessor};
use tint::profile::Profile;

fn set_of(paths: &[&str]) -> PathSet {
    let mut s = PathSet::new();
    for p in paths {
        s.insert(p.to_string());
    }
    s
}

fn keep_snapshot(run: &tint::procdata::TintRun) -> PathSet {
    let mut s = PathSet::new();
    for p in run.keep.to_vec() {
        s.insert(p);
    }
    s
}

#[test]
fn processor_defaults() {
    let tp = TintProcessor::new("/mnt/img".to_string());
    assert!(tp.dry_run);
    assert_eq!(tp.autodeps, Autodeps::Free);
    assert_eq!(tp.root, "/mnt/img");
    assert_eq!(tp.lockfile, "/.tinted.lock");
    assert_eq!(tp.profile.targets.len(), 0);
}

#[test]
fn autodeps_flag_parsing() {
    let mut tp = TintProcessor::new("/".to_string());
    tp.set_autodeps("clean".to_string());
    assert_eq!(tp.autodeps, Autodeps::Clean);
    tp.set_autodeps("tight".to_string());
    assert_eq!(tp.autodeps, Autodeps::Tight);
    tp.set_autodeps("free".to_string());
    assert_eq!(tp.autodeps, Autodeps::Free);
    tp.set_autodeps("anything-else".to_string());
    assert_eq!(tp.autodeps, Autodeps::Undef);
}

#[test]
fn already_processed_aborts_without_mutation() {
    let tp = TintProcessor::new("/img".to_string());
    let mut run = tp.start();
    assert_eq!(run.step(Event::BindOk), Action::CheckLock);
    let a = run.step(Event::Lock(true));
    assert_eq!(a, Action::Fail(TintError::AlreadyProcessed));
    assert_eq!(run.stage, Stage::Failed);
    // The failed run never asks for anything destructive again.
    assert_eq!(run.step(Event::Proceed), Action::Finish);
    assert_eq!(run.step(Event::Removal(set_of(&["/x"]))), Action::Finish);
    assert_eq!(run.step(Event::Applied(true)), Action::Finish);
    assert_eq!(run.stage, Stage::Failed);
    assert_eq!(run.keep.len(), 0);
    assert_eq!(run.removal.len(), 0);
}

#[test]
fn bind_failure_is_fatal() {
    let tp = TintProcessor::new("/img".to_string());
    let mut run = tp.start();
    assert_eq!(
        run.step(Event::BindFailed),
        Action::Fail(TintError::ConfinementFailed)
    );
    assert_eq!(run.stage, Stage::Failed);
}

#[test]
fn scan_failure_is_fatal() {
    let tp = TintProcessor::new("/img".to_string());
    let mut run = tp.start();
    run.step(Event::BindOk);
    run.step(Event::Lock(false));
    assert_eq!(run.step(Event::ScanFailed), Action::Fail(TintError::ScanFailed));
    assert_eq!(run.stage, Stage::Failed);
}

#[test]
fn filter_failure_is_fatal() {
    let tp = TintProcessor::new("/img".to_string());
    let mut run = tp.start();
    run.step(Event::BindOk);
    run.step(Event::Lock(false));
    run.step(Event::ScanData(vec![]));
    assert_eq!(
        run.step(Event::FilterFailed),
        Action::Fail(TintError::FilterFailed)
    );
    assert_eq!(run.stage, Stage::Failed);
}

#[test]
fn dissect_failure_is_fatal() {
    let mut tp = TintProcessor::new("/img".to_string());
    tp.set_profile(Profile::new(
        vec!["/bin/sh".to_string()],
        vec![],
        vec![],
        vec![],
        false,
        false,
    ));
    let mut run = tp.start();
    run.step(Event::BindOk);
    run.step(Event::Lock(false));
    run.step(Event::ScanData(vec![]));
    let s = keep_snapshot(&run);
    run.step(Event::Filtered(s));
    let s = keep_snapshot(&run);
    run.step(Event::Filtered(s));
    run.step(Event::Proceed);
    run.step(Event::Links(LinkMap::new()));
    run.step(Event::Proceed);
    assert_eq!(
        run.step(Event::DissectFailed),
        Action::Fail(TintError::DissectFailed)
    );
    assert_eq!(run.stage, Stage::Failed);
}

#[test]
fn marker_failure_is_fatal_after_apply() {
    let mut tp = TintProcessor::new("/img".to_string());
    tp.set_dry_run(false);
    let mut run = tp.start();
    run.step(Event::BindOk);
    run.step(Event::Lock(false));
    run.step(Event::ScanData(vec![]));
    let s = keep_snapshot(&run);
    run.step(Event::Filtered(s));
    let s = keep_snapshot(&run);
    run.step(Event::Filtered(s));
    run.step(Event::Proceed);
    run.step(Event::Links(LinkMap::new()));
    run.step(Event::Proceed);
    assert_eq!(run.step(Event::Removal(PathSet::new())), Action::Apply);
    assert_eq!(
        run.step(Event::Applied(false)),
        Action::Fail(TintError::MarkerFailed)
    );
    assert_eq!(run.stage, Stage::Failed);
}

#[test]
fn unexpected_event_fails_the_run() {
    let tp = TintProcessor::new("/img".to_string());
    let mut run = tp.start();
    assert_eq!(
        run.step(Event::Reported),
        Action::Fail(TintError::UnexpectedEvent)
    );
    assert_eq!(run.stage, Stage::Failed);
}

#[test]
fn override_precedence_prune_wins() {
    let mut tp = TintProcessor::new("/img".to_string());
    tp.set_profile(Profile::new(
        vec![],
        vec![],
        vec!["/etc/app.conf".to_string(), "/etc/both".to_string()],
        vec!["/etc/both".to_string(), "/var/cache/junk".to_string()],
        false,
        false,
    ));
    let mut run = tp.start();
    run.step(Event::BindOk);
    run.step(Event::Lock(false));
    run.step(Event::ScanData(vec![set_of(&["/var/cache/junk", "/usr/bin/tool"])]));
    let s = keep_snapshot(&run);
    run.step(Event::Filtered(s));
    let s = keep_snapshot(&run);
    run.step(Event::Filtered(s));
    run.step(Event::Proceed);
    assert!(run.keep.contains(&"/etc/app.conf".to_string()));
    assert!(run.keep.contains(&"/usr/bin/tool".to_string()));
    // A path in both keep-paths and prune-paths ends up removed.
    assert!(!run.keep.contains(&"/etc/both".to_string()));
    // An explicitly pruned path leaves the set even if seeded.
    assert!(!run.keep.contains(&"/var/cache/junk".to_string()));
}

#[test]
fn symlink_closure_adds_resolved_target() {
    let mut tp = TintProcessor::new("/img".to_string());
    tp.set_profile(Profile::new(
        vec!["/usr/bin/foo".to_string()],
        vec![],
        vec![],
        vec![],
        false,
        false,
    ));
    let mut run = tp.start();
    run.step(Event::BindOk);
    run.step(Event::Lock(false));
    run.step(Event::ScanData(vec![]));
    let s = keep_snapshot(&run);
    run.step(Event::Filtered(s));
    let s = keep_snapshot(&run);
    run.step(Event::Filtered(s));
    run.step(Event::Proceed);
    let mut lm = LinkMap::new();
    lm.push("/usr/bin/foo".to_string(), "../lib/foo.real".to_string());
    run.step(Event::Links(lm));
    assert!(run.keep.contains(&"/usr/bin/foo".to_string()));
    assert!(run.keep.contains(&"/usr/lib/foo.real".to_string()));
    assert_eq!(run.keep.len(), 2);
}

#[test]
fn dry_run_reports_instead_of_applying() {
    let mut tp = TintProcessor::new("/img".to_string());
    tp.set_dry_run(true);
    let mut run = tp.start();
    run.step(Event::BindOk);
    run.step(Event::Lock(false));
    run.step(Event::ScanData(vec![set_of(&["/usr/bin/a"])]));
    let s = keep_snapshot(&run);
    run.step(Event::Filtered(s));
    let s = keep_snapshot(&run);
    run.step(Event::Filtered(s));
    run.step(Event::Proceed);
    run.step(Event::Links(LinkMap::new()));
    run.step(Event::Proceed);
    let a = run.step(Event::Removal(set_of(&["/usr/share/doc/a.txt"])));
    assert_eq!(a, Action::Report);
    assert_eq!(run.step(Event::Reported), Action::Finish);
    assert_eq!(run.stage, Stage::Done);
}

#[test]
fn end_to_end_apply_scenario() {
    let mut tp = TintProcessor::new("/img".to_string());
    tp.set_profile(Profile::new(
        vec!["/usr/bin/foo".to_string()],
        vec![],
        vec![],
        vec![],
        false,
        false,
    ));
    tp.set_dry_run(false);
    let mut run = tp.start();
    assert_eq!(run.step(Event::BindOk), Action::CheckLock);
    assert_eq!(run.step(Event::Lock(false)), Action::Seed);
    // The binary scanner finds foo's only dependency.
    let scans = vec![set_of(&["/usr/lib/libbar.so"])];
    assert_eq!(run.step(Event::ScanData(scans)), Action::RunTextFilter);
    assert!(run.keep.contains(&"/usr/bin/foo".to_string()));
    assert!(run.keep.contains(&"/usr/lib/libbar.so".to_string()));
    // The external text and directory filters keep everything.
    let s = keep_snapshot(&run);
    assert_eq!(run.step(Event::Filtered(s)), Action::RunDirFilter);
    let s = keep_snapshot(&run);
    assert_eq!(run.step(Event::Filtered(s)), Action::Continue);
    assert_eq!(run.step(Event::Proceed), Action::ReadLinks);
    assert_eq!(run.step(Event::Links(LinkMap::new())), Action::Continue);
    assert_eq!(run.step(Event::Proceed), Action::Dissect);
    // The dissector reports what the tree holds beyond the keep set.
    let removal = set_of(&["/usr/share/man/foo.1.gz", "/tmp/cache/x"]);
    assert_eq!(run.step(Event::Removal(removal)), Action::Apply);
    assert_eq!(
        run.keep_sorted,
        vec!["/usr/bin/foo".to_string(), "/usr/lib/libbar.so".to_string()]
    );
    assert_eq!(
        run.removal,
        vec!["/tmp/cache/x".to_string(), "/usr/share/man/foo.1.gz".to_string()]
    );
    assert_eq!(run.step(Event::Applied(true)), Action::Finish);
    assert_eq!(run.stage, Stage::Done);
}

#[test]
fn stage_order_is_fixed() {
    let tp = TintProcessor::new("/img".to_string());
    let mut run = tp.start();
    assert_eq!(run.stage, Stage::NotStarted);
    run.step(Event::BindOk);
    assert_eq!(run.stage, Stage::RootBound);
    run.step(Event::Lock(false));
    assert_eq!(run.stage, Stage::LockChecked);
    run.step(Event::ScanData(vec![]));
    assert_eq!(run.stage, Stage::KeepSeeded);
    run.step(Event::Filtered(PathSet::new()));
    assert_eq!(run.stage, Stage::TextFiltered);
    run.step(Event::Filtered(PathSet::new()));
    assert_eq!(run.stage, Stage::DirFiltered);
    run.step(Event::Proceed);
    assert_eq!(run.stage, Stage::OverridesApplied);
    run.step(Event::Links(LinkMap::new()));
    assert_eq!(run.stage, Stage::SymlinkClosed);
    run.step(Event::Proceed);
    assert_eq!(run.stage, Stage::ResourceFiltered);
    run.step(Event::Removal(PathSet::new()));
    assert_eq!(run.stage, Stage::TreeDissected);
    run.step(Event::Reported);
    assert_eq!(run.stage, Stage::Done);
}
