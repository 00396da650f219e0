use launch::errors::LaunchError;
use launch::launcher::{staging_dest, Action, Event, Launcher, Phase};

#[test]
fn staging_path_for_absolute_command() {
    assert_eq!(staging_dest("/tmp/stage", "/bin/ls"), "/tmp/stage/bin/ls");
}

#[test]
fn staging_path_for_relative_command() {
    assert_eq!(staging_dest("/tmp/stage", "bin/ls"), "/tmp/stage/bin/ls");
}

#[test]
fn staging_path_strips_repeated_separators() {
    assert_eq!(staging_dest("/tmp/stage", "///bin/ls"), "/tmp/stage/bin/ls");
}

#[test]
fn run_in_order_and_propagate_exit_code() {
    let mut l = Launcher::new();
    let expected = [
        Action::CreateStagingRoot,
        Action::StageBinary,
        Action::ChangeRoot,
        Action::SetWorkingDir,
        Action::PullImage,
        Action::CreateDevNull,
        Action::IsolatePids,
        Action::SpawnCommand,
    ];
    for a in expected {
        assert_eq!(l.action(), a);
        l = l.step(Event::Succeeded);
    }
    assert_eq!(l.action(), Action::AwaitChild);
    l = l.step(Event::Exited(7));
    assert_eq!(l.action(), Action::RemoveStagingRoot);
    l = l.step(Event::Succeeded);
    assert_eq!(l.action(), Action::Exit);
    assert!(l.released);
    assert_eq!(l.code, 7);
}

#[test]
fn child_without_exit_code_yields_one() {
    let mut l = Launcher::new();
    while l.action() != Action::AwaitChild {
        l = l.step(Event::Succeeded);
    }
    l = l.step(Event::ExitedAbnormally);
    l = l.step(Event::Succeeded);
    assert_eq!(l.action(), Action::Exit);
    assert_eq!(l.code, 1);
}

#[test]
fn pull_failure_still_releases_staging_root() {
    let mut l = Launcher::new();
    while l.action() != Action::PullImage {
        l = l.step(Event::Succeeded);
    }
    l = l.step(Event::Failed(LaunchError::NetworkError));
    assert_eq!(l.action(), Action::RemoveStagingRoot);
    assert!(!l.released);
    l = l.step(Event::Succeeded);
    assert!(l.released);
    assert_eq!(l.action(), Action::Exit);
    assert_eq!(l.code, 1);
}

#[test]
fn create_failure_ends_with_code_one() {
    let l = Launcher::new();
    let l = l.step(Event::Failed(LaunchError::ResourceError));
    assert_eq!(l.action(), Action::RemoveStagingRoot);
    let l = l.step(Event::Succeeded);
    assert_eq!(l.action(), Action::Exit);
    assert_eq!(l.code, 1);
}

#[test]
fn pid_isolation_failure_degrades_silently() {
    let mut l = Launcher::new();
    while l.action() != Action::IsolatePids {
        l = l.step(Event::Succeeded);
    }
    l = l.step(Event::Failed(LaunchError::PermissionError));
    assert_eq!(l.action(), Action::SpawnCommand);
    assert_eq!(l.phase, Phase::Spawning);
}

#[test]
fn release_failure_is_best_effort() {
    let mut l = Launcher::new();
    while l.action() != Action::AwaitChild {
        l = l.step(Event::Succeeded);
    }
    l = l.step(Event::Exited(0));
    l = l.step(Event::Failed(LaunchError::IoError));
    assert_eq!(l.action(), Action::Exit);
    assert_eq!(l.code, 0);
}
