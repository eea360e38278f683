use git_manager::ClassifyState;
use git_manager::GitRepo;
use git_manager::GitStatus;
use git_manager::ProbeAction;
use git_manager::ProbeResult;
use git_manager::classify_step;
use git_manager::fetch_command;
use git_manager::last_commit_time_command;
use git_manager::name_of_path;
use git_manager::next_action;
use git_manager::remote_show_command;
use git_manager::resolve_markers;
use git_manager::status_command;

fn out(s: &str) -> ProbeResult {
    ProbeResult::Output(String::from(s))
}

#[test]
fn dirty_tree_decides_needcommit_before_any_remote_probe() {
    // uncommitted changes AND remote divergence markers: NeedCommit wins
    let st = classify_step(
        ClassifyState::AwaitStatus,
        &out("Changes not staged for commit\nuse \"git pull\" and \"git push\""),
    );
    assert_eq!(st, ClassifyState::Done { status: GitStatus::NeedCommit });
    assert_eq!(next_action(&st), None);
}

#[test]
fn clean_tree_without_remotes_is_clean() {
    let st = classify_step(ClassifyState::AwaitStatus, &out("working tree clean"));
    assert_eq!(
        st,
        ClassifyState::AwaitRemotes { need_pull: false, need_push: false }
    );
    assert_eq!(next_action(&st), Some(ProbeAction::RunRemoteShow));
    let st = classify_step(st, &out(""));
    assert_eq!(st, ClassifyState::Done { status: GitStatus::Clean });
}

#[test]
fn pull_marker_in_first_status_skips_the_fetch() {
    let st = classify_step(
        ClassifyState::AwaitStatus,
        &out("behind, use git pull\nworking tree clean"),
    );
    assert_eq!(
        st,
        ClassifyState::AwaitRemotes { need_pull: true, need_push: false }
    );
    let st = classify_step(st, &out("origin"));
    assert_eq!(st, ClassifyState::Done { status: GitStatus::NeedPull });
}

#[test]
fn push_wins_when_both_markers_present() {
    assert_eq!(resolve_markers(true, true), GitStatus::NeedPush);
    let st = classify_step(
        ClassifyState::AwaitStatus,
        &out("use git pull or git push\nworking tree clean"),
    );
    let st = classify_step(st, &out("origin"));
    assert_eq!(st, ClassifyState::Done { status: GitStatus::NeedPush });
}

#[test]
fn no_markers_leads_through_fetch_and_second_status() {
    let st = classify_step(ClassifyState::AwaitStatus, &out("working tree clean"));
    let st = classify_step(st, &out("origin"));
    assert_eq!(st, ClassifyState::AwaitFetch);
    assert_eq!(next_action(&st), Some(ProbeAction::RunFetch));
    let st = classify_step(st, &out(""));
    assert_eq!(st, ClassifyState::AwaitSecondStatus);
    assert_eq!(next_action(&st), Some(ProbeAction::RunStatus));
    let st = classify_step(st, &out("ahead, use git push\nworking tree clean"));
    assert_eq!(st, ClassifyState::Done { status: GitStatus::NeedPush });
}

#[test]
fn any_probe_failure_collapses_to_timeout() {
    let st = classify_step(ClassifyState::AwaitStatus, &ProbeResult::Failure);
    assert_eq!(st, ClassifyState::Done { status: GitStatus::Timeout });
    let st2 = classify_step(
        classify_step(ClassifyState::AwaitStatus, &out("working tree clean")),
        &ProbeResult::Failure,
    );
    assert_eq!(st2, ClassifyState::Done { status: GitStatus::Timeout });
}

#[test]
fn probe_commands_mention_the_repository_path() {
    assert_eq!(status_command("/r"), "cd /r && git status");
    assert_eq!(remote_show_command("/r"), "cd /r && git remote show");
    assert_eq!(fetch_command("/r"), "cd /r && git fetch");
    assert_eq!(
        last_commit_time_command("/r"),
        "cd /r && git show --pretty=format:'%ct' | head -1"
    );
}

#[test]
fn commit_time_parses_digits_and_blank() {
    assert_eq!(GitRepo::get_last_commit_time("1700000000\n").unwrap(), 1700000000);
    assert_eq!(GitRepo::get_last_commit_time("  42  ").unwrap(), 42);
    assert_eq!(GitRepo::get_last_commit_time("").unwrap(), 0);
    assert_eq!(GitRepo::get_last_commit_time("   \n").unwrap(), 0);
    assert!(GitRepo::get_last_commit_time("not a number").is_err());
    assert!(GitRepo::get_last_commit_time("99999999999999999999999").is_err());
}

#[test]
fn name_of_path_takes_final_segment() {
    assert_eq!(name_of_path("/home/u/proj"), "proj");
    assert_eq!(name_of_path("/home/u/proj/"), "proj");
    assert_eq!(name_of_path("bare"), "bare");
}

#[test]
fn status_names_round_trip() {
    let all = [
        GitStatus::Clean,
        GitStatus::NeedPull,
        GitStatus::NeedPush,
        GitStatus::NeedCommit,
        GitStatus::Timeout,
    ];
    for st in all {
        assert_eq!(GitStatus::from_str(&st.name()), Ok(st));
    }
    assert_eq!(GitStatus::from_str("Bogus"), Err(()));
    assert_eq!(GitStatus::from_str("clean"), Err(()));
}
