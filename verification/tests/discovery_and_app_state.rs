use git_manager::AppAction;
use git_manager::AppMode;
use git_manager::apply_action;
use git_manager::copy_to_clipboard;
use git_manager::cycle_next;
use git_manager::cycle_previous;
use git_manager::search_all_git_path;
use git_manager::search_command;

#[test]
fn search_output_yields_parent_directories() {
    let out = "/home/u/proj/.git\n/home/u/deep/nest/.pijul-git\n";
    let paths = search_all_git_path(out);
    assert_eq!(
        paths,
        vec![String::from("/home/u/proj"), String::from("/home/u/deep/nest")]
    );
}

#[test]
fn search_output_edge_lines() {
    assert!(search_all_git_path("").is_empty());
    // a control directory directly under the root keeps the root as parent
    assert_eq!(search_all_git_path("/.git\n"), vec![String::from("/")]);
    // a bare name has the empty path as parent, as the path type has it
    assert_eq!(search_all_git_path(".git"), vec![String::from("")]);
    // trailing slashes on the printed line are ignored
    assert_eq!(
        search_all_git_path("/a/b/.git/\n"),
        vec![String::from("/a/b")]
    );
}

#[test]
fn search_command_carries_pattern_and_ignores() {
    let cmd = search_command("/home/u");
    assert_eq!(
        cmd,
        "fd -I -t d -H -E .cache -E .local -E .cargo -E clasp '^\\..*git$' /home/u"
    );
}

#[test]
fn refresh_is_ignored_while_a_cycle_runs() {
    let e = apply_action(AppMode::Normal, true, AppAction::StartRefresh);
    assert!(!e.start_refresh);
    assert!(e.refreshing);
    let e = apply_action(AppMode::Normal, false, AppAction::StartRefresh);
    assert!(e.start_refresh);
    assert!(e.refreshing);
    assert!(!e.quit);
}

#[test]
fn filter_mode_transitions() {
    let e = apply_action(AppMode::Normal, false, AppAction::StartFilter);
    assert_eq!(e.mode, AppMode::Editing);
    // the filter cannot be entered while the list is refreshing
    let e = apply_action(AppMode::Normal, true, AppAction::StartFilter);
    assert_eq!(e.mode, AppMode::Normal);
    let e = apply_action(AppMode::Editing, false, AppAction::ExitFilter);
    assert_eq!(e.mode, AppMode::Normal);
    let e = apply_action(AppMode::Normal, false, AppAction::Quit);
    assert!(e.quit);
}

#[test]
fn selection_cycles_and_wraps() {
    assert_eq!(cycle_next(None, 3), Some(0));
    assert_eq!(cycle_next(Some(0), 3), Some(1));
    assert_eq!(cycle_next(Some(2), 3), Some(0));
    assert_eq!(cycle_next(Some(1), 0), Some(1));
    assert_eq!(cycle_previous(None, 3), Some(0));
    assert_eq!(cycle_previous(Some(0), 3), Some(2));
    assert_eq!(cycle_previous(Some(2), 3), Some(1));
    assert_eq!(cycle_previous(None, 0), None);
}

#[test]
fn clipboard_command_wraps_the_text() {
    let cmd = copy_to_clipboard("/home/u/proj");
    assert_eq!(cmd, "echo '/home/u/proj' | xclip -selection clipboard");
}

#[test]
fn test_clipboard() {
    let _ = copy_to_clipboard("hello world bababa");
}
