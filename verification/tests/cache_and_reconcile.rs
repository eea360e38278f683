use git_manager::GitRepo;
use git_manager::GitStatus;
use git_manager::collect_outcomes;
use git_manager::encode_repos;
use git_manager::finish_cycle;
use git_manager::parse_repos;
use git_manager::plan_cycle;
use git_manager::sort_repos_by_time;

fn repo(name: &str, path: &str, status: GitStatus, t: u64) -> GitRepo {
    GitRepo {
        name: String::from(name),
        path: String::from(path),
        status,
        last_commit_time: t,
    }
}

#[test]
fn cache_round_trip_reproduces_the_list() {
    let repos = vec![
        repo("alpha", "/home/u/alpha", GitStatus::Clean, 1700000001),
        repo("beta", "/home/u/beta", GitStatus::NeedPull, 0),
        repo("odd name; with \"quotes\"", "/tmp/o d d/päth", GitStatus::Timeout, u64::MAX),
        repo("", "", GitStatus::NeedCommit, 7),
    ];
    let text = encode_repos(&repos);
    let back = parse_repos(&text).expect("a saved cache parses back");
    assert_eq!(back, repos);
}

#[test]
fn cache_rejects_malformed_text() {
    let garbage: Vec<char> = "not a cache".chars().collect();
    assert!(parse_repos(&garbage).is_none());
    let repos = vec![repo("a", "/a", GitStatus::Clean, 5)];
    let mut truncated = encode_repos(&repos);
    truncated.pop();
    assert!(parse_repos(&truncated).is_none());
    let empty: Vec<char> = Vec::new();
    assert_eq!(parse_repos(&empty), Some(Vec::new()));
}

#[test]
fn plan_without_cache_probes_everything_fresh() {
    let disc = vec![String::from("/a"), String::from("/b")];
    let plan = plan_cycle(None, disc.clone());
    assert!(plan.reprobe.is_empty());
    assert_eq!(plan.fresh, disc);
}

#[test]
fn plan_reprobes_cache_and_probes_only_the_difference() {
    let prev = vec![
        repo("a", "/a", GitStatus::Clean, 3),
        repo("b", "/b", GitStatus::NeedPull, 2),
    ];
    let disc = vec![String::from("/a"), String::from("/c")];
    let plan = plan_cycle(Some(prev.clone()), disc);
    assert_eq!(plan.reprobe, prev);
    assert_eq!(plan.fresh, vec![String::from("/c")]);
}

#[test]
fn removed_directory_drops_out_and_failures_are_counted() {
    // previous cache {A: Clean, B: NeedPull}; filesystem now {A, C}
    let prev = vec![
        repo("A", "/r/A", GitStatus::Clean, 10),
        repo("B", "/r/B", GitStatus::NeedPull, 20),
    ];
    let disc = vec![String::from("/r/A"), String::from("/r/C")];
    let plan = plan_cycle(Some(prev), disc);
    assert_eq!(plan.fresh, vec![String::from("/r/C")]);
    // probing: A re-probed fine, B's directory is gone, C fresh
    let outcomes = vec![
        Some(repo("A", "/r/A", GitStatus::Clean, 10)),
        None,
        Some(repo("C", "/r/C", GitStatus::NeedCommit, 30)),
    ];
    let (result, errs) = finish_cycle(outcomes);
    assert_eq!(errs, 1);
    let paths: Vec<&str> = result.iter().map(|r| r.path.as_str()).collect();
    assert_eq!(paths, vec!["/r/C", "/r/A"]);
}

#[test]
fn second_cycle_with_same_filesystem_probes_the_same_set() {
    let prev = vec![repo("a", "/a", GitStatus::Clean, 1)];
    let disc = vec![String::from("/a"), String::from("/b")];
    let plan1 = plan_cycle(Some(prev), disc.clone());
    assert_eq!(plan1.fresh, vec![String::from("/b")]);
    // every probe succeeds; the result becomes the next cache
    let outcomes = vec![
        Some(repo("a", "/a", GitStatus::Clean, 1)),
        Some(repo("b", "/b", GitStatus::NeedPush, 2)),
    ];
    let (r1, errs) = finish_cycle(outcomes);
    assert_eq!(errs, 0);
    // the second cycle finds nothing fresh and re-probes exactly r1
    let plan2 = plan_cycle(Some(r1.clone()), disc);
    assert!(plan2.fresh.is_empty());
    assert_eq!(plan2.reprobe, r1);
    // unchanged probes reproduce the same records
    let outcomes2: Vec<Option<GitRepo>> = plan2.reprobe.iter().cloned().map(Some).collect();
    let (r2, _) = finish_cycle(outcomes2);
    assert_eq!(r2, r1);
}

#[test]
fn results_are_sorted_newest_commit_first() {
    let input = vec![
        repo("a", "/a", GitStatus::Clean, 5),
        repo("b", "/b", GitStatus::Clean, 50),
        repo("c", "/c", GitStatus::Clean, 7),
        repo("d", "/d", GitStatus::Clean, 50),
    ];
    let sorted = sort_repos_by_time(input);
    let times: Vec<u64> = sorted.iter().map(|r| r.last_commit_time).collect();
    assert_eq!(times, vec![50, 50, 7, 5]);
    for w in times.windows(2) {
        assert!(w[0] >= w[1]);
    }
}

#[test]
fn collect_keeps_successes_in_order() {
    let outcomes = vec![
        Some(repo("a", "/a", GitStatus::Clean, 1)),
        None,
        Some(repo("b", "/b", GitStatus::Clean, 2)),
        None,
        None,
    ];
    let (ok, errs) = collect_outcomes(outcomes);
    assert_eq!(errs, 3);
    let names: Vec<&str> = ok.iter().map(|r| r.name.as_str()).collect();
    assert_eq!(names, vec!["a", "b"]);
}
