use git_manager::CompletionItem;
use git_manager::FilterQuery;
use git_manager::GitRepo;
use git_manager::GitStatus;
use git_manager::calc_item_score;
use git_manager::display_path;
use git_manager::repo_passes;
use git_manager::update_complection;
use git_manager::update_show_repos;

fn repo(name: &str, path: &str, status: GitStatus, t: u64) -> GitRepo {
    GitRepo {
        name: String::from(name),
        path: String::from(path),
        status,
        last_commit_time: t,
    }
}

#[test]
fn filter_parse_status_path_and_residual() {
    let q = FilterQuery::parse("+NeedPull +path foo");
    assert_eq!(q.status_filters, vec![GitStatus::NeedPull]);
    assert!(q.use_path_search);
    assert!(!q.use_match_case);
    assert_eq!(q.residual_terms, vec![String::from("foo")]);
}

#[test]
fn filter_parse_empty_is_universal() {
    let q = FilterQuery::parse("");
    assert!(q.status_filters.is_empty());
    assert!(!q.use_path_search);
    assert!(!q.use_match_case);
    assert!(q.residual_terms.is_empty());
    let all = repo("a", "/x/y/a", GitStatus::Clean, 1);
    assert!(repo_passes(&q, &all));
}

#[test]
fn filter_parse_unknown_plus_token_is_literal() {
    let q = FilterQuery::parse("+Bogus term");
    assert!(q.status_filters.is_empty());
    assert_eq!(
        q.residual_terms,
        vec![String::from("+Bogus"), String::from("term")]
    );
}

#[test]
fn filter_parse_match_case_and_two_statuses() {
    let q = FilterQuery::parse("+match_case +Clean +Timeout Abc");
    assert!(q.use_match_case);
    assert_eq!(q.status_filters, vec![GitStatus::Clean, GitStatus::Timeout]);
    assert_eq!(q.residual_terms, vec![String::from("Abc")]);
}

#[test]
fn filter_matches_name_case_insensitively_by_default() {
    let q = FilterQuery::parse("myrepo");
    let r = repo("MyRepo", "/home/u/MyRepo", GitStatus::Clean, 1);
    assert!(repo_passes(&q, &r));
    let qc = FilterQuery::parse("+match_case myrepo");
    assert!(!repo_passes(&qc, &r));
}

#[test]
fn filter_by_status_keeps_only_matching_rows() {
    let repos = vec![
        repo("a", "/h/u/a", GitStatus::Clean, 9),
        repo("b", "/h/u/b", GitStatus::NeedPull, 8),
        repo("c", "/h/u/c", GitStatus::NeedPull, 7),
    ];
    let rows = update_show_repos(&repos, "+NeedPull");
    assert_eq!(rows.len(), 2);
    assert_eq!(rows[0].index, 1);
    assert_eq!(rows[0].name, "b");
    assert_eq!(rows[1].index, 2);
    assert_eq!(rows[1].status, GitStatus::NeedPull);
}

#[test]
fn filter_path_search_uses_display_path() {
    let repos = vec![
        repo("proj", "/home/user/work/proj", GitStatus::Clean, 1),
        repo("other", "/home/user/play/other", GitStatus::Clean, 1),
    ];
    let rows = update_show_repos(&repos, "+path work");
    assert_eq!(rows.len(), 1);
    assert_eq!(rows[0].name, "proj");
    assert_eq!(rows[0].display_path, "~/work/proj");
}

#[test]
fn display_path_replaces_leading_segments() {
    assert_eq!(display_path("/home/user/proj"), "~/proj");
    assert_eq!(display_path("/home/user/a/b"), "~/a/b");
    assert_eq!(display_path("rel"), "~/rel");
}

#[test]
fn fuzzy_empty_query_scores_one() {
    assert_eq!(calc_item_score("", "NeedPull"), 1);
}

#[test]
fn fuzzy_subsequence_scores_positive() {
    assert!(calc_item_score("np", "NeedPull") > 0);
}

#[test]
fn fuzzy_no_subsequence_scores_zero() {
    assert_eq!(calc_item_score("xyz", "Clean"), 0);
}

#[test]
fn fuzzy_case_preserving_match_scores_higher() {
    assert!(calc_item_score("N", "NeedPull") > calc_item_score("n", "NeedPull"));
}

#[test]
fn completions_ranked_with_ties_in_vocabulary_order() {
    let items: Vec<CompletionItem> = update_complection("+N");
    let texts: Vec<&str> = items.iter().map(|i| i.text.as_str()).collect();
    assert_eq!(texts, vec!["NeedPull", "NeedPush", "NeedCommit", "Clean"]);
    assert!(items[0].score >= items[1].score);
    assert!(items[2].score >= items[3].score);
}

#[test]
fn completions_empty_cases() {
    assert!(update_complection("").is_empty());
    assert!(update_complection("+Nee ").is_empty());
    assert!(update_complection("plain").is_empty());
}

#[test]
fn completions_bare_plus_offers_whole_vocabulary() {
    let items = update_complection("+");
    assert_eq!(items.len(), 7);
    assert!(items.iter().all(|i| i.score == 1));
    assert_eq!(items[0].text, "path");
}
