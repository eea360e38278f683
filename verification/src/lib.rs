//! Core of a git working-directory fleet manager: repository discovery,
//! status classification, cache reconciliation, and the filter/completion
//! engine behind the interactive view. Process running and rendering live
//! with the caller; everything here is pure logic with verified contracts.
use vstd::prelude::*;

pub mod cache;
pub mod classify;
pub mod digits;
pub mod discovery;
pub mod filter;
pub mod fuzzy;
pub mod gitrepo;
pub mod reconcile;
pub mod states;
pub mod status;
pub mod text;
pub mod utils;

pub use cache::encode_repos;
pub use cache::parse_repos;
pub use classify::ClassifyState;
pub use classify::ProbeAction;
pub use classify::ProbeResult;
pub use classify::classify_step;
pub use classify::next_action;
pub use classify::status_command;
pub use classify::remote_show_command;
pub use classify::fetch_command;
pub use classify::FETCH_TIMEOUT_SECS;
pub use discovery::search_command;
pub use discovery::search_all_git_path;
pub use filter::FilterQuery;
pub use filter::ShowRepo;
pub use filter::display_path;
pub use filter::repo_passes;
pub use filter::update_show_repos;
pub use fuzzy::CompletionItem;
pub use fuzzy::calc_item_score;
pub use fuzzy::update_complection;
pub use gitrepo::GitRepo;
pub use reconcile::ReconcilePlan;
pub use reconcile::plan_cycle;
pub use reconcile::collect_outcomes;
pub use gitrepo::name_of_path;
pub use gitrepo::last_commit_time_command;

pub use reconcile::finish_cycle;
pub use reconcile::sort_repos_by_time;
pub use states::AppMode;
pub use states::AppAction;
pub use states::ActionEffect;
pub use states::apply_action;
pub use states::cycle_next;
pub use states::cycle_previous;
pub use status::GitStatus;
pub use status::resolve_markers;
pub use utils::GitError;
pub use utils::ba_error;
pub use utils::copy_to_clipboard;

verus! {

} // verus!
