//! The filter language of the interactive view: a free-text input is
//! parsed into structured directives (status filters, path-vs-name
//! search, case sensitivity, residual substring terms), and the current
//! repository list is filtered by them on every keystroke.
use vstd::prelude::*;

use crate::gitrepo::GitRepo;
use crate::gitrepo::spec_trim;
use crate::gitrepo::trim_bounds;
use crate::gitrepo::copy_range;
use crate::status::GitStatus;
use crate::status::spec_status_from_name;
use crate::status::eq_chars;
use crate::text::contains_seq;
use crate::text::contains_chars;
use crate::text::split_at_char;
use crate::text::split_chars;
use crate::text::str_to_chars;
use crate::text::chars_to_string;

verus! {

/// What full case folding turns a text into. Folding is delegated to
/// the standard library; its result depends on the characters alone.
pub uninterp spec fn lower_of(s: Seq<char>) -> Seq<char>;

/// Relies on `str::to_lowercase`: the full lower-casing of a text,
/// depending on its characters alone; an empty text stays empty.
#[verifier::external_body]
fn lowercase(s: &str) -> (r: String)
    ensures
        r@ == lower_of(s@),
        s@.len() == 0 ==> r@.len() == 0,
{
    s.to_lowercase()
}

/// The structured form of one filter input.
#[verifier::ext_equal]
pub ghost struct QueryModel {
    pub status_filters: Seq<GitStatus>,
    pub use_path_search: bool,
    pub use_match_case: bool,
    pub residual_terms: Seq<Seq<char>>,
}

/// A parsed filter input: which statuses to keep, where residual terms
/// search (name or path), whether case matters, and the residual terms
/// themselves, all of which must match.
#[derive(Debug)]
pub struct FilterQuery {
    pub status_filters: Vec<GitStatus>,
    pub use_path_search: bool,
    pub use_match_case: bool,
    pub residual_terms: Vec<String>,
}

impl View for FilterQuery {
    type V = QueryModel;

    open spec fn view(&self) -> QueryModel {
        QueryModel {
            status_filters: self.status_filters@,
            use_path_search: self.use_path_search,
            use_match_case: self.use_match_case,
            residual_terms: self.residual_terms.deep_view(),
        }
    }
}

/// The query that matches everything.
pub open spec fn empty_query() -> QueryModel {
    QueryModel {
        status_filters: Seq::empty(),
        use_path_search: false,
        use_match_case: false,
        residual_terms: Seq::empty(),
    }
}

/// Classify one token, in this precedence: the literal `+path`, the
/// literal `+match_case`, a `+`-prefixed status name, and otherwise a
/// residual search term (an unrecognized `+` token is literal text, not
/// an error).
pub open spec fn apply_token(q: QueryModel, tok: Seq<char>) -> QueryModel {
    if tok == "+path"@ {
        QueryModel { use_path_search: true, ..q }
    } else if tok == "+match_case"@ {
        QueryModel { use_match_case: true, ..q }
    } else if tok.len() > 1 && tok[0] == '+' && spec_status_from_name(
        tok.subrange(1, tok.len() as int),
    ) is Ok {
        QueryModel {
            status_filters: q.status_filters.push(
                spec_status_from_name(tok.subrange(1, tok.len() as int))->Ok_0,
            ),
            ..q
        }
    } else {
        QueryModel { residual_terms: q.residual_terms.push(tok), ..q }
    }
}

/// Fold a token list into a query, left to right.
pub open spec fn fold_tokens(q: QueryModel, toks: Seq<Seq<char>>) -> QueryModel
    decreases toks.len(),
{
    if toks.len() == 0 {
        q
    } else {
        apply_token(fold_tokens(q, toks.drop_last()), toks.last())
    }
}

/// What parsing an input yields: the empty input is the universal
/// match; otherwise the trimmed input splits on single spaces and each
/// token lands per `apply_token`.
pub open spec fn spec_parse_query(input: Seq<char>) -> QueryModel {
    if input.len() == 0 {
        empty_query()
    } else {
        fold_tokens(empty_query(), split_at_char(spec_trim(input), ' '))
    }
}

impl FilterQuery {
    /// Parse a filter input.
    pub fn parse(raw_input: &str) -> (q: FilterQuery)
        ensures
            q@ == spec_parse_query(raw_input@),
    {
        let mut q = FilterQuery {
            status_filters: Vec::new(),
            use_path_search: false,
            use_match_case: false,
            residual_terms: Vec::new(),
        };
        if raw_input.is_empty() {
            proof {
                assert(q@ =~= empty_query());
            }
            return q;
        }
        let cs = str_to_chars(raw_input);
        let (a, b) = trim_bounds(&cs);
        let trimmed = copy_range(&cs, a, b);
        let toks = split_chars(&trimmed, ' ');
        let ghost tv = toks.deep_view();
        let plus_path = str_to_chars("+path");
        let plus_match_case = str_to_chars("+match_case");
        let mut i: usize = 0;
        proof {
            assert(tv.subrange(0, 0) =~= Seq::<Seq<char>>::empty());
            assert(q@ =~= empty_query());
        }
        while i < toks.len()
            invariant
                i <= toks@.len(),
                toks@.len() == tv.len(),
                tv == toks.deep_view(),
                plus_path@ == "+path"@,
                plus_match_case@ == "+match_case"@,
                q@ == fold_tokens(empty_query(), tv.subrange(0, i as int)),
            decreases toks@.len() - i,
        {
            let tok = &toks[i];
            proof {
                assert(tok@ == tv[i as int]);
                assert(tv.subrange(0, i + 1).drop_last() =~= tv.subrange(0, i as int));
                assert(tv.subrange(0, i + 1).last() == tv[i as int]);
            }
            if eq_chars(tok, &plus_path) {
                q.use_path_search = true;
            } else if eq_chars(tok, &plus_match_case) {
                q.use_match_case = true;
            } else {
                let mut handled = false;
                if tok.len() > 1 && tok[0] == '+' {
                    let rest = copy_range(tok, 1, tok.len());
                    match GitStatus::from_chars(&rest) {
                        Ok(st) => {
                            q.status_filters.push(st);
                            handled = true;
                        },
                        Err(_) => {},
                    }
                }
                if !handled {
                    let term = chars_to_string(tok);
                    let ghost terms_before = q.residual_terms.deep_view();
                    q.residual_terms.push(term);
                    proof {
                        assert(q.residual_terms.deep_view() =~~= terms_before.push(tv[i as int]));
                    }
                }
            }
            i = i + 1;
        }
        proof {
            assert(tv.subrange(0, tv.len() as int) =~= tv);
        }
        q
    }
}

/// The path segments joined each behind a `/`.
pub open spec fn tail_joined(segs: Seq<Seq<char>>) -> Seq<char>
    decreases segs.len(),
{
    if segs.len() == 0 {
        Seq::empty()
    } else {
        tail_joined(segs.drop_last()) + seq!['/'] + segs.last()
    }
}

/// How a repository path is shown and searched: split at `/`, the first
/// three segments (the leading empty one and the two home-directory
/// segments of an absolute path) replaced by `~` when the path is deep
/// enough, and joined back with `/`.
pub open spec fn spec_display_path(p: Seq<char>) -> Seq<char> {
    let segs = split_at_char(p, '/');
    let kept = if segs.len() >= 3 {
        segs.subrange(3, segs.len() as int)
    } else {
        segs
    };
    seq!['~'] + tail_joined(kept)
}

/// Render a repository path for display and for path search.
pub fn display_path(path: &str) -> (r: String)
    ensures
        r@ == spec_display_path(path@),
{
    let cs = str_to_chars(path);
    let segs = split_chars(&cs, '/');
    let ghost sv = segs.deep_view();
    let start: usize = if segs.len() >= 3 {
        3
    } else {
        0
    };
    let ghost kept = if sv.len() >= 3 {
        sv.subrange(3, sv.len() as int)
    } else {
        sv
    };
    let mut out: Vec<char> = Vec::new();
    out.push('~');
    let mut i: usize = start;
    proof {
        assert(kept.subrange(0, 0) =~= Seq::<Seq<char>>::empty());
        assert(out@ =~= seq!['~'] + tail_joined(kept.subrange(0, 0)));
    }
    while i < segs.len()
        invariant
            start <= i <= segs@.len(),
            segs@.len() == sv.len(),
            sv == segs.deep_view(),
            start == if sv.len() >= 3 {
                3int
            } else {
                0int
            },
            kept == if sv.len() >= 3 {
                sv.subrange(3, sv.len() as int)
            } else {
                sv
            },
            out@ == seq!['~'] + tail_joined(kept.subrange(0, i - start)),
        decreases segs@.len() - i,
    {
        let seg = &segs[i];
        proof {
            assert(seg@ == sv[i as int]);
            assert(kept[i - start] == sv[i as int]);
            assert(kept.subrange(0, i - start + 1).drop_last() =~= kept.subrange(0, i - start));
            assert(kept.subrange(0, i - start + 1).last() == kept[i - start]);
        }
        out.push('/');
        let mut j: usize = 0;
        let ghost out_mid = out@;
        while j < seg.len()
            invariant
                j <= seg@.len(),
                out@ == out_mid + seg@.subrange(0, j as int),
            decreases seg@.len() - j,
        {
            out.push(seg[j]);
            proof {
                assert(out@ =~= out_mid + seg@.subrange(0, j + 1));
            }
            j = j + 1;
        }
        proof {
            assert(seg@.subrange(0, seg@.len() as int) =~= seg@);
            assert(out@ =~= seq!['~'] + tail_joined(kept.subrange(0, i - start + 1)));
        }
        i = i + 1;
    }
    proof {
        assert(kept.subrange(0, kept.len() as int) =~= kept);
    }
    chars_to_string(&out)
}

/// One residual term matches the search field, with or without case
/// folding.
pub open spec fn term_matches(field: Seq<char>, term: Seq<char>, match_case: bool) -> bool {
    if match_case {
        contains_seq(field, term)
    } else {
        contains_seq(lower_of(field), lower_of(term))
    }
}

/// A repository passes a query: its status is allowed (no status filter
/// means all are), and every residual term occurs in the chosen search
/// field — the name, or the display path in path-search mode.
pub open spec fn spec_repo_passes(q: QueryModel, r: crate::gitrepo::RepoModel) -> bool {
    &&& (q.status_filters.len() == 0 || q.status_filters.contains(r.status))
    &&& (forall|k: int|
        0 <= k < q.residual_terms.len() ==> term_matches(
            if q.use_path_search {
                spec_display_path(r.path)
            } else {
                r.name
            },
            #[trigger] q.residual_terms[k],
            q.use_match_case,
        ))
}

/// Whether one repository passes the query.
pub fn repo_passes(q: &FilterQuery, repo: &GitRepo) -> (b: bool)
    ensures
        b == spec_repo_passes(q@, repo@),
{
    let mut status_ok = q.status_filters.len() == 0;
    let mut k: usize = 0;
    while k < q.status_filters.len()
        invariant
            k <= q.status_filters@.len(),
            status_ok == (q.status_filters@.len() == 0 || exists|x: int|
                0 <= x < k && q.status_filters@[x] == repo.status),
        decreases q.status_filters@.len() - k,
    {
        if q.status_filters[k] == repo.status {
            status_ok = true;
        }
        k = k + 1;
    }
    if !status_ok {
        return false;
    }
    let field: String = if q.use_path_search {
        display_path(repo.path.as_str())
    } else {
        repo.name.clone()
    };
    let field_chars = str_to_chars(field.as_str());
    let field_folded = str_to_chars(lowercase(field.as_str()).as_str());
    let mut t: usize = 0;
    while t < q.residual_terms.len()
        invariant
            t <= q.residual_terms@.len(),
            field@ == if q@.use_path_search {
                spec_display_path(repo@.path)
            } else {
                repo@.name
            },
            field_chars@ == field@,
            field_folded@ == lower_of(field@),
            forall|x: int|
                0 <= x < t ==> term_matches(
                    field@,
                    #[trigger] q.residual_terms.deep_view()[x],
                    q.use_match_case,
                ),
        decreases q.residual_terms@.len() - t,
    {
        let term = &q.residual_terms[t];
        proof {
            assert(term@ == q.residual_terms.deep_view()[t as int]);
        }
        let ok = if q.use_match_case {
            contains_chars(&field_chars, &str_to_chars(term.as_str()))
        } else {
            contains_chars(&field_folded, &str_to_chars(lowercase(term.as_str()).as_str()))
        };
        if !ok {
            proof {
                assert(!term_matches(field@, q@.residual_terms[t as int], q.use_match_case));
            }
            return false;
        }
        t = t + 1;
    }
    true
}

/// One row of the filtered view.
#[verifier::ext_equal]
pub ghost struct ShowModel {
    pub index: int,
    pub name: Seq<char>,
    pub display_path: Seq<char>,
    pub status: GitStatus,
}

/// One row of the filtered view: the repository's position in the full
/// list (so a selection can reach back to it), with what the view
/// shows.
#[derive(Debug)]
pub struct ShowRepo {
    pub index: usize,
    pub name: String,
    pub display_path: String,
    pub status: GitStatus,
}

impl View for ShowRepo {
    type V = ShowModel;

    open spec fn view(&self) -> ShowModel {
        ShowModel {
            index: self.index as int,
            name: self.name@,
            display_path: self.display_path@,
            status: self.status,
        }
    }
}

impl DeepView for ShowRepo {
    type V = ShowModel;

    open spec fn deep_view(&self) -> ShowModel {
        self@
    }
}

/// The rows that a query keeps, in list order, each carrying its index
/// in the full list.
pub open spec fn spec_show_repos(rs: Seq<GitRepo>, q: QueryModel) -> Seq<ShowModel>
    decreases rs.len(),
{
    if rs.len() == 0 {
        Seq::empty()
    } else {
        spec_show_repos(rs.drop_last(), q) + if spec_repo_passes(q, rs.last()@) {
            seq![
                ShowModel {
                    index: rs.len() - 1,
                    name: rs.last()@.name,
                    display_path: spec_display_path(rs.last()@.path),
                    status: rs.last()@.status,
                },
            ]
        } else {
            Seq::empty()
        }
    }
}

/// Filter the repository list by a filter input: parse the input and
/// keep exactly the rows that pass, in order.
pub fn update_show_repos(repos: &Vec<GitRepo>, input: &str) -> (r: Vec<ShowRepo>)
    ensures
        r.deep_view() == spec_show_repos(repos@, spec_parse_query(input@)),
{
    let q = FilterQuery::parse(input);
    let mut r: Vec<ShowRepo> = Vec::new();
    let mut i: usize = 0;
    proof {
        assert(repos@.subrange(0, 0) =~= Seq::<GitRepo>::empty());
        assert(r.deep_view() =~= spec_show_repos(repos@.subrange(0, 0), q@));
    }
    while i < repos.len()
        invariant
            i <= repos@.len(),
            q@ == spec_parse_query(input@),
            r.deep_view() == spec_show_repos(repos@.subrange(0, i as int), q@),
        decreases repos@.len() - i,
    {
        let repo = &repos[i];
        proof {
            assert(repos@.subrange(0, i + 1).drop_last() =~= repos@.subrange(0, i as int));
            assert(repos@.subrange(0, i + 1).last() == repos@[i as int]);
        }
        let ghost rows_before = r.deep_view();
        if repo_passes(&q, repo) {
            let row = ShowRepo {
                index: i,
                name: repo.name.clone(),
                display_path: display_path(repo.path.as_str()),
                status: repo.status,
            };
            r.push(row);
            proof {
                assert(r.deep_view() =~~= spec_show_repos(repos@.subrange(0, i + 1), q@));
            }
        } else {
            proof {
                assert(r.deep_view() =~~= spec_show_repos(repos@.subrange(0, i + 1), q@));
            }
        }
        i = i + 1;
    }
    proof {
        assert(repos@.subrange(0, repos@.len() as int) =~= repos@);
    }
    r
}

} // verus!
