//! The fuzzy completion scorer behind the filter input: when the user
//! types a `+`-prefixed token, the fixed vocabulary of filter keywords
//! is scored against it by greedy, case-folded subsequence matching,
//! and the matches are offered ranked by score, ties in vocabulary
//! order.
use vstd::prelude::*;

use crate::text::spec_fold_char;
use crate::text::fold_char;
use crate::text::str_to_chars;
use crate::text::chars_to_string;
use crate::text::split_at_char;
use crate::text::split_chars;
use crate::gitrepo::copy_range;

verus! {

/// The first position at or after `pos` whose folded character matches
/// the folded `c`.
pub open spec fn find_from(cand: Seq<char>, pos: int, c: char) -> Option<int>
    decreases cand.len() - pos,
{
    if pos < 0 || pos >= cand.len() {
        None
    } else if spec_fold_char(cand[pos]) == spec_fold_char(c) {
        Some(pos)
    } else {
        find_from(cand, pos + 1, c)
    }
}

/// What one matched character is worth: a position weight that favours
/// early matches, plus 2 when the match preserved the candidate's case
/// and 1 otherwise.
pub open spec fn match_bonus(cand: Seq<char>, k: int, c: char) -> int {
    (cand.len() - k + 1) / (cand.len() as int) + if cand[k] == c {
        2int
    } else {
        1int
    }
}

/// The total score of matching `q[qi..]` against `cand` from `pos` on,
/// greedily; nothing when some query character has no further match.
pub open spec fn score_from(q: Seq<char>, cand: Seq<char>, qi: int, pos: int) -> Option<int>
    decreases q.len() - qi,
{
    if qi < 0 || qi >= q.len() {
        Some(0int)
    } else {
        match find_from(cand, pos, q[qi]) {
            None => None,
            Some(k) => match score_from(q, cand, qi + 1, k + 1) {
                None => None,
                Some(rest) => Some(match_bonus(cand, k, q[qi]) + rest),
            },
        }
    }
}

/// The score of a candidate for a query: 1 for the empty query (every
/// keyword is offered), 0 when the query is no subsequence of the
/// candidate, and the summed bonuses otherwise.
pub open spec fn spec_score(q: Seq<char>, cand: Seq<char>) -> int {
    if q.len() == 0 {
        1int
    } else {
        match score_from(q, cand, 0, 0) {
            None => 0int,
            Some(s) => s,
        }
    }
}

/// `spec_score` clamped to what the score field carries.
pub open spec fn spec_capped_score(q: Seq<char>, cand: Seq<char>) -> int {
    if spec_score(q, cand) > u16::MAX {
        u16::MAX as int
    } else {
        spec_score(q, cand)
    }
}

/// The first position at or after `pos` whose folded character matches
/// the folded `c`.
fn find_char_from(cand: &Vec<char>, pos: usize, c: char) -> (r: Option<usize>)
    requires
        pos <= cand@.len(),
    ensures
        match r {
            Some(k) => find_from(cand@, pos as int, c) == Some(k as int) && pos <= k
                < cand@.len(),
            None => find_from(cand@, pos as int, c) is None,
        },
{
    let fc = fold_char(c);
    let mut k: usize = pos;
    while k < cand.len()
        invariant
            pos <= k <= cand@.len(),
            fc == spec_fold_char(c),
            find_from(cand@, pos as int, c) == find_from(cand@, k as int, c),
        decreases cand@.len() - k,
    {
        if fold_char(cand[k]) == fc {
            return Some(k);
        }
        k = k + 1;
    }
    None
}

/// Score one vocabulary candidate against the typed fragment: 0 means
/// no match (the candidate is not offered), larger is better, and
/// scores beyond the field's range saturate.
pub fn calc_item_score(input: &str, item: &str) -> (r: u16)
    ensures
        r as int == spec_capped_score(input@, item@),
{
    let q = str_to_chars(input);
    let cand = str_to_chars(item);
    let qn = q.len();
    if qn == 0 {
        return 1;
    }
    let mut acc: u128 = 0;
    let mut qi: usize = 0;
    let mut pos: usize = 0;
    while qi < qn
        invariant
            qi <= qn,
            qn == q@.len(),
            q@ == input@,
            cand@ == item@,
            pos <= cand@.len(),
            acc <= 4 * qi,
            score_from(q@, cand@, qi as int, pos as int) matches Some(s) ==> score_from(
                q@,
                cand@,
                0,
                0,
            ) == Some(acc + s),
            score_from(q@, cand@, qi as int, pos as int) is None ==> score_from(
                q@,
                cand@,
                0,
                0,
            ) is None,
        decreases qn - qi,
    {
        let c = q[qi];
        match find_char_from(&cand, pos, c) {
            None => {
                return 0;
            },
            Some(k) => {
                let cl = cand.len();
                let weight = ((cl as u128) - (k as u128) + 1) / (cl as u128);
                let case_bonus: u128 = if cand[k] == c {
                    2
                } else {
                    1
                };
                proof {
                    assert(weight + case_bonus == match_bonus(cand@, k as int, c));
                    assert(((cl as int) - (k as int) + 1) / (cl as int) <= 2) by (nonlinear_arith)
                        requires
                            cl as int >= 1,
                            0 <= k as int,
                    ;
                }
                acc = acc + weight + case_bonus;
                pos = k + 1;
            },
        }
        qi = qi + 1;
    }
    proof {
        assert(score_from(q@, cand@, qn as int, pos as int) == Some(0int));
        assert(score_from(q@, cand@, 0, 0) == Some(acc as int));
    }
    if acc > 0xffff {
        u16::MAX
    } else {
        acc as u16
    }
}

/// One completion candidate: a vocabulary keyword and its score.
#[derive(Debug, Clone)]
pub struct CompletionItem {
    pub score: u16,
    pub text: String,
}

/// The mathematical content of a completion candidate.
#[verifier::ext_equal]
pub ghost struct ItemModel {
    pub score: u16,
    pub text: Seq<char>,
}

impl View for CompletionItem {
    type V = ItemModel;

    open spec fn view(&self) -> ItemModel {
        ItemModel { score: self.score, text: self.text@ }
    }
}

impl DeepView for CompletionItem {
    type V = ItemModel;

    open spec fn deep_view(&self) -> ItemModel {
        self@
    }
}

/// The fixed vocabulary of filter keywords, in discovery order.
pub open spec fn vocab() -> Seq<Seq<char>> {
    seq!["path"@, "match_case"@, "NeedPull"@, "Clean"@, "NeedPush"@, "NeedCommit"@, "Timeout"@]
}

/// Where a new candidate of score `sc` lands in a ranked list: after
/// every at-least-as-good candidate, so ties keep their earlier order.
pub open spec fn insert_pos(s: Seq<ItemModel>, sc: u16) -> int
    decreases s.len(),
{
    if s.len() == 0 {
        0int
    } else if s[0].score >= sc {
        1 + insert_pos(s.drop_first(), sc)
    } else {
        0int
    }
}

/// A ranked list with one more candidate in its place.
pub open spec fn rank_insert(s: Seq<ItemModel>, it: ItemModel) -> Seq<ItemModel> {
    s.insert(insert_pos(s, it.score), it)
}

/// The ranked completions for a typed fragment, after the first `i`
/// vocabulary words: every word with a positive score, ranked.
pub open spec fn spec_completions_upto(tok: Seq<char>, i: int) -> Seq<ItemModel>
    decreases i,
{
    if i <= 0 {
        Seq::empty()
    } else {
        let prev = spec_completions_upto(tok, i - 1);
        let sc = spec_capped_score(tok, vocab()[i - 1]);
        if sc == 0 {
            prev
        } else {
            rank_insert(prev, ItemModel { score: sc as u16, text: vocab()[i - 1] })
        }
    }
}

/// The ranked completions for a typed fragment.
pub open spec fn spec_completions(tok: Seq<char>) -> Seq<ItemModel> {
    spec_completions_upto(tok, 7)
}

/// The fragment that completion works on: the last space-separated
/// token of the input with its leading `+` stripped — or nothing, when
/// the input is empty, ends in a space, or its last token carries no
/// `+`.
pub open spec fn spec_completion_token(input: Seq<char>) -> Option<Seq<char>> {
    if input.len() == 0 {
        None
    } else if input.last() == ' ' {
        None
    } else {
        let toks = split_at_char(input, ' ');
        let lt = toks.last();
        if lt.len() > 0 && lt[0] == '+' {
            Some(lt.subrange(1, lt.len() as int))
        } else {
            None
        }
    }
}

/// `insert_pos` is where the scan for the first worse candidate stops.
proof fn lemma_insert_pos_at(s: Seq<ItemModel>, sc: u16, idx: int)
    requires
        0 <= idx <= s.len(),
        forall|j: int| 0 <= j < idx ==> (#[trigger] s[j]).score >= sc,
        idx == s.len() || s[idx].score < sc,
    ensures
        insert_pos(s, sc) == idx,
    decreases idx,
{
    if idx == 0 {
    } else {
        assert(s[0].score >= sc);
        let t = s.drop_first();
        assert forall|j: int| 0 <= j < idx - 1 implies (#[trigger] t[j]).score >= sc by {
            assert(t[j] == s[j + 1]);
        }
        if idx - 1 < t.len() {
            assert(t[idx - 1] == s[idx]);
        }
        lemma_insert_pos_at(t, sc, idx - 1);
    }
}

/// Put one candidate into a ranked list, keeping the ranking and the
/// earlier order among equal scores.
fn rank_insert_exec(v: &mut Vec<CompletionItem>, it: CompletionItem)
    ensures
        final (v).deep_view() == rank_insert(old(v).deep_view(), it@),
{
    let ghost s = v.deep_view();
    let mut idx: usize = 0;
    while idx < v.len() && v[idx].score >= it.score
        invariant
            idx <= v@.len(),
            s == v.deep_view(),
            v@.len() == s.len(),
            forall|j: int| 0 <= j < idx ==> (#[trigger] s[j]).score >= it@.score,
        decreases v@.len() - idx,
    {
        idx = idx + 1;
    }
    proof {
        lemma_insert_pos_at(s, it@.score, idx as int);
    }
    v.insert(idx, it);
    proof {
        assert(v.deep_view() =~~= rank_insert(s, it@));
    }
}

/// The ranked completion list for the current filter input: empty
/// unless the user is in the middle of a `+` token, else every
/// vocabulary keyword that matches the typed fragment, best first,
/// ties in vocabulary order.
pub fn update_complection(input: &str) -> (r: Vec<CompletionItem>)
    ensures
        match spec_completion_token(input@) {
            Some(tok) => r.deep_view() == spec_completions(tok),
            None => r@.len() == 0,
        },
{
    let out: Vec<CompletionItem> = Vec::new();
    if input.is_empty() {
        return out;
    }
    let cs = str_to_chars(input);
    let n = cs.len();
    if cs[n - 1] == ' ' {
        return out;
    }
    let toks = split_chars(&cs, ' ');
    proof {
        crate::text::lemma_split_nonempty(cs@, ' ');
        assert(toks.deep_view().len() == toks@.len());
    }
    let last = &toks[toks.len() - 1];
    proof {
        assert(last@ == toks.deep_view().last());
    }
    if last.len() == 0 {
        return out;
    }
    if last[0] != '+' {
        return out;
    }
    let frag = copy_range(last, 1, last.len());
    let ghost tok = frag@;
    let frag_str = chars_to_string(&frag);
    let words: Vec<&str> = vec![
        "path",
        "match_case",
        "NeedPull",
        "Clean",
        "NeedPush",
        "NeedCommit",
        "Timeout",
    ];
    proof {
        assert(words@.len() == 7);
        assert(words@[0]@ == vocab()[0]);
        assert(words@[1]@ == vocab()[1]);
        assert(words@[2]@ == vocab()[2]);
        assert(words@[3]@ == vocab()[3]);
        assert(words@[4]@ == vocab()[4]);
        assert(words@[5]@ == vocab()[5]);
        assert(words@[6]@ == vocab()[6]);
    }
    let mut r: Vec<CompletionItem> = out;
    let mut i: usize = 0;
    proof {
        assert(r.deep_view() =~= spec_completions_upto(tok, 0));
    }
    while i < 7
        invariant
            i <= 7,
            words@.len() == 7,
            frag_str@ == tok,
            forall|k: int| 0 <= k < 7 ==> (#[trigger] words@[k])@ == vocab()[k],
            r.deep_view() == spec_completions_upto(tok, i as int),
        decreases 7 - i,
    {
        let sc = calc_item_score(frag_str.as_str(), words[i]);
        if sc != 0 {
            let item = CompletionItem { score: sc, text: String::from_str(words[i]) };
            rank_insert_exec(&mut r, item);
        }
        i = i + 1;
    }
    r
}

} // verus!
