//! Repository discovery: the search command handed to the filesystem
//! search tool, and the parsing of its output. The tool prints one
//! matched control directory per line; each repository root is the
//! parent of such a line.
use vstd::prelude::*;

use crate::gitrepo::copy_range;
use crate::gitrepo::segment_bounds;
use crate::gitrepo::strip_trailing_slashes;
use crate::gitrepo::suffix_after_last_slash;
use crate::text::str_to_chars;
use crate::text::chars_to_string;
use crate::text::split_at_char;
use crate::text::split_chars;

verus! {

/// The shell command that lists version-control directories under
/// `search_path`: hidden traversal on, directories only, dot-prefixed
/// names ending in `git`, with administrative and cache trees ignored.
pub fn search_command(search_path: &str) -> (cmd: String)
    ensures
        cmd@ == "fd -I -t d -H -E .cache -E .local -E .cargo -E clasp '^\\..*git$' "@
            + search_path@,
{
    let mut cmd = String::from_str("fd -I -t d -H -E .cache -E .local -E .cargo -E clasp '^\\..*git$' ");
    cmd.append(search_path);
    cmd
}

/// The parent of path `p`: the path with its final segment removed, in
/// the manner of the standard path type — trailing slashes are ignored,
/// the parent of a top-level relative name is the empty path, the parent
/// of an absolute top-level name is the root, and the root and the empty
/// path have no parent.
pub open spec fn spec_parent(p: Seq<char>) -> Option<Seq<char>> {
    let t = strip_trailing_slashes(p);
    if t.len() == 0 {
        None
    } else {
        let seg = suffix_after_last_slash(t);
        let pre = t.subrange(0, t.len() - seg.len());
        let q = strip_trailing_slashes(pre);
        if q.len() > 0 {
            Some(q)
        } else if pre.len() > 0 {
            Some("/"@)
        } else {
            Some(Seq::<char>::empty())
        }
    }
}

/// The repository roots denoted by a list of matched lines: the parent
/// of every line that has one, in order.
pub open spec fn spec_parents(lines: Seq<Seq<char>>) -> Seq<Seq<char>>
    decreases lines.len(),
{
    if lines.len() == 0 {
        Seq::empty()
    } else {
        spec_parents(lines.drop_last()) + match spec_parent(lines.last()) {
            Some(p) => seq![p],
            None => Seq::empty(),
        }
    }
}

/// What `search_all_git_path` returns for the search tool's output.
pub open spec fn spec_search_paths(out: Seq<char>) -> Seq<Seq<char>> {
    spec_parents(split_at_char(out, '\n'))
}

/// A suffix of `suffix_after_last_slash` is never longer than its input.
proof fn lemma_suffix_len(t: Seq<char>)
    ensures
        suffix_after_last_slash(t).len() <= t.len(),
    decreases t.len(),
{
    if t.len() > 0 && t.last() != '/' {
        lemma_suffix_len(t.drop_last());
    }
}

/// The parent of one line, or nothing when the line has none.
fn parent_chars(cs: &Vec<char>) -> (r: Option<Vec<char>>)
    ensures
        match r {
            Some(v) => spec_parent(cs@) == Some(v@),
            None => spec_parent(cs@) is None,
        },
{
    let (start, end) = segment_bounds(cs);
    if end == 0 {
        proof {
            assert(strip_trailing_slashes(cs@) =~= Seq::<char>::empty());
        }
        return None;
    }
    let ghost t = strip_trailing_slashes(cs@);
    let ghost seg = suffix_after_last_slash(t);
    proof {
        lemma_suffix_len(t);
        assert(t.len() == end);
        assert(seg.len() == end - start);
        assert(t.subrange(0, t.len() - seg.len()) =~= cs@.subrange(0, start as int));
    }
    // `start..end` is the final segment; `0..start` is the prefix before it.
    let mut cut: usize = start;
    while cut > 0 && cs[cut - 1] == '/'
        invariant
            cut <= start <= cs@.len(),
            strip_trailing_slashes(cs@.subrange(0, start as int)) == strip_trailing_slashes(
                cs@.subrange(0, cut as int),
            ),
        decreases cut,
    {
        proof {
            assert(cs@.subrange(0, cut as int).drop_last() =~= cs@.subrange(0, cut - 1));
        }
        cut = cut - 1;
    }
    proof {
        assert(strip_trailing_slashes(cs@.subrange(0, cut as int)) == cs@.subrange(0, cut as int));
    }
    if cut > 0 {
        Some(copy_range(cs, 0, cut))
    } else if start > 0 {
        let root = str_to_chars("/");
        Some(root)
    } else {
        proof {
            assert(cs@.subrange(0, 0) =~= Seq::<char>::empty());
        }
        Some(Vec::new())
    }
}

/// Parse the search tool's output into repository root paths: one
/// candidate per printed control directory, namely its parent, in the
/// order printed. Lines without a parent (blank lines, the root) are
/// dropped. The caller obtains the output by running `search_command`.
pub fn search_all_git_path(find_res: &str) -> (r: Vec<String>)
    ensures
        r.deep_view() == spec_search_paths(find_res@),
{
    let cs = str_to_chars(find_res);
    let lines = split_chars(&cs, '\n');
    let mut out: Vec<String> = Vec::new();
    let mut i: usize = 0;
    proof {
        assert(lines.deep_view().subrange(0, 0) =~= Seq::<Seq<char>>::empty());
        assert(out.deep_view() =~~= spec_parents(lines.deep_view().subrange(0, 0)));
    }
    while i < lines.len()
        invariant
            i <= lines@.len(),
            lines@.len() == lines.deep_view().len(),
            lines.deep_view() == split_at_char(cs@, '\n'),
            out.deep_view() == spec_parents(lines.deep_view().subrange(0, i as int)),
        decreases lines@.len() - i,
    {
        let ghost lv = lines.deep_view();
        proof {
            assert(lv.subrange(0, i + 1).drop_last() =~= lv.subrange(0, i as int));
            assert(lv.subrange(0, i + 1).last() == lv[i as int]);
            assert(lines[i as int]@ == lv[i as int]);
        }
        match parent_chars(&lines[i]) {
            Some(p) => {
                let s = chars_to_string(&p);
                out.push(s);
                proof {
                    assert(out.deep_view() =~~= spec_parents(lv.subrange(0, i + 1)));
                }
            },
            None => {
                proof {
                    assert(out.deep_view() =~~= spec_parents(lv.subrange(0, i + 1)));
                }
            },
        }
        i = i + 1;
    }
    proof {
        assert(lines.deep_view().subrange(0, lines.deep_view().len() as int) =~= lines.deep_view());
    }
    out
}

} // verus!
