//! The `GitRepo` record: one discovered repository with its classification
//! and the time of its newest commit, plus the pure pieces of the probe
//! pipeline that builds such records (naming, probe commands, and parsing
//! of the commit-time probe's output).
use vstd::prelude::*;

use crate::digits::all_digits;
use crate::digits::digits_val;
use crate::digits::is_digit;
use crate::digits::lemma_digits_val_nonneg;
use crate::digits::lemma_digits_val_prefix_le;
use crate::status::GitStatus;
use crate::text::str_to_chars;
use crate::text::chars_to_string;
use crate::utils::GitError;
use crate::utils::ba_error;

verus! {

/// One repository as held in the result set and in the persisted cache.
/// `path` is the identity and merge key; `name` is the final path segment;
/// `last_commit_time` is a Unix timestamp, 0 when there are no commits.
#[derive(Debug, Clone, PartialEq)]
pub struct GitRepo {
    pub name: String,
    pub path: String,
    pub status: GitStatus,
    pub last_commit_time: u64,
}

/// The mathematical content of a `GitRepo`.
pub ghost struct RepoModel {
    pub name: Seq<char>,
    pub path: Seq<char>,
    pub status: GitStatus,
    pub last_commit_time: u64,
}

impl View for GitRepo {
    type V = RepoModel;

    open spec fn view(&self) -> RepoModel {
        RepoModel {
            name: self.name@,
            path: self.path@,
            status: self.status,
            last_commit_time: self.last_commit_time,
        }
    }
}

/// `p` with every trailing `/` removed.
pub open spec fn strip_trailing_slashes(p: Seq<char>) -> Seq<char>
    decreases p.len(),
{
    if p.len() > 0 && p.last() == '/' {
        strip_trailing_slashes(p.drop_last())
    } else {
        p
    }
}

/// The suffix of `p` after its last `/`; all of `p` when it has none.
pub open spec fn suffix_after_last_slash(p: Seq<char>) -> Seq<char>
    decreases p.len(),
{
    if p.len() == 0 {
        p
    } else if p.last() == '/' {
        Seq::empty()
    } else {
        suffix_after_last_slash(p.drop_last()).push(p.last())
    }
}

/// The final path segment, ignoring trailing slashes: the name a repository
/// at `p` goes by.
pub open spec fn spec_repo_name(p: Seq<char>) -> Seq<char> {
    suffix_after_last_slash(strip_trailing_slashes(p))
}

/// Copy the characters `from..to` of `cs` into a fresh vector.
pub(crate) fn copy_range(cs: &Vec<char>, from: usize, to: usize) -> (out: Vec<char>)
    requires
        from <= to <= cs@.len(),
    ensures
        out@ == cs@.subrange(from as int, to as int),
{
    let mut out: Vec<char> = Vec::new();
    let mut i: usize = from;
    while i < to
        invariant
            from <= i <= to <= cs@.len(),
            out@ == cs@.subrange(from as int, i as int),
        decreases to - i,
    {
        out.push(cs[i]);
        proof {
            assert(out@ =~= cs@.subrange(from as int, i + 1));
        }
        i = i + 1;
    }
    proof {
        assert(out@ =~= cs@.subrange(from as int, to as int));
    }
    out
}

/// Find the bounds of the final path segment of `cs`: `0..end` is the
/// path with its trailing slashes stripped, and `start..end` is the
/// suffix of the stripped path after its last slash.
pub(crate) fn segment_bounds(cs: &Vec<char>) -> (r: (usize, usize))
    ensures
        r.0 <= r.1 <= cs@.len(),
        cs@.subrange(0, r.1 as int) == strip_trailing_slashes(cs@),
        cs@.subrange(r.0 as int, r.1 as int) == suffix_after_last_slash(strip_trailing_slashes(cs@)),
        r.0 > 0 ==> cs@[r.0 - 1] == '/',
{
    let mut end: usize = cs.len();
    proof {
        assert(cs@.subrange(0, end as int) =~= cs@);
    }
    while end > 0 && cs[end - 1] == '/'
        invariant
            end <= cs@.len(),
            strip_trailing_slashes(cs@) == strip_trailing_slashes(cs@.subrange(0, end as int)),
        decreases end,
    {
        proof {
            assert(cs@.subrange(0, end as int).drop_last() =~= cs@.subrange(0, end - 1));
        }
        end = end - 1;
    }
    let ghost stripped = cs@.subrange(0, end as int);
    proof {
        assert(strip_trailing_slashes(stripped) == stripped);
    }
    let mut start: usize = end;
    while start > 0 && cs[start - 1] != '/'
        invariant
            start <= end <= cs@.len(),
            stripped == cs@.subrange(0, end as int),
            suffix_after_last_slash(stripped) == suffix_after_last_slash(
                cs@.subrange(0, start as int),
            ) + cs@.subrange(start as int, end as int),
        decreases start,
    {
        proof {
            assert(cs@.subrange(0, start as int).drop_last() =~= cs@.subrange(0, start - 1));
            assert(suffix_after_last_slash(cs@.subrange(0, start - 1)).push(cs@[start - 1])
                + cs@.subrange(start as int, end as int) =~= suffix_after_last_slash(
                cs@.subrange(0, start - 1),
            ) + cs@.subrange(start - 1, end as int));
        }
        start = start - 1;
    }
    proof {
        if start > 0 {
            assert(cs@.subrange(0, start as int).last() == '/');
            assert(suffix_after_last_slash(cs@.subrange(0, start as int)) =~= Seq::<char>::empty());
        } else {
            assert(cs@.subrange(0, 0) =~= Seq::<char>::empty());
            assert(suffix_after_last_slash(Seq::<char>::empty()) =~= Seq::<char>::empty());
        }
        assert(suffix_after_last_slash(stripped) =~= cs@.subrange(start as int, end as int));
    }
    (start, end)
}

/// The final segment of `path`, ignoring trailing slashes.
pub fn name_of_path(path: &str) -> (r: String)
    ensures
        r@ == spec_repo_name(path@),
{
    let cs = str_to_chars(path);
    let (start, end) = segment_bounds(&cs);
    let out = copy_range(&cs, start, end);
    chars_to_string(&out)
}

/// `c` is blank for the purpose of trimming probe output.
pub open spec fn is_space(c: char) -> bool {
    c == ' ' || c == '\n' || c == '\t' || c == '\r'
}

/// `s` without leading blanks.
pub open spec fn trim_front(s: Seq<char>) -> Seq<char>
    decreases s.len(),
{
    if s.len() > 0 && is_space(s[0]) {
        trim_front(s.drop_first())
    } else {
        s
    }
}

/// `s` without trailing blanks.
pub open spec fn trim_back(s: Seq<char>) -> Seq<char>
    decreases s.len(),
{
    if s.len() > 0 && is_space(s.last()) {
        trim_back(s.drop_last())
    } else {
        s
    }
}

/// `s` without leading and trailing blanks.
pub open spec fn spec_trim(s: Seq<char>) -> Seq<char> {
    trim_back(trim_front(s))
}

/// What the commit-time probe's output denotes: 0 when blank (a repository
/// with no commits prints nothing), the denoted number when the trimmed
/// output is a run of digits that fits a `u64`, and nothing otherwise.
pub open spec fn spec_parse_commit_time(out: Seq<char>) -> Option<u64> {
    let t = spec_trim(out);
    if t.len() == 0 {
        Some(0u64)
    } else if all_digits(t) && digits_val(t) <= u64::MAX {
        Some(digits_val(t) as u64)
    } else {
        None
    }
}

/// `c` is blank, executably.
fn is_space_exec(c: char) -> (r: bool)
    ensures
        r == is_space(c),
{
    c == ' ' || c == '\n' || c == '\t' || c == '\r'
}

/// The bounds of `cs` with leading and trailing blanks stripped:
/// `a..b` is exactly `spec_trim` of the characters.
pub(crate) fn trim_bounds(cs: &Vec<char>) -> (r: (usize, usize))
    ensures
        r.0 <= r.1 <= cs@.len(),
        cs@.subrange(r.0 as int, r.1 as int) == spec_trim(cs@),
{
    let n = cs.len();
    proof {
        assert(cs@.subrange(0, n as int) =~= cs@);
    }
    let mut a: usize = 0;
    while a < n && is_space_exec(cs[a])
        invariant
            a <= n,
            n == cs@.len(),
            trim_front(cs@) == trim_front(cs@.subrange(a as int, n as int)),
        decreases n - a,
    {
        proof {
            assert(cs@.subrange(a as int, n as int).drop_first() =~= cs@.subrange(a + 1, n as int));
        }
        a = a + 1;
    }
    proof {
        assert(trim_front(cs@) == cs@.subrange(a as int, n as int));
    }
    let mut b: usize = n;
    while b > a && is_space_exec(cs[b - 1])
        invariant
            a <= b <= n,
            n == cs@.len(),
            trim_front(cs@) == cs@.subrange(a as int, n as int),
            trim_back(cs@.subrange(a as int, n as int)) == trim_back(
                cs@.subrange(a as int, b as int),
            ),
        decreases b,
    {
        proof {
            assert(cs@.subrange(a as int, b as int).drop_last() =~= cs@.subrange(a as int, b - 1));
        }
        b = b - 1;
    }
    (a, b)
}

impl GitRepo {
    /// Read the newest commit's Unix timestamp out of the commit-time
    /// probe's output (the caller runs `last_commit_time_command` and hands
    /// the captured text here). Blank output means no commits and yields 0;
    /// output that is not a number is an error, and the repository is
    /// dropped from the cycle by the caller.
    pub fn get_last_commit_time(probe_output: &str) -> (r: Result<u64, GitError>)
        ensures
            match spec_parse_commit_time(probe_output@) {
                Some(v) => r == Ok::<u64, GitError>(v),
                None => r is Err,
            },
    {
        let cs = str_to_chars(probe_output);
        let n = cs.len();
        let (a, b) = trim_bounds(&cs);
        let ghost t = cs@.subrange(a as int, b as int);
        if a == b {
            proof {
                assert(t.len() == 0);
            }
            return Ok(0);
        }
        let mut acc: u64 = 0;
        let mut j: usize = a;
        while j < b
            invariant
                a <= j <= b <= n,
                n == cs@.len(),
                a < b,
                cs@ == probe_output@,
                t == cs@.subrange(a as int, b as int),
                t == spec_trim(probe_output@),
                all_digits(t.subrange(0, j - a)),
                acc == digits_val(t.subrange(0, j - a)),
            decreases b - j,
        {
            let c = cs[j];
            let code = #[verifier::truncate] (c as u32);
            if !(48 <= code && code <= 57) {
                proof {
                    assert(t[j - a] == c);
                    assert(!is_digit(t[j - a]));
                }
                return Err(ba_error("malformed commit time"));
            }
            let d = (code - 48) as u64;
            let wide: u128 = (acc as u128) * 10 + (d as u128);
            if wide > 0xffff_ffff_ffff_ffffu128 {
                proof {
                    assert(t.subrange(0, j - a + 1).drop_last() =~= t.subrange(0, j - a));
                    assert(t.subrange(0, j - a + 1).last() == t[j - a]);
                    assert(digits_val(t.subrange(0, j - a + 1)) == wide);
                    lemma_digits_val_prefix_le(t, j - a + 1);
                    assert(digits_val(t) > u64::MAX);
                }
                return Err(ba_error("commit time out of range"));
            }
            acc = wide as u64;
            proof {
                assert(t.subrange(0, j - a + 1).drop_last() =~= t.subrange(0, j - a));
                assert(t.subrange(0, j - a + 1).last() == t[j - a]);
            }
            j = j + 1;
        }
        proof {
            assert(t.subrange(0, b - a) =~= t);
            lemma_digits_val_nonneg(t);
        }
        Ok(acc)
    }
}

/// The shell command whose output `GitRepo::get_last_commit_time` reads:
/// the newest commit's timestamp, one line, blank when there is none.
pub fn last_commit_time_command(path: &str) -> (cmd: String)
    ensures
        cmd@ == "cd "@ + path@ + " && git show --pretty=format:'%ct' | head -1"@,
{
    let mut cmd = String::from_str("cd ");
    cmd.append(path);
    cmd.append(" && git show --pretty=format:'%ct' | head -1");
    cmd
}

} // verus!
