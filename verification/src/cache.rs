//! The persisted cache: a byte-exact text format for a list of
//! repositories, with a verified encoder, a verified parser, and the
//! round-trip law that loading what was saved reproduces the list.
//!
//! One record per repository:
//! a 20-digit length and the name, a 20-digit length and the path, the
//! status's canonical name closed by `;`, the 20-digit commit time, and a
//! closing newline. Fixed-width numbers and length-prefixed strings make
//! the format unambiguous whatever characters a path contains. The file
//! is read and written by the caller; a file that does not parse is
//! treated as no cache at all.
use vstd::prelude::*;

use crate::digits::dec_digits;
use crate::digits::lemma_dec_digits_len;
use crate::digits::lemma_dec_digits_round_trip;
use crate::digits::lemma_u64_fits_20_digits;
use crate::digits::spec_parse20;
use crate::digits::parse20;
use crate::digits::to_dec20;
use crate::gitrepo::GitRepo;
use crate::gitrepo::RepoModel;
use crate::gitrepo::copy_range;
use crate::status::GitStatus;
use crate::status::spec_status_name;
use crate::status::spec_status_from_name;
use crate::status::lemma_status_name_round_trip;
use crate::text::str_to_chars;
use crate::text::chars_to_string;

verus! {

/// The models of a list of repositories.
pub open spec fn models_of(rs: Seq<GitRepo>) -> Seq<RepoModel> {
    rs.map_values(|r: GitRepo| r@)
}

/// A model whose string lengths the 20-digit length fields can carry.
/// Every model of an in-memory `GitRepo` satisfies this.
pub open spec fn wf_model(m: RepoModel) -> bool {
    m.name.len() <= u64::MAX && m.path.len() <= u64::MAX
}

/// All models of the list are well-formed.
pub open spec fn wf_models(ms: Seq<RepoModel>) -> bool {
    forall|k: int| 0 <= k < ms.len() ==> wf_model(#[trigger] ms[k])
}

/// A length-prefixed string field: 20 digits of length, then the text.
pub open spec fn enc_str(s: Seq<char>) -> Seq<char> {
    dec_digits(s.len() as int, 20) + s
}

/// One encoded record.
pub open spec fn enc_repo(m: RepoModel) -> Seq<char> {
    enc_str(m.name) + enc_str(m.path) + spec_status_name(m.status) + seq![';'] + dec_digits(
        m.last_commit_time as int,
        20,
    ) + seq!['\n']
}

/// The encoded cache: the records in order, nothing else.
pub open spec fn enc_repos(ms: Seq<RepoModel>) -> Seq<char>
    decreases ms.len(),
{
    if ms.len() == 0 {
        Seq::empty()
    } else {
        enc_repo(ms[0]) + enc_repos(ms.drop_first())
    }
}

/// Appending one model to the list appends its record to the encoding.
pub proof fn lemma_enc_repos_push(ms: Seq<RepoModel>, m: RepoModel)
    ensures
        enc_repos(ms.push(m)) == enc_repos(ms) + enc_repo(m),
    decreases ms.len(),
{
    if ms.len() == 0 {
        assert(ms.push(m)[0] == m);
        assert(ms.push(m).drop_first() =~= Seq::<RepoModel>::empty());
        assert(enc_repos(ms.push(m)) == enc_repo(m) + enc_repos(Seq::<RepoModel>::empty()));
        assert(enc_repo(m) + Seq::<char>::empty() =~= enc_repo(m));
        assert(enc_repos(ms) + enc_repo(m) =~= enc_repo(m));
    } else {
        assert(ms.push(m).drop_first() =~= ms.drop_first().push(m));
        lemma_enc_repos_push(ms.drop_first(), m);
        assert(enc_repos(ms.push(m)) == enc_repo(ms[0]) + (enc_repos(ms.drop_first()) + enc_repo(
            m,
        )));
        assert(enc_repo(ms[0]) + (enc_repos(ms.drop_first()) + enc_repo(m)) =~= (enc_repo(ms[0])
            + enc_repos(ms.drop_first())) + enc_repo(m));
    }
}

/// The position of the first `;` at or after `i`, if any.
pub open spec fn find_semi(s: Seq<char>, i: int) -> Option<int>
    decreases s.len() - i,
{
    if i < 0 || i >= s.len() {
        None
    } else if s[i] == ';' {
        Some(i)
    } else {
        find_semi(s, i + 1)
    }
}

/// A string field read at `i`: its text and the position after it.
pub open spec fn parse_str_at(s: Seq<char>, i: int) -> Option<(Seq<char>, int)> {
    match spec_parse20(s, i) {
        None => None,
        Some(n) => if i + 20 + n <= s.len() {
            Some((s.subrange(i + 20, i + 20 + n), i + 20 + n))
        } else {
            None
        },
    }
}

/// One record read at `i`: the model and the position after it.
pub open spec fn parse_record(s: Seq<char>, i: int) -> Option<(RepoModel, int)> {
    match parse_str_at(s, i) {
        None => None,
        Some((name, j)) => match parse_str_at(s, j) {
            None => None,
            Some((path, k)) => match find_semi(s, k) {
                None => None,
                Some(e) => match spec_status_from_name(s.subrange(k, e)) {
                    Err(_) => None,
                    Ok(st) => match spec_parse20(s, e + 1) {
                        None => None,
                        Some(t) => if e + 21 < s.len() && s[e + 21] == '\n' {
                            Some(
                                (
                                    RepoModel {
                                        name,
                                        path,
                                        status: st,
                                        last_commit_time: t,
                                    },
                                    e + 22,
                                ),
                            )
                        } else {
                            None
                        },
                    },
                },
            },
        },
    }
}

/// Every record from `i` to the end of `s`; nothing on any malformation.
pub open spec fn parse_records(s: Seq<char>, i: int) -> Option<Seq<RepoModel>>
    decreases s.len() - i,
{
    if i == s.len() {
        Some(Seq::empty())
    } else {
        match parse_record(s, i) {
            None => None,
            Some((m, j)) => if i < j <= s.len() {
                match parse_records(s, j) {
                    None => None,
                    Some(rest) => Some(seq![m] + rest),
                }
            } else {
                None
            },
        }
    }
}

/// No status name contains a `;` (so the `;` closing the status field is
/// the first one the parser meets).
proof fn lemma_status_name_no_semi(st: GitStatus)
    ensures
        forall|x: int|
            0 <= x < spec_status_name(st).len() ==> #[trigger] spec_status_name(st)[x] != ';',
{
    reveal_strlit("Clean");
    reveal_strlit("NeedPull");
    reveal_strlit("NeedPush");
    reveal_strlit("NeedCommit");
    reveal_strlit("Timeout");
    match st {
        GitStatus::Clean => {
            assert(spec_status_name(st) =~= seq!['C', 'l', 'e', 'a', 'n']);
        },
        GitStatus::NeedPull => {
            assert(spec_status_name(st) =~= seq!['N', 'e', 'e', 'd', 'P', 'u', 'l', 'l']);
        },
        GitStatus::NeedPush => {
            assert(spec_status_name(st) =~= seq!['N', 'e', 'e', 'd', 'P', 'u', 's', 'h']);
        },
        GitStatus::NeedCommit => {
            assert(spec_status_name(st) =~= seq!['N', 'e', 'e', 'd', 'C', 'o', 'm', 'm', 'i', 't']);
        },
        GitStatus::Timeout => {
            assert(spec_status_name(st) =~= seq!['T', 'i', 'm', 'e', 'o', 'u', 't']);
        },
    }
}

/// `find_semi` lands on `e` when nothing before it is a `;`.
proof fn lemma_find_semi_at(s: Seq<char>, i: int, e: int)
    requires
        0 <= i <= e < s.len(),
        s[e] == ';',
        forall|x: int| i <= x < e ==> s[x] != ';',
    ensures
        find_semi(s, i) == Some(e),
    decreases e - i,
{
    if i < e {
        lemma_find_semi_at(s, i + 1, e);
    }
}

/// Reading a record out of its own encoding recovers the model and stops
/// exactly at the record's end.
proof fn lemma_parse_record_enc(s: Seq<char>, i: int, m: RepoModel)
    requires
        wf_model(m),
        0 <= i,
        i + enc_repo(m).len() <= s.len(),
        s.subrange(i, i + enc_repo(m).len() as int) == enc_repo(m),
    ensures
        parse_record(s, i) == Some((m, i + enc_repo(m).len() as int)),
{
    lemma_u64_fits_20_digits();
    let ghost e_rec = enc_repo(m);
    let ghost w = spec_status_name(m.status);
    let ghost nl = m.name.len() as int;
    let ghost pl = m.path.len() as int;
    let ghost wl = w.len() as int;
    let ghost ln = e_rec.len() as int;
    lemma_dec_digits_round_trip(nl, 20);
    lemma_dec_digits_round_trip(pl, 20);
    lemma_dec_digits_round_trip(m.last_commit_time as int, 20);
    assert(ln == 20 + nl + 20 + pl + wl + 1 + 20 + 1);
    assert forall|x: int| 0 <= x < ln implies s[i + x] == e_rec[x] by {
        assert(s.subrange(i, i + ln)[x] == s[i + x]);
    }
    // how the record decomposes into its fields
    assert(e_rec.subrange(0, 20) =~= dec_digits(nl, 20));
    assert(e_rec.subrange(20, 20 + nl) =~= m.name);
    assert(e_rec.subrange(20 + nl, 40 + nl) =~= dec_digits(pl, 20));
    assert(e_rec.subrange(40 + nl, 40 + nl + pl) =~= m.path);
    assert(e_rec.subrange(40 + nl + pl, 40 + nl + pl + wl) =~= w);
    assert(e_rec[40 + nl + pl + wl] == ';');
    assert(e_rec.subrange(41 + nl + pl + wl, 61 + nl + pl + wl) =~= dec_digits(
        m.last_commit_time as int,
        20,
    ));
    assert(e_rec[61 + nl + pl + wl] == '\n');
    // the length field and text of the name
    assert(s.subrange(i, i + 20) =~= dec_digits(nl, 20));
    assert(spec_parse20(s, i) == Some(nl as u64));
    assert(s.subrange(i + 20, i + 20 + nl) =~= m.name) by {
        assert forall|x: int| 0 <= x < nl implies s.subrange(i + 20, i + 20 + nl)[x] == m.name[x] by {
            assert(s.subrange(i + 20, i + 20 + nl)[x] == s[i + 20 + x]);
            assert(s[i + (20 + x)] == e_rec[20 + x]);
            assert(e_rec.subrange(20, 20 + nl)[x] == e_rec[20 + x]);
        }
    }
    let ghost j = i + 20 + nl;
    assert(parse_str_at(s, i) == Some((m.name, j)));
    // the length field and text of the path
    assert(s.subrange(j, j + 20) =~= dec_digits(pl, 20)) by {
        assert forall|x: int| 0 <= x < 20 implies s.subrange(j, j + 20)[x] == dec_digits(pl, 20)[x] by {
            assert(s.subrange(j, j + 20)[x] == s[j + x]);
            assert(s[i + (20 + nl + x)] == e_rec[20 + nl + x]);
            assert(e_rec.subrange(20 + nl, 40 + nl)[x] == e_rec[20 + nl + x]);
        }
    }
    assert(spec_parse20(s, j) == Some(pl as u64));
    assert(s.subrange(j + 20, j + 20 + pl) =~= m.path) by {
        assert forall|x: int| 0 <= x < pl implies s.subrange(j + 20, j + 20 + pl)[x] == m.path[x] by {
            assert(s.subrange(j + 20, j + 20 + pl)[x] == s[j + 20 + x]);
            assert(s[i + (40 + nl + x)] == e_rec[40 + nl + x]);
            assert(e_rec.subrange(40 + nl, 40 + nl + pl)[x] == e_rec[40 + nl + x]);
        }
    }
    let ghost k = j + 20 + pl;
    assert(parse_str_at(s, j) == Some((m.path, k)));
    // the status word, closed by the first `;`
    assert(s.subrange(k, k + wl) =~= w) by {
        assert forall|x: int| 0 <= x < wl implies s.subrange(k, k + wl)[x] == w[x] by {
            assert(s.subrange(k, k + wl)[x] == s[k + x]);
            assert(s[i + (40 + nl + pl + x)] == e_rec[40 + nl + pl + x]);
            assert(e_rec.subrange(40 + nl + pl, 40 + nl + pl + wl)[x] == e_rec[40 + nl + pl + x]);
        }
    }
    let ghost e = k + wl;
    assert(s[e] == ';') by {
        assert(s[i + (40 + nl + pl + wl)] == e_rec[40 + nl + pl + wl]);
    }
    lemma_status_name_no_semi(m.status);
    assert forall|x: int| k <= x < e implies s[x] != ';' by {
        assert(s.subrange(k, k + wl)[x - k] == s[k + (x - k)]);
        assert(w[x - k] != ';');
    }
    lemma_find_semi_at(s, k, e);
    assert(find_semi(s, k) == Some(e));
    lemma_status_name_round_trip(m.status);
    assert(spec_status_from_name(s.subrange(k, e)) == Ok::<GitStatus, ()>(m.status));
    // the commit time and the closing newline
    assert(s.subrange(e + 1, e + 21) =~= dec_digits(m.last_commit_time as int, 20)) by {
        assert forall|x: int|
            0 <= x < 20 implies s.subrange(e + 1, e + 21)[x] == dec_digits(
            m.last_commit_time as int,
            20,
        )[x] by {
            assert(s.subrange(e + 1, e + 21)[x] == s[e + 1 + x]);
            assert(s[i + (41 + nl + pl + wl + x)] == e_rec[41 + nl + pl + wl + x]);
            assert(e_rec.subrange(41 + nl + pl + wl, 61 + nl + pl + wl)[x] == e_rec[41 + nl + pl
                + wl + x]);
        }
    }
    assert(spec_parse20(s, e + 1) == Some(m.last_commit_time));
    assert(s[e + 21] == '\n') by {
        assert(s[i + (61 + nl + pl + wl)] == e_rec[61 + nl + pl + wl]);
    }
    assert(e + 22 == i + ln);
}

/// Reading records out of an encoded list recovers the list. This is the
/// round-trip law of the cache: parsing what `enc_repos` produced yields
/// the models that went in, in order.
pub proof fn lemma_parse_records_enc(s: Seq<char>, i: int, ms: Seq<RepoModel>)
    requires
        wf_models(ms),
        0 <= i <= s.len(),
        s.subrange(i, s.len() as int) == enc_repos(ms),
    ensures
        parse_records(s, i) == Some(ms),
    decreases ms.len(),
{
    if ms.len() == 0 {
        assert(s.subrange(i, s.len() as int).len() == 0);
        assert(i == s.len());
        assert(parse_records(s, i) == Some(Seq::<RepoModel>::empty()));
        assert(ms =~= Seq::<RepoModel>::empty());
    } else {
        let ghost m0 = ms[0];
        let ghost rest = ms.drop_first();
        let ghost l0 = enc_repo(m0).len() as int;
        lemma_dec_digits_len(m0.name.len() as int, 20);
        lemma_dec_digits_len(m0.path.len() as int, 20);
        lemma_dec_digits_len(m0.last_commit_time as int, 20);
        assert(l0 == 62 + m0.name.len() + m0.path.len() + spec_status_name(m0.status).len());
        assert(enc_repos(ms) == enc_repo(m0) + enc_repos(rest));
        assert(i + l0 <= s.len());
        assert(s.subrange(i, i + l0) =~= enc_repo(m0)) by {
            assert forall|x: int| 0 <= x < l0 implies s.subrange(i, i + l0)[x] == enc_repo(m0)[x] by {
                assert(s.subrange(i, i + l0)[x] == s[i + x]);
                assert(s.subrange(i, s.len() as int)[x] == s[i + x]);
                assert((enc_repo(m0) + enc_repos(rest))[x] == enc_repo(m0)[x]);
            }
        }
        assert(wf_model(m0));
        lemma_parse_record_enc(s, i, m0);
        let ghost j = i + l0;
        assert(s.subrange(j, s.len() as int) =~= enc_repos(rest)) by {
            assert forall|x: int|
                0 <= x < s.len() - j implies s.subrange(j, s.len() as int)[x] == enc_repos(
                rest,
            )[x] by {
                assert(s.subrange(j, s.len() as int)[x] == s[j + x]);
                assert(s.subrange(i, s.len() as int)[l0 + x] == s[i + (l0 + x)]);
                assert((enc_repo(m0) + enc_repos(rest))[l0 + x] == enc_repos(rest)[x]);
            }
        }
        assert(wf_models(rest)) by {
            assert(forall|x: int| 0 <= x < rest.len() ==> rest[x] == ms[x + 1]);
        }
        lemma_parse_records_enc(s, j, rest);
        assert(parse_records(s, i) == Some(seq![m0] + rest));
        assert(seq![m0] + rest =~= ms);
    }
}

/// `find_semi` finds nothing when no `;` remains.
proof fn lemma_find_semi_none(s: Seq<char>, i: int)
    requires
        0 <= i,
        forall|x: int| i <= x < s.len() ==> s[x] != ';',
    ensures
        find_semi(s, i) is None,
    decreases s.len() - i,
{
    if i < s.len() {
        lemma_find_semi_none(s, i + 1);
    }
}

/// Read one length-prefixed string field at `i`.
fn parse_str_field(data: &Vec<char>, i: usize) -> (r: Option<(Vec<char>, usize)>)
    ensures
        match r {
            Some((v, j)) => parse_str_at(data@, i as int) == Some((v@, j as int)) && i < j
                <= data@.len(),
            None => parse_str_at(data@, i as int) is None,
        },
{
    let len = data.len();
    if len < 20 || i > len - 20 {
        return None;
    }
    let n = match parse20(data, i) {
        Some(n) => n,
        None => {
            return None;
        },
    };
    let rem = len - (i + 20);
    if n > rem as u64 {
        return None;
    }
    let n_us = n as usize;
    let v = copy_range(data, i + 20, i + 20 + n_us);
    Some((v, i + 20 + n_us))
}

/// Read one record at `i`.
fn parse_record_exec(data: &Vec<char>, i: usize) -> (r: Option<(GitRepo, usize)>)
    ensures
        match r {
            Some((g, j)) => parse_record(data@, i as int) == Some((g@, j as int)) && i < j
                <= data@.len(),
            None => parse_record(data@, i as int) is None,
        },
{
    let len = data.len();
    let (name, j) = match parse_str_field(data, i) {
        Some(p) => p,
        None => {
            return None;
        },
    };
    let (path, k) = match parse_str_field(data, j) {
        Some(p) => p,
        None => {
            return None;
        },
    };
    let mut e: usize = k;
    while e < len && data[e] != ';'
        invariant
            k <= e <= len,
            len == data@.len(),
            forall|x: int| k <= x < e ==> data@[x] != ';',
        decreases len - e,
    {
        e = e + 1;
    }
    if e == len {
        proof {
            lemma_find_semi_none(data@, k as int);
        }
        return None;
    }
    proof {
        lemma_find_semi_at(data@, k as int, e as int);
    }
    let word = copy_range(data, k, e);
    let status = match GitStatus::from_chars(&word) {
        Ok(st) => st,
        Err(_) => {
            return None;
        },
    };
    if len < 21 || e > len - 21 {
        return None;
    }
    let t = match parse20(data, e + 1) {
        Some(t) => t,
        None => {
            return None;
        },
    };
    if !(e + 21 < len) {
        return None;
    }
    if data[e + 21] != '\n' {
        return None;
    }
    let g = GitRepo {
        name: chars_to_string(&name),
        path: chars_to_string(&path),
        status,
        last_commit_time: t,
    };
    Some((g, e + 22))
}

/// Parse a whole cache text. `None` means the text is not a well-formed
/// cache (the caller then treats it as no cache at all and rediscovers
/// everything); `Some` returns every record in order.
pub fn parse_repos(data: &Vec<char>) -> (r: Option<Vec<GitRepo>>)
    ensures
        match r {
            Some(v) => parse_records(data@, 0) == Some(models_of(v@)),
            None => parse_records(data@, 0) is None,
        },
{
    let len = data.len();
    let mut out: Vec<GitRepo> = Vec::new();
    let mut i: usize = 0;
    proof {
        assert(models_of(out@) =~= Seq::<RepoModel>::empty());
    }
    while i < len
        invariant
            i <= len,
            len == data@.len(),
            parse_records(data@, i as int) is None ==> parse_records(data@, 0) is None,
            forall|rest: Seq<RepoModel>|
                parse_records(data@, i as int) == Some(rest) ==> parse_records(data@, 0) == Some(
                    models_of(out@) + rest,
                ),
        decreases len - i,
    {
        let step = parse_record_exec(data, i);
        match step {
            None => {
                proof {
                    assert(parse_records(data@, i as int) is None);
                }
                return None;
            },
            Some((g, j)) => {
                let ghost old_models = models_of(out@);
                out.push(g);
                proof {
                    assert(models_of(out@) =~= old_models.push(g@));
                    assert forall|rest: Seq<RepoModel>|
                        parse_records(data@, j as int) == Some(rest) implies parse_records(
                        data@,
                        0,
                    ) == Some(models_of(out@) + rest) by {
                        assert(parse_records(data@, i as int) == Some(seq![g@] + rest));
                        assert(old_models + (seq![g@] + rest) =~= models_of(out@) + rest);
                    }
                    assert(parse_records(data@, j as int) is None ==> parse_records(
                        data@,
                        i as int,
                    ) is None);
                }
                i = j;
            },
        }
    }
    proof {
        assert(parse_records(data@, i as int) == Some(Seq::<RepoModel>::empty()));
        assert(models_of(out@) + Seq::<RepoModel>::empty() =~= models_of(out@));
    }
    Some(out)
}

/// The cache round trip at the level of whole lists: the text written
/// for a list of models parses back to exactly that list.
pub proof fn lemma_cache_round_trip(ms: Seq<RepoModel>)
    requires
        wf_models(ms),
    ensures
        parse_records(enc_repos(ms), 0) == Some(ms),
{
    let s = enc_repos(ms);
    assert(s.subrange(0, s.len() as int) =~= s);
    lemma_parse_records_enc(s, 0, ms);
}

/// Append the encoding of one string field.
fn push_str_field(out: &mut Vec<char>, s: &String)
    ensures
        final (out)@ == old(out)@ + enc_str(s@),
        s@.len() <= u64::MAX,
{
    let cs = str_to_chars(s.as_str());
    let n = cs.len();
    proof {
        lemma_u64_fits_20_digits();
    }
    let mut len_digits = to_dec20(n as u64);
    out.append(&mut len_digits);
    let mut body = cs;
    out.append(&mut body);
}

/// Encode a list of repositories into the cache text. Besides the exact
/// encoding, this establishes that every model in the list is
/// well-formed, which the round-trip law needs.
pub fn encode_repos(repos: &Vec<GitRepo>) -> (out: Vec<char>)
    ensures
        out@ == enc_repos(models_of(repos@)),
        wf_models(models_of(repos@)),
{
    let mut out: Vec<char> = Vec::new();
    let mut i: usize = 0;
    proof {
        assert(models_of(repos@).subrange(0, 0) =~= Seq::<RepoModel>::empty());
    }
    while i < repos.len()
        invariant
            i <= repos@.len(),
            out@ == enc_repos(models_of(repos@).subrange(0, i as int)),
            wf_models(models_of(repos@).subrange(0, i as int)),
        decreases repos@.len() - i,
    {
        let ghost ms_before = models_of(repos@).subrange(0, i as int);
        let repo = &repos[i];
        let ghost m = repo@;
        let ghost out_start = out@;
        push_str_field(&mut out, &repo.name);
        push_str_field(&mut out, &repo.path);
        let mut status_word = str_to_chars(repo.status.name().as_str());
        out.append(&mut status_word);
        out.push(';');
        proof {
            lemma_u64_fits_20_digits();
        }
        let mut time_digits = to_dec20(repo.last_commit_time);
        out.append(&mut time_digits);
        out.push('\n');
        proof {
            assert(out@ =~= out_start + enc_repo(m));
            lemma_enc_repos_push(ms_before, m);
            assert(models_of(repos@).subrange(0, i + 1) =~= ms_before.push(m));
            assert(wf_model(m));
        }
        i = i + 1;
    }
    proof {
        assert(models_of(repos@).subrange(0, models_of(repos@).len() as int) =~= models_of(
            repos@,
        ));
    }
    out
}

} // verus!
