//! The commit a checkout is at, read from the files of its `.git`
//! directory: `HEAD` names a branch (`ref: refs/heads/...`) or holds a commit
//! id itself, and a branch's commit is in its loose ref file or in
//! `packed-refs`. The fingerprint is best-effort: what cannot be read is no
//! commit, not an error.
use vstd::prelude::*;
use crate::text::{chars_of, trim, trim_bounds, string_from_range};

verus! {

/// An ASCII hexadecimal digit, either case.
pub open spec fn is_hex_digit(c: char) -> bool {
    let u = c as u32;
    (48 <= u <= 57) || (65 <= u <= 70) || (97 <= u <= 102)
}

/// A full commit id: forty hexadecimal digits.
pub open spec fn is_full_sha(s: Seq<char>) -> bool {
    s.len() == 40 && forall|i: int| 0 <= i < 40 ==> is_hex_digit(s[i])
}

/// What follows `prefix` in the trimmed contents, trimmed, where the
/// trimmed contents open with `prefix`.
pub open spec fn prefixed_value(contents: Seq<char>, prefix: Seq<char>) -> Option<Seq<char>> {
    let t = trim(contents);
    if t.len() >= prefix.len() && t.take(prefix.len() as int) == prefix {
        Some(trim(t.skip(prefix.len() as int)))
    } else {
        None
    }
}

/// Where `HEAD` points.
#[derive(Debug, PartialEq, Eq)]
pub enum HeadTarget {
    /// A commit id held by `HEAD` itself.
    Detached(String),
    /// A branch (or other ref) whose commit is looked up.
    Symbolic(String),
    /// Neither.
    Unknown,
}

/// What the contents of a `HEAD` file say, as a condition on the answer.
pub open spec fn head_target_of(contents: Seq<char>, h: HeadTarget) -> bool {
    match prefixed_value(contents, "ref:"@) {
        Some(name) => h matches HeadTarget::Symbolic(n) && n@ == name,
        None => if is_full_sha(trim(contents)) {
            h matches HeadTarget::Detached(s) && s@ == trim(contents)
        } else {
            h == HeadTarget::Unknown
        },
    }
}

fn is_hex_char(c: char) -> (r: bool)
    ensures
        r == is_hex_digit(c),
{
    let u = c as u32;
    (48 <= u && u <= 57) || (65 <= u && u <= 70) || (97 <= u && u <= 102)
}

/// Whether `cs[from..to]` is a full commit id.
fn is_full_sha_range(cs: &Vec<char>, from: usize, to: usize) -> (r: bool)
    requires
        from <= to <= cs@.len(),
    ensures
        r == is_full_sha(cs@.subrange(from as int, to as int)),
{
    if to - from != 40 {
        return false;
    }
    let ghost s = cs@.subrange(from as int, to as int);
    for k in 0..40usize
        invariant
            from + 40 == to,
            to <= cs@.len(),
            s == cs@.subrange(from as int, to as int),
            forall|i: int| 0 <= i < k ==> is_hex_digit(s[i]),
    {
        assert(s[k as int] == cs@[from + k]);
        if !is_hex_char(cs[from + k]) {
            return false;
        }
    }
    true
}

/// Whether a string is a full commit id: forty hexadecimal digits.
pub fn is_full_commit_id(s: &str) -> (r: bool)
    ensures
        r == is_full_sha(s@),
{
    let cs = chars_of(s);
    assert(cs@.subrange(0, cs@.len() as int) =~= cs@);
    is_full_sha_range(&cs, 0, cs.len())
}

/// The trimmed value after `prefix` in the trimmed contents.
pub fn prefixed(contents: &str, prefix: &str) -> (r: Option<String>)
    ensures
        match prefixed_value(contents@, prefix@) {
            Some(v) => r matches Some(x) && x@ == v,
            None => r is None,
        },
{
    let cs = chars_of(contents);
    let ps = chars_of(prefix);
    let (i, j) = trim_bounds(&cs);
    let ghost t = cs@.subrange(i as int, j as int);
    let m = ps.len();
    if j - i < m {
        return None;
    }
    for k in 0..m
        invariant
            m == ps@.len(),
            i + m <= j <= cs@.len(),
            t == cs@.subrange(i as int, j as int),
            t == trim(contents@),
            ps@ == prefix@,
            forall|l: int| 0 <= l < k ==> t[l] == ps@[l],
    {
        assert(t[k as int] == cs@[i + k]);
        if cs[i + k] != ps[k] {
            assert(t.take(m as int)[k as int] == t[k as int]);
            assert(t.take(m as int)[k as int] != ps@[k as int]);
            assert(t.take(m as int) != ps@);
            assert(trim(contents@) == t);
            return None;
        }
    }
    assert(t.take(m as int) =~= ps@);
    let rest = string_from_range(&cs, i + m, j);
    let rs = chars_of(rest.as_str());
    let (a, b) = trim_bounds(&rs);
    assert(rs@ =~= t.skip(m as int));
    Some(string_from_range(&rs, a, b))
}

/// Reads the contents of a `HEAD` file.
pub fn parse_head(contents: &str) -> (h: HeadTarget)
    ensures
        head_target_of(contents@, h),
{
    match prefixed(contents, "ref:") {
        Some(name) => HeadTarget::Symbolic(name),
        None => {
            let cs = chars_of(contents);
            let (i, j) = trim_bounds(&cs);
            if is_full_sha_range(&cs, i, j) {
                HeadTarget::Detached(string_from_range(&cs, i, j))
            } else {
                HeadTarget::Unknown
            }
        },
    }
}

/// The commit id held by a loose ref file, if it holds one.
pub fn loose_ref_sha(contents: &str) -> (r: Option<String>)
    ensures
        is_full_sha(trim(contents@)) ==> (r matches Some(s) && s@ == trim(contents@)),
        !is_full_sha(trim(contents@)) ==> r is None,
{
    let cs = chars_of(contents);
    let (i, j) = trim_bounds(&cs);
    if is_full_sha_range(&cs, i, j) {
        Some(string_from_range(&cs, i, j))
    } else {
        None
    }
}

/// The lines of a text, split at each `\n`.
pub open spec fn split_lines(s: Seq<char>) -> Seq<Seq<char>>
    decreases s.len(),
{
    if s.len() == 0 {
        seq![Seq::empty()]
    } else {
        let ls = split_lines(s.drop_last());
        if s.last() == '\n' {
            ls.push(Seq::empty())
        } else {
            ls.update(ls.len() - 1, ls.last().push(s.last()))
        }
    }
}

proof fn lemma_split_lines_nonempty(s: Seq<char>)
    ensures
        split_lines(s).len() > 0,
    decreases s.len(),
{
    if s.len() > 0 {
        lemma_split_lines_nonempty(s.drop_last());
    }
}

/// A line of `packed-refs` that names `refname`: a commit id, one space,
/// then the name. Comment lines (`#`) and peeled lines (`^`) never match.
pub open spec fn packed_line_sha(line: Seq<char>, refname: Seq<char>) -> Option<Seq<char>> {
    if line.len() > 41 && line[40] == ' ' && is_full_sha(line.take(40)) && line.skip(41)
        == refname {
        Some(line.take(40))
    } else {
        None
    }
}

/// The commit of the first of the lines that names `refname`.
pub open spec fn first_packed_sha(lines: Seq<Seq<char>>, refname: Seq<char>) -> Option<Seq<char>>
    decreases lines.len(),
{
    if lines.len() == 0 {
        None
    } else {
        match first_packed_sha(lines.drop_last(), refname) {
            Some(s) => Some(s),
            None => packed_line_sha(lines.last(), refname),
        }
    }
}

/// Checks one line `cs[from..to]` of `packed-refs` against `refname`.
fn packed_line(cs: &Vec<char>, from: usize, to: usize, refname: &Vec<char>) -> (r: Option<String>)
    requires
        from <= to <= cs@.len(),
    ensures
        match packed_line_sha(cs@.subrange(from as int, to as int), refname@) {
            Some(s) => r matches Some(x) && x@ == s,
            None => r is None,
        },
{
    let ghost line = cs@.subrange(from as int, to as int);
    if to - from <= 41 || cs[from + 40] != ' ' {
        return None;
    }
    assert(line.take(40) =~= cs@.subrange(from as int, from + 40));
    if !is_full_sha_range(cs, from, from + 40) {
        return None;
    }
    let n = refname.len();
    if to - (from + 41) != n {
        assert(line.skip(41).len() != refname@.len());
        return None;
    }
    for k in 0..n
        invariant
            n == refname@.len(),
            from + 41 + n == to,
            to <= cs@.len(),
            line == cs@.subrange(from as int, to as int),
            forall|l: int| 0 <= l < k ==> line.skip(41)[l] == refname@[l],
    {
        if cs[from + 41 + k] != refname[k] {
            assert(line.skip(41)[k as int] != refname@[k as int]);
            return None;
        }
    }
    assert(line.skip(41) =~= refname@);
    Some(string_from_range(cs, from, from + 40))
}

/// The commit that `packed-refs` records for `refname`, from the first line
/// that names it.
pub fn packed_ref_sha(packed: &str, refname: &str) -> (r: Option<String>)
    ensures
        match first_packed_sha(split_lines(packed@), refname@) {
            Some(s) => r matches Some(x) && x@ == s,
            None => r is None,
        },
{
    let cs = chars_of(packed);
    let name = chars_of(refname);
    let n = cs.len();
    // start of the current line, and the answer of the lines before it
    let mut start: usize = 0;
    let mut found: Option<String> = None;
    assert(cs@.take(0) =~= Seq::<char>::empty());
    assert(split_lines(Seq::<char>::empty()).drop_last() =~= Seq::<Seq<char>>::empty());
    for k in 0..n
        invariant
            n == cs@.len(),
            start <= k,
            split_lines(cs@.take(k as int)).len() > 0,
            split_lines(cs@.take(k as int)).last() == cs@.subrange(start as int, k as int),
            match first_packed_sha(split_lines(cs@.take(k as int)).drop_last(), name@) {
                Some(s) => found matches Some(x) && x@ == s,
                None => found is None,
            },
    {
        let ghost ls = split_lines(cs@.take(k as int));
        assert(cs@.take(k + 1).drop_last() =~= cs@.take(k as int));
        assert(cs@.take(k + 1).last() == cs@[k as int]);
        if cs[k] == '\n' {
            assert(split_lines(cs@.take(k + 1)) == ls.push(Seq::empty()));
            assert(split_lines(cs@.take(k + 1)).drop_last() =~= ls);
            if found.is_none() {
                found = packed_line(&cs, start, k, &name);
            }
            start = k + 1;
            assert(cs@.subrange(start as int, k + 1) =~= Seq::<char>::empty());
        } else {
            assert(cs@.subrange(start as int, k + 1) =~= cs@.subrange(start as int, k as int).push(
                cs@[k as int],
            ));
            assert(split_lines(cs@.take(k + 1)).drop_last() =~= ls.drop_last());
        }
    }
    assert(cs@.take(n as int) =~= cs@);
    if found.is_some() {
        found
    } else {
        packed_line(&cs, start, n, &name)
    }
}

/// The next step of finding the commit of a checkout.
#[derive(Debug, PartialEq, Eq)]
pub enum HeadRead {
    /// Read the loose ref file of this name under the git directory.
    LooseRef(String),
    /// Read `packed-refs` and look this name up there.
    PackedRefs(String),
    /// The search is over, with the commit if one was found.
    Done(Option<String>),
}

/// The git directory that a `.git` file names (`gitdir: <path>`), as in a
/// worktree or a submodule.
pub fn git_dir_of_dot_git_file(contents: &str) -> (r: Option<String>)
    ensures
        match prefixed_value(contents@, "gitdir:"@) {
            Some(v) => r matches Some(x) && x@ == v,
            None => r is None,
        },
{
    prefixed(contents, "gitdir:")
}

/// The step after reading `HEAD` (`None` where it could not be read): a
/// commit id ends the search, a ref name is looked up as a loose ref next,
/// anything else ends it without a commit.
pub fn after_head_file(contents: Option<&str>) -> (r: HeadRead)
    ensures
        match contents {
            None => r == HeadRead::Done(None),
            Some(c) => match prefixed_value(c@, "ref:"@) {
                Some(name) => r matches HeadRead::LooseRef(x) && x@ == name,
                None => if is_full_sha(trim(c@)) {
                    r matches HeadRead::Done(Some(s)) && s@ == trim(c@)
                } else {
                    r == HeadRead::Done(None)
                },
            },
        },
{
    match contents {
        None => HeadRead::Done(None),
        Some(c) => match parse_head(c) {
            HeadTarget::Detached(sha) => HeadRead::Done(Some(sha)),
            HeadTarget::Symbolic(name) => HeadRead::LooseRef(name),
            HeadTarget::Unknown => HeadRead::Done(None),
        },
    }
}

/// The step after reading the loose ref `name` (`None` where the file could
/// not be read): a commit id ends the search; otherwise `packed-refs` is
/// read next.
pub fn after_loose_ref(name: String, contents: Option<&str>) -> (r: HeadRead)
    ensures
        match contents {
            Some(c) if is_full_sha(trim(c@)) => r matches HeadRead::Done(Some(s)) && s@ == trim(c@),
            _ => r matches HeadRead::PackedRefs(x) && x@ == name@,
        },
{
    match contents {
        Some(c) => match loose_ref_sha(c) {
            Some(sha) => HeadRead::Done(Some(sha)),
            None => HeadRead::PackedRefs(name),
        },
        None => HeadRead::PackedRefs(name),
    }
}

/// The commit after reading `packed-refs` (`None` where it could not be
/// read): the first line that names `name`, if any.
pub fn after_packed_refs(name: &str, contents: Option<&str>) -> (r: Option<String>)
    ensures
        match contents {
            None => r is None,
            Some(p) => match first_packed_sha(split_lines(p@), name@) {
                Some(s) => r matches Some(x) && x@ == s,
                None => r is None,
            },
        },
{
    match contents {
        None => None,
        Some(p) => packed_ref_sha(p, name),
    }
}

} // verus!
