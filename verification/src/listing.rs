use vstd::prelude::*;

use crate::pkg::{PackageEntry, PackageEntryV, entry_opt_view};

verus! {

/// ASCII whitespace: the separators recognised between listing columns.
pub open spec fn is_space(c: char) -> bool {
    c == ' ' || c == '\t' || c == '\n' || c == '\r' || c == '\u{b}' || c == '\u{c}'
}

/// Executable test for `is_space`.
pub fn space(c: char) -> (r: bool)
    ensures
        r == is_space(c),
{
    c == ' ' || c == '\t' || c == '\n' || c == '\r' || c == '\u{b}' || c == '\u{c}'
}

/// Length of the leading run of non-space characters of `s`.
pub open spec fn tok_len(s: Seq<char>) -> nat
    decreases s.len(),
{
    if s.len() == 0 {
        0
    } else if is_space(s[0]) {
        0
    } else {
        (1 + tok_len(s.drop_first())) as nat
    }
}

pub proof fn lemma_tok_len_le(s: Seq<char>)
    ensures
        tok_len(s) <= s.len(),
    decreases s.len(),
{
    if s.len() != 0 && !is_space(s[0]) {
        lemma_tok_len_le(s.drop_first());
    }
}

/// `tok_len` is the position of the first space, given a scan that found the
/// run of non-space characters to end at `j`.
pub proof fn lemma_tok_len_run(s: Seq<char>, j: int)
    requires
        0 <= j <= s.len(),
        forall|k: int| 0 <= k < j ==> !is_space(s[k]),
        j == s.len() || is_space(s[j]),
    ensures
        tok_len(s) == j,
    decreases s.len(),
{
    if j == 0 {
    } else {
        assert(!is_space(s[0]));
        let t = s.drop_first();
        assert forall|k: int| 0 <= k < j - 1 implies !is_space(t[k]) by {
            assert(t[k] == s[k + 1]);
        }
        if j < s.len() {
            assert(t[j - 1] == s[j]);
        }
        lemma_tok_len_run(t, j - 1);
    }
}

/// The whitespace-separated tokens of a line, in order.
pub open spec fn tokens_of(s: Seq<char>) -> Seq<Seq<char>>
    decreases s.len(),
    via tokens_of_dec
{
    if s.len() == 0 {
        Seq::empty()
    } else if is_space(s[0]) {
        tokens_of(s.drop_first())
    } else {
        seq![s.take(tok_len(s) as int)] + tokens_of(s.skip(tok_len(s) as int))
    }
}

#[via_fn]
proof fn tokens_of_dec(s: Seq<char>) {
    if s.len() != 0 && !is_space(s[0]) {
        lemma_tok_len_le(s);
    }
}

/// Skipping a leading space does not change the tokens.
pub proof fn lemma_tokens_skip_space(s: Seq<char>, i: int)
    requires
        0 <= i < s.len(),
        is_space(s[i]),
    ensures
        tokens_of(s.skip(i)) == tokens_of(s.skip(i + 1)),
{
    let t = s.skip(i);
    assert(t[0] == s[i]);
    assert(t.drop_first() =~= s.skip(i + 1));
}

/// A maximal run of non-space characters from `i` to `j` is the next token.
pub proof fn lemma_tokens_skip_tok(s: Seq<char>, i: int, j: int)
    requires
        0 <= i < j <= s.len(),
        forall|k: int| i <= k < j ==> !is_space(s[k]),
        j == s.len() || is_space(s[j]),
    ensures
        tokens_of(s.skip(i)) == seq![s.subrange(i, j)] + tokens_of(s.skip(j)),
{
    let t = s.skip(i);
    assert forall|k: int| 0 <= k < j - i implies !is_space(t[k]) by {
        assert(t[k] == s[i + k]);
    }
    if j < s.len() {
        assert(t[j - i] == s[j]);
    }
    lemma_tok_len_run(t, j - i);
    assert(!is_space(t[0]));
    assert(t.take(j - i) =~= s.subrange(i, j));
    assert(t.skip(j - i) =~= s.skip(j));
}

/// Splits a line on ASCII whitespace into its tokens.
pub fn tokenize(line: &str) -> (toks: Vec<String>)
    ensures
        toks@.map_values(|t: String| t@) == tokens_of(line@),
{
    let n = line.unicode_len();
    let mut toks: Vec<String> = Vec::new();
    let mut i: usize = 0;
    proof {
        assert(line@.skip(0) =~= line@);
    }
    while i < n
        invariant
            i <= n,
            n == line@.len(),
            tokens_of(line@) == toks@.map_values(|t: String| t@) + tokens_of(line@.skip(i as int)),
        decreases n - i,
    {
        let c = line.get_char(i);
        if space(c) {
            proof {
                lemma_tokens_skip_space(line@, i as int);
            }
            i = i + 1;
        } else {
            let mut j: usize = i + 1;
            while j < n && !space(line.get_char(j))
                invariant
                    i < j <= n,
                    n == line@.len(),
                    forall|k: int| i <= k < j ==> !is_space(line@[k]),
                decreases n - j,
            {
                j = j + 1;
            }
            let tok = line.substring_char(i, j).to_owned();
            proof {
                lemma_tokens_skip_tok(line@, i as int, j as int);
                assert(tok@ == line@.subrange(i as int, j as int));
                assert(toks@.push(tok).map_values(|t: String| t@) =~= toks@.map_values(
                    |t: String| t@,
                ).push(tok@));
                assert(toks@.map_values(|t: String| t@).push(tok@) + tokens_of(
                    line@.skip(j as int),
                ) =~= toks@.map_values(|t: String| t@) + (seq![line@.subrange(i as int, j as int)]
                    + tokens_of(line@.skip(j as int))));
            }
            toks.push(tok);
            i = j;
        }
    }
    proof {
        assert(line@.skip(n as int) =~= Seq::<char>::empty());
        assert(tokens_of(line@) =~= toks@.map_values(|t: String| t@));
    }
    toks
}

/// Position of the first occurrence of `sep` in `s`; the length of `s` when
/// `sep` does not occur.
pub open spec fn idx_of(s: Seq<char>, sep: char) -> nat
    decreases s.len(),
{
    if s.len() == 0 {
        0
    } else if s[0] == sep {
        0
    } else {
        (1 + idx_of(s.drop_first(), sep)) as nat
    }
}

/// `idx_of` matches a left-to-right scan that stopped at `j`.
pub proof fn lemma_idx_of_run(s: Seq<char>, sep: char, j: int)
    requires
        0 <= j <= s.len(),
        forall|k: int| 0 <= k < j ==> s[k] != sep,
        j == s.len() || s[j] == sep,
    ensures
        idx_of(s, sep) == j,
    decreases s.len(),
{
    if j == 0 {
    } else {
        let t = s.drop_first();
        assert forall|k: int| 0 <= k < j - 1 implies t[k] != sep by {
            assert(t[k] == s[k + 1]);
        }
        if j < s.len() {
            assert(t[j - 1] == s[j]);
        }
        lemma_idx_of_run(t, sep, j - 1);
    }
}

/// Finds the first occurrence of `sep` in `s`.
pub fn find_char(s: &str, sep: char) -> (r: Option<usize>)
    ensures
        r matches Some(i) ==> i == idx_of(s@, sep) && i < s@.len() && s@[i as int] == sep,
        r is None ==> idx_of(s@, sep) == s@.len(),
{
    let n = s.unicode_len();
    let mut i: usize = 0;
    while i < n
        invariant
            i <= n,
            n == s@.len(),
            forall|k: int| 0 <= k < i ==> s@[k] != sep,
        decreases n - i,
    {
        if s.get_char(i) == sep {
            proof {
                lemma_idx_of_run(s@, sep, i as int);
            }
            return Some(i);
        }
        i = i + 1;
    }
    proof {
        lemma_idx_of_run(s@, sep, n as int);
    }
    None
}

/// The version column with an optional `epoch:` prefix stripped: everything
/// after the first `:`, or the whole column when there is none.
pub open spec fn strip_epoch(v: Seq<char>) -> Seq<char> {
    if idx_of(v, ':') < v.len() {
        v.skip(idx_of(v, ':') as int + 1)
    } else {
        v
    }
}

/// Splits the version column into version and release: the epoch prefix is
/// stripped, then the column splits at its first `-`. A column without a `-`
/// is malformed.
pub open spec fn parse_version_spec(v: Seq<char>) -> Option<(Seq<char>, Seq<char>)> {
    let w = strip_epoch(v);
    if idx_of(w, '-') < w.len() {
        Some((w.take(idx_of(w, '-') as int), w.skip(idx_of(w, '-') as int + 1)))
    } else {
        None
    }
}

/// Splits the `name.arch` column at its first `.`. A column without a `.` is
/// malformed.
pub open spec fn parse_name_arch_spec(na: Seq<char>) -> Option<(Seq<char>, Seq<char>)> {
    if idx_of(na, '.') < na.len() {
        Some((na.take(idx_of(na, '.') as int), na.skip(idx_of(na, '.') as int + 1)))
    } else {
        None
    }
}

/// Parses one line of the installed-package listing. A well-formed line has
/// exactly three whitespace-separated columns: `name.arch`,
/// `epoch:version-release` (the epoch optional), and the repository. Any
/// other line is malformed and yields `None`.
pub open spec fn parse_line_spec(line: Seq<char>) -> Option<PackageEntryV> {
    let toks = tokens_of(line);
    if toks.len() != 3 {
        None
    } else {
        match (parse_name_arch_spec(toks[0]), parse_version_spec(toks[1])) {
            (Some(na), Some(vr)) => Some(
                PackageEntryV { name: na.0, arch: na.1, version: vr.0, release: vr.1 },
            ),
            _ => None,
        }
    }
}

/// Parses one listing line into the installed package identity it describes,
/// or `None` for a malformed line, which a caller skips.
pub fn parse_listing_line(line: &str) -> (r: Option<PackageEntry>)
    ensures
        entry_opt_view(r) == parse_line_spec(line@),
{
    let toks = tokenize(line);
    if toks.len() != 3 {
        return None;
    }
    let na: &str = toks[0].as_str();
    let na_len = na.unicode_len();
    let i = match find_char(na, '.') {
        Some(i) => i,
        None => {
            return None;
        },
    };
    let name = na.substring_char(0, i).to_owned();
    let arch = na.substring_char(i + 1, na_len).to_owned();

    let vcol: &str = toks[1].as_str();
    let vcol_len = vcol.unicode_len();
    let w: &str = match find_char(vcol, ':') {
        Some(e) => vcol.substring_char(e + 1, vcol_len),
        None => vcol,
    };
    proof {
        assert(w@ == strip_epoch(vcol@));
    }
    let w_len = w.unicode_len();
    let j = match find_char(w, '-') {
        Some(j) => j,
        None => {
            return None;
        },
    };
    let version = w.substring_char(0, j).to_owned();
    let release = w.substring_char(j + 1, w_len).to_owned();

    Some(PackageEntry { name, arch, version, release })
}

/// No character of `s` is whitespace.
pub open spec fn no_space(s: Seq<char>) -> bool {
    forall|k: int| 0 <= k < s.len() ==> !is_space(s[k])
}

/// The character `c` does not occur in `s`.
pub open spec fn lacks(s: Seq<char>, c: char) -> bool {
    forall|k: int| 0 <= k < s.len() ==> s[k] != c
}

proof fn lemma_no_space_concat(a: Seq<char>, b: Seq<char>)
    requires
        no_space(a),
        no_space(b),
    ensures
        no_space(a + b),
{
    assert forall|k: int| 0 <= k < (a + b).len() implies !is_space((a + b)[k]) by {
        if k < a.len() {
            assert((a + b)[k] == a[k]);
        } else {
            assert((a + b)[k] == b[k - a.len()]);
        }
    }
}

proof fn lemma_lacks_concat(a: Seq<char>, b: Seq<char>, c: char)
    requires
        lacks(a, c),
        lacks(b, c),
    ensures
        lacks(a + b, c),
{
    assert forall|k: int| 0 <= k < (a + b).len() implies (a + b)[k] != c by {
        if k < a.len() {
            assert((a + b)[k] == a[k]);
        } else {
            assert((a + b)[k] == b[k - a.len()]);
        }
    }
}

/// The first occurrence of `c` in `a + [c] + b` is right after `a`.
proof fn lemma_idx_at_boundary(a: Seq<char>, c: char, b: Seq<char>)
    requires
        lacks(a, c),
    ensures
        idx_of(a + seq![c] + b, c) == a.len(),
{
    let s = a + seq![c] + b;
    assert forall|k: int| 0 <= k < a.len() implies s[k] != c by {
        assert(s[k] == a[k]);
    }
    assert(s[a.len() as int] == c);
    lemma_idx_of_run(s, c, a.len() as int);
}

proof fn lemma_idx_absent(s: Seq<char>, c: char)
    requires
        lacks(s, c),
    ensures
        idx_of(s, c) == s.len(),
{
    lemma_idx_of_run(s, c, s.len() as int);
}

/// Three non-empty space-free tokens separated by single spaces tokenize to
/// exactly those three tokens.
proof fn lemma_tokens_three(t0: Seq<char>, t1: Seq<char>, t2: Seq<char>)
    requires
        t0.len() > 0,
        t1.len() > 0,
        t2.len() > 0,
        no_space(t0),
        no_space(t1),
        no_space(t2),
    ensures
        tokens_of(t0 + seq![' '] + t1 + seq![' '] + t2) == seq![t0, t1, t2],
{
    let s = t0 + seq![' '] + t1 + seq![' '] + t2;
    let n0 = t0.len() as int;
    let b1 = n0 + 1 + t1.len() as int;
    let end = s.len() as int;
    assert(end == b1 + 1 + t2.len());
    assert forall|k: int| 0 <= k < n0 implies !is_space(s[k]) by {
        assert(s[k] == t0[k]);
    }
    assert(s[n0] == ' ');
    lemma_tokens_skip_tok(s, 0, n0);
    assert(s.skip(0) =~= s);
    assert(s.subrange(0, n0) =~= t0);
    lemma_tokens_skip_space(s, n0);
    assert forall|k: int| n0 + 1 <= k < b1 implies !is_space(s[k]) by {
        assert(s[k] == t1[k - (n0 + 1)]);
    }
    assert(s[b1] == ' ');
    lemma_tokens_skip_tok(s, n0 + 1, b1);
    assert(s.subrange(n0 + 1, b1) =~= t1);
    lemma_tokens_skip_space(s, b1);
    assert forall|k: int| b1 + 1 <= k < end implies !is_space(s[k]) by {
        assert(s[k] == t2[k - (b1 + 1)]);
    }
    lemma_tokens_skip_tok(s, b1 + 1, end);
    assert(s.subrange(b1 + 1, end) =~= t2);
    assert(s.skip(end) =~= Seq::<char>::empty());
    assert(tokens_of(s) =~= seq![t0, t1, t2]);
}

/// A listing line printed for the identity `e`: `name.arch`, one space, the
/// version column with an optional `epoch:` prefix, one space, the repository.
pub open spec fn listing_line_of(
    e: PackageEntryV,
    epoch: Option<Seq<char>>,
    repo: Seq<char>,
) -> Seq<char> {
    let ecol = match epoch {
        Some(ep) => ep + seq![':'],
        None => Seq::<char>::empty(),
    };
    e.name + seq!['.'] + e.arch + seq![' '] + ecol + e.version + seq!['-'] + e.release + seq![' ']
        + repo
}

/// Parsing recovers the exact identity from every well-formed listing line,
/// with or without an epoch prefix. Well-formed means: no field contains
/// whitespace, the name contains no `.`, the version contains no `-`, the
/// epoch (when present) contains no `:`, the version and release contain no
/// `:` when no epoch is printed, and the repository column is non-empty.
pub proof fn lemma_parse_well_formed_line(
    e: PackageEntryV,
    epoch: Option<Seq<char>>,
    repo: Seq<char>,
)
    requires
        no_space(e.name),
        no_space(e.arch),
        no_space(e.version),
        no_space(e.release),
        no_space(repo),
        lacks(e.name, '.'),
        lacks(e.version, '-'),
        match epoch {
            Some(ep) => no_space(ep) && lacks(ep, ':'),
            None => lacks(e.version, ':') && lacks(e.release, ':'),
        },
        repo.len() > 0,
    ensures
        parse_line_spec(listing_line_of(e, epoch, repo)) == Some(e),
{
    let tok0 = e.name + seq!['.'] + e.arch;
    let ecol = match epoch {
        Some(ep) => ep + seq![':'],
        None => Seq::<char>::empty(),
    };
    let tail = e.version + seq!['-'] + e.release;
    let vcol = ecol + e.version + seq!['-'] + e.release;
    let line = listing_line_of(e, epoch, repo);
    assert(line =~= tok0 + seq![' '] + vcol + seq![' '] + repo);

    assert(no_space(seq!['.'])) by {
        assert(seq!['.'][0] == '.');
    }
    assert(no_space(seq!['-'])) by {
        assert(seq!['-'][0] == '-');
    }
    assert(no_space(seq![':'])) by {
        assert(seq![':'][0] == ':');
    }
    lemma_no_space_concat(e.name, seq!['.']);
    lemma_no_space_concat(e.name + seq!['.'], e.arch);
    match epoch {
        Some(ep) => {
            lemma_no_space_concat(ep, seq![':']);
        },
        None => {},
    }
    lemma_no_space_concat(ecol, e.version);
    lemma_no_space_concat(ecol + e.version, seq!['-']);
    lemma_no_space_concat(ecol + e.version + seq!['-'], e.release);

    lemma_tokens_three(tok0, vcol, repo);
    assert(tokens_of(line) == seq![tok0, vcol, repo]);
    assert(tokens_of(line)[0] == tok0);
    assert(tokens_of(line)[1] == vcol);

    // The name.arch column splits at its first dot.
    lemma_idx_at_boundary(e.name, '.', e.arch);
    let nl = e.name.len() as int;
    assert(idx_of(tok0, '.') == nl);
    assert(tok0.take(nl) =~= e.name);
    assert(tok0.skip(nl + 1) =~= e.arch);

    // The epoch prefix strips to the version-release tail.
    let w = strip_epoch(vcol);
    match epoch {
        Some(ep) => {
            assert(vcol =~= ep + seq![':'] + tail);
            lemma_idx_at_boundary(ep, ':', tail);
            assert(idx_of(vcol, ':') == ep.len());
            assert(vcol.skip(ep.len() as int + 1) =~= tail);
            assert(w =~= tail);
        },
        None => {
            assert(vcol =~= tail);
            lemma_lacks_concat(e.version, seq!['-'], ':');
            lemma_lacks_concat(e.version + seq!['-'], e.release, ':');
            lemma_idx_absent(vcol, ':');
            assert(w =~= tail);
        },
    }

    // The tail splits at its first dash.
    lemma_idx_at_boundary(e.version, '-', e.release);
    let vl = e.version.len() as int;
    assert(idx_of(tail, '-') == vl);
    assert(tail.take(vl) =~= e.version);
    assert(tail.skip(vl + 1) =~= e.release);

    assert(parse_line_spec(line) matches Some(p) && p =~= e);
}

} // verus!
