//! Verified building blocks for the string handling that the orchestrator,
//! the worker state machine and the command engine share: decimal
//! formatting and parsing, prefix and substring tests, line splitting and
//! joining, trimming and substring replacement.
//!
//! Everything here is specified over `Seq<char>` views, so that callers can
//! state their own contracts exactly.

use vstd::prelude::*;
use vstd::string::StrSliceExecFns;
use vstd::string::StringExecFns;

verus! {

/// Whether `c` counts as alphanumeric for worker names.  Relies on
/// `char::is_alphanumeric` from std, whose result depends on the character
/// alone; the Unicode table behind it is not restated here.
pub uninterp spec fn char_alphanumeric(c: char) -> bool;

/// Relies on `char::is_alphanumeric`: deterministic per character.
pub assume_specification[ char::is_alphanumeric ](c: char) -> (r: bool)
    ensures
        r == char_alphanumeric(c),
;

/// Relies on `String::push`: appends exactly the one character.
#[verifier::external_body]
pub(crate) fn push_char(s: &mut String, c: char)
    ensures
        final(s)@ == old(s)@ + seq![c],
{
    s.push(c);
}

pub const DIGITS: [char; 10] = ['0', '1', '2', '3', '4', '5', '6', '7', '8', '9'];

/// The usual decimal rendering of `n`, most significant digit first.
pub open spec fn spec_dec(n: nat) -> Seq<char>
    decreases n,
{
    if n < 10 {
        seq![DIGITS@[n as int]]
    } else {
        spec_dec(n / 10) + seq![DIGITS@[(n % 10) as int]]
    }
}

/// Renders `n` in decimal.
pub fn u64_to_string(n: u64) -> (r: String)
    ensures
        r@ == spec_dec(n as nat),
    decreases n,
{
    if n < 10 {
        let mut s = String::new();
        push_char(&mut s, DIGITS[n as usize]);
        s
    } else {
        let mut s = u64_to_string(n / 10);
        push_char(&mut s, DIGITS[(n % 10) as usize]);
        s
    }
}

pub open spec fn is_dec_digit(c: char) -> bool {
    '0' <= c && c <= '9'
}

pub open spec fn all_dec_digits(s: Seq<char>) -> bool {
    forall|i: int| 0 <= i < s.len() ==> is_dec_digit(#[trigger] s[i])
}

/// The numeric value of a digit string, most significant digit first.
pub open spec fn dec_value(s: Seq<char>) -> nat
    decreases s.len(),
{
    if s.len() == 0 {
        0
    } else {
        dec_value(s.drop_last()) * 10 + (s.last() as int - '0' as int) as nat
    }
}

/// A number may carry one leading plus sign, as `str::parse` allows for
/// unsigned integers; the digits are what follows it.
pub open spec fn u16_digits(s: Seq<char>) -> Seq<char> {
    if s.len() > 0 && s[0] == '+' {
        s.drop_first()
    } else {
        s
    }
}

/// Parses a decimal port number the way `str::parse::<u16>` does: an
/// optional leading `+`, then one or more digits, valued at most
/// `u16::MAX`.
pub fn parse_u16(s: &str) -> (r: Option<u16>)
    ensures
        ({
            let b = u16_digits(s@);
            match r {
                Some(v) => b.len() > 0 && all_dec_digits(b) && dec_value(b) <= u16::MAX
                    && v as nat == dec_value(b),
                None => b.len() == 0 || !all_dec_digits(b) || dec_value(b) > u16::MAX,
            }
        }),
{
    let full = s.unicode_len();
    let t = if full > 0 && s.get_char(0) == '+' {
        let rest = s.substring_char(1, full);
        assert(rest@ =~= u16_digits(s@));
        rest
    } else {
        s
    };
    let n = t.unicode_len();
    if n == 0 {
        return None;
    }
    // Saturates at 65536 so that overlong inputs cannot overflow; once the
    // true value is past u16::MAX the exact value no longer matters.
    let mut acc: u64 = 0;
    let mut i: usize = 0;
    while i < n
        invariant
            0 < n == t@.len(),
            t@ == u16_digits(s@),
            0 <= i <= n,
            all_dec_digits(t@.take(i as int)),
            dec_value(t@.take(i as int)) <= u16::MAX ==> acc == dec_value(t@.take(i as int)),
            dec_value(t@.take(i as int)) > u16::MAX ==> acc == 65536,
            acc <= 65536,
        decreases n - i,
    {
        let c = t.get_char(i);
        if c < '0' || c > '9' {
            assert(!is_dec_digit(t@[i as int]));
            return None;
        }
        let d: u64 = (c as u32 as u64) - ('0' as u32 as u64);
        assert(t@.take(i + 1).drop_last() =~= t@.take(i as int));
        assert(t@.take(i + 1).last() == t@[i as int]);
        let next = acc * 10 + d;
        if next > u16::MAX as u64 {
            acc = 65536;
        } else {
            acc = next;
        }
        i = i + 1;
    }
    assert(t@.take(n as int) =~= t@);
    if acc > u16::MAX as u64 {
        None
    } else {
        Some(acc as u16)
    }
}

/// `p` is an initial segment of `s`.
pub open spec fn has_prefix(s: Seq<char>, p: Seq<char>) -> bool {
    p.len() <= s.len() && s.take(p.len() as int) == p
}

/// `p` occurs in `s` starting at position `i`.
pub open spec fn match_at(s: Seq<char>, p: Seq<char>, i: int) -> bool {
    0 <= i && i + p.len() <= s.len() && s.subrange(i, i + p.len() as int) == p
}

/// `p` occurs somewhere in `s`.
pub open spec fn contains_seq(s: Seq<char>, p: Seq<char>) -> bool {
    exists|i: int| match_at(s, p, i)
}

/// Whether `p` occurs in `s` at position `i`.
pub fn matches_at(s: &str, p: &str, i: usize) -> (r: bool)
    requires
        i <= s@.len(),
    ensures
        r == match_at(s@, p@, i as int),
{
    let n = s.unicode_len();
    let m = p.unicode_len();
    if m > n - i {
        return false;
    }
    let mut j: usize = 0;
    while j < m
        invariant
            0 <= j <= m,
            m == p@.len(),
            n == s@.len(),
            i + m <= n,
            forall|k: int| 0 <= k < j ==> s@[i + k] == p@[k],
        decreases m - j,
    {
        if s.get_char(i + j) != p.get_char(j) {
            assert(s@.subrange(i as int, i + m) != p@) by {
                assert(s@.subrange(i as int, i + m)[j as int] != p@[j as int]);
            }
            return false;
        }
        j = j + 1;
    }
    assert(s@.subrange(i as int, i + m) =~= p@);
    true
}

/// Whether `s` starts with `p`.
pub fn str_starts_with(s: &str, p: &str) -> (r: bool)
    ensures
        r == has_prefix(s@, p@),
{
    let r = matches_at(s, p, 0);
    assert(s@.subrange(0, p@.len() as int) == s@.take(p@.len() as int));
    r
}

/// Whether `p` occurs anywhere in `s`.
pub fn str_contains(s: &str, p: &str) -> (r: bool)
    ensures
        r == contains_seq(s@, p@),
{
    let n = s.unicode_len();
    let m = p.unicode_len();
    if m > n {
        assert(forall|i: int| !match_at(s@, p@, i));
        return false;
    }
    if m == 0 {
        assert(match_at(s@, p@, 0)) by {
            assert(s@.subrange(0, 0) =~= p@);
        }
        return true;
    }
    let limit = n - m;
    let mut i: usize = 0;
    while i <= limit
        invariant
            0 <= i <= limit + 1,
            limit == n - m,
            0 < m <= n,
            m == p@.len(),
            n == s@.len(),
            forall|k: int| 0 <= k < i ==> !match_at(s@, p@, k),
        decreases limit + 1 - i,
    {
        if matches_at(s, p, i) {
            return true;
        }
        i = i + 1;
    }
    assert(forall|k: int| !match_at(s@, p@, k));
    false
}

/// Strips `p` from the front of `s`, if it is there.
pub fn str_strip_prefix(s: &str, p: &str) -> (r: Option<String>)
    ensures
        match r {
            Some(t) => has_prefix(s@, p@) && t@ == s@.skip(p@.len() as int),
            None => !has_prefix(s@, p@),
        },
{
    if str_starts_with(s, p) {
        let rest = s.substring_char(p.unicode_len(), s.unicode_len());
        assert(rest@ =~= s@.skip(p@.len() as int));
        Some(rest.to_owned())
    } else {
        None
    }
}

/// The characters `str::trim` and `str::lines` treat as whitespace
/// (the Unicode `White_Space` set).
pub open spec fn is_space(c: char) -> bool {
    c == ' ' || c == '\t' || c == '\n' || c == '\u{000B}' || c == '\u{000C}' || c == '\r'
        || c == '\u{0085}' || c == '\u{00A0}' || c == '\u{1680}' || c == '\u{2000}'
        || c == '\u{2001}' || c == '\u{2002}' || c == '\u{2003}' || c == '\u{2004}'
        || c == '\u{2005}' || c == '\u{2006}' || c == '\u{2007}' || c == '\u{2008}'
        || c == '\u{2009}' || c == '\u{200A}' || c == '\u{2028}' || c == '\u{2029}'
        || c == '\u{202F}' || c == '\u{205F}' || c == '\u{3000}'
}

/// Whether `c` is whitespace, as `str::trim` understands it.
pub fn is_space_char(c: char) -> (r: bool)
    ensures
        r == is_space(c),
{
    c == ' ' || c == '\t' || c == '\n' || c == '\u{000B}' || c == '\u{000C}' || c == '\r'
        || c == '\u{0085}' || c == '\u{00A0}' || c == '\u{1680}' || c == '\u{2000}'
        || c == '\u{2001}' || c == '\u{2002}' || c == '\u{2003}' || c == '\u{2004}'
        || c == '\u{2005}' || c == '\u{2006}' || c == '\u{2007}' || c == '\u{2008}'
        || c == '\u{2009}' || c == '\u{200A}' || c == '\u{2028}' || c == '\u{2029}'
        || c == '\u{202F}' || c == '\u{205F}' || c == '\u{3000}'
}

/// `s` without its leading whitespace.
pub open spec fn trim_left(s: Seq<char>) -> Seq<char>
    decreases s.len(),
{
    if s.len() > 0 && is_space(s.first()) {
        trim_left(s.drop_first())
    } else {
        s
    }
}

/// `s` without its trailing whitespace.
pub open spec fn trim_right(s: Seq<char>) -> Seq<char>
    decreases s.len(),
{
    if s.len() > 0 && is_space(s.last()) {
        trim_right(s.drop_last())
    } else {
        s
    }
}

fn trim_start(s: &str) -> (r: String)
    ensures
        r@ == trim_left(s@),
    decreases s@.len(),
{
    let n = s.unicode_len();
    if n > 0 && is_space_char(s.get_char(0)) {
        let rest = s.substring_char(1, n);
        assert(rest@ =~= s@.drop_first());
        trim_start(rest)
    } else {
        s.to_owned()
    }
}

fn trim_end(s: &str) -> (r: String)
    ensures
        r@ == trim_right(s@),
    decreases s@.len(),
{
    let n = s.unicode_len();
    if n > 0 && is_space_char(s.get_char(n - 1)) {
        let rest = s.substring_char(0, n - 1);
        assert(rest@ =~= s@.drop_last());
        trim_end(rest)
    } else {
        s.to_owned()
    }
}

/// `s` with leading and trailing whitespace removed, as `str::trim`
/// would leave it.
pub fn trim_str(s: &str) -> (r: String)
    ensures
        r@ == trim_right(trim_left(s@)),
{
    let t = trim_start(s);
    trim_end(t.as_str())
}

/// One line as returned to callers: a single trailing carriage return is
/// dropped.
pub open spec fn strip_cr(l: Seq<char>) -> Seq<char> {
    if l.len() > 0 && l.last() == '\r' {
        l.drop_last()
    } else {
        l
    }
}

/// `s` split at every newline, keeping a (possibly empty) final segment;
/// always at least one segment.
pub open spec fn split_nl(s: Seq<char>) -> Seq<Seq<char>>
    decreases s.len(),
{
    if s.len() == 0 {
        seq![Seq::empty()]
    } else if s.first() == '\n' {
        seq![Seq::<char>::empty()] + split_nl(s.drop_first())
    } else {
        let rest = split_nl(s.drop_first());
        seq![seq![s.first()] + rest.first()] + rest.drop_first()
    }
}

/// The segments that `str::lines` yields for `s`: split at newlines, drop
/// the final empty segment a trailing newline leaves behind, and strip one
/// trailing carriage return per line.
pub open spec fn spec_lines(s: Seq<char>) -> Seq<Seq<char>> {
    if s.len() == 0 {
        Seq::empty()
    } else {
        let parts = split_nl(s);
        let kept = if parts.last().len() == 0 {
            parts.drop_last()
        } else {
            parts
        };
        kept.map_values(|l: Seq<char>| strip_cr(l))
    }
}

proof fn lemma_split_nl_len(s: Seq<char>)
    ensures
        split_nl(s).len() >= 1,
    decreases s.len(),
{
    if s.len() > 0 {
        lemma_split_nl_len(s.drop_first());
    }
}

fn split_all(s: &str) -> (r: Vec<String>)
    ensures
        r@.len() == split_nl(s@).len(),
        forall|i: int| 0 <= i < r@.len() ==> r@[i]@ == #[trigger] split_nl(s@)[i],
    decreases s@.len(),
{
    let n = s.unicode_len();
    if n == 0 {
        let mut v: Vec<String> = Vec::new();
        v.push(String::new());
        v
    } else {
        let rest_str = s.substring_char(1, n);
        assert(rest_str@ =~= s@.drop_first());
        let mut rest = split_all(rest_str);
        proof {
            lemma_split_nl_len(s@.drop_first());
        }
        let c = s.get_char(0);
        if c == '\n' {
            rest.insert(0, String::new());
            rest
        } else {
            let old_first = rest.remove(0);
            let mut new_first = String::new();
            push_char(&mut new_first, c);
            new_first.append(old_first.as_str());
            rest.insert(0, new_first);
            rest
        }
    }
}

/// `s` split into lines, exactly as `str::lines` splits it.
pub fn lines_of(s: &str) -> (r: Vec<String>)
    ensures
        r@.len() == spec_lines(s@).len(),
        forall|i: int| 0 <= i < r@.len() ==> r@[i]@ == #[trigger] spec_lines(s@)[i],
{
    let n = s.unicode_len();
    if n == 0 {
        return Vec::new();
    }
    let mut parts = split_all(s);
    proof {
        lemma_split_nl_len(s@);
    }
    if parts[parts.len() - 1].as_str().unicode_len() == 0 {
        parts.pop();
    }
    let ghost kept = if split_nl(s@).last().len() == 0 {
        split_nl(s@).drop_last()
    } else {
        split_nl(s@)
    };
    let mut out: Vec<String> = Vec::new();
    let mut i: usize = 0;
    while i < parts.len()
        invariant
            0 <= i <= parts.len(),
            parts@.len() == kept.len(),
            forall|k: int| 0 <= k < parts@.len() ==> parts@[k]@ == #[trigger] kept[k],
            out@.len() == i,
            spec_lines(s@) == kept.map_values(|l: Seq<char>| strip_cr(l)),
            forall|k: int| 0 <= k < i ==> out@[k]@ == #[trigger] spec_lines(s@)[k],
        decreases parts.len() - i,
    {
        let line = &parts[i];
        let m = line.as_str().unicode_len();
        if m > 0 && line.as_str().get_char(m - 1) == '\r' {
            let stripped = line.as_str().substring_char(0, m - 1);
            assert(stripped@ =~= line@.drop_last());
            out.push(stripped.to_owned());
        } else {
            out.push(line.clone());
        }
        i = i + 1;
    }
    out
}

/// The lines of `lines` joined with single newlines, the way per-command
/// reports are put together.
pub open spec fn joined_strs(vs: Seq<String>) -> Seq<char>
    decreases vs.len(),
{
    if vs.len() == 0 {
        Seq::empty()
    } else if vs.len() == 1 {
        vs[0]@
    } else {
        joined_strs(vs.drop_last()) + seq!['\n'] + vs.last()@
    }
}

/// Joins `lines` with single newlines.
pub fn join_lines(lines: &Vec<String>) -> (r: String)
    ensures
        r@ == joined_strs(lines@),
{
    let mut out = String::new();
    let mut i: usize = 0;
    while i < lines.len()
        invariant
            0 <= i <= lines@.len(),
            out@ == joined_strs(lines@.take(i as int)),
        decreases lines@.len() - i,
    {
        if i > 0 {
            push_char(&mut out, '\n');
        }
        out.append(lines[i].as_str());
        proof {
            assert(lines@.take(i + 1).drop_last() =~= lines@.take(i as int));
            assert(lines@.take(i + 1).last() == lines@[i as int]);
        }
        i = i + 1;
    }
    assert(lines@.take(lines@.len() as int) =~= lines@);
    out
}

/// The character views of a sequence of strings.
pub open spec fn views_of(s: Seq<String>) -> Seq<Seq<char>> {
    s.map_values(|x: String| x@)
}

/// `lines` joined with single newlines, over character views.
pub open spec fn joined_views(ls: Seq<Seq<char>>) -> Seq<char>
    decreases ls.len(),
{
    if ls.len() == 0 {
        Seq::empty()
    } else if ls.len() == 1 {
        ls[0]
    } else {
        joined_views(ls.drop_last()) + seq!['\n'] + ls.last()
    }
}

/// Joining strings and joining their views agree.
pub proof fn lemma_joined_views(xs: Seq<String>)
    ensures
        joined_strs(xs) == joined_views(views_of(xs)),
    decreases xs.len(),
{
    if xs.len() > 0 {
        lemma_joined_views(xs.drop_last());
        assert(views_of(xs).drop_last() =~= views_of(xs.drop_last()));
    }
}

/// The interleaving `str::replace` produces for an empty pattern: the
/// replacement before every character and once more at the end.
pub open spec fn empty_pat_tail(s: Seq<char>, rep: Seq<char>) -> Seq<char>
    decreases s.len(),
{
    if s.len() == 0 {
        Seq::empty()
    } else {
        seq![s.first()] + rep + empty_pat_tail(s.drop_first(), rep)
    }
}

/// What `str::replace` returns: every occurrence of `pat` in `s`,
/// scanning left to right without overlap, replaced by `rep`.
pub open spec fn spec_replace(s: Seq<char>, pat: Seq<char>, rep: Seq<char>) -> Seq<char>
    decreases s.len(),
{
    if pat.len() == 0 {
        rep + empty_pat_tail(s, rep)
    } else if s.len() < pat.len() {
        s
    } else if s.take(pat.len() as int) == pat {
        rep + spec_replace(s.skip(pat.len() as int), pat, rep)
    } else {
        seq![s.first()] + spec_replace(s.drop_first(), pat, rep)
    }
}

/// Replaces every occurrence of `pat` in `s` with `rep`, as `str::replace`
/// does.
pub fn replace_str(s: &str, pat: &str, rep: &str) -> (r: String)
    ensures
        r@ == spec_replace(s@, pat@, rep@),
{
    let n = s.unicode_len();
    let m = pat.unicode_len();
    let mut out = String::new();
    assert(s@.skip(0) =~= s@);
    if m == 0 {
        out.append(rep);
        let mut i: usize = 0;
        while i < n
            invariant
                0 <= i <= n,
                n == s@.len(),
                m == pat@.len() == 0,
                out@ + empty_pat_tail(s@.skip(i as int), rep@) == spec_replace(s@, pat@, rep@),
            decreases n - i,
        {
            push_char(&mut out, s.get_char(i));
            out.append(rep);
            proof {
                assert(s@.skip(i as int).drop_first() =~= s@.skip(i + 1));
                assert(s@.skip(i as int).first() == s@[i as int]);
            }
            i = i + 1;
        }
        assert(s@.skip(n as int) =~= Seq::<char>::empty());
        return out;
    }
    let mut i: usize = 0;
    while i < n
        invariant
            0 <= i <= n,
            n == s@.len(),
            m == pat@.len() > 0,
            out@ + spec_replace(s@.skip(i as int), pat@, rep@) == spec_replace(s@, pat@, rep@),
        decreases n - i,
    {
        if matches_at(s, pat, i) {
            out.append(rep);
            proof {
                assert(s@.skip(i as int).take(m as int) =~= s@.subrange(i as int, i + m));
                assert(s@.skip(i as int).skip(m as int) =~= s@.skip(i + m));
            }
            i = i + m;
        } else {
            push_char(&mut out, s.get_char(i));
            proof {
                if s@.skip(i as int).len() >= m {
                    assert(s@.skip(i as int).take(m as int) =~= s@.subrange(i as int, i + m));
                }
                assert(s@.skip(i as int).drop_first() =~= s@.skip(i + 1));
                assert(s@.skip(i as int).first() == s@[i as int]);
            }
            i = i + 1;
        }
    }
    assert(s@.skip(n as int) =~= Seq::<char>::empty());
    out
}

/// The first position at which `p` occurs in `s`, if any.
pub open spec fn spec_find(s: Seq<char>, p: Seq<char>) -> Option<int>
    decreases s.len(),
{
    if p.len() > s.len() {
        None
    } else if s.take(p.len() as int) == p {
        Some(0int)
    } else if s.len() == 0 {
        None
    } else {
        match spec_find(s.drop_first(), p) {
            Some(i) => Some(i + 1),
            None => None,
        }
    }
}

/// What `spec_find` finding (or not finding) a position means in terms of
/// `match_at`: the position is the first match.
pub proof fn lemma_spec_find_props(s: Seq<char>, p: Seq<char>)
    ensures
        match spec_find(s, p) {
            Some(i) => match_at(s, p, i) && forall|j: int| 0 <= j < i ==> !match_at(s, p, j),
            None => forall|j: int| !match_at(s, p, j),
        },
    decreases s.len(),
{
    if p.len() > s.len() {
        assert(forall|j: int| !match_at(s, p, j));
    } else if s.take(p.len() as int) == p {
        assert(s.subrange(0, p.len() as int) == s.take(p.len() as int));
        assert(match_at(s, p, 0));
    } else {
        if s.len() == 0 {
            assert(s.take(p.len() as int) =~= p);
        }
        lemma_spec_find_props(s.drop_first(), p);
        assert(s.subrange(0, p.len() as int) == s.take(p.len() as int));
        assert(!match_at(s, p, 0));
        assert forall|j: int| 1 <= j && j + p.len() <= s.len() implies match_at(s, p, j)
            == match_at(s.drop_first(), p, j - 1) by {
            if match_at(s, p, j) {
                assert(s.drop_first().subrange(j - 1, j - 1 + p.len() as int) =~= s.subrange(
                    j,
                    j + p.len() as int,
                ));
            }
            if match_at(s.drop_first(), p, j - 1) {
                assert(s.subrange(j, j + p.len() as int) =~= s.drop_first().subrange(
                    j - 1,
                    j - 1 + p.len() as int,
                ));
            }
        }
    }
}

/// The first position at which `p` occurs in `s`, if any.
pub fn find_str(s: &str, p: &str) -> (r: Option<usize>)
    ensures
        match r {
            Some(i) => spec_find(s@, p@) == Some(i as int),
            None => spec_find(s@, p@) is None,
        },
    decreases s@.len(),
{
    let n = s.unicode_len();
    let m = p.unicode_len();
    if m > n {
        return None;
    }
    if matches_at(s, p, 0) {
        assert(s@.subrange(0, p@.len() as int) == s@.take(p@.len() as int));
        return Some(0);
    }
    assert(s@.subrange(0, p@.len() as int) == s@.take(p@.len() as int));
    if n == 0 {
        return None;
    }
    let rest = s.substring_char(1, n);
    assert(rest@ =~= s@.drop_first());
    match find_str(rest, p) {
        Some(i) => {
            proof {
                lemma_spec_find_props(rest@, p@);
            }
            Some(i + 1)
        },
        None => None,
    }
}

/// A copy of a vector of strings, value for value.
pub fn clone_strings(v: &Vec<String>) -> (r: Vec<String>)
    ensures
        r@ == v@,
{
    let n = v.len();
    let mut out: Vec<String> = Vec::new();
    let mut i: usize = 0;
    while i < n
        invariant
            0 <= i <= n,
            n == v@.len(),
            out@ == v@.take(i as int),
        decreases n - i,
    {
        out.push(v[i].clone());
        proof {
            assert(out@ =~= v@.take(i + 1));
        }
        i = i + 1;
    }
    assert(v@.take(n as int) =~= v@);
    out
}

/// Whether two string slices hold the same characters.
pub fn str_eq(a: &str, b: &str) -> (r: bool)
    ensures
        r == (a@ == b@),
{
    let n = a.unicode_len();
    if n != b.unicode_len() {
        return false;
    }
    let mut i: usize = 0;
    while i < n
        invariant
            0 <= i <= n,
            n == a@.len() == b@.len(),
            forall|j: int| 0 <= j < i ==> a@[j] == b@[j],
        decreases n - i,
    {
        if a.get_char(i) != b.get_char(i) {
            return false;
        }
        i = i + 1;
    }
    assert(a@ =~= b@);
    true
}

} // verus!
