//! Terminal rendering helpers for chat history: per-line colouring of the
//! speaker name, and centre padding for the status boxes.

use vstd::prelude::*;
use vstd::string::StrSliceExecFns;
use vstd::string::StringExecFns;
use vstd::string::StringSliceAdditionalSpecFns;

use crate::text::contains_seq;
use crate::text::find_str;
use crate::text::lemma_spec_find_props;
use crate::text::lines_of;
use crate::text::push_char;
use crate::text::spec_find;
use crate::text::spec_lines;
use crate::text::str_contains;
use crate::text::str_eq;

verus! {

/// `c` repeated `n` times.
pub open spec fn repeat_char(c: char, n: nat) -> Seq<char>
    decreases n,
{
    if n == 0 {
        Seq::empty()
    } else {
        repeat_char(c, (n - 1) as nat) + seq![c]
    }
}

fn push_repeated(s: &mut String, c: char, n: usize)
    ensures
        final(s)@ == old(s)@ + repeat_char(c, n as nat),
    decreases n,
{
    let mut i: usize = 0;
    assert(old(s)@ + repeat_char(c, 0) =~= old(s)@);
    while i < n
        invariant
            0 <= i <= n,
            s@ == old(s)@ + repeat_char(c, i as nat),
        decreases n - i,
    {
        push_char(s, c);
        i = i + 1;
    }
}

/// `s` centred in a field of `width` bytes, padded with `pad_char`; a
/// string already that wide is returned unchanged.  An odd amount of
/// padding puts the extra character on the right.
pub fn pad_to_width(s: &str, width: usize, pad_char: char) -> (r: String)
    ensures
        (s.spec_bytes().len() as usize) >= width ==> r@ == s@,
        (s.spec_bytes().len() as usize) < width ==> {
            let needed = (width - s.spec_bytes().len() as usize) as nat;
            r@ == repeat_char(pad_char, needed / 2) + s@ + repeat_char(
                pad_char,
                (needed - needed / 2) as nat,
            )
        },
{
    let len = s.len();
    if len >= width {
        s.to_owned()
    } else {
        let needed = width - len;
        let left = needed / 2;
        let right = needed - left;
        let mut out = String::new();
        push_repeated(&mut out, pad_char, left);
        out.append(s);
        push_repeated(&mut out, pad_char, right);
        out
    }
}

/// How one line of chat history is decorated for the terminal: the
/// orchestrator's name in blue, a worker name in green, any other speaker
/// merely bold, and a line without a `:` separator left as it is.
pub open spec fn spec_decorated_line(p: Seq<char>) -> Seq<char> {
    match spec_find(p, ":"@) {
        None => p,
        Some(i) => {
            let user = p.take(i);
            let message = p.skip(i);
            if user == "Sorcerer"@ {
                "\u{1b}[1;34m"@ + user + "\u{1b}[0m"@ + message
            } else if contains_seq(user, "apprentice-"@) {
                "\u{1b}[1;32m"@ + user + "\u{1b}[0m"@ + message
            } else {
                "\u{1b}[1m"@ + user + "\u{1b}[0m"@ + message
            }
        },
    }
}

fn decorate_line(part: &str) -> (r: String)
    ensures
        r@ == spec_decorated_line(part@),
{
    proof {
        lemma_spec_find_props(part@, ":"@);
        reveal_strlit(":");
    }
    match find_str(part, ":") {
        Some(pos) => {
            let n = part.unicode_len();
            let user = part.substring_char(0, pos);
            let message = part.substring_char(pos, n);
            assert(user@ =~= part@.take(pos as int));
            assert(message@ =~= part@.skip(pos as int));
            let mut out: String;
            if str_eq(user, "Sorcerer") {
                out = String::from_str("\u{1b}[1;34m");
            } else if str_contains(user, "apprentice-") {
                out = String::from_str("\u{1b}[1;32m");
            } else {
                out = String::from_str("\u{1b}[1m");
            }
            out.append(user);
            out.append("\u{1b}[0m");
            out.append(message);
            out
        },
        None => part.to_owned(),
    }
}

/// Splits one history entry into terminal lines and decorates each
/// speaker name, ready to be written to a pager.
pub fn format_chat_line_for_pager(line: &str) -> (r: Vec<String>)
    ensures
        r@.len() == spec_lines(line@).len(),
        forall|i: int|
            0 <= i < r@.len() ==> r@[i]@ == spec_decorated_line(#[trigger] spec_lines(line@)[i]),
{
    let parts = lines_of(line);
    let n = parts.len();
    let mut out: Vec<String> = Vec::new();
    let mut i: usize = 0;
    while i < n
        invariant
            0 <= i <= n,
            n == parts@.len(),
            parts@.len() == spec_lines(line@).len(),
            forall|k: int| 0 <= k < n ==> parts@[k]@ == #[trigger] spec_lines(line@)[k],
            out@.len() == i,
            forall|k: int|
                0 <= k < i ==> out@[k]@ == spec_decorated_line(#[trigger] spec_lines(line@)[k]),
        decreases n - i,
    {
        out.push(decorate_line(parts[i].as_str()));
        i = i + 1;
    }
    out
}

} // verus!
