//! What the client makes of the lines that its operator types.
//!
//! A line is stripped of the white space around it. What is left is either the
//! command to leave, `:quit`, or a message to send.

use vstd::prelude::*;
use vstd::string::*;

verus! {

/// The line that ends a client session.
pub const QUIT: &'static str = ":quit";

/// Whether `c` is white space: a character with the Unicode property
/// `White_Space`.
pub open spec fn is_white_space(c: char) -> bool {
    let code = c as u32;
    ||| 0x09 <= code <= 0x0D
    ||| code == 0x20
    ||| code == 0x85
    ||| code == 0xA0
    ||| code == 0x1680
    ||| 0x2000 <= code <= 0x200A
    ||| code == 0x2028
    ||| code == 0x2029
    ||| code == 0x202F
    ||| code == 0x205F
    ||| code == 0x3000
}

/// `s` without the white space at its start.
pub open spec fn trim_start(s: Seq<char>) -> Seq<char>
    decreases s.len(),
{
    if s.len() > 0 && is_white_space(s.first()) {
        trim_start(s.drop_first())
    } else {
        s
    }
}

/// `s` without the white space at its end.
pub open spec fn trim_end(s: Seq<char>) -> Seq<char>
    decreases s.len(),
{
    if s.len() > 0 && is_white_space(s.last()) {
        trim_end(s.drop_last())
    } else {
        s
    }
}

/// `s` without the white space at its start and at its end.
pub open spec fn trimmed(s: Seq<char>) -> Seq<char> {
    trim_end(trim_start(s))
}

/// Whether `c` is white space.
pub fn is_whitespace(c: char) -> (white: bool)
    ensures
        white == is_white_space(c),
{
    let code = c as u32;
    (0x09 <= code && code <= 0x0D) || code == 0x20 || code == 0x85 || code == 0xA0 || code
        == 0x1680 || (0x2000 <= code && code <= 0x200A) || code == 0x2028 || code == 0x2029
        || code == 0x202F || code == 0x205F || code == 0x3000
}

/// A range of `s` with nothing but white space before and after it, and none
/// at either of its ends, is `s` trimmed.
pub proof fn lemma_trimmed(s: Seq<char>, start: int, end: int)
    requires
        0 <= start <= end <= s.len(),
        forall|j: int| 0 <= j < start ==> is_white_space(s[j]),
        forall|j: int| end <= j < s.len() ==> is_white_space(s[j]),
        start < end ==> !is_white_space(s[start]) && !is_white_space(s[end - 1]),
    ensures
        trimmed(s) == s.subrange(start, end),
{
    if start < end {
        let tail = s.skip(start);
        let kept = s.subrange(start, end);
        lemma_trim_start(s, start);
        assert(tail.first() == s[start]);
        assert forall|j: int| end - start <= j < tail.len() implies is_white_space(tail[j]) by {
            assert(tail[j] == s[j + start]);
        }
        lemma_trim_end(tail, end - start);
        assert(tail.take(end - start) =~= kept);
        assert(kept.last() == s[end - 1]);
    } else {
        lemma_trim_start(s, s.len() as int);
        assert(s.skip(s.len() as int) =~= Seq::<char>::empty());
        assert(s.subrange(start, end) =~= Seq::<char>::empty());
    }
}

proof fn lemma_trim_start(s: Seq<char>, start: int)
    requires
        0 <= start <= s.len(),
        forall|j: int| 0 <= j < start ==> is_white_space(s[j]),
    ensures
        trim_start(s) == trim_start(s.skip(start)),
    decreases start,
{
    if start == 0 {
        assert(s.skip(0) =~= s);
    } else {
        assert(is_white_space(s[0]));
        lemma_trim_start(s.drop_first(), start - 1);
        assert(s.drop_first().skip(start - 1) =~= s.skip(start));
    }
}

proof fn lemma_trim_end(s: Seq<char>, end: int)
    requires
        0 <= end <= s.len(),
        forall|j: int| end <= j < s.len() ==> is_white_space(s[j]),
    ensures
        trim_end(s) == trim_end(s.take(end)),
    decreases s.len() - end,
{
    if end == s.len() {
        assert(s.take(end) =~= s);
    } else {
        assert(is_white_space(s[s.len() - 1]));
        lemma_trim_end(s.drop_last(), end);
        assert(s.drop_last().take(end) =~= s.take(end));
    }
}

/// Strips the white space at both ends of `line`.
pub fn trim<'a>(line: &'a str) -> (out: &'a str)
    ensures
        out@ == trimmed(line@),
{
    let len = line.unicode_len();
    let mut start: usize = 0;
    let mut end: usize = 0;
    let mut index: usize = 0;
    for c in chars: line.chars()
        invariant
            len == line@.len(),
            chars.seq() == line@,
            index == chars.index(),
            start <= end <= index <= len,
            end == 0 ==> start == 0,
            forall|j: int| 0 <= j < start ==> is_white_space(line@[j]),
            forall|j: int| end <= j < index ==> is_white_space(line@[j]),
            end > 0 ==> start < end && !is_white_space(line@[start as int]) && !is_white_space(
                line@[end - 1],
            ),
    {
        if !is_whitespace(c) {
            if end == 0 {
                start = index;
            }
            end = index + 1;
        }
        index = index + 1;
    }
    proof {
        lemma_trimmed(line@, start as int, end as int);
    }
    line.substring_char(start, end)
}

/// What the operator asked for with one line.
#[derive(Debug, Clone, PartialEq, Eq)]
pub enum Command {
    /// Leave: the session ends and nothing is sent for this line.
    Quit,
    /// Send this message.
    Send(String),
}

/// Reads one line of input: `:quit`, with or without white space around it, is
/// the command to leave, and any other line is a message, stripped of the white
/// space around it.
pub fn read_command(line: &str) -> (command: Command)
    ensures
        match command {
            Command::Quit => trimmed(line@) == QUIT@,
            Command::Send(message) => trimmed(line@) != QUIT@ && message@ == trimmed(line@),
        },
{
    let message = trim(line).to_owned();
    if message == QUIT.to_owned() {
        Command::Quit
    } else {
        Command::Send(message)
    }
}

} // verus!
