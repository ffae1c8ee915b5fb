//! Inbound side of the protocol: recognising result lines, splitting a
//! line into tokens, and parsing the engine's `bestmove` reply.
//!
//! The output scanner reads the engine's standard output line by line and
//! forwards exactly the lines whose first eight characters are `bestmove`
//! into the hand-off channel; everything else is discarded. The session
//! coordinator takes one forwarded line per search, in arrival order, and
//! parses it.

use vstd::prelude::*;

use crate::job::GoResult;

verus! {

/// Is `l` a result line: at least eight characters long, the first eight
/// being `bestmove`?
pub open spec fn is_result_line(l: Seq<char>) -> bool {
    l.len() >= 8 && l.subrange(0, 8) == "bestmove"@
}

/// Checks whether `line` is a result line.
pub fn line_is_result(line: &str) -> (r: bool)
    ensures
        r == is_result_line(line@),
{
    proof {
        reveal_strlit("bestmove");
    }
    let n = line.unicode_len();
    if n < 8 {
        return false;
    }
    let r = line.get_char(0) == 'b' && line.get_char(1) == 'e' && line.get_char(2) == 's'
        && line.get_char(3) == 't' && line.get_char(4) == 'm' && line.get_char(5) == 'o'
        && line.get_char(6) == 'v' && line.get_char(7) == 'e';
    proof {
        assert(forall|k: int| 0 <= k < 8 ==> line@.subrange(0, 8)[k] == line@[k]);
        if r {
            assert(line@.subrange(0, 8) =~= "bestmove"@);
        }
    }
    r
}

/// The index of the first space in `l`, or `l.len()` where it has none.
pub open spec fn first_space(l: Seq<char>) -> nat
    decreases l.len(),
{
    if l.len() == 0 {
        0
    } else if l[0] == ' ' {
        0
    } else {
        1 + first_space(l.drop_first())
    }
}

/// What `first_space` finds: no space before it, a space at it unless the
/// line has none.
pub proof fn lemma_first_space(l: Seq<char>)
    ensures
        first_space(l) <= l.len(),
        forall|k: int| 0 <= k < first_space(l) ==> l[k] != ' ',
        first_space(l) < l.len() ==> l[first_space(l) as int] == ' ',
    decreases l.len(),
{
    if l.len() != 0 && l[0] != ' ' {
        let d = l.drop_first();
        lemma_first_space(d);
        assert forall|k: int| 0 <= k < first_space(l) implies l[k] != ' ' by {
            if k > 0 {
                assert(d[k - 1] == l[k]);
            }
        }
        if first_space(l) < l.len() {
            assert(d[first_space(l) - 1] == l[first_space(l) as int]);
        }
    }
}

/// `first_space` is the only index with that shape: no space before it,
/// the end of the line or a space at it.
pub proof fn lemma_first_space_is(l: Seq<char>, i: int)
    requires
        0 <= i <= l.len(),
        forall|k: int| 0 <= k < i ==> l[k] != ' ',
        i < l.len() ==> l[i] == ' ',
    ensures
        first_space(l) == i,
    decreases l.len(),
{
    if l.len() == 0 {
    } else if l[0] == ' ' {
        assert(i == 0) by {
            if i > 0 {
                assert(l[0] != ' ');
            }
        }
    } else {
        assert(i > 0) by {
            if i == 0 {
                assert(l[i] == ' ');
            }
        }
        let d = l.drop_first();
        assert forall|k: int| 0 <= k < i - 1 implies d[k] != ' ' by {
            assert(d[k] == l[k + 1]);
        }
        if i - 1 < d.len() {
            assert(d[i - 1] == l[i]);
        }
        lemma_first_space_is(d, i - 1);
    }
}

/// `l` split on every single space: consecutive spaces yield empty tokens,
/// and a line with no space is one token.
pub open spec fn split_spaces(l: Seq<char>) -> Seq<Seq<char>>
    decreases l.len(),
{
    let i = first_space(l);
    if i >= l.len() {
        seq![l]
    } else {
        seq![l.subrange(0, i as int)] + split_spaces(l.subrange(i as int + 1, l.len() as int))
    }
}

/// The index of the first space in `line`, or its length.
#[verifier::loop_isolation(false)]
pub fn find_space(line: &str) -> (i: usize)
    ensures
        i == first_space(line@),
{
    let n = line.unicode_len();
    let mut i: usize = 0;
    while i < n
        invariant
            i <= n,
            forall|k: int| 0 <= k < i ==> line@[k] != ' ',
        decreases n - i,
    {
        if line.get_char(i) == ' ' {
            proof {
                lemma_first_space_is(line@, i as int);
            }
            return i;
        }
        i += 1;
    }
    proof {
        lemma_first_space_is(line@, n as int);
    }
    i
}

/// Splits `line` on every single space, empty tokens kept.
pub fn split_line(line: &str) -> (r: Vec<String>)
    ensures
        r.deep_view() == split_spaces(line@),
    decreases line@.len(),
{
    let n = line.unicode_len();
    let i = find_space(line);
    proof {
        lemma_first_space(line@);
    }
    if i >= n {
        let mut v: Vec<String> = Vec::new();
        v.push(String::from_str(line));
        proof {
            assert(v.deep_view() =~~= split_spaces(line@));
        }
        v
    } else {
        let head = line.substring_char(0, i);
        let tail = line.substring_char(i + 1, n);
        let mut v = split_line(tail);
        v.insert(0, String::from_str(head));
        proof {
            assert(v.deep_view() =~~= split_spaces(line@));
        }
        v
    }
}

/// The best-move token of a result line: the second token, where the line
/// has at least two.
pub open spec fn parsed_bestmove(l: Seq<char>) -> Option<Seq<char>> {
    let parts = split_spaces(l);
    if parts.len() > 1 {
        Some(parts[1])
    } else {
        None
    }
}

/// The ponder token of a result line: the fourth token, where the line has
/// at least four.
pub open spec fn parsed_ponder(l: Seq<char>) -> Option<Seq<char>> {
    let parts = split_spaces(l);
    if parts.len() > 3 {
        Some(parts[3])
    } else {
        None
    }
}

/// Parses one forwarded result line into the search result.
pub fn parse_result_line(line: &str) -> (r: GoResult)
    ensures
        r.bestmove.deep_view() == parsed_bestmove(line@),
        r.ponder.deep_view() == parsed_ponder(line@),
{
    let parts = split_line(line);
    let bestmove: Option<String> = if parts.len() > 1 {
        Some(parts[1].clone())
    } else {
        None
    };
    let ponder: Option<String> = if parts.len() > 3 {
        Some(parts[3].clone())
    } else {
        None
    };
    GoResult { bestmove, ponder }
}

/// Turns what the coordinator received from the hand-off channel into the
/// search result: a parse of the line where one arrived, the empty result
/// where the channel had closed before any line came.
pub fn result_of_handoff(recv: Option<String>) -> (r: GoResult)
    ensures
        recv matches Some(l) ==> r.bestmove.deep_view() == parsed_bestmove(l@)
            && r.ponder.deep_view() == parsed_ponder(l@),
        recv is None ==> r.bestmove is None && r.ponder is None,
{
    match recv {
        Some(line) => parse_result_line(line.as_str()),
        None => GoResult { bestmove: None, ponder: None },
    }
}

/// The result lines among `lines`, in arrival order: exactly what the
/// output scanner forwards into the hand-off channel.
pub open spec fn scan_lines(lines: Seq<Seq<char>>) -> Seq<Seq<char>>
    decreases lines.len(),
{
    if lines.len() == 0 {
        Seq::empty()
    } else {
        let rest = scan_lines(lines.drop_last());
        if is_result_line(lines.last()) {
            rest.push(lines.last())
        } else {
            rest
        }
    }
}

/// A line that is not a result line (an `info` line, any diagnostic) is
/// never forwarded: it changes nothing about what a pending or future
/// search receives.
pub proof fn lemma_nonresult_ignored(lines: Seq<Seq<char>>, l: Seq<char>)
    requires
        !is_result_line(l),
    ensures
        scan_lines(lines.push(l)) == scan_lines(lines),
{
    assert(lines.push(l).drop_last() =~= lines);
}

/// Forwarding distributes over concatenation of the engine's output.
pub proof fn lemma_scan_append(a: Seq<Seq<char>>, b: Seq<Seq<char>>)
    ensures
        scan_lines(a + b) == scan_lines(a) + scan_lines(b),
    decreases b.len(),
{
    if b.len() == 0 {
        assert(a + b =~= a);
        assert(scan_lines(a) + scan_lines(b) =~= scan_lines(a));
    } else {
        lemma_scan_append(a, b.drop_last());
        assert((a + b).drop_last() =~= a + b.drop_last());
        assert((a + b).last() == b.last());
        if is_result_line(b.last()) {
            assert(scan_lines(a) + scan_lines(b.drop_last()).push(b.last()) =~= (scan_lines(a)
                + scan_lines(b.drop_last())).push(b.last()));
        }
    }
}

/// Two sequential, fully drained searches receive their own result lines,
/// in submission order: where the engine's output during the first search
/// holds exactly the result line `ra`, and its output during the second
/// exactly `rb`, the scanner forwards `ra` first and `rb` second, so the
/// first blocking receive yields `ra` and the next yields `rb`.
pub proof fn lemma_sequential_fifo(a: Seq<Seq<char>>, b: Seq<Seq<char>>, ra: Seq<char>, rb: Seq<char>)
    requires
        scan_lines(a) == seq![ra],
        scan_lines(b) == seq![rb],
    ensures
        scan_lines(a + b) == seq![ra, rb],
{
    lemma_scan_append(a, b);
    assert(seq![ra] + seq![rb] =~= seq![ra, rb]);
}

} // verus!
