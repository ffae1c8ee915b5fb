//! Serialization of outbound UCI commands.
//!
//! One search emits, in order: a `setoption` command per engine-option
//! pair, one `position` command, and one `go` command carrying the go
//! options. Each command is a single line; the caller appends the newline
//! when writing.

use vstd::prelude::*;

use crate::job::{GoJob, Position};
use crate::opts::{
    has_key, key_index, keys_unique, lemma_table_set_keys_unique, table_set, OptionTable,
};

verus! {

/// The `setoption` command for one engine-option pair.
pub open spec fn setoption_cmd(k: Seq<char>, v: Seq<char>) -> Seq<char> {
    "setoption name "@ + k + " value "@ + v
}

/// The `position` command for a position value.
pub open spec fn position_cmd(p: Position) -> Seq<char> {
    match p {
        Position::Startpos => "position startpos"@,
        Position::Fen { fen } => "position fen "@ + fen@,
        Position::StartposAndMovesStr { moves_str } => "position startpos moves "@ + moves_str@,
        Position::FenAndMovesStr { fen, moves_str } => "position fen "@ + fen@ + " moves "@
            + moves_str@,
    }
}

/// The `go` command: the literal `go`, then each option pair rendered as
/// ` {key} {value}`, in table order.
pub open spec fn go_cmd(s: Seq<(Seq<char>, Seq<char>)>) -> Seq<char>
    decreases s.len(),
{
    if s.len() == 0 {
        "go"@
    } else {
        go_cmd(s.drop_last()) + " "@ + s.last().0 + " "@ + s.last().1
    }
}

/// The `setoption` commands for a sequence of pairs, one per pair, in order.
pub open spec fn setoption_cmds(s: Seq<(Seq<char>, Seq<char>)>) -> Seq<Seq<char>> {
    Seq::new(s.len(), |i: int| setoption_cmd(s[i].0, s[i].1))
}

/// Every command one job emits, in send order: its `setoption` commands in
/// table order, then the position command, then the go command.
pub open spec fn job_commands(j: GoJob) -> Seq<Seq<char>> {
    setoption_cmds(j.uci_options@).push(position_cmd(j.position)).push(go_cmd(j.go_options@))
}

/// Renders `setoption name {key} value {value}`.
pub fn setoption_command(key: &String, value: &String) -> (r: String)
    ensures
        r@ == setoption_cmd(key@, value@),
{
    let mut s = String::from_str("setoption name ");
    s.append(key.as_str());
    s.append(" value ");
    s.append(value.as_str());
    s
}

/// Renders the `position` command for `p`.
pub fn position_command(p: &Position) -> (r: String)
    ensures
        r@ == position_cmd(*p),
{
    match p {
        Position::Startpos => String::from_str("position startpos"),
        Position::Fen { fen } => {
            let mut s = String::from_str("position fen ");
            s.append(fen.as_str());
            s
        },
        Position::StartposAndMovesStr { moves_str } => {
            let mut s = String::from_str("position startpos moves ");
            s.append(moves_str.as_str());
            s
        },
        Position::FenAndMovesStr { fen, moves_str } => {
            let mut s = String::from_str("position fen ");
            s.append(fen.as_str());
            s.append(" moves ");
            s.append(moves_str.as_str());
            s
        },
    }
}

/// Renders the `setoption` commands of a table, one per pair, in order.
#[verifier::loop_isolation(false)]
pub fn setoption_commands(opts: &OptionTable) -> (r: Vec<String>)
    ensures
        r.deep_view() == setoption_cmds(opts@),
{
    let mut out: Vec<String> = Vec::new();
    let n = opts.pairs.len();
    let mut i: usize = 0;
    while i < n
        invariant
            i <= n,
            out.deep_view() =~~= setoption_cmds(opts@.take(i as int)),
        decreases n - i,
    {
        let cmd = setoption_command(&opts.pairs[i].0, &opts.pairs[i].1);
        out.push(cmd);
        proof {
            let post = opts@.take(i + 1);
            assert(out.deep_view().len() == i + 1);
            assert(setoption_cmds(post).len() == i + 1);
            assert forall|j: int| 0 <= j < i + 1 implies out.deep_view()[j] == setoption_cmds(
                post,
            )[j] by {
                assert(post[j] == opts@[j]);
                assert(setoption_cmds(post)[j] == setoption_cmd(post[j].0, post[j].1));
                if j < i {
                    assert(out.deep_view()[j] == setoption_cmds(opts@.take(i as int))[j]);
                } else {
                    assert(out.deep_view()[j] == cmd.deep_view());
                    assert(cmd@ == setoption_cmd(opts.pairs@[j].0@, opts.pairs@[j].1@));
                    assert(opts@[j] == (opts.pairs@[j].0@, opts.pairs@[j].1@));
                }
            }
            assert(out.deep_view() =~~= setoption_cmds(opts@.take(i + 1)));
        }
        i += 1;
    }
    proof {
        assert(opts@.take(n as int) =~= opts@);
        assert(out.deep_view() =~~= setoption_cmds(opts@));
    }
    out
}

/// Renders the `go` command for a table of go options.
#[verifier::loop_isolation(false)]
pub fn go_command(opts: &OptionTable) -> (r: String)
    ensures
        r@ == go_cmd(opts@),
{
    let mut s = String::from_str("go");
    let n = opts.pairs.len();
    let mut i: usize = 0;
    while i < n
        invariant
            i <= n,
            s@ == go_cmd(opts@.take(i as int)),
        decreases n - i,
    {
        s.append(" ");
        s.append(opts.pairs[i].0.as_str());
        s.append(" ");
        s.append(opts.pairs[i].1.as_str());
        proof {
            assert(opts@.take(i + 1 as int).drop_last() =~= opts@.take(i as int));
            assert(opts@.take(i + 1 as int).last() == opts@[i as int]);
        }
        i += 1;
    }
    proof {
        assert(opts@.take(n as int) =~= opts@);
    }
    s
}

/// Appends the newline that terminates one command on the wire.
pub fn command_line(command: &str) -> (r: String)
    ensures
        r@ == command@ + "\n"@,
{
    let mut s = String::from_str(command);
    s.append("\n");
    s
}

/// Setting the same option key twice before submission yields exactly one
/// `setoption` command for that key, bearing the last-set value: after the
/// two writes one pair carries the key, its value is the second one, its
/// command renders both, and no other pair carries the key.
pub proof fn lemma_setoption_once(
    s: Seq<(Seq<char>, Seq<char>)>,
    k: Seq<char>,
    v1: Seq<char>,
    v2: Seq<char>,
)
    requires
        keys_unique(s),
    ensures
        ({
            let s2 = table_set(table_set(s, k, v1), k, v2);
            &&& exists|i: int|
                0 <= i < s2.len() && (#[trigger] s2[i]) == (k, v2) && setoption_cmds(s2)[i]
                    == setoption_cmd(k, v2)
            &&& forall|i: int, j: int|
                0 <= i < s2.len() && 0 <= j < s2.len() && (#[trigger] s2[i]).0 == k && (
                #[trigger] s2[j]).0 == k ==> i == j
        }),
{
    let s1 = table_set(s, k, v1);
    lemma_table_set_keys_unique(s, k, v1);
    lemma_table_set_keys_unique(s1, k, v2);
    if has_key(s, k) {
        assert(s1[key_index(s, k)] == (k, v1));
    } else {
        assert(s1[s.len() as int] == (k, v1));
    }
    assert(has_key(s1, k));
    let s2 = table_set(s1, k, v2);
    let w = key_index(s1, k);
    assert(s2 == s1.update(w, (k, v2)));
    assert(s2[w] == (k, v2));
}

impl GoJob {
    /// Every command this job emits, in send order.
    pub fn commands(&self) -> (r: Vec<String>)
        ensures
            r.deep_view() == job_commands(*self),
    {
        let mut out = setoption_commands(&self.uci_options);
        out.push(position_command(&self.position));
        out.push(go_command(&self.go_options));
        proof {
            assert(out.deep_view() =~~= job_commands(*self));
        }
        out
    }
}

} // verus!
