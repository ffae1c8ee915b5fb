//! Request and result values for one engine search.
//!
//! A `GoJob` is built fluently: a position, engine options (`setoption`),
//! and `go` options, the latter two as key-unique tables where the last
//! write to a key wins. A `Timecontrol` writes the four clock options in
//! one step. A `GoResult` carries the engine's reply.

use vstd::prelude::*;

use crate::numfmt::{dec_chars, dec_string};
use crate::opts::{table_set, OptionTable};

verus! {

/// How the engine's internal board is set up before a search.
#[derive(Debug)]
pub enum Position {
    /// From a FEN string.
    Fen { fen: String },
    /// From a FEN string, then a space-separated UCI move list.
    FenAndMovesStr { fen: String, moves_str: String },
    /// From the standard starting position.
    Startpos,
    /// From the standard starting position, then a space-separated UCI move list.
    StartposAndMovesStr { moves_str: String },
}

/// A time control in milliseconds: main time and increment for each side.
#[derive(Debug)]
pub struct Timecontrol {
    /// White's main time.
    pub wtime: usize,
    /// White's increment per move.
    pub winc: usize,
    /// Black's main time.
    pub btime: usize,
    /// Black's increment per move.
    pub binc: usize,
}

impl Timecontrol {
    /// The default time control: one minute of thinking time for each side,
    /// no increment.
    pub fn default() -> (r: Timecontrol)
        ensures
            r.wtime == 60000,
            r.winc == 0,
            r.btime == 60000,
            r.binc == 0,
    {
        Timecontrol { wtime: 60000, winc: 0, btime: 60000, binc: 0 }
    }
}

/// The clock-option mapping after `tc` is applied: the four clock keys are
/// bound to its values, every other binding is kept.
pub open spec fn tc_applied(m: Map<Seq<char>, Seq<char>>, tc: Timecontrol) -> Map<
    Seq<char>,
    Seq<char>,
> {
    m.insert("wtime"@, dec_chars(tc.wtime as nat)).insert("winc"@, dec_chars(tc.winc as nat)).insert(
        "btime"@,
        dec_chars(tc.btime as nat),
    ).insert("binc"@, dec_chars(tc.binc as nat))
}

/// Applying a time control overwrites any previously set clock options with
/// exactly its four values, and touches no other binding.
pub proof fn lemma_tc_overwrites(m: Map<Seq<char>, Seq<char>>, tc: Timecontrol)
    ensures
        tc_applied(m, tc)["wtime"@] == dec_chars(tc.wtime as nat),
        tc_applied(m, tc)["winc"@] == dec_chars(tc.winc as nat),
        tc_applied(m, tc)["btime"@] == dec_chars(tc.btime as nat),
        tc_applied(m, tc)["binc"@] == dec_chars(tc.binc as nat),
        forall|k: Seq<char>|
            m.dom().contains(k) && k != "wtime"@ && k != "winc"@ && k != "btime"@ && k != "binc"@
                ==> tc_applied(m, tc).dom().contains(k) && tc_applied(m, tc)[k] == m[k],
{
    reveal_strlit("wtime");
    reveal_strlit("winc");
    reveal_strlit("btime");
    reveal_strlit("binc");
    assert("wtime"@.len() == 5 && "winc"@.len() == 4 && "btime"@.len() == 5 && "binc"@.len() == 4);
    assert("wtime"@[0] == 'w' && "btime"@[0] == 'b');
    assert("winc"@[0] == 'w' && "binc"@[0] == 'b');
}

/// A search request: engine options, a position, and `go` options.
#[derive(Debug)]
pub struct GoJob {
    /// Engine options, sent as `setoption` commands.
    pub uci_options: OptionTable,
    /// The position to search from.
    pub position: Position,
    /// Search limits, sent on the `go` command.
    pub go_options: OptionTable,
}

/// The engine's reply to a search.
#[derive(Debug)]
pub struct GoResult {
    /// The best move, where the reply named one.
    pub bestmove: Option<String>,
    /// The predicted opponent reply, where the engine offered one.
    pub ponder: Option<String>,
}

impl GoJob {
    /// Well-formed: both option tables have unique keys.
    pub open spec fn wf(&self) -> bool {
        self.uci_options.wf() && self.go_options.wf()
    }

    /// A new job: start position, no options.
    pub fn new() -> (r: GoJob)
        ensures
            r.wf(),
            r.position is Startpos,
            r.uci_options@ =~= Seq::<(Seq<char>, Seq<char>)>::empty(),
            r.go_options@ =~= Seq::<(Seq<char>, Seq<char>)>::empty(),
    {
        GoJob {
            uci_options: OptionTable::new(),
            position: Position::Startpos,
            go_options: OptionTable::new(),
        }
    }

    /// Sets the position and returns the job.
    pub fn pos(self, pos: Position) -> (r: GoJob)
        ensures
            r.position == pos,
            r.uci_options == self.uci_options,
            r.go_options == self.go_options,
    {
        GoJob { uci_options: self.uci_options, position: pos, go_options: self.go_options }
    }

    /// Sets an engine option (last write to a key wins) and returns the job.
    pub fn uci_opt(self, key: String, value: String) -> (r: GoJob)
        requires
            self.wf(),
        ensures
            r.wf(),
            r.position == self.position,
            r.go_options == self.go_options,
            r.uci_options@ == table_set(self.uci_options@, key@, value@),
            r.uci_options.map_view() == self.uci_options.map_view().insert(key@, value@),
    {
        let mut s = self;
        s.uci_options.set(key, value);
        s
    }

    /// Sets a `go` option (last write to a key wins) and returns the job.
    pub fn go_opt(self, key: String, value: String) -> (r: GoJob)
        requires
            self.wf(),
        ensures
            r.wf(),
            r.position == self.position,
            r.uci_options == self.uci_options,
            r.go_options@ == table_set(self.go_options@, key@, value@),
            r.go_options.map_view() == self.go_options.map_view().insert(key@, value@),
    {
        let mut s = self;
        s.go_options.set(key, value);
        s
    }

    /// Applies a time control: overwrites the `wtime`, `winc`, `btime` and
    /// `binc` go options with its values, and returns the job.
    pub fn tc(self, tc: Timecontrol) -> (r: GoJob)
        requires
            self.wf(),
        ensures
            r.wf(),
            r.position == self.position,
            r.uci_options == self.uci_options,
            r.go_options@ == table_set(
                table_set(
                    table_set(
                        table_set(self.go_options@, "wtime"@, dec_chars(tc.wtime as nat)),
                        "winc"@,
                        dec_chars(tc.winc as nat),
                    ),
                    "btime"@,
                    dec_chars(tc.btime as nat),
                ),
                "binc"@,
                dec_chars(tc.binc as nat),
            ),
            r.go_options.map_view() == tc_applied(self.go_options.map_view(), tc),
    {
        let mut s = self;
        s.go_options.set(String::from_str("wtime"), dec_string(tc.wtime));
        s.go_options.set(String::from_str("winc"), dec_string(tc.winc));
        s.go_options.set(String::from_str("btime"), dec_string(tc.btime));
        s.go_options.set(String::from_str("binc"), dec_string(tc.binc));
        s
    }
}

} // verus!
