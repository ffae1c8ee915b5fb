use uciengine::scan::{line_is_result, parse_result_line, result_of_handoff, split_line};
use uciengine::wire::{command_line, go_command, position_command, setoption_command};
use uciengine::{dec_string, GoJob, OptionTable, Position, Timecontrol};

fn lookup(table: &OptionTable, key: &str) -> Vec<String> {
    let mut found = Vec::new();
    for (k, v) in table.pairs.iter() {
        if k == key {
            found.push(v.clone());
        }
    }
    found
}

#[test]
fn startpos_job_emits_position_then_go() {
    let job = GoJob::new();
    let cmds = job.commands();
    assert_eq!(cmds.len(), 2);
    assert_eq!(cmds[0], "position startpos");
    assert_eq!(cmds[1], "go");
}

#[test]
fn time_control_overwrites_clock_options() {
    let job = GoJob::new()
        .go_opt("wtime".to_string(), "1".to_string())
        .go_opt("binc".to_string(), "777".to_string())
        .go_opt("depth".to_string(), "9".to_string())
        .tc(Timecontrol::default());
    assert_eq!(lookup(&job.go_options, "wtime"), vec!["60000".to_string()]);
    assert_eq!(lookup(&job.go_options, "winc"), vec!["0".to_string()]);
    assert_eq!(lookup(&job.go_options, "btime"), vec!["60000".to_string()]);
    assert_eq!(lookup(&job.go_options, "binc"), vec!["0".to_string()]);
    assert_eq!(lookup(&job.go_options, "depth"), vec!["9".to_string()]);
}

#[test]
fn parse_bestmove_with_ponder() {
    let r = parse_result_line("bestmove e2e4 ponder e7e5");
    assert_eq!(r.bestmove, Some("e2e4".to_string()));
    assert_eq!(r.ponder, Some("e7e5".to_string()));
}

#[test]
fn parse_bestmove_alone() {
    let r = parse_result_line("bestmove e2e4");
    assert_eq!(r.bestmove, Some("e2e4".to_string()));
    assert_eq!(r.ponder, None);
}

#[test]
fn info_line_is_not_a_result_line() {
    assert!(!line_is_result("info depth 12 score cp 34 nodes 100"));
    assert!(!line_is_result("readyok"));
    assert!(!line_is_result(""));
    assert!(line_is_result("bestmove e2e4"));
}

#[test]
fn sequential_results_keep_fifo_order() {
    let engine_output = vec![
        "info depth 1 score cp 10".to_string(),
        "bestmove e2e4 ponder e7e5".to_string(),
        "info string second search".to_string(),
        "bestmove d2d4".to_string(),
    ];
    let mut forwarded = Vec::new();
    for line in engine_output.iter() {
        if line_is_result(line) {
            forwarded.push(line.clone());
        }
    }
    assert_eq!(forwarded.len(), 2);
    let first = parse_result_line(&forwarded[0]);
    let second = parse_result_line(&forwarded[1]);
    assert_eq!(first.bestmove, Some("e2e4".to_string()));
    assert_eq!(second.bestmove, Some("d2d4".to_string()));
}

#[test]
fn closed_handoff_gives_empty_result() {
    let r = result_of_handoff(None);
    assert_eq!(r.bestmove, None);
    assert_eq!(r.ponder, None);
}

#[test]
fn delivered_handoff_is_parsed() {
    let r = result_of_handoff(Some("bestmove g1f3 ponder g8f6".to_string()));
    assert_eq!(r.bestmove, Some("g1f3".to_string()));
    assert_eq!(r.ponder, Some("g8f6".to_string()));
}

#[test]
fn setoption_emitted_once_with_last_value() {
    let job = GoJob::new()
        .uci_opt("Hash".to_string(), "64".to_string())
        .uci_opt("Hash".to_string(), "128".to_string());
    let cmds = job.commands();
    let setoptions: Vec<&String> =
        cmds.iter().filter(|c| c.starts_with("setoption")).collect();
    assert_eq!(setoptions.len(), 1);
    assert_eq!(setoptions[0], "setoption name Hash value 128");
}

#[test]
fn decimal_rendering_exact() {
    assert_eq!(dec_string(0), "0");
    assert_eq!(dec_string(7), "7");
    assert_eq!(dec_string(60000), "60000");
    assert_eq!(dec_string(1000000001), "1000000001");
}

#[test]
fn position_command_variants() {
    assert_eq!(position_command(&Position::Startpos), "position startpos");
    assert_eq!(
        position_command(&Position::Fen { fen: "8/8/8/8/8/8/8/8 w - - 0 1".to_string() }),
        "position fen 8/8/8/8/8/8/8/8 w - - 0 1"
    );
    assert_eq!(
        position_command(&Position::StartposAndMovesStr { moves_str: "e2e4 e7e5".to_string() }),
        "position startpos moves e2e4 e7e5"
    );
    assert_eq!(
        position_command(&Position::FenAndMovesStr {
            fen: "8/8/8/8/8/8/8/8 w - - 0 1".to_string(),
            moves_str: "e2e4".to_string(),
        }),
        "position fen 8/8/8/8/8/8/8/8 w - - 0 1 moves e2e4"
    );
}

#[test]
fn go_command_renders_options() {
    let mut opts = OptionTable::new();
    assert_eq!(go_command(&opts), "go");
    opts.set("depth".to_string(), "12".to_string());
    assert_eq!(go_command(&opts), "go depth 12");
    opts.set("movetime".to_string(), "1000".to_string());
    assert_eq!(go_command(&opts), "go depth 12 movetime 1000");
}

#[test]
fn setoption_command_renders_pair() {
    assert_eq!(
        setoption_command(&"MultiPV".to_string(), &"3".to_string()),
        "setoption name MultiPV value 3"
    );
}

#[test]
fn option_table_last_write_wins_in_place() {
    let mut opts = OptionTable::new();
    opts.set("a".to_string(), "1".to_string());
    opts.set("b".to_string(), "2".to_string());
    opts.set("a".to_string(), "3".to_string());
    assert_eq!(opts.pairs.len(), 2);
    assert_eq!(opts.pairs[0], ("a".to_string(), "3".to_string()));
    assert_eq!(opts.pairs[1], ("b".to_string(), "2".to_string()));
}

#[test]
fn full_job_command_sequence() {
    let job = GoJob::new()
        .uci_opt("MultiPV".to_string(), "2".to_string())
        .pos(Position::StartposAndMovesStr { moves_str: "d2d4".to_string() })
        .go_opt("depth".to_string(), "5".to_string());
    let cmds = job.commands();
    assert_eq!(cmds.len(), 3);
    assert_eq!(cmds[0], "setoption name MultiPV value 2");
    assert_eq!(cmds[1], "position startpos moves d2d4");
    assert_eq!(cmds[2], "go depth 5");
}

#[test]
fn parse_ponder_needs_fourth_token() {
    let r = parse_result_line("bestmove e2e4 ponder");
    assert_eq!(r.bestmove, Some("e2e4".to_string()));
    assert_eq!(r.ponder, None);
}

#[test]
fn parse_lone_bestmove_token() {
    let r = parse_result_line("bestmove");
    assert_eq!(r.bestmove, None);
    assert_eq!(r.ponder, None);
}

#[test]
fn split_keeps_empty_tokens() {
    let parts = split_line("bestmove  e2e4");
    assert_eq!(
        parts,
        vec!["bestmove".to_string(), "".to_string(), "e2e4".to_string()]
    );
    let r = parse_result_line("bestmove  e2e4");
    assert_eq!(r.bestmove, Some("".to_string()));
}

#[test]
fn command_line_appends_newline() {
    assert_eq!(command_line("go"), "go\n");
    assert_eq!(command_line("position startpos"), "position startpos\n");
}

#[test]
fn default_time_control_values() {
    let tc = Timecontrol::default();
    assert_eq!(tc.wtime, 60000);
    assert_eq!(tc.winc, 0);
    assert_eq!(tc.btime, 60000);
    assert_eq!(tc.binc, 0);
}
