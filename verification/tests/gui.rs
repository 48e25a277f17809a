use uzi::err::UziErr;
use uzi::gui::Go;
use uzi::gui::GoBuilder;
use uzi::gui::GuiCmd;
use uzi::gui::Pos;
use uzi::gui::PosBuilder;
use uzi::gui::PosOpt;
use uzi::opt::UciOpt;
use uzi::parse::go_key;
use uzi::parse::parse_go;
use uzi::parse::parse_position;
use uzi::parse::parse_setopt;
use uzi::parse::GoKey;
use uzi::tokens::TokenStream;

fn strings(v: &[&str]) -> Vec<String> {
    v.iter().map(|s| s.to_string()).collect()
}

#[test]
fn empty_lines_miss_a_command() {
    assert_eq!(GuiCmd::parse(""), Err(UziErr::MissingCmd));
    assert_eq!(GuiCmd::parse("   "), Err(UziErr::MissingCmd));
    assert_eq!(GuiCmd::parse(" \t\r\n"), Err(UziErr::MissingCmd));
}

#[test]
fn commands_without_arguments() {
    assert_eq!(GuiCmd::parse("uci"), Ok(GuiCmd::Uci));
    assert_eq!(GuiCmd::parse("isready"), Ok(GuiCmd::IsReady));
    assert_eq!(GuiCmd::parse("ucinewgame"), Ok(GuiCmd::NewGame));
    assert_eq!(GuiCmd::parse("stop"), Ok(GuiCmd::Stop));
    assert_eq!(GuiCmd::parse("ponderhit"), Ok(GuiCmd::Ponderhit));
    assert_eq!(GuiCmd::parse("  uci  "), Ok(GuiCmd::Uci));
    assert_eq!(GuiCmd::parse("stop now please"), Ok(GuiCmd::Stop));
}

#[test]
fn unknown_commands() {
    assert_eq!(GuiCmd::parse("UCI"), Err(UziErr::UnknownOpt));
    assert_eq!(GuiCmd::parse("quit"), Err(UziErr::UnknownOpt));
    assert_eq!(GuiCmd::parse("ucii"), Err(UziErr::UnknownOpt));
}

#[test]
fn debug_on_and_off() {
    assert_eq!(GuiCmd::parse("debug on"), Ok(GuiCmd::Debug(true)));
    assert_eq!(GuiCmd::parse("debug   off"), Ok(GuiCmd::Debug(false)));
    assert_eq!(GuiCmd::parse("debug"), Err(UziErr::MissingOnOff));
    assert_eq!(GuiCmd::parse("debug On"), Err(UziErr::MissingOnOff));
    assert_eq!(GuiCmd::parse("debug true"), Err(UziErr::MissingOnOff));
}

#[test]
fn go_without_limits() {
    assert_eq!(GuiCmd::parse("go"), Err(UziErr::NothingSetForGo));
    assert_eq!(GuiCmd::parse("go   "), Err(UziErr::NothingSetForGo));
}

#[test]
fn go_infinite() {
    let mut want = Go::new();
    want.infinite = Some(());
    assert_eq!(GuiCmd::parse("go infinite"), Ok(GuiCmd::Go(want)));
}

#[test]
fn go_bad_numbers() {
    assert_eq!(GuiCmd::parse("go depth abc"), Err(UziErr::BadNumber));
    assert_eq!(GuiCmd::parse("go depth 65536"), Err(UziErr::BadNumber));
    assert_eq!(GuiCmd::parse("go nodes -1"), Err(UziErr::BadNumber));
    assert_eq!(GuiCmd::parse("go mate 1.5"), Err(UziErr::BadNumber));
    assert_eq!(GuiCmd::parse("go movestogo x"), Err(UziErr::BadNumber));
    assert_eq!(GuiCmd::parse("go infinite depth abc"), Err(UziErr::BadNumber));
}

#[test]
fn go_bad_millis() {
    assert_eq!(
        GuiCmd::parse("go wtime soon"),
        Err(UziErr::BadMillis("wtime".to_string(), "soon".to_string()))
    );
    assert_eq!(
        GuiCmd::parse("go btime 4294967296"),
        Err(UziErr::BadMillis("btime".to_string(), "4294967296".to_string()))
    );
    assert_eq!(
        GuiCmd::parse("go winc 65536"),
        Err(UziErr::BadMillis("winc".to_string(), "65536".to_string()))
    );
    assert_eq!(
        GuiCmd::parse("go binc -5"),
        Err(UziErr::BadMillis("binc".to_string(), "-5".to_string()))
    );
    assert_eq!(
        GuiCmd::parse("go depth 3 movetime depth"),
        Err(UziErr::BadMillis("movetime".to_string(), "depth".to_string()))
    );
}

#[test]
fn go_keyword_without_its_number() {
    assert_eq!(GuiCmd::parse("go depth"), Err(UziErr::GoErr));
    assert_eq!(GuiCmd::parse("go infinite wtime"), Err(UziErr::GoErr));
}

#[test]
fn go_unknown_keyword() {
    assert_eq!(GuiCmd::parse("go fast"), Err(UziErr::UnknownOpt));
    assert_eq!(GuiCmd::parse("go depth 3 4"), Err(UziErr::UnknownOpt));
    assert_eq!(GuiCmd::parse("go e2e4 searchmoves"), Err(UziErr::UnknownOpt));
}

#[test]
fn go_every_keyword() {
    let mut want = Go::new();
    want.search_moves = Some(strings(&["e2e4", "d2d4"]));
    want.ponder = Some(true);
    want.wtime = Some(300000);
    want.btime = Some(4294967295);
    want.winc = Some(1000);
    want.binc = Some(65535);
    want.moves_to_go = Some(40);
    want.depth = Some(12);
    want.nodes = Some(18446744073709551615);
    want.mate = Some(5);
    want.move_time = Some(0);
    want.infinite = Some(());
    let line = "go searchmoves e2e4 d2d4 ponder wtime 300000 btime 4294967295 winc 1000 \
                binc 65535 movestogo 40 depth 12 nodes 18446744073709551615 mate 5 movetime 0 infinite";
    assert_eq!(GuiCmd::parse(line), Ok(GuiCmd::Go(want.clone())));
    let other_order = "go infinite movetime 0 mate 5 nodes 18446744073709551615 depth 12 \
                       movestogo 40 binc 65535 winc 1000 btime 4294967295 wtime 300000 ponder \
                       searchmoves e2e4 d2d4";
    assert_eq!(GuiCmd::parse(other_order), Ok(GuiCmd::Go(want)));
}

#[test]
fn go_search_moves_end_at_a_keyword() {
    let mut want = Go::new();
    want.search_moves = Some(strings(&["e2e4", "nonsense"]));
    want.depth = Some(3);
    assert_eq!(GuiCmd::parse("go searchmoves e2e4 nonsense depth 3"), Ok(GuiCmd::Go(want)));
    let mut want = Go::new();
    want.search_moves = Some(vec![]);
    assert_eq!(GuiCmd::parse("go searchmoves"), Ok(GuiCmd::Go(want)));
    let mut want = Go::new();
    want.search_moves = Some(strings(&["a2a3"]));
    assert_eq!(GuiCmd::parse("go searchmoves e2e4 searchmoves a2a3"), Ok(GuiCmd::Go(want)));
}

#[test]
fn go_last_value_stands() {
    let mut want = Go::new();
    want.depth = Some(7);
    assert_eq!(GuiCmd::parse("go depth 3 depth 7"), Ok(GuiCmd::Go(want)));
    assert_eq!(parse_go(&vec!["depth", "007"]).unwrap().depth, Some(7));
}

#[test]
fn go_keywords_are_told_apart() {
    assert_eq!(go_key("searchmoves"), Some(GoKey::SearchMoves));
    assert_eq!(go_key("ponder"), Some(GoKey::Ponder));
    assert_eq!(go_key("wtime"), Some(GoKey::WTime));
    assert_eq!(go_key("btime"), Some(GoKey::BTime));
    assert_eq!(go_key("winc"), Some(GoKey::WInc));
    assert_eq!(go_key("binc"), Some(GoKey::BInc));
    assert_eq!(go_key("movestogo"), Some(GoKey::MovesToGo));
    assert_eq!(go_key("depth"), Some(GoKey::Depth));
    assert_eq!(go_key("nodes"), Some(GoKey::Nodes));
    assert_eq!(go_key("mate"), Some(GoKey::Mate));
    assert_eq!(go_key("movetime"), Some(GoKey::MoveTime));
    assert_eq!(go_key("infinite"), Some(GoKey::Infinite));
    assert_eq!(go_key("Depth"), None);
    assert_eq!(go_key(""), None);
}

#[test]
fn position_startpos_with_moves() {
    let got = GuiCmd::parse("position startpos moves e2e4 e7e5").unwrap();
    match got {
        GuiCmd::Pos(p) => {
            assert_eq!(p.pos, PosOpt::StartPos);
            assert_eq!(p.moves, Some(strings(&["e2e4", "e7e5"])));
        }
        other => panic!("{:?}", other),
    }
}

#[test]
fn position_fen_with_moves() {
    let line = "position fen rnbqkbnr/pppppppp/8/8/8/8/PPPPPPPP/RNBQKBNR   w \t KQkq - 0 1 moves e2e4";
    let got = GuiCmd::parse(line).unwrap();
    match got {
        GuiCmd::Pos(p) => {
            assert_eq!(
                p.pos,
                PosOpt::Fen("rnbqkbnr/pppppppp/8/8/8/8/PPPPPPPP/RNBQKBNR w KQkq - 0 1".to_string())
            );
            assert_eq!(p.moves, Some(strings(&["e2e4"])));
        }
        other => panic!("{:?}", other),
    }
}

#[test]
fn position_without_moves() {
    let got = parse_position(&vec!["startpos"]).unwrap();
    assert_eq!(got.pos, PosOpt::StartPos);
    assert_eq!(got.moves, None);
    let got = parse_position(&vec!["startpos", "moves"]).unwrap();
    assert_eq!(got.moves, None);
    let got = parse_position(&vec!["fen", "8/8/8/8/8/8/8/8", "b", "-", "-", "10", "42"]).unwrap();
    assert_eq!(got.pos, PosOpt::Fen("8/8/8/8/8/8/8/8 b - - 10 42".to_string()));
    assert_eq!(got.moves, None);
}

#[test]
fn position_errors() {
    assert_eq!(GuiCmd::parse("position"), Err(UziErr::Position));
    assert_eq!(GuiCmd::parse("position moves e2e4"), Err(UziErr::Position));
    assert_eq!(GuiCmd::parse("position here"), Err(UziErr::UnknownOpt));
    assert_eq!(GuiCmd::parse("position startpos e2e4"), Err(UziErr::UnknownOpt));
    assert_eq!(GuiCmd::parse("position fen 8/8/8/8/8/8/8/8 w - - 0"), Err(UziErr::What));
    assert_eq!(GuiCmd::parse("position fen"), Err(UziErr::What));
    assert_eq!(
        GuiCmd::parse("position fen 8/8/8/8/8/8/8/8 w - - 0 1 e2e4"),
        Err(UziErr::UnknownOpt)
    );
}

#[test]
fn setoption_name_and_value() {
    assert_eq!(
        GuiCmd::parse("setoption name Hash value 128"),
        Ok(GuiCmd::SetOpt(UciOpt { id: "Hash".to_string(), value: Some("128".to_string()) }))
    );
    assert_eq!(
        GuiCmd::parse("setoption name Clear Hash"),
        Ok(GuiCmd::SetOpt(UciOpt { id: "Clear Hash".to_string(), value: None }))
    );
    assert_eq!(
        GuiCmd::parse("  setoption   name  Nalimov  Path   value   c:\\chess\\tb\\4;  d:\\tb  5 "),
        Ok(GuiCmd::SetOpt(UciOpt {
            id: "Nalimov  Path".to_string(),
            value: Some("c:\\chess\\tb\\4;  d:\\tb  5 ".to_string()),
        }))
    );
    assert_eq!(
        GuiCmd::parse("setoption name Style value"),
        Ok(GuiCmd::SetOpt(UciOpt { id: "Style".to_string(), value: Some(String::new()) }))
    );
    assert_eq!(
        GuiCmd::parse("setoption name a value value b"),
        Ok(GuiCmd::SetOpt(UciOpt { id: "a".to_string(), value: Some("value b".to_string()) }))
    );
}

#[test]
fn setoption_errors() {
    assert_eq!(GuiCmd::parse("setoption"), Err(UziErr::SetOptErr));
    assert_eq!(GuiCmd::parse("setoption Hash"), Err(UziErr::SetOptErr));
    assert_eq!(GuiCmd::parse("setoption name"), Err(UziErr::SetOptErr));
    assert_eq!(GuiCmd::parse("setoption name value 3"), Err(UziErr::SetOptErr));
    let mut ts = TokenStream::new("value 3");
    assert_eq!(parse_setopt(&mut ts), Err(UziErr::SetOptErr));
}

#[test]
fn try_from_reads_a_line() {
    assert_eq!(GuiCmd::try_from("isready"), Ok(GuiCmd::IsReady));
    assert_eq!(GuiCmd::try_from(""), Err(UziErr::MissingCmd));
    assert_eq!(GuiCmd::try_from("debug off"), GuiCmd::parse("debug off"));
}

#[test]
fn go_builder_builds_once() {
    let mut b = GoBuilder::new();
    b.depth(5).wtime(1000).ponder();
    let go = b.build().unwrap();
    assert_eq!(go.depth, Some(5));
    assert_eq!(go.wtime, Some(1000));
    assert_eq!(go.ponder, Some(true));
    assert_eq!(go.infinite, None);
    assert_eq!(b.build(), Err(UziErr::NothingSetForGo));
}

#[test]
fn go_builder_needs_something() {
    assert_eq!(GoBuilder::new().build(), Err(UziErr::NothingSetForGo));
    let mut b = GoBuilder::new();
    b.infinite();
    let go = b.build().unwrap();
    assert_eq!(go.infinite, Some(()));
    assert!(!go.is_unset());
    assert!(Go::new().is_unset());
    assert_eq!(Go::new(), Go::default());
}

#[test]
fn go_builder_setters() {
    let mut b = GoBuilder::new();
    b.search_moves(strings(&["e2e4"]))
        .btime(2)
        .winc(3)
        .binc(4)
        .moves_to_go(5)
        .nodes(6)
        .mate(7)
        .move_time(8);
    let go = b.build().unwrap();
    assert_eq!(go.search_moves, Some(strings(&["e2e4"])));
    assert_eq!(
        (go.btime, go.winc, go.binc, go.moves_to_go, go.nodes, go.mate, go.move_time),
        (Some(2), Some(3), Some(4), Some(5), Some(6), Some(7), Some(8))
    );
    assert_eq!((go.wtime, go.depth, go.ponder), (None, None, None));
}

#[test]
fn pos_builder_last_base_wins() {
    let mut b = PosBuilder::new();
    b.fen("8/8/8/8/8/8/8/8 w - - 0 1").start_pos();
    assert_eq!(b.build().unwrap().pos, PosOpt::StartPos);
    let mut b = PosBuilder::new();
    b.start_pos().fen("8/8/8/8/8/8/8/8 w - - 0 1");
    assert_eq!(b.build().unwrap().pos, PosOpt::Fen("8/8/8/8/8/8/8/8 w - - 0 1".to_string()));
}

#[test]
fn pos_builder_keeps_the_order_of_moves() {
    let mut b = PosBuilder::new();
    b.add_move("e2e4").start_pos().add_move("e7e5").add_move("g1f3");
    let pos: Pos = b.build().unwrap();
    assert_eq!(pos.moves, Some(strings(&["e2e4", "e7e5", "g1f3"])));
    assert_eq!(b.build(), Err(UziErr::Position));
}

#[test]
fn pos_builder_needs_a_base() {
    let mut b = PosBuilder::new();
    assert_eq!(b.build(), Err(UziErr::Position));
    b.add_move("e2e4");
    assert_eq!(b.build(), Err(UziErr::Position));
    b.start_pos();
    let pos = b.build().unwrap();
    assert_eq!(pos.moves, Some(strings(&["e2e4"])));
}
