use std::str::FromStr;
use uzi::engcmd::CurrLine;
use uzi::engcmd::EngCmd;
use uzi::engcmd::Info;
use uzi::engcmd::MultiPv;
use uzi::engcmd::Refutation;
use uzi::engcmd::Score;
use uzi::engcmd::ScoreBound;
use uzi::err::UziErr;
use uzi::opt::HasOpt;
use uzi::opt::OptKind;
use uzi::pm::Pm;
use uzi::pm::Promo;

fn pm(s: &str) -> Pm {
    Pm::from_str(s).unwrap()
}

#[test]
fn engcmd_id_name() {
    let cmd = EngCmd::IdName("funnychess".into());
    assert_eq!(cmd.to_text().as_str(), "id name funnychess");
}

#[test]
fn engcmd_id_author() {
    let cmd = EngCmd::IdAuthor("Omar S".into());
    assert_eq!(cmd.to_text().as_str(), "id author Omar S");
}

#[test]
fn engcmd_uciok() {
    assert_eq!(EngCmd::UciOk.to_text().as_str(), "uciok");
}

#[test]
fn engcmd_readyok() {
    assert_eq!(EngCmd::ReadyOk.to_text().as_str(), "readyok");
}

#[test]
fn engcmd_bestmove() {
    let best = Pm::from_str("e2e4").unwrap();

    let best_move = EngCmd::BestMove {
        best: best,
        ponder: None,
    };

    assert_eq!(best_move.to_text().as_str(), "bestmove e2e4");

    let best_move = EngCmd::BestMove {
        best: best,
        ponder: Some(Pm::from_str("e7e6").unwrap()),
    };

    assert_eq!(best_move.to_text().as_str(), "bestmove e2e4 ponder e7e6");
}

#[test]
fn move_token_reads_and_writes() {
    let m = pm("e7e8q");
    assert_eq!(m.from_file, 4);
    assert_eq!(m.from_rank, 7);
    assert_eq!(m.to_file, 4);
    assert_eq!(m.to_rank, 8);
    assert_eq!(m.promo, Some(Promo::Queen));
    assert_eq!(m.to_text(), "e7e8q");
    assert_eq!(pm("a1h8").to_text(), "a1h8");
    assert_eq!(pm("g7g8n").promo, Some(Promo::Knight));
    assert_eq!(pm("g7g8r").promo, Some(Promo::Rook));
    assert_eq!(pm("g7g8b").promo, Some(Promo::Bishop));
}

#[test]
fn move_token_rejects_what_is_no_move() {
    for bad in ["", "e2", "e2e", "e2e4qq", "i2e4", "e9e4", "e2e0", "e2e4k", "E2E4", "e2 e4"] {
        assert_eq!(Pm::from_text(bad), Err(UziErr::What), "{:?}", bad);
        assert_eq!(Pm::from_str(bad), Err(UziErr::What), "{:?}", bad);
    }
}

#[test]
fn score_bound_keywords() {
    assert_eq!(ScoreBound::Lower.as_str(), "lowerbound");
    assert_eq!(ScoreBound::Upper.as_str(), "upperbound");
}

#[test]
fn score_text() {
    let mut s = String::new();
    Score::new(214, None, None).push_text(&mut s);
    assert_eq!(s, "score cp 214");
    let mut s = String::new();
    Score::new(-35, Some(-3), Some(ScoreBound::Upper)).push_text(&mut s);
    assert_eq!(s, "score cp -35 -3 upperbound");
    let mut s = String::new();
    Score::new(i32::MIN, Some(i16::MIN), Some(ScoreBound::Lower)).push_text(&mut s);
    assert_eq!(s, "score cp -2147483648 -32768 lowerbound");
    let mut s = String::new();
    Score::new(0, Some(5), None).push_text(&mut s);
    assert_eq!(s, "score cp 0 5");
}

#[test]
fn info_empty() {
    assert_eq!(Info::new().to_text(), "info");
    assert_eq!(EngCmd::Info(Info::new()).to_text(), "info");
}

#[test]
fn info_numbers() {
    let info = Info::new().depth(12).node(123456).nodes_per_sec(1000000);
    assert_eq!(info.to_text(), "info depth 12 node 123456 nps 1000000");
    let info = Info::new().time(1242).hash_full(0).cpu_load(1001).tb_hits(7).sb_hits(u32::MAX);
    assert_eq!(
        info.to_text(),
        "info time 1242 hashfull 0 tbhits 7 sbhits 4294967295 cpuload 1001"
    );
    let info = Info::new().time(u128::MAX).depth(u16::MAX);
    assert_eq!(
        info.to_text(),
        "info depth 65535 time 340282366920938463463374607431768211455"
    );
}

#[test]
fn info_sel_depth_brings_depth() {
    let info = Info::new().sel_depth(9, 17);
    assert_eq!(info.depth, Some(9));
    assert_eq!(info.sel_depth, Some(17));
    assert_eq!(info.to_text(), "info depth 9 seldepth 17");
}

#[test]
fn info_order_does_not_follow_the_setters() {
    let a = Info::new()
        .string("hello  world".to_string())
        .score(Score::new(214, None, None))
        .pv(vec![pm("e2e4"), pm("e7e5"), pm("g1f3")])
        .depth(2);
    let b = Info::new()
        .depth(2)
        .pv(vec![pm("e2e4"), pm("e7e5"), pm("g1f3")])
        .score(Score::new(214, None, None))
        .string("hello  world".to_string());
    assert_eq!(a, b);
    assert_eq!(a.to_text(), b.to_text());
    assert_eq!(
        a.to_text(),
        "info depth 2 pv e2e4 e7e5 g1f3 score cp 214 string hello  world"
    );
}

#[test]
fn info_every_field() {
    let info = Info::new()
        .curr_line(CurrLine::new(Some(2), vec![pm("a2a3"), pm("a7a6")]))
        .refutation(Refutation::new(pm("d1h5"), vec![pm("g6h5")]))
        .string("so it goes".to_string())
        .cpu_load(500)
        .sb_hits(4)
        .tb_hits(3)
        .nodes_per_sec(2)
        .hash_full(1000)
        .curr_move(pm("b1c3"))
        .score(Score::new(-1, Some(3), Some(ScoreBound::Lower)))
        .multi_pv(MultiPv::new(1, vec![pm("e2e4")]))
        .pv(vec![pm("e2e4")])
        .time(10)
        .node(99)
        .sel_depth(5, 6);
    assert_eq!(
        info.to_text(),
        "info depth 5 seldepth 6 node 99 time 10 pv e2e4 multipv 1 e2e4 \
         score cp -1 3 lowerbound currmove b1c3 hashfull 1000 nps 2 tbhits 3 sbhits 4 \
         cpuload 500 string so it goes refutation d1h5 g6h5 currline 2 a2a3 a7a6"
    );
    let line = EngCmd::Info(info).to_text();
    assert!(!line.contains('\n'));
    assert!(!line.ends_with(' '));
}

#[test]
fn info_segments_one_by_one() {
    let info = Info::new().depth(3).curr_move(pm("h2h4"));
    let mut s = String::new();
    for i in 0..16 {
        let before = s.len();
        info.push_segment(&mut s, i);
        if i != 0 && i != 7 {
            assert_eq!(s.len(), before);
        }
    }
    assert_eq!(s, " depth 3 currmove h2h4");
}

#[test]
fn texts_of_the_parts() {
    assert_eq!(Score::new(12, Some(1), None).to_text(), "score cp 12 1");
    assert_eq!(MultiPv::new(2, vec![pm("e2e4"), pm("e7e5")]).to_text(), "multipv 2 e2e4 e7e5");
    assert_eq!(CurrLine::new(Some(3), vec![pm("e2e4")]).to_text(), "currline 3 e2e4");
    assert_eq!(Refutation::new(pm("d1h5"), vec![pm("g6h5")]).to_text(), "refutation d1h5 g6h5");
    assert_eq!(HasOpt::new("Ponder".to_string(), OptKind::Check).to_text(), "option name Ponder type check");
}

#[test]
fn lines_of_moves() {
    let mut s = String::new();
    MultiPv::new(3, vec![]).push_text(&mut s);
    assert_eq!(s, "multipv 3");
    let mut s = String::new();
    CurrLine::new(None, vec![pm("e2e4")]).push_text(&mut s);
    assert_eq!(s, "currline e2e4");
    let mut s = String::new();
    CurrLine::new(Some(1), vec![]).push_text(&mut s);
    assert_eq!(s, "currline 1");
    let mut s = String::new();
    Refutation::new(pm("d1h5"), vec![]).push_text(&mut s);
    assert_eq!(s, "refutation d1h5");
    let mut s = String::from(">");
    uzi::engcmd::push_line(&mut s, &vec![pm("e2e4"), pm("e7e8q")]);
    assert_eq!(s, "> e2e4 e7e8q");
}

#[test]
fn option_declarations() {
    let opt = HasOpt::new("Hash".to_string(), OptKind::Spin);
    assert_eq!(EngCmd::HasOpt(opt).to_text(), "option name Hash type spin");
    let mut opt = HasOpt::new("Hash".to_string(), OptKind::Spin);
    opt.default = Some("16".to_string());
    opt.min = Some(-1);
    opt.max = Some(i64::MAX);
    assert_eq!(
        EngCmd::HasOpt(opt).to_text(),
        "option name Hash type spin default 16 min -1 max 9223372036854775807"
    );
    let mut opt = HasOpt::new("Style".to_string(), OptKind::Combo);
    opt.default = Some("Normal".to_string());
    opt.vars = vec!["Solid".to_string(), "Normal".to_string(), "Risky".to_string()];
    assert_eq!(
        EngCmd::HasOpt(opt).to_text(),
        "option name Style type combo default Normal var Solid var Normal var Risky"
    );
    assert_eq!(OptKind::Check.as_str(), "check");
    assert_eq!(OptKind::Button.as_str(), "button");
    assert_eq!(OptKind::Text.as_str(), "string");
}
