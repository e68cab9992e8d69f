use bf_interp::dump::Dumpable;
use bf_interp::{
    link_loops, optimize, parse, pass_collapse_duplicated, pass_move_value, pass_zero_cell,
    replace_in_ast, Ast, Token, TokenType,
};

fn kinds(ast: &Ast) -> Vec<(TokenType, i32)> {
    ast.iter().map(|t| (t.tk, t.value)).collect()
}

fn parsed(src: &str) -> Ast {
    parse(&src.to_string()).unwrap()
}

#[test]
fn parse_maps_commands_and_skips_comments() {
    let ast = parsed("+a-<b>.,[]\n");
    assert_eq!(
        kinds(&ast),
        vec![
            (TokenType::Add, 1),
            (TokenType::Sub, 1),
            (TokenType::Left, 1),
            (TokenType::Right, 1),
            (TokenType::Out, 0),
            (TokenType::In, 0),
            (TokenType::LoopStart, -1),
            (TokenType::LoopEnd, -1),
            (TokenType::End, 0),
        ]
    );
}

#[test]
fn parse_empty_source_is_just_end() {
    assert_eq!(kinds(&parsed("no commands here")), vec![(TokenType::End, 0)]);
}

#[test]
fn replace_edits_from_the_back() {
    let mut ast = parsed("+-<>.,");
    let reps = vec![
        (0, 2, Token::new(TokenType::SetCell, 7)),
        (3, 5, Token::new(TokenType::Move, -2)),
    ];
    replace_in_ast(&mut ast, reps);
    assert_eq!(
        kinds(&ast),
        vec![
            (TokenType::SetCell, 7),
            (TokenType::Left, 1),
            (TokenType::Move, -2),
            (TokenType::In, 0),
            (TokenType::End, 0),
        ]
    );
}

#[test]
fn collapse_counts_runs() {
    let mut ast = parsed("++++-->>><.");
    pass_collapse_duplicated(&mut ast);
    assert_eq!(
        kinds(&ast),
        vec![
            (TokenType::Add, 4),
            (TokenType::Sub, 2),
            (TokenType::Right, 3),
            (TokenType::Left, 1),
            (TokenType::Out, 0),
            (TokenType::End, 0),
        ]
    );
}

#[test]
fn collapse_leaves_other_kinds_alone() {
    let mut ast = parsed("..,,[[]]");
    let before = kinds(&ast);
    pass_collapse_duplicated(&mut ast);
    assert_eq!(kinds(&ast), before);
}

#[test]
fn collapse_twice_equals_once() {
    let mut once = parsed("+++>>--<<<<[->>+<<]..+-+-");
    pass_collapse_duplicated(&mut once);
    let mut twice = parsed("+++>>--<<<<[->>+<<]..+-+-");
    pass_collapse_duplicated(&mut twice);
    pass_collapse_duplicated(&mut twice);
    assert_eq!(kinds(&once), kinds(&twice));
}

#[test]
fn zero_cell_folds_odd_steps() {
    for src in ["[-]", "[+]", "[---]", "[+++++]"] {
        let mut ast = parsed(src);
        pass_collapse_duplicated(&mut ast);
        pass_zero_cell(&mut ast);
        assert_eq!(kinds(&ast), vec![(TokenType::SetCell, 0), (TokenType::End, 0)], "{}", src);
    }
}

#[test]
fn zero_cell_keeps_even_steps() {
    let mut ast = parsed("[--]");
    pass_collapse_duplicated(&mut ast);
    pass_zero_cell(&mut ast);
    assert_eq!(
        kinds(&ast),
        vec![
            (TokenType::LoopStart, -1),
            (TokenType::Sub, 2),
            (TokenType::LoopEnd, -1),
            (TokenType::End, 0),
        ]
    );
}

#[test]
fn zero_cell_inside_another_loop() {
    let mut ast = parsed("[[-]>]");
    pass_collapse_duplicated(&mut ast);
    pass_zero_cell(&mut ast);
    assert_eq!(
        kinds(&ast),
        vec![
            (TokenType::LoopStart, -1),
            (TokenType::SetCell, 0),
            (TokenType::Right, 1),
            (TokenType::LoopEnd, -1),
            (TokenType::End, 0),
        ]
    );
}

#[test]
fn move_right_has_positive_offset() {
    let mut ast = parsed("[->+<]");
    pass_collapse_duplicated(&mut ast);
    pass_move_value(&mut ast);
    assert_eq!(kinds(&ast), vec![(TokenType::Move, 1), (TokenType::End, 0)]);
}

#[test]
fn move_left_has_negative_offset() {
    let mut ast = parsed("[-<+>]");
    pass_collapse_duplicated(&mut ast);
    pass_move_value(&mut ast);
    assert_eq!(kinds(&ast), vec![(TokenType::Move, -1), (TokenType::End, 0)]);
}

#[test]
fn move_over_several_cells() {
    let mut ast = parsed("[->>>+<<<][-<<+>>]");
    pass_collapse_duplicated(&mut ast);
    pass_move_value(&mut ast);
    assert_eq!(
        kinds(&ast),
        vec![(TokenType::Move, 3), (TokenType::Move, -2), (TokenType::End, 0)]
    );
}

#[test]
fn move_needs_decrement_first() {
    let mut ast = parsed("[>+<-]");
    let before = kinds(&ast);
    optimize(&mut ast);
    assert_eq!(kinds(&ast), before);
}

#[test]
fn move_needs_matching_distance() {
    let mut ast = parsed("[->>+<]");
    pass_collapse_duplicated(&mut ast);
    let before = kinds(&ast);
    pass_move_value(&mut ast);
    assert_eq!(kinds(&ast), before);
}

#[test]
fn optimize_runs_all_passes() {
    let mut ast = parsed("+++[-]>>[->+<]");
    optimize(&mut ast);
    assert_eq!(
        kinds(&ast),
        vec![
            (TokenType::Add, 3),
            (TokenType::SetCell, 0),
            (TokenType::Right, 2),
            (TokenType::Move, 1),
            (TokenType::End, 0),
        ]
    );
}

#[test]
fn link_sets_partners() {
    let mut ast = parsed("[[]+]");
    assert_eq!(link_loops(&mut ast), Ok(()));
    assert_eq!(
        kinds(&ast),
        vec![
            (TokenType::LoopStart, 4),
            (TokenType::LoopStart, 2),
            (TokenType::LoopEnd, 1),
            (TokenType::Add, 1),
            (TokenType::LoopEnd, 0),
            (TokenType::End, 0),
        ]
    );
}

#[test]
fn link_rejects_unmatched_end() {
    let mut ast = parsed("[]]");
    assert_eq!(link_loops(&mut ast), Err("Unmatched ]"));
    let mut ast = parsed("][");
    assert_eq!(link_loops(&mut ast), Err("Unmatched ]"));
}

#[test]
fn link_rejects_unmatched_start() {
    let mut ast = parsed("[[]");
    assert_eq!(link_loops(&mut ast), Err("Unmatched ["));
}

#[test]
fn dump_indents_loops() {
    let mut ast = parsed("++[->+<]+[>-<-].");
    optimize(&mut ast);
    link_loops(&mut ast).unwrap();
    assert_eq!(ast.dump(), "+2 M1 + \n[ \n  > - < - \n] \n");
}

#[test]
fn dump_writes_counts_and_names() {
    let ast: Ast = vec![
        Token::new(TokenType::SetCell, 0),
        Token::new(TokenType::Move, -12),
        Token::new(TokenType::Sub, 1),
        Token::new(TokenType::Left, 3),
        Token::new(TokenType::In, 0),
        Token::new(TokenType::Invalid, 0),
        Token::new(TokenType::LoopStart, 7),
        Token::new(TokenType::LoopEnd, 6),
        Token::new(TokenType::End, 0),
    ];
    assert_eq!(ast.dump(), "S0 M-12 - <3 , INVALID \n[ \n  \n] \n");
}

#[test]
fn dump_flushes_long_lines() {
    let ast = parsed(&"+.".repeat(41));
    let text = ast.dump();
    let row = "+ . ".repeat(20) + "\n";
    assert_eq!(text, row.repeat(2));
}
