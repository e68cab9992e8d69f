use vstd::prelude::*;
use vstd::std_specs::iter::IteratorSpec;

verus! {

/// The kind of an instruction.
#[derive(Clone, Copy, Debug, PartialEq, Eq, Structural)]
pub enum TokenType {
    /// Marks "no match" while a pass scans; never left in a finished sequence.
    Invalid,
    /// Halts execution; the last instruction of every sequence.
    End,
    Add,
    Sub,
    Left,
    Right,
    Out,
    In,
    LoopStart,
    LoopEnd,
    /// Assigns the payload to the current cell.
    SetCell,
    /// Adds the current cell into the cell `value` places away, then zeroes it.
    Move,
}

/// One instruction: a kind and its payload.
#[derive(Clone, Copy, Debug, PartialEq, Eq, Structural)]
pub struct Token {
    pub tk: TokenType,
    pub value: i32,
}

/// An instruction sequence.
pub type Ast = Vec<Token>;

impl Token {
    pub fn new(tk: TokenType, value: i32) -> (r: Token)
        ensures
            r == (Token { tk, value }),
    {
        Token { tk, value }
    }
}

/// The instruction that a source character stands for, if it is a command.
pub open spec fn char_token(c: char) -> Option<Token> {
    if c == '+' {
        Some(Token { tk: TokenType::Add, value: 1 })
    } else if c == '-' {
        Some(Token { tk: TokenType::Sub, value: 1 })
    } else if c == '>' {
        Some(Token { tk: TokenType::Right, value: 1 })
    } else if c == '<' {
        Some(Token { tk: TokenType::Left, value: 1 })
    } else if c == '.' {
        Some(Token { tk: TokenType::Out, value: 0 })
    } else if c == ',' {
        Some(Token { tk: TokenType::In, value: 0 })
    } else if c == '[' {
        Some(Token { tk: TokenType::LoopStart, value: -1i32 })
    } else if c == ']' {
        Some(Token { tk: TokenType::LoopEnd, value: -1i32 })
    } else {
        None
    }
}

/// The instructions of the commands in `s`, in order; other characters are comments.
pub open spec fn tokenize(s: Seq<char>) -> Seq<Token>
    decreases s.len(),
{
    if s.len() == 0 {
        Seq::empty()
    } else {
        let rest = tokenize(s.drop_last());
        match char_token(s.last()) {
            Some(t) => rest.push(t),
            None => rest,
        }
    }
}

/// The sentinel that ends every sequence.
pub open spec fn end_token() -> Token {
    Token { tk: TokenType::End, value: 0 }
}

/// Parses raw text into an instruction sequence ending in `End`.
pub fn parse(raw: &String) -> (r: Result<Ast, &'static str>)
    ensures
        r matches Ok(ast) && ast@ == tokenize(raw@).push(end_token()),
{
    let mut ast = Ast::new();
    let mut chars = raw.as_str().chars();
    let ghost mut done: Seq<char> = Seq::empty();
    loop
        invariant
            done + chars.remaining() == raw@,
            ast@ == tokenize(done),
            chars.decrease() is Some,
        ensures
            done == raw@,
            ast@ == tokenize(done),
        decreases chars.decrease()->0,
    {
        let c = match chars.next() {
            Some(c) => c,
            None => break,
        };
        proof {
            assert(done.push(c).drop_last() == done);
            done = done.push(c);
        }
        if c == '+' {
            ast.push(Token::new(TokenType::Add, 1));
        } else if c == '-' {
            ast.push(Token::new(TokenType::Sub, 1));
        } else if c == '>' {
            ast.push(Token::new(TokenType::Right, 1));
        } else if c == '<' {
            ast.push(Token::new(TokenType::Left, 1));
        } else if c == '.' {
            ast.push(Token::new(TokenType::Out, 0));
        } else if c == ',' {
            ast.push(Token::new(TokenType::In, 0));
        } else if c == '[' {
            ast.push(Token::new(TokenType::LoopStart, -1));
        } else if c == ']' {
            ast.push(Token::new(TokenType::LoopEnd, -1));
        }
    }
    ast.push(Token::new(TokenType::End, 0));
    Ok(ast)
}

} // verus!
