//! Assembly of a token sequence into a pipeline of commands.
//!
//! One forward pass with a single token of lookahead.  A `Word` becomes the
//! current command's program name if none is set, otherwise its next
//! argument.  A redirection token takes the following `Word` as its target,
//! overwriting any earlier pending redirection — the last one before a pipe
//! or the end wins.  A redirection token not followed by a `Word` is
//! silently ignored: it sets no target, and the following token is read by
//! its own rule.  A `Pipe` finalizes the current command when one has a
//! program name, and is a silent no-op otherwise.  An `Ampersand` anywhere
//! marks the whole line as background.  At the end of the tokens a pending
//! command is finalized, so a blank line yields an empty pipeline.

use vstd::prelude::*;

use crate::command::Command;
use crate::command::CommandView;
use crate::command::RedirectCode;
use crate::command::Redirection;
use crate::command::RedirectionView;
use crate::tokenizer::Token;
use crate::tokenizer::TokenView;

verus! {

/// The commands of one input line, in source order.
#[derive(Debug, Clone, PartialEq)]
pub struct Pipeline {
    pub commands: Vec<Command>,
}

impl View for Pipeline {
    type V = Seq<CommandView>;

    open spec fn view(&self) -> Seq<CommandView> {
        self.commands.deep_view()
    }
}

/// Whether the line runs in the foreground or was marked `&`.
///
/// The marker is parsed and carried, but execution stays synchronous: the
/// surrounding program runs every line in the foreground.
#[derive(Debug, Clone, Copy, PartialEq, Eq, Structural)]
pub enum ExecMode {
    Foreground,
    Background,
}

/// A fully parsed input line: the pipeline and its execution mode.
#[derive(Debug, Clone, PartialEq)]
pub struct ParsedLine {
    pub pipeline: Pipeline,
    pub mode: ExecMode,
}

/// The mathematical value of a [`ParsedLine`].
pub ghost struct ParsedLineView {
    pub commands: Seq<CommandView>,
    pub mode: ExecMode,
}

impl View for ParsedLine {
    type V = ParsedLineView;

    open spec fn view(&self) -> ParsedLineView {
        ParsedLineView { commands: self.pipeline@, mode: self.mode }
    }
}

/// The parser's running state: the command being assembled, its pending
/// redirection, the line's mode so far, and the finished commands.
pub ghost struct ParseState {
    pub program: Option<Seq<char>>,
    pub args: Seq<Seq<char>>,
    pub redirection: Option<RedirectionView>,
    pub mode: ExecMode,
    pub commands: Seq<CommandView>,
}

/// The state at the start of a line.
pub open spec fn parse_init() -> ParseState {
    ParseState {
        program: None,
        args: Seq::empty(),
        redirection: None,
        mode: ExecMode::Foreground,
        commands: Seq::empty(),
    }
}

/// The finished commands once a pending command (one with a program name)
/// is finalized.
pub open spec fn parse_flushed(st: ParseState) -> Seq<CommandView> {
    match st.program {
        Some(p) => st.commands.push(
            CommandView { program: p, args: st.args, redirection: st.redirection },
        ),
        None => st.commands,
    }
}

/// The redirection a redirection token constructs for target `f`.
pub open spec fn redirection_of(t: TokenView, f: Seq<char>) -> RedirectionView {
    match t {
        TokenView::RedirectIn => RedirectionView::Input(f),
        TokenView::RedirectOut => RedirectionView::OutputTruncate(RedirectCode::One, f),
        TokenView::RedirectErrOut => RedirectionView::OutputTruncate(RedirectCode::Two, f),
        TokenView::RedirectAppend => RedirectionView::OutputAppend(RedirectCode::One, f),
        _ => arbitrary(),
    }
}

/// The parsed line produced by reading `ts` from state `st`: the parser's
/// grammar, one token (or one token plus its lookahead) per step.
pub open spec fn parse_from(ts: Seq<TokenView>, st: ParseState) -> ParsedLineView
    decreases ts.len(),
{
    if ts.len() == 0 {
        ParsedLineView { commands: parse_flushed(st), mode: st.mode }
    } else {
        match ts[0] {
            TokenView::Word(w) => {
                let st2 = if st.program is None {
                    ParseState { program: Some(w), ..st }
                } else {
                    ParseState { args: st.args.push(w), ..st }
                };
                parse_from(ts.skip(1), st2)
            },
            TokenView::Pipe => {
                let st2 = match st.program {
                    Some(p) => ParseState {
                        program: None,
                        args: Seq::empty(),
                        redirection: None,
                        commands: st.commands.push(
                            CommandView { program: p, args: st.args, redirection: st.redirection },
                        ),
                        ..st
                    },
                    None => st,
                };
                parse_from(ts.skip(1), st2)
            },
            TokenView::Ampersand => parse_from(
                ts.skip(1),
                ParseState { mode: ExecMode::Background, ..st },
            ),
            _ => {
                if ts.len() >= 2 {
                    match ts[1] {
                        TokenView::Word(f) => parse_from(
                            ts.skip(2),
                            ParseState { redirection: Some(redirection_of(ts[0], f)), ..st },
                        ),
                        _ => parse_from(ts.skip(1), st),
                    }
                } else {
                    parse_from(ts.skip(1), st)
                }
            },
        }
    }
}

/// The parsed line of a whole token sequence.
pub open spec fn spec_parse(ts: Seq<TokenView>) -> ParsedLineView {
    parse_from(ts, parse_init())
}

/// Assembler of tokens into a [`ParsedLine`].
pub struct Parser;

impl Parser {
    /// Parses the token sequence of one input line.
    pub fn parse(tokens: Vec<Token>) -> (r: ParsedLine)
        ensures
            r@ == spec_parse(tokens.deep_view()),
    {
        let n = tokens.len();
        let mut commands: Vec<Command> = Vec::new();
        let mut args: Vec<String> = Vec::new();
        let mut program: Option<String> = None;
        let mut redirection: Option<Redirection> = None;
        let mut exec_mode = ExecMode::Foreground;
        let mut i: usize = 0;
        proof {
            assert(tokens.deep_view().skip(0) =~= tokens.deep_view());
            assert(commands.deep_view() =~= Seq::<CommandView>::empty());
            assert(args.deep_view() =~= Seq::<Seq<char>>::empty());
        }
        while i < n
            invariant
                i <= n,
                n == tokens@.len(),
                spec_parse(tokens.deep_view()) == parse_from(
                    tokens.deep_view().skip(i as int),
                    ParseState {
                        program: program.deep_view(),
                        args: args.deep_view(),
                        redirection: redirection.deep_view(),
                        mode: exec_mode,
                        commands: commands.deep_view(),
                    },
                ),
            decreases n - i,
        {
            let ghost pre = tokens.deep_view().skip(i as int);
            let ghost st = ParseState {
                program: program.deep_view(),
                args: args.deep_view(),
                redirection: redirection.deep_view(),
                mode: exec_mode,
                commands: commands.deep_view(),
            };
            proof {
                assert(pre.len() == n - i);
                assert(pre[0] == tokens.deep_view()[i as int]);
                assert(pre.skip(1) =~= tokens.deep_view().skip(i as int + 1));
                if i + 1 < n {
                    assert(pre[1] == tokens.deep_view()[i as int + 1]);
                    assert(pre.skip(2) =~= tokens.deep_view().skip(i as int + 2));
                }
            }
            match &tokens[i] {
                Token::Word(w) => {
                    if program.is_none() {
                        program = Some(w.clone());
                    } else {
                        args.push(w.clone());
                        proof {
                            assert(args.deep_view() =~= st.args.push(w@));
                        }
                    }
                    i = i + 1;
                },
                Token::RedirectIn => {
                    if i + 1 < n {
                        match &tokens[i + 1] {
                            Token::Word(f) => {
                                redirection = Some(
                                    Redirection::Input(f.clone()),
                                );
                                i = i + 2;
                            },
                            _ => {
                                i = i + 1;
                            },
                        }
                    } else {
                        i = i + 1;
                    }
                },
                Token::RedirectOut => {
                    if i + 1 < n {
                        match &tokens[i + 1] {
                            Token::Word(f) => {
                                redirection = Some(
                                    Redirection::OutputTruncate(RedirectCode::One, f.clone()),
                                );
                                i = i + 2;
                            },
                            _ => {
                                i = i + 1;
                            },
                        }
                    } else {
                        i = i + 1;
                    }
                },
                Token::RedirectErrOut => {
                    if i + 1 < n {
                        match &tokens[i + 1] {
                            Token::Word(f) => {
                                redirection = Some(
                                    Redirection::OutputTruncate(RedirectCode::Two, f.clone()),
                                );
                                i = i + 2;
                            },
                            _ => {
                                i = i + 1;
                            },
                        }
                    } else {
                        i = i + 1;
                    }
                },
                Token::RedirectAppend => {
                    if i + 1 < n {
                        match &tokens[i + 1] {
                            Token::Word(f) => {
                                redirection = Some(
                                    Redirection::OutputAppend(RedirectCode::One, f.clone()),
                                );
                                i = i + 2;
                            },
                            _ => {
                                i = i + 1;
                            },
                        }
                    } else {
                        i = i + 1;
                    }
                },
                Token::Pipe => {
                    let taken = program;
                    program = None;
                    if let Some(p) = taken {
                        let cmd_args = args;
                        args = Vec::new();
                        let red = redirection;
                        redirection = None;
                        commands.push(Command { program: p, args: cmd_args, redirection: red });
                        proof {
                            assert(commands.deep_view() =~= st.commands.push(
                                CommandView {
                                    program: st.program->0,
                                    args: st.args,
                                    redirection: st.redirection,
                                },
                            ));
                            assert(args.deep_view() =~= Seq::<Seq<char>>::empty());
                        }
                    }
                    i = i + 1;
                },
                Token::Ampersand => {
                    exec_mode = ExecMode::Background;
                    i = i + 1;
                },
            }
            proof {
                assert(parse_from(pre, st) == parse_from(
                    tokens.deep_view().skip(i as int),
                    ParseState {
                        program: program.deep_view(),
                        args: args.deep_view(),
                        redirection: redirection.deep_view(),
                        mode: exec_mode,
                        commands: commands.deep_view(),
                    },
                ));
            }
        }
        proof {
            assert(tokens.deep_view().skip(n as int) =~= Seq::<TokenView>::empty());
        }
        let ghost st_end = ParseState {
            program: program.deep_view(),
            args: args.deep_view(),
            redirection: redirection.deep_view(),
            mode: exec_mode,
            commands: commands.deep_view(),
        };
        if let Some(p) = program {
            commands.push(Command { program: p, args, redirection });
            proof {
                assert(commands.deep_view() =~= parse_flushed(st_end));
            }
        }
        ParsedLine { pipeline: Pipeline { commands }, mode: exec_mode }
    }
}

} // verus!
