//! Lexical analysis of one input line.
//!
//! The tokenizer walks the line character by character while keeping two
//! mutually exclusive flags, "inside single quotes" and "inside double
//! quotes".  Quote characters toggle the flags and are elided from the
//! emitted text.  Outside quotes, in priority order: whitespace (a space or
//! a tab) flushes the accumulated word;
//! `>` flushes and emits `RedirectAppend` when a second `>`
//! follows, else `RedirectOut`; `<`, `|` and `&` flush and emit their tokens;
//! a backslash takes the next character literally.  Inside double quotes a
//! backslash escapes only `"`, `\`, `$` and a backtick, and is kept literally
//! before any other character.  Every other character joins the accumulated
//! word.
//!
//! The grammar fixes two relaxed points precisely:
//! - an accumulated word that is exactly `1` is discarded when an unquoted
//!   `>` follows: it is an explicit standard-output marker, so `1>` means `>`
//!   and `1>>` means `>>`;
//! - an unterminated quote closes implicitly at end of input, where a
//!   non-empty accumulated word is flushed as a final `Word`; the tokenizer
//!   never fails.

use vstd::prelude::*;
use vstd::string::StrSliceExecFns;

verus! {

/// One lexical token of the command grammar.
#[derive(Debug, Clone, PartialEq)]
pub enum Token {
    /// A word: a program name, an argument, or a redirection target.
    Word(String),
    /// `|`
    Pipe,
    /// `&`
    Ampersand,
    /// `<`
    RedirectIn,
    /// `>` (also written `1>`)
    RedirectOut,
    /// `2>`-style redirection of standard error; never produced by the
    /// tokenizer itself, but carried through the grammar for the parser.
    RedirectErrOut,
    /// `>>` (also written `1>>`)
    RedirectAppend,
}

/// The mathematical value of a [`Token`].
pub ghost enum TokenView {
    Word(Seq<char>),
    Pipe,
    Ampersand,
    RedirectIn,
    RedirectOut,
    RedirectErrOut,
    RedirectAppend,
}

impl View for Token {
    type V = TokenView;

    open spec fn view(&self) -> TokenView {
        match self {
            Token::Word(s) => TokenView::Word(s@),
            Token::Pipe => TokenView::Pipe,
            Token::Ampersand => TokenView::Ampersand,
            Token::RedirectIn => TokenView::RedirectIn,
            Token::RedirectOut => TokenView::RedirectOut,
            Token::RedirectErrOut => TokenView::RedirectErrOut,
            Token::RedirectAppend => TokenView::RedirectAppend,
        }
    }
}

impl DeepView for Token {
    type V = TokenView;

    open spec fn deep_view(&self) -> TokenView {
        self.view()
    }
}

/// The tokenizer's running state: the two quote flags, the word accumulated
/// so far, and the tokens already emitted.
pub ghost struct LexState {
    pub in_single: bool,
    pub in_double: bool,
    pub word: Seq<char>,
    pub tokens: Seq<TokenView>,
}

/// The state at the start of a line: no quotes open, nothing accumulated.
pub open spec fn lex_init() -> LexState {
    LexState { in_single: false, in_double: false, word: Seq::empty(), tokens: Seq::empty() }
}

/// Neither quote flag is set.
pub open spec fn lex_unquoted(st: LexState) -> bool {
    !st.in_single && !st.in_double
}

/// The emitted tokens once the accumulated word is flushed: a non-empty
/// accumulator becomes a final `Word`, an empty one is dropped.
pub open spec fn lex_flushed(st: LexState) -> Seq<TokenView> {
    if st.word.len() > 0 {
        st.tokens.push(TokenView::Word(st.word))
    } else {
        st.tokens
    }
}

/// Characters that a backslash escapes inside double quotes.
pub open spec fn dq_escapable(c: char) -> bool {
    c == '"' || c == '\\' || c == '$' || c == '`'
}

/// The token sequence produced by reading `s` from state `st`: the
/// tokenizer's grammar, one character (or one character plus its lookahead)
/// per step.
pub open spec fn lex_from(s: Seq<char>, st: LexState) -> Seq<TokenView>
    decreases s.len(),
{
    if s.len() == 0 {
        lex_flushed(st)
    } else {
        let c = s[0];
        if c == '\'' && !st.in_double {
            lex_from(s.skip(1), LexState { in_single: !st.in_single, ..st })
        } else if c == '"' && !st.in_single {
            lex_from(s.skip(1), LexState { in_double: !st.in_double, ..st })
        } else if (c == ' ' || c == '\t') && lex_unquoted(st) {
            lex_from(s.skip(1), LexState { word: Seq::empty(), tokens: lex_flushed(st), ..st })
        } else if c == '>' && lex_unquoted(st) {
            let emitted = if st.word == seq!['1'] {
                st.tokens
            } else {
                lex_flushed(st)
            };
            if s.len() >= 2 && s[1] == '>' {
                lex_from(
                    s.skip(2),
                    LexState {
                        word: Seq::empty(),
                        tokens: emitted.push(TokenView::RedirectAppend),
                        ..st
                    },
                )
            } else {
                lex_from(
                    s.skip(1),
                    LexState {
                        word: Seq::empty(),
                        tokens: emitted.push(TokenView::RedirectOut),
                        ..st
                    },
                )
            }
        } else if c == '<' && lex_unquoted(st) {
            lex_from(
                s.skip(1),
                LexState {
                    word: Seq::empty(),
                    tokens: lex_flushed(st).push(TokenView::RedirectIn),
                    ..st
                },
            )
        } else if c == '|' && lex_unquoted(st) {
            lex_from(
                s.skip(1),
                LexState { word: Seq::empty(), tokens: lex_flushed(st).push(TokenView::Pipe), ..st },
            )
        } else if c == '&' && lex_unquoted(st) {
            lex_from(
                s.skip(1),
                LexState {
                    word: Seq::empty(),
                    tokens: lex_flushed(st).push(TokenView::Ampersand),
                    ..st
                },
            )
        } else if c == '\\' && lex_unquoted(st) {
            if s.len() >= 2 {
                lex_from(s.skip(2), LexState { word: st.word.push(s[1]), ..st })
            } else {
                // a lone trailing backslash escapes nothing and is dropped
                lex_from(s.skip(1), st)
            }
        } else if c == '\\' && st.in_double {
            if s.len() >= 2 && dq_escapable(s[1]) {
                lex_from(s.skip(2), LexState { word: st.word.push(s[1]), ..st })
            } else {
                lex_from(s.skip(1), LexState { word: st.word.push('\\'), ..st })
            }
        } else {
            lex_from(s.skip(1), LexState { word: st.word.push(c), ..st })
        }
    }
}

/// The tokens of a whole line, read from the initial state.
pub open spec fn spec_tokenize(s: Seq<char>) -> Seq<TokenView> {
    lex_from(s, lex_init())
}

/// Whether the string is exactly the one-character word `1`.
fn is_lone_one(s: &str) -> (r: bool)
    ensures
        r == (s@ == seq!['1']),
{
    if s.unicode_len() == 1 {
        if s.get_char(0) == '1' {
            proof {
                assert(s@ =~= seq!['1']);
            }
            true
        } else {
            false
        }
    } else {
        false
    }
}

/// Splitter of a raw input line into tokens.
pub struct Tokenizer;

impl Tokenizer {
    /// Tokenizes one input line according to the quoting and redirection
    /// grammar of this module.
    pub fn tokenize(input: &str) -> (tokens: Vec<Token>)
        ensures
            tokens.deep_view() == spec_tokenize(input@),
    {
        let chars = crate::strutil::chars_of(input);
        let n = chars.len();
        let mut tokens: Vec<Token> = Vec::new();
        let mut current = String::new();
        let mut in_single = false;
        let mut in_double = false;
        let mut i: usize = 0;
        proof {
            assert(input@.skip(0) =~= input@);
            assert(tokens.deep_view() =~= Seq::<TokenView>::empty());
        }
        while i < n
            invariant
                i <= n,
                n == chars@.len(),
                chars@ == input@,
                spec_tokenize(input@) == lex_from(
                    input@.skip(i as int),
                    LexState { in_single, in_double, word: current@, tokens: tokens.deep_view() },
                ),
            decreases n - i,
        {
            let ghost pre = input@.skip(i as int);
            let ghost st = LexState {
                in_single,
                in_double,
                word: current@,
                tokens: tokens.deep_view(),
            };
            proof {
                assert(pre.len() == n - i);
                assert(pre[0] == input@[i as int]);
                assert(pre.skip(1) =~= input@.skip(i as int + 1));
                if i + 1 < n {
                    assert(pre[1] == input@[i as int + 1]);
                    assert(pre.skip(2) =~= input@.skip(i as int + 2));
                }
            }
            let c = chars[i];
            if c == '\'' && !in_double {
                in_single = !in_single;
                i = i + 1;
            } else if c == '"' && !in_single {
                in_double = !in_double;
                i = i + 1;
            } else if (c == ' ' || c == '\t') && !in_single && !in_double {
                if !current.as_str().is_empty() {
                    tokens.push(Token::Word(current));
                    current = String::new();
                }
                proof {
                    assert(tokens.deep_view() =~= lex_flushed(st));
                    assert(current@ =~= Seq::<char>::empty());
                }
                i = i + 1;
            } else if c == '>' && !in_single && !in_double {
                if !is_lone_one(current.as_str()) {
                    if !current.as_str().is_empty() {
                        tokens.push(Token::Word(current));
                        current = String::new();
                    }
                    proof {
                        assert(tokens.deep_view() =~= lex_flushed(st));
                    }
                } else {
                    current = String::new();
                }
                proof {
                    assert(current@ =~= Seq::<char>::empty());
                }
                let ghost emitted = tokens.deep_view();
                if i + 1 < n && chars[i + 1] == '>' {
                    tokens.push(Token::RedirectAppend);
                    proof {
                        assert(tokens.deep_view() =~= emitted.push(TokenView::RedirectAppend));
                    }
                    i = i + 2;
                } else {
                    tokens.push(Token::RedirectOut);
                    proof {
                        assert(tokens.deep_view() =~= emitted.push(TokenView::RedirectOut));
                    }
                    i = i + 1;
                }
            } else if c == '<' && !in_single && !in_double {
                if !current.as_str().is_empty() {
                    tokens.push(Token::Word(current));
                    current = String::new();
                }
                tokens.push(Token::RedirectIn);
                proof {
                    assert(tokens.deep_view() =~= lex_flushed(st).push(TokenView::RedirectIn));
                    assert(current@ =~= Seq::<char>::empty());
                }
                i = i + 1;
            } else if c == '|' && !in_single && !in_double {
                if !current.as_str().is_empty() {
                    tokens.push(Token::Word(current));
                    current = String::new();
                }
                tokens.push(Token::Pipe);
                proof {
                    assert(tokens.deep_view() =~= lex_flushed(st).push(TokenView::Pipe));
                    assert(current@ =~= Seq::<char>::empty());
                }
                i = i + 1;
            } else if c == '&' && !in_single && !in_double {
                if !current.as_str().is_empty() {
                    tokens.push(Token::Word(current));
                    current = String::new();
                }
                tokens.push(Token::Ampersand);
                proof {
                    assert(tokens.deep_view() =~= lex_flushed(st).push(TokenView::Ampersand));
                    assert(current@ =~= Seq::<char>::empty());
                }
                i = i + 1;
            } else if c == '\\' && !in_single && !in_double {
                if i + 1 < n {
                    crate::strutil::push_char(&mut current, chars[i + 1]);
                    i = i + 2;
                } else {
                    i = i + 1;
                }
            } else if c == '\\' && in_double {
                let escaped = if i + 1 < n {
                    let d = chars[i + 1];
                    d == '"' || d == '\\' || d == '$' || d == '`'
                } else {
                    false
                };
                if escaped {
                    crate::strutil::push_char(&mut current, chars[i + 1]);
                    i = i + 2;
                } else {
                    crate::strutil::push_char(&mut current, '\\');
                    i = i + 1;
                }
            } else {
                crate::strutil::push_char(&mut current, c);
                i = i + 1;
            }
            proof {
                assert(lex_from(pre, st) == lex_from(
                    input@.skip(i as int),
                    LexState { in_single, in_double, word: current@, tokens: tokens.deep_view() },
                ));
            }
        }
        proof {
            assert(input@.skip(n as int) =~= Seq::<char>::empty());
        }
        let ghost st_end = LexState {
            in_single,
            in_double,
            word: current@,
            tokens: tokens.deep_view(),
        };
        if !current.as_str().is_empty() {
            tokens.push(Token::Word(current));
        }
        proof {
            assert(tokens.deep_view() =~= lex_flushed(st_end));
        }
        tokens
    }
}

// ---------------------------------------------------------------------------
// Quoting invariance
// ---------------------------------------------------------------------------

/// How one word is written in a rendered line.
pub ghost enum QuoteStyle {
    /// The word as is.
    Bare,
    /// The word between single quotes.
    Single,
    /// The word between double quotes.
    Double,
}

/// A character with no special lexical role anywhere: not whitespace, not a
/// quote, not a backslash, and not an operator character.
pub open spec fn plain_char(c: char) -> bool {
    c != ' ' && c != '\t' && c != '\'' && c != '"' && c != '\\' && c != '>' && c != '<' && c != '|'
        && c != '&'
}

/// A non-empty word of plain characters only.
pub open spec fn plain_word(w: Seq<char>) -> bool {
    w.len() > 0 && forall|i: int| 0 <= i < w.len() ==> plain_char(#[trigger] w[i])
}

/// The word as written under the given quote style.
pub open spec fn quoted(style: QuoteStyle, w: Seq<char>) -> Seq<char> {
    match style {
        QuoteStyle::Bare => w,
        QuoteStyle::Single => seq!['\''] + w + seq!['\''],
        QuoteStyle::Double => seq!['"'] + w + seq!['"'],
    }
}

/// The words written out as one line, each quoted its own way, separated by
/// single spaces.
pub open spec fn rendered(ws: Seq<Seq<char>>, styles: Seq<QuoteStyle>) -> Seq<char>
    decreases ws.len(),
{
    if ws.len() == 0 {
        Seq::empty()
    } else if ws.len() == 1 {
        quoted(styles[0], ws[0])
    } else {
        quoted(styles[0], ws[0]) + seq![' '] + rendered(ws.skip(1), styles.skip(1))
    }
}

/// The words as a token sequence, one `Word` each, in order.
pub open spec fn words_as_tokens(ws: Seq<Seq<char>>) -> Seq<TokenView>
    decreases ws.len(),
{
    if ws.len() == 0 {
        Seq::empty()
    } else {
        seq![TokenView::Word(ws[0])] + words_as_tokens(ws.skip(1))
    }
}

/// What the token sequence of a rendered line holds, element by element:
/// exactly one `Word` per rendered word, in order.
pub proof fn lemma_words_as_tokens_elems(ws: Seq<Seq<char>>)
    ensures
        words_as_tokens(ws).len() == ws.len(),
        forall|i: int| 0 <= i < ws.len() ==> words_as_tokens(ws)[i] == TokenView::Word(ws[i]),
    decreases ws.len(),
{
    if ws.len() > 0 {
        lemma_words_as_tokens_elems(ws.skip(1));
        assert(words_as_tokens(ws)[0] == TokenView::Word(ws[0]));
        assert forall|i: int| 1 <= i < ws.len() implies words_as_tokens(ws)[i] == TokenView::Word(
            ws[i],
        ) by {
            assert(words_as_tokens(ws)[i] == words_as_tokens(ws.skip(1))[i - 1]);
            assert(ws.skip(1)[i - 1] == ws[i]);
        }
    }
}

/// Plain characters simply accumulate, whatever state the tokenizer is in.
proof fn lemma_lex_accumulates(w: Seq<char>, rest: Seq<char>, st: LexState)
    requires
        forall|i: int| 0 <= i < w.len() ==> plain_char(#[trigger] w[i]),
    ensures
        lex_from(w + rest, st) == lex_from(rest, LexState { word: st.word + w, ..st }),
    decreases w.len(),
{
    if w.len() == 0 {
        assert(w + rest =~= rest);
        assert(st.word + w =~= st.word);
    } else {
        let c = w[0];
        assert((w + rest)[0] == c);
        assert(plain_char(c));
        assert((w + rest).skip(1) =~= w.skip(1) + rest);
        lemma_lex_accumulates(w.skip(1), rest, LexState { word: st.word.push(c), ..st });
        assert(st.word.push(c) + w.skip(1) =~= st.word + w);
    }
}

/// Reading one quoted plain word from a state with nothing accumulated and
/// no quote open leaves the word accumulated, the quotes elided, and the
/// state otherwise unchanged — whichever quote style was used.
proof fn lemma_quoted_word(style: QuoteStyle, w: Seq<char>, rest: Seq<char>, st: LexState)
    requires
        plain_word(w),
        !st.in_single,
        !st.in_double,
        st.word == Seq::<char>::empty(),
    ensures
        lex_from(quoted(style, w) + rest, st) == lex_from(rest, LexState { word: w, ..st }),
{
    match style {
        QuoteStyle::Bare => {
            lemma_lex_accumulates(w, rest, st);
            assert(st.word + w =~= w);
        },
        QuoteStyle::Single => {
            let s1 = seq!['\''] + (w + (seq!['\''] + rest));
            assert(quoted(style, w) + rest =~= s1);
            assert(s1[0] == '\'');
            assert(s1.skip(1) =~= w + (seq!['\''] + rest));
            let st_in = LexState { in_single: true, ..st };
            assert(lex_from(s1, st) == lex_from(w + (seq!['\''] + rest), st_in));
            lemma_lex_accumulates(w, seq!['\''] + rest, st_in);
            assert(st.word + w =~= w);
            let st_acc = LexState { word: w, ..st_in };
            let s2 = seq!['\''] + rest;
            assert(s2[0] == '\'');
            assert(s2.skip(1) =~= rest);
            assert(lex_from(s2, st_acc) == lex_from(rest, LexState { in_single: false, ..st_acc }));
            assert(LexState { in_single: false, ..st_acc } == LexState { word: w, ..st });
        },
        QuoteStyle::Double => {
            let s1 = seq!['"'] + (w + (seq!['"'] + rest));
            assert(quoted(style, w) + rest =~= s1);
            assert(s1[0] == '"');
            assert(s1.skip(1) =~= w + (seq!['"'] + rest));
            let st_in = LexState { in_double: true, ..st };
            assert(lex_from(s1, st) == lex_from(w + (seq!['"'] + rest), st_in));
            lemma_lex_accumulates(w, seq!['"'] + rest, st_in);
            assert(st.word + w =~= w);
            let st_acc = LexState { word: w, ..st_in };
            let s2 = seq!['"'] + rest;
            assert(s2[0] == '"');
            assert(s2.skip(1) =~= rest);
            assert(lex_from(s2, st_acc) == lex_from(rest, LexState { in_double: false, ..st_acc }));
            assert(LexState { in_double: false, ..st_acc } == LexState { word: w, ..st });
        },
    }
}

/// Reading a whole rendered line from a state with nothing accumulated and
/// no quote open emits exactly one `Word` per rendered word.
proof fn lemma_lex_rendered(ws: Seq<Seq<char>>, styles: Seq<QuoteStyle>, st: LexState)
    requires
        ws.len() == styles.len(),
        forall|i: int| 0 <= i < ws.len() ==> plain_word(#[trigger] ws[i]),
        !st.in_single,
        !st.in_double,
        st.word == Seq::<char>::empty(),
    ensures
        lex_from(rendered(ws, styles), st) == st.tokens + words_as_tokens(ws),
    decreases ws.len(),
{
    if ws.len() == 0 {
        assert(lex_from(rendered(ws, styles), st) == lex_flushed(st));
        assert(st.tokens + words_as_tokens(ws) =~= st.tokens);
    } else if ws.len() == 1 {
        assert(plain_word(ws[0]));
        lemma_quoted_word(styles[0], ws[0], Seq::empty(), st);
        assert(quoted(styles[0], ws[0]) + Seq::<char>::empty() =~= rendered(ws, styles));
        let st_acc = LexState { word: ws[0], ..st };
        assert(lex_from(Seq::empty(), st_acc) == lex_flushed(st_acc));
        assert(ws.skip(1) =~= Seq::<Seq<char>>::empty());
        assert(words_as_tokens(Seq::<Seq<char>>::empty()) == Seq::<TokenView>::empty());
        assert(words_as_tokens(ws) =~= seq![TokenView::Word(ws[0])]);
        assert(st.tokens + words_as_tokens(ws) =~= st.tokens.push(TokenView::Word(ws[0])));
    } else {
        assert(plain_word(ws[0]));
        let tail = rendered(ws.skip(1), styles.skip(1));
        assert(rendered(ws, styles) =~= quoted(styles[0], ws[0]) + (seq![' '] + tail));
        lemma_quoted_word(styles[0], ws[0], seq![' '] + tail, st);
        let st_acc = LexState { word: ws[0], ..st };
        let s2 = seq![' '] + tail;
        assert(s2[0] == ' ');
        assert(s2.skip(1) =~= tail);
        let st_flushed = LexState {
            word: Seq::empty(),
            tokens: lex_flushed(st_acc),
            ..st_acc
        };
        assert(lex_from(s2, st_acc) == lex_from(tail, st_flushed));
        assert(forall|i: int|
            0 <= i < ws.skip(1).len() ==> plain_word(#[trigger] ws.skip(1)[i]));
        lemma_lex_rendered(ws.skip(1), styles.skip(1), st_flushed);
        assert(st_flushed.tokens == st.tokens.push(TokenView::Word(ws[0])));
        assert(st.tokens.push(TokenView::Word(ws[0])) + words_as_tokens(ws.skip(1)) =~= st.tokens
            + words_as_tokens(ws));
    }
}

/// Quoting invariance: a line of plain words, each quoted in any style or
/// left bare, joined by single spaces, tokenizes to exactly those words —
/// so rebuilding a display form by joining the emitted words with single
/// spaces reproduces the same text whatever quote style was used around
/// each word.
pub proof fn lemma_tokenize_quoted_words(ws: Seq<Seq<char>>, styles: Seq<QuoteStyle>)
    requires
        ws.len() == styles.len(),
        forall|i: int| 0 <= i < ws.len() ==> plain_word(#[trigger] ws[i]),
    ensures
        spec_tokenize(rendered(ws, styles)) == words_as_tokens(ws),
{
    lemma_lex_rendered(ws, styles, lex_init());
    assert(Seq::<TokenView>::empty() + words_as_tokens(ws) =~= words_as_tokens(ws));
}

} // verus!
