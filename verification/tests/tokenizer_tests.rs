use rusty_shell::tokenizer::Token;
use rusty_shell::tokenizer::Tokenizer;

fn word(s: &str) -> Token {
    Token::Word(s.to_string())
}

#[test]
fn tokenize_simple_words() {
    let toks = Tokenizer::tokenize("echo hello world");
    assert_eq!(toks, vec![word("echo"), word("hello"), word("world")]);
}

#[test]
fn tokenize_empty_line() {
    assert_eq!(Tokenizer::tokenize(""), vec![]);
    assert_eq!(Tokenizer::tokenize("   "), vec![]);
    assert_eq!(Tokenizer::tokenize("\t \t"), vec![]);
}

#[test]
fn tokenize_tab_separates_words() {
    assert_eq!(Tokenizer::tokenize("a\tb"), vec![word("a"), word("b")]);
    assert_eq!(Tokenizer::tokenize("echo \t hi"), vec![word("echo"), word("hi")]);
    // inside quotes a tab is an ordinary character
    assert_eq!(Tokenizer::tokenize("'a\tb'"), vec![word("a\tb")]);
    assert_eq!(Tokenizer::tokenize("\"a\tb\""), vec![word("a\tb")]);
}

#[test]
fn tokenize_single_quotes() {
    let toks = Tokenizer::tokenize("echo 'a b'");
    assert_eq!(toks, vec![word("echo"), word("a b")]);
}

#[test]
fn tokenize_double_quotes() {
    let toks = Tokenizer::tokenize("echo \"c  d\"");
    assert_eq!(toks, vec![word("echo"), word("c  d")]);
}

#[test]
fn tokenize_quote_style_invariance() {
    // the same words, quoted differently, give the same tokens
    let bare = Tokenizer::tokenize("echo hi there");
    let single = Tokenizer::tokenize("'echo' 'hi' 'there'");
    let double = Tokenizer::tokenize("\"echo\" \"hi\" \"there\"");
    let mixed = Tokenizer::tokenize("echo 'hi' \"there\"");
    assert_eq!(bare, vec![word("echo"), word("hi"), word("there")]);
    assert_eq!(single, bare);
    assert_eq!(double, bare);
    assert_eq!(mixed, bare);
}

#[test]
fn tokenize_quotes_join_words() {
    let toks = Tokenizer::tokenize("ab'cd'\"ef\"");
    assert_eq!(toks, vec![word("abcdef")]);
}

#[test]
fn tokenize_unterminated_quote_closes_at_end() {
    assert_eq!(Tokenizer::tokenize("'abc"), vec![word("abc")]);
    assert_eq!(Tokenizer::tokenize("\"a b"), vec![word("a b")]);
}

#[test]
fn tokenize_backslash_outside_quotes() {
    // the next character is taken literally, even a space or quote
    assert_eq!(Tokenizer::tokenize("a\\ b"), vec![word("a b")]);
    assert_eq!(Tokenizer::tokenize("a\\'b"), vec![word("a'b")]);
    assert_eq!(Tokenizer::tokenize("a\\\\b"), vec![word("a\\b")]);
}

#[test]
fn tokenize_backslash_in_double_quotes() {
    // only " \ $ and backtick are escape-able; otherwise the backslash stays
    assert_eq!(Tokenizer::tokenize("\"a\\\"b\""), vec![word("a\"b")]);
    assert_eq!(Tokenizer::tokenize("\"a\\\\b\""), vec![word("a\\b")]);
    assert_eq!(Tokenizer::tokenize("\"a\\$b\""), vec![word("a$b")]);
    assert_eq!(Tokenizer::tokenize("\"a\\`b\""), vec![word("a`b")]);
    assert_eq!(Tokenizer::tokenize("\"a\\xb\""), vec![word("a\\xb")]);
}

#[test]
fn tokenize_backslash_in_single_quotes_is_literal() {
    assert_eq!(Tokenizer::tokenize("'a\\b'"), vec![word("a\\b")]);
}

#[test]
fn tokenize_redirect_out() {
    let toks = Tokenizer::tokenize("ls > out.txt");
    assert_eq!(toks, vec![word("ls"), Token::RedirectOut, word("out.txt")]);
}

#[test]
fn tokenize_redirect_out_without_spaces() {
    let toks = Tokenizer::tokenize("ls>out.txt");
    assert_eq!(toks, vec![word("ls"), Token::RedirectOut, word("out.txt")]);
}

#[test]
fn tokenize_redirect_append() {
    let toks = Tokenizer::tokenize("cat >> log");
    assert_eq!(toks, vec![word("cat"), Token::RedirectAppend, word("log")]);
}

#[test]
fn tokenize_explicit_stdout_marker() {
    // a lone `1` before `>` is an explicit stdout marker, not a word
    assert_eq!(
        Tokenizer::tokenize("ls 1> f"),
        vec![word("ls"), Token::RedirectOut, word("f")]
    );
    assert_eq!(
        Tokenizer::tokenize("ls 1>> f"),
        vec![word("ls"), Token::RedirectAppend, word("f")]
    );
    // a longer word ending in 1 is flushed as a word
    assert_eq!(
        Tokenizer::tokenize("a1> f"),
        vec![word("a1"), Token::RedirectOut, word("f")]
    );
}

#[test]
fn tokenize_stderr_digit_stays_a_word() {
    // `2>` has no special lexical role: the 2 is an ordinary word
    let toks = Tokenizer::tokenize("cat 2>> err.txt");
    assert_eq!(
        toks,
        vec![word("cat"), word("2"), Token::RedirectAppend, word("err.txt")]
    );
}

#[test]
fn tokenize_redirect_in_pipe_ampersand() {
    assert_eq!(
        Tokenizer::tokenize("sort < in | uniq &"),
        vec![
            word("sort"),
            Token::RedirectIn,
            word("in"),
            Token::Pipe,
            word("uniq"),
            Token::Ampersand,
        ]
    );
}

#[test]
fn tokenize_operators_inside_quotes_are_literal() {
    assert_eq!(Tokenizer::tokenize("echo '|'"), vec![word("echo"), word("|")]);
    assert_eq!(Tokenizer::tokenize("echo \">>\""), vec![word("echo"), word(">>")]);
    assert_eq!(Tokenizer::tokenize("echo '&'"), vec![word("echo"), word("&")]);
    assert_eq!(Tokenizer::tokenize("echo '1>'"), vec![word("echo"), word("1>")]);
}

#[test]
fn tokenize_empty_quotes_produce_no_word() {
    assert_eq!(Tokenizer::tokenize("echo ''"), vec![word("echo")]);
    assert_eq!(Tokenizer::tokenize("\"\""), vec![]);
}
