//! Splitting source text into tokens.
use vstd::prelude::*;

use super::chars::{
    is_ascii_alphabetic, is_ascii_uppercase, is_whitespace, spec_is_ascii_alphabetic, spec_is_ascii_uppercase,
    spec_is_whitespace,
};
use crate::util::text::{chars_of, string_from_chars};

verus! {

/// The name of a variable: a single letter.
pub type TVariable = char;

/// The name of a constant: two or more letters.
pub type Constant = String;

#[derive(Debug, PartialEq, Eq)]
pub enum Token {
    /// A single letter, such as `x`.
    Variable(TVariable),
    /// Two or more letters, such as `hello`.
    Constant(Constant),
    /// `:`
    Colon,
    /// `(`
    OpenPar,
    /// `)`
    ClosePar,
}

#[derive(Debug, PartialEq, Eq, Structural, Clone, Copy)]
pub enum TokenizeError {
    UnknownCharacter(char),
}

/// A token with its text as a sequence of characters.
pub enum TokenView {
    Variable(char),
    Constant(Seq<char>),
    Colon,
    OpenPar,
    ClosePar,
}

impl View for Token {
    type V = TokenView;

    open spec fn view(&self) -> TokenView {
        match self {
            Token::Variable(c) => TokenView::Variable(*c as char),
            Token::Constant(s) => TokenView::Constant(s@),
            Token::Colon => TokenView::Colon,
            Token::OpenPar => TokenView::OpenPar,
            Token::ClosePar => TokenView::ClosePar,
        }
    }
}

/// The tokens of a finished word: none if it is empty, a variable if it is one
/// lower case letter, a constant otherwise (constants are written in upper
/// case or with more than one letter).
pub open spec fn word_tokens(word: Seq<char>) -> Seq<TokenView> {
    if word.len() == 0 {
        Seq::empty()
    } else if word.len() == 1 && !spec_is_ascii_uppercase(word[0]) {
        let c = word[0] as char;
        seq![TokenView::Variable(c)]
    } else {
        seq![TokenView::Constant(word)]
    }
}

/// The token that a punctuation character stands for.
pub open spec fn punctuation(c: char) -> Option<TokenView> {
    if c == ':' {
        Some(TokenView::Colon)
    } else if c == '(' {
        Some(TokenView::OpenPar)
    } else if c == ')' {
        Some(TokenView::ClosePar)
    } else {
        None
    }
}

/// Tokens of `s`, where `word` holds the letters read just before `s`.
/// Letters gather into words; whitespace separates words; `:`, `(` and `)` are
/// tokens of their own; any other character is an error.
pub open spec fn tokens_after(s: Seq<char>, word: Seq<char>) -> Result<
    Seq<TokenView>,
    TokenizeError,
>
    decreases s.len(),
{
    if s.len() == 0 {
        Ok(word_tokens(word))
    } else {
        let c = s[0];
        if spec_is_ascii_alphabetic(c) {
            tokens_after(s.drop_first(), word.push(c))
        } else if spec_is_whitespace(c) || punctuation(c) is Some {
            let here = if spec_is_whitespace(c) {
                word_tokens(word)
            } else {
                word_tokens(word).push(punctuation(c).unwrap())
            };
            match tokens_after(s.drop_first(), seq![]) {
                Ok(rest) => Ok(here + rest),
                Err(e) => Err(e),
            }
        } else {
            Err(TokenizeError::UnknownCharacter(c))
        }
    }
}

/// The tokens of the text `s`.
pub open spec fn spec_tokenize(s: Seq<char>) -> Result<Seq<TokenView>, TokenizeError> {
    tokens_after(s, seq![])
}

pub open spec fn prepend_tokens(done: Seq<TokenView>, r: Result<Seq<TokenView>, TokenizeError>) -> Result<
    Seq<TokenView>,
    TokenizeError,
> {
    match r {
        Ok(t) => Ok(done + t),
        Err(e) => Err(e),
    }
}

pub open spec fn tokens_view(v: Seq<Token>) -> Seq<TokenView> {
    v.map_values(|t: Token| t@)
}

fn flush(cur_word: &mut Vec<char>, ans: &mut Vec<Token>)
    ensures
        final(cur_word)@ == Seq::<char>::empty(),
        tokens_view(final(ans)@) == tokens_view(old(ans)@) + word_tokens(old(cur_word)@),
{
    let ghost before = tokens_view(ans@);
    let ghost w = cur_word@;
    assert(w == old(cur_word)@);
    if cur_word.len() == 1 && !is_ascii_uppercase(cur_word[0]) {
        let c = cur_word[0] as char;
        ans.push(Token::Variable(c));
        assert(w.len() == 1);
        assert(word_tokens(w) =~= seq![TokenView::Variable(c)]);
        assert(ans@[ans@.len() - 1]@ == TokenView::Variable(c));
        assert(tokens_view(ans@) =~= before + word_tokens(w));
    } else if cur_word.len() >= 1 {
        let s = string_from_chars(cur_word);
        ans.push(Token::Constant(s));
        assert(tokens_view(ans@) =~= before + word_tokens(w));
    } else {
        assert(tokens_view(ans@) =~= before + word_tokens(w));
    }
    cur_word.clear();
}

fn tokenize_vec(str: &Vec<char>) -> (r: Result<Vec<Token>, TokenizeError>)
    ensures
        match r {
            Ok(v) => spec_tokenize(str@) == Ok::<Seq<TokenView>, TokenizeError>(tokens_view(v@)),
            Err(e) => spec_tokenize(str@) == Err::<Seq<TokenView>, TokenizeError>(e),
        },
{
    let mut ans: Vec<Token> = Vec::new();
    let mut cur_word: Vec<char> = Vec::new();
    let n = str.len();
    proof {
        assert(str@.skip(0) =~= str@);
        match tokens_after(str@, seq![]) {
            Ok(t) => {
                assert(Seq::<TokenView>::empty() + t =~= t);
            },
            Err(e) => {},
        }
    }
    for i in 0..n
        invariant
            n == str.len(),
            spec_tokenize(str@) == prepend_tokens(
                tokens_view(ans@),
                tokens_after(str@.skip(i as int), cur_word@),
            ),
    {
        let c = str[i];
        let ghost rest = str@.skip(i as int);
        assert(rest[0] == c);
        assert(rest.drop_first() == str@.skip(i + 1));
        if is_ascii_alphabetic(c) {
            cur_word.push(c);
        } else {
            let ghost w = cur_word@;
            let ghost done = tokens_view(ans@);
            let white = is_whitespace(c);
            if !white && c != ':' && c != '(' && c != ')' {
                return Err(TokenizeError::UnknownCharacter(c));
            }
            flush(&mut cur_word, &mut ans);
            let ghost flushed = ans@;
            if !white {
                if c == ':' {
                    ans.push(Token::Colon);
                } else if c == '(' {
                    ans.push(Token::OpenPar);
                } else {
                    ans.push(Token::ClosePar);
                }
                assert(tokens_view(ans@) =~= tokens_view(flushed).push(punctuation(c).unwrap()));
            }
            proof {
                let here = if spec_is_whitespace(c) {
                    word_tokens(w)
                } else {
                    word_tokens(w).push(punctuation(c).unwrap())
                };
                assert(tokens_view(ans@) == done + here);
                match tokens_after(str@.skip(i + 1), seq![]) {
                    Ok(t) => {
                        assert(done + (here + t) == (done + here) + t);
                    },
                    Err(e) => {},
                }
            }
        }
    }
    flush(&mut cur_word, &mut ans);
    assert(str@.skip(n as int).len() == 0);
    Ok(ans)
}

/// Splits `str` into tokens, or reports the first character that is neither a
/// letter, whitespace, `:`, `(` nor `)`.
pub fn tokenize(str: &str) -> (r: Result<Vec<Token>, TokenizeError>)
    ensures
        match r {
            Ok(v) => spec_tokenize(str@) == Ok::<Seq<TokenView>, TokenizeError>(tokens_view(v@)),
            Err(e) => spec_tokenize(str@) == Err::<Seq<TokenView>, TokenizeError>(e),
        },
{
    let chars = chars_of(str);
    tokenize_vec(&chars)
}

} // verus!
