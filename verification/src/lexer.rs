//! The lexer: scans source text into an ordered stream of tokens. Keywords
//! open their own token kinds, brackets are balanced pairwise, string
//! literals after a closed parameter list become docstrings, `;;` starts a
//! line comment, and every other word is an integer or a symbol.

use vstd::prelude::*;

use crate::error::{LexerError, LexerErrorV};
use crate::number::{is_i64_literal, parse_i64};
use crate::stack::Stack;
use crate::token::{token_views, Token, TokenKind, TokenV};
use vstd::string::StrSliceExecFns;

verus! {

/// The character is whitespace (the Unicode white-space code points).
pub open spec fn is_space(c: char) -> bool {
    ||| c as u32 == 32
    ||| c as u32 == 9
    ||| c as u32 == 10
    ||| c as u32 == 13
    ||| c as u32 == 11
    ||| c as u32 == 12
    ||| c as u32 == 0x85
    ||| c as u32 == 0xA0
    ||| c as u32 == 0x1680
    ||| (0x2000 <= c as u32 && c as u32 <= 0x200A)
    ||| c as u32 == 0x2028
    ||| c as u32 == 0x2029
    ||| c as u32 == 0x202F
    ||| c as u32 == 0x205F
    ||| c as u32 == 0x3000
}

/// The character ends a word: a bracket or a double quote.
pub open spec fn is_special(c: char) -> bool {
    c == '(' || c == ')' || c == '[' || c == ']' || c == '"'
}

fn char_is_space(c: char) -> (r: bool)
    ensures
        r == is_space(c),
{
    let v = c as u32;
    v == 32 || v == 9 || v == 10 || v == 13 || v == 11 || v == 12 || v == 0x85 || v == 0xA0 || v
        == 0x1680 || (0x2000 <= v && v <= 0x200A) || v == 0x2028 || v == 0x2029 || v == 0x202F || v
        == 0x205F || v == 0x3000
}

fn char_is_special(c: char) -> (r: bool)
    ensures
        r == is_special(c),
{
    c == '(' || c == ')' || c == '[' || c == ']' || c == '"'
}

/// The index of the first double quote at or after `i`, or the length when
/// there is none.
pub open spec fn quote_end(s: Seq<char>, i: int) -> int
    decreases s.len() - i,
{
    if !(0 <= i < s.len()) {
        s.len() as int
    } else if s[i] == '"' {
        i
    } else {
        quote_end(s, i + 1)
    }
}

/// The index of the first word-ending character (whitespace or special) at or
/// after `i`, or the length when there is none.
pub open spec fn word_end(s: Seq<char>, i: int) -> int
    decreases s.len() - i,
{
    if !(0 <= i < s.len()) {
        s.len() as int
    } else if is_space(s[i]) || is_special(s[i]) {
        i
    } else {
        word_end(s, i + 1)
    }
}

/// The index of the first newline at or after `i`, or the length when there
/// is none.
pub open spec fn line_end(s: Seq<char>, i: int) -> int
    decreases s.len() - i,
{
    if !(0 <= i < s.len()) {
        s.len() as int
    } else if s[i] == '\n' {
        i
    } else {
        line_end(s, i + 1)
    }
}

proof fn lemma_quote_end(s: Seq<char>, i: int)
    requires
        0 <= i <= s.len(),
    ensures
        i <= quote_end(s, i) <= s.len(),
    decreases s.len() - i,
{
    if i < s.len() && s[i] != '"' {
        lemma_quote_end(s, i + 1);
    }
}

proof fn lemma_word_end(s: Seq<char>, i: int)
    requires
        0 <= i <= s.len(),
    ensures
        i <= word_end(s, i) <= s.len(),
        i < s.len() && !is_space(s[i]) && !is_special(s[i]) ==> word_end(s, i) > i,
    decreases s.len() - i,
{
    if i < s.len() && !(is_space(s[i]) || is_special(s[i])) {
        lemma_word_end(s, i + 1);
    }
}

proof fn lemma_line_end(s: Seq<char>, i: int)
    requires
        0 <= i <= s.len(),
    ensures
        i <= line_end(s, i) <= s.len(),
        line_end(s, i) < s.len() ==> s[line_end(s, i)] == '\n',
    decreases s.len() - i,
{
    if i < s.len() && s[i] != '\n' {
        lemma_line_end(s, i + 1);
    }
}

/// The text of the function-definition keyword.
pub open spec fn kw_defn() -> Seq<char> {
    seq!['d', 'e', 'f', 'n']
}

/// The text of the variable-definition keyword.
pub open spec fn kw_setq() -> Seq<char> {
    seq!['s', 'e', 't', 'q']
}

/// The text of the conditional keyword.
pub open spec fn kw_if() -> Seq<char> {
    seq!['i', 'f']
}

/// The keyword `kw` follows immediately after the opening bracket at `i`.
pub open spec fn kw_at(s: Seq<char>, i: int, kw: Seq<char>) -> bool {
    i + 1 + kw.len() <= s.len() && s.subrange(i + 1, i + 1 + kw.len()) == kw
}

/// A token model from its parts, with the position fields as they are
/// counted during the scan.
pub open spec fn tokv(
    text: Seq<char>,
    kind: TokenKind,
    row: int,
    col: int,
    len: int,
    ns: Seq<char>,
) -> TokenV {
    TokenV {
        token: text,
        token_kind: kind,
        row: row as nat,
        offset: col as nat,
        length: len as nat,
        namespace: ns,
    }
}

/// What scanning yields from position `i` onwards, with the current row and
/// column, the count of open round brackets, and the tokens already read.
/// One recursive step handles one character, keyword, string, comment or
/// word, exactly as the scanner consumes it.
pub open spec fn spec_lex(
    s: Seq<char>,
    i: int,
    row: int,
    col: int,
    counter: int,
    acc: Seq<TokenV>,
    ns: Seq<char>,
) -> Result<Seq<TokenV>, LexerErrorV>
    decreases s.len() - i,
    via spec_lex_dec
{
    if !(0 <= i < s.len()) {
        Ok(acc)
    } else {
        let c = s[i];
        let col1 = col + 1;
        if c == '\n' {
            spec_lex(s, i + 1, row + 1, 0, counter, acc, ns)
        } else if c == '(' {
            if kw_at(s, i, kw_defn()) {
                spec_lex(
                    s,
                    i + 5,
                    row,
                    col1 + 4,
                    counter,
                    acc.push(tokv(kw_defn(), TokenKind::FunctionDefinition, row, col1, 4, ns)),
                    ns,
                )
            } else if kw_at(s, i, kw_setq()) {
                spec_lex(
                    s,
                    i + 5,
                    row,
                    col1 + 4,
                    counter,
                    acc.push(tokv(kw_setq(), TokenKind::VariableDefinition, row, col1, 4, ns)),
                    ns,
                )
            } else if kw_at(s, i, kw_if()) {
                spec_lex(
                    s,
                    i + 3,
                    row,
                    col1 + 2,
                    counter,
                    acc.push(tokv(kw_if(), TokenKind::Conditional, row, col1, 2, ns)),
                    ns,
                )
            } else {
                spec_lex(
                    s,
                    i + 1,
                    row,
                    col1,
                    counter + 1,
                    acc.push(tokv(seq!['('], TokenKind::LeftRoundBracket, row, col1, 1, ns)),
                    ns,
                )
            }
        } else if c == ')' {
            if counter >= 1 {
                spec_lex(
                    s,
                    i + 1,
                    row,
                    col1,
                    counter - 1,
                    acc.push(tokv(seq![')'], TokenKind::RightRoundBracket, row, col1, 1, ns)),
                    ns,
                )
            } else {
                spec_lex(s, i + 1, row, col1, counter, acc, ns)
            }
        } else if c == '[' {
            spec_lex(
                s,
                i + 1,
                row,
                col1,
                counter,
                acc.push(tokv(seq!['['], TokenKind::LeftSquareBracket, row, col1, 1, ns)),
                ns,
            )
        } else if c == ']' {
            spec_lex(
                s,
                i + 1,
                row,
                col1,
                counter,
                acc.push(tokv(seq![']'], TokenKind::RightSquareBracket, row, col1, 1, ns)),
                ns,
            )
        } else if c == '"' {
            let j = quote_end(s, i + 1);
            let content = s.subrange(i + 1, j);
            let next = if j < s.len() {
                j + 1
            } else {
                j
            };
            if acc.len() == 0 {
                Err(LexerErrorV::IncompleteStringError(tokv(content, TokenKind::Error, row, col1, 0, ns)))
            } else {
                let kind = if acc.last().token_kind == TokenKind::RightSquareBracket {
                    TokenKind::DocString
                } else {
                    TokenKind::StringLiteral
                };
                spec_lex(
                    s,
                    next,
                    row,
                    col1,
                    counter,
                    acc.push(tokv(content, kind, row, col1, content.len() as int, ns)),
                    ns,
                )
            }
        } else if is_space(c) {
            spec_lex(s, i + 1, row, col1, counter, acc, ns)
        } else if c == ';' && i + 2 <= s.len() && s[i + 1] == ';' {
            let j = line_end(s, i);
            if j < s.len() {
                spec_lex(s, j + 1, row + 1, 0, counter, acc, ns)
            } else {
                Ok(acc)
            }
        } else if c == ';' {
            spec_lex(
                s,
                i + 1,
                row,
                col1,
                counter,
                acc.push(tokv(seq![';'], TokenKind::Symbol, row, col1, 1, ns)),
                ns,
            )
        } else {
            let j = word_end(s, i);
            let word = s.subrange(i, j);
            let kind = if is_i64_literal(word) {
                TokenKind::Integer
            } else {
                TokenKind::Symbol
            };
            spec_lex(
                s,
                j,
                row,
                col1 + word.len() - 1,
                counter,
                acc.push(tokv(word, kind, row, col1, word.len() as int, ns)),
                ns,
            )
        }
    }
}

#[via_fn]
proof fn spec_lex_dec(
    s: Seq<char>,
    i: int,
    row: int,
    col: int,
    counter: int,
    acc: Seq<TokenV>,
    ns: Seq<char>,
) {
    if 0 <= i < s.len() {
        lemma_quote_end(s, i + 1);
        lemma_word_end(s, i);
        lemma_line_end(s, i);
    }
}

/// What tokenising a whole source text yields.
pub open spec fn spec_tokenise(s: Seq<char>, ns: Seq<char>) -> Result<Seq<TokenV>, LexerErrorV> {
    spec_lex(s, 0, 0, 0, 0, Seq::empty(), ns)
}

/// Scans a source text into its token stream, or fails with the lexical
/// error that `spec_tokenise` names on this text.
pub fn tokenise(code: &String, namespace: &String) -> (r: Result<Stack<Token>, LexerError>)
    ensures
        match r {
            Ok(stack) => spec_tokenise(code@, namespace@) == Ok::<Seq<TokenV>, LexerErrorV>(
                token_views(stack@),
            ),
            Err(e) => spec_tokenise(code@, namespace@) == Err::<Seq<TokenV>, LexerErrorV>(e@),
        },
{
    let s = code.as_str();
    let n = s.unicode_len();
    let ghost goal = spec_tokenise(code@, namespace@);
    let mut stack: Stack<Token> = Stack::new();
    let mut i: usize = 0;
    let mut row: usize = 0;
    let mut col: usize = 0;
    let mut counter: usize = 0;
    proof {
        assert(token_views(stack@) =~= Seq::<TokenV>::empty());
    }
    while i < n
        invariant
            n == s@.len(),
            s@ == code@,
            i <= n,
            col <= i,
            row <= i,
            counter <= i,
            goal == spec_tokenise(code@, namespace@),
            spec_lex(s@, i as int, row as int, col as int, counter as int, token_views(stack@), namespace@)
                == goal,
        decreases n - i,
    {
        let ghost acc0 = token_views(stack@);
        let c = s.get_char(i);
        let colt = col + 1;
        if c == '\n' {
            i = i + 1;
            row = row + 1;
            col = 0;
        } else if c == '(' {
            let kd = n - i >= 5 && s.get_char(i + 1) == 'd' && s.get_char(i + 2) == 'e'
                && s.get_char(i + 3) == 'f' && s.get_char(i + 4) == 'n';
            let ks = !kd && n - i >= 5 && s.get_char(i + 1) == 's' && s.get_char(i + 2) == 'e'
                && s.get_char(i + 3) == 't' && s.get_char(i + 4) == 'q';
            let ki = !kd && !ks && n - i >= 3 && s.get_char(i + 1) == 'i' && s.get_char(i + 2)
                == 'f';
            proof {
                if i + 5 <= n {
                    assert(s@.subrange(i + 1, i + 5).len() == 4);
                    assert(kd == (s@.subrange(i + 1, i + 5) =~= kw_defn()));
                    assert(ks == (!kd && s@.subrange(i + 1, i + 5) =~= kw_setq()));
                }
                if i + 3 <= n {
                    assert(s@.subrange(i + 1, i + 3).len() == 2);
                    assert(ki == (!kd && !ks && s@.subrange(i + 1, i + 3) =~= kw_if()));
                }
                assert(kd == kw_at(s@, i as int, kw_defn()));
                assert(ks == (!kd && kw_at(s@, i as int, kw_setq())));
                assert(ki == (!kd && !ks && kw_at(s@, i as int, kw_if())));
            }
            if kd {
                let t = Token::new("defn", TokenKind::FunctionDefinition, row, colt, 4, namespace);
                proof {
                    reveal_strlit("defn");
                    assert("defn"@ =~= kw_defn());
                    assert(token_views(stack@.push(t)) =~= acc0.push(t@));
                }
                stack.push(t);
                i = i + 5;
                col = colt + 4;
            } else if ks {
                let t = Token::new("setq", TokenKind::VariableDefinition, row, colt, 4, namespace);
                proof {
                    reveal_strlit("setq");
                    assert("setq"@ =~= kw_setq());
                    assert(token_views(stack@.push(t)) =~= acc0.push(t@));
                }
                stack.push(t);
                i = i + 5;
                col = colt + 4;
            } else if ki {
                let t = Token::new("if", TokenKind::Conditional, row, colt, 2, namespace);
                proof {
                    reveal_strlit("if");
                    assert("if"@ =~= kw_if());
                    assert(token_views(stack@.push(t)) =~= acc0.push(t@));
                }
                stack.push(t);
                i = i + 3;
                col = colt + 2;
            } else {
                let t = Token::new("(", TokenKind::LeftRoundBracket, row, colt, 1, namespace);
                proof {
                    reveal_strlit("(");
                    assert("("@ =~= seq!['(']);
                    assert(token_views(stack@.push(t)) =~= acc0.push(t@));
                }
                stack.push(t);
                counter = counter + 1;
                i = i + 1;
                col = colt;
            }
        } else if c == ')' {
            if counter >= 1 {
                let t = Token::new(")", TokenKind::RightRoundBracket, row, colt, 1, namespace);
                proof {
                    reveal_strlit(")");
                    assert(")"@ =~= seq![')']);
                    assert(token_views(stack@.push(t)) =~= acc0.push(t@));
                }
                stack.push(t);
                counter = counter - 1;
            }
            i = i + 1;
            col = colt;
        } else if c == '[' {
            let t = Token::new("[", TokenKind::LeftSquareBracket, row, colt, 1, namespace);
            proof {
                reveal_strlit("[");
                assert("["@ =~= seq!['[']);
                assert(token_views(stack@.push(t)) =~= acc0.push(t@));
            }
            stack.push(t);
            i = i + 1;
            col = colt;
        } else if c == ']' {
            let t = Token::new("]", TokenKind::RightSquareBracket, row, colt, 1, namespace);
            proof {
                reveal_strlit("]");
                assert("]"@ =~= seq![']']);
                assert(token_views(stack@.push(t)) =~= acc0.push(t@));
            }
            stack.push(t);
            i = i + 1;
            col = colt;
        } else if c == '"' {
            let mut j = i + 1;
            while j < n && s.get_char(j) != '"'
                invariant
                    n == s@.len(),
                    i + 1 <= j <= n,
                    quote_end(s@, i + 1) == quote_end(s@, j as int),
                decreases n - j,
            {
                j = j + 1;
            }
            proof {
                assert(quote_end(s@, i + 1) == j);
            }
            let content = s.substring_char(i + 1, j);
            let is_doc = match stack.last() {
                None => {
                    let t = Token::new(content, TokenKind::Error, row, colt, 0, namespace);
                    return Err(LexerError::IncompleteStringError(t));
                },
                Some(last) => last.token_kind == TokenKind::RightSquareBracket,
            };
            let kind = if is_doc {
                TokenKind::DocString
            } else {
                TokenKind::StringLiteral
            };
            let t = Token::new(content, kind, row, colt, j - i - 1, namespace);
            proof {
                assert(acc0.last() == stack@.last()@);
                assert(token_views(stack@.push(t)) =~= acc0.push(t@));
            }
            stack.push(t);
            i = if j < n {
                j + 1
            } else {
                j
            };
            col = colt;
        } else if char_is_space(c) {
            i = i + 1;
            col = colt;
        } else if c == ';' && n - i >= 2 && s.get_char(i + 1) == ';' {
            let mut j = i;
            while j < n && s.get_char(j) != '\n'
                invariant
                    n == s@.len(),
                    i <= j <= n,
                    line_end(s@, i as int) == line_end(s@, j as int),
                decreases n - j,
            {
                j = j + 1;
            }
            proof {
                assert(line_end(s@, i as int) == j);
            }
            if j < n {
                i = j + 1;
                row = row + 1;
                col = 0;
            } else {
                i = n;
            }
        } else if c == ';' {
            let t = Token::new(";", TokenKind::Symbol, row, colt, 1, namespace);
            proof {
                reveal_strlit(";");
                assert(";"@ =~= seq![';']);
                assert(token_views(stack@.push(t)) =~= acc0.push(t@));
            }
            stack.push(t);
            i = i + 1;
            col = colt;
        } else {
            let mut j = i;
            while j < n && !char_is_space(s.get_char(j)) && !char_is_special(s.get_char(j))
                invariant
                    n == s@.len(),
                    i <= j <= n,
                    word_end(s@, i as int) == word_end(s@, j as int),
                decreases n - j,
            {
                j = j + 1;
            }
            proof {
                assert(word_end(s@, i as int) == j);
                lemma_word_end(s@, i as int);
                assert(!is_special(s@[i as int]));
                assert(j > i);
            }
            let word = s.substring_char(i, j);
            let wlen = j - i;
            let kind = if parse_i64(word).is_some() {
                TokenKind::Integer
            } else {
                TokenKind::Symbol
            };
            let t = Token::new(word, kind, row, colt, wlen, namespace);
            proof {
                assert(token_views(stack@.push(t)) =~= acc0.push(t@));
            }
            stack.push(t);
            i = j;
            col = colt + (wlen - 1);
        }
    }
    Ok(stack)
}

} // verus!
