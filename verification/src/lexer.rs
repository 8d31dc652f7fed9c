//! The lexer: turns Yar source text into tokens and lexical diagnostics.
use vstd::prelude::*;

use crate::diag::{Diagnostic, DiagnosticView, List, views};
use crate::text::{
    chars_of, concat, debug_char, debug_quoted, is_alphabetic, is_ascii_digit,
    is_ascii_digit_spec, is_whitespace, owned, push_char, quote, quote_char, str_eq,
    string_of_char, string_of_range, unicode_alphabetic, unicode_whitespace,
};
use crate::token::{Kind, Position, PositionView, Token};

verus! {

// ---------------------------------------------------------------------------
// The mathematical lexer
// ---------------------------------------------------------------------------

/// The 1-based line of the character at index `i` of `s`.
pub open spec fn line_at(s: Seq<char>, i: nat) -> nat
    decreases i,
{
    if i == 0 {
        1
    } else if s[i - 1] == '\n' {
        line_at(s, (i - 1) as nat) + 1
    } else {
        line_at(s, (i - 1) as nat)
    }
}

/// The 1-based column of the character at index `i` of `s`.
pub open spec fn column_at(s: Seq<char>, i: nat) -> nat
    decreases i,
{
    if i == 0 {
        1
    } else if s[i - 1] == '\n' {
        1
    } else {
        column_at(s, (i - 1) as nat) + 1
    }
}

/// The position of index `i` of `s` in the file named `file`.
pub open spec fn position_at(file: Seq<char>, s: Seq<char>, i: nat) -> PositionView {
    PositionView { file, line: line_at(s, i), column: column_at(s, i) }
}

/// Whether `c` may start an identifier.
pub open spec fn ident_start(c: char) -> bool {
    c == '_' || unicode_alphabetic(c)
}

/// Whether `c` may continue an identifier.
pub open spec fn ident_part(c: char) -> bool {
    ident_start(c) || is_ascii_digit_spec(c)
}

/// The index just after a line comment whose body starts at `i`.
pub open spec fn comment_end(s: Seq<char>, i: nat) -> nat
    decreases s.len() - i,
{
    if i >= s.len() {
        i
    } else if s[i as int] == '\n' {
        i + 1
    } else {
        comment_end(s, i + 1)
    }
}

/// The index of the first character at or after `i` that is not whitespace or comment.
pub open spec fn trivia_end(s: Seq<char>, i: nat) -> nat
    decreases s.len() - i,
{
    if i >= s.len() {
        i
    } else if s[i as int] == '/' && i + 1 < s.len() && s[(i + 1) as int] == '/' {
        if i < comment_end(s, i + 2) <= s.len() {
            trivia_end(s, comment_end(s, i + 2))
        } else {
            i
        }
    } else if unicode_whitespace(s[i as int]) {
        trivia_end(s, i + 1)
    } else {
        i
    }
}

/// The end of the identifier characters starting at `i`.
pub open spec fn ident_end(s: Seq<char>, i: nat) -> nat
    decreases s.len() - i,
{
    if i < s.len() && ident_part(s[i as int]) {
        ident_end(s, i + 1)
    } else {
        i
    }
}

/// The end of the decimal digits starting at `i`.
pub open spec fn digits_end(s: Seq<char>, i: nat) -> nat
    decreases s.len() - i,
{
    if i < s.len() && is_ascii_digit_spec(s[i as int]) {
        digits_end(s, i + 1)
    } else {
        i
    }
}

/// The keyword kind named by `text`, or `Ident` for any other word.
pub open spec fn keyword_kind(text: Seq<char>) -> Kind {
    if text == "package"@ {
        Kind::Package
    } else if text == "import"@ {
        Kind::Import
    } else if text == "fn"@ {
        Kind::Fn
    } else if text == "pub"@ {
        Kind::Pub
    } else if text == "let"@ {
        Kind::Let
    } else if text == "var"@ {
        Kind::Var
    } else if text == "struct"@ {
        Kind::Struct
    } else if text == "interface"@ {
        Kind::Interface
    } else if text == "enum"@ {
        Kind::Enum
    } else if text == "or"@ {
        Kind::Or
    } else if text == "if"@ {
        Kind::If
    } else if text == "else"@ {
        Kind::Else
    } else if text == "for"@ {
        Kind::For
    } else if text == "break"@ {
        Kind::Break
    } else if text == "continue"@ {
        Kind::Continue
    } else if text == "return"@ {
        Kind::Return
    } else if text == "match"@ {
        Kind::Match
    } else if text == "case"@ {
        Kind::Case
    } else if text == "taskgroup"@ {
        Kind::Taskgroup
    } else if text == "spawn"@ {
        Kind::Spawn
    } else if text == "true"@ {
        Kind::True
    } else if text == "false"@ {
        Kind::False
    } else if text == "nil"@ {
        Kind::Nil
    } else if text == "error"@ {
        Kind::Error
    } else if text == "map"@ {
        Kind::MapKw
    } else if text == "chan"@ {
        Kind::Chan
    } else {
        Kind::Ident
    }
}

/// What one token scan produces: the token's kind and text, the index after it,
/// and the diagnostics it reports at the token's start.
pub struct ScanStep {
    pub kind: Kind,
    pub text: Seq<char>,
    pub end: nat,
    pub msgs: Seq<Seq<char>>,
}

/// A token of the mathematical lexer: kind, text and start index.
pub struct SpecToken {
    pub kind: Kind,
    pub text: Seq<char>,
    pub start: nat,
}

/// A diagnostic of the mathematical lexer: start index of its token and message.
pub struct SpecDiag {
    pub start: nat,
    pub message: Seq<char>,
}

/// A token without diagnostics.
pub open spec fn plain_step(kind: Kind, text: Seq<char>, end: nat) -> ScanStep {
    ScanStep { kind, text, end, msgs: Seq::empty() }
}

/// An operator that is `long` when the character at `k` is `next`, else `short`.
pub open spec fn pick_step(
    s: Seq<char>,
    k: nat,
    next: char,
    long_kind: Kind,
    long_text: Seq<char>,
    short_kind: Kind,
    short_text: Seq<char>,
) -> ScanStep {
    if k < s.len() && s[k as int] == next {
        plain_step(long_kind, long_text, k + 1)
    } else {
        plain_step(short_kind, short_text, k)
    }
}

/// The message for an unterminated string literal.
pub open spec fn unterminated_string() -> Seq<char> {
    "unterminated string literal"@
}

/// The message for an unterminated character literal.
pub open spec fn unterminated_char() -> Seq<char> {
    "unterminated character literal"@
}

/// What `\c` decodes to inside a string literal, if it is a supported escape.
pub open spec fn string_escape(c: char) -> Option<char> {
    if c == 'n' {
        Some('\n')
    } else if c == 't' {
        Some('\t')
    } else if c == '\\' {
        Some('\\')
    } else if c == '"' {
        Some('"')
    } else if c == 'r' {
        Some('\r')
    } else if c == '0' {
        Some('\0')
    } else {
        None
    }
}

/// What `\c` decodes to inside a character literal, if it is a supported escape.
pub open spec fn char_escape(c: char) -> Option<char> {
    if c == 'n' {
        Some('\n')
    } else if c == 't' {
        Some('\t')
    } else if c == 'r' {
        Some('\r')
    } else if c == '\\' {
        Some('\\')
    } else if c == '\'' {
        Some('\'')
    } else if c == '0' {
        Some('\0')
    } else {
        None
    }
}

/// The escapes of a closed character literal decode to their standard characters,
/// with nothing reported: `\n` to a line feed, `\t` to a tab, `\r` to a carriage
/// return, `\0` to NUL, `\\` to a backslash and `\'` to a single quote; the
/// literal ends after its closing quote.
pub proof fn lemma_char_literal_escapes(s: Seq<char>, k: nat)
    requires
        k + 2 < s.len(),
        s[k as int] == '\\',
        s[(k + 2) as int] == '\'',
    ensures
        s[(k + 1) as int] == 'n' ==> scan_char(s, k) == ('\n', k + 3, Seq::<Seq<char>>::empty()),
        s[(k + 1) as int] == 't' ==> scan_char(s, k) == ('\t', k + 3, Seq::<Seq<char>>::empty()),
        s[(k + 1) as int] == 'r' ==> scan_char(s, k) == ('\r', k + 3, Seq::<Seq<char>>::empty()),
        s[(k + 1) as int] == '0' ==> scan_char(s, k) == ('\0', k + 3, Seq::<Seq<char>>::empty()),
        s[(k + 1) as int] == '\\' ==> scan_char(s, k) == ('\\', k + 3, Seq::<Seq<char>>::empty()),
        s[(k + 1) as int] == '\'' ==> scan_char(s, k) == ('\'', k + 3, Seq::<Seq<char>>::empty()),
{
}

/// The decoded body of a string literal scanned from `i` (after the opening quote),
/// with `out` decoded so far: the decoded text, the index after the literal and
/// the diagnostics.
pub open spec fn scan_string(s: Seq<char>, i: nat, out: Seq<char>) -> (Seq<char>, nat, Seq<
    Seq<char>,
>)
    decreases s.len() - i,
{
    if i >= s.len() {
        (out, i, seq![unterminated_string()])
    } else {
        let r = s[i as int];
        if r == '"' {
            (out, i + 1, Seq::empty())
        } else if r == '\\' {
            if i + 1 >= s.len() {
                (out, i + 1, seq![unterminated_string()])
            } else {
                let esc = s[(i + 1) as int];
                match string_escape(esc) {
                    Some(d) => scan_string(s, i + 2, out.push(d)),
                    None => {
                        let rest = scan_string(s, i + 2, out);
                        (
                            rest.0,
                            rest.1,
                            seq![
                                "unsupported string escape "@ + debug_quoted(
                                    seq!['\\', esc],
                                ),
                            ] + rest.2,
                        )
                    },
                }
            }
        } else if r == '\n' {
            (out, i + 1, seq![unterminated_string()])
        } else {
            scan_string(s, i + 1, out.push(r))
        }
    }
}

/// A character literal scanned from `k` (after the opening quote): the value, the
/// index after the literal and the diagnostics.
pub open spec fn scan_char(s: Seq<char>, k: nat) -> (char, nat, Seq<Seq<char>>) {
    if k >= s.len() {
        ('\0', k, seq![unterminated_char()])
    } else {
        let r = s[k as int];
        if r == '\'' {
            ('\0', k + 1, seq!["empty character literal"@])
        } else if r == '\n' {
            ('\0', k + 1, seq![unterminated_char()])
        } else if r == '\\' && k + 1 >= s.len() {
            ('\0', k + 1, seq![unterminated_char()])
        } else {
            let (value, after, emsgs) = if r == '\\' {
                let esc = s[(k + 1) as int];
                match char_escape(esc) {
                    Some(d) => (d, k + 2, Seq::<Seq<char>>::empty()),
                    None => (
                        esc,
                        k + 2,
                        seq!["unsupported character escape "@ + debug_quoted(seq!['\\', esc])],
                    ),
                }
            } else {
                (r, k + 1, Seq::<Seq<char>>::empty())
            };
            if after < s.len() && s[after as int] == '\'' {
                (value, after + 1, emsgs)
            } else {
                (value, after, emsgs.push(unterminated_char()))
            }
        }
    }
}

/// The token that starts at index `j` (which holds a non-trivia character).
pub open spec fn scan_token(s: Seq<char>, j: nat) -> ScanStep {
    let c = s[j as int];
    let k = j + 1;
    if ident_start(c) {
        let e = ident_end(s, k);
        plain_step(keyword_kind(s.subrange(j as int, e as int)), s.subrange(j as int, e as int), e)
    } else if is_ascii_digit_spec(c) {
        let e = digits_end(s, k);
        plain_step(Kind::Int, s.subrange(j as int, e as int), e)
    } else if c == ':' {
        pick_step(s, k, '=', Kind::ColonAssign, ":="@, Kind::Colon, ":"@)
    } else if c == ';' {
        plain_step(Kind::Semicolon, ";"@, k)
    } else if c == '=' {
        pick_step(s, k, '=', Kind::EqualEqual, "=="@, Kind::Assign, "="@)
    } else if c == '!' {
        pick_step(s, k, '=', Kind::BangEqual, "!="@, Kind::Bang, "!"@)
    } else if c == '?' {
        plain_step(Kind::Question, "?"@, k)
    } else if c == ',' {
        plain_step(Kind::Comma, ","@, k)
    } else if c == '.' {
        plain_step(Kind::Dot, "."@, k)
    } else if c == '&' {
        pick_step(s, k, '&', Kind::AmpAmp, "&&"@, Kind::Amp, "&"@)
    } else if c == '(' {
        plain_step(Kind::LParen, "("@, k)
    } else if c == ')' {
        plain_step(Kind::RParen, ")"@, k)
    } else if c == '{' {
        plain_step(Kind::LBrace, "{"@, k)
    } else if c == '}' {
        plain_step(Kind::RBrace, "}"@, k)
    } else if c == '[' {
        plain_step(Kind::LBracket, "["@, k)
    } else if c == ']' {
        plain_step(Kind::RBracket, "]"@, k)
    } else if c == '|' {
        pick_step(s, k, '|', Kind::PipePipe, "||"@, Kind::Pipe, "|"@)
    } else if c == '+' {
        pick_step(s, k, '=', Kind::PlusAssign, "+="@, Kind::Plus, "+"@)
    } else if c == '-' {
        pick_step(s, k, '=', Kind::MinusAssign, "-="@, Kind::Minus, "-"@)
    } else if c == '*' {
        pick_step(s, k, '=', Kind::StarAssign, "*="@, Kind::Star, "*"@)
    } else if c == '/' {
        pick_step(s, k, '=', Kind::SlashAssign, "/="@, Kind::Slash, "/"@)
    } else if c == '%' {
        pick_step(s, k, '=', Kind::PercentAssign, "%="@, Kind::Percent, "%"@)
    } else if c == '<' {
        pick_step(s, k, '=', Kind::LessEqual, "<="@, Kind::Less, "<"@)
    } else if c == '>' {
        pick_step(s, k, '=', Kind::GreaterEqual, ">="@, Kind::Greater, ">"@)
    } else if c == '"' {
        let r = scan_string(s, k, Seq::empty());
        ScanStep { kind: Kind::String, text: r.0, end: r.1, msgs: r.2 }
    } else if c == '\'' {
        let r = scan_char(s, k);
        ScanStep { kind: Kind::Char, text: seq![r.0], end: r.1, msgs: r.2 }
    } else {
        ScanStep {
            kind: Kind::Illegal,
            text: seq![c],
            end: k,
            msgs: seq!["unexpected character "@ + debug_char(c)],
        }
    }
}

/// The tokens of `s` from index `i` on; the last one is always `Eof`.
pub open spec fn lex_tokens(s: Seq<char>, i: nat) -> Seq<SpecToken>
    decreases s.len() - i,
{
    let j = trivia_end(s, i);
    if j >= s.len() {
        seq![SpecToken { kind: Kind::Eof, text: Seq::empty(), start: j }]
    } else {
        let st = scan_token(s, j);
        if i <= j < st.end <= s.len() {
            seq![SpecToken { kind: st.kind, text: st.text, start: j }] + lex_tokens(s, st.end)
        } else {
            Seq::empty()
        }
    }
}

/// The lexical diagnostics of `s` from index `i` on, in order.
pub open spec fn lex_diags(s: Seq<char>, i: nat) -> Seq<SpecDiag>
    decreases s.len() - i,
{
    let j = trivia_end(s, i);
    if j >= s.len() {
        Seq::empty()
    } else {
        let st = scan_token(s, j);
        if i <= j < st.end <= s.len() {
            st.msgs.map_values(|m: Seq<char>| SpecDiag { start: j, message: m }) + lex_diags(
                s,
                st.end,
            )
        } else {
            Seq::empty()
        }
    }
}

/// The mathematical value of a token.
pub struct TokenView {
    pub kind: Kind,
    pub text: Seq<char>,
    pub pos: PositionView,
}

impl View for Token {
    type V = TokenView;

    open spec fn view(&self) -> TokenView {
        TokenView { kind: self.kind, text: self.text@, pos: self.pos@ }
    }
}

/// The view of a lexer token in the file `file` with source `s`.
pub open spec fn token_view(file: Seq<char>, s: Seq<char>, t: SpecToken) -> TokenView {
    TokenView { kind: t.kind, text: t.text, pos: position_at(file, s, t.start) }
}

/// The view of a lexer diagnostic in the file `file` with source `s`.
pub open spec fn diag_view(file: Seq<char>, s: Seq<char>, d: SpecDiag) -> DiagnosticView {
    DiagnosticView { pos: position_at(file, s, d.start), message: d.message }
}

/// The views of lexer diagnostics.
pub open spec fn diag_views(file: Seq<char>, s: Seq<char>, ds: Seq<SpecDiag>) -> Seq<
    DiagnosticView,
> {
    ds.map_values(|d: SpecDiag| diag_view(file, s, d))
}

// ---------------------------------------------------------------------------
// Facts about the mathematical lexer
// ---------------------------------------------------------------------------

proof fn lemma_line_column_bound(s: Seq<char>, i: nat)
    ensures
        line_at(s, i) <= i + 1,
        column_at(s, i) <= i + 1,
        line_at(s, i) >= 1,
        column_at(s, i) >= 1,
    decreases i,
{
    if i > 0 {
        lemma_line_column_bound(s, (i - 1) as nat);
    }
}

proof fn lemma_comment_end(s: Seq<char>, i: nat)
    ensures
        comment_end(s, i) >= i,
        i <= s.len() ==> comment_end(s, i) <= s.len(),
    decreases s.len() - i,
{
    if i < s.len() && s[i as int] != '\n' {
        lemma_comment_end(s, i + 1);
    }
}

proof fn lemma_trivia_end(s: Seq<char>, i: nat)
    ensures
        trivia_end(s, i) >= i,
        i <= s.len() ==> trivia_end(s, i) <= s.len(),
    decreases s.len() - i,
{
    if i < s.len() {
        if s[i as int] == '/' && i + 1 < s.len() && s[(i + 1) as int] == '/' {
            lemma_comment_end(s, i + 2);
            lemma_trivia_end(s, comment_end(s, i + 2));
        } else if unicode_whitespace(s[i as int]) {
            lemma_trivia_end(s, i + 1);
        }
    }
}

proof fn lemma_ident_end(s: Seq<char>, i: nat)
    requires
        i <= s.len(),
    ensures
        i <= ident_end(s, i) <= s.len(),
    decreases s.len() - i,
{
    if i < s.len() && ident_part(s[i as int]) {
        lemma_ident_end(s, i + 1);
    }
}

proof fn lemma_digits_end(s: Seq<char>, i: nat)
    requires
        i <= s.len(),
    ensures
        i <= digits_end(s, i) <= s.len(),
    decreases s.len() - i,
{
    if i < s.len() && is_ascii_digit_spec(s[i as int]) {
        lemma_digits_end(s, i + 1);
    }
}

proof fn lemma_scan_string(s: Seq<char>, i: nat, out: Seq<char>)
    requires
        i <= s.len(),
    ensures
        i <= scan_string(s, i, out).1 <= s.len(),
    decreases s.len() - i,
{
    if i < s.len() {
        let r = s[i as int];
        if r == '\\' && i + 1 < s.len() {
            let esc = s[(i + 1) as int];
            match string_escape(esc) {
                Some(d) => lemma_scan_string(s, i + 2, out.push(d)),
                None => lemma_scan_string(s, i + 2, out),
            }
        } else if r != '"' && r != '\\' && r != '\n' {
            lemma_scan_string(s, i + 1, out.push(r));
        }
    }
}

/// Every token scan consumes at least one character and stays within the source.
proof fn lemma_scan_token_advances(s: Seq<char>, j: nat)
    requires
        j < s.len(),
    ensures
        j < scan_token(s, j).end <= s.len(),
{
    let c = s[j as int];
    if ident_start(c) {
        lemma_ident_end(s, j + 1);
    } else if is_ascii_digit_spec(c) {
        lemma_digits_end(s, j + 1);
    } else if c == '"' {
        lemma_scan_string(s, j + 1, Seq::empty());
    }
}

/// The token sequence always ends with exactly one `Eof` token, at the end of the
/// source, and no earlier token is `Eof`.
pub proof fn lemma_lex_ends_with_eof(s: Seq<char>, i: nat)
    requires
        i <= s.len(),
    ensures
        lex_tokens(s, i).len() >= 1,
        lex_tokens(s, i).last().kind == Kind::Eof,
        lex_tokens(s, i).last().start == s.len(),
        lex_tokens(s, i).last().text.len() == 0,
        forall|k: int|
            0 <= k < lex_tokens(s, i).len() - 1 ==> #[trigger] lex_tokens(s, i)[k].kind
                != Kind::Eof,
    decreases s.len() - i,
{
    lemma_trivia_end(s, i);
    let j = trivia_end(s, i);
    if j < s.len() {
        lemma_scan_token_advances(s, j);
        let st = scan_token(s, j);
        lemma_lex_ends_with_eof(s, st.end);
        lemma_scan_kind_not_eof(s, j);
        let rest = lex_tokens(s, st.end);
        let all = lex_tokens(s, i);
        assert(all == seq![SpecToken { kind: st.kind, text: st.text, start: j }] + rest);
        assert forall|k: int| 0 <= k < all.len() - 1 implies #[trigger] all[k].kind
            != Kind::Eof by {
            if k > 0 {
                assert(all[k] == rest[k - 1]);
            }
        }
    }
}

proof fn lemma_scan_kind_not_eof(s: Seq<char>, j: nat)
    requires
        j < s.len(),
    ensures
        scan_token(s, j).kind != Kind::Eof,
{
}

/// Tokens come in source order: each starts at or after the previous one's start,
/// and every start lies within the source.
pub proof fn lemma_lex_starts_ordered(s: Seq<char>, i: nat)
    requires
        i <= s.len(),
    ensures
        forall|k: int|
            0 <= k < lex_tokens(s, i).len() ==> i <= #[trigger] lex_tokens(s, i)[k].start
                <= s.len(),
        forall|a: int, b: int|
            0 <= a < b < lex_tokens(s, i).len() ==> lex_tokens(s, i)[a].start < lex_tokens(
                s,
                i,
            )[b].start,
    decreases s.len() - i,
{
    lemma_trivia_end(s, i);
    let j = trivia_end(s, i);
    if j < s.len() {
        lemma_scan_token_advances(s, j);
        let st = scan_token(s, j);
        lemma_lex_starts_ordered(s, st.end);
        let rest = lex_tokens(s, st.end);
        let all = lex_tokens(s, i);
        assert(all == seq![SpecToken { kind: st.kind, text: st.text, start: j }] + rest);
        assert forall|k: int| 0 <= k < all.len() implies i <= #[trigger] all[k].start
            <= s.len() by {
            if k > 0 {
                assert(all[k] == rest[k - 1]);
            }
        }
        assert forall|a: int, b: int| 0 <= a < b < all.len() implies all[a].start
            < all[b].start by {
            assert(all[b] == rest[b - 1]);
            assert(rest[b - 1].start >= st.end);
            if a > 0 {
                assert(all[a] == rest[a - 1]);
            }
        }
    }
}

/// Only string, character and illegal tokens carry diagnostics.
proof fn lemma_scan_msgs_kind(s: Seq<char>, j: nat)
    requires
        j < s.len(),
    ensures
        scan_token(s, j).msgs.len() > 0 ==> scan_token(s, j).kind == Kind::Illegal || scan_token(s, j).kind
            == Kind::String || scan_token(s, j).kind == Kind::Char,
{
}

/// How a character is written inside a string literal: the escapes `\n`,
/// `\t`, `\r`, `\0`, `\\` and `\"`, or the character itself.
pub open spec fn escape_char(c: char) -> Seq<char> {
    if c == '\n' {
        seq!['\\', 'n']
    } else if c == '\t' {
        seq!['\\', 't']
    } else if c == '\r' {
        seq!['\\', 'r']
    } else if c == '\0' {
        seq!['\\', '0']
    } else if c == '\\' {
        seq!['\\', '\\']
    } else if c == '"' {
        seq!['\\', '"']
    } else {
        seq![c]
    }
}

/// A text written as the body of a string literal.
pub open spec fn escape_text(v: Seq<char>) -> Seq<char>
    decreases v.len(),
{
    if v.len() == 0 {
        Seq::empty()
    } else {
        escape_char(v[0]) + escape_text(v.drop_first())
    }
}

/// Escaping round-trips: scanning an escaped body followed by the closing quote
/// decodes exactly the original text, ends after the quote and reports nothing.
pub proof fn lemma_escape_round_trip(s: Seq<char>, i: nat, out: Seq<char>, v: Seq<char>)
    requires
        i + escape_text(v).len() < s.len(),
        s.subrange(i as int, (i + escape_text(v).len()) as int) == escape_text(v),
        s[(i + escape_text(v).len()) as int] == '"',
    ensures
        scan_string(s, i, out) == (out + v, i + escape_text(v).len() + 1, Seq::<Seq<char>>::empty()),
    decreases v.len(),
{
    if v.len() == 0 {
        assert(out + v =~= out);
    } else {
        let c = v[0];
        let e = escape_char(c);
        let rest = v.drop_first();
        assert(escape_text(v) == e + escape_text(rest));
        let n = e.len();
        assert(s[i as int] == escape_text(v)[0]);
        assert(s.subrange((i + n) as int, (i + n + escape_text(rest).len()) as int) =~= escape_text(rest)) by {
            assert forall|k: int| 0 <= k < escape_text(rest).len() implies s.subrange(
                (i + n) as int,
                (i + n + escape_text(rest).len()) as int,
            )[k] == escape_text(rest)[k] by {
                assert(s[(i + n + k) as int] == s.subrange(i as int, (i + escape_text(v).len()) as int)[(n + k) as int]);
            }
        }
        if n == 2 {
            assert(s[(i + 1) as int] == escape_text(v)[1]);
        }
        lemma_escape_round_trip(s, (i + n) as nat, out.push(c), rest);
        assert(out.push(c) + rest =~= out + v);
    }
}

/// Whether some token of `toks` starting at `start` is `Illegal`, `String` or `Char`.
pub open spec fn error_token_at(toks: Seq<SpecToken>, start: nat) -> bool {
    exists|k: int|
        0 <= k < toks.len() && #[trigger] toks[k].start == start && (toks[k].kind == Kind::Illegal
            || toks[k].kind == Kind::String || toks[k].kind == Kind::Char)
}

/// Every lexical diagnostic sits at the start of an `Illegal`, `String` or `Char`
/// token.
pub proof fn lemma_lex_diags_at_error_tokens(s: Seq<char>, i: nat)
    requires
        i <= s.len(),
    ensures
        forall|d: int|
            0 <= d < lex_diags(s, i).len() ==> error_token_at(lex_tokens(s, i), #[trigger] lex_diags(s, i)[d].start),
    decreases s.len() - i,
{
    lemma_trivia_end(s, i);
    let j = trivia_end(s, i);
    if j < s.len() {
        lemma_scan_token_advances(s, j);
        lemma_scan_msgs_kind(s, j);
        let st = scan_token(s, j);
        lemma_lex_diags_at_error_tokens(s, st.end);
        let rest = lex_tokens(s, st.end);
        let all = lex_tokens(s, i);
        assert(all == seq![SpecToken { kind: st.kind, text: st.text, start: j }] + rest);
        let ds = st.msgs.map_values(|m: Seq<char>| SpecDiag { start: j, message: m });
        let rd = lex_diags(s, st.end);
        assert(lex_diags(s, i) == ds + rd);
        assert forall|d: int| 0 <= d < lex_diags(s, i).len() implies error_token_at(
            all,
            #[trigger] lex_diags(s, i)[d].start,
        ) by {
            if d < ds.len() {
                assert(lex_diags(s, i)[d] == ds[d]);
                assert(all[0].start == j && all[0].kind == st.kind);
            } else {
                assert(lex_diags(s, i)[d] == rd[d - ds.len()]);
                assert(error_token_at(rest, rd[d - ds.len()].start));
                let k = choose|k: int|
                    0 <= k < rest.len() && #[trigger] rest[k].start == rd[d - ds.len()].start && (rest[k].kind
                        == Kind::Illegal || rest[k].kind == Kind::String || rest[k].kind == Kind::Char);
                assert(all[k + 1] == rest[k]);
            }
        }
    } else {
        assert(lex_diags(s, i) =~= Seq::<SpecDiag>::empty());
    }
}

/// An `Illegal` token is always reported: whenever the tokens hold one, the
/// diagnostics are not empty.
pub proof fn lemma_illegal_token_is_reported(s: Seq<char>, i: nat)
    requires
        i <= s.len(),
    ensures
        (exists|k: int|
            0 <= k < lex_tokens(s, i).len() && #[trigger] lex_tokens(s, i)[k].kind
                == Kind::Illegal) ==> lex_diags(s, i).len() > 0,
    decreases s.len() - i,
{
    lemma_trivia_end(s, i);
    let j = trivia_end(s, i);
    if j < s.len() {
        lemma_scan_token_advances(s, j);
        let st = scan_token(s, j);
        lemma_illegal_token_is_reported(s, st.end);
        let rest = lex_tokens(s, st.end);
        let all = lex_tokens(s, i);
        assert(all == seq![SpecToken { kind: st.kind, text: st.text, start: j }] + rest);
        let ds = st.msgs.map_values(|m: Seq<char>| SpecDiag { start: j, message: m });
        assert(lex_diags(s, i) == ds + lex_diags(s, st.end));
        if exists|k: int| 0 <= k < all.len() && #[trigger] all[k].kind == Kind::Illegal {
            let k = choose|k: int| 0 <= k < all.len() && #[trigger] all[k].kind == Kind::Illegal;
            if k == 0 {
                assert(st.kind == Kind::Illegal);
                assert(st.msgs.len() == 1);
            } else {
                assert(rest[k - 1].kind == Kind::Illegal);
            }
        }
    }
}

// ---------------------------------------------------------------------------
// The executable lexer
// ---------------------------------------------------------------------------

/// A lexer over one source text.
pub struct Lexer {
    src: Vec<char>,
    file: String,
    offset: usize,
    line: usize,
    column: usize,
    diag: List,
}

impl Lexer {
    /// The characters of the source text.
    pub closed spec fn source(&self) -> Seq<char> {
        self.src@
    }

    /// The file name that positions carry.
    pub closed spec fn file_name(&self) -> Seq<char> {
        self.file@
    }

    /// The index of the next character to read.
    pub closed spec fn cursor(&self) -> nat {
        self.offset as nat
    }

    /// The diagnostics recorded so far.
    pub closed spec fn reported(&self) -> Seq<DiagnosticView> {
        self.diag@
    }

    /// The lexer's internal consistency: the cursor lies within the source and
    /// the tracked line and column are those of the cursor.
    pub closed spec fn wf(&self) -> bool {
        &&& self.offset <= self.src@.len()
        &&& self.src@.len() < usize::MAX
        &&& self.line == line_at(self.src@, self.offset as nat)
        &&& self.column == column_at(self.src@, self.offset as nat)
    }

    /// A lexer over `src` whose positions carry no file name.
    pub fn new(src: &str) -> (l: Lexer)
        requires
            src@.len() < usize::MAX,
        ensures
            l.wf(),
            l.source() == src@,
            l.file_name() == Seq::<char>::empty(),
            l.cursor() == 0,
            l.reported() == Seq::<DiagnosticView>::empty(),
    {
        Self::new_file(src, String::new())
    }

    /// A lexer over `src` whose positions carry the file name `file`.
    pub fn new_file(src: &str, file: String) -> (l: Lexer)
        requires
            src@.len() < usize::MAX,
        ensures
            l.wf(),
            l.source() == src@,
            l.file_name() == file@,
            l.cursor() == 0,
            l.reported() == Seq::<DiagnosticView>::empty(),
    {
        Lexer { src: chars_of(src), file, offset: 0, line: 1, column: 1, diag: List::new() }
    }

    /// A copy of the diagnostics recorded so far.
    pub fn diagnostics(&self) -> (res: Vec<Diagnostic>)
        ensures
            views(res@) == self.reported(),
    {
        self.diag.items()
    }

    /// Lexes the rest of the source: the tokens are those of `lex_tokens` from the
    /// cursor, and the diagnostics of `lex_diags` are recorded after earlier ones.
    pub fn lex(&mut self) -> (tokens: Vec<Token>)
        requires
            old(self).wf(),
        ensures
            final(self).wf(),
            final(self).source() == old(self).source(),
            final(self).file_name() == old(self).file_name(),
            final(self).cursor() == old(self).source().len(),
            tokens@.len() == lex_tokens(old(self).source(), old(self).cursor()).len(),
            forall|k: int|
                0 <= k < tokens@.len() ==> #[trigger] tokens@[k]@ == token_view(
                    old(self).file_name(),
                    old(self).source(),
                    lex_tokens(old(self).source(), old(self).cursor())[k],
                ),
            final(self).reported() == old(self).reported() + diag_views(
                old(self).file_name(),
                old(self).source(),
                lex_diags(old(self).source(), old(self).cursor()),
            ),
    {
        let ghost s = self.src@;
        let ghost file = self.file@;
        let ghost start = self.offset as nat;
        let ghost diag0 = self.diag@;
        let mut tokens: Vec<Token> = Vec::new();
        let ghost mut done: Seq<SpecToken> = Seq::empty();
        let ghost mut done_diags: Seq<SpecDiag> = Seq::empty();
        loop
            invariant_except_break
                lex_tokens(s, start) == done + lex_tokens(s, self.offset as nat),
                lex_diags(s, start) == done_diags + lex_diags(s, self.offset as nat),
            invariant
                self.wf(),
                self.src@ == s,
                self.file@ == file,
                start <= self.offset,
                tokens@.len() == done.len(),
                forall|k: int|
                    0 <= k < tokens@.len() ==> #[trigger] tokens@[k]@ == token_view(
                        file,
                        s,
                        done[k],
                    ),
                self.diag@ == diag0 + diag_views(file, s, done_diags),
            ensures
                lex_tokens(s, start) == done,
                lex_diags(s, start) == done_diags,
                self.offset == s.len(),
            decreases s.len() - self.offset,
        {
            let ghost before = self.offset as nat;
            self.skip_trivia();
            proof {
                lemma_trivia_end(s, before);
            }
            let pos = self.position();
            if self.offset >= self.src.len() {
                let tok = Token { kind: Kind::Eof, text: String::new(), pos };
                proof {
                    let t = SpecToken { kind: Kind::Eof, text: Seq::empty(), start: self.offset as nat };
                    assert(lex_tokens(s, before) == seq![t]);
                    assert(lex_diags(s, before) == Seq::<SpecDiag>::empty());
                    assert(tok@ == token_view(file, s, t));
                    assert(done + lex_tokens(s, before) =~= done.push(t));
                    assert(done_diags + lex_diags(s, before) =~= done_diags);
                    done = done.push(t);
                }
                tokens.push(tok);
                break;
            }
            let j = self.offset;
            proof {
                lemma_scan_token_advances(s, j as nat);
            }
            let ghost st = scan_token(s, j as nat);
            let tok = self.scan(pos);
            proof {
                let t = SpecToken { kind: st.kind, text: st.text, start: j as nat };
                assert(lex_tokens(s, before) == seq![t] + lex_tokens(s, st.end));
                let ds = st.msgs.map_values(|m: Seq<char>| SpecDiag { start: j as nat, message: m });
                assert(lex_diags(s, before) == ds + lex_diags(s, st.end));
                assert(done + lex_tokens(s, before) =~= done.push(t) + lex_tokens(s, st.end));
                assert(done_diags + lex_diags(s, before) =~= (done_diags + ds) + lex_diags(
                    s,
                    st.end,
                ));
                assert(diag_views(file, s, done_diags + ds) =~= diag_views(file, s, done_diags)
                    + diag_views(file, s, ds));
                assert(diag_views(file, s, ds) =~= st.msgs.map_values(
                    |m: Seq<char>| DiagnosticView { pos: position_at(file, s, j as nat), message: m },
                ));
                done = done.push(t);
                done_diags = done_diags + ds;
            }
            tokens.push(tok);
        }
        tokens
    }

    /// Scans the token that starts at the cursor.
    fn scan(&mut self, pos: Position) -> (tok: Token)
        requires
            old(self).wf(),
            old(self).offset < old(self).src@.len(),
            pos@ == position_at(old(self).file@, old(self).src@, old(self).offset as nat),
        ensures
            final(self).wf(),
            final(self).src@ == old(self).src@,
            final(self).file@ == old(self).file@,
            tok@ == token_view(
                old(self).file@,
                old(self).src@,
                SpecToken {
                    kind: scan_token(old(self).src@, old(self).offset as nat).kind,
                    text: scan_token(old(self).src@, old(self).offset as nat).text,
                    start: old(self).offset as nat,
                },
            ),
            final(self).offset == scan_token(old(self).src@, old(self).offset as nat).end,
            final(self).diag@ == old(self).diag@ + scan_token(
                old(self).src@,
                old(self).offset as nat,
            ).msgs.map_values(|m: Seq<char>| DiagnosticView { pos: pos@, message: m }),
    {
        let ghost s = self.src@;
        let ghost j = self.offset as nat;
        let r = self.src[self.offset];
        if self.is_ident_start(r) {
            let text = self.lex_ident();
            let kind = lookup_keyword(text.as_str());
            proof {
                assert(self.diag@ =~= old(self).diag@ + Seq::<Seq<char>>::empty().map_values(
                    |m: Seq<char>| DiagnosticView { pos: pos@, message: m },
                ));
            }
            return Token { kind, text, pos };
        }
        if is_ascii_digit(r) {
            let text = self.lex_digits();
            proof {
                assert(self.diag@ =~= old(self).diag@ + Seq::<Seq<char>>::empty().map_values(
                    |m: Seq<char>| DiagnosticView { pos: pos@, message: m },
                ));
            }
            return Token { kind: Kind::Int, text, pos };
        }
        self.advance_char(r);
        let ghost empty_msgs = Seq::<Seq<char>>::empty().map_values(
            |m: Seq<char>| DiagnosticView { pos: pos@, message: m },
        );
        assert(self.diag@ =~= old(self).diag@ + empty_msgs);
        match r {
            ':' => {
                if self.match_char('=') {
                    self.fixed(Kind::ColonAssign, ":=", pos)
                } else {
                    self.fixed(Kind::Colon, ":", pos)
                }
            },
            ';' => self.fixed(Kind::Semicolon, ";", pos),
            '=' => {
                if self.match_char('=') {
                    self.fixed(Kind::EqualEqual, "==", pos)
                } else {
                    self.fixed(Kind::Assign, "=", pos)
                }
            },
            '!' => {
                if self.match_char('=') {
                    self.fixed(Kind::BangEqual, "!=", pos)
                } else {
                    self.fixed(Kind::Bang, "!", pos)
                }
            },
            '?' => self.fixed(Kind::Question, "?", pos),
            ',' => self.fixed(Kind::Comma, ",", pos),
            '.' => self.fixed(Kind::Dot, ".", pos),
            '&' => {
                if self.match_char('&') {
                    self.fixed(Kind::AmpAmp, "&&", pos)
                } else {
                    self.fixed(Kind::Amp, "&", pos)
                }
            },
            '(' => self.fixed(Kind::LParen, "(", pos),
            ')' => self.fixed(Kind::RParen, ")", pos),
            '{' => self.fixed(Kind::LBrace, "{", pos),
            '}' => self.fixed(Kind::RBrace, "}", pos),
            '[' => self.fixed(Kind::LBracket, "[", pos),
            ']' => self.fixed(Kind::RBracket, "]", pos),
            '|' => {
                if self.match_char('|') {
                    self.fixed(Kind::PipePipe, "||", pos)
                } else {
                    self.fixed(Kind::Pipe, "|", pos)
                }
            },
            '+' => {
                if self.match_char('=') {
                    self.fixed(Kind::PlusAssign, "+=", pos)
                } else {
                    self.fixed(Kind::Plus, "+", pos)
                }
            },
            '-' => {
                if self.match_char('=') {
                    self.fixed(Kind::MinusAssign, "-=", pos)
                } else {
                    self.fixed(Kind::Minus, "-", pos)
                }
            },
            '*' => {
                if self.match_char('=') {
                    self.fixed(Kind::StarAssign, "*=", pos)
                } else {
                    self.fixed(Kind::Star, "*", pos)
                }
            },
            '/' => {
                if self.match_char('=') {
                    self.fixed(Kind::SlashAssign, "/=", pos)
                } else {
                    self.fixed(Kind::Slash, "/", pos)
                }
            },
            '%' => {
                if self.match_char('=') {
                    self.fixed(Kind::PercentAssign, "%=", pos)
                } else {
                    self.fixed(Kind::Percent, "%", pos)
                }
            },
            '<' => {
                if self.match_char('=') {
                    self.fixed(Kind::LessEqual, "<=", pos)
                } else {
                    self.fixed(Kind::Less, "<", pos)
                }
            },
            '>' => {
                if self.match_char('=') {
                    self.fixed(Kind::GreaterEqual, ">=", pos)
                } else {
                    self.fixed(Kind::Greater, ">", pos)
                }
            },
            '"' => {
                let value = self.lex_string(&pos);
                Token { kind: Kind::String, text: value, pos }
            },
            '\'' => {
                let value = self.lex_char(&pos);
                Token { kind: Kind::Char, text: string_of_char(value), pos }
            },
            _ => {
                let msg = concat("unexpected character ", quote_char(r).as_str());
                self.diag.add(pos.duplicate(), msg);
                proof {
                    assert(self.diag@ =~= old(self).diag@ + seq![
                        "unexpected character "@ + debug_char(r),
                    ].map_values(|m: Seq<char>| DiagnosticView { pos: pos@, message: m }));
                }
                Token { kind: Kind::Illegal, text: string_of_char(r), pos }
            },
        }
    }

    fn is_ident_start(&self, r: char) -> (b: bool)
        ensures
            b == ident_start(r),
    {
        r == '_' || is_alphabetic(r)
    }

    /// Skips whitespace and line comments.
    fn skip_trivia(&mut self)
        requires
            old(self).wf(),
        ensures
            final(self).wf(),
            final(self).src@ == old(self).src@,
            final(self).file@ == old(self).file@,
            final(self).diag@ == old(self).diag@,
            final(self).offset == trivia_end(old(self).src@, old(self).offset as nat),
    {
        let ghost s = self.src@;
        loop
            invariant
                self.wf(),
                self.src@ == s,
                self.file@ == old(self).file@,
                self.diag@ == old(self).diag@,
                trivia_end(s, self.offset as nat) == trivia_end(s, old(self).offset as nat),
            ensures
                self.offset == trivia_end(s, old(self).offset as nat),
            decreases s.len() - self.offset,
        {
            let r = match self.peek_char() {
                Some(r) => r,
                None => break,
            };
            if r == '/' && self.peek_next_char() == Some('/') {
                let ghost at = self.offset as nat;
                self.advance_char('/');
                self.advance_char('/');
                loop
                    invariant_except_break
                        comment_end(s, self.offset as nat) == comment_end(s, at + 2),
                    invariant
                        self.wf(),
                        self.src@ == s,
                        self.file@ == old(self).file@,
                        self.diag@ == old(self).diag@,
                        at + 2 <= self.offset,
                    ensures
                        self.offset == comment_end(s, at + 2),
                    decreases s.len() - self.offset,
                {
                    let comment_char = match self.peek_char() {
                        Some(c) => c,
                        None => break,
                    };
                    self.advance_char(comment_char);
                    if comment_char == '\n' {
                        break;
                    }
                }
                proof {
                    lemma_comment_end(s, at + 2);
                }
                continue;
            }
            if !is_whitespace(r) {
                break;
            }
            self.advance_char(r);
        }
    }

    fn lex_ident(&mut self) -> (text: String)
        requires
            old(self).wf(),
            old(self).offset < old(self).src@.len(),
            ident_start(old(self).src@[old(self).offset as int]),
        ensures
            final(self).wf(),
            final(self).src@ == old(self).src@,
            final(self).file@ == old(self).file@,
            final(self).diag@ == old(self).diag@,
            final(self).offset == ident_end(old(self).src@, (old(self).offset + 1) as nat),
            text@ == old(self).src@.subrange(old(self).offset as int, final(self).offset as int),
    {
        let start = self.offset;
        let ghost s = self.src@;
        let r0 = self.src[self.offset];
        self.advance_char(r0);
        while self.offset < self.src.len() && self.is_ident_part(self.src[self.offset])
            invariant
                self.wf(),
                self.src@ == s,
                self.file@ == old(self).file@,
                self.diag@ == old(self).diag@,
                start < self.offset,
                ident_end(s, self.offset as nat) == ident_end(s, (start + 1) as nat),
            decreases s.len() - self.offset,
        {
            let r = self.src[self.offset];
            self.advance_char(r);
        }
        string_of_range(&self.src, start, self.offset)
    }

    fn is_ident_part(&self, r: char) -> (b: bool)
        ensures
            b == ident_part(r),
    {
        self.is_ident_start(r) || is_ascii_digit(r)
    }

    fn lex_digits(&mut self) -> (text: String)
        requires
            old(self).wf(),
            old(self).offset < old(self).src@.len(),
            is_ascii_digit_spec(old(self).src@[old(self).offset as int]),
        ensures
            final(self).wf(),
            final(self).src@ == old(self).src@,
            final(self).file@ == old(self).file@,
            final(self).diag@ == old(self).diag@,
            final(self).offset == digits_end(old(self).src@, (old(self).offset + 1) as nat),
            text@ == old(self).src@.subrange(old(self).offset as int, final(self).offset as int),
    {
        let start = self.offset;
        let ghost s = self.src@;
        let r0 = self.src[self.offset];
        self.advance_char(r0);
        while self.offset < self.src.len() && is_ascii_digit(self.src[self.offset])
            invariant
                self.wf(),
                self.src@ == s,
                self.file@ == old(self).file@,
                self.diag@ == old(self).diag@,
                start < self.offset,
                digits_end(s, self.offset as nat) == digits_end(s, (start + 1) as nat),
            decreases s.len() - self.offset,
        {
            let r = self.src[self.offset];
            self.advance_char(r);
        }
        string_of_range(&self.src, start, self.offset)
    }

    /// Decodes a string literal whose opening quote has been consumed.
    fn lex_string(&mut self, pos: &Position) -> (out: String)
        requires
            old(self).wf(),
        ensures
            final(self).wf(),
            final(self).src@ == old(self).src@,
            final(self).file@ == old(self).file@,
            out@ == scan_string(old(self).src@, old(self).offset as nat, Seq::empty()).0,
            final(self).offset == scan_string(
                old(self).src@,
                old(self).offset as nat,
                Seq::empty(),
            ).1,
            final(self).diag@ == old(self).diag@ + scan_string(
                old(self).src@,
                old(self).offset as nat,
                Seq::empty(),
            ).2.map_values(|m: Seq<char>| DiagnosticView { pos: pos@, message: m }),
    {
        let ghost s = self.src@;
        let ghost i0 = self.offset as nat;
        let ghost whole = scan_string(s, i0, Seq::empty());
        let ghost mut said: Seq<Seq<char>> = Seq::empty();
        let ghost d0 = self.diag@;
        let mut out = String::new();
        loop
            invariant_except_break
                scan_string(s, self.offset as nat, out@).0 == whole.0,
                scan_string(s, self.offset as nat, out@).1 == whole.1,
                said + scan_string(s, self.offset as nat, out@).2 == whole.2,
            invariant
                self.wf(),
                self.src@ == s,
                self.file@ == old(self).file@,
                i0 <= self.offset,
                self.diag@ == d0 + said.map_values(
                    |m: Seq<char>| DiagnosticView { pos: pos@, message: m },
                ),
            ensures
                out@ == whole.0,
                self.offset == whole.1,
                said == whole.2,
            decreases s.len() - self.offset,
        {
            let ghost here = self.offset as nat;
            let ghost out0 = out@;
            if self.offset >= self.src.len() {
                let msg = owned("unterminated string literal");
                self.diag.add(pos.duplicate(), msg);
                proof {
                    said = said.push(unterminated_string());
                    assert(self.diag@ =~= d0 + said.map_values(
                        |m: Seq<char>| DiagnosticView { pos: pos@, message: m },
                    ));
                    assert(said =~= whole.2);
                }
                break;
            }
            let r = self.src[self.offset];
            self.advance_char(r);
            if r == '"' {
                proof {
                    assert(said =~= said + Seq::<Seq<char>>::empty());
                }
                break;
            } else if r == '\\' {
                if self.offset >= self.src.len() {
                    let msg = owned("unterminated string literal");
                    self.diag.add(pos.duplicate(), msg);
                    proof {
                        said = said.push(unterminated_string());
                        assert(self.diag@ =~= d0 + said.map_values(
                            |m: Seq<char>| DiagnosticView { pos: pos@, message: m },
                        ));
                        assert(said =~= whole.2);
                    }
                    break;
                }
                let esc = self.src[self.offset];
                self.advance_char(esc);
                match esc {
                    'n' => push_char(&mut out, '\n'),
                    't' => push_char(&mut out, '\t'),
                    '\\' => push_char(&mut out, '\\'),
                    '"' => push_char(&mut out, '"'),
                    'r' => push_char(&mut out, '\r'),
                    '0' => push_char(&mut out, '\0'),
                    _ => {
                        let mut body = string_of_char('\\');
                        push_char(&mut body, esc);
                        let msg = concat("unsupported string escape ", quote(body.as_str()).as_str());
                        self.diag.add(pos.duplicate(), msg);
                        proof {
                            assert(body@ =~= seq!['\\', esc]);
                            let m = "unsupported string escape "@ + debug_quoted(seq!['\\', esc]);
                            assert(whole.2 == said + (seq![m] + scan_string(s, here + 2, out0).2));
                            said = said.push(m);
                            assert(whole.2 =~= said + scan_string(s, here + 2, out0).2);
                            assert(self.diag@ =~= d0 + said.map_values(
                                |m: Seq<char>| DiagnosticView { pos: pos@, message: m },
                            ));
                        }
                    },
                }
            } else if r == '\n' {
                let msg = owned("unterminated string literal");
                self.diag.add(pos.duplicate(), msg);
                proof {
                    said = said.push(unterminated_string());
                    assert(self.diag@ =~= d0 + said.map_values(
                        |m: Seq<char>| DiagnosticView { pos: pos@, message: m },
                    ));
                    assert(said =~= whole.2);
                }
                break;
            } else {
                push_char(&mut out, r);
            }
        }
        out
    }

    /// Decodes a character literal whose opening quote has been consumed.
    fn lex_char(&mut self, pos: &Position) -> (value: char)
        requires
            old(self).wf(),
        ensures
            final(self).wf(),
            final(self).src@ == old(self).src@,
            final(self).file@ == old(self).file@,
            value == scan_char(old(self).src@, old(self).offset as nat).0,
            final(self).offset == scan_char(old(self).src@, old(self).offset as nat).1,
            old(self).offset + 1 < old(self).src@.len() && old(self).src@[old(self).offset as int] == '\\' ==> {
                let esc = old(self).src@[old(self).offset + 1];
                &&& esc == 'n' ==> value == '\n'
                &&& esc == 't' ==> value == '\t'
                &&& esc == 'r' ==> value == '\r'
                &&& esc == '0' ==> value == '\0'
                &&& esc == '\\' ==> value == '\\'
                &&& esc == '\'' ==> value == '\''
            },
            final(self).diag@ == old(self).diag@ + scan_char(
                old(self).src@,
                old(self).offset as nat,
            ).2.map_values(|m: Seq<char>| DiagnosticView { pos: pos@, message: m }),
    {
        let ghost s = self.src@;
        let ghost k = self.offset as nat;
        let ghost d0 = self.diag@;
        if self.offset >= self.src.len() {
            self.diag.add(pos.duplicate(), owned("unterminated character literal"));
            proof {
                assert(self.diag@ =~= d0 + seq![unterminated_char()].map_values(
                    |m: Seq<char>| DiagnosticView { pos: pos@, message: m },
                ));
            }
            return '\0';
        }
        let r = self.src[self.offset];
        self.advance_char(r);
        if r == '\'' {
            self.diag.add(pos.duplicate(), owned("empty character literal"));
            proof {
                assert(self.diag@ =~= d0 + seq!["empty character literal"@].map_values(
                    |m: Seq<char>| DiagnosticView { pos: pos@, message: m },
                ));
            }
            return '\0';
        }
        if r == '\n' {
            self.diag.add(pos.duplicate(), owned("unterminated character literal"));
            proof {
                assert(self.diag@ =~= d0 + seq![unterminated_char()].map_values(
                    |m: Seq<char>| DiagnosticView { pos: pos@, message: m },
                ));
            }
            return '\0';
        }
        let ghost mut emsgs: Seq<Seq<char>> = Seq::empty();
        let value = if r == '\\' {
            if self.offset >= self.src.len() {
                self.diag.add(pos.duplicate(), owned("unterminated character literal"));
                proof {
                    assert(self.diag@ =~= d0 + seq![unterminated_char()].map_values(
                        |m: Seq<char>| DiagnosticView { pos: pos@, message: m },
                    ));
                }
                return '\0';
            }
            let esc = self.src[self.offset];
            self.advance_char(esc);
            match esc {
                'n' => '\n',
                't' => '\t',
                'r' => '\r',
                '\\' => '\\',
                '\'' => '\'',
                '0' => '\0',
                _ => {
                    let mut body = string_of_char('\\');
                    push_char(&mut body, esc);
                    let msg = concat("unsupported character escape ", quote(body.as_str()).as_str());
                    self.diag.add(pos.duplicate(), msg);
                    proof {
                        assert(body@ =~= seq!['\\', esc]);
                        emsgs = seq!["unsupported character escape "@ + debug_quoted(seq!['\\', esc])];
                    }
                    esc
                },
            }
        } else {
            r
        };
        proof {
            assert(self.diag@ =~= d0 + emsgs.map_values(
                |m: Seq<char>| DiagnosticView { pos: pos@, message: m },
            ));
        }
        if self.peek_char() != Some('\'') {
            self.diag.add(pos.duplicate(), owned("unterminated character literal"));
            proof {
                assert(self.diag@ =~= d0 + emsgs.push(unterminated_char()).map_values(
                    |m: Seq<char>| DiagnosticView { pos: pos@, message: m },
                ));
            }
            return value;
        }
        self.advance_char('\'');
        value
    }

    fn match_char(&mut self, want: char) -> (matched: bool)
        requires
            old(self).wf(),
        ensures
            final(self).wf(),
            final(self).src@ == old(self).src@,
            final(self).file@ == old(self).file@,
            final(self).diag@ == old(self).diag@,
            matched == (old(self).offset < old(self).src@.len() && old(self).src@[old(
                self,
            ).offset as int] == want),
            final(self).offset == if matched {
                old(self).offset + 1
            } else {
                old(self).offset as int
            },
    {
        if self.peek_char() != Some(want) {
            return false;
        }
        self.advance_char(want);
        true
    }

    fn peek_char(&self) -> (c: Option<char>)
        ensures
            c == if self.offset < self.src@.len() {
                Some(self.src@[self.offset as int])
            } else {
                None
            },
    {
        if self.offset < self.src.len() {
            Some(self.src[self.offset])
        } else {
            None
        }
    }

    fn peek_next_char(&self) -> (c: Option<char>)
        requires
            self.wf(),
            self.offset < self.src@.len(),
        ensures
            c == if self.offset + 1 < self.src@.len() {
                Some(self.src@[self.offset + 1])
            } else {
                None
            },
    {
        if self.offset + 1 < self.src.len() {
            Some(self.src[self.offset + 1])
        } else {
            None
        }
    }

    fn advance_char(&mut self, r: char)
        requires
            old(self).wf(),
            old(self).offset < old(self).src@.len(),
            old(self).src@[old(self).offset as int] == r,
        ensures
            final(self).wf(),
            final(self).src@ == old(self).src@,
            final(self).file@ == old(self).file@,
            final(self).diag@ == old(self).diag@,
            final(self).offset == old(self).offset + 1,
    {
        proof {
            lemma_line_column_bound(self.src@, self.offset as nat);
        }
        self.offset = self.offset + 1;
        if r == '\n' {
            self.line = self.line + 1;
            self.column = 1;
        } else {
            self.column = self.column + 1;
        }
    }

    fn position(&self) -> (p: Position)
        requires
            self.wf(),
        ensures
            p@ == position_at(self.file@, self.src@, self.offset as nat),
    {
        Position { file: self.file.clone(), line: self.line, column: self.column }
    }

    fn fixed(&self, kind: Kind, text: &str, pos: Position) -> (tok: Token)
        ensures
            tok@ == (TokenView { kind, text: text@, pos: pos@ }),
    {
        Token { kind, text: owned(text), pos }
    }
}

/// The value of a character-literal token: its first character, or `\0` when its
/// text is empty.
pub fn parse_char_literal(tok: &Token) -> (c: char)
    ensures
        c == if tok.text@.len() > 0 {
            tok.text@[0]
        } else {
            '\0'
        },
{
    let text = tok.text.as_str();
    if text.unicode_len() > 0 {
        text.get_char(0)
    } else {
        '\0'
    }
}

/// The value of a decimal integer with an optional leading sign: an optional `+`
/// or `-` followed by one or more ASCII digits, whose value fits in `i64`.
pub open spec fn decimal_i64(t: Seq<char>) -> Option<int> {
    let neg = t.len() > 0 && t[0] == '-';
    let signed = t.len() > 0 && (t[0] == '-' || t[0] == '+');
    let digits = if signed {
        t.drop_first()
    } else {
        t
    };
    if digits.len() == 0 || exists|k: int|
        0 <= k < digits.len() && !is_ascii_digit_spec(#[trigger] digits[k]) {
        None
    } else {
        let v = if neg {
            -digits_value(digits)
        } else {
            digits_value(digits)
        };
        if i64::MIN <= v <= i64::MAX {
            Some(v)
        } else {
            None
        }
    }
}

/// The value of a sequence of decimal digits, most significant first.
pub open spec fn digits_value(d: Seq<char>) -> int
    decreases d.len(),
{
    if d.len() == 0 {
        0
    } else {
        digits_value(d.drop_last()) * 10 + (d.last() as int - '0' as int)
    }
}

#[verifier::external_type_specification]
#[verifier::external_body]
pub struct ExParseIntError(std::num::ParseIntError);

/// `str::parse::<i64>`: succeeds exactly on an optional sign followed by ASCII
/// digits whose value fits in `i64`, and then yields that value.
#[verifier::external_body]
fn parse_i64(text: &str) -> (res: Result<i64, std::num::ParseIntError>)
    ensures
        res is Ok <==> decimal_i64(text@) is Some,
        res matches Ok(v) ==> decimal_i64(text@) == Some(v as int),
{
    text.parse::<i64>()
}

/// The value of an integer-literal token: the decimal value of its text.
pub fn parse_int_literal(tok: &Token) -> (res: Result<i64, std::num::ParseIntError>)
    ensures
        res is Ok <==> decimal_i64(tok.text@) is Some,
        res matches Ok(v) ==> decimal_i64(tok.text@) == Some(v as int),
{
    parse_i64(tok.text.as_str())
}

fn lookup_keyword(text: &str) -> (k: Kind)
    ensures
        k == keyword_kind(text@),
{
    if str_eq(text, "package") {
        Kind::Package
    } else if str_eq(text, "import") {
        Kind::Import
    } else if str_eq(text, "fn") {
        Kind::Fn
    } else if str_eq(text, "pub") {
        Kind::Pub
    } else if str_eq(text, "let") {
        Kind::Let
    } else if str_eq(text, "var") {
        Kind::Var
    } else if str_eq(text, "struct") {
        Kind::Struct
    } else if str_eq(text, "interface") {
        Kind::Interface
    } else if str_eq(text, "enum") {
        Kind::Enum
    } else if str_eq(text, "or") {
        Kind::Or
    } else if str_eq(text, "if") {
        Kind::If
    } else if str_eq(text, "else") {
        Kind::Else
    } else if str_eq(text, "for") {
        Kind::For
    } else if str_eq(text, "break") {
        Kind::Break
    } else if str_eq(text, "continue") {
        Kind::Continue
    } else if str_eq(text, "return") {
        Kind::Return
    } else if str_eq(text, "match") {
        Kind::Match
    } else if str_eq(text, "case") {
        Kind::Case
    } else if str_eq(text, "taskgroup") {
        Kind::Taskgroup
    } else if str_eq(text, "spawn") {
        Kind::Spawn
    } else if str_eq(text, "true") {
        Kind::True
    } else if str_eq(text, "false") {
        Kind::False
    } else if str_eq(text, "nil") {
        Kind::Nil
    } else if str_eq(text, "error") {
        Kind::Error
    } else if str_eq(text, "map") {
        Kind::MapKw
    } else if str_eq(text, "chan") {
        Kind::Chan
    } else {
        Kind::Ident
    }
}

} // verus!
