//! Telegram MarkdownV2 helpers.
//!
//! Every helper calls the corresponding function of `teloxide::utils::markdown`;
//! the spec functions below state what those functions compute.
use vstd::prelude::*;
use vstd::string::*;

verus! {

/// The characters that MarkdownV2 requires to be escaped in ordinary text.
pub open spec fn is_markdown_special(c: char) -> bool {
    c == '_' || c == '*' || c == '[' || c == ']' || c == '(' || c == ')' || c == '~'
        || c == '`' || c == '>' || c == '#' || c == '+' || c == '-' || c == '='
        || c == '|' || c == '{' || c == '}' || c == '.' || c == '!'
}

/// One character of escaped text: a backslash first when `is_special` holds.
pub open spec fn escaped_char(c: char, is_special: bool) -> Seq<char> {
    if is_special {
        seq!['\\', c]
    } else {
        seq![c]
    }
}

/// Text escaped for MarkdownV2: each special character gets a backslash in front.
pub open spec fn md_escape(s: Seq<char>) -> Seq<char>
    decreases s.len(),
{
    if s.len() == 0 {
        seq![]
    } else {
        md_escape(s.drop_last()) + escaped_char(s.last(), is_markdown_special(s.last()))
    }
}

/// Text escaped for a code span or block: backquotes and backslashes get a backslash.
pub open spec fn md_escape_code(s: Seq<char>) -> Seq<char>
    decreases s.len(),
{
    if s.len() == 0 {
        seq![]
    } else {
        md_escape_code(s.drop_last()) + escaped_char(
            s.last(),
            s.last() == '`' || s.last() == '\\',
        )
    }
}

/// Text escaped for a link target: backquotes and closing parentheses get a backslash.
pub open spec fn md_escape_link_url(s: Seq<char>) -> Seq<char>
    decreases s.len(),
{
    if s.len() == 0 {
        seq![]
    } else {
        md_escape_link_url(s.drop_last()) + escaped_char(
            s.last(),
            s.last() == '`' || s.last() == ')',
        )
    }
}

pub open spec fn md_bold(s: Seq<char>) -> Seq<char> {
    seq!['*'] + s + seq!['*']
}

pub open spec fn md_strike(s: Seq<char>) -> Seq<char> {
    seq!['~'] + s + seq!['~']
}

/// Italic text; text that already starts and ends with `__` gets the
/// `\r` separator that keeps it apart from underline markup.
pub open spec fn md_italic(s: Seq<char>) -> Seq<char> {
    if s.len() >= 2 && s[0] == '_' && s[1] == '_' && s[s.len() - 1] == '_' && s[s.len() - 2]
        == '_' {
        seq!['_'] + s.drop_last() + seq!['\\', 'r', '_', '_']
    } else {
        seq!['_'] + s + seq!['_']
    }
}

pub open spec fn md_link(url: Seq<char>, text: Seq<char>) -> Seq<char> {
    seq!['['] + text + seq![']', '('] + md_escape_link_url(url) + seq![')']
}

pub open spec fn md_code_block(code: Seq<char>) -> Seq<char> {
    seq!['`', '`', '`', '\n'] + md_escape_code(code) + seq!['\n', '`', '`', '`']
}

pub open spec fn md_code_block_with_lang(code: Seq<char>, lang: Seq<char>) -> Seq<char> {
    seq!['`', '`', '`'] + md_escape(lang) + seq!['\n'] + md_escape_code(code) + seq![
        '\n',
        '`',
        '`',
        '`',
    ]
}

pub open spec fn md_code_inline(s: Seq<char>) -> Seq<char> {
    seq!['`'] + md_escape_code(s) + seq!['`']
}

/// `teloxide::utils::markdown::escape`: puts a backslash before each MarkdownV2
/// special character.
#[verifier::external_body]
pub fn escape(s: &str) -> (r: String)
    ensures
        r@ == md_escape(s@),
{
    teloxide::utils::markdown::escape(s)
}

/// `teloxide::utils::markdown::bold`: wraps the text in `*`, without escaping it.
#[verifier::external_body]
pub fn bold(s: &str) -> (r: String)
    ensures
        r@ == md_bold(s@),
{
    teloxide::utils::markdown::bold(s)
}

/// `teloxide::utils::markdown::italic`: wraps the text in `_`, without escaping it.
#[verifier::external_body]
pub fn italic(s: &str) -> (r: String)
    ensures
        r@ == md_italic(s@),
{
    teloxide::utils::markdown::italic(s)
}

/// `teloxide::utils::markdown::strike`: wraps the text in `~`, without escaping it.
#[verifier::external_body]
pub fn strike(s: &str) -> (r: String)
    ensures
        r@ == md_strike(s@),
{
    teloxide::utils::markdown::strike(s)
}

/// `teloxide::utils::markdown::link`: `[text](url)` with the url escaped for a link target.
#[verifier::external_body]
pub fn link(url: &str, text: &str) -> (r: String)
    ensures
        r@ == md_link(url@, text@),
{
    teloxide::utils::markdown::link(url, text)
}

/// `teloxide::utils::markdown::code_block`: a fenced block with the code escaped.
#[verifier::external_body]
pub fn code_block(code: &str) -> (r: String)
    ensures
        r@ == md_code_block(code@),
{
    teloxide::utils::markdown::code_block(code)
}

/// `teloxide::utils::markdown::code_block_with_lang`: a fenced block that names its language.
#[verifier::external_body]
pub fn code_block_with_lang(code: &str, lang: &str) -> (r: String)
    ensures
        r@ == md_code_block_with_lang(code@, lang@),
{
    teloxide::utils::markdown::code_block_with_lang(code, lang)
}

/// `teloxide::utils::markdown::code_inline`: a code span with the code escaped.
#[verifier::external_body]
pub fn code_inline(s: &str) -> (r: String)
    ensures
        r@ == md_code_inline(s@),
{
    teloxide::utils::markdown::code_inline(s)
}

} // verus!
