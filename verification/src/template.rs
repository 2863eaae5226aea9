//! The template language and its parser.
//!
//! A template is a sequence of items:
//!
//! | item               | written                 |
//! |--------------------|-------------------------|
//! | literal text       | `text`                  |
//! | a variable         | `$name`                 |
//! | a meta-variable    | `${name}`               |
//! | a group in a style | `[` items `]($style)`   |
//!
//! A name is made of ASCII letters, digits and `_`, at least one. The six
//! characters `[ ] ( ) \ $` stand for themselves only behind a backslash;
//! every other character is literal text.

use crate::error::FormatError;
use crate::text::{chars_of, slice_string};
use crate::writing::{lemma_parse_inverts_writing, well_formed, written};
use vstd::prelude::*;

verus! {

/// One item of a template.
#[derive(Debug, PartialEq, Eq)]
pub enum Token {
    /// Text that is shown as it is.
    Literal(String),
    /// A name to look up among the variables.
    Variable(String),
    /// A name to look up among the meta-variables.
    MetaVariable(String),
    /// Items that are shown in the style of the given name.
    StyleGroup(Vec<Token>, String),
}

/// A [`Token`] as the contracts see it.
pub enum TokenView {
    Literal(Seq<char>),
    Variable(Seq<char>),
    MetaVariable(Seq<char>),
    StyleGroup(Seq<TokenView>, Seq<char>),
}

impl View for Token {
    type V = TokenView;

    open spec fn view(&self) -> TokenView
        decreases self,
    {
        match self {
            Token::Literal(text) => TokenView::Literal(text@),
            Token::Variable(name) => TokenView::Variable(name@),
            Token::MetaVariable(name) => TokenView::MetaVariable(name@),
            Token::StyleGroup(children, style) => TokenView::StyleGroup(
                token_views(children@),
                style@,
            ),
        }
    }
}

/// The views of a sequence of tokens.
pub open spec fn token_views(tokens: Seq<Token>) -> Seq<TokenView>
    decreases tokens,
{
    Seq::new(
        tokens.len(),
        |i: int|
            if 0 <= i < tokens.len() {
                tokens[i]@
            } else {
                arbitrary()
            },
    )
}

/// A template that has been parsed.
#[derive(Debug, PartialEq, Eq)]
pub struct ParsedTemplate {
    pub tokens: Vec<Token>,
}

impl View for ParsedTemplate {
    type V = Seq<TokenView>;

    open spec fn view(&self) -> Seq<TokenView> {
        token_views(self.tokens@)
    }
}

/// Whether `c` has a meaning of its own in a template.
pub open spec fn is_special(c: char) -> bool {
    c == '[' || c == ']' || c == '(' || c == ')' || c == '\\' || c == '$'
}

/// Whether `c` can stand in a name.
pub open spec fn is_name_char(c: char) -> bool {
    let n = c as u32;
    ||| 0x30 <= n <= 0x39
    ||| 0x41 <= n <= 0x5a
    ||| 0x61 <= n <= 0x7a
    ||| n == 0x5f
}

/// Whether `s` holds the character `c` at `i`.
pub open spec fn holds(s: Seq<char>, i: int, c: char) -> bool {
    0 <= i < s.len() && s[i] == c
}

/// Where the name that starts at `i` ends: the first index from `i` on that
/// holds no character of a name.
pub open spec fn name_end(s: Seq<char>, i: int) -> int
    decreases s.len() - i,
{
    if 0 <= i < s.len() && is_name_char(s[i]) {
        name_end(s, i + 1)
    } else {
        i
    }
}

/// How many characters of `s` at `i` write one character of literal text:
/// 1 for a character that is not special, 2 for a backslash with a special
/// character behind it, 0 where no literal text stands.
pub open spec fn text_step(s: Seq<char>, i: int) -> int {
    if 0 <= i < s.len() && !is_special(s[i]) {
        1
    } else if holds(s, i, '\\') && i + 1 < s.len() && is_special(s[i + 1]) {
        2
    } else {
        0
    }
}

/// The longest literal text that is written in `s` from `i` on, and where
/// it ends.
pub open spec fn text_run(s: Seq<char>, i: int) -> (Seq<char>, int)
    decreases s.len() - i,
{
    let step = text_step(s, i);
    if step > 0 {
        let rest = text_run(s, i + step);
        (seq![s[i + step - 1]] + rest.0, rest.1)
    } else {
        (Seq::empty(), i)
    }
}

/// The variable or meta-variable whose `$` stands at `i`, and where it ends.
pub open spec fn reference_at(s: Seq<char>, i: int) -> Result<(TokenView, int), int> {
    if holds(s, i + 1, '{') {
        let end = name_end(s, i + 2);
        if end > i + 2 && holds(s, end, '}') {
            Ok((TokenView::MetaVariable(s.subrange(i + 2, end)), end + 1))
        } else {
            Err(end)
        }
    } else {
        let end = name_end(s, i + 1);
        if end > i + 1 {
            Ok((TokenView::Variable(s.subrange(i + 1, end)), end))
        } else {
            Err(end)
        }
    }
}

/// The name of the style in the `]($style)` that stands at `i`, and where
/// it ends.
pub open spec fn style_at(s: Seq<char>, i: int) -> Result<(Seq<char>, int), int> {
    if !holds(s, i, ']') {
        Err(i)
    } else if !holds(s, i + 1, '(') {
        Err(i + 1)
    } else if !holds(s, i + 2, '$') {
        Err(i + 2)
    } else {
        let end = name_end(s, i + 3);
        if end > i + 3 && holds(s, end, ')') {
            Ok((s.subrange(i + 3, end), end + 1))
        } else {
            Err(end)
        }
    }
}

/// The item that starts at `i`, and where it ends; or where `s` is
/// malformed.
pub open spec fn item_at(s: Seq<char>, i: int) -> Result<(TokenView, int), int>
    decreases s.len() - i, 0int,
{
    if holds(s, i, '$') {
        reference_at(s, i)
    } else if holds(s, i, '[') {
        match items_at(s, i + 1) {
            Err(at) => Err(at),
            Ok((children, close)) => match style_at(s, close) {
                Err(at) => Err(at),
                Ok((style, end)) => Ok((TokenView::StyleGroup(children, style), end)),
            },
        }
    } else {
        let (text, end) = text_run(s, i);
        if end > i {
            Ok((TokenView::Literal(text), end))
        } else {
            Err(i)
        }
    }
}

/// The items from `i` up to the end of `s` or to the `]` that closes the
/// group they stand in, and where they end; or where `s` is malformed.
///
/// An item ends behind its start and within `s` (see
/// [`lemma_item_advances`]); the test for it only shows that the recursion
/// ends.
pub open spec fn items_at(s: Seq<char>, i: int) -> Result<(Seq<TokenView>, int), int>
    decreases s.len() - i, 1int,
{
    if !(0 <= i < s.len()) || s[i] == ']' {
        Ok((Seq::empty(), i))
    } else {
        match item_at(s, i) {
            Err(at) => Err(at),
            Ok((token, next)) => if i < next <= s.len() {
                match items_at(s, next) {
                    Err(at) => Err(at),
                    Ok((rest, end)) => Ok((seq![token] + rest, end)),
                }
            } else {
                Err(i)
            },
        }
    }
}

/// The items of the template `s`, or the index at which it is malformed.
pub open spec fn parsed(s: Seq<char>) -> Result<Seq<TokenView>, int> {
    match items_at(s, 0) {
        Err(at) => Err(at),
        Ok((tokens, end)) => if end == s.len() {
            Ok(tokens)
        } else {
            Err(end)
        },
    }
}

/// Where a name ends: not before its start, and within `s`.
pub proof fn lemma_name_end(s: Seq<char>, i: int)
    requires
        0 <= i <= s.len(),
    ensures
        i <= name_end(s, i) <= s.len(),
        forall|k: int| i <= k < name_end(s, i) ==> is_name_char(#[trigger] s[k]),
        !(name_end(s, i) < s.len() && is_name_char(s[name_end(s, i)])),
    decreases s.len() - i,
{
    if i < s.len() && is_name_char(s[i]) {
        lemma_name_end(s, i + 1);
    }
}

/// Where literal text ends: not before its start, and within `s`.
pub proof fn lemma_text_run(s: Seq<char>, i: int)
    requires
        0 <= i <= s.len(),
    ensures
        i <= text_run(s, i).1 <= s.len(),
        text_step(s, text_run(s, i).1) == 0,
        text_run(s, i).1 > i <==> text_step(s, i) > 0,
    decreases s.len() - i,
{
    if text_step(s, i) > 0 {
        lemma_text_run(s, i + text_step(s, i));
    }
}

/// An item ends behind its start and within `s`.
pub proof fn lemma_item_advances(s: Seq<char>, i: int)
    requires
        0 <= i < s.len(),
    ensures
        item_at(s, i) matches Ok((_, end)) ==> i < end <= s.len(),
        item_at(s, i) matches Err(at) ==> i <= at <= s.len(),
    decreases s.len() - i, 0int,
{
    if holds(s, i, '$') {
        lemma_name_end(s, i + 1);
        if i + 2 <= s.len() {
            lemma_name_end(s, i + 2);
        }
    } else if holds(s, i, '[') {
        lemma_items_advance(s, i + 1);
        match items_at(s, i + 1) {
            Err(at) => {},
            Ok((children, close)) => {
                if close + 3 <= s.len() {
                    lemma_name_end(s, close + 3);
                }
            },
        }
    } else {
        lemma_text_run(s, i);
    }
}

/// The items of a group end not before their start and within `s`, at the
/// end of `s` or at a `]`.
pub proof fn lemma_items_advance(s: Seq<char>, i: int)
    requires
        0 <= i <= s.len(),
    ensures
        items_at(s, i) matches Ok((_, end)) ==> i <= end <= s.len() && (end == s.len() || s[end]
            == ']'),
        items_at(s, i) matches Err(at) ==> i <= at <= s.len(),
    decreases s.len() - i, 1int,
{
    if i < s.len() && s[i] != ']' {
        lemma_item_advances(s, i);
        match item_at(s, i) {
            Err(at) => {},
            Ok((token, next)) => {
                lemma_items_advance(s, next);
            },
        }
    }
}

/// Literal text that holds no special character is written as it is shown.
pub proof fn lemma_plain_text_run(s: Seq<char>, i: int)
    requires
        0 <= i <= s.len(),
        forall|k: int| i <= k < s.len() ==> !is_special(#[trigger] s[k]),
    ensures
        text_run(s, i) == (s.skip(i), s.len() as int),
    decreases s.len() - i,
{
    if i < s.len() {
        lemma_plain_text_run(s, i + 1);
    }
}

/// A template without a special character is one literal, or nothing if it
/// is empty.
pub proof fn lemma_plain_template(s: Seq<char>)
    requires
        forall|k: int| 0 <= k < s.len() ==> !is_special(#[trigger] s[k]),
    ensures
        parsed(s) == Ok::<Seq<TokenView>, int>(
            if s.len() == 0 {
                Seq::empty()
            } else {
                seq![TokenView::Literal(s)]
            },
        ),
{
    if s.len() > 0 {
        lemma_plain_text_run(s, 0);
        assert(s.skip(0) =~= s);
        assert(item_at(s, 0) == Ok::<(TokenView, int), int>(
            (TokenView::Literal(s), s.len() as int),
        ));
        assert(items_at(s, s.len() as int) == Ok::<(Seq<TokenView>, int), int>(
            (Seq::empty(), s.len() as int),
        ));
    }
}

/// The items `front` put before the items of `rest`, where there are any.
pub open spec fn behind(front: Seq<TokenView>, rest: Result<(Seq<TokenView>, int), int>) -> Result<
    (Seq<TokenView>, int),
    int,
> {
    match rest {
        Err(at) => Err(at),
        Ok((tokens, end)) => Ok((front + tokens, end)),
    }
}

proof fn lemma_behind_nothing(rest: Result<(Seq<TokenView>, int), int>)
    ensures
        behind(Seq::empty(), rest) == rest,
{
}

proof fn lemma_behind_one_more(
    front: Seq<TokenView>,
    token: TokenView,
    rest: Result<(Seq<TokenView>, int), int>,
)
    ensures
        behind(front, behind(seq![token], rest)) == behind(front + seq![token], rest),
{
    match rest {
        Err(at) => {},
        Ok((tokens, end)) => {
            assert(front + (seq![token] + tokens) =~= (front + seq![token]) + tokens);
        },
    }
}

fn is_name(c: char) -> (b: bool)
    ensures
        b == is_name_char(c),
{
    let n: u32 = c as u32;
    (0x30 <= n && n <= 0x39) || (0x41 <= n && n <= 0x5a) || (0x61 <= n && n <= 0x7a) || n == 0x5f
}

fn special(c: char) -> (b: bool)
    ensures
        b == is_special(c),
{
    c == '[' || c == ']' || c == '(' || c == ')' || c == '\\' || c == '$'
}

fn char_at(chars: &Vec<char>, at: usize, c: char) -> (b: bool)
    ensures
        b == holds(chars@, at as int, c),
{
    at < chars.len() && chars[at] == c
}

fn scan_name(chars: &Vec<char>, from: usize) -> (end: usize)
    requires
        from <= chars.len(),
    ensures
        from <= end <= chars.len(),
        end == name_end(chars@, from as int),
{
    let mut end: usize = from;
    while end < chars.len() && is_name(chars[end])
        invariant
            from <= end <= chars.len(),
            name_end(chars@, from as int) == name_end(chars@, end as int),
        decreases chars.len() - end,
    {
        end += 1;
    }
    end
}

fn step_at(chars: &Vec<char>, at: usize) -> (step: usize)
    requires
        at <= chars.len(),
    ensures
        step == text_step(chars@, at as int),
        at + step <= chars.len(),
{
    if at < chars.len() && !special(chars[at]) {
        1
    } else if at < chars.len() && chars[at] == '\\' && at + 1 < chars.len() && special(
        chars[at + 1],
    ) {
        2
    } else {
        0
    }
}

fn scan_text(template: &str, chars: &Vec<char>, from: usize) -> (r: (String, usize))
    requires
        chars@ == template@,
        from <= chars.len(),
    ensures
        from <= r.1 <= chars.len(),
        (r.0@, r.1 as int) == text_run(chars@, from as int),
{
    let mut text = String::new();
    let mut start: usize = from;
    let mut at: usize = from;
    let mut step = step_at(chars, at);
    while step > 0
        invariant
            chars@ == template@,
            from <= start <= at <= chars.len(),
            step == text_step(chars@, at as int),
            at + step <= chars.len(),
            text_run(chars@, from as int).1 == text_run(chars@, at as int).1,
            text_run(chars@, from as int).0 == text@ + chars@.subrange(start as int, at as int)
                + text_run(chars@, at as int).0,
        decreases chars.len() - at,
    {
        if step == 2 {
            text.append(template.substring_char(start, at));
            start = at + 1;
        }
        at += step;
        step = step_at(chars, at);
    }
    text.append(template.substring_char(start, at));
    (text, at)
}

fn parse_reference(template: &str, chars: &Vec<char>, from: usize) -> (r: Result<
    (Token, usize),
    usize,
>)
    requires
        chars@ == template@,
        from < chars.len(),
        chars[from as int] == '$',
    ensures
        match r {
            Ok((token, end)) => reference_at(chars@, from as int) == Ok::<(TokenView, int), int>(
                (token@, end as int),
            ) && from < end <= chars.len(),
            Err(at) => reference_at(chars@, from as int) == Err::<(TokenView, int), int>(
                at as int,
            ) && at <= chars.len(),
        },
{
    if char_at(chars, from + 1, '{') {
        let end = scan_name(chars, from + 2);
        if end > from + 2 && char_at(chars, end, '}') {
            Ok((Token::MetaVariable(slice_string(template, from + 2, end)), end + 1))
        } else {
            Err(end)
        }
    } else {
        let end = scan_name(chars, from + 1);
        if end > from + 1 {
            Ok((Token::Variable(slice_string(template, from + 1, end)), end))
        } else {
            Err(end)
        }
    }
}

fn parse_style(template: &str, chars: &Vec<char>, from: usize) -> (r: Result<
    (String, usize),
    usize,
>)
    requires
        chars@ == template@,
        from <= chars.len(),
    ensures
        match r {
            Ok((style, end)) => style_at(chars@, from as int) == Ok::<(Seq<char>, int), int>(
                (style@, end as int),
            ) && from < end <= chars.len(),
            Err(at) => style_at(chars@, from as int) == Err::<(Seq<char>, int), int>(at as int)
                && at <= chars.len(),
        },
{
    if !char_at(chars, from, ']') {
        Err(from)
    } else if !char_at(chars, from + 1, '(') {
        Err(from + 1)
    } else if !char_at(chars, from + 2, '$') {
        Err(from + 2)
    } else {
        let end = scan_name(chars, from + 3);
        if end > from + 3 && char_at(chars, end, ')') {
            Ok((slice_string(template, from + 3, end), end + 1))
        } else {
            Err(end)
        }
    }
}

fn parse_item(template: &str, chars: &Vec<char>, from: usize) -> (r: Result<
    (Token, usize),
    usize,
>)
    requires
        chars@ == template@,
        from < chars.len(),
    ensures
        match r {
            Ok((token, end)) => item_at(chars@, from as int) == Ok::<(TokenView, int), int>(
                (token@, end as int),
            ) && from < end <= chars.len(),
            Err(at) => item_at(chars@, from as int) == Err::<(TokenView, int), int>(at as int)
                && at <= chars.len(),
        },
    decreases chars.len() - from, 0int,
{
    if chars[from] == '$' {
        parse_reference(template, chars, from)
    } else if chars[from] == '[' {
        match parse_items(template, chars, from + 1) {
            Err(at) => Err(at),
            Ok((children, close)) => match parse_style(template, chars, close) {
                Err(at) => Err(at),
                Ok((style, end)) => Ok((Token::StyleGroup(children, style), end)),
            },
        }
    } else {
        let (text, end) = scan_text(template, chars, from);
        if end > from {
            Ok((Token::Literal(text), end))
        } else {
            Err(from)
        }
    }
}

fn parse_items(template: &str, chars: &Vec<char>, from: usize) -> (r: Result<
    (Vec<Token>, usize),
    usize,
>)
    requires
        chars@ == template@,
        from <= chars.len(),
    ensures
        match r {
            Ok((tokens, end)) => items_at(chars@, from as int) == Ok::<
                (Seq<TokenView>, int),
                int,
            >((token_views(tokens@), end as int)) && from <= end <= chars.len(),
            Err(at) => items_at(chars@, from as int) == Err::<(Seq<TokenView>, int), int>(
                at as int,
            ) && at <= chars.len(),
        },
    decreases chars.len() - from, 1int,
{
    let mut tokens: Vec<Token> = Vec::new();
    let mut at: usize = from;
    proof {
        lemma_behind_nothing(items_at(chars@, from as int));
    }
    while at < chars.len() && chars[at] != ']'
        invariant
            chars@ == template@,
            from <= at <= chars.len(),
            items_at(chars@, from as int) == behind(
                token_views(tokens@),
                items_at(chars@, at as int),
            ),
        decreases chars.len() - at,
    {
        match parse_item(template, chars, at) {
            Err(error) => {
                return Err(error);
            },
            Ok((token, next)) => {
                proof {
                    let front = token_views(tokens@);
                    assert(token_views(tokens@.push(token)) =~= front + seq![token@]);
                    lemma_behind_one_more(front, token@, items_at(chars@, next as int));
                }
                tokens.push(token);
                at = next;
            },
        }
    }
    Ok((tokens, at))
}

/// Parses a template into its items.
///
/// The items are those that, written out, give the template again. A
/// template that no well-formed items are written as is malformed: the
/// error is the index of the character at which the parser could not go
/// on.
pub fn parse(template: &str) -> (r: Result<ParsedTemplate, FormatError>)
    ensures
        match r {
            Ok(template_parsed) => {
                &&& parsed(template@) == Ok::<Seq<TokenView>, int>(template_parsed@)
                &&& well_formed(template_parsed@)
                &&& written(template_parsed@) == template@
            },
            Err(error) => {
                &&& error matches FormatError::Syntax(at) && at <= template@.len() && parsed(
                    template@,
                ) == Err::<Seq<TokenView>, int>(at as int)
                &&& forall|items: Seq<TokenView>|
                    well_formed(items) ==> #[trigger] written(items) != template@
            },
        },
{
    proof {
        lemma_parse_inverts_writing(template@);
    }
    let chars = chars_of(template);
    match parse_items(template, &chars, 0) {
        Err(at) => Err(FormatError::Syntax(at)),
        Ok((tokens, end)) => {
            if end == chars.len() {
                Ok(ParsedTemplate { tokens })
            } else {
                Err(FormatError::Syntax(end))
            }
        },
    }
}

} // verus!
