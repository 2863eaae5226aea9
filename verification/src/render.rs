//! Rendering: from the items of a template to styled segments, with the
//! names looked up by the caller's resolver.

use crate::error::{FormatError, FormatErrorView, ResolveError};
use crate::segment::{
    joined_text, lemma_joined_text_add, segment_views, unstyled, Segment, SegmentView, StyleValue,
};
use crate::template::{
    is_special, lemma_plain_template, parse, parsed, token_views, ParsedTemplate, Token, TokenView,
};
use crate::writing::{escaped, lemma_parse_then_write, may_follow, written, written_token};
use vstd::prelude::*;

verus! {

/// The answer of a resolver as the contracts see it: nothing for a name it
/// does not know, else the value or its complaint.
pub type Lookup = Option<Result<Seq<char>, Seq<char>>>;

/// The view of a resolver's answer that borrows a text.
pub open spec fn text_lookup(answer: Option<Result<&str, ResolveError>>) -> Lookup {
    match answer {
        None => None,
        Some(Err(error)) => Some(Err(error@)),
        Some(Ok(value)) => Some(Ok(value@)),
    }
}

/// The view of a resolver's answer that borrows a style.
pub open spec fn style_lookup(answer: Option<Result<&StyleValue, ResolveError>>) -> Lookup {
    match answer {
        None => None,
        Some(Err(error)) => Some(Err(error@)),
        Some(Ok(value)) => Some(Ok(value@)),
    }
}

/// What the names of a template stand for: one lookup for the variables,
/// one for the meta-variables and one for the styles.
pub struct Names {
    /// What `$name` stands for.
    pub variable: spec_fn(Seq<char>) -> Lookup,
    /// What `${name}` stands for.
    pub meta: spec_fn(Seq<char>) -> Lookup,
    /// The style that `($name)` behind a group stands for.
    pub style: spec_fn(Seq<char>) -> Lookup,
}

impl Names {
    /// The lookups that know no name.
    pub open spec fn none() -> Names {
        Names {
            variable: |name: Seq<char>| None::<Result<Seq<char>, Seq<char>>>,
            meta: |name: Seq<char>| None::<Result<Seq<char>, Seq<char>>>,
            style: |name: Seq<char>| None::<Result<Seq<char>, Seq<char>>>,
        }
    }
}

/// The three lookups that a template's names go through. Each is a function
/// of the name: the same name gets the same answer.
pub trait Resolver {
    /// The lookups as the contracts see them. A resolver that says nothing
    /// else knows no name.
    open spec fn names(&self) -> Names {
        Names::none()
    }

    /// Looks up what `$name` stands for.
    fn variable(&self, name: &str) -> (answer: Option<Result<&str, ResolveError>>)
        ensures
            text_lookup(answer) == (self.names().variable)(name@),
    ;

    /// Looks up what `${name}` stands for.
    fn meta(&self, name: &str) -> (answer: Option<Result<&str, ResolveError>>)
        ensures
            text_lookup(answer) == (self.names().meta)(name@),
    ;

    /// Looks up the style that `($name)` behind a group stands for.
    fn style(&self, name: &str) -> (answer: Option<Result<&StyleValue, ResolveError>>)
        ensures
            style_lookup(answer) == (self.names().style)(name@),
    ;
}

/// The one segment that a piece of text in a style makes.
pub open spec fn one_segment(text: Seq<char>, style: Option<Seq<char>>) -> Seq<SegmentView> {
    seq![SegmentView { text, style }]
}

/// The segments of one item inside a group of the style `style`.
pub open spec fn rendered_token(
    token: TokenView,
    names: Names,
    style: Option<Seq<char>>,
) -> Result<Seq<SegmentView>, FormatErrorView>
    decreases token, 0int,
{
    match token {
        TokenView::Literal(text) => Ok(one_segment(text, style)),
        TokenView::Variable(name) => match (names.variable)(name) {
            None => Err(FormatErrorView::UnknownVariable(name)),
            Some(Err(error)) => Err(FormatErrorView::ResolverValue(error)),
            Some(Ok(value)) => Ok(one_segment(value, style)),
        },
        TokenView::MetaVariable(name) => match (names.meta)(name) {
            None => Err(FormatErrorView::UnresolvedMeta(name)),
            Some(Err(error)) => Err(FormatErrorView::ResolverValue(error)),
            Some(Ok(value)) => Ok(one_segment(value, style)),
        },
        TokenView::StyleGroup(children, name) => match (names.style)(name) {
            None => Err(FormatErrorView::UnknownStyle(name)),
            Some(Err(error)) => Err(FormatErrorView::ResolverValue(error)),
            Some(Ok(inner)) => rendered(children, names, Some(inner)),
        },
    }
}

/// The segments of `tokens` inside a group of the style `style`, in the
/// order of the items; or the error of the first item that has one.
pub open spec fn rendered(
    tokens: Seq<TokenView>,
    names: Names,
    style: Option<Seq<char>>,
) -> Result<Seq<SegmentView>, FormatErrorView>
    decreases tokens, 1int,
{
    if tokens.len() == 0 {
        Ok(Seq::empty())
    } else {
        match rendered_token(tokens[0], names, style) {
            Err(error) => Err(error),
            Ok(first) => match rendered(tokens.drop_first(), names, style) {
                Err(error) => Err(error),
                Ok(rest) => Ok(first + rest),
            },
        }
    }
}

/// The segments that the template `template` gives, from its text to the
/// end.
pub open spec fn formatted(template: Seq<char>, names: Names) -> Result<
    Seq<SegmentView>,
    FormatErrorView,
> {
    match parsed(template) {
        Err(at) => Err(FormatErrorView::Syntax(at)),
        Ok(tokens) => rendered(tokens, names, None),
    }
}

/// The value that a lookup gives, or no text where it gives none.
pub open spec fn value_of(answer: Lookup) -> Seq<char> {
    match answer {
        Some(Ok(value)) => value,
        _ => Seq::empty(),
    }
}

/// The text that one item shows: a literal itself, a name what it stands
/// for, a group what its items show.
pub open spec fn shown_token(token: TokenView, names: Names) -> Seq<char>
    decreases token, 0int,
{
    match token {
        TokenView::Literal(text) => text,
        TokenView::Variable(name) => value_of((names.variable)(name)),
        TokenView::MetaVariable(name) => value_of((names.meta)(name)),
        TokenView::StyleGroup(children, _) => shown(children, names),
    }
}

/// The text that `tokens` show, one after the other.
pub open spec fn shown(tokens: Seq<TokenView>, names: Names) -> Seq<char>
    decreases tokens, 1int,
{
    if tokens.len() == 0 {
        Seq::empty()
    } else {
        shown_token(tokens[0], names) + shown(tokens.drop_first(), names)
    }
}

/// Whether a lookup gives a value.
pub open spec fn gives_value(answer: Lookup) -> bool {
    answer matches Some(Ok(_))
}

/// Whether every name in `token` stands for a value.
pub open spec fn resolves_token(token: TokenView, names: Names) -> bool
    decreases token, 0int,
{
    match token {
        TokenView::Literal(_) => true,
        TokenView::Variable(name) => gives_value((names.variable)(name)),
        TokenView::MetaVariable(name) => gives_value((names.meta)(name)),
        TokenView::StyleGroup(children, style) => gives_value((names.style)(style)) && resolves(
            children,
            names,
        ),
    }
}

/// Whether every name in `tokens` stands for a value, here and in every
/// group.
pub open spec fn resolves(tokens: Seq<TokenView>, names: Names) -> bool
    decreases tokens, 1int,
{
    if tokens.len() == 0 {
        true
    } else {
        resolves_token(tokens[0], names) && resolves(tokens.drop_first(), names)
    }
}

/// Whether every segment of `segments` has a style.
pub open spec fn all_styled(segments: Seq<SegmentView>) -> bool {
    forall|i: int| 0 <= i < segments.len() ==> (#[trigger] segments[i]).style is Some
}

/// An item is rendered if and only if all its names stand for values. The
/// texts of its segments, one after the other, are then the item's text
/// with each name replaced by its value; and inside a group every segment
/// has a style.
pub proof fn lemma_rendered_token(token: TokenView, names: Names, style: Option<Seq<char>>)
    ensures
        rendered_token(token, names, style) is Ok <==> resolves_token(token, names),
        rendered_token(token, names, style) matches Ok(segments) ==> joined_text(segments)
            == shown_token(token, names) && (style is Some ==> all_styled(segments)),
    decreases token, 0int,
{
    match token {
        TokenView::StyleGroup(children, name) => {
            match (names.style)(name) {
                Some(Ok(inner)) => {
                    lemma_rendered(children, names, Some(inner));
                },
                _ => {},
            }
        },
        _ => {
            match rendered_token(token, names, style) {
                Ok(segments) => {
                    assert(joined_text(segments.drop_last()) =~= Seq::<char>::empty());
                },
                Err(_) => {},
            }
        },
    }
}

/// Items are rendered if and only if all their names stand for values. The
/// texts of the segments, one after the other, are then the items' text
/// with each name replaced by its value; and inside a group every segment
/// has a style.
pub proof fn lemma_rendered(tokens: Seq<TokenView>, names: Names, style: Option<Seq<char>>)
    ensures
        rendered(tokens, names, style) is Ok <==> resolves(tokens, names),
        rendered(tokens, names, style) matches Ok(segments) ==> joined_text(segments) == shown(
            tokens,
            names,
        ) && (style is Some ==> all_styled(segments)),
    decreases tokens, 1int,
{
    if tokens.len() > 0 {
        lemma_rendered_token(tokens[0], names, style);
        lemma_rendered(tokens.drop_first(), names, style);
        match rendered_token(tokens[0], names, style) {
            Ok(first) => match rendered(tokens.drop_first(), names, style) {
                Ok(rest) => {
                    lemma_joined_text_add(first, rest);
                },
                Err(_) => {},
            },
            Err(_) => {},
        }
    }
}

/// A template that holds none of the characters `[ ] ( ) \ $` is shown as
/// it is written, in no style, whatever the names stand for.
pub proof fn lemma_plain_template_round_trip(template: Seq<char>, names: Names)
    requires
        forall|k: int| 0 <= k < template.len() ==> !is_special(#[trigger] template[k]),
    ensures
        formatted(template, names) matches Ok(segments) && joined_text(segments) == template
            && unstyled(segments),
{
    lemma_plain_template(template);
    if template.len() > 0 {
        let tokens = seq![TokenView::Literal(template)];
        let one = one_segment(template, None);
        assert(rendered(tokens.drop_first(), names, None) == Ok::<
            Seq<SegmentView>,
            FormatErrorView,
        >(Seq::empty()));
        assert(rendered_token(tokens[0], names, None) == Ok::<Seq<SegmentView>, FormatErrorView>(
            one,
        ));
        assert(joined_text(one.drop_last()) =~= Seq::<char>::empty());
    }
}

/// A template that is literal text only, escaped characters included, is
/// shown in no style, whatever the names stand for; and what is shown,
/// escaped again, is the template.
pub proof fn lemma_literal_template_round_trip(template: Seq<char>, names: Names)
    requires
        parsed(template) matches Ok(tokens) && forall|i: int|
            0 <= i < tokens.len() ==> #[trigger] tokens[i] is Literal,
    ensures
        formatted(template, names) matches Ok(segments) && escaped(joined_text(segments))
            == template && unstyled(segments),
{
    let tokens = parsed(template)->Ok_0;
    lemma_parse_then_write(template);
    lemma_rendered(tokens, names, None);
    if tokens.len() > 0 {
        // a literal cannot follow a literal: there is one item
        let text = tokens[0]->Literal_0;
        let one = one_segment(text, None);
        assert(written(tokens.drop_first()) =~= Seq::<char>::empty());
        assert(written_token(tokens[0]) == escaped(text));
        assert(rendered_token(tokens[0], names, None) == Ok::<Seq<SegmentView>, FormatErrorView>(
            one,
        ));
        assert(rendered(tokens.drop_first(), names, None) == Ok::<
            Seq<SegmentView>,
            FormatErrorView,
        >(Seq::empty()));
        assert(joined_text(one.drop_last()) =~= Seq::<char>::empty());
    }
}

/// The view of a style that may be there.
pub open spec fn style_view(style: Option<&StyleValue>) -> Option<Seq<char>> {
    match style {
        Some(style) => Some(style@),
        None => None,
    }
}

fn copy_style(style: Option<&StyleValue>) -> (copy: Option<StyleValue>)
    ensures
        copy is Some == style is Some,
        copy matches Some(c) ==> Some(c@) == style_view(style),
{
    match style {
        Some(style) => Some(style.clone()),
        None => None,
    }
}

fn push_segment(out: &mut Vec<Segment>, text: String, style: Option<&StyleValue>)
    ensures
        segment_views(final(out)@) == segment_views(old(out)@) + one_segment(
            text@,
            style_view(style),
        ),
{
    let segment = Segment { text, style: copy_style(style) };
    out.push(segment);
}

fn render_token<R: Resolver>(
    token: &Token,
    resolver: &R,
    style: Option<&StyleValue>,
    out: &mut Vec<Segment>,
) -> (r: Result<(), FormatError>)
    ensures
        match r {
            Ok(_) => rendered_token(token@, resolver.names(), style_view(style)) matches Ok(
                segments,
            ) && segment_views(final(out)@) == segment_views(old(out)@) + segments,
            Err(error) => rendered_token(token@, resolver.names(), style_view(style)) == Err::<
                Seq<SegmentView>,
                FormatErrorView,
            >(error@),
        },
    decreases token, 0int,
{
    match token {
        Token::Literal(text) => {
            push_segment(out, text.clone(), style);
            Ok(())
        },
        Token::Variable(name) => match resolver.variable(name.as_str()) {
            None => Err(FormatError::UnknownVariable(name.clone())),
            Some(Err(error)) => Err(FormatError::ResolverValue(error)),
            Some(Ok(value)) => {
                push_segment(out, value.to_owned(), style);
                Ok(())
            },
        },
        Token::MetaVariable(name) => match resolver.meta(name.as_str()) {
            None => Err(FormatError::UnresolvedMeta(name.clone())),
            Some(Err(error)) => Err(FormatError::ResolverValue(error)),
            Some(Ok(value)) => {
                push_segment(out, value.to_owned(), style);
                Ok(())
            },
        },
        Token::StyleGroup(children, name) => match resolver.style(name.as_str()) {
            None => Err(FormatError::UnknownStyle(name.clone())),
            Some(Err(error)) => Err(FormatError::ResolverValue(error)),
            Some(Ok(inner)) => render_tokens(children, resolver, Some(inner), out),
        },
    }
}

/// The segments `front` put before those of `rest`, where there are any.
pub open spec fn after(
    front: Seq<SegmentView>,
    rest: Result<Seq<SegmentView>, FormatErrorView>,
) -> Result<Seq<SegmentView>, FormatErrorView> {
    match rest {
        Err(error) => Err(error),
        Ok(segments) => Ok(front + segments),
    }
}

fn render_tokens<R: Resolver>(
    tokens: &Vec<Token>,
    resolver: &R,
    style: Option<&StyleValue>,
    out: &mut Vec<Segment>,
) -> (r: Result<(), FormatError>)
    ensures
        match r {
            Ok(_) => rendered(token_views(tokens@), resolver.names(), style_view(style))
                matches Ok(segments) && segment_views(final(out)@) == segment_views(old(out)@)
                + segments,
            Err(error) => rendered(token_views(tokens@), resolver.names(), style_view(style))
                == Err::<Seq<SegmentView>, FormatErrorView>(error@),
        },
    decreases tokens, 1int,
{
    let ghost all = token_views(tokens@);
    let ghost start = segment_views(out@);
    let ghost goal = rendered(all, resolver.names(), style_view(style));
    let ghost mut done = Seq::<SegmentView>::empty();
    let mut i: usize = 0;
    proof {
        assert(all.skip(0) =~= all);
    }
    while i < tokens.len()
        invariant
            i <= tokens.len(),
            all == token_views(tokens@),
            goal == rendered(all, resolver.names(), style_view(style)),
            goal == after(
                done,
                rendered(all.skip(i as int), resolver.names(), style_view(style)),
            ),
            segment_views(out@) == start + done,
        decreases tokens.len() - i,
    {
        let ghost rest = all.skip(i as int);
        proof {
            assert(rest.drop_first() =~= all.skip(i + 1));
        }
        match render_token(&tokens[i], resolver, style, out) {
            Err(error) => {
                return Err(error);
            },
            Ok(_) => {
                proof {
                    let first = rendered_token(
                        rest[0],
                        resolver.names(),
                        style_view(style),
                    )->Ok_0;
                    match rendered(all.skip(i + 1), resolver.names(), style_view(style)) {
                        Ok(more) => {
                            assert(done + (first + more) =~= (done + first) + more);
                        },
                        Err(_) => {},
                    }
                    done = done + first;
                }
                i += 1;
            },
        }
    }
    Ok(())
}

/// Renders the items of a template: each literal and each value that a name
/// stands for becomes one segment, in the style of the innermost group
/// around it.
///
/// Fails on the first name, from the left, that its resolver does not know
/// or cannot give a value for; a group's style comes before the items in
/// the group.
pub fn render<R: Resolver>(template: &ParsedTemplate, resolver: &R) -> (r: Result<
    Vec<Segment>,
    FormatError,
>)
    ensures
        match r {
            Ok(segments) => rendered(template@, resolver.names(), None) == Ok::<
                Seq<SegmentView>,
                FormatErrorView,
            >(segment_views(segments@)),
            Err(error) => rendered(template@, resolver.names(), None) == Err::<
                Seq<SegmentView>,
                FormatErrorView,
            >(error@),
        },
{
    let mut out: Vec<Segment> = Vec::new();
    match render_tokens(&template.tokens, resolver, None, &mut out) {
        Err(error) => Err(error),
        Ok(_) => Ok(out),
    }
}

/// Parses a template and renders it.
pub fn format_template<R: Resolver>(template: &str, resolver: &R) -> (r: Result<
    Vec<Segment>,
    FormatError,
>)
    ensures
        match r {
            Ok(segments) => formatted(template@, resolver.names()) == Ok::<
                Seq<SegmentView>,
                FormatErrorView,
            >(segment_views(segments@)),
            Err(error) => formatted(template@, resolver.names()) == Err::<
                Seq<SegmentView>,
                FormatErrorView,
            >(error@),
        },
{
    match parse(template) {
        Err(error) => Err(error),
        Ok(template_parsed) => render(&template_parsed, resolver),
    }
}

} // verus!
