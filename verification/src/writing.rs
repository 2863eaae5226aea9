//! Writing items back as a template, the inverse of parsing: what the
//! parser makes of a template is exactly what, written out, gives that
//! template again.

use crate::template::{
    holds, is_name_char, is_special, item_at, items_at, lemma_items_advance, lemma_name_end,
    lemma_text_run, name_end, parsed, reference_at, style_at, text_run, text_step, TokenView,
};
use vstd::prelude::*;

verus! {

/// Literal text as a template writes it: a backslash before each special
/// character.
pub open spec fn escaped(text: Seq<char>) -> Seq<char>
    decreases text.len(),
{
    if text.len() == 0 {
        Seq::empty()
    } else if is_special(text[0]) {
        seq!['\\', text[0]] + escaped(text.drop_first())
    } else {
        seq![text[0]] + escaped(text.drop_first())
    }
}

/// One item as a template writes it.
pub open spec fn written_token(token: TokenView) -> Seq<char>
    decreases token, 0int,
{
    match token {
        TokenView::Literal(text) => escaped(text),
        TokenView::Variable(name) => seq!['$'] + name,
        TokenView::MetaVariable(name) => seq!['$', '{'] + name + seq!['}'],
        TokenView::StyleGroup(children, style) => seq!['['] + written(children) + seq![
            ']',
            '(',
            '$',
        ] + style + seq![')'],
    }
}

/// Items as a template writes them, one after the other.
pub open spec fn written(tokens: Seq<TokenView>) -> Seq<char>
    decreases tokens, 1int,
{
    if tokens.len() == 0 {
        Seq::empty()
    } else {
        written_token(tokens[0]) + written(tokens.drop_first())
    }
}

/// Whether `name` can be written as a name: it is not empty and holds only
/// characters of names.
pub open spec fn is_name(name: Seq<char>) -> bool {
    name.len() > 0 && forall|k: int| 0 <= k < name.len() ==> is_name_char(#[trigger] name[k])
}

/// Whether `next` can be written directly behind `token` and still be read
/// as an item of its own: a literal would run on into a literal before it,
/// and its first character into a variable's name if it can stand in one.
pub open spec fn may_follow(token: TokenView, next: TokenView) -> bool {
    match next {
        TokenView::Literal(text) => match token {
            TokenView::Literal(_) => false,
            TokenView::Variable(_) => text.len() > 0 ==> !is_name_char(text[0]),
            _ => true,
        },
        _ => true,
    }
}

/// Whether `token` is an item as the parser makes them: no literal is
/// empty, and every name is one.
pub open spec fn well_formed_token(token: TokenView) -> bool
    decreases token, 0int,
{
    match token {
        TokenView::Literal(text) => text.len() > 0,
        TokenView::Variable(name) => is_name(name),
        TokenView::MetaVariable(name) => is_name(name),
        TokenView::StyleGroup(children, style) => is_name(style) && well_formed(children),
    }
}

/// Whether `tokens` are items as the parser makes them, here and in every
/// group: each is well formed and may follow the one before it.
pub open spec fn well_formed(tokens: Seq<TokenView>) -> bool
    decreases tokens, 1int,
{
    if tokens.len() == 0 {
        true
    } else {
        &&& well_formed_token(tokens[0])
        &&& tokens.len() > 1 ==> may_follow(tokens[0], tokens[1])
        &&& well_formed(tokens.drop_first())
    }
}

/// The literal text read from `i` on, written out again, is what stands in
/// `s` from `i` to its end.
proof fn lemma_text_run_written(s: Seq<char>, i: int)
    requires
        0 <= i <= s.len(),
    ensures
        i <= text_run(s, i).1 <= s.len(),
        escaped(text_run(s, i).0) == s.subrange(i, text_run(s, i).1),
        text_step(s, i) > 0 ==> text_run(s, i).0.len() > 0 && text_run(s, i).0[0] == s[i
            + text_step(s, i) - 1],
    decreases s.len() - i,
{
    let step = text_step(s, i);
    lemma_text_run(s, i);
    if step > 0 {
        lemma_text_run_written(s, i + step);
        assert(text_run(s, i).0.drop_first() =~= text_run(s, i + step).0);
    }
}

/// A `$name` or `${name}` that was read, written out again, is what stands
/// in `s` from its `$` to its end.
proof fn lemma_reference_written(s: Seq<char>, i: int)
    requires
        holds(s, i, '$'),
    ensures
        reference_at(s, i) matches Ok((token, end)) ==> {
            &&& i < end <= s.len()
            &&& written_token(token) == s.subrange(i, end)
            &&& well_formed_token(token)
            &&& token is Variable ==> end == name_end(s, i + 1)
            &&& !(token is Literal)
        },
{
    lemma_name_end(s, i + 1);
    if holds(s, i + 1, '{') {
        lemma_name_end(s, i + 2);
    }
}

/// What the parser makes of the item at `i`, written out again, is what
/// stands in `s` from `i` to the item's end.
proof fn lemma_item_written(s: Seq<char>, i: int)
    requires
        0 <= i < s.len(),
    ensures
        item_at(s, i) matches Ok((token, end)) ==> {
            &&& i < end <= s.len()
            &&& written_token(token) == s.subrange(i, end)
            &&& well_formed_token(token)
            &&& token matches TokenView::Literal(text) ==> text_step(s, i) > 0 && text[0] == s[i
                + text_step(s, i) - 1] && text_step(s, end) == 0
            &&& token is Variable ==> !(end < s.len() && is_name_char(s[end]))
        },
    decreases s.len() - i, 0int,
{
    if holds(s, i, '$') {
        lemma_reference_written(s, i);
        lemma_name_end(s, i + 1);
    } else if holds(s, i, '[') {
        lemma_items_written(s, i + 1);
        lemma_items_advance(s, i + 1);
        match items_at(s, i + 1) {
            Ok((_, close)) => {
                if close + 3 <= s.len() {
                    lemma_name_end(s, close + 3);
                }
            },
            Err(_) => {},
        }
    } else {
        lemma_text_run_written(s, i);
        lemma_text_run(s, i);
    }
}

/// What the parser makes of the items from `i` on, written out again, is
/// what stands in `s` from `i` to their end.
proof fn lemma_items_written(s: Seq<char>, i: int)
    requires
        0 <= i <= s.len(),
    ensures
        items_at(s, i) matches Ok((tokens, end)) ==> {
            &&& i <= end <= s.len()
            &&& written(tokens) == s.subrange(i, end)
            &&& well_formed(tokens)
            &&& tokens.len() > 0 ==> i < s.len() && item_at(s, i) is Ok && item_at(s, i)->Ok_0.0
                == tokens[0]
        },
    decreases s.len() - i, 1int,
{
    if i < s.len() && s[i] != ']' {
        lemma_item_written(s, i);
        match item_at(s, i) {
            Ok((token, next)) => {
                lemma_items_written(s, next);
                match items_at(s, next) {
                    Ok((rest, _)) => {
                        assert((seq![token] + rest).drop_first() =~= rest);
                        if rest.len() > 0 {
                            lemma_item_written(s, next);
                        }
                    },
                    Err(_) => {},
                }
            },
            Err(_) => {},
        }
    }
}

/// What the parser makes of a template is well formed, and written out
/// again it is the template.
pub proof fn lemma_parse_then_write(template: Seq<char>)
    ensures
        parsed(template) matches Ok(tokens) ==> written(tokens) == template && well_formed(
            tokens,
        ),
{
    lemma_items_written(template, 0);
}

/// A name that stands in `s` at `i`, with no character of a name behind
/// it, is read to its end.
proof fn lemma_name_read(s: Seq<char>, i: int, name: Seq<char>)
    requires
        0 <= i,
        i + name.len() <= s.len(),
        s.subrange(i, i + name.len()) == name,
        forall|k: int| 0 <= k < name.len() ==> is_name_char(#[trigger] name[k]),
        !(i + name.len() < s.len() && is_name_char(s[i + name.len()])),
    ensures
        name_end(s, i) == i + name.len(),
    decreases name.len(),
{
    if name.len() > 0 {
        assert(s[i] == name[0]);
        let rest = name.drop_first();
        assert(s.subrange(i + 1, i + 1 + rest.len()) =~= rest);
        lemma_name_read(s, i + 1, rest);
    }
}

/// Escaped text that stands in `s` at `i`, with no literal text behind it,
/// is read as the text.
proof fn lemma_escaped_read(s: Seq<char>, i: int, text: Seq<char>)
    requires
        0 <= i,
        i + escaped(text).len() <= s.len(),
        s.subrange(i, i + escaped(text).len()) == escaped(text),
        text_step(s, i + escaped(text).len()) == 0,
    ensures
        text_run(s, i) == (text, i + escaped(text).len()),
    decreases text.len(),
{
    if text.len() > 0 {
        let rest = text.drop_first();
        let all = escaped(text);
        let step: int = if is_special(text[0]) {
            2
        } else {
            1
        };
        assert(s[i] == all[0]);
        if step == 2 {
            assert(s[i + 1] == all[1]);
        }
        assert(s.subrange(i + step, i + step + escaped(rest).len()) =~= escaped(rest)) by {
            assert forall|k: int| 0 <= k < escaped(rest).len() implies s[i + step + k] == escaped(
                rest,
            )[k] by {
                assert(s[i + step + k] == all[step + k]);
            }
        }
        lemma_escaped_read(s, i + step, rest);
    }
}

/// Whether what stands in `s` at `end` leaves the item `token`, which ends
/// there, as it is: no literal text behind a literal, no character of a
/// name behind a variable.
spec fn ends_at(token: TokenView, s: Seq<char>, end: int) -> bool {
    match token {
        TokenView::Literal(_) => text_step(s, end) == 0,
        TokenView::Variable(_) => !(0 <= end < s.len() && is_name_char(s[end])),
        _ => true,
    }
}

/// The first character that an item is written with: none that could go on
/// the item before it, if the item may follow that one.
proof fn lemma_first_written(token: TokenView)
    requires
        well_formed_token(token),
    ensures
        written_token(token).len() > 0,
        written_token(token)[0] != ']',
        token is Literal ==> written_token(token)[0] == '\\' || !is_special(
            written_token(token)[0],
        ),
        token matches TokenView::Literal(text) ==> (is_name_char(written_token(token)[0])
            ==> is_name_char(text[0])),
        !(token is Literal) ==> written_token(token)[0] == '$' || written_token(token)[0] == '[',
{
}

/// A well-formed item that stands written in `s` at `i`, with nothing
/// behind it that would go on it, is read as that item.
proof fn lemma_written_item_read(s: Seq<char>, i: int, token: TokenView)
    requires
        well_formed_token(token),
        0 <= i,
        i + written_token(token).len() <= s.len(),
        s.subrange(i, i + written_token(token).len()) == written_token(token),
        ends_at(token, s, i + written_token(token).len()),
    ensures
        item_at(s, i) == Ok::<(TokenView, int), int>((token, i + written_token(token).len())),
    decreases token, 0int,
{
    let w = written_token(token);
    let end = i + w.len();
    lemma_first_written(token);
    match token {
        TokenView::Literal(text) => {
            lemma_escaped_read(s, i, text);
        },
        TokenView::Variable(name) => {
            assert(s.subrange(i + 1, i + 1 + name.len()) =~= name) by {
                assert forall|k: int| 0 <= k < name.len() implies s[i + 1 + k] == name[k] by {
                    assert(w[1 + k] == name[k]);
                }
            }
            lemma_name_read(s, i + 1, name);
        },
        TokenView::MetaVariable(name) => {
            assert(s[i + 1] == w[1]);
            assert(s[end - 1] == w[w.len() - 1]);
            assert(s.subrange(i + 2, i + 2 + name.len()) =~= name) by {
                assert forall|k: int| 0 <= k < name.len() implies s[i + 2 + k] == name[k] by {
                    assert(w[2 + k] == name[k]);
                }
            }
            lemma_name_read(s, i + 2, name);
        },
        TokenView::StyleGroup(children, style) => {
            let inner = written(children);
            let close = i + 1 + inner.len();
            assert(s.subrange(i + 1, close) =~= inner) by {
                assert forall|k: int| 0 <= k < inner.len() implies s[i + 1 + k] == inner[k] by {
                    assert(w[1 + k] == inner[k]);
                }
            }
            assert(s[close] == w[close - i]);
            assert(s[close + 1] == w[close - i + 1]);
            assert(s[close + 2] == w[close - i + 2]);
            assert(s[end - 1] == w[w.len() - 1]);
            lemma_written_items_read(s, i + 1, children);
            assert(s.subrange(close + 3, close + 3 + style.len()) =~= style) by {
                assert forall|k: int| 0 <= k < style.len() implies s[close + 3 + k] == style[k] by {
                    assert(w[4 + inner.len() + k] == style[k]);
                }
            }
            lemma_name_read(s, close + 3, style);
        },
    }
}

/// Well-formed items that stand written in `s` at `i`, up to the end of `s`
/// or to a `]`, are read as those items.
proof fn lemma_written_items_read(s: Seq<char>, i: int, tokens: Seq<TokenView>)
    requires
        well_formed(tokens),
        0 <= i,
        i + written(tokens).len() <= s.len(),
        s.subrange(i, i + written(tokens).len()) == written(tokens),
        i + written(tokens).len() == s.len() || s[i + written(tokens).len()] == ']',
    ensures
        items_at(s, i) == Ok::<(Seq<TokenView>, int), int>((tokens, i + written(tokens).len())),
    decreases tokens, 1int,
{
    let w = written(tokens);
    let end = i + w.len();
    if tokens.len() == 0 {
        assert(tokens =~= Seq::<TokenView>::empty());
    } else {
        let token = tokens[0];
        let rest = tokens.drop_first();
        let first = written_token(token);
        let next = i + first.len();
        lemma_first_written(token);
        assert(s.subrange(i, next) =~= first) by {
            assert forall|k: int| 0 <= k < first.len() implies s[i + k] == first[k] by {
                assert(w[k] == first[k]);
            }
        }
        assert(s.subrange(next, end) =~= written(rest)) by {
            assert forall|k: int| 0 <= k < written(rest).len() implies s[next + k] == written(
                rest,
            )[k] by {
                assert(w[first.len() + k] == written(rest)[k]);
            }
        }
        assert(ends_at(token, s, next)) by {
            if rest.len() > 0 {
                assert(well_formed(rest));
                lemma_first_written(rest[0]);
                assert(written(rest)[0] == written_token(rest[0])[0]);
            }
        }
        lemma_written_item_read(s, i, token);
        lemma_written_items_read(s, next, rest);
        assert(seq![token] + rest =~= tokens);
    }
}

/// Well-formed items, written out as a template, are parsed as those items.
pub proof fn lemma_write_then_parse(tokens: Seq<TokenView>)
    requires
        well_formed(tokens),
    ensures
        parsed(written(tokens)) == Ok::<Seq<TokenView>, int>(tokens),
{
    let s = written(tokens);
    assert(s.subrange(0, s.len() as int) =~= s);
    lemma_written_items_read(s, 0, tokens);
}

/// Parsing is the inverse of writing: a template is parsed if and only if
/// well-formed items are written as it, and then into those items and no
/// others.
pub proof fn lemma_parse_inverts_writing(template: Seq<char>)
    ensures
        parsed(template) is Ok <==> exists|items: Seq<TokenView>|
            well_formed(items) && #[trigger] written(items) == template,
        forall|items: Seq<TokenView>|
            well_formed(items) && #[trigger] written(items) == template ==> parsed(template)
                == Ok::<Seq<TokenView>, int>(items),
{
    lemma_parse_then_write(template);
    assert forall|items: Seq<TokenView>|
        well_formed(items) && #[trigger] written(items) == template implies parsed(template)
        == Ok::<Seq<TokenView>, int>(items) by {
        lemma_write_then_parse(items);
    }
    if parsed(template) is Ok {
        let items = parsed(template)->Ok_0;
    }
}

} // verus!
