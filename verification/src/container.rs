//! The container segment: detection and template brought together.

use crate::config::{ConfigView, ContainerConfig};
use crate::context::{Context, Files};
use crate::detect::{container_name, detected_name};
use crate::error::{FormatError, FormatErrorView, ResolveError};
use crate::render::{
    format_template, formatted, one_segment, rendered, rendered_token, Lookup, Names, Resolver,
};
use crate::segment::{Module, SegmentView, StyleValue};
use crate::template::{parsed, TokenView};
use crate::text::same_text;
use crate::writing::{
    escaped, is_name, lemma_write_then_parse, well_formed, written, written_token,
};
use vstd::prelude::*;

verus! {

/// The answer for the one name `known`, which stands for `value`.
pub open spec fn only(known: Seq<char>, value: Seq<char>, name: Seq<char>) -> Lookup {
    if name == known {
        Some(Ok(value))
    } else {
        None
    }
}

/// What the names of the container segment's template stand for: the
/// variable `name` for the detected name, the meta-variable `symbol` for the
/// configured symbol, the style `style` for the configured style, and no
/// other name for anything.
pub open spec fn container_names(symbol: Seq<char>, style: Seq<char>, name: Seq<char>) -> Names {
    Names {
        variable: |n: Seq<char>| only("name"@, name, n),
        meta: |n: Seq<char>| only("symbol"@, symbol, n),
        style: |n: Seq<char>| only("style"@, style, n),
    }
}

/// The resolver of the container segment. It borrows the three values; a
/// rendering copies them into its segments.
pub struct ContainerResolver<'a> {
    pub symbol: &'a str,
    pub style: &'a StyleValue,
    pub name: &'a str,
}

impl<'a> Resolver for ContainerResolver<'a> {
    open spec fn names(&self) -> Names {
        container_names(self.symbol@, self.style@, self.name@)
    }

    fn variable(&self, name: &str) -> (answer: Option<Result<&str, ResolveError>>) {
        if same_text(name, "name") {
            Some(Ok(self.name))
        } else {
            None
        }
    }

    fn meta(&self, name: &str) -> (answer: Option<Result<&str, ResolveError>>) {
        if same_text(name, "symbol") {
            Some(Ok(self.symbol))
        } else {
            None
        }
    }

    fn style(&self, name: &str) -> (answer: Option<Result<&StyleValue, ResolveError>>) {
        if same_text(name, "style") {
            Some(Ok(self.style))
        } else {
            None
        }
    }
}

/// What a rendering of the container segment comes to: no segment where the
/// segment is disabled or no sandbox is detected, else the segments of the
/// template, or the reason why the template gives none.
pub open spec fn built(files: Files, config: ConfigView) -> Result<
    Option<Seq<SegmentView>>,
    FormatErrorView,
> {
    if config.disabled {
        Ok(None)
    } else {
        match detected_name(files, config.use_container_name) {
            None => Ok(None),
            Some(name) => match formatted(
                config.template,
                container_names(config.symbol, config.style, name),
            ) {
                Ok(segments) => Ok(Some(segments)),
                Err(error) => Err(error),
            },
        }
    }
}

/// The segments that the container segment shows, if it shows any. A
/// template that gives none leaves the segment out.
pub open spec fn module_of(files: Files, config: ConfigView) -> Option<Seq<SegmentView>> {
    match built(files, config) {
        Ok(segments) => segments,
        Err(_) => None,
    }
}

/// The view of a module that may be there.
pub open spec fn module_view(module: Option<Module>) -> Option<Seq<SegmentView>> {
    match module {
        Some(module) => Some(module@),
        None => None,
    }
}

/// The items of the standard template: the symbol and the name in square
/// brackets inside a group of the configured style, then a space.
pub open spec fn standard_items() -> Seq<TokenView> {
    seq![
        TokenView::StyleGroup(
            seq![
                TokenView::MetaVariable("symbol"@),
                TokenView::Literal(" ["@),
                TokenView::Variable("name"@),
                TokenView::Literal("]"@),
            ],
            "style"@,
        ),
        TokenView::Literal(" "@),
    ]
}

/// The standard template is well formed: it is parsed into
/// [`standard_items`].
pub proof fn lemma_standard_template()
    ensures
        parsed(ConfigView::standard().template) == Ok::<Seq<TokenView>, int>(standard_items()),
{
    reveal_strlit("symbol");
    reveal_strlit("name");
    reveal_strlit("style");
    reveal_strlit(" [");
    reveal_strlit("]");
    reveal_strlit(" ");
    reveal_strlit("[${symbol} \\[$name\\]]($style) ");
    let inner = standard_items()[0]->StyleGroup_0;
    let tail = seq![TokenView::Literal(" "@)];
    assert(well_formed(inner)) by {
        reveal_with_fuel(well_formed, 6);
    }
    assert(standard_items().drop_first() =~= tail);
    assert(well_formed(standard_items())) by {
        reveal_with_fuel(well_formed, 3);
    }
    assert(escaped(" ["@) =~= seq![' ', '\\', '[']) by {
        reveal_with_fuel(escaped, 3);
    }
    assert(escaped("]"@) =~= seq!['\\', ']']) by {
        reveal_with_fuel(escaped, 2);
    }
    assert(escaped(" "@) =~= seq![' ']) by {
        reveal_with_fuel(escaped, 2);
    }
    let a = inner.drop_first();
    let b = a.drop_first();
    let c = b.drop_first();
    let none = Seq::<char>::empty();
    assert(written(c.drop_first()) =~= none);
    assert(written_token(c[0]) == escaped("]"@));
    assert(written(c) =~= escaped("]"@));
    assert(written_token(b[0]) == seq!['$'] + "name"@);
    assert(written_token(a[0]) == escaped(" ["@));
    assert(written(a) =~= escaped(" ["@) + written(b));
    assert(written_token(inner[0]) == seq!['$', '{'] + "symbol"@ + seq!['}']);
    assert(written(tail.drop_first()) =~= none);
    assert(written_token(tail[0]) == escaped(" "@));
    assert(written(tail) =~= escaped(" "@));
    assert(written_token(standard_items()[0]) == seq!['['] + written(inner) + seq![
        ']',
        '(',
        '$',
    ] + "style"@ + seq![')']);
    assert(written(standard_items()) =~= ConfigView::standard().template);
    lemma_write_then_parse(standard_items());
}

/// What the standard template shows of a sandbox: the symbol, the name in
/// square brackets, all in the configured style, then a space in none.
pub open spec fn standard_segments(symbol: Seq<char>, style: Seq<char>, name: Seq<char>) -> Seq<
    SegmentView,
> {
    seq![
        SegmentView { text: symbol, style: Some(style) },
        SegmentView { text: " ["@, style: Some(style) },
        SegmentView { text: name, style: Some(style) },
        SegmentView { text: "]"@, style: Some(style) },
        SegmentView { text: " "@, style: None },
    ]
}

/// With the standard template a detected sandbox is always shown, as
/// [`standard_segments`] has it, whatever the symbol, the style and the
/// name are.
pub proof fn lemma_standard_module(files: Files, config: ConfigView)
    requires
        !config.disabled,
        config.template == ConfigView::standard().template,
    ensures
        module_of(files, config) == match detected_name(files, config.use_container_name) {
            None => None,
            Some(name) => Some(standard_segments(config.symbol, config.style, name)),
        },
{
    match detected_name(files, config.use_container_name) {
        None => {},
        Some(name) => {
            lemma_standard_template();
            let names = container_names(config.symbol, config.style, name);
            let style = Some(config.style);
            let items = standard_items();
            let inner = items[0]->StyleGroup_0;
            let a = inner.drop_first();
            let b = a.drop_first();
            let c = b.drop_first();
            let tail = items.drop_first();
            let none = Seq::<SegmentView>::empty();
            let ok_none = Ok::<Seq<SegmentView>, FormatErrorView>(none);
            assert(rendered(c.drop_first(), names, style) == ok_none);
            assert(rendered_token(c[0], names, style) == Ok::<
                Seq<SegmentView>,
                FormatErrorView,
            >(one_segment("]"@, style)));
            let at_c = one_segment("]"@, style) + none;
            assert(rendered(c, names, style) == Ok::<Seq<SegmentView>, FormatErrorView>(at_c));
            assert(rendered_token(b[0], names, style) == Ok::<
                Seq<SegmentView>,
                FormatErrorView,
            >(one_segment(name, style)));
            let at_b = one_segment(name, style) + at_c;
            assert(rendered(b, names, style) == Ok::<Seq<SegmentView>, FormatErrorView>(at_b));
            assert(rendered_token(a[0], names, style) == Ok::<
                Seq<SegmentView>,
                FormatErrorView,
            >(one_segment(" ["@, style)));
            let at_a = one_segment(" ["@, style) + at_b;
            assert(rendered(a, names, style) == Ok::<Seq<SegmentView>, FormatErrorView>(at_a));
            assert(rendered_token(inner[0], names, style) == Ok::<
                Seq<SegmentView>,
                FormatErrorView,
            >(one_segment(config.symbol, style)));
            let at_inner = one_segment(config.symbol, style) + at_a;
            assert(rendered_token(items[0], names, None) == Ok::<
                Seq<SegmentView>,
                FormatErrorView,
            >(at_inner));
            assert(rendered(tail.drop_first(), names, None) == ok_none);
            assert(rendered_token(tail[0], names, None) == Ok::<
                Seq<SegmentView>,
                FormatErrorView,
            >(one_segment(" "@, None)));
            let at_tail = one_segment(" "@, None) + none;
            assert(rendered(tail, names, None) == Ok::<Seq<SegmentView>, FormatErrorView>(
                at_tail,
            ));
        },
    }
}

/// A disabled segment is never shown, whatever the file system holds.
pub proof fn lemma_disabled_is_absent(files: Files, config: ConfigView)
    requires
        config.disabled,
    ensures
        module_of(files, config) is None,
        built(files, config) == Ok::<Option<Seq<SegmentView>>, FormatErrorView>(None),
{
}

/// Without a detected sandbox no segment is shown, whatever the template.
pub proof fn lemma_undetected_is_absent(files: Files, config: ConfigView)
    requires
        detected_name(files, config.use_container_name) is None,
    ensures
        module_of(files, config) is None,
{
}

/// Two renderings from the same marker files and the same settings show the
/// same segments.
pub proof fn lemma_same_inputs_same_module(
    first: Context,
    second: Context,
    config: ContainerConfig,
    again: ContainerConfig,
)
    requires
        first@ == second@,
        config@ == again@,
    ensures
        module_of(first@, config@) == module_of(second@, again@),
        built(first@, config@) == built(second@, again@),
{
}

/// Renders the container segment, and tells a template that gives no
/// segments from a segment that is not shown.
pub fn build(context: &Context, config: &ContainerConfig) -> (r: Result<
    Option<Module>,
    FormatError,
>)
    ensures
        match r {
            Ok(module) => built(context@, config@) == Ok::<
                Option<Seq<SegmentView>>,
                FormatErrorView,
            >(module_view(module)),
            Err(error) => built(context@, config@) == Err::<
                Option<Seq<SegmentView>>,
                FormatErrorView,
            >(error@),
        },
{
    if config.disabled {
        return Ok(None);
    }
    let name = match container_name(context, config) {
        None => {
            return Ok(None);
        },
        Some(name) => name,
    };
    let resolver = ContainerResolver {
        symbol: config.symbol.as_str(),
        style: &config.style,
        name: name.as_str(),
    };
    match format_template(config.template.as_str(), &resolver) {
        Ok(segments) => Ok(Some(Module { segments })),
        Err(error) => Err(error),
    }
}

/// Renders the container segment: nothing where it is disabled, where no
/// sandbox is detected, or where the template gives no segments.
pub fn module(context: &Context, config: &ContainerConfig) -> (m: Option<Module>)
    ensures
        module_view(m) == module_of(context@, config@),
        config.disabled ==> m is None,
        detected_name(context@, config.use_container_name) is None ==> m is None,
{
    match build(context, config) {
        Ok(module) => module,
        Err(_) => None,
    }
}

} // verus!
