//! What a rendering hands to the composer of the status line: pieces of
//! text, each with the style it is to be shown in.

use vstd::prelude::*;

verus! {

/// A style as the configuration describes it, such as `red bold dimmed`.
///
/// The library never looks inside: it carries the description from the
/// configuration to the segments, and the composer of the status line gives
/// it a meaning.
#[derive(Debug, PartialEq, Eq)]
pub struct StyleValue {
    pub description: String,
}

impl View for StyleValue {
    type V = Seq<char>;

    open spec fn view(&self) -> Seq<char> {
        self.description@
    }
}

impl Clone for StyleValue {
    fn clone(&self) -> (copy: Self)
        ensures
            copy@ == self@,
    {
        StyleValue { description: self.description.clone() }
    }
}

impl StyleValue {
    /// The style that `description` describes.
    pub fn new(description: &str) -> (style: StyleValue)
        ensures
            style@ == description@,
    {
        StyleValue { description: description.to_owned() }
    }
}

/// A run of text that is shown in one style.
#[derive(Debug, PartialEq, Eq)]
pub struct Segment {
    pub text: String,
    /// The style of the innermost group around the text; none outside every
    /// group.
    pub style: Option<StyleValue>,
}

/// A [`Segment`] as the contracts see it.
pub struct SegmentView {
    pub text: Seq<char>,
    pub style: Option<Seq<char>>,
}

impl View for Segment {
    type V = SegmentView;

    open spec fn view(&self) -> SegmentView {
        SegmentView {
            text: self.text@,
            style: match self.style {
                Some(style) => Some(style@),
                None => None,
            },
        }
    }
}

/// The views of a sequence of segments.
pub open spec fn segment_views(segments: Seq<Segment>) -> Seq<SegmentView> {
    Seq::new(segments.len(), |i: int| segments[i]@)
}

/// The texts of `segments`, one after the other.
pub open spec fn joined_text(segments: Seq<SegmentView>) -> Seq<char>
    decreases segments.len(),
{
    if segments.len() == 0 {
        Seq::empty()
    } else {
        joined_text(segments.drop_last()) + segments.last().text
    }
}

/// The text of segments put one after the other is their texts put one
/// after the other.
pub proof fn lemma_joined_text_add(front: Seq<SegmentView>, back: Seq<SegmentView>)
    ensures
        joined_text(front + back) == joined_text(front) + joined_text(back),
    decreases back.len(),
{
    if back.len() > 0 {
        assert((front + back).drop_last() =~= front + back.drop_last());
        lemma_joined_text_add(front, back.drop_last());
    }
}

/// Whether no segment of `segments` has a style.
pub open spec fn unstyled(segments: Seq<SegmentView>) -> bool {
    forall|i: int| 0 <= i < segments.len() ==> (#[trigger] segments[i]).style is None
}

/// The rendered segment of the status line.
#[derive(Debug, PartialEq, Eq)]
pub struct Module {
    pub segments: Vec<Segment>,
}

impl View for Module {
    type V = Seq<SegmentView>;

    open spec fn view(&self) -> Seq<SegmentView> {
        segment_views(self.segments@)
    }
}

impl Module {
    /// The whole text of the module, without its styles.
    pub fn text(&self) -> (t: String)
        ensures
            t@ == joined_text(self@),
    {
        let mut t = String::new();
        let mut i: usize = 0;
        while i < self.segments.len()
            invariant
                i <= self.segments.len(),
                t@ == joined_text(self@.take(i as int)),
            decreases self.segments.len() - i,
        {
            proof {
                let next = self@.take(i + 1);
                assert(next.drop_last() =~= self@.take(i as int));
            }
            t.append(self.segments[i].text.as_str());
            i += 1;
        }
        proof {
            assert(self@.take(i as int) =~= self@);
        }
        t
    }
}

} // verus!
