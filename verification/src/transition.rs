//! Slide transitions: how the container of a page is styled in one render,
//! given which page is shown and which one was shown before it.

use crate::navigation::NavigationState;
use crate::page::{canonical_text, slide_in_text, PageId, Pages};
use vstd::prelude::*;

verus! {

/// What the container of a page does in one render.
#[derive(Clone, Copy, Debug, PartialEq, Eq, Structural)]
pub enum Transition {
    /// The page was shown before the current one: its container slides out.
    SlideOut,
    /// The page is the one shown: its container slides in.
    SlideIn,
    /// The page is neither: its container stays hidden.
    Dormant,
}

/// Where the container starts along the inline axis.
#[derive(Clone, Copy, Debug, PartialEq, Eq, Structural)]
pub enum InsetStart {
    /// No offset.
    Unset,
    /// One viewport width away, off screen at the trailing edge.
    TrailingEdge,
}

/// Whether the container is rendered.
#[derive(Clone, Copy, Debug, PartialEq, Eq, Structural)]
pub enum Display {
    Hidden,
    Block,
}

/// The animation that runs on the container.
#[derive(Clone, Copy, Debug, PartialEq, Eq, Structural)]
pub enum Animation {
    Off,
    /// Slides back to the start position: the exit.
    SlideRight,
    /// Slides into view: the entrance.
    SlideLeft,
}

/// The stacking order of a container that slides out: above every other.
pub const Z_SLIDE_OUT: u32 = 100;

/// The stacking order of a container that slides in.
pub const Z_SLIDE_IN: u32 = 50;

/// The stacking order of a dormant container.
pub const Z_DORMANT: u32 = 0;

/// The style properties that a transition sets on a container.
#[derive(Clone, Copy, Debug, PartialEq, Eq, Structural)]
pub struct ElementStyle {
    pub inset_inline_start: InsetStart,
    pub z_index: u32,
    pub display: Display,
    pub animation: Animation,
}

/// The transition of a page from its two flags. A page flagged as previous
/// slides out, whether or not it is flagged as selected too.
pub open spec fn transition_of(is_previous: bool, is_selected: bool) -> Transition {
    if is_previous {
        Transition::SlideOut
    } else if is_selected {
        Transition::SlideIn
    } else {
        Transition::Dormant
    }
}

/// The style that a transition gives a container.
pub open spec fn style_of(transition: Transition) -> ElementStyle {
    match transition {
        Transition::SlideOut => ElementStyle {
            inset_inline_start: InsetStart::TrailingEdge,
            z_index: Z_SLIDE_OUT,
            display: Display::Block,
            animation: Animation::SlideRight,
        },
        Transition::SlideIn => ElementStyle {
            inset_inline_start: InsetStart::Unset,
            z_index: Z_SLIDE_IN,
            display: Display::Block,
            animation: Animation::SlideLeft,
        },
        Transition::Dormant => ElementStyle {
            inset_inline_start: InsetStart::Unset,
            z_index: Z_DORMANT,
            display: Display::Hidden,
            animation: Animation::Off,
        },
    }
}

impl Transition {
    /// Decides the transition of a page from its two flags.
    pub fn decide(is_previous: bool, is_selected: bool) -> (transition: Transition)
        ensures
            transition == transition_of(is_previous, is_selected),
    {
        if is_previous {
            Transition::SlideOut
        } else if is_selected {
            Transition::SlideIn
        } else {
            Transition::Dormant
        }
    }

    /// The style that this transition gives a container.
    pub fn style(self) -> (style: ElementStyle)
        ensures
            style == style_of(self),
    {
        match self {
            Transition::SlideOut => ElementStyle {
                inset_inline_start: InsetStart::TrailingEdge,
                z_index: Z_SLIDE_OUT,
                display: Display::Block,
                animation: Animation::SlideRight,
            },
            Transition::SlideIn => ElementStyle {
                inset_inline_start: InsetStart::Unset,
                z_index: Z_SLIDE_IN,
                display: Display::Block,
                animation: Animation::SlideLeft,
            },
            Transition::Dormant => ElementStyle {
                inset_inline_start: InsetStart::Unset,
                z_index: Z_DORMANT,
                display: Display::Hidden,
                animation: Animation::Off,
            },
        }
    }
}

impl InsetStart {
    /// The value of the style property `inset-inline-start`.
    pub fn css(self) -> (text: &'static str)
        ensures
            text@ == (match self {
                InsetStart::Unset => ""@,
                InsetStart::TrailingEdge => "100dvw"@,
            }),
    {
        match self {
            InsetStart::Unset => "",
            InsetStart::TrailingEdge => "100dvw",
        }
    }
}

impl Display {
    /// The value of the style property `display`.
    pub fn css(self) -> (text: &'static str)
        ensures
            text@ == (match self {
                Display::Hidden => "none"@,
                Display::Block => "block"@,
            }),
    {
        match self {
            Display::Hidden => "none",
            Display::Block => "block",
        }
    }
}

impl Animation {
    /// The value of the style property `animation`. A slide lasts half a
    /// second.
    pub fn css(self) -> (text: &'static str)
        ensures
            text@ == (match self {
                Animation::Off => ""@,
                Animation::SlideRight => "slideRight 500ms"@,
                Animation::SlideLeft => "slideLeft 500ms"@,
            }),
    {
        match self {
            Animation::Off => "",
            Animation::SlideRight => "slideRight 500ms",
            Animation::SlideLeft => "slideLeft 500ms",
        }
    }
}

/// One container in a transition group, as a mathematical value.
pub struct ElementView {
    pub id: Seq<char>,
    pub style: ElementStyle,
}

/// A transition group as a mathematical value.
pub struct GroupView {
    pub selected: Seq<char>,
    pub previous: Seq<char>,
    pub elements: Seq<ElementView>,
}

/// A container in a transition group: the element that holds one page.
#[derive(Debug)]
pub struct PageElement {
    /// The identifier that the element is tagged with.
    pub id: String,
    /// The style that the last reconciliation left on it.
    pub style: ElementStyle,
}

impl View for PageElement {
    type V = ElementView;

    open spec fn view(&self) -> ElementView {
        ElementView { id: self.id@, style: self.style }
    }
}

/// The scope of the slide transitions: the markers of the shown and the
/// previous page, and the containers of the pages.
#[derive(Debug)]
pub struct TransitionGroup {
    /// The canonical text of the page that is shown.
    pub selected: String,
    /// The canonical text of the page shown before it, or the empty text.
    pub previous: String,
    /// The containers, in document order.
    pub elements: Vec<PageElement>,
}

impl View for TransitionGroup {
    type V = GroupView;

    open spec fn view(&self) -> GroupView {
        GroupView {
            selected: self.selected@,
            previous: self.previous@,
            elements: self.elements@.map_values(|e: PageElement| e@),
        }
    }
}

/// The container of a page is missing from the transition group: the view
/// was put together wrongly.
#[derive(Debug)]
pub struct MissingElement {
    /// The identifier that no element of the group is tagged with.
    pub id: String,
}

impl GroupView {
    /// Whether the group marks `page` as the page shown before the current
    /// one.
    pub open spec fn flags_previous(self, page: PageId) -> bool {
        self.previous == canonical_text(page)
    }

    /// Whether the group marks `page` as the page that is shown.
    pub open spec fn flags_selected(self, page: PageId) -> bool {
        self.selected == canonical_text(page)
    }

    /// The transition of `page` in this group.
    pub open spec fn transition(self, page: PageId) -> Transition {
        transition_of(self.flags_previous(page), self.flags_selected(page))
    }

    /// Whether some element of the group is tagged with `id`.
    pub open spec fn has_element(self, id: Seq<char>) -> bool {
        exists|i: int| 0 <= i < self.elements.len() && #[trigger] self.elements[i].id == id
    }

    /// Whether the element at `i` is the first one tagged with `id`.
    pub open spec fn is_first_element(self, id: Seq<char>, i: int) -> bool {
        &&& 0 <= i < self.elements.len()
        &&& self.elements[i].id == id
        &&& forall|j: int| 0 <= j < i ==> #[trigger] self.elements[j].id != id
    }

    /// The position of the first element tagged with `id`.
    pub open spec fn element_index(self, id: Seq<char>) -> int {
        choose|i: int| self.is_first_element(id, i)
    }

    /// The group after the container of `page` is reconciled: the first
    /// element tagged for the page gets the style of the page's transition,
    /// and nothing else changes. A group without such an element stays as
    /// it is.
    pub open spec fn reconciled(self, page: PageId) -> GroupView {
        let id = slide_in_text(page);
        if self.has_element(id) {
            GroupView {
                elements: self.elements.update(
                    self.element_index(id),
                    ElementView { id, style: style_of(self.transition(page)) },
                ),
                ..self
            }
        } else {
            self
        }
    }
}

/// The first element with a given tag is one position, not several.
pub proof fn lemma_first_element_unique(group: GroupView, id: Seq<char>, i: int)
    requires
        group.is_first_element(id, i),
    ensures
        group.has_element(id),
        group.element_index(id) == i,
{
    let k = group.element_index(id);
    assert(group.is_first_element(id, k));
    if k < i {
        assert(group.elements[k].id != id);
    }
    if i < k {
        assert(group.elements[i].id != id);
    }
}

impl Pages {
    /// Reconciles the container of this page with the markers of the group.
    /// The first element tagged with this page's identifier is reset and
    /// then styled for the page's transition, which is returned; no other
    /// element changes. A group without such an element is left as it is,
    /// and the missing identifier is reported.
    pub fn apply_slide_in(&self, group: &mut TransitionGroup) -> (result: Result<
        Transition,
        MissingElement,
    >)
        ensures
            result is Ok <==> old(group)@.has_element(slide_in_text(self@)),
            final(group)@ == old(group)@.reconciled(self@),
            result matches Ok(transition) ==> transition == old(group)@.transition(self@),
            result matches Err(missing) ==> missing.id@ == slide_in_text(self@),
    {
        let text = self.to_string();
        let is_previous = group.previous == text;
        let is_selected = group.selected == text;
        let id = self.slide_in_id();
        let mut i: usize = 0;
        while i < group.elements.len()
            invariant
                i <= group.elements.len(),
                *group == *old(group),
                id@ == slide_in_text(self@),
                is_previous == old(group)@.flags_previous(self@),
                is_selected == old(group)@.flags_selected(self@),
                forall|j: int| 0 <= j < i ==> #[trigger] group@.elements[j].id != id@,
            decreases group.elements.len() - i,
        {
            if group.elements[i].id == id {
                let transition = Transition::decide(is_previous, is_selected);
                proof {
                    lemma_first_element_unique(group@, id@, i as int);
                }
                group.elements.set(i, PageElement { id, style: transition.style() });
                assert(group@.elements =~= old(group)@.elements.update(
                    i as int,
                    ElementView {
                        id: slide_in_text(self@),
                        style: style_of(old(group)@.transition(self@)),
                    },
                ));
                return Ok(transition);
            }
            i += 1;
        }
        Err(MissingElement { id })
    }
}

} // verus!
