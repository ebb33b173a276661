//! Native blur behind parts of the window.
//!
//! Each part of the window that wants a material of its own is a region. A region is shown by a
//! native view that carries the region's tag, so that a later call finds the view again and
//! restyles it in place.

use std::collections::hash_map::DefaultHasher;
use std::hash::Hasher;
use vstd::arithmetic::power2::lemma_pow2_adds;
use vstd::arithmetic::power2::pow2;
use vstd::prelude::*;
use vstd::std_specs::hash::DefaultHasherAdditionalSpecFns;
use vstd::utf8::encode_utf8;

use crate::layout::SIDEBAR_WIDTH;
use crate::scalar::Scalar;

verus! {

/// A material that the system can put behind a region.
#[derive(Clone, Copy, Debug, PartialEq, Eq, Structural)]
pub enum Material {
    Sidebar,
    HudWindow,
}

/// When a material looks active.
#[derive(Clone, Copy, Debug, PartialEq, Eq, Structural)]
pub enum MaterialState {
    FollowsWindowActiveState,
}

/// A length within the window.
#[derive(Clone, Copy, Debug, PartialEq, Eq, Structural)]
pub enum Extent {
    Nothing,
    /// The width of the sidebar.
    Sidebar,
    /// The width of the window.
    WindowWidth,
    /// The width of the window less that of the sidebar.
    BesideSidebar,
    /// The height of the window.
    WindowHeight,
}

impl Extent {
    /// How long it is in a window of the given size, where a point has `point` units.
    pub open spec fn measure(self, width: int, height: int, point: int) -> int {
        match self {
            Extent::Nothing => 0,
            Extent::Sidebar => SIDEBAR_WIDTH * point,
            Extent::WindowWidth => width,
            Extent::BesideSidebar => width - SIDEBAR_WIDTH * point,
            Extent::WindowHeight => height,
        }
    }
}

/// A material behind one rectangle of the window, in points from the window's content area.
#[derive(Clone, Copy, Debug)]
pub struct VibrancyRegion {
    pub name: &'static str,
    pub material: Material,
    pub state: MaterialState,
    pub x: Extent,
    pub y: Extent,
    pub width: Extent,
    pub height: Extent,
}

/// The bits of the sidebar's width.
pub const SIDEBAR_WIDTH_BITS: u32 = 0x438d_0000;

/// The width of the sidebar, as a number to compare the window's width with.
pub open spec fn sidebar_edge() -> Scalar {
    Scalar { bits: SIDEBAR_WIDTH_BITS }
}

/// A point, in the units in which a `Scalar` counts.
pub open spec fn point_units() -> int {
    pow2(149) as int
}

/// Whether this is the strip behind the sidebar, which is as wide as the sidebar or, in a window
/// narrower than that, as the window.
pub open spec fn is_sidebar_region(region: VibrancyRegion, width: Scalar) -> bool {
    &&& region.name@ == "sidebar"@
    &&& region.material == Material::Sidebar
    &&& region.state == MaterialState::FollowsWindowActiveState
    &&& region.x == Extent::Nothing
    &&& region.y == Extent::Nothing
    &&& region.width == if width.below(sidebar_edge()) {
        Extent::WindowWidth
    } else {
        Extent::Sidebar
    }
    &&& region.height == Extent::WindowHeight
}

/// Whether this is what lies beside the sidebar: the rest of the window, if there is any.
pub open spec fn is_content_region(region: VibrancyRegion, width: Scalar) -> bool {
    &&& region.name@ == "content"@
    &&& region.material == Material::HudWindow
    &&& region.state == MaterialState::FollowsWindowActiveState
    &&& region.x == if width.below(sidebar_edge()) {
        Extent::WindowWidth
    } else {
        Extent::Sidebar
    }
    &&& region.y == Extent::Nothing
    &&& region.width == if sidebar_edge().below(width) {
        Extent::BesideSidebar
    } else {
        Extent::Nothing
    }
    &&& region.height == Extent::WindowHeight
}

/// Whether these are the regions of a window of the given width.
pub open spec fn are_regions(regions: Seq<VibrancyRegion>, width: Scalar) -> bool {
    &&& regions.len() == 2
    &&& is_sidebar_region(regions[0], width)
    &&& is_content_region(regions[1], width)
}

/// The regions of a window of the given width: the sidebar's strip on the left, and the content
/// beside it.
pub fn regions_for(width: Scalar) -> (regions: Vec<VibrancyRegion>)
    ensures
        are_regions(regions@, width),
{
    let edge: Scalar = Scalar { bits: SIDEBAR_WIDTH_BITS };
    let sidebar_width: Extent = if width.less_than(edge) {
        Extent::WindowWidth
    } else {
        Extent::Sidebar
    };
    let content_width: Extent = if edge.less_than(width) {
        Extent::BesideSidebar
    } else {
        Extent::Nothing
    };
    let mut regions: Vec<VibrancyRegion> = Vec::new();
    regions.push(
        VibrancyRegion {
            name: "sidebar",
            material: Material::Sidebar,
            state: MaterialState::FollowsWindowActiveState,
            x: Extent::Nothing,
            y: Extent::Nothing,
            width: sidebar_width,
            height: Extent::WindowHeight,
        },
    );
    regions.push(
        VibrancyRegion {
            name: "content",
            material: Material::HudWindow,
            state: MaterialState::FollowsWindowActiveState,
            x: sidebar_width,
            y: Extent::Nothing,
            width: content_width,
            height: Extent::WindowHeight,
        },
    );
    regions
}

/// What the hasher is fed for a name: its bytes, and then a byte that no text holds.
pub open spec fn tag_input(name: Seq<char>) -> Seq<Seq<u8>> {
    seq![encode_utf8(name), seq![0xffu8]]
}

/// The tag of the view that shows the region `name`.
pub open spec fn tag_of(name: Seq<char>) -> isize {
    DefaultHasher::spec_finish(tag_input(name)) as isize
}

/// The tag of the view that shows the region `name`. The same name always has the same tag, so
/// a later call finds the view again.
pub fn tag_for(name: &str) -> (tag: isize)
    ensures
        tag == tag_of(name@),
{
    let mut hasher: DefaultHasher = DefaultHasher::new();
    hasher.write(name.as_bytes());
    let mut end: Vec<u8> = Vec::new();
    end.push(0xff);
    hasher.write(end.as_slice());
    assert(end@ =~= seq![0xffu8]);
    assert(hasher@ =~= tag_input(name@));
    hasher.finish() as isize
}

/// What the view with a tag has to look like.
#[derive(Clone, Copy, Debug, PartialEq, Eq, Structural)]
pub struct Placement {
    pub tag: isize,
    pub material: Material,
    pub state: MaterialState,
    pub x: Extent,
    pub y: Extent,
    pub width: Extent,
    pub height: Extent,
}

/// What is done to a view.
#[derive(Clone, Copy, Debug, PartialEq, Eq, Structural)]
pub enum ViewStep {
    /// Make the view, with the placement's frame and tag.
    Create,
    /// Let the view blend with what is behind the window.
    BlendBehindWindow,
    /// Put the view into the parent, below the content view.
    InsertBelowContent,
    /// Give the view the placement's frame.
    SetFrame,
    SetMaterial(Material),
    SetState(MaterialState),
}

/// The placement that shows a region.
pub open spec fn placement_of(region: VibrancyRegion) -> Placement {
    Placement {
        tag: tag_of(region.name@),
        material: region.material,
        state: region.state,
        x: region.x,
        y: region.y,
        width: region.width,
        height: region.height,
    }
}

/// The placements that show the regions, in order.
pub open spec fn placements_of(regions: Seq<VibrancyRegion>) -> Seq<Placement> {
    Seq::new(regions.len(), |i: int| placement_of(regions[i]))
}

/// The placements that show the regions, one for each, in order.
pub fn sync(regions: &Vec<VibrancyRegion>) -> (placements: Vec<Placement>)
    ensures
        placements@ == placements_of(regions@),
{
    let mut placements: Vec<Placement> = Vec::new();
    let mut i: usize = 0;
    while i < regions.len()
        invariant
            i <= regions@.len(),
            placements@ == placements_of(regions@.take(i as int)),
        decreases regions@.len() - i,
    {
        let region: &VibrancyRegion = &regions[i];
        placements.push(
            Placement {
                tag: tag_for(region.name),
                material: region.material,
                state: region.state,
                x: region.x,
                y: region.y,
                width: region.width,
                height: region.height,
            },
        );
        i += 1;
        assert(placements@ =~= placements_of(regions@.take(i as int)));
    }
    assert(regions@.take(regions@.len() as int) =~= regions@);
    placements
}

impl Placement {
    /// The steps that bring about the placement.
    pub open spec fn steps(self, found: bool) -> Seq<ViewStep> {
        let made = if found {
            Seq::empty()
        } else {
            seq![ViewStep::Create, ViewStep::BlendBehindWindow, ViewStep::InsertBelowContent]
        };
        made + seq![
            ViewStep::SetFrame,
            ViewStep::SetMaterial(self.material),
            ViewStep::SetState(self.state),
        ]
    }

    /// The steps that bring about the placement, given whether a view with its tag was found. A
    /// view that is there is restyled; only a missing one is made.
    pub fn place(&self, found: bool) -> (steps: Vec<ViewStep>)
        ensures
            steps@ == self.steps(found),
    {
        let mut steps: Vec<ViewStep> = Vec::new();
        if !found {
            steps.push(ViewStep::Create);
            steps.push(ViewStep::BlendBehindWindow);
            steps.push(ViewStep::InsertBelowContent);
        }
        steps.push(ViewStep::SetFrame);
        steps.push(ViewStep::SetMaterial(self.material));
        steps.push(ViewStep::SetState(self.state));
        assert(steps@ =~= self.steps(found));
        steps
    }
}

/// A native view: where it is, and what has been set on it.
pub ghost struct NativeView {
    pub blends_behind_window: bool,
    pub is_below_content: bool,
    /// Left, top, width and height.
    pub frame: (Extent, Extent, Extent, Extent),
    pub material: Option<Material>,
    pub state: Option<MaterialState>,
}

impl Placement {
    /// The frame that the view has to have.
    pub open spec fn frame(self) -> (Extent, Extent, Extent, Extent) {
        (self.x, self.y, self.width, self.height)
    }

    /// The view that the placement asks for.
    pub open spec fn wanted(self) -> NativeView {
        NativeView {
            blends_behind_window: true,
            is_below_content: true,
            frame: self.frame(),
            material: Some(self.material),
            state: Some(self.state),
        }
    }

    /// The view after a step. Only a missing view can be made, and only one that is there can be
    /// changed.
    pub open spec fn after_step(self, view: Option<NativeView>, step: ViewStep) -> Option<
        NativeView,
    > {
        match (view, step) {
            (None, ViewStep::Create) => Some(
                NativeView {
                    blends_behind_window: false,
                    is_below_content: false,
                    frame: self.frame(),
                    material: None,
                    state: None,
                },
            ),
            (Some(v), ViewStep::BlendBehindWindow) => Some(
                NativeView { blends_behind_window: true, ..v },
            ),
            (Some(v), ViewStep::InsertBelowContent) => Some(
                NativeView { is_below_content: true, ..v },
            ),
            (Some(v), ViewStep::SetFrame) => Some(NativeView { frame: self.frame(), ..v }),
            (Some(v), ViewStep::SetMaterial(material)) => Some(
                NativeView { material: Some(material), ..v },
            ),
            (Some(v), ViewStep::SetState(state)) => Some(NativeView { state: Some(state), ..v }),
            _ => None,
        }
    }

    /// The view after a row of steps.
    pub open spec fn after_steps(self, view: Option<NativeView>, steps: Seq<ViewStep>) -> Option<
        NativeView,
    >
        decreases steps.len(),
    {
        if steps.len() == 0 {
            view
        } else {
            self.after_step(self.after_steps(view, steps.drop_last()), steps.last())
        }
    }
}

/// The steps of a placement bring about the view that it asks for, whether they make the view or
/// restyle one that was placed before.
pub proof fn law_steps_bring_about_the_placement(placement: Placement, view: Option<NativeView>)
    requires
        view matches Some(v) ==> v.blends_behind_window && v.is_below_content,
    ensures
        placement.after_steps(view, placement.steps(view is Some)) == Some(placement.wanted()),
{
    let steps = placement.steps(view is Some);
    let n = steps.len() as int;
    assert forall|i: int| 0 < i <= n implies (#[trigger] steps.take(i)).drop_last() == steps.take(
        i - 1,
    ) by {
        assert(steps.take(i).drop_last() =~= steps.take(i - 1));
    }
    assert(steps.take(0) =~= Seq::<ViewStep>::empty());
    assert(placement.after_steps(view, steps.take(0)) == view);
    if view is None {
        let made = placement.after_steps(view, steps.take(1));
        assert(made is Some);
        assert(placement.after_steps(view, steps.take(2)) is Some);
        assert(placement.after_steps(view, steps.take(3)) matches Some(v)
            && v.blends_behind_window && v.is_below_content);
    }
    assert(placement.after_steps(view, steps.take(n - 3)) matches Some(v)
        && v.blends_behind_window && v.is_below_content);
    assert(placement.after_steps(view, steps.take(n - 2)) is Some);
    assert(placement.after_steps(view, steps.take(n - 1)) is Some);
    assert(placement.after_steps(view, steps.take(n)) == Some(placement.wanted()));
    assert(steps.take(n) =~= steps);
}

/// The view with a tag, where there is one.
pub open spec fn view_with(views: Map<isize, NativeView>, tag: isize) -> Option<NativeView> {
    if views.contains_key(tag) {
        Some(views[tag])
    } else {
        None
    }
}

/// The views, by their tags, after the steps of the placements were done in turn.
pub open spec fn views_after(views: Map<isize, NativeView>, placements: Seq<Placement>) -> Map<
    isize,
    NativeView,
>
    decreases placements.len(),
{
    if placements.len() == 0 {
        views
    } else {
        let before = views_after(views, placements.drop_last());
        let placement = placements.last();
        let view = view_with(before, placement.tag);
        match placement.after_steps(view, placement.steps(view is Some)) {
            Some(v) => before.insert(placement.tag, v),
            None => before.remove(placement.tag),
        }
    }
}

/// Whether every view was placed before: it blends behind the window, below the content.
pub open spec fn are_placed(views: Map<isize, NativeView>) -> bool {
    forall|tag: isize| #[trigger]
        views.contains_key(tag) ==> views[tag].blends_behind_window && views[tag].is_below_content
}

/// What the window's width is compared with is the width that the layout gives the sidebar.
pub proof fn law_sidebar_edge_is_the_sidebar_width()
    ensures
        sidebar_edge().is_finite(),
        sidebar_edge().units() == SIDEBAR_WIDTH * point_units(),
{
    let magnitude = SIDEBAR_WIDTH_BITS as nat;
    assert(magnitude / 0x0080_0000 == 135);
    assert(magnitude % 0x0080_0000 == 0x000d_0000);
    lemma_pow2_adds(15, 134);
    assert(pow2(15) == 32768) by {
        vstd::arithmetic::power2::lemma2_to64();
    }
    let p = pow2(134) as int;
    assert(pow2(149) == 32768 * p);
    assert((0x000d_0000 + 0x0080_0000) * p == 282 * (32768 * p)) by (nonlinear_arith);
}

/// The two regions cover the window without overlap: the sidebar's starts at the left edge, the
/// content's starts where the sidebar's ends, and together they are as wide as the window; both
/// are as high as the window. The sidebar's is never wider than the sidebar.
pub proof fn law_regions_tile_the_window(
    regions: Seq<VibrancyRegion>,
    width: Scalar,
    height: int,
)
    requires
        are_regions(regions, width),
        width.is_finite(),
        width.units() >= 0,
    ensures
        ({
            let point = point_units();
            let w = width.units();
            let sidebar = regions[0];
            let content = regions[1];
            &&& sidebar.x.measure(w, height, point) == 0
            &&& content.x.measure(w, height, point) == sidebar.width.measure(w, height, point)
            &&& sidebar.width.measure(w, height, point) + content.width.measure(w, height, point)
                == w
            &&& 0 <= sidebar.width.measure(w, height, point) <= SIDEBAR_WIDTH * point
            &&& 0 <= content.width.measure(w, height, point)
            &&& sidebar.y.measure(w, height, point) == 0
            &&& content.y.measure(w, height, point) == 0
            &&& sidebar.height.measure(w, height, point) == height
            &&& content.height.measure(w, height, point) == height
        }),
{
    law_sidebar_edge_is_the_sidebar_width();
}

/// Different names are told apart by what the hasher is fed.
pub proof fn law_tag_input_tells_names_apart(a: Seq<char>, b: Seq<char>)
    requires
        tag_input(a) == tag_input(b),
    ensures
        a == b,
{
    assert(tag_input(a)[0] == tag_input(b)[0]);
    vstd::utf8::encode_utf8_decode_utf8(a);
    vstd::utf8::encode_utf8_decode_utf8(b);
}

/// Whether no later placement has the tag of the placement `i`. Where tags differ, this holds of
/// every placement.
pub open spec fn is_last_of_its_tag(placements: Seq<Placement>, i: int) -> bool {
    forall|j: int| i < j < placements.len() ==> (#[trigger] placements[j]).tag != placements[i].tag
}

/// The views with those that the placements ask for put in their places, in turn.
spec fn wanted_after(views: Map<isize, NativeView>, placements: Seq<Placement>) -> Map<
    isize,
    NativeView,
>
    decreases placements.len(),
{
    if placements.len() == 0 {
        views
    } else {
        wanted_after(views, placements.drop_last()).insert(
            placements.last().tag,
            placements.last().wanted(),
        )
    }
}

/// The steps put the views that the placements ask for in their places.
proof fn lemma_steps_put_wanted_views(
    views: Map<isize, NativeView>,
    placements: Seq<Placement>,
)
    requires
        are_placed(views),
    ensures
        views_after(views, placements) == wanted_after(views, placements),
        are_placed(views_after(views, placements)),
    decreases placements.len(),
{
    if placements.len() > 0 {
        let earlier = placements.drop_last();
        let last = placements.last();
        lemma_steps_put_wanted_views(views, earlier);
        let before = views_after(views, earlier);
        law_steps_bring_about_the_placement(last, view_with(before, last.tag));
        assert(views_after(views, placements) == before.insert(last.tag, last.wanted()));
    }
}

proof fn lemma_wanted_after(views: Map<isize, NativeView>, placements: Seq<Placement>)
    ensures
        wanted_after(views, placements) == views.union_prefer_right(
            wanted_after(Map::empty(), placements),
        ),
        forall|i: int|
            0 <= i < placements.len() ==> wanted_after(views, placements).contains_key(
                (#[trigger] placements[i]).tag,
            ),
        forall|i: int|
            #![trigger placements[i]]
            0 <= i < placements.len() && is_last_of_its_tag(placements, i) ==> wanted_after(
                views,
                placements,
            )[placements[i].tag] == placements[i].wanted(),
        forall|tag: isize|
            #![trigger wanted_after(views, placements).contains_key(tag)]
            wanted_after(views, placements).contains_key(tag) <==> views.contains_key(tag)
                || exists|i: int|
                0 <= i < placements.len() && (#[trigger] placements[i]).tag == tag,
        forall|tag: isize|
            #![trigger wanted_after(views, placements)[tag]]
            views.contains_key(tag) && (forall|i: int|
                0 <= i < placements.len() ==> (#[trigger] placements[i]).tag != tag)
                ==> wanted_after(views, placements)[tag] == views[tag],
    decreases placements.len(),
{
    if placements.len() > 0 {
        let earlier = placements.drop_last();
        let last = placements.last();
        lemma_wanted_after(views, earlier);
        assert forall|i: int| 0 <= i < placements.len() implies wanted_after(
            views,
            placements,
        ).contains_key((#[trigger] placements[i]).tag) by {
            if i < earlier.len() {
                assert(earlier[i] == placements[i]);
            }
        }
        assert forall|i: int|
            #![trigger placements[i]]
            0 <= i < placements.len() && is_last_of_its_tag(placements, i) implies wanted_after(
            views,
            placements,
        )[placements[i].tag] == placements[i].wanted() by {
            if i < earlier.len() {
                assert(placements[placements.len() - 1].tag != placements[i].tag);
                assert forall|j: int| i < j < earlier.len() implies (#[trigger] earlier[j]).tag
                    != earlier[i].tag by {
                    assert(placements[j].tag != placements[i].tag);
                }
                assert(is_last_of_its_tag(earlier, i));
                assert(earlier[i] == placements[i]);
            }
        }
        assert forall|tag: isize|
            #![trigger wanted_after(views, placements).contains_key(tag)]
            wanted_after(views, placements).contains_key(tag) <==> views.contains_key(tag)
                || exists|i: int|
                0 <= i < placements.len() && (#[trigger] placements[i]).tag == tag by {
            if wanted_after(views, placements).contains_key(tag) && !views.contains_key(tag) {
                if tag == last.tag {
                    assert(placements[placements.len() - 1].tag == tag);
                } else {
                    assert(wanted_after(views, earlier).contains_key(tag));
                    let i = choose|i: int|
                        0 <= i < earlier.len() && (#[trigger] earlier[i]).tag == tag;
                    assert(placements[i].tag == tag);
                }
            }
            if views.contains_key(tag) {
                assert(wanted_after(views, earlier).contains_key(tag));
            }
        }
        assert forall|tag: isize|
            #![trigger wanted_after(views, placements)[tag]]
            views.contains_key(tag) && (forall|i: int|
                0 <= i < placements.len() ==> (#[trigger] placements[i]).tag != tag) implies
            wanted_after(views, placements)[tag] == views[tag] by {
            assert(placements[placements.len() - 1].tag != tag);
            assert forall|i: int| 0 <= i < earlier.len() implies (#[trigger] earlier[i]).tag
                != tag by {
                assert(placements[i].tag != tag);
            }
            assert(wanted_after(views, earlier)[tag] == views[tag]);
        }
    }
    assert(wanted_after(views, placements) =~= views.union_prefer_right(
        wanted_after(Map::empty(), placements),
    ));
}

/// Doing the steps of each placement in turn gives every region's tag a view, which looks as the
/// region asks unless a later region
/// has the same tag, and touches no other view; syncing the same regions again finds every view
/// and changes nothing.
pub proof fn law_syncing_again_changes_nothing(
    views: Map<isize, NativeView>,
    regions: Seq<VibrancyRegion>,
)
    requires
        are_placed(views),
    ensures
        ({
            let placements = placements_of(regions);
            let once = views_after(views, placements);
            &&& forall|i: int|
                0 <= i < placements.len() ==> once.contains_key((#[trigger] placements[i]).tag)
            &&& forall|i: int|
                #![trigger placements[i]]
                0 <= i < placements.len() && is_last_of_its_tag(placements, i)
                    ==> once[placements[i].tag] == placements[i].wanted()
            &&& forall|tag: isize|
                #![trigger once[tag]]
                views.contains_key(tag) && (forall|i: int|
                    0 <= i < placements.len() ==> (#[trigger] placements[i]).tag != tag)
                    ==> once.contains_key(tag) && once[tag] == views[tag]
            &&& forall|tag: isize|
                #![trigger once.contains_key(tag)]
                once.contains_key(tag) ==> views.contains_key(tag) || exists|i: int|
                    0 <= i < placements.len() && (#[trigger] placements[i]).tag == tag
            &&& are_placed(once)
            &&& views_after(once, placements) == once
        }),
{
    let placements = placements_of(regions);
    let once = views_after(views, placements);
    lemma_steps_put_wanted_views(views, placements);
    lemma_steps_put_wanted_views(once, placements);
    lemma_wanted_after(views, placements);
    lemma_wanted_after(once, placements);
    assert forall|tag: isize|
        #![trigger once[tag]]
        views.contains_key(tag) implies once.contains_key(tag) by {}
    assert(views_after(once, placements) =~= once);
}

/// What an extent measures, in any window.
pub proof fn law_extents_measure_what_they_name(width: int, height: int, point: int)
    ensures
        Extent::Nothing.measure(width, height, point) == 0,
        Extent::Sidebar.measure(width, height, point) == 282 * point,
        Extent::WindowWidth.measure(width, height, point) == width,
        Extent::BesideSidebar.measure(width, height, point) + Extent::Sidebar.measure(
            width,
            height,
            point,
        ) == width,
        Extent::WindowHeight.measure(width, height, point) == height,
{
}

/// The sidebar's region comes first and has the sidebar's material, the content's comes second
/// and has that of a panel; both look active when the window is, start at the top and are as high
/// as the window.
pub proof fn law_regions_have_their_materials(regions: Seq<VibrancyRegion>, width: Scalar)
    requires
        are_regions(regions, width),
    ensures
        regions.len() == 2,
        regions[0].name@ == "sidebar"@,
        regions[0].material is Sidebar,
        regions[1].name@ == "content"@,
        regions[1].material is HudWindow,
        forall|i: int|
            0 <= i < 2 ==> (#[trigger] regions[i]).state is FollowsWindowActiveState
                && regions[i].y is Nothing && regions[i].height is WindowHeight,
        regions[0].x is Nothing,
        regions[1].x == regions[0].width,
{
}

/// The sidebar's region is never wider than the window, and the content's never less than
/// nothing, even where the width is no number, negative or infinite.
pub proof fn law_regions_of_any_window(regions: Seq<VibrancyRegion>, width: Scalar)
    requires
        are_regions(regions, width),
    ensures
        width.is_nan() ==> regions[0].width is Sidebar && regions[1].width is Nothing,
        !width.is_nan() && width.units() < 282 * point_units() ==> regions[0].width is WindowWidth
            && regions[1].width is Nothing,
        !width.is_nan() && width.units() == 282 * point_units() ==> regions[0].width is Sidebar
            && regions[1].width is Nothing,
        !width.is_nan() && width.units() > 282 * point_units() ==> regions[0].width is Sidebar
            && regions[1].width is BesideSidebar,
{
    law_sidebar_edge_is_the_sidebar_width();
}

/// Syncing places one view for each region, in order, and each view has its region's rectangle:
/// left, top, width and height; and its region's material and state. Regions of the same name
/// share a view.
pub proof fn law_placements_have_the_regions_rectangles(
    regions: Seq<VibrancyRegion>,
    i: int,
    j: int,
)
    requires
        0 <= i < regions.len(),
        0 <= j < regions.len(),
    ensures
        placements_of(regions).len() == regions.len(),
        placements_of(regions)[i].x == regions[i].x,
        placements_of(regions)[i].y == regions[i].y,
        placements_of(regions)[i].width == regions[i].width,
        placements_of(regions)[i].height == regions[i].height,
        placements_of(regions)[i].material == regions[i].material,
        placements_of(regions)[i].state == regions[i].state,
        placements_of(regions)[i].tag == tag_of(regions[i].name@),
        regions[i].name@ == regions[j].name@ ==> placements_of(regions)[i].tag == placements_of(
            regions,
        )[j].tag,
{
}

/// The views placed for a window's regions cover the window without overlap: side by side from
/// its left edge, each as high as the window and together as wide.
pub proof fn law_placed_views_tile_the_window(
    regions: Seq<VibrancyRegion>,
    width: Scalar,
    height: int,
)
    requires
        are_regions(regions, width),
        width.is_finite(),
        width.units() >= 0,
    ensures
        ({
            let point = point_units();
            let w = width.units();
            let left = placements_of(regions)[0];
            let right = placements_of(regions)[1];
            &&& placements_of(regions).len() == 2
            &&& left.x.measure(w, height, point) == 0
            &&& right.x.measure(w, height, point) == left.width.measure(w, height, point)
            &&& left.width.measure(w, height, point) + right.width.measure(w, height, point) == w
            &&& 0 <= left.width.measure(w, height, point) <= 282 * point
            &&& 0 <= right.width.measure(w, height, point)
            &&& left.y.measure(w, height, point) == 0
            &&& right.y.measure(w, height, point) == 0
            &&& left.height.measure(w, height, point) == height
            &&& right.height.measure(w, height, point) == height
            &&& left.material is Sidebar
            &&& right.material is HudWindow
        }),
{
    law_regions_tile_the_window(regions, width, height);
}

/// A tag is what the hasher makes of the name's bytes and a closing byte.
pub proof fn law_tag_is_the_hash_of_the_name(name: Seq<char>)
    ensures
        tag_input(name).len() == 2,
        tag_input(name)[0] == encode_utf8(name),
        tag_input(name)[1] == seq![0xffu8],
        tag_of(name) == DefaultHasher::spec_finish(tag_input(name)) as isize,
{
}

/// A view that is there is restyled and never made again; one that is missing is made once,
/// before anything is set on it. Either way frame, material and state are set.
pub proof fn law_only_missing_views_are_made(placement: Placement, found: bool)
    ensures
        placement.steps(true).len() == 3,
        placement.steps(false).len() == 6,
        placement.steps(false).skip(3) == placement.steps(true),
        placement.steps(false)[0] is Create,
        forall|i: int|
            0 < i < placement.steps(false).len() ==> (#[trigger] placement.steps(false)[i])
                !is Create,
        placement.steps(found).contains(ViewStep::SetFrame),
        placement.steps(found).contains(ViewStep::SetMaterial(placement.material)),
        placement.steps(found).contains(ViewStep::SetState(placement.state)),
        placement.steps(false).contains(ViewStep::BlendBehindWindow),
        placement.steps(false).contains(ViewStep::InsertBelowContent),
{
    let known = placement.steps(true);
    let new = placement.steps(false);
    assert(new.skip(3) =~= known);
    assert(known[0] is SetFrame && new[3] is SetFrame);
    assert(known[1] == ViewStep::SetMaterial(placement.material));
    assert(new[4] == ViewStep::SetMaterial(placement.material));
    assert(known[2] == ViewStep::SetState(placement.state));
    assert(new[5] == ViewStep::SetState(placement.state));
    assert(new[1] is BlendBehindWindow && new[2] is InsertBelowContent);
}

/// After syncing, the view of every region whose name no later region hashes to lies behind the
/// window's content with the region's rectangle, material and state.
pub proof fn law_synced_views_look_as_the_regions_ask(
    views: Map<isize, NativeView>,
    regions: Seq<VibrancyRegion>,
    i: int,
)
    requires
        are_placed(views),
        0 <= i < regions.len(),
        forall|j: int|
            i < j < regions.len() ==> tag_of((#[trigger] regions[j]).name@) != tag_of(
                regions[i].name@,
            ),
    ensures
        ({
            let after = views_after(views, placements_of(regions));
            let view = after[tag_of(regions[i].name@)];
            &&& after.contains_key(tag_of(regions[i].name@))
            &&& view.blends_behind_window
            &&& view.is_below_content
            &&& view.frame.0 == regions[i].x
            &&& view.frame.1 == regions[i].y
            &&& view.frame.2 == regions[i].width
            &&& view.frame.3 == regions[i].height
            &&& view.material == Some(regions[i].material)
            &&& view.state == Some(regions[i].state)
        }),
{
    let placements = placements_of(regions);
    law_syncing_again_changes_nothing(views, regions);
    assert forall|j: int| i < j < placements.len() implies (#[trigger] placements[j]).tag
        != placements[i].tag by {
        assert(placements[j].tag == tag_of(regions[j].name@));
    }
    assert(is_last_of_its_tag(placements, i));
    assert(placements[i].tag == tag_of(regions[i].name@));
}

} // verus!
