//! The floating toolbar of an embedded viewer: what folds away when it does not fit, and when it
//! shows at all.
//!
//! Widgets are known by number. Secondary actions move between the toolbar and the overflow
//! popover and are never rebuilt; expanding puts every action back where it was.

use crate::text;
use vstd::prelude::*;

verus! {

/// Width above the fitting width that is needed before expanding again, in pixels.
pub const OVERFLOW_HYSTERESIS_PX: i32 = 48;

/// `s` without the widgets in `gone`.
pub open spec fn without(s: Seq<u32>, gone: Seq<u32>) -> Seq<u32>
    decreases s.len(),
{
    if s.len() == 0 {
        Seq::empty()
    } else if gone.contains(s.last()) {
        without(s.drop_last(), gone)
    } else {
        without(s.drop_last(), gone).push(s.last())
    }
}

proof fn lemma_without_concat(a: Seq<u32>, b: Seq<u32>, gone: Seq<u32>)
    ensures
        without(a + b, gone) == without(a, gone) + without(b, gone),
    decreases b.len(),
{
    if b.len() == 0 {
        assert(a + b =~= a);
        assert(without(a, gone) + without(b, gone) =~= without(a, gone));
    } else {
        assert((a + b).drop_last() =~= a + b.drop_last());
        assert((a + b).last() == b.last());
        lemma_without_concat(a, b.drop_last(), gone);
        assert(without(a + b, gone) =~= without(a, gone) + without(b, gone));
    }
}

proof fn lemma_without_untouched(s: Seq<u32>, gone: Seq<u32>)
    requires
        forall|i: int| 0 <= i < s.len() ==> !gone.contains(#[trigger] s[i]),
    ensures
        without(s, gone) == s,
    decreases s.len(),
{
    if s.len() > 0 {
        assert forall|i: int| 0 <= i < s.drop_last().len() implies !gone.contains(
            #[trigger] s.drop_last()[i],
        ) by {
            assert(s.drop_last()[i] == s[i]);
        }
        lemma_without_untouched(s.drop_last(), gone);
        assert(s =~= s.drop_last().push(s.last()));
    }
}

proof fn lemma_without_depends_on_members(s: Seq<u32>, g1: Seq<u32>, g2: Seq<u32>)
    requires
        forall|i: int| 0 <= i < s.len() ==> g1.contains(#[trigger] s[i]) == g2.contains(s[i]),
    ensures
        without(s, g1) == without(s, g2),
    decreases s.len(),
{
    if s.len() > 0 {
        assert(g1.contains(s[s.len() - 1]) == g2.contains(s[s.len() - 1]));
        assert forall|i: int| 0 <= i < s.drop_last().len() implies g1.contains(
            #[trigger] s.drop_last()[i],
        ) == g2.contains(s.drop_last()[i]) by {
            assert(s.drop_last()[i] == s[i]);
        }
        lemma_without_depends_on_members(s.drop_last(), g1, g2);
    }
}

/// A secondary action with the widget in front of it, `None` for the first one.
pub open spec fn anchored(layout: Seq<u32>, at: int) -> (u32, Option<u32>) {
    (
        layout[at],
        if at == 0 {
            None
        } else {
            Some(layout[at - 1])
        },
    )
}

/// The widgets of a list of secondary actions.
pub open spec fn widgets_of(secondary: Seq<(u32, Option<u32>)>) -> Seq<u32> {
    Seq::new(secondary.len(), |i: int| secondary[i].0)
}

/// Whether `ids` stand in `layout` at the places `at`, in this order.
pub open spec fn in_order(layout: Seq<u32>, ids: Seq<u32>, at: Seq<int>) -> bool {
    &&& at.len() == ids.len()
    &&& forall|i: int|
        0 <= i < ids.len() ==> 0 <= #[trigger] at[i] < layout.len() && layout[at[i]] == ids[i]
    &&& forall|i: int, j: int| 0 <= i < j < at.len() ==> #[trigger] at[i] < #[trigger] at[j]
}

/// Folds secondary actions of a toolbar into an overflow popover and back.
pub struct ToolbarOverflow {
    toolbar: Vec<u32>,
    overflow_box: Vec<u32>,
    secondary: Vec<(u32, Option<u32>)>,
    collapsed: bool,
    layout: Ghost<Seq<u32>>,
    places: Ghost<Seq<int>>,
}

impl ToolbarOverflow {
    /// The toolbar with every action in place, the overflow button last.
    pub closed spec fn full_layout(self) -> Seq<u32> {
        self.layout@
    }

    /// The secondary actions, in toolbar order.
    pub closed spec fn secondary_widgets(self) -> Seq<u32> {
        widgets_of(self.secondary@)
    }

    /// The children of the toolbar.
    pub closed spec fn toolbar_children(self) -> Seq<u32> {
        self.toolbar@
    }

    /// The children of the popover.
    pub closed spec fn popover_children(self) -> Seq<u32> {
        self.overflow_box@
    }

    /// Whether the secondary actions are in the popover, where the overflow button leads.
    pub closed spec fn is_collapsed(self) -> bool {
        self.collapsed
    }

    closed spec fn anchors_fit(self) -> bool {
        &&& self.layout@.no_duplicates()
        &&& in_order(self.layout@, widgets_of(self.secondary@), self.places@)
        &&& forall|i: int|
            0 <= i < self.secondary@.len() ==> #[trigger] self.secondary@[i] == anchored(
                self.layout@,
                self.places@[i],
            )
    }

    /// Every action is in exactly one of the two places, and in its order there.
    pub closed spec fn wf(self) -> bool {
        &&& self.anchors_fit()
        &&& if self.collapsed {
            &&& self.toolbar@ == without(self.layout@, widgets_of(self.secondary@))
            &&& self.overflow_box@ == widgets_of(self.secondary@)
        } else {
            &&& self.toolbar@ == self.layout@
            &&& self.overflow_box@ == Seq::<u32>::empty()
        }
    }

    /// Records the secondary actions of a toolbar and appends the overflow button, hidden.
    ///
    /// `secondary` lists some of the toolbar's widgets in toolbar order.
    pub fn new(toolbar: Vec<u32>, overflow_button: u32, secondary: Vec<u32>) -> (r: Self)
        requires
            toolbar@.push(overflow_button).no_duplicates(),
            exists|at: Seq<int>| #[trigger] in_order(toolbar@, secondary@, at),
        ensures
            r.wf(),
            !r.is_collapsed(),
            r.full_layout() == toolbar@.push(overflow_button),
            r.secondary_widgets() == secondary@,
    {
        let ghost children = toolbar@;
        let ghost layout = toolbar@.push(overflow_button);
        let ghost at = choose|at: Seq<int>| #[trigger] in_order(children, secondary@, at);
        let mut toolbar = toolbar;
        toolbar.push(overflow_button);
        let mut anchors: Vec<(u32, Option<u32>)> = Vec::new();
        let mut i: usize = 0;
        while i < secondary.len()
            invariant
                i <= secondary@.len(),
                toolbar@ == layout,
                layout == children.push(overflow_button),
                layout.no_duplicates(),
                in_order(children, secondary@, at),
                anchors@.len() == i,
                forall|j: int| 0 <= j < i ==> #[trigger] anchors@[j] == anchored(layout, at[j]),
            decreases secondary@.len() - i,
        {
            assert(layout[at[i as int]] == secondary@[i as int]) by {
                assert(children[at[i as int]] == secondary@[i as int]);
            }
            let k: usize = position(&toolbar, secondary[i], Ghost(at[i as int]));
            let anchor = if k == 0 {
                None
            } else {
                Some(toolbar[k - 1])
            };
            anchors.push((secondary[i], anchor));
            i += 1;
        }
        assert(widgets_of(anchors@) =~= secondary@);
        assert(in_order(layout, secondary@, at)) by {
            assert forall|j: int| 0 <= j < secondary@.len() implies 0 <= #[trigger] at[j]
                < layout.len() && layout[at[j]] == secondary@[j] by {
                assert(children[at[j]] == secondary@[j]);
            }
        }
        ToolbarOverflow {
            toolbar,
            overflow_box: Vec::new(),
            secondary: anchors,
            collapsed: false,
            layout: Ghost(layout),
            places: Ghost(at),
        }
    }

    /// The toolbar's children, in order.
    pub fn children(&self) -> (r: &Vec<u32>)
        ensures
            r@ == self.toolbar_children(),
    {
        &self.toolbar
    }

    /// The popover's children, in order.
    pub fn popover(&self) -> (r: &Vec<u32>)
        ensures
            r@ == self.popover_children(),
    {
        &self.overflow_box
    }

    /// Whether the overflow button is shown.
    pub fn overflow_visible(&self) -> (r: bool)
        ensures
            r == self.is_collapsed(),
    {
        self.collapsed
    }

    /// Moves the secondary actions into the popover.
    fn collapse(&mut self)
        requires
            old(self).wf(),
            !old(self).collapsed,
        ensures
            final(self).wf(),
            final(self).collapsed,
            final(self).layout@ == old(self).layout@,
            final(self).secondary@ == old(self).secondary@,
    {
        let ghost all = self.toolbar@;
        let ghost gone = widgets_of(self.secondary@);
        let mut kept: Vec<u32> = Vec::new();
        let mut i: usize = 0;
        while i < self.toolbar.len()
            invariant
                i <= self.toolbar@.len(),
                self.toolbar@ == all,
                gone == widgets_of(self.secondary@),
                kept@ == without(all.take(i as int), gone),
            decreases self.toolbar@.len() - i,
        {
            let w: u32 = self.toolbar[i];
            assert(all.take(i + 1).drop_last() =~= all.take(i as int));
            assert(all.take(i + 1).last() == w);
            if !is_secondary(&self.secondary, w) {
                kept.push(w);
            }
            i += 1;
        }
        assert(all.take(i as int) =~= all);
        let mut moved: Vec<u32> = Vec::new();
        let mut k: usize = 0;
        while k < self.secondary.len()
            invariant
                k <= self.secondary@.len(),
                gone == widgets_of(self.secondary@),
                moved@ == gone.take(k as int),
            decreases self.secondary@.len() - k,
        {
            moved.push(self.secondary[k].0);
            assert(gone.take(k + 1) =~= gone.take(k as int).push(gone[k as int]));
            k += 1;
        }
        assert(gone.take(k as int) =~= gone);
        self.toolbar = kept;
        self.overflow_box = moved;
        self.collapsed = true;
    }

    /// Moves the secondary actions back, each behind the widget it stood behind.
    fn expand(&mut self)
        requires
            old(self).wf(),
            old(self).collapsed,
        ensures
            final(self).wf(),
            !final(self).collapsed,
            final(self).layout@ == old(self).layout@,
            final(self).secondary@ == old(self).secondary@,
    {
        let ghost layout = self.layout@;
        let ghost at = self.places@;
        let ghost ids = widgets_of(self.secondary@);
        let mut i: usize = 0;
        assert(ids.skip(0) =~= ids);
        while i < self.secondary.len()
            invariant
                i <= self.secondary@.len(),
                layout == self.layout@,
                at == self.places@,
                ids == widgets_of(self.secondary@),
                self.secondary@ == old(self).secondary@,
                self.layout@ == old(self).layout@,
                self.anchors_fit(),
                self.toolbar@ == without(layout, ids.skip(i as int)),
            decreases self.secondary@.len() - i,
        {
            let (w, anchor) = self.secondary[i];
            let ghost p = at[i as int];
            proof {
                assert(self.secondary@[i as int] == anchored(layout, at[i as int]));
                lemma_reinsert(layout, ids, at, i as int);
            }
            let k: usize = match anchor {
                None => 0,
                Some(a) => {
                    assert(self.toolbar@[p - 1] == a) by {
                        assert(self.toolbar@.take(p)[p - 1] == layout.take(p)[p - 1]);
                    }
                    proof {
                        lemma_without_no_duplicates(layout, ids.skip(i as int));
                    }
                    position(&self.toolbar, a, Ghost(p - 1)) + 1
                },
            };
            self.toolbar.insert(k, w);
            assert(self.toolbar@ =~= without(layout, ids.skip(i + 1)));
            i += 1;
        }
        proof {
            lemma_without_untouched(layout, ids.skip(i as int));
        }
        self.overflow_box = Vec::new();
        self.collapsed = false;
        assert(self.overflow_box@ =~= Seq::<u32>::empty());
    }

    /// Collapses or expands for the width of the viewer.
    ///
    /// `needed` is the width that the full toolbar needs.
    pub fn update(&mut self, width: i32, margins: i32, needed: i128)
        requires
            old(self).wf(),
        ensures
            final(self).wf(),
            final(self).full_layout() == old(self).full_layout(),
            final(self).secondary_widgets() == old(self).secondary_widgets(),
            final(self).is_collapsed() == collapses(
                old(self).secondary_widgets().len() == 0,
                old(self).is_collapsed(),
                width - margins,
                needed as int,
            ),
    {
        if self.secondary.len() == 0 {
            return;
        }
        let available: i128 = width as i128 - margins as i128;
        if self.collapsed {
            if available - OVERFLOW_HYSTERESIS_PX as i128 >= needed {
                self.expand();
            }
        } else if available < needed {
            self.collapse();
        }
    }
}

/// Whether the secondary actions are in the popover after a look at the width.
pub open spec fn collapses(nothing_secondary: bool, collapsed: bool, available: int, needed: int) -> bool {
    if nothing_secondary {
        collapsed
    } else if collapsed {
        available < needed + OVERFLOW_HYSTERESIS_PX
    } else {
        available < needed
    }
}

/// A second look at the same width changes nothing: the toolbar does not flap.
pub proof fn law_update_settles(
    nothing_secondary: bool,
    collapsed: bool,
    available: int,
    needed: int,
)
    ensures
        ({
            let once = collapses(nothing_secondary, collapsed, available, needed);
            collapses(nothing_secondary, once, available, needed) == once
        }),
{
}

/// Every action is reachable at any width: what is not in the toolbar is in the popover.
pub proof fn law_every_action_stays_reachable(t: ToolbarOverflow, w: u32)
    requires
        t.wf(),
        t.full_layout().contains(w),
    ensures
        t.toolbar_children().contains(w) || t.popover_children().contains(w),
{
    if t.collapsed && !widgets_of(t.secondary@).contains(w) {
        lemma_without_keeps(t.layout@, widgets_of(t.secondary@), w);
    }
}

/// Expanded, the toolbar is exactly as it was assembled, and the popover is empty.
pub proof fn law_expanding_restores_the_layout(t: ToolbarOverflow)
    requires
        t.wf(),
        !t.is_collapsed(),
    ensures
        t.toolbar_children() == t.full_layout(),
        t.popover_children().len() == 0,
{
}

/// Collapsed, the toolbar keeps the primary actions in their order and the popover holds the
/// secondary ones in theirs.
pub proof fn law_collapsing_keeps_the_primary_actions(t: ToolbarOverflow)
    requires
        t.wf(),
        t.is_collapsed(),
    ensures
        t.toolbar_children() == without(t.full_layout(), t.secondary_widgets()),
        t.popover_children() == t.secondary_widgets(),
{
}

proof fn lemma_without_keeps(s: Seq<u32>, gone: Seq<u32>, w: u32)
    requires
        s.contains(w),
        !gone.contains(w),
    ensures
        without(s, gone).contains(w),
    decreases s.len(),
{
    let i = choose|i: int| 0 <= i < s.len() && s[i] == w;
    let before = without(s.drop_last(), gone);
    if i == s.len() - 1 {
        assert(without(s, gone)[before.len() as int] == w);
    } else {
        assert(s.drop_last()[i] == w);
        lemma_without_keeps(s.drop_last(), gone, w);
        let j = choose|j: int| 0 <= j < before.len() && before[j] == w;
        assert(without(s, gone)[j] == w);
    }
}

proof fn lemma_without_members(s: Seq<u32>, gone: Seq<u32>, i: int)
    requires
        0 <= i < without(s, gone).len(),
    ensures
        s.contains(without(s, gone)[i]),
    decreases s.len(),
{
    if s.len() > 0 {
        let before = without(s.drop_last(), gone);
        if i < before.len() {
            lemma_without_members(s.drop_last(), gone, i);
            let j = choose|j: int| 0 <= j < s.drop_last().len() && s.drop_last()[j] == before[i];
            assert(s[j] == without(s, gone)[i]);
        } else {
            assert(s[s.len() - 1] == without(s, gone)[i]);
        }
    }
}

proof fn lemma_without_no_duplicates(s: Seq<u32>, gone: Seq<u32>)
    requires
        s.no_duplicates(),
    ensures
        without(s, gone).no_duplicates(),
    decreases s.len(),
{
    if s.len() > 0 {
        let before = without(s.drop_last(), gone);
        let after = without(s, gone);
        lemma_without_no_duplicates(s.drop_last(), gone);
        assert forall|i: int, j: int| 0 <= i < j < after.len() implies after[i] != after[j] by {
            if j == before.len() {
                lemma_without_members(s.drop_last(), gone, i);
                let k = choose|k: int|
                    0 <= k < s.drop_last().len() && s.drop_last()[k] == before[i];
                assert(s[k] != s[s.len() - 1]);
            }
        }
    }
}

/// With the actions from `i` on missing, the layout starts with everything in front of action `i`;
/// putting that one back behind its anchor gives the layout with the actions from `i + 1` on
/// missing.
proof fn lemma_reinsert(layout: Seq<u32>, ids: Seq<u32>, at: Seq<int>, i: int)
    requires
        layout.no_duplicates(),
        in_order(layout, ids, at),
        0 <= i < ids.len(),
    ensures
        at[i] <= without(layout, ids.skip(i)).len(),
        without(layout, ids.skip(i)).take(at[i]) == layout.take(at[i]),
        without(layout, ids.skip(i + 1)) == without(layout, ids.skip(i)).insert(at[i], ids[i]),
{
    let p = at[i];
    let head = layout.take(p);
    let tail = layout.skip(p + 1);
    let gone = ids.skip(i);
    let less = ids.skip(i + 1);
    assert(layout =~= head + seq![ids[i]] + tail);
    assert forall|k: int| 0 <= k < head.len() implies !gone.contains(#[trigger] head[k]) by {
        if gone.contains(head[k]) {
            let j = choose|j: int| 0 <= j < gone.len() && gone[j] == head[k];
            assert(layout[at[i + j]] == ids[i + j]);
            assert(layout[k] == layout[at[i + j]]);
            if j > 0 {
                assert(at[i] < at[i + j]);
            }
        }
    }
    assert forall|k: int| 0 <= k < head.len() implies !less.contains(#[trigger] head[k]) by {
        if less.contains(head[k]) {
            let j = choose|j: int| 0 <= j < less.len() && less[j] == head[k];
            assert(gone[j + 1] == head[k]);
            assert(!gone.contains(head[k]));
        }
    }
    lemma_without_untouched(head, gone);
    lemma_without_untouched(head, less);
    assert forall|k: int| 0 <= k < tail.len() implies gone.contains(#[trigger] tail[k])
        == less.contains(tail[k]) by {
        if gone.contains(tail[k]) {
            let j = choose|j: int| 0 <= j < gone.len() && gone[j] == tail[k];
            if j == 0 {
                assert(layout[p] == ids[i]);
                assert(layout[p + 1 + k] == tail[k]);
            } else {
                assert(less[j - 1] == tail[k]);
            }
        }
        if less.contains(tail[k]) {
            let j = choose|j: int| 0 <= j < less.len() && less[j] == tail[k];
            assert(gone[j + 1] == tail[k]);
        }
    }
    lemma_without_depends_on_members(tail, gone, less);
    assert(gone[0] == ids[i]);
    assert(gone.contains(ids[i]));
    assert(!less.contains(ids[i])) by {
        if less.contains(ids[i]) {
            let j = choose|j: int| 0 <= j < less.len() && less[j] == ids[i];
            assert(layout[at[i + 1 + j]] == ids[i + 1 + j]);
            assert(at[i] < at[i + 1 + j]);
        }
    }
    let one = seq![ids[i]];
    reveal_with_fuel(without, 2);
    assert(one.drop_last() =~= Seq::<u32>::empty());
    assert(without(one, gone) =~= Seq::<u32>::empty());
    assert(without(one, less) =~= one);
    lemma_without_concat(head + one, tail, gone);
    lemma_without_concat(head, one, gone);
    lemma_without_concat(head + one, tail, less);
    lemma_without_concat(head, one, less);
    assert(without(layout, gone) =~= head + without(tail, gone));
    assert(without(layout, less) =~= head + one + without(tail, gone));
    assert(without(layout, gone).take(p) =~= head);
    assert(without(layout, less) =~= without(layout, gone).insert(p, ids[i]));
}

fn is_secondary(secondary: &Vec<(u32, Option<u32>)>, w: u32) -> (r: bool)
    ensures
        r == widgets_of(secondary@).contains(w),
{
    let mut i: usize = 0;
    while i < secondary.len()
        invariant
            i <= secondary@.len(),
            forall|j: int| 0 <= j < i ==> widgets_of(secondary@)[j] != w,
        decreases secondary@.len() - i,
    {
        if secondary[i].0 == w {
            assert(widgets_of(secondary@)[i as int] == w);
            return true;
        }
        i += 1;
    }
    false
}

fn position(v: &Vec<u32>, w: u32, at: Ghost<int>) -> (r: usize)
    requires
        v@.no_duplicates(),
        0 <= at@ < v@.len(),
        v@[at@] == w,
    ensures
        r == at@,
        r < v.len(),
{
    let mut i: usize = 0;
    while i < v.len()
        invariant
            i <= at@ < v@.len(),
            v@.no_duplicates(),
            v@[at@] == w,
        decreases v@.len() - i,
    {
        if v[i] == w {
            return i;
        }
        i += 1;
    }
    0
}

/// The width the full toolbar needs, from what its parts measure.
///
/// Collapsed, the overflow button stands in for the secondary actions: its width goes, theirs come
/// back.
pub open spec fn full_width(
    natural: int,
    collapsed: bool,
    spacing: int,
    overflow_natural: int,
    secondary_naturals: Seq<i32>,
) -> int {
    if collapsed {
        natural - overflow_natural - spacing + widths_with_spacing(secondary_naturals, spacing)
    } else {
        natural
    }
}

/// The widths of several widgets, each with the spacing in front of it.
pub open spec fn widths_with_spacing(naturals: Seq<i32>, spacing: int) -> int
    decreases naturals.len(),
{
    if naturals.len() == 0 {
        0
    } else {
        widths_with_spacing(naturals.drop_last(), spacing) + naturals.last() + spacing
    }
}

/// Computes the width the full toolbar needs.
pub fn expanded_natural_px(
    natural: i32,
    collapsed: bool,
    spacing: i32,
    overflow_natural: i32,
    secondary_naturals: &Vec<i32>,
) -> (r: i128)
    ensures
        r == full_width(
            natural as int,
            collapsed,
            spacing as int,
            overflow_natural as int,
            secondary_naturals@,
        ),
{
    if !collapsed {
        return natural as i128;
    }
    let mut sum: i128 = 0;
    let mut i: usize = 0;
    while i < secondary_naturals.len()
        invariant
            i <= secondary_naturals@.len(),
            sum == widths_with_spacing(secondary_naturals@.take(i as int), spacing as int),
            -0x1_0000_0000 * i <= sum <= 0x1_0000_0000 * i,
        decreases secondary_naturals@.len() - i,
    {
        let ghost next = secondary_naturals@.take(i + 1);
        assert(next.drop_last() =~= secondary_naturals@.take(i as int));
        assert(next.last() == secondary_naturals@[i as int]);
        sum = sum + secondary_naturals[i] as i128 + spacing as i128;
        i += 1;
    }
    assert(secondary_naturals@.take(i as int) =~= secondary_naturals@);
    natural as i128 - overflow_natural as i128 - spacing as i128 + sum
}

/// Notices changes of a width.
#[derive(Clone, Copy, Debug, PartialEq, Eq, Structural)]
pub struct WidthWatch {
    pub last_width: i32,
}

impl WidthWatch {
    /// Starts before any width was seen.
    pub fn new() -> (r: Self)
        ensures
            r.last_width == -1,
    {
        WidthWatch { last_width: -1 }
    }

    /// Whether the toolbar has to look at this width: it is a real one, and it is new. A widget
    /// that is not allocated yet has none.
    pub fn changed(&mut self, width: i32) -> (r: bool)
        ensures
            r == (width > 0 && width != old(self).last_width),
            final(self).last_width == (if r {
                width
            } else {
                old(self).last_width
            }),
    {
        if width > 0 && width != self.last_width {
            self.last_width = width;
            true
        } else {
            false
        }
    }
}

/// Delay before an inactive floating toolbar is hidden, in seconds.
pub const TOOLBAR_HIDE_DELAY_SECONDS: u64 = 2;

/// Smallest pointer or touch target, in pixels.
pub const TOUCH_TARGET_PX: i32 = 44;

/// Alignment along the top edge.
#[derive(Clone, Copy, Debug, PartialEq, Eq, Structural)]
pub enum Align {
    Center,
    End,
}

/// Where the reveal handle sits along the top edge of the viewer.
#[derive(Clone, Copy, Debug, PartialEq, Eq, Structural)]
pub enum RevealHandle {
    /// Top centre, over a remote desktop.
    TopCentre,
    /// Top trailing corner, over a web page.
    TopTrailing,
}

impl RevealHandle {
    /// Returns the alignment that places the handle.
    pub fn halign(self) -> (r: Align)
        ensures
            r == (match self {
                RevealHandle::TopCentre => Align::Center,
                RevealHandle::TopTrailing => Align::End,
            }),
    {
        match self {
            RevealHandle::TopCentre => Align::Center,
            RevealHandle::TopTrailing => Align::End,
        }
    }
}

/// What becomes of the hide timer.
#[derive(Clone, Copy, Debug, PartialEq, Eq, Structural)]
pub enum TimerAction {
    Keep,
    /// Remove it, if it runs.
    Cancel,
    /// Start it anew.
    Restart,
}

/// What happens to a floating toolbar.
#[derive(Clone, Copy, Debug, PartialEq, Eq, Structural)]
pub enum ToolbarEvent {
    /// The connection's choice, before the session starts.
    SetEnabled(bool),
    /// The session is connecting or connected.
    ShowBriefly,
    /// The session is disconnected.
    Hide,
    HandleClicked,
    HandleEntered,
    HandleLeft,
    ToolbarEntered,
    ToolbarLeft,
    FocusEntered,
    FocusLeft,
    /// The hide timer ran out; `menu_active` says whether a menu of the toolbar is open.
    TimerFired { menu_active: bool },
}

/// Reveals a floating toolbar and hides it when it is not used.
#[derive(Clone, Copy, Debug, PartialEq, Eq, Structural)]
pub struct ToolbarAutoHide {
    /// Whether the connection wants a floating toolbar at all.
    pub enabled: bool,
    /// Whether the session can use one now.
    pub available: bool,
    pub pointer_in_reveal_button: bool,
    pub pointer_in_toolbar: bool,
    pub focus_in_toolbar: bool,
    /// Whether the toolbar shows.
    pub revealed: bool,
    /// Whether the handle that reveals it shows.
    pub handle_visible: bool,
    /// Whether the toolbar takes clicks.
    pub can_target: bool,
    /// Whether the hide timer runs.
    pub timer: bool,
}

impl ToolbarAutoHide {
    /// The handle shows where a toolbar could be revealed and is not; the toolbar takes clicks
    /// exactly while it shows; a connection that wants none has none.
    pub open spec fn wf(self) -> bool {
        &&& self.handle_visible == (self.enabled && self.available && !self.revealed)
        &&& self.can_target == self.revealed
        &&& !self.enabled ==> !self.available && !self.revealed
    }

    /// Whether the user is busy with the toolbar.
    pub open spec fn in_use(self, menu_active: bool) -> bool {
        self.pointer_in_reveal_button || self.pointer_in_toolbar || self.focus_in_toolbar
            || menu_active
    }

    /// Handle and click target brought in line with what shows.
    pub open spec fn synced(self) -> Self {
        ToolbarAutoHide {
            handle_visible: self.enabled && self.available && !self.revealed,
            can_target: self.revealed,
            ..self
        }
    }

    /// The toolbar revealed, where both the connection and the session allow it.
    pub open spec fn shown(self) -> Self {
        let quiet = ToolbarAutoHide { timer: false, ..self };
        if self.enabled && self.available {
            ToolbarAutoHide { revealed: true, ..quiet }.synced()
        } else {
            quiet
        }
    }

    /// The state after an event.
    pub open spec fn after(self, event: ToolbarEvent) -> Self {
        match event {
            ToolbarEvent::SetEnabled(true) => ToolbarAutoHide { enabled: true, ..self }.synced(),
            ToolbarEvent::SetEnabled(false) => ToolbarAutoHide {
                enabled: false,
                available: false,
                timer: false,
                revealed: false,
                pointer_in_reveal_button: false,
                pointer_in_toolbar: false,
                focus_in_toolbar: false,
                ..self
            }.synced(),
            ToolbarEvent::ShowBriefly => if self.enabled {
                ToolbarAutoHide { available: true, revealed: true, timer: true, ..self }.synced()
            } else {
                self
            },
            ToolbarEvent::Hide => ToolbarAutoHide {
                available: false,
                timer: false,
                revealed: false,
                pointer_in_reveal_button: false,
                ..self
            }.synced(),
            ToolbarEvent::HandleClicked => self.shown(),
            ToolbarEvent::HandleEntered => ToolbarAutoHide {
                pointer_in_reveal_button: true,
                ..self
            }.shown(),
            ToolbarEvent::HandleLeft => ToolbarAutoHide {
                pointer_in_reveal_button: false,
                timer: true,
                ..self
            },
            ToolbarEvent::ToolbarEntered => ToolbarAutoHide {
                pointer_in_toolbar: true,
                timer: false,
                ..self
            },
            ToolbarEvent::ToolbarLeft => ToolbarAutoHide {
                pointer_in_toolbar: false,
                timer: true,
                ..self
            },
            ToolbarEvent::FocusEntered => ToolbarAutoHide { focus_in_toolbar: true, ..self }.shown(),
            ToolbarEvent::FocusLeft => ToolbarAutoHide {
                focus_in_toolbar: false,
                timer: true,
                ..self
            },
            ToolbarEvent::TimerFired { menu_active } => if self.in_use(menu_active) {
                ToolbarAutoHide { timer: true, ..self }
            } else {
                ToolbarAutoHide { timer: false, revealed: false, ..self }.synced()
            },
        }
    }

    /// What becomes of the timer after an event.
    pub open spec fn timer_action(self, event: ToolbarEvent) -> TimerAction {
        match event {
            ToolbarEvent::SetEnabled(true) => TimerAction::Keep,
            ToolbarEvent::ShowBriefly => if self.enabled {
                TimerAction::Restart
            } else {
                TimerAction::Keep
            },
            ToolbarEvent::HandleLeft
            | ToolbarEvent::ToolbarLeft
            | ToolbarEvent::FocusLeft => TimerAction::Restart,
            ToolbarEvent::TimerFired { menu_active } => if self.in_use(menu_active) {
                TimerAction::Restart
            } else {
                TimerAction::Keep
            },
            _ => TimerAction::Cancel,
        }
    }

    /// Attaches the behaviour to a toolbar that does not show.
    pub fn attach() -> (r: Self)
        ensures
            r.wf(),
            r.enabled,
            !r.available,
            !r.revealed,
            !r.timer,
            !r.in_use(false),
    {
        ToolbarAutoHide {
            enabled: true,
            available: false,
            pointer_in_reveal_button: false,
            pointer_in_toolbar: false,
            focus_in_toolbar: false,
            revealed: false,
            handle_visible: false,
            can_target: false,
            timer: false,
        }
    }

    fn update_reveal_button(&mut self)
        ensures
            *final(self) == old(self).synced(),
    {
        self.handle_visible = self.enabled && self.available && !self.revealed;
        self.can_target = self.revealed;
    }

    fn reveal_toolbar(&mut self) -> (r: bool)
        ensures
            r == (old(self).enabled && old(self).available),
            *final(self) == (if r {
                ToolbarAutoHide { revealed: true, ..*old(self) }.synced()
            } else {
                *old(self)
            }),
    {
        if !self.enabled || !self.available {
            return false;
        }
        self.revealed = true;
        self.update_reveal_button();
        true
    }

    fn show(&mut self)
        ensures
            *final(self) == old(self).shown(),
    {
        self.timer = false;
        let _shown = self.reveal_toolbar();
    }

    /// Whether the user is busy with the toolbar.
    pub fn interaction_active(&self, menu_active: bool) -> (r: bool)
        ensures
            r == self.in_use(menu_active),
    {
        self.pointer_in_reveal_button || self.pointer_in_toolbar || self.focus_in_toolbar
            || menu_active
    }

    /// Removes the toolbar and its handle for the session, or allows them.
    pub fn set_enabled(&mut self, enabled: bool) -> (r: TimerAction)
        ensures
            *final(self) == old(self).after(ToolbarEvent::SetEnabled(enabled)),
            r == old(self).timer_action(ToolbarEvent::SetEnabled(enabled)),
    {
        self.enabled = enabled;
        if !enabled {
            self.available = false;
            self.timer = false;
            self.revealed = false;
            self.pointer_in_reveal_button = false;
            self.pointer_in_toolbar = false;
            self.focus_in_toolbar = false;
        }
        self.update_reveal_button();
        if enabled {
            TimerAction::Keep
        } else {
            TimerAction::Cancel
        }
    }

    /// Reveals the toolbar and hides it after the standard delay.
    pub fn show_briefly(&mut self) -> (r: TimerAction)
        ensures
            *final(self) == old(self).after(ToolbarEvent::ShowBriefly),
            r == old(self).timer_action(ToolbarEvent::ShowBriefly),
    {
        if !self.enabled {
            return TimerAction::Keep;
        }
        self.available = true;
        if self.reveal_toolbar() {
            self.timer = true;
        }
        TimerAction::Restart
    }

    /// Puts the toolbar away until the session connects again.
    pub fn put_away(&mut self) -> (r: TimerAction)
        ensures
            *final(self) == old(self).after(ToolbarEvent::Hide),
            r == old(self).timer_action(ToolbarEvent::Hide),
    {
        self.available = false;
        self.timer = false;
        self.revealed = false;
        self.pointer_in_reveal_button = false;
        self.update_reveal_button();
        TimerAction::Cancel
    }

    /// Takes an event of any kind.
    pub fn handle(&mut self, event: ToolbarEvent) -> (r: TimerAction)
        ensures
            *final(self) == old(self).after(event),
            r == old(self).timer_action(event),
    {
        match event {
            ToolbarEvent::SetEnabled(enabled) => self.set_enabled(enabled),
            ToolbarEvent::ShowBriefly => self.show_briefly(),
            ToolbarEvent::Hide => self.put_away(),
            ToolbarEvent::HandleClicked => {
                self.show();
                TimerAction::Cancel
            },
            ToolbarEvent::HandleEntered => {
                self.pointer_in_reveal_button = true;
                self.show();
                TimerAction::Cancel
            },
            ToolbarEvent::HandleLeft => {
                self.pointer_in_reveal_button = false;
                self.timer = true;
                TimerAction::Restart
            },
            ToolbarEvent::ToolbarEntered => {
                self.pointer_in_toolbar = true;
                self.timer = false;
                TimerAction::Cancel
            },
            ToolbarEvent::ToolbarLeft => {
                self.pointer_in_toolbar = false;
                self.timer = true;
                TimerAction::Restart
            },
            ToolbarEvent::FocusEntered => {
                self.focus_in_toolbar = true;
                self.show();
                TimerAction::Cancel
            },
            ToolbarEvent::FocusLeft => {
                self.focus_in_toolbar = false;
                self.timer = true;
                TimerAction::Restart
            },
            ToolbarEvent::TimerFired { menu_active } => {
                if self.interaction_active(menu_active) {
                    self.timer = true;
                    TimerAction::Restart
                } else {
                    self.timer = false;
                    self.revealed = false;
                    self.update_reveal_button();
                    TimerAction::Keep
                }
            },
        }
    }
}

/// No event leaves the handle or the click target out of line with what shows.
pub proof fn law_handle_and_target_follow_the_toolbar(t: ToolbarAutoHide, event: ToolbarEvent)
    requires
        t.wf(),
    ensures
        t.after(event).wf(),
{
}

/// A connection that wants no toolbar gets none from any later event, nor a handle to reveal one.
pub proof fn law_disabled_toolbar_stays_away(t: ToolbarAutoHide, event: ToolbarEvent)
    requires
        t.wf(),
        !t.enabled,
        event != ToolbarEvent::SetEnabled(true),
    ensures
        ({
            let next = t.after(event);
            !next.enabled && !next.revealed && !next.handle_visible && !next.can_target
        }),
{
}

/// The timer never hides a toolbar that is in use.
pub proof fn law_toolbar_in_use_stays(t: ToolbarAutoHide, menu_active: bool)
    requires
        t.revealed,
        t.in_use(menu_active),
    ensures
        t.after(ToolbarEvent::TimerFired { menu_active }).revealed,
        t.after(ToolbarEvent::TimerFired { menu_active }).timer,
{
}

/// However it is revealed, a toolbar that shows takes clicks at once.
pub proof fn law_revealed_toolbar_takes_clicks(t: ToolbarAutoHide, event: ToolbarEvent)
    requires
        t.wf(),
        t.after(event).revealed,
    ensures
        t.after(event).can_target,
        !t.after(event).handle_visible,
{
}

/// What a widget is, as far as the toolbar cares.
#[derive(Clone, Copy, Debug, PartialEq, Eq, Structural)]
pub enum WidgetKind {
    Button,
    MenuButton { active: bool },
    Other,
}

/// A widget with its children.
pub struct WidgetNode {
    pub id: u32,
    pub kind: WidgetKind,
    pub children: Vec<WidgetNode>,
}

/// Whether a menu of this widget or of one inside it is open.
pub open spec fn has_active_menu(node: WidgetNode) -> bool
    decreases node,
{
    node.kind == (WidgetKind::MenuButton { active: true }) || any_active_menu(
        node.children@,
        node.children@.len(),
    )
}

/// Whether a menu is open in one of the first `n` widgets.
pub open spec fn any_active_menu(nodes: Seq<WidgetNode>, n: nat) -> bool
    decreases nodes, n,
{
    if n == 0 || n > nodes.len() {
        false
    } else {
        any_active_menu(nodes, (n - 1) as nat) || has_active_menu(nodes[n - 1])
    }
}

/// The buttons among a widget and what is inside it, from the outside in.
pub open spec fn buttons_in(node: WidgetNode) -> Seq<u32>
    decreases node,
{
    (if node.kind == WidgetKind::Other {
        Seq::empty()
    } else {
        seq![node.id]
    }) + buttons_among(node.children@, node.children@.len())
}

/// The buttons in the first `n` widgets.
pub open spec fn buttons_among(nodes: Seq<WidgetNode>, n: nat) -> Seq<u32>
    decreases nodes, n,
{
    if n == 0 || n > nodes.len() {
        Seq::empty()
    } else {
        buttons_among(nodes, (n - 1) as nat) + buttons_in(nodes[n - 1])
    }
}

/// Whether a menu of the toolbar is open.
pub fn contains_active_menu(node: &WidgetNode) -> (r: bool)
    ensures
        r == has_active_menu(*node),
    decreases node,
{
    if let WidgetKind::MenuButton { active: true } = node.kind {
        return true;
    }
    let mut found = false;
    let mut i: usize = 0;
    while i < node.children.len()
        invariant
            i <= node.children@.len(),
            found == any_active_menu(node.children@, i as nat),
        decreases node.children@.len() - i,
    {
        if contains_active_menu(&node.children[i]) {
            found = true;
        }
        i += 1;
    }
    found
}

/// Lists the widgets that get the smallest target size: every button of the toolbar.
pub fn ensure_touch_targets(node: &WidgetNode) -> (r: Vec<u32>)
    ensures
        r@ == buttons_in(*node),
    decreases node,
{
    let mut r: Vec<u32> = Vec::new();
    if node.kind != WidgetKind::Other {
        r.push(node.id);
    }
    let ghost own = r@;
    let mut i: usize = 0;
    assert(own + buttons_among(node.children@, 0) =~= own);
    while i < node.children.len()
        invariant
            i <= node.children@.len(),
            r@ == own + buttons_among(node.children@, i as nat),
        decreases node.children@.len() - i,
    {
        let mut inner = ensure_touch_targets(&node.children[i]);
        r.append(&mut inner);
        assert(r@ =~= own + buttons_among(node.children@, (i + 1) as nat));
        i += 1;
    }
    assert(r@ =~= buttons_in(*node));
    r
}

/// The class that marks a viewer without floating overlays.
pub const NO_FLOATING_OVERLAYS_CSS_CLASS: &'static str = "no-floating-overlays";

/// Whether a list of classes holds one.
pub open spec fn has_class(classes: Seq<Seq<char>>, class: Seq<char>) -> bool {
    classes.contains(class)
}

/// Marks a viewer as carrying no floating overlays, or takes the mark off.
pub fn set_floating_overlays_suppressed(classes: &mut Vec<String>, suppressed: bool)
    ensures
        text::views(final(classes)@) == marked(text::views(old(classes)@), suppressed),
{
    let ghost before = text::views(classes@);
    if suppressed {
        if !floating_overlays_suppressed(classes) {
            text::push_string(classes, NO_FLOATING_OVERLAYS_CSS_CLASS.to_owned());
        }
    } else {
        let mut kept: Vec<String> = Vec::new();
        let mut i: usize = 0;
        assert(unmarked(before.take(0)) =~= text::views(kept@));
        while i < classes.len()
            invariant
                i <= classes@.len(),
                before == text::views(classes@),
                text::views(kept@) == unmarked(before.take(i as int)),
            decreases classes@.len() - i,
        {
            assert(before.take(i + 1).drop_last() =~= before.take(i as int));
            assert(before.take(i + 1).last() == before[i as int]);
            if !text::same(&classes[i], NO_FLOATING_OVERLAYS_CSS_CLASS) {
                text::push_string(&mut kept, classes[i].clone());
            }
            i += 1;
        }
        assert(before.take(i as int) =~= before);
        *classes = kept;
    }
}

/// The classes without the mark.
pub open spec fn unmarked(classes: Seq<Seq<char>>) -> Seq<Seq<char>>
    decreases classes.len(),
{
    if classes.len() == 0 {
        Seq::empty()
    } else if classes.last() == NO_FLOATING_OVERLAYS_CSS_CLASS@ {
        unmarked(classes.drop_last())
    } else {
        unmarked(classes.drop_last()).push(classes.last())
    }
}

/// The classes with the mark set or taken off; nothing else changes.
pub open spec fn marked(classes: Seq<Seq<char>>, suppressed: bool) -> Seq<Seq<char>> {
    if !suppressed {
        unmarked(classes)
    } else if has_class(classes, NO_FLOATING_OVERLAYS_CSS_CLASS@) {
        classes
    } else {
        classes.push(NO_FLOATING_OVERLAYS_CSS_CLASS@)
    }
}

/// Whether a viewer opted out of floating overlays.
pub fn floating_overlays_suppressed(classes: &Vec<String>) -> (r: bool)
    ensures
        r == has_class(text::views(classes@), NO_FLOATING_OVERLAYS_CSS_CLASS@),
{
    let ghost all = text::views(classes@);
    let mut i: usize = 0;
    while i < classes.len()
        invariant
            i <= classes@.len(),
            all == text::views(classes@),
            forall|j: int| 0 <= j < i ==> all[j] != NO_FLOATING_OVERLAYS_CSS_CLASS@,
        decreases classes@.len() - i,
    {
        if text::same(&classes[i], NO_FLOATING_OVERLAYS_CSS_CLASS) {
            assert(all[i as int] == NO_FLOATING_OVERLAYS_CSS_CLASS@);
            return true;
        }
        i += 1;
    }
    false
}

/// What was set is what is read.
pub proof fn law_suppression_is_read_back(classes: Seq<Seq<char>>, suppressed: bool)
    ensures
        has_class(marked(classes, suppressed), NO_FLOATING_OVERLAYS_CSS_CLASS@) == suppressed,
{
    if suppressed {
        let next = marked(classes, true);
        if !has_class(classes, NO_FLOATING_OVERLAYS_CSS_CLASS@) {
            assert(next[classes.len() as int] == NO_FLOATING_OVERLAYS_CSS_CLASS@);
        }
    } else {
        lemma_unmarked(classes);
    }
}

proof fn lemma_unmarked(classes: Seq<Seq<char>>)
    ensures
        !unmarked(classes).contains(NO_FLOATING_OVERLAYS_CSS_CLASS@),
    decreases classes.len(),
{
    if classes.len() > 0 {
        lemma_unmarked(classes.drop_last());
        let before = unmarked(classes.drop_last());
        let after = unmarked(classes);
        if after.contains(NO_FLOATING_OVERLAYS_CSS_CLASS@) {
            let i = choose|i: int|
                0 <= i < after.len() && after[i] == NO_FLOATING_OVERLAYS_CSS_CLASS@;
            if i < before.len() {
                assert(before[i] == NO_FLOATING_OVERLAYS_CSS_CLASS@);
            }
        }
    }
}

/// A toolbar folds its secondary actions exactly where it does not fit, and unfolds them exactly where
/// it fits with some room to spare; without secondary actions it stays as it is.
pub proof fn law_toolbar_folds_where_it_does_not_fit(available: int, needed: int, collapsed: bool)
    ensures
        collapses(false, false, available, needed) <==> available < needed,
        collapses(false, true, available, needed) <==> available - 48 < needed,
        collapses(true, collapsed, available, needed) == collapsed,
{
}

/// Folded, each action is in exactly one place: the secondary ones in the popover, all others, the
/// button that leads there among them, in the toolbar.
pub proof fn law_folding_parts_the_actions(t: ToolbarOverflow, w: u32)
    requires
        t.wf(),
        t.is_collapsed(),
    ensures
        t.toolbar_children().contains(w) <==> t.full_layout().contains(w)
            && !t.secondary_widgets().contains(w),
        t.popover_children().contains(w) <==> t.secondary_widgets().contains(w),
{
    lemma_without_exactly(t.layout@, widgets_of(t.secondary@), w);
}

proof fn lemma_without_exactly(s: Seq<u32>, gone: Seq<u32>, w: u32)
    ensures
        without(s, gone).contains(w) <==> s.contains(w) && !gone.contains(w),
    decreases s.len(),
{
    if s.len() > 0 {
        let rest = s.drop_last();
        let before = without(rest, gone);
        lemma_without_exactly(rest, gone, w);
        assert(s =~= rest.push(s.last()));
        if without(s, gone).contains(w) {
            let i = choose|i: int| 0 <= i < without(s, gone).len() && without(s, gone)[i] == w;
            if i < before.len() {
                assert(before[i] == w);
                let j = choose|j: int| 0 <= j < rest.len() && rest[j] == w;
                assert(s[j] == w);
            } else {
                assert(s[s.len() - 1] == w);
            }
        }
        if s.contains(w) && !gone.contains(w) {
            let j = choose|j: int| 0 <= j < s.len() && s[j] == w;
            if j < rest.len() {
                assert(rest[j] == w);
                let i = choose|i: int| 0 <= i < before.len() && before[i] == w;
                assert(without(s, gone)[i] == w);
            } else {
                assert(without(s, gone).last() == w);
                assert(without(s, gone)[without(s, gone).len() - 1] == w);
            }
        }
    }
}

/// Taking widgets out leaves the others in their order: a widget that stays comes behind those in front
/// of it.
pub proof fn law_taking_out_keeps_the_order(s: Seq<u32>, w: u32, gone: Seq<u32>)
    ensures
        !gone.contains(w) ==> without(s.push(w), gone) == without(s, gone).push(w),
        gone.contains(w) ==> without(s.push(w), gone) == without(s, gone),
        without(Seq::empty(), gone).len() == 0,
{
    assert(s.push(w).drop_last() =~= s);
}

/// The full toolbar is as wide as it measures; folded, the button's place goes and each action's comes
/// back with the spacing in front of it.
pub proof fn law_full_width_counts_what_is_folded(
    natural: int,
    spacing: int,
    button: int,
    naturals: Seq<i32>,
    next: i32,
)
    ensures
        full_width(natural, false, spacing, button, naturals) == natural,
        full_width(natural, true, spacing, button, Seq::empty()) == natural - button - spacing,
        full_width(natural, true, spacing, button, naturals.push(next)) == full_width(
            natural,
            true,
            spacing,
            button,
            naturals,
        ) + next + spacing,
{
    assert(naturals.push(next).drop_last() =~= naturals);
}

/// A handle sits in the centre over a desktop, and at the end over a page.
pub proof fn law_handle_keeps_out_of_the_way(handle: RevealHandle, r: Align)
    requires
        call_ensures(RevealHandle::halign, (handle,), r),
    ensures
        r == Align::Center <==> handle == RevealHandle::TopCentre,
        r == Align::End <==> handle == RevealHandle::TopTrailing,
{
}

/// A toolbar shows once its session connects, when its handle is used or the focus enters it, as far as
/// it is wanted and the session can use it; it goes when the session ends, when it is no longer wanted,
/// and when the timer finds nobody busy with it. Nothing else shows or hides it.
pub proof fn law_toolbar_shows_while_it_is_wanted(t: ToolbarAutoHide, event: ToolbarEvent)
    ensures
        t.after(event).revealed == (match event {
            ToolbarEvent::SetEnabled(enabled) => enabled && t.revealed,
            ToolbarEvent::ShowBriefly => t.enabled || t.revealed,
            ToolbarEvent::Hide => false,
            ToolbarEvent::HandleClicked
            | ToolbarEvent::HandleEntered
            | ToolbarEvent::FocusEntered => t.revealed || (t.enabled && t.available),
            ToolbarEvent::TimerFired { menu_active } => t.revealed && (t.pointer_in_reveal_button
                || t.pointer_in_toolbar || t.focus_in_toolbar || menu_active),
            _ => t.revealed,
        }),
        t.after(event).enabled == (match event {
            ToolbarEvent::SetEnabled(enabled) => enabled,
            _ => t.enabled,
        }),
        t.after(event).available == (match event {
            ToolbarEvent::SetEnabled(enabled) => enabled && t.available,
            ToolbarEvent::ShowBriefly => t.enabled || t.available,
            ToolbarEvent::Hide => false,
            _ => t.available,
        }),
{
}

/// The pointer and the focus are where they were last seen to go.
pub proof fn law_pointer_is_where_it_went(t: ToolbarAutoHide, event: ToolbarEvent)
    ensures
        t.after(event).pointer_in_toolbar == (match event {
            ToolbarEvent::ToolbarEntered => true,
            ToolbarEvent::ToolbarLeft | ToolbarEvent::SetEnabled(false) => false,
            _ => t.pointer_in_toolbar,
        }),
        t.after(event).pointer_in_reveal_button == (match event {
            ToolbarEvent::HandleEntered => true,
            ToolbarEvent::HandleLeft
            | ToolbarEvent::Hide
            | ToolbarEvent::SetEnabled(false) => false,
            _ => t.pointer_in_reveal_button,
        }),
        t.after(event).focus_in_toolbar == (match event {
            ToolbarEvent::FocusEntered => true,
            ToolbarEvent::FocusLeft | ToolbarEvent::SetEnabled(false) => false,
            _ => t.focus_in_toolbar,
        }),
{
}

/// The timer starts anew when the pointer or the focus leaves, when the toolbar appears, and when it
/// ran out on a toolbar in use; it is taken away when the toolbar is entered, revealed by hand or put
/// away.
pub proof fn law_timer_runs_while_nobody_is_busy(t: ToolbarAutoHide, event: ToolbarEvent)
    ensures
        t.timer_action(event) == TimerAction::Restart <==> (match event {
            ToolbarEvent::HandleLeft | ToolbarEvent::ToolbarLeft | ToolbarEvent::FocusLeft => true,
            ToolbarEvent::ShowBriefly => t.enabled,
            ToolbarEvent::TimerFired { menu_active } => t.pointer_in_reveal_button
                || t.pointer_in_toolbar || t.focus_in_toolbar || menu_active,
            _ => false,
        }),
        t.timer_action(event) == TimerAction::Cancel <==> (match event {
            ToolbarEvent::HandleClicked
            | ToolbarEvent::HandleEntered
            | ToolbarEvent::ToolbarEntered
            | ToolbarEvent::FocusEntered
            | ToolbarEvent::Hide
            | ToolbarEvent::SetEnabled(false) => true,
            _ => false,
        }),
        t.timer_action(event) == TimerAction::Restart ==> t.after(event).timer,
        t.timer_action(event) == TimerAction::Cancel ==> !t.after(event).timer,
        t.timer_action(event) == TimerAction::Keep && !(event is TimerFired) ==> t.after(event).timer
            == t.timer,
        event is TimerFired && t.timer_action(event) == TimerAction::Keep ==> !t.after(event).timer,
{
}

/// Somebody is busy with a toolbar while the pointer is on it or on its handle, while it has the focus
/// and while one of its menus is open.
pub proof fn law_busy_is_pointer_focus_or_menu(t: &ToolbarAutoHide, menu: bool, r: bool)
    requires
        call_ensures(ToolbarAutoHide::interaction_active, (t, menu), r),
    ensures
        r <==> t.pointer_in_reveal_button || t.pointer_in_toolbar || t.focus_in_toolbar || menu,
{
}

/// A toolbar starts out of sight, with nobody busy with it, until its session can use it.
pub proof fn law_toolbar_starts_out_of_sight(t: ToolbarAutoHide)
    requires
        call_ensures(ToolbarAutoHide::attach, (), t),
    ensures
        t.enabled,
        !t.available,
        !t.revealed,
        !t.handle_visible,
        !t.can_target,
        !t.timer,
        !t.pointer_in_reveal_button,
        !t.pointer_in_toolbar,
        !t.focus_in_toolbar,
{
}

/// A menu is open in a widget exactly where the widget is an open menu, or a menu is open in one of its
/// children.
pub proof fn law_menu_is_open_at_any_depth(node: &WidgetNode, r: bool)
    requires
        call_ensures(contains_active_menu, (node,), r),
    ensures
        r <==> node.kind == (WidgetKind::MenuButton { active: true }) || exists|i: int|
            0 <= i < node.children@.len() && has_active_menu(#[trigger] node.children@[i]),
{
    lemma_any_active(node.children@, node.children@.len());
}

proof fn lemma_any_active(nodes: Seq<WidgetNode>, n: nat)
    requires
        n <= nodes.len(),
    ensures
        any_active_menu(nodes, n) <==> exists|i: int|
            0 <= i < n && has_active_menu(#[trigger] nodes[i]),
    decreases n,
{
    if n > 0 {
        lemma_any_active(nodes, (n - 1) as nat);
        if has_active_menu(nodes[n - 1]) {
            assert(has_active_menu(nodes[n - 1]));
        }
    }
}

/// Every button gets its target size, at any depth: a widget adds itself where it is a button, and then
/// what its children add, one after the other.
pub proof fn law_every_button_is_a_target(a: WidgetNode, b: WidgetNode, child: WidgetNode)
    requires
        b.kind == a.kind,
        b.id == a.id,
        b.children@ == a.children@.push(child),
    ensures
        buttons_in(b) == buttons_in(a) + buttons_in(child),
        a.children@.len() == 0 ==> buttons_in(a) == (if a.kind == WidgetKind::Other {
            Seq::empty()
        } else {
            seq![a.id]
        }),
{
    let n = a.children@.len();
    lemma_buttons_among(a.children@, b.children@, n);
    assert(b.children@[n as int] == child);
    assert(buttons_among(b.children@, n + 1) == buttons_among(b.children@, n) + buttons_in(child));
    let own = if a.kind == WidgetKind::Other {
        Seq::empty()
    } else {
        seq![a.id]
    };
    assert(buttons_in(b) =~= buttons_in(a) + buttons_in(child));
    if n == 0 {
        assert(buttons_in(a) =~= own);
    }
}

proof fn lemma_buttons_among(a: Seq<WidgetNode>, b: Seq<WidgetNode>, n: nat)
    requires
        n <= a.len() <= b.len(),
        forall|i: int| 0 <= i < n ==> a[i] == b[i],
    ensures
        buttons_among(a, n) == buttons_among(b, n),
    decreases n,
{
    if n > 0 {
        lemma_buttons_among(a, b, (n - 1) as nat);
    }
}

/// Marking a viewer adds its mark once and leaves every other class in its place; taking the mark off
/// leaves the others as they are.
pub proof fn law_mark_leaves_other_classes_alone(classes: Seq<Seq<char>>, class: Seq<char>)
    requires
        class != NO_FLOATING_OVERLAYS_CSS_CLASS@,
    ensures
        marked(classes, true).contains(class) <==> classes.contains(class),
        marked(classes, false).contains(class) <==> classes.contains(class),
        marked(classes, true).len() <= classes.len() + 1,
        marked(classes, true).take(classes.len() as int) == classes,
        unmarked(classes.push(class)) == unmarked(classes).push(class),
        unmarked(classes.push(NO_FLOATING_OVERLAYS_CSS_CLASS@)) == unmarked(classes),
        NO_FLOATING_OVERLAYS_CSS_CLASS@ == "no-floating-overlays"@,
{
    let mark = NO_FLOATING_OVERLAYS_CSS_CLASS@;
    assert(classes.push(class).drop_last() =~= classes);
    assert(classes.push(mark).drop_last() =~= classes);
    lemma_unmarked_keeps(classes, class);
    let on = marked(classes, true);
    assert(on.take(classes.len() as int) =~= classes);
    if classes.contains(class) {
        let i = choose|i: int| 0 <= i < classes.len() && classes[i] == class;
        assert(on[i] == class);
    }
    if on.contains(class) {
        let i = choose|i: int| 0 <= i < on.len() && on[i] == class;
        if i < classes.len() {
            assert(classes[i] == class);
        }
    }
}

proof fn lemma_unmarked_keeps(classes: Seq<Seq<char>>, class: Seq<char>)
    requires
        class != NO_FLOATING_OVERLAYS_CSS_CLASS@,
    ensures
        unmarked(classes).contains(class) <==> classes.contains(class),
    decreases classes.len(),
{
    if classes.len() > 0 {
        let rest = classes.drop_last();
        let before = unmarked(rest);
        let after = unmarked(classes);
        lemma_unmarked_keeps(rest, class);
        if classes.contains(class) {
            let i = choose|i: int| 0 <= i < classes.len() && classes[i] == class;
            if i < rest.len() {
                assert(rest[i] == class);
                let j = choose|j: int| 0 <= j < before.len() && before[j] == class;
                assert(after[j] == class);
            } else {
                assert(after[after.len() - 1] == class);
            }
        }
        if after.contains(class) {
            let j = choose|j: int| 0 <= j < after.len() && after[j] == class;
            if j < before.len() {
                assert(before[j] == class);
                let i = choose|i: int| 0 <= i < rest.len() && rest[i] == class;
                assert(classes[i] == class);
            } else {
                assert(classes[classes.len() - 1] == class);
            }
        }
    }
}

} // verus!
