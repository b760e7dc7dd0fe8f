//! The backend that is driven over a live socket: the compositor holds two
//! keywords, a comma-joined list of layout identifiers and one of variants,
//! and the first place of each is the active layout.

use crate::compositors::compositor::AdapterError;
use crate::layout::{layouts_view, spec_layout_sequence, spec_variant_sequence, Layout, LayoutView};
use crate::sequence::{promote, spec_promote, spec_without};
use crate::text::{join, lemma_join_split, option_view, spec_join, spec_split, spec_starts_with, split,
    starts_with, strings_view};
use vstd::prelude::*;
use vstd::string::StringExecFns;

verus! {

/// The socket backend.
pub struct Hypr;

/// The values to write to the two keywords.
#[derive(Debug)]
pub struct KeywordUpdate {
    /// The value of the layout keyword.
    pub layouts: String,
    /// The value of the variant keyword.
    pub variants: String,
}

/// The mathematical value of a [`KeywordUpdate`].
pub struct KeywordUpdateView {
    pub layouts: Seq<char>,
    pub variants: Seq<char>,
}

impl View for KeywordUpdate {
    type V = KeywordUpdateView;

    open spec fn view(&self) -> KeywordUpdateView {
        KeywordUpdateView { layouts: self.layouts@, variants: self.variants@ }
    }
}

/// The identifiers of `layouts`, in order.
pub open spec fn spec_identifiers(layouts: Seq<LayoutView>) -> Seq<Seq<char>> {
    Seq::new(layouts.len(), |i: int| layouts[i].layout)
}

/// The variant of `layout`, the empty string where it has none.
pub open spec fn spec_variant_text(layout: LayoutView) -> Seq<char> {
    match layout.variant {
        Some(v) => v,
        None => Seq::empty(),
    }
}

/// The variants of `layouts`, in order, the empty string for a layout without one.
pub open spec fn spec_variants(layouts: Seq<LayoutView>) -> Seq<Seq<char>> {
    Seq::new(layouts.len(), |i: int| spec_variant_text(layouts[i]))
}

/// The keyword values that make `target` the active layout: `target` in
/// front, then the configured layouts other than `target`, in their order;
/// the identifiers of these joined by commas, and their variants likewise.
pub open spec fn spec_keywords(target: LayoutView, configured: Seq<LayoutView>) -> KeywordUpdateView {
    let ordered = spec_promote(configured, target);
    KeywordUpdateView {
        layouts: spec_join(spec_identifiers(ordered), seq![',']),
        variants: spec_join(spec_variants(ordered), seq![',']),
    }
}

/// Where another layout than `target` is configured, the keyword values are
/// the target's part, a comma, and the parts of the others joined by
/// commas. Where none is, they are the target's parts alone.
pub proof fn lemma_keywords(target: LayoutView, configured: Seq<LayoutView>)
    ensures
        ({
            let others = spec_without(configured, target);
            let update = spec_keywords(target, configured);
            &&& others.len() > 0 ==> update.layouts == spec_layout_sequence(
                target,
                spec_identifiers(others),
            )
            &&& others.len() > 0 ==> update.variants == spec_variant_sequence(
                target,
                spec_variants(others),
            )
            &&& others.len() == 0 ==> update.layouts == target.layout
            &&& others.len() == 0 ==> update.variants == spec_variant_text(target)
        }),
{
    let others = spec_without(configured, target);
    let ordered = spec_promote(configured, target);
    let identifiers = spec_identifiers(ordered);
    let variants = spec_variants(ordered);
    assert(identifiers.drop_first() =~= spec_identifiers(others));
    assert(variants.drop_first() =~= spec_variants(others));
    assert(identifiers[0] == target.layout);
    assert(variants[0] == spec_variant_text(target));
}

/// The active layout that the two keyword values name: the first place of
/// each list, with no variant where that place is empty.
pub open spec fn spec_first_layout(layouts: Seq<char>, variants: Seq<char>) -> LayoutView {
    let variant = spec_split(variants, ',')[0];
    LayoutView {
        layout: spec_split(layouts, ',')[0],
        variant: if variant.len() == 0 {
            None
        } else {
            Some(variant)
        },
    }
}

/// The active layout that the two keywords name, where `layouts` and
/// `variants` are their values as far as they are strings. Without a layout
/// value, or with one whose first place is empty, the keywords are
/// malformed; without a variant value the active layout has no variant.
pub open spec fn spec_active_layout(layouts: Option<Seq<char>>, variants: Option<Seq<char>>) -> Result<
    LayoutView,
    AdapterError,
> {
    match layouts {
        None => Err(AdapterError::Malformed),
        Some(lay) => if spec_split(lay, ',')[0].len() == 0 {
            Err(AdapterError::Malformed)
        } else {
            Ok(
                spec_first_layout(
                    lay,
                    match variants {
                        Some(v) => v,
                        None => Seq::empty(),
                    },
                ),
            )
        },
    }
}

impl Hypr {
    /// The keyword values that make `layout_to_set` the active layout among
    /// `config_layouts`.
    pub fn set_layout(layout_to_set: &Layout, config_layouts: &[Layout]) -> (res: KeywordUpdate)
        ensures
            res@ == spec_keywords(layout_to_set@, layouts_view(config_layouts@)),
    {
        let ordered = promote(config_layouts, layout_to_set);
        let mut identifiers: Vec<String> = Vec::new();
        let mut variants: Vec<String> = Vec::new();
        let mut i: usize = 0;
        while i < ordered.len()
            invariant
                i <= ordered@.len(),
                identifiers@.len() == i,
                variants@.len() == i,
                forall|j: int| 0 <= j < i ==> identifiers@[j]@ == ordered@[j]@.layout,
                forall|j: int|
                    0 <= j < i ==> variants@[j]@ == spec_variants(layouts_view(ordered@))[j],
            decreases ordered@.len() - i,
        {
            identifiers.push(ordered[i].layout.clone());
            variants.push(
                match &ordered[i].variant {
                    Some(v) => v.clone(),
                    None => String::new(),
                },
            );
            i += 1;
        }
        proof {
            assert(strings_view(identifiers@) =~= spec_identifiers(layouts_view(ordered@)));
            assert(strings_view(variants@) =~= spec_variants(layouts_view(ordered@)));
            reveal_strlit(",");
            assert(","@ =~= seq![',']);
        }
        KeywordUpdate {
            layouts: join(identifiers.as_slice(), ","),
            variants: join(variants.as_slice(), ","),
        }
    }

    /// The active layout, read from the values of the two keywords.
    ///
    /// `layouts` and `variants` are the keywords' values where they are
    /// strings. Without a layout value, or with one whose first place is
    /// empty, there is no active layout to read; without a variant value the
    /// active layout has no variant.
    pub fn get_first_layout_sequence(layouts: Option<&str>, variants: Option<&str>) -> (res: Result<
        Layout,
        AdapterError,
    >)
        ensures
            match res {
                Ok(l) => spec_active_layout(option_view(layouts), option_view(variants)) == Ok::<
                    LayoutView,
                    AdapterError,
                >(l@),
                Err(e) => spec_active_layout(option_view(layouts), option_view(variants)) == Err::<
                    LayoutView,
                    AdapterError,
                >(e),
            },
    {
        let lay = match layouts {
            Some(lay) => lay,
            None => {
                return Err(AdapterError::Malformed);
            },
        };
        let mut places = split(lay, ',');
        proof {
            lemma_join_split(lay@, ',');
        }
        let first = places.swap_remove(0);
        if first.as_str().is_empty() {
            return Err(AdapterError::Malformed);
        }
        let variant = match variants {
            Some(var) => {
                let mut places = split(var, ',');
                proof {
                    lemma_join_split(var@, ',');
                }
                let v = places.swap_remove(0);
                if v.as_str().is_empty() {
                    None
                } else {
                    Some(v)
                }
            },
            None => {
                proof {
                    lemma_join_split(Seq::<char>::empty(), ',');
                    assert(spec_split(Seq::<char>::empty(), ',')[0].len() == 0);
                }
                None
            },
        };
        Ok(Layout { layout: first, variant })
    }

    /// Whether a write to the keywords went well: a failure of the transport
    /// is a failure of the socket.
    pub fn check(delivered: bool) -> (res: Result<(), AdapterError>)
        ensures
            res == (if delivered {
                Ok::<(), AdapterError>(())
            } else {
                Err::<(), AdapterError>(AdapterError::Ipc)
            }),
    {
        if delivered {
            Ok(())
        } else {
            Err(AdapterError::Ipc)
        }
    }

    /// The value of the border keyword for `color`: `rgba(`, the colour,
    /// and `ee)` for its opacity.
    pub fn change_color(color: &str) -> (res: String)
        ensures
            res@ == "rgba("@ + color@ + "ee)"@,
    {
        let mut res = String::from_str("rgba(");
        res.append(color);
        res.append("ee)");
        res
    }
}

/// What is shown of one workspace.
#[derive(Clone, Copy, Debug, PartialEq, Eq, Structural)]
pub struct WorkspaceState {
    pub id: i32,
    pub windows: u16,
    pub active: bool,
}

/// What an event of the compositor asks for.
#[derive(Clone, Copy, Debug, PartialEq, Eq, Structural)]
pub enum Reaction {
    /// Show the workspaces anew.
    ChangeWorkspace,
    /// Give the border a new colour.
    ChangeColor,
    /// Nothing.
    Ignore,
}

/// The lowest and the highest number of the workspaces that are always shown.
pub const FIRST_WORKSPACE: i32 = 1;

pub const LAST_WORKSPACE: i32 = 5;

/// Whether one of `states` has the number `id`.
pub open spec fn spec_has_id(states: Seq<WorkspaceState>, id: int) -> bool {
    exists|i: int| 0 <= i < states.len() && #[trigger] states[i].id == id
}

/// `states` with an empty, inactive workspace added at the end for each
/// number from the first shown one up to `last` that no workspace has.
pub open spec fn spec_fill(states: Seq<WorkspaceState>, last: int) -> Seq<WorkspaceState>
    decreases last,
{
    if last < FIRST_WORKSPACE {
        states
    } else {
        let before = spec_fill(states, last - 1);
        if spec_has_id(before, last) {
            before
        } else {
            before.push(WorkspaceState { id: last as i32, windows: 0, active: false })
        }
    }
}

/// `sorted` with `x` put behind the last workspace whose number is not
/// higher than that of `x`.
pub open spec fn spec_insert(sorted: Seq<WorkspaceState>, x: WorkspaceState) -> Seq<WorkspaceState>
    decreases sorted.len(),
{
    if sorted.len() == 0 {
        seq![x]
    } else if sorted.last().id <= x.id {
        sorted.push(x)
    } else {
        spec_insert(sorted.drop_last(), x).push(sorted.last())
    }
}

/// `states` in the order of their numbers; workspaces with the same number
/// keep the order they had.
pub open spec fn spec_sort(states: Seq<WorkspaceState>) -> Seq<WorkspaceState>
    decreases states.len(),
{
    if states.len() == 0 {
        Seq::empty()
    } else {
        spec_insert(spec_sort(states.drop_last()), states.last())
    }
}

/// Whether the numbers of `states` never go down.
pub open spec fn spec_sorted(states: Seq<WorkspaceState>) -> bool {
    forall|i: int, j: int| 0 <= i <= j < states.len() ==> states[i].id <= states[j].id
}

/// What an event line asks for: the workspaces are shown anew on an event
/// whose name starts with `workspace`; the border changes its colour on the
/// focus of a window, where the focused window is another than before.
pub open spec fn spec_react(line: Seq<char>, focus_moved: bool) -> Reaction {
    if spec_starts_with(line, "workspace"@) {
        Reaction::ChangeWorkspace
    } else if spec_starts_with(line, "activewindowv2"@) && focus_moved {
        Reaction::ChangeColor
    } else {
        Reaction::Ignore
    }
}

/// Where `x` goes into `sorted`: behind the first `place` workspaces, when
/// those behind that place have higher numbers and the one in front of it
/// has not.
pub proof fn lemma_insert_at(sorted: Seq<WorkspaceState>, x: WorkspaceState, place: int)
    requires
        0 <= place <= sorted.len(),
        forall|i: int| place <= i < sorted.len() ==> sorted[i].id > x.id,
        place > 0 ==> sorted[place - 1].id <= x.id,
    ensures
        spec_insert(sorted, x) == sorted.insert(place, x),
    decreases sorted.len(),
{
    if sorted.len() == 0 {
        assert(sorted.insert(place, x) =~= seq![x]);
    } else if place == sorted.len() {
        assert(sorted.insert(place, x) =~= sorted.push(x));
    } else {
        lemma_insert_at(sorted.drop_last(), x, place);
        assert(sorted.insert(place, x) =~= sorted.drop_last().insert(place, x).push(
            sorted.last(),
        ));
    }
}

/// Inserting into a sorted list gives a sorted list with the same
/// workspaces and the new one.
pub proof fn lemma_insert(sorted: Seq<WorkspaceState>, x: WorkspaceState)
    requires
        spec_sorted(sorted),
    ensures
        spec_sorted(spec_insert(sorted, x)),
        spec_insert(sorted, x).to_multiset() == sorted.to_multiset().insert(x),
        spec_insert(sorted, x).len() == sorted.len() + 1,
    decreases sorted.len(),
{
    broadcast use vstd::seq_lib::group_to_multiset_ensures;

    let res = spec_insert(sorted, x);
    if sorted.len() == 0 {
        assert(res =~= sorted.push(x));
    } else if sorted.last().id <= x.id {
    } else {
        let init = sorted.drop_last();
        let last = sorted.last();
        lemma_insert(init, x);
        let inner = spec_insert(init, x);
        assert(sorted =~= init.push(last));
        assert(inner.to_multiset().insert(last) =~= sorted.to_multiset().insert(x));
        assert forall|i: int, j: int| 0 <= i <= j < res.len() implies res[i].id <= res[j].id by {
            if j == res.len() - 1 && i < j {
                assert(inner.to_multiset().count(inner[i]) > 0);
                if inner[i] != x {
                    assert(init.to_multiset().count(inner[i]) > 0);
                    assert(init.contains(inner[i]));
                    let k = choose|k: int| 0 <= k < init.len() && init[k] == inner[i];
                    assert(sorted[k].id <= sorted[sorted.len() - 1].id);
                }
            }
        }
    }
}

/// A sorted list is in the order of its numbers and holds the workspaces
/// it was made from, each as often as before.
pub proof fn lemma_sort(states: Seq<WorkspaceState>)
    ensures
        spec_sorted(spec_sort(states)),
        spec_sort(states).to_multiset() == states.to_multiset(),
        spec_sort(states).len() == states.len(),
    decreases states.len(),
{
    broadcast use vstd::seq_lib::group_to_multiset_ensures;

    if states.len() > 0 {
        lemma_sort(states.drop_last());
        lemma_insert(spec_sort(states.drop_last()), states.last());
        assert(states =~= states.drop_last().push(states.last()));
    } else {
        assert(states =~= Seq::<WorkspaceState>::empty());
    }
}

/// After filling, every number from the first shown one up to `last` is
/// the number of a workspace, and the workspaces that were there come first.
pub proof fn lemma_fill(states: Seq<WorkspaceState>, last: int)
    requires
        last <= i32::MAX,
    ensures
        forall|id: int| FIRST_WORKSPACE <= id <= last ==> spec_has_id(spec_fill(states, last), id),
        states.len() <= spec_fill(states, last).len(),
        spec_fill(states, last).subrange(0, states.len() as int) == states,
    decreases last,
{
    let filled = spec_fill(states, last);
    if last < FIRST_WORKSPACE {
        assert(filled.subrange(0, states.len() as int) =~= states);
    } else {
        let before = spec_fill(states, last - 1);
        lemma_fill(states, last - 1);
        assert(filled.subrange(0, states.len() as int) =~= before.subrange(
            0,
            states.len() as int,
        ));
        assert forall|id: int| FIRST_WORKSPACE <= id <= last implies spec_has_id(filled, id) by {
            if id < last {
                assert(spec_has_id(before, id));
                let i = choose|i: int| 0 <= i < before.len() && #[trigger] before[i].id == id;
                assert(filled[i].id == id);
            } else if spec_has_id(before, last) {
            } else {
                assert(filled[filled.len() - 1].id == last);
            }
        }
    }
}

impl WorkspaceState {
    /// The state of the workspace number `id`.
    pub fn new(id: i32, windows: u16, active: bool) -> (res: Self)
        ensures
            res == (WorkspaceState { id, windows, active }),
    {
        WorkspaceState { id, windows, active }
    }
}

/// Whether one of `states` has the number `id`.
fn has_id(states: &Vec<WorkspaceState>, id: i32) -> (res: bool)
    ensures
        res == spec_has_id(states@, id as int),
{
    let mut i: usize = 0;
    while i < states.len()
        invariant
            i <= states@.len(),
            forall|j: int| 0 <= j < i ==> states@[j].id != id,
        decreases states@.len() - i,
    {
        if states[i].id == id {
            return true;
        }
        i += 1;
    }
    false
}

/// `states` in the order of their numbers.
fn sort(states: &Vec<WorkspaceState>) -> (res: Vec<WorkspaceState>)
    ensures
        res@ == spec_sort(states@),
{
    let mut res: Vec<WorkspaceState> = Vec::new();
    let mut i: usize = 0;
    proof {
        assert(states@.take(0) =~= Seq::<WorkspaceState>::empty());
    }
    while i < states.len()
        invariant
            i <= states@.len(),
            res@ == spec_sort(states@.take(i as int)),
            res@.len() == i,
            spec_sorted(res@),
        decreases states@.len() - i,
    {
        let x = states[i];
        let mut place: usize = res.len();
        while place > 0 && res[place - 1].id > x.id
            invariant
                place <= res@.len(),
                forall|k: int| place <= k < res@.len() ==> res@[k].id > x.id,
            decreases place,
        {
            place -= 1;
        }
        proof {
            lemma_insert_at(res@, x, place as int);
            lemma_insert(res@, x);
            assert(states@.take(i + 1).drop_last() =~= states@.take(i as int));
        }
        res.insert(place, x);
        i += 1;
    }
    proof {
        assert(states@.take(states@.len() as int) =~= states@);
    }
    res
}

impl Hypr {
    /// The workspaces to show: those that the compositor reports, an empty
    /// one for each number from 1 to 5 that it does not report, all in the
    /// order of their numbers.
    pub fn change_workspace(states: Vec<WorkspaceState>) -> (res: Vec<WorkspaceState>)
        ensures
            res@ == spec_sort(spec_fill(states@, LAST_WORKSPACE as int)),
    {
        let mut states = states;
        let ghost reported = states@;
        let mut id: i32 = FIRST_WORKSPACE;
        while id <= LAST_WORKSPACE
            invariant
                FIRST_WORKSPACE <= id <= LAST_WORKSPACE + 1,
                states@ == spec_fill(reported, id - 1),
            decreases LAST_WORKSPACE + 1 - id,
        {
            if !has_id(&states, id) {
                states.push(WorkspaceState::new(id, 0, false));
            }
            id += 1;
        }
        sort(&states)
    }

    /// What the event line `line` asks for; `focus_moved` says whether the
    /// focused window is another than at the last change of colour.
    pub fn react(line: &str, focus_moved: bool) -> (res: Reaction)
        ensures
            res == spec_react(line@, focus_moved),
    {
        if starts_with(line, "workspace") {
            Reaction::ChangeWorkspace
        } else if starts_with(line, "activewindowv2") && focus_moved {
            Reaction::ChangeColor
        } else {
            Reaction::Ignore
        }
    }

    /// The colour of the border: the stored one, or the default colour
    /// where none is stored.
    pub fn get_color(stored: Option<String>) -> (res: String)
        ensures
            res@ == (match stored {
                Some(color) => color@,
                None => crate::compositors::compositor::spec_default_color(),
            }),
    {
        match stored {
            Some(color) => color,
            None => crate::compositors::compositor::default_color(),
        }
    }
}

} // verus!
