//! The backend whose layout list is fixed in its configuration document.
//! The active layout is changed by asking the compositor, through its
//! command line tool, to step to the next or the previous layout of that list.

pub mod niri_editor;

use crate::components::components::{pair, with, Invocation, InvocationView};
use crate::compositors::compositor::AdapterError;
use crate::compositors::niri::niri_editor::{edits_view, lemma_apply_edits, spec_apply, spec_edits,
    spec_get, spec_set, ConfigValue, Edit, NiriEditor, NodeView, ValueView};
use crate::layout::{layouts_view, Layout, LayoutView};
use crate::search::first_match;
use crate::sequence::{index_of, same_as};
use crate::text::{lemma_join_split, spec_split, split, strings_view};
use vstd::prelude::*;
use vstd::string::StringExecFns;

verus! {

/// The file backend.
pub struct Niri;

/// The way of one step through the layout list.
#[derive(Clone, Copy, Debug, PartialEq, Eq, Structural)]
pub enum Direction {
    /// To the layout behind the active one.
    Next,
    /// To the layout in front of the active one.
    Prev,
}

/// The path of the node that holds the keyboard settings.
pub open spec fn spec_layout_path() -> Seq<Seq<char>> {
    seq!["input"@, "keyboard"@, "xkb"@]
}

/// The first value of a node's entries as text: nothing where the node has
/// no entry, or its first entry holds no text.
pub open spec fn spec_first_text(values: Seq<ValueView>) -> Option<Seq<char>> {
    if values.len() > 0 && values[0] is Text {
        Some(values[0]->Text_0)
    } else {
        None
    }
}

/// The layouts that stand at the same places of `identifiers` and
/// `variants`; an empty variant means none.
pub open spec fn spec_zip(identifiers: Seq<Seq<char>>, variants: Seq<Seq<char>>) -> Seq<LayoutView> {
    Seq::new(
        identifiers.len(),
        |i: int|
            LayoutView {
                layout: identifiers[i],
                variant: if variants[i].len() == 0 {
                    None
                } else {
                    Some(variants[i])
                },
            },
    )
}

/// Whether one of `pieces` is empty.
pub open spec fn spec_has_empty(pieces: Seq<Seq<char>>) -> bool {
    exists|i: int| 0 <= i < pieces.len() && (#[trigger] pieces[i]).len() == 0
}

/// The layout list of a document whose `layout` node holds `layouts` and
/// whose `variant` node, where there is one, holds `variants`.
///
/// The list is malformed where there is no `layout` node, its first entry is
/// no text, one of the identifiers in it is empty (as the only one of an
/// empty text is), the first `variant` entry is no text, the two lists
/// differ in length, or a layout stands twice. A `variant` node that is
/// missing or has no entry stands for a list of empty variants.
pub open spec fn spec_layout_list(
    layouts: Option<Seq<ValueView>>,
    variants: Option<Seq<ValueView>>,
) -> Result<Seq<LayoutView>, AdapterError> {
    let no_variants = variants is None || variants->Some_0.len() == 0;
    if layouts is None || spec_first_text(layouts->Some_0) is None {
        Err(AdapterError::Malformed)
    } else if !no_variants && spec_first_text(variants->Some_0) is None {
        Err(AdapterError::Malformed)
    } else {
        let identifiers = spec_split(spec_first_text(layouts->Some_0)->Some_0, ',');
        let others = if no_variants {
            Seq::new(identifiers.len(), |i: int| Seq::<char>::empty())
        } else {
            spec_split(spec_first_text(variants->Some_0)->Some_0, ',')
        };
        let list = spec_zip(identifiers, others);
        if identifiers.len() != others.len() || spec_has_empty(identifiers)
            || !list.no_duplicates() {
            Err(AdapterError::Malformed)
        } else {
            Ok(list)
        }
    }
}

/// The layout list that the document `nodes` holds: the `layout` and
/// `variant` nodes under the keyboard settings, read by [`spec_layout_list`];
/// not found where the path to the keyboard settings is not there.
pub open spec fn spec_available_layouts(nodes: Seq<NodeView>) -> Result<
    Seq<LayoutView>,
    AdapterError,
> {
    match (
        spec_get(nodes, spec_layout_path(), "layout"@),
        spec_get(nodes, spec_layout_path(), "variant"@),
    ) {
        (Ok(layouts), Ok(variants)) => spec_layout_list(layouts, variants),
        _ => Err(AdapterError::NotFound),
    }
}

/// The layout that the compositor starts with: the first of its list.
pub open spec fn spec_first_available(nodes: Seq<NodeView>) -> Result<LayoutView, AdapterError> {
    match spec_available_layouts(nodes) {
        Ok(list) => Ok(list[0]),
        Err(e) => Err(e),
    }
}

/// The steps that lead from `current` to `target` through `available`: none
/// where the two are the same layout; else as many as their places differ
/// by, forwards where `target` stands behind `current` and backwards where
/// it stands in front. The walk never wraps round the ends of the list.
pub open spec fn spec_steps(target: LayoutView, current: LayoutView, available: Seq<LayoutView>) -> Result<
    Seq<Direction>,
    AdapterError,
> {
    let s = first_match(available, same_as(target));
    let c = first_match(available, same_as(current));
    if current == target {
        Ok(Seq::empty())
    } else if !available.contains(target) || !available.contains(current) {
        Err(AdapterError::NotFound)
    } else if c < s {
        Ok(Seq::new((s - c) as nat, |i: int| Direction::Next))
    } else {
        Ok(Seq::new((c - s) as nat, |i: int| Direction::Prev))
    }
}

/// Whether one of `layouts` stands twice.
fn has_duplicates(layouts: &Vec<Layout>) -> (res: bool)
    ensures
        res == !layouts_view(layouts@).no_duplicates(),
{
    let ghost views = layouts_view(layouts@);
    let mut i: usize = 0;
    while i < layouts.len()
        invariant
            i <= layouts@.len(),
            views == layouts_view(layouts@),
            forall|a: int, b: int| 0 <= a < b < i ==> views[a] != views[b],
        decreases layouts@.len() - i,
    {
        let mut j: usize = 0;
        while j < i
            invariant
                j <= i < layouts@.len(),
                views == layouts_view(layouts@),
                forall|a: int| 0 <= a < j ==> views[a] != views[i as int],
            decreases i - j,
        {
            if layouts[j] == layouts[i] {
                assert(views[j as int] == views[i as int]);
                return true;
            }
            j += 1;
        }
        i += 1;
    }
    false
}

/// Whether one of `pieces` is empty.
fn has_empty(pieces: &Vec<String>) -> (res: bool)
    ensures
        res == spec_has_empty(strings_view(pieces@)),
{
    let mut i: usize = 0;
    while i < pieces.len()
        invariant
            i <= pieces@.len(),
            forall|j: int| 0 <= j < i ==> (#[trigger] strings_view(pieces@)[j]).len() > 0,
        decreases pieces@.len() - i,
    {
        if pieces[i].as_str().is_empty() {
            assert(strings_view(pieces@)[i as int].len() == 0);
            return true;
        }
        i += 1;
    }
    false
}

/// The path of the node that holds the keyboard settings.
fn layout_path() -> (res: Vec<String>)
    ensures
        strings_view(res@) == spec_layout_path(),
{
    let mut res: Vec<String> = Vec::new();
    res.push(String::from_str("input"));
    res.push(String::from_str("keyboard"));
    res.push(String::from_str("xkb"));
    proof {
        assert(strings_view(res@) =~= spec_layout_path());
    }
    res
}

/// The first value of `values` as text.
fn first_text(values: &Vec<ConfigValue>) -> (res: Option<&str>)
    ensures
        match res {
            Some(s) => spec_first_text(niri_editor::values_view(values@)) == Some(s@),
            None => spec_first_text(niri_editor::values_view(values@)) is None,
        },
{
    if values.len() == 0 {
        None
    } else {
        values[0].as_string()
    }
}

impl Niri {
    /// The layouts that the compositor cycles through, in their order, as
    /// the configuration document gives them.
    pub fn get_available_layouts(document: &NiriEditor) -> (res: Result<Vec<Layout>, AdapterError>)
        ensures
            match res {
                Ok(list) => spec_available_layouts(document@) == Ok::<
                    Seq<LayoutView>,
                    AdapterError,
                >(layouts_view(list@)),
                Err(e) => spec_available_layouts(document@) == Err::<Seq<LayoutView>, AdapterError>(
                    e,
                ),
            },
    {
        let path = layout_path();
        let layouts = match document.get(path.as_slice(), &String::from_str("layout")) {
            Ok(values) => values,
            Err(_) => {
                return Err(AdapterError::NotFound);
            },
        };
        let variants = match document.get(path.as_slice(), &String::from_str("variant")) {
            Ok(values) => values,
            Err(_) => {
                return Err(AdapterError::NotFound);
            },
        };
        Self::layout_list(layouts, variants)
    }

    /// The layout list that the entry values of the `layout` node and of the
    /// `variant` node stand for.
    pub fn layout_list(layouts: Option<Vec<ConfigValue>>, variants: Option<Vec<ConfigValue>>) -> (res:
        Result<Vec<Layout>, AdapterError>)
        ensures
            match res {
                Ok(list) => spec_layout_list(
                    option_values_view(layouts),
                    option_values_view(variants),
                ) == Ok::<Seq<LayoutView>, AdapterError>(layouts_view(list@)),
                Err(e) => spec_layout_list(option_values_view(layouts), option_values_view(variants))
                    == Err::<Seq<LayoutView>, AdapterError>(e),
            },
    {
        let layout_values = match &layouts {
            Some(values) => values,
            None => {
                return Err(AdapterError::Malformed);
            },
        };
        let text = match first_text(layout_values) {
            Some(text) => text,
            None => {
                return Err(AdapterError::Malformed);
            },
        };
        let identifiers = split(text, ',');
        let others: Vec<String> = match &variants {
            Some(values) if values.len() > 0 => {
                match first_text(values) {
                    Some(text) => split(text, ','),
                    None => {
                        return Err(AdapterError::Malformed);
                    },
                }
            },
            _ => {
                let mut empty: Vec<String> = Vec::new();
                while empty.len() < identifiers.len()
                    invariant
                        empty@.len() <= identifiers@.len(),
                        forall|j: int| 0 <= j < empty@.len() ==> empty@[j]@ == Seq::<char>::empty(),
                    decreases identifiers@.len() - empty@.len(),
                {
                    empty.push(String::new());
                }
                proof {
                    assert(strings_view(empty@) =~= Seq::new(
                        strings_view(identifiers@).len(),
                        |i: int| Seq::<char>::empty(),
                    ));
                }
                empty
            },
        };
        if identifiers.len() != others.len() || has_empty(&identifiers) {
            return Err(AdapterError::Malformed);
        }
        let mut list: Vec<Layout> = Vec::new();
        let mut i: usize = 0;
        while i < identifiers.len()
            invariant
                i <= identifiers@.len(),
                identifiers@.len() == others@.len(),
                list@.len() == i,
                forall|j: int|
                    0 <= j < i ==> list@[j]@ == spec_zip(
                        strings_view(identifiers@),
                        strings_view(others@),
                    )[j],
            decreases identifiers@.len() - i,
        {
            let variant = if others[i].as_str().is_empty() {
                None
            } else {
                Some(others[i].clone())
            };
            list.push(Layout { layout: identifiers[i].clone(), variant });
            i += 1;
        }
        proof {
            assert(layouts_view(list@) =~= spec_zip(
                strings_view(identifiers@),
                strings_view(others@),
            ));
        }
        if has_duplicates(&list) {
            return Err(AdapterError::Malformed);
        }
        Ok(list)
    }

    /// The steps to ask of the compositor so that `layout_to_set` becomes
    /// the active layout, where `current_layout` is the active one now and
    /// `available_layouts` the list that the compositor walks.
    pub fn set_layout(
        layout_to_set: &Layout,
        available_layouts: &[Layout],
        current_layout: &Layout,
    ) -> (res: Result<Vec<Direction>, AdapterError>)
        ensures
            match res {
                Ok(steps) => spec_steps(
                    layout_to_set@,
                    current_layout@,
                    layouts_view(available_layouts@),
                ) == Ok::<Seq<Direction>, AdapterError>(steps@),
                Err(e) => spec_steps(
                    layout_to_set@,
                    current_layout@,
                    layouts_view(available_layouts@),
                ) == Err::<Seq<Direction>, AdapterError>(e),
            },
    {
        let mut steps: Vec<Direction> = Vec::new();
        if *current_layout == *layout_to_set {
            proof {
                assert(steps@ =~= Seq::<Direction>::empty());
            }
            return Ok(steps);
        }
        let (s, c) = match (
            index_of(available_layouts, layout_to_set),
            index_of(available_layouts, current_layout),
        ) {
            (Some(s), Some(c)) => (s, c),
            _ => {
                return Err(AdapterError::NotFound);
            },
        };
        proof {
            let v = layouts_view(available_layouts@);
            crate::search::lemma_first_match(v, same_as(layout_to_set@));
            crate::search::lemma_first_match(v, same_as(current_layout@));
            assert(v.contains(v[s as int]));
            assert(v.contains(v[c as int]));
        }
        let (direction, count) = if c < s {
            (Direction::Next, s - c)
        } else {
            (Direction::Prev, c - s)
        };
        while steps.len() < count
            invariant
                steps@.len() <= count,
                forall|j: int| 0 <= j < steps@.len() ==> steps@[j] == direction,
            decreases count - steps@.len(),
        {
            steps.push(direction);
        }
        proof {
            if c < s {
                assert(steps@ =~= Seq::new((s - c) as nat, |i: int| Direction::Next));
            } else {
                assert(steps@ =~= Seq::new((c - s) as nat, |i: int| Direction::Prev));
            }
        }
        Ok(steps)
    }

    /// The layout that the compositor starts with: the first of its list.
    pub fn get_first_layout_sequence(document: &NiriEditor) -> (res: Result<Layout, AdapterError>)
        ensures
            match res {
                Ok(l) => spec_first_available(document@) == Ok::<LayoutView, AdapterError>(l@),
                Err(e) => spec_first_available(document@) == Err::<LayoutView, AdapterError>(e),
            },
    {
        let mut list = Self::get_available_layouts(document)?;
        proof {
            lemma_list_not_empty(document@);
        }
        Ok(list.swap_remove(0))
    }
}

/// The view of the entry values of a node that may be missing.
pub open spec fn option_values_view(values: Option<Vec<ConfigValue>>) -> Option<Seq<ValueView>> {
    match values {
        Some(v) => Some(niri_editor::values_view(v@)),
        None => None,
    }
}

/// The walk from `current` to `target` takes as many steps as their places
/// in the list differ by, all in one direction, and so fewer steps than the
/// list has layouts: it never goes round the ends of the list.
pub proof fn lemma_steps_never_wrap(target: LayoutView, current: LayoutView, available: Seq<LayoutView>)
    requires
        spec_steps(target, current, available) is Ok,
    ensures
        ({
            let steps = spec_steps(target, current, available)->Ok_0;
            let s = first_match(available, same_as(target));
            let c = first_match(available, same_as(current));
            &&& current != target ==> 0 <= s < available.len() && 0 <= c < available.len()
            &&& current != target ==> steps.len() == (if c < s {
                s - c
            } else {
                c - s
            })
            &&& forall|i: int|
                0 <= i < steps.len() ==> steps[i] == (if c < s {
                    Direction::Next
                } else {
                    Direction::Prev
                })
            &&& steps.len() == 0 || steps.len() < available.len()
        }),
{
    crate::search::lemma_first_match(available, same_as(target));
    crate::search::lemma_first_match(available, same_as(current));
    if current != target {
        let i = choose|i: int| 0 <= i < available.len() && available[i] == target;
        assert(same_as(target)(available[i]));
        let j = choose|j: int| 0 <= j < available.len() && available[j] == current;
        assert(same_as(current)(available[j]));
    }
}

/// A layout list that is not malformed holds at least one layout, and each
/// of its layouts has an identifier.
pub proof fn lemma_list_not_empty(nodes: Seq<NodeView>)
    ensures
        spec_available_layouts(nodes) matches Ok(list) ==> list.len() > 0 && forall|i: int|
            0 <= i < list.len() ==> (#[trigger] list[i]).layout.len() > 0,
{
    match (
        spec_get(nodes, spec_layout_path(), "layout"@),
        spec_get(nodes, spec_layout_path(), "variant"@),
    ) {
        (Ok(layouts), Ok(variants)) => {
            if spec_layout_list(layouts, variants) is Ok {
                lemma_join_split(spec_first_text(layouts->Some_0)->Some_0, ',');
            }
        },
        _ => {},
    }
}

/// The word that the compositor's tool takes for `direction`.
pub open spec fn spec_direction_word(direction: Direction) -> Seq<char> {
    match direction {
        Direction::Next => "next"@,
        Direction::Prev => "prev"@,
    }
}

/// The call of the compositor's tool that asks for one step.
pub open spec fn spec_switch_call(direction: Direction) -> InvocationView {
    InvocationView {
        program: "niri"@,
        args: seq!["msg"@, "action"@, "switch-layout"@, spec_direction_word(direction)],
    }
}

/// The document after the colour of the focus ring is set to `color`: the
/// node `active-color` under `layout` and `focus-ring` holds a hash sign
/// and the colour.
pub open spec fn spec_change_color(nodes: Seq<NodeView>, color: Seq<char>) -> Seq<NodeView> {
    spec_set(
        nodes,
        seq!["layout"@, "focus-ring"@],
        "active-color"@,
        seq![ValueView::Text("#"@ + color)],
    )
}

impl Niri {
    /// The call of the compositor's tool that asks for one step.
    pub fn change_layout(direction: Direction) -> (res: Invocation)
        ensures
            res@ == spec_switch_call(direction),
    {
        let word = match direction {
            Direction::Next => "next",
            Direction::Prev => "prev",
        };
        let args = with(with(pair("msg", "action"), "switch-layout"), word);
        proof {
            assert(strings_view(args@) =~= seq![
                "msg"@,
                "action"@,
                "switch-layout"@,
                spec_direction_word(direction),
            ]);
        }
        Invocation::new("niri", args)
    }

    /// Whether a step went well: the tool then reports no error.
    pub fn check(errors: &[u8]) -> (res: Result<(), AdapterError>)
        ensures
            res == (if errors@.len() == 0 {
                Ok::<(), AdapterError>(())
            } else {
                Err::<(), AdapterError>(AdapterError::CliFailure)
            }),
    {
        if errors.len() == 0 {
            Ok(())
        } else {
            Err(AdapterError::CliFailure)
        }
    }

    /// The steps that set the colour of the focus ring in `document` to
    /// `color`, for a holder of the document in another form: taken on the
    /// document, they leave what [`Niri::change_color`] leaves.
    pub fn color_edits(document: &NiriEditor, color: &str) -> (res: Vec<Edit>)
        ensures
            edits_view(res@) == spec_edits(
                document@,
                seq!["layout"@, "focus-ring"@],
                "active-color"@,
                seq![ValueView::Text("#"@ + color@)],
            ),
            spec_apply(document@, edits_view(res@)) == spec_change_color(document@, color@),
    {
        let path = pair("layout", "focus-ring");
        let mut text = String::from_str("#");
        text.append(color);
        let mut value: Vec<ConfigValue> = Vec::new();
        value.push(ConfigValue::Text(text));
        proof {
            assert(niri_editor::values_view(value@) =~= seq![ValueView::Text("#"@ + color@)]);
            lemma_apply_edits(
                document@,
                seq!["layout"@, "focus-ring"@],
                "active-color"@,
                seq![ValueView::Text("#"@ + color@)],
            );
        }
        document.edits(path.as_slice(), &String::from_str("active-color"), value)
    }

    /// Sets the colour of the focus ring in `document` to `color`.
    pub fn change_color(document: &mut NiriEditor, color: &str)
        ensures
            final(document)@ == spec_change_color(old(document)@, color@),
    {
        let path = pair("layout", "focus-ring");
        let mut text = String::from_str("#");
        text.append(color);
        let mut value: Vec<ConfigValue> = Vec::new();
        value.push(ConfigValue::Text(text));
        proof {
            assert(niri_editor::values_view(value@) =~= seq![ValueView::Text("#"@ + color@)]);
        }
        document.set(path.as_slice(), &String::from_str("active-color"), value);
    }
}

} // verus!
