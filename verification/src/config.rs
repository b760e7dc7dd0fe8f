//! The coordinator of layout requests. It holds the configured layouts and
//! the kind of the compositor, and turns a request, together with what the
//! session holds at that moment, into the list of things to do.
//!
//! Nothing here touches the outside world: a request gives a plan, a list
//! of [`Action`]s to carry out in order, stopping at the first that fails.

use crate::compositors::compositor::AdapterError;
use crate::compositors::hypr::{spec_active_layout, spec_keywords, Hypr, KeywordUpdate,
    KeywordUpdateView};
use crate::compositors::niri::niri_editor::{NiriEditor, NodeView};
use crate::compositors::niri::{spec_available_layouts, spec_first_available, spec_steps, Direction,
    Niri};
use crate::layout::{layouts_view, spec_parse, spec_view_update, Layout, LayoutOp, LayoutView,
    ParseError, ViewUpdate, ViewUpdateView};
use crate::logger::{read_record, spec_read_record, spec_write_record, write_record, StoreError};
use crate::sequence::{contains, parse_lenient, promote, spec_canonical_all, spec_parse_lenient,
    spec_promote, spec_promote_all, spec_without, to_strings, without};
use crate::text::option_view;
use vstd::prelude::*;

verus! {

/// The two compositors that are supported.
#[derive(Clone, Copy, Debug, PartialEq, Eq, Structural)]
pub enum CompositorType {
    /// The compositor that is driven over its socket.
    Hyprland,
    /// The compositor whose layout list is fixed in its configuration document.
    Niri,
}

/// No compositor was found running.
#[derive(Clone, Copy, Debug, PartialEq, Eq, Structural)]
pub struct NoCompositor;

/// What is shown of the compositor's state.
#[derive(Debug)]
pub struct CurrentState {
    pub color: String,
}

/// The configuration: the layouts to choose from, and the compositor.
#[derive(Debug)]
pub struct Config {
    pub layouts: Vec<Layout>,
    pub compositor_type: CompositorType,
}

/// The mathematical value of a [`Config`].
pub struct ConfigView {
    pub layouts: Seq<LayoutView>,
    pub compositor_type: CompositorType,
}

/// What has to be read of the session before a layout request is planned.
#[derive(Clone, Copy, Debug, PartialEq, Eq, Structural)]
pub struct Reads {
    /// The stored sequence of recently used layouts.
    pub store: bool,
    /// The configuration document of the file backend.
    pub document: bool,
}

/// Why a layout request was not carried out.
#[derive(Clone, Copy, Debug, PartialEq, Eq, Structural)]
pub enum LayoutError {
    /// The requested string is no layout.
    Parse(ParseError),
    /// The requested layout is not among the configured ones.
    NotConfigured,
    /// The backend cannot make the change.
    Adapter(AdapterError),
    /// The sequence of recently used layouts cannot be read or written.
    Store(StoreError),
}

/// One thing to do for a layout request.
#[derive(Debug)]
pub enum Action {
    /// Write the two keywords of the socket backend.
    SetKeywords(KeywordUpdate),
    /// Ask the file backend's compositor for one step through its layout list.
    SwitchLayout(Direction),
    /// Tell the status view the new selection.
    SendToView(ViewUpdate),
    /// Overwrite the stored sequence of recently used layouts with `record`,
    /// which holds `sequence`.
    Overwrite { sequence: Vec<Layout>, record: Vec<u8> },
    /// Tell the user that the request is not supported.
    NotSupported,
}

/// The mathematical value of an [`Action`].
pub enum ActionView {
    SetKeywords(KeywordUpdateView),
    SwitchLayout(Direction),
    SendToView(ViewUpdateView),
    Overwrite { sequence: Seq<LayoutView>, record: Seq<u8> },
    NotSupported,
}

/// The mathematical value of a [`LayoutOp`].
pub enum LayoutOpView {
    SetTo { layout: Seq<char> },
    Switch,
    Reset,
}

impl View for Config {
    type V = ConfigView;

    open spec fn view(&self) -> ConfigView {
        ConfigView { layouts: layouts_view(self.layouts@), compositor_type: self.compositor_type }
    }
}

impl View for Action {
    type V = ActionView;

    open spec fn view(&self) -> ActionView {
        match self {
            Action::SetKeywords(update) => ActionView::SetKeywords(update@),
            Action::SwitchLayout(direction) => ActionView::SwitchLayout(*direction),
            Action::SendToView(update) => ActionView::SendToView(update@),
            Action::Overwrite { sequence, record } => ActionView::Overwrite {
                sequence: layouts_view(sequence@),
                record: record@,
            },
            Action::NotSupported => ActionView::NotSupported,
        }
    }
}

impl View for LayoutOp {
    type V = LayoutOpView;

    open spec fn view(&self) -> LayoutOpView {
        match self {
            LayoutOp::SetTo { layout } => LayoutOpView::SetTo { layout: layout@ },
            LayoutOp::Switch => LayoutOpView::Switch,
            LayoutOp::Reset => LayoutOpView::Reset,
        }
    }
}

/// The views of a list of actions.
pub open spec fn actions_view(actions: Seq<Action>) -> Seq<ActionView> {
    Seq::new(actions.len(), |i: int| actions[i]@)
}

/// `target` without its variant.
pub open spec fn spec_bare(target: LayoutView) -> LayoutView {
    LayoutView { layout: target.layout, variant: None }
}

/// The sequence of recently used layouts that the stored state stands for:
/// empty where nothing is stored; else the layouts that the strings of the
/// last record parse to, those that do not parse being passed over.
pub open spec fn spec_stored_sequence(stored: Option<Seq<char>>) -> Result<
    Seq<LayoutView>,
    StoreError,
> {
    match stored {
        None => Ok(Seq::empty()),
        Some(content) => match spec_read_record(content) {
            Ok(entries) => Ok(spec_parse_lenient(entries)),
            Err(e) => Err(e),
        },
    }
}

/// The writes to the socket backend's keywords that make `target` the
/// active layout while `current` is.
///
/// Where one of the two has a variant and the other has none, `target`
/// without its variant is written first: the compositor does not survive a
/// direct change between the two kinds. Otherwise `target` is written directly.
pub open spec fn spec_keyword_plan(
    target: LayoutView,
    current: LayoutView,
    configured: Seq<LayoutView>,
) -> Seq<ActionView> {
    if (target.variant is Some) != (current.variant is Some) {
        seq![
            ActionView::SetKeywords(spec_keywords(spec_bare(target), configured)),
            ActionView::SetKeywords(spec_keywords(target, configured)),
        ]
    } else {
        seq![ActionView::SetKeywords(spec_keywords(target, configured))]
    }
}

/// The steps to ask of the file backend's compositor, as actions.
pub open spec fn spec_step_plan(steps: Seq<Direction>) -> Seq<ActionView> {
    Seq::new(steps.len(), |i: int| ActionView::SwitchLayout(steps[i]))
}

/// What the backend of `config` is asked to do so that `target` becomes the
/// active layout while `current` is; `document` is the configuration
/// document of the file backend.
pub open spec fn spec_set_layout(
    config: ConfigView,
    target: LayoutView,
    current: LayoutView,
    document: Seq<NodeView>,
) -> Result<Seq<ActionView>, AdapterError> {
    match config.compositor_type {
        CompositorType::Hyprland => Ok(spec_keyword_plan(target, current, config.layouts)),
        CompositorType::Niri => match spec_available_layouts(document) {
            Err(e) => Err(e),
            Ok(available) => match spec_steps(target, current, available) {
                Err(e) => Err(e),
                Ok(steps) => Ok(spec_step_plan(steps)),
            },
        },
    }
}

/// The compositor's active layout: for the socket backend the one that its
/// two keywords name, for the file backend the first of its list.
pub open spec fn spec_current_layout(
    kind: CompositorType,
    layouts: Option<Seq<char>>,
    variants: Option<Seq<char>>,
    document: Seq<NodeView>,
) -> Result<LayoutView, AdapterError> {
    match kind {
        CompositorType::Hyprland => spec_active_layout(layouts, variants),
        CompositorType::Niri => spec_first_available(document),
    }
}

/// The overwrite that stores `sequence`.
pub open spec fn spec_overwrite(sequence: Seq<LayoutView>) -> Result<ActionView, StoreError> {
    match spec_write_record(spec_canonical_all(sequence)) {
        Ok(record) => Ok(ActionView::Overwrite { sequence, record }),
        Err(e) => Err(e),
    }
}

/// The plan that makes `target` the active layout: the backend's part, for
/// which the first layout of `sequence` counts as the active one; then the
/// status view is told; then `sequence` with `target` promoted is stored.
pub open spec fn spec_select(
    config: ConfigView,
    target: LayoutView,
    sequence: Seq<LayoutView>,
    document: Seq<NodeView>,
) -> Result<Seq<ActionView>, LayoutError> {
    if sequence.len() == 0 {
        Err(LayoutError::Adapter(AdapterError::NotFound))
    } else {
        match spec_set_layout(config, target, sequence[0], document) {
            Err(e) => Err(LayoutError::Adapter(e)),
            Ok(plan) => match spec_overwrite(spec_promote(sequence, target)) {
                Err(e) => Err(LayoutError::Store(e)),
                Ok(overwrite) => Ok(
                    plan + seq![
                        ActionView::SendToView(spec_view_update(config.layouts, target)),
                        overwrite,
                    ],
                ),
            },
        }
    }
}

/// The plan for a switch: nothing to do where `sequence` has fewer than two
/// layouts; else its second layout is selected.
pub open spec fn spec_switch(config: ConfigView, sequence: Seq<LayoutView>, document: Seq<NodeView>) -> Result<
    Seq<ActionView>,
    LayoutError,
> {
    if sequence.len() < 2 {
        Ok(Seq::empty())
    } else {
        spec_select(config, sequence[1], sequence, document)
    }
}

/// The plan for a layout request.
///
/// - Set: the string must parse, and the layout must be one of the
///   configured ones; it is then selected. A request that fails this test
///   has no plan: nothing is asked of the backend, shown or stored.
/// - Switch: see [`spec_switch`].
/// - Reset: not supported; the user is told so and nothing else happens.
pub open spec fn spec_change_layout(
    config: ConfigView,
    operation: LayoutOpView,
    stored: Option<Seq<char>>,
    document: Seq<NodeView>,
) -> Result<Seq<ActionView>, LayoutError> {
    match operation {
        LayoutOpView::SetTo { layout } => match spec_parse(layout) {
            Err(e) => Err(LayoutError::Parse(e)),
            Ok(target) => if !config.layouts.contains(target) {
                Err(LayoutError::NotConfigured)
            } else {
                match spec_stored_sequence(stored) {
                    Err(e) => Err(LayoutError::Store(e)),
                    Ok(sequence) => spec_select(config, target, sequence, document),
                }
            },
        },
        LayoutOpView::Switch => match spec_stored_sequence(stored) {
            Err(e) => Err(LayoutError::Store(e)),
            Ok(sequence) => spec_switch(config, sequence, document),
        },
        LayoutOpView::Reset => Ok(seq![ActionView::NotSupported]),
    }
}

/// What a layout request needs to be read, where the request can be planned
/// at all. A Set is tested first: its string must parse to a configured
/// layout. A Set or a Switch then needs the stored sequence, and with the
/// file backend the document; a Reset needs nothing.
pub open spec fn spec_reads(config: ConfigView, operation: LayoutOpView) -> Result<Reads, LayoutError> {
    let all = Reads { store: true, document: config.compositor_type == CompositorType::Niri };
    match operation {
        LayoutOpView::SetTo { layout } => match spec_parse(layout) {
            Err(e) => Err(LayoutError::Parse(e)),
            Ok(target) => if !config.layouts.contains(target) {
                Err(LayoutError::NotConfigured)
            } else {
                Ok(all)
            },
        },
        LayoutOpView::Switch => Ok(all),
        LayoutOpView::Reset => Ok(Reads { store: false, document: false }),
    }
}

/// The plan that brings the compositor in line with the stored sequence
/// when the session starts: nothing where the compositor's active layout
/// `current` is the first of the sequence; else the backend is asked to
/// make the first of the sequence the active layout.
pub open spec fn spec_synchronize(
    config: ConfigView,
    stored: Option<Seq<char>>,
    current: LayoutView,
    document: Seq<NodeView>,
) -> Result<Seq<ActionView>, LayoutError> {
    match spec_stored_sequence(stored) {
        Err(e) => Err(LayoutError::Store(e)),
        Ok(sequence) => if sequence.len() == 0 {
            Err(LayoutError::Adapter(AdapterError::NotFound))
        } else if sequence[0] == current {
            Ok(Seq::empty())
        } else {
            match spec_set_layout(config, sequence[0], current, document) {
                Err(e) => Err(LayoutError::Adapter(e)),
                Ok(plan) => Ok(plan),
            }
        },
    }
}

/// A request to set a layout that is not configured is rejected whatever
/// the session holds, and so has no plan: nothing is asked of the backend,
/// nothing is shown, and the stored sequence is left as it is.
pub proof fn lemma_unconfigured_is_rejected(
    config: ConfigView,
    layout: Seq<char>,
    stored: Option<Seq<char>>,
    document: Seq<NodeView>,
)
    requires
        spec_parse(layout) is Ok,
        !config.layouts.contains(spec_parse(layout)->Ok_0),
    ensures
        spec_change_layout(config, LayoutOpView::SetTo { layout }, stored, document) == Err::<
            Seq<ActionView>,
            LayoutError,
        >(LayoutError::NotConfigured),
{
}

/// A request that fails its first test fails in the same way whatever the
/// session holds; and what a request does not need to be read has no part
/// in its plan.
pub proof fn lemma_reads(
    config: ConfigView,
    operation: LayoutOpView,
    stored: Option<Seq<char>>,
    document: Seq<NodeView>,
)
    ensures
        spec_reads(config, operation) matches Err(e) ==> spec_change_layout(
            config,
            operation,
            stored,
            document,
        ) == Err::<Seq<ActionView>, LayoutError>(e),
        spec_reads(config, operation) matches Ok(reads) && !reads.store ==> spec_change_layout(
            config,
            operation,
            stored,
            document,
        ) == spec_change_layout(config, operation, None, document),
        spec_reads(config, operation) matches Ok(reads) && !reads.document ==> spec_change_layout(
            config,
            operation,
            stored,
            document,
        ) == spec_change_layout(config, operation, stored, Seq::empty()),
{
}

/// The writes to the keywords end with the target itself; where there are
/// two, the first is the target without its variant, and there are two
/// exactly when one of target and current layout has a variant and the
/// other has none.
pub proof fn lemma_keyword_plan(target: LayoutView, current: LayoutView, configured: Seq<LayoutView>)
    ensures
        ({
            let plan = spec_keyword_plan(target, current, configured);
            let changes = (target.variant is Some) != (current.variant is Some);
            &&& plan.len() == (if changes {
                2nat
            } else {
                1nat
            })
            &&& plan.last() == ActionView::SetKeywords(spec_keywords(target, configured))
            &&& changes ==> plan[0] == ActionView::SetKeywords(
                spec_keywords(spec_bare(target), configured),
            )
        }),
{
}

/// A plan that selects a layout ends with the view being told of it and
/// with an overwrite of the stored sequence: the layout stands first in
/// what is stored, the other layouts follow in the order they had, and a
/// sequence that held no layout twice still holds none twice.
pub proof fn lemma_select_stores_promoted(
    config: ConfigView,
    target: LayoutView,
    sequence: Seq<LayoutView>,
    document: Seq<NodeView>,
)
    requires
        spec_select(config, target, sequence, document) is Ok,
    ensures
        ({
            let plan = spec_select(config, target, sequence, document)->Ok_0;
            &&& plan.len() >= 2
            &&& plan[plan.len() - 2] == ActionView::SendToView(
                spec_view_update(config.layouts, target),
            )
            &&& plan.last() matches ActionView::Overwrite { sequence: kept, record }
            &&& kept == spec_promote(sequence, target)
            &&& kept[0] == target
            &&& kept.drop_first() == spec_without(sequence, target)
            &&& sequence.no_duplicates() ==> kept.no_duplicates()
        }),
{
    crate::sequence::lemma_promote(sequence, target);
}

impl Clone for Config {
    fn clone(&self) -> (res: Self)
        ensures
            res@ == self@,
    {
        let mut layouts: Vec<Layout> = Vec::new();
        let mut i: usize = 0;
        while i < self.layouts.len()
            invariant
                i <= self.layouts@.len(),
                layouts@.len() == i,
                forall|j: int| 0 <= j < i ==> layouts@[j]@ == self.layouts@[j]@,
            decreases self.layouts@.len() - i,
        {
            layouts.push(self.layouts[i].clone());
            i += 1;
        }
        proof {
            assert(layouts_view(layouts@) =~= layouts_view(self.layouts@));
        }
        Config { layouts, compositor_type: self.compositor_type }
    }
}

impl CompositorType {
    /// The compositor that is running: the socket one where it runs, else
    /// the file one where that runs.
    pub fn get_running_compositor_type(hyprland_running: bool, niri_running: bool) -> (res: Result<
        CompositorType,
        NoCompositor,
    >)
        ensures
            res == (if hyprland_running {
                Ok::<CompositorType, NoCompositor>(CompositorType::Hyprland)
            } else if niri_running {
                Ok::<CompositorType, NoCompositor>(CompositorType::Niri)
            } else {
                Err::<CompositorType, NoCompositor>(NoCompositor)
            }),
    {
        if hyprland_running {
            Ok(CompositorType::Hyprland)
        } else if niri_running {
            Ok(CompositorType::Niri)
        } else {
            Err(NoCompositor)
        }
    }

    /// Whether one of the two compositors is running.
    pub fn is_a_compositor_running(hyprland_running: bool, niri_running: bool) -> (res: bool)
        ensures
            res == (hyprland_running || niri_running),
    {
        hyprland_running || niri_running
    }

    /// The compositor's active layout. For the socket backend `layouts` and
    /// `variants` are the values of its two keywords, where they are
    /// strings; for the file backend `document` is its configuration document.
    pub fn get_first_layout_sequence(
        &self,
        layouts: Option<&str>,
        variants: Option<&str>,
        document: &NiriEditor,
    ) -> (res: Result<Layout, AdapterError>)
        ensures
            match res {
                Ok(l) => spec_current_layout(
                    *self,
                    option_view(layouts),
                    option_view(variants),
                    document@,
                ) == Ok::<LayoutView, AdapterError>(l@),
                Err(e) => spec_current_layout(
                    *self,
                    option_view(layouts),
                    option_view(variants),
                    document@,
                ) == Err::<LayoutView, AdapterError>(e),
            },
    {
        match self {
            CompositorType::Hyprland => Hypr::get_first_layout_sequence(layouts, variants),
            CompositorType::Niri => Niri::get_first_layout_sequence(document),
        }
    }

    /// What this backend is asked to do so that `layout_to_set` becomes the
    /// active layout while `current_layout` is.
    pub fn set_layout(
        &self,
        layout_to_set: &Layout,
        current_layout: &Layout,
        config_layouts: &[Layout],
        document: &NiriEditor,
    ) -> (res: Result<Vec<Action>, AdapterError>)
        ensures
            match res {
                Ok(plan) => spec_set_layout(
                    ConfigView {
                        layouts: layouts_view(config_layouts@),
                        compositor_type: *self,
                    },
                    layout_to_set@,
                    current_layout@,
                    document@,
                ) == Ok::<Seq<ActionView>, AdapterError>(actions_view(plan@)),
                Err(e) => spec_set_layout(
                    ConfigView {
                        layouts: layouts_view(config_layouts@),
                        compositor_type: *self,
                    },
                    layout_to_set@,
                    current_layout@,
                    document@,
                ) == Err::<Seq<ActionView>, AdapterError>(e),
            },
    {
        let mut plan: Vec<Action> = Vec::new();
        match self {
            CompositorType::Hyprland => {
                if layout_to_set.variant.is_some() != current_layout.variant.is_some() {
                    let bare = Layout { layout: layout_to_set.layout.clone(), variant: None };
                    plan.push(Action::SetKeywords(Hypr::set_layout(&bare, config_layouts)));
                }
                plan.push(Action::SetKeywords(Hypr::set_layout(layout_to_set, config_layouts)));
                proof {
                    assert(actions_view(plan@) =~= spec_keyword_plan(
                        layout_to_set@,
                        current_layout@,
                        layouts_view(config_layouts@),
                    ));
                }
            },
            CompositorType::Niri => {
                let available = Niri::get_available_layouts(document)?;
                let steps = Niri::set_layout(layout_to_set, available.as_slice(), current_layout)?;
                let mut i: usize = 0;
                while i < steps.len()
                    invariant
                        i <= steps@.len(),
                        plan@.len() == i,
                        forall|j: int| 0 <= j < i ==> plan@[j]@ == ActionView::SwitchLayout(steps@[j]),
                    decreases steps@.len() - i,
                {
                    plan.push(Action::SwitchLayout(steps[i]));
                    i += 1;
                }
                proof {
                    assert(actions_view(plan@) =~= spec_step_plan(steps@));
                }
            },
        }
        Ok(plan)
    }
}

impl CurrentState {
    /// The state of a compositor whose border has the colour `color`.
    pub fn new(color: String) -> (res: Self)
        ensures
            res.color@ == color@,
    {
        CurrentState { color }
    }
}

impl Config {
    /// The configuration that is used where none is written down: the
    /// layouts `fr` and `us`, for the given compositor.
    pub fn new(compositor_type: CompositorType) -> (res: Self)
        ensures
            res@ == (ConfigView {
                layouts: seq![
                    LayoutView { layout: "fr"@, variant: None },
                    LayoutView { layout: "us"@, variant: None },
                ],
                compositor_type,
            }),
    {
        let mut layouts: Vec<Layout> = Vec::new();
        layouts.push(Layout::new("fr", None));
        layouts.push(Layout::new("us", None));
        proof {
            assert(layouts_view(layouts@) =~= seq![
                LayoutView { layout: "fr"@, variant: None },
                LayoutView { layout: "us"@, variant: None },
            ]);
        }
        Config { layouts, compositor_type }
    }

    /// The sequence of recently used layouts that the stored state stands
    /// for. `stored` is the content of the state file, or nothing where the
    /// file is not there.
    pub fn get_layout_sequence(&self, stored: Option<&str>) -> (res: Result<Vec<Layout>, StoreError>)
        ensures
            match res {
                Ok(sequence) => spec_stored_sequence(option_view(stored)) == Ok::<
                    Seq<LayoutView>,
                    StoreError,
                >(layouts_view(sequence@)),
                Err(e) => spec_stored_sequence(option_view(stored)) == Err::<
                    Seq<LayoutView>,
                    StoreError,
                >(e),
            },
    {
        match stored {
            None => {
                let sequence: Vec<Layout> = Vec::new();
                proof {
                    assert(layouts_view(sequence@) =~= Seq::<LayoutView>::empty());
                }
                Ok(sequence)
            },
            Some(content) => {
                let entries = read_record(content)?;
                Ok(parse_lenient(entries.as_slice()))
            },
        }
    }

    /// The overwrite that stores `sequence` with `layout` promoted to its front.
    pub fn update_layout_sequence(&self, sequence: &[Layout], layout: &Layout) -> (res: Result<
        Action,
        StoreError,
    >)
        ensures
            match res {
                Ok(action) => spec_overwrite(spec_promote(layouts_view(sequence@), layout@)) == Ok::<
                    ActionView,
                    StoreError,
                >(action@),
                Err(e) => spec_overwrite(spec_promote(layouts_view(sequence@), layout@)) == Err::<
                    ActionView,
                    StoreError,
                >(e),
            },
    {
        let promoted = promote(sequence, layout);
        let strings = to_strings(promoted.as_slice());
        let record = write_record(&strings)?;
        Ok(Action::Overwrite { sequence: promoted, record })
    }

    /// The sequence with which the store is first filled: each configured
    /// layout promoted in turn, so that the last configured one comes first.
    pub fn init_layout_sequence(&self) -> (res: Vec<Layout>)
        ensures
            layouts_view(res@) == spec_promote_all(Seq::empty(), self@.layouts),
            layouts_view(res@).no_duplicates(),
    {
        let mut sequence: Vec<Layout> = Vec::new();
        let ghost all = layouts_view(self.layouts@);
        let mut i: usize = 0;
        proof {
            assert(layouts_view(sequence@) =~= Seq::<LayoutView>::empty());
            assert(all.take(0) =~= Seq::<LayoutView>::empty());
        }
        while i < self.layouts.len()
            invariant
                i <= self.layouts@.len(),
                all == layouts_view(self.layouts@),
                layouts_view(sequence@) == spec_promote_all(Seq::empty(), all.take(i as int)),
            decreases self.layouts@.len() - i,
        {
            proof {
                assert(all.take(i + 1).drop_last() =~= all.take(i as int));
                assert(all.take(i + 1).last() == self.layouts@[i as int]@);
            }
            sequence = promote(sequence.as_slice(), &self.layouts[i]);
            i += 1;
        }
        proof {
            assert(all.take(self.layouts@.len() as int) =~= all);
            crate::sequence::lemma_promote_all_no_duplicates(Seq::empty(), all);
        }
        sequence
    }

    /// What the status view is told when `layout` is selected.
    pub fn send_to_view(&self, layout: &Layout) -> (res: ViewUpdate)
        ensures
            res@ == spec_view_update(self@.layouts, layout@),
    {
        layout.send_to_view(self.layouts.as_slice())
    }

    /// What the status view is told when the session starts: the first
    /// configured layout is shown as selected. Nothing where no layout is
    /// configured.
    pub fn init_view(&self) -> (res: Option<ViewUpdate>)
        ensures
            match res {
                Some(update) => self@.layouts.len() > 0 && update@ == spec_view_update(
                    self@.layouts,
                    self@.layouts[0],
                ),
                None => self@.layouts.len() == 0,
            },
    {
        if self.layouts.len() == 0 {
            None
        } else {
            Some(self.send_to_view(&self.layouts[0]))
        }
    }

    /// The layout that was used last: the first of `sequence`.
    pub fn get_first_layout_of_sequence(&self, sequence: &[Layout]) -> (res: Result<
        Layout,
        AdapterError,
    >)
        ensures
            match res {
                Ok(l) => sequence@.len() > 0 && l@ == sequence@[0]@,
                Err(e) => sequence@.len() == 0 && e == AdapterError::NotFound,
            },
    {
        Layout::try_from_sequence(sequence)
    }

    /// The plan that makes `layout_to_set` the active layout, given the
    /// sequence of recently used layouts and the file backend's document.
    pub fn set_layout(&self, layout_to_set: &Layout, sequence: &[Layout], document: &NiriEditor) -> (res:
        Result<Vec<Action>, LayoutError>)
        ensures
            match res {
                Ok(plan) => spec_select(self@, layout_to_set@, layouts_view(sequence@), document@)
                    == Ok::<Seq<ActionView>, LayoutError>(actions_view(plan@)),
                Err(e) => spec_select(self@, layout_to_set@, layouts_view(sequence@), document@)
                    == Err::<Seq<ActionView>, LayoutError>(e),
            },
    {
        let current = match self.get_first_layout_of_sequence(sequence) {
            Ok(current) => current,
            Err(e) => {
                return Err(LayoutError::Adapter(e));
            },
        };
        let mut plan = match self.compositor_type.set_layout(
            layout_to_set,
            &current,
            self.layouts.as_slice(),
            document,
        ) {
            Ok(plan) => plan,
            Err(e) => {
                return Err(LayoutError::Adapter(e));
            },
        };
        let overwrite = match self.update_layout_sequence(sequence, layout_to_set) {
            Ok(action) => action,
            Err(e) => {
                return Err(LayoutError::Store(e));
            },
        };
        let ghost backend = actions_view(plan@);
        let update = self.send_to_view(layout_to_set);
        plan.push(Action::SendToView(update));
        plan.push(overwrite);
        proof {
            assert(actions_view(plan@) =~= backend + seq![
                ActionView::SendToView(update@),
                overwrite@,
            ]);
        }
        Ok(plan)
    }

    /// The plan for a switch to the layout that was active before the
    /// current one.
    pub fn switch_layout_sequence(&self, sequence: &[Layout], document: &NiriEditor) -> (res: Result<
        Vec<Action>,
        LayoutError,
    >)
        ensures
            match res {
                Ok(plan) => spec_switch(self@, layouts_view(sequence@), document@) == Ok::<
                    Seq<ActionView>,
                    LayoutError,
                >(actions_view(plan@)),
                Err(e) => spec_switch(self@, layouts_view(sequence@), document@) == Err::<
                    Seq<ActionView>,
                    LayoutError,
                >(e),
            },
    {
        if sequence.len() < 2 {
            let plan: Vec<Action> = Vec::new();
            proof {
                assert(actions_view(plan@) =~= Seq::<ActionView>::empty());
            }
            Ok(plan)
        } else {
            self.set_layout(&sequence[1], sequence, document)
        }
    }

    /// What has to be read of the session before `operation` is planned. A
    /// request that cannot be planned whatever the session holds fails here,
    /// before anything is read.
    pub fn reads(&self, operation: &LayoutOp) -> (res: Result<Reads, LayoutError>)
        ensures
            res == spec_reads(self@, operation@),
    {
        let document = match self.compositor_type {
            CompositorType::Hyprland => false,
            CompositorType::Niri => true,
        };
        match operation {
            LayoutOp::SetTo { layout } => {
                let target = match Layout::try_from(layout.as_str()) {
                    Ok(target) => target,
                    Err(e) => {
                        return Err(LayoutError::Parse(e));
                    },
                };
                if !contains(self.layouts.as_slice(), &target) {
                    return Err(LayoutError::NotConfigured);
                }
                Ok(Reads { store: true, document })
            },
            LayoutOp::Switch => Ok(Reads { store: true, document }),
            LayoutOp::Reset => Ok(Reads { store: false, document: false }),
        }
    }

    /// The plan for a layout request. `stored` is the content of the state
    /// file of the sequence of recently used layouts, or nothing where the
    /// file is not there; `document` is the file backend's document.
    ///
    /// A request for a layout that is not configured fails before anything
    /// is planned: nothing is then asked of the backend, shown or stored.
    pub fn change_layout(&self, operation: LayoutOp, stored: Option<&str>, document: &NiriEditor) -> (res:
        Result<Vec<Action>, LayoutError>)
        ensures
            match res {
                Ok(plan) => spec_change_layout(self@, operation@, option_view(stored), document@)
                    == Ok::<Seq<ActionView>, LayoutError>(actions_view(plan@)),
                Err(e) => spec_change_layout(self@, operation@, option_view(stored), document@)
                    == Err::<Seq<ActionView>, LayoutError>(e),
            },
            operation@ matches LayoutOpView::SetTo { layout } && spec_parse(layout) matches Ok(target)
                && !self@.layouts.contains(target) ==> res == Err::<Vec<Action>, LayoutError>(
                LayoutError::NotConfigured,
            ),
    {
        match operation {
            LayoutOp::SetTo { layout } => {
                let target = match Layout::try_from(layout.as_str()) {
                    Ok(target) => target,
                    Err(e) => {
                        return Err(LayoutError::Parse(e));
                    },
                };
                if !contains(self.layouts.as_slice(), &target) {
                    return Err(LayoutError::NotConfigured);
                }
                let sequence = match self.get_layout_sequence(stored) {
                    Ok(sequence) => sequence,
                    Err(e) => {
                        return Err(LayoutError::Store(e));
                    },
                };
                self.set_layout(&target, sequence.as_slice(), document)
            },
            LayoutOp::Switch => {
                let sequence = match self.get_layout_sequence(stored) {
                    Ok(sequence) => sequence,
                    Err(e) => {
                        return Err(LayoutError::Store(e));
                    },
                };
                self.switch_layout_sequence(sequence.as_slice(), document)
            },
            LayoutOp::Reset => {
                let mut plan: Vec<Action> = Vec::new();
                plan.push(Action::NotSupported);
                proof {
                    assert(actions_view(plan@) =~= seq![ActionView::NotSupported]);
                }
                Ok(plan)
            },
        }
    }

    /// The plan that brings the compositor in line with the stored sequence
    /// when the session starts. `current` is the compositor's active layout.
    pub fn synchronize(&self, stored: Option<&str>, current: &Layout, document: &NiriEditor) -> (res:
        Result<Vec<Action>, LayoutError>)
        ensures
            match res {
                Ok(plan) => spec_synchronize(self@, option_view(stored), current@, document@) == Ok::<
                    Seq<ActionView>,
                    LayoutError,
                >(actions_view(plan@)),
                Err(e) => spec_synchronize(self@, option_view(stored), current@, document@) == Err::<
                    Seq<ActionView>,
                    LayoutError,
                >(e),
            },
    {
        let sequence = match self.get_layout_sequence(stored) {
            Ok(sequence) => sequence,
            Err(e) => {
                return Err(LayoutError::Store(e));
            },
        };
        let first = match self.get_first_layout_of_sequence(sequence.as_slice()) {
            Ok(first) => first,
            Err(e) => {
                return Err(LayoutError::Adapter(e));
            },
        };
        if first == *current {
            let plan: Vec<Action> = Vec::new();
            proof {
                assert(actions_view(plan@) =~= Seq::<ActionView>::empty());
            }
            return Ok(plan);
        }
        match self.compositor_type.set_layout(&first, current, self.layouts.as_slice(), document) {
            Ok(plan) => Ok(plan),
            Err(e) => Err(LayoutError::Adapter(e)),
        }
    }
}

} // verus!
