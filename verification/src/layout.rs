//! The keyboard layout value type and its canonical string form.

use crate::text::{compare, first_index_of, join, lemma_first_index_of, lemma_compare_equal, lemma_compare_flip,
    lemma_compare_transitive, lemma_join_split, lemma_split_join, lemma_split_pieces,
    lemma_split_single, spec_compare,
    spec_join, spec_split, split, strings_view, Order};
use crate::compositors::compositor::AdapterError;
use crate::sequence::{spec_canonical_all, spec_without, to_strings, without};
use std::cmp::Ordering;
use vstd::prelude::*;
use vstd::string::StringExecFns;

verus! {

/// A keyboard layout identifier with an optional variant, e.g. `us` or `fr:azerty`.
#[derive(Debug, Eq, Ord)]
pub struct Layout {
    pub layout: String,
    pub variant: Option<String>,
}

/// The mathematical value of a [`Layout`].
pub struct LayoutView {
    pub layout: Seq<char>,
    pub variant: Option<Seq<char>>,
}

/// Why a string is not a layout.
#[derive(Clone, Copy, Debug, PartialEq, Eq, Structural)]
pub enum ParseError {
    /// The string holds no identifier: nothing stands before its colon, or
    /// it is empty altogether.
    Empty,
    /// The string holds more than one colon.
    TooManyParts,
}

/// What the status view is told: the layouts to list, and the selected one.
#[derive(Debug)]
pub struct ViewUpdate {
    /// The canonical strings of the configured layouts other than the selected one.
    pub others: Vec<String>,
    /// The selected layout.
    pub selected: Layout,
}

/// The mathematical value of a [`ViewUpdate`].
pub struct ViewUpdateView {
    pub others: Seq<Seq<char>>,
    pub selected: LayoutView,
}

/// A request to change the keyboard layout.
#[derive(Debug)]
pub enum LayoutOp {
    /// Make the given layout (`layout` or `layout:variant`) the active one.
    SetTo { layout: String },
    /// Go back to the layout that was active before the current one.
    Switch,
    /// Not supported: answered with a notice.
    Reset,
}

impl LayoutView {
    /// The canonical string form: `layout`, or `layout:variant`.
    pub open spec fn canonical(self) -> Seq<char> {
        match self.variant {
            Some(v) => self.layout + seq![':'] + v,
            None => self.layout,
        }
    }

    /// A layout whose canonical string reads back as itself: the identifier
    /// is not empty, and neither part holds a colon.
    pub open spec fn well_formed(self) -> bool {
        &&& self.layout.len() > 0
        &&& !self.layout.contains(':')
        &&& self.variant matches Some(v) ==> !v.contains(':')
    }
}

/// What a string parses to. A string with more than one colon is rejected,
/// and so is one whose part before the colon is empty, of which the empty
/// string is one: a layout always has an identifier. Otherwise the part
/// before the colon is the layout and the part behind it, where there is a
/// colon, the variant.
pub open spec fn spec_parse(s: Seq<char>) -> Result<LayoutView, ParseError> {
    let parts = spec_split(s, ':');
    if parts.len() > 2 {
        Err(ParseError::TooManyParts)
    } else if parts[0].len() == 0 {
        Err(ParseError::Empty)
    } else {
        Ok(
            LayoutView {
                layout: parts[0],
                variant: if parts.len() == 2 {
                    Some(parts[1])
                } else {
                    None
                },
            },
        )
    }
}

/// How `x` stands to `y` in the order of layouts: by the identifier, then
/// by the variant, where a layout without a variant comes before those with one.
pub open spec fn spec_layout_order(x: LayoutView, y: LayoutView) -> Order {
    match spec_compare(x.layout, y.layout) {
        Order::Equal => match (x.variant, y.variant) {
            (None, None) => Order::Equal,
            (None, Some(_)) => Order::Less,
            (Some(_), None) => Order::Greater,
            (Some(a), Some(b)) => spec_compare(a, b),
        },
        order => order,
    }
}

/// What the status view is told when `selected` is chosen among `configured`.
pub open spec fn spec_view_update(configured: Seq<LayoutView>, selected: LayoutView) -> ViewUpdateView {
    ViewUpdateView { others: spec_canonical_all(spec_without(configured, selected)), selected }
}

/// The views of a list of layouts.
pub open spec fn layouts_view(v: Seq<Layout>) -> Seq<LayoutView> {
    Seq::new(v.len(), |i: int| v[i]@)
}

/// The canonical string of every layout that parses is the string it was
/// parsed from.
pub proof fn lemma_parse_then_canonical(s: Seq<char>)
    requires
        spec_parse(s) is Ok,
    ensures
        spec_parse(s)->Ok_0.canonical() == s,
{
    let parts = spec_split(s, ':');
    lemma_join_split(s, ':');
    if parts.len() == 2 {
        assert(parts.drop_first().len() == 1);
        assert(spec_join(parts.drop_first(), seq![':']) == parts[1]);
    }
}

/// A well-formed layout is what its canonical string parses to.
pub proof fn lemma_canonical_then_parse(l: LayoutView)
    requires
        l.well_formed(),
    ensures
        spec_parse(l.canonical()) == Ok::<LayoutView, ParseError>(l),
{
    match l.variant {
        Some(v) => {
            let parts = seq![l.layout, v];
            assert(parts.drop_first() =~= seq![v]);
            assert(spec_join(parts.drop_first(), seq![':']) == v);
            assert(spec_join(parts, seq![':']) == l.canonical());
            lemma_split_join(parts, ':');
        },
        None => {
            lemma_split_join(seq![l.layout], ':');
        },
    }
}

/// A string is rejected as empty exactly when it holds at most one colon
/// and nothing stands before it; it parses exactly when it splits into one
/// or two pieces of which the first is not empty. What it parses to is
/// well formed, and has no variant exactly when the string holds no colon.
pub proof fn lemma_parse_outcomes(s: Seq<char>)
    ensures
        spec_parse(s) == Err::<LayoutView, ParseError>(ParseError::TooManyParts) <==> spec_split(
            s,
            ':',
        ).len() > 2,
        spec_parse(s) == Err::<LayoutView, ParseError>(ParseError::Empty) <==> spec_split(
            s,
            ':',
        ).len() <= 2 && (s.len() == 0 || s[0] == ':'),
        s.len() == 0 ==> spec_parse(s) == Err::<LayoutView, ParseError>(ParseError::Empty),
        spec_parse(s) matches Ok(l) ==> l.well_formed(),
        spec_parse(s) matches Ok(l) ==> (l.variant is None <==> !s.contains(':')),
{
    lemma_join_split(s, ':');
    lemma_split_single(s, ':');
    lemma_split_pieces(s, ':');
    lemma_first_index_of(s, ':');
    let i = first_index_of(s, ':');
    if 0 <= i < s.len() {
        assert(spec_split(s, ':')[0] == s.subrange(0, i));
    } else {
        assert(spec_split(s, ':')[0] == s);
    }
}

/// The order of layouts is a total order that agrees with their equality:
/// two layouts compare as equal exactly when they are the same, the order
/// seen from the other side is the other way round, and it is transitive.
pub proof fn lemma_layout_order(x: LayoutView, y: LayoutView, z: LayoutView)
    ensures
        spec_layout_order(x, y) == Order::Equal <==> x == y,
        spec_layout_order(y, x) == spec_layout_order(x, y).flip(),
        spec_layout_order(x, y) == Order::Less && spec_layout_order(y, z) == Order::Less
            ==> spec_layout_order(x, z) == Order::Less,
{
    lemma_compare_equal(x.layout, y.layout);
    lemma_compare_equal(y.layout, z.layout);
    lemma_compare_equal(x.layout, z.layout);
    lemma_compare_flip(x.layout, y.layout);
    if x.variant is Some && y.variant is Some {
        lemma_compare_equal(x.variant->Some_0, y.variant->Some_0);
        lemma_compare_flip(x.variant->Some_0, y.variant->Some_0);
    }
    if spec_layout_order(x, y) == Order::Less && spec_layout_order(y, z) == Order::Less {
        if spec_compare(x.layout, y.layout) == Order::Less && spec_compare(y.layout, z.layout)
            == Order::Less {
            lemma_compare_transitive(x.layout, y.layout, z.layout);
        } else if x.variant is Some && y.variant is Some && z.variant is Some && x.layout
            == y.layout && y.layout == z.layout {
            lemma_compare_transitive(x.variant->Some_0, y.variant->Some_0, z.variant->Some_0);
        }
    }
}

impl View for Layout {
    type V = LayoutView;

    open spec fn view(&self) -> LayoutView {
        LayoutView {
            layout: self.layout@,
            variant: match self.variant {
                Some(v) => Some(v@),
                None => None,
            },
        }
    }
}

impl View for ViewUpdate {
    type V = ViewUpdateView;

    open spec fn view(&self) -> ViewUpdateView {
        ViewUpdateView { others: strings_view(self.others@), selected: self.selected@ }
    }
}

impl Clone for Layout {
    fn clone(&self) -> (res: Self)
        ensures
            res@ == self@,
    {
        Layout {
            layout: self.layout.clone(),
            variant: match &self.variant {
                Some(v) => Some(v.clone()),
                None => None,
            },
        }
    }
}

impl Clone for LayoutOp {
    fn clone(&self) -> (res: Self)
        ensures
            res == self,
    {
        match self {
            LayoutOp::SetTo { layout } => LayoutOp::SetTo { layout: layout.clone() },
            LayoutOp::Switch => LayoutOp::Switch,
            LayoutOp::Reset => LayoutOp::Reset,
        }
    }
}

impl PartialEq for Layout {
    fn eq(&self, other: &Self) -> (res: bool) {
        let same_layout = self.layout == other.layout;
        let same_variant = match &self.variant {
            Some(a) => match &other.variant {
                Some(b) => *a == *b,
                None => false,
            },
            None => other.variant.is_none(),
        };
        same_layout && same_variant
    }
}

impl vstd::std_specs::cmp::PartialEqSpecImpl for Layout {
    open spec fn obeys_eq_spec() -> bool {
        true
    }

    open spec fn eq_spec(&self, other: &Self) -> bool {
        self@ == other@
    }
}

impl PartialOrd for Layout {
    fn partial_cmp(&self, other: &Self) -> (res: Option<Ordering>) {
        Some(
            match self.compare(other) {
                Order::Less => Ordering::Less,
                Order::Equal => Ordering::Equal,
                Order::Greater => Ordering::Greater,
            },
        )
    }
}

impl vstd::std_specs::cmp::PartialOrdSpecImpl for Layout {
    open spec fn obeys_partial_cmp_spec() -> bool {
        true
    }

    open spec fn partial_cmp_spec(&self, other: &Self) -> Option<Ordering> {
        Some(
            match spec_layout_order(self@, other@) {
                Order::Less => Ordering::Less,
                Order::Equal => Ordering::Equal,
                Order::Greater => Ordering::Greater,
            },
        )
    }
}

impl Layout {
    /// How this layout stands to `other` in the order of layouts.
    pub fn compare(&self, other: &Layout) -> (res: Order)
        ensures
            res == spec_layout_order(self@, other@),
    {
        match compare(self.layout.as_str(), other.layout.as_str()) {
            Order::Equal => match &self.variant {
                None => match &other.variant {
                    None => Order::Equal,
                    Some(_) => Order::Less,
                },
                Some(a) => match &other.variant {
                    None => Order::Greater,
                    Some(b) => compare(a.as_str(), b.as_str()),
                },
            },
            order => order,
        }
    }

    /// A layout from its two parts, taken as they are.
    pub fn new(layout: &str, variant: Option<&str>) -> (res: Self)
        ensures
            res@.layout == layout@,
            match variant {
                Some(v) => res@.variant == Some(v@),
                None => res@.variant is None,
            },
    {
        Layout {
            layout: layout.to_owned(),
            variant: match variant {
                Some(v) => Some(v.to_owned()),
                None => None,
            },
        }
    }

    /// What the status view is told when this layout is selected among
    /// `layouts`: the canonical strings of the others, and this layout.
    pub fn send_to_view(&self, layouts: &[Layout]) -> (res: ViewUpdate)
        ensures
            res@ == spec_view_update(layouts_view(layouts@), self@),
    {
        let others = without(layouts, self);
        ViewUpdate { others: to_strings(others.as_slice()), selected: self.clone() }
    }

    /// The layout that was used last: the first of the sequence of recently
    /// used layouts. There is none while the sequence is empty.
    pub fn try_from_sequence(sequence: &[Layout]) -> (res: Result<Layout, AdapterError>)
        ensures
            match res {
                Ok(l) => sequence@.len() > 0 && l@ == sequence@[0]@,
                Err(e) => sequence@.len() == 0 && e == AdapterError::NotFound,
            },
    {
        if sequence.len() == 0 {
            Err(AdapterError::NotFound)
        } else {
            Ok(sequence[0].clone())
        }
    }

    /// The canonical string form: `layout`, or `layout:variant`.
    pub fn to_string(&self) -> (s: String)
        ensures
            s@ == self@.canonical(),
    {
        let mut s = self.layout.clone();
        if let Some(variant) = &self.variant {
            proof {
                reveal_strlit(":");
                assert(":"@ =~= seq![':']);
            }
            s.append(":");
            s.append(variant.as_str());
        }
        s
    }

    /// Reads a layout from its string form, `layout` or `layout:variant`.
    /// A string without an identifier, or with more than one colon, is none.
    pub fn try_from(value: &str) -> (res: Result<Layout, ParseError>)
        ensures
            match res {
                Ok(l) => spec_parse(value@) == Ok::<LayoutView, ParseError>(l@),
                Err(e) => spec_parse(value@) == Err::<LayoutView, ParseError>(e),
            },
    {
        let mut parts = split(value, ':');
        proof {
            lemma_join_split(value@, ':');
        }
        if parts.len() > 2 {
            return Err(ParseError::TooManyParts);
        }
        let variant = if parts.len() == 2 {
            parts.pop()
        } else {
            None
        };
        let layout = parts.pop().unwrap();
        if layout.as_str().is_empty() {
            return Err(ParseError::Empty);
        }
        Ok(Layout { layout, variant })
    }

    /// The value of the variant keyword that makes `layout_to_set` the active
    /// layout: its variant (empty where it has none) in front of `layouts`,
    /// joined by commas.
    pub fn generate_variant_sequence(layout_to_set: &Layout, layouts: &[String]) -> (s: String)
        ensures
            s@ == spec_variant_sequence(layout_to_set@, strings_view(layouts@)),
    {
        let mut s = match &layout_to_set.variant {
            Some(v) => v.clone(),
            None => String::new(),
        };
        proof {
            reveal_strlit(",");
            assert(","@ =~= seq![',']);
        }
        s.append(",");
        let rest = join(layouts, ",");
        s.append(rest.as_str());
        s
    }

    /// The value of the layout keyword that makes `layout_to_set` the active
    /// layout: its identifier in front of `layouts`, joined by commas.
    pub fn generate_layout_sequence(layout_to_set: &Layout, layouts: &[String]) -> (s: String)
        ensures
            s@ == spec_layout_sequence(layout_to_set@, strings_view(layouts@)),
    {
        let mut s = layout_to_set.layout.clone();
        proof {
            reveal_strlit(",");
            assert(","@ =~= seq![',']);
        }
        s.append(",");
        let rest = join(layouts, ",");
        s.append(rest.as_str());
        s
    }
}

/// The variant keyword's value: the target's variant, a comma, and the other
/// variants joined by commas.
pub open spec fn spec_variant_sequence(target: LayoutView, others: Seq<Seq<char>>) -> Seq<char> {
    let first = match target.variant {
        Some(v) => v,
        None => Seq::empty(),
    };
    first + seq![','] + spec_join(others, seq![','])
}

/// The layout keyword's value: the target's identifier, a comma, and the other
/// identifiers joined by commas.
pub open spec fn spec_layout_sequence(target: LayoutView, others: Seq<Seq<char>>) -> Seq<char> {
    target.layout + seq![','] + spec_join(others, seq![','])
}

} // verus!
