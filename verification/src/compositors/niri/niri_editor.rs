//! The editor of the configuration document: a tree of named nodes, each
//! with an ordered list of entries and, optionally, an ordered list of child
//! nodes.
//!
//! The tree itself asks nothing of the names under one parent: two nodes may
//! share a name, and the editor then works on the first.

use crate::search::{first_match, lemma_first_match, lemma_first_match_unique};
use crate::text::strings_view;
use vstd::prelude::*;

verus! {

/// A value held by a node's entry.
#[derive(Debug)]
pub enum ConfigValue {
    Text(String),
    Integer(i64),
    /// A number with a fraction, kept as the bit pattern of its 64-bit form.
    Real(u64),
    Boolean(bool),
    Null,
}

/// The mathematical value of a [`ConfigValue`].
pub enum ValueView {
    Text(Seq<char>),
    Integer(i64),
    Real(u64),
    Boolean(bool),
    Null,
}

/// One entry of a node: a value, with a name where it is a property.
#[derive(Debug)]
pub struct ConfigEntry {
    pub name: Option<String>,
    pub value: ConfigValue,
}

/// The mathematical value of a [`ConfigEntry`].
pub struct EntryView {
    pub name: Option<Seq<char>>,
    pub value: ValueView,
}

/// A named node of the document.
#[derive(Debug)]
pub struct ConfigNode {
    pub name: String,
    pub entries: Vec<ConfigEntry>,
    pub children: Option<Vec<ConfigNode>>,
}

/// The mathematical value of a [`ConfigNode`].
pub struct NodeView {
    pub name: Seq<char>,
    pub entries: Seq<EntryView>,
    pub children: Option<Seq<NodeView>>,
}

/// One step of a change to a document, for whoever holds the document in
/// another form and wants to change it in its place. The steps of a change
/// go down the tree: each but the last goes into the children of a node,
/// and the last changes a node there.
#[derive(Debug)]
pub enum Edit {
    /// Go into the children of the node at place `index`, which gets empty
    /// children where it has none.
    Enter { index: usize },
    /// Put a node named `name`, with empty children, at the end, and go into
    /// its children.
    Create { name: String },
    /// Give the node at place `index` the plain arguments `values` as its
    /// only entries.
    Replace { index: usize, values: Vec<ConfigValue> },
    /// Put a node named `name`, with the plain arguments `values` and no
    /// children, at the end.
    Append { name: String, values: Vec<ConfigValue> },
}

/// The mathematical value of an [`Edit`].
pub enum EditView {
    Enter { index: int },
    Create { name: Seq<char> },
    Replace { index: int, values: Seq<ValueView> },
    Append { name: Seq<char>, values: Seq<ValueView> },
}

/// A step of the path names no node, or the node it names has no children.
#[derive(Clone, Copy, Debug, PartialEq, Eq, Structural)]
pub struct NotFound;

/// The configuration document: the nodes at its top level, in order.
#[derive(Debug)]
pub struct NiriEditor {
    pub nodes: Vec<ConfigNode>,
}

impl View for ConfigValue {
    type V = ValueView;

    open spec fn view(&self) -> ValueView {
        match self {
            ConfigValue::Text(s) => ValueView::Text(s@),
            ConfigValue::Integer(i) => ValueView::Integer(*i),
            ConfigValue::Real(bits) => ValueView::Real(*bits),
            ConfigValue::Boolean(b) => ValueView::Boolean(*b),
            ConfigValue::Null => ValueView::Null,
        }
    }
}

impl View for ConfigEntry {
    type V = EntryView;

    open spec fn view(&self) -> EntryView {
        EntryView {
            name: match self.name {
                Some(n) => Some(n@),
                None => None,
            },
            value: self.value@,
        }
    }
}

impl View for ConfigNode {
    type V = NodeView;

    open spec fn view(&self) -> NodeView
        decreases self,
    {
        NodeView {
            name: self.name@,
            entries: entries_view(self.entries@),
            children: match self.children {
                Some(c) => Some(nodes_view(c@)),
                None => None,
            },
        }
    }
}

impl View for Edit {
    type V = EditView;

    open spec fn view(&self) -> EditView {
        match self {
            Edit::Enter { index } => EditView::Enter { index: *index as int },
            Edit::Create { name } => EditView::Create { name: name@ },
            Edit::Replace { index, values } => EditView::Replace {
                index: *index as int,
                values: values_view(values@),
            },
            Edit::Append { name, values } => EditView::Append {
                name: name@,
                values: values_view(values@),
            },
        }
    }
}

impl View for NiriEditor {
    type V = Seq<NodeView>;

    open spec fn view(&self) -> Seq<NodeView> {
        nodes_view(self.nodes@)
    }
}

/// The views of a list of values.
pub open spec fn values_view(values: Seq<ConfigValue>) -> Seq<ValueView> {
    Seq::new(values.len(), |i: int| values[i]@)
}

/// The views of a list of entries.
pub open spec fn entries_view(entries: Seq<ConfigEntry>) -> Seq<EntryView> {
    Seq::new(entries.len(), |i: int| entries[i]@)
}

/// The views of a list of nodes.
pub open spec fn nodes_view(nodes: Seq<ConfigNode>) -> Seq<NodeView>
    decreases nodes,
{
    Seq::new(
        nodes.len(),
        |i: int|
            if 0 <= i < nodes.len() {
                nodes[i]@
            } else {
                arbitrary()
            },
    )
}

/// The condition "is named `name`" on nodes.
pub open spec fn named(name: Seq<char>) -> spec_fn(NodeView) -> bool {
    |node: NodeView| node.name == name
}

/// The values of a node's entries, in order.
pub open spec fn entry_values(entries: Seq<EntryView>) -> Seq<ValueView> {
    Seq::new(entries.len(), |i: int| entries[i].value)
}

/// The entries that hold `values`, in order, as plain arguments.
pub open spec fn arguments(values: Seq<ValueView>) -> Seq<EntryView> {
    Seq::new(values.len(), |i: int| EntryView { name: None, value: values[i] })
}

/// What `get` finds: it follows `path` down from `nodes`, at each step into
/// the children of the first node of that name, and fails where there is no
/// such node or it has no children; at the end it gives the entry values of
/// the first node named `key`, where there is one.
pub open spec fn spec_get(nodes: Seq<NodeView>, path: Seq<Seq<char>>, key: Seq<char>) -> Result<
    Option<Seq<ValueView>>,
    NotFound,
>
    decreases path.len(),
{
    if path.len() == 0 {
        let i = first_match(nodes, named(key));
        if 0 <= i < nodes.len() {
            Ok(Some(entry_values(nodes[i].entries)))
        } else {
            Ok(None)
        }
    } else {
        let i = first_match(nodes, named(path[0]));
        if 0 <= i < nodes.len() {
            match nodes[i].children {
                Some(children) => spec_get(children, path.drop_first(), key),
                None => Err(NotFound),
            }
        } else {
            Err(NotFound)
        }
    }
}

/// What `set` leaves: it follows `path` as `get` does, but makes each node
/// that is missing (at the end of its level, with empty children) and gives
/// children to a node that has none; at the end the first node named `key`
/// has its entries replaced by `values`, or a new node named `key` with
/// these entries is put at the end.
pub open spec fn spec_set(
    nodes: Seq<NodeView>,
    path: Seq<Seq<char>>,
    key: Seq<char>,
    values: Seq<ValueView>,
) -> Seq<NodeView>
    decreases path.len(),
{
    if path.len() == 0 {
        let i = first_match(nodes, named(key));
        if 0 <= i < nodes.len() {
            nodes.update(
                i,
                NodeView { name: nodes[i].name, entries: arguments(values), children: nodes[i].children },
            )
        } else {
            nodes.push(NodeView { name: key, entries: arguments(values), children: None })
        }
    } else {
        let i = first_match(nodes, named(path[0]));
        if 0 <= i < nodes.len() {
            let below = match nodes[i].children {
                Some(children) => children,
                None => Seq::empty(),
            };
            nodes.update(
                i,
                NodeView {
                    name: nodes[i].name,
                    entries: nodes[i].entries,
                    children: Some(spec_set(below, path.drop_first(), key, values)),
                },
            )
        } else {
            nodes.push(
                NodeView {
                    name: path[0],
                    entries: Seq::empty(),
                    children: Some(spec_set(Seq::empty(), path.drop_first(), key, values)),
                },
            )
        }
    }
}

/// The views of a list of edits.
pub open spec fn edits_view(edits: Seq<Edit>) -> Seq<EditView> {
    Seq::new(edits.len(), |i: int| edits[i]@)
}

/// The children of `node`, none counting as an empty list.
pub open spec fn spec_below(node: NodeView) -> Seq<NodeView> {
    match node.children {
        Some(children) => children,
        None => Seq::empty(),
    }
}

/// The document after the steps `edits` were taken on `nodes`. A step that
/// names a place that is not there changes nothing.
pub open spec fn spec_apply(nodes: Seq<NodeView>, edits: Seq<EditView>) -> Seq<NodeView>
    decreases edits.len(),
{
    if edits.len() == 0 {
        nodes
    } else {
        match edits[0] {
            EditView::Enter { index } => if 0 <= index < nodes.len() {
                nodes.update(
                    index,
                    NodeView {
                        name: nodes[index].name,
                        entries: nodes[index].entries,
                        children: Some(spec_apply(spec_below(nodes[index]), edits.drop_first())),
                    },
                )
            } else {
                nodes
            },
            EditView::Create { name } => nodes.push(
                NodeView {
                    name,
                    entries: Seq::empty(),
                    children: Some(spec_apply(Seq::empty(), edits.drop_first())),
                },
            ),
            EditView::Replace { index, values } => if 0 <= index < nodes.len() {
                nodes.update(
                    index,
                    NodeView {
                        name: nodes[index].name,
                        entries: arguments(values),
                        children: nodes[index].children,
                    },
                )
            } else {
                nodes
            },
            EditView::Append { name, values } => nodes.push(
                NodeView { name, entries: arguments(values), children: None },
            ),
        }
    }
}

/// The steps of the change that `set` makes: one for each step of `path`,
/// into the first node of that name or into a new one, and a last one that
/// replaces the entries of the first node named `key` or adds such a node.
pub open spec fn spec_edits(
    nodes: Seq<NodeView>,
    path: Seq<Seq<char>>,
    key: Seq<char>,
    values: Seq<ValueView>,
) -> Seq<EditView>
    decreases path.len(),
{
    if path.len() == 0 {
        let i = first_match(nodes, named(key));
        if 0 <= i < nodes.len() {
            seq![EditView::Replace { index: i, values }]
        } else {
            seq![EditView::Append { name: key, values }]
        }
    } else {
        let i = first_match(nodes, named(path[0]));
        if 0 <= i < nodes.len() {
            seq![EditView::Enter { index: i }] + spec_edits(
                spec_below(nodes[i]),
                path.drop_first(),
                key,
                values,
            )
        } else {
            seq![EditView::Create { name: path[0] }] + spec_edits(
                Seq::empty(),
                path.drop_first(),
                key,
                values,
            )
        }
    }
}

/// Taking the steps of a change gives the document that `set` leaves.
pub proof fn lemma_apply_edits(
    nodes: Seq<NodeView>,
    path: Seq<Seq<char>>,
    key: Seq<char>,
    values: Seq<ValueView>,
)
    ensures
        spec_apply(nodes, spec_edits(nodes, path, key, values)) == spec_set(nodes, path, key, values),
    decreases path.len(),
{
    let edits = spec_edits(nodes, path, key, values);
    if path.len() > 0 {
        let i = first_match(nodes, named(path[0]));
        let below = if 0 <= i < nodes.len() {
            spec_below(nodes[i])
        } else {
            Seq::empty()
        };
        let rest = spec_edits(below, path.drop_first(), key, values);
        lemma_apply_edits(below, path.drop_first(), key, values);
        assert(edits.drop_first() =~= rest);
    }
}

/// After `set`, `get` with the same path and key finds the values that were set.
pub proof fn lemma_get_after_set(
    nodes: Seq<NodeView>,
    path: Seq<Seq<char>>,
    key: Seq<char>,
    values: Seq<ValueView>,
)
    ensures
        spec_get(spec_set(nodes, path, key, values), path, key) == Ok::<
            Option<Seq<ValueView>>,
            NotFound,
        >(Some(values)),
    decreases path.len(),
{
    let after = spec_set(nodes, path, key, values);
    let name = if path.len() == 0 {
        key
    } else {
        path[0]
    };
    let i = first_match(nodes, named(name));
    lemma_first_match(nodes, named(name));
    assert forall|j: int| 0 <= j < i implies !named(name)(#[trigger] after[j]) by {
        assert(after[j] == nodes[j]);
    }
    assert(i < after.len() && named(name)(after[i]));
    lemma_first_match_unique(after, named(name), i);
    if path.len() == 0 {
        assert(entry_values(arguments(values)) =~= values);
    } else {
        let below = if 0 <= i < nodes.len() {
            match nodes[i].children {
                Some(children) => children,
                None => Seq::empty(),
            }
        } else {
            Seq::empty()
        };
        lemma_get_after_set(below, path.drop_first(), key, values);
    }
}

impl Clone for ConfigValue {
    fn clone(&self) -> (res: Self)
        ensures
            res@ == self@,
    {
        match self {
            ConfigValue::Text(s) => ConfigValue::Text(s.clone()),
            ConfigValue::Integer(i) => ConfigValue::Integer(*i),
            ConfigValue::Real(bits) => ConfigValue::Real(*bits),
            ConfigValue::Boolean(b) => ConfigValue::Boolean(*b),
            ConfigValue::Null => ConfigValue::Null,
        }
    }
}

impl ConfigValue {
    /// The text of a text value; nothing for any other value.
    pub fn as_string(&self) -> (res: Option<&str>)
        ensures
            match res {
                Some(s) => self@ == ValueView::Text(s@),
                None => !(self@ is Text),
            },
    {
        match self {
            ConfigValue::Text(s) => Some(s.as_str()),
            _ => None,
        }
    }
}

/// The nodes of a level that may be missing, none counting as an empty list.
pub open spec fn level_view(level: Option<&Vec<ConfigNode>>) -> Seq<NodeView> {
    match level {
        Some(nodes) => nodes_view(nodes@),
        None => Seq::empty(),
    }
}

/// The index of the first node named `name`.
fn find(nodes: &Vec<ConfigNode>, name: &String) -> (res: Option<usize>)
    ensures
        match res {
            Some(i) => i < nodes@.len() && i == first_match(nodes_view(nodes@), named(name@)),
            None => first_match(nodes_view(nodes@), named(name@)) == nodes@.len(),
        },
{
    let mut i: usize = 0;
    while i < nodes.len()
        invariant
            i <= nodes@.len(),
            forall|j: int| 0 <= j < i ==> !named(name@)(#[trigger] nodes_view(nodes@)[j]),
        decreases nodes@.len() - i,
    {
        if nodes[i].name == *name {
            proof {
                assert(named(name@)(nodes_view(nodes@)[i as int]));
                lemma_first_match_unique(nodes_view(nodes@), named(name@), i as int);
            }
            return Some(i);
        }
        i += 1;
    }
    proof {
        lemma_first_match_unique(nodes_view(nodes@), named(name@), nodes@.len() as int);
    }
    None
}

/// Copies of the values of `entries`, in order.
fn values_of(entries: &Vec<ConfigEntry>) -> (values: Vec<ConfigValue>)
    ensures
        values_view(values@) == entry_values(entries_view(entries@)),
{
    let mut values: Vec<ConfigValue> = Vec::new();
    let mut i: usize = 0;
    while i < entries.len()
        invariant
            i <= entries@.len(),
            values@.len() == i,
            forall|j: int| 0 <= j < i ==> values@[j]@ == entries@[j].value@,
        decreases entries@.len() - i,
    {
        values.push(entries[i].value.clone());
        i += 1;
    }
    proof {
        assert(values_view(values@) =~= entry_values(entries_view(entries@)));
    }
    values
}

/// `values` as the plain arguments of a node, in order.
fn entries_from(values: Vec<ConfigValue>) -> (entries: Vec<ConfigEntry>)
    ensures
        entries_view(entries@) == arguments(values_view(values@)),
{
    let mut entries: Vec<ConfigEntry> = Vec::new();
    let mut i: usize = 0;
    while i < values.len()
        invariant
            i <= values@.len(),
            entries@.len() == i,
            forall|j: int| 0 <= j < i ==> entries@[j]@ == (EntryView { name: None, value: values@[j]@ }),
        decreases values@.len() - i,
    {
        entries.push(ConfigEntry { name: None, value: values[i].clone() });
        i += 1;
    }
    proof {
        assert(entries_view(entries@) =~= arguments(values_view(values@)));
    }
    entries
}

/// `set` on the nodes of one level, for the steps of `paths` from `depth` on.
fn set_nodes(
    nodes: Vec<ConfigNode>,
    paths: &[String],
    depth: usize,
    key: &String,
    values: Vec<ConfigValue>,
) -> (res: Vec<ConfigNode>)
    requires
        depth <= paths@.len(),
    ensures
        nodes_view(res@) == spec_set(
            nodes_view(nodes@),
            strings_view(paths@).subrange(depth as int, paths@.len() as int),
            key@,
            values_view(values@),
        ),
    decreases paths@.len() - depth,
{
    let mut nodes = nodes;
    let ghost before = nodes_view(nodes@);
    let ghost path = strings_view(paths@).subrange(depth as int, paths@.len() as int);
    if depth == paths.len() {
        let entries = entries_from(values);
        match find(&nodes, key) {
            Some(i) => {
                let old = nodes.remove(i);
                let node = ConfigNode { name: old.name, entries, children: old.children };
                nodes.insert(i, node);
                proof {
                    assert(old@ == before[i as int]);
                    assert(nodes_view(nodes@) =~= before.update(i as int, node@));
                }
            },
            None => {
                let node = ConfigNode { name: key.clone(), entries, children: None };
                nodes.push(node);
                proof {
                    assert(nodes_view(nodes@) =~= before.push(node@));
                }
            },
        }
    } else {
        let name = &paths[depth];
        proof {
            assert(path[0] == name@);
            assert(path.drop_first() =~= strings_view(paths@).subrange(
                depth + 1,
                paths@.len() as int,
            ));
        }
        match find(&nodes, name) {
            Some(i) => {
                let old = nodes.remove(i);
                proof {
                    assert(old@ == before[i as int]);
                }
                let below = match old.children {
                    Some(children) => children,
                    None => Vec::new(),
                };
                let ghost below_view = nodes_view(below@);
                proof {
                    assert(below_view =~= match before[i as int].children {
                        Some(children) => children,
                        None => Seq::empty(),
                    });
                }
                let children = set_nodes(below, paths, depth + 1, key, values);
                let node = ConfigNode {
                    name: old.name,
                    entries: old.entries,
                    children: Some(children),
                };
                nodes.insert(i, node);
                proof {
                    assert(nodes_view(nodes@) =~= before.update(i as int, node@));
                }
            },
            None => {
                let below: Vec<ConfigNode> = Vec::new();
                proof {
                    assert(nodes_view(below@) =~= Seq::<NodeView>::empty());
                }
                let children = set_nodes(below, paths, depth + 1, key, values);
                let node = ConfigNode {
                    name: name.clone(),
                    entries: Vec::new(),
                    children: Some(children),
                };
                proof {
                    assert(node@.entries =~= Seq::<EntryView>::empty());
                }
                nodes.push(node);
                proof {
                    assert(nodes_view(nodes@) =~= before.push(node@));
                }
            },
        }
    }
    nodes
}

impl NiriEditor {
    /// The empty document.
    pub fn new() -> (res: Self)
        ensures
            res@ == Seq::<NodeView>::empty(),
    {
        let res = NiriEditor { nodes: Vec::new() };
        proof {
            assert(res@ =~= Seq::<NodeView>::empty());
        }
        res
    }

    /// The entry values of the node named `key` under `paths`.
    ///
    /// Fails where a step of `paths` names no node, or a node without
    /// children; a missing `key` at the end is no failure.
    pub fn get(&self, paths: &[String], key: &String) -> (res: Result<
        Option<Vec<ConfigValue>>,
        NotFound,
    >)
        ensures
            match res {
                Ok(Some(values)) => spec_get(self@, strings_view(paths@), key@) == Ok::<
                    Option<Seq<ValueView>>,
                    NotFound,
                >(Some(values_view(values@))),
                Ok(None) => spec_get(self@, strings_view(paths@), key@) == Ok::<
                    Option<Seq<ValueView>>,
                    NotFound,
                >(None),
                Err(e) => spec_get(self@, strings_view(paths@), key@) == Err::<
                    Option<Seq<ValueView>>,
                    NotFound,
                >(e),
            },
    {
        let ghost path = strings_view(paths@);
        let mut level: &Vec<ConfigNode> = &self.nodes;
        let mut depth: usize = 0;
        proof {
            assert(path.subrange(0, path.len() as int) =~= path);
        }
        while depth < paths.len()
            invariant
                depth <= paths@.len(),
                path == strings_view(paths@),
                spec_get(self@, path, key@) == spec_get(
                    nodes_view(level@),
                    path.subrange(depth as int, path.len() as int),
                    key@,
                ),
            decreases paths@.len() - depth,
        {
            let ghost rest = path.subrange(depth as int, path.len() as int);
            proof {
                assert(rest[0] == paths@[depth as int]@);
                assert(rest.drop_first() =~= path.subrange(depth + 1, path.len() as int));
            }
            match find(level, &paths[depth]) {
                Some(i) => {
                    match &level[i].children {
                        Some(children) => {
                            level = children;
                        },
                        None => {
                            return Err(NotFound);
                        },
                    }
                },
                None => {
                    return Err(NotFound);
                },
            }
            depth += 1;
        }
        match find(level, key) {
            Some(i) => Ok(Some(values_of(&level[i].entries))),
            None => Ok(None),
        }
    }

    /// The steps of the change that `set` would make with the same
    /// arguments, for a holder of the document in another form.
    pub fn edits(&self, paths: &[String], key: &String, value: Vec<ConfigValue>) -> (res: Vec<Edit>)
        ensures
            edits_view(res@) == spec_edits(self@, strings_view(paths@), key@, values_view(value@)),
    {
        let ghost path = strings_view(paths@);
        let ghost values = values_view(value@);
        let mut res: Vec<Edit> = Vec::new();
        let mut level: Option<&Vec<ConfigNode>> = Some(&self.nodes);
        let mut depth: usize = 0;
        proof {
            assert(path.subrange(0, path.len() as int) =~= path);
            assert(edits_view(res@) + spec_edits(self@, path, key@, values) =~= spec_edits(
                self@,
                path,
                key@,
                values,
            ));
        }
        while depth < paths.len()
            invariant
                depth <= paths@.len(),
                path == strings_view(paths@),
                spec_edits(self@, path, key@, values) == edits_view(res@) + spec_edits(
                    level_view(level),
                    path.subrange(depth as int, path.len() as int),
                    key@,
                    values,
                ),
            decreases paths@.len() - depth,
        {
            let ghost rest = path.subrange(depth as int, path.len() as int);
            let ghost before = edits_view(res@);
            let ghost here = level_view(level);
            proof {
                assert(rest[0] == paths@[depth as int]@);
                assert(rest.drop_first() =~= path.subrange(depth + 1, path.len() as int));
            }
            let found = match level {
                Some(nodes) => find(nodes, &paths[depth]),
                None => {
                    proof {
                        lemma_first_match_unique(here, named(paths@[depth as int]@), 0);
                    }
                    None
                },
            };
            match found {
                Some(i) => {
                    let nodes = level.unwrap();
                    res.push(Edit::Enter { index: i });
                    level =
                    match &nodes[i].children {
                        Some(children) => Some(children),
                        None => None,
                    };
                    proof {
                        assert(level_view(level) =~= spec_below(here[i as int]));
                        assert(edits_view(res@) =~= before + seq![EditView::Enter { index: i as int }]);
                    }
                },
                None => {
                    res.push(Edit::Create { name: paths[depth].clone() });
                    level = None;
                    proof {
                        assert(edits_view(res@) =~= before + seq![
                            EditView::Create { name: paths@[depth as int]@ },
                        ]);
                    }
                },
            }
            proof {
                let next = spec_edits(level_view(level), rest.drop_first(), key@, values);
                assert(spec_edits(here, rest, key@, values) =~= seq![edits_view(res@).last()]
                    + next);
                assert(edits_view(res@) + next =~= before + (seq![edits_view(res@).last()]
                    + next));
            }
            depth += 1;
        }
        let ghost before = edits_view(res@);
        let found = match level {
            Some(nodes) => find(nodes, key),
            None => {
                proof {
                    lemma_first_match_unique(level_view(level), named(key@), 0);
                }
                None
            },
        };
        match found {
            Some(i) => {
                res.push(Edit::Replace { index: i, values: value });
                proof {
                    assert(edits_view(res@) =~= before + seq![
                        EditView::Replace { index: i as int, values },
                    ]);
                }
            },
            None => {
                res.push(Edit::Append { name: key.clone(), values: value });
                proof {
                    assert(edits_view(res@) =~= before + seq![
                        EditView::Append { name: key@, values },
                    ]);
                }
            },
        }
        res
    }

    /// Puts `value` as the entries of the node named `key` under `paths`,
    /// making the nodes that are missing on the way.
    pub fn set(&mut self, paths: &[String], key: &String, value: Vec<ConfigValue>)
        ensures
            final(self)@ == spec_set(
                old(self)@,
                strings_view(paths@),
                key@,
                values_view(value@),
            ),
    {
        let mut nodes: Vec<ConfigNode> = Vec::new();
        std::mem::swap(&mut nodes, &mut self.nodes);
        proof {
            assert(strings_view(paths@).subrange(0, paths@.len() as int) =~= strings_view(
                paths@,
            ));
        }
        let nodes = set_nodes(nodes, paths, 0, key, value);
        self.nodes = nodes;
    }
}

} // verus!
