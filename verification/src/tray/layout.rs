//! The layout of the settings menu as a tray host asks for it.
//!
//! The items are numbered in pre-order, so that a click on a row can be
//! answered by its number. A host may ask for part of the tree, down to a
//! depth, and for some of the properties only.
use crate::text::{self, views};
use crate::tray::{MenuAction, MenuItem, MenuItemKind};
use std::collections::HashMap;
use vstd::prelude::*;
use vstd::string::*;
use zbus::zvariant::{OwnedValue, StructureBuilder, Value};

verus! {

broadcast use vstd::std_specs::hash::group_hash_axioms;

/// Trusted: a D-Bus value of the `zvariant` crate, whose contents are known
/// through [`dbus_value`] only.
#[verifier::external_type_specification]
#[verifier::external_body]
pub struct ExOwnedValue(zbus::zvariant::OwnedValue);

/// What a D-Bus value of the menu holds: a text, a flag, or a node of the
/// layout, which is a number, named properties and child values. Values that
/// menus have no use for (file descriptors among them) are `Other`.
pub enum DbusValue {
    Text(Seq<char>),
    Flag(bool),
    Node { id: i32, props: Map<Seq<char>, DbusValue>, children: Seq<DbusValue> },
    Other,
}

/// What the value holds.
pub uninterp spec fn dbus_value(value: OwnedValue) -> DbusValue;

/// Trusted: `Value::from` wraps a string, and `OwnedValue::try_from`, which can
/// fail for file descriptors only, keeps it: the result holds that string.
#[verifier::external_body]
fn text_value(text: &str) -> (r: OwnedValue)
    ensures
        dbus_value(r) == DbusValue::Text(text@),
{
    OwnedValue::try_from(Value::from(text.to_string())).expect("a text is no descriptor")
}

/// Trusted: `Value::from` wraps a boolean, and `OwnedValue::try_from`, which can
/// fail for file descriptors only, keeps it: the result holds that boolean.
#[verifier::external_body]
fn flag_value(flag: bool) -> (r: OwnedValue)
    ensures
        dbus_value(r) == DbusValue::Flag(flag),
{
    OwnedValue::try_from(Value::from(flag)).expect("a flag is no descriptor")
}

/// A named property of a menu row.
#[derive(Debug)]
pub struct MenuProp {
    pub name: String,
    pub value: OwnedValue,
}

/// The dictionary that a list of properties stands for; the last one of a name
/// counts.
pub open spec fn dict_of(props: Seq<MenuProp>) -> Map<Seq<char>, DbusValue>
    decreases props.len(),
{
    if props.len() == 0 {
        Map::empty()
    } else {
        dict_of(props.drop_last()).insert(props.last().name@, dbus_value(props.last().value))
    }
}

/// What each value holds.
pub open spec fn dbus_values(values: Seq<OwnedValue>) -> Seq<DbusValue> {
    values.map_values(|value: OwnedValue| dbus_value(value))
}

pub open spec fn no_other_props(props: Seq<MenuProp>) -> bool {
    forall|i: int| 0 <= i < props.len() ==> !(dbus_value((#[trigger] props[i]).value) is Other)
}

pub open spec fn no_other_values(values: Seq<OwnedValue>) -> bool {
    forall|i: int| 0 <= i < values.len() ==> !(dbus_value(#[trigger] values[i]) is Other)
}

/// Trusted: `StructureBuilder` collects the fields it is given, in order, into
/// a structure, and `OwnedValue::try_from`, which can fail for file descriptors
/// only, keeps it: the result holds the number, the properties as a dictionary
/// and the children.
#[verifier::external_body]
fn node_value(id: i32, props: Vec<MenuProp>, children: Vec<OwnedValue>) -> (r: OwnedValue)
    requires
        no_other_props(props@),
        no_other_values(children@),
    ensures
        dbus_value(r) == (DbusValue::Node {
            id,
            props: dict_of(props@),
            children: dbus_values(children@),
        }),
{
    let props: HashMap<String, OwnedValue> =
        props.into_iter().map(|prop| (prop.name, prop.value)).collect();
    let node = StructureBuilder::new()
        .add_field(id)
        .add_field(props)
        .add_field(children)
        .build();
    OwnedValue::try_from(Value::from(node)).expect("a node holds no descriptor")
}

/// One row of the layout, or its root.
#[derive(Debug)]
pub struct LayoutNode {
    pub id: i32,
    pub label: String,
    pub enabled: bool,
    pub children: Vec<LayoutNode>,
}

/// What a row of the layout says.
pub struct NodeModel {
    pub id: i32,
    pub label: Seq<char>,
    pub enabled: bool,
    pub children: Seq<NodeModel>,
}

pub open spec fn model_of(node: LayoutNode) -> NodeModel
    decreases node,
{
    NodeModel {
        id: node.id,
        label: node.label@,
        enabled: node.enabled,
        children: Seq::new(
            node.children@.len(),
            |i: int|
                if 0 <= i < node.children@.len() {
                    model_of(node.children@[i])
                } else {
                    arbitrary()
                },
        ),
    }
}

pub open spec fn models_of(nodes: Seq<LayoutNode>) -> Seq<NodeModel> {
    nodes.map_values(|node: LayoutNode| model_of(node))
}

/// How many rows the first `n` items and everything below them make.
pub open spec fn rows_upto(items: Vec<MenuItem>, n: nat) -> nat
    decreases items, n,
{
    if n == 0 || n > items@.len() {
        0
    } else {
        rows_upto(items, (n - 1) as nat) + 1 + match items@[n - 1].kind {
            MenuItemKind::Submenu(sub) => rows_upto(sub, sub@.len()),
            _ => 0,
        }
    }
}

/// The rows of the first `n` items, numbered in pre-order from `first` on.
pub open spec fn laid_out(items: Vec<MenuItem>, n: nat, first: int) -> Seq<NodeModel>
    decreases items, n,
{
    if n == 0 || n > items@.len() {
        Seq::empty()
    } else {
        let id = first + rows_upto(items, (n - 1) as nat);
        let item = items@[n - 1];
        laid_out(items, (n - 1) as nat, first).push(
            NodeModel {
                id: id as i32,
                label: item.label@,
                enabled: !(item.kind is Disabled),
                children: match item.kind {
                    MenuItemKind::Submenu(sub) => laid_out(sub, sub@.len(), id + 1),
                    _ => Seq::empty(),
                },
            },
        )
    }
}

/// What a click on each row of the first `n` items does, by its number.
pub open spec fn actions_upto(items: Vec<MenuItem>, n: nat, first: int) -> Map<i32, MenuAction>
    decreases items, n,
{
    if n == 0 || n > items@.len() {
        Map::empty()
    } else {
        let id = first + rows_upto(items, (n - 1) as nat);
        let before = actions_upto(items, (n - 1) as nat, first);
        match items@[n - 1].kind {
            MenuItemKind::Submenu(sub) => before.union_prefer_right(
                actions_upto(sub, sub@.len(), id + 1),
            ),
            MenuItemKind::Action(action) => before.insert(id as i32, action),
            MenuItemKind::Disabled => before,
        }
    }
}

proof fn lemma_rows_grow(items: Vec<MenuItem>, m: nat, n: nat)
    requires
        m <= n <= items@.len(),
    ensures
        rows_upto(items, m) + (n - m) <= rows_upto(items, n),
    decreases n - m,
{
    if m < n {
        lemma_rows_grow(items, m, (n - 1) as nat);
    }
}

/// Number `items` in pre-order from `next_id` on, and record what a click on
/// each enabled row does.
pub fn build_layout_tree(
    items: &Vec<MenuItem>,
    next_id: &mut i32,
    actions: &mut HashMap<i32, MenuAction>,
) -> (r: Vec<LayoutNode>)
    requires
        *old(next_id) + rows_upto(*items, items@.len()) <= i32::MAX,
    ensures
        models_of(r@) == laid_out(*items, items@.len(), *old(next_id) as int),
        *final(next_id) == *old(next_id) + rows_upto(*items, items@.len()),
        final(actions)@ == old(actions)@.union_prefer_right(
            actions_upto(*items, items@.len(), *old(next_id) as int),
        ),
    decreases *items,
{
    let ghost first = *next_id as int;
    let ghost actions0 = actions@;
    let mut out: Vec<LayoutNode> = Vec::new();
    let mut i: usize = 0;
    proof {
        assert(models_of(out@) =~= Seq::<NodeModel>::empty());
        assert(actions0.union_prefer_right(Map::empty()) =~= actions0);
    }
    while i < items.len()
        invariant
            i <= items.len(),
            first == *old(next_id),
            first + rows_upto(*items, items@.len()) <= i32::MAX,
            *next_id == first + rows_upto(*items, i as nat),
            models_of(out@) == laid_out(*items, i as nat, first),
            actions@ == actions0.union_prefer_right(actions_upto(*items, i as nat, first)),
        decreases items.len() - i,
    {
        proof {
            lemma_rows_grow(*items, (i + 1) as nat, items@.len());
        }
        let item = &items[i];
        let id: i32 = *next_id;
        let ghost before = actions_upto(*items, i as nat, first);
        let ghost actions1 = actions@;
        let ghost out0 = out@;
        *next_id = *next_id + 1;
        proof {
            assert(decreases_to!(*items => items@[i as int]));
        }
        let (enabled, children): (bool, Vec<LayoutNode>) = match &item.kind {
            MenuItemKind::Submenu(sub) => {
                let children = build_layout_tree(sub, next_id, actions);
                proof {
                    assert(actions@ =~= actions0.union_prefer_right(
                        before.union_prefer_right(actions_upto(*sub, sub@.len(), id + 1)),
                    ));
                }
                (true, children)
            },
            MenuItemKind::Action(action) => {
                let _ = actions.insert(id, *action);
                proof {
                    assert(actions@ =~= actions0.union_prefer_right(before.insert(id, *action)));
                }
                (true, Vec::new())
            },
            MenuItemKind::Disabled => (false, Vec::new()),
        };
        let node = LayoutNode { id, label: item.label.clone(), enabled, children };
        proof {
            let model = model_of(node);
            let rows = match items@[i as int].kind {
                MenuItemKind::Submenu(sub) => laid_out(sub, sub@.len(), id + 1),
                _ => Seq::empty(),
            };
            assert(models_of(node.children@) =~= rows);
            assert(model.children =~= rows);
            assert(models_of(out0.push(node)) =~= models_of(out0).push(model));
        }
        out.push(node);
        i = i + 1;
    }
    out
}

/// The first row of the tree, in pre-order, with the number `id`.
pub open spec fn find_model(node: NodeModel, id: i32) -> Option<NodeModel>
    decreases node, node.children.len() + 1,
{
    if node.id == id { Some(node) } else { find_among(node, 0, id) }
}

/// The first such row below the children of `node` from number `i` on.
pub open spec fn find_among(node: NodeModel, i: nat, id: i32) -> Option<NodeModel>
    decreases node, node.children.len() - i,
{
    if i >= node.children.len() {
        None
    } else {
        let found = find_model(node.children[i as int], id);
        if found is Some { found } else { find_among(node, i + 1, id) }
    }
}

/// Which properties a host asked for: all where it names none.
pub open spec fn requested(names: Seq<Seq<char>>, name: Seq<char>) -> bool {
    names.len() == 0 || names.contains(name)
}

/// The properties of a row, as far as they are asked for.
pub open spec fn props_of(
    label: Seq<char>,
    is_submenu: bool,
    enabled: bool,
    names: Seq<Seq<char>>,
) -> Map<Seq<char>, DbusValue> {
    let m: Map<Seq<char>, DbusValue> = Map::empty();
    let m = if requested(names, "label"@) {
        m.insert("label"@, DbusValue::Text(label))
    } else {
        m
    };
    let m = if requested(names, "enabled"@) {
        m.insert("enabled"@, DbusValue::Flag(enabled))
    } else {
        m
    };
    let m = if requested(names, "visible"@) {
        m.insert("visible"@, DbusValue::Flag(true))
    } else {
        m
    };
    if is_submenu && requested(names, "children-display"@) {
        m.insert("children-display"@, DbusValue::Text("submenu"@))
    } else {
        m
    }
}

/// What a row and everything below it down to `depth` looks like over D-Bus.
pub open spec fn value_of(node: NodeModel, depth: Option<nat>, names: Seq<Seq<char>>) -> DbusValue
    decreases node, 1nat,
{
    DbusValue::Node {
        id: node.id,
        props: props_of(node.label, node.children.len() > 0, node.enabled, names),
        children: children_of(node, depth, names),
    }
}

/// What the children of a row look like over D-Bus; none at depth zero.
pub open spec fn children_of(
    node: NodeModel,
    depth: Option<nat>,
    names: Seq<Seq<char>>,
) -> Seq<DbusValue>
    decreases node, 0nat,
{
    let below = match depth {
        Some(d) => Some((d - 1) as nat),
        None => None,
    };
    if depth == Some(0nat) {
        Seq::empty()
    } else {
        Seq::new(
            node.children.len(),
            |i: int|
                if 0 <= i < node.children.len() {
                    value_of(node.children[i], below, names)
                } else {
                    DbusValue::Other
                },
        )
    }
}

pub open spec fn depth_view(depth: Option<usize>) -> Option<nat> {
    match depth {
        Some(d) => Some(d as nat),
        None => None,
    }
}

pub fn property_requested(property_names: &Vec<String>, name: &str) -> (r: bool)
    ensures
        r == requested(views(property_names@), name@),
{
    if property_names.len() == 0 {
        return true;
    }
    let mut i: usize = 0;
    while i < property_names.len()
        invariant
            i <= property_names.len(),
            forall|k: int| 0 <= k < i ==> (#[trigger] property_names@[k])@ != name@,
        decreases property_names.len() - i,
    {
        if text::str_eq(property_names[i].as_str(), name) {
            proof {
                assert(views(property_names@)[i as int] == name@);
            }
            return true;
        }
        i = i + 1;
    }
    proof {
        let names = views(property_names@);
        assert forall|k: int| 0 <= k < names.len() implies names[k] != name@ by {
            assert(property_names@[k]@ != name@);
        }
    }
    false
}

fn menu_props(
    label: &str,
    is_submenu: bool,
    enabled: bool,
    property_names: &Vec<String>,
) -> (r: Vec<MenuProp>)
    ensures
        dict_of(r@) == props_of(label@, is_submenu, enabled, views(property_names@)),
        no_other_props(r@),
{
    let mut props: Vec<MenuProp> = Vec::new();
    let ghost mut dict: Map<Seq<char>, DbusValue> = Map::empty();
    proof {
        assert(dict_of(props@) == dict);
    }
    if property_requested(property_names, "label") {
        let ghost before = props@;
        props.push(MenuProp { name: "label".to_owned(), value: text_value(label) });
        proof {
            assert(props@.drop_last() =~= before);
            assert(props@.last().name@ == "label"@);
            assert(dict_of(props@) == dict_of(before).insert("label"@, DbusValue::Text(label@)));
            dict = dict.insert("label"@, DbusValue::Text(label@));
        }
    }
    if property_requested(property_names, "enabled") {
        let ghost before = props@;
        props.push(MenuProp { name: "enabled".to_owned(), value: flag_value(enabled) });
        proof {
            assert(props@.drop_last() =~= before);
            assert(props@.last().name@ == "enabled"@);
            assert(dict_of(props@) == dict_of(before).insert("enabled"@, DbusValue::Flag(enabled)));
            dict = dict.insert("enabled"@, DbusValue::Flag(enabled));
        }
    }
    if property_requested(property_names, "visible") {
        let ghost before = props@;
        props.push(MenuProp { name: "visible".to_owned(), value: flag_value(true) });
        proof {
            assert(props@.drop_last() =~= before);
            assert(props@.last().name@ == "visible"@);
            assert(dict_of(props@) == dict_of(before).insert("visible"@, DbusValue::Flag(true)));
            dict = dict.insert("visible"@, DbusValue::Flag(true));
        }
    }
    if is_submenu && property_requested(property_names, "children-display") {
        let ghost before = props@;
        props.push(MenuProp { name: "children-display".to_owned(), value: text_value("submenu") });
        proof {
            assert(props@.drop_last() =~= before);
            assert(props@.last().name@ == "children-display"@);
            assert(dict_of(props@) == dict_of(before).insert("children-display"@, DbusValue::Text("submenu"@)));
            dict = dict.insert("children-display"@, DbusValue::Text("submenu"@));
        }
    }
    props
}

/// One node of a layout reply: its number, properties and children.
#[derive(Debug)]
pub struct MenuNode {
    pub id: i32,
    pub props: Vec<MenuProp>,
    pub children: Vec<OwnedValue>,
}

impl LayoutNode {
    /// The root above the given rows.
    pub fn root(children: Vec<LayoutNode>) -> (r: Self)
        ensures
            model_of(r) == (NodeModel {
                id: 0,
                label: Seq::empty(),
                enabled: true,
                children: models_of(children@),
            }),
    {
        let r = LayoutNode { id: 0, label: String::new(), enabled: true, children };
        proof {
            assert(model_of(r).children =~= models_of(children@));
        }
        r
    }

    pub fn is_submenu(&self) -> (r: bool)
        ensures
            r == (model_of(*self).children.len() > 0),
    {
        self.children.len() > 0
    }

    /// The first row with the number `id`, in pre-order.
    pub fn find(&self, id: i32) -> (r: Option<&Self>)
        ensures
            match r {
                Some(node) => find_model(model_of(*self), id) == Some(model_of(*node)),
                None => find_model(model_of(*self), id) is None,
            },
        decreases *self,
    {
        if self.id == id {
            return Some(self);
        }
        let ghost model = model_of(*self);
        let mut i: usize = 0;
        while i < self.children.len()
            invariant
                i <= self.children.len(),
                model == model_of(*self),
                find_model(model, id) == find_among(model, i as nat, id),
            decreases self.children.len() - i,
        {
            proof {
                assert(decreases_to!(self.children => self.children@[i as int]));
                assert(model.children[i as int] == model_of(self.children@[i as int]));
            }
            if let Some(found) = self.children[i].find(id) {
                return Some(found);
            }
            i = i + 1;
        }
        None
    }

    fn to_return(&self, depth: Option<usize>, property_names: &Vec<String>) -> (r: MenuNode)
        ensures
            r.id == self.id,
            dict_of(r.props@) == if self.id == 0 {
                Map::empty()
            } else {
                props_of(
                    self.label@,
                    model_of(*self).children.len() > 0,
                    self.enabled,
                    views(property_names@),
                )
            },
            dbus_values(r.children@) == children_of(
                model_of(*self),
                depth_view(depth),
                views(property_names@),
            ),
    {
        let props = if self.id == 0 {
            Vec::new()
        } else {
            menu_props(self.label.as_str(), self.is_submenu(), self.enabled, property_names)
        };
        MenuNode { id: self.id, props, children: self.rendered_children(depth, property_names) }
    }

    fn to_owned_value(&self, depth: Option<usize>, property_names: &Vec<String>) -> (r: OwnedValue)
        ensures
            dbus_value(r) == value_of(model_of(*self), depth_view(depth), views(property_names@)),
        decreases *self, 1nat,
    {
        let props = menu_props(
            self.label.as_str(),
            self.is_submenu(),
            self.enabled,
            property_names,
        );
        let children = self.rendered_children(depth, property_names);
        node_value(self.id, props, children)
    }

    fn rendered_children(&self, depth: Option<usize>, property_names: &Vec<String>) -> (r: Vec<
        OwnedValue,
    >)
        ensures
            dbus_values(r@) == children_of(
                model_of(*self),
                depth_view(depth),
                views(property_names@),
            ),
            no_other_values(r@),
        decreases *self, 0nat,
    {
        let below: Option<usize> = match depth {
            Some(0) => {
                let r: Vec<OwnedValue> = Vec::new();
                proof {
                    assert(dbus_values(r@) =~= Seq::<DbusValue>::empty());
                }
                return r;
            },
            Some(depth) => Some(depth - 1),
            None => None,
        };
        let ghost model = model_of(*self);
        let ghost names = views(property_names@);
        let ghost values = children_of(model, depth_view(depth), names);
        let mut r: Vec<OwnedValue> = Vec::new();
        let mut i: usize = 0;
        proof {
            assert(dbus_values(r@) =~= values.subrange(0, 0));
        }
        while i < self.children.len()
            invariant
                i <= self.children.len(),
                model == model_of(*self),
                names == views(property_names@),
                values == children_of(model, depth_view(depth), names),
                depth != Some(0usize),
                depth_view(below) == match depth_view(depth) {
                    Some(d) => Some((d - 1) as nat),
                    None => None,
                },
                dbus_values(r@) == values.subrange(0, i as int),
                no_other_values(r@),
            decreases self.children.len() - i,
        {
            proof {
                assert(decreases_to!(self.children => self.children@[i as int]));
                assert(model.children[i as int] == model_of(self.children@[i as int]));
            }
            let value = self.children[i].to_owned_value(below, property_names);
            proof {
                assert(values[i as int] == dbus_value(value));
                assert(dbus_values(r@.push(value)) =~= dbus_values(r@).push(dbus_value(value)));
                assert(values.subrange(0, i + 1) =~= values.subrange(0, i as int).push(
                    values[i as int],
                ));
            }
            r.push(value);
            i = i + 1;
        }
        proof {
            assert(values.subrange(0, i as int) =~= values);
        }
        r
    }
}

/// The whole tree of a menu.
pub open spec fn root_of(items: Vec<MenuItem>) -> NodeModel {
    NodeModel {
        id: 0,
        label: Seq::empty(),
        enabled: true,
        children: laid_out(items, items@.len(), 1),
    }
}

/// The depth that a host means: all levels where it is negative.
pub open spec fn depth_of(recursion_depth: i32) -> Option<nat> {
    if recursion_depth < 0 { None } else { Some(recursion_depth as nat) }
}

/// The reply to a request for the layout below row `parent_id`, and what a
/// click on each row of the menu does. A row that does not exist is empty.
pub fn layout_for_request(
    items: &Vec<MenuItem>,
    parent_id: i32,
    recursion_depth: i32,
    property_names: &Vec<String>,
) -> (r: (MenuNode, HashMap<i32, MenuAction>))
    requires
        1 + rows_upto(*items, items@.len()) <= i32::MAX,
    ensures
        r.1@ == actions_upto(*items, items@.len(), 1),
        ({
            let names = views(property_names@);
            match find_model(root_of(*items), parent_id) {
                Some(node) => {
                    &&& r.0.id == node.id
                    &&& dict_of(r.0.props@) == if node.id == 0 {
                        Map::empty()
                    } else {
                        props_of(node.label, node.children.len() > 0, node.enabled, names)
                    }
                    &&& dbus_values(r.0.children@) == children_of(
                        node,
                        depth_of(recursion_depth),
                        names,
                    )
                },
                None => {
                    &&& r.0.id == parent_id
                    &&& r.0.props@.len() == 0
                    &&& r.0.children@.len() == 0
                },
            }
        }),
{
    let mut actions: HashMap<i32, MenuAction> = HashMap::new();
    let mut next_id: i32 = 1;
    let tree = build_layout_tree(items, &mut next_id, &mut actions);
    proof {
        assert(Map::<i32, MenuAction>::empty().union_prefer_right(
            actions_upto(*items, items@.len(), 1),
        ) =~= actions_upto(*items, items@.len(), 1));
    }
    let root = LayoutNode::root(tree);
    let depth: Option<usize> = if recursion_depth < 0 {
        None
    } else {
        Some(recursion_depth as usize)
    };
    let node = match root.find(parent_id) {
        Some(node) => node.to_return(depth, property_names),
        None => MenuNode { id: parent_id, props: Vec::new(), children: Vec::new() },
    };
    (node, actions)
}

/// The menu as it is served: what a click on each row of the last layout does,
/// and how many layouts were handed out.
#[derive(Debug)]
pub struct DbusMenu {
    pub actions: HashMap<i32, MenuAction>,
    pub revision: u32,
}

impl DbusMenu {
    pub fn new() -> (r: Self)
        ensures
            r.actions@ == Map::<i32, MenuAction>::empty(),
            r.revision == 0,
    {
        DbusMenu { actions: HashMap::new(), revision: 0 }
    }

    /// Hand out a layout; from now on clicks are answered by it.
    pub fn get_layout(
        &mut self,
        items: &Vec<MenuItem>,
        parent_id: i32,
        recursion_depth: i32,
        property_names: &Vec<String>,
    ) -> (r: (u32, MenuNode))
        requires
            1 + rows_upto(*items, items@.len()) <= i32::MAX,
        ensures
            final(self).actions@ == actions_upto(*items, items@.len(), 1),
            final(self).revision == if old(self).revision == u32::MAX {
                0
            } else {
                (old(self).revision + 1) as u32
            },
            r.0 == final(self).revision,
            ({
                let names = views(property_names@);
                match find_model(root_of(*items), parent_id) {
                    Some(node) => {
                        &&& r.1.id == node.id
                        &&& dict_of(r.1.props@) == if node.id == 0 {
                            Map::empty()
                        } else {
                            props_of(node.label, node.children.len() > 0, node.enabled, names)
                        }
                        &&& dbus_values(r.1.children@) == children_of(
                            node,
                            depth_of(recursion_depth),
                            names,
                        )
                    },
                    None => {
                        &&& r.1.id == parent_id
                        &&& r.1.props@.len() == 0
                        &&& r.1.children@.len() == 0
                    },
                }
            }),
    {
        let (node, actions) = layout_for_request(
            items,
            parent_id,
            recursion_depth,
            property_names,
        );
        self.actions = actions;
        self.revision = self.revision.wrapping_add(1);
        (self.revision, node)
    }

    /// The action of a row on which the event happened; only clicks do
    /// anything.
    pub fn event(&self, id: i32, event_id: &str) -> (r: Option<MenuAction>)
        ensures
            r == if event_id@ == "clicked"@ && self.actions@.dom().contains(id) {
                Some(self.actions@[id])
            } else {
                None
            },
    {
        if !text::str_eq(event_id, "clicked") {
            return None;
        }
        match self.actions.get(&id) {
            Some(action) => Some(*action),
            None => None,
        }
    }
}

proof fn lemma_actions_range(items: Vec<MenuItem>, n: nat, first: int, id: i32)
    requires
        n <= items@.len(),
        0 <= first,
        first + rows_upto(items, n) <= i32::MAX,
        actions_upto(items, n, first).dom().contains(id),
    ensures
        first <= id < first + rows_upto(items, n),
    decreases items, n,
{
    if n > 0 {
        let at = first + rows_upto(items, (n - 1) as nat);
        let before = actions_upto(items, (n - 1) as nat, first);
        lemma_rows_grow(items, (n - 1) as nat, n);
        if before.dom().contains(id) {
            lemma_actions_range(items, (n - 1) as nat, first, id);
        } else {
            match items@[n - 1].kind {
                MenuItemKind::Submenu(sub) => {
                    lemma_actions_range(sub, sub@.len(), at + 1, id);
                },
                _ => {},
            }
        }
    }
}

proof fn lemma_actions_extend(items: Vec<MenuItem>, m: nat, n: nat, first: int, id: i32)
    requires
        m <= n <= items@.len(),
        0 <= first,
        first + rows_upto(items, n) <= i32::MAX,
        id < first + rows_upto(items, m),
    ensures
        actions_upto(items, n, first).dom().contains(id) <==> actions_upto(
            items,
            m,
            first,
        ).dom().contains(id),
        actions_upto(items, m, first).dom().contains(id) ==> actions_upto(items, n, first)[id]
            == actions_upto(items, m, first)[id],
    decreases n - m,
{
    if m < n {
        lemma_rows_grow(items, m, (n - 1) as nat);
        lemma_rows_grow(items, (n - 1) as nat, n);
        lemma_actions_extend(items, m, (n - 1) as nat, first, id);
        let at = first + rows_upto(items, (n - 1) as nat);
        match items@[n - 1].kind {
            MenuItemKind::Submenu(sub) => {
                if actions_upto(sub, sub@.len(), at + 1).dom().contains(id) {
                    lemma_actions_range(sub, sub@.len(), at + 1, id);
                }
            },
            _ => {},
        }
    }
}

/// A click on a row of the menu does what that row says: a row with an action
/// carries it under its number, one that is disabled carries none.
pub proof fn clicks_do_what_the_rows_say(items: Vec<MenuItem>, i: int)
    requires
        0 <= i < items@.len(),
        1 + rows_upto(items, items@.len()) <= i32::MAX,
    ensures
        ({
            let id = (1 + rows_upto(items, i as nat)) as i32;
            let actions = actions_upto(items, items@.len(), 1);
            match items@[i].kind {
                MenuItemKind::Action(action) => actions.dom().contains(id) && actions[id] == action,
                MenuItemKind::Disabled => !actions.dom().contains(id),
                MenuItemKind::Submenu(_) => !actions.dom().contains(id),
            }
        }),
{
    let n = items@.len();
    let id = (1 + rows_upto(items, i as nat)) as i32;
    lemma_rows_grow(items, (i + 1) as nat, n);
    lemma_rows_grow(items, i as nat, (i + 1) as nat);
    lemma_actions_extend(items, (i + 1) as nat, n, 1, id);
    if actions_upto(items, i as nat, 1).dom().contains(id) {
        lemma_actions_range(items, i as nat, 1, id);
    }
    match items@[i].kind {
        MenuItemKind::Submenu(sub) => {
            if actions_upto(sub, sub@.len(), id + 1).dom().contains(id) {
                lemma_actions_range(sub, sub@.len(), id + 1, id);
            }
        },
        _ => {},
    }
}

/// A request at depth zero gets a row without its children, and one without a
/// limit gets them all.
pub proof fn depth_limits_the_reply(node: NodeModel, names: Seq<Seq<char>>)
    ensures
        children_of(node, Some(0), names).len() == 0,
        children_of(node, None, names).len() == node.children.len(),
{
}

/// A row describes itself by its label, by whether it can be chosen and by its being
/// visible, and a submenu by that; of named properties only those are given.
pub proof fn rows_describe_themselves(
    label: Seq<char>,
    is_submenu: bool,
    enabled: bool,
    names: Seq<Seq<char>>,
)
    ensures
        ({
            let all = props_of(label, is_submenu, enabled, Seq::empty());
            &&& all.dom().contains("label"@) && all["label"@] == DbusValue::Text(label)
            &&& all.dom().contains("enabled"@) && all["enabled"@] == DbusValue::Flag(enabled)
            &&& all.dom().contains("visible"@) && all["visible"@] == DbusValue::Flag(true)
            &&& all.dom().contains("children-display"@) <==> is_submenu
            &&& is_submenu ==> all["children-display"@] == DbusValue::Text("submenu"@)
            &&& names.len() > 0 ==> forall|name: Seq<char>|
                props_of(label, is_submenu, enabled, names).dom().contains(name) <==> names.contains(
                    name,
                ) && #[trigger] all.dom().contains(name)
        }),
{
    reveal_strlit("label");
    reveal_strlit("enabled");
    reveal_strlit("visible");
    reveal_strlit("children-display");
    assert("label"@.len() == 5 && "enabled"@.len() == 7 && "visible"@.len() == 7
        && "children-display"@.len() == 16);
    assert("enabled"@[0] == 'e' && "visible"@[0] == 'v');
}

/// The rows are numbered from one on, in the order in which they stand, each submenu's
/// rows right behind it; the menu itself has number zero.
pub proof fn rows_are_numbered_in_order(items: Vec<MenuItem>, i: int)
    requires
        0 <= i < items@.len(),
        rows_upto(items, items@.len()) + 1 <= i32::MAX,
    ensures
        root_of(items).id == 0,
        root_of(items).children.len() == items@.len(),
        root_of(items).children[0].id == 1,
        root_of(items).children[i].label == items@[i].label@,
        root_of(items).children[i].enabled <==> !(items@[i].kind is Disabled),
        i > 0 && !(items@[i - 1].kind is Submenu) ==> root_of(items).children[i].id
            == root_of(items).children[i - 1].id + 1,
        i > 0 && items@[i - 1].kind is Submenu ==> root_of(items).children[i].id > root_of(
            items,
        ).children[i - 1].id + root_of(items).children[i - 1].children.len(),
{
    lemma_rows_of(items, items@.len(), 1, i);
    lemma_rows_of(items, items@.len(), 1, 0);
    if i > 0 {
        lemma_rows_of(items, items@.len(), 1, i - 1);
        lemma_rows_grow(items, i as nat, items@.len());
        lemma_rows_grow(items, (i - 1) as nat, items@.len());
        if items@[i - 1].kind is Submenu {
            let sub = items@[i - 1].kind->Submenu_0;
            lemma_rows_at_least(sub, sub@.len());
            lemma_laid_out_len(sub, sub@.len(), 1int + rows_upto(items, (i - 1) as nat) + 1);
        }
    }
}

proof fn lemma_laid_out_len(items: Vec<MenuItem>, n: nat, first: int)
    requires
        n <= items@.len(),
    ensures
        laid_out(items, n, first).len() == n,
    decreases n,
{
    if n > 0 {
        lemma_laid_out_len(items, (n - 1) as nat, first);
    }
}

proof fn lemma_rows_at_least(items: Vec<MenuItem>, n: nat)
    requires
        n <= items@.len(),
    ensures
        rows_upto(items, n) >= n,
    decreases n,
{
    if n > 0 {
        lemma_rows_at_least(items, (n - 1) as nat);
    }
}

proof fn lemma_rows_of(items: Vec<MenuItem>, n: nat, first: int, i: int)
    requires
        0 <= i < n <= items@.len(),
        0 <= first,
        first + rows_upto(items, items@.len()) <= i32::MAX,
    ensures
        laid_out(items, n, first).len() == n,
        laid_out(items, n, first)[i].id == first + rows_upto(items, i as nat),
        laid_out(items, n, first)[i].label == items@[i].label@,
        laid_out(items, n, first)[i].enabled <==> !(items@[i].kind is Disabled),
        items@[i].kind is Submenu ==> laid_out(items, n, first)[i].children == laid_out(
            items@[i].kind->Submenu_0,
            items@[i].kind->Submenu_0@.len(),
            first + rows_upto(items, i as nat) + 1,
        ),
    decreases n,
{
    lemma_laid_out_len(items, (n - 1) as nat, first);
    lemma_rows_grow(items, i as nat, items@.len());
    if i < n - 1 {
        lemma_rows_of(items, (n - 1) as nat, first, i);
    }
}

/// What is found by a number has that number; the menu itself is found by its own, and so
/// is something by the number of each of its rows.
pub proof fn rows_are_found_by_their_numbers(node: NodeModel, id: i32, i: int)
    ensures
        find_model(node, node.id) == Some(node),
        find_model(node, id) is Some ==> find_model(node, id)->0.id == id,
        0 <= i < node.children.len() ==> find_model(node, node.children[i].id) is Some,
{
    lemma_found(node, id);
    if 0 <= i < node.children.len() && node.children[i].id != node.id {
        lemma_found_among(node, 0, i);
    }
}

proof fn lemma_found(node: NodeModel, id: i32)
    ensures
        find_model(node, id) is Some ==> find_model(node, id)->0.id == id,
    decreases node, node.children.len() + 1,
{
    if node.id != id {
        lemma_found_below(node, 0, id);
    }
}

proof fn lemma_found_below(node: NodeModel, i: nat, id: i32)
    ensures
        find_among(node, i, id) is Some ==> find_among(node, i, id)->0.id == id,
    decreases node, node.children.len() - i,
{
    if i < node.children.len() {
        lemma_found(node.children[i as int], id);
        lemma_found_below(node, i + 1, id);
    }
}

proof fn lemma_found_among(node: NodeModel, from: nat, i: int)
    requires
        from <= i < node.children.len(),
    ensures
        find_among(node, from, node.children[i].id) is Some,
    decreases i - from,
{
    let id = node.children[i].id;
    let found = find_model(node.children[from as int], id);
    if from < i {
        lemma_found_among(node, from + 1, i);
    } else {
        assert(found == Some(node.children[i]));
    }
    assert(find_among(node, from, id) == if found is Some {
        found
    } else {
        find_among(node, from + 1, id)
    });
}

} // verus!
