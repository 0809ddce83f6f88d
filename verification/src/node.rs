//! The layout tree and the attributes by which a window is recognised.
//!
//! Every type comes with a mathematical view in which strings are sequences
//! of characters and vectors are sequences; the contracts of the crate are
//! stated over those views.

use vstd::prelude::*;

verus! {

/// The view of an optional string.
pub open spec fn text(s: Option<String>) -> Option<Seq<char>> {
    match s {
        Some(t) => Some(t@),
        None => None,
    }
}

/// The kind of a node, as the window manager names it.
#[derive(Clone, Copy, Debug, PartialEq, Eq, Structural)]
pub enum NodeType {
    Root,
    Output,
    Workspace,
    Con,
    FloatingCon,
    Dockarea,
}

/// How a container arranges its children.
#[derive(Clone, Copy, Debug, PartialEq, Eq, Structural)]
pub enum NodeLayout {
    SplitH,
    SplitV,
    Stacked,
    Tabbed,
    Output,
    Dockarea,
    Unset,
}

/// A node's share of its parent along the split axis.
///
/// The window manager reports the share as a binary64 number. It is kept as
/// that number's bit pattern, and every computation on it is exact integer
/// arithmetic (see the `share` module).
#[derive(Clone, Copy, Debug, PartialEq, Eq, Structural)]
pub struct Percent {
    pub bits: u64,
}

/// A rule that says which windows may take a placeholder's place. A field
/// that is absent accepts anything.
#[derive(Debug, PartialEq, Eq)]
pub struct Matcher {
    pub app_id: Option<String>,
    pub class: Option<String>,
    pub instance: Option<String>,
    pub name: Option<String>,
}

pub struct MatcherView {
    pub app_id: Option<Seq<char>>,
    pub class: Option<Seq<char>>,
    pub instance: Option<Seq<char>>,
    pub name: Option<Seq<char>>,
}

impl View for Matcher {
    type V = MatcherView;

    open spec fn view(&self) -> MatcherView {
        MatcherView {
            app_id: text(self.app_id),
            class: text(self.class),
            instance: text(self.instance),
            name: text(self.name),
        }
    }
}

impl Clone for Matcher {
    fn clone(&self) -> (r: Self)
        ensures
            r == *self,
    {
        Matcher {
            app_id: self.app_id.clone(),
            class: self.class.clone(),
            instance: self.instance.clone(),
            name: self.name.clone(),
        }
    }
}

/// The view of a list of matchers.
pub open spec fn matchers_view(ms: Seq<Matcher>) -> Seq<MatcherView> {
    ms.map_values(|m: Matcher| m@)
}

/// The X11 properties of a window that runs under the compatibility layer.
#[derive(Debug, PartialEq, Eq)]
pub struct WindowPropertiesLite {
    pub instance: Option<String>,
    pub class: Option<String>,
}

pub struct WindowPropertiesView {
    pub instance: Option<Seq<char>>,
    pub class: Option<Seq<char>>,
}

impl View for WindowPropertiesLite {
    type V = WindowPropertiesView;

    open spec fn view(&self) -> WindowPropertiesView {
        WindowPropertiesView { instance: text(self.instance), class: text(self.class) }
    }
}

impl Clone for WindowPropertiesLite {
    fn clone(&self) -> (r: Self)
        ensures
            r == *self,
    {
        WindowPropertiesLite { instance: self.instance.clone(), class: self.class.clone() }
    }
}

/// The view of optional window properties.
pub open spec fn properties_view(p: Option<WindowPropertiesLite>) -> Option<WindowPropertiesView> {
    match p {
        Some(q) => Some(q@),
        None => None,
    }
}

/// One window as the window manager reports it: its container id and the
/// attributes a `Matcher` looks at.
#[derive(Debug, PartialEq, Eq)]
pub struct Window {
    pub id: i64,
    pub app_id: Option<String>,
    pub name: Option<String>,
    pub class: Option<String>,
    pub instance: Option<String>,
}

pub struct WindowView {
    pub id: int,
    pub app_id: Option<Seq<char>>,
    pub name: Option<Seq<char>>,
    pub class: Option<Seq<char>>,
    pub instance: Option<Seq<char>>,
}

impl View for Window {
    type V = WindowView;

    open spec fn view(&self) -> WindowView {
        WindowView {
            id: self.id as int,
            app_id: text(self.app_id),
            name: text(self.name),
            class: text(self.class),
            instance: text(self.instance),
        }
    }
}

impl Clone for Window {
    fn clone(&self) -> (r: Self)
        ensures
            r == *self,
    {
        Window {
            id: self.id,
            app_id: self.app_id.clone(),
            name: self.name.clone(),
            class: self.class.clone(),
            instance: self.instance.clone(),
        }
    }
}

/// The view of a list of windows.
pub open spec fn windows_view(ws: Seq<Window>) -> Seq<WindowView> {
    ws.map_values(|w: Window| w@)
}

/// A node of a layout tree, live or saved.
///
/// `id` is the container id that the window manager gave the node; a saved
/// document does not record it. A node of type `Con` without children is a
/// window (a leaf); with children it is a container.
#[derive(Debug, PartialEq, Eq)]
pub struct NodeLite {
    pub id: i64,
    pub name: Option<String>,
    pub node_type: NodeType,
    pub layout: NodeLayout,
    pub percent: Option<Percent>,
    pub nodes: Vec<NodeLite>,
    pub num: Option<i32>,
    pub app_id: Option<String>,
    pub window_properties: Option<WindowPropertiesLite>,
    pub swallows: Vec<Matcher>,
}

pub struct NodeView {
    pub id: int,
    pub name: Option<Seq<char>>,
    pub node_type: NodeType,
    pub layout: NodeLayout,
    pub percent: Option<Percent>,
    pub nodes: Seq<NodeView>,
    pub num: Option<i32>,
    pub app_id: Option<Seq<char>>,
    pub window_properties: Option<WindowPropertiesView>,
    pub swallows: Seq<MatcherView>,
}

impl NodeLite {
    /// The node as a value of the model: the view of each field, and of each
    /// child.
    pub open spec fn model(self) -> NodeView
        decreases self,
    {
        NodeView {
            id: self.id as int,
            name: text(self.name),
            node_type: self.node_type,
            layout: self.layout,
            percent: self.percent,
            nodes: Seq::new(
                self.nodes.len() as nat,
                |i: int|
                    if 0 <= i < self.nodes.len() {
                        self.nodes[i].model()
                    } else {
                        arbitrary()
                    },
            ),
            num: self.num,
            app_id: text(self.app_id),
            window_properties: properties_view(self.window_properties),
            swallows: matchers_view(self.swallows@),
        }
    }
}

impl View for NodeLite {
    type V = NodeView;

    open spec fn view(&self) -> NodeView {
        self.model()
    }
}

impl NodeView {
    /// A node without children: a window, where its type is `Con`.
    pub open spec fn is_leaf(self) -> bool {
        self.nodes.len() == 0
    }

    /// The window class, where the node has X11 properties.
    pub open spec fn class(self) -> Option<Seq<char>> {
        match self.window_properties {
            Some(p) => p.class,
            None => None,
        }
    }

    /// The window instance, where the node has X11 properties.
    pub open spec fn instance(self) -> Option<Seq<char>> {
        match self.window_properties {
            Some(p) => p.instance,
            None => None,
        }
    }

    /// The node seen as a window: its container id and what identifies it.
    pub open spec fn window(self) -> WindowView {
        WindowView {
            id: self.id,
            app_id: self.app_id,
            name: self.name,
            class: self.class(),
            instance: self.instance(),
        }
    }
}

impl NodeLite {
    /// The children of the view are the views of the children.
    pub proof fn lemma_view_children(self)
        ensures
            self@.nodes.len() == self.nodes.len(),
            forall|i: int| 0 <= i < self.nodes.len() ==> self@.nodes[i] == self.nodes[i]@,
    {
    }

    /// The window class, where the node has X11 properties.
    pub fn class(&self) -> (r: Option<String>)
        ensures
            text(r) == self@.class(),
    {
        match &self.window_properties {
            Some(p) => p.class.clone(),
            None => None,
        }
    }

    /// The window instance, where the node has X11 properties.
    pub fn instance(&self) -> (r: Option<String>)
        ensures
            text(r) == self@.instance(),
    {
        match &self.window_properties {
            Some(p) => p.instance.clone(),
            None => None,
        }
    }

    /// The node seen as a window: its container id and what identifies it.
    pub fn window(&self) -> (w: Window)
        ensures
            w@ == self@.window(),
    {
        Window {
            id: self.id,
            app_id: self.app_id.clone(),
            name: self.name.clone(),
            class: self.class(),
            instance: self.instance(),
        }
    }
}

} // verus!
