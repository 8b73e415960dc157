//! Remote UI extension surfaces: manifest entries, widget slots, view trees,
//! and the host rules that validate and name them.

use vstd::prelude::*;
use crate::text::{decimal, join3, push_char, push_decimal};

verus! {

#[derive(Clone, Copy, Debug, PartialEq, Eq, Structural)]
pub enum MenuLocation {
    CommandPalette,
    ItemTabContext,
    EditorContext,
    ProjectPanelContext,
    PanelOverflow,
}

#[derive(Clone, Copy, Debug, PartialEq, Eq, Structural)]
pub enum ContextActionTarget {
    ItemTab,
    Editor,
    ProjectPanel,
    Panel,
}

#[derive(Clone, Copy, Debug, PartialEq, Eq, Structural)]
pub enum DockSide {
    Left,
    Bottom,
    Right,
}

#[derive(Clone, Copy, Debug, PartialEq, Eq, Structural)]
pub enum DockPosition {
    Left,
    Bottom,
    Right,
}

#[derive(Clone, Copy, Debug, PartialEq, Eq, Structural)]
pub enum WidgetSide {
    Left,
    Right,
}

#[derive(Clone, Copy, Debug, PartialEq, Eq, Structural)]
pub enum FooterWidgetZone {
    Left,
    Center,
    Right,
}

#[derive(Clone, Copy, Debug, PartialEq, Eq, Structural)]
pub enum WidgetSize {
    Small,
    Medium,
    Large,
}

#[derive(Clone, Copy, Debug, PartialEq, Eq, Structural)]
pub enum WidgetSurface {
    Titlebar,
    Footer,
}

#[derive(Clone, Copy, Debug, PartialEq, Eq, Structural)]
pub enum StripSide {
    Left,
    Center,
    Right,
}

/// A progress bar's value and its maximum.
#[derive(Clone, Copy, Debug, PartialEq, Eq, Structural)]
pub struct ProgressBarProps {
    pub value: u32,
    pub max_value: u32,
}

/// The kind of a node in a remote view tree, with its payload.
#[derive(Debug)]
pub enum RemoteViewNodeKind {
    Row,
    Column,
    Stack,
    Text(String),
    Icon(String),
    Badge(String),
    Button(String),
    ProgressBar(ProgressBarProps),
    Toggle(bool),
    Checkbox(bool),
    TextInput(String),
    Divider,
    Spacer,
    ScrollView,
    VirtualList,
}

/// A named property of a view node.
#[derive(Debug)]
pub struct RemoteViewProperty {
    pub name: String,
    pub value: String,
}

/// One node of a remote view tree.
#[derive(Debug)]
pub struct RemoteViewNode {
    pub node_id: String,
    pub parent_id: Option<String>,
    pub kind: RemoteViewNodeKind,
    pub properties: Vec<RemoteViewProperty>,
}

/// A remote view: its revision, root and nodes.
#[derive(Debug)]
pub struct RemoteViewTree {
    pub revision: u64,
    pub root_id: String,
    pub nodes: Vec<RemoteViewNode>,
}

/// The id under which the host registers an extension's local item.
pub open spec fn qualified_id(extension_id: Seq<char>, local_id: Seq<char>) -> Seq<char> {
    extension_id + "::"@ + local_id
}

/// `extension_id::local_id`.
pub fn qualified_remote_ui_id(extension_id: &str, local_id: &str) -> (r: String)
    ensures
        r@ == qualified_id(extension_id@, local_id@),
{
    join3(extension_id, "::", local_id)
}

/// The text the command palette searches for a remote command.
pub open spec fn search_text(
    extension_id: Seq<char>,
    command_id: Seq<char>,
    title: Seq<char>,
    description: Option<Seq<char>>,
) -> Seq<char> {
    let q = qualified_id(extension_id, command_id);
    match description {
        Some(d) if d.len() > 0 => title + " "@ + d + " "@ + extension_id + " "@ + q,
        _ => title + " "@ + extension_id + " "@ + q,
    }
}

/// Search text of a palette entry: title, description when present, the
/// extension id and the qualified command id, separated by spaces.
pub fn palette_search_text(
    extension_id: &str,
    command_id: &str,
    title: &str,
    description: Option<&str>,
) -> (r: String)
    ensures
        r@ == search_text(
            extension_id@,
            command_id@,
            title@,
            match description {
                Some(d) => Some(d@),
                None => None,
            },
        ),
{
    let q = qualified_remote_ui_id(extension_id, command_id);
    let mut r = title.to_owned();
    match description {
        Some(d) if !d.is_empty() => {
            r.append(" ");
            r.append(d);
        },
        _ => {},
    }
    r.append(" ");
    r.append(extension_id);
    r.append(" ");
    r.append(q.as_str());
    r
}

pub open spec fn is_snapshot_key_char(c: char) -> bool {
    ('a' <= c && c <= 'z') || ('A' <= c && c <= 'Z') || ('0' <= c && c <= '9') || c == '-' || c
        == '_'
}

pub open spec fn sanitize_char(c: char) -> char {
    if is_snapshot_key_char(c) {
        c
    } else {
        '_'
    }
}

/// File name of a panel's saved view: `<workspace>_<sanitized panel id>.json`,
/// where every character other than ASCII letters, digits, `-` and `_`
/// becomes `_`.
pub open spec fn snapshot_key(workspace_id: nat, panel_id: Seq<char>) -> Seq<char> {
    decimal(workspace_id) + "_"@ + panel_id.map_values(|c: char| sanitize_char(c)) + ".json"@
}

/// The file name a panel's saved tree is kept under in a workspace.
pub fn remote_ui_snapshot_key(workspace_id: u64, qualified_panel_id: &str) -> (r: String)
    ensures
        r@ == snapshot_key(workspace_id as nat, qualified_panel_id@),
{
    let mut r = String::new();
    push_decimal(&mut r, workspace_id);
    r.append("_");
    let cs = crate::text::chars_of(qualified_panel_id);
    let ghost start = r@;
    for i in 0..cs.len()
        invariant
            cs@ == qualified_panel_id@,
            r@ == start + qualified_panel_id@.subrange(0, i as int).map_values(
                |c: char| sanitize_char(c),
            ),
    {
        let c = cs[i];
        let keep = (c >= 'a' && c <= 'z') || (c >= 'A' && c <= 'Z') || (c >= '0' && c <= '9') || c
            == '-' || c == '_';
        if keep {
            push_char(&mut r, c);
        } else {
            push_char(&mut r, '_');
        }
        assert(qualified_panel_id@.subrange(0, i + 1).map_values(|c: char| sanitize_char(c))
            == qualified_panel_id@.subrange(0, i as int).map_values(|c: char| sanitize_char(c)).push(
            sanitize_char(c),
        ));
    }
    assert(qualified_panel_id@.subrange(0, cs.len() as int) == qualified_panel_id@);
    r.append(".json");
    r
}

/// The strip a titlebar widget is placed in.
pub fn strip_side_for_titlebar_widget(side: WidgetSide) -> (r: StripSide)
    ensures
        r == match side {
            WidgetSide::Left => StripSide::Left,
            WidgetSide::Right => StripSide::Right,
        },
{
    match side {
        WidgetSide::Left => StripSide::Left,
        WidgetSide::Right => StripSide::Right,
    }
}

/// The strip a footer widget is placed in.
pub fn strip_side_for_footer_widget(zone: FooterWidgetZone) -> (r: StripSide)
    ensures
        r == match zone {
            FooterWidgetZone::Left => StripSide::Left,
            FooterWidgetZone::Center => StripSide::Center,
            FooterWidgetZone::Right => StripSide::Right,
        },
{
    match zone {
        FooterWidgetZone::Left => StripSide::Left,
        FooterWidgetZone::Center => StripSide::Center,
        FooterWidgetZone::Right => StripSide::Right,
    }
}

pub open spec fn dock_for(side: Option<DockSide>) -> DockPosition {
    match side {
        Some(DockSide::Left) => DockPosition::Left,
        Some(DockSide::Bottom) => DockPosition::Bottom,
        _ => DockPosition::Right,
    }
}

/// The dock a panel opens in: the manifest's side, or the right dock.
pub fn dock_position_for_panel(default_dock: Option<DockSide>) -> (r: DockPosition)
    ensures
        r == dock_for(default_dock),
{
    match default_dock {
        Some(DockSide::Left) => DockPosition::Left,
        Some(DockSide::Bottom) => DockPosition::Bottom,
        _ => DockPosition::Right,
    }
}

/// A widget as the host places it: where, how large, and in which order.
#[derive(Debug)]
pub struct RegisteredRemoteUiWidget {
    pub qualified_widget_id: String,
    pub extension_id: String,
    pub root_view: String,
    pub surface: WidgetSurface,
    pub side: StripSide,
    pub size: WidgetSize,
    pub priority: u32,
    pub min_width: Option<u32>,
    pub max_width: Option<u32>,
    pub refresh_interval_seconds: Option<u32>,
}

/// The widest a widget may be in its slot, in pixels.
pub open spec fn host_max_width(surface: WidgetSurface, side: StripSide, size: WidgetSize) -> u32 {
    match surface {
        WidgetSurface::Titlebar => match size {
            WidgetSize::Small => 24,
            WidgetSize::Medium => 64,
            WidgetSize::Large => 112,
        },
        WidgetSurface::Footer => match side {
            StripSide::Center => match size {
                WidgetSize::Small => 24,
                WidgetSize::Medium => 96,
                WidgetSize::Large => 180,
            },
            _ => 24,
        },
    }
}

/// How many content units (icons, texts, badges, ...) a slot admits.
pub open spec fn max_content_units(surface: WidgetSurface, side: StripSide, size: WidgetSize) -> nat {
    match surface {
        WidgetSurface::Titlebar => match size {
            WidgetSize::Small => 1,
            WidgetSize::Medium => 2,
            WidgetSize::Large => 4,
        },
        WidgetSurface::Footer => match side {
            StripSide::Center => match size {
                WidgetSize::Small => 1,
                WidgetSize::Medium => 2,
                WidgetSize::Large => 4,
            },
            _ => 1,
        },
    }
}

pub open spec fn min_u32(a: u32, b: u32) -> u32 {
    if a <= b {
        a
    } else {
        b
    }
}

/// The widget's minimum width, and its maximum width capped by the slot.
pub fn widget_width_bounds(widget: &RegisteredRemoteUiWidget) -> (r: (Option<u32>, Option<u32>))
    ensures
        r.0 == widget.min_width,
        r.1 == Some(
            match widget.max_width {
                Some(w) => min_u32(w, host_max_width(widget.surface, widget.side, widget.size)),
                None => host_max_width(widget.surface, widget.side, widget.size),
            },
        ),
{
    let host: u32 = match widget.surface {
        WidgetSurface::Titlebar => match widget.size {
            WidgetSize::Small => 24,
            WidgetSize::Medium => 64,
            WidgetSize::Large => 112,
        },
        WidgetSurface::Footer => match widget.side {
            StripSide::Center => match widget.size {
                WidgetSize::Small => 24,
                WidgetSize::Medium => 96,
                WidgetSize::Large => 180,
            },
            _ => 24,
        },
    };
    let max_width = match widget.max_width {
        Some(w) => if w <= host {
            w
        } else {
            host
        },
        None => host,
    };
    (widget.min_width, Some(max_width))
}

/// How a slot counts one node of a widget's tree.
#[derive(Clone, Copy, Debug, PartialEq, Eq, Structural)]
pub enum NodeClass {
    /// A layout container: counts for nothing.
    Layout,
    /// An icon: one content unit and one icon.
    IconUnit,
    /// A badge: one content unit and one badge.
    BadgeUnit,
    /// Any other admitted element: one content unit.
    PlainUnit,
    /// Not admitted in this slot.
    Unsupported,
}

pub open spec fn classify(surface: WidgetSurface, side: StripSide, kind: RemoteViewNodeKind) -> NodeClass {
    match kind {
        RemoteViewNodeKind::Row | RemoteViewNodeKind::Column | RemoteViewNodeKind::Stack => NodeClass::Layout,
        _ => match surface {
            WidgetSurface::Titlebar => match kind {
                RemoteViewNodeKind::Icon(_) => NodeClass::IconUnit,
                RemoteViewNodeKind::Text(_) => NodeClass::PlainUnit,
                RemoteViewNodeKind::Badge(_) => NodeClass::BadgeUnit,
                _ => NodeClass::Unsupported,
            },
            WidgetSurface::Footer => match side {
                StripSide::Center => match kind {
                    RemoteViewNodeKind::Icon(_) | RemoteViewNodeKind::Text(_)
                    | RemoteViewNodeKind::Badge(_) | RemoteViewNodeKind::Button(_)
                    | RemoteViewNodeKind::ProgressBar(_) => NodeClass::PlainUnit,
                    _ => NodeClass::Unsupported,
                },
                _ => match kind {
                    RemoteViewNodeKind::Icon(_) => NodeClass::IconUnit,
                    _ => NodeClass::Unsupported,
                },
            },
        },
    }
}

pub open spec fn class_of(surface: WidgetSurface, side: StripSide, n: RemoteViewNode) -> NodeClass {
    classify(surface, side, n.kind)
}

/// Number of nodes in `nodes` of class `c`.
pub open spec fn count_class(
    surface: WidgetSurface,
    side: StripSide,
    nodes: Seq<RemoteViewNode>,
    c: NodeClass,
) -> nat
    decreases nodes.len(),
{
    if nodes.len() == 0 {
        0
    } else {
        count_class(surface, side, nodes.drop_last(), c) + if class_of(surface, side, nodes.last())
            == c {
            1nat
        } else {
            0nat
        }
    }
}

/// The nodes of `nodes` that are badges, in order.
pub open spec fn badge_nodes(nodes: Seq<RemoteViewNode>) -> Seq<RemoteViewNode> {
    nodes.filter(|n: RemoteViewNode| n.kind is Badge)
}

/// In a titlebar slot each kind of content node counts as what it is: an
/// icon as an icon, a badge as a badge, a text as plain content; rows,
/// columns and stacks only lay out; everything else is refused.
pub proof fn lemma_titlebar_node_classes(side: StripSide, kind: RemoteViewNodeKind)
    ensures
        kind is Icon ==> classify(WidgetSurface::Titlebar, side, kind) == NodeClass::IconUnit,
        kind is Badge ==> classify(WidgetSurface::Titlebar, side, kind) == NodeClass::BadgeUnit,
        kind is Text ==> classify(WidgetSurface::Titlebar, side, kind) == NodeClass::PlainUnit,
        kind is Row || kind is Column || kind is Stack ==> classify(WidgetSurface::Titlebar, side, kind)
            == NodeClass::Layout,
        !(kind is Icon || kind is Badge || kind is Text || kind is Row || kind is Column || kind is Stack)
            ==> classify(WidgetSurface::Titlebar, side, kind) == NodeClass::Unsupported,
{
}

/// In a footer slot the center admits icons, texts, badges, buttons and
/// progress bars as plain content, and the edges admit icons only.
pub proof fn lemma_footer_node_classes(side: StripSide, kind: RemoteViewNodeKind)
    ensures
        side == StripSide::Center && (kind is Icon || kind is Text || kind is Badge || kind is Button
            || kind is ProgressBar) ==> classify(WidgetSurface::Footer, side, kind) == NodeClass::PlainUnit,
        side != StripSide::Center && kind is Icon ==> classify(WidgetSurface::Footer, side, kind)
            == NodeClass::IconUnit,
        kind is Row || kind is Column || kind is Stack ==> classify(WidgetSurface::Footer, side, kind)
            == NodeClass::Layout,
        side != StripSide::Center && !(kind is Icon || kind is Row || kind is Column || kind is Stack)
            ==> classify(WidgetSurface::Footer, side, kind) == NodeClass::Unsupported,
{
}

/// The badges a titlebar tree counts are exactly its badge nodes.
pub proof fn lemma_titlebar_badge_count(side: StripSide, nodes: Seq<RemoteViewNode>)
    ensures
        count_class(WidgetSurface::Titlebar, side, nodes, NodeClass::BadgeUnit) == badge_nodes(nodes).len(),
    decreases nodes.len(),
{
    reveal(Seq::filter);
    if nodes.len() > 0 {
        lemma_titlebar_badge_count(side, nodes.drop_last());
        lemma_titlebar_node_classes(side, nodes.last().kind);
    }
}

pub open spec fn content_units(surface: WidgetSurface, side: StripSide, nodes: Seq<RemoteViewNode>) -> nat {
    count_class(surface, side, nodes, NodeClass::IconUnit) + count_class(
        surface,
        side,
        nodes,
        NodeClass::BadgeUnit,
    ) + count_class(surface, side, nodes, NodeClass::PlainUnit)
}

pub open spec fn is_footer_edge(surface: WidgetSurface, side: StripSide) -> bool {
    surface == WidgetSurface::Footer && side != StripSide::Center
}

/// Why a widget's tree does not fit its slot.
#[derive(Debug)]
pub enum WidgetTreeError {
    /// The node at `node_index` is not admitted in the widget's slot.
    UnsupportedElement { widget_id: String, node_index: usize, element: String },
    /// A footer edge widget must render exactly one icon.
    FooterEdgeIconCount { widget_id: String },
    /// A small titlebar widget must render an icon or a badge.
    SmallTitlebarNeedsIconOrBadge { widget_id: String },
    /// The tree has more content units than the slot admits.
    ContentBudgetExceeded { widget_id: String, size: WidgetSize },
}

/// What the host answers for a widget's tree, node by node and then by counts.
pub open spec fn tree_verdict(widget: RegisteredRemoteUiWidget, nodes: Seq<RemoteViewNode>) -> Option<
    int,
> {
    // `Some(i)`: node `i` is the first unsupported one.
    if exists|i: int|
        0 <= i < nodes.len() && class_of(widget.surface, widget.side, nodes[i])
            == NodeClass::Unsupported && forall|j: int|
            0 <= j < i ==> class_of(widget.surface, widget.side, nodes[j])
                != NodeClass::Unsupported {
        Some(
            choose|i: int|
                0 <= i < nodes.len() && class_of(widget.surface, widget.side, nodes[i])
                    == NodeClass::Unsupported && forall|j: int|
                    0 <= j < i ==> class_of(widget.surface, widget.side, nodes[j])
                        != NodeClass::Unsupported,
        )
    } else {
        None
    }
}

fn class_of_exec(surface: WidgetSurface, side: StripSide, kind: &RemoteViewNodeKind) -> (c: NodeClass)
    ensures
        c == classify(surface, side, *kind),
{
    match kind {
        RemoteViewNodeKind::Row | RemoteViewNodeKind::Column | RemoteViewNodeKind::Stack => NodeClass::Layout,
        _ => match surface {
            WidgetSurface::Titlebar => match kind {
                RemoteViewNodeKind::Icon(_) => NodeClass::IconUnit,
                RemoteViewNodeKind::Text(_) => NodeClass::PlainUnit,
                RemoteViewNodeKind::Badge(_) => NodeClass::BadgeUnit,
                _ => NodeClass::Unsupported,
            },
            WidgetSurface::Footer => match side {
                StripSide::Center => match kind {
                    RemoteViewNodeKind::Icon(_) | RemoteViewNodeKind::Text(_)
                    | RemoteViewNodeKind::Badge(_) | RemoteViewNodeKind::Button(_)
                    | RemoteViewNodeKind::ProgressBar(_) => NodeClass::PlainUnit,
                    _ => NodeClass::Unsupported,
                },
                _ => match kind {
                    RemoteViewNodeKind::Icon(_) => NodeClass::IconUnit,
                    _ => NodeClass::Unsupported,
                },
            },
        },
    }
}

/// What std's `Debug` writes for a string: the text in double quotes, with
/// the characters it escapes written as escapes.
pub uninterp spec fn debug_quoted(s: Seq<char>) -> Seq<char>;

/// `format!("{:?}", s)`: std's `Debug` for `str`.
#[verifier::external_body]
fn debug_text(s: &str) -> (r: String)
    ensures
        r@ == debug_quoted(s@),
{
    format!("{:?}", s)
}

pub open spec fn bool_text(b: bool) -> Seq<char> {
    if b {
        "true"@
    } else {
        "false"@
    }
}

/// A node kind as `Debug` writes it.
pub open spec fn kind_text(kind: RemoteViewNodeKind) -> Seq<char> {
    match kind {
        RemoteViewNodeKind::Row => "Row"@,
        RemoteViewNodeKind::Column => "Column"@,
        RemoteViewNodeKind::Stack => "Stack"@,
        RemoteViewNodeKind::Text(t) => "Text("@ + debug_quoted(t@) + ")"@,
        RemoteViewNodeKind::Icon(t) => "Icon("@ + debug_quoted(t@) + ")"@,
        RemoteViewNodeKind::Badge(t) => "Badge("@ + debug_quoted(t@) + ")"@,
        RemoteViewNodeKind::Button(t) => "Button("@ + debug_quoted(t@) + ")"@,
        RemoteViewNodeKind::ProgressBar(p) => "ProgressBar(ProgressBarProps { value: "@ + decimal(p.value as nat)
            + ", max_value: "@ + decimal(p.max_value as nat) + " })"@,
        RemoteViewNodeKind::Toggle(b) => "Toggle("@ + bool_text(b) + ")"@,
        RemoteViewNodeKind::Checkbox(b) => "Checkbox("@ + bool_text(b) + ")"@,
        RemoteViewNodeKind::TextInput(t) => "TextInput("@ + debug_quoted(t@) + ")"@,
        RemoteViewNodeKind::Divider => "Divider"@,
        RemoteViewNodeKind::Spacer => "Spacer"@,
        RemoteViewNodeKind::ScrollView => "ScrollView"@,
        RemoteViewNodeKind::VirtualList => "VirtualList"@,
    }
}

/// `prefix`, then `payload` as `Debug` writes it, then `)`.
fn quoted_payload(prefix: &str, payload: &str) -> (r: String)
    ensures
        r@ == prefix@ + debug_quoted(payload@) + ")"@,
{
    join3(prefix, debug_text(payload).as_str(), ")")
}

/// A node kind as `Debug` writes it, as error messages show it.
pub fn kind_label(kind: &RemoteViewNodeKind) -> (r: String)
    ensures
        r@ == kind_text(*kind),
{
    match kind {
        RemoteViewNodeKind::Row => "Row".to_owned(),
        RemoteViewNodeKind::Column => "Column".to_owned(),
        RemoteViewNodeKind::Stack => "Stack".to_owned(),
        RemoteViewNodeKind::Text(t) => quoted_payload("Text(", t.as_str()),
        RemoteViewNodeKind::Icon(t) => quoted_payload("Icon(", t.as_str()),
        RemoteViewNodeKind::Badge(t) => quoted_payload("Badge(", t.as_str()),
        RemoteViewNodeKind::Button(t) => quoted_payload("Button(", t.as_str()),
        RemoteViewNodeKind::TextInput(t) => quoted_payload("TextInput(", t.as_str()),
        RemoteViewNodeKind::ProgressBar(p) => {
            let mut r = "ProgressBar(ProgressBarProps { value: ".to_owned();
            push_decimal(&mut r, p.value as u64);
            r.append(", max_value: ");
            push_decimal(&mut r, p.max_value as u64);
            r.append(" })");
            r
        },
        RemoteViewNodeKind::Toggle(b) => join3("Toggle(", if *b { "true" } else { "false" }, ")"),
        RemoteViewNodeKind::Checkbox(b) => join3("Checkbox(", if *b { "true" } else { "false" }, ")"),
        RemoteViewNodeKind::Divider => "Divider".to_owned(),
        RemoteViewNodeKind::Spacer => "Spacer".to_owned(),
        RemoteViewNodeKind::ScrollView => "ScrollView".to_owned(),
        RemoteViewNodeKind::VirtualList => "VirtualList".to_owned(),
    }
}

/// What the validation answers for `tree` as `widget`'s tree.
pub open spec fn validation_answer(
    widget: RegisteredRemoteUiWidget,
    tree: RemoteViewTree,
    r: Result<(), WidgetTreeError>,
) -> bool {
    let nodes = tree.nodes@;
    let s = widget.surface;
    let d = widget.side;
    let icons = count_class(s, d, nodes, NodeClass::IconUnit);
    let badges = count_class(s, d, nodes, NodeClass::BadgeUnit);
    let units = content_units(s, d, nodes);
    match tree_verdict(widget, nodes) {
        Some(i) => r matches Err(WidgetTreeError::UnsupportedElement { widget_id, node_index, element })
            && node_index == i && widget_id@ == widget.qualified_widget_id@ && element@ == kind_text(
            nodes[i].kind,
        ),
        None => if is_footer_edge(s, d) && icons != 1 {
            r matches Err(WidgetTreeError::FooterEdgeIconCount { widget_id }) && widget_id@
                == widget.qualified_widget_id@
        } else if s == WidgetSurface::Titlebar && widget.size == WidgetSize::Small && units
            == 1 && icons == 0 && badges == 0 {
            r matches Err(WidgetTreeError::SmallTitlebarNeedsIconOrBadge { widget_id })
                && widget_id@ == widget.qualified_widget_id@
        } else if units > max_content_units(s, d, widget.size) {
            r matches Err(WidgetTreeError::ContentBudgetExceeded { widget_id, size })
                && widget_id@ == widget.qualified_widget_id@ && size == widget.size
        } else {
            r is Ok
        },
    }
}

/// The message refusing `nodes` as `widget`'s tree, or `None` when the tree
/// fits: the first node not admitted in the slot, then a footer edge widget
/// without exactly one icon, then a small titlebar widget whose one unit is
/// neither an icon nor a badge, then a tree over the slot's content budget.
pub open spec fn widget_tree_message(widget: RegisteredRemoteUiWidget, nodes: Seq<RemoteViewNode>) -> Option<
    Seq<char>,
> {
    let s = widget.surface;
    let d = widget.side;
    let id = widget.qualified_widget_id@;
    let icons = count_class(s, d, nodes, NodeClass::IconUnit);
    let badges = count_class(s, d, nodes, NodeClass::BadgeUnit);
    let units = content_units(s, d, nodes);
    match tree_verdict(widget, nodes) {
        Some(i) => Some("widget `"@ + id + "` uses unsupported element "@ + kind_text(nodes[i].kind)
            + " for this slot"@),
        None => if is_footer_edge(s, d) && icons != 1 {
            Some("widget `"@ + id + "` must render exactly one icon in footer edge slots"@)
        } else if s == WidgetSurface::Titlebar && widget.size == WidgetSize::Small && units == 1 && icons == 0
            && badges == 0 {
            Some("widget `"@ + id + "` size `s` must render an icon or badge only in the titlebar"@)
        } else if units > max_content_units(s, d, widget.size) {
            Some(
                "widget `"@ + id + "` exceeds the `"@ + match widget.size {
                    WidgetSize::Small => "s"@,
                    WidgetSize::Medium => "m"@,
                    WidgetSize::Large => "l"@,
                } + "` content budget for this slot"@,
            )
        } else {
            None
        },
    }
}

/// A small titlebar widget that renders a badge is never refused for
/// lacking an icon or badge.
pub proof fn lemma_small_titlebar_badge_is_enough(
    widget: RegisteredRemoteUiWidget,
    tree: RemoteViewTree,
    r: Result<(), WidgetTreeError>,
)
    requires
        validation_answer(widget, tree, r),
        widget.surface == WidgetSurface::Titlebar,
        badge_nodes(tree.nodes@).len() > 0,
    ensures
        !(r matches Err(WidgetTreeError::SmallTitlebarNeedsIconOrBadge { .. })),
{
    lemma_titlebar_badge_count(widget.side, tree.nodes@);
}

/// The validation's answer as the host shows it: its message, or `None`
/// for a tree that fits.
pub proof fn lemma_validation_message(
    widget: RegisteredRemoteUiWidget,
    tree: RemoteViewTree,
    r: Result<(), WidgetTreeError>,
)
    requires
        validation_answer(widget, tree, r),
    ensures
        match r {
            Ok(_) => widget_tree_message(widget, tree.nodes@) is None,
            Err(e) => widget_tree_message(widget, tree.nodes@) == Some(error_text(e)),
        },
{
}

/// Checks that a widget's tree fits its slot: every node is admitted there,
/// a footer edge widget has exactly one icon, a small titlebar widget with a
/// single unit shows an icon or a badge, and the tree stays within the slot's
/// content budget.
pub fn validate_widget_tree(widget: &RegisteredRemoteUiWidget, tree: &RemoteViewTree) -> (r: Result<
    (),
    WidgetTreeError,
>)
    ensures
        validation_answer(*widget, *tree, r),
{
    let s = widget.surface;
    let d = widget.side;
    let ghost nodes = tree.nodes@;
    let mut icons: usize = 0;
    let mut badges: usize = 0;
    let mut plain: usize = 0;
    let mut i: usize = 0;
    while i < tree.nodes.len()
        invariant
            nodes == tree.nodes@,
            s == widget.surface,
            d == widget.side,
            i <= nodes.len(),
            icons == count_class(s, d, nodes.subrange(0, i as int), NodeClass::IconUnit),
            badges == count_class(s, d, nodes.subrange(0, i as int), NodeClass::BadgeUnit),
            plain == count_class(s, d, nodes.subrange(0, i as int), NodeClass::PlainUnit),
            icons <= i && badges <= i && plain <= i,
            icons + badges + plain <= i,
            forall|j: int| 0 <= j < i ==> class_of(s, d, nodes[j]) != NodeClass::Unsupported,
        decreases nodes.len() - i,
    {
        let c = class_of_exec(s, d, &tree.nodes[i].kind);
        proof {
            let pre = nodes.subrange(0, i as int);
            let post = nodes.subrange(0, i + 1);
            assert(post.drop_last() == pre);
            assert(post.last() == nodes[i as int]);
        }
        match c {
            NodeClass::Unsupported => {
                proof {
                    let k = i as int;
                    assert(0 <= k < nodes.len() && class_of(s, d, nodes[k])
                        == NodeClass::Unsupported && forall|j: int|
                        0 <= j < k ==> class_of(s, d, nodes[j]) != NodeClass::Unsupported);
                    assert(s == widget.surface && d == widget.side);
                    assert(tree_verdict(*widget, nodes) is Some);
                    let w = tree_verdict(*widget, nodes)->0;
                    assert(class_of(s, d, nodes[w]) == NodeClass::Unsupported);
                    assert(w == k) by {
                        if w < k {
                        } else if w > k {
                            assert(class_of(s, d, nodes[k]) != NodeClass::Unsupported);
                        }
                    }
                }
                return Err(
                    WidgetTreeError::UnsupportedElement {
                        widget_id: widget.qualified_widget_id.clone(),
                        node_index: i,
                        element: kind_label(&tree.nodes[i].kind),
                    },
                );
            },
            NodeClass::IconUnit => {
                icons = icons + 1;
            },
            NodeClass::BadgeUnit => {
                badges = badges + 1;
            },
            NodeClass::PlainUnit => {
                plain = plain + 1;
            },
            NodeClass::Layout => {},
        }
        i = i + 1;
    }
    proof {
        assert(nodes.subrange(0, nodes.len() as int) == nodes);
        assert(tree_verdict(*widget, nodes) is None);
    }
    let units = icons + badges + plain;
    let edge = match s {
        WidgetSurface::Footer => match d {
            StripSide::Center => false,
            _ => true,
        },
        WidgetSurface::Titlebar => false,
    };
    if edge && icons != 1 {
        return Err(WidgetTreeError::FooterEdgeIconCount { widget_id: widget.qualified_widget_id.clone() });
    }
    let small_titlebar = match s {
        WidgetSurface::Titlebar => match widget.size {
            WidgetSize::Small => true,
            _ => false,
        },
        WidgetSurface::Footer => false,
    };
    if small_titlebar && units == 1 && icons == 0 && badges == 0 {
        return Err(
            WidgetTreeError::SmallTitlebarNeedsIconOrBadge {
                widget_id: widget.qualified_widget_id.clone(),
            },
        );
    }
    let max_units: usize = match s {
        WidgetSurface::Titlebar => match widget.size {
            WidgetSize::Small => 1,
            WidgetSize::Medium => 2,
            WidgetSize::Large => 4,
        },
        WidgetSurface::Footer => match d {
            StripSide::Center => match widget.size {
                WidgetSize::Small => 1,
                WidgetSize::Medium => 2,
                WidgetSize::Large => 4,
            },
            _ => 1,
        },
    };
    if units > max_units {
        return Err(
            WidgetTreeError::ContentBudgetExceeded {
                widget_id: widget.qualified_widget_id.clone(),
                size: widget.size,
            },
        );
    }
    Ok(())
}

/// The letter a widget size is written with in manifests.
pub fn size_letter(size: WidgetSize) -> (r: &'static str)
    ensures
        r@ == match size {
            WidgetSize::Small => "s"@,
            WidgetSize::Medium => "m"@,
            WidgetSize::Large => "l"@,
        },
{
    match size {
        WidgetSize::Small => "s",
        WidgetSize::Medium => "m",
        WidgetSize::Large => "l",
    }
}

/// The message the host shows for an error.
pub open spec fn error_text(e: WidgetTreeError) -> Seq<char> {
    match e {
        WidgetTreeError::UnsupportedElement { widget_id, element, .. } => "widget `"@ + widget_id@
            + "` uses unsupported element "@ + element@ + " for this slot"@,
        WidgetTreeError::FooterEdgeIconCount { widget_id } => "widget `"@ + widget_id@
            + "` must render exactly one icon in footer edge slots"@,
        WidgetTreeError::SmallTitlebarNeedsIconOrBadge { widget_id } => "widget `"@ + widget_id@
            + "` size `s` must render an icon or badge only in the titlebar"@,
        WidgetTreeError::ContentBudgetExceeded { widget_id, size } => "widget `"@ + widget_id@
            + "` exceeds the `"@ + match size {
            WidgetSize::Small => "s"@,
            WidgetSize::Medium => "m"@,
            WidgetSize::Large => "l"@,
        } + "` content budget for this slot"@,
    }
}

impl WidgetTreeError {
    /// The message the host shows for this error.
    pub fn message(&self) -> (r: String)
        ensures
            r@ == error_text(*self),
    {
        match self {
            WidgetTreeError::UnsupportedElement { widget_id, element, .. } => {
                let mut r = join3("widget `", widget_id.as_str(), "` uses unsupported element ");
                r.append(element.as_str());
                r.append(" for this slot");
                r
            },
            WidgetTreeError::FooterEdgeIconCount { widget_id } => join3(
                "widget `",
                widget_id.as_str(),
                "` must render exactly one icon in footer edge slots",
            ),
            WidgetTreeError::SmallTitlebarNeedsIconOrBadge { widget_id } => join3(
                "widget `",
                widget_id.as_str(),
                "` size `s` must render an icon or badge only in the titlebar",
            ),
            WidgetTreeError::ContentBudgetExceeded { widget_id, size } => {
                let mut r = join3("widget `", widget_id.as_str(), "` exceeds the `");
                r.append(size_letter(*size));
                r.append("` content budget for this slot");
                r
            },
        }
    }
}

/// A node kind with its payload as text.
pub enum KindView {
    Row,
    Column,
    Stack,
    Text(Seq<char>),
    Icon(Seq<char>),
    Badge(Seq<char>),
    Button(Seq<char>),
    ProgressBar(u32, u32),
    Toggle(bool),
    Checkbox(bool),
    TextInput(Seq<char>),
    Divider,
    Spacer,
    ScrollView,
    VirtualList,
}

pub open spec fn kind_view(k: RemoteViewNodeKind) -> KindView {
    match k {
        RemoteViewNodeKind::Row => KindView::Row,
        RemoteViewNodeKind::Column => KindView::Column,
        RemoteViewNodeKind::Stack => KindView::Stack,
        RemoteViewNodeKind::Text(t) => KindView::Text(t@),
        RemoteViewNodeKind::Icon(t) => KindView::Icon(t@),
        RemoteViewNodeKind::Badge(t) => KindView::Badge(t@),
        RemoteViewNodeKind::Button(t) => KindView::Button(t@),
        RemoteViewNodeKind::ProgressBar(p) => KindView::ProgressBar(p.value, p.max_value),
        RemoteViewNodeKind::Toggle(b) => KindView::Toggle(b),
        RemoteViewNodeKind::Checkbox(b) => KindView::Checkbox(b),
        RemoteViewNodeKind::TextInput(t) => KindView::TextInput(t@),
        RemoteViewNodeKind::Divider => KindView::Divider,
        RemoteViewNodeKind::Spacer => KindView::Spacer,
        RemoteViewNodeKind::ScrollView => KindView::ScrollView,
        RemoteViewNodeKind::VirtualList => KindView::VirtualList,
    }
}

/// A node as text: its id, its parent's id, its kind and its properties.
pub struct NodeView {
    pub id: Seq<char>,
    pub parent: Option<Seq<char>>,
    pub kind: KindView,
    pub properties: Seq<(Seq<char>, Seq<char>)>,
}

pub open spec fn property_view(p: RemoteViewProperty) -> (Seq<char>, Seq<char>) {
    (p.name@, p.value@)
}

pub open spec fn node_view(n: RemoteViewNode) -> NodeView {
    NodeView {
        id: n.node_id@,
        parent: match n.parent_id {
            Some(p) => Some(p@),
            None => None,
        },
        kind: kind_view(n.kind),
        properties: n.properties@.map_values(|p: RemoteViewProperty| property_view(p)),
    }
}

pub open spec fn nodes_view(nodes: Seq<RemoteViewNode>) -> Seq<NodeView> {
    nodes.map_values(|n: RemoteViewNode| node_view(n))
}

pub open spec fn props_view(props: Seq<(&str, &str)>) -> Seq<(Seq<char>, Seq<char>)> {
    props.map_values(|p: (&str, &str)| (p.0@, p.1@))
}

/// A node with the given id, parent, kind and properties.
pub fn make_node(
    node_id: String,
    parent_id: Option<&str>,
    kind: RemoteViewNodeKind,
    properties: Vec<(&str, &str)>,
) -> (r: RemoteViewNode)
    ensures
        node_view(r) == (NodeView {
            id: node_id@,
            parent: match parent_id {
                Some(p) => Some(p@),
                None => None,
            },
            kind: kind_view(kind),
            properties: props_view(properties@),
        }),
{
    let mut props: Vec<RemoteViewProperty> = Vec::new();
    for i in 0..properties.len()
        invariant
            props@.map_values(|p: RemoteViewProperty| property_view(p)) == props_view(
                properties@.take(i as int),
            ),
    {
        let (name, value) = properties[i];
        let ghost before = props@;
        props.push(RemoteViewProperty { name: name.to_owned(), value: value.to_owned() });
        assert(props@.map_values(|p: RemoteViewProperty| property_view(p)) =~= before.map_values(
            |p: RemoteViewProperty| property_view(p),
        ).push((name@, value@)));
        assert(props_view(properties@.take(i + 1)) =~= props_view(properties@.take(i as int)).push(
            (name@, value@),
        ));
    }
    assert(properties@.take(properties@.len() as int) == properties@);
    let parent = match parent_id {
        Some(p) => Some(p.to_owned()),
        None => None,
    };
    RemoteViewNode { node_id, parent_id: parent, kind, properties: props }
}

proof fn lemma_nodes_view_push(nodes: Seq<RemoteViewNode>, n: RemoteViewNode)
    ensures
        nodes_view(nodes.push(n)) == nodes_view(nodes).push(node_view(n)),
{
    assert(nodes_view(nodes.push(n)) =~= nodes_view(nodes).push(node_view(n)));
}

/// Appends a node.
pub fn push_node(nodes: &mut Vec<RemoteViewNode>, n: RemoteViewNode)
    ensures
        nodes_view(final(nodes)@) == nodes_view(old(nodes)@).push(node_view(n)),
{
    proof {
        lemma_nodes_view_push(nodes@, n);
    }
    nodes.push(n);
}

} // verus!

verus! {

/// Whether the node asks to be clicked: it has a `clickable` property set
/// to `true`.
pub fn node_is_clickable(node: &RemoteViewNode) -> (r: bool)
    ensures
        r == exists|i: int|
            0 <= i < node.properties@.len() && node.properties@[i].name@ == "clickable"@
                && node.properties@[i].value@ == "true"@,
{
    let mut i: usize = 0;
    while i < node.properties.len()
        invariant
            i <= node.properties@.len(),
            forall|j: int|
                0 <= j < i ==> !(node.properties@[j].name@ == "clickable"@ && node.properties@[j].value@ == "true"@),
        decreases node.properties@.len() - i,
    {
        let p = &node.properties[i];
        if crate::text::same_text(p.name.as_str(), "clickable") && crate::text::same_text(p.value.as_str(), "true") {
            return true;
        }
        i = i + 1;
    }
    false
}

/// The node's tooltip: the value of its first `tooltip` property.
pub fn node_tooltip(node: &RemoteViewNode) -> (r: Option<String>)
    ensures
        match r {
            Some(t) => exists|i: int|
                0 <= i < node.properties@.len() && node.properties@[i].name@ == "tooltip"@ && t@
                    == node.properties@[i].value@ && forall|j: int|
                    0 <= j < i ==> node.properties@[j].name@ != "tooltip"@,
            None => forall|j: int| 0 <= j < node.properties@.len() ==> node.properties@[j].name@ != "tooltip"@,
        },
{
    let mut i: usize = 0;
    while i < node.properties.len()
        invariant
            i <= node.properties@.len(),
            forall|j: int| 0 <= j < i ==> node.properties@[j].name@ != "tooltip"@,
        decreases node.properties@.len() - i,
    {
        if crate::text::same_text(node.properties[i].name.as_str(), "tooltip") {
            return Some(node.properties[i].value.clone());
        }
        i = i + 1;
    }
    None
}

} // verus!
