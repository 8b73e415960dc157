//! The host's registry of remote UI extensions: the commands, panels,
//! palette entries, context menu entries and widgets each extension
//! contributes, keyed by `extension::local` ids.

use vstd::prelude::*;
use crate::text::{
    ascii_lowercase, ascii_lowered, chars_of, contains_seq, match_positions, positions_view,
    substring_match_positions, text_contains, utf8_width,
};
use crate::order::{
    lemma_filter_congruent, lemma_lex_antisym, lemma_lex_refl, lemma_lex_total, lemma_lex_trans, lemma_map_filter,
    lex_le, lemma_map_values_multiset, same_key, sort_by_key, sorted_by_key, text_le, SortKey,
};
use crate::remote_ui::{
    dock_for, dock_position_for_panel, palette_search_text, qualified_id, qualified_remote_ui_id,
    search_text, strip_side_for_footer_widget, strip_side_for_titlebar_widget,
    ContextActionTarget, DockPosition, DockSide, FooterWidgetZone, MenuLocation,
    RegisteredRemoteUiWidget, StripSide, WidgetSide, WidgetSize, WidgetSurface,
};

verus! {

/// A command an extension declares.
#[derive(Debug)]
pub struct ExtensionCommandManifestEntry {
    pub title: String,
    pub description: String,
    pub palette: bool,
}

/// A command under its local id.
#[derive(Debug)]
pub struct NamedCommandEntry {
    pub id: String,
    pub entry: ExtensionCommandManifestEntry,
}

/// A panel an extension declares.
#[derive(Debug)]
pub struct ExtensionPanelManifestEntry {
    pub title: String,
    pub icon: Option<String>,
    pub default_dock: Option<DockSide>,
    pub default_size: Option<u32>,
    pub root_view: String,
    pub toggle_command: Option<String>,
}

/// A panel under its local id.
#[derive(Debug)]
pub struct NamedPanelEntry {
    pub id: String,
    pub entry: ExtensionPanelManifestEntry,
}

/// A menu entry an extension places at a host location.
#[derive(Debug)]
pub struct ExtensionMenuManifestEntry {
    pub id: String,
    pub location: MenuLocation,
    pub title: String,
    pub command: String,
    pub panel: Option<String>,
    pub group: Option<String>,
    pub priority: u32,
}

/// A context action an extension offers on a host target.
#[derive(Debug)]
pub struct ExtensionContextActionManifestEntry {
    pub id: String,
    pub target: ContextActionTarget,
    pub title: String,
    pub command: String,
    pub group: Option<String>,
    pub priority: u32,
}

/// A titlebar widget an extension declares.
#[derive(Debug)]
pub struct TitlebarWidgetManifestEntry {
    pub id: String,
    pub root_view: String,
    pub side: WidgetSide,
    pub size: WidgetSize,
    pub priority: u32,
    pub min_width: Option<u32>,
    pub max_width: Option<u32>,
    pub refresh_interval_seconds: Option<u32>,
}

/// A footer widget an extension declares.
#[derive(Debug)]
pub struct FooterWidgetManifestEntry {
    pub id: String,
    pub root_view: String,
    pub zone: FooterWidgetZone,
    pub size: WidgetSize,
    pub priority: u32,
    pub min_width: Option<u32>,
    pub max_width: Option<u32>,
    pub refresh_interval_seconds: Option<u32>,
}

/// Everything an extension contributes to the host UI. Commands and panels
/// are keyed by their local ids.
#[derive(Debug)]
pub struct RemoteUiManifest {
    pub commands: Vec<NamedCommandEntry>,
    pub panels: Vec<NamedPanelEntry>,
    pub menus: Vec<ExtensionMenuManifestEntry>,
    pub context_actions: Vec<ExtensionContextActionManifestEntry>,
    pub titlebar_widgets: Vec<TitlebarWidgetManifestEntry>,
    pub footer_widgets: Vec<FooterWidgetManifestEntry>,
}

pub open spec fn command_keys_unique(cmds: Seq<NamedCommandEntry>) -> bool {
    forall|i: int, j: int| 0 <= i < cmds.len() && 0 <= j < cmds.len() && i != j ==> cmds[i].id@ != cmds[j].id@
}

pub open spec fn panel_keys_unique(panels: Seq<NamedPanelEntry>) -> bool {
    forall|i: int, j: int|
        0 <= i < panels.len() && 0 <= j < panels.len() && i != j ==> panels[i].id@ != panels[j].id@
}

pub open spec fn has_command_key(cmds: Seq<NamedCommandEntry>, id: Seq<char>) -> bool {
    exists|i: int| 0 <= i < cmds.len() && cmds[i].id@ == id
}

/// The command declared under `id` (meaningful when `has_command_key`).
pub open spec fn command_entry(cmds: Seq<NamedCommandEntry>, id: Seq<char>) -> ExtensionCommandManifestEntry {
    cmds[choose|i: int| 0 <= i < cmds.len() && cmds[i].id@ == id].entry
}

pub open spec fn has_panel_key(panels: Seq<NamedPanelEntry>, id: Seq<char>) -> bool {
    exists|i: int| 0 <= i < panels.len() && panels[i].id@ == id
}

impl RemoteUiManifest {
    /// Commands and panels each have distinct local ids.
    pub open spec fn wf(&self) -> bool {
        command_keys_unique(self.commands@) && panel_keys_unique(self.panels@)
    }

    /// A manifest that contributes nothing.
    pub fn new() -> (m: Self)
        ensures
            m.wf(),
            m.commands@.len() == 0,
            m.panels@.len() == 0,
            m.menus@.len() == 0,
            m.context_actions@.len() == 0,
            m.titlebar_widgets@.len() == 0,
            m.footer_widgets@.len() == 0,
    {
        RemoteUiManifest {
            commands: Vec::new(),
            panels: Vec::new(),
            menus: Vec::new(),
            context_actions: Vec::new(),
            titlebar_widgets: Vec::new(),
            footer_widgets: Vec::new(),
        }
    }

    /// Declares `entry` under `id`, replacing any command declared under it.
    pub fn insert_command(&mut self, id: String, entry: ExtensionCommandManifestEntry)
        requires
            old(self).wf(),
        ensures
            final(self).wf(),
            final(self).panels == old(self).panels,
            final(self).menus == old(self).menus,
            final(self).context_actions == old(self).context_actions,
            final(self).titlebar_widgets == old(self).titlebar_widgets,
            final(self).footer_widgets == old(self).footer_widgets,
            forall|k: Seq<char>|
                has_command_key(final(self).commands@, k) <==> (has_command_key(
                    old(self).commands@,
                    k,
                ) || k == id@),
            command_entry(final(self).commands@, id@) == entry,
            forall|k: Seq<char>|
                k != id@ && has_command_key(old(self).commands@, k) ==> command_entry(
                    final(self).commands@,
                    k,
                ) == command_entry(old(self).commands@, k),
    {
        let ghost before = self.commands@;
        let mut i: usize = 0;
        while i < self.commands.len() && !(self.commands[i].id == id)
            invariant
                self.commands@ == before,
                i <= before.len(),
                forall|j: int| 0 <= j < i ==> before[j].id@ != id@,
            decreases before.len() - i,
        {
            i = i + 1;
        }
        let ghost new_id = id@;
        let named = NamedCommandEntry { id, entry };
        if i < self.commands.len() {
            self.commands.set(i, named);
            proof {
                let after = self.commands@;
                assert(before[i as int].id@ == new_id);
                assert forall|a: int, b: int|
                    0 <= a < after.len() && 0 <= b < after.len() && a != b implies after[a].id@
                    != after[b].id@ by {
                    if a == i {
                        assert(before[a].id@ == new_id);
                    } else if b == i {
                        assert(before[b].id@ == new_id);
                    }
                }
                assert forall|k: Seq<char>|
                    has_command_key(after, k) <==> (has_command_key(before, k) || k == new_id) by {
                    if has_command_key(before, k) {
                        let w = choose|w: int| 0 <= w < before.len() && before[w].id@ == k;
                        assert(after[w].id@ == k);
                    }
                    if k == new_id {
                        assert(after[i as int].id@ == k);
                    }
                    if has_command_key(after, k) {
                        let w = choose|w: int| 0 <= w < after.len() && after[w].id@ == k;
                        assert(before[w].id@ == k);
                    }
                }
                assert(after[i as int].id@ == new_id);
                assert forall|k: Seq<char>|
                    k != new_id && has_command_key(before, k) implies command_entry(after, k)
                    == command_entry(before, k) by {
                    let w = choose|w: int| 0 <= w < before.len() && before[w].id@ == k;
                    assert(after[w].id@ == k);
                    let w2 = choose|w: int| 0 <= w < after.len() && after[w].id@ == k;
                    assert(w2 == w);
                }
            }
        } else {
            self.commands.push(named);
            proof {
                let after = self.commands@;
                let n = before.len() as int;
                assert forall|a: int, b: int|
                    0 <= a < after.len() && 0 <= b < after.len() && a != b implies after[a].id@
                    != after[b].id@ by {
                    if a == n {
                        assert(before[b].id@ != new_id);
                    } else if b == n {
                        assert(before[a].id@ != new_id);
                    }
                }
                assert forall|k: Seq<char>|
                    has_command_key(after, k) <==> (has_command_key(before, k) || k == new_id) by {
                    if has_command_key(before, k) {
                        let w = choose|w: int| 0 <= w < before.len() && before[w].id@ == k;
                        assert(after[w].id@ == k);
                    }
                    if k == new_id {
                        assert(after[n].id@ == k);
                    }
                    if has_command_key(after, k) {
                        let w = choose|w: int| 0 <= w < after.len() && after[w].id@ == k;
                        if w < n {
                            assert(before[w].id@ == k);
                        }
                    }
                }
                assert(after[n].id@ == new_id);
                assert forall|k: Seq<char>|
                    k != new_id && has_command_key(before, k) implies command_entry(after, k)
                    == command_entry(before, k) by {
                    let w = choose|w: int| 0 <= w < before.len() && before[w].id@ == k;
                    assert(after[w].id@ == k);
                    let w2 = choose|w: int| 0 <= w < after.len() && after[w].id@ == k;
                    assert(w2 == w);
                }
            }
        }
    }

    /// Declares `entry` under `id`, replacing any panel declared under it.
    pub fn insert_panel(&mut self, id: String, entry: ExtensionPanelManifestEntry)
        requires
            old(self).wf(),
        ensures
            final(self).wf(),
            final(self).commands == old(self).commands,
            final(self).menus == old(self).menus,
            final(self).context_actions == old(self).context_actions,
            final(self).titlebar_widgets == old(self).titlebar_widgets,
            final(self).footer_widgets == old(self).footer_widgets,
            forall|k: Seq<char>|
                has_panel_key(final(self).panels@, k) <==> (has_panel_key(old(self).panels@, k)
                    || k == id@),
    {
        let ghost before = self.panels@;
        let mut i: usize = 0;
        while i < self.panels.len() && !(self.panels[i].id == id)
            invariant
                self.panels@ == before,
                i <= before.len(),
                forall|j: int| 0 <= j < i ==> before[j].id@ != id@,
            decreases before.len() - i,
        {
            i = i + 1;
        }
        let ghost new_id = id@;
        let named = NamedPanelEntry { id, entry };
        if i < self.panels.len() {
            self.panels.set(i, named);
            proof {
                let after = self.panels@;
                assert(before[i as int].id@ == new_id);
                assert forall|a: int, b: int|
                    0 <= a < after.len() && 0 <= b < after.len() && a != b implies after[a].id@
                    != after[b].id@ by {
                    if a == i {
                        assert(before[a].id@ == new_id);
                    } else if b == i {
                        assert(before[b].id@ == new_id);
                    }
                }
                assert forall|k: Seq<char>|
                    has_panel_key(after, k) <==> (has_panel_key(before, k) || k == new_id) by {
                    if has_panel_key(before, k) {
                        let w = choose|w: int| 0 <= w < before.len() && before[w].id@ == k;
                        assert(after[w].id@ == k);
                    }
                    if k == new_id {
                        assert(after[i as int].id@ == k);
                    }
                    if has_panel_key(after, k) {
                        let w = choose|w: int| 0 <= w < after.len() && after[w].id@ == k;
                        assert(before[w].id@ == k);
                    }
                }
            }
        } else {
            self.panels.push(named);
            proof {
                let after = self.panels@;
                let n = before.len() as int;
                assert forall|a: int, b: int|
                    0 <= a < after.len() && 0 <= b < after.len() && a != b implies after[a].id@
                    != after[b].id@ by {
                    if a == n {
                        assert(before[b].id@ != new_id);
                    } else if b == n {
                        assert(before[a].id@ != new_id);
                    }
                }
                assert forall|k: Seq<char>|
                    has_panel_key(after, k) <==> (has_panel_key(before, k) || k == new_id) by {
                    if has_panel_key(before, k) {
                        let w = choose|w: int| 0 <= w < before.len() && before[w].id@ == k;
                        assert(after[w].id@ == k);
                    }
                    if k == new_id {
                        assert(after[n].id@ == k);
                    }
                    if has_panel_key(after, k) {
                        let w = choose|w: int| 0 <= w < after.len() && after[w].id@ == k;
                        if w < n {
                            assert(before[w].id@ == k);
                        }
                    }
                }
            }
        }
    }
}

} // verus!

verus! {

/// A registered extension with the ids the host gave its commands and panels.
#[derive(Debug)]
pub struct RegisteredRemoteUiExtension {
    pub extension_id: String,
    pub remote_ui: RemoteUiManifest,
    pub qualified_command_ids: Vec<String>,
    pub qualified_panel_ids: Vec<String>,
}

/// A command as the host knows it.
#[derive(Debug)]
pub struct RegisteredRemoteUiCommand {
    pub qualified_id: String,
    pub extension_id: String,
    pub local_command_id: String,
    pub title: String,
}

/// An entry of the command palette.
#[derive(Debug)]
pub struct RegisteredRemoteUiPaletteItem {
    pub command_id: String,
    pub title: String,
    pub search_text: String,
}

/// A panel as the host mounts it.
#[derive(Debug)]
pub struct RegisteredRemoteUiPanel {
    pub qualified_panel_id: String,
    pub extension_id: String,
    pub root_view: String,
    pub title: String,
    pub default_dock: DockPosition,
    pub activation_priority: u32,
}

impl RegisteredRemoteUiPanel {
    /// A field-by-field copy.
    pub fn duplicate(&self) -> (r: Self)
        ensures
            r == *self,
    {
        RegisteredRemoteUiPanel {
            qualified_panel_id: self.qualified_panel_id.clone(),
            extension_id: self.extension_id.clone(),
            root_view: self.root_view.clone(),
            title: self.title.clone(),
            default_dock: self.default_dock,
            activation_priority: self.activation_priority,
        }
    }
}

/// An entry the host adds to a context menu.
#[derive(Debug)]
pub struct RegisteredRemoteUiContextMenuEntry {
    pub command_id: String,
    pub title: String,
    pub priority: u32,
}

/// All remote UI contributions the host currently knows.
#[derive(Debug)]
pub struct RemoteUiRegistry {
    pub next_panel_activation_priority: u32,
    pub extensions: Vec<RegisteredRemoteUiExtension>,
    pub commands: Vec<RegisteredRemoteUiCommand>,
    pub command_palette_items: Vec<RegisteredRemoteUiPaletteItem>,
    pub panels: Vec<RegisteredRemoteUiPanel>,
}

pub open spec fn string_set(ids: Seq<String>) -> Set<Seq<char>> {
    Set::new(|k: Seq<char>| exists|i: int| 0 <= i < ids.len() && ids[i]@ == k)
}

pub open spec fn command_key_set(cmds: Seq<RegisteredRemoteUiCommand>) -> Set<Seq<char>> {
    Set::new(|k: Seq<char>| exists|i: int| 0 <= i < cmds.len() && cmds[i].qualified_id@ == k)
}

pub open spec fn panel_key_set(panels: Seq<RegisteredRemoteUiPanel>) -> Set<Seq<char>> {
    Set::new(|k: Seq<char>| exists|i: int| 0 <= i < panels.len() && panels[i].qualified_panel_id@ == k)
}

/// The qualified ids of a manifest's commands.
pub open spec fn qualified_command_keys(e: Seq<char>, cmds: Seq<NamedCommandEntry>) -> Set<Seq<char>> {
    Set::new(|k: Seq<char>| exists|i: int| 0 <= i < cmds.len() && k == qualified_id(e, cmds[i].id@))
}

/// The qualified ids of a manifest's panels.
pub open spec fn qualified_panel_keys(e: Seq<char>, panels: Seq<NamedPanelEntry>) -> Set<Seq<char>> {
    Set::new(|k: Seq<char>| exists|i: int| 0 <= i < panels.len() && k == qualified_id(e, panels[i].id@))
}

pub type PaletteView = (Seq<char>, Seq<char>, Seq<char>);

pub open spec fn palette_view(p: RegisteredRemoteUiPaletteItem) -> PaletteView {
    (p.command_id@, p.title@, p.search_text@)
}

pub open spec fn palette_views_of(items: Seq<RegisteredRemoteUiPaletteItem>) -> Seq<PaletteView> {
    items.map_values(|p: RegisteredRemoteUiPaletteItem| palette_view(p))
}

/// Palette entries of the commands marked for the palette, in order.
pub open spec fn command_palette_views(e: Seq<char>, cmds: Seq<NamedCommandEntry>) -> Seq<PaletteView>
    decreases cmds.len(),
{
    if cmds.len() == 0 {
        Seq::empty()
    } else {
        let rest = command_palette_views(e, cmds.drop_last());
        let c = cmds.last();
        if c.entry.palette {
            rest.push(
                (
                    qualified_id(e, c.id@),
                    c.entry.title@,
                    search_text(e, c.id@, c.entry.title@, Some(c.entry.description@)),
                ),
            )
        } else {
            rest
        }
    }
}

/// Palette entries of the command palette menus whose command exists, in order.
pub open spec fn menu_palette_views(
    e: Seq<char>,
    cmds: Seq<NamedCommandEntry>,
    menus: Seq<ExtensionMenuManifestEntry>,
) -> Seq<PaletteView>
    decreases menus.len(),
{
    if menus.len() == 0 {
        Seq::empty()
    } else {
        let rest = menu_palette_views(e, cmds, menus.drop_last());
        let m = menus.last();
        if m.location == MenuLocation::CommandPalette && has_command_key(cmds, m.command@) {
            rest.push(
                (
                    qualified_id(e, m.command@),
                    m.title@,
                    search_text(
                        e,
                        m.command@,
                        m.title@,
                        Some(command_entry(cmds, m.command@).description@),
                    ),
                ),
            )
        } else {
            rest
        }
    }
}

pub open spec fn extension_palette_views(x: RegisteredRemoteUiExtension) -> Seq<PaletteView> {
    command_palette_views(x.extension_id@, x.remote_ui.commands@) + menu_palette_views(
        x.extension_id@,
        x.remote_ui.commands@,
        x.remote_ui.menus@,
    )
}

/// Every palette entry the registered extensions contribute.
pub open spec fn palette_views(exts: Seq<RegisteredRemoteUiExtension>) -> Seq<PaletteView>
    decreases exts.len(),
{
    if exts.len() == 0 {
        Seq::empty()
    } else {
        palette_views(exts.drop_last()) + extension_palette_views(exts.last())
    }
}

impl SortKey for RegisteredRemoteUiPaletteItem {
    open spec fn key_le(&self, other: &Self) -> bool {
        lex_le(self.title@, other.title@)
    }

    proof fn lemma_key_total(a: &Self, b: &Self) {
        lemma_lex_total(a.title@, b.title@);
    }

    proof fn lemma_key_trans(a: &Self, b: &Self, c: &Self) {
        lemma_lex_trans(a.title@, b.title@, c.title@);
    }

    fn key_le_exec(&self, other: &Self) -> (r: bool) {
        text_le(self.title.as_str(), other.title.as_str())
    }
}

pub open spec fn extension_position(exts: Seq<RegisteredRemoteUiExtension>, e: Seq<char>) -> Option<int> {
    if exists|i: int| 0 <= i < exts.len() && exts[i].extension_id@ == e {
        Some(choose|i: int| 0 <= i < exts.len() && exts[i].extension_id@ == e)
    } else {
        None
    }
}

/// Whether `s` is one of `list`.
pub fn string_listed(list: &Vec<String>, s: &str) -> (r: bool)
    ensures
        r == string_set(list@).contains(s@),
{
    let mut i: usize = 0;
    while i < list.len()
        invariant
            i <= list.len(),
            forall|j: int| 0 <= j < i ==> list@[j]@ != s@,
        decreases list.len() - i,
    {
        if crate::text::same_text(list[i].as_str(), s) {
            assert(string_set(list@).contains(s@)) by {
                assert(list@[i as int]@ == s@);
            }
            return true;
        }
        i = i + 1;
    }
    false
}

pub open spec fn unlisted_command(listed: Seq<String>) -> spec_fn(RegisteredRemoteUiCommand) -> bool {
    |c: RegisteredRemoteUiCommand| !string_set(listed).contains(c.qualified_id@)
}

pub open spec fn unlisted_panel(listed: Seq<String>) -> spec_fn(RegisteredRemoteUiPanel) -> bool {
    |p: RegisteredRemoteUiPanel| !string_set(listed).contains(p.qualified_panel_id@)
}

/// Dropping the listed commands drops exactly their ids.
pub proof fn lemma_command_keys_after_retain(cmds: Seq<RegisteredRemoteUiCommand>, listed: Seq<String>)
    ensures
        command_key_set(cmds.filter(unlisted_command(listed))) == command_key_set(cmds).difference(
            string_set(listed),
        ),
{
    broadcast use vstd::seq_lib::group_filter_ensures;

    let f = cmds.filter(unlisted_command(listed));
    assert forall|k: Seq<char>|
        command_key_set(f).contains(k) == command_key_set(cmds).difference(string_set(listed)).contains(
            k,
        ) by {
        if command_key_set(f).contains(k) {
            let j = choose|j: int| 0 <= j < f.len() && f[j].qualified_id@ == k;
            assert(unlisted_command(listed)(f[j]));
            assert(f.contains(f[j]));
            cmds.lemma_filter_contains_rev(unlisted_command(listed), f[j]);
            let i = choose|i: int| 0 <= i < cmds.len() && cmds[i] == f[j];
            assert(cmds[i].qualified_id@ == k);
        }
        if command_key_set(cmds).difference(string_set(listed)).contains(k) {
            let i = choose|i: int| 0 <= i < cmds.len() && cmds[i].qualified_id@ == k;
            assert(unlisted_command(listed)(cmds[i]));
            assert(f.contains(cmds[i]));
            let j = choose|j: int| 0 <= j < f.len() && f[j] == cmds[i];
            assert(f[j].qualified_id@ == k);
        }
    }
    assert(command_key_set(f) =~= command_key_set(cmds).difference(string_set(listed)));
}

/// Dropping the listed panels drops exactly their ids.
pub proof fn lemma_panel_keys_after_retain(panels: Seq<RegisteredRemoteUiPanel>, listed: Seq<String>)
    ensures
        panel_key_set(panels.filter(unlisted_panel(listed))) == panel_key_set(panels).difference(
            string_set(listed),
        ),
{
    broadcast use vstd::seq_lib::group_filter_ensures;

    let f = panels.filter(unlisted_panel(listed));
    assert forall|k: Seq<char>|
        panel_key_set(f).contains(k) == panel_key_set(panels).difference(string_set(listed)).contains(
            k,
        ) by {
        if panel_key_set(f).contains(k) {
            let j = choose|j: int| 0 <= j < f.len() && f[j].qualified_panel_id@ == k;
            assert(unlisted_panel(listed)(f[j]));
            assert(f.contains(f[j]));
            panels.lemma_filter_contains_rev(unlisted_panel(listed), f[j]);
            let i = choose|i: int| 0 <= i < panels.len() && panels[i] == f[j];
            assert(panels[i].qualified_panel_id@ == k);
        }
        if panel_key_set(panels).difference(string_set(listed)).contains(k) {
            let i = choose|i: int| 0 <= i < panels.len() && panels[i].qualified_panel_id@ == k;
            assert(unlisted_panel(listed)(panels[i]));
            assert(f.contains(panels[i]));
            let j = choose|j: int| 0 <= j < f.len() && f[j] == panels[i];
            assert(f[j].qualified_panel_id@ == k);
        }
    }
    assert(panel_key_set(f) =~= panel_key_set(panels).difference(string_set(listed)));
}

impl RegisteredRemoteUiCommand {
    /// A field-by-field copy.
    pub fn duplicate(&self) -> (r: Self)
        ensures
            r == *self,
    {
        RegisteredRemoteUiCommand {
            qualified_id: self.qualified_id.clone(),
            extension_id: self.extension_id.clone(),
            local_command_id: self.local_command_id.clone(),
            title: self.title.clone(),
        }
    }
}

/// The commands of `cmds` whose ids are not listed, in order.
fn retain_unlisted_commands(cmds: &Vec<RegisteredRemoteUiCommand>, listed: &Vec<String>) -> (out: Vec<
    RegisteredRemoteUiCommand,
>)
    ensures
        out@ == cmds@.filter(unlisted_command(listed@)),
{
    let mut out: Vec<RegisteredRemoteUiCommand> = Vec::new();
    for i in 0..cmds.len()
        invariant
            out@ == cmds@.take(i as int).filter(unlisted_command(listed@)),
    {
        assert(cmds@.take(i + 1) == cmds@.take(i as int).push(cmds@[i as int]));
        proof { cmds@.take(i as int).lemma_filter_push(cmds@[i as int], unlisted_command(listed@)); }
        if !string_listed(listed, cmds[i].qualified_id.as_str()) {
            out.push(cmds[i].duplicate());
        }
    }
    assert(cmds@.take(cmds@.len() as int) == cmds@);
    out
}

/// The panels of `panels` whose ids are not listed, in order.
fn retain_unlisted_panels(panels: &Vec<RegisteredRemoteUiPanel>, listed: &Vec<String>) -> (out: Vec<
    RegisteredRemoteUiPanel,
>)
    ensures
        out@ == panels@.filter(unlisted_panel(listed@)),
{
    let mut out: Vec<RegisteredRemoteUiPanel> = Vec::new();
    for i in 0..panels.len()
        invariant
            out@ == panels@.take(i as int).filter(unlisted_panel(listed@)),
    {
        assert(panels@.take(i + 1) == panels@.take(i as int).push(panels@[i as int]));
        proof { panels@.take(i as int).lemma_filter_push(panels@[i as int], unlisted_panel(listed@)); }
        if !string_listed(listed, panels[i].qualified_panel_id.as_str()) {
            out.push(panels[i].duplicate());
        }
    }
    assert(panels@.take(panels@.len() as int) == panels@);
    out
}

/// Position of the command declared under `id`, if any.
pub fn find_command(cmds: &Vec<NamedCommandEntry>, id: &str) -> (r: Option<usize>)
    ensures
        r is Some <==> has_command_key(cmds@, id@),
        r matches Some(i) ==> i < cmds@.len() && cmds@[i as int].id@ == id@,
{
    let mut i: usize = 0;
    while i < cmds.len()
        invariant
            i <= cmds.len(),
            forall|j: int| 0 <= j < i ==> cmds@[j].id@ != id@,
        decreases cmds.len() - i,
    {
        if crate::text::same_text(cmds[i].id.as_str(), id) {
            return Some(i);
        }
        i = i + 1;
    }
    None
}

/// Every palette entry of `exts`, before sorting.
fn palette_candidates(exts: &Vec<RegisteredRemoteUiExtension>) -> (out: Vec<RegisteredRemoteUiPaletteItem>)
    requires
        forall|i: int| 0 <= i < exts@.len() ==> (#[trigger] exts@[i]).remote_ui.wf(),
    ensures
        palette_views_of(out@) == palette_views(exts@),
{
    let mut out: Vec<RegisteredRemoteUiPaletteItem> = Vec::new();
    for k in 0..exts.len()
        invariant
            forall|i: int| 0 <= i < exts@.len() ==> (#[trigger] exts@[i]).remote_ui.wf(),
            palette_views_of(out@) == palette_views(exts@.take(k as int)),
    {
        let x = &exts[k];
        let e = x.extension_id.as_str();
        let cmds = &x.remote_ui.commands;
        let menus = &x.remote_ui.menus;
        let ghost base = palette_views(exts@.take(k as int));
        for i in 0..cmds.len()
            invariant
                palette_views_of(out@) == base + command_palette_views(e@, cmds@.take(i as int)),
        {
            let c = &cmds[i];
            assert(cmds@.take(i + 1).drop_last() == cmds@.take(i as int));
            assert(cmds@.take(i + 1).last() == cmds@[i as int]);
            if c.entry.palette {
                let item = RegisteredRemoteUiPaletteItem {
                    command_id: qualified_remote_ui_id(e, c.id.as_str()),
                    title: c.entry.title.clone(),
                    search_text: palette_search_text(
                        e,
                        c.id.as_str(),
                        c.entry.title.as_str(),
                        Some(c.entry.description.as_str()),
                    ),
                };
                let ghost before = out@;
                out.push(item);
                assert(palette_views_of(out@) == palette_views_of(before).push(palette_view(item)));
            }
        }
        assert(cmds@.take(cmds@.len() as int) == cmds@);
        let ghost mid = palette_views_of(out@);
        for i in 0..menus.len()
            invariant
                x.remote_ui.wf(),
                cmds@ == x.remote_ui.commands@,
                menus@ == x.remote_ui.menus@,
                palette_views_of(out@) == mid + menu_palette_views(e@, cmds@, menus@.take(i as int)),
        {
            let m = &menus[i];
            assert(menus@.take(i + 1).drop_last() == menus@.take(i as int));
            assert(menus@.take(i + 1).last() == menus@[i as int]);
            let palette_location = match m.location {
                MenuLocation::CommandPalette => true,
                _ => false,
            };
            if palette_location {
                match find_command(cmds, m.command.as_str()) {
                    Some(ci) => {
                        proof {
                            let w = choose|w: int| 0 <= w < cmds@.len() && cmds@[w].id@ == m.command@;
                            assert(w == ci);
                        }
                        let item = RegisteredRemoteUiPaletteItem {
                            command_id: qualified_remote_ui_id(e, m.command.as_str()),
                            title: m.title.clone(),
                            search_text: palette_search_text(
                                e,
                                m.command.as_str(),
                                m.title.as_str(),
                                Some(cmds[ci].entry.description.as_str()),
                            ),
                        };
                        let ghost before = out@;
                        out.push(item);
                        assert(palette_views_of(out@) == palette_views_of(before).push(
                            palette_view(item),
                        ));
                    },
                    None => {},
                }
            }
        }
        assert(menus@.take(menus@.len() as int) == menus@);
        assert(exts@.take(k + 1).drop_last() == exts@.take(k as int));
        assert(exts@.take(k + 1).last() == exts@[k as int]);
    }
    assert(exts@.take(exts@.len() as int) == exts@);
    out
}

impl RemoteUiRegistry {
    /// Extensions are registered under distinct ids, each with a well-formed
    /// manifest.
    pub open spec fn wf(&self) -> bool {
        &&& forall|i: int, j: int|
            0 <= i < self.extensions@.len() && 0 <= j < self.extensions@.len() && i != j
                ==> self.extensions@[i].extension_id@ != self.extensions@[j].extension_id@
        &&& forall|i: int| 0 <= i < self.extensions@.len() ==> (#[trigger] self.extensions@[i]).remote_ui.wf()
    }

    /// The palette is sorted by title and holds exactly the entries the
    /// registered extensions contribute.
    pub open spec fn palette_in_sync(&self) -> bool {
        &&& sorted_by_key(self.command_palette_items@)
        &&& palette_views_of(self.command_palette_items@).to_multiset() == palette_views(
            self.extensions@,
        ).to_multiset()
    }

    pub open spec fn command_keys(&self) -> Set<Seq<char>> {
        command_key_set(self.commands@)
    }

    pub open spec fn panel_keys(&self) -> Set<Seq<char>> {
        panel_key_set(self.panels@)
    }

    /// An empty registry.
    pub fn new() -> (r: Self)
        ensures
            r.wf(),
            r.palette_in_sync(),
            r.next_panel_activation_priority == 0,
            r.extensions@.len() == 0,
            r.command_keys() == Set::<Seq<char>>::empty(),
            r.panel_keys() == Set::<Seq<char>>::empty(),
    {
        let r = RemoteUiRegistry {
            next_panel_activation_priority: 0,
            extensions: Vec::new(),
            commands: Vec::new(),
            command_palette_items: Vec::new(),
            panels: Vec::new(),
        };
        proof {
            assert(palette_views_of(r.command_palette_items@) =~= Seq::empty());
            assert(r.command_keys() =~= Set::<Seq<char>>::empty());
            assert(r.panel_keys() =~= Set::<Seq<char>>::empty());
        }
        r
    }

    /// The command a dispatch runs: the first registered under
    /// `command_id`, or the error for an unknown one.
    pub fn command_for_dispatch(&self, command_id: &str) -> (r: Result<&RegisteredRemoteUiCommand, String>)
        ensures
            match r {
                Ok(c) => exists|i: int|
                    0 <= i < self.commands@.len() && self.commands@[i] == *c && c.qualified_id@ == command_id@
                        && forall|j: int| 0 <= j < i ==> self.commands@[j].qualified_id@ != command_id@,
                Err(m) => m@ == "unknown extension command `"@ + command_id@ + "`"@ && forall|j: int|
                    0 <= j < self.commands@.len() ==> self.commands@[j].qualified_id@ != command_id@,
            },
    {
        let mut i: usize = 0;
        while i < self.commands.len()
            invariant
                i <= self.commands@.len(),
                forall|j: int| 0 <= j < i ==> self.commands@[j].qualified_id@ != command_id@,
            decreases self.commands@.len() - i,
        {
            if crate::text::same_text(self.commands[i].qualified_id.as_str(), command_id) {
                return Ok(&self.commands[i]);
            }
            i = i + 1;
        }
        Err(crate::text::join3("unknown extension command `", command_id, "`"))
    }

    /// Rebuilds the command palette from the registered extensions.
    pub fn rebuild_command_palette_items(&mut self)
        requires
            old(self).wf(),
        ensures
            final(self).wf(),
            final(self).palette_in_sync(),
            final(self).extensions == old(self).extensions,
            final(self).commands == old(self).commands,
            final(self).panels == old(self).panels,
            final(self).next_panel_activation_priority == old(self).next_panel_activation_priority,
    {
        let candidates = palette_candidates(&self.extensions);
        let sorted = sort_by_key(candidates);
        proof {
            lemma_map_values_multiset(
                sorted@,
                candidates@,
                |p: RegisteredRemoteUiPaletteItem| palette_view(p),
            );
        }
        self.command_palette_items = sorted;
    }
}

} // verus!

verus! {

/// Distinct local ids give distinct qualified ids.
pub proof fn lemma_qualified_id_injective(e: Seq<char>, a: Seq<char>, b: Seq<char>)
    requires
        qualified_id(e, a) == qualified_id(e, b),
    ensures
        a == b,
{
    reveal_strlit("::");
    let qa = qualified_id(e, a);
    let qb = qualified_id(e, b);
    let n = e.len() + 2;
    assert(qa.len() == e.len() + 2 + a.len());
    assert(qb.len() == e.len() + 2 + b.len());
    assert(a.len() == b.len());
    assert forall|t: int| 0 <= t < a.len() implies a[t] == b[t] by {
        assert(qa[n + t] == a[t]);
        assert(qb[n + t] == b[t]);
    }
    assert(a =~= b);
}

/// The activation priority that follows `p`.
pub open spec fn priority_step(p: u32) -> u32 {
    if p < u32::MAX {
        (p + 1) as u32
    } else {
        1_000_000
    }
}

/// The activation priority `n` steps after `p`.
pub open spec fn nth_priority(p: u32, n: nat) -> u32
    decreases n,
{
    if n == 0 {
        p
    } else {
        priority_step(nth_priority(p, (n - 1) as nat))
    }
}

pub open spec fn command_registered_as(
    c: RegisteredRemoteUiCommand,
    e: Seq<char>,
    n: NamedCommandEntry,
) -> bool {
    &&& c.qualified_id@ == qualified_id(e, n.id@)
    &&& c.extension_id@ == e
    &&& c.local_command_id@ == n.id@
    &&& c.title@ == n.entry.title@
}

pub open spec fn panel_registered_as(
    p: RegisteredRemoteUiPanel,
    e: Seq<char>,
    n: NamedPanelEntry,
    priority: u32,
) -> bool {
    &&& p.qualified_panel_id@ == qualified_id(e, n.id@)
    &&& p.extension_id@ == e
    &&& p.root_view@ == n.entry.root_view@
    &&& p.title@ == n.entry.title@
    &&& p.default_dock == dock_for(n.entry.default_dock)
    &&& p.activation_priority == priority
}

pub open spec fn views_of(ids: Seq<String>) -> Seq<Seq<char>> {
    ids.map_values(|s: String| s@)
}

impl RemoteUiRegistry {
    /// The registry without the extension registered under `e`, as far as
    /// the extensions are concerned.
    pub open spec fn extensions_without(&self, e: Seq<char>) -> Seq<RegisteredRemoteUiExtension> {
        match extension_position(self.extensions@, e) {
            Some(i) => self.extensions@.remove(i),
            None => self.extensions@,
        }
    }

    /// The command ids left once the extension under `e` is gone.
    pub open spec fn command_keys_without(&self, e: Seq<char>) -> Set<Seq<char>> {
        match extension_position(self.extensions@, e) {
            Some(i) => self.command_keys().difference(
                string_set(self.extensions@[i].qualified_command_ids@),
            ),
            None => self.command_keys(),
        }
    }

    /// The panel ids left once the extension under `e` is gone.
    pub open spec fn panel_keys_without(&self, e: Seq<char>) -> Set<Seq<char>> {
        match extension_position(self.extensions@, e) {
            Some(i) => self.panel_keys().difference(string_set(self.extensions@[i].qualified_panel_ids@)),
            None => self.panel_keys(),
        }
    }

    /// Removes the extension registered under `extension_id` with its commands
    /// and panels, and returns the ids of its panels.
    pub fn unregister_extension(&mut self, extension_id: &str) -> (removed_panel_ids: Vec<String>)
        requires
            old(self).wf(),
        ensures
            final(self).wf(),
            final(self).next_panel_activation_priority == old(self).next_panel_activation_priority,
            forall|j: int|
                0 <= j < final(self).extensions@.len() ==> (#[trigger] final(self).extensions@[j]).extension_id@
                    != extension_id@,
            final(self).extensions@ == old(self).extensions_without(extension_id@),
            final(self).command_keys() == old(self).command_keys_without(extension_id@),
            final(self).panel_keys() == old(self).panel_keys_without(extension_id@),
            unregistered_from(*final(self), *old(self), extension_id@),
            match extension_position(old(self).extensions@, extension_id@) {
                Some(i) => {
                    &&& removed_panel_ids@ == old(self).extensions@[i].qualified_panel_ids@
                    &&& final(self).palette_in_sync()
                },
                None => *final(self) == *old(self) && removed_panel_ids@.len() == 0,
            },
    {
        let mut i: usize = 0;
        while i < self.extensions.len() && !crate::text::same_text(
            self.extensions[i].extension_id.as_str(),
            extension_id,
        )
            invariant
                i <= self.extensions@.len(),
                forall|j: int| 0 <= j < i ==> self.extensions@[j].extension_id@ != extension_id@,
            decreases self.extensions@.len() - i,
        {
            i = i + 1;
        }
        if i == self.extensions.len() {
            assert(extension_position(self.extensions@, extension_id@) is None);
            return Vec::new();
        }
        proof {
            let w = choose|w: int|
                0 <= w < self.extensions@.len() && self.extensions@[w].extension_id@ == extension_id@;
            assert(w == i);
        }
        let ghost old_exts = self.extensions@;
        let extension = self.extensions.remove(i);
        proof {
            lemma_command_keys_after_retain(self.commands@, extension.qualified_command_ids@);
            lemma_panel_keys_after_retain(self.panels@, extension.qualified_panel_ids@);
        }
        self.commands = retain_unlisted_commands(&self.commands, &extension.qualified_command_ids);
        self.panels = retain_unlisted_panels(&self.panels, &extension.qualified_panel_ids);
        proof {
            let exts = self.extensions@;
            assert(exts == old_exts.remove(i as int));
            assert forall|a: int, b: int|
                0 <= a < exts.len() && 0 <= b < exts.len() && a != b implies exts[a].extension_id@
                != exts[b].extension_id@ by {
                let a2 = if a < i { a } else { a + 1 };
                let b2 = if b < i { b } else { b + 1 };
                assert(exts[a] == old_exts[a2]);
                assert(exts[b] == old_exts[b2]);
            }
            assert forall|a: int| 0 <= a < exts.len() implies (#[trigger] exts[a]).remote_ui.wf() by {
                let a2 = if a < i { a } else { a + 1 };
                assert(exts[a] == old_exts[a2]);
            }
            assert forall|j: int| 0 <= j < exts.len() implies (#[trigger] exts[j]).extension_id@
                != extension_id@ by {
                let j2 = if j < i { j } else { j + 1 };
                assert(exts[j] == old_exts[j2]);
                assert(old_exts[i as int].extension_id@ == extension_id@);
            }
        }
        self.rebuild_command_palette_items();
        extension.qualified_panel_ids
    }
}

} // verus!

verus! {

/// Appends the commands of `cmds`, registered under `e`, and returns their
/// qualified ids in order.
fn push_registered_commands(
    commands: &mut Vec<RegisteredRemoteUiCommand>,
    e: &str,
    cmds: &Vec<NamedCommandEntry>,
) -> (ids: Vec<String>)
    ensures
        final(commands)@.len() == old(commands)@.len() + cmds@.len(),
        forall|j: int| 0 <= j < old(commands)@.len() ==> final(commands)@[j] == old(commands)@[j],
        forall|i: int|
            0 <= i < cmds@.len() ==> command_registered_as(
                #[trigger] final(commands)@[old(commands)@.len() + i],
                e@,
                cmds@[i],
            ),
        ids@.len() == cmds@.len(),
        forall|i: int| 0 <= i < cmds@.len() ==> (#[trigger] ids@[i])@ == qualified_id(e@, cmds@[i].id@),
        command_key_set(final(commands)@) == command_key_set(old(commands)@).union(qualified_command_keys(e@, cmds@)),
        string_set(ids@) == qualified_command_keys(e@, cmds@),
{
    let ghost start = commands@;
    let mut ids: Vec<String> = Vec::new();
    for i in 0..cmds.len()
        invariant
            commands@.len() == start.len() + i,
            forall|j: int| 0 <= j < start.len() ==> commands@[j] == start[j],
            forall|t: int| 0 <= t < i ==> command_registered_as(#[trigger] commands@[start.len() + t], e@, cmds@[t]),
            ids@.len() == i,
            forall|t: int| 0 <= t < i ==> (#[trigger] ids@[t])@ == qualified_id(e@, cmds@[t].id@),
    {
        let c = &cmds[i];
        let q = qualified_remote_ui_id(e, c.id.as_str());
        let registered = RegisteredRemoteUiCommand {
            qualified_id: q.clone(),
            extension_id: e.to_owned(),
            local_command_id: c.id.clone(),
            title: c.entry.title.clone(),
        };
        commands.push(registered);
        ids.push(q);
    }
    proof {
        let n = start.len();
        assert forall|k: Seq<char>|
            command_key_set(commands@).contains(k) == command_key_set(start).union(
                qualified_command_keys(e@, cmds@),
            ).contains(k) by {
            if command_key_set(commands@).contains(k) {
                let j = choose|j: int| 0 <= j < commands@.len() && commands@[j].qualified_id@ == k;
                if j < n {
                    assert(start[j].qualified_id@ == k);
                } else {
                    assert(command_registered_as(commands@[n + (j - n)], e@, cmds@[j - n]));
                    assert(qualified_command_keys(e@, cmds@).contains(k));
                }
            }
            if command_key_set(start).contains(k) {
                let j = choose|j: int| 0 <= j < start.len() && start[j].qualified_id@ == k;
                assert(commands@[j] == start[j]);
            }
            if qualified_command_keys(e@, cmds@).contains(k) {
                let t = choose|t: int| 0 <= t < cmds@.len() && k == qualified_id(e@, cmds@[t].id@);
                assert(command_registered_as(commands@[n + t], e@, cmds@[t]));
            }
        }
        assert(command_key_set(commands@) =~= command_key_set(start).union(qualified_command_keys(e@, cmds@)));
        assert forall|k: Seq<char>| string_set(ids@).contains(k) == qualified_command_keys(e@, cmds@).contains(k) by {
            if string_set(ids@).contains(k) {
                let j = choose|j: int| 0 <= j < ids@.len() && ids@[j]@ == k;
                assert(ids@[j]@ == qualified_id(e@, cmds@[j].id@));
            }
            if qualified_command_keys(e@, cmds@).contains(k) {
                let t = choose|t: int| 0 <= t < cmds@.len() && k == qualified_id(e@, cmds@[t].id@);
                assert(ids@[t]@ == k);
            }
        }
        assert(string_set(ids@) =~= qualified_command_keys(e@, cmds@));
    }
    ids
}

/// Appends the panels of `entries`, registered under `e` with activation
/// priorities counted on from `*next`; returns their qualified ids and the
/// registered panels, in order.
fn push_registered_panels(
    panels: &mut Vec<RegisteredRemoteUiPanel>,
    next: &mut u32,
    e: &str,
    entries: &Vec<NamedPanelEntry>,
) -> (r: (Vec<String>, Vec<RegisteredRemoteUiPanel>))
    ensures
        final(panels)@.len() == old(panels)@.len() + entries@.len(),
        forall|j: int| 0 <= j < old(panels)@.len() ==> final(panels)@[j] == old(panels)@[j],
        r.1@.len() == entries@.len(),
        forall|i: int|
            0 <= i < entries@.len() ==> panel_registered_as(
                #[trigger] r.1@[i],
                e@,
                entries@[i],
                nth_priority(*old(next), i as nat),
            ) && final(panels)@[old(panels)@.len() + i] == r.1@[i],
        *final(next) == nth_priority(*old(next), entries@.len()),
        r.0@.len() == entries@.len(),
        forall|i: int| 0 <= i < entries@.len() ==> (#[trigger] r.0@[i])@ == qualified_id(e@, entries@[i].id@),
        panel_key_set(final(panels)@) == panel_key_set(old(panels)@).union(qualified_panel_keys(e@, entries@)),
        string_set(r.0@) == qualified_panel_keys(e@, entries@),
{
    let ghost start = panels@;
    let ghost p0 = *next;
    let mut ids: Vec<String> = Vec::new();
    let mut registered: Vec<RegisteredRemoteUiPanel> = Vec::new();
    for i in 0..entries.len()
        invariant
            panels@.len() == start.len() + i,
            forall|j: int| 0 <= j < start.len() ==> panels@[j] == start[j],
            registered@.len() == i,
            forall|t: int|
                0 <= t < i ==> panel_registered_as(#[trigger] registered@[t], e@, entries@[t], nth_priority(p0, t as nat))
                    && panels@[start.len() + t] == registered@[t],
            *next == nth_priority(p0, i as nat),
            ids@.len() == i,
            forall|t: int| 0 <= t < i ==> (#[trigger] ids@[t])@ == qualified_id(e@, entries@[t].id@),
    {
        let p = &entries[i];
        let q = qualified_remote_ui_id(e, p.id.as_str());
        let panel = RegisteredRemoteUiPanel {
            qualified_panel_id: q.clone(),
            extension_id: e.to_owned(),
            root_view: p.entry.root_view.clone(),
            title: p.entry.title.clone(),
            default_dock: dock_position_for_panel(p.entry.default_dock),
            activation_priority: *next,
        };
        *next = match next.checked_add(1) {
            Some(v) => v,
            None => 1_000_000,
        };
        panels.push(panel.duplicate());
        registered.push(panel);
        ids.push(q);
    }
    proof {
        let n = start.len();
        assert forall|k: Seq<char>|
            panel_key_set(panels@).contains(k) == panel_key_set(start).union(
                qualified_panel_keys(e@, entries@),
            ).contains(k) by {
            if panel_key_set(panels@).contains(k) {
                let j = choose|j: int| 0 <= j < panels@.len() && panels@[j].qualified_panel_id@ == k;
                if j < n {
                    assert(start[j].qualified_panel_id@ == k);
                } else {
                    assert(panel_registered_as(registered@[j - n], e@, entries@[j - n], nth_priority(p0, (j - n) as nat)));
                    assert(qualified_panel_keys(e@, entries@).contains(k));
                }
            }
            if panel_key_set(start).contains(k) {
                let j = choose|j: int| 0 <= j < start.len() && start[j].qualified_panel_id@ == k;
                assert(panels@[j] == start[j]);
            }
            if qualified_panel_keys(e@, entries@).contains(k) {
                let t = choose|t: int| 0 <= t < entries@.len() && k == qualified_id(e@, entries@[t].id@);
                assert(panel_registered_as(registered@[t], e@, entries@[t], nth_priority(p0, t as nat)));
                assert(panels@[n + t] == registered@[t]);
            }
        }
        assert(panel_key_set(panels@) =~= panel_key_set(start).union(qualified_panel_keys(e@, entries@)));
        assert forall|k: Seq<char>| string_set(ids@).contains(k) == qualified_panel_keys(e@, entries@).contains(k) by {
            if string_set(ids@).contains(k) {
                let j = choose|j: int| 0 <= j < ids@.len() && ids@[j]@ == k;
                assert(ids@[j]@ == qualified_id(e@, entries@[j].id@));
            }
            if qualified_panel_keys(e@, entries@).contains(k) {
                let t = choose|t: int| 0 <= t < entries@.len() && k == qualified_id(e@, entries@[t].id@);
                assert(ids@[t]@ == k);
            }
        }
        assert(string_set(ids@) =~= qualified_panel_keys(e@, entries@));
    }
    (ids, registered)
}

/// What registering `m` under `e` makes of registry `a`: `b` is well
/// formed, holds `e` as its last extension with the qualified ids of `m`,
/// and its command and panel ids are those of `a` without `e`, with the ids
/// of `m` added.
pub open spec fn registered_from(b: RemoteUiRegistry, a: RemoteUiRegistry, e: Seq<char>, m: RemoteUiManifest) -> bool {
    &&& b.wf()
    &&& b.extensions@.len() > 0
    &&& b.extensions@.last().extension_id@ == e
    &&& string_set(b.extensions@.last().qualified_command_ids@) == qualified_command_keys(e, m.commands@)
    &&& string_set(b.extensions@.last().qualified_panel_ids@) == qualified_panel_keys(e, m.panels@)
    &&& b.command_keys() == a.command_keys_without(e).union(qualified_command_keys(e, m.commands@))
    &&& b.panel_keys() == a.panel_keys_without(e).union(qualified_panel_keys(e, m.panels@))
}

/// What unregistering `e` makes of registry `b`: its command and panel ids
/// without those of `e`.
pub open spec fn unregistered_from(c: RemoteUiRegistry, b: RemoteUiRegistry, e: Seq<char>) -> bool {
    &&& c.command_keys() == b.command_keys_without(e)
    &&& c.panel_keys() == b.panel_keys_without(e)
}

/// Registering an extension and then unregistering it leaves the ids that
/// were there without it, less the ids its manifest declares: none of the
/// ids it registered remains.
pub proof fn lemma_register_then_unregister(
    a: RemoteUiRegistry,
    b: RemoteUiRegistry,
    c: RemoteUiRegistry,
    e: Seq<char>,
    m: RemoteUiManifest,
)
    requires
        registered_from(b, a, e, m),
        unregistered_from(c, b, e),
    ensures
        c.command_keys() == a.command_keys_without(e).difference(qualified_command_keys(e, m.commands@)),
        c.panel_keys() == a.panel_keys_without(e).difference(qualified_panel_keys(e, m.panels@)),
        c.command_keys().disjoint(qualified_command_keys(e, m.commands@)),
        c.panel_keys().disjoint(qualified_panel_keys(e, m.panels@)),
{
    let exts = b.extensions@;
    let last = (exts.len() - 1) as int;
    assert(exts[last].extension_id@ == e);
    let w = choose|i: int| 0 <= i < exts.len() && exts[i].extension_id@ == e;
    assert(w == last);
    assert(extension_position(exts, e) == Some(last));
    assert(c.command_keys() =~= a.command_keys_without(e).difference(qualified_command_keys(e, m.commands@)));
    assert(c.panel_keys() =~= a.panel_keys_without(e).difference(qualified_panel_keys(e, m.panels@)));
}

impl RemoteUiRegistry {
    /// Registers `remote_ui` under `extension_id`, first removing whatever was
    /// registered under that id. Its commands and panels take ids qualified by
    /// the extension; each panel takes the next activation priority. Returns
    /// the registered panels in manifest order.
    pub fn register_extension(&mut self, extension_id: String, remote_ui: RemoteUiManifest) -> (registered: Vec<
        RegisteredRemoteUiPanel,
    >)
        requires
            old(self).wf(),
            remote_ui.wf(),
        ensures
            final(self).wf(),
            final(self).palette_in_sync(),
            final(self).extensions@.len() == old(self).extensions_without(extension_id@).len() + 1,
            final(self).extensions@.drop_last() == old(self).extensions_without(extension_id@),
            final(self).extensions@.last().extension_id@ == extension_id@,
            final(self).extensions@.last().remote_ui == remote_ui,
            string_set(final(self).extensions@.last().qualified_command_ids@) == qualified_command_keys(
                extension_id@,
                remote_ui.commands@,
            ),
            string_set(final(self).extensions@.last().qualified_panel_ids@) == qualified_panel_keys(
                extension_id@,
                remote_ui.panels@,
            ),
            final(self).command_keys() == old(self).command_keys_without(extension_id@).union(
                qualified_command_keys(extension_id@, remote_ui.commands@),
            ),
            final(self).panel_keys() == old(self).panel_keys_without(extension_id@).union(
                qualified_panel_keys(extension_id@, remote_ui.panels@),
            ),
            final(self).commands@.len() >= remote_ui.commands@.len(),
            forall|i: int|
                0 <= i < remote_ui.commands@.len() ==> command_registered_as(
                    #[trigger] final(self).commands@[final(self).commands@.len() - remote_ui.commands@.len() + i],
                    extension_id@,
                    remote_ui.commands@[i],
                ),
            registered@.len() == remote_ui.panels@.len(),
            final(self).panels@.len() >= registered@.len(),
            forall|i: int|
                0 <= i < registered@.len() ==> panel_registered_as(
                    #[trigger] registered@[i],
                    extension_id@,
                    remote_ui.panels@[i],
                    nth_priority(old(self).next_panel_activation_priority, i as nat),
                ) && final(self).panels@[final(self).panels@.len() - registered@.len() + i] == registered@[i],
            final(self).next_panel_activation_priority == nth_priority(
                old(self).next_panel_activation_priority,
                remote_ui.panels@.len(),
            ),
            registered_from(*final(self), *old(self), extension_id@, remote_ui),
    {
        let _ = self.unregister_extension(extension_id.as_str());
        let ghost mid_exts = self.extensions@;
        let command_ids = push_registered_commands(&mut self.commands, extension_id.as_str(), &remote_ui.commands);
        let (panel_ids, registered) = push_registered_panels(
            &mut self.panels,
            &mut self.next_panel_activation_priority,
            extension_id.as_str(),
            &remote_ui.panels,
        );
        let extension = RegisteredRemoteUiExtension {
            extension_id,
            remote_ui,
            qualified_command_ids: command_ids,
            qualified_panel_ids: panel_ids,
        };
        self.extensions.push(extension);
        proof {
            let exts = self.extensions@;
            assert(exts.drop_last() == mid_exts);
            assert forall|a: int, b: int|
                0 <= a < exts.len() && 0 <= b < exts.len() && a != b implies exts[a].extension_id@
                != exts[b].extension_id@ by {
                if a < mid_exts.len() && b < mid_exts.len() {
                    assert(exts[a] == mid_exts[a] && exts[b] == mid_exts[b]);
                } else if a < mid_exts.len() {
                    assert(exts[a] == mid_exts[a]);
                } else {
                    assert(exts[b] == mid_exts[b]);
                }
            }
            assert forall|a: int| 0 <= a < exts.len() implies (#[trigger] exts[a]).remote_ui.wf() by {
                if a < mid_exts.len() {
                    assert(exts[a] == mid_exts[a]);
                }
            }
        }
        self.rebuild_command_palette_items();
        registered
    }
}

} // verus!

verus! {

/// The strip a titlebar side places a widget in.
pub open spec fn titlebar_strip(side: WidgetSide) -> StripSide {
    match side {
        WidgetSide::Left => StripSide::Left,
        WidgetSide::Right => StripSide::Right,
    }
}

/// The strip a footer zone places a widget in.
pub open spec fn footer_strip(zone: FooterWidgetZone) -> StripSide {
    match zone {
        FooterWidgetZone::Left => StripSide::Left,
        FooterWidgetZone::Center => StripSide::Center,
        FooterWidgetZone::Right => StripSide::Right,
    }
}

/// A placed widget as texts and plain values: its ids and root view, where
/// and how large it shows with its priority, and its width and refresh
/// settings.
pub type WidgetView = (
    (Seq<char>, Seq<char>, Seq<char>),
    (WidgetSurface, StripSide, WidgetSize, u32),
    (Option<u32>, Option<u32>, Option<u32>),
);

pub open spec fn widget_view(w: RegisteredRemoteUiWidget) -> WidgetView {
    (
        (w.qualified_widget_id@, w.extension_id@, w.root_view@),
        (w.surface, w.side, w.size, w.priority),
        (w.min_width, w.max_width, w.refresh_interval_seconds),
    )
}

pub open spec fn widget_views_of(ws: Seq<RegisteredRemoteUiWidget>) -> Seq<WidgetView> {
    ws.map_values(|w: RegisteredRemoteUiWidget| widget_view(w))
}

/// The titlebar widgets of extension `e` on strip `side`, placed, in order.
pub open spec fn titlebar_views(e: Seq<char>, ws: Seq<TitlebarWidgetManifestEntry>, side: StripSide) -> Seq<
    WidgetView,
>
    decreases ws.len(),
{
    if ws.len() == 0 {
        Seq::empty()
    } else {
        let rest = titlebar_views(e, ws.drop_last(), side);
        let w = ws.last();
        if titlebar_strip(w.side) == side {
            rest.push(
                (
                    (qualified_id(e, w.id@), e, w.root_view@),
                    (WidgetSurface::Titlebar, side, w.size, w.priority),
                    (w.min_width, w.max_width, w.refresh_interval_seconds),
                ),
            )
        } else {
            rest
        }
    }
}

/// The footer widgets of extension `e` on strip `side`, placed, in order.
pub open spec fn footer_views(e: Seq<char>, ws: Seq<FooterWidgetManifestEntry>, side: StripSide) -> Seq<
    WidgetView,
>
    decreases ws.len(),
{
    if ws.len() == 0 {
        Seq::empty()
    } else {
        let rest = footer_views(e, ws.drop_last(), side);
        let w = ws.last();
        if footer_strip(w.zone) == side {
            rest.push(
                (
                    (qualified_id(e, w.id@), e, w.root_view@),
                    (WidgetSurface::Footer, side, w.size, w.priority),
                    (w.min_width, w.max_width, w.refresh_interval_seconds),
                ),
            )
        } else {
            rest
        }
    }
}

pub open spec fn extension_widget_views(x: RegisteredRemoteUiExtension, surface: WidgetSurface, side: StripSide) -> Seq<
    WidgetView,
> {
    match surface {
        WidgetSurface::Titlebar => titlebar_views(x.extension_id@, x.remote_ui.titlebar_widgets@, side),
        WidgetSurface::Footer => footer_views(x.extension_id@, x.remote_ui.footer_widgets@, side),
    }
}

/// Every widget the registered extensions place on `surface` at `side`.
pub open spec fn widget_views(exts: Seq<RegisteredRemoteUiExtension>, surface: WidgetSurface, side: StripSide) -> Seq<
    WidgetView,
>
    decreases exts.len(),
{
    if exts.len() == 0 {
        Seq::empty()
    } else {
        widget_views(exts.drop_last(), surface, side) + extension_widget_views(exts.last(), surface, side)
    }
}

impl SortKey for RegisteredRemoteUiWidget {
    open spec fn key_le(&self, other: &Self) -> bool {
        self.priority <= other.priority
    }

    proof fn lemma_key_total(a: &Self, b: &Self) {
    }

    proof fn lemma_key_trans(a: &Self, b: &Self, c: &Self) {
    }

    fn key_le_exec(&self, other: &Self) -> (r: bool) {
        self.priority <= other.priority
    }
}

/// Every widget `exts` place on `surface` at `side`, before sorting.
fn widget_candidates(exts: &Vec<RegisteredRemoteUiExtension>, surface: WidgetSurface, side: StripSide) -> (out: Vec<
    RegisteredRemoteUiWidget,
>)
    ensures
        widget_views_of(out@) == widget_views(exts@, surface, side),
{
    let mut out: Vec<RegisteredRemoteUiWidget> = Vec::new();
    for k in 0..exts.len()
        invariant
            widget_views_of(out@) == widget_views(exts@.take(k as int), surface, side),
    {
        let x = &exts[k];
        let e = x.extension_id.as_str();
        let ghost base = widget_views(exts@.take(k as int), surface, side);
        match surface {
            WidgetSurface::Titlebar => {
                let ws = &x.remote_ui.titlebar_widgets;
                for i in 0..ws.len()
                    invariant
                        widget_views_of(out@) == base + titlebar_views(e@, ws@.take(i as int), side),
                {
                    let w = &ws[i];
                    assert(ws@.take(i + 1).drop_last() == ws@.take(i as int));
                    assert(ws@.take(i + 1).last() == ws@[i as int]);
                    if strip_side_for_titlebar_widget(w.side) == side {
                        let item = RegisteredRemoteUiWidget {
                            qualified_widget_id: qualified_remote_ui_id(e, w.id.as_str()),
                            extension_id: e.to_owned(),
                            root_view: w.root_view.clone(),
                            surface: WidgetSurface::Titlebar,
                            side: strip_side_for_titlebar_widget(w.side),
                            size: w.size,
                            priority: w.priority,
                            min_width: w.min_width,
                            max_width: w.max_width,
                            refresh_interval_seconds: w.refresh_interval_seconds,
                        };
                        let ghost before = out@;
                        out.push(item);
                        assert(widget_views_of(out@) == widget_views_of(before).push(widget_view(item)));
                    }
                }
                assert(ws@.take(ws@.len() as int) == ws@);
            },
            WidgetSurface::Footer => {
                let ws = &x.remote_ui.footer_widgets;
                for i in 0..ws.len()
                    invariant
                        widget_views_of(out@) == base + footer_views(e@, ws@.take(i as int), side),
                {
                    let w = &ws[i];
                    assert(ws@.take(i + 1).drop_last() == ws@.take(i as int));
                    assert(ws@.take(i + 1).last() == ws@[i as int]);
                    if strip_side_for_footer_widget(w.zone) == side {
                        let item = RegisteredRemoteUiWidget {
                            qualified_widget_id: qualified_remote_ui_id(e, w.id.as_str()),
                            extension_id: e.to_owned(),
                            root_view: w.root_view.clone(),
                            surface: WidgetSurface::Footer,
                            side: strip_side_for_footer_widget(w.zone),
                            size: w.size,
                            priority: w.priority,
                            min_width: w.min_width,
                            max_width: w.max_width,
                            refresh_interval_seconds: w.refresh_interval_seconds,
                        };
                        let ghost before = out@;
                        out.push(item);
                        assert(widget_views_of(out@) == widget_views_of(before).push(widget_view(item)));
                    }
                }
                assert(ws@.take(ws@.len() as int) == ws@);
            },
        }
        assert(exts@.take(k + 1).drop_last() == exts@.take(k as int));
        assert(exts@.take(k + 1).last() == exts@[k as int]);
    }
    assert(exts@.take(exts@.len() as int) == exts@);
    out
}

impl RemoteUiRegistry {
    /// The widgets the registered extensions place on `surface` at `side`,
    /// ordered by priority.
    pub fn widget_descriptors(&self, surface: WidgetSurface, side: StripSide) -> (r: Vec<RegisteredRemoteUiWidget>)
        ensures
            widget_views_of(r@).to_multiset() == widget_views(self.extensions@, surface, side).to_multiset(),
            forall|i: int, j: int| 0 <= i < j < r@.len() ==> r@[i].priority <= r@[j].priority,
    {
        let candidates = widget_candidates(&self.extensions, surface, side);
        let sorted = sort_by_key(candidates);
        proof {
            lemma_map_values_multiset(sorted@, candidates@, |w: RegisteredRemoteUiWidget| widget_view(w));
            assert forall|i: int, j: int| 0 <= i < j < sorted@.len() implies sorted@[i].priority <= sorted@[j].priority by {
                assert(sorted@[i].key_le(&sorted@[j]));
            }
        }
        sorted
    }
}

} // verus!

verus! {

/// A context menu entry as texts and its priority.
pub type EntryView = (Seq<char>, Seq<char>, u32);

pub open spec fn entry_view(x: RegisteredRemoteUiContextMenuEntry) -> EntryView {
    (x.command_id@, x.title@, x.priority)
}

pub open spec fn entry_views_of(xs: Seq<RegisteredRemoteUiContextMenuEntry>) -> Seq<EntryView> {
    xs.map_values(|x: RegisteredRemoteUiContextMenuEntry| entry_view(x))
}

/// Whether a menu of extension `e` shows at `location` while the panel
/// `current` is open: it names no panel, or names that one.
pub open spec fn menu_shown(e: Seq<char>, m: ExtensionMenuManifestEntry, location: MenuLocation, current: Option<Seq<char>>) -> bool {
    &&& m.location == location
    &&& match m.panel {
        Some(p) => current == Some(qualified_id(e, p@)),
        None => true,
    }
}

/// The entries the menus of extension `e` add, in order.
pub open spec fn menu_entry_views(
    e: Seq<char>,
    menus: Seq<ExtensionMenuManifestEntry>,
    location: MenuLocation,
    current: Option<Seq<char>>,
) -> Seq<EntryView>
    decreases menus.len(),
{
    if menus.len() == 0 {
        Seq::empty()
    } else {
        let rest = menu_entry_views(e, menus.drop_last(), location, current);
        let m = menus.last();
        if menu_shown(e, m, location, current) {
            rest.push((qualified_id(e, m.command@), m.title@, m.priority))
        } else {
            rest
        }
    }
}

/// The entries the context actions of extension `e` on `target` add, in order.
pub open spec fn action_entry_views(
    e: Seq<char>,
    actions: Seq<ExtensionContextActionManifestEntry>,
    target: ContextActionTarget,
) -> Seq<EntryView>
    decreases actions.len(),
{
    if actions.len() == 0 {
        Seq::empty()
    } else {
        let rest = action_entry_views(e, actions.drop_last(), target);
        let a = actions.last();
        if a.target == target {
            rest.push((qualified_id(e, a.command@), a.title@, a.priority))
        } else {
            rest
        }
    }
}

pub open spec fn extension_entry_views(
    x: RegisteredRemoteUiExtension,
    location: MenuLocation,
    target: ContextActionTarget,
    current: Option<Seq<char>>,
) -> Seq<EntryView> {
    menu_entry_views(x.extension_id@, x.remote_ui.menus@, location, current) + action_entry_views(
        x.extension_id@,
        x.remote_ui.context_actions@,
        target,
    )
}

/// Every context menu entry the registered extensions add.
pub open spec fn entry_views(
    exts: Seq<RegisteredRemoteUiExtension>,
    location: MenuLocation,
    target: ContextActionTarget,
    current: Option<Seq<char>>,
) -> Seq<EntryView>
    decreases exts.len(),
{
    if exts.len() == 0 {
        Seq::empty()
    } else {
        entry_views(exts.drop_last(), location, target, current) + extension_entry_views(
            exts.last(),
            location,
            target,
            current,
        )
    }
}

/// Entries order by priority, then by title.
pub open spec fn entry_le(a: EntryView, b: EntryView) -> bool {
    a.2 < b.2 || (a.2 == b.2 && lex_le(a.1, b.1))
}

impl SortKey for RegisteredRemoteUiContextMenuEntry {
    open spec fn key_le(&self, other: &Self) -> bool {
        entry_le(entry_view(*self), entry_view(*other))
    }

    proof fn lemma_key_total(a: &Self, b: &Self) {
        lemma_lex_total(a.title@, b.title@);
    }

    proof fn lemma_key_trans(a: &Self, b: &Self, c: &Self) {
        if a.priority == b.priority && b.priority == c.priority {
            lemma_lex_trans(a.title@, b.title@, c.title@);
        }
    }

    fn key_le_exec(&self, other: &Self) -> (r: bool) {
        self.priority < other.priority || (self.priority == other.priority && text_le(
            self.title.as_str(),
            other.title.as_str(),
        ))
    }
}

pub open spec fn opt_text(s: Option<&str>) -> Option<Seq<char>> {
    match s {
        Some(t) => Some(t@),
        None => None,
    }
}

/// Every context menu entry `exts` add, before sorting.
fn entry_candidates(
    exts: &Vec<RegisteredRemoteUiExtension>,
    location: MenuLocation,
    target: ContextActionTarget,
    current: Option<&str>,
) -> (out: Vec<RegisteredRemoteUiContextMenuEntry>)
    ensures
        entry_views_of(out@) == entry_views(exts@, location, target, opt_text(current)),
{
    let ghost cur = opt_text(current);
    let mut out: Vec<RegisteredRemoteUiContextMenuEntry> = Vec::new();
    for k in 0..exts.len()
        invariant
            cur == opt_text(current),
            entry_views_of(out@) == entry_views(exts@.take(k as int), location, target, cur),
    {
        let x = &exts[k];
        let e = x.extension_id.as_str();
        let menus = &x.remote_ui.menus;
        let actions = &x.remote_ui.context_actions;
        let ghost base = entry_views(exts@.take(k as int), location, target, cur);
        for i in 0..menus.len()
            invariant
                cur == opt_text(current),
                entry_views_of(out@) == base + menu_entry_views(e@, menus@.take(i as int), location, cur),
        {
            let m = &menus[i];
            assert(menus@.take(i + 1).drop_last() == menus@.take(i as int));
            assert(menus@.take(i + 1).last() == menus@[i as int]);
            let shown = if m.location == location {
                match &m.panel {
                    Some(p) => {
                        let q = qualified_remote_ui_id(e, p.as_str());
                        match current {
                            Some(c) => crate::text::same_text(c, q.as_str()),
                            None => false,
                        }
                    },
                    None => true,
                }
            } else {
                false
            };
            assert(shown == menu_shown(e@, *m, location, cur));
            if shown {
                let item = RegisteredRemoteUiContextMenuEntry {
                    command_id: qualified_remote_ui_id(e, m.command.as_str()),
                    title: m.title.clone(),
                    priority: m.priority,
                };
                let ghost before = out@;
                out.push(item);
                assert(entry_views_of(out@) == entry_views_of(before).push(entry_view(item)));
            }
        }
        assert(menus@.take(menus@.len() as int) == menus@);
        let ghost mid = entry_views_of(out@);
        for i in 0..actions.len()
            invariant
                entry_views_of(out@) == mid + action_entry_views(e@, actions@.take(i as int), target),
        {
            let a = &actions[i];
            assert(actions@.take(i + 1).drop_last() == actions@.take(i as int));
            assert(actions@.take(i + 1).last() == actions@[i as int]);
            if a.target == target {
                let item = RegisteredRemoteUiContextMenuEntry {
                    command_id: qualified_remote_ui_id(e, a.command.as_str()),
                    title: a.title.clone(),
                    priority: a.priority,
                };
                let ghost before = out@;
                out.push(item);
                assert(entry_views_of(out@) == entry_views_of(before).push(entry_view(item)));
            }
        }
        assert(actions@.take(actions@.len() as int) == actions@);
        assert(exts@.take(k + 1).drop_last() == exts@.take(k as int));
        assert(exts@.take(k + 1).last() == exts@[k as int]);
    }
    assert(exts@.take(exts@.len() as int) == exts@);
    out
}

impl RemoteUiRegistry {
    /// The entries the registered extensions add to the menu at
    /// `menu_location` and for actions on `action_target`; a menu tied to a
    /// panel shows only while that panel is `current_panel_qualified_id`.
    /// Ordered by priority, then by title.
    pub fn context_menu_entries(
        &self,
        menu_location: MenuLocation,
        action_target: ContextActionTarget,
        current_panel_qualified_id: Option<&str>,
    ) -> (r: Vec<RegisteredRemoteUiContextMenuEntry>)
        ensures
            entry_views_of(r@).to_multiset() == entry_views(
                self.extensions@,
                menu_location,
                action_target,
                opt_text(current_panel_qualified_id),
            ).to_multiset(),
            forall|i: int, j: int| 0 <= i < j < r@.len() ==> entry_le(entry_view(r@[i]), entry_view(r@[j])),
    {
        let candidates = entry_candidates(&self.extensions, menu_location, action_target, current_panel_qualified_id);
        let sorted = sort_by_key(candidates);
        proof {
            lemma_map_values_multiset(
                sorted@,
                candidates@,
                |x: RegisteredRemoteUiContextMenuEntry| entry_view(x),
            );
            assert forall|i: int, j: int| 0 <= i < j < sorted@.len() implies entry_le(
                entry_view(sorted@[i]),
                entry_view(sorted@[j]),
            ) by {
                assert(sorted@[i].key_le(&sorted@[j]));
            }
        }
        sorted
    }
}

} // verus!

verus! {

/// A command palette result: the command to run, the title shown, and the
/// byte positions of the title to highlight.
#[derive(Debug)]
pub struct CommandPaletteMatch {
    pub command_id: String,
    pub string: String,
    pub positions: Vec<usize>,
}

pub type MatchView = (Seq<char>, Seq<char>, Seq<int>);

pub open spec fn match_view(m: CommandPaletteMatch) -> MatchView {
    (m.command_id@, m.string@, positions_view(m.positions@))
}

pub open spec fn match_views_of(ms: Seq<CommandPaletteMatch>) -> Seq<MatchView> {
    ms.map_values(|m: CommandPaletteMatch| match_view(m))
}

/// The result for one item under `query` (already normalized): with an
/// empty query the item, unhighlighted; otherwise the item if its
/// normalized search text contains the query, ignoring ASCII case.
#[verifier::opaque]
pub open spec fn palette_match_view(item: RegisteredRemoteUiPaletteItem, search: Seq<char>, query: Seq<char>) -> Option<
    MatchView,
> {
    if query.len() == 0 {
        Some((item.command_id@, item.title@, Seq::empty()))
    } else if contains_seq(ascii_lowered(search), ascii_lowered(query)) {
        Some((item.command_id@, item.title@, match_positions(item.title@, query)))
    } else {
        None
    }
}

/// The results for `query`, in item order.
pub open spec fn palette_match_views(
    items: Seq<RegisteredRemoteUiPaletteItem>,
    searches: Seq<String>,
    query: Seq<char>,
) -> Seq<MatchView>
    decreases items.len(),
{
    if items.len() == 0 {
        Seq::empty()
    } else {
        let n = (items.len() - 1) as int;
        let rest = palette_match_views(items.drop_last(), searches, query);
        match palette_match_view(items[n], searches[n]@, query) {
            Some(v) => rest.push(v),
            None => rest,
        }
    }
}

fn palette_match_for(item: &RegisteredRemoteUiPaletteItem, search: &str, query: &str) -> (r: Option<
    CommandPaletteMatch,
>)
    requires
        utf8_width(item.title@) <= usize::MAX,
    ensures
        match r {
            Some(m) => palette_match_view(*item, search@, query@) == Some(match_view(m)),
            None => palette_match_view(*item, search@, query@) is None,
        },
{
    reveal(palette_match_view);
    if chars_of(query).len() == 0 {
        let m = CommandPaletteMatch {
            command_id: item.command_id.clone(),
            string: item.title.clone(),
            positions: Vec::new(),
        };
        assert(positions_view(m.positions@) =~= Seq::<int>::empty());
        return Some(m);
    }
    let lowered_search = ascii_lowercase(search);
    let lowered_query = ascii_lowercase(query);
    if text_contains(lowered_search.as_str(), lowered_query.as_str()) {
        Some(
            CommandPaletteMatch {
                command_id: item.command_id.clone(),
                string: item.title.clone(),
                positions: substring_match_positions(item.title.as_str(), query),
            },
        )
    } else {
        None
    }
}

impl SortKey for CommandPaletteMatch {
    open spec fn key_le(&self, other: &Self) -> bool {
        lex_le(self.string@, other.string@)
    }

    proof fn lemma_key_total(a: &Self, b: &Self) {
        lemma_lex_total(a.string@, b.string@);
    }

    proof fn lemma_key_trans(a: &Self, b: &Self, c: &Self) {
        lemma_lex_trans(a.string@, b.string@, c.string@);
    }

    fn key_le_exec(&self, other: &Self) -> (r: bool) {
        text_le(self.string.as_str(), other.string.as_str())
    }
}

/// Whether a result's title is `t`.
pub open spec fn titled(t: Seq<char>) -> spec_fn(MatchView) -> bool {
    |v: MatchView| v.1 == t
}

/// The stability of the sort by title, read back on the results' views.
proof fn lemma_sorted_titles_keep_order(out: Seq<CommandPaletteMatch>, sorted: Seq<CommandPaletteMatch>, t: Seq<char>)
    requires
        sorted.to_multiset() == out.to_multiset(),
        forall|z: CommandPaletteMatch| #[trigger] sorted.filter(same_key(z)) == out.filter(same_key(z)),
    ensures
        match_views_of(sorted).filter(titled(t)) == match_views_of(out).filter(titled(t)),
{
    broadcast use vstd::seq_lib::group_to_multiset_ensures;

    let f = |m: CommandPaletteMatch| match_view(m);
    let q = |m: CommandPaletteMatch| m.string@ == t;
    lemma_map_filter(sorted, f, titled(t), q);
    lemma_map_filter(out, f, titled(t), q);
    if exists|k: int| 0 <= k < out.len() && q(out[k]) {
        let k = choose|k: int| 0 <= k < out.len() && q(out[k]);
        let e = out[k];
        assert forall|i: int| 0 <= i < out.len() implies same_key(e)(#[trigger] out[i]) == q(out[i]) by {
            let n = out[i];
            if lex_le(e.string@, n.string@) && lex_le(n.string@, e.string@) {
                lemma_lex_antisym(e.string@, n.string@);
            }
            if n.string@ == e.string@ {
                lemma_lex_refl(e.string@);
            }
        }
        assert forall|i: int| 0 <= i < sorted.len() implies same_key(e)(#[trigger] sorted[i]) == q(sorted[i]) by {
            let n = sorted[i];
            if lex_le(e.string@, n.string@) && lex_le(n.string@, e.string@) {
                lemma_lex_antisym(e.string@, n.string@);
            }
            if n.string@ == e.string@ {
                lemma_lex_refl(e.string@);
            }
        }
        lemma_filter_congruent(out, same_key(e), q);
        lemma_filter_congruent(sorted, same_key(e), q);
        assert(sorted.filter(same_key(e)) == out.filter(same_key(e)));
    } else {
        assert forall|i: int| 0 <= i < sorted.len() implies !q(#[trigger] sorted[i]) by {
            let n = sorted[i];
            assert(sorted.contains(n));
            assert(sorted.to_multiset().count(n) > 0);
            assert(out.to_multiset().count(n) > 0);
            assert(out.contains(n));
            let k = choose|k: int| 0 <= k < out.len() && out[k] == n;
            assert(!q(out[k]));
        }
        out.lemma_all_neg_filter_empty(q);
        sorted.lemma_all_neg_filter_empty(q);
        assert(out.filter(q) =~= Seq::<CommandPaletteMatch>::empty());
        assert(sorted.filter(q) =~= Seq::<CommandPaletteMatch>::empty());
    }
}

/// The command palette results for `query`, which the palette has already
/// normalized; `normalized_search_texts` holds each item's search text,
/// normalized the same way. Sorted by title; results with the same title
/// keep the order of their items.
pub fn remote_ui_command_palette_results(
    items: &Vec<RegisteredRemoteUiPaletteItem>,
    normalized_search_texts: &Vec<String>,
    query: &str,
) -> (r: Vec<CommandPaletteMatch>)
    requires
        normalized_search_texts@.len() == items@.len(),
        forall|i: int| 0 <= i < items@.len() ==> utf8_width(#[trigger] items@[i].title@) <= usize::MAX,
    ensures
        match_views_of(r@).to_multiset() == palette_match_views(items@, normalized_search_texts@, query@).to_multiset(),
        forall|i: int, j: int| 0 <= i < j < r@.len() ==> lex_le(r@[i].string@, r@[j].string@),
        forall|t: Seq<char>| #[trigger] match_views_of(r@).filter(titled(t)) == palette_match_views(
            items@,
            normalized_search_texts@,
            query@,
        ).filter(titled(t)),
{
    let mut out: Vec<CommandPaletteMatch> = Vec::new();
    for i in 0..items.len()
        invariant
            normalized_search_texts@.len() == items@.len(),
            forall|i: int| 0 <= i < items@.len() ==> utf8_width(#[trigger] items@[i].title@) <= usize::MAX,
            match_views_of(out@) == palette_match_views(items@.take(i as int), normalized_search_texts@, query@),
    {
        let item = &items[i];
        assert(items@.take(i + 1).drop_last() == items@.take(i as int));
        assert(items@.take(i + 1)[i as int] == items@[i as int]);
        let ghost before = out@;
        match palette_match_for(item, normalized_search_texts[i].as_str(), query) {
            Some(m) => {
                out.push(m);
                assert(match_views_of(out@) == match_views_of(before).push(match_view(m)));
            },
            None => {},
        }
    }
    assert(items@.take(items@.len() as int) == items@);
    let sorted = sort_by_key(out);
    proof {
        lemma_map_values_multiset(sorted@, out@, |m: CommandPaletteMatch| match_view(m));
        assert forall|i: int, j: int| 0 <= i < j < sorted@.len() implies lex_le(sorted@[i].string@, sorted@[j].string@) by {
            assert(sorted@[i].key_le(&sorted@[j]));
        }
        assert forall|t: Seq<char>| #[trigger] match_views_of(sorted@).filter(titled(t)) == match_views_of(out@).filter(
            titled(t),
        ) by {
            lemma_sorted_titles_keep_order(out@, sorted@, t);
        }
    }
    sorted
}

} // verus!
