//! The plugin store: per-plugin install and update settings, where a plugin
//! comes from, how the local and the registry lists merge, and which
//! plugins a sync installs.

use vstd::prelude::*;
use crate::order::{lemma_lex_total, lemma_lex_trans, lemma_lex_antisym, lex_le, sort_by_key, sorted_by_key, text_le, SortKey};
use crate::text::same_text;

verus! {

/// A per-plugin flag as the settings map holds it.
#[derive(Clone, Debug, PartialEq, Eq)]
pub struct PluginFlag {
    pub plugin_id: String,
    pub enabled: bool,
}

/// The value a settings map gives a plugin id, if it names it.
pub open spec fn flag_of(flags: Seq<PluginFlag>, id: Seq<char>) -> Option<bool> {
    if exists|i: int| 0 <= i < flags.len() && flags[i].plugin_id@ == id {
        Some(
            flags[choose|i: int|
                0 <= i < flags.len() && flags[i].plugin_id@ == id && forall|j: int|
                    0 <= j < i ==> flags[j].plugin_id@ != id].enabled,
        )
    } else {
        None
    }
}

fn lookup_flag(flags: &Vec<PluginFlag>, id: &str) -> (r: Option<bool>)
    ensures
        r == flag_of(flags@, id@),
{
    let mut i: usize = 0;
    while i < flags.len()
        invariant
            i <= flags@.len(),
            forall|j: int| 0 <= j < i ==> flags@[j].plugin_id@ != id@,
        decreases flags@.len() - i,
    {
        if same_text(flags[i].plugin_id.as_str(), id) {
            proof {
                let w = choose|w: int|
                    0 <= w < flags@.len() && flags@[w].plugin_id@ == id@ && forall|j: int|
                        0 <= j < w ==> flags@[j].plugin_id@ != id@;
                assert(w == i) by {
                    if w < i {
                    } else if w > i {
                        assert(flags@[i as int].plugin_id@ == id@);
                    }
                }
            }
            return Some(flags[i].enabled);
        }
        i = i + 1;
    }
    None
}

/// Which plugins install and update by themselves. Each map names a plugin
/// id at most once.
#[derive(Clone, Debug, PartialEq, Eq)]
pub struct PluginSettings {
    pub auto_install_plugins: Vec<PluginFlag>,
    pub auto_update_plugins: Vec<PluginFlag>,
}

impl PluginSettings {
    /// No plugin named in either map.
    pub fn empty() -> (r: Self)
        ensures
            r.auto_install_plugins@.len() == 0,
            r.auto_update_plugins@.len() == 0,
    {
        PluginSettings { auto_install_plugins: Vec::new(), auto_update_plugins: Vec::new() }
    }

    /// A plugin installs by itself only when the settings say so.
    pub fn should_auto_install(&self, plugin_id: &str) -> (r: bool)
        ensures
            r == (flag_of(self.auto_install_plugins@, plugin_id@) == Some(true)),
    {
        match lookup_flag(&self.auto_install_plugins, plugin_id) {
            Some(b) => b,
            None => false,
        }
    }

    /// A plugin updates by itself unless the settings say otherwise.
    pub fn should_auto_update(&self, plugin_id: &str) -> (r: bool)
        ensures
            r == (flag_of(self.auto_update_plugins@, plugin_id@) != Some(false)),
    {
        match lookup_flag(&self.auto_update_plugins, plugin_id) {
            Some(b) => b,
            None => true,
        }
    }
}

/// The state of an installed plugin.
#[derive(Clone, Copy, Debug, PartialEq, Eq, Structural)]
pub enum PluginState {
    Installed,
    Development,
    Error,
}

/// Where a plugin in the list comes from.
#[derive(Clone, Debug, PartialEq, Eq)]
pub enum PluginSource {
    Registry,
    Development { path: String },
}

/// What the list shows of a plugin's state.
#[derive(Clone, Debug, PartialEq, Eq)]
pub enum PluginStatus {
    NotInstalled,
    Installed,
    UpdateAvailable { installed_version: String, latest_version: String },
    Failed(String),
}

/// What the store knows of an installed plugin.
#[derive(Clone, Debug, PartialEq, Eq)]
pub struct InstalledPlugin {
    pub id: String,
    pub version: String,
    pub state: PluginState,
    /// The directory the plugin is installed in.
    pub root: String,
    /// Whether it was installed from the registry.
    pub from_registry: bool,
    pub error_message: Option<String>,
}

/// A plugin the registry offers.
#[derive(Clone, Debug, PartialEq, Eq)]
pub struct RemotePlugin {
    pub id: String,
    pub version: String,
}

/// Whether `path` lies under `base`, comparing whole components
/// (`std::path::Path::starts_with`). How a text splits into components is
/// that of the target the library is built for: Unix and Windows paths
/// split differently.
pub uninterp spec fn path_starts_with(path: Seq<char>, base: Seq<char>) -> bool;

/// std's `Path::starts_with` on two paths given as text.
#[verifier::external_body]
fn path_has_prefix(path: &str, base: &str) -> (r: bool)
    ensures
        r == path_starts_with(path@, base@),
{
    std::path::Path::new(path).starts_with(base)
}

/// Where a plugin comes from: a development plugin from its directory, an
/// installed one from the registry, a broken one from the registry when it
/// sits under the registry's install root.
pub fn infer_plugin_source(installed_root: &str, plugin: &InstalledPlugin) -> (r: PluginSource)
    ensures
        match plugin.state {
            PluginState::Development => r matches PluginSource::Development { path } && path@
                == plugin.root@,
            PluginState::Installed => r is Registry,
            PluginState::Error => if path_starts_with(plugin.root@, installed_root@) {
                r is Registry
            } else {
                r matches PluginSource::Development { path } && path@ == plugin.root@
            },
        },
{
    match plugin.state {
        PluginState::Development => PluginSource::Development { path: plugin.root.clone() },
        PluginState::Installed => PluginSource::Registry,
        PluginState::Error => if path_has_prefix(plugin.root.as_str(), installed_root) {
            PluginSource::Registry
        } else {
            PluginSource::Development { path: plugin.root.clone() }
        },
    }
}

/// The status of an installed plugin: its error message makes it failed;
/// a broken plugin without one failed with `Plugin error`.
pub fn installed_plugin_status(plugin: &InstalledPlugin) -> (r: PluginStatus)
    ensures
        match plugin.error_message {
            Some(m) => r matches PluginStatus::Failed(x) && x@ == m@,
            None => if plugin.state == PluginState::Error {
                r matches PluginStatus::Failed(x) && x@ == "Plugin error"@
            } else {
                r is Installed
            },
        },
{
    match &plugin.error_message {
        Some(m) => PluginStatus::Failed(m.clone()),
        None => match plugin.state {
            PluginState::Error => PluginStatus::Failed("Plugin error".to_owned()),
            _ => PluginStatus::Installed,
        },
    }
}

/// An entry of the merged plugin list.
#[derive(Clone, Debug, PartialEq, Eq)]
pub enum PluginListing {
    /// The installed plugin at this position, as installed.
    Local { local_index: usize },
    /// The installed plugin at this position, from the registry, with a
    /// newer version there.
    UpdateAvailable { local_index: usize, latest_version: String },
    /// The registry plugin at this position, installed or not.
    Remote { remote_index: usize, installed: bool },
}

/// Whether the installed plugin at `i` is the last one listed under its id.
pub open spec fn last_of_id(locals: Seq<InstalledPlugin>, i: int) -> bool {
    &&& 0 <= i < locals.len()
    &&& forall|j: int| i < j < locals.len() ==> locals[j].id@ != locals[i].id@
}

/// The position of the plugin the id map keeps for `id`: the last one
/// listed under it.
pub open spec fn kept_local(locals: Seq<InstalledPlugin>, id: Seq<char>) -> Option<int> {
    if exists|i: int| last_of_id(locals, i) && locals[i].id@ == id {
        Some(choose|i: int| last_of_id(locals, i) && locals[i].id@ == id)
    } else {
        None
    }
}

/// Whether a registry entry before position `k` has the same id.
pub open spec fn seen_before(remotes: Seq<RemotePlugin>, k: int) -> bool {
    exists|j: int| 0 <= j < k && remotes[j].id@ == remotes[k].id@
}

/// The entry for the registry plugin at `k`: a development or broken local
/// install is listed as itself; an installed registry plugin shows the
/// registry's entry, or an update when the versions differ; anything else is
/// not installed. A registry id listed twice matches the local plugin once.
pub open spec fn remote_listing(locals: Seq<InstalledPlugin>, remotes: Seq<RemotePlugin>, k: int) -> PluginListingView {
    if seen_before(remotes, k) {
        PluginListingView::Remote(k, false)
    } else {
        match kept_local(locals, remotes[k].id@) {
            Some(i) => match locals[i].state {
                PluginState::Installed => if locals[i].version@ != remotes[k].version@ {
                    PluginListingView::UpdateAvailable(i, remotes[k].version@)
                } else {
                    PluginListingView::Remote(k, true)
                },
                _ => PluginListingView::Local(i),
            },
            None => PluginListingView::Remote(k, false),
        }
    }
}

/// The registry's entry for a plugin installed locally, at the first
/// registry position of its id, follows the install that is kept for the id
/// (the last one listed): a development or broken install is listed as
/// itself, an installed registry plugin as the registry's installed entry,
/// or as an update to the registry's version when the versions differ.
pub proof fn lemma_listing_of_installed_id(
    locals: Seq<InstalledPlugin>,
    remotes: Seq<RemotePlugin>,
    k: int,
    i: int,
)
    requires
        0 <= k < remotes.len(),
        forall|j: int| 0 <= j < k ==> remotes[j].id@ != remotes[k].id@,
        0 <= i < locals.len(),
        locals[i].id@ == remotes[k].id@,
        forall|j: int| i < j < locals.len() ==> locals[j].id@ != locals[i].id@,
    ensures
        locals[i].state != PluginState::Installed ==> merged_listing(locals, remotes)[k]
            == PluginListingView::Local(i),
        locals[i].state == PluginState::Installed && locals[i].version@ == remotes[k].version@
            ==> merged_listing(locals, remotes)[k] == PluginListingView::Remote(k, true),
        locals[i].state == PluginState::Installed && locals[i].version@ != remotes[k].version@
            ==> merged_listing(locals, remotes)[k] == PluginListingView::UpdateAvailable(
            i,
            remotes[k].version@,
        ),
{
    assert(!seen_before(remotes, k));
    assert(last_of_id(locals, i));
    let c = choose|x: int| last_of_id(locals, x) && locals[x].id@ == remotes[k].id@;
    assert(c == i) by {
        if c < i {
            assert(locals[i].id@ != locals[c].id@);
        } else if c > i {
            assert(locals[c].id@ != locals[i].id@);
        }
    }
    assert(kept_local(locals, remotes[k].id@) == Some(i));
    assert(merged_listing(locals, remotes)[k] == remote_listing(locals, remotes, k));
}

/// A registry plugin that is not installed locally, or whose id the
/// registry already listed earlier, is listed as a registry entry that is
/// not installed.
pub proof fn lemma_listing_of_uninstalled_id(locals: Seq<InstalledPlugin>, remotes: Seq<RemotePlugin>, k: int)
    requires
        0 <= k < remotes.len(),
        (forall|i: int| 0 <= i < locals.len() ==> locals[i].id@ != remotes[k].id@) || exists|j: int|
            0 <= j < k && remotes[j].id@ == remotes[k].id@,
    ensures
        merged_listing(locals, remotes)[k] == PluginListingView::Remote(k, false),
{
    if !seen_before(remotes, k) {
        assert(kept_local(locals, remotes[k].id@) is None);
    }
    assert(merged_listing(locals, remotes)[k] == remote_listing(locals, remotes, k));
}

/// A listing as positions and texts.
pub enum PluginListingView {
    Local(int),
    UpdateAvailable(int, Seq<char>),
    Remote(int, bool),
}

pub open spec fn listing_view(l: PluginListing) -> PluginListingView {
    match l {
        PluginListing::Local { local_index } => PluginListingView::Local(local_index as int),
        PluginListing::UpdateAvailable { local_index, latest_version } => PluginListingView::UpdateAvailable(
            local_index as int,
            latest_version@,
        ),
        PluginListing::Remote { remote_index, installed } => PluginListingView::Remote(
            remote_index as int,
            installed,
        ),
    }
}

/// Whether the installed plugin at `i` is listed after the registry ones:
/// it is the one kept for its id, and the registry has no plugin of that id.
pub open spec fn listed_after(locals: Seq<InstalledPlugin>, remotes: Seq<RemotePlugin>, i: int) -> bool {
    &&& kept_local(locals, locals[i].id@) == Some(i)
    &&& forall|k: int| 0 <= k < remotes.len() ==> remotes[k].id@ != locals[i].id@
}

pub open spec fn remaining_locals(locals: Seq<InstalledPlugin>, remotes: Seq<RemotePlugin>, n: int) -> Seq<PluginListingView>
    decreases n,
{
    if n <= 0 {
        Seq::empty()
    } else {
        let rest = remaining_locals(locals, remotes, n - 1);
        if listed_after(locals, remotes, n - 1) {
            rest.push(PluginListingView::Local(n - 1))
        } else {
            rest
        }
    }
}

/// The merged list: one entry per registry plugin, in registry order, then
/// the installed plugins the registry does not know, in installed order.
pub open spec fn merged_listing(locals: Seq<InstalledPlugin>, remotes: Seq<RemotePlugin>) -> Seq<PluginListingView> {
    Seq::new(remotes.len(), |k: int| remote_listing(locals, remotes, k)) + remaining_locals(
        locals,
        remotes,
        locals.len() as int,
    )
}

fn find_kept_local(locals: &Vec<InstalledPlugin>, id: &str) -> (r: Option<usize>)
    ensures
        match r {
            Some(i) => i < locals@.len() && kept_local(locals@, id@) == Some(i as int),
            None => kept_local(locals@, id@) is None,
        },
{
    let mut i: usize = locals.len();
    while i > 0
        invariant
            i <= locals@.len(),
            forall|j: int| i <= j < locals@.len() ==> locals@[j].id@ != id@,
        decreases i,
    {
        if same_text(locals[i - 1].id.as_str(), id) {
            proof {
                let k = i - 1;
                assert(last_of_id(locals@, k as int));
                let w = choose|w: int| last_of_id(locals@, w) && locals@[w].id@ == id@;
                assert(w == k) by {
                    if w < k {
                        assert(locals@[k as int].id@ == id@);
                    }
                }
            }
            return Some(i - 1);
        }
        i = i - 1;
    }
    None
}

fn remote_seen_before(remotes: &Vec<RemotePlugin>, k: usize) -> (r: bool)
    requires
        k < remotes@.len(),
    ensures
        r == seen_before(remotes@, k as int),
{
    let mut j: usize = 0;
    while j < k
        invariant
            k < remotes@.len(),
            j <= k,
            forall|t: int| 0 <= t < j ==> remotes@[t].id@ != remotes@[k as int].id@,
        decreases k - j,
    {
        if same_text(remotes[j].id.as_str(), remotes[k].id.as_str()) {
            return true;
        }
        j = j + 1;
    }
    false
}

fn in_registry(remotes: &Vec<RemotePlugin>, id: &str) -> (r: bool)
    ensures
        r == exists|k: int| 0 <= k < remotes@.len() && remotes@[k].id@ == id@,
{
    let mut k: usize = 0;
    while k < remotes.len()
        invariant
            k <= remotes@.len(),
            forall|t: int| 0 <= t < k ==> remotes@[t].id@ != id@,
        decreases remotes@.len() - k,
    {
        if same_text(remotes[k].id.as_str(), id) {
            return true;
        }
        k = k + 1;
    }
    false
}

fn listing_for_remote(locals: &Vec<InstalledPlugin>, remotes: &Vec<RemotePlugin>, k: usize) -> (r: PluginListing)
    requires
        k < remotes@.len(),
    ensures
        listing_view(r) == remote_listing(locals@, remotes@, k as int),
{
    let found = find_kept_local(locals, remotes[k].id.as_str());
    let seen = remote_seen_before(remotes, k);
    match found {
        Some(i) => {
            if seen {
                return PluginListing::Remote { remote_index: k, installed: false };
            }
            match locals[i].state {
                PluginState::Installed => if !same_text(locals[i].version.as_str(), remotes[k].version.as_str()) {
                    PluginListing::UpdateAvailable { local_index: i, latest_version: remotes[k].version.clone() }
                } else {
                    PluginListing::Remote { remote_index: k, installed: true }
                },
                _ => PluginListing::Local { local_index: i },
            }
        },
        None => PluginListing::Remote { remote_index: k, installed: false },
    }
}

/// Merges the installed plugins with the registry's. When the registry
/// could not be read, its error stands if nothing is installed; otherwise
/// the installed plugins are listed alone.
fn registry_listings(locals: &Vec<InstalledPlugin>, remotes: &Vec<RemotePlugin>) -> (out: Vec<PluginListing>)
    ensures
        out@.map_values(|x: PluginListing| listing_view(x)) == Seq::new(
            remotes@.len(),
            |t: int| remote_listing(locals@, remotes@, t),
        ),
{
    let mut out: Vec<PluginListing> = Vec::new();
    for k in 0..remotes.len()
        invariant
            out@.map_values(|x: PluginListing| listing_view(x)) == Seq::new(
                k as nat,
                |t: int| remote_listing(locals@, remotes@, t),
            ),
    {
        let listing = listing_for_remote(locals, remotes, k);
        let ghost before = out@;
        out.push(listing);
        assert(out@.map_values(|x: PluginListing| listing_view(x)) =~= before.map_values(
            |x: PluginListing| listing_view(x),
        ).push(listing_view(listing)));
        assert(Seq::new((k + 1) as nat, |t: int| remote_listing(locals@, remotes@, t)) =~= Seq::new(
            k as nat,
            |t: int| remote_listing(locals@, remotes@, t),
        ).push(remote_listing(locals@, remotes@, k as int)));
    }
    out
}

#[verifier::rlimit(40)]
fn append_remaining_locals(out: &mut Vec<PluginListing>, locals: &Vec<InstalledPlugin>, remotes: &Vec<RemotePlugin>)
    ensures
        final(out)@.map_values(|x: PluginListing| listing_view(x)) == old(out)@.map_values(
            |x: PluginListing| listing_view(x),
        ) + remaining_locals(locals@, remotes@, locals@.len() as int),
{
    let ghost head = out@.map_values(|x: PluginListing| listing_view(x));
    for i in 0..locals.len()
        invariant
            out@.map_values(|x: PluginListing| listing_view(x)) == head + remaining_locals(
                locals@,
                remotes@,
                i as int,
            ),
    {
        let kept = match find_kept_local(locals, locals[i].id.as_str()) {
            Some(j) => j == i,
            None => false,
        };
        let fresh = !in_registry(remotes, locals[i].id.as_str());
        assert((kept && fresh) == listed_after(locals@, remotes@, i as int));
        assert(remaining_locals(locals@, remotes@, i + 1) == if listed_after(locals@, remotes@, i as int) {
            remaining_locals(locals@, remotes@, i as int).push(PluginListingView::Local(i as int))
        } else {
            remaining_locals(locals@, remotes@, i as int)
        });
        if kept && fresh {
            let ghost before = out@;
            out.push(PluginListing::Local { local_index: i });
            assert(out@.map_values(|x: PluginListing| listing_view(x)) =~= before.map_values(
                |x: PluginListing| listing_view(x),
            ).push(PluginListingView::Local(i as int)));
        }
    }
}

/// The plugin listing: the registry's plugins, each as the local install shows
/// it where there is one, then the local plugins the registry lacks. A failed
/// registry fetch fails the listing only when nothing is installed locally.
#[verifier::rlimit(40)]
pub fn merge_plugin_records(
    locals: &Vec<InstalledPlugin>,
    remotes: Result<Vec<RemotePlugin>, String>,
) -> (r: Result<Vec<PluginListing>, String>)
    ensures
        match remotes {
            Err(e) => if locals@.len() == 0 {
                r matches Err(x) && x@ == e@
            } else {
                r matches Ok(l) && l@.map_values(|x: PluginListing| listing_view(x)) == merged_listing(
                    locals@,
                    Seq::empty(),
                )
            },
            Ok(rs) => r matches Ok(l) && l@.map_values(|x: PluginListing| listing_view(x))
                == merged_listing(locals@, rs@),
        },
{
    let remotes = match remotes {
        Ok(rs) => rs,
        Err(e) => {
            if locals.len() == 0 {
                return Err(e);
            }
            Vec::new()
        },
    };
    let mut out = registry_listings(locals, &remotes);
    append_remaining_locals(&mut out, locals, &remotes);
    Ok(out)
}

/// A plugin id, ordered as `String` orders (code-point order).
#[derive(Debug)]
pub struct PluginId {
    pub id: String,
}

impl SortKey for PluginId {
    open spec fn key_le(&self, other: &Self) -> bool {
        lex_le(self.id@, other.id@)
    }

    proof fn lemma_key_total(a: &Self, b: &Self) {
        lemma_lex_total(a.id@, b.id@);
    }

    proof fn lemma_key_trans(a: &Self, b: &Self, c: &Self) {
        lemma_lex_trans(a.id@, b.id@, c.id@);
    }

    fn key_le_exec(&self, other: &Self) -> (r: bool) {
        text_le(self.id.as_str(), other.id.as_str())
    }
}

/// Whether `id` names a development plugin.
pub open spec fn is_dev_id(locals: Seq<InstalledPlugin>, id: Seq<char>) -> bool {
    exists|i: int| 0 <= i < locals.len() && locals[i].id@ == id && locals[i].state == PluginState::Development
}

/// An installed plugin that came from the registry.
pub open spec fn is_registry_install(p: InstalledPlugin) -> bool {
    p.state == PluginState::Installed && p.from_registry
}

/// Whether the plugin at `i` is the last registry install of its id.
pub open spec fn last_registry_install(locals: Seq<InstalledPlugin>, i: int) -> bool {
    &&& 0 <= i < locals.len()
    &&& is_registry_install(locals[i])
    &&& forall|j: int| i < j < locals.len() ==> !(locals[j].id@ == locals[i].id@ && is_registry_install(locals[j]))
}

/// The version of the last registry install listed under `id`, if any.
#[verifier::opaque]
pub open spec fn registry_version(locals: Seq<InstalledPlugin>, id: Seq<char>) -> Option<Seq<char>> {
    if exists|i: int| last_registry_install(locals, i) && locals[i].id@ == id {
        Some(locals[choose|i: int| last_registry_install(locals, i) && locals[i].id@ == id].version@)
    } else {
        None
    }
}

/// Whether the remote at `k` is the last one listed under its id.
pub open spec fn last_remote(remotes: Seq<RemotePlugin>, k: int) -> bool {
    &&& 0 <= k < remotes.len()
    &&& forall|j: int| k < j < remotes.len() ==> remotes[j].id@ != remotes[k].id@
}

/// The version of the registry plugin the id map keeps for `id` (the last
/// one listed under it).
#[verifier::opaque]
pub open spec fn latest_version(remotes: Seq<RemotePlugin>, id: Seq<char>) -> Option<Seq<char>> {
    if exists|k: int| last_remote(remotes, k) && remotes[k].id@ == id {
        Some(remotes[choose|k: int| last_remote(remotes, k) && remotes[k].id@ == id].version@)
    } else {
        None
    }
}

/// The last registry plugin listed under an id gives its latest version.
pub proof fn lemma_latest_version_at(remotes: Seq<RemotePlugin>, k: int)
    requires
        last_remote(remotes, k),
    ensures
        latest_version(remotes, remotes[k].id@) == Some(remotes[k].version@),
{
    reveal(latest_version);
    let id = remotes[k].id@;
    let w = choose|w: int| last_remote(remotes, w) && remotes[w].id@ == id;
    assert(w == k) by {
        if w < k {
            assert(remotes[k].id@ == remotes[w].id@);
        } else if w > k {
            assert(remotes[w].id@ == remotes[k].id@);
        }
    }
}

/// Whether an id has a latest version: exactly when some registry plugin is
/// the last one listed under it.
pub proof fn lemma_latest_version_some(remotes: Seq<RemotePlugin>, id: Seq<char>)
    ensures
        latest_version(remotes, id) is Some <==> exists|k: int| last_remote(remotes, k) && remotes[k].id@ == id,
{
    reveal(latest_version);
}

proof fn lemma_last_registry_unique(locals: Seq<InstalledPlugin>, a: int, b: int)
    requires
        last_registry_install(locals, a),
        last_registry_install(locals, b),
        locals[a].id@ == locals[b].id@,
    ensures
        a == b,
{
}

/// The last registry install of an id gives its registry version.
pub proof fn lemma_registry_version_at(locals: Seq<InstalledPlugin>, c: int)
    requires
        last_registry_install(locals, c),
    ensures
        registry_version(locals, locals[c].id@) == Some(locals[c].version@),
{
    reveal(registry_version);
    let id = locals[c].id@;
    let w = choose|i: int| last_registry_install(locals, i) && locals[i].id@ == id;
    lemma_last_registry_unique(locals, w, c);
}

/// Whether an id has a registry version: exactly when some plugin is the
/// last registry install of that id.
pub proof fn lemma_registry_version_some(locals: Seq<InstalledPlugin>, id: Seq<char>)
    ensures
        registry_version(locals, id) is Some <==> exists|c: int| last_registry_install(locals, c) && locals[c].id@ == id,
{
    reveal(registry_version);
}

/// A registry install always has a last registry install under its id.
proof fn lemma_registry_install_has_last(locals: Seq<InstalledPlugin>, i: int)
    requires
        0 <= i < locals.len(),
        is_registry_install(locals[i]),
    ensures
        exists|c: int| last_registry_install(locals, c) && locals[c].id@ == locals[i].id@,
    decreases locals.len() - i,
{
    if !last_registry_install(locals, i) {
        let j = choose|j: int| i < j < locals.len() && locals[j].id@ == locals[i].id@ && is_registry_install(locals[j]);
        lemma_registry_install_has_last(locals, j);
    }
}

/// Whether a sync installs `id` because it is set to install by itself: it
/// is neither a development plugin nor a registry install, and the registry
/// has it.
#[verifier::opaque]
pub open spec fn auto_install_case(
    locals: Seq<InstalledPlugin>,
    settings: PluginSettings,
    remotes: Seq<RemotePlugin>,
    id: Seq<char>,
) -> bool {
    &&& flag_of(settings.auto_install_plugins@, id) == Some(true)
    &&& !is_dev_id(locals, id)
    &&& registry_version(locals, id) is None
    &&& latest_version(remotes, id) is Some
}

/// Whether a sync installs `id` as an update: it is a registry install, not
/// a development plugin, may update by itself, and the registry's version
/// differs from the installed one.
#[verifier::opaque]
pub open spec fn update_case(
    locals: Seq<InstalledPlugin>,
    settings: PluginSettings,
    remotes: Seq<RemotePlugin>,
    id: Seq<char>,
) -> bool {
    &&& registry_version(locals, id) is Some
    &&& !is_dev_id(locals, id)
    &&& flag_of(settings.auto_update_plugins@, id) != Some(false)
    &&& latest_version(remotes, id) is Some
    &&& latest_version(remotes, id)->0 != registry_version(locals, id)->0
}

/// Whether a sync installs the plugin `id`.
pub open spec fn sync_installs(
    locals: Seq<InstalledPlugin>,
    settings: PluginSettings,
    remotes: Seq<RemotePlugin>,
    id: Seq<char>,
) -> bool {
    auto_install_case(locals, settings, remotes, id) || update_case(locals, settings, remotes, id)
}

/// Whether a sync needs the registry at all: something is set to install by
/// itself and is not there yet, or some registry install exists.
pub open spec fn sync_needs_registry(locals: Seq<InstalledPlugin>, settings: PluginSettings) -> bool {
    (exists|i: int|
        0 <= i < settings.auto_install_plugins@.len() && #[trigger] flag_of(
            settings.auto_install_plugins@,
            settings.auto_install_plugins@[i].plugin_id@,
        ) == Some(true) && !is_dev_id(locals, settings.auto_install_plugins@[i].plugin_id@)
            && registry_version(locals, settings.auto_install_plugins@[i].plugin_id@) is None)
        || (exists|i: int| 0 <= i < locals.len() && is_registry_install(locals[i]))
}

fn is_development_id(locals: &Vec<InstalledPlugin>, id: &str) -> (r: bool)
    ensures
        r == is_dev_id(locals@, id@),
{
    let mut i: usize = 0;
    while i < locals.len()
        invariant
            i <= locals@.len(),
            forall|j: int| 0 <= j < i ==> !(locals@[j].id@ == id@ && locals@[j].state == PluginState::Development),
        decreases locals@.len() - i,
    {
        let dev = match locals[i].state {
            PluginState::Development => true,
            _ => false,
        };
        if dev && same_text(locals[i].id.as_str(), id) {
            return true;
        }
        i = i + 1;
    }
    false
}

fn registry_version_of(locals: &Vec<InstalledPlugin>, id: &str) -> (r: Option<usize>)
    ensures
        match r {
            Some(i) => locals@[i as int].id@ == id@ && last_registry_install(locals@, i as int)
                && registry_version(locals@, id@) == Some(locals@[i as int].version@),
            None => registry_version(locals@, id@) is None,
        },
{
    let mut i: usize = locals.len();
    while i > 0
        invariant
            i <= locals@.len(),
            forall|j: int| i <= j < locals@.len() ==> !(locals@[j].id@ == id@ && is_registry_install(locals@[j])),
        decreases i,
    {
        let k = i - 1;
        let registry = match locals[k].state {
            PluginState::Installed => locals[k].from_registry,
            _ => false,
        };
        if registry && same_text(locals[k].id.as_str(), id) {
            proof {
                lemma_registry_version_at(locals@, k as int);
            }
            return Some(k);
        }
        i = k;
    }
    proof {
        lemma_registry_version_some(locals@, id@);
    }
    None
}

fn latest_version_of(remotes: &Vec<RemotePlugin>, id: &str) -> (r: Option<usize>)
    ensures
        match r {
            Some(k) => k < remotes@.len() && remotes@[k as int].id@ == id@ && latest_version(remotes@, id@)
                == Some(remotes@[k as int].version@),
            None => latest_version(remotes@, id@) is None,
        },
{
    let mut i: usize = remotes.len();
    while i > 0
        invariant
            i <= remotes@.len(),
            forall|j: int| i <= j < remotes@.len() ==> remotes@[j].id@ != id@,
        decreases i,
    {
        let k = i - 1;
        if same_text(remotes[k].id.as_str(), id) {
            proof {
                lemma_latest_version_at(remotes@, k as int);
            }
            return Some(k);
        }
        i = k;
    }
    proof {
        lemma_latest_version_some(remotes@, id@);
    }
    None
}

/// Whether a sync reads the registry: some plugin is set to install by
/// itself and is neither a development plugin nor a registry install yet, or
/// some registry install exists.
pub fn sync_needs_remote(locals: &Vec<InstalledPlugin>, settings: &PluginSettings) -> (r: bool)
    ensures
        r == sync_needs_registry(locals@, *settings),
{
    let mut i: usize = 0;
    while i < settings.auto_install_plugins.len()
        invariant
            i <= settings.auto_install_plugins@.len(),
            forall|j: int|
                0 <= j < i ==> !(#[trigger] flag_of(
                    settings.auto_install_plugins@,
                    settings.auto_install_plugins@[j].plugin_id@,
                ) == Some(true) && !is_dev_id(locals@, settings.auto_install_plugins@[j].plugin_id@)
                    && registry_version(locals@, settings.auto_install_plugins@[j].plugin_id@) is None),
        decreases settings.auto_install_plugins@.len() - i,
    {
        let id = settings.auto_install_plugins[i].plugin_id.as_str();
        if settings.should_auto_install(id) && !is_development_id(locals, id) && registry_version_of(
            locals,
            id,
        ).is_none() {
            return true;
        }
        i = i + 1;
    }
    let mut k: usize = 0;
    while k < locals.len()
        invariant
            k <= locals@.len(),
            forall|j: int| 0 <= j < k ==> !is_registry_install(locals@[j]),
            forall|j: int|
                0 <= j < settings.auto_install_plugins@.len() ==> !(#[trigger] flag_of(
                    settings.auto_install_plugins@,
                    settings.auto_install_plugins@[j].plugin_id@,
                ) == Some(true) && !is_dev_id(locals@, settings.auto_install_plugins@[j].plugin_id@)
                    && registry_version(locals@, settings.auto_install_plugins@[j].plugin_id@) is None),
        decreases locals@.len() - k,
    {
        let registry = match locals[k].state {
            PluginState::Installed => locals[k].from_registry,
            _ => false,
        };
        if registry {
            return true;
        }
        k = k + 1;
    }
    false
}

/// Whether `id` is among the ids of `ids`.
pub open spec fn has_id(ids: Seq<PluginId>, id: Seq<char>) -> bool {
    exists|k: int| 0 <= k < ids.len() && ids[k].id@ == id
}

proof fn lemma_has_id_push(ids: Seq<PluginId>, x: PluginId)
    ensures
        forall|id: Seq<char>| has_id(ids, id) ==> has_id(ids.push(x), id),
        has_id(ids.push(x), x.id@),
{
    assert forall|id: Seq<char>| has_id(ids, id) implies has_id(ids.push(x), id) by {
        let k = choose|k: int| 0 <= k < ids.len() && ids[k].id@ == id;
        assert(ids.push(x)[k] == ids[k]);
    }
    assert(ids.push(x)[ids.len() as int] == x);
}

proof fn lemma_has_id_permutation(a: Seq<PluginId>, b: Seq<PluginId>)
    requires
        a.to_multiset() == b.to_multiset(),
    ensures
        forall|id: Seq<char>| has_id(a, id) <==> has_id(b, id),
{
    broadcast use vstd::seq_lib::group_to_multiset_ensures;

    assert forall|id: Seq<char>| has_id(a, id) implies has_id(b, id) by {
        let k = choose|k: int| 0 <= k < a.len() && a[k].id@ == id;
        assert(a.contains(a[k]));
        assert(b.to_multiset().count(a[k]) > 0);
        assert(b.contains(a[k]));
    }
    assert forall|id: Seq<char>| has_id(b, id) implies has_id(a, id) by {
        let k = choose|k: int| 0 <= k < b.len() && b[k].id@ == id;
        assert(b.contains(b[k]));
        assert(a.to_multiset().count(b[k]) > 0);
        assert(a.contains(b[k]));
    }
}

/// Whether a sync installs `id` because it is set to install by itself.
fn auto_installs(
    locals: &Vec<InstalledPlugin>,
    settings: &PluginSettings,
    remotes: &Vec<RemotePlugin>,
    id: &str,
) -> (r: bool)
    ensures
        r == auto_install_case(locals@, *settings, remotes@, id@),
{
    reveal(auto_install_case);
    settings.should_auto_install(id) && !is_development_id(locals, id) && registry_version_of(locals, id).is_none()
        && latest_version_of(remotes, id).is_some()
}

/// Whether the installed plugin at `i` is the last registry install of its
/// id and a sync installs that id as an update.
fn updates_at(
    locals: &Vec<InstalledPlugin>,
    settings: &PluginSettings,
    remotes: &Vec<RemotePlugin>,
    i: usize,
) -> (r: bool)
    requires
        i < locals@.len(),
    ensures
        r == (last_registry_install(locals@, i as int) && update_case(locals@, *settings, remotes@, locals@[i as int].id@)),
{
    reveal(update_case);
    let id = locals[i].id.as_str();
    let registry = match locals[i].state {
        PluginState::Installed => locals[i].from_registry,
        _ => false,
    };
    if !registry {
        return false;
    }
    let last = match registry_version_of(locals, id) {
        Some(last) => last,
        None => {
            proof {
                lemma_registry_install_has_last(locals@, i as int);
                lemma_registry_version_some(locals@, id@);
            }
            return false;
        },
    };
    if last != i {
        proof {
            if last_registry_install(locals@, i as int) {
                lemma_last_registry_unique(locals@, last as int, i as int);
            }
        }
        return false;
    }
    if is_development_id(locals, id) || !settings.should_auto_update(id) {
        return false;
    }
    match latest_version_of(remotes, id) {
        Some(k) => !same_text(remotes[k].version.as_str(), locals[i].version.as_str()),
        None => false,
    }
}

proof fn lemma_auto_install_named(
    locals: Seq<InstalledPlugin>,
    settings: PluginSettings,
    remotes: Seq<RemotePlugin>,
    id: Seq<char>,
)
    requires
        auto_install_case(locals, settings, remotes, id),
    ensures
        exists|i: int| 0 <= i < settings.auto_install_plugins@.len() && settings.auto_install_plugins@[i].plugin_id@ == id,
{
    reveal(auto_install_case);
}

/// The ids a sync installs because they are set to install by themselves.
fn auto_install_ids(
    locals: &Vec<InstalledPlugin>,
    settings: &PluginSettings,
    remotes: &Vec<RemotePlugin>,
) -> (c: Vec<PluginId>)
    ensures
        forall|k: int| 0 <= k < c@.len() ==> auto_install_case(locals@, *settings, remotes@, #[trigger] c@[k].id@),
        forall|id: Seq<char>| auto_install_case(locals@, *settings, remotes@, id) ==> has_id(c@, id),
{
    let ghost flags = settings.auto_install_plugins@;
    let mut c: Vec<PluginId> = Vec::new();
    for i in 0..settings.auto_install_plugins.len()
        invariant
            flags == settings.auto_install_plugins@,
            forall|k: int| 0 <= k < c@.len() ==> auto_install_case(locals@, *settings, remotes@, #[trigger] c@[k].id@),
            forall|j: int|
                0 <= j < i && auto_install_case(locals@, *settings, remotes@, #[trigger] flags[j].plugin_id@)
                    ==> has_id(c@, flags[j].plugin_id@),
    {
        let id = settings.auto_install_plugins[i].plugin_id.as_str();
        if auto_installs(locals, settings, remotes, id) {
            let x = PluginId { id: id.to_owned() };
            proof {
                lemma_has_id_push(c@, x);
            }
            c.push(x);
        }
    }
    proof {
        assert forall|id: Seq<char>| auto_install_case(locals@, *settings, remotes@, id) implies has_id(c@, id) by {
            lemma_auto_install_named(locals@, *settings, remotes@, id);
            let w = choose|w: int| 0 <= w < flags.len() && flags[w].plugin_id@ == id;
            assert(auto_install_case(locals@, *settings, remotes@, flags[w].plugin_id@));
        }
    }
    c
}

/// Adds the ids a sync installs as updates.
fn push_update_ids(
    cands: &mut Vec<PluginId>,
    locals: &Vec<InstalledPlugin>,
    settings: &PluginSettings,
    remotes: &Vec<RemotePlugin>,
)
    ensures
        forall|k: int| 0 <= k < final(cands)@.len() ==> has_id(old(cands)@, #[trigger] final(cands)@[k].id@)
            || update_case(locals@, *settings, remotes@, final(cands)@[k].id@),
        forall|id: Seq<char>| has_id(old(cands)@, id) ==> has_id(final(cands)@, id),
        forall|id: Seq<char>| update_case(locals@, *settings, remotes@, id) ==> has_id(final(cands)@, id),
{
    let ghost start = cands@;
    for i in 0..locals.len()
        invariant
            forall|k: int| 0 <= k < cands@.len() ==> has_id(start, #[trigger] cands@[k].id@)
                || update_case(locals@, *settings, remotes@, cands@[k].id@),
            forall|id: Seq<char>| has_id(start, id) ==> has_id(cands@, id),
            forall|j: int|
                0 <= j < i && last_registry_install(locals@, j) && update_case(locals@, *settings, remotes@, #[trigger] locals@[j].id@)
                    ==> has_id(cands@, locals@[j].id@),
    {
        if updates_at(locals, settings, remotes, i) {
            let x = PluginId { id: locals[i].id.clone() };
            let ghost before = cands@;
            proof {
                lemma_has_id_push(cands@, x);
            }
            cands.push(x);
            proof {
                assert forall|k: int| 0 <= k < cands@.len() implies has_id(start, #[trigger] cands@[k].id@)
                    || update_case(locals@, *settings, remotes@, cands@[k].id@) by {
                    if k < before.len() {
                        assert(cands@[k] == before[k]);
                    }
                }
            }
        }
    }
    proof {
        assert forall|id: Seq<char>| update_case(locals@, *settings, remotes@, id) implies has_id(cands@, id) by {
            reveal(update_case);
            lemma_registry_version_some(locals@, id);
            let c = choose|c: int| last_registry_install(locals@, c) && locals@[c].id@ == id;
            assert(update_case(locals@, *settings, remotes@, locals@[c].id@));
        }
    }
}

/// The distinct ids of a list sorted by id, in order.
fn distinct_sorted_ids(sorted: &Vec<PluginId>) -> (out: Vec<String>)
    requires
        sorted_by_key(sorted@),
    ensures
        forall|id: Seq<char>| (exists|k: int| 0 <= k < out@.len() && out@[k]@ == id) <==> has_id(sorted@, id),
        forall|i: int, j: int| 0 <= i < j < out@.len() ==> lex_le(out@[i]@, out@[j]@) && out@[i]@ != out@[j]@,
{
    let mut out: Vec<String> = Vec::new();
    let n = sorted.len();
    for i in 0..n
        invariant
            n == sorted@.len(),
            sorted_by_key(sorted@),
            forall|k: int| 0 <= k < out@.len() ==> has_id(sorted@, #[trigger] out@[k]@),
            forall|k: int| 0 <= k < i ==> exists|t: int| 0 <= t < out@.len() && out@[t]@ == #[trigger] sorted@[k].id@,
            forall|a: int, b: int| 0 <= a < b < out@.len() ==> lex_le(out@[a]@, out@[b]@) && out@[a]@ != out@[b]@,
            out@.len() > 0 ==> exists|k: int| 0 <= k < i && out@.last()@ == sorted@[k].id@,
            out@.len() > 0 ==> forall|k: int| 0 <= k < i ==> lex_le(sorted@[k].id@, out@.last()@),
            out@.len() == 0 ==> i == 0,
    {
        let id = &sorted[i].id;
        let dup = out.len() > 0 && same_text(out[out.len() - 1].as_str(), id.as_str());
        if !dup {
            let ghost before = out@;
            proof {
                if before.len() > 0 {
                    let k = choose|k: int| 0 <= k < i && before.last()@ == sorted@[k].id@;
                    assert(sorted@[k].key_le(&sorted@[i as int]));
                    assert forall|a: int| 0 <= a < before.len() implies lex_le(before[a]@, id@) && before[a]@ != id@ by {
                        if a < before.len() - 1 {
                            assert(lex_le(before[a]@, before.last()@));
                            lemma_lex_trans(before[a]@, before.last()@, id@);
                            if before[a]@ == id@ {
                                lemma_lex_antisym(before.last()@, id@);
                            }
                        }
                    }
                }
            }
            out.push(id.clone());
            proof {
                assert(out@[out@.len() - 1]@ == sorted@[i as int].id@);
                assert forall|k: int| 0 <= k < i + 1 implies lex_le(sorted@[k].id@, out@.last()@) by {
                    if k < i {
                        assert(sorted@[k].key_le(&sorted@[i as int]));
                    } else {
                        crate::order::lemma_lex_refl(id@);
                    }
                }
                assert forall|k: int| 0 <= k < i + 1 implies exists|t: int| 0 <= t < out@.len() && out@[t]@ == #[trigger] sorted@[k].id@ by {
                    if k < i {
                        let t = choose|t: int| 0 <= t < before.len() && before[t]@ == sorted@[k].id@;
                        assert(out@[t] == before[t]);
                    }
                }
                assert forall|k: int| 0 <= k < out@.len() implies has_id(sorted@, #[trigger] out@[k]@) by {
                    if k < before.len() {
                        assert(out@[k] == before[k]);
                    }
                }
            }
        } else {
            proof {
                assert forall|k: int| 0 <= k < i + 1 implies lex_le(sorted@[k].id@, out@.last()@) by {
                    if k == i {
                        crate::order::lemma_lex_refl(id@);
                    }
                }
                assert forall|k: int| 0 <= k < i + 1 implies exists|t: int| 0 <= t < out@.len() && out@[t]@ == #[trigger] sorted@[k].id@ by {
                    if k == i {
                        assert(out@[out@.len() - 1]@ == sorted@[k].id@);
                    }
                }
            }
        }
    }
    assert(forall|a: int, b: int| 0 <= a < b < out@.len() ==> lex_le(out@[a]@, out@[b]@) && out@[a]@ != out@[b]@);
    proof {
        assert forall|id: Seq<char>| has_id(sorted@, id) implies (exists|k: int| 0 <= k < out@.len() && out@[k]@ == id) by {
            let k = choose|k: int| 0 <= k < sorted@.len() && sorted@[k].id@ == id;
            let t = choose|t: int| 0 <= t < out@.len() && out@[t]@ == sorted@[k].id@;
            assert(out@[t]@ == id);
        }
    }
    out
}

/// The plugins a sync installs, in `String` order, each once.
pub fn plugins_to_install(
    locals: &Vec<InstalledPlugin>,
    settings: &PluginSettings,
    remotes: &Vec<RemotePlugin>,
) -> (r: Vec<String>)
    ensures
        forall|id: Seq<char>| (exists|k: int| 0 <= k < r@.len() && r@[k]@ == id) <==> sync_installs(
            locals@,
            *settings,
            remotes@,
            id,
        ),
        forall|i: int, j: int| 0 <= i < j < r@.len() ==> lex_le(r@[i]@, r@[j]@) && r@[i]@ != r@[j]@,
{
    let mut cands = auto_install_ids(locals, settings, remotes);
    let ghost first = cands@;
    push_update_ids(&mut cands, locals, settings, remotes);
    let sorted = sort_by_key(cands);
    proof {
        lemma_has_id_permutation(cands@, sorted@);
        assert forall|id: Seq<char>| has_id(sorted@, id) <==> sync_installs(locals@, *settings, remotes@, id) by {
            if has_id(sorted@, id) {
                let k = choose|k: int| 0 <= k < cands@.len() && cands@[k].id@ == id;
                if has_id(first, cands@[k].id@) {
                    let t = choose|t: int| 0 <= t < first.len() && first[t].id@ == id;
                    assert(auto_install_case(locals@, *settings, remotes@, first[t].id@));
                }
            }
            if auto_install_case(locals@, *settings, remotes@, id) {
                assert(has_id(first, id));
            }
        }
    }
    let out = distinct_sorted_ids(&sorted);
    proof {
        assert forall|id: Seq<char>| (exists|k: int| 0 <= k < out@.len() && out@[k]@ == id) <==> sync_installs(
            locals@,
            *settings,
            remotes@,
            id,
        ) by {
            assert((exists|k: int| 0 <= k < out@.len() && out@[k]@ == id) <==> has_id(sorted@, id));
            assert(has_id(sorted@, id) <==> sync_installs(locals@, *settings, remotes@, id));
        }
    }
    out
}

} // verus!

verus! {

/// Whether the merged list shows the installed plugin at `i`: as itself, as
/// an update, or as the installed entry of a registry plugin of its id.
pub open spec fn shows_local(
    list: Seq<PluginListingView>,
    locals: Seq<InstalledPlugin>,
    remotes: Seq<RemotePlugin>,
    i: int,
) -> bool {
    exists|t: int|
        0 <= t < list.len() && match #[trigger] list[t] {
            PluginListingView::Local(j) => j == i,
            PluginListingView::UpdateAvailable(j, _) => j == i,
            PluginListingView::Remote(k, installed) => installed && 0 <= k < remotes.len() && remotes[k].id@
                == locals[i].id@,
        }
}

proof fn lemma_remaining_has(locals: Seq<InstalledPlugin>, remotes: Seq<RemotePlugin>, n: int, i: int)
    requires
        0 <= i < n,
        listed_after(locals, remotes, i),
    ensures
        remaining_locals(locals, remotes, n).contains(PluginListingView::Local(i)),
    decreases n,
{
    let rest = remaining_locals(locals, remotes, n - 1);
    if i == n - 1 {
        assert(remaining_locals(locals, remotes, n) == rest.push(PluginListingView::Local(i)));
        assert(remaining_locals(locals, remotes, n)[rest.len() as int] == PluginListingView::Local(i));
    } else {
        lemma_remaining_has(locals, remotes, n - 1, i);
        let t = choose|t: int| 0 <= t < rest.len() && rest[t] == PluginListingView::Local(i);
        if listed_after(locals, remotes, n - 1) {
            assert(remaining_locals(locals, remotes, n)[t] == rest.push(PluginListingView::Local(n - 1))[t]);
        }
    }
}

proof fn lemma_first_remote_of(remotes: Seq<RemotePlugin>, id: Seq<char>, k: int)
    requires
        0 <= k < remotes.len(),
        remotes[k].id@ == id,
    ensures
        exists|f: int| 0 <= f < remotes.len() && remotes[f].id@ == id && !seen_before(remotes, f),
    decreases k,
{
    if seen_before(remotes, k) {
        let j = choose|j: int| 0 <= j < k && remotes[j].id@ == remotes[k].id@;
        lemma_first_remote_of(remotes, id, j);
    }
}

/// No installed plugin drops out of the merged list: the one kept for each
/// id shows, as itself, as an update, or as the installed entry of the
/// registry plugin of its id.
pub proof fn lemma_merged_listing_shows_every_local(locals: Seq<InstalledPlugin>, remotes: Seq<RemotePlugin>, i: int)
    requires
        0 <= i < locals.len(),
        kept_local(locals, locals[i].id@) == Some(i),
    ensures
        shows_local(merged_listing(locals, remotes), locals, remotes, i),
{
    let list = merged_listing(locals, remotes);
    let head = Seq::new(remotes.len(), |k: int| remote_listing(locals, remotes, k));
    let tail = remaining_locals(locals, remotes, locals.len() as int);
    assert(list == head + tail);
    if exists|k: int| 0 <= k < remotes.len() && remotes[k].id@ == locals[i].id@ {
        let k0 = choose|k: int| 0 <= k < remotes.len() && remotes[k].id@ == locals[i].id@;
        lemma_first_remote_of(remotes, locals[i].id@, k0);
        let f = choose|f: int| 0 <= f < remotes.len() && remotes[f].id@ == locals[i].id@ && !seen_before(remotes, f);
        assert(list[f] == remote_listing(locals, remotes, f));
        assert(kept_local(locals, remotes[f].id@) == Some(i));
    } else {
        assert(listed_after(locals, remotes, i));
        lemma_remaining_has(locals, remotes, locals.len() as int, i);
        let t = choose|t: int| 0 <= t < tail.len() && tail[t] == PluginListingView::Local(i);
        assert(list[head.len() + t] == tail[t]);
    }
}

} // verus!
