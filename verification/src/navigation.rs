//! Where a key press goes: the focused area, the log overlay, the confirmation
//! popup, the provider-conflict chooser, the global shortcuts and the content
//! area's shortcuts. Each function decides the next state and the action the
//! caller carries out.

use vstd::prelude::*;
use crate::discovery::{ContentMode, spec_toggle};
use crate::keys::{KeyCode, KeyEvent};
use crate::list::search_query_after;
use crate::model::{ContentKind, ProviderProject};
use crate::search::SearchState;
use crate::tabs::{ContentTab, spec_cycle_tab, spec_visible_tabs};

verus! {

/// The area of the screen that receives keys.
#[derive(Clone, Copy, Debug, PartialEq, Eq, Structural)]
pub enum FocusedArea {
    Instances,
    Content,
    Account,
    Settings,
    Overview,
    OverviewExpanded,
    Popup,
    ImportPopup,
    ErrorPopup,
    ConfirmDelete,
    InstanceSettings,
    GlobalSettings,
}

impl FocusedArea {
    /// The area that has the focus at start.
    pub fn initial() -> (r: FocusedArea)
        ensures
            r == FocusedArea::Instances,
    {
        FocusedArea::Instances
    }
}

/// The navigation state of the launcher screen.
pub struct NavState {
    pub exit: bool,
    pub focused: FocusedArea,
    /// Where the focus returns when an overlay closes.
    pub pre_overlay_focused: FocusedArea,
    pub content_tab: ContentTab,
    pub content_mode: ContentMode,
    pub log_overlay_scroll: usize,
    pub log_overlay_max_scroll: usize,
    pub log_overlay_search: SearchState,
    /// Whether a world's datapacks are shown in the worlds tab.
    pub world_datapacks_open: bool,
}

/// What a global shortcut asks of the caller.
#[derive(Clone, Copy, Debug, PartialEq, Eq, Structural)]
pub enum NavAction {
    Nothing,
    /// Open the settings of the selected instance, returning to this area afterwards.
    OpenInstanceSettings(FocusedArea),
    /// The global settings overlay opened; build its state.
    OpenGlobalSettings,
    /// The content tab or mode changed; load the discovery results if needed.
    EnsureDiscoveryLoaded,
    /// Ask to confirm deleting the selected instance.
    RequestInstanceDelete,
    /// Open the selected instance's game directory.
    OpenInstanceDirectory,
    LaunchSelected,
    UpdateModpack,
    OpenModpackVersions,
    StartRename,
    KillSelected,
}

impl NavState {
    /// A fresh screen: instances focused, installed mods shown.
    pub fn new() -> (r: NavState)
        ensures
            !r.exit,
            r.focused == FocusedArea::Instances,
            r.pre_overlay_focused == FocusedArea::Instances,
            r.content_tab == ContentTab::Mods,
            r.content_mode == ContentMode::Installed,
            r.log_overlay_scroll == 0,
            r.log_overlay_max_scroll == 0,
            !r.log_overlay_search.active,
            r.log_overlay_search.query@.len() == 0,
            !r.world_datapacks_open,
    {
        NavState {
            exit: false,
            focused: FocusedArea::Instances,
            pre_overlay_focused: FocusedArea::Instances,
            content_tab: ContentTab::Mods,
            content_mode: ContentMode::Installed,
            log_overlay_scroll: 0,
            log_overlay_max_scroll: 0,
            log_overlay_search: SearchState::new(),
            world_datapacks_open: false,
        }
    }
}

/// The tab shown after switching to `mode`: datapacks and worlds swap places, and
/// a tab that discovery does not have falls back to mods.
pub open spec fn tab_after_mode_switch(mode: ContentMode, tab: ContentTab) -> ContentTab {
    match (mode, tab) {
        (ContentMode::Installed, ContentTab::DataPacks) => ContentTab::Worlds,
        (ContentMode::Discover, ContentTab::Worlds) => ContentTab::DataPacks,
        (ContentMode::Discover, t) => if t == ContentTab::Mods || t == ContentTab::ResourcePacks
            || t == ContentTab::Shaders || t == ContentTab::DataPacks { t } else { ContentTab::Mods },
        (_, t) => t,
    }
}

fn switch_tab(mode: ContentMode, tab: ContentTab) -> (r: ContentTab)
    ensures
        r == tab_after_mode_switch(mode, tab),
{
    match (mode, tab) {
        (ContentMode::Installed, ContentTab::DataPacks) => ContentTab::Worlds,
        (ContentMode::Discover, ContentTab::Worlds) => ContentTab::DataPacks,
        (ContentMode::Discover, ContentTab::Mods) => ContentTab::Mods,
        (ContentMode::Discover, ContentTab::ResourcePacks) => ContentTab::ResourcePacks,
        (ContentMode::Discover, ContentTab::Shaders) => ContentTab::Shaders,
        (ContentMode::Discover, ContentTab::DataPacks) => ContentTab::DataPacks,
        (ContentMode::Discover, _) => ContentTab::Mods,
        (_, t) => t,
    }
}

/// Whether `a` is one of the sections that Esc leaves for the instance list.
pub open spec fn esc_returns_home(a: FocusedArea) -> bool {
    a == FocusedArea::Content || a == FocusedArea::Account || a == FocusedArea::Settings || a == FocusedArea::Overview
}

/// What a global shortcut does (see `global_key`).
pub open spec fn global_key_applied(s: NavState, after: NavState, key: KeyEvent, instances_search_active: bool, r: NavAction) -> bool {
    let c = key.code;
    let in_instances = s.focused == FocusedArea::Instances && !instances_search_active;
    let content = s.focused == FocusedArea::Content;
    if c == KeyCode::Char('q') {
        after == (NavState { exit: true, ..s }) && r == NavAction::Nothing
    } else if c == KeyCode::Esc && esc_returns_home(s.focused) {
        after == (NavState { focused: FocusedArea::Instances, ..s }) && r == NavAction::Nothing
    } else if c == KeyCode::Char('I') {
        after == (NavState { focused: FocusedArea::Instances, ..s }) && r == NavAction::Nothing
    } else if c == KeyCode::Char('C') {
        after == (NavState { focused: FocusedArea::Content, ..s }) && r == NavAction::Nothing
    } else if c == KeyCode::Char('A') {
        after == (NavState { focused: FocusedArea::Account, ..s }) && r == NavAction::Nothing
    } else if c == KeyCode::Char('S') {
        after == (NavState { focused: FocusedArea::Settings, ..s }) && r == NavAction::Nothing
    } else if c == KeyCode::Char('E') {
        after == s && r == NavAction::OpenInstanceSettings(s.focused)
    } else if c == KeyCode::Char('G') {
        after == (NavState { pre_overlay_focused: s.focused, focused: FocusedArea::GlobalSettings, ..s })
            && r == NavAction::OpenGlobalSettings
    } else if c == KeyCode::Char('O') {
        after == (NavState { pre_overlay_focused: s.focused, focused: FocusedArea::OverviewExpanded, ..s })
            && r == NavAction::Nothing
    } else if c == KeyCode::Tab && content {
        let mode = spec_toggle(s.content_mode);
        after == (NavState { content_mode: mode, content_tab: tab_after_mode_switch(mode, s.content_tab),
            world_datapacks_open: if mode == ContentMode::Discover { false } else { s.world_datapacks_open }, ..s })
            && r == NavAction::EnsureDiscoveryLoaded
    } else if (c == KeyCode::Char('l') || c == KeyCode::Right) && content {
        after == (NavState { content_tab: spec_cycle_tab(s.content_tab, spec_visible_tabs(s.content_mode), true), ..s })
            && r == NavAction::EnsureDiscoveryLoaded
    } else if (c == KeyCode::Char('h') || c == KeyCode::Left) && content {
        after == (NavState { content_tab: spec_cycle_tab(s.content_tab, spec_visible_tabs(s.content_mode), false), ..s })
            && r == NavAction::EnsureDiscoveryLoaded
    } else if in_instances && c == KeyCode::Char('d') {
        after == s && r == NavAction::RequestInstanceDelete
    } else if in_instances && c == KeyCode::Enter && key.modifiers.shift {
        after == s && r == NavAction::OpenInstanceDirectory
    } else if in_instances && c == KeyCode::Enter {
        after == (NavState { focused: FocusedArea::Content, ..s }) && r == NavAction::Nothing
    } else if in_instances && c == KeyCode::Char('l') {
        after == s && r == NavAction::LaunchSelected
    } else if in_instances && c == KeyCode::Char('u') {
        after == s && r == NavAction::UpdateModpack
    } else if in_instances && c == KeyCode::Char('v') {
        after == s && r == NavAction::OpenModpackVersions
    } else if in_instances && c == KeyCode::Char('r') {
        after == s && r == NavAction::StartRename
    } else if in_instances && c == KeyCode::Esc {
        after == s && r == NavAction::KillSelected
    } else {
        after == s && r == NavAction::Nothing
    }
}

/// The global shortcuts: capital letters move the focus or open overlays, `q`
/// quits, Esc goes back to the instance list, Tab and `h`/`l` switch content
/// mode and tab, and lowercase letters act on the selected instance.
pub fn global_key(s: &mut NavState, key: &KeyEvent, instances_search_active: bool) -> (r: NavAction)
    ensures
        global_key_applied(*old(s), *final(s), *key, instances_search_active, r),
{
    let c = key.code;
    let in_instances = s.focused == FocusedArea::Instances && !instances_search_active;
    let content = s.focused == FocusedArea::Content;
    let home = s.focused == FocusedArea::Content || s.focused == FocusedArea::Account
        || s.focused == FocusedArea::Settings || s.focused == FocusedArea::Overview;
    if c == KeyCode::Char('q') {
        s.exit = true;
        NavAction::Nothing
    } else if c == KeyCode::Esc && home {
        s.focused = FocusedArea::Instances;
        NavAction::Nothing
    } else if c == KeyCode::Char('I') {
        s.focused = FocusedArea::Instances;
        NavAction::Nothing
    } else if c == KeyCode::Char('C') {
        s.focused = FocusedArea::Content;
        NavAction::Nothing
    } else if c == KeyCode::Char('A') {
        s.focused = FocusedArea::Account;
        NavAction::Nothing
    } else if c == KeyCode::Char('S') {
        s.focused = FocusedArea::Settings;
        NavAction::Nothing
    } else if c == KeyCode::Char('E') {
        NavAction::OpenInstanceSettings(s.focused)
    } else if c == KeyCode::Char('G') {
        s.pre_overlay_focused = s.focused;
        s.focused = FocusedArea::GlobalSettings;
        NavAction::OpenGlobalSettings
    } else if c == KeyCode::Char('O') {
        s.pre_overlay_focused = s.focused;
        s.focused = FocusedArea::OverviewExpanded;
        NavAction::Nothing
    } else if c == KeyCode::Tab && content {
        s.content_mode = s.content_mode.toggle();
        s.content_tab = switch_tab(s.content_mode, s.content_tab);
        if s.content_mode == ContentMode::Discover {
            s.world_datapacks_open = false;
        }
        NavAction::EnsureDiscoveryLoaded
    } else if (c == KeyCode::Char('l') || c == KeyCode::Right) && content {
        s.content_tab = s.content_tab.next_for_mode(s.content_mode);
        NavAction::EnsureDiscoveryLoaded
    } else if (c == KeyCode::Char('h') || c == KeyCode::Left) && content {
        s.content_tab = s.content_tab.previous_for_mode(s.content_mode);
        NavAction::EnsureDiscoveryLoaded
    } else if in_instances && c == KeyCode::Char('d') {
        NavAction::RequestInstanceDelete
    } else if in_instances && c == KeyCode::Enter && key.modifiers.shift {
        NavAction::OpenInstanceDirectory
    } else if in_instances && c == KeyCode::Enter {
        s.focused = FocusedArea::Content;
        NavAction::Nothing
    } else if in_instances && c == KeyCode::Char('l') {
        NavAction::LaunchSelected
    } else if in_instances && c == KeyCode::Char('u') {
        NavAction::UpdateModpack
    } else if in_instances && c == KeyCode::Char('v') {
        NavAction::OpenModpackVersions
    } else if in_instances && c == KeyCode::Char('r') {
        NavAction::StartRename
    } else if in_instances && c == KeyCode::Esc {
        NavAction::KillSelected
    } else {
        NavAction::Nothing
    }
}

/// What a key does while the log overlay is open: while its search is typed
/// into, the key edits the search; otherwise it scrolls, starts the search, or
/// closes the overlay (`O` or Esc) back to where the focus was.
pub open spec fn overlay_key_applied(s: NavState, after: NavState, key: KeyEvent) -> bool {
    let c = key.code;
    if s.log_overlay_search.active {
        &&& after == (NavState { log_overlay_search: after.log_overlay_search, ..s })
        &&& after.log_overlay_search.query@ == search_query_after(s.log_overlay_search.query@, key)
        &&& after.log_overlay_search.active == (c != KeyCode::Enter && c != KeyCode::Esc)
    } else if c == KeyCode::Char('O') || c == KeyCode::Esc {
        &&& after == (NavState { focused: s.pre_overlay_focused, log_overlay_search: after.log_overlay_search, ..s })
        &&& !after.log_overlay_search.active
        &&& after.log_overlay_search.query@.len() == 0
    } else if c == KeyCode::Char('j') || c == KeyCode::Down {
        after == (NavState { log_overlay_scroll: if s.log_overlay_scroll < s.log_overlay_max_scroll {
            (s.log_overlay_scroll + 1) as usize } else { s.log_overlay_scroll }, ..s })
    } else if c == KeyCode::Char('k') || c == KeyCode::Up {
        after == (NavState { log_overlay_scroll: if s.log_overlay_scroll == 0 { 0 } else { (s.log_overlay_scroll - 1) as usize }, ..s })
    } else if c == KeyCode::Char('G') {
        after == (NavState { log_overlay_scroll: s.log_overlay_max_scroll, ..s })
    } else if c == KeyCode::Char('g') {
        after == (NavState { log_overlay_scroll: 0, ..s })
    } else if c == KeyCode::Char('/') {
        &&& after == (NavState { log_overlay_search: after.log_overlay_search, ..s })
        &&& after.log_overlay_search.active
        &&& after.log_overlay_search.query@ == s.log_overlay_search.query@
    } else {
        after == s
    }
}

/// Handles a key in the open log overlay, which takes every key.
pub fn overlay_key(s: &mut NavState, key: &KeyEvent)
    requires
        old(s).focused == FocusedArea::OverviewExpanded,
    ensures
        overlay_key_applied(*old(s), *final(s), *key),
{
    let c = key.code;
    if s.log_overlay_search.active {
        match c {
            KeyCode::Enter => s.log_overlay_search.confirm(),
            KeyCode::Esc => {
                s.log_overlay_search.deactivate();
                assert(s.log_overlay_search.query@ =~= Seq::<char>::empty());
            },
            KeyCode::Backspace => s.log_overlay_search.backspace(key.modifiers),
            KeyCode::Char(ch) => s.log_overlay_search.push(ch),
            _ => {},
        }
        return;
    }
    if c == KeyCode::Char('O') || c == KeyCode::Esc {
        s.focused = s.pre_overlay_focused;
        s.log_overlay_search.deactivate();
    } else if c == KeyCode::Char('j') || c == KeyCode::Down {
        if s.log_overlay_scroll < s.log_overlay_max_scroll {
            s.log_overlay_scroll = s.log_overlay_scroll + 1;
        }
    } else if c == KeyCode::Char('k') || c == KeyCode::Up {
        s.log_overlay_scroll = if s.log_overlay_scroll == 0 { 0 } else { s.log_overlay_scroll - 1 };
    } else if c == KeyCode::Char('G') {
        s.log_overlay_scroll = s.log_overlay_max_scroll;
    } else if c == KeyCode::Char('g') {
        s.log_overlay_scroll = 0;
    } else if c == KeyCode::Char('/') {
        s.log_overlay_search.activate();
    }
}

/// The mouse wheel in the log overlay: down scrolls down (within the text), up scrolls up.
pub fn overlay_scroll(s: &mut NavState, down: bool)
    ensures
        *final(s) == (NavState { log_overlay_scroll: if down {
            if old(s).log_overlay_scroll < old(s).log_overlay_max_scroll { (old(s).log_overlay_scroll + 1) as usize }
            else { old(s).log_overlay_scroll }
        } else if old(s).log_overlay_scroll == 0 { 0 } else { (old(s).log_overlay_scroll - 1) as usize }, ..*old(s) }),
{
    if down {
        if s.log_overlay_scroll < s.log_overlay_max_scroll {
            s.log_overlay_scroll = s.log_overlay_scroll + 1;
        }
    } else {
        s.log_overlay_scroll = if s.log_overlay_scroll == 0 { 0 } else { s.log_overlay_scroll - 1 };
    }
}

/// What the confirmation popup asks to confirm.
#[derive(Clone, Copy, Debug, PartialEq, Eq, Structural)]
pub enum ConfirmKind {
    Instance,
    Account,
    ConfigProfile,
    Content,
    OrphanDependencies,
    InstanceRuntime,
    LauncherCache,
    /// Turning on automatic Java (`account` false) or account selection, for an
    /// instance (`for_instance`) or for all.
    AutomaticSelection { account: bool, for_instance: bool },
}

/// The answer given in the confirmation popup.
#[derive(Clone, Copy, Debug, PartialEq, Eq, Structural)]
pub enum ConfirmAnswer {
    Confirmed,
    Cancelled,
    /// Any other key: the popup stays.
    Ignored,
}

/// Where the focus goes once a confirmation is answered.
pub open spec fn focus_after_confirm(target: Option<ConfirmKind>, confirmed: bool) -> FocusedArea {
    match target {
        Some(ConfirmKind::Instance) => FocusedArea::Instances,
        Some(ConfirmKind::Account) => FocusedArea::Account,
        Some(ConfirmKind::ConfigProfile) => FocusedArea::Settings,
        Some(ConfirmKind::Content) => FocusedArea::Content,
        Some(ConfirmKind::OrphanDependencies) => FocusedArea::Content,
        Some(ConfirmKind::InstanceRuntime) => FocusedArea::InstanceSettings,
        Some(ConfirmKind::LauncherCache) => FocusedArea::GlobalSettings,
        Some(ConfirmKind::AutomaticSelection { account, for_instance }) =>
            if for_instance || (confirmed && account) { FocusedArea::InstanceSettings } else { FocusedArea::GlobalSettings },
        None => FocusedArea::Instances,
    }
}

/// Handles a key in the confirmation popup: Enter or `y` confirms, Esc or `n`
/// cancels, each moving the focus back to where the confirmed thing lives.
pub fn confirm_key(s: &mut NavState, key: &KeyEvent, target: Option<ConfirmKind>) -> (r: ConfirmAnswer)
    ensures
        ({
            let c = key.code;
            if c == KeyCode::Enter || c == KeyCode::Char('y') || c == KeyCode::Char('Y') {
                r == ConfirmAnswer::Confirmed && *final(s) == (NavState { focused: focus_after_confirm(target, true), ..*old(s) })
            } else if c == KeyCode::Esc || c == KeyCode::Char('n') || c == KeyCode::Char('N') {
                r == ConfirmAnswer::Cancelled && *final(s) == (NavState { focused: focus_after_confirm(target, false), ..*old(s) })
            } else {
                r == ConfirmAnswer::Ignored && *final(s) == *old(s)
            }
        }),
{
    let c = key.code;
    let confirmed = c == KeyCode::Enter || c == KeyCode::Char('y') || c == KeyCode::Char('Y');
    let cancelled = c == KeyCode::Esc || c == KeyCode::Char('n') || c == KeyCode::Char('N');
    if !confirmed && !cancelled {
        return ConfirmAnswer::Ignored;
    }
    s.focused = match target {
        Some(ConfirmKind::Instance) => FocusedArea::Instances,
        Some(ConfirmKind::Account) => FocusedArea::Account,
        Some(ConfirmKind::ConfigProfile) => FocusedArea::Settings,
        Some(ConfirmKind::Content) => FocusedArea::Content,
        Some(ConfirmKind::OrphanDependencies) => FocusedArea::Content,
        Some(ConfirmKind::InstanceRuntime) => FocusedArea::InstanceSettings,
        Some(ConfirmKind::LauncherCache) => FocusedArea::GlobalSettings,
        Some(ConfirmKind::AutomaticSelection { account, for_instance }) =>
            if for_instance || (confirmed && account) { FocusedArea::InstanceSettings } else { FocusedArea::GlobalSettings },
        None => FocusedArea::Instances,
    };
    if confirmed { ConfirmAnswer::Confirmed } else { ConfirmAnswer::Cancelled }
}

/// The chooser shown when a file matches projects of several providers.
pub struct ProviderConflictState {
    pub relative_path: String,
    pub candidates: Vec<ProviderProject>,
    pub selected: usize,
}

/// What the provider-conflict chooser asks of the caller.
pub enum ConflictAction {
    Nothing,
    /// Record the file as this project, with the other candidates as its aliases.
    Resolve { project: ProviderProject, aliases: Vec<ProviderProject> },
    /// Stop asking about this file.
    Dismiss,
}

/// Handles a key in the provider-conflict chooser: `j`/`k` move the choice, Enter
/// takes it (the others become aliases), Esc puts the question aside.
pub fn conflict_key(c: &mut ProviderConflictState, key: &KeyEvent) -> (r: ConflictAction)
    ensures
        final(c).relative_path == old(c).relative_path,
        final(c).candidates == old(c).candidates,
        ({
            let k = key.code;
            let n = old(c).candidates@.len();
            let sel = old(c).selected;
            if k == KeyCode::Char('j') || k == KeyCode::Down {
                r is Nothing && final(c).selected == (if n == 0 { 0 } else if sel + 1 < n { (sel + 1) as usize } else { (n - 1) as usize })
            } else if k == KeyCode::Char('k') || k == KeyCode::Up {
                r is Nothing && final(c).selected == (if sel == 0 { 0 } else { (sel - 1) as usize })
            } else if k == KeyCode::Enter {
                final(c).selected == sel && match r {
                    ConflictAction::Resolve { project, aliases } => sel < n
                        && project@ == old(c).candidates@[sel as int]@
                        && crate::discovery::refs(aliases@) == crate::discovery::refs(old(c).candidates@).remove(sel as int),
                    ConflictAction::Nothing => sel >= n,
                    ConflictAction::Dismiss => false,
                }
            } else if k == KeyCode::Esc {
                r is Dismiss && final(c).selected == sel
            } else {
                r is Nothing && final(c).selected == sel
            }
        }),
{
    let k = key.code;
    let n = c.candidates.len();
    if k == KeyCode::Char('j') || k == KeyCode::Down {
        c.selected = if n == 0 { 0 } else if c.selected < n - 1 { c.selected + 1 } else { n - 1 };
        ConflictAction::Nothing
    } else if k == KeyCode::Char('k') || k == KeyCode::Up {
        c.selected = if c.selected == 0 { 0 } else { c.selected - 1 };
        ConflictAction::Nothing
    } else if k == KeyCode::Enter {
        if c.selected >= n {
            return ConflictAction::Nothing;
        }
        let project = c.candidates[c.selected].clone();
        let mut aliases: Vec<ProviderProject> = Vec::new();
        let mut i: usize = 0;
        let ghost all = crate::discovery::refs(c.candidates@);
        while i < n
            invariant
                n == c.candidates@.len(),
                c.selected < n,
                all == crate::discovery::refs(c.candidates@),
                i <= n,
                crate::discovery::refs(aliases@) == (if i <= c.selected { all.take(i as int) }
                    else { all.take(c.selected as int) + all.subrange(c.selected + 1, i as int) }),
            decreases n - i,
        {
            let ghost a0 = crate::discovery::refs(aliases@);
            if i != c.selected {
                aliases.push(c.candidates[i].clone());
                assert(crate::discovery::refs(aliases@) =~= a0.push(all[i as int]));
            }
            proof {
                if i < c.selected {
                    assert(all.take(i + 1) =~= all.take(i as int).push(all[i as int]));
                } else if i == c.selected {
                    assert(all.take(c.selected as int) + all.subrange(c.selected + 1, i + 1) =~= all.take(i as int));
                } else {
                    assert(all.take(c.selected as int) + all.subrange(c.selected + 1, i + 1)
                        =~= (all.take(c.selected as int) + all.subrange(c.selected + 1, i as int)).push(all[i as int]));
                }
            }
            i = i + 1;
        }
        assert(crate::discovery::refs(aliases@) =~= all.remove(c.selected as int));
        ConflictAction::Resolve { project, aliases }
    } else if k == KeyCode::Esc {
        ConflictAction::Dismiss
    } else {
        ConflictAction::Nothing
    }
}


/// The version popup as far as the content area's keys depend on it.
#[derive(Clone, Copy, Debug, PartialEq, Eq, Structural)]
pub struct PopupFlags {
    pub selecting_minecraft_version: bool,
    pub selecting_world: bool,
    pub confirming: bool,
    pub loading: bool,
    pub installing: bool,
    /// Whether the highlighted row is one of the Minecraft versions listed.
    pub highlighted_minecraft_version: bool,
}

/// What a key in the discovery area asks for.
#[derive(Clone, Copy, Debug, PartialEq, Eq, Structural)]
pub enum DiscoveryKeyAction {
    OpenProjectPage,
    OpenVersions,
    RequestDelete,
    SelectMinecraftVersion,
    SelectWorld,
    Install,
    BeginWorldSelection,
    ResolveDependencies,
    BeginConfirmation,
    SwitchSource,
    /// The discovery view handles the key itself.
    Delegate,
}

/// Where a key in the discovery area goes. Enter on a row opens its project page,
/// `v` its versions and `d` deletes it; in the version popup Enter takes the
/// highlighted Minecraft version or world, installs once confirmed, and else moves
/// on (worlds first for datapacks, dependencies for mods, confirmation otherwise);
/// Tab switches the provider.
pub open spec fn discovery_key_spec(search_active: bool, popup: Option<PopupFlags>, page_open: bool, kind: ContentKind, key: KeyEvent) -> DiscoveryKeyAction {
    let c = key.code;
    let popup_open = popup is Some;
    if !search_active && !popup_open && !page_open && c == KeyCode::Enter {
        DiscoveryKeyAction::OpenProjectPage
    } else if !search_active && !popup_open && c == KeyCode::Char('v') {
        DiscoveryKeyAction::OpenVersions
    } else if !search_active && !popup_open && !page_open && c == KeyCode::Char('d') {
        DiscoveryKeyAction::RequestDelete
    } else if popup_open && c == KeyCode::Enter {
        let p = popup->0;
        if !p.loading && !p.installing && p.selecting_minecraft_version && p.highlighted_minecraft_version {
            DiscoveryKeyAction::SelectMinecraftVersion
        } else if p.selecting_world {
            DiscoveryKeyAction::SelectWorld
        } else if p.confirming {
            DiscoveryKeyAction::Install
        } else if kind == ContentKind::DataPack {
            DiscoveryKeyAction::BeginWorldSelection
        } else if kind == ContentKind::Mod {
            DiscoveryKeyAction::ResolveDependencies
        } else {
            DiscoveryKeyAction::BeginConfirmation
        }
    } else if popup_open && c == KeyCode::Tab {
        DiscoveryKeyAction::SwitchSource
    } else {
        DiscoveryKeyAction::Delegate
    }
}

pub fn discovery_key_action(search_active: bool, popup: Option<PopupFlags>, page_open: bool, kind: ContentKind, key: &KeyEvent)
    -> (r: DiscoveryKeyAction)
    ensures
        r == discovery_key_spec(search_active, popup, page_open, kind, *key),
{
    let c = key.code;
    let popup_open = popup.is_some();
    if !search_active && !popup_open && !page_open && c == KeyCode::Enter {
        DiscoveryKeyAction::OpenProjectPage
    } else if !search_active && !popup_open && c == KeyCode::Char('v') {
        DiscoveryKeyAction::OpenVersions
    } else if !search_active && !popup_open && !page_open && c == KeyCode::Char('d') {
        DiscoveryKeyAction::RequestDelete
    } else if c == KeyCode::Enter && popup_open {
        match popup {
            Some(p) => if !p.loading && !p.installing && p.selecting_minecraft_version && p.highlighted_minecraft_version {
                DiscoveryKeyAction::SelectMinecraftVersion
            } else if p.selecting_world {
                DiscoveryKeyAction::SelectWorld
            } else if p.confirming {
                DiscoveryKeyAction::Install
            } else if kind == ContentKind::DataPack {
                DiscoveryKeyAction::BeginWorldSelection
            } else if kind == ContentKind::Mod {
                DiscoveryKeyAction::ResolveDependencies
            } else {
                DiscoveryKeyAction::BeginConfirmation
            },
            None => DiscoveryKeyAction::Delegate,
        }
    } else if popup_open && c == KeyCode::Tab {
        DiscoveryKeyAction::SwitchSource
    } else {
        DiscoveryKeyAction::Delegate
    }
}

/// Whether a key the discovery view handled may bring the selection near the end,
/// so that the next page should be asked for.
pub fn fetch_after_key(key: &KeyEvent) -> (r: bool)
    ensures
        r == (key.code == KeyCode::Char('j') || key.code == KeyCode::Char('k') || key.code == KeyCode::Down
            || key.code == KeyCode::Up || key.code == KeyCode::Char('[') || key.code == KeyCode::Char(']')),
{
    let c = key.code;
    c == KeyCode::Char('j') || c == KeyCode::Char('k') || c == KeyCode::Down || c == KeyCode::Up
        || crate::discovery::page_key_direction(key).is_some()
}

/// What a key among installed content asks for.
#[derive(Clone, Copy, Debug, PartialEq, Eq, Structural)]
pub enum InstalledKeyAction {
    BulkUpdate,
    InstalledVersions,
    RequestDelete,
    CloseWorldDatapacks,
    OpenWorldDatapacks,
    QuickPlay,
    /// The list handles the key; Enter toggles the selected file when `toggle` holds.
    List { toggle: bool },
    Logs,
    Screenshots,
    Nothing,
}

/// Where a key among installed content goes, by tab. `u` updates all, `v` opens
/// the versions of a provider row and `d` deletes, unless the search is typed
/// into; in the worlds tab Enter opens a world's datapacks (Esc or `h` closes
/// them) and `q` starts the world.
pub open spec fn installed_key_spec(tab: ContentTab, world_datapacks_open: bool, search_active: bool,
    viewer_search_active: bool, has_provider_project: bool, key: KeyEvent) -> InstalledKeyAction {
    let c = key.code;
    match tab {
        ContentTab::Logs => if c == KeyCode::Char('d') && !search_active && !viewer_search_active {
            InstalledKeyAction::RequestDelete } else { InstalledKeyAction::Logs },
        ContentTab::Screenshots => if c == KeyCode::Char('d') && !search_active {
            InstalledKeyAction::RequestDelete } else { InstalledKeyAction::Screenshots },
        ContentTab::Worlds => if world_datapacks_open {
            if c == KeyCode::Char('u') && !search_active { InstalledKeyAction::BulkUpdate }
            else if c == KeyCode::Char('v') && !search_active && has_provider_project { InstalledKeyAction::InstalledVersions }
            else if (c == KeyCode::Esc || c == KeyCode::Char('h')) && !search_active { InstalledKeyAction::CloseWorldDatapacks }
            else if c == KeyCode::Char('d') && !search_active { InstalledKeyAction::RequestDelete }
            else { InstalledKeyAction::List { toggle: false } }
        } else {
            if c == KeyCode::Enter && !search_active { InstalledKeyAction::OpenWorldDatapacks }
            else if c == KeyCode::Char('q') && !search_active { InstalledKeyAction::QuickPlay }
            else if c == KeyCode::Char('d') && !search_active { InstalledKeyAction::RequestDelete }
            else { InstalledKeyAction::List { toggle: false } }
        },
        ContentTab::DataPacks => InstalledKeyAction::Nothing,
        _ => if c == KeyCode::Char('u') && !search_active { InstalledKeyAction::BulkUpdate }
            else if c == KeyCode::Char('v') && !search_active && has_provider_project { InstalledKeyAction::InstalledVersions }
            else if c == KeyCode::Char('d') && !search_active { InstalledKeyAction::RequestDelete }
            else { InstalledKeyAction::List { toggle: true } },
    }
}

pub fn installed_key_action(tab: ContentTab, world_datapacks_open: bool, search_active: bool,
    viewer_search_active: bool, has_provider_project: bool, key: &KeyEvent) -> (r: InstalledKeyAction)
    ensures
        r == installed_key_spec(tab, world_datapacks_open, search_active, viewer_search_active, has_provider_project, *key),
{
    let c = key.code;
    match tab {
        ContentTab::Logs => if c == KeyCode::Char('d') && !search_active && !viewer_search_active {
            InstalledKeyAction::RequestDelete } else { InstalledKeyAction::Logs },
        ContentTab::Screenshots => if c == KeyCode::Char('d') && !search_active {
            InstalledKeyAction::RequestDelete } else { InstalledKeyAction::Screenshots },
        ContentTab::Worlds => if world_datapacks_open {
            if c == KeyCode::Char('u') && !search_active { InstalledKeyAction::BulkUpdate }
            else if c == KeyCode::Char('v') && !search_active && has_provider_project { InstalledKeyAction::InstalledVersions }
            else if (c == KeyCode::Esc || c == KeyCode::Char('h')) && !search_active { InstalledKeyAction::CloseWorldDatapacks }
            else if c == KeyCode::Char('d') && !search_active { InstalledKeyAction::RequestDelete }
            else { InstalledKeyAction::List { toggle: false } }
        } else {
            if c == KeyCode::Enter && !search_active { InstalledKeyAction::OpenWorldDatapacks }
            else if c == KeyCode::Char('q') && !search_active { InstalledKeyAction::QuickPlay }
            else if c == KeyCode::Char('d') && !search_active { InstalledKeyAction::RequestDelete }
            else { InstalledKeyAction::List { toggle: false } }
        },
        ContentTab::DataPacks => InstalledKeyAction::Nothing,
        _ => if c == KeyCode::Char('u') && !search_active { InstalledKeyAction::BulkUpdate }
            else if c == KeyCode::Char('v') && !search_active && has_provider_project { InstalledKeyAction::InstalledVersions }
            else if c == KeyCode::Char('d') && !search_active { InstalledKeyAction::RequestDelete }
            else { InstalledKeyAction::List { toggle: true } },
    }
}

/// Switching the content mode with Tab always lands on a tab the new mode shows;
/// switching twice comes back to the mode and to a tab that is not one of the
/// installed-only views (screenshots, logs).
pub proof fn lemma_mode_switch_round_trip(mode: ContentMode, tab: ContentTab)
    requires
        spec_visible_tabs(mode).contains(tab),
        tab != ContentTab::Screenshots,
        tab != ContentTab::Logs,
    ensures
        spec_toggle(spec_toggle(mode)) == mode,
        tab_after_mode_switch(mode, tab_after_mode_switch(spec_toggle(mode), tab)) == tab,
        spec_visible_tabs(spec_toggle(mode)).contains(tab_after_mode_switch(spec_toggle(mode), tab)),
{
    let s = spec_visible_tabs(mode);
    let o = spec_visible_tabs(spec_toggle(mode));
    let t2 = tab_after_mode_switch(spec_toggle(mode), tab);
    let w = choose|i: int| 0 <= i < s.len() && s[i] == tab;
    match spec_toggle(mode) {
        ContentMode::Discover => {
            assert(tab != ContentTab::DataPacks);
            if t2 == ContentTab::Mods { assert(o[0] == t2); }
            else if t2 == ContentTab::ResourcePacks { assert(o[1] == t2); }
            else if t2 == ContentTab::Shaders { assert(o[2] == t2); }
            else { assert(o[3] == t2); }
        },
        ContentMode::Installed => {
            if t2 == ContentTab::Mods { assert(o[0] == t2); }
            else if t2 == ContentTab::ResourcePacks { assert(o[1] == t2); }
            else if t2 == ContentTab::Shaders { assert(o[2] == t2); }
            else { assert(o[4] == t2); }
        },
    }
}

/// Where the focus goes once the instance list has handled a key: to a popup it
/// asked for, back to the list when that popup is no longer asked for. The flag
/// says whether the import popup opens now.
pub fn focus_after_instance_keys(focused: FocusedArea, wants_popup: bool, wants_import_popup: bool)
    -> (r: (FocusedArea, bool))
    ensures
        ({
            let f1 = if wants_popup {
                FocusedArea::Popup
            } else if focused == FocusedArea::Popup {
                FocusedArea::Instances
            } else {
                focused
            };
            if wants_import_popup {
                r == (FocusedArea::ImportPopup, f1 != FocusedArea::ImportPopup)
            } else if f1 == FocusedArea::ImportPopup {
                r == (FocusedArea::Instances, false)
            } else {
                r == (f1, false)
            }
        }),
{
    let f1 = if wants_popup {
        FocusedArea::Popup
    } else if focused == FocusedArea::Popup {
        FocusedArea::Instances
    } else {
        focused
    };
    if wants_import_popup {
        (FocusedArea::ImportPopup, f1 != FocusedArea::ImportPopup)
    } else if f1 == FocusedArea::ImportPopup {
        (FocusedArea::Instances, false)
    } else {
        (f1, false)
    }
}

/// What decides which part of the screen sees a key first.
#[derive(Clone, Copy, Debug, PartialEq, Eq, Structural)]
pub struct KeyContext {
    /// The content-update popup is showing.
    pub content_update_visible: bool,
    /// The modpack version chooser is open.
    pub modpack_versions_open: bool,
    /// The modpack update popup is open.
    pub modpack_update_open: bool,
    /// A file matching projects of several providers waits for a choice.
    pub provider_conflict_open: bool,
    /// The discovery view the tab shows has its version popup or project page open.
    pub discovery_view_open: bool,
    /// An instance is being renamed.
    pub renaming: bool,
    /// The instance search is typed into.
    pub instances_search_active: bool,
}

/// The first handler a key is offered to.
#[derive(Clone, Copy, Debug, PartialEq, Eq, Structural)]
pub enum KeyHandler {
    ContentUpdatePopup,
    ModpackVersions,
    ModpackUpdatePopup,
    ProviderConflict,
    LogOverlay,
    ConfirmPopup,
    DiscoveryContent,
    InstalledContent,
    Account,
    Settings,
    GlobalSettings,
    InstanceSettings,
    NewInstancePopup,
    ImportPopup,
    InstanceRename,
    InstanceSearch,
    GlobalKeys,
}

/// Which handler sees a key first: the open popups in their order of precedence
/// (content updates, modpack versions, modpack update, provider conflict), then
/// the log overlay and the confirmation when focused, then the focused area
/// (content goes to discovery while discovering or while a discovery popup is
/// open), and last the instance rename, the instance search and the global keys.
pub open spec fn first_key_handler_spec(focused: FocusedArea, mode: ContentMode, c: KeyContext) -> KeyHandler {
    if c.content_update_visible {
        KeyHandler::ContentUpdatePopup
    } else if c.modpack_versions_open {
        KeyHandler::ModpackVersions
    } else if c.modpack_update_open {
        KeyHandler::ModpackUpdatePopup
    } else if c.provider_conflict_open {
        KeyHandler::ProviderConflict
    } else {
        match focused {
            FocusedArea::OverviewExpanded => KeyHandler::LogOverlay,
            FocusedArea::ConfirmDelete => KeyHandler::ConfirmPopup,
            FocusedArea::Content => if mode == ContentMode::Discover || c.discovery_view_open {
                KeyHandler::DiscoveryContent
            } else {
                KeyHandler::InstalledContent
            },
            FocusedArea::Account => KeyHandler::Account,
            FocusedArea::Settings => KeyHandler::Settings,
            FocusedArea::GlobalSettings => KeyHandler::GlobalSettings,
            FocusedArea::InstanceSettings => KeyHandler::InstanceSettings,
            FocusedArea::Popup => KeyHandler::NewInstancePopup,
            FocusedArea::ImportPopup => KeyHandler::ImportPopup,
            FocusedArea::Instances => if c.renaming {
                KeyHandler::InstanceRename
            } else if c.instances_search_active {
                KeyHandler::InstanceSearch
            } else {
                KeyHandler::GlobalKeys
            },
            _ => KeyHandler::GlobalKeys,
        }
    }
}

/// Which handler sees a key first (see `first_key_handler_spec`).
pub fn first_key_handler(focused: FocusedArea, mode: ContentMode, c: KeyContext) -> (r: KeyHandler)
    ensures
        r == first_key_handler_spec(focused, mode, c),
{
    if c.content_update_visible {
        KeyHandler::ContentUpdatePopup
    } else if c.modpack_versions_open {
        KeyHandler::ModpackVersions
    } else if c.modpack_update_open {
        KeyHandler::ModpackUpdatePopup
    } else if c.provider_conflict_open {
        KeyHandler::ProviderConflict
    } else {
        match focused {
            FocusedArea::OverviewExpanded => KeyHandler::LogOverlay,
            FocusedArea::ConfirmDelete => KeyHandler::ConfirmPopup,
            FocusedArea::Content => if mode == ContentMode::Discover || c.discovery_view_open {
                KeyHandler::DiscoveryContent
            } else {
                KeyHandler::InstalledContent
            },
            FocusedArea::Account => KeyHandler::Account,
            FocusedArea::Settings => KeyHandler::Settings,
            FocusedArea::GlobalSettings => KeyHandler::GlobalSettings,
            FocusedArea::InstanceSettings => KeyHandler::InstanceSettings,
            FocusedArea::Popup => KeyHandler::NewInstancePopup,
            FocusedArea::ImportPopup => KeyHandler::ImportPopup,
            FocusedArea::Instances => if c.renaming {
                KeyHandler::InstanceRename
            } else if c.instances_search_active {
                KeyHandler::InstanceSearch
            } else {
                KeyHandler::GlobalKeys
            },
            _ => KeyHandler::GlobalKeys,
        }
    }
}

} // verus!
