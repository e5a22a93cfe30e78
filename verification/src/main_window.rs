//! The decisions of the main window between frames: what a finished
//! background task changes, which vault menu entries can be used and what
//! they start, which dialogs stay open, and which item of the thumbnail list
//! the view keeps in place when the grid is laid out again.

use vstd::prelude::*;
use vstd::string::StringExecFns;
use crate::message::{import_summary, import_summary_text, MessageDialog, MessageType};
use crate::thumb_cache::{now_millis, time_bound, LOW_QUALITY_HEIGHT};
use crate::thumb_grid::SCROLL_COOLDOWN_MS;

verus! {

/// What a finished background task reports to the main window.
pub enum TaskReport {
    /// A vault was loaded; it has this name.
    VaultLoaded(String),
    /// The current vault was saved.
    VaultSaved,
    /// A folder was imported; `results` says for each image whether it was
    /// imported.
    ImportComplete { path: String, results: Vec<bool> },
    /// A thumbnail of this height was loaded.
    ThumbnailLoaded { height: usize },
    /// The task cannot run in a browser.
    WasmNotImplemented,
    /// The task failed with this message.
    Failed(String),
    /// Any other outcome, which the main window ignores.
    Other,
}

/// What the main window does with a report, besides the dialogs it opens.
pub enum TaskReaction {
    /// Nothing more.
    Nothing,
    /// The loaded vault becomes the current one.
    SetCurrentVault(String),
    /// The loaded thumbnail goes into the cache, and also into the
    /// low-quality cache when `low_quality` holds.
    CommitThumbnail { low_quality: bool },
}

/// An entry of the "Vault" and "Import" menus.
#[derive(Debug, Clone, Copy, PartialEq, Eq, Structural)]
pub enum MenuAction {
    NewVault,
    OpenVault,
    SaveVault,
    ImportAll,
    Quit,
}

/// What a click on a menu entry starts.
#[derive(Debug, Clone, Copy, PartialEq, Eq, Structural)]
pub enum MenuEffect {
    /// Nothing: the entry is not shown or not enabled.
    Ignored,
    /// The dialog that asks for the name of a new vault opens.
    OpenNewVaultDialog,
    /// A vault is chosen and loaded in the background.
    StartLoadVault,
    /// The current vault is saved in the background.
    StartSaveVault,
    /// All images under the vault's folder are imported in the background.
    StartImport,
    /// The window closes.
    CloseWindow,
}

/// Which menu entries are shown and which can be clicked.
#[derive(Debug, Clone, Copy, PartialEq, Eq, Structural)]
pub struct MenuState {
    pub new_enabled: bool,
    pub open_enabled: bool,
    pub save_shown: bool,
    pub save_enabled: bool,
    pub import_shown: bool,
}

/// The menu while a vault is loading or not, with a current vault or not.
pub open spec fn menu_state_spec(vault_loading: bool, has_vault: bool) -> MenuState {
    MenuState {
        new_enabled: !vault_loading,
        open_enabled: !vault_loading,
        save_shown: has_vault,
        save_enabled: has_vault && !vault_loading,
        import_shown: has_vault,
    }
}

/// What a click on `action` starts in that menu.
pub open spec fn menu_effect_spec(action: MenuAction, vault_loading: bool, has_vault: bool) -> MenuEffect {
    match action {
        MenuAction::NewVault => if vault_loading {
            MenuEffect::Ignored
        } else {
            MenuEffect::OpenNewVaultDialog
        },
        MenuAction::OpenVault => if vault_loading {
            MenuEffect::Ignored
        } else {
            MenuEffect::StartLoadVault
        },
        MenuAction::SaveVault => if vault_loading || !has_vault {
            MenuEffect::Ignored
        } else {
            MenuEffect::StartSaveVault
        },
        MenuAction::ImportAll => if has_vault {
            MenuEffect::StartImport
        } else {
            MenuEffect::Ignored
        },
        MenuAction::Quit => MenuEffect::CloseWindow,
    }
}

/// The dialogs of `dialogs` from index `i` on whose entry in `open` holds,
/// in order.
pub open spec fn kept_from<T>(dialogs: Seq<T>, open: Seq<bool>, i: int) -> Seq<T>
    decreases dialogs.len() - i,
{
    if i >= dialogs.len() {
        Seq::empty()
    } else if 0 <= i < open.len() && open[i] {
        seq![dialogs[i]] + kept_from(dialogs, open, i + 1)
    } else {
        kept_from(dialogs, open, i + 1)
    }
}

/// The dialogs of `dialogs` whose entry in `open` holds, in order.
pub open spec fn kept<T>(dialogs: Seq<T>, open: Seq<bool>) -> Seq<T> {
    kept_from(dialogs, open, 0)
}

/// `after` is `before` with one more dialog at the end, of type `t`, with
/// the title `title` (none for `None`) and the text `message`, not yet shown.
pub open spec fn adds_dialog(
    before: Seq<MessageDialog>,
    after: Seq<MessageDialog>,
    t: MessageType,
    title: Option<Seq<char>>,
    message: Seq<char>,
) -> bool {
    &&& after.len() == before.len() + 1
    &&& after.take(before.len() as int) == before
    &&& after.last().msg_type == t
    &&& after.last().message@ == message
    &&& match title {
        Some(s) => after.last().title matches Some(u) && u@ == s,
        None => after.last().title is None,
    }
    &&& !after.last().opened
}

/// The state of the main window that outlives a frame.
pub struct MainWindow {
    /// A vault is being created, loaded or saved; the vault menu entries
    /// that start another such task are disabled meanwhile.
    pub vault_loading: bool,
    /// The message dialogs shown, oldest first.
    pub msg_dialogs: Vec<MessageDialog>,
}

impl MainWindow {
    /// No vault task running and no dialog.
    pub fn new() -> (w: Self)
        ensures
            !w.vault_loading,
            w.msg_dialogs@.len() == 0,
    {
        MainWindow { vault_loading: false, msg_dialogs: Vec::new() }
    }

    /// Opens a dialog reporting an error.
    pub fn error(&mut self, message: String)
        ensures
            final(self).vault_loading == old(self).vault_loading,
            adds_dialog(
                old(self).msg_dialogs@,
                final(self).msg_dialogs@,
                MessageType::Error,
                None,
                message@,
            ),
    {
        let d = MessageDialog::error(message);
        self.msg_dialogs.push(d);
        assert(self.msg_dialogs@.take(old(self).msg_dialogs@.len() as int) =~= old(self).msg_dialogs@);
    }

    /// Opens a dialog reporting a success, with its own title.
    pub fn success(&mut self, title: String, message: String)
        ensures
            final(self).vault_loading == old(self).vault_loading,
            adds_dialog(
                old(self).msg_dialogs@,
                final(self).msg_dialogs@,
                MessageType::Success,
                Some(title@),
                message@,
            ),
    {
        let d = MessageDialog::success(message).with_title(title);
        self.msg_dialogs.push(d);
        assert(self.msg_dialogs@.take(old(self).msg_dialogs@.len() as int) =~= old(self).msg_dialogs@);
    }

    /// Takes the report of a finished background task: a loaded or saved
    /// vault ends the vault task; a finished import and a failure open a
    /// dialog; a loaded thumbnail is handed back to be stored.
    pub fn on_task_report(&mut self, report: TaskReport) -> (r: TaskReaction)
        ensures
            match report {
                TaskReport::VaultLoaded(name) => r == TaskReaction::SetCurrentVault(name)
                    && !final(self).vault_loading && final(self).msg_dialogs@ == old(
                    self,
                ).msg_dialogs@,
                TaskReport::VaultSaved => r == TaskReaction::Nothing && !final(self).vault_loading
                    && final(self).msg_dialogs@ == old(self).msg_dialogs@,
                TaskReport::ImportComplete { path, results } => r == TaskReaction::Nothing
                    && final(self).vault_loading == old(self).vault_loading && adds_dialog(
                    old(self).msg_dialogs@,
                    final(self).msg_dialogs@,
                    MessageType::Success,
                    Some("Import complete"@),
                    import_summary_text(path@, results@),
                ),
                TaskReport::ThumbnailLoaded { height } => r == (TaskReaction::CommitThumbnail {
                    low_quality: height == LOW_QUALITY_HEIGHT,
                }) && final(self).vault_loading == old(self).vault_loading
                    && final(self).msg_dialogs@ == old(self).msg_dialogs@,
                TaskReport::WasmNotImplemented => r == TaskReaction::Nothing
                    && final(self).vault_loading == old(self).vault_loading && adds_dialog(
                    old(self).msg_dialogs@,
                    final(self).msg_dialogs@,
                    MessageType::Error,
                    None,
                    "Not implemented in WASM"@,
                ),
                TaskReport::Failed(message) => r == TaskReaction::Nothing
                    && final(self).vault_loading == old(self).vault_loading && adds_dialog(
                    old(self).msg_dialogs@,
                    final(self).msg_dialogs@,
                    MessageType::Error,
                    None,
                    message@,
                ),
                TaskReport::Other => r == TaskReaction::Nothing && final(self).vault_loading == old(
                    self,
                ).vault_loading && final(self).msg_dialogs@ == old(self).msg_dialogs@,
            },
    {
        match report {
            TaskReport::VaultLoaded(name) => {
                self.vault_loading = false;
                TaskReaction::SetCurrentVault(name)
            },
            TaskReport::VaultSaved => {
                self.vault_loading = false;
                TaskReaction::Nothing
            },
            TaskReport::ImportComplete { path, results } => {
                let body = import_summary(path.as_str(), results.as_slice());
                self.success(String::from_str("Import complete"), body);
                TaskReaction::Nothing
            },
            TaskReport::ThumbnailLoaded { height } => {
                TaskReaction::CommitThumbnail { low_quality: height == LOW_QUALITY_HEIGHT }
            },
            TaskReport::WasmNotImplemented => {
                self.error(String::from_str("Not implemented in WASM"));
                TaskReaction::Nothing
            },
            TaskReport::Failed(message) => {
                self.error(message);
                TaskReaction::Nothing
            },
            TaskReport::Other => TaskReaction::Nothing,
        }
    }

    /// Which menu entries are shown and enabled, given whether a vault is
    /// open.
    pub fn menu_state(&self, has_vault: bool) -> (m: MenuState)
        ensures
            m == menu_state_spec(self.vault_loading, has_vault),
    {
        MenuState {
            new_enabled: !self.vault_loading,
            open_enabled: !self.vault_loading,
            save_shown: has_vault,
            save_enabled: has_vault && !self.vault_loading,
            import_shown: has_vault,
        }
    }

    /// A click on a menu entry: what it starts; loading or saving a vault
    /// marks a vault task as running.
    pub fn on_menu(&mut self, action: MenuAction, has_vault: bool) -> (e: MenuEffect)
        ensures
            e == menu_effect_spec(action, old(self).vault_loading, has_vault),
            final(self).vault_loading == (old(self).vault_loading || e == MenuEffect::StartLoadVault
                || e == MenuEffect::StartSaveVault),
            final(self).msg_dialogs@ == old(self).msg_dialogs@,
    {
        let e = match action {
            MenuAction::NewVault => if self.vault_loading {
                MenuEffect::Ignored
            } else {
                MenuEffect::OpenNewVaultDialog
            },
            MenuAction::OpenVault => if self.vault_loading {
                MenuEffect::Ignored
            } else {
                MenuEffect::StartLoadVault
            },
            MenuAction::SaveVault => if self.vault_loading || !has_vault {
                MenuEffect::Ignored
            } else {
                MenuEffect::StartSaveVault
            },
            MenuAction::ImportAll => if has_vault {
                MenuEffect::StartImport
            } else {
                MenuEffect::Ignored
            },
            MenuAction::Quit => MenuEffect::CloseWindow,
        };
        if e == MenuEffect::StartLoadVault || e == MenuEffect::StartSaveVault {
            self.vault_loading = true;
        }
        e
    }

    /// The new-vault dialog handed back a name: the vault is created in the
    /// background.
    pub fn on_new_vault_name(&mut self)
        ensures
            final(self).vault_loading,
            final(self).msg_dialogs@ == old(self).msg_dialogs@,
    {
        self.vault_loading = true;
    }

    /// At start, with the path of the vault that was open when the window
    /// last closed: whether to load it, which marks a vault task as running.
    pub fn restore(&mut self, stored_path: &Option<String>) -> (load: bool)
        ensures
            load == stored_path is Some,
            final(self).vault_loading == (old(self).vault_loading || load),
            final(self).msg_dialogs@ == old(self).msg_dialogs@,
    {
        let load = stored_path.is_some();
        if load {
            self.vault_loading = true;
        }
        load
    }

    /// Keeps the dialogs that are still open after this frame: `open` says
    /// it for each dialog, in order (a dialog without an entry closes).
    pub fn close_dialogs(&mut self, open: &[bool])
        ensures
            final(self).vault_loading == old(self).vault_loading,
            final(self).msg_dialogs@ == kept(old(self).msg_dialogs@, open@),
    {
        let ghost dialogs = self.msg_dialogs@;
        let mut i: usize = self.msg_dialogs.len();
        assert(self.msg_dialogs@ =~= dialogs.take(i as int) + kept_from(dialogs, open@, i as int));
        while i > 0
            invariant
                i <= dialogs.len(),
                self.vault_loading == old(self).vault_loading,
                dialogs == old(self).msg_dialogs@,
                self.msg_dialogs@ == dialogs.take(i as int) + kept_from(dialogs, open@, i as int),
            decreases i,
        {
            i = i - 1;
            let ghost rest = kept_from(dialogs, open@, i + 1);
            assert(dialogs.take(i + 1) =~= dialogs.take(i as int).push(dialogs[i as int]));
            let keep = i < open.len() && open[i];
            if !keep {
                self.msg_dialogs.remove(i);
                assert(self.msg_dialogs@ =~= dialogs.take(i as int) + rest);
            } else {
                assert(self.msg_dialogs@ =~= dialogs.take(i as int) + (seq![dialogs[i as int]] + rest));
            }
        }
        assert(dialogs.take(0) =~= Seq::<MessageDialog>::empty());
        assert(self.msg_dialogs@ =~= kept(dialogs, open@));
    }
}

/// The path the view scrolls back to: the first visible one, or the empty
/// path when none was recorded.
pub open spec fn scroll_target(first_visible: Option<String>) -> Seq<char> {
    match first_visible {
        Some(p) => p@,
        None => Seq::empty(),
    }
}

/// What the main window remembers between frames to keep the first visible
/// item of the thumbnail list in view when the grid is laid out again.
pub struct FirstVisibleTracker {
    /// The view must scroll back to the first visible item.
    pub set_scroll: bool,
    /// Until when no item is recorded after scrolling, in milliseconds since
    /// the Unix epoch.
    pub cooldown_until_ms: Option<i64>,
    /// The path of the item that was first visible in the last frame.
    pub first_visible: Option<String>,
    /// The path of the item first found visible in this frame.
    pub next_first_visible: Option<String>,
}

impl FirstVisibleTracker {
    /// Nothing recorded, nothing to scroll to.
    pub fn new() -> (t: Self)
        ensures
            !t.set_scroll,
            t.cooldown_until_ms is None,
            t.first_visible is None,
            t.next_first_visible is None,
    {
        FirstVisibleTracker {
            set_scroll: false,
            cooldown_until_ms: None,
            first_visible: None,
            next_first_visible: None,
        }
    }

    /// The grid was laid out again: the view must scroll back.
    pub fn layout_changed(&mut self)
        ensures
            final(self).set_scroll,
            final(self).cooldown_until_ms == old(self).cooldown_until_ms,
            final(self).first_visible == old(self).first_visible,
            final(self).next_first_visible == old(self).next_first_visible,
    {
        self.set_scroll = true;
    }

    /// One item of the list, given readings of the clock: when a scroll is
    /// due and the item is the first visible one, the view scrolls to it and
    /// records nothing until `started` plus the cooldown; otherwise, once the
    /// cooldown is over (`earliest` stands in for its end when there is
    /// none), the first item whose bottom lies below the top of the view by
    /// more than the threshold (`past_threshold`) is recorded. Hands back
    /// whether to scroll to the item.
    pub fn visit_item_at(
        &mut self,
        path: &String,
        past_threshold: bool,
        earliest: i64,
        now: i64,
        started: i64,
    ) -> (scroll: bool)
        requires
            -time_bound() < started < time_bound(),
        ensures
            scroll == (old(self).set_scroll && path@ == scroll_target(old(self).first_visible)),
            final(self).first_visible == old(self).first_visible,
            scroll ==> !final(self).set_scroll && final(self).cooldown_until_ms == Some(
                (started + SCROLL_COOLDOWN_MS) as i64,
            ) && final(self).next_first_visible == old(self).next_first_visible,
            !scroll ==> final(self).set_scroll == old(self).set_scroll
                && final(self).cooldown_until_ms == old(self).cooldown_until_ms,
            !scroll ==> final(self).next_first_visible == (if (match old(self).cooldown_until_ms {
                Some(t) => t,
                None => earliest,
            }) <= now && past_threshold && old(self).next_first_visible is None {
                Some(*path)
            } else {
                old(self).next_first_visible
            }),
    {
        let is_target = match &self.first_visible {
            Some(p) => *p == *path,
            None => {
                let e = path.as_str().is_empty();
                assert(e ==> path@ =~= Seq::<char>::empty());
                e
            },
        };
        if self.set_scroll && is_target {
            self.set_scroll = false;
            self.cooldown_until_ms = Some(started + SCROLL_COOLDOWN_MS);
            true
        } else {
            let until = match self.cooldown_until_ms {
                Some(t) => t,
                None => earliest,
            };
            if until <= now && past_threshold && self.next_first_visible.is_none() {
                self.next_first_visible = Some(path.clone());
            }
            false
        }
    }

    /// One item of the list, with the clock read as it goes.
    pub fn visit_item(&mut self, path: &String, past_threshold: bool) -> (scroll: bool)
        ensures
            scroll == (old(self).set_scroll && path@ == scroll_target(old(self).first_visible)),
            final(self).first_visible == old(self).first_visible,
            scroll ==> !final(self).set_scroll && final(self).cooldown_until_ms is Some
                && final(self).next_first_visible == old(self).next_first_visible,
            !scroll ==> final(self).set_scroll == old(self).set_scroll
                && final(self).cooldown_until_ms == old(self).cooldown_until_ms,
            !scroll ==> (final(self).next_first_visible == old(self).next_first_visible
                || (final(self).next_first_visible == Some(*path) && past_threshold
                && old(self).next_first_visible is None)),
    {
        let earliest = now_millis();
        let now = now_millis();
        let started = now_millis();
        self.visit_item_at(path, past_threshold, earliest, now, started)
    }

    /// The end of the list: the item first found visible in this frame
    /// becomes the first visible one.
    pub fn finish_frame(&mut self)
        ensures
            final(self).first_visible == old(self).next_first_visible,
            final(self).next_first_visible is None,
            final(self).set_scroll == old(self).set_scroll,
            final(self).cooldown_until_ms == old(self).cooldown_until_ms,
    {
        self.first_visible = self.next_first_visible.take();
    }
}

} // verus!
