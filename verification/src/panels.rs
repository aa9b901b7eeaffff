use vstd::prelude::*;
use vstd::string::StringExecFns;
use crate::link::elapsed_ms;

verus! {

// State carried by the presentation collaborators that is worth pinning
// down: window toggles and the note editor's save/reload bookkeeping. The
// drawing itself stays outside the core; these types hold the decisions
// the widgets make between frames.

/// The drone-rendering window's toggle state.
#[derive(Clone, Copy, PartialEq, Eq, Structural, Debug)]
pub struct DroneView {
    pub is_open: bool,
}

impl Default for DroneView {
    /// Starts closed.
    fn default() -> (r: DroneView)
        ensures
            !r.is_open,
    {
        DroneView { is_open: false }
    }
}

impl DroneView {
    /// What the open/close button does.
    pub fn toggle(&mut self)
        ensures
            final(self).is_open == !old(self).is_open,
    {
        self.is_open = !self.is_open;
    }
}

/// The stick-display window's toggle state.
#[derive(Clone, Copy, PartialEq, Eq, Structural, Debug)]
pub struct RCView {
    pub is_open: bool,
}

impl Default for RCView {
    /// Starts closed.
    fn default() -> (r: RCView)
        ensures
            !r.is_open,
    {
        RCView { is_open: false }
    }
}

impl RCView {
    /// What the open/close button does.
    pub fn toggle(&mut self)
        ensures
            final(self).is_open == !old(self).is_open,
    {
        self.is_open = !self.is_open;
    }
}

/// How often the note editor saves on its own, in milliseconds.
pub const AUTOSAVE_INTERVAL_MS: u64 = 30000;

/// How often the note editor checks the file for outside changes.
pub const AUTORELOAD_INTERVAL_MS: u64 = 5000;

/// The note editor's state between frames. Reading and writing the file
/// stays with the caller; this type decides when to save, when to check,
/// and whether an observed modification time calls for a reload.
pub struct NoteEditorView {
    pub is_open: bool,
    pub content: String,
    pub status_message: String,
    pub last_save_ms: u64,
    pub last_reload_ms: u64,
    /// Modification time of the file as last seen, in milliseconds, if the
    /// file could be inspected at all.
    pub last_modified_ms: Option<u64>,
}

impl NoteEditorView {
    /// An editor over content read (or defaulted) by the caller.
    pub fn new(content: String, last_modified_ms: Option<u64>, now_ms: u64) -> (r: NoteEditorView)
        ensures
            !r.is_open,
            r.content@ == content@,
            r.status_message@ == Seq::<char>::empty(),
            r.last_save_ms == now_ms,
            r.last_reload_ms == now_ms,
            r.last_modified_ms == last_modified_ms,
    {
        NoteEditorView {
            is_open: false,
            content,
            status_message: String::new(),
            last_save_ms: now_ms,
            last_reload_ms: now_ms,
            last_modified_ms,
        }
    }

    /// What the open/close button does.
    pub fn toggle(&mut self)
        ensures
            final(self).is_open == !old(self).is_open,
            final(self).content@ == old(self).content@,
            final(self).status_message@ == old(self).status_message@,
            final(self).last_save_ms == old(self).last_save_ms,
            final(self).last_reload_ms == old(self).last_reload_ms,
            final(self).last_modified_ms == old(self).last_modified_ms,
    {
        self.is_open = !self.is_open;
    }

    /// True once the autosave interval has passed since the last save.
    pub fn autosave_due(&self, now_ms: u64) -> (r: bool)
        ensures
            r == (elapsed_ms(now_ms, self.last_save_ms) >= AUTOSAVE_INTERVAL_MS),
    {
        now_ms >= self.last_save_ms && now_ms - self.last_save_ms >= AUTOSAVE_INTERVAL_MS
    }

    /// True once the reload-check interval has passed since the last check.
    pub fn autoreload_due(&self, now_ms: u64) -> (r: bool)
        ensures
            r == (elapsed_ms(now_ms, self.last_reload_ms) >= AUTORELOAD_INTERVAL_MS),
    {
        now_ms >= self.last_reload_ms && now_ms - self.last_reload_ms >= AUTORELOAD_INTERVAL_MS
    }

    /// Whether an observed modification time calls for a reload: yes for
    /// any observed time if none was recorded, yes for a strictly newer
    /// one, and never when the file could not be inspected.
    pub fn reload_needed(&self, observed_ms: Option<u64>) -> (r: bool)
        ensures
            r == match observed_ms {
                Option::Some(m) => match self.last_modified_ms {
                    Option::Some(last) => m > last,
                    Option::None => true,
                },
                Option::None => false,
            },
    {
        match observed_ms {
            Option::Some(m) => match self.last_modified_ms {
                Option::Some(last) => m > last,
                Option::None => true,
            },
            Option::None => false,
        }
    }

    /// Records a completed save and its observed modification time.
    pub fn mark_saved(&mut self, now_ms: u64, observed_ms: Option<u64>)
        ensures
            final(self).last_save_ms == now_ms,
            final(self).last_modified_ms == observed_ms,
            final(self).status_message@ == "File saved successfully"@,
            final(self).is_open == old(self).is_open,
            final(self).content@ == old(self).content@,
            final(self).last_reload_ms == old(self).last_reload_ms,
    {
        self.last_save_ms = now_ms;
        self.last_modified_ms = observed_ms;
        self.status_message = String::from_str("File saved successfully");
    }

    /// Takes freshly read content in after the operator asked for a
    /// reload, replacing the buffer wholesale.
    pub fn apply_reload(&mut self, content: String, observed_ms: Option<u64>, now_ms: u64)
        ensures
            final(self).content@ == content@,
            final(self).last_reload_ms == now_ms,
            final(self).last_modified_ms == observed_ms,
            final(self).status_message@ == "File reloaded successfully"@,
            final(self).is_open == old(self).is_open,
            final(self).last_save_ms == old(self).last_save_ms,
    {
        self.content = content;
        self.last_reload_ms = now_ms;
        self.last_modified_ms = observed_ms;
        self.status_message = String::from_str("File reloaded successfully");
    }

    /// Takes freshly read content in after `reload_needed` spotted an
    /// outside change, replacing the buffer wholesale; the status message
    /// tells the operator the reload happened on its own.
    pub fn apply_auto_reload(&mut self, content: String, observed_ms: Option<u64>, now_ms: u64)
        ensures
            final(self).content@ == content@,
            final(self).last_reload_ms == now_ms,
            final(self).last_modified_ms == observed_ms,
            final(self).status_message@ == "File automatically reloaded due to external changes"@,
            final(self).is_open == old(self).is_open,
            final(self).last_save_ms == old(self).last_save_ms,
    {
        self.content = content;
        self.last_reload_ms = now_ms;
        self.last_modified_ms = observed_ms;
        self.status_message = String::from_str(
            "File automatically reloaded due to external changes",
        );
    }
}

} // verus!
