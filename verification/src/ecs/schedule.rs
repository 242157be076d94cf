//! What runs in a frame: the conditions under which each step is taken, and the
//! settings files that are watched.
use vstd::prelude::*;

verus! {

/// How often slow checks run as a backstop, in seconds.
pub const BACKSTOP_SECS: u64 = 5;

/// How often the power mode is looked up, in seconds.
pub const LOW_POWER_MODE_CHECK: u64 = 60;

/// How often landings are confirmed, in milliseconds.
pub const VERIFY_PERIOD_MS: u64 = 100;

/// Whether no finger drives the strip on screen; none where it does not scroll.
pub fn not_swiping(user_swiping: Option<bool>) -> (free: bool)
    ensures
        free == (user_swiping != Some(true)),
{
    match user_swiping {
        Some(swiping) => !swiping,
        None => true,
    }
}

/// What changed since the last frame, as far as overlays and the menu bar go.
#[derive(Clone, Copy, Debug, PartialEq, Eq, Structural)]
pub struct FrameChanges {
    /// The layout of the strip on screen.
    pub strip_changed: bool,
    pub focus_gained: bool,
    pub focus_lost: bool,
    /// Another strip is on screen.
    pub workspace_changed: bool,
    /// The frame of the focused window.
    pub focused_moved: bool,
    /// The strip on screen scrolled.
    pub strip_scrolled: bool,
    /// A drag that moves the layout is held.
    pub drag_held: bool,
    pub window_added: bool,
    pub window_removed: bool,
    /// The frame of some window.
    pub window_moved: bool,
    /// Some window is driven or confirmed.
    pub window_in_flight: bool,
    pub drag_ended: bool,
    pub mission_control_changed: bool,
    pub displays_changed: bool,
    /// The record of frames has news.
    pub snapshot_advanced: bool,
    pub strip_added: bool,
    pub strip_removed: bool,
}

impl FrameChanges {
    /// What the menu bar and the overlays show of focus and layout is old.
    pub open spec fn indicator_dirty(self) -> bool {
        self.strip_changed || self.focus_gained || self.focus_lost || self.workspace_changed
            || self.focused_moved
    }

    pub open spec fn overlays_dirty(self) -> bool {
        self.indicator_dirty() || self.strip_scrolled || self.drag_held || self.window_added
            || self.window_removed || self.window_moved || self.window_in_flight || self.drag_ended
            || self.mission_control_changed || self.displays_changed || self.snapshot_advanced
    }

    pub open spec fn menu_bar_dirty(self) -> bool {
        self.indicator_dirty() || self.strip_added || self.strip_removed
    }

    pub fn vw_indicator_dirty(&self) -> (dirty: bool)
        ensures
            dirty == self.indicator_dirty(),
    {
        self.strip_changed || self.focus_gained || self.focus_lost || self.workspace_changed
            || self.focused_moved
    }

    /// Whether the overlays are drawn again: also while anything moves, when the
    /// set of windows changes, and when a drag that hid them ends.
    pub fn overlays_run(&self) -> (runs: bool)
        ensures
            runs == self.overlays_dirty(),
    {
        self.vw_indicator_dirty() || self.strip_scrolled || self.drag_held || self.window_added
            || self.window_removed || self.window_moved || self.window_in_flight || self.drag_ended
            || self.mission_control_changed || self.displays_changed || self.snapshot_advanced
    }

    /// Whether the menu bar is drawn again: it also counts the virtual strips.
    pub fn menu_bar_runs(&self) -> (runs: bool)
        ensures
            runs == self.menu_bar_dirty(),
    {
        self.vw_indicator_dirty() || self.strip_added || self.strip_removed
    }
}

/// Whatever dirties the focus and layout indicator dirties both the overlays and
/// the menu bar.
pub proof fn indicators_redraw_everywhere(changes: FrameChanges)
    requires
        changes.indicator_dirty(),
    ensures
        changes.overlays_dirty(),
        changes.menu_bar_dirty(),
{
}

/// Whether the record of frames changed since the last look; no record counts as
/// the zeroth.
pub fn snapshot_advanced(changed_epoch: Option<u64>, last: &mut u64) -> (advanced: bool)
    ensures
        advanced == (changed_epoch.unwrap_or(0) != *old(last)),
        *final(last) == changed_epoch.unwrap_or(0),
{
    let epoch: u64 = match changed_epoch {
        Some(epoch) => epoch,
        None => 0,
    };
    let advanced = epoch != *last;
    *last = epoch;
    advanced
}

/// The state of the frame that decides what runs.
#[derive(Clone, Copy, Debug, PartialEq, Eq, Structural)]
pub struct ScheduleFacts {
    pub initializing: bool,
    /// Whether fingers drive the strip on screen, where it scrolls.
    pub user_swiping: Option<bool>,
    /// The settings say so; where there are none, tabs are on.
    pub native_tabs: Option<bool>,
    /// The backstop of the slow checks is due.
    pub backstop_due: bool,
    pub verify_due: bool,
    pub window_added: bool,
    /// A window closed, or another space or display came up.
    pub window_closed: bool,
}

/// The steps that are taken in a frame.
#[derive(Clone, Copy, Debug, PartialEq, Eq, Structural)]
pub struct FrameGates {
    /// The set-up goes on.
    pub setup: bool,
    /// New windows are looked at for tabs.
    pub detect_tabs: bool,
    /// Stray tabs are folded back.
    pub regroup_tabs: bool,
    /// Windows without a strip are tidied up.
    pub tidy: bool,
    /// Echoes of moves and resizes are taken in.
    pub echoes: bool,
    /// Places and sizes are written.
    pub commit: bool,
    /// Landings are confirmed.
    pub verify: bool,
}

/// Decides which steps are taken in a frame. Nothing is written or tidied up
/// during the set-up, and nothing fights a finger on the strip.
pub fn frame_gates(facts: &ScheduleFacts) -> (gates: FrameGates)
    ensures
        gates == (FrameGates {
            setup: facts.initializing,
            detect_tabs: facts.native_tabs != Some(false),
            regroup_tabs: facts.native_tabs != Some(false) && !facts.initializing
                && facts.user_swiping != Some(true) && (facts.backstop_due || facts.window_added),
            tidy: !facts.initializing && (facts.backstop_due || facts.window_closed),
            echoes: facts.user_swiping != Some(true),
            commit: !facts.initializing,
            verify: !facts.initializing && facts.verify_due,
        }),
{
    let free = not_swiping(facts.user_swiping);
    let tabs = match facts.native_tabs {
        Some(enabled) => enabled,
        None => true,
    };
    FrameGates {
        setup: facts.initializing,
        detect_tabs: tabs,
        regroup_tabs: tabs && !facts.initializing && free && (facts.backstop_due
            || facts.window_added),
        tidy: !facts.initializing && (facts.backstop_due || facts.window_closed),
        echoes: free,
        commit: !facts.initializing,
        verify: !facts.initializing && facts.verify_due,
    }
}

/// A settings file.
#[derive(Clone, Copy, Debug, PartialEq, Eq, Structural)]
pub enum ConfigFile {
    Settings,
    Script,
}

/// Why the set-up cannot begin.
#[derive(Clone, Copy, Debug, PartialEq, Eq, Structural)]
pub enum SetupError {
    /// There is no settings file to watch.
    NothingToWatch,
}

/// The files to watch.
#[derive(Clone, Copy, Debug, PartialEq, Eq, Structural)]
pub struct WatchPlan {
    pub primary: ConfigFile,
    pub other: Option<ConfigFile>,
}

/// Decides which settings files are watched: the settings before the script. A
/// script that is the same file is watched once.
pub fn plan_watch(has_settings: bool, has_script: bool, same_file: bool) -> (plan: Result<
    WatchPlan,
    SetupError,
>)
    ensures
        plan == (if has_settings {
            Ok::<WatchPlan, SetupError>(
                WatchPlan {
                    primary: ConfigFile::Settings,
                    other: if has_script && !same_file {
                        Some(ConfigFile::Script)
                    } else {
                        None
                    },
                },
            )
        } else if has_script {
            Ok::<WatchPlan, SetupError>(
                WatchPlan { primary: ConfigFile::Script, other: None },
            )
        } else {
            Err::<WatchPlan, SetupError>(SetupError::NothingToWatch)
        }),
{
    if has_settings {
        let other = if has_script && !same_file {
            Some(ConfigFile::Script)
        } else {
            None
        };
        Ok(WatchPlan { primary: ConfigFile::Settings, other })
    } else if has_script {
        Ok(WatchPlan { primary: ConfigFile::Script, other: None })
    } else {
        Err(SetupError::NothingToWatch)
    }
}

/// The files to watch again beside the one that changed: a file that is written
/// anew breaks the watch of both.
pub fn rewatch_configs(changed: ConfigFile, has_settings: bool, has_script: bool) -> (others: Vec<
    ConfigFile,
>)
    ensures
        others@ == (match changed {
            ConfigFile::Settings => if has_script {
                seq![ConfigFile::Script]
            } else {
                Seq::empty()
            },
            ConfigFile::Script => if has_settings {
                seq![ConfigFile::Settings]
            } else {
                Seq::empty()
            },
        }),
{
    let mut others: Vec<ConfigFile> = Vec::new();
    match changed {
        ConfigFile::Settings => {
            if has_script {
                others.push(ConfigFile::Script);
            }
        },
        ConfigFile::Script => {
            if has_settings {
                others.push(ConfigFile::Settings);
            }
        },
    }
    assert(others@ =~= (match changed {
        ConfigFile::Settings => if has_script {
            seq![ConfigFile::Script]
        } else {
            Seq::empty()
        },
        ConfigFile::Script => if has_settings {
            seq![ConfigFile::Settings]
        } else {
            Seq::empty()
        },
    }));
    others
}

} // verus!
