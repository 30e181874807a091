//! The decisions of the clipboard monitor. The loop that sleeps, reads and
//! writes the system clipboard runs outside; after each read it asks
//! `poll` what to do, and after a write-back it reports the outcome to
//! `write_finished`.

use crate::recipe::Recipe;
use vstd::prelude::*;

verus! {

/// Events emitted by the clipboard monitor
#[derive(Debug, Clone)]
pub enum ClipboardEvent {
    /// Clipboard content changed
    Changed(String),
    /// Clipboard was transformed
    Transformed { original: String, result: String },
    /// Error occurred
    Error(String),
}

/// What the loop is to do after reading the clipboard.
#[derive(Debug, Clone)]
pub enum TickAction {
    /// The clipboard holds what was last seen: nothing to report.
    Idle,
    /// The clipboard changed and stays as it is: report `Changed(current)`.
    Report { current: String },
    /// The clipboard changed and the active recipe rewrites it: report
    /// `Changed(original)`, write `result` back, then call `write_finished`.
    Rewrite { original: String, result: String },
}

/// Whether a read differs from the snapshot.
pub open spec fn changed(last: Seq<char>, current: Seq<char>) -> bool {
    current != last
}

/// The text to write back for `current`: the active recipe's result, when
/// transformation is enabled, a recipe is active and its result differs.
pub open spec fn rewrite_target(enabled: bool, current: Seq<char>, recipe: Option<Recipe>) -> Option<
    Seq<char>,
> {
    match recipe {
        Some(r) => if enabled && r.spec_apply(current) != current {
            Some(r.spec_apply(current))
        } else {
            None
        },
        None => None,
    }
}

/// The snapshot after a poll: unchanged while a write-back is pending or
/// nothing changed, else the text read.
pub open spec fn last_after_poll(
    last: Seq<char>,
    enabled: bool,
    current: Seq<char>,
    recipe: Option<Recipe>,
) -> Seq<char> {
    if !changed(last, current) || rewrite_target(enabled, current, recipe) is Some {
        last
    } else {
        current
    }
}

/// The snapshot after a write-back: the written text when the write
/// succeeded, else the text that was read.
pub open spec fn last_after_write(original: Seq<char>, result: Seq<char>, ok: bool) -> Seq<char> {
    if ok {
        result
    } else {
        original
    }
}

/// The recipe behind an optional reference.
pub open spec fn deref_recipe(recipe: Option<&Recipe>) -> Option<Recipe> {
    match recipe {
        Some(r) => Some(*r),
        None => None,
    }
}

/// The state of the clipboard monitor: the snapshot it compares against,
/// and its two flags.
pub struct ClipboardManager {
    running: bool,
    last_content: String,
    transform_enabled: bool,
}

impl ClipboardManager {
    /// The last text observed or written.
    pub closed spec fn last(&self) -> Seq<char> {
        self.last_content@
    }

    /// Whether automatic transformation is enabled.
    pub closed spec fn enabled(&self) -> bool {
        self.transform_enabled
    }

    /// Whether the monitor is meant to run.
    pub closed spec fn running(&self) -> bool {
        self.running
    }

    /// A stopped monitor with an empty snapshot and transformation enabled.
    pub fn new() -> (r: ClipboardManager)
        ensures
            r.last().len() == 0,
            r.enabled(),
            !r.running(),
    {
        ClipboardManager { running: false, last_content: String::new(), transform_enabled: true }
    }

    /// Enables or disables automatic transformation; change detection goes
    /// on either way.
    pub fn set_transform_enabled(&mut self, enabled: bool)
        ensures
            final(self).enabled() == enabled,
            final(self).last() == old(self).last(),
            final(self).running() == old(self).running(),
    {
        self.transform_enabled = enabled;
    }

    /// Whether automatic transformation is enabled.
    pub fn is_transform_enabled(&self) -> (r: bool)
        ensures
            r == self.enabled(),
    {
        self.transform_enabled
    }

    /// Marks the monitor running; the snapshot becomes the initial read of
    /// the clipboard when there is one and is left as it is otherwise.
    pub fn start_monitoring(&mut self, initial: Option<String>)
        ensures
            final(self).running(),
            final(self).enabled() == old(self).enabled(),
            initial matches Some(s) ==> final(self).last() == s@,
            initial is None ==> final(self).last() == old(self).last(),
    {
        self.running = true;
        if let Some(s) = initial {
            self.last_content = s;
        }
    }

    /// Requests the loop to end; asking twice does no harm.
    pub fn stop_monitoring(&mut self)
        ensures
            !final(self).running(),
            final(self).enabled() == old(self).enabled(),
            final(self).last() == old(self).last(),
    {
        self.running = false;
    }

    /// Whether the monitor is meant to run.
    pub fn is_running(&self) -> (r: bool)
        ensures
            r == self.running(),
    {
        self.running
    }

    /// Decides what to do with a text just read from the clipboard, given
    /// the active recipe if any.
    pub fn poll(&mut self, current: &str, recipe: Option<&Recipe>) -> (r: TickAction)
        ensures
            (r is Idle) <==> !changed(old(self).last(), current@),
            changed(old(self).last(), current@) ==> (rewrite_target(
                old(self).enabled(),
                current@,
                deref_recipe(recipe),
            ) matches Some(t) ==> (r matches TickAction::Rewrite { original, result }
                && original@ == current@ && result@ == t)),
            rewrite_target(old(self).enabled(), current@, deref_recipe(recipe)) is None && changed(
                old(self).last(),
                current@,
            ) ==> (r matches TickAction::Report { current: c } && c@ == current@),
            final(self).last() == last_after_poll(
                old(self).last(),
                old(self).enabled(),
                current@,
                deref_recipe(recipe),
            ),
            final(self).enabled() == old(self).enabled(),
            final(self).running() == old(self).running(),
    {
        let now = current.to_owned();
        if now == self.last_content {
            return TickAction::Idle;
        }
        if self.transform_enabled {
            if let Some(r) = recipe {
                let transformed = r.apply(current);
                if transformed != now {
                    return TickAction::Rewrite { original: now, result: transformed };
                }
            }
        }
        self.last_content = now.clone();
        TickAction::Report { current: now }
    }

    /// Records how a write-back ended and returns the event to emit: on
    /// success the written text becomes the snapshot, so that reading it
    /// again is no change; on failure the text that was read does.
    pub fn write_finished(&mut self, original: &str, result: &str, error: Option<String>) -> (r:
        ClipboardEvent)
        ensures
            final(self).last() == last_after_write(original@, result@, error is None),
            error is None ==> (r matches ClipboardEvent::Transformed { original: o, result: t }
                && o@ == original@ && t@ == result@),
            error matches Some(e) ==> (r matches ClipboardEvent::Error(m) && m@ == e@),
            final(self).enabled() == old(self).enabled(),
            final(self).running() == old(self).running(),
    {
        match error {
            None => {
                self.last_content = result.to_owned();
                ClipboardEvent::Transformed { original: original.to_owned(), result: result.to_owned() }
            },
            Some(e) => {
                self.last_content = original.to_owned();
                ClipboardEvent::Error(e)
            },
        }
    }
}

impl Default for ClipboardManager {
    fn default() -> (r: ClipboardManager)
        ensures
            r.last().len() == 0,
            r.enabled(),
            !r.running(),
    {
        ClipboardManager::new()
    }
}

/// Echo avoidance: when the active recipe rewrites an external change `c`
/// into a different text and the write-back succeeds, reading that text on
/// the next tick is no change, so no new `Changed` event is emitted.
pub proof fn lemma_no_echo(last: Seq<char>, c: Seq<char>, recipe: Recipe)
    requires
        changed(last, c),
        recipe.spec_apply(c) != c,
    ensures
        rewrite_target(true, c, Some(recipe)) == Some(recipe.spec_apply(c)),
        last_after_poll(last, true, c, Some(recipe)) == last,
        !changed(last_after_write(c, recipe.spec_apply(c), true), recipe.spec_apply(c)),
{
}

} // verus!
