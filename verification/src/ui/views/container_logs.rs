//! Scrolling state of the container log view.
use vstd::prelude::*;
use crate::localization::Language;
use crate::text::{chars_of, contains, contains_chars, lowercase, to_lowercase};

verus! {

/// What the log view shows: the lines received so far, the first line on
/// screen, and whether the view follows new lines as they arrive.
pub struct LogsViewState {
    pub container_id: String,
    pub container_name: String,
    pub lines: Vec<String>,
    pub scroll: usize,
    pub follow: bool,
    pub lang: Language,
}

/// The highest first line that still fills a screen of `visible` rows.
pub open spec fn max_scroll(len: nat, visible: nat) -> nat {
    if len > visible { (len - visible) as nat } else { 0 }
}

/// The view after one step up: one line higher unless at the top, no longer
/// following.
pub open spec fn after_scroll_up(l: LogsViewState) -> LogsViewState {
    LogsViewState { scroll: if l.scroll > 0 { (l.scroll - 1) as usize } else { 0 }, follow: false, ..l }
}

/// The view after one step down on a screen of `visible` rows.
pub open spec fn after_scroll_down(l: LogsViewState, visible: usize) -> LogsViewState {
    LogsViewState {
        scroll: if (l.scroll as nat) < max_scroll(l.lines@.len(), visible as nat) {
            (l.scroll + 1) as usize
        } else {
            l.scroll
        },
        ..l
    }
}

/// The view after the follow key: following flips, and turning it on jumps
/// past the last line.
pub open spec fn after_toggle_follow(l: LogsViewState) -> LogsViewState {
    LogsViewState {
        follow: !l.follow,
        scroll: if !l.follow { l.lines@.len() as usize } else { l.scroll },
        ..l
    }
}

impl LogsViewState {
    /// An empty view of a container's logs, at the top and not following.
    pub fn new(container_id: String, container_name: String, lang: Language) -> (s: Self)
        ensures
            s.container_id == container_id,
            s.container_name == container_name,
            s.lines@.len() == 0,
            s.scroll == 0,
            !s.follow,
            s.lang == lang,
    {
        LogsViewState { container_id, container_name, lines: Vec::new(), scroll: 0, follow: false, lang }
    }

    /// Moves one line up (staying at the top when already there) and stops
    /// following.
    pub fn scroll_up(&mut self)
        ensures
            *final(self) == after_scroll_up(*old(self)),
    {
        self.scroll = self.scroll.saturating_sub(1);
        self.follow = false;
    }

    /// Moves one line down unless the last screen of `visible_rows` lines is
    /// already shown.
    pub fn scroll_down(&mut self, visible_rows: usize)
        ensures
            *final(self) == after_scroll_down(*old(self), visible_rows),
    {
        let max = self.lines.len().saturating_sub(visible_rows);
        if self.scroll < max {
            self.scroll += 1;
        }
    }

    /// Switches following on or off; switching it on jumps to the end.
    pub fn toggle_follow(&mut self)
        ensures
            *final(self) == after_toggle_follow(*old(self)),
    {
        self.follow = !self.follow;
        if self.follow {
            self.scroll = self.lines.len();
        }
    }

    /// Appends a line; while following, scrolls so that the last screen of
    /// `visible_rows` lines is shown.
    pub fn push_line(&mut self, line: String, visible_rows: usize)
        ensures
            final(self).lines@ == old(self).lines@.push(line),
            final(self).scroll == if old(self).follow {
                max_scroll(final(self).lines@.len(), visible_rows as nat) as int
            } else {
                old(self).scroll as int
            },
            final(self).follow == old(self).follow,
            final(self).container_id == old(self).container_id,
            final(self).container_name == old(self).container_name,
            final(self).lang == old(self).lang,
    {
        self.lines.push(line);
        if self.follow {
            self.scroll = self.lines.len().saturating_sub(visible_rows);
        }
    }

    /// Appends the lines fetched when the view opens and shows the last
    /// screen of `visible_rows` lines.
    pub fn load_history(&mut self, fetched: Vec<String>, visible_rows: usize)
        ensures
            final(self).lines@ == old(self).lines@ + fetched@,
            final(self).scroll == max_scroll(final(self).lines@.len(), visible_rows as nat),
            final(self).follow == old(self).follow,
            final(self).container_id == old(self).container_id,
            final(self).container_name == old(self).container_name,
            final(self).lang == old(self).lang,
    {
        let ghost start = self.lines@;
        let mut k: usize = 0;
        while k < fetched.len()
            invariant
                k <= fetched@.len(),
                self.lines@ == start + fetched@.take(k as int),
                self.follow == old(self).follow,
                self.container_id == old(self).container_id,
                self.container_name == old(self).container_name,
                self.lang == old(self).lang,
            decreases fetched.len() - k,
        {
            self.lines.push(fetched[k].clone());
            k += 1;
            assert(self.lines@ =~= start + fetched@.take(k as int));
        }
        assert(fetched@.take(fetched@.len() as int) =~= fetched@);
        self.scroll = self.lines.len().saturating_sub(visible_rows);
    }
}

/// Scrolling down never passes the last full screen, and scrolling back up
/// after a step down returns to the same line.
pub proof fn law_log_scroll(scroll: nat, len: nat, visible: nat)
    requires
        scroll <= max_scroll(len, visible),
    ensures
        ({
            let down = if scroll < max_scroll(len, visible) { scroll + 1 } else { scroll };
            &&& down <= max_scroll(len, visible)
            &&& (scroll < max_scroll(len, visible) ==> down - 1 == scroll)
        }),
{
}

/// While the view follows, the newest line is always on screen after it
/// arrives: the first shown line plus the screen height reaches the end.
pub proof fn law_follow_shows_last_line(len: nat, visible: nat)
    ensures
        max_scroll(len, visible) + visible >= len,
        max_scroll(len, visible) <= len,
{
}

/// How a log line is highlighted.
#[derive(Clone, Copy, Debug, PartialEq, Eq, Structural)]
pub enum LogLevel {
    Error,
    Warning,
    Info,
    Plain,
}

/// The level a line reads as, by the words its lowercase form contains:
/// `error`, `fatal` or `panic`; then `warn`; then `info`.
pub open spec fn log_level_of(line: Seq<char>) -> LogLevel {
    let l = lowercase(line);
    if contains(l, "error"@) || contains(l, "fatal"@) || contains(l, "panic"@) {
        LogLevel::Error
    } else if contains(l, "warn"@) {
        LogLevel::Warning
    } else if contains(l, "info"@) {
        LogLevel::Info
    } else {
        LogLevel::Plain
    }
}

/// Classifies a log line for highlighting.
pub fn log_level(line: &str) -> (r: LogLevel)
    ensures
        r == log_level_of(line@),
{
    let low = to_lowercase(line);
    let l = chars_of(low.as_str());
    let has = |w: &str| -> (b: bool)
        ensures
            b == contains(l@, w@),
        { contains_chars(l.as_slice(), chars_of(w).as_slice()) };
    if has("error") || has("fatal") || has("panic") {
        LogLevel::Error
    } else if has("warn") {
        LogLevel::Warning
    } else if has("info") {
        LogLevel::Info
    } else {
        LogLevel::Plain
    }
}

} // verus!
