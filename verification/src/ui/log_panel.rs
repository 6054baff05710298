//! The execution log: leveled, timestamped messages, the newest last, with a
//! bounded length.
use vstd::prelude::*;
use crate::ui::theme::{Rgb, danger_color, get_secondary_text_color, success_color, warning_color};

verus! {

/// Severity of a log message.
#[derive(Debug, Clone, Copy, PartialEq)]
pub enum LogLevel {
    Info,
    Success,
    Warning,
    Error,
}

/// The tag shown for a level.
pub open spec fn level_label(level: LogLevel) -> Seq<char> {
    match level {
        LogLevel::Info => "INFO"@,
        LogLevel::Success => "OK"@,
        LogLevel::Warning => "WARN"@,
        LogLevel::Error => "ERROR"@,
    }
}

impl LogLevel {
    /// The colour this level is shown in: informational messages in secondary
    /// text, the others in the success, warning and danger colours.
    pub fn color(&self, dark_mode: bool) -> (c: Rgb)
        ensures
            c == match *self {
                LogLevel::Info => if dark_mode {
                    Rgb { r: 0x94, g: 0xA1, b: 0xB8 }
                } else {
                    Rgb { r: 0x64, g: 0x74, b: 0x8B }
                },
                LogLevel::Success => Rgb { r: 0x10, g: 0xB9, b: 0x81 },
                LogLevel::Warning => Rgb { r: 0xF5, g: 0x9E, b: 0x0B },
                LogLevel::Error => Rgb { r: 0xF4, g: 0x3F, b: 0x5E },
            },
    {
        match *self {
            LogLevel::Info => get_secondary_text_color(dark_mode),
            LogLevel::Success => success_color(),
            LogLevel::Warning => warning_color(),
            LogLevel::Error => danger_color(),
        }
    }

    /// The tag shown for this level.
    pub fn label(&self) -> (s: &'static str)
        ensures
            s@ == level_label(*self),
    {
        match self {
            LogLevel::Info => "INFO",
            LogLevel::Success => "OK",
            LogLevel::Warning => "WARN",
            LogLevel::Error => "ERROR",
        }
    }
}

/// A two-digit field of a clock reading.
pub open spec fn two_digits(s: Seq<char>, at: int) -> bool {
    '0' <= s[at] <= '9' && '0' <= s[at + 1] <= '9'
}

/// A local wall-clock reading in the form `HH:MM:SS`.
pub open spec fn is_clock_text(s: Seq<char>) -> bool {
    &&& s.len() == 8
    &&& two_digits(s, 0)
    &&& s[2] == ':'
    &&& two_digits(s, 3)
    &&& s[5] == ':'
    &&& two_digits(s, 6)
}

/// The current local time formatted by `chrono` as `%H:%M:%S` (each field
/// zero-padded to two digits). It depends on the clock and the time zone, so
/// nothing is said of which time it is.
#[verifier::external_body]
fn local_clock_text() -> (s: String)
    ensures
        is_clock_text(s@),
{
    chrono::Local::now().format("%H:%M:%S").to_string()
}

/// One log message with the time it was logged.
#[derive(Debug, Clone)]
pub struct LogEntry {
    pub timestamp: String,
    pub level: LogLevel,
    pub message: String,
}

/// A log entry as plain values.
pub struct LogEntryView {
    pub timestamp: Seq<char>,
    pub level: LogLevel,
    pub message: Seq<char>,
}

impl DeepView for LogEntry {
    type V = LogEntryView;

    open spec fn deep_view(&self) -> LogEntryView {
        LogEntryView { timestamp: self.timestamp@, level: self.level, message: self.message@ }
    }
}

impl LogEntry {
    /// An entry stamped with the current local time.
    pub fn new(level: LogLevel, message: &str) -> (e: LogEntry)
        ensures
            e.level == level,
            e.message@ == message@,
            is_clock_text(e.timestamp@),
    {
        LogEntry { timestamp: local_clock_text(), level, message: message.to_owned() }
    }
}

/// The log keeps at most this many entries.
pub const MAX_LOG_ENTRIES: usize = 100;

/// The log: entries oldest first, never more than its capacity.
pub struct LogManager {
    entries: Vec<LogEntry>,
    max_entries: usize,
    history: Ghost<Seq<(LogLevel, Seq<char>)>>,
}

/// The entries after appending `e` to `old`, dropping the oldest when that
/// would exceed `max`.
pub open spec fn appended(old: Seq<LogEntryView>, e: LogEntryView, max: nat) -> Seq<LogEntryView> {
    if old.push(e).len() > max {
        old.push(e).drop_first()
    } else {
        old.push(e)
    }
}

/// A log's entries as (level, message) pairs, oldest first.
pub open spec fn messages(s: Seq<LogEntryView>) -> Seq<(LogLevel, Seq<char>)> {
    s.map_values(|e: LogEntryView| (e.level, e.message))
}

/// `s` with `x` appended, keeping only the last `max` items.
pub open spec fn bounded_push<T>(s: Seq<T>, x: T, max: nat) -> Seq<T> {
    if s.len() + 1 > max {
        s.push(x).drop_first()
    } else {
        s.push(x)
    }
}

/// Appending an entry appends its level and message.
pub proof fn lemma_messages_appended(old: Seq<LogEntryView>, e: LogEntryView, max: nat)
    ensures
        messages(appended(old, e, max)) == bounded_push(messages(old), (e.level, e.message), max),
{
    let f = |x: LogEntryView| (x.level, x.message);
    assert(old.push(e).map_values(f) =~= old.map_values(f).push(f(e)));
    assert(old.push(e).drop_first().map_values(f) =~= old.map_values(f).push(f(e)).drop_first());
}

/// `new` holds the newest entries of `old`, unchanged and in order, followed
/// by `n` newer ones.
pub open spec fn log_continues<T>(old: Seq<T>, new: Seq<T>, n: nat) -> bool {
    &&& new.len() <= old.len() + n
    &&& forall|i: int|
        0 <= i < new.len() - n ==> #[trigger] new[i] == old[old.len() + n - new.len() + i]
}

/// Appending an entry keeps the newest older entries as they were.
pub proof fn lemma_appended_continues(old: Seq<LogEntryView>, e: LogEntryView, max: nat)
    ensures
        log_continues(old, appended(old, e, max), 1),
{
}

/// A log that continues another, continued in turn, continues the first.
pub proof fn lemma_continues_trans<T>(a: Seq<T>, b: Seq<T>, c: Seq<T>, n1: nat, n2: nat)
    requires
        log_continues(a, b, n1),
        log_continues(b, c, n2),
    ensures
        log_continues(a, c, n1 + n2),
{
    assert forall|i: int| 0 <= i < c.len() - (n1 + n2) implies #[trigger] c[i] == a[a.len() + (n1
        + n2) - c.len() + i] by {
        let j = b.len() + n2 - c.len() + i;
        assert(c[i] == b[j]);
        assert(b[j] == a[a.len() + n1 - b.len() + j]);
    }
}

/// The items kept after logging `xs` one by one into an empty log that keeps
/// `max` items.
pub open spec fn replay<T>(xs: Seq<T>, max: nat) -> Seq<T>
    decreases xs.len(),
{
    if xs.len() == 0 {
        seq![]
    } else {
        bounded_push(replay(xs.drop_last(), max), xs.last(), max)
    }
}

/// The last `max` items of `xs` (all of them when there are fewer), in order.
pub open spec fn newest<T>(xs: Seq<T>, max: nat) -> Seq<T> {
    xs.skip(
        if xs.len() > max {
            xs.len() - max
        } else {
            0
        },
    )
}

/// The newest `n` entries of `s` (all of them when there are fewer) carry a
/// clock reading.
pub open spec fn newest_stamped(s: Seq<LogEntryView>, n: nat) -> bool {
    forall|i: int| 0 <= i < s.len() && s.len() - n <= i ==> is_clock_text(#[trigger] s[i].timestamp)
}

/// Stamped newest entries stay stamped when the log continues.
pub proof fn lemma_stamped_continues(b: Seq<LogEntryView>, c: Seq<LogEntryView>, n1: nat, n2: nat)
    requires
        newest_stamped(b, n1),
        log_continues(b, c, n2),
        newest_stamped(c, n2),
    ensures
        newest_stamped(c, n1 + n2),
{
    assert forall|i: int| 0 <= i < c.len() && c.len() - (n1 + n2) <= i implies is_clock_text(
        #[trigger] c[i].timestamp,
    ) by {
        if i < c.len() - n2 {
            let j = b.len() + n2 - c.len() + i;
            assert(c[i] == b[j]);
        }
    }
}

/// Logging messages one by one into an empty log that keeps `max` of them
/// leaves exactly the last `min(n, max)` messages, in the order they were
/// logged.
pub proof fn lemma_replay_keeps_last(xs: Seq<(LogLevel, Seq<char>)>, max: nat)
    requires
        max > 0,
    ensures
        replay(xs, max) == newest(xs, max),
        replay(xs, max).len() == if xs.len() > max {
            max
        } else {
            xs.len()
        },
    decreases xs.len(),
{
    if xs.len() > 0 {
        let p = xs.drop_last();
        lemma_replay_keeps_last(p, max);
        let k: int = if p.len() > max {
            p.len() - max
        } else {
            0
        };
        let r = p.skip(k);
        if r.len() + 1 > max {
            assert(r.push(xs.last()).drop_first() =~= xs.skip(k + 1));
        } else {
            assert(r.push(xs.last()) =~= xs.skip(k));
        }
    } else {
        assert(xs.skip(0) =~= seq![]);
    }
}

impl View for LogManager {
    type V = Seq<LogEntryView>;

    closed spec fn view(&self) -> Seq<LogEntryView> {
        self.entries.deep_view()
    }
}

impl Default for LogManager {
    fn default() -> (m: Self)
        ensures
            m@ == Seq::<LogEntryView>::empty(),
            m.capacity() == MAX_LOG_ENTRIES,
            m.history() == Seq::<(LogLevel, Seq<char>)>::empty(),
    {
        LogManager::new()
    }
}

impl LogManager {
    #[verifier::type_invariant]
    spec fn bounded(&self) -> bool {
        &&& self.max_entries == MAX_LOG_ENTRIES
        &&& self.entries.len() <= self.max_entries
        &&& messages(self.entries.deep_view()) == replay(self.history@, self.max_entries as nat)
    }

    /// Every message logged so far, oldest first, including those the log no
    /// longer keeps.
    pub closed spec fn history(&self) -> Seq<(LogLevel, Seq<char>)> {
        self.history@
    }

    /// How many entries the log keeps.
    pub closed spec fn capacity(&self) -> nat {
        self.max_entries as nat
    }

    /// An empty log that keeps the last hundred entries.
    pub fn new() -> (m: LogManager)
        ensures
            m@ == Seq::<LogEntryView>::empty(),
            m.capacity() == MAX_LOG_ENTRIES,
            m@.len() <= m.capacity(),
            m.history() == Seq::<(LogLevel, Seq<char>)>::empty(),
    {
        let ghost e: Seq<LogEntryView> = Seq::empty();
        assert(messages(e) =~= Seq::<(LogLevel, Seq<char>)>::empty());
        let v: Vec<LogEntry> = Vec::new();
        assert(v.deep_view() =~= e);
        LogManager { entries: v, max_entries: MAX_LOG_ENTRIES, history: Ghost(Seq::empty()) }
    }

    /// Appends a message stamped with the current time; when the log is full the
    /// oldest entry is dropped.
    pub fn log(&mut self, level: LogLevel, message: &str)
        ensures
            old(self).capacity() == MAX_LOG_ENTRIES,
            final(self).capacity() == old(self).capacity(),
            log_continues(old(self)@, final(self)@, 1),
            newest_stamped(final(self)@, 1),
            final(self).history() == old(self).history().push((level, message@)),
            messages(final(self)@) == newest(final(self).history(), MAX_LOG_ENTRIES as nat),
            final(self)@.len() <= final(self).capacity(),
            messages(final(self)@) == bounded_push(messages(old(self)@), (level, message@), old(self).capacity()),
            exists|e: LogEntryView|
                e.level == level && e.message == message@ && is_clock_text(e.timestamp)
                    && final(self)@ == appended(old(self)@, e, old(self).capacity()),
    {
        proof {
            use_type_invariant(&*self);
        }
        let entry = LogEntry::new(level, message);
        let ghost ev = entry.deep_view();
        let mut taken = LogManager::new();
        std::mem::swap(&mut taken, self);
        proof {
            use_type_invariant(&taken);
        }
        let LogManager { entries, max_entries, history } = taken;
        let mut entries = entries;
        let ghost before = entries.deep_view();
        if entries.len() == max_entries {
            entries.remove(0);
        }
        let ghost mid = entries.deep_view();
        entries.push(entry);
        let ghost h = history@.push((level, message@));
        proof {
            if before.len() == max_entries {
                assert(mid =~= before.drop_first());
                assert(entries.deep_view() =~= before.push(ev).drop_first());
            } else {
                assert(entries.deep_view() =~= before.push(ev));
            }
            assert(entries.deep_view() == appended(before, ev, max_entries as nat));
            lemma_messages_appended(before, ev, max_entries as nat);
            lemma_appended_continues(before, ev, max_entries as nat);
            assert(h.drop_last() =~= history@);
            lemma_replay_keeps_last(h, max_entries as nat);
        }
        *self = LogManager { entries, max_entries, history: Ghost(h) };
        assert(ev.level == level && ev.message == message@ && is_clock_text(ev.timestamp));
    }

    /// Logs an informational message.
    pub fn info(&mut self, message: &str)
        ensures
            old(self).capacity() == MAX_LOG_ENTRIES,
            final(self).capacity() == old(self).capacity(),
            log_continues(old(self)@, final(self)@, 1),
            newest_stamped(final(self)@, 1),
            final(self).history() == old(self).history().push((LogLevel::Info, message@)),
            messages(final(self)@) == newest(final(self).history(), MAX_LOG_ENTRIES as nat),
            final(self)@.len() <= final(self).capacity(),
            messages(final(self)@) == bounded_push(messages(old(self)@), (LogLevel::Info, message@), old(self).capacity()),
            exists|e: LogEntryView|
                e.level == LogLevel::Info && e.message == message@ && is_clock_text(e.timestamp)
                    && final(self)@ == appended(old(self)@, e, old(self).capacity()),
    {
        self.log(LogLevel::Info, message);
    }

    /// Logs a success.
    pub fn ok(&mut self, message: &str)
        ensures
            old(self).capacity() == MAX_LOG_ENTRIES,
            final(self).capacity() == old(self).capacity(),
            log_continues(old(self)@, final(self)@, 1),
            newest_stamped(final(self)@, 1),
            final(self).history() == old(self).history().push((LogLevel::Success, message@)),
            messages(final(self)@) == newest(final(self).history(), MAX_LOG_ENTRIES as nat),
            final(self)@.len() <= final(self).capacity(),
            messages(final(self)@) == bounded_push(messages(old(self)@), (LogLevel::Success, message@), old(self).capacity()),
            exists|e: LogEntryView|
                e.level == LogLevel::Success && e.message == message@ && is_clock_text(e.timestamp)
                    && final(self)@ == appended(old(self)@, e, old(self).capacity()),
    {
        self.log(LogLevel::Success, message);
    }

    /// Logs a warning.
    pub fn warn(&mut self, message: &str)
        ensures
            old(self).capacity() == MAX_LOG_ENTRIES,
            final(self).capacity() == old(self).capacity(),
            log_continues(old(self)@, final(self)@, 1),
            newest_stamped(final(self)@, 1),
            final(self).history() == old(self).history().push((LogLevel::Warning, message@)),
            messages(final(self)@) == newest(final(self).history(), MAX_LOG_ENTRIES as nat),
            final(self)@.len() <= final(self).capacity(),
            messages(final(self)@) == bounded_push(messages(old(self)@), (LogLevel::Warning, message@), old(self).capacity()),
            exists|e: LogEntryView|
                e.level == LogLevel::Warning && e.message == message@ && is_clock_text(
                    e.timestamp,
                ) && final(self)@ == appended(old(self)@, e, old(self).capacity()),
    {
        self.log(LogLevel::Warning, message);
    }

    /// Logs an error.
    pub fn error(&mut self, message: &str)
        ensures
            old(self).capacity() == MAX_LOG_ENTRIES,
            final(self).capacity() == old(self).capacity(),
            log_continues(old(self)@, final(self)@, 1),
            newest_stamped(final(self)@, 1),
            final(self).history() == old(self).history().push((LogLevel::Error, message@)),
            messages(final(self)@) == newest(final(self).history(), MAX_LOG_ENTRIES as nat),
            final(self)@.len() <= final(self).capacity(),
            messages(final(self)@) == bounded_push(messages(old(self)@), (LogLevel::Error, message@), old(self).capacity()),
            exists|e: LogEntryView|
                e.level == LogLevel::Error && e.message == message@ && is_clock_text(e.timestamp)
                    && final(self)@ == appended(old(self)@, e, old(self).capacity()),
    {
        self.log(LogLevel::Error, message);
    }

    /// The entries, oldest first.
    pub fn entries(&self) -> (s: &[LogEntry])
        ensures
            s.deep_view() == self@,
            self.capacity() == MAX_LOG_ENTRIES,
            messages(self@) == newest(self.history(), MAX_LOG_ENTRIES as nat),
            self@.len() <= self.capacity(),
    {
        proof {
            use_type_invariant(self);
            lemma_replay_keeps_last(self.history@, self.max_entries as nat);
        }
        let s = self.entries.as_slice();
        assert(s.deep_view() =~= self.entries.deep_view());
        s
    }
}

} // verus!
