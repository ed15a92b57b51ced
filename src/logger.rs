use vstd::prelude::*;
use vstd::string::StringExecFns;
use crate::level::{Level, debug_level, verbose_level, info_level, warn_level, error_level,
    fatal_level};
use crate::levels::{Levels, builtin_table, resolve, upper_of};
use crate::timestamp::{Timestamp, local_now, stamp_text};

verus! {

/// A retained message: its text, its level and when it was made.
pub struct Message {
    pub text: String,
    pub level: Level,
    pub timestamp: Timestamp,
}

impl View for Message {
    type V = (Seq<char>, Level, Timestamp);

    open spec fn view(&self) -> (Seq<char>, Level, Timestamp) {
        (self.text@, self.level, self.timestamp)
    }
}

/// The console line of a message: `[NAME] (YYYY-MM-DD HH:MM:SS) text`.
pub open spec fn line_of(m: (Seq<char>, Level, Timestamp)) -> Seq<char> {
    seq!['['] + m.1.0@ + seq![']', ' ', '('] + stamp_text(m.2) + seq![')', ' '] + m.0
}

/// The buffer after one log call: the message is appended when its level
/// passes `threshold`, and dropped otherwise.
pub open spec fn logged(
    buf: Seq<(Seq<char>, Level, Timestamp)>,
    m: (Seq<char>, Level, Timestamp),
    threshold: u32,
) -> Seq<(Seq<char>, Level, Timestamp)> {
    if m.1.1 >= threshold {
        buf.push(m)
    } else {
        buf
    }
}

/// The buffer after one log call for each of `ms`, in order.
pub open spec fn logged_all(
    buf: Seq<(Seq<char>, Level, Timestamp)>,
    ms: Seq<(Seq<char>, Level, Timestamp)>,
    threshold: u32,
) -> Seq<(Seq<char>, Level, Timestamp)>
    decreases ms.len(),
{
    if ms.len() == 0 {
        buf
    } else {
        logged(logged_all(buf, ms.drop_last(), threshold), ms.last(), threshold)
    }
}

pub open spec fn passes(threshold: u32) -> spec_fn((Seq<char>, Level, Timestamp)) -> bool {
    |m: (Seq<char>, Level, Timestamp)| m.1.1 >= threshold
}

/// What a log call of `text` at `level` does, whatever time it read: the
/// registry stays, the message is kept when it passes, and the line to write
/// comes back exactly then.
pub open spec fn log_effect(
    before: Logger,
    after: Logger,
    text: Seq<char>,
    level: Level,
    r: Option<String>,
) -> bool {
    &&& after.levels == before.levels
    &&& exists|at: Timestamp|
        at.wf() && #[trigger] logged(before.records(), (text, level, at), before.levels.current.1)
            == after.records()
    &&& r.is_some() == (level.1 >= before.levels.current.1)
    &&& r.is_some() ==> r.unwrap()@ == line_of(after.records().last())
}

/// Logging a series of messages keeps exactly those whose level passes the
/// threshold, in the order they were logged: the buffer grows by the number
/// of messages that pass.
pub proof fn lemma_logged_all_keeps_passing(
    buf: Seq<(Seq<char>, Level, Timestamp)>,
    ms: Seq<(Seq<char>, Level, Timestamp)>,
    threshold: u32,
)
    ensures
        logged_all(buf, ms, threshold) == buf + ms.filter(passes(threshold)),
        logged_all(buf, ms, threshold).len() == buf.len() + ms.filter(passes(threshold)).len(),
    decreases ms.len(),
{
    reveal(Seq::filter);
    if ms.len() > 0 {
        lemma_logged_all_keeps_passing(buf, ms.drop_last(), threshold);
        let sub = ms.drop_last().filter(passes(threshold));
        assert(ms.filter(passes(threshold)) == if passes(threshold)(ms.last()) {
            sub.push(ms.last())
        } else {
            sub
        });
        assert((buf + sub).push(ms.last()) =~= buf + sub.push(ms.last()));
    }
}

/// The line that heads a replay of the buffer.
pub open spec fn replay_header() -> Seq<char> {
    seq!['H', 'e', 'r', 'e', ' ', 'a', 'r', 'e', ' ', 'a', 'l', 'l', ' ', 'l', 'o', 'g', 's', ':']
}

/// The text and level of a retained message.
pub open spec fn text_and_level(m: (Seq<char>, Level, Timestamp)) -> (Seq<char>, Level) {
    (m.0, m.1)
}

pub open spec fn call_passes(threshold: u32) -> spec_fn((Seq<char>, Level)) -> bool {
    |c: (Seq<char>, Level)| c.1.1 >= threshold
}

/// The lines that a series of log calls handed back, in call order.
pub open spec fn returned_lines(results: Seq<Option<String>>) -> Seq<Seq<char>>
    decreases results.len(),
{
    if results.len() == 0 {
        Seq::empty()
    } else if results.last().is_some() {
        returned_lines(results.drop_last()).push(results.last().unwrap()@)
    } else {
        returned_lines(results.drop_last())
    }
}

/// A series of log calls, `calls[i]` taking the logger from `states[i]` to
/// `states[i + 1]` and returning `results[i]`, keeps the threshold; it
/// appends exactly the calls whose level passes it, in call order; and the
/// console lines of what it appended are, one for one, the lines those calls
/// returned.
pub proof fn lemma_log_calls_keep_passing(
    states: Seq<Logger>,
    calls: Seq<(Seq<char>, Level)>,
    results: Seq<Option<String>>,
)
    requires
        states.len() == calls.len() + 1,
        results.len() == calls.len(),
        forall|i: int|
            0 <= i < calls.len() ==> #[trigger] log_effect(
                states[i],
                states[i + 1],
                calls[i].0,
                calls[i].1,
                results[i],
            ),
    ensures
        states.last().levels == states[0].levels,
        states.last().records().map_values(|m| text_and_level(m)) == states[0].records().map_values(
            |m| text_and_level(m),
        ) + calls.filter(call_passes(states[0].levels.current.1)),
        states.last().records().map_values(|m| line_of(m)) == states[0].records().map_values(
            |m| line_of(m),
        ) + returned_lines(results),
    decreases calls.len(),
{
    reveal(Seq::filter);
    let n = calls.len();
    if n == 0 {
        assert(calls.filter(call_passes(states[0].levels.current.1)) =~= Seq::empty());
        assert(states[0].records().map_values(|m| text_and_level(m)) + Seq::empty() =~= states[0].records().map_values(|m| text_and_level(m)));
        assert(states[0].records().map_values(|m| line_of(m)) + Seq::empty() =~= states[0].records().map_values(|m| line_of(m)));
    } else {
        let ps = states.drop_last();
        let pc = calls.drop_last();
        let pr = results.drop_last();
        assert forall|i: int| 0 <= i < pc.len() implies #[trigger] log_effect(
            ps[i],
            ps[i + 1],
            pc[i].0,
            pc[i].1,
            pr[i],
        ) by {
            assert(log_effect(states[i], states[i + 1], calls[i].0, calls[i].1, results[i]));
        }
        lemma_log_calls_keep_passing(ps, pc, pr);
        let a = states[n - 1];
        let b = states[n as int];
        assert(log_effect(a, b, calls[n - 1].0, calls[n - 1].1, results[n - 1]));
        let at = choose|at: Timestamp|
            at.wf() && #[trigger] logged(
                a.records(),
                (calls[n - 1].0, calls[n - 1].1, at),
                a.levels.current.1,
            ) == b.records();
        let e = (calls[n - 1].0, calls[n - 1].1, at);
        let f0 = states[0].records().map_values(|m| text_and_level(m));
        let g0 = states[0].records().map_values(|m| line_of(m));
        let sub = pc.filter(call_passes(states[0].levels.current.1));
        assert(calls.last() == calls[n - 1]);
        assert(results.last() == results[n - 1]);
        if calls[n - 1].1.1 >= a.levels.current.1 {
            assert(b.records() == a.records().push(e));
            assert(b.records().map_values(|m| text_and_level(m)) =~= a.records().map_values(
                |m| text_and_level(m),
            ).push(text_and_level(e)));
            assert(b.records().map_values(|m| line_of(m)) =~= a.records().map_values(
                |m| line_of(m),
            ).push(line_of(e)));
            assert((f0 + sub).push(calls[n - 1]) =~= f0 + sub.push(calls[n - 1]));
            assert((g0 + returned_lines(pr)).push(line_of(e)) =~= g0 + returned_lines(pr).push(
                line_of(e),
            ));
        } else {
            assert(b.records() == a.records());
        }
    }
}

/// A logger: a level registry and the messages that passed its threshold.
pub struct Logger {
    pub logs: Vec<Message>,
    pub levels: Levels,
}

impl Logger {
    pub open spec fn wf(&self) -> bool {
        self.levels.wf()
    }

    /// The retained messages, oldest first.
    pub open spec fn records(&self) -> Seq<(Seq<char>, Level, Timestamp)> {
        self.logs@.map_values(|m: Message| m@)
    }

    /// An empty logger whose threshold comes from the configured value `var`.
    pub fn new(var: &str) -> (r: Logger)
        ensures
            r.wf(),
            r.records() == Seq::<(Seq<char>, Level, Timestamp)>::empty(),
            r.levels.table() == builtin_table(),
            r.levels.current == resolve(builtin_table(), upper_of(var@)),
    {
        let logs: Vec<Message> = Vec::new();
        let levels = Levels::new(var);
        let r = Logger { logs, levels };
        assert(r.records() =~= Seq::<(Seq<char>, Level, Timestamp)>::empty());
        r
    }

    /// The replay of the buffer: a header line, then the console line of each
    /// retained message, oldest first.
    pub fn print_logs(&self) -> (r: Vec<String>)
        ensures
            r@.len() == self.logs@.len() + 1,
            r@[0]@ == replay_header(),
            forall|i: int|
                0 <= i < self.logs@.len() ==> #[trigger] r@[i + 1]@ == line_of(self.records()[i]),
    {
        let mut out: Vec<String> = Vec::new();
        proof {
            reveal_strlit("Here are all logs:");
        }
        out.push("Here are all logs:".to_owned());
        let mut i: usize = 0;
        while i < self.logs.len()
            invariant
                i <= self.logs@.len(),
                out@.len() == i + 1,
                out@[0]@ == replay_header(),
                forall|j: int| 0 <= j < i ==> #[trigger] out@[j + 1]@ == line_of(self.records()[j]),
            decreases self.logs@.len() - i,
        {
            let line = self.console(&self.logs[i]);
            out.push(line);
            i += 1;
        }
        out
    }

    /// Logs `msg` at `level` with the time `at`. A message that passes the
    /// threshold is kept and its console line returned; another is dropped.
    pub fn log_at(&mut self, msg: &str, level: Level, at: Timestamp) -> (r: Option<String>)
        ensures
            final(self).levels == old(self).levels,
            final(self).records() == logged(
                old(self).records(),
                (msg@, level, at),
                old(self).levels.current.1,
            ),
            r.is_some() == (level.1 >= old(self).levels.current.1),
            r.is_some() ==> r.unwrap()@ == line_of((msg@, level, at)),
    {
        let log = Message { text: msg.to_owned(), level, timestamp: at };
        if self.levels.is_in_level(level) {
            let line = self.console(&log);
            self.logs.push(log);
            assert(self.records() =~= old(self).records().push((msg@, level, at)));
            Some(line)
        } else {
            None
        }
    }

    /// Logs `msg` at `level` with the local time now.
    pub fn log(&mut self, msg: &str, level: Level) -> (r: Option<String>)
        ensures
            log_effect(*old(self), *final(self), msg@, level, r),
    {
        let at = local_now();
        let r = self.log_at(msg, level, at);
        assert(at.wf() && logged(old(self).records(), (msg@, level, at), old(self).levels.current.1)
            == self.records());
        r
    }

    /// The console line of `log`.
    pub fn console(&self, log: &Message) -> (r: String)
        ensures
            r@ == line_of(log@),
    {
        let mut out = String::new();
        out.append("[");
        out.append(log.level.name());
        out.append("] (");
        let stamp = log.timestamp.text();
        out.append(stamp.as_str());
        out.append(") ");
        out.append(log.text.as_str());
        proof {
            reveal_strlit("[");
            reveal_strlit("] (");
            reveal_strlit(") ");
        }
        assert(out@ =~= line_of(log@));
        out
    }

    pub fn debug(&mut self, msg: &str) -> (r: Option<String>)
        ensures
            log_effect(*old(self), *final(self), msg@, debug_level(), r),
    {
        self.log(msg, Level::debug())
    }

    pub fn verbose(&mut self, msg: &str) -> (r: Option<String>)
        ensures
            log_effect(*old(self), *final(self), msg@, verbose_level(), r),
    {
        self.log(msg, Level::verbose())
    }

    pub fn info(&mut self, msg: &str) -> (r: Option<String>)
        ensures
            log_effect(*old(self), *final(self), msg@, info_level(), r),
    {
        self.log(msg, Level::info())
    }

    pub fn warn(&mut self, msg: &str) -> (r: Option<String>)
        ensures
            log_effect(*old(self), *final(self), msg@, warn_level(), r),
    {
        self.log(msg, Level::warn())
    }

    pub fn error(&mut self, msg: &str) -> (r: Option<String>)
        ensures
            log_effect(*old(self), *final(self), msg@, error_level(), r),
    {
        self.log(msg, Level::error())
    }

    pub fn fatal(&mut self, msg: &str) -> (r: Option<String>)
        ensures
            log_effect(*old(self), *final(self), msg@, fatal_level(), r),
    {
        self.log(msg, Level::fatal())
    }
}

} // verus!
