//! The log-streaming session: one bounded, draining line buffer.
//!
//! One session is live at a time. The reading task appends lines in
//! arrival order; the buffer keeps the last thousand, evicting the
//! oldest; a read drains it atomically. Starting a session stops any
//! prior one; stopping only flips the running flag and clears the
//! buffer — the reading loop sees the flag and lets its process go.

use vstd::prelude::*;
use vstd::string::*;
use crate::clock::{
    clock_in_range, format_logcat_time, local_now_minus_minutes, logcat_time_spec,
    parse_rfc3339_local, ClockParts, MAX_RECENT_MINUTES,
};
use crate::num::{all_digits, dec_val, parse_u64};
use crate::text::{after_prefix, has_prefix, starts_with, views};

verus! {

/// The most entries the session buffer holds.
pub const LOG_BUFFER_CAP: usize = 1000;

/// One log-streaming session: the cooperative running flag, the
/// bounded buffer, and the ghost history of every line appended
/// since the last start, stop, or drain.
pub struct LogSession {
    pub running: bool,
    pub buffer: Vec<String>,
    pub history: Ghost<Seq<String>>,
}

impl LogSession {
    /// The buffer holds exactly the newest thousand lines of the
    /// history, in arrival order.
    pub open spec fn wf(self) -> bool {
        &&& self.buffer@ == self.history@.skip(
            if self.history@.len() <= LOG_BUFFER_CAP {
                0int
            } else {
                self.history@.len() - LOG_BUFFER_CAP
            },
        )
    }

    /// A fresh session: not running, nothing buffered.
    pub fn new() -> (r: LogSession)
        ensures
            r.wf(),
            !r.running,
            r.buffer@.len() == 0,
            r.history@.len() == 0,
    {
        let s = LogSession { running: false, buffer: Vec::new(), history: Ghost(Seq::empty()) };
        proof {
            assert(s.buffer@ =~= s.history@.skip(0));
        }
        s
    }

    /// Begins a session: whatever ran before is superseded, the
    /// buffer is cleared, and the running flag raised.
    pub fn start(&mut self)
        ensures
            final(self).wf(),
            final(self).running,
            final(self).buffer@.len() == 0,
            final(self).history@.len() == 0,
    {
        self.running = false;
        self.buffer = Vec::new();
        self.history = Ghost(Seq::empty());
        self.running = true;
        proof {
            assert(self.buffer@ =~= self.history@.skip(0));
        }
    }

    /// Ends the session: the running flag falls and the buffer is
    /// cleared. The reading loop sees the flag before its next
    /// append and exits on its own.
    pub fn stop(&mut self)
        ensures
            final(self).wf(),
            !final(self).running,
            final(self).buffer@.len() == 0,
            final(self).history@.len() == 0,
    {
        self.running = false;
        self.buffer = Vec::new();
        self.history = Ghost(Seq::empty());
        proof {
            assert(self.buffer@ =~= self.history@.skip(0));
        }
    }

    /// Appends one line in arrival order, evicting the oldest
    /// buffered line once the buffer is full.
    pub fn append(&mut self, line: String)
        requires
            old(self).wf(),
        ensures
            final(self).wf(),
            final(self).history@ == old(self).history@.push(line),
            final(self).running == old(self).running,
    {
        proof {
            assert(self.buffer@.len() <= LOG_BUFFER_CAP);
        }
        let ghost oldh = self.history@;
        if self.buffer.len() >= LOG_BUFFER_CAP {
            self.buffer.remove(0);
            proof {
                let k = oldh.len() - LOG_BUFFER_CAP;
                assert(self.buffer@ =~= oldh.skip(k + 1));
            }
        }
        self.buffer.push(line);
        self.history = Ghost(self.history@.push(line));
        proof {
            let newh = self.history@;
            let k: int = if newh.len() <= LOG_BUFFER_CAP {
                0int
            } else {
                newh.len() - LOG_BUFFER_CAP
            };
            assert(self.buffer@ =~= newh.skip(k));
        }
    }

    /// Drains the buffer: returns every buffered line, in arrival
    /// order, and leaves the buffer empty. Lines evicted by the
    /// thousand-entry bound are gone; nothing else is dropped, and
    /// nothing is delivered twice.
    pub fn read(&mut self) -> (r: Vec<String>)
        requires
            old(self).wf(),
        ensures
            final(self).wf(),
            r@ == old(self).buffer@,
            final(self).buffer@.len() == 0,
            final(self).history@.len() == 0,
            final(self).running == old(self).running,
    {
        let mut out: Vec<String> = Vec::new();
        core::mem::swap(&mut out, &mut self.buffer);
        self.history = Ghost(Seq::empty());
        proof {
            assert(self.buffer@ =~= self.history@.skip(0));
        }
        out
    }
}

/// The buffer bound: however many lines arrived, the buffer holds at
/// most a thousand, and exactly the newest thousand once more than a
/// thousand arrived, in arrival order.
pub proof fn lemma_buffer_holds_newest(s: LogSession)
    requires
        s.wf(),
    ensures
        s.buffer@.len() <= LOG_BUFFER_CAP,
        s.history@.len() > LOG_BUFFER_CAP ==> s.buffer@ == s.history@.skip(
            s.history@.len() - LOG_BUFFER_CAP,
        ),
        s.history@.len() <= LOG_BUFFER_CAP ==> s.buffer@ == s.history@,
{
    if s.history@.len() <= LOG_BUFFER_CAP {
        assert(s.history@.skip(0) =~= s.history@);
    }
}

/// A drain is a draining read: of two reads with no append between
/// them, the first returns everything buffered and the second
/// returns nothing. `read_step` is the relation [`LogSession::read`]
/// ensures between its pre-state, post-state, and result.
pub open spec fn read_step(pre: LogSession, post: LogSession, r: Seq<String>) -> bool {
    &&& r == pre.buffer@
    &&& post.buffer@.len() == 0
    &&& post.history@.len() == 0
    &&& post.running == pre.running
}

/// Two consecutive drains deliver the whole buffer once, then nothing.
pub proof fn lemma_read_is_draining(
    s1: LogSession,
    s2: LogSession,
    r1: Seq<String>,
    s3: LogSession,
    r2: Seq<String>,
)
    requires
        read_step(s1, s2, r1),
        read_step(s2, s3, r2),
    ensures
        r1 == s1.buffer@,
        r2 =~= Seq::<String>::empty(),
{
}

/// The time filter a log session may start with.
pub enum TimeFilter {
    /// `recent:<minutes>`: lines of the last so-many minutes.
    Recent { minutes: u64 },
    /// `since:<timestamp>`: lines since an RFC 3339 instant.
    Since { timestamp: String },
    /// No filter, or one that does not parse: the whole log.
    Unfiltered,
}

/// What a filter text means: a `recent:` prefix followed by a
/// decimal minute count, a `since:` prefix followed by a timestamp
/// text, anything else unfiltered.
pub fn parse_time_filter(filter: Option<&str>) -> (r: TimeFilter)
    ensures
        match filter {
            None => r is Unfiltered,
            Some(f) => {
                if has_prefix(f@, "recent:"@) {
                    let rest = f@.skip("recent:"@.len() as int);
                    if rest.len() > 0 && all_digits(rest) && dec_val(rest) <= u64::MAX {
                        r matches TimeFilter::Recent { minutes } && minutes == dec_val(rest)
                    } else {
                        r is Unfiltered
                    }
                } else if has_prefix(f@, "since:"@) {
                    r matches TimeFilter::Since { timestamp } && timestamp@ == f@.skip(
                        "since:"@.len() as int,
                    )
                } else {
                    r is Unfiltered
                }
            },
        },
{
    let f = match filter {
        None => {
            return TimeFilter::Unfiltered;
        },
        Some(f) => f,
    };
    if starts_with(f, "recent:") {
        let rest = after_prefix(f, "recent:");
        match parse_u64(rest.as_str()) {
            Some(minutes) => TimeFilter::Recent { minutes },
            None => TimeFilter::Unfiltered,
        }
    } else if starts_with(f, "since:") {
        let timestamp = after_prefix(f, "since:");
        TimeFilter::Since { timestamp }
    } else {
        TimeFilter::Unfiltered
    }
}

/// Resolves a filter to the timestamp text the tool takes: a
/// relative filter is anchored at the clock reading so-many minutes
/// ago; an absolute filter at its instant, read in local time; an
/// unparseable instant, an out-of-range minute count, and no filter
/// all mean no timestamp argument.
pub fn resolve_time_filter(filter: &TimeFilter) -> (r: Option<String>)
    ensures
        match filter {
            TimeFilter::Unfiltered => r is None,
            TimeFilter::Recent { minutes } => {
                if minutes <= MAX_RECENT_MINUTES {
                    r matches Some(ts) && exists|p: ClockParts|
                        clock_in_range(p) && ts@ == logcat_time_spec(p)
                } else {
                    r is None
                }
            },
            TimeFilter::Since { .. } => r matches Some(ts) ==> exists|p: ClockParts|
                clock_in_range(p) && ts@ == logcat_time_spec(p),
        },
{
    match filter {
        TimeFilter::Unfiltered => None,
        TimeFilter::Recent { minutes } => {
            if *minutes <= MAX_RECENT_MINUTES {
                let p = local_now_minus_minutes(*minutes);
                let ts = format_logcat_time(&p);
                proof {
                    assert(clock_in_range(p) && ts@ == logcat_time_spec(p));
                }
                Some(ts)
            } else {
                None
            }
        },
        TimeFilter::Since { timestamp } => match parse_rfc3339_local(timestamp.as_str()) {
            Some(p) => {
                let ts = format_logcat_time(&p);
                proof {
                    assert(clock_in_range(p) && ts@ == logcat_time_spec(p));
                }
                Some(ts)
            },
            None => None,
        },
    }
}

/// The tool arguments of a log session: the device selector, the
/// subcommand, the color format, and the timestamp filter when one
/// resolved.
pub fn build_logcat_args(device_id: &str, since: Option<&str>) -> (r: Vec<String>)
    ensures
        views(r@) == match since {
            Some(ts) => seq!["-s"@, device_id@, "logcat"@, "-v"@, "color"@, "-t"@, ts@],
            None => seq!["-s"@, device_id@, "logcat"@, "-v"@, "color"@],
        },
{
    let mut args: Vec<String> = Vec::new();
    args.push("-s".to_owned());
    args.push(device_id.to_owned());
    args.push("logcat".to_owned());
    args.push("-v".to_owned());
    args.push("color".to_owned());
    match since {
        Some(ts) => {
            args.push("-t".to_owned());
            args.push(ts.to_owned());
            proof {
                assert(views(args@) =~= seq![
                    "-s"@,
                    device_id@,
                    "logcat"@,
                    "-v"@,
                    "color"@,
                    "-t"@,
                    ts@,
                ]);
            }
        },
        None => {
            proof {
                assert(views(args@) =~= seq!["-s"@, device_id@, "logcat"@, "-v"@, "color"@]);
            }
        },
    }
    args
}

} // verus!
