//! Decision core of the rotating file transport.
//!
//! The core keeps the bytes that were accepted but not yet written, the
//! number of bytes written to the open file, and the day (at the fixed
//! UTC+8 offset) that the open file belongs to. The caller performs the file
//! operations and reports each one that succeeded; a failed operation is
//! simply not reported, so nothing is lost or counted twice.
//!
//! Ghost state follows where every accepted byte went: the files closed so
//! far (each with its day), the open file, and the pending bytes.
use vstd::prelude::*;
use crate::buf::append_all;

verus! {

/// Pending bytes past this count trigger an immediate flush.
pub const LOW_WATER_MARK: usize = 16384;

/// Bytes written to one file before it is rotated by size.
pub const SIZE_LIMIT: usize = 536870912;

/// The fixed local offset, in seconds east of UTC.
pub const LOCAL_OFFSET_SECS: i64 = 28800;

pub const SECS_PER_DAY: i64 = 86400;

/// Timestamps (seconds since the Unix epoch) handled by the core are
/// below this bound.
pub const TIME_BOUND: i64 = 1099511627776;

/// The local day number (days since 1970-01-01 at UTC+8) of a timestamp.
pub open spec fn local_day(t: int) -> int {
    (t + LOCAL_OFFSET_SECS) / (SECS_PER_DAY as int)
}

/// The timestamp at which local day `d` begins.
pub open spec fn day_start(d: int) -> int {
    d * SECS_PER_DAY - LOCAL_OFFSET_SECS
}

pub open spec fn time_in_range(t: int) -> bool {
    0 <= t < TIME_BOUND
}

/// The local day of `now`.
pub fn local_day_of(now: i64) -> (r: i64)
    requires
        time_in_range(now as int),
    ensures
        r == local_day(now as int),
        day_start(r as int) <= now < day_start(r as int + 1),
{
    let r = (now + LOCAL_OFFSET_SECS) / SECS_PER_DAY;
    assert(day_start(r as int) <= now < day_start(r as int + 1)) by (nonlinear_arith)
        requires
            r == (now + 28800) / 86400,
            0 <= now < 1099511627776,
    ;
    r
}

/// The start of the local day after the one holding `now`.
pub fn next_day_start(now: i64) -> (r: i64)
    requires
        time_in_range(now as int),
    ensures
        r == day_start(local_day(now as int) + 1),
        r > now,
{
    let d = local_day_of(now);
    (d + 1) * SECS_PER_DAY - LOCAL_OFFSET_SECS
}

/// Concatenation of the byte parts of `items`.
pub open spec fn all_bytes(items: Seq<(int, Seq<u8>)>) -> Seq<u8>
    decreases items.len(),
{
    if items.len() == 0 {
        Seq::empty()
    } else {
        all_bytes(items.drop_last()) + items.last().1
    }
}

/// Concatenation of the byte parts of the items tagged with day `d`.
pub open spec fn bytes_of_day(items: Seq<(int, Seq<u8>)>, d: int) -> Seq<u8>
    decreases items.len(),
{
    if items.len() == 0 {
        Seq::empty()
    } else if items.last().0 == d {
        bytes_of_day(items.drop_last(), d) + items.last().1
    } else {
        bytes_of_day(items.drop_last(), d)
    }
}

proof fn lemma_push_bytes(items: Seq<(int, Seq<u8>)>, item: (int, Seq<u8>))
    ensures
        all_bytes(items.push(item)) == all_bytes(items) + item.1,
        forall|d: int| #[trigger]
            bytes_of_day(items.push(item), d) == if item.0 == d {
                bytes_of_day(items, d) + item.1
            } else {
                bytes_of_day(items, d)
            },
{
    assert(items.push(item).drop_last() =~= items);
}

/// Decision state of a rotating file transport.
pub struct FileSenderCore {
    /// Flush once more than this many bytes are pending.
    pub low_water: usize,
    /// Rotate once this many bytes were written to the open file.
    pub size_limit: usize,
    /// Bytes accepted and not yet written.
    pub pending: Vec<u8>,
    /// Bytes written to the open file since it was opened.
    pub written_size: usize,
    /// Local day of the open file.
    pub current_day: i64,
    /// When the next local day begins.
    pub next_rotate_time: i64,
    /// Files closed so far, each with its local day and contents.
    pub closed: Ghost<Seq<(int, Seq<u8>)>>,
    /// Contents of the open file.
    pub active: Ghost<Seq<u8>>,
    /// Every accepted chunk, in order, with the local day of the file it
    /// was accepted for.
    pub sent: Ghost<Seq<(int, Seq<u8>)>>,
}

impl FileSenderCore {
    /// The state invariant.
    pub open spec fn wf(&self) -> bool {
        &&& time_in_range(day_start(self.current_day as int + 1))
        &&& 0 <= self.current_day
        &&& self.next_rotate_time == day_start(self.current_day as int + 1)
        &&& self.written_size == self.active@.len()
        &&& all_bytes(self.closed@) + self.active@ + self.pending@ == all_bytes(self.sent@)
        &&& forall|d: int| #[trigger]
            bytes_of_day(self.sent@, d) == if d == self.current_day {
                bytes_of_day(self.closed@, d) + self.active@ + self.pending@
            } else {
                bytes_of_day(self.closed@, d)
            }
    }

    /// A core for a file opened at `now`, with the given thresholds.
    pub fn with_limits(now: i64, low_water: usize, size_limit: usize) -> (r: FileSenderCore)
        requires
            time_in_range(now as int),
            now < TIME_BOUND - 2 * SECS_PER_DAY,
        ensures
            r.wf(),
            r.current_day == local_day(now as int),
            r.low_water == low_water,
            r.size_limit == size_limit,
            r.pending@.len() == 0,
            r.written_size == 0,
            r.closed@.len() == 0,
            r.sent@.len() == 0,
    {
        let day = local_day_of(now);
        let next = next_day_start(now);
        let r = FileSenderCore {
            low_water,
            size_limit,
            pending: Vec::new(),
            written_size: 0,
            current_day: day,
            next_rotate_time: next,
            closed: Ghost(Seq::empty()),
            active: Ghost(Seq::empty()),
            sent: Ghost(Seq::empty()),
        };
        assert(all_bytes(r.closed@) + r.active@ + r.pending@ =~= all_bytes(r.sent@));
        assert forall|d: int| #[trigger]
            bytes_of_day(r.sent@, d) == if d == r.current_day {
                bytes_of_day(r.closed@, d) + r.active@ + r.pending@
            } else {
                bytes_of_day(r.closed@, d)
            } by {
            assert(bytes_of_day(r.closed@, d) + r.active@ + r.pending@ =~= Seq::<u8>::empty());
        }
        r
    }

    /// A core with the standard thresholds.
    pub fn new(now: i64) -> (r: FileSenderCore)
        requires
            time_in_range(now as int),
            now < TIME_BOUND - 2 * SECS_PER_DAY,
        ensures
            r.wf(),
            r.current_day == local_day(now as int),
            r.low_water == LOW_WATER_MARK,
            r.size_limit == SIZE_LIMIT,
            r.pending@.len() == 0,
            r.written_size == 0,
            r.closed@.len() == 0,
            r.sent@.len() == 0,
    {
        FileSenderCore::with_limits(now, LOW_WATER_MARK, SIZE_LIMIT)
    }

    /// Whether a new local day has begun by `now`.
    pub fn should_rotate_by_time(&self, now: i64) -> (r: bool)
        ensures
            r == (now >= self.next_rotate_time),
    {
        now >= self.next_rotate_time
    }

    /// Whether the open file has reached the size limit.
    pub fn should_rotate_by_size(&self) -> (r: bool)
        ensures
            r == (self.written_size >= self.size_limit),
    {
        self.written_size >= self.size_limit
    }

    /// Accepts a chunk: it is appended to the pending bytes. Returns whether
    /// the pending bytes now exceed the low-water mark, so that a flush is
    /// due.
    pub fn accept(&mut self, chunk: &[u8]) -> (flush_due: bool)
        requires
            old(self).wf(),
            old(self).pending@.len() + chunk@.len() <= usize::MAX,
        ensures
            final(self).wf(),
            final(self).pending@ == old(self).pending@ + chunk@,
            final(self).sent@ == old(self).sent@.push((old(self).current_day as int, chunk@)),
            final(self).closed@ == old(self).closed@,
            final(self).active@ == old(self).active@,
            final(self).current_day == old(self).current_day,
            final(self).next_rotate_time == old(self).next_rotate_time,
            final(self).written_size == old(self).written_size,
            final(self).low_water == old(self).low_water,
            final(self).size_limit == old(self).size_limit,
            flush_due == (final(self).pending@.len() > final(self).low_water),
    {
        let ghost item = (self.current_day as int, chunk@);
        let ghost old_sent = self.sent@;
        append_all(&mut self.pending, chunk);
        self.sent = Ghost(self.sent@.push(item));
        proof {
            lemma_push_bytes(old_sent, item);
            assert(all_bytes(self.closed@) + self.active@ + self.pending@ =~= all_bytes(self.sent@));
            assert forall|d: int| #[trigger]
                bytes_of_day(self.sent@, d) == if d == self.current_day {
                    bytes_of_day(self.closed@, d) + self.active@ + self.pending@
                } else {
                    bytes_of_day(self.closed@, d)
                } by {
                if d == self.current_day {
                    assert(bytes_of_day(self.closed@, d) + self.active@ + self.pending@
                        =~= bytes_of_day(self.closed@, d) + old(self).active@ + old(self).pending@ + chunk@);
                }
            }
        }
        self.pending.len() > self.low_water
    }

    /// Records that the pending bytes were written to the open file and
    /// flushed. Returns whether the open file has now reached the size
    /// limit.
    pub fn flushed(&mut self) -> (rotate_due: bool)
        requires
            old(self).wf(),
            old(self).written_size + old(self).pending@.len() <= usize::MAX,
        ensures
            final(self).wf(),
            final(self).pending@.len() == 0,
            final(self).active@ == old(self).active@ + old(self).pending@,
            final(self).written_size == old(self).written_size + old(self).pending@.len(),
            final(self).closed@ == old(self).closed@,
            final(self).sent@ == old(self).sent@,
            final(self).current_day == old(self).current_day,
            final(self).next_rotate_time == old(self).next_rotate_time,
            final(self).low_water == old(self).low_water,
            final(self).size_limit == old(self).size_limit,
            rotate_due == (final(self).written_size >= final(self).size_limit),
    {
        let n = self.pending.len();
        self.active = Ghost(self.active@ + self.pending@);
        self.written_size = self.written_size + n;
        self.pending.clear();
        proof {
            assert(all_bytes(self.closed@) + self.active@ + self.pending@ =~= all_bytes(old(self).closed@)
                + old(self).active@ + old(self).pending@);
            assert forall|d: int| #[trigger]
                bytes_of_day(self.sent@, d) == if d == self.current_day {
                    bytes_of_day(self.closed@, d) + self.active@ + self.pending@
                } else {
                    bytes_of_day(self.closed@, d)
                } by {
                if d == self.current_day {
                    assert(bytes_of_day(self.closed@, d) + self.active@ + self.pending@
                        =~= bytes_of_day(self.closed@, d) + old(self).active@ + old(self).pending@);
                }
            }
        }
        self.written_size >= self.size_limit
    }

    /// Records that the open file was renamed aside and a fresh file opened
    /// at the same path.
    pub fn rotated_by_size(&mut self)
        requires
            old(self).wf(),
            old(self).pending@.len() == 0,
        ensures
            final(self).wf(),
            final(self).closed@ == old(self).closed@.push((old(self).current_day as int, old(self).active@)),
            final(self).active@.len() == 0,
            final(self).written_size == 0,
            final(self).pending@.len() == 0,
            final(self).sent@ == old(self).sent@,
            final(self).current_day == old(self).current_day,
            final(self).next_rotate_time == old(self).next_rotate_time,
            final(self).low_water == old(self).low_water,
            final(self).size_limit == old(self).size_limit,
    {
        self.close_active();
        self.written_size = 0;
    }

    fn close_active(&mut self)
        requires
            old(self).wf(),
            old(self).pending@.len() == 0,
        ensures
            final(self).closed@ == old(self).closed@.push((old(self).current_day as int, old(self).active@)),
            final(self).active@.len() == 0,
            final(self).pending@.len() == 0,
            final(self).written_size == old(self).written_size,
            final(self).sent@ == old(self).sent@,
            final(self).current_day == old(self).current_day,
            final(self).next_rotate_time == old(self).next_rotate_time,
            final(self).low_water == old(self).low_water,
            final(self).size_limit == old(self).size_limit,
            all_bytes(final(self).closed@) == all_bytes(final(self).sent@),
            forall|d: int| #[trigger] bytes_of_day(final(self).sent@, d) == bytes_of_day(final(self).closed@, d),
    {
        let ghost item = (self.current_day as int, self.active@);
        let ghost old_closed = self.closed@;
        self.closed = Ghost(self.closed@.push(item));
        self.active = Ghost(Seq::empty());
        proof {
            lemma_push_bytes(old_closed, item);
            assert(old(self).pending@ =~= Seq::<u8>::empty());
            assert(all_bytes(old_closed) + old(self).active@ + old(self).pending@ =~= all_bytes(self.closed@));
            assert forall|d: int| #[trigger] bytes_of_day(self.sent@, d) == bytes_of_day(self.closed@, d) by {
                if d == old(self).current_day {
                    assert(bytes_of_day(old_closed, d) + old(self).active@ + old(self).pending@
                        =~= bytes_of_day(old_closed, d) + old(self).active@);
                }
            }
        }
    }

    /// Records that, at `now`, the open file was closed and the file of the
    /// new local day opened.
    pub fn rotated_by_day(&mut self, now: i64)
        requires
            old(self).wf(),
            old(self).pending@.len() == 0,
            now >= old(self).next_rotate_time,
            now < TIME_BOUND - 2 * SECS_PER_DAY,
        ensures
            final(self).wf(),
            final(self).closed@ == old(self).closed@.push((old(self).current_day as int, old(self).active@)),
            final(self).current_day == local_day(now as int),
            final(self).current_day > old(self).current_day,
            final(self).active@.len() == 0,
            final(self).written_size == 0,
            final(self).pending@.len() == 0,
            final(self).sent@ == old(self).sent@,
            final(self).low_water == old(self).low_water,
            final(self).size_limit == old(self).size_limit,
    {
        let ghost old_day = self.current_day;
        self.close_active();
        let day = local_day_of(now);
        let next = next_day_start(now);
        self.current_day = day;
        self.next_rotate_time = next;
        self.written_size = 0;
        proof {
            assert(day_start(old_day as int + 1) <= now);
            assert(day > old_day) by (nonlinear_arith)
                requires
                    day_start(old_day as int + 1) <= now,
                    now < day_start(day as int + 1),
                    day_start(old_day as int + 1) == (old_day + 1) * 86400 - 28800,
                    day_start(day as int + 1) == (day + 1) * 86400 - 28800,
            ;
            assert forall|d: int| #[trigger]
                bytes_of_day(self.sent@, d) == if d == self.current_day {
                    bytes_of_day(self.closed@, d) + self.active@ + self.pending@
                } else {
                    bytes_of_day(self.closed@, d)
                } by {
                assert(bytes_of_day(self.closed@, d) + self.active@ + self.pending@
                    =~= bytes_of_day(self.closed@, d));
            }
            assert(all_bytes(self.closed@) + self.active@ + self.pending@ =~= all_bytes(self.closed@));
        }
    }
}

/// No data loss: once the pending bytes are flushed, the files closed so
/// far (rotated siblings and earlier days) followed by the open file hold
/// exactly the accepted bytes, in the order they were accepted, so their
/// sizes add up to the total sent.
pub proof fn lemma_no_data_loss(core: FileSenderCore)
    requires
        core.wf(),
        core.pending@.len() == 0,
    ensures
        all_bytes(core.closed@) + core.active@ == all_bytes(core.sent@),
        all_bytes(core.closed@).len() + core.active@.len() == all_bytes(core.sent@).len(),
{
    assert(all_bytes(core.closed@) + core.active@ + core.pending@ =~= all_bytes(core.closed@)
        + core.active@);
}

/// Day partition: the bytes accepted for local day `d` are exactly the
/// bytes of the files of day `d` (for the current day, the open file and
/// what is still pending come last).
pub proof fn lemma_day_partition(core: FileSenderCore, d: int)
    requires
        core.wf(),
    ensures
        d != core.current_day ==> bytes_of_day(core.sent@, d) == bytes_of_day(core.closed@, d),
        d == core.current_day ==> bytes_of_day(core.sent@, d) == bytes_of_day(core.closed@, d)
            + core.active@ + core.pending@,
{
}

/// A chunk accepted at `now`, when no day rotation is due, goes to the file
/// of the local day of `now` (given a clock that has not gone back before
/// that file was opened).
pub proof fn lemma_accept_day(core: FileSenderCore, now: int)
    requires
        core.wf(),
        day_start(core.current_day as int) <= now < core.next_rotate_time,
    ensures
        local_day(now) == core.current_day,
{
    let c = core.current_day as int;
    assert(local_day(now) == c) by (nonlinear_arith)
        requires
            c * 86400 - 28800 <= now < (c + 1) * 86400 - 28800,
            local_day(now) == (now + 28800) / 86400,
    ;
}

} // verus!
