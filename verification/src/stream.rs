//! When the streams of the devices were last busy.
use vstd::prelude::*;

use crate::measure::{Measure, INFINITE, SIGN};

verus! {

/// When a stream of a device was last busy.
#[derive(Debug)]
pub struct StreamEnd {
    pub device: String,
    pub stream: String,
    pub end_us: Measure,
}

/// Whether an entry is that of a stream.
pub open spec fn is_stream(entry: StreamEnd, device: Seq<char>, stream: Seq<char>) -> bool {
    entry.device@ == device && entry.stream@ == stream
}

/// When a stream was last busy, as entries say.
pub open spec fn last_end(
    entries: Seq<StreamEnd>,
    device: Seq<char>,
    stream: Seq<char>,
) -> Option<Measure>
    decreases entries.len(),
{
    if entries.len() == 0 {
        None
    } else if is_stream(entries.last(), device, stream) {
        Some(entries.last().end_us)
    } else {
        last_end(entries.drop_last(), device, stream)
    }
}

/// When a stream is last busy after one more call.
pub open spec fn end_after(previous: Option<Measure>, end_us: Measure) -> Measure {
    match previous {
        Some(previous) => previous.larger(end_us),
        None => (Measure { bits: (SIGN + INFINITE) as u64 }).larger(end_us),
    }
}

proof fn lemma_last_end_at(
    entries: Seq<StreamEnd>,
    device: Seq<char>,
    stream: Seq<char>,
    i: int,
)
    requires
        0 <= i < entries.len(),
        is_stream(entries[i], device, stream),
        forall|k: int|
            i < k < entries.len() ==> !is_stream(#[trigger] entries[k], device, stream),
    ensures
        last_end(entries, device, stream) == Some(entries[i].end_us),
    decreases entries.len(),
{
    if i < entries.len() - 1 {
        assert(!is_stream(entries[entries.len() - 1], device, stream));
        let init = entries.drop_last();
        assert forall|k: int| i < k < init.len() implies !is_stream(
            #[trigger] init[k],
            device,
            stream,
        ) by {
            assert(init[k] == entries[k]);
        }
        lemma_last_end_at(init, device, stream, i);
    }
}

proof fn lemma_no_end(entries: Seq<StreamEnd>, device: Seq<char>, stream: Seq<char>)
    requires
        forall|k: int|
            0 <= k < entries.len() ==> !is_stream(#[trigger] entries[k], device, stream),
    ensures
        last_end(entries, device, stream) is None,
    decreases entries.len(),
{
    if entries.len() > 0 {
        assert(!is_stream(entries[entries.len() - 1], device, stream));
        let init = entries.drop_last();
        assert forall|k: int| 0 <= k < init.len() implies !is_stream(
            #[trigger] init[k],
            device,
            stream,
        ) by {
            assert(init[k] == entries[k]);
        }
        lemma_no_end(init, device, stream);
    }
}

proof fn lemma_update_other(
    entries: Seq<StreamEnd>,
    i: int,
    entry: StreamEnd,
    device: Seq<char>,
    stream: Seq<char>,
)
    requires
        0 <= i < entries.len(),
        !is_stream(entries[i], device, stream),
        !is_stream(entry, device, stream),
    ensures
        last_end(entries.update(i, entry), device, stream) == last_end(entries, device, stream),
    decreases entries.len(),
{
    let after = entries.update(i, entry);
    if i == entries.len() - 1 {
        assert(after.drop_last() =~= entries.drop_last());
    } else {
        assert(after.drop_last() =~= entries.drop_last().update(i, entry));
        lemma_update_other(entries.drop_last(), i, entry, device, stream);
    }
}

/// When each stream was last busy.
#[derive(Debug)]
pub struct StreamEnds {
    entries: Vec<StreamEnd>,
}

impl StreamEnds {
    /// When a stream was last busy. A stream without calls never was.
    pub closed spec fn end_of(self, device: Seq<char>, stream: Seq<char>) -> Option<Measure> {
        last_end(self.entries@, device, stream)
    }

    /// No stream has been busy.
    pub fn new() -> (r: StreamEnds)
        ensures
            forall|device: Seq<char>, stream: Seq<char>|
                (#[trigger] r.end_of(device, stream)) is None,
    {
        StreamEnds { entries: Vec::new() }
    }

    /// The place of a stream, or the length where it has none.
    fn find(&self, device: &String, stream: &String) -> (r: usize)
        ensures
            r <= self.entries@.len(),
            r < self.entries@.len() ==> is_stream(self.entries@[r as int], device@, stream@),
            r < self.entries@.len() ==> self.end_of(device@, stream@) == Some(
                self.entries@[r as int].end_us,
            ),
            r == self.entries@.len() ==> self.end_of(device@, stream@) is None,
            forall|k: int|
                r < k < self.entries@.len() ==> !is_stream(
                    #[trigger] self.entries@[k],
                    device@,
                    stream@,
                ),
    {
        let mut i: usize = self.entries.len();
        while i > 0
            invariant
                i <= self.entries@.len(),
                forall|k: int|
                    i <= k < self.entries@.len() ==> !is_stream(
                        #[trigger] self.entries@[k],
                        device@,
                        stream@,
                    ),
            decreases i,
        {
            i -= 1;
            if self.entries[i].device == *device && self.entries[i].stream == *stream {
                proof {
                    lemma_last_end_at(self.entries@, device@, stream@, i as int);
                }
                return i;
            }
        }
        proof {
            lemma_no_end(self.entries@, device@, stream@);
        }
        self.entries.len()
    }

    /// When a stream was last busy.
    pub fn previous(&self, device: &String, stream: &String) -> (r: Option<Measure>)
        ensures
            r == self.end_of(device@, stream@),
    {
        let at = self.find(device, stream);
        if at < self.entries.len() {
            Some(self.entries[at].end_us)
        } else {
            None
        }
    }

    /// Takes note of when a call on a stream ended.
    pub fn observe(&mut self, device: &String, stream: &String, end_us: Measure)
        ensures
            forall|d: Seq<char>, s: Seq<char>| #[trigger]
                final(self).end_of(d, s) == (if d == device@ && s == stream@ {
                    Some(end_after(old(self).end_of(d, s), end_us))
                } else {
                    old(self).end_of(d, s)
                }),
    {
        let at = self.find(device, stream);
        let ghost before = self.entries@;
        if at < self.entries.len() {
            let end = self.entries[at].end_us.max(end_us);
            let entry = StreamEnd { device: device.clone(), stream: stream.clone(), end_us: end };
            self.entries.set(at, entry);
            proof {
                assert forall|d: Seq<char>, s: Seq<char>| #[trigger]
                    last_end(self.entries@, d, s) == (if d == device@ && s == stream@ {
                        Some(end_after(last_end(before, d, s), end_us))
                    } else {
                        last_end(before, d, s)
                    }) by {
                    if d == device@ && s == stream@ {
                        assert forall|k: int| at < k < self.entries@.len() implies !is_stream(
                            #[trigger] self.entries@[k],
                            d,
                            s,
                        ) by {
                            assert(self.entries@[k] == before[k]);
                        }
                        lemma_last_end_at(self.entries@, d, s, at as int);
                    } else {
                        lemma_update_other(before, at as int, entry, d, s);
                    }
                }
            }
        } else {
            let end = Measure::neg_infinity().max(end_us);
            self.entries.push(
                StreamEnd { device: device.clone(), stream: stream.clone(), end_us: end },
            );
            assert(self.entries@.drop_last() =~= before);
        }
    }
}

/// A stream is never last busy earlier than it was before.
pub proof fn ends_never_go_back(previous: Measure, end_us: Measure)
    ensures
        !end_after(Some(previous), end_us).below(previous),
        !end_after(Some(previous), end_us).below(end_us),
{
}

/// How long a stream was free before a call, given the time between the end of
/// what it did before and the start of the call.
pub open spec fn free_before(gap: Option<Measure>) -> Measure {
    match gap {
        Some(gap) => gap.larger(Measure { bits: 0 }),
        None => Measure { bits: 0 },
    }
}

/// How long a stream was free before a call.
pub fn free_time(gap: Option<Measure>) -> (r: Measure)
    ensures
        r == free_before(gap),
{
    match gap {
        Some(gap) => gap.max(Measure::zero()),
        None => Measure::zero(),
    }
}

/// No stream was free for less than no time.
pub proof fn free_time_is_not_negative(gap: Option<Measure>)
    ensures
        !free_before(gap).below(Measure { bits: 0 }),
        !free_before(gap).is_nan(),
{
}

} // verus!
