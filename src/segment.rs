//! The incremental segmenter: bytes arrive one at a time and are cut into
//! complete event spans. An ESC that may begin a longer sequence is held
//! until more bytes settle it or until a flush timeout passes with nothing
//! new, when the held bytes go out as they are.
//!
//! Time is given to it as milliseconds on a monotonic clock; waiting and
//! reading are the caller's.

use vstd::prelude::*;
use std::collections::VecDeque;
use crate::decode::{
    decode_spec, is_final_byte, no_mods, EventView, NamedKey, ESC, LEFT_BRACKET, LETTER_O,
};
use crate::text::{field_numbers, fields, utf8_char_width, utf8_width, U16_MAX};
use vstd::utf8::{
    codepoint_width_2, decode_first_codepoint, decode_utf8, pop_first_scalar, valid_first_scalar,
    valid_utf8,
};

verus! {

/// The longest control sequence the segmenter waits for: a CSI sequence
/// with no final byte in its first this many bytes is cut there.
pub const CSI_LOOKAHEAD: usize = 64;

/// Index of the first final byte (0x40..=0x7E) in `s`.
pub open spec fn first_final(s: Seq<u8>) -> Option<nat>
    decreases s.len(),
{
    if s.len() == 0 {
        None
    } else {
        match first_final(s.drop_last()) {
            Some(i) => Some(i),
            None => if is_final_byte(s.last()) {
                Some((s.len() - 1) as nat)
            } else {
                None
            },
        }
    }
}

/// Length of the CSI sequence that `buf` starts with (ESC `[` first): up to
/// and including the first final byte within the lookahead, or the whole
/// lookahead when it holds none.
pub open spec fn csi_span_len(buf: Seq<u8>) -> Option<nat> {
    if buf.len() < 3 {
        None
    } else {
        let end = if buf.len() < CSI_LOOKAHEAD {
            buf.len() as int
        } else {
            CSI_LOOKAHEAD as int
        };
        match first_final(buf.subrange(2, end)) {
            Some(i) => Some(i + 3),
            None => if buf.len() >= CSI_LOOKAHEAD {
                Some(CSI_LOOKAHEAD as nat)
            } else {
                None
            },
        }
    }
}

/// Length of the complete event at the front of `buf`, or `None` while more
/// bytes are needed to tell.
pub open spec fn event_len(buf: Seq<u8>) -> Option<nat> {
    if buf.len() == 0 {
        None
    } else if buf[0] == ESC {
        if buf.len() < 2 {
            None
        } else if buf[1] == LEFT_BRACKET {
            csi_span_len(buf)
        } else if buf[1] == LETTER_O {
            if buf.len() >= 3 {
                Some(3)
            } else {
                None
            }
        } else if buf.len() >= 1 + utf8_width(buf[1]) {
            Some(1 + utf8_width(buf[1]))
        } else {
            None
        }
    } else if buf[0] >= 0x80 {
        if buf.len() >= utf8_width(buf[0]) {
            Some(utf8_width(buf[0]))
        } else {
            None
        }
    } else {
        Some(1)
    }
}

/// `buf` cut into complete spans from the front, and the rest that is not
/// yet complete.
pub open spec fn segment(buf: Seq<u8>) -> (Seq<Seq<u8>>, Seq<u8>)
    decreases buf.len(),
{
    match event_len(buf) {
        Some(n) => if 0 < n <= buf.len() {
            let rest = segment(buf.subrange(n as int, buf.len() as int));
            (seq![buf.subrange(0, n as int)] + rest.0, rest.1)
        } else {
            (seq![], buf)
        },
        None => (seq![], buf),
    }
}

pub open spec fn opt_len(o: Option<usize>) -> Option<nat> {
    match o {
        Some(n) => Some(n as nat),
        None => None,
    }
}

proof fn lemma_first_final_bound(s: Seq<u8>)
    ensures
        first_final(s) matches Some(i) ==> i < s.len() && is_final_byte(s[i as int]),
    decreases s.len(),
{
    if s.len() > 0 {
        lemma_first_final_bound(s.drop_last());
    }
}

pub(crate) proof fn lemma_first_final_prefix(s: Seq<u8>, k: int)
    requires
        0 <= k <= s.len(),
        first_final(s.subrange(0, k)) is Some,
    ensures
        first_final(s) == first_final(s.subrange(0, k)),
    decreases s.len(),
{
    if k == s.len() {
        assert(s.subrange(0, k) =~= s);
    } else {
        assert(s.drop_last().subrange(0, k) =~= s.subrange(0, k));
        lemma_first_final_prefix(s.drop_last(), k);
    }
}

/// Where there is no final byte, no byte is final.
pub(crate) proof fn lemma_first_final_none(s: Seq<u8>, k: int)
    requires
        first_final(s) is None,
        0 <= k < s.len(),
    ensures
        !is_final_byte(s[k]),
    decreases s.len(),
{
    if k < s.len() - 1 {
        lemma_first_final_none(s.drop_last(), k);
    }
}

/// A complete event is at least one byte and no longer than the buffer.
pub proof fn lemma_event_len_bounds(buf: Seq<u8>)
    ensures
        event_len(buf) matches Some(n) ==> 1 <= n <= buf.len(),
{
    if buf.len() >= 3 && buf[0] == ESC && buf[1] == LEFT_BRACKET {
        let end = if buf.len() < CSI_LOOKAHEAD {
            buf.len() as int
        } else {
            CSI_LOOKAHEAD as int
        };
        lemma_first_final_bound(buf.subrange(2, end));
    }
}

/// Length of the CSI sequence at the front of `buffer`, which starts with
/// ESC `[` (see `csi_span_len`).
pub fn csi_sequence_length(buffer: &[u8]) -> (r: Option<usize>)
    ensures
        opt_len(r) == csi_span_len(buffer@),
{
    let n = buffer.len();
    if n < 3 {
        return None;
    }
    let end: usize = if n < CSI_LOOKAHEAD {
        n
    } else {
        CSI_LOOKAHEAD
    };
    let ghost window = buffer@.subrange(2, end as int);
    let mut i: usize = 2;
    assert(buffer@.subrange(2, 2) =~= Seq::<u8>::empty());
    while i < end
        invariant
            2 <= i <= end <= n,
            n == buffer@.len(),
            end == if n < CSI_LOOKAHEAD {
                n
            } else {
                CSI_LOOKAHEAD
            },
            window == buffer@.subrange(2, end as int),
            first_final(buffer@.subrange(2, i as int)) is None,
        decreases end - i,
    {
        let b = buffer[i];
        let ghost pre = buffer@.subrange(2, i as int + 1);
        assert(pre.drop_last() =~= buffer@.subrange(2, i as int));
        if 0x40 <= b && b <= 0x7E {
            proof {
                assert(window.subrange(0, i - 1) =~= pre);
                lemma_first_final_prefix(window, i - 1);
            }
            return Some(i + 1);
        }
        i = i + 1;
    }
    assert(buffer@.subrange(2, i as int) =~= window);
    if n >= CSI_LOOKAHEAD {
        Some(CSI_LOOKAHEAD)
    } else {
        None
    }
}

/// Length of the complete event at the front of `buffer`, if it is complete.
pub fn try_extract_event(buffer: &[u8]) -> (r: Option<usize>)
    ensures
        opt_len(r) == event_len(buffer@),
{
    let n = buffer.len();
    if n == 0 {
        return None;
    }
    let first = buffer[0];
    if first == ESC {
        if n >= 2 {
            let second = buffer[1];
            if second == LEFT_BRACKET {
                return csi_sequence_length(buffer);
            } else if second == LETTER_O {
                if n >= 3 {
                    return Some(3);
                }
            } else {
                let width = utf8_char_width(second);
                if n >= 1 + width {
                    return Some(1 + width);
                }
            }
        }
        return None;
    }
    if first >= 0x80 {
        let width = utf8_char_width(first);
        if n >= width {
            return Some(width);
        }
        return None;
    }
    Some(1)
}

/// The segmenter's state: bytes not yet resolved into an event, the spans
/// cut but not yet taken (oldest first), when the last pending byte came,
/// and the flush timeout.
pub struct Segmenter {
    buffer: Vec<u8>,
    ready: VecDeque<Vec<u8>>,
    last_byte_at: Option<u64>,
    flush_timeout: u64,
}

pub ghost struct SegmenterView {
    pub pending: Seq<u8>,
    pub ready: Seq<Seq<u8>>,
    pub last_byte_at: Option<u64>,
    pub flush_timeout: u64,
}

impl View for Segmenter {
    type V = SegmenterView;

    closed spec fn view(&self) -> SegmenterView {
        SegmenterView {
            pending: self.buffer@,
            ready: spans(self.ready),
            last_byte_at: self.last_byte_at,
            flush_timeout: self.flush_timeout,
        }
    }
}

/// The byte spans a queue holds, oldest first.
pub open spec fn spans(q: VecDeque<Vec<u8>>) -> Seq<Seq<u8>> {
    q@.map_values(|v: Vec<u8>| v@)
}

/// Milliseconds from `since` to `now`; none if the clock reads earlier.
pub open spec fn elapsed(since: u64, now: u64) -> nat {
    if now >= since {
        (now - since) as nat
    } else {
        0
    }
}

impl SegmenterView {
    /// Nothing pending is complete, a time is kept whenever something is
    /// pending, and every ready span holds bytes.
    pub open spec fn wf(self) -> bool {
        &&& event_len(self.pending) is None
        &&& (self.pending.len() > 0 ==> self.last_byte_at is Some)
        &&& forall|i: int| 0 <= i < self.ready.len() ==> (#[trigger] self.ready[i]).len() > 0
    }

    /// The pending bytes begin with ESC, the one prefix that a timeout settles.
    pub open spec fn awaits_flush(self) -> bool {
        self.pending.len() > 0 && self.pending[0] == ESC && self.last_byte_at is Some
    }

    /// The pending ESC prefix has waited its full flush timeout.
    pub open spec fn flush_due(self, now: u64) -> bool {
        self.awaits_flush() && elapsed(self.last_byte_at->0, now) >= self.flush_timeout
    }

    /// The state after `byte` arrives at `now`: spans that complete join the
    /// ready queue, in order.
    pub open spec fn push(self, byte: u8, now: u64) -> SegmenterView {
        let (spans, rest) = segment(self.pending.push(byte));
        SegmenterView {
            pending: rest,
            ready: self.ready + spans,
            last_byte_at: if rest.len() > 0 {
                Some(now)
            } else {
                None
            },
            flush_timeout: self.flush_timeout,
        }
    }

    /// The next event and the state after it: the oldest ready span, else
    /// the pending bytes once their flush is due, else nothing.
    pub open spec fn next(self, now: u64) -> (Option<Seq<u8>>, SegmenterView) {
        if self.ready.len() > 0 {
            (
                Some(self.ready[0]),
                SegmenterView {
                    pending: self.pending,
                    ready: self.ready.drop_first(),
                    last_byte_at: self.last_byte_at,
                    flush_timeout: self.flush_timeout,
                },
            )
        } else if self.flush_due(now) {
            (
                Some(self.pending),
                SegmenterView {
                    pending: seq![],
                    ready: self.ready,
                    last_byte_at: None,
                    flush_timeout: self.flush_timeout,
                },
            )
        } else {
            (None, self)
        }
    }

    /// How long a caller that asked to wait `requested` ms may block: no
    /// longer than until the pending ESC prefix is due.
    pub open spec fn wait_time(self, requested: u64, now: u64) -> u64 {
        if self.awaits_flush() {
            let e = elapsed(self.last_byte_at->0, now);
            if e >= self.flush_timeout {
                0
            } else if requested <= self.flush_timeout - e {
                requested
            } else {
                (self.flush_timeout - e) as u64
            }
        } else {
            requested
        }
    }
}

pub open spec fn opt_bytes(o: Option<Vec<u8>>) -> Option<Seq<u8>> {
    match o {
        Some(v) => Some(v@),
        None => None,
    }
}

/// What remains of a buffer after cutting is never itself complete.
proof fn lemma_segment_rest_incomplete(buf: Seq<u8>)
    ensures
        event_len(segment(buf).1) is None,
    decreases buf.len(),
{
    lemma_event_len_bounds(buf);
    if let Some(n) = event_len(buf) {
        lemma_segment_rest_incomplete(buf.subrange(n as int, buf.len() as int));
    }
}

/// A segmenter with nothing pending or ready.
pub open spec fn idle(flush_timeout: u64) -> SegmenterView {
    SegmenterView { pending: seq![], ready: seq![], last_byte_at: None, flush_timeout }
}

/// A lone ESC is held back until the flush timeout has passed with no
/// further byte; then it comes out once, by itself, and decodes to the Esc
/// key. Nothing comes out before, and nothing after.
pub proof fn lemma_lone_esc_flushes(flush_timeout: u64, at: u64, now: u64, later: u64)
    ensures
        ({
            let s1 = idle(flush_timeout).push(ESC, at);
            let (event, s2) = s1.next(now);
            &&& s1.pending == seq![ESC]
            &&& s1.ready.len() == 0
            &&& elapsed(at, now) < flush_timeout ==> event is None && s2 == s1
            &&& elapsed(at, now) >= flush_timeout ==> {
                &&& event == Some(seq![ESC])
                &&& decode_spec(seq![ESC]) == EventView::Named(NamedKey::Esc, no_mods())
                &&& s2.next(later).0 is None
            }
        }),
{
    let b = seq![ESC];
    assert(Seq::<u8>::empty().push(ESC) =~= b);
    assert(segment(b) == (Seq::<Seq<u8>>::empty(), b));
    assert(Seq::<Seq<u8>>::empty() + Seq::<Seq<u8>>::empty() =~= Seq::<Seq<u8>>::empty());
}

/// ESC `[` `A`, each byte within the flush timeout of the one before, is
/// one event, never two: nothing comes out on the way, and then exactly the
/// three bytes, which decode to the Up key.
pub proof fn lemma_escape_sequence_stays_whole(
    flush_timeout: u64,
    t0: u64,
    t1: u64,
    t2: u64,
    later: u64,
)
    requires
        elapsed(t0, t1) < flush_timeout,
        elapsed(t1, t2) < flush_timeout,
    ensures
        ({
            let s1 = idle(flush_timeout).push(ESC, t0);
            let s2 = s1.push(LEFT_BRACKET, t1);
            let s3 = s2.push(0x41, t2);
            &&& s1.next(t1) == (None::<Seq<u8>>, s1)
            &&& s2.next(t2) == (None::<Seq<u8>>, s2)
            &&& s3.pending.len() == 0
            &&& s3.ready == seq![seq![ESC, LEFT_BRACKET, 0x41u8]]
            &&& decode_spec(s3.ready[0]) == EventView::Named(NamedKey::Up, no_mods())
            &&& s3.next(later).1.next(later).0 is None
        }),
{
    let e = Seq::<Seq<u8>>::empty();
    let b1 = seq![ESC];
    let b2 = seq![ESC, LEFT_BRACKET];
    let b3 = seq![ESC, LEFT_BRACKET, 0x41u8];
    assert(Seq::<u8>::empty().push(ESC) =~= b1);
    assert(segment(b1) == (e, b1));
    assert(e + e =~= e);
    assert(b1.push(LEFT_BRACKET) =~= b2);
    assert(segment(b2) == (e, b2));
    assert(b2.push(0x41) =~= b3);
    assert(b3.subrange(2, 3) =~= seq![0x41u8]);
    assert(b3.subrange(2, 3).drop_last() =~= Seq::<u8>::empty());
    assert(first_final(Seq::<u8>::empty()) is None);
    assert(first_final(b3.subrange(2, 3)) == Some(0nat));
    assert(event_len(b3) == Some(3nat));
    assert(b3.subrange(0, 3) =~= b3);
    let tail = b3.subrange(3, 3);
    assert(tail =~= Seq::<u8>::empty());
    assert(segment(tail) == (e, tail));
    assert(segment(b3) == (seq![b3] + e, tail));
    assert(seq![b3] + e =~= seq![b3]);
    assert(e + seq![b3] =~= seq![b3]);
    let s3 = idle(flush_timeout).push(ESC, t0).push(LEFT_BRACKET, t1).push(0x41, t2);
    assert(s3.ready.drop_first() =~= e);
    assert(b3.subrange(2, 2) =~= Seq::<u8>::empty());
    assert(fields(Seq::<u8>::empty()).drop_last() =~= Seq::<Seq<u8>>::empty());
    assert(field_numbers(seq![Seq::<u8>::empty()], U16_MAX as nat) == Some(Seq::<u32>::empty())) by {
        reveal_with_fuel(field_numbers, 2);
        assert(seq![Seq::<u8>::empty()].drop_last() =~= Seq::<Seq<u8>>::empty());
    }
}

/// The two bytes of a UTF-8 `é` (0xC3 0xA9), given one at a time, are one
/// event: the lead byte alone is never flushed, however long the wait, and
/// the pair decodes to the character `é` with no modifier.
pub proof fn lemma_utf8_pair_stays_whole(flush_timeout: u64, t0: u64, t1: u64, any: u64)
    ensures
        ({
            let s1 = idle(flush_timeout).push(0xC3, t0);
            let s2 = s1.push(0xA9, t1);
            &&& s1.next(any) == (None::<Seq<u8>>, s1)
            &&& s2.pending.len() == 0
            &&& s2.ready == seq![seq![0xC3u8, 0xA9u8]]
            &&& decode_spec(s2.ready[0]) == EventView::Char('\u{e9}', no_mods())
        }),
{
    let e = Seq::<Seq<u8>>::empty();
    let b1 = seq![0xC3u8];
    let b2 = seq![0xC3u8, 0xA9u8];
    assert(Seq::<u8>::empty().push(0xC3) =~= b1);
    assert(segment(b1) == (e, b1));
    assert(e + e =~= e);
    assert(b1.push(0xA9) =~= b2);
    assert(event_len(b2) == Some(2nat));
    assert(b2.subrange(0, 2) =~= b2);
    let tail = b2.subrange(2, 2);
    assert(tail =~= Seq::<u8>::empty());
    assert(segment(tail) == (e, tail));
    assert(seq![b2] + e =~= seq![b2]);
    assert(e + seq![b2] =~= seq![b2]);
    assert(((0xC3u8 & 0x1F) as u32) << 6 | ((0xA9u8 & 0x3F) as u32) == 0xE9) by (bit_vector);
    assert(codepoint_width_2(0xC3u8, 0xA9u8) == 0xE9);
    assert(decode_first_codepoint(b2) == 0xE9);
    assert(valid_first_scalar(b2));
    assert(pop_first_scalar(b2) =~= Seq::<u8>::empty());
    assert(valid_utf8(Seq::<u8>::empty()));
    assert(decode_utf8(Seq::<u8>::empty()) =~= Seq::<char>::empty());
    assert(valid_utf8(b2));
    assert(decode_utf8(b2) =~= seq!['\u{e9}']);
    assert(b2.drop_first() =~= seq![0xA9u8]);
    assert(!valid_utf8(seq![0xA9u8]));
}

impl Segmenter {
    #[verifier::type_invariant]
    spec fn inv(&self) -> bool {
        self@.wf()
    }

    /// An empty segmenter that flushes a stalled ESC prefix after
    /// `flush_timeout` ms.
    pub fn new(flush_timeout: u64) -> (r: Segmenter)
        ensures
            r@ == idle(flush_timeout),
    {
        let r = Segmenter {
            buffer: Vec::new(),
            ready: VecDeque::new(),
            last_byte_at: None,
            flush_timeout,
        };
        assert(r@.ready =~= Seq::<Seq<u8>>::empty());
        r
    }

    /// Appends `byte`, received at `now`, and cuts every event that is now
    /// complete off the front of the pending bytes.
    pub fn push_byte(&mut self, byte: u8, now: u64)
        ensures
            final(self)@ == old(self)@.push(byte, now),
    {
        proof {
            use_type_invariant(&*self);
        }
        let ghost start = self@;
        let ghost target = segment(start.pending.push(byte));
        let mut buffer: Vec<u8> = Vec::new();
        let mut ready: VecDeque<Vec<u8>> = VecDeque::new();
        core::mem::swap(&mut self.buffer, &mut buffer);
        core::mem::swap(&mut self.ready, &mut ready);
        buffer.push(byte);
        assert(self@.ready =~= Seq::<Seq<u8>>::empty());
        assert(self@.pending =~= Seq::<u8>::empty());
        assert(segment(buffer@) == target);
        assert(start.ready + segment(buffer@).0 =~= start.ready + target.0);
        loop
            invariant
                target == segment(start.pending.push(byte)),
                spans(ready) + segment(buffer@).0 == start.ready + target.0,
                segment(buffer@).1 == target.1,
                self@ == (SegmenterView { pending: seq![], ready: seq![], ..start }),
                forall|i: int| 0 <= i < spans(ready).len() ==> (#[trigger] spans(ready)[i]).len() > 0,
            ensures
                spans(ready) == start.ready + target.0,
                buffer@ == target.1,
            decreases buffer@.len(),
        {
            let ghost before = spans(ready);
            proof {
                lemma_event_len_bounds(buffer@);
            }
            match try_extract_event(buffer.as_slice()) {
                Some(len) => {
                    let ghost buf = buffer@;
                    let mut event = buffer.split_off(len);
                    core::mem::swap(&mut buffer, &mut event);
                    assert(event@ == buf.subrange(0, len as int));
                    assert(buffer@ == buf.subrange(len as int, buf.len() as int));
                    ready.push_back(event);
                    assert(spans(ready) =~= before.push(event@));
                    assert(spans(ready) + segment(buffer@).0 =~= before + segment(buf).0);
                },
                None => {
                    assert(spans(ready) + segment(buffer@).0 =~= spans(ready));
                    break;
                },
            }
        }
        proof {
            lemma_segment_rest_incomplete(start.pending.push(byte));
        }
        core::mem::swap(&mut self.ready, &mut ready);
        if buffer.len() > 0 {
            self.last_byte_at = Some(now);
        } else {
            self.last_byte_at = None;
        }
        self.buffer = buffer;
    }

    /// Whether the pending ESC prefix has waited out its flush timeout.
    pub fn should_flush_pending(&self, now: u64) -> (r: bool)
        ensures
            r == self@.flush_due(now),
    {
        if self.buffer.len() == 0 || self.buffer[0] != ESC {
            return false;
        }
        match self.last_byte_at {
            Some(at) => {
                let e: u64 = if now >= at {
                    now - at
                } else {
                    0
                };
                e >= self.flush_timeout
            },
            None => false,
        }
    }

    /// The wait to hand to the blocking primitive when the caller asked for
    /// `requested` ms: cut short so that a pending ESC is settled on time.
    pub fn effective_timeout(&self, requested: u64, now: u64) -> (r: u64)
        ensures
            r == self@.wait_time(requested, now),
    {
        if self.buffer.len() == 0 || self.buffer[0] != ESC {
            return requested;
        }
        match self.last_byte_at {
            Some(at) => {
                let e: u64 = if now >= at {
                    now - at
                } else {
                    0
                };
                if e >= self.flush_timeout {
                    0
                } else if requested <= self.flush_timeout - e {
                    requested
                } else {
                    self.flush_timeout - e
                }
            },
            None => requested,
        }
    }

    /// The oldest span that is ready, if any.
    pub fn pop_ready(&mut self) -> (r: Option<Vec<u8>>)
        ensures
            old(self)@.ready.len() > 0 ==> {
                &&& opt_bytes(r) == Some(old(self)@.ready[0])
                &&& final(self)@ == (SegmenterView { ready: old(self)@.ready.drop_first(), ..old(self)@ })
            },
            old(self)@.ready.len() == 0 ==> r is None && final(self)@ == old(self)@,
    {
        proof {
            use_type_invariant(&*self);
        }
        let ghost before = self@;
        let mut ready: VecDeque<Vec<u8>> = VecDeque::new();
        core::mem::swap(&mut self.ready, &mut ready);
        let r = ready.pop_front();
        proof {
            if before.ready.len() > 0 {
                assert(spans(ready) =~= before.ready.drop_first());
                assert forall|i: int| 0 <= i < spans(ready).len() implies (#[trigger] spans(
                    ready,
                )[i]).len() > 0 by {
                    assert(spans(ready)[i] == before.ready[i + 1]);
                }
            }
        }
        core::mem::swap(&mut self.ready, &mut ready);
        r
    }

    /// The next event at time `now`: the oldest ready span, else the pending
    /// ESC prefix once its flush is due (handed out as it is), else nothing.
    pub fn next_ready(&mut self, now: u64) -> (r: Option<Vec<u8>>)
        ensures
            (opt_bytes(r), final(self)@) == old(self)@.next(now),
    {
        proof {
            use_type_invariant(&*self);
        }
        if self.ready.len() > 0 {
            return self.pop_ready();
        }
        if self.should_flush_pending(now) {
            let mut event: Vec<u8> = Vec::new();
            core::mem::swap(&mut self.buffer, &mut event);
            self.last_byte_at = None;
            return Some(event);
        }
        None
    }

    /// Whether bytes are pending that form no event yet.
    pub fn has_pending(&self) -> (r: bool)
        ensures
            r == (self@.pending.len() > 0),
    {
        self.buffer.len() > 0
    }
}

} // verus!
