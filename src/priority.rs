//! PRIORITY frames, their stream dependencies, and duplicate-free collections of them.

use vstd::prelude::*;
use crate::head::{
    head_bytes, head_of_bytes, kind_code, kind_of_code, lemma_head_round_trip, stream_id_field,
    Error, Head, Kind, StreamId, HEADER_LEN, STREAM_ID_MASK,
};
use crate::wire::{be32, lemma_be32_round_trip, put_u32};
use crate::inline_vec::{
    priority_items, priority_vec_into_vec, priority_vec_new, priority_vec_push, PriorityList,
};

verus! {

/// Length of a PRIORITY payload.
pub const DEPENDENCY_LEN: usize = 5;

/// Stream identifiers below this bound are tracked by the builder's bitmap.
pub const MAX_BITMAP_STREAMS: u32 = 32;

/// The target stream, weight and exclusivity of a stream dependency.
///
/// The weight is stored as 0..=255 and stands for the protocol weight 1..=256.
#[derive(Clone, Copy, Debug, PartialEq, Eq, Structural, Hash)]
pub struct StreamDependency {
    pub dependency_id: StreamId,
    pub weight: u8,
    pub is_exclusive: bool,
}

/// One PRIORITY frame: the stream it speaks of and that stream's dependency.
#[derive(Clone, Copy, Debug, PartialEq, Eq, Structural, Hash)]
pub struct Priority {
    pub stream_id: StreamId,
    pub dependency: StreamDependency,
}

/// The first four payload bytes of `d`: the exclusivity bit over the target stream.
pub open spec fn dependency_word(d: StreamDependency) -> u32 {
    if d.is_exclusive {
        d.dependency_id.0 | 0x8000_0000
    } else {
        d.dependency_id.0
    }
}

/// The five payload bytes of `d`.
pub open spec fn dependency_bytes(d: StreamDependency) -> Seq<u8> {
    be32(dependency_word(d)).push(d.weight)
}

/// The dependency that five payload bytes spell.
pub open spec fn dependency_of_bytes(b: Seq<u8>) -> StreamDependency {
    let (id, excl) = stream_id_field(b.subrange(0, 4));
    StreamDependency { dependency_id: id, weight: b[4], is_exclusive: excl }
}

/// What loading a dependency from `b` gives.
pub open spec fn dependency_load(b: Seq<u8>) -> Result<StreamDependency, Error> {
    if b.len() != 5 {
        Err(Error::InvalidPayloadLength)
    } else {
        Ok(dependency_of_bytes(b))
    }
}

/// What loading a PRIORITY frame with header `h` and payload `b` gives.
pub open spec fn priority_load(h: Head, b: Seq<u8>) -> Result<Priority, Error> {
    match dependency_load(b) {
        Err(e) => Err(e),
        Ok(d) => if d.dependency_id == h.stream_id {
            Err(Error::InvalidDependencyId)
        } else {
            Ok(Priority { stream_id: h.stream_id, dependency: d })
        },
    }
}

/// The header of the frame that carries `p`.
pub open spec fn priority_head(p: Priority) -> Head {
    Head { kind: Kind::Priority, flag: 0, stream_id: p.stream_id }
}

/// The whole frame that carries `p`: header, then dependency.
pub open spec fn priority_frame_bytes(p: Priority) -> Seq<u8> {
    head_bytes(priority_head(p), 5) + dependency_bytes(p.dependency)
}

impl StreamDependency {
    pub fn new(dependency_id: StreamId, weight: u8, is_exclusive: bool) -> (r: StreamDependency)
        ensures
            r == (StreamDependency { dependency_id, weight, is_exclusive }),
    {
        StreamDependency { dependency_id, weight, is_exclusive }
    }

    /// Loads a dependency from a payload of exactly five bytes.
    pub fn load(src: &[u8]) -> (r: Result<StreamDependency, Error>)
        ensures
            r == dependency_load(src@),
    {
        if src.len() != DEPENDENCY_LEN {
            return Err(Error::InvalidPayloadLength);
        }
        let (dependency_id, is_exclusive) = StreamId::parse(src);
        let weight = src[4];
        Ok(StreamDependency::new(dependency_id, weight, is_exclusive))
    }

    pub fn dependency_id(&self) -> (r: StreamId)
        ensures
            r == self.dependency_id,
    {
        self.dependency_id
    }

    pub fn weight(&self) -> (r: u8)
        ensures
            r == self.weight,
    {
        self.weight
    }

    pub fn is_exclusive(&self) -> (r: bool)
        ensures
            r == self.is_exclusive,
    {
        self.is_exclusive
    }

    /// Appends the five payload bytes.
    pub fn encode(&self, dst: &mut Vec<u8>)
        ensures
            final(dst)@ == old(dst)@ + dependency_bytes(*self),
    {
        let mut word = self.dependency_id.0;
        if self.is_exclusive {
            word = word | STREAM_ID_MASK;
        }
        put_u32(dst, word);
        dst.push(self.weight);
        assert(dst@ =~= old(dst)@ + dependency_bytes(*self));
    }
}

impl Priority {
    /// A priority for `stream_id`; any identifier is taken here, 0 included.
    pub fn new(stream_id: StreamId, dependency: StreamDependency) -> (r: Priority)
        ensures
            r == (Priority { stream_id, dependency }),
    {
        Priority { stream_id, dependency }
    }

    /// Loads a PRIORITY frame; a stream may not depend on itself.
    pub fn load(head: Head, payload: &[u8]) -> (r: Result<Priority, Error>)
        ensures
            r == priority_load(head, payload@),
    {
        let dependency = match StreamDependency::load(payload) {
            Ok(d) => d,
            Err(e) => return Err(e),
        };
        if dependency.dependency_id.0 == head.stream_id.0 {
            return Err(Error::InvalidDependencyId);
        }
        Ok(Priority { stream_id: head.stream_id, dependency })
    }

    pub fn head(&self) -> (r: Head)
        ensures
            r == priority_head(*self),
    {
        Head::new(Kind::Priority, 0, self.stream_id)
    }

    pub fn stream_id(&self) -> (r: StreamId)
        ensures
            r == self.stream_id,
    {
        self.stream_id
    }

    pub fn dependency(&self) -> (r: StreamDependency)
        ensures
            r == self.dependency,
    {
        self.dependency
    }

    /// Appends the whole frame: a header announcing five bytes, then the dependency.
    pub fn encode(&self, dst: &mut Vec<u8>)
        ensures
            final(dst)@ == old(dst)@ + priority_frame_bytes(*self),
    {
        let head = self.head();
        head.encode(DEPENDENCY_LEN, dst);
        self.dependency.encode(dst);
        assert(dst@ =~= old(dst)@ + priority_frame_bytes(*self));
    }
}

/// A dependency whose target fits in 31 bits loads back from its own bytes unchanged.
pub proof fn lemma_dependency_round_trip(d: StreamDependency)
    requires
        d.dependency_id.valid(),
    ensures
        dependency_load(dependency_bytes(d)) == Ok::<StreamDependency, Error>(d),
{
    let w = dependency_word(d);
    let id = d.dependency_id.0;
    let b = dependency_bytes(d);
    lemma_be32_round_trip(w);
    assert(b.subrange(0, 4) =~= be32(w));
    if d.is_exclusive {
        assert((id | 0x8000_0000) & 0x7fff_ffff == id && (id | 0x8000_0000) & 0x8000_0000 != 0)
            by (bit_vector)
            requires
                id < 0x8000_0000u32,
        ;
    } else {
        assert(id & 0x7fff_ffff == id && id & 0x8000_0000 == 0) by (bit_vector)
            requires
                id < 0x8000_0000u32,
        ;
    }
}

/// A priority whose stream and target fit in 31 bits and differ loads back from
/// its own frame, read under the frame's own header, unchanged.
pub proof fn lemma_priority_round_trip(p: Priority)
    requires
        p.stream_id.valid(),
        p.dependency.dependency_id.valid(),
        p.stream_id != p.dependency.dependency_id,
    ensures
        ({
            let b = priority_frame_bytes(p);
            &&& b.len() == HEADER_LEN + DEPENDENCY_LEN
            &&& head_of_bytes(b.subrange(0, 9)) == priority_head(p)
            &&& priority_load(head_of_bytes(b.subrange(0, 9)), b.subrange(9, 14))
                == Ok::<Priority, Error>(p)
        }),
{
    let h = priority_head(p);
    let b = priority_frame_bytes(p);
    assert(kind_of_code(kind_code(h.kind)) == h.kind);
    lemma_head_round_trip(h, 5);
    lemma_dependency_round_trip(p.dependency);
    assert(b.subrange(0, 9) =~= head_bytes(h, 5));
    assert(b.subrange(9, 14) =~= dependency_bytes(p.dependency));
}

/// Some entry of `s` is for stream `id`.
pub open spec fn has_stream(s: Seq<Priority>, id: u32) -> bool {
    exists|i: int| 0 <= i < s.len() && s[i].stream_id.0 == id
}

/// What pushing `p` does to the accepted entries `s`: stream 0 and a stream
/// already present are dropped, anything else is appended.
pub open spec fn push_priority(s: Seq<Priority>, p: Priority) -> Seq<Priority> {
    if p.stream_id.0 == 0 || has_stream(s, p.stream_id.0) {
        s
    } else {
        s.push(p)
    }
}

/// Pushing each of `input` in turn, from the first.
pub open spec fn push_priorities(s: Seq<Priority>, input: Seq<Priority>) -> Seq<Priority>
    decreases input.len(),
{
    if input.len() == 0 {
        s
    } else {
        push_priority(push_priorities(s, input.drop_last()), input.last())
    }
}

proof fn lemma_push_priorities_len(s: Seq<Priority>, input: Seq<Priority>)
    ensures
        push_priorities(s, input).len() <= s.len() + input.len(),
    decreases input.len(),
{
    if input.len() > 0 {
        lemma_push_priorities_len(s, input.drop_last());
    }
}

/// The largest stream identifier in `s`, 0 when `s` is empty.
pub open spec fn max_stream(s: Seq<Priority>) -> u32
    decreases s.len(),
{
    if s.len() == 0 {
        0
    } else {
        let m = max_stream(s.drop_last());
        if s.last().stream_id.0 > m {
            s.last().stream_id.0
        } else {
            m
        }
    }
}

/// No entry is for stream 0 and no two entries are for the same stream.
pub open spec fn distinct_streams(s: Seq<Priority>) -> bool {
    &&& forall|i: int| 0 <= i < s.len() ==> s[i].stream_id.0 != 0
    &&& forall|i: int, j: int| 0 <= i < j < s.len() ==> s[i].stream_id != s[j].stream_id
}

/// Bit `i` of `b` is set.
pub open spec fn bit_set(b: u32, i: u32) -> bool {
    (b >> i) & 1 == 1
}

/// An ordered collection of priorities, one per stream, none for stream 0.
#[derive(Clone, Debug, PartialEq, Eq, Hash)]
pub struct Priorities {
    pub priorities: PriorityList,
    pub max_stream_id: StreamId,
}

/// Collects priorities one at a time, dropping those that may not be kept.
#[derive(Debug)]
pub struct PrioritiesBuilder {
    pub priorities: PriorityList,
    pub max_stream_id: StreamId,
    /// Bit `i` is set when stream `i` (below 32) has been accepted.
    pub inserted_bitmap: u32,
}

impl Priorities {
    pub open spec fn wf(&self) -> bool {
        &&& distinct_streams(priority_items(self.priorities))
        &&& self.max_stream_id.0 == max_stream(priority_items(self.priorities))
    }

    pub fn builder() -> (r: PrioritiesBuilder)
        ensures
            r.wf(),
            priority_items(r.priorities).len() == 0,
            r.max_stream_id.0 == 0,
    {
        assert forall|i: u32| i < 32 implies !#[trigger] bit_set(0, i) by {
            assert((0u32 >> i) & 1 == 0) by (bit_vector);
        }
        PrioritiesBuilder { priorities: priority_vec_new(), max_stream_id: StreamId::zero(), inserted_bitmap: 0 }
    }

    /// The largest stream identifier among the entries, 0 when there is none.
    pub fn max_stream_id(&self) -> (r: StreamId)
        ensures
            r == self.max_stream_id,
    {
        self.max_stream_id
    }

    /// The entries, in the order in which they were accepted.
    pub fn as_slice(&self) -> (r: &[Priority])
        ensures
            r@ == priority_items(self.priorities),
    {
        self.priorities.as_slice()
    }

    pub fn len(&self) -> (r: usize)
        ensures
            r == priority_items(self.priorities).len(),
    {
        self.priorities.as_slice().len()
    }

    /// The entries, in the order in which they were accepted.
    pub fn into_vec(self) -> (r: Vec<Priority>)
        ensures
            r@ == priority_items(self.priorities),
    {
        priority_vec_into_vec(self.priorities)
    }
}

/// Whether some entry of `v` is for stream `id`.
fn contains_stream(list: &PriorityList, id: StreamId) -> (r: bool)
    ensures
        r == has_stream(priority_items(*list), id.0),
{
    let v = list.as_slice();
    let mut i: usize = 0;
    while i < v.len()
        invariant
            0 <= i <= v@.len(),
            v@ == priority_items(*list),
            forall|j: int| 0 <= j < i ==> v@[j].stream_id.0 != id.0,
        decreases v@.len() - i,
    {
        if v[i].stream_id.0 == id.0 {
            return true;
        }
        i = i + 1;
    }
    false
}

proof fn lemma_bitmap_test(b: u32, id: u32)
    requires
        id < 32,
    ensures
        (b & (1u32 << id) != 0) == bit_set(b, id),
        forall|i: u32| i < 32 ==> #[trigger] bit_set(b | (1u32 << id), i) == (bit_set(b, i) || i == id),
{
    assert((b & (1u32 << id) != 0) == ((b >> id) & 1 == 1)) by (bit_vector)
        requires
            id < 32,
    ;
    assert forall|i: u32| i < 32 implies #[trigger] bit_set(b | (1u32 << id), i) == (bit_set(b, i) || i == id) by {
        assert((((b | (1u32 << id)) >> i) & 1 == 1) == (((b >> i) & 1 == 1) || i == id)) by (bit_vector)
            requires
                id < 32,
                i < 32,
        ;
    }
}

impl PrioritiesBuilder {
    pub open spec fn wf(&self) -> bool {
        &&& distinct_streams(priority_items(self.priorities))
        &&& self.max_stream_id.0 == max_stream(priority_items(self.priorities))
        &&& forall|i: u32| i < 32 ==> (#[trigger] bit_set(self.inserted_bitmap, i) <==> has_stream(priority_items(self.priorities), i))
    }

    /// Accepts `priority` unless it is for stream 0 or for a stream already accepted.
    pub fn push(self, priority: Priority) -> (r: PrioritiesBuilder)
        requires
            self.wf(),
            priority_items(self.priorities).len() < usize::MAX,
        ensures
            r.wf(),
            priority_items(r.priorities) == push_priority(priority_items(self.priorities), priority),
    {
        let mut this = self;
        if priority.stream_id.is_zero() {
            return this;
        }
        let id = priority.stream_id.0;
        if id < MAX_BITMAP_STREAMS {
            let mask = 1u32 << id;
            proof {
                lemma_bitmap_test(this.inserted_bitmap, id);
            }
            if this.inserted_bitmap & mask != 0 {
                return this;
            }
            this.inserted_bitmap = this.inserted_bitmap | mask;
        } else {
            if contains_stream(&this.priorities, priority.stream_id) {
                return this;
            }
        }
        if priority.stream_id.0 > this.max_stream_id.0 {
            this.max_stream_id = priority.stream_id;
        }
        let ghost old_s = priority_items(this.priorities);
        priority_vec_push(&mut this.priorities, priority);
        proof {
            let s = priority_items(this.priorities);
            assert(s.drop_last() =~= old_s);
            assert forall|i: u32| i < 32 implies (#[trigger] bit_set(this.inserted_bitmap, i) <==> has_stream(s, i)) by {
                if has_stream(s, i) {
                    let j = choose|j: int| 0 <= j < s.len() && s[j].stream_id.0 == i;
                    if j < old_s.len() {
                        assert(old_s[j] == s[j]);
                    }
                }
                if has_stream(old_s, i) {
                    let j = choose|j: int| 0 <= j < old_s.len() && old_s[j].stream_id.0 == i;
                    assert(s[j] == old_s[j]);
                }
                if i == id {
                    assert(s[s.len() - 1].stream_id.0 == i);
                }
            }
            assert forall|i: int, j: int| 0 <= i < j < s.len() implies s[i].stream_id != s[j].stream_id by {
                if j == s.len() - 1 {
                    assert(old_s[i] == s[i]);
                    if s[i].stream_id == s[j].stream_id {
                        assert(has_stream(old_s, id));
                    }
                }
            }
        }
        this
    }

    /// Pushes each of `priorities` in turn; the first for a stream wins.
    pub fn extend(self, priorities: Vec<Priority>) -> (r: PrioritiesBuilder)
        requires
            self.wf(),
            priority_items(self.priorities).len() + priorities@.len() < usize::MAX,
        ensures
            r.wf(),
            priority_items(r.priorities) == push_priorities(priority_items(self.priorities), priorities@),
    {
        let mut this = self;
        let ghost start = priority_items(this.priorities);
        let mut i: usize = 0;
        while i < priorities.len()
            invariant
                0 <= i <= priorities@.len(),
                this.wf(),
                priority_items(this.priorities) == push_priorities(start, priorities@.take(i as int)),
                start.len() + priorities@.len() < usize::MAX,
            decreases priorities@.len() - i,
        {
            proof {
                assert(priorities@.take(i as int + 1).drop_last() =~= priorities@.take(i as int));
                lemma_push_priorities_len(start, priorities@.take(i as int));
            }
            this = this.push(priorities[i]);
            i = i + 1;
        }
        proof {
            assert(priorities@.take(i as int) =~= priorities@);
        }
        this
    }

    /// Freezes the accepted entries and their largest stream identifier.
    pub fn build(self) -> (r: Priorities)
        requires
            self.wf(),
        ensures
            r.wf(),
            priority_items(r.priorities) == priority_items(self.priorities),
            r.max_stream_id == self.max_stream_id,
    {
        Priorities { priorities: self.priorities, max_stream_id: self.max_stream_id }
    }
}

/// Of two priorities for the same stream, pushed one after the other, only the
/// first is kept.
pub proof fn lemma_push_same_stream_keeps_first(s: Seq<Priority>, p: Priority, q: Priority)
    requires
        p.stream_id == q.stream_id,
    ensures
        push_priority(push_priority(s, p), q) == push_priority(s, p),
{
    let t = push_priority(s, p);
    if p.stream_id.0 != 0 && !has_stream(s, p.stream_id.0) {
        assert(t[t.len() - 1] == p);
        assert(has_stream(t, q.stream_id.0));
    }
}

/// A priority for stream 0 is never kept, and leaves the largest stream
/// identifier as it was.
pub proof fn lemma_push_stream_zero_ignored(s: Seq<Priority>, p: Priority)
    requires
        p.stream_id.0 == 0,
    ensures
        push_priority(s, p) == s,
        max_stream(push_priority(s, p)) == max_stream(s),
        !has_stream(push_priority(s, p), 0) <== distinct_streams(s),
{
}

} // verus!
