use vstd::prelude::*;
use crate::packet::{Endpoint, TransportProtocol};

verus! {

/// Identifies one RTP stream.
#[derive(Debug, Clone, Copy, PartialEq, Eq, Structural, Hash)]
pub struct RtpStreamKey {
    pub source: Endpoint,
    pub destination: Endpoint,
    pub protocol: TransportProtocol,
    pub ssrc: u32,
}

/// The known streams of one source in the order they were first seen; a stream's
/// alias is its position in that order.
pub struct StreamAliases {
    keys: Vec<RtpStreamKey>,
}

pub open spec fn distinct_keys(keys: Seq<RtpStreamKey>) -> bool {
    forall|i: int, j: int| 0 <= i < j < keys.len() ==> keys[i] != keys[j]
}

/// The table after attributing `k`, and the alias `k` gets: its position if already
/// known, else the next one.
pub open spec fn attribute_spec(keys: Seq<RtpStreamKey>, k: RtpStreamKey) -> (Seq<RtpStreamKey>, int) {
    if keys.contains(k) {
        (keys, keys.index_of(k))
    } else {
        (keys.push(k), keys.len() as int)
    }
}

/// The table after attributing each key of `ks` in turn.
pub open spec fn attribute_all(keys: Seq<RtpStreamKey>, ks: Seq<RtpStreamKey>) -> Seq<RtpStreamKey>
    decreases ks.len(),
{
    if ks.len() == 0 {
        keys
    } else {
        attribute_all(attribute_spec(keys, ks[0]).0, ks.drop_first())
    }
}

impl View for StreamAliases {
    type V = Seq<RtpStreamKey>;

    closed spec fn view(&self) -> Seq<RtpStreamKey> {
        self.keys@
    }
}

impl StreamAliases {
    pub open spec fn wf(&self) -> bool {
        distinct_keys(self@)
    }

    pub fn new() -> (r: Self)
        ensures
            r@ == Seq::<RtpStreamKey>::empty(),
            r.wf(),
    {
        StreamAliases { keys: Vec::new() }
    }

    pub fn len(&self) -> (r: usize)
        ensures
            r == self@.len(),
    {
        self.keys.len()
    }

    /// The alias of `key`, if it is known.
    pub fn find(&self, key: RtpStreamKey) -> (r: Option<usize>)
        ensures
            match r {
                Some(a) => self@.contains(key) && a < self@.len() && self@[a as int] == key,
                None => !self@.contains(key),
            },
    {
        let mut i: usize = 0;
        while i < self.keys.len()
            invariant
                i <= self.keys@.len(),
                forall|j: int| 0 <= j < i ==> self.keys@[j] != key,
            decreases self.keys@.len() - i,
        {
            if self.keys[i] == key {
                return Some(i);
            }
            i = i + 1;
        }
        None
    }

    /// The alias of `key`, registering it first if it is new.
    pub fn attribute(&mut self, key: RtpStreamKey) -> (r: usize)
        requires
            old(self).wf(),
        ensures
            final(self).wf(),
            (final(self)@, r as int) == attribute_spec(old(self)@, key),
    {
        let mut i: usize = 0;
        while i < self.keys.len()
            invariant
                i <= self.keys@.len(),
                self@ == old(self)@,
                distinct_keys(self@),
                forall|j: int| 0 <= j < i ==> self.keys@[j] != key,
            decreases self.keys@.len() - i,
        {
            if self.keys[i] == key {
                proof {
                    lemma_index_of_unique(self@, key, i as int);
                }
                return i;
            }
            i = i + 1;
        }
        assert(!self@.contains(key));
        let n = self.keys.len();
        self.keys.push(key);
        proof {
            assert forall|i: int, j: int| 0 <= i < j < self@.len() implies self@[i] != self@[j] by {
                if j == n {
                    assert(old(self)@.contains(old(self)@[i]));
                }
            }
        }
        n
    }
}

proof fn lemma_index_of_unique(s: Seq<RtpStreamKey>, k: RtpStreamKey, i: int)
    requires
        distinct_keys(s),
        0 <= i < s.len(),
        s[i] == k,
    ensures
        s.contains(k),
        s.index_of(k) == i,
{
    assert(s.contains(k));
    let c = s.index_of(k);
    assert(0 <= c < s.len() && s[c] == k);
    if c < i {
        assert(s[c] != s[i]);
    } else if c > i {
        assert(s[i] != s[c]);
    }
}

proof fn lemma_attribute_keeps(keys: Seq<RtpStreamKey>, k: RtpStreamKey, ks: Seq<RtpStreamKey>)
    requires
        distinct_keys(keys),
        keys.contains(k),
    ensures
        distinct_keys(attribute_all(keys, ks)),
        attribute_all(keys, ks).contains(k),
        attribute_all(keys, ks).index_of(k) == keys.index_of(k),
    decreases ks.len(),
{
    if ks.len() > 0 {
        let next = attribute_spec(keys, ks[0]).0;
        let at = keys.index_of(k);
        if !keys.contains(ks[0]) {
            assert forall|i: int, j: int| 0 <= i < j < next.len() implies next[i] != next[j] by {
                if j == keys.len() {
                    assert(keys.contains(keys[i]));
                }
            }
            assert(next[at] == k);
            lemma_index_of_unique(next, k, at);
        }
        lemma_attribute_keeps(next, k, ks.drop_first());
    }
}

/// A stream keeps its alias: attributing a key, then any other keys in any order, then
/// the same key again, gives the same alias both times.
pub proof fn lemma_alias_stable(keys: Seq<RtpStreamKey>, k: RtpStreamKey, others: Seq<RtpStreamKey>)
    requires
        distinct_keys(keys),
    ensures
        attribute_spec(attribute_all(attribute_spec(keys, k).0, others), k).1 == attribute_spec(
            keys,
            k,
        ).1,
{
    let first = attribute_spec(keys, k);
    if !keys.contains(k) {
        assert forall|i: int, j: int| 0 <= i < j < first.0.len() implies first.0[i] != first.0[j] by {
            if j == keys.len() {
                assert(keys.contains(keys[i]));
            }
        }
        assert(first.0[keys.len() as int] == k);
        lemma_index_of_unique(first.0, k, keys.len() as int);
    } else {
        let at = keys.index_of(k);
        lemma_index_of_unique(keys, k, at);
    }
    assert(first.0.contains(k));
    lemma_attribute_keeps(first.0, k, others);
}

} // verus!
