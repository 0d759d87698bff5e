use vstd::prelude::*;
use crate::bytes::append_bytes;
use crate::pat::{
    checked_pat_of_section, stuffing_free_len, strip_stuffing, FragmentView,
    FragmentaryProgramAssociationTable, ProgramAssociationTable,
};

verus! {

/// Collects the sections of one PSI section group (a PAT's, or a program map's), each
/// at the index given by its `section_number`, until every index up to
/// `last_section_number` is filled.
pub struct PatBuffer {
    version_number: Option<u8>,
    last_section_number: u8,
    pat_fragments: Vec<Option<FragmentaryProgramAssociationTable>>,
}

pub struct PatBufferView {
    pub version_number: Option<u8>,
    pub last_section_number: u8,
    pub slots: Seq<Option<FragmentView>>,
}

pub open spec fn slot_view(o: Option<FragmentaryProgramAssociationTable>) -> Option<FragmentView> {
    match o {
        Some(f) => Some(f@),
        None => None,
    }
}

impl View for PatBuffer {
    type V = PatBufferView;

    closed spec fn view(&self) -> PatBufferView {
        PatBufferView {
            version_number: self.version_number,
            last_section_number: self.last_section_number,
            slots: Seq::new(self.pat_fragments@.len(), |i: int| slot_view(self.pat_fragments@[i])),
        }
    }
}

/// One slot per section index of the group.
pub open spec fn buffer_wf(b: PatBufferView) -> bool {
    b.slots.len() == b.last_section_number + 1
}

/// An empty buffer for a group whose last section index is `last`.
pub open spec fn empty_buffer(version: Option<u8>, last: u8) -> PatBufferView {
    PatBufferView {
        version_number: version,
        last_section_number: last,
        slots: Seq::new(last as nat + 1, |i: int| None),
    }
}

/// What adding `f` makes of `b`. A fragment of another version than the buffer's starts
/// the buffer over for that version; a fragment stores itself at its section number,
/// replacing a copy received before, unless that number lies past the last section.
pub open spec fn add_fragment_spec(b: PatBufferView, f: FragmentView) -> PatBufferView {
    let v = f.header.version_number;
    let base = match b.version_number {
        Some(cur) if cur != v => empty_buffer(Some(v), f.header.last_section_number),
        _ => PatBufferView { version_number: Some(v), ..b },
    };
    if f.header.section_number <= base.last_section_number {
        PatBufferView { slots: base.slots.update(f.header.section_number as int, Some(f)), ..base }
    } else {
        base
    }
}

/// Every section index of the group has been received.
pub open spec fn complete_spec(b: PatBufferView) -> bool {
    forall|i: int| 0 <= i < b.slots.len() ==> (#[trigger] b.slots[i]).is_some()
}

pub open spec fn slot_payload(o: Option<FragmentView>) -> Seq<u8> {
    match o {
        Some(f) => f.payload,
        None => Seq::empty(),
    }
}

/// The payloads of the slots, in section order.
pub open spec fn concat_payloads(slots: Seq<Option<FragmentView>>) -> Seq<u8>
    decreases slots.len(),
{
    if slots.len() == 0 {
        Seq::empty()
    } else {
        concat_payloads(slots.drop_last()) + slot_payload(slots.last())
    }
}

/// The section that the buffer spells out: the header of section 0, then every
/// payload in section order, trailing stuffing dropped.
pub open spec fn reassembled_section(b: PatBufferView) -> Seq<u8> {
    let head = match b.slots[0] {
        Some(f) => f.header_bytes,
        None => Seq::empty(),
    };
    strip_stuffing(head + concat_payloads(b.slots))
}

/// The table that the buffer yields: only when complete and when the reassembled
/// section's CRC checks.
pub open spec fn build_spec(b: PatBufferView) -> Option<crate::pat::PatView> {
    if complete_spec(b) {
        checked_pat_of_section(reassembled_section(b))
    } else {
        None
    }
}

/// The buffer after adding each fragment of `fs` in turn.
pub open spec fn add_all(b: PatBufferView, fs: Seq<FragmentView>) -> PatBufferView
    decreases fs.len(),
{
    if fs.len() == 0 {
        b
    } else {
        add_all(add_fragment_spec(b, fs[0]), fs.drop_first())
    }
}

/// No two fragments of `fs` carry the same section number.
pub open spec fn distinct_sections(fs: Seq<FragmentView>) -> bool {
    forall|i: int, j: int|
        0 <= i < fs.len() && 0 <= j < fs.len() && i != j
            ==> #[trigger] fs[i].header.section_number != #[trigger] fs[j].header.section_number
}

/// Every fragment of `fs` belongs to version `v`.
pub open spec fn all_of_version(fs: Seq<FragmentView>, v: u8) -> bool {
    forall|i: int| 0 <= i < fs.len() ==> (#[trigger] fs[i]).header.version_number == v
}

proof fn lemma_add_all_slots(b: PatBufferView, fs: Seq<FragmentView>, v: u8)
    requires
        buffer_wf(b),
        b.version_number is None || b.version_number == Some(v),
        all_of_version(fs, v),
        distinct_sections(fs),
    ensures
        add_all(b, fs).version_number == (if fs.len() > 0 { Some(v) } else { b.version_number }),
        add_all(b, fs).last_section_number == b.last_section_number,
        add_all(b, fs).slots.len() == b.slots.len(),
        forall|k: int, i: int|
            0 <= k < b.slots.len() && 0 <= i < fs.len() && fs[i].header.section_number == k
                ==> #[trigger] add_all(b, fs).slots[k] == Some(#[trigger] fs[i]),
        forall|k: int|
            0 <= k < b.slots.len() && (forall|i: int|
                0 <= i < fs.len() ==> (#[trigger] fs[i]).header.section_number != k)
                ==> #[trigger] add_all(b, fs).slots[k] == b.slots[k],
    decreases fs.len(),
{
    if fs.len() > 0 {
        let f = fs[0];
        let b1 = add_fragment_spec(b, f);
        let rest = fs.drop_first();
        assert forall|i: int| 0 <= i < rest.len() implies (#[trigger] rest[i]).header.version_number == v by {
            assert(rest[i] == fs[i + 1]);
        }
        assert forall|i: int, j: int|
            0 <= i < rest.len() && 0 <= j < rest.len() && i != j
                implies #[trigger] rest[i].header.section_number != #[trigger] rest[j].header.section_number by {
            assert(rest[i] == fs[i + 1] && rest[j] == fs[j + 1]);
        }
        lemma_add_all_slots(b1, rest, v);
        let r = add_all(b, fs);
        assert(r == add_all(b1, rest));
        assert forall|k: int, i: int|
            0 <= k < b.slots.len() && 0 <= i < fs.len() && fs[i].header.section_number == k
                implies #[trigger] r.slots[k] == Some(#[trigger] fs[i]) by {
            if i > 0 {
                assert(rest[i - 1] == fs[i]);
            } else {
                assert forall|j: int| 0 <= j < rest.len() implies (#[trigger] rest[j]).header.section_number != k by {
                    assert(rest[j] == fs[j + 1]);
                }
            }
        }
        assert forall|k: int|
            0 <= k < b.slots.len() && (forall|i: int|
                0 <= i < fs.len() ==> (#[trigger] fs[i]).header.section_number != k)
                implies #[trigger] r.slots[k] == b.slots[k] by {
            assert forall|j: int| 0 <= j < rest.len() implies (#[trigger] rest[j]).header.section_number != k by {
                assert(rest[j] == fs[j + 1]);
            }
            assert(fs[0].header.section_number != k);
        }
    }
}

/// Reassembly does not depend on delivery order: adding the fragments of one section
/// group in any order leaves the same buffer, and so builds the same table, as long as
/// they all belong to the buffer's version.
pub proof fn lemma_delivery_order_irrelevant(
    b: PatBufferView,
    fs: Seq<FragmentView>,
    gs: Seq<FragmentView>,
    v: u8,
)
    requires
        buffer_wf(b),
        b.version_number is None || b.version_number == Some(v),
        all_of_version(fs, v),
        distinct_sections(fs),
        distinct_sections(gs),
        gs.to_multiset() == fs.to_multiset(),
    ensures
        add_all(b, fs) == add_all(b, gs),
        build_spec(add_all(b, fs)) == build_spec(add_all(b, gs)),
{
    broadcast use vstd::seq_lib::group_to_multiset_ensures;

    assert forall|i: int| 0 <= i < gs.len() implies (#[trigger] gs[i]).header.version_number == v by {
        assert(gs.contains(gs[i]));
        assert(gs.to_multiset().count(gs[i]) > 0);
        assert(fs.contains(gs[i]));
    }
    lemma_add_all_slots(b, fs, v);
    lemma_add_all_slots(b, gs, v);
    let rf = add_all(b, fs);
    let rg = add_all(b, gs);
    assert(fs.to_multiset().len() == fs.len());
    assert(gs.to_multiset().len() == gs.len());
    assert forall|k: int| 0 <= k < rf.slots.len() implies rf.slots[k] == rg.slots[k] by {
        if exists|i: int| 0 <= i < fs.len() && fs[i].header.section_number == k {
            let i = choose|i: int| 0 <= i < fs.len() && fs[i].header.section_number == k;
            assert(fs.contains(fs[i]));
            assert(fs.to_multiset().count(fs[i]) > 0);
            assert(gs.to_multiset().count(fs[i]) > 0);
            assert(gs.contains(fs[i]));
            let j = choose|j: int| 0 <= j < gs.len() && gs[j] == fs[i];
            assert(rf.slots[k] == Some(fs[i]));
            assert(rg.slots[k] == Some(gs[j]));
        } else {
            assert forall|j: int| 0 <= j < gs.len() implies (#[trigger] gs[j]).header.section_number != k by {
                assert(gs.contains(gs[j]));
                assert(gs.to_multiset().count(gs[j]) > 0);
                assert(fs.to_multiset().count(gs[j]) > 0);
                assert(fs.contains(gs[j]));
                let i = choose|i: int| 0 <= i < fs.len() && fs[i] == gs[j];
            }
        }
    }
    assert(rf.slots =~= rg.slots);
}

/// A fragment of another version than the buffer's discards every fragment received
/// before it: from then on the buffer is the one that a fresh buffer would be after
/// the same fragments.
pub proof fn lemma_version_change_discards(
    b: PatBufferView,
    f: FragmentView,
    post: Seq<FragmentView>,
)
    requires
        buffer_wf(b),
        b.version_number is Some,
        b.version_number != Some(f.header.version_number),
    ensures
        forall|i: int|
            0 <= i < add_fragment_spec(b, f).slots.len()
                && (#[trigger] add_fragment_spec(b, f).slots[i]) is Some
                ==> i == f.header.section_number,
        add_all(b, seq![f] + post) == add_all(
            empty_buffer(None, f.header.last_section_number),
            seq![f] + post,
        ),
{
    let all = seq![f] + post;
    assert(all[0] == f);
    assert(all.drop_first() =~= post);
    let fresh = empty_buffer(None, f.header.last_section_number);
    assert(add_fragment_spec(b, f) == add_fragment_spec(fresh, f));
}

impl PatBuffer {
    pub open spec fn wf(&self) -> bool {
        buffer_wf(self@)
    }

    /// An empty buffer for a group whose last section index is `last_section_number`;
    /// its version is taken from the first fragment added.
    pub fn new(last_section_number: u8) -> (r: Self)
        ensures
            r@ == empty_buffer(None, last_section_number),
            r.wf(),
    {
        let r = PatBuffer {
            version_number: None,
            last_section_number,
            pat_fragments: empty_slots(last_section_number),
        };
        assert(r@.slots =~= empty_buffer(None, last_section_number).slots);
        r
    }

    pub fn is_complete(&self) -> (r: bool)
        requires
            self.wf(),
        ensures
            r == complete_spec(self@),
    {
        let mut i: usize = 0;
        while i < self.pat_fragments.len()
            invariant
                i <= self.pat_fragments@.len(),
                forall|j: int| 0 <= j < i ==> (#[trigger] self@.slots[j]).is_some(),
            decreases self.pat_fragments@.len() - i,
        {
            if self.pat_fragments[i].is_none() {
                assert(self@.slots[i as int].is_none());
                return false;
            }
            i = i + 1;
        }
        true
    }

    pub fn last_section_number(&self) -> (r: u8)
        ensures
            r == self@.last_section_number,
    {
        self.last_section_number
    }

    pub fn version_number(&self) -> (r: Option<u8>)
        ensures
            r == self@.version_number,
    {
        self.version_number
    }

    pub fn add_fragment(&mut self, fragment: FragmentaryProgramAssociationTable)
        requires
            old(self).wf(),
        ensures
            final(self)@ == add_fragment_spec(old(self)@, fragment@),
            final(self).wf(),
    {
        let v = fragment.header.version_number;
        let reset = match self.version_number {
            Some(cur) => cur != v,
            None => false,
        };
        if reset {
            self.last_section_number = fragment.header.last_section_number;
            self.pat_fragments = empty_slots(fragment.header.last_section_number);
        }
        self.version_number = Some(v);
        let ghost base = self@;
        proof {
            assert(base == (match old(self)@.version_number {
                Some(cur) if cur != v => empty_buffer(Some(v), fragment.header.last_section_number),
                _ => PatBufferView { version_number: Some(v), ..old(self)@ },
            })) by {
                if reset {
                    assert(base.slots =~= empty_buffer(Some(v), fragment.header.last_section_number).slots);
                } else {
                    assert(base.slots =~= old(self)@.slots);
                }
            }
        }
        let n = fragment.header.section_number;
        if n <= self.last_section_number {
            let ghost fv = fragment@;
            self.pat_fragments.set(n as usize, Some(fragment));
            proof {
                assert(self@.slots =~= base.slots.update(n as int, Some(fv)));
            }
        }
    }

    pub fn get_fragments(&self) -> (r: &Vec<Option<FragmentaryProgramAssociationTable>>)
        ensures
            r@.len() == self@.slots.len(),
            forall|i: int| 0 <= i < r@.len() ==> slot_view(#[trigger] r@[i]) == self@.slots[i],
    {
        &self.pat_fragments
    }

    /// The header of section 0 followed by every payload in section order, trailing
    /// stuffing dropped.
    pub fn assemble(&self) -> (r: Vec<u8>)
        requires
            self.wf(),
        ensures
            r@ == reassembled_section(self@),
    {
        let mut out: Vec<u8> = Vec::new();
        match &self.pat_fragments[0] {
            Some(f) => append_bytes(&mut out, f.header_bytes.as_slice()),
            None => {},
        }
        let ghost head = out@;
        let mut i: usize = 0;
        while i < self.pat_fragments.len()
            invariant
                i <= self.pat_fragments@.len(),
                out@ == head + concat_payloads(self@.slots.subrange(0, i as int)),
            decreases self.pat_fragments@.len() - i,
        {
            proof {
                assert(self@.slots.subrange(0, i as int + 1).drop_last()
                    =~= self@.slots.subrange(0, i as int));
            }
            match &self.pat_fragments[i] {
                Some(f) => append_bytes(&mut out, f.payload.as_slice()),
                None => {},
            }
            proof {
                assert(out@ =~= head + concat_payloads(self@.slots.subrange(0, i as int + 1)));
            }
            i = i + 1;
        }
        proof {
            assert(self@.slots.subrange(0, i as int) =~= self@.slots);
        }
        let n = stuffing_free_len(out.as_slice());
        out.truncate(n);
        out
    }

    /// The table spelled out by a complete group whose CRC checks.
    pub fn build(&self) -> (r: Option<ProgramAssociationTable>)
        requires
            self.wf(),
        ensures
            match r {
                Some(t) => build_spec(self@) == Some(t@),
                None => build_spec(self@).is_none(),
            },
    {
        if !self.is_complete() {
            return None;
        }
        let section = self.assemble();
        ProgramAssociationTable::build(section.as_slice())
    }
}

fn empty_slots(last: u8) -> (r: Vec<Option<FragmentaryProgramAssociationTable>>)
    ensures
        r@.len() == last as nat + 1,
        forall|i: int| 0 <= i < r@.len() ==> (#[trigger] r@[i]).is_none(),
{
    let mut r: Vec<Option<FragmentaryProgramAssociationTable>> = Vec::new();
    let n: usize = last as usize + 1;
    while r.len() < n
        invariant
            r@.len() <= n,
            n == last as nat + 1,
            forall|i: int| 0 <= i < r@.len() ==> (#[trigger] r@[i]).is_none(),
        decreases n - r@.len(),
    {
        r.push(None);
    }
    r
}

} // verus!
