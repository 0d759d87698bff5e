use vstd::prelude::*;
use crate::mpegts::{MpegtsFragment, PAT_PID};
use crate::pat::{fragment_of, FragmentView, FragmentaryProgramAssociationTable, PatView, ProgramAssociationTable};
use crate::pat_buffer::{
    add_fragment_spec, buffer_wf, build_spec, complete_spec, empty_buffer, reassembled_section,
    PatBuffer, PatBufferView,
};
use crate::pmt::{checked_pmt_of_section, PmtView, ProgramMapTable, PMT_TABLE_ID};

verus! {

/// Number of distinct PIDs.
pub const PID_COUNT: usize = 8192;

/// The program association state of one source: the PAT section group being
/// collected and the last PAT completed with a valid CRC; for each PID, the program
/// map section group being collected there and the last PMT completed there.
pub struct AssociationTables {
    pat_buffer: Option<PatBuffer>,
    pat: Option<ProgramAssociationTable>,
    pmt_buffers: Vec<Option<PatBuffer>>,
    pmts: Vec<Option<ProgramMapTable>>,
}

pub struct AssociationView {
    pub buffer: Option<PatBufferView>,
    pub pat: Option<PatView>,
    pub pmt_buffers: Seq<Option<PatBufferView>>,
    pub pmts: Seq<Option<PmtView>>,
}

pub open spec fn opt_buffer_view(b: Option<PatBuffer>) -> Option<PatBufferView> {
    match b {
        Some(b) => Some(b@),
        None => None,
    }
}

pub open spec fn opt_pmt_view(t: Option<ProgramMapTable>) -> Option<PmtView> {
    match t {
        Some(t) => Some(t@),
        None => None,
    }
}

impl View for AssociationTables {
    type V = AssociationView;

    closed spec fn view(&self) -> AssociationView {
        AssociationView {
            buffer: match self.pat_buffer {
                Some(b) => Some(b@),
                None => None,
            },
            pat: match self.pat {
                Some(t) => Some(t@),
                None => None,
            },
            pmt_buffers: Seq::new(self.pmt_buffers@.len(), |i: int| opt_buffer_view(self.pmt_buffers@[i])),
            pmts: Seq::new(self.pmts@.len(), |i: int| opt_pmt_view(self.pmts@[i])),
        }
    }
}

pub open spec fn opt_buffer_wf(b: Option<PatBufferView>) -> bool {
    match b {
        Some(b) => buffer_wf(b),
        None => true,
    }
}

pub open spec fn association_wf(a: AssociationView) -> bool {
    &&& opt_buffer_wf(a.buffer)
    &&& a.pmt_buffers.len() == PID_COUNT
    &&& a.pmts.len() == PID_COUNT
    &&& forall|p: int| 0 <= p < PID_COUNT ==> opt_buffer_wf(#[trigger] a.pmt_buffers[p])
}

/// `pid` carries the program map of a program that the current PAT lists.
pub open spec fn is_pmt_pid(pat: Option<PatView>, pid: u16) -> bool {
    match pat {
        Some(t) => exists|i: int|
            0 <= i < t.programs.len() && (#[trigger] t.programs[i]).program_map_pid == Some(pid),
        None => false,
    }
}

/// Adding one program map section on `pid`: it joins the group being collected there
/// (or starts one); a complete group is consumed, and replaces that PID's table when
/// its CRC checks.
pub open spec fn pmt_feed_spec(a: AssociationView, pid: u16, f: FragmentView) -> AssociationView {
    let b = match a.pmt_buffers[pid as int] {
        Some(b) => b,
        None => empty_buffer(None, f.header.last_section_number),
    };
    let b2 = add_fragment_spec(b, f);
    if complete_spec(b2) {
        match checked_pmt_of_section(reassembled_section(b2)) {
            Some(t) => AssociationView {
                pmt_buffers: a.pmt_buffers.update(pid as int, None),
                pmts: a.pmts.update(pid as int, Some(t)),
                ..a
            },
            None => AssociationView { pmt_buffers: a.pmt_buffers.update(pid as int, None), ..a },
        }
    } else {
        AssociationView { pmt_buffers: a.pmt_buffers.update(pid as int, Some(b2)), ..a }
    }
}

/// Adding one PAT section: it joins the group being collected (or starts one); a
/// complete group is consumed, and replaces the table when its CRC checks.
pub open spec fn feed_spec(a: AssociationView, f: FragmentView) -> AssociationView {
    let b = match a.buffer {
        Some(b) => b,
        None => empty_buffer(None, f.header.last_section_number),
    };
    let b2 = add_fragment_spec(b, f);
    if complete_spec(b2) {
        match build_spec(b2) {
            Some(t) => AssociationView { buffer: None, pat: Some(t), ..a },
            None => AssociationView { buffer: None, ..a },
        }
    } else {
        AssociationView { buffer: Some(b2), ..a }
    }
}

/// The section of table `table_id` that a transport packet of `datagram` carries, if any.
pub open spec fn section_of(datagram: Seq<u8>, t: MpegtsFragment, table_id: u8) -> Option<FragmentView> {
    if t.payload_start <= t.payload_end <= datagram.len() {
        match fragment_of(
            datagram.subrange(t.payload_start as int, t.payload_end as int),
            t.header.payload_unit_start_indicator,
        ) {
            Some(f) => if f.header.table_id == table_id {
                Some(f)
            } else {
                None
            },
            None => None,
        }
    } else {
        None
    }
}

/// The state after the transport packets `ts` of `datagram`, in order.
pub open spec fn observe_spec(a: AssociationView, datagram: Seq<u8>, ts: Seq<MpegtsFragment>) -> AssociationView
    decreases ts.len(),
{
    if ts.len() == 0 {
        a
    } else {
        let prev = observe_spec(a, datagram, ts.drop_last());
        let t = ts.last();
        if t.header.pid == PAT_PID {
            match section_of(datagram, t, 0) {
                Some(f) => feed_spec(prev, f),
                None => prev,
            }
        } else if t.header.pid < PID_COUNT && is_pmt_pid(prev.pat, t.header.pid) {
            match section_of(datagram, t, PMT_TABLE_ID) {
                Some(f) => pmt_feed_spec(prev, t.header.pid, f),
                None => prev,
            }
        } else {
            prev
        }
    }
}

impl AssociationTables {
    pub open spec fn wf(&self) -> bool {
        association_wf(self@)
    }

    pub fn new() -> (r: Self)
        ensures
            r@.buffer.is_none(),
            r@.pat.is_none(),
            forall|p: int| 0 <= p < PID_COUNT ==> (#[trigger] r@.pmt_buffers[p]).is_none() && r@.pmts[p].is_none(),
            r.wf(),
    {
        let mut pmt_buffers: Vec<Option<PatBuffer>> = Vec::new();
        let mut pmts: Vec<Option<ProgramMapTable>> = Vec::new();
        let mut i: usize = 0;
        while i < PID_COUNT
            invariant
                i <= PID_COUNT,
                pmt_buffers@.len() == i,
                pmts@.len() == i,
                forall|p: int| 0 <= p < i ==> (#[trigger] pmt_buffers@[p]).is_none() && pmts@[p].is_none(),
            decreases PID_COUNT - i,
        {
            pmt_buffers.push(None);
            pmts.push(None);
            i = i + 1;
        }
        AssociationTables { pat_buffer: None, pat: None, pmt_buffers, pmts }
    }

    /// The last program association table that was completed with a valid CRC.
    pub fn program_association(&self) -> (r: Option<&ProgramAssociationTable>)
        ensures
            match r {
                Some(t) => self@.pat == Some(t@),
                None => self@.pat.is_none(),
            },
    {
        match &self.pat {
            Some(t) => Some(t),
            None => None,
        }
    }

    /// The last program map table completed on `pid`.
    pub fn program_map(&self, pid: u16) -> (r: Option<&ProgramMapTable>)
        requires
            self.wf(),
        ensures
            pid < PID_COUNT ==> match r {
                Some(t) => self@.pmts[pid as int] == Some(t@),
                None => self@.pmts[pid as int].is_none(),
            },
            pid >= PID_COUNT ==> r.is_none(),
    {
        if pid as usize >= PID_COUNT {
            return None;
        }
        match &self.pmts[pid as usize] {
            Some(t) => Some(t),
            None => None,
        }
    }

    /// The program whose map lists `pid` as an elementary stream, looking at the maps
    /// in PID order; `None` while no completed map lists it.
    pub fn program_of_pid(&self, pid: u16) -> (r: Option<u16>)
        requires
            self.wf(),
        ensures
            match r {
                Some(n) => exists|q: int, e: int|
                    0 <= q < PID_COUNT && self@.pmts[q] is Some
                        && self@.pmts[q].unwrap().program_number == n
                        && 0 <= e < self@.pmts[q].unwrap().elementary_streams_info.len()
                        && (#[trigger] self@.pmts[q].unwrap().elementary_streams_info[e]).elementary_pid == pid,
                None => forall|q: int, e: int|
                    0 <= q < PID_COUNT && self@.pmts[q] is Some
                        && 0 <= e < self@.pmts[q].unwrap().elementary_streams_info.len()
                        ==> (#[trigger] self@.pmts[q].unwrap().elementary_streams_info[e]).elementary_pid != pid,
            },
    {
        let mut q: usize = 0;
        while q < PID_COUNT
            invariant
                q <= PID_COUNT,
                self.wf(),
                forall|k: int, e: int|
                    0 <= k < q && self@.pmts[k] is Some
                        && 0 <= e < self@.pmts[k].unwrap().elementary_streams_info.len()
                        ==> (#[trigger] self@.pmts[k].unwrap().elementary_streams_info[e]).elementary_pid != pid,
            decreases PID_COUNT - q,
        {
            match &self.pmts[q] {
                Some(t) => {
                    let mut e: usize = 0;
                    while e < t.elementary_streams_info.len()
                        invariant
                            e <= t.elementary_streams_info@.len(),
                            q < PID_COUNT,
                            self.wf(),
                            self@.pmts[q as int] == Some(t@),
                            forall|k: int, e: int|
                                0 <= k < q && self@.pmts[k] is Some
                                    && 0 <= e < self@.pmts[k].unwrap().elementary_streams_info.len()
                                    ==> (#[trigger] self@.pmts[k].unwrap().elementary_streams_info[e]).elementary_pid != pid,
                            forall|j: int| 0 <= j < e ==> t@.elementary_streams_info[j].elementary_pid != pid,
                        decreases t.elementary_streams_info@.len() - e,
                    {
                        if t.elementary_streams_info[e].elementary_pid == pid {
                            assert(self@.pmts[q as int].unwrap().elementary_streams_info[e as int].elementary_pid == pid);
                            return Some(t.program_number);
                        }
                        e = e + 1;
                    }
                },
                None => {},
            }
            q = q + 1;
        }
        None
    }

    fn feed(&mut self, f: FragmentaryProgramAssociationTable)
        requires
            old(self).wf(),
        ensures
            final(self).wf(),
            final(self)@ == feed_spec(old(self)@, f@),
    {
        let mut b = match self.pat_buffer.take() {
            Some(b) => b,
            None => PatBuffer::new(f.header.last_section_number),
        };
        b.add_fragment(f);
        if b.is_complete() {
            match b.build() {
                Some(t) => {
                    self.pat = Some(t);
                },
                None => {},
            }
        } else {
            self.pat_buffer = Some(b);
        }
        proof {
            assert(self@.pmt_buffers =~= old(self)@.pmt_buffers);
            assert(self@.pmts =~= old(self)@.pmts);
        }
    }

    fn feed_map(&mut self, pid: u16, f: FragmentaryProgramAssociationTable)
        requires
            old(self).wf(),
            pid < PID_COUNT,
        ensures
            final(self).wf(),
            final(self)@ == pmt_feed_spec(old(self)@, pid, f@),
    {
        let p = pid as usize;
        let taken = self.pmt_buffers.remove(p);
        self.pmt_buffers.insert(p, None);
        let mut b = match taken {
            Some(b) => b,
            None => PatBuffer::new(f.header.last_section_number),
        };
        proof {
            assert(opt_buffer_wf(old(self)@.pmt_buffers[p as int]));
        }
        b.add_fragment(f);
        if b.is_complete() {
            let section = b.assemble();
            match ProgramMapTable::build(section.as_slice()) {
                Some(t) => {
                    self.pmts.set(p, Some(t));
                },
                None => {},
            }
        } else {
            self.pmt_buffers.set(p, Some(b));
        }
        proof {
            assert forall|q: int| 0 <= q < PID_COUNT implies opt_buffer_wf(#[trigger] self@.pmt_buffers[q]) by {
                if q != p {
                    assert(self@.pmt_buffers[q] == old(self)@.pmt_buffers[q]);
                }
            }
            let expected = pmt_feed_spec(old(self)@, pid, f@);
            assert(self@.pmt_buffers =~= expected.pmt_buffers);
            assert(self@.pmts =~= expected.pmts);
        }
    }

    fn is_map_pid(&self, pid: u16) -> (r: bool)
        ensures
            r == is_pmt_pid(self@.pat, pid),
    {
        match &self.pat {
            Some(t) => {
                let mut i: usize = 0;
                while i < t.programs.len()
                    invariant
                        i <= t.programs@.len(),
                        self@.pat == Some(t@),
                        forall|j: int| 0 <= j < i ==> (#[trigger] t.programs@[j]).program_map_pid != Some(pid),
                    decreases t.programs@.len() - i,
                {
                    if t.programs[i].program_map_pid == Some(pid) {
                        assert(t@.programs[i as int].program_map_pid == Some(pid));
                        return true;
                    }
                    i = i + 1;
                }
                false
            },
            None => false,
        }
    }

    /// Feeds every PAT section on the PAT PID, and every program map section on a PID
    /// that the current PAT names, that the transport packets `ts` of `datagram` carry.
    pub fn observe(&mut self, datagram: &[u8], ts: &[MpegtsFragment])
        requires
            old(self).wf(),
        ensures
            final(self).wf(),
            final(self)@ == observe_spec(old(self)@, datagram@, ts@),
    {
        let mut i: usize = 0;
        while i < ts.len()
            invariant
                i <= ts@.len(),
                self.wf(),
                self@ == observe_spec(old(self)@, datagram@, ts@.subrange(0, i as int)),
            decreases ts@.len() - i,
        {
            proof {
                assert(ts@.subrange(0, i as int + 1).drop_last() =~= ts@.subrange(0, i as int));
            }
            let t = ts[i];
            if t.payload_start <= t.payload_end && t.payload_end <= datagram.len() {
                let section = &datagram[t.payload_start..t.payload_end];
                if t.header.pid == PAT_PID {
                    match FragmentaryProgramAssociationTable::unmarshall(
                        section,
                        t.header.payload_unit_start_indicator,
                    ) {
                        Some(f) => {
                            if f.header.table_id == 0 {
                                self.feed(f);
                            }
                        },
                        None => {},
                    }
                } else if (t.header.pid as usize) < PID_COUNT && self.is_map_pid(t.header.pid) {
                    match FragmentaryProgramAssociationTable::unmarshall(
                        section,
                        t.header.payload_unit_start_indicator,
                    ) {
                        Some(f) => {
                            if f.header.table_id == PMT_TABLE_ID {
                                self.feed_map(t.header.pid, f);
                            }
                        },
                        None => {},
                    }
                }
            }
            i = i + 1;
        }
        proof {
            assert(ts@.subrange(0, i as int) =~= ts@);
        }
    }
}

} // verus!
