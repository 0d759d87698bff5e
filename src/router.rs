use vstd::prelude::*;
use vstd::utf8::encode_utf8;
use crate::association::{association_wf, observe_spec, AssociationTables, AssociationView};
use crate::flow::{attribute_spec, distinct_keys, RtpStreamKey, StreamAliases};
use crate::packet::{
    guess_protocol, reparsed, Endpoint, Packet, PacketView, SessionPacket, SessionProtocol,
    SessionView, TransportProtocol, lemma_reparse_idempotent,
};
use crate::pat::ProgramAssociationTable;
use crate::pmt::ProgramMapTable;
use crate::sdp::{sdp_of, Sdp};
use crate::source::{Source, SourceView};

verus! {

/// A request that an observer sends.
#[derive(Debug, Clone)]
pub enum Request {
    FetchAll,
    Reparse(usize, SessionProtocol),
    ChangeSource(Source),
    ParseSdp(RtpStreamKey, String),
}

/// A message that an observer receives.
#[derive(Debug, Clone)]
pub enum Response {
    Packet(Packet),
    Sources(Vec<Source>),
    Sdp(RtpStreamKey, Sdp),
}

/// One captured frame, as the capture layer hands it over.
#[derive(Debug, Clone)]
pub struct Frame {
    pub timestamp: u64,
    pub transport_protocol: TransportProtocol,
    pub source_addr: Endpoint,
    pub destination_addr: Endpoint,
    pub payload: Vec<u8>,
}

/// A connected observer and the source it follows, by index, if any.
#[derive(Debug, Clone, Copy, PartialEq, Eq, Structural)]
pub struct Observer {
    pub id: usize,
    pub source: Option<usize>,
}

/// What to send to which observer. Packets and session descriptions are named by
/// source index and position, to be read back from the server when sending.
#[derive(Debug, Clone, Copy, PartialEq, Eq, Structural)]
pub enum Delivery {
    Packet { observer: usize, source: usize, packet_id: usize },
    Sources { observer: usize },
    Sdp { observer: usize, source: usize, index: usize },
}

/// Everything one source owns: its history log, its stream aliases, its program
/// association state and the session descriptions attached to its streams.
pub struct SourceLog {
    source: Source,
    history: Vec<Packet>,
    aliases: StreamAliases,
    tables: AssociationTables,
    sdps: Vec<(RtpStreamKey, Sdp)>,
}

/// The sources with their logs, and the observers in order of connection.
pub struct Server {
    logs: Vec<SourceLog>,
    observers: Vec<Observer>,
}

pub struct LogView {
    pub source: SourceView,
    pub history: Seq<PacketView>,
    pub aliases: Seq<RtpStreamKey>,
    pub psi: AssociationView,
    pub sdps: Seq<(RtpStreamKey, Seq<(u8, Seq<u8>)>)>,
}

pub struct ServerView {
    pub logs: Seq<LogView>,
    pub observers: Seq<Observer>,
}

impl View for SourceLog {
    type V = LogView;

    closed spec fn view(&self) -> LogView {
        LogView {
            source: self.source@,
            history: Seq::new(self.history@.len(), |j: int| self.history@[j]@),
            aliases: self.aliases@,
            psi: self.tables@,
            sdps: Seq::new(self.sdps@.len(), |j: int| (self.sdps@[j].0, self.sdps@[j].1@)),
        }
    }
}

impl View for Server {
    type V = ServerView;

    closed spec fn view(&self) -> ServerView {
        ServerView {
            logs: Seq::new(self.logs@.len(), |i: int| self.logs@[i]@),
            observers: self.observers@,
        }
    }
}

/// Sources are distinct, observer ids are distinct, every observer follows a source
/// that exists, packet ids are positions, and alias tables hold distinct keys.
pub open spec fn server_wf(v: ServerView) -> bool {
    &&& v.logs.len() <= usize::MAX
    &&& forall|i: int, j: int|
        0 <= i < j < v.logs.len() ==> v.logs[i].source != v.logs[j].source
    &&& forall|i: int, j: int|
        0 <= i < j < v.observers.len() ==> v.observers[i].id != v.observers[j].id
    &&& forall|i: int|
        0 <= i < v.observers.len() ==> match (#[trigger] v.observers[i]).source {
            Some(s) => s < v.logs.len(),
            None => true,
        }
    &&& forall|i: int, j: int|
        0 <= i < v.logs.len() && 0 <= j < v.logs[i].history.len() ==> (
        #[trigger] v.logs[i].history[j]).id == j
    &&& forall|i: int| 0 <= i < v.logs.len() ==> distinct_keys(#[trigger] v.logs[i].aliases)
    &&& forall|i: int| 0 <= i < v.logs.len() ==> association_wf(#[trigger] v.logs[i].psi)
}

/// The observer with this id is connected.
pub open spec fn is_connected(v: ServerView, id: usize) -> bool {
    exists|i: int| 0 <= i < v.observers.len() && v.observers[i].id == id
}

/// Position of the observer with this id.
pub open spec fn observer_index(v: ServerView, id: usize) -> int {
    choose|i: int| 0 <= i < v.observers.len() && v.observers[i].id == id
}

/// The source index that the observer with this id follows, if it is connected and
/// follows one.
pub open spec fn selection(v: ServerView, id: usize) -> Option<usize> {
    if is_connected(v, id) {
        v.observers[observer_index(v, id)].source
    } else {
        None
    }
}

/// The source exists on this server.
pub open spec fn has_source(v: ServerView, src: SourceView) -> bool {
    exists|i: int| 0 <= i < v.logs.len() && v.logs[i].source == src
}

pub open spec fn source_index(v: ServerView, src: SourceView) -> int {
    choose|i: int| 0 <= i < v.logs.len() && v.logs[i].source == src
}

/// Ids of the observers that follow source `s`, in order of connection.
pub open spec fn subscribers(obs: Seq<Observer>, s: usize) -> Seq<usize>
    decreases obs.len(),
{
    if obs.len() == 0 {
        Seq::empty()
    } else if obs.last().source == Some(s) {
        subscribers(obs.drop_last(), s).push(obs.last().id)
    } else {
        subscribers(obs.drop_last(), s)
    }
}

/// Every packet of source `s`'s history, in id order, to one observer.
pub open spec fn history_to(observer: usize, s: usize, n: int) -> Seq<Delivery> {
    Seq::new(n as nat, |i: int| Delivery::Packet { observer, source: s, packet_id: i as usize })
}

/// Packet `id` of source `s` to every observer that follows `s`.
pub open spec fn packet_to_subscribers(obs: Seq<Observer>, s: usize, id: usize) -> Seq<Delivery> {
    let ids = subscribers(obs, s);
    Seq::new(ids.len(), |i: int| Delivery::Packet { observer: ids[i], source: s, packet_id: id })
}

/// Session description `index` of source `s` to every observer that follows `s`.
pub open spec fn sdp_to_subscribers(obs: Seq<Observer>, s: usize, index: usize) -> Seq<Delivery> {
    let ids = subscribers(obs, s);
    Seq::new(ids.len(), |i: int| Delivery::Sdp { observer: ids[i], source: s, index })
}

/// `FetchAll`: the followed source's whole history to the requester; nothing for an
/// observer that follows no source.
pub open spec fn fetch_all_spec(v: ServerView, id: usize) -> Seq<Delivery> {
    match selection(v, id) {
        Some(s) => history_to(id, s, v.logs[s as int].history.len() as int),
        None => Seq::empty(),
    }
}

/// `ChangeSource`: a connected observer now follows `src` and gets its whole history;
/// an unknown source or observer changes nothing.
pub open spec fn change_source_spec(v: ServerView, id: usize, src: SourceView) -> (ServerView, Seq<Delivery>) {
    if is_connected(v, id) && has_source(v, src) {
        let s = source_index(v, src) as usize;
        let i = observer_index(v, id);
        (
            ServerView {
                observers: v.observers.update(i, Observer { id, source: Some(s) }),
                ..v
            },
            history_to(id, s, v.logs[s as int].history.len() as int),
        )
    } else {
        (v, Seq::empty())
    }
}

pub open spec fn with_history(l: LogView, h: Seq<PacketView>) -> LogView {
    LogView { history: h, ..l }
}

/// `Reparse`: packet `packet_id` of the followed source is decoded again under
/// `protocol`, in place, and sent to every follower of that source; a request without
/// a followed source or for a packet that does not exist changes nothing.
pub open spec fn reparse_spec(
    v: ServerView,
    id: usize,
    packet_id: usize,
    protocol: SessionProtocol,
) -> (ServerView, Seq<Delivery>) {
    match selection(v, id) {
        Some(s) => if packet_id < v.logs[s as int].history.len() {
            let l = v.logs[s as int];
            let h = l.history.update(packet_id as int, reparsed(l.history[packet_id as int], protocol));
            (
                ServerView { logs: v.logs.update(s as int, with_history(l, h)), ..v },
                packet_to_subscribers(v.observers, s, packet_id),
            )
        } else {
            (v, Seq::empty())
        },
        None => (v, Seq::empty()),
    }
}

/// `ParseSdp`: a description that parses is attached to the followed source and sent
/// to every follower of it; text that does not parse, or an observer that follows no
/// source, changes nothing.
pub open spec fn parse_sdp_spec(v: ServerView, id: usize, key: RtpStreamKey, text: Seq<u8>) -> (ServerView, Seq<Delivery>) {
    match selection(v, id) {
        Some(s) => match sdp_of(text) {
            Some(d) => {
                let l = v.logs[s as int];
                (
                    ServerView {
                        logs: v.logs.update(s as int, LogView { sdps: l.sdps.push((key, d)), ..l }),
                        ..v
                    },
                    sdp_to_subscribers(v.observers, s, l.sdps.len() as usize),
                )
            },
            None => (v, Seq::empty()),
        },
        None => (v, Seq::empty()),
    }
}

/// The stream key of an RTP packet.
pub open spec fn rtp_key(p: PacketView) -> Option<RtpStreamKey> {
    match p.contents {
        SessionView::Rtp(r) => Some(
            RtpStreamKey {
                source: p.source_addr,
                destination: p.destination_addr,
                protocol: p.transport_protocol,
                ssrc: r.ssrc,
            },
        ),
        _ => None,
    }
}

/// The packet that a frame becomes when it gets id `id`.
pub open spec fn packet_of_frame(
    id: usize,
    timestamp: u64,
    source_addr: Endpoint,
    destination_addr: Endpoint,
    transport_protocol: TransportProtocol,
    payload: Seq<u8>,
) -> PacketView {
    reparsed(
        PacketView {
            id,
            timestamp,
            source_addr,
            destination_addr,
            transport_protocol,
            payload,
            session_protocol: SessionProtocol::Unknown,
            contents: SessionView::Unknown,
        },
        guess_protocol(payload),
    )
}

/// Capturing on source `s`: the frame becomes the next packet of its history, an RTP
/// stream is registered under its alias, the PAT sections of an MPEG-TS packet update
/// the program association state, and the packet goes to every follower.
pub open spec fn capture_spec(v: ServerView, s: usize, p: PacketView) -> (ServerView, Seq<Delivery>) {
    let l = v.logs[s as int];
    let aliases = match rtp_key(p) {
        Some(k) => attribute_spec(l.aliases, k).0,
        None => l.aliases,
    };
    let psi = match p.contents {
        SessionView::Mpegts(ts) => observe_spec(l.psi, p.payload, ts),
        _ => l.psi,
    };
    (
        ServerView {
            logs: v.logs.update(s as int, LogView { history: l.history.push(p), aliases, psi, ..l }),
            ..v
        },
        packet_to_subscribers(v.observers, s, l.history.len() as usize),
    )
}

/// Reparsing is idempotent and stays in place: doing it twice with one protocol leaves
/// what doing it once left; the packet keeps its id and position, the history its
/// length, and every other packet is untouched.
pub proof fn lemma_reparse_twice(v: ServerView, id: usize, packet_id: usize, protocol: SessionProtocol)
    requires
        server_wf(v),
    ensures
        reparse_spec(reparse_spec(v, id, packet_id, protocol).0, id, packet_id, protocol).0
            == reparse_spec(v, id, packet_id, protocol).0,
        reparse_spec(reparse_spec(v, id, packet_id, protocol).0, id, packet_id, protocol).1
            == reparse_spec(v, id, packet_id, protocol).1,
        forall|s: usize|
            s < v.logs.len() ==> {
                let h0 = v.logs[s as int].history;
                let h1 = (#[trigger] reparse_spec(v, id, packet_id, protocol).0.logs[s as int]).history;
                &&& h1.len() == h0.len()
                &&& forall|j: int|
                    0 <= j < h0.len() && (j != packet_id || selection(v, id) != Some(s))
                        ==> h1[j] == h0[j]
                &&& (packet_id < h0.len() && selection(v, id) == Some(s)) ==> h1[packet_id as int]
                    == reparsed(h0[packet_id as int], protocol) && h1[packet_id as int].id == packet_id
            },
{
    let (v1, d1) = reparse_spec(v, id, packet_id, protocol);
    assert(v1.observers == v.observers);
    if is_connected(v, id) {
        assert(selection(v1, id) == selection(v, id));
    } else {
        assert(!is_connected(v1, id));
    }
    match selection(v, id) {
        Some(s) => {
            if packet_id < v.logs[s as int].history.len() {
                let l = v.logs[s as int];
                let p = l.history[packet_id as int];
                let h = l.history.update(packet_id as int, reparsed(p, protocol));
                lemma_reparse_idempotent(p, protocol);
                assert(h.update(packet_id as int, reparsed(h[packet_id as int], protocol)) =~= h);
                let l1 = with_history(l, h);
                assert(with_history(l1, h) == l1);
                assert(v1.logs.update(s as int, l1) =~= v1.logs);
                assert(p.id == packet_id);
            }
        },
        None => {},
    }
}

/// `ChangeSource` followed by `FetchAll` hands the requester exactly the new source's
/// history as it stands, packet ids `0..n` in order, both times.
pub proof fn lemma_fetch_after_change_source(v: ServerView, id: usize, src: SourceView)
    requires
        server_wf(v),
        is_connected(v, id),
        has_source(v, src),
    ensures
        ({
            let s = source_index(v, src);
            let n = v.logs[s].history.len() as int;
            &&& 0 <= s < v.logs.len()
            &&& v.logs[s].source == src
            &&& change_source_spec(v, id, src).1 == history_to(id, s as usize, n)
            &&& fetch_all_spec(change_source_spec(v, id, src).0, id) == history_to(id, s as usize, n)
            &&& forall|k: int| 0 <= k < n ==> (#[trigger] history_to(id, s as usize, n)[k]) == Delivery::Packet {
                observer: id,
                source: s as usize,
                packet_id: k as usize,
            } && v.logs[s].history[k].id == k
        }),
{
    let s = source_index(v, src);
    let i = observer_index(v, id);
    let (v1, d1) = change_source_spec(v, id, src);
    assert(0 <= i < v.observers.len() && v.observers[i].id == id);
    assert(v1.observers[i].id == id);
    assert(is_connected(v1, id));
    let c = observer_index(v1, id);
    assert(0 <= c < v1.observers.len() && v1.observers[c].id == id);
    if c != i {
        assert(v1.observers[c].id == v.observers[c].id);
        if c < i {
            assert(v.observers[c].id != v.observers[i].id);
        } else {
            assert(v.observers[i].id != v.observers[c].id);
        }
    }
    assert(selection(v1, id) == Some(s as usize));
}

fn clone_source(s: &Source) -> (r: Source)
    ensures
        r@ == s@,
{
    match s {
        Source::File(name) => Source::File(name.clone()),
        Source::Interface(name) => Source::Interface(name.clone()),
    }
}

impl Server {
    pub open spec fn wf(&self) -> bool {
        server_wf(self@)
    }

    /// A server over distinct sources, each with an empty log, and no observers.
    pub fn new(sources: Vec<Source>) -> (r: Self)
        requires
            forall|i: int, j: int| 0 <= i < j < sources@.len() ==> sources@[i]@ != sources@[j]@,
        ensures
            r.wf(),
            r@.observers == Seq::<Observer>::empty(),
            r@.logs.len() == sources@.len(),
            forall|i: int| 0 <= i < sources@.len() ==> (#[trigger] r@.logs[i]).source == sources@[i]@
                && r@.logs[i].history.len() == 0 && r@.logs[i].aliases.len() == 0
                && r@.logs[i].sdps.len() == 0 && r@.logs[i].psi.buffer.is_none()
                && r@.logs[i].psi.pat.is_none(),
    {
        let mut logs: Vec<SourceLog> = Vec::new();
        let mut i: usize = 0;
        while i < sources.len()
            invariant
                i <= sources@.len(),
                logs@.len() == i,
                forall|k: int| 0 <= k < i ==> (#[trigger] logs@[k])@.source == sources@[k]@
                    && logs@[k]@.history.len() == 0 && logs@[k]@.aliases.len() == 0
                    && logs@[k]@.sdps.len() == 0 && logs@[k]@.psi.buffer.is_none()
                    && logs@[k]@.psi.pat.is_none() && association_wf(logs@[k]@.psi),
            decreases sources@.len() - i,
        {
            let log = SourceLog {
                source: clone_source(&sources[i]),
                history: Vec::new(),
                aliases: StreamAliases::new(),
                tables: AssociationTables::new(),
                sdps: Vec::new(),
            };
            logs.push(log);
            i = i + 1;
        }
        let r = Server { logs, observers: Vec::new() };
        proof {
            assert forall|i: int| 0 <= i < r@.logs.len() implies distinct_keys(#[trigger] r@.logs[i].aliases) by {
                assert(r@.logs[i] == r.logs@[i]@);
            }
            assert forall|i: int| 0 <= i < r@.logs.len() implies association_wf(#[trigger] r@.logs[i].psi) by {
                assert(r@.logs[i] == r.logs@[i]@);
            }
        }
        r
    }

    pub fn source_count(&self) -> (r: usize)
        ensures
            r == self@.logs.len(),
    {
        self.logs.len()
    }

    /// The source at index `s`.
    pub fn source(&self, s: usize) -> (r: &Source)
        requires
            s < self@.logs.len(),
        ensures
            r@ == self@.logs[s as int].source,
    {
        &self.logs[s].source
    }

    /// The list of sources, in index order.
    pub fn sources(&self) -> (r: Vec<Source>)
        ensures
            r@.len() == self@.logs.len(),
            forall|i: int| 0 <= i < r@.len() ==> (#[trigger] r@[i])@ == self@.logs[i].source,
    {
        let mut r: Vec<Source> = Vec::new();
        let mut i: usize = 0;
        while i < self.logs.len()
            invariant
                i <= self.logs@.len(),
                r@.len() == i,
                forall|k: int| 0 <= k < i ==> (#[trigger] r@[k])@ == self@.logs[k].source,
            decreases self.logs@.len() - i,
        {
            r.push(clone_source(&self.logs[i].source));
            i = i + 1;
        }
        r
    }

    pub fn history_len(&self, s: usize) -> (r: usize)
        requires
            s < self@.logs.len(),
        ensures
            r == self@.logs[s as int].history.len(),
    {
        self.logs[s].history.len()
    }

    /// Packet `id` of source `s`.
    pub fn packet(&self, s: usize, id: usize) -> (r: &Packet)
        requires
            s < self@.logs.len(),
            id < self@.logs[s as int].history.len(),
        ensures
            r@ == self@.logs[s as int].history[id as int],
    {
        &self.logs[s].history[id]
    }

    /// Session description `index` attached to source `s`.
    pub fn sdp(&self, s: usize, index: usize) -> (r: &(RtpStreamKey, Sdp))
        requires
            s < self@.logs.len(),
            index < self@.logs[s as int].sdps.len(),
        ensures
            (r.0, r.1@) == self@.logs[s as int].sdps[index as int],
    {
        &self.logs[s].sdps[index]
    }

    /// The program association table last completed on source `s`.
    pub fn program_association(&self, s: usize) -> (r: Option<&ProgramAssociationTable>)
        requires
            s < self@.logs.len(),
        ensures
            match r {
                Some(t) => self@.logs[s as int].psi.pat == Some(t@),
                None => self@.logs[s as int].psi.pat.is_none(),
            },
    {
        self.logs[s].tables.program_association()
    }

    /// The program map table last completed on `pid` of source `s`.
    pub fn program_map(&self, s: usize, pid: u16) -> (r: Option<&ProgramMapTable>)
        requires
            self.wf(),
            s < self@.logs.len(),
        ensures
            pid < crate::association::PID_COUNT ==> match r {
                Some(t) => self@.logs[s as int].psi.pmts[pid as int] == Some(t@),
                None => self@.logs[s as int].psi.pmts[pid as int].is_none(),
            },
            pid >= crate::association::PID_COUNT ==> r.is_none(),
    {
        proof {
            assert(self@.logs[s as int] == self.logs@[s as int]@);
            assert(association_wf(self@.logs[s as int].psi));
        }
        self.logs[s].tables.program_map(pid)
    }

    /// The program that elementary stream `pid` of source `s` belongs to, as far as
    /// the completed program maps tell; `None` while none lists it.
    pub fn program_of_pid(&self, s: usize, pid: u16) -> (r: Option<u16>)
        requires
            self.wf(),
            s < self@.logs.len(),
        ensures
            match r {
                Some(n) => exists|q: int, e: int|
                    0 <= q < crate::association::PID_COUNT && self@.logs[s as int].psi.pmts[q] is Some
                        && self@.logs[s as int].psi.pmts[q].unwrap().program_number == n
                        && 0 <= e < self@.logs[s as int].psi.pmts[q].unwrap().elementary_streams_info.len()
                        && (#[trigger] self@.logs[s as int].psi.pmts[q].unwrap().elementary_streams_info[e]).elementary_pid == pid,
                None => forall|q: int, e: int|
                    0 <= q < crate::association::PID_COUNT && self@.logs[s as int].psi.pmts[q] is Some
                        && 0 <= e < self@.logs[s as int].psi.pmts[q].unwrap().elementary_streams_info.len()
                        ==> (#[trigger] self@.logs[s as int].psi.pmts[q].unwrap().elementary_streams_info[e]).elementary_pid != pid,
            },
    {
        proof {
            assert(self@.logs[s as int] == self.logs@[s as int]@);
            assert(association_wf(self@.logs[s as int].psi));
        }
        self.logs[s].tables.program_of_pid(pid)
    }

    /// The alias of stream `key` on source `s`, if the stream has been seen.
    pub fn alias(&self, s: usize, key: RtpStreamKey) -> (r: Option<usize>)
        requires
            s < self@.logs.len(),
        ensures
            match r {
                Some(a) => self@.logs[s as int].aliases.contains(key)
                    && self@.logs[s as int].aliases[a as int] == key,
                None => !self@.logs[s as int].aliases.contains(key),
            },
    {
        self.logs[s].aliases.find(key)
    }

    pub fn observers(&self) -> (r: &Vec<Observer>)
        ensures
            r@ == self@.observers,
    {
        &self.observers
    }

    fn find_observer(&self, id: usize) -> (r: Option<usize>)
        requires
            self.wf(),
        ensures
            match r {
                Some(i) => is_connected(self@, id) && i == observer_index(self@, id) && i
                    < self@.observers.len(),
                None => !is_connected(self@, id),
            },
    {
        let mut i: usize = 0;
        while i < self.observers.len()
            invariant
                i <= self.observers@.len(),
                server_wf(self@),
                forall|k: int| 0 <= k < i ==> self.observers@[k].id != id,
            decreases self.observers@.len() - i,
        {
            if self.observers[i].id == id {
                proof {
                    assert(self@.observers[i as int].id == id);
                    assert(is_connected(self@, id));
                    let c = observer_index(self@, id);
                    assert(0 <= c < self@.observers.len() && self@.observers[c].id == id);
                    if c != i {
                        if c < i {
                        } else {
                            assert(self@.observers[i as int].id != self@.observers[c].id);
                        }
                    }
                }
                return Some(i);
            }
            i = i + 1;
        }
        None
    }

    fn find_source(&self, src: &Source) -> (r: Option<usize>)
        requires
            self.wf(),
        ensures
            match r {
                Some(i) => has_source(self@, src@) && i == source_index(self@, src@) && i
                    < self@.logs.len(),
                None => !has_source(self@, src@),
            },
    {
        let mut i: usize = 0;
        while i < self.logs.len()
            invariant
                i <= self.logs@.len(),
                server_wf(self@),
                forall|k: int| 0 <= k < i ==> self@.logs[k].source != src@,
            decreases self.logs@.len() - i,
        {
            if self.logs[i].source == *src {
                proof {
                    assert(self@.logs[i as int].source == src@);
                    assert(has_source(self@, src@));
                    let c = source_index(self@, src@);
                    assert(0 <= c < self@.logs.len() && self@.logs[c].source == src@);
                    if c != i {
                        if c < i {
                        } else {
                            assert(self@.logs[i as int].source != self@.logs[c].source);
                        }
                    }
                }
                return Some(i);
            }
            i = i + 1;
        }
        None
    }

    fn subscriber_ids(&self, s: usize) -> (r: Vec<usize>)
        ensures
            r@ == subscribers(self@.observers, s),
    {
        let mut r: Vec<usize> = Vec::new();
        let mut i: usize = 0;
        while i < self.observers.len()
            invariant
                i <= self.observers@.len(),
                r@ == subscribers(self.observers@.subrange(0, i as int), s),
            decreases self.observers@.len() - i,
        {
            proof {
                assert(self.observers@.subrange(0, i as int + 1).drop_last()
                    =~= self.observers@.subrange(0, i as int));
            }
            if self.observers[i].source == Some(s) {
                r.push(self.observers[i].id);
            }
            i = i + 1;
        }
        proof {
            assert(self.observers@.subrange(0, i as int) =~= self.observers@);
        }
        r
    }

    fn packet_deliveries(&self, s: usize, packet_id: usize) -> (r: Vec<Delivery>)
        ensures
            r@ == packet_to_subscribers(self@.observers, s, packet_id),
    {
        let ids = self.subscriber_ids(s);
        let mut r: Vec<Delivery> = Vec::new();
        let mut i: usize = 0;
        while i < ids.len()
            invariant
                i <= ids@.len(),
                r@ =~= Seq::new(i as nat, |k: int| Delivery::Packet { observer: ids@[k], source: s, packet_id }),
            decreases ids@.len() - i,
        {
            r.push(Delivery::Packet { observer: ids[i], source: s, packet_id });
            i = i + 1;
        }
        r
    }

    fn sdp_deliveries(&self, s: usize, index: usize) -> (r: Vec<Delivery>)
        ensures
            r@ == sdp_to_subscribers(self@.observers, s, index),
    {
        let ids = self.subscriber_ids(s);
        let mut r: Vec<Delivery> = Vec::new();
        let mut i: usize = 0;
        while i < ids.len()
            invariant
                i <= ids@.len(),
                r@ =~= Seq::new(i as nat, |k: int| Delivery::Sdp { observer: ids@[k], source: s, index }),
            decreases ids@.len() - i,
        {
            r.push(Delivery::Sdp { observer: ids[i], source: s, index });
            i = i + 1;
        }
        r
    }

    fn history_deliveries(&self, observer: usize, s: usize) -> (r: Vec<Delivery>)
        requires
            s < self@.logs.len(),
        ensures
            r@ == history_to(observer, s, self@.logs[s as int].history.len() as int),
    {
        let n = self.logs[s].history.len();
        let mut r: Vec<Delivery> = Vec::new();
        let mut i: usize = 0;
        while i < n
            invariant
                i <= n,
                n == self@.logs[s as int].history.len(),
                r@ =~= history_to(observer, s, i as int),
            decreases n - i,
        {
            r.push(Delivery::Packet { observer, source: s, packet_id: i });
            i = i + 1;
        }
        r
    }
}

proof fn lemma_log_update_wf(v: ServerView, s: int, l: LogView)
    requires
        server_wf(v),
        0 <= s < v.logs.len(),
        l.source == v.logs[s].source,
        distinct_keys(l.aliases),
        association_wf(l.psi),
        forall|j: int| 0 <= j < l.history.len() ==> (#[trigger] l.history[j]).id == j,
    ensures
        server_wf(ServerView { logs: v.logs.update(s, l), ..v }),
{
    let w = ServerView { logs: v.logs.update(s, l), ..v };
    assert forall|i: int, j: int| 0 <= i < w.logs.len() && 0 <= j < w.logs[i].history.len()
        implies (#[trigger] w.logs[i].history[j]).id == j by {
        if i != s {
            assert(w.logs[i] == v.logs[i]);
        }
    }
    assert forall|i: int| 0 <= i < w.logs.len() implies distinct_keys(#[trigger] w.logs[i].aliases) by {
        if i != s {
            assert(w.logs[i] == v.logs[i]);
        }
    }
    assert forall|i: int| 0 <= i < w.logs.len() implies association_wf(#[trigger] w.logs[i].psi) by {
        if i != s {
            assert(w.logs[i] == v.logs[i]);
        }
    }
    assert forall|i: int, j: int| 0 <= i < j < w.logs.len() implies w.logs[i].source != w.logs[j].source by {
        assert(w.logs[i].source == v.logs[i].source);
        assert(w.logs[j].source == v.logs[j].source);
    }
}

impl Server {
    /// Takes the log of source `s` out, to be put back with `put_log`.
    fn take_log(&mut self, s: usize) -> (r: SourceLog)
        requires
            s < old(self)@.logs.len(),
        ensures
            r@ == old(self)@.logs[s as int],
            final(self).logs@ == old(self).logs@.remove(s as int),
            final(self).observers == old(self).observers,
    {
        self.logs.remove(s)
    }

    /// Puts a log back at index `s`.
    fn put_log(&mut self, s: usize, log: SourceLog)
        requires
            s <= old(self).logs@.len(),
        ensures
            final(self).logs@ == old(self).logs@.insert(s as int, log),
            final(self).observers == old(self).observers,
    {
        self.logs.insert(s, log);
    }

    /// Registers a new observer, which first receives the list of sources. An id that
    /// is already connected changes nothing.
    pub fn connect(&mut self, id: usize) -> (r: Vec<Delivery>)
        requires
            old(self).wf(),
        ensures
            final(self).wf(),
            is_connected(old(self)@, id) ==> final(self)@ == old(self)@ && r@ == Seq::<Delivery>::empty(),
            !is_connected(old(self)@, id) ==> final(self)@ == (ServerView {
                observers: old(self)@.observers.push(Observer { id, source: None }),
                ..old(self)@
            }) && r@ == seq![Delivery::Sources { observer: id }],
    {
        if self.find_observer(id).is_some() {
            return Vec::new();
        }
        self.observers.push(Observer { id, source: None });
        proof {
            assert(self@.logs =~= old(self)@.logs);
            assert forall|i: int, j: int| 0 <= i < j < self@.observers.len() implies self@.observers[i].id
                != self@.observers[j].id by {
                if j == old(self)@.observers.len() {
                    assert(old(self)@.observers[i].id != id);
                }
            }
        }
        let mut r: Vec<Delivery> = Vec::new();
        r.push(Delivery::Sources { observer: id });
        assert(r@ =~= seq![Delivery::Sources { observer: id }]);
        r
    }

    /// Removes an observer; an id that is not connected changes nothing.
    pub fn disconnect(&mut self, id: usize)
        requires
            old(self).wf(),
        ensures
            final(self).wf(),
            is_connected(old(self)@, id) ==> final(self)@ == (ServerView {
                observers: old(self)@.observers.remove(observer_index(old(self)@, id)),
                ..old(self)@
            }),
            !is_connected(old(self)@, id) ==> final(self)@ == old(self)@,
    {
        match self.find_observer(id) {
            Some(i) => {
                self.observers.remove(i);
                proof {
                    assert(self@.logs =~= old(self)@.logs);
                    let o = old(self)@.observers;
                    assert forall|a: int, b: int| 0 <= a < b < self@.observers.len() implies self@.observers[a].id
                        != self@.observers[b].id by {
                        let a2 = if a < i { a } else { a + 1 };
                        let b2 = if b < i { b } else { b + 1 };
                        assert(self@.observers[a] == o[a2]);
                        assert(self@.observers[b] == o[b2]);
                    }
                    assert forall|a: int| 0 <= a < self@.observers.len() implies match (#[trigger] self@.observers[a]).source {
                        Some(s) => s < self@.logs.len(),
                        None => true,
                    } by {
                        let a2 = if a < i { a } else { a + 1 };
                        assert(self@.observers[a] == o[a2]);
                    }
                }
            },
            None => {},
        }
    }

    /// Appends a captured frame to source `s`'s history as its next packet, registers
    /// its RTP stream, and sends it to every observer that follows `s`.
    pub fn capture(&mut self, s: usize, frame: Frame) -> (r: Vec<Delivery>)
        requires
            old(self).wf(),
            s < old(self)@.logs.len(),
            old(self)@.logs[s as int].history.len() < usize::MAX,
        ensures
            final(self).wf(),
            (final(self)@, r@) == capture_spec(
                old(self)@,
                s,
                packet_of_frame(
                    old(self)@.logs[s as int].history.len() as usize,
                    frame.timestamp,
                    frame.source_addr,
                    frame.destination_addr,
                    frame.transport_protocol,
                    frame.payload@,
                ),
            ),
    {
        let n = self.history_len(s);
        let deliveries = self.packet_deliveries(s, n);
        let packet = Packet::build(
            n,
            frame.timestamp,
            frame.source_addr,
            frame.destination_addr,
            frame.transport_protocol,
            frame.payload,
        );
        let ghost pv = packet@;
        let mut log = self.take_log(s);
        proof {
            assert(log.aliases.wf()) by {
                assert(old(self)@.logs[s as int] == old(self).logs@[s as int]@);
                assert(distinct_keys(old(self)@.logs[s as int].aliases));
            }
            assert(log.tables.wf()) by {
                assert(old(self)@.logs[s as int] == old(self).logs@[s as int]@);
                assert(association_wf(old(self)@.logs[s as int].psi));
            }
        }
        match &packet.contents {
            SessionPacket::Mpegts(m) => {
                log.tables.observe(packet.payload.as_slice(), m.fragments.as_slice());
            },
            _ => {},
        }
        match &packet.contents {
            SessionPacket::Rtp(rtp) => {
                let key = RtpStreamKey {
                    source: packet.source_addr,
                    destination: packet.destination_addr,
                    protocol: packet.transport_protocol,
                    ssrc: rtp.ssrc,
                };
                log.aliases.attribute(key);
            },
            _ => {},
        }
        log.history.push(packet);
        let ghost lv = log@;
        self.put_log(s, log);
        proof {
            let l = old(self)@.logs[s as int];
            assert(lv.history =~= l.history.push(pv));
            assert(self@.logs =~= old(self)@.logs.update(s as int, lv));
            assert forall|j: int| 0 <= j < lv.history.len() implies (#[trigger] lv.history[j]).id == j by {
                if j < l.history.len() {
                    assert(lv.history[j] == l.history[j]);
                }
            }
            lemma_log_update_wf(old(self)@, s as int, lv);
        }
        deliveries
    }
}

impl Server {
    /// `FetchAll` from observer `id`.
    pub fn fetch_all(&self, id: usize) -> (r: Vec<Delivery>)
        requires
            self.wf(),
        ensures
            r@ == fetch_all_spec(self@, id),
    {
        match self.find_observer(id) {
            Some(i) => match self.observers[i].source {
                Some(s) => {
                    proof {
                        assert(match self@.observers[i as int].source {
                            Some(s) => s < self@.logs.len(),
                            None => true,
                        });
                    }
                    self.history_deliveries(id, s)
                },
                None => Vec::new(),
            },
            None => Vec::new(),
        }
    }

    /// `ChangeSource(src)` from observer `id`.
    pub fn change_source(&mut self, id: usize, src: &Source) -> (r: Vec<Delivery>)
        requires
            old(self).wf(),
        ensures
            final(self).wf(),
            (final(self)@, r@) == change_source_spec(old(self)@, id, src@),
    {
        let Some(i) = self.find_observer(id) else {
            return Vec::new();
        };
        let Some(s) = self.find_source(src) else {
            return Vec::new();
        };
        self.observers.set(i, Observer { id, source: Some(s) });
        proof {
            assert(self@.logs =~= old(self)@.logs);
            assert(self@.observers =~= old(self)@.observers.update(i as int, Observer { id, source: Some(s) }));
            let o = old(self)@.observers;
            assert forall|a: int, b: int| 0 <= a < b < self@.observers.len() implies self@.observers[a].id
                != self@.observers[b].id by {
                assert(self@.observers[a].id == o[a].id);
                assert(self@.observers[b].id == o[b].id);
            }
            assert forall|a: int| 0 <= a < self@.observers.len() implies match (#[trigger] self@.observers[a]).source {
                Some(t) => t < self@.logs.len(),
                None => true,
            } by {
                if a != i {
                    assert(self@.observers[a] == o[a]);
                }
            }
        }
        self.history_deliveries(id, s)
    }

    /// `Reparse(packet_id, protocol)` from observer `id`.
    pub fn reparse(&mut self, id: usize, packet_id: usize, protocol: SessionProtocol) -> (r: Vec<Delivery>)
        requires
            old(self).wf(),
        ensures
            final(self).wf(),
            (final(self)@, r@) == reparse_spec(old(self)@, id, packet_id, protocol),
    {
        let Some(i) = self.find_observer(id) else {
            return Vec::new();
        };
        let Some(s) = self.observers[i].source else {
            return Vec::new();
        };
        proof {
            assert(match self@.observers[i as int].source {
                Some(s) => s < self@.logs.len(),
                None => true,
            });
        }
        if packet_id >= self.history_len(s) {
            return Vec::new();
        }
        let deliveries = self.packet_deliveries(s, packet_id);
        let mut log = self.take_log(s);
        let mut packet = log.history.remove(packet_id);
        packet.parse_as(protocol);
        log.history.insert(packet_id, packet);
        let ghost lv = log@;
        self.put_log(s, log);
        proof {
            let l = old(self)@.logs[s as int];
            let h = l.history.update(packet_id as int, reparsed(l.history[packet_id as int], protocol));
            assert(lv.history =~= h);
            assert(lv == with_history(l, h));
            assert(self@.logs =~= old(self)@.logs.update(s as int, lv));
            assert forall|j: int| 0 <= j < lv.history.len() implies (#[trigger] lv.history[j]).id == j by {
                assert(l.history[j].id == j);
            }
            assert(distinct_keys(l.aliases));
            assert(association_wf(l.psi));
            lemma_log_update_wf(old(self)@, s as int, lv);
        }
        deliveries
    }

    /// `ParseSdp(key, text)` from observer `id`.
    pub fn parse_sdp(&mut self, id: usize, key: RtpStreamKey, text: &str) -> (r: Vec<Delivery>)
        requires
            old(self).wf(),
        ensures
            final(self).wf(),
            (final(self)@, r@) == parse_sdp_spec(old(self)@, id, key, encode_utf8(text@)),
    {
        let Some(i) = self.find_observer(id) else {
            return Vec::new();
        };
        let Some(s) = self.observers[i].source else {
            return Vec::new();
        };
        proof {
            assert(match self@.observers[i as int].source {
                Some(s) => s < self@.logs.len(),
                None => true,
            });
        }
        let Some(sdp) = Sdp::build(text) else {
            return Vec::new();
        };
        let mut log = self.take_log(s);
        let index = log.sdps.len();
        proof {
            assert(old(self)@.logs[s as int] == old(self).logs@[s as int]@);
        }
        log.sdps.push((key, sdp));
        let ghost lv = log@;
        self.put_log(s, log);
        let deliveries = self.sdp_deliveries(s, index);
        proof {
            let l = old(self)@.logs[s as int];
            assert(lv.sdps =~= l.sdps.push((key, sdp_of(encode_utf8(text@)).unwrap())));
            assert(self@.logs =~= old(self)@.logs.update(s as int, lv));
            assert(association_wf(l.psi));
            assert(distinct_keys(l.aliases));
            assert forall|j: int| 0 <= j < lv.history.len() implies (#[trigger] lv.history[j]).id == j by {
                assert(l.history[j].id == j);
            }
            lemma_log_update_wf(old(self)@, s as int, lv);
        }
        deliveries
    }

    /// Answers one request from observer `id`.
    pub fn handle(&mut self, id: usize, request: Request) -> (r: Vec<Delivery>)
        requires
            old(self).wf(),
        ensures
            final(self).wf(),
            match request {
                Request::FetchAll => final(self)@ == old(self)@ && r@ == fetch_all_spec(old(self)@, id),
                Request::ChangeSource(src) => (final(self)@, r@) == change_source_spec(
                    old(self)@,
                    id,
                    src@,
                ),
                Request::Reparse(packet_id, protocol) => (final(self)@, r@) == reparse_spec(
                    old(self)@,
                    id,
                    packet_id,
                    protocol,
                ),
                Request::ParseSdp(key, text) => (final(self)@, r@) == parse_sdp_spec(
                    old(self)@,
                    id,
                    key,
                    encode_utf8(text@),
                ),
            },
    {
        match request {
            Request::FetchAll => self.fetch_all(id),
            Request::ChangeSource(src) => self.change_source(id, &src),
            Request::Reparse(packet_id, protocol) => self.reparse(id, packet_id, protocol),
            Request::ParseSdp(key, text) => self.parse_sdp(id, key, text.as_str()),
        }
    }
}

} // verus!
