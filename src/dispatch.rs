//! The decisions of the two tasks that serve a connection. The reader task
//! turns each packet that arrives into an action; the writer task turns each
//! outgoing packet into the text to write and says whether an archive follows
//! and whether to stop. The tasks themselves, which read and write the socket,
//! run outside the library.
use vstd::prelude::*;
use crate::catalog::{answers, resolve_requested, resolves, SongFolder};
use crate::packets::{frame_packet, frame_text, has_no_newline, header_of, header_text, kind_of_header, MapListPacket, PacketKind};

verus! {

/// Bytes moved at most per read or write while an archive streams.
pub const CHUNK_SIZE: u64 = 1024;

/// A packet that the reader task has read and decoded.
pub enum Incoming {
    MapListRequest,
    MapList(Vec<SongFolder>),
    DownloadRequest(Vec<SongFolder>),
    DownloadResponse(u64),
    Disconnect,
    /// A header that names no packet: logged and passed over.
    Unknown,
}

/// What the reader task does about a packet.
pub enum ReaderAction {
    /// Queue this catalog packet for the writer.
    SendMapList(MapListPacket),
    /// Replace the peer's catalog with this one and tell the user.
    ReplaceRemote(Vec<SongFolder>),
    /// Build the archive of these local folders and queue a download response
    /// that carries it.
    SendArchive(Vec<SongFolder>),
    /// The request names, at this place, a folder that is not here.
    RejectRequest(usize),
    /// An archive of this many bytes follows on the stream: take it or drain it.
    ReceiveArchive(DownloadTransfer),
    /// Queue a disconnect packet for the writer and stop reading.
    Disconnect,
    /// Log the packet and read on.
    Ignore,
}

/// The progress, in percent, of a transfer of `total` bytes with `remaining`
/// bytes still to come.
pub open spec fn progress(total: u64, remaining: u64) -> u64 {
    if total == 0 { 100 } else { (100 - (100 * remaining as int) / (total as int)) as u64 }
}

/// The bytes of an archive that arrive after a download response: how many
/// are still to come, and the last progress that was reported.
pub struct DownloadTransfer {
    pub total: u64,
    pub remaining: u64,
    pub reported: u64,
}

impl DownloadTransfer {
    pub open spec fn wf(&self) -> bool {
        &&& self.remaining <= self.total
        &&& self.reported == if self.remaining == self.total { 0 } else { progress(self.total, self.remaining) }
    }

    /// A transfer of `total` bytes, none of them read yet.
    pub fn new(total: u64) -> (r: Self)
        ensures
            r.total == total,
            r.remaining == total,
            r.reported == 0,
            r.wf(),
    {
        DownloadTransfer { total, remaining: total, reported: 0 }
    }

    /// How many bytes to read next: a chunk, or what is left if that is less.
    pub fn next_chunk_len(&self) -> (r: u64)
        ensures
            r == if self.remaining < CHUNK_SIZE { self.remaining } else { CHUNK_SIZE },
    {
        if self.remaining < CHUNK_SIZE { self.remaining } else { CHUNK_SIZE }
    }

    /// Whether every byte of the archive has been read.
    pub fn is_complete(&self) -> (r: bool)
        ensures
            r == (self.remaining == 0),
    {
        self.remaining == 0
    }

    /// How many bytes of the archive have been read.
    pub fn received(&self) -> (r: u64)
        requires
            self.wf(),
        ensures
            r == self.total - self.remaining,
    {
        self.total - self.remaining
    }

    /// Takes note of `n` bytes read; returns the new progress where it has
    /// risen above the last one reported.
    pub fn record(&mut self, n: u64) -> (r: Option<u64>)
        requires
            old(self).wf(),
            0 < n <= old(self).remaining,
        ensures
            final(self).wf(),
            final(self).total == old(self).total,
            final(self).remaining == old(self).remaining - n,
            r == (if progress(old(self).total, final(self).remaining) > old(self).reported {
                Some(progress(old(self).total, final(self).remaining))
            } else {
                None::<u64>
            }),
            final(self).reported == (if r is Some { r->Some_0 } else { old(self).reported }),
    {
        let total = self.total;
        let rem = self.remaining - n;
        proof {
            lemma_progress_bounds(total, rem, self.remaining);
        }
        let scaled: u128 = (100 * (rem as u128)) / (total as u128);
        let p: u64 = (100 - scaled) as u64;
        self.remaining = rem;
        if p > self.reported {
            self.reported = p;
            Some(p)
        } else {
            proof {
                if self.remaining != self.total {
                    assert(p <= old(self).reported);
                }
            }
            None
        }
    }
}

/// Progress stays within 0..=100 and does not fall as bytes arrive.
pub proof fn lemma_progress_bounds(total: u64, rem: u64, before: u64)
    requires
        0 < total,
        rem < before <= total,
    ensures
        0 <= (100 * rem as int) / (total as int) <= 100,
        progress(total, rem) <= 100,
        progress(total, before) <= progress(total, rem),
        before == total ==> progress(total, before) == 0,
{
    let t = total as int;
    assert(0 <= 100 * rem as int <= 100 * t) by (nonlinear_arith)
        requires
            rem <= t,
    ;
    assert((100 * rem as int) / t <= 100) by (nonlinear_arith)
        requires
            0 <= 100 * rem as int <= 100 * t,
            t > 0,
    ;
    assert(0 <= (100 * before as int) / t <= 100) by (nonlinear_arith)
        requires
            before <= t,
            t > 0,
    ;
    assert((100 * rem as int) / t <= (100 * before as int) / t) by (nonlinear_arith)
        requires
            rem < before,
            t > 0,
    ;
    assert((100 * t) / t == 100) by (nonlinear_arith)
        requires
            t > 0,
    ;
}

/// The next read of a transfer with `remaining` bytes to come: a chunk, or
/// what is left if that is less.
pub open spec fn chunk_bound(remaining: int) -> int {
    if remaining < CHUNK_SIZE { remaining } else { CHUNK_SIZE as int }
}

/// Bytes taken by a run of reads.
pub open spec fn total_read(reads: Seq<u64>) -> int
    decreases reads.len(),
{
    if reads.len() == 0 { 0 } else { total_read(reads.drop_last()) + reads.last() }
}

/// Each read of the run took at least one byte and no more than the next
/// chunk of what was then left of `total` (what `next_chunk_len` asks for and
/// `record` accepts).
pub open spec fn reads_within(total: u64, reads: Seq<u64>) -> bool {
    forall|i: int| 0 <= i < reads.len() ==> 0 < #[trigger] reads[i]
        && reads[i] <= chunk_bound(total - total_read(reads.subrange(0, i)))
}

/// Draining an announced archive takes exactly its bytes: reads that stay
/// within the chunks a transfer asks for never go past the announced size, and
/// until they reach it the transfer asks for at least one more byte. So the
/// reader stops just after the last byte of the archive, and what follows on
/// the stream is read as the next packet.
pub proof fn lemma_drain_is_exact(total: u64, reads: Seq<u64>)
    requires
        reads_within(total, reads),
    ensures
        0 <= total_read(reads) <= total,
        total_read(reads) < total ==> chunk_bound(total - total_read(reads)) > 0,
    decreases reads.len(),
{
    if reads.len() > 0 {
        let before = reads.drop_last();
        assert forall|i: int| 0 <= i < before.len() implies 0 < #[trigger] before[i]
            && before[i] <= chunk_bound(total - total_read(before.subrange(0, i))) by {
            assert(before[i] == reads[i]);
            assert(before.subrange(0, i) =~= reads.subrange(0, i));
        }
        lemma_drain_is_exact(total, before);
        let last = reads.len() - 1;
        assert(reads.subrange(0, last) =~= before);
        assert(0 < reads[last] <= chunk_bound(total - total_read(before)));
    }
}

/// A copy of a catalog.
pub fn clone_catalog(v: &Vec<SongFolder>) -> (r: Vec<SongFolder>)
    ensures
        r@ == v@,
{
    let mut out: Vec<SongFolder> = Vec::new();
    let mut i: usize = 0;
    while i < v.len()
        invariant
            i <= v@.len(),
            out@ == v@.subrange(0, i as int),
        decreases v@.len() - i,
    {
        out.push(v[i].clone_entry());
        i = i + 1;
        assert(out@ =~= v@.subrange(0, i as int));
    }
    assert(out@ =~= v@);
    out
}

/// The action that the reader task takes on `event`, given the local catalog.
pub open spec fn reader_reaction(local: Seq<SongFolder>, event: Incoming, a: ReaderAction) -> bool {
    match event {
        Incoming::MapListRequest => a is SendMapList && a->SendMapList_0.map_list@ == local,
        Incoming::MapList(list) => a is ReplaceRemote && a->ReplaceRemote_0 == list,
        Incoming::DownloadRequest(req) => {
            if forall|i: int| 0 <= i < req@.len() ==> resolves(local, #[trigger] req@[i]) {
                &&& a is SendArchive
                &&& a->SendArchive_0@.len() == req@.len()
                &&& forall|i: int| 0 <= i < req@.len() ==>
                    #[trigger] answers(local, req@[i], a->SendArchive_0@[i])
            } else {
                &&& a is RejectRequest
                &&& a->RejectRequest_0 < req@.len()
                &&& !resolves(local, req@[a->RejectRequest_0 as int])
                &&& forall|i: int| 0 <= i < a->RejectRequest_0 ==> resolves(local, #[trigger] req@[i])
            }
        },
        Incoming::DownloadResponse(n) => {
            &&& a is ReceiveArchive
            &&& a->ReceiveArchive_0 == DownloadTransfer { total: n, remaining: n, reported: 0 }
        },
        Incoming::Disconnect => a is Disconnect,
        Incoming::Unknown => a is Ignore,
    }
}

/// Whether the reader task stops after this action.
pub open spec fn stops_reading(a: ReaderAction) -> bool {
    a is Disconnect
}

/// Decides what the reader task does about one packet that arrived.
pub fn reader_step(local: &Vec<SongFolder>, event: Incoming) -> (r: ReaderAction)
    ensures
        reader_reaction(local@, event, r),
{
    match event {
        Incoming::MapListRequest => ReaderAction::SendMapList(MapListPacket::new(clone_catalog(local))),
        Incoming::MapList(list) => ReaderAction::ReplaceRemote(list),
        Incoming::DownloadRequest(req) => {
            match resolve_requested(local, &req) {
                Ok(found) => ReaderAction::SendArchive(found),
                Err(i) => ReaderAction::RejectRequest(i),
            }
        },
        Incoming::DownloadResponse(n) => ReaderAction::ReceiveArchive(DownloadTransfer::new(n)),
        Incoming::Disconnect => ReaderAction::Disconnect,
        Incoming::Unknown => ReaderAction::Ignore,
    }
}

/// What the writer task does with one packet: the framed text to write, whether
/// the bytes of an archive follow it, and whether to stop after it.
pub struct WriterPlan {
    pub frame: String,
    pub stream_payload: bool,
    pub stop: bool,
}

/// The plan for writing a packet of kind `kind` with data line `data`.
pub open spec fn writer_plan_for(kind: PacketKind, data: Seq<char>, r: Option<WriterPlan>) -> bool {
    &&& r is Some <==> has_no_newline(data)
    &&& r is Some ==> {
        &&& r->Some_0.frame@ == frame_text(header_text(kind), data)
        &&& r->Some_0.stream_payload == (kind == PacketKind::DownloadResponse)
        &&& r->Some_0.stop == (kind == PacketKind::Disconnect)
    }
}

/// Plans the writing of a packet of kind `kind` whose data line is `data`;
/// `None` where `data` holds a line end and so cannot be framed.
pub fn plan_write(kind: PacketKind, data: &str) -> (r: Option<WriterPlan>)
    ensures
        writer_plan_for(kind, data@, r),
{
    let header = header_of(kind);
    proof {
        lemma_headers_are_one_line(kind);
    }
    match frame_packet(header, data) {
        Some(frame) => Some(WriterPlan {
            frame,
            stream_payload: kind == PacketKind::DownloadResponse,
            stop: kind == PacketKind::Disconnect,
        }),
        None => None,
    }
}

/// No header holds a line end.
pub proof fn lemma_headers_are_one_line(kind: PacketKind)
    ensures
        has_no_newline(header_text(kind)),
{
    reveal_strlit("MapListRequestPacket");
    reveal_strlit("MapListPacket");
    reveal_strlit("DownloadRequestPacket");
    reveal_strlit("DownloadResponsePacket");
    reveal_strlit("DisconnectPacket");
}

/// Each header is told apart from the others.
pub proof fn lemma_headers_are_distinct(kind: PacketKind)
    ensures
        kind_of_header(header_text(kind)) == Some(kind),
{
    reveal_strlit("MapListRequestPacket");
    reveal_strlit("MapListPacket");
    reveal_strlit("DownloadRequestPacket");
    reveal_strlit("DownloadResponsePacket");
    reveal_strlit("DisconnectPacket");
    // the five headers have five different lengths
    assert(header_text(PacketKind::MapListRequest).len() == 20);
    assert(header_text(PacketKind::MapList).len() == 13);
    assert(header_text(PacketKind::DownloadRequest).len() == 21);
    assert(header_text(PacketKind::DownloadResponse).len() == 22);
    assert(header_text(PacketKind::Disconnect).len() == 16);
}

/// A disconnect packet ends both tasks that it passes through: the writer that
/// sends it stops once it is written, so nothing queued after it goes out; the
/// first line of what it wrote, read at the far end, announces a disconnect;
/// and the reader there answers with a disconnect of its own and stops.
pub proof fn lemma_disconnect_ends_both(
    plan: Option<WriterPlan>,
    local: Seq<SongFolder>,
    answer: ReaderAction,
)
    requires
        writer_plan_for(PacketKind::Disconnect, Seq::<char>::empty(), plan),
        reader_reaction(local, Incoming::Disconnect, answer),
    ensures
        plan is Some,
        plan->Some_0.stop,
        !plan->Some_0.stream_payload,
        kind_of_header(plan->Some_0.frame@.subrange(0, header_text(PacketKind::Disconnect).len() as int))
            == Some(PacketKind::Disconnect),
        plan->Some_0.frame@[header_text(PacketKind::Disconnect).len() as int] == '\n',
        stops_reading(answer),
        answer is Disconnect,
{
    let h = header_text(PacketKind::Disconnect);
    lemma_headers_are_distinct(PacketKind::Disconnect);
    assert(plan->Some_0.frame@.subrange(0, h.len() as int) =~= h);
}

} // verus!
