//! The packets that two peers exchange and their framing on the wire:
//! `<header>\n<data>\n`, followed, for a download response only, by the bytes
//! of the archive.
use vstd::prelude::*;
use crate::catalog::SongFolder;
use crate::decimal::{all_digits, decimal, digits_value, parse_u64, u64_to_decimal};

verus! {

#[derive(Clone, Copy, Debug, PartialEq, Eq, Structural)]
pub enum PacketKind {
    MapListRequest,
    MapList,
    DownloadRequest,
    DownloadResponse,
    Disconnect,
}

pub open spec fn header_text(k: PacketKind) -> Seq<char> {
    match k {
        PacketKind::MapListRequest => "MapListRequestPacket"@,
        PacketKind::MapList => "MapListPacket"@,
        PacketKind::DownloadRequest => "DownloadRequestPacket"@,
        PacketKind::DownloadResponse => "DownloadResponsePacket"@,
        PacketKind::Disconnect => "DisconnectPacket"@,
    }
}

/// The kind of packet that a header line announces, if any.
pub open spec fn kind_of_header(h: Seq<char>) -> Option<PacketKind> {
    if h == header_text(PacketKind::MapListRequest) {
        Some(PacketKind::MapListRequest)
    } else if h == header_text(PacketKind::MapList) {
        Some(PacketKind::MapList)
    } else if h == header_text(PacketKind::DownloadRequest) {
        Some(PacketKind::DownloadRequest)
    } else if h == header_text(PacketKind::DownloadResponse) {
        Some(PacketKind::DownloadResponse)
    } else if h == header_text(PacketKind::Disconnect) {
        Some(PacketKind::Disconnect)
    } else {
        None
    }
}

/// The header that identifies packets of kind `k`.
pub fn header_of(k: PacketKind) -> (r: &'static str)
    ensures
        r@ == header_text(k),
{
    match k {
        PacketKind::MapListRequest => "MapListRequestPacket",
        PacketKind::MapList => "MapListPacket",
        PacketKind::DownloadRequest => "DownloadRequestPacket",
        PacketKind::DownloadResponse => "DownloadResponsePacket",
        PacketKind::Disconnect => "DisconnectPacket",
    }
}

/// The kind of packet that a header line (without its line end) announces.
pub fn classify_header(h: &str) -> (r: Option<PacketKind>)
    ensures
        r == kind_of_header(h@),
{
    let s = h.to_owned();
    if s == "MapListRequestPacket".to_owned() {
        Some(PacketKind::MapListRequest)
    } else if s == "MapListPacket".to_owned() {
        Some(PacketKind::MapList)
    } else if s == "DownloadRequestPacket".to_owned() {
        Some(PacketKind::DownloadRequest)
    } else if s == "DownloadResponsePacket".to_owned() {
        Some(PacketKind::DownloadResponse)
    } else if s == "DisconnectPacket".to_owned() {
        Some(PacketKind::Disconnect)
    } else {
        None
    }
}

pub open spec fn has_no_newline(s: Seq<char>) -> bool {
    forall|i: int| 0 <= i < s.len() ==> #[trigger] s[i] != '\n'
}

/// The framed text of a packet: header line, then data line.
pub open spec fn frame_text(header: Seq<char>, data: Seq<char>) -> Seq<char> {
    header + seq!['\n'] + data + seq!['\n']
}

fn contains_newline(s: &str) -> (r: bool)
    ensures
        r == !has_no_newline(s@),
{
    let cs = crate::catalog::chars_of(s);
    let mut i: usize = 0;
    while i < cs.len()
        invariant
            cs@ == s@,
            i <= cs@.len(),
            forall|j: int| 0 <= j < i ==> #[trigger] s@[j] != '\n',
        decreases cs@.len() - i,
    {
        if cs[i] == '\n' {
            return true;
        }
        i = i + 1;
    }
    false
}

/// The text that carries a packet with this header and data; `None` where
/// either would break the framing because it holds a line end.
pub fn frame_packet(header: &str, data: &str) -> (r: Option<String>)
    ensures
        r is Some <==> has_no_newline(header@) && has_no_newline(data@),
        r is Some ==> r->Some_0@ == frame_text(header@, data@),
{
    if contains_newline(header) || contains_newline(data) {
        return None;
    }
    let mut out = header.to_owned();
    out.append("\n");
    out.append(data);
    out.append("\n");
    proof {
        reveal_strlit("\n");
    }
    assert(out@ =~= frame_text(header@, data@));
    Some(out)
}

/// A line as read from the stream, without its line end.
pub open spec fn line_body(line: Seq<char>) -> Seq<char> {
    if line.len() > 0 && line.last() == '\n' { line.drop_last() } else { line }
}

/// The content of a line read from the stream: the line without its final
/// line end.
pub fn strip_line_end(line: &str) -> (r: String)
    ensures
        r@ == line_body(line@),
{
    let n = line.unicode_len();
    if n > 0 && line.get_char(n - 1) == '\n' {
        line.substring_char(0, n - 1).to_owned()
    } else {
        line.to_owned()
    }
}

/// What every packet has: a kind, and the header that announces it.
pub trait Packet {
    spec fn spec_kind(&self) -> PacketKind;

    fn kind(&self) -> (r: PacketKind)
        ensures
            r == self.spec_kind(),
    ;

    fn get_header(&self) -> (r: &'static str)
        ensures
            r@ == header_text(self.spec_kind()),
    ;
}

/// Asks the peer for its catalog.
pub struct MapListRequestPacket;

impl MapListRequestPacket {
    pub fn new() -> Self {
        MapListRequestPacket
    }

    /// The data line of this packet: empty.
    pub fn get_data(&self) -> (r: String)
        ensures
            r@ == Seq::<char>::empty(),
    {
        String::new()
    }
}

impl Packet for MapListRequestPacket {
    open spec fn spec_kind(&self) -> PacketKind {
        PacketKind::MapListRequest
    }

    fn kind(&self) -> (r: PacketKind) {
        PacketKind::MapListRequest
    }

    fn get_header(&self) -> (r: &'static str) {
        header_of(PacketKind::MapListRequest)
    }
}

/// Carries a catalog.
pub struct MapListPacket {
    pub map_list: Vec<SongFolder>,
}

impl MapListPacket {
    pub fn new(map_list: Vec<SongFolder>) -> (r: Self)
        ensures
            r.map_list == map_list,
    {
        MapListPacket { map_list }
    }
}

impl Packet for MapListPacket {
    open spec fn spec_kind(&self) -> PacketKind {
        PacketKind::MapList
    }

    fn kind(&self) -> (r: PacketKind) {
        PacketKind::MapList
    }

    fn get_header(&self) -> (r: &'static str) {
        header_of(PacketKind::MapList)
    }
}

/// Asks the peer for the archive of some of its folders.
pub struct DownloadRequestPacket {
    pub requested_maps: Vec<SongFolder>,
}

impl DownloadRequestPacket {
    pub fn new(requested_maps: Vec<SongFolder>) -> (r: Self)
        ensures
            r.requested_maps == requested_maps,
    {
        DownloadRequestPacket { requested_maps }
    }
}

impl Packet for DownloadRequestPacket {
    open spec fn spec_kind(&self) -> PacketKind {
        PacketKind::DownloadRequest
    }

    fn kind(&self) -> (r: PacketKind) {
        PacketKind::DownloadRequest
    }

    fn get_header(&self) -> (r: &'static str) {
        header_of(PacketKind::DownloadRequest)
    }
}

/// Announces an archive of `zip_size` bytes, which follow the packet on the
/// stream.
pub struct DownloadResponsePacket {
    pub zip_size: u64,
}

impl DownloadResponsePacket {
    pub fn new(zip_size: u64) -> (r: Self)
        ensures
            r.zip_size == zip_size,
    {
        DownloadResponsePacket { zip_size }
    }

    /// The data line of this packet: the size in decimal.
    pub fn get_data(&self) -> (r: String)
        ensures
            r@ == decimal(self.zip_size as nat),
    {
        u64_to_decimal(self.zip_size)
    }

    /// The packet whose data line is `raw`, the decimal text of a `u64`.
    /// Other text is a malformed packet, which the caller must turn away
    /// before (`parse_u64` tells).
    pub fn deserialize(raw: &str) -> (r: Self)
        requires
            raw@.len() > 0,
            all_digits(raw@),
            digits_value(raw@) <= u64::MAX,
        ensures
            r.zip_size == digits_value(raw@),
    {
        DownloadResponsePacket { zip_size: parse_u64(raw).unwrap() }
    }
}

impl Packet for DownloadResponsePacket {
    open spec fn spec_kind(&self) -> PacketKind {
        PacketKind::DownloadResponse
    }

    fn kind(&self) -> (r: PacketKind) {
        PacketKind::DownloadResponse
    }

    fn get_header(&self) -> (r: &'static str) {
        header_of(PacketKind::DownloadResponse)
    }
}

/// Ends a connection.
pub struct DisconnectPacket;

impl DisconnectPacket {
    pub fn new() -> Self {
        DisconnectPacket
    }

    /// The data line of this packet: empty.
    pub fn get_data(&self) -> (r: String)
        ensures
            r@ == Seq::<char>::empty(),
    {
        String::new()
    }
}

impl Packet for DisconnectPacket {
    open spec fn spec_kind(&self) -> PacketKind {
        PacketKind::Disconnect
    }

    fn kind(&self) -> (r: PacketKind) {
        PacketKind::Disconnect
    }

    fn get_header(&self) -> (r: &'static str) {
        header_of(PacketKind::Disconnect)
    }
}

/// The size that a download response announces reads back from its data line.
pub proof fn lemma_size_round_trip(zip_size: u64)
    ensures
        decimal(zip_size as nat).len() > 0,
        all_digits(decimal(zip_size as nat)),
        digits_value(decimal(zip_size as nat)) == zip_size,
{
    crate::decimal::lemma_decimal_value(zip_size as nat);
}

} // verus!
