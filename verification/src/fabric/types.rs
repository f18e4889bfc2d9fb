//! Types of the LAN peer fabric: peer records, file transfers, the tagged
//! wire message, and the events and actions the fabric hands its host.

use vstd::prelude::*;

verus! {

/// One known peer: its identity, addresses and presence. `last_seen_ms`
/// mirrors `last_seen` as epoch milliseconds so that the presence sweep is
/// plain arithmetic.
pub struct PeerInfo {
    pub peer_id: String,
    pub user_id: String,
    pub user_name: Option<String>,
    pub school_id: Option<String>,
    pub ip_address: String,
    pub port: u16,
    pub last_seen: String,
    pub last_seen_ms: i64,
    pub is_online: bool,
    pub hostname: Option<String>,
    pub platform: Option<String>,
}

/// The mathematical model of a peer record.
pub ghost struct PeerInfoV {
    pub peer_id: Seq<char>,
    pub user_id: Seq<char>,
    pub user_name: Option<Seq<char>>,
    pub school_id: Option<Seq<char>>,
    pub ip_address: Seq<char>,
    pub port: u16,
    pub last_seen: Seq<char>,
    pub last_seen_ms: i64,
    pub is_online: bool,
    pub hostname: Option<Seq<char>>,
    pub platform: Option<Seq<char>>,
}

/// The view of an optional string.
pub open spec fn opt_view(o: Option<String>) -> Option<Seq<char>> {
    match o {
        Some(s) => Some(s@),
        None => None,
    }
}

/// Copies an optional string so that the copy has the same view.
pub fn dup_opt(o: &Option<String>) -> (r: Option<String>)
    ensures
        opt_view(r) == opt_view(*o),
{
    match o {
        Some(s) => Some(s.clone()),
        None => None,
    }
}

impl View for PeerInfo {
    type V = PeerInfoV;

    open spec fn view(&self) -> PeerInfoV {
        PeerInfoV {
            peer_id: self.peer_id@,
            user_id: self.user_id@,
            user_name: opt_view(self.user_name),
            school_id: opt_view(self.school_id),
            ip_address: self.ip_address@,
            port: self.port,
            last_seen: self.last_seen@,
            last_seen_ms: self.last_seen_ms,
            is_online: self.is_online,
            hostname: opt_view(self.hostname),
            platform: opt_view(self.platform),
        }
    }
}

impl PeerInfo {
    /// A copy holding the same model.
    pub fn duplicate(&self) -> (r: Self)
        ensures
            r@ == self@,
    {
        PeerInfo {
            peer_id: self.peer_id.clone(),
            user_id: self.user_id.clone(),
            user_name: dup_opt(&self.user_name),
            school_id: dup_opt(&self.school_id),
            ip_address: self.ip_address.clone(),
            port: self.port,
            last_seen: self.last_seen.clone(),
            last_seen_ms: self.last_seen_ms,
            is_online: self.is_online,
            hostname: dup_opt(&self.hostname),
            platform: dup_opt(&self.platform),
        }
    }
}

/// The views of a peer list.
pub open spec fn peer_views(s: Seq<PeerInfo>) -> Seq<PeerInfoV> {
    s.map_values(|p: PeerInfo| p@)
}

/// Lifecycle state of a file transfer.
#[derive(Clone, Copy, PartialEq, Eq, Structural, Debug)]
pub enum TransferStatus {
    Pending,
    Accepted,
    Rejected,
    Active,
    Complete,
}

/// Direction of a file transfer.
#[derive(Clone, Copy, PartialEq, Eq, Structural, Debug)]
pub enum TransferDirection {
    Send,
    Receive,
}

/// One tracked file transfer between this host and a peer.
pub struct FileTransfer {
    pub id: String,
    pub peer_id: String,
    pub file_name: String,
    pub file_size: u64,
    pub progress: u8,
    pub status: TransferStatus,
    pub direction: TransferDirection,
    pub total_chunks: u64,
}

/// The mathematical model of a file transfer.
pub ghost struct FileTransferV {
    pub id: Seq<char>,
    pub peer_id: Seq<char>,
    pub file_name: Seq<char>,
    pub file_size: u64,
    pub progress: u8,
    pub status: TransferStatus,
    pub direction: TransferDirection,
    pub total_chunks: u64,
}

impl View for FileTransfer {
    type V = FileTransferV;

    open spec fn view(&self) -> FileTransferV {
        FileTransferV {
            id: self.id@,
            peer_id: self.peer_id@,
            file_name: self.file_name@,
            file_size: self.file_size,
            progress: self.progress,
            status: self.status,
            direction: self.direction,
            total_chunks: self.total_chunks,
        }
    }
}

impl FileTransfer {
    /// A copy holding the same model.
    pub fn duplicate(&self) -> (r: Self)
        ensures
            r@ == self@,
    {
        FileTransfer {
            id: self.id.clone(),
            peer_id: self.peer_id.clone(),
            file_name: self.file_name.clone(),
            file_size: self.file_size,
            progress: self.progress,
            status: self.status,
            direction: self.direction,
            total_chunks: self.total_chunks,
        }
    }
}

/// The views of a transfer list.
pub open spec fn transfer_views(s: Seq<FileTransfer>) -> Seq<FileTransferV> {
    s.map_values(|t: FileTransfer| t@)
}

/// The tag of a wire message.
#[derive(Clone, Copy, PartialEq, Eq, Structural, Debug)]
pub enum WireKind {
    Chat,
    DeliveryReceipt,
    ReadReceipt,
    Typing,
    GroupChat,
    GroupCreate,
    GroupJoin,
    GroupLeave,
    GroupReadReceipt,
    GroupDeliveryReceipt,
    GroupTyping,
    FileOffer,
    FileAccept,
    FileReject,
    Ping,
    Pong,
    Discovery,
    DiscoveryResponse,
}

impl WireKind {
    /// Whether this kind belongs to the group-message family, which every
    /// peer processes regardless of the addressed receiver.
    pub open spec fn is_group(self) -> bool {
        self == WireKind::GroupChat || self == WireKind::GroupCreate || self == WireKind::GroupJoin
            || self == WireKind::GroupLeave || self == WireKind::GroupReadReceipt || self
            == WireKind::GroupDeliveryReceipt || self == WireKind::GroupTyping
    }

    /// Evaluates `is_group`.
    pub fn is_group_kind(self) -> (r: bool)
        ensures
            r == self.is_group(),
    {
        match self {
            WireKind::GroupChat => true,
            WireKind::GroupCreate => true,
            WireKind::GroupJoin => true,
            WireKind::GroupLeave => true,
            WireKind::GroupReadReceipt => true,
            WireKind::GroupDeliveryReceipt => true,
            WireKind::GroupTyping => true,
            _ => false,
        }
    }
}

/// One peer-to-peer datagram, modelled as a tagged record. Fields a kind
/// does not use stay empty, mirroring the wire's JSON objects in which an
/// absent field reads as the empty string.
pub struct WireMessage {
    pub kind: WireKind,
    pub id: String,
    pub sender_id: String,
    pub sender_name: String,
    pub receiver_id: String,
    pub content: String,
    pub timestamp: String,
    pub message_id: String,
    pub group_id: String,
    pub group_name: String,
    pub member_ids: Vec<String>,
    pub file_name: String,
    pub file_size: u64,
    pub total_chunks: u64,
    pub is_typing: bool,
}

/// The mathematical model of a wire message.
pub ghost struct WireMessageV {
    pub kind: WireKind,
    pub id: Seq<char>,
    pub sender_id: Seq<char>,
    pub sender_name: Seq<char>,
    pub receiver_id: Seq<char>,
    pub content: Seq<char>,
    pub timestamp: Seq<char>,
    pub message_id: Seq<char>,
    pub group_id: Seq<char>,
    pub group_name: Seq<char>,
    pub member_ids: Seq<Seq<char>>,
    pub file_name: Seq<char>,
    pub file_size: u64,
    pub total_chunks: u64,
    pub is_typing: bool,
}

/// The views of a string list.
pub open spec fn str_views(s: Seq<String>) -> Seq<Seq<char>> {
    s.map_values(|x: String| x@)
}

/// Copies a string list so that the copy has the same views.
pub fn dup_str_list(xs: &Vec<String>) -> (r: Vec<String>)
    ensures
        str_views(r@) == str_views(xs@),
{
    let mut r: Vec<String> = Vec::new();
    let mut i: usize = 0;
    proof {
        assert(str_views(r@) =~= str_views(xs@.subrange(0, 0)));
    }
    while i < xs.len()
        invariant
            0 <= i <= xs@.len(),
            str_views(r@) == str_views(xs@.subrange(0, i as int)),
        decreases xs@.len() - i,
    {
        let ghost r0 = r@;
        r.push(xs[i].clone());
        proof {
            assert(str_views(r@) =~= str_views(r0).push(xs@[i as int]@));
            assert(xs@.subrange(0, i as int + 1) =~= xs@.subrange(0, i as int).push(xs@[i as int]));
            assert(str_views(xs@.subrange(0, i as int + 1)) =~= str_views(
                xs@.subrange(0, i as int),
            ).push(xs@[i as int]@));
        }
        i = i + 1;
    }
    proof {
        assert(xs@.subrange(0, i as int) =~= xs@);
    }
    r
}

impl View for WireMessage {
    type V = WireMessageV;

    open spec fn view(&self) -> WireMessageV {
        WireMessageV {
            kind: self.kind,
            id: self.id@,
            sender_id: self.sender_id@,
            sender_name: self.sender_name@,
            receiver_id: self.receiver_id@,
            content: self.content@,
            timestamp: self.timestamp@,
            message_id: self.message_id@,
            group_id: self.group_id@,
            group_name: self.group_name@,
            member_ids: str_views(self.member_ids@),
            file_name: self.file_name@,
            file_size: self.file_size,
            total_chunks: self.total_chunks,
            is_typing: self.is_typing,
        }
    }
}

impl WireMessage {
    /// A blank record of a kind; the composers fill what the kind uses.
    pub fn blank(kind: WireKind) -> (r: Self)
        ensures
            r@.kind == kind,
            r@.id.len() == 0,
            r@.sender_id.len() == 0,
            r@.sender_name.len() == 0,
            r@.receiver_id.len() == 0,
            r@.content.len() == 0,
            r@.timestamp.len() == 0,
            r@.message_id.len() == 0,
            r@.group_id.len() == 0,
            r@.group_name.len() == 0,
            r@.member_ids.len() == 0,
            r@.file_name.len() == 0,
            r@.file_size == 0,
            r@.total_chunks == 0,
            !r@.is_typing,
    {
        let r = WireMessage {
            kind,
            id: String::new(),
            sender_id: String::new(),
            sender_name: String::new(),
            receiver_id: String::new(),
            content: String::new(),
            timestamp: String::new(),
            message_id: String::new(),
            group_id: String::new(),
            group_name: String::new(),
            member_ids: Vec::new(),
            file_name: String::new(),
            file_size: 0,
            total_chunks: 0,
            is_typing: false,
        };
        proof {
            assert(str_views(r.member_ids@) =~= Seq::<Seq<char>>::empty());
        }
        r
    }

    /// A copy holding the same model.
    pub fn duplicate(&self) -> (r: Self)
        ensures
            r@ == self@,
    {
        WireMessage {
            kind: self.kind,
            id: self.id.clone(),
            sender_id: self.sender_id.clone(),
            sender_name: self.sender_name.clone(),
            receiver_id: self.receiver_id.clone(),
            content: self.content.clone(),
            timestamp: self.timestamp.clone(),
            message_id: self.message_id.clone(),
            group_id: self.group_id.clone(),
            group_name: self.group_name.clone(),
            member_ids: dup_str_list(&self.member_ids),
            file_name: self.file_name.clone(),
            file_size: self.file_size,
            total_chunks: self.total_chunks,
            is_typing: self.is_typing,
        }
    }
}

/// The views of a wire-message list.
pub open spec fn wire_views(s: Seq<WireMessage>) -> Seq<WireMessageV> {
    s.map_values(|m: WireMessage| m@)
}

/// What the fabric tells its host about.
pub enum FabricEvent {
    MessageReceived(WireMessage),
    DeliveryReceiptReceived(WireMessage),
    ReadReceiptReceived(WireMessage),
    TypingReceived { user_id: String, is_typing: bool },
    GroupMessageReceived(WireMessage),
    GroupCreated(WireMessage),
    GroupMemberChanged(WireMessage),
    GroupReadReceiptReceived(WireMessage),
    GroupDeliveryReceiptReceived(WireMessage),
    GroupTypingReceived(WireMessage),
    FileOfferReceived(FileTransfer),
    FileProgress { transfer_id: String, progress: u8 },
    FileComplete(FileTransfer),
    PeerDiscovered(PeerInfo),
    PeerOnline(PeerInfo),
    PeerOffline(PeerInfo),
}

/// What the fabric asks its host to do with the outside world.
pub enum FabricAction {
    SendUdp { target_ip: String, message: WireMessage },
    PersistMessage { message: WireMessage, delivered: bool, is_read: bool },
    MarkDelivered { message_id: String },
    MarkRead { message_id: String },
}

} // verus!
