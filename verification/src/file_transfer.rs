//! File transfers: offers, accepted transfers and their progress through
//! chunks. A transfer's progress is the fraction `bytes_transferred /
//! file_size`.
use vstd::prelude::*;
use crate::primitives;
use crate::text;

verus! {

/// Where a transfer stands.
#[derive(Debug, Clone, Copy, PartialEq, Eq, Structural)]
pub enum TransferStatus {
    Pending,
    WaitingForAccept,
    InProgress,
    Paused,
    Completed,
    Failed,
    Cancelled,
}

/// One transfer.
#[derive(Debug)]
pub struct FileTransfer {
    pub id: String,
    pub conversation_id: String,
    pub file_id: String,
    pub file_name: String,
    pub file_size: u64,
    pub sha3sum: String,
    pub mime_type: String,
    pub sender: String,
    pub recipient: String,
    pub status: TransferStatus,
    pub bytes_transferred: u64,
    pub created_at: i64,
    pub completed_at: Option<i64>,
    pub chunk_size: u32,
    pub total_chunks: u32,
}

/// A piece of a file.
#[derive(Debug, Clone)]
pub struct FileChunk {
    pub file_id: String,
    pub chunk_index: u32,
    pub data: Vec<u8>,
    pub checksum: String,
}

/// A file offered to a peer.
#[derive(Debug, Clone)]
pub struct FileOffer {
    pub file_id: String,
    pub file_name: String,
    pub file_size: u64,
    pub sha3sum: String,
    pub mime_type: String,
    pub sender: String,
    pub conversation_id: String,
}

/// Chunk size of new transfers (64 KiB).
pub const CHUNK_SIZE: u32 = 65536;

/// How many chunks a file of `size` bytes takes, at most `u32::MAX`.
pub open spec fn spec_chunk_count(size: u64, chunk: u32) -> u32 {
    let n = (size + chunk - 1) / (chunk as int);
    if n > u32::MAX { u32::MAX } else { n as u32 }
}

/// How many chunks a file of `size` bytes takes in chunks of `chunk` bytes
/// (rounded up, at most `u32::MAX`).
pub fn chunk_count(size: u64, chunk: u32) -> (r: u32)
    requires
        chunk > 0,
    ensures
        r == spec_chunk_count(size, chunk),
{
    let c = chunk as u64;
    let q: u64 = size / c;
    let n: u64 = if size % c == 0 {
        q
    } else {
        assert(q < 0xffff_ffff_ffff_ffffu64) by (nonlinear_arith)
            requires
                q == size / c,
                size % c != 0,
                c > 0,
        ;
        q + 1
    };
    assert(n == (size + chunk - 1) / (chunk as int)) by (nonlinear_arith)
        requires
            c == chunk,
            c > 0,
            q == size / c,
            n == q + if size % c == 0 { 0int } else { 1int },
    ;
    if n > 0xffff_ffff { 0xffff_ffff } else { n as u32 }
}

/// The lowercase hexadecimal SHA3-256 digest of a file's contents.
pub fn file_digest_hex(content: &[u8]) -> (r: String)
    ensures
        r@ == primitives::hex_lower(primitives::sha3_256_digest(content@)),
{
    let d = primitives::sha3_256(content);
    primitives::hex_encode(d.as_slice())
}

/// An offer of a file, under a fresh random id, from the local side.
pub fn make_offer(conversation_id: String, file_name: String, file_size: u64, sha3sum: String, mime_type: String) -> (r: FileOffer)
    ensures
        r.file_name == file_name,
        r.file_size == file_size,
        r.sha3sum == sha3sum,
        r.mime_type == mime_type,
        r.sender@ == seq!['l', 'o', 'c', 'a', 'l'],
        r.conversation_id == conversation_id,
{
    proof { reveal_strlit("local"); }
    assert("local"@ =~= seq!['l', 'o', 'c', 'a', 'l']);
    FileOffer {
        file_id: primitives::uuid_v4(),
        file_name,
        file_size,
        sha3sum,
        mime_type,
        sender: "local".to_string(),
        conversation_id,
    }
}

/// The first transfer with id `id`, or -1.
pub open spec fn transfer_pos(ts: Seq<FileTransfer>, id: Seq<char>) -> int
    decreases ts.len(),
{
    if ts.len() == 0 {
        -1
    } else if ts.last().id@ == id {
        let earlier = transfer_pos(ts.drop_last(), id);
        if earlier >= 0 { earlier } else { ts.len() - 1 }
    } else {
        transfer_pos(ts.drop_last(), id)
    }
}

pub proof fn lemma_transfer_pos(ts: Seq<FileTransfer>, id: Seq<char>)
    ensures
        -1 <= transfer_pos(ts, id) < ts.len(),
        transfer_pos(ts, id) >= 0 ==> ts[transfer_pos(ts, id)].id@ == id,
        transfer_pos(ts, id) >= 0 ==> forall|j: int| 0 <= j < transfer_pos(ts, id) ==> ts[j].id@ != id,
        transfer_pos(ts, id) == -1 ==> forall|j: int| 0 <= j < ts.len() ==> ts[j].id@ != id,
    decreases ts.len(),
{
    if ts.len() > 0 {
        lemma_transfer_pos(ts.drop_last(), id);
        assert forall|j: int| 0 <= j < ts.len() - 1 implies ts.drop_last()[j] == ts[j] by {}
    }
}

/// The transfers a node runs.
pub struct FileTransferManager {
    transfers: Vec<FileTransfer>,
    chunk_size: u32,
}

impl FileTransferManager {
    /// The transfers, in the order they were first stored.
    pub closed spec fn spec_transfers(&self) -> Seq<FileTransfer> {
        self.transfers@
    }

    /// The size of the chunks the manager cuts files into.
    pub closed spec fn spec_chunk_size(&self) -> u32 {
        self.chunk_size
    }

    /// A manager without transfers, using 64 KiB chunks.
    pub fn new() -> (r: Self)
        ensures
            r.spec_transfers() == Seq::<FileTransfer>::empty(),
            r.spec_chunk_size() == CHUNK_SIZE,
    {
        FileTransferManager { transfers: Vec::new(), chunk_size: CHUNK_SIZE }
    }

    fn find(&self, id: &str) -> (r: Option<usize>)
        ensures
            match r {
                None => transfer_pos(self.transfers@, id@) == -1,
                Some(i) => i == transfer_pos(self.transfers@, id@) && i < self.transfers@.len(),
            },
    {
        proof { lemma_transfer_pos(self.transfers@, id@); }
        let mut i: usize = 0;
        while i < self.transfers.len()
            invariant
                i <= self.transfers@.len(),
                forall|j: int| 0 <= j < i ==> self.transfers@[j].id@ != id@,
                -1 <= transfer_pos(self.transfers@, id@) < self.transfers@.len(),
                transfer_pos(self.transfers@, id@) >= 0 ==> self.transfers@[transfer_pos(self.transfers@, id@)].id@ == id@,
                transfer_pos(self.transfers@, id@) >= 0 ==> forall|j: int| 0 <= j < transfer_pos(self.transfers@, id@) ==> self.transfers@[j].id@ != id@,
                transfer_pos(self.transfers@, id@) == -1 ==> forall|j: int| 0 <= j < self.transfers@.len() ==> self.transfers@[j].id@ != id@,
            decreases self.transfers@.len() - i,
        {
            if primitives::str_eq(self.transfers[i].id.as_str(), id) {
                return Some(i);
            }
            i = i + 1;
        }
        None
    }

    /// Accept an offer at time `now`: a transfer under a fresh random id,
    /// in progress, from the offer's sender to the local side, with nothing
    /// transferred yet. Its id is returned.
    pub fn accept_file(&mut self, offer: FileOffer, now: i64) -> (r: String)
        ensures
            ({
                let i = transfer_pos(old(self).spec_transfers(), r@);
                let t = final(self).spec_transfers()[if i >= 0 { i } else { old(self).spec_transfers().len() as int }];
                &&& final(self).spec_transfers().len() == (if i >= 0 { old(self).spec_transfers().len() as int } else { old(self).spec_transfers().len() + 1int })
                &&& forall|j: int| 0 <= j < old(self).spec_transfers().len() && j != i ==> final(self).spec_transfers()[j] == old(self).spec_transfers()[j]
                &&& t.id@ == r@
                &&& t.conversation_id == offer.conversation_id
                &&& t.file_id == offer.file_id
                &&& t.file_name == offer.file_name
                &&& t.file_size == offer.file_size
                &&& t.sha3sum == offer.sha3sum
                &&& t.mime_type == offer.mime_type
                &&& t.sender == offer.sender
                &&& t.recipient@ == seq!['l', 'o', 'c', 'a', 'l']
                &&& t.status == TransferStatus::InProgress
                &&& t.bytes_transferred == 0
                &&& t.created_at == now
                &&& t.completed_at is None
                &&& t.chunk_size == CHUNK_SIZE
                &&& t.total_chunks == spec_chunk_count(offer.file_size, CHUNK_SIZE)
            }),
    {
        proof { reveal_strlit("local"); }
        assert("local"@ =~= seq!['l', 'o', 'c', 'a', 'l']);
        let id = primitives::uuid_v4();
        let out = text::copy_string(&id);
        let total = chunk_count(offer.file_size, CHUNK_SIZE);
        let t = FileTransfer {
            id,
            conversation_id: offer.conversation_id,
            file_id: offer.file_id,
            file_name: offer.file_name,
            file_size: offer.file_size,
            sha3sum: offer.sha3sum,
            mime_type: offer.mime_type,
            sender: offer.sender,
            recipient: "local".to_string(),
            status: TransferStatus::InProgress,
            bytes_transferred: 0,
            created_at: now,
            completed_at: None,
            chunk_size: CHUNK_SIZE,
            total_chunks: total,
        };
        match self.find(out.as_str()) {
            Some(i) => {
                let mut t = t;
                self.transfers.set_and_swap(i, &mut t);
            },
            None => {
                self.transfers.push(t);
            },
        }
        out
    }

    /// Count a received chunk of transfer `transfer_id` at time `now`; the
    /// transfer completes once all its bytes have arrived. Unknown ids are
    /// ignored.
    pub fn send_chunk(&mut self, transfer_id: &str, chunk: &FileChunk, now: i64)
        requires
            ({
                let i = transfer_pos(old(self).spec_transfers(), transfer_id@);
                i >= 0 ==> old(self).spec_transfers()[i].bytes_transferred + chunk.data@.len() <= u64::MAX
            }),
        ensures
            ({
                let i = transfer_pos(old(self).spec_transfers(), transfer_id@);
                if i < 0 {
                    final(self).spec_transfers() == old(self).spec_transfers()
                } else {
                    let t = old(self).spec_transfers()[i];
                    let b = (t.bytes_transferred + chunk.data@.len()) as u64;
                    final(self).spec_transfers() == old(self).spec_transfers().update(i, if b >= t.file_size {
                        FileTransfer { bytes_transferred: b, status: TransferStatus::Completed, completed_at: Some(now), ..t }
                    } else {
                        FileTransfer { bytes_transferred: b, ..t }
                    })
                }
            }),
    {
        let i = match self.find(transfer_id) {
            None => return,
            Some(i) => i,
        };
        let mut t = placeholder();
        self.transfers.set_and_swap(i, &mut t);
        t.bytes_transferred = t.bytes_transferred + chunk.data.len() as u64;
        if t.bytes_transferred >= t.file_size {
            t.status = TransferStatus::Completed;
            t.completed_at = Some(now);
        }
        self.transfers.set_and_swap(i, &mut t);
    }

    fn set_status(&mut self, transfer_id: &str, status: TransferStatus, only_if_paused: bool)
        ensures
            ({
                let i = transfer_pos(old(self).spec_transfers(), transfer_id@);
                if i < 0 || (only_if_paused && old(self).spec_transfers()[i].status != TransferStatus::Paused) {
                    final(self).spec_transfers() == old(self).spec_transfers()
                } else {
                    final(self).spec_transfers() == old(self).spec_transfers().update(i, FileTransfer { status, ..old(self).spec_transfers()[i] })
                }
            }),
    {
        let i = match self.find(transfer_id) {
            None => return,
            Some(i) => i,
        };
        if only_if_paused && self.transfers[i].status != TransferStatus::Paused {
            return;
        }
        let mut t = placeholder();
        self.transfers.set_and_swap(i, &mut t);
        t.status = status;
        self.transfers.set_and_swap(i, &mut t);
    }

    /// Cancel a transfer (unknown ids are ignored).
    pub fn cancel_transfer(&mut self, transfer_id: &str) -> (r: Result<(), ()>)
        ensures
            r is Ok,
            ({
                let i = transfer_pos(old(self).spec_transfers(), transfer_id@);
                if i < 0 {
                    final(self).spec_transfers() == old(self).spec_transfers()
                } else {
                    final(self).spec_transfers() == old(self).spec_transfers().update(i, FileTransfer { status: TransferStatus::Cancelled, ..old(self).spec_transfers()[i] })
                }
            }),
    {
        self.set_status(transfer_id, TransferStatus::Cancelled, false);
        Ok(())
    }

    /// Pause a transfer (unknown ids are ignored).
    pub fn pause_transfer(&mut self, transfer_id: &str) -> (r: Result<(), ()>)
        ensures
            r is Ok,
            ({
                let i = transfer_pos(old(self).spec_transfers(), transfer_id@);
                if i < 0 {
                    final(self).spec_transfers() == old(self).spec_transfers()
                } else {
                    final(self).spec_transfers() == old(self).spec_transfers().update(i, FileTransfer { status: TransferStatus::Paused, ..old(self).spec_transfers()[i] })
                }
            }),
    {
        self.set_status(transfer_id, TransferStatus::Paused, false);
        Ok(())
    }

    /// Resume a paused transfer; others are unchanged.
    pub fn resume_transfer(&mut self, transfer_id: &str) -> (r: Result<(), ()>)
        ensures
            r is Ok,
            ({
                let i = transfer_pos(old(self).spec_transfers(), transfer_id@);
                if i < 0 || old(self).spec_transfers()[i].status != TransferStatus::Paused {
                    final(self).spec_transfers() == old(self).spec_transfers()
                } else {
                    final(self).spec_transfers() == old(self).spec_transfers().update(i, FileTransfer { status: TransferStatus::InProgress, ..old(self).spec_transfers()[i] })
                }
            }),
    {
        self.set_status(transfer_id, TransferStatus::InProgress, true);
        Ok(())
    }

    /// Bytes received and file size of a transfer, if known.
    pub fn progress(&self, transfer_id: &str) -> (r: Option<(u64, u64)>)
        ensures
            ({
                let i = transfer_pos(self.spec_transfers(), transfer_id@);
                if i < 0 { r is None } else {
                    r == Some((self.spec_transfers()[i].bytes_transferred, self.spec_transfers()[i].file_size))
                }
            }),
    {
        match self.find(transfer_id) {
            None => None,
            Some(i) => Some((self.transfers[i].bytes_transferred, self.transfers[i].file_size)),
        }
    }

    /// A copy of a transfer, if known.
    pub fn get_transfer(&self, transfer_id: &str) -> (r: Option<FileTransfer>)
        ensures
            ({
                let i = transfer_pos(self.spec_transfers(), transfer_id@);
                if i < 0 { r is None } else { r matches Some(t) && same_transfer(t, self.spec_transfers()[i]) }
            }),
    {
        match self.find(transfer_id) {
            None => None,
            Some(i) => Some(copy_transfer(&self.transfers[i])),
        }
    }

    /// Copies of all transfers.
    pub fn list_transfers(&self) -> (r: Vec<FileTransfer>)
        ensures
            r@.len() == self.spec_transfers().len(),
            forall|j: int| 0 <= j < r@.len() ==> same_transfer(#[trigger] r@[j], self.spec_transfers()[j]),
    {
        let mut r: Vec<FileTransfer> = Vec::new();
        let mut i: usize = 0;
        while i < self.transfers.len()
            invariant
                i <= self.transfers@.len(),
                r@.len() == i,
                forall|j: int| 0 <= j < i ==> same_transfer(#[trigger] r@[j], self.transfers@[j]),
            decreases self.transfers@.len() - i,
        {
            r.push(copy_transfer(&self.transfers[i]));
            i = i + 1;
        }
        r
    }
}

/// A blank pending transfer: every text empty, every number zero, never
/// completed.
fn placeholder() -> (t: FileTransfer)
    ensures
        t.id@.len() == 0 && t.conversation_id@.len() == 0 && t.file_id@.len() == 0 && t.file_name@.len() == 0,
        t.sha3sum@.len() == 0 && t.mime_type@.len() == 0 && t.sender@.len() == 0 && t.recipient@.len() == 0,
        t.file_size == 0 && t.bytes_transferred == 0 && t.created_at == 0 && t.chunk_size == 0 && t.total_chunks == 0,
        t.status == TransferStatus::Pending,
        t.completed_at is None,
{
    FileTransfer {
        id: String::new(), conversation_id: String::new(), file_id: String::new(), file_name: String::new(),
        file_size: 0, sha3sum: String::new(), mime_type: String::new(), sender: String::new(), recipient: String::new(),
        status: TransferStatus::Pending, bytes_transferred: 0, created_at: 0, completed_at: None, chunk_size: 0, total_chunks: 0,
    }
}

/// Whether two transfers hold the same values.
pub open spec fn same_transfer(a: FileTransfer, b: FileTransfer) -> bool {
    &&& a.id@ == b.id@ && a.conversation_id@ == b.conversation_id@ && a.file_id@ == b.file_id@
    &&& a.file_name@ == b.file_name@ && a.file_size == b.file_size && a.sha3sum@ == b.sha3sum@
    &&& a.mime_type@ == b.mime_type@ && a.sender@ == b.sender@ && a.recipient@ == b.recipient@
    &&& a.status == b.status && a.bytes_transferred == b.bytes_transferred && a.created_at == b.created_at
    &&& a.completed_at == b.completed_at && a.chunk_size == b.chunk_size && a.total_chunks == b.total_chunks
}

/// A copy of a transfer.
pub fn copy_transfer(t: &FileTransfer) -> (r: FileTransfer)
    ensures
        same_transfer(r, *t),
{
    FileTransfer {
        id: text::copy_string(&t.id),
        conversation_id: text::copy_string(&t.conversation_id),
        file_id: text::copy_string(&t.file_id),
        file_name: text::copy_string(&t.file_name),
        file_size: t.file_size,
        sha3sum: text::copy_string(&t.sha3sum),
        mime_type: text::copy_string(&t.mime_type),
        sender: text::copy_string(&t.sender),
        recipient: text::copy_string(&t.recipient),
        status: t.status,
        bytes_transferred: t.bytes_transferred,
        created_at: t.created_at,
        completed_at: t.completed_at,
        chunk_size: t.chunk_size,
        total_chunks: t.total_chunks,
    }
}

} // verus!
