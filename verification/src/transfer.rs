//! Transfer-progress accounting.
//!
//! Every logical transfer gets a fresh opaque identifier and publishes
//! `TransferProgress` records to an outside observer. Emission itself is
//! fire-and-forget and lives with the driver; this module decides what
//! each record holds: a "downloading" record after each received chunk
//! when the total is known, and one final "complete" record. The
//! download tracker also accounts the received bytes exactly.

use vstd::prelude::*;
use vstd::string::StringExecFns;

use crate::session::prefixed;

verus! {

/// A progress record published to the observer.
#[derive(Debug, Clone)]
pub struct TransferProgress {
    pub transfer_id: String,
    pub filename: String,
    pub progress: u64,
    pub total: u64,
    pub status: String,
}

/// Relies on `uuid::Uuid::new_v4` and its `Display` form: a fresh
/// random version-4 identifier, rendered as the 36-character
/// hyphenated string. Nothing is promised of its value: it is random.
#[verifier::external_body]
fn fresh_uuid() -> (r: String)
    ensures
        r@.len() == 36,
{
    uuid::Uuid::new_v4().to_string()
}

/// A fresh identifier for one download: `dl-` and a fresh UUID.
pub fn download_transfer_id() -> (r: String)
    ensures
        r@.len() == 39,
        r@.take(3) == "dl-"@,
{
    let u = fresh_uuid();
    let r = prefixed("dl-", u.as_str());
    proof {
        reveal_strlit("dl-");
        assert(r@.take(3) =~= "dl-"@);
    }
    r
}

/// A fresh identifier for one upload: `ul-` and a fresh UUID.
pub fn upload_transfer_id() -> (r: String)
    ensures
        r@.len() == 39,
        r@.take(3) == "ul-"@,
{
    let u = fresh_uuid();
    let r = prefixed("ul-", u.as_str());
    proof {
        reveal_strlit("ul-");
        assert(r@.take(3) =~= "ul-"@);
    }
    r
}

/// The byte contents of a chunk run, in order.
pub open spec fn chunks_bytes(chunks: Seq<Seq<u8>>) -> Seq<u8> {
    chunks.flatten()
}

/// Accounts one download: which transfer, which file, the probed total
/// (zero when unknown), and exactly the chunks received so far.
pub struct DownloadTracker {
    transfer_id: String,
    filename: String,
    total: u64,
    downloaded: u64,
    received: Ghost<Seq<Seq<u8>>>,
}

impl DownloadTracker {
    /// The chunks received so far, in order.
    pub closed spec fn received(&self) -> Seq<Seq<u8>> {
        self.received@
    }

    pub closed spec fn downloaded(&self) -> u64 {
        self.downloaded
    }

    pub closed spec fn total(&self) -> u64 {
        self.total
    }

    pub closed spec fn transfer_id_spec(&self) -> Seq<char> {
        self.transfer_id@
    }

    pub closed spec fn filename_spec(&self) -> Seq<char> {
        self.filename@
    }

    /// The byte counter always equals the length of what was received.
    pub closed spec fn wf(&self) -> bool {
        self.downloaded == chunks_bytes(self.received@).len()
    }

    pub fn new(transfer_id: String, filename: String, total: u64) -> (t: DownloadTracker)
        ensures
            t.wf(),
            t.received() == Seq::<Seq<u8>>::empty(),
            t.downloaded() == 0,
            t.total() == total,
            t.transfer_id_spec() == transfer_id@,
            t.filename_spec() == filename@,
    {
        proof {
            assert(Seq::<Seq<u8>>::empty().flatten() =~= Seq::<u8>::empty());
        }
        DownloadTracker { transfer_id, filename, total, downloaded: 0, received: Ghost(Seq::empty()) }
    }

    /// Account one received chunk. When the total is known a
    /// "downloading" record is due, carrying the bytes so far; when it
    /// is unknown, none is.
    pub fn note_chunk(&mut self, chunk: &[u8]) -> (rec: Option<TransferProgress>)
        requires
            old(self).wf(),
            old(self).downloaded() + chunk@.len() <= u64::MAX,
        ensures
            final(self).wf(),
            final(self).received() == old(self).received().push(chunk@),
            final(self).downloaded() == old(self).downloaded() + chunk@.len(),
            final(self).total() == old(self).total(),
            final(self).transfer_id_spec() == old(self).transfer_id_spec(),
            final(self).filename_spec() == old(self).filename_spec(),
            old(self).total() > 0 ==> (rec matches Some(p) && {
                &&& p.transfer_id@ == old(self).transfer_id_spec()
                &&& p.filename@ == old(self).filename_spec()
                &&& p.progress == old(self).downloaded() + chunk@.len()
                &&& p.total == old(self).total()
                &&& p.status@ == "downloading"@
            }),
            old(self).total() == 0 ==> rec is None,
    {
        proof {
            broadcast use Seq::lemma_flatten_push;

            assert(self.received@.push(chunk@).flatten() =~= self.received@.flatten() + chunk@);
        }
        let n = chunk.len() as u64;
        self.downloaded = self.downloaded + n;
        proof {
            self.received@ = self.received@.push(chunk@);
        }
        if self.total > 0 {
            Some(
                TransferProgress {
                    transfer_id: self.transfer_id.clone(),
                    filename: self.filename.clone(),
                    progress: self.downloaded,
                    total: self.total,
                    status: String::from_str("downloading"),
                },
            )
        } else {
            None
        }
    }

    /// The bytes received so far, for the caller's own bookkeeping.
    pub fn bytes_so_far(&self) -> (n: u64)
        ensures
            n == self.downloaded(),
    {
        self.downloaded
    }

    /// The final record of the download: "complete", carrying exactly
    /// the bytes received.
    pub fn finish(&self) -> (rec: TransferProgress)
        requires
            self.wf(),
        ensures
            rec.transfer_id@ == self.transfer_id_spec(),
            rec.filename@ == self.filename_spec(),
            rec.progress == self.downloaded(),
            rec.progress == chunks_bytes(self.received()).len(),
            rec.total == self.total(),
            rec.status@ == "complete"@,
    {
        TransferProgress {
            transfer_id: self.transfer_id.clone(),
            filename: self.filename.clone(),
            progress: self.downloaded,
            total: self.total,
            status: String::from_str("complete"),
        }
    }
}

/// The one record of an upload: "complete", with the reported progress
/// and total both exactly the payload's byte length.
pub fn upload_final_record(transfer_id: &String, filename: &String, total_size: u64) -> (rec:
    TransferProgress)
    ensures
        rec.transfer_id@ == transfer_id@,
        rec.filename@ == filename@,
        rec.progress == total_size,
        rec.total == total_size,
        rec.status@ == "complete"@,
{
    TransferProgress {
        transfer_id: transfer_id.clone(),
        filename: filename.clone(),
        progress: total_size,
        total: total_size,
        status: String::from_str("complete"),
    }
}

/// Reassemble a downloaded payload from its chunks: exactly their
/// bytes, in order.
pub fn assemble_chunks(chunks: &Vec<Vec<u8>>) -> (r: Vec<u8>)
    ensures
        r@ == chunks_bytes(chunks@.map_values(|c: Vec<u8>| c@)),
{
    let ghost cv = chunks@.map_values(|c: Vec<u8>| c@);
    let mut r: Vec<u8> = Vec::new();
    let mut i: usize = 0;
    proof {
        assert(cv.take(0) =~= Seq::<Seq<u8>>::empty());
        assert(r@ =~= cv.take(0).flatten());
    }
    while i < chunks.len()
        invariant
            0 <= i <= chunks@.len(),
            cv == chunks@.map_values(|c: Vec<u8>| c@),
            cv.len() == chunks@.len(),
            r@ == cv.take(i as int).flatten(),
        decreases chunks@.len() - i,
    {
        r.extend_from_slice(chunks[i].as_slice());
        proof {
            broadcast use Seq::lemma_flatten_push;

            assert(cv.take(i as int).push(cv[i as int]) =~= cv.take(i + 1));
            assert(cv.take(i as int).push(cv[i as int]).flatten() =~= cv.take(i as int).flatten()
                + cv[i as int]);
        }
        i = i + 1;
    }
    proof {
        assert(cv.take(cv.len() as int) =~= cv);
    }
    r
}

/// The round trip of a payload through store and retrieve: the store
/// side hands the buffered payload to the data connection unchanged,
/// so when the remote side later delivers the stored bytes as a
/// chunked stream, the reassembled download is byte-identical to the
/// uploaded payload, and the upload's final record reported exactly
/// its length.
pub proof fn lemma_round_trip(data: Seq<u8>, sent: Seq<u8>, chunks: Seq<Seq<u8>>)
    requires
        sent == data,
        chunks_bytes(chunks) == sent,
    ensures
        chunks_bytes(chunks) == data,
        sent.len() == data.len(),
{
}

} // verus!
