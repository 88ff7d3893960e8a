//! The messages that the monitor sends, as plain data.

use vstd::prelude::*;
use vstd::string::*;

verus! {

/// One block device of the guest.
#[derive(Debug, Clone, Default)]
pub struct Block {
    pub device: String,
    pub inserted: Option<Drive>,
    pub io_status: Option<String>,
    pub locked: Option<bool>,
    pub qdev: Option<String>,
    pub removable: Option<bool>,
    pub typ: Option<String>,
}

/// The medium inserted in a block device.
#[derive(Debug, Clone, Default)]
pub struct Drive {
    pub backing_file: Option<String>,
    pub backing_file_depth: Option<usize>,
    pub bps: Option<usize>,
    pub bps_rd: Option<usize>,
    pub bps_wr: Option<usize>,
    pub cache: Option<Cache>,
    pub detect_zeroes: Option<String>,
    pub drv: Option<String>,
    pub encrypted: Option<bool>,
    pub file: Option<String>,
    pub image: Option<Image>,
    pub iops: Option<usize>,
    pub iops_rd: Option<usize>,
    pub iops_wr: Option<usize>,
    pub node_name: Option<String>,
    pub ro: Option<bool>,
    pub write_threshold: Option<usize>,
}

/// The image file behind a medium.
#[derive(Debug, Clone, Default)]
pub struct Image {
    pub actual_size: Option<usize>,
    pub backing_image: Option<BackingImage>,
    pub cluster_size: Option<usize>,
    pub dirty_flag: Option<bool>,
    pub filename: Option<String>,
    pub format: Option<String>,
    pub format_specific: Option<Format>,
    pub snapshots: Option<Snapshots>,
    pub virtual_size: Option<usize>,
}

/// The image that another image is layered on.
#[derive(Debug, Clone, Default)]
pub struct BackingImage {
    pub actual_size: Option<usize>,
    pub cluster_size: Option<usize>,
    pub dirty_flag: Option<bool>,
    pub filename: Option<String>,
    pub format: Option<String>,
    pub format_specific: Option<Format>,
    pub virtual_size: Option<usize>,
}

/// What is particular to the format of an image.
#[derive(Debug, Clone, Default)]
pub struct Format {
    pub data: Option<FormatData>,
    pub typ: Option<String>,
}

/// The properties of an image in the emulator's own format.
#[derive(Debug, Clone, Default)]
pub struct FormatData {
    pub compat: Option<String>,
    pub compression_type: Option<String>,
    pub corrupt: Option<bool>,
    pub extended_l2: Option<bool>,
    pub lazy_refcounts: Option<bool>,
    pub refcount_bits: Option<usize>,
}

/// The snapshots kept in an image.
#[derive(Debug, Clone, Default)]
pub struct Snapshots(pub Vec<Snapshot>);

/// One snapshot kept in an image.
#[derive(Debug, Clone, Default)]
pub struct Snapshot {
    pub date_nsec: Option<usize>,
    pub date_sec: Option<usize>,
    pub id: Option<String>,
    pub name: Option<String>,
    pub vm_clock_nsec: Option<usize>,
    pub vm_clock_sec: Option<usize>,
    pub vm_state_size: Option<usize>,
}

/// How a medium is cached.
#[derive(Debug, Clone, Default)]
pub struct Cache {
    pub direct: Option<bool>,
    pub no_flush: Option<bool>,
    pub writeback: Option<bool>,
}

/// An answer that carries nothing but success or an error.
#[derive(Debug, Clone, Default)]
pub struct GenericReturn {
    /// Whether the answer holds the key of a successful return.
    pub result: Option<()>,
    pub error: Option<ErrorDetail>,
}

/// The answer to a query for the block devices.
#[derive(Debug, Clone, Default)]
pub struct QueryBlock {
    pub result: Vec<Block>,
}

/// The answer to a query for the jobs.
#[derive(Debug, Clone, Default)]
pub struct QueryJobs {
    pub result: Vec<JobInfo>,
}

/// The state of one job.
#[derive(Debug, Clone, Default)]
pub struct JobInfo {
    pub id: String,
    pub typ: String,
    pub status: String,
    pub current_progress: u64,
    pub total_progress: u64,
    pub error: Option<String>,
}

/// A message that the monitor sends of its own accord.
#[derive(Debug, Clone, Default)]
pub struct Event {
    pub timestamp: Option<Timestamp>,
    pub event: String,
    pub data: Option<EventData>,
}

/// When an event happened.
#[derive(Debug, Clone, Default)]
pub struct Timestamp {
    pub seconds: u64,
    pub microseconds: u64,
}

/// What an event says of a job.
#[derive(Debug, Clone, Default)]
pub struct EventData {
    pub status: String,
    pub id: String,
}

/// An answer that reports a failed command.
#[derive(Debug, Clone, Default)]
pub struct ErrorReturn {
    pub error: ErrorDetail,
}

/// The class and the description of a failure.
#[derive(Debug, Clone, Default)]
pub struct ErrorDetail {
    pub class: String,
    pub desc: String,
}

/// How a failure reads: its class, a colon and a space, its description.
pub open spec fn error_text(class: Seq<char>, desc: Seq<char>) -> Seq<char> {
    class + ": "@ + desc
}

impl ErrorDetail {
    /// The failure as one line of text.
    pub fn message(&self) -> (text: String)
        ensures
            text@ == error_text(self.class@, self.desc@),
    {
        let mut text = self.class.clone();
        text.append(": ");
        text.append(self.desc.as_str());
        text
    }
}

impl ErrorReturn {
    /// The failure as one line of text.
    pub fn message(&self) -> (text: String)
        ensures
            text@ == error_text(self.error.class@, self.error.desc@),
    {
        self.error.message()
    }
}

impl GenericReturn {
    /// The failure that the answer reports, if it reports one.
    pub fn failure(&self) -> (out: Option<String>)
        ensures
            match self.error {
                Some(e) => out is Some && out->0@ == error_text(e.class@, e.desc@),
                None => out is None,
            },
    {
        match &self.error {
            Some(e) => Some(e.message()),
            None => None,
        }
    }
}

/// The name of the node inserted in a block device, if it has one.
pub open spec fn node_name(block: Block) -> Option<Seq<char>> {
    match block.inserted {
        Some(drive) => match drive.node_name {
            Some(name) => Some(name@),
            None => None,
        },
        None => None,
    }
}

/// The names of the nodes inserted in `blocks`, in their order.
pub open spec fn node_names(blocks: Seq<Block>) -> Seq<Seq<char>>
    decreases blocks.len(),
{
    if blocks.len() == 0 {
        Seq::<Seq<char>>::empty()
    } else {
        match node_name(blocks.last()) {
            Some(name) => node_names(blocks.drop_last()).push(name),
            None => node_names(blocks.drop_last()),
        }
    }
}

impl QueryBlock {
    /// The names of the nodes of the guest's disks, in the order of the devices.
    pub fn disk_nodes(&self) -> (out: Vec<String>)
        ensures
            crate::text::texts(out@) == node_names(self.result@),
    {
        let mut disks: Vec<String> = Vec::new();
        let mut i: usize = 0;
        proof {
            assert(self.result@.take(0) =~= Seq::<Block>::empty());
            assert(crate::text::texts(disks@) =~= Seq::<Seq<char>>::empty());
        }
        while i < self.result.len()
            invariant
                i <= self.result.len(),
                crate::text::texts(disks@) == node_names(self.result@.take(i as int)),
            decreases self.result.len() - i,
        {
            proof {
                let next = self.result@.take(i + 1);
                assert(next.drop_last() == self.result@.take(i as int));
                assert(next.last() == self.result@[i as int]);
            }
            match &self.result[i].inserted {
                Some(inserted) => match &inserted.node_name {
                    Some(name) => {
                        crate::text::push_text(&mut disks, name.clone());
                    },
                    None => {},
                },
                None => {},
            }
            i = i + 1;
        }
        assert(self.result@.take(i as int) == self.result@);
        disks
    }
}

} // verus!
