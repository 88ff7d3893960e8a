//! The decisions of a client session with the monitor: what a command reads
//! on the wire, what to make of each message that comes back, and how a
//! long-running job is followed to its end.

use super::json::{
    array_layout, array_value, json_string, json_text, json_value, lemma_first_char_orders,
    object_layout, object_value, parse_value, print_value, string_value, value_texts,
};
use super::messages::{error_text, ErrorDetail, GenericReturn, JobInfo};
use crate::text::{same_text, texts};
use vstd::prelude::*;
use vstd::string::*;

verus! {

/// The time between two questions about a job, in microseconds.
pub const JOB_POLL_INTERVAL: u64 = 200;

/// The job id under which snapshot commands run.
pub const SNAPSHOT_JOB: &'static str = "snapshot";

/// The snapshot tag that holds the saved state of a suspended machine.
pub const DEFAULT_SNAPSHOT_TAG: &'static str = "[EMU-Suspend]";

/// A command as it is written to the monitor, from the JSON texts of its
/// name and of its arguments: an object with the arguments, where there are
/// any, and the name to execute.
pub open spec fn request(name: Seq<char>, arguments: Option<Seq<char>>) -> Seq<char> {
    match arguments {
        Some(arguments) => object_layout(seq!["arguments"@, "execute"@], seq![arguments, name]),
        None => object_layout(seq!["execute"@], seq![name]),
    }
}

/// The command with the name `name` and the arguments `arguments`.
fn request_value(name: serde_json::Value, arguments: Option<serde_json::Value>) -> (out:
    serde_json::Value)
    ensures
        json_text(out) == request(
            json_text(name),
            match arguments {
                Some(a) => Some(json_text(a)),
                None => None,
            },
        ),
{
    let mut keys: Vec<String> = Vec::new();
    let mut values: Vec<serde_json::Value> = Vec::new();
    match arguments {
        Some(a) => {
            keys.push(String::from_str("arguments"));
            values.push(a);
        },
        None => {},
    }
    keys.push(String::from_str("execute"));
    values.push(name);
    proof {
        reveal_strlit("arguments");
        reveal_strlit("execute");
        lemma_first_char_orders("arguments"@, "execute"@);
        if arguments is Some {
            assert(texts(keys@) =~= seq!["arguments"@, "execute"@]);
            assert(value_texts(values@) =~= seq![json_text(arguments->0), json_text(name)]);
        } else {
            assert(texts(keys@) =~= seq!["execute"@]);
            assert(value_texts(values@) =~= seq![json_text(name)]);
        }
    }
    object_value(keys, values)
}

/// The command `execute` as it is written to the monitor; `arguments` is the
/// JSON text of its arguments as the user gave it. Text that is no JSON is
/// refused with the parser's complaint.
pub fn command_text(execute: &str, arguments: Option<&str>) -> (out: Result<String, String>)
    ensures
        match arguments {
            Some(a) => match json_value(a@) {
                Some(v) => out is Ok && out->Ok_0@ == request(
                    json_string(execute@),
                    Some(json_text(v)),
                ),
                None => out is Err,
            },
            None => out is Ok && out->Ok_0@ == request(json_string(execute@), None),
        },
{
    let name = string_value(execute);
    match arguments {
        Some(a) => match parse_value(a) {
            Ok(v) => Ok(print_value(&request_value(name, Some(v)))),
            Err(e) => Err(e),
        },
        None => Ok(print_value(&request_value(name, None))),
    }
}

/// The texts that are printed for the strings `items`.
pub open spec fn json_strings(items: Seq<Seq<char>>) -> Seq<Seq<char>> {
    items.map_values(|s: Seq<char>| json_string(s))
}

/// The arguments of a snapshot command: the nodes to cover, the job id, the
/// tag, and the node that holds the machine state where one is named.
pub open spec fn snapshot_arguments(
    tag: Seq<char>,
    vmstate: Option<Seq<char>>,
    devices: Seq<Seq<char>>,
) -> Seq<char> {
    let list = array_layout(json_strings(devices));
    match vmstate {
        Some(node) => object_layout(
            seq!["devices"@, "job-id"@, "tag"@, "vmstate"@],
            seq![list, json_string("snapshot"@), json_string(tag), json_string(node)],
        ),
        None => object_layout(
            seq!["devices"@, "job-id"@, "tag"@],
            seq![list, json_string("snapshot"@), json_string(tag)],
        ),
    }
}

/// Which snapshot command is meant.
#[derive(Debug, Clone, Copy, PartialEq, Eq, Structural)]
pub enum SnapshotCommand {
    Save,
    Load,
    Delete,
}

impl SnapshotCommand {
    /// The name of the command on the wire.
    pub open spec fn name_text(self) -> Seq<char> {
        match self {
            SnapshotCommand::Save => "snapshot-save"@,
            SnapshotCommand::Load => "snapshot-load"@,
            SnapshotCommand::Delete => "snapshot-delete"@,
        }
    }

    /// Whether the command names the node that holds the machine state.
    pub open spec fn names_vmstate(self) -> bool {
        self != SnapshotCommand::Delete
    }

    /// The name of the command on the wire.
    pub fn name(&self) -> (out: &'static str)
        ensures
            out@ == self.name_text(),
    {
        match self {
            SnapshotCommand::Save => "snapshot-save",
            SnapshotCommand::Load => "snapshot-load",
            SnapshotCommand::Delete => "snapshot-delete",
        }
    }
}

/// The snapshot command that works on the snapshot `tag` of the disks
/// `disks`, as it would be written to the monitor.
pub open spec fn snapshot_request(
    command: SnapshotCommand,
    tag: Seq<char>,
    disks: Seq<Seq<char>>,
) -> Seq<char> {
    request(
        json_string(command.name_text()),
        Some(
            snapshot_arguments(
                tag,
                if command.names_vmstate() {
                    Some(disks[0])
                } else {
                    None
                },
                disks,
            ),
        ),
    )
}

/// The strings `items` as values, in their order.
fn string_values(items: &Vec<String>) -> (out: Vec<serde_json::Value>)
    ensures
        value_texts(out@) == json_strings(texts(items@)),
{
    let mut out: Vec<serde_json::Value> = Vec::new();
    let mut i: usize = 0;
    while i < items.len()
        invariant
            i <= items.len(),
            out@.len() == i,
            forall|j: int| 0 <= j < i ==> json_text(#[trigger] out@[j]) == json_string(items@[j]@),
        decreases items.len() - i,
    {
        out.push(string_value(items[i].as_str()));
        i = i + 1;
    }
    assert(value_texts(out@) =~= json_strings(texts(items@)));
    out
}

/// Writes the snapshot command `command` for the snapshot `tag`. The first
/// of `disks` holds the machine state, so saving and loading need a disk;
/// without one there is nothing to write.
pub fn snapshot_text(command: SnapshotCommand, tag: &str, disks: &Vec<String>) -> (out: Option<
    String,
>)
    ensures
        out is Some <==> (disks.len() > 0 || !command.names_vmstate()),
        out is Some ==> out->0@ == snapshot_request(command, tag@, texts(disks@)),
{
    let vmstate = match command {
        SnapshotCommand::Delete => false,
        _ => true,
    };
    if vmstate && disks.len() == 0 {
        return None;
    }
    let list = array_value(string_values(disks));
    let mut keys: Vec<String> = Vec::new();
    let mut values: Vec<serde_json::Value> = Vec::new();
    keys.push(String::from_str("devices"));
    values.push(list);
    keys.push(String::from_str("job-id"));
    values.push(string_value(SNAPSHOT_JOB));
    keys.push(String::from_str("tag"));
    values.push(string_value(tag));
    if vmstate {
        keys.push(String::from_str("vmstate"));
        values.push(string_value(disks[0].as_str()));
    }
    proof {
        reveal_strlit("devices");
        reveal_strlit("job-id");
        reveal_strlit("tag");
        reveal_strlit("vmstate");
        lemma_first_char_orders("devices"@, "job-id"@);
        lemma_first_char_orders("devices"@, "tag"@);
        lemma_first_char_orders("devices"@, "vmstate"@);
        lemma_first_char_orders("job-id"@, "tag"@);
        lemma_first_char_orders("job-id"@, "vmstate"@);
        lemma_first_char_orders("tag"@, "vmstate"@);
        let first = array_layout(json_strings(texts(disks@)));
        if vmstate {
            assert(texts(keys@) =~= seq!["devices"@, "job-id"@, "tag"@, "vmstate"@]);
            assert(value_texts(values@) =~= seq![
                first,
                json_string("snapshot"@),
                json_string(tag@),
                json_string(disks@[0]@),
            ]);
            assert(texts(disks@)[0] == disks@[0]@);
        } else {
            assert(texts(keys@) =~= seq!["devices"@, "job-id"@, "tag"@]);
            assert(value_texts(values@) =~= seq![first, json_string("snapshot"@), json_string(tag@)]);
        }
    }
    let arguments = object_value(keys, values);
    let name = string_value(command.name());
    Some(print_value(&request_value(name, Some(arguments))))
}

/// What the client could read a message as.
#[derive(Debug, Clone)]
pub struct Reply {
    /// The message has the shape of an event.
    pub event: bool,
    /// The failure in the message, where it has the shape of a failed command.
    pub error: Option<ErrorDetail>,
    /// The message has the shape that the caller asked for.
    pub expected: bool,
    /// The message read as an answer without a payload, where it can be.
    pub generic: Option<GenericReturn>,
}

/// What the client does with a message.
#[derive(Debug, Clone, PartialEq, Eq)]
pub enum Verdict {
    /// An event: drop it and read on.
    Discard,
    /// The command failed, with this text.
    Fail(String),
    /// Hand the caller the answer in the shape it asked for.
    Deliver,
    /// The command succeeded without a payload: hand the caller the default.
    Promote,
    /// The message has no known shape: the caller gets the parse error.
    Malformed,
}

/// What a `Verdict` holds, as plain values.
pub enum VerdictView {
    Discard,
    Fail(Seq<char>),
    Deliver,
    Promote,
    Malformed,
}

impl View for Verdict {
    type V = VerdictView;

    open spec fn view(&self) -> VerdictView {
        match self {
            Verdict::Discard => VerdictView::Discard,
            Verdict::Fail(text) => VerdictView::Fail(text@),
            Verdict::Deliver => VerdictView::Deliver,
            Verdict::Promote => VerdictView::Promote,
            Verdict::Malformed => VerdictView::Malformed,
        }
    }
}

/// The verdict on a message, by the shapes it has, in this order: an event
/// is dropped; a failed command fails; the shape asked for is delivered; an
/// answer without payload succeeds or fails by what it holds; anything else
/// is malformed.
pub open spec fn verdict(reply: Reply) -> VerdictView {
    if reply.event {
        VerdictView::Discard
    } else if reply.error is Some {
        VerdictView::Fail(error_text(reply.error->0.class@, reply.error->0.desc@))
    } else if reply.expected {
        VerdictView::Deliver
    } else if reply.generic is Some {
        match reply.generic->0.error {
            Some(e) => VerdictView::Fail(error_text(e.class@, e.desc@)),
            None => VerdictView::Promote,
        }
    } else {
        VerdictView::Malformed
    }
}

/// Decides what to do with one message.
pub fn judge(reply: &Reply) -> (out: Verdict)
    ensures
        out@ == verdict(*reply),
{
    if reply.event {
        return Verdict::Discard;
    }
    match &reply.error {
        Some(e) => {
            return Verdict::Fail(e.message());
        },
        None => {},
    }
    if reply.expected {
        return Verdict::Deliver;
    }
    match &reply.generic {
        Some(g) => match g.failure() {
            Some(text) => Verdict::Fail(text),
            None => Verdict::Promote,
        },
        None => Verdict::Malformed,
    }
}

/// What one command comes to when the monitor sends `replies` in this
/// order: the position and the verdict of the first message that is not
/// dropped; nothing while only events have come.
pub open spec fn outcome(replies: Seq<Reply>) -> Option<(int, VerdictView)>
    decreases replies.len(),
{
    if replies.len() == 0 {
        None
    } else if verdict(replies[0]) != VerdictView::Discard {
        Some((0, verdict(replies[0])))
    } else {
        match outcome(replies.drop_first()) {
            Some((at, v)) => Some((at + 1, v)),
            None => None,
        }
    }
}

/// Reads through `replies` as one command does: drops the events and stops
/// at the first message that settles the command.
pub fn settle(replies: &Vec<Reply>) -> (out: Option<(usize, Verdict)>)
    ensures
        match out {
            Some((at, v)) => outcome(replies@) == Some((at as int, v@)),
            None => outcome(replies@) is None,
        },
{
    let mut i: usize = 0;
    assert(replies@.skip(0) == replies@);
    while i < replies.len()
        invariant
            i <= replies.len(),
            outcome(replies@) == match outcome(replies@.skip(i as int)) {
                Some((at, v)) => Some((at + i, v)),
                None => None,
            },
        decreases replies.len() - i,
    {
        let v = judge(&replies[i]);
        proof {
            assert(replies@.skip(i as int)[0] == replies@[i as int]);
            assert(replies@.skip(i as int).drop_first() == replies@.skip(i + 1));
        }
        match v {
            Verdict::Discard => {},
            _ => {
                return Some((i, v));
            },
        }
        i = i + 1;
    }
    None
}

/// An event followed by a successful answer in the shape asked for comes to
/// that answer: the event is passed over.
pub proof fn lemma_event_then_return(replies: Seq<Reply>)
    requires
        replies.len() >= 2,
        replies[0].event,
        !replies[1].event,
        replies[1].error is None,
        replies[1].expected,
    ensures
        outcome(replies) == Some((1int, VerdictView::Deliver)),
{
    let tail = replies.drop_first();
    assert(tail[0] == replies[1]);
    assert(outcome(tail) == Some((0int, VerdictView::Deliver)));
}

/// Events never settle a command, however many come.
pub proof fn lemma_events_are_dropped(replies: Seq<Reply>)
    requires
        forall|i: int| 0 <= i < replies.len() ==> (#[trigger] replies[i]).event,
    ensures
        outcome(replies) is None,
    decreases replies.len(),
{
    if replies.len() > 0 {
        let tail = replies.drop_first();
        assert forall|i: int| 0 <= i < tail.len() implies (#[trigger] tail[i]).event by {
            assert(tail[i] == replies[i + 1]);
        }
        lemma_events_are_dropped(tail);
    }
}

/// The position of the first job called `id`, if there is one.
pub open spec fn job_position(jobs: Seq<JobInfo>, id: Seq<char>) -> Option<int>
    decreases jobs.len(),
{
    if jobs.len() == 0 {
        None
    } else if jobs[0].id@ == id {
        Some(0)
    } else {
        match job_position(jobs.drop_first(), id) {
            Some(at) => Some(at + 1),
            None => None,
        }
    }
}

/// A job in this state has come to its end.
pub open spec fn is_final_status(status: Seq<char>) -> bool {
    status == "concluded"@ || status == "null"@
}

/// What to do next about a job that is being followed.
#[derive(Debug, Clone, Copy, PartialEq, Eq, Structural)]
pub enum JobStep {
    /// The job is not listed or still runs: sleep and ask again.
    Wait,
    /// The job at this position ended well: dismiss it and report success.
    Done(usize),
    /// The job at this position ended with an error: dismiss it and report the error.
    Failed(usize),
}

/// What the state of the jobs means for the job `id`.
pub open spec fn job_verdict(jobs: Seq<JobInfo>, id: Seq<char>) -> JobStep {
    match job_position(jobs, id) {
        Some(at) => if is_final_status(jobs[at].status@) {
            if jobs[at].error is Some {
                JobStep::Failed(at as usize)
            } else {
                JobStep::Done(at as usize)
            }
        } else {
            JobStep::Wait
        },
        None => JobStep::Wait,
    }
}

fn find_job(jobs: &Vec<JobInfo>, id: &str) -> (out: Option<usize>)
    ensures
        match out {
            Some(at) => job_position(jobs@, id@) == Some(at as int) && at < jobs.len(),
            None => job_position(jobs@, id@) is None,
        },
{
    let mut i: usize = 0;
    assert(jobs@.skip(0) == jobs@);
    while i < jobs.len()
        invariant
            i <= jobs.len(),
            job_position(jobs@, id@) == match job_position(jobs@.skip(i as int), id@) {
                Some(at) => Some(at + i),
                None => None,
            },
        decreases jobs.len() - i,
    {
        proof {
            assert(jobs@.skip(i as int)[0] == jobs@[i as int]);
            assert(jobs@.skip(i as int).drop_first() == jobs@.skip(i + 1));
        }
        if same_text(jobs[i].id.as_str(), id) {
            return Some(i);
        }
        i = i + 1;
    }
    None
}

/// Decides from the listed jobs what to do about the job `id`.
pub fn job_step(jobs: &Vec<JobInfo>, id: &str) -> (out: JobStep)
    ensures
        out == job_verdict(jobs@, id@),
{
    match find_job(jobs, id) {
        Some(at) => {
            let status = jobs[at].status.as_str();
            if same_text(status, "concluded") || same_text(status, "null") {
                if jobs[at].error.is_some() {
                    JobStep::Failed(at)
                } else {
                    JobStep::Done(at)
                }
            } else {
                JobStep::Wait
            }
        },
        None => JobStep::Wait,
    }
}

/// Whether the job `id` is still listed, so that it has to be dismissed again.
pub fn job_listed(jobs: &Vec<JobInfo>, id: &str) -> (out: bool)
    ensures
        out == job_position(jobs@, id@) is Some,
{
    find_job(jobs, id).is_some()
}

/// The arguments that dismiss the job `id`: an object that names it.
pub fn dismiss_arguments(id: &str) -> (out: String)
    ensures
        out@ == object_layout(seq!["id"@], seq![json_string(id@)]),
{
    let mut keys: Vec<String> = Vec::new();
    let mut values: Vec<serde_json::Value> = Vec::new();
    keys.push(String::from_str("id"));
    values.push(string_value(id));
    proof {
        assert(texts(keys@) =~= seq!["id"@]);
        assert(value_texts(values@) =~= seq![json_string(id@)]);
    }
    print_value(&object_value(keys, values))
}

/// What a snapshot command comes to: a failure while the job was followed
/// counts before a failure of the command itself.
pub fn job_result(followed: Option<String>, sent: Option<String>) -> (out: Option<String>)
    ensures
        out == (if followed is Some {
            followed
        } else {
            sent
        }),
{
    match followed {
        Some(e) => Some(e),
        None => sent,
    }
}

} // verus!
