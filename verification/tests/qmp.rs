use emu_cli::qmp::client::{
    command_text, dismiss_arguments, job_listed, job_result, job_step, judge, settle, snapshot_text, JobStep, Reply, SnapshotCommand, Verdict, DEFAULT_SNAPSHOT_TAG,
    SNAPSHOT_JOB,
};
use emu_cli::qmp::frame::FrameReader;
use emu_cli::qmp::messages::{
    Block, Drive, ErrorDetail, ErrorReturn, GenericReturn, JobInfo, QueryBlock,
};

fn strings(items: &[&str]) -> Vec<String> {
    items.iter().map(|s| s.to_string()).collect()
}

fn event() -> Reply {
    Reply { event: true, error: None, expected: false, generic: None }
}

fn answer() -> Reply {
    Reply { event: false, error: None, expected: true, generic: Some(GenericReturn::default()) }
}

fn detail(class: &str, desc: &str) -> ErrorDetail {
    ErrorDetail { class: class.to_string(), desc: desc.to_string() }
}

fn job(id: &str, status: &str, error: Option<&str>) -> JobInfo {
    JobInfo {
        id: id.to_string(),
        typ: "snapshot-save".to_string(),
        status: status.to_string(),
        current_progress: 1,
        total_progress: 1,
        error: error.map(|e| e.to_string()),
    }
}

#[test]
fn reader_returns_the_object_and_keeps_the_rest() {
    let mut reader = FrameReader::new();
    let object = b"{\r\n    \"return\": {\r\n    }\r\n}\r\n".to_vec();
    let trailing = b"{\r\n    \"event\": \"STOP\"".to_vec();
    let mut stream = object.clone();
    stream.extend_from_slice(&trailing);
    reader.feed(&stream);
    assert_eq!(reader.len(), stream.len());
    assert_eq!(reader.next_frame(), Some(object));
    assert_eq!(reader.buffered(), trailing);
    assert_eq!(reader.next_frame(), None);
    assert_eq!(reader.buffered(), trailing);
    reader.feed(&b"\r\n}\r\n".to_vec());
    assert_eq!(reader.next_frame(), Some(b"{\r\n    \"event\": \"STOP\"\r\n}\r\n".to_vec()));
    assert_eq!(reader.len(), 0);
    assert_eq!(reader.next_frame(), None);
}

#[test]
fn reader_waits_for_the_sentinel() {
    let mut reader = FrameReader::new();
    assert_eq!(reader.next_frame(), None);
    for chunk in [&b"{\r\n"[..], &b"  \"a\": {\r\n  }"[..], &b"\r\n}"[..], &b"\r"[..]] {
        reader.feed(&chunk.to_vec());
        assert_eq!(reader.next_frame(), None);
    }
    reader.feed(&b"\n{".to_vec());
    assert_eq!(reader.next_frame(), Some(b"{\r\n  \"a\": {\r\n  }\r\n}\r\n".to_vec()));
    assert_eq!(reader.buffered(), b"{".to_vec());
    let mut two = FrameReader::new();
    two.feed(&b"\r\n}\r\n\r\n}\r\n".to_vec());
    assert_eq!(two.next_frame(), Some(b"\r\n}\r\n".to_vec()));
    assert_eq!(two.next_frame(), Some(b"\r\n}\r\n".to_vec()));
    assert_eq!(two.next_frame(), None);
    let mut bare = FrameReader::new();
    bare.feed(&b"{\n}\n\n".to_vec());
    assert_eq!(bare.next_frame(), None);
}

#[test]
fn verdicts_follow_the_order_of_shapes() {
    assert_eq!(judge(&event()), Verdict::Discard);
    let mut both = event();
    both.error = Some(detail("GenericError", "no"));
    both.expected = true;
    assert_eq!(judge(&both), Verdict::Discard);
    let mut failed = answer();
    failed.error = Some(detail("GenericError", "no such job"));
    assert_eq!(judge(&failed), Verdict::Fail("GenericError: no such job".to_string()));
    assert_eq!(judge(&answer()), Verdict::Deliver);
    let generic = Reply {
        event: false,
        error: None,
        expected: false,
        generic: Some(GenericReturn { result: Some(()), error: None }),
    };
    assert_eq!(judge(&generic), Verdict::Promote);
    let generic_error = Reply {
        event: false,
        error: None,
        expected: false,
        generic: Some(GenericReturn { result: None, error: Some(detail("C", "d")) }),
    };
    assert_eq!(judge(&generic_error), Verdict::Fail("C: d".to_string()));
    let unknown = Reply { event: false, error: None, expected: false, generic: None };
    assert_eq!(judge(&unknown), Verdict::Malformed);
    assert_eq!(ErrorReturn { error: detail("A", "b") }.message(), "A: b");
    assert_eq!(GenericReturn::default().failure(), None);
}

#[test]
fn an_event_before_the_return_is_passed_over() {
    assert_eq!(settle(&vec![event(), answer()]), Some((1, Verdict::Deliver)));
    assert_eq!(settle(&vec![event(), event(), event(), answer()]), Some((3, Verdict::Deliver)));
    assert_eq!(settle(&vec![answer(), event()]), Some((0, Verdict::Deliver)));
    assert_eq!(settle(&vec![event(), event()]), None);
    assert_eq!(settle(&vec![]), None);
    let mut failed = answer();
    failed.error = Some(detail("E", "x"));
    assert_eq!(
        settle(&vec![event(), failed, answer()]),
        Some((1, Verdict::Fail("E: x".to_string())))
    );
}

#[test]
fn commands_on_the_wire() {
    assert_eq!(
        command_text("qmp_capabilities", None),
        Ok("{\"execute\":\"qmp_capabilities\"}".to_string())
    );
    assert_eq!(
        command_text("say \"hi\"\n", None),
        Ok("{\"execute\":\"say \\\"hi\\\"\\n\"}".to_string())
    );
    assert_eq!(
        command_text("job-dismiss", Some(" { \"id\" : \"snapshot\" } ")),
        Ok("{\"arguments\":{\"id\":\"snapshot\"},\"execute\":\"job-dismiss\"}".to_string())
    );
    assert_eq!(
        command_text("x", Some("[1, 2 ,\"a\"]")),
        Ok("{\"arguments\":[1,2,\"a\"],\"execute\":\"x\"}".to_string())
    );
    assert!(command_text("x", Some("{not json")).is_err());
    assert!(command_text("x", Some("")).is_err());
    assert_eq!(dismiss_arguments("snapshot"), "{\"id\":\"snapshot\"}");
    assert_eq!(dismiss_arguments("a\"b"), "{\"id\":\"a\\\"b\"}");
    assert_eq!(
        command_text("job-dismiss", Some(&dismiss_arguments("snapshot"))),
        Ok("{\"arguments\":{\"id\":\"snapshot\"},\"execute\":\"job-dismiss\"}".to_string())
    );
    assert_eq!(SNAPSHOT_JOB, "snapshot");
    assert_eq!(DEFAULT_SNAPSHOT_TAG, "[EMU-Suspend]");
}

#[test]
fn snapshot_commands_on_the_wire() {
    let disks = strings(&["node0", "node\"1"]);
    assert_eq!(
        snapshot_text(SnapshotCommand::Save, "[EMU-Suspend]", &disks).unwrap(),
        "{\"arguments\":{\"devices\":[\"node0\",\"node\\\"1\"],\"job-id\":\"snapshot\",\"tag\":\"[EMU-Suspend]\",\"vmstate\":\"node0\"},\"execute\":\"snapshot-save\"}"
    );
    assert_eq!(
        snapshot_text(SnapshotCommand::Load, "t", &strings(&["n"])).unwrap(),
        "{\"arguments\":{\"devices\":[\"n\"],\"job-id\":\"snapshot\",\"tag\":\"t\",\"vmstate\":\"n\"},\"execute\":\"snapshot-load\"}"
    );
    assert_eq!(
        snapshot_text(SnapshotCommand::Delete, "t", &disks).unwrap(),
        "{\"arguments\":{\"devices\":[\"node0\",\"node\\\"1\"],\"job-id\":\"snapshot\",\"tag\":\"t\"},\"execute\":\"snapshot-delete\"}"
    );
    assert_eq!(
        snapshot_text(SnapshotCommand::Delete, "t", &Vec::new()).unwrap(),
        "{\"arguments\":{\"devices\":[],\"job-id\":\"snapshot\",\"tag\":\"t\"},\"execute\":\"snapshot-delete\"}"
    );
    assert_eq!(snapshot_text(SnapshotCommand::Save, "t", &Vec::new()), None);
    assert_eq!(snapshot_text(SnapshotCommand::Load, "t", &Vec::new()), None);
    for text in [
        snapshot_text(SnapshotCommand::Save, "a\\b", &disks).unwrap(),
        snapshot_text(SnapshotCommand::Delete, "t", &disks).unwrap(),
    ] {
        let value: serde_json::Value = serde_json::from_str(&text).unwrap();
        assert_eq!(value["arguments"]["job-id"], "snapshot");
        assert_eq!(value["arguments"]["devices"][1], "node\"1");
        assert_eq!(value.to_string(), text);
    }
}

#[test]
fn jobs_are_followed_to_their_end() {
    let jobs = vec![
        job("other", "concluded", None),
        job("snapshot", "running", None),
        job("snapshot", "concluded", None),
    ];
    assert_eq!(job_step(&jobs, "snapshot"), JobStep::Wait);
    assert_eq!(job_step(&jobs, "other"), JobStep::Done(0));
    assert_eq!(job_step(&jobs, "absent"), JobStep::Wait);
    assert_eq!(job_step(&vec![], "snapshot"), JobStep::Wait);
    assert_eq!(job_step(&vec![job("snapshot", "null", None)], "snapshot"), JobStep::Done(0));
    assert_eq!(
        job_step(&vec![job("a", "x", None), job("snapshot", "concluded", Some("boom"))], "snapshot"),
        JobStep::Failed(1)
    );
    assert_eq!(job_step(&vec![job("snapshot", "Concluded", None)], "snapshot"), JobStep::Wait);
    assert!(job_listed(&jobs, "snapshot"));
    assert!(job_listed(&jobs, "other"));
    assert!(!job_listed(&jobs, "snap"));
    assert!(!job_listed(&vec![], "snapshot"));
    assert_eq!(job_result(None, None), None);
    assert_eq!(job_result(Some("a".to_string()), Some("b".to_string())), Some("a".to_string()));
    assert_eq!(job_result(None, Some("b".to_string())), Some("b".to_string()));
}

#[test]
fn disk_nodes_are_the_inserted_node_names() {
    let mut with_node = Block::default();
    with_node.device = "virtio0".to_string();
    with_node.inserted = Some(Drive { node_name: Some("#block1".to_string()), ..Drive::default() });
    let mut without_name = Block::default();
    without_name.inserted = Some(Drive::default());
    let empty = Block::default();
    let mut second = Block::default();
    second.inserted = Some(Drive { node_name: Some("#block2".to_string()), ..Drive::default() });
    let query = QueryBlock { result: vec![with_node, without_name, empty, second] };
    assert_eq!(query.disk_nodes(), strings(&["#block1", "#block2"]));
    assert_eq!(QueryBlock::default().disk_nodes(), Vec::<String>::new());
}
