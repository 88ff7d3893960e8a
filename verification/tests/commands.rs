use emu_cli::commands::{
    activity_line, config_copy, config_set, create_plan, descriptions, disk_id, is_active_args,
    is_listed, launch_options, list_entry, list_line, nc_target, port_map, port_unmap, reload_args,
    require_absent, require_existing, run_check, ssh_args,
};
use emu_cli::config::ConfigError;
use emu_cli::error::Error;
use emu_cli::image::{QEmuImageHandler, QEMU_IMG_DEFAULT_FORMAT, QEMU_IMG_PATH};
use emu_cli::supervisor::{
    machine_of_unit, pid_from_text, pid_to_check, status, Activity, NullSupervisorStorage,
    SystemdSupervisorStorage,
};
use emu_cli::template::{Data, Systemd};
use emu_cli::vm::{Supervisors, VM};

fn strings(items: &[&str]) -> Vec<String> {
    items.iter().map(|s| s.to_string()).collect()
}

#[test]
fn test_template() {
    let out = Systemd.template(&VM::new("vm1".to_string()).unwrap(), None).unwrap();
    assert!(out.contains("vm1"));
}

#[test]
fn unit_file_text() {
    let out = Systemd
        .template(&VM::new("vm1".to_string()).unwrap(), Some("/usr/bin/emu".to_string()))
        .unwrap();
    assert_eq!(
        out,
        "
[Unit]
Description=Virtual Machine: vm1

[Service]
Type=simple
ExecStart=/usr/bin/emu run -e vm1
TimeoutStopSec=30
ExecStop=/usr/bin/emu shutdown vm1
KillSignal=SIGCONT
FinalKillSignal=SIGKILL

[Install]
WantedBy=default.target
"
    );
    let marked = Systemd
        .template(&VM::new("a<b>&'c'\"d\"".to_string()).unwrap(), Some("/opt/my emu".to_string()))
        .unwrap();
    assert!(marked.contains("Description=Virtual Machine: a&lt;b&gt;&amp;&#39;c&#39;&quot;d&quot;\n"));
    assert!(marked.contains("ExecStart=/opt/my emu run -e a&lt;b&gt;&amp;&#39;c&#39;&quot;d&quot;\n"));
    assert!(marked.contains("ExecStop=/opt/my emu shutdown a&lt;b&gt;&amp;&#39;c&#39;&quot;d&quot;\n"));
    let braces = Systemd.render(&Data::new("{vm_name}".to_string(), Some("{x".to_string()))).unwrap();
    assert!(braces.contains("ExecStart={x run -e {vm_name}\n"));
    let fallback = Systemd.render(&Data::new("box".to_string(), None)).unwrap();
    assert!(fallback.contains("ExecStart=/bin/emu run -e box\n"));
    assert!(fallback.contains("ExecStop=/bin/emu shutdown box\n"));
}

#[test]
fn listing_lines() {
    assert_eq!(list_line("vm1", "stopped", "0 B"), "vm1 (stopped) (size: 0 B)");
    assert_eq!(list_entry("vm1", "stopped", 0), "vm1 (stopped) (size: 0 B)");
    assert_eq!(list_entry("vm1", "pid: 7", 1500), "vm1 (pid: 7) (size: 1.50 KB)");
    assert_eq!(
        list_entry("vm1", "supervised: running", 10_000_000),
        "vm1 (supervised: running) (size: 10.00 MB)"
    );
    assert!(is_listed(false, false));
    assert!(is_listed(false, true));
    assert!(is_listed(true, true));
    assert!(!is_listed(true, false));
    assert_eq!(activity_line("vm1", true), "vm1 is active");
    assert_eq!(activity_line("vm1", false), "vm1 is not active");
}

#[test]
fn status_of_a_machine() {
    assert_eq!(status(true, &Activity::Active, 0), ("supervised: running".to_string(), true));
    assert_eq!(status(true, &Activity::Inactive, 0), ("supervised: not running".to_string(), false));
    assert_eq!(
        status(true, &Activity::Unknown("no bus".to_string()), 0),
        ("supervised: could not determine status: no bus".to_string(), false)
    );
    assert_eq!(status(false, &Activity::Active, 4242), ("pid: 4242".to_string(), true));
    assert_eq!(status(false, &Activity::Inactive, 4242), ("stopped".to_string(), false));
    assert_eq!(
        status(false, &Activity::Unknown("x".to_string()), 4242),
        ("stopped".to_string(), false)
    );
}

#[test]
fn disk_ids_and_descriptions() {
    assert_eq!(disk_id("qemu-8675309.qcow2"), "8675309");
    assert_eq!(disk_id("qemu-qemu-1.qcow2"), "1");
    assert_eq!(disk_id("other.img"), "other.img");
    assert_eq!(disk_id("qemu-1..qcow2"), "1");
    assert_eq!(
        descriptions(&strings(&["a", "abc", "", "ab"])),
        strings(&["a  ", "abc", "   ", "ab "])
    );
    assert_eq!(descriptions(&Vec::new()), Vec::<String>::new());
    assert_eq!(descriptions(&strings(&["same", "size"])), strings(&["same", "size"]));
}

#[test]
fn plans_of_the_commands() {
    assert_eq!(create_plan(false, false, "vm1"), Ok(true));
    assert_eq!(create_plan(true, true, "vm1"), Ok(false));
    assert_eq!(create_plan(true, false, "../x"), Ok(false));
    assert_eq!(create_plan(false, true, "vm1"), Err(Error::new("vm already exists")));
    assert_eq!(create_plan(false, true, "../x"), Err(Error::new("vm already exists")));
    assert_eq!(
        create_plan(false, false, "../x"),
        Err(Error::new("filename contains invalid characters"))
    );
    assert_eq!(require_existing(true), Ok(()));
    assert_eq!(require_existing(false), Err(Error::new("vm doesn't exist")));
    assert_eq!(require_absent(false), Ok(()));
    assert_eq!(require_absent(true), Err(Error::new("vm already exists")));
    assert_eq!(Error::new("boom").message(), "boom");
}

#[test]
fn run_is_refused_on_a_port_conflict() {
    let vm1 = port_map(&VM::new("vm1".to_string()).unwrap(), 2222, 22);
    let vm2 = port_map(&VM::new("vm2".to_string()).unwrap(), 2222, 22);
    let vm3 = VM::new("vm3".to_string()).unwrap();
    assert_eq!(run_check(&vm2, &vec![], false), Ok(()));
    assert_eq!(run_check(&vm2, &vec![vm3.clone()], false), Ok(()));
    assert_eq!(run_check(&vm2, &vec![vm3.clone(), vm1.clone()], true), Ok(()));
    let refused = run_check(&vm2, &vec![vm3.clone(), vm1.clone()], false).unwrap_err().message();
    assert_eq!(
        refused,
        "vm2 will fail to launch because vm1 already occupies a network port it would use"
    );
    assert!(refused.contains("vm1") && refused.contains("vm2"));
    assert_eq!(run_check(&vm3, &vec![vm1, vm2], false), Ok(()));
}

#[test]
fn configuration_commands() {
    let vm = VM::new("vm1".to_string()).unwrap();
    let set = config_set(&vm, "memory", "2048").unwrap();
    assert_eq!(set.config().machine.memory, 2048);
    assert_eq!(set.config().machine.cpus, 8);
    assert_eq!(set.config().machine.ssh_port, 2222);
    assert_eq!(set.config().machine.vga, "virtio");
    assert_eq!(set.name(), "vm1");
    assert_eq!(vm.config().machine.memory, 16384);
    assert_eq!(config_set(&vm, "nope", "1"), Err(ConfigError::UnknownKey));
    assert_eq!(config_set(&vm, "cpus", "many"), Err(ConfigError::InvalidNumber));
    let mapped = port_map(&vm, 2222, 22);
    assert_eq!(mapped.config().ports.get(2222), Some(22));
    assert_eq!(vm.config().ports.get(2222), None);
    let unmapped = port_unmap(&mapped, 2222);
    assert_eq!(unmapped.config(), vm.config());
    assert_eq!(port_unmap(&vm, 1).config(), vm.config());
    let mut headless = VM::new("vm2".to_string()).unwrap();
    headless.set_headless(true);
    let copied = config_copy(&mapped, &headless);
    assert_eq!(copied.name(), "vm2");
    assert!(copied.headless());
    assert_eq!(copied.config(), mapped.config());
    assert_eq!(nc_target(&mapped, 2222), Some("127.0.0.1:2222".to_string()));
    assert_eq!(nc_target(&mapped, 22), None);
    assert_eq!(ssh_args(&vm, &Vec::new()), strings(&["-p", "2222", "localhost"]));
    assert_eq!(
        ssh_args(&vm, &strings(&["-v", "ls"])),
        strings(&["-p", "2222", "localhost", "-v", "ls"])
    );
}

#[test]
fn supervisors() {
    assert_eq!(is_active_args("emu.vm1"), strings(&["--user", "is-active", "emu.vm1", "-q"]));
    assert_eq!(reload_args(Supervisors::Systemd), Ok(strings(&["--user", "daemon-reload"])));
    assert_eq!(reload_args(Supervisors::Pid), Err(Error::new("PIDs cannot be reloaded")));
    let vm = VM::new("vm1".to_string()).unwrap();
    let units = SystemdSupervisorStorage::new("/home/u/.config");
    assert_eq!(units.service_name(&vm), "emu.vm1");
    assert_eq!(units.service_filename(&vm), "/home/u/.config/systemd/user/emu.vm1.service");
    assert_eq!(
        units.list(&strings(&["emu.vm1.service", "other.service", "emu.x", "emu.a.b.service"])),
        strings(&["vm1", "a.b"])
    );
    assert_eq!(machine_of_unit("emu.vm1.service"), Some("vm1".to_string()));
    assert_eq!(machine_of_unit("emu.emu.vm1.service.service"), Some("vm1".to_string()));
    assert_eq!(machine_of_unit("emu.service"), Some("service".to_string()));
    assert_eq!(machine_of_unit("emu..service"), Some("".to_string()));
    assert_eq!(machine_of_unit("vm1.service"), None);
    assert_eq!(machine_of_unit("emu.vm1"), None);
    let null = NullSupervisorStorage;
    assert_eq!(null.service_name(&vm), "vm1");
    assert_eq!(null.service_filename(&vm), "vm1");
    assert_eq!(null.list(), Err(Error::new("Null storage: cannot list services")));
    assert_eq!(null.remove(&vm), Err(Error::new("Null storage: cannot remove a service")));
    assert_eq!(null.create(&vm), Err(Error::new("Null storage: cannot create a service")));
    assert_eq!(pid_from_text("4242"), Some(4242));
    assert_eq!(pid_from_text("4242\n"), None);
    assert_eq!(pid_from_text(""), None);
    assert_eq!(pid_from_text("4294967296"), None);
    assert_eq!(pid_to_check(&None), None);
    assert_eq!(pid_to_check(&Some("12".to_string())), Some(12));
    assert_eq!(pid_to_check(&Some("12 ".to_string())), None);
}

#[test]
fn image_tool_invocations() {
    let handler = QEmuImageHandler::default();
    assert_eq!(QEMU_IMG_PATH, "qemu-img");
    assert_eq!(QEMU_IMG_DEFAULT_FORMAT, "qcow2");
    assert_eq!(handler.image_path("/data/emu/vm1", 1700000000), "/data/emu/vm1/qemu-1700000000.qcow2");
    assert_eq!(
        handler.create_args("/data/emu/vm1/qemu-1.qcow2", 10),
        strings(&["create", "-f", "qcow2", "/data/emu/vm1/qemu-1.qcow2", "10G"])
    );
    assert_eq!(
        handler.import_args("/new.qcow2", "/old.vmdk", "vmdk"),
        strings(&["convert", "-f", "vmdk", "-O", "qcow2", "/old.vmdk", "/new.qcow2"])
    );
}

#[test]
fn launch_options_replace_what_was_asked_for() {
    let mut vm = VM::new("vm1".to_string()).unwrap();
    vm.set_cdrom("/old.iso".to_string());
    let same = launch_options(&vm, false, None, None);
    assert_eq!(same, vm);
    let set = launch_options(&vm, true, Some("/new.iso".to_string()), Some("/x.iso".to_string()));
    assert!(set.headless());
    assert_eq!(set.cdrom(), Some("/new.iso".to_string()));
    assert_eq!(set.extra_disk(), Some("/x.iso".to_string()));
    assert_eq!(set.name(), "vm1");
    let kept = launch_options(&set, false, None, None);
    assert!(!kept.headless());
    assert_eq!(kept.cdrom(), Some("/new.iso".to_string()));
    assert_eq!(kept.extra_disk(), Some("/x.iso".to_string()));
}
