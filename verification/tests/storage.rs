use emu_cli::storage::{
    file_name, join, qemu_img_name, sorted_images, total_size, DirectoryStorageHandler, StoragePath,
    SystemdStorage, XDGConfigStorage,
};
use emu_cli::vm::{InvalidName, Supervisors, VM};

fn strings(items: &[&str]) -> Vec<String> {
    items.iter().map(|s| s.to_string()).collect()
}

#[test]
fn join_follows_path_rules() {
    assert_eq!(join("/base", "vm1"), "/base/vm1");
    assert_eq!(join("/base/", "vm1"), "/base/vm1");
    assert_eq!(join("", "vm1"), "vm1");
    assert_eq!(join("/base", "/abs"), "/abs");
    assert_eq!(join("/base", ""), "/base/");
    assert_eq!(join("/", "x"), "/x");
    for (base, name) in [("/base", "vm1"), ("/base/", "vm1"), ("", "vm1"), ("/b", "/a"), ("/b", "")] {
        let expected = std::path::Path::new(base).join(name);
        assert_eq!(std::path::PathBuf::from(join(base, name)), expected);
        assert_eq!(join(base, name), expected.to_str().unwrap());
    }
}

#[test]
fn test_xdg_storage() {
    let base_path = std::path::PathBuf::from("/tmp/emu-base");
    let storage = XDGConfigStorage::new("/tmp/emu-base".to_string());
    let vm1 = VM::new("vm1".to_string()).unwrap();
    let vm2 = VM::new("vm2".to_string()).unwrap();

    assert_eq!(storage.base_path(), "/tmp/emu-base");
    assert_eq!(std::path::PathBuf::from(storage.vm_root(&vm1)), base_path.join(vm1.name()));
    assert_eq!(std::path::PathBuf::from(storage.vm_root(&vm2)), base_path.join(vm2.name()));
    assert_eq!(
        std::path::PathBuf::from(storage.vm_path(&vm1, "config").unwrap()),
        base_path.join("vm1/config")
    );
    assert_eq!(
        std::path::PathBuf::from(storage.config_path(&vm1)),
        base_path.join("vm1/config")
    );
    assert_eq!(std::path::PathBuf::from(storage.pidfile(&vm1)), base_path.join("vm1/pid"));
    assert_eq!(std::path::PathBuf::from(storage.monitor_path(&vm1)), base_path.join("vm1/mon"));
    assert_eq!(
        storage.disk_path(&vm1, "12345").unwrap(),
        "/tmp/emu-base/vm1/qemu-12345.qcow2"
    );
    for disk in ["../x", "a/b", "1.", "a\0b", "/etc/passwd"] {
        assert_eq!(
            storage.disk_path(&vm1, disk).unwrap_err().message(),
            "path contains invalid characters"
        );
    }
    for file in ["../config", "/etc/passwd", "a/b", "a..b", "x\0"] {
        assert_eq!(
            storage.vm_path(&vm1, file).unwrap_err().message(),
            "path contains invalid characters"
        );
    }
    assert_eq!(storage.disk_list(&Vec::new()).len(), 0);
}

#[test]
fn disk_list_is_sorted_and_holds_the_images_only() {
    let storage = XDGConfigStorage::new("/b".to_string());
    let entries = strings(&[
        "/b/vm/qemu-300.qcow2",
        "/b/vm/config",
        "/b/vm/qemu-1000.qcow2",
        "/b/vm/pid",
        "/b/vm/qemu-200.qcow2",
        "/b/vm/notes.qcow2.bak",
        "/b/vm/.qcow2",
        "/b/vm/mon",
        "/b/vm/qemu-200.qcow2",
    ]);
    let expected = strings(&[
        "/b/vm/.qcow2",
        "/b/vm/qemu-1000.qcow2",
        "/b/vm/qemu-200.qcow2",
        "/b/vm/qemu-200.qcow2",
        "/b/vm/qemu-300.qcow2",
    ]);
    assert_eq!(storage.disk_list(&entries), expected);
    assert_eq!(sorted_images(&entries), expected);
    let mut by_std: Vec<String> =
        entries.iter().filter(|e| e.ends_with(".qcow2")).cloned().collect();
    by_std.sort();
    assert_eq!(sorted_images(&entries), by_std);
    assert_eq!(sorted_images(&strings(&["qcow2", "a.qcow2x"])), Vec::<String>::new());
}

#[test]
fn size_is_the_sum_of_the_files() {
    assert_eq!(total_size(&vec![]), Some(0));
    assert_eq!(total_size(&vec![1, 2, 3]), Some(6));
    assert_eq!(total_size(&vec![u64::MAX]), Some(u64::MAX));
    assert_eq!(total_size(&vec![u64::MAX, 0]), Some(u64::MAX));
    assert_eq!(total_size(&vec![u64::MAX, 1]), None);
    assert_eq!(total_size(&vec![1, u64::MAX, 7]), None);
}

#[test]
fn image_names_carry_the_time() {
    assert_eq!(qemu_img_name(0), "qemu-0.qcow2");
    assert_eq!(qemu_img_name(8675309), "qemu-8675309.qcow2");
    assert_eq!(qemu_img_name(1700000000), "qemu-1700000000.qcow2");
}

#[test]
fn directory_storage_refuses_bad_names() {
    let dsh = DirectoryStorageHandler::new("/data/emu".to_string());
    assert_eq!(dsh.base_path(), "/data/emu");
    assert!(dsh.valid_filename("vm1"));
    assert!(!dsh.valid_filename("../vm1"));
    assert_eq!(dsh.vm_root("vm1").unwrap(), "/data/emu/vm1");
    assert_eq!(dsh.vm_root("../x").unwrap_err().message(), "path contains invalid characters");
    assert_eq!(dsh.monitor_path("vm1").unwrap(), "/data/emu/vm1/mon");
    assert_eq!(dsh.pidfile("vm1").unwrap(), "/data/emu/vm1/pid");
    assert!(dsh.monitor_path("a/b").is_err());
    assert_eq!(dsh.vm_path("vm1", "config").unwrap(), "/data/emu/vm1/config");
    assert!(dsh.vm_path("vm1", "../config").is_err());
    assert!(dsh.vm_path("v\0m", "config").is_err());
    let list = dsh.vm_list(strings(&["a", "x..y", "/abs", "b"]));
    assert_eq!(list.len(), 2);
    assert_eq!(list[0].with_base(), "/data/emu/a");
    assert_eq!(list[1].with_base(), "/data/emu/b");
}

#[test]
fn storage_path_and_units() {
    let path = StoragePath::new("vm1".to_string(), "/data/emu".to_string()).unwrap();
    assert!(StoragePath::new("../vm1".to_string(), "/data/emu".to_string()).is_err());
    assert!(StoragePath::new("/etc".to_string(), "/data/emu".to_string()).is_err());
    assert!(StoragePath::new("a\0".to_string(), "/data/emu".to_string()).is_err());
    assert_eq!(path.with_base(), "/data/emu/vm1");
    assert_eq!(path.label("1.50 KB"), "vm1 (1.50 KB)");
    let units = SystemdStorage::new("/home/u/.config".to_string());
    assert_eq!(
        units.service_filename("vm1").unwrap(),
        "/home/u/.config/systemd/user/emu.vm1.service"
    );
    assert_eq!(units.service_filename("a/b").unwrap_err().message(), "invalid vm name");
}

#[test]
fn test_vm_operations() {
    let mut vm = VM::new("vm1".to_string()).unwrap();
    assert!(!vm.supervisor().supervised());
    let mut config = vm.config();
    config.machine.ssh_port = 2000;
    vm.set_config(config.clone());
    assert_eq!(vm.config(), config);

    vm.set_cdrom("/cdrom".to_string());
    assert_eq!(vm.cdrom(), Some("/cdrom".to_string()));
    vm.set_extra_disk("/cdrom".to_string());
    assert_eq!(vm.extra_disk(), Some("/cdrom".to_string()));
    vm.set_headless(true);
    assert!(vm.headless());
}

#[test]
fn test_into() {
    let vm1 = VM::new("vm1".to_string()).unwrap();
    assert_eq!(vm1.name(), "vm1".to_string());
}

#[test]
fn vm_keeps_what_it_is_given() {
    let mut vm = VM::new("vm1".to_string()).unwrap();
    assert_eq!(VM::new("../vm1".to_string()), Err(InvalidName));
    assert_eq!(VM::new("a/b".to_string()), Err(InvalidName));
    assert_eq!(VM::new("a\0b".to_string()), Err(InvalidName));
    assert_eq!(InvalidName.message(), "invalid vm name");
    assert_eq!(vm.cdrom(), None);
    assert_eq!(vm.extra_disk(), None);
    assert!(!vm.headless());
    assert_eq!(vm.supervisor(), Supervisors::Pid);
    vm.set_cdrom("/cd.iso".to_string());
    vm.set_extra_disk("/extra.iso".to_string());
    assert_eq!(vm.cdrom(), Some("/cd.iso".to_string()));
    assert_eq!(vm.extra_disk(), Some("/extra.iso".to_string()));
    vm.set_supervisor(Supervisors::select(true));
    assert!(vm.supervisor().supervised());
    assert_eq!(Supervisors::select(false), Supervisors::Pid);
    assert_eq!(Supervisors::default(), Supervisors::Pid);
    let copy = vm.clone();
    assert_eq!(copy, vm);
}

#[test]
fn vm_list_holds_the_valid_names() {
    let storage = XDGConfigStorage::new("/b".to_string());
    let list = storage.vm_list(&strings(&["vm1", "a..b", "vm2", "", "x\0y"]));
    let names: Vec<String> = list.iter().map(|vm| vm.name()).collect();
    assert_eq!(names, strings(&["vm1", "vm2", ""]));
    assert_eq!(list[0], VM::new("vm1".to_string()).unwrap());
    assert_eq!(storage.vm_list(&Vec::new()).len(), 0);
}

#[test]
fn a_valid_name_is_read_back_from_the_path() {
    let storage = XDGConfigStorage::new("/data/emu".to_string());
    for name in ["vm1", "a.b", "with space", ".hidden", ""] {
        let vm = VM::new(name.to_string()).unwrap();
        assert_eq!(vm.name(), name);
        assert_eq!(file_name(&storage.vm_root(&vm)), name);
    }
    for name in ["a/b", "../x", "/abs", "x/", "..", "a..b", "a\0", "\0", "/"] {
        assert_eq!(VM::new(name.to_string()), Err(InvalidName), "{:?}", name);
    }
    assert_eq!(file_name("/data/emu/vm1/qemu-1.qcow2"), "qemu-1.qcow2");
    assert_eq!(file_name("plain"), "plain");
    assert_eq!(file_name("/"), "");
    assert_eq!(file_name(""), "");
}
