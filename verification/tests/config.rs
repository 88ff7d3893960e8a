use emu_cli::config::{
    ConfigError, Configuration, MachineConfiguration, PortMap, StoredConfiguration,
};

#[test]
fn test_set_machine_value() {
    let mut config = Configuration::default();
    config.set_machine_value("memory", "1024").unwrap();
    assert_eq!(config.machine.memory, 1024);
    config.set_machine_value("cpus", "2").unwrap();
    assert_eq!(config.machine.cpus, 2);
    config.set_machine_value("vga", "none").unwrap();
    assert_eq!(config.machine.vga, "none");
    config.set_machine_value("image-interface", "virtio").unwrap();
    assert_eq!(config.machine.image_interface, "virtio");
    config.set_machine_value("cpu-type", "host").unwrap();
    assert_eq!(config.machine.cpu_type, "host");
    config.set_machine_value("ssh-port", "2222").unwrap();
    assert_eq!(config.machine.ssh_port, 2222);
}

#[test]
fn test_map_unmap_ports() {
    let mut config = Configuration::default();
    config.map_port(2222, 22);
    assert_eq!(config.ports.get(2222), Some(22));
    config.unmap_port(2222);
    assert_eq!(config.ports.get(2222), None);

    let mut conflict1 = Configuration::default();
    let mut conflict2 = Configuration::default();

    conflict1.map_port(2222, 22);
    conflict2.map_port(2222, 22);

    assert!(conflict1.is_port_conflict(&conflict2));

    conflict2.unmap_port(2222);
    assert!(!conflict1.is_port_conflict(&conflict2));
}

#[test]
fn default_configuration() {
    let config = Configuration::default();
    assert_eq!(config.machine.ssh_port, 2222);
    assert_eq!(config.machine.memory, 16384);
    assert_eq!(config.machine.cpus, 8);
    assert_eq!(config.machine.cpu_type, "host");
    assert_eq!(config.machine.vga, "virtio");
    assert_eq!(config.machine.image_interface, "virtio");
    assert_eq!(config.ports.len(), 0);
    assert_eq!(config.valid(), Ok(()));
}

#[test]
fn unknown_key_is_refused_and_changes_nothing() {
    let mut config = Configuration::default();
    assert_eq!(config.set_machine_value("colour", "red"), Err(ConfigError::UnknownKey));
    assert_eq!(config.set_machine_value("", "1"), Err(ConfigError::UnknownKey));
    assert_eq!(config.set_machine_value("Memory", "1"), Err(ConfigError::UnknownKey));
    assert_eq!(config, Configuration::default());
}

#[test]
fn numbers_that_do_not_fit_are_refused() {
    let mut config = Configuration::default();
    for value in ["", "+", "-1", "12a", "4294967296", " 1", "1 "] {
        assert_eq!(config.set_machine_value("memory", value), Err(ConfigError::InvalidNumber));
        assert_eq!(config.set_machine_value("cpus", value), Err(ConfigError::InvalidNumber));
    }
    assert_eq!(config.set_machine_value("ssh-port", "65536"), Err(ConfigError::InvalidNumber));
    assert_eq!(config, Configuration::default());
    config.set_machine_value("memory", "4294967295").unwrap();
    assert_eq!(config.machine.memory, 4294967295);
    config.set_machine_value("cpus", "+3").unwrap();
    assert_eq!(config.machine.cpus, 3);
    config.set_machine_value("ssh-port", "65535").unwrap();
    assert_eq!(config.machine.ssh_port, 65535);
    config.set_machine_value("ssh-port", "007").unwrap();
    assert_eq!(config.machine.ssh_port, 7);
}

#[test]
fn validity_needs_memory_and_cpus() {
    let mut config = Configuration::default();
    config.machine.memory = 0;
    assert_eq!(config.valid(), Err(ConfigError::NoMemory));
    config.machine.cpus = 0;
    assert_eq!(config.valid(), Err(ConfigError::NoMemory));
    config.machine.memory = 1;
    assert_eq!(config.valid(), Err(ConfigError::NoCpus));
    config.machine.cpus = 1;
    assert_eq!(config.valid(), Ok(()));
    assert_eq!(ConfigError::NoMemory.message(), "No memory value set");
    assert_eq!(ConfigError::NoCpus.message(), "No cpus value set");
    assert_eq!(ConfigError::UnknownKey.message(), "key does not exist");
}

#[test]
fn port_conflict_is_symmetric_and_means_a_shared_host_port() {
    let mut a = Configuration::default();
    let mut b = Configuration::default();
    assert!(!a.is_port_conflict(&b));
    a.map_port(8080, 80);
    a.map_port(2222, 22);
    b.map_port(8081, 80);
    assert!(!a.is_port_conflict(&b));
    assert!(!b.is_port_conflict(&a));
    b.map_port(2222, 2022);
    assert!(a.is_port_conflict(&b));
    assert!(b.is_port_conflict(&a));
}

#[test]
fn map_then_unmap_restores_a_free_port_only() {
    let mut ports = PortMap::new();
    ports.insert(8080, 80);
    let before = ports.clone();
    ports.insert(2222, 22);
    assert_eq!(ports.len(), 2);
    ports.remove(2222);
    assert_eq!(ports, before);

    ports.insert(8080, 8000);
    assert_eq!(ports.get(8080), Some(8000));
    assert_eq!(ports.len(), 1);
    ports.remove(8080);
    assert_eq!(ports.len(), 0);
    assert!(!ports.contains_key(8080));
    ports.remove(8080);
    assert_eq!(ports.len(), 0);
}

#[test]
fn forwards_keep_their_order() {
    let mut ports = PortMap::new();
    ports.insert(3, 30);
    ports.insert(1, 10);
    ports.insert(2, 20);
    ports.insert(1, 11);
    assert_eq!(ports.len(), 3);
    assert_eq!(ports.entry(0), (3, 30));
    assert_eq!(ports.entry(1), (1, 11));
    assert_eq!(ports.entry(2), (2, 20));
}

#[test]
fn forwards_are_stored_under_the_numeral_of_the_host_port() {
    let mut ports = PortMap::new();
    ports.insert(2222, 22);
    ports.insert(80, 8080);
    ports.insert(0, 1);
    let entries = ports.to_entries();
    assert_eq!(
        entries,
        vec![("2222".to_string(), 22), ("80".to_string(), 8080), ("0".to_string(), 1)]
    );
    assert_eq!(PortMap::from_entries(&entries), Some(ports));
    assert_eq!(PortMap::from_entries(&Vec::new()), Some(PortMap::new()));
    for key in ["", "+80", "080", "65536", "http", "80 ", "-1", "8 0"] {
        assert_eq!(PortMap::from_entries(&vec![(key.to_string(), 1)]), None, "{:?}", key);
    }
    assert_eq!(
        PortMap::from_entries(&vec![("80".to_string(), 1), ("81".to_string(), 1)]).map(|p| p.len()),
        Some(2)
    );
    assert_eq!(
        PortMap::from_entries(&vec![("80".to_string(), 1), ("80".to_string(), 2)]),
        None
    );
    let max = PortMap::from_entries(&vec![("65535".to_string(), 65535)]).unwrap();
    assert_eq!(max.get(65535), Some(65535));
}

#[test]
fn a_stored_configuration_is_loaded_back() {
    let mut orig = Configuration {
        machine: MachineConfiguration {
            ssh_port: 2000,
            cpu_type: Default::default(),
            cpus: 4,
            image_interface: Default::default(),
            memory: 2048,
            vga: Default::default(),
        },
        ports: PortMap::new(),
    };
    let stored = orig.to_stored();
    assert_eq!(stored.machine, orig.machine);
    assert_eq!(stored.ports, vec![]);
    assert_eq!(Configuration::from_stored(&stored), Some(orig.clone()));

    orig.map_port(2222, 22);
    orig.map_port(8080, 80);
    orig.set_machine_value("vga", "std").unwrap();
    let stored = orig.to_stored();
    assert_eq!(stored.ports, vec![("2222".to_string(), 22), ("8080".to_string(), 80)]);
    assert_eq!(Configuration::from_stored(&stored), Some(orig.clone()));
    assert_eq!(
        Configuration::from_stored(&Configuration::default().to_stored()),
        Some(Configuration::default())
    );

    let broken = StoredConfiguration {
        machine: orig.machine.clone(),
        ports: vec![("ssh".to_string(), 22)],
    };
    assert_eq!(Configuration::from_stored(&broken), None);
}
