//! Machine settings and port forwards of one virtual machine.

use crate::text::{
    decimal, decimal_string, lemma_decimal_parses, parse_decimal, parsed_decimal, same_text,
};
use vstd::prelude::*;
use vstd::string::*;

verus! {

/// Forwards from host ports to guest ports; a host port is forwarded at most once.
#[derive(Debug, PartialEq, Eq)]
pub struct PortMap {
    entries: Vec<(u16, u16)>,
}

/// The map that a list of forwards stands for.
pub open spec fn forwards(pairs: Seq<(u16, u16)>) -> Map<u16, u16> {
    Map::new(
        |host: u16| exists|i: int| 0 <= i < pairs.len() && #[trigger] pairs[i].0 == host,
        |host: u16| pairs[choose|i: int| 0 <= i < pairs.len() && #[trigger] pairs[i].0 == host].1,
    )
}

/// No host port occurs twice in `pairs`.
pub open spec fn distinct_hosts(pairs: Seq<(u16, u16)>) -> bool {
    forall|i: int, j: int|
        0 <= i < pairs.len() && 0 <= j < pairs.len() && i != j ==> #[trigger] pairs[i].0
            != #[trigger] pairs[j].0
}

impl Clone for PortMap {
    fn clone(&self) -> (out: Self)
        ensures
            out.pairs() == self.pairs(),
    {
        proof {
            use_type_invariant(self);
        }
        PortMap { entries: self.copied() }
    }
}

impl PortMap {
    #[verifier::type_invariant]
    spec fn well_formed(self) -> bool {
        distinct_hosts(self.entries@)
    }

    /// The forwards in the order in which they are kept.
    pub closed spec fn pairs(&self) -> Seq<(u16, u16)> {
        self.entries@
    }

    /// The forwards as a map from host port to guest port.
    pub open spec fn view(&self) -> Map<u16, u16> {
        forwards(self.pairs())
    }

    /// The empty set of forwards.
    pub fn new() -> (out: Self)
        ensures
            out.pairs() == Seq::<(u16, u16)>::empty(),
            out@ == Map::<u16, u16>::empty(),
    {
        let out = PortMap { entries: Vec::new() };
        assert(out@ =~= Map::<u16, u16>::empty());
        out
    }

    /// How many host ports are forwarded; no host port is listed twice.
    pub fn len(&self) -> (n: usize)
        ensures
            n == self.pairs().len(),
            distinct_hosts(self.pairs()),
    {
        proof {
            use_type_invariant(self);
        }
        self.entries.len()
    }

    /// The forward at position `i`.
    pub fn entry(&self, i: usize) -> (pair: (u16, u16))
        requires
            i < self.pairs().len(),
        ensures
            pair == self.pairs()[i as int],
    {
        self.entries[i]
    }

    fn copied(&self) -> (out: Vec<(u16, u16)>)
        ensures
            out@ == self.pairs(),
    {
        let mut out: Vec<(u16, u16)> = Vec::new();
        let mut i: usize = 0;
        while i < self.entries.len()
            invariant
                i <= self.entries.len(),
                out@ == self.entries@.take(i as int),
            decreases self.entries.len() - i,
        {
            out.push(self.entries[i]);
            assert(self.entries@.take(i + 1) == self.entries@.take(i as int).push(self.entries@[i as int]));
            i = i + 1;
        }
        assert(self.entries@.take(i as int) == self.entries@);
        out
    }

    fn position(&self, host: u16) -> (at: Option<usize>)
        ensures
            match at {
                Some(i) => i < self.pairs().len() && self.pairs()[i as int].0 == host,
                None => forall|j: int| 0 <= j < self.pairs().len() ==> self.pairs()[j].0 != host,
            },
    {
        let mut i: usize = 0;
        while i < self.entries.len()
            invariant
                i <= self.entries.len(),
                forall|j: int| 0 <= j < i ==> self.entries@[j].0 != host,
            decreases self.entries.len() - i,
        {
            if self.entries[i].0 == host {
                return Some(i);
            }
            i = i + 1;
        }
        None
    }

    /// The guest port that `host` is forwarded to, if any.
    pub fn get(&self, host: u16) -> (guest: Option<u16>)
        ensures
            guest == (if self@.contains_key(host) {
                Some(self@[host])
            } else {
                None
            }),
    {
        proof {
            use_type_invariant(self);
        }
        match self.position(host) {
            Some(i) => {
                assert(self.pairs()[i as int].0 == host);
                Some(self.entries[i].1)
            },
            None => None,
        }
    }

    /// Whether `host` is forwarded.
    pub fn contains_key(&self, host: u16) -> (found: bool)
        ensures
            found == self@.contains_key(host),
    {
        match self.position(host) {
            Some(i) => {
                assert(self.pairs()[i as int].0 == host);
                true
            },
            None => false,
        }
    }

    /// Forwards `host` to `guest`, replacing an earlier forward of `host`.
    pub fn insert(&mut self, host: u16, guest: u16)
        ensures
            final(self)@ == old(self)@.insert(host, guest),
            !old(self)@.contains_key(host) ==> final(self).pairs() == old(self).pairs().push(
                (host, guest),
            ),
            old(self)@.contains_key(host) ==> exists|i: int|
                0 <= i < old(self).pairs().len() && #[trigger] old(self).pairs()[i].0 == host
                    && final(self).pairs() == old(self).pairs().update(i, (host, guest)),
    {
        proof {
            use_type_invariant(&*self);
        }
        let ghost before = self.entries@;
        match self.position(host) {
            Some(i) => {
                assert(before[i as int].0 == host);
                let mut next = self.copied();
                next.set(i, (host, guest));
                let ghost after = next@;
                proof {
                    assert forall|k: u16| forwards(after).contains_key(k) == forwards(
                        before,
                    ).insert(host, guest).contains_key(k) by {
                        if forwards(after).contains_key(k) {
                            let j = choose|j: int| 0 <= j < after.len() && #[trigger] after[j].0 == k;
                            assert(before[j].0 == k);
                        }
                        if forwards(before).contains_key(k) {
                            let j = choose|j: int| 0 <= j < before.len() && #[trigger] before[j].0 == k;
                            assert(after[j].0 == k);
                        }
                        if k == host {
                            assert(after[i as int].0 == k);
                        }
                    }
                    assert forall|k: u16| forwards(after).contains_key(k) implies forwards(after)[k]
                        == forwards(before).insert(host, guest)[k] by {
                        let j = choose|j: int| 0 <= j < after.len() && #[trigger] after[j].0 == k;
                        if k != host {
                            assert(before[j].0 == k);
                            let j2 = choose|j2: int|
                                0 <= j2 < before.len() && #[trigger] before[j2].0 == k;
                            assert(j2 == j);
                        } else {
                            assert(j == i);
                        }
                    }
                    assert(forwards(after) =~= forwards(before).insert(host, guest));
                    assert(after == before.update(i as int, (host, guest)));
                }
                self.entries = next;
            },
            None => {
                let mut next = self.copied();
                next.push((host, guest));
                let ghost after = next@;
                proof {
                    assert forall|k: u16| forwards(after).contains_key(k) == forwards(
                        before,
                    ).insert(host, guest).contains_key(k) by {
                        if forwards(after).contains_key(k) {
                            let j = choose|j: int| 0 <= j < after.len() && #[trigger] after[j].0 == k;
                            if j < before.len() {
                                assert(before[j].0 == k);
                            }
                        }
                        if forwards(before).contains_key(k) {
                            let j = choose|j: int| 0 <= j < before.len() && #[trigger] before[j].0 == k;
                            assert(after[j].0 == k);
                        }
                        if k == host {
                            assert(after[before.len() as int].0 == k);
                        }
                    }
                    assert forall|k: u16| forwards(after).contains_key(k) implies forwards(after)[k]
                        == forwards(before).insert(host, guest)[k] by {
                        let j = choose|j: int| 0 <= j < after.len() && #[trigger] after[j].0 == k;
                        if k != host {
                            assert(before[j].0 == k);
                            let j2 = choose|j2: int|
                                0 <= j2 < before.len() && #[trigger] before[j2].0 == k;
                            assert(j2 == j);
                        } else {
                            assert(j == before.len());
                        }
                    }
                    assert(forwards(after) =~= forwards(before).insert(host, guest));
                }
                self.entries = next;
            },
        }
    }

    /// Drops the forward of `host`, if there is one.
    pub fn remove(&mut self, host: u16)
        ensures
            final(self)@ == old(self)@.remove(host),
            !old(self)@.contains_key(host) ==> final(self).pairs() == old(self).pairs(),
            old(self)@.contains_key(host) ==> exists|i: int|
                0 <= i < old(self).pairs().len() && #[trigger] old(self).pairs()[i].0 == host
                    && final(self).pairs() == old(self).pairs().remove(i),
    {
        proof {
            use_type_invariant(&*self);
        }
        let ghost before = self.entries@;
        match self.position(host) {
            Some(i) => {
                assert(before[i as int].0 == host);
                let mut next = self.copied();
                next.remove(i);
                let ghost after = next@;
                proof {
                    assert(after =~= before.remove(i as int));
                    assert forall|k: u16| forwards(after).contains_key(k) == forwards(
                        before,
                    ).remove(host).contains_key(k) by {
                        if forwards(after).contains_key(k) {
                            let j = choose|j: int| 0 <= j < after.len() && #[trigger] after[j].0 == k;
                            if j < i {
                                assert(before[j].0 == k);
                            } else {
                                assert(before[j + 1].0 == k);
                            }
                        }
                        if forwards(before).contains_key(k) && k != host {
                            let j = choose|j: int| 0 <= j < before.len() && #[trigger] before[j].0 == k;
                            if j < i {
                                assert(after[j].0 == k);
                            } else {
                                assert(after[j - 1].0 == k);
                            }
                        }
                    }
                    assert forall|k: u16| forwards(after).contains_key(k) implies forwards(after)[k]
                        == forwards(before).remove(host)[k] by {
                        let j = choose|j: int| 0 <= j < after.len() && #[trigger] after[j].0 == k;
                        let j0 = if j < i { j } else { j + 1 };
                        assert(before[j0].0 == k);
                        let j2 = choose|j2: int|
                            0 <= j2 < before.len() && #[trigger] before[j2].0 == k;
                        assert(j2 == j0);
                    }
                    assert(forwards(after) =~= forwards(before).remove(host));
                }
                self.entries = next;
            },
            None => {
                assert(!forwards(before).contains_key(host)) by {
                    if forwards(before).contains_key(host) {
                        let j = choose|j: int| 0 <= j < before.len() && #[trigger] before[j].0 == host;
                        assert(self.pairs()[j].0 == host);
                    }
                }
                assert(forwards(before) =~= forwards(before).remove(host));
            },
        }
    }
}

/// The settings of the machine that the emulator presents to the guest.
#[derive(Debug, PartialEq, Eq)]
pub struct MachineConfiguration {
    pub ssh_port: u16,
    /// Memory in megabytes.
    pub memory: u32,
    pub cpus: u32,
    pub cpu_type: String,
    pub vga: String,
    pub image_interface: String,
}

/// What a `MachineConfiguration` holds, as plain values.
pub struct MachineView {
    pub ssh_port: u16,
    pub memory: u32,
    pub cpus: u32,
    pub cpu_type: Seq<char>,
    pub vga: Seq<char>,
    pub image_interface: Seq<char>,
}

impl View for MachineConfiguration {
    type V = MachineView;

    open spec fn view(&self) -> MachineView {
        MachineView {
            ssh_port: self.ssh_port,
            memory: self.memory,
            cpus: self.cpus,
            cpu_type: self.cpu_type@,
            vga: self.vga@,
            image_interface: self.image_interface@,
        }
    }
}

impl Clone for MachineConfiguration {
    fn clone(&self) -> (out: Self)
        ensures
            out@ == self@,
    {
        MachineConfiguration {
            ssh_port: self.ssh_port,
            memory: self.memory,
            cpus: self.cpus,
            cpu_type: self.cpu_type.clone(),
            vga: self.vga.clone(),
            image_interface: self.image_interface.clone(),
        }
    }
}

/// The configuration of one virtual machine.
#[derive(Debug, PartialEq, Eq)]
pub struct Configuration {
    pub machine: MachineConfiguration,
    pub ports: PortMap,
}

/// What a `Configuration` holds, as plain values.
pub struct ConfigurationView {
    pub machine: MachineView,
    pub ports: Map<u16, u16>,
}

impl View for Configuration {
    type V = ConfigurationView;

    open spec fn view(&self) -> ConfigurationView {
        ConfigurationView { machine: self.machine@, ports: self.ports@ }
    }
}

impl Clone for Configuration {
    fn clone(&self) -> (out: Self)
        ensures
            out@ == self@,
            out.ports.pairs() == self.ports.pairs(),
    {
        Configuration { machine: self.machine.clone(), ports: self.ports.clone() }
    }
}

/// Why a configuration is refused or a setting cannot be made.
#[derive(Debug, Clone, Copy, PartialEq, Eq, Structural)]
pub enum ConfigError {
    /// The machine has no memory.
    NoMemory,
    /// The machine has no processor.
    NoCpus,
    /// The key names no machine setting.
    UnknownKey,
    /// The value is no number that the setting can hold.
    InvalidNumber,
}

impl ConfigError {
    /// The message shown to the user.
    pub fn message(&self) -> (text: String)
        ensures
            text@ == match *self {
                ConfigError::NoMemory => "No memory value set"@,
                ConfigError::NoCpus => "No cpus value set"@,
                ConfigError::UnknownKey => "key does not exist"@,
                ConfigError::InvalidNumber => "invalid digit found in string"@,
            },
    {
        match self {
            ConfigError::NoMemory => String::from_str("No memory value set"),
            ConfigError::NoCpus => String::from_str("No cpus value set"),
            ConfigError::UnknownKey => String::from_str("key does not exist"),
            ConfigError::InvalidNumber => String::from_str("invalid digit found in string"),
        }
    }
}

/// The machine settings of a fresh virtual machine.
pub open spec fn default_machine() -> MachineView {
    MachineView {
        ssh_port: 2222,
        memory: 16384,
        cpus: 8,
        cpu_type: "host"@,
        vga: "virtio"@,
        image_interface: "virtio"@,
    }
}

/// Two sets of forwards conflict when some host port is forwarded by both.
pub open spec fn ports_conflict(a: Map<u16, u16>, b: Map<u16, u16>) -> bool {
    exists|host: u16| a.contains_key(host) && b.contains_key(host)
}

/// The settings that `set_machine_value` knows, by key.
pub open spec fn is_machine_key(key: Seq<char>) -> bool {
    key == "memory"@ || key == "cpus"@ || key == "vga"@ || key == "image-interface"@ || key
        == "cpu-type"@ || key == "ssh-port"@
}

/// Whether `value` can be stored under `key`: the numeric settings take a
/// decimal number that fits, the others any text.
pub open spec fn value_fits(key: Seq<char>, value: Seq<char>) -> bool {
    if key == "memory"@ || key == "cpus"@ {
        parsed_decimal(value, 0xffff_ffff) is Some
    } else if key == "ssh-port"@ {
        parsed_decimal(value, 0xffff) is Some
    } else {
        true
    }
}

/// Whether storing `value` under `key` succeeds, and why not if it does not.
pub open spec fn set_outcome(key: Seq<char>, value: Seq<char>) -> Result<(), ConfigError> {
    if !is_machine_key(key) {
        Err(ConfigError::UnknownKey)
    } else if !value_fits(key, value) {
        Err(ConfigError::InvalidNumber)
    } else {
        Ok(())
    }
}

/// The machine settings after `value` was stored under `key`.
pub open spec fn machine_with(m: MachineView, key: Seq<char>, value: Seq<char>) -> MachineView {
    if key == "memory"@ {
        MachineView { memory: parsed_decimal(value, 0xffff_ffff)->0 as u32, ..m }
    } else if key == "cpus"@ {
        MachineView { cpus: parsed_decimal(value, 0xffff_ffff)->0 as u32, ..m }
    } else if key == "vga"@ {
        MachineView { vga: value, ..m }
    } else if key == "image-interface"@ {
        MachineView { image_interface: value, ..m }
    } else if key == "cpu-type"@ {
        MachineView { cpu_type: value, ..m }
    } else if key == "ssh-port"@ {
        MachineView { ssh_port: parsed_decimal(value, 0xffff)->0 as u16, ..m }
    } else {
        m
    }
}

impl Default for Configuration {
    fn default() -> (out: Self)
        ensures
            out@.machine == default_machine(),
            out@.ports == Map::<u16, u16>::empty(),
            out.ports.pairs() == Seq::<(u16, u16)>::empty(),
    {
        Configuration {
            machine: MachineConfiguration {
                ssh_port: 2222,
                memory: 16384,
                cpus: 8,
                cpu_type: String::from_str("host"),
                vga: String::from_str("virtio"),
                image_interface: String::from_str("virtio"),
            },
            ports: PortMap::new(),
        }
    }
}

impl Configuration {
    /// Whether some host port is forwarded by both configurations.
    pub fn is_port_conflict(&self, other: &Self) -> (conflict: bool)
        ensures
            conflict == ports_conflict(self@.ports, other@.ports),
    {
        let n: usize = self.ports.len();
        let mut i: usize = 0;
        while i < n
            invariant
                i <= n,
                n == self.ports.pairs().len(),
                forall|j: int| 0 <= j < i ==> !other.ports@.contains_key(
                    #[trigger] self.ports.pairs()[j].0,
                ),
            decreases n - i,
        {
            let pair = self.ports.entry(i);
            if other.ports.contains_key(pair.0) {
                assert(self.ports.pairs()[i as int].0 == pair.0);
                assert(self@.ports.contains_key(pair.0));
                return true;
            }
            i = i + 1;
        }
        proof {
            assert forall|host: u16| self@.ports.contains_key(host) implies !other@.ports.contains_key(
                host,
            ) by {
                let j = choose|j: int|
                    0 <= j < self.ports.pairs().len() && #[trigger] self.ports.pairs()[j].0 == host;
                assert(!other.ports@.contains_key(self.ports.pairs()[j].0));
            }
        }
        false
    }

    /// Checks that the machine has memory and at least one processor.
    pub fn valid(&self) -> (out: Result<(), ConfigError>)
        ensures
            out == (if self.machine.memory == 0 {
                Err::<(), ConfigError>(ConfigError::NoMemory)
            } else if self.machine.cpus == 0 {
                Err(ConfigError::NoCpus)
            } else {
                Ok(())
            }),
    {
        if self.machine.memory == 0 {
            return Err(ConfigError::NoMemory);
        }
        if self.machine.cpus == 0 {
            return Err(ConfigError::NoCpus);
        }
        Ok(())
    }

    /// Forwards the host port to the guest port.
    pub fn map_port(&mut self, hostport: u16, guestport: u16)
        ensures
            final(self)@.ports == old(self)@.ports.insert(hostport, guestport),
            final(self)@.machine == old(self)@.machine,
            !old(self)@.ports.contains_key(hostport) ==> final(self).ports.pairs() == old(
                self,
            ).ports.pairs().push((hostport, guestport)),
    {
        self.ports.insert(hostport, guestport);
    }

    /// Stops forwarding the host port.
    pub fn unmap_port(&mut self, hostport: u16)
        ensures
            final(self)@.ports == old(self)@.ports.remove(hostport),
            final(self)@.machine == old(self)@.machine,
            !old(self)@.ports.contains_key(hostport) ==> final(self).ports.pairs() == old(
                self,
            ).ports.pairs(),
    {
        self.ports.remove(hostport);
    }

    /// Stores `value` under the machine setting that `key` names. An unknown
    /// key or a value that does not fit leaves the configuration as it was.
    pub fn set_machine_value(&mut self, key: &str, value: &str) -> (out: Result<(), ConfigError>)
        ensures
            final(self).ports == old(self).ports,
            out == set_outcome(key@, value@),
            out is Ok ==> final(self)@.machine == machine_with(old(self)@.machine, key@, value@),
            out is Err ==> final(self)@ == old(self)@,
    {
        proof {
            reveal_strlit("vga");
            reveal_strlit("image-interface");
            reveal_strlit("cpu-type");
            reveal_strlit("ssh-port");
            assert("cpu-type"@[0] != "ssh-port"@[0]);
        }
        if same_text(key, "memory") {
            match parse_decimal(value, 0xffff_ffff) {
                Some(v) => {
                    self.machine.memory = v;
                    Ok(())
                },
                None => Err(ConfigError::InvalidNumber),
            }
        } else if same_text(key, "cpus") {
            match parse_decimal(value, 0xffff_ffff) {
                Some(v) => {
                    self.machine.cpus = v;
                    Ok(())
                },
                None => Err(ConfigError::InvalidNumber),
            }
        } else if same_text(key, "vga") {
            self.machine.vga = String::from_str(value);
            Ok(())
        } else if same_text(key, "image-interface") {
            self.machine.image_interface = String::from_str(value);
            Ok(())
        } else if same_text(key, "cpu-type") {
            self.machine.cpu_type = String::from_str(value);
            Ok(())
        } else if same_text(key, "ssh-port") {
            match parse_decimal(value, 0xffff) {
                Some(v) => {
                    self.machine.ssh_port = v as u16;
                    Ok(())
                },
                None => Err(ConfigError::InvalidNumber),
            }
        } else {
            Err(ConfigError::UnknownKey)
        }
    }
}

/// Whether two configurations conflict does not depend on which is asked.
pub proof fn lemma_port_conflict_symmetric(a: Map<u16, u16>, b: Map<u16, u16>)
    ensures
        ports_conflict(a, b) == ports_conflict(b, a),
{
    if ports_conflict(a, b) {
        let h = choose|h: u16| a.contains_key(h) && b.contains_key(h);
        assert(b.contains_key(h) && a.contains_key(h));
    }
    if ports_conflict(b, a) {
        let h = choose|h: u16| b.contains_key(h) && a.contains_key(h);
        assert(a.contains_key(h) && b.contains_key(h));
    }
}

/// Two configurations conflict exactly when their sets of host ports meet.
pub proof fn lemma_port_conflict_intersection(a: Map<u16, u16>, b: Map<u16, u16>)
    ensures
        ports_conflict(a, b) <==> a.dom().intersect(b.dom()) != Set::<u16>::empty(),
{
    let both = a.dom().intersect(b.dom());
    if ports_conflict(a, b) {
        let h = choose|h: u16| a.contains_key(h) && b.contains_key(h);
        assert(both.contains(h));
    }
    if both != Set::<u16>::empty() {
        assert(!(both =~= Set::<u16>::empty()));
        let h = choose|h: u16| both.contains(h);
        assert(a.contains_key(h) && b.contains_key(h));
    }
}

/// Forwarding a host port that was free and dropping the forward again gives
/// back the forwards as they were; where the port was taken, the earlier
/// forward is gone too.
pub proof fn lemma_map_then_unmap(ports: Map<u16, u16>, host: u16, guest: u16)
    ensures
        ports.insert(host, guest).remove(host) == ports.remove(host),
        !ports.contains_key(host) ==> ports.insert(host, guest).remove(host) == ports,
{
    assert(ports.insert(host, guest).remove(host) =~= ports.remove(host));
    if !ports.contains_key(host) {
        assert(ports.remove(host) =~= ports);
    }
}

/// With a value that fits, a setting is made exactly when the key is one of
/// the six that name a setting; the three settings that hold text take any
/// value.
pub proof fn lemma_machine_key_closure(key: Seq<char>, value: Seq<char>)
    ensures
        value_fits(key, value) ==> (set_outcome(key, value) is Ok <==> (key == "memory"@ || key
            == "cpus"@ || key == "vga"@ || key == "image-interface"@ || key == "cpu-type"@ || key
            == "ssh-port"@)),
        set_outcome(key, value) is Ok ==> is_machine_key(key),
        (key == "vga"@ || key == "image-interface"@ || key == "cpu-type"@) ==> set_outcome(
            key,
            value,
        ) is Ok,
{
    reveal_strlit("memory");
    reveal_strlit("cpus");
    reveal_strlit("vga");
    reveal_strlit("image-interface");
    reveal_strlit("cpu-type");
    reveal_strlit("ssh-port");
    assert("cpu-type"@[0] != "ssh-port"@[0]);
    assert("vga"@.len() == 3 && "memory"@.len() == 6 && "cpus"@.len() == 4 && "ssh-port"@.len() == 8
        && "cpu-type"@.len() == 8 && "image-interface"@.len() == 15);
}

/// The host port that the key `text` of a stored forward names: the port
/// whose numeral the key is.
pub open spec fn port_key(text: Seq<char>) -> Option<u16> {
    match parsed_decimal(text, 0xffff) {
        Some(v) => if decimal(v) == text {
            Some(v as u16)
        } else {
            None
        },
        None => None,
    }
}

/// The forwards as they are stored: each host port as its numeral, with
/// the guest port.
pub open spec fn stored(pairs: Seq<(u16, u16)>) -> Seq<(Seq<char>, u16)> {
    pairs.map_values(|p: (u16, u16)| (decimal(p.0 as nat), p.1))
}

/// The keys and guest ports of stored forwards.
pub open spec fn stored_texts(entries: Seq<(String, u16)>) -> Seq<(Seq<char>, u16)> {
    entries.map_values(|e: (String, u16)| (e.0@, e.1))
}

/// Every key of `entries` names a host port, and none names the port of another.
pub open spec fn loadable(entries: Seq<(Seq<char>, u16)>) -> bool {
    &&& forall|i: int| 0 <= i < entries.len() ==> port_key(#[trigger] entries[i].0) is Some
    &&& forall|i: int, j: int|
        0 <= i < entries.len() && 0 <= j < entries.len() && i != j ==> port_key(
            #[trigger] entries[i].0,
        ) != port_key(#[trigger] entries[j].0)
}

/// The forwards that stored entries stand for, in their order.
pub open spec fn loaded(entries: Seq<(Seq<char>, u16)>) -> Seq<(u16, u16)> {
    entries.map_values(|e: (Seq<char>, u16)| (port_key(e.0)->0, e.1))
}

fn key_port(text: &str) -> (out: Option<u16>)
    ensures
        out == port_key(text@),
{
    match parse_decimal(text, 0xffff) {
        Some(v) => {
            let back = decimal_string(v as u64);
            if same_text(back.as_str(), text) {
                Some(v as u16)
            } else {
                None
            }
        },
        None => None,
    }
}

impl PortMap {
    /// The forwards in the form in which they are stored, in the order in
    /// which they are kept.
    pub fn to_entries(&self) -> (out: Vec<(String, u16)>)
        ensures
            stored_texts(out@) == stored(self.pairs()),
    {
        let mut out: Vec<(String, u16)> = Vec::new();
        let mut i: usize = 0;
        while i < self.entries.len()
            invariant
                i <= self.entries.len(),
                out@.len() == i,
                forall|j: int|
                    0 <= j < i ==> (#[trigger] out@[j]).0@ == decimal(self.entries@[j].0 as nat)
                        && out@[j].1 == self.entries@[j].1,
            decreases self.entries.len() - i,
        {
            let pair = self.entries[i];
            out.push((decimal_string(pair.0 as u64), pair.1));
            i = i + 1;
        }
        assert(stored_texts(out@) =~= stored(self.pairs()));
        out
    }

    /// The forwards that `entries` hold in stored form. A key that is not
    /// the numeral of a port, or a port that is named twice, gives nothing.
    pub fn from_entries(entries: &Vec<(String, u16)>) -> (out: Option<Self>)
        ensures
            out is Some <==> loadable(stored_texts(entries@)),
            out is Some ==> out->0.pairs() == loaded(stored_texts(entries@)),
    {
        let ghost texts = stored_texts(entries@);
        let mut list: Vec<(u16, u16)> = Vec::new();
        let mut i: usize = 0;
        while i < entries.len()
            invariant
                i <= entries.len(),
                texts == stored_texts(entries@),
                list@.len() == i,
                forall|j: int|
                    0 <= j < i ==> port_key(#[trigger] texts[j].0) == Some(list@[j].0)
                        && list@[j].1 == texts[j].1,
                distinct_hosts(list@),
            decreases entries.len() - i,
        {
            let host = match key_port(entries[i].0.as_str()) {
                Some(host) => host,
                None => {
                    assert(port_key(texts[i as int].0) is None);
                    return None;
                },
            };
            let mut k: usize = 0;
            while k < i
                invariant
                    k <= i,
                    i < entries.len(),
                    list@.len() == i,
                    texts == stored_texts(entries@),
                    port_key(texts[i as int].0) == Some(host),
                    forall|j: int|
                        0 <= j < i ==> port_key(#[trigger] texts[j].0) == Some(list@[j].0),
                    forall|j: int| 0 <= j < k ==> list@[j].0 != host,
                decreases i - k,
            {
                if list[k].0 == host {
                    assert(port_key(texts[k as int].0) == port_key(texts[i as int].0));
                    return None;
                }
                k = k + 1;
            }
            list.push((host, entries[i].1));
            i = i + 1;
        }
        proof {
            assert(list@ =~= loaded(texts));
            assert forall|a: int, b: int|
                0 <= a < texts.len() && 0 <= b < texts.len() && a != b implies port_key(
                #[trigger] texts[a].0,
            ) != port_key(#[trigger] texts[b].0) by {
                assert(list@[a].0 != list@[b].0);
            }
        }
        Some(PortMap { entries: list })
    }
}

/// Forwards that are stored and loaded again are the forwards that were stored.
pub proof fn lemma_stored_forwards_load(pairs: Seq<(u16, u16)>)
    requires
        distinct_hosts(pairs),
    ensures
        loadable(stored(pairs)),
        loaded(stored(pairs)) == pairs,
{
    let entries = stored(pairs);
    assert forall|i: int| 0 <= i < entries.len() implies port_key(#[trigger] entries[i].0) == Some(
        pairs[i].0,
    ) by {
        lemma_decimal_parses(pairs[i].0 as nat, 0xffff);
    }
    assert forall|i: int, j: int|
        0 <= i < entries.len() && 0 <= j < entries.len() && i != j implies port_key(
        #[trigger] entries[i].0,
    ) != port_key(#[trigger] entries[j].0) by {
        assert(pairs[i].0 != pairs[j].0);
    }
    assert(loaded(entries) =~= pairs);
}

/// A configuration in the form in which it is stored: the machine settings
/// as they are, each forward under the numeral of its host port.
#[derive(Debug, PartialEq, Eq)]
pub struct StoredConfiguration {
    pub machine: MachineConfiguration,
    pub ports: Vec<(String, u16)>,
}

/// What a `StoredConfiguration` holds, as plain values.
pub struct StoredView {
    pub machine: MachineView,
    pub ports: Seq<(Seq<char>, u16)>,
}

impl View for StoredConfiguration {
    type V = StoredView;

    open spec fn view(&self) -> StoredView {
        StoredView { machine: self.machine@, ports: stored_texts(self.ports@) }
    }
}

/// The stored form of the configuration with the settings `machine` and the
/// forwards `pairs`.
pub open spec fn stored_configuration(machine: MachineView, pairs: Seq<(u16, u16)>) -> StoredView {
    StoredView { machine, ports: stored(pairs) }
}

/// The settings and the forwards of the configuration that a stored form
/// stands for, where its forwards can be loaded.
pub open spec fn loaded_configuration(form: StoredView) -> Option<(MachineView, Seq<(u16, u16)>)> {
    if loadable(form.ports) {
        Some((form.machine, loaded(form.ports)))
    } else {
        None
    }
}

impl Configuration {
    /// The configuration in the form in which it is stored.
    pub fn to_stored(&self) -> (out: StoredConfiguration)
        ensures
            out@ == stored_configuration(self@.machine, self.ports.pairs()),
    {
        StoredConfiguration { machine: self.machine.clone(), ports: self.ports.to_entries() }
    }

    /// The configuration that `form` stands for. A forward whose key is not
    /// the numeral of a port, or a port that is named twice, gives nothing.
    pub fn from_stored(form: &StoredConfiguration) -> (out: Option<Self>)
        ensures
            out is Some <==> loaded_configuration(form@) is Some,
            out is Some ==> loaded_configuration(form@) == Some(
                (out->0@.machine, out->0.ports.pairs()),
            ),
    {
        match PortMap::from_entries(&form.ports) {
            Some(ports) => Some(Configuration { machine: form.machine.clone(), ports }),
            None => None,
        }
    }
}

/// A configuration that is stored and loaded again is the configuration
/// that was stored: the same settings and the same forwards.
pub proof fn lemma_configuration_round_trip(machine: MachineView, pairs: Seq<(u16, u16)>)
    requires
        distinct_hosts(pairs),
    ensures
        loaded_configuration(stored_configuration(machine, pairs)) == Some((machine, pairs)),
{
    lemma_stored_forwards_load(pairs);
}

} // verus!
