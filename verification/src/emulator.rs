//! The emulator as it is driven by the name of a machine alone: the command
//! line for a machine whose configuration was read beforehand, with its disks
//! written through, and the files through which a running emulator is reached.

use crate::config::{Configuration, MachineView};
use crate::error::Error;
use crate::launcher::{display_args, hostfwd, media_args, smp_arg};
use crate::storage::{joined, DirectoryStorageHandler};
use crate::text::{decimal, push_decimal, push_text, texts};
use crate::util::is_valid_filename;
use crate::vm::text_of;
use vstd::prelude::*;
use vstd::string::*;

verus! {

/// What a launch was asked to add to the configuration of the machine.
#[derive(Debug, Clone)]
pub struct RuntimeConfig {
    pub cdrom: Option<String>,
    pub extra_disk: Option<String>,
    pub headless: bool,
    pub dsh: DirectoryStorageHandler,
}

/// The description of the disk image `path` as drive number `index`, written through.
pub open spec fn plain_drive_arg(interface: Seq<char>, path: Seq<char>, index: nat) -> Seq<char> {
    "driver=qcow2,if="@ + interface + ",file="@ + path + ",cache=writethrough,media=disk,index="@
        + decimal(index)
}

/// The arguments for the disk images, numbered from zero.
pub open spec fn plain_disk_args(interface: Seq<char>, disks: Seq<Seq<char>>) -> Seq<Seq<char>>
    decreases disks.len(),
{
    if disks.len() == 0 {
        Seq::<Seq<char>>::empty()
    } else {
        plain_disk_args(interface, disks.drop_last()).push("-drive"@).push(
            plain_drive_arg(interface, disks.last(), (disks.len() - 1) as nat),
        )
    }
}

/// The arguments that every launch starts with.
pub open spec fn plain_machine_args(
    machine: MachineView,
    pairs: Seq<(u16, u16)>,
    monitor: Seq<char>,
) -> Seq<Seq<char>> {
    seq![
        "-nodefaults"@,
        "-chardev"@,
        "socket,server=on,wait=off,id=char0,path="@ + monitor,
        "-mon"@,
        "chardev=char0,mode=control,pretty=on"@,
        "-machine"@,
        "accel=kvm"@,
        "-vga"@,
        machine.vga,
        "-m"@,
        decimal(machine.memory as nat) + "M"@,
        "-cpu"@,
        machine.cpu_type,
        "-smp"@,
        smp_arg(machine.cpus as nat),
        "-nic"@,
        "user"@ + hostfwd(pairs),
    ]
}

/// The whole command line: machine, disks, display, then the two optional media.
pub open spec fn plain_args(
    machine: MachineView,
    pairs: Seq<(u16, u16)>,
    monitor: Seq<char>,
    disks: Seq<Seq<char>>,
    headless: bool,
    cdrom: Option<Seq<char>>,
    extra: Option<Seq<char>>,
) -> Seq<Seq<char>> {
    plain_machine_args(machine, pairs, monitor) + plain_disk_args(machine.image_interface, disks)
        + display_args(headless) + media_args(cdrom, disks.len() + 2) + media_args(
        extra,
        disks.len() + 3,
    )
}

/// Why no command line is made.
#[derive(Debug, Clone, Copy, PartialEq, Eq, Structural)]
pub enum ArgsError {
    /// The name of the machine cannot be a directory.
    InvalidName,
    /// The machine has no memory or no processor.
    InvalidConfiguration,
    /// The cdrom image that was asked for is not there.
    MissingCdrom,
    /// The extra image that was asked for is not there.
    MissingExtraDisk,
}

/// What decides whether a command line is made, in the order in which it is looked at.
pub open spec fn args_refusal(
    name: Seq<char>,
    machine: MachineView,
    cdrom_missing: bool,
    extra_missing: bool,
) -> Option<ArgsError> {
    if !is_valid_filename(name) {
        Some(ArgsError::InvalidName)
    } else if machine.memory == 0 || machine.cpus == 0 {
        Some(ArgsError::InvalidConfiguration)
    } else if cdrom_missing {
        Some(ArgsError::MissingCdrom)
    } else if extra_missing {
        Some(ArgsError::MissingExtraDisk)
    } else {
        None
    }
}

/// The emulator of this host.
#[derive(Debug, Clone, Copy, Default)]
pub struct Emulator {}

impl Emulator {
    /// The program to run.
    pub fn bin(&self) -> (out: String)
        ensures
            out@ == "qemu-system-x86_64"@,
    {
        String::from_str(crate::launcher::QEMU_BIN_NAME)
    }

    /// The forwarding rules of `config` for the network argument.
    pub fn hostfwd_rules(&self, config: &Configuration) -> (out: String)
        ensures
            out@ == hostfwd(config.ports.pairs()),
    {
        let n: usize = config.ports.len();
        let mut res = String::new();
        let mut i: usize = 0;
        assert(config.ports.pairs().take(0) =~= Seq::<(u16, u16)>::empty());
        while i < n
            invariant
                i <= n,
                n == config.ports.pairs().len(),
                res@ == hostfwd(config.ports.pairs().take(i as int)),
            decreases n - i,
        {
            let pair = config.ports.entry(i);
            proof {
                let next = config.ports.pairs().take(i + 1);
                assert(next.drop_last() == config.ports.pairs().take(i as int));
                assert(next.last() == pair);
            }
            res.append(",hostfwd=tcp:127.0.0.1:");
            push_decimal(&mut res, pair.0 as u64);
            res.append("-:");
            push_decimal(&mut res, pair.1 as u64);
            i = i + 1;
        }
        assert(config.ports.pairs().take(i as int) == config.ports.pairs());
        res
    }

    /// Appends the arguments for a read-only medium as drive number `index`.
    pub fn cdrom_rules(&self, v: &mut Vec<String>, disk: &Option<String>, index: u64)
        ensures
            texts(final(v)@) == texts(old(v)@) + media_args(text_of(*disk), index as nat),
    {
        match disk {
            Some(cd) => {
                let mut arg = String::from_str("file=");
                arg.append(cd.as_str());
                arg.append(",media=cdrom,index=");
                push_decimal(&mut arg, index);
                let ghost start = texts(v@);
                push_text(v, String::from_str("-drive"));
                push_text(v, arg);
                assert(texts(v@) =~= start + media_args(text_of(*disk), index as nat));
            },
            None => {
                assert(texts(v@) =~= texts(v@) + Seq::<Seq<char>>::empty());
            },
        }
    }

    /// Appends the arguments for the display.
    pub fn display_rule(&self, v: &mut Vec<String>, headless: bool)
        ensures
            texts(final(v)@) == texts(old(v)@) + display_args(headless),
    {
        let ghost start = texts(v@);
        push_text(v, String::from_str("-display"));
        if !headless {
            push_text(v, String::from_str("gtk"));
        } else {
            push_text(v, String::from_str("none"));
        }
        assert(texts(v@) =~= start + display_args(headless));
    }

    fn disk_rules(&self, v: &mut Vec<String>, interface: &str, disks: &Vec<String>)
        ensures
            texts(final(v)@) == texts(old(v)@) + plain_disk_args(interface@, texts(disks@)),
    {
        let ghost start = texts(v@);
        let mut x: usize = 0;
        proof {
            assert(texts(disks@).take(0) =~= Seq::<Seq<char>>::empty());
            assert(texts(v@) =~= start + Seq::<Seq<char>>::empty());
        }
        while x < disks.len()
            invariant
                x <= disks.len(),
                texts(v@) == start + plain_disk_args(interface@, texts(disks@).take(x as int)),
            decreases disks.len() - x,
        {
            let ghost done = plain_disk_args(interface@, texts(disks@).take(x as int));
            let mut arg = String::from_str("driver=qcow2,if=");
            arg.append(interface);
            arg.append(",file=");
            arg.append(disks[x].as_str());
            arg.append(",cache=writethrough,media=disk,index=");
            push_decimal(&mut arg, x as u64);
            push_text(v, String::from_str("-drive"));
            push_text(v, arg);
            proof {
                let next = texts(disks@).take(x + 1);
                assert(next.drop_last() == texts(disks@).take(x as int));
                assert(next.last() == disks@[x as int]@);
                assert(texts(v@) =~= start + done.push("-drive"@).push(arg@));
            }
            x = x + 1;
        }
        assert(texts(disks@).take(x as int) == texts(disks@));
    }

    /// The command line for the machine `vm_name` with the configuration
    /// `config`, whose directory holds the disk images `disks`. A
    /// name that cannot be a directory, a configuration without memory or
    /// processors, and an image that was asked for and not found stop it.
    pub fn args(
        &self,
        vm_name: &str,
        config: &Configuration,
        rc: &RuntimeConfig,
        disks: &Vec<String>,
        cdrom_found: bool,
        extra_found: bool,
    ) -> (out: Result<Vec<String>, ArgsError>)
        requires
            disks.len() + 3 <= u64::MAX,
        ensures
            match args_refusal(
                vm_name@,
                config@.machine,
                rc.cdrom is Some && !cdrom_found,
                rc.extra_disk is Some && !extra_found,
            ) {
                Some(e) => out == Err::<Vec<String>, ArgsError>(e),
                None => out is Ok && texts(out->Ok_0@) == plain_args(
                    config@.machine,
                    config.ports.pairs(),
                    joined(joined(rc.dsh.basedir@, vm_name@), "mon"@),
                    texts(disks@),
                    rc.headless,
                    text_of(rc.cdrom),
                    text_of(rc.extra_disk),
                ),
            },
    {
        let mon = match rc.dsh.monitor_path(vm_name) {
            Ok(mon) => mon,
            Err(_) => {
                return Err(ArgsError::InvalidName);
            },
        };
        if config.valid().is_err() {
            return Err(ArgsError::InvalidConfiguration);
        }
        if rc.cdrom.is_some() && !cdrom_found {
            return Err(ArgsError::MissingCdrom);
        }
        if rc.extra_disk.is_some() && !extra_found {
            return Err(ArgsError::MissingExtraDisk);
        }
        let mut v: Vec<String> = Vec::new();
        assert(texts(v@) =~= Seq::<Seq<char>>::empty());
        push_text(&mut v, String::from_str("-nodefaults"));
        push_text(&mut v, String::from_str("-chardev"));
        let mut chardev = String::from_str("socket,server=on,wait=off,id=char0,path=");
        chardev.append(mon.as_str());
        push_text(&mut v, chardev);
        push_text(&mut v, String::from_str("-mon"));
        push_text(&mut v, String::from_str("chardev=char0,mode=control,pretty=on"));
        push_text(&mut v, String::from_str("-machine"));
        push_text(&mut v, String::from_str("accel=kvm"));
        push_text(&mut v, String::from_str("-vga"));
        push_text(&mut v, config.machine.vga.clone());
        push_text(&mut v, String::from_str("-m"));
        let mut memory = String::new();
        push_decimal(&mut memory, config.machine.memory as u64);
        memory.append("M");
        assert(memory@ == decimal(config.machine.memory as nat) + "M"@) by {
            assert(Seq::<char>::empty() + decimal(config.machine.memory as nat) == decimal(
                config.machine.memory as nat,
            ));
        }
        push_text(&mut v, memory);
        push_text(&mut v, String::from_str("-cpu"));
        push_text(&mut v, config.machine.cpu_type.clone());
        push_text(&mut v, String::from_str("-smp"));
        let cpus: u64 = config.machine.cpus as u64;
        let mut smp = String::from_str("cpus=");
        push_decimal(&mut smp, cpus);
        smp.append(",cores=");
        push_decimal(&mut smp, cpus);
        smp.append(",maxcpus=");
        push_decimal(&mut smp, cpus);
        push_text(&mut v, smp);
        push_text(&mut v, String::from_str("-nic"));
        let rules = self.hostfwd_rules(config);
        let mut nic = String::from_str("user");
        nic.append(rules.as_str());
        push_text(&mut v, nic);
        let ghost head = plain_machine_args(config@.machine, config.ports.pairs(), mon@);
        assert(texts(v@) =~= head);
        self.disk_rules(&mut v, config.machine.image_interface.as_str(), disks);
        self.display_rule(&mut v, rc.headless);
        let count: u64 = disks.len() as u64;
        self.cdrom_rules(&mut v, &rc.cdrom, count + 2);
        self.cdrom_rules(&mut v, &rc.extra_disk, count + 3);
        Ok(v)
    }
}

/// Reaches the running emulator of a machine through the files of the machine.
#[derive(Debug, Clone)]
pub struct EmulatorController {
    dsh: DirectoryStorageHandler,
}

impl EmulatorController {
    /// The base directory of the machines.
    pub closed spec fn basedir(&self) -> Seq<char> {
        self.dsh.basedir@
    }

    /// A controller for the machines in `dsh`.
    pub fn new(dsh: DirectoryStorageHandler) -> (out: Self)
        ensures
            out.basedir() == dsh.basedir@,
    {
        Self { dsh }
    }

    /// The monitor socket and the pid file of the machine `name`, through
    /// which it is shut down and waited for.
    pub fn paths(&self, name: &str) -> (out: Result<(String, String), Error>)
        ensures
            out is Ok <==> is_valid_filename(name@),
            out is Ok ==> out->Ok_0.0@ == joined(joined(self.basedir(), name@), "mon"@)
                && out->Ok_0.1@ == joined(joined(self.basedir(), name@), "pid"@),
            out is Err ==> out->Err_0@ == "path contains invalid characters"@,
    {
        let mon = match self.dsh.monitor_path(name) {
            Ok(mon) => mon,
            Err(e) => {
                return Err(e);
            },
        };
        match self.dsh.pidfile(name) {
            Ok(pid) => Ok((mon, pid)),
            Err(e) => Err(e),
        }
    }
}

} // verus!
