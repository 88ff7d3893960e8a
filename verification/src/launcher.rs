//! The command line of the emulator for one machine, and the decisions taken
//! around launching it and waiting for it to stop.

use crate::config::{ports_conflict, MachineView};
use crate::storage::{joined, XDGConfigStorage};
use crate::text::{decimal, push_decimal, push_text, texts};
use crate::vm::VM;
use vstd::prelude::*;
use vstd::string::*;

verus! {

/// The program that emulates the machine.
pub const QEMU_BIN_NAME: &'static str = "qemu-system-x86_64";

/// The forwarding rules that follow `user` in the network argument, one for
/// each forward in the order given.
pub open spec fn hostfwd(pairs: Seq<(u16, u16)>) -> Seq<char>
    decreases pairs.len(),
{
    if pairs.len() == 0 {
        Seq::<char>::empty()
    } else {
        hostfwd(pairs.drop_last()) + ",hostfwd=tcp:127.0.0.1:"@ + decimal(pairs.last().0 as nat)
            + "-:"@ + decimal(pairs.last().1 as nat)
    }
}

/// The description of the disk image `path` as drive number `index`.
pub open spec fn drive_arg(interface: Seq<char>, path: Seq<char>, index: nat) -> Seq<char> {
    "driver=qcow2,if="@ + interface + ",file="@ + path + ",cache=none,media=disk,index="@
        + decimal(index) + ",snapshot=on"@
}

/// The arguments for the disk images, numbered from zero.
pub open spec fn disk_args(interface: Seq<char>, disks: Seq<Seq<char>>) -> Seq<Seq<char>>
    decreases disks.len(),
{
    if disks.len() == 0 {
        Seq::<Seq<char>>::empty()
    } else {
        disk_args(interface, disks.drop_last()).push("-drive"@).push(
            drive_arg(interface, disks.last(), (disks.len() - 1) as nat),
        )
    }
}

/// The arguments for a read-only medium as drive number `index`, if there is one.
pub open spec fn media_args(media: Option<Seq<char>>, index: nat) -> Seq<Seq<char>> {
    match media {
        Some(path) => seq!["-drive"@, "file="@ + path + ",media=cdrom,index="@ + decimal(index)],
        None => Seq::<Seq<char>>::empty(),
    }
}

/// The arguments for the display.
pub open spec fn display_args(headless: bool) -> Seq<Seq<char>> {
    seq!["-display"@, if headless { "none"@ } else { "gtk"@ }]
}

/// The processor argument: as many cores as processors, and no more later.
pub open spec fn smp_arg(cpus: nat) -> Seq<char> {
    "cpus="@ + decimal(cpus) + ",cores="@ + decimal(cpus) + ",maxcpus="@ + decimal(cpus)
}

/// The arguments that every launch starts with.
pub open spec fn machine_args(
    machine: MachineView,
    pairs: Seq<(u16, u16)>,
    monitor: Seq<char>,
) -> Seq<Seq<char>> {
    seq![
        "-nodefaults"@,
        "-chardev"@,
        "socket,server=on,wait=off,id=char0,path="@ + monitor,
        "-snapshot"@,
        "-mon"@,
        "chardev=char0,mode=control,pretty=on"@,
        "-machine"@,
        "accel=kvm"@,
        "-vga"@,
        machine.vga,
        "-m"@,
        decimal(machine.memory as nat) + "M"@,
        "-cpu"@,
        machine.cpu_type,
        "-smp"@,
        smp_arg(machine.cpus as nat),
        "-nic"@,
        "user"@ + hostfwd(pairs),
    ]
}

/// The whole command line: machine, disks, display, then the two optional media.
pub open spec fn launch_args(
    machine: MachineView,
    pairs: Seq<(u16, u16)>,
    monitor: Seq<char>,
    disks: Seq<Seq<char>>,
    headless: bool,
    cdrom: Option<Seq<char>>,
    extra: Option<Seq<char>>,
) -> Seq<Seq<char>> {
    machine_args(machine, pairs, monitor) + disk_args(machine.image_interface, disks)
        + display_args(headless) + media_args(cdrom, disks.len() + 2) + media_args(
        extra,
        disks.len() + 3,
    )
}

/// Why a machine is not launched.
#[derive(Debug, Clone, Copy, PartialEq, Eq, Structural)]
pub enum LaunchError {
    /// The cdrom image that was asked for is not there.
    MissingCdrom,
    /// The extra image that was asked for is not there.
    MissingExtraDisk,
}

impl LaunchError {
    /// The message shown to the user.
    pub fn message(&self) -> (text: String)
        ensures
            text@ == match *self {
                LaunchError::MissingCdrom => "error locating cdrom file"@,
                LaunchError::MissingExtraDisk => "error locating extra disk file"@,
            },
    {
        match self {
            LaunchError::MissingCdrom => String::from_str("error locating cdrom file"),
            LaunchError::MissingExtraDisk => String::from_str("error locating extra disk file"),
        }
    }
}

/// Launches machines whose files lie in one storage.
#[derive(Debug, Clone)]
pub struct QEmuLauncher {
    config: XDGConfigStorage,
}

impl QEmuLauncher {
    /// The base directory of the storage.
    pub closed spec fn base(&self) -> Seq<char> {
        self.config.base()
    }

    /// A launcher for the machines in `config`.
    pub fn new(config: XDGConfigStorage) -> (out: Self)
        ensures
            out.base() == config.base(),
    {
        Self { config }
    }

    /// The forwarding rules of `vm` for the network argument.
    pub fn hostfwd_rules(&self, vm: &VM) -> (out: String)
        ensures
            out@ == hostfwd(vm.port_pairs()),
    {
        let config = vm.config();
        let n: usize = config.ports.len();
        let mut res = String::new();
        let mut i: usize = 0;
        assert(config.ports.pairs().take(0) =~= Seq::<(u16, u16)>::empty());
        while i < n
            invariant
                i <= n,
                n == config.ports.pairs().len(),
                res@ == hostfwd(config.ports.pairs().take(i as int)),
            decreases n - i,
        {
            let pair = config.ports.entry(i);
            proof {
                let next = config.ports.pairs().take(i + 1);
                assert(next.drop_last() == config.ports.pairs().take(i as int));
                assert(next.last() == pair);
            }
            res.append(",hostfwd=tcp:127.0.0.1:");
            push_decimal(&mut res, pair.0 as u64);
            res.append("-:");
            push_decimal(&mut res, pair.1 as u64);
            i = i + 1;
        }
        assert(config.ports.pairs().take(i as int) == config.ports.pairs());
        res
    }

    /// Appends the arguments for a read-only medium as drive number `index`.
    pub fn cdrom_rules(&self, v: &mut Vec<String>, disk: &Option<String>, index: u64)
        ensures
            texts(final(v)@) == texts(old(v)@) + media_args(
                crate::vm::text_of(*disk),
                index as nat,
            ),
    {
        match disk {
            Some(cd) => {
                let mut arg = String::from_str("file=");
                arg.append(cd.as_str());
                arg.append(",media=cdrom,index=");
                push_decimal(&mut arg, index);
                let ghost start = texts(v@);
                push_text(v, String::from_str("-drive"));
                push_text(v, arg);
                assert(texts(v@) =~= start + media_args(crate::vm::text_of(*disk), index as nat));
            },
            None => {
                assert(texts(v@) =~= texts(v@) + Seq::<Seq<char>>::empty());
            },
        }
    }

    /// Appends the arguments for the display.
    pub fn display_rule(&self, v: &mut Vec<String>, headless: bool)
        ensures
            texts(final(v)@) == texts(old(v)@) + display_args(headless),
    {
        let ghost start = texts(v@);
        push_text(v, String::from_str("-display"));
        if !headless {
            push_text(v, String::from_str("gtk"));
        } else {
            push_text(v, String::from_str("none"));
        }
        assert(texts(v@) =~= start + display_args(headless));
    }

    /// Appends the arguments for the disk images `disks`.
    fn disk_rules(&self, v: &mut Vec<String>, interface: &str, disks: &Vec<String>)
        ensures
            texts(final(v)@) == texts(old(v)@) + disk_args(interface@, texts(disks@)),
    {
        let ghost start = texts(v@);
        let mut x: usize = 0;
        proof {
            assert(texts(disks@).take(0) =~= Seq::<Seq<char>>::empty());
            assert(texts(v@) =~= start + Seq::<Seq<char>>::empty());
        }
        while x < disks.len()
            invariant
                x <= disks.len(),
                texts(v@) == start + disk_args(interface@, texts(disks@).take(x as int)),
            decreases disks.len() - x,
        {
            let ghost done = disk_args(interface@, texts(disks@).take(x as int));
            let mut arg = String::from_str("driver=qcow2,if=");
            arg.append(interface);
            arg.append(",file=");
            arg.append(disks[x].as_str());
            arg.append(",cache=none,media=disk,index=");
            push_decimal(&mut arg, x as u64);
            arg.append(",snapshot=on");
            push_text(v, String::from_str("-drive"));
            push_text(v, arg);
            proof {
                let next = texts(disks@).take(x + 1);
                assert(next.drop_last() == texts(disks@).take(x as int));
                assert(next.last() == disks@[x as int]@);
                assert(arg@ == drive_arg(interface@, disks@[x as int]@, x as nat));
                assert(texts(v@) =~= start + done.push("-drive"@).push(arg@));
            }
            x = x + 1;
        }
        assert(texts(disks@).take(x as int) == texts(disks@));
    }

    /// The command line for `vm`, whose directory holds the disk images
    /// `disks`. An image for the cdrom or the extra drive that was asked
    /// for and was not found stops the launch.
    pub fn args(&self, vm: &VM, disks: &Vec<String>, cdrom_found: bool, extra_found: bool) -> (out:
        Result<Vec<String>, LaunchError>)
        requires
            disks.len() + 3 <= u64::MAX,
        ensures
            out == Err::<Vec<String>, LaunchError>(LaunchError::MissingCdrom) <==> (vm@.cdrom is Some
                && !cdrom_found),
            out == Err::<Vec<String>, LaunchError>(LaunchError::MissingExtraDisk) <==> (!(
            vm@.cdrom is Some && !cdrom_found) && vm@.extra_disk is Some && !extra_found),
            out is Ok <==> (vm@.cdrom is Some ==> cdrom_found) && (vm@.extra_disk is Some
                ==> extra_found),
            out is Ok ==> texts(out->Ok_0@) == launch_args(
                vm@.config.machine,
                vm.port_pairs(),
                joined(joined(self.base(), vm@.name), "mon"@),
                texts(disks@),
                vm@.headless,
                vm@.cdrom,
                vm@.extra_disk,
            ),
    {
        let config = vm.config();
        let cdrom = vm.cdrom();
        let extra = vm.extra_disk();
        if cdrom.is_some() && !cdrom_found {
            return Err(LaunchError::MissingCdrom);
        }
        if extra.is_some() && !extra_found {
            return Err(LaunchError::MissingExtraDisk);
        }
        let mon = self.config.monitor_path(vm);
        let mut v: Vec<String> = Vec::new();
        assert(texts(v@) =~= Seq::<Seq<char>>::empty());
        push_text(&mut v, String::from_str("-nodefaults"));
        push_text(&mut v, String::from_str("-chardev"));
        let mut chardev = String::from_str("socket,server=on,wait=off,id=char0,path=");
        chardev.append(mon.as_str());
        push_text(&mut v, chardev);
        push_text(&mut v, String::from_str("-snapshot"));
        push_text(&mut v, String::from_str("-mon"));
        push_text(&mut v, String::from_str("chardev=char0,mode=control,pretty=on"));
        push_text(&mut v, String::from_str("-machine"));
        push_text(&mut v, String::from_str("accel=kvm"));
        push_text(&mut v, String::from_str("-vga"));
        push_text(&mut v, config.machine.vga.clone());
        push_text(&mut v, String::from_str("-m"));
        let mut memory = String::new();
        push_decimal(&mut memory, config.machine.memory as u64);
        memory.append("M");
        assert(memory@ == decimal(config.machine.memory as nat) + "M"@) by {
            assert(Seq::<char>::empty() + decimal(config.machine.memory as nat) == decimal(
                config.machine.memory as nat,
            ));
        }
        push_text(&mut v, memory);
        push_text(&mut v, String::from_str("-cpu"));
        push_text(&mut v, config.machine.cpu_type.clone());
        push_text(&mut v, String::from_str("-smp"));
        let cpus: u64 = config.machine.cpus as u64;
        let mut smp = String::from_str("cpus=");
        push_decimal(&mut smp, cpus);
        smp.append(",cores=");
        push_decimal(&mut smp, cpus);
        smp.append(",maxcpus=");
        push_decimal(&mut smp, cpus);
        push_text(&mut v, smp);
        push_text(&mut v, String::from_str("-nic"));
        let rules = self.hostfwd_rules(vm);
        let mut nic = String::from_str("user");
        nic.append(rules.as_str());
        push_text(&mut v, nic);
        let ghost head = machine_args(vm@.config.machine, vm.port_pairs(), mon@);
        assert(texts(v@) =~= head);
        self.disk_rules(&mut v, config.machine.image_interface.as_str(), disks);
        self.display_rule(&mut v, vm.headless());
        let count: u64 = disks.len() as u64;
        self.cdrom_rules(&mut v, &cdrom, count + 2);
        self.cdrom_rules(&mut v, &extra, count + 3);
        Ok(v)
    }
}

/// The first of the running machines whose forwards conflict with those of
/// `vm`, by its position.
pub fn first_port_conflict(vm: &VM, running: &Vec<VM>) -> (out: Option<usize>)
    ensures
        match out {
            Some(i) => i < running.len() && ports_conflict(running@[i as int]@.config.ports, vm@.config.ports)
                && forall|j: int|
                0 <= j < i ==> !ports_conflict(
                    (#[trigger] running@[j])@.config.ports,
                    vm@.config.ports,
                ),
            None => forall|j: int|
                0 <= j < running.len() ==> !ports_conflict(
                    (#[trigger] running@[j])@.config.ports,
                    vm@.config.ports,
                ),
        },
{
    let wanted = vm.config();
    let mut i: usize = 0;
    while i < running.len()
        invariant
            i <= running.len(),
            wanted@ == vm@.config,
            forall|j: int|
                0 <= j < i ==> !ports_conflict(
                    (#[trigger] running@[j])@.config.ports,
                    vm@.config.ports,
                ),
        decreases running.len() - i,
    {
        if running[i].config().is_port_conflict(&wanted) {
            return Some(i);
        }
        i = i + 1;
    }
    None
}

/// The refusal shown when `vm` would take a port that `running` holds.
pub fn conflict_message(vm: &str, running: &str) -> (text: String)
    ensures
        text@ == vm@ + " will fail to launch because "@ + running@
            + " already occupies a network port it would use"@,
{
    let mut text = String::from_str(vm);
    text.append(" will fail to launch because ");
    text.append(running);
    text.append(" already occupies a network port it would use");
    text
}

/// What to do next while waiting for the emulator to stop.
#[derive(Debug, Clone, Copy, PartialEq, Eq, Structural)]
pub enum WaitStep {
    /// The process is gone: remove the pid file.
    Finished,
    /// Sleep for one interval and look again; `waited` is the time slept so far
    /// since the last notice, in microseconds.
    Sleep { waited: u64 },
    /// Tell the user that the wait goes on, then sleep and look again.
    Notice,
}

/// The time between two looks at the process, in microseconds.
pub const WAIT_INTERVAL: u64 = 50;

/// The time after which the user is told that the wait goes on, in microseconds.
pub const WAIT_NOTICE: u64 = 10_000_000;

/// One step of the wait for the emulator: `running` says whether the process
/// is still there, `waited` how long the wait has lasted since the last notice.
pub fn wait_step(running: bool, waited: u64) -> (out: WaitStep)
    ensures
        out == (if !running {
            WaitStep::Finished
        } else if waited + WAIT_INTERVAL >= WAIT_NOTICE {
            WaitStep::Notice
        } else {
            WaitStep::Sleep { waited: (waited + WAIT_INTERVAL) as u64 }
        }),
{
    if !running {
        WaitStep::Finished
    } else if waited >= WAIT_NOTICE - WAIT_INTERVAL {
        WaitStep::Notice
    } else {
        WaitStep::Sleep { waited: waited + WAIT_INTERVAL }
    }
}

} // verus!
