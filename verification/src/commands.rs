//! What the commands show and decide, apart from the work they start.

use crate::config::{machine_with, ports_conflict, ConfigError};
use crate::error::Error;
use crate::launcher::{conflict_message, first_port_conflict};
use crate::util::{is_valid_filename, valid_filename};
use crate::vm::{Supervisors, VMView, VM};
use crate::text::{
    push_text, texts, trim_end_matches, trim_start_matches, without_prefixes, without_suffixes,
};
use vstd::prelude::*;
use vstd::string::*;

verus! {

/// The text of a size in bytes, in the decimal unit that suits it.
pub uninterp spec fn size_text(bytes: u64) -> Seq<char>;

/// `Byte::from_u64` and `Byte::get_appropriate_unit` of byte_unit with
/// decimal units, shown through `Display` with a precision of two. The text
/// depends on the number alone; it is only named here.
#[verifier::external_body]
fn size_label(bytes: u64) -> (out: String)
    ensures
        out@ == size_text(bytes),
{
    let size = byte_unit::Byte::from_u64(bytes);
    format!("{:.2}", size.get_appropriate_unit(byte_unit::UnitType::Decimal))
}

/// The line of a listing for one machine.
pub open spec fn listing(name: Seq<char>, status: Seq<char>, size: Seq<char>) -> Seq<char> {
    name + " ("@ + status + ") (size: "@ + size + ")"@
}

/// The line of a listing from the name of a machine, its status and the
/// text of its size.
pub fn list_line(name: &str, status: &str, size: &str) -> (out: String)
    ensures
        out@ == listing(name@, status@, size@),
{
    let mut out = String::from_str(name);
    out.append(" (");
    out.append(status);
    out.append(") (size: ");
    out.append(size);
    out.append(")");
    out
}

/// The line of a listing for a machine whose files take `bytes` bytes.
pub fn list_entry(name: &str, status: &str, bytes: u64) -> (out: String)
    ensures
        out@ == listing(name@, status@, size_text(bytes)),
{
    let size = size_label(bytes);
    list_line(name, status, size.as_str())
}

/// Whether a machine is shown: every machine, or only those that run.
pub fn is_listed(running_only: bool, is_running: bool) -> (out: bool)
    ensures
        out == (!running_only || is_running),
{
    !running_only || is_running
}

/// The id of a disk, from the name of its image file: without the prefix
/// of image files, their format and the dot before it.
pub open spec fn disk_id_of(file_name: Seq<char>) -> Seq<char> {
    without_suffixes(without_suffixes(without_prefixes(file_name, "qemu-"@), "qcow2"@), "."@)
}

/// The id under which the image file `file_name` is shown and removed.
pub fn disk_id(file_name: &str) -> (out: String)
    ensures
        out@ == disk_id_of(file_name@),
{
    let a = trim_start_matches(file_name, "qemu-");
    let b = trim_end_matches(a.as_str(), "qcow2");
    trim_end_matches(b.as_str(), ".")
}

/// The length of the longest of `names`.
pub open spec fn widest(names: Seq<Seq<char>>) -> nat
    decreases names.len(),
{
    if names.len() == 0 {
        0
    } else if names.last().len() > widest(names.drop_last()) {
        names.last().len()
    } else {
        widest(names.drop_last())
    }
}

/// `name` filled up with spaces to `width` characters.
pub open spec fn padded(name: Seq<char>, width: nat) -> Seq<char> {
    if name.len() >= width {
        name
    } else {
        name + Seq::new((width - name.len()) as nat, |i: int| ' ')
    }
}

/// The labels of the progress bars of a clone: the names, all as wide as
/// the widest.
pub fn descriptions(names: &Vec<String>) -> (out: Vec<String>)
    ensures
        out.len() == names.len(),
        forall|i: int|
            0 <= i < names.len() ==> (#[trigger] out@[i])@ == padded(
                names@[i]@,
                widest(texts(names@)),
            ),
{
    let mut len: usize = 0;
    let mut i: usize = 0;
    assert(texts(names@).take(0) =~= Seq::<Seq<char>>::empty());
    while i < names.len()
        invariant
            i <= names.len(),
            len == widest(texts(names@).take(i as int)),
        decreases names.len() - i,
    {
        proof {
            let next = texts(names@).take(i + 1);
            assert(next.drop_last() == texts(names@).take(i as int));
            assert(next.last() == names@[i as int]@);
        }
        let l: usize = names[i].as_str().unicode_len();
        if l > len {
            len = l;
        }
        i = i + 1;
    }
    assert(texts(names@).take(i as int) == texts(names@));
    let mut out: Vec<String> = Vec::new();
    let mut k: usize = 0;
    while k < names.len()
        invariant
            k <= names.len(),
            out.len() == k,
            len == widest(texts(names@)),
            forall|j: int| 0 <= j < k ==> (#[trigger] out@[j])@ == padded(names@[j]@, len as nat),
        decreases names.len() - k,
    {
        let mut s = names[k].clone();
        let l: usize = names[k].as_str().unicode_len();
        let mut fill: usize = l;
        assert(s@ =~= names@[k as int]@ + Seq::new(0nat, |i: int| ' '));
        while fill < len
            invariant
                l <= fill,
                fill <= len || fill == l,
                l == names@[k as int]@.len(),
                s@ == names@[k as int]@ + Seq::new((fill - l) as nat, |i: int| ' '),
            decreases len - fill,
        {
            s.push(' ');
            assert(s@ =~= names@[k as int]@ + Seq::new((fill + 1 - l) as nat, |i: int| ' '));
            fill = fill + 1;
        }
        proof {
            if l >= len {
                assert(s@ =~= names@[k as int]@);
            } else {
                assert(fill == len);
            }
        }
        out.push(s);
        k = k + 1;
    }
    out
}

/// Checks whether a machine can be made: a new machine must not exist yet
/// and needs a name that can be a directory; a disk is added to any machine.
/// Says whether the directory of the machine has to be made.
pub fn create_plan(append: bool, exists: bool, name: &str) -> (out: Result<bool, Error>)
    ensures
        out is Ok <==> (append || (!exists && is_valid_filename(name@))),
        out is Ok ==> out->Ok_0 == !append,
        out is Err ==> out->Err_0@ == (if exists {
            "vm already exists"@
        } else {
            "filename contains invalid characters"@
        }),
{
    if !append {
        if exists {
            return Err(Error::new("vm already exists"));
        }
        if !valid_filename(name) {
            return Err(Error::new("filename contains invalid characters"));
        }
        Ok(true)
    } else {
        Ok(false)
    }
}

/// Refuses to work on a machine that does not exist.
pub fn require_existing(exists: bool) -> (out: Result<(), Error>)
    ensures
        out is Ok <==> exists,
        out is Err ==> out->Err_0@ == "vm doesn't exist"@,
{
    if exists {
        Ok(())
    } else {
        Err(Error::new("vm doesn't exist"))
    }
}

/// Refuses to make a machine that exists already.
pub fn require_absent(exists: bool) -> (out: Result<(), Error>)
    ensures
        out is Ok <==> !exists,
        out is Err ==> out->Err_0@ == "vm already exists"@,
{
    if exists {
        Err(Error::new("vm already exists"))
    } else {
        Ok(())
    }
}

/// No machine of `running` forwards a host port that `wanted` forwards too.
pub open spec fn ports_free(running: Seq<VM>, wanted: Map<u16, u16>) -> bool {
    forall|j: int|
        0 <= j < running.len() ==> !ports_conflict((#[trigger] running[j])@.config.ports, wanted)
}

/// The check before a launch. A machine that is to run attached is refused
/// while one of the machines in `running` holds a host port that it
/// forwards; the refusal names both machines, the first such machine of
/// `running`. A detached launch is not checked.
pub fn run_check(vm: &VM, running: &Vec<VM>, detach: bool) -> (out: Result<(), Error>)
    ensures
        out is Ok <==> (detach || ports_free(running@, vm@.config.ports)),
        out is Err ==> exists|i: int|
            0 <= i < running.len() && ports_conflict(
                (#[trigger] running@[i])@.config.ports,
                vm@.config.ports,
            ) && ports_free(running@.take(i), vm@.config.ports) && out->Err_0@ == vm@.name
                + " will fail to launch because "@ + running@[i]@.name
                + " already occupies a network port it would use"@,
{
    if detach {
        return Ok(());
    }
    match first_port_conflict(vm, running) {
        Some(i) => {
            let text = conflict_message(vm.name().as_str(), running[i].name().as_str());
            assert(ports_free(running@.take(i as int), vm@.config.ports)) by {
                assert forall|j: int| 0 <= j < running@.take(i as int).len() implies !ports_conflict(
                    (#[trigger] running@.take(i as int)[j])@.config.ports,
                    vm@.config.ports,
                ) by {
                    assert(running@.take(i as int)[j] == running@[j]);
                }
            }
            Err(Error::new(text.as_str()))
        },
        None => Ok(()),
    }
}

/// The machine `vm` with `value` stored under the setting `key`.
pub fn config_set(vm: &VM, key: &str, value: &str) -> (out: Result<VM, ConfigError>)
    ensures
        out is Ok <==> crate::config::is_machine_key(key@) && crate::config::value_fits(
            key@,
            value@,
        ),
        out is Ok ==> out->Ok_0@ == (VMView {
            config: crate::config::ConfigurationView {
                machine: machine_with(vm@.config.machine, key@, value@),
                ports: vm@.config.ports,
            },
            ..vm@
        }),
        out is Err ==> out->Err_0 == (if !crate::config::is_machine_key(key@) {
            ConfigError::UnknownKey
        } else {
            ConfigError::InvalidNumber
        }),
{
    let mut vm = vm.clone();
    let mut config = vm.config();
    match config.set_machine_value(key, value) {
        Ok(()) => {
            vm.set_config(config);
            Ok(vm)
        },
        Err(e) => Err(e),
    }
}

/// The machine `vm` with the host port forwarded to the guest port.
pub fn port_map(vm: &VM, hostport: u16, guestport: u16) -> (out: VM)
    ensures
        out@ == (VMView {
            config: crate::config::ConfigurationView {
                machine: vm@.config.machine,
                ports: vm@.config.ports.insert(hostport, guestport),
            },
            ..vm@
        }),
{
    let mut vm = vm.clone();
    let mut config = vm.config();
    config.map_port(hostport, guestport);
    vm.set_config(config);
    vm
}

/// The machine `vm` without a forward of the host port.
pub fn port_unmap(vm: &VM, hostport: u16) -> (out: VM)
    ensures
        out@ == (VMView {
            config: crate::config::ConfigurationView {
                machine: vm@.config.machine,
                ports: vm@.config.ports.remove(hostport),
            },
            ..vm@
        }),
{
    let mut vm = vm.clone();
    let mut config = vm.config();
    config.unmap_port(hostport);
    vm.set_config(config);
    vm
}

/// The machine `vm` as a launch has it: with or without a display, and with
/// the media that were asked for in place of those it had.
pub fn launch_options(
    vm: &VM,
    headless: bool,
    cdrom: Option<String>,
    extra_disk: Option<String>,
) -> (out: VM)
    ensures
        out@ == (VMView {
            headless,
            cdrom: match cdrom {
                Some(path) => Some(path@),
                None => vm@.cdrom,
            },
            extra_disk: match extra_disk {
                Some(path) => Some(path@),
                None => vm@.extra_disk,
            },
            ..vm@
        }),
        out.port_pairs() == vm.port_pairs(),
{
    let mut vm = vm.clone();
    vm.set_headless(headless);
    match cdrom {
        Some(path) => {
            vm.set_cdrom(path);
        },
        None => {},
    }
    match extra_disk {
        Some(path) => {
            vm.set_extra_disk(path);
        },
        None => {},
    }
    vm
}

/// The machine `to` with the configuration of `from`.
pub fn config_copy(from: &VM, to: &VM) -> (out: VM)
    ensures
        out@ == (VMView { config: from@.config, ..to@ }),
{
    let mut to = to.clone();
    to.set_config(from.config());
    to
}

/// The address on this host at which the guest port behind the forwarded
/// host port `port` of `vm` is reached; none where `port` is not forwarded.
pub fn nc_target(vm: &VM, port: u16) -> (out: Option<String>)
    ensures
        out is Some <==> vm@.config.ports.contains_key(port),
        out is Some ==> out->0@ == "127.0.0.1:"@ + crate::text::decimal(port as nat),
{
    let config = vm.config();
    if config.ports.contains_key(port) {
        let mut out = String::from_str("127.0.0.1:");
        crate::text::push_decimal(&mut out, port as u64);
        Some(out)
    } else {
        None
    }
}

/// The arguments of the secure shell that reaches the guest of `vm`,
/// followed by those that the user gave.
pub fn ssh_args(vm: &VM, args: &Vec<String>) -> (out: Vec<String>)
    ensures
        texts(out@) == seq![
            "-p"@,
            crate::text::decimal(vm@.config.machine.ssh_port as nat),
            "localhost"@,
        ] + texts(args@),
{
    let config = vm.config();
    let mut v: Vec<String> = Vec::new();
    assert(texts(v@) =~= Seq::<Seq<char>>::empty());
    push_text(&mut v, String::from_str("-p"));
    push_text(&mut v, crate::text::decimal_string(config.machine.ssh_port as u64));
    push_text(&mut v, String::from_str("localhost"));
    let ghost head = texts(v@);
    assert(head =~= seq![
        "-p"@,
        crate::text::decimal(vm@.config.machine.ssh_port as nat),
        "localhost"@,
    ]);
    let mut i: usize = 0;
    assert(texts(args@).take(0) =~= Seq::<Seq<char>>::empty());
    assert(texts(v@) =~= head + texts(args@).take(0));
    while i < args.len()
        invariant
            i <= args.len(),
            texts(v@) == head + texts(args@).take(i as int),
        decreases args.len() - i,
    {
        push_text(&mut v, args[i].clone());
        assert(texts(args@).take(i + 1) == texts(args@).take(i as int).push(args@[i as int]@));
        assert(texts(v@) =~= head + texts(args@).take(i + 1));
        i = i + 1;
    }
    assert(texts(args@).take(i as int) == texts(args@));
    v
}

/// The arguments with which the service manager is asked whether the unit
/// `service` runs.
pub fn is_active_args(service: &str) -> (out: Vec<String>)
    ensures
        texts(out@) == seq!["--user"@, "is-active"@, service@, "-q"@],
{
    let mut v: Vec<String> = Vec::new();
    assert(texts(v@) =~= Seq::<Seq<char>>::empty());
    push_text(&mut v, String::from_str("--user"));
    push_text(&mut v, String::from_str("is-active"));
    push_text(&mut v, String::from_str(service));
    push_text(&mut v, String::from_str("-q"));
    assert(texts(v@) =~= seq!["--user"@, "is-active"@, service@, "-q"@]);
    v
}

/// The arguments with which a supervisor of this kind has its units read
/// again; a pid file has none to read.
pub fn reload_args(kind: Supervisors) -> (out: Result<Vec<String>, Error>)
    ensures
        out is Ok <==> kind == Supervisors::Systemd,
        out is Ok ==> texts(out->Ok_0@) == seq!["--user"@, "daemon-reload"@],
        out is Err ==> out->Err_0@ == "PIDs cannot be reloaded"@,
{
    match kind {
        Supervisors::Systemd => {
            let mut v: Vec<String> = Vec::new();
            assert(texts(v@) =~= Seq::<Seq<char>>::empty());
            push_text(&mut v, String::from_str("--user"));
            push_text(&mut v, String::from_str("daemon-reload"));
            assert(texts(v@) =~= seq!["--user"@, "daemon-reload"@]);
            Ok(v)
        },
        Supervisors::Pid => Err(Error::new("PIDs cannot be reloaded")),
    }
}

/// What is said of whether the machine `name` runs.
pub fn activity_line(name: &str, active: bool) -> (out: String)
    ensures
        out@ == name@ + (if active {
            " is active"@
        } else {
            " is not active"@
        }),
{
    let mut out = String::from_str(name);
    if active {
        out.append(" is active");
    } else {
        out.append(" is not active");
    }
    out
}

} // verus!
