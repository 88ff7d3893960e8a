//! How a machine is watched over: by its pid file, or by a unit of the
//! service manager, and where such units are kept.

use crate::error::Error;
use crate::storage::{join, joined};
use crate::text::{
    ends_with, has_prefix, has_suffix, parse_decimal, parsed_decimal, starts_with,
    trim_end_matches, trim_start_matches, without_prefixes, without_suffixes,
};
use crate::vm::VM;
use vstd::prelude::*;
use vstd::string::*;

verus! {

/// Where the service manager keeps the units of a user, below the user's
/// configuration directory.
pub const SYSTEMD_USER_DIR: &'static str = "systemd/user";

/// The name of the unit that runs the machine `name`.
pub open spec fn unit_name(name: Seq<char>) -> Seq<char> {
    "emu."@ + name
}

/// The name that a unit file called `filename` stands for, if it is the unit
/// file of a machine.
pub open spec fn unit_machine(filename: Seq<char>) -> Option<Seq<char>> {
    if has_prefix(filename, "emu."@) && has_suffix(filename, ".service"@) {
        Some(without_suffixes(without_prefixes(filename, "emu."@), ".service"@))
    } else {
        None
    }
}

/// The name of the machine whose unit file is called `filename`, if it is one.
pub fn machine_of_unit(filename: &str) -> (out: Option<String>)
    ensures
        match out {
            Some(name) => unit_machine(filename@) == Some(name@),
            None => unit_machine(filename@) is None,
        },
{
    if starts_with(filename, "emu.") && ends_with(filename, ".service") {
        let head = trim_start_matches(filename, "emu.");
        Some(trim_end_matches(head.as_str(), ".service"))
    } else {
        None
    }
}

/// The names of the machines that have a unit file among `filenames`, in
/// the order of the files.
pub open spec fn unit_machines(filenames: Seq<Seq<char>>) -> Seq<Seq<char>>
    decreases filenames.len(),
{
    if filenames.len() == 0 {
        Seq::<Seq<char>>::empty()
    } else {
        match unit_machine(filenames.last()) {
            Some(name) => unit_machines(filenames.drop_last()).push(name),
            None => unit_machines(filenames.drop_last()),
        }
    }
}

/// The process id that a pid file with the contents `text` names.
pub fn pid_from_text(text: &str) -> (out: Option<u32>)
    ensures
        out is Some <==> parsed_decimal(text@, 0xffff_ffff) is Some,
        out is Some ==> out->0 as nat == parsed_decimal(text@, 0xffff_ffff)->0,
{
    parse_decimal(text, 0xffff_ffff)
}

/// The process id to look for, from what was read of a pid file, if anything:
/// a file that is missing or holds no process id names no process, and the
/// machine then counts as not running.
pub fn pid_to_check(contents: &Option<String>) -> (out: Option<u32>)
    ensures
        out is Some <==> (contents is Some && parsed_decimal(contents->0@, 0xffff_ffff) is Some),
        out is Some ==> out->0 as nat == parsed_decimal(contents->0@, 0xffff_ffff)->0,
{
    match contents {
        Some(text) => pid_from_text(text.as_str()),
        None => None,
    }
}

/// The unit files of the service manager.
#[derive(Debug, Clone)]
pub struct SystemdSupervisorStorage {
    basedir: String,
}

impl SystemdSupervisorStorage {
    /// The directory of the unit files.
    pub closed spec fn basedir(&self) -> Seq<char> {
        self.basedir@
    }

    /// The unit files below the user's configuration directory `config_dir`.
    pub fn new(config_dir: &str) -> (out: Self)
        ensures
            out.basedir() == joined(config_dir@, "systemd/user"@),
    {
        Self { basedir: join(config_dir, SYSTEMD_USER_DIR) }
    }

    /// The name of the unit of `vm`.
    pub fn service_name(&self, vm: &VM) -> (out: String)
        ensures
            out@ == unit_name(vm@.name),
    {
        let mut out = String::from_str("emu.");
        out.append(vm.name().as_str());
        out
    }

    /// The unit file of `vm`.
    pub fn service_filename(&self, vm: &VM) -> (out: String)
        ensures
            out@ == joined(self.basedir(), unit_name(vm@.name) + ".service"@),
    {
        let mut file = self.service_name(vm);
        file.append(".service");
        join(self.basedir.as_str(), file.as_str())
    }

    /// The machines that have a unit file among `filenames`, the names
    /// found in the directory of the unit files.
    pub fn list(&self, filenames: &Vec<String>) -> (out: Vec<String>)
        ensures
            crate::text::texts(out@) == unit_machines(crate::text::texts(filenames@)),
    {
        let mut v: Vec<String> = Vec::new();
        let mut i: usize = 0;
        proof {
            assert(crate::text::texts(filenames@).take(0) =~= Seq::<Seq<char>>::empty());
            assert(crate::text::texts(v@) =~= Seq::<Seq<char>>::empty());
        }
        while i < filenames.len()
            invariant
                i <= filenames.len(),
                crate::text::texts(v@) == unit_machines(
                    crate::text::texts(filenames@).take(i as int),
                ),
            decreases filenames.len() - i,
        {
            proof {
                let next = crate::text::texts(filenames@).take(i + 1);
                assert(next.drop_last() == crate::text::texts(filenames@).take(i as int));
                assert(next.last() == filenames@[i as int]@);
            }
            match machine_of_unit(filenames[i].as_str()) {
                Some(name) => {
                    crate::text::push_text(&mut v, name);
                },
                None => {},
            }
            i = i + 1;
        }
        assert(crate::text::texts(filenames@).take(i as int) == crate::text::texts(
            filenames@,
        ));
        v
    }
}

/// The storage of a supervisor that keeps no units.
#[derive(Debug, Clone, Copy, Default)]
pub struct NullSupervisorStorage;

impl NullSupervisorStorage {
    /// The name under which `vm` would be known: its own.
    pub fn service_name(&self, vm: &VM) -> (out: String)
        ensures
            out@ == vm@.name,
    {
        vm.name()
    }

    /// The file that would hold the unit of `vm`: its name.
    pub fn service_filename(&self, vm: &VM) -> (out: String)
        ensures
            out@ == vm@.name,
    {
        vm.name()
    }

    /// There are no units to list.
    pub fn list(&self) -> (out: Result<Vec<String>, Error>)
        ensures
            out is Err,
            out->Err_0@ == "Null storage: cannot list services"@,
    {
        Err(Error::new("Null storage: cannot list services"))
    }

    /// There is no unit to remove.
    pub fn remove(&self, vm: &VM) -> (out: Result<(), Error>)
        ensures
            out is Err,
            out->Err_0@ == "Null storage: cannot remove a service"@,
    {
        Err(Error::new("Null storage: cannot remove a service"))
    }

    /// No unit can be created.
    pub fn create(&self, vm: &VM) -> (out: Result<(), Error>)
        ensures
            out is Err,
            out->Err_0@ == "Null storage: cannot create a service"@,
    {
        Err(Error::new("Null storage: cannot create a service"))
    }
}

/// What is known of whether a machine runs.
#[derive(Debug, Clone, PartialEq, Eq)]
pub enum Activity {
    /// It runs.
    Active,
    /// It does not run.
    Inactive,
    /// The question could not be answered, for this reason.
    Unknown(String),
}

/// The status of a machine in a listing.
pub open spec fn status_text(supervised: bool, activity: Activity, pid: nat) -> Seq<char> {
    if supervised {
        match activity {
            Activity::Active => "supervised: running"@,
            Activity::Inactive => "supervised: not running"@,
            Activity::Unknown(why) => "supervised: could not determine status: "@ + why@,
        }
    } else if activity == Activity::Active {
        "pid: "@ + crate::text::decimal(pid)
    } else {
        "stopped"@
    }
}

/// The status of a machine in a listing, and whether it counts as running.
/// `pid` is the process id of a machine that runs unsupervised.
pub fn status(supervised: bool, activity: &Activity, pid: u32) -> (out: (String, bool))
    ensures
        out.0@ == status_text(supervised, *activity, pid as nat),
        out.1 == (*activity == Activity::Active),
{
    if supervised {
        match activity {
            Activity::Active => (String::from_str("supervised: running"), true),
            Activity::Inactive => (String::from_str("supervised: not running"), false),
            Activity::Unknown(why) => {
                let mut text = String::from_str("supervised: could not determine status: ");
                text.append(why.as_str());
                (text, false)
            },
        }
    } else {
        match activity {
            Activity::Active => {
                let mut text = String::from_str("pid: ");
                crate::text::push_decimal(&mut text, pid as u64);
                (text, true)
            },
            _ => (String::from_str("stopped"), false),
        }
    }
}

} // verus!
