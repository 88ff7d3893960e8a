//! A virtual machine as a command sees it: its name, its configuration and
//! what the command line asked for.

use crate::config::Configuration;
use vstd::prelude::*;
use vstd::string::*;

verus! {

/// What watches over a running machine.
#[derive(Debug, Clone, Copy, PartialEq, Eq, Structural)]
pub enum Supervisors {
    /// A unit of the service manager.
    Systemd,
    /// The pid file alone.
    Pid,
}

impl Default for Supervisors {
    fn default() -> (out: Self)
        ensures
            out == Supervisors::Pid,
    {
        Supervisors::Pid
    }
}

impl Supervisors {
    /// Whether the service manager runs the machine.
    pub fn supervised(&self) -> (yes: bool)
        ensures
            yes == (*self == Supervisors::Systemd),
    {
        match self {
            Supervisors::Systemd => true,
            Supervisors::Pid => false,
        }
    }

    /// The supervisor of a machine: the service manager where its unit file
    /// exists, the pid file otherwise.
    pub fn select(unit_exists: bool) -> (out: Self)
        ensures
            out == (if unit_exists {
                Supervisors::Systemd
            } else {
                Supervisors::Pid
            }),
    {
        if unit_exists {
            Supervisors::Systemd
        } else {
            Supervisors::Pid
        }
    }
}

/// A name that cannot be the name of a machine: it holds `..`, a path
/// separator or NUL.
#[derive(Debug, Clone, Copy, PartialEq, Eq, Structural)]
pub struct InvalidName;

impl InvalidName {
    /// The message shown to the user.
    pub fn message(&self) -> (text: String)
        ensures
            text@ == "invalid vm name"@,
    {
        String::from_str("invalid vm name")
    }
}

/// A virtual machine, by name. The name is one component of a path: it
/// holds no `..`, no path separator and no NUL.
#[derive(Debug, PartialEq, Eq)]
pub struct VM {
    name: String,
    cdrom: Option<String>,
    extra_disk: Option<String>,
    config: Configuration,
    headless: bool,
    supervisor: Supervisors,
}

/// What a `VM` holds, as plain values.
pub struct VMView {
    pub name: Seq<char>,
    pub cdrom: Option<Seq<char>>,
    pub extra_disk: Option<Seq<char>>,
    pub config: crate::config::ConfigurationView,
    pub headless: bool,
    pub supervisor: Supervisors,
}

/// The text of an optional string.
pub open spec fn text_of(s: Option<String>) -> Option<Seq<char>> {
    match s {
        Some(s) => Some(s@),
        None => None,
    }
}

impl View for VM {
    type V = VMView;

    closed spec fn view(&self) -> VMView {
        VMView {
            name: self.name@,
            cdrom: text_of(self.cdrom),
            extra_disk: text_of(self.extra_disk),
            config: self.config@,
            headless: self.headless,
            supervisor: self.supervisor,
        }
    }
}

impl Clone for VM {
    fn clone(&self) -> (out: Self)
        ensures
            out@ == self@,
            out.port_pairs() == self.port_pairs(),
    {
        proof {
            use_type_invariant(self);
        }
        VM {
            name: self.name.clone(),
            cdrom: clone_text(&self.cdrom),
            extra_disk: clone_text(&self.extra_disk),
            config: self.config.clone(),
            headless: self.headless,
            supervisor: self.supervisor,
        }
    }
}

fn clone_text(s: &Option<String>) -> (out: Option<String>)
    ensures
        text_of(out) == text_of(*s),
{
    match s {
        Some(s) => Some(s.clone()),
        None => None,
    }
}

impl VM {
    #[verifier::type_invariant]
    spec fn well_formed(self) -> bool {
        crate::util::is_valid_filename(self.name@)
    }

    /// The name of the machine.
    pub open spec fn name_text(&self) -> Seq<char> {
        self@.name
    }

    /// The forwards of the machine in the order in which they are kept.
    pub closed spec fn port_pairs(&self) -> Seq<(u16, u16)> {
        self.config.ports.pairs()
    }

    /// A machine as it is before its files are read: with the default
    /// configuration, watched by its pid file, with a display and without
    /// extra media.
    pub open spec fn fresh(name: Seq<char>) -> VMView {
        VMView {
            name,
            cdrom: None,
            extra_disk: None,
            config: crate::config::ConfigurationView {
                machine: crate::config::default_machine(),
                ports: Map::<u16, u16>::empty(),
            },
            headless: false,
            supervisor: Supervisors::Pid,
        }
    }

    /// What comes of making a machine called `name`: the machine as it is
    /// before its files are read, or a refusal of the name.
    pub open spec fn named(name: Seq<char>) -> Result<VMView, InvalidName> {
        if crate::util::is_valid_filename(name) {
            Ok(Self::fresh(name))
        } else {
            Err(InvalidName)
        }
    }

    /// The machine `name` with the default configuration, watched by its pid
    /// file, with a display and without extra media. A name that holds
    /// `..`, a path separator or NUL names no machine and is refused.
    pub fn new(name: String) -> (out: Result<Self, InvalidName>)
        ensures
            match out {
                Ok(vm) => Self::named(name@) == Ok::<VMView, InvalidName>(vm@) && vm.port_pairs()
                    == Seq::<(u16, u16)>::empty(),
                Err(e) => Self::named(name@) == Err::<VMView, InvalidName>(e),
            },
    {
        if !crate::util::valid_filename(name.as_str()) {
            return Err(InvalidName);
        }
        Ok(
            VM {
                name,
                cdrom: None,
                extra_disk: None,
                config: Configuration::default(),
                headless: false,
                supervisor: Supervisors::Pid,
            },
        )
    }

    /// Says whether the machine runs without a display.
    pub fn set_headless(&mut self, headless: bool)
        ensures
            final(self)@ == (VMView { headless, ..old(self)@ }),
            final(self).port_pairs() == old(self).port_pairs(),
    {
        proof {
            use_type_invariant(&*self);
        }
        self.headless = headless;
    }

    /// Whether the machine runs without a display.
    pub fn headless(&self) -> (out: bool)
        ensures
            out == self@.headless,
    {
        self.headless
    }

    /// The name of the machine, which is one component of a path.
    pub fn name(&self) -> (out: String)
        ensures
            out@ == self@.name,
            crate::util::is_valid_filename(out@),
    {
        proof {
            use_type_invariant(self);
        }
        self.name.clone()
    }

    /// The cdrom image that was asked for, if any.
    pub fn cdrom(&self) -> (out: Option<String>)
        ensures
            text_of(out) == self@.cdrom,
    {
        clone_text(&self.cdrom)
    }

    /// Asks for a cdrom image.
    pub fn set_cdrom(&mut self, cdrom: String)
        ensures
            final(self)@ == (VMView { cdrom: Some(cdrom@), ..old(self)@ }),
            final(self).port_pairs() == old(self).port_pairs(),
    {
        proof {
            use_type_invariant(&*self);
        }
        self.cdrom = Some(cdrom);
    }

    /// The extra image that was asked for, if any.
    pub fn extra_disk(&self) -> (out: Option<String>)
        ensures
            text_of(out) == self@.extra_disk,
    {
        clone_text(&self.extra_disk)
    }

    /// Asks for an extra image.
    pub fn set_extra_disk(&mut self, extra_disk: String)
        ensures
            final(self)@ == (VMView { extra_disk: Some(extra_disk@), ..old(self)@ }),
            final(self).port_pairs() == old(self).port_pairs(),
    {
        proof {
            use_type_invariant(&*self);
        }
        self.extra_disk = Some(extra_disk);
    }

    /// The configuration of the machine.
    pub fn config(&self) -> (out: Configuration)
        ensures
            out@ == self@.config,
            out.ports.pairs() == self.port_pairs(),
    {
        self.config.clone()
    }

    /// Gives the machine another configuration.
    pub fn set_config(&mut self, config: Configuration)
        ensures
            final(self)@ == (VMView { config: config@, ..old(self)@ }),
            final(self).port_pairs() == config.ports.pairs(),
    {
        proof {
            use_type_invariant(&*self);
        }
        self.config = config;
    }

    /// What watches over the machine.
    pub fn supervisor(&self) -> (out: Supervisors)
        ensures
            out == self@.supervisor,
    {
        self.supervisor
    }

    /// Says what watches over the machine.
    pub fn set_supervisor(&mut self, supervisor: Supervisors)
        ensures
            final(self)@ == (VMView { supervisor, ..old(self)@ }),
            final(self).port_pairs() == old(self).port_pairs(),
    {
        proof {
            use_type_invariant(&*self);
        }
        self.supervisor = supervisor;
    }
}

/// A machine comes of a name exactly when the name holds no `..`, no path
/// separator and no NUL, and it then bears that name; every other name is
/// refused.
pub proof fn lemma_name_validity(name: Seq<char>)
    ensures
        VM::named(name) is Ok <==> !crate::util::has_dot_dot(name) && !name.contains('/')
            && !name.contains('\0'),
        VM::named(name) is Ok ==> VM::named(name)->Ok_0.name == name,
        crate::util::has_dot_dot(name) ==> VM::named(name) == Err::<VMView, InvalidName>(InvalidName),
        name.contains('/') ==> VM::named(name) == Err::<VMView, InvalidName>(InvalidName),
        name.contains('\0') ==> VM::named(name) == Err::<VMView, InvalidName>(InvalidName),
{
}

} // verus!
