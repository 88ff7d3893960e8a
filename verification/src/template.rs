//! The unit file with which the service manager runs a machine.

use crate::error::Error;
use crate::vm::VM;
use vstd::prelude::*;
use vstd::string::*;

verus! {

/// The program named in a unit file when the running program cannot be found.
pub const EMU_DEFAULT_PATH: &'static str = "/bin/emu";

/// The unit file, with the places for the name of the machine and for the
/// path of this program.
pub const SYSTEMD_UNIT: &'static str = "
[Unit]
Description=Virtual Machine: {vm_name}

[Service]
Type=simple
ExecStart={emu_path} run -e {vm_name}
TimeoutStopSec=30
ExecStop={emu_path} shutdown {vm_name}
KillSignal=SIGCONT
FinalKillSignal=SIGKILL

[Install]
WantedBy=default.target
";

/// What stands for the character `c` where a value is filled into a
/// template: the five characters that mark up HTML are written as entities.
pub open spec fn escaped_char(c: char) -> Seq<char> {
    if c == '<' {
        "&lt;"@
    } else if c == '>' {
        "&gt;"@
    } else if c == '&' {
        "&amp;"@
    } else if c == '\'' {
        "&#39;"@
    } else if c == '"' {
        "&quot;"@
    } else {
        seq![c]
    }
}

/// The text `s` as it is filled into a template.
pub open spec fn escaped(s: Seq<char>) -> Seq<char>
    decreases s.len(),
{
    if s.len() == 0 {
        Seq::<char>::empty()
    } else {
        escaped(s.drop_last()) + escaped_char(s.last())
    }
}

/// The unit file with `vm_name` and `emu_path` written in their places.
pub open spec fn unit_text(vm_name: Seq<char>, emu_path: Seq<char>) -> Seq<char> {
    "\n[Unit]\nDescription=Virtual Machine: "@ + vm_name
        + "\n\n[Service]\nType=simple\nExecStart="@ + emu_path + " run -e "@ + vm_name
        + "\nTimeoutStopSec=30\nExecStop="@ + emu_path + " shutdown "@ + vm_name
        + "\nKillSignal=SIGCONT\nFinalKillSignal=SIGKILL\n\n[Install]\nWantedBy=default.target\n"@
}

/// The path of the program that a unit runs: that of the running program
/// where it is known.
pub open spec fn unit_program(current_exe: Option<String>) -> Seq<char> {
    match current_exe {
        Some(path) => path@,
        None => "/bin/emu"@,
    }
}

/// `TinyTemplate::add_template` and `TinyTemplate::render` of tinytemplate on
/// a context with the two values `vm_name` and `emu_path`, for the unit
/// template only. That template holds places for these two values and
/// nothing else that the template language acts on, so it is always
/// rendered: its text comes back with each value in each of its places, the
/// value escaped as the default formatter of the crate escapes a string.
#[verifier::external_body]
fn render(template: &str, vm_name: &str, emu_path: &str) -> (out: Result<String, String>)
    requires
        template@ == SYSTEMD_UNIT@,
    ensures
        out is Ok,
        out->Ok_0@ == unit_text(escaped(vm_name@), escaped(emu_path@)),
{
    let mut t = tinytemplate::TinyTemplate::new();
    if let Err(e) = t.add_template("systemd", template) {
        return Err(e.to_string());
    }
    let mut data = std::collections::BTreeMap::new();
    data.insert("vm_name", vm_name);
    data.insert("emu_path", emu_path);
    match t.render("systemd", &data) {
        Ok(text) => Ok(text),
        Err(e) => Err(e.to_string()),
    }
}

/// What fills the places of the unit file.
#[derive(Debug, Clone)]
pub struct Data {
    vm_name: String,
    emu_path: String,
}

impl Data {
    /// The name of the machine.
    pub closed spec fn vm_name(&self) -> Seq<char> {
        self.vm_name@
    }

    /// The path of the program that the unit runs.
    pub closed spec fn emu_path(&self) -> Seq<char> {
        self.emu_path@
    }

    /// The data for the machine `vm_name`; `current_exe` is the path of the
    /// running program where it is known.
    pub fn new(vm_name: String, current_exe: Option<String>) -> (out: Self)
        ensures
            out.vm_name() == vm_name@,
            out.emu_path() == (match current_exe {
                Some(path) => path@,
                None => "/bin/emu"@,
            }),
    {
        Self {
            vm_name,
            emu_path: match current_exe {
                Some(path) => path,
                None => String::from_str(EMU_DEFAULT_PATH),
            },
        }
    }
}

/// The renderer of unit files.
#[derive(Debug, Clone, Copy, Default)]
pub struct Systemd;

impl Systemd {
    /// The unit file from `data`: the name of the machine and the path of
    /// the program stand in their places, escaped.
    pub fn render(&self, data: &Data) -> (out: Result<String, Error>)
        ensures
            out is Ok,
            out->Ok_0@ == unit_text(escaped(data.vm_name()), escaped(data.emu_path())),
    {
        match render(SYSTEMD_UNIT, data.vm_name.as_str(), data.emu_path.as_str()) {
            Ok(text) => Ok(text),
            Err(e) => Err(Error::new(e.as_str())),
        }
    }

    /// The unit file for `vm`; `current_exe` is the path of the running
    /// program where it is known.
    pub fn template(&self, vm: &VM, current_exe: Option<String>) -> (out: Result<String, Error>)
        ensures
            out is Ok,
            out->Ok_0@ == unit_text(escaped(vm@.name), escaped(unit_program(current_exe))),
    {
        let data = Data::new(vm.name(), current_exe);
        self.render(&data)
    }
}

/// The unit template is the unit file with the two places written out.
pub proof fn lemma_unit_template()
    ensures
        SYSTEMD_UNIT@ == unit_text("{vm_name}"@, "{emu_path}"@),
{
    reveal_strlit("
[Unit]
Description=Virtual Machine: {vm_name}

[Service]
Type=simple
ExecStart={emu_path} run -e {vm_name}
TimeoutStopSec=30
ExecStop={emu_path} shutdown {vm_name}
KillSignal=SIGCONT
FinalKillSignal=SIGKILL

[Install]
WantedBy=default.target
");
    reveal_strlit("{vm_name}");
    reveal_strlit("{emu_path}");
    reveal_strlit("\n[Unit]\nDescription=Virtual Machine: ");
    reveal_strlit("\n\n[Service]\nType=simple\nExecStart=");
    reveal_strlit(" run -e ");
    reveal_strlit("\nTimeoutStopSec=30\nExecStop=");
    reveal_strlit(" shutdown ");
    reveal_strlit(
        "\nKillSignal=SIGCONT\nFinalKillSignal=SIGKILL\n\n[Install]\nWantedBy=default.target\n",
    );
    assert(SYSTEMD_UNIT@ =~= unit_text("{vm_name}"@, "{emu_path}"@));
}

} // verus!
