//! What the server installs at start-up when developer tools are missing.

use vstd::prelude::*;
use vstd::string::*;

use crate::config::{eq_ignore_ascii_case, eq_ignore_case};

verus! {

/// Whether automatic installation is on: it is unless the setting is `0`,
/// `false`, `off` or `no` (any ASCII case).
pub open spec fn auto_install_on(value: Option<Seq<char>>) -> bool {
    match value {
        None => true,
        Some(v) => !(eq_ignore_case(v, "0"@) || eq_ignore_case(v, "false"@) || eq_ignore_case(
            v,
            "off"@,
        ) || eq_ignore_case(v, "no"@)),
    }
}

pub fn auto_install_enabled(value: Option<&str>) -> (r: bool)
    ensures
        r == auto_install_on(
            match value {
                Some(v) => Some(v@),
                None => None,
            },
        ),
{
    match value {
        None => true,
        Some(v) => !(eq_ignore_ascii_case(v, "0") || eq_ignore_ascii_case(v, "false")
            || eq_ignore_ascii_case(v, "off") || eq_ignore_ascii_case(v, "no")),
    }
}

/// What is already installed.
#[derive(Clone, Copy, Debug)]
pub struct InstalledTools {
    pub xcrun: bool,
    pub adb: bool,
    pub idb: bool,
    pub ffmpeg: bool,
}

/// One step of dependency set-up.
#[derive(Clone, Copy, Debug, PartialEq, Eq, Structural)]
pub enum SetupStep {
    /// Report that automatic installation is switched off, and stop.
    ReportDisabled,
    /// Warn that Xcode command line tools are missing.
    WarnXcrunMissing,
    /// `brew install android-platform-tools`.
    InstallAndroidPlatformTools,
    /// Install `idb-companion` and `fb-idb`.
    InstallIdb,
    /// `brew install ffmpeg`.
    InstallFfmpeg,
}

/// The set-up steps, in order: nothing but a report when installation is off;
/// else a warning for a missing `xcrun`, then an install of each missing tool.
pub open spec fn setup_steps(auto_install: bool, tools: InstalledTools) -> Seq<SetupStep> {
    if !auto_install {
        seq![SetupStep::ReportDisabled]
    } else {
        (if tools.xcrun {
            seq![]
        } else {
            seq![SetupStep::WarnXcrunMissing]
        }) + (if tools.adb {
            seq![]
        } else {
            seq![SetupStep::InstallAndroidPlatformTools]
        }) + (if tools.idb {
            seq![]
        } else {
            seq![SetupStep::InstallIdb]
        }) + (if tools.ffmpeg {
            seq![]
        } else {
            seq![SetupStep::InstallFfmpeg]
        })
    }
}

pub fn setup_plan(auto_install: bool, tools: InstalledTools) -> (r: Vec<SetupStep>)
    ensures
        r@ == setup_steps(auto_install, tools),
{
    let mut v: Vec<SetupStep> = Vec::new();
    if !auto_install {
        v.push(SetupStep::ReportDisabled);
        assert(v@ =~= setup_steps(auto_install, tools));
        return v;
    }
    if !tools.xcrun {
        v.push(SetupStep::WarnXcrunMissing);
    }
    if !tools.adb {
        v.push(SetupStep::InstallAndroidPlatformTools);
    }
    if !tools.idb {
        v.push(SetupStep::InstallIdb);
    }
    if !tools.ffmpeg {
        v.push(SetupStep::InstallFfmpeg);
    }
    assert(v@ =~= setup_steps(auto_install, tools));
    v
}

/// A command of the `idb` installation, and what to say if it fails.
pub struct InstallCommand {
    pub program: &'static str,
    pub args: Vec<String>,
    pub context: &'static str,
}

fn cmd(program: &'static str, args: &[&str], context: &'static str) -> (r: InstallCommand)
    ensures
        r.program == program,
        r.context == context,
        r.args@.len() == args@.len(),
        forall|i: int| 0 <= i < args@.len() ==> #[trigger] r.args@[i]@ == args@[i]@,
{
    let mut v: Vec<String> = Vec::new();
    let mut i: usize = 0;
    while i < args.len()
        invariant
            i <= args@.len(),
            v@.len() == i,
            forall|k: int| 0 <= k < i ==> #[trigger] v@[k]@ == args@[k]@,
        decreases args@.len() - i,
    {
        v.push(String::from_str(args[i]));
        i = i + 1;
    }
    InstallCommand { program, args: v, context }
}

/// The commands that install `idb`, run in order until one fails: tap and
/// trust `facebook/fb`, install `idb-companion`, install `pipx` when it is
/// missing, then `pipx install [--python <python>] fb-idb`.
pub fn idb_install_commands(pipx_available: bool, python: Option<&str>) -> (r: Vec<InstallCommand>)
    ensures
        r@.len() == if pipx_available {
            4int
        } else {
            5int
        },
        r@[0].program@ == "brew"@ && r@[0].args@.len() == 2 && r@[0].args@[0]@ == "tap"@
            && r@[0].args@[1]@ == "facebook/fb"@ && r@[0].context@ == "brew tap facebook/fb failed"@,
        r@[1].program@ == "brew"@ && r@[1].args@.len() == 2 && r@[1].args@[0]@ == "trust"@
            && r@[1].args@[1]@ == "facebook/fb"@ && r@[1].context@ == "brew trust facebook/fb failed"@,
        r@[2].program@ == "brew"@ && r@[2].args@.len() == 2 && r@[2].args@[0]@ == "install"@
            && r@[2].args@[1]@ == "idb-companion"@ && r@[2].context@
            == "brew install idb-companion failed"@,
        !pipx_available ==> r@[3].program@ == "brew"@ && r@[3].args@.len() == 2
            && r@[3].args@[0]@ == "install"@ && r@[3].args@[1]@ == "pipx"@ && r@[3].context@
            == "brew install pipx failed"@,
        ({
            let last = r@.last();
            &&& last.program@ == "pipx"@
            &&& last.context@ == "pipx install fb-idb failed"@
            &&& last.args@[0]@ == "install"@
            &&& match python {
                Some(p) => last.args@.len() == 4 && last.args@[1]@ == "--python"@ && last.args@[2]@
                    == p@ && last.args@[3]@ == "fb-idb"@,
                None => last.args@.len() == 2 && last.args@[1]@ == "fb-idb"@,
            }
        }),
{
    let mut v: Vec<InstallCommand> = Vec::new();
    v.push(cmd("brew", &["tap", "facebook/fb"], "brew tap facebook/fb failed"));
    v.push(cmd("brew", &["trust", "facebook/fb"], "brew trust facebook/fb failed"));
    v.push(cmd("brew", &["install", "idb-companion"], "brew install idb-companion failed"));
    if !pipx_available {
        v.push(cmd("brew", &["install", "pipx"], "brew install pipx failed"));
    }
    let mut args: Vec<String> = Vec::new();
    args.push(String::from_str("install"));
    match python {
        Some(p) => {
            args.push(String::from_str("--python"));
            args.push(String::from_str(p));
        },
        None => {},
    }
    args.push(String::from_str("fb-idb"));
    v.push(InstallCommand { program: "pipx", args, context: "pipx install fb-idb failed" });
    v
}

} // verus!
