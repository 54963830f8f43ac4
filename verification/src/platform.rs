//! The execution target: the host machine or a container, with the
//! decisions behind its four operations.
//!
//! The operations themselves (copying files, spawning shells, removing a
//! temporary directory, stopping a container) are I/O and are carried out by
//! the embedding program; this module decides, verifiably, what each
//! operation has to do.
use vstd::prelude::*;
use vstd::string::*;

verus! {

/// The host-machine target: work happens under a per-run temporary
/// directory owned by the root runner.
#[derive(Debug, Clone)]
pub struct Machine {
    pub temp_dir: String,
}

/// The container target: the configured image, and the container identity
/// once the embedding program has started it.
#[derive(Debug, Clone)]
pub struct Container {
    pub image: String,
    pub id: Option<String>,
}

/// A uniform interface over the two targets.
#[derive(Debug, Clone)]
pub enum TargetPlatform {
    Machine(Box<Machine>),
    Container(Box<Container>),
}

/// What a single platform operation has to do, as plain data handed to the
/// embedding program.
#[derive(Debug, Clone, PartialEq, Eq)]
pub enum PlatformOp {
    /// Copy a path on the host filesystem.
    HostCopy { from: String, to: String },
    /// Copy a path from the host into the container, or back.
    ContainerCopy { into: bool, from: String, to: String },
    /// Run one command in a host shell rooted at `dir`.
    HostShell { dir: String, command: String },
    /// Run one command inside the container, in `dir` if given.
    ContainerShell { dir: Option<String>, command: String },
    /// Remove the per-run temporary directory.
    RemoveTempDir { path: String },
    /// Stop and remove the container.
    StopContainer,
}

/// Joins a directory and a path with a single separator.
pub fn path_join(dir: &str, name: &str) -> (r: String)
    ensures
        r@ == dir@ + "/"@ + name@,
{
    let mut r = String::from_str(dir);
    r.append("/");
    r.append(name);
    r
}

impl TargetPlatform {
    /// Whether this is the host-machine target.
    pub open spec fn is_machine(&self) -> bool {
        self is Machine
    }

    /// Transfer a path from the host into the target. On the machine the
    /// destination lands under the run's temporary directory root.
    pub fn push(&self, from: &str, to: &str) -> (r: PlatformOp)
        ensures
            self matches TargetPlatform::Machine(m) ==> (r matches PlatformOp::HostCopy {
                from: f,
                to: t,
            } && f@ == from@ && t@ == m.temp_dir@ + "/"@ + to@),
            self is Container ==> (r matches PlatformOp::ContainerCopy { into, from: f, to: t }
                && into && f@ == from@ && t@ == to@),
    {
        match self {
            TargetPlatform::Machine(m) => PlatformOp::HostCopy {
                from: String::from_str(from),
                to: path_join(m.temp_dir.as_str(), to),
            },
            TargetPlatform::Container(_) => PlatformOp::ContainerCopy {
                into: true,
                from: String::from_str(from),
                to: String::from_str(to),
            },
        }
    }

    /// Transfer a path out of the target back to the host; the inverse of
    /// `push`, so on the machine the source is under the temporary directory.
    pub fn get(&self, from: &str, to: &str) -> (r: PlatformOp)
        ensures
            self matches TargetPlatform::Machine(m) ==> (r matches PlatformOp::HostCopy {
                from: f,
                to: t,
            } && f@ == m.temp_dir@ + "/"@ + from@ && t@ == to@),
            self is Container ==> (r matches PlatformOp::ContainerCopy { into, from: f, to: t }
                && !into && f@ == from@ && t@ == to@),
    {
        match self {
            TargetPlatform::Machine(m) => PlatformOp::HostCopy {
                from: path_join(m.temp_dir.as_str(), from),
                to: String::from_str(to),
            },
            TargetPlatform::Container(_) => PlatformOp::ContainerCopy {
                into: false,
                from: String::from_str(from),
                to: String::from_str(to),
            },
        }
    }

    /// Run one command: on the machine in `working_dir` if given, otherwise
    /// in the temporary directory; in the container with `working_dir`
    /// respected.
    pub fn shell(&self, working_dir: &Option<String>, command: &str) -> (r: PlatformOp)
        ensures
            self matches TargetPlatform::Machine(m) ==> (r matches PlatformOp::HostShell {
                dir,
                command: c,
            } && c@ == command@ && dir@ == (match working_dir {
                Option::Some(w) => w@,
                Option::None => m.temp_dir@,
            })),
            self is Container ==> (r matches PlatformOp::ContainerShell { dir, command: c } && c@
                == command@ && crate::pipeline::opt_view(dir) == crate::pipeline::opt_view(
                *working_dir,
            )),
    {
        match self {
            TargetPlatform::Machine(m) => {
                let dir = match working_dir {
                    Option::Some(w) => String::from_str(w.as_str()),
                    Option::None => String::from_str(m.temp_dir.as_str()),
                };
                PlatformOp::HostShell { dir, command: String::from_str(command) }
            },
            TargetPlatform::Container(_) => {
                let dir = match working_dir {
                    Option::Some(w) => Option::Some(String::from_str(w.as_str())),
                    Option::None => Option::None,
                };
                PlatformOp::ContainerShell { dir, command: String::from_str(command) }
            },
        }
    }

    /// Release the target's resources. A child runner never removes the
    /// temporary directory: the whole run shares it and the root owns it.
    /// A container is stopped unconditionally, since each runner frame owns
    /// the container it started.
    pub fn dispose(&self, in_child_runner: bool) -> (r: Option<PlatformOp>)
        ensures
            self.is_machine() && in_child_runner ==> r is None,
            self matches TargetPlatform::Machine(m) ==> (in_child_runner || (r matches Option::Some(
                op,
            ) && op matches PlatformOp::RemoveTempDir { path } && path@ == m.temp_dir@)),
            self is Container ==> r == Option::Some(PlatformOp::StopContainer),
    {
        match self {
            TargetPlatform::Machine(m) => {
                if in_child_runner {
                    Option::None
                } else {
                    Option::Some(
                        PlatformOp::RemoveTempDir { path: String::from_str(m.temp_dir.as_str()) },
                    )
                }
            },
            TargetPlatform::Container(_) => Option::Some(PlatformOp::StopContainer),
        }
    }
}

/// The target selector as the earlier command-line runner names it.
#[derive(Debug, Clone)]
pub enum RunPlatform {
    Local(Machine),
    Docker(Container),
}

impl RunPlatform {
    /// The display text of the selector: `machine`, or `docker [ <image> ]`.
    pub fn display_string(&self) -> (r: String)
        ensures
            self is Local ==> r@ == "machine"@,
            self matches RunPlatform::Docker(c) ==> r@ == "docker [ "@ + c.image@ + " ]"@,
    {
        match self {
            RunPlatform::Local(_) => String::from_str("machine"),
            RunPlatform::Docker(c) => {
                let mut r = String::from_str("docker [ ");
                r.append(c.image.as_str());
                r.append(" ]");
                r
            },
        }
    }
}

} // verus!
