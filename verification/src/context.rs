//! The marker files that the probes look at, and a snapshot of their state.
//!
//! The library reads no file itself. Whoever renders the status line looks
//! at each marker once, under whatever root it likes, and records what it
//! found in a [`Context`].

use vstd::prelude::*;

verus! {

/// A well-known path whose existence or content tells of a sandbox.
#[derive(Clone, Copy, Debug, PartialEq, Eq, Structural)]
pub enum Marker {
    /// `/proc/vz`
    ProcVz,
    /// `/proc/bc`
    ProcBc,
    /// `/run/host/container-manager`
    ContainerManager,
    /// `/run/.containerenv`
    ContainerEnv,
    /// `/run/systemd/container`
    SystemdContainer,
    /// `/.dockerenv`
    DockerEnv,
}

impl Marker {
    /// The marker's path below the root of the file system.
    pub open spec fn path_text(self) -> Seq<char> {
        match self {
            Marker::ProcVz => "/proc/vz"@,
            Marker::ProcBc => "/proc/bc"@,
            Marker::ContainerManager => "/run/host/container-manager"@,
            Marker::ContainerEnv => "/run/.containerenv"@,
            Marker::SystemdContainer => "/run/systemd/container"@,
            Marker::DockerEnv => "/.dockerenv"@,
        }
    }

    /// Whether a probe reads the marker's content, not only its existence.
    pub open spec fn is_read(self) -> bool {
        self == Marker::ContainerEnv || self == Marker::SystemdContainer
    }

    /// The marker's path below the root of the file system.
    pub fn path(&self) -> (p: &'static str)
        ensures
            p@ == self.path_text(),
    {
        match self {
            Marker::ProcVz => "/proc/vz",
            Marker::ProcBc => "/proc/bc",
            Marker::ContainerManager => "/run/host/container-manager",
            Marker::ContainerEnv => "/run/.containerenv",
            Marker::SystemdContainer => "/run/systemd/container",
            Marker::DockerEnv => "/.dockerenv",
        }
    }

    /// Tells whether a probe reads the marker's content.
    pub fn needs_content(&self) -> (b: bool)
        ensures
            b == self.is_read(),
    {
        match self {
            Marker::ContainerEnv => true,
            Marker::SystemdContainer => true,
            _ => false,
        }
    }

    /// Every marker, in the order in which the probes first look at them.
    pub fn all() -> (ms: Vec<Marker>)
        ensures
            ms@ == seq![
                Marker::ProcVz,
                Marker::ProcBc,
                Marker::ContainerManager,
                Marker::ContainerEnv,
                Marker::SystemdContainer,
                Marker::DockerEnv,
            ],
    {
        let mut ms: Vec<Marker> = Vec::new();
        ms.push(Marker::ProcVz);
        ms.push(Marker::ProcBc);
        ms.push(Marker::ContainerManager);
        ms.push(Marker::ContainerEnv);
        ms.push(Marker::SystemdContainer);
        ms.push(Marker::DockerEnv);
        ms
    }
}

/// What was found at a marker's path.
#[derive(Debug, PartialEq, Eq)]
pub enum FileState {
    /// Nothing is there.
    Absent,
    /// Something is there, and it was not read or could not be read as text.
    Unreadable,
    /// A file is there, with this text.
    Text(String),
}

/// A [`FileState`] as the contracts see it.
pub enum FileView {
    Absent,
    Unreadable,
    Text(Seq<char>),
}

impl FileView {
    /// Whether anything is at the path.
    pub open spec fn is_present(self) -> bool {
        !(self is Absent)
    }

    /// The text read from the path, if it could be read.
    pub open spec fn text(self) -> Option<Seq<char>> {
        match self {
            FileView::Text(t) => Some(t),
            _ => None,
        }
    }
}

impl View for FileState {
    type V = FileView;

    open spec fn view(&self) -> FileView {
        match self {
            FileState::Absent => FileView::Absent,
            FileState::Unreadable => FileView::Unreadable,
            FileState::Text(t) => FileView::Text(t@),
        }
    }
}

/// The state of every marker, as the contracts see a [`Context`].
pub struct Files {
    pub proc_vz: FileView,
    pub proc_bc: FileView,
    pub container_manager: FileView,
    pub container_env: FileView,
    pub systemd_container: FileView,
    pub docker_env: FileView,
}

impl Files {
    /// A file system that holds none of the markers.
    pub open spec fn empty() -> Files {
        Files {
            proc_vz: FileView::Absent,
            proc_bc: FileView::Absent,
            container_manager: FileView::Absent,
            container_env: FileView::Absent,
            systemd_container: FileView::Absent,
            docker_env: FileView::Absent,
        }
    }

    /// The state of one marker.
    pub open spec fn at(self, marker: Marker) -> FileView {
        match marker {
            Marker::ProcVz => self.proc_vz,
            Marker::ProcBc => self.proc_bc,
            Marker::ContainerManager => self.container_manager,
            Marker::ContainerEnv => self.container_env,
            Marker::SystemdContainer => self.systemd_container,
            Marker::DockerEnv => self.docker_env,
        }
    }

    /// The same file system with one marker in another state.
    pub open spec fn with(self, marker: Marker, state: FileView) -> Files {
        match marker {
            Marker::ProcVz => Files { proc_vz: state, ..self },
            Marker::ProcBc => Files { proc_bc: state, ..self },
            Marker::ContainerManager => Files { container_manager: state, ..self },
            Marker::ContainerEnv => Files { container_env: state, ..self },
            Marker::SystemdContainer => Files { systemd_container: state, ..self },
            Marker::DockerEnv => Files { docker_env: state, ..self },
        }
    }
}

/// A snapshot of the marker files, taken once for one rendering.
#[derive(Debug, PartialEq, Eq)]
pub struct Context {
    proc_vz: FileState,
    proc_bc: FileState,
    container_manager: FileState,
    container_env: FileState,
    systemd_container: FileState,
    docker_env: FileState,
}

impl View for Context {
    type V = Files;

    closed spec fn view(&self) -> Files {
        Files {
            proc_vz: self.proc_vz@,
            proc_bc: self.proc_bc@,
            container_manager: self.container_manager@,
            container_env: self.container_env@,
            systemd_container: self.systemd_container@,
            docker_env: self.docker_env@,
        }
    }
}

impl Context {
    /// A snapshot in which no marker exists.
    pub fn new() -> (c: Context)
        ensures
            c@ == Files::empty(),
    {
        Context {
            proc_vz: FileState::Absent,
            proc_bc: FileState::Absent,
            container_manager: FileState::Absent,
            container_env: FileState::Absent,
            systemd_container: FileState::Absent,
            docker_env: FileState::Absent,
        }
    }

    /// Records what was found at `marker`.
    pub fn set(&mut self, marker: Marker, state: FileState)
        ensures
            final(self)@ == old(self)@.with(marker, state@),
    {
        match marker {
            Marker::ProcVz => {
                self.proc_vz = state;
            },
            Marker::ProcBc => {
                self.proc_bc = state;
            },
            Marker::ContainerManager => {
                self.container_manager = state;
            },
            Marker::ContainerEnv => {
                self.container_env = state;
            },
            Marker::SystemdContainer => {
                self.systemd_container = state;
            },
            Marker::DockerEnv => {
                self.docker_env = state;
            },
        }
    }

    /// What was found at `marker`.
    pub fn state(&self, marker: Marker) -> (s: &FileState)
        ensures
            s@ == self@.at(marker),
    {
        match marker {
            Marker::ProcVz => &self.proc_vz,
            Marker::ProcBc => &self.proc_bc,
            Marker::ContainerManager => &self.container_manager,
            Marker::ContainerEnv => &self.container_env,
            Marker::SystemdContainer => &self.systemd_container,
            Marker::DockerEnv => &self.docker_env,
        }
    }

    /// Whether anything is at `marker`'s path.
    pub fn is_present(&self, marker: Marker) -> (b: bool)
        ensures
            b == self@.at(marker).is_present(),
    {
        match self.state(marker) {
            FileState::Absent => false,
            _ => true,
        }
    }

    /// The whole text at `marker`'s path, or nothing where there is no file
    /// or it could not be read.
    pub fn read_text(&self, marker: Marker) -> (t: Option<&str>)
        ensures
            t.deep_view() == self@.at(marker).text(),
    {
        match self.state(marker) {
            FileState::Text(text) => Some(text.as_str()),
            _ => None,
        }
    }
}

} // verus!
