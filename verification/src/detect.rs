//! The probes that recognise a sandbox, and the order in which they are
//! asked.

use crate::config::ContainerConfig;
use crate::context::{Context, FileView, Files, Marker};
use crate::text::{
    after_last, after_last_in, chars_of, find_after_prefix, first_after_prefix,
    lemma_first_after_prefix, lines, same_text, slice_string, trim, trim_matching, trim_range,
    CharClass,
};
use vstd::prelude::*;

verus! {

/// One test for one kind of sandbox.
#[derive(Clone, Copy, Debug, PartialEq, Eq, Structural)]
pub enum Probe {
    /// `/proc/vz` without `/proc/bc`.
    OpenVz,
    /// `/run/host/container-manager`.
    Oci,
    /// `/run/.containerenv`, as podman and its kin write it.
    ContainerEnv,
    /// `/run/systemd/container`.
    Systemd,
    /// `/.dockerenv`.
    DockerEnv,
}

/// The probes in the order of their priority: the first that matches gives
/// the name, and those behind it are not asked.
pub open spec fn probe_order() -> Seq<Probe> {
    seq![Probe::OpenVz, Probe::Oci, Probe::ContainerEnv, Probe::Systemd, Probe::DockerEnv]
}

/// The prefix of the line of `/run/.containerenv` that holds the name to
/// show.
pub open spec fn wanted_prefix(use_container_name: bool) -> Seq<char> {
    if use_container_name {
        "name="@
    } else {
        "image="@
    }
}

/// The name that `/run/.containerenv` with the text `content` gives.
///
/// It is what follows the prefix in the first line that starts with it,
/// without the double quotes at its ends; of an image's name only what
/// follows the last `/`. Without such a line it is `podman`.
pub open spec fn container_env_name(content: Seq<char>, use_container_name: bool) -> Seq<char> {
    match first_after_prefix(lines(content), wanted_prefix(use_container_name)) {
        None => "podman"@,
        Some(value) => {
            let bare = trim_matching(value, CharClass::Exactly('"'));
            if use_container_name {
                bare
            } else {
                after_last(bare, '/')
            }
        },
    }
}

/// The name that `/run/systemd/container` with the text `content` gives.
///
/// Under WSL systemd writes `wsl` there, which is no container: the probe
/// then gives no name, as it does for a file that holds white space only.
pub open spec fn systemd_name(content: Seq<char>) -> Option<Seq<char>> {
    let manager = trim(content);
    if manager == "docker"@ {
        Some("Docker"@)
    } else if manager == "wsl"@ || manager.len() == 0 {
        None
    } else {
        Some("Systemd"@)
    }
}

/// The name that `probe` finds in `files`, if it matches.
pub open spec fn probe_result(probe: Probe, files: Files, use_container_name: bool) -> Option<
    Seq<char>,
> {
    match probe {
        Probe::OpenVz => if files.proc_vz.is_present() && !files.proc_bc.is_present() {
            Some("OpenVZ"@)
        } else {
            None
        },
        Probe::Oci => if files.container_manager.is_present() {
            Some("OCI"@)
        } else {
            None
        },
        Probe::ContainerEnv => match files.container_env {
            FileView::Text(content) => Some(container_env_name(content, use_container_name)),
            _ => None,
        },
        Probe::Systemd => match files.systemd_container {
            FileView::Text(content) => systemd_name(content),
            _ => None,
        },
        Probe::DockerEnv => if files.docker_env.is_present() {
            Some("Docker"@)
        } else {
            None
        },
    }
}

/// The result of the first of `probes` that matches.
pub open spec fn first_match(probes: Seq<Probe>, files: Files, use_container_name: bool) -> Option<
    Seq<char>,
>
    decreases probes.len(),
{
    if probes.len() == 0 {
        None
    } else {
        match probe_result(probes[0], files, use_container_name) {
            Some(name) => Some(name),
            None => first_match(probes.drop_first(), files, use_container_name),
        }
    }
}

/// The name of the sandbox that `files` shows, if it shows one.
pub open spec fn detected_name(files: Files, use_container_name: bool) -> Option<Seq<char>> {
    first_match(probe_order(), files, use_container_name)
}

/// Where `/proc/vz` exists and `/proc/bc` does not, the name is `OpenVZ`,
/// whatever else the file system holds and whatever the configuration asks
/// for.
pub proof fn lemma_openvz_first(files: Files, use_container_name: bool)
    requires
        files.proc_vz.is_present(),
        !files.proc_bc.is_present(),
    ensures
        detected_name(files, use_container_name) == Some("OpenVZ"@),
{
}

/// The probe chain as one decision: each probe is asked only where all
/// before it gave no name.
pub proof fn lemma_detected_by_priority(files: Files, use_container_name: bool)
    ensures
        detected_name(files, use_container_name) == if files.proc_vz.is_present()
            && !files.proc_bc.is_present() {
            Some("OpenVZ"@)
        } else if files.container_manager.is_present() {
            Some("OCI"@)
        } else if files.container_env.text() is Some {
            Some(container_env_name(files.container_env.text()->Some_0, use_container_name))
        } else if files.systemd_container.text() is Some && systemd_name(
            files.systemd_container.text()->Some_0,
        ) is Some {
            systemd_name(files.systemd_container.text()->Some_0)
        } else if files.docker_env.is_present() {
            Some("Docker"@)
        } else {
            None
        },
{
    reveal_with_fuel(first_match, 6);
}

/// Where neither OpenVZ nor the OCI marker is found and no line of a
/// readable `/run/.containerenv` starts with `name=` or with `image=`, the
/// name is `podman`.
pub proof fn lemma_podman_by_default(files: Files, content: Seq<char>, use_container_name: bool)
    requires
        !(files.proc_vz.is_present() && !files.proc_bc.is_present()),
        !files.container_manager.is_present(),
        files.container_env == FileView::Text(content),
        forall|i: int|
            0 <= i < lines(content).len() ==> !"name="@.is_prefix_of(#[trigger] lines(content)[i])
                && !"image="@.is_prefix_of(lines(content)[i]),
    ensures
        detected_name(files, use_container_name) == Some("podman"@),
{
    lemma_detected_by_priority(files, use_container_name);
    lemma_first_after_prefix(lines(content), wanted_prefix(use_container_name));
}

/// Where `/run/systemd/container` holds `docker`, `/run/.containerenv` does
/// not exist and neither OpenVZ nor the OCI marker is found, the name is
/// `Docker`.
pub proof fn lemma_docker_in_systemd(files: Files, content: Seq<char>, use_container_name: bool)
    requires
        !(files.proc_vz.is_present() && !files.proc_bc.is_present()),
        !files.container_manager.is_present(),
        !files.container_env.is_present(),
        files.systemd_container == FileView::Text(content),
        trim(content) == "docker"@,
    ensures
        detected_name(files, use_container_name) == Some("Docker"@),
{
    lemma_detected_by_priority(files, use_container_name);
}

/// Where `/run/systemd/container` holds `wsl` and no other marker exists,
/// no sandbox is detected.
pub proof fn lemma_wsl_suppressed(files: Files, content: Seq<char>, use_container_name: bool)
    requires
        files == Files::empty().with(Marker::SystemdContainer, FileView::Text(content)),
        trim(content) == "wsl"@,
    ensures
        detected_name(files, use_container_name) is None,
{
    reveal_strlit("wsl");
    reveal_strlit("docker");
    assert("wsl"@.len() != "docker"@.len());
    lemma_detected_by_priority(files, use_container_name);
}

/// The probes, highest priority first.
pub fn probes() -> (order: Vec<Probe>)
    ensures
        order@ == probe_order(),
{
    let mut order: Vec<Probe> = Vec::new();
    order.push(Probe::OpenVz);
    order.push(Probe::Oci);
    order.push(Probe::ContainerEnv);
    order.push(Probe::Systemd);
    order.push(Probe::DockerEnv);
    order
}

/// Reads the name to show out of the text of `/run/.containerenv`.
pub fn name_from_container_env(content: &str, use_container_name: bool) -> (name: String)
    ensures
        name@ == container_env_name(content@, use_container_name),
{
    let chars = chars_of(content);
    let prefix = if use_container_name {
        chars_of("name=")
    } else {
        chars_of("image=")
    };
    match find_after_prefix(&chars, &prefix) {
        None => "podman".to_owned(),
        Some((from, to)) => {
            let (a, b) = trim_range(&chars, from, to, CharClass::Exactly('"'));
            if use_container_name {
                slice_string(content, a, b)
            } else {
                let k = after_last_in(&chars, a, b, '/');
                slice_string(content, k, b)
            }
        },
    }
}

/// Reads the name to show out of the text of `/run/systemd/container`.
pub fn name_from_systemd(content: &str) -> (name: Option<String>)
    ensures
        name.deep_view() == systemd_name(content@),
{
    let chars = chars_of(content);
    let (a, b) = trim_range(&chars, 0, chars.len(), CharClass::Whitespace);
    proof {
        assert(chars@.subrange(0, chars.len() as int) =~= chars@);
    }
    let manager = slice_string(content, a, b);
    if same_text(manager.as_str(), "docker") {
        Some("Docker".to_owned())
    } else if same_text(manager.as_str(), "wsl") || a == b {
        None
    } else {
        Some("Systemd".to_owned())
    }
}

/// Asks one probe.
pub fn run_probe(probe: Probe, context: &Context, use_container_name: bool) -> (name: Option<
    String,
>)
    ensures
        name.deep_view() == probe_result(probe, context@, use_container_name),
{
    match probe {
        Probe::OpenVz => {
            if context.is_present(Marker::ProcVz) && !context.is_present(Marker::ProcBc) {
                Some("OpenVZ".to_owned())
            } else {
                None
            }
        },
        Probe::Oci => {
            if context.is_present(Marker::ContainerManager) {
                Some("OCI".to_owned())
            } else {
                None
            }
        },
        Probe::ContainerEnv => match context.read_text(Marker::ContainerEnv) {
            Some(content) => Some(name_from_container_env(content, use_container_name)),
            None => None,
        },
        Probe::Systemd => match context.read_text(Marker::SystemdContainer) {
            Some(content) => name_from_systemd(content),
            None => None,
        },
        Probe::DockerEnv => {
            if context.is_present(Marker::DockerEnv) {
                Some("Docker".to_owned())
            } else {
                None
            }
        },
    }
}

/// Finds out which sandbox the process runs in, and under which name to
/// show it: the result of the first probe that matches, and nothing where
/// none does.
pub fn container_name(context: &Context, config: &ContainerConfig) -> (name: Option<String>)
    ensures
        name.deep_view() == detected_name(context@, config@.use_container_name),
        context@.proc_vz.is_present() && !context@.proc_bc.is_present() ==> name.deep_view()
            == Some("OpenVZ"@),
{
    let order = probes();
    let mut i: usize = 0;
    proof {
        assert(order@.skip(0) =~= order@);
    }
    while i < order.len()
        invariant
            i <= order.len(),
            order@ == probe_order(),
            detected_name(context@, config@.use_container_name) == first_match(
                order@.skip(i as int),
                context@,
                config@.use_container_name,
            ),
        decreases order.len() - i,
    {
        proof {
            assert(order@.skip(i as int).drop_first() =~= order@.skip(i + 1));
        }
        match run_probe(order[i], context, config.use_container_name) {
            Some(name) => {
                return Some(name);
            },
            None => {},
        }
        i += 1;
    }
    None
}

} // verus!
