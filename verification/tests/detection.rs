use container_segment::config::ContainerConfig;
use container_segment::context::{Context, FileState, Marker};
use container_segment::detect::{
    container_name, name_from_container_env, name_from_systemd, probes, run_probe, Probe,
};

fn text(content: &str) -> FileState {
    FileState::Text(content.to_string())
}

fn named(use_container_name: bool) -> ContainerConfig {
    let mut config = ContainerConfig::default();
    config.use_container_name = use_container_name;
    config
}

fn detect(context: &Context) -> Option<String> {
    container_name(context, &ContainerConfig::default())
}

#[test]
fn marker_paths() {
    assert_eq!(Marker::ProcVz.path(), "/proc/vz");
    assert_eq!(Marker::ProcBc.path(), "/proc/bc");
    assert_eq!(Marker::ContainerManager.path(), "/run/host/container-manager");
    assert_eq!(Marker::ContainerEnv.path(), "/run/.containerenv");
    assert_eq!(Marker::SystemdContainer.path(), "/run/systemd/container");
    assert_eq!(Marker::DockerEnv.path(), "/.dockerenv");
    assert_eq!(
        Marker::all(),
        vec![
            Marker::ProcVz,
            Marker::ProcBc,
            Marker::ContainerManager,
            Marker::ContainerEnv,
            Marker::SystemdContainer,
            Marker::DockerEnv
        ]
    );
    let read: Vec<Marker> = Marker::all().into_iter().filter(|m| m.needs_content()).collect();
    assert_eq!(read, vec![Marker::ContainerEnv, Marker::SystemdContainer]);
}

#[test]
fn context_records_states() {
    let mut context = Context::new();
    for marker in Marker::all() {
        assert!(!context.is_present(marker));
        assert_eq!(context.read_text(marker), None);
    }
    context.set(Marker::ProcVz, FileState::Unreadable);
    context.set(Marker::ContainerEnv, text("name=\"x\""));
    assert!(context.is_present(Marker::ProcVz));
    assert_eq!(context.read_text(Marker::ProcVz), None);
    assert!(context.is_present(Marker::ContainerEnv));
    assert_eq!(context.read_text(Marker::ContainerEnv), Some("name=\"x\""));
    assert!(!context.is_present(Marker::ProcBc));
    assert!(matches!(context.state(Marker::ProcVz), FileState::Unreadable));
    context.set(Marker::ProcVz, FileState::Absent);
    assert!(!context.is_present(Marker::ProcVz));
}

#[test]
fn probe_order_is_fixed() {
    assert_eq!(
        probes(),
        vec![Probe::OpenVz, Probe::Oci, Probe::ContainerEnv, Probe::Systemd, Probe::DockerEnv]
    );
}

#[test]
fn nothing_detected_on_a_bare_host() {
    assert_eq!(detect(&Context::new()), None);
}

#[test]
fn openvz_wins_over_every_other_marker() {
    let mut context = Context::new();
    context.set(Marker::ProcVz, FileState::Unreadable);
    assert_eq!(detect(&context), Some("OpenVZ".to_string()));

    context.set(Marker::ContainerManager, FileState::Unreadable);
    context.set(Marker::ContainerEnv, text("name=\"my-box\"\n"));
    context.set(Marker::SystemdContainer, text("docker\n"));
    context.set(Marker::DockerEnv, text(""));
    assert_eq!(detect(&context), Some("OpenVZ".to_string()));
    assert_eq!(container_name(&context, &named(true)), Some("OpenVZ".to_string()));
}

#[test]
fn openvz_host_is_no_container() {
    // /proc/bc marks the host of OpenVZ containers
    let mut context = Context::new();
    context.set(Marker::ProcVz, FileState::Unreadable);
    context.set(Marker::ProcBc, FileState::Unreadable);
    assert_eq!(detect(&context), None);
    assert_eq!(run_probe(Probe::OpenVz, &context, false), None);

    context.set(Marker::DockerEnv, FileState::Unreadable);
    assert_eq!(detect(&context), Some("Docker".to_string()));
}

#[test]
fn oci_comes_before_containerenv() {
    let mut context = Context::new();
    context.set(Marker::ContainerManager, text("oci\n"));
    context.set(Marker::ContainerEnv, text("name=\"my-box\"\n"));
    assert_eq!(detect(&context), Some("OCI".to_string()));
}

#[test]
fn image_name_loses_its_path() {
    let content = "image=\"registry.example.org/fedora-toolbox:35\"\n";
    assert_eq!(name_from_container_env(content, false), "fedora-toolbox:35");

    let mut context = Context::new();
    context.set(Marker::ContainerEnv, text(content));
    assert_eq!(detect(&context), Some("fedora-toolbox:35".to_string()));
}

#[test]
fn container_name_is_kept_as_it_is() {
    let content = "name=\"my-box\"\nimage=\"registry.example.org/fedora-toolbox:35\"\n";
    assert_eq!(name_from_container_env(content, true), "my-box");
    assert_eq!(name_from_container_env(content, false), "fedora-toolbox:35");
    assert_eq!(name_from_container_env("name=\"a/b\"\n", true), "a/b");

    let mut context = Context::new();
    context.set(Marker::ContainerEnv, text(content));
    assert_eq!(container_name(&context, &named(true)), Some("my-box".to_string()));
}

#[test]
fn containerenv_without_the_line_is_podman() {
    assert_eq!(name_from_container_env("", false), "podman");
    assert_eq!(name_from_container_env("", true), "podman");
    assert_eq!(name_from_container_env("engine=\"podman-4.0\"\nrootless=1\n", false), "podman");
    assert_eq!(name_from_container_env("engine=\"podman-4.0\"\nrootless=1\n", true), "podman");
    assert_eq!(name_from_container_env("name=\"x\"\n", false), "podman");
    assert_eq!(name_from_container_env("image=\"x\"\n", true), "podman");
    // the prefix has to start the line
    assert_eq!(name_from_container_env(" name=\"x\"\n", true), "podman");

    let mut context = Context::new();
    context.set(Marker::ContainerEnv, text("rootless=1\n"));
    context.set(Marker::SystemdContainer, text("docker\n"));
    assert_eq!(detect(&context), Some("podman".to_string()));
}

#[test]
fn containerenv_edge_values() {
    // the first matching line counts
    assert_eq!(name_from_container_env("name=\"one\"\nname=\"two\"\n", true), "one");
    // quotes are taken from both ends, as many as there are
    assert_eq!(name_from_container_env("name=\"\"quoted\"\"\n", true), "quoted");
    assert_eq!(name_from_container_env("name=in\"side\n", true), "in\"side");
    assert_eq!(name_from_container_env("name=plain", true), "plain");
    // an empty value is a value
    assert_eq!(name_from_container_env("name=\"\"\n", true), "");
    assert_eq!(name_from_container_env("name=\n", true), "");
    assert_eq!(name_from_container_env("image=\"registry/\"\n", false), "");
    // no slash: the image's name as it is
    assert_eq!(name_from_container_env("image=\"fedora:35\"\n", false), "fedora:35");
    assert_eq!(name_from_container_env("image=\"a/b/c\"\n", false), "c");
    // a carriage return before the line feed belongs to the line's end
    assert_eq!(name_from_container_env("name=\"dos\"\r\nimage=\"x\"\r\n", true), "dos");
    // one at the very end does not
    assert_eq!(name_from_container_env("name=\"dos\"\r", true), "dos\"\r");
    assert_eq!(name_from_container_env("\n\nname=\"late\"", true), "late");

    let mut context = Context::new();
    context.set(Marker::ContainerEnv, text("name=\"\"\n"));
    context.set(Marker::DockerEnv, FileState::Unreadable);
    assert_eq!(container_name(&context, &named(true)), Some(String::new()));
}

#[test]
fn unreadable_containerenv_falls_through() {
    let mut context = Context::new();
    context.set(Marker::ContainerEnv, FileState::Unreadable);
    assert_eq!(run_probe(Probe::ContainerEnv, &context, false), None);
    assert_eq!(detect(&context), None);

    context.set(Marker::SystemdContainer, text("docker"));
    assert_eq!(detect(&context), Some("Docker".to_string()));
}

#[test]
fn systemd_marker_values() {
    assert_eq!(name_from_systemd("docker"), Some("Docker".to_string()));
    assert_eq!(name_from_systemd("  docker\n"), Some("Docker".to_string()));
    assert_eq!(name_from_systemd("\u{a0}docker\u{3000}\t\r\n"), Some("Docker".to_string()));
    assert_eq!(name_from_systemd("wsl"), None);
    assert_eq!(name_from_systemd("wsl\n"), None);
    assert_eq!(name_from_systemd("systemd-nspawn\n"), Some("Systemd".to_string()));
    assert_eq!(name_from_systemd("lxc"), Some("Systemd".to_string()));
    assert_eq!(name_from_systemd("Docker"), Some("Systemd".to_string()));
    assert_eq!(name_from_systemd("WSL"), Some("Systemd".to_string()));
    assert_eq!(name_from_systemd("docker wsl"), Some("Systemd".to_string()));
    assert_eq!(name_from_systemd("\u{200b}"), Some("Systemd".to_string()));
    assert_eq!(name_from_systemd(""), None);
    assert_eq!(name_from_systemd(" \n\t"), None);
}

#[test]
fn docker_in_systemd_without_containerenv() {
    let mut context = Context::new();
    context.set(Marker::SystemdContainer, text("docker"));
    assert_eq!(detect(&context), Some("Docker".to_string()));
}

#[test]
fn wsl_is_no_container() {
    let mut context = Context::new();
    context.set(Marker::SystemdContainer, text("wsl"));
    assert_eq!(detect(&context), None);
    assert_eq!(run_probe(Probe::Systemd, &context, false), None);

    // the probes behind it are still asked
    context.set(Marker::DockerEnv, FileState::Unreadable);
    assert_eq!(detect(&context), Some("Docker".to_string()));
}

#[test]
fn dockerenv_is_the_last_resort() {
    let mut context = Context::new();
    context.set(Marker::DockerEnv, text(""));
    assert_eq!(detect(&context), Some("Docker".to_string()));
    assert_eq!(run_probe(Probe::DockerEnv, &context, true), Some("Docker".to_string()));
    assert_eq!(run_probe(Probe::Oci, &context, true), None);

    context.set(Marker::SystemdContainer, text("lxc\n"));
    assert_eq!(detect(&context), Some("Systemd".to_string()));
}
