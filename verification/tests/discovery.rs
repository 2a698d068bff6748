use termway::discovery::{
    after_failure, discover, display_from_socket, graphical_environment, is_socket_name,
    preferred_display, runtime_dir, runtime_dir_of_status, select_candidate, session_display,
    systemd_user_environment, SelectError, Source, Variable,
};

fn set(key: &str, value: &str) -> Variable {
    Variable { key: key.to_owned(), value: value.as_bytes().to_vec(), shown: value.to_owned() }
}

fn paths(list: &[&str]) -> Vec<String> {
    list.iter().map(|path| path.to_string()).collect()
}

#[test]
fn extracts_wayland_display_from_socket_name() {
    assert_eq!(
        display_from_socket("/run/user/1000/niri.wayland-1.1681.sock"),
        Some("wayland-1".into())
    );
}

#[test]
fn rejects_unrecognized_socket_name() {
    assert_eq!(display_from_socket("/tmp/niri.sock"), None);
}

#[test]
fn selects_candidate_matching_display() {
    let candidates = paths(&[
        "/run/user/1000/niri.wayland-1.10.sock",
        "/run/user/1000/niri.wayland-2.11.sock",
    ]);
    assert_eq!(select_candidate(&candidates, Some("wayland-2")).ok().unwrap(), 1);
}

#[test]
fn refuses_ambiguous_sessions() {
    let candidates = paths(&["a", "b"]);
    assert!(select_candidate(&candidates, None).is_err());
}

#[test]
fn graphical_environment_prefers_local_systemd_session() {
    let process = vec![
        set("DISPLAY", "localhost:10.0"),
        set("DBUS_SESSION_BUS_ADDRESS", "ssh-bus"),
    ];
    let systemd = vec![
        set("DISPLAY", ":0"),
        set("DBUS_SESSION_BUS_ADDRESS", "local-bus"),
        set("UNRELATED_SECRET", "ignored"),
    ];
    let environment = graphical_environment(&process, &systemd);
    let get = |key: &str| environment.iter().find(|entry| entry.0 == key).map(|entry| &entry.1[..]);
    assert_eq!(get("DISPLAY"), Some(&b":0"[..]));
    assert_eq!(get("DBUS_SESSION_BUS_ADDRESS"), Some(&b"local-bus"[..]));
    assert_eq!(get("UNRELATED_SECRET"), None);
}

#[test]
fn process_values_fill_in_for_the_systemd_session() {
    let process = vec![set("XDG_SESSION_TYPE", "wayland"), set("PATH", "/bin")];
    let environment = graphical_environment(&process, &Vec::new());
    assert_eq!(environment.len(), 1);
    assert_eq!(environment[0].0, "XDG_SESSION_TYPE");
    assert_eq!(environment[0].1, b"wayland".to_vec());
}

#[test]
fn selection_errors_say_what_was_found() {
    assert_eq!(
        select_candidate(&Vec::new(), Some("wayland-1")).err().unwrap().message(),
        "no live niri IPC socket found; is the graphical session running?"
    );
    let several = paths(&["/r/niri.a.1.sock", "/r/niri.a.2.sock"]);
    let error = select_candidate(&several, Some("a")).err().unwrap();
    assert!(matches!(&error, SelectError::Ambiguous(list) if list == "/r/niri.a.1.sock, /r/niri.a.2.sock"));
    assert_eq!(
        error.message(),
        "multiple live niri sessions found (/r/niri.a.1.sock, /r/niri.a.2.sock); pass --niri-socket PATH"
    );
    assert_eq!(select_candidate(&paths(&["anything"]), Some("other")).ok(), Some(0));
}

#[test]
fn sockets_are_known_by_their_names() {
    assert!(is_socket_name("niri.wayland-1.5.sock"));
    assert!(!is_socket_name("niri.wayland-1.5.sock.bak"));
    assert!(!is_socket_name("sway.5.sock"));
    assert_eq!(display_from_socket("niri.a.b.7.sock"), Some("a.b".into()));
    assert_eq!(display_from_socket("niri.a.b.x.sock"), None);
    assert_eq!(display_from_socket("niri..sock"), None);
    assert_eq!(display_from_socket("/"), None);
}

#[test]
fn places_are_searched_in_order() {
    assert_eq!(discover(true, true, true), Source::CommandLine);
    assert_eq!(discover(false, true, true), Source::ProcessEnvironment);
    assert_eq!(discover(false, false, true), Source::SystemdEnvironment);
    assert_eq!(discover(false, false, false), Source::RuntimeScan);
    assert_eq!(after_failure(Source::CommandLine, true), None);
    assert_eq!(after_failure(Source::ProcessEnvironment, true), Some(Source::SystemdEnvironment));
    assert_eq!(after_failure(Source::ProcessEnvironment, false), Some(Source::RuntimeScan));
    assert_eq!(after_failure(Source::SystemdEnvironment, true), Some(Source::RuntimeScan));
    assert_eq!(Source::RuntimeScan.words(), "runtime directory scan");
}

#[test]
fn systemd_variables_are_read_line_by_line() {
    let variables = systemd_user_environment("A=1\r\nno value\nB=x=y\nA=2\n");
    assert_eq!(variables.len(), 3);
    assert_eq!(variables[1].key, "B");
    assert_eq!(variables[1].value, b"x=y".to_vec());
    assert_eq!(variables[0].shown, "1");
    assert_eq!(preferred_display(&Vec::new(), &variables), None);
}

#[test]
fn runtime_directory_comes_from_the_environment_or_the_user() {
    assert_eq!(
        runtime_dir(&vec![set("XDG_RUNTIME_DIR", "/p")], &vec![set("XDG_RUNTIME_DIR", "/s")]),
        Some(b"/p".to_vec())
    );
    assert_eq!(
        runtime_dir(&Vec::new(), &vec![set("XDG_RUNTIME_DIR", "/s")]),
        Some(b"/s".to_vec())
    );
    assert_eq!(runtime_dir(&Vec::new(), &Vec::new()), None);
    assert_eq!(
        runtime_dir_of_status("Name:\tx\nUid:\t1000\t1000\t1000\t1000\nGid:\t1\n"),
        Some("/run/user/1000".to_owned())
    );
    assert_eq!(runtime_dir_of_status("Name:\tx\n"), None);
}

#[test]
fn display_comes_from_the_environment_before_the_socket() {
    let process = vec![set("WAYLAND_DISPLAY", "wayland-9")];
    let systemd = vec![set("WAYLAND_DISPLAY", "wayland-8")];
    let socket = Some("/r/niri.wayland-7.1.sock");
    assert_eq!(session_display(&process, &systemd, socket), Some("wayland-9".to_owned()));
    assert_eq!(session_display(&Vec::new(), &systemd, socket), Some("wayland-8".to_owned()));
    assert_eq!(session_display(&Vec::new(), &Vec::new(), socket), Some("wayland-7".to_owned()));
    assert_eq!(session_display(&Vec::new(), &Vec::new(), None), None);
}
