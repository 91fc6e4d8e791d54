use wargo::host::{_is_wsl2, is_wsl2, wsl2_or_exit, HostError, HostProbe};

#[test]
fn release_text_with_marker_names_wsl2() {
    assert!(_is_wsl2(Some("5.15.90.1-microsoft-standard-WSL2\n")));
    assert!(_is_wsl2(Some("wsl2")));
    assert!(_is_wsl2(Some("xxWsL2xx")));
}

#[test]
fn release_text_without_marker_does_not() {
    assert!(!_is_wsl2(Some("6.1.0-13-amd64")));
    assert!(!_is_wsl2(Some("4.4.0-19041-Microsoft")));
    assert!(!_is_wsl2(Some("wsl")));
    assert!(!_is_wsl2(Some("")));
    assert!(!_is_wsl2(Some("wsl 2")));
}

#[test]
fn unreadable_release_text_counts_as_no() {
    assert!(!_is_wsl2(None));
}

#[test]
fn probe_keeps_its_first_answer() {
    let mut probe = HostProbe::new();
    assert_eq!(probe.known, None);
    assert!(is_wsl2(&mut probe, Some("linux-WSL2")));
    assert_eq!(probe.known, Some(true));
    assert!(is_wsl2(&mut probe, Some("plain linux")));
    assert!(is_wsl2(&mut probe, None));

    let mut probe = HostProbe::new();
    assert!(!is_wsl2(&mut probe, None));
    assert!(!is_wsl2(&mut probe, Some("linux-WSL2")));
}

#[test]
fn other_hosts_are_refused() {
    assert_eq!(wsl2_or_exit(Some("5.15-wsl2")), Ok(()));
    assert_eq!(wsl2_or_exit(Some("5.15")), Err(HostError::Unsupported));
    assert_eq!(wsl2_or_exit(None), Err(HostError::Unsupported));
    assert_eq!(
        HostError::Unsupported.message(),
        "This command can only be used in a WSL2 environment"
    );
}
