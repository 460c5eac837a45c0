//! Importing through skopeo's image proxy.
use composefs_sync::digest::sha256_content_digest;
use composefs_sync::finalize::{FinalizeAction, StreamKey};
use composefs_sync::import::{ImportAction, ImportReply};
use composefs_sync::progress::ProgressEvent;
use composefs_sync::skopeo_varlink::{
    import_via_skopeo_proxy, open_skopeo_varlink, received_fd, Handshake, HandshakeAction,
    HandshakeError, ProxyMethod, ProxyReply, MAX_MSG_SIZE,
};
use composefs_sync::version::{check_version, VersionCheck};

fn s(text: &str) -> String {
    text.to_string()
}

fn ok(value: Option<&str>, has_fd: bool) -> ProxyReply {
    ProxyReply {
        success: true,
        error: s(""),
        value: value.map(s).ok_or(s("invalid type: null, expected a string")),
        has_fd,
    }
}

fn failure(handshake: &Handshake) -> HandshakeError {
    match handshake.action() {
        HandshakeAction::Fail(e) => e,
        other => panic!("{other:?}"),
    }
}

#[test]
fn handshake_connects() {
    let mut h = open_skopeo_varlink("quay.io/fedora:latest");
    match h.action() {
        HandshakeAction::Call { method, args } => {
            assert_eq!(method, ProxyMethod::Initialize);
            assert_eq!(method.name(), "Initialize");
            assert!(args.is_empty());
        }
        other => panic!("{other:?}"),
    }
    h = h.resume(ok(Some("0.2.9"), false));
    match h.action() {
        HandshakeAction::Call { method, args } => {
            assert_eq!(method.name(), "OpenImage");
            assert_eq!(args, vec!["containers-storage:quay.io/fedora:latest"]);
        }
        other => panic!("{other:?}"),
    }
    h = h.resume(ok(None, false));
    match h.action() {
        HandshakeAction::Call { method, args } => {
            assert_eq!(method.name(), "OpenVarlinkSocket");
            assert!(args.is_empty());
        }
        other => panic!("{other:?}"),
    }
    h = h.resume(ok(None, true));
    assert!(matches!(h.action(), HandshakeAction::Connected));
}

#[test]
fn handshake_failures() {
    let h = open_skopeo_varlink("i").resume(ProxyReply {
        success: false,
        error: s("no such image"),
        value: Err(s("invalid type: null, expected a string")),
        has_fd: false,
    });
    assert_eq!(
        failure(&h).message(),
        "skopeo proxy Initialize failed: no such image"
    );
    let h = open_skopeo_varlink("i").resume(ok(None, false));
    assert!(matches!(failure(&h), HandshakeError::VersionNotAString { .. }));
    assert_eq!(failure(&h).message(), "invalid type: null, expected a string");
    let h = open_skopeo_varlink("i").resume(ok(Some("0.2.8"), false));
    assert_eq!(
        failure(&h).message(),
        "skopeo proxy version 0.2.8 too old, need >=0.2.9 for OpenVarlinkSocket"
    );
    let h = open_skopeo_varlink("i").resume(ok(Some("0.2"), false));
    assert!(matches!(failure(&h), HandshakeError::InvalidVersion { .. }));
    assert_eq!(
        failure(&h).message(),
        "unexpected end of input while parsing minor version number"
    );
    let h = open_skopeo_varlink("i").resume(ok(Some("v1.0.0"), false));
    assert_eq!(
        failure(&h).message(),
        "unexpected character 'v' while parsing major version number"
    );
    let h = open_skopeo_varlink("i")
        .resume(ok(Some("1.0.0"), false))
        .resume(ok(None, true))
        .resume(ok(None, false));
    assert_eq!(failure(&h).message(), "OpenVarlinkSocket did not return an fd");
    // It stays that way.
    let h = h.resume(ok(None, true));
    assert!(matches!(failure(&h), HandshakeError::NoFd));
}

#[test]
fn versions() {
    let supported = ["0.2.9", "0.2.10", "0.3.0", "1.0.0", "0.2.9+build.01", "18446744073709551615.0.0"];
    for v in supported {
        assert!(matches!(check_version(v), VersionCheck::Supported), "{v}");
    }
    let too_old = ["0.2.8", "0.1.99", "0.0.0", "0.2.9-rc.1", "1.0.0-alpha", "0.3.0-0.x-y+b"];
    for v in too_old {
        assert!(matches!(check_version(v), VersionCheck::TooOld), "{v}");
    }
    let invalid = [
        "", "1", "1.2", "v1.2.3", "01.2.3", "1.2.3-", "1.2.3+", "1.2.3-01", "1.2.3-a..b", " 1.2.3",
        "1.2.3 ", "1.2.3-a_b", "18446744073709551616.0.0", "1.2.3.4",
    ];
    for v in invalid {
        assert!(matches!(check_version(v), VersionCheck::Invalid { .. }), "{v}");
    }
    match check_version(&"1".repeat(MAX_MSG_SIZE)) {
        VersionCheck::Invalid { error } => {
            assert_eq!(error, "value of major version number exceeds u64::MAX");
        }
        other => panic!("{other:?}"),
    }
}

#[test]
fn first_fd_is_taken() {
    let none: Vec<Vec<i32>> = vec![];
    assert_eq!(received_fd(none), None);
    assert_eq!(received_fd(vec![vec![], vec![7, 8], vec![9]]), Some(7));
    assert_eq!(received_fd::<i32>(vec![vec![], vec![]]), None);
}

#[test]
fn import_over_the_socket() {
    let diff_ids = vec![s(sha256_content_digest(b"1").as_str())];
    let mut import = import_via_skopeo_proxy(
        &diff_ids,
        &vec![s("storage-id")],
        "{manifest}",
        "{config}",
        None,
        false,
    )
    .unwrap_or_else(|e| panic!("{e:?}"));
    import = import.resume(ImportReply::Layer(None)).0;
    match import.action() {
        ImportAction::Transfer { diff_id, params, zerocopy } => {
            assert!(!zerocopy);
            assert_eq!(diff_id.as_str(), diff_ids[0]);
            assert_eq!(params.diff_id, Some(s("storage-id")));
            assert!(params.storage.is_none());
        }
        other => panic!("{other:?}"),
    }
    let id = composefs_sync::digest::ObjectId::from_bytes(vec![1]).unwrap();
    import = import
        .resume(ImportReply::Transferred { id, stats: Default::default(), transferred: 0 })
        .0;
    let (import, events) = import.resume(ImportReply::Closed);
    let texts: Vec<&str> = events
        .iter()
        .map(|e| match e {
            ProgressEvent::Message(m) => m.as_str(),
            other => panic!("{other:?}"),
        })
        .collect();
    assert_eq!(texts, vec!["Layers imported", "Finalizing image"]);
    match import.action() {
        ImportAction::Finalize(FinalizeAction::HasStream(StreamKey::Config(d))) => {
            assert_eq!(d.as_str(), sha256_content_digest(b"{config}").as_str());
        }
        other => panic!("{other:?}"),
    }
}

#[test]
fn import_errors() {
    let good = s(sha256_content_digest(b"1").as_str());
    match import_via_skopeo_proxy(&vec![good.clone()], &vec![], "", "", None, true) {
        Err(e) => assert_eq!(
            e.message(),
            "layer count mismatch: 1 diff_ids in config, 0 storage layer IDs from GetImage"
        ),
        Ok(_) => panic!("the counts differ"),
    }
    match import_via_skopeo_proxy(&vec![good, s("bad")], &vec![], "", "", None, true) {
        Err(e) => assert_eq!(e.message(), "parsing diff_id"),
        Ok(_) => panic!("there is a bad diff-id"),
    }
}
