use sshpod::bundle::{
    arch_for_machine, arch_path, bundle_candidates, bundle_filename, bundle_is_current,
    get_bundle, install_script, ladder_method, ladder_next, payload_kind, plain_payload,
    version_path, InstallMethod, InstallState, PayloadKind, BUNDLE_VERSION,
};
use sshpod::cli::effective_login_user;
use sshpod::cluster::{
    context_namespace_jsonpath, exec_failure_message, nonempty_trimmed, parse_context_lines,
};
use sshpod::errors::SshPodError;
use sshpod::keys::{key_cache_dir, local_key_from_file, need_keygen, private_key_path, public_key_path};
use sshpod::remote::{
    append_key_line, base_path, check_login_user, lock_command, parse_port, rand_port,
    sshd_launch_outcome, sshd_log_path, uid_is_root, START_SSHD_SCRIPT,
};
use std::io::Write;

#[test]
fn decompress_smoke() {
    let mut encoder = xz2::write::XzEncoder::new(Vec::new(), 6);
    encoder.write_all(b"hello world").unwrap();
    let data = encoder.finish().unwrap();
    let out = plain_payload(&data).expect("decompress");
    assert_eq!(out, b"hello world");
}

#[test]
fn gzip_payload_round_trips_through_gzip() {
    let mut encoder = xz2::write::XzEncoder::new(Vec::new(), 6);
    encoder.write_all(b"payload bytes").unwrap();
    let data = encoder.finish().unwrap();
    let gz = sshpod::bundle::gzip_payload(&data).expect("recompress");
    let mut decoder = flate2::read::GzDecoder::new(gz.as_slice());
    let mut out = Vec::new();
    std::io::Read::read_to_end(&mut decoder, &mut out).unwrap();
    assert_eq!(out, b"payload bytes");
}

#[test]
fn arch_mapping_accepts_the_four_names() {
    assert_eq!(arch_for_machine("x86_64").unwrap(), "linux/amd64");
    assert_eq!(arch_for_machine("amd64").unwrap(), "linux/amd64");
    assert_eq!(arch_for_machine("aarch64").unwrap(), "linux/arm64");
    assert_eq!(arch_for_machine("arm64").unwrap(), "linux/arm64");
    assert_eq!(arch_for_machine(" x86_64\n").unwrap(), "linux/amd64");
}

#[test]
fn arch_mapping_rejects_anything_else() {
    let err = arch_for_machine("mips64\n").unwrap_err();
    match &err {
        SshPodError::UnsupportedArch { machine } => assert_eq!(machine, "mips64"),
        other => panic!("unexpected error: {:?}", other),
    }
    assert_eq!(err.message(), "unsupported remote architecture: mips64");
}

#[test]
fn bundle_probe_is_idempotent() {
    let arch = "linux/amd64";
    assert!(bundle_is_current(
        &Some(BUNDLE_VERSION.to_string()),
        &Some(arch.to_string()),
        BUNDLE_VERSION,
        arch,
    ));
    assert!(!bundle_is_current(&None, &Some(arch.to_string()), BUNDLE_VERSION, arch));
    assert!(!bundle_is_current(
        &Some("other".to_string()),
        &Some(arch.to_string()),
        BUNDLE_VERSION,
        arch,
    ));
    assert!(!bundle_is_current(
        &Some(BUNDLE_VERSION.to_string()),
        &Some("linux/arm64".to_string()),
        BUNDLE_VERSION,
        arch,
    ));
}

#[test]
fn marker_paths() {
    assert_eq!(version_path("/tmp/sshpod/u/c"), "/tmp/sshpod/u/c/bundle/VERSION");
    assert_eq!(arch_path("/tmp/sshpod/u/c"), "/tmp/sshpod/u/c/bundle/ARCH");
}

#[test]
fn no_bundle_is_embedded() {
    assert!(get_bundle("linux/amd64").is_none());
    assert!(get_bundle("linux/arm64").is_none());
}

#[test]
fn bundle_filenames() {
    assert_eq!(bundle_filename("linux/amd64"), "sshd_amd64.xz");
    assert_eq!(bundle_filename("linux/arm64"), "sshd_arm64.xz");
    assert_eq!(bundle_filename("linux/riscv64"), "sshd_linux_riscv64.xz");
}

#[test]
fn candidate_paths_are_deduplicated_in_order() {
    let r = bundle_candidates("sshd_amd64.xz", &Some("/opt/app".to_string()), &Some("/opt".to_string()));
    assert_eq!(
        r,
        vec![
            "sshd_amd64.xz".to_string(),
            "bundles/sshd_amd64.xz".to_string(),
            "/opt/app/sshd_amd64.xz".to_string(),
            "/opt/app/bundles/sshd_amd64.xz".to_string(),
            "/opt/bundles/sshd_amd64.xz".to_string(),
        ]
    );
    // A repeated path collapses to the first occurrence.
    let r = bundle_candidates("f.xz", &Some("bundles".to_string()), &None);
    assert_eq!(
        r,
        vec![
            "f.xz".to_string(),
            "bundles/f.xz".to_string(),
            "bundles/bundles/f.xz".to_string(),
        ]
    );
    let r = bundle_candidates("f.xz", &None, &None);
    assert_eq!(r, vec!["f.xz".to_string(), "bundles/f.xz".to_string()]);
}

#[test]
fn install_scripts_write_markers_and_modes() {
    let s = install_script(
        InstallMethod::Xz,
        PayloadKind::SingleFile,
        "/tmp/sshpod/u/c",
        "1.0+sshd1",
        "linux/amd64",
    );
    assert!(s.starts_with("set -eu; umask 077; mkdir -p \"/tmp/sshpod/u/c/bundle\";"));
    assert!(s.contains("xz -dc > \"/tmp/sshpod/u/c/bundle/sshd\""));
    assert!(s.contains("printf '%s\\n' \"1.0+sshd1\" > \"/tmp/sshpod/u/c/bundle/VERSION\""));
    assert!(s.contains("printf '%s\\n' \"linux/amd64\" > \"/tmp/sshpod/u/c/bundle/ARCH\""));
    assert!(s.contains("chmod 600 \"/tmp/sshpod/u/c/bundle/VERSION\" \"/tmp/sshpod/u/c/bundle/ARCH\";"));
    let g = install_script(InstallMethod::Gzip, PayloadKind::SingleFile, "/b", "v", "a");
    assert!(g.contains("gzip -dc > \"/b/bundle/sshd\""));
    let p = install_script(InstallMethod::Plain, PayloadKind::SingleFile, "/b", "v", "a");
    assert!(p.contains("cat > \"/b/bundle/sshd\""));
}

#[test]
fn install_scripts_for_tar_payloads() {
    let s = install_script(InstallMethod::Xz, PayloadKind::TarArchive, "/b", "v", "a");
    assert!(s.contains("tar xJf - -C \"/b\";"));
    assert!(s.contains("chmod 700 \"/b/bundle/sshd\";"));
    assert!(s.contains("printf '%s\\n' \"v\" > \"/b/bundle/VERSION\""));
    let g = install_script(InstallMethod::Gzip, PayloadKind::TarArchive, "/b", "v", "a");
    assert!(g.contains("tar xzf - -C \"/b\";"));
    let p = install_script(InstallMethod::Plain, PayloadKind::TarArchive, "/b", "v", "a");
    assert!(p.contains("tar xf - -C \"/b\";"));
}

#[test]
fn payload_kind_detection() {
    // A POSIX tar archive carries "ustar" at its fixed header offset.
    let mut tar = vec![0u8; 512];
    tar[257..262].copy_from_slice(b"ustar");
    assert_eq!(payload_kind(&tar), PayloadKind::TarArchive);
    let elf = vec![0x7f, b'E', b'L', b'F'];
    assert_eq!(payload_kind(&elf), PayloadKind::SingleFile);
    let short = vec![0u8; 100];
    assert_eq!(payload_kind(&short), PayloadKind::SingleFile);
}

#[test]
fn payloads_fail_exactly_on_malformed_xz() {
    let garbage = vec![1u8, 2, 3, 4, 5];
    assert!(plain_payload(&garbage).is_err());
    assert!(sshpod::bundle::gzip_payload(&garbage).is_err());
    let mut encoder = xz2::write::XzEncoder::new(Vec::new(), 6);
    encoder.write_all(b"ok").unwrap();
    let good = encoder.finish().unwrap();
    assert!(plain_payload(&good).is_ok());
    assert!(sshpod::bundle::gzip_payload(&good).is_ok());
}

#[test]
fn fallback_ladder_runs_xz_then_gzip_then_plain() {
    // A container that defeats xz and gzip: exactly three strategies run,
    // in order, and the plain one wins.
    let mut state = InstallState::TryXz;
    let outcomes: Vec<Result<(), String>> =
        vec![Err("no xz".to_string()), Err("no gzip".to_string()), Ok(())];
    let mut methods = Vec::new();
    for outcome in outcomes {
        let m = ladder_method(&state).expect("ladder should want another attempt");
        methods.push(m);
        state = ladder_next(state, outcome);
    }
    assert_eq!(methods, vec![InstallMethod::Xz, InstallMethod::Gzip, InstallMethod::Plain]);
    assert_eq!(state, InstallState::Installed);
    assert!(ladder_method(&state).is_none());
}

#[test]
fn fallback_ladder_chains_all_three_errors() {
    let mut state = InstallState::TryXz;
    for e in ["e1", "e2", "e3"] {
        state = ladder_next(state, Err(e.to_string()));
    }
    assert_eq!(
        state,
        InstallState::Failed {
            xz_error: "e1".to_string(),
            gzip_error: "e2".to_string(),
            plain_error: "e3".to_string(),
        }
    );
    assert!(ladder_method(&state).is_none());
    let err = SshPodError::BundleInstallFailed {
        base: "/b".to_string(),
        xz_error: "e1".to_string(),
        gzip_error: "e2".to_string(),
        plain_error: "e3".to_string(),
    };
    assert_eq!(
        err.message(),
        "failed to install bundle into /b (xz error: e1; gzip error: e2; plain error: e3)"
    );
}

#[test]
fn ladder_stops_after_first_success() {
    let state = ladder_next(InstallState::TryXz, Ok(()));
    assert_eq!(state, InstallState::Installed);
    assert!(ladder_method(&state).is_none());
}

#[test]
fn base_path_is_a_function_of_uid_and_container() {
    assert_eq!(base_path("abc123", "main"), "/tmp/sshpod/abc123/main");
    assert_eq!(base_path("abc123", "main"), base_path("abc123", "main"));
    assert_ne!(base_path("abc123", "main"), base_path("other", "main"));
}

#[test]
fn lock_and_log_paths() {
    assert_eq!(lock_command("/tmp/sshpod/u/c"), "umask 077; mkdir \"/tmp/sshpod/u/c/lock\"");
    assert_eq!(sshd_log_path("/tmp/sshpod/u/c"), "/tmp/sshpod/u/c/logs/sshd.log");
}

#[test]
fn login_user_check() {
    assert!(uid_is_root("0\n"));
    assert!(!uid_is_root("1000\n"));
    assert!(check_login_user("alice\n", "alice").is_ok());
    let err = check_login_user("app\n", "alice").unwrap_err();
    match &err {
        SshPodError::UserMismatch { requested, actual } => {
            assert_eq!(requested, "alice");
            assert_eq!(actual, "app");
        },
        other => panic!("unexpected error: {:?}", other),
    }
    let msg = err.message();
    assert!(msg.contains("alice"));
    assert!(msg.contains("app"));
}

#[test]
fn authorized_keys_append_is_idempotent() {
    let key = "ssh-ed25519 AAAA caller@host";
    let start: Vec<String> = vec!["ssh-rsa BBBB other@host".to_string()];
    let once = append_key_line(&start, key);
    assert_eq!(once.len(), 2);
    assert_eq!(once[1], key);
    let twice = append_key_line(&once, key);
    assert_eq!(twice, once);
    let thrice = append_key_line(&twice, key);
    assert_eq!(thrice.iter().filter(|l| l.as_str() == key).count(), 1);
}

#[test]
fn rand_port_stays_in_range() {
    for raw in [0u16, 1, 19999, 45000, 65535] {
        let p = rand_port(raw);
        assert!((20000..65000).contains(&p));
    }
    assert_eq!(rand_port(0), 20000);
    assert_eq!(rand_port(44999), 64999);
    assert_eq!(rand_port(45000), 20000);
}

#[test]
fn launcher_reuses_cached_port_while_pid_alive() {
    let attempts: Vec<Option<u16>> = vec![None; 30];
    let first = sshd_launch_outcome(true, &Some(22222), &attempts, "/b/logs/sshd.log").unwrap();
    let second = sshd_launch_outcome(true, &Some(22222), &attempts, "/b/logs/sshd.log").unwrap();
    assert_eq!(first, 22222);
    assert_eq!(first, second);
}

#[test]
fn launcher_takes_first_successful_attempt() {
    let mut attempts: Vec<Option<u16>> = vec![None; 30];
    attempts[3] = Some(23456);
    attempts[7] = Some(34567);
    let port = sshd_launch_outcome(false, &None, &attempts, "/b/logs/sshd.log").unwrap();
    assert_eq!(port, 23456);
    // A dead recorded pid ignores the cached port.
    let port = sshd_launch_outcome(false, &Some(22222), &attempts, "/b/logs/sshd.log").unwrap();
    assert_eq!(port, 23456);
}

#[test]
fn launcher_exhaustion_after_thirty_attempts() {
    let attempts: Vec<Option<u16>> = vec![None; 30];
    let err = sshd_launch_outcome(false, &None, &attempts, "/b/logs/sshd.log").unwrap_err();
    match &err {
        SshPodError::SshdStartFailed { log_path, detail } => {
            assert_eq!(log_path, "/b/logs/sshd.log");
            assert_eq!(detail, "sshd did not start");
        },
        other => panic!("unexpected error: {:?}", other),
    }
}

#[test]
fn port_output_parsing() {
    assert_eq!(parse_port("23456", "/l").unwrap(), 23456);
    assert_eq!(parse_port(" 23456\n", "/l").unwrap(), 23456);
    assert_eq!(parse_port("0", "/l").unwrap(), 0);
    assert_eq!(parse_port("65535", "/l").unwrap(), 65535);
    assert!(parse_port("65536", "/l").is_err());
    assert!(parse_port("999999999999", "/l").is_err());
    assert!(parse_port("", "/l").is_err());
    assert!(parse_port("sshd did not start", "/l").is_err());
    assert!(parse_port("12 34", "/l").is_err());
    let err = parse_port("oops", "/l").unwrap_err();
    match &err {
        SshPodError::SshdStartFailed { log_path, detail } => {
            assert_eq!(log_path, "/l");
            assert_eq!(detail, "unexpected sshd port output: oops");
        },
        other => panic!("unexpected error: {:?}", other),
    }
}

#[test]
fn launch_script_shape() {
    assert!(START_SSHD_SCRIPT.starts_with("#!/bin/sh"));
    assert!(START_SSHD_SCRIPT.contains("grep -qxF \"$PUBKEY_LINE\""));
    assert!(START_SSHD_SCRIPT.contains("ListenAddress 127.0.0.1"));
    assert!(START_SSHD_SCRIPT.contains("while [ $i -lt 30 ]; do"));
    assert!(START_SSHD_SCRIPT.contains("echo $((20000 + (val % 45000)))"));
    assert!(START_SSHD_SCRIPT.contains("Subsystem sftp internal-sftp"));
}

#[test]
fn key_cache_paths() {
    let dir = key_cache_dir("/home/alice");
    assert_eq!(dir, "/home/alice/.cache/sshpod");
    assert_eq!(private_key_path(&dir), "/home/alice/.cache/sshpod/id_ed25519");
    assert_eq!(public_key_path(&dir), "/home/alice/.cache/sshpod/id_ed25519.pub");
    assert!(need_keygen(false, false));
    assert!(need_keygen(true, false));
    assert!(need_keygen(false, true));
    assert!(!need_keygen(true, true));
    let key = local_key_from_file("ssh-ed25519 AAAA caller@host\n");
    assert_eq!(key.public_key, "ssh-ed25519 AAAA caller@host");
}

#[test]
fn context_list_parsing() {
    let out = " staging \n\nprod\n";
    assert_eq!(parse_context_lines(out), vec!["staging".to_string(), "prod".to_string()]);
    assert_eq!(parse_context_lines(""), Vec::<String>::new());
}

#[test]
fn context_namespace_output_parsing() {
    assert_eq!(nonempty_trimmed("  \n"), None);
    assert_eq!(nonempty_trimmed(" team-ns \n"), Some("team-ns".to_string()));
}

#[test]
fn jsonpath_query_shape() {
    assert_eq!(
        context_namespace_jsonpath("staging"),
        "jsonpath={.contexts[?(@.name==\"staging\")].context.namespace}"
    );
}

#[test]
fn exec_failure_messages() {
    assert_eq!(exec_failure_message(&None, "boom"), "kubectl exec failed: boom");
    assert_eq!(
        exec_failure_message(&Some("broken pipe".to_string()), "boom"),
        "kubectl exec failed (stdin error: broken pipe): boom"
    );
}

#[test]
fn hostname_error_messages() {
    let e = SshPodError::BadHostname { err: sshpod::HostSpecError::MissingSuffix };
    assert_eq!(e.message(), "hostname must end with .sshpod");
}

#[test]
fn remaining_error_messages() {
    let e = SshPodError::BundleMissing { filename: "sshd_amd64.xz".into() };
    assert_eq!(
        e.message(),
        "bundle file sshd_amd64.xz not found; place it alongside the binary or in ./bundles"
    );
    let e = SshPodError::BridgeIoError { detail: "broken pipe".into() };
    assert_eq!(e.message(), "bridge I/O failed: broken pipe");
    let e = SshPodError::PortForwardFailed { detail: "exited early".into() };
    assert_eq!(e.message(), "port-forward failed: exited early");
    let e = SshPodError::ClusterQueryFailed { detail: "timeout".into() };
    assert_eq!(e.message(), "cluster query failed: timeout");
}

#[test]
fn install_script_exact_text() {
    let s = install_script(InstallMethod::Plain, PayloadKind::SingleFile, "/b", "v1", "linux/amd64");
    let expected = "set -eu; umask 077; mkdir -p \"/b/bundle\"; chmod 700 \"/b\" \"/b/bundle\"; cat > \"/b/bundle/sshd\"; chmod 700 \"/b/bundle/sshd\"; printf '%s\\n' \"v1\" > \"/b/bundle/VERSION\"; printf '%s\\n' \"linux/amd64\" > \"/b/bundle/ARCH\"; chmod 600 \"/b/bundle/VERSION\" \"/b/bundle/ARCH\";";
    assert_eq!(s, expected);
}

#[test]
fn empty_requested_user_counts_as_unset() {
    assert_eq!(effective_login_user(&Some("alice".to_string()), "bob"), "alice");
    assert_eq!(effective_login_user(&Some(String::new()), "bob"), "bob");
    assert_eq!(effective_login_user(&None, "bob"), "bob");
}
