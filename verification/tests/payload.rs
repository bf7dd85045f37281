use std::collections::HashMap;

use licker::detect::os::OsInfo;
use licker::detect::ProbeError;
use licker::payload::{assemble, Payload};
use serde_json::Value;

fn sample_os() -> OsInfo {
    OsInfo {
        os: "Linux".to_string(),
        kernel: "6.6.1-arch1-1".to_string(),
        arch: "x86_64".to_string(),
        distro: "Arch Linux".to_string(),
    }
}

#[test]
fn test_payload_json() {
    let hw_id = "testhwid";
    let distro = "testdistro";
    let package_manager = "testpm";
    let os = "testos";
    let kernel = "testkernel";
    let arch = "testarch";
    let package_list = vec![String::from("testpackage1"), String::from("testpackage2")];

    let payload = Payload {
        hw_id: Some(hw_id.to_string()),
        distro: Some(distro.to_string()),
        package_manager: package_manager.to_string(),
        os: Some(OsInfo {
            os: os.to_string(),
            kernel: kernel.to_string(),
            arch: arch.to_string(),
            distro: distro.to_string(),
        }),
        package_list: package_list.clone(),
    };

    // Serialize/Deserialize JSON
    let payload_json = payload.to_json();

    let deserialized_payload: HashMap<String, Value> =
        serde_json::from_str(&payload_json).unwrap();

    assert!(matches!(deserialized_payload.get("hwId"), Some(Value::String(ref val)) if val == &hw_id));
    assert!(matches!(deserialized_payload.get("distro"), Some(Value::String(ref val)) if val == &distro));
    assert!(matches!(deserialized_payload.get("packageManager"), Some(Value::String(ref val)) if val == &package_manager));
    assert!(matches!(deserialized_payload.get("os"), Some(Value::String(ref val)) if val == &os));
    assert!(matches!(deserialized_payload.get("kernel"), Some(Value::String(ref val)) if val == &kernel));
    assert!(matches!(deserialized_payload.get("arch"), Some(Value::String(ref val)) if val == &arch));
}

#[test]
fn payload_json_is_flat_and_complete() {
    let payload = Payload {
        hw_id: Some("testhwid".to_string()),
        distro: Some("testdistro".to_string()),
        package_manager: "testpm".to_string(),
        os: Some(OsInfo {
            os: "testos".to_string(),
            kernel: "testkernel".to_string(),
            arch: "testarch".to_string(),
            distro: "shown to people only".to_string(),
        }),
        package_list: vec!["testpackage1".to_string(), "testpackage2".to_string()],
    };
    assert_eq!(
        payload.to_json(),
        "{\"hwId\":\"testhwid\",\"distro\":\"testdistro\",\"packageManager\":\"testpm\",\
         \"os\":\"testos\",\"kernel\":\"testkernel\",\"arch\":\"testarch\",\
         \"packageList\":[\"testpackage1\",\"testpackage2\"]}"
    );
    let parsed: HashMap<String, Value> = serde_json::from_str(&payload.to_json()).unwrap();
    assert_eq!(parsed.len(), 7);
    assert!(matches!(parsed.get("os"), Some(Value::String(_))));
    assert_eq!(
        parsed.get("packageList"),
        Some(&Value::Array(vec![
            Value::String("testpackage1".to_string()),
            Value::String("testpackage2".to_string()),
        ]))
    );
}

#[test]
fn payload_json_of_nothing_found() {
    let payload = assemble(
        Err(ProbeError::Unavailable),
        Err(ProbeError::SyscallFailed),
        Err(ProbeError::NotFound),
        Vec::new(),
    );
    assert_eq!(payload.to_json(), "{\"packageManager\":\"pacman\",\"packageList\":[]}");
    let parsed: HashMap<String, Value> = serde_json::from_str(&payload.to_json()).unwrap();
    assert_eq!(parsed.len(), 2);
    assert_eq!(parsed.get("packageList"), Some(&Value::Array(Vec::new())));
}

#[test]
fn payload_json_escapes_what_json_must() {
    let payload = Payload {
        hw_id: Some("a\"b\\c".to_string()),
        distro: None,
        package_manager: "line\nbreak".to_string(),
        os: None,
        package_list: vec!["tab\there".to_string(), "caf\u{e9}".to_string()],
    };
    let json = payload.to_json();
    assert_eq!(
        json,
        "{\"hwId\":\"a\\\"b\\\\c\",\"packageManager\":\"line\\nbreak\",\
         \"packageList\":[\"tab\\there\",\"caf\u{e9}\"]}"
    );
    let parsed: HashMap<String, Value> = serde_json::from_str(&json).unwrap();
    assert_eq!(parsed.get("hwId"), Some(&Value::String("a\"b\\c".to_string())));
    assert_eq!(parsed.get("packageManager"), Some(&Value::String("line\nbreak".to_string())));
}

#[test]
fn payload_fields_in_wire_order() {
    let payload = assemble(
        Ok("abc".to_string()),
        Ok(sample_os()),
        Ok("arch".to_string()),
        vec!["vim".to_string()],
    );
    let fields = payload.fields();
    let keys: Vec<&str> = fields.iter().map(|field| field.0.as_str()).collect();
    assert_eq!(
        keys,
        vec!["hwId", "distro", "packageManager", "os", "kernel", "arch", "packageList"]
    );
    assert_eq!(fields[0].1, "\"abc\"");
    assert_eq!(fields[1].1, "\"arch\"");
    assert_eq!(fields[2].1, "\"pacman\"");
    assert_eq!(fields[3].1, "\"Linux\"");
    assert_eq!(fields[4].1, "\"6.6.1-arch1-1\"");
    assert_eq!(fields[5].1, "\"x86_64\"");
    assert_eq!(fields[6].1, "[\"vim\"]");
}

#[test]
fn assemble_keeps_what_was_found() {
    let payload = assemble(
        Ok("abc".to_string()),
        Ok(sample_os()),
        Ok("arch".to_string()),
        vec!["vim".to_string(), "git".to_string()],
    );
    assert_eq!(
        payload,
        Payload {
            hw_id: Some("abc".to_string()),
            distro: Some("arch".to_string()),
            package_manager: "pacman".to_string(),
            os: Some(sample_os()),
            package_list: vec!["vim".to_string(), "git".to_string()],
        }
    );
}

#[test]
fn assemble_for_every_combination_of_failures() {
    for mask in 0u8..8 {
        let hw = if mask & 1 != 0 { Ok("abc".to_string()) } else { Err(ProbeError::Unavailable) };
        let os = if mask & 2 != 0 { Ok(sample_os()) } else { Err(ProbeError::SyscallFailed) };
        let distro = if mask & 4 != 0 { Ok("arch".to_string()) } else { Err(ProbeError::NotFound) };
        let payload = assemble(hw, os, distro, Vec::new());
        assert_eq!(payload.hw_id.is_some(), mask & 1 != 0);
        assert_eq!(payload.os.is_some(), mask & 2 != 0);
        assert_eq!(payload.distro.is_some(), mask & 4 != 0);
        assert_eq!(payload.package_manager, "pacman");
        assert!(payload.package_list.is_empty());

        let parsed: HashMap<String, Value> = serde_json::from_str(&payload.to_json()).unwrap();
        assert_eq!(parsed.contains_key("hwId"), mask & 1 != 0);
        assert_eq!(parsed.contains_key("os"), mask & 2 != 0);
        assert_eq!(parsed.contains_key("kernel"), mask & 2 != 0);
        assert_eq!(parsed.contains_key("arch"), mask & 2 != 0);
        assert_eq!(parsed.contains_key("distro"), mask & 4 != 0);
        assert_eq!(parsed.get("packageManager"), Some(&Value::String("pacman".to_string())));
        assert_eq!(parsed.get("packageList"), Some(&Value::Array(Vec::new())));
    }
}

#[test]
fn assemble_ignores_which_error_it_was() {
    let one = assemble(Err(ProbeError::NotFound), Err(ProbeError::NotFound), Err(ProbeError::NotFound), Vec::new());
    let other = assemble(
        Err(ProbeError::Unavailable),
        Err(ProbeError::SyscallFailed),
        Err(ProbeError::Unavailable),
        Vec::new(),
    );
    assert_eq!(one, other);
}

#[test]
fn partial_payload_end_to_end() {
    let payload = assemble(
        Err(ProbeError::Unavailable),
        Ok(sample_os()),
        Err(ProbeError::NotFound),
        vec!["vim".to_string(), "git".to_string()],
    );
    assert_eq!(payload.hw_id, None);
    assert_eq!(payload.distro, None);
    assert_eq!(payload.os, Some(sample_os()));
    assert_eq!(payload.package_manager, "pacman");
    assert_eq!(payload.package_list, vec!["vim".to_string(), "git".to_string()]);

    let json = payload.to_json();
    assert_eq!(
        json,
        "{\"packageManager\":\"pacman\",\"os\":\"Linux\",\"kernel\":\"6.6.1-arch1-1\",\
         \"arch\":\"x86_64\",\"packageList\":[\"vim\",\"git\"]}"
    );
    let parsed: HashMap<String, Value> = serde_json::from_str(&json).unwrap();
    assert!(!parsed.contains_key("hwId"));
    assert!(!parsed.contains_key("distro"));
    assert_eq!(parsed.get("os"), Some(&Value::String("Linux".to_string())));
    assert_eq!(parsed.get("kernel"), Some(&Value::String("6.6.1-arch1-1".to_string())));
    assert_eq!(parsed.get("arch"), Some(&Value::String("x86_64".to_string())));
}
