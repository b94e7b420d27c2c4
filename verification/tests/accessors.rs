use snapcraft::Env;

fn setup() -> Env {
    let mut env = Env::new();
    env.push("SNAP".to_string(), "/snap/hello-world/27".to_string());
    env.push("SNAP_ARCH".to_string(), "armhf".to_string());
    env.push("SNAP_COMMON".to_string(), "/var/snap/hello-world/common".to_string());
    env.push("SNAP_DATA".to_string(), "/var/snap/hello-world/27".to_string());
    env.push("SNAP_INSTANCE_NAME".to_string(), "hello-world".to_string());
    env.push("SNAP_INSTANCE_KEY".to_string(), "foo".to_string());
    env.push("SNAP_LIBRARY_PATH".to_string(), "/var/lib/snapd/lib/gl:".to_string());
    env.push("SNAP_NAME".to_string(), "hello-world".to_string());
    env.push("SNAP_REAL_HOME".to_string(), "/home/user".to_string());
    env.push("SNAP_REVISION".to_string(), "27".to_string());
    env.push("SNAP_SAVE_DATA".to_string(), "/snap/hello-world/27/save".to_string());
    env.push("SNAP_USER_COMMON".to_string(), "/home/zyga/snap/hello-world/common".to_string());
    env.push("SNAP_USER_DATA".to_string(), "/home/zyga/snap/hello-world/27".to_string());
    env.push("SNAP_VERSION".to_string(), "v1.0.0".to_string());
    env
}

#[test]
fn snap() {
    let env = setup();
    let val = snapcraft::snap(&env);
    assert!(val.is_some());
    assert_eq!(val.unwrap(), "/snap/hello-world/27");
}

#[test]
fn in_snap() {
    let env = setup();
    let val = snapcraft::in_snap(&env);
    assert!(val);
}

#[test]
fn not_in_snap() {
    let env = Env::new();
    let val = snapcraft::in_snap(&env);
    assert!(!val);
}

#[test]
fn check_snap_home() {
    let env = setup();
    let val = snapcraft::check_snap_home(&env);
    assert!(val.0);
    assert!(val.1.is_some());
    assert_eq!(val.1.unwrap().as_str(), "/home/user");
}

#[test]
fn not_check_snap_home() {
    let env = Env::new();
    let val = snapcraft::check_snap_home(&env);
    assert!(!val.0);
    assert!(val.1.is_none());
}

#[test]
fn snap_arch() {
    let env = setup();
    let val = snapcraft::snap_arch(&env);
    assert!(val.is_some());
    assert_eq!(val.unwrap(), "armhf");
}

#[test]
fn snap_common() {
    let env = setup();
    let val = snapcraft::snap_common(&env);
    assert!(val.is_some());
    assert_eq!(val.unwrap().as_str(), "/var/snap/hello-world/common");
}

#[test]
fn snap_data() {
    let env = setup();
    let val = snapcraft::snap_data(&env);
    assert!(val.is_some());
    assert_eq!(val.unwrap().as_str(), "/var/snap/hello-world/27");
}

#[test]
fn snap_instance_name() {
    let env = setup();
    let val = snapcraft::snap_instance_name(&env);
    assert!(val.is_some());
    assert_eq!(val.unwrap(), "hello-world");
}

#[test]
fn snap_instance_key() {
    let env = setup();
    let val = snapcraft::snap_instance_key(&env);
    assert!(val.is_some());
    assert_eq!(val.unwrap(), "foo");
}

#[test]
fn snap_library_path() {
    let env = setup();
    let val = snapcraft::snap_library_path(&env);
    assert!(val.is_some());
    let val = val.unwrap();
    assert_eq!(val.len(), 1);
    assert_eq!(val[0].as_str(), "/var/lib/snapd/lib/gl");
}

#[test]
fn snap_name() {
    let env = setup();
    let val = snapcraft::snap_name(&env);
    assert!(val.is_some());
    assert_eq!(val.unwrap(), "hello-world");
}

#[test]
fn snap_real_home() {
    let env = setup();
    let val = snapcraft::snap_real_home(&env);
    assert!(val.is_some());
    assert_eq!(val.unwrap().as_str(), "/home/user");
}

#[test]
fn snap_revision() {
    let env = setup();
    let val = snapcraft::snap_revision(&env);
    assert!(val.is_some());
    assert_eq!(val.unwrap(), "27");
}

#[test]
fn snap_save_data() {
    let env = setup();
    let val = snapcraft::snap_save_data(&env);
    assert!(val.is_some());
    assert_eq!(val.unwrap().as_str(), "/snap/hello-world/27/save");
}

#[test]
fn snap_user_common() {
    let env = setup();
    let val = snapcraft::snap_user_common(&env);
    assert!(val.is_some());
    assert_eq!(val.unwrap().as_str(), "/home/zyga/snap/hello-world/common");
}

#[test]
fn snap_user_data() {
    let env = setup();
    let val = snapcraft::snap_user_data(&env);
    assert!(val.is_some());
    assert_eq!(val.unwrap().as_str(), "/home/zyga/snap/hello-world/27");
}

#[test]
fn snap_version() {
    let env = setup();
    let val = snapcraft::snap_version(&env);
    assert!(val.is_some());
    assert_eq!(val.unwrap(), "v1.0.0");
}

#[test]
fn snap_env() {
    let env = setup();
    let val = snapcraft::snap_env(&env);
    assert!(val.is_some());
    if let Some(val) = val {
        assert_eq!(val.len(), 14);
        assert_eq!(val.get("SNAP").unwrap(), "/snap/hello-world/27");
        assert_eq!(val.get("SNAP_ARCH").unwrap(), "armhf");
        assert_eq!(val.get("SNAP_COMMON").unwrap(), "/var/snap/hello-world/common");
        assert_eq!(val.get("SNAP_DATA").unwrap(), "/var/snap/hello-world/27");
        assert_eq!(val.get("SNAP_INSTANCE_NAME").unwrap(), "hello-world");
        assert_eq!(val.get("SNAP_INSTANCE_KEY").unwrap(), "foo");
        assert_eq!(val.get("SNAP_LIBRARY_PATH").unwrap(), "/var/lib/snapd/lib/gl:");
        assert_eq!(val.get("SNAP_NAME").unwrap(), "hello-world");
        assert_eq!(val.get("SNAP_REAL_HOME").unwrap(), "/home/user");
        assert_eq!(val.get("SNAP_REVISION").unwrap(), "27");
        assert_eq!(val.get("SNAP_SAVE_DATA").unwrap(), "/snap/hello-world/27/save");
        assert_eq!(val.get("SNAP_USER_COMMON").unwrap(), "/home/zyga/snap/hello-world/common");
        assert_eq!(val.get("SNAP_USER_DATA").unwrap(), "/home/zyga/snap/hello-world/27");
        assert_eq!(val.get("SNAP_VERSION").unwrap(), "v1.0.0");
    }
}

#[test]
fn no_snap_env() {
    let mut env = Env::new();
    env.push("HOME".to_string(), "/home/user".to_string());
    env.push("PATH".to_string(), "/usr/bin:/bin".to_string());
    let val = snapcraft::snap_env(&env);
    assert!(val.is_none());
}
