use bowl::errors::Errcode;
use bowl::host::generate_host;
use bowl::mount::{clean_mount, create_directory, delete_dir, random_string};
use bowl::resource::clean_cgroups;
use bowl::text::{dec_u64, split_ascii_ws};

#[test]
fn generate_host_success() {
    let host = generate_host();
    println!("{:?}", host);
    assert!(host.unwrap().len() > 3);
}

#[test]
fn generate_host_shape() {
    let host = generate_host().unwrap();
    let bytes = host.as_bytes();
    assert_eq!(bytes.len(), 9);
    assert_eq!(bytes[4], b'-');
    for (i, c) in bytes.iter().enumerate() {
        if i != 4 {
            assert!(c.is_ascii_lowercase(), "unexpected char in {}", host);
        }
    }
}

#[test]
fn generate_host_consecutive_differ() {
    let a = generate_host().unwrap();
    let b = generate_host().unwrap();
    assert_ne!(a, b);
}

#[test]
fn random_string_success() {
    let dir_name = random_string(3);
    assert_eq!(dir_name.len(), 3);
}

#[test]
fn random_string_zero() {
    let dir_name = random_string(0);
    assert_eq!(dir_name.len(), 3);
}

#[test]
fn random_string_twelve() {
    let dir_name = random_string(12);
    assert_eq!(dir_name.len(), 12);
}

#[test]
fn dec_u64_renders_decimal() {
    assert_eq!(dec_u64(0), "0");
    assert_eq!(dec_u64(7), "7");
    assert_eq!(dec_u64(10000), "10000");
    assert_eq!(dec_u64(2000), "2000");
    assert_eq!(dec_u64(18446744073709551615), "18446744073709551615");
}

#[test]
fn split_ascii_ws_words() {
    let r = split_ascii_ws("a b  c");
    assert_eq!(r, vec!["a".to_string(), "b".to_string(), "c".to_string()]);
}

#[test]
fn split_ascii_ws_trims_edges() {
    let r = split_ascii_ws("  /bin/sh -c 'echo ok'  \t\n");
    assert_eq!(
        r,
        vec![
            "/bin/sh".to_string(),
            "-c".to_string(),
            "'echo".to_string(),
            "ok'".to_string()
        ]
    );
    for w in r {
        assert!(!w.is_empty());
    }
}

#[test]
fn split_ascii_ws_empty() {
    assert_eq!(split_ascii_ws(""), Vec::<String>::new());
    assert_eq!(split_ascii_ws(" \t "), Vec::<String>::new());
}

#[test]
fn create_and_delete_directories() {
    let unique = random_string(12);
    let base = format!("/tmp/bowltest.{}", unique);
    let nested = format!("{}/a/b", base);
    assert!(create_directory(&nested).is_ok());
    // creating again hits the already-existing levels and still succeeds
    assert!(create_directory(&nested).is_ok());
    assert!(delete_dir(&nested).is_ok());
    assert!(delete_dir(&format!("{}/a", base)).is_ok());
    assert!(delete_dir(&base).is_ok());
    // the directory is gone now, so a second removal fails
    match delete_dir(&base) {
        Err(Errcode::MountError(1)) => {}
        other => panic!("expected MountError(1), got {:?}", other),
    }
}

#[test]
fn unmount_not_mounted_reports_mount_error() {
    // a plain directory that is not a mount point cannot be unmounted
    let base = format!("/tmp/bowlumnt.{}", random_string(12));
    assert!(create_directory(&base).is_ok());
    match bowl::mount::unmount_path(&base) {
        Err(Errcode::MountError(0)) => {}
        other => panic!("expected MountError(0), got {:?}", other),
    }
    assert!(delete_dir(&base).is_ok());
}

#[test]
fn create_directory_under_file_fails() {
    match create_directory(&String::from("/etc/hostname/sub")) {
        Err(Errcode::MountError(2)) => {}
        other => panic!("expected MountError(2), got {:?}", other),
    }
}

#[test]
fn clean_mount_is_noop() {
    assert!(clean_mount(&String::from("/anything")).is_ok());
}

#[test]
fn clean_cgroups_missing_is_distinct() {
    let (r, _) = clean_cgroups(&String::from("bowltest-no-such-group"));
    match r {
        Err(Errcode::ResourcesError(3)) => {}
        other => panic!("expected ResourcesError(3), got {:?}", other),
    }
}
