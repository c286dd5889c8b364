use bowl::config_opts::ContainerOptions;
use bowl::errors::Errcode;

#[test]
fn config_new_success() {
    let mut add_paths = vec![];
    let frompath_1 = String::from("foo");
    let mntpath_1 = String::from("bar");
    add_paths.push((frompath_1, mntpath_1));
    let frompath_2 = String::from("buzz");
    let mntpath_2 = String::from("hoge");
    add_paths.push((frompath_2, mntpath_2));

    let config = ContainerOptions::new(String::from("bash"), 0, String::from("/tmp"), add_paths);
    let args = vec![String::from("bash")];
    println!("{:?}", config);
    match config {
        Ok((config, (row_fd1, row_fd2))) => {
            assert_eq!(config.path, String::from("bash"));
            assert_eq!(config.args, args);
            assert_eq!(config.uid, 0);
            assert_eq!(config.mount_directory, String::from("/tmp"));
            assert_eq!(config.add_paths[0].0, String::from("foo"));
            assert_eq!(config.add_paths[0].1, String::from("bar"));
            assert_eq!(config.add_paths[1].0, String::from("buzz"));
            assert_eq!(config.add_paths[1].1, String::from("hoge"));
            assert!(row_fd1 > 0);
            assert!(row_fd2 > 0);
        }
        Err(_) => panic!("assert error"),
    }
}

#[test]
fn config_rejects_missing_mount_dir() {
    let r = ContainerOptions::new(
        String::from("/bin/sh -c true"),
        0,
        String::from("/does/not/exist"),
        vec![],
    );
    match r {
        Err(Errcode::InvalidArgument(field)) => assert_eq!(field, "mount_directory"),
        other => panic!("expected InvalidArgument, got {:?}", other),
    }
}

#[test]
fn config_rejects_non_directory_mount_dir() {
    let r = ContainerOptions::new(
        String::from("/bin/sh"),
        0,
        String::from("/etc/hostname"),
        vec![],
    );
    match r {
        Err(Errcode::InvalidArgument(field)) => assert_eq!(field, "mount_directory"),
        other => panic!("expected InvalidArgument, got {:?}", other),
    }
}

#[test]
fn config_rejects_empty_command() {
    let r = ContainerOptions::new(String::from("   "), 0, String::from("/tmp"), vec![]);
    match r {
        Err(Errcode::InvalidArgument(field)) => assert_eq!(field, "command"),
        other => panic!("expected InvalidArgument, got {:?}", other),
    }
}

#[test]
fn config_splits_command_into_argv() {
    let r = ContainerOptions::new(String::from("a b  c"), 42, String::from("/tmp"), vec![]);
    let (config, _fds) = r.expect("config should build");
    assert_eq!(config.args.len(), 3);
    assert_eq!(config.args[0], "a");
    assert_eq!(config.args[1], "b");
    assert_eq!(config.args[2], "c");
    assert_eq!(config.path, "a");
    assert_eq!(config.uid, 42);
}

#[test]
fn config_strips_leading_slashes_and_canonicalizes() {
    let add_paths = vec![(String::from("/etc"), String::from("/mnt/etc"))];
    let r = ContainerOptions::new(String::from("sh"), 0, String::from("/tmp"), add_paths);
    let (config, _fds) = r.expect("config should build");
    assert_eq!(config.add_paths[0].0, "/etc");
    assert_eq!(config.add_paths[0].1, "mnt/etc");
}

#[test]
fn config_hostname_is_two_words() {
    let r = ContainerOptions::new(String::from("sh"), 0, String::from("/tmp"), vec![]);
    let (config, _fds) = r.expect("config should build");
    let h = config.hostname.as_bytes();
    assert_eq!(h.len(), 9);
    assert_eq!(h[4], b'-');
    for (i, c) in h.iter().enumerate() {
        if i != 4 {
            assert!(c.is_ascii_lowercase());
        }
    }
}
