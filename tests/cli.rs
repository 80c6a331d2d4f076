use bldr_session::cli::{_main, dir_exists, plan_rootfs, RootfsPlan, Subcommand};

#[test]
fn subcommands() {
    assert_eq!(_main("nsrun"), Subcommand::NsRun);
    assert_eq!(_main("run"), Subcommand::Run);
}

#[test]
fn dir_exists_message() {
    assert_eq!(dir_exists("/tmp".to_string(), true), Ok(()));
    assert_eq!(
        dir_exists("/nope".to_string(), false),
        Err("Directory: '/nope' cannot be found".to_string())
    );
}

#[test]
fn rootfs_plans() {
    assert!(matches!(plan_rootfs(None, false), RootfsPlan::Temporary));
    assert!(matches!(plan_rootfs(Some("/r".to_string()), true), RootfsPlan::Refuse(d) if d == "/r"));
    assert!(matches!(plan_rootfs(Some("/r".to_string()), false), RootfsPlan::Create(d) if d == "/r"));
}
