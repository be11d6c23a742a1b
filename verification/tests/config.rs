use omnect_os_init::config::{CmdlineConfig, Config};
use omnect_os_init::error::{IoError, IoErrorKind};
use omnect_os_init::system::{Reply, Session, Stop};

#[test]
fn test_cmdline_parse_key_value() {
    let cfg = CmdlineConfig::parse("rootpart=2 bootpart_fsuuid=1234-ABCD ro quiet");
    assert_eq!(cfg.get("rootpart"), Some("2"));
    assert_eq!(cfg.get("bootpart_fsuuid"), Some("1234-ABCD"));
}

#[test]
fn test_cmdline_parse_bare_flags() {
    let cfg = CmdlineConfig::parse("rootpart=2 ro quiet");
    assert_eq!(cfg.get("ro"), Some(""));
}

#[test]
fn test_cmdline_parse_missing_key() {
    let cfg = CmdlineConfig::parse("ro quiet");
    assert_eq!(cfg.get("rootpart"), None);
    assert_eq!(cfg.get("bootpart_fsuuid"), None);
}

#[test]
fn test_cmdline_parse_quoted_value() {
    let cfg = CmdlineConfig::parse(r#"root="/dev/mmcblk1p2" ro"#);
    assert_eq!(cfg.get("root"), Some("/dev/mmcblk1p2"));
}

#[test]
fn test_cmdline_default_is_empty() {
    let cfg = CmdlineConfig::default();
    assert_eq!(cfg.get("rootpart"), None);
}

#[test]
fn test_cmdline_duplicate_key_last_wins() {
    let cfg = CmdlineConfig::parse("rootpart=2 rootpart=3");
    assert_eq!(cfg.get("rootpart"), Some("3"));
}

#[test]
fn test_config_default() {
    let cfg = Config::default();
    assert!(!cfg.overlay.persistent_var_log);
}

#[test]
fn config_is_loaded_from_the_kernel_command_line() {
    let mut sys = Session::new(vec![Reply::Text("root=/dev/sda2 quiet\n".to_string())]);
    let cfg = match Config::load(true, &mut sys) {
        Ok(cfg) => cfg,
        Err(_) => panic!("the command line was there"),
    };
    assert_eq!(cfg.cmdline.get("root"), Some("/dev/sda2"));
    assert_eq!(cfg.cmdline.get("quiet"), Some(""));
    assert!(cfg.overlay.persistent_var_log);
}

#[test]
fn unreadable_command_line_is_an_error() {
    let mut sys = Session::new(vec![Reply::Failed(IoError {
        kind: IoErrorKind::NotFound,
        message: "gone".to_string(),
    })]);
    match CmdlineConfig::load(&mut sys) {
        Err(Stop::Failed(e)) => {
            assert_eq!(e.to_string(), "IO error: failed to read /proc/cmdline: gone")
        }
        _ => panic!("expected an error"),
    }
    let mut sys = Session::new(vec![]);
    assert!(matches!(CmdlineConfig::load(&mut sys), Err(Stop::Pending)));
    assert_eq!(sys.asked().len(), 1);
}
