use omnect_os_init::config::CmdlineConfig;
use omnect_os_init::partition::device::{
    detect_root_device_from_cmdline, parse_blkid_output, parse_cmdline_param,
    split_partition_suffix,
};
use omnect_os_init::partition::layout::{build_partition_map, partition_suffix};
use omnect_os_init::partition::symlinks::symlink_path;
use omnect_os_init::partition::{
    parse_device_path, root_device_from_blkid, PartitionLayout, PartitionName, PartitionTable,
    RootDevice,
};
use omnect_os_init::system::{Reply, Request, Session, Stop};

fn device(base: &str, sep: &str, root: &str) -> RootDevice {
    RootDevice {
        base: base.to_string(),
        partition_sep: sep.to_string(),
        root_partition: root.to_string(),
    }
}

#[test]
fn test_parse_blkid_output_found() {
    let output = "/dev/sda1: UUID=\"abcd-1234\" TYPE=\"vfat\"\n\
                  /dev/sda2: UUID=\"3fbe07d8-7dc2-4afb-8929-f0bdcb4a3ec5\" BLOCK_SIZE=\"4096\" TYPE=\"ext4\"\n";
    assert_eq!(
        parse_blkid_output(output, "abcd-1234").unwrap(),
        "/dev/sda1"
    );
    assert_eq!(
        parse_blkid_output(output, "3fbe07d8-7dc2-4afb-8929-f0bdcb4a3ec5").unwrap(),
        "/dev/sda2"
    );
}

#[test]
fn blkid_output_is_read_by_field() {
    let output = "/dev/sda5: PARTUUID=\"abcd-1234\"\n\
                  /dev/sda1: UUID=\"abcd-1234\" TYPE=\"vfat\"\n";
    assert_eq!(
        parse_blkid_output(output, "abcd-1234").unwrap(),
        "/dev/sda1"
    );
    let output = "/dev/sda: PTUUID=\"abcd-1234\" PTTYPE=\"gpt\"\n";
    assert!(parse_blkid_output(output, "abcd-1234").is_err());
}

#[test]
fn test_parse_blkid_output_not_found() {
    let output = "/dev/sda1: UUID=\"abcd-1234\" TYPE=\"vfat\"\n";
    assert!(parse_blkid_output(output, "0000-0000").is_err());
}

#[test]
fn test_parse_blkid_output_lvm_skipped() {
    // LVM member has UUID in a different format; should not match fs UUID
    let output = "/dev/sda3: UUID=\"cxCxgR-SzbH-ea59-BRsb\" TYPE=\"LVM2_member\"\n\
                  /dev/sda1: UUID=\"abcd-1234\" TYPE=\"vfat\"\n";
    assert_eq!(
        parse_blkid_output(output, "abcd-1234").unwrap(),
        "/dev/sda1"
    );
}

#[test]
fn test_parse_cmdline_param_bootpart_fsuuid() {
    let cmdline = "rootpart=2 bootpart_fsuuid=1234-ABCD ro quiet";
    assert_eq!(
        parse_cmdline_param(cmdline, "rootpart").unwrap(),
        Some("2".to_string())
    );
    assert_eq!(
        parse_cmdline_param(cmdline, "bootpart_fsuuid").unwrap(),
        Some("1234-ABCD".to_string())
    );
}

#[test]
fn test_parse_cmdline_param_rootpart() {
    let cmdline = "rootpart=2 console=ttyS0,115200 quiet";
    assert_eq!(
        parse_cmdline_param(cmdline, "rootpart").unwrap(),
        Some("2".to_string())
    );
    assert_eq!(
        parse_cmdline_param(cmdline, "bootpart_fsuuid").unwrap(),
        None
    );
}

#[test]
fn test_parse_cmdline_param_missing() {
    let cmdline = "ro quiet";
    assert_eq!(parse_cmdline_param(cmdline, "rootpart").unwrap(), None);
    assert_eq!(
        parse_cmdline_param(cmdline, "bootpart_fsuuid").unwrap(),
        None
    );
}

#[test]
fn test_parse_cmdline_param_complex() {
    let cmdline = "rootpart=2 coherent_pool=1M console=ttyS0,115200 bootpart_fsuuid=ABCD-1234 ro";
    assert_eq!(
        parse_cmdline_param(cmdline, "rootpart").unwrap(),
        Some("2".to_string())
    );
    assert_eq!(
        parse_cmdline_param(cmdline, "bootpart_fsuuid").unwrap(),
        Some("ABCD-1234".to_string())
    );
}

#[test]
fn test_parse_cmdline_param_uboot_root() {
    let cmdline = "root=/dev/mmcblk1p2 ro quiet";
    assert_eq!(
        parse_cmdline_param(cmdline, "root").unwrap(),
        Some("/dev/mmcblk1p2".to_string())
    );
    assert_eq!(parse_cmdline_param(cmdline, "rootpart").unwrap(), None);
}

#[test]
fn test_split_partition_suffix_sata() {
    assert_eq!(
        split_partition_suffix("sda2").unwrap(),
        ("sda".to_string(), String::new())
    );
}

#[test]
fn test_split_partition_suffix_mmc() {
    assert_eq!(
        split_partition_suffix("mmcblk1p2").unwrap(),
        ("mmcblk1".to_string(), "p".to_string())
    );
}

#[test]
fn test_split_partition_suffix_nvme() {
    assert_eq!(
        split_partition_suffix("nvme0n1p2").unwrap(),
        ("nvme0n1".to_string(), "p".to_string())
    );
}

#[test]
fn test_split_partition_suffix_virtio() {
    assert_eq!(
        split_partition_suffix("vda2").unwrap(),
        ("vda".to_string(), String::new())
    );
}

#[test]
fn partition_suffix_cannot_be_split_from_a_disk() {
    assert_eq!(
        split_partition_suffix("sda").unwrap_err().to_string(),
        "device detection failed: could not derive base device from: sda"
    );
}

#[test]
fn test_root_device_partition_path_sata() {
    let device = device("/dev/sda", "", "/dev/sda2");
    assert_eq!(device.partition_path(1), "/dev/sda1");
    assert_eq!(device.partition_path(7), "/dev/sda7");
}

#[test]
fn test_root_device_partition_path_mmc() {
    let device = device("/dev/mmcblk0", "p", "/dev/mmcblk0p2");
    assert_eq!(device.partition_path(1), "/dev/mmcblk0p1");
    assert_eq!(device.partition_path(7), "/dev/mmcblk0p7");
}

#[test]
fn test_root_device_partition_path_nvme() {
    let device = device("/dev/nvme0n1", "p", "/dev/nvme0n1p2");
    assert_eq!(device.partition_path(1), "/dev/nvme0n1p1");
    assert_eq!(device.partition_path(7), "/dev/nvme0n1p7");
}

#[test]
fn test_root_device_partition_path_virtio() {
    let device = device("/dev/vda", "", "/dev/vda2");
    assert_eq!(device.partition_path(1), "/dev/vda1");
    assert_eq!(device.partition_path(7), "/dev/vda7");
}

fn sda_root_a() -> RootDevice {
    device("/dev/sda", "", "/dev/sda2")
}

fn nvme_root_a() -> RootDevice {
    device("/dev/nvme0n1", "p", "/dev/nvme0n1p2")
}

fn mmc_root_b() -> RootDevice {
    device("/dev/mmcblk0", "p", "/dev/mmcblk0p3")
}

fn path(s: &str) -> String {
    s.to_string()
}

#[test]
fn test_partition_map_gpt_sata() {
    let map = build_partition_map(&sda_root_a(), PartitionTable::Gpt).unwrap();

    assert_eq!(map.get(&PartitionName::Boot), Some(&path("/dev/sda1")));
    assert_eq!(map.get(&PartitionName::RootA), Some(&path("/dev/sda2")));
    assert_eq!(map.get(&PartitionName::RootB), Some(&path("/dev/sda3")));
    assert_eq!(map.get(&PartitionName::Factory), Some(&path("/dev/sda4")));
    assert_eq!(map.get(&PartitionName::Cert), Some(&path("/dev/sda5")));
    assert_eq!(map.get(&PartitionName::Etc), Some(&path("/dev/sda6")));
    assert_eq!(map.get(&PartitionName::Data), Some(&path("/dev/sda7")));
    assert_eq!(map.get(&PartitionName::RootCurrent), Some(&path("/dev/sda2")));
    assert_eq!(map.get(&PartitionName::Extended), None);
}

#[test]
fn test_partition_map_dos_sata() {
    let map = build_partition_map(&sda_root_a(), PartitionTable::Dos).unwrap();

    assert_eq!(map.get(&PartitionName::Boot), Some(&path("/dev/sda1")));
    assert_eq!(map.get(&PartitionName::RootA), Some(&path("/dev/sda2")));
    assert_eq!(map.get(&PartitionName::RootB), Some(&path("/dev/sda3")));
    assert_eq!(map.get(&PartitionName::Extended), Some(&path("/dev/sda4")));
    assert_eq!(map.get(&PartitionName::Factory), Some(&path("/dev/sda5")));
    assert_eq!(map.get(&PartitionName::Cert), Some(&path("/dev/sda6")));
    assert_eq!(map.get(&PartitionName::Etc), Some(&path("/dev/sda7")));
    assert_eq!(map.get(&PartitionName::Data), Some(&path("/dev/sda8")));
}

#[test]
fn test_partition_map_gpt_nvme() {
    let map = build_partition_map(&nvme_root_a(), PartitionTable::Gpt).unwrap();

    assert_eq!(map.get(&PartitionName::Boot), Some(&path("/dev/nvme0n1p1")));
    assert_eq!(map.get(&PartitionName::RootA), Some(&path("/dev/nvme0n1p2")));
    assert_eq!(map.get(&PartitionName::Data), Some(&path("/dev/nvme0n1p7")));
}

#[test]
fn test_partition_map_dos_mmc() {
    let map = build_partition_map(&mmc_root_b(), PartitionTable::Dos).unwrap();

    assert_eq!(map.get(&PartitionName::Boot), Some(&path("/dev/mmcblk0p1")));
    assert_eq!(map.get(&PartitionName::Data), Some(&path("/dev/mmcblk0p8")));
}

#[test]
fn unknown_root_partition_is_refused() {
    let e = PartitionLayout::new(device("/dev/sda", "", "/dev/sda5"), PartitionTable::Gpt).unwrap_err();
    assert!(e.to_string().contains("/dev/sda5"));
}

#[test]
fn test_root_current_root_a() {
    for table in [PartitionTable::Gpt, PartitionTable::Dos] {
        let layout = PartitionLayout::new(sda_root_a(), table).unwrap();
        assert_eq!(layout.root_current(), "/dev/sda2");
    }
}

#[test]
fn test_root_current_root_b() {
    for table in [PartitionTable::Gpt, PartitionTable::Dos] {
        let layout = PartitionLayout::new(mmc_root_b(), table).unwrap();
        assert_eq!(layout.root_current(), "/dev/mmcblk0p3");
    }
}

#[test]
fn test_partition_suffix() {
    assert_eq!(partition_suffix("/dev/sda2"), Some(2));
    assert_eq!(partition_suffix("/dev/mmcblk0p2"), Some(2));
    assert_eq!(partition_suffix("/dev/mmcblk0p3"), Some(3));
    assert_eq!(partition_suffix("/dev/nvme0n1p12"), Some(12));
    assert_eq!(partition_suffix("/dev/sda"), None);
}

#[test]
fn test_partition_name_as_str() {
    assert_eq!(PartitionName::Boot.as_str(), "boot");
    assert_eq!(PartitionName::RootA.as_str(), "rootA");
    assert_eq!(PartitionName::RootB.as_str(), "rootB");
    assert_eq!(PartitionName::RootCurrent.as_str(), "rootCurrent");
    assert_eq!(PartitionName::Factory.as_str(), "factory");
    assert_eq!(PartitionName::Cert.as_str(), "cert");
    assert_eq!(PartitionName::Etc.as_str(), "etc");
    assert_eq!(PartitionName::Data.as_str(), "data");
}

#[test]
fn test_partition_name_display() {
    assert_eq!(PartitionName::Boot.to_string(), "boot");
    assert_eq!(PartitionName::Data.to_string(), "data");
}

#[test]
fn test_partition_layout_uses_typed_keys() {
    let layout = PartitionLayout::new(sda_root_a(), PartitionTable::Gpt).unwrap();
    assert!(layout.partitions.contains_key(&PartitionName::Boot));
    assert!(layout.partitions.contains_key(&PartitionName::Data));
}

#[test]
fn test_symlink_path() {
    assert_eq!(symlink_path("boot"), "/dev/omnect/boot");
    assert_eq!(symlink_path("rootA"), "/dev/omnect/rootA");
    assert_eq!(symlink_path("rootblk"), "/dev/omnect/rootblk");
}

fn is_device(rd: &RootDevice, base: &str, sep: &str, root: &str) {
    assert_eq!(rd.base, base);
    assert_eq!(rd.partition_sep, sep);
    assert_eq!(rd.root_partition, root);
}

#[test]
fn test_grub_sata_root_a() {
    let rd = root_device_from_blkid("/dev/sda1", 2).unwrap();
    is_device(&rd, "/dev/sda", "", "/dev/sda2");
}

#[test]
fn test_grub_sata_root_b() {
    let rd = root_device_from_blkid("/dev/sda1", 3).unwrap();
    is_device(&rd, "/dev/sda", "", "/dev/sda3");
}

#[test]
fn test_grub_nvme_root_a() {
    let rd = root_device_from_blkid("/dev/nvme0n1p1", 2).unwrap();
    is_device(&rd, "/dev/nvme0n1", "p", "/dev/nvme0n1p2");
}

#[test]
fn test_grub_nvme_root_b() {
    let rd = root_device_from_blkid("/dev/nvme0n1p1", 3).unwrap();
    is_device(&rd, "/dev/nvme0n1", "p", "/dev/nvme0n1p3");
}

#[test]
fn test_grub_nvme_multi_namespace() {
    let rd = root_device_from_blkid("/dev/nvme1n2p1", 2).unwrap();
    is_device(&rd, "/dev/nvme1n2", "p", "/dev/nvme1n2p2");
}

#[test]
fn test_grub_emmc() {
    let rd = root_device_from_blkid("/dev/mmcblk0p1", 2).unwrap();
    is_device(&rd, "/dev/mmcblk0", "p", "/dev/mmcblk0p2");
}

#[test]
fn test_grub_sd_second_slot() {
    let rd = root_device_from_blkid("/dev/mmcblk1p1", 2).unwrap();
    is_device(&rd, "/dev/mmcblk1", "p", "/dev/mmcblk1p2");
}

#[test]
fn test_grub_usb_sata_naming() {
    let rd = root_device_from_blkid("/dev/sdb1", 2).unwrap();
    is_device(&rd, "/dev/sdb", "", "/dev/sdb2");
}

#[test]
fn test_grub_virtio() {
    let rd = root_device_from_blkid("/dev/vda1", 2).unwrap();
    is_device(&rd, "/dev/vda", "", "/dev/vda2");
}

#[test]
fn test_uboot_emmc_root_a() {
    let rd = parse_device_path("/dev/mmcblk0p2").unwrap();
    is_device(&rd, "/dev/mmcblk0", "p", "/dev/mmcblk0p2");
}

#[test]
fn test_uboot_emmc_root_b() {
    let rd = parse_device_path("/dev/mmcblk0p3").unwrap();
    is_device(&rd, "/dev/mmcblk0", "p", "/dev/mmcblk0p3");
}

#[test]
fn test_uboot_sd_root_b() {
    let rd = parse_device_path("/dev/mmcblk1p3").unwrap();
    is_device(&rd, "/dev/mmcblk1", "p", "/dev/mmcblk1p3");
}

fn build_layout(rd: RootDevice, table: PartitionTable) -> PartitionLayout {
    PartitionLayout::new(rd, table).unwrap()
}

fn root_number(cmdline: &str) -> u32 {
    CmdlineConfig::parse(cmdline)
        .get("rootpart")
        .unwrap()
        .parse()
        .unwrap()
}

#[test]
fn test_full_pipeline_x86_sata_grub_root_a() {
    let part_num = root_number("rootpart=2 bootpart_fsuuid=ABCD-1234 ro quiet");

    let rd = root_device_from_blkid("/dev/sda1", part_num).unwrap();
    let layout = build_layout(rd, PartitionTable::Gpt);

    assert_eq!(layout.device.base, "/dev/sda");
    assert_eq!(layout.get(PartitionName::Data), Some(&path("/dev/sda7")));
    assert_eq!(layout.root_current(), "/dev/sda2");
}

#[test]
fn test_full_pipeline_x86_nvme_grub_root_b() {
    let part_num = root_number("rootpart=3 bootpart_fsuuid=ABCD-1234 ro quiet");

    let rd = root_device_from_blkid("/dev/nvme0n1p1", part_num).unwrap();
    let layout = build_layout(rd, PartitionTable::Gpt);

    assert_eq!(layout.device.base, "/dev/nvme0n1");
    assert_eq!(layout.root_current(), "/dev/nvme0n1p3");
    assert_eq!(layout.get(PartitionName::Data), Some(&path("/dev/nvme0n1p7")));
}

#[test]
fn test_full_pipeline_arm_emmc_uboot_root_a() {
    let rd = parse_device_path("/dev/mmcblk0p2").unwrap();
    let layout = build_layout(rd, PartitionTable::Dos);

    assert_eq!(layout.device.base, "/dev/mmcblk0");
    assert_eq!(layout.root_current(), "/dev/mmcblk0p2");
    assert_eq!(layout.get(PartitionName::Data), Some(&path("/dev/mmcblk0p8")));
}

#[test]
fn test_full_pipeline_arm_sd_uboot_root_b() {
    let rd = parse_device_path("/dev/mmcblk1p3").unwrap();
    let layout = build_layout(rd, PartitionTable::Dos);

    assert_eq!(layout.device.base, "/dev/mmcblk1");
    assert_eq!(layout.root_current(), "/dev/mmcblk1p3");
}

#[test]
fn test_full_pipeline_x86_virtio_grub() {
    let part_num = root_number("rootpart=2 bootpart_fsuuid=ABCD-1234 ro quiet");

    let rd = root_device_from_blkid("/dev/vda1", part_num).unwrap();
    let layout = build_layout(rd, PartitionTable::Gpt);

    assert_eq!(layout.device.base, "/dev/vda");
    assert_eq!(layout.get(PartitionName::Data), Some(&path("/dev/vda7")));
}

fn detect_error(cmdline: &str) -> String {
    let mut sys = Session::new(vec![Reply::Text(cmdline.to_string())]);
    match detect_root_device_from_cmdline("/proc/cmdline", &mut sys) {
        Err(Stop::Failed(e)) => e.to_string(),
        _ => panic!("expected an error"),
    }
}

#[test]
fn detection_errors_name_the_parameter() {
    let prefix = "device detection failed: ";
    assert_eq!(
        detect_error("ro quiet"),
        format!("{prefix}neither rootpart= (GRUB) nor root= (U-Boot) found in kernel cmdline")
    );
    assert_eq!(
        detect_error("rootpart=2"),
        format!("{prefix}rootpart= present but bootpart_fsuuid= missing from cmdline")
    );
    assert_eq!(
        detect_error("rootpart=two"),
        format!("{prefix}rootpart= is not a valid partition number: two")
    );
    assert_eq!(
        detect_error("root=LABEL=x"),
        format!("{prefix}root= must start with /dev/, got: LABEL=x")
    );
}

#[test]
fn detection_waits_for_the_root_device() {
    let mut sys = Session::new(vec![
        Reply::Text("root=/dev/mmcblk1p2".to_string()),
        Reply::Millis(0),
        Reply::Flag(true),
    ]);
    match detect_root_device_from_cmdline("/proc/cmdline", &mut sys) {
        Ok(rd) => is_device(&rd, "/dev/mmcblk1", "p", "/dev/mmcblk1p2"),
        Err(_) => panic!("asked {:?}", sys.asked()),
    }
    assert!(sys
        .asked()
        .iter()
        .any(|r| matches!(r, Request::Exists(p) if p == "/dev/mmcblk1p2")));
}
