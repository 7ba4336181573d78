use about_this_linux::config::{Config, ConfigError};
use about_this_linux::display::{
    detect_connection_type, detect_displays, detect_displays_wlr_randr, detect_displays_xrandr, DisplayInfo,
    DrmConnector,
};
use about_this_linux::distro::{DistroError, DynamicSystemInfo};
use about_this_linux::fastfetch::parse_fastfetch_json;
use about_this_linux::json::parse_json;
use about_this_linux::markup::escape_markup;
use about_this_linux::memory::get_memory_info;
use about_this_linux::serial::get_serial_number;
use about_this_linux::storage::{
    detect_filesystems, detect_storage_interface, detect_storage_type, get_device_health,
    get_device_temperature, DeviceProbe, StorageInfo,
};
use about_this_linux::system::{
    get_fastfetch_info, get_startup_disk, parse_fastfetch_text, reorder_cpu_description,
    SystemInfo, SystemSources,
};

fn no_sources() -> SystemSources {
    SystemSources {
        fastfetch: None,
        hostname_env: None,
        hostname_command: None,
        meminfo: None,
        dmidecode_memory: None,
        lshw_memory: None,
        free: None,
        lsblk_mounts: None,
        dmidecode_baseboard: None,
        board_serial: None,
        product_serial: None,
        lshw_system: None,
        machine_id: None,
    }
}

const FASTFETCH_JSON: &str = r#"[
  {"type": "Title", "result": {"hostName": "workstation", "userName": "kim"}},
  {"type": "CPU", "result": {"cpu": "AMD Ryzen 7 5800X", "cores": {"physical": 8, "logical": 16},
   "frequency": {"base": 3800, "max": 4850}}},
  {"type": "Memory", "result": {"total": 34359738368}},
  {"type": "GPU", "result": [{"name": "Radeon RX 6700", "vendor": "AMD"}]},
  {"type": "Disk", "result": [
     {"mountpoint": "/boot", "bytes": {"total": 1073741824}, "filesystem": "vfat"},
     {"mountpoint": "/", "bytes": {"total": 536870912000}, "filesystem": "ext4"}]},
  {"type": "Host", "result": {"vendor": "ASUS", "version": "Rev 1.0", "serial": "SN123"}},
  {"type": "Kernel", "result": {"release": "6.1.0"}}
]"#;

const XRANDR: &str = "Screen 0: minimum 8 x 8, current 3840 x 1080, maximum 32767 x 32767
HDMI-1 connected primary 1920x1080+0+0 (0x46) normal (normal left inverted right x axis y axis) 527mm x 296mm
\tIdentifier: 0x42
\tDepth: 24 bits
  1920x1080 (0x46) 148.500MHz +HSync +VSync *current +preferred
        h: width  1920 start 2008 end 2052 total 2200 skew    0 clock  67.50KHz
   1920x1080     60.00*+  50.00    59.94
DP-2 connected 1920x1080+1920+0 (0x47) normal (normal left inverted right x axis y axis) 598mm x 336mm
   2560x1440     59.95 +
   1920x1080     74.97*   60.00
VGA-1 disconnected (normal left inverted right x axis y axis)
";

#[test]
fn cpu_frequency_moves_to_front() {
    assert_eq!(reorder_cpu_description("Model X @ 3.5GHz"), "3.5GHz Model X");
}

#[test]
fn cpu_without_at_is_unchanged() {
    assert_eq!(reorder_cpu_description("Model X 3.5GHz"), "Model X 3.5GHz");
    assert_eq!(reorder_cpu_description(""), "");
}

#[test]
fn cpu_is_split_at_the_first_at() {
    assert_eq!(reorder_cpu_description("A @ B @ C"), "B @ C A");
}

#[test]
fn memory_one_gib() {
    let r = get_memory_info(Some("MemTotal:        1048576 kB\nMemFree: 12 kB\n"), None, None, None);
    assert_eq!(r, "1.0 GB");
}

#[test]
fn memory_promotes_to_terabytes() {
    let r = get_memory_info(Some("MemTotal: 1073741824 kB\n"), None, None, None);
    assert_eq!(r, "1.0 TB");
    let r = get_memory_info(Some("MemTotal: 1153433600 kB\n"), None, None, None);
    assert_eq!(r, "1.1 TB");
}

#[test]
fn memory_rounds_to_one_decimal() {
    // 16 GiB minus a little: 15.9 GiB.
    let r = get_memory_info(Some("MemTotal: 16675012 kB\n"), None, None, None);
    assert_eq!(r, "15.9 GB");
}

#[test]
fn memory_speed_and_type_from_dmidecode() {
    let dmi = "Memory Device\n\tType: Unknown\n\tSpeed: Unknown\n\tType: DDR4\n\tSpeed: 3200 MT/s\n";
    let r = get_memory_info(Some("MemTotal: 33554432 kB\n"), Some(dmi), None, None);
    assert_eq!(r, "32.0 GB Unknown DDR4");
}

#[test]
fn memory_speed_is_written_in_mhz() {
    let dmi = "Memory Device\n\tSpeed: 3200 MT/s\n\tType: DDR4\n";
    let r = get_memory_info(Some("MemTotal: 33554432 kB\n"), Some(dmi), None, None);
    assert_eq!(r, "32.0 GB 3200 MHz DDR4");
}

#[test]
fn memory_type_from_lshw() {
    let lshw = "H/W path  Device  Class  Description\n/0/1  memory  16GiB System Memory\n/0/1/0  memory  8GiB DIMM DDR4 Synchronous 3200 MHz\n";
    let r = get_memory_info(Some("MemTotal: 16777216 kB\n"), Some(""), Some(lshw), None);
    assert_eq!(r, "16.0 GB DDR4");
}

#[test]
fn memory_falls_back_to_free() {
    let free = "               total        used        free\nMem:            15Gi       4.0Gi       8.0Gi\n";
    assert_eq!(get_memory_info(None, None, None, Some(free)), "15GiB RAM");
    assert_eq!(get_memory_info(Some("MemTotal: nothing\n"), None, None, Some(free)), "15GiB RAM");
}

#[test]
fn memory_unknown_without_sources() {
    assert_eq!(get_memory_info(None, None, None, None), "Unknown Memory");
    assert_eq!(get_memory_info(Some(""), Some(""), Some(""), Some("")), "Unknown Memory");
}

#[test]
fn os_release_without_codename() {
    let d = DynamicSystemInfo::detect(Some("NAME=\"Ubuntu\"\nVERSION=\"24.04 LTS\"\n"), Some("6.8.0-31-generic\n")).unwrap();
    assert_eq!(d.distro_name, "Ubuntu");
    assert_eq!(d.distro_version, "24.04 LTS");
    assert_eq!(d.distro_codename, None);
    assert_eq!(d.kernel, "6.8.0-31-generic");
    assert_eq!(
        d.get_distro_markup(),
        "<span font-size='xx-large'><span font-weight='bold'>Ubuntu</span></span>"
    );
}

#[test]
fn os_release_with_codename() {
    let d = DynamicSystemInfo::detect(Some("NAME=\"Debian GNU/Linux\"\nVERSION_CODENAME=bookworm\n"), None).unwrap();
    assert_eq!(d.distro_codename, Some("bookworm".to_string()));
    assert_eq!(d.distro_version, "Unknown Version");
    assert_eq!(d.kernel, "Unknown");
    assert_eq!(
        d.get_distro_markup(),
        "<span font-size='xx-large'><span font-weight='bold'>Debian GNU/Linux </span>bookworm</span>"
    );
}

#[test]
fn os_release_unreadable_is_an_error() {
    assert!(matches!(DynamicSystemInfo::detect(None, Some("6.1")), Err(DistroError::OsReleaseUnreadable)));
}

#[test]
fn os_release_defaults_when_empty() {
    let d = DynamicSystemInfo::detect(Some(""), Some("  \n")).unwrap();
    assert_eq!(d.distro_name, "Unknown Linux");
    assert_eq!(d.kernel, "Unknown");
}

#[test]
fn storage_nvme_classification() {
    assert_eq!(detect_storage_type("nvme0n1", "Samsung 980"), "NVMe SSD");
    assert_eq!(detect_storage_interface("nvme0n1"), "NVMe");
}

#[test]
fn storage_sata_ssd_classification() {
    assert_eq!(detect_storage_type("sda", "Samsung SSD 860 EVO"), "SSD");
    assert_eq!(detect_storage_interface("sda"), "SATA/USB");
}

#[test]
fn storage_other_classifications() {
    assert_eq!(detect_storage_type("sdb", "WDC Hard Disk"), "HDD");
    assert_eq!(detect_storage_type("sdb", "WDC WD10EZEX"), "Disk");
    assert_eq!(detect_storage_type("mmcblk0", "SC64G"), "eMMC");
    assert_eq!(detect_storage_type("vda", "virtio"), "Unknown");
    assert_eq!(detect_storage_interface("hda"), "IDE/PATA");
    assert_eq!(detect_storage_interface("mmcblk0"), "eMMC/SD");
    assert_eq!(detect_storage_interface("vda"), "Unknown");
}

#[test]
fn storage_excludes_loop_devices() {
    let json = r#"{"blockdevices": [
        {"name": "loop0", "size": "4K", "type": "loop", "model": null, "serial": null},
        {"name": "loop1", "size": "4K", "type": "disk", "model": null, "serial": null},
        {"name": "nvme0n1", "size": "476.9G", "type": "disk", "model": "Samsung SSD 980", "serial": "S1"},
        {"name": "sda", "size": "931.5G", "type": "disk", "model": "Samsung SSD 860", "serial": "S2"}
    ]}"#;
    let info = StorageInfo::detect(Some(json), None, &vec![], None);
    assert_eq!(info.devices.len(), 2);
    assert_eq!(info.devices[0].name, "/dev/nvme0n1");
    assert_eq!(info.devices[0].device_type, "NVMe SSD");
    assert_eq!(info.devices[0].interface, "NVMe");
    assert_eq!(info.devices[1].name, "/dev/sda");
    assert_eq!(info.devices[1].device_type, "SSD");
    assert_eq!(info.devices[1].interface, "SATA/USB");
    assert_eq!(info.devices[1].serial, "S2");
    assert!(info.devices.iter().all(|d| !d.name.starts_with("/dev/loop")));
}

#[test]
fn storage_text_fallback() {
    let text = "NAME    SIZE TYPE MODEL\nloop0     4K loop \nsda    931.5G disk WDC WD10EZEX-08W\nsr0    1024M rom  DVD RW\n";
    let info = StorageInfo::detect(Some("not json"), Some(text), &vec![], None);
    assert_eq!(info.devices.len(), 1);
    assert_eq!(info.devices[0].name, "/dev/sda");
    assert_eq!(info.devices[0].model, "WDC WD10EZEX-08W");
    assert_eq!(info.devices[0].size, "931.5G");
    assert_eq!(info.devices[0].serial, "Unknown");
    assert_eq!(info.devices[0].device_type, "Disk");
}

#[test]
fn storage_probes_give_temperature_and_health() {
    let probe = DeviceProbe {
        nvme_smart_log: None,
        smartctl_attributes: Some("ID# ATTRIBUTE_NAME FLAG VALUE WORST THRESH TYPE UPDATED WHEN_FAILED RAW_VALUE\n194 Temperature_Celsius 0x0022 064 052 000 Old_age Always - 36\n".to_string()),
        smartctl_health: Some("SMART overall-health self-assessment test result: PASSED\n".to_string()),
    };
    assert_eq!(get_device_temperature("sda", &probe), Some("36°C".to_string()));
    assert_eq!(get_device_health(&probe), Some("PASSED".to_string()));
    let nvme = DeviceProbe {
        nvme_smart_log: Some("critical_warning : 0\ntemperature : 35 C (308 Kelvin)\n".to_string()),
        smartctl_attributes: None,
        smartctl_health: None,
    };
    assert_eq!(get_device_temperature("nvme0n1", &nvme), Some("35 C (308 Kelvin)".to_string()));
    assert_eq!(get_device_health(&nvme), None);
    let json = r#"{"blockdevices": [{"name": "sda", "size": "1T", "type": "disk", "model": "X", "serial": "Y"}]}"#;
    let info = StorageInfo::detect(Some(json), None, &vec![("sda".to_string(), probe)], None);
    assert_eq!(info.devices[0].temperature, Some("36°C".to_string()));
    assert_eq!(info.devices[0].health, Some("PASSED".to_string()));
}

#[test]
fn filesystems_from_df() {
    let df = "Filesystem     Type   Size  Used Avail Use% Mounted on\n/dev/nvme0n1p2 ext4   468G  200G  245G  45% /\ntmpfs          tmpfs  7.8G  1.2M  7.8G   1% /run\nudev           devtmpfs 7.8G 0 7.8G 0% /dev\n/dev/sda1 vfat 511M 6.1M 505M - /boot/efi\n";
    let fs = detect_filesystems(Some(df));
    assert_eq!(fs.len(), 3);
    assert_eq!(fs[0].device, "/dev/nvme0n1p2");
    assert_eq!(fs[0].filesystem_type, "ext4");
    assert_eq!(fs[0].mountpoint, "/");
    assert_eq!(fs[0].usage_percent, 45);
    assert_eq!(fs[1].device, "tmpfs");
    assert_eq!(fs[2].usage_percent, 0);
    assert!(detect_filesystems(None).is_empty());
}

#[test]
fn xrandr_two_connected_displays() {
    let ds = detect_displays_xrandr(XRANDR);
    assert_eq!(ds.len(), 2);
    assert_eq!(ds.iter().filter(|d| d.is_primary).count(), 1);
    assert_eq!(ds[0].name, "HDMI-1");
    assert!(ds[0].is_primary);
    assert_eq!(ds[0].resolution, "1920x1080");
    assert_eq!(ds[0].refresh_rate, "60.00 Hz");
    assert_eq!(ds[0].color_depth, "24 bit");
    assert_eq!(ds[0].connection_type, "HDMI");
    assert_eq!(ds[1].name, "DP-2");
    assert_eq!(ds[1].resolution, "1920x1080");
    assert_eq!(ds[1].refresh_rate, "74.97 Hz");
    assert_eq!(ds[1].connection_type, "DisplayPort");
    let info = DisplayInfo::detect(Some(XRANDR), None, &vec![]);
    assert_eq!(info.displays.len(), 2);
}

#[test]
fn wlr_randr_blocks() {
    let out = "eDP-1 \"Sharp 0x1453\"\n  Enabled: yes\n  Modes:\n    1920x1080 px, 60.000000 Hz *\n";
    let ds = detect_displays_wlr_randr(out);
    assert_eq!(ds.len(), 1);
    assert_eq!(ds[0].name, "eDP-1");
    assert!(!ds[0].is_primary);
    assert_eq!(ds[0].resolution, "1920x1080");
    assert_eq!(ds[0].refresh_rate, "Hz");
    let ds = detect_displays(Some(""), Some(out), &vec![]);
    assert_eq!(ds[0].name, "eDP-1");
}

#[test]
fn drm_fallback_first_connected_is_primary() {
    let conns = vec![
        DrmConnector { name: "card0".to_string(), status: None },
        DrmConnector { name: "card0-HDMI-A-1".to_string(), status: Some("disconnected\n".to_string()) },
        DrmConnector { name: "card0-eDP-1".to_string(), status: Some("connected\n".to_string()) },
        DrmConnector { name: "card0-DP-1".to_string(), status: Some("connected\n".to_string()) },
    ];
    let ds = detect_displays(None, None, &conns);
    assert_eq!(ds.len(), 2);
    assert_eq!(ds[0].name, "eDP");
    assert!(ds[0].is_primary);
    assert_eq!(ds[1].name, "DP");
    assert!(!ds[1].is_primary);
}

#[test]
fn placeholder_display_when_nothing_found() {
    let ds = detect_displays(None, Some(""), &vec![]);
    assert_eq!(ds.len(), 1);
    assert_eq!(ds[0].name, "Display");
    assert!(ds[0].is_primary);
    assert_eq!(ds[0].resolution, "Unknown");
    assert_eq!(ds[0].rotation, "Normal");
    assert_eq!(ds[0].scale_factor, "1.0");
    assert_eq!(ds[0].color_profile, "Default");
    assert_eq!(ds[0].connection_type, "Unknown");
}

#[test]
fn connection_types() {
    assert_eq!(detect_connection_type("HDMI-A-1"), Some("HDMI".to_string()));
    assert_eq!(detect_connection_type("DisplayPort-0"), Some("DisplayPort".to_string()));
    assert_eq!(detect_connection_type("VGA-1"), Some("VGA".to_string()));
    assert_eq!(detect_connection_type("DVI-I-1"), Some("DVI".to_string()));
    assert_eq!(detect_connection_type("USB-C-0"), Some("USB-C".to_string()));
    assert_eq!(detect_connection_type("LVDS-1"), Some("Internal".to_string()));
    assert_eq!(detect_connection_type("Virtual-1"), None);
}

#[test]
fn fastfetch_json_facts() {
    let v = parse_json(FASTFETCH_JSON).expect("valid JSON");
    let m = parse_fastfetch_json(&v);
    assert_eq!(m.get("Host"), Some("workstation".to_string()));
    assert_eq!(m.get("User"), Some("kim".to_string()));
    assert_eq!(
        m.get("CPU"),
        Some("AMD Ryzen 7 5800X (8 cores, 16 threads) @ 3.8-4.8 GHz".to_string())
    );
    assert_eq!(m.get("Memory"), Some("32.0 GB".to_string()));
    assert_eq!(m.get("GPU"), Some("AMD Radeon RX 6700".to_string()));
    assert_eq!(m.get("Startup Disk"), Some("500.0 GB (ext4)".to_string()));
    assert_eq!(m.get("Hardware"), Some("ASUS Rev 1.0".to_string()));
    assert_eq!(m.get("Serial Number"), Some("SN123".to_string()));
    assert_eq!(m.get("Kernel"), None);
}

#[test]
fn fastfetch_text_strips_escapes() {
    let out = "\x1b[1;34mHost\x1b[0m: Laptop 9\n\x1b[1;34mCPU\x1b[0m: Intel i7 @ 4.70 GHz\nno colon here\nEmpty:\n";
    let m = parse_fastfetch_text(out);
    assert_eq!(m.get("Host"), Some("Laptop 9".to_string()));
    assert_eq!(m.get("CPU"), Some("Intel i7 @ 4.70 GHz".to_string()));
    assert_eq!(m.get("Empty"), None);
    assert_eq!(m.entries.len(), 2);
}

#[test]
fn system_info_from_fastfetch_json() {
    let mut src = no_sources();
    src.fastfetch = Some(FASTFETCH_JSON.to_string());
    src.meminfo = Some("MemTotal: 33554432 kB\n".to_string());
    src.lsblk_mounts = Some("MOUNTPOINT NAME LABEL\n/boot/efi nvme0n1p1\n/ nvme0n1p2 Linux Root\n".to_string());
    src.board_serial = Some("BS-42\n".to_string());
    let info = SystemInfo::detect(&src);
    assert_eq!(info.hostname, "workstation");
    assert_eq!(info.cpu, "3.8-4.8 GHz AMD Ryzen 7 5800X (8 cores, 16 threads)");
    assert_eq!(info.graphics, "AMD Radeon RX 6700");
    assert_eq!(info.memory, "32.0 GB");
    assert_eq!(info.startup_disk, "Linux Root");
    assert_eq!(info.serial_number, "BS-42");
    let config = info.to_config("logo.png".to_string());
    assert_eq!(config.distro_image_path, "logo.png");
    assert_eq!(config.distro_image_size, [512, 512]);
    assert_eq!(config.cpu, info.cpu);
    assert_eq!(config.serial_num, "BS-42");
    assert_eq!(config.overview_margins, [60, 60, 60, 60]);
}

#[test]
fn system_info_hostname_fallbacks() {
    let mut src = no_sources();
    src.hostname_env = Some(String::new());
    src.hostname_command = Some("  box\n".to_string());
    let info = SystemInfo::detect(&src);
    assert_eq!(info.hostname, "box");
    src.hostname_env = Some("envhost".to_string());
    assert_eq!(SystemInfo::detect(&src).hostname, "envhost");
}

#[test]
fn empty_sources_give_sentinels() {
    let info = SystemInfo::detect(&no_sources());
    assert_eq!(info.hostname, "Unknown Host");
    assert_eq!(info.cpu, "Unknown CPU");
    assert_eq!(info.memory, "Unknown Memory");
    assert_eq!(info.startup_disk, "Unknown");
    assert_eq!(info.graphics, "Unknown Graphics");
    assert_eq!(info.serial_number, "Unknown");
    let mut src = no_sources();
    src.fastfetch = Some(String::new());
    src.lsblk_mounts = Some("garbage\n/\n".to_string());
    let info = SystemInfo::detect(&src);
    assert_eq!(info.cpu, "Unknown CPU");
    assert_eq!(info.startup_disk, "Unknown");
    let storage = StorageInfo::detect(Some("{}"), Some(""), &vec![], Some(""));
    assert!(storage.devices.is_empty());
    assert!(storage.filesystems.is_empty());
}

#[test]
fn detection_is_repeatable() {
    let mut src = no_sources();
    src.fastfetch = Some(FASTFETCH_JSON.to_string());
    src.meminfo = Some("MemTotal: 8388608 kB\n".to_string());
    src.machine_id = Some("0123456789abcdef\n".to_string());
    let a = SystemInfo::detect(&src);
    let b = SystemInfo::detect(&src);
    assert_eq!(
        (a.hostname, a.cpu, a.memory, a.startup_disk, a.graphics, a.serial_number),
        (b.hostname, b.cpu, b.memory, b.startup_disk, b.graphics, b.serial_number)
    );
    let x = DisplayInfo::detect(Some(XRANDR), None, &vec![]);
    let y = DisplayInfo::detect(Some(XRANDR), None, &vec![]);
    let names = |i: &DisplayInfo| i.displays.iter().map(|d| (d.name.clone(), d.resolution.clone(), d.is_primary)).collect::<Vec<_>>();
    assert_eq!(names(&x), names(&y));
}

#[test]
fn serial_chain() {
    let dmi = Some("Base Board Information\n\tSerial Number: Not Specified\n".to_string());
    let board = Some("Not Specified\n".to_string());
    let product = Some("  PF2X9\n".to_string());
    assert_eq!(get_serial_number(&dmi, &board, &product, &None, &None), "PF2X9");
    let dmi_ok = Some("\tSerial Number: MB-7781\n".to_string());
    assert_eq!(get_serial_number(&dmi_ok, &board, &product, &None, &None), "MB-7781");
    let lshw = Some("H/W path Device Class Description\n/0 system ThinkPad X1 ABCDE12345\n".to_string());
    assert_eq!(get_serial_number(&None, &None, &None, &lshw, &None), "ABCDE12345");
    let id = Some("0123456789abcdef0123456789abcdef\n".to_string());
    assert_eq!(get_serial_number(&None, &None, &None, &None, &id), "machine-01234567");
    assert_eq!(get_serial_number(&None, &None, &None, &None, &Some("abc".to_string())), "machine-abc");
    assert_eq!(get_serial_number(&None, &None, &None, &None, &None), "Unknown");
}

#[test]
fn startup_disk_row() {
    assert_eq!(get_startup_disk(&Some("/ sda2\n".to_string())), "sda2");
    assert_eq!(get_startup_disk(&None), "Unknown");
}

#[test]
fn fastfetch_info_reads_text_when_not_json() {
    let m = get_fastfetch_info("OS: Arch Linux\nHost: Desktop\n");
    assert_eq!(m.get("Host"), Some("Desktop".to_string()));
}

#[test]
fn markup_is_escaped() {
    assert_eq!(escape_markup("a & b <c> \"d\" 'e'"), "a &amp; b &lt;c&gt; &quot;d&quot; &apos;e&apos;");
    assert_eq!(escape_markup("plain"), "plain");
}

#[test]
fn config_defaults_and_validation() {
    let c = Config::default();
    assert_eq!(c.distro_image_path, "tux-logo.png");
    assert_eq!(c.distro_image_size, [512, 512]);
    assert_eq!(c.section_space, 20);
    assert_eq!(c.logo_space, 60);
    assert!(c.font_family.is_none());
    assert!(c.validate(true).is_ok());
    match c.validate(false) {
        Err(e @ ConfigError::ImageNotFound(_)) => {
            assert_eq!(e.message(), "Distro image not found: tux-logo.png")
        },
        _ => panic!("expected a missing image"),
    }
    let mut bad = Config::default();
    bad.distro_image_size = [0, 512];
    match bad.validate(true) {
        Err(e @ ConfigError::InvalidImageSize) => assert_eq!(e.message(), "Invalid image size"),
        _ => panic!("expected an invalid size"),
    }
}

#[test]
fn plain_text_host_line_is_not_the_hostname() {
    let mut src = no_sources();
    src.fastfetch = Some("Host: ThinkPad X1 Carbon\nCPU: Intel i7\n".to_string());
    src.hostname_env = Some("myhost".to_string());
    let info = SystemInfo::detect(&src);
    assert_eq!(info.hostname, "myhost");
    assert_eq!(info.cpu, "Intel i7");
}

#[test]
fn os_release_strips_one_pair_of_quotes() {
    let d = DynamicSystemInfo::detect(Some("NAME=\"a\nVERSION=\"\"x\"\"\n"), None).unwrap();
    assert_eq!(d.distro_name, "\"a");
    assert_eq!(d.distro_version, "\"x\"");
}

#[test]
fn xrandr_depth_without_trailing_text() {
    let out = "HDMI-1 connected 1920x1080+0+0\n\tDepth: 24\n";
    let ds = detect_displays_xrandr(out);
    assert_eq!(ds.len(), 1);
    assert_eq!(ds[0].color_depth, "24 bit");
    assert_eq!(ds[0].resolution, "Unknown");
    assert!(!ds[0].is_primary);
}

#[test]
fn df_usage_above_one_hundred_is_unparseable() {
    let df = "Filesystem Type Size Used Avail Use% Mounted on\n/dev/sda1 ext4 10G 1G 9G 150% /\n";
    let fs = detect_filesystems(Some(df));
    assert_eq!(fs.len(), 1);
    assert_eq!(fs[0].usage_percent, 0);
}

#[test]
fn fastfetch_info_prefers_json() {
    let m = get_fastfetch_info(FASTFETCH_JSON);
    assert_eq!(m.get("Host"), Some("workstation".to_string()));
    assert_eq!(m.get("GPU"), Some("AMD Radeon RX 6700".to_string()));
}
