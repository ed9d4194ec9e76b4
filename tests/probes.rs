use rsftch::probes::{
    cpu_info, cpu_temp, disk_usage, format_bytes, format_duration, gpu_info, mem, mem_netbsd, mem_usage,
    parse_memory_value, parse_u64, res, search_file, shell_name, temp_label, timezone, unquote, wm,
};

#[test]
fn durations() {
    assert_eq!(format_duration(0), "");
    assert_eq!(format_duration(59), "59 seconds");
    assert_eq!(format_duration(60), "1 minutes");
    assert_eq!(format_duration(3661), "1 hours, 1 minutes, 1 seconds");
    assert_eq!(format_duration(86400), "1 days");
    assert_eq!(format_duration(90061), "1 days, 1 hours, 1 minutes, 1 seconds");
    assert_eq!(format_duration(200000), "2 days, 7 hours, 33 minutes, 20 seconds");
}

#[test]
fn gib_formatting_matches_float_formatting() {
    let samples: Vec<u64> = vec![
        0, 1, 5242, 5243, 10485, 131072, 393216, 655360, 917504, 1048576, 1179648, 16318260,
        8589934, 33554432, 123456789, 1572864, 2621440, 7340032,
    ];
    for k in samples {
        assert_eq!(format_bytes(k), format!("{:.2} GiB", k as f64 / 1048576.0), "kib {}", k);
    }
    for k in (0u64..3_000_000).step_by(977) {
        assert_eq!(format_bytes(k), format!("{:.2} GiB", k as f64 / 1048576.0), "kib {}", k);
    }
}

#[test]
fn gib_exact_values() {
    assert_eq!(format_bytes(1048576), "1.00 GiB");
    assert_eq!(format_bytes(1572864), "1.50 GiB");
    assert_eq!(format_bytes(131072), "0.12 GiB");
    assert_eq!(format_bytes(393216), "0.38 GiB");
}

#[test]
fn memory_usage_text() {
    assert_eq!(mem_usage(16777216, 8388608), "8.00 GiB / 16.00 GiB");
    assert_eq!(mem_usage(100, 200), "0.00 GiB / 0.00 GiB");
    let info = "MemTotal:       16777216 kB\nMemFree:  1 kB\nMemAvailable:    4194304 kB\n";
    assert_eq!(mem(&Some(info.to_string())), "12.00 GiB / 16.00 GiB");
    assert_eq!(mem(&None), "N/A");
    assert_eq!(mem(&Some(String::new())), "0.00 GiB / 0.00 GiB");
}

#[test]
fn netbsd_memory_counts_free() {
    let info = "MemTotal: 2097152 kB\nMemFree: 1048576 kB\n";
    assert_eq!(mem_netbsd(&Some(info.to_string())), "1.00 GiB / 2.00 GiB");
    assert_eq!(mem(&Some(info.to_string())), "2.00 GiB / 2.00 GiB");
    let both = "MemTotal: 2097152 kB\nMemAvailable: 524288 kB\nMemFree: 1048576 kB\n";
    assert_eq!(mem_netbsd(&Some(both.to_string())), "1.00 GiB / 2.00 GiB");
    assert_eq!(mem_netbsd(&None), "N/A");
}

#[test]
fn number_parsing() {
    assert_eq!(parse_u64("42"), Some(42));
    assert_eq!(parse_u64("+7"), Some(7));
    assert_eq!(parse_u64("+"), None);
    assert_eq!(parse_u64(""), None);
    assert_eq!(parse_u64("4x"), None);
    assert_eq!(parse_u64("18446744073709551615"), Some(u64::MAX));
    assert_eq!(parse_u64("18446744073709551616"), None);
    assert_eq!(parse_memory_value("MemTotal: 123 kB"), 123);
    assert_eq!(parse_memory_value("MemTotal:"), 0);
    assert_eq!(parse_memory_value("MemTotal: abc kB"), 0);
}

#[test]
fn shell_names() {
    assert_eq!(shell_name("/usr/bin/zsh"), "zsh");
    assert_eq!(shell_name("fish"), "fish");
    assert_eq!(shell_name("/bin/"), "");
}

#[test]
fn os_release_values() {
    let os = "NAME=\"Arch Linux\"\nPRETTY_NAME=\"Arch Linux\"\nID=arch\nBUILD_ID=rolling\n".to_string();
    let lsb = "DISTRIB_ID=\"Arch\"\nVERSION_ID=1\n".to_string();
    assert_eq!(search_file(&vec![os.clone(), lsb.clone()], "NAME"), Some("Arch Linux".to_string()));
    assert_eq!(search_file(&vec![os.clone(), lsb.clone()], "ID"), Some("arch".to_string()));
    assert_eq!(search_file(&vec![os.clone(), lsb.clone()], "VERSION_ID"), Some("1".to_string()));
    assert_eq!(search_file(&vec![os, lsb], "HOME_URL"), None);
    assert_eq!(search_file(&vec![], "ID"), None);
    assert_eq!(search_file(&vec!["ID\nID=a=b\r\n".to_string()], "ID"), Some("a".to_string()));
    assert_eq!(unquote("\"\"x\"\""), "x");
    assert_eq!(unquote("\"\""), "");
}

#[test]
fn cpu_descriptions() {
    let info = "processor\t: 0\nvendor_id\t: GenuineIntel\nmodel name\t: Intel(R) Core(TM) i7 CPU @ 2.80GHz\n";
    assert_eq!(cpu_info(&Some(info.to_string()), "(40.0\u{b0}C)"), "Intel(R) Core(TM) i7 CPU (40.0\u{b0}C)");
    assert_eq!(cpu_info(&Some("Hardware : BCM2835\n".to_string()), ""), "BCM2835");
    assert_eq!(cpu_info(&Some("nothing here\n".to_string()), "(N/A)"), "N/A (N/A)");
    assert_eq!(cpu_info(&None, "(N/A)"), "N/A (N/A)");
}

#[test]
fn temperatures() {
    let out = "coretemp-isa-0000\nAdapter: ISA adapter\nPackage id 0:  +45.0\u{b0}C  (high = +80.0\u{b0}C)\n";
    assert_eq!(cpu_temp(out), "(45.0\u{b0}C)");
    assert_eq!(cpu_temp("no sensors"), "(N/A)");
    assert_eq!(temp_label(&Some("51.5".to_string())), "(51.5\u{b0}C)");
    assert_eq!(temp_label(&None), "(N/A)");
}

#[test]
fn disk_lines() {
    let df = "Filesystem Size Used Avail Use% Mounted on\ntmpfs 1G 0 1G 0% /run\n/dev/sda1 100G 40G 60G 40% /\n";
    assert_eq!(disk_usage(&Some(df.to_string())), "(/dev/sda1) 40G / 100G (40%)");
    assert_eq!(disk_usage(&Some("/dev/x 1G\n".to_string())), "");
    assert_eq!(disk_usage(&Some("none\n".to_string())), "");
    assert_eq!(disk_usage(&None), "N/A");
}

#[test]
fn resolutions() {
    let out = "Screen 0: minimum 8 x 8\nHDMI-1 connected primary 1920x1080+0+0 (normal) 510mm x 290mm\nDP-1 disconnected (normal)\neDP-1 connected 2560x1440+1920+0 (normal)\n   1920x1080 60.00\n";
    assert_eq!(res(&Some(out.to_string())), "1920x1080, 2560x1440");
    assert_eq!(res(&Some(String::new())), "");
    assert_eq!(res(&None), "N/A");
}

#[test]
fn desktops() {
    let vars = vec![None, Some("GNOME".to_string()), Some("other".to_string())];
    assert_eq!(wm(false, &vars, &None), "");
    assert_eq!(wm(true, &vars, &None), "GNOME");
    let none = vec![None, None, None];
    assert_eq!(wm(true, &none, &Some("xrdb merge\nexec i3\n".to_string())), "i3");
    assert_eq!(wm(true, &none, &Some(String::new())), "N/A");
    assert_eq!(wm(true, &none, &None), "N/A");
}

#[test]
fn timezones() {
    assert_eq!(timezone(&Some("Europe/Oslo\n".to_string()), &None), "Europe/Oslo");
    assert_eq!(
        timezone(&None, &Some("/usr/share/zoneinfo/America/New_York".to_string())),
        "America/New_York"
    );
    assert_eq!(timezone(&None, &Some("/etc/UTC".to_string())), "");
    assert_eq!(timezone(&None, &None), "");
}

#[test]
fn graphics_lines() {
    let out = "00:02.0 VGA compatible controller [0300]: Intel Corporation UHD Graphics 620 [8086:5917]\n01:00.0 VGA compatible controller [0300]: NVIDIA Corporation GP107M [GeForce GTX 1050 Mobile] [10de:1c8d] (rev a1)\n";
    assert_eq!(gpu_info(out, "(50.0\u{b0}C)"), "Intel Integrated 8086:5917 (50.0\u{b0}C)");
    let nv = "01:00.0 VGA compatible controller [0300]: NVIDIA Corporation GP107M [GeForce GTX 1050 Mobile] [10de:1c8d]\n";
    assert_eq!(gpu_info(nv, ""), "NVIDIA GeForce GTX 1050 Mobile ");
    let amd = "03:00.0 VGA compatible controller: Advanced Micro Devices, Inc. [AMD/ATI] Navi 22 [Radeon RX 6700 XT]\n";
    assert_eq!(gpu_info(amd, "t"), "AMD Radeon RX 6700 XT t");
    assert_eq!(gpu_info("", "(N/A)"), "N/A (N/A)");
}
