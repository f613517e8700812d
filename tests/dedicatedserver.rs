use astro_server_manager::dedicatedserver::{
    parse_build_version, BuildVersion, InstallError, InstallInfo, InstallProbe,
};

fn probe(line: Option<&str>) -> InstallProbe {
    InstallProbe {
        dir_exists: true,
        is_dir: true,
        executable_present: true,
        wrapper_present: true,
        build_version_line: line.map(|l| l.to_string()),
    }
}

#[test]
fn read_basic_build_file() {
    let res = parse_build_version("1.33.14.0 Build\n");
    assert!(res.is_some());
    let res = res.unwrap();
    assert_eq!(res.0, 1);
    assert_eq!(res.1, 33);
    assert_eq!(res.2, 14);
    assert_eq!(res.3, 0);
}

#[test]
fn build_version_comparison() {
    assert!(BuildVersion(1, 2, 3, 4) < BuildVersion(1, 2, 3, 5));
    assert!(BuildVersion(1, 2, 3, 4) < BuildVersion(1, 2, 4, 4));
    assert!(BuildVersion(2, 2, 3, 4) > BuildVersion(1, 3, 4, 5));
}

#[test]
fn valid_server_environment() {
    let res = InstallInfo::gather(&probe(Some("1.33.14.0 Build\n")));
    assert!(res.is_ok());
    let res = res.unwrap();
    assert_eq!(res.present, true);
    assert_eq!(res.build_version, Some(BuildVersion(1, 33, 14, 0)));
}

#[test]
fn build_version_needs_four_numbers_and_a_space() {
    assert_eq!(parse_build_version("1.33.14 Build"), None);
    assert_eq!(parse_build_version("1.33.14.0"), None);
    assert_eq!(parse_build_version("1.33.14.0\n"), None);
    assert_eq!(parse_build_version("1..14.0 x"), None);
    assert_eq!(parse_build_version("a1.33.14.0 x"), None);
    assert_eq!(parse_build_version("1.33.14.0 "), Some(BuildVersion(1, 33, 14, 0)));
    assert_eq!(parse_build_version("007.0.0.12 x"), Some(BuildVersion(7, 0, 0, 12)));
}

#[test]
fn build_version_numbers_must_fit_i16() {
    assert_eq!(parse_build_version("32767.0.0.0 x"), Some(BuildVersion(32767, 0, 0, 0)));
    assert_eq!(parse_build_version("32768.0.0.0 x"), None);
    assert_eq!(parse_build_version("1.2.3.99999999999999999999 x"), None);
}

#[test]
fn missing_directory_is_not_installed() {
    let mut p = probe(None);
    p.dir_exists = false;
    let r = InstallInfo::gather(&p).unwrap();
    assert!(!r.present);
    assert_eq!(r.build_version, None);
}

#[test]
fn file_in_place_of_directory_is_an_error() {
    let mut p = probe(None);
    p.is_dir = false;
    assert_eq!(InstallInfo::gather(&p).err(), Some(InstallError::NotADirectory));
}

#[test]
fn missing_executable_is_not_installed() {
    let mut p = probe(Some("1.2.3.4 x"));
    p.wrapper_present = false;
    let r = InstallInfo::gather(&p).unwrap();
    assert!(!r.present);
    let mut p = probe(Some("1.2.3.4 x"));
    p.executable_present = false;
    assert!(!InstallInfo::gather(&p).unwrap().present);
}

#[test]
fn unreadable_build_version_leaves_version_unknown() {
    let r = InstallInfo::gather(&probe(None)).unwrap();
    assert!(r.present);
    assert_eq!(r.build_version, None);
    let r = InstallInfo::gather(&probe(Some("garbage"))).unwrap();
    assert!(r.present);
    assert_eq!(r.build_version, None);
}
