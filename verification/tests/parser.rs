use web_identity::Arch;
use web_identity::Error;
use web_identity::Platform;
use web_identity::arch;
use web_identity::desktop_env;
use web_identity::devicename;
use web_identity::distro;
use web_identity::hostname;
use web_identity::platform;
use web_identity::DesktopEnv;

const CHROME_WINDOWS: &str = "Mozilla/5.0 (Windows NT 10.0; Win64; x64) AppleWebKit/537.36 (KHTML, like Gecko) Chrome/98.0.4758.102 Safari/537.36";
const SAFARI_LINUX: &str =
    "Mozilla/5.0 (X11; Linux x86_64) AppleWebKit/537.36 (KHTML, like Gecko) Safari/537.36";
const SAFARI_MAC: &str = "Mozilla/5.0 (Macintosh; Intel Mac OS X 10_15_7) AppleWebKit/605.1.15 (KHTML, like Gecko) Version/15.1 Safari/605.1.15";

#[test]
fn chrome_windows_platform() {
    assert_eq!(platform(Some(CHROME_WINDOWS)), Platform::Windows);
}

#[test]
fn chrome_windows_devicename() {
    assert_eq!(devicename(Some(CHROME_WINDOWS)).unwrap(), "Chrome 98.0.4758.102");
}

#[test]
fn chrome_windows_distro() {
    assert_eq!(distro(Some(CHROME_WINDOWS)).unwrap(), "Windows 10");
}

#[test]
fn linux_gnome_web_devicename() {
    assert_eq!(devicename(Some(SAFARI_LINUX)).unwrap(), "GNOME Web");
}

#[test]
fn linux_unknown_distro() {
    assert_eq!(distro(Some(SAFARI_LINUX)).unwrap(), "Unknown Linux");
}

#[test]
fn linux_platform() {
    assert_eq!(platform(Some(SAFARI_LINUX)), Platform::Linux);
}

#[test]
fn mac_distro_underscores_become_dots() {
    assert_eq!(distro(Some(SAFARI_MAC)).unwrap(), "Mac OS X 10.15.7");
}

#[test]
fn mac_platform() {
    assert_eq!(platform(Some(SAFARI_MAC)), Platform::MacOS);
}

#[test]
fn mac_devicename_safari_tail() {
    assert_eq!(devicename(Some(SAFARI_MAC)).unwrap(), "Safari 605.1.15");
}

#[test]
fn mac_distro_semicolon_keeps_underscores() {
    let ua = "Mozilla/5.0 (Macintosh; Intel Mac OS X 10_15_7; rv:98.0) Gecko/20100101 Firefox/98.0";
    assert_eq!(distro(Some(ua)).unwrap(), "Mac OS X 10_15_7");
}

#[test]
fn edge_devicename() {
    let ua = "Mozilla/5.0 (Windows NT 10.0; Win64; x64) AppleWebKit/537.36 (KHTML, like Gecko) Chrome/98.0.1108.62 Safari/537.36 Edg/98.0.1108.62";
    assert_eq!(devicename(Some(ua)).unwrap(), "Edge 98.0.1108.62");
}

#[test]
fn opera_devicename() {
    let ua = "Mozilla/5.0 (Windows NT 10.0; Win64; x64) AppleWebKit/537.36 (KHTML, like Gecko) Chrome/98.0.4758.82 Safari/537.36 OPR/84.0.4316.31";
    assert_eq!(devicename(Some(ua)).unwrap(), "Opera 84.0.4316.31");
}

#[test]
fn firefox_devicename_verbatim_tail() {
    let ua = "Mozilla/5.0 (X11; Ubuntu; Linux x86_64; rv:98.0) Gecko/20100101 Firefox/98.0";
    assert_eq!(devicename(Some(ua)).unwrap(), "Firefox 98.0");
}

#[test]
fn ubuntu_distro() {
    let ua = "Mozilla/5.0 (X11; Ubuntu; Linux x86_64; rv:98.0) Gecko/20100101 Firefox/98.0";
    assert_eq!(distro(Some(ua)).unwrap(), "Ubuntu");
}

#[test]
fn wayland_distro_skips_token() {
    assert_eq!(distro(Some("Mozilla/5.0 (Wayland; Fedora; Linux x86_64) x")).unwrap(), "Fedora");
}

#[test]
fn x11_without_semicolon_distro() {
    assert_eq!(distro(Some("Mozilla/5.0 (X11 Linux) x")).unwrap(), "Unknown Linux");
}

#[test]
fn chrome_token_without_version() {
    assert_eq!(devicename(Some("A (Win32) Safari/1Chrome")).unwrap(), "Chrome");
}

#[test]
fn devicename_no_space_fallback() {
    assert_eq!(devicename(Some("NoSpaceAnywhere")).unwrap(), "Unknown Browser");
    assert_eq!(devicename(Some("")).unwrap(), "Unknown Browser");
    assert_eq!(devicename(None).unwrap(), "Unknown Browser");
}

#[test]
fn devicename_tail_slashes_become_spaces() {
    assert_eq!(devicename(Some("prefix Name/1/2")).unwrap(), "Name 1 2");
}

#[test]
fn platform_unknown_on_malformed() {
    assert_eq!(platform(None), Platform::Unknown("Unknown".to_string()));
    assert_eq!(platform(Some("")), Platform::Unknown("Unknown".to_string()));
    assert_eq!(platform(Some("no delimiters here")), Platform::Unknown("Unknown".to_string()));
    assert_eq!(platform(Some("only open ( here")), Platform::Unknown("Unknown".to_string()));
    assert_eq!(platform(Some("only close ) here")), Platform::Unknown("Unknown".to_string()));
    assert_eq!(platform(Some("close ) before ( open")), Platform::Unknown("Unknown".to_string()));
}

#[test]
fn platform_unknown_verbatim_parenthetical() {
    let ua = "Mozilla/5.0 (PlayStation; PlayStation 5/2.26) AppleWebKit/605.1.15";
    assert_eq!(platform(Some(ua)), Platform::Unknown("PlayStation; PlayStation 5/2.26".to_string()));
}

#[test]
fn unrecognized_distro_verbatim() {
    let ua = "Mozilla/5.0 (PlayStation; PlayStation 5/2.26) AppleWebKit/605.1.15";
    assert_eq!(distro(Some(ua)).unwrap(), "PlayStation; PlayStation 5/2.26");
}

#[test]
fn distro_errors() {
    assert_eq!(distro(None), Err(Error::PermissionDenied));
    assert_eq!(distro(Some("")), Err(Error::InvalidData));
    assert_eq!(distro(Some("no delimiters here")), Err(Error::InvalidData));
    assert_eq!(distro(Some("only open ( here")), Err(Error::InvalidData));
    assert_eq!(distro(Some("only close ) here")), Err(Error::InvalidData));
    assert_eq!(distro(Some("close ) before ( open")), Err(Error::InvalidData));
}

#[test]
fn windows_without_nt_token() {
    assert_eq!(distro(Some("A (Win32) B")).unwrap(), "Windows");
}

#[test]
fn windows_without_version_dot() {
    assert_eq!(distro(Some("A (Win64 NT 10; x64) B")).unwrap(), "Windows");
}

#[test]
fn extraction_is_idempotent() {
    assert_eq!(devicename(Some(CHROME_WINDOWS)), devicename(Some(CHROME_WINDOWS)));
    assert_eq!(distro(Some(CHROME_WINDOWS)), distro(Some(CHROME_WINDOWS)));
    assert_eq!(platform(Some(CHROME_WINDOWS)), platform(Some(CHROME_WINDOWS)));
    assert_eq!(distro(None), distro(None));
    assert_eq!(platform(Some(SAFARI_MAC)), platform(Some(SAFARI_MAC)));
    assert_eq!(
        hostname(Some("example.com".to_string())),
        hostname(Some("example.com".to_string()))
    );
}

#[test]
fn hostname_passes_domain_through() {
    assert_eq!(hostname(Some("example.com".to_string())).unwrap(), "example.com");
}

#[test]
fn hostname_missing_domain() {
    assert_eq!(hostname(Some(String::new())), Err(Error::NotFound));
    assert_eq!(hostname(None), Err(Error::NotFound));
}

#[test]
fn fixed_user_facts() {
    assert_eq!(web_identity::username().unwrap(), "anonymous");
    assert_eq!(web_identity::realname().unwrap(), "Anonymous");
}

#[test]
fn desktop_env_is_browser() {
    assert_eq!(desktop_env(), DesktopEnv::WebBrowser);
}

#[test]
fn arch_matches_pointer_width() {
    let wide = std::mem::size_of::<usize>() >= 8;
    assert_eq!(arch() == Arch::Wasm64, wide);
    assert_eq!(arch() == Arch::Wasm32, !wide);
}

#[test]
fn error_messages() {
    assert_eq!(Error::NotFound.message(), "Domain missing");
    assert_eq!(Error::InvalidData.message(), "Parsing failed");
    assert_eq!(Error::PermissionDenied.message(), "permission denied");
}
