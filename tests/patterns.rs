use regex::Regex;
use scst::Session;

#[test]
fn it_works() -> Result<(), regex::Error> {
    let re = Regex::new(r"(\d+):(\d+):(\d+):(\d+)")?;
    assert!(re.is_match("0:0:0:0"));
    assert!(re.is_match("0:11:3:4"));
    assert!(re.is_match("023:11:3:4"));
    Ok(())
}

#[test]
fn read_ips() -> Result<(), regex::Error> {
    let re = Regex::new(r"^(?:\d{1,3}\.){3}\d{1,3}$")?;
    assert!(re.is_match("192.168.2.30"));
    Ok(())
}

#[test]
fn session_connections_are_ip_directories() {
    assert!(Session::is_ip_entry("192.168.2.30", true));
    assert!(!Session::is_ip_entry("192.168.2.30", false));
    assert!(!Session::is_ip_entry("io_stat", true));
    assert!(!Session::is_ip_entry("1921.168.2.30", true));
    assert!(!Session::is_ip_entry("192.168.2", true));
}
