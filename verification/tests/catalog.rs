use mdns_discovery::catalog::get_service_description;

fn described(name: &str) -> Option<String> {
    get_service_description(name)
}

#[test]
fn describes_a_known_service() {
    assert_eq!(described("_googlecast._tcp.local"), Some("Google Cast (Chromecast)".to_string()));
    assert_eq!(
        described("_http._tcp.local"),
        Some("Hypertext Transfer Protocol (HTTP)".to_string())
    );
    assert_eq!(
        described("_printer._tcp.local"),
        Some("Printers - Line Printer Daemon (LPD/LPR)".to_string())
    );
    assert_eq!(described("_xserveraid._tcp.local"), Some("Xserve RAID".to_string()));
}

#[test]
fn describes_the_enumeration_service() {
    assert_eq!(
        described("_services._dns-sd._udp.local"),
        Some("mDNS Enumeration Service".to_string())
    );
}

#[test]
fn describes_an_instance_by_its_service_type() {
    assert_eq!(
        described("Living Room._googlecast._tcp.local"),
        Some("Google Cast (Chromecast)".to_string())
    );
}

#[test]
fn describes_without_regard_to_letter_case() {
    assert_eq!(described("_HTTP._tcp.local"), Some("Hypertext Transfer Protocol (HTTP)".to_string()));
    assert_eq!(described("_keynotecontrol._tcp.local"), Some("OSX Keynote".to_string()));
    assert_eq!(described("_KeynoteControl._tcp.local"), Some("OSX Keynote".to_string()));
    assert_eq!(described("_KEYNOTECONTROL._tcp.local"), Some("OSX Keynote".to_string()));
}

#[test]
fn describes_by_the_first_entry_that_fits() {
    // `_osc.` is declared before `_http.`, wherever each stands in the name
    assert_eq!(described("_http._osc._udp.local"), Some("MIDI OSC Bridge".to_string()));
    assert_eq!(described("_osc._http._udp.local"), Some("MIDI OSC Bridge".to_string()));
    // `_adisk.` is declared before `_smb.`
    assert_eq!(described("_smb._adisk._tcp.local"), Some("Time Capsule Backups".to_string()));
    // `_print._sub._ipp.` is declared before `_printer.`
    assert_eq!(
        described("_printer._print._sub._ipp._tcp.local"),
        Some("Printers (AirPrint)".to_string())
    );
}

#[test]
fn knows_no_description_for_an_unknown_service() {
    assert_eq!(described("_unknown._tcp.local"), None);
    assert_eq!(described(""), None);
    assert_eq!(described("_http"), None);
    assert_eq!(described("http._tcp.local"), None);
}
