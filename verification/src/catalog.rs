//! The catalog of well-known DNS-SD service types and what each one is.

use vstd::prelude::*;
use crate::text::{contains_chars, first_within, is_infix, lowercase, lowered};

verus! {

/// The known service types, in the order in which they are consulted: a
/// fragment of a service name, and the description of the services whose
/// names hold it.
pub open spec fn known_services() -> Seq<(Seq<char>, Seq<char>)> {
    seq![
        ("_services._dns-sd."@, "mDNS Enumeration Service"@),
        ("_osc."@, "MIDI OSC Bridge"@),
        ("_apple-midi."@, "Apple MIDI Network Driver"@),
        ("_adisk."@, "Time Capsule Backups"@),
        ("_afpovertcp."@, "AppleTalk Filing Protocol (AFP)"@),
        ("_airdroid."@, "AirDroid App"@),
        ("_airdrop."@, "OSX AirDrop"@),
        ("_airplay."@, "Apple TV"@),
        ("_airport."@, "AirPort Base Station"@),
        ("_amzn-wplay."@, "Amazon Devices"@),
        ("_sub._apple-mobdev2."@, "OSX Wi-Fi Sync"@),
        ("_apple-mobdev2."@, "OSX Wi-Fi Sync"@),
        ("_apple-sasl."@, "Apple Password Server"@),
        ("_appletv-v2."@, "Apple TV Home Sharing"@),
        ("_atc."@, "Apple Shared iTunes Library"@),
        ("_sketchmirror."@, "Sketch App"@),
        ("_bcbonjour."@, "Sketch App"@),
        ("_companion-link."@, "Airplay 2"@),
        ("_cloud."@, "Cloud by Dapile"@),
        ("_daap."@, "Digital Audio Access Protocol (DAAP)"@),
        ("_device-info."@, "OSX Device Info"@),
        ("_distcc."@, "Distributed Compiler"@),
        ("_dpap."@, "Digital Photo Access Protocol (DPAP)"@),
        ("_eppc."@, "Remote AppleEvents"@),
        ("_esdevice."@, "ES File Share App"@),
        ("_esfileshare."@, "ES File Share App"@),
        ("_ftp."@, "File Transfer Protocol (FTP)"@),
        ("_googlecast."@, "Google Cast (Chromecast)"@),
        ("_googlezone."@, "Google Zone (Chromecast)"@),
        ("_hap."@, "Apple HomeKit - HomeKit Accessory Protocol"@),
        ("_homekit."@, "Apple HomeKit"@),
        ("_home-sharing."@, "iTunes Home Sharing"@),
        ("_http."@, "Hypertext Transfer Protocol (HTTP)"@),
        ("_hudson."@, "Jenkins App"@),
        ("_hue."@, "Philips Hue Smart Bulbs"@),
        ("_ica-networking."@, "Image Capture Sharing"@),
        ("_ichat."@, "iChat Instant Messaging Protocol"@),
        ("_print._sub._ipp."@, "Printers (AirPrint)"@),
        ("_cups._sub._ipps."@, "Printers"@),
        ("_print._sub._ipps."@, "Printers"@),
        ("_jenkins."@, "Jenkins App"@),
        ("_apple-lgremote."@, "Apple Logic Remote"@),
        ("_KeynoteControl."@, "OSX Keynote"@),
        ("_keynotepair."@, "OSX Keynote"@),
        ("_mediaremotetv."@, "Apple TV Media Remote"@),
        ("_nfs."@, "Network File System (NFS)"@),
        ("_nvstream."@, "NVIDIA Shield Game Streaming"@),
        ("_androidtvremote."@, "Nvidia Shield / Android TV"@),
        ("_omnistate."@, "OmniGroup (OmniGraffle and other apps)"@),
        ("_pdl-datastream."@, "PDL Data Stream (Port 9100)"@),
        ("_photoshopserver."@, "Adobe Photoshop Nav"@),
        ("_printer."@, "Printers - Line Printer Daemon (LPD/LPR)"@),
        ("_raop."@, "AirPlay - Remote Audio Output Protocol"@),
        ("_readynas."@, "Netgear ReadyNAS"@),
        ("_rfb."@, "OSX Screen Sharing"@),
        ("_physicalweb."@, "Physical Web"@),
        ("_riousbprint."@, "Remote I/O USB Printer Protocol"@),
        ("_rsp."@, "Roku Server Protocol"@),
        ("_scanner."@, "Scanners"@),
        ("_servermgr."@, "Server Admin"@),
        ("_sftp-ssh."@, "Protocol - SFTP"@),
        ("_sleep-proxy."@, "Wake-on-Network / Bonjour Sleep Proxy"@),
        ("_smb."@, "Protocol - SMB"@),
        ("_spotify-connect."@, "Spotify Connect"@),
        ("_ssh."@, "Protocol - SSH"@),
        ("_teamviewer."@, "TeamViewer"@),
        ("_telnet."@, "Remote Login (TELNET)"@),
        ("_touch-able."@, "Apple TV Remote App (iOS devices)"@),
        ("_tunnel."@, "Tunnel"@),
        ("_udisks-ssh."@, "Ubuntu / Raspberry Pi Advertisement"@),
        ("_webdav."@, "WebDAV File System (WEBDAV)"@),
        ("_workstation."@, "Workgroup Manager"@),
        ("_xserveraid."@, "Xserve RAID"@),
    ]
}

/// The fragments of the catalog in lower case, in the catalog's order.
pub open spec fn known_fragments() -> Seq<Seq<char>> {
    Seq::new(known_services().len(), |i: int| lowered(known_services()[i].0))
}

/// The description of a service name: that of the first catalog entry whose
/// fragment stands in the name, letter case aside; none where no fragment does.
pub open spec fn description_of(name: Seq<char>) -> Option<Seq<char>> {
    match first_within(known_fragments(), lowered(name), 0) {
        Some(i) => Some(known_services()[i].1),
        None => None,
    }
}

fn catalog() -> (table: Vec<(&'static str, &'static str)>)
    ensures
        table@.len() == known_services().len(),
        forall|i: int|
            0 <= i < table@.len() ==> (#[trigger] table@[i]).0@ == known_services()[i].0
                && table@[i].1@ == known_services()[i].1,
{
    vec![
        ("_services._dns-sd.", "mDNS Enumeration Service"),
        ("_osc.", "MIDI OSC Bridge"),
        ("_apple-midi.", "Apple MIDI Network Driver"),
        ("_adisk.", "Time Capsule Backups"),
        ("_afpovertcp.", "AppleTalk Filing Protocol (AFP)"),
        ("_airdroid.", "AirDroid App"),
        ("_airdrop.", "OSX AirDrop"),
        ("_airplay.", "Apple TV"),
        ("_airport.", "AirPort Base Station"),
        ("_amzn-wplay.", "Amazon Devices"),
        ("_sub._apple-mobdev2.", "OSX Wi-Fi Sync"),
        ("_apple-mobdev2.", "OSX Wi-Fi Sync"),
        ("_apple-sasl.", "Apple Password Server"),
        ("_appletv-v2.", "Apple TV Home Sharing"),
        ("_atc.", "Apple Shared iTunes Library"),
        ("_sketchmirror.", "Sketch App"),
        ("_bcbonjour.", "Sketch App"),
        ("_companion-link.", "Airplay 2"),
        ("_cloud.", "Cloud by Dapile"),
        ("_daap.", "Digital Audio Access Protocol (DAAP)"),
        ("_device-info.", "OSX Device Info"),
        ("_distcc.", "Distributed Compiler"),
        ("_dpap.", "Digital Photo Access Protocol (DPAP)"),
        ("_eppc.", "Remote AppleEvents"),
        ("_esdevice.", "ES File Share App"),
        ("_esfileshare.", "ES File Share App"),
        ("_ftp.", "File Transfer Protocol (FTP)"),
        ("_googlecast.", "Google Cast (Chromecast)"),
        ("_googlezone.", "Google Zone (Chromecast)"),
        ("_hap.", "Apple HomeKit - HomeKit Accessory Protocol"),
        ("_homekit.", "Apple HomeKit"),
        ("_home-sharing.", "iTunes Home Sharing"),
        ("_http.", "Hypertext Transfer Protocol (HTTP)"),
        ("_hudson.", "Jenkins App"),
        ("_hue.", "Philips Hue Smart Bulbs"),
        ("_ica-networking.", "Image Capture Sharing"),
        ("_ichat.", "iChat Instant Messaging Protocol"),
        ("_print._sub._ipp.", "Printers (AirPrint)"),
        ("_cups._sub._ipps.", "Printers"),
        ("_print._sub._ipps.", "Printers"),
        ("_jenkins.", "Jenkins App"),
        ("_apple-lgremote.", "Apple Logic Remote"),
        ("_KeynoteControl.", "OSX Keynote"),
        ("_keynotepair.", "OSX Keynote"),
        ("_mediaremotetv.", "Apple TV Media Remote"),
        ("_nfs.", "Network File System (NFS)"),
        ("_nvstream.", "NVIDIA Shield Game Streaming"),
        ("_androidtvremote.", "Nvidia Shield / Android TV"),
        ("_omnistate.", "OmniGroup (OmniGraffle and other apps)"),
        ("_pdl-datastream.", "PDL Data Stream (Port 9100)"),
        ("_photoshopserver.", "Adobe Photoshop Nav"),
        ("_printer.", "Printers - Line Printer Daemon (LPD/LPR)"),
        ("_raop.", "AirPlay - Remote Audio Output Protocol"),
        ("_readynas.", "Netgear ReadyNAS"),
        ("_rfb.", "OSX Screen Sharing"),
        ("_physicalweb.", "Physical Web"),
        ("_riousbprint.", "Remote I/O USB Printer Protocol"),
        ("_rsp.", "Roku Server Protocol"),
        ("_scanner.", "Scanners"),
        ("_servermgr.", "Server Admin"),
        ("_sftp-ssh.", "Protocol - SFTP"),
        ("_sleep-proxy.", "Wake-on-Network / Bonjour Sleep Proxy"),
        ("_smb.", "Protocol - SMB"),
        ("_spotify-connect.", "Spotify Connect"),
        ("_ssh.", "Protocol - SSH"),
        ("_teamviewer.", "TeamViewer"),
        ("_telnet.", "Remote Login (TELNET)"),
        ("_touch-able.", "Apple TV Remote App (iOS devices)"),
        ("_tunnel.", "Tunnel"),
        ("_udisks-ssh.", "Ubuntu / Raspberry Pi Advertisement"),
        ("_webdav.", "WebDAV File System (WEBDAV)"),
        ("_workstation.", "Workgroup Manager"),
        ("_xserveraid.", "Xserve RAID"),
    ]
}

/// Describes a service by its name, from the catalog of known service types.
pub fn get_service_description(svc_name: &str) -> (description: Option<String>)
    ensures
        description is Some <==> description_of(svc_name@) is Some,
        description matches Some(text) ==> description_of(svc_name@) == Some(text@),
{
    let name = lowercase(svc_name);
    let table = catalog();
    let mut i: usize = 0;
    while i < table.len()
        invariant
            i <= table@.len(),
            name@ == lowered(svc_name@),
            table@.len() == known_services().len(),
            forall|k: int|
                0 <= k < table@.len() ==> (#[trigger] table@[k]).0@ == known_services()[k].0
                    && table@[k].1@ == known_services()[k].1,
            first_within(known_fragments(), name@, 0) == first_within(
                known_fragments(),
                name@,
                i as int,
            ),
        decreases table@.len() - i,
    {
        let fragment = lowercase(table[i].0);
        assert(fragment@ == known_fragments()[i as int]);
        if contains_chars(&name, &fragment) {
            return Some(String::from_str(table[i].1));
        }
        i += 1;
    }
    None
}

} // verus!
