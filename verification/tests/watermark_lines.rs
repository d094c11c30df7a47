use wallpaper_tool::netinfo::{fallback_identity, HostIdentity};
use wallpaper_tool::watermark::{append_block, build_lines, WatermarkRequest};

fn s(text: &str) -> String {
    text.to_string()
}

fn identity() -> HostIdentity {
    HostIdentity {
        hostname: s("LAB-PC-07"),
        ip_addresses: vec![s("10.0.0.2"), s("192.168.1.5")],
        mac_addresses: vec![s("AA:AA"), s("CC:CC"), s("DD:DD")],
        user_path: s("C:\\Users\\lab"),
    }
}

fn request(host: bool, ip: bool, mac: bool, remark: &str) -> WatermarkRequest {
    WatermarkRequest { show_hostname: host, show_ip: ip, show_mac: mac, remark: s(remark) }
}

#[test]
fn hostname_ip_and_remark_without_mac() {
    let lines = build_lines(&identity(), &request(true, true, false, "lab-3"));
    assert_eq!(
        lines,
        vec![
            s("计算机名：LAB-PC-07"),
            s("IP 地址： 10.0.0.2"),
            s("          192.168.1.5"),
            s("备注：    lab-3"),
        ]
    );
}

#[test]
fn all_blocks_in_fixed_order() {
    let lines = build_lines(&identity(), &request(true, true, true, "row 1\r\nrow 2\nrow 3"));
    assert_eq!(
        lines,
        vec![
            s("计算机名：LAB-PC-07"),
            s("IP 地址： 10.0.0.2"),
            s("          192.168.1.5"),
            s("MAC 地址：AA:AA"),
            s("          CC:CC"),
            s("          DD:DD"),
            s("备注：    row 1"),
            s("          row 2"),
            s("          row 3"),
        ]
    );
}

#[test]
fn nothing_ticked_and_blank_remark_gives_no_line() {
    assert!(build_lines(&identity(), &request(false, false, false, "")).is_empty());
    assert!(build_lines(&identity(), &request(false, false, false, " \n\t ")).is_empty());
}

#[test]
fn remark_alone() {
    let lines = build_lines(&identity(), &request(false, false, false, "  keep spaces  "));
    assert_eq!(lines, vec![s("备注：      keep spaces  ")]);
    let lines = build_lines(&identity(), &request(false, false, false, "\nsecond"));
    assert_eq!(lines, vec![s("备注：    "), s("          second")]);
}

#[test]
fn mac_block_alone() {
    let lines = build_lines(&identity(), &request(false, false, true, ""));
    assert_eq!(lines, vec![s("MAC 地址：AA:AA"), s("          CC:CC"), s("          DD:DD")]);
}

#[test]
fn fallback_identity_renders_placeholders_not_blanks() {
    let id = fallback_identity(Some(s("H")), None);
    let lines = build_lines(&id, &WatermarkRequest::unattended());
    assert_eq!(lines, vec![s("计算机名：H"), s("IP 地址： 未发现活跃IP"), s("MAC 地址：未发现活跃MAC")]);
}

#[test]
fn append_block_labels_first_and_indents_rest() {
    let mut lines = vec![s("head")];
    append_block(&mut lines, "L: ", &vec![s("a"), s("b")]);
    assert_eq!(lines, vec![s("head"), s("L: a"), s("          b")]);
    append_block(&mut lines, "M: ", &Vec::new());
    assert_eq!(lines.len(), 3);
}

#[test]
fn a_request_needs_a_field_or_a_remark() {
    assert!(!request(false, false, false, "").is_acceptable());
    assert!(!request(false, false, false, "   ").is_acceptable());
    assert!(!request(false, false, false, "\r\n").is_acceptable());
    assert!(request(true, false, false, "").is_acceptable());
    assert!(request(false, true, false, "").is_acceptable());
    assert!(request(false, false, true, "").is_acceptable());
    assert!(request(false, false, false, "x").is_acceptable());
    assert!(WatermarkRequest::unattended().is_acceptable());
    assert!(!WatermarkRequest::cleared().is_acceptable());
}

#[test]
fn unattended_request_shows_the_three_fields() {
    let r = WatermarkRequest::unattended();
    assert!(r.show_hostname && r.show_ip && r.show_mac);
    assert_eq!(r.remark, "");
    let c = WatermarkRequest::cleared();
    assert!(!c.show_hostname && !c.show_ip && !c.show_mac);
    assert_eq!(c.remark, "");
}
