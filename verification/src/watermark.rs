//! What the watermark is asked to show, and the lines of text that follow from it.

use vstd::prelude::*;
use vstd::string::*;
use crate::netinfo::HostIdentity;
use crate::text::{is_blank, is_blank_text, lines_of, split_lines};

verus! {

/// What the user wants the watermark to show.
#[derive(Clone, Debug, PartialEq, Eq)]
pub struct WatermarkRequest {
    pub show_hostname: bool,
    pub show_ip: bool,
    pub show_mac: bool,
    /// Free text, possibly of several lines; blank when there is none.
    pub remark: String,
}

/// Label of the host name line.
pub open spec fn host_label() -> Seq<char> {
    "计算机名："@
}

/// Label of the first IP address line.
pub open spec fn ip_label() -> Seq<char> {
    "IP 地址： "@
}

/// Label of the first hardware address line.
pub open spec fn mac_label() -> Seq<char> {
    "MAC 地址："@
}

/// Label of the first remark line.
pub open spec fn remark_label() -> Seq<char> {
    "备注：    "@
}

/// What stands in place of the label on the further lines of a block, so that
/// they line up with the first.
pub open spec fn continuation() -> Seq<char> {
    "          "@
}

/// A block of lines: the first item behind the label, each further item behind
/// the continuation indent.
pub open spec fn block(label: Seq<char>, items: Seq<Seq<char>>) -> Seq<Seq<char>> {
    Seq::new(
        items.len(),
        |i: int|
            if i == 0 {
                label + items[i]
            } else {
                continuation() + items[i]
            },
    )
}

/// The line that names the host, if it is asked for.
pub open spec fn host_lines(id: HostIdentity, request: WatermarkRequest) -> Seq<Seq<char>> {
    if request.show_hostname {
        seq![host_label() + id.hostname@]
    } else {
        Seq::empty()
    }
}

/// The IP address block, if it is asked for.
pub open spec fn ip_lines(id: HostIdentity, request: WatermarkRequest) -> Seq<Seq<char>> {
    if request.show_ip {
        block(ip_label(), id.ip_addresses.deep_view())
    } else {
        Seq::empty()
    }
}

/// The hardware address block, if it is asked for.
pub open spec fn mac_lines(id: HostIdentity, request: WatermarkRequest) -> Seq<Seq<char>> {
    if request.show_mac {
        block(mac_label(), id.mac_addresses.deep_view())
    } else {
        Seq::empty()
    }
}

/// The remark block, one line for each line of the remark, unless the remark
/// is blank.
pub open spec fn remark_lines(request: WatermarkRequest) -> Seq<Seq<char>> {
    if is_blank_text(request.remark@) {
        Seq::empty()
    } else {
        block(remark_label(), lines_of(request.remark@))
    }
}

/// The lines of the watermark, top down: host name, IP addresses, hardware
/// addresses, remark.
pub open spec fn watermark_lines(id: HostIdentity, request: WatermarkRequest) -> Seq<Seq<char>> {
    host_lines(id, request) + ip_lines(id, request) + mac_lines(id, request) + remark_lines(request)
}

impl WatermarkRequest {
    /// The request asks for something to show: a field, or a remark that is
    /// not blank.
    pub open spec fn has_content(&self) -> bool {
        self.show_hostname || self.show_ip || self.show_mac || !is_blank_text(self.remark@)
    }

    /// The request of an unattended run: the three identity fields, no remark.
    pub fn unattended() -> (request: WatermarkRequest)
        ensures
            request.show_hostname && request.show_ip && request.show_mac,
            request.remark@.len() == 0,
            request.has_content(),
    {
        WatermarkRequest { show_hostname: true, show_ip: true, show_mac: true, remark: String::new() }
    }

    /// The request that shows nothing.
    pub fn cleared() -> (request: WatermarkRequest)
        ensures
            !request.show_hostname && !request.show_ip && !request.show_mac,
            request.remark@.len() == 0,
            !request.has_content(),
    {
        WatermarkRequest { show_hostname: false, show_ip: false, show_mac: false, remark: String::new() }
    }

    /// Tells whether the request asks for something to show. A request that
    /// does not must not start a run.
    pub fn is_acceptable(&self) -> (ok: bool)
        ensures
            ok == self.has_content(),
    {
        self.show_hostname || self.show_ip || self.show_mac || !is_blank(self.remark.as_str())
    }
}

/// Appends to `lines` the block of `items` under `label`.
pub fn append_block(lines: &mut Vec<String>, label: &str, items: &Vec<String>)
    ensures
        final(lines).deep_view() == old(lines).deep_view() + block(label@, items.deep_view()),
{
    let ghost before = lines.deep_view();
    let ghost whole = block(label@, items.deep_view());
    let mut i: usize = 0;
    proof {
        assert(before + whole.take(0) =~= before);
    }
    while i < items.len()
        invariant
            i <= items.len(),
            whole == block(label@, items.deep_view()),
            lines.deep_view() == before + whole.take(i as int),
        decreases items.len() - i,
    {
        let mut line = if i == 0 {
            String::from_str(label)
        } else {
            String::from_str("          ")
        };
        line.append(items[i].as_str());
        let ghost prior = lines.deep_view();
        lines.push(line);
        proof {
            assert(line@ == whole[i as int]);
            assert(lines.deep_view() =~= prior.push(line@));
            assert(whole.take(i + 1) =~= whole.take(i as int).push(whole[i as int]));
            assert(prior.push(line@) =~= before + whole.take(i + 1));
        }
        i = i + 1;
    }
    proof {
        assert(whole.take(items.len() as int) =~= whole);
    }
}

/// The lines of text of the watermark, in the order in which they are drawn.
pub fn build_lines(id: &HostIdentity, request: &WatermarkRequest) -> (lines: Vec<String>)
    ensures
        lines.deep_view() == watermark_lines(*id, *request),
{
    let mut lines: Vec<String> = Vec::new();
    if request.show_hostname {
        let mut line = String::from_str("计算机名：");
        line.append(id.hostname.as_str());
        lines.push(line);
    }
    proof {
        assert(lines.deep_view() =~= host_lines(*id, *request));
    }
    if request.show_ip {
        append_block(&mut lines, "IP 地址： ", &id.ip_addresses);
    }
    proof {
        assert(lines.deep_view() =~= host_lines(*id, *request) + ip_lines(*id, *request));
    }
    if request.show_mac {
        append_block(&mut lines, "MAC 地址：", &id.mac_addresses);
    }
    proof {
        assert(lines.deep_view() =~= host_lines(*id, *request) + ip_lines(*id, *request) + mac_lines(
            *id,
            *request,
        ));
    }
    if !is_blank(request.remark.as_str()) {
        let parts = split_lines(request.remark.as_str());
        append_block(&mut lines, "备注：    ", &parts);
    }
    proof {
        assert(lines.deep_view() =~= watermark_lines(*id, *request));
    }
    lines
}

} // verus!
