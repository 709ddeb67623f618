use vstd::prelude::*;

use crate::daemon_types::{parse_event_line, CringeEvt, CRINGED_TMP_PATH};

verus! {

/// USB vendor id of the boards the daemon talks to.
pub const ESP_USB_VID: u16 = 0x303A;

/// USB product id of the boards the daemon talks to.
pub const ESP_USB_PID: u16 = 0x1001;

/// Baud rate of a board's serial line.
pub const SERIAL_BAUD_RATE: u32 = 115200;

/// What the system reports of a USB serial port.
#[derive(Debug)]
pub struct UsbPortInfo {
    pub vid: u16,
    pub pid: u16,
    pub serial_number: Option<String>,
}

/// The kind of a serial port.
#[derive(Debug)]
pub enum PortKind {
    Usb(UsbPortInfo),
    Other,
}

/// A serial port as the system lists it.
#[derive(Debug)]
pub struct PortEntry {
    pub port_name: String,
    pub port_type: PortKind,
}

/// The port is a USB port of a supported board.
pub open spec fn is_compatible(p: PortEntry) -> bool {
    p.port_type matches PortKind::Usb(u) && u.vid == ESP_USB_VID && u.pid == ESP_USB_PID
}

/// The path of a port and the serial number of its board (empty when the system
/// reports none).
pub open spec fn port_label(p: PortEntry) -> (Seq<char>, Seq<char>) {
    (
        p.port_name@,
        match p.port_type {
            PortKind::Usb(u) => match u.serial_number {
                Some(sn) => sn@,
                None => Seq::empty(),
            },
            PortKind::Other => Seq::empty(),
        },
    )
}

/// The contents of a list of (path, serial number) pairs.
pub open spec fn labels_view(v: Seq<(String, String)>) -> Seq<(Seq<char>, Seq<char>)> {
    v.map_values(|x: (String, String)| (x.0@, x.1@))
}

/// The ports of supported boards, in the order listed, as (path, serial number)
/// pairs.
pub fn compatible_ports(ports: &Vec<PortEntry>) -> (r: Vec<(String, String)>)
    ensures
        labels_view(r@) == ports@.filter(|p: PortEntry| is_compatible(p)).map_values(
            |p: PortEntry| port_label(p),
        ),
{
    let mut r: Vec<(String, String)> = Vec::new();
    let n = ports.len();
    let mut i: usize = 0;
    while i < n
        invariant
            n == ports@.len(),
            0 <= i <= n,
            labels_view(r@) == ports@.take(i as int).filter(|p: PortEntry| is_compatible(p)).map_values(
                |p: PortEntry| port_label(p),
            ),
        decreases n - i,
    {
        let p = &ports[i];
        let ghost before = ports@.take(i as int).filter(|p: PortEntry| is_compatible(p));
        assert(ports@.take(i + 1) =~= ports@.take(i as int).push(*p));
        proof {
            ports@.take(i as int).lemma_filter_push(*p, |p: PortEntry| is_compatible(p));
        }
        match &p.port_type {
            PortKind::Usb(info) => {
                if info.vid == ESP_USB_VID && info.pid == ESP_USB_PID {
                    let serial = match &info.serial_number {
                        Some(sn) => sn.clone(),
                        None => String::new(),
                    };
                    let ghost old_r = r@;
                    r.push((p.port_name.clone(), serial));
                    proof {
                        assert(r@ == old_r.push(r@.last()));
                        old_r.lemma_push_map_commute(|x: (String, String)| (x.0@, x.1@), r@.last());
                        before.lemma_push_map_commute(|p: PortEntry| port_label(p), *p);
                    }
                }
            },
            PortKind::Other => {},
        }
        i = i + 1;
    }
    assert(ports@.take(n as int) =~= ports@);
    r
}

/// What the monitor does with the ports it found: open the first, or, when there
/// is none, wait and look again.
pub fn first_port(ports: &Vec<(String, String)>) -> (r: Option<(String, String)>)
    ensures
        ports@.len() == 0 ==> r is None,
        ports@.len() > 0 ==> r == Some(ports@[0]),
{
    if ports.len() == 0 {
        None
    } else {
        Some((ports[0].0.clone(), ports[0].1.clone()))
    }
}

/// A port is compatible exactly when it is a USB port with vendor id 0x303A
/// (Espressif) and product id 0x1001; it is listed by its path and the
/// serial number of its board, or an empty string when the system reports none.
pub proof fn law_compatible_is_espressif_board(p: PortEntry)
    ensures
        is_compatible(p) <==> (p.port_type matches PortKind::Usb(u) && u.vid == 0x303Au16 && u.pid
            == 0x1001u16),
        port_label(p).0 == p.port_name@,
        match p.port_type {
            PortKind::Usb(u) => match u.serial_number {
                Some(sn) => port_label(p).1 == sn@,
                None => port_label(p).1 == Seq::<char>::empty(),
            },
            PortKind::Other => true,
        },
{
}

/// The ports that `compatible_ports` lists are those of the given list that are
/// USB ports with vendor id 0x303A and product id 0x1001, no more and no fewer.
pub proof fn law_compatible_ports_members(ports: Seq<PortEntry>, p: PortEntry)
    ensures
        ports.filter(|q: PortEntry| is_compatible(q)).contains(p) <==> (ports.contains(p)
            && (p.port_type matches PortKind::Usb(u) && u.vid == 0x303Au16 && u.pid == 0x1001u16)),
{
    let pred = |q: PortEntry| is_compatible(q);
    if ports.filter(pred).contains(p) {
        ports.lemma_filter_contains_rev(pred, p);
        let i = choose|i: int| 0 <= i < ports.filter(pred).len() && ports.filter(pred)[i] == p;
        ports.lemma_filter_pred(pred, i);
    }
    if ports.contains(p) && is_compatible(p) {
        let i = choose|i: int| 0 <= i < ports.len() && ports[i] == p;
        ports.lemma_filter_contains(pred, i);
    }
}

/// What one read of a line from a board's serial port came back with.
#[derive(Debug)]
pub enum SerialRead {
    /// A line, possibly empty.
    Line(String),
    /// Nothing arrived within the read timeout.
    TimedOut,
    /// The read failed.
    Failed,
}

/// What the daemon does with one read from a board.
#[derive(Debug)]
pub enum SerialAction {
    /// Pass this event on.
    Forward(CringeEvt),
    /// Append this text to the board's runtime log.
    Record(String),
    /// Read the next line.
    Skip,
    /// Give up on this port.
    Stop,
}

/// Decides what the daemon does with one read from a board: a line starting with
/// `<` is an event and is passed on, an empty line is skipped, any other line is
/// the board's log output and is recorded as it came; a timeout is skipped and a
/// failed read ends the session.
pub fn receive_step(read: SerialRead) -> (r: SerialAction)
    ensures
        match read {
            SerialRead::Line(l) => if l@.len() == 0 {
                r is Skip
            } else if l@[0] == '<' {
                r == SerialAction::Forward(parse_event_line(l@))
            } else {
                r matches SerialAction::Record(t) && t@ == l@
            },
            SerialRead::TimedOut => r is Skip,
            SerialRead::Failed => r is Stop,
        },
{
    match read {
        SerialRead::Line(l) => {
            if l.as_str().is_empty() {
                SerialAction::Skip
            } else if l.as_str().get_char(0) == '<' {
                match CringeEvt::from_serial(l.as_str()) {
                    Some(e) => SerialAction::Forward(e),
                    None => SerialAction::Skip,
                }
            } else {
                SerialAction::Record(l)
            }
        },
        SerialRead::TimedOut => SerialAction::Skip,
        SerialRead::Failed => SerialAction::Stop,
    }
}

/// The directory that holds a board's files: the daemon's directory, then the
/// board's name.
pub fn device_tmp_path(devname: &str) -> (r: String)
    ensures
        r@ == CRINGED_TMP_PATH@ + "/"@ + devname@,
{
    let mut r = String::from_str(CRINGED_TMP_PATH);
    r.append("/");
    r.append(devname);
    r
}

/// The path of a log file named `dev_name` in `dir`, with the `.txt` extension.
pub fn log_file_path(dir: &str, dev_name: &str) -> (r: String)
    ensures
        r@ == dir@ + "/"@ + dev_name@ + ".txt"@,
{
    let mut r = String::from_str(dir);
    r.append("/");
    r.append(dev_name);
    r.append(".txt");
    r
}

/// The first entry of a board's runtime log, naming the day it was opened.
pub fn start_log_entry(date: &str) -> (r: String)
    ensures
        r@ == "start log, date "@ + date@,
{
    let mut r = String::from_str("start log, date ");
    r.append(date);
    r
}

/// The daemon keeps its files under `/tmp/cringed`, a board's files in the
/// directory named after its serial number there, and talks to boards at
/// 115200 baud.
pub proof fn law_daemon_settings(devname: Seq<char>)
    ensures
        CRINGED_TMP_PATH@ == "/tmp/cringed"@,
        CRINGED_TMP_PATH@ + "/"@ + devname == "/tmp/cringed/"@ + devname,
        SERIAL_BAUD_RATE == 115200,
        ESP_USB_VID == 0x303A,
        ESP_USB_PID == 0x1001,
{
    reveal_strlit("/tmp/cringed");
    reveal_strlit("/");
    reveal_strlit("/tmp/cringed/");
    assert("/tmp/cringed"@ + "/"@ =~= "/tmp/cringed/"@);
    assert(CRINGED_TMP_PATH@ + "/"@ + devname =~= "/tmp/cringed/"@ + devname);
}

} // verus!
