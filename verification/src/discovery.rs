//! Finding the device among the serial ports of the machine: the ports
//! are enumerated elsewhere, and picked here.
use vstd::prelude::*;
use vstd::string::StrSliceExecFns;
use crate::error::{serial_port_error_message, Error};

verus! {

/// The USB vendor id of the device.
pub const SC64_VID: u16 = 0x0403;

/// The USB product id of the device.
pub const SC64_PID: u16 = 0x6014;

/// What the serial number of the device begins with: `SC64`.
pub open spec fn sc64_sid() -> Seq<char> {
    seq!['S', 'C', '6', '4']
}

/// What the enumeration reports of a port that is attached by USB.
#[derive(Debug)]
pub struct UsbInfo {
    pub vid: u16,
    pub pid: u16,
    pub serial_number: Option<String>,
}

/// What the enumeration reports of a port: its name and, if it is
/// attached by USB, its identity there.
#[derive(Debug)]
pub struct PortInfo {
    pub port_name: String,
    pub usb: Option<UsbInfo>,
}

/// What a `PortInfo` is, as mathematics. A port without a serial number
/// has the empty one.
pub struct PortInfoView {
    pub port_name: Seq<char>,
    pub usb: Option<(u16, u16, Seq<char>)>,
}

impl View for PortInfo {
    type V = PortInfoView;

    open spec fn view(&self) -> PortInfoView {
        PortInfoView {
            port_name: self.port_name@,
            usb: match self.usb {
                Some(usb) => Some(
                    (
                        usb.vid,
                        usb.pid,
                        match usb.serial_number {
                            Some(serial_number) => serial_number@,
                            None => Seq::empty(),
                        },
                    ),
                ),
                None => None,
            },
        }
    }
}

/// A device that was found: the port to reach it by, and its serial
/// number.
#[derive(Debug, Clone, PartialEq, Eq)]
pub struct LocalDevice {
    pub port: String,
    pub serial_number: String,
}

/// What a `LocalDevice` is, as mathematics.
#[verifier::ext_equal]
pub struct LocalDeviceView {
    pub port: Seq<char>,
    pub serial_number: Seq<char>,
}

impl View for LocalDevice {
    type V = LocalDeviceView;

    open spec fn view(&self) -> LocalDeviceView {
        LocalDeviceView { port: self.port@, serial_number: self.serial_number@ }
    }
}

/// The device behind a port, if the port is one of the device: attached
/// by USB, with the vendor and product ids of the device, and with a
/// serial number that begins as those of the device do.
pub open spec fn device_at(port: PortInfoView) -> Option<LocalDeviceView> {
    match port.usb {
        Some((vid, pid, serial_number)) => if vid == SC64_VID && pid == SC64_PID
            && sc64_sid().is_prefix_of(serial_number) {
            Some(LocalDeviceView { port: port.port_name, serial_number })
        } else {
            None
        },
        None => None,
    }
}

/// The devices among some ports, in the order of the ports.
pub open spec fn devices_among(ports: Seq<PortInfoView>) -> Seq<LocalDeviceView> {
    ports.filter_map(|port: PortInfoView| device_at(port))
}

/// The ports of a list, as mathematics.
pub open spec fn ports_view(ports: Seq<PortInfo>) -> Seq<PortInfoView> {
    ports.map_values(|port: PortInfo| port@)
}

/// The devices of a list, as mathematics.
pub open spec fn devices_view(devices: Seq<LocalDevice>) -> Seq<LocalDeviceView> {
    devices.map_values(|device: LocalDevice| device@)
}

/// Whether `text` begins with `SC64`.
fn has_sc64_sid(text: &str) -> (begins: bool)
    ensures
        begins == sc64_sid().is_prefix_of(text@),
{
    if text.unicode_len() < 4 {
        return false;
    }
    let begins: bool = text.get_char(0) == 'S' && text.get_char(1) == 'C' && text.get_char(2)
        == '6' && text.get_char(3) == '4';
    proof {
        let head = text@.subrange(0, 4);
        if begins {
            assert(sc64_sid() =~= head);
        } else {
            assert(head[0] == text@[0] && head[1] == text@[1] && head[2] == text@[2] && head[3]
                == text@[3]);
            assert(sc64_sid()[0] == 'S' && sc64_sid()[1] == 'C' && sc64_sid()[2] == '6'
                && sc64_sid()[3] == '4');
        }
    }
    begins
}

/// The device behind `port`, if the port is one of the device.
fn device_at_port(port: &PortInfo) -> (device: Option<LocalDevice>)
    ensures
        match device {
            Some(found) => device_at(port@) == Some(found@),
            None => device_at(port@) is None,
        },
{
    match &port.usb {
        None => None,
        Some(usb) => {
            let serial_number: String = match &usb.serial_number {
                Some(serial_number) => serial_number.clone(),
                None => String::new(),
            };
            if usb.vid == SC64_VID && usb.pid == SC64_PID && has_sc64_sid(serial_number.as_str()) {
                Some(LocalDevice { port: port.port_name.clone(), serial_number })
            } else {
                None
            }
        },
    }
}

/// Picks the devices among the ports that an enumeration has reported.
///
/// A failed enumeration, described by its message, is a failure of the
/// serial ports. Ports among which there is no device are the failure to
/// find one. Else the devices are returned, in the order of their ports.
pub fn list_local_devices(scan: Result<Vec<PortInfo>, String>) -> (found: Result<
    Vec<LocalDevice>,
    Error,
>)
    ensures
        match scan {
            Err(description) => found is Err && found->Err_0@ == serial_port_error_message(
                description@,
            ),
            Ok(ports) => {
                let devices = devices_among(ports_view(ports@));
                if devices.len() == 0 {
                    found is Err && found->Err_0@ == "No SC64 devices found"@
                } else {
                    found is Ok && devices_view(found->Ok_0@) == devices
                }
            },
        },
{
    match scan {
        Err(description) => Err(Error::serial_port(description.as_str())),
        Ok(ports) => {
            let mut serial_devices: Vec<LocalDevice> = Vec::new();
            let ghost all = ports_view(ports@);
            let ghost pick = |port: PortInfoView| device_at(port);
            let mut at: usize = 0;
            assert(all.take(0).filter_map(pick) =~= Seq::empty());
            while at < ports.len()
                invariant
                    at <= ports@.len(),
                    all == ports_view(ports@),
                    pick == |port: PortInfoView| device_at(port),
                    devices_view(serial_devices@) =~= all.take(at as int).filter_map(pick),
                decreases ports@.len() - at,
            {
                proof {
                    all.lemma_filter_map_take_succ(pick, at as int);
                }
                let ghost before = serial_devices@;
                match device_at_port(&ports[at]) {
                    Some(device) => {
                        serial_devices.push(device);
                        assert(devices_view(serial_devices@) =~= devices_view(before) + seq![
                            device@,
                        ]);
                    },
                    None => {},
                }
                at += 1;
            }
            assert(all.take(at as int) =~= all);
            if serial_devices.len() == 0 {
                Err(Error::new("No SC64 devices found"))
            } else {
                Ok(serial_devices)
            }
        },
    }
}

} // verus!
