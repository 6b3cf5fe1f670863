//! Multicast discovery bookkeeping: what this endpoint announces, and how
//! inbound datagrams grow the device list. The socket itself lives in the
//! surrounding application; every decision about a datagram is made here.
use vstd::prelude::*;

use crate::device::{Device, DeviceType, DeviceView, ProtocolType};
use crate::dto::{MulticastDto, MulticastDtoView, RegisterDto, RegisterDtoView};

verus! {

impl DeepView for Device {
    type V = DeviceView;

    open spec fn deep_view(&self) -> DeviceView {
        self.view()
    }
}

/// The announcement this endpoint multicasts: a version 2 datagram with
/// our alias, model and fingerprint, the `Headless` device type, the port
/// our HTTP endpoint listens on, and both announcement flags set for
/// mixed networks.
pub fn announcement_dto(device: &Device, http_port: u16) -> (r: MulticastDto)
    ensures
        r@ == (MulticastDtoView {
            alias: device.alias@,
            version: Some("2.0"@),
            device_model: device.device_model.deep_view(),
            device_type: Some(DeviceType::Headless),
            fingerprint: device.fingerprint@,
            port: Some(http_port),
            protocol: Some(ProtocolType::Http),
            download: None,
            announcement: Some(true),
            announce: Some(true),
        }),
{
    MulticastDto::v2(
        device.alias.clone(),
        crate::dto::clone_opt_string(&device.device_model),
        DeviceType::Headless,
        device.fingerprint.clone(),
        http_port,
        true,
    )
}

/// A well-formed scan result: it never holds our own fingerprint, and it
/// never holds the same device twice.
pub open spec fn scan_list_wf(devices: Seq<DeviceView>, own_fingerprint: Seq<char>) -> bool {
    &&& forall|i: int|
        0 <= i < devices.len() ==> (#[trigger] devices[i]).fingerprint != own_fingerprint
    &&& forall|i: int, j: int|
        0 <= i < devices.len() && 0 <= j < devices.len() && i != j ==> (#[trigger] devices[i])
            != (#[trigger] devices[j])
}

/// How one datagram grows the device list: a datagram carrying our own
/// fingerprint is dropped, a device already collected is dropped, any
/// other is appended, resolved against the datagram's source address.
pub open spec fn spec_register_device(
    devices: Seq<DeviceView>,
    own_fingerprint: Seq<char>,
    dto: RegisterDtoView,
    ip: Seq<char>,
    port: u16,
) -> Seq<DeviceView> {
    let d = dto.spec_to_device(ip, port, false);
    if dto.fingerprint == own_fingerprint {
        devices
    } else if exists|j: int| 0 <= j < devices.len() && (#[trigger] devices[j]) == d {
        devices
    } else {
        devices.push(d)
    }
}

/// Whether `d` is already in the list.
fn contains_device(devices: &Vec<Device>, d: &Device) -> (r: bool)
    ensures
        r == exists|j: int|
            0 <= j < devices.deep_view().len() && (#[trigger] devices.deep_view()[j]) == d@,
{
    let ghost dv = devices.deep_view();
    let mut i: usize = 0;
    while i < devices.len()
        invariant
            i <= devices.len(),
            dv == devices.deep_view(),
            dv.len() == devices.len(),
            forall|j: int| 0 <= j < i ==> (#[trigger] dv[j]) != d@,
        decreases devices.len() - i,
    {
        if crate::device::device_eq(&devices[i], d) {
            proof {
                assert(dv[i as int] == devices@[i as int]@);
            }
            return true;
        }
        proof {
            assert(dv[i as int] == devices@[i as int]@);
        }
        i += 1;
    }
    false
}

/// Handles one inbound discovery datagram.
pub fn register_scanned_device(
    devices: &mut Vec<Device>,
    own_fingerprint: &String,
    dto: RegisterDto,
    ip: String,
    port: u16,
) -> (added: bool)
    ensures
        final(devices).deep_view() == spec_register_device(
            old(devices).deep_view(),
            own_fingerprint@,
            dto@,
            ip@,
            port,
        ),
        added == (final(devices).deep_view().len() != old(devices).deep_view().len()),
{
    let ghost before = devices.deep_view();
    let ghost dtov = dto@;
    let ghost ipv = ip@;
    let mut added = false;
    if !crate::text::str_eq(dto.fingerprint.as_str(), own_fingerprint.as_str()) {
        let d = dto.to_device(ip, port, false);
        if !contains_device(devices, &d) {
            let ghost dv = d@;
            devices.push(d);
            proof {
                assert(devices.deep_view() =~= before.push(dv));
            }
            added = true;
        }
    }
    proof {
        assert(devices.deep_view() =~= spec_register_device(before, own_fingerprint@, dtov, ipv, port));
    }
    added
}

/// The law of the scanner: its device list never holds our own
/// fingerprint and never holds duplicates — handling any datagram keeps
/// both, so every list grown from the empty one by
/// `spec_register_device` satisfies them.
pub proof fn lemma_register_device_keeps_scan_wf(
    devices: Seq<DeviceView>,
    own_fingerprint: Seq<char>,
    dto: RegisterDtoView,
    ip: Seq<char>,
    port: u16,
)
    requires
        scan_list_wf(devices, own_fingerprint),
    ensures
        scan_list_wf(
            spec_register_device(devices, own_fingerprint, dto, ip, port),
            own_fingerprint,
        ),
{
    let d = dto.spec_to_device(ip, port, false);
    let after = spec_register_device(devices, own_fingerprint, dto, ip, port);
    if dto.fingerprint != own_fingerprint && !(exists|j: int|
        0 <= j < devices.len() && (#[trigger] devices[j]) == d) {
        assert(after == devices.push(d));
        assert(d.fingerprint == dto.fingerprint);
        assert forall|i: int, j: int|
            0 <= i < after.len() && 0 <= j < after.len() && i != j implies (#[trigger] after[i])
            != (#[trigger] after[j]) by {
            if i < devices.len() && j < devices.len() {
                assert(devices[i] != devices[j]);
            } else if i < devices.len() {
                assert(devices[i] != d);
            } else if j < devices.len() {
                assert(devices[j] != d);
            }
        }
    }
}

} // verus!
