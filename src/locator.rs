//! Choice of the device to open and of the transport to use on it.
use vstd::prelude::*;
use crate::endpoint::{get_end_points, resolved_pair, Endpoint, EndpointEntry, TransferKind};
use crate::error::UsbError;

verus! {

/// Vendor id of the SD2SNES USB connection.
pub const VENDOR_ID: u16 = 0x1209;

/// Product id of the SD2SNES USB connection.
pub const PRODUCT_ID: u16 = 0x5a22;

/// The identifiers read from a device's descriptor.
#[derive(Clone, Copy, PartialEq, Eq, Debug, Structural)]
pub struct DeviceIds {
    pub vendor_id: u16,
    pub product_id: u16,
}

/// Whether an enumerated device (`None` where its descriptor could not be
/// read) has the given vendor and product id.
pub open spec fn device_matches(d: Option<DeviceIds>, vendor_id: u16, product_id: u16) -> bool {
    d matches Some(ids) && ids.vendor_id == vendor_id && ids.product_id == product_id
}

/// Index of the first device in enumeration order that has the given vendor
/// and product id. Devices whose descriptor could not be read are skipped.
pub fn find_device(devices: &Vec<Option<DeviceIds>>, vendor_id: u16, product_id: u16) -> (r: Option<usize>)
    ensures
        match r {
            Some(i) => {
                &&& i < devices@.len()
                &&& device_matches(devices@[i as int], vendor_id, product_id)
                &&& forall|j: int| 0 <= j < i ==> !device_matches(#[trigger] devices@[j], vendor_id, product_id)
            },
            None => forall|j: int|
                0 <= j < devices@.len() ==> !device_matches(#[trigger] devices@[j], vendor_id, product_id),
        },
{
    let mut i: usize = 0;
    while i < devices.len()
        invariant
            i <= devices@.len(),
            forall|j: int| 0 <= j < i ==> !device_matches(#[trigger] devices@[j], vendor_id, product_id),
        decreases devices@.len() - i,
    {
        if let Some(ids) = devices[i] {
            if ids.vendor_id == vendor_id && ids.product_id == product_id {
                return Some(i);
            }
        }
        i = i + 1;
    }
    None
}

/// Like `find_device`, with a missing device reported as an error.
pub fn locate_device(devices: &Vec<Option<DeviceIds>>, vendor_id: u16, product_id: u16) -> (r: Result<usize, UsbError>)
    ensures
        match r {
            Ok(i) => {
                &&& i < devices@.len()
                &&& device_matches(devices@[i as int], vendor_id, product_id)
                &&& forall|j: int| 0 <= j < i ==> !device_matches(#[trigger] devices@[j], vendor_id, product_id)
            },
            Err(e) => {
                &&& e == UsbError::DeviceNotFound
                &&& forall|j: int|
                    0 <= j < devices@.len() ==> !device_matches(#[trigger] devices@[j], vendor_id, product_id)
            },
        },
{
    match find_device(devices, vendor_id, product_id) {
        Some(i) => Ok(i),
        None => Err(UsbError::DeviceNotFound),
    }
}

/// The endpoints chosen on a device and the kind of transfer they use.
#[derive(Clone, Copy, PartialEq, Eq, Debug, Structural)]
pub struct Transport {
    pub kind: TransferKind,
    pub endpoint_in: Endpoint,
    pub endpoint_out: Endpoint,
}

/// The transport chosen from a descriptor tree: an interrupt pair if there is
/// one, else a bulk pair, else none.
pub open spec fn chosen_transport(s: Seq<EndpointEntry>) -> Option<Transport> {
    match resolved_pair(s, TransferKind::Interrupt) {
        Some(p) => Some(Transport { kind: TransferKind::Interrupt, endpoint_in: p.0, endpoint_out: p.1 }),
        None => match resolved_pair(s, TransferKind::Bulk) {
            Some(p) => Some(Transport { kind: TransferKind::Bulk, endpoint_in: p.0, endpoint_out: p.1 }),
            None => None,
        },
    }
}

/// Chooses the transport of a device from the leaves of its descriptor tree,
/// preferring interrupt endpoints and falling back to bulk ones.
pub fn select_transport(entries: &Vec<EndpointEntry>) -> (r: Result<Transport, UsbError>)
    ensures
        match chosen_transport(entries@) {
            Some(t) => r == Ok::<Transport, UsbError>(t),
            None => r == Err::<Transport, UsbError>(UsbError::NoTransport),
        },
{
    match get_end_points(entries, TransferKind::Interrupt) {
        Some((i, o)) => Ok(Transport { kind: TransferKind::Interrupt, endpoint_in: i, endpoint_out: o }),
        None => match get_end_points(entries, TransferKind::Bulk) {
            Some((i, o)) => Ok(Transport { kind: TransferKind::Bulk, endpoint_in: i, endpoint_out: o }),
            None => Err(UsbError::NoTransport),
        },
    }
}

impl Transport {
    /// The interface whose kernel driver is to be detached before use and
    /// reattached after: that of the output endpoint of a bulk transport.
    /// An interrupt transport is used as it is.
    pub fn interface_to_configure(&self) -> (r: Option<u8>)
        ensures
            r == (if self.kind == TransferKind::Bulk {
                Some(self.endpoint_out.iface)
            } else {
                None
            }),
    {
        match self.kind {
            TransferKind::Bulk => Some(self.endpoint_out.iface),
            _ => None,
        }
    }
}

} // verus!
