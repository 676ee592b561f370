//! The decisions of the NetworkManager client: what a device list and a
//! property change come to.
use crate::backend::error::NMError;
use crate::device::types::DeviceType;
use crate::device::wifi::access_point::AccessPointUpdate;
use crate::device::wifi::sec_types::{lookup, first_named};
use vstd::prelude::*;
use vstd::string::*;

verus! {

/// The device paths NetworkManager reported, or `NoDeviceFound` when it
/// reported none.
pub fn require_devices<T>(devices: Vec<T>) -> (r: Result<Vec<T>, NMError>)
    ensures
        match r {
            Ok(d) => devices@.len() > 0 && d == devices,
            Err(e) => devices@.len() == 0 && e is NoDeviceFound,
        },
{
    if devices.len() == 0 {
        return Err(NMError::NoDeviceFound);
    }
    Ok(devices)
}

/// `i` is the first of the devices whose type is Wi-Fi.
pub open spec fn is_first_wifi<T>(devices: Seq<(T, DeviceType)>, i: int) -> bool {
    &&& 0 <= i < devices.len()
    &&& devices[i].1 == DeviceType::Wifi
    &&& forall|j: int| 0 <= j < i ==> #[trigger] devices[j].1 != DeviceType::Wifi
}

/// The device to connect through: the first Wi-Fi device among the devices,
/// each given with its type, or `NoDeviceFound` when none is Wi-Fi.
pub fn first_wifi_device<T>(devices: Vec<(T, DeviceType)>) -> (r: Result<T, NMError>)
    ensures
        match r {
            Ok(d) => exists|i: int| is_first_wifi(devices@, i) && devices@[i].0 == d,
            Err(e) => e is NoDeviceFound && forall|j: int|
                0 <= j < devices@.len() ==> #[trigger] devices@[j].1 != DeviceType::Wifi,
        },
{
    let ghost orig = devices@;
    let mut list = devices;
    let mut i: usize = 0;
    while i < list.len()
        invariant
            list@ == orig,
            orig == devices@,
            i <= orig.len(),
            forall|j: int| 0 <= j < i ==> #[trigger] orig[j].1 != DeviceType::Wifi,
        decreases orig.len() - i,
    {
        if list[i].1 == DeviceType::Wifi {
            let ghost k = i as int;
            let pair = list.remove(i);
            let (d, _) = pair;
            assert(is_first_wifi(orig, k) && orig[k].0 == d);
            return Ok(d);
        }
        i = i + 1;
    }
    Err(NMError::NoDeviceFound)
}

pub open spec fn changed_view(changed: Seq<(String, Option<u8>)>) -> Seq<(Seq<char>, Option<u8>)> {
    changed.map_values(|e: (String, Option<u8>)| (e.0@, e.1))
}

/// What a `PropertiesChanged` signal of the access point at `path` reports:
/// a strength change when the first `Strength` property among the changed
/// ones holds a byte, nothing otherwise.
pub open spec fn strength_update_view(path: String, changed: Seq<(String, Option<u8>)>) -> Option<
    AccessPointUpdate,
> {
    match lookup(changed_view(changed), "Strength"@) {
        Some(Some(strength)) => Some(AccessPointUpdate::PropertyChanged { path, strength }),
        _ => None,
    }
}

/// The update that a `PropertiesChanged` signal of the access point at
/// `path` brings: `changed` holds the names of the changed properties, each
/// with its value when it is a byte.
pub fn strength_update(path: String, changed: &Vec<(String, Option<u8>)>) -> (r: Option<
    AccessPointUpdate,
>)
    ensures
        r == strength_update_view(path, changed@),
{
    let key = String::from_str("Strength");
    let ghost cv = changed_view(changed@);
    let mut i: usize = 0;
    while i < changed.len()
        invariant
            i <= changed@.len(),
            cv == changed_view(changed@),
            key@ == "Strength"@,
            forall|j: int| 0 <= j < i ==> #[trigger] cv[j].0 != key@,
        decreases changed@.len() - i,
    {
        if changed[i].0 == key {
            proof {
                assert(first_named(cv, key@, i as int));
                let c = choose|q: int| first_named(cv, key@, q);
                crate::device::wifi::sec_types::lemma_first_named_unique(cv, key@, i as int, c);
            }
            return match changed[i].1 {
                Some(strength) => Some(AccessPointUpdate::PropertyChanged { path, strength }),
                None => None,
            };
        }
        i = i + 1;
    }
    assert(!exists|q: int| first_named(cv, key@, q));
    None
}

} // verus!
