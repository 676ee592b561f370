use crate::wifi::error::WifiError;
use vstd::prelude::*;

verus! {

/// The device the backend works with: the first one NetworkManager lists,
/// or `NoDeviceFound` when it lists none.
pub fn first_device<T>(devices: Vec<T>) -> (r: Result<T, WifiError>)
    ensures
        match r {
            Ok(d) => devices@.len() > 0 && d == devices@[0],
            Err(e) => devices@.len() == 0 && e is NoDeviceFound,
        },
{
    let mut devices = devices;
    if devices.len() == 0 {
        return Err(WifiError::NoDeviceFound);
    }
    Ok(devices.remove(0))
}

} // verus!
