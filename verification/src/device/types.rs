use vstd::prelude::*;

verus! {

/// The kind of a NetworkManager device, as reported by its `DeviceType` property.
#[derive(Debug, PartialEq, Eq, Clone, Copy, Structural)]
pub enum DeviceType {
    Unknown,
    Ethernet,
    Wifi,
    Bluetooth,
    OlpcMesh,
    WiMAX,
    Modem,
    Infiniband,
    Bond,
    Vlan,
    ADSL,
    Bridge,
    Team,
    TUN,
    IpTunnel,
    MACVLAN,
    VXLAN,
    VETH,
    /// Any code that has no variant of its own.
    Other(u32),
}

/// The variant that NetworkManager's numeric device code stands for.
pub open spec fn device_type_of_code(code: u32) -> DeviceType {
    if code == 0 {
        DeviceType::Unknown
    } else if code == 1 {
        DeviceType::Ethernet
    } else if code == 2 {
        DeviceType::Wifi
    } else if code == 5 {
        DeviceType::Bluetooth
    } else if code == 6 {
        DeviceType::OlpcMesh
    } else if code == 7 {
        DeviceType::WiMAX
    } else if code == 8 {
        DeviceType::Modem
    } else if code == 9 {
        DeviceType::Infiniband
    } else if code == 10 {
        DeviceType::Bond
    } else if code == 11 {
        DeviceType::Vlan
    } else if code == 12 {
        DeviceType::ADSL
    } else if code == 13 {
        DeviceType::Bridge
    } else if code == 15 {
        DeviceType::Team
    } else if code == 16 {
        DeviceType::TUN
    } else if code == 17 {
        DeviceType::IpTunnel
    } else if code == 18 {
        DeviceType::MACVLAN
    } else if code == 19 {
        DeviceType::VXLAN
    } else if code == 20 {
        DeviceType::VETH
    } else {
        DeviceType::Other(code)
    }
}

/// The numeric code of each variant.
pub open spec fn device_type_code(t: DeviceType) -> u32 {
    match t {
        DeviceType::Unknown => 0,
        DeviceType::Ethernet => 1,
        DeviceType::Wifi => 2,
        DeviceType::Bluetooth => 5,
        DeviceType::OlpcMesh => 6,
        DeviceType::WiMAX => 7,
        DeviceType::Modem => 8,
        DeviceType::Infiniband => 9,
        DeviceType::Bond => 10,
        DeviceType::Vlan => 11,
        DeviceType::ADSL => 12,
        DeviceType::Bridge => 13,
        DeviceType::Team => 15,
        DeviceType::TUN => 16,
        DeviceType::IpTunnel => 17,
        DeviceType::MACVLAN => 18,
        DeviceType::VXLAN => 19,
        DeviceType::VETH => 20,
        DeviceType::Other(code) => code,
    }
}

impl From<u32> for DeviceType {
    fn from(val: u32) -> (r: Self) {
        match val {
            0 => DeviceType::Unknown,
            1 => DeviceType::Ethernet,
            2 => DeviceType::Wifi,
            5 => DeviceType::Bluetooth,
            6 => DeviceType::OlpcMesh,
            7 => DeviceType::WiMAX,
            8 => DeviceType::Modem,
            9 => DeviceType::Infiniband,
            10 => DeviceType::Bond,
            11 => DeviceType::Vlan,
            12 => DeviceType::ADSL,
            13 => DeviceType::Bridge,
            15 => DeviceType::Team,
            16 => DeviceType::TUN,
            17 => DeviceType::IpTunnel,
            18 => DeviceType::MACVLAN,
            19 => DeviceType::VXLAN,
            20 => DeviceType::VETH,
            other => DeviceType::Other(other),
        }
    }
}

impl vstd::std_specs::convert::FromSpecImpl<u32> for DeviceType {
    open spec fn obeys_from_spec() -> bool {
        true
    }

    open spec fn from_spec(v: u32) -> Self {
        device_type_of_code(v)
    }
}

/// Reading a device code loses nothing: the code of the variant read is the
/// code that was read, for every `u32`.
pub proof fn lemma_device_type_code_round_trip(code: u32)
    ensures
        device_type_code(device_type_of_code(code)) == code,
{
}

/// A code has a named variant exactly when it is one of NetworkManager's
/// known codes; every other code is kept as `Other`.
pub proof fn lemma_device_type_other_only_for_unknown_codes(code: u32)
    ensures
        (device_type_of_code(code) is Other) <==> !(code <= 2 || (5 <= code <= 13) || (15 <= code
            <= 20)),
{
}

} // verus!
