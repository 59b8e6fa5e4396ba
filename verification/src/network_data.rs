use vstd::prelude::*;

verus! {

/// Security protocol reported for a Wi-Fi network.
#[derive(Debug, Clone, Copy, PartialEq, Eq, Structural)]
pub enum WifiSecurity {
    Open,
    Wep,
    Wpa,
    Wpa2,
    Wpa3,
    Unknown,
}

/// Operating mode reported for a Wi-Fi network.
#[derive(Debug, Clone, Copy, PartialEq, Eq, Structural)]
pub enum NetworkMode {
    Infra,
    Ibss,
    Monitor,
    Mesh,
    Client,
    Ap,
    Wds,
    P2p,
    Bridge,
    Repeater,
    Unknown,
}

/// The display label of each operating mode.
pub open spec fn spec_mode_label(mode: NetworkMode) -> Seq<char> {
    match mode {
        NetworkMode::Infra => "Infra"@,
        NetworkMode::Ibss => "Ibss"@,
        NetworkMode::Monitor => "Monitor"@,
        NetworkMode::Mesh => "Mesh"@,
        NetworkMode::Client => "Client"@,
        NetworkMode::Ap => "Ap"@,
        NetworkMode::Wds => "Wds"@,
        NetworkMode::P2p => "P2p"@,
        NetworkMode::Bridge => "Bridge"@,
        NetworkMode::Repeater => "Repeater"@,
        NetworkMode::Unknown => "Unknown"@,
    }
}

impl NetworkMode {
    /// The display label of this mode, as the scanner prints it.
    pub fn label(&self) -> (r: &'static str)
        ensures
            r@ == spec_mode_label(*self),
    {
        match self {
            NetworkMode::Infra => "Infra",
            NetworkMode::Ibss => "Ibss",
            NetworkMode::Monitor => "Monitor",
            NetworkMode::Mesh => "Mesh",
            NetworkMode::Client => "Client",
            NetworkMode::Ap => "Ap",
            NetworkMode::Wds => "Wds",
            NetworkMode::P2p => "P2p",
            NetworkMode::Bridge => "Bridge",
            NetworkMode::Repeater => "Repeater",
            NetworkMode::Unknown => "Unknown",
        }
    }
}

/// A discovered network: identity plus the attributes read from one scan.
#[derive(Debug, Clone)]
pub struct WifiNetwork {
    pub ssid: String,
    pub bssid: String,
    pub signal_strength: i32,
    pub frequency: u32,
    pub channel: u8,
    pub security: WifiSecurity,
    pub is_hidden: bool,
    pub speed: Option<u32>,
    pub network_mode: NetworkMode,
    pub currently_used: bool,
}

/// A network as the NetworkManager CLI reports it: identity and mode only.
#[derive(Debug, Clone)]
pub struct NmcliNetwork {
    pub ssid: String,
    pub bssid: String,
    pub mode: NetworkMode,
}

} // verus!
