//! Data model of the device's boot-time configuration document: wireless
//! radios and access points, and the captive-portal URL the gateway serves.
//! Rendering these into system configuration files is outside this library;
//! the shapes and their defaults are what it owns.

use vstd::prelude::*;

verus! {

/// Always true: the default for switches that are on unless turned off.
pub fn maketrue() -> (r: bool)
    ensures
        r == true,
{
    true
}

/// One radio: whether it is on, and an optional fixed channel.
pub struct ConfigWifiRadio {
    pub on: bool,
    pub channel: Option<u32>,
}

impl Default for ConfigWifiRadio {
    /// A radio is on by default, with no fixed channel.
    fn default() -> (r: Self)
        ensures
            r.on == true,
            r.channel is None,
    {
        Self { on: true, channel: None }
    }
}

/// The two radios of the device, one per band.
pub struct ConfigWifiRadios {
    pub a: ConfigWifiRadio,
    pub g: ConfigWifiRadio,
}

impl Default for ConfigWifiRadios {
    /// Both radios take their defaults.
    fn default() -> (r: Self)
        ensures
            r.a.on == true,
            r.a.channel is None,
            r.g.on == true,
            r.g.channel is None,
    {
        Self { a: ConfigWifiRadio::default(), g: ConfigWifiRadio::default() }
    }
}

/// Authentication of an access point.
pub struct ConfigWifiAuth {
    pub encryption: String,
    pub key: String,
}

impl Default for ConfigWifiAuth {
    /// Empty encryption name and key.
    fn default() -> (r: Self)
        ensures
            r.encryption@ == Seq::<char>::empty(),
            r.key@ == Seq::<char>::empty(),
    {
        Self { encryption: String::new(), key: String::new() }
    }
}

/// One access point: its SSID and optional authentication.
pub struct ConfigWifiAp {
    pub ssid: String,
    pub auth: Option<ConfigWifiAuth>,
}

impl Default for ConfigWifiAp {
    /// Empty SSID, no authentication.
    fn default() -> (r: Self)
        ensures
            r.ssid@ == Seq::<char>::empty(),
            r.auth is None,
    {
        Self { ssid: String::new(), auth: None }
    }
}

/// The access points of the device.
pub struct ConfigWifiAps {
    pub public: ConfigWifiAp,
}

impl Default for ConfigWifiAps {
    /// The public access point takes its defaults.
    fn default() -> (r: Self)
        ensures
            r.public.ssid@ == Seq::<char>::empty(),
            r.public.auth is None,
    {
        Self { public: ConfigWifiAp::default() }
    }
}

/// The wireless section of the configuration.
pub struct ConfigWifi {
    pub radio: ConfigWifiRadios,
    pub ap: ConfigWifiAps,
}

/// The captive-portal section: the portal URL written for the gateway.
pub struct ConfigCaptif {
    pub url: String,
}

/// The whole configuration document.
pub struct Config {
    pub wifi: ConfigWifi,
    pub captif: ConfigCaptif,
}

/// Input of the wireless configuration rendering.
pub struct TplConfigWireless<'a> {
    pub c: &'a Config,
}

/// Input of the network configuration rendering.
pub struct TplConfigNetwork<'a> {
    pub c: &'a Config,
}

/// Input of the firewall configuration rendering.
pub struct TplConfigFirewall<'a> {
    pub c: &'a Config,
}

/// Input of the DHCP configuration rendering.
pub struct TplConfigDhcp<'a> {
    pub c: &'a Config,
}

/// Input of the system configuration rendering: the document and the
/// device's identity used as its hostname.
pub struct TplConfigSystem<'a> {
    pub c: &'a Config,
    pub hostname: String,
}

/// Input of the SSH daemon configuration rendering.
pub struct TplConfigDropbear<'a> {
    pub c: &'a Config,
}

/// Input of the boot script rendering.
pub struct TplRcLocal<'a> {
    pub c: &'a Config,
}

} // verus!
