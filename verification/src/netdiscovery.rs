//! The versioned network-discovery table: a second consumer of the shared
//! discovery socket that tracks whole devices rather than peers. Datagrams
//! carry a fixed marker and version; anything else is ignored.

use vstd::prelude::*;

use crate::fabric::types::{dup_opt, opt_view};
use crate::text::str_eq;

verus! {

/// The marker every versioned discovery datagram must carry.
pub fn discovery_marker() -> (r: &'static str)
    ensures
        r@ == "EDULINKER_DISCOVERY"@,
{
    "EDULINKER_DISCOVERY"
}

/// The protocol version this table accepts.
pub fn discovery_version() -> (r: &'static str)
    ensures
        r@ == "1.0"@,
{
    "1.0"
}

/// One discovered device.
pub struct DiscoveredDevice {
    pub device_id: String,
    pub hostname: String,
    pub ip_address: String,
    pub mac_address: String,
    pub os: String,
    pub platform: String,
    pub user_id: Option<String>,
    pub last_seen: String,
    pub discovery_version: String,
}

/// The mathematical model of a device record.
pub ghost struct DiscoveredDeviceV {
    pub device_id: Seq<char>,
    pub hostname: Seq<char>,
    pub ip_address: Seq<char>,
    pub mac_address: Seq<char>,
    pub os: Seq<char>,
    pub platform: Seq<char>,
    pub user_id: Option<Seq<char>>,
    pub last_seen: Seq<char>,
    pub discovery_version: Seq<char>,
}

impl View for DiscoveredDevice {
    type V = DiscoveredDeviceV;

    open spec fn view(&self) -> DiscoveredDeviceV {
        DiscoveredDeviceV {
            device_id: self.device_id@,
            hostname: self.hostname@,
            ip_address: self.ip_address@,
            mac_address: self.mac_address@,
            os: self.os@,
            platform: self.platform@,
            user_id: opt_view(self.user_id),
            last_seen: self.last_seen@,
            discovery_version: self.discovery_version@,
        }
    }
}

impl DiscoveredDevice {
    /// A copy holding the same model.
    pub fn duplicate(&self) -> (r: Self)
        ensures
            r@ == self@,
    {
        DiscoveredDevice {
            device_id: self.device_id.clone(),
            hostname: self.hostname.clone(),
            ip_address: self.ip_address.clone(),
            mac_address: self.mac_address.clone(),
            os: self.os.clone(),
            platform: self.platform.clone(),
            user_id: dup_opt(&self.user_id),
            last_seen: self.last_seen.clone(),
            discovery_version: self.discovery_version.clone(),
        }
    }
}

/// The views of a device list.
pub open spec fn device_views(s: Seq<DiscoveredDevice>) -> Seq<DiscoveredDeviceV> {
    s.map_values(|d: DiscoveredDevice| d@)
}

/// Whether a device list holds a record with the given id.
pub open spec fn has_device(ds: Seq<DiscoveredDeviceV>, id: Seq<char>) -> bool {
    exists|i: int| 0 <= i < ds.len() && (#[trigger] ds[i]).device_id == id
}

/// The first index holding the given device id.
pub open spec fn device_idx(ds: Seq<DiscoveredDeviceV>, id: Seq<char>) -> int {
    choose|i: int| 0 <= i < ds.len() && (#[trigger] ds[i]).device_id == id
}

/// The mathematical model of the manager.
pub ghost struct NetworkDiscoveryV {
    pub running: bool,
    pub requested_port: u16,
    pub port: u16,
    pub device_id: Seq<char>,
    pub devices: Seq<DiscoveredDeviceV>,
}

/// The device table and its lifecycle flags.
pub struct NetworkDiscovery {
    running: bool,
    requested_port: u16,
    port: u16,
    device_id: String,
    devices: Vec<DiscoveredDevice>,
}

impl View for NetworkDiscovery {
    type V = NetworkDiscoveryV;

    closed spec fn view(&self) -> NetworkDiscoveryV {
        NetworkDiscoveryV {
            running: self.running,
            requested_port: self.requested_port,
            port: self.port,
            device_id: self.device_id@,
            devices: device_views(self.devices@),
        }
    }
}

impl NetworkDiscovery {
    /// The invariant: device ids are unique.
    pub open spec fn wf(&self) -> bool {
        forall|i: int, j: int|
            0 <= i < j < self@.devices.len() ==> (#[trigger] self@.devices[i]).device_id != (
            #[trigger] self@.devices[j]).device_id
    }

    /// A stopped manager under its own device id.
    pub fn new(device_id: String, requested_port: u16) -> (r: Self)
        ensures
            r.wf(),
            !r@.running,
            r@.requested_port == requested_port,
            r@.port == requested_port,
            r@.device_id == device_id@,
            r@.devices.len() == 0,
    {
        let r = NetworkDiscovery {
            running: false,
            requested_port,
            port: requested_port,
            device_id,
            devices: Vec::new(),
        };
        proof {
            assert(device_views(r.devices@) =~= Seq::<DiscoveredDeviceV>::empty());
        }
        r
    }

    /// Starts the manager on the port the hub actually bound, remembering
    /// the port that was asked for. Answers whether it started just now.
    pub fn start(&mut self, port: u16, requested_port: u16) -> (r: bool)
        requires
            old(self).wf(),
        ensures
            final(self).wf(),
            r == !old(self)@.running,
            old(self)@.running ==> final(self)@ == old(self)@,
            !old(self)@.running ==> final(self)@.running && final(self)@.port == port && final(self)@.requested_port == requested_port && final(self)@.devices == old(self)@.devices
                && final(self)@.device_id == old(self)@.device_id,
    {
        if self.running {
            return false;
        }
        self.running = true;
        self.port = port;
        self.requested_port = requested_port;
        true
    }

    /// Stops the manager. The device table stays for the next start.
    pub fn stop(&mut self)
        requires
            old(self).wf(),
        ensures
            final(self).wf(),
            !final(self)@.running,
            final(self)@.devices == old(self)@.devices,
            final(self)@.device_id == old(self)@.device_id,
            final(self)@.port == old(self)@.port,
            final(self)@.requested_port == old(self)@.requested_port,
    {
        self.running = false;
    }

    /// Whether the manager is up.
    pub fn is_running(&self) -> (r: bool)
        ensures
            r == self@.running,
    {
        self.running
    }

    /// This host's device id.
    pub fn device_id(&self) -> (r: String)
        ensures
            r@ == self@.device_id,
    {
        self.device_id.clone()
    }

    /// Every known device.
    pub fn get_devices(&self) -> (r: Vec<DiscoveredDevice>)
        ensures
            device_views(r@) == self@.devices,
    {
        let mut out: Vec<DiscoveredDevice> = Vec::new();
        let mut i: usize = 0;
        proof {
            assert(device_views(out@) =~= self@.devices.take(0));
        }
        while i < self.devices.len()
            invariant
                0 <= i <= self@.devices.len(),
                self@.devices.len() == self.devices@.len(),
                self@.devices == device_views(self.devices@),
                device_views(out@) == self@.devices.take(i as int),
            decreases self@.devices.len() - i,
        {
            let ghost out0 = out@;
            out.push(self.devices[i].duplicate());
            proof {
                assert(device_views(out@) =~= device_views(out0).push(self@.devices[i as int]));
                assert(self@.devices.take(i as int + 1) =~= self@.devices.take(i as int).push(
                    self@.devices[i as int],
                ));
            }
            i = i + 1;
        }
        proof {
            assert(self@.devices.take(self@.devices.len() as int) =~= self@.devices);
        }
        out
    }

    /// Handles one parsed versioned-discovery datagram: a wrong marker or
    /// version, or our own echo, is ignored; otherwise the device table is
    /// upserted and the stored record comes back for the host to announce.
    pub fn handle_discovery_message(
        &mut self,
        marker: &str,
        version: &str,
        device: DiscoveredDevice,
    ) -> (r: Option<DiscoveredDevice>)
        requires
            old(self).wf(),
        ensures
            final(self).wf(),
            ({
                let ignored = marker@ != "EDULINKER_DISCOVERY"@ || version@ != "1.0"@
                    || device@.device_id == old(self)@.device_id;
                &&& ignored ==> r is None && final(self)@ == old(self)@
                &&& !ignored ==> ({
                    &&& (r matches Some(d) && d@ == device@)
                    &&& (has_device(old(self)@.devices, device@.device_id) ==> final(self)@.devices == old(self)@.devices.update(
                        device_idx(old(self)@.devices, device@.device_id),
                        device@,
                    ))
                    &&& (!has_device(old(self)@.devices, device@.device_id) ==> final(self)@.devices == old(self)@.devices.push(device@))
                    &&& final(self)@.device_id == old(self)@.device_id
                    &&& final(self)@.running == old(self)@.running
                    &&& final(self)@.port == old(self)@.port
                })
            }),
    {
        if !str_eq(marker, "EDULINKER_DISCOVERY") || !str_eq(version, "1.0") || str_eq(
            device.device_id.as_str(),
            self.device_id.as_str(),
        ) {
            return None;
        }
        let emitted = device.duplicate();
        let found = self.index_of_device(device.device_id.as_str());
        let ghost pre = self@;
        match found {
            Some(i) => {
                proof {
                    let ds = pre.devices;
                    let k = device_idx(ds, device@.device_id);
                    assert(0 <= k < ds.len() && ds[k].device_id == device@.device_id);
                    if k != i as int {
                        assert(ds[k].device_id != ds[i as int].device_id);
                    }
                }
                let _old_d = self.devices.remove(i);
                self.devices.insert(i, device);
                proof {
                    assert(self@.devices =~~= pre.devices.update(i as int, emitted@));
                    let post = self@.devices;
                    assert forall|a: int, b: int| 0 <= a < b < post.len() implies (
                    #[trigger] post[a]).device_id != (#[trigger] post[b]).device_id by {
                        assert(post[a].device_id == pre.devices[a].device_id);
                        assert(post[b].device_id == pre.devices[b].device_id);
                    }
                }
            },
            None => {
                self.devices.push(device);
                proof {
                    assert(self@.devices =~~= pre.devices.push(emitted@));
                    let post = self@.devices;
                    assert forall|a: int, b: int| 0 <= a < b < post.len() implies (
                    #[trigger] post[a]).device_id != (#[trigger] post[b]).device_id by {
                        if b < post.len() - 1 {
                            assert(post[a].device_id == pre.devices[a].device_id);
                            assert(post[b].device_id == pre.devices[b].device_id);
                        } else {
                            assert(post[a].device_id == pre.devices[a].device_id);
                        }
                    }
                }
            },
        }
        Some(emitted)
    }

    /// The first position holding the given device id.
    fn index_of_device(&self, id: &str) -> (r: Option<usize>)
        ensures
            match r {
                Some(i) => i < self@.devices.len() && self@.devices[i as int].device_id == id@,
                None => !has_device(self@.devices, id@),
            },
    {
        let mut i: usize = 0;
        while i < self.devices.len()
            invariant
                0 <= i <= self@.devices.len(),
                self@.devices.len() == self.devices@.len(),
                self@.devices == device_views(self.devices@),
                forall|j: int| 0 <= j < i ==> (#[trigger] self@.devices[j]).device_id != id@,
            decreases self@.devices.len() - i,
        {
            if str_eq(self.devices[i].device_id.as_str(), id) {
                return Some(i);
            }
            i = i + 1;
        }
        None
    }
}

/// The ports the discovery socket may try, in order: the requested port and
/// up to the given number of sequential fallbacks, clipped at the top of the
/// port range.
pub fn fallback_ports(start_port: u16, attempts: u16) -> (r: Vec<u16>)
    ensures
        r@.len() == attempts,
        forall|i: int|
            0 <= i < attempts ==> (#[trigger] r@[i]) as int == (if start_port + i <= u16::MAX {
                start_port + i
            } else {
                u16::MAX as int
            }),
{
    let mut out: Vec<u16> = Vec::new();
    let mut i: u16 = 0;
    while i < attempts
        invariant
            0 <= i <= attempts,
            out@.len() == i,
            forall|j: int|
                0 <= j < i ==> (#[trigger] out@[j]) as int == (if start_port + j <= u16::MAX {
                    start_port + j
                } else {
                    u16::MAX as int
                }),
        decreases attempts - i,
    {
        let port: u16 = if i <= u16::MAX - start_port {
            start_port + i
        } else {
            u16::MAX
        };
        out.push(port);
        i = i + 1;
    }
    out
}

} // verus!
