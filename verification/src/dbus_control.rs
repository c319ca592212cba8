//! The host controller that the ladder's recovery steps act on.

use vstd::prelude::*;
use vstd::string::*;

verus! {

/// D-Bus service of BlueZ.
pub const DBUS_BUS: &'static str = "org.bluez";

/// Interface whose `Powered` property switches an adapter.
pub const ADAPTER_INTERFACE: &'static str = "org.bluez.Adapter1";

/// The adapter property toggled by a power-cycle.
pub const PROPERTY_POWERED: &'static str = "Powered";

/// Pause between powering an adapter off and on, in seconds.
pub const POWER_CYCLE_DELAY_SECS: u64 = 1;

/// Object path of the adapter used when none is given.
pub const DEFAULT_ADAPTER_PATH: &'static str = "/org/bluez/hci0";

/// Performs recovery on the host: power-cycles a BlueZ adapter over D-Bus
/// and reboots the host.
pub struct SystemResilienceController {
    adapter_path: String,
}

impl View for SystemResilienceController {
    type V = Seq<char>;

    closed spec fn view(&self) -> Seq<char> {
        self.adapter_path@
    }
}

impl SystemResilienceController {
    /// A controller for the adapter at the given D-Bus object path.
    pub fn new(adapter_path: String) -> (controller: Self)
        ensures
            controller@ == adapter_path@,
    {
        SystemResilienceController { adapter_path }
    }

    /// The adapter's D-Bus object path.
    pub fn adapter_path(&self) -> (path: &str)
        ensures
            path@ == self@,
    {
        self.adapter_path.as_str()
    }
}

impl Default for SystemResilienceController {
    /// The controller of the first adapter, `/org/bluez/hci0`.
    fn default() -> (controller: Self)
        ensures
            controller@ == DEFAULT_ADAPTER_PATH@,
    {
        Self::new(String::from_str(DEFAULT_ADAPTER_PATH))
    }
}

} // verus!
