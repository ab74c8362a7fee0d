//! The fixed requests that the collector makes of the host.

use vstd::prelude::*;

verus! {

/// The query for the properties of the installed operating system. It is put
/// to the default namespace of the management subsystem.
pub const OPERATING_SYSTEM_QUERY: &'static str = "SELECT * FROM Win32_OperatingSystem";

/// The namespace of the security center.
pub const SECURITY_CENTER_NAMESPACE: &'static str = "ROOT\\SECURITYCENTER2";

/// The query for the registered antivirus products, put to the security center.
pub const ANTIVIRUS_QUERY: &'static str = "SELECT * FROM AntivirusProduct";

/// The query for the registered firewall products, put to the security center.
pub const FIREWALL_QUERY: &'static str = "SELECT * FROM FirewallProduct";

/// The namespace that describes the hardware.
pub const PROCESSOR_NAMESPACE: &'static str = "Root\\CIMV2";

/// The query for the properties of the processors.
pub const PROCESSOR_QUERY: &'static str = "SELECT * FROM Win32_Processor";

/// The registry key, below the local-machine hive, that holds the product key.
pub const PRODUCT_KEY_SUBKEY: &'static str = "SOFTWARE\\Microsoft\\Windows NT\\CurrentVersion";

/// The name of the binary registry value that holds the product key.
pub const PRODUCT_KEY_VALUE: &'static str = "DigitalProductId";

/// The folder of the task-scheduling service whose tasks are enumerated.
pub const TASK_ROOT_FOLDER: &'static str = "\\";

} // verus!
