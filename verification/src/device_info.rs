//! Plain records returned by the newer device APIs: basic device properties
//! and storage disk descriptions.

use vstd::prelude::*;

verus! {

/// A set of basic device properties.
#[derive(Debug, Clone, PartialEq, Eq)]
pub struct Properties {
    /// The brand of the device, likely `"AXIS"`.
    pub brand: String,
    /// The hardware ID, believed to be an internal part identifier.
    pub hardware_id: String,
    /// The full name of the product.
    pub product_full_name: String,
    /// The product number seen in typical product catalogs.
    pub product_number: String,
    /// The short name of the product.
    pub product_short_name: String,
    /// The product type.
    pub product_type: String,
    /// The product variant.
    pub product_variant: String,
    /// The device's serial number.
    pub serial_number: String,
    /// The name of the system-on-chip inside the device.
    pub soc: String,
    /// The architecture of the system-on-chip inside the device.
    pub soc_architecture: String,
    /// The system-on-chip's serial number.
    pub soc_serial_number: String,
    /// The firmware's build date, expressed as a string.
    pub firmware_build_date: String,
    /// The firmware version, expressed as a string.
    pub firmware_version: String,
    /// The device's web address.
    pub web_url: String,
}

/// Information about a disk: an SD card, or a network share.
#[derive(Debug, Clone, PartialEq, Eq)]
pub struct DiskInfo {
    /// The identifier for this disk.
    pub disk_id: String,
    /// The filesystem label, if any.
    pub name: String,
    /// The formatted size of the disk in bytes.
    pub total_size: u64,
    /// The free space of the disk in bytes.
    pub free_size: u64,
    /// Purpose unknown.
    pub cleanup_level: u16,
    /// The maximum age of a recording on this disk.
    pub cleanup_max_age: u16,
    /// The cleanup policy for this disk.
    pub cleanup_policy: CleanupPolicy,
    /// Whether the disk is locked.
    pub locked: bool,
    /// Whether the disk is full.
    pub full: bool,
    /// Whether the disk is read-only.
    pub readonly: bool,
    /// The status of the disk, such as `"OK"`.
    pub status: String,
    /// The filesystem on the disk.
    pub filesystem: Filesystem,
    /// The group the disk belongs to, such as `"S0"`.
    pub group: String,
    /// The filesystem the disk must be formatted with.
    pub required_filesystem: Filesystem,
    /// Whether encryption is enabled for the disk.
    pub encryption_enabled: bool,
    /// Whether the disk is encrypted.
    pub disk_encrypted: bool,
}

/// The cleanup policy for a disk.
#[derive(Debug, Copy, Clone, PartialEq, Eq, Structural)]
pub enum CleanupPolicy {
    /// First in, first out.
    FIFO,
    /// No automatic cleanups will be performed.
    NoCleanup,
}

/// A filesystem a disk may carry.
#[derive(Debug, Copy, Clone, PartialEq, Eq, Structural)]
pub enum Filesystem {
    EXT4,
    VFAT,
    CIFS,
    NoFilesystem,
}

} // verus!
