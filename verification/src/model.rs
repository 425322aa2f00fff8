//! The values that travel between the service and its callers.

use vstd::prelude::*;

verus! {

/// The envelope of every successful answer.
#[derive(Debug)]
pub struct ApiResponse<T> {
    pub data: T,
}

/// The envelope of every refusal.
#[derive(Debug)]
pub struct ApiErrorResponse {
    pub error: ApiErrorDetail,
}

#[derive(Debug)]
pub struct ApiErrorDetail {
    pub message: String,
}

#[derive(Debug, Clone)]
pub struct Instance {
    pub id: Option<String>,
    pub name: Option<String>,
    pub status: Option<String>,
    pub ip: Option<String>,
    pub ssh_key_names: Option<Vec<String>>,
    pub instance_type: Option<InstanceTypeInfo>,
    pub region: Option<RegionInfo>,
}

#[derive(Debug, Clone)]
pub struct InstanceTypeInfo {
    pub name: Option<String>,
}

#[derive(Debug, Clone)]
pub struct RegionInfo {
    pub name: Option<String>,
}

/// A filesystem: persistent storage.
#[derive(Debug, Clone)]
pub struct Filesystem {
    pub id: String,
    pub name: String,
    pub mount_point: String,
    pub created: String,
    pub region: FilesystemRegion,
    pub is_in_use: bool,
    /// Zero where the service does not say.
    pub bytes_used: u64,
}

#[derive(Debug, Clone)]
pub struct FilesystemRegion {
    pub name: String,
    pub description: String,
}

#[derive(Debug)]
pub struct LaunchResponse {
    pub instance_ids: Vec<String>,
}

/// One row of the list of instance types.
#[derive(Debug, Clone)]
pub struct InstanceTypeData {
    pub name: String,
    pub description: String,
    pub price_cents_per_hour: i32,
    pub vcpus: u32,
    pub memory_gib: u32,
    pub storage_gib: u32,
    pub regions_available: Vec<String>,
}

/// What the service says of one instance type.
#[derive(Debug, Clone)]
pub struct InstanceTypeResponse {
    pub instance_type: InstanceType,
    pub regions_with_capacity_available: Vec<Region>,
}

#[derive(Debug, Clone)]
pub struct InstanceType {
    pub description: String,
    pub price_cents_per_hour: i32,
    pub specs: InstanceSpecs,
}

#[derive(Debug, Clone)]
pub struct InstanceSpecs {
    pub vcpus: u32,
    pub memory_gib: u32,
    pub storage_gib: u32,
}

#[derive(Debug, Clone)]
pub struct Region {
    pub name: String,
    pub description: String,
}

/// A machine image that an instance can be launched with.
#[derive(Debug, Clone)]
pub struct Image {
    pub id: String,
    pub name: String,
    pub description: String,
    pub family: String,
    pub version: String,
    pub architecture: String,
    pub region: ImageRegion,
}

#[derive(Debug, Clone)]
pub struct ImageRegion {
    pub name: String,
    pub description: String,
}

/// What a family of images offers, over all its regions and versions. The `family` is the value
/// that selects an image at launch.
#[derive(Debug, Clone)]
pub struct ImageFamilySummary {
    pub family: String,
    pub description: String,
    pub architectures: Vec<String>,
    pub regions: Vec<String>,
}

/// An instance that has been launched, and where.
#[derive(Debug, Clone)]
pub struct LaunchResult {
    pub instance_id: String,
    pub region: String,
}

} // verus!
