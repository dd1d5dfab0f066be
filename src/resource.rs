//! Records of the bridge's resources, as the API describes them. Identity is
//! by `id`; `ResourceIdentifier` links one resource to another.
use vstd::prelude::*;

verus! {

/// A typed reference to another resource.
#[derive(Debug, Clone)]
pub struct ResourceIdentifier {
    pub rid: String,
    pub rtype: String,
}

/// The resource that owns another.
pub type Owner = ResourceIdentifier;

/// The group that a scene belongs to.
pub type Group = ResourceIdentifier;

#[derive(Debug, Clone)]
pub struct LightMetadata {
    pub name: Option<String>,
    pub archetype: Option<String>,
    pub fixed_mired: Option<u16>,
    pub function: Option<String>,
}

#[derive(Debug, Clone, Copy)]
pub struct On {
    pub on: bool,
}

#[derive(Debug, Clone, Copy)]
pub struct MirekSchema {
    pub mirek_minimum: u16,
    pub mirek_maximum: u16,
}

#[derive(Debug, Clone, Copy)]
pub struct ColorTemperature {
    pub mirek: Option<u16>,
    pub mirek_valid: Option<bool>,
    pub mirek_schema: Option<MirekSchema>,
}

#[derive(Debug, Clone)]
pub struct SceneMetadata {
    pub name: Option<String>,
}

#[derive(Debug, Clone, Copy)]
pub enum SceneStatusActive {
    Inactive,
    Static,
    DynamicPalette,
}

#[derive(Debug, Clone)]
pub struct SceneStatus {
    pub active: Option<SceneStatusActive>,
    pub last_recall: Option<String>,
}

#[derive(Debug, Clone)]
pub struct Scene {
    pub id: String,
    pub id_v1: Option<String>,
    pub metadata: Option<SceneMetadata>,
    pub group: Option<Group>,
    pub status: Option<SceneStatus>,
}

#[derive(Debug, Clone)]
pub struct SmartScene {
    pub id: String,
    pub id_v1: Option<String>,
    pub metadata: Option<SceneMetadata>,
}

#[derive(Debug, Clone)]
pub struct Metadata {
    pub name: Option<String>,
    pub archetype: Option<String>,
}

#[derive(Debug)]
pub struct Room {
    pub id: String,
    pub id_v1: Option<String>,
    pub children: Option<Vec<ResourceIdentifier>>,
    pub services: Option<Vec<ResourceIdentifier>>,
    pub metadata: Option<Metadata>,
}

#[derive(Debug)]
pub struct Zone {
    pub id: String,
    pub id_v1: Option<String>,
    pub children: Option<Vec<ResourceIdentifier>>,
    pub services: Option<Vec<ResourceIdentifier>>,
    pub metadata: Option<Metadata>,
}

#[derive(Debug)]
pub struct BridgeHome {
    pub id: String,
    pub id_v1: Option<String>,
    pub children: Option<Vec<ResourceIdentifier>>,
    pub services: Option<Vec<ResourceIdentifier>>,
}

#[derive(Debug, Clone)]
pub struct ProductData {
    pub model_id: Option<String>,
    pub manufacturer_name: Option<String>,
    pub product_name: Option<String>,
    pub product_archetype: Option<String>,
}

#[derive(Debug, Clone)]
pub struct DeviceMetadata {
    pub name: Option<String>,
    pub archetype: Option<String>,
}

#[derive(Debug)]
pub struct Device {
    pub id: String,
    pub id_v1: Option<String>,
    pub product_data: Option<ProductData>,
    pub metadata: Option<DeviceMetadata>,
    pub services: Option<Vec<ResourceIdentifier>>,
}

/// The colour temperature part of a light event.
#[derive(Debug, Clone, Copy)]
pub struct EventColorTemperature {
    pub mirek: Option<u16>,
    pub mirek_valid: bool,
}

/// The recall part of a scene command.
#[derive(Debug, Clone)]
pub struct SceneRecall {
    pub action: String,
}

/// The body of a scene command.
#[derive(Debug, Clone)]
pub struct CommandScene {
    pub recall: SceneRecall,
}

/// The colour temperature part of a light command.
#[derive(Debug, Clone, Copy)]
pub struct CommandLightColorTemperature {
    pub mirek: u16,
}

} // verus!
