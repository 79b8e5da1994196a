use vstd::prelude::*;

verus! {

/// A position (x, y, z) and orientation (roll, pitch, yaw) with respect to
/// the frame named in the `relative_to` attribute. Kept as an opaque string;
/// structured transforms are a future extension.
pub type Pose = String;

/// Root container of one description document: a format version and exactly
/// one of world, model, actor or light.
#[derive(Debug, Clone, PartialEq, Eq)]
pub struct Sdf {
    /// Version number of the format specification; `"1.8"` when the input
    /// carries no `version` attribute.
    pub version: String,
    /// The single top-level content choice.
    pub sdf_type: SdfType,
}

/// The top-level tagged union: exactly one variant is present, never several
/// optional fields.
#[derive(Debug, Clone, PartialEq, Eq)]
pub enum SdfType {
    World(World),
    Model(Model),
    Actor,
    Light,
}

/// The world element encapsulates an entire world description; a placeholder
/// reserved for future expansion.
#[derive(Debug, Clone, PartialEq, Eq)]
pub struct World {}

/// The model element defines a complete robot or any other physical object.
#[derive(Debug, Clone, PartialEq, Eq)]
pub struct Model {
    /// A unique name for the model, required.
    pub name: String,
    /// Name of the model's canonical link; absent means the first declared
    /// link is canonical (resolved by consumers, not here).
    pub canonical_link: Option<String>,
    /// The frame inside this model whose pose is set by the pose element.
    pub placement_frame: Option<String>,
    /// If true the model is immovable; absence is interpreted by consumers.
    pub is_static: Option<bool>,
    /// If true all links in the model collide with each other.
    pub self_collide: Option<bool>,
    /// Whether the physics engine may skip the model at rest; decoding fills
    /// `Some(true)` when the element is absent.
    pub allow_auto_disable: Option<bool>,
    /// Resources included by reference, in document order.
    pub includes: Vec<Include>,
    /// Nested models, in document order.
    pub model: Vec<NestedModel>,
    /// Whether links are affected by wind; decoding fills `Some(false)` when
    /// the element is absent.
    pub enable_wind: Option<bool>,
    /// Named reference frames, in document order.
    pub frame: Vec<Frame>,
    /// Opaque transform of the model, if given.
    pub pose: Option<Pose>,
    /// Rigid bodies of the model, in document order.
    pub link: Vec<Link>,
    /// Kinematic connectors, in document order.
    pub joint: Vec<Joint>,
    /// Loadable behaviour extensions, in document order.
    pub plugin: Vec<Plugin>,
    /// Grippers, in document order.
    pub gripper: Vec<Gripper>,
}

/// Reference to an external resource by URI, with optional overrides.
#[derive(Debug, Clone, PartialEq, Eq)]
pub struct Include {
    /// URI of the resource, required.
    pub uri: String,
    /// Override of the included model's name.
    pub name: Option<String>,
    /// Override of the included model's static value.
    pub is_static: Option<bool>,
    /// The frame inside the included model whose pose is set by the pose
    /// element; when set, pose should be set too (not enforced here).
    pub placement_frame: Option<String>,
    pub pose: Option<Pose>,
    pub plugin: Vec<Plugin>,
}

/// A named reference to an externally loadable behaviour extension.
#[derive(Debug, Clone, PartialEq, Eq)]
pub struct Plugin {
    /// A unique name for the plugin, scoped to its parent; required.
    pub name: String,
    /// Name of the shared library to load; required.
    pub filename: String,
}

/// A frame of reference to which a pose is relative.
#[derive(Debug, Clone, PartialEq, Eq)]
pub struct Frame {
    /// Name of the frame, required.
    pub name: String,
    /// Name of the link or frame this frame is attached to; resolution of the
    /// chain is a consumer's responsibility.
    pub attached_to: Option<String>,
    pub pose: Option<Pose>,
}

/// A nested model element.
#[derive(Debug, Clone, PartialEq, Eq)]
pub struct NestedModel {
    /// A unique name among sibling nested models; required.
    pub name: String,
}

/// A physical link of a model; physical detail is future work.
#[derive(Debug, Clone, PartialEq, Eq)]
pub struct Link {
    pub name: String,
}

/// A joint connects two links; a placeholder in the current scope.
#[derive(Debug, Clone, PartialEq, Eq)]
pub struct Joint {}

#[derive(Debug, Clone, PartialEq, Eq)]
pub struct Gripper {
    pub name: String,
    pub grasp_check: Option<GraspCheck>,
    pub gripper_link: Option<String>,
    pub palm_link: Option<String>,
}

#[derive(Debug, Clone, PartialEq, Eq)]
pub struct GraspCheck {
    pub detach_step: Option<i64>,
    pub attach_step: Option<i64>,
    pub min_contact_count: Option<u64>,
}

/// A special kind of model which can have a scripted motion; a placeholder.
#[derive(Debug, Clone, PartialEq, Eq)]
pub struct Actor {}

/// A light source; a placeholder.
#[derive(Debug, Clone, PartialEq, Eq)]
pub struct Light {}

impl Sdf {
    /// The version recorded when the input carries none.
    pub fn default_version() -> (v: String)
        ensures
            v@ == "1.8"@,
    {
        String::from_str("1.8")
    }
}

/// Value taken by a plain boolean field when its element is absent.
pub fn true_default() -> (b: bool)
    ensures
        b == true,
{
    true
}

/// Value decoding gives `allow_auto_disable` when its element is absent.
pub fn some_true_default() -> (b: Option<bool>)
    ensures
        b == Some(true),
{
    Some(true)
}

/// Value decoding gives `enable_wind` when its element is absent.
pub fn some_false_default() -> (b: Option<bool>)
    ensures
        b == Some(false),
{
    Some(false)
}

/// Mathematical image of an optional string.
pub open spec fn opt_view(o: Option<String>) -> Option<Seq<char>> {
    match o {
        Some(s) => Some(s@),
        None => None,
    }
}

/// Mathematical image of an [`Sdf`] document.
pub struct SdfV {
    pub version: Seq<char>,
    pub sdf_type: SdfTypeV,
}

pub enum SdfTypeV {
    World,
    Model(ModelV),
    Actor,
    Light,
}

pub struct ModelV {
    pub name: Seq<char>,
    pub canonical_link: Option<Seq<char>>,
    pub placement_frame: Option<Seq<char>>,
    pub is_static: Option<bool>,
    pub self_collide: Option<bool>,
    pub allow_auto_disable: Option<bool>,
    pub includes: Seq<IncludeV>,
    pub model: Seq<NestedModelV>,
    pub enable_wind: Option<bool>,
    pub frame: Seq<FrameV>,
    pub pose: Option<Seq<char>>,
    pub link: Seq<LinkV>,
    pub joint: Seq<JointV>,
    pub plugin: Seq<PluginV>,
    pub gripper: Seq<GripperV>,
}

pub struct IncludeV {
    pub uri: Seq<char>,
    pub name: Option<Seq<char>>,
    pub is_static: Option<bool>,
    pub placement_frame: Option<Seq<char>>,
    pub pose: Option<Seq<char>>,
    pub plugin: Seq<PluginV>,
}

pub struct PluginV {
    pub name: Seq<char>,
    pub filename: Seq<char>,
}

pub struct FrameV {
    pub name: Seq<char>,
    pub attached_to: Option<Seq<char>>,
    pub pose: Option<Seq<char>>,
}

pub struct NestedModelV {
    pub name: Seq<char>,
}

pub struct LinkV {
    pub name: Seq<char>,
}

pub struct JointV {}

pub struct GripperV {
    pub name: Seq<char>,
    pub grasp_check: Option<GraspCheckV>,
    pub gripper_link: Option<Seq<char>>,
    pub palm_link: Option<Seq<char>>,
}

pub struct GraspCheckV {
    pub detach_step: Option<i64>,
    pub attach_step: Option<i64>,
    pub min_contact_count: Option<u64>,
}

impl View for Plugin {
    type V = PluginV;

    open spec fn view(&self) -> PluginV {
        PluginV { name: self.name@, filename: self.filename@ }
    }
}

impl View for Frame {
    type V = FrameV;

    open spec fn view(&self) -> FrameV {
        FrameV { name: self.name@, attached_to: opt_view(self.attached_to), pose: opt_view(self.pose) }
    }
}

impl View for NestedModel {
    type V = NestedModelV;

    open spec fn view(&self) -> NestedModelV {
        NestedModelV { name: self.name@ }
    }
}

impl View for Link {
    type V = LinkV;

    open spec fn view(&self) -> LinkV {
        LinkV { name: self.name@ }
    }
}

impl View for Joint {
    type V = JointV;

    open spec fn view(&self) -> JointV {
        JointV {}
    }
}

impl View for GraspCheck {
    type V = GraspCheckV;

    open spec fn view(&self) -> GraspCheckV {
        GraspCheckV {
            detach_step: self.detach_step,
            attach_step: self.attach_step,
            min_contact_count: self.min_contact_count,
        }
    }
}

impl View for Gripper {
    type V = GripperV;

    open spec fn view(&self) -> GripperV {
        GripperV {
            name: self.name@,
            grasp_check: match self.grasp_check {
                Some(g) => Some(g@),
                None => None,
            },
            gripper_link: opt_view(self.gripper_link),
            palm_link: opt_view(self.palm_link),
        }
    }
}

impl View for Include {
    type V = IncludeV;

    open spec fn view(&self) -> IncludeV {
        IncludeV {
            uri: self.uri@,
            name: opt_view(self.name),
            is_static: self.is_static,
            placement_frame: opt_view(self.placement_frame),
            pose: opt_view(self.pose),
            plugin: self.plugin@.map_values(|p: Plugin| p@),
        }
    }
}

impl View for Model {
    type V = ModelV;

    open spec fn view(&self) -> ModelV {
        ModelV {
            name: self.name@,
            canonical_link: opt_view(self.canonical_link),
            placement_frame: opt_view(self.placement_frame),
            is_static: self.is_static,
            self_collide: self.self_collide,
            allow_auto_disable: self.allow_auto_disable,
            includes: self.includes@.map_values(|x: Include| x@),
            model: self.model@.map_values(|x: NestedModel| x@),
            enable_wind: self.enable_wind,
            frame: self.frame@.map_values(|x: Frame| x@),
            pose: opt_view(self.pose),
            link: self.link@.map_values(|x: Link| x@),
            joint: self.joint@.map_values(|x: Joint| x@),
            plugin: self.plugin@.map_values(|x: Plugin| x@),
            gripper: self.gripper@.map_values(|x: Gripper| x@),
        }
    }
}

impl View for SdfType {
    type V = SdfTypeV;

    open spec fn view(&self) -> SdfTypeV {
        match self {
            SdfType::World(_) => SdfTypeV::World,
            SdfType::Model(m) => SdfTypeV::Model(m@),
            SdfType::Actor => SdfTypeV::Actor,
            SdfType::Light => SdfTypeV::Light,
        }
    }
}

impl View for Sdf {
    type V = SdfV;

    open spec fn view(&self) -> SdfV {
        SdfV { version: self.version@, sdf_type: self.sdf_type@ }
    }
}

impl ModelV {
    /// Shape of every model that decoding produces: the defaulted-present
    /// fields are always populated.
    pub open spec fn wf(self) -> bool {
        &&& self.allow_auto_disable is Some
        &&& self.enable_wind is Some
    }
}

impl SdfV {
    /// Shape of every document that decoding produces.
    pub open spec fn wf(self) -> bool {
        match self.sdf_type {
            SdfTypeV::Model(m) => m.wf(),
            _ => true,
        }
    }
}

} // verus!
