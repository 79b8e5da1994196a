use vstd::prelude::*;

verus! {

use crate::elem::{Element, ElemV, attr_of, first_child, child_text, str_eq, elem_view, elems_view, lemma_elems_view, opt_seq};
use crate::model::{
    Sdf, SdfType, World, Model, Include, Plugin, Frame, NestedModel, Link, Joint, Gripper,
    GraspCheck, SdfV, SdfTypeV, ModelV, IncludeV, PluginV, FrameV, NestedModelV, LinkV, JointV,
    GripperV, GraspCheckV,
};
use crate::num::{parse_bool, parse_bool_str, parse_i64, parse_i64_str, parse_u64, parse_u64_str};

/// Why a decode failed; each variant names the offending field or shape.
#[derive(Debug, Clone, Copy, PartialEq, Eq, Structural)]
pub enum DecodeError {
    /// The input text is not well-formed markup.
    Malformed,
    /// The root element is not `sdf`.
    WrongRoot,
    /// The root holds no world, model, actor or light child.
    NoContent,
    /// The root holds more than one world, model, actor or light child.
    DuplicateContent,
    /// A model, nested model, plugin, frame, link or gripper misses its
    /// required `name`.
    MissingName,
    /// A plugin misses its required `filename`.
    MissingFilename,
    /// An included resource misses its required `uri`.
    MissingUri,
    /// A boolean field's text is neither `true` nor `false`.
    BadBool,
    /// An integer field's text is not a decimal numeral that fits its type.
    BadInt,
}

/// The element tag of an included resource.
pub open spec fn inc_tag() -> Seq<char> {
    "includ"@ + "e"@
}

/// The element tag of an included resource.
pub fn inc_tag_string() -> (r: String)
    ensures
        r@ == inc_tag(),
{
    let mut t = String::from_str("includ");
    t.append("e");
    t
}

/// Text of the first child named `name`, converted to a boolean; absence is
/// allowed and gives `None`.
pub open spec fn opt_bool_field(e: ElemV, name: Seq<char>) -> Result<Option<bool>, DecodeError> {
    match child_text(e.children, name) {
        None => Ok(None),
        Some(t) => match parse_bool(t) {
            Some(b) => Ok(Some(b)),
            None => Err(DecodeError::BadBool),
        },
    }
}

/// Text of the first child named `name`, converted to a boolean; absence
/// gives the fixed default `dflt`.
pub open spec fn bool_field_default(e: ElemV, name: Seq<char>, dflt: bool) -> Result<
    Option<bool>,
    DecodeError,
> {
    match child_text(e.children, name) {
        None => Ok(Some(dflt)),
        Some(t) => match parse_bool(t) {
            Some(b) => Ok(Some(b)),
            None => Err(DecodeError::BadBool),
        },
    }
}

/// Text of the first child named `name`, converted to a signed number.
pub open spec fn opt_i64_field(e: ElemV, name: Seq<char>) -> Result<Option<i64>, DecodeError> {
    match child_text(e.children, name) {
        None => Ok(None),
        Some(t) => match parse_i64(t) {
            Some(n) => Ok(Some(n)),
            None => Err(DecodeError::BadInt),
        },
    }
}

/// Text of the first child named `name`, converted to an unsigned number.
pub open spec fn opt_u64_field(e: ElemV, name: Seq<char>) -> Result<Option<u64>, DecodeError> {
    match child_text(e.children, name) {
        None => Ok(None),
        Some(t) => match parse_u64(t) {
            Some(n) => Ok(Some(n)),
            None => Err(DecodeError::BadInt),
        },
    }
}

fn opt_bool_elem(e: &Element, name: &str) -> (r: Result<Option<bool>, DecodeError>)
    ensures
        opt_bool_field(e@, name@) == r,
{
    match e.child_text(name) {
        None => Ok(None),
        Some(t) => match parse_bool_str(t.as_str()) {
            Some(b) => Ok(Some(b)),
            None => Err(DecodeError::BadBool),
        },
    }
}

fn bool_elem_default(e: &Element, name: &str, dflt: bool) -> (r: Result<
    Option<bool>,
    DecodeError,
>)
    ensures
        bool_field_default(e@, name@, dflt) == r,
{
    match e.child_text(name) {
        None => Ok(Some(dflt)),
        Some(t) => match parse_bool_str(t.as_str()) {
            Some(b) => Ok(Some(b)),
            None => Err(DecodeError::BadBool),
        },
    }
}

fn opt_i64_elem(e: &Element, name: &str) -> (r: Result<Option<i64>, DecodeError>)
    ensures
        opt_i64_field(e@, name@) == r,
{
    match e.child_text(name) {
        None => Ok(None),
        Some(t) => match parse_i64_str(t.as_str()) {
            Some(n) => Ok(Some(n)),
            None => Err(DecodeError::BadInt),
        },
    }
}

fn opt_u64_elem(e: &Element, name: &str) -> (r: Result<Option<u64>, DecodeError>)
    ensures
        opt_u64_field(e@, name@) == r,
{
    match e.child_text(name) {
        None => Ok(None),
        Some(t) => match parse_u64_str(t.as_str()) {
            Some(n) => Ok(Some(n)),
            None => Err(DecodeError::BadInt),
        },
    }
}

/// What decoding a plugin element yields: both attributes are required.
pub open spec fn spec_decode_plugin(e: ElemV) -> Result<PluginV, DecodeError> {
    match attr_of(e.attrs, "name"@) {
        None => Err(DecodeError::MissingName),
        Some(n) => match attr_of(e.attrs, "filename"@) {
            None => Err(DecodeError::MissingFilename),
            Some(f) => Ok(PluginV { name: n, filename: f }),
        },
    }
}

/// What decoding a frame element yields.
pub open spec fn spec_decode_frame(e: ElemV) -> Result<FrameV, DecodeError> {
    match attr_of(e.attrs, "name"@) {
        None => Err(DecodeError::MissingName),
        Some(n) => Ok(
            FrameV {
                name: n,
                attached_to: attr_of(e.attrs, "attached_to"@),
                pose: child_text(e.children, "pose"@),
            },
        ),
    }
}

/// What decoding a nested model element yields.
pub open spec fn spec_decode_nested(e: ElemV) -> Result<NestedModelV, DecodeError> {
    match attr_of(e.attrs, "name"@) {
        None => Err(DecodeError::MissingName),
        Some(n) => Ok(NestedModelV { name: n }),
    }
}

/// What decoding a link element yields.
pub open spec fn spec_decode_link(e: ElemV) -> Result<LinkV, DecodeError> {
    match attr_of(e.attrs, "name"@) {
        None => Err(DecodeError::MissingName),
        Some(n) => Ok(LinkV { name: n }),
    }
}

/// What decoding a joint element yields.
pub open spec fn spec_decode_joint(e: ElemV) -> Result<JointV, DecodeError> {
    Ok(JointV {  })
}

/// What decoding a grasp check element yields.
pub open spec fn spec_decode_grasp_check(e: ElemV) -> Result<GraspCheckV, DecodeError> {
    let detach = opt_i64_field(e, "detach_step"@);
    let attach = opt_i64_field(e, "attach_step"@);
    let min_contact = opt_u64_field(e, "min_contact_count"@);
    if detach is Err {
        Err(detach->Err_0)
    } else if attach is Err {
        Err(attach->Err_0)
    } else if min_contact is Err {
        Err(min_contact->Err_0)
    } else {
        Ok(
            GraspCheckV {
                detach_step: detach->Ok_0,
                attach_step: attach->Ok_0,
                min_contact_count: min_contact->Ok_0,
            },
        )
    }
}

/// What decoding a gripper element yields.
pub open spec fn spec_decode_gripper(e: ElemV) -> Result<GripperV, DecodeError> {
    match attr_of(e.attrs, "name"@) {
        None => Err(DecodeError::MissingName),
        Some(n) => {
            let gc = match first_child(e.children, "grasp_check"@) {
                None => Ok(None),
                Some(c) => match spec_decode_grasp_check(c) {
                    Ok(g) => Ok(Some(g)),
                    Err(er) => Err(er),
                },
            };
            match gc {
                Err(er) => Err(er),
                Ok(g) => Ok(
                    GripperV {
                        name: n,
                        grasp_check: g,
                        gripper_link: child_text(e.children, "gripper_link"@),
                        palm_link: child_text(e.children, "palm_link"@),
                    },
                ),
            }
        },
    }
}

/// Decoding all children named `name` in document order with `f`; the first
/// failing child's error is the collection's error.
pub open spec fn collect_children<A>(
    cs: Seq<ElemV>,
    name: Seq<char>,
    f: spec_fn(ElemV) -> Result<A, DecodeError>,
) -> Result<Seq<A>, DecodeError>
    decreases cs.len(),
{
    if cs.len() == 0 {
        Ok(Seq::empty())
    } else {
        match collect_children(cs.drop_last(), name, f) {
            Err(er) => Err(er),
            Ok(v) => if cs.last().name == name {
                match f(cs.last()) {
                    Ok(a) => Ok(v.push(a)),
                    Err(er) => Err(er),
                }
            } else {
                Ok(v)
            },
        }
    }
}

/// A failed prefix fails the whole collection with the same error.
pub proof fn lemma_collect_err_extends<A>(
    cs: Seq<ElemV>,
    name: Seq<char>,
    f: spec_fn(ElemV) -> Result<A, DecodeError>,
    k: int,
)
    requires
        0 <= k <= cs.len(),
        collect_children(cs.take(k), name, f) is Err,
    ensures
        collect_children(cs, name, f) == collect_children(cs.take(k), name, f),
    decreases cs.len() - k,
{
    if k < cs.len() {
        assert(cs.take(k + 1).drop_last() =~= cs.take(k));
        lemma_collect_err_extends(cs, name, f, k + 1);
    } else {
        assert(cs.take(k) =~= cs);
    }
}

/// The decoder of each kind of child, as one named function value.
pub open spec fn dec_plugin_fn() -> spec_fn(ElemV) -> Result<PluginV, DecodeError> {
    |c: ElemV| spec_decode_plugin(c)
}

pub open spec fn dec_include_fn() -> spec_fn(ElemV) -> Result<IncludeV, DecodeError> {
    |c: ElemV| spec_decode_include(c)
}

pub open spec fn dec_frame_fn() -> spec_fn(ElemV) -> Result<FrameV, DecodeError> {
    |c: ElemV| spec_decode_frame(c)
}

pub open spec fn dec_nested_fn() -> spec_fn(ElemV) -> Result<NestedModelV, DecodeError> {
    |c: ElemV| spec_decode_nested(c)
}

pub open spec fn dec_link_fn() -> spec_fn(ElemV) -> Result<LinkV, DecodeError> {
    |c: ElemV| spec_decode_link(c)
}

pub open spec fn dec_joint_fn() -> spec_fn(ElemV) -> Result<JointV, DecodeError> {
    |c: ElemV| spec_decode_joint(c)
}

pub open spec fn dec_gripper_fn() -> spec_fn(ElemV) -> Result<GripperV, DecodeError> {
    |c: ElemV| spec_decode_gripper(c)
}

/// What decoding an included-resource element yields: the `uri` child is
/// required, everything else optional.
pub open spec fn spec_decode_include(e: ElemV) -> Result<IncludeV, DecodeError> {
    let uri = child_text(e.children, "uri"@);
    let is_static = opt_bool_field(e, "static"@);
    let plugins = collect_children(e.children, "plugin"@, dec_plugin_fn());
    if uri is None {
        Err(DecodeError::MissingUri)
    } else if is_static is Err {
        Err(is_static->Err_0)
    } else if plugins is Err {
        Err(plugins->Err_0)
    } else {
        Ok(
            IncludeV {
                uri: uri->0,
                name: child_text(e.children, "name"@),
                is_static: is_static->Ok_0,
                placement_frame: child_text(e.children, "placement_frame"@),
                pose: child_text(e.children, "pose"@),
                plugin: plugins->Ok_0,
            },
        )
    }
}

/// What decoding a model element yields: the `name` attribute is required,
/// `allow_auto_disable` defaults to true and `enable_wind` to false, every
/// collection defaults to empty, document order is preserved.
pub open spec fn spec_decode_model(e: ElemV) -> Result<ModelV, DecodeError> {
    let name = attr_of(e.attrs, "name"@);
    let is_static = opt_bool_field(e, "static"@);
    let self_collide = opt_bool_field(e, "self_collide"@);
    let aad = bool_field_default(e, "allow_auto_disable"@, true);
    let wind = bool_field_default(e, "enable_wind"@, false);
    let incs = collect_children(e.children, inc_tag(), dec_include_fn());
    let nested = collect_children(e.children, "model"@, dec_nested_fn());
    let frames = collect_children(e.children, "frame"@, dec_frame_fn());
    let links = collect_children(e.children, "link"@, dec_link_fn());
    let joints = collect_children(e.children, "joint"@, dec_joint_fn());
    let plugins = collect_children(e.children, "plugin"@, dec_plugin_fn());
    let grippers = collect_children(e.children, "gripper"@, dec_gripper_fn());
    if name is None {
        Err(DecodeError::MissingName)
    } else if is_static is Err {
        Err(is_static->Err_0)
    } else if self_collide is Err {
        Err(self_collide->Err_0)
    } else if aad is Err {
        Err(aad->Err_0)
    } else if wind is Err {
        Err(wind->Err_0)
    } else if incs is Err {
        Err(incs->Err_0)
    } else if nested is Err {
        Err(nested->Err_0)
    } else if frames is Err {
        Err(frames->Err_0)
    } else if links is Err {
        Err(links->Err_0)
    } else if joints is Err {
        Err(joints->Err_0)
    } else if plugins is Err {
        Err(plugins->Err_0)
    } else if grippers is Err {
        Err(grippers->Err_0)
    } else {
        Ok(
            ModelV {
                name: name->0,
                canonical_link: attr_of(e.attrs, "canonical_link"@),
                placement_frame: attr_of(e.attrs, "placement_frame"@),
                is_static: is_static->Ok_0,
                self_collide: self_collide->Ok_0,
                allow_auto_disable: aad->Ok_0,
                enable_wind: wind->Ok_0,
                includes: incs->Ok_0,
                model: nested->Ok_0,
                frame: frames->Ok_0,
                pose: child_text(e.children, "pose"@),
                link: links->Ok_0,
                joint: joints->Ok_0,
                plugin: plugins->Ok_0,
                gripper: grippers->Ok_0,
            },
        )
    }
}

/// Element names that stand for the top-level content choice.
pub open spec fn is_content_name(n: Seq<char>) -> bool {
    n == "world"@ || n == "model"@ || n == "actor"@ || n == "light"@
}

/// The children whose names stand for the top-level content choice, in
/// document order.
pub open spec fn content_children(cs: Seq<ElemV>) -> Seq<ElemV>
    decreases cs.len(),
{
    if cs.len() == 0 {
        Seq::empty()
    } else {
        let rest = content_children(cs.drop_last());
        if is_content_name(cs.last().name) {
            rest.push(cs.last())
        } else {
            rest
        }
    }
}

/// What decoding one recognized content child yields.
pub open spec fn spec_decode_content(e: ElemV) -> Result<SdfTypeV, DecodeError>
    recommends
        is_content_name(e.name),
{
    if e.name == "world"@ {
        Ok(SdfTypeV::World)
    } else if e.name == "model"@ {
        match spec_decode_model(e) {
            Ok(m) => Ok(SdfTypeV::Model(m)),
            Err(er) => Err(er),
        }
    } else if e.name == "actor"@ {
        Ok(SdfTypeV::Actor)
    } else {
        Ok(SdfTypeV::Light)
    }
}

/// What decoding the root element yields: the root must be named `sdf`, hold
/// exactly one recognized content child, and its `version` attribute defaults
/// to `1.8`.
pub open spec fn spec_decode_sdf(e: ElemV) -> Result<SdfV, DecodeError> {
    if e.name != "sdf"@ {
        Err(DecodeError::WrongRoot)
    } else {
        let cands = content_children(e.children);
        if cands.len() == 0 {
            Err(DecodeError::NoContent)
        } else if cands.len() > 1 {
            Err(DecodeError::DuplicateContent)
        } else {
            match spec_decode_content(cands[0]) {
                Ok(t) => Ok(
                    SdfV {
                        version: match attr_of(e.attrs, "version"@) {
                            Some(v) => v,
                            None => "1.8"@,
                        },
                        sdf_type: t,
                    },
                ),
                Err(er) => Err(er),
            }
        }
    }
}

fn decode_plugin(e: &Element) -> (r: Result<Plugin, DecodeError>)
    ensures
        match r {
            Ok(p) => spec_decode_plugin(e@) == Ok::<PluginV, DecodeError>(p@),
            Err(er) => spec_decode_plugin(e@) == Err::<PluginV, DecodeError>(er),
        },
{
    let name = match e.attr("name") {
        Some(v) => v.clone(),
        None => {
            return Err(DecodeError::MissingName);
        },
    };
    let filename = match e.attr("filename") {
        Some(v) => v.clone(),
        None => {
            return Err(DecodeError::MissingFilename);
        },
    };
    Ok(Plugin { name, filename })
}

fn attr_cloned(e: &Element, key: &str) -> (r: Option<String>)
    ensures
        opt_seq(r) == attr_of(e@.attrs, key@),
{
    match e.attr(key) {
        Some(v) => Some(v.clone()),
        None => None,
    }
}

fn decode_frame(e: &Element) -> (r: Result<Frame, DecodeError>)
    ensures
        match r {
            Ok(f) => spec_decode_frame(e@) == Ok::<FrameV, DecodeError>(f@),
            Err(er) => spec_decode_frame(e@) == Err::<FrameV, DecodeError>(er),
        },
{
    let name = match e.attr("name") {
        Some(v) => v.clone(),
        None => {
            return Err(DecodeError::MissingName);
        },
    };
    let attached_to = attr_cloned(e, "attached_to");
    let pose = e.child_text("pose");
    Ok(Frame { name, attached_to, pose })
}

fn decode_nested(e: &Element) -> (r: Result<NestedModel, DecodeError>)
    ensures
        match r {
            Ok(m) => spec_decode_nested(e@) == Ok::<NestedModelV, DecodeError>(m@),
            Err(er) => spec_decode_nested(e@) == Err::<NestedModelV, DecodeError>(er),
        },
{
    match e.attr("name") {
        Some(v) => Ok(NestedModel { name: v.clone() }),
        None => Err(DecodeError::MissingName),
    }
}

fn decode_link(e: &Element) -> (r: Result<Link, DecodeError>)
    ensures
        match r {
            Ok(l) => spec_decode_link(e@) == Ok::<LinkV, DecodeError>(l@),
            Err(er) => spec_decode_link(e@) == Err::<LinkV, DecodeError>(er),
        },
{
    match e.attr("name") {
        Some(v) => Ok(Link { name: v.clone() }),
        None => Err(DecodeError::MissingName),
    }
}

fn decode_joint(e: &Element) -> (r: Result<Joint, DecodeError>)
    ensures
        match r {
            Ok(j) => spec_decode_joint(e@) == Ok::<JointV, DecodeError>(j@),
            Err(er) => spec_decode_joint(e@) == Err::<JointV, DecodeError>(er),
        },
{
    Ok(Joint {  })
}

fn decode_grasp_check(e: &Element) -> (r: Result<GraspCheck, DecodeError>)
    ensures
        match r {
            Ok(g) => spec_decode_grasp_check(e@) == Ok::<GraspCheckV, DecodeError>(g@),
            Err(er) => spec_decode_grasp_check(e@) == Err::<GraspCheckV, DecodeError>(er),
        },
{
    let detach_step = match opt_i64_elem(e, "detach_step") {
        Ok(v) => v,
        Err(er) => {
            return Err(er);
        },
    };
    let attach_step = match opt_i64_elem(e, "attach_step") {
        Ok(v) => v,
        Err(er) => {
            return Err(er);
        },
    };
    let min_contact_count = match opt_u64_elem(e, "min_contact_count") {
        Ok(v) => v,
        Err(er) => {
            return Err(er);
        },
    };
    Ok(GraspCheck { detach_step, attach_step, min_contact_count })
}

fn decode_gripper(e: &Element) -> (r: Result<Gripper, DecodeError>)
    ensures
        match r {
            Ok(g) => spec_decode_gripper(e@) == Ok::<GripperV, DecodeError>(g@),
            Err(er) => spec_decode_gripper(e@) == Err::<GripperV, DecodeError>(er),
        },
{
    let name = match e.attr("name") {
        Some(v) => v.clone(),
        None => {
            return Err(DecodeError::MissingName);
        },
    };
    let grasp_check = match e.child("grasp_check") {
        None => None,
        Some(c) => match decode_grasp_check(c) {
            Ok(g) => Some(g),
            Err(er) => {
                return Err(er);
            },
        },
    };
    let gripper_link = e.child_text("gripper_link");
    let palm_link = e.child_text("palm_link");
    Ok(Gripper { name, grasp_check, gripper_link, palm_link })
}


fn decode_plugins(e: &Element) -> (r: Result<Vec<Plugin>, DecodeError>)
    ensures
        match r {
            Ok(v) => collect_children(e@.children, "plugin"@, dec_plugin_fn())
                == Ok::<Seq<PluginV>, DecodeError>(v@.map_values(|q: Plugin| q@)),
            Err(er) => collect_children(e@.children, "plugin"@, dec_plugin_fn())
                == Err::<Seq<PluginV>, DecodeError>(er),
        },
{
    let ghost cs = e@.children;
    let ghost f = dec_plugin_fn();
    proof {
        lemma_elems_view(e.children@);
        assert(cs.take(0) =~= Seq::<ElemV>::empty());
    }
    let mut out: Vec<Plugin> = Vec::new();
    proof {
        assert(out@.map_values(|q: Plugin| q@) =~= Seq::<PluginV>::empty());
    }
    let mut j: usize = 0;
    while j < e.children.len()
        invariant
            j <= e.children.len(),
            cs == e@.children,
            f == dec_plugin_fn(),
            cs.len() == e.children.len(),
            forall|i: int| 0 <= i < cs.len() ==> cs[i] == elem_view(#[trigger] e.children@[i]),
            collect_children(cs.take(j as int), "plugin"@, f)
                == Ok::<Seq<PluginV>, DecodeError>(out@.map_values(|q: Plugin| q@)),
        decreases e.children.len() - j,
    {
        proof {
            assert(cs.take(j + 1).drop_last() =~= cs.take(j as int));
            assert(cs.take(j + 1).last() == cs[j as int]);
        }
        if str_eq(e.children[j].name.as_str(), "plugin") {
            match decode_plugin(&e.children[j]) {
                Ok(p) => {
                    let ghost prev = out@.map_values(|q: Plugin| q@);
                    out.push(p);
                    proof {
                        assert(out@.map_values(|q: Plugin| q@) =~= prev.push(p@));
                    }
                },
                Err(er) => {
                    proof {
                        lemma_collect_err_extends(cs, "plugin"@, f, j + 1);
                    }
                    return Err(er);
                },
            }
        }
        j += 1;
    }
    proof {
        assert(cs.take(j as int) =~= cs);
    }
    Ok(out)
}

fn decode_frames(e: &Element) -> (r: Result<Vec<Frame>, DecodeError>)
    ensures
        match r {
            Ok(v) => collect_children(e@.children, "frame"@, dec_frame_fn())
                == Ok::<Seq<FrameV>, DecodeError>(v@.map_values(|q: Frame| q@)),
            Err(er) => collect_children(e@.children, "frame"@, dec_frame_fn())
                == Err::<Seq<FrameV>, DecodeError>(er),
        },
{
    let ghost cs = e@.children;
    let ghost f = dec_frame_fn();
    proof {
        lemma_elems_view(e.children@);
        assert(cs.take(0) =~= Seq::<ElemV>::empty());
    }
    let mut out: Vec<Frame> = Vec::new();
    proof {
        assert(out@.map_values(|q: Frame| q@) =~= Seq::<FrameV>::empty());
    }
    let mut j: usize = 0;
    while j < e.children.len()
        invariant
            j <= e.children.len(),
            cs == e@.children,
            f == dec_frame_fn(),
            cs.len() == e.children.len(),
            forall|i: int| 0 <= i < cs.len() ==> cs[i] == elem_view(#[trigger] e.children@[i]),
            collect_children(cs.take(j as int), "frame"@, f)
                == Ok::<Seq<FrameV>, DecodeError>(out@.map_values(|q: Frame| q@)),
        decreases e.children.len() - j,
    {
        proof {
            assert(cs.take(j + 1).drop_last() =~= cs.take(j as int));
            assert(cs.take(j + 1).last() == cs[j as int]);
        }
        if str_eq(e.children[j].name.as_str(), "frame") {
            match decode_frame(&e.children[j]) {
                Ok(p) => {
                    let ghost prev = out@.map_values(|q: Frame| q@);
                    out.push(p);
                    proof {
                        assert(out@.map_values(|q: Frame| q@) =~= prev.push(p@));
                    }
                },
                Err(er) => {
                    proof {
                        lemma_collect_err_extends(cs, "frame"@, f, j + 1);
                    }
                    return Err(er);
                },
            }
        }
        j += 1;
    }
    proof {
        assert(cs.take(j as int) =~= cs);
    }
    Ok(out)
}

fn decode_nesteds(e: &Element) -> (r: Result<Vec<NestedModel>, DecodeError>)
    ensures
        match r {
            Ok(v) => collect_children(e@.children, "model"@, dec_nested_fn())
                == Ok::<Seq<NestedModelV>, DecodeError>(v@.map_values(|q: NestedModel| q@)),
            Err(er) => collect_children(e@.children, "model"@, dec_nested_fn())
                == Err::<Seq<NestedModelV>, DecodeError>(er),
        },
{
    let ghost cs = e@.children;
    let ghost f = dec_nested_fn();
    proof {
        lemma_elems_view(e.children@);
        assert(cs.take(0) =~= Seq::<ElemV>::empty());
    }
    let mut out: Vec<NestedModel> = Vec::new();
    proof {
        assert(out@.map_values(|q: NestedModel| q@) =~= Seq::<NestedModelV>::empty());
    }
    let mut j: usize = 0;
    while j < e.children.len()
        invariant
            j <= e.children.len(),
            cs == e@.children,
            f == dec_nested_fn(),
            cs.len() == e.children.len(),
            forall|i: int| 0 <= i < cs.len() ==> cs[i] == elem_view(#[trigger] e.children@[i]),
            collect_children(cs.take(j as int), "model"@, f)
                == Ok::<Seq<NestedModelV>, DecodeError>(out@.map_values(|q: NestedModel| q@)),
        decreases e.children.len() - j,
    {
        proof {
            assert(cs.take(j + 1).drop_last() =~= cs.take(j as int));
            assert(cs.take(j + 1).last() == cs[j as int]);
        }
        if str_eq(e.children[j].name.as_str(), "model") {
            match decode_nested(&e.children[j]) {
                Ok(p) => {
                    let ghost prev = out@.map_values(|q: NestedModel| q@);
                    out.push(p);
                    proof {
                        assert(out@.map_values(|q: NestedModel| q@) =~= prev.push(p@));
                    }
                },
                Err(er) => {
                    proof {
                        lemma_collect_err_extends(cs, "model"@, f, j + 1);
                    }
                    return Err(er);
                },
            }
        }
        j += 1;
    }
    proof {
        assert(cs.take(j as int) =~= cs);
    }
    Ok(out)
}

fn decode_links(e: &Element) -> (r: Result<Vec<Link>, DecodeError>)
    ensures
        match r {
            Ok(v) => collect_children(e@.children, "link"@, dec_link_fn())
                == Ok::<Seq<LinkV>, DecodeError>(v@.map_values(|q: Link| q@)),
            Err(er) => collect_children(e@.children, "link"@, dec_link_fn())
                == Err::<Seq<LinkV>, DecodeError>(er),
        },
{
    let ghost cs = e@.children;
    let ghost f = dec_link_fn();
    proof {
        lemma_elems_view(e.children@);
        assert(cs.take(0) =~= Seq::<ElemV>::empty());
    }
    let mut out: Vec<Link> = Vec::new();
    proof {
        assert(out@.map_values(|q: Link| q@) =~= Seq::<LinkV>::empty());
    }
    let mut j: usize = 0;
    while j < e.children.len()
        invariant
            j <= e.children.len(),
            cs == e@.children,
            f == dec_link_fn(),
            cs.len() == e.children.len(),
            forall|i: int| 0 <= i < cs.len() ==> cs[i] == elem_view(#[trigger] e.children@[i]),
            collect_children(cs.take(j as int), "link"@, f)
                == Ok::<Seq<LinkV>, DecodeError>(out@.map_values(|q: Link| q@)),
        decreases e.children.len() - j,
    {
        proof {
            assert(cs.take(j + 1).drop_last() =~= cs.take(j as int));
            assert(cs.take(j + 1).last() == cs[j as int]);
        }
        if str_eq(e.children[j].name.as_str(), "link") {
            match decode_link(&e.children[j]) {
                Ok(p) => {
                    let ghost prev = out@.map_values(|q: Link| q@);
                    out.push(p);
                    proof {
                        assert(out@.map_values(|q: Link| q@) =~= prev.push(p@));
                    }
                },
                Err(er) => {
                    proof {
                        lemma_collect_err_extends(cs, "link"@, f, j + 1);
                    }
                    return Err(er);
                },
            }
        }
        j += 1;
    }
    proof {
        assert(cs.take(j as int) =~= cs);
    }
    Ok(out)
}

fn decode_joints(e: &Element) -> (r: Result<Vec<Joint>, DecodeError>)
    ensures
        match r {
            Ok(v) => collect_children(e@.children, "joint"@, dec_joint_fn())
                == Ok::<Seq<JointV>, DecodeError>(v@.map_values(|q: Joint| q@)),
            Err(er) => collect_children(e@.children, "joint"@, dec_joint_fn())
                == Err::<Seq<JointV>, DecodeError>(er),
        },
{
    let ghost cs = e@.children;
    let ghost f = dec_joint_fn();
    proof {
        lemma_elems_view(e.children@);
        assert(cs.take(0) =~= Seq::<ElemV>::empty());
    }
    let mut out: Vec<Joint> = Vec::new();
    proof {
        assert(out@.map_values(|q: Joint| q@) =~= Seq::<JointV>::empty());
    }
    let mut j: usize = 0;
    while j < e.children.len()
        invariant
            j <= e.children.len(),
            cs == e@.children,
            f == dec_joint_fn(),
            cs.len() == e.children.len(),
            forall|i: int| 0 <= i < cs.len() ==> cs[i] == elem_view(#[trigger] e.children@[i]),
            collect_children(cs.take(j as int), "joint"@, f)
                == Ok::<Seq<JointV>, DecodeError>(out@.map_values(|q: Joint| q@)),
        decreases e.children.len() - j,
    {
        proof {
            assert(cs.take(j + 1).drop_last() =~= cs.take(j as int));
            assert(cs.take(j + 1).last() == cs[j as int]);
        }
        if str_eq(e.children[j].name.as_str(), "joint") {
            match decode_joint(&e.children[j]) {
                Ok(p) => {
                    let ghost prev = out@.map_values(|q: Joint| q@);
                    out.push(p);
                    proof {
                        assert(out@.map_values(|q: Joint| q@) =~= prev.push(p@));
                    }
                },
                Err(er) => {
                    proof {
                        lemma_collect_err_extends(cs, "joint"@, f, j + 1);
                    }
                    return Err(er);
                },
            }
        }
        j += 1;
    }
    proof {
        assert(cs.take(j as int) =~= cs);
    }
    Ok(out)
}

fn decode_grippers(e: &Element) -> (r: Result<Vec<Gripper>, DecodeError>)
    ensures
        match r {
            Ok(v) => collect_children(e@.children, "gripper"@, dec_gripper_fn())
                == Ok::<Seq<GripperV>, DecodeError>(v@.map_values(|q: Gripper| q@)),
            Err(er) => collect_children(e@.children, "gripper"@, dec_gripper_fn())
                == Err::<Seq<GripperV>, DecodeError>(er),
        },
{
    let ghost cs = e@.children;
    let ghost f = dec_gripper_fn();
    proof {
        lemma_elems_view(e.children@);
        assert(cs.take(0) =~= Seq::<ElemV>::empty());
    }
    let mut out: Vec<Gripper> = Vec::new();
    proof {
        assert(out@.map_values(|q: Gripper| q@) =~= Seq::<GripperV>::empty());
    }
    let mut j: usize = 0;
    while j < e.children.len()
        invariant
            j <= e.children.len(),
            cs == e@.children,
            f == dec_gripper_fn(),
            cs.len() == e.children.len(),
            forall|i: int| 0 <= i < cs.len() ==> cs[i] == elem_view(#[trigger] e.children@[i]),
            collect_children(cs.take(j as int), "gripper"@, f)
                == Ok::<Seq<GripperV>, DecodeError>(out@.map_values(|q: Gripper| q@)),
        decreases e.children.len() - j,
    {
        proof {
            assert(cs.take(j + 1).drop_last() =~= cs.take(j as int));
            assert(cs.take(j + 1).last() == cs[j as int]);
        }
        if str_eq(e.children[j].name.as_str(), "gripper") {
            match decode_gripper(&e.children[j]) {
                Ok(p) => {
                    let ghost prev = out@.map_values(|q: Gripper| q@);
                    out.push(p);
                    proof {
                        assert(out@.map_values(|q: Gripper| q@) =~= prev.push(p@));
                    }
                },
                Err(er) => {
                    proof {
                        lemma_collect_err_extends(cs, "gripper"@, f, j + 1);
                    }
                    return Err(er);
                },
            }
        }
        j += 1;
    }
    proof {
        assert(cs.take(j as int) =~= cs);
    }
    Ok(out)
}


fn decode_include(e: &Element) -> (r: Result<Include, DecodeError>)
    ensures
        match r {
            Ok(x) => spec_decode_include(e@) == Ok::<IncludeV, DecodeError>(x@),
            Err(er) => spec_decode_include(e@) == Err::<IncludeV, DecodeError>(er),
        },
{
    let uri = match e.child_text("uri") {
        Some(u) => u,
        None => {
            return Err(DecodeError::MissingUri);
        },
    };
    let is_static = match opt_bool_elem(e, "static") {
        Ok(v) => v,
        Err(er) => {
            return Err(er);
        },
    };
    let plugin = match decode_plugins(e) {
        Ok(v) => v,
        Err(er) => {
            return Err(er);
        },
    };
    let name = e.child_text("name");
    let placement_frame = e.child_text("placement_frame");
    let pose = e.child_text("pose");
    let out = Include { uri, name, is_static, placement_frame, pose, plugin };
    proof {
        assert(out@.plugin =~= out.plugin@.map_values(|q: Plugin| q@));
    }
    Ok(out)
}

fn decode_includes(e: &Element) -> (r: Result<Vec<Include>, DecodeError>)
    ensures
        match r {
            Ok(v) => collect_children(e@.children, inc_tag(), dec_include_fn())
                == Ok::<Seq<IncludeV>, DecodeError>(v@.map_values(|q: Include| q@)),
            Err(er) => collect_children(e@.children, inc_tag(), dec_include_fn())
                == Err::<Seq<IncludeV>, DecodeError>(er),
        },
{
    let tag = inc_tag_string();
    let ghost cs = e@.children;
    let ghost f = dec_include_fn();
    proof {
        lemma_elems_view(e.children@);
        assert(cs.take(0) =~= Seq::<ElemV>::empty());
    }
    let mut out: Vec<Include> = Vec::new();
    proof {
        assert(out@.map_values(|q: Include| q@) =~= Seq::<IncludeV>::empty());
    }
    let mut j: usize = 0;
    while j < e.children.len()
        invariant
            j <= e.children.len(),
            cs == e@.children,
            f == dec_include_fn(),
            tag@ == inc_tag(),
            cs.len() == e.children.len(),
            forall|i: int| 0 <= i < cs.len() ==> cs[i] == elem_view(#[trigger] e.children@[i]),
            collect_children(cs.take(j as int), inc_tag(), f)
                == Ok::<Seq<IncludeV>, DecodeError>(out@.map_values(|q: Include| q@)),
        decreases e.children.len() - j,
    {
        proof {
            assert(cs.take(j + 1).drop_last() =~= cs.take(j as int));
            assert(cs.take(j + 1).last() == cs[j as int]);
        }
        if str_eq(e.children[j].name.as_str(), tag.as_str()) {
            match decode_include(&e.children[j]) {
                Ok(p) => {
                    let ghost prev = out@.map_values(|q: Include| q@);
                    out.push(p);
                    proof {
                        assert(out@.map_values(|q: Include| q@) =~= prev.push(p@));
                    }
                },
                Err(er) => {
                    proof {
                        lemma_collect_err_extends(cs, inc_tag(), f, j + 1);
                    }
                    return Err(er);
                },
            }
        }
        j += 1;
    }
    proof {
        assert(cs.take(j as int) =~= cs);
    }
    Ok(out)
}

fn decode_model(e: &Element) -> (r: Result<Model, DecodeError>)
    ensures
        match r {
            Ok(m) => spec_decode_model(e@) == Ok::<ModelV, DecodeError>(m@),
            Err(er) => spec_decode_model(e@) == Err::<ModelV, DecodeError>(er),
        },
{
    let name = match e.attr("name") {
        Some(v) => v.clone(),
        None => {
            return Err(DecodeError::MissingName);
        },
    };
    let is_static = match opt_bool_elem(e, "static") {
        Ok(v) => v,
        Err(er) => {
            return Err(er);
        },
    };
    let self_collide = match opt_bool_elem(e, "self_collide") {
        Ok(v) => v,
        Err(er) => {
            return Err(er);
        },
    };
    let allow_auto_disable = match bool_elem_default(e, "allow_auto_disable", true) {
        Ok(v) => v,
        Err(er) => {
            return Err(er);
        },
    };
    let enable_wind = match bool_elem_default(e, "enable_wind", false) {
        Ok(v) => v,
        Err(er) => {
            return Err(er);
        },
    };
    let includes = match decode_includes(e) {
        Ok(v) => v,
        Err(er) => {
            return Err(er);
        },
    };
    let model = match decode_nesteds(e) {
        Ok(v) => v,
        Err(er) => {
            return Err(er);
        },
    };
    let frame = match decode_frames(e) {
        Ok(v) => v,
        Err(er) => {
            return Err(er);
        },
    };
    let link = match decode_links(e) {
        Ok(v) => v,
        Err(er) => {
            return Err(er);
        },
    };
    let joint = match decode_joints(e) {
        Ok(v) => v,
        Err(er) => {
            return Err(er);
        },
    };
    let plugin = match decode_plugins(e) {
        Ok(v) => v,
        Err(er) => {
            return Err(er);
        },
    };
    let gripper = match decode_grippers(e) {
        Ok(v) => v,
        Err(er) => {
            return Err(er);
        },
    };
    let canonical_link = attr_cloned(e, "canonical_link");
    let placement_frame = attr_cloned(e, "placement_frame");
    let pose = e.child_text("pose");
    let out = Model {
        name,
        canonical_link,
        placement_frame,
        is_static,
        self_collide,
        allow_auto_disable,
        includes,
        model,
        enable_wind,
        frame,
        pose,
        link,
        joint,
        plugin,
        gripper,
    };
    proof {
        assert(out@.includes =~= out.includes@.map_values(|q: Include| q@));
        assert(out@.model =~= out.model@.map_values(|q: NestedModel| q@));
        assert(out@.frame =~= out.frame@.map_values(|q: Frame| q@));
        assert(out@.link =~= out.link@.map_values(|q: Link| q@));
        assert(out@.joint =~= out.joint@.map_values(|q: Joint| q@));
        assert(out@.plugin =~= out.plugin@.map_values(|q: Plugin| q@));
        assert(out@.gripper =~= out.gripper@.map_values(|q: Gripper| q@));
    }
    Ok(out)
}

/// A prefix never holds more recognized content children than the whole.
proof fn lemma_content_len_mono(cs: Seq<ElemV>, k: int)
    requires
        0 <= k <= cs.len(),
    ensures
        content_children(cs.take(k)).len() <= content_children(cs).len(),
    decreases cs.len() - k,
{
    if k < cs.len() {
        assert(cs.take(k + 1).drop_last() =~= cs.take(k));
        assert(cs.take(k + 1).last() == cs[k]);
        lemma_content_len_mono(cs, k + 1);
    } else {
        assert(cs.take(k) =~= cs);
    }
}

fn decode_content(e: &Element) -> (r: Result<SdfType, DecodeError>)
    requires
        is_content_name(e@.name),
    ensures
        match r {
            Ok(t) => spec_decode_content(e@) == Ok::<SdfTypeV, DecodeError>(t@),
            Err(er) => spec_decode_content(e@) == Err::<SdfTypeV, DecodeError>(er),
        },
{
    if str_eq(e.name.as_str(), "world") {
        Ok(SdfType::World(World {  }))
    } else if str_eq(e.name.as_str(), "model") {
        match decode_model(e) {
            Ok(m) => Ok(SdfType::Model(m)),
            Err(er) => Err(er),
        }
    } else if str_eq(e.name.as_str(), "actor") {
        Ok(SdfType::Actor)
    } else {
        Ok(SdfType::Light)
    }
}

/// Decodes one parsed element tree into a typed document. This is the exact
/// mapping: the result is `spec_decode_sdf` of the tree, error for error.
pub fn decode_element(e: &Element) -> (r: Result<Sdf, DecodeError>)
    ensures
        match r {
            Ok(d) => spec_decode_sdf(e@) == Ok::<SdfV, DecodeError>(d@),
            Err(er) => spec_decode_sdf(e@) == Err::<SdfV, DecodeError>(er),
        },
        r is Ok ==> r->Ok_0@.wf(),
{
    if !str_eq(e.name.as_str(), "sdf") {
        return Err(DecodeError::WrongRoot);
    }
    let ghost cs = e@.children;
    proof {
        lemma_elems_view(e.children@);
        assert(cs.take(0) =~= Seq::<ElemV>::empty());
    }
    let mut found: Option<usize> = None;
    let mut j: usize = 0;
    while j < e.children.len()
        invariant
            j <= e.children.len(),
            cs == e@.children,
            cs.len() == e.children.len(),
            e@.name == "sdf"@,
            forall|i: int| 0 <= i < cs.len() ==> cs[i] == elem_view(#[trigger] e.children@[i]),
            match found {
                None => content_children(cs.take(j as int)) =~= Seq::<ElemV>::empty(),
                Some(k) => k < j && content_children(cs.take(j as int)) =~= seq![cs[k as int]]
                    && is_content_name(cs[k as int].name),
            },
        decreases e.children.len() - j,
    {
        proof {
            assert(cs.take(j + 1).drop_last() =~= cs.take(j as int));
            assert(cs.take(j + 1).last() == cs[j as int]);
        }
        let n = e.children[j].name.as_str();
        if str_eq(n, "world") || str_eq(n, "model") || str_eq(n, "actor") || str_eq(n, "light") {
            match found {
                Some(_) => {
                    proof {
                        assert(is_content_name(cs[j as int].name));
                        assert(content_children(cs.take(j + 1)) == content_children(
                            cs.take(j as int),
                        ).push(cs[j as int]));
                        assert(content_children(cs.take(j + 1)).len() == 2);
                        lemma_content_len_mono(cs, j + 1);
                        assert(content_children(cs).len() >= 2);
                        assert(e@.name == "sdf"@);
                    }
                    return Err(DecodeError::DuplicateContent);
                },
                None => {
                    found = Some(j);
                },
            }
        }
        j += 1;
    }
    proof {
        assert(cs.take(j as int) =~= cs);
    }
    let k = match found {
        None => {
            return Err(DecodeError::NoContent);
        },
        Some(k) => k,
    };
    let content = match decode_content(&e.children[k]) {
        Ok(t) => t,
        Err(er) => {
            return Err(er);
        },
    };
    let version = match e.attr("version") {
        Some(v) => v.clone(),
        None => Sdf::default_version(),
    };
    let out = Sdf { version, sdf_type: content };
    proof {
        assert(content_children(cs)[0] == cs[k as int]);
        if out@.sdf_type is Model {
            assert(spec_decode_model(cs[k as int]) == Ok::<ModelV, DecodeError>(
                out@.sdf_type->Model_0,
            ));
        }
    }
    Ok(out)
}

} // verus!
