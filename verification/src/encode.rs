use vstd::prelude::*;

verus! {

use crate::elem::{Element, ElemV, elem_view, elems_view, lemma_elems_view_push};
use crate::model::{
    Sdf, SdfType, Model, Include, Plugin, Frame, NestedModel, Link, Joint, Gripper, GraspCheck, SdfV,
    SdfTypeV, ModelV, IncludeV, PluginV, FrameV, NestedModelV, LinkV, JointV, GripperV,
    GraspCheckV, opt_view,
};
use crate::num::{bool_text, bool_string, u64_digits, u64_string, i64_text, i64_string};
use crate::decode::inc_tag;
use crate::decode::inc_tag_string;

/// An element holding only character data.
pub open spec fn text_elem(name: Seq<char>, text: Seq<char>) -> ElemV {
    ElemV { name, attrs: Seq::empty(), text, children: Seq::empty() }
}

/// The child element written for an optional text field: nothing when absent.
pub open spec fn opt_text_child(name: Seq<char>, v: Option<Seq<char>>) -> Seq<ElemV> {
    match v {
        Some(t) => seq![text_elem(name, t)],
        None => Seq::empty(),
    }
}

/// The child element written for an optional boolean field.
pub open spec fn opt_bool_child(name: Seq<char>, v: Option<bool>) -> Seq<ElemV> {
    match v {
        Some(b) => seq![text_elem(name, bool_text(b))],
        None => Seq::empty(),
    }
}

/// The child element written for an optional signed number field.
pub open spec fn opt_i64_child(name: Seq<char>, v: Option<i64>) -> Seq<ElemV> {
    match v {
        Some(n) => seq![text_elem(name, i64_text(n))],
        None => Seq::empty(),
    }
}

/// The child element written for an optional unsigned number field.
pub open spec fn opt_u64_child(name: Seq<char>, v: Option<u64>) -> Seq<ElemV> {
    match v {
        Some(n) => seq![text_elem(name, u64_digits(n as nat))],
        None => Seq::empty(),
    }
}

/// The attribute written for an optional string field: nothing when absent.
pub open spec fn opt_attr(key: Seq<char>, v: Option<Seq<char>>) -> Seq<(Seq<char>, Seq<char>)> {
    match v {
        Some(t) => seq![(key, t)],
        None => Seq::empty(),
    }
}

/// What encoding writes for a plugin.
pub open spec fn enc_plugin(p: PluginV) -> ElemV {
    ElemV {
        name: "plugin"@,
        attrs: seq![("name"@, p.name), ("filename"@, p.filename)],
        text: Seq::empty(),
        children: Seq::empty(),
    }
}

/// What encoding writes for a frame.
pub open spec fn enc_frame(f: FrameV) -> ElemV {
    ElemV {
        name: "frame"@,
        attrs: seq![("name"@, f.name)] + opt_attr("attached_to"@, f.attached_to),
        text: Seq::empty(),
        children: opt_text_child("pose"@, f.pose),
    }
}

/// What encoding writes for a nested model.
pub open spec fn enc_nested(m: NestedModelV) -> ElemV {
    ElemV {
        name: "model"@,
        attrs: seq![("name"@, m.name)],
        text: Seq::empty(),
        children: Seq::empty(),
    }
}

/// What encoding writes for a link.
pub open spec fn enc_link(l: LinkV) -> ElemV {
    ElemV {
        name: "link"@,
        attrs: seq![("name"@, l.name)],
        text: Seq::empty(),
        children: Seq::empty(),
    }
}

/// What encoding writes for a joint.
pub open spec fn enc_joint(j: JointV) -> ElemV {
    ElemV { name: "joint"@, attrs: Seq::empty(), text: Seq::empty(), children: Seq::empty() }
}

/// What encoding writes for a grasp check.
pub open spec fn enc_grasp_check(g: GraspCheckV) -> ElemV {
    ElemV {
        name: "grasp_check"@,
        attrs: Seq::empty(),
        text: Seq::empty(),
        children: opt_i64_child("detach_step"@, g.detach_step) + opt_i64_child(
            "attach_step"@,
            g.attach_step,
        ) + opt_u64_child("min_contact_count"@, g.min_contact_count),
    }
}

/// What encoding writes for a gripper.
pub open spec fn enc_gripper(g: GripperV) -> ElemV {
    ElemV {
        name: "gripper"@,
        attrs: seq![("name"@, g.name)],
        text: Seq::empty(),
        children: (match g.grasp_check {
            Some(gc) => seq![enc_grasp_check(gc)],
            None => Seq::<ElemV>::empty(),
        }) + opt_text_child("gripper_link"@, g.gripper_link) + opt_text_child(
            "palm_link"@,
            g.palm_link,
        ),
    }
}

/// The encoders of each kind of child, as one named function value.
pub open spec fn enc_plugin_fn() -> spec_fn(PluginV) -> ElemV {
    |p: PluginV| enc_plugin(p)
}

pub open spec fn enc_frame_fn() -> spec_fn(FrameV) -> ElemV {
    |f: FrameV| enc_frame(f)
}

pub open spec fn enc_nested_fn() -> spec_fn(NestedModelV) -> ElemV {
    |m: NestedModelV| enc_nested(m)
}

pub open spec fn enc_link_fn() -> spec_fn(LinkV) -> ElemV {
    |l: LinkV| enc_link(l)
}

pub open spec fn enc_joint_fn() -> spec_fn(JointV) -> ElemV {
    |j: JointV| enc_joint(j)
}

pub open spec fn enc_gripper_fn() -> spec_fn(GripperV) -> ElemV {
    |g: GripperV| enc_gripper(g)
}

pub open spec fn enc_include_fn() -> spec_fn(IncludeV) -> ElemV {
    |x: IncludeV| enc_include(x)
}

/// What encoding writes for an included resource.
pub open spec fn enc_include(x: IncludeV) -> ElemV {
    ElemV {
        name: inc_tag(),
        attrs: Seq::empty(),
        text: Seq::empty(),
        children: seq![text_elem("uri"@, x.uri)] + opt_text_child("name"@, x.name)
            + opt_bool_child("static"@, x.is_static) + opt_text_child(
            "placement_frame"@,
            x.placement_frame,
        ) + opt_text_child("pose"@, x.pose) + x.plugin.map_values(enc_plugin_fn()),
    }
}

/// What encoding writes for a model: defaulted-present fields are written
/// whenever present, collections in document order, field group by group.
pub open spec fn enc_model(m: ModelV) -> ElemV {
    ElemV {
        name: "model"@,
        attrs: seq![("name"@, m.name)] + opt_attr("canonical_link"@, m.canonical_link) + opt_attr(
            "placement_frame"@,
            m.placement_frame,
        ),
        text: Seq::empty(),
        children: opt_bool_child("static"@, m.is_static) + opt_bool_child(
            "self_collide"@,
            m.self_collide,
        ) + opt_bool_child("allow_auto_disable"@, m.allow_auto_disable) + opt_bool_child(
            "enable_wind"@,
            m.enable_wind,
        ) + opt_text_child("pose"@, m.pose) + m.includes.map_values(enc_include_fn())
            + m.model.map_values(enc_nested_fn()) + m.frame.map_values(enc_frame_fn())
            + m.link.map_values(enc_link_fn()) + m.joint.map_values(enc_joint_fn())
            + m.plugin.map_values(enc_plugin_fn()) + m.gripper.map_values(enc_gripper_fn()),
    }
}

/// What encoding writes for the top-level content choice.
pub open spec fn enc_content(t: SdfTypeV) -> ElemV {
    match t {
        SdfTypeV::World => ElemV {
            name: "world"@,
            attrs: Seq::empty(),
            text: Seq::empty(),
            children: Seq::empty(),
        },
        SdfTypeV::Model(m) => enc_model(m),
        SdfTypeV::Actor => ElemV {
            name: "actor"@,
            attrs: Seq::empty(),
            text: Seq::empty(),
            children: Seq::empty(),
        },
        SdfTypeV::Light => ElemV {
            name: "light"@,
            attrs: Seq::empty(),
            text: Seq::empty(),
            children: Seq::empty(),
        },
    }
}

/// What encoding writes for a whole document: the version attribute is always
/// written, and the single content child.
pub open spec fn enc_sdf(v: SdfV) -> ElemV {
    ElemV {
        name: "sdf"@,
        attrs: seq![("version"@, v.version)],
        text: Seq::empty(),
        children: seq![enc_content(v.sdf_type)],
    }
}

/// Image of a vector of attribute pairs.
pub open spec fn attrs_view(attrs: Seq<(String, String)>) -> Seq<(Seq<char>, Seq<char>)> {
    attrs.map_values(|p: (String, String)| (p.0@, p.1@))
}

fn text_element(name: &str, text: String) -> (e: Element)
    ensures
        e@ == text_elem(name@, text@),
{
    let e = Element {
        name: String::from_str(name),
        attrs: Vec::new(),
        text,
        children: Vec::new(),
    };
    proof {
        assert(e.attrs@.map_values(|p: (String, String)| (p.0@, p.1@)) =~= Seq::<(
            Seq<char>,
            Seq<char>,
        )>::empty());
        assert(elems_view(e.children@) =~= Seq::<ElemV>::empty());
    }
    e
}

fn push_opt_text(children: &mut Vec<Element>, name: &str, v: &Option<String>)
    ensures
        elems_view(final(children)@) == elems_view(old(children)@) + opt_text_child(
            name@,
            opt_view(*v),
        ),
{
    let ghost base = elems_view(children@);
    match v {
        Some(t) => {
            let e = text_element(name, t.clone());
            proof {
                lemma_elems_view_push(children@, e);
            }
            children.push(e);
            proof {
                assert(elems_view(children@) =~= base + opt_text_child(name@, opt_view(*v)));
            }
        },
        None => {
            proof {
                assert(elems_view(children@) =~= base + opt_text_child(name@, opt_view(*v)));
            }
        },
    }
}

fn push_opt_bool(children: &mut Vec<Element>, name: &str, v: &Option<bool>)
    ensures
        elems_view(final(children)@) == elems_view(old(children)@) + opt_bool_child(name@, *v),
{
    let ghost base = elems_view(children@);
    match v {
        Some(b) => {
            let e = text_element(name, bool_string(*b));
            proof {
                lemma_elems_view_push(children@, e);
            }
            children.push(e);
            proof {
                assert(elems_view(children@) =~= base + opt_bool_child(name@, *v));
            }
        },
        None => {
            proof {
                assert(elems_view(children@) =~= base + opt_bool_child(name@, *v));
            }
        },
    }
}

fn push_opt_i64(children: &mut Vec<Element>, name: &str, v: &Option<i64>)
    ensures
        elems_view(final(children)@) == elems_view(old(children)@) + opt_i64_child(name@, *v),
{
    let ghost base = elems_view(children@);
    match v {
        Some(n) => {
            let e = text_element(name, i64_string(*n));
            proof {
                lemma_elems_view_push(children@, e);
            }
            children.push(e);
            proof {
                assert(elems_view(children@) =~= base + opt_i64_child(name@, *v));
            }
        },
        None => {
            proof {
                assert(elems_view(children@) =~= base + opt_i64_child(name@, *v));
            }
        },
    }
}

fn push_opt_u64(children: &mut Vec<Element>, name: &str, v: &Option<u64>)
    ensures
        elems_view(final(children)@) == elems_view(old(children)@) + opt_u64_child(name@, *v),
{
    let ghost base = elems_view(children@);
    match v {
        Some(n) => {
            let e = text_element(name, u64_string(*n));
            proof {
                lemma_elems_view_push(children@, e);
            }
            children.push(e);
            proof {
                assert(elems_view(children@) =~= base + opt_u64_child(name@, *v));
            }
        },
        None => {
            proof {
                assert(elems_view(children@) =~= base + opt_u64_child(name@, *v));
            }
        },
    }
}

fn push_attr(attrs: &mut Vec<(String, String)>, key: &str, v: String)
    ensures
        attrs_view(final(attrs)@) == attrs_view(old(attrs)@).push((key@, v@)),
{
    let ghost base = attrs_view(attrs@);
    attrs.push((String::from_str(key), v));
    proof {
        assert(attrs_view(attrs@) =~= base.push((key@, v@)));
    }
}

fn push_opt_attr(attrs: &mut Vec<(String, String)>, key: &str, v: &Option<String>)
    ensures
        attrs_view(final(attrs)@) == attrs_view(old(attrs)@) + opt_attr(key@, opt_view(*v)),
{
    let ghost base = attrs_view(attrs@);
    match v {
        Some(t) => {
            attrs.push((String::from_str(key), t.clone()));
            proof {
                assert(attrs_view(attrs@) =~= base + opt_attr(key@, opt_view(*v)));
            }
        },
        None => {
            proof {
                assert(attrs_view(attrs@) =~= base + opt_attr(key@, opt_view(*v)));
            }
        },
    }
}

fn encode_plugin(p: &Plugin) -> (e: Element)
    ensures
        e@ == enc_plugin(p@),
{
    let mut attrs: Vec<(String, String)> = Vec::new();
    proof {
        assert(attrs_view(attrs@) =~= Seq::<(Seq<char>, Seq<char>)>::empty());
    }
    push_attr(&mut attrs, "name", p.name.clone());
    push_attr(&mut attrs, "filename", p.filename.clone());
    let e = Element { name: String::from_str("plugin"), attrs, text: String::new(), children: Vec::new() };
    proof {
        assert(e@.attrs =~= seq![("name"@, p.name@), ("filename"@, p.filename@)]);
        assert(elems_view(e.children@) =~= Seq::<ElemV>::empty());
    }
    e
}

fn encode_frame(f: &Frame) -> (e: Element)
    ensures
        e@ == enc_frame(f@),
{
    let mut attrs: Vec<(String, String)> = Vec::new();
    proof {
        assert(attrs_view(attrs@) =~= Seq::<(Seq<char>, Seq<char>)>::empty());
    }
    push_attr(&mut attrs, "name", f.name.clone());
    push_opt_attr(&mut attrs, "attached_to", &f.attached_to);
    let mut children: Vec<Element> = Vec::new();
    proof {
        assert(elems_view(children@) =~= Seq::<ElemV>::empty());
    }
    push_opt_text(&mut children, "pose", &f.pose);
    let e = Element { name: String::from_str("frame"), attrs, text: String::new(), children };
    proof {
        assert(e@.attrs =~= enc_frame(f@).attrs);
        assert(e@.children =~= enc_frame(f@).children);
    }
    e
}

fn encode_nested(m: &NestedModel) -> (e: Element)
    ensures
        e@ == enc_nested(m@),
{
    let mut attrs: Vec<(String, String)> = Vec::new();
    proof {
        assert(attrs_view(attrs@) =~= Seq::<(Seq<char>, Seq<char>)>::empty());
    }
    push_attr(&mut attrs, "name", m.name.clone());
    let e = Element { name: String::from_str("model"), attrs, text: String::new(), children: Vec::new() };
    proof {
        assert(e@.attrs =~= seq![("name"@, m.name@)]);
        assert(elems_view(e.children@) =~= Seq::<ElemV>::empty());
    }
    e
}

fn encode_link(l: &Link) -> (e: Element)
    ensures
        e@ == enc_link(l@),
{
    let mut attrs: Vec<(String, String)> = Vec::new();
    proof {
        assert(attrs_view(attrs@) =~= Seq::<(Seq<char>, Seq<char>)>::empty());
    }
    push_attr(&mut attrs, "name", l.name.clone());
    let e = Element { name: String::from_str("link"), attrs, text: String::new(), children: Vec::new() };
    proof {
        assert(e@.attrs =~= seq![("name"@, l.name@)]);
        assert(elems_view(e.children@) =~= Seq::<ElemV>::empty());
    }
    e
}

fn encode_joint(j: &Joint) -> (e: Element)
    ensures
        e@ == enc_joint(j@),
{
    let e = Element {
        name: String::from_str("joint"),
        attrs: Vec::new(),
        text: String::new(),
        children: Vec::new(),
    };
    proof {
        assert(e@.attrs =~= Seq::<(Seq<char>, Seq<char>)>::empty());
        assert(elems_view(e.children@) =~= Seq::<ElemV>::empty());
    }
    e
}

fn encode_grasp_check(g: &GraspCheck) -> (e: Element)
    ensures
        e@ == enc_grasp_check(g@),
{
    let mut children: Vec<Element> = Vec::new();
    proof {
        assert(elems_view(children@) =~= Seq::<ElemV>::empty());
    }
    push_opt_i64(&mut children, "detach_step", &g.detach_step);
    push_opt_i64(&mut children, "attach_step", &g.attach_step);
    push_opt_u64(&mut children, "min_contact_count", &g.min_contact_count);
    let e = Element {
        name: String::from_str("grasp_check"),
        attrs: Vec::new(),
        text: String::new(),
        children,
    };
    proof {
        assert(e@.attrs =~= Seq::<(Seq<char>, Seq<char>)>::empty());
        assert(e@.children =~= enc_grasp_check(g@).children);
    }
    e
}

fn encode_gripper(g: &Gripper) -> (e: Element)
    ensures
        e@ == enc_gripper(g@),
{
    let mut attrs: Vec<(String, String)> = Vec::new();
    proof {
        assert(attrs_view(attrs@) =~= Seq::<(Seq<char>, Seq<char>)>::empty());
    }
    push_attr(&mut attrs, "name", g.name.clone());
    let mut children: Vec<Element> = Vec::new();
    proof {
        assert(elems_view(children@) =~= Seq::<ElemV>::empty());
    }
    match &g.grasp_check {
        Some(gc) => {
            let c = encode_grasp_check(gc);
            proof {
                lemma_elems_view_push(children@, c);
            }
            children.push(c);
        },
        None => {},
    }
    let ghost seg1 = match g@.grasp_check {
        Some(gc) => seq![enc_grasp_check(gc)],
        None => Seq::<ElemV>::empty(),
    };
    proof {
        assert(elems_view(children@) =~= seg1);
    }
    push_opt_text(&mut children, "gripper_link", &g.gripper_link);
    push_opt_text(&mut children, "palm_link", &g.palm_link);
    let e = Element { name: String::from_str("gripper"), attrs, text: String::new(), children };
    proof {
        assert(e@.attrs =~= seq![("name"@, g.name@)]);
        assert(e@.children =~= enc_gripper(g@).children);
    }
    e
}


fn push_plugins(children: &mut Vec<Element>, ps: &Vec<Plugin>)
    ensures
        elems_view(final(children)@) == elems_view(old(children)@) + ps@.map_values(
            |q: Plugin| q@,
        ).map_values(enc_plugin_fn()),
{
    let ghost base = elems_view(children@);
    let ghost tgt = ps@.map_values(|q: Plugin| q@).map_values(enc_plugin_fn());
    proof {
        assert(base + tgt.take(0) =~= base);
    }
    let mut j: usize = 0;
    while j < ps.len()
        invariant
            j <= ps.len(),
            tgt == ps@.map_values(|q: Plugin| q@).map_values(enc_plugin_fn()),
            tgt.len() == ps@.len(),
            elems_view(children@) == base + tgt.take(j as int),
        decreases ps.len() - j,
    {
        let c = encode_plugin(&ps[j]);
        proof {
            lemma_elems_view_push(children@, c);
            assert(tgt[j as int] == enc_plugin(ps@[j as int]@));
            assert(tgt.take(j + 1) =~= tgt.take(j as int).push(tgt[j as int]));
            assert(base + tgt.take(j + 1) =~= (base + tgt.take(j as int)).push(tgt[j as int]));
        }
        children.push(c);
        j += 1;
    }
    proof {
        assert(tgt.take(ps@.len() as int) =~= tgt);
    }
}

fn push_frames(children: &mut Vec<Element>, ps: &Vec<Frame>)
    ensures
        elems_view(final(children)@) == elems_view(old(children)@) + ps@.map_values(
            |q: Frame| q@,
        ).map_values(enc_frame_fn()),
{
    let ghost base = elems_view(children@);
    let ghost tgt = ps@.map_values(|q: Frame| q@).map_values(enc_frame_fn());
    proof {
        assert(base + tgt.take(0) =~= base);
    }
    let mut j: usize = 0;
    while j < ps.len()
        invariant
            j <= ps.len(),
            tgt == ps@.map_values(|q: Frame| q@).map_values(enc_frame_fn()),
            tgt.len() == ps@.len(),
            elems_view(children@) == base + tgt.take(j as int),
        decreases ps.len() - j,
    {
        let c = encode_frame(&ps[j]);
        proof {
            lemma_elems_view_push(children@, c);
            assert(tgt[j as int] == enc_frame(ps@[j as int]@));
            assert(tgt.take(j + 1) =~= tgt.take(j as int).push(tgt[j as int]));
            assert(base + tgt.take(j + 1) =~= (base + tgt.take(j as int)).push(tgt[j as int]));
        }
        children.push(c);
        j += 1;
    }
    proof {
        assert(tgt.take(ps@.len() as int) =~= tgt);
    }
}

fn push_nesteds(children: &mut Vec<Element>, ps: &Vec<NestedModel>)
    ensures
        elems_view(final(children)@) == elems_view(old(children)@) + ps@.map_values(
            |q: NestedModel| q@,
        ).map_values(enc_nested_fn()),
{
    let ghost base = elems_view(children@);
    let ghost tgt = ps@.map_values(|q: NestedModel| q@).map_values(enc_nested_fn());
    proof {
        assert(base + tgt.take(0) =~= base);
    }
    let mut j: usize = 0;
    while j < ps.len()
        invariant
            j <= ps.len(),
            tgt == ps@.map_values(|q: NestedModel| q@).map_values(enc_nested_fn()),
            tgt.len() == ps@.len(),
            elems_view(children@) == base + tgt.take(j as int),
        decreases ps.len() - j,
    {
        let c = encode_nested(&ps[j]);
        proof {
            lemma_elems_view_push(children@, c);
            assert(tgt[j as int] == enc_nested(ps@[j as int]@));
            assert(tgt.take(j + 1) =~= tgt.take(j as int).push(tgt[j as int]));
            assert(base + tgt.take(j + 1) =~= (base + tgt.take(j as int)).push(tgt[j as int]));
        }
        children.push(c);
        j += 1;
    }
    proof {
        assert(tgt.take(ps@.len() as int) =~= tgt);
    }
}

fn push_links(children: &mut Vec<Element>, ps: &Vec<Link>)
    ensures
        elems_view(final(children)@) == elems_view(old(children)@) + ps@.map_values(
            |q: Link| q@,
        ).map_values(enc_link_fn()),
{
    let ghost base = elems_view(children@);
    let ghost tgt = ps@.map_values(|q: Link| q@).map_values(enc_link_fn());
    proof {
        assert(base + tgt.take(0) =~= base);
    }
    let mut j: usize = 0;
    while j < ps.len()
        invariant
            j <= ps.len(),
            tgt == ps@.map_values(|q: Link| q@).map_values(enc_link_fn()),
            tgt.len() == ps@.len(),
            elems_view(children@) == base + tgt.take(j as int),
        decreases ps.len() - j,
    {
        let c = encode_link(&ps[j]);
        proof {
            lemma_elems_view_push(children@, c);
            assert(tgt[j as int] == enc_link(ps@[j as int]@));
            assert(tgt.take(j + 1) =~= tgt.take(j as int).push(tgt[j as int]));
            assert(base + tgt.take(j + 1) =~= (base + tgt.take(j as int)).push(tgt[j as int]));
        }
        children.push(c);
        j += 1;
    }
    proof {
        assert(tgt.take(ps@.len() as int) =~= tgt);
    }
}

fn push_joints(children: &mut Vec<Element>, ps: &Vec<Joint>)
    ensures
        elems_view(final(children)@) == elems_view(old(children)@) + ps@.map_values(
            |q: Joint| q@,
        ).map_values(enc_joint_fn()),
{
    let ghost base = elems_view(children@);
    let ghost tgt = ps@.map_values(|q: Joint| q@).map_values(enc_joint_fn());
    proof {
        assert(base + tgt.take(0) =~= base);
    }
    let mut j: usize = 0;
    while j < ps.len()
        invariant
            j <= ps.len(),
            tgt == ps@.map_values(|q: Joint| q@).map_values(enc_joint_fn()),
            tgt.len() == ps@.len(),
            elems_view(children@) == base + tgt.take(j as int),
        decreases ps.len() - j,
    {
        let c = encode_joint(&ps[j]);
        proof {
            lemma_elems_view_push(children@, c);
            assert(tgt[j as int] == enc_joint(ps@[j as int]@));
            assert(tgt.take(j + 1) =~= tgt.take(j as int).push(tgt[j as int]));
            assert(base + tgt.take(j + 1) =~= (base + tgt.take(j as int)).push(tgt[j as int]));
        }
        children.push(c);
        j += 1;
    }
    proof {
        assert(tgt.take(ps@.len() as int) =~= tgt);
    }
}

fn push_grippers(children: &mut Vec<Element>, ps: &Vec<Gripper>)
    ensures
        elems_view(final(children)@) == elems_view(old(children)@) + ps@.map_values(
            |q: Gripper| q@,
        ).map_values(enc_gripper_fn()),
{
    let ghost base = elems_view(children@);
    let ghost tgt = ps@.map_values(|q: Gripper| q@).map_values(enc_gripper_fn());
    proof {
        assert(base + tgt.take(0) =~= base);
    }
    let mut j: usize = 0;
    while j < ps.len()
        invariant
            j <= ps.len(),
            tgt == ps@.map_values(|q: Gripper| q@).map_values(enc_gripper_fn()),
            tgt.len() == ps@.len(),
            elems_view(children@) == base + tgt.take(j as int),
        decreases ps.len() - j,
    {
        let c = encode_gripper(&ps[j]);
        proof {
            lemma_elems_view_push(children@, c);
            assert(tgt[j as int] == enc_gripper(ps@[j as int]@));
            assert(tgt.take(j + 1) =~= tgt.take(j as int).push(tgt[j as int]));
            assert(base + tgt.take(j + 1) =~= (base + tgt.take(j as int)).push(tgt[j as int]));
        }
        children.push(c);
        j += 1;
    }
    proof {
        assert(tgt.take(ps@.len() as int) =~= tgt);
    }
}

fn push_includes(children: &mut Vec<Element>, ps: &Vec<Include>)
    ensures
        elems_view(final(children)@) == elems_view(old(children)@) + ps@.map_values(
            |q: Include| q@,
        ).map_values(enc_include_fn()),
{
    let ghost base = elems_view(children@);
    let ghost tgt = ps@.map_values(|q: Include| q@).map_values(enc_include_fn());
    proof {
        assert(base + tgt.take(0) =~= base);
    }
    let mut j: usize = 0;
    while j < ps.len()
        invariant
            j <= ps.len(),
            tgt == ps@.map_values(|q: Include| q@).map_values(enc_include_fn()),
            tgt.len() == ps@.len(),
            elems_view(children@) == base + tgt.take(j as int),
        decreases ps.len() - j,
    {
        let c = encode_include(&ps[j]);
        proof {
            lemma_elems_view_push(children@, c);
            assert(tgt[j as int] == enc_include(ps@[j as int]@));
            assert(tgt.take(j + 1) =~= tgt.take(j as int).push(tgt[j as int]));
            assert(base + tgt.take(j + 1) =~= (base + tgt.take(j as int)).push(tgt[j as int]));
        }
        children.push(c);
        j += 1;
    }
    proof {
        assert(tgt.take(ps@.len() as int) =~= tgt);
    }
}

fn encode_include(x: &Include) -> (e: Element)
    ensures
        e@ == enc_include(x@),
{
    let mut children: Vec<Element> = Vec::new();
    proof {
        assert(elems_view(children@) =~= Seq::<ElemV>::empty());
    }
    let uri_elem = text_element("uri", x.uri.clone());
    proof {
        lemma_elems_view_push(children@, uri_elem);
    }
    children.push(uri_elem);
    proof {
        assert(elems_view(children@) =~= seq![text_elem("uri"@, x.uri@)]);
    }
    push_opt_text(&mut children, "name", &x.name);
    push_opt_bool(&mut children, "static", &x.is_static);
    push_opt_text(&mut children, "placement_frame", &x.placement_frame);
    push_opt_text(&mut children, "pose", &x.pose);
    push_plugins(&mut children, &x.plugin);
    let e = Element { name: inc_tag_string(), attrs: Vec::new(), text: String::new(), children };
    proof {
        assert(e@.attrs =~= Seq::<(Seq<char>, Seq<char>)>::empty());
        assert(e@.children =~= enc_include(x@).children);
    }
    e
}

fn encode_model(m: &Model) -> (e: Element)
    ensures
        e@ == enc_model(m@),
{
    let mut attrs: Vec<(String, String)> = Vec::new();
    proof {
        assert(attrs_view(attrs@) =~= Seq::<(Seq<char>, Seq<char>)>::empty());
    }
    push_attr(&mut attrs, "name", m.name.clone());
    push_opt_attr(&mut attrs, "canonical_link", &m.canonical_link);
    push_opt_attr(&mut attrs, "placement_frame", &m.placement_frame);
    let mut children: Vec<Element> = Vec::new();
    proof {
        assert(elems_view(children@) =~= Seq::<ElemV>::empty());
    }
    push_opt_bool(&mut children, "static", &m.is_static);
    push_opt_bool(&mut children, "self_collide", &m.self_collide);
    push_opt_bool(&mut children, "allow_auto_disable", &m.allow_auto_disable);
    push_opt_bool(&mut children, "enable_wind", &m.enable_wind);
    push_opt_text(&mut children, "pose", &m.pose);
    push_includes(&mut children, &m.includes);
    push_nesteds(&mut children, &m.model);
    push_frames(&mut children, &m.frame);
    push_links(&mut children, &m.link);
    push_joints(&mut children, &m.joint);
    push_plugins(&mut children, &m.plugin);
    push_grippers(&mut children, &m.gripper);
    let e = Element { name: String::from_str("model"), attrs, text: String::new(), children };
    proof {
        assert(e@.attrs =~= enc_model(m@).attrs);
        assert(e@.children =~= enc_model(m@).children);
    }
    e
}

fn empty_element(name: &str) -> (e: Element)
    ensures
        e@ == (ElemV {
            name: name@,
            attrs: Seq::empty(),
            text: Seq::empty(),
            children: Seq::empty(),
        }),
{
    let e = Element {
        name: String::from_str(name),
        attrs: Vec::new(),
        text: String::new(),
        children: Vec::new(),
    };
    proof {
        assert(e@.attrs =~= Seq::<(Seq<char>, Seq<char>)>::empty());
        assert(elems_view(e.children@) =~= Seq::<ElemV>::empty());
    }
    e
}

fn encode_content(t: &SdfType) -> (e: Element)
    ensures
        e@ == enc_content(t@),
{
    match t {
        SdfType::World(_) => empty_element("world"),
        SdfType::Model(m) => encode_model(m),
        SdfType::Actor => empty_element("actor"),
        SdfType::Light => empty_element("light"),
    }
}

/// Encodes a typed document as one element tree. This is the exact mapping:
/// the result is `enc_sdf` of the document's image.
pub fn encode_element(d: &Sdf) -> (e: Element)
    ensures
        e@ == enc_sdf(d@),
{
    let mut attrs: Vec<(String, String)> = Vec::new();
    proof {
        assert(attrs_view(attrs@) =~= Seq::<(Seq<char>, Seq<char>)>::empty());
    }
    push_attr(&mut attrs, "version", d.version.clone());
    let mut children: Vec<Element> = Vec::new();
    proof {
        assert(elems_view(children@) =~= Seq::<ElemV>::empty());
    }
    let c = encode_content(&d.sdf_type);
    proof {
        lemma_elems_view_push(children@, c);
    }
    children.push(c);
    let e = Element { name: String::from_str("sdf"), attrs, text: String::new(), children };
    proof {
        assert(e@.attrs =~= seq![("version"@, d.version@)]);
        assert(e@.children =~= seq![enc_content(d@.sdf_type)]);
    }
    e
}

} // verus!
