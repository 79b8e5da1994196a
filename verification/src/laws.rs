use vstd::prelude::*;

verus! {

use crate::elem::{ElemV, attr_of, first_child, child_text};
use crate::model::{
    SdfV, SdfTypeV, ModelV, IncludeV, PluginV, FrameV, NestedModelV, LinkV, JointV, GripperV,
    GraspCheckV,
};
use crate::num::{bool_text, parse_bool, lemma_bool_round_trip, lemma_i64_round_trip, lemma_u64_round_trip};
use crate::decode::{
    DecodeError, inc_tag, spec_decode_sdf, spec_decode_content, spec_decode_model,
    spec_decode_include, spec_decode_plugin, spec_decode_frame, spec_decode_nested,
    spec_decode_link, spec_decode_joint, spec_decode_gripper, spec_decode_grasp_check,
    collect_children, content_children, is_content_name, opt_bool_field, bool_field_default,
    opt_i64_field, opt_u64_field, dec_plugin_fn, dec_include_fn, dec_frame_fn, dec_nested_fn,
    dec_link_fn, dec_joint_fn, dec_gripper_fn,
};
use crate::encode::{
    enc_sdf, enc_content, enc_model, enc_include, enc_plugin, enc_frame, enc_nested, enc_link,
    enc_joint, enc_gripper, enc_grasp_check, enc_plugin_fn, enc_include_fn, enc_frame_fn,
    enc_nested_fn, enc_link_fn, enc_joint_fn, enc_gripper_fn, opt_text_child, opt_bool_child,
    opt_i64_child, opt_u64_child, opt_attr, text_elem,
};

/// No element of `cs` is named `t`.
pub open spec fn no_name(cs: Seq<ElemV>, t: Seq<char>) -> bool {
    forall|i: int| 0 <= i < cs.len() ==> (#[trigger] cs[i]).name != t
}

/// Every element of `cs` is named `t`.
pub open spec fn all_name(cs: Seq<ElemV>, t: Seq<char>) -> bool {
    forall|i: int| 0 <= i < cs.len() ==> (#[trigger] cs[i]).name == t
}

proof fn lemma_all_no(cs: Seq<ElemV>, t1: Seq<char>, t2: Seq<char>)
    requires
        all_name(cs, t1),
        t1 != t2,
    ensures
        no_name(cs, t2),
{
}

proof fn lemma_no_name_add(a: Seq<ElemV>, b: Seq<ElemV>, t: Seq<char>)
    requires
        no_name(a, t),
        no_name(b, t),
    ensures
        no_name(a + b, t),
{
    assert forall|i: int| 0 <= i < (a + b).len() implies (#[trigger] (a + b)[i]).name != t by {
        if i < a.len() {
            assert((a + b)[i] == a[i]);
        } else {
            assert((a + b)[i] == b[i - a.len()]);
        }
    }
}

proof fn lemma_map_all_name<A>(xs: Seq<A>, enc: spec_fn(A) -> ElemV, t: Seq<char>)
    requires
        forall|i: int| 0 <= i < xs.len() ==> (#[trigger] enc(xs[i])).name == t,
    ensures
        all_name(xs.map_values(enc), t),
{
}

proof fn lemma_first_child_none(cs: Seq<ElemV>, t: Seq<char>)
    requires
        no_name(cs, t),
    ensures
        first_child(cs, t) is None,
    decreases cs.len(),
{
    if cs.len() > 0 {
        assert(cs[0].name != t);
        assert(forall|i: int|
            0 <= i < cs.drop_first().len() ==> (#[trigger] cs.drop_first()[i]).name != t);
        lemma_first_child_none(cs.drop_first(), t);
    }
}

proof fn lemma_first_child_add(a: Seq<ElemV>, b: Seq<ElemV>, t: Seq<char>)
    ensures
        first_child(a + b, t) == (match first_child(a, t) {
            Some(c) => Some(c),
            None => first_child(b, t),
        }),
    decreases a.len(),
{
    if a.len() == 0 {
        assert(a + b =~= b);
    } else {
        assert((a + b).first() == a.first());
        assert((a + b).drop_first() =~= a.drop_first() + b);
        lemma_first_child_add(a.drop_first(), b, t);
    }
}

proof fn lemma_first_child_seg(
    c: Seq<ElemV>,
    pre: Seq<ElemV>,
    seg: Seq<ElemV>,
    post: Seq<ElemV>,
    t: Seq<char>,
)
    requires
        c == pre + seg + post,
        no_name(pre, t),
        no_name(post, t),
    ensures
        first_child(c, t) == first_child(seg, t),
{
    lemma_first_child_add(pre + seg, post, t);
    lemma_first_child_add(pre, seg, t);
    lemma_first_child_none(pre, t);
    lemma_first_child_none(post, t);
}

proof fn lemma_collect_none<A>(cs: Seq<ElemV>, t: Seq<char>, f: spec_fn(ElemV) -> Result<A, DecodeError>)
    requires
        no_name(cs, t),
    ensures
        collect_children(cs, t, f) == Ok::<Seq<A>, DecodeError>(Seq::<A>::empty()),
    decreases cs.len(),
{
    if cs.len() > 0 {
        assert(cs.last().name != t);
        assert(forall|i: int|
            0 <= i < cs.drop_last().len() ==> (#[trigger] cs.drop_last()[i]).name != t);
        lemma_collect_none(cs.drop_last(), t, f);
    }
}

proof fn lemma_collect_add<A>(
    a: Seq<ElemV>,
    b: Seq<ElemV>,
    t: Seq<char>,
    f: spec_fn(ElemV) -> Result<A, DecodeError>,
)
    ensures
        collect_children(a + b, t, f) == (match collect_children(a, t, f) {
            Err(er) => Err::<Seq<A>, DecodeError>(er),
            Ok(v1) => match collect_children(b, t, f) {
                Err(er) => Err::<Seq<A>, DecodeError>(er),
                Ok(v2) => Ok::<Seq<A>, DecodeError>(v1 + v2),
            },
        }),
    decreases b.len(),
{
    if b.len() == 0 {
        assert(a + b =~= a);
        match collect_children(a, t, f) {
            Ok(v1) => {
                assert(v1 + Seq::<A>::empty() =~= v1);
            },
            Err(_) => {},
        }
    } else {
        assert((a + b).drop_last() =~= a + b.drop_last());
        assert((a + b).last() == b.last());
        lemma_collect_add(a, b.drop_last(), t, f);
        match collect_children(a, t, f) {
            Ok(v1) => {
                match collect_children(b.drop_last(), t, f) {
                    Ok(v2) => {
                        if b.last().name == t {
                            match f(b.last()) {
                                Ok(x) => {
                                    assert((v1 + v2).push(x) =~= v1 + v2.push(x));
                                },
                                Err(_) => {},
                            }
                        }
                    },
                    Err(_) => {},
                }
            },
            Err(_) => {},
        }
    }
}

proof fn lemma_collect_seg<A>(
    c: Seq<ElemV>,
    pre: Seq<ElemV>,
    seg: Seq<ElemV>,
    post: Seq<ElemV>,
    t: Seq<char>,
    f: spec_fn(ElemV) -> Result<A, DecodeError>,
)
    requires
        c == pre + seg + post,
        no_name(pre, t),
        no_name(post, t),
    ensures
        collect_children(c, t, f) == collect_children(seg, t, f),
{
    lemma_collect_add(pre + seg, post, t, f);
    lemma_collect_add(pre, seg, t, f);
    lemma_collect_none::<A>(pre, t, f);
    lemma_collect_none::<A>(post, t, f);
    match collect_children(seg, t, f) {
        Ok(v) => {
            assert(Seq::<A>::empty() + v =~= v);
            assert(v + Seq::<A>::empty() =~= v);
        },
        Err(_) => {},
    }
}

proof fn lemma_collect_map<A>(
    xs: Seq<A>,
    t: Seq<char>,
    f: spec_fn(ElemV) -> Result<A, DecodeError>,
    enc: spec_fn(A) -> ElemV,
)
    requires
        forall|i: int| 0 <= i < xs.len() ==> (#[trigger] enc(xs[i])).name == t,
        forall|i: int| 0 <= i < xs.len() ==> f(#[trigger] enc(xs[i])) == Ok::<A, DecodeError>(
            xs[i],
        ),
    ensures
        collect_children(xs.map_values(enc), t, f) == Ok::<Seq<A>, DecodeError>(xs),
    decreases xs.len(),
{
    if xs.len() == 0 {
        assert(xs.map_values(enc) =~= Seq::<ElemV>::empty());
        assert(Seq::<A>::empty() =~= xs);
    } else {
        assert(xs.map_values(enc).drop_last() =~= xs.drop_last().map_values(enc));
        assert(xs.map_values(enc).last() == enc(xs.last()));
        lemma_collect_map(xs.drop_last(), t, f, enc);
        assert(xs.drop_last().push(xs.last()) =~= xs);
    }
}

/// All element and attribute names that the codec writes are pairwise
/// distinct, so reading a field never finds another field.
pub proof fn lemma_tags_distinct()
    ensures
        inc_tag() != "allow_auto_disable"@,
        inc_tag() != "enable_wind"@,
        inc_tag() != "frame"@,
        inc_tag() != "gripper"@,
        inc_tag() != "joint"@,
        inc_tag() != "link"@,
        inc_tag() != "model"@,
        inc_tag() != "plugin"@,
        inc_tag() != "pose"@,
        inc_tag() != "self_collide"@,
        inc_tag() != "static"@,
        "actor"@ != "light"@,
        "actor"@ != "model"@,
        "actor"@ != "world"@,
        "allow_auto_disable"@ != "enable_wind"@,
        "allow_auto_disable"@ != "frame"@,
        "allow_auto_disable"@ != "gripper"@,
        "allow_auto_disable"@ != "joint"@,
        "allow_auto_disable"@ != "link"@,
        "allow_auto_disable"@ != "model"@,
        "allow_auto_disable"@ != "plugin"@,
        "allow_auto_disable"@ != "pose"@,
        "allow_auto_disable"@ != "self_collide"@,
        "allow_auto_disable"@ != "static"@,
        "attach_step"@ != "detach_step"@,
        "attach_step"@ != "min_contact_count"@,
        "attached_to"@ != "name"@,
        "canonical_link"@ != "name"@,
        "canonical_link"@ != "placement_frame"@,
        "detach_step"@ != "min_contact_count"@,
        "enable_wind"@ != "frame"@,
        "enable_wind"@ != "gripper"@,
        "enable_wind"@ != "joint"@,
        "enable_wind"@ != "link"@,
        "enable_wind"@ != "model"@,
        "enable_wind"@ != "plugin"@,
        "enable_wind"@ != "pose"@,
        "enable_wind"@ != "self_collide"@,
        "enable_wind"@ != "static"@,
        "filename"@ != "name"@,
        "frame"@ != "gripper"@,
        "frame"@ != "joint"@,
        "frame"@ != "link"@,
        "frame"@ != "model"@,
        "frame"@ != "plugin"@,
        "frame"@ != "pose"@,
        "frame"@ != "self_collide"@,
        "frame"@ != "static"@,
        "grasp_check"@ != "gripper_link"@,
        "grasp_check"@ != "palm_link"@,
        "gripper"@ != "joint"@,
        "gripper"@ != "link"@,
        "gripper"@ != "model"@,
        "gripper"@ != "plugin"@,
        "gripper"@ != "pose"@,
        "gripper"@ != "self_collide"@,
        "gripper"@ != "static"@,
        "gripper_link"@ != "palm_link"@,
        "joint"@ != "link"@,
        "joint"@ != "model"@,
        "joint"@ != "plugin"@,
        "joint"@ != "pose"@,
        "joint"@ != "self_collide"@,
        "joint"@ != "static"@,
        "light"@ != "model"@,
        "light"@ != "world"@,
        "link"@ != "model"@,
        "link"@ != "plugin"@,
        "link"@ != "pose"@,
        "link"@ != "self_collide"@,
        "link"@ != "static"@,
        "model"@ != "plugin"@,
        "model"@ != "pose"@,
        "model"@ != "self_collide"@,
        "model"@ != "static"@,
        "model"@ != "world"@,
        "name"@ != "placement_frame"@,
        "name"@ != "plugin"@,
        "name"@ != "pose"@,
        "name"@ != "static"@,
        "name"@ != "uri"@,
        "placement_frame"@ != "plugin"@,
        "placement_frame"@ != "pose"@,
        "placement_frame"@ != "static"@,
        "placement_frame"@ != "uri"@,
        "plugin"@ != "pose"@,
        "plugin"@ != "self_collide"@,
        "plugin"@ != "static"@,
        "plugin"@ != "uri"@,
        "pose"@ != "self_collide"@,
        "pose"@ != "static"@,
        "pose"@ != "uri"@,
        "self_collide"@ != "static"@,
        "static"@ != "uri"@,
{
    reveal_strlit("actor");
    reveal_strlit("allow_auto_disable");
    reveal_strlit("attach_step");
    reveal_strlit("attached_to");
    reveal_strlit("canonical_link");
    reveal_strlit("detach_step");
    reveal_strlit("enable_wind");
    reveal_strlit("filename");
    reveal_strlit("frame");
    reveal_strlit("grasp_check");
    reveal_strlit("gripper");
    reveal_strlit("gripper_link");
    reveal_strlit("joint");
    reveal_strlit("light");
    reveal_strlit("link");
    reveal_strlit("min_contact_count");
    reveal_strlit("model");
    reveal_strlit("name");
    reveal_strlit("palm_link");
    reveal_strlit("placement_frame");
    reveal_strlit("plugin");
    reveal_strlit("pose");
    reveal_strlit("self_collide");
    reveal_strlit("static");
    reveal_strlit("uri");
    reveal_strlit("world");
    reveal_strlit("includ");
    reveal_strlit("e");
    assert(inc_tag().len() == 7);
    assert(inc_tag()[0] == 'i');
    assert(inc_tag().len() != "allow_auto_disable"@.len());
    assert(inc_tag().len() != "enable_wind"@.len());
    assert(inc_tag().len() != "frame"@.len());
    assert(inc_tag()[0] != "gripper"@[0]);
    assert(inc_tag().len() != "joint"@.len());
    assert(inc_tag().len() != "link"@.len());
    assert(inc_tag().len() != "model"@.len());
    assert(inc_tag().len() != "plugin"@.len());
    assert(inc_tag().len() != "pose"@.len());
    assert(inc_tag().len() != "self_collide"@.len());
    assert(inc_tag().len() != "static"@.len());
    assert("actor"@[0] != "light"@[0]);
    assert("actor"@[0] != "model"@[0]);
    assert("actor"@[0] != "world"@[0]);
    assert("allow_auto_disable"@.len() != "enable_wind"@.len());
    assert("allow_auto_disable"@.len() != "frame"@.len());
    assert("allow_auto_disable"@.len() != "gripper"@.len());
    assert("allow_auto_disable"@.len() != "joint"@.len());
    assert("allow_auto_disable"@.len() != "link"@.len());
    assert("allow_auto_disable"@.len() != "model"@.len());
    assert("allow_auto_disable"@.len() != "plugin"@.len());
    assert("allow_auto_disable"@.len() != "pose"@.len());
    assert("allow_auto_disable"@.len() != "self_collide"@.len());
    assert("allow_auto_disable"@.len() != "static"@.len());
    assert("attach_step"@[0] != "detach_step"@[0]);
    assert("attach_step"@.len() != "min_contact_count"@.len());
    assert("attached_to"@.len() != "name"@.len());
    assert("canonical_link"@.len() != "name"@.len());
    assert("canonical_link"@.len() != "placement_frame"@.len());
    assert("detach_step"@.len() != "min_contact_count"@.len());
    assert("enable_wind"@.len() != "frame"@.len());
    assert("enable_wind"@.len() != "gripper"@.len());
    assert("enable_wind"@.len() != "joint"@.len());
    assert("enable_wind"@.len() != "link"@.len());
    assert("enable_wind"@.len() != "model"@.len());
    assert("enable_wind"@.len() != "plugin"@.len());
    assert("enable_wind"@.len() != "pose"@.len());
    assert("enable_wind"@.len() != "self_collide"@.len());
    assert("enable_wind"@.len() != "static"@.len());
    assert("filename"@.len() != "name"@.len());
    assert("frame"@.len() != "gripper"@.len());
    assert("frame"@[0] != "joint"@[0]);
    assert("frame"@.len() != "link"@.len());
    assert("frame"@[0] != "model"@[0]);
    assert("frame"@.len() != "plugin"@.len());
    assert("frame"@.len() != "pose"@.len());
    assert("frame"@.len() != "self_collide"@.len());
    assert("frame"@.len() != "static"@.len());
    assert("grasp_check"@.len() != "gripper_link"@.len());
    assert("grasp_check"@.len() != "palm_link"@.len());
    assert("gripper"@.len() != "joint"@.len());
    assert("gripper"@.len() != "link"@.len());
    assert("gripper"@.len() != "model"@.len());
    assert("gripper"@.len() != "plugin"@.len());
    assert("gripper"@.len() != "pose"@.len());
    assert("gripper"@.len() != "self_collide"@.len());
    assert("gripper"@.len() != "static"@.len());
    assert("gripper_link"@.len() != "palm_link"@.len());
    assert("joint"@.len() != "link"@.len());
    assert("joint"@[0] != "model"@[0]);
    assert("joint"@.len() != "plugin"@.len());
    assert("joint"@.len() != "pose"@.len());
    assert("joint"@.len() != "self_collide"@.len());
    assert("joint"@.len() != "static"@.len());
    assert("light"@[0] != "model"@[0]);
    assert("light"@[0] != "world"@[0]);
    assert("link"@.len() != "model"@.len());
    assert("link"@.len() != "plugin"@.len());
    assert("link"@[0] != "pose"@[0]);
    assert("link"@.len() != "self_collide"@.len());
    assert("link"@.len() != "static"@.len());
    assert("model"@.len() != "plugin"@.len());
    assert("model"@.len() != "pose"@.len());
    assert("model"@.len() != "self_collide"@.len());
    assert("model"@.len() != "static"@.len());
    assert("model"@[0] != "world"@[0]);
    assert("name"@.len() != "placement_frame"@.len());
    assert("name"@.len() != "plugin"@.len());
    assert("name"@[0] != "pose"@[0]);
    assert("name"@.len() != "static"@.len());
    assert("name"@.len() != "uri"@.len());
    assert("placement_frame"@.len() != "plugin"@.len());
    assert("placement_frame"@.len() != "pose"@.len());
    assert("placement_frame"@.len() != "static"@.len());
    assert("placement_frame"@.len() != "uri"@.len());
    assert("plugin"@.len() != "pose"@.len());
    assert("plugin"@.len() != "self_collide"@.len());
    assert("plugin"@[0] != "static"@[0]);
    assert("plugin"@.len() != "uri"@.len());
    assert("pose"@.len() != "self_collide"@.len());
    assert("pose"@.len() != "static"@.len());
    assert("pose"@.len() != "uri"@.len());
    assert("self_collide"@.len() != "static"@.len());
    assert("static"@.len() != "uri"@.len());

}
/// Reading back an encoded plugin gives the plugin again.
pub proof fn lemma_plugin_round_trip(p: PluginV)
    ensures
        spec_decode_plugin(enc_plugin(p)) == Ok::<PluginV, DecodeError>(p),
{
    lemma_tags_distinct();
    let a: Seq<(Seq<char>, Seq<char>)> = seq![("name"@, p.name), ("filename"@, p.filename)];
    assert(enc_plugin(p).attrs == a);
    assert(a.first() == ("name"@, p.name));
    assert(attr_of(a, "name"@) == Some(p.name));
    assert(a.drop_first() =~= seq![("filename"@, p.filename)]);
    assert(a.drop_first().first() == ("filename"@, p.filename));
    assert(attr_of(a, "filename"@) == attr_of(a.drop_first(), "filename"@));
    assert(attr_of(a.drop_first(), "filename"@) == Some(p.filename));
}

/// Reading back an encoded nested model gives it again.
pub proof fn lemma_nested_round_trip(m: NestedModelV)
    ensures
        spec_decode_nested(enc_nested(m)) == Ok::<NestedModelV, DecodeError>(m),
{
}

/// Reading back an encoded link gives it again.
pub proof fn lemma_link_round_trip(l: LinkV)
    ensures
        spec_decode_link(enc_link(l)) == Ok::<LinkV, DecodeError>(l),
{
}

/// Reading back an encoded joint gives it again.
pub proof fn lemma_joint_round_trip(j: JointV)
    ensures
        spec_decode_joint(enc_joint(j)) == Ok::<JointV, DecodeError>(j),
{
}

/// Reading back an encoded frame gives it again.
pub proof fn lemma_frame_round_trip(f: FrameV)
    ensures
        spec_decode_frame(enc_frame(f)) == Ok::<FrameV, DecodeError>(f),
{
    lemma_tags_distinct();
    let a1: Seq<(Seq<char>, Seq<char>)> = seq![("name"@, f.name)];
    let a2 = opt_attr("attached_to"@, f.attached_to);
    let e = enc_frame(f);
    assert(e.attrs == a1 + a2);
    assert((a1 + a2).first() == ("name"@, f.name));
    assert(attr_of(e.attrs, "name"@) == Some(f.name));
    assert((a1 + a2).drop_first() =~= a2);
    assert(attr_of(e.attrs, "attached_to"@) == attr_of(a2, "attached_to"@));
    match f.attached_to {
        Some(v) => {
            assert(a2.first() == ("attached_to"@, v));
            assert(attr_of(a2, "attached_to"@) == Some(v));
        },
        None => {
            assert(a2.len() == 0);
        },
    }
    assert(attr_of(e.attrs, "attached_to"@) == f.attached_to);
    match f.pose {
        Some(t) => {
            assert(e.children.first() == text_elem("pose"@, t));
        },
        None => {},
    }
    assert(child_text(e.children, "pose"@) == f.pose);
}

/// Reading back an encoded grasp check gives it again.
pub proof fn lemma_grasp_check_round_trip(g: GraspCheckV)
    ensures
        spec_decode_grasp_check(enc_grasp_check(g)) == Ok::<GraspCheckV, DecodeError>(g),
{
    lemma_tags_distinct();
    let e = enc_grasp_check(g);
    let s1 = opt_i64_child("detach_step"@, g.detach_step);
    let s2 = opt_i64_child("attach_step"@, g.attach_step);
    let s3 = opt_u64_child("min_contact_count"@, g.min_contact_count);
    assert(e.children == s1 + s2 + s3);
    assert(all_name(s1, "detach_step"@));
    assert(all_name(s2, "attach_step"@));
    assert(all_name(s3, "min_contact_count"@));
    assert(e.children =~= Seq::<ElemV>::empty() + s1 + (s2 + s3));
    lemma_all_no(s2, "attach_step"@, "detach_step"@);
    lemma_all_no(s3, "min_contact_count"@, "detach_step"@);
    lemma_no_name_add(s2, s3, "detach_step"@);
    lemma_first_child_seg(e.children, Seq::<ElemV>::empty(), s1, s2 + s3, "detach_step"@);
    assert(e.children =~= s1 + s2 + s3);
    lemma_all_no(s1, "detach_step"@, "attach_step"@);
    lemma_all_no(s3, "min_contact_count"@, "attach_step"@);
    lemma_first_child_seg(e.children, s1, s2, s3, "attach_step"@);
    assert(e.children =~= (s1 + s2) + s3 + Seq::<ElemV>::empty());
    lemma_all_no(s1, "detach_step"@, "min_contact_count"@);
    lemma_all_no(s2, "attach_step"@, "min_contact_count"@);
    lemma_no_name_add(s1, s2, "min_contact_count"@);
    lemma_first_child_seg(e.children, s1 + s2, s3, Seq::<ElemV>::empty(), "min_contact_count"@);
    match g.detach_step {
        Some(n) => {
            assert(s1.first() == text_elem("detach_step"@, crate::num::i64_text(n)));
            lemma_i64_round_trip(n);
        },
        None => {},
    }
    assert(opt_i64_field(e, "detach_step"@) == Ok::<Option<i64>, DecodeError>(g.detach_step));
    match g.attach_step {
        Some(n) => {
            assert(s2.first() == text_elem("attach_step"@, crate::num::i64_text(n)));
            lemma_i64_round_trip(n);
        },
        None => {},
    }
    assert(opt_i64_field(e, "attach_step"@) == Ok::<Option<i64>, DecodeError>(g.attach_step));
    match g.min_contact_count {
        Some(n) => {
            assert(s3.first() == text_elem("min_contact_count"@, crate::num::u64_digits(n as nat)));
            lemma_u64_round_trip(n);
            assert(crate::num::parse_u64(crate::num::u64_digits(n as nat)) == Some(n));
        },
        None => {},
    }
    assert(opt_u64_field(e, "min_contact_count"@) == Ok::<Option<u64>, DecodeError>(
        g.min_contact_count,
    ));
}

/// Reading back an encoded gripper gives it again.
pub proof fn lemma_gripper_round_trip(g: GripperV)
    ensures
        spec_decode_gripper(enc_gripper(g)) == Ok::<GripperV, DecodeError>(g),
{
    lemma_tags_distinct();
    let e = enc_gripper(g);
    let s1 = match g.grasp_check {
        Some(gc) => seq![enc_grasp_check(gc)],
        None => Seq::<ElemV>::empty(),
    };
    let s2 = opt_text_child("gripper_link"@, g.gripper_link);
    let s3 = opt_text_child("palm_link"@, g.palm_link);
    assert(e.children == s1 + s2 + s3);
    assert(all_name(s1, "grasp_check"@));
    assert(all_name(s2, "gripper_link"@));
    assert(all_name(s3, "palm_link"@));
    assert(e.children =~= Seq::<ElemV>::empty() + s1 + (s2 + s3));
    lemma_all_no(s2, "gripper_link"@, "grasp_check"@);
    lemma_all_no(s3, "palm_link"@, "grasp_check"@);
    lemma_no_name_add(s2, s3, "grasp_check"@);
    lemma_first_child_seg(e.children, Seq::<ElemV>::empty(), s1, s2 + s3, "grasp_check"@);
    assert(e.children =~= s1 + s2 + s3);
    lemma_all_no(s1, "grasp_check"@, "gripper_link"@);
    lemma_all_no(s3, "palm_link"@, "gripper_link"@);
    lemma_first_child_seg(e.children, s1, s2, s3, "gripper_link"@);
    assert(e.children =~= (s1 + s2) + s3 + Seq::<ElemV>::empty());
    lemma_all_no(s1, "grasp_check"@, "palm_link"@);
    lemma_all_no(s2, "gripper_link"@, "palm_link"@);
    lemma_no_name_add(s1, s2, "palm_link"@);
    lemma_first_child_seg(e.children, s1 + s2, s3, Seq::<ElemV>::empty(), "palm_link"@);
    match g.grasp_check {
        Some(gc) => {
            assert(s1.first() == enc_grasp_check(gc));
            lemma_grasp_check_round_trip(gc);
        },
        None => {},
    }
    match g.gripper_link {
        Some(t) => {
            assert(s2.first() == text_elem("gripper_link"@, t));
        },
        None => {},
    }
    match g.palm_link {
        Some(t) => {
            assert(s3.first() == text_elem("palm_link"@, t));
        },
        None => {},
    }
    assert(attr_of(e.attrs, "name"@) == Some(g.name));
}

/// Reading back an encoded included resource gives it again.
#[verifier::rlimit(30)]
pub proof fn lemma_include_round_trip(m: IncludeV)
    ensures
        spec_decode_include(enc_include(m)) == Ok::<IncludeV, DecodeError>(m),
{
    lemma_tags_distinct();
    let e = enc_include(m);
    let s1 = seq![text_elem("uri"@, m.uri)];
    let s2 = opt_text_child("name"@, m.name);
    let s3 = opt_bool_child("static"@, m.is_static);
    let s4 = opt_text_child("placement_frame"@, m.placement_frame);
    let s5 = opt_text_child("pose"@, m.pose);
    let s6 = m.plugin.map_values(enc_plugin_fn());
    assert(e.children == s1 + s2 + s3 + s4 + s5 + s6);
    assert(all_name(s1, "uri"@));
    assert(all_name(s2, "name"@));
    assert(all_name(s3, "static"@));
    assert(all_name(s4, "placement_frame"@));
    assert(all_name(s5, "pose"@));
    assert(forall|i: int| 0 <= i < m.plugin.len() ==> (#[trigger] enc_plugin_fn()(m.plugin[i])).name == "plugin"@); lemma_map_all_name(m.plugin, enc_plugin_fn(), "plugin"@);
    assert(all_name(s6, "plugin"@));
    lemma_all_no(s2, "name"@, "uri"@);
    lemma_all_no(s3, "static"@, "uri"@);
    lemma_all_no(s4, "placement_frame"@, "uri"@);
    lemma_all_no(s5, "pose"@, "uri"@);
    lemma_all_no(s6, "plugin"@, "uri"@);
    lemma_no_name_add(s2, s3, "uri"@);
    lemma_no_name_add(s2 + s3, s4, "uri"@);
    lemma_no_name_add(s2 + s3 + s4, s5, "uri"@);
    lemma_no_name_add(s2 + s3 + s4 + s5, s6, "uri"@);
    assert(e.children =~= Seq::<ElemV>::empty() + s1 + (s2 + s3 + s4 + s5 + s6));
    lemma_first_child_seg(e.children, Seq::<ElemV>::empty(), s1, s2 + s3 + s4 + s5 + s6, "uri"@);
    assert(s1.first() == text_elem("uri"@, m.uri));
    assert(child_text(e.children, "uri"@) == Some(m.uri));
    lemma_all_no(s1, "uri"@, "name"@);
    lemma_all_no(s3, "static"@, "name"@);
    lemma_all_no(s4, "placement_frame"@, "name"@);
    lemma_all_no(s5, "pose"@, "name"@);
    lemma_all_no(s6, "plugin"@, "name"@);
    lemma_no_name_add(s3, s4, "name"@);
    lemma_no_name_add(s3 + s4, s5, "name"@);
    lemma_no_name_add(s3 + s4 + s5, s6, "name"@);
    assert(e.children =~= s1 + s2 + (s3 + s4 + s5 + s6));
    lemma_first_child_seg(e.children, s1, s2, s3 + s4 + s5 + s6, "name"@);
    match m.name { Some(t) => { assert(s2.first() == text_elem("name"@, t)); }, None => {} }
    assert(child_text(e.children, "name"@) == m.name);
    lemma_all_no(s1, "uri"@, "static"@);
    lemma_all_no(s2, "name"@, "static"@);
    lemma_all_no(s4, "placement_frame"@, "static"@);
    lemma_all_no(s5, "pose"@, "static"@);
    lemma_all_no(s6, "plugin"@, "static"@);
    lemma_no_name_add(s1, s2, "static"@);
    lemma_no_name_add(s4, s5, "static"@);
    lemma_no_name_add(s4 + s5, s6, "static"@);
    assert(e.children =~= s1 + s2 + s3 + (s4 + s5 + s6));
    lemma_first_child_seg(e.children, s1 + s2, s3, s4 + s5 + s6, "static"@);
    match m.is_static { Some(b) => { assert(s3.first() == text_elem("static"@, bool_text(b))); lemma_bool_round_trip(b); }, None => {} }
    lemma_all_no(s1, "uri"@, "placement_frame"@);
    lemma_all_no(s2, "name"@, "placement_frame"@);
    lemma_all_no(s3, "static"@, "placement_frame"@);
    lemma_all_no(s5, "pose"@, "placement_frame"@);
    lemma_all_no(s6, "plugin"@, "placement_frame"@);
    lemma_no_name_add(s1, s2, "placement_frame"@);
    lemma_no_name_add(s1 + s2, s3, "placement_frame"@);
    lemma_no_name_add(s5, s6, "placement_frame"@);
    assert(e.children =~= s1 + s2 + s3 + s4 + (s5 + s6));
    lemma_first_child_seg(e.children, s1 + s2 + s3, s4, s5 + s6, "placement_frame"@);
    match m.placement_frame { Some(t) => { assert(s4.first() == text_elem("placement_frame"@, t)); }, None => {} }
    assert(child_text(e.children, "placement_frame"@) == m.placement_frame);
    lemma_all_no(s1, "uri"@, "pose"@);
    lemma_all_no(s2, "name"@, "pose"@);
    lemma_all_no(s3, "static"@, "pose"@);
    lemma_all_no(s4, "placement_frame"@, "pose"@);
    lemma_all_no(s6, "plugin"@, "pose"@);
    lemma_no_name_add(s1, s2, "pose"@);
    lemma_no_name_add(s1 + s2, s3, "pose"@);
    lemma_no_name_add(s1 + s2 + s3, s4, "pose"@);
    assert(e.children =~= s1 + s2 + s3 + s4 + s5 + (s6));
    lemma_first_child_seg(e.children, s1 + s2 + s3 + s4, s5, s6, "pose"@);
    match m.pose { Some(t) => { assert(s5.first() == text_elem("pose"@, t)); }, None => {} }
    assert(child_text(e.children, "pose"@) == m.pose);
    lemma_all_no(s1, "uri"@, "plugin"@);
    lemma_all_no(s2, "name"@, "plugin"@);
    lemma_all_no(s3, "static"@, "plugin"@);
    lemma_all_no(s4, "placement_frame"@, "plugin"@);
    lemma_all_no(s5, "pose"@, "plugin"@);
    lemma_no_name_add(s1, s2, "plugin"@);
    lemma_no_name_add(s1 + s2, s3, "plugin"@);
    lemma_no_name_add(s1 + s2 + s3, s4, "plugin"@);
    lemma_no_name_add(s1 + s2 + s3 + s4, s5, "plugin"@);
    assert(e.children =~= s1 + s2 + s3 + s4 + s5 + s6 + (Seq::<ElemV>::empty()));
    lemma_collect_seg(e.children, s1 + s2 + s3 + s4 + s5, s6, Seq::<ElemV>::empty(), "plugin"@, dec_plugin_fn());
    assert forall|i: int| 0 <= i < m.plugin.len() implies (#[trigger] enc_plugin_fn()(m.plugin[i])).name == "plugin"@ && dec_plugin_fn()(enc_plugin_fn()(m.plugin[i])) == Ok::<PluginV, DecodeError>(m.plugin[i]) by { lemma_plugin_round_trip(m.plugin[i]); }
    lemma_collect_map(m.plugin, "plugin"@, dec_plugin_fn(), enc_plugin_fn());
    assert(spec_decode_include(e) == Ok::<IncludeV, DecodeError>(m));
}


#[verifier::rlimit(50)]
proof fn lemma_model_attrs(m: ModelV)
    ensures
        attr_of(enc_model(m).attrs, "name"@) == Some(m.name),
        attr_of(enc_model(m).attrs, "canonical_link"@) == m.canonical_link,
        attr_of(enc_model(m).attrs, "placement_frame"@) == m.placement_frame,
{
    lemma_tags_distinct();
    let e = enc_model(m);
    let a1: Seq<(Seq<char>, Seq<char>)> = seq![("name"@, m.name)];
    let a2 = opt_attr("canonical_link"@, m.canonical_link);
    let a3 = opt_attr("placement_frame"@, m.placement_frame);
    assert(e.attrs == a1 + a2 + a3);
    assert((a1 + a2 + a3).first() == ("name"@, m.name));
    assert(attr_of(e.attrs, "name"@) == Some(m.name));
    assert((a1 + a2 + a3).drop_first() =~= a2 + a3);
    assert(attr_of(e.attrs, "canonical_link"@) == attr_of(a2 + a3, "canonical_link"@));
    assert(attr_of(e.attrs, "placement_frame"@) == attr_of(a2 + a3, "placement_frame"@));
    match m.canonical_link {
        Some(v) => {
            assert((a2 + a3).first() == ("canonical_link"@, v));
            assert(attr_of(a2 + a3, "canonical_link"@) == Some(v));
            assert((a2 + a3).drop_first() =~= a3);
            assert(attr_of(a2 + a3, "placement_frame"@) == attr_of(a3, "placement_frame"@));
        },
        None => {
            assert(a2 + a3 =~= a3);
            assert(attr_of(a2 + a3, "canonical_link"@) == attr_of(a3, "canonical_link"@));
        },
    }
    match m.placement_frame {
        Some(w) => {
            assert(a3.first() == ("placement_frame"@, w));
            assert(attr_of(a3, "placement_frame"@) == Some(w));
            assert(a3.drop_first() =~= Seq::<(Seq<char>, Seq<char>)>::empty());
            assert(attr_of(a3, "canonical_link"@) == attr_of(a3.drop_first(), "canonical_link"@));
            assert(a3.drop_first().len() == 0);
            assert(attr_of(a3, "canonical_link"@) is None);
        },
        None => {
            assert(a3.len() == 0);
        },
    }
    assert(attr_of(e.attrs, "canonical_link"@) == m.canonical_link);
    assert(attr_of(e.attrs, "placement_frame"@) == m.placement_frame);
}

#[verifier::rlimit(50)]
proof fn lemma_model_q_static(m: ModelV)
    ensures
        opt_bool_field(enc_model(m), "static"@) == Ok::<Option<bool>, DecodeError>(m.is_static),
{
    lemma_tags_distinct();
    let e = enc_model(m);
    let s1 = opt_bool_child("static"@, m.is_static);
    let s2 = opt_bool_child("self_collide"@, m.self_collide);
    let s3 = opt_bool_child("allow_auto_disable"@, m.allow_auto_disable);
    let s4 = opt_bool_child("enable_wind"@, m.enable_wind);
    let s5 = opt_text_child("pose"@, m.pose);
    let s6 = m.includes.map_values(enc_include_fn());
    let s7 = m.model.map_values(enc_nested_fn());
    let s8 = m.frame.map_values(enc_frame_fn());
    let s9 = m.link.map_values(enc_link_fn());
    let s10 = m.joint.map_values(enc_joint_fn());
    let s11 = m.plugin.map_values(enc_plugin_fn());
    let s12 = m.gripper.map_values(enc_gripper_fn());
    assert(e.children == s1 + s2 + s3 + s4 + s5 + s6 + s7 + s8 + s9 + s10 + s11 + s12);
    assert(all_name(s1, "static"@));
    assert(all_name(s2, "self_collide"@));
    assert(all_name(s3, "allow_auto_disable"@));
    assert(all_name(s4, "enable_wind"@));
    assert(all_name(s5, "pose"@));
    assert(forall|i: int| 0 <= i < m.includes.len() ==> (#[trigger] enc_include_fn()(m.includes[i])).name == inc_tag());
    lemma_map_all_name(m.includes, enc_include_fn(), inc_tag());
    assert(all_name(s6, inc_tag()));
    assert(forall|i: int| 0 <= i < m.model.len() ==> (#[trigger] enc_nested_fn()(m.model[i])).name == "model"@);
    lemma_map_all_name(m.model, enc_nested_fn(), "model"@);
    assert(all_name(s7, "model"@));
    assert(forall|i: int| 0 <= i < m.frame.len() ==> (#[trigger] enc_frame_fn()(m.frame[i])).name == "frame"@);
    lemma_map_all_name(m.frame, enc_frame_fn(), "frame"@);
    assert(all_name(s8, "frame"@));
    assert(forall|i: int| 0 <= i < m.link.len() ==> (#[trigger] enc_link_fn()(m.link[i])).name == "link"@);
    lemma_map_all_name(m.link, enc_link_fn(), "link"@);
    assert(all_name(s9, "link"@));
    assert(forall|i: int| 0 <= i < m.joint.len() ==> (#[trigger] enc_joint_fn()(m.joint[i])).name == "joint"@);
    lemma_map_all_name(m.joint, enc_joint_fn(), "joint"@);
    assert(all_name(s10, "joint"@));
    assert(forall|i: int| 0 <= i < m.plugin.len() ==> (#[trigger] enc_plugin_fn()(m.plugin[i])).name == "plugin"@);
    lemma_map_all_name(m.plugin, enc_plugin_fn(), "plugin"@);
    assert(all_name(s11, "plugin"@));
    assert(forall|i: int| 0 <= i < m.gripper.len() ==> (#[trigger] enc_gripper_fn()(m.gripper[i])).name == "gripper"@);
    lemma_map_all_name(m.gripper, enc_gripper_fn(), "gripper"@);
    assert(all_name(s12, "gripper"@));
    lemma_all_no(s2, "self_collide"@, "static"@);
    lemma_all_no(s3, "allow_auto_disable"@, "static"@);
    lemma_all_no(s4, "enable_wind"@, "static"@);
    lemma_all_no(s5, "pose"@, "static"@);
    lemma_all_no(s6, inc_tag(), "static"@);
    lemma_all_no(s7, "model"@, "static"@);
    lemma_all_no(s8, "frame"@, "static"@);
    lemma_all_no(s9, "link"@, "static"@);
    lemma_all_no(s10, "joint"@, "static"@);
    lemma_all_no(s11, "plugin"@, "static"@);
    lemma_all_no(s12, "gripper"@, "static"@);
    lemma_no_name_add(s2, s3, "static"@);
    lemma_no_name_add(s2 + s3, s4, "static"@);
    lemma_no_name_add(s2 + s3 + s4, s5, "static"@);
    lemma_no_name_add(s2 + s3 + s4 + s5, s6, "static"@);
    lemma_no_name_add(s2 + s3 + s4 + s5 + s6, s7, "static"@);
    lemma_no_name_add(s2 + s3 + s4 + s5 + s6 + s7, s8, "static"@);
    lemma_no_name_add(s2 + s3 + s4 + s5 + s6 + s7 + s8, s9, "static"@);
    lemma_no_name_add(s2 + s3 + s4 + s5 + s6 + s7 + s8 + s9, s10, "static"@);
    lemma_no_name_add(s2 + s3 + s4 + s5 + s6 + s7 + s8 + s9 + s10, s11, "static"@);
    lemma_no_name_add(s2 + s3 + s4 + s5 + s6 + s7 + s8 + s9 + s10 + s11, s12, "static"@);
    assert(e.children =~= Seq::<ElemV>::empty() + s1 + (s2 + s3 + s4 + s5 + s6 + s7 + s8 + s9 + s10 + s11 + s12));
    lemma_first_child_seg(e.children, Seq::<ElemV>::empty(), s1, s2 + s3 + s4 + s5 + s6 + s7 + s8 + s9 + s10 + s11 + s12, "static"@);
    match m.is_static { Some(b) => { assert(s1.first() == text_elem("static"@, bool_text(b))); lemma_bool_round_trip(b); }, None => {} }
}

#[verifier::rlimit(50)]
proof fn lemma_model_q_self_collide(m: ModelV)
    ensures
        opt_bool_field(enc_model(m), "self_collide"@) == Ok::<Option<bool>, DecodeError>(m.self_collide),
{
    lemma_tags_distinct();
    let e = enc_model(m);
    let s1 = opt_bool_child("static"@, m.is_static);
    let s2 = opt_bool_child("self_collide"@, m.self_collide);
    let s3 = opt_bool_child("allow_auto_disable"@, m.allow_auto_disable);
    let s4 = opt_bool_child("enable_wind"@, m.enable_wind);
    let s5 = opt_text_child("pose"@, m.pose);
    let s6 = m.includes.map_values(enc_include_fn());
    let s7 = m.model.map_values(enc_nested_fn());
    let s8 = m.frame.map_values(enc_frame_fn());
    let s9 = m.link.map_values(enc_link_fn());
    let s10 = m.joint.map_values(enc_joint_fn());
    let s11 = m.plugin.map_values(enc_plugin_fn());
    let s12 = m.gripper.map_values(enc_gripper_fn());
    assert(e.children == s1 + s2 + s3 + s4 + s5 + s6 + s7 + s8 + s9 + s10 + s11 + s12);
    assert(all_name(s1, "static"@));
    assert(all_name(s2, "self_collide"@));
    assert(all_name(s3, "allow_auto_disable"@));
    assert(all_name(s4, "enable_wind"@));
    assert(all_name(s5, "pose"@));
    assert(forall|i: int| 0 <= i < m.includes.len() ==> (#[trigger] enc_include_fn()(m.includes[i])).name == inc_tag());
    lemma_map_all_name(m.includes, enc_include_fn(), inc_tag());
    assert(all_name(s6, inc_tag()));
    assert(forall|i: int| 0 <= i < m.model.len() ==> (#[trigger] enc_nested_fn()(m.model[i])).name == "model"@);
    lemma_map_all_name(m.model, enc_nested_fn(), "model"@);
    assert(all_name(s7, "model"@));
    assert(forall|i: int| 0 <= i < m.frame.len() ==> (#[trigger] enc_frame_fn()(m.frame[i])).name == "frame"@);
    lemma_map_all_name(m.frame, enc_frame_fn(), "frame"@);
    assert(all_name(s8, "frame"@));
    assert(forall|i: int| 0 <= i < m.link.len() ==> (#[trigger] enc_link_fn()(m.link[i])).name == "link"@);
    lemma_map_all_name(m.link, enc_link_fn(), "link"@);
    assert(all_name(s9, "link"@));
    assert(forall|i: int| 0 <= i < m.joint.len() ==> (#[trigger] enc_joint_fn()(m.joint[i])).name == "joint"@);
    lemma_map_all_name(m.joint, enc_joint_fn(), "joint"@);
    assert(all_name(s10, "joint"@));
    assert(forall|i: int| 0 <= i < m.plugin.len() ==> (#[trigger] enc_plugin_fn()(m.plugin[i])).name == "plugin"@);
    lemma_map_all_name(m.plugin, enc_plugin_fn(), "plugin"@);
    assert(all_name(s11, "plugin"@));
    assert(forall|i: int| 0 <= i < m.gripper.len() ==> (#[trigger] enc_gripper_fn()(m.gripper[i])).name == "gripper"@);
    lemma_map_all_name(m.gripper, enc_gripper_fn(), "gripper"@);
    assert(all_name(s12, "gripper"@));
    lemma_all_no(s1, "static"@, "self_collide"@);
    lemma_all_no(s3, "allow_auto_disable"@, "self_collide"@);
    lemma_all_no(s4, "enable_wind"@, "self_collide"@);
    lemma_all_no(s5, "pose"@, "self_collide"@);
    lemma_all_no(s6, inc_tag(), "self_collide"@);
    lemma_all_no(s7, "model"@, "self_collide"@);
    lemma_all_no(s8, "frame"@, "self_collide"@);
    lemma_all_no(s9, "link"@, "self_collide"@);
    lemma_all_no(s10, "joint"@, "self_collide"@);
    lemma_all_no(s11, "plugin"@, "self_collide"@);
    lemma_all_no(s12, "gripper"@, "self_collide"@);
    lemma_no_name_add(s3, s4, "self_collide"@);
    lemma_no_name_add(s3 + s4, s5, "self_collide"@);
    lemma_no_name_add(s3 + s4 + s5, s6, "self_collide"@);
    lemma_no_name_add(s3 + s4 + s5 + s6, s7, "self_collide"@);
    lemma_no_name_add(s3 + s4 + s5 + s6 + s7, s8, "self_collide"@);
    lemma_no_name_add(s3 + s4 + s5 + s6 + s7 + s8, s9, "self_collide"@);
    lemma_no_name_add(s3 + s4 + s5 + s6 + s7 + s8 + s9, s10, "self_collide"@);
    lemma_no_name_add(s3 + s4 + s5 + s6 + s7 + s8 + s9 + s10, s11, "self_collide"@);
    lemma_no_name_add(s3 + s4 + s5 + s6 + s7 + s8 + s9 + s10 + s11, s12, "self_collide"@);
    assert(e.children =~= s1 + s2 + (s3 + s4 + s5 + s6 + s7 + s8 + s9 + s10 + s11 + s12));
    lemma_first_child_seg(e.children, s1, s2, s3 + s4 + s5 + s6 + s7 + s8 + s9 + s10 + s11 + s12, "self_collide"@);
    match m.self_collide { Some(b) => { assert(s2.first() == text_elem("self_collide"@, bool_text(b))); lemma_bool_round_trip(b); }, None => {} }
}

#[verifier::rlimit(50)]
proof fn lemma_model_q_allow_auto_disable(m: ModelV)
    ensures
        m.allow_auto_disable is Some ==> bool_field_default(enc_model(m), "allow_auto_disable"@, true) == Ok::<Option<bool>, DecodeError>(m.allow_auto_disable),
{
    lemma_tags_distinct();
    let e = enc_model(m);
    let s1 = opt_bool_child("static"@, m.is_static);
    let s2 = opt_bool_child("self_collide"@, m.self_collide);
    let s3 = opt_bool_child("allow_auto_disable"@, m.allow_auto_disable);
    let s4 = opt_bool_child("enable_wind"@, m.enable_wind);
    let s5 = opt_text_child("pose"@, m.pose);
    let s6 = m.includes.map_values(enc_include_fn());
    let s7 = m.model.map_values(enc_nested_fn());
    let s8 = m.frame.map_values(enc_frame_fn());
    let s9 = m.link.map_values(enc_link_fn());
    let s10 = m.joint.map_values(enc_joint_fn());
    let s11 = m.plugin.map_values(enc_plugin_fn());
    let s12 = m.gripper.map_values(enc_gripper_fn());
    assert(e.children == s1 + s2 + s3 + s4 + s5 + s6 + s7 + s8 + s9 + s10 + s11 + s12);
    assert(all_name(s1, "static"@));
    assert(all_name(s2, "self_collide"@));
    assert(all_name(s3, "allow_auto_disable"@));
    assert(all_name(s4, "enable_wind"@));
    assert(all_name(s5, "pose"@));
    assert(forall|i: int| 0 <= i < m.includes.len() ==> (#[trigger] enc_include_fn()(m.includes[i])).name == inc_tag());
    lemma_map_all_name(m.includes, enc_include_fn(), inc_tag());
    assert(all_name(s6, inc_tag()));
    assert(forall|i: int| 0 <= i < m.model.len() ==> (#[trigger] enc_nested_fn()(m.model[i])).name == "model"@);
    lemma_map_all_name(m.model, enc_nested_fn(), "model"@);
    assert(all_name(s7, "model"@));
    assert(forall|i: int| 0 <= i < m.frame.len() ==> (#[trigger] enc_frame_fn()(m.frame[i])).name == "frame"@);
    lemma_map_all_name(m.frame, enc_frame_fn(), "frame"@);
    assert(all_name(s8, "frame"@));
    assert(forall|i: int| 0 <= i < m.link.len() ==> (#[trigger] enc_link_fn()(m.link[i])).name == "link"@);
    lemma_map_all_name(m.link, enc_link_fn(), "link"@);
    assert(all_name(s9, "link"@));
    assert(forall|i: int| 0 <= i < m.joint.len() ==> (#[trigger] enc_joint_fn()(m.joint[i])).name == "joint"@);
    lemma_map_all_name(m.joint, enc_joint_fn(), "joint"@);
    assert(all_name(s10, "joint"@));
    assert(forall|i: int| 0 <= i < m.plugin.len() ==> (#[trigger] enc_plugin_fn()(m.plugin[i])).name == "plugin"@);
    lemma_map_all_name(m.plugin, enc_plugin_fn(), "plugin"@);
    assert(all_name(s11, "plugin"@));
    assert(forall|i: int| 0 <= i < m.gripper.len() ==> (#[trigger] enc_gripper_fn()(m.gripper[i])).name == "gripper"@);
    lemma_map_all_name(m.gripper, enc_gripper_fn(), "gripper"@);
    assert(all_name(s12, "gripper"@));
    lemma_all_no(s1, "static"@, "allow_auto_disable"@);
    lemma_all_no(s2, "self_collide"@, "allow_auto_disable"@);
    lemma_all_no(s4, "enable_wind"@, "allow_auto_disable"@);
    lemma_all_no(s5, "pose"@, "allow_auto_disable"@);
    lemma_all_no(s6, inc_tag(), "allow_auto_disable"@);
    lemma_all_no(s7, "model"@, "allow_auto_disable"@);
    lemma_all_no(s8, "frame"@, "allow_auto_disable"@);
    lemma_all_no(s9, "link"@, "allow_auto_disable"@);
    lemma_all_no(s10, "joint"@, "allow_auto_disable"@);
    lemma_all_no(s11, "plugin"@, "allow_auto_disable"@);
    lemma_all_no(s12, "gripper"@, "allow_auto_disable"@);
    lemma_no_name_add(s1, s2, "allow_auto_disable"@);
    lemma_no_name_add(s4, s5, "allow_auto_disable"@);
    lemma_no_name_add(s4 + s5, s6, "allow_auto_disable"@);
    lemma_no_name_add(s4 + s5 + s6, s7, "allow_auto_disable"@);
    lemma_no_name_add(s4 + s5 + s6 + s7, s8, "allow_auto_disable"@);
    lemma_no_name_add(s4 + s5 + s6 + s7 + s8, s9, "allow_auto_disable"@);
    lemma_no_name_add(s4 + s5 + s6 + s7 + s8 + s9, s10, "allow_auto_disable"@);
    lemma_no_name_add(s4 + s5 + s6 + s7 + s8 + s9 + s10, s11, "allow_auto_disable"@);
    lemma_no_name_add(s4 + s5 + s6 + s7 + s8 + s9 + s10 + s11, s12, "allow_auto_disable"@);
    assert(e.children =~= s1 + s2 + s3 + (s4 + s5 + s6 + s7 + s8 + s9 + s10 + s11 + s12));
    lemma_first_child_seg(e.children, s1 + s2, s3, s4 + s5 + s6 + s7 + s8 + s9 + s10 + s11 + s12, "allow_auto_disable"@);
    match m.allow_auto_disable { Some(b) => { assert(s3.first() == text_elem("allow_auto_disable"@, bool_text(b))); lemma_bool_round_trip(b); }, None => {} }
}

#[verifier::rlimit(50)]
proof fn lemma_model_q_enable_wind(m: ModelV)
    ensures
        m.enable_wind is Some ==> bool_field_default(enc_model(m), "enable_wind"@, false) == Ok::<Option<bool>, DecodeError>(m.enable_wind),
{
    lemma_tags_distinct();
    let e = enc_model(m);
    let s1 = opt_bool_child("static"@, m.is_static);
    let s2 = opt_bool_child("self_collide"@, m.self_collide);
    let s3 = opt_bool_child("allow_auto_disable"@, m.allow_auto_disable);
    let s4 = opt_bool_child("enable_wind"@, m.enable_wind);
    let s5 = opt_text_child("pose"@, m.pose);
    let s6 = m.includes.map_values(enc_include_fn());
    let s7 = m.model.map_values(enc_nested_fn());
    let s8 = m.frame.map_values(enc_frame_fn());
    let s9 = m.link.map_values(enc_link_fn());
    let s10 = m.joint.map_values(enc_joint_fn());
    let s11 = m.plugin.map_values(enc_plugin_fn());
    let s12 = m.gripper.map_values(enc_gripper_fn());
    assert(e.children == s1 + s2 + s3 + s4 + s5 + s6 + s7 + s8 + s9 + s10 + s11 + s12);
    assert(all_name(s1, "static"@));
    assert(all_name(s2, "self_collide"@));
    assert(all_name(s3, "allow_auto_disable"@));
    assert(all_name(s4, "enable_wind"@));
    assert(all_name(s5, "pose"@));
    assert(forall|i: int| 0 <= i < m.includes.len() ==> (#[trigger] enc_include_fn()(m.includes[i])).name == inc_tag());
    lemma_map_all_name(m.includes, enc_include_fn(), inc_tag());
    assert(all_name(s6, inc_tag()));
    assert(forall|i: int| 0 <= i < m.model.len() ==> (#[trigger] enc_nested_fn()(m.model[i])).name == "model"@);
    lemma_map_all_name(m.model, enc_nested_fn(), "model"@);
    assert(all_name(s7, "model"@));
    assert(forall|i: int| 0 <= i < m.frame.len() ==> (#[trigger] enc_frame_fn()(m.frame[i])).name == "frame"@);
    lemma_map_all_name(m.frame, enc_frame_fn(), "frame"@);
    assert(all_name(s8, "frame"@));
    assert(forall|i: int| 0 <= i < m.link.len() ==> (#[trigger] enc_link_fn()(m.link[i])).name == "link"@);
    lemma_map_all_name(m.link, enc_link_fn(), "link"@);
    assert(all_name(s9, "link"@));
    assert(forall|i: int| 0 <= i < m.joint.len() ==> (#[trigger] enc_joint_fn()(m.joint[i])).name == "joint"@);
    lemma_map_all_name(m.joint, enc_joint_fn(), "joint"@);
    assert(all_name(s10, "joint"@));
    assert(forall|i: int| 0 <= i < m.plugin.len() ==> (#[trigger] enc_plugin_fn()(m.plugin[i])).name == "plugin"@);
    lemma_map_all_name(m.plugin, enc_plugin_fn(), "plugin"@);
    assert(all_name(s11, "plugin"@));
    assert(forall|i: int| 0 <= i < m.gripper.len() ==> (#[trigger] enc_gripper_fn()(m.gripper[i])).name == "gripper"@);
    lemma_map_all_name(m.gripper, enc_gripper_fn(), "gripper"@);
    assert(all_name(s12, "gripper"@));
    lemma_all_no(s1, "static"@, "enable_wind"@);
    lemma_all_no(s2, "self_collide"@, "enable_wind"@);
    lemma_all_no(s3, "allow_auto_disable"@, "enable_wind"@);
    lemma_all_no(s5, "pose"@, "enable_wind"@);
    lemma_all_no(s6, inc_tag(), "enable_wind"@);
    lemma_all_no(s7, "model"@, "enable_wind"@);
    lemma_all_no(s8, "frame"@, "enable_wind"@);
    lemma_all_no(s9, "link"@, "enable_wind"@);
    lemma_all_no(s10, "joint"@, "enable_wind"@);
    lemma_all_no(s11, "plugin"@, "enable_wind"@);
    lemma_all_no(s12, "gripper"@, "enable_wind"@);
    lemma_no_name_add(s1, s2, "enable_wind"@);
    lemma_no_name_add(s1 + s2, s3, "enable_wind"@);
    lemma_no_name_add(s5, s6, "enable_wind"@);
    lemma_no_name_add(s5 + s6, s7, "enable_wind"@);
    lemma_no_name_add(s5 + s6 + s7, s8, "enable_wind"@);
    lemma_no_name_add(s5 + s6 + s7 + s8, s9, "enable_wind"@);
    lemma_no_name_add(s5 + s6 + s7 + s8 + s9, s10, "enable_wind"@);
    lemma_no_name_add(s5 + s6 + s7 + s8 + s9 + s10, s11, "enable_wind"@);
    lemma_no_name_add(s5 + s6 + s7 + s8 + s9 + s10 + s11, s12, "enable_wind"@);
    assert(e.children =~= s1 + s2 + s3 + s4 + (s5 + s6 + s7 + s8 + s9 + s10 + s11 + s12));
    lemma_first_child_seg(e.children, s1 + s2 + s3, s4, s5 + s6 + s7 + s8 + s9 + s10 + s11 + s12, "enable_wind"@);
    match m.enable_wind { Some(b) => { assert(s4.first() == text_elem("enable_wind"@, bool_text(b))); lemma_bool_round_trip(b); }, None => {} }
}

#[verifier::rlimit(50)]
proof fn lemma_model_q_pose(m: ModelV)
    ensures
        child_text(enc_model(m).children, "pose"@) == m.pose,
{
    lemma_tags_distinct();
    let e = enc_model(m);
    let s1 = opt_bool_child("static"@, m.is_static);
    let s2 = opt_bool_child("self_collide"@, m.self_collide);
    let s3 = opt_bool_child("allow_auto_disable"@, m.allow_auto_disable);
    let s4 = opt_bool_child("enable_wind"@, m.enable_wind);
    let s5 = opt_text_child("pose"@, m.pose);
    let s6 = m.includes.map_values(enc_include_fn());
    let s7 = m.model.map_values(enc_nested_fn());
    let s8 = m.frame.map_values(enc_frame_fn());
    let s9 = m.link.map_values(enc_link_fn());
    let s10 = m.joint.map_values(enc_joint_fn());
    let s11 = m.plugin.map_values(enc_plugin_fn());
    let s12 = m.gripper.map_values(enc_gripper_fn());
    assert(e.children == s1 + s2 + s3 + s4 + s5 + s6 + s7 + s8 + s9 + s10 + s11 + s12);
    assert(all_name(s1, "static"@));
    assert(all_name(s2, "self_collide"@));
    assert(all_name(s3, "allow_auto_disable"@));
    assert(all_name(s4, "enable_wind"@));
    assert(all_name(s5, "pose"@));
    assert(forall|i: int| 0 <= i < m.includes.len() ==> (#[trigger] enc_include_fn()(m.includes[i])).name == inc_tag());
    lemma_map_all_name(m.includes, enc_include_fn(), inc_tag());
    assert(all_name(s6, inc_tag()));
    assert(forall|i: int| 0 <= i < m.model.len() ==> (#[trigger] enc_nested_fn()(m.model[i])).name == "model"@);
    lemma_map_all_name(m.model, enc_nested_fn(), "model"@);
    assert(all_name(s7, "model"@));
    assert(forall|i: int| 0 <= i < m.frame.len() ==> (#[trigger] enc_frame_fn()(m.frame[i])).name == "frame"@);
    lemma_map_all_name(m.frame, enc_frame_fn(), "frame"@);
    assert(all_name(s8, "frame"@));
    assert(forall|i: int| 0 <= i < m.link.len() ==> (#[trigger] enc_link_fn()(m.link[i])).name == "link"@);
    lemma_map_all_name(m.link, enc_link_fn(), "link"@);
    assert(all_name(s9, "link"@));
    assert(forall|i: int| 0 <= i < m.joint.len() ==> (#[trigger] enc_joint_fn()(m.joint[i])).name == "joint"@);
    lemma_map_all_name(m.joint, enc_joint_fn(), "joint"@);
    assert(all_name(s10, "joint"@));
    assert(forall|i: int| 0 <= i < m.plugin.len() ==> (#[trigger] enc_plugin_fn()(m.plugin[i])).name == "plugin"@);
    lemma_map_all_name(m.plugin, enc_plugin_fn(), "plugin"@);
    assert(all_name(s11, "plugin"@));
    assert(forall|i: int| 0 <= i < m.gripper.len() ==> (#[trigger] enc_gripper_fn()(m.gripper[i])).name == "gripper"@);
    lemma_map_all_name(m.gripper, enc_gripper_fn(), "gripper"@);
    assert(all_name(s12, "gripper"@));
    lemma_all_no(s1, "static"@, "pose"@);
    lemma_all_no(s2, "self_collide"@, "pose"@);
    lemma_all_no(s3, "allow_auto_disable"@, "pose"@);
    lemma_all_no(s4, "enable_wind"@, "pose"@);
    lemma_all_no(s6, inc_tag(), "pose"@);
    lemma_all_no(s7, "model"@, "pose"@);
    lemma_all_no(s8, "frame"@, "pose"@);
    lemma_all_no(s9, "link"@, "pose"@);
    lemma_all_no(s10, "joint"@, "pose"@);
    lemma_all_no(s11, "plugin"@, "pose"@);
    lemma_all_no(s12, "gripper"@, "pose"@);
    lemma_no_name_add(s1, s2, "pose"@);
    lemma_no_name_add(s1 + s2, s3, "pose"@);
    lemma_no_name_add(s1 + s2 + s3, s4, "pose"@);
    lemma_no_name_add(s6, s7, "pose"@);
    lemma_no_name_add(s6 + s7, s8, "pose"@);
    lemma_no_name_add(s6 + s7 + s8, s9, "pose"@);
    lemma_no_name_add(s6 + s7 + s8 + s9, s10, "pose"@);
    lemma_no_name_add(s6 + s7 + s8 + s9 + s10, s11, "pose"@);
    lemma_no_name_add(s6 + s7 + s8 + s9 + s10 + s11, s12, "pose"@);
    assert(e.children =~= s1 + s2 + s3 + s4 + s5 + (s6 + s7 + s8 + s9 + s10 + s11 + s12));
    lemma_first_child_seg(e.children, s1 + s2 + s3 + s4, s5, s6 + s7 + s8 + s9 + s10 + s11 + s12, "pose"@);
    match m.pose { Some(t) => { assert(s5.first() == text_elem("pose"@, t)); }, None => {} }
}

#[verifier::rlimit(50)]
proof fn lemma_model_q_includes(m: ModelV)
    ensures
        collect_children(enc_model(m).children, inc_tag(), dec_include_fn()) == Ok::<Seq<IncludeV>, DecodeError>(m.includes),
{
    lemma_tags_distinct();
    let e = enc_model(m);
    let s1 = opt_bool_child("static"@, m.is_static);
    let s2 = opt_bool_child("self_collide"@, m.self_collide);
    let s3 = opt_bool_child("allow_auto_disable"@, m.allow_auto_disable);
    let s4 = opt_bool_child("enable_wind"@, m.enable_wind);
    let s5 = opt_text_child("pose"@, m.pose);
    let s6 = m.includes.map_values(enc_include_fn());
    let s7 = m.model.map_values(enc_nested_fn());
    let s8 = m.frame.map_values(enc_frame_fn());
    let s9 = m.link.map_values(enc_link_fn());
    let s10 = m.joint.map_values(enc_joint_fn());
    let s11 = m.plugin.map_values(enc_plugin_fn());
    let s12 = m.gripper.map_values(enc_gripper_fn());
    assert(e.children == s1 + s2 + s3 + s4 + s5 + s6 + s7 + s8 + s9 + s10 + s11 + s12);
    assert(all_name(s1, "static"@));
    assert(all_name(s2, "self_collide"@));
    assert(all_name(s3, "allow_auto_disable"@));
    assert(all_name(s4, "enable_wind"@));
    assert(all_name(s5, "pose"@));
    assert(forall|i: int| 0 <= i < m.includes.len() ==> (#[trigger] enc_include_fn()(m.includes[i])).name == inc_tag());
    lemma_map_all_name(m.includes, enc_include_fn(), inc_tag());
    assert(all_name(s6, inc_tag()));
    assert(forall|i: int| 0 <= i < m.model.len() ==> (#[trigger] enc_nested_fn()(m.model[i])).name == "model"@);
    lemma_map_all_name(m.model, enc_nested_fn(), "model"@);
    assert(all_name(s7, "model"@));
    assert(forall|i: int| 0 <= i < m.frame.len() ==> (#[trigger] enc_frame_fn()(m.frame[i])).name == "frame"@);
    lemma_map_all_name(m.frame, enc_frame_fn(), "frame"@);
    assert(all_name(s8, "frame"@));
    assert(forall|i: int| 0 <= i < m.link.len() ==> (#[trigger] enc_link_fn()(m.link[i])).name == "link"@);
    lemma_map_all_name(m.link, enc_link_fn(), "link"@);
    assert(all_name(s9, "link"@));
    assert(forall|i: int| 0 <= i < m.joint.len() ==> (#[trigger] enc_joint_fn()(m.joint[i])).name == "joint"@);
    lemma_map_all_name(m.joint, enc_joint_fn(), "joint"@);
    assert(all_name(s10, "joint"@));
    assert(forall|i: int| 0 <= i < m.plugin.len() ==> (#[trigger] enc_plugin_fn()(m.plugin[i])).name == "plugin"@);
    lemma_map_all_name(m.plugin, enc_plugin_fn(), "plugin"@);
    assert(all_name(s11, "plugin"@));
    assert(forall|i: int| 0 <= i < m.gripper.len() ==> (#[trigger] enc_gripper_fn()(m.gripper[i])).name == "gripper"@);
    lemma_map_all_name(m.gripper, enc_gripper_fn(), "gripper"@);
    assert(all_name(s12, "gripper"@));
    lemma_all_no(s1, "static"@, inc_tag());
    lemma_all_no(s2, "self_collide"@, inc_tag());
    lemma_all_no(s3, "allow_auto_disable"@, inc_tag());
    lemma_all_no(s4, "enable_wind"@, inc_tag());
    lemma_all_no(s5, "pose"@, inc_tag());
    lemma_all_no(s7, "model"@, inc_tag());
    lemma_all_no(s8, "frame"@, inc_tag());
    lemma_all_no(s9, "link"@, inc_tag());
    lemma_all_no(s10, "joint"@, inc_tag());
    lemma_all_no(s11, "plugin"@, inc_tag());
    lemma_all_no(s12, "gripper"@, inc_tag());
    lemma_no_name_add(s1, s2, inc_tag());
    lemma_no_name_add(s1 + s2, s3, inc_tag());
    lemma_no_name_add(s1 + s2 + s3, s4, inc_tag());
    lemma_no_name_add(s1 + s2 + s3 + s4, s5, inc_tag());
    lemma_no_name_add(s7, s8, inc_tag());
    lemma_no_name_add(s7 + s8, s9, inc_tag());
    lemma_no_name_add(s7 + s8 + s9, s10, inc_tag());
    lemma_no_name_add(s7 + s8 + s9 + s10, s11, inc_tag());
    lemma_no_name_add(s7 + s8 + s9 + s10 + s11, s12, inc_tag());
    assert(e.children =~= s1 + s2 + s3 + s4 + s5 + s6 + (s7 + s8 + s9 + s10 + s11 + s12));
    lemma_collect_seg(e.children, s1 + s2 + s3 + s4 + s5, s6, s7 + s8 + s9 + s10 + s11 + s12, inc_tag(), dec_include_fn());
    assert forall|i: int| 0 <= i < m.includes.len() implies (#[trigger] enc_include_fn()(m.includes[i])).name == inc_tag() && dec_include_fn()(enc_include_fn()(m.includes[i])) == Ok::<IncludeV, DecodeError>(m.includes[i]) by { lemma_include_round_trip(m.includes[i]); }
    lemma_collect_map(m.includes, inc_tag(), dec_include_fn(), enc_include_fn());
}

#[verifier::rlimit(50)]
proof fn lemma_model_q_model(m: ModelV)
    ensures
        collect_children(enc_model(m).children, "model"@, dec_nested_fn()) == Ok::<Seq<NestedModelV>, DecodeError>(m.model),
{
    lemma_tags_distinct();
    let e = enc_model(m);
    let s1 = opt_bool_child("static"@, m.is_static);
    let s2 = opt_bool_child("self_collide"@, m.self_collide);
    let s3 = opt_bool_child("allow_auto_disable"@, m.allow_auto_disable);
    let s4 = opt_bool_child("enable_wind"@, m.enable_wind);
    let s5 = opt_text_child("pose"@, m.pose);
    let s6 = m.includes.map_values(enc_include_fn());
    let s7 = m.model.map_values(enc_nested_fn());
    let s8 = m.frame.map_values(enc_frame_fn());
    let s9 = m.link.map_values(enc_link_fn());
    let s10 = m.joint.map_values(enc_joint_fn());
    let s11 = m.plugin.map_values(enc_plugin_fn());
    let s12 = m.gripper.map_values(enc_gripper_fn());
    assert(e.children == s1 + s2 + s3 + s4 + s5 + s6 + s7 + s8 + s9 + s10 + s11 + s12);
    assert(all_name(s1, "static"@));
    assert(all_name(s2, "self_collide"@));
    assert(all_name(s3, "allow_auto_disable"@));
    assert(all_name(s4, "enable_wind"@));
    assert(all_name(s5, "pose"@));
    assert(forall|i: int| 0 <= i < m.includes.len() ==> (#[trigger] enc_include_fn()(m.includes[i])).name == inc_tag());
    lemma_map_all_name(m.includes, enc_include_fn(), inc_tag());
    assert(all_name(s6, inc_tag()));
    assert(forall|i: int| 0 <= i < m.model.len() ==> (#[trigger] enc_nested_fn()(m.model[i])).name == "model"@);
    lemma_map_all_name(m.model, enc_nested_fn(), "model"@);
    assert(all_name(s7, "model"@));
    assert(forall|i: int| 0 <= i < m.frame.len() ==> (#[trigger] enc_frame_fn()(m.frame[i])).name == "frame"@);
    lemma_map_all_name(m.frame, enc_frame_fn(), "frame"@);
    assert(all_name(s8, "frame"@));
    assert(forall|i: int| 0 <= i < m.link.len() ==> (#[trigger] enc_link_fn()(m.link[i])).name == "link"@);
    lemma_map_all_name(m.link, enc_link_fn(), "link"@);
    assert(all_name(s9, "link"@));
    assert(forall|i: int| 0 <= i < m.joint.len() ==> (#[trigger] enc_joint_fn()(m.joint[i])).name == "joint"@);
    lemma_map_all_name(m.joint, enc_joint_fn(), "joint"@);
    assert(all_name(s10, "joint"@));
    assert(forall|i: int| 0 <= i < m.plugin.len() ==> (#[trigger] enc_plugin_fn()(m.plugin[i])).name == "plugin"@);
    lemma_map_all_name(m.plugin, enc_plugin_fn(), "plugin"@);
    assert(all_name(s11, "plugin"@));
    assert(forall|i: int| 0 <= i < m.gripper.len() ==> (#[trigger] enc_gripper_fn()(m.gripper[i])).name == "gripper"@);
    lemma_map_all_name(m.gripper, enc_gripper_fn(), "gripper"@);
    assert(all_name(s12, "gripper"@));
    lemma_all_no(s1, "static"@, "model"@);
    lemma_all_no(s2, "self_collide"@, "model"@);
    lemma_all_no(s3, "allow_auto_disable"@, "model"@);
    lemma_all_no(s4, "enable_wind"@, "model"@);
    lemma_all_no(s5, "pose"@, "model"@);
    lemma_all_no(s6, inc_tag(), "model"@);
    lemma_all_no(s8, "frame"@, "model"@);
    lemma_all_no(s9, "link"@, "model"@);
    lemma_all_no(s10, "joint"@, "model"@);
    lemma_all_no(s11, "plugin"@, "model"@);
    lemma_all_no(s12, "gripper"@, "model"@);
    lemma_no_name_add(s1, s2, "model"@);
    lemma_no_name_add(s1 + s2, s3, "model"@);
    lemma_no_name_add(s1 + s2 + s3, s4, "model"@);
    lemma_no_name_add(s1 + s2 + s3 + s4, s5, "model"@);
    lemma_no_name_add(s1 + s2 + s3 + s4 + s5, s6, "model"@);
    lemma_no_name_add(s8, s9, "model"@);
    lemma_no_name_add(s8 + s9, s10, "model"@);
    lemma_no_name_add(s8 + s9 + s10, s11, "model"@);
    lemma_no_name_add(s8 + s9 + s10 + s11, s12, "model"@);
    assert(e.children =~= s1 + s2 + s3 + s4 + s5 + s6 + s7 + (s8 + s9 + s10 + s11 + s12));
    lemma_collect_seg(e.children, s1 + s2 + s3 + s4 + s5 + s6, s7, s8 + s9 + s10 + s11 + s12, "model"@, dec_nested_fn());
    assert forall|i: int| 0 <= i < m.model.len() implies (#[trigger] enc_nested_fn()(m.model[i])).name == "model"@ && dec_nested_fn()(enc_nested_fn()(m.model[i])) == Ok::<NestedModelV, DecodeError>(m.model[i]) by { lemma_nested_round_trip(m.model[i]); }
    lemma_collect_map(m.model, "model"@, dec_nested_fn(), enc_nested_fn());
}

#[verifier::rlimit(50)]
proof fn lemma_model_q_frame(m: ModelV)
    ensures
        collect_children(enc_model(m).children, "frame"@, dec_frame_fn()) == Ok::<Seq<FrameV>, DecodeError>(m.frame),
{
    lemma_tags_distinct();
    let e = enc_model(m);
    let s1 = opt_bool_child("static"@, m.is_static);
    let s2 = opt_bool_child("self_collide"@, m.self_collide);
    let s3 = opt_bool_child("allow_auto_disable"@, m.allow_auto_disable);
    let s4 = opt_bool_child("enable_wind"@, m.enable_wind);
    let s5 = opt_text_child("pose"@, m.pose);
    let s6 = m.includes.map_values(enc_include_fn());
    let s7 = m.model.map_values(enc_nested_fn());
    let s8 = m.frame.map_values(enc_frame_fn());
    let s9 = m.link.map_values(enc_link_fn());
    let s10 = m.joint.map_values(enc_joint_fn());
    let s11 = m.plugin.map_values(enc_plugin_fn());
    let s12 = m.gripper.map_values(enc_gripper_fn());
    assert(e.children == s1 + s2 + s3 + s4 + s5 + s6 + s7 + s8 + s9 + s10 + s11 + s12);
    assert(all_name(s1, "static"@));
    assert(all_name(s2, "self_collide"@));
    assert(all_name(s3, "allow_auto_disable"@));
    assert(all_name(s4, "enable_wind"@));
    assert(all_name(s5, "pose"@));
    assert(forall|i: int| 0 <= i < m.includes.len() ==> (#[trigger] enc_include_fn()(m.includes[i])).name == inc_tag());
    lemma_map_all_name(m.includes, enc_include_fn(), inc_tag());
    assert(all_name(s6, inc_tag()));
    assert(forall|i: int| 0 <= i < m.model.len() ==> (#[trigger] enc_nested_fn()(m.model[i])).name == "model"@);
    lemma_map_all_name(m.model, enc_nested_fn(), "model"@);
    assert(all_name(s7, "model"@));
    assert(forall|i: int| 0 <= i < m.frame.len() ==> (#[trigger] enc_frame_fn()(m.frame[i])).name == "frame"@);
    lemma_map_all_name(m.frame, enc_frame_fn(), "frame"@);
    assert(all_name(s8, "frame"@));
    assert(forall|i: int| 0 <= i < m.link.len() ==> (#[trigger] enc_link_fn()(m.link[i])).name == "link"@);
    lemma_map_all_name(m.link, enc_link_fn(), "link"@);
    assert(all_name(s9, "link"@));
    assert(forall|i: int| 0 <= i < m.joint.len() ==> (#[trigger] enc_joint_fn()(m.joint[i])).name == "joint"@);
    lemma_map_all_name(m.joint, enc_joint_fn(), "joint"@);
    assert(all_name(s10, "joint"@));
    assert(forall|i: int| 0 <= i < m.plugin.len() ==> (#[trigger] enc_plugin_fn()(m.plugin[i])).name == "plugin"@);
    lemma_map_all_name(m.plugin, enc_plugin_fn(), "plugin"@);
    assert(all_name(s11, "plugin"@));
    assert(forall|i: int| 0 <= i < m.gripper.len() ==> (#[trigger] enc_gripper_fn()(m.gripper[i])).name == "gripper"@);
    lemma_map_all_name(m.gripper, enc_gripper_fn(), "gripper"@);
    assert(all_name(s12, "gripper"@));
    lemma_all_no(s1, "static"@, "frame"@);
    lemma_all_no(s2, "self_collide"@, "frame"@);
    lemma_all_no(s3, "allow_auto_disable"@, "frame"@);
    lemma_all_no(s4, "enable_wind"@, "frame"@);
    lemma_all_no(s5, "pose"@, "frame"@);
    lemma_all_no(s6, inc_tag(), "frame"@);
    lemma_all_no(s7, "model"@, "frame"@);
    lemma_all_no(s9, "link"@, "frame"@);
    lemma_all_no(s10, "joint"@, "frame"@);
    lemma_all_no(s11, "plugin"@, "frame"@);
    lemma_all_no(s12, "gripper"@, "frame"@);
    lemma_no_name_add(s1, s2, "frame"@);
    lemma_no_name_add(s1 + s2, s3, "frame"@);
    lemma_no_name_add(s1 + s2 + s3, s4, "frame"@);
    lemma_no_name_add(s1 + s2 + s3 + s4, s5, "frame"@);
    lemma_no_name_add(s1 + s2 + s3 + s4 + s5, s6, "frame"@);
    lemma_no_name_add(s1 + s2 + s3 + s4 + s5 + s6, s7, "frame"@);
    lemma_no_name_add(s9, s10, "frame"@);
    lemma_no_name_add(s9 + s10, s11, "frame"@);
    lemma_no_name_add(s9 + s10 + s11, s12, "frame"@);
    assert(e.children =~= s1 + s2 + s3 + s4 + s5 + s6 + s7 + s8 + (s9 + s10 + s11 + s12));
    lemma_collect_seg(e.children, s1 + s2 + s3 + s4 + s5 + s6 + s7, s8, s9 + s10 + s11 + s12, "frame"@, dec_frame_fn());
    assert forall|i: int| 0 <= i < m.frame.len() implies (#[trigger] enc_frame_fn()(m.frame[i])).name == "frame"@ && dec_frame_fn()(enc_frame_fn()(m.frame[i])) == Ok::<FrameV, DecodeError>(m.frame[i]) by { lemma_frame_round_trip(m.frame[i]); }
    lemma_collect_map(m.frame, "frame"@, dec_frame_fn(), enc_frame_fn());
}

#[verifier::rlimit(50)]
proof fn lemma_model_q_link(m: ModelV)
    ensures
        collect_children(enc_model(m).children, "link"@, dec_link_fn()) == Ok::<Seq<LinkV>, DecodeError>(m.link),
{
    lemma_tags_distinct();
    let e = enc_model(m);
    let s1 = opt_bool_child("static"@, m.is_static);
    let s2 = opt_bool_child("self_collide"@, m.self_collide);
    let s3 = opt_bool_child("allow_auto_disable"@, m.allow_auto_disable);
    let s4 = opt_bool_child("enable_wind"@, m.enable_wind);
    let s5 = opt_text_child("pose"@, m.pose);
    let s6 = m.includes.map_values(enc_include_fn());
    let s7 = m.model.map_values(enc_nested_fn());
    let s8 = m.frame.map_values(enc_frame_fn());
    let s9 = m.link.map_values(enc_link_fn());
    let s10 = m.joint.map_values(enc_joint_fn());
    let s11 = m.plugin.map_values(enc_plugin_fn());
    let s12 = m.gripper.map_values(enc_gripper_fn());
    assert(e.children == s1 + s2 + s3 + s4 + s5 + s6 + s7 + s8 + s9 + s10 + s11 + s12);
    assert(all_name(s1, "static"@));
    assert(all_name(s2, "self_collide"@));
    assert(all_name(s3, "allow_auto_disable"@));
    assert(all_name(s4, "enable_wind"@));
    assert(all_name(s5, "pose"@));
    assert(forall|i: int| 0 <= i < m.includes.len() ==> (#[trigger] enc_include_fn()(m.includes[i])).name == inc_tag());
    lemma_map_all_name(m.includes, enc_include_fn(), inc_tag());
    assert(all_name(s6, inc_tag()));
    assert(forall|i: int| 0 <= i < m.model.len() ==> (#[trigger] enc_nested_fn()(m.model[i])).name == "model"@);
    lemma_map_all_name(m.model, enc_nested_fn(), "model"@);
    assert(all_name(s7, "model"@));
    assert(forall|i: int| 0 <= i < m.frame.len() ==> (#[trigger] enc_frame_fn()(m.frame[i])).name == "frame"@);
    lemma_map_all_name(m.frame, enc_frame_fn(), "frame"@);
    assert(all_name(s8, "frame"@));
    assert(forall|i: int| 0 <= i < m.link.len() ==> (#[trigger] enc_link_fn()(m.link[i])).name == "link"@);
    lemma_map_all_name(m.link, enc_link_fn(), "link"@);
    assert(all_name(s9, "link"@));
    assert(forall|i: int| 0 <= i < m.joint.len() ==> (#[trigger] enc_joint_fn()(m.joint[i])).name == "joint"@);
    lemma_map_all_name(m.joint, enc_joint_fn(), "joint"@);
    assert(all_name(s10, "joint"@));
    assert(forall|i: int| 0 <= i < m.plugin.len() ==> (#[trigger] enc_plugin_fn()(m.plugin[i])).name == "plugin"@);
    lemma_map_all_name(m.plugin, enc_plugin_fn(), "plugin"@);
    assert(all_name(s11, "plugin"@));
    assert(forall|i: int| 0 <= i < m.gripper.len() ==> (#[trigger] enc_gripper_fn()(m.gripper[i])).name == "gripper"@);
    lemma_map_all_name(m.gripper, enc_gripper_fn(), "gripper"@);
    assert(all_name(s12, "gripper"@));
    lemma_all_no(s1, "static"@, "link"@);
    lemma_all_no(s2, "self_collide"@, "link"@);
    lemma_all_no(s3, "allow_auto_disable"@, "link"@);
    lemma_all_no(s4, "enable_wind"@, "link"@);
    lemma_all_no(s5, "pose"@, "link"@);
    lemma_all_no(s6, inc_tag(), "link"@);
    lemma_all_no(s7, "model"@, "link"@);
    lemma_all_no(s8, "frame"@, "link"@);
    lemma_all_no(s10, "joint"@, "link"@);
    lemma_all_no(s11, "plugin"@, "link"@);
    lemma_all_no(s12, "gripper"@, "link"@);
    lemma_no_name_add(s1, s2, "link"@);
    lemma_no_name_add(s1 + s2, s3, "link"@);
    lemma_no_name_add(s1 + s2 + s3, s4, "link"@);
    lemma_no_name_add(s1 + s2 + s3 + s4, s5, "link"@);
    lemma_no_name_add(s1 + s2 + s3 + s4 + s5, s6, "link"@);
    lemma_no_name_add(s1 + s2 + s3 + s4 + s5 + s6, s7, "link"@);
    lemma_no_name_add(s1 + s2 + s3 + s4 + s5 + s6 + s7, s8, "link"@);
    lemma_no_name_add(s10, s11, "link"@);
    lemma_no_name_add(s10 + s11, s12, "link"@);
    assert(e.children =~= s1 + s2 + s3 + s4 + s5 + s6 + s7 + s8 + s9 + (s10 + s11 + s12));
    lemma_collect_seg(e.children, s1 + s2 + s3 + s4 + s5 + s6 + s7 + s8, s9, s10 + s11 + s12, "link"@, dec_link_fn());
    assert forall|i: int| 0 <= i < m.link.len() implies (#[trigger] enc_link_fn()(m.link[i])).name == "link"@ && dec_link_fn()(enc_link_fn()(m.link[i])) == Ok::<LinkV, DecodeError>(m.link[i]) by { lemma_link_round_trip(m.link[i]); }
    lemma_collect_map(m.link, "link"@, dec_link_fn(), enc_link_fn());
}

#[verifier::rlimit(50)]
proof fn lemma_model_q_joint(m: ModelV)
    ensures
        collect_children(enc_model(m).children, "joint"@, dec_joint_fn()) == Ok::<Seq<JointV>, DecodeError>(m.joint),
{
    lemma_tags_distinct();
    let e = enc_model(m);
    let s1 = opt_bool_child("static"@, m.is_static);
    let s2 = opt_bool_child("self_collide"@, m.self_collide);
    let s3 = opt_bool_child("allow_auto_disable"@, m.allow_auto_disable);
    let s4 = opt_bool_child("enable_wind"@, m.enable_wind);
    let s5 = opt_text_child("pose"@, m.pose);
    let s6 = m.includes.map_values(enc_include_fn());
    let s7 = m.model.map_values(enc_nested_fn());
    let s8 = m.frame.map_values(enc_frame_fn());
    let s9 = m.link.map_values(enc_link_fn());
    let s10 = m.joint.map_values(enc_joint_fn());
    let s11 = m.plugin.map_values(enc_plugin_fn());
    let s12 = m.gripper.map_values(enc_gripper_fn());
    assert(e.children == s1 + s2 + s3 + s4 + s5 + s6 + s7 + s8 + s9 + s10 + s11 + s12);
    assert(all_name(s1, "static"@));
    assert(all_name(s2, "self_collide"@));
    assert(all_name(s3, "allow_auto_disable"@));
    assert(all_name(s4, "enable_wind"@));
    assert(all_name(s5, "pose"@));
    assert(forall|i: int| 0 <= i < m.includes.len() ==> (#[trigger] enc_include_fn()(m.includes[i])).name == inc_tag());
    lemma_map_all_name(m.includes, enc_include_fn(), inc_tag());
    assert(all_name(s6, inc_tag()));
    assert(forall|i: int| 0 <= i < m.model.len() ==> (#[trigger] enc_nested_fn()(m.model[i])).name == "model"@);
    lemma_map_all_name(m.model, enc_nested_fn(), "model"@);
    assert(all_name(s7, "model"@));
    assert(forall|i: int| 0 <= i < m.frame.len() ==> (#[trigger] enc_frame_fn()(m.frame[i])).name == "frame"@);
    lemma_map_all_name(m.frame, enc_frame_fn(), "frame"@);
    assert(all_name(s8, "frame"@));
    assert(forall|i: int| 0 <= i < m.link.len() ==> (#[trigger] enc_link_fn()(m.link[i])).name == "link"@);
    lemma_map_all_name(m.link, enc_link_fn(), "link"@);
    assert(all_name(s9, "link"@));
    assert(forall|i: int| 0 <= i < m.joint.len() ==> (#[trigger] enc_joint_fn()(m.joint[i])).name == "joint"@);
    lemma_map_all_name(m.joint, enc_joint_fn(), "joint"@);
    assert(all_name(s10, "joint"@));
    assert(forall|i: int| 0 <= i < m.plugin.len() ==> (#[trigger] enc_plugin_fn()(m.plugin[i])).name == "plugin"@);
    lemma_map_all_name(m.plugin, enc_plugin_fn(), "plugin"@);
    assert(all_name(s11, "plugin"@));
    assert(forall|i: int| 0 <= i < m.gripper.len() ==> (#[trigger] enc_gripper_fn()(m.gripper[i])).name == "gripper"@);
    lemma_map_all_name(m.gripper, enc_gripper_fn(), "gripper"@);
    assert(all_name(s12, "gripper"@));
    lemma_all_no(s1, "static"@, "joint"@);
    lemma_all_no(s2, "self_collide"@, "joint"@);
    lemma_all_no(s3, "allow_auto_disable"@, "joint"@);
    lemma_all_no(s4, "enable_wind"@, "joint"@);
    lemma_all_no(s5, "pose"@, "joint"@);
    lemma_all_no(s6, inc_tag(), "joint"@);
    lemma_all_no(s7, "model"@, "joint"@);
    lemma_all_no(s8, "frame"@, "joint"@);
    lemma_all_no(s9, "link"@, "joint"@);
    lemma_all_no(s11, "plugin"@, "joint"@);
    lemma_all_no(s12, "gripper"@, "joint"@);
    lemma_no_name_add(s1, s2, "joint"@);
    lemma_no_name_add(s1 + s2, s3, "joint"@);
    lemma_no_name_add(s1 + s2 + s3, s4, "joint"@);
    lemma_no_name_add(s1 + s2 + s3 + s4, s5, "joint"@);
    lemma_no_name_add(s1 + s2 + s3 + s4 + s5, s6, "joint"@);
    lemma_no_name_add(s1 + s2 + s3 + s4 + s5 + s6, s7, "joint"@);
    lemma_no_name_add(s1 + s2 + s3 + s4 + s5 + s6 + s7, s8, "joint"@);
    lemma_no_name_add(s1 + s2 + s3 + s4 + s5 + s6 + s7 + s8, s9, "joint"@);
    lemma_no_name_add(s11, s12, "joint"@);
    assert(e.children =~= s1 + s2 + s3 + s4 + s5 + s6 + s7 + s8 + s9 + s10 + (s11 + s12));
    lemma_collect_seg(e.children, s1 + s2 + s3 + s4 + s5 + s6 + s7 + s8 + s9, s10, s11 + s12, "joint"@, dec_joint_fn());
    assert forall|i: int| 0 <= i < m.joint.len() implies (#[trigger] enc_joint_fn()(m.joint[i])).name == "joint"@ && dec_joint_fn()(enc_joint_fn()(m.joint[i])) == Ok::<JointV, DecodeError>(m.joint[i]) by { lemma_joint_round_trip(m.joint[i]); }
    lemma_collect_map(m.joint, "joint"@, dec_joint_fn(), enc_joint_fn());
}

#[verifier::rlimit(50)]
proof fn lemma_model_q_plugin(m: ModelV)
    ensures
        collect_children(enc_model(m).children, "plugin"@, dec_plugin_fn()) == Ok::<Seq<PluginV>, DecodeError>(m.plugin),
{
    lemma_tags_distinct();
    let e = enc_model(m);
    let s1 = opt_bool_child("static"@, m.is_static);
    let s2 = opt_bool_child("self_collide"@, m.self_collide);
    let s3 = opt_bool_child("allow_auto_disable"@, m.allow_auto_disable);
    let s4 = opt_bool_child("enable_wind"@, m.enable_wind);
    let s5 = opt_text_child("pose"@, m.pose);
    let s6 = m.includes.map_values(enc_include_fn());
    let s7 = m.model.map_values(enc_nested_fn());
    let s8 = m.frame.map_values(enc_frame_fn());
    let s9 = m.link.map_values(enc_link_fn());
    let s10 = m.joint.map_values(enc_joint_fn());
    let s11 = m.plugin.map_values(enc_plugin_fn());
    let s12 = m.gripper.map_values(enc_gripper_fn());
    assert(e.children == s1 + s2 + s3 + s4 + s5 + s6 + s7 + s8 + s9 + s10 + s11 + s12);
    assert(all_name(s1, "static"@));
    assert(all_name(s2, "self_collide"@));
    assert(all_name(s3, "allow_auto_disable"@));
    assert(all_name(s4, "enable_wind"@));
    assert(all_name(s5, "pose"@));
    assert(forall|i: int| 0 <= i < m.includes.len() ==> (#[trigger] enc_include_fn()(m.includes[i])).name == inc_tag());
    lemma_map_all_name(m.includes, enc_include_fn(), inc_tag());
    assert(all_name(s6, inc_tag()));
    assert(forall|i: int| 0 <= i < m.model.len() ==> (#[trigger] enc_nested_fn()(m.model[i])).name == "model"@);
    lemma_map_all_name(m.model, enc_nested_fn(), "model"@);
    assert(all_name(s7, "model"@));
    assert(forall|i: int| 0 <= i < m.frame.len() ==> (#[trigger] enc_frame_fn()(m.frame[i])).name == "frame"@);
    lemma_map_all_name(m.frame, enc_frame_fn(), "frame"@);
    assert(all_name(s8, "frame"@));
    assert(forall|i: int| 0 <= i < m.link.len() ==> (#[trigger] enc_link_fn()(m.link[i])).name == "link"@);
    lemma_map_all_name(m.link, enc_link_fn(), "link"@);
    assert(all_name(s9, "link"@));
    assert(forall|i: int| 0 <= i < m.joint.len() ==> (#[trigger] enc_joint_fn()(m.joint[i])).name == "joint"@);
    lemma_map_all_name(m.joint, enc_joint_fn(), "joint"@);
    assert(all_name(s10, "joint"@));
    assert(forall|i: int| 0 <= i < m.plugin.len() ==> (#[trigger] enc_plugin_fn()(m.plugin[i])).name == "plugin"@);
    lemma_map_all_name(m.plugin, enc_plugin_fn(), "plugin"@);
    assert(all_name(s11, "plugin"@));
    assert(forall|i: int| 0 <= i < m.gripper.len() ==> (#[trigger] enc_gripper_fn()(m.gripper[i])).name == "gripper"@);
    lemma_map_all_name(m.gripper, enc_gripper_fn(), "gripper"@);
    assert(all_name(s12, "gripper"@));
    lemma_all_no(s1, "static"@, "plugin"@);
    lemma_all_no(s2, "self_collide"@, "plugin"@);
    lemma_all_no(s3, "allow_auto_disable"@, "plugin"@);
    lemma_all_no(s4, "enable_wind"@, "plugin"@);
    lemma_all_no(s5, "pose"@, "plugin"@);
    lemma_all_no(s6, inc_tag(), "plugin"@);
    lemma_all_no(s7, "model"@, "plugin"@);
    lemma_all_no(s8, "frame"@, "plugin"@);
    lemma_all_no(s9, "link"@, "plugin"@);
    lemma_all_no(s10, "joint"@, "plugin"@);
    lemma_all_no(s12, "gripper"@, "plugin"@);
    lemma_no_name_add(s1, s2, "plugin"@);
    lemma_no_name_add(s1 + s2, s3, "plugin"@);
    lemma_no_name_add(s1 + s2 + s3, s4, "plugin"@);
    lemma_no_name_add(s1 + s2 + s3 + s4, s5, "plugin"@);
    lemma_no_name_add(s1 + s2 + s3 + s4 + s5, s6, "plugin"@);
    lemma_no_name_add(s1 + s2 + s3 + s4 + s5 + s6, s7, "plugin"@);
    lemma_no_name_add(s1 + s2 + s3 + s4 + s5 + s6 + s7, s8, "plugin"@);
    lemma_no_name_add(s1 + s2 + s3 + s4 + s5 + s6 + s7 + s8, s9, "plugin"@);
    lemma_no_name_add(s1 + s2 + s3 + s4 + s5 + s6 + s7 + s8 + s9, s10, "plugin"@);
    assert(e.children =~= s1 + s2 + s3 + s4 + s5 + s6 + s7 + s8 + s9 + s10 + s11 + (s12));
    lemma_collect_seg(e.children, s1 + s2 + s3 + s4 + s5 + s6 + s7 + s8 + s9 + s10, s11, s12, "plugin"@, dec_plugin_fn());
    assert forall|i: int| 0 <= i < m.plugin.len() implies (#[trigger] enc_plugin_fn()(m.plugin[i])).name == "plugin"@ && dec_plugin_fn()(enc_plugin_fn()(m.plugin[i])) == Ok::<PluginV, DecodeError>(m.plugin[i]) by { lemma_plugin_round_trip(m.plugin[i]); }
    lemma_collect_map(m.plugin, "plugin"@, dec_plugin_fn(), enc_plugin_fn());
}

#[verifier::rlimit(50)]
proof fn lemma_model_q_gripper(m: ModelV)
    ensures
        collect_children(enc_model(m).children, "gripper"@, dec_gripper_fn()) == Ok::<Seq<GripperV>, DecodeError>(m.gripper),
{
    lemma_tags_distinct();
    let e = enc_model(m);
    let s1 = opt_bool_child("static"@, m.is_static);
    let s2 = opt_bool_child("self_collide"@, m.self_collide);
    let s3 = opt_bool_child("allow_auto_disable"@, m.allow_auto_disable);
    let s4 = opt_bool_child("enable_wind"@, m.enable_wind);
    let s5 = opt_text_child("pose"@, m.pose);
    let s6 = m.includes.map_values(enc_include_fn());
    let s7 = m.model.map_values(enc_nested_fn());
    let s8 = m.frame.map_values(enc_frame_fn());
    let s9 = m.link.map_values(enc_link_fn());
    let s10 = m.joint.map_values(enc_joint_fn());
    let s11 = m.plugin.map_values(enc_plugin_fn());
    let s12 = m.gripper.map_values(enc_gripper_fn());
    assert(e.children == s1 + s2 + s3 + s4 + s5 + s6 + s7 + s8 + s9 + s10 + s11 + s12);
    assert(all_name(s1, "static"@));
    assert(all_name(s2, "self_collide"@));
    assert(all_name(s3, "allow_auto_disable"@));
    assert(all_name(s4, "enable_wind"@));
    assert(all_name(s5, "pose"@));
    assert(forall|i: int| 0 <= i < m.includes.len() ==> (#[trigger] enc_include_fn()(m.includes[i])).name == inc_tag());
    lemma_map_all_name(m.includes, enc_include_fn(), inc_tag());
    assert(all_name(s6, inc_tag()));
    assert(forall|i: int| 0 <= i < m.model.len() ==> (#[trigger] enc_nested_fn()(m.model[i])).name == "model"@);
    lemma_map_all_name(m.model, enc_nested_fn(), "model"@);
    assert(all_name(s7, "model"@));
    assert(forall|i: int| 0 <= i < m.frame.len() ==> (#[trigger] enc_frame_fn()(m.frame[i])).name == "frame"@);
    lemma_map_all_name(m.frame, enc_frame_fn(), "frame"@);
    assert(all_name(s8, "frame"@));
    assert(forall|i: int| 0 <= i < m.link.len() ==> (#[trigger] enc_link_fn()(m.link[i])).name == "link"@);
    lemma_map_all_name(m.link, enc_link_fn(), "link"@);
    assert(all_name(s9, "link"@));
    assert(forall|i: int| 0 <= i < m.joint.len() ==> (#[trigger] enc_joint_fn()(m.joint[i])).name == "joint"@);
    lemma_map_all_name(m.joint, enc_joint_fn(), "joint"@);
    assert(all_name(s10, "joint"@));
    assert(forall|i: int| 0 <= i < m.plugin.len() ==> (#[trigger] enc_plugin_fn()(m.plugin[i])).name == "plugin"@);
    lemma_map_all_name(m.plugin, enc_plugin_fn(), "plugin"@);
    assert(all_name(s11, "plugin"@));
    assert(forall|i: int| 0 <= i < m.gripper.len() ==> (#[trigger] enc_gripper_fn()(m.gripper[i])).name == "gripper"@);
    lemma_map_all_name(m.gripper, enc_gripper_fn(), "gripper"@);
    assert(all_name(s12, "gripper"@));
    lemma_all_no(s1, "static"@, "gripper"@);
    lemma_all_no(s2, "self_collide"@, "gripper"@);
    lemma_all_no(s3, "allow_auto_disable"@, "gripper"@);
    lemma_all_no(s4, "enable_wind"@, "gripper"@);
    lemma_all_no(s5, "pose"@, "gripper"@);
    lemma_all_no(s6, inc_tag(), "gripper"@);
    lemma_all_no(s7, "model"@, "gripper"@);
    lemma_all_no(s8, "frame"@, "gripper"@);
    lemma_all_no(s9, "link"@, "gripper"@);
    lemma_all_no(s10, "joint"@, "gripper"@);
    lemma_all_no(s11, "plugin"@, "gripper"@);
    lemma_no_name_add(s1, s2, "gripper"@);
    lemma_no_name_add(s1 + s2, s3, "gripper"@);
    lemma_no_name_add(s1 + s2 + s3, s4, "gripper"@);
    lemma_no_name_add(s1 + s2 + s3 + s4, s5, "gripper"@);
    lemma_no_name_add(s1 + s2 + s3 + s4 + s5, s6, "gripper"@);
    lemma_no_name_add(s1 + s2 + s3 + s4 + s5 + s6, s7, "gripper"@);
    lemma_no_name_add(s1 + s2 + s3 + s4 + s5 + s6 + s7, s8, "gripper"@);
    lemma_no_name_add(s1 + s2 + s3 + s4 + s5 + s6 + s7 + s8, s9, "gripper"@);
    lemma_no_name_add(s1 + s2 + s3 + s4 + s5 + s6 + s7 + s8 + s9, s10, "gripper"@);
    lemma_no_name_add(s1 + s2 + s3 + s4 + s5 + s6 + s7 + s8 + s9 + s10, s11, "gripper"@);
    assert(e.children =~= s1 + s2 + s3 + s4 + s5 + s6 + s7 + s8 + s9 + s10 + s11 + s12 + (Seq::<ElemV>::empty()));
    lemma_collect_seg(e.children, s1 + s2 + s3 + s4 + s5 + s6 + s7 + s8 + s9 + s10 + s11, s12, Seq::<ElemV>::empty(), "gripper"@, dec_gripper_fn());
    assert forall|i: int| 0 <= i < m.gripper.len() implies (#[trigger] enc_gripper_fn()(m.gripper[i])).name == "gripper"@ && dec_gripper_fn()(enc_gripper_fn()(m.gripper[i])) == Ok::<GripperV, DecodeError>(m.gripper[i]) by { lemma_gripper_round_trip(m.gripper[i]); }
    lemma_collect_map(m.gripper, "gripper"@, dec_gripper_fn(), enc_gripper_fn());
}

/// Reading back an encoded model gives the model again, for every model whose
/// defaulted-present fields are populated.
#[verifier::rlimit(50)]
pub proof fn lemma_model_round_trip(m: ModelV)
    requires
        m.wf(),
    ensures
        spec_decode_model(enc_model(m)) == Ok::<ModelV, DecodeError>(m),
{
    let e = enc_model(m);
    lemma_model_attrs(m);
    lemma_model_q_static(m);
    lemma_model_q_self_collide(m);
    lemma_model_q_allow_auto_disable(m);
    lemma_model_q_enable_wind(m);
    lemma_model_q_pose(m);
    lemma_model_q_includes(m);
    lemma_model_q_model(m);
    lemma_model_q_frame(m);
    lemma_model_q_link(m);
    lemma_model_q_joint(m);
    lemma_model_q_plugin(m);
    lemma_model_q_gripper(m);
    assert(spec_decode_model(e) == Ok::<ModelV, DecodeError>(m));
}

/// Reading back the encoded content choice gives it again.
pub proof fn lemma_content_round_trip(t: SdfTypeV)
    requires
        t is Model ==> t->Model_0.wf(),
    ensures
        is_content_name(enc_content(t).name),
        spec_decode_content(enc_content(t)) == Ok::<SdfTypeV, DecodeError>(t),
{
    lemma_tags_distinct();
    match t {
        SdfTypeV::World => {},
        SdfTypeV::Model(m) => {
            lemma_model_round_trip(m);
        },
        SdfTypeV::Actor => {},
        SdfTypeV::Light => {},
    }
}

/// ROUND-TRIP LAW: at the element-tree level, decoding the encoding of any
/// well-formed document image — in particular of any document that decoding
/// itself produced (see `lemma_decode_gives_wf`) — gives the same document
/// back, structurally equal field by field. The textual layer above the tree
/// is the pull parser's; tests exercise the full text round trip.
pub proof fn lemma_round_trip(v: SdfV)
    requires
        v.wf(),
    ensures
        spec_decode_sdf(enc_sdf(v)) == Ok::<SdfV, DecodeError>(v),
{
    lemma_tags_distinct();
    reveal_strlit("sdf");
    reveal_strlit("version");
    let e = enc_sdf(v);
    let c = enc_content(v.sdf_type);
    lemma_content_round_trip(v.sdf_type);
    assert(e.children =~= Seq::<ElemV>::empty().push(c));
    assert(e.children.drop_last() =~= Seq::<ElemV>::empty());
    assert(e.children.last() == c);
    assert(content_children(Seq::<ElemV>::empty()) == Seq::<ElemV>::empty());
    assert(content_children(e.children) == Seq::<ElemV>::empty().push(c));
    assert(content_children(e.children) =~= seq![c]);
    assert(e.attrs.first() == ("version"@, v.version));
    assert(attr_of(e.attrs, "version"@) == Some(v.version));
    assert(content_children(e.children)[0] == c);
}

/// TAGGED-UNION EXCLUSIVITY: a root holding no recognized content child, or
/// more than one, never decodes; it fails with the matching error.
pub proof fn lemma_tagged_union_exclusivity(e: ElemV)
    requires
        e.name == "sdf"@,
    ensures
        content_children(e.children).len() == 0 ==> spec_decode_sdf(e) == Err::<
            SdfV,
            DecodeError,
        >(DecodeError::NoContent),
        content_children(e.children).len() > 1 ==> spec_decode_sdf(e) == Err::<
            SdfV,
            DecodeError,
        >(DecodeError::DuplicateContent),
{
}

/// DEFAULT MATERIALIZATION: whenever a model element decodes and carries no
/// `allow_auto_disable` child, the decoded field is `Some(true)`; with no
/// `enable_wind` child it is `Some(false)`.
pub proof fn lemma_default_materialization(e: ElemV)
    requires
        spec_decode_model(e) is Ok,
    ensures
        first_child(e.children, "allow_auto_disable"@) is None ==> spec_decode_model(
            e,
        )->Ok_0.allow_auto_disable == Some(true),
        first_child(e.children, "enable_wind"@) is None ==> spec_decode_model(
            e,
        )->Ok_0.enable_wind == Some(false),
{
}

/// VERSION DEFAULT: whenever a document decodes and its root carries no
/// `version` attribute, the decoded version is `1.8`.
pub proof fn lemma_version_default(e: ElemV)
    requires
        spec_decode_sdf(e) is Ok,
    ensures
        attr_of(e.attrs, "version"@) is None ==> spec_decode_sdf(e)->Ok_0.version == "1.8"@,
{
}

/// COLLECTION EMPTINESS DEFAULT: whenever a model element decodes and has no
/// `link` children, the decoded collection is empty — present and empty, not
/// absent.
pub proof fn lemma_collection_empty_default(e: ElemV)
    requires
        spec_decode_model(e) is Ok,
        no_name(e.children, "link"@),
    ensures
        spec_decode_model(e)->Ok_0.link == Seq::<LinkV>::empty(),
{
    lemma_collect_none(e.children, "link"@, dec_link_fn());
}

/// Every decoded document is well formed: the defaulted-present fields are
/// populated, so the round-trip law applies to it.
pub proof fn lemma_decode_gives_wf(e: ElemV)
    requires
        spec_decode_sdf(e) is Ok,
    ensures
        spec_decode_sdf(e)->Ok_0.wf(),
{
}


} // verus!
