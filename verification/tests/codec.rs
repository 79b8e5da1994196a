use sdformat::decode::DecodeError;
use sdformat::model::{
    Frame, GraspCheck, Gripper, Include, Link, Model, Plugin, Sdf, SdfType,
};
use sdformat::text::encode;
use sdformat::xmlio::decode;

fn empty_model(name: &str) -> Model {
    Model {
        name: name.to_string(),
        canonical_link: None,
        placement_frame: None,
        is_static: None,
        self_collide: None,
        allow_auto_disable: Some(true),
        includes: vec![],
        model: vec![],
        enable_wind: Some(false),
        frame: vec![],
        pose: None,
        link: vec![],
        joint: vec![],
        plugin: vec![],
        gripper: vec![],
    }
}

#[test]
fn test_sdf() {
    let sdf_xml = r#"
            <?xml version="1.0" ?>
                <sdf version="1.8">
                    <model name="box">
                        <pose>0 0 0.5 0 0 0</pose>
                        <static>false</static>
                        <self_collide>true</self_collide>
                    </model>
                </sdf>"#;

    let sdf: Sdf = decode(sdf_xml).unwrap();

    let expected = Sdf {
        version: String::from("1.8"),
        sdf_type: SdfType::Model(Model {
            name: "box".into(),
            canonical_link: None,
            placement_frame: None,
            is_static: Some(false),
            self_collide: Some(true),
            pose: Some("0 0 0.5 0 0 0".into()),
            allow_auto_disable: Some(true),
            includes: vec![],
            model: vec![],
            enable_wind: Some(false),
            frame: vec![],
            link: vec![],
            joint: vec![],
            plugin: vec![],
            gripper: vec![],
        }),
    };
    assert_eq!(expected, sdf);
}

#[test]
fn test_model() {
    let xml = r#"
            <?xml version="1.0" ?>
            <sdf version="1.5">
                <model name="box">
                    <pose>0 0 0.5 0 0 0</pose>
                    <static>false</static>
                    <plugin filename="libMyPlugin.so" name="my_plugin"/>
                </model>
            </sdf>"#;
    let actual = decode(xml).expect("Should deserialize model");

    let expected = Sdf {
        version: String::from("1.5"),
        sdf_type: SdfType::Model(Model {
            name: "box".into(),
            canonical_link: None,
            placement_frame: None,
            is_static: Some(false),
            self_collide: None,
            pose: Some("0 0 0.5 0 0 0".into()),
            allow_auto_disable: Some(true),
            includes: vec![],
            model: vec![],
            enable_wind: Some(false),
            frame: vec![],
            link: vec![],
            joint: vec![],
            plugin: vec![Plugin {
                filename: "libMyPlugin.so".into(),
                name: "my_plugin".into(),
            }],
            gripper: vec![],
        }),
    };

    assert_eq!(expected, actual);
}

#[test]
fn round_trip_decoded_document() {
    let xml = r#"<sdf version="1.5">
        <model name="robot" canonical_link="base">
            <static>true</static>
            <enable_wind>true</enable_wind>
            <pose>1 2 3 0 0 0</pose>
            <link name="base"/>
            <link name="arm"/>
            <joint/>
            <frame name="f1" attached_to="base"><pose>0 0 1 0 0 0</pose></frame>
            <plugin name="p1" filename="libp1.so"/>
            <gripper name="g">
                <grasp_check>
                    <detach_step>-40</detach_step>
                    <attach_step>20</attach_step>
                    <min_contact_count>2</min_contact_count>
                </grasp_check>
                <gripper_link>base</gripper_link>
            </gripper>
        </model>
    </sdf>"#;
    let first = decode(xml).expect("should decode");
    let text = encode(&first).expect("should encode");
    let second = decode(&text).expect("should decode what encode wrote");
    assert_eq!(first, second);
}

#[test]
fn round_trip_keeps_includes() {
    let inc = format!("{}{}", "includ", "e");
    let xml = format!(
        r#"<sdf><model name="m"><{inc}><uri>model://box</uri><name>a</name><static>true</static><plugin name="p" filename="f.so"/></{inc}></model></sdf>"#
    );
    let first = decode(&xml).expect("should decode");
    if let SdfType::Model(m) = &first.sdf_type {
        assert_eq!(m.includes.len(), 1);
        assert_eq!(m.includes[0].uri, "model://box");
        assert_eq!(m.includes[0].name.as_deref(), Some("a"));
        assert_eq!(m.includes[0].is_static, Some(true));
        assert_eq!(m.includes[0].plugin.len(), 1);
    } else {
        panic!("expected a model");
    }
    let text = encode(&first).expect("should encode");
    let second = decode(&text).expect("should decode what encode wrote");
    assert_eq!(first, second);
}

#[test]
fn default_materialization() {
    let sdf = decode(r#"<sdf><model name="m"/></sdf>"#).unwrap();
    assert_eq!(sdf.version, "1.8");
    match sdf.sdf_type {
        SdfType::Model(m) => {
            assert_eq!(m.allow_auto_disable, Some(true));
            assert_eq!(m.enable_wind, Some(false));
        }
        _ => panic!("expected a model"),
    }
}

#[test]
fn tagged_union_exclusivity() {
    let both = decode(r#"<sdf version="1.8"><model name="m"/><world/></sdf>"#);
    assert_eq!(both, Err(DecodeError::DuplicateContent));
    let neither = decode(r#"<sdf version="1.8"></sdf>"#);
    assert_eq!(neither, Err(DecodeError::NoContent));
}

#[test]
fn collection_emptiness_default() {
    let sdf = decode(r#"<sdf><model name="m"><pose>0 0 0 0 0 0</pose></model></sdf>"#).unwrap();
    match sdf.sdf_type {
        SdfType::Model(m) => {
            assert_eq!(m.link, Vec::<Link>::new());
            assert_eq!(m.plugin, Vec::<Plugin>::new());
            assert_eq!(m.includes, Vec::<Include>::new());
        }
        _ => panic!("expected a model"),
    }
}

#[test]
fn order_preservation() {
    let xml = r#"<sdf><model name="m">
        <plugin name="p1" filename="a.so"/>
        <plugin name="p2" filename="b.so"/>
    </model></sdf>"#;
    let sdf = decode(xml).unwrap();
    match &sdf.sdf_type {
        SdfType::Model(m) => {
            assert_eq!(m.plugin.len(), 2);
            assert_eq!(m.plugin[0].name, "p1");
            assert_eq!(m.plugin[1].name, "p2");
        }
        _ => panic!("expected a model"),
    }
    let text = encode(&sdf).unwrap();
    let p1 = text.find("p1").unwrap();
    let p2 = text.find("p2").unwrap();
    assert!(p1 < p2, "re-encoding must keep plugin order");
    let again = decode(&text).unwrap();
    assert_eq!(sdf, again);
}

#[test]
fn world_actor_light_variants() {
    assert_eq!(
        decode("<sdf><world/></sdf>").unwrap().sdf_type,
        SdfType::World(sdformat::model::World {})
    );
    assert_eq!(decode("<sdf><actor/></sdf>").unwrap().sdf_type, SdfType::Actor);
    assert_eq!(decode("<sdf><light/></sdf>").unwrap().sdf_type, SdfType::Light);
}

#[test]
fn error_wrong_root() {
    assert_eq!(decode("<robot/>"), Err(DecodeError::WrongRoot));
}

#[test]
fn error_malformed() {
    assert_eq!(decode("<sdf><model name="), Err(DecodeError::Malformed));
    assert_eq!(decode("<sdf><model name=\"m\"></sdf>"), Err(DecodeError::Malformed));
    assert_eq!(decode(""), Err(DecodeError::Malformed));
}

#[test]
fn error_missing_required_fields() {
    assert_eq!(decode("<sdf><model/></sdf>"), Err(DecodeError::MissingName));
    assert_eq!(
        decode(r#"<sdf><model name="m"><plugin name="p"/></model></sdf>"#),
        Err(DecodeError::MissingFilename)
    );
    assert_eq!(
        decode(r#"<sdf><model name="m"><plugin filename="f.so"/></model></sdf>"#),
        Err(DecodeError::MissingName)
    );
    let inc = format!("{}{}", "includ", "e");
    let xml = format!(r#"<sdf><model name="m"><{inc}><name>x</name></{inc}></model></sdf>"#);
    assert_eq!(decode(&xml), Err(DecodeError::MissingUri));
}

#[test]
fn error_bad_values() {
    assert_eq!(
        decode(r#"<sdf><model name="m"><static>maybe</static></model></sdf>"#),
        Err(DecodeError::BadBool)
    );
    let xml = r#"<sdf><model name="m"><gripper name="g"><grasp_check><detach_step>soon</detach_step></grasp_check></gripper></model></sdf>"#;
    assert_eq!(decode(xml), Err(DecodeError::BadInt));
    let xml2 = r#"<sdf><model name="m"><gripper name="g"><grasp_check><min_contact_count>-2</min_contact_count></grasp_check></gripper></model></sdf>"#;
    assert_eq!(decode(xml2), Err(DecodeError::BadInt));
}

#[test]
fn grasp_check_numbers_round_trip() {
    let xml = r#"<sdf><model name="m"><gripper name="g"><grasp_check>
        <detach_step>-9223372036854775808</detach_step>
        <attach_step>9223372036854775807</attach_step>
        <min_contact_count>18446744073709551615</min_contact_count>
    </grasp_check></gripper></model></sdf>"#;
    let sdf = decode(xml).unwrap();
    match &sdf.sdf_type {
        SdfType::Model(m) => {
            let gc = m.gripper[0].grasp_check.as_ref().unwrap();
            assert_eq!(
                gc,
                &GraspCheck {
                    detach_step: Some(i64::MIN),
                    attach_step: Some(i64::MAX),
                    min_contact_count: Some(u64::MAX),
                }
            );
        }
        _ => panic!("expected a model"),
    }
    let text = encode(&sdf).unwrap();
    let again = decode(&text).unwrap();
    assert_eq!(sdf, again);
}

#[test]
fn escaping_round_trips() {
    let doc = Sdf {
        version: "1.8".into(),
        sdf_type: SdfType::Model(Model {
            pose: Some("a<b&c>\"d'".into()),
            canonical_link: Some("we&ird<name".into()),
            ..empty_model("od<d&")
        }),
    };
    let text = encode(&doc).unwrap();
    let again = decode(&text).unwrap();
    assert_eq!(doc, again);
}

#[test]
fn encode_exact_text() {
    let doc = Sdf {
        version: "1.9".into(),
        sdf_type: SdfType::Actor,
    };
    assert_eq!(encode(&doc).unwrap(), r#"<sdf version="1.9"><actor/></sdf>"#);
    let boxy = Sdf {
        version: "1.8".into(),
        sdf_type: SdfType::Model(empty_model("box")),
    };
    let want = format!(
        "{}{}{}",
        r#"<sdf version="1.8"><model name="box">"#,
        r#"<allow_auto_disable>true</allow_auto_disable>"#,
        r#"<enable_wind>false</enable_wind></model></sdf>"#
    );
    assert_eq!(encode(&boxy).unwrap(), want);
}

#[test]
fn frames_and_nested_models() {
    let xml = r#"<sdf><model name="top">
        <model name="inner1"/>
        <model name="inner2"/>
        <frame name="f" attached_to="inner1"/>
    </model></sdf>"#;
    let sdf = decode(xml).unwrap();
    match &sdf.sdf_type {
        SdfType::Model(m) => {
            assert_eq!(m.model.len(), 2);
            assert_eq!(m.model[0].name, "inner1");
            assert_eq!(m.model[1].name, "inner2");
            assert_eq!(
                m.frame[0],
                Frame {
                    name: "f".into(),
                    attached_to: Some("inner1".into()),
                    pose: None,
                }
            );
        }
        _ => panic!("expected a model"),
    }
    let text = encode(&sdf).unwrap();
    assert_eq!(decode(&text).unwrap(), sdf);
}

#[test]
fn gripper_links_round_trip() {
    let doc = Sdf {
        version: "1.8".into(),
        sdf_type: SdfType::Model(Model {
            gripper: vec![Gripper {
                name: "g".into(),
                grasp_check: None,
                gripper_link: Some("l1".into()),
                palm_link: Some("l2".into()),
            }],
            ..empty_model("m")
        }),
    };
    let text = encode(&doc).unwrap();
    assert_eq!(decode(&text).unwrap(), doc);
}

#[test]
fn defaulting_helpers() {
    assert_eq!(Sdf::default_version(), "1.8");
    assert!(sdformat::model::true_default());
    assert_eq!(sdformat::model::some_true_default(), Some(true));
    assert_eq!(sdformat::model::some_false_default(), Some(false));
}

#[test]
fn cdata_is_character_data() {
    let xml = "<sdf><model name=\"m\"><pose><![CDATA[1 <raw> 2]]></pose></model></sdf>";
    let sdf = decode(xml).unwrap();
    match sdf.sdf_type {
        SdfType::Model(m) => assert_eq!(m.pose.as_deref(), Some("1 <raw> 2")),
        _ => panic!("expected a model"),
    }
}
