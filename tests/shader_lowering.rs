use webrtx::analysis::{
    classify_declaration, collect_builtins, keep_directive, AnalysisError, BuiltinCollector,
    DeclarationAction, DeclarationFacts, Directive, ShaderAnalysis, StorageKind,
};
use webrtx::builtins::{GlGlobalVarirableAsParam, GlslType};
use webrtx::entry::{
    block_struct_name, entry_point_params, invocation_args, ray_payload_canonical_name,
    ParamQualifier, ParamType, ShaderStage,
};
use webrtx::packing::{
    hit_attribute_fragments, pack_slots, packed_block, unpack_slots, BlockField, PackError, PackKind,
    PackedData, PackedVariable, UnpackMode,
};
use webrtx::text::decimal_string;

fn var(ty: GlslType, name: &str, dims: Option<Vec<u32>>) -> PackedVariable {
    PackedVariable { ty, name: name.to_string(), dims }
}

fn facts(storage: StorageKind) -> DeclarationFacts {
    DeclarationFacts {
        is_block: false,
        qualified: true,
        storage,
        shader_record_layout: false,
        acceleration_structure: false,
        location: None,
    }
}

#[test]
fn hit_attribute_variable_becomes_parameter() {
    let f = facts(StorageKind::HitAttribute);
    assert_eq!(classify_declaration(&f), Ok(DeclarationAction::TakeHitAttributeVariable));
    let data = PackedData { block_identifier: None, variables: vec![var(GlslType::Vec2, "attribs", None)] };
    assert_eq!(data.total_num_words(), Ok(2));
    let ps = entry_point_params(ShaderStage::from_name("rchit"), &Some(data), &vec![]);
    let names: Vec<&str> = ps.iter().map(|p| p.name.as_str()).collect();
    assert_eq!(names, vec!["attribs", "_crt_sr_wd_offset"]);
    assert!(matches!(ps[0].ty, ParamType::Glsl(GlslType::Vec2)));
    assert_eq!(ps[0].qualifier, ParamQualifier::Unqualified);
    assert!(matches!(ps[1].ty, ParamType::Glsl(GlslType::UInt)));
    let args = invocation_args(&ps);
    assert_eq!(args, vec!["attribs".to_string(), "_crt_sr_wd_offset".to_string()]);
}

#[test]
fn ray_payload_is_aliased() {
    let mut f = facts(StorageKind::RayPayloadIn);
    f.location = Some(0);
    assert_eq!(classify_declaration(&f), Ok(DeclarationAction::RemoveIncomingPayload(0)));
    let mut a = ShaderAnalysis::new();
    a.record_ray_payload("p".to_string(), 0);
    assert_eq!(a.rename_payload_identifier("p"), Some("_crt_ray_payload_loc_0".to_string()));
    assert_eq!(a.rename_payload_identifier("q"), None);
    a.record_ray_payload("p".to_string(), 12);
    assert_eq!(a.rename_payload_identifier("p"), Some("_crt_ray_payload_loc_12".to_string()));
    let mut out = facts(StorageKind::RayPayload);
    out.location = Some(3);
    assert_eq!(classify_declaration(&out), Ok(DeclarationAction::RenamePayload(3)));
    out.location = None;
    assert_eq!(classify_declaration(&out), Err(AnalysisError::PayloadWithoutLocation));
}

#[test]
fn acceleration_structure_is_lowered() {
    let mut f = facts(StorageKind::Other);
    f.acceleration_structure = true;
    assert_eq!(classify_declaration(&f), Ok(DeclarationAction::LowerAccelerationStructure));
    let mut a = ShaderAnalysis::new();
    assert_eq!(a.max_bind_set_number, -1);
    a.note_bind_set(Some(0));
    assert!(a.max_bind_set_number >= 0);
    a.note_bind_set(Some(3));
    a.note_bind_set(Some(1));
    a.note_bind_set(None);
    assert_eq!(a.max_bind_set_number, 3);
}

#[test]
fn blocks_are_classified() {
    let mut sr = facts(StorageKind::Other);
    sr.is_block = true;
    sr.shader_record_layout = true;
    assert_eq!(classify_declaration(&sr), Ok(DeclarationAction::TakeShaderRecordBlock));
    let mut ha = facts(StorageKind::HitAttribute);
    ha.is_block = true;
    assert_eq!(classify_declaration(&ha), Ok(DeclarationAction::TakeHitAttributeBlock));
    let mut plain = facts(StorageKind::Other);
    plain.qualified = false;
    assert_eq!(classify_declaration(&plain), Ok(DeclarationAction::Keep));
}

#[test]
fn duplicate_hit_attributes_are_refused() {
    let mut a = ShaderAnalysis::new();
    let d = || PackedData { block_identifier: None, variables: vec![var(GlslType::Float, "t", None)] };
    assert_eq!(a.set_hit_attributes(d()), Ok(()));
    assert_eq!(a.set_hit_attributes(d()), Err(AnalysisError::DuplicateHitAttributes));
    assert_eq!(a.set_shader_record(d()), Ok(()));
    assert_eq!(a.set_shader_record(d()), Err(AnalysisError::DuplicateShaderRecord));
}

#[test]
fn neutral_directives_and_declarations() {
    assert!(!keep_directive(&Directive::Version));
    assert!(!keep_directive(&Directive::Extension("GL_EXT_ray_tracing".to_string())));
    assert!(keep_directive(&Directive::Extension("GL_EXT_scalar_block_layout".to_string())));
    assert!(!keep_directive(&Directive::Pragma("shader_stage(closest)".to_string())));
    assert!(keep_directive(&Directive::Pragma("optimize(on)".to_string())));
    assert!(keep_directive(&Directive::Other));
    assert_eq!(classify_declaration(&facts(StorageKind::Other)), Ok(DeclarationAction::Keep));
    let idents = vec!["color".to_string(), "main".to_string()];
    assert!(collect_builtins(&idents).is_empty());
}

#[test]
fn pack_and_unpack_offsets_agree() {
    let data = PackedData {
        block_identifier: None,
        variables: vec![
            var(GlslType::Vec3, "n", None),
            var(GlslType::Float, "w", Some(vec![2, 2])),
            var(GlslType::Mat4, "m", None),
            var(GlslType::UInt, "k", Some(vec![0])),
        ],
    };
    let u = unpack_slots(&data).unwrap();
    let p = pack_slots(&data).unwrap();
    let uo: Vec<u32> = u.iter().map(|s| s.word_offset).collect();
    let po: Vec<u32> = p.iter().map(|s| s.word_offset).collect();
    assert_eq!(uo, vec![0, 3, 4, 5, 6, 7]);
    assert_eq!(uo, po);
    let targets: Vec<&str> = p.iter().map(|s| s.target.as_str()).collect();
    assert_eq!(targets, vec!["n", "w[0][0]", "w[0][1]", "w[1][0]", "w[1][1]", "m"]);
    assert_eq!(p[0].kind.helper_name(), "VEC3");
    assert_eq!(p[5].kind, PackKind::Mat4);
    assert_eq!(data.total_num_words(), Ok(23));
}

#[test]
fn pack_targets_go_through_the_block() {
    let data = PackedData {
        block_identifier: Some((block_struct_name("Attrs"), "attrs".to_string())),
        variables: vec![var(GlslType::Vec2, "uv", Some(vec![3]))],
    };
    let p = pack_slots(&data).unwrap();
    let targets: Vec<&str> = p.iter().map(|s| s.target.as_str()).collect();
    assert_eq!(targets, vec!["attrs.uv[0]", "attrs.uv[1]", "attrs.uv[2]"]);
    let offsets: Vec<u32> = p.iter().map(|s| s.word_offset).collect();
    assert_eq!(offsets, vec![0, 2, 4]);
    let ps = entry_point_params(ShaderStage::from_name("rint"), &Some(data), &vec![]);
    assert_eq!(ps[0].name, "attrs");
    assert_eq!(ps[0].qualifier, ParamQualifier::Out);
    assert!(matches!(&ps[0].ty, ParamType::Struct(n) if n == "_crt_struct_Attrs"));
    assert_eq!(ps.last().unwrap().name, "_crt_potential_hit_t");
    assert_eq!(ps.last().unwrap().qualifier, ParamQualifier::Out);
}

#[test]
fn unsupported_pack_types() {
    let data = PackedData {
        block_identifier: None,
        variables: vec![var(GlslType::Int, "i", None), var(GlslType::Mat43, "m", None)],
    };
    assert_eq!(unpack_slots(&data).unwrap_err(), PackError::UnsupportedType);
    assert!(pack_slots(&data).is_err());
    assert_eq!(data.variables[0].num_words(), Ok(1));
    assert_eq!(data.variables[1].num_words(), Err(PackError::UnsupportedType));
    let huge = var(GlslType::Vec4, "h", Some(vec![65536, 65536]));
    assert_eq!(huge.num_words(), Err(PackError::TooLarge));
    let big = PackedData { block_identifier: None, variables: vec![huge] };
    assert_eq!(unpack_slots(&big).unwrap_err(), PackError::TooLarge);
}

#[test]
fn builtins_are_collected_once_in_order() {
    let idents: Vec<String> = ["gl_HitTEXT", "x", "gl_HitTEXT", "gl_PrimitiveID", "gl_Foo"]
        .iter()
        .map(|s| s.to_string())
        .collect();
    let r = collect_builtins(&idents);
    assert_eq!(r, vec![GlGlobalVarirableAsParam::gl_HitTEXT, GlGlobalVarirableAsParam::gl_PrimitiveID]);
    let tags: Vec<u32> = r.iter().map(|v| v.tag()).collect();
    assert_eq!(tags, vec![11, 0]);
    let mut c = BuiltinCollector::new();
    assert_eq!(c.visit_identifier("gl_WorldRayOriginEXT"), Some("_crt_WorldRayOriginEXT".to_string()));
    assert_eq!(c.visit_identifier("gl_RayTmaxEXT"), Some("_crt_RayTmaxEXT".to_string()));
    c.add_intersection_defaults();
    assert_eq!(
        c.referenced(),
        vec![
            GlGlobalVarirableAsParam::gl_WorldRayOriginEXT,
            GlGlobalVarirableAsParam::gl_RayTmaxEXT,
            GlGlobalVarirableAsParam::gl_RayTminEXT,
        ]
    );
}

#[test]
fn builtin_parameters_follow_the_sbt_offset() {
    let b = vec![GlGlobalVarirableAsParam::gl_ObjectToWorldEXT, GlGlobalVarirableAsParam::gl_HitKindEXT];
    let ps = entry_point_params(ShaderStage::from_name("rahit"), &None, &b);
    let names: Vec<&str> = ps.iter().map(|p| p.name.as_str()).collect();
    assert_eq!(names, vec!["_crt_sr_wd_offset", "_crt_ObjectToWorldEXT", "_crt_HitKindEXT", "_crt_hit_report"]);
    assert!(matches!(ps[1].ty, ParamType::Glsl(GlslType::Mat43)));
    assert!(matches!(ps[2].ty, ParamType::Glsl(GlslType::UInt)));
    assert_eq!(ps[3].qualifier, ParamQualifier::InOut);
    assert_eq!(GlGlobalVarirableAsParam::from_name("gl_ObjectToWorld3x4EXT"), Some(GlGlobalVarirableAsParam::gl_ObjectToWorld3x4EXT));
    assert_eq!(GlGlobalVarirableAsParam::from_tag(16), Some(GlGlobalVarirableAsParam::gl_ObjectToWorld3x4EXT));
    assert_eq!(GlGlobalVarirableAsParam::from_tag(17), None);
    assert_eq!(GlGlobalVarirableAsParam::gl_WorldToObject3x4EXT.param_type(), GlslType::Mat34);
}

#[test]
fn decimal_numerals() {
    assert_eq!(decimal_string(0), "0");
    assert_eq!(decimal_string(907), "907");
    assert_eq!(decimal_string(u32::MAX), "4294967295");
    assert_eq!(ray_payload_canonical_name(41), "_crt_ray_payload_loc_41");
}

#[test]
fn blocks_flatten_to_packed_variables() {
    let fields = vec![
        BlockField { ty: GlslType::Vec3, names: vec![("a".to_string(), None), ("b".to_string(), Some(vec![2]))] },
        BlockField { ty: GlslType::Float, names: vec![("c".to_string(), None)] },
    ];
    let d = packed_block(&fields, Some(("Rec", "rec")));
    let names: Vec<&str> = d.variables.iter().map(|v| v.name.as_str()).collect();
    assert_eq!(names, vec!["a", "b", "c"]);
    assert_eq!(d.variables[1].dims, Some(vec![2]));
    assert_eq!(d.variables[2].ty, GlslType::Float);
    assert_eq!(d.block_identifier, Some(("_crt_struct_Rec".to_string(), "rec".to_string())));
    assert_eq!(d.total_num_words(), Ok(10));
    let anonymous = packed_block(&fields, None);
    assert_eq!(anonymous.block_identifier, None);
}

#[test]
fn stage_decides_hit_attribute_fragments() {
    assert_eq!(hit_attribute_fragments(true, true), (UnpackMode::DeclareOnly, true));
    assert_eq!(hit_attribute_fragments(false, true), (UnpackMode::Unpack, false));
    assert_eq!(hit_attribute_fragments(true, false), (UnpackMode::Nothing, false));
    assert_eq!(hit_attribute_fragments(false, false), (UnpackMode::Nothing, false));
}
