//! The ray-tracing built-in variables that the entry function receives as
//! parameters, and the GLSL types that the lowering handles.
use crate::text::str_eq;
use vstd::prelude::*;

verus! {

/// The GLSL types that the lowering packs or passes.
#[derive(Clone, Copy, Debug, PartialEq, Eq, Structural)]
pub enum GlslType {
    Bool,
    Int,
    UInt,
    Float,
    IVec2,
    IVec3,
    IVec4,
    UVec2,
    UVec3,
    UVec4,
    Vec2,
    Vec3,
    Vec4,
    Mat4,
    Mat43,
    Mat34,
}

/// A ray-tracing built-in that the lowered entry function takes as a
/// parameter. The order of the variants gives each its numeric tag.
#[allow(non_camel_case_types)]
#[derive(Clone, Copy, Debug, PartialEq, Eq, Hash, Structural)]
pub enum GlGlobalVarirableAsParam {
    gl_PrimitiveID,
    gl_InstanceID,
    gl_InstanceCustomIndexEXT,
    gl_GeometryIndexEXT,
    gl_WorldRayOriginEXT,
    gl_WorldRayDirectionEXT,
    gl_ObjectRayOriginEXT,
    gl_ObjectRayDirectionEXT,
    gl_RayTminEXT,
    gl_RayTmaxEXT,
    gl_IncomingRayFlagsEXT,
    gl_HitTEXT,
    gl_HitKindEXT,
    gl_ObjectToWorldEXT,
    gl_WorldToObjectEXT,
    gl_WorldToObject3x4EXT,
    gl_ObjectToWorld3x4EXT,
}

/// Every built-in, in tag order.
pub open spec fn all_builtins() -> Seq<GlGlobalVarirableAsParam> {
    seq![
        GlGlobalVarirableAsParam::gl_PrimitiveID,
        GlGlobalVarirableAsParam::gl_InstanceID,
        GlGlobalVarirableAsParam::gl_InstanceCustomIndexEXT,
        GlGlobalVarirableAsParam::gl_GeometryIndexEXT,
        GlGlobalVarirableAsParam::gl_WorldRayOriginEXT,
        GlGlobalVarirableAsParam::gl_WorldRayDirectionEXT,
        GlGlobalVarirableAsParam::gl_ObjectRayOriginEXT,
        GlGlobalVarirableAsParam::gl_ObjectRayDirectionEXT,
        GlGlobalVarirableAsParam::gl_RayTminEXT,
        GlGlobalVarirableAsParam::gl_RayTmaxEXT,
        GlGlobalVarirableAsParam::gl_IncomingRayFlagsEXT,
        GlGlobalVarirableAsParam::gl_HitTEXT,
        GlGlobalVarirableAsParam::gl_HitKindEXT,
        GlGlobalVarirableAsParam::gl_ObjectToWorldEXT,
        GlGlobalVarirableAsParam::gl_WorldToObjectEXT,
        GlGlobalVarirableAsParam::gl_WorldToObject3x4EXT,
        GlGlobalVarirableAsParam::gl_ObjectToWorld3x4EXT,
    ]
}

/// The part of the built-in's name after `gl_`.
pub open spec fn builtin_suffix(v: GlGlobalVarirableAsParam) -> Seq<char> {
    match v {
        GlGlobalVarirableAsParam::gl_PrimitiveID => "PrimitiveID"@,
        GlGlobalVarirableAsParam::gl_InstanceID => "InstanceID"@,
        GlGlobalVarirableAsParam::gl_InstanceCustomIndexEXT => "InstanceCustomIndexEXT"@,
        GlGlobalVarirableAsParam::gl_GeometryIndexEXT => "GeometryIndexEXT"@,
        GlGlobalVarirableAsParam::gl_WorldRayOriginEXT => "WorldRayOriginEXT"@,
        GlGlobalVarirableAsParam::gl_WorldRayDirectionEXT => "WorldRayDirectionEXT"@,
        GlGlobalVarirableAsParam::gl_ObjectRayOriginEXT => "ObjectRayOriginEXT"@,
        GlGlobalVarirableAsParam::gl_ObjectRayDirectionEXT => "ObjectRayDirectionEXT"@,
        GlGlobalVarirableAsParam::gl_RayTminEXT => "RayTminEXT"@,
        GlGlobalVarirableAsParam::gl_RayTmaxEXT => "RayTmaxEXT"@,
        GlGlobalVarirableAsParam::gl_IncomingRayFlagsEXT => "IncomingRayFlagsEXT"@,
        GlGlobalVarirableAsParam::gl_HitTEXT => "HitTEXT"@,
        GlGlobalVarirableAsParam::gl_HitKindEXT => "HitKindEXT"@,
        GlGlobalVarirableAsParam::gl_ObjectToWorldEXT => "ObjectToWorldEXT"@,
        GlGlobalVarirableAsParam::gl_WorldToObjectEXT => "WorldToObjectEXT"@,
        GlGlobalVarirableAsParam::gl_WorldToObject3x4EXT => "WorldToObject3x4EXT"@,
        GlGlobalVarirableAsParam::gl_ObjectToWorld3x4EXT => "ObjectToWorld3x4EXT"@,
    }
}

/// The built-in's GLSL name.
pub open spec fn builtin_name(v: GlGlobalVarirableAsParam) -> Seq<char> {
    "gl_"@ + builtin_suffix(v)
}

/// The name of the parameter that stands for the built-in: `gl_` replaced by
/// the library's prefix.
pub open spec fn builtin_param_name(v: GlGlobalVarirableAsParam) -> Seq<char> {
    "_crt_"@ + builtin_suffix(v)
}

pub open spec fn builtin_type(v: GlGlobalVarirableAsParam) -> GlslType {
    match v {
        GlGlobalVarirableAsParam::gl_PrimitiveID
        | GlGlobalVarirableAsParam::gl_InstanceID
        | GlGlobalVarirableAsParam::gl_InstanceCustomIndexEXT
        | GlGlobalVarirableAsParam::gl_GeometryIndexEXT => GlslType::Int,
        GlGlobalVarirableAsParam::gl_WorldRayOriginEXT
        | GlGlobalVarirableAsParam::gl_WorldRayDirectionEXT
        | GlGlobalVarirableAsParam::gl_ObjectRayOriginEXT
        | GlGlobalVarirableAsParam::gl_ObjectRayDirectionEXT => GlslType::Vec3,
        GlGlobalVarirableAsParam::gl_RayTminEXT
        | GlGlobalVarirableAsParam::gl_RayTmaxEXT
        | GlGlobalVarirableAsParam::gl_HitTEXT => GlslType::Float,
        GlGlobalVarirableAsParam::gl_IncomingRayFlagsEXT
        | GlGlobalVarirableAsParam::gl_HitKindEXT => GlslType::UInt,
        GlGlobalVarirableAsParam::gl_ObjectToWorldEXT
        | GlGlobalVarirableAsParam::gl_WorldToObjectEXT => GlslType::Mat43,
        GlGlobalVarirableAsParam::gl_WorldToObject3x4EXT
        | GlGlobalVarirableAsParam::gl_ObjectToWorld3x4EXT => GlslType::Mat34,
    }
}

impl GlGlobalVarirableAsParam {
    /// The numeric tag: the variant's position in declaration order.
    pub fn tag(&self) -> (r: u32)
        ensures
            r < all_builtins().len(),
            all_builtins()[r as int] == *self,
    {
        match self {
            GlGlobalVarirableAsParam::gl_PrimitiveID => 0,
            GlGlobalVarirableAsParam::gl_InstanceID => 1,
            GlGlobalVarirableAsParam::gl_InstanceCustomIndexEXT => 2,
            GlGlobalVarirableAsParam::gl_GeometryIndexEXT => 3,
            GlGlobalVarirableAsParam::gl_WorldRayOriginEXT => 4,
            GlGlobalVarirableAsParam::gl_WorldRayDirectionEXT => 5,
            GlGlobalVarirableAsParam::gl_ObjectRayOriginEXT => 6,
            GlGlobalVarirableAsParam::gl_ObjectRayDirectionEXT => 7,
            GlGlobalVarirableAsParam::gl_RayTminEXT => 8,
            GlGlobalVarirableAsParam::gl_RayTmaxEXT => 9,
            GlGlobalVarirableAsParam::gl_IncomingRayFlagsEXT => 10,
            GlGlobalVarirableAsParam::gl_HitTEXT => 11,
            GlGlobalVarirableAsParam::gl_HitKindEXT => 12,
            GlGlobalVarirableAsParam::gl_ObjectToWorldEXT => 13,
            GlGlobalVarirableAsParam::gl_WorldToObjectEXT => 14,
            GlGlobalVarirableAsParam::gl_WorldToObject3x4EXT => 15,
            GlGlobalVarirableAsParam::gl_ObjectToWorld3x4EXT => 16,
        }
    }

    /// The built-in with numeric tag `t`.
    pub fn from_tag(t: u32) -> (r: Option<GlGlobalVarirableAsParam>)
        ensures
            t < all_builtins().len() ==> r == Some(all_builtins()[t as int]),
            t >= all_builtins().len() ==> r is None,
    {
        match t {
            0 => Some(GlGlobalVarirableAsParam::gl_PrimitiveID),
            1 => Some(GlGlobalVarirableAsParam::gl_InstanceID),
            2 => Some(GlGlobalVarirableAsParam::gl_InstanceCustomIndexEXT),
            3 => Some(GlGlobalVarirableAsParam::gl_GeometryIndexEXT),
            4 => Some(GlGlobalVarirableAsParam::gl_WorldRayOriginEXT),
            5 => Some(GlGlobalVarirableAsParam::gl_WorldRayDirectionEXT),
            6 => Some(GlGlobalVarirableAsParam::gl_ObjectRayOriginEXT),
            7 => Some(GlGlobalVarirableAsParam::gl_ObjectRayDirectionEXT),
            8 => Some(GlGlobalVarirableAsParam::gl_RayTminEXT),
            9 => Some(GlGlobalVarirableAsParam::gl_RayTmaxEXT),
            10 => Some(GlGlobalVarirableAsParam::gl_IncomingRayFlagsEXT),
            11 => Some(GlGlobalVarirableAsParam::gl_HitTEXT),
            12 => Some(GlGlobalVarirableAsParam::gl_HitKindEXT),
            13 => Some(GlGlobalVarirableAsParam::gl_ObjectToWorldEXT),
            14 => Some(GlGlobalVarirableAsParam::gl_WorldToObjectEXT),
            15 => Some(GlGlobalVarirableAsParam::gl_WorldToObject3x4EXT),
            16 => Some(GlGlobalVarirableAsParam::gl_ObjectToWorld3x4EXT),
            _ => None,
        }
    }

    fn suffix(&self) -> (r: &'static str)
        ensures
            r@ == builtin_suffix(*self),
    {
        match self {
            GlGlobalVarirableAsParam::gl_PrimitiveID => "PrimitiveID",
            GlGlobalVarirableAsParam::gl_InstanceID => "InstanceID",
            GlGlobalVarirableAsParam::gl_InstanceCustomIndexEXT => "InstanceCustomIndexEXT",
            GlGlobalVarirableAsParam::gl_GeometryIndexEXT => "GeometryIndexEXT",
            GlGlobalVarirableAsParam::gl_WorldRayOriginEXT => "WorldRayOriginEXT",
            GlGlobalVarirableAsParam::gl_WorldRayDirectionEXT => "WorldRayDirectionEXT",
            GlGlobalVarirableAsParam::gl_ObjectRayOriginEXT => "ObjectRayOriginEXT",
            GlGlobalVarirableAsParam::gl_ObjectRayDirectionEXT => "ObjectRayDirectionEXT",
            GlGlobalVarirableAsParam::gl_RayTminEXT => "RayTminEXT",
            GlGlobalVarirableAsParam::gl_RayTmaxEXT => "RayTmaxEXT",
            GlGlobalVarirableAsParam::gl_IncomingRayFlagsEXT => "IncomingRayFlagsEXT",
            GlGlobalVarirableAsParam::gl_HitTEXT => "HitTEXT",
            GlGlobalVarirableAsParam::gl_HitKindEXT => "HitKindEXT",
            GlGlobalVarirableAsParam::gl_ObjectToWorldEXT => "ObjectToWorldEXT",
            GlGlobalVarirableAsParam::gl_WorldToObjectEXT => "WorldToObjectEXT",
            GlGlobalVarirableAsParam::gl_WorldToObject3x4EXT => "WorldToObject3x4EXT",
            GlGlobalVarirableAsParam::gl_ObjectToWorld3x4EXT => "ObjectToWorld3x4EXT",
        }
    }

    /// The built-in's GLSL name.
    pub fn name(&self) -> (r: String)
        ensures
            r@ == builtin_name(*self),
    {
        String::from_str("gl_").concat(self.suffix())
    }

    /// The name of the parameter that stands for the built-in.
    pub fn param_name(&self) -> (r: String)
        ensures
            r@ == builtin_param_name(*self),
    {
        String::from_str("_crt_").concat(self.suffix())
    }

    /// The parameter's type.
    pub fn param_type(&self) -> (r: GlslType)
        ensures
            r == builtin_type(*self),
    {
        match self {
            GlGlobalVarirableAsParam::gl_PrimitiveID
            | GlGlobalVarirableAsParam::gl_InstanceID
            | GlGlobalVarirableAsParam::gl_InstanceCustomIndexEXT
            | GlGlobalVarirableAsParam::gl_GeometryIndexEXT => GlslType::Int,
            GlGlobalVarirableAsParam::gl_WorldRayOriginEXT
            | GlGlobalVarirableAsParam::gl_WorldRayDirectionEXT
            | GlGlobalVarirableAsParam::gl_ObjectRayOriginEXT
            | GlGlobalVarirableAsParam::gl_ObjectRayDirectionEXT => GlslType::Vec3,
            GlGlobalVarirableAsParam::gl_RayTminEXT
            | GlGlobalVarirableAsParam::gl_RayTmaxEXT
            | GlGlobalVarirableAsParam::gl_HitTEXT => GlslType::Float,
            GlGlobalVarirableAsParam::gl_IncomingRayFlagsEXT
            | GlGlobalVarirableAsParam::gl_HitKindEXT => GlslType::UInt,
            GlGlobalVarirableAsParam::gl_ObjectToWorldEXT
            | GlGlobalVarirableAsParam::gl_WorldToObjectEXT => GlslType::Mat43,
            GlGlobalVarirableAsParam::gl_WorldToObject3x4EXT
            | GlGlobalVarirableAsParam::gl_ObjectToWorld3x4EXT => GlslType::Mat34,
        }
    }

    /// The built-in named `ident`, if any.
    pub fn from_name(ident: &str) -> (r: Option<GlGlobalVarirableAsParam>)
        ensures
            r matches Some(v) ==> builtin_name(v) == ident@,
            r is None ==> forall|v: GlGlobalVarirableAsParam| builtin_name(v) != ident@,
    {
        let mut t: u32 = 0;
        while t < 17
            invariant
                t <= 17,
                all_builtins().len() == 17,
                forall|k: int| 0 <= k < t ==> builtin_name(#[trigger] all_builtins()[k]) != ident@,
            decreases 17 - t,
        {
            let v = match GlGlobalVarirableAsParam::from_tag(t) {
                Some(v) => v,
                None => {
                    return None;
                },
            };
            if str_eq(v.name().as_str(), ident) {
                return Some(v);
            }
            t = t + 1;
        }
        proof {
            assert forall|v: GlGlobalVarirableAsParam| builtin_name(v) != ident@ by {
                let k = match v {
                    GlGlobalVarirableAsParam::gl_PrimitiveID => 0int,
                    GlGlobalVarirableAsParam::gl_InstanceID => 1,
                    GlGlobalVarirableAsParam::gl_InstanceCustomIndexEXT => 2,
                    GlGlobalVarirableAsParam::gl_GeometryIndexEXT => 3,
                    GlGlobalVarirableAsParam::gl_WorldRayOriginEXT => 4,
                    GlGlobalVarirableAsParam::gl_WorldRayDirectionEXT => 5,
                    GlGlobalVarirableAsParam::gl_ObjectRayOriginEXT => 6,
                    GlGlobalVarirableAsParam::gl_ObjectRayDirectionEXT => 7,
                    GlGlobalVarirableAsParam::gl_RayTminEXT => 8,
                    GlGlobalVarirableAsParam::gl_RayTmaxEXT => 9,
                    GlGlobalVarirableAsParam::gl_IncomingRayFlagsEXT => 10,
                    GlGlobalVarirableAsParam::gl_HitTEXT => 11,
                    GlGlobalVarirableAsParam::gl_HitKindEXT => 12,
                    GlGlobalVarirableAsParam::gl_ObjectToWorldEXT => 13,
                    GlGlobalVarirableAsParam::gl_WorldToObjectEXT => 14,
                    GlGlobalVarirableAsParam::gl_WorldToObject3x4EXT => 15,
                    GlGlobalVarirableAsParam::gl_ObjectToWorld3x4EXT => 16,
                };
                assert(all_builtins()[k] == v);
            }
        }
        None
    }
}

} // verus!
