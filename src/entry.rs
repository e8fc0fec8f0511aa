//! The lowered entry point: its parameter list and the names it forwards.
use crate::builtins::{builtin_param_name, builtin_type, GlGlobalVarirableAsParam, GlslType};
use crate::packing::{PackedData, PackedVariable};
use crate::text::{decimal, push_decimal, str_eq};
use vstd::prelude::*;

verus! {

/// The shader stages whose lowering differs.
#[derive(Clone, Copy, Debug, PartialEq, Eq, Structural)]
pub enum ShaderStage {
    /// `rint`
    Intersection,
    /// `rahit`
    AnyHit,
    /// Any other stage, such as `rchit` or `rmiss`.
    Other,
}

pub open spec fn stage_of(name: Seq<char>) -> ShaderStage {
    if name == "rint"@ {
        ShaderStage::Intersection
    } else if name == "rahit"@ {
        ShaderStage::AnyHit
    } else {
        ShaderStage::Other
    }
}

impl ShaderStage {
    /// The stage named `name`.
    pub fn from_name(name: &str) -> (r: ShaderStage)
        ensures
            r == stage_of(name@),
    {
        if str_eq(name, "rint") {
            ShaderStage::Intersection
        } else if str_eq(name, "rahit") {
            ShaderStage::AnyHit
        } else {
            ShaderStage::Other
        }
    }
}

#[derive(Clone, Copy, Debug, PartialEq, Eq, Structural)]
pub enum ParamQualifier {
    Unqualified,
    Out,
    InOut,
}

/// A parameter's type: a built-in GLSL type or a struct by name.
#[derive(Clone, Debug)]
pub enum ParamType {
    Glsl(GlslType),
    Struct(String),
}

/// One parameter of the lowered entry point.
#[derive(Clone, Debug)]
pub struct FunctionParam {
    pub name: String,
    pub qualifier: ParamQualifier,
    pub ty: ParamType,
    pub dims: Option<Vec<u32>>,
}

/// Parameter holding the shader-record word offset.
pub const PARAM_SHADER_RECORD_WORD_OFFSET: &'static str = "_crt_sr_wd_offset";

/// In-out parameter through which an any-hit shader reports.
pub const INOUT_PARAM_HIT_REPORT: &'static str = "_crt_hit_report";

/// Out parameter of an intersection shader's candidate hit distance.
pub const OUT_PARAM_POTENTIAL_HIT: &'static str = "_crt_potential_hit_t";

/// Prefix of the struct type that a named block is lowered to.
pub const BLOCK_IDENTIFIER_STRUCT_PREFIX: &'static str = "_crt_struct_";

/// `p` is an unqualified scalar parameter, or qualified as given, of type `t`
/// and name `n`, without array dimensions.
pub open spec fn plain_param(p: FunctionParam, n: Seq<char>, q: ParamQualifier, t: GlslType) -> bool {
    &&& p.name@ == n
    &&& p.qualifier == q
    &&& p.ty == ParamType::Glsl(t)
    &&& p.dims is None
}

/// `p` passes packed variable `v` with qualifier `q`.
pub open spec fn variable_param(p: FunctionParam, v: PackedVariable, q: ParamQualifier) -> bool {
    &&& p.name@ == v.name@
    &&& p.qualifier == q
    &&& p.ty == ParamType::Glsl(v.ty)
    &&& match (p.dims, v.dims) {
        (None, None) => true,
        (Some(a), Some(b)) => a@ == b@,
        _ => false,
    }
}

/// Number of hit-attribute parameters.
pub open spec fn hit_param_count(ha: Option<PackedData>) -> int {
    match ha {
        None => 0,
        Some(d) => match d.block_identifier {
            Some(_) => 1,
            None => d.variables.len() as int,
        },
    }
}

/// `ps` is the parameter list of the lowered entry point: hit attributes, the
/// shader-record word offset, the referenced built-ins in order, and the
/// stage's extra parameter.
pub open spec fn entry_params_ok(
    ps: Seq<FunctionParam>,
    stage: ShaderStage,
    ha: Option<PackedData>,
    builtins: Seq<GlGlobalVarirableAsParam>,
) -> bool {
    let h = hit_param_count(ha);
    let hq = if stage == ShaderStage::Intersection {
        ParamQualifier::Out
    } else {
        ParamQualifier::Unqualified
    };
    let b = h + 1 + builtins.len();
    &&& ps.len() == b + if stage == ShaderStage::Other { 0int } else { 1int }
    &&& match ha {
        None => true,
        Some(d) => match d.block_identifier {
            Some((struct_name, ident)) => {
                &&& ps[0].name@ == ident@
                &&& ps[0].qualifier == hq
                &&& ps[0].ty matches ParamType::Struct(n) && n@ == struct_name@
                &&& ps[0].dims is None
            },
            None => forall|i: int|
                0 <= i < h ==> variable_param(#[trigger] ps[i], d.variables@[i], hq),
        },
    }
    &&& plain_param(ps[h], PARAM_SHADER_RECORD_WORD_OFFSET@, ParamQualifier::Unqualified, GlslType::UInt)
    &&& forall|j: int|
        0 <= j < builtins.len() ==> plain_param(
            #[trigger] ps[h + 1 + j],
            builtin_param_name(builtins[j]),
            ParamQualifier::Unqualified,
            builtin_type(builtins[j]),
        )
    &&& stage == ShaderStage::AnyHit ==> plain_param(
        ps[b],
        INOUT_PARAM_HIT_REPORT@,
        ParamQualifier::InOut,
        GlslType::UInt,
    )
    &&& stage == ShaderStage::Intersection ==> plain_param(
        ps[b],
        OUT_PARAM_POTENTIAL_HIT@,
        ParamQualifier::Out,
        GlslType::Float,
    )
}

fn copy_dims(d: &Option<Vec<u32>>) -> (r: Option<Vec<u32>>)
    ensures
        match (r, *d) {
            (None, None) => true,
            (Some(a), Some(b)) => a@ == b@,
            _ => false,
        },
{
    match d {
        None => None,
        Some(v) => {
            let mut out: Vec<u32> = Vec::new();
            let mut i: usize = 0;
            while i < v.len()
                invariant
                    i <= v.len(),
                    out@ == v@.subrange(0, i as int),
                decreases v.len() - i,
            {
                out.push(v[i]);
                i = i + 1;
                assert(out@ =~= v@.subrange(0, i as int));
            }
            assert(out@ =~= v@);
            Some(out)
        },
    }
}

fn copy_string(s: &String) -> (r: String)
    ensures
        r@ == s@,
{
    String::from_str(s.as_str())
}

fn plain(name: &str, qualifier: ParamQualifier, ty: GlslType) -> (r: FunctionParam)
    ensures
        plain_param(r, name@, qualifier, ty),
{
    FunctionParam { name: String::from_str(name), qualifier, ty: ParamType::Glsl(ty), dims: None }
}

/// The parameters that the lowered entry point gains, in order.
pub fn entry_point_params(
    stage: ShaderStage,
    hit_attributes: &Option<PackedData>,
    builtins: &Vec<GlGlobalVarirableAsParam>,
) -> (r: Vec<FunctionParam>)
    ensures
        entry_params_ok(r@, stage, *hit_attributes, builtins@),
{
    let hq = match stage {
        ShaderStage::Intersection => ParamQualifier::Out,
        _ => ParamQualifier::Unqualified,
    };
    let mut ps: Vec<FunctionParam> = Vec::new();
    match hit_attributes {
        None => {},
        Some(d) => match &d.block_identifier {
            Some((struct_name, ident)) => {
                ps.push(
                    FunctionParam {
                        name: copy_string(ident),
                        qualifier: hq,
                        ty: ParamType::Struct(copy_string(struct_name)),
                        dims: None,
                    },
                );
            },
            None => {
                let mut i: usize = 0;
                while i < d.variables.len()
                    invariant
                        i <= d.variables.len(),
                        ps.len() == i,
                        forall|j: int|
                            0 <= j < i ==> variable_param(#[trigger] ps@[j], d.variables@[j], hq),
                    decreases d.variables.len() - i,
                {
                    let v = &d.variables[i];
                    ps.push(
                        FunctionParam {
                            name: copy_string(&v.name),
                            qualifier: hq,
                            ty: ParamType::Glsl(v.ty),
                            dims: copy_dims(&v.dims),
                        },
                    );
                    i = i + 1;
                }
            },
        },
    }
    let ghost h = ps.len() as int;
    assert(h == hit_param_count(*hit_attributes));
    ps.push(plain(PARAM_SHADER_RECORD_WORD_OFFSET, ParamQualifier::Unqualified, GlslType::UInt));
    let ghost pre = ps@;
    let mut j: usize = 0;
    while j < builtins.len()
        invariant
            j <= builtins.len(),
            ps.len() == h + 1 + j,
            forall|k: int| 0 <= k < h + 1 ==> #[trigger] ps@[k] == pre[k],
            pre.len() == h + 1,
            forall|k: int|
                0 <= k < j ==> plain_param(
                    #[trigger] ps@[h + 1 + k],
                    builtin_param_name(builtins@[k]),
                    ParamQualifier::Unqualified,
                    builtin_type(builtins@[k]),
                ),
        decreases builtins.len() - j,
    {
        let v = builtins[j];
        let p = FunctionParam {
            name: v.param_name(),
            qualifier: ParamQualifier::Unqualified,
            ty: ParamType::Glsl(v.param_type()),
            dims: None,
        };
        assert(plain_param(p, builtin_param_name(builtins@[j as int]), ParamQualifier::Unqualified, builtin_type(builtins@[j as int])));
        let ghost before = ps@;
        ps.push(p);
        assert forall|k: int| 0 <= k < j + 1 implies plain_param(
                    #[trigger] ps@[h + 1 + k],
                    builtin_param_name(builtins@[k]),
                    ParamQualifier::Unqualified,
                    builtin_type(builtins@[k]),
                ) by {
            if k < j {
                assert(ps@[h + 1 + k] == before[h + 1 + k]);
            }
        }
        j = j + 1;
    }
    let ghost mid = ps@;
    match stage {
        ShaderStage::AnyHit => {
            ps.push(plain(INOUT_PARAM_HIT_REPORT, ParamQualifier::InOut, GlslType::UInt));
        },
        ShaderStage::Intersection => {
            ps.push(plain(OUT_PARAM_POTENTIAL_HIT, ParamQualifier::Out, GlslType::Float));
        },
        ShaderStage::Other => {},
    }
    proof {
        assert forall|k: int| 0 <= k < mid.len() implies #[trigger] ps@[k] == mid[k] by {}
        assert(ps@[h] == pre[h]);
        assert forall|j: int| 0 <= j < builtins.len() implies plain_param(
            #[trigger] ps@[h + 1 + j],
            builtin_param_name(builtins@[j]),
            ParamQualifier::Unqualified,
            builtin_type(builtins@[j]),
        ) by {
            assert(ps@[h + 1 + j] == mid[h + 1 + j]);
        }
    }
    ps
}

/// The arguments of a call that forwards each parameter by name.
pub fn invocation_args(params: &Vec<FunctionParam>) -> (r: Vec<String>)
    ensures
        r.len() == params.len(),
        forall|i: int| 0 <= i < r.len() ==> (#[trigger] r@[i])@ == params@[i].name@,
{
    let mut out: Vec<String> = Vec::new();
    let mut i: usize = 0;
    while i < params.len()
        invariant
            i <= params.len(),
            out.len() == i,
            forall|k: int| 0 <= k < i ==> (#[trigger] out@[k])@ == params@[k].name@,
        decreases params.len() - i,
    {
        out.push(copy_string(&params[i].name));
        i = i + 1;
    }
    out
}

/// The name that a ray payload at `location` is given.
pub open spec fn payload_name(location: u32) -> Seq<char> {
    "_crt_ray_payload_loc_"@ + decimal(location as nat)
}

pub fn ray_payload_canonical_name(location: u32) -> (r: String)
    ensures
        r@ == payload_name(location),
{
    let mut s = String::from_str("_crt_ray_payload_loc_");
    push_decimal(&mut s, location);
    s
}

/// The struct type that a block named `block` is lowered to.
pub fn block_struct_name(block: &str) -> (r: String)
    ensures
        r@ == BLOCK_IDENTIFIER_STRUCT_PREFIX@ + block@,
{
    String::from_str(BLOCK_IDENTIFIER_STRUCT_PREFIX).concat(block)
}

} // verus!
