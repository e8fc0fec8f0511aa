//! The decisions of the shader lowering: what becomes of each top-level
//! declaration, which identifiers are renamed, and which built-ins the entry
//! function refers to.
use crate::builtins::{builtin_name, builtin_param_name, builtin_suffix, GlGlobalVarirableAsParam};
use crate::entry::{payload_name, ray_payload_canonical_name};
use crate::packing::PackedData;
use crate::text::str_eq;
use vstd::prelude::*;

verus! {

/// The storage qualifier of a top-level declaration, as far as the lowering
/// cares.
#[derive(Clone, Copy, Debug, PartialEq, Eq, Structural)]
pub enum StorageKind {
    HitAttribute,
    RayPayload,
    RayPayloadIn,
    Other,
}

/// What the lowering reads of a top-level declaration.
#[derive(Clone, Copy, Debug)]
pub struct DeclarationFacts {
    /// An interface block, as opposed to a variable.
    pub is_block: bool,
    /// Whether the declaration has a type qualifier at all.
    pub qualified: bool,
    pub storage: StorageKind,
    /// A layout qualifier names `shaderRecordEXT`.
    pub shader_record_layout: bool,
    /// The variable's type is `accelerationStructureEXT`.
    pub acceleration_structure: bool,
    /// The value of a `location` layout qualifier, if one has a constant value.
    pub location: Option<u32>,
}

/// What becomes of a top-level declaration.
#[derive(Clone, Copy, Debug, PartialEq, Eq, Structural)]
pub enum DeclarationAction {
    Keep,
    /// Removed; its variable is the hit attribute.
    TakeHitAttributeVariable,
    /// Removed; its fields are the hit attributes.
    TakeHitAttributeBlock,
    /// Removed, or replaced by its struct when the block is named; its fields
    /// are the shader-record data.
    TakeShaderRecordBlock,
    /// Turned into a block of the same qualifier holding one `uvec2`.
    LowerAccelerationStructure,
    /// Removed; the payload is passed in under its canonical name.
    RemoveIncomingPayload(u32),
    /// Renamed to its canonical name, qualifiers dropped.
    RenamePayload(u32),
}

/// Why the lowering refused a shader.
#[derive(Clone, Copy, Debug, PartialEq, Eq, Structural)]
pub enum AnalysisError {
    /// A second hit-attribute declaration.
    DuplicateHitAttributes,
    /// A second shader-record block.
    DuplicateShaderRecord,
    /// A ray payload without a constant `location`.
    PayloadWithoutLocation,
}

/// The action for a declaration, in the order the lowering tests: hit
/// attribute, acceleration structure, ray payload for variables; shader
/// record, hit attribute for blocks.
pub open spec fn action_of(f: DeclarationFacts) -> Result<DeclarationAction, AnalysisError> {
    if !f.qualified {
        Ok(DeclarationAction::Keep)
    } else if f.is_block {
        if f.shader_record_layout {
            Ok(DeclarationAction::TakeShaderRecordBlock)
        } else if f.storage == StorageKind::HitAttribute {
            Ok(DeclarationAction::TakeHitAttributeBlock)
        } else {
            Ok(DeclarationAction::Keep)
        }
    } else if f.storage == StorageKind::HitAttribute {
        Ok(DeclarationAction::TakeHitAttributeVariable)
    } else if f.acceleration_structure {
        Ok(DeclarationAction::LowerAccelerationStructure)
    } else if f.storage == StorageKind::RayPayload || f.storage == StorageKind::RayPayloadIn {
        match f.location {
            None => Err(AnalysisError::PayloadWithoutLocation),
            Some(l) => if f.storage == StorageKind::RayPayload {
                Ok(DeclarationAction::RenamePayload(l))
            } else {
                Ok(DeclarationAction::RemoveIncomingPayload(l))
            },
        }
    } else {
        Ok(DeclarationAction::Keep)
    }
}

pub fn classify_declaration(f: &DeclarationFacts) -> (r: Result<DeclarationAction, AnalysisError>)
    ensures
        r == action_of(*f),
{
    if !f.qualified {
        return Ok(DeclarationAction::Keep);
    }
    if f.is_block {
        if f.shader_record_layout {
            Ok(DeclarationAction::TakeShaderRecordBlock)
        } else if matches!(f.storage, StorageKind::HitAttribute) {
            Ok(DeclarationAction::TakeHitAttributeBlock)
        } else {
            Ok(DeclarationAction::Keep)
        }
    } else if matches!(f.storage, StorageKind::HitAttribute) {
        Ok(DeclarationAction::TakeHitAttributeVariable)
    } else if f.acceleration_structure {
        Ok(DeclarationAction::LowerAccelerationStructure)
    } else {
        match f.storage {
            StorageKind::RayPayload => match f.location {
                None => Err(AnalysisError::PayloadWithoutLocation),
                Some(l) => Ok(DeclarationAction::RenamePayload(l)),
            },
            StorageKind::RayPayloadIn => match f.location {
                None => Err(AnalysisError::PayloadWithoutLocation),
                Some(l) => Ok(DeclarationAction::RemoveIncomingPayload(l)),
            },
            _ => Ok(DeclarationAction::Keep),
        }
    }
}

/// The location of the last payload recorded under `ident`.
pub open spec fn payload_lookup(entries: Seq<(Seq<char>, u32)>, ident: Seq<char>) -> Option<u32>
    decreases entries.len(),
{
    if entries.len() == 0 {
        None
    } else if entries.last().0 == ident {
        Some(entries.last().1)
    } else {
        payload_lookup(entries.drop_last(), ident)
    }
}

/// What the lowering has learnt from the declarations so far.
pub struct ShaderAnalysis {
    pub max_bind_set_number: i32,
    pub hit_attributes: Option<PackedData>,
    pub shader_record_data: Option<PackedData>,
    /// Payload variables and their locations, oldest first.
    pub payloads: Vec<(String, u32)>,
}

impl ShaderAnalysis {
    /// The recorded payloads, oldest first.
    pub open spec fn payload_entries(&self) -> Seq<(Seq<char>, u32)> {
        self.payloads@.map_values(|e: (String, u32)| (e.0@, e.1))
    }

    pub fn new() -> (r: ShaderAnalysis)
        ensures
            r.max_bind_set_number == -1,
            r.hit_attributes is None,
            r.shader_record_data is None,
            r.payload_entries() == Seq::<(Seq<char>, u32)>::empty(),
    {
        let r = ShaderAnalysis {
            max_bind_set_number: -1,
            hit_attributes: None,
            shader_record_data: None,
            payloads: Vec::new(),
        };
        assert(r.payload_entries() =~= Seq::<(Seq<char>, u32)>::empty());
        r
    }

    /// Takes the `set` number of a declaration's layout into the maximum.
    pub fn note_bind_set(&mut self, set: Option<i32>)
        ensures
            final(self).hit_attributes == old(self).hit_attributes,
            final(self).shader_record_data == old(self).shader_record_data,
            final(self).payload_entries() == old(self).payload_entries(),
            final(self).max_bind_set_number == match set {
                Some(s) => if s > old(self).max_bind_set_number {
                    s
                } else {
                    old(self).max_bind_set_number
                },
                None => old(self).max_bind_set_number,
            },
    {
        if let Some(s) = set {
            if s > self.max_bind_set_number {
                self.max_bind_set_number = s;
            }
        }
    }

    /// Records the hit attributes; there may be only one declaration of them.
    pub fn set_hit_attributes(&mut self, data: PackedData) -> (r: Result<(), AnalysisError>)
        ensures
            old(self).hit_attributes is Some <==> r is Err,
            r is Err ==> r == Err::<(), AnalysisError>(AnalysisError::DuplicateHitAttributes),
            final(self).hit_attributes == if old(self).hit_attributes is Some {
                old(self).hit_attributes
            } else {
                Some(data)
            },
            final(self).shader_record_data == old(self).shader_record_data,
            final(self).max_bind_set_number == old(self).max_bind_set_number,
            final(self).payload_entries() == old(self).payload_entries(),
    {
        if self.hit_attributes.is_some() {
            return Err(AnalysisError::DuplicateHitAttributes);
        }
        self.hit_attributes = Some(data);
        Ok(())
    }

    /// Records the shader-record data; there may be only one such block.
    pub fn set_shader_record(&mut self, data: PackedData) -> (r: Result<(), AnalysisError>)
        ensures
            old(self).shader_record_data is Some <==> r is Err,
            r is Err ==> r == Err::<(), AnalysisError>(AnalysisError::DuplicateShaderRecord),
            final(self).shader_record_data == if old(self).shader_record_data is Some {
                old(self).shader_record_data
            } else {
                Some(data)
            },
            final(self).hit_attributes == old(self).hit_attributes,
            final(self).max_bind_set_number == old(self).max_bind_set_number,
            final(self).payload_entries() == old(self).payload_entries(),
    {
        if self.shader_record_data.is_some() {
            return Err(AnalysisError::DuplicateShaderRecord);
        }
        self.shader_record_data = Some(data);
        Ok(())
    }

    /// Records that payload variable `ident` lives at `location`.
    pub fn record_ray_payload(&mut self, ident: String, location: u32)
        ensures
            final(self).payload_entries() == old(self).payload_entries().push((ident@, location)),
            final(self).hit_attributes == old(self).hit_attributes,
            final(self).shader_record_data == old(self).shader_record_data,
            final(self).max_bind_set_number == old(self).max_bind_set_number,
    {
        let ghost iv = ident@;
        self.payloads.push((ident, location));
        assert(self.payload_entries() =~= old(self).payload_entries().push((iv, location)));
    }

    /// The canonical name that replaces identifier `ident`, if it names a
    /// recorded payload.
    pub fn rename_payload_identifier(&self, ident: &str) -> (r: Option<String>)
        ensures
            match payload_lookup(self.payload_entries(), ident@) {
                None => r is None,
                Some(l) => r matches Some(n) && n@ == payload_name(l),
            },
    {
        let mut i: usize = self.payloads.len();
        assert(self.payload_entries().subrange(0, i as int) =~= self.payload_entries());
        while i > 0
            invariant
                i <= self.payloads.len(),
                payload_lookup(self.payload_entries(), ident@) == payload_lookup(
                    self.payload_entries().subrange(0, i as int),
                    ident@,
                ),
            decreases i,
        {
            proof {
                let sub = self.payload_entries().subrange(0, i as int);
                assert(sub.drop_last() =~= self.payload_entries().subrange(0, i - 1));
                assert(sub.last() == (self.payloads@[i - 1].0@, self.payloads@[i - 1].1));
            }
            if str_eq(self.payloads[i - 1].0.as_str(), ident) {
                return Some(ray_payload_canonical_name(self.payloads[i - 1].1));
            }
            i = i - 1;
        }
        None
    }
}

/// The built-ins that the entry function refers to, each once, in the order
/// of first reference.
pub struct BuiltinCollector {
    referenced: Vec<GlGlobalVarirableAsParam>,
}

impl BuiltinCollector {
    pub closed spec fn view(&self) -> Seq<GlGlobalVarirableAsParam> {
        self.referenced@
    }

    pub fn new() -> (r: BuiltinCollector)
        ensures
            r.view() == Seq::<GlGlobalVarirableAsParam>::empty(),
    {
        BuiltinCollector { referenced: Vec::new() }
    }

    fn note(&mut self, v: GlGlobalVarirableAsParam)
        requires
            old(self).view().no_duplicates(),
        ensures
            final(self).view().no_duplicates(),
            final(self).view() == if old(self).view().contains(v) {
                old(self).view()
            } else {
                old(self).view().push(v)
            },
    {
        let mut i: usize = 0;
        while i < self.referenced.len()
            invariant
                i <= self.referenced.len(),
                self.view() == old(self).view(),
                old(self).view().no_duplicates(),
                forall|j: int| 0 <= j < i ==> self.referenced@[j] != v,
            decreases self.referenced.len() - i,
        {
            if self.referenced[i] == v {
                return;
            }
            i = i + 1;
        }
        self.referenced.push(v);
    }

    /// Looks at one identifier of the entry function: a built-in is noted and
    /// its parameter name returned.
    pub fn visit_identifier(&mut self, ident: &str) -> (r: Option<String>)
        requires
            old(self).view().no_duplicates(),
        ensures
            final(self).view().no_duplicates(),
            (forall|v: GlGlobalVarirableAsParam| builtin_name(v) != ident@) ==> r is None
                && final(self).view() == old(self).view(),
            forall|v: GlGlobalVarirableAsParam|
                builtin_name(v) == ident@ ==> (r matches Some(n) && n@ == builtin_param_name(v))
                    && final(self).view() == if old(self).view().contains(v) {
                    old(self).view()
                } else {
                    old(self).view().push(v)
                },
    {
        match GlGlobalVarirableAsParam::from_name(ident) {
            None => None,
            Some(v) => {
                self.note(v);
                proof {
                    assert forall|w: GlGlobalVarirableAsParam| builtin_name(w) == ident@ implies w
                        == v by {
                        lemma_builtin_name_injective(w, v);
                    }
                }
                Some(v.param_name())
            },
        }
    }

    /// An intersection shader always receives the ray's extent.
    pub fn add_intersection_defaults(&mut self)
        requires
            old(self).view().no_duplicates(),
        ensures
            final(self).view().no_duplicates(),
            final(self).view().contains(GlGlobalVarirableAsParam::gl_RayTminEXT),
            final(self).view().contains(GlGlobalVarirableAsParam::gl_RayTmaxEXT),
            forall|v: GlGlobalVarirableAsParam|
                #[trigger] final(self).view().contains(v) <==> old(self).view().contains(v) || v
                    == GlGlobalVarirableAsParam::gl_RayTminEXT || v
                    == GlGlobalVarirableAsParam::gl_RayTmaxEXT,
    {
        let ghost v0 = self.view();
        self.note(GlGlobalVarirableAsParam::gl_RayTminEXT);
        let ghost mid = self.view();
        self.note(GlGlobalVarirableAsParam::gl_RayTmaxEXT);
        proof {
            let tmin = GlGlobalVarirableAsParam::gl_RayTminEXT;
            let tmax = GlGlobalVarirableAsParam::gl_RayTmaxEXT;
            if !v0.contains(tmin) {
                assert(mid[mid.len() - 1] == tmin);
            }
            assert(mid.contains(tmin));
            let i = choose|i: int| 0 <= i < mid.len() && mid[i] == tmin;
            assert(self.view()[i] == tmin);
            if !mid.contains(tmax) {
                assert(self.view()[self.view().len() - 1] == tmax);
            }
            assert forall|v: GlGlobalVarirableAsParam|
                #[trigger] self.view().contains(v) <==> v0.contains(v) || v == tmin || v == tmax by {
                if v0.contains(v) {
                    let k = choose|k: int| 0 <= k < v0.len() && v0[k] == v;
                    assert(mid[k] == v);
                    assert(self.view()[k] == v);
                }
                if self.view().contains(v) {
                    let k = choose|k: int| 0 <= k < self.view().len() && self.view()[k] == v;
                    if k < mid.len() {
                        assert(mid[k] == v);
                        if k < v0.len() {
                            assert(v0[k] == v);
                        }
                    }
                }
            }
        }
    }

    /// The referenced built-ins, in order of first reference.
    pub fn referenced(&self) -> (r: Vec<GlGlobalVarirableAsParam>)
        ensures
            r@ == self.view(),
    {
        let mut out: Vec<GlGlobalVarirableAsParam> = Vec::new();
        let mut i: usize = 0;
        while i < self.referenced.len()
            invariant
                i <= self.referenced.len(),
                out@ == self.referenced@.subrange(0, i as int),
            decreases self.referenced.len() - i,
        {
            out.push(self.referenced[i]);
            i = i + 1;
            assert(out@ =~= self.referenced@.subrange(0, i as int));
        }
        assert(out@ =~= self.referenced@);
        out
    }
}

/// The built-ins that the identifiers `idents` refer to, in order of first
/// reference: each referenced built-in appears exactly once.
pub fn collect_builtins(idents: &Vec<String>) -> (r: Vec<GlGlobalVarirableAsParam>)
    ensures
        r@.no_duplicates(),
        forall|v: GlGlobalVarirableAsParam|
            #[trigger] r@.contains(v) <==> exists|i: int|
                0 <= i < idents.len() && idents@[i]@ == builtin_name(v),
{
    let mut c = BuiltinCollector::new();
    let mut i: usize = 0;
    while i < idents.len()
        invariant
            i <= idents.len(),
            c.view().no_duplicates(),
            forall|v: GlGlobalVarirableAsParam|
                #[trigger] c.view().contains(v) <==> exists|j: int|
                    0 <= j < i && idents@[j]@ == builtin_name(v),
        decreases idents.len() - i,
    {
        let ghost before = c.view();
        let _ = c.visit_identifier(idents[i].as_str());
        proof {
            assert forall|v: GlGlobalVarirableAsParam|
                #[trigger] c.view().contains(v) <==> exists|j: int|
                    0 <= j < i + 1 && idents@[j]@ == builtin_name(v) by {
                if builtin_name(v) == idents@[i as int]@ {
                    if !before.contains(v) {
                        assert(c.view()[c.view().len() - 1] == v);
                    }
                } else {
                    if c.view().contains(v) && !before.contains(v) {
                        let k = choose|k: int| 0 <= k < c.view().len() && c.view()[k] == v;
                        if k < before.len() {
                            assert(before[k] == v);
                        } else {
                            let w = c.view()[k];
                            assert(builtin_name(w) == idents@[i as int]@);
                        }
                    }
                    if before.contains(v) {
                        let k = choose|k: int| 0 <= k < before.len() && before[k] == v;
                        assert(c.view()[k] == v);
                    }
                }
                if exists|j: int| 0 <= j < i + 1 && idents@[j]@ == builtin_name(v) {
                    let j = choose|j: int| 0 <= j < i + 1 && idents@[j]@ == builtin_name(v);
                    if j < i {
                        assert(before.contains(v));
                        let k = choose|k: int| 0 <= k < before.len() && before[k] == v;
                        assert(c.view()[k] == v);
                    }
                }
            }
        }
        i = i + 1;
    }
    c.referenced()
}

/// A preprocessor directive at the top level of a shader.
#[derive(Clone, Debug)]
pub enum Directive {
    Version,
    Extension(String),
    Pragma(String),
    Other,
}

/// `t` occurs in `s`.
pub open spec fn occurs_in(t: Seq<char>, s: Seq<char>) -> bool {
    exists|i: int| 0 <= i && i + t.len() <= s.len() && #[trigger] s.subrange(i, i + t.len()) == t
}

/// The directive survives the lowering: all but `#version`, the ray-tracing
/// extension and a `shader_stage(...)` pragma.
pub open spec fn directive_kept(d: Directive) -> bool {
    match d {
        Directive::Version => false,
        Directive::Extension(name) => name@ != "GL_EXT_ray_tracing"@,
        Directive::Pragma(command) => !occurs_in("shader_stage("@, command@),
        Directive::Other => true,
    }
}

fn occurs(t: &str, s: &str) -> (r: bool)
    ensures
        r == occurs_in(t@, s@),
{
    let n = s.unicode_len();
    let m = t.unicode_len();
    if m > n {
        return false;
    }
    let mut i: usize = 0;
    while i <= n - m
        invariant
            n == s@.len(),
            m == t@.len(),
            m <= n,
            i <= n - m + 1,
            forall|j: int| 0 <= j < i ==> #[trigger] s@.subrange(j, j + m) != t@,
        decreases n - i,
    {
        let mut k: usize = 0;
        let mut same = true;
        while k < m
            invariant
                n == s@.len(),
                m == t@.len(),
                i + m <= n,
                k <= m,
                same == forall|q: int| 0 <= q < k ==> s@[i + q] == t@[q],
            decreases m - k,
        {
            if s.get_char(i + k) != t.get_char(k) {
                same = false;
            }
            k = k + 1;
        }
        if same {
            assert(s@.subrange(i as int, i + m) =~= t@);
            return true;
        }
        proof {
            let q = choose|q: int| 0 <= q < m && s@[i + q] != t@[q];
            assert(s@.subrange(i as int, i + m)[q] != t@[q]);
        }
        i = i + 1;
    }
    proof {
        assert forall|j: int| 0 <= j && j + m <= n implies #[trigger] s@.subrange(j, j + m) != t@ by {
            assert(j < i);
        }
    }
    false
}

/// Whether the lowering keeps directive `d`.
pub fn keep_directive(d: &Directive) -> (r: bool)
    ensures
        r == directive_kept(*d),
{
    match d {
        Directive::Version => false,
        Directive::Extension(name) => !str_eq(name.as_str(), "GL_EXT_ray_tracing"),
        Directive::Pragma(command) => !occurs("shader_stage(", command.as_str()),
        Directive::Other => true,
    }
}

/// A declaration that uses no ray-tracing construct is kept as it is.
pub proof fn lemma_neutral_declaration_kept(f: DeclarationFacts)
    requires
        f.storage == StorageKind::Other,
        !f.shader_record_layout,
        !f.acceleration_structure,
    ensures
        action_of(f) == Ok::<DeclarationAction, AnalysisError>(DeclarationAction::Keep),
{
}

/// An entry function that names no built-in receives none.
pub proof fn lemma_neutral_body_no_builtins(idents: Seq<String>, r: Seq<GlGlobalVarirableAsParam>)
    requires
        forall|i: int, v: GlGlobalVarirableAsParam| 0 <= i < idents.len() ==> idents[i]@ != builtin_name(v),
        forall|v: GlGlobalVarirableAsParam|
            #[trigger] r.contains(v) <==> exists|i: int|
                0 <= i < idents.len() && idents[i]@ == builtin_name(v),
    ensures
        r.len() == 0,
{
    if r.len() > 0 {
        assert(r.contains(r[0]));
    }
}

/// Length, first and sixth character of a built-in's name suffix: together
/// they tell the built-ins apart.
spec fn suffix_key(v: GlGlobalVarirableAsParam) -> (int, char, char) {
    match v {
        GlGlobalVarirableAsParam::gl_PrimitiveID => (11, 'P', 't'),
        GlGlobalVarirableAsParam::gl_InstanceID => (10, 'I', 'n'),
        GlGlobalVarirableAsParam::gl_InstanceCustomIndexEXT => (22, 'I', 'n'),
        GlGlobalVarirableAsParam::gl_GeometryIndexEXT => (16, 'G', 't'),
        GlGlobalVarirableAsParam::gl_WorldRayOriginEXT => (17, 'W', 'R'),
        GlGlobalVarirableAsParam::gl_WorldRayDirectionEXT => (20, 'W', 'R'),
        GlGlobalVarirableAsParam::gl_ObjectRayOriginEXT => (18, 'O', 't'),
        GlGlobalVarirableAsParam::gl_ObjectRayDirectionEXT => (21, 'O', 't'),
        GlGlobalVarirableAsParam::gl_RayTminEXT => (10, 'R', 'i'),
        GlGlobalVarirableAsParam::gl_RayTmaxEXT => (10, 'R', 'a'),
        GlGlobalVarirableAsParam::gl_IncomingRayFlagsEXT => (19, 'I', 'i'),
        GlGlobalVarirableAsParam::gl_HitTEXT => (7, 'H', 'X'),
        GlGlobalVarirableAsParam::gl_HitKindEXT => (10, 'H', 'n'),
        GlGlobalVarirableAsParam::gl_ObjectToWorldEXT => (16, 'O', 't'),
        GlGlobalVarirableAsParam::gl_WorldToObjectEXT => (16, 'W', 'T'),
        GlGlobalVarirableAsParam::gl_WorldToObject3x4EXT => (19, 'W', 'T'),
        GlGlobalVarirableAsParam::gl_ObjectToWorld3x4EXT => (19, 'O', 't'),
    }
}

proof fn lemma_suffix_key(v: GlGlobalVarirableAsParam)
    ensures
        builtin_suffix(v).len() == suffix_key(v).0,
        builtin_suffix(v)[0] == suffix_key(v).1,
        builtin_suffix(v)[5] == suffix_key(v).2,
{
    match v {
        GlGlobalVarirableAsParam::gl_PrimitiveID => reveal_strlit("PrimitiveID"),
        GlGlobalVarirableAsParam::gl_InstanceID => reveal_strlit("InstanceID"),
        GlGlobalVarirableAsParam::gl_InstanceCustomIndexEXT => reveal_strlit("InstanceCustomIndexEXT"),
        GlGlobalVarirableAsParam::gl_GeometryIndexEXT => reveal_strlit("GeometryIndexEXT"),
        GlGlobalVarirableAsParam::gl_WorldRayOriginEXT => reveal_strlit("WorldRayOriginEXT"),
        GlGlobalVarirableAsParam::gl_WorldRayDirectionEXT => reveal_strlit("WorldRayDirectionEXT"),
        GlGlobalVarirableAsParam::gl_ObjectRayOriginEXT => reveal_strlit("ObjectRayOriginEXT"),
        GlGlobalVarirableAsParam::gl_ObjectRayDirectionEXT => reveal_strlit("ObjectRayDirectionEXT"),
        GlGlobalVarirableAsParam::gl_RayTminEXT => reveal_strlit("RayTminEXT"),
        GlGlobalVarirableAsParam::gl_RayTmaxEXT => reveal_strlit("RayTmaxEXT"),
        GlGlobalVarirableAsParam::gl_IncomingRayFlagsEXT => reveal_strlit("IncomingRayFlagsEXT"),
        GlGlobalVarirableAsParam::gl_HitTEXT => reveal_strlit("HitTEXT"),
        GlGlobalVarirableAsParam::gl_HitKindEXT => reveal_strlit("HitKindEXT"),
        GlGlobalVarirableAsParam::gl_ObjectToWorldEXT => reveal_strlit("ObjectToWorldEXT"),
        GlGlobalVarirableAsParam::gl_WorldToObjectEXT => reveal_strlit("WorldToObjectEXT"),
        GlGlobalVarirableAsParam::gl_WorldToObject3x4EXT => reveal_strlit("WorldToObject3x4EXT"),
        GlGlobalVarirableAsParam::gl_ObjectToWorld3x4EXT => reveal_strlit("ObjectToWorld3x4EXT"),
    }
}

/// Distinct built-ins have distinct names.
pub proof fn lemma_builtin_name_injective(a: GlGlobalVarirableAsParam, b: GlGlobalVarirableAsParam)
    requires
        builtin_name(a) == builtin_name(b),
    ensures
        a == b,
{
    reveal_strlit("gl_");
    let sa = builtin_suffix(a);
    let sb = builtin_suffix(b);
    assert(builtin_name(a).subrange(3, builtin_name(a).len() as int) =~= sa);
    assert(builtin_name(b).subrange(3, builtin_name(b).len() as int) =~= sb);
    lemma_suffix_key(a);
    lemma_suffix_key(b);
    assert(suffix_key(a) == suffix_key(b));
}

} // verus!
