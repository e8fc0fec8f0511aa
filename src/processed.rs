//! The result of lowering one shader.
use vstd::prelude::*;

verus! {

/// The lowered shader and the text and facts that go with it.
pub struct ProcessedShaderInfo {
    pub processed_shader: String,
    pub processed_entry_point_prototype: String,
    pub forward_type_declarations: String,
    pub unpacking_code: String,
    pub invocation_code: String,
    pub packing_code: String,
    /// Tags of the referenced built-ins, in order of first reference.
    pub global_variables: Vec<u32>,
    pub hit_attributes_num_words: u32,
    pub need_shader_record_data: bool,
    pub max_bind_set_number: i32,
}

impl ProcessedShaderInfo {
    pub fn processed_shader(&self) -> (r: String)
        ensures
            r@ == self.processed_shader@,
    {
        self.processed_shader.clone()
    }

    pub fn processed_entry_point_prototype(&self) -> (r: String)
        ensures
            r@ == self.processed_entry_point_prototype@,
    {
        self.processed_entry_point_prototype.clone()
    }

    pub fn forward_type_declarations(&self) -> (r: String)
        ensures
            r@ == self.forward_type_declarations@,
    {
        self.forward_type_declarations.clone()
    }

    pub fn invocation_code(&self) -> (r: String)
        ensures
            r@ == self.invocation_code@,
    {
        self.invocation_code.clone()
    }

    pub fn packing_code(&self) -> (r: String)
        ensures
            r@ == self.packing_code@,
    {
        self.packing_code.clone()
    }

    pub fn unpacking_code(&self) -> (r: String)
        ensures
            r@ == self.unpacking_code@,
    {
        self.unpacking_code.clone()
    }

    pub fn global_variables(&self) -> (r: Vec<u32>)
        ensures
            r@ == self.global_variables@,
    {
        let mut out: Vec<u32> = Vec::new();
        let mut i: usize = 0;
        while i < self.global_variables.len()
            invariant
                i <= self.global_variables.len(),
                out@ == self.global_variables@.subrange(0, i as int),
            decreases self.global_variables.len() - i,
        {
            out.push(self.global_variables[i]);
            i = i + 1;
            assert(out@ =~= self.global_variables@.subrange(0, i as int));
        }
        assert(out@ =~= self.global_variables@);
        out
    }
}

} // verus!
