//! Element types of tensors, and their names.
use vstd::prelude::*;

verus! {

/// The element type of a tensor.
#[derive(Debug, Clone, Copy, PartialEq, Eq, Structural)]
pub enum DType {
    U8,
    U32,
    I16,
    I32,
    I64,
    BF16,
    F16,
    F32,
    F64,
    F8E4M3,
    F6E2M3,
    F6E3M2,
    F4,
    F8E8M0,
}

impl DType {
    /// The lower-case name.
    pub open spec fn lower_name(self) -> Seq<char> {
        match self {
            DType::U8 => "u8"@,
            DType::U32 => "u32"@,
            DType::I16 => "i16"@,
            DType::I32 => "i32"@,
            DType::I64 => "i64"@,
            DType::BF16 => "bf16"@,
            DType::F16 => "f16"@,
            DType::F32 => "f32"@,
            DType::F64 => "f64"@,
            DType::F8E4M3 => "f8e4m3"@,
            DType::F6E2M3 => "f6e2m3"@,
            DType::F6E3M2 => "f6e3m2"@,
            DType::F4 => "f4"@,
            DType::F8E8M0 => "f8e8m0"@,
        }
    }

    /// The lower-case name.
    pub fn as_str(&self) -> (name: &'static str)
        ensures
            name@ == self.lower_name(),
    {
        match self {
            DType::U8 => "u8",
            DType::U32 => "u32",
            DType::I16 => "i16",
            DType::I32 => "i32",
            DType::I64 => "i64",
            DType::BF16 => "bf16",
            DType::F16 => "f16",
            DType::F32 => "f32",
            DType::F64 => "f64",
            DType::F8E4M3 => "f8e4m3",
            DType::F6E2M3 => "f6e2m3",
            DType::F6E3M2 => "f6e3m2",
            DType::F4 => "f4",
            DType::F8E8M0 => "f8e8m0",
        }
    }

    /// The name of the variant.
    pub open spec fn variant_name(self) -> Seq<char> {
        match self {
            DType::U8 => "U8"@,
            DType::U32 => "U32"@,
            DType::I16 => "I16"@,
            DType::I32 => "I32"@,
            DType::I64 => "I64"@,
            DType::BF16 => "BF16"@,
            DType::F16 => "F16"@,
            DType::F32 => "F32"@,
            DType::F64 => "F64"@,
            DType::F8E4M3 => "F8E4M3"@,
            DType::F6E2M3 => "F6E2M3"@,
            DType::F6E3M2 => "F6E3M2"@,
            DType::F4 => "F4"@,
            DType::F8E8M0 => "F8E8M0"@,
        }
    }

    /// The name of the variant.
    pub fn variant(&self) -> (name: &'static str)
        ensures
            name@ == self.variant_name(),
    {
        match self {
            DType::U8 => "U8",
            DType::U32 => "U32",
            DType::I16 => "I16",
            DType::I32 => "I32",
            DType::I64 => "I64",
            DType::BF16 => "BF16",
            DType::F16 => "F16",
            DType::F32 => "F32",
            DType::F64 => "F64",
            DType::F8E4M3 => "F8E4M3",
            DType::F6E2M3 => "F6E2M3",
            DType::F6E3M2 => "F6E3M2",
            DType::F4 => "F4",
            DType::F8E8M0 => "F8E8M0",
        }
    }
}

/// Different element types have different names, and the names are short.
pub proof fn lemma_variant_names(left: DType, right: DType)
    ensures
        left.variant_name() == right.variant_name() ==> left == right,
        vstd::utf8::encode_utf8(left.variant_name()).len() <= 6,
{
    reveal_strlit("U8");
    reveal_strlit("U32");
    reveal_strlit("I16");
    reveal_strlit("I32");
    reveal_strlit("I64");
    reveal_strlit("BF16");
    reveal_strlit("F16");
    reveal_strlit("F32");
    reveal_strlit("F64");
    reveal_strlit("F8E4M3");
    reveal_strlit("F6E2M3");
    reveal_strlit("F6E3M2");
    reveal_strlit("F4");
    reveal_strlit("F8E8M0");
    let (a, b) = (left.variant_name(), right.variant_name());
    vstd::utf8::is_ascii_chars_encode_utf8(a);
    if a == b {
        assert(a.len() == b.len());
        assert(a.len() > 0 ==> a[0] == b[0]);
        assert(a.len() > 1 ==> a[1] == b[1]);
        assert(a.len() > 2 ==> a[2] == b[2]);
        assert(a.len() > 3 ==> a[3] == b[3]);
    }
}

/// Different element types have different lower-case names.
pub proof fn lemma_lower_names(left: DType, right: DType)
    ensures
        left.lower_name() == right.lower_name() ==> left == right,
{
    reveal_strlit("u8");
    reveal_strlit("u32");
    reveal_strlit("i16");
    reveal_strlit("i32");
    reveal_strlit("i64");
    reveal_strlit("bf16");
    reveal_strlit("f16");
    reveal_strlit("f32");
    reveal_strlit("f64");
    reveal_strlit("f8e4m3");
    reveal_strlit("f6e2m3");
    reveal_strlit("f6e3m2");
    reveal_strlit("f4");
    reveal_strlit("f8e8m0");
    let (a, b) = (left.lower_name(), right.lower_name());
    if a == b {
        assert(a.len() == b.len());
        assert(a.len() > 0 ==> a[0] == b[0]);
        assert(a.len() > 1 ==> a[1] == b[1]);
        assert(a.len() > 2 ==> a[2] == b[2]);
        assert(a.len() > 3 ==> a[3] == b[3]);
    }
}

/// The names of the element types: those of the variants, and the same in lower case.
pub proof fn law_names_of_element_types()
    ensures
        DType::U8.lower_name() == "u8"@ && DType::U8.variant_name() == "U8"@,
        DType::U32.lower_name() == "u32"@ && DType::U32.variant_name() == "U32"@,
        DType::I16.lower_name() == "i16"@ && DType::I16.variant_name() == "I16"@,
        DType::I32.lower_name() == "i32"@ && DType::I32.variant_name() == "I32"@,
        DType::I64.lower_name() == "i64"@ && DType::I64.variant_name() == "I64"@,
        DType::BF16.lower_name() == "bf16"@ && DType::BF16.variant_name() == "BF16"@,
        DType::F16.lower_name() == "f16"@ && DType::F16.variant_name() == "F16"@,
        DType::F32.lower_name() == "f32"@ && DType::F32.variant_name() == "F32"@,
        DType::F64.lower_name() == "f64"@ && DType::F64.variant_name() == "F64"@,
        DType::F8E4M3.lower_name() == "f8e4m3"@ && DType::F8E4M3.variant_name() == "F8E4M3"@,
        DType::F6E2M3.lower_name() == "f6e2m3"@ && DType::F6E2M3.variant_name() == "F6E2M3"@,
        DType::F6E3M2.lower_name() == "f6e3m2"@ && DType::F6E3M2.variant_name() == "F6E3M2"@,
        DType::F4.lower_name() == "f4"@ && DType::F4.variant_name() == "F4"@,
        DType::F8E8M0.lower_name() == "f8e8m0"@ && DType::F8E8M0.variant_name() == "F8E8M0"@,
{
}

} // verus!
