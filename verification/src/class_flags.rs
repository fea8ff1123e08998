//! The access flags of a class.
use vstd::prelude::*;

verus! {

/// The access-flag bitmask of a class: sixteen bits, nine of which carry a
/// meaning. Each predicate below tests exactly one bit.
#[derive(PartialEq, Eq, Structural, Clone, Copy, Debug)]
pub struct ClassFlags(pub u16);

pub const ACC_PUBLIC: u16 = 0x0001;

pub const ACC_FINAL: u16 = 0x0010;

pub const ACC_SUPER: u16 = 0x0020;

pub const ACC_INTERFACE: u16 = 0x0200;

pub const ACC_ABSTRACT: u16 = 0x0400;

pub const ACC_SYNTHETIC: u16 = 0x1000;

pub const ACC_ANNOTATION: u16 = 0x2000;

pub const ACC_ENUM: u16 = 0x4000;

pub const ACC_MODULE: u16 = 0x8000;

/// Whether `flags` has at least one of the bits of `mask` set.
pub open spec fn bit_set(flags: u16, mask: u16) -> bool {
    flags & mask != 0
}

impl View for ClassFlags {
    type V = u16;

    open spec fn view(&self) -> u16 {
        self.0
    }
}

impl ClassFlags {
    pub fn new(flags: u16) -> (r: Self)
        ensures
            r@ == flags,
    {
        ClassFlags(flags)
    }

    pub fn is_public(&self) -> (r: bool)
        ensures
            r == bit_set(self@, ACC_PUBLIC),
    {
        self.is_bit_set(ACC_PUBLIC)
    }

    pub fn is_final(&self) -> (r: bool)
        ensures
            r == bit_set(self@, ACC_FINAL),
    {
        self.is_bit_set(ACC_FINAL)
    }

    pub fn is_super(&self) -> (r: bool)
        ensures
            r == bit_set(self@, ACC_SUPER),
    {
        self.is_bit_set(ACC_SUPER)
    }

    pub fn is_interface(&self) -> (r: bool)
        ensures
            r == bit_set(self@, ACC_INTERFACE),
    {
        self.is_bit_set(ACC_INTERFACE)
    }

    pub fn is_abstract(&self) -> (r: bool)
        ensures
            r == bit_set(self@, ACC_ABSTRACT),
    {
        self.is_bit_set(ACC_ABSTRACT)
    }

    pub fn is_synthetic(&self) -> (r: bool)
        ensures
            r == bit_set(self@, ACC_SYNTHETIC),
    {
        self.is_bit_set(ACC_SYNTHETIC)
    }

    pub fn is_annotation(&self) -> (r: bool)
        ensures
            r == bit_set(self@, ACC_ANNOTATION),
    {
        self.is_bit_set(ACC_ANNOTATION)
    }

    pub fn is_enum(&self) -> (r: bool)
        ensures
            r == bit_set(self@, ACC_ENUM),
    {
        self.is_bit_set(ACC_ENUM)
    }

    pub fn is_module(&self) -> (r: bool)
        ensures
            r == bit_set(self@, ACC_MODULE),
    {
        self.is_bit_set(ACC_MODULE)
    }

    /// Whether the mask has at least one of the bits of `bit` set.
    pub fn is_bit_set(&self, bit: u16) -> (r: bool)
        ensures
            r == bit_set(self@, bit),
    {
        self.0 & bit != 0
    }
}

/// The mask that has exactly the chosen flags set.
pub open spec fn flags_of(
    is_public: bool,
    is_final: bool,
    is_super: bool,
    is_interface: bool,
    is_abstract: bool,
    is_synthetic: bool,
    is_annotation: bool,
    is_enum: bool,
    is_module: bool,
) -> u16 {
    let a: u16 = if is_public { ACC_PUBLIC } else { 0 };
    let b: u16 = if is_final { ACC_FINAL } else { 0 };
    let c: u16 = if is_super { ACC_SUPER } else { 0 };
    let d: u16 = if is_interface { ACC_INTERFACE } else { 0 };
    let e: u16 = if is_abstract { ACC_ABSTRACT } else { 0 };
    let f: u16 = if is_synthetic { ACC_SYNTHETIC } else { 0 };
    let g: u16 = if is_annotation { ACC_ANNOTATION } else { 0 };
    let h: u16 = if is_enum { ACC_ENUM } else { 0 };
    let i: u16 = if is_module { ACC_MODULE } else { 0 };
    a | b | c | d | e | f | g | h | i
}

/// Each flag is one bit of its own, so no combination of flags is ruled out:
/// whatever nine answers are chosen, there is a mask that gives exactly
/// these answers.
pub proof fn lemma_any_combination_of_flags(
    is_public: bool,
    is_final: bool,
    is_super: bool,
    is_interface: bool,
    is_abstract: bool,
    is_synthetic: bool,
    is_annotation: bool,
    is_enum: bool,
    is_module: bool,
)
    ensures
        ({
            let flags = flags_of(
                is_public,
                is_final,
                is_super,
                is_interface,
                is_abstract,
                is_synthetic,
                is_annotation,
                is_enum,
                is_module,
            );
            &&& bit_set(flags, ACC_PUBLIC) == is_public
            &&& bit_set(flags, ACC_FINAL) == is_final
            &&& bit_set(flags, ACC_SUPER) == is_super
            &&& bit_set(flags, ACC_INTERFACE) == is_interface
            &&& bit_set(flags, ACC_ABSTRACT) == is_abstract
            &&& bit_set(flags, ACC_SYNTHETIC) == is_synthetic
            &&& bit_set(flags, ACC_ANNOTATION) == is_annotation
            &&& bit_set(flags, ACC_ENUM) == is_enum
            &&& bit_set(flags, ACC_MODULE) == is_module
        }),
{
    let a: u16 = if is_public { ACC_PUBLIC } else { 0 };
    let b: u16 = if is_final { ACC_FINAL } else { 0 };
    let c: u16 = if is_super { ACC_SUPER } else { 0 };
    let d: u16 = if is_interface { ACC_INTERFACE } else { 0 };
    let e: u16 = if is_abstract { ACC_ABSTRACT } else { 0 };
    let f: u16 = if is_synthetic { ACC_SYNTHETIC } else { 0 };
    let g: u16 = if is_annotation { ACC_ANNOTATION } else { 0 };
    let h: u16 = if is_enum { ACC_ENUM } else { 0 };
    let i: u16 = if is_module { ACC_MODULE } else { 0 };
    assert((a == 0x0001 || a == 0) && (b == 0x0010 || b == 0) && (c == 0x0020 || c == 0) && (d
        == 0x0200 || d == 0) && (e == 0x0400 || e == 0) && (f == 0x1000 || f == 0) && (g == 0x2000
        || g == 0) && (h == 0x4000 || h == 0) && (i == 0x8000 || i == 0) ==> {
        let flags = a | b | c | d | e | f | g | h | i;
        &&& (flags & 0x0001 != 0) == (a != 0)
        &&& (flags & 0x0010 != 0) == (b != 0)
        &&& (flags & 0x0020 != 0) == (c != 0)
        &&& (flags & 0x0200 != 0) == (d != 0)
        &&& (flags & 0x0400 != 0) == (e != 0)
        &&& (flags & 0x1000 != 0) == (f != 0)
        &&& (flags & 0x2000 != 0) == (g != 0)
        &&& (flags & 0x4000 != 0) == (h != 0)
        &&& (flags & 0x8000 != 0) == (i != 0)
    }) by (bit_vector);
}

} // verus!
