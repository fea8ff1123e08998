//! The constant pool: the shapes of its entries, the grammar of an entry in
//! a file, and the decoder.
use crate::bytes_reader::{be_u16, be_u32, be_u64, signed32, signed64, BytesReader};
use crate::error::DecodeError;
use vstd::prelude::*;
use vstd::utf8::{decode_utf8, valid_utf8};

verus! {

pub const TAG_UTF8: u8 = 1;

pub const TAG_INTEGER: u8 = 3;

pub const TAG_FLOAT: u8 = 4;

pub const TAG_LONG: u8 = 5;

pub const TAG_DOUBLE: u8 = 6;

pub const TAG_CLASS: u8 = 7;

pub const TAG_STRING: u8 = 8;

pub const TAG_FIELD_REF: u8 = 9;

pub const TAG_METHOD_REF: u8 = 10;

pub const TAG_INTERFACE_METHOD_REF: u8 = 11;

pub const TAG_NAME_AND_TYPE: u8 = 12;

pub const TAG_METHOD_KIND: u8 = 15;

pub const TAG_DYNAMIC: u8 = 17;

pub const TAG_INVOKE_DYNAMIC: u8 = 18;

#[derive(Debug, PartialEq)]
pub struct ConstantPoolUtf8Info {
    pub tag: u8,
    pub string: String,
}

#[derive(Debug, PartialEq)]
pub struct ConstantPoolIntegerInfo {
    pub tag: u8,
    pub value: i32,
}

/// A 32-bit IEEE 754 constant, held by its bit pattern.
#[derive(Debug, PartialEq)]
pub struct ConstantPoolFloatInfo {
    pub tag: u8,
    pub bits: u32,
}

#[derive(Debug, PartialEq)]
pub struct ConstantPoolLongInfo {
    pub tag: u8,
    pub value: i64,
}

/// A 64-bit IEEE 754 constant, held by its bit pattern.
#[derive(Debug, PartialEq)]
pub struct ConstantPoolDoubleInfo {
    pub tag: u8,
    pub bits: u64,
}

#[derive(Debug, PartialEq)]
pub struct ConstantPoolClassInfo {
    pub tag: u8,
    pub name_index: usize,
}

#[derive(Debug, PartialEq)]
pub struct ConstantPoolStringInfo {
    pub tag: u8,
    pub name_index: usize,
}

#[derive(Debug, PartialEq)]
pub struct ConstantPoolFieldRefInfo {
    pub tag: u8,
    pub class_index: usize,
    pub name_and_type_index: usize,
}

#[derive(Debug, PartialEq)]
pub struct ConstantPoolMethodRefInfo {
    pub tag: u8,
    pub class_index: usize,
    pub name_and_type_index: usize,
}

#[derive(Debug, PartialEq)]
pub struct ConstantPoolInterfaceMethodRefInfo {
    pub tag: u8,
    pub class_index: usize,
    pub name_and_type_index: usize,
}

#[derive(Debug, PartialEq)]
pub struct ConstantPoolNameAndTypeInfo {
    pub tag: u8,
    pub name_index: usize,
    pub descriptor_index: usize,
}

#[derive(Debug, PartialEq)]
pub struct DynamicInfo {
    pub tag: u8,
    pub bootstrap_method_attr_index: usize,
    pub name_and_type_index: usize,
}

#[derive(Debug, PartialEq)]
pub struct MethodKindInfo {
    pub tag: u8,
    pub reference_kind: u8,
    pub reference_index: usize,
}

#[derive(Debug, PartialEq)]
pub struct InvokeDynamicInfo {
    pub tag: u8,
    pub bootstrap_method_attr_index: usize,
    pub name_and_type_index: usize,
}

#[derive(Debug, PartialEq)]
pub enum ConstantPoolInfo {
    Utf8(ConstantPoolUtf8Info),
    Integer(ConstantPoolIntegerInfo),
    Float(ConstantPoolFloatInfo),
    Long(ConstantPoolLongInfo),
    Double(ConstantPoolDoubleInfo),
    Class(ConstantPoolClassInfo),
    String(ConstantPoolStringInfo),
    FieldRef(ConstantPoolFieldRefInfo),
    MethodRef(ConstantPoolMethodRefInfo),
    InterfaceMethodRef(ConstantPoolInterfaceMethodRefInfo),
    NameAndType(ConstantPoolNameAndTypeInfo),
    MethodKind(MethodKindInfo),
    Dynamic(DynamicInfo),
    InvokeDynamic(InvokeDynamicInfo),
}

/// What a constant-pool entry says, apart from how it is stored. An index is
/// a position in the pool counted from one.
pub enum Constant {
    Utf8 { text: Seq<char> },
    Integer { value: int },
    Float { bits: int },
    Long { value: int },
    Double { bits: int },
    Class { name_index: nat },
    String { name_index: nat },
    FieldRef { class_index: nat, name_and_type_index: nat },
    MethodRef { class_index: nat, name_and_type_index: nat },
    InterfaceMethodRef { class_index: nat, name_and_type_index: nat },
    NameAndType { name_index: nat, descriptor_index: nat },
    MethodKind { reference_kind: int, reference_index: nat },
    Dynamic { bootstrap_method_attr_index: nat, name_and_type_index: nat },
    InvokeDynamic { bootstrap_method_attr_index: nat, name_and_type_index: nat },
}

impl View for ConstantPoolInfo {
    type V = Constant;

    open spec fn view(&self) -> Constant {
        match *self {
            ConstantPoolInfo::Utf8(i) => Constant::Utf8 { text: i.string@ },
            ConstantPoolInfo::Integer(i) => Constant::Integer { value: i.value as int },
            ConstantPoolInfo::Float(i) => Constant::Float { bits: i.bits as int },
            ConstantPoolInfo::Long(i) => Constant::Long { value: i.value as int },
            ConstantPoolInfo::Double(i) => Constant::Double { bits: i.bits as int },
            ConstantPoolInfo::Class(i) => Constant::Class { name_index: i.name_index as nat },
            ConstantPoolInfo::String(i) => Constant::String { name_index: i.name_index as nat },
            ConstantPoolInfo::FieldRef(i) => Constant::FieldRef {
                class_index: i.class_index as nat,
                name_and_type_index: i.name_and_type_index as nat,
            },
            ConstantPoolInfo::MethodRef(i) => Constant::MethodRef {
                class_index: i.class_index as nat,
                name_and_type_index: i.name_and_type_index as nat,
            },
            ConstantPoolInfo::InterfaceMethodRef(i) => Constant::InterfaceMethodRef {
                class_index: i.class_index as nat,
                name_and_type_index: i.name_and_type_index as nat,
            },
            ConstantPoolInfo::NameAndType(i) => Constant::NameAndType {
                name_index: i.name_index as nat,
                descriptor_index: i.descriptor_index as nat,
            },
            ConstantPoolInfo::MethodKind(i) => Constant::MethodKind {
                reference_kind: i.reference_kind as int,
                reference_index: i.reference_index as nat,
            },
            ConstantPoolInfo::Dynamic(i) => Constant::Dynamic {
                bootstrap_method_attr_index: i.bootstrap_method_attr_index as nat,
                name_and_type_index: i.name_and_type_index as nat,
            },
            ConstantPoolInfo::InvokeDynamic(i) => Constant::InvokeDynamic {
                bootstrap_method_attr_index: i.bootstrap_method_attr_index as nat,
                name_and_type_index: i.name_and_type_index as nat,
            },
        }
    }
}

impl ConstantPoolInfo {
    /// The tag byte that the entry carries.
    pub open spec fn tag(&self) -> u8 {
        match *self {
            ConstantPoolInfo::Utf8(i) => i.tag,
            ConstantPoolInfo::Integer(i) => i.tag,
            ConstantPoolInfo::Float(i) => i.tag,
            ConstantPoolInfo::Long(i) => i.tag,
            ConstantPoolInfo::Double(i) => i.tag,
            ConstantPoolInfo::Class(i) => i.tag,
            ConstantPoolInfo::String(i) => i.tag,
            ConstantPoolInfo::FieldRef(i) => i.tag,
            ConstantPoolInfo::MethodRef(i) => i.tag,
            ConstantPoolInfo::InterfaceMethodRef(i) => i.tag,
            ConstantPoolInfo::NameAndType(i) => i.tag,
            ConstantPoolInfo::MethodKind(i) => i.tag,
            ConstantPoolInfo::Dynamic(i) => i.tag,
            ConstantPoolInfo::InvokeDynamic(i) => i.tag,
        }
    }

    /// The entry carries the tag byte of its own shape.
    pub open spec fn well_tagged(&self) -> bool {
        self.tag() == self@.tag()
    }
}

impl Constant {
    /// The tag byte that announces an entry of this shape in a file.
    pub open spec fn tag(self) -> u8 {
        match self {
            Constant::Utf8 { .. } => TAG_UTF8,
            Constant::Integer { .. } => TAG_INTEGER,
            Constant::Float { .. } => TAG_FLOAT,
            Constant::Long { .. } => TAG_LONG,
            Constant::Double { .. } => TAG_DOUBLE,
            Constant::Class { .. } => TAG_CLASS,
            Constant::String { .. } => TAG_STRING,
            Constant::FieldRef { .. } => TAG_FIELD_REF,
            Constant::MethodRef { .. } => TAG_METHOD_REF,
            Constant::InterfaceMethodRef { .. } => TAG_INTERFACE_METHOD_REF,
            Constant::NameAndType { .. } => TAG_NAME_AND_TYPE,
            Constant::MethodKind { .. } => TAG_METHOD_KIND,
            Constant::Dynamic { .. } => TAG_DYNAMIC,
            Constant::InvokeDynamic { .. } => TAG_INVOKE_DYNAMIC,
        }
    }
}

/// The pool as mathematics: the entries' views, in storage order, so that
/// position `i` holds the entry of index `i + 1`.
pub open spec fn pool_view(pool: Seq<ConstantPoolInfo>) -> Seq<Constant> {
    Seq::new(pool.len(), |i: int| pool[i]@)
}

/// Every entry of the pool carries the tag byte of its own shape.
pub open spec fn pool_well_tagged(pool: Seq<ConstantPoolInfo>) -> bool {
    forall|i: int| 0 <= i < pool.len() ==> (#[trigger] pool[i]).well_tagged()
}

/// How many bytes follow the tag byte of an entry whose size the tag alone
/// decides; `None` for text, whose size the entry itself declares, and for
/// a tag that names no shape.
pub open spec fn payload_width(tag: u8) -> Option<nat> {
    if tag == TAG_CLASS || tag == TAG_STRING {
        Some(2)
    } else if tag == TAG_METHOD_KIND {
        Some(3)
    } else if tag == TAG_INTEGER || tag == TAG_FLOAT || tag == TAG_FIELD_REF || tag
        == TAG_METHOD_REF || tag == TAG_INTERFACE_METHOD_REF || tag == TAG_NAME_AND_TYPE || tag
        == TAG_DYNAMIC || tag == TAG_INVOKE_DYNAMIC {
        Some(4)
    } else if tag == TAG_LONG || tag == TAG_DOUBLE {
        Some(8)
    } else {
        None
    }
}

/// The entry of fixed size with tag `tag` whose payload starts at `at`.
pub open spec fn fixed_constant(tag: u8, s: Seq<u8>, at: int) -> Constant {
    if tag == TAG_INTEGER {
        Constant::Integer { value: signed32(be_u32(s, at)) }
    } else if tag == TAG_FLOAT {
        Constant::Float { bits: be_u32(s, at) }
    } else if tag == TAG_LONG {
        Constant::Long { value: signed64(be_u64(s, at)) }
    } else if tag == TAG_DOUBLE {
        Constant::Double { bits: be_u64(s, at) }
    } else if tag == TAG_CLASS {
        Constant::Class { name_index: be_u16(s, at) as nat }
    } else if tag == TAG_STRING {
        Constant::String { name_index: be_u16(s, at) as nat }
    } else if tag == TAG_FIELD_REF {
        Constant::FieldRef {
            class_index: be_u16(s, at) as nat,
            name_and_type_index: be_u16(s, at + 2) as nat,
        }
    } else if tag == TAG_METHOD_REF {
        Constant::MethodRef {
            class_index: be_u16(s, at) as nat,
            name_and_type_index: be_u16(s, at + 2) as nat,
        }
    } else if tag == TAG_INTERFACE_METHOD_REF {
        Constant::InterfaceMethodRef {
            class_index: be_u16(s, at) as nat,
            name_and_type_index: be_u16(s, at + 2) as nat,
        }
    } else if tag == TAG_NAME_AND_TYPE {
        Constant::NameAndType {
            name_index: be_u16(s, at) as nat,
            descriptor_index: be_u16(s, at + 2) as nat,
        }
    } else if tag == TAG_METHOD_KIND {
        Constant::MethodKind {
            reference_kind: s[at] as int,
            reference_index: be_u16(s, at + 1) as nat,
        }
    } else if tag == TAG_DYNAMIC {
        Constant::Dynamic {
            bootstrap_method_attr_index: be_u16(s, at) as nat,
            name_and_type_index: be_u16(s, at + 2) as nat,
        }
    } else {
        Constant::InvokeDynamic {
            bootstrap_method_attr_index: be_u16(s, at) as nat,
            name_and_type_index: be_u16(s, at + 2) as nat,
        }
    }
}

/// The constant-pool entry that starts at `pos` and the number of bytes it
/// takes, or why there is none.
///
/// An entry is a tag byte and a payload. Text declares its own length in two
/// bytes and must be valid UTF-8; every other shape has the width that its
/// tag decides.
pub open spec fn spec_constant(s: Seq<u8>, pos: int) -> Result<(Constant, nat), DecodeError> {
    if pos + 1 > s.len() {
        Err(DecodeError::UnexpectedEof)
    } else if s[pos] == TAG_UTF8 {
        if pos + 3 > s.len() || pos + 3 + be_u16(s, pos + 1) > s.len() {
            Err(DecodeError::UnexpectedEof)
        } else {
            let bytes = s.subrange(pos + 3, pos + 3 + be_u16(s, pos + 1));
            if valid_utf8(bytes) {
                Ok((Constant::Utf8 { text: decode_utf8(bytes) }, (3 + be_u16(s, pos + 1)) as nat))
            } else {
                Err(DecodeError::InvalidUtf8)
            }
        }
    } else {
        match payload_width(s[pos]) {
            None => Err(DecodeError::UnknownConstantTag { tag: s[pos] }),
            Some(width) => if pos + 1 + width > s.len() {
                Err(DecodeError::UnexpectedEof)
            } else {
                Ok((fixed_constant(s[pos], s, pos + 1), 1 + width))
            },
        }
    }
}

/// The `n` constant-pool entries that start at `pos`, one after the other,
/// and the number of bytes they take together; or the first failure.
///
/// Every entry takes one slot of the pool, a 64-bit number too: the entry
/// after a long or a double has the next index.
pub open spec fn spec_constants(s: Seq<u8>, pos: int, n: nat) -> Result<
    (Seq<Constant>, nat),
    DecodeError,
>
    decreases n,
{
    if n == 0 {
        Ok((Seq::empty(), 0nat))
    } else {
        match spec_constant(s, pos) {
            Err(e) => Err(e),
            Ok((first, used)) => match spec_constants(s, pos + used, (n - 1) as nat) {
                Err(e) => Err(e),
                Ok((rest, more)) => Ok((seq![first] + rest, used + more)),
            },
        }
    }
}

/// `acc`, taken from `used` bytes, followed by what `rest` gives.
pub open spec fn prepend<T>(
    acc: Seq<T>,
    used: nat,
    rest: Result<(Seq<T>, nat), DecodeError>,
) -> Result<(Seq<T>, nat), DecodeError> {
    match rest {
        Err(e) => Err(e),
        Ok((items, more)) => Ok((acc + items, used + more)),
    }
}

/// Taking `acc` and then `items` is taking `acc + items`.
pub proof fn lemma_prepend_twice<T>(
    acc: Seq<T>,
    used: nat,
    items: Seq<T>,
    more: nat,
    rest: Result<(Seq<T>, nat), DecodeError>,
)
    ensures
        prepend(acc, used, prepend(items, more, rest)) == prepend(acc + items, used + more, rest),
{
    match rest {
        Err(e) => {},
        Ok((tail, last)) => {
            assert(acc + (items + tail) =~= (acc + items) + tail);
        },
    }
}

/// Reads one constant-pool entry: the tag byte, then the payload of the
/// shape that the tag names.
pub fn read_constant_pool_info(reader: &mut BytesReader) -> (r: Result<
    ConstantPoolInfo,
    DecodeError,
>)
    requires
        old(reader).wf(),
    ensures
        final(reader).wf(),
        old(reader)@.reaches(final(reader)@),
        match spec_constant(old(reader)@.input, old(reader)@.pos as int) {
            Ok((constant, used)) => (r matches Ok(info) && info@ == constant && info.well_tagged())
                && final(reader)@ == old(reader)@.advance(used),
            Err(e) => r == Err::<ConstantPoolInfo, DecodeError>(e),
        },
{
    proof {
        old(reader).lemma_view_wf();
    }
    let tag = reader.read_u8()?;
    match tag {
        1 => {
            let length = reader.read_u16()? as usize;
            let string = reader.read_string(length)?;
            Ok(ConstantPoolInfo::Utf8(ConstantPoolUtf8Info { tag, string }))
        },
        3 => {
            let value = reader.read_i32()?;
            Ok(ConstantPoolInfo::Integer(ConstantPoolIntegerInfo { tag, value }))
        },
        4 => {
            let bits = reader.read_f32()?;
            Ok(ConstantPoolInfo::Float(ConstantPoolFloatInfo { tag, bits }))
        },
        5 => {
            let value = reader.read_i64()?;
            Ok(ConstantPoolInfo::Long(ConstantPoolLongInfo { tag, value }))
        },
        6 => {
            let bits = reader.read_f64()?;
            Ok(ConstantPoolInfo::Double(ConstantPoolDoubleInfo { tag, bits }))
        },
        7 => {
            let name_index = reader.read_u16()? as usize;
            Ok(ConstantPoolInfo::Class(ConstantPoolClassInfo { tag, name_index }))
        },
        8 => {
            let name_index = reader.read_u16()? as usize;
            Ok(ConstantPoolInfo::String(ConstantPoolStringInfo { tag, name_index }))
        },
        9 => {
            let class_index = reader.read_u16()? as usize;
            let name_and_type_index = reader.read_u16()? as usize;
            Ok(
                ConstantPoolInfo::FieldRef(
                    ConstantPoolFieldRefInfo { tag, class_index, name_and_type_index },
                ),
            )
        },
        10 => {
            let class_index = reader.read_u16()? as usize;
            let name_and_type_index = reader.read_u16()? as usize;
            Ok(
                ConstantPoolInfo::MethodRef(
                    ConstantPoolMethodRefInfo { tag, class_index, name_and_type_index },
                ),
            )
        },
        11 => {
            let class_index = reader.read_u16()? as usize;
            let name_and_type_index = reader.read_u16()? as usize;
            Ok(
                ConstantPoolInfo::InterfaceMethodRef(
                    ConstantPoolInterfaceMethodRefInfo { tag, class_index, name_and_type_index },
                ),
            )
        },
        12 => {
            let name_index = reader.read_u16()? as usize;
            let descriptor_index = reader.read_u16()? as usize;
            Ok(
                ConstantPoolInfo::NameAndType(
                    ConstantPoolNameAndTypeInfo { tag, name_index, descriptor_index },
                ),
            )
        },
        15 => {
            let reference_kind = reader.read_u8()?;
            let reference_index = reader.read_u16()? as usize;
            Ok(
                ConstantPoolInfo::MethodKind(
                    MethodKindInfo { tag, reference_kind, reference_index },
                ),
            )
        },
        17 => {
            let bootstrap_method_attr_index = reader.read_u16()? as usize;
            let name_and_type_index = reader.read_u16()? as usize;
            Ok(
                ConstantPoolInfo::Dynamic(
                    DynamicInfo { tag, bootstrap_method_attr_index, name_and_type_index },
                ),
            )
        },
        18 => {
            let bootstrap_method_attr_index = reader.read_u16()? as usize;
            let name_and_type_index = reader.read_u16()? as usize;
            Ok(
                ConstantPoolInfo::InvokeDynamic(
                    InvokeDynamicInfo { tag, bootstrap_method_attr_index, name_and_type_index },
                ),
            )
        },
        _ => Err(DecodeError::UnknownConstantTag { tag }),
    }
}

/// Reads the constant pool that a declared count of `constant_pool_count`
/// announces: one entry fewer than the count, in file order.
pub fn read_constant_pool(reader: &mut BytesReader, constant_pool_count: usize) -> (r: Result<
    Vec<ConstantPoolInfo>,
    DecodeError,
>)
    requires
        old(reader).wf(),
    ensures
        final(reader).wf(),
        old(reader)@.reaches(final(reader)@),
        match spec_constants(
            old(reader)@.input,
            old(reader)@.pos as int,
            pool_len(constant_pool_count as nat),
        ) {
            Ok((constants, used)) => (r matches Ok(pool) && pool_view(pool@) == constants
                && pool_well_tagged(pool@)) && final(reader)@ == old(reader)@.advance(used),
            Err(e) => r == Err::<Vec<ConstantPoolInfo>, DecodeError>(e),
        },
{
    let mut pool: Vec<ConstantPoolInfo> = Vec::new();
    let n: usize = if constant_pool_count == 0 {
        0
    } else {
        constant_pool_count - 1
    };
    let ghost s = reader@.input;
    let ghost start = reader@;
    let mut i: usize = 0;
    while i < n
        invariant
            i <= n,
            n == pool_len(constant_pool_count as nat),
            reader.wf(),
            start == old(reader)@,
            s == start.input,
            reader@.input == s,
            reader@.blocks == start.blocks,
            start.pos <= reader@.pos,
            pool_well_tagged(pool@),
            spec_constants(s, start.pos as int, n as nat) == prepend(
                pool_view(pool@),
                (reader@.pos - start.pos) as nat,
                spec_constants(s, reader@.pos as int, (n - i) as nat),
            ),
        decreases n - i,
    {
        let ghost before = reader@;
        let ghost acc = pool_view(pool@);
        let info = read_constant_pool_info(reader)?;
        pool.push(info);
        i = i + 1;
        proof {
            let (first, used) = spec_constant(s, before.pos as int)->Ok_0;
            let tail = spec_constants(s, (before.pos + used) as int, (n - i) as nat);
            assert(spec_constants(s, before.pos as int, (n - i + 1) as nat) == prepend(
                seq![first],
                used,
                tail,
            ));
            lemma_prepend_twice(acc, (before.pos - start.pos) as nat, seq![first], used, tail);
            assert(pool_view(pool@) =~= acc + seq![first]);
        }
    }
    proof {
        assert(pool_view(pool@) + Seq::<Constant>::empty() =~= pool_view(pool@));
        assert(reader@ == start.advance((reader@.pos - start.pos) as nat));
    }
    Ok(pool)
}

/// How many entries a pool with the declared count `count` holds: the count
/// includes the slot of index zero, which does not exist.
pub open spec fn pool_len(count: nat) -> nat {
    if count == 0 {
        0
    } else {
        (count - 1) as nat
    }
}

/// The text that the pool holds at `index`, where `index` names UTF-8 text.
pub open spec fn spec_name(pool: Seq<Constant>, index: int) -> Option<Seq<char>> {
    if 1 <= index <= pool.len() {
        match pool[index - 1] {
            Constant::Utf8 { text } => Some(text),
            _ => None,
        }
    } else {
        None
    }
}

/// The text of the pool entry at `attribute_name_index`, which must be
/// UTF-8 text.
pub fn get_name_info(
    constant_pool_infos: &Vec<ConstantPoolInfo>,
    attribute_name_index: &usize,
) -> (r: Result<String, DecodeError>)
    ensures
        match spec_name(pool_view(constant_pool_infos@), *attribute_name_index as int) {
            Some(text) => r matches Ok(name) && name@ == text,
            None => r == Err::<String, DecodeError>(
                DecodeError::BadNameIndex { index: *attribute_name_index },
            ),
        },
{
    let index = *attribute_name_index;
    if index == 0 || index > constant_pool_infos.len() {
        return Err(DecodeError::BadNameIndex { index });
    }
    match &constant_pool_infos[index - 1] {
        ConstantPoolInfo::Utf8(i) => Ok(i.string.clone()),
        _ => Err(DecodeError::BadNameIndex { index }),
    }
}

} // verus!
