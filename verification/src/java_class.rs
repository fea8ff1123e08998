//! The class as a whole: its fields and methods, the grammar of a class
//! file, the decoder, and the checks of magic number and version.
use crate::attributes::{
    attribute_infos_view, read_attributes, spec_attribute_list, AttributeInfo, AttributeInfoModel,
};
use crate::bytes_reader::{be_u16, be_u32, BytesReader};
use crate::class_flags::ClassFlags;
use crate::constant_pool::{
    get_name_info, lemma_prepend_twice, pool_len, pool_view, pool_well_tagged, prepend,
    read_constant_pool, spec_constant, spec_constants, spec_name, Constant, ConstantPoolInfo,
};
use crate::error::{prelude_mismatch_message, unsupported_version_message, DecodeError};
use vstd::prelude::*;

verus! {

/// The magic number that every class file starts with.
pub const PRELUDE: u32 = 0xCAFEBABE;

/// The major version that the first version label belongs to.
pub const VERSION_SHIFT: u16 = 45;

#[derive(Debug, PartialEq)]
pub struct FieldInfo {
    pub access_flags: u16,
    pub name_index: usize,
    pub name: String,
    pub descriptor_index: usize,
    pub attributes_info: Vec<AttributeInfo>,
}

#[derive(Debug, PartialEq)]
pub struct MethodInfo {
    pub access_flags: u16,
    pub name_index: usize,
    pub name: String,
    pub descriptor_index: usize,
    pub attributes_info: Vec<AttributeInfo>,
}

#[derive(PartialEq, Debug)]
pub struct JavaClass {
    pub prelude: u32,
    pub major: u16,
    pub minor: u16,
    pub constant_pool_count: usize,
    pub constant_pool_infos: Vec<ConstantPoolInfo>,
    pub flags: ClassFlags,
    pub this_class: usize,
    pub super_class: usize,
    pub interfaces_count: usize,
    pub interfaces_indexes: Vec<usize>,
    pub fields: Vec<FieldInfo>,
    pub methods: Vec<MethodInfo>,
}

/// What a field or a method holds, as mathematics. `name` is the text that
/// the pool held at `name_index` when the member was decoded.
pub struct MemberModel {
    pub access_flags: u16,
    pub name_index: nat,
    pub name: Seq<char>,
    pub descriptor_index: nat,
    pub attributes_info: Seq<AttributeInfoModel>,
}

/// What a class holds, as mathematics.
pub struct ClassModel {
    pub prelude: u32,
    pub major: u16,
    pub minor: u16,
    pub constant_pool_count: nat,
    pub constant_pool_infos: Seq<Constant>,
    pub flags: u16,
    pub this_class: nat,
    pub super_class: nat,
    pub interfaces_count: nat,
    pub interfaces_indexes: Seq<nat>,
    pub fields: Seq<MemberModel>,
    pub methods: Seq<MemberModel>,
}

impl View for FieldInfo {
    type V = MemberModel;

    open spec fn view(&self) -> MemberModel {
        MemberModel {
            access_flags: self.access_flags,
            name_index: self.name_index as nat,
            name: self.name@,
            descriptor_index: self.descriptor_index as nat,
            attributes_info: attribute_infos_view(self.attributes_info@),
        }
    }
}

impl View for MethodInfo {
    type V = MemberModel;

    open spec fn view(&self) -> MemberModel {
        MemberModel {
            access_flags: self.access_flags,
            name_index: self.name_index as nat,
            name: self.name@,
            descriptor_index: self.descriptor_index as nat,
            attributes_info: attribute_infos_view(self.attributes_info@),
        }
    }
}

/// The models of a list of stored fields, in order.
pub open spec fn fields_view(fields: Seq<FieldInfo>) -> Seq<MemberModel> {
    Seq::new(fields.len(), |i: int| fields[i]@)
}

/// The models of a list of stored methods, in order.
pub open spec fn methods_view(methods: Seq<MethodInfo>) -> Seq<MemberModel> {
    Seq::new(methods.len(), |i: int| methods[i]@)
}

/// A list of stored indices as numbers.
pub open spec fn indexes_view(indexes: Seq<usize>) -> Seq<nat> {
    Seq::new(indexes.len(), |i: int| indexes[i] as nat)
}

impl View for JavaClass {
    type V = ClassModel;

    open spec fn view(&self) -> ClassModel {
        ClassModel {
            prelude: self.prelude,
            major: self.major,
            minor: self.minor,
            constant_pool_count: self.constant_pool_count as nat,
            constant_pool_infos: pool_view(self.constant_pool_infos@),
            flags: self.flags@,
            this_class: self.this_class as nat,
            super_class: self.super_class as nat,
            interfaces_count: self.interfaces_count as nat,
            interfaces_indexes: indexes_view(self.interfaces_indexes@),
            fields: fields_view(self.fields@),
            methods: methods_view(self.methods@),
        }
    }
}

/// The labels of the supported versions, the label of major version 45 first.
pub open spec fn version_labels() -> Seq<Seq<char>> {
    seq![
        "1.1"@,
        "1.2"@,
        "1.3"@,
        "1.4"@,
        "5.0"@,
        "6"@,
        "7"@,
        "8"@,
        "9"@,
        "10"@,
        "11"@,
        "12"@,
        "13"@,
        "14"@,
        "15"@,
        "16"@,
        "17"@,
        "18"@,
        "19"@,
        "20"@,
    ]
}

/// The field or method that starts at `pos`, and the bytes it takes: two
/// bytes of access flags, a name index that must name UTF-8 text in `pool`,
/// a descriptor index, and an attribute list.
pub open spec fn spec_member(s: Seq<u8>, pos: int, pool: Seq<Constant>) -> Result<
    (MemberModel, nat),
    DecodeError,
> {
    if pos + 4 > s.len() {
        Err(DecodeError::UnexpectedEof)
    } else {
        match spec_name(pool, be_u16(s, pos + 2)) {
            None => Err(DecodeError::BadNameIndex { index: be_u16(s, pos + 2) as usize }),
            Some(name) => if pos + 6 > s.len() {
                Err(DecodeError::UnexpectedEof)
            } else {
                match spec_attribute_list(s, pos + 6, pool) {
                    Err(e) => Err(e),
                    Ok((attributes_info, used)) => Ok(
                        (
                            MemberModel {
                                access_flags: be_u16(s, pos) as u16,
                                name_index: be_u16(s, pos + 2) as nat,
                                name,
                                descriptor_index: be_u16(s, pos + 4) as nat,
                                attributes_info,
                            },
                            6 + used,
                        ),
                    ),
                }
            },
        }
    }
}

/// The `n` fields or methods that start at `pos`, one after the other.
pub open spec fn spec_members(s: Seq<u8>, pos: int, pool: Seq<Constant>, n: nat) -> Result<
    (Seq<MemberModel>, nat),
    DecodeError,
>
    decreases n,
{
    if n == 0 {
        Ok((Seq::empty(), 0nat))
    } else {
        match spec_member(s, pos, pool) {
            Err(e) => Err(e),
            Ok((first, used)) => match spec_members(s, pos + used, pool, (n - 1) as nat) {
                Err(e) => Err(e),
                Ok((rest, more)) => Ok((seq![first] + rest, used + more)),
            },
        }
    }
}

/// The list of fields or methods that starts at `pos`: a two-byte count, then
/// that many members.
pub open spec fn spec_member_list(s: Seq<u8>, pos: int, pool: Seq<Constant>) -> Result<
    (Seq<MemberModel>, nat),
    DecodeError,
> {
    if pos + 2 > s.len() {
        Err(DecodeError::UnexpectedEof)
    } else {
        match spec_members(s, pos + 2, pool, be_u16(s, pos) as nat) {
            Err(e) => Err(e),
            Ok((members, used)) => Ok((members, 2 + used)),
        }
    }
}

/// The `n` two-byte indices that start at `at`.
pub open spec fn spec_indexes(s: Seq<u8>, at: int, n: nat) -> Seq<nat> {
    Seq::new(n, |i: int| be_u16(s, at + 2 * i) as nat)
}

/// What comes after the constant pool, which ended at `at` and gave `pool`:
/// flags, this class, super class, the interfaces, the fields, the methods.
/// Bytes after the methods are not looked at.
pub open spec fn spec_class_body(
    s: Seq<u8>,
    at: int,
    pool: Seq<Constant>,
) -> Result<ClassModel, DecodeError> {
    if at + 8 > s.len() || at + 8 + 2 * be_u16(s, at + 6) > s.len() {
        Err(DecodeError::UnexpectedEof)
    } else {
        let interfaces_count = be_u16(s, at + 6) as nat;
        let fields_at = at + 8 + 2 * interfaces_count;
        match spec_member_list(s, fields_at, pool) {
            Err(e) => Err(e),
            Ok((fields, fields_used)) => match spec_member_list(s, fields_at + fields_used, pool) {
                Err(e) => Err(e),
                Ok((methods, _)) => Ok(
                    ClassModel {
                        prelude: be_u32(s, 0) as u32,
                        minor: be_u16(s, 4) as u16,
                        major: be_u16(s, 6) as u16,
                        constant_pool_count: be_u16(s, 8) as nat,
                        constant_pool_infos: pool,
                        flags: be_u16(s, at) as u16,
                        this_class: be_u16(s, at + 2) as nat,
                        super_class: be_u16(s, at + 4) as nat,
                        interfaces_count,
                        interfaces_indexes: spec_indexes(s, at + 8, interfaces_count),
                        fields,
                        methods,
                    },
                ),
            },
        }
    }
}

/// Whether `major` is a major version that has a label.
pub open spec fn supported_version(major: int) -> bool {
    45 <= major <= 64
}

/// The class that the bytes `s` hold, or why they hold none.
///
/// In file order: a four-byte magic number, which must be the reserved one;
/// two-byte minor and major versions, of which the major version must be a
/// supported one; a two-byte constant-pool count and the pool; then what
/// `spec_class_body` describes. The magic number is held against the
/// reserved one as soon as it is read, before the versions are looked at,
/// and the major version as soon as it is read, before the pool is looked
/// at.
pub open spec fn spec_class(s: Seq<u8>) -> Result<ClassModel, DecodeError> {
    if 4 > s.len() {
        Err(DecodeError::UnexpectedEof)
    } else if be_u32(s, 0) != PRELUDE {
        Err(DecodeError::BadPrelude { prelude: be_u32(s, 0) as u32 })
    } else if 8 > s.len() {
        Err(DecodeError::UnexpectedEof)
    } else if !supported_version(be_u16(s, 6)) {
        Err(DecodeError::UnsupportedVersion { major: be_u16(s, 6) as u16 })
    } else if 10 > s.len() {
        Err(DecodeError::UnexpectedEof)
    } else {
        match spec_constants(s, 10, pool_len(be_u16(s, 8) as nat)) {
            Err(e) => Err(e),
            Ok((pool, used)) => spec_class_body(s, 10int + used, pool),
        }
    }
}

/// The label of the supported version number `index`, counted from zero.
fn version_label(index: u16) -> (r: &'static str)
    requires
        index < 20,
    ensures
        r@ == version_labels()[index as int],
{
    if index == 0 {
        "1.1"
    } else if index == 1 {
        "1.2"
    } else if index == 2 {
        "1.3"
    } else if index == 3 {
        "1.4"
    } else if index == 4 {
        "5.0"
    } else if index == 5 {
        "6"
    } else if index == 6 {
        "7"
    } else if index == 7 {
        "8"
    } else if index == 8 {
        "9"
    } else if index == 9 {
        "10"
    } else if index == 10 {
        "11"
    } else if index == 11 {
        "12"
    } else if index == 12 {
        "13"
    } else if index == 13 {
        "14"
    } else if index == 14 {
        "15"
    } else if index == 15 {
        "16"
    } else if index == 16 {
        "17"
    } else if index == 17 {
        "18"
    } else if index == 18 {
        "19"
    } else {
        "20"
    }
}

/// Reads `n` two-byte indices.
pub fn read_indexes(reader: &mut BytesReader, n: usize) -> (r: Result<Vec<usize>, DecodeError>)
    requires
        old(reader).wf(),
    ensures
        final(reader).wf(),
        old(reader)@.reaches(final(reader)@),
        old(reader)@.remaining() >= 2 * n ==> (r matches Ok(v) && indexes_view(v@) == spec_indexes(
            old(reader)@.input,
            old(reader)@.pos as int,
            n as nat,
        )) && final(reader)@ == old(reader)@.advance((2 * n) as nat),
        old(reader)@.remaining() < 2 * n ==> r == Err::<Vec<usize>, DecodeError>(
            DecodeError::UnexpectedEof,
        ),
{
    let mut indexes: Vec<usize> = Vec::new();
    let ghost start = reader@;
    let mut i: usize = 0;
    while i < n
        invariant
            i <= n,
            reader.wf(),
            start == old(reader)@,
            reader@ == start.advance((2 * i) as nat),
            indexes@.len() == i,
            forall|j: int|
                0 <= j < i ==> #[trigger] indexes@[j] == be_u16(start.input, start.pos + 2 * j),
        decreases n - i,
    {
        let index = reader.read_u16()? as usize;
        indexes.push(index);
        i = i + 1;
    }
    proof {
        reader.lemma_view_wf();
        assert(indexes_view(indexes@) =~= spec_indexes(start.input, start.pos as int, n as nat));
    }
    Ok(indexes)
}

/// Reads one field.
pub fn read_field(reader: &mut BytesReader, constant_pool_infos: &Vec<ConstantPoolInfo>) -> (r:
    Result<FieldInfo, DecodeError>)
    requires
        old(reader).wf(),
    ensures
        final(reader).wf(),
        old(reader)@.reaches(final(reader)@),
        match spec_member(
            old(reader)@.input,
            old(reader)@.pos as int,
            pool_view(constant_pool_infos@),
        ) {
            Ok((member, used)) => (r matches Ok(field) && field@ == member) && final(reader)@
                == old(reader)@.advance(used),
            Err(e) => r == Err::<FieldInfo, DecodeError>(e),
        },
{
    proof {
        old(reader).lemma_view_wf();
    }
    let access_flags = reader.read_u16()?;
    let name_index = reader.read_u16()? as usize;
    let name = get_name_info(constant_pool_infos, &name_index)?;
    let descriptor_index = reader.read_u16()? as usize;
    let attributes_info = read_attributes(reader, constant_pool_infos)?;
    Ok(FieldInfo { access_flags, name_index, name, descriptor_index, attributes_info })
}

/// Reads one method.
pub fn read_method(reader: &mut BytesReader, constant_pool_infos: &Vec<ConstantPoolInfo>) -> (r:
    Result<MethodInfo, DecodeError>)
    requires
        old(reader).wf(),
    ensures
        final(reader).wf(),
        old(reader)@.reaches(final(reader)@),
        match spec_member(
            old(reader)@.input,
            old(reader)@.pos as int,
            pool_view(constant_pool_infos@),
        ) {
            Ok((member, used)) => (r matches Ok(method) && method@ == member) && final(reader)@
                == old(reader)@.advance(used),
            Err(e) => r == Err::<MethodInfo, DecodeError>(e),
        },
{
    proof {
        old(reader).lemma_view_wf();
    }
    let access_flags = reader.read_u16()?;
    let name_index = reader.read_u16()? as usize;
    let name = get_name_info(constant_pool_infos, &name_index)?;
    let descriptor_index = reader.read_u16()? as usize;
    let attributes_info = read_attributes(reader, constant_pool_infos)?;
    Ok(MethodInfo { access_flags, name_index, name, descriptor_index, attributes_info })
}

/// Reads `fields_count` fields, one after the other.
pub fn read_fields(
    reader: &mut BytesReader,
    constant_pool_infos: &Vec<ConstantPoolInfo>,
    fields_count: usize,
) -> (r: Result<Vec<FieldInfo>, DecodeError>)
    requires
        old(reader).wf(),
    ensures
        final(reader).wf(),
        old(reader)@.reaches(final(reader)@),
        match spec_members(
            old(reader)@.input,
            old(reader)@.pos as int,
            pool_view(constant_pool_infos@),
            fields_count as nat,
        ) {
            Ok((members, used)) => (r matches Ok(v) && fields_view(v@) == members) && final(reader)@
                == old(reader)@.advance(used),
            Err(e) => r == Err::<Vec<FieldInfo>, DecodeError>(e),
        },
{
    let ghost pool = pool_view(constant_pool_infos@);
    let ghost s = reader@.input;
    let ghost start = reader@;
    let mut fields: Vec<FieldInfo> = Vec::new();
    let mut i: usize = 0;
    while i < fields_count
        invariant
            i <= fields_count,
            reader.wf(),
            start == old(reader)@,
            s == start.input,
            pool == pool_view(constant_pool_infos@),
            reader@.input == s,
            reader@.blocks == start.blocks,
            start.pos <= reader@.pos,
            spec_members(s, start.pos as int, pool, fields_count as nat) == prepend(
                fields_view(fields@),
                (reader@.pos - start.pos) as nat,
                spec_members(s, reader@.pos as int, pool, (fields_count - i) as nat),
            ),
        decreases fields_count - i,
    {
        let ghost before = reader@;
        let ghost acc = fields_view(fields@);
        let field = read_field(reader, constant_pool_infos)?;
        fields.push(field);
        i = i + 1;
        proof {
            let (first, used) = spec_member(s, before.pos as int, pool)->Ok_0;
            let tail = spec_members(s, (before.pos + used) as int, pool, (fields_count - i) as nat);
            assert(spec_members(s, before.pos as int, pool, (fields_count - i + 1) as nat)
                == prepend(seq![first], used, tail));
            lemma_prepend_twice(acc, (before.pos - start.pos) as nat, seq![first], used, tail);
            assert(fields_view(fields@) =~= acc + seq![first]);
        }
    }
    proof {
        assert(fields_view(fields@) + Seq::<MemberModel>::empty() =~= fields_view(fields@));
        assert(reader@ == start.advance((reader@.pos - start.pos) as nat));
    }
    Ok(fields)
}

/// Reads `methods_count` methods, one after the other.
pub fn read_methods(
    reader: &mut BytesReader,
    constant_pool_infos: &Vec<ConstantPoolInfo>,
    methods_count: usize,
) -> (r: Result<Vec<MethodInfo>, DecodeError>)
    requires
        old(reader).wf(),
    ensures
        final(reader).wf(),
        old(reader)@.reaches(final(reader)@),
        match spec_members(
            old(reader)@.input,
            old(reader)@.pos as int,
            pool_view(constant_pool_infos@),
            methods_count as nat,
        ) {
            Ok((members, used)) => (r matches Ok(v) && methods_view(v@) == members)
                && final(reader)@ == old(reader)@.advance(used),
            Err(e) => r == Err::<Vec<MethodInfo>, DecodeError>(e),
        },
{
    let ghost pool = pool_view(constant_pool_infos@);
    let ghost s = reader@.input;
    let ghost start = reader@;
    let mut methods: Vec<MethodInfo> = Vec::new();
    let mut i: usize = 0;
    while i < methods_count
        invariant
            i <= methods_count,
            reader.wf(),
            start == old(reader)@,
            s == start.input,
            pool == pool_view(constant_pool_infos@),
            reader@.input == s,
            reader@.blocks == start.blocks,
            start.pos <= reader@.pos,
            spec_members(s, start.pos as int, pool, methods_count as nat) == prepend(
                methods_view(methods@),
                (reader@.pos - start.pos) as nat,
                spec_members(s, reader@.pos as int, pool, (methods_count - i) as nat),
            ),
        decreases methods_count - i,
    {
        let ghost before = reader@;
        let ghost acc = methods_view(methods@);
        let method = read_method(reader, constant_pool_infos)?;
        methods.push(method);
        i = i + 1;
        proof {
            let (first, used) = spec_member(s, before.pos as int, pool)->Ok_0;
            let tail = spec_members(
                s,
                (before.pos + used) as int,
                pool,
                (methods_count - i) as nat,
            );
            assert(spec_members(s, before.pos as int, pool, (methods_count - i + 1) as nat)
                == prepend(seq![first], used, tail));
            lemma_prepend_twice(acc, (before.pos - start.pos) as nat, seq![first], used, tail);
            assert(methods_view(methods@) =~= acc + seq![first]);
        }
    }
    proof {
        assert(methods_view(methods@) + Seq::<MemberModel>::empty() =~= methods_view(methods@));
        assert(reader@ == start.advance((reader@.pos - start.pos) as nat));
    }
    Ok(methods)
}

/// Reads a two-byte count and that many fields.
pub fn read_field_list(reader: &mut BytesReader, constant_pool_infos: &Vec<ConstantPoolInfo>) -> (r:
    Result<Vec<FieldInfo>, DecodeError>)
    requires
        old(reader).wf(),
    ensures
        final(reader).wf(),
        old(reader)@.reaches(final(reader)@),
        match spec_member_list(
            old(reader)@.input,
            old(reader)@.pos as int,
            pool_view(constant_pool_infos@),
        ) {
            Ok((members, used)) => (r matches Ok(v) && fields_view(v@) == members) && final(reader)@
                == old(reader)@.advance(used),
            Err(e) => r == Err::<Vec<FieldInfo>, DecodeError>(e),
        },
{
    proof {
        old(reader).lemma_view_wf();
    }
    let fields_count = reader.read_u16()? as usize;
    read_fields(reader, constant_pool_infos, fields_count)
}

/// Reads a two-byte count and that many methods.
pub fn read_method_list(
    reader: &mut BytesReader,
    constant_pool_infos: &Vec<ConstantPoolInfo>,
) -> (r: Result<Vec<MethodInfo>, DecodeError>)
    requires
        old(reader).wf(),
    ensures
        final(reader).wf(),
        old(reader)@.reaches(final(reader)@),
        match spec_member_list(
            old(reader)@.input,
            old(reader)@.pos as int,
            pool_view(constant_pool_infos@),
        ) {
            Ok((members, used)) => (r matches Ok(v) && methods_view(v@) == members)
                && final(reader)@ == old(reader)@.advance(used),
            Err(e) => r == Err::<Vec<MethodInfo>, DecodeError>(e),
        },
{
    proof {
        old(reader).lemma_view_wf();
    }
    let methods_count = reader.read_u16()? as usize;
    read_methods(reader, constant_pool_infos, methods_count)
}

impl JavaClass {
    /// What holds of every class that was decoded: every entry of the
    /// constant pool carries the tag byte of its own shape, and the counts
    /// and the names that the class carries agree with what it holds.
    pub open spec fn wf(&self) -> bool {
        &&& pool_well_tagged(self.constant_pool_infos@)
        &&& self@.consistent()
    }

    /// The label of a supported major version, or a message that says that
    /// the version is not supported.
    pub fn resolve_version(major: u16) -> (r: Result<&'static str, String>)
        ensures
            45 <= major <= 64 ==> (r matches Ok(label) && label@ == version_labels()[major - 45]),
            !(45 <= major <= 64) ==> (r matches Err(message) && message@
                == unsupported_version_message(major)),
    {
        if major < VERSION_SHIFT || major - VERSION_SHIFT > 19 {
            Err(DecodeError::UnsupportedVersion { major }.message())
        } else {
            Ok(version_label(major - VERSION_SHIFT))
        }
    }

    /// Accepts the reserved magic number and nothing else; the message names
    /// the number that was found and the one that was expected.
    pub fn check_prelude(prelude: u32) -> (r: Result<(), String>)
        ensures
            prelude == 0xCAFEBABE ==> r is Ok,
            prelude != 0xCAFEBABE ==> (r matches Err(message) && message@
                == prelude_mismatch_message(prelude)),
    {
        if prelude == PRELUDE {
            Ok(())
        } else {
            Err(DecodeError::BadPrelude { prelude }.message())
        }
    }

    /// Decodes a class from the bytes of a class file. A file that does not
    /// start with the reserved magic number, or whose major version is not a
    /// supported one, is not decoded.
    pub fn load_from_bytes(bytes: &[u8]) -> (r: Result<JavaClass, DecodeError>)
        ensures
            match spec_class(bytes@) {
                Ok(model) => r matches Ok(class) && class@ == model && class.wf(),
                Err(e) => r == Err::<JavaClass, DecodeError>(e),
            },
    {
        proof {
            lemma_decoded_class_is_consistent(bytes@);
        }
        let mut bytes_reader = BytesReader::new(bytes);
        let prelude = bytes_reader.read_u32()?;
        if Self::check_prelude(prelude).is_err() {
            return Err(DecodeError::BadPrelude { prelude });
        }
        let minor = bytes_reader.read_u16()?;
        let major = bytes_reader.read_u16()?;
        if Self::resolve_version(major).is_err() {
            return Err(DecodeError::UnsupportedVersion { major });
        }
        let constant_pool_count = bytes_reader.read_u16()? as usize;
        let constant_pool_infos = read_constant_pool(&mut bytes_reader, constant_pool_count)?;
        Self::read_class_body(
            &mut bytes_reader,
            prelude,
            minor,
            major,
            constant_pool_count,
            constant_pool_infos,
        )
    }

    /// Reads what comes after the constant pool and puts the class together.
    fn read_class_body(
        bytes_reader: &mut BytesReader,
        prelude: u32,
        minor: u16,
        major: u16,
        constant_pool_count: usize,
        constant_pool_infos: Vec<ConstantPoolInfo>,
    ) -> (r: Result<JavaClass, DecodeError>)
        requires
            old(bytes_reader).wf(),
            pool_well_tagged(constant_pool_infos@),
        ensures
            match spec_class_body(
                old(bytes_reader)@.input,
                old(bytes_reader)@.pos as int,
                pool_view(constant_pool_infos@),
            ) {
                Ok(model) => r matches Ok(class) && pool_well_tagged(class.constant_pool_infos@)
                    && class@ == (ClassModel {
                    prelude,
                    minor,
                    major,
                    constant_pool_count: constant_pool_count as nat,
                    ..model
                }),
                Err(e) => r == Err::<JavaClass, DecodeError>(e),
            },
    {
        proof {
            old(bytes_reader).lemma_view_wf();
        }
        let flags = ClassFlags::new(bytes_reader.read_u16()?);
        let this_class = bytes_reader.read_u16()? as usize;
        let super_class = bytes_reader.read_u16()? as usize;
        let interfaces_count = bytes_reader.read_u16()? as usize;
        let interfaces_indexes = read_indexes(bytes_reader, interfaces_count)?;
        proof {
            bytes_reader.lemma_view_wf();
        }
        let fields = read_field_list(bytes_reader, &constant_pool_infos)?;
        let methods = read_method_list(bytes_reader, &constant_pool_infos)?;
        Ok(
            JavaClass {
                prelude,
                major,
                minor,
                constant_pool_count,
                constant_pool_infos,
                flags,
                this_class,
                super_class,
                interfaces_count,
                interfaces_indexes,
                fields,
                methods,
            },
        )
    }
}


/// The name that the member carries is the text that the pool holds at the
/// member's name index.
pub open spec fn member_name_resolves(pool: Seq<Constant>, member: MemberModel) -> bool {
    spec_name(pool, member.name_index as int) == Some(member.name)
}

impl ClassModel {
    /// The magic number is the reserved one and the major version is a
    /// supported one; the pool holds one entry fewer than the declared count
    /// (none where the count is zero), there are as many interface indices
    /// as declared, and every field and every method carries the name that
    /// the pool holds at its name index.
    pub open spec fn consistent(self) -> bool {
        &&& self.prelude == PRELUDE
        &&& supported_version(self.major as int)
        &&& self.constant_pool_infos.len() == pool_len(self.constant_pool_count)
        &&& self.interfaces_indexes.len() == self.interfaces_count
        &&& forall|i: int|
            0 <= i < self.fields.len() ==> member_name_resolves(
                self.constant_pool_infos,
                #[trigger] self.fields[i],
            )
        &&& forall|i: int|
            0 <= i < self.methods.len() ==> member_name_resolves(
                self.constant_pool_infos,
                #[trigger] self.methods[i],
            )
    }
}

/// A row of `n` entries that decodes holds `n` entries.
pub proof fn lemma_decoded_constants_count(s: Seq<u8>, pos: int, n: nat)
    ensures
        spec_constants(s, pos, n) matches Ok((pool, _)) ==> pool.len() == n,
    decreases n,
{
    if n > 0 {
        if let Ok((_, used)) = spec_constant(s, pos) {
            lemma_decoded_constants_count(s, pos + used, (n - 1) as nat);
        }
    }
}

/// A row of `n` members that decodes holds `n` members, and each carries
/// the name that the pool holds at its name index.
pub proof fn lemma_decoded_members_carry_their_names(
    s: Seq<u8>,
    pos: int,
    pool: Seq<Constant>,
    n: nat,
)
    ensures
        spec_members(s, pos, pool, n) matches Ok((members, _)) ==> members.len() == n && forall|
            i: int,
        |
            0 <= i < n ==> member_name_resolves(pool, #[trigger] members[i]),
    decreases n,
{
    if n > 0 {
        if let Ok((_, used)) = spec_member(s, pos, pool) {
            lemma_decoded_members_carry_their_names(s, pos + used, pool, (n - 1) as nat);
        }
    }
}

/// A class that decodes is consistent: it has the reserved magic number and
/// a supported major version, its counts agree with what it holds, and the
/// name indices of its fields and methods land on text, which is the name
/// that the member carries.
pub proof fn lemma_decoded_class_is_consistent(s: Seq<u8>)
    ensures
        spec_class(s) matches Ok(class) ==> class.consistent(),
{
    if let Ok(class) = spec_class(s) {
        lemma_decoded_constants_count(s, 10, pool_len(be_u16(s, 8) as nat));
        let (pool, used) = spec_constants(s, 10, pool_len(be_u16(s, 8) as nat))->Ok_0;
        let at = 10int + used;
        let fields_at = at + 8 + 2 * be_u16(s, at + 6);
        lemma_decoded_members_carry_their_names(
            s,
            fields_at + 2,
            pool,
            be_u16(s, fields_at) as nat,
        );
        let fields_used = spec_member_list(s, fields_at, pool)->Ok_0.1;
        let methods_at = fields_at + fields_used;
        lemma_decoded_members_carry_their_names(
            s,
            methods_at + 2,
            pool,
            be_u16(s, methods_at) as nat,
        );
    }
}

} // verus!
