//! Attributes: named, length-delimited blocks attached to fields, methods
//! and code. A code attribute holds attributes of its own.
use crate::bytes_reader::{be_u16, be_u32, BytesReader};
use crate::constant_pool::{
    get_name_info, lemma_prepend_twice, pool_view, prepend, spec_name, Constant, ConstantPoolInfo,
};
use crate::line::Line;
use crate::error::DecodeError;
use vstd::prelude::*;

verus! {

#[derive(Debug, PartialEq)]
pub struct AttributeConstantValue {
    pub constant_value_index: usize,
}

#[derive(Debug, PartialEq)]
pub struct ExceptionTableEntry {
    pub start_pc: usize,
    pub end_pc: usize,
    pub handler_pc: usize,
    pub catch_pc: usize,
}

#[derive(Debug, PartialEq)]
pub struct LineNumberTableEntry {
    pub start_pc: usize,
    pub line_number: usize,
}

#[derive(Debug, PartialEq)]
pub struct AttributeCode {
    pub attribute_name_index: usize,
    pub max_stack: usize,
    pub max_locals: usize,
    pub code_length: usize,
    pub code: Vec<u8>,
    pub exceptions: Vec<ExceptionTableEntry>,
    pub attributes: Vec<AttributeInfo>,
}

#[derive(Debug, PartialEq)]
pub struct AttributeExceptions {}

#[derive(Debug, PartialEq)]
pub struct AttributeSourceFile {}

#[derive(Debug, PartialEq)]
pub struct AttributeLineNumberTable {
    pub attribute_name_index: usize,
    pub attribute_name: String,
    pub attribute_length: usize,
    pub line_number_entries: Vec<LineNumberTableEntry>,
}

#[derive(Debug, PartialEq)]
pub struct AttributeLocalVariableTable {}

#[derive(Debug, PartialEq)]
pub struct AttributeInnerClasses {}

#[derive(Debug, PartialEq)]
pub struct AttributeSynthetic {}

#[derive(Debug, PartialEq)]
pub struct AttributeDeprecated {}

/// What an attribute holds. Each kind has a name of its own, and an
/// attribute with that name decodes into that kind. Constant values, code
/// and line-number tables have a layout; of the other six kinds only the
/// presence is kept, and their bodies are passed over.
#[derive(Debug, PartialEq)]
pub enum Attribute {
    ConstantValue(AttributeConstantValue),
    Code(AttributeCode),
    Exceptions(AttributeExceptions),
    SourceFile(AttributeSourceFile),
    LineNumberTable(AttributeLineNumberTable),
    LocalVariableTable(AttributeLocalVariableTable),
    InnerClasses(AttributeInnerClasses),
    Synthetic(AttributeSynthetic),
    Deprecated(AttributeDeprecated),
}

#[derive(Debug, PartialEq)]
pub struct AttributeInfo {
    pub attribute_name_index: usize,
    pub attribute: Attribute,
}

/// What an attribute holds, as mathematics.
pub enum AttributeModel {
    ConstantValue { constant_value_index: nat },
    Code {
        attribute_name_index: nat,
        max_stack: nat,
        max_locals: nat,
        code_length: nat,
        code: Seq<u8>,
        exceptions: Seq<ExceptionTableEntry>,
        attributes: Seq<AttributeInfoModel>,
    },
    Exceptions,
    SourceFile,
    LineNumberTable {
        attribute_name_index: nat,
        attribute_name: Seq<char>,
        attribute_length: nat,
        line_number_entries: Seq<LineNumberTableEntry>,
    },
    LocalVariableTable,
    InnerClasses,
    Synthetic,
    Deprecated,
}

/// A named attribute, as mathematics.
pub struct AttributeInfoModel {
    pub attribute_name_index: nat,
    pub attribute: AttributeModel,
}

/// The model of a stored attribute; a code attribute's own attributes are
/// taken the same way, to any depth.
pub open spec fn attribute_info_view(info: AttributeInfo) -> AttributeInfoModel
    decreases info,
{
    AttributeInfoModel {
        attribute_name_index: info.attribute_name_index as nat,
        attribute: match info.attribute {
            Attribute::ConstantValue(c) => AttributeModel::ConstantValue {
                constant_value_index: c.constant_value_index as nat,
            },
            Attribute::Code(c) => AttributeModel::Code {
                attribute_name_index: c.attribute_name_index as nat,
                max_stack: c.max_stack as nat,
                max_locals: c.max_locals as nat,
                code_length: c.code_length as nat,
                code: c.code@,
                exceptions: c.exceptions@,
                attributes: Seq::new(
                    c.attributes@.len(),
                    |i: int|
                        if 0 <= i < c.attributes@.len() {
                            attribute_info_view(c.attributes@[i])
                        } else {
                            arbitrary()
                        },
                ),
            },
            Attribute::Exceptions(_) => AttributeModel::Exceptions,
            Attribute::SourceFile(_) => AttributeModel::SourceFile,
            Attribute::LineNumberTable(t) => AttributeModel::LineNumberTable {
                attribute_name_index: t.attribute_name_index as nat,
                attribute_name: t.attribute_name@,
                attribute_length: t.attribute_length as nat,
                line_number_entries: t.line_number_entries@,
            },
            Attribute::LocalVariableTable(_) => AttributeModel::LocalVariableTable,
            Attribute::InnerClasses(_) => AttributeModel::InnerClasses,
            Attribute::Synthetic(_) => AttributeModel::Synthetic,
            Attribute::Deprecated(_) => AttributeModel::Deprecated,
        },
    }
}

impl View for AttributeInfo {
    type V = AttributeInfoModel;

    open spec fn view(&self) -> AttributeInfoModel {
        attribute_info_view(*self)
    }
}

/// The models of a list of stored attributes, in order.
pub open spec fn attribute_infos_view(attributes: Seq<AttributeInfo>) -> Seq<AttributeInfoModel> {
    Seq::new(attributes.len(), |i: int| attributes[i]@)
}

/// How many bytes of `s` lie at or after `pos`.
pub open spec fn bytes_from(s: Seq<u8>, pos: int) -> nat {
    if pos <= s.len() {
        (s.len() - pos) as nat
    } else {
        0
    }
}

/// The exception table of `n` entries that starts at `at`: four two-byte
/// values an entry.
pub open spec fn spec_exception_table(s: Seq<u8>, at: int, n: nat) -> Seq<ExceptionTableEntry> {
    Seq::new(
        n,
        |i: int|
            ExceptionTableEntry {
                start_pc: be_u16(s, at + 8 * i) as usize,
                end_pc: be_u16(s, at + 8 * i + 2) as usize,
                handler_pc: be_u16(s, at + 8 * i + 4) as usize,
                catch_pc: be_u16(s, at + 8 * i + 6) as usize,
            },
    )
}

/// The line-number table of `n` entries that starts at `at`: two two-byte
/// values an entry.
pub open spec fn spec_line_number_table(s: Seq<u8>, at: int, n: nat) -> Seq<LineNumberTableEntry> {
    Seq::new(
        n,
        |i: int|
            LineNumberTableEntry {
                start_pc: be_u16(s, at + 4 * i) as usize,
                line_number: be_u16(s, at + 4 * i + 2) as usize,
            },
    )
}

/// Whether `name` is one of the attribute names that are known but whose
/// layout is not supported. Such an attribute stops decoding; it is not
/// skipped.
pub open spec fn is_unsupported_name(name: Seq<char>) -> bool {
    name == "StackMapTable"@ || name == "BootstrapMethods"@ || name == "NestHost"@ || name
        == "NestMembers"@ || name == "PermittedSubclasses"@
}

/// The kind that is kept by its name alone, for the six names whose bodies
/// are passed over; `None` for every other name.
pub open spec fn kind_without_layout(name: Seq<char>) -> Option<AttributeModel> {
    if name == "Exceptions"@ {
        Some(AttributeModel::Exceptions)
    } else if name == "SourceFile"@ {
        Some(AttributeModel::SourceFile)
    } else if name == "LocalVariableTable"@ {
        Some(AttributeModel::LocalVariableTable)
    } else if name == "InnerClasses"@ {
        Some(AttributeModel::InnerClasses)
    } else if name == "Synthetic"@ {
        Some(AttributeModel::Synthetic)
    } else if name == "Deprecated"@ {
        Some(AttributeModel::Deprecated)
    } else {
        None
    }
}

/// The zero or one attribute that a decoded block contributes.
pub open spec fn kept(attribute: Option<AttributeInfoModel>) -> Seq<AttributeInfoModel> {
    match attribute {
        Some(a) => seq![a],
        None => Seq::empty(),
    }
}

/// The attribute that starts at `pos`, and the bytes it takes, or why there
/// is none.
///
/// An attribute is a two-byte name index, a four-byte declared length, and a
/// body. The name index must name UTF-8 text in `pool`. The body is laid out
/// as the name says, and the bytes that the body takes must be exactly the
/// declared length. A recognized name without a layout has its declared
/// length passed over and contributes its kind. A name that is not
/// recognized has its declared length passed over and contributes nothing.
pub open spec fn spec_attribute(s: Seq<u8>, pos: int, pool: Seq<Constant>) -> Result<
    (Option<AttributeInfoModel>, nat),
    DecodeError,
>
    decreases bytes_from(s, pos), 0nat,
{
    if pos + 2 > s.len() {
        Err(DecodeError::UnexpectedEof)
    } else {
        match spec_name(pool, be_u16(s, pos)) {
            None => Err(DecodeError::BadNameIndex { index: be_u16(s, pos) as usize }),
            Some(name) => if pos + 6 > s.len() {
                Err(DecodeError::UnexpectedEof)
            } else {
                match spec_attribute_body(
                    s,
                    pos + 6,
                    pool,
                    be_u16(s, pos) as nat,
                    name,
                    be_u32(s, pos + 2) as nat,
                ) {
                    Err(e) => Err(e),
                    Ok((attribute, used)) => if used == be_u32(s, pos + 2) {
                        Ok((attribute, 6 + used))
                    } else {
                        Err(
                            DecodeError::LengthMismatch {
                                expected: be_u32(s, pos + 2) as usize,
                                actual: used as usize,
                            },
                        )
                    },
                }
            },
        }
    }
}

/// The body, starting at `at`, of an attribute named `name` that declares
/// `declared` bytes: what it holds and how many bytes it really takes.
pub open spec fn spec_attribute_body(
    s: Seq<u8>,
    at: int,
    pool: Seq<Constant>,
    name_index: nat,
    name: Seq<char>,
    declared: nat,
) -> Result<(Option<AttributeInfoModel>, nat), DecodeError>
    decreases bytes_from(s, at), 1nat,
{
    if name == "ConstantValue"@ {
        if at + 2 > s.len() {
            Err(DecodeError::UnexpectedEof)
        } else {
            Ok(
                (
                    Some(
                        AttributeInfoModel {
                            attribute_name_index: name_index,
                            attribute: AttributeModel::ConstantValue {
                                constant_value_index: be_u16(s, at) as nat,
                            },
                        },
                    ),
                    2nat,
                ),
            )
        }
    } else if name == "Code"@ {
        match spec_code(s, at, pool, name_index) {
            Err(e) => Err(e),
            Ok((code, used)) => Ok(
                (
                    Some(AttributeInfoModel { attribute_name_index: name_index, attribute: code }),
                    used,
                ),
            ),
        }
    } else if is_unsupported_name(name) {
        Err(DecodeError::UnsupportedAttribute { name_index: name_index as usize })
    } else if name == "LineNumberTable"@ {
        if at + 2 > s.len() || at + 2 + 4 * be_u16(s, at) > s.len() {
            Err(DecodeError::UnexpectedEof)
        } else {
            Ok(
                (
                    Some(
                        AttributeInfoModel {
                            attribute_name_index: name_index,
                            attribute: AttributeModel::LineNumberTable {
                                attribute_name_index: name_index,
                                attribute_name: name,
                                attribute_length: declared,
                                line_number_entries: spec_line_number_table(
                                    s,
                                    at + 2,
                                    be_u16(s, at) as nat,
                                ),
                            },
                        },
                    ),
                    (2 + 4 * be_u16(s, at)) as nat,
                ),
            )
        }
    } else if at + declared > s.len() {
        Err(DecodeError::UnexpectedEof)
    } else {
        match kind_without_layout(name) {
            Some(attribute) => Ok(
                (
                    Some(AttributeInfoModel { attribute_name_index: name_index, attribute }),
                    declared,
                ),
            ),
            None => Ok((None, declared)),
        }
    }
}

/// The body of a code attribute that starts at `at`: two two-byte limits, a
/// four-byte code length and that many bytes of code, a two-byte count and
/// that many exception-table entries, and an attribute list of its own.
pub open spec fn spec_code(s: Seq<u8>, at: int, pool: Seq<Constant>, name_index: nat) -> Result<
    (AttributeModel, nat),
    DecodeError,
>
    decreases bytes_from(s, at), 0nat,
{
    if at + 8 > s.len() || at + 8 + be_u32(s, at + 4) + 2 > s.len() {
        Err(DecodeError::UnexpectedEof)
    } else {
        let code_length = be_u32(s, at + 4) as nat;
        let entries = be_u16(s, at + 8 + code_length) as nat;
        let table = at + 8 + code_length + 2;
        if table + 8 * entries > s.len() {
            Err(DecodeError::UnexpectedEof)
        } else {
            match spec_attribute_list(s, table + 8 * entries, pool) {
                Err(e) => Err(e),
                Ok((attributes, used)) => Ok(
                    (
                        AttributeModel::Code {
                            attribute_name_index: name_index,
                            max_stack: be_u16(s, at) as nat,
                            max_locals: be_u16(s, at + 2) as nat,
                            code_length,
                            code: s.subrange(at + 8, at + 8 + code_length),
                            exceptions: spec_exception_table(s, table, entries),
                            attributes,
                        },
                        8 + code_length + 2 + 8 * entries + used,
                    ),
                ),
            }
        }
    }
}

/// The attribute list that starts at `pos`: a two-byte count, then that many
/// attributes. What comes back holds the attributes of known layout, in file
/// order, and the bytes that the whole list takes.
pub open spec fn spec_attribute_list(s: Seq<u8>, pos: int, pool: Seq<Constant>) -> Result<
    (Seq<AttributeInfoModel>, nat),
    DecodeError,
>
    decreases bytes_from(s, pos), 0nat,
{
    if pos + 2 > s.len() {
        Err(DecodeError::UnexpectedEof)
    } else {
        match spec_attribute_seq(s, pos + 2, pool, be_u16(s, pos) as nat) {
            Err(e) => Err(e),
            Ok((attributes, used)) => Ok((attributes, 2 + used)),
        }
    }
}

/// The `n` attributes that start at `pos`, one after the other.
pub open spec fn spec_attribute_seq(s: Seq<u8>, pos: int, pool: Seq<Constant>, n: nat) -> Result<
    (Seq<AttributeInfoModel>, nat),
    DecodeError,
>
    decreases bytes_from(s, pos), n + 1,
{
    if n == 0 {
        Ok((Seq::empty(), 0nat))
    } else {
        match spec_attribute(s, pos, pool) {
            Err(e) => Err(e),
            Ok((first, used)) => match spec_attribute_seq(s, pos + used, pool, (n - 1) as nat) {
                Err(e) => Err(e),
                Ok((rest, more)) => Ok((kept(first) + rest, used + more)),
            },
        }
    }
}

/// Whether `name` is the text `literal`.
fn name_is(name: &String, literal: &str) -> (r: bool)
    ensures
        r == (name@ == literal@),
{
    let other = literal.to_owned();
    *name == other
}

/// Reads an exception table of `n` entries.
pub fn read_exception_table(reader: &mut BytesReader, n: usize) -> (r: Result<
    Vec<ExceptionTableEntry>,
    DecodeError,
>)
    requires
        old(reader).wf(),
    ensures
        final(reader).wf(),
        old(reader)@.reaches(final(reader)@),
        old(reader)@.remaining() >= 8 * n ==> (r matches Ok(v) && v@ == spec_exception_table(
            old(reader)@.input,
            old(reader)@.pos as int,
            n as nat,
        )) && final(reader)@ == old(reader)@.advance((8 * n) as nat),
        old(reader)@.remaining() < 8 * n ==> r == Err::<Vec<ExceptionTableEntry>, DecodeError>(
            DecodeError::UnexpectedEof,
        ),
{
    let mut exceptions: Vec<ExceptionTableEntry> = Vec::new();
    let ghost start = reader@;
    let mut i: usize = 0;
    while i < n
        invariant
            i <= n,
            reader.wf(),
            start == old(reader)@,
            reader@ == start.advance((8 * i) as nat),
            exceptions@ == spec_exception_table(start.input, start.pos as int, i as nat),
        decreases n - i,
    {
        let start_pc = reader.read_u16()? as usize;
        let end_pc = reader.read_u16()? as usize;
        let handler_pc = reader.read_u16()? as usize;
        let catch_pc = reader.read_u16()? as usize;
        exceptions.push(ExceptionTableEntry { start_pc, end_pc, handler_pc, catch_pc });
        i = i + 1;
        assert(exceptions@ =~= spec_exception_table(start.input, start.pos as int, i as nat));
    }
    proof {
        reader.lemma_view_wf();
    }
    Ok(exceptions)
}

/// Reads a line-number table of `n` entries.
pub fn read_line_number_table(reader: &mut BytesReader, n: usize) -> (r: Result<
    Vec<LineNumberTableEntry>,
    DecodeError,
>)
    requires
        old(reader).wf(),
    ensures
        final(reader).wf(),
        old(reader)@.reaches(final(reader)@),
        old(reader)@.remaining() >= 4 * n ==> (r matches Ok(v) && v@ == spec_line_number_table(
            old(reader)@.input,
            old(reader)@.pos as int,
            n as nat,
        )) && final(reader)@ == old(reader)@.advance((4 * n) as nat),
        old(reader)@.remaining() < 4 * n ==> r == Err::<Vec<LineNumberTableEntry>, DecodeError>(
            DecodeError::UnexpectedEof,
        ),
{
    let mut entries: Vec<LineNumberTableEntry> = Vec::new();
    let ghost start = reader@;
    let mut i: usize = 0;
    while i < n
        invariant
            i <= n,
            reader.wf(),
            start == old(reader)@,
            reader@ == start.advance((4 * i) as nat),
            entries@ == spec_line_number_table(start.input, start.pos as int, i as nat),
        decreases n - i,
    {
        let start_pc = reader.read_u16()? as usize;
        let line_number = reader.read_u16()? as usize;
        entries.push(LineNumberTableEntry { start_pc, line_number });
        i = i + 1;
        assert(entries@ =~= spec_line_number_table(start.input, start.pos as int, i as nat));
    }
    proof {
        reader.lemma_view_wf();
    }
    Ok(entries)
}

/// Reads an attribute list: a two-byte count, then that many attributes.
/// Attributes whose names are not recognized are passed over and left out
/// of the result.
pub fn read_attributes(reader: &mut BytesReader, constant_pool_infos: &Vec<ConstantPoolInfo>) -> (r:
    Result<Vec<AttributeInfo>, DecodeError>)
    requires
        old(reader).wf(),
    ensures
        final(reader).wf(),
        old(reader)@.reaches(final(reader)@),
        match spec_attribute_list(
            old(reader)@.input,
            old(reader)@.pos as int,
            pool_view(constant_pool_infos@),
        ) {
            Ok((attributes, used)) => (r matches Ok(v) && attribute_infos_view(v@) == attributes)
                && final(reader)@ == old(reader)@.advance(used),
            Err(e) => r == Err::<Vec<AttributeInfo>, DecodeError>(e),
        },
    decreases bytes_from(old(reader)@.input, old(reader)@.pos as int), 0nat,
{
    let ghost pool = pool_view(constant_pool_infos@);
    proof {
        old(reader).lemma_view_wf();
    }
    let attributes_count = reader.read_u16()? as usize;
    let mut attributes_info: Vec<AttributeInfo> = Vec::new();
    let ghost s = reader@.input;
    let ghost start = reader@;
    let mut n: usize = 0;
    while n < attributes_count
        invariant
            n <= attributes_count,
            reader.wf(),
            old(reader).wf(),
            s == old(reader)@.input,
            start == old(reader)@.advance(2),
            attributes_count == be_u16(s, old(reader)@.pos as int),
            old(reader)@.remaining() >= 2,
            pool == pool_view(constant_pool_infos@),
            reader@.input == s,
            reader@.blocks == start.blocks,
            start.pos <= reader@.pos,
            spec_attribute_seq(s, start.pos as int, pool, attributes_count as nat)
                == prepend(
                attribute_infos_view(attributes_info@),
                (reader@.pos - start.pos) as nat,
                spec_attribute_seq(s, reader@.pos as int, pool, (attributes_count - n) as nat),
            ),
        decreases attributes_count - n,
    {
        let ghost before = reader@;
        let ghost acc = attribute_infos_view(attributes_info@);
        proof {
            reader.lemma_view_wf();
            old(reader).lemma_view_wf();
        }
        let attribute = read_attribute(reader, constant_pool_infos)?;
        if let Some(attribute_info) = attribute {
            attributes_info.push(attribute_info);
        }
        n = n + 1;
        proof {
            let (first, used) = spec_attribute(s, before.pos as int, pool)->Ok_0;
            let tail = spec_attribute_seq(
                s,
                (before.pos + used) as int,
                pool,
                (attributes_count - n) as nat,
            );
            assert(first == option_view(attribute));
            assert(spec_attribute_seq(s, before.pos as int, pool, (attributes_count - n + 1) as nat)
                == prepend(kept(first), used, tail));
            lemma_prepend_twice(
                acc,
                (before.pos - start.pos) as nat,
                kept(first),
                used,
                tail,
            );
            assert(attribute_infos_view(attributes_info@) =~= acc + kept(first));
        }
    }
    proof {
        assert(attribute_infos_view(attributes_info@) + Seq::<AttributeInfoModel>::empty()
            =~= attribute_infos_view(attributes_info@));
        assert(reader@ == old(reader)@.advance((2 + (reader@.pos - start.pos)) as nat));
    }
    Ok(attributes_info)
}

/// Reads one attribute: its name index and declared length, then the body
/// that the name calls for, inside a block whose byte count is held against
/// the declared length when the body is done. Where the body does not
/// decode, its block stays open: decoding of the file is over.
pub fn read_attribute(reader: &mut BytesReader, constant_pool_infos: &Vec<ConstantPoolInfo>) -> (r:
    Result<Option<AttributeInfo>, DecodeError>)
    requires
        old(reader).wf(),
    ensures
        final(reader).wf(),
        old(reader)@.reaches(final(reader)@),
        match spec_attribute(
            old(reader)@.input,
            old(reader)@.pos as int,
            pool_view(constant_pool_infos@),
        ) {
            Ok((attribute, used)) => (r matches Ok(a) && option_view(a) == attribute)
                && final(reader)@ == old(reader)@.advance(used),
            Err(e) => r == Err::<Option<AttributeInfo>, DecodeError>(e),
        },
        r is Ok ==> final(reader)@.pos == old(reader)@.pos + 6 + declared_length(
            old(reader)@.input,
            old(reader)@.pos as int,
        ),
    decreases bytes_from(old(reader)@.input, old(reader)@.pos as int), 0nat,
{
    proof {
        old(reader).lemma_view_wf();
    }
    let attribute_name_index = reader.read_u16()? as usize;
    let attribute_name = get_name_info(constant_pool_infos, &attribute_name_index)?;
    let attribute_length = reader.read_u32()? as usize;
    reader.begin_read_block();
    let attribute = read_attribute_body(
        reader,
        constant_pool_infos,
        attribute_name_index,
        attribute_name,
        attribute_length,
    )?;
    proof {
        reader.lemma_view_wf();
    }
    reader.assert_read(attribute_length)?;
    assert(reader@.blocks =~= old(reader)@.blocks);
    Ok(attribute)
}

/// The model of an attribute that may have been passed over.
pub open spec fn option_view(attribute: Option<AttributeInfo>) -> Option<AttributeInfoModel> {
    match attribute {
        Some(info) => Some(info@),
        None => None,
    }
}

/// Reads the body of an attribute whose header said `attribute_name` and
/// `attribute_length`.
pub fn read_attribute_body(
    reader: &mut BytesReader,
    constant_pool_infos: &Vec<ConstantPoolInfo>,
    attribute_name_index: usize,
    attribute_name: String,
    attribute_length: usize,
) -> (r: Result<Option<AttributeInfo>, DecodeError>)
    requires
        old(reader).wf(),
    ensures
        final(reader).wf(),
        old(reader)@.reaches(final(reader)@),
        match spec_attribute_body(
            old(reader)@.input,
            old(reader)@.pos as int,
            pool_view(constant_pool_infos@),
            attribute_name_index as nat,
            attribute_name@,
            attribute_length as nat,
        ) {
            Ok((attribute, used)) => (r matches Ok(a) && option_view(a) == attribute)
                && final(reader)@ == old(reader)@.advance(used),
            Err(e) => r == Err::<Option<AttributeInfo>, DecodeError>(e),
        },
    decreases bytes_from(old(reader)@.input, old(reader)@.pos as int), 1nat,
{
    proof {
        old(reader).lemma_view_wf();
    }
    if name_is(&attribute_name, "ConstantValue") {
        let constant_value_index = reader.read_u16()? as usize;
        Ok(
            Some(
                AttributeInfo {
                    attribute_name_index,
                    attribute: Attribute::ConstantValue(
                        AttributeConstantValue { constant_value_index },
                    ),
                },
            ),
        )
    } else if name_is(&attribute_name, "Code") {
        let code = read_code(reader, constant_pool_infos, attribute_name_index)?;
        let info = AttributeInfo { attribute_name_index, attribute: Attribute::Code(code) };
        proof {
            lemma_code_view(info);
        }
        Ok(Some(info))
    } else if is_unsupported(&attribute_name) {
        Err(DecodeError::UnsupportedAttribute { name_index: attribute_name_index })
    } else if name_is(&attribute_name, "LineNumberTable") {
        let line_number_table_length = reader.read_u16()? as usize;
        let line_number_entries = read_line_number_table(reader, line_number_table_length)?;
        Ok(
            Some(
                AttributeInfo {
                    attribute_name_index,
                    attribute: Attribute::LineNumberTable(
                        AttributeLineNumberTable {
                            attribute_name_index,
                            attribute_name,
                            attribute_length,
                            line_number_entries,
                        },
                    ),
                },
            ),
        )
    } else {
        reader.consume(attribute_length)?;
        Ok(
            match attribute_without_layout(&attribute_name) {
                Some(attribute) => Some(AttributeInfo { attribute_name_index, attribute }),
                None => None,
            },
        )
    }
}

/// The kind of a stored attribute of which only the presence is kept;
/// `None` for an attribute that holds something.
pub open spec fn kind_of(attribute: Attribute) -> Option<AttributeModel> {
    match attribute {
        Attribute::Exceptions(_) => Some(AttributeModel::Exceptions),
        Attribute::SourceFile(_) => Some(AttributeModel::SourceFile),
        Attribute::LocalVariableTable(_) => Some(AttributeModel::LocalVariableTable),
        Attribute::InnerClasses(_) => Some(AttributeModel::InnerClasses),
        Attribute::Synthetic(_) => Some(AttributeModel::Synthetic),
        Attribute::Deprecated(_) => Some(AttributeModel::Deprecated),
        _ => None,
    }
}

/// The kind that is kept by its name alone, for the six names whose bodies
/// are passed over.
fn attribute_without_layout(name: &String) -> (r: Option<Attribute>)
    ensures
        r matches Some(attribute) ==> kind_of(attribute) is Some && kind_of(attribute)
            == kind_without_layout(name@),
        r is None ==> kind_without_layout(name@) is None,
{
    if name_is(name, "Exceptions") {
        Some(Attribute::Exceptions(AttributeExceptions {}))
    } else if name_is(name, "SourceFile") {
        Some(Attribute::SourceFile(AttributeSourceFile {}))
    } else if name_is(name, "LocalVariableTable") {
        Some(Attribute::LocalVariableTable(AttributeLocalVariableTable {}))
    } else if name_is(name, "InnerClasses") {
        Some(Attribute::InnerClasses(AttributeInnerClasses {}))
    } else if name_is(name, "Synthetic") {
        Some(Attribute::Synthetic(AttributeSynthetic {}))
    } else if name_is(name, "Deprecated") {
        Some(Attribute::Deprecated(AttributeDeprecated {}))
    } else {
        None
    }
}

/// Whether `name` is one of the attribute names that are known but whose
/// layout is not supported.
fn is_unsupported(name: &String) -> (r: bool)
    ensures
        r == is_unsupported_name(name@),
{
    name_is(name, "StackMapTable") || name_is(name, "BootstrapMethods") || name_is(name, "NestHost")
        || name_is(name, "NestMembers") || name_is(name, "PermittedSubclasses")
}

impl AttributeCode {
    /// The lines that show the code: none, so far.
    pub fn print(&self) -> (r: Vec<Line>)
        ensures
            r@ == Seq::<Line>::empty(),
    {
        Vec::new()
    }
}

/// The model of a stored code attribute.
pub open spec fn code_view(code: AttributeCode) -> AttributeModel {
    AttributeModel::Code {
        attribute_name_index: code.attribute_name_index as nat,
        max_stack: code.max_stack as nat,
        max_locals: code.max_locals as nat,
        code_length: code.code_length as nat,
        code: code.code@,
        exceptions: code.exceptions@,
        attributes: attribute_infos_view(code.attributes@),
    }
}

/// Reads the body of a code attribute.
pub fn read_code(
    reader: &mut BytesReader,
    constant_pool_infos: &Vec<ConstantPoolInfo>,
    attribute_name_index: usize,
) -> (r: Result<AttributeCode, DecodeError>)
    requires
        old(reader).wf(),
    ensures
        final(reader).wf(),
        old(reader)@.reaches(final(reader)@),
        match spec_code(
            old(reader)@.input,
            old(reader)@.pos as int,
            pool_view(constant_pool_infos@),
            attribute_name_index as nat,
        ) {
            Ok((model, used)) => (r matches Ok(code) && code_view(code) == model) && final(reader)@
                == old(reader)@.advance(used),
            Err(e) => r == Err::<AttributeCode, DecodeError>(e),
        },
    decreases bytes_from(old(reader)@.input, old(reader)@.pos as int), 0nat,
{
    proof {
        old(reader).lemma_view_wf();
    }
    let max_stack = reader.read_u16()? as usize;
    let max_locals = reader.read_u16()? as usize;
    let code_length = reader.read_u32()? as usize;
    let code = reader.read_bytes(code_length)?;
    let exception_table_length = reader.read_u16()? as usize;
    let exceptions = read_exception_table(reader, exception_table_length)?;
    proof {
        reader.lemma_view_wf();
    }
    let attributes = read_attributes(reader, constant_pool_infos)?;
    Ok(
        AttributeCode {
            attribute_name_index,
            max_stack,
            max_locals,
            code_length,
            code,
            exceptions,
            attributes,
        },
    )
}

/// A stored code attribute and the model of the attribute that holds it
/// agree: the nested attributes are taken one by one.
pub proof fn lemma_code_view(info: AttributeInfo)
    requires
        info.attribute is Code,
    ensures
        info@.attribute == code_view(info.attribute->Code_0),
{
    let code = info.attribute->Code_0;
    assert(info@.attribute->Code_attributes =~= attribute_infos_view(code.attributes@));
}


/// The name that announces an attribute of this kind in a file.
pub open spec fn attribute_name_of(attribute: AttributeModel) -> Seq<char> {
    match attribute {
        AttributeModel::ConstantValue { .. } => "ConstantValue"@,
        AttributeModel::Code { .. } => "Code"@,
        AttributeModel::Exceptions => "Exceptions"@,
        AttributeModel::SourceFile => "SourceFile"@,
        AttributeModel::LineNumberTable { .. } => "LineNumberTable"@,
        AttributeModel::LocalVariableTable => "LocalVariableTable"@,
        AttributeModel::InnerClasses => "InnerClasses"@,
        AttributeModel::Synthetic => "Synthetic"@,
        AttributeModel::Deprecated => "Deprecated"@,
    }
}

/// Whether `name` is one of the nine names that decode into a kind of
/// attribute.
pub open spec fn is_recognized_name(name: Seq<char>) -> bool {
    name == "ConstantValue"@ || name == "Code"@ || name == "LineNumberTable"@
        || kind_without_layout(name) is Some
}

/// What the attribute says about itself agrees with its header: the pool
/// holds the name of the attribute's kind at the attribute's name index;
/// code and a line-number table repeat that name index; a line-number table
/// repeats the name and the declared length, which is what its entries
/// take; and the code length is the number of bytes of code.
pub open spec fn attribute_consistent(
    pool: Seq<Constant>,
    declared: nat,
    info: AttributeInfoModel,
) -> bool {
    &&& spec_name(pool, info.attribute_name_index as int) == Some(
        attribute_name_of(info.attribute),
    )
    &&& match info.attribute {
        AttributeModel::Code { attribute_name_index, code_length, code, .. } => {
            &&& attribute_name_index == info.attribute_name_index
            &&& code_length == code.len()
        },
        AttributeModel::LineNumberTable {
            attribute_name_index,
            attribute_name,
            attribute_length,
            line_number_entries,
        } => {
            &&& attribute_name_index == info.attribute_name_index
            &&& attribute_name == attribute_name_of(info.attribute)
            &&& attribute_length == declared
            &&& attribute_length == 2 + 4 * line_number_entries.len()
        },
        _ => true,
    }
}

/// An attribute that decodes is kept exactly where its name is one of the
/// nine recognized names. An attribute that is kept has the kind that its
/// name announces, it carries the name index from its header, and what it
/// says about itself agrees with its header.
pub proof fn lemma_decoded_attribute_kinds(s: Seq<u8>, pos: int, pool: Seq<Constant>)
    requires
        0 <= pos,
    ensures
        spec_attribute(s, pos, pool) matches Ok((kept, _)) ==> {
            &&& spec_name(pool, be_u16(s, pos)) matches Some(name)
            &&& kept is Some <==> is_recognized_name(name)
        },
        spec_attribute(s, pos, pool) matches Ok((Some(info), _)) ==> {
            &&& info.attribute_name_index == be_u16(s, pos)
            &&& attribute_consistent(pool, declared_length(s, pos), info)
        },
{
    reveal_with_fuel(spec_attribute, 3);
}

/// No two of the names that decoding tells apart are the same text.
pub proof fn lemma_attribute_names_differ()
    ensures
        "Code"@ != "ConstantValue"@,
        !is_unsupported_name("ConstantValue"@),
        !is_unsupported_name("Code"@),
        !is_unsupported_name("LineNumberTable"@),
        "LineNumberTable"@ != "ConstantValue"@,
        "LineNumberTable"@ != "Code"@,
        kind_without_layout("ConstantValue"@) is None,
        kind_without_layout("Code"@) is None,
        kind_without_layout("LineNumberTable"@) is None,
        forall|kind: AttributeModel|
            #![trigger attribute_name_of(kind)]
            !(kind is ConstantValue) && !(kind is Code) && !(kind is LineNumberTable) ==> {
                &&& kind_without_layout(attribute_name_of(kind)) == Some(kind)
                &&& !is_unsupported_name(attribute_name_of(kind))
                &&& attribute_name_of(kind) != "ConstantValue"@
                &&& attribute_name_of(kind) != "Code"@
                &&& attribute_name_of(kind) != "LineNumberTable"@
            },
{
    reveal_strlit("ConstantValue");
    reveal_strlit("Code");
    reveal_strlit("StackMapTable");
    reveal_strlit("BootstrapMethods");
    reveal_strlit("NestHost");
    reveal_strlit("NestMembers");
    reveal_strlit("PermittedSubclasses");
    reveal_strlit("LineNumberTable");
    reveal_strlit("Exceptions");
    reveal_strlit("SourceFile");
    reveal_strlit("LocalVariableTable");
    reveal_strlit("InnerClasses");
    reveal_strlit("Synthetic");
    reveal_strlit("Deprecated");
    assert("ConstantValue"@.len() == 13 && "ConstantValue"@[0] == 'C');
    assert("Code"@.len() == 4);
    assert("StackMapTable"@.len() == 13 && "StackMapTable"@[0] == 'S');
    assert("BootstrapMethods"@.len() == 16);
    assert("NestHost"@.len() == 8);
    assert("NestMembers"@.len() == 11);
    assert("PermittedSubclasses"@.len() == 19);
    assert("LineNumberTable"@.len() == 15);
    assert("Exceptions"@.len() == 10 && "Exceptions"@[0] == 'E');
    assert("SourceFile"@.len() == 10 && "SourceFile"@[0] == 'S');
    assert("LocalVariableTable"@.len() == 18);
    assert("InnerClasses"@.len() == 12);
    assert("Synthetic"@.len() == 9);
    assert("Deprecated"@.len() == 10 && "Deprecated"@[0] == 'D');
}

/// A recognized name decodes into the kind that it names: where an
/// attribute decodes, it is kept, and its kind is the one whose name the
/// pool holds at the attribute's name index.
pub proof fn lemma_name_decides_kind(
    s: Seq<u8>,
    pos: int,
    pool: Seq<Constant>,
    kind: AttributeModel,
)
    requires
        0 <= pos,
        spec_attribute(s, pos, pool) is Ok,
        spec_name(pool, be_u16(s, pos)) == Some(attribute_name_of(kind)),
    ensures
        spec_attribute(s, pos, pool) matches Ok((Some(info), used)) && attribute_name_of(
            info.attribute,
        ) == attribute_name_of(kind) && (kind_without_layout(attribute_name_of(kind)) is Some
            ==> info.attribute == kind && used == 6 + declared_length(s, pos)),
{
    lemma_attribute_names_differ();
    reveal_with_fuel(spec_attribute, 3);
}

/// The length that the attribute at `pos` declares for its body.
pub open spec fn declared_length(s: Seq<u8>, pos: int) -> nat {
    be_u32(s, pos + 2) as nat
}

/// The bytes that `n` attributes in a row take if each takes its six-byte
/// header and the length that it declares, the first of them at `pos`.
pub open spec fn declared_extent(s: Seq<u8>, pos: int, n: nat) -> nat
    decreases n,
{
    if n == 0 {
        0
    } else {
        6 + declared_length(s, pos) + declared_extent(
            s,
            pos + 6 + declared_length(s, pos),
            (n - 1) as nat,
        )
    }
}

/// An attribute that decodes takes its six-byte header and exactly the bytes
/// that it declares, whatever its name.
pub proof fn lemma_attribute_takes_declared_length(s: Seq<u8>, pos: int, pool: Seq<Constant>)
    ensures
        spec_attribute(s, pos, pool) matches Ok((_, used)) ==> used == 6 + declared_length(s, pos),
{
}

/// An attribute whose body takes another number of bytes than it declares
/// does not decode: the mismatch is reported with both numbers.
pub proof fn lemma_mismatched_length_is_rejected(
    s: Seq<u8>,
    pos: int,
    pool: Seq<Constant>,
    name: Seq<char>,
    used: nat,
)
    requires
        pos + 6 <= s.len(),
        spec_name(pool, be_u16(s, pos)) == Some(name),
        spec_attribute_body(s, pos + 6, pool, be_u16(s, pos) as nat, name, declared_length(s, pos))
            matches Ok((_, taken)) && taken == used,
        used != declared_length(s, pos),
    ensures
        spec_attribute(s, pos, pool) == Err::<(Option<AttributeInfoModel>, nat), DecodeError>(
            DecodeError::LengthMismatch {
                expected: declared_length(s, pos) as usize,
                actual: used as usize,
            },
        ),
{
}

/// A row of attributes that decodes takes exactly the bytes that its
/// attributes declare, header by header.
pub proof fn lemma_attributes_take_declared_lengths(
    s: Seq<u8>,
    pos: int,
    pool: Seq<Constant>,
    n: nat,
)
    ensures
        spec_attribute_seq(s, pos, pool, n) matches Ok((_, used)) ==> used == declared_extent(
            s,
            pos,
            n,
        ),
    decreases n,
{
    if n > 0 {
        if let Ok((_, used)) = spec_attribute(s, pos, pool) {
            lemma_attributes_take_declared_lengths(s, pos + used, pool, (n - 1) as nat);
        }
    }
}

/// An attribute list that decodes takes its two-byte count and exactly the
/// bytes that its attributes declare.
pub proof fn lemma_attribute_list_takes_declared_lengths(s: Seq<u8>, pos: int, pool: Seq<Constant>)
    ensures
        spec_attribute_list(s, pos, pool) matches Ok((_, used)) ==> used == 2 + declared_extent(
            s,
            pos + 2,
            be_u16(s, pos) as nat,
        ),
{
    lemma_attributes_take_declared_lengths(s, pos + 2, pool, be_u16(s, pos) as nat);
}

/// Where the attribute list inside a code attribute begins, for the code
/// attribute whose header is at `pos`.
pub open spec fn nested_attributes_at(s: Seq<u8>, pos: int) -> int {
    pos + 16 + be_u32(s, pos + 10) + 8 * be_u16(s, pos + 14 + be_u32(s, pos + 10))
}

/// The body of a code attribute that decodes takes exactly what it holds:
/// the fixed part, the code, the exception table, and an attribute list of
/// its own whose attributes again take what they declare.
proof fn lemma_code_body_extent(s: Seq<u8>, at: int, pool: Seq<Constant>, name_index: nat)
    ensures
        spec_code(s, at, pool, name_index) matches Ok((_, used)) ==> used == nested_attributes_at(
            s,
            at - 6,
        ) - at + 2 + declared_extent(
            s,
            nested_attributes_at(s, at - 6) + 2,
            be_u16(s, nested_attributes_at(s, at - 6)) as nat,
        ),
{
    lemma_attribute_list_takes_declared_lengths(s, nested_attributes_at(s, at - 6), pool);
}

/// A code attribute that decodes declares exactly what it holds: the fixed
/// part, the code, the exception table, and an attribute list of its own
/// whose attributes again take what they declare, to any depth.
pub proof fn lemma_code_takes_declared_length(s: Seq<u8>, pos: int, pool: Seq<Constant>)
    requires
        spec_name(pool, be_u16(s, pos)) == Some("Code"@),
        spec_attribute(s, pos, pool) is Ok,
    ensures
        pos + 6 + declared_length(s, pos) == nested_attributes_at(s, pos) + 2 + declared_extent(
            s,
            nested_attributes_at(s, pos) + 2,
            be_u16(s, nested_attributes_at(s, pos)) as nat,
        ),
{
    reveal_strlit("Code");
    reveal_strlit("ConstantValue");
    lemma_code_body_extent(s, pos + 6, pool, be_u16(s, pos) as nat);
    let body = spec_attribute_body(
        s,
        pos + 6,
        pool,
        be_u16(s, pos) as nat,
        "Code"@,
        declared_length(s, pos),
    );
    assert(body is Ok);
    assert("Code"@ != "ConstantValue"@) by {
        assert("Code"@.len() == 4);
        assert("ConstantValue"@.len() == 13);
    }
    assert(spec_code(s, pos + 6, pool, be_u16(s, pos) as nat) is Ok) by {
        reveal_with_fuel(spec_attribute_body, 2);
    }
    assert(body->Ok_0.1 == spec_code(s, pos + 6, pool, be_u16(s, pos) as nat)->Ok_0.1) by {
        reveal_with_fuel(spec_attribute_body, 2);
    }
}

} // verus!
