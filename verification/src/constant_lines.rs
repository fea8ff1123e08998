//! The line that shows one constant-pool entry, for each kind of entry.
use crate::constant_pool::{Constant, ConstantPoolInfo};
use crate::error::ResolveError;
use crate::java_class::JavaClass;
use crate::line::{bold, kind, number, plain, Line, PieceModel, Style};
use crate::resolve::{
    class_name_text, name_and_type_texts, name_text, spec_member_ref_texts,
    spec_name_and_type_texts, spec_name_text,
};
use crate::text::{signed_decimal, signed_decimal_string};
use vstd::prelude::*;

verus! {

/// How the line of the constant-pool entry of index `n` begins: the index,
/// the name of the entry's kind, a colon.
pub open spec fn line_start(n: nat, kind_name: Seq<char>) -> Seq<PieceModel> {
    seq![plain("  "@), number(n), plain(". "@), kind(kind_name), plain(": "@)]
}

/// A line that was made or the report of a lookup that found nothing, as
/// mathematics.
pub open spec fn line_result_view(r: Result<Line, ResolveError>) -> Result<
    Seq<PieceModel>,
    ResolveError,
> {
    match r {
        Ok(line) => Ok(line@),
        Err(e) => Err(e),
    }
}

/// Begins the line of the constant-pool entry of index `n`.
fn start_line(n: usize, kind_name: &str) -> (r: Line)
    ensures
        r@ == line_start(n as nat, kind_name@),
{
    let mut line = Line::new();
    line.push(Style::Plain, "  ");
    line.push_number(n);
    line.push(Style::Plain, ". ");
    line.push(Style::Kind, kind_name);
    line.push(Style::Plain, ": ");
    assert(line@ =~= line_start(n as nat, kind_name@));
    line
}

/// The line of a text entry: the text itself.
pub open spec fn spec_utf8_line(n: nat, text: Seq<char>) -> Seq<PieceModel> {
    line_start(n, "Utf8"@)
        .push(plain(text))
}

/// The line of a text entry: the text itself.
pub fn utf8_line(n: usize, text: &String) -> (r: Line)
    ensures
        r@ == spec_utf8_line(n as nat, text@),
{
    let mut line = start_line(n, "Utf8");
    line.push(Style::Plain, text.as_str());
    line
}

/// The line of a 32-bit integer entry: the value in decimal.
pub open spec fn spec_integer_line(n: nat, value: int) -> Seq<PieceModel> {
    line_start(n, "Integer"@)
        .push(plain(signed_decimal(value)))
}

/// The line of a 32-bit integer entry: the value in decimal.
pub fn integer_line(n: usize, value: i32) -> (r: Line)
    ensures
        r@ == spec_integer_line(n as nat, value as int),
{
    let mut line = start_line(n, "Integer");
    line.push_string(Style::Plain, signed_decimal_string(value as i64));
    line
}

/// The line of a 32-bit floating-point entry.
pub open spec fn spec_float_line(n: nat, bits: u32) -> Seq<PieceModel> {
    line_start(n, "Float"@)
        .push(PieceModel::Float(bits))
}

/// The line of a 32-bit floating-point entry.
pub fn float_line(n: usize, bits: u32) -> (r: Line)
    ensures
        r@ == spec_float_line(n as nat, bits),
{
    let mut line = start_line(n, "Float");
    line.push_float(bits);
    line
}

/// The line of a 64-bit integer entry: the value in decimal.
pub open spec fn spec_long_line(n: nat, value: int) -> Seq<PieceModel> {
    line_start(n, "Long"@)
        .push(plain(signed_decimal(value)))
}

/// The line of a 64-bit integer entry: the value in decimal.
pub fn long_line(n: usize, value: i64) -> (r: Line)
    ensures
        r@ == spec_long_line(n as nat, value as int),
{
    let mut line = start_line(n, "Long");
    line.push_string(Style::Plain, signed_decimal_string(value));
    line
}

/// The line of a 64-bit floating-point entry.
pub open spec fn spec_double_line(n: nat, bits: u64) -> Seq<PieceModel> {
    line_start(n, "Double"@)
        .push(PieceModel::Double(bits))
}

/// The line of a 64-bit floating-point entry.
pub fn double_line(n: usize, bits: u64) -> (r: Line)
    ensures
        r@ == spec_double_line(n as nat, bits),
{
    let mut line = start_line(n, "Double");
    line.push_double(bits);
    line
}

/// The line of a class entry: the name of the class and its index.
pub open spec fn spec_class_line(
    pool: Seq<Constant>,
    n: nat,
    name_index: nat,
) -> Result<Seq<PieceModel>, ResolveError> {
    match spec_name_text(pool, name_index) {
        Err(e) => Err(e),
        Ok(name) => Ok(
            line_start(n, "Class"@)
                .push(bold(name))
                .push(plain(" ("@))
                .push(number(name_index))
                .push(plain(")"@)),
        ),
    }
}

/// The line of a class entry: the name of the class and its index.
pub fn class_line(
    class: &JavaClass,
    n: usize,
    name_index: usize,
) -> (r: Result<Line, ResolveError>)
    ensures
        line_result_view(r) == spec_class_line(
            class@.constant_pool_infos,
            n as nat,
            name_index as nat,
        ),
{
    let name = name_text(class, name_index)?;
    let mut line = start_line(n, "Class");
    line.push(Style::Bold, name.as_str());
    line.push(Style::Plain, " (");
    line.push_number(name_index);
    line.push(Style::Plain, ")");
    Ok(line)
}

/// The line of a string entry: the text in quotes and its index.
pub open spec fn spec_string_line(
    pool: Seq<Constant>,
    n: nat,
    name_index: nat,
) -> Result<Seq<PieceModel>, ResolveError> {
    match spec_name_text(pool, name_index) {
        Err(e) => Err(e),
        Ok(name) => Ok(
            line_start(n, "String"@)
                .push(plain("\""@))
                .push(bold(name))
                .push(plain("\" ("@))
                .push(number(name_index))
                .push(plain(")"@)),
        ),
    }
}

/// The line of a string entry: the text in quotes and its index.
pub fn string_line(
    class: &JavaClass,
    n: usize,
    name_index: usize,
) -> (r: Result<Line, ResolveError>)
    ensures
        line_result_view(r) == spec_string_line(
            class@.constant_pool_infos,
            n as nat,
            name_index as nat,
        ),
{
    let name = name_text(class, name_index)?;
    let mut line = start_line(n, "String");
    line.push(Style::Plain, "\"");
    line.push(Style::Bold, name.as_str());
    line.push(Style::Plain, "\" (");
    line.push_number(name_index);
    line.push(Style::Plain, ")");
    Ok(line)
}

/// The line of a field reference: the type of the field, its class and its
/// name, and the two indices.
pub open spec fn spec_field_ref_line(
    pool: Seq<Constant>,
    n: nat,
    class_index: nat,
    name_and_type_index: nat,
) -> Result<Seq<PieceModel>, ResolveError> {
    match spec_member_ref_texts(pool, class_index, name_and_type_index) {
        Err(e) => Err(e),
        Ok((class_name, name, descriptor)) => Ok(
            line_start(n, "Field ref"@)
                .push(bold(descriptor))
                .push(plain(" "@))
                .push(bold(class_name))
                .push(plain("."@))
                .push(bold(name))
                .push(plain(", class index ("@))
                .push(number(class_index))
                .push(plain("), name and type index ("@))
                .push(number(name_and_type_index))
                .push(plain(")"@)),
        ),
    }
}

/// The line of a field reference: the type of the field, its class and its
/// name, and the two indices.
pub fn field_ref_line(
    class: &JavaClass,
    n: usize,
    class_index: usize,
    name_and_type_index: usize,
) -> (r: Result<Line, ResolveError>)
    ensures
        line_result_view(r) == spec_field_ref_line(
            class@.constant_pool_infos,
            n as nat,
            class_index as nat,
            name_and_type_index as nat,
        ),
{
    let class_name = class_name_text(class, class_index)?;
    let (name, descriptor) = name_and_type_texts(class, name_and_type_index)?;
    let mut line = start_line(n, "Field ref");
    line.push(Style::Bold, descriptor.as_str());
    line.push(Style::Plain, " ");
    line.push(Style::Bold, class_name.as_str());
    line.push(Style::Plain, ".");
    line.push(Style::Bold, name.as_str());
    line.push(Style::Plain, ", class index (");
    line.push_number(class_index);
    line.push(Style::Plain, "), name and type index (");
    line.push_number(name_and_type_index);
    line.push(Style::Plain, ")");
    Ok(line)
}

/// The line of a method reference: the class of the method, its name and
/// its descriptor, and the two indices.
pub open spec fn spec_method_ref_line(
    pool: Seq<Constant>,
    n: nat,
    class_index: nat,
    name_and_type_index: nat,
) -> Result<Seq<PieceModel>, ResolveError> {
    match spec_member_ref_texts(pool, class_index, name_and_type_index) {
        Err(e) => Err(e),
        Ok((class_name, name, descriptor)) => Ok(
            line_start(n, "Method ref"@)
                .push(plain(class_name))
                .push(plain("."@))
                .push(bold(name))
                .push(plain(" "@))
                .push(plain(descriptor))
                .push(plain(", class index: "@))
                .push(number(class_index))
                .push(plain(", name and type index: "@))
                .push(number(name_and_type_index)),
        ),
    }
}

/// The line of a method reference: the class of the method, its name and
/// its descriptor, and the two indices.
pub fn method_ref_line(
    class: &JavaClass,
    n: usize,
    class_index: usize,
    name_and_type_index: usize,
) -> (r: Result<Line, ResolveError>)
    ensures
        line_result_view(r) == spec_method_ref_line(
            class@.constant_pool_infos,
            n as nat,
            class_index as nat,
            name_and_type_index as nat,
        ),
{
    let class_name = class_name_text(class, class_index)?;
    let (name, descriptor) = name_and_type_texts(class, name_and_type_index)?;
    let mut line = start_line(n, "Method ref");
    line.push(Style::Plain, class_name.as_str());
    line.push(Style::Plain, ".");
    line.push(Style::Bold, name.as_str());
    line.push(Style::Plain, " ");
    line.push(Style::Plain, descriptor.as_str());
    line.push(Style::Plain, ", class index: ");
    line.push_number(class_index);
    line.push(Style::Plain, ", name and type index: ");
    line.push_number(name_and_type_index);
    Ok(line)
}

/// The line of an interface-method reference: the two indices as they are.
pub open spec fn spec_interface_method_ref_line(
    n: nat,
    class_index: nat,
    name_and_type_index: nat,
) -> Seq<PieceModel> {
    line_start(n, "Interface method ref"@)
        .push(plain("name index("@))
        .push(number(class_index))
        .push(plain("), descriptor index ("@))
        .push(number(name_and_type_index))
        .push(plain(")"@))
}

/// The line of an interface-method reference: the two indices as they are.
pub fn interface_method_ref_line(n: usize, class_index: usize, name_and_type_index: usize) -> (r:
    Line)
    ensures
        r@ == spec_interface_method_ref_line(
            n as nat,
            class_index as nat,
            name_and_type_index as nat,
        ),
{
    let mut line = start_line(n, "Interface method ref");
    line.push(Style::Plain, "name index(");
    line.push_number(class_index);
    line.push(Style::Plain, "), descriptor index (");
    line.push_number(name_and_type_index);
    line.push(Style::Plain, ")");
    line
}

/// The line of a name-and-type pair: the name, the descriptor, and the two
/// indices.
pub open spec fn spec_name_and_type_line(
    pool: Seq<Constant>,
    n: nat,
    name_index: nat,
    descriptor_index: nat,
) -> Result<Seq<PieceModel>, ResolveError> {
    match spec_name_text(pool, name_index) {
        Err(e) => Err(e),
        Ok(name) => match spec_name_text(pool, descriptor_index) {
            Err(e) => Err(e),
            Ok(descriptor) => Ok(
                line_start(n, "Name and type"@)
                    .push(bold(name))
                    .push(bold(descriptor))
                    .push(plain(", name index: "@))
                    .push(number(name_index))
                    .push(plain(", descriptor index: "@))
                    .push(number(descriptor_index)),
            ),
        },
    }
}

/// The line of a name-and-type pair: the name, the descriptor, and the two
/// indices.
pub fn name_and_type_line(
    class: &JavaClass,
    n: usize,
    name_index: usize,
    descriptor_index: usize,
) -> (r: Result<Line, ResolveError>)
    ensures
        line_result_view(r) == spec_name_and_type_line(
            class@.constant_pool_infos,
            n as nat,
            name_index as nat,
            descriptor_index as nat,
        ),
{
    let name = name_text(class, name_index)?;
    let descriptor = name_text(class, descriptor_index)?;
    let mut line = start_line(n, "Name and type");
    line.push(Style::Bold, name.as_str());
    line.push(Style::Bold, descriptor.as_str());
    line.push(Style::Plain, ", name index: ");
    line.push_number(name_index);
    line.push(Style::Plain, ", descriptor index: ");
    line.push_number(descriptor_index);
    Ok(line)
}

/// The line of a method-handle entry: the kind of the reference and its index.
pub open spec fn spec_method_kind_line(
    n: nat,
    reference_kind: int,
    reference_index: nat,
) -> Seq<PieceModel> {
    line_start(n, "Method kind"@)
        .push(plain("reference_kind("@))
        .push(number(reference_kind as nat))
        .push(plain("), reference_index("@))
        .push(number(reference_index))
        .push(plain(")"@))
}

/// The line of a method-handle entry: the kind of the reference and its index.
pub fn method_kind_line(n: usize, reference_kind: u8, reference_index: usize) -> (r: Line)
    ensures
        r@ == spec_method_kind_line(n as nat, reference_kind as int, reference_index as nat),
{
    let mut line = start_line(n, "Method kind");
    line.push(Style::Plain, "reference_kind(");
    line.push_number(reference_kind as usize);
    line.push(Style::Plain, "), reference_index(");
    line.push_number(reference_index);
    line.push(Style::Plain, ")");
    line
}

/// The line of a dynamic-constant entry: the two indices as they are.
pub open spec fn spec_dynamic_line(
    n: nat,
    bootstrap_method_attr_index: nat,
    name_and_type_index: nat,
) -> Seq<PieceModel> {
    line_start(n, "Dynamic"@)
        .push(plain("bootstrap_method_attr_index("@))
        .push(number(bootstrap_method_attr_index))
        .push(plain("), name_and_type_index("@))
        .push(number(name_and_type_index))
        .push(plain(")"@))
}

/// The line of a dynamic-constant entry: the two indices as they are.
pub fn dynamic_line(
    n: usize,
    bootstrap_method_attr_index: usize,
    name_and_type_index: usize,
) -> (r: Line)
    ensures
        r@ == spec_dynamic_line(
            n as nat,
            bootstrap_method_attr_index as nat,
            name_and_type_index as nat,
        ),
{
    let mut line = start_line(n, "Dynamic");
    line.push(Style::Plain, "bootstrap_method_attr_index(");
    line.push_number(bootstrap_method_attr_index);
    line.push(Style::Plain, "), name_and_type_index(");
    line.push_number(name_and_type_index);
    line.push(Style::Plain, ")");
    line
}

/// The line of an invoke-dynamic entry: the name and the descriptor of the
/// method, and the two indices.
pub open spec fn spec_invoke_dynamic_line(
    pool: Seq<Constant>,
    n: nat,
    bootstrap_method_attr_index: nat,
    name_and_type_index: nat,
) -> Result<Seq<PieceModel>, ResolveError> {
    match spec_name_and_type_texts(pool, name_and_type_index) {
        Err(e) => Err(e),
        Ok((name, descriptor)) => Ok(
            line_start(n, "Invoke dynamic"@)
                .push(bold(name))
                .push(plain(" "@))
                .push(bold(descriptor))
                .push(plain(" bootstrap_method_attr_index("@))
                .push(number(bootstrap_method_attr_index))
                .push(plain("), name_and_type_index("@))
                .push(number(name_and_type_index))
                .push(plain(")"@)),
        ),
    }
}

/// The line of an invoke-dynamic entry: the name and the descriptor of the
/// method, and the two indices.
pub fn invoke_dynamic_line(
    class: &JavaClass,
    n: usize,
    bootstrap_method_attr_index: usize,
    name_and_type_index: usize,
) -> (r: Result<Line, ResolveError>)
    ensures
        line_result_view(r) == spec_invoke_dynamic_line(
            class@.constant_pool_infos,
            n as nat,
            bootstrap_method_attr_index as nat,
            name_and_type_index as nat,
        ),
{
    let (name, descriptor) = name_and_type_texts(class, name_and_type_index)?;
    let mut line = start_line(n, "Invoke dynamic");
    line.push(Style::Bold, name.as_str());
    line.push(Style::Plain, " ");
    line.push(Style::Bold, descriptor.as_str());
    line.push(Style::Plain, " bootstrap_method_attr_index(");
    line.push_number(bootstrap_method_attr_index);
    line.push(Style::Plain, "), name_and_type_index(");
    line.push_number(name_and_type_index);
    line.push(Style::Plain, ")");
    Ok(line)
}

/// The line that shows the entry at position `i` of the pool, which has the
/// index `i + 1`; or the report of the first lookup that found nothing.
pub open spec fn spec_constant_line(pool: Seq<Constant>, i: int) -> Result<
    Seq<PieceModel>,
    ResolveError,
> {
    let n = (i + 1) as nat;
    match pool[i] {
        Constant::Utf8 { text } => Ok(spec_utf8_line(n, text)),
        Constant::Integer { value } => Ok(spec_integer_line(n, value)),
        Constant::Float { bits } => Ok(spec_float_line(n, bits as u32)),
        Constant::Long { value } => Ok(spec_long_line(n, value)),
        Constant::Double { bits } => Ok(spec_double_line(n, bits as u64)),
        Constant::Class { name_index } => spec_class_line(pool, n, name_index),
        Constant::String { name_index } => spec_string_line(pool, n, name_index),
        Constant::FieldRef { class_index, name_and_type_index } => spec_field_ref_line(
            pool,
            n,
            class_index,
            name_and_type_index,
        ),
        Constant::MethodRef { class_index, name_and_type_index } => spec_method_ref_line(
            pool,
            n,
            class_index,
            name_and_type_index,
        ),
        Constant::InterfaceMethodRef { class_index, name_and_type_index } => Ok(
            spec_interface_method_ref_line(n, class_index, name_and_type_index),
        ),
        Constant::NameAndType { name_index, descriptor_index } => spec_name_and_type_line(
            pool,
            n,
            name_index,
            descriptor_index,
        ),
        Constant::MethodKind { reference_kind, reference_index } => Ok(
            spec_method_kind_line(n, reference_kind, reference_index),
        ),
        Constant::Dynamic { bootstrap_method_attr_index, name_and_type_index } => Ok(
            spec_dynamic_line(n, bootstrap_method_attr_index, name_and_type_index),
        ),
        Constant::InvokeDynamic {
            bootstrap_method_attr_index,
            name_and_type_index,
        } => spec_invoke_dynamic_line(pool, n, bootstrap_method_attr_index, name_and_type_index),
    }
}

/// The line that shows the entry at position `index` of the class's pool.
pub fn print_constant(class: &JavaClass, index: usize) -> (r: Result<Line, ResolveError>)
    requires
        index < class.constant_pool_infos@.len(),
    ensures
        line_result_view(r) == spec_constant_line(class@.constant_pool_infos, index as int),
{
    let entries = class.constant_pool_infos.len();
    let const_index = index + 1;
    match &class.constant_pool_infos[index] {
        ConstantPoolInfo::Utf8(utf8_info) => Ok(utf8_line(const_index, &utf8_info.string)),
        ConstantPoolInfo::Integer(integer_info) => Ok(
            integer_line(const_index, integer_info.value),
        ),
        ConstantPoolInfo::Float(float_info) => Ok(float_line(const_index, float_info.bits)),
        ConstantPoolInfo::Long(long_info) => Ok(long_line(const_index, long_info.value)),
        ConstantPoolInfo::Double(double_info) => Ok(double_line(const_index, double_info.bits)),
        ConstantPoolInfo::Class(value) => class_line(class, const_index, value.name_index),
        ConstantPoolInfo::String(string_info) => string_line(
            class,
            const_index,
            string_info.name_index,
        ),
        ConstantPoolInfo::FieldRef(field_ref_info) => field_ref_line(
            class,
            const_index,
            field_ref_info.class_index,
            field_ref_info.name_and_type_index,
        ),
        ConstantPoolInfo::MethodRef(method_ref_info) => method_ref_line(
            class,
            const_index,
            method_ref_info.class_index,
            method_ref_info.name_and_type_index,
        ),
        ConstantPoolInfo::InterfaceMethodRef(interface_and_method_ref_info) => Ok(
            interface_method_ref_line(
                const_index,
                interface_and_method_ref_info.class_index,
                interface_and_method_ref_info.name_and_type_index,
            ),
        ),
        ConstantPoolInfo::NameAndType(name_and_type_info) => name_and_type_line(
            class,
            const_index,
            name_and_type_info.name_index,
            name_and_type_info.descriptor_index,
        ),
        ConstantPoolInfo::MethodKind(method_kind) => Ok(
            method_kind_line(const_index, method_kind.reference_kind, method_kind.reference_index),
        ),
        ConstantPoolInfo::Dynamic(dynamic) => Ok(
            dynamic_line(
                const_index,
                dynamic.bootstrap_method_attr_index,
                dynamic.name_and_type_index,
            ),
        ),
        ConstantPoolInfo::InvokeDynamic(invoke_dynamic) => invoke_dynamic_line(
            class,
            const_index,
            invoke_dynamic.bootstrap_method_attr_index,
            invoke_dynamic.name_and_type_index,
        ),
    }
}

} // verus!
