//! Decodes a compiled Java class file into a model of the class, and shows
//! that model as lines of text with the references between the file's tables
//! followed.
//!
//! Decoding works on the bytes of a file: [`JavaClass::load_from_bytes`]. Every
//! decoder states what it returns over a grammar of the format, written as
//! functions on byte sequences, and every failure is an error value: nothing
//! here panics. Showing a class gives [`Line`]s whose pieces carry a style;
//! painting the styles and writing the lines is left to the caller.
pub mod attributes;
pub mod bytes_reader;
pub mod class_flags;
pub mod class_printer;
pub mod constant_lines;
pub mod constant_pool;
pub mod declared_lengths;
pub mod error;
pub mod java_class;
pub mod line;
pub mod resolve;
pub mod single_pass;
pub mod text;

pub use crate::attributes::{
    Attribute, AttributeCode, AttributeConstantValue, AttributeDeprecated, AttributeExceptions,
    AttributeInfo, AttributeInnerClasses, AttributeLineNumberTable, AttributeLocalVariableTable,
    AttributeSourceFile, AttributeSynthetic, ExceptionTableEntry, LineNumberTableEntry,
};
pub use crate::bytes_reader::BytesReader;
pub use crate::class_flags::ClassFlags;
pub use crate::constant_pool::{
    ConstantPoolClassInfo, ConstantPoolDoubleInfo, ConstantPoolFieldRefInfo, ConstantPoolFloatInfo,
    ConstantPoolInfo, ConstantPoolIntegerInfo, ConstantPoolInterfaceMethodRefInfo,
    ConstantPoolLongInfo, ConstantPoolMethodRefInfo, ConstantPoolNameAndTypeInfo,
    ConstantPoolStringInfo, ConstantPoolUtf8Info, DynamicInfo, InvokeDynamicInfo, MethodKindInfo,
};
pub use crate::error::{DecodeError, ResolveError};
pub use crate::java_class::{FieldInfo, JavaClass, MethodInfo};
pub use crate::line::{Line, Piece, Style};
