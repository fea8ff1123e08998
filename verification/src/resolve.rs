//! Following an index into the constant pool: the three lookups that all
//! cross-referencing is made of.
use crate::constant_pool::{
    spec_name, Constant, ConstantPoolInfo, ConstantPoolNameAndTypeInfo, ConstantPoolUtf8Info,
};
use crate::error::ResolveError;
use crate::java_class::JavaClass;
use vstd::prelude::*;

verus! {

/// The name of the class that the pool holds at `index`: `index` must name a
/// class entry, and that entry's name index must name UTF-8 text.
pub open spec fn spec_class_name(pool: Seq<Constant>, index: int) -> Option<Seq<char>> {
    if 1 <= index <= pool.len() {
        match pool[index - 1] {
            Constant::Class { name_index } => spec_name(pool, name_index as int),
            _ => None,
        }
    } else {
        None
    }
}

/// The name index and the descriptor index of the name-and-type pair that
/// the pool holds at `index`.
pub open spec fn spec_name_and_type(pool: Seq<Constant>, index: int) -> Option<(nat, nat)> {
    if 1 <= index <= pool.len() {
        match pool[index - 1] {
            Constant::NameAndType { name_index, descriptor_index } => Some(
                (name_index, descriptor_index),
            ),
            _ => None,
        }
    } else {
        None
    }
}

/// The text at `index`, or the report that there is none.
pub open spec fn spec_name_text(pool: Seq<Constant>, index: nat) -> Result<
    Seq<char>,
    ResolveError,
> {
    match spec_name(pool, index as int) {
        Some(text) => Ok(text),
        None => Err(ResolveError::MissingUtf8 { index: index as usize }),
    }
}

/// The name of the class at `index`, or the report that there is none.
pub open spec fn spec_class_name_text(pool: Seq<Constant>, index: nat) -> Result<
    Seq<char>,
    ResolveError,
> {
    match spec_class_name(pool, index as int) {
        Some(text) => Ok(text),
        None => Err(ResolveError::MissingClass { index: index as usize }),
    }
}

/// The name and the descriptor of the name-and-type pair at `index`, looked
/// up in this order: the pair, its name, its descriptor.
pub open spec fn spec_name_and_type_texts(pool: Seq<Constant>, index: nat) -> Result<
    (Seq<char>, Seq<char>),
    ResolveError,
> {
    match spec_name_and_type(pool, index as int) {
        None => Err(ResolveError::MissingNameAndType { index: index as usize }),
        Some((name_index, descriptor_index)) => match spec_name_text(pool, name_index) {
            Err(e) => Err(e),
            Ok(name) => match spec_name_text(pool, descriptor_index) {
                Err(e) => Err(e),
                Ok(descriptor) => Ok((name, descriptor)),
            },
        },
    }
}

/// The class name, the member name and the descriptor that a reference to a
/// field or a method leads to, looked up in this order: the class, then the
/// name-and-type pair.
pub open spec fn spec_member_ref_texts(
    pool: Seq<Constant>,
    class_index: nat,
    name_and_type_index: nat,
) -> Result<(Seq<char>, Seq<char>, Seq<char>), ResolveError> {
    match spec_class_name_text(pool, class_index) {
        Err(e) => Err(e),
        Ok(class_name) => match spec_name_and_type_texts(pool, name_and_type_index) {
            Err(e) => Err(e),
            Ok((name, descriptor)) => Ok((class_name, name, descriptor)),
        },
    }
}

/// The name-and-type pair at `index` is there, and so are its name and its
/// descriptor.
pub open spec fn name_and_type_resolves(pool: Seq<Constant>, index: nat) -> bool {
    spec_name_and_type(pool, index as int) matches Some((name, descriptor)) && spec_name(
        pool,
        name as int,
    ) is Some && spec_name(pool, descriptor as int) is Some
}

/// Every index that showing the entry `constant` follows lands on an entry
/// of the kind that is expected there.
pub open spec fn constant_resolves(pool: Seq<Constant>, constant: Constant) -> bool {
    match constant {
        Constant::Class { name_index } => spec_name(pool, name_index as int) is Some,
        Constant::String { name_index } => spec_name(pool, name_index as int) is Some,
        Constant::FieldRef { class_index, name_and_type_index } => spec_class_name(
            pool,
            class_index as int,
        ) is Some && name_and_type_resolves(pool, name_and_type_index),
        Constant::MethodRef { class_index, name_and_type_index } => spec_class_name(
            pool,
            class_index as int,
        ) is Some && name_and_type_resolves(pool, name_and_type_index),
        Constant::NameAndType { name_index, descriptor_index } => spec_name(
            pool,
            name_index as int,
        ) is Some && spec_name(pool, descriptor_index as int) is Some,
        Constant::InvokeDynamic { name_and_type_index, .. } => name_and_type_resolves(
            pool,
            name_and_type_index,
        ),
        _ => true,
    }
}

/// The text entry that the class's pool holds at `name_index`, if that is
/// what the index names.
pub fn get_name_constant<'a>(class: &'a JavaClass, name_index: &usize) -> (r: Option<
    &'a ConstantPoolUtf8Info,
>)
    ensures
        match spec_name(class@.constant_pool_infos, *name_index as int) {
            Some(text) => r matches Some(info) && info.string@ == text
                && class.constant_pool_infos@[*name_index - 1] == ConstantPoolInfo::Utf8(*info),
            None => r is None,
        },
{
    let index = *name_index;
    if index == 0 || index > class.constant_pool_infos.len() {
        return None;
    }
    match &class.constant_pool_infos[index - 1] {
        ConstantPoolInfo::Utf8(class_name) => Some(class_name),
        _ => None,
    }
}

/// The text entry that names the class at `class_index`, if the index names
/// a class entry whose name index names text.
pub fn get_class_name<'a>(class: &'a JavaClass, class_index: &usize) -> (r: Option<
    &'a ConstantPoolUtf8Info,
>)
    ensures
        match spec_class_name(class@.constant_pool_infos, *class_index as int) {
            Some(text) => r matches Some(info) && info.string@ == text && (
            class.constant_pool_infos@[*class_index - 1] matches ConstantPoolInfo::Class(c)
                && class.constant_pool_infos@[c.name_index - 1] == ConstantPoolInfo::Utf8(*info)),
            None => r is None,
        },
{
    let index = *class_index;
    if index == 0 || index > class.constant_pool_infos.len() {
        return None;
    }
    match &class.constant_pool_infos[index - 1] {
        ConstantPoolInfo::Class(class_info) => get_name_constant(class, &class_info.name_index),
        _ => None,
    }
}

/// The name-and-type pair that the class's pool holds at `name_index`, if
/// that is what the index names.
pub fn get_name_and_type_constant<'a>(class: &'a JavaClass, name_index: &usize) -> (r: Option<
    &'a ConstantPoolNameAndTypeInfo,
>)
    ensures
        match spec_name_and_type(class@.constant_pool_infos, *name_index as int) {
            Some((name, descriptor)) => r matches Some(info) && info.name_index == name
                && info.descriptor_index == descriptor
                && class.constant_pool_infos@[*name_index - 1] == ConstantPoolInfo::NameAndType(
                *info,
            ),
            None => r is None,
        },
{
    let index = *name_index;
    if index == 0 || index > class.constant_pool_infos.len() {
        return None;
    }
    match &class.constant_pool_infos[index - 1] {
        ConstantPoolInfo::NameAndType(name_and_type) => Some(name_and_type),
        _ => None,
    }
}

/// The text at `index`, or the report that there is none.
pub fn name_text<'a>(class: &'a JavaClass, index: usize) -> (r: Result<&'a String, ResolveError>)
    ensures
        match spec_name_text(class@.constant_pool_infos, index as nat) {
            Ok(text) => r matches Ok(s) && s@ == text,
            Err(e) => r == Err::<&String, ResolveError>(e),
        },
{
    match get_name_constant(class, &index) {
        Some(info) => Ok(&info.string),
        None => Err(ResolveError::MissingUtf8 { index }),
    }
}

/// The name of the class at `index`, or the report that there is none.
pub fn class_name_text<'a>(class: &'a JavaClass, index: usize) -> (r: Result<
    &'a String,
    ResolveError,
>)
    ensures
        match spec_class_name_text(class@.constant_pool_infos, index as nat) {
            Ok(text) => r matches Ok(s) && s@ == text,
            Err(e) => r == Err::<&String, ResolveError>(e),
        },
{
    match get_class_name(class, &index) {
        Some(info) => Ok(&info.string),
        None => Err(ResolveError::MissingClass { index }),
    }
}

/// The name and the descriptor of the name-and-type pair at `index`, or the
/// report of the first of the three lookups that found nothing.
pub fn name_and_type_texts<'a>(class: &'a JavaClass, index: usize) -> (r: Result<
    (&'a String, &'a String),
    ResolveError,
>)
    ensures
        match spec_name_and_type_texts(class@.constant_pool_infos, index as nat) {
            Ok((name, descriptor)) => r matches Ok(pair) && pair.0@ == name && pair.1@
                == descriptor,
            Err(e) => r == Err::<(&String, &String), ResolveError>(e),
        },
{
    match get_name_and_type_constant(class, &index) {
        None => Err(ResolveError::MissingNameAndType { index }),
        Some(name_and_type) => {
            let name = name_text(class, name_and_type.name_index)?;
            let descriptor = name_text(class, name_and_type.descriptor_index)?;
            Ok((name, descriptor))
        },
    }
}

} // verus!
