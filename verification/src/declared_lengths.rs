//! Declared lengths hold throughout a class that decodes: every attribute
//! that decoding meets, on a field, on a method or inside code to any depth,
//! takes exactly the bytes that it declares. A file in which one of them
//! does not is not decoded.
use crate::attributes::{
    declared_extent, declared_length, lemma_attribute_takes_declared_length,
    lemma_attributes_take_declared_lengths, nested_attributes_at, spec_attribute,
    spec_attribute_body, spec_attribute_list, spec_attribute_seq, spec_code,
};
use crate::bytes_reader::be_u16;
use crate::constant_pool::{pool_len, spec_constants, spec_name, Constant};
use crate::java_class::{spec_class, spec_member, spec_member_list, spec_members};
use vstd::prelude::*;

verus! {

/// Where the attribute number `k` of a row of attributes begins, counted
/// from zero, if the row begins at `pos` and every attribute before it takes
/// its header and what it declares.
pub open spec fn attribute_at(s: Seq<u8>, pos: int, k: nat) -> int {
    pos + declared_extent(s, pos, k)
}

/// Whether decoding of the attribute list at `list` meets an attribute by
/// the steps of `path`: the first step is the number of an attribute of the
/// list; each further step is the number of an attribute of the list inside
/// the attribute that the step before led to, which must be named `Code`.
pub open spec fn path_is_met(s: Seq<u8>, list: int, pool: Seq<Constant>, path: Seq<nat>) -> bool
    decreases path.len(),
{
    &&& path.len() > 0
    &&& path[0] < be_u16(s, list)
    &&& path.len() > 1 ==> {
        &&& spec_name(pool, be_u16(s, attribute_at(s, list + 2, path[0]))) == Some("Code"@)
        &&& path_is_met(
            s,
            nested_attributes_at(s, attribute_at(s, list + 2, path[0])),
            pool,
            path.drop_first(),
        )
    }
}

/// Where the attribute begins that the steps of `path` lead to from the
/// attribute list at `list`.
pub open spec fn attribute_on_path(s: Seq<u8>, list: int, path: Seq<nat>) -> int
    decreases path.len(),
{
    if path.len() == 0 {
        list
    } else if path.len() == 1 {
        attribute_at(s, list + 2, path[0])
    } else {
        attribute_on_path(
            s,
            nested_attributes_at(s, attribute_at(s, list + 2, path[0])),
            path.drop_first(),
        )
    }
}

/// The bytes that the field or method at `pos` takes if each of its
/// attributes takes its header and what it declares.
pub open spec fn member_extent(s: Seq<u8>, pos: int) -> nat {
    8 + declared_extent(s, pos + 8, be_u16(s, pos + 6) as nat)
}

/// The bytes that `n` fields or methods in a row take, the first of them at
/// `pos`, if each attribute takes its header and what it declares.
pub open spec fn members_extent(s: Seq<u8>, pos: int, n: nat) -> nat
    decreases n,
{
    if n == 0 {
        0
    } else {
        member_extent(s, pos) + members_extent(s, pos + member_extent(s, pos), (n - 1) as nat)
    }
}

/// Where the member number `k` of a row of members begins, counted from
/// zero, if the row begins at `pos`.
pub open spec fn member_at(s: Seq<u8>, pos: int, k: nat) -> int {
    pos + members_extent(s, pos, k)
}

/// The constant pool of the file `s`, where it decodes.
pub open spec fn class_pool(s: Seq<u8>) -> Seq<Constant> {
    spec_constants(s, 10, pool_len(be_u16(s, 8) as nat))->Ok_0.0
}

/// Where the list of fields of the file `s` begins: after the pool, the
/// flags, the two class indices and the interfaces.
pub open spec fn fields_at(s: Seq<u8>) -> int {
    let pool_end = 10int + spec_constants(s, 10, pool_len(be_u16(s, 8) as nat))->Ok_0.1;
    pool_end + 8 + 2 * be_u16(s, pool_end + 6)
}

/// Where the list of methods of the file `s` begins: after the fields.
pub open spec fn methods_at(s: Seq<u8>) -> int {
    fields_at(s) + 2 + members_extent(s, fields_at(s) + 2, be_u16(s, fields_at(s)) as nat)
}

/// In a row of attributes that decodes, each attribute decodes where the
/// declared lengths of those before it put it.
pub proof fn lemma_each_attribute_of_a_row_decodes(
    s: Seq<u8>,
    pos: int,
    pool: Seq<Constant>,
    n: nat,
    k: nat,
)
    requires
        spec_attribute_seq(s, pos, pool, n) is Ok,
        k < n,
    ensures
        spec_attribute(s, attribute_at(s, pos, k), pool) is Ok,
    decreases k,
{
    if k > 0 {
        lemma_attribute_takes_declared_length(s, pos, pool);
        let used = spec_attribute(s, pos, pool)->Ok_0.1;
        lemma_each_attribute_of_a_row_decodes(s, pos + used, pool, (n - 1) as nat, (k - 1) as nat);
        assert(attribute_at(s, pos, k) == attribute_at(s, pos + used, (k - 1) as nat));
    }
}

/// The attribute list inside a code attribute that decodes, decodes.
pub proof fn lemma_nested_list_decodes(s: Seq<u8>, pos: int, pool: Seq<Constant>)
    requires
        spec_attribute(s, pos, pool) is Ok,
        spec_name(pool, be_u16(s, pos)) == Some("Code"@),
    ensures
        spec_attribute_list(s, nested_attributes_at(s, pos), pool) is Ok,
{
    reveal_strlit("Code");
    reveal_strlit("ConstantValue");
    assert("Code"@ != "ConstantValue"@) by {
        assert("Code"@.len() == 4);
        assert("ConstantValue"@.len() == 13);
    }
    let body = spec_attribute_body(
        s,
        pos + 6,
        pool,
        be_u16(s, pos) as nat,
        "Code"@,
        declared_length(s, pos),
    );
    assert(body is Ok);
    assert(spec_code(s, pos + 6, pool, be_u16(s, pos) as nat) is Ok) by {
        reveal_with_fuel(spec_attribute_body, 2);
    }
}

/// Every attribute that decoding of an attribute list meets, at any depth,
/// decodes, and so takes its header and exactly the bytes that it declares.
pub proof fn lemma_attributes_on_paths_take_declared_lengths(
    s: Seq<u8>,
    list: int,
    pool: Seq<Constant>,
    path: Seq<nat>,
)
    requires
        spec_attribute_list(s, list, pool) is Ok,
        path_is_met(s, list, pool, path),
    ensures
        spec_attribute(s, attribute_on_path(s, list, path), pool) matches Ok((_, used)) && used == 6
            + declared_length(s, attribute_on_path(s, list, path)),
    decreases path.len(),
{
    let here = attribute_at(s, list + 2, path[0]);
    lemma_each_attribute_of_a_row_decodes(s, list + 2, pool, be_u16(s, list) as nat, path[0]);
    if path.len() == 1 {
        lemma_attribute_takes_declared_length(s, here, pool);
    } else {
        lemma_nested_list_decodes(s, here, pool);
        lemma_attributes_on_paths_take_declared_lengths(
            s,
            nested_attributes_at(s, here),
            pool,
            path.drop_first(),
        );
    }
}

/// A field or method that decodes takes its eight bytes and what its
/// attributes declare, and its attribute list decodes.
pub proof fn lemma_member_takes_declared_lengths(s: Seq<u8>, pos: int, pool: Seq<Constant>)
    requires
        spec_member(s, pos, pool) is Ok,
    ensures
        spec_member(s, pos, pool)->Ok_0.1 == member_extent(s, pos),
        spec_attribute_list(s, pos + 6, pool) is Ok,
{
    lemma_attributes_take_declared_lengths(s, pos + 8, pool, be_u16(s, pos + 6) as nat);
}

/// In a row of members that decodes, each member decodes where the declared
/// lengths before it put it, and the row takes what its attributes declare.
pub proof fn lemma_each_member_of_a_row_decodes(
    s: Seq<u8>,
    pos: int,
    pool: Seq<Constant>,
    n: nat,
    k: nat,
)
    requires
        spec_members(s, pos, pool, n) is Ok,
        k < n,
    ensures
        spec_member(s, member_at(s, pos, k), pool) is Ok,
    decreases k,
{
    if k > 0 {
        lemma_member_takes_declared_lengths(s, pos, pool);
        let used = spec_member(s, pos, pool)->Ok_0.1;
        lemma_each_member_of_a_row_decodes(s, pos + used, pool, (n - 1) as nat, (k - 1) as nat);
        assert(member_at(s, pos, k) == member_at(s, pos + used, (k - 1) as nat));
    }
}

/// A row of members that decodes takes what its attributes declare.
pub proof fn lemma_members_take_declared_lengths(s: Seq<u8>, pos: int, pool: Seq<Constant>, n: nat)
    requires
        spec_members(s, pos, pool, n) is Ok,
    ensures
        spec_members(s, pos, pool, n)->Ok_0.1 == members_extent(s, pos, n),
    decreases n,
{
    if n > 0 {
        lemma_member_takes_declared_lengths(s, pos, pool);
        let used = spec_member(s, pos, pool)->Ok_0.1;
        lemma_members_take_declared_lengths(s, pos + used, pool, (n - 1) as nat);
    }
}

/// In a class that decodes, the lists of fields and of methods decode where
/// the declared lengths put them.
pub proof fn lemma_member_lists_decode(s: Seq<u8>)
    requires
        spec_class(s) is Ok,
    ensures
        spec_class(s)->Ok_0.constant_pool_infos == class_pool(s),
        spec_member_list(s, fields_at(s), class_pool(s)) is Ok,
        spec_member_list(s, methods_at(s), class_pool(s)) is Ok,
{
    lemma_members_take_declared_lengths(
        s,
        fields_at(s) + 2,
        class_pool(s),
        be_u16(s, fields_at(s)) as nat,
    );
}

/// Declared lengths hold throughout a class that decodes. Take any field
/// (`in_methods` false) or method (`in_methods` true) by its number
/// `member`, and any attribute that decoding of its attribute list meets:
/// that attribute decodes, and it takes its six-byte header and exactly the
/// bytes that it declares.
pub proof fn lemma_class_attributes_take_declared_lengths(
    s: Seq<u8>,
    in_methods: bool,
    member: nat,
    path: Seq<nat>,
)
    requires
        spec_class(s) is Ok,
        member < be_u16(s, if in_methods { methods_at(s) } else { fields_at(s) }),
        path_is_met(
            s,
            member_at(s, (if in_methods { methods_at(s) } else { fields_at(s) }) + 2, member) + 6,
            class_pool(s),
            path,
        ),
    ensures
        ({
            let list = member_at(
                s,
                (if in_methods { methods_at(s) } else { fields_at(s) }) + 2,
                member,
            ) + 6;
            let at = attribute_on_path(s, list, path);
            spec_attribute(s, at, class_pool(s)) matches Ok((_, used)) && used == 6
                + declared_length(s, at)
        }),
{
    lemma_member_lists_decode(s);
    let members = if in_methods { methods_at(s) } else { fields_at(s) };
    lemma_each_member_of_a_row_decodes(
        s,
        members + 2,
        class_pool(s),
        be_u16(s, members) as nat,
        member,
    );
    let at = member_at(s, members + 2, member);
    lemma_member_takes_declared_lengths(s, at, class_pool(s));
    lemma_attributes_on_paths_take_declared_lengths(s, at + 6, class_pool(s), path);
}

/// A file in which an attribute that decoding meets does not take what it
/// declares is not decoded: where the body of such an attribute, on a field
/// or a method or inside code to any depth, would take `used` bytes and
/// declares another number, the whole class fails.
pub proof fn lemma_mismatched_length_fails_the_class(
    s: Seq<u8>,
    in_methods: bool,
    member: nat,
    path: Seq<nat>,
    name: Seq<char>,
    used: nat,
)
    requires
        member < be_u16(s, if in_methods { methods_at(s) } else { fields_at(s) }),
        path_is_met(
            s,
            member_at(s, (if in_methods { methods_at(s) } else { fields_at(s) }) + 2, member) + 6,
            class_pool(s),
            path,
        ),
        ({
            let list = member_at(
                s,
                (if in_methods { methods_at(s) } else { fields_at(s) }) + 2,
                member,
            ) + 6;
            let at = attribute_on_path(s, list, path);
            &&& spec_name(class_pool(s), be_u16(s, at)) == Some(name)
            &&& spec_attribute_body(
                s,
                at + 6,
                class_pool(s),
                be_u16(s, at) as nat,
                name,
                declared_length(s, at),
            ) matches Ok((_, taken)) && taken == used
            &&& used != declared_length(s, at)
        }),
    ensures
        spec_class(s) is Err,
{
    if spec_class(s) is Ok {
        lemma_class_attributes_take_declared_lengths(s, in_methods, member, path);
    }
}

} // verus!
