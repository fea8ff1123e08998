//! Decoding is a single pass: what a decoder gives depends only on the bytes
//! that it takes, so bytes that follow a class, an entry or an attribute
//! change nothing.
use crate::attributes::{
    bytes_from, spec_attribute, spec_attribute_body, spec_attribute_list, spec_attribute_seq,
    spec_code, spec_exception_table, spec_line_number_table,
};
use crate::bytes_reader::{be_u16, be_u32, be_u64};
use crate::constant_pool::{pool_len, spec_constant, spec_constants, spec_name, Constant};
use crate::java_class::{
    spec_class, spec_class_body, spec_indexes, spec_member, spec_member_list, spec_members,
};
use vstd::prelude::*;

verus! {

/// Bytes that lie inside `s` are the same in `s + t`, and so are the numbers
/// that they spell.
pub proof fn lemma_numbers_ignore_what_follows(s: Seq<u8>, t: Seq<u8>, at: int)
    requires
        0 <= at,
    ensures
        at + 1 <= s.len() ==> (s + t)[at] == s[at],
        at + 2 <= s.len() ==> be_u16(s + t, at) == be_u16(s, at),
        at + 4 <= s.len() ==> be_u32(s + t, at) == be_u32(s, at),
        at + 8 <= s.len() ==> be_u64(s + t, at) == be_u64(s, at),
{
}

/// A constant-pool entry that decodes from `s` decodes to the same entry
/// from `s + t`.
pub proof fn lemma_constant_ignores_what_follows(s: Seq<u8>, t: Seq<u8>, pos: int)
    requires
        0 <= pos,
        spec_constant(s, pos) is Ok,
    ensures
        spec_constant(s + t, pos) == spec_constant(s, pos),
{
    lemma_numbers_ignore_what_follows(s, t, pos);
    lemma_numbers_ignore_what_follows(s, t, pos + 1);
    lemma_numbers_ignore_what_follows(s, t, pos + 2);
    lemma_numbers_ignore_what_follows(s, t, pos + 3);
    if s[pos] == 1 {
        let end = pos + 3 + be_u16(s, pos + 1);
        assert((s + t).subrange(pos + 3, end) =~= s.subrange(pos + 3, end));
    }
}

/// A row of constant-pool entries that decodes from `s` decodes to the same
/// entries from `s + t`.
pub proof fn lemma_constants_ignore_what_follows(s: Seq<u8>, t: Seq<u8>, pos: int, n: nat)
    requires
        0 <= pos,
        spec_constants(s, pos, n) is Ok,
    ensures
        spec_constants(s + t, pos, n) == spec_constants(s, pos, n),
    decreases n,
{
    if n > 0 {
        lemma_constant_ignores_what_follows(s, t, pos);
        let used = spec_constant(s, pos)->Ok_0.1;
        lemma_constants_ignore_what_follows(s, t, pos + used, (n - 1) as nat);
    }
}

/// An attribute that decodes from `s` decodes to the same attribute from
/// `s + t`.
pub proof fn lemma_attribute_ignores_what_follows(
    s: Seq<u8>,
    t: Seq<u8>,
    pos: int,
    pool: Seq<Constant>,
)
    requires
        0 <= pos,
        spec_attribute(s, pos, pool) is Ok,
    ensures
        spec_attribute(s + t, pos, pool) == spec_attribute(s, pos, pool),
    decreases bytes_from(s, pos), 0nat,
{
    lemma_numbers_ignore_what_follows(s, t, pos);
    lemma_numbers_ignore_what_follows(s, t, pos + 2);
    let name = spec_name(pool, be_u16(s, pos))->0;
    lemma_attribute_body_ignores_what_follows(
        s,
        t,
        pos + 6,
        pool,
        be_u16(s, pos) as nat,
        name,
        be_u32(s, pos + 2) as nat,
    );
}

/// The body of an attribute that decodes from `s` decodes to the same from
/// `s + t`.
pub proof fn lemma_attribute_body_ignores_what_follows(
    s: Seq<u8>,
    t: Seq<u8>,
    at: int,
    pool: Seq<Constant>,
    name_index: nat,
    name: Seq<char>,
    declared: nat,
)
    requires
        0 <= at,
        spec_attribute_body(s, at, pool, name_index, name, declared) is Ok,
    ensures
        spec_attribute_body(s + t, at, pool, name_index, name, declared) == spec_attribute_body(
            s,
            at,
            pool,
            name_index,
            name,
            declared,
        ),
    decreases bytes_from(s, at), 1nat,
{
    lemma_numbers_ignore_what_follows(s, t, at);
    if name == "ConstantValue"@ {
    } else if name == "Code"@ {
        lemma_code_ignores_what_follows(s, t, at, pool, name_index);
    } else if name == "LineNumberTable"@ {
        let n = be_u16(s, at) as nat;
        let longer = spec_line_number_table(s + t, at + 2, n);
        let shorter = spec_line_number_table(s, at + 2, n);
        assert forall|i: int| 0 <= i < n implies #[trigger] longer[i] == shorter[i] by {
            lemma_numbers_ignore_what_follows(s, t, at + 2 + 4 * i);
            lemma_numbers_ignore_what_follows(s, t, at + 2 + 4 * i + 2);
        }
        assert(longer =~= shorter);
    }
}

/// The body of a code attribute that decodes from `s` decodes to the same
/// from `s + t`.
pub proof fn lemma_code_ignores_what_follows(
    s: Seq<u8>,
    t: Seq<u8>,
    at: int,
    pool: Seq<Constant>,
    name_index: nat,
)
    requires
        0 <= at,
        spec_code(s, at, pool, name_index) is Ok,
    ensures
        spec_code(s + t, at, pool, name_index) == spec_code(s, at, pool, name_index),
    decreases bytes_from(s, at), 0nat,
{
    lemma_numbers_ignore_what_follows(s, t, at);
    lemma_numbers_ignore_what_follows(s, t, at + 2);
    lemma_numbers_ignore_what_follows(s, t, at + 4);
    let code_length = be_u32(s, at + 4) as nat;
    lemma_numbers_ignore_what_follows(s, t, at + 8 + code_length);
    let entries = be_u16(s, at + 8 + code_length) as nat;
    let table = at + 8 + code_length + 2;
    assert((s + t).subrange(at + 8, at + 8 + code_length) =~= s.subrange(
        at + 8,
        at + 8 + code_length,
    ));
    let longer = spec_exception_table(s + t, table, entries);
    let shorter = spec_exception_table(s, table, entries);
    assert forall|i: int| 0 <= i < entries implies #[trigger] longer[i] == shorter[i] by {
        lemma_numbers_ignore_what_follows(s, t, table + 8 * i);
        lemma_numbers_ignore_what_follows(s, t, table + 8 * i + 2);
        lemma_numbers_ignore_what_follows(s, t, table + 8 * i + 4);
        lemma_numbers_ignore_what_follows(s, t, table + 8 * i + 6);
    }
    assert(longer =~= shorter);
    lemma_attribute_list_ignores_what_follows(s, t, table + 8 * entries, pool);
}

/// An attribute list that decodes from `s` decodes to the same list from
/// `s + t`.
pub proof fn lemma_attribute_list_ignores_what_follows(
    s: Seq<u8>,
    t: Seq<u8>,
    pos: int,
    pool: Seq<Constant>,
)
    requires
        0 <= pos,
        spec_attribute_list(s, pos, pool) is Ok,
    ensures
        spec_attribute_list(s + t, pos, pool) == spec_attribute_list(s, pos, pool),
    decreases bytes_from(s, pos), 0nat,
{
    lemma_numbers_ignore_what_follows(s, t, pos);
    lemma_attribute_seq_ignores_what_follows(s, t, pos + 2, pool, be_u16(s, pos) as nat);
}

/// A row of attributes that decodes from `s` decodes to the same row from
/// `s + t`.
pub proof fn lemma_attribute_seq_ignores_what_follows(
    s: Seq<u8>,
    t: Seq<u8>,
    pos: int,
    pool: Seq<Constant>,
    n: nat,
)
    requires
        0 <= pos,
        spec_attribute_seq(s, pos, pool, n) is Ok,
    ensures
        spec_attribute_seq(s + t, pos, pool, n) == spec_attribute_seq(s, pos, pool, n),
    decreases bytes_from(s, pos), n + 1,
{
    if n > 0 {
        lemma_attribute_ignores_what_follows(s, t, pos, pool);
        let used = spec_attribute(s, pos, pool)->Ok_0.1;
        lemma_attribute_seq_ignores_what_follows(s, t, pos + used, pool, (n - 1) as nat);
    }
}

/// A field or a method that decodes from `s` decodes to the same member
/// from `s + t`.
pub proof fn lemma_member_ignores_what_follows(
    s: Seq<u8>,
    t: Seq<u8>,
    pos: int,
    pool: Seq<Constant>,
)
    requires
        0 <= pos,
        spec_member(s, pos, pool) is Ok,
    ensures
        spec_member(s + t, pos, pool) == spec_member(s, pos, pool),
{
    lemma_numbers_ignore_what_follows(s, t, pos);
    lemma_numbers_ignore_what_follows(s, t, pos + 2);
    lemma_numbers_ignore_what_follows(s, t, pos + 4);
    lemma_attribute_list_ignores_what_follows(s, t, pos + 6, pool);
}

/// A row of members that decodes from `s` decodes to the same row from
/// `s + t`.
pub proof fn lemma_members_ignore_what_follows(
    s: Seq<u8>,
    t: Seq<u8>,
    pos: int,
    pool: Seq<Constant>,
    n: nat,
)
    requires
        0 <= pos,
        spec_members(s, pos, pool, n) is Ok,
    ensures
        spec_members(s + t, pos, pool, n) == spec_members(s, pos, pool, n),
    decreases n,
{
    if n > 0 {
        lemma_member_ignores_what_follows(s, t, pos, pool);
        let used = spec_member(s, pos, pool)->Ok_0.1;
        lemma_members_ignore_what_follows(s, t, pos + used, pool, (n - 1) as nat);
    }
}

/// A list of members that decodes from `s` decodes to the same list from
/// `s + t`.
pub proof fn lemma_member_list_ignores_what_follows(
    s: Seq<u8>,
    t: Seq<u8>,
    pos: int,
    pool: Seq<Constant>,
)
    requires
        0 <= pos,
        spec_member_list(s, pos, pool) is Ok,
    ensures
        spec_member_list(s + t, pos, pool) == spec_member_list(s, pos, pool),
{
    lemma_numbers_ignore_what_follows(s, t, pos);
    lemma_members_ignore_what_follows(s, t, pos + 2, pool, be_u16(s, pos) as nat);
}

/// A class that decodes from `s` decodes to the same class from `s` with any
/// bytes `t` after it: nothing after the methods is looked at.
pub proof fn lemma_class_ignores_what_follows(s: Seq<u8>, t: Seq<u8>)
    requires
        spec_class(s) is Ok,
    ensures
        spec_class(s + t) == spec_class(s),
{
    lemma_numbers_ignore_what_follows(s, t, 0);
    lemma_numbers_ignore_what_follows(s, t, 4);
    lemma_numbers_ignore_what_follows(s, t, 6);
    lemma_numbers_ignore_what_follows(s, t, 8);
    let n = pool_len(be_u16(s, 8) as nat);
    lemma_constants_ignore_what_follows(s, t, 10, n);
    let (pool, used) = spec_constants(s, 10, n)->Ok_0;
    let at = 10int + used;
    lemma_numbers_ignore_what_follows(s, t, at);
    lemma_numbers_ignore_what_follows(s, t, at + 2);
    lemma_numbers_ignore_what_follows(s, t, at + 4);
    lemma_numbers_ignore_what_follows(s, t, at + 6);
    let interfaces_count = be_u16(s, at + 6) as nat;
    let longer = spec_indexes(s + t, at + 8, interfaces_count);
    let shorter = spec_indexes(s, at + 8, interfaces_count);
    assert forall|i: int| 0 <= i < interfaces_count implies #[trigger] longer[i] == shorter[i] by {
        lemma_numbers_ignore_what_follows(s, t, at + 8 + 2 * i);
    }
    assert(longer =~= shorter);
    let fields_at = at + 8 + 2 * interfaces_count;
    lemma_member_list_ignores_what_follows(s, t, fields_at, pool);
    let fields_used = spec_member_list(s, fields_at, pool)->Ok_0.1;
    lemma_member_list_ignores_what_follows(s, t, fields_at + fields_used, pool);
}

} // verus!
