//! Shows a class as lines of text.
use crate::attributes::Attribute;
use crate::class_flags::{
    bit_set, ClassFlags, ACC_ABSTRACT, ACC_ANNOTATION, ACC_ENUM, ACC_FINAL, ACC_INTERFACE,
    ACC_MODULE, ACC_PUBLIC, ACC_SUPER, ACC_SYNTHETIC,
};
use crate::constant_lines::{line_result_view, print_constant, spec_constant_line};
use crate::constant_pool::Constant;
use crate::error::ResolveError;
use crate::java_class::{
    fields_view, methods_view, ClassModel, FieldInfo, JavaClass, MemberModel, MethodInfo,
};
use crate::line::{label, lines_view, number, plain, Line, PieceModel, Style};
use crate::resolve::{class_name_text, constant_resolves, spec_class_name, spec_class_name_text};
use crate::text::{bool_str, bool_text, hex_upper, push_hex_upper};
use vstd::prelude::*;

verus! {

/// Shows a class as lines of text.
pub struct ClassPrinter(pub JavaClass);

/// `acc`, followed by what `rest` gives.
pub open spec fn after<T>(acc: Seq<T>, rest: Result<Seq<T>, ResolveError>) -> Result<
    Seq<T>,
    ResolveError,
> {
    match rest {
        Err(e) => Err(e),
        Ok(items) => Ok(acc + items),
    }
}

/// The three headlines: magic number, version, constant-pool count.
pub open spec fn spec_header_lines(class: ClassModel) -> Seq<Seq<PieceModel>> {
    seq![
        seq![label("Prelude"@), plain(": 0x"@), plain(hex_upper(class.prelude as nat))],
        seq![
            label("Version"@),
            plain(": "@),
            number(class.major as nat),
            plain("."@),
            number(class.minor as nat),
        ],
        seq![label("Constant pool count"@), plain(": "@), number(class.constant_pool_count)],
    ]
}

/// The lines of the pool entries from position `from` on, in pool order; or
/// the report of the first lookup that found nothing.
pub open spec fn spec_constant_lines(pool: Seq<Constant>, from: int) -> Result<
    Seq<Seq<PieceModel>>,
    ResolveError,
>
    decreases pool.len() - from,
{
    if from < 0 || from >= pool.len() {
        Ok(Seq::empty())
    } else {
        match spec_constant_line(pool, from) {
            Err(e) => Err(e),
            Ok(line) => match spec_constant_lines(pool, from + 1) {
                Err(e) => Err(e),
                Ok(rest) => Ok(seq![line] + rest),
            },
        }
    }
}

/// The line of one flag: its name and whether it is set.
pub open spec fn spec_flag_line(name: Seq<char>, value: bool) -> Seq<PieceModel> {
    seq![plain("  "@), plain(name), plain(": "@), plain(bool_text(value))]
}

/// The headline of the flags and one line for each of the nine flags.
pub open spec fn spec_flags_lines(flags: u16) -> Seq<Seq<PieceModel>> {
    seq![
        seq![plain("Flags: "@)],
        spec_flag_line("public"@, bit_set(flags, ACC_PUBLIC)),
        spec_flag_line("final"@, bit_set(flags, ACC_FINAL)),
        spec_flag_line("super"@, bit_set(flags, ACC_SUPER)),
        spec_flag_line("interface"@, bit_set(flags, ACC_INTERFACE)),
        spec_flag_line("abstract"@, bit_set(flags, ACC_ABSTRACT)),
        spec_flag_line("synthetic"@, bit_set(flags, ACC_SYNTHETIC)),
        spec_flag_line("annotation"@, bit_set(flags, ACC_ANNOTATION)),
        spec_flag_line("enum"@, bit_set(flags, ACC_ENUM)),
        spec_flag_line("module"@, bit_set(flags, ACC_MODULE)),
    ]
}

/// A line that names the class at `index` after the heading `heading`.
pub open spec fn spec_class_ref_line(
    pool: Seq<Constant>,
    heading: Seq<char>,
    index: nat,
) -> Result<Seq<PieceModel>, ResolveError> {
    match spec_class_name_text(pool, index) {
        Err(e) => Err(e),
        Ok(name) => Ok(seq![plain(heading), plain(name), plain(" ("@), number(index), plain(")"@)]),
    }
}

/// The line that names the class itself.
pub open spec fn spec_this_class_line(class: ClassModel) -> Result<Seq<PieceModel>, ResolveError> {
    spec_class_ref_line(class.constant_pool_infos, "This class: "@, class.this_class)
}

/// The line that names the superclass; no line where the superclass index
/// is zero, which says that there is no superclass.
pub open spec fn spec_super_class_lines(class: ClassModel) -> Result<
    Seq<Seq<PieceModel>>,
    ResolveError,
> {
    if class.super_class == 0 {
        Ok(Seq::empty())
    } else {
        match spec_class_ref_line(class.constant_pool_infos, "Super class: "@, class.super_class) {
            Err(e) => Err(e),
            Ok(line) => Ok(seq![line]),
        }
    }
}

/// The lines that name the interfaces from position `from` of `indexes` on.
pub open spec fn spec_interface_lines(pool: Seq<Constant>, indexes: Seq<nat>, from: int) -> Result<
    Seq<Seq<PieceModel>>,
    ResolveError,
>
    decreases indexes.len() - from,
{
    if from < 0 || from >= indexes.len() {
        Ok(Seq::empty())
    } else {
        match spec_class_ref_line(pool, "  "@, indexes[from]) {
            Err(e) => Err(e),
            Ok(line) => match spec_interface_lines(pool, indexes, from + 1) {
                Err(e) => Err(e),
                Ok(rest) => Ok(seq![line] + rest),
            },
        }
    }
}

/// A line that says how many of something there are.
pub open spec fn spec_count_line(heading: Seq<char>, count: nat) -> Seq<PieceModel> {
    seq![plain(heading), number(count)]
}

/// The line of a field: its name. The descriptor of a field is not shown.
pub open spec fn spec_field_line(field: MemberModel) -> Seq<PieceModel> {
    seq![plain("  "@), plain(field.name)]
}

/// The line of a method: its name and its descriptor index. The attributes
/// of a method add no lines.
pub open spec fn spec_method_line(method: MemberModel) -> Seq<PieceModel> {
    seq![plain("  "@), plain(method.name), plain(" at "@), number(method.descriptor_index)]
}

/// The lines of the fields: how many there are, then one line each.
pub open spec fn spec_fields_lines(fields: Seq<MemberModel>) -> Seq<Seq<PieceModel>> {
    seq![spec_count_line("Number of fields: "@, fields.len())] + Seq::new(
        fields.len(),
        |i: int| spec_field_line(fields[i]),
    )
}

/// The lines of the methods: how many there are, then one line each.
pub open spec fn spec_methods_lines(methods: Seq<MemberModel>) -> Seq<Seq<PieceModel>> {
    seq![spec_count_line("Number of methods: "@, methods.len())] + Seq::new(
        methods.len(),
        |i: int| spec_method_line(methods[i]),
    )
}

/// The lines of the interfaces: how many the class declares, then one line
/// each.
pub open spec fn spec_interfaces_lines(class: ClassModel) -> Result<
    Seq<Seq<PieceModel>>,
    ResolveError,
> {
    after(
        seq![spec_count_line("Number of interfaces: "@, class.interfaces_count)],
        spec_interface_lines(class.constant_pool_infos, class.interfaces_indexes, 0),
    )
}

/// All the lines that show a class, from top to bottom: the headlines, the
/// constant pool, the flags, the class and its superclass, the interfaces,
/// the fields, the methods. Where a lookup in the constant pool finds
/// nothing there are no lines at all, only the report of the first such
/// lookup.
pub open spec fn spec_print(class: ClassModel) -> Result<Seq<Seq<PieceModel>>, ResolveError> {
    match spec_constant_lines(class.constant_pool_infos, 0) {
        Err(e) => Err(e),
        Ok(constants) => match spec_this_class_line(class) {
            Err(e) => Err(e),
            Ok(this_class) => match spec_super_class_lines(class) {
                Err(e) => Err(e),
                Ok(super_class) => match spec_interfaces_lines(class) {
                    Err(e) => Err(e),
                    Ok(interfaces) => Ok(
                        spec_header_lines(class) + constants + spec_flags_lines(class.flags)
                            + seq![this_class] + super_class + interfaces + spec_fields_lines(
                            class.fields,
                        ) + spec_methods_lines(class.methods),
                    ),
                },
            },
        },
    }
}

/// Lines that were made or the report of a lookup that found nothing, as
/// mathematics.
pub open spec fn lines_result_view(r: Result<Vec<Line>, ResolveError>) -> Result<
    Seq<Seq<PieceModel>>,
    ResolveError,
> {
    match r {
        Ok(lines) => Ok(lines_view(lines@)),
        Err(e) => Err(e),
    }
}

/// Puts the lines `more` after the lines `lines`.
fn append_lines(lines: &mut Vec<Line>, more: Vec<Line>)
    ensures
        lines_view(final(lines)@) == lines_view(old(lines)@) + lines_view(more@),
{
    let mut more = more;
    let ghost added = more@;
    lines.append(&mut more);
    assert(lines_view(lines@) =~= lines_view(old(lines)@) + lines_view(added));
}

/// Puts the line `line` after the lines `lines`.
fn push_line(lines: &mut Vec<Line>, line: Line)
    ensures
        lines_view(final(lines)@) == lines_view(old(lines)@).push(line@),
{
    lines.push(line);
    assert(lines_view(lines@) =~= lines_view(old(lines)@).push(line@));
}

/// A line that says how many of something there are.
fn count_line(heading: &str, count: usize) -> (r: Line)
    ensures
        r@ == spec_count_line(heading@, count as nat),
{
    let mut line = Line::new();
    line.push(Style::Plain, heading);
    line.push_number(count);
    assert(line@ =~= spec_count_line(heading@, count as nat));
    line
}

/// The line of one flag.
fn flag_line(name: &str, value: bool) -> (r: Line)
    ensures
        r@ == spec_flag_line(name@, value),
{
    let mut line = Line::new();
    line.push(Style::Plain, "  ");
    line.push(Style::Plain, name);
    line.push(Style::Plain, ": ");
    line.push(Style::Plain, bool_str(value));
    assert(line@ =~= spec_flag_line(name@, value));
    line
}

/// A line that names the class at `index` after the heading `heading`.
fn class_ref_line(class: &JavaClass, heading: &str, index: usize) -> (r: Result<Line, ResolveError>)
    ensures
        line_result_view(r) == spec_class_ref_line(
            class@.constant_pool_infos,
            heading@,
            index as nat,
        ),
{
    let name = class_name_text(class, index)?;
    let mut line = Line::new();
    line.push(Style::Plain, heading);
    line.push(Style::Plain, name.as_str());
    line.push(Style::Plain, " (");
    line.push_number(index);
    line.push(Style::Plain, ")");
    assert(line@ =~= spec_class_ref_line(
        class@.constant_pool_infos,
        heading@,
        index as nat,
    )->Ok_0);
    Ok(line)
}

impl ClassPrinter {
    pub fn new(java_class: JavaClass) -> (r: Self)
        ensures
            r.0 == java_class,
    {
        Self(java_class)
    }

    /// The three headlines.
    pub fn print_header(class: &JavaClass) -> (r: Vec<Line>)
        ensures
            lines_view(r@) == spec_header_lines(class@),
    {
        let mut prelude = Line::new();
        prelude.push(Style::Label, "Prelude");
        prelude.push(Style::Plain, ": 0x");
        let mut digits = String::new();
        push_hex_upper(&mut digits, class.prelude as u64);
        assert(digits@ =~= hex_upper(class.prelude as nat));
        prelude.push_string(Style::Plain, digits);
        let mut version = Line::new();
        version.push(Style::Label, "Version");
        version.push(Style::Plain, ": ");
        version.push_number(class.major as usize);
        version.push(Style::Plain, ".");
        version.push_number(class.minor as usize);
        let mut count = Line::new();
        count.push(Style::Label, "Constant pool count");
        count.push(Style::Plain, ": ");
        count.push_number(class.constant_pool_count);
        let mut lines: Vec<Line> = Vec::new();
        proof {
            assert(prelude@ =~= spec_header_lines(class@)[0]);
            assert(version@ =~= spec_header_lines(class@)[1]);
            assert(count@ =~= spec_header_lines(class@)[2]);
        }
        lines.push(prelude);
        lines.push(version);
        lines.push(count);
        assert(lines_view(lines@) =~= spec_header_lines(class@));
        lines
    }

    /// One line for each entry of the constant pool, in pool order.
    pub fn print_constant_pool(class: &JavaClass) -> (r: Result<Vec<Line>, ResolveError>)
        ensures
            lines_result_view(r) == spec_constant_lines(class@.constant_pool_infos, 0),
    {
        let ghost pool = class@.constant_pool_infos;
        let mut lines: Vec<Line> = Vec::new();
        let n = class.constant_pool_infos.len();
        let mut index: usize = 0;
        assert(lines_view(lines@) + spec_constant_lines(pool, 0)->Ok_0 =~= spec_constant_lines(
            pool,
            0,
        )->Ok_0);
        while index < n
            invariant
                index <= n,
                n == class.constant_pool_infos@.len(),
                pool == class@.constant_pool_infos,
                spec_constant_lines(pool, 0) == after(
                    lines_view(lines@),
                    spec_constant_lines(pool, index as int),
                ),
            decreases n - index,
        {
            let ghost acc = lines_view(lines@);
            let line = print_constant(class, index)?;
            push_line(&mut lines, line);
            index = index + 1;
            proof {
                let tail = spec_constant_lines(pool, index as int);
                if tail is Ok {
                    assert(acc.push(line@) + tail->Ok_0 =~= acc + (seq![line@] + tail->Ok_0));
                }
            }
        }
        assert(lines_view(lines@) + Seq::<Seq<PieceModel>>::empty() =~= lines_view(lines@));
        Ok(lines)
    }

    /// The headline of the flags and one line for each flag.
    pub fn print_flags(flags: &ClassFlags) -> (r: Vec<Line>)
        ensures
            lines_view(r@) == spec_flags_lines(flags@),
    {
        let mut headline = Line::new();
        headline.push(Style::Plain, "Flags: ");
        let mut lines: Vec<Line> = Vec::new();
        lines.push(headline);
        lines.push(flag_line("public", flags.is_public()));
        lines.push(flag_line("final", flags.is_final()));
        lines.push(flag_line("super", flags.is_super()));
        lines.push(flag_line("interface", flags.is_interface()));
        lines.push(flag_line("abstract", flags.is_abstract()));
        lines.push(flag_line("synthetic", flags.is_synthetic()));
        lines.push(flag_line("annotation", flags.is_annotation()));
        lines.push(flag_line("enum", flags.is_enum()));
        lines.push(flag_line("module", flags.is_module()));
        proof {
            assert(headline@ =~= spec_flags_lines(flags@)[0]);
            assert(lines_view(lines@) =~= spec_flags_lines(flags@));
        }
        lines
    }

    /// The line of the superclass, where there is one.
    pub fn print_super_class(class: &JavaClass) -> (r: Result<Vec<Line>, ResolveError>)
        ensures
            lines_result_view(r) == spec_super_class_lines(class@),
    {
        let mut lines: Vec<Line> = Vec::new();
        if class.super_class != 0 {
            let line = class_ref_line(class, "Super class: ", class.super_class)?;
            lines.push(line);
            assert(lines_view(lines@) =~= seq![line@]);
        } else {
            assert(lines_view(lines@) =~= Seq::<Seq<PieceModel>>::empty());
        }
        Ok(lines)
    }

    /// How many interfaces the class declares, and one line for each.
    pub fn print_interfaces(class: &JavaClass) -> (r: Result<Vec<Line>, ResolveError>)
        ensures
            lines_result_view(r) == spec_interfaces_lines(class@),
    {
        let ghost pool = class@.constant_pool_infos;
        let ghost indexes = class@.interfaces_indexes;
        let mut lines: Vec<Line> = Vec::new();
        push_line(&mut lines, count_line("Number of interfaces: ", class.interfaces_count));
        let ghost head = lines_view(lines@);
        assert(head =~= seq![
            spec_count_line("Number of interfaces: "@, class@.interfaces_count),
        ]);
        let n = class.interfaces_indexes.len();
        let mut i: usize = 0;
        assert(head + spec_interface_lines(pool, indexes, 0)->Ok_0 =~= head + (Seq::<
            Seq<PieceModel>,
        >::empty() + spec_interface_lines(pool, indexes, 0)->Ok_0));
        let ghost mut mid: Seq<Seq<PieceModel>> = Seq::empty();
        assert(lines_view(lines@) =~= head + mid);
        while i < n
            invariant
                i <= n,
                n == class.interfaces_indexes@.len(),
                pool == class@.constant_pool_infos,
                indexes == class@.interfaces_indexes,
                lines_view(lines@) == head + mid,
                spec_interface_lines(pool, indexes, 0) == after(
                    mid,
                    spec_interface_lines(pool, indexes, i as int),
                ),
            decreases n - i,
        {
            let interfaces_index = class.interfaces_indexes[i];
            let line = class_ref_line(class, "  ", interfaces_index)?;
            push_line(&mut lines, line);
            i = i + 1;
            proof {
                let tail = spec_interface_lines(pool, indexes, i as int);
                if tail is Ok {
                    assert(mid.push(line@) + tail->Ok_0 =~= mid + (seq![line@] + tail->Ok_0));
                }
                assert((head + mid).push(line@) =~= head + mid.push(line@));
                mid = mid.push(line@);
            }
        }
        assert(mid + Seq::<Seq<PieceModel>>::empty() =~= mid);
        Ok(lines)
    }

    /// How many fields there are, and the name of each.
    pub fn print_fields(fields: &Vec<FieldInfo>) -> (r: Vec<Line>)
        ensures
            lines_view(r@) == spec_fields_lines(fields_view(fields@)),
    {
        let mut lines: Vec<Line> = Vec::new();
        lines.push(count_line("Number of fields: ", fields.len()));
        let n = fields.len();
        let mut i: usize = 0;
        while i < n
            invariant
                i <= n,
                n == fields@.len(),
                lines@.len() == i + 1,
                lines@[0]@ == spec_count_line("Number of fields: "@, n as nat),
                forall|j: int|
                    0 <= j < i ==> (#[trigger] lines@[j + 1])@ == spec_field_line(fields@[j]@),
            decreases n - i,
        {
            let mut line = Line::new();
            line.push(Style::Plain, "  ");
            line.push(Style::Plain, fields[i].name.as_str());
            assert(line@ =~= spec_field_line(fields@[i as int]@));
            lines.push(line);
            i = i + 1;
        }
        proof {
            let shown = spec_fields_lines(fields_view(fields@));
            assert forall|k: int| 0 <= k < lines@.len() implies lines_view(lines@)[k]
                == shown[k] by {
                if k > 0 {
                    let j = k - 1;
                    assert(lines@[j + 1]@ == spec_field_line(fields@[j]@));
                }
            }
            assert(lines_view(lines@) =~= shown);
        }
        lines
    }

    /// How many methods there are, and the name and the descriptor index of
    /// each. What a method's attributes show comes after the method's line.
    pub fn print_methods(methods: &Vec<MethodInfo>) -> (r: Vec<Line>)
        ensures
            lines_view(r@) == spec_methods_lines(methods_view(methods@)),
    {
        let mut lines: Vec<Line> = Vec::new();
        lines.push(count_line("Number of methods: ", methods.len()));
        let n = methods.len();
        let mut i: usize = 0;
        while i < n
            invariant
                i <= n,
                n == methods@.len(),
                lines@.len() == i + 1,
                lines@[0]@ == spec_count_line("Number of methods: "@, n as nat),
                forall|j: int|
                    0 <= j < i ==> (#[trigger] lines@[j + 1])@ == spec_method_line(methods@[j]@),
            decreases n - i,
        {
            let method = &methods[i];
            let mut line = Line::new();
            line.push(Style::Plain, "  ");
            line.push(Style::Plain, method.name.as_str());
            line.push(Style::Plain, " at ");
            line.push_number(method.descriptor_index);
            assert(line@ =~= spec_method_line(methods@[i as int]@));
            lines.push(line);
            let attributes = method.attributes_info.len();
            let mut k: usize = 0;
            while k < attributes
                invariant
                    k <= attributes,
                    attributes == method.attributes_info@.len(),
                    i < n,
                    n == methods@.len(),
                    lines@.len() == i + 2,
                    lines@[0]@ == spec_count_line("Number of methods: "@, n as nat),
                    forall|j: int|
                        0 <= j <= i ==> (#[trigger] lines@[j + 1])@ == spec_method_line(
                            methods@[j]@,
                        ),
                decreases attributes - k,
            {
                match &method.attributes_info[k].attribute {
                    Attribute::Code(c) => {
                        let mut shown = c.print();
                        lines.append(&mut shown);
                    },
                    _ => {},
                }
                k = k + 1;
            }
            i = i + 1;
        }
        proof {
            let shown = spec_methods_lines(methods_view(methods@));
            assert forall|k: int| 0 <= k < lines@.len() implies lines_view(lines@)[k]
                == shown[k] by {
                if k > 0 {
                    let j = k - 1;
                    assert(lines@[j + 1]@ == spec_method_line(methods@[j]@));
                }
            }
            assert(lines_view(lines@) =~= shown);
        }
        lines
    }

    /// The class as lines of text, from top to bottom; or, where a lookup in
    /// the constant pool finds nothing, the report of the first such lookup.
    pub fn print(self) -> (r: Result<Vec<Line>, ResolveError>)
        ensures
            lines_result_view(r) == spec_print(self.0@),
    {
        let class = &self.0;
        let mut lines = Self::print_header(class);
        let constants = Self::print_constant_pool(class)?;
        let flags = Self::print_flags(&class.flags);
        let this_class = class_ref_line(class, "This class: ", class.this_class)?;
        let super_class = Self::print_super_class(class)?;
        let interfaces = Self::print_interfaces(class)?;
        let fields = Self::print_fields(&class.fields);
        let methods = Self::print_methods(&class.methods);
        append_lines(&mut lines, constants);
        append_lines(&mut lines, flags);
        push_line(&mut lines, this_class);
        append_lines(&mut lines, super_class);
        append_lines(&mut lines, interfaces);
        append_lines(&mut lines, fields);
        append_lines(&mut lines, methods);
        assert(lines_view(lines@) =~= spec_print(class@)->Ok_0);
        Ok(lines)
    }
}

/// Every index that showing the class follows lands on an entry of the kind
/// that is expected there: the indices inside the pool's entries, the index
/// of the class itself, that of the superclass unless it is zero, and those
/// of the interfaces.
pub open spec fn references_resolve(class: ClassModel) -> bool {
    &&& forall|i: int|
        0 <= i < class.constant_pool_infos.len() ==> constant_resolves(
            class.constant_pool_infos,
            #[trigger] class.constant_pool_infos[i],
        )
    &&& spec_class_name(class.constant_pool_infos, class.this_class as int) is Some
    &&& class.super_class != 0 ==> spec_class_name(
        class.constant_pool_infos,
        class.super_class as int,
    ) is Some
    &&& forall|i: int|
        0 <= i < class.interfaces_indexes.len() ==> spec_class_name(
            class.constant_pool_infos,
            #[trigger] class.interfaces_indexes[i] as int,
        ) is Some
}

/// The line of a pool entry can be made exactly where the entry's indices
/// land where they should.
pub proof fn lemma_constant_line_needs_references(pool: Seq<Constant>, i: int)
    requires
        0 <= i < pool.len(),
    ensures
        spec_constant_line(pool, i) is Ok <==> constant_resolves(pool, pool[i]),
{
}

/// The lines of the pool from `from` on can be made exactly where the
/// indices of all those entries land where they should; there is then one
/// line for each entry, in pool order.
pub proof fn lemma_constant_lines(pool: Seq<Constant>, from: int)
    requires
        0 <= from <= pool.len(),
    ensures
        spec_constant_lines(pool, from) is Ok <==> (forall|i: int|
            from <= i < pool.len() ==> constant_resolves(pool, #[trigger] pool[i])),
        spec_constant_lines(pool, from) matches Ok(lines) ==> lines.len() == pool.len() - from && (
        forall|i: int|
            from <= i < pool.len() ==> spec_constant_line(pool, i) == Ok::<
                Seq<PieceModel>,
                ResolveError,
            >(#[trigger] lines[i - from])),
    decreases pool.len() - from,
{
    if from < pool.len() {
        lemma_constant_line_needs_references(pool, from);
        lemma_constant_lines(pool, from + 1);
        if spec_constant_lines(pool, from) is Ok {
            let lines = spec_constant_lines(pool, from)->Ok_0;
            let rest = spec_constant_lines(pool, from + 1)->Ok_0;
            assert forall|i: int| from <= i < pool.len() implies spec_constant_line(pool, i)
                == Ok::<Seq<PieceModel>, ResolveError>(#[trigger] lines[i - from]) by {
                if i > from {
                    assert(lines[i - from] == rest[i - (from + 1)]);
                }
            }
            assert forall|i: int| from <= i < pool.len() implies constant_resolves(
                pool,
                #[trigger] pool[i],
            ) by {
                if i > from {
                    assert(constant_resolves(pool, pool[i]));
                }
            }
        } else {
            if spec_constant_line(pool, from) is Ok {
                let i = choose|i: int|
                    from + 1 <= i < pool.len() && !constant_resolves(pool, #[trigger] pool[i]);
                assert(!constant_resolves(pool, pool[i]));
            } else {
                assert(!constant_resolves(pool, pool[from]));
            }
        }
    }
}

/// The lines of the interfaces from `from` on can be made exactly where
/// each of those indices names a class with a name.
pub proof fn lemma_interface_lines(pool: Seq<Constant>, indexes: Seq<nat>, from: int)
    requires
        0 <= from <= indexes.len(),
    ensures
        spec_interface_lines(pool, indexes, from) is Ok <==> (forall|i: int|
            from <= i < indexes.len() ==> spec_class_name(pool, #[trigger] indexes[i] as int)
                is Some),
        spec_interface_lines(pool, indexes, from) matches Ok(lines) ==> lines.len() == indexes.len()
            - from,
    decreases indexes.len() - from,
{
    if from < indexes.len() {
        lemma_interface_lines(pool, indexes, from + 1);
        if spec_interface_lines(pool, indexes, from) is Ok {
            assert forall|i: int| from <= i < indexes.len() implies spec_class_name(
                pool,
                #[trigger] indexes[i] as int,
            ) is Some by {
                if i > from {
                    assert(spec_class_name(pool, indexes[i] as int) is Some);
                }
            }
        } else {
            if spec_class_ref_line(pool, "  "@, indexes[from]) is Ok {
                let i = choose|i: int|
                    from + 1 <= i < indexes.len() && !(spec_class_name(
                        pool,
                        #[trigger] indexes[i] as int,
                    ) is Some);
                assert(!(spec_class_name(pool, indexes[i] as int) is Some));
            } else {
                assert(!(spec_class_name(pool, indexes[from] as int) is Some));
            }
        }
    }
}

/// A class can be shown exactly where every index that showing it follows
/// lands on an entry of the kind that is expected there. No other input
/// makes showing fail, and none makes it read outside the pool.
pub proof fn lemma_print_succeeds_iff_references_resolve(class: ClassModel)
    ensures
        spec_print(class) is Ok <==> references_resolve(class),
{
    lemma_constant_lines(class.constant_pool_infos, 0);
    lemma_interface_lines(class.constant_pool_infos, class.interfaces_indexes, 0);
}

/// In a class whose references all resolve, a reference to a field or a
/// method leads to a class entry whose name is text, and to a name-and-type
/// pair whose name and descriptor are text, all of them inside the pool.
pub proof fn lemma_member_reference_lands(class: ClassModel, i: int)
    requires
        references_resolve(class),
        0 <= i < class.constant_pool_infos.len(),
        class.constant_pool_infos[i] is FieldRef || class.constant_pool_infos[i] is MethodRef,
    ensures
        ({
            let pool = class.constant_pool_infos;
            let (class_index, name_and_type_index) = match pool[i] {
                Constant::FieldRef { class_index, name_and_type_index } => (
                    class_index,
                    name_and_type_index,
                ),
                Constant::MethodRef { class_index, name_and_type_index } => (
                    class_index,
                    name_and_type_index,
                ),
                _ => (0nat, 0nat),
            };
            &&& 1 <= class_index <= pool.len()
            &&& pool[class_index - 1] matches Constant::Class { name_index }
            &&& 1 <= name_index <= pool.len()
            &&& pool[name_index - 1] is Utf8
            &&& 1 <= name_and_type_index <= pool.len()
            &&& pool[name_and_type_index - 1] matches Constant::NameAndType {
                name_index: member_name,
                descriptor_index,
            }
            &&& 1 <= member_name <= pool.len()
            &&& pool[member_name - 1] is Utf8
            &&& 1 <= descriptor_index <= pool.len()
            &&& pool[descriptor_index - 1] is Utf8
        }),
{
    assert(constant_resolves(class.constant_pool_infos, class.constant_pool_infos[i]));
}

/// A class whose superclass index is zero is shown without a line for the
/// superclass, and nothing is looked up for it: the line of the class itself
/// is followed at once by the lines of the interfaces.
pub proof fn lemma_no_super_class_no_line(class: ClassModel)
    requires
        class.super_class == 0,
    ensures
        spec_super_class_lines(class) == Ok::<Seq<Seq<PieceModel>>, ResolveError>(Seq::empty()),
        spec_print(class) matches Ok(lines) ==> lines == spec_header_lines(class)
            + spec_constant_lines(class.constant_pool_infos, 0)->Ok_0 + spec_flags_lines(
            class.flags,
        ) + seq![spec_this_class_line(class)->Ok_0] + spec_interfaces_lines(class)->Ok_0
            + spec_fields_lines(class.fields) + spec_methods_lines(class.methods),
{
    if spec_print(class) is Ok {
        let before = spec_header_lines(class) + spec_constant_lines(
            class.constant_pool_infos,
            0,
        )->Ok_0 + spec_flags_lines(class.flags) + seq![spec_this_class_line(class)->Ok_0];
        assert(before + Seq::<Seq<PieceModel>>::empty() =~= before);
    }
}

} // verus!
