//! Lowering a checked program to LLVM IR text.
use vstd::prelude::*;
use vstd::string::StringSliceAdditionalSpecFns;

pub mod calls;
pub mod collect;
pub mod emitter;
pub mod expr;
pub mod host;
pub mod names;
pub mod results;

use self::collect::{collect_function_literals, collect_map_result_types};
use self::emitter::FunctionEmitter;
use self::names::{
    align_to, escape_llvm_string, function_symbol, host_error_identity, i32_text,
    interface_adapter_name, interface_table_global_name, interface_table_literal,
    interface_table_type_name, join_comma, result_type_name, struct_type_name, usize_text,
    CodegenError,
};
use crate::ast::{type_text, FunctionDecl, Program};
use crate::checker::calls::{format_function_type, parse_function_type, FunctionType};
use crate::checker::types::{
    function_literal_key, parse_array_type, parse_chan_type, parse_map_type, parse_pointer_type,
    parse_slice_type, strip_prefix, chan_elem, map_parts, pointer_elem, slice_elem, strip_prefix_spec,
};
use crate::checker::{same_enum_case, same_signature, EnumCaseInfo, EnumInfo, Info, Signature};
use crate::names::NameMap;
use crate::text::{cat, concat, debug_quoted, name_views, names_sorted, owned, quote, sort_names, str_eq};

verus! {

/// Lowers a checked program to LLVM IR.
pub fn emit_llvm(program: &Program, info: &Info) -> (r: Result<String, CodegenError>)
    ensures
        r matches Ok(ir) ==> lowered_module(None, ir@),
{
    emit_llvm_with_options(program, info, None)
}

/// Whether `ir` is shaped as a lowered module: the module header for the target
/// triple, then the runtime's value types, and somewhere a definition of `main`.
pub open spec fn lowered_module(target_triple: Option<Seq<char>>, ir: Seq<char>) -> bool {
    &&& (module_header_text(target_triple) + runtime_type_text()).is_prefix_of(ir)
    &&& defines_main(ir)
}

/// Lowers a checked program to LLVM IR, naming the target triple when given.
/// The IR begins with the module header.
pub fn emit_llvm_with_options(program: &Program, info: &Info, target_triple: Option<&str>) -> (r: Result<
    String,
    CodegenError,
>)
    ensures
        r matches Ok(ir) ==> lowered_module(opt_str_view(target_triple), ir@),
{
    let generator = Generator {
        info,
        strings: NameMap::new(),
        literal_names: NameMap::new(),
        interface_globals: Vec::new(),
        interface_adapters: Vec::new(),
        interface_impls: NameMap::new(),
        task_wrappers: Vec::new(),
        next_string_id: 0,
        next_task_wrapper_id: 0,
    };
    let body = generator.emit_program(program)?;
    let mut ir = module_header(target_triple);
    let ghost header = ir@;
    ir.append(body.as_str());
    proof {
        let types = runtime_type_text();
        assert(ir@ == header + body@);
        assert(ir@.subrange(0, (header + types).len() as int) =~= header + types) by {
            assert(body@.subrange(0, types.len() as int) == types);
        }
        let k = choose|k: int|
            0 <= k && k + main_entry_text().len() <= body@.len() && #[trigger] body@.subrange(
                k,
                k + main_entry_text().len(),
            ) == main_entry_text();
        let n = main_entry_text().len() as int;
        assert(ir@.subrange(header.len() + k, header.len() + k + n) =~= body@.subrange(k, k + n));
    }
    Ok(ir)
}

/// The characters of an optional string.
pub open spec fn opt_str_view(t: Option<&str>) -> Option<Seq<char>> {
    match t {
        Some(s) => Some(s@),
        None => None,
    }
}

/// The first lines of every module: a comment, the source file name, the
/// target triple when one is given, and a blank line.
pub open spec fn module_header_text(target_triple: Option<Seq<char>>) -> Seq<char> {
    "; yar rust codegen\n"@ + "source_filename = \"yar\"\n"@ + match target_triple {
        Some(t) => "target triple = "@ + debug_quoted(t) + "\n"@,
        None => Seq::<char>::empty(),
    } + "\n"@
}

/// The module header for the target triple, if any.
pub fn module_header(target_triple: Option<&str>) -> (s: String)
    ensures
        s@ == module_header_text(opt_str_view(target_triple)),
{
    let mut out = owned("; yar rust codegen\n");
    out.append("source_filename = \"yar\"\n");
    match target_triple {
        Some(t) => {
            out.append("target triple = ");
            out.append(quote(t).as_str());
            out.append("\n");
        },
        None => {},
    }
    out.append("\n");
    out
}

/// The state shared by all functions of a program: the checked metadata, the
/// string constants, interface tables and adapters, and task wrappers emitted so far.
pub struct Generator<'a> {
    pub info: &'a Info,
    pub strings: NameMap<String>,
    pub literal_names: NameMap<String>,
    pub interface_globals: Vec<String>,
    pub interface_adapters: Vec<String>,
    pub interface_impls: NameMap<String>,
    pub task_wrappers: Vec<String>,
    pub next_string_id: usize,
    pub next_task_wrapper_id: usize,
}

/// The keys of a map in ascending order, each once.
pub fn sorted_keys<V>(m: &NameMap<V>) -> (keys: Vec<String>)
    ensures
        keys@.len() == m.size(),
        names_sorted(keys@),
        name_views(keys@).no_duplicates(),
        forall|k: Seq<char>| m@.contains_key(k) <==> name_views(keys@).contains(k),
{
    let mut keys: Vec<String> = Vec::new();
    let n = m.len();
    let mut i: usize = 0;
    while i < n
        invariant
            n == m.size(),
            n == m.key_order().len(),
            i <= n,
            name_views(keys@) == m.key_order().subrange(0, i as int),
        decreases n - i,
    {
        let (k, _) = m.entry(i);
        let k = k.clone();
        let ghost prefix = keys@;
        assert(name_views(prefix).len() == i);
        keys.push(k);
        proof {
            assert(keys@ == prefix.push(k));
            assert(name_views(keys@)[i as int] == m.key_order()[i as int]);
            assert(name_views(keys@) =~= m.key_order().subrange(0, i + 1));
        }
        i = i + 1;
    }
    proof {
        assert(name_views(keys@) =~= m.key_order());
    }
    sort_names(&mut keys);
    keys
}

/// Appends the text `parts` spell, in order.
pub fn put(out: &mut String, parts: Vec<&str>)
    ensures
        final(out)@ == old(out)@ + crate::text::concat_all(parts@),
{
    let s = cat(parts);
    out.append(s.as_str());
}

/// The number of characters of the largest field type, for bounding layout walks.
fn longest_type_spelling(info: &Info, t: &str) -> (n: usize)
    ensures
        longest_spelling(*info, t@, n as int),
{
    let mut longest: usize = t.unicode_len();
    let count = info.structs.len();
    let mut i: usize = 0;
    while i < count
        invariant
            i <= count,
            count == info.structs.size(),
            info.structs.key_order().len() == count,
            forall|k: Seq<char>| info.structs@.contains_key(k) <==> info.structs.key_order().contains(k),
            longest >= t@.len(),
            longest == t@.len() || exists|j: int, f: int|
                0 <= j < i && spells_field(*info, info.structs.key_order()[j], f, longest as int),
            forall|j: int, f: int|
                0 <= j < i && 0 <= f < info.structs@[info.structs.key_order()[j]].fields@.len()
                    ==> #[trigger] info.structs@[info.structs.key_order()[j]].fields@[f].type_@.len() <= longest,
        decreases count - i,
    {
        let (name, s) = info.structs.entry(i);
        let ghost key = info.structs.key_order()[i as int];
        let ghost before = longest;
        let mut f: usize = 0;
        while f < s.fields.len()
            invariant
                f <= s.fields@.len(),
                info.structs@.contains_key(key),
                *s == info.structs@[key],
                longest >= before,
                longest == before || exists|g: int| 0 <= g < f && spells_field(*info, key, g, longest as int),
                forall|g: int| 0 <= g < f ==> #[trigger] s.fields@[g].type_@.len() <= longest,
            decreases s.fields.len() - f,
        {
            let n = s.fields[f].type_.unicode_len();
            if n > longest {
                longest = n;
                assert(spells_field(*info, key, f as int, longest as int));
            }
            f = f + 1;
        }
        proof {
            assert forall|j: int, g: int|
                0 <= j < i + 1 && 0 <= g < info.structs@[info.structs.key_order()[j]].fields@.len()
                    implies #[trigger] info.structs@[info.structs.key_order()[j]].fields@[g].type_@.len()
                    <= longest by {
                if j == i {
                    assert(info.structs.key_order()[j] == key);
                }
            }
            if longest != t@.len() {
                if longest == before {
                    let (j, g) = choose|j: int, g: int|
                        0 <= j < i && spells_field(*info, info.structs.key_order()[j], g, before as int);
                    assert(spells_field(*info, info.structs.key_order()[j], g, longest as int));
                } else {
                    let g = choose|g: int| 0 <= g < s.fields@.len() && spells_field(*info, key, g, longest as int);
                    assert(spells_field(*info, info.structs.key_order()[i as int], g, longest as int));
                }
            }
        }
        i = i + 1;
    }
    proof {
        assert forall|k: Seq<char>, f: int|
            info.structs@.contains_key(k) && 0 <= f < info.structs@[k].fields@.len() implies #[trigger]
            info.structs@[k].fields@[f].type_@.len() <= longest by {
            let keys = info.structs.key_order();
            assert(keys.contains(k));
            let j = choose|j: int| 0 <= j < keys.len() && keys[j] == k;
            assert(keys[j] == k);
        }
        if longest != t@.len() {
            let (j, g) = choose|j: int, g: int|
                0 <= j < count && spells_field(*info, info.structs.key_order()[j], g, longest as int);
            let keys = info.structs.key_order();
            assert(keys.contains(keys[j]));
            assert(spells_field(*info, keys[j], g, longest as int));
        }
    }
    longest
}

/// Whether field `f` of the struct `name` has a type spelled with `n` characters.
pub open spec fn spells_field(info: Info, name: Seq<char>, f: int, n: int) -> bool {
    info.structs@.contains_key(name) && 0 <= f < info.structs@[name].fields@.len()
        && info.structs@[name].fields@[f].type_@.len() == n
}

/// Whether `n` is the number of characters of the longest of `t` and the field
/// types of every struct.
pub open spec fn longest_spelling(info: Info, t: Seq<char>, n: int) -> bool {
    &&& n >= t.len()
    &&& forall|k: Seq<char>, f: int|
        info.structs@.contains_key(k) && 0 <= f < info.structs@[k].fields@.len() ==> #[trigger]
            info.structs@[k].fields@[f].type_@.len() <= n
    &&& n == t.len() || exists|k: Seq<char>, f: int| spells_field(info, k, f, n)
}

/// The size in bytes of a value of a scalar type, or of a type held by a
/// fixed-size handle (a string, slice, pointer, map or channel).
pub open spec fn scalar_size(t: Seq<char>) -> Option<int> {
    if t == "bool"@ {
        Some(1)
    } else if t == "i32"@ || t == "error"@ {
        Some(4)
    } else if t == "i64"@ {
        Some(8)
    } else if t == "str"@ || slice_elem(t) is Some {
        Some(16)
    } else if pointer_elem(t) is Some || map_parts(t) is Some || chan_elem(t) is Some {
        Some(8)
    } else {
        None
    }
}

/// The alignment in bytes of a value of the types that `scalar_size` covers.
pub open spec fn scalar_align(t: Seq<char>) -> Option<int> {
    if t == "bool"@ {
        Some(1)
    } else if t == "i32"@ || t == "error"@ {
        Some(4)
    } else if t == "i64"@ || t == "str"@ || slice_elem(t) is Some || pointer_elem(t) is Some
        || map_parts(t) is Some || chan_elem(t) is Some {
        Some(8)
    } else {
        None
    }
}

/// The LLVM type of the types that `scalar_size` covers, and of `void` and `noreturn`.
pub open spec fn scalar_llvm_type(t: Seq<char>) -> Option<Seq<char>> {
    if t == "void"@ || t == "noreturn"@ {
        Some("void"@)
    } else if t == "bool"@ {
        Some("i1"@)
    } else if t == "i32"@ || t == "error"@ {
        Some("i32"@)
    } else if t == "i64"@ {
        Some("i64"@)
    } else if t == "str"@ {
        Some("%yar.str"@)
    } else if pointer_elem(t) is Some || map_parts(t) is Some || chan_elem(t) is Some {
        Some("ptr"@)
    } else if slice_elem(t) is Some {
        Some("%yar.slice"@)
    } else {
        None
    }
}

/// The spellings of the scalar types start with neither `!` nor `fn(`.
proof fn lemma_scalar_spelling(t: Seq<char>)
    requires
        scalar_size(t) is Some || scalar_align(t) is Some || scalar_llvm_type(t) is Some,
    ensures
        strip_prefix_spec(t, "!"@) is None,
        !(t.len() >= 3 && t.subrange(0, 3) == "fn("@),
{
    reveal_strlit("!");
    reveal_strlit("fn(");
    reveal_strlit("bool");
    reveal_strlit("i32");
    reveal_strlit("error");
    reveal_strlit("i64");
    reveal_strlit("str");
    reveal_strlit("void");
    reveal_strlit("noreturn");
    reveal_strlit("[]");
    reveal_strlit("*");
    reveal_strlit("map[");
    reveal_strlit("chan[");
    let c = t[0];
    if slice_elem(t) is Some {
        assert(t.subrange(0, 2)[0] == c);
    } else if pointer_elem(t) is Some {
        assert(t.subrange(0, 1)[0] == c);
    } else if map_parts(t) is Some {
        assert(t.subrange(0, 4)[0] == c);
    } else if chan_elem(t) is Some {
        assert(t.subrange(0, 5)[0] == c);
    }
    assert(t.len() >= 1 && c != '!' && c != 'f');
    if t.len() >= 1 && t.subrange(0, 1) == "!"@ {
        assert(t.subrange(0, 1)[0] == c);
    }
    if t.len() >= 3 && t.subrange(0, 3) == "fn("@ {
        assert(t.subrange(0, 3)[0] == c);
    }
}

/// The index of the first case of `e` called `name`.
pub open spec fn first_case_named(e: EnumInfo, name: Seq<char>) -> Option<int> {
    if exists|i: int| 0 <= i < e.cases@.len() && #[trigger] e.cases@[i].name@ == name {
        Some(
            choose|i: int|
                0 <= i < e.cases@.len() && #[trigger] e.cases@[i].name@ == name && forall|j: int|
                    0 <= j < i ==> e.cases@[j].name@ != name,
        )
    } else {
        None
    }
}

proof fn lemma_first_case_named(e: EnumInfo, name: Seq<char>, i: int)
    requires
        0 <= i < e.cases@.len(),
        e.cases@[i].name@ == name,
        forall|j: int| 0 <= j < i ==> e.cases@[j].name@ != name,
    ensures
        first_case_named(e, name) == Some(i),
{
    let k = choose|k: int|
        0 <= k < e.cases@.len() && #[trigger] e.cases@[k].name@ == name && forall|j: int|
            0 <= j < k ==> e.cases@[j].name@ != name;
    assert(k == i) by {
        if k < i {
            assert(e.cases@[k].name@ != name);
        }
        if i < k {
            assert(e.cases@[i].name@ != name);
        }
    }
}

proof fn lemma_no_case_named(e: EnumInfo, name: Seq<char>)
    requires
        forall|j: int| 0 <= j < e.cases@.len() ==> e.cases@[j].name@ != name,
    ensures
        first_case_named(e, name) is None,
{
}

/// The position of the last `.` in `t`.
pub open spec fn last_dot(t: Seq<char>) -> Option<int> {
    if exists|d: int| 0 <= d < t.len() && #[trigger] t[d] == '.' {
        Some(
            choose|d: int|
                0 <= d < t.len() && #[trigger] t[d] == '.' && forall|k: int| d < k < t.len() ==> t[k] != '.',
        )
    } else {
        None
    }
}

proof fn lemma_last_dot(t: Seq<char>, d: int)
    requires
        0 <= d < t.len(),
        t[d] == '.',
        forall|k: int| d < k < t.len() ==> t[k] != '.',
    ensures
        last_dot(t) == Some(d),
{
    let e = choose|e: int|
        0 <= e < t.len() && #[trigger] t[e] == '.' && forall|k: int| e < k < t.len() ==> t[k] != '.';
    assert(e == d) by {
        if e < d {
            assert(t[d] != '.');
        }
        if d < e {
            assert(t[e] != '.');
        }
    }
}

proof fn lemma_no_dot(t: Seq<char>)
    requires
        forall|k: int| 0 <= k < t.len() ==> t[k] != '.',
    ensures
        last_dot(t) is None,
{
}

/// The declarations of the runtime's value types that open every module body.
pub open spec fn runtime_type_text() -> Seq<char> {
    "%yar.str = type { ptr, i64 }\n"@ + "%yar.closure = type { ptr, ptr }\n"@
        + "%yar.slice = type { ptr, i32, i32 }\n"@ + "%yar.iface = type { ptr, ptr }\n\n"@
}

/// The first line of the definition of the program's entry point.
pub open spec fn main_entry_text() -> Seq<char> {
    "define i32 @main(i32 %argc, ptr %argv) {\n"@
}

/// Whether `ir` defines the program's entry point.
pub open spec fn defines_main(ir: Seq<char>) -> bool {
    exists|k: int| 0 <= k && k + main_entry_text().len() <= ir.len() && #[trigger] ir.subrange(
        k,
        k + main_entry_text().len(),
    ) == main_entry_text()
}

/// The definition of the entry point whose body, after its first line, is `body`.
fn with_main_entry(body: String) -> (s: String)
    ensures
        s@ == main_entry_text() + body@,
        main_entry_text().is_prefix_of(s@),
{
    let mut s = owned("define i32 @main(i32 %argc, ptr %argv) {\n");
    s.append(body.as_str());
    assert(s@.subrange(0, main_entry_text().len() as int) =~= main_entry_text());
    s
}

/// The LLVM types of scalar types, in order.
pub open spec fn scalar_llvm_types(types: Seq<String>) -> Seq<Seq<char>> {
    types.map_values(|t: String| scalar_llvm_type(t@)->0)
}

/// An LLVM struct type literal of the given member types.
pub open spec fn struct_literal_text(members: Seq<Seq<char>>) -> Seq<char> {
    "{ "@ + joined_text(members) + " }"@
}

/// Texts joined by `, `.
pub open spec fn joined_text(ts: Seq<Seq<char>>) -> Seq<char>
    decreases ts.len(),
{
    if ts.len() == 0 {
        Seq::empty()
    } else if ts.len() == 1 {
        ts[0]
    } else {
        joined_text(ts.drop_last()) + ", "@ + ts.last()
    }
}

proof fn lemma_joined_scalar_types(types: Seq<String>, fields: Seq<String>)
    requires
        types.len() == fields.len(),
        forall|k: int| 0 <= k < fields.len() ==> scalar_llvm_type(#[trigger] fields[k]@) is Some,
        forall|k: int|
            0 <= k < types.len() && scalar_llvm_type(fields[k]@) is Some ==> #[trigger] types[k]@
                == scalar_llvm_type(fields[k]@)->0,
    ensures
        crate::checker::calls::joined(types) == joined_text(scalar_llvm_types(fields)),
    decreases types.len(),
{
    let m = scalar_llvm_types(fields);
    if types.len() > 0 {
        lemma_joined_scalar_types(types.drop_last(), fields.drop_last());
        assert(scalar_llvm_types(fields.drop_last()) =~= m.drop_last());
        assert(types.last()@ == m.last());
        if types.len() == 1 {
            assert(types[0]@ == m[0]);
        }
    } else {
        assert(m =~= Seq::<Seq<char>>::empty());
    }
}

/// Whether no case of `e` carries a payload.
pub open spec fn plain_enum(e: EnumInfo) -> bool {
    forall|c: int| 0 <= c < e.cases@.len() ==> (#[trigger] e.cases@[c]).payload_type@.len() == 0
}

/// The size of each scalar type is a multiple of its alignment, which is at least 1.
proof fn lemma_scalar_size_aligned(t: Seq<char>)
    requires
        scalar_size(t) is Some,
    ensures
        scalar_align(t) is Some,
        scalar_align(t)->0 >= 1,
        scalar_align(t)->0 >= 1 ==> (scalar_size(t)->0 + scalar_align(t)->0 - 1) / scalar_align(t)->0 * scalar_align(
            t,
        )->0 == scalar_size(t)->0,
        (0 + scalar_align(t)->0 - 1) / scalar_align(t)->0 * scalar_align(t)->0 == 0,
{
    let size = scalar_size(t)->0;
    let align = scalar_align(t)->0;
    if size == 1 {
        assert(align == 1);
    } else if size == 4 {
        assert(align == 4);
        assert((4 + 4 - 1) / 4 * 4 == 4);
        assert((0 + 4 - 1) / 4 * 4 == 0);
    } else if size == 8 {
        assert(align == 8);
        assert((8 + 8 - 1) / 8 * 8 == 8);
        assert((0 + 8 - 1) / 8 * 8 == 0);
    } else {
        assert(size == 16 && align == 8);
        assert((16 + 8 - 1) / 8 * 8 == 16);
        assert((0 + 8 - 1) / 8 * 8 == 0);
    }
}

impl<'a> Generator<'a> {
    /// A bound on the depth of the layout walk of `t`: each step enters a struct
    /// or enum, or takes the element of a shorter type spelling.
    pub fn layout_fuel(&self, t: &str) -> (n: usize)
        ensures
            n >= 1,
            exists|longest: int|
                longest_spelling(*self.info, t@, longest) && n == (if (self.info.structs.size()
                    + self.info.enums.size() + 1) * (longest + 2) < usize::MAX {
                    (self.info.structs.size() + self.info.enums.size() + 1) * (longest + 2)
                } else {
                    usize::MAX as int
                }),
    {
        let longest = longest_type_spelling(self.info, t) as u128;
        let types = self.info.structs.len() as u128 + self.info.enums.len() as u128 + 1;
        assert(types >= 1 && longest + 2 >= 2 ==> types * (longest + 2) >= 1) by (nonlinear_arith);
        match types.checked_mul(longest + 2) {
            Some(p) => if p >= usize::MAX as u128 {
                usize::MAX
            } else {
                p as usize
            },
            None => usize::MAX,
        }
    }

    fn emit_program(self, program: &Program) -> (r: Result<String, CodegenError>)
        ensures
            r matches Ok(ir) ==> runtime_type_text().is_prefix_of(ir@) && defines_main(ir@),
    {
        let mut g = self;
        let literals = collect_function_literals(program);
        let mut idx: usize = 0;
        while idx < literals.len()
            invariant
                idx <= literals@.len(),
            decreases literals.len() - idx,
        {
            let name = concat("closure.", usize_text(idx).as_str());
            g.literal_names.insert(function_literal_key(literals[idx]), name);
            idx = idx + 1;
        }
        let mut functions: Vec<String> = Vec::new();
        let mut fi: usize = 0;
        while fi < program.functions.len()
            invariant
                fi <= program.functions@.len(),
            decreases program.functions.len() - fi,
        {
            let function = &program.functions[fi];
            fi = fi + 1;
            let signature = match g.function_signature(function) {
                Some(s) => s,
                None => {
                    return Err(
                        CodegenError::unsupported(
                            concat(
                                "missing signature ",
                                quote(function_signature_name(function).as_str()).as_str(),
                            ).as_str(),
                        ),
                    );
                },
            };
            let emitter = FunctionEmitter::new(g, function, &signature);
            let (back, result) = emitter.emit(&function.body);
            g = back;
            match result {
                Ok(text) => functions.push(text),
                Err(e) => {
                    return Err(e);
                },
            }
        }
        let mut literal_functions: Vec<String> = Vec::new();
        let mut li: usize = 0;
        while li < literals.len()
            invariant
                li <= literals@.len(),
            decreases literals.len() - li,
        {
            let literal = literals[li];
            li = li + 1;
            let key = function_literal_key(literal);
            let name = match g.literal_names.get(key.as_str()) {
                Some(n) => n.clone(),
                None => {
                    return Err(CodegenError::unsupported("missing function literal name"));
                },
            };
            let info = match g.info.function_literals.get(key.as_str()) {
                Some(i) => i.clone(),
                None => {
                    return Err(CodegenError::unsupported("missing function literal info"));
                },
            };
            let emitter = FunctionEmitter::new_literal(g, literal, name.as_str(), info);
            let (back, result) = emitter.emit(&literal.body);
            g = back;
            match result {
                Ok(text) => literal_functions.push(text),
                Err(e) => {
                    return Err(e);
                },
            }
        }
        let main_wrapper = g.emit_main_wrapper()?;
        let ghost wrapper = main_wrapper@;
        let r = g.assemble(program, functions, literal_functions, main_wrapper);
        proof {
            if r is Ok {
                let ir = r->Ok_0;
                let k = ir@.len() - wrapper.len();
                let n = main_entry_text().len() as int;
                assert(ir@.subrange(k, k + n) =~= wrapper.subrange(0, n)) by {
                    assert(ir@.subrange(k, ir@.len() as int) == wrapper);
                }
                assert(ir@.subrange(k, k + n) == main_entry_text());
            }
        }
        r
    }

    /// The module text after its header: type declarations, runtime
    /// declarations, interface tables, string constants, then every function.
    fn assemble(
        &mut self,
        program: &Program,
        functions: Vec<String>,
        literal_functions: Vec<String>,
        main_wrapper: String,
    ) -> (r: Result<String, CodegenError>)
        ensures
            final(self).info == old(self).info,
            r matches Ok(ir) ==> runtime_type_text().is_prefix_of(ir@) && main_wrapper@.len() <= ir@.len()
                && ir@.subrange(ir@.len() - main_wrapper@.len(), ir@.len() as int) == main_wrapper@,
    {
        let mut out = owned("%yar.str = type { ptr, i64 }\n");
        out.append("%yar.closure = type { ptr, ptr }\n");
        out.append("%yar.slice = type { ptr, i32, i32 }\n");
        out.append("%yar.iface = type { ptr, ptr }\n\n");
        assert(out@ == runtime_type_text());
        let mut text = String::new();
        let interface_names = sorted_keys(&self.info.interfaces);
        let mut i: usize = 0;
        while i < interface_names.len()
            invariant
                self.info == old(self).info,
                i <= interface_names@.len(),
            decreases interface_names.len() - i,
        {
            let name = interface_names[i].as_str();
            i = i + 1;
            let count = match self.info.interfaces.get(name) {
                Some(info) => info.methods.len(),
                None => 0,
            };
            put(
                &mut text,
                vec![
                    interface_table_type_name(name).as_str(),
                    " = type ",
                    interface_table_literal(count).as_str(),
                    "\n",
                ],
            );
        }
        if interface_names.len() > 0 {
            text.append("\n");
        }
        let struct_names = sorted_keys(&self.info.structs);
        let mut i: usize = 0;
        while i < struct_names.len()
            invariant
                self.info == old(self).info,
                i <= struct_names@.len(),
            decreases struct_names.len() - i,
        {
            let name = struct_names[i].as_str();
            i = i + 1;
            let fields = match self.info.structs.get(name) {
                Some(info) => {
                    let mut types: Vec<String> = Vec::new();
                    let mut f: usize = 0;
                    while f < info.fields.len()
                        invariant
                            self.info == old(self).info,
                            f <= info.fields@.len(),
                                    decreases info.fields.len() - f,
                    {
                        types.push(self.llvm_type(info.fields[f].type_.as_str())?);
                        f = f + 1;
                    }
                    types
                },
                None => Vec::new(),
            };
            put(
                &mut text,
                vec![struct_type_name(name).as_str(), " = type { ", join_comma(&fields).as_str(), " }\n"],
            );
        }
        let enum_names = sorted_keys(&self.info.enums);
        let mut i: usize = 0;
        while i < enum_names.len()
            invariant
                self.info == old(self).info,
                i <= enum_names@.len(),
            decreases enum_names.len() - i,
        {
            let name = enum_names[i].as_str();
            i = i + 1;
            let literal = match self.info.enums.get(name) {
                Some(info) => self.enum_struct_literal(info)?,
                None => owned("{ i32 }"),
            };
            put(&mut text, vec![struct_type_name(name).as_str(), " = type ", literal.as_str(), "\n"]);
        }
        if struct_names.len() > 0 || enum_names.len() > 0 {
            text.append("\n");
        }
        let result_types = self.result_types(program);
        let mut i: usize = 0;
        while i < result_types.len()
            invariant
                self.info == old(self).info,
                i <= result_types@.len(),
            decreases result_types.len() - i,
        {
            let t = result_types[i].as_str();
            i = i + 1;
            let literal = self.result_struct_literal(t)?;
            put(&mut text, vec![result_type_name(t).as_str(), " = type ", literal.as_str(), "\n"]);
        }
        if self.any_errorable_function() {
            text.append("\n");
        }
        append_runtime_declarations(&mut text);
        let mut i: usize = 0;
        while i < self.interface_globals.len()
            invariant
                self.info == old(self).info,
                i <= self.interface_globals@.len(),
            decreases self.interface_globals.len() - i,
        {
            text.append(self.interface_globals[i].as_str());
            i = i + 1;
        }
        if self.interface_globals.len() > 0 {
            text.append("\n");
        }
        let values = sorted_keys(&self.strings);
        let mut i: usize = 0;
        while i < values.len()
            invariant
                self.info == old(self).info,
                i <= values@.len(),
            decreases values.len() - i,
        {
            let value = values[i].as_str();
            i = i + 1;
            let name = match self.strings.get(value) {
                Some(n) => n.clone(),
                None => String::new(),
            };
            let byte_len = value.len() as u128 + 1;
            put(
                &mut text,
                vec![
                    "@",
                    name.as_str(),
                    " = private unnamed_addr constant [",
                    crate::text::u64_decimal(byte_len as u64).as_str(),
                    " x i8] c\"",
                    escape_llvm_string(value).as_str(),
                    "\\00\"\n",
                ],
            );
        }
        if values.len() > 0 {
            text.append("\n");
        }
        append_all(&mut text, &functions);
        append_all(&mut text, &literal_functions);
        append_all(&mut text, &self.interface_adapters);
        append_all(&mut text, &self.task_wrappers);
        let ghost before_main = text@;
        text.append(main_wrapper.as_str());
        let ghost types = out@;
        out.append(text.as_str());
        proof {
            assert(out@ =~= types + before_main + main_wrapper@);
            assert(out@.subrange(0, types.len() as int) =~= types);
            assert(out@.subrange(out@.len() - main_wrapper@.len(), out@.len() as int) =~= main_wrapper@);
        }
        Ok(out)
    }

    fn any_errorable_function(&self) -> (b: bool)
        ensures
            b == exists|name: Seq<char>|
                #![trigger self.info.functions@[name]]
                self.info.functions@.contains_key(name) && self.info.functions@[name].errorable,
    {
        let n = self.info.functions.len();
        let mut i: usize = 0;
        while i < n
            invariant
                n == self.info.functions.size(),
                i <= n,
                self.info.functions.key_order().len() == n,
                forall|k: Seq<char>|
                    self.info.functions@.contains_key(k) <==> self.info.functions.key_order().contains(k),
                forall|j: int|
                    0 <= j < i ==> !self.info.functions@[#[trigger] self.info.functions.key_order()[j]].errorable,
            decreases n - i,
        {
            let (_, sig) = self.info.functions.entry(i);
            if sig.errorable {
                return true;
            }
            i = i + 1;
        }
        proof {
            assert forall|name: Seq<char>|
                #![trigger self.info.functions@[name]]
                self.info.functions@.contains_key(name) implies !self.info.functions@[name].errorable by {
                let keys = self.info.functions.key_order();
                assert(keys.contains(name));
                let j = choose|j: int| 0 <= j < keys.len() && keys[j] == name;
                assert(keys[j] == name);
            }
        }
        false
    }

    /// The global that holds the string constant `value` (made on first use).
    pub fn string_name(&mut self, value: &str) -> (name: String)
        ensures
            final(self).info == old(self).info,
            final(self).strings@.contains_key(value@),
            final(self).strings@[value@] == name,
            old(self).strings@.contains_key(value@) ==> name == old(self).strings@[value@]
                && final(self).strings@ == old(self).strings@,
            !old(self).strings@.contains_key(value@) ==> name@ == "yar.str."@ + crate::text::decimal(
                old(self).next_string_id as nat,
            ) && final(self).strings@ == old(self).strings@.insert(value@, name),
            final(self).info == old(self).info,
    {
        match self.strings.get(value) {
            Some(name) => {
                return name.clone();
            },
            None => {},
        }
        let name = concat("yar.str.", usize_text(self.next_string_id).as_str());
        if self.next_string_id < usize::MAX {
            self.next_string_id = self.next_string_id + 1;
        }
        self.strings.insert(owned(value), name.clone());
        name
    }

    /// The value types of every errorable result the program uses, sorted and
    /// without repeats.
    fn result_types(&self, program: &Program) -> (types: Vec<String>) {
        let mut types: Vec<String> = Vec::new();
        let mut i: usize = 0;
        while i < self.info.functions.len()
            invariant
                i <= self.info.functions.size(),
            decreases self.info.functions.size() - i,
        {
            let (_, sig) = self.info.functions.entry(i);
            if sig.errorable {
                types.push(sig.return_type.clone());
            }
            i = i + 1;
        }
        let mut i: usize = 0;
        while i < self.info.function_literals.len()
            invariant
                i <= self.info.function_literals.size(),
            decreases self.info.function_literals.size() - i,
        {
            let (_, info) = self.info.function_literals.entry(i);
            if info.signature.errorable {
                types.push(info.signature.return_type.clone());
            }
            i = i + 1;
        }
        collect_map_result_types(program, &mut types);
        sort_names(&mut types);
        dedup_sorted(types)
    }

    fn emit_main_wrapper(&mut self) -> (r: Result<String, CodegenError>)
        ensures
            final(self).info == old(self).info,
            r matches Ok(s) ==> main_entry_text().is_prefix_of(s@),
            r is Ok ==> old(self).info.functions@.contains_key("main"@)
                && old(self).info.functions@["main"@].return_type@ == "i32"@,
    {
        let main = match self.info.functions.get("main") {
            Some(m) => m.duplicate(),
            None => {
                return Err(CodegenError::unsupported("missing main function"));
            },
        };
        if main.errorable {
            return self.emit_errorable_main_wrapper(&main);
        }
        if !str_eq(main.return_type.as_str(), "i32") {
            return Err(
                CodegenError::unsupported(
                    concat("main return type ", quote(main.return_type.as_str()).as_str()).as_str(),
                ),
            );
        }
        let body = owned(
            "entry:\n  %gc.stack.slot = alloca i8\n  call void @yar_gc_init_stack_top(ptr %gc.stack.slot)\n  call void @yar_set_args(i32 %argc, ptr %argv)\n  %main.value = call i32 @yar.main()\n  ret i32 %main.value\n}\n",
        );
        Ok(with_main_entry(body))
    }

    fn emit_errorable_main_wrapper(&mut self, main: &Signature) -> (r: Result<String, CodegenError>)
        ensures
            final(self).info == old(self).info,
            r matches Ok(s) ==> main_entry_text().is_prefix_of(s@),
            r is Ok ==> main.return_type@ == "i32"@,
    {
        if !str_eq(main.return_type.as_str(), "i32") {
            return Err(
                CodegenError::unsupported(
                    concat("errorable main return type ", quote(main.return_type.as_str()).as_str()).as_str(),
                ),
            );
        }
        let rt = result_type_name(main.return_type.as_str());
        let rt = rt.as_str();
        let mut out = owned("entry:\n  %gc.stack.slot = alloca i8\n");
        out.append("  call void @yar_gc_init_stack_top(ptr %gc.stack.slot)\n");
        out.append("  call void @yar_set_args(i32 %argc, ptr %argv)\n");
        put(&mut out, vec!["  %main.result = call ", rt, " @yar.main()\n"]);
        put(&mut out, vec!["  %main.is_err = extractvalue ", rt, " %main.result, 0\n"]);
        out.append("  br i1 %main.is_err, label %main.err, label %main.ok\n\n");
        out.append("main.ok:\n");
        put(&mut out, vec!["  %main.ok.value = extractvalue ", rt, " %main.result, 2\n"]);
        out.append("  ret i32 %main.ok.value\n\n");
        out.append("main.err:\n");
        put(&mut out, vec!["  %main.err.code = extractvalue ", rt, " %main.result, 1\n"]);
        if self.info.ordered_errors.len() == 0 {
            self.emit_print_literal(&mut out, "unhandled error\n", "main.err.message");
            out.append("  ret i32 1\n}\n");
            return Ok(with_main_entry(out));
        }
        out.append("  switch i32 %main.err.code, label %main.err.unknown [\n");
        let info = self.info;
        let mut i: usize = 0;
        while i < info.ordered_errors.len()
            invariant
                self.info == old(self).info,
                i <= info.ordered_errors@.len(),
            decreases info.ordered_errors.len() - i,
        {
            let code = i32_text(self.error_code(info.ordered_errors[i].as_str())?);
            put(&mut out, vec!["    i32 ", code.as_str(), ", label %main.err.", code.as_str(), "\n"]);
            i = i + 1;
        }
        out.append("  ]\n\n");
        let mut i: usize = 0;
        while i < info.ordered_errors.len()
            invariant
                self.info == old(self).info,
                i <= info.ordered_errors@.len(),
            decreases info.ordered_errors.len() - i,
        {
            let name = info.ordered_errors[i].as_str();
            i = i + 1;
            let label = i32_text(self.error_code(name)?);
            let display_name = match self.info.error_display_names.get(name) {
                Some(d) => d.clone(),
                None => {
                    return Err(
                        CodegenError::unsupported(
                            concat("missing error display name ", quote(name).as_str()).as_str(),
                        ),
                    );
                },
            };
            put(&mut out, vec!["main.err.", label.as_str(), ":\n"]);
            self.emit_print_literal(
                &mut out,
                "unhandled error: ",
                concat("main.err.prefix.", label.as_str()).as_str(),
            );
            self.emit_print_literal(
                &mut out,
                display_name.as_str(),
                concat("main.err.name.", label.as_str()).as_str(),
            );
            self.emit_print_literal(&mut out, "\n", concat("main.err.newline.", label.as_str()).as_str());
            out.append("  ret i32 1\n\n");
        }
        out.append("main.err.unknown:\n");
        self.emit_print_literal(&mut out, "unhandled error\n", "main.err.unknown.message");
        out.append("  ret i32 1\n}\n");
        Ok(with_main_entry(out))
    }

    /// Appends the instructions that print the constant `value`.
    pub fn emit_print_literal(&mut self, out: &mut String, value: &str, local: &str)
        ensures
            final(self).info == old(self).info,
            final(out)@.len() >= old(out)@.len(),
            final(self).strings@.contains_key(value@),
            final(self).info == old(self).info,
            final(out)@ == old(out)@ + "  %"@ + local@ + " = getelementptr inbounds ["@ + crate::text::decimal(
                (((value.spec_bytes().len() as usize) as u128 + 1) as u64) as nat,
            ) + " x i8], ptr @"@ + final(self).strings@[value@]@ + ", i64 0, i64 0\n"@
                + "  call void @yar_print(ptr %"@ + local@ + ", i64 "@ + crate::text::decimal(
                (((value.spec_bytes().len() as usize) as u128) as u64) as nat,
            ) + ")\n"@,
    {
        let global = self.string_name(value);
        let len = value.len() as u128;
        let size = crate::text::u64_decimal((len + 1) as u64);
        let first = vec![
            "  %",
            local,
            " = getelementptr inbounds [",
            size.as_str(),
            " x i8], ptr @",
            global.as_str(),
            ", i64 0, i64 0\n",
        ];
        proof {
            crate::text::lemma_concat_all_seven(first@);
        }
        put(out, first);
        let count = crate::text::u64_decimal(len as u64);
        let second = vec!["  call void @yar_print(ptr %", local, ", i64 ", count.as_str(), ")\n"];
        proof {
            crate::text::lemma_concat_all_five(second@);
        }
        put(out, second);
    }

    /// The code the checker gave the error `name`.
    pub fn error_code(&self, name: &str) -> (r: Result<i32, CodegenError>)
        ensures
            r matches Ok(c) ==> self.info.error_codes@.contains_key(name@) && self.info.error_codes@[name@]
                == c,
            r is Err ==> !self.info.error_codes@.contains_key(name@),
    {
        match self.info.error_codes.get(name) {
            Some(code) => Ok(*code),
            None => Err(
                CodegenError::unsupported(concat("missing error code ", quote(name).as_str()).as_str()),
            ),
        }
    }

    /// The index and type of the field `field_name` of the struct `t`.
    pub fn struct_field(&self, t: &str, field_name: &str) -> (r: Result<(usize, String), CodegenError>)
        ensures
            match r {
                Ok((index, field_type)) => {
                    &&& self.info.structs@.contains_key(t@)
                    &&& index < self.info.structs@[t@].fields@.len()
                    &&& self.info.structs@[t@].fields@[index as int].name@ == field_name@
                    &&& field_type@ == self.info.structs@[t@].fields@[index as int].type_@
                    &&& forall|j: int|
                        0 <= j < index ==> self.info.structs@[t@].fields@[j].name@ != field_name@
                },
                Err(_) => !self.info.structs@.contains_key(t@) || forall|j: int|
                    0 <= j < self.info.structs@[t@].fields@.len()
                        ==> self.info.structs@[t@].fields@[j].name@ != field_name@,
            },
    {
        let info = match self.info.structs.get(t) {
            Some(i) => i,
            None => {
                return Err(CodegenError::unsupported(concat("unknown struct ", quote(t).as_str()).as_str()));
            },
        };
        match crate::checker::body::find_field(&info.fields, field_name) {
            Some(idx) => Ok((idx, info.fields[idx].type_.clone())),
            None => Err(
                CodegenError::unsupported(
                    cat(vec!["unknown field ", quote(t).as_str(), ".", field_name]).as_str(),
                ),
            ),
        }
    }

    /// The checked signature of a declared function or method.
    pub fn function_signature(&self, function: &FunctionDecl) -> (r: Option<Signature>)
        ensures
            function.receiver is None ==> match r {
                Some(sig) => self.info.functions@.contains_key(function.name@) && same_signature(
                    sig,
                    self.info.functions@[function.name@],
                ),
                None => !self.info.functions@.contains_key(function.name@),
            },
            function.receiver matches Some(receiver) ==> match r {
                Some(sig) => self.method_signature_spec(type_text(receiver.type_ref), function.name@)
                    matches Some(found) && same_signature(sig, found),
                None => self.method_signature_spec(type_text(receiver.type_ref), function.name@) is None,
            },
    {
        match &function.receiver {
            Some(receiver) => {
                let receiver_type = receiver.type_ref.display();
                self.method_signature(receiver_type.as_str(), function.name.as_str())
            },
            None => match self.info.functions.get(function.name.as_str()) {
                Some(s) => Some(s.duplicate()),
                None => None,
            },
        }
    }

    /// The method `name` of exactly the receiver type `receiver`, as recorded.
    pub open spec fn method_signature_spec(&self, receiver: Seq<char>, name: Seq<char>) -> Option<Signature> {
        if self.info.methods@.contains_key(receiver) && self.info.methods@[receiver]@.contains_key(name) {
            Some(self.info.methods@[receiver]@[name])
        } else {
            None
        }
    }

    /// The method `name` of exactly the receiver type `receiver`.
    pub fn method_signature(&self, receiver: &str, name: &str) -> (r: Option<Signature>)
        ensures
            match r {
                Some(sig) => self.method_signature_spec(receiver@, name@) matches Some(found)
                    && same_signature(sig, found),
                None => self.method_signature_spec(receiver@, name@) is None,
            },
    {
        match self.info.methods.get(receiver) {
            Some(methods) => match methods.get(name) {
                Some(s) => Some(s.duplicate()),
                None => None,
            },
            None => None,
        }
    }

    /// The method table of `concrete_type` for `interface_type`, emitting it and
    /// its adapters on first use.
    pub fn ensure_interface_impl(&mut self, interface_type: &str, concrete_type: &str) -> (r: Result<
        String,
        CodegenError,
    >)
        ensures
            final(self).info == old(self).info,
    {
        let key = cat(vec![interface_type, "=>", concrete_type]);
        match self.interface_impls.get(key.as_str()) {
            Some(name) => {
                return Ok(concat("@", name.as_str()));
            },
            None => {},
        }
        let interface = match self.info.interfaces.get(interface_type) {
            Some(i) => i.clone(),
            None => {
                return Err(
                    CodegenError::unsupported(concat("unknown interface ", quote(interface_type).as_str()).as_str()),
                );
            },
        };
        let mut fields: Vec<String> = Vec::new();
        let mut m: usize = 0;
        while m < interface.methods.len()
            invariant
                self.info == old(self).info,
                m <= interface.methods@.len(),
            decreases interface.methods.len() - m,
        {
            let method = &interface.methods[m];
            m = m + 1;
            let signature = match self.method_signature(concrete_type, method.name.as_str()) {
                Some(s) => s,
                None => {
                    return Err(
                        CodegenError::unsupported(
                            cat(vec!["missing interface method ", concrete_type, ".", method.name.as_str()]).as_str(),
                        ),
                    );
                },
            };
            let adapter_name = interface_adapter_name(interface_type, concrete_type, method.name.as_str());
            let adapter = self.emit_interface_adapter(adapter_name.as_str(), &signature)?;
            self.interface_adapters.push(adapter);
            fields.push(concat("ptr @", function_symbol(adapter_name.as_str()).as_str()));
        }
        let global_name = interface_table_global_name(interface_type, concrete_type);
        let literal = if fields.len() == 0 {
            owned("{ }")
        } else {
            cat(vec!["{ ", join_comma(&fields).as_str(), " }"])
        };
        self.interface_globals.push(
            cat(
                vec![
                    "@",
                    global_name.as_str(),
                    " = private unnamed_addr constant ",
                    interface_table_type_name(interface_type).as_str(),
                    " ",
                    literal.as_str(),
                    "\n",
                ],
            ),
        );
        self.interface_impls.insert(key, global_name.clone());
        Ok(concat("@", global_name.as_str()))
    }

    /// The function that calls a concrete method through an interface slot.
    fn emit_interface_adapter(&self, name: &str, signature: &Signature) -> (r: Result<String, CodegenError>) {
        let return_type = if signature.errorable {
            result_type_name(signature.return_type.as_str())
        } else {
            self.llvm_type(signature.return_type.as_str())?
        };
        let mut params: Vec<String> = Vec::new();
        params.push(owned("ptr %data"));
        let mut idx: usize = 1;
        while idx < signature.params.len()
            invariant
                1 <= idx,
            decreases signature.params.len() - idx,
        {
            let t = self.llvm_type(signature.params[idx].as_str())?;
            params.push(cat(vec![t.as_str(), " %arg", usize_text(idx - 1).as_str()]));
            idx = idx + 1;
        }
        let mut out = String::new();
        put(
            &mut out,
            vec![
                "define ",
                return_type.as_str(),
                " @",
                function_symbol(name).as_str(),
                "(",
                join_comma(&params).as_str(),
                ") {\n",
            ],
        );
        out.append("entry:\n");
        let mut call_args: Vec<String> = Vec::new();
        if parse_pointer_type(signature.receiver.as_str()).is_some() {
            call_args.push(owned("ptr %data"));
        } else {
            let receiver_type = self.llvm_type(signature.receiver.as_str())?;
            put(&mut out, vec!["  %recv = load ", receiver_type.as_str(), ", ptr %data\n"]);
            call_args.push(concat(receiver_type.as_str(), " %recv"));
        }
        let mut idx: usize = 1;
        while idx < signature.params.len()
            invariant
                1 <= idx,
            decreases signature.params.len() - idx,
        {
            let t = self.llvm_type(signature.params[idx].as_str())?;
            call_args.push(cat(vec![t.as_str(), " %arg", usize_text(idx - 1).as_str()]));
            idx = idx + 1;
        }
        let symbol = function_symbol(signature.full_name.as_str());
        if !signature.errorable && (str_eq(signature.return_type.as_str(), "void") || str_eq(
            signature.return_type.as_str(),
            "noreturn",
        )) {
            put(&mut out, vec!["  call void @", symbol.as_str(), "(", join_comma(&call_args).as_str(), ")\n"]);
            if str_eq(signature.return_type.as_str(), "noreturn") {
                out.append("  unreachable\n");
            } else {
                out.append("  ret void\n");
            }
            out.append("}\n");
            return Ok(out);
        }
        put(
            &mut out,
            vec![
                "  %call = call ",
                return_type.as_str(),
                " @",
                symbol.as_str(),
                "(",
                join_comma(&call_args).as_str(),
                ")\n",
            ],
        );
        put(&mut out, vec!["  ret ", return_type.as_str(), " %call\n"]);
        out.append("}\n");
        Ok(out)
    }

    fn next_task_wrapper_name(&mut self) -> (name: String)
        ensures
            final(self).info == old(self).info,
            name@ == "task.wrapper."@ + crate::text::decimal(old(self).next_task_wrapper_id as nat),
            old(self).next_task_wrapper_id < usize::MAX ==> final(self).next_task_wrapper_id
                == old(self).next_task_wrapper_id + 1,
            final(self).info == old(self).info,
            final(self).task_wrappers@ == old(self).task_wrappers@,
    {
        let name = concat("task.wrapper.", usize_text(self.next_task_wrapper_id).as_str());
        if self.next_task_wrapper_id < usize::MAX {
            self.next_task_wrapper_id = self.next_task_wrapper_id + 1;
        }
        name
    }

    /// Queues the task wrapper of a spawned named function; answers its name and
    /// the type of its argument context.
    pub fn queue_task_function_wrapper(&mut self, signature: &Signature) -> (r: Result<
        (String, String),
        CodegenError,
    >)
        ensures
            final(self).info == old(self).info,
    {
        if signature.method || signature.builtin {
            return Err(
                CodegenError::unsupported(
                    concat("spawn call target ", quote(signature.full_name.as_str()).as_str()).as_str(),
                ),
            );
        }
        let name = self.next_task_wrapper_name();
        let ctx_type = self.task_wrapper_context_type(&signature.params)?;
        let wrapper = self.emit_task_function_wrapper(name.as_str(), signature, ctx_type.as_str())?;
        self.task_wrappers.push(wrapper);
        Ok((name, ctx_type))
    }

    /// Queues the task wrapper of a spawned function value.
    pub fn queue_task_closure_wrapper(&mut self, function_type: &FunctionType) -> (r: Result<
        (String, String),
        CodegenError,
    >)
        ensures
            final(self).info == old(self).info,
    {
        let name = self.next_task_wrapper_name();
        let mut fields: Vec<String> = Vec::new();
        fields.push(
            format_function_type(
                &function_type.params,
                function_type.return_type.as_str(),
                function_type.errorable,
            ),
        );
        let mut i: usize = 0;
        while i < function_type.params.len()
            invariant
                self.info == old(self).info,
                i <= function_type.params@.len(),
            decreases function_type.params.len() - i,
        {
            fields.push(function_type.params[i].clone());
            i = i + 1;
        }
        let ctx_type = self.task_wrapper_context_type(&fields)?;
        let wrapper = self.emit_task_closure_wrapper(name.as_str(), function_type, ctx_type.as_str())?;
        self.task_wrappers.push(wrapper);
        Ok((name, ctx_type))
    }

    /// The LLVM struct type that holds a task's arguments.
    pub fn task_wrapper_context_type(&self, fields: &Vec<String>) -> (r: Result<String, CodegenError>)
        ensures
            fields@.len() == 0 ==> (r matches Ok(t) && t@ == "{ }"@),
            fields@.len() > 0 && (forall|i: int| 0 <= i < fields@.len() ==> scalar_llvm_type(#[trigger] fields@[i]@) is Some)
                ==> (r matches Ok(t) && t@ == struct_literal_text(scalar_llvm_types(fields@))),
    {
        if fields.len() == 0 {
            return Ok(owned("{ }"));
        }
        let mut types: Vec<String> = Vec::new();
        let mut i: usize = 0;
        while i < fields.len()
            invariant
                i <= fields@.len(),
                types@.len() == i,
                forall|k: int| 0 <= k < i && scalar_llvm_type(fields@[k]@) is Some ==> #[trigger] types@[k]@
                    == scalar_llvm_type(fields@[k]@)->0,
            decreases fields.len() - i,
        {
            types.push(self.llvm_type(fields[i].as_str())?);
            i = i + 1;
        }
        let joined_types = join_comma(&types);
        let parts = vec!["{ ", joined_types.as_str(), " }"];
        proof {
            crate::text::lemma_concat_all_triple(parts@);
            if forall|k: int| 0 <= k < fields@.len() ==> scalar_llvm_type(#[trigger] fields@[k]@) is Some {
                lemma_joined_scalar_types(types@, fields@);
            }
        }
        Ok(cat(parts))
    }

    /// The size in bytes of a struct laid out with the given field types.
    pub fn fields_size(&self, fields: &Vec<String>) -> (r: Result<i32, CodegenError>)
        ensures
            fields@.len() == 0 ==> r == Ok::<i32, CodegenError>(0),
            fields@.len() == 1 && scalar_size(fields@[0]@) is Some ==> r == Ok::<i32, CodegenError>(
                scalar_size(fields@[0]@)->0 as i32,
            ),
    {
        let mut size: i32 = 0;
        let mut align: i32 = 1;
        let mut i: usize = 0;
        while i < fields.len()
            invariant
                i <= fields@.len(),
                i == 0 ==> size == 0 && align == 1,
                i == 1 && fields@.len() == 1 && scalar_size(fields@[0]@) is Some ==> size == scalar_size(
                    fields@[0]@,
                )->0 && align == scalar_align(fields@[0]@)->0,
            decreases fields.len() - i,
        {
            proof {
                if scalar_size(fields@[i as int]@) is Some {
                    lemma_scalar_size_aligned(fields@[i as int]@);
                }
            }
            let field_align = self.type_align(fields[i].as_str())?;
            size = align_to(size, field_align)?;
            let field_size = self.type_size(fields[i].as_str())?;
            size = match size.checked_add(field_size) {
                Some(s) => s,
                None => {
                    return Err(CodegenError::unsupported("task wrapper context size overflow"));
                },
            };
            if field_align > align {
                align = field_align;
            }
            i = i + 1;
        }
        proof {
            if fields@.len() == 1 && scalar_size(fields@[0]@) is Some {
                lemma_scalar_size_aligned(fields@[0]@);
            }
        }
        align_to(size, align)
    }

    /// The size in bytes of a task's argument context.
    pub fn task_wrapper_context_size(&self, fields: &Vec<String>) -> (r: Result<i32, CodegenError>) {
        self.fields_size(fields)
    }

    fn emit_task_function_wrapper(&self, name: &str, signature: &Signature, ctx_type: &str) -> (r: Result<
        String,
        CodegenError,
    >) {
        let mut out = String::new();
        put(&mut out, vec!["define void @", function_symbol(name).as_str(), "(ptr %ctx, ptr %result) {\n"]);
        out.append("entry:\n");
        let mut args: Vec<String> = Vec::new();
        let mut idx: usize = 0;
        while idx < signature.params.len()
            invariant
                idx <= signature.params@.len(),
            decreases signature.params.len() - idx,
        {
            let t = self.llvm_type(signature.params[idx].as_str())?;
            let n = usize_text(idx);
            put(
                &mut out,
                vec![
                    "  %arg.ptr.",
                    n.as_str(),
                    " = getelementptr inbounds ",
                    ctx_type,
                    ", ptr %ctx, i32 0, i32 ",
                    n.as_str(),
                    "\n",
                ],
            );
            put(&mut out, vec!["  %arg.", n.as_str(), " = load ", t.as_str(), ", ptr %arg.ptr.", n.as_str(), "\n"]);
            args.push(cat(vec![t.as_str(), " %arg.", n.as_str()]));
            idx = idx + 1;
        }
        if signature.host_intrinsic && str_eq(signature.full_name.as_str(), "fs.read_file") {
            self.emit_task_fs_read_file_wrapper_result(&mut out)?;
            out.append("}\n");
            return Ok(out);
        }
        let symbol = function_symbol(signature.full_name.as_str());
        if !signature.errorable && (str_eq(signature.return_type.as_str(), "void") || str_eq(
            signature.return_type.as_str(),
            "noreturn",
        )) {
            put(&mut out, vec!["  call void @", symbol.as_str(), "(", join_comma(&args).as_str(), ")\n"]);
            if str_eq(signature.return_type.as_str(), "noreturn") {
                out.append("  unreachable\n");
            } else {
                out.append("  ret void\n");
            }
            out.append("}\n");
            return Ok(out);
        }
        let return_type = if signature.errorable {
            result_type_name(signature.return_type.as_str())
        } else {
            self.llvm_type(signature.return_type.as_str())?
        };
        put(
            &mut out,
            vec![
                "  %call = call ",
                return_type.as_str(),
                " @",
                symbol.as_str(),
                "(",
                join_comma(&args).as_str(),
                ")\n",
            ],
        );
        put(&mut out, vec!["  store ", return_type.as_str(), " %call, ptr %result\n"]);
        out.append("  ret void\n");
        out.append("}\n");
        Ok(out)
    }

    fn emit_task_fs_read_file_wrapper_result(&self, out: &mut String) -> (r: Result<(), CodegenError>) {
        out.append("  %fs.read_file.arg = alloca %yar.str\n");
        out.append("  store %yar.str %arg.0, ptr %fs.read_file.arg\n");
        out.append("  %fs.read_file.out = alloca %yar.str\n");
        out.append("  store %yar.str zeroinitializer, ptr %fs.read_file.out\n");
        out.append(
            "  %fs.read_file.status = call i32 @yar_fs_read_file(ptr %fs.read_file.arg, ptr %fs.read_file.out)\n",
        );
        out.append("  %fs.read_file.value = load %yar.str, ptr %fs.read_file.out\n");
        out.append("  %host.ok = icmp eq i32 %fs.read_file.status, 0\n");
        out.append("  br i1 %host.ok, label %host.ok.block, label %host.err.block\n\n");
        out.append("host.ok.block:\n");
        out.append("  %host.ok.result.0 = insertvalue %yar.result.str zeroinitializer, i1 false, 0\n");
        out.append("  %host.ok.result.1 = insertvalue %yar.result.str %host.ok.result.0, i32 0, 1\n");
        out.append(
            "  %host.ok.result.2 = insertvalue %yar.result.str %host.ok.result.1, %yar.str %fs.read_file.value, 2\n",
        );
        out.append("  br label %host.end\n\n");
        out.append("host.err.block:\n");
        let err_code = self.emit_task_fs_error_code(out, "%fs.read_file.status")?;
        out.append("  %host.err.result.0 = insertvalue %yar.result.str zeroinitializer, i1 true, 0\n");
        put(
            out,
            vec![
                "  %host.err.result.1 = insertvalue %yar.result.str %host.err.result.0, i32 ",
                err_code.as_str(),
                ", 1\n",
            ],
        );
        out.append(
            "  %host.err.result.2 = insertvalue %yar.result.str %host.err.result.1, %yar.str zeroinitializer, 2\n",
        );
        out.append("  br label %host.end\n\n");
        out.append("host.end:\n");
        out.append(
            "  %host.result = phi %yar.result.str [%host.ok.result.2, %host.ok.block], [%host.err.result.2, %host.err.block]\n",
        );
        out.append("  store %yar.result.str %host.result, ptr %result\n");
        out.append("  ret void\n");
        Ok(())
    }

    fn emit_task_fs_error_code(&self, out: &mut String, status: &str) -> (r: Result<String, CodegenError>) {
        let mut code = i32_text(self.error_code("fs.IO")?);
        let statuses: Vec<&str> = vec!["7", "6", "4", "3", "2", "1"];
        let error_names: Vec<&str> = vec![
            "Closed",
            "InvalidArgument",
            "InvalidPath",
            "AlreadyExists",
            "PermissionDenied",
            "NotFound",
        ];
        let mut idx: usize = 0;
        while idx < 6
            invariant
                statuses@.len() == 6,
                error_names@.len() == 6,
            decreases 6 - idx,
        {
            let identity = host_error_identity("fs", error_names[idx]);
            let n = usize_text(idx);
            put(
                out,
                vec!["  %host.err.match.", n.as_str(), " = icmp eq i32 ", status, ", ", statuses[idx], "\n"],
            );
            let chosen = i32_text(self.error_code(identity.as_str())?);
            put(
                out,
                vec![
                    "  %host.err.code.",
                    n.as_str(),
                    " = select i1 %host.err.match.",
                    n.as_str(),
                    ", i32 ",
                    chosen.as_str(),
                    ", i32 ",
                    code.as_str(),
                    "\n",
                ],
            );
            code = concat("%host.err.code.", n.as_str());
            idx = idx + 1;
        }
        Ok(code)
    }

    fn emit_task_closure_wrapper(&self, name: &str, function_type: &FunctionType, ctx_type: &str) -> (r:
        Result<String, CodegenError>) {
        let mut out = String::new();
        put(&mut out, vec!["define void @", function_symbol(name).as_str(), "(ptr %ctx, ptr %result) {\n"]);
        out.append("entry:\n");
        put(&mut out, vec!["  %callee.ptr = getelementptr inbounds ", ctx_type, ", ptr %ctx, i32 0, i32 0\n"]);
        out.append("  %callee = load %yar.closure, ptr %callee.ptr\n");
        out.append("  %callee.code = extractvalue %yar.closure %callee, 0\n");
        out.append("  %callee.env = extractvalue %yar.closure %callee, 1\n");
        let mut args: Vec<String> = Vec::new();
        args.push(owned("ptr %callee.env"));
        let mut idx: usize = 0;
        while idx < function_type.params.len()
            invariant
                idx <= function_type.params@.len(),
            decreases function_type.params.len() - idx,
        {
            let t = self.llvm_type(function_type.params[idx].as_str())?;
            let n = usize_text(idx);
            let field = usize_text(idx + 1);
            put(
                &mut out,
                vec![
                    "  %arg.ptr.",
                    n.as_str(),
                    " = getelementptr inbounds ",
                    ctx_type,
                    ", ptr %ctx, i32 0, i32 ",
                    field.as_str(),
                    "\n",
                ],
            );
            put(&mut out, vec!["  %arg.", n.as_str(), " = load ", t.as_str(), ", ptr %arg.ptr.", n.as_str(), "\n"]);
            args.push(cat(vec![t.as_str(), " %arg.", n.as_str()]));
            idx = idx + 1;
        }
        let return_type = if function_type.errorable {
            result_type_name(function_type.return_type.as_str())
        } else {
            self.llvm_type(function_type.return_type.as_str())?
        };
        if !function_type.errorable && str_eq(function_type.return_type.as_str(), "void") {
            put(&mut out, vec!["  call void %callee.code(", join_comma(&args).as_str(), ")\n"]);
            out.append("  ret void\n");
            out.append("}\n");
            return Ok(out);
        }
        put(
            &mut out,
            vec!["  %call = call ", return_type.as_str(), " %callee.code(", join_comma(&args).as_str(), ")\n"],
        );
        put(&mut out, vec!["  store ", return_type.as_str(), " %call, ptr %result\n"]);
        out.append("  ret void\n");
        out.append("}\n");
        Ok(out)
    }

    /// The case `case_name` of the enum `enum_type`.
    pub fn enum_case(&self, enum_type: &str, case_name: &str) -> (r: Result<EnumCaseInfo, CodegenError>)
        ensures
            match r {
                Ok(case) => self.info.enums@.contains_key(enum_type@) && (first_case_named(
                    self.info.enums@[enum_type@],
                    case_name@,
                ) matches Some(i) && same_enum_case(case, self.info.enums@[enum_type@].cases@[i])),
                Err(_) => !self.info.enums@.contains_key(enum_type@) || first_case_named(
                    self.info.enums@[enum_type@],
                    case_name@,
                ) is None,
            },
    {
        let enum_info = match self.info.enums.get(enum_type) {
            Some(e) => e,
            None => {
                return Err(CodegenError::unsupported(concat("unknown enum ", quote(enum_type).as_str()).as_str()));
            },
        };
        let mut c: usize = 0;
        while c < enum_info.cases.len()
            invariant
                c <= enum_info.cases@.len(),
                forall|j: int| 0 <= j < c ==> enum_info.cases@[j].name@ != case_name@,
                self.info.enums@.contains_key(enum_type@),
                self.info.enums@[enum_type@] == *enum_info,
            decreases enum_info.cases.len() - c,
        {
            if str_eq(enum_info.cases[c].name.as_str(), case_name) {
                proof {
                    lemma_first_case_named(*enum_info, case_name@, c as int);
                }
                return Ok(enum_info.cases[c].duplicate());
            }
            c = c + 1;
        }
        proof {
            lemma_no_case_named(*enum_info, case_name@);
        }
        Err(
            CodegenError::unsupported(
                cat(vec!["unknown enum case ", quote(enum_type).as_str(), ".", case_name]).as_str(),
            ),
        )
    }

    /// For a payload struct type `Enum.Case`, the enum and the case.
    pub fn enum_case_type(&self, t: &str) -> (r: Result<Option<(String, EnumCaseInfo)>, CodegenError>)
        ensures
            match last_dot(t@) {
                None => r == Ok::<Option<(String, EnumCaseInfo)>, CodegenError>(None),
                Some(d) => {
                    let e = t@.subrange(0, d);
                    let name = t@.subrange(d + 1, t@.len() as int);
                    if !self.info.enums@.contains_key(e) {
                        r == Ok::<Option<(String, EnumCaseInfo)>, CodegenError>(None)
                    } else {
                        match first_case_named(self.info.enums@[e], name) {
                            Some(i) => r matches Ok(Some((found_enum, case))) && found_enum@ == e
                                && same_enum_case(case, self.info.enums@[e].cases@[i]),
                            None => r is Err,
                        }
                    }
                },
            },
    {
        let cs = crate::text::chars_of(t);
        let mut i: usize = cs.len();
        let mut dot: Option<usize> = None;
        while dot.is_none() && i > 0
            invariant
                i <= cs@.len(),
                cs@ == t@,
                match dot {
                    Some(d) => d < cs@.len() && last_dot(t@) == Some(d as int),
                    None => forall|k: int| i <= k < cs@.len() ==> cs@[k] != '.',
                },
            decreases i,
        {
            i = i - 1;
            if cs[i] == '.' {
                proof {
                    lemma_last_dot(t@, i as int);
                }
                dot = Some(i);
            }
        }
        let d = match dot {
            Some(d) => d,
            None => {
                proof {
                    lemma_no_dot(t@);
                }
                return Ok(None);
            },
        };
        let enum_type = crate::text::string_of_range(&cs, 0, d);
        let case_name = crate::text::string_of_range(&cs, d + 1, cs.len());
        if !self.info.enums.contains_key(enum_type.as_str()) {
            return Ok(None);
        }
        let case = self.enum_case(enum_type.as_str(), case_name.as_str())?;
        Ok(Some((enum_type, case)))
    }

    fn enum_payload_words_with(&self, info: &EnumInfo, fuel: usize) -> (r: Result<i32, CodegenError>)
        ensures
            plain_enum(*info) ==> r == Ok::<i32, CodegenError>(0),
            r matches Ok(w) ==> w >= 0,
        decreases fuel, 3int,
    {
        let mut max_size: i32 = 0;
        let mut c: usize = 0;
        while c < info.cases.len()
            invariant
                c <= info.cases@.len(),
                max_size >= 0,
                plain_enum(*info) ==> max_size == 0,
            decreases info.cases.len() - c,
        {
            let case = &info.cases[c];
            c = c + 1;
            if case.payload_type.unicode_len() == 0 {
                continue;
            }
            let size = self.type_size_with(case.payload_type.as_str(), fuel)?;
            if size > max_size {
                max_size = size;
            }
        }
        if max_size == 0 {
            return Ok(0);
        }
        Ok((max_size / 8) + if max_size % 8 == 0 {
            0
        } else {
            1
        })
    }

    /// The number of 8-byte words an enum's largest payload takes.
    pub fn enum_payload_words(&self, info: &EnumInfo) -> (r: Result<i32, CodegenError>)
        ensures
            plain_enum(*info) ==> r == Ok::<i32, CodegenError>(0),
            r matches Ok(w) ==> w >= 0,
    {
        let fuel = self.layout_fuel(info.name.as_str());
        self.enum_payload_words_with(info, fuel)
    }

    /// The LLVM type literal of an enum: its tag, then its payload words.
    pub fn enum_struct_literal(&self, info: &EnumInfo) -> (r: Result<String, CodegenError>)
        ensures
            plain_enum(*info) ==> (r matches Ok(t) && t@ == "{ i32 }"@),
            r matches Ok(t) ==> t@ == "{ i32 }"@ || exists|words: int|
                words > 0 && t@ == "{ i32, ["@ + crate::text::signed_decimal(words) + " x i64] }"@,
    {
        let payload_words = self.enum_payload_words(info)?;
        if payload_words == 0 {
            return Ok(owned("{ i32 }"));
        }
        let words = i32_text(payload_words);
        let parts = vec!["{ i32, [", words.as_str(), " x i64] }"];
        proof {
            crate::text::lemma_concat_all_triple(parts@);
        }
        Ok(cat(parts))
    }

    fn type_size_with(&self, t: &str, fuel: usize) -> (r: Result<i32, CodegenError>)
        ensures
            fuel > 0 && scalar_size(t@) is Some ==> (r matches Ok(v) && v == scalar_size(t@)->0),
        decreases fuel, 2int,
    {
        proof {
            if scalar_size(t@) is Some || scalar_align(t@) is Some || scalar_llvm_type(t@) is Some {
                lemma_scalar_spelling(t@);
            }
        }
        if fuel == 0 {
            return Err(CodegenError::unsupported(concat("size of type ", quote(t).as_str()).as_str()));
        }
        match strip_prefix(t, "!") {
            Some(inner) => {
                if str_eq(inner.as_str(), "void") {
                    return Ok(8);
                }
                let s = self.type_size_with(inner.as_str(), fuel - 1)?;
                return match s.checked_add(8) {
                    Some(v) => Ok(v),
                    None => Err(CodegenError::unsupported("errorable size overflow")),
                };
            },
            None => {},
        }
        if str_eq(t, "bool") {
            return Ok(1);
        }
        if str_eq(t, "i32") || str_eq(t, "error") {
            return Ok(4);
        }
        if str_eq(t, "i64") {
            return Ok(8);
        }
        if str_eq(t, "str") {
            return Ok(16);
        }
        if parse_slice_type(t).is_some() || parse_function_type(t).is_some() {
            return Ok(16);
        }
        if parse_pointer_type(t).is_some() || parse_map_type(t).is_some() || parse_chan_type(t).is_some() {
            return Ok(8);
        }
        if self.info.interfaces.contains_key(t) {
            return Ok(16);
        }
        match parse_array_type(t) {
            Some((len, element_type)) => {
                if len > 2147483647 {
                    return Err(CodegenError::unsupported("array size"));
                }
                let elem = self.type_size_with(element_type.as_str(), fuel - 1)?;
                return match (len as i32).checked_mul(elem) {
                    Some(v) => Ok(v),
                    None => Err(CodegenError::unsupported("array size overflow")),
                };
            },
            None => {},
        }
        match self.info.structs.get(t) {
            Some(info) => {
                let mut size: i32 = 0;
                let mut align: i32 = 1;
                let mut f: usize = 0;
                while f < info.fields.len()
                    invariant
                        f <= info.fields@.len(),
                        fuel > 0,
                        scalar_size(t@) is None,
                    decreases info.fields.len() - f,
                {
                    let field_type = info.fields[f].type_.as_str();
                    f = f + 1;
                    let field_align = self.type_align_with(field_type, fuel - 1)?;
                    size = align_to(size, field_align)?;
                    let field_size = self.type_size_with(field_type, fuel - 1)?;
                    size = match size.checked_add(field_size) {
                        Some(s) => s,
                        None => {
                            return Err(CodegenError::unsupported("struct size overflow"));
                        },
                    };
                    if field_align > align {
                        align = field_align;
                    }
                }
                return align_to(size, align);
            },
            None => {},
        }
        match self.info.enums.get(t) {
            Some(info) => {
                let payload_words = self.enum_payload_words_with(info, fuel - 1)?;
                if payload_words == 0 {
                    return Ok(4);
                }
                return match payload_words.checked_mul(8) {
                    Some(w) => match w.checked_add(8) {
                        Some(v) => Ok(v),
                        None => Err(CodegenError::unsupported("enum size overflow")),
                    },
                    None => Err(CodegenError::unsupported("enum size overflow")),
                };
            },
            None => {},
        }
        Err(CodegenError::unsupported(concat("size of type ", quote(t).as_str()).as_str()))
    }

    fn type_align_with(&self, t: &str, fuel: usize) -> (r: Result<i32, CodegenError>)
        ensures
            fuel > 0 && scalar_align(t@) is Some ==> (r matches Ok(v) && v == scalar_align(t@)->0),
        decreases fuel, 2int,
    {
        proof {
            if scalar_size(t@) is Some || scalar_align(t@) is Some || scalar_llvm_type(t@) is Some {
                lemma_scalar_spelling(t@);
            }
        }
        if fuel == 0 {
            return Err(CodegenError::unsupported(concat("align of type ", quote(t).as_str()).as_str()));
        }
        match strip_prefix(t, "!") {
            Some(inner) => {
                if str_eq(inner.as_str(), "void") {
                    return Ok(4);
                }
                let a = self.type_align_with(inner.as_str(), fuel - 1)?;
                return Ok(
                    if a > 4 {
                        a
                    } else {
                        4
                    },
                );
            },
            None => {},
        }
        if str_eq(t, "bool") {
            return Ok(1);
        }
        if str_eq(t, "i32") || str_eq(t, "error") {
            return Ok(4);
        }
        if str_eq(t, "i64") || str_eq(t, "str") {
            return Ok(8);
        }
        if parse_slice_type(t).is_some() || parse_function_type(t).is_some() || parse_pointer_type(t).is_some()
            || parse_map_type(t).is_some() || parse_chan_type(t).is_some()
            || self.info.interfaces.contains_key(t) {
            return Ok(8);
        }
        match parse_array_type(t) {
            Some((_, element_type)) => {
                return self.type_align_with(element_type.as_str(), fuel - 1);
            },
            None => {},
        }
        match self.info.structs.get(t) {
            Some(info) => {
                let mut align: i32 = 1;
                let mut f: usize = 0;
                while f < info.fields.len()
                    invariant
                        f <= info.fields@.len(),
                        fuel > 0,
                        scalar_align(t@) is None,
                    decreases info.fields.len() - f,
                {
                    let field_align = self.type_align_with(info.fields[f].type_.as_str(), fuel - 1)?;
                    if field_align > align {
                        align = field_align;
                    }
                    f = f + 1;
                }
                return Ok(align);
            },
            None => {},
        }
        match self.info.enums.get(t) {
            Some(info) => {
                if self.enum_payload_words_with(info, fuel - 1)? == 0 {
                    return Ok(4);
                }
                return Ok(8);
            },
            None => {},
        }
        Err(CodegenError::unsupported(concat("align of type ", quote(t).as_str()).as_str()))
    }

    /// The size in bytes of a value of type `t`.
    pub fn type_size(&self, t: &str) -> (r: Result<i32, CodegenError>)
        ensures
            scalar_size(t@) is Some ==> (r matches Ok(v) && v == scalar_size(t@)->0),
    {
        let fuel = self.layout_fuel(t);
        self.type_size_with(t, fuel)
    }

    /// The alignment in bytes of a value of type `t`.
    pub fn type_align(&self, t: &str) -> (r: Result<i32, CodegenError>)
        ensures
            scalar_align(t@) is Some ==> (r matches Ok(v) && v == scalar_align(t@)->0),
    {
        let fuel = self.layout_fuel(t);
        self.type_align_with(t, fuel)
    }

    fn llvm_type_with(&self, t: &str, fuel: usize) -> (r: Result<String, CodegenError>)
        ensures
            scalar_llvm_type(t@) is Some ==> (r matches Ok(v) && v@ == scalar_llvm_type(t@)->0),
            crate::checker::types::array_parts(t@) is None ==> r is Ok,
        decreases fuel,
    {
        proof {
            if scalar_size(t@) is Some || scalar_align(t@) is Some || scalar_llvm_type(t@) is Some {
                lemma_scalar_spelling(t@);
            }
        }
        match strip_prefix(t, "!") {
            Some(inner) => {
                return Ok(result_type_name(inner.as_str()));
            },
            None => {},
        }
        if str_eq(t, "void") || str_eq(t, "noreturn") {
            return Ok(owned("void"));
        }
        if str_eq(t, "bool") {
            return Ok(owned("i1"));
        }
        if str_eq(t, "i32") || str_eq(t, "error") {
            return Ok(owned("i32"));
        }
        if str_eq(t, "i64") {
            return Ok(owned("i64"));
        }
        if str_eq(t, "str") {
            return Ok(owned("%yar.str"));
        }
        if parse_pointer_type(t).is_some() {
            return Ok(owned("ptr"));
        }
        if parse_function_type(t).is_some() {
            return Ok(owned("%yar.closure"));
        }
        if parse_map_type(t).is_some() || parse_chan_type(t).is_some() {
            return Ok(owned("ptr"));
        }
        if parse_slice_type(t).is_some() {
            return Ok(owned("%yar.slice"));
        }
        if self.info.interfaces.contains_key(t) {
            return Ok(owned("%yar.iface"));
        }
        match parse_array_type(t) {
            Some((len, elem)) => {
                if fuel == 0 {
                    return Err(CodegenError::unsupported(concat("llvm type of ", quote(t).as_str()).as_str()));
                }
                let inner = self.llvm_type_with(elem.as_str(), fuel - 1)?;
                return Ok(cat(vec!["[", usize_text(len).as_str(), " x ", inner.as_str(), "]"]));
            },
            None => {},
        }
        Ok(struct_type_name(t))
    }

    /// The LLVM type of values of type `t`.
    pub fn llvm_type(&self, t: &str) -> (r: Result<String, CodegenError>)
        ensures
            scalar_llvm_type(t@) is Some ==> (r matches Ok(v) && v@ == scalar_llvm_type(t@)->0),
            crate::checker::types::array_parts(t@) is None ==> r is Ok,
    {
        let fuel = t.unicode_len();
        self.llvm_type_with(t, fuel)
    }

    /// The LLVM type literal of an errorable result of `t`: the error flag, the
    /// error code, then the value unless it is `void`.
    pub fn result_struct_literal(&self, t: &str) -> (r: Result<String, CodegenError>)
        ensures
            t@ == "void"@ ==> (r matches Ok(v) && v@ == "{ i1, i32 }"@),
            t@ != "void"@ && scalar_llvm_type(t@) is Some ==> (r matches Ok(v) && v@ == "{ i1, i32, "@
                + scalar_llvm_type(t@)->0 + " }"@),
    {
        if str_eq(t, "void") {
            return Ok(owned("{ i1, i32 }"));
        }
        let inner = self.llvm_type_without_interfaces(t)?;
        let parts = vec!["{ i1, i32, ", inner.as_str(), " }"];
        proof {
            let ps = parts@;
            reveal_with_fuel(crate::text::concat_all, 4);
            assert(ps.drop_last().drop_last().drop_last() =~= Seq::<&str>::empty());
            assert(ps.drop_last().drop_last().last() == "{ i1, i32, ");
            assert(ps.drop_last().last()@ == inner@);
            assert(crate::text::concat_all(ps) =~= "{ i1, i32, "@ + inner@ + " }"@);
        }
        Ok(cat(parts))
    }

    /// The LLVM type of `t` by the type's spelling alone (interfaces are not
    /// told apart from structs).
    pub fn llvm_type_without_interfaces(&self, t: &str) -> (r: Result<String, CodegenError>)
        ensures
            scalar_llvm_type(t@) is Some ==> (r matches Ok(v) && v@ == scalar_llvm_type(t@)->0),
    {
        free_llvm_type(t, t.unicode_len())
    }
}

/// The LLVM type of `t` by its spelling alone.
pub fn free_llvm_type(t: &str, fuel: usize) -> (r: Result<String, CodegenError>)
    ensures
        scalar_llvm_type(t@) is Some ==> (r matches Ok(v) && v@ == scalar_llvm_type(t@)->0),
    decreases fuel,
{
    proof {
        if scalar_llvm_type(t@) is Some {
            lemma_scalar_spelling(t@);
        }
    }
    match strip_prefix(t, "!") {
        Some(inner) => {
            return Ok(result_type_name(inner.as_str()));
        },
        None => {},
    }
    if str_eq(t, "void") || str_eq(t, "noreturn") {
        return Ok(owned("void"));
    }
    if str_eq(t, "bool") {
        return Ok(owned("i1"));
    }
    if str_eq(t, "i32") || str_eq(t, "error") {
        return Ok(owned("i32"));
    }
    if str_eq(t, "i64") {
        return Ok(owned("i64"));
    }
    if str_eq(t, "str") {
        return Ok(owned("%yar.str"));
    }
    if parse_pointer_type(t).is_some() {
        return Ok(owned("ptr"));
    }
    if parse_function_type(t).is_some() {
        return Ok(owned("%yar.closure"));
    }
    if parse_map_type(t).is_some() || parse_chan_type(t).is_some() {
        return Ok(owned("ptr"));
    }
    if parse_slice_type(t).is_some() {
        return Ok(owned("%yar.slice"));
    }
    match parse_array_type(t) {
        Some((len, elem)) => {
            if fuel == 0 {
                return Err(CodegenError::unsupported(concat("llvm type of ", quote(t).as_str()).as_str()));
            }
            let inner = free_llvm_type(elem.as_str(), fuel - 1)?;
            return Ok(cat(vec!["[", usize_text(len).as_str(), " x ", inner.as_str(), "]"]));
        },
        None => {},
    }
    Ok(struct_type_name(t))
}

/// `s` with each run of equal neighbours kept once.
pub open spec fn dedup_adjacent(s: Seq<Seq<char>>) -> Seq<Seq<char>>
    decreases s.len(),
{
    if s.len() == 0 {
        s
    } else {
        let rest = dedup_adjacent(s.drop_last());
        if rest.len() > 0 && rest.last() == s.last() {
            rest
        } else {
            rest.push(s.last())
        }
    }
}

/// A sorted list without its repeated entries.
pub fn dedup_sorted(v: Vec<String>) -> (out: Vec<String>)
    ensures
        name_views(out@) == dedup_adjacent(name_views(v@)),
{
    let mut out: Vec<String> = Vec::new();
    let mut i: usize = 0;
    while i < v.len()
        invariant
            i <= v@.len(),
            name_views(out@) == dedup_adjacent(name_views(v@).subrange(0, i as int)),
        decreases v.len() - i,
    {
        proof {
            assert(name_views(v@).subrange(0, i + 1).drop_last() =~= name_views(v@).subrange(0, i as int));
            assert(name_views(v@).subrange(0, i + 1).last() == v@[i as int]@);
        }
        let ghost before = out@;
        if out.len() == 0 || !str_eq(out[out.len() - 1].as_str(), v[i].as_str()) {
            out.push(v[i].clone());
            assert(name_views(out@) =~= name_views(before).push(v@[i as int]@));
        }
        i = i + 1;
    }
    assert(name_views(v@).subrange(0, v@.len() as int) =~= name_views(v@));
    out
}

fn append_all(out: &mut String, parts: &Vec<String>)
    ensures
        final(out)@ == old(out)@ + lines_text(parts@),
{
    let mut i: usize = 0;
    while i < parts.len()
        invariant
            i <= parts@.len(),
            out@ == old(out)@ + lines_text(parts@.subrange(0, i as int)),
        decreases parts.len() - i,
    {
        proof {
            assert(parts@.subrange(0, i + 1).drop_last() =~= parts@.subrange(0, i as int));
            reveal_strlit("\n");
        }
        out.append(parts[i].as_str());
        out.append("\n");
        i = i + 1;
    }
    assert(parts@.subrange(0, parts@.len() as int) =~= parts@);
}

/// The name a function has in messages: `Type.method` for a method.
pub fn function_signature_name(function: &FunctionDecl) -> (s: String)
    ensures
        function.receiver is None ==> s@ == function.name@,
        function.receiver matches Some(receiver) ==> s@ == crate::checker::types::receiver_base(
            type_text(receiver.type_ref),
        ) + "."@ + function.name@,
{
    match &function.receiver {
        Some(receiver) => {
            let t = receiver.type_ref.display();
            let base = crate::checker::types::method_receiver_base_type(t.as_str());
            let parts = vec![base.as_str(), ".", function.name.as_str()];
            proof {
                reveal_with_fuel(crate::text::concat_all, 4);
                assert(parts@.drop_last().drop_last().drop_last() =~= Seq::<&str>::empty());
            }
            cat(parts)
        },
        None => function.name.clone(),
    }
}

/// Each string followed by a newline, in order.
pub open spec fn lines_text(parts: Seq<String>) -> Seq<char>
    decreases parts.len(),
{
    if parts.len() == 0 {
        Seq::empty()
    } else {
        lines_text(parts.drop_last()) + parts.last()@ + "\n"@
    }
}

/// The declarations of the runtime's functions, one a line, then a blank line.
pub open spec fn runtime_declarations_text() -> Seq<char> {
    RUNTIME_DECLARATIONS@
}

/// The declarations of the runtime's functions, one a line, then a blank line.
pub const RUNTIME_DECLARATIONS: &'static str = "declare void @yar_print(ptr, i64)\n\
     declare void @yar_panic(ptr, i64)\n\
     declare void @yar_eprint(ptr, i64)\n\
     declare ptr @yar_alloc(i64)\n\
     declare ptr @yar_alloc_zeroed(i64)\n\
     declare void @yar_pointer_check(ptr)\n\
     declare void @yar_i32_divrem_check(i32, i32)\n\
     declare void @yar_i64_divrem_check(i64, i64)\n\
     declare ptr @yar_map_new(i32, i32, i32)\n\
     declare void @yar_map_set(ptr, ptr, ptr)\n\
     declare i32 @yar_map_get(ptr, ptr, ptr)\n\
     declare i32 @yar_map_has(ptr, ptr)\n\
     declare void @yar_map_delete(ptr, ptr)\n\
     declare i32 @yar_map_len(ptr)\n\
     declare void @yar_map_keys(ptr, ptr)\n\
     declare void @yar_array_index_check(i64, i64)\n\
     declare void @yar_slice_index_check(i64, i64)\n\
     declare void @yar_slice_range_check(i64, i64, i64)\n\
     declare void @yar_str_index_check(i64, i64)\n\
     declare i32 @yar_str_equal(ptr, i64, ptr, i64)\n\
     declare void @yar_str_concat(ptr, i64, ptr, i64, ptr)\n\
     declare void @yar_str_from_byte(i32, ptr)\n\
     declare void @yar_to_str_i32(i32, ptr)\n\
     declare void @yar_to_str_i64(i64, ptr)\n\
     declare i64 @yar_sb_new()\n\
     declare void @yar_sb_write(i64, ptr, i64)\n\
     declare void @yar_sb_string(i64, ptr)\n\
     declare i32 @yar_fs_read_file(ptr, ptr)\n\
     declare i32 @yar_fs_write_file(ptr, ptr)\n\
     declare i32 @yar_fs_read_dir(ptr, ptr)\n\
     declare i32 @yar_fs_stat(ptr, ptr)\n\
     declare i32 @yar_fs_mkdir_all(ptr)\n\
     declare i32 @yar_fs_remove_all(ptr)\n\
     declare i32 @yar_fs_temp_dir(ptr, ptr)\n\
     declare i32 @yar_fs_open_read(ptr, ptr)\n\
     declare i32 @yar_fs_open_write(ptr, ptr)\n\
     declare i32 @yar_fs_read_handle(i64, i32, ptr)\n\
     declare i32 @yar_fs_write_handle(i64, ptr, ptr)\n\
     declare i32 @yar_fs_close_handle(i64)\n\
     declare i32 @yar_net_listen(ptr, i32, ptr)\n\
     declare i32 @yar_net_accept(i64, ptr)\n\
     declare i32 @yar_net_listener_addr(i64, ptr)\n\
     declare i32 @yar_net_close_listener(i64)\n\
     declare i32 @yar_net_connect(ptr, i32, ptr)\n\
     declare i32 @yar_net_read(i64, i32, ptr)\n\
     declare i32 @yar_net_write(i64, ptr, ptr)\n\
     declare i32 @yar_net_close(i64)\n\
     declare i32 @yar_net_local_addr(i64, ptr)\n\
     declare i32 @yar_net_remote_addr(i64, ptr)\n\
     declare i32 @yar_net_set_read_deadline(i64, i32)\n\
     declare i32 @yar_net_set_write_deadline(i64, i32)\n\
     declare i32 @yar_net_resolve(ptr, i32, ptr)\n\
     declare void @yar_process_args(ptr)\n\
     declare i32 @yar_process_run(ptr, i64, i64, i64, ptr, ptr)\n\
     declare i32 @yar_process_run_inherit(ptr, i64, ptr, ptr)\n\
     declare i32 @yar_env_lookup(ptr, ptr)\n\
     declare ptr @yar_taskgroup_new(i64)\n\
     declare void @yar_taskgroup_spawn(ptr, ptr, ptr)\n\
     declare void @yar_taskgroup_wait(ptr, ptr)\n\
     declare ptr @yar_chan_new(i64, i32)\n\
     declare i32 @yar_chan_send(ptr, ptr)\n\
     declare i32 @yar_chan_recv(ptr, ptr)\n\
     declare void @yar_chan_close(ptr)\n\
     declare void @llvm.memcpy.p0.p0.i64(ptr, ptr, i64, i1)\n\
     declare void @yar_gc_init_stack_top(ptr)\n\
     declare void @yar_set_args(i32, ptr)\n\n";

/// The declarations of the runtime's functions.
fn append_runtime_declarations(out: &mut String)
    ensures
        final(out)@ == old(out)@ + runtime_declarations_text(),
{
    out.append(RUNTIME_DECLARATIONS);
}

} // verus!
