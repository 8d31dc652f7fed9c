//! The spellings code generation uses: LLVM identifiers, symbol and type names,
//! escaped string constants, and the small tables of the runtime's ABI.
use vstd::prelude::*;
use vstd::string::StringSliceAdditionalSpecFns;

use crate::ast::Expression;
use crate::checker::types::{
    fs_intrinsic, is_env_host_intrinsic, is_fs_host_intrinsic, is_net_host_intrinsic, is_process_host_intrinsic,
    net_intrinsic,
};
use crate::text::{cat, concat, concat3, owned, push_char, str_eq, usize_decimal};
use crate::token::Kind;

verus! {

/// Why code generation stopped: a construct it does not lower.
#[derive(Clone, Debug, PartialEq, Eq)]
pub struct CodegenError {
    pub message: String,
}

impl CodegenError {
    /// An error for a construct that code generation does not support.
    pub fn unsupported(feature: &str) -> (e: CodegenError)
        ensures
            e.message@ == "unsupported Rust codegen feature: "@ + feature@,
    {
        CodegenError { message: concat("unsupported Rust codegen feature: ", feature) }
    }

    /// The text of the error.
    pub fn message(&self) -> (s: String)
        ensures
            s@ == self.message@,
    {
        self.message.clone()
    }
}

/// A hexadecimal digit, lower or upper case.
pub open spec fn hex_digit(d: nat, upper: bool) -> char {
    if d < 10 {
        ((48 + d) as u8) as char
    } else if upper {
        ((55 + d) as u8) as char
    } else {
        ((87 + d) as u8) as char
    }
}

fn hex_char(d: u8, upper: bool) -> (c: char)
    requires
        d < 16,
    ensures
        c == hex_digit(d as nat, upper),
{
    if d < 10 {
        (48u8 + d) as char
    } else if upper {
        (55u8 + d) as char
    } else {
        (87u8 + d) as char
    }
}

/// Whether a byte stays as it is in an LLVM label: an ASCII letter or digit,
/// `_` or `.`.
pub open spec fn label_byte(b: u8) -> bool {
    (48 <= b <= 57) || (65 <= b <= 90) || (97 <= b <= 122) || b == 95 || b == 46
}

/// The label spelling of a byte: itself, or `_` and two lower-case hex digits.
pub open spec fn label_piece(b: u8) -> Seq<char> {
    if label_byte(b) {
        seq![b as char]
    } else {
        seq!['_', hex_digit((b / 16) as nat, false), hex_digit((b % 16) as nat, false)]
    }
}

/// The label spelling of a byte string.
pub open spec fn sanitized(bs: Seq<u8>) -> Seq<char>
    decreases bs.len(),
{
    if bs.len() == 0 {
        Seq::empty()
    } else {
        sanitized(bs.drop_last()) + label_piece(bs.last())
    }
}

/// A name made safe for an LLVM identifier: each byte of its UTF-8 encoding
/// that is not an ASCII letter, digit, `_` or `.` becomes `_` and two hex digits.
pub fn sanitize_label(name: &str) -> (s: String)
    ensures
        s@ == sanitized(name.spec_bytes()),
{
    let bytes = name.as_bytes();
    let mut out = String::new();
    let mut i: usize = 0;
    while i < bytes.len()
        invariant
            i <= bytes@.len(),
            bytes@ == name.spec_bytes(),
            out@ == sanitized(bytes@.subrange(0, i as int)),
        decreases bytes.len() - i,
    {
        let b = bytes[i];
        if (48 <= b && b <= 57) || (65 <= b && b <= 90) || (97 <= b && b <= 122) || b == 95 || b == 46 {
            push_char(&mut out, b as char);
        } else {
            push_char(&mut out, '_');
            push_char(&mut out, hex_char(b / 16, false));
            push_char(&mut out, hex_char(b % 16, false));
        }
        i = i + 1;
        proof {
            let cur = bytes@.subrange(0, i as int);
            assert(cur.drop_last() =~= bytes@.subrange(0, i - 1));
            assert(cur.last() == b);
            assert(out@ =~= sanitized(cur));
        }
    }
    assert(bytes@.subrange(0, bytes@.len() as int) =~= bytes@);
    out
}

/// The spelling of a byte inside an LLVM string constant.
pub open spec fn escaped_piece(b: u8) -> Seq<char> {
    if b == 92 {
        "\\5C"@
    } else if b == 34 {
        "\\22"@
    } else if 32 <= b <= 126 {
        seq![b as char]
    } else {
        seq!['\\', hex_digit((b / 16) as nat, true), hex_digit((b % 16) as nat, true)]
    }
}

/// The spelling of a byte string inside an LLVM string constant.
pub open spec fn escaped(bs: Seq<u8>) -> Seq<char>
    decreases bs.len(),
{
    if bs.len() == 0 {
        Seq::empty()
    } else {
        escaped(bs.drop_last()) + escaped_piece(bs.last())
    }
}

/// The UTF-8 bytes of a string as the body of an LLVM `c"..."` constant:
/// printable ASCII as it is, `\` and `"` and every other byte as `\` and two
/// upper-case hex digits.
pub fn escape_llvm_string(value: &str) -> (s: String)
    ensures
        s@ == escaped(value.spec_bytes()),
{
    let bytes = value.as_bytes();
    let mut out = String::new();
    let mut i: usize = 0;
    while i < bytes.len()
        invariant
            i <= bytes@.len(),
            bytes@ == value.spec_bytes(),
            out@ == escaped(bytes@.subrange(0, i as int)),
        decreases bytes.len() - i,
    {
        let b = bytes[i];
        let ghost before = out@;
        if b == 92 {
            out.append("\\5C");
        } else if b == 34 {
            out.append("\\22");
        } else if 32 <= b && b <= 126 {
            push_char(&mut out, b as char);
        } else {
            push_char(&mut out, '\\');
            push_char(&mut out, hex_char(b / 16, true));
            push_char(&mut out, hex_char(b % 16, true));
        }
        i = i + 1;
        proof {
            let cur = bytes@.subrange(0, i as int);
            assert(cur.drop_last() =~= bytes@.subrange(0, i - 1));
            assert(cur.last() == b);
            assert(out@ =~= before + escaped_piece(b));
            assert(out@ =~= escaped(cur));
        }
    }
    assert(bytes@.subrange(0, bytes@.len() as int) =~= bytes@);
    out
}

/// The LLVM symbol of a function: `yar.` and its sanitized name.
pub fn function_symbol(name: &str) -> (s: String)
    ensures
        s@ == "yar."@ + sanitized(name.spec_bytes()),
{
    concat("yar.", sanitize_label(name).as_str())
}

/// The LLVM type of the result of an errorable function returning `type_`.
pub fn result_type_name(type_: &str) -> (s: String)
    ensures
        s@ == "%yar.result."@ + sanitized(type_.spec_bytes()),
{
    concat("%yar.result.", sanitize_label(type_).as_str())
}

/// The LLVM type of a struct.
pub fn struct_type_name(name: &str) -> (s: String)
    ensures
        s@ == "%yar.struct."@ + sanitized(name.spec_bytes()),
{
    concat("%yar.struct.", sanitize_label(name).as_str())
}

/// The errorable type of values of `type_`.
pub fn errorable_type(type_: &str) -> (s: String)
    ensures
        s@ == "!"@ + type_@,
{
    concat("!", type_)
}

/// The LLVM instruction of an arithmetic operator.
pub fn arithmetic_op(operator: Kind) -> (r: Result<&'static str, CodegenError>)
    ensures
        operator == Kind::Plus ==> r == Ok::<&'static str, CodegenError>("add"),
        operator == Kind::Minus ==> r == Ok::<&'static str, CodegenError>("sub"),
        operator == Kind::Star ==> r == Ok::<&'static str, CodegenError>("mul"),
        operator == Kind::Slash ==> r == Ok::<&'static str, CodegenError>("sdiv"),
        operator == Kind::Percent ==> r == Ok::<&'static str, CodegenError>("srem"),
        r is Err <==> !(operator == Kind::Plus || operator == Kind::Minus || operator == Kind::Star
            || operator == Kind::Slash || operator == Kind::Percent),
{
    match operator {
        Kind::Plus => Ok("add"),
        Kind::Minus => Ok("sub"),
        Kind::Star => Ok("mul"),
        Kind::Slash => Ok("sdiv"),
        Kind::Percent => Ok("srem"),
        _ => Err(CodegenError::unsupported("binary operator")),
    }
}

/// The host package whose errors a host intrinsic reports.
pub fn host_error_owner(name: &str) -> (r: Option<&'static str>)
    ensures
        fs_intrinsic(name@) ==> r == Some("fs"),
        !fs_intrinsic(name@) && (name@ == "process.run"@ || name@ == "process.run_inherit"@) ==> r == Some(
            "process",
        ),
        !fs_intrinsic(name@) && !(name@ == "process.run"@ || name@ == "process.run_inherit"@) && name@
            == "env.lookup"@ ==> r == Some("env"),
        !fs_intrinsic(name@) && !(name@ == "process.run"@ || name@ == "process.run_inherit"@) && name@
            != "env.lookup"@ && net_intrinsic(name@) ==> r == Some("net"),
        !fs_intrinsic(name@) && !(name@ == "process.run"@ || name@ == "process.run_inherit"@) && name@
            != "env.lookup"@ && !net_intrinsic(name@) ==> r is None,
{
    if is_fs_host_intrinsic(name) {
        Some("fs")
    } else if is_process_host_intrinsic(name) {
        Some("process")
    } else if is_env_host_intrinsic(name) {
        Some("env")
    } else if is_net_host_intrinsic(name) {
        Some("net")
    } else {
        None
    }
}

/// The error name that a host error has in a program: `error.Closed` for a
/// closed channel or handle, else `<owner>.<name>`.
pub fn host_error_identity(owner: &str, name: &str) -> (s: String)
    ensures
        name@ == "Closed"@ ==> s@ == "error.Closed"@,
        name@ != "Closed"@ ==> s@ == owner@ + "."@ + name@,
{
    if str_eq(name, "Closed") {
        owned("error.Closed")
    } else {
        concat3(owner, ".", name)
    }
}

/// The LLVM type of an interface's method table.
pub fn interface_table_type_name(name: &str) -> (s: String)
    ensures
        s@ == "%yar.iface.table."@ + sanitized(name.spec_bytes()),
{
    concat("%yar.iface.table.", sanitize_label(name).as_str())
}

/// `count` entries `ptr`, separated by `, `.
pub open spec fn ptr_list(count: nat) -> Seq<char>
    decreases count,
{
    if count == 0 {
        Seq::empty()
    } else if count == 1 {
        "ptr"@
    } else {
        ptr_list((count - 1) as nat) + ", "@ + "ptr"@
    }
}

/// The LLVM type literal of a method table with `method_count` entries.
pub fn interface_table_literal(method_count: usize) -> (s: String)
    ensures
        method_count == 0 ==> s@ == "{ }"@,
        method_count > 0 ==> s@ == "{ "@ + ptr_list(method_count as nat) + " }"@,
{
    if method_count == 0 {
        return owned("{ }");
    }
    let mut out = owned("{ ");
    let mut i: usize = 0;
    while i < method_count
        invariant
            i <= method_count,
            out@ == "{ "@ + ptr_list(i as nat),
        decreases method_count - i,
    {
        proof {
            reveal_strlit("ptr");
            reveal_strlit(", ");
        }
        if i > 0 {
            out.append(", ");
        }
        out.append("ptr");
        i = i + 1;
    }
    out.append(" }");
    out
}

/// The global holding the method table of `concrete_type` for `interface_type`.
pub fn interface_table_global_name(interface_type: &str, concrete_type: &str) -> (s: String)
    ensures
        s@ == "yar.iface.table."@ + sanitized(interface_type.spec_bytes()) + "."@ + sanitized(
            concrete_type.spec_bytes(),
        ),
{
    let mut s = concat3("yar.iface.table.", sanitize_label(interface_type).as_str(), ".");
    s.append(sanitize_label(concrete_type).as_str());
    s
}

/// The name of the function that adapts a concrete method to an interface slot.
pub fn interface_adapter_name(interface_type: &str, concrete_type: &str, method: &str) -> (s: String)
    ensures
        s@ == "iface.adapter."@ + sanitized(interface_type.spec_bytes()) + "."@ + sanitized(
            concrete_type.spec_bytes(),
        ) + "."@ + sanitized(method.spec_bytes()),
{
    let mut s = concat3("iface.adapter.", sanitize_label(interface_type).as_str(), ".");
    s.append(sanitize_label(concrete_type).as_str());
    s.append(".");
    s.append(sanitize_label(method).as_str());
    s
}

/// The runtime's code for a map key type.
pub fn map_key_kind(type_: &str) -> (r: Result<i32, CodegenError>)
    ensures
        type_@ == "bool"@ ==> r == Ok::<i32, CodegenError>(0),
        type_@ == "i32"@ ==> r == Ok::<i32, CodegenError>(1),
        type_@ == "i64"@ ==> r == Ok::<i32, CodegenError>(2),
        type_@ == "str"@ ==> r == Ok::<i32, CodegenError>(3),
        r is Err <==> !(type_@ == "bool"@ || type_@ == "i32"@ || type_@ == "i64"@ || type_@
            == "str"@),
{
    proof {
        reveal_strlit("bool");
        reveal_strlit("i32");
        reveal_strlit("i64");
        reveal_strlit("str");
        assert("i32"@[1] != "i64"@[1] && "str"@[0] != "i32"@[0] && "str"@[0] != "i64"@[0]);
    }
    if str_eq(type_, "bool") {
        Ok(0)
    } else if str_eq(type_, "i32") {
        Ok(1)
    } else if str_eq(type_, "i64") {
        Ok(2)
    } else if str_eq(type_, "str") {
        Ok(3)
    } else {
        Err(CodegenError::unsupported(cat(vec!["map key type ", crate::text::quote(type_).as_str()]).as_str()))
    }
}

/// `size` rounded up to a multiple of `align`; an error for a non-positive
/// alignment or a size that overflows `i32`.
pub fn align_to(size: i32, align: i32) -> (r: Result<i32, CodegenError>)
    ensures
        align <= 0 ==> r is Err,
        align > 0 && 0 <= size + (align - 1) <= i32::MAX ==> r == Ok::<i32, CodegenError>(
            ((size + align - 1) / (align as int) * (align as int)) as i32,
        ),
        align > 0 && size + (align - 1) < 0 ==> r is Ok,
        align > 0 && size + (align - 1) > i32::MAX ==> r is Err,
{
    if align <= 0 {
        return Err(CodegenError::unsupported("invalid type alignment"));
    }
    match size.checked_add(align - 1) {
        Some(adjusted) => {
            if adjusted >= 0 {
                assert(adjusted / align * align <= adjusted) by (nonlinear_arith)
                    requires
                        adjusted >= 0,
                        align > 0,
                ;
                assert(adjusted / align * align >= 0) by (nonlinear_arith)
                    requires
                        adjusted >= 0,
                        align > 0,
                ;
                Ok(adjusted / align * align)
            } else if align == 1 {
                Ok(adjusted)
            } else {
                // Division truncates toward zero: round the magnitude down.
                let magnitude = -adjusted;
                assert(magnitude / align * align <= magnitude) by (nonlinear_arith)
                    requires
                        magnitude >= 0,
                        align > 0,
                ;
                assert(magnitude / align * align >= 0) by (nonlinear_arith)
                    requires
                        magnitude >= 0,
                        align > 0,
                ;
                Ok(-(magnitude / align * align))
            }
        },
        None => Err(CodegenError::unsupported("type size overflow")),
    }
}

/// The words that name the kind of an expression in a message.
pub open spec fn expression_kind_name(expression: Expression) -> Seq<char> {
    match expression {
        Expression::Ident(_) => "identifier"@,
        Expression::Int(_) => "integer literal"@,
        Expression::Char(_) => "character literal"@,
        Expression::String(_) => "string literal"@,
        Expression::Bool(_) => "bool literal"@,
        Expression::Nil(_) => "nil"@,
        Expression::Error(_) => "error literal"@,
        Expression::TypeApplication(_) => "type application"@,
        Expression::Call(_) => "call"@,
        Expression::FunctionLiteral(_) => "function literal"@,
        Expression::Taskgroup(_) => "taskgroup"@,
        Expression::Unary(_) => "unary expression"@,
        Expression::Binary(_) => "binary expression"@,
        Expression::Group(_) => "grouped expression"@,
        Expression::Selector(_) => "selector"@,
        Expression::Index(_) => "index"@,
        Expression::Slice(_) => "slice"@,
        Expression::StructLiteral(_) => "struct literal"@,
        Expression::ArrayLiteral(_) => "array literal"@,
        Expression::SliceLiteral(_) => "slice literal"@,
        Expression::MapLiteral(_) => "map literal"@,
        Expression::Propagate(_) => "propagate"@,
        Expression::Handle(_) => "handle"@,
        Expression::Missing(_) => "missing expression"@,
    }
}

/// What an expression is, in an error message.
pub fn expression_name(expression: &Expression) -> (s: &'static str)
    ensures
        s@ == expression_kind_name(*expression),
{
    match expression {
        Expression::Ident(_) => "identifier",
        Expression::Int(_) => "integer literal",
        Expression::Char(_) => "character literal",
        Expression::String(_) => "string literal",
        Expression::Bool(_) => "bool literal",
        Expression::Nil(_) => "nil",
        Expression::Error(_) => "error literal",
        Expression::TypeApplication(_) => "type application",
        Expression::Call(_) => "call",
        Expression::FunctionLiteral(_) => "function literal",
        Expression::Taskgroup(_) => "taskgroup",
        Expression::Unary(_) => "unary expression",
        Expression::Binary(_) => "binary expression",
        Expression::Group(_) => "grouped expression",
        Expression::Selector(_) => "selector",
        Expression::Index(_) => "index",
        Expression::Slice(_) => "slice",
        Expression::StructLiteral(_) => "struct literal",
        Expression::ArrayLiteral(_) => "array literal",
        Expression::SliceLiteral(_) => "slice literal",
        Expression::MapLiteral(_) => "map literal",
        Expression::Propagate(_) => "propagate",
        Expression::Handle(_) => "handle",
        Expression::Missing(_) => "missing expression",
    }
}

/// The `i32` decimal spelling.
pub fn i32_text(n: i32) -> (s: String)
    ensures
        s@ == crate::text::signed_decimal(n as int),
{
    crate::text::i64_decimal(n as i64)
}

/// The `usize` decimal spelling.
pub fn usize_text(n: usize) -> (s: String)
    ensures
        s@ == crate::text::decimal(n as nat),
{
    usize_decimal(n)
}

/// The types joined by `, ` (each already an LLVM spelling).
pub fn join_comma(parts: &Vec<String>) -> (s: String)
    ensures
        s@ == crate::checker::calls::joined(parts@),
{
    let mut out = String::new();
    let mut i: usize = 0;
    while i < parts.len()
        invariant
            i <= parts@.len(),
            out@ == crate::checker::calls::joined(parts@.subrange(0, i as int)),
        decreases parts.len() - i,
    {
        if i > 0 {
            out.append(", ");
        }
        out.append(parts[i].as_str());
        i = i + 1;
        proof {
            let cur = parts@.subrange(0, i as int);
            assert(cur.drop_last() =~= parts@.subrange(0, i - 1));
            if i == 1 {
                assert(crate::checker::calls::joined(cur) == cur[0]@);
            }
            assert(out@ =~= crate::checker::calls::joined(cur));
        }
    }
    assert(parts@.subrange(0, parts@.len() as int) =~= parts@);
    out
}

} // verus!
