//! The spelling of checked types, and what can be read off a type's spelling.
//!
//! The checker names every type by a string: `i32`, `*Point`, `[]str`, `[4]i64`,
//! `map[str]i32`, `chan[i32]`, `!str`, `fn(i32, str) !bool`, `Result.Ok`.
use vstd::prelude::*;

use crate::ast::{Expression, FunctionDecl, FunctionLiteralExpr};
use crate::lexer::digits_value;
use crate::text::{
    chars_of, concat, concat3, decimal, is_ascii_digit_spec, is_whitespace, push_char, str_eq,
    string_of_range, unicode_whitespace, usize_decimal, starts_with,
};
use crate::token::{Kind, Position};

verus! {

/// The view of an optional string.
pub open spec fn opt_view(o: Option<String>) -> Option<Seq<char>> {
    match o {
        Some(s) => Some(s@),
        None => None,
    }
}

/// The rest of `s` after the prefix `p`, if `s` starts with `p`.
pub open spec fn strip_prefix_spec(s: Seq<char>, p: Seq<char>) -> Option<Seq<char>> {
    if p.len() <= s.len() && s.subrange(0, p.len() as int) == p {
        Some(s.subrange(p.len() as int, s.len() as int))
    } else {
        None
    }
}

/// The rest of `s` after the prefix `p`, if `s` starts with `p`.
pub fn strip_prefix(s: &str, p: &str) -> (r: Option<String>)
    ensures
        opt_view(r) == strip_prefix_spec(s@, p@),
{
    if starts_with(s, p) {
        let cs = chars_of(s);
        let n = p.unicode_len();
        Some(string_of_range(&cs, n, cs.len()))
    } else {
        None
    }
}

/// The pointee of a pointer type `*T`.
pub open spec fn pointer_elem(t: Seq<char>) -> Option<Seq<char>> {
    strip_prefix_spec(t, "*"@)
}

/// The value type of an errorable type `!T`.
pub open spec fn errorable_elem(t: Seq<char>) -> Option<Seq<char>> {
    strip_prefix_spec(t, "!"@)
}

/// The element type of a slice type `[]T`.
pub open spec fn slice_elem(t: Seq<char>) -> Option<Seq<char>> {
    strip_prefix_spec(t, "[]"@)
}

/// The element type of a channel type `chan[T]` (with a non-empty `T`).
pub open spec fn chan_elem(t: Seq<char>) -> Option<Seq<char>> {
    match strip_prefix_spec(t, "chan["@) {
        Some(rest) => if rest.len() > 1 && rest.last() == ']' {
            Some(rest.drop_last())
        } else {
            None
        },
        None => None,
    }
}

/// The pointee of a pointer type.
pub fn parse_pointer_type(t: &str) -> (r: Option<String>)
    ensures
        opt_view(r) == pointer_elem(t@),
{
    strip_prefix(t, "*")
}

/// Whether a type is a pointer type.
pub fn is_pointer_type(t: &str) -> (b: bool)
    ensures
        b == pointer_elem(t@) is Some,
{
    parse_pointer_type(t).is_some()
}

/// The value type of an errorable type.
pub fn parse_errorable_type(t: &str) -> (r: Option<String>)
    ensures
        opt_view(r) == errorable_elem(t@),
{
    strip_prefix(t, "!")
}

/// The element type of a slice type.
pub fn parse_slice_type(t: &str) -> (r: Option<String>)
    ensures
        opt_view(r) == slice_elem(t@),
{
    strip_prefix(t, "[]")
}

/// The element type of a channel type.
pub fn parse_chan_type(t: &str) -> (r: Option<String>)
    ensures
        opt_view(r) == chan_elem(t@),
{
    match strip_prefix(t, "chan[") {
        Some(rest) => {
            let cs = chars_of(rest.as_str());
            if cs.len() > 1 && cs[cs.len() - 1] == ']' {
                let elem = string_of_range(&cs, 0, cs.len() - 1);
                assert(elem@ =~= rest@.drop_last());
                Some(elem)
            } else {
                None
            }
        },
        None => None,
    }
}

/// The value of an unsigned decimal with an optional `+`, if it fits in `usize`.
pub open spec fn decimal_usize(t: Seq<char>) -> Option<nat> {
    let digits = if t.len() > 0 && t[0] == '+' {
        t.drop_first()
    } else {
        t
    };
    if digits.len() == 0 || exists|k: int|
        0 <= k < digits.len() && !is_ascii_digit_spec(#[trigger] digits[k]) {
        None
    } else if digits_value(digits) <= usize::MAX {
        Some(digits_value(digits) as nat)
    } else {
        None
    }
}

/// `str::parse::<usize>`: succeeds exactly on an optional `+` followed by ASCII
/// digits whose value fits in `usize`, and then yields that value.
#[verifier::external_body]
fn parse_usize(text: &str) -> (r: Option<usize>)
    ensures
        match r {
            Some(v) => decimal_usize(text@) == Some(v as nat),
            None => decimal_usize(text@) is None,
        },
{
    text.parse::<usize>().ok()
}

/// The index of the first `c` in `s` at or after `i`.
pub open spec fn find_from(s: Seq<char>, c: char, i: nat) -> Option<nat>
    decreases s.len() - i,
{
    if i >= s.len() {
        None
    } else if s[i as int] == c {
        Some(i)
    } else {
        find_from(s, c, i + 1)
    }
}

/// The length and element type of an array type `[N]T` (with a non-empty `T`).
pub open spec fn array_parts(t: Seq<char>) -> Option<(nat, Seq<char>)> {
    match strip_prefix_spec(t, "["@) {
        Some(rest) => match find_from(rest, ']', 0) {
            Some(end) => match decimal_usize(rest.subrange(0, end as int)) {
                Some(n) => if end + 1 < rest.len() {
                    Some((n, rest.subrange(end + 1 as int, rest.len() as int)))
                } else {
                    None
                },
                None => None,
            },
            None => None,
        },
        None => None,
    }
}

fn find_char(cs: &Vec<char>, c: char, from: usize) -> (r: Option<usize>)
    requires
        from <= cs@.len(),
    ensures
        match r {
            Some(i) => find_from(cs@, c, from as nat) == Some(i as nat) && i < cs@.len(),
            None => find_from(cs@, c, from as nat) is None,
        },
    decreases cs@.len() - from,
{
    if from >= cs.len() {
        None
    } else if cs[from] == c {
        Some(from)
    } else {
        find_char(cs, c, from + 1)
    }
}

/// The length and element type of an array type.
pub fn parse_array_type(t: &str) -> (r: Option<(usize, String)>)
    ensures
        match r {
            Some((n, elem)) => array_parts(t@) == Some((n as nat, elem@)),
            None => array_parts(t@) is None,
        },
{
    let rest = match strip_prefix(t, "[") {
        Some(rest) => rest,
        None => return None,
    };
    let cs = chars_of(rest.as_str());
    let end = match find_char(&cs, ']', 0) {
        Some(end) => end,
        None => return None,
    };
    let len_text = string_of_range(&cs, 0, end);
    let n = match parse_usize(len_text.as_str()) {
        Some(n) => n,
        None => return None,
    };
    if end + 1 < cs.len() {
        Some((n, string_of_range(&cs, end + 1, cs.len())))
    } else {
        None
    }
}

/// The index of the `]` that closes a map key starting at `i` with `depth` open brackets.
pub open spec fn map_key_close(s: Seq<char>, i: nat, depth: nat) -> Option<nat>
    decreases s.len() - i,
{
    if i >= s.len() {
        None
    } else if s[i as int] == '[' {
        map_key_close(s, i + 1, depth + 1)
    } else if s[i as int] == ']' && depth == 0 {
        Some(i)
    } else if s[i as int] == ']' {
        map_key_close(s, i + 1, (depth - 1) as nat)
    } else {
        map_key_close(s, i + 1, depth)
    }
}

/// The key and value types of a map type `map[K]V` (both non-empty).
pub open spec fn map_parts(t: Seq<char>) -> Option<(Seq<char>, Seq<char>)> {
    match strip_prefix_spec(t, "map["@) {
        Some(rest) => match map_key_close(rest, 0, 0) {
            Some(idx) => if idx > 0 && idx + 1 < rest.len() {
                Some((rest.subrange(0, idx as int), rest.subrange(idx + 1 as int, rest.len() as int)))
            } else {
                None
            },
            None => None,
        },
        None => None,
    }
}

/// The key and value types of a map type.
pub fn parse_map_type(t: &str) -> (r: Option<(String, String)>)
    ensures
        match r {
            Some((k, v)) => map_parts(t@) == Some((k@, v@)),
            None => map_parts(t@) is None,
        },
{
    let rest = match strip_prefix(t, "map[") {
        Some(rest) => rest,
        None => return None,
    };
    let cs = chars_of(rest.as_str());
    let mut depth: usize = 0;
    let mut idx: usize = 0;
    let n = cs.len();
    while idx < n
        invariant
            n == cs@.len(),
            cs@ == rest@,
            strip_prefix_spec(t@, "map["@) == Some(rest@),
            idx <= cs@.len(),
            depth <= idx,
            map_key_close(cs@, 0, 0) == map_key_close(cs@, idx as nat, depth as nat),
        decreases cs.len() - idx,
    {
        let ch = cs[idx];
        if ch == '[' {
            depth = depth + 1;
        } else if ch == ']' && depth == 0 {
            if idx == 0 || idx + 1 >= cs.len() {
                return None;
            }
            let key = string_of_range(&cs, 0, idx);
            let value = string_of_range(&cs, idx + 1, cs.len());
            return Some((key, value));
        } else if ch == ']' {
            depth = depth - 1;
        }
        idx = idx + 1;
    }
    None
}

/// The element type of an array or slice type.
pub open spec fn sequence_elem(t: Seq<char>) -> Option<Seq<char>> {
    match array_parts(t) {
        Some((_, e)) => Some(e),
        None => slice_elem(t),
    }
}

/// The element type of an array or slice type.
pub fn sequence_element_type(t: &str) -> (r: Option<String>)
    ensures
        opt_view(r) == sequence_elem(t@),
{
    match parse_array_type(t) {
        Some((_, elem)) => Some(elem),
        None => parse_slice_type(t),
    }
}

/// Whether a type is an array or slice type.
pub fn is_sequence_type(t: &str) -> (b: bool)
    ensures
        b == sequence_elem(t@) is Some,
{
    sequence_element_type(t).is_some()
}

/// Whether a name is one of the builtin scalar types.
pub open spec fn builtin_type_spec(n: Seq<char>) -> bool {
    n == "void"@ || n == "noreturn"@ || n == "bool"@ || n == "i32"@ || n == "i64"@ || n == "str"@
        || n == "error"@
}

/// Whether a name is one of the builtin scalar types.
pub fn is_builtin_type(n: &str) -> (b: bool)
    ensures
        b == builtin_type_spec(n@),
{
    str_eq(n, "void") || str_eq(n, "noreturn") || str_eq(n, "bool") || str_eq(n, "i32")
        || str_eq(n, "i64") || str_eq(n, "str") || str_eq(n, "error")
}

/// Whether a type can key a map: `bool`, `i32`, `i64` or `str`.
pub open spec fn map_key_type_spec(t: Seq<char>) -> bool {
    t == "bool"@ || t == "i32"@ || t == "i64"@ || t == "str"@
}

/// Whether a type can key a map.
pub fn is_map_key_type(t: &str) -> (b: bool)
    ensures
        b == map_key_type_spec(t@),
{
    str_eq(t, "bool") || str_eq(t, "i32") || str_eq(t, "i64") || str_eq(t, "str")
}

/// Whether a type is an integer type: `i32`, `i64` or an untyped integer constant.
pub open spec fn integer_type_spec(t: Seq<char>) -> bool {
    t == "i32"@ || t == "i64"@ || t == "untyped-int"@
}

/// Whether a type is an integer type.
pub fn is_integer_type(t: &str) -> (b: bool)
    ensures
        b == integer_type_spec(t@),
{
    str_eq(t, "i32") || str_eq(t, "i64") || str_eq(t, "untyped-int")
}

/// Whether a type is `void`, `noreturn` or invalid, none of which holds a value.
pub fn is_valueless(t: &str) -> (b: bool)
    ensures
        b == (t@ == "void"@ || t@ == "noreturn"@ || t@ == ""@),
{
    str_eq(t, "void") || str_eq(t, "noreturn") || str_eq(t, "")
}

/// The name of an enum case's payload struct: `Enum.Case`.
pub fn enum_payload_type_name(enum_name: &str, case_name: &str) -> (s: String)
    ensures
        s@ == enum_name@ + "."@ + case_name@,
{
    concat3(enum_name, ".", case_name)
}

/// The struct type a method receiver names: the type without a leading `*`.
pub open spec fn receiver_base(t: Seq<char>) -> Seq<char> {
    match pointer_elem(t) {
        Some(e) => e,
        None => t,
    }
}

/// The struct type a method receiver names.
pub fn method_receiver_base_type(t: &str) -> (s: String)
    ensures
        s@ == receiver_base(t@),
{
    match parse_pointer_type(t) {
        Some(e) => e,
        None => String::from_str(t),
    }
}

/// The full name of a method: `Base.name`.
pub fn method_full_name(receiver: &str, name: &str) -> (s: String)
    ensures
        s@ == receiver_base(receiver@) + "."@ + name@,
{
    let base = method_receiver_base_type(receiver);
    concat3(base.as_str(), ".", name)
}

/// The key under which a declared function's signature is kept: its name, or
/// `Base.name` for a method.
pub fn function_signature_key(function: &FunctionDecl) -> (s: String)
    ensures
        s@ == match function.receiver {
            Some(r) => receiver_base(crate::ast::type_text(r.type_ref)) + "."@ + function.name@,
            None => function.name@,
        },
{
    match &function.receiver {
        Some(receiver) => {
            let text = receiver.type_ref.display();
            method_full_name(text.as_str(), function.name.as_str())
        },
        None => function.name.clone(),
    }
}

/// The name and position of a call target that is a plain identifier.
pub fn call_name(expr: &Expression) -> (r: Option<(String, Position)>)
    ensures
        match r {
            Some((n, p)) => expr matches Expression::Ident(x) && n@ == x.name@ && p@ == x.name_pos@,
            None => !(expr matches Expression::Ident(_)),
        },
{
    match expr {
        Expression::Ident(x) => Some((x.name.clone(), x.name_pos.duplicate())),
        _ => None,
    }
}

/// The function literal that a call target is, looking through parentheses.
pub fn direct_function_literal(expr: &Expression) -> (r: Option<&FunctionLiteralExpr>)
    decreases expr,
{
    match expr {
        Expression::FunctionLiteral(literal) => Some(literal),
        Expression::Group(group) => direct_function_literal(&group.inner),
        _ => None,
    }
}

/// The key under which a function literal's information is kept:
/// `file:line:column`, prefixed by `enclosing@` when it has an enclosing function.
pub open spec fn literal_key(literal: FunctionLiteralExpr) -> Seq<char> {
    let source = literal.fn_pos.file@ + seq![':'] + decimal(literal.fn_pos.line as nat) + seq![
        ':',
    ] + decimal(literal.fn_pos.column as nat);
    if literal.enclosing_function@.len() == 0 {
        source
    } else {
        literal.enclosing_function@ + seq!['@'] + source
    }
}

/// The key under which a function literal's information is kept.
pub fn function_literal_key(literal: &FunctionLiteralExpr) -> (s: String)
    ensures
        s@ == literal_key(*literal),
{
    let mut source = literal.fn_pos.file.clone();
    push_char(&mut source, ':');
    let line = usize_decimal(literal.fn_pos.line);
    source.append(line.as_str());
    push_char(&mut source, ':');
    let column = usize_decimal(literal.fn_pos.column);
    source.append(column.as_str());
    if literal.enclosing_function.as_str().is_empty() {
        assert(source@ =~= literal_key(*literal));
        source
    } else {
        let mut out = literal.enclosing_function.clone();
        push_char(&mut out, '@');
        out.append(source.as_str());
        assert(out@ =~= literal_key(*literal));
        out
    }
}

/// Whether a character may precede an entry-package qualifier that diagnostics drop.
pub open spec fn name_boundary(prev: Option<char>) -> bool {
    match prev {
        None => true,
        Some(c) => c == '*' || c == '!' || c == '[' || c == ']' || c == '(' || c == ')' || c == ','
            || c == ' ',
    }
}

/// The entry package qualifier `main.`.
pub open spec fn main_prefix() -> Seq<char> {
    seq!['m', 'a', 'i', 'n', '.']
}

/// A type spelled for diagnostics from index `i` on, after the character `prev`:
/// every `main.` that starts a type name is dropped.
pub open spec fn strip_entry_package(t: Seq<char>, i: nat, prev: Option<char>) -> Seq<char>
    decreases t.len() - i,
{
    if i >= t.len() {
        Seq::empty()
    } else if i + 5 <= t.len() && t.subrange(i as int, i + 5 as int) == main_prefix() && name_boundary(
        prev,
    ) {
        strip_entry_package(t, i + 5, Some('.'))
    } else {
        seq![t[i as int]] + strip_entry_package(t, i + 1, Some(t[i as int]))
    }
}

fn is_type_name_boundary(prev: Option<char>) -> (b: bool)
    ensures
        b == name_boundary(prev),
{
    match prev {
        None => true,
        Some(c) => c == '*' || c == '!' || c == '[' || c == ']' || c == '(' || c == ')' || c == ','
            || c == ' ',
    }
}

fn has_main_prefix_at(cs: &Vec<char>, i: usize) -> (b: bool)
    requires
        i <= cs@.len(),
    ensures
        b == (i + 5 <= cs@.len() && cs@.subrange(i as int, i + 5) == main_prefix()),
{
    if cs.len() - i < 5 {
        return false;
    }
    let r = cs[i] == 'm' && cs[i + 1] == 'a' && cs[i + 2] == 'i' && cs[i + 3] == 'n' && cs[i
        + 4] == '.';
    if r {
        assert(cs@.subrange(i as int, i + 5) =~= main_prefix());
    } else {
        assert(cs@.subrange(i as int, i + 5) != main_prefix()) by {
            if cs@.subrange(i as int, i + 5) == main_prefix() {
                assert(cs@.subrange(i as int, i + 5)[0] == 'm');
                assert(cs@.subrange(i as int, i + 5)[1] == 'a');
                assert(cs@.subrange(i as int, i + 5)[2] == 'i');
                assert(cs@.subrange(i as int, i + 5)[3] == 'n');
                assert(cs@.subrange(i as int, i + 5)[4] == '.');
            }
        }
    }
    r
}

/// A type as diagnostics spell it: with the entry package qualifier `main.`
/// dropped wherever it starts a type name.
pub fn diagnostic_type_name(t: &str) -> (s: String)
    ensures
        s@ == strip_entry_package(t@, 0, None),
{
    let cs = chars_of(t);
    let mut out = String::new();
    let mut i: usize = 0;
    let mut previous: Option<char> = None;
    while i < cs.len()
        invariant
            i <= cs@.len(),
            cs@ == t@,
            out@ + strip_entry_package(cs@, i as nat, previous) == strip_entry_package(
                cs@,
                0,
                None,
            ),
        decreases cs.len() - i,
    {
        if has_main_prefix_at(&cs, i) && is_type_name_boundary(previous) {
            i = i + 5;
            previous = Some('.');
        } else {
            let ch = cs[i];
            let ghost before = out@;
            push_char(&mut out, ch);
            proof {
                assert(strip_entry_package(cs@, i as nat, previous) == seq![ch]
                    + strip_entry_package(cs@, (i + 1) as nat, Some(ch)));
                assert(out@ + strip_entry_package(cs@, (i + 1) as nat, Some(ch)) =~= before
                    + strip_entry_package(cs@, i as nat, previous));
            }
            previous = Some(ch);
            i = i + 1;
        }
    }
    assert(out@ =~= out@ + Seq::<char>::empty());
    out
}

/// The index of the last `.` outside square brackets at or before index `i`,
/// with `depth` closing brackets seen so far (scanning from the end).
pub open spec fn last_dot_from(s: Seq<char>, i: int, depth: nat) -> Option<nat>
    decreases i + 1,
{
    if i < 0 || i >= s.len() {
        None
    } else if s[i] == ']' {
        last_dot_from(s, i - 1, depth + 1)
    } else if s[i] == '[' && depth > 0 {
        last_dot_from(s, i - 1, (depth - 1) as nat)
    } else if s[i] == '.' && depth == 0 {
        Some(i as nat)
    } else {
        last_dot_from(s, i - 1, depth)
    }
}

/// The index of the last `.` outside square brackets.
pub open spec fn last_top_dot(s: Seq<char>) -> Option<nat> {
    last_dot_from(s, s.len() - 1, 0)
}

fn last_top_level_dot(cs: &Vec<char>) -> (r: Option<usize>)
    ensures
        match r {
            Some(i) => last_top_dot(cs@) == Some(i as nat) && i < cs@.len(),
            None => last_top_dot(cs@) is None,
        },
{
    let mut depth: usize = 0;
    let n = cs.len();
    let mut i: usize = n;
    while i > 0
        invariant
            n == cs@.len(),
            i <= cs@.len(),
            depth <= cs@.len() - i,
            last_top_dot(cs@) == last_dot_from(cs@, i - 1, depth as nat),
        decreases i,
    {
        let idx = i - 1;
        let ch = cs[idx];
        if ch == ']' {
            depth = depth + 1;
        } else if ch == '[' && depth > 0 {
            depth = depth - 1;
        } else if ch == '.' && depth == 0 {
            return Some(idx);
        }
        i = idx;
    }
    None
}

/// The package part of a qualified name: what precedes its last top-level `.`,
/// when that `.` is not the first character; empty otherwise.
pub open spec fn package_part(s: Seq<char>) -> Seq<char> {
    match last_top_dot(s) {
        Some(i) => if i > 0 {
            s.subrange(0, i as int)
        } else {
            Seq::empty()
        },
        None => Seq::empty(),
    }
}

/// The package that declares a type.
pub fn package_for_type(t: &str) -> (s: String)
    ensures
        s@ == package_part(t@),
{
    let cs = chars_of(t);
    match last_top_level_dot(&cs) {
        Some(i) => if i > 0 {
            string_of_range(&cs, 0, i)
        } else {
            String::new()
        },
        None => String::new(),
    }
}

/// The package that declares a function: `main` for `main`, else the package
/// part of its qualified name.
pub fn package_for_function(full_name: &str) -> (s: String)
    ensures
        s@ == if full_name@ == "main"@ {
            "main"@
        } else {
            package_part(full_name@)
        },
{
    if str_eq(full_name, "main") {
        return String::from_str("main");
    }
    package_for_type(full_name)
}

/// The package that declares a method's receiver type.
pub fn package_for_method_receiver(receiver: &str) -> (s: String)
    ensures
        s@ == package_part(receiver_base(receiver@)),
{
    let base = method_receiver_base_type(receiver);
    package_for_type(base.as_str())
}

/// The index of the last `.` in `s` before index `i`, if any.
pub open spec fn last_dot_before(s: Seq<char>, i: int) -> Option<nat>
    decreases i,
{
    if i <= 0 || i > s.len() {
        None
    } else if s[i - 1] == '.' {
        Some((i - 1) as nat)
    } else {
        last_dot_before(s, i - 1)
    }
}

/// How diagnostics name a package: the part after its last `.`.
pub open spec fn package_display(p: Seq<char>) -> Seq<char> {
    match last_dot_before(p, p.len() as int) {
        Some(i) => p.subrange(i + 1 as int, p.len() as int),
        None => p,
    }
}

/// How diagnostics name a package.
pub fn package_display_name(package: &str) -> (s: String)
    ensures
        s@ == package_display(package@),
{
    let cs = chars_of(package);
    let mut i: usize = cs.len();
    while i > 0
        invariant
            cs@ == package@,
            i <= cs@.len(),
            last_dot_before(cs@, cs@.len() as int) == last_dot_before(cs@, i as int),
        decreases i,
    {
        if cs[i - 1] == '.' {
            return string_of_range(&cs, i, cs.len());
        }
        i = i - 1;
    }
    String::from_str(package)
}

/// The name of a host function family: filesystem intrinsics.
pub open spec fn fs_intrinsic(n: Seq<char>) -> bool {
    n == "fs.read_file"@ || n == "fs.write_file"@ || n == "fs.read_dir"@ || n == "fs.stat"@ || n
        == "fs.mkdir_all"@ || n == "fs.remove_all"@ || n == "fs.temp_dir"@ || n
        == "fs.open_read_handle"@ || n == "fs.open_write_handle"@ || n == "fs.read_handle"@ || n
        == "fs.write_handle"@ || n == "fs.close_handle"@
}

/// Whether a function is a filesystem host intrinsic.
pub fn is_fs_host_intrinsic(n: &str) -> (b: bool)
    ensures
        b == fs_intrinsic(n@),
{
    str_eq(n, "fs.read_file") || str_eq(n, "fs.write_file") || str_eq(n, "fs.read_dir")
        || str_eq(n, "fs.stat") || str_eq(n, "fs.mkdir_all") || str_eq(n, "fs.remove_all")
        || str_eq(n, "fs.temp_dir") || str_eq(n, "fs.open_read_handle") || str_eq(
        n,
        "fs.open_write_handle",
    ) || str_eq(n, "fs.read_handle") || str_eq(n, "fs.write_handle") || str_eq(
        n,
        "fs.close_handle",
    )
}

/// Whether a function is a process host intrinsic.
pub fn is_process_host_intrinsic(n: &str) -> (b: bool)
    ensures
        b == (n@ == "process.run"@ || n@ == "process.run_inherit"@),
{
    str_eq(n, "process.run") || str_eq(n, "process.run_inherit")
}

/// Whether a function is the environment host intrinsic.
pub fn is_env_host_intrinsic(n: &str) -> (b: bool)
    ensures
        b == (n@ == "env.lookup"@),
{
    str_eq(n, "env.lookup")
}

/// Whether a function is a network host intrinsic.
pub open spec fn net_intrinsic(n: Seq<char>) -> bool {
    n == "net.listen"@ || n == "net.accept"@ || n == "net.listener_addr"@ || n
        == "net.close_listener"@ || n == "net.connect"@ || n == "net.read"@ || n == "net.write"@
        || n == "net.close"@ || n == "net.local_addr"@ || n == "net.remote_addr"@ || n
        == "net.set_read_deadline"@ || n == "net.set_write_deadline"@ || n == "net.resolve"@
}

/// Whether a function is a network host intrinsic.
pub fn is_net_host_intrinsic(n: &str) -> (b: bool)
    ensures
        b == net_intrinsic(n@),
{
    str_eq(n, "net.listen") || str_eq(n, "net.accept") || str_eq(n, "net.listener_addr")
        || str_eq(n, "net.close_listener") || str_eq(n, "net.connect") || str_eq(n, "net.read")
        || str_eq(n, "net.write") || str_eq(n, "net.close") || str_eq(n, "net.local_addr")
        || str_eq(n, "net.remote_addr") || str_eq(n, "net.set_read_deadline") || str_eq(
        n,
        "net.set_write_deadline",
    ) || str_eq(n, "net.resolve")
}

/// Whether `v` fits the integer type `target` (`i32` or `i64`).
pub open spec fn fits(v: int, target: Seq<char>) -> bool {
    if target == "i32"@ {
        i32::MIN <= v <= i32::MAX
    } else if target == "i64"@ {
        true
    } else {
        false
    }
}

/// Whether `v` fits the integer type `target`.
pub fn int_value_fits(value: i64, target: &str) -> (b: bool)
    ensures
        b == fits(value as int, target@),
{
    if str_eq(target, "i32") {
        -2147483648i64 <= value && value <= 2147483647i64
    } else if str_eq(target, "i64") {
        true
    } else {
        false
    }
}

/// The value of a constant integer expression, computed in `i64` with every
/// overflow and every division by zero making it non-constant.
pub open spec fn const_value(e: Expression) -> Option<i64>
    decreases e,
{
    match e {
        Expression::Int(x) => Some(x.value),
        Expression::Char(x) => Some(x.value as i64),
        Expression::Group(x) => const_value(x.inner),
        Expression::Unary(x) => if x.operator == Kind::Minus {
            match const_value(x.inner) {
                Some(v) => if v == i64::MIN {
                    None
                } else {
                    Some((-v) as i64)
                },
                None => None,
            }
        } else {
            None
        },
        Expression::Binary(x) => match (const_value(x.left), const_value(x.right)) {
            (Some(l), Some(r)) => if x.operator == Kind::Plus {
                l.checked_add(r)
            } else if x.operator == Kind::Minus {
                l.checked_sub(r)
            } else if x.operator == Kind::Star {
                l.checked_mul(r)
            } else if x.operator == Kind::Slash && r != 0 {
                l.checked_div(r)
            } else if x.operator == Kind::Percent && r != 0 {
                l.checked_rem(r)
            } else {
                None
            },
            _ => None,
        },
        _ => None,
    }
}

/// The value of a constant integer expression.
pub fn const_integer_expression(expr: &Expression) -> (r: Option<i64>)
    ensures
        r == const_value(*expr),
    decreases expr,
{
    match expr {
        Expression::Int(x) => Some(x.value),
        Expression::Char(x) => Some(x.value as i64),
        Expression::Group(x) => const_integer_expression(&x.inner),
        Expression::Unary(x) => {
            if x.operator == Kind::Minus {
                match const_integer_expression(&x.inner) {
                    Some(v) => if v == i64::MIN {
                        None
                    } else {
                        Some(-v)
                    },
                    None => None,
                }
            } else {
                None
            }
        },
        Expression::Binary(x) => {
            let left = match const_integer_expression(&x.left) {
                Some(v) => v,
                None => return None,
            };
            let right = match const_integer_expression(&x.right) {
                Some(v) => v,
                None => return None,
            };
            if x.operator == Kind::Plus {
                left.checked_add(right)
            } else if x.operator == Kind::Minus {
                left.checked_sub(right)
            } else if x.operator == Kind::Star {
                left.checked_mul(right)
            } else if x.operator == Kind::Slash && right != 0 {
                left.checked_div(right)
            } else if x.operator == Kind::Percent && right != 0 {
                left.checked_rem(right)
            } else {
                None
            }
        },
        _ => None,
    }
}

/// Whether an operator is one of the arithmetic operators.
pub open spec fn arithmetic_op(k: Kind) -> bool {
    k == Kind::Plus || k == Kind::Minus || k == Kind::Star || k == Kind::Slash || k
        == Kind::Percent
}

/// Whether an expression is built from integer literals with negation,
/// grouping and arithmetic only.
pub open spec fn untyped_int_expr(e: Expression) -> bool
    decreases e,
{
    match e {
        Expression::Int(_) => true,
        Expression::Group(x) => untyped_int_expr(x.inner),
        Expression::Unary(x) => x.operator == Kind::Minus && untyped_int_expr(x.inner),
        Expression::Binary(x) => arithmetic_op(x.operator) && untyped_int_expr(x.left)
            && untyped_int_expr(x.right),
        _ => false,
    }
}

/// Whether an expression is an untyped integer expression.
pub fn is_untyped_integer_expression(expr: &Expression) -> (b: bool)
    ensures
        b == untyped_int_expr(*expr),
    decreases expr,
{
    match expr {
        Expression::Int(_) => true,
        Expression::Group(x) => is_untyped_integer_expression(&x.inner),
        Expression::Unary(x) => x.operator == Kind::Minus && is_untyped_integer_expression(
            &x.inner,
        ),
        Expression::Binary(x) => {
            (x.operator == Kind::Plus || x.operator == Kind::Minus || x.operator == Kind::Star
                || x.operator == Kind::Slash || x.operator == Kind::Percent)
                && is_untyped_integer_expression(&x.left) && is_untyped_integer_expression(
                &x.right,
            )
        },
        _ => false,
    }
}

/// Whether every constant operand of an integer expression fits `target`.
pub open spec fn operands_fit(e: Expression, target: Seq<char>) -> bool
    decreases e,
{
    match const_value(e) {
        Some(v) => fits(v as int, target),
        None => match e {
            Expression::Group(x) => operands_fit(x.inner, target),
            Expression::Unary(x) => x.operator == Kind::Minus && operands_fit(x.inner, target),
            Expression::Binary(x) => arithmetic_op(x.operator) && operands_fit(x.left, target)
                && operands_fit(x.right, target),
            _ => false,
        },
    }
}

/// Whether every constant operand of an integer expression fits `target`.
pub fn int_expression_operands_fit(expr: &Expression, target: &str) -> (b: bool)
    ensures
        b == operands_fit(*expr, target@),
    decreases expr,
{
    match const_integer_expression(expr) {
        Some(v) => return int_value_fits(v, target),
        None => {},
    }
    match expr {
        Expression::Group(x) => int_expression_operands_fit(&x.inner, target),
        Expression::Unary(x) => x.operator == Kind::Minus && int_expression_operands_fit(
            &x.inner,
            target,
        ),
        Expression::Binary(x) => {
            (x.operator == Kind::Plus || x.operator == Kind::Minus || x.operator == Kind::Star
                || x.operator == Kind::Slash || x.operator == Kind::Percent)
                && int_expression_operands_fit(&x.left, target) && int_expression_operands_fit(
                &x.right,
                target,
            )
        },
        _ => false,
    }
}

/// The integer type an untyped integer expression defaults to: `i32` when its
/// value (or, if not constant, every operand) fits `i32`, else `i64`.
pub open spec fn inferred_int_type(e: Expression) -> Option<Seq<char>> {
    if !untyped_int_expr(e) {
        None
    } else {
        match const_value(e) {
            Some(v) => Some(
                if fits(v as int, "i32"@) {
                    "i32"@
                } else {
                    "i64"@
                },
            ),
            None => if operands_fit(e, "i32"@) {
                Some("i32"@)
            } else if operands_fit(e, "i64"@) {
                Some("i64"@)
            } else {
                None
            },
        }
    }
}

/// The integer type an untyped integer expression defaults to.
pub fn infer_untyped_integer_type(expr: &Expression) -> (r: Option<&'static str>)
    ensures
        match r {
            Some(t) => inferred_int_type(*expr) == Some(t@),
            None => inferred_int_type(*expr) is None,
        },
{
    if !is_untyped_integer_expression(expr) {
        return None;
    }
    match const_integer_expression(expr) {
        Some(v) => {
            return Some(
                if int_value_fits(v, "i32") {
                    "i32"
                } else {
                    "i64"
                },
            );
        },
        None => {},
    }
    if int_expression_operands_fit(expr, "i32") {
        Some("i32")
    } else if int_expression_operands_fit(expr, "i64") {
        Some("i64")
    } else {
        None
    }
}

} // verus!
