//! Lowering expressions: values, addresses, literals and operators.
use vstd::prelude::*;

use super::emitter::{value, Address, FunctionEmitter, Local, Value};
use super::names::{arithmetic_op, expression_name, function_symbol, i32_text, map_key_kind, usize_text, CodegenError};
use crate::ast::{
    ArrayLiteralExpr, BinaryExpr, Expression, FunctionLiteralExpr, IndexExpr, MapLiteralExpr,
    SelectorExpr, SliceExpr, SliceLiteralExpr, StructLiteralExpr, UnaryExpr,
};
use crate::checker::calls::format_function_type;
use crate::checker::types::{
    const_integer_expression, function_literal_key, is_untyped_integer_expression, parse_array_type,
    parse_chan_type, parse_map_type, parse_pointer_type, parse_slice_type,
};
use crate::checker::EnumCaseInfo;
use crate::text::{cat, chars_of, concat, owned, quote, str_eq, string_of_range};
use crate::token::Kind;

verus! {

/// The predicates of LLVM's `icmp` that integer comparisons use.
pub enum IcmpPredicate {
    Eq,
    Ne,
    Slt,
    Sle,
    Sgt,
    Sge,
}

/// The spelling of an `icmp` predicate in LLVM assembly.
pub open spec fn icmp_text(p: IcmpPredicate) -> Seq<char> {
    match p {
        IcmpPredicate::Eq => "eq"@,
        IcmpPredicate::Ne => "ne"@,
        IcmpPredicate::Slt => "slt"@,
        IcmpPredicate::Sle => "sle"@,
        IcmpPredicate::Sgt => "sgt"@,
        IcmpPredicate::Sge => "sge"@,
    }
}

/// Whether `icmp p a, b` yields true, for operands read as signed integers.
pub open spec fn icmp_holds(p: IcmpPredicate, a: int, b: int) -> bool {
    match p {
        IcmpPredicate::Eq => a == b,
        IcmpPredicate::Ne => a != b,
        IcmpPredicate::Slt => a < b,
        IcmpPredicate::Sle => a <= b,
        IcmpPredicate::Sgt => a > b,
        IcmpPredicate::Sge => a >= b,
    }
}

/// The comparison operators of the language.
pub open spec fn is_comparison_operator(op: Kind) -> bool {
    op == Kind::EqualEqual || op == Kind::BangEqual || op == Kind::Less || op == Kind::LessEqual
        || op == Kind::Greater || op == Kind::GreaterEqual
}

/// What a comparison operator of the language means on two integers.
pub open spec fn comparison_holds(op: Kind, a: int, b: int) -> bool {
    if op == Kind::EqualEqual {
        a == b
    } else if op == Kind::BangEqual {
        a != b
    } else if op == Kind::Less {
        a < b
    } else if op == Kind::LessEqual {
        a <= b
    } else if op == Kind::Greater {
        a > b
    } else {
        a >= b
    }
}

/// The `icmp` line that compares two integer values of LLVM type `t` into `result`.
pub open spec fn icmp_line(result: Seq<char>, p: IcmpPredicate, t: Seq<char>, left: Seq<char>, right: Seq<char>) -> Seq<char> {
    "  %"@ + result + " = icmp "@ + icmp_text(p) + " "@ + t + " "@ + left + ", "@ + right + "\n"@
}

/// A comparison was lowered to one `icmp` line appended to the body: `v` is a
/// `bool` held in a fresh local, compared with a predicate of type `llvm_t` that
/// agrees with `operator` on every pair of operands.
pub open spec fn comparison_lowered(
    before: Seq<char>,
    after: Seq<char>,
    operator: Kind,
    left: Value,
    right: Value,
    v: Value,
    llvm_t: Seq<char>,
) -> bool {
    &&& v.type_@ == "bool"@
    &&& exists|p: IcmpPredicate, name: Seq<char>|
        {
            &&& v.repr@ == "%"@ + name
            &&& after == before + icmp_line(name, p, llvm_t, left.repr@, right.repr@)
            &&& forall|a: int, b: int| icmp_holds(p, a, b) == comparison_holds(operator, a, b)
        }
}

/// The types compared only for equality, and their LLVM types.
proof fn lemma_equatable_type(t: Seq<char>)
    requires
        t == "bool"@ || t == "error"@ || crate::checker::types::pointer_elem(t) is Some
            || crate::checker::types::chan_elem(t) is Some,
    ensures
        t != "str"@,
        t != "i32"@,
        t != "i64"@,
        t == "bool"@ ==> super::scalar_llvm_type(t) == Some("i1"@),
        t == "error"@ ==> super::scalar_llvm_type(t) == Some("i32"@),
        t == "bool"@ || t == "error"@ ==> crate::checker::types::pointer_elem(t) is None
            && crate::checker::types::chan_elem(t) is None,
        t != "bool"@ && t != "error"@ ==> super::scalar_llvm_type(t) == Some("ptr"@),
{
    reveal_strlit("bool");
    reveal_strlit("error");
    reveal_strlit("str");
    reveal_strlit("i32");
    reveal_strlit("i64");
    reveal_strlit("void");
    reveal_strlit("noreturn");
    reveal_strlit("*");
    reveal_strlit("chan[");
    if t == "bool"@ || t == "error"@ {
        assert(t.subrange(0, 1)[0] == t[0]);
        assert(t.subrange(0, 1) != "*"@);
        assert(t.len() < 5 || t.subrange(0, 5)[0] != "chan["@[0]);
        assert(t != "i32"@ && t != "void"@ && t != "noreturn"@);
        if t == "error"@ {
            assert(t != "bool"@);
        }
    } else {
        let c: char = if crate::checker::types::pointer_elem(t) is Some {
            assert(t.subrange(0, 1)[0] == t[0]);
            '*'
        } else {
            assert(t.subrange(0, 5)[0] == t[0]);
            'c'
        };
        assert(t[0] == c);
        assert(t[0] != "str"@[0] && t[0] != "i32"@[0] && t[0] != "bool"@[0] && t[0] != "void"@[0]
            && t[0] != "noreturn"@[0] && t[0] != "error"@[0]);
    }
}

impl<'a> FunctionEmitter<'a> {
    /// Lowers an expression and answers its value.
    pub fn emit_expression(&mut self, expression: &Expression) -> (r: Result<Value, CodegenError>)
        ensures
            final(self).g.info == old(self).g.info,
        decreases expression, 5int,
    {
        match expression {
            Expression::Ident(e) => {
                let local = match self.locals.get(e.name.as_str()) {
                    Some(l) => l.clone(),
                    None => {
                        return Err(
                            CodegenError::unsupported(concat("unknown local ", quote(e.name.as_str()).as_str()).as_str()),
                        );
                    },
                };
                self.load_local(e.name.as_str(), &local)
            },
            Expression::Int(e) => Ok(value("i32", crate::text::i64_decimal(e.value))),
            Expression::Char(e) => Ok(value("i32", crate::text::u64_decimal(e.value as u32 as u64))),
            Expression::Bool(e) => Ok(
                value(
                    "bool",
                    if e.value {
                        owned("true")
                    } else {
                        owned("false")
                    },
                ),
            ),
            Expression::Nil(_) => Ok(value("nil", owned("null"))),
            Expression::String(e) => self.emit_string_literal(e.value.as_str()),
            Expression::Error(e) => {
                let code = self.g.error_code(e.name.as_str())?;
                Ok(value("error", i32_text(code)))
            },
            Expression::Group(e) => self.emit_expression(&e.inner),
            Expression::Unary(e) => self.emit_unary(e),
            Expression::Binary(e) => self.emit_binary(e),
            Expression::Selector(e) => self.emit_selector(e),
            Expression::Index(e) => self.emit_index(e),
            Expression::Slice(e) => self.emit_slice(e),
            Expression::StructLiteral(e) => self.emit_struct_literal(e),
            Expression::ArrayLiteral(e) => self.emit_array_literal(e),
            Expression::SliceLiteral(e) => self.emit_slice_literal(e),
            Expression::MapLiteral(e) => self.emit_map_literal(e),
            Expression::FunctionLiteral(e) => self.emit_function_literal(e),
            Expression::Taskgroup(e) => self.emit_taskgroup(e),
            Expression::Call(e) => self.emit_call(e),
            Expression::Propagate(e) => self.emit_propagate(e),
            Expression::Handle(e) => self.emit_handle(e),
            _ => Err(CodegenError::unsupported(expression_name(expression))),
        }
    }

    /// Lowers an expression where a value of `expected_type` is wanted: `nil`
    /// as a null pointer, untyped integers at that width, values converted to
    /// an interface.
    pub fn emit_expression_as(&mut self, expression: &Expression, expected_type: &str) -> (r: Result<
        Value,
        CodegenError,
    >)
        ensures
            final(self).g.info == old(self).g.info,
        decreases expression, 6int,
    {
        match expression {
            Expression::Nil(_) => {
                if parse_pointer_type(expected_type).is_some() {
                    return Ok(value(expected_type, owned("null")));
                }
            },
            _ => {},
        }
        if (str_eq(expected_type, "i32") || str_eq(expected_type, "i64")) && is_untyped_integer_expression(
            expression,
        ) {
            return self.emit_untyped_integer_expression_as(expression, expected_type);
        }
        let v = self.emit_expression(expression)?;
        if self.g.info.interfaces.contains_key(expected_type) {
            return self.coerce_to_interface(v, expected_type);
        }
        Ok(v)
    }

    /// Lowers an untyped integer expression at the width `expected_type`:
    /// constants folded, other operands computed at that width.
    pub fn emit_untyped_integer_expression_as(&mut self, expression: &Expression, expected_type: &str) -> (r:
        Result<Value, CodegenError>)
        ensures
            final(self).g.info == old(self).g.info,
        decreases expression,
    {
        match const_integer_expression(expression) {
            Some(v) => {
                if str_eq(expected_type, "i32") {
                    if v < -2147483648 || v > 2147483647 {
                        return Err(CodegenError::unsupported("i32 constant expression"));
                    }
                    return Ok(value(expected_type, crate::text::i64_decimal(v)));
                } else if str_eq(expected_type, "i64") {
                    return Ok(value(expected_type, crate::text::i64_decimal(v)));
                } else {
                    return Err(CodegenError::unsupported("integer expression target type"));
                }
            },
            None => {},
        }
        match expression {
            Expression::Group(e) => self.emit_untyped_integer_expression_as(&e.inner, expected_type),
            Expression::Unary(e) => {
                if e.operator != Kind::Minus {
                    return Err(CodegenError::unsupported("untyped integer expression"));
                }
                let v = self.emit_untyped_integer_expression_as(&e.inner, expected_type)?;
                self.emit_arithmetic_value(Kind::Minus, value(expected_type, owned("0")), v)
            },
            Expression::Binary(e) => {
                let op = e.operator;
                if !(op == Kind::Plus || op == Kind::Minus || op == Kind::Star || op == Kind::Slash || op
                    == Kind::Percent) {
                    return Err(CodegenError::unsupported("untyped integer expression"));
                }
                let left = self.emit_untyped_integer_expression_as(&e.left, expected_type)?;
                let right = self.emit_untyped_integer_expression_as(&e.right, expected_type)?;
                self.emit_arithmetic_value(op, left, right)
            },
            _ => Err(CodegenError::unsupported("untyped integer expression")),
        }
    }

    /// A value wrapped as an interface value with its method table.
    pub fn coerce_to_interface(&mut self, v: Value, interface_type: &str) -> (r: Result<Value, CodegenError>)
        ensures
            final(self).g.info == old(self).g.info,
    {
        if str_eq(v.type_.as_str(), interface_type) {
            return Ok(v);
        }
        let table = self.g.ensure_interface_impl(interface_type, v.type_.as_str())?;
        let data = if parse_pointer_type(v.type_.as_str()).is_some() {
            v.repr.clone()
        } else {
            let slot = self.emit_alloc_type(v.type_.as_str(), false)?;
            let t = self.llvm_type(v.type_.as_str())?;
            self.put(vec!["  store ", t.as_str(), " ", v.repr.as_str(), ", ptr ", slot.as_str(), "\n"]);
            slot
        };
        let repr = self.emit_interface_value(data.as_str(), table.as_str());
        Ok(value(interface_type, repr))
    }

    /// An interface value of its data pointer and method table.
    pub fn emit_interface_value(&mut self, data: &str, table: &str) -> (s: String)
        ensures
            final(self).g.info == old(self).g.info,
            old(self).next_id + 1 < usize::MAX ==> s@ == "%"@ + "iface"@ + "."@ + crate::text::decimal(
                (old(self).next_id + 1) as nat,
            ),
            final(self).g == old(self).g,
    {
        let first = self.temp("iface");
        let second = self.temp("iface");
        self.put(vec!["  %", first.as_str(), " = insertvalue %yar.iface zeroinitializer, ptr ", data, ", 0\n"]);
        self.put(vec!["  %", second.as_str(), " = insertvalue %yar.iface %", first.as_str(), ", ptr ", table, ", 1\n"]);
        let s = concat("%", second.as_str());
        assert(old(self).next_id + 1 < usize::MAX ==> s@ =~= "%"@ + "iface"@ + "."@ + crate::text::decimal(
            (old(self).next_id + 1) as nat,
        ));
        s
    }

    /// Loads a local.
    pub fn load_local(&mut self, name: &str, local: &Local) -> (r: Result<Value, CodegenError>)
        ensures
            final(self).g.info == old(self).g.info,
            r matches Ok(v) ==> v.type_@ == local.type_@ && v.repr@ == "%"@ + "load."@ + name@ + "."@ + crate::text::decimal(
                old(self).next_id as nat,
            ),
            crate::checker::types::array_parts(local.type_@) is None ==> r is Ok,
            final(self).g == old(self).g,
            final(self).locals@ == old(self).locals@,
    {
        let llvm_type = self.llvm_type(local.type_.as_str())?;
        let result = self.temp(concat("load.", name).as_str());
        self.put(vec!["  %", result.as_str(), " = load ", llvm_type.as_str(), ", ptr ", local.ptr.as_str(), "\n"]);
        let v = Value { type_: local.type_.clone(), repr: concat("%", result.as_str()) };
        assert(v.repr@ =~= "%"@ + "load."@ + name@ + "."@ + crate::text::decimal(old(self).next_id as nat));
        Ok(v)
    }

    /// Loads the value at an address.
    pub fn load_address(&mut self, address: &Address) -> (r: Result<Value, CodegenError>)
        ensures
            final(self).g.info == old(self).g.info,
            r matches Ok(v) ==> v.type_@ == address.type_@ && v.repr@ == "%"@ + "load"@ + "."@ + crate::text::decimal(
                old(self).next_id as nat,
            ),
            crate::checker::types::array_parts(address.type_@) is None ==> r is Ok,
            final(self).g == old(self).g,
    {
        let llvm_type = self.llvm_type(address.type_.as_str())?;
        let result = self.temp("load");
        self.put(vec!["  %", result.as_str(), " = load ", llvm_type.as_str(), ", ptr ", address.ptr.as_str(), "\n"]);
        let v = Value { type_: address.type_.clone(), repr: concat("%", result.as_str()) };
        assert(v.repr@ =~= "%"@ + "load"@ + "."@ + crate::text::decimal(old(self).next_id as nat));
        Ok(v)
    }

    /// The runtime check that a pointer is not nil.
    pub fn emit_pointer_check(&mut self, pointer: &str)
        ensures
            final(self).g.info == old(self).g.info,
    {
        self.put(vec!["  call void @yar_pointer_check(ptr ", pointer, ")\n"]);
    }

    /// The address of an assignable expression.
    pub fn emit_address(&mut self, expression: &Expression) -> (r: Result<Address, CodegenError>)
        ensures
            final(self).g.info == old(self).g.info,
        decreases expression, 3int,
    {
        match expression {
            Expression::Ident(e) => match self.locals.get(e.name.as_str()) {
                Some(local) => Ok(Address { type_: local.type_.clone(), ptr: local.ptr.clone() }),
                None => Err(
                    CodegenError::unsupported(concat("unknown local ", quote(e.name.as_str()).as_str()).as_str()),
                ),
            },
            Expression::Group(e) => self.emit_address(&e.inner),
            Expression::Unary(e) => {
                if e.operator != Kind::Star {
                    return Err(
                        CodegenError::unsupported(concat("address of ", expression_name(expression)).as_str()),
                    );
                }
                let v = self.emit_expression(&e.inner)?;
                let element_type = match parse_pointer_type(v.type_.as_str()) {
                    Some(t) => t,
                    None => {
                        return Err(CodegenError::unsupported("dereference address operand"));
                    },
                };
                self.emit_pointer_check(v.repr.as_str());
                Ok(Address { type_: element_type, ptr: v.repr })
            },
            Expression::Selector(e) => self.emit_selector_address(e),
            Expression::Index(e) => self.emit_index_address(e),
            _ => Err(CodegenError::unsupported(concat("address of ", expression_name(expression)).as_str())),
        }
    }

    /// The address of a struct field.
    pub fn emit_selector_address(&mut self, e: &SelectorExpr) -> (r: Result<Address, CodegenError>)
        ensures
            final(self).g.info == old(self).g.info,
        decreases e, 3int,
    {
        let mut base = self.emit_aggregate_address(&e.inner)?;
        match parse_pointer_type(base.type_.as_str()) {
            Some(element_type) => {
                let pointer = self.load_address(&base)?;
                self.emit_pointer_check(pointer.repr.as_str());
                base = Address { type_: element_type, ptr: pointer.repr };
            },
            None => {},
        }
        let (idx, field_type) = self.g.struct_field(base.type_.as_str(), e.name.as_str())?;
        let field_ptr = self.temp("field.ptr");
        let t = self.llvm_type(base.type_.as_str())?;
        self.put(
            vec![
                "  %",
                field_ptr.as_str(),
                " = getelementptr inbounds ",
                t.as_str(),
                ", ptr ",
                base.ptr.as_str(),
                ", i32 0, i32 ",
                usize_text(idx).as_str(),
                "\n",
            ],
        );
        Ok(Address { type_: field_type, ptr: concat("%", field_ptr.as_str()) })
    }

    /// The address of an array or slice element, with its bounds check.
    pub fn emit_index_address(&mut self, e: &IndexExpr) -> (r: Result<Address, CodegenError>)
        ensures
            final(self).g.info == old(self).g.info,
        decreases e, 3int,
    {
        let base = self.emit_aggregate_address(&e.inner)?;
        let index = self.emit_expression(&e.index)?;
        match parse_array_type(base.type_.as_str()) {
            Some((len, element_type)) => {
                if len as u64 > 9223372036854775807u64 {
                    return Err(CodegenError::unsupported("array size"));
                }
                let index64 = self.int_to_i64(&index)?;
                self.put(
                    vec![
                        "  call void @yar_array_index_check(i64 ",
                        index64.as_str(),
                        ", i64 ",
                        usize_text(len).as_str(),
                        ")\n",
                    ],
                );
                let element_ptr = self.temp("elem.ptr");
                let t = self.llvm_type(base.type_.as_str())?;
                self.put(
                    vec![
                        "  %",
                        element_ptr.as_str(),
                        " = getelementptr inbounds ",
                        t.as_str(),
                        ", ptr ",
                        base.ptr.as_str(),
                        ", i32 0, i64 ",
                        index64.as_str(),
                        "\n",
                    ],
                );
                return Ok(Address { type_: element_type, ptr: concat("%", element_ptr.as_str()) });
            },
            None => {},
        }
        let element_type = match parse_slice_type(base.type_.as_str()) {
            Some(t) => t,
            None => {
                return Err(CodegenError::unsupported("non-aggregate address index"));
            },
        };
        let slice = self.load_address(&base)?;
        let data = self.extract_slice_field(slice.repr.as_str(), 0, "slice.data")?;
        let len = self.extract_slice_field(slice.repr.as_str(), 1, "slice.len")?;
        let index64 = self.int_to_i64(&index)?;
        let len64 = self.int_to_i64(&len)?;
        self.put(vec!["  call void @yar_slice_index_check(i64 ", index64.as_str(), ", i64 ", len64.as_str(), ")\n"]);
        let element_ptr = self.temp("elem.ptr");
        let t = self.llvm_type(element_type.as_str())?;
        self.put(
            vec![
                "  %",
                element_ptr.as_str(),
                " = getelementptr ",
                t.as_str(),
                ", ptr ",
                data.repr.as_str(),
                ", i64 ",
                index64.as_str(),
                "\n",
            ],
        );
        Ok(Address { type_: element_type, ptr: concat("%", element_ptr.as_str()) })
    }

    /// The address of an aggregate: where it is stored, or a fresh stack slot
    /// holding its value.
    pub fn emit_aggregate_address(&mut self, expression: &Expression) -> (r: Result<Address, CodegenError>)
        ensures
            final(self).g.info == old(self).g.info,
        decreases expression, 7int,
    {
        match self.emit_address(expression) {
            Ok(address) => {
                return Ok(address);
            },
            Err(_) => {},
        }
        let v = self.emit_expression(expression)?;
        let llvm_type = self.llvm_type(v.type_.as_str())?;
        let slot = self.temp("agg.slot");
        self.put(vec!["  %", slot.as_str(), " = alloca ", llvm_type.as_str(), "\n"]);
        self.put(vec!["  store ", llvm_type.as_str(), " ", v.repr.as_str(), ", ptr %", slot.as_str(), "\n"]);
        Ok(Address { type_: v.type_, ptr: concat("%", slot.as_str()) })
    }

    /// The address of an expression for `&`: where it is stored, or a heap copy.
    pub fn emit_address_of_expr(&mut self, expression: &Expression) -> (r: Result<(String, String), CodegenError>)
        ensures
            final(self).g.info == old(self).g.info,
        decreases expression, 7int,
    {
        match self.emit_address(expression) {
            Ok(address) => {
                return Ok((address.ptr, address.type_));
            },
            Err(_) => {},
        }
        let v = self.emit_expression(expression)?;
        let ptr = self.emit_alloc_type(v.type_.as_str(), false)?;
        let t = self.llvm_type(v.type_.as_str())?;
        self.put(vec!["  store ", t.as_str(), " ", v.repr.as_str(), ", ptr ", ptr.as_str(), "\n"]);
        Ok((ptr, v.type_))
    }

    /// A string constant as a `str` value.
    pub fn emit_string_literal(&mut self, text: &str) -> (r: Result<Value, CodegenError>)
        ensures
            final(self).g.info == old(self).g.info,
    {
        let global = self.g.string_name(text);
        let first = self.temp("str.ptr");
        self.put(vec!["  %", first.as_str(), " = insertvalue %yar.str undef, ptr @", global.as_str(), ", 0\n"]);
        let second = self.temp("str.len");
        let len = text.len();
        self.put(
            vec![
                "  %",
                second.as_str(),
                " = insertvalue %yar.str %",
                first.as_str(),
                ", i64 ",
                usize_text(len).as_str(),
                ", 1\n",
            ],
        );
        Ok(value("str", concat("%", second.as_str())))
    }

    fn emit_unary(&mut self, expression: &UnaryExpr) -> (r: Result<Value, CodegenError>)
        ensures
            final(self).g.info == old(self).g.info,
        decreases expression, 1int,
    {
        match expression.operator {
            Kind::Amp => {
                let (ptr, t) = self.emit_address_of_expr(&expression.inner)?;
                Ok(Value { type_: concat("*", t.as_str()), repr: ptr })
            },
            Kind::Star => {
                let v = self.emit_expression(&expression.inner)?;
                let element_type = match parse_pointer_type(v.type_.as_str()) {
                    Some(t) => t,
                    None => {
                        return Err(CodegenError::unsupported("dereference operand type"));
                    },
                };
                self.emit_pointer_check(v.repr.as_str());
                let result = self.temp("deref");
                let t = self.llvm_type(element_type.as_str())?;
                self.put(vec!["  %", result.as_str(), " = load ", t.as_str(), ", ptr ", v.repr.as_str(), "\n"]);
                Ok(Value { type_: element_type, repr: concat("%", result.as_str()) })
            },
            Kind::Bang => {
                let v = self.emit_expression(&expression.inner)?;
                if !str_eq(v.type_.as_str(), "bool") {
                    return Err(CodegenError::unsupported("unary ! operand type"));
                }
                let result = self.temp("not");
                self.put(vec!["  %", result.as_str(), " = xor i1 ", v.repr.as_str(), ", true\n"]);
                Ok(value("bool", concat("%", result.as_str())))
            },
            Kind::Minus => {
                let v = self.emit_expression(&expression.inner)?;
                if !(str_eq(v.type_.as_str(), "i32") || str_eq(v.type_.as_str(), "i64")) {
                    return Err(CodegenError::unsupported("unary - operand type"));
                }
                let result = self.temp("neg");
                let t = self.llvm_type(v.type_.as_str())?;
                self.put(vec!["  %", result.as_str(), " = sub ", t.as_str(), " 0, ", v.repr.as_str(), "\n"]);
                Ok(Value { type_: v.type_, repr: concat("%", result.as_str()) })
            },
            _ => Err(CodegenError::unsupported("unary operator")),
        }
    }

    fn emit_struct_literal(&mut self, literal: &StructLiteralExpr) -> (r: Result<Value, CodegenError>)
        ensures
            final(self).g.info == old(self).g.info,
        decreases literal, 2int,
    {
        let t = literal.type_ref.display();
        match self.g.enum_case_type(t.as_str())? {
            Some((enum_type, enum_case)) => {
                let payload = self.emit_struct_value(t.as_str(), literal)?;
                return self.emit_enum_value(enum_type.as_str(), &enum_case, Some(&payload));
            },
            None => {},
        }
        self.emit_struct_value(t.as_str(), literal)
    }

    fn emit_struct_value(&mut self, t: &str, literal: &StructLiteralExpr) -> (r: Result<Value, CodegenError>)
        ensures
            final(self).g.info == old(self).g.info,
        decreases literal, 1int,
    {
        let aggregate_type = self.llvm_type(t)?;
        let mut current = owned("zeroinitializer");
        let mut i: usize = 0;
        while i < literal.fields.len()
            invariant
                self.g.info == old(self).g.info,
                i <= literal.fields@.len(),
            decreases literal.fields.len() - i,
        {
            let field = &literal.fields[i];
            assert(decreases_to!(literal => literal.fields@[i as int].value));
            i = i + 1;
            let (idx, field_type) = self.g.struct_field(t, field.name.as_str())?;
            let field_value = self.emit_expression_as(&field.value, field_type.as_str())?;
            if !str_eq(field_value.type_.as_str(), field_type.as_str()) {
                return Err(
                    CodegenError::unsupported(
                        cat(
                            vec![
                                "struct field ",
                                quote(field.name.as_str()).as_str(),
                                " has type ",
                                field_value.type_.as_str(),
                            ],
                        ).as_str(),
                    ),
                );
            }
            let next = self.temp("struct");
            let ft = self.llvm_type(field_type.as_str())?;
            self.put(
                vec![
                    "  %",
                    next.as_str(),
                    " = insertvalue ",
                    aggregate_type.as_str(),
                    " ",
                    current.as_str(),
                    ", ",
                    ft.as_str(),
                    " ",
                    field_value.repr.as_str(),
                    ", ",
                    usize_text(idx).as_str(),
                    "\n",
                ],
            );
            current = concat("%", next.as_str());
        }
        Ok(value(t, current))
    }

    /// A struct value with one field set and the others zero.
    pub fn emit_struct_field_value(&mut self, t: &str, field_value: &Value, field_index: usize) -> (r: Result<
        Value,
        CodegenError,
    >)
        ensures
            final(self).g.info == old(self).g.info,
    {
        let aggregate_type = self.llvm_type(t)?;
        let result = self.temp("struct");
        let ft = self.llvm_type(field_value.type_.as_str())?;
        self.put(
            vec![
                "  %",
                result.as_str(),
                " = insertvalue ",
                aggregate_type.as_str(),
                " zeroinitializer, ",
                ft.as_str(),
                " ",
                field_value.repr.as_str(),
                ", ",
                usize_text(field_index).as_str(),
                "\n",
            ],
        );
        Ok(value(t, concat("%", result.as_str())))
    }

    /// An enum value of a case (and its payload, where it has one).
    pub fn emit_enum_value(&mut self, enum_type: &str, enum_case: &EnumCaseInfo, payload: Option<&Value>) -> (r:
        Result<Value, CodegenError>)
        ensures
            final(self).g.info == old(self).g.info,
    {
        let enum_llvm = self.llvm_type(enum_type)?;
        let slot = self.temp("enum.value");
        self.put(vec!["  %", slot.as_str(), " = alloca ", enum_llvm.as_str(), "\n"]);
        self.put(vec!["  store ", enum_llvm.as_str(), " zeroinitializer, ptr %", slot.as_str(), "\n"]);
        let tag_ptr = self.temp("enum.tag.ptr");
        self.put(
            vec![
                "  %",
                tag_ptr.as_str(),
                " = getelementptr inbounds ",
                enum_llvm.as_str(),
                ", ptr %",
                slot.as_str(),
                ", i32 0, i32 0\n",
            ],
        );
        self.put(vec!["  store i32 ", usize_text(enum_case.tag).as_str(), ", ptr %", tag_ptr.as_str(), "\n"]);
        match payload {
            Some(p) => {
                if !str_eq(p.type_.as_str(), enum_case.payload_type.as_str()) {
                    return Err(CodegenError::unsupported(concat("enum payload has type ", p.type_.as_str()).as_str()));
                }
                let payload_ptr = self.enum_payload_ptr(slot.as_str(), enum_type)?;
                let t = self.llvm_type(p.type_.as_str())?;
                self.put(vec!["  store ", t.as_str(), " ", p.repr.as_str(), ", ptr ", payload_ptr.as_str(), "\n"]);
            },
            None => {
                if enum_case.payload_type.unicode_len() > 0 {
                    return Err(
                        CodegenError::unsupported(
                            cat(vec!["missing enum payload ", enum_type, ".", enum_case.name.as_str()]).as_str(),
                        ),
                    );
                }
            },
        }
        let result = self.temp("enum.load");
        self.put(vec!["  %", result.as_str(), " = load ", enum_llvm.as_str(), ", ptr %", slot.as_str(), "\n"]);
        Ok(value(enum_type, concat("%", result.as_str())))
    }

    /// An enum value with only its tag set.
    pub fn emit_enum_tag_value(&mut self, enum_type: &str, tag: &str) -> (r: Result<Value, CodegenError>)
        ensures
            final(self).g.info == old(self).g.info,
            crate::checker::types::array_parts(enum_type@) is None ==> r is Ok,
            r matches Ok(v) ==> v.type_@ == enum_type@ && v.repr@ == "%"@ + "enum.tag"@ + "."@ + crate::text::decimal(
                old(self).next_id as nat,
            ),
            final(self).g == old(self).g,
    {
        let enum_llvm = self.llvm_type(enum_type)?;
        let result = self.temp("enum.tag");
        self.put(
            vec!["  %", result.as_str(), " = insertvalue ", enum_llvm.as_str(), " zeroinitializer, i32 ", tag, ", 0\n"],
        );
        let v = value(enum_type, concat("%", result.as_str()));
        assert(v.repr@ =~= "%"@ + "enum.tag"@ + "."@ + crate::text::decimal(old(self).next_id as nat));
        Ok(v)
    }

    fn emit_array_literal(&mut self, literal: &ArrayLiteralExpr) -> (r: Result<Value, CodegenError>)
        ensures
            final(self).g.info == old(self).g.info,
        decreases literal, 1int,
    {
        let t = literal.type_ref.display();
        let aggregate_type = self.llvm_type(t.as_str())?;
        let element_type = match parse_array_type(t.as_str()) {
            Some((_, e)) => e,
            None => {
                return Err(CodegenError::unsupported("array literal type"));
            },
        };
        let mut current = owned("zeroinitializer");
        let mut idx: usize = 0;
        while idx < literal.elements.len()
            invariant
                self.g.info == old(self).g.info,
                idx <= literal.elements@.len(),
            decreases literal.elements.len() - idx,
        {
            assert(decreases_to!(literal => literal.elements@[idx as int]));
            let ev = self.emit_expression_as(&literal.elements[idx], element_type.as_str())?;
            if !str_eq(ev.type_.as_str(), element_type.as_str()) {
                return Err(CodegenError::unsupported(concat("array element has type ", ev.type_.as_str()).as_str()));
            }
            let next = self.temp("array");
            let et = self.llvm_type(element_type.as_str())?;
            self.put(
                vec![
                    "  %",
                    next.as_str(),
                    " = insertvalue ",
                    aggregate_type.as_str(),
                    " ",
                    current.as_str(),
                    ", ",
                    et.as_str(),
                    " ",
                    ev.repr.as_str(),
                    ", ",
                    usize_text(idx).as_str(),
                    "\n",
                ],
            );
            current = concat("%", next.as_str());
            idx = idx + 1;
        }
        Ok(Value { type_: t, repr: current })
    }

    fn emit_slice_literal(&mut self, literal: &SliceLiteralExpr) -> (r: Result<Value, CodegenError>)
        ensures
            final(self).g.info == old(self).g.info,
        decreases literal, 1int,
    {
        let t = literal.type_ref.display();
        let element_type = match parse_slice_type(t.as_str()) {
            Some(e) => e,
            None => {
                return Err(CodegenError::unsupported("slice literal type"));
            },
        };
        if literal.elements.len() == 0 {
            return Ok(Value { type_: t, repr: owned("zeroinitializer") });
        }
        let len = literal.elements.len();
        let alloc_size = self.emit_array_alloc_size(element_type.as_str(), len)?;
        let data = self.emit_alloc_bytes(alloc_size.as_str(), false);
        let mut idx: usize = 0;
        while idx < literal.elements.len()
            invariant
                self.g.info == old(self).g.info,
                idx <= literal.elements@.len(),
            decreases literal.elements.len() - idx,
        {
            assert(decreases_to!(literal => literal.elements@[idx as int]));
            let v = self.emit_expression_as(&literal.elements[idx], element_type.as_str())?;
            if !str_eq(v.type_.as_str(), element_type.as_str()) {
                return Err(CodegenError::unsupported(concat("slice element has type ", v.type_.as_str()).as_str()));
            }
            let ptr = self.temp("slice.elem.ptr");
            let et = self.llvm_type(element_type.as_str())?;
            self.put(
                vec![
                    "  %",
                    ptr.as_str(),
                    " = getelementptr ",
                    et.as_str(),
                    ", ptr ",
                    data.as_str(),
                    ", i64 ",
                    usize_text(idx).as_str(),
                    "\n",
                ],
            );
            self.put(vec!["  store ", et.as_str(), " ", v.repr.as_str(), ", ptr %", ptr.as_str(), "\n"]);
            idx = idx + 1;
        }
        let len_text = usize_text(len);
        let repr = self.emit_slice_value(data.as_str(), len_text.as_str(), len_text.as_str());
        Ok(Value { type_: t, repr })
    }

    fn emit_map_literal(&mut self, literal: &MapLiteralExpr) -> (r: Result<Value, CodegenError>)
        ensures
            final(self).g.info == old(self).g.info,
        decreases literal, 1int,
    {
        let t = literal.type_ref.display();
        let (key_type, value_type) = match parse_map_type(t.as_str()) {
            Some(p) => p,
            None => {
                return Err(CodegenError::unsupported("map literal type"));
            },
        };
        let map = self.temp("map.new");
        let key_kind = map_key_kind(key_type.as_str())?;
        let key_size = self.type_size(key_type.as_str())?;
        let value_size = self.type_size(value_type.as_str())?;
        self.put(
            vec![
                "  %",
                map.as_str(),
                " = call ptr @yar_map_new(i32 ",
                i32_text(key_kind).as_str(),
                ", i32 ",
                i32_text(key_size).as_str(),
                ", i32 ",
                i32_text(value_size).as_str(),
                ")\n",
            ],
        );
        let map_ref = concat("%", map.as_str());
        let mut i: usize = 0;
        while i < literal.pairs.len()
            invariant
                self.g.info == old(self).g.info,
                i <= literal.pairs@.len(),
            decreases literal.pairs.len() - i,
        {
            let pair = &literal.pairs[i];
            assert(decreases_to!(literal => literal.pairs@[i as int].key));
            assert(decreases_to!(literal => literal.pairs@[i as int].value));
            i = i + 1;
            let key = self.emit_expression_as(&pair.key, key_type.as_str())?;
            let v = self.emit_expression_as(&pair.value, value_type.as_str())?;
            self.emit_map_set(map_ref.as_str(), key_type.as_str(), &key, value_type.as_str(), &v)?;
        }
        Ok(Value { type_: t, repr: map_ref })
    }

    fn emit_function_literal(&mut self, literal: &FunctionLiteralExpr) -> (r: Result<Value, CodegenError>)
        ensures
            final(self).g.info == old(self).g.info,
    {
        let key = function_literal_key(literal);
        let name = match self.g.literal_names.get(key.as_str()) {
            Some(n) => n.clone(),
            None => {
                return Err(CodegenError::unsupported("missing function literal name"));
            },
        };
        let info = match self.g.info.function_literals.get(key.as_str()) {
            Some(i) => i.clone(),
            None => {
                return Err(CodegenError::unsupported("missing function literal info"));
            },
        };
        let env = if info.captures.len() == 0 {
            owned("null")
        } else {
            let size = self.closure_env_size(&info.captures)?;
            let env = self.emit_alloc_bytes(i32_text(size).as_str(), false);
            let env_type = self.closure_env_type_literal(&info.captures)?;
            let mut idx: usize = 0;
            while idx < info.captures.len()
                invariant
                    self.g.info == old(self).g.info,
                    idx <= info.captures@.len(),
                decreases info.captures.len() - idx,
            {
                let capture = &info.captures[idx];
                let local = match self.locals.get(capture.name.as_str()) {
                    Some(l) => l.clone(),
                    None => {
                        return Err(
                            CodegenError::unsupported(
                                concat("missing captured local ", quote(capture.name.as_str()).as_str()).as_str(),
                            ),
                        );
                    },
                };
                let v = self.load_local(capture.name.as_str(), &local)?;
                let field = self.temp("closure.env.ptr");
                self.put(
                    vec![
                        "  %",
                        field.as_str(),
                        " = getelementptr inbounds ",
                        env_type.as_str(),
                        ", ptr ",
                        env.as_str(),
                        ", i32 0, i32 ",
                        usize_text(idx).as_str(),
                        "\n",
                    ],
                );
                let t = self.llvm_type(capture.type_.as_str())?;
                self.put(vec!["  store ", t.as_str(), " ", v.repr.as_str(), ", ptr %", field.as_str(), "\n"]);
                idx = idx + 1;
            }
            env
        };
        let t = format_function_type(
            &info.signature.params,
            info.signature.return_type.as_str(),
            info.signature.errorable,
        );
        let code = concat("@", function_symbol(name.as_str()).as_str());
        let repr = self.emit_closure_value(code.as_str(), env.as_str());
        Ok(Value { type_: t, repr })
    }

    fn emit_binary(&mut self, expression: &BinaryExpr) -> (r: Result<Value, CodegenError>)
        ensures
            final(self).g.info == old(self).g.info,
        decreases expression, 2int,
    {
        if expression.operator == Kind::AmpAmp || expression.operator == Kind::PipePipe {
            return self.emit_logical(expression);
        }
        let left_start = self.body.unicode_len();
        let mut left = self.emit_expression(&expression.left)?;
        let right_start = self.body.unicode_len();
        let mut right = if is_untyped_integer_expression(&expression.right) && (str_eq(left.type_.as_str(), "i32")
            || str_eq(left.type_.as_str(), "i64")) {
            let lt = left.type_.clone();
            self.emit_expression_as(&expression.right, lt.as_str())?
        } else {
            self.emit_expression(&expression.right)?
        };
        if !str_eq(left.type_.as_str(), right.type_.as_str()) {
            if str_eq(right.type_.as_str(), "i64") && is_untyped_integer_expression(&expression.left) {
                let chars = chars_of(self.body.as_str());
                if left_start <= right_start && right_start <= chars.len() {
                    let right_body = string_of_range(&chars, right_start, chars.len());
                    self.body = string_of_range(&chars, 0, left_start);
                    left = self.emit_expression_as(&expression.left, "i64")?;
                    self.body.append(right_body.as_str());
                }
            } else if expression.operator == Kind::EqualEqual || expression.operator == Kind::BangEqual {
                if str_eq(left.type_.as_str(), "nil") && parse_pointer_type(right.type_.as_str()).is_some() {
                    left.type_ = right.type_.clone();
                } else if str_eq(right.type_.as_str(), "nil") && parse_pointer_type(left.type_.as_str()).is_some() {
                    right.type_ = left.type_.clone();
                }
            }
        }
        if !str_eq(left.type_.as_str(), right.type_.as_str()) {
            return Err(CodegenError::unsupported("mixed-type binary expression"));
        }
        let op = expression.operator;
        if op == Kind::EqualEqual || op == Kind::BangEqual || op == Kind::Less || op == Kind::LessEqual || op
            == Kind::Greater || op == Kind::GreaterEqual {
            return self.emit_comparison(op, left, right);
        }
        self.emit_arithmetic_value(op, left, right)
    }

    /// An arithmetic operation on two integers (or `+` on two strings).
    pub fn emit_arithmetic_value(&mut self, operator: Kind, left: Value, right: Value) -> (r: Result<
        Value,
        CodegenError,
    >)
        ensures
            final(self).g.info == old(self).g.info,
    {
        if !str_eq(left.type_.as_str(), right.type_.as_str()) {
            return Err(CodegenError::unsupported("mixed-type arithmetic expression"));
        }
        if !(str_eq(left.type_.as_str(), "i32") || str_eq(left.type_.as_str(), "i64")) {
            if operator == Kind::Plus && str_eq(left.type_.as_str(), "str") {
                return self.emit_string_concat(left, right);
            }
            return Err(CodegenError::unsupported("non-integer arithmetic expression"));
        }
        if operator == Kind::Slash || operator == Kind::Percent {
            self.emit_divrem_check(&left, &right)?;
        }
        let op = arithmetic_op(operator)?;
        let result = self.temp("bin");
        let t = self.llvm_type(left.type_.as_str())?;
        self.put(
            vec![
                "  %",
                result.as_str(),
                " = ",
                op,
                " ",
                t.as_str(),
                " ",
                left.repr.as_str(),
                ", ",
                right.repr.as_str(),
                "\n",
            ],
        );
        Ok(Value { type_: left.type_, repr: concat("%", result.as_str()) })
    }

    fn emit_divrem_check(&mut self, left: &Value, right: &Value) -> (r: Result<(), CodegenError>)
        ensures
            final(self).g.info == old(self).g.info,
            r is Ok <==> (left.type_@ == "i32"@ || left.type_@ == "i64"@),
            r is Err ==> final(self).body@ == old(self).body@,
            final(self).g == old(self).g,
    {
        proof {
            reveal_strlit("i32");
            reveal_strlit("i64");
            reveal_strlit("bool");
            reveal_strlit("void");
            reveal_strlit("noreturn");
            reveal_strlit("error");
            reveal_strlit("str");
        }
        let helper = if str_eq(left.type_.as_str(), "i32") {
            "yar_i32_divrem_check"
        } else if str_eq(left.type_.as_str(), "i64") {
            "yar_i64_divrem_check"
        } else {
            return Err(CodegenError::unsupported("division operand type"));
        };
        let t = self.llvm_type(left.type_.as_str())?;
        self.put(
            vec![
                "  call void @",
                helper,
                "(",
                t.as_str(),
                " ",
                left.repr.as_str(),
                ", ",
                t.as_str(),
                " ",
                right.repr.as_str(),
                ")\n",
            ],
        );
        Ok(())
    }

    fn emit_string_concat(&mut self, left: Value, right: Value) -> (r: Result<Value, CodegenError>)
        ensures
            final(self).g.info == old(self).g.info,
    {
        if !str_eq(right.type_.as_str(), "str") {
            return Err(CodegenError::unsupported("string concat rhs type"));
        }
        let left_ptr = self.temp("str.left.ptr");
        let left_len = self.temp("str.left.len");
        let right_ptr = self.temp("str.right.ptr");
        let right_len = self.temp("str.right.len");
        let result = self.temp("str.concat");
        self.put(vec!["  %", left_ptr.as_str(), " = extractvalue %yar.str ", left.repr.as_str(), ", 0\n"]);
        self.put(vec!["  %", left_len.as_str(), " = extractvalue %yar.str ", left.repr.as_str(), ", 1\n"]);
        self.put(vec!["  %", right_ptr.as_str(), " = extractvalue %yar.str ", right.repr.as_str(), ", 0\n"]);
        self.put(vec!["  %", right_len.as_str(), " = extractvalue %yar.str ", right.repr.as_str(), ", 1\n"]);
        let result_slot = self.temp("str.concat.slot");
        self.put(vec!["  %", result_slot.as_str(), " = alloca %yar.str\n"]);
        self.put(
            vec![
                "  call void @yar_str_concat(ptr %",
                left_ptr.as_str(),
                ", i64 %",
                left_len.as_str(),
                ", ptr %",
                right_ptr.as_str(),
                ", i64 %",
                right_len.as_str(),
                ", ptr %",
                result_slot.as_str(),
                ")\n",
            ],
        );
        self.put(vec!["  %", result.as_str(), " = load %yar.str, ptr %", result_slot.as_str(), "\n"]);
        Ok(value("str", concat("%", result.as_str())))
    }

    fn emit_comparison(&mut self, operator: Kind, left: Value, right: Value) -> (r: Result<Value, CodegenError>)
        ensures
            final(self).g.info == old(self).g.info,
            (left.type_@ == "i32"@ || left.type_@ == "i64"@) && is_comparison_operator(operator) ==> (r matches Ok(
                v,
            ) && comparison_lowered(old(self).body@, final(self).body@, operator, left, right, v, left.type_@)),
            (left.type_@ == "bool"@ || left.type_@ == "error"@ || crate::checker::types::pointer_elem(left.type_@) is Some
                || crate::checker::types::chan_elem(left.type_@) is Some) && (operator == Kind::EqualEqual
                || operator == Kind::BangEqual) ==> (r matches Ok(v) && comparison_lowered(
                old(self).body@,
                final(self).body@,
                operator,
                left,
                right,
                v,
                super::scalar_llvm_type(left.type_@)->0,
            )),
    {
        proof {
            if left.type_@ == "bool"@ || left.type_@ == "error"@ || crate::checker::types::pointer_elem(left.type_@) is Some
                || crate::checker::types::chan_elem(left.type_@) is Some {
                lemma_equatable_type(left.type_@);
            }
        }
        proof {
            if left.type_@ == "i32"@ || left.type_@ == "i64"@ {
                reveal_strlit("i32");
                reveal_strlit("i64");
                reveal_strlit("str");
                reveal_strlit("*");
                reveal_strlit("chan[");
                assert(left.type_@[0] != "str"@[0]);
                assert(left.type_@.subrange(0, 1)[0] != "*"@[0]);
                assert(left.type_@.subrange(0, 1) != "*"@);
                assert("chan["@.len() == 5);
                assert(crate::checker::types::pointer_elem(left.type_@) is None);
                assert(crate::checker::types::chan_elem(left.type_@) is None);
            }
        }
        if str_eq(left.type_.as_str(), "str") {
            return self.emit_string_comparison(operator, left, right);
        }
        if parse_pointer_type(left.type_.as_str()).is_some() || parse_chan_type(left.type_.as_str()).is_some() {
            let predicate = if operator == Kind::EqualEqual {
                "eq"
            } else if operator == Kind::BangEqual {
                "ne"
            } else {
                return Err(CodegenError::unsupported("pointer comparison operator"));
            };
            let ghost chosen: IcmpPredicate = if operator == Kind::EqualEqual {
                IcmpPredicate::Eq
            } else {
                IcmpPredicate::Ne
            };
            let result = self.temp("ptr.cmp");
            let parts = vec![
                "  %",
                result.as_str(),
                " = icmp ",
                predicate,
                " ptr ",
                left.repr.as_str(),
                ", ",
                right.repr.as_str(),
                "\n",
            ];
            proof {
                crate::text::lemma_concat_all_nine(parts@);
            }
            self.put(parts);
            proof {
                reveal_strlit(" ptr ");
                reveal_strlit(" ");
                reveal_strlit("ptr");
                assert(" ptr "@ =~= " "@ + "ptr"@ + " "@);
                assert(predicate@ == icmp_text(chosen));
                assert(forall|a: int, b: int| icmp_holds(chosen, a, b) == comparison_holds(operator, a, b));
                assert(final(self).body@ =~= old(self).body@ + icmp_line(result@, chosen, "ptr"@, left.repr@, right.repr@));
            }
            return Ok(value("bool", concat("%", result.as_str())));
        }
        let lt = left.type_.as_str();
        let integer = str_eq(lt, "i32") || str_eq(lt, "i64");
        let equatable = integer || str_eq(lt, "bool") || str_eq(lt, "error");
        let predicate = if operator == Kind::EqualEqual && equatable {
            "eq"
        } else if operator == Kind::BangEqual && equatable {
            "ne"
        } else if operator == Kind::Less && integer {
            "slt"
        } else if operator == Kind::LessEqual && integer {
            "sle"
        } else if operator == Kind::Greater && integer {
            "sgt"
        } else if operator == Kind::GreaterEqual && integer {
            "sge"
        } else {
            return Err(CodegenError::unsupported("comparison operands"));
        };
        let ghost chosen: IcmpPredicate = if operator == Kind::EqualEqual {
            IcmpPredicate::Eq
        } else if operator == Kind::BangEqual {
            IcmpPredicate::Ne
        } else if operator == Kind::Less {
            IcmpPredicate::Slt
        } else if operator == Kind::LessEqual {
            IcmpPredicate::Sle
        } else if operator == Kind::Greater {
            IcmpPredicate::Sgt
        } else {
            IcmpPredicate::Sge
        };
        let result = self.temp("cmp");
        let t = self.llvm_type(lt)?;
        let parts = vec![
            "  %",
            result.as_str(),
            " = icmp ",
            predicate,
            " ",
            t.as_str(),
            " ",
            left.repr.as_str(),
            ", ",
            right.repr.as_str(),
            "\n",
        ];
        proof {
            crate::text::lemma_concat_all_eleven(parts@);
        }
        self.put(parts);
        proof {
            if equatable && (operator == Kind::EqualEqual || operator == Kind::BangEqual) && !integer {
                lemma_equatable_type(left.type_@);
                assert(predicate@ == icmp_text(chosen));
                assert(forall|a: int, b: int| icmp_holds(chosen, a, b) == comparison_holds(operator, a, b));
                assert(final(self).body@ == old(self).body@ + icmp_line(result@, chosen, t@, left.repr@, right.repr@));
            }
            if integer && is_comparison_operator(operator) {
                reveal_strlit("i32");
                reveal_strlit("i64");
                reveal_strlit("void");
                reveal_strlit("noreturn");
                reveal_strlit("bool");
                reveal_strlit("error");
                assert(left.type_@.len() == 3);
                assert(super::scalar_llvm_type(left.type_@) == Some(left.type_@));
                assert(t@ == left.type_@);
                assert(predicate@ == icmp_text(chosen));
                assert(forall|a: int, b: int| icmp_holds(chosen, a, b) == comparison_holds(operator, a, b));
                assert(final(self).body@ == old(self).body@ + icmp_line(result@, chosen, left.type_@, left.repr@, right.repr@));
            }
        }
        Ok(value("bool", concat("%", result.as_str())))
    }

    fn emit_string_comparison(&mut self, operator: Kind, left: Value, right: Value) -> (r: Result<Value, CodegenError>)
        ensures
            final(self).g.info == old(self).g.info,
    {
        if !str_eq(right.type_.as_str(), "str") {
            return Err(CodegenError::unsupported("string comparison rhs type"));
        }
        let predicate = if operator == Kind::EqualEqual {
            "ne"
        } else if operator == Kind::BangEqual {
            "eq"
        } else {
            return Err(CodegenError::unsupported("string comparison operator"));
        };
        let left_ptr = self.temp("str.eq.left.ptr");
        let left_len = self.temp("str.eq.left.len");
        let right_ptr = self.temp("str.eq.right.ptr");
        let right_len = self.temp("str.eq.right.len");
        let raw = self.temp("str.eq.raw");
        let result = self.temp("str.eq");
        self.put(vec!["  %", left_ptr.as_str(), " = extractvalue %yar.str ", left.repr.as_str(), ", 0\n"]);
        self.put(vec!["  %", left_len.as_str(), " = extractvalue %yar.str ", left.repr.as_str(), ", 1\n"]);
        self.put(vec!["  %", right_ptr.as_str(), " = extractvalue %yar.str ", right.repr.as_str(), ", 0\n"]);
        self.put(vec!["  %", right_len.as_str(), " = extractvalue %yar.str ", right.repr.as_str(), ", 1\n"]);
        self.put(
            vec![
                "  %",
                raw.as_str(),
                " = call i32 @yar_str_equal(ptr %",
                left_ptr.as_str(),
                ", i64 %",
                left_len.as_str(),
                ", ptr %",
                right_ptr.as_str(),
                ", i64 %",
                right_len.as_str(),
                ")\n",
            ],
        );
        self.put(vec!["  %", result.as_str(), " = icmp ", predicate, " i32 %", raw.as_str(), ", 0\n"]);
        Ok(value("bool", concat("%", result.as_str())))
    }

    fn emit_selector(&mut self, expression: &SelectorExpr) -> (r: Result<Value, CodegenError>)
        ensures
            final(self).g.info == old(self).g.info,
        decreases expression, 4int,
    {
        match self.emit_enum_case_selector(expression)? {
            Some(v) => {
                return Ok(v);
            },
            None => {},
        }
        let address = self.emit_selector_address(expression)?;
        self.load_address(&address)
    }

    fn emit_enum_case_selector(&mut self, expression: &SelectorExpr) -> (r: Result<Option<Value>, CodegenError>)
        ensures
            final(self).g.info == old(self).g.info,
    {
        let enum_ident = match &expression.inner {
            Expression::Ident(i) => i,
            _ => {
                return Ok(None);
            },
        };
        if !self.g.info.enums.contains_key(enum_ident.name.as_str()) {
            return Ok(None);
        }
        let enum_case = self.g.enum_case(enum_ident.name.as_str(), expression.name.as_str())?;
        if enum_case.payload_type.unicode_len() > 0 {
            return Err(
                CodegenError::unsupported(
                    cat(
                        vec![
                            "enum payload case ",
                            enum_ident.name.as_str(),
                            ".",
                            expression.name.as_str(),
                            " requires a payload",
                        ],
                    ).as_str(),
                ),
            );
        }
        let v = self.emit_enum_value(enum_ident.name.as_str(), &enum_case, None)?;
        Ok(Some(v))
    }

    fn emit_index(&mut self, expression: &IndexExpr) -> (r: Result<Value, CodegenError>)
        ensures
            final(self).g.info == old(self).g.info,
        decreases expression, 4int,
    {
        match self.expression_type_hint(&expression.inner) {
            Some(map_type) => match parse_map_type(map_type.as_str()) {
                Some((key_type, value_type)) => {
                    return self.emit_map_lookup(expression, key_type.as_str(), value_type.as_str());
                },
                None => {},
            },
            None => {},
        }
        match self.emit_index_address(expression) {
            Ok(address) => {
                return self.load_address(&address);
            },
            Err(_) => {},
        }
        let inner = self.emit_expression(&expression.inner)?;
        if !str_eq(inner.type_.as_str(), "str") {
            return Err(CodegenError::unsupported(concat("index for ", inner.type_.as_str()).as_str()));
        }
        let index = self.emit_expression(&expression.index)?;
        let index64 = self.int_to_i64(&index)?;
        let str_ptr = self.temp("str.ptr");
        let str_len = self.temp("str.len");
        self.put(vec!["  %", str_ptr.as_str(), " = extractvalue %yar.str ", inner.repr.as_str(), ", 0\n"]);
        self.put(vec!["  %", str_len.as_str(), " = extractvalue %yar.str ", inner.repr.as_str(), ", 1\n"]);
        self.put(vec!["  call void @yar_str_index_check(i64 ", index64.as_str(), ", i64 %", str_len.as_str(), ")\n"]);
        let byte_ptr = self.temp("str.byte.ptr");
        self.put(
            vec!["  %", byte_ptr.as_str(), " = getelementptr i8, ptr %", str_ptr.as_str(), ", i64 ", index64.as_str(), "\n"],
        );
        let byte = self.temp("str.byte");
        self.put(vec!["  %", byte.as_str(), " = load i8, ptr %", byte_ptr.as_str(), "\n"]);
        let result = self.temp("str.byte.i32");
        self.put(vec!["  %", result.as_str(), " = zext i8 %", byte.as_str(), " to i32\n"]);
        Ok(value("i32", concat("%", result.as_str())))
    }

    fn emit_slice(&mut self, expression: &SliceExpr) -> (r: Result<Value, CodegenError>)
        ensures
            final(self).g.info == old(self).g.info,
        decreases expression, 2int,
    {
        let inner = self.emit_expression(&expression.inner)?;
        match parse_slice_type(inner.type_.as_str()) {
            Some(element_type) => {
                return self.emit_slice_slice(expression, inner, element_type.as_str());
            },
            None => {},
        }
        if str_eq(inner.type_.as_str(), "str") {
            return self.emit_string_slice(expression, inner);
        }
        Err(CodegenError::unsupported("non-sliceable slice"))
    }

    /// A bound of a slice expression as an `i64` spelling, or `default`.
    fn emit_slice_bound(&mut self, owner: &SliceExpr, bound: &Option<Expression>, default: &str) -> (r: Result<
        String,
        CodegenError,
    >)
        requires
            decreases_to!(owner => bound),
        ensures
            final(self).g.info == old(self).g.info,
            bound is None ==> (r matches Ok(s) && s@ == default@),
        decreases owner, 0int,
    {
        match bound {
            Some(b) => {
                let v = self.emit_expression(b)?;
                self.int_to_i64(&v)
            },
            None => Ok(owned(default)),
        }
    }

    fn emit_string_slice(&mut self, expression: &SliceExpr, inner: Value) -> (r: Result<Value, CodegenError>)
        ensures
            final(self).g.info == old(self).g.info,
        decreases expression, 1int,
    {
        let str_ptr = self.temp("str.ptr");
        let str_len = self.temp("str.len");
        self.put(vec!["  %", str_ptr.as_str(), " = extractvalue %yar.str ", inner.repr.as_str(), ", 0\n"]);
        self.put(vec!["  %", str_len.as_str(), " = extractvalue %yar.str ", inner.repr.as_str(), ", 1\n"]);
        let start = self.emit_slice_bound(expression, &expression.start, "0")?;
        let end = self.emit_slice_bound(expression, &expression.end, concat("%", str_len.as_str()).as_str())?;
        self.put(
            vec![
                "  call void @yar_slice_range_check(i64 ",
                start.as_str(),
                ", i64 ",
                end.as_str(),
                ", i64 %",
                str_len.as_str(),
                ")\n",
            ],
        );
        let new_ptr = self.temp("str.slice.ptr");
        self.put(
            vec!["  %", new_ptr.as_str(), " = getelementptr i8, ptr %", str_ptr.as_str(), ", i64 ", start.as_str(), "\n"],
        );
        let new_len = self.temp("str.slice.len");
        self.put(vec!["  %", new_len.as_str(), " = sub i64 ", end.as_str(), ", ", start.as_str(), "\n"]);
        let first = self.temp("str.slice");
        self.put(vec!["  %", first.as_str(), " = insertvalue %yar.str undef, ptr %", new_ptr.as_str(), ", 0\n"]);
        let second = self.temp("str.slice");
        self.put(
            vec!["  %", second.as_str(), " = insertvalue %yar.str %", first.as_str(), ", i64 %", new_len.as_str(), ", 1\n"],
        );
        Ok(value("str", concat("%", second.as_str())))
    }

    fn emit_slice_slice(&mut self, expression: &SliceExpr, inner: Value, element_type: &str) -> (r: Result<
        Value,
        CodegenError,
    >)
        ensures
            final(self).g.info == old(self).g.info,
        decreases expression, 1int,
    {
        let data = self.extract_slice_field(inner.repr.as_str(), 0, "slice.data")?;
        let len = self.extract_slice_field(inner.repr.as_str(), 1, "slice.len")?;
        let cap = self.extract_slice_field(inner.repr.as_str(), 2, "slice.cap")?;
        let len64 = self.int_to_i64(&len)?;
        let cap64 = self.int_to_i64(&cap)?;
        let start = self.emit_slice_bound(expression, &expression.start, "0")?;
        let end = self.emit_slice_bound(expression, &expression.end, len64.as_str())?;
        self.put(
            vec![
                "  call void @yar_slice_range_check(i64 ",
                start.as_str(),
                ", i64 ",
                end.as_str(),
                ", i64 ",
                len64.as_str(),
                ")\n",
            ],
        );
        let new_ptr = self.temp("slice.ptr");
        let et = self.llvm_type(element_type)?;
        self.put(
            vec![
                "  %",
                new_ptr.as_str(),
                " = getelementptr ",
                et.as_str(),
                ", ptr ",
                data.repr.as_str(),
                ", i64 ",
                start.as_str(),
                "\n",
            ],
        );
        let new_len64 = self.temp("slice.len64");
        self.put(vec!["  %", new_len64.as_str(), " = sub i64 ", end.as_str(), ", ", start.as_str(), "\n"]);
        let new_len = self.temp("slice.len");
        self.put(vec!["  %", new_len.as_str(), " = trunc i64 %", new_len64.as_str(), " to i32\n"]);
        let new_cap64 = self.temp("slice.cap64");
        self.put(vec!["  %", new_cap64.as_str(), " = sub i64 ", cap64.as_str(), ", ", start.as_str(), "\n"]);
        let new_cap = self.temp("slice.cap");
        self.put(vec!["  %", new_cap.as_str(), " = trunc i64 %", new_cap64.as_str(), " to i32\n"]);
        let repr = self.emit_slice_value(
            concat("%", new_ptr.as_str()).as_str(),
            concat("%", new_len.as_str()).as_str(),
            concat("%", new_cap.as_str()).as_str(),
        );
        Ok(Value { type_: inner.type_, repr })
    }

    fn emit_logical(&mut self, expression: &BinaryExpr) -> (r: Result<Value, CodegenError>)
        ensures
            final(self).g.info == old(self).g.info,
        decreases expression, 1int,
    {
        let left = self.emit_expression(&expression.left)?;
        if !str_eq(left.type_.as_str(), "bool") {
            return Err(CodegenError::unsupported("logical lhs type"));
        }
        let slot = self.temp("logic.slot");
        self.put(vec!["  %", slot.as_str(), " = alloca i1\n"]);
        let rhs_label = self.label("logic.rhs");
        let merge_label = self.label("logic.end");
        if expression.operator == Kind::AmpAmp {
            self.put(vec!["  store i1 false, ptr %", slot.as_str(), "\n"]);
            self.put(
                vec![
                    "  br i1 ",
                    left.repr.as_str(),
                    ", label %",
                    rhs_label.as_str(),
                    ", label %",
                    merge_label.as_str(),
                    "\n",
                ],
            );
        } else if expression.operator == Kind::PipePipe {
            self.put(vec!["  store i1 true, ptr %", slot.as_str(), "\n"]);
            self.put(
                vec![
                    "  br i1 ",
                    left.repr.as_str(),
                    ", label %",
                    merge_label.as_str(),
                    ", label %",
                    rhs_label.as_str(),
                    "\n",
                ],
            );
        } else {
            return Err(CodegenError::unsupported("logical operator"));
        }
        self.start_block(rhs_label.as_str());
        let right = self.emit_expression(&expression.right)?;
        if !str_eq(right.type_.as_str(), "bool") {
            return Err(CodegenError::unsupported("logical rhs type"));
        }
        self.put(vec!["  store i1 ", right.repr.as_str(), ", ptr %", slot.as_str(), "\n"]);
        self.put(vec!["  br label %", merge_label.as_str(), "\n"]);
        self.start_block(merge_label.as_str());
        let result = self.temp("logic");
        self.put(vec!["  %", result.as_str(), " = load i1, ptr %", slot.as_str(), "\n"]);
        Ok(value("bool", concat("%", result.as_str())))
    }
}

} // verus!
