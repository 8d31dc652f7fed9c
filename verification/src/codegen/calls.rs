//! Lowering calls: builtins, methods, interface and function-value calls.
use vstd::prelude::*;

use super::emitter::{value, Address, FunctionEmitter, Value};
use super::names::{
    errorable_type, function_symbol, i32_text, interface_table_type_name, join_comma,
    result_type_name, usize_text, CodegenError,
};
use crate::ast::{CallExpr, Expression, IndexExpr};
use crate::checker::calls::{parse_function_type, FunctionType};
use crate::checker::types::{parse_array_type, parse_chan_type, parse_map_type, parse_slice_type};
use crate::checker::{InterfaceMethodInfo, Signature};
use crate::text::{cat, concat, owned, quote, str_eq};

verus! {

/// The value of a call that yields nothing.
pub fn void_value() -> (v: Value)
    ensures
        v.type_@ == "void"@,
        v.repr@.len() == 0,
{
    value("void", String::new())
}

impl<'a> FunctionEmitter<'a> {
    /// Lowers a call: a function value, an enum constructor, a method, a
    /// builtin or a declared function.
    pub fn emit_call(&mut self, call: &CallExpr) -> (r: Result<Value, CodegenError>)
        ensures
            final(self).g.info == old(self).g.info,
        decreases call, 9int,
    {
        match self.expression_type_hint(&call.callee) {
            Some(callee_type) => match parse_function_type(callee_type.as_str()) {
                Some(function_type) => {
                    return self.emit_closure_call(call, &function_type);
                },
                None => {},
            },
            None => {},
        }
        match &call.callee {
            Expression::Selector(_) => {
                match self.emit_enum_positional_constructor(call)? {
                    Some(v) => {
                        return Ok(v);
                    },
                    None => {},
                }
                return self.emit_method_call(call);
            },
            Expression::TypeApplication(applied) => match &applied.inner {
                Expression::Ident(ident) => {
                    if str_eq(ident.name.as_str(), "chan_new") {
                        return self.emit_chan_new(call);
                    }
                },
                _ => {},
            },
            _ => {},
        }
        let name = match &call.callee {
            Expression::Ident(callee) => callee.name.clone(),
            _ => {
                return Err(CodegenError::unsupported("non-identifier call"));
            },
        };
        let n = name.as_str();
        if str_eq(n, "print") {
            self.emit_print(call)
        } else if str_eq(n, "panic") {
            self.emit_panic(call)
        } else if str_eq(n, "chr") {
            self.emit_chr(call)
        } else if str_eq(n, "i32_to_i64") {
            self.emit_i32_to_i64(call)
        } else if str_eq(n, "i64_to_i32") {
            self.emit_i64_to_i32(call)
        } else if str_eq(n, "sb_new") {
            self.emit_sb_new(call)
        } else if str_eq(n, "sb_write") {
            self.emit_sb_write(call)
        } else if str_eq(n, "sb_string") {
            self.emit_sb_string(call)
        } else if str_eq(n, "len") {
            self.emit_len(call)
        } else if str_eq(n, "append") {
            self.emit_append(call)
        } else if str_eq(n, "has") {
            self.emit_map_has(call)
        } else if str_eq(n, "delete") {
            self.emit_map_delete(call)
        } else if str_eq(n, "keys") {
            self.emit_map_keys(call)
        } else if str_eq(n, "chan_send") {
            self.emit_chan_send(call)
        } else if str_eq(n, "chan_recv") {
            self.emit_chan_recv(call)
        } else if str_eq(n, "chan_close") {
            self.emit_chan_close(call)
        } else if str_eq(n, "to_str") {
            self.emit_to_str(call)
        } else {
            self.emit_user_call(n, call)
        }
    }

    /// `Enum.Case(value)` for a case with one field; `None` when the callee
    /// names no enum.
    fn emit_enum_positional_constructor(&mut self, call: &CallExpr) -> (r: Result<Option<Value>, CodegenError>)
        ensures
            final(self).g.info == old(self).g.info,
        decreases call, 8int,
    {
        let selector = match &call.callee {
            Expression::Selector(s) => s,
            _ => {
                return Ok(None);
            },
        };
        let enum_name = match &selector.inner {
            Expression::Ident(i) => i.name.clone(),
            _ => {
                return Ok(None);
            },
        };
        if !self.g.info.enums.contains_key(enum_name.as_str()) {
            return Ok(None);
        }
        let enum_case = self.g.enum_case(enum_name.as_str(), selector.name.as_str())?;
        if enum_case.fields.len() != 1 || call.args.len() != 1 {
            return Err(
                CodegenError::unsupported(
                    cat(
                        vec!["enum positional constructor ", enum_name.as_str(), ".", selector.name.as_str()],
                    ).as_str(),
                ),
            );
        }
        let field_type = enum_case.fields[0].type_.clone();
        assert(decreases_to!(call => call.args@[0]));
        let field_value = self.emit_expression_as(&call.args[0], field_type.as_str())?;
        if !str_eq(field_value.type_.as_str(), field_type.as_str()) {
            return Err(
                CodegenError::unsupported(
                    concat("enum constructor field has type ", field_value.type_.as_str()).as_str(),
                ),
            );
        }
        let payload_type = enum_case.payload_type.clone();
        let payload = self.emit_struct_field_value(payload_type.as_str(), &field_value, 0)?;
        let v = self.emit_enum_value(enum_name.as_str(), &enum_case, Some(&payload))?;
        Ok(Some(v))
    }

    /// `receiver.method(args)`: through the method table of an interface
    /// value, or directly to the method of the receiver's type.
    fn emit_method_call(&mut self, call: &CallExpr) -> (r: Result<Value, CodegenError>)
        ensures
            final(self).g.info == old(self).g.info,
        decreases call, 8int,
    {
        let selector = match &call.callee {
            Expression::Selector(s) => s,
            _ => {
                return Err(CodegenError::unsupported("non-identifier call"));
            },
        };
        let receiver = self.emit_expression(&selector.inner)?;
        match self.g.info.interfaces.get(receiver.type_.as_str()) {
            Some(interface) => {
                let methods = interface.methods.clone();
                let mut found: Option<usize> = None;
                let mut m: usize = 0;
                while m < methods.len()
                    invariant
                        self.g.info == old(self).g.info,
                        m <= methods@.len(),
                        found is None || found.unwrap() < methods@.len(),
                    decreases methods.len() - m,
                {
                    if str_eq(methods[m].name.as_str(), selector.name.as_str()) {
                        found = Some(m);
                        break;
                    }
                    m = m + 1;
                }
                let method_index = match found {
                    Some(i) => i,
                    None => {
                        return Err(
                            CodegenError::unsupported(
                                cat(
                                    vec![
                                        "unknown interface method ",
                                        receiver.type_.as_str(),
                                        ".",
                                        selector.name.as_str(),
                                    ],
                                ).as_str(),
                            ),
                        );
                    },
                };
                let method = methods[method_index].clone();
                if method.params.len() != call.args.len() {
                    return Err(
                        CodegenError::unsupported(
                            cat(
                                vec![
                                    "interface method call arity for ",
                                    receiver.type_.as_str(),
                                    ".",
                                    selector.name.as_str(),
                                ],
                            ).as_str(),
                        ),
                    );
                }
                let mut args: Vec<Value> = Vec::new();
                let mut idx: usize = 0;
                while idx < call.args.len()
                    invariant
                        self.g.info == old(self).g.info,
                        idx <= call.args@.len(),
                        method.params@.len() == call.args@.len(),
                    decreases call.args.len() - idx,
                {
                    assert(decreases_to!(call => call.args@[idx as int]));
                    let v = self.emit_expression_as(&call.args[idx], method.params[idx].as_str())?;
                    args.push(v);
                    idx = idx + 1;
                }
                return self.emit_interface_call(receiver, &method, method_index, args);
            },
            None => {},
        }
        let signature = match self.g.method_signature(receiver.type_.as_str(), selector.name.as_str()) {
            Some(s) => s,
            None => {
                return Err(
                    CodegenError::unsupported(
                        cat(vec!["unknown method ", receiver.type_.as_str(), ".", selector.name.as_str()]).as_str(),
                    ),
                );
            },
        };
        if signature.params.len() == 0 || signature.params.len() - 1 != call.args.len() {
            return Err(
                CodegenError::unsupported(concat("method call arity for ", signature.full_name.as_str()).as_str()),
            );
        }
        let mut args: Vec<Value> = Vec::new();
        args.push(receiver);
        let mut idx: usize = 0;
        while idx < call.args.len()
            invariant
                self.g.info == old(self).g.info,
                idx <= call.args@.len(),
                signature.params@.len() == call.args@.len() + 1,
            decreases call.args.len() - idx,
        {
            assert(decreases_to!(call => call.args@[idx as int]));
            let v = self.emit_expression_as(&call.args[idx], signature.params[idx + 1].as_str())?;
            args.push(v);
            idx = idx + 1;
        }
        self.emit_direct_call(&signature, args)
    }

    /// A call through an interface value's method table, panicking on a nil value.
    fn emit_interface_call(
        &mut self,
        receiver: Value,
        method: &InterfaceMethodInfo,
        method_index: usize,
        args: Vec<Value>,
    ) -> (r: Result<Value, CodegenError>)
        ensures
            final(self).g.info == old(self).g.info,
            r matches Ok(v) ==> v.type_@ == (if method.errorable {
                "!"@ + method.return_type@
            } else if method.return_type@ == "void"@ {
                "void"@
            } else {
                method.return_type@
            }),
    {
        let table = self.temp("iface.table");
        self.put(vec!["  %", table.as_str(), " = extractvalue %yar.iface ", receiver.repr.as_str(), ", 1\n"]);
        let is_nil = self.temp("iface.nil");
        let panic_label = self.label("iface.nil");
        let call_label = self.label("iface.call");
        self.put(vec!["  %", is_nil.as_str(), " = icmp eq ptr %", table.as_str(), ", null\n"]);
        self.put(
            vec![
                "  br i1 %",
                is_nil.as_str(),
                ", label %",
                panic_label.as_str(),
                ", label %",
                call_label.as_str(),
                "\n",
            ],
        );
        self.terminated = true;
        self.start_block(panic_label.as_str());
        self.terminated = false;
        self.emit_nil_interface_panic()?;
        self.start_block(call_label.as_str());
        self.terminated = false;
        let data = self.temp("iface.data");
        self.put(vec!["  %", data.as_str(), " = extractvalue %yar.iface ", receiver.repr.as_str(), ", 0\n"]);
        let method_ptr_ptr = self.temp("iface.method.ptr");
        self.put(
            vec![
                "  %",
                method_ptr_ptr.as_str(),
                " = getelementptr inbounds ",
                interface_table_type_name(receiver.type_.as_str()).as_str(),
                ", ptr %",
                table.as_str(),
                ", i32 0, i32 ",
                usize_text(method_index).as_str(),
                "\n",
            ],
        );
        let method_ptr = self.temp("iface.method");
        self.put(vec!["  %", method_ptr.as_str(), " = load ptr, ptr %", method_ptr_ptr.as_str(), "\n"]);
        let mut call_args: Vec<String> = Vec::new();
        call_args.push(concat("ptr %", data.as_str()));
        let mut idx: usize = 0;
        while idx < args.len()
            invariant
                self.g.info == old(self).g.info,
                idx <= args@.len(),
            decreases args.len() - idx,
        {
            if idx >= method.params.len() || !str_eq(args[idx].type_.as_str(), method.params[idx].as_str()) {
                let number = if idx < usize::MAX {
                    usize_text(idx + 1)
                } else {
                    usize_text(idx)
                };
                return Err(
                    CodegenError::unsupported(
                        cat(
                            vec!["interface argument ", number.as_str(), " has type ", args[idx].type_.as_str()],
                        ).as_str(),
                    ),
                );
            }
            let t = self.llvm_type(method.params[idx].as_str())?;
            call_args.push(cat(vec![t.as_str(), " ", args[idx].repr.as_str()]));
            idx = idx + 1;
        }
        let return_type = if method.errorable {
            result_type_name(method.return_type.as_str())
        } else {
            self.llvm_type(method.return_type.as_str())?
        };
        let rt = method.return_type.as_str();
        if !method.errorable && (str_eq(rt, "void") || str_eq(rt, "noreturn")) {
            self.put(vec!["  call void %", method_ptr.as_str(), "(", join_comma(&call_args).as_str(), ")\n"]);
            if str_eq(rt, "noreturn") {
                self.body.append("  unreachable\n");
                self.terminated = true;
                return Ok(value("noreturn", String::new()));
            }
            return Ok(void_value());
        }
        let result = self.temp("iface.call");
        self.put(
            vec![
                "  %",
                result.as_str(),
                " = call ",
                return_type.as_str(),
                " %",
                method_ptr.as_str(),
                "(",
                join_comma(&call_args).as_str(),
                ")\n",
            ],
        );
        let t = if method.errorable {
            errorable_type(rt)
        } else {
            owned(rt)
        };
        Ok(Value { type_: t, repr: concat("%", result.as_str()) })
    }

    /// The panic for a method call on a nil interface value.
    fn emit_nil_interface_panic(&mut self) -> (r: Result<(), CodegenError>)
        ensures
            final(self).g.info == old(self).g.info,
    {
        let message = self.emit_string_literal("nil interface method call")?;
        self.emit_str_panic("iface.panic", message.repr.as_str());
        Ok(())
    }

    /// Passes a string's pointer and length to `yar_panic`; the block ends there.
    pub fn emit_str_panic(&mut self, prefix: &str, s: &str)
        ensures
            final(self).g.info == old(self).g.info,
    {
        let ptr = self.temp(concat(prefix, ".ptr").as_str());
        let len = self.temp(concat(prefix, ".len").as_str());
        self.put(vec!["  %", ptr.as_str(), " = extractvalue %yar.str ", s, ", 0\n"]);
        self.put(vec!["  %", len.as_str(), " = extractvalue %yar.str ", s, ", 1\n"]);
        self.put(vec!["  call void @yar_panic(ptr %", ptr.as_str(), ", i64 %", len.as_str(), ")\n"]);
        self.body.append("  unreachable\n");
        self.terminated = true;
    }

    /// A call of a function value: its code with its environment first.
    fn emit_closure_call(&mut self, call: &CallExpr, function_type: &FunctionType) -> (r: Result<
        Value,
        CodegenError,
    >)
        ensures
            final(self).g.info == old(self).g.info,
            r matches Ok(v) ==> v.type_@ == (if function_type.errorable {
                "!"@ + function_type.return_type@
            } else {
                function_type.return_type@
            }),
        decreases call, 8int,
    {
        if call.args.len() != function_type.params.len() {
            return Err(CodegenError::unsupported("function value call arity"));
        }
        let callee = self.emit_expression(&call.callee)?;
        let code = self.temp("closure.code");
        let env = self.temp("closure.env");
        self.put(vec!["  %", code.as_str(), " = extractvalue %yar.closure ", callee.repr.as_str(), ", 0\n"]);
        self.put(vec!["  %", env.as_str(), " = extractvalue %yar.closure ", callee.repr.as_str(), ", 1\n"]);
        let mut args: Vec<String> = Vec::new();
        args.push(concat("ptr %", env.as_str()));
        let mut idx: usize = 0;
        while idx < call.args.len()
            invariant
                self.g.info == old(self).g.info,
                idx <= call.args@.len(),
                function_type.params@.len() == call.args@.len(),
            decreases call.args.len() - idx,
        {
            assert(decreases_to!(call => call.args@[idx as int]));
            let expected = function_type.params[idx].as_str();
            let v = self.emit_expression_as(&call.args[idx], expected)?;
            if !str_eq(v.type_.as_str(), expected) {
                return Err(
                    CodegenError::unsupported(
                        cat(
                            vec![
                                "function value argument ",
                                usize_text(idx + 1).as_str(),
                                " has type ",
                                v.type_.as_str(),
                            ],
                        ).as_str(),
                    ),
                );
            }
            let t = self.llvm_type(expected)?;
            args.push(cat(vec![t.as_str(), " ", v.repr.as_str()]));
            idx = idx + 1;
        }
        let rt = function_type.return_type.as_str();
        let return_type = if function_type.errorable {
            result_type_name(rt)
        } else {
            self.llvm_type(rt)?
        };
        if !function_type.errorable && str_eq(rt, "void") {
            self.put(vec!["  call void %", code.as_str(), "(", join_comma(&args).as_str(), ")\n"]);
            return Ok(void_value());
        }
        let result = self.temp("call");
        self.put(
            vec![
                "  %",
                result.as_str(),
                " = call ",
                return_type.as_str(),
                " %",
                code.as_str(),
                "(",
                join_comma(&args).as_str(),
                ")\n",
            ],
        );
        let t = if function_type.errorable {
            errorable_type(rt)
        } else {
            owned(rt)
        };
        Ok(Value { type_: t, repr: concat("%", result.as_str()) })
    }

    /// `print(s)`: writes a string.
    fn emit_print(&mut self, call: &CallExpr) -> (r: Result<Value, CodegenError>)
        ensures
            final(self).g.info == old(self).g.info,
            r matches Ok(v) ==> v.type_@ == "void"@,
        decreases call, 8int,
    {
        if call.args.len() != 1 {
            return Err(CodegenError::unsupported("print arity"));
        }
        assert(decreases_to!(call => call.args@[0]));
        let arg = self.emit_expression(&call.args[0])?;
        if !str_eq(arg.type_.as_str(), "str") {
            return Err(CodegenError::unsupported("print non-str argument"));
        }
        let ptr = self.temp("print.ptr");
        let len = self.temp("print.len");
        self.put(vec!["  %", ptr.as_str(), " = extractvalue %yar.str ", arg.repr.as_str(), ", 0\n"]);
        self.put(vec!["  %", len.as_str(), " = extractvalue %yar.str ", arg.repr.as_str(), ", 1\n"]);
        self.put(vec!["  call void @yar_print(ptr %", ptr.as_str(), ", i64 %", len.as_str(), ")\n"]);
        Ok(void_value())
    }

    /// `panic(s)`: writes a string and stops the program.
    fn emit_panic(&mut self, call: &CallExpr) -> (r: Result<Value, CodegenError>)
        ensures
            final(self).g.info == old(self).g.info,
            r matches Ok(v) ==> v.type_@ == "noreturn"@,
        decreases call, 8int,
    {
        if call.args.len() != 1 {
            return Err(CodegenError::unsupported("panic arity"));
        }
        assert(decreases_to!(call => call.args@[0]));
        let arg = self.emit_expression(&call.args[0])?;
        if !str_eq(arg.type_.as_str(), "str") {
            return Err(CodegenError::unsupported("panic non-str argument"));
        }
        self.emit_str_panic("panic", arg.repr.as_str());
        Ok(value("noreturn", String::new()))
    }

    /// `chr(b)`: the one-byte string of a byte.
    fn emit_chr(&mut self, call: &CallExpr) -> (r: Result<Value, CodegenError>)
        ensures
            final(self).g.info == old(self).g.info,
            r matches Ok(v) ==> v.type_@ == "str"@,
        decreases call, 8int,
    {
        if call.args.len() != 1 {
            return Err(CodegenError::unsupported("chr arity"));
        }
        assert(decreases_to!(call => call.args@[0]));
        let arg = self.emit_expression_as(&call.args[0], "i32")?;
        let result_slot = self.temp("chr.slot");
        self.put(vec!["  %", result_slot.as_str(), " = alloca %yar.str\n"]);
        self.put(
            vec!["  call void @yar_str_from_byte(i32 ", arg.repr.as_str(), ", ptr %", result_slot.as_str(), ")\n"],
        );
        let result = self.temp("chr");
        self.put(vec!["  %", result.as_str(), " = load %yar.str, ptr %", result_slot.as_str(), "\n"]);
        Ok(value("str", concat("%", result.as_str())))
    }

    /// `i32_to_i64(x)`: sign-extends.
    fn emit_i32_to_i64(&mut self, call: &CallExpr) -> (r: Result<Value, CodegenError>)
        ensures
            final(self).g.info == old(self).g.info,
            r matches Ok(v) ==> v.type_@ == "i64"@,
        decreases call, 8int,
    {
        if call.args.len() != 1 {
            return Err(CodegenError::unsupported("i32_to_i64 arity"));
        }
        assert(decreases_to!(call => call.args@[0]));
        let arg = self.emit_expression_as(&call.args[0], "i32")?;
        let result = self.temp("widen");
        self.put(vec!["  %", result.as_str(), " = sext i32 ", arg.repr.as_str(), " to i64\n"]);
        Ok(value("i64", concat("%", result.as_str())))
    }

    /// `i64_to_i32(x)`: truncates.
    fn emit_i64_to_i32(&mut self, call: &CallExpr) -> (r: Result<Value, CodegenError>)
        ensures
            final(self).g.info == old(self).g.info,
            r matches Ok(v) ==> v.type_@ == "i32"@,
        decreases call, 8int,
    {
        if call.args.len() != 1 {
            return Err(CodegenError::unsupported("i64_to_i32 arity"));
        }
        assert(decreases_to!(call => call.args@[0]));
        let arg = self.emit_expression_as(&call.args[0], "i64")?;
        let result = self.temp("narrow");
        self.put(vec!["  %", result.as_str(), " = trunc i64 ", arg.repr.as_str(), " to i32\n"]);
        Ok(value("i32", concat("%", result.as_str())))
    }

    /// `sb_new()`: a fresh string builder handle.
    fn emit_sb_new(&mut self, call: &CallExpr) -> (r: Result<Value, CodegenError>)
        ensures
            final(self).g.info == old(self).g.info,
            r matches Ok(v) ==> v.type_@ == "i64"@,
            r is Ok <==> call.args@.len() == 0,
            r matches Ok(v) ==> v.repr@ == "%"@ + "sb.handle"@ + "."@ + crate::text::decimal(old(self).next_id as nat)
                && final(self).body@ == old(self).body@ + "  "@ + v.repr@ + " = call i64 @yar_sb_new()\n"@,
            r is Err ==> final(self).body@ == old(self).body@,
            final(self).g == old(self).g,
    {
        if call.args.len() != 0 {
            return Err(CodegenError::unsupported("sb_new arity"));
        }
        let handle = self.temp("sb.handle");
        let parts = vec!["  %", handle.as_str(), " = call i64 @yar_sb_new()\n"];
        proof {
            crate::text::lemma_concat_all_triple(parts@);
            reveal_strlit("  %");
            reveal_strlit("  ");
            reveal_strlit("%");
        }
        self.put(parts);
        let v = value("i64", concat("%", handle.as_str()));
        assert("  %"@ == "  "@ + "%"@);
        assert(self.body@ =~= old(self).body@ + "  "@ + v.repr@ + " = call i64 @yar_sb_new()\n"@);
        Ok(v)
    }

    /// `sb_write(handle, s)`: appends a string to a builder.
    fn emit_sb_write(&mut self, call: &CallExpr) -> (r: Result<Value, CodegenError>)
        ensures
            final(self).g.info == old(self).g.info,
            r matches Ok(v) ==> v.type_@ == "void"@,
        decreases call, 8int,
    {
        if call.args.len() != 2 {
            return Err(CodegenError::unsupported("sb_write arity"));
        }
        assert(decreases_to!(call => call.args@[0]));
        assert(decreases_to!(call => call.args@[1]));
        let handle = self.emit_expression_as(&call.args[0], "i64")?;
        let data = self.emit_expression_as(&call.args[1], "str")?;
        let data_ptr = self.temp("sb.str.ptr");
        let data_len = self.temp("sb.str.len");
        self.put(vec!["  %", data_ptr.as_str(), " = extractvalue %yar.str ", data.repr.as_str(), ", 0\n"]);
        self.put(vec!["  %", data_len.as_str(), " = extractvalue %yar.str ", data.repr.as_str(), ", 1\n"]);
        self.put(
            vec![
                "  call void @yar_sb_write(i64 ",
                handle.repr.as_str(),
                ", ptr %",
                data_ptr.as_str(),
                ", i64 %",
                data_len.as_str(),
                ")\n",
            ],
        );
        Ok(void_value())
    }

    /// `sb_string(handle)`: the text written to a builder.
    fn emit_sb_string(&mut self, call: &CallExpr) -> (r: Result<Value, CodegenError>)
        ensures
            final(self).g.info == old(self).g.info,
            r matches Ok(v) ==> v.type_@ == "str"@,
        decreases call, 8int,
    {
        if call.args.len() != 1 {
            return Err(CodegenError::unsupported("sb_string arity"));
        }
        assert(decreases_to!(call => call.args@[0]));
        let handle = self.emit_expression_as(&call.args[0], "i64")?;
        let result_slot = self.temp("sb.result.slot");
        self.put(vec!["  %", result_slot.as_str(), " = alloca %yar.str\n"]);
        self.put(
            vec!["  call void @yar_sb_string(i64 ", handle.repr.as_str(), ", ptr %", result_slot.as_str(), ")\n"],
        );
        let result = self.temp("sb.result");
        self.put(vec!["  %", result.as_str(), " = load %yar.str, ptr %", result_slot.as_str(), "\n"]);
        Ok(value("str", concat("%", result.as_str())))
    }
}

impl<'a> FunctionEmitter<'a> {
    /// `len(x)`: the length of an array (a constant), map, slice or string.
    fn emit_len(&mut self, call: &CallExpr) -> (r: Result<Value, CodegenError>)
        ensures
            final(self).g.info == old(self).g.info,
            r matches Ok(v) ==> v.type_@ == "i32"@,
        decreases call, 8int,
    {
        if call.args.len() != 1 {
            return Err(CodegenError::unsupported("len arity"));
        }
        assert(decreases_to!(call => call.args@[0]));
        match self.static_array_len(&call.args[0])? {
            Some((len, _)) => {
                return Ok(value("i32", usize_text(len)));
            },
            None => {},
        }
        let arg = self.emit_expression(&call.args[0])?;
        if parse_map_type(arg.type_.as_str()).is_some() {
            let result = self.temp("map.len");
            self.put(vec!["  %", result.as_str(), " = call i32 @yar_map_len(ptr ", arg.repr.as_str(), ")\n"]);
            return Ok(value("i32", concat("%", result.as_str())));
        }
        if parse_slice_type(arg.type_.as_str()).is_some() {
            return self.extract_slice_field(arg.repr.as_str(), 1, "slice.len");
        }
        if str_eq(arg.type_.as_str(), "str") {
            let len64 = self.temp("str.len64");
            self.put(vec!["  %", len64.as_str(), " = extractvalue %yar.str ", arg.repr.as_str(), ", 1\n"]);
            let len32 = self.temp("str.len");
            self.put(vec!["  %", len32.as_str(), " = trunc i64 %", len64.as_str(), " to i32\n"]);
            return Ok(value("i32", concat("%", len32.as_str())));
        }
        Err(CodegenError::unsupported("len unsupported argument"))
    }

    /// The length and element type of an expression whose array type is
    /// known without lowering it.
    fn static_array_len(&self, expression: &Expression) -> (r: Result<Option<(usize, String)>, CodegenError>)
        decreases expression,
    {
        match expression {
            Expression::Ident(e) => match self.locals.get(e.name.as_str()) {
                Some(local) => Ok(parse_array_type(local.type_.as_str())),
                None => Err(
                    CodegenError::unsupported(concat("unknown local ", quote(e.name.as_str()).as_str()).as_str()),
                ),
            },
            Expression::ArrayLiteral(e) => Ok(parse_array_type(e.type_ref.display().as_str())),
            Expression::Group(e) => self.static_array_len(&e.inner),
            _ => Ok(None),
        }
    }

    /// `has(m, k)`: whether a key is present.
    fn emit_map_has(&mut self, call: &CallExpr) -> (r: Result<Value, CodegenError>)
        ensures
            final(self).g.info == old(self).g.info,
            r matches Ok(v) ==> v.type_@ == "bool"@,
        decreases call, 8int,
    {
        if call.args.len() != 2 {
            return Err(CodegenError::unsupported("has arity"));
        }
        assert(decreases_to!(call => call.args@[0]));
        assert(decreases_to!(call => call.args@[1]));
        let map = self.emit_expression(&call.args[0])?;
        let key_type = match parse_map_type(map.type_.as_str()) {
            Some((k, _)) => k,
            None => {
                return Err(CodegenError::unsupported("has non-map argument"));
            },
        };
        let key = self.emit_expression_as(&call.args[1], key_type.as_str())?;
        let key_slot = self.emit_stack_slot("map.key.slot", key_type.as_str(), key.repr.as_str())?;
        let raw = self.temp("map.has");
        self.put(
            vec![
                "  %",
                raw.as_str(),
                " = call i32 @yar_map_has(ptr ",
                map.repr.as_str(),
                ", ptr ",
                key_slot.as_str(),
                ")\n",
            ],
        );
        let result = self.temp("map.has.bool");
        self.put(vec!["  %", result.as_str(), " = icmp ne i32 %", raw.as_str(), ", 0\n"]);
        Ok(value("bool", concat("%", result.as_str())))
    }

    /// `delete(m, k)`: removes a key.
    fn emit_map_delete(&mut self, call: &CallExpr) -> (r: Result<Value, CodegenError>)
        ensures
            final(self).g.info == old(self).g.info,
            r matches Ok(v) ==> v.type_@ == "void"@,
        decreases call, 8int,
    {
        if call.args.len() != 2 {
            return Err(CodegenError::unsupported("delete arity"));
        }
        assert(decreases_to!(call => call.args@[0]));
        assert(decreases_to!(call => call.args@[1]));
        let map = self.emit_expression(&call.args[0])?;
        let key_type = match parse_map_type(map.type_.as_str()) {
            Some((k, _)) => k,
            None => {
                return Err(CodegenError::unsupported("delete non-map argument"));
            },
        };
        let key = self.emit_expression_as(&call.args[1], key_type.as_str())?;
        let key_slot = self.emit_stack_slot("map.key.slot", key_type.as_str(), key.repr.as_str())?;
        self.put(vec!["  call void @yar_map_delete(ptr ", map.repr.as_str(), ", ptr ", key_slot.as_str(), ")\n"]);
        Ok(void_value())
    }

    /// `keys(m)`: a slice of a map's keys.
    fn emit_map_keys(&mut self, call: &CallExpr) -> (r: Result<Value, CodegenError>)
        ensures
            final(self).g.info == old(self).g.info,
        decreases call, 8int,
    {
        if call.args.len() != 1 {
            return Err(CodegenError::unsupported("keys arity"));
        }
        assert(decreases_to!(call => call.args@[0]));
        let map = self.emit_expression(&call.args[0])?;
        let key_type = match parse_map_type(map.type_.as_str()) {
            Some((k, _)) => k,
            None => {
                return Err(CodegenError::unsupported("keys non-map argument"));
            },
        };
        let result_slot = self.temp("map.keys.slot");
        self.put(vec!["  %", result_slot.as_str(), " = alloca %yar.slice\n"]);
        self.put(
            vec!["  call void @yar_map_keys(ptr ", map.repr.as_str(), ", ptr %", result_slot.as_str(), ")\n"],
        );
        let result = self.temp("map.keys");
        self.put(vec!["  %", result.as_str(), " = load %yar.slice, ptr %", result_slot.as_str(), "\n"]);
        Ok(Value { type_: concat("[]", key_type.as_str()), repr: concat("%", result.as_str()) })
    }

    /// `chan_new[T](capacity)`: a channel of elements of `T`.
    fn emit_chan_new(&mut self, call: &CallExpr) -> (r: Result<Value, CodegenError>)
        ensures
            final(self).g.info == old(self).g.info,
        decreases call, 8int,
    {
        let applied = match &call.callee {
            Expression::TypeApplication(a) => a,
            _ => {
                return Err(CodegenError::unsupported("non-identifier call"));
            },
        };
        if call.args.len() != 1 {
            return Err(CodegenError::unsupported("chan_new arity"));
        }
        if applied.type_args.len() != 1 {
            return Err(CodegenError::unsupported("chan_new type argument count"));
        }
        let element_type = applied.type_args[0].display();
        assert(decreases_to!(call => call.args@[0]));
        let capacity = self.emit_expression_as(&call.args[0], "i32")?;
        if !str_eq(capacity.type_.as_str(), "i32") {
            return Err(
                CodegenError::unsupported(concat("chan_new capacity has type ", capacity.type_.as_str()).as_str()),
            );
        }
        let elem_size = self.type_size(element_type.as_str())?;
        let handle = self.temp("chan.new");
        self.put(
            vec![
                "  %",
                handle.as_str(),
                " = call ptr @yar_chan_new(i64 ",
                i32_text(elem_size).as_str(),
                ", i32 ",
                capacity.repr.as_str(),
                ")\n",
            ],
        );
        Ok(Value { type_: cat(vec!["chan[", element_type.as_str(), "]"]), repr: concat("%", handle.as_str()) })
    }

    /// `chan_send(c, v)`: an errorable send, failing once the channel is closed.
    fn emit_chan_send(&mut self, call: &CallExpr) -> (r: Result<Value, CodegenError>)
        ensures
            final(self).g.info == old(self).g.info,
            r matches Ok(v) ==> v.type_@ == "!"@ + "void"@,
        decreases call, 8int,
    {
        if call.args.len() != 2 {
            return Err(CodegenError::unsupported("chan_send arity"));
        }
        assert(decreases_to!(call => call.args@[0]));
        assert(decreases_to!(call => call.args@[1]));
        let channel = self.emit_expression(&call.args[0])?;
        let element_type = match parse_chan_type(channel.type_.as_str()) {
            Some(e) => e,
            None => {
                return Err(CodegenError::unsupported("chan_send non-channel argument"));
            },
        };
        let v = self.emit_expression_as(&call.args[1], element_type.as_str())?;
        if !str_eq(v.type_.as_str(), element_type.as_str()) {
            return Err(CodegenError::unsupported(concat("chan_send value has type ", v.type_.as_str()).as_str()));
        }
        let slot = self.emit_stack_slot("chan.send.slot", element_type.as_str(), v.repr.as_str())?;
        let status = self.temp("chan.send.status");
        self.put(
            vec![
                "  %",
                status.as_str(),
                " = call i32 @yar_chan_send(ptr ",
                channel.repr.as_str(),
                ", ptr ",
                slot.as_str(),
                ")\n",
            ],
        );
        self.emit_closed_status_result("void", concat("%", status.as_str()).as_str(), None)
    }

    /// `chan_recv(c)`: an errorable receive, failing once the channel is
    /// closed and drained.
    fn emit_chan_recv(&mut self, call: &CallExpr) -> (r: Result<Value, CodegenError>)
        ensures
            final(self).g.info == old(self).g.info,
        decreases call, 8int,
    {
        if call.args.len() != 1 {
            return Err(CodegenError::unsupported("chan_recv arity"));
        }
        assert(decreases_to!(call => call.args@[0]));
        let channel = self.emit_expression(&call.args[0])?;
        let element_type = match parse_chan_type(channel.type_.as_str()) {
            Some(e) => e,
            None => {
                return Err(CodegenError::unsupported("chan_recv non-channel argument"));
            },
        };
        let out = self.temp("chan.recv.out");
        let element_llvm = self.llvm_type(element_type.as_str())?;
        let zero = self.zero_value(element_type.as_str())?;
        self.put(vec!["  %", out.as_str(), " = alloca ", element_llvm.as_str(), "\n"]);
        self.put(vec!["  store ", element_llvm.as_str(), " ", zero.repr.as_str(), ", ptr %", out.as_str(), "\n"]);
        let status = self.temp("chan.recv.status");
        self.put(
            vec![
                "  %",
                status.as_str(),
                " = call i32 @yar_chan_recv(ptr ",
                channel.repr.as_str(),
                ", ptr %",
                out.as_str(),
                ")\n",
            ],
        );
        let v = self.load_address(&Address { type_: element_type.clone(), ptr: concat("%", out.as_str()) })?;
        self.emit_closed_status_result(
            element_type.as_str(),
            concat("%", status.as_str()).as_str(),
            Some(v.repr.as_str()),
        )
    }

    /// `chan_close(c)`.
    fn emit_chan_close(&mut self, call: &CallExpr) -> (r: Result<Value, CodegenError>)
        ensures
            final(self).g.info == old(self).g.info,
            r matches Ok(v) ==> v.type_@ == "void"@,
        decreases call, 8int,
    {
        if call.args.len() != 1 {
            return Err(CodegenError::unsupported("chan_close arity"));
        }
        assert(decreases_to!(call => call.args@[0]));
        let channel = self.emit_expression(&call.args[0])?;
        if parse_chan_type(channel.type_.as_str()).is_none() {
            return Err(CodegenError::unsupported("chan_close non-channel argument"));
        }
        self.put(vec!["  call void @yar_chan_close(ptr ", channel.repr.as_str(), ")\n"]);
        Ok(void_value())
    }

    /// `m[k]` on a map: an errorable value, `error.MissingKey` when absent.
    pub fn emit_map_lookup(&mut self, expression: &IndexExpr, key_type: &str, value_type: &str) -> (r: Result<
        Value,
        CodegenError,
    >)
        ensures
            final(self).g.info == old(self).g.info,
            r matches Ok(v) ==> v.type_@ == "!"@ + value_type@,
        decreases expression, 3int,
    {
        let map = self.emit_expression(&expression.inner)?;
        let key = self.emit_expression_as(&expression.index, key_type)?;
        let key_slot = self.emit_stack_slot("map.key.slot", key_type, key.repr.as_str())?;
        let value_slot = self.temp("map.val.slot");
        let value_llvm = self.llvm_type(value_type)?;
        self.put(vec!["  %", value_slot.as_str(), " = alloca ", value_llvm.as_str(), "\n"]);
        let found = self.temp("map.found");
        self.put(
            vec![
                "  %",
                found.as_str(),
                " = call i32 @yar_map_get(ptr ",
                map.repr.as_str(),
                ", ptr ",
                key_slot.as_str(),
                ", ptr %",
                value_slot.as_str(),
                ")\n",
            ],
        );
        let is_found = self.temp("map.is_found");
        self.put(vec!["  %", is_found.as_str(), " = icmp ne i32 %", found.as_str(), ", 0\n"]);
        let ok_label = self.label("map.ok");
        let miss_label = self.label("map.miss");
        let end_label = self.label("map.end");
        self.put(
            vec![
                "  br i1 %",
                is_found.as_str(),
                ", label %",
                ok_label.as_str(),
                ", label %",
                miss_label.as_str(),
                "\n",
            ],
        );
        self.start_block(ok_label.as_str());
        let ok_value = self.temp("map.val");
        self.put(vec!["  %", ok_value.as_str(), " = load ", value_llvm.as_str(), ", ptr %", value_slot.as_str(), "\n"]);
        let ok_result = self.emit_success_result(value_type, concat("%", ok_value.as_str()).as_str())?;
        self.put(vec!["  br label %", end_label.as_str(), "\n"]);
        let ok_block = self.current_block.clone();
        self.start_block(miss_label.as_str());
        let code = self.g.error_code("MissingKey")?;
        let miss_result = self.emit_error_code_result(value_type, i32_text(code).as_str())?;
        self.put(vec!["  br label %", end_label.as_str(), "\n"]);
        let miss_block = self.current_block.clone();
        self.start_block(end_label.as_str());
        let result = self.temp("map.result");
        self.put(
            vec![
                "  %",
                result.as_str(),
                " = phi ",
                result_type_name(value_type).as_str(),
                " [",
                ok_result.repr.as_str(),
                ", %",
                ok_block.as_str(),
                "], [",
                miss_result.repr.as_str(),
                ", %",
                miss_block.as_str(),
                "]\n",
            ],
        );
        Ok(Value { type_: errorable_type(value_type), repr: concat("%", result.as_str()) })
    }
}

impl<'a> FunctionEmitter<'a> {
    /// `append(s, v)`: the slice with `v` added, its storage doubled (or made
    /// one long) and copied when full.
    fn emit_append(&mut self, call: &CallExpr) -> (r: Result<Value, CodegenError>)
        ensures
            final(self).g.info == old(self).g.info,
        decreases call, 8int,
    {
        if call.args.len() != 2 {
            return Err(CodegenError::unsupported("append arity"));
        }
        assert(decreases_to!(call => call.args@[0]));
        assert(decreases_to!(call => call.args@[1]));
        let slice = self.emit_expression(&call.args[0])?;
        let element_type = match parse_slice_type(slice.type_.as_str()) {
            Some(e) => e,
            None => {
                return Err(CodegenError::unsupported("append non-slice argument"));
            },
        };
        let element = self.emit_expression_as(&call.args[1], element_type.as_str())?;
        if !str_eq(element.type_.as_str(), element_type.as_str()) {
            return Err(CodegenError::unsupported(concat("append element has type ", element.type_.as_str()).as_str()));
        }
        let old_data = self.extract_slice_field(slice.repr.as_str(), 0, "append.data")?;
        let old_len = self.extract_slice_field(slice.repr.as_str(), 1, "append.len")?;
        let old_cap = self.extract_slice_field(slice.repr.as_str(), 2, "append.cap")?;
        let new_len = self.temp("append.len");
        self.put(vec!["  %", new_len.as_str(), " = add i32 ", old_len.repr.as_str(), ", 1\n"]);
        let old_len64 = self.int_to_i64(&old_len)?;
        let needs_grow = self.temp("append.needs_grow");
        let grow_label = self.label("append.grow");
        let reuse_label = self.label("append.reuse");
        let write_label = self.label("append.write");
        self.put(
            vec![
                "  %",
                needs_grow.as_str(),
                " = icmp eq i32 ",
                old_len.repr.as_str(),
                ", ",
                old_cap.repr.as_str(),
                "\n",
            ],
        );
        self.put(
            vec![
                "  br i1 %",
                needs_grow.as_str(),
                ", label %",
                grow_label.as_str(),
                ", label %",
                reuse_label.as_str(),
                "\n",
            ],
        );
        self.start_block(reuse_label.as_str());
        self.put(vec!["  br label %", write_label.as_str(), "\n"]);
        self.start_block(grow_label.as_str());
        let cap_was_zero = self.temp("append.cap_zero");
        let doubled_cap = self.temp("append.cap_double");
        let new_cap = self.temp("append.cap");
        self.put(vec!["  %", cap_was_zero.as_str(), " = icmp eq i32 ", old_cap.repr.as_str(), ", 0\n"]);
        self.put(vec!["  %", doubled_cap.as_str(), " = mul i32 ", old_cap.repr.as_str(), ", 2\n"]);
        self.put(
            vec![
                "  %",
                new_cap.as_str(),
                " = select i1 %",
                cap_was_zero.as_str(),
                ", i32 1, i32 %",
                doubled_cap.as_str(),
                "\n",
            ],
        );
        let new_cap64 = self.int_to_i64(&value("i32", concat("%", new_cap.as_str())))?;
        let alloc_size = self.emit_scaled_size(element_type.as_str(), new_cap64.as_str())?;
        let new_data = self.emit_alloc_bytes(alloc_size.as_str(), false);
        let has_existing = self.temp("append.has_existing");
        let copy_label = self.label("append.copy");
        let ready_label = self.label("append.ready");
        self.put(vec!["  %", has_existing.as_str(), " = icmp ne i32 ", old_len.repr.as_str(), ", 0\n"]);
        self.put(
            vec![
                "  br i1 %",
                has_existing.as_str(),
                ", label %",
                copy_label.as_str(),
                ", label %",
                ready_label.as_str(),
                "\n",
            ],
        );
        self.start_block(copy_label.as_str());
        let copy_size = self.emit_scaled_size(element_type.as_str(), old_len64.as_str())?;
        self.emit_memcpy(new_data.as_str(), old_data.repr.as_str(), copy_size.as_str());
        self.put(vec!["  br label %", ready_label.as_str(), "\n"]);
        self.start_block(ready_label.as_str());
        self.put(vec!["  br label %", write_label.as_str(), "\n"]);
        self.start_block(write_label.as_str());
        let data_phi = self.temp("append.data");
        let cap_phi = self.temp("append.cap");
        self.put(
            vec![
                "  %",
                data_phi.as_str(),
                " = phi ptr [",
                old_data.repr.as_str(),
                ", %",
                reuse_label.as_str(),
                "], [",
                new_data.as_str(),
                ", %",
                ready_label.as_str(),
                "]\n",
            ],
        );
        self.put(
            vec![
                "  %",
                cap_phi.as_str(),
                " = phi i32 [",
                old_cap.repr.as_str(),
                ", %",
                reuse_label.as_str(),
                "], [%",
                new_cap.as_str(),
                ", %",
                ready_label.as_str(),
                "]\n",
            ],
        );
        let element_llvm = self.llvm_type(element_type.as_str())?;
        let element_ptr = self.temp("append.elem.ptr");
        self.put(
            vec![
                "  %",
                element_ptr.as_str(),
                " = getelementptr ",
                element_llvm.as_str(),
                ", ptr %",
                data_phi.as_str(),
                ", i64 ",
                old_len64.as_str(),
                "\n",
            ],
        );
        self.put(
            vec!["  store ", element_llvm.as_str(), " ", element.repr.as_str(), ", ptr %", element_ptr.as_str(), "\n"],
        );
        let repr = self.emit_slice_value(
            concat("%", data_phi.as_str()).as_str(),
            concat("%", new_len.as_str()).as_str(),
            concat("%", cap_phi.as_str()).as_str(),
        );
        Ok(Value { type_: slice.type_, repr })
    }

    /// A string written by a runtime helper into a stack slot: `helper` spells
    /// the helper's name and the type of its argument `arg`.
    fn emit_to_str_helper(&mut self, helper: &str, arg: &str) -> (v: Value)
        ensures
            final(self).g.info == old(self).g.info,
            v.type_@ == "str"@,
    {
        let result_slot = self.temp("to_str.slot");
        self.put(vec!["  %", result_slot.as_str(), " = alloca %yar.str\n"]);
        self.put(vec!["  call void ", helper, arg, ", ptr %", result_slot.as_str(), ")\n"]);
        let result = self.temp("to_str");
        self.put(vec!["  %", result.as_str(), " = load %yar.str, ptr %", result_slot.as_str(), "\n"]);
        value("str", concat("%", result.as_str()))
    }

    /// `to_str(x)`: the text of an integer, a boolean, a string or an error.
    fn emit_to_str(&mut self, call: &CallExpr) -> (r: Result<Value, CodegenError>)
        ensures
            final(self).g.info == old(self).g.info,
            r matches Ok(v) ==> v.type_@ == "str"@,
        decreases call, 8int,
    {
        if call.args.len() != 1 {
            return Err(CodegenError::unsupported("to_str arity"));
        }
        assert(decreases_to!(call => call.args@[0]));
        let arg = self.emit_expression(&call.args[0])?;
        let t = arg.type_.as_str();
        if str_eq(t, "i32") {
            Ok(self.emit_to_str_helper("@yar_to_str_i32(i32 ", arg.repr.as_str()))
        } else if str_eq(t, "i64") {
            Ok(self.emit_to_str_helper("@yar_to_str_i64(i64 ", arg.repr.as_str()))
        } else if str_eq(t, "bool") {
            let true_value = self.emit_string_literal("true")?;
            let false_value = self.emit_string_literal("false")?;
            let result = self.temp("to_str");
            self.put(
                vec![
                    "  %",
                    result.as_str(),
                    " = select i1 ",
                    arg.repr.as_str(),
                    ", %yar.str ",
                    true_value.repr.as_str(),
                    ", %yar.str ",
                    false_value.repr.as_str(),
                    "\n",
                ],
            );
            Ok(value("str", concat("%", result.as_str())))
        } else if str_eq(t, "str") {
            Ok(arg)
        } else if str_eq(t, "error") {
            self.emit_error_to_str(arg.repr.as_str())
        } else {
            Err(CodegenError::unsupported(concat("to_str argument ", t).as_str()))
        }
    }

    /// The text `error.Name` of an error code, chosen by a switch over the
    /// program's errors; `error.unknown` for any other code.
    fn emit_error_to_str(&mut self, code: &str) -> (r: Result<Value, CodegenError>)
        ensures
            final(self).g.info == old(self).g.info,
            r matches Ok(v) ==> v.type_@ == "str"@,
    {
        let result_ptr = self.temp("to_str.err.ptr");
        self.put(vec!["  %", result_ptr.as_str(), " = alloca %yar.str\n"]);
        let end_label = self.label("to_str.err.end");
        let default_label = self.label("to_str.err.default");
        let errors = self.g.info.ordered_errors.clone();
        let mut labels: Vec<String> = Vec::new();
        let mut codes: Vec<i32> = Vec::new();
        let mut i: usize = 0;
        while i < errors.len()
            invariant
                self.g.info == old(self).g.info,
                i <= errors@.len(),
                labels@.len() == i,
                codes@.len() == i,
            decreases errors.len() - i,
        {
            let error_code = self.g.error_code(errors[i].as_str())?;
            let label = self.label(concat("to_str.err.", i32_text(error_code).as_str()).as_str());
            labels.push(label);
            codes.push(error_code);
            i = i + 1;
        }
        self.put(vec!["  switch i32 ", code, ", label %", default_label.as_str(), " [\n"]);
        let mut j: usize = 0;
        while j < errors.len()
            invariant
                self.g.info == old(self).g.info,
                j <= errors@.len(),
                labels@.len() == errors@.len(),
                codes@.len() == errors@.len(),
            decreases errors.len() - j,
        {
            self.put(vec!["    i32 ", i32_text(codes[j]).as_str(), ", label %", labels[j].as_str(), "\n"]);
            j = j + 1;
        }
        self.body.append("  ]\n");
        let mut k: usize = 0;
        while k < errors.len()
            invariant
                self.g.info == old(self).g.info,
                k <= errors@.len(),
                labels@.len() == errors@.len(),
            decreases errors.len() - k,
        {
            self.start_block(labels[k].as_str());
            self.terminated = false;
            let display_name = match self.g.info.error_display_names.get(errors[k].as_str()) {
                Some(d) => d.clone(),
                None => {
                    return Err(
                        CodegenError::unsupported(
                            concat("missing error display name ", quote(errors[k].as_str()).as_str()).as_str(),
                        ),
                    );
                },
            };
            let text = self.emit_string_literal(concat("error.", display_name.as_str()).as_str())?;
            self.put(vec!["  store %yar.str ", text.repr.as_str(), ", ptr %", result_ptr.as_str(), "\n"]);
            self.put(vec!["  br label %", end_label.as_str(), "\n"]);
            k = k + 1;
        }
        self.start_block(default_label.as_str());
        self.terminated = false;
        let unknown = self.emit_string_literal("error.unknown")?;
        self.put(vec!["  store %yar.str ", unknown.repr.as_str(), ", ptr %", result_ptr.as_str(), "\n"]);
        self.put(vec!["  br label %", end_label.as_str(), "\n"]);
        self.start_block(end_label.as_str());
        self.terminated = false;
        let result = self.temp("to_str.err.result");
        self.put(vec!["  %", result.as_str(), " = load %yar.str, ptr %", result_ptr.as_str(), "\n"]);
        Ok(value("str", concat("%", result.as_str())))
    }

    /// A call of a declared function, or of a host intrinsic.
    fn emit_user_call(&mut self, name: &str, call: &CallExpr) -> (r: Result<Value, CodegenError>)
        ensures
            final(self).g.info == old(self).g.info,
        decreases call, 8int,
    {
        let signature = match self.g.info.functions.get(name) {
            Some(s) => s.clone(),
            None => {
                return Err(CodegenError::unsupported(concat("unknown function ", quote(name).as_str()).as_str()));
            },
        };
        if signature.params.len() != call.args.len() {
            return Err(CodegenError::unsupported(concat("call arity for ", quote(name).as_str()).as_str()));
        }
        let mut args: Vec<Value> = Vec::new();
        let mut idx: usize = 0;
        while idx < call.args.len()
            invariant
                self.g.info == old(self).g.info,
                idx <= call.args@.len(),
                signature.params@.len() == call.args@.len(),
                args@.len() == idx,
            decreases call.args.len() - idx,
        {
            assert(decreases_to!(call => call.args@[idx as int]));
            let v = self.emit_expression_as(&call.args[idx], signature.params[idx].as_str())?;
            args.push(v);
            idx = idx + 1;
        }
        if signature.host_intrinsic {
            return self.emit_host_intrinsic_call(&signature, args);
        }
        self.emit_direct_call(&signature, args)
    }

    /// A call of a declared function with lowered arguments of its parameter types.
    pub fn emit_direct_call(&mut self, signature: &Signature, values: Vec<Value>) -> (r: Result<Value, CodegenError>)
        ensures
            final(self).g.info == old(self).g.info,
            r matches Ok(v) ==> v.type_@ == (if signature.errorable {
                "!"@ + signature.return_type@
            } else if signature.return_type@ == "void"@ || signature.return_type@ == "noreturn"@ {
                "void"@
            } else {
                signature.return_type@
            }),
    {
        if signature.params.len() != values.len() {
            return Err(
                CodegenError::unsupported(concat("call arity for ", quote(signature.full_name.as_str()).as_str()).as_str()),
            );
        }
        let mut args: Vec<String> = Vec::new();
        let mut idx: usize = 0;
        while idx < values.len()
            invariant
                self.g.info == old(self).g.info,
                idx <= values@.len(),
                signature.params@.len() == values@.len(),
            decreases values.len() - idx,
        {
            let expected = signature.params[idx].as_str();
            if !str_eq(values[idx].type_.as_str(), expected) {
                return Err(
                    CodegenError::unsupported(
                        cat(
                            vec![
                                "argument ",
                                usize_text(idx + 1).as_str(),
                                " to ",
                                quote(signature.full_name.as_str()).as_str(),
                                " has type ",
                                values[idx].type_.as_str(),
                            ],
                        ).as_str(),
                    ),
                );
            }
            let t = self.llvm_type(expected)?;
            args.push(cat(vec![t.as_str(), " ", values[idx].repr.as_str()]));
            idx = idx + 1;
        }
        let rt = signature.return_type.as_str();
        let llvm_return = if signature.errorable {
            result_type_name(rt)
        } else {
            self.llvm_type(rt)?
        };
        let symbol = function_symbol(signature.full_name.as_str());
        if !signature.errorable && (str_eq(rt, "void") || str_eq(rt, "noreturn")) {
            self.put(vec!["  call void @", symbol.as_str(), "(", join_comma(&args).as_str(), ")\n"]);
            return Ok(void_value());
        }
        let result = self.temp("call");
        self.put(
            vec![
                "  %",
                result.as_str(),
                " = call ",
                llvm_return.as_str(),
                " @",
                symbol.as_str(),
                "(",
                join_comma(&args).as_str(),
                ")\n",
            ],
        );
        let t = if signature.errorable {
            errorable_type(rt)
        } else {
            owned(rt)
        };
        Ok(Value { type_: t, repr: concat("%", result.as_str()) })
    }
}

} // verus!
