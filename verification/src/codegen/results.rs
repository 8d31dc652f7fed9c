//! Lowering errorable values: building results, propagating and handling errors.
use vstd::prelude::*;

use super::calls::void_value;
use super::emitter::{FunctionEmitter, Local, Value};
use super::names::{errorable_type, host_error_identity, host_error_owner, i32_text, result_type_name, CodegenError};
use crate::ast::{BlockStmt, HandleExpr, PropagateExpr};
use crate::checker::types::{is_env_host_intrinsic, is_fs_host_intrinsic, is_net_host_intrinsic, is_process_host_intrinsic};
use crate::text::{cat, chars_of, concat, owned, quote, str_eq, string_of_range};

verus! {

/// The type a value of errorable type `t` holds on success: `t` without its
/// leading `!`s, or `None` when `t` is not errorable.
pub fn errorable_inner(t: &str) -> (r: Option<String>)
    ensures
        r is Some <==> (t@.len() > 0 && t@[0] == '!'),
        r matches Some(inner) ==> exists|k: int|
            #![trigger t@.subrange(k, t@.len() as int)]
            1 <= k <= t@.len() && inner@ == t@.subrange(k, t@.len() as int) && (forall|j: int|
                0 <= j < k ==> t@[j] == '!') && (k == t@.len() || t@[k] != '!'),
{
    let cs = chars_of(t);
    if cs.len() == 0 || cs[0] != '!' {
        return None;
    }
    let mut k: usize = 1;
    while k < cs.len() && cs[k] == '!'
        invariant
            1 <= k <= cs@.len(),
            cs@ == t@,
            forall|j: int| 0 <= j < k ==> cs@[j] == '!',
        decreases cs.len() - k,
    {
        k = k + 1;
    }
    let inner = string_of_range(&cs, k, cs.len());
    assert(inner@ == t@.subrange(k as int, t@.len() as int));
    assert(k == t@.len() || t@[k as int] != '!');
    Some(inner)
}

impl<'a> FunctionEmitter<'a> {
    /// `e?`: on an error, returns it from the enclosing function; otherwise the
    /// success value.
    pub fn emit_propagate(&mut self, expr: &PropagateExpr) -> (r: Result<Value, CodegenError>)
        ensures
            final(self).g.info == old(self).g.info,
        decreases expr, 1int,
    {
        let v = self.emit_expression(&expr.inner)?;
        match errorable_inner(v.type_.as_str()) {
            Some(inner_type) => {
                let result_type = result_type_name(inner_type.as_str());
                let is_err = self.temp("propagate.is_err");
                let err_label = self.label("propagate.err");
                let ok_label = self.label("propagate.ok");
                self.put(
                    vec!["  %", is_err.as_str(), " = extractvalue ", result_type.as_str(), " ", v.repr.as_str(), ", 0\n"],
                );
                self.put(
                    vec![
                        "  br i1 %",
                        is_err.as_str(),
                        ", label %",
                        err_label.as_str(),
                        ", label %",
                        ok_label.as_str(),
                        "\n",
                    ],
                );
                self.start_block(err_label.as_str());
                let err_code = self.temp("propagate.err_code");
                self.put(
                    vec!["  %", err_code.as_str(), " = extractvalue ", result_type.as_str(), " ", v.repr.as_str(), ", 1\n"],
                );
                self.emit_propagated_error(concat("%", err_code.as_str()).as_str())?;
                self.start_block(ok_label.as_str());
                self.terminated = false;
                if str_eq(inner_type.as_str(), "void") {
                    return Ok(void_value());
                }
                let success = self.temp("propagate.value");
                self.put(
                    vec!["  %", success.as_str(), " = extractvalue ", result_type.as_str(), " ", v.repr.as_str(), ", 2\n"],
                );
                return Ok(Value { type_: inner_type, repr: concat("%", success.as_str()) });
            },
            None => {},
        }
        if str_eq(v.type_.as_str(), "error") {
            self.emit_propagated_error(v.repr.as_str())?;
            return Ok(void_value());
        }
        Err(CodegenError::unsupported("propagate non-errorable value"))
    }

    /// `e or |err| { ... }`: runs the handler with the error bound on failure.
    /// A handler of a value-carrying expression must leave the function.
    pub fn emit_handle(&mut self, expr: &HandleExpr) -> (r: Result<Value, CodegenError>)
        ensures
            final(self).g.info == old(self).g.info,
        decreases expr, 1int,
    {
        let v = self.emit_expression(&expr.inner)?;
        match errorable_inner(v.type_.as_str()) {
            Some(inner_type) => {
                let result_type = result_type_name(inner_type.as_str());
                let is_err = self.temp("handle.is_err");
                let err_label = self.label("handle.err");
                self.put(
                    vec!["  %", is_err.as_str(), " = extractvalue ", result_type.as_str(), " ", v.repr.as_str(), ", 0\n"],
                );
                if !str_eq(inner_type.as_str(), "void") {
                    let ok_label = self.label("handle.ok");
                    self.put(
                        vec![
                            "  br i1 %",
                            is_err.as_str(),
                            ", label %",
                            err_label.as_str(),
                            ", label %",
                            ok_label.as_str(),
                            "\n",
                        ],
                    );
                    self.start_block(err_label.as_str());
                    self.terminated = false;
                    let err_code = self.temp("handle.err_code");
                    self.put(
                        vec![
                            "  %",
                            err_code.as_str(),
                            " = extractvalue ",
                            result_type.as_str(),
                            " ",
                            v.repr.as_str(),
                            ", 1\n",
                        ],
                    );
                    self.emit_error_handler_block(
                        &expr.handler,
                        expr.err_name.as_str(),
                        concat("%", err_code.as_str()).as_str(),
                    )?;
                    if !self.terminated {
                        return Err(CodegenError::unsupported("non-void error handler must terminate"));
                    }
                    self.start_block(ok_label.as_str());
                    self.terminated = false;
                    let success = self.temp("handle.value");
                    self.put(
                        vec![
                            "  %",
                            success.as_str(),
                            " = extractvalue ",
                            result_type.as_str(),
                            " ",
                            v.repr.as_str(),
                            ", 2\n",
                        ],
                    );
                    return Ok(Value { type_: inner_type, repr: concat("%", success.as_str()) });
                }
                let continue_label = self.label("handle.cont");
                self.put(
                    vec![
                        "  br i1 %",
                        is_err.as_str(),
                        ", label %",
                        err_label.as_str(),
                        ", label %",
                        continue_label.as_str(),
                        "\n",
                    ],
                );
                self.start_block(err_label.as_str());
                self.terminated = false;
                let err_code = self.temp("handle.err_code");
                self.put(
                    vec!["  %", err_code.as_str(), " = extractvalue ", result_type.as_str(), " ", v.repr.as_str(), ", 1\n"],
                );
                self.emit_error_handler_block(
                    &expr.handler,
                    expr.err_name.as_str(),
                    concat("%", err_code.as_str()).as_str(),
                )?;
                if !self.terminated {
                    self.put(vec!["  br label %", continue_label.as_str(), "\n"]);
                }
                self.start_block(continue_label.as_str());
                self.terminated = false;
                return Ok(void_value());
            },
            None => {},
        }
        if str_eq(v.type_.as_str(), "error") {
            let is_err = self.temp("handle.is_err");
            let err_label = self.label("handle.err");
            let continue_label = self.label("handle.cont");
            self.put(vec!["  %", is_err.as_str(), " = icmp ne i32 ", v.repr.as_str(), ", 0\n"]);
            self.put(
                vec![
                    "  br i1 %",
                    is_err.as_str(),
                    ", label %",
                    err_label.as_str(),
                    ", label %",
                    continue_label.as_str(),
                    "\n",
                ],
            );
            self.start_block(err_label.as_str());
            self.terminated = false;
            self.emit_error_handler_block(&expr.handler, expr.err_name.as_str(), v.repr.as_str())?;
            if !self.terminated {
                self.put(vec!["  br label %", continue_label.as_str(), "\n"]);
            }
            self.start_block(continue_label.as_str());
            self.terminated = false;
            return Ok(void_value());
        }
        Err(CodegenError::unsupported("handle non-errorable value"))
    }

    /// Runs a handler block with `err_name` bound to the error `code`, then
    /// restores what that name meant before.
    fn emit_error_handler_block(&mut self, block: &BlockStmt, err_name: &str, code: &str) -> (r: Result<
        (),
        CodegenError,
    >)
        ensures
            final(self).g.info == old(self).g.info,
        decreases block, 2int,
    {
        let previous = match self.locals.get(err_name) {
            Some(l) => Some(l.clone()),
            None => None,
        };
        let slot = self.allocate_local_slot(err_name, "error")?;
        self.put(vec!["  store i32 ", code, ", ptr ", slot.as_str(), "\n"]);
        self.locals.insert(owned(err_name), Local { type_: owned("error"), ptr: slot });
        let mut i: usize = 0;
        while i < block.stmts.len()
            invariant
                self.g.info == old(self).g.info,
                i <= block.stmts@.len(),
            decreases block.stmts.len() - i,
        {
            assert(decreases_to!(block => block.stmts@[i as int]));
            self.emit_statement(&block.stmts[i])?;
            if self.terminated {
                break;
            }
            i = i + 1;
        }
        match previous {
            Some(local) => {
                self.locals.insert(owned(err_name), local);
            },
            None => {
                self.locals.remove(err_name);
            },
        }
        Ok(())
    }

    /// The success result of an errorable `void` value.
    pub fn emit_success_void_result(&mut self) -> (r: Result<Value, CodegenError>)
        ensures
            final(self).g.info == old(self).g.info,
            r matches Ok(v) ==> v.type_@ == "!"@ + "void"@,
            r is Ok,
            old(self).next_id + 1 < usize::MAX ==> (r matches Ok(v) && v.repr@ == "%"@ + "result"@ + "."@
                + crate::text::decimal((old(self).next_id + 1) as nat)),
            final(self).g == old(self).g,
    {
        let first = self.temp("result");
        let second = self.temp("result");
        let result_type = result_type_name("void");
        self.put(
            vec!["  %", first.as_str(), " = insertvalue ", result_type.as_str(), " zeroinitializer, i1 false, 0\n"],
        );
        self.put(
            vec!["  %", second.as_str(), " = insertvalue ", result_type.as_str(), " %", first.as_str(), ", i32 0, 1\n"],
        );
        let r = Value { type_: errorable_type("void"), repr: concat("%", second.as_str()) };
        assert(old(self).next_id + 1 < usize::MAX ==> r.repr@ =~= "%"@ + "result"@ + "."@ + crate::text::decimal(
            (old(self).next_id + 1) as nat,
        ));
        Ok(r)
    }

    /// The success result holding `v`, of errorable type `t`.
    pub fn emit_success_result(&mut self, t: &str, v: &str) -> (r: Result<Value, CodegenError>)
        ensures
            final(self).g.info == old(self).g.info,
            r matches Ok(x) ==> x.type_@ == "!"@ + t@,
            super::scalar_llvm_type(t@) is Some ==> r is Ok,
            crate::checker::types::array_parts(t@) is None ==> r is Ok,
            final(self).g == old(self).g,
    {
        let result_type = result_type_name(t);
        let llvm_type = self.llvm_type(t)?;
        let first = self.temp("result");
        let second = self.temp("result");
        let third = self.temp("result");
        self.put(
            vec!["  %", first.as_str(), " = insertvalue ", result_type.as_str(), " zeroinitializer, i1 false, 0\n"],
        );
        self.put(
            vec!["  %", second.as_str(), " = insertvalue ", result_type.as_str(), " %", first.as_str(), ", i32 0, 1\n"],
        );
        self.put(
            vec![
                "  %",
                third.as_str(),
                " = insertvalue ",
                result_type.as_str(),
                " %",
                second.as_str(),
                ", ",
                llvm_type.as_str(),
                " ",
                v,
                ", 2\n",
            ],
        );
        Ok(Value { type_: errorable_type(t), repr: concat("%", third.as_str()) })
    }

    /// The failed result of errorable type `t` carrying the error `name`.
    pub fn emit_error_result(&mut self, t: &str, name: &str) -> (r: Result<Value, CodegenError>)
        ensures
            final(self).g.info == old(self).g.info,
            r matches Ok(x) ==> x.type_@ == "!"@ + t@,
    {
        let code = self.g.error_code(name)?;
        self.emit_error_code_result(t, i32_text(code).as_str())
    }

    /// The failed result of errorable type `t` carrying the error code `code`,
    /// with a zero value.
    pub fn emit_error_code_result(&mut self, t: &str, code: &str) -> (r: Result<Value, CodegenError>)
        ensures
            final(self).g.info == old(self).g.info,
            r matches Ok(x) ==> x.type_@ == "!"@ + t@,
            t@ == "void"@ ==> r is Ok,
            super::emitter::zero_repr(*old(self).g.info, t@) is Some && crate::checker::types::array_parts(t@) is None
                ==> r is Ok,
            t@ != "void"@ && super::emitter::zero_repr(*old(self).g.info, t@) is None ==> r is Err,
            final(self).g == old(self).g,
    {
        let result_type = result_type_name(t);
        let first = self.temp("result");
        let second = self.temp("result");
        self.put(
            vec!["  %", first.as_str(), " = insertvalue ", result_type.as_str(), " zeroinitializer, i1 true, 0\n"],
        );
        self.put(
            vec![
                "  %",
                second.as_str(),
                " = insertvalue ",
                result_type.as_str(),
                " %",
                first.as_str(),
                ", i32 ",
                code,
                ", 1\n",
            ],
        );
        if str_eq(t, "void") {
            return Ok(Value { type_: errorable_type(t), repr: concat("%", second.as_str()) });
        }
        let third = self.temp("result");
        let zero = self.zero_value(t)?;
        let llvm_type = self.llvm_type(t)?;
        self.put(
            vec![
                "  %",
                third.as_str(),
                " = insertvalue ",
                result_type.as_str(),
                " %",
                second.as_str(),
                ", ",
                llvm_type.as_str(),
                " ",
                zero.repr.as_str(),
                ", 2\n",
            ],
        );
        Ok(Value { type_: errorable_type(t), repr: concat("%", third.as_str()) })
    }

    /// The result of a channel operation from its status: success (with
    /// `success_value` unless `t` is `void`), or the `Closed` error that the
    /// checker records for channel operations.
    pub fn emit_closed_status_result(&mut self, t: &str, status: &str, success_value: Option<&str>) -> (r: Result<
        Value,
        CodegenError,
    >)
        ensures
            final(self).g.info == old(self).g.info,
            r matches Ok(x) ==> x.type_@ == "!"@ + t@,
    {
        let is_ok = self.temp("chan.ok");
        let ok_label = self.label("chan.ok");
        let err_label = self.label("chan.err");
        let end_label = self.label("chan.end");
        self.emit_status_branch(is_ok.as_str(), status, ok_label.as_str(), err_label.as_str());
        let ok_result = self.emit_ok_result(t, success_value, "channel")?;
        self.put(vec!["  br label %", end_label.as_str(), "\n"]);
        self.start_block(err_label.as_str());
        self.terminated = false;
        let closed_code = self.g.error_code("Closed")?;
        let err_result = self.emit_error_code_result(t, i32_text(closed_code).as_str())?;
        self.put(vec!["  br label %", end_label.as_str(), "\n"]);
        self.emit_result_phi(t, "chan.result", end_label.as_str(), &ok_result, ok_label.as_str(), &err_result, err_label.as_str())
    }

    /// The result of a host call from its status: success (with
    /// `success_value` unless `t` is `void`), or the host error the status names.
    pub fn emit_host_status_result(&mut self, full_name: &str, t: &str, status: &str, success_value: Option<&str>) -> (r:
        Result<Value, CodegenError>)
        ensures
            final(self).g.info == old(self).g.info,
            r matches Ok(x) ==> x.type_@ == "!"@ + t@,
    {
        let is_ok = self.temp("host.ok");
        let ok_label = self.label("host.ok");
        let err_label = self.label("host.err");
        let end_label = self.label("host.end");
        self.emit_status_branch(is_ok.as_str(), status, ok_label.as_str(), err_label.as_str());
        let ok_result = self.emit_ok_result(t, success_value, "host")?;
        self.put(vec!["  br label %", end_label.as_str(), "\n"]);
        self.start_block(err_label.as_str());
        self.terminated = false;
        let err_code = self.emit_host_error_code(full_name, status)?;
        let err_result = self.emit_error_code_result(t, err_code.as_str())?;
        self.put(vec!["  br label %", end_label.as_str(), "\n"]);
        self.emit_result_phi(t, "host.result", end_label.as_str(), &ok_result, ok_label.as_str(), &err_result, err_label.as_str())
    }

    /// Branches on a zero status to `ok_label`, else to `err_label`, and starts
    /// the success block.
    fn emit_status_branch(&mut self, is_ok: &str, status: &str, ok_label: &str, err_label: &str)
        ensures
            final(self).g.info == old(self).g.info,
            final(self).current_block@ == ok_label@,
            !final(self).terminated,
            final(self).g == old(self).g,
            final(self).next_id == old(self).next_id,
            final(self).body@ == old(self).body@ + "  %"@ + is_ok@ + " = icmp eq i32 "@ + status@ + ", 0\n"@
                + "  br i1 %"@ + is_ok@ + ", label %"@ + ok_label@ + ", label %"@ + err_label@ + "\n"@ + ok_label@
                + ":\n"@,
    {
        let first = vec!["  %", is_ok, " = icmp eq i32 ", status, ", 0\n"];
        let second = vec!["  br i1 %", is_ok, ", label %", ok_label, ", label %", err_label, "\n"];
        proof {
            crate::text::lemma_concat_all_five(first@);
            crate::text::lemma_concat_all_seven(second@);
        }
        self.put(first);
        self.put(second);
        self.terminated = true;
        self.start_block(ok_label);
        self.terminated = false;
    }

    /// The success result of type `t` holding `success_value`.
    fn emit_ok_result(&mut self, t: &str, success_value: Option<&str>, what: &str) -> (r: Result<Value, CodegenError>)
        ensures
            final(self).g.info == old(self).g.info,
            r matches Ok(x) ==> x.type_@ == "!"@ + t@,
            t@ == "void"@ ==> r is Ok,
            t@ != "void"@ && success_value is None ==> r is Err,
            t@ != "void"@ && success_value is Some && crate::checker::types::array_parts(t@) is None ==> r is Ok,
    {
        if str_eq(t, "void") {
            return self.emit_success_void_result();
        }
        match success_value {
            Some(v) => self.emit_success_result(t, v),
            None => Err(CodegenError::unsupported(cat(vec!["missing ", what, " success value for ", t]).as_str())),
        }
    }

    /// Starts `end_label` and joins the two results there.
    fn emit_result_phi(
        &mut self,
        t: &str,
        label: &str,
        end_label: &str,
        ok_result: &Value,
        ok_label: &str,
        err_result: &Value,
        err_label: &str,
    ) -> (r: Result<Value, CodegenError>)
        ensures
            final(self).g.info == old(self).g.info,
            r matches Ok(x) ==> x.type_@ == "!"@ + t@,
            r is Ok,
            r matches Ok(x) ==> x.repr@ == "%"@ + label@ + "."@ + crate::text::decimal(old(self).next_id as nat),
            final(self).current_block@ == end_label@,
            !final(self).terminated,
            final(self).g == old(self).g,
    {
        self.start_block(end_label);
        self.terminated = false;
        let result_type = result_type_name(t);
        let result = self.temp(label);
        self.put(
            vec![
                "  %",
                result.as_str(),
                " = phi ",
                result_type.as_str(),
                " [",
                ok_result.repr.as_str(),
                ", %",
                ok_label,
                "], [",
                err_result.repr.as_str(),
                ", %",
                err_label,
                "]\n",
            ],
        );
        let v = Value { type_: errorable_type(t), repr: concat("%", result.as_str()) };
        assert(v.repr@ =~= "%"@ + label@ + "."@ + crate::text::decimal(old(self).next_id as nat));
        Ok(v)
    }

    /// The error code of a failed host call: its package's `IO` error, unless
    /// the status is one the package names, chosen by a chain of selects.
    fn emit_host_error_code(&mut self, full_name: &str, status: &str) -> (r: Result<String, CodegenError>)
        ensures
            final(self).g.info == old(self).g.info,
    {
        let owner = match host_error_owner(full_name) {
            Some(o) => o,
            None => {
                return Err(
                    CodegenError::unsupported(concat("host error mapping for ", quote(full_name).as_str()).as_str()),
                );
            },
        };
        let io_code = self.g.error_code(concat(owner, ".IO").as_str())?;
        let mut code = i32_text(io_code);
        let mappings: Vec<(&str, &str)> = if is_fs_host_intrinsic(full_name) {
            vec![
                ("7", "Closed"),
                ("6", "InvalidArgument"),
                ("4", "InvalidPath"),
                ("3", "AlreadyExists"),
                ("2", "PermissionDenied"),
                ("1", "NotFound"),
            ]
        } else if is_process_host_intrinsic(full_name) {
            vec![
                ("7", "Cancelled"),
                ("6", "LimitExceeded"),
                ("5", "Timeout"),
                ("3", "InvalidArgument"),
                ("2", "PermissionDenied"),
                ("1", "NotFound"),
            ]
        } else if is_env_host_intrinsic(full_name) {
            vec![("3", "InvalidArgument"), ("2", "PermissionDenied"), ("1", "NotFound")]
        } else if is_net_host_intrinsic(full_name) {
            vec![
                ("9", "Closed"),
                ("7", "InvalidArgument"),
                ("6", "PermissionDenied"),
                ("5", "NotFound"),
                ("4", "ConnectionReset"),
                ("3", "AddrInUse"),
                ("2", "Timeout"),
                ("1", "ConnectionRefused"),
            ]
        } else {
            return Err(
                CodegenError::unsupported(concat("host error mapping for ", quote(full_name).as_str()).as_str()),
            );
        };
        let mut i: usize = 0;
        while i < mappings.len()
            invariant
                self.g.info == old(self).g.info,
                i <= mappings@.len(),
            decreases mappings.len() - i,
        {
            let (status_code, name) = mappings[i];
            let identity = host_error_identity(owner, name);
            let matched = self.temp("host.err.match");
            let next = self.temp("host.err.code");
            self.put(vec!["  %", matched.as_str(), " = icmp eq i32 ", status, ", ", status_code, "\n"]);
            let mapped = self.g.error_code(identity.as_str())?;
            self.put(
                vec![
                    "  %",
                    next.as_str(),
                    " = select i1 %",
                    matched.as_str(),
                    ", i32 ",
                    i32_text(mapped).as_str(),
                    ", i32 ",
                    code.as_str(),
                    "\n",
                ],
            );
            code = concat("%", next.as_str());
            i = i + 1;
        }
        Ok(code)
    }

    /// Leaves the function with the error `code`: as an `error` return, or as a
    /// failed result of the function's errorable type.
    fn emit_propagated_error(&mut self, code: &str) -> (r: Result<(), CodegenError>)
        ensures
            final(self).g.info == old(self).g.info,
    {
        if !self.signature.errorable {
            if str_eq(self.signature.return_type.as_str(), "error") {
                self.put(vec!["  ret i32 ", code, "\n"]);
                self.terminated = true;
                return Ok(());
            }
            return Err(CodegenError::unsupported("propagation requires an error-capable return"));
        }
        let return_type = self.signature.return_type.clone();
        let result = self.emit_error_code_result(return_type.as_str(), code)?;
        self.put(vec!["  ret ", result_type_name(return_type.as_str()).as_str(), " ", result.repr.as_str(), "\n"]);
        self.terminated = true;
        Ok(())
    }
}

} // verus!
