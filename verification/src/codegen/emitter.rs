//! Lowering one function body: its locals, statements and control flow.
use vstd::prelude::*;

use super::names::{
    align_to, errorable_type, function_symbol, i32_text, join_comma, result_type_name, usize_text,
    CodegenError,
};
use super::{put, Generator};
use crate::address_taken::collect_address_taken_locals;
use crate::ast::{
    AssignStmt, BlockStmt, CallExpr, CompoundAssignStmt, Expression, ForStmt, FunctionDecl,
    FunctionLiteralExpr, IfStmt, MatchStmt, ReturnStmt, SpawnStmt, Statement, TaskgroupExpr,
    VarStmt,
};
use crate::checker::calls::{format_function_type, parse_function_type, FunctionType};
use crate::checker::types::{
    function_literal_key, infer_untyped_integer_type, parse_array_type, parse_chan_type,
    parse_map_type, parse_pointer_type, parse_slice_type,
};
use crate::checker::{CaptureInfo, FunctionLiteralInfo, Signature};
use crate::names::{NameMap, NameSet};
use crate::text::{cat, concat, concat3, owned, quote, starts_with, str_eq};

verus! {

/// A local variable: its type and the pointer to its storage.
#[derive(Clone, Debug)]
pub struct Local {
    pub type_: String,
    pub ptr: String,
}

/// A place in memory holding a value of a type.
#[derive(Clone, Debug)]
pub struct Address {
    pub type_: String,
    pub ptr: String,
}

/// The labels `break` and `continue` jump to in the innermost loop.
#[derive(Clone, Debug)]
pub struct LoopLabels {
    pub break_label: String,
    pub continue_label: String,
}

/// The runtime handle of the taskgroup being filled.
#[derive(Clone, Debug)]
pub struct TaskgroupHandle {
    pub handle: String,
}

/// A parameter of the function being emitted.
#[derive(Clone, Debug)]
pub struct FunctionParam {
    pub name: String,
    pub type_: String,
}

/// An emitted value: its language type and its LLVM spelling.
#[derive(Clone, Debug)]
pub struct Value {
    pub type_: String,
    pub repr: String,
}

/// A value of a type with the given spelling.
pub fn value(t: &str, repr: String) -> (v: Value)
    ensures
        v.type_@ == t@,
        v.repr@ == repr@,
{
    Value { type_: owned(t), repr }
}

/// The LLVM spelling of the zero value of the type `t`, where it has one.
pub open spec fn zero_repr(info: crate::checker::Info, t: Seq<char>) -> Option<Seq<char>> {
    if t == "bool"@ {
        Some("false"@)
    } else if t == "i32"@ || t == "i64"@ {
        Some("0"@)
    } else if t == "str"@ || info.structs@.contains_key(t) || info.enums@.contains_key(t) || info.interfaces@.contains_key(t)
        || crate::checker::types::array_parts(t) is Some || crate::checker::types::slice_elem(t) is Some
        || crate::checker::calls::function_type_parts(t) is Some {
        Some("zeroinitializer"@)
    } else if crate::checker::types::pointer_elem(t) is Some || crate::checker::types::map_parts(t) is Some
        || crate::checker::types::chan_elem(t) is Some {
        Some("null"@)
    } else {
        None
    }
}

/// The types of captured values, in order.
pub open spec fn capture_types(captures: Seq<CaptureInfo>) -> Seq<String> {
    captures.map_values(|c: CaptureInfo| c.type_)
}

/// The state of one function's lowering.
pub struct FunctionEmitter<'a> {
    pub g: Generator<'a>,
    pub symbol_name: String,
    pub params: Vec<FunctionParam>,
    pub signature: Signature,
    pub captures: Vec<CaptureInfo>,
    pub heap_locals: NameSet,
    pub locals: NameMap<Local>,
    pub loop_stack: Vec<LoopLabels>,
    pub taskgroup: Option<TaskgroupHandle>,
    pub next_id: usize,
    pub body: String,
    pub terminated: bool,
    pub current_block: String,
}

impl<'a> FunctionEmitter<'a> {
    /// The lowering of a declared function or method.
    pub fn new(g: Generator<'a>, function: &FunctionDecl, signature: &Signature) -> (e: FunctionEmitter<'a>)
        ensures
            e.g == g,
            e.symbol_name@ == signature.full_name@,
            crate::checker::same_signature(e.signature, *signature),
            e.captures@.len() == 0,
            e.heap_locals@ == crate::address_taken::taken_block(function.body),
            e.next_id == 0,
            e.body@.len() == 0,
            !e.terminated,
            e.current_block@ == "entry"@,
            e.locals@ == Map::<Seq<char>, Local>::empty(),
            e.loop_stack@.len() == 0,
            e.taskgroup is None,
    {
        let mut params: Vec<FunctionParam> = Vec::new();
        let mut offset: usize = 0;
        match &function.receiver {
            Some(receiver) => {
                if signature.params.len() > 0 {
                    params.push(FunctionParam { name: receiver.name.clone(), type_: signature.params[0].clone() });
                }
                offset = 1;
            },
            None => {},
        }
        let mut idx: usize = 0;
        while idx < function.params.len()
            invariant
                idx <= function.params@.len(),
                offset <= 1,
            decreases function.params.len() - idx,
        {
            if idx + offset < signature.params.len() {
                params.push(
                    FunctionParam {
                        name: function.params[idx].name.clone(),
                        type_: signature.params[idx + offset].clone(),
                    },
                );
            }
            idx = idx + 1;
        }
        let e = FunctionEmitter {
            g,
            symbol_name: signature.full_name.clone(),
            params,
            signature: signature.duplicate(),
            captures: Vec::new(),
            heap_locals: collect_address_taken_locals(&function.body),
            locals: NameMap::new(),
            loop_stack: Vec::new(),
            taskgroup: None,
            next_id: 0,
            body: String::new(),
            terminated: false,
            current_block: owned("entry"),
        };
        assert(e.locals@ == Map::<Seq<char>, Local>::empty());
        e
    }

    /// The lowering of a function literal, named `name`, with its captures.
    pub fn new_literal(g: Generator<'a>, literal: &FunctionLiteralExpr, name: &str, info: FunctionLiteralInfo) -> (e:
        FunctionEmitter<'a>)
        ensures
            e.g == g,
            e.symbol_name@ == name@,
            e.signature == info.signature,
            e.captures == info.captures,
            e.heap_locals@ == crate::address_taken::taken_block(literal.body),
            e.next_id == 0,
            e.body@.len() == 0,
            !e.terminated,
            e.current_block@ == "entry"@,
            e.locals@ == Map::<Seq<char>, Local>::empty(),
            e.loop_stack@.len() == 0,
            e.taskgroup is None,
    {
        let mut params: Vec<FunctionParam> = Vec::new();
        let mut idx: usize = 0;
        while idx < literal.params.len()
            invariant
                idx <= literal.params@.len(),
            decreases literal.params.len() - idx,
        {
            if idx < info.signature.params.len() {
                params.push(
                    FunctionParam {
                        name: literal.params[idx].name.clone(),
                        type_: info.signature.params[idx].clone(),
                    },
                );
            }
            idx = idx + 1;
        }
        let e = FunctionEmitter {
            g,
            symbol_name: owned(name),
            params,
            signature: info.signature,
            captures: info.captures,
            heap_locals: collect_address_taken_locals(&literal.body),
            locals: NameMap::new(),
            loop_stack: Vec::new(),
            taskgroup: None,
            next_id: 0,
            body: String::new(),
            terminated: false,
            current_block: owned("entry"),
        };
        assert(e.locals@ == Map::<Seq<char>, Local>::empty());
        e
    }

    /// Lowers the body; hands the shared generator back with the function's text.
    pub fn emit(self, body_block: &BlockStmt) -> (r: (Generator<'a>, Result<String, CodegenError>)) {
        let mut e = self;
        let result = e.emit_function(body_block);
        (e.g, result)
    }

    fn emit_function(&mut self, body_block: &BlockStmt) -> (r: Result<String, CodegenError>)
        ensures
            final(self).g.info == old(self).g.info,
    {
        let mut params: Vec<String> = Vec::new();
        if self.captures.len() > 0 || starts_with(self.symbol_name.as_str(), "closure.") {
            params.push(owned("ptr %env"));
        }
        if self.captures.len() > 0 {
            let captures = self.captures.clone();
            let env_type = self.closure_env_type_literal(&captures)?;
            let mut idx: usize = 0;
            while idx < captures.len()
                invariant
                    self.g.info == old(self).g.info,
                    idx <= captures@.len(),
                decreases captures.len() - idx,
            {
                let ptr = self.temp("capture.ptr");
                self.put(
                    vec![
                        "  %",
                        ptr.as_str(),
                        " = getelementptr inbounds ",
                        env_type.as_str(),
                        ", ptr %env, i32 0, i32 ",
                        usize_text(idx).as_str(),
                        "\n",
                    ],
                );
                self.locals.insert(
                    captures[idx].name.clone(),
                    Local { type_: captures[idx].type_.clone(), ptr: concat("%", ptr.as_str()) },
                );
                idx = idx + 1;
            }
        }
        let fparams = self.params.clone();
        let mut i: usize = 0;
        while i < fparams.len()
            invariant
                self.g.info == old(self).g.info,
                i <= fparams@.len(),
            decreases fparams.len() - i,
        {
            let param = &fparams[i];
            i = i + 1;
            let llvm_type = self.llvm_type(param.type_.as_str())?;
            let register = concat("%arg.", param.name.as_str());
            params.push(cat(vec![llvm_type.as_str(), " ", register.as_str()]));
            let slot = self.allocate_local_slot(param.name.as_str(), param.type_.as_str())?;
            self.put(vec!["  store ", llvm_type.as_str(), " ", register.as_str(), ", ptr ", slot.as_str(), "\n"]);
            self.locals.insert(param.name.clone(), Local { type_: param.type_.clone(), ptr: slot });
        }
        self.emit_block_stmts(body_block)?;
        if !self.terminated {
            self.emit_fallthrough_return()?;
        }
        let return_type = if self.signature.errorable {
            result_type_name(self.signature.return_type.as_str())
        } else {
            self.llvm_type(self.signature.return_type.as_str())?
        };
        let mut out = String::new();
        put(
            &mut out,
            vec![
                "define ",
                return_type.as_str(),
                " @",
                function_symbol(self.symbol_name.as_str()).as_str(),
                "(",
                join_comma(&params).as_str(),
                ") {\n",
            ],
        );
        out.append("entry:\n");
        out.append(self.body.as_str());
        out.append("}\n");
        Ok(out)
    }

    /// Appends an instruction line spelled by `parts`.
    pub fn put(&mut self, parts: Vec<&str>)
        ensures
            final(self).g.info == old(self).g.info,
            final(self).body@ == old(self).body@ + crate::text::concat_all(parts@),
            final(self).next_id == old(self).next_id,
            final(self).g == old(self).g,
            final(self).terminated == old(self).terminated,
            final(self).loop_stack@ == old(self).loop_stack@,
            final(self).current_block@ == old(self).current_block@,
            final(self).locals@ == old(self).locals@,
            final(self).heap_locals@ == old(self).heap_locals@,
    {
        put(&mut self.body, parts);
    }

    /// A fresh local name `label.N`, numbered by the counter, which then moves on.
    pub fn temp(&mut self, label: &str) -> (s: String)
        ensures
            final(self).g.info == old(self).g.info,
            s@ == label@ + "."@ + crate::text::decimal(old(self).next_id as nat),
            old(self).next_id < usize::MAX ==> final(self).next_id == old(self).next_id + 1,
            final(self).body@ == old(self).body@,
            final(self).g == old(self).g,
            final(self).locals@ == old(self).locals@,
            final(self).heap_locals@ == old(self).heap_locals@,
            final(self).terminated == old(self).terminated,
            final(self).current_block@ == old(self).current_block@,
            final(self).loop_stack@ == old(self).loop_stack@,
    {
        let s = concat3(label, ".", usize_text(self.next_id).as_str());
        if self.next_id < usize::MAX {
            self.next_id = self.next_id + 1;
        }
        s
    }

    /// A fresh block label.
    pub fn label(&mut self, label: &str) -> (s: String)
        ensures
            final(self).g.info == old(self).g.info,
            s@ == label@ + "."@ + crate::text::decimal(old(self).next_id as nat),
            old(self).next_id < usize::MAX ==> final(self).next_id == old(self).next_id + 1,
            final(self).body@ == old(self).body@,
            final(self).g == old(self).g,
    {
        self.temp(label)
    }

    /// Starts the block `label`.
    pub fn start_block(&mut self, label: &str)
        ensures
            final(self).g.info == old(self).g.info,
            final(self).body@ == old(self).body@ + label@ + ":\n"@,
            final(self).current_block@ == label@,
            final(self).terminated == old(self).terminated,
            final(self).g == old(self).g,
            final(self).next_id == old(self).next_id,
    {
        let parts = vec![label, ":\n"];
        proof {
            crate::text::lemma_concat_all_pair(parts@);
        }
        self.put(parts);
        self.current_block = owned(label);
    }

    /// Lowers the statements of a block until one leaves it.
    pub fn emit_block_stmts(&mut self, block: &BlockStmt) -> (r: Result<(), CodegenError>)
        ensures
            final(self).g.info == old(self).g.info,
        decreases block, 1int,
    {
        let mut i: usize = 0;
        while i < block.stmts.len()
            invariant
                self.g.info == old(self).g.info,
                i <= block.stmts@.len(),
            decreases block.stmts.len() - i,
        {
            assert(decreases_to!(block => block.stmts@[i as int]));
            self.emit_statement(&block.stmts[i])?;
            if self.terminated {
                break;
            }
            i = i + 1;
        }
        Ok(())
    }

    /// Lowers one statement.
    pub fn emit_statement(&mut self, statement: &Statement) -> (r: Result<(), CodegenError>)
        ensures
            final(self).g.info == old(self).g.info,
        decreases statement, 1int,
    {
        match statement {
            Statement::Let(s) => {
                let v = match infer_untyped_integer_type(&s.value) {
                    Some(t) => self.emit_expression_as(&s.value, t)?,
                    None => self.emit_expression(&s.value)?,
                };
                self.bind_local(s.name.as_str(), v)
            },
            Statement::Var(s) => self.emit_var(s),
            Statement::Assign(s) => self.emit_assign(s),
            Statement::CompoundAssign(s) => self.emit_compound_assign(s),
            Statement::Expr(s) => {
                self.emit_expression(&s.expr)?;
                Ok(())
            },
            Statement::If(s) => self.emit_if(s),
            Statement::For(s) => self.emit_for(s),
            Statement::Break(_) => self.emit_break(),
            Statement::Continue(_) => self.emit_continue(),
            Statement::Return(s) => self.emit_return(s),
            Statement::Match(s) => self.emit_match(s),
            Statement::Block(b) => self.emit_block_stmts(b),
            Statement::Spawn(s) => self.emit_spawn(s),
        }
    }

    fn emit_return(&mut self, statement: &ReturnStmt) -> (r: Result<(), CodegenError>)
        ensures
            final(self).g.info == old(self).g.info,
        decreases statement, 1int,
    {
        if self.signature.errorable {
            return self.emit_errorable_return(statement);
        }
        match &statement.value {
            None => {
                if !str_eq(self.signature.return_type.as_str(), "void") {
                    return Err(CodegenError::unsupported("non-void return without a value"));
                }
                self.body.append("  ret void\n");
            },
            Some(v) => {
                let return_type = self.signature.return_type.clone();
                let v = self.emit_expression_as(v, return_type.as_str())?;
                let expected = self.llvm_type(return_type.as_str())?;
                self.put(vec!["  ret ", expected.as_str(), " ", v.repr.as_str(), "\n"]);
            },
        }
        self.terminated = true;
        Ok(())
    }

    fn emit_spawn(&mut self, statement: &SpawnStmt) -> (r: Result<(), CodegenError>)
        ensures
            final(self).g.info == old(self).g.info,
        decreases statement, 1int,
    {
        let taskgroup = match &self.taskgroup {
            Some(t) => t.clone(),
            None => {
                return Err(CodegenError::unsupported("spawn outside taskgroup"));
            },
        };
        let call = match &statement.call {
            Expression::Call(c) => c,
            _ => {
                return Err(CodegenError::unsupported("spawn non-call"));
            },
        };
        match self.expression_type_hint(&call.callee) {
            Some(callee_type) => match parse_function_type(callee_type.as_str()) {
                Some(function_type) => {
                    return self.emit_spawn_closure_call(&taskgroup, call, &function_type);
                },
                None => {},
            },
            None => {},
        }
        let callee = match &call.callee {
            Expression::Ident(i) => i,
            _ => {
                return Err(CodegenError::unsupported("spawn call target"));
            },
        };
        let signature = match self.g.info.functions.get(callee.name.as_str()) {
            Some(s) => s.clone(),
            None => {
                return Err(
                    CodegenError::unsupported(
                        concat("unknown spawn function ", quote(callee.name.as_str()).as_str()).as_str(),
                    ),
                );
            },
        };
        self.emit_spawn_function_call(&taskgroup, call, &signature)
    }

    fn emit_spawn_function_call(&mut self, taskgroup: &TaskgroupHandle, call: &CallExpr, signature: &Signature) -> (r:
        Result<(), CodegenError>)
        ensures
            final(self).g.info == old(self).g.info,
        decreases call, 1int,
    {
        if signature.params.len() != call.args.len() {
            return Err(
                CodegenError::unsupported(
                    concat("spawn call arity for ", quote(signature.full_name.as_str()).as_str()).as_str(),
                ),
            );
        }
        let (wrapper_name, ctx_type) = self.g.queue_task_function_wrapper(signature)?;
        let ctx_size = self.g.task_wrapper_context_size(&signature.params)?;
        let ctx = self.emit_alloc_bytes(i32_text(ctx_size).as_str(), true);
        let mut idx: usize = 0;
        while idx < call.args.len()
            invariant
                self.g.info == old(self).g.info,
                idx <= call.args@.len(),
                signature.params@.len() == call.args@.len(),
            decreases call.args.len() - idx,
        {
            assert(decreases_to!(call => call.args@[idx as int]));
            let expected = signature.params[idx].clone();
            let v = self.emit_expression_as(&call.args[idx], expected.as_str())?;
            if !str_eq(v.type_.as_str(), expected.as_str()) {
                return Err(
                    CodegenError::unsupported(
                        cat(
                            vec![
                                "spawn argument ",
                                usize_text(idx + 1).as_str(),
                                " to ",
                                quote(signature.full_name.as_str()).as_str(),
                                " has type ",
                                v.type_.as_str(),
                            ],
                        ).as_str(),
                    ),
                );
            }
            let field_ptr = self.temp("task.ctx.field");
            self.put(
                vec![
                    "  %",
                    field_ptr.as_str(),
                    " = getelementptr inbounds ",
                    ctx_type.as_str(),
                    ", ptr ",
                    ctx.as_str(),
                    ", i32 0, i32 ",
                    usize_text(idx).as_str(),
                    "\n",
                ],
            );
            let t = self.llvm_type(expected.as_str())?;
            self.put(vec!["  store ", t.as_str(), " ", v.repr.as_str(), ", ptr %", field_ptr.as_str(), "\n"]);
            idx = idx + 1;
        }
        self.put(
            vec![
                "  call void @yar_taskgroup_spawn(ptr ",
                taskgroup.handle.as_str(),
                ", ptr @",
                function_symbol(wrapper_name.as_str()).as_str(),
                ", ptr ",
                ctx.as_str(),
                ")\n",
            ],
        );
        Ok(())
    }

    fn emit_spawn_closure_call(&mut self, taskgroup: &TaskgroupHandle, call: &CallExpr, function_type: &FunctionType) -> (r:
        Result<(), CodegenError>)
        ensures
            final(self).g.info == old(self).g.info,
        decreases call, 1int,
    {
        if function_type.params.len() != call.args.len() {
            return Err(CodegenError::unsupported("spawn function value call arity"));
        }
        let callee = self.emit_expression(&call.callee)?;
        let expected_callee_type = format_function_type(
            &function_type.params,
            function_type.return_type.as_str(),
            function_type.errorable,
        );
        if !str_eq(callee.type_.as_str(), expected_callee_type.as_str()) {
            return Err(
                CodegenError::unsupported(concat("spawn callee has type ", callee.type_.as_str()).as_str()),
            );
        }
        let (wrapper_name, ctx_type) = self.g.queue_task_closure_wrapper(function_type)?;
        let mut field_types: Vec<String> = Vec::new();
        field_types.push(expected_callee_type.clone());
        let mut k: usize = 0;
        while k < function_type.params.len()
            invariant
                self.g.info == old(self).g.info,
                k <= function_type.params@.len(),
            decreases function_type.params.len() - k,
        {
            field_types.push(function_type.params[k].clone());
            k = k + 1;
        }
        let ctx_size = self.g.task_wrapper_context_size(&field_types)?;
        let ctx = self.emit_alloc_bytes(i32_text(ctx_size).as_str(), true);
        self.emit_task_context_store(ctx_type.as_str(), ctx.as_str(), 0, expected_callee_type.as_str(), &callee)?;
        let mut idx: usize = 0;
        while idx < call.args.len()
            invariant
                self.g.info == old(self).g.info,
                idx <= call.args@.len(),
                function_type.params@.len() == call.args@.len(),
            decreases call.args.len() - idx,
        {
            assert(decreases_to!(call => call.args@[idx as int]));
            let expected = function_type.params[idx].clone();
            let v = self.emit_expression_as(&call.args[idx], expected.as_str())?;
            if !str_eq(v.type_.as_str(), expected.as_str()) {
                return Err(
                    CodegenError::unsupported(
                        cat(
                            vec![
                                "spawn function value argument ",
                                usize_text(idx + 1).as_str(),
                                " has type ",
                                v.type_.as_str(),
                            ],
                        ).as_str(),
                    ),
                );
            }
            self.emit_task_context_store(ctx_type.as_str(), ctx.as_str(), idx + 1, expected.as_str(), &v)?;
            idx = idx + 1;
        }
        self.put(
            vec![
                "  call void @yar_taskgroup_spawn(ptr ",
                taskgroup.handle.as_str(),
                ", ptr @",
                function_symbol(wrapper_name.as_str()).as_str(),
                ", ptr ",
                ctx.as_str(),
                ")\n",
            ],
        );
        Ok(())
    }

    fn emit_task_context_store(&mut self, ctx_type: &str, ctx: &str, idx: usize, expected: &str, v: &Value) -> (r:
        Result<(), CodegenError>)
        ensures
            final(self).g.info == old(self).g.info,
    {
        let field_ptr = self.temp("task.ctx.field");
        self.put(
            vec![
                "  %",
                field_ptr.as_str(),
                " = getelementptr inbounds ",
                ctx_type,
                ", ptr ",
                ctx,
                ", i32 0, i32 ",
                usize_text(idx).as_str(),
                "\n",
            ],
        );
        let t = self.llvm_type(expected)?;
        self.put(vec!["  store ", t.as_str(), " ", v.repr.as_str(), ", ptr %", field_ptr.as_str(), "\n"]);
        Ok(())
    }

    /// Lowers a taskgroup: a runtime group, the body's spawns, then the wait
    /// that collects the results into a slice.
    pub fn emit_taskgroup(&mut self, expression: &TaskgroupExpr) -> (r: Result<Value, CodegenError>)
        ensures
            final(self).g.info == old(self).g.info,
        decreases expression, 1int,
    {
        let result_type = expression.result_type.display();
        let element_type = match parse_slice_type(result_type.as_str()) {
            Some(e) => e,
            None => {
                return Err(CodegenError::unsupported("taskgroup result type"));
            },
        };
        let elem_size: i32 = if str_eq(element_type.as_str(), "void") {
            0
        } else {
            self.type_size(element_type.as_str())?
        };
        let handle = self.temp("taskgroup");
        self.put(
            vec!["  %", handle.as_str(), " = call ptr @yar_taskgroup_new(i64 ", i32_text(elem_size).as_str(), ")\n"],
        );
        let previous = self.taskgroup.clone();
        self.taskgroup = Some(TaskgroupHandle { handle: concat("%", handle.as_str()) });
        self.emit_block_stmts(&expression.body)?;
        self.taskgroup = previous;
        let result_slot = self.temp("taskgroup.result.slot");
        self.put(vec!["  %", result_slot.as_str(), " = alloca %yar.slice\n"]);
        self.put(
            vec![
                "  call void @yar_taskgroup_wait(ptr %",
                handle.as_str(),
                ", ptr %",
                result_slot.as_str(),
                ")\n",
            ],
        );
        let result = self.temp("taskgroup.result");
        self.put(vec!["  %", result.as_str(), " = load %yar.slice, ptr %", result_slot.as_str(), "\n"]);
        Ok(Value { type_: result_type, repr: concat("%", result.as_str()) })
    }

    fn emit_errorable_return(&mut self, statement: &ReturnStmt) -> (r: Result<(), CodegenError>)
        ensures
            final(self).g.info == old(self).g.info,
        decreases statement, 0int,
    {
        let return_type = self.signature.return_type.clone();
        let rt = return_type.as_str();
        match &statement.value {
            Some(v) => {
                match v {
                    Expression::Error(error) => {
                        let result = self.emit_error_result(rt, error.name.as_str())?;
                        self.put(
                            vec!["  ret ", result_type_name(rt).as_str(), " ", result.repr.as_str(), "\n"],
                        );
                        self.terminated = true;
                        return Ok(());
                    },
                    _ => {},
                }
                let v = self.emit_expression_as(v, rt)?;
                if str_eq(v.type_.as_str(), errorable_type(rt).as_str()) {
                    self.put(vec!["  ret ", result_type_name(rt).as_str(), " ", v.repr.as_str(), "\n"]);
                } else {
                    if !str_eq(v.type_.as_str(), rt) {
                        return Err(
                            CodegenError::unsupported(
                                concat("errorable return value type ", v.type_.as_str()).as_str(),
                            ),
                        );
                    }
                    let result = self.emit_success_result(rt, v.repr.as_str())?;
                    self.put(vec!["  ret ", result_type_name(rt).as_str(), " ", result.repr.as_str(), "\n"]);
                }
            },
            None => {
                if !str_eq(rt, "void") {
                    return Err(CodegenError::unsupported("non-void errorable return without a value"));
                }
                let result = self.emit_success_void_result()?;
                self.put(vec!["  ret ", result_type_name("void").as_str(), " ", result.repr.as_str(), "\n"]);
            },
        }
        self.terminated = true;
        Ok(())
    }

    fn emit_var(&mut self, statement: &VarStmt) -> (r: Result<(), CodegenError>)
        ensures
            final(self).g.info == old(self).g.info,
        decreases statement, 1int,
    {
        let t = statement.type_ref.display();
        let v = match &statement.value {
            Some(v) => self.emit_expression_as(v, t.as_str())?,
            None => self.zero_value(t.as_str())?,
        };
        if !str_eq(v.type_.as_str(), t.as_str()) {
            return Err(
                CodegenError::unsupported(
                    cat(
                        vec![
                            "var ",
                            quote(statement.name.as_str()).as_str(),
                            " initializer type ",
                            v.type_.as_str(),
                        ],
                    ).as_str(),
                ),
            );
        }
        self.bind_local(statement.name.as_str(), v)
    }

    fn emit_assign(&mut self, statement: &AssignStmt) -> (r: Result<(), CodegenError>)
        ensures
            final(self).g.info == old(self).g.info,
        decreases statement, 1int,
    {
        match &statement.target {
            Expression::Index(index) => match self.expression_type_hint(&index.inner) {
                Some(map_type) => match parse_map_type(map_type.as_str()) {
                    Some((key_type, value_type)) => {
                        let map = self.emit_expression(&index.inner)?;
                        let key = self.emit_expression_as(&index.index, key_type.as_str())?;
                        let v = self.emit_expression_as(&statement.value, value_type.as_str())?;
                        return self.emit_map_set(map.repr.as_str(), key_type.as_str(), &key, value_type.as_str(), &v);
                    },
                    None => {},
                },
                None => {},
            },
            _ => {},
        }
        let target = self.emit_address(&statement.target)?;
        let expected_type = target.type_.clone();
        let v = self.emit_expression_as(&statement.value, expected_type.as_str())?;
        if !str_eq(v.type_.as_str(), expected_type.as_str()) {
            return Err(
                CodegenError::unsupported(
                    cat(
                        vec![
                            "assignment target has type ",
                            expected_type.as_str(),
                            " but value has type ",
                            v.type_.as_str(),
                        ],
                    ).as_str(),
                ),
            );
        }
        self.store_address(&target, &v)
    }

    fn emit_compound_assign(&mut self, statement: &CompoundAssignStmt) -> (r: Result<(), CodegenError>)
        ensures
            final(self).g.info == old(self).g.info,
        decreases statement, 1int,
    {
        let target = self.emit_address(&statement.target)?;
        let current = self.load_address(&target)?;
        let v = self.emit_expression_as(&statement.value, target.type_.as_str())?;
        let result = self.emit_arithmetic_value(statement.operator, current, v)?;
        self.store_address(&target, &result)
    }

    /// Binds `name` to a fresh slot holding `v`.
    pub fn bind_local(&mut self, name: &str, v: Value) -> (r: Result<(), CodegenError>)
        ensures
            final(self).g.info == old(self).g.info,
            !old(self).heap_locals@.contains(name@) && super::scalar_llvm_type(v.type_@) is Some ==> r is Ok,
            r is Ok ==> final(self).locals@.contains_key(name@) && final(self).locals@[name@].type_@ == v.type_@,
            r is Ok && !old(self).heap_locals@.contains(name@) ==> forall|n: Seq<char>|
                n != name@ && #[trigger] old(self).locals@.contains_key(n) ==> final(self).locals@.contains_key(n)
                    && final(self).locals@[n] == old(self).locals@[n],
            final(self).g == old(self).g,
    {
        let llvm_type = self.llvm_type(v.type_.as_str())?;
        let slot = self.allocate_local_slot(name, v.type_.as_str())?;
        self.put(vec!["  store ", llvm_type.as_str(), " ", v.repr.as_str(), ", ptr ", slot.as_str(), "\n"]);
        self.locals.insert(owned(name), Local { type_: v.type_, ptr: slot });
        Ok(())
    }

    /// Storage for a local: on the heap when its address is taken, else on the stack.
    pub fn allocate_local_slot(&mut self, name: &str, t: &str) -> (r: Result<String, CodegenError>)
        ensures
            final(self).g.info == old(self).g.info,
            !old(self).heap_locals@.contains(name@) && super::scalar_llvm_type(t@) is Some ==> (r matches Ok(s)
                && s@ == "%"@ + "local."@ + name@ + "."@ + crate::text::decimal(old(self).next_id as nat)),
            !old(self).heap_locals@.contains(name@) ==> final(self).locals@ == old(self).locals@
                && final(self).heap_locals@ == old(self).heap_locals@,
            final(self).g == old(self).g,
    {
        if self.heap_locals.contains(name) {
            return self.emit_alloc_type(t, false);
        }
        let llvm_type = self.llvm_type(t)?;
        let slot = self.temp(concat("local.", name).as_str());
        self.put(vec!["  %", slot.as_str(), " = alloca ", llvm_type.as_str(), "\n"]);
        let s = concat("%", slot.as_str());
        assert(s@ =~= "%"@ + "local."@ + name@ + "."@ + crate::text::decimal(old(self).next_id as nat));
        Ok(s)
    }

    /// Stores `v` at `address`.
    pub fn store_address(&mut self, address: &Address, v: &Value) -> (r: Result<(), CodegenError>)
        ensures
            final(self).g.info == old(self).g.info,
            super::scalar_llvm_type(address.type_@) is Some ==> r is Ok && final(self).body@ == old(self).body@
                + "  store "@ + super::scalar_llvm_type(address.type_@)->0 + " "@ + v.repr@ + ", ptr "@
                + address.ptr@ + "\n"@,
            r is Err ==> final(self).body@ == old(self).body@,
            final(self).g == old(self).g,
            final(self).next_id == old(self).next_id,
    {
        let llvm_type = self.llvm_type(address.type_.as_str())?;
        let parts = vec!["  store ", llvm_type.as_str(), " ", v.repr.as_str(), ", ptr ", address.ptr.as_str(), "\n"];
        proof {
            crate::text::lemma_concat_all_seven(parts@);
        }
        self.put(parts);
        Ok(())
    }

    fn emit_if(&mut self, statement: &IfStmt) -> (r: Result<(), CodegenError>)
        ensures
            final(self).g.info == old(self).g.info,
        decreases statement, 1int,
    {
        let cond = self.emit_expression(&statement.cond)?;
        if !str_eq(cond.type_.as_str(), "bool") {
            return Err(CodegenError::unsupported("if condition type"));
        }
        let then_label = self.label("if.then");
        let after_label = self.label("if.end");
        let else_label = if statement.else_stmt.is_some() {
            self.label("if.else")
        } else {
            after_label.clone()
        };
        self.put(
            vec![
                "  br i1 ",
                cond.repr.as_str(),
                ", label %",
                then_label.as_str(),
                ", label %",
                else_label.as_str(),
                "\n",
            ],
        );
        self.start_block(then_label.as_str());
        let then_terminated = self.emit_branch_block(&statement.then_block, after_label.as_str())?;
        let else_terminated = match &statement.else_stmt {
            Some(else_stmt) => {
                self.start_block(else_label.as_str());
                self.emit_branch_statement(else_stmt, after_label.as_str())?
            },
            None => false,
        };
        if then_terminated && else_terminated {
            self.terminated = true;
            return Ok(());
        }
        self.start_block(after_label.as_str());
        self.terminated = false;
        Ok(())
    }

    fn emit_for(&mut self, statement: &ForStmt) -> (r: Result<(), CodegenError>)
        ensures
            final(self).g.info == old(self).g.info,
        decreases statement, 1int,
    {
        match &statement.init {
            Some(init) => {
                self.emit_statement(init)?;
                if self.terminated {
                    return Ok(());
                }
            },
            None => {},
        }
        let cond_label = self.label("for.cond");
        let body_label = self.label("for.body");
        let post_label = self.label("for.post");
        let end_label = self.label("for.end");
        let continue_label = if statement.post.is_some() {
            post_label.clone()
        } else {
            cond_label.clone()
        };
        self.put(vec!["  br label %", cond_label.as_str(), "\n"]);
        self.start_block(cond_label.as_str());
        match &statement.cond {
            Some(cond) => {
                let c = self.emit_expression(cond)?;
                if !str_eq(c.type_.as_str(), "bool") {
                    return Err(CodegenError::unsupported("for condition type"));
                }
                self.put(
                    vec![
                        "  br i1 ",
                        c.repr.as_str(),
                        ", label %",
                        body_label.as_str(),
                        ", label %",
                        end_label.as_str(),
                        "\n",
                    ],
                );
            },
            None => {
                self.put(vec!["  br label %", body_label.as_str(), "\n"]);
            },
        }
        self.start_block(body_label.as_str());
        self.loop_stack.push(LoopLabels { break_label: end_label.clone(), continue_label });
        self.terminated = false;
        self.emit_block_stmts(&statement.body)?;
        let body_terminated = self.terminated;
        self.loop_stack.pop();
        if !body_terminated {
            self.put(vec!["  br label %", post_label.as_str(), "\n"]);
        }
        self.start_block(post_label.as_str());
        self.terminated = false;
        match &statement.post {
            Some(post) => {
                self.emit_statement(post)?;
                if !self.terminated {
                    self.put(vec!["  br label %", cond_label.as_str(), "\n"]);
                }
            },
            None => {
                self.put(vec!["  br label %", cond_label.as_str(), "\n"]);
            },
        }
        self.start_block(end_label.as_str());
        self.terminated = false;
        Ok(())
    }

    fn emit_break(&mut self) -> (r: Result<(), CodegenError>)
        ensures
            final(self).g.info == old(self).g.info,
            r is Err <==> old(self).loop_stack@.len() == 0,
            r is Err ==> final(self).body@ == old(self).body@ && final(self).g == old(self).g,
            r is Ok ==> final(self).body@ == old(self).body@ + "  br label %"@
                + old(self).loop_stack@.last().break_label@ + "\n"@ && final(self).terminated
                && final(self).g == old(self).g && final(self).next_id == old(self).next_id,
    {
        if self.loop_stack.len() == 0 {
            return Err(CodegenError::unsupported("break outside loop"));
        }
        let target = self.loop_stack[self.loop_stack.len() - 1].break_label.clone();
        let parts = vec!["  br label %", target.as_str(), "\n"];
        proof {
            crate::text::lemma_concat_all_triple(parts@);
        }
        self.put(parts);
        self.terminated = true;
        Ok(())
    }

    fn emit_continue(&mut self) -> (r: Result<(), CodegenError>)
        ensures
            final(self).g.info == old(self).g.info,
            r is Err <==> old(self).loop_stack@.len() == 0,
            r is Err ==> final(self).body@ == old(self).body@ && final(self).g == old(self).g,
            r is Ok ==> final(self).body@ == old(self).body@ + "  br label %"@
                + old(self).loop_stack@.last().continue_label@ + "\n"@ && final(self).terminated
                && final(self).g == old(self).g && final(self).next_id == old(self).next_id,
    {
        if self.loop_stack.len() == 0 {
            return Err(CodegenError::unsupported("continue outside loop"));
        }
        let target = self.loop_stack[self.loop_stack.len() - 1].continue_label.clone();
        let parts = vec!["  br label %", target.as_str(), "\n"];
        proof {
            crate::text::lemma_concat_all_triple(parts@);
        }
        self.put(parts);
        self.terminated = true;
        Ok(())
    }

    #[verifier::rlimit(50)]
    fn emit_match(&mut self, statement: &MatchStmt) -> (r: Result<(), CodegenError>)
        ensures
            final(self).g.info == old(self).g.info,
            r is Ok ==> exists|k: Seq<char>|
                #![trigger old(self).g.info.enums@[k]]
                old(self).g.info.enums@.contains_key(k) && forall|a: int|
                    0 <= a < statement.arms@.len() ==> crate::checker::body::first_case_named(
                        old(self).g.info.enums@[k],
                        #[trigger] statement.arms@[a].case_name@,
                    ) is Some,
        decreases statement, 1int,
    {
        let v = self.emit_expression(&statement.value)?;
        let enum_type = v.type_.clone();
        let enum_info = match self.g.info.enums.get(enum_type.as_str()) {
            Some(e) => e.clone(),
            None => {
                return Err(CodegenError::unsupported(concat("match on ", quote(enum_type.as_str()).as_str()).as_str()));
            },
        };
        let enum_llvm = self.llvm_type(enum_type.as_str())?;
        let slot = self.temp("match.value");
        self.put(vec!["  %", slot.as_str(), " = alloca ", enum_llvm.as_str(), "\n"]);
        self.put(vec!["  store ", enum_llvm.as_str(), " ", v.repr.as_str(), ", ptr %", slot.as_str(), "\n"]);
        let tag_ptr = self.temp("match.tag.ptr");
        self.put(
            vec![
                "  %",
                tag_ptr.as_str(),
                " = getelementptr inbounds ",
                enum_llvm.as_str(),
                ", ptr %",
                slot.as_str(),
                ", i32 0, i32 0\n",
            ],
        );
        let tag = self.temp("match.tag");
        self.put(vec!["  %", tag.as_str(), " = load i32, ptr %", tag_ptr.as_str(), "\n"]);
        let default_label = self.label("match.default");
        let end_label = self.label("match.end");
        let mut arm_labels: Vec<String> = Vec::new();
        let mut a: usize = 0;
        while a < statement.arms.len()
            invariant
                self.g.info == old(self).g.info,
                a <= statement.arms@.len(),
                arm_labels@.len() == a,
            decreases statement.arms.len() - a,
        {
            arm_labels.push(self.label("match.case"));
            a = a + 1;
        }
        self.put(vec!["  switch i32 %", tag.as_str(), ", label %", default_label.as_str(), " [\n"]);
        let mut a: usize = 0;
        while a < statement.arms.len()
            invariant
                forall|j: int|
                    0 <= j < a ==> crate::checker::body::first_case_named(
                        self.g.info.enums@[enum_type@],
                        #[trigger] statement.arms@[j].case_name@,
                    ) is Some,
                self.g.info.enums@.contains_key(enum_type@),
                self.g.info == old(self).g.info,
                a <= statement.arms@.len(),
                arm_labels@.len() == statement.arms@.len(),
            decreases statement.arms.len() - a,
        {
            let case = self.g.enum_case(enum_type.as_str(), statement.arms[a].case_name.as_str());
            let case = match case {
                Ok(c) => c,
                Err(_) => {
                    return Err(
                        CodegenError::unsupported(
                            cat(
                                vec![
                                    "unknown match case ",
                                    quote(enum_type.as_str()).as_str(),
                                    ".",
                                    statement.arms[a].case_name.as_str(),
                                ],
                            ).as_str(),
                        ),
                    );
                },
            };
            self.put(vec!["    i32 ", usize_text(case.tag).as_str(), ", label %", arm_labels[a].as_str(), "\n"]);
            a = a + 1;
        }
        self.body.append("  ]\n");
        self.terminated = true;
        let ghost covered = self.g.info.enums@.contains_key(enum_type@) && forall|j: int|
            0 <= j < statement.arms@.len() ==> crate::checker::body::first_case_named(
                self.g.info.enums@[enum_type@],
                #[trigger] statement.arms@[j].case_name@,
            ) is Some;
        assert(covered);
        let mut needs_end = false;
        let mut a: usize = 0;
        while a < statement.arms.len()
            invariant
                self.g.info == old(self).g.info,
                a <= statement.arms@.len(),
                arm_labels@.len() == statement.arms@.len(),
            decreases statement.arms.len() - a,
        {
            let arm = &statement.arms[a];
            assert(decreases_to!(statement => statement.arms@[a as int].body));
            self.start_block(arm_labels[a].as_str());
            a = a + 1;
            self.terminated = false;
            let case = match self.g.enum_case(enum_type.as_str(), arm.case_name.as_str()) {
                Ok(c) => c,
                Err(_) => {
                    return Err(
                        CodegenError::unsupported(
                            cat(
                                vec![
                                    "unknown match case ",
                                    quote(enum_type.as_str()).as_str(),
                                    ".",
                                    arm.case_name.as_str(),
                                ],
                            ).as_str(),
                        ),
                    );
                },
            };
            let binds = case.payload_type.unicode_len() > 0 && arm.bind_name.unicode_len() > 0 && !arm.bind_ignore;
            let previous: Option<Local> = if binds {
                let payload_ptr = self.enum_payload_ptr(slot.as_str(), enum_type.as_str())?;
                let payload = self.load_address(&Address { type_: case.payload_type.clone(), ptr: payload_ptr })?;
                let previous = match self.locals.get(arm.bind_name.as_str()) {
                    Some(l) => Some(l.clone()),
                    None => None,
                };
                self.bind_local(arm.bind_name.as_str(), payload)?;
                previous
            } else {
                None
            };
            self.emit_block_stmts(&arm.body)?;
            if binds {
                match previous {
                    Some(local) => {
                        self.locals.insert(arm.bind_name.clone(), local);
                    },
                    None => {
                        self.locals.remove(arm.bind_name.as_str());
                    },
                }
            }
            if !self.terminated {
                self.put(vec!["  br label %", end_label.as_str(), "\n"]);
                needs_end = true;
            }
        }
        self.start_block(default_label.as_str());
        self.terminated = false;
        match &statement.else_body {
            Some(else_body) => {
                self.emit_block_stmts(else_body)?;
                if !self.terminated {
                    self.put(vec!["  br label %", end_label.as_str(), "\n"]);
                    needs_end = true;
                }
            },
            None => {
                self.body.append("  unreachable\n");
                self.terminated = true;
            },
        }
        if needs_end {
            self.start_block(end_label.as_str());
            self.terminated = false;
        }
        Ok(())
    }

    fn emit_branch_statement(&mut self, statement: &Statement, after_label: &str) -> (r: Result<bool, CodegenError>)
        ensures
            final(self).g.info == old(self).g.info,
        decreases statement, 2int,
    {
        let previous = self.terminated;
        self.terminated = false;
        self.emit_statement(statement)?;
        let branch_terminated = self.terminated;
        if !branch_terminated {
            self.put(vec!["  br label %", after_label, "\n"]);
        }
        self.terminated = previous;
        Ok(branch_terminated)
    }

    fn emit_branch_block(&mut self, block: &BlockStmt, after_label: &str) -> (r: Result<bool, CodegenError>)
        ensures
            final(self).g.info == old(self).g.info,
        decreases block, 2int,
    {
        let previous = self.terminated;
        self.terminated = false;
        self.emit_block_stmts(block)?;
        let branch_terminated = self.terminated;
        if !branch_terminated {
            self.put(vec!["  br label %", after_label, "\n"]);
        }
        self.terminated = previous;
        Ok(branch_terminated)
    }

    fn emit_fallthrough_return(&mut self) -> (r: Result<(), CodegenError>)
        ensures
            final(self).g.info == old(self).g.info,
            r is Ok <==> old(self).signature.return_type@ == "void"@,
            r is Ok ==> final(self).body@ == old(self).body@ + "  ret void\n"@ && final(self).terminated,
            r is Err ==> final(self).body@ == old(self).body@,
            final(self).g == old(self).g,
            final(self).next_id == old(self).next_id,
    {
        if str_eq(self.signature.return_type.as_str(), "void") {
            self.body.append("  ret void\n");
        } else {
            return Err(
                CodegenError::unsupported(
                    concat("fallthrough return for ", self.signature.return_type.as_str()).as_str(),
                ),
            );
        }
        self.terminated = true;
        Ok(())
    }

    /// The type an expression will have, when it can be told without lowering it.
    pub fn expression_type_hint(&self, expression: &Expression) -> (r: Option<String>)
        decreases expression,
    {
        match expression {
            Expression::Ident(e) => match self.locals.get(e.name.as_str()) {
                Some(local) => Some(local.type_.clone()),
                None => None,
            },
            Expression::Group(e) => self.expression_type_hint(&e.inner),
            Expression::StructLiteral(e) => Some(e.type_ref.display()),
            Expression::ArrayLiteral(e) => Some(e.type_ref.display()),
            Expression::SliceLiteral(e) => Some(e.type_ref.display()),
            Expression::MapLiteral(e) => Some(e.type_ref.display()),
            Expression::Selector(e) => {
                let inner = match self.expression_type_hint(&e.inner) {
                    Some(i) => i,
                    None => {
                        return None;
                    },
                };
                let base = match parse_pointer_type(inner.as_str()) {
                    Some(b) => b,
                    None => inner,
                };
                match self.g.info.structs.get(base.as_str()) {
                    Some(info) => match crate::checker::body::find_field(&info.fields, e.name.as_str()) {
                        Some(fi) => Some(info.fields[fi].type_.clone()),
                        None => None,
                    },
                    None => None,
                }
            },
            Expression::FunctionLiteral(e) => {
                let key = function_literal_key(e);
                match self.g.info.function_literals.get(key.as_str()) {
                    Some(info) => Some(
                        format_function_type(
                            &info.signature.params,
                            info.signature.return_type.as_str(),
                            info.signature.errorable,
                        ),
                    ),
                    None => None,
                }
            },
            _ => None,
        }
    }

    /// A stack slot holding `v`.
    pub fn emit_stack_slot(&mut self, label: &str, t: &str, v: &str) -> (r: Result<String, CodegenError>)
        ensures
            final(self).g.info == old(self).g.info,
            super::scalar_llvm_type(t@) is Some ==> r is Ok,
            r matches Ok(s) ==> s@ == "%"@ + label@ + "."@ + crate::text::decimal(old(self).next_id as nat),
            final(self).g == old(self).g,
    {
        let slot = self.temp(label);
        let llvm_type = self.llvm_type(t)?;
        self.put(vec!["  %", slot.as_str(), " = alloca ", llvm_type.as_str(), "\n"]);
        self.put(vec!["  store ", llvm_type.as_str(), " ", v, ", ptr %", slot.as_str(), "\n"]);
        let s = concat("%", slot.as_str());
        assert(s@ =~= "%"@ + label@ + "."@ + crate::text::decimal(old(self).next_id as nat));
        Ok(s)
    }

    /// The field `field_name` of a struct value.
    pub fn emit_struct_field_extract(&mut self, label: &str, v: &Value, field_name: &str) -> (r: Result<
        Value,
        CodegenError,
    >)
        ensures
            final(self).g.info == old(self).g.info,
    {
        let (field_index, field_type) = self.g.struct_field(v.type_.as_str(), field_name)?;
        let result = self.temp(label);
        let t = self.llvm_type(v.type_.as_str())?;
        self.put(
            vec![
                "  %",
                result.as_str(),
                " = extractvalue ",
                t.as_str(),
                " ",
                v.repr.as_str(),
                ", ",
                usize_text(field_index).as_str(),
                "\n",
            ],
        );
        Ok(Value { type_: field_type, repr: concat("%", result.as_str()) })
    }

    /// Stores `v` under `key` in a map.
    pub fn emit_map_set(&mut self, map: &str, key_type: &str, key: &Value, value_type: &str, v: &Value) -> (r: Result<
        (),
        CodegenError,
    >)
        ensures
            final(self).g.info == old(self).g.info,
            key.type_@ != key_type@ || v.type_@ != value_type@ ==> r is Err && final(self).body@ == old(self).body@,
            key.type_@ == key_type@ && v.type_@ == value_type@ && super::scalar_llvm_type(key_type@) is Some
                && super::scalar_llvm_type(value_type@) is Some ==> r is Ok,
            final(self).g == old(self).g,
    {
        if !str_eq(key.type_.as_str(), key_type) {
            return Err(CodegenError::unsupported(concat("map key has type ", key.type_.as_str()).as_str()));
        }
        if !str_eq(v.type_.as_str(), value_type) {
            return Err(CodegenError::unsupported(concat("map value has type ", v.type_.as_str()).as_str()));
        }
        let key_slot = self.emit_stack_slot("map.key.slot", key_type, key.repr.as_str())?;
        let value_slot = self.emit_stack_slot("map.val.slot", value_type, v.repr.as_str())?;
        self.put(
            vec![
                "  call void @yar_map_set(ptr ",
                map,
                ", ptr ",
                key_slot.as_str(),
                ", ptr ",
                value_slot.as_str(),
                ")\n",
            ],
        );
        Ok(())
    }

    /// A field of a slice value: its data pointer (0), length (1) or capacity (2).
    pub fn extract_slice_field(&mut self, slice: &str, idx: usize, label: &str) -> (r: Result<Value, CodegenError>)
        ensures
            final(self).g.info == old(self).g.info,
            idx == 0 ==> (r matches Ok(v) && v.type_@ == "*data"@),
            idx == 1 || idx == 2 ==> (r matches Ok(v) && v.type_@ == "i32"@),
            idx > 2 ==> r is Err,
    {
        let result = self.temp(label);
        if idx == 0 {
            self.put(vec!["  %", result.as_str(), " = extractvalue %yar.slice ", slice, ", 0\n"]);
            Ok(value("*data", concat("%", result.as_str())))
        } else if idx == 1 || idx == 2 {
            self.put(
                vec!["  %", result.as_str(), " = extractvalue %yar.slice ", slice, ", ", usize_text(idx).as_str(), "\n"],
            );
            Ok(value("i32", concat("%", result.as_str())))
        } else {
            Err(CodegenError::unsupported("slice field index"))
        }
    }

    /// A slice value of its three parts.
    pub fn emit_slice_value(&mut self, data: &str, len: &str, cap: &str) -> (s: String)
        ensures
            final(self).g.info == old(self).g.info,
            old(self).next_id + 2 < usize::MAX ==> s@ == "%"@ + "slice"@ + "."@ + crate::text::decimal(
                (old(self).next_id + 2) as nat,
            ),
            final(self).g == old(self).g,
    {
        let first = self.temp("slice");
        let second = self.temp("slice");
        let third = self.temp("slice");
        self.put(vec!["  %", first.as_str(), " = insertvalue %yar.slice zeroinitializer, ptr ", data, ", 0\n"]);
        self.put(vec!["  %", second.as_str(), " = insertvalue %yar.slice %", first.as_str(), ", i32 ", len, ", 1\n"]);
        self.put(vec!["  %", third.as_str(), " = insertvalue %yar.slice %", second.as_str(), ", i32 ", cap, ", 2\n"]);
        let s = concat("%", third.as_str());
        assert(old(self).next_id + 2 < usize::MAX ==> s@ =~= "%"@ + "slice"@ + "."@ + crate::text::decimal(
            (old(self).next_id + 2) as nat,
        ));
        s
    }

    /// The address of an enum value's payload.
    pub fn enum_payload_ptr(&mut self, enum_slot: &str, enum_type: &str) -> (r: Result<String, CodegenError>)
        ensures
            final(self).g.info == old(self).g.info,
            crate::checker::types::array_parts(enum_type@) is None ==> r is Ok,
            r matches Ok(s) ==> s@ == "%"@ + "enum.payload.ptr"@ + "."@ + crate::text::decimal(
                old(self).next_id as nat,
            ),
            final(self).g == old(self).g,
    {
        let payload_ptr = self.temp("enum.payload.ptr");
        let t = self.llvm_type(enum_type)?;
        self.put(
            vec![
                "  %",
                payload_ptr.as_str(),
                " = getelementptr inbounds ",
                t.as_str(),
                ", ptr %",
                enum_slot,
                ", i32 0, i32 1\n",
            ],
        );
        let s = concat("%", payload_ptr.as_str());
        assert(s@ =~= "%"@ + "enum.payload.ptr"@ + "."@ + crate::text::decimal(old(self).next_id as nat));
        Ok(s)
    }

    /// A heap allocation of `size` bytes, zeroed when asked.
    pub fn emit_alloc_bytes(&mut self, size: &str, zeroed: bool) -> (s: String)
        ensures
            final(self).g.info == old(self).g.info,
            s@ == "%alloc."@ + crate::text::decimal(old(self).next_id as nat),
            final(self).body@ == old(self).body@ + "  "@ + s@ + " = call ptr "@ + (if zeroed {
                "@yar_alloc_zeroed"@
            } else {
                "@yar_alloc"@
            }) + "(i64 "@ + size@ + ")\n"@,
            final(self).g == old(self).g,
    {
        let helper = if zeroed {
            "@yar_alloc_zeroed"
        } else {
            "@yar_alloc"
        };
        let result = self.temp("alloc");
        let parts = vec!["  %", result.as_str(), " = call ptr ", helper, "(i64 ", size, ")\n"];
        proof {
            reveal_with_fuel(crate::text::concat_all, 8);
            assert(parts@.drop_last().drop_last().drop_last().drop_last().drop_last().drop_last().drop_last()
                =~= Seq::<&str>::empty());
            reveal_strlit("  %");
            reveal_strlit("%");
            reveal_strlit("  ");
            reveal_strlit("alloc");
            reveal_strlit(".");
            reveal_strlit("%alloc.");
            assert("  %"@ =~= "  "@ + "%"@);
            assert("%alloc."@ =~= "%"@ + "alloc"@ + "."@);
        }
        self.put(parts);
        let s = concat("%", result.as_str());
        assert(s@ =~= "%alloc."@ + crate::text::decimal(old(self).next_id as nat));
        assert(self.body@ =~= old(self).body@ + "  "@ + s@ + " = call ptr "@ + helper@ + "(i64 "@ + size@ + ")\n"@);
        s
    }

    /// A heap allocation for one value of type `t`.
    pub fn emit_alloc_type(&mut self, t: &str, zeroed: bool) -> (r: Result<String, CodegenError>)
        ensures
            final(self).g.info == old(self).g.info,
            final(self).g == old(self).g,
    {
        let size = self.emit_type_size(t)?;
        Ok(self.emit_alloc_bytes(size.as_str(), zeroed))
    }

    /// The byte size of `len` elements of `element_type`.
    pub fn emit_array_alloc_size(&mut self, element_type: &str, len: usize) -> (r: Result<String, CodegenError>)
        ensures
            final(self).g.info == old(self).g.info,
    {
        self.emit_scaled_size(element_type, usize_text(len).as_str())
    }

    /// The byte size of `len64` elements of `element_type`.
    pub fn emit_scaled_size(&mut self, element_type: &str, len64: &str) -> (r: Result<String, CodegenError>)
        ensures
            final(self).g.info == old(self).g.info,
            super::scalar_llvm_type(element_type@) is Some ==> r is Ok,
            final(self).g == old(self).g,
    {
        let size = self.emit_type_size(element_type)?;
        if str_eq(size.as_str(), "1") {
            return Ok(owned(len64));
        }
        let result = self.temp("alloc.size");
        self.put(vec!["  %", result.as_str(), " = mul i64 ", len64, ", ", size.as_str(), "\n"]);
        Ok(concat("%", result.as_str()))
    }

    /// The byte size of a type, computed by the target.
    pub fn emit_type_size(&mut self, t: &str) -> (r: Result<String, CodegenError>)
        ensures
            final(self).g.info == old(self).g.info,
            super::scalar_llvm_type(t@) is Some ==> r is Ok,
            r matches Ok(s) ==> (old(self).next_id + 1 < usize::MAX ==> s@ == "%size."@ + crate::text::decimal(
                (old(self).next_id + 1) as nat,
            )),
            final(self).g == old(self).g,
    {
        let llvm_type = self.llvm_type(t)?;
        let size_ptr = self.temp("size.ptr");
        let size = self.temp("size");
        self.put(vec!["  %", size_ptr.as_str(), " = getelementptr ", llvm_type.as_str(), ", ptr null, i32 1\n"]);
        self.put(vec!["  %", size.as_str(), " = ptrtoint ptr %", size_ptr.as_str(), " to i64\n"]);
        let s = concat("%", size.as_str());
        proof {
            reveal_strlit("%size.");
            reveal_strlit("%");
            reveal_strlit("size");
            reveal_strlit(".");
            assert("%size."@ =~= "%"@ + "size"@ + "."@);
            if old(self).next_id + 1 < usize::MAX {
                assert(s@ =~= "%"@ + "size"@ + "."@ + crate::text::decimal(old(self).next_id as nat + 1));
            }
        }
        Ok(s)
    }

    /// Copies `size` bytes.
    pub fn emit_memcpy(&mut self, dst: &str, src: &str, size: &str)
        ensures
            final(self).g.info == old(self).g.info,
    {
        self.put(vec!["  call void @llvm.memcpy.p0.p0.i64(ptr ", dst, ", ptr ", src, ", i64 ", size, ", i1 false)\n"]);
    }

    /// A closure value of its code and environment.
    pub fn emit_closure_value(&mut self, code: &str, env: &str) -> (s: String)
        ensures
            final(self).g.info == old(self).g.info,
            old(self).next_id + 1 < usize::MAX ==> s@ == "%closure."@ + crate::text::decimal(
                (old(self).next_id + 1) as nat,
            ),
            final(self).g == old(self).g,
    {
        let first = self.temp("closure");
        let second = self.temp("closure");
        self.put(vec!["  %", first.as_str(), " = insertvalue %yar.closure zeroinitializer, ptr ", code, ", 0\n"]);
        self.put(vec!["  %", second.as_str(), " = insertvalue %yar.closure %", first.as_str(), ", ptr ", env, ", 1\n"]);
        let s = concat("%", second.as_str());
        proof {
            reveal_strlit("%closure.");
            reveal_strlit("%");
            reveal_strlit("closure");
            reveal_strlit(".");
            assert("%closure."@ =~= "%"@ + "closure"@ + "."@);
            if old(self).next_id + 1 < usize::MAX {
                assert(s@ =~= "%"@ + "closure"@ + "."@ + crate::text::decimal(old(self).next_id as nat + 1));
            }
        }
        s
    }

    /// The LLVM struct type of a closure's captured values.
    pub fn closure_env_type_literal(&self, captures: &Vec<CaptureInfo>) -> (r: Result<String, CodegenError>)
        ensures
            captures@.len() == 0 ==> (r matches Ok(t) && t@ == "{ }"@),
            captures@.len() > 0 && (forall|i: int|
                0 <= i < captures@.len() ==> super::scalar_llvm_type(#[trigger] captures@[i].type_@) is Some)
                ==> (r matches Ok(t) && t@ == super::struct_literal_text(
                super::scalar_llvm_types(capture_types(captures@)),
            )),
    {
        let mut types: Vec<String> = Vec::new();
        let mut i: usize = 0;
        while i < captures.len()
            invariant
                i <= captures@.len(),
                types@ == capture_types(captures@.subrange(0, i as int)),
            decreases captures.len() - i,
        {
            types.push(captures[i].type_.clone());
            i = i + 1;
            assert(capture_types(captures@.subrange(0, i as int)) =~= capture_types(
                captures@.subrange(0, i - 1),
            ).push(captures@[i - 1].type_));
        }
        assert(captures@.subrange(0, captures@.len() as int) =~= captures@);
        self.g.task_wrapper_context_type(&types)
    }

    /// The byte size of a closure's captured values.
    pub fn closure_env_size(&self, captures: &Vec<CaptureInfo>) -> (r: Result<i32, CodegenError>)
        ensures
            captures@.len() == 0 ==> r == Ok::<i32, CodegenError>(0),
            captures@.len() == 1 && super::scalar_size(captures@[0].type_@) is Some ==> r == Ok::<i32, CodegenError>(
                super::scalar_size(captures@[0].type_@)->0 as i32,
            ),
    {
        let mut types: Vec<String> = Vec::new();
        let mut i: usize = 0;
        while i < captures.len()
            invariant
                i <= captures@.len(),
                types@ == capture_types(captures@.subrange(0, i as int)),
            decreases captures.len() - i,
        {
            types.push(captures[i].type_.clone());
            i = i + 1;
            assert(capture_types(captures@.subrange(0, i as int)) =~= capture_types(
                captures@.subrange(0, i - 1),
            ).push(captures@[i - 1].type_));
        }
        assert(captures@.subrange(0, captures@.len() as int) =~= captures@);
        self.g.fields_size(&types)
    }

    /// The size of a type.
    pub fn type_size(&self, t: &str) -> (r: Result<i32, CodegenError>)
        ensures
            super::scalar_size(t@) is Some ==> (r matches Ok(v) && v == super::scalar_size(t@)->0),
    {
        self.g.type_size(t)
    }

    /// The alignment of a type.
    pub fn type_align(&self, t: &str) -> (r: Result<i32, CodegenError>)
        ensures
            super::scalar_align(t@) is Some ==> (r matches Ok(v) && v == super::scalar_align(t@)->0),
    {
        self.g.type_align(t)
    }

    /// The LLVM type of a type.
    pub fn llvm_type(&self, t: &str) -> (r: Result<String, CodegenError>)
        ensures
            super::scalar_llvm_type(t@) is Some ==> (r matches Ok(v) && v@ == super::scalar_llvm_type(t@)->0),
            crate::checker::types::array_parts(t@) is None ==> r is Ok,
    {
        self.g.llvm_type(t)
    }

    /// The zero value of a type.
    pub fn zero_value(&self, t: &str) -> (r: Result<Value, CodegenError>)
        ensures
            match zero_repr(*self.g.info, t@) {
                Some(repr) => r matches Ok(v) && v.type_@ == t@ && v.repr@ == repr,
                None => r is Err,
            },
    {
        if str_eq(t, "bool") {
            return Ok(value(t, owned("false")));
        }
        if str_eq(t, "i32") || str_eq(t, "i64") {
            return Ok(value(t, owned("0")));
        }
        if str_eq(t, "str") || self.g.info.structs.contains_key(t) || self.g.info.enums.contains_key(t)
            || self.g.info.interfaces.contains_key(t) || parse_array_type(t).is_some() || parse_slice_type(
            t,
        ).is_some() || parse_function_type(t).is_some() {
            return Ok(value(t, owned("zeroinitializer")));
        }
        if parse_pointer_type(t).is_some() || parse_map_type(t).is_some() || parse_chan_type(t).is_some() {
            return Ok(value(t, owned("null")));
        }
        Err(CodegenError::unsupported(concat("zero value for ", quote(t).as_str()).as_str()))
    }

    /// An integer value widened to `i64`.
    pub fn int_to_i64(&mut self, v: &Value) -> (r: Result<String, CodegenError>)
        ensures
            final(self).g.info == old(self).g.info,
            v.type_@ == "i64"@ ==> (r matches Ok(s) && s@ == v.repr@ && final(self).body@ == old(self).body@),
            v.type_@ == "i32"@ ==> (r matches Ok(s) && s@ == "%widen."@ + crate::text::decimal(
                old(self).next_id as nat,
            ) && final(self).body@ == old(self).body@ + "  "@ + s@ + " = sext i32 "@ + v.repr@ + " to i64\n"@),
            v.type_@ != "i64"@ && v.type_@ != "i32"@ ==> r is Err && final(self).body@ == old(self).body@,
            final(self).g == old(self).g,
    {
        proof {
            reveal_strlit("i64");
            reveal_strlit("i32");
            assert("i64"@[1] != "i32"@[1]);
        }
        if str_eq(v.type_.as_str(), "i64") {
            return Ok(v.repr.clone());
        }
        if str_eq(v.type_.as_str(), "i32") {
            let result = self.temp("widen");
            let parts = vec!["  %", result.as_str(), " = sext i32 ", v.repr.as_str(), " to i64\n"];
            proof {
                reveal_with_fuel(crate::text::concat_all, 6);
                assert(parts@.drop_last().drop_last().drop_last().drop_last().drop_last() =~= Seq::<&str>::empty());
                reveal_strlit("  %");
                reveal_strlit("%");
                reveal_strlit("  ");
                reveal_strlit("widen");
                reveal_strlit(".");
                reveal_strlit("%widen.");
                assert("  %"@ =~= "  "@ + "%"@);
                assert("%widen."@ =~= "%"@ + "widen"@ + "."@);
            }
            self.put(parts);
            let s = concat("%", result.as_str());
            assert(s@ =~= "%widen."@ + crate::text::decimal(old(self).next_id as nat));
            assert(self.body@ =~= old(self).body@ + "  "@ + s@ + " = sext i32 "@ + v.repr@ + " to i64\n"@);
            return Ok(s);
        }
        Err(CodegenError::unsupported(concat("integer conversion from ", v.type_.as_str()).as_str()))
    }
}

} // verus!
