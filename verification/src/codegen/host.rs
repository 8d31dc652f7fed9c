//! Lowering calls of the host intrinsics (`fs`, `process`, `env`, `stdio`,
//! `net`) to the runtime's status-returning helpers.
use vstd::prelude::*;

use super::emitter::{FunctionEmitter, Value};
use super::names::CodegenError;
use super::calls::void_value;
use crate::checker::types::{fs_intrinsic, net_intrinsic};
use crate::checker::Signature;
use crate::text::{cat, concat, quote, str_eq};

verus! {

/// The host intrinsics that report failure through a status code: a call of
/// one yields an errorable value of its declared result type.
pub open spec fn status_host_intrinsic(n: Seq<char>) -> bool {
    fs_intrinsic(n) || net_intrinsic(n) || n == "process.run"@ || n == "process.run_inherit"@ || n
        == "env.lookup"@
}

impl<'a> FunctionEmitter<'a> {
    /// The argument at `idx` of a host intrinsic call.
    fn host_arg(args: &Vec<Value>, idx: usize) -> (r: Result<Value, CodegenError>)
        ensures
            r is Ok <==> idx < args@.len(),
            r matches Ok(v) ==> v.repr@ == args@[idx as int].repr@ && v.type_@ == args@[idx as int].type_@,
    {
        if idx < args.len() {
            Ok(Value { type_: args[idx].type_.clone(), repr: args[idx].repr.clone() })
        } else {
            Err(CodegenError::unsupported("host intrinsic arity"))
        }
    }

    /// A stack slot `prefix.out` of type `t` holding `zero`.
    fn emit_out_slot(&mut self, prefix: &str, t: &str, zero: &str) -> (out: String)
        ensures
            final(self).g.info == old(self).g.info,
            out@ == prefix@ + ".out"@ + "."@ + crate::text::decimal(old(self).next_id as nat),
            final(self).body@ == old(self).body@ + "  %"@ + out@ + " = alloca "@ + t@ + "\n"@ + "  store "@ + t@
                + " "@ + zero@ + ", ptr %"@ + out@ + "\n"@,
            final(self).g == old(self).g,
    {
        let out = self.temp(concat(prefix, ".out").as_str());
        let first = vec!["  %", out.as_str(), " = alloca ", t, "\n"];
        let second = vec!["  store ", t, " ", zero, ", ptr %", out.as_str(), "\n"];
        proof {
            crate::text::lemma_concat_all_five(first@);
            crate::text::lemma_concat_all_seven(second@);
        }
        self.put(first);
        self.put(second);
        out
    }

    /// Calls the runtime helper `runtime_name` with `call_args`, naming its status `prefix.status`.
    fn emit_status_call(&mut self, prefix: &str, runtime_name: &str, call_args: &str) -> (status: String)
        ensures
            final(self).g.info == old(self).g.info,
            status@ == prefix@ + ".status"@ + "."@ + crate::text::decimal(old(self).next_id as nat),
            final(self).body@ == old(self).body@ + "  %"@ + status@ + " = call i32 @"@ + runtime_name@ + "("@
                + call_args@ + ")\n"@,
            final(self).g == old(self).g,
    {
        let status = self.temp(concat(prefix, ".status").as_str());
        let parts = vec!["  %", status.as_str(), " = call i32 @", runtime_name, "(", call_args, ")\n"];
        proof {
            crate::text::lemma_concat_all_seven(parts@);
        }
        self.put(parts);
        status
    }

    /// Loads the value of type `t` from the slot `out`, naming it `label`.
    fn emit_load_out(&mut self, label: &str, t: &str, out: &str) -> (v: String)
        ensures
            final(self).g.info == old(self).g.info,
            v@ == label@ + "."@ + crate::text::decimal(old(self).next_id as nat),
            final(self).body@ == old(self).body@ + "  %"@ + v@ + " = load "@ + t@ + ", ptr %"@ + out@ + "\n"@,
            old(self).next_id < usize::MAX ==> final(self).next_id == old(self).next_id + 1,
    {
        let v = self.temp(label);
        let parts = vec!["  %", v.as_str(), " = load ", t, ", ptr %", out, "\n"];
        proof {
            crate::text::lemma_concat_all_seven(parts@);
        }
        self.put(parts);
        v
    }

    /// The errorable result of a host call from its status and, for a
    /// call that yields a value, the register holding it.
    fn emit_host_result(&mut self, signature: &Signature, status: &str, v: Option<&str>) -> (r: Result<
        Value,
        CodegenError,
    >)
        ensures
            final(self).g.info == old(self).g.info,
            r matches Ok(v) ==> v.type_@ == "!"@ + signature.return_type@,
    {
        let status_reg = concat("%", status);
        match v {
            Some(v) => {
                let value_reg = concat("%", v);
                self.emit_host_status_result(
                    signature.full_name.as_str(),
                    signature.return_type.as_str(),
                    status_reg.as_str(),
                    Some(value_reg.as_str()),
                )
            },
            None => self.emit_host_status_result(
                signature.full_name.as_str(),
                signature.return_type.as_str(),
                status_reg.as_str(),
                None,
            ),
        }
    }

    /// A host call writing a string into an out slot: the string result, or
    /// the host error.
    fn emit_str_out_host_call(&mut self, signature: &Signature, prefix: &str, runtime_name: &str, input: &str) -> (r:
        Result<Value, CodegenError>)
        ensures
            final(self).g.info == old(self).g.info,
            r matches Ok(v) ==> v.type_@ == "!"@ + signature.return_type@,
    {
        let out = self.emit_out_slot(prefix, "%yar.str", "zeroinitializer");
        let call_args = cat(vec![input, ", ptr %", out.as_str()]);
        let status = self.emit_status_call(prefix, runtime_name, call_args.as_str());
        let v = self.emit_load_out(concat(prefix, ".value").as_str(), "%yar.str", out.as_str());
        self.emit_host_result(signature, status.as_str(), Some(v.as_str()))
    }

    /// Lowers a call of a host intrinsic, by its qualified name, to its
    /// runtime helper; the arguments are already lowered at the parameter types.
    pub fn emit_host_intrinsic_call(&mut self, signature: &Signature, args: Vec<Value>) -> (r: Result<
        Value,
        CodegenError,
    >)
        ensures
            final(self).g.info == old(self).g.info,
            r is Ok ==> status_host_intrinsic(signature.full_name@) || signature.full_name@
                == "process.args"@ || signature.full_name@ == "stdio.eprint"@,
            r matches Ok(v) ==> v.type_@ == "!"@ + signature.return_type@ || signature.full_name@
                == "process.args"@ || signature.full_name@ == "stdio.eprint"@,
            signature.full_name@ == "process.args"@ ==> (r matches Ok(v) && v.type_@ == signature.return_type@),
            signature.full_name@ == "stdio.eprint"@ ==> (r is Ok <==> args@.len() >= 1),
            signature.full_name@ == "stdio.eprint"@ && args@.len() >= 1 && old(self).next_id + 1 < usize::MAX
                ==> (r matches Ok(v) && v.type_@ == "void"@ && final(self).body@ == old(self).body@ + "  %"@
                + eprint_ptr(old(self).next_id) + " = extractvalue %yar.str "@ + args@[0].repr@ + ", 0\n"@
                + "  %"@ + eprint_len(old(self).next_id) + " = extractvalue %yar.str "@ + args@[0].repr@
                + ", 1\n"@ + "  call void @yar_eprint(ptr %"@ + eprint_ptr(old(self).next_id) + ", i64 %"@
                + eprint_len(old(self).next_id) + ")\n"@),
    {
        proof {
            reveal_strlit("fs.read_file");
            reveal_strlit("fs.write_file");
            reveal_strlit("fs.read_dir");
            reveal_strlit("fs.stat");
            reveal_strlit("fs.mkdir_all");
            reveal_strlit("fs.remove_all");
            reveal_strlit("fs.temp_dir");
            reveal_strlit("fs.open_read_handle");
            reveal_strlit("fs.open_write_handle");
            reveal_strlit("fs.read_handle");
            reveal_strlit("fs.write_handle");
            reveal_strlit("fs.close_handle");
            reveal_strlit("process.args");
            reveal_strlit("process.run");
            reveal_strlit("process.run_inherit");
            reveal_strlit("env.lookup");
            reveal_strlit("stdio.eprint");
            assert("process.args"@[0] == 'p' && "stdio.eprint"@[0] == 's' && "env.lookup"@[0] == 'e');
            assert("process.args"@[8] == 'a' && "process.run"@[8] == 'r' && "process.run_inherit"@[8] == 'r');
            assert("fs.read_file"@[0] == 'f' && "fs.write_file"@[0] == 'f' && "fs.read_dir"@[0] == 'f' && "fs.stat"@[0]
                == 'f' && "fs.mkdir_all"@[0] == 'f' && "fs.remove_all"@[0] == 'f' && "fs.temp_dir"@[0] == 'f'
                && "fs.open_read_handle"@[0] == 'f' && "fs.open_write_handle"@[0] == 'f' && "fs.read_handle"@[0] == 'f'
                && "fs.write_handle"@[0] == 'f' && "fs.close_handle"@[0] == 'f');
        }
        let name = signature.full_name.as_str();
        if str_eq(name, "fs.read_file") {
            let path = self.emit_str_abi_input("fs.read_file.path", &Self::host_arg(&args, 0)?);
            self.emit_str_out_host_call(signature, "fs.read_file", "yar_fs_read_file", concat("ptr ", path.as_str()).as_str())
        } else if str_eq(name, "fs.write_file") {
            let path = self.emit_str_abi_input("fs.write_file.path", &Self::host_arg(&args, 0)?);
            let data = self.emit_str_abi_input("fs.write_file.data", &Self::host_arg(&args, 1)?);
            let call_args = cat(vec!["ptr ", path.as_str(), ", ptr ", data.as_str()]);
            let status = self.emit_status_call("fs.write_file", "yar_fs_write_file", call_args.as_str());
            self.emit_host_result(signature, status.as_str(), None)
        } else if str_eq(name, "fs.read_dir") {
            let path = self.emit_str_abi_input("fs.read_dir.path", &Self::host_arg(&args, 0)?);
            let out = self.emit_out_slot("fs.read_dir", "%yar.slice", "zeroinitializer");
            let call_args = cat(vec!["ptr ", path.as_str(), ", ptr %", out.as_str()]);
            let status = self.emit_status_call("fs.read_dir", "yar_fs_read_dir", call_args.as_str());
            let v = self.emit_load_out("fs.read_dir.value", "%yar.slice", out.as_str());
            self.emit_host_result(signature, status.as_str(), Some(v.as_str()))
        } else if str_eq(name, "fs.stat") {
            let path = self.emit_str_abi_input("fs.stat.path", &Self::host_arg(&args, 0)?);
            let out = self.emit_out_slot("fs.stat", "i32", "0");
            let call_args = cat(vec!["ptr ", path.as_str(), ", ptr %", out.as_str()]);
            let status = self.emit_status_call("fs.stat", "yar_fs_stat", call_args.as_str());
            let tag = self.emit_load_out("fs.stat.tag", "i32", out.as_str());
            let v = self.emit_enum_tag_value(signature.return_type.as_str(), concat("%", tag.as_str()).as_str())?;
            self.emit_host_status_result(
                name,
                signature.return_type.as_str(),
                concat("%", status.as_str()).as_str(),
                Some(v.repr.as_str()),
            )
        } else if str_eq(name, "fs.mkdir_all") || str_eq(name, "fs.remove_all") {
            let (prefix, runtime_name) = if str_eq(name, "fs.mkdir_all") {
                ("fs.mkdir_all", "yar_fs_mkdir_all")
            } else {
                ("fs.remove_all", "yar_fs_remove_all")
            };
            let path = self.emit_str_abi_input(concat(prefix, ".path").as_str(), &Self::host_arg(&args, 0)?);
            let status = self.emit_status_call(prefix, runtime_name, concat("ptr ", path.as_str()).as_str());
            self.emit_host_result(signature, status.as_str(), None)
        } else if str_eq(name, "fs.temp_dir") {
            let prefix = self.emit_str_abi_input("fs.temp_dir.prefix", &Self::host_arg(&args, 0)?);
            self.emit_str_out_host_call(signature, "fs.temp_dir", "yar_fs_temp_dir", concat("ptr ", prefix.as_str()).as_str())
        } else if str_eq(name, "fs.open_read_handle") {
            self.emit_fs_i64_out_call(signature, "fs.open_read_handle", "yar_fs_open_read", &args)
        } else if str_eq(name, "fs.open_write_handle") {
            self.emit_fs_i64_out_call(signature, "fs.open_write_handle", "yar_fs_open_write", &args)
        } else if str_eq(name, "fs.read_handle") {
            let handle = Self::host_arg(&args, 0)?;
            let max = Self::host_arg(&args, 1)?;
            let out = self.emit_out_slot("fs.read_handle", "%yar.str", "zeroinitializer");
            let call_args = cat(vec!["i64 ", handle.repr.as_str(), ", i32 ", max.repr.as_str(), ", ptr %", out.as_str()]);
            let status = self.emit_status_call("fs.read_handle", "yar_fs_read_handle", call_args.as_str());
            let v = self.emit_load_out("fs.read_handle.value", "%yar.str", out.as_str());
            self.emit_host_result(signature, status.as_str(), Some(v.as_str()))
        } else if str_eq(name, "fs.write_handle") {
            let handle = Self::host_arg(&args, 0)?;
            let data = self.emit_str_abi_input("fs.write_handle.data", &Self::host_arg(&args, 1)?);
            let out = self.emit_out_slot("fs.write_handle", "i32", "0");
            let call_args = cat(vec!["i64 ", handle.repr.as_str(), ", ptr ", data.as_str(), ", ptr %", out.as_str()]);
            let status = self.emit_status_call("fs.write_handle", "yar_fs_write_handle", call_args.as_str());
            let v = self.emit_load_out("fs.write_handle.value", "i32", out.as_str());
            self.emit_host_result(signature, status.as_str(), Some(v.as_str()))
        } else if str_eq(name, "fs.close_handle") {
            let handle = Self::host_arg(&args, 0)?;
            let status = self.emit_status_call("fs.close_handle", "yar_fs_close_handle", concat("i64 ", handle.repr.as_str()).as_str());
            self.emit_host_result(signature, status.as_str(), None)
        } else if str_eq(name, "process.args") {
            let out = self.emit_out_slot("process.args", "%yar.slice", "zeroinitializer");
            self.put(vec!["  call void @yar_process_args(ptr %", out.as_str(), ")\n"]);
            let v = self.emit_load_out("process.args.value", "%yar.slice", out.as_str());
            Ok(Value { type_: signature.return_type.clone(), repr: concat("%", v.as_str()) })
        } else if str_eq(name, "process.run") {
            self.emit_process_run(signature, &args)
        } else if str_eq(name, "process.run_inherit") {
            self.emit_process_run_inherit(signature, &args)
        } else if str_eq(name, "env.lookup") {
            let env_name = self.emit_str_abi_input("env.lookup.name", &Self::host_arg(&args, 0)?);
            self.emit_str_out_host_call(signature, "env.lookup", "yar_env_lookup", concat("ptr ", env_name.as_str()).as_str())
        } else if str_eq(name, "stdio.eprint") {
            let s = Self::host_arg(&args, 0)?;
            let ptr = self.temp("eprint.ptr");
            let len = self.temp("eprint.len");
            let first = vec!["  %", ptr.as_str(), " = extractvalue %yar.str ", s.repr.as_str(), ", 0\n"];
            let second = vec!["  %", len.as_str(), " = extractvalue %yar.str ", s.repr.as_str(), ", 1\n"];
            let third = vec!["  call void @yar_eprint(ptr %", ptr.as_str(), ", i64 %", len.as_str(), ")\n"];
            proof {
                crate::text::lemma_concat_all_five(first@);
                crate::text::lemma_concat_all_five(second@);
                crate::text::lemma_concat_all_five(third@);
            }
            self.put(first);
            self.put(second);
            self.put(third);
            Ok(void_value())
        } else {
            self.emit_net_intrinsic_call(signature, &args)
        }
    }

    /// `process.run(argv, options, cancellation)`: runs a program, capturing its output.
    fn emit_process_run(&mut self, signature: &Signature, args: &Vec<Value>) -> (r: Result<Value, CodegenError>)
        ensures
            final(self).g.info == old(self).g.info,
            r matches Ok(v) ==> v.type_@ == "!"@ + signature.return_type@,
    {
        let argv_value = Self::host_arg(args, 0)?;
        let options = Self::host_arg(args, 1)?;
        let cancellation_value = Self::host_arg(args, 2)?;
        let argv = self.temp("process.run.argv");
        self.put(vec!["  %", argv.as_str(), " = alloca %yar.slice\n"]);
        self.put(vec!["  store %yar.slice ", argv_value.repr.as_str(), ", ptr %", argv.as_str(), "\n"]);
        let timeout = self.emit_struct_field_extract("process.run.timeout", &options, "timeout_milliseconds")?;
        let max_stdout = self.emit_struct_field_extract("process.run.max_stdout", &options, "max_stdout_bytes")?;
        let max_stderr = self.emit_struct_field_extract("process.run.max_stderr", &options, "max_stderr_bytes")?;
        let cancellation = self.emit_struct_field_extract("process.run.cancellation", &cancellation_value, "signal")?;
        let return_type = self.llvm_type(signature.return_type.as_str())?;
        let out = self.emit_out_slot("process.run", return_type.as_str(), "zeroinitializer");
        let call_args = cat(
            vec![
                "ptr %",
                argv.as_str(),
                ", i64 ",
                timeout.repr.as_str(),
                ", i64 ",
                max_stdout.repr.as_str(),
                ", i64 ",
                max_stderr.repr.as_str(),
                ", ptr ",
                cancellation.repr.as_str(),
                ", ptr %",
                out.as_str(),
            ],
        );
        let status = self.emit_status_call("process.run", "yar_process_run", call_args.as_str());
        let v = self.emit_load_out("process.run.value", return_type.as_str(), out.as_str());
        self.emit_host_result(signature, status.as_str(), Some(v.as_str()))
    }

    /// `process.run_inherit(argv, timeout, cancellation)`: runs a program on
    /// this process's streams, answering its exit code.
    fn emit_process_run_inherit(&mut self, signature: &Signature, args: &Vec<Value>) -> (r: Result<
        Value,
        CodegenError,
    >)
        ensures
            final(self).g.info == old(self).g.info,
            r matches Ok(v) ==> v.type_@ == "!"@ + signature.return_type@,
    {
        let argv_value = Self::host_arg(args, 0)?;
        let timeout = Self::host_arg(args, 1)?;
        let cancellation_value = Self::host_arg(args, 2)?;
        let argv = self.temp("process.run_inherit.argv");
        self.put(vec!["  %", argv.as_str(), " = alloca %yar.slice\n"]);
        self.put(vec!["  store %yar.slice ", argv_value.repr.as_str(), ", ptr %", argv.as_str(), "\n"]);
        let out = self.emit_out_slot("process.run_inherit", "i32", "0");
        let status = self.temp("process.run_inherit.status");
        let cancellation = self.emit_struct_field_extract(
            "process.run_inherit.cancellation",
            &cancellation_value,
            "signal",
        )?;
        self.put(
            vec![
                "  %",
                status.as_str(),
                " = call i32 @yar_process_run_inherit(ptr %",
                argv.as_str(),
                ", i64 ",
                timeout.repr.as_str(),
                ", ptr ",
                cancellation.repr.as_str(),
                ", ptr %",
                out.as_str(),
                ")\n",
            ],
        );
        let v = self.emit_load_out("process.run_inherit.value", "i32", out.as_str());
        self.emit_host_result(signature, status.as_str(), Some(v.as_str()))
    }

    /// The `net` intrinsics; any other name is not a host intrinsic.
    fn emit_net_intrinsic_call(&mut self, signature: &Signature, args: &Vec<Value>) -> (r: Result<
        Value,
        CodegenError,
    >)
        ensures
            final(self).g.info == old(self).g.info,
            r matches Ok(v) ==> v.type_@ == "!"@ + signature.return_type@,
            r is Ok ==> net_intrinsic(signature.full_name@),
    {
        let name = signature.full_name.as_str();
        if str_eq(name, "net.listen") || str_eq(name, "net.connect") {
            let (prefix, runtime_name) = if str_eq(name, "net.listen") {
                ("net.listen", "yar_net_listen")
            } else {
                ("net.connect", "yar_net_connect")
            };
            let host = self.emit_str_abi_input(concat(prefix, ".host").as_str(), &Self::host_arg(args, 0)?);
            let port = Self::host_arg(args, 1)?;
            let call_args = cat(vec!["ptr ", host.as_str(), ", i32 ", port.repr.as_str()]);
            self.emit_host_out_call(signature, prefix, "i64", runtime_name, call_args.as_str())
        } else if str_eq(name, "net.accept") {
            let a = Self::host_arg(args, 0)?;
            self.emit_host_out_call(signature, "net.accept", "i64", "yar_net_accept", concat("i64 ", a.repr.as_str()).as_str())
        } else if str_eq(name, "net.listener_addr") || str_eq(name, "net.local_addr") || str_eq(name, "net.remote_addr") {
            let runtime_name = if str_eq(name, "net.listener_addr") {
                "yar_net_listener_addr"
            } else if str_eq(name, "net.local_addr") {
                "yar_net_local_addr"
            } else {
                "yar_net_remote_addr"
            };
            let out_type = self.llvm_type(signature.return_type.as_str())?;
            let a = Self::host_arg(args, 0)?;
            self.emit_host_out_call(signature, name, out_type.as_str(), runtime_name, concat("i64 ", a.repr.as_str()).as_str())
        } else if str_eq(name, "net.close_listener") || str_eq(name, "net.close") {
            let runtime_name = if str_eq(name, "net.close") {
                "yar_net_close"
            } else {
                "yar_net_close_listener"
            };
            let a = Self::host_arg(args, 0)?;
            self.emit_host_status_call(signature, name, runtime_name, concat("i64 ", a.repr.as_str()).as_str())
        } else if str_eq(name, "net.read") {
            let a = Self::host_arg(args, 0)?;
            let b = Self::host_arg(args, 1)?;
            let call_args = cat(vec!["i64 ", a.repr.as_str(), ", i32 ", b.repr.as_str()]);
            self.emit_host_out_call(signature, "net.read", "%yar.str", "yar_net_read", call_args.as_str())
        } else if str_eq(name, "net.write") {
            let a = Self::host_arg(args, 0)?;
            let data = self.emit_str_abi_input("net.write.data", &Self::host_arg(args, 1)?);
            let call_args = cat(vec!["i64 ", a.repr.as_str(), ", ptr ", data.as_str()]);
            self.emit_host_out_call(signature, "net.write", "i32", "yar_net_write", call_args.as_str())
        } else if str_eq(name, "net.set_read_deadline") || str_eq(name, "net.set_write_deadline") {
            let runtime_name = if str_eq(name, "net.set_read_deadline") {
                "yar_net_set_read_deadline"
            } else {
                "yar_net_set_write_deadline"
            };
            let a = Self::host_arg(args, 0)?;
            let b = Self::host_arg(args, 1)?;
            let call_args = cat(vec!["i64 ", a.repr.as_str(), ", i32 ", b.repr.as_str()]);
            self.emit_host_status_call(signature, name, runtime_name, call_args.as_str())
        } else if str_eq(name, "net.resolve") {
            let host = self.emit_str_abi_input("net.resolve.host", &Self::host_arg(args, 0)?);
            let out_type = self.llvm_type(signature.return_type.as_str())?;
            let b = Self::host_arg(args, 1)?;
            let call_args = cat(vec!["ptr ", host.as_str(), ", i32 ", b.repr.as_str()]);
            self.emit_host_out_call(signature, "net.resolve", out_type.as_str(), "yar_net_resolve", call_args.as_str())
        } else {
            Err(CodegenError::unsupported(concat("host intrinsic ", quote(name).as_str()).as_str()))
        }
    }

    /// A host call with its value written to a zeroed out slot of `out_type`.
    fn emit_host_out_call(
        &mut self,
        signature: &Signature,
        temp_prefix: &str,
        out_type: &str,
        runtime_name: &str,
        call_args: &str,
    ) -> (r: Result<Value, CodegenError>)
        ensures
            final(self).g.info == old(self).g.info,
            r matches Ok(v) ==> v.type_@ == "!"@ + signature.return_type@,
    {
        let out = self.emit_out_slot(temp_prefix, out_type, "zeroinitializer");
        let all_args = cat(vec![call_args, ", ptr %", out.as_str()]);
        let status = self.emit_status_call(temp_prefix, runtime_name, all_args.as_str());
        let v = self.emit_load_out(concat(temp_prefix, ".value").as_str(), out_type, out.as_str());
        self.emit_host_result(signature, status.as_str(), Some(v.as_str()))
    }

    /// A host call that yields only a status.
    fn emit_host_status_call(
        &mut self,
        signature: &Signature,
        temp_prefix: &str,
        runtime_name: &str,
        call_args: &str,
    ) -> (r: Result<Value, CodegenError>)
        ensures
            final(self).g.info == old(self).g.info,
            r matches Ok(v) ==> v.type_@ == "!"@ + signature.return_type@,
    {
        let status = self.emit_status_call(temp_prefix, runtime_name, call_args);
        self.emit_host_result(signature, status.as_str(), None)
    }

    /// A string argument passed to the runtime by the address of a stack copy.
    pub fn emit_str_abi_input(&mut self, temp_prefix: &str, v: &Value) -> (s: String)
        ensures
            final(self).g.info == old(self).g.info,
            s@ == "%"@ + temp_prefix@ + "."@ + crate::text::decimal(old(self).next_id as nat),
            final(self).body@ == old(self).body@ + "  "@ + s@ + " = alloca %yar.str\n"@ + "  store %yar.str "@
                + v.repr@ + ", ptr "@ + s@ + "\n"@,
            final(self).g == old(self).g,
    {
        let slot = self.temp(temp_prefix);
        let first = vec!["  %", slot.as_str(), " = alloca %yar.str\n"];
        let second = vec!["  store %yar.str ", v.repr.as_str(), ", ptr %", slot.as_str(), "\n"];
        proof {
            crate::text::lemma_concat_all_triple(first@);
            crate::text::lemma_concat_all_five(second@);
            reveal_strlit("  %");
            reveal_strlit("  ");
            reveal_strlit("%");
            reveal_strlit(", ptr %");
            reveal_strlit(", ptr ");
        }
        self.put(first);
        self.put(second);
        let s = concat("%", slot.as_str());
        assert("  %"@ =~= "  "@ + "%"@);
        assert(", ptr %"@ =~= ", ptr "@ + "%"@);
        assert(self.body@ =~= old(self).body@ + "  "@ + s@ + " = alloca %yar.str\n"@ + "  store %yar.str "@
            + v.repr@ + ", ptr "@ + s@ + "\n"@);
        s
    }

    /// A file-opening host call: a path in, an `i64` handle out.
    fn emit_fs_i64_out_call(&mut self, signature: &Signature, temp_prefix: &str, runtime_name: &str, args: &Vec<Value>) -> (r:
        Result<Value, CodegenError>)
        ensures
            final(self).g.info == old(self).g.info,
            r matches Ok(v) ==> v.type_@ == "!"@ + signature.return_type@,
    {
        let path = self.emit_str_abi_input(concat(temp_prefix, ".path").as_str(), &Self::host_arg(args, 0)?);
        let out = self.emit_out_slot(temp_prefix, "i64", "0");
        let call_args = cat(vec!["ptr ", path.as_str(), ", ptr %", out.as_str()]);
        let status = self.emit_status_call(temp_prefix, runtime_name, call_args.as_str());
        let v = self.emit_load_out(concat(temp_prefix, ".value").as_str(), "i64", out.as_str());
        self.emit_host_result(signature, status.as_str(), Some(v.as_str()))
    }
}

/// The register that holds the data pointer of an `stdio.eprint` argument.
pub open spec fn eprint_ptr(id: usize) -> Seq<char> {
    "eprint.ptr"@ + "."@ + crate::text::decimal(id as nat)
}

/// The register that holds the length of an `stdio.eprint` argument.
pub open spec fn eprint_len(id: usize) -> Seq<char> {
    "eprint.len"@ + "."@ + crate::text::decimal((id + 1) as nat)
}

} // verus!
