//! The type checker: declarations, function bodies and the program metadata
//! that code generation reads.
use vstd::prelude::*;

pub mod body;
pub mod calls;
pub mod types;

use crate::ast::{EnumDecl, FunctionDecl, InterfaceDecl, Program, StructDecl, TypeRef, TypeRefKind};
use crate::diag::{extends, Diagnostic, DiagnosticView, List};
use crate::names::{NameMap, NameSet};
use crate::text::{cat, concat, concat3, debug_quoted, i64_decimal, name_views, names_sorted, owned, quote, starts_with, str_eq};
use crate::token::Position;
use self::types::{
    diagnostic_type_name, enum_payload_type_name, function_signature_key, is_builtin_type,
    is_env_host_intrinsic, is_fs_host_intrinsic, is_map_key_type, is_net_host_intrinsic,
    is_process_host_intrinsic, is_valueless, method_full_name, method_receiver_base_type,
    package_for_function, package_for_method_receiver, receiver_base,
};

verus! {

/// The type of an expression: its base type and whether it may carry an error.
#[derive(Clone, Debug, PartialEq, Eq)]
pub struct ExprType {
    pub base: String,
    pub errorable: bool,
}

impl ExprType {
    /// The type of an expression that failed to check.
    pub fn invalid() -> (t: ExprType)
        ensures
            t.base@ == Seq::<char>::empty(),
            !t.errorable,
    {
        ExprType { base: String::new(), errorable: false }
    }

    /// A plain (non-errorable) type.
    pub fn plain(base: String) -> (t: ExprType)
        ensures
            t.base@ == base@,
            !t.errorable,
    {
        ExprType { base, errorable: false }
    }

    /// A plain type spelled by a string slice.
    pub fn plain_str(base: &str) -> (t: ExprType)
        ensures
            t.base@ == base@,
            !t.errorable,
    {
        ExprType { base: owned(base), errorable: false }
    }
}

/// The signature of a function, method or function value.
#[derive(Clone, Debug, PartialEq, Eq)]
pub struct Signature {
    pub name: String,
    pub package: String,
    pub full_name: String,
    pub method: bool,
    pub receiver: String,
    pub params: Vec<String>,
    pub return_type: String,
    pub errorable: bool,
    pub builtin: bool,
    pub host_intrinsic: bool,
    pub exported: bool,
}

/// Whether two signatures agree field for field.
pub open spec fn same_signature(a: Signature, b: Signature) -> bool {
    &&& a.name == b.name
    &&& a.package == b.package
    &&& a.full_name == b.full_name
    &&& a.method == b.method
    &&& a.receiver == b.receiver
    &&& a.params@ == b.params@
    &&& a.return_type == b.return_type
    &&& a.errorable == b.errorable
    &&& a.builtin == b.builtin
    &&& a.host_intrinsic == b.host_intrinsic
    &&& a.exported == b.exported
}

impl Signature {
    /// A copy of the signature, field for field.
    pub fn duplicate(&self) -> (r: Signature)
        ensures
            same_signature(r, *self),
    {
        let mut params: Vec<String> = Vec::new();
        let mut i: usize = 0;
        while i < self.params.len()
            invariant
                i <= self.params@.len(),
                params@ == self.params@.subrange(0, i as int),
            decreases self.params.len() - i,
        {
            params.push(self.params[i].clone());
            i = i + 1;
        }
        assert(params@ =~= self.params@);
        Signature {
            name: self.name.clone(),
            package: self.package.clone(),
            full_name: self.full_name.clone(),
            method: self.method,
            receiver: self.receiver.clone(),
            params,
            return_type: self.return_type.clone(),
            errorable: self.errorable,
            builtin: self.builtin,
            host_intrinsic: self.host_intrinsic,
            exported: self.exported,
        }
    }
}

/// Whether `methods` records methods of `decl`: each has the name, errorability
/// and number of parameters of a declared method, and no name is recorded twice.
pub open spec fn methods_declared(decl: InterfaceDecl, methods: Seq<InterfaceMethodInfo>) -> bool {
    &&& forall|c: int|
        0 <= c < methods.len() ==> exists|j: int|
            0 <= j < decl.methods@.len() && #[trigger] decl.methods@[j].name@ == (#[trigger] methods[c]).name@
                && decl.methods@[j].return_is_bang == methods[c].errorable
                && decl.methods@[j].params@.len() == methods[c].params@.len()
    &&& forall|a: int, b: int|
        0 <= a < b < methods.len() ==> (#[trigger] methods[a]).name@ != (#[trigger] methods[b]).name@
}

/// Whether `info` is what the declaration `decl` records under `name`.
pub open spec fn interface_recorded(decl: InterfaceDecl, name: Seq<char>, info: InterfaceInfo) -> bool {
    &&& decl.name@ == name
    &&& info.name@ == name
    &&& info.exported == decl.exported
    &&& methods_declared(decl, info.methods@)
}

/// Whether some declaration among `decls` records `info` under `name`.
pub open spec fn interface_recorded_from(decls: Seq<InterfaceDecl>, name: Seq<char>, info: InterfaceInfo) -> bool {
    exists|i: int| 0 <= i < decls.len() && interface_recorded(#[trigger] decls[i], name, info)
}

proof fn lemma_interface_recorded_from_grows(decls: Seq<InterfaceDecl>, k: int)
    requires
        0 <= k < decls.len(),
    ensures
        forall|n: Seq<char>, info: InterfaceInfo|
            interface_recorded_from(decls.subrange(0, k), n, info) ==> #[trigger] interface_recorded_from(
                decls.subrange(0, k + 1),
                n,
                info,
            ),
{
    assert forall|n: Seq<char>, info: InterfaceInfo|
        interface_recorded_from(decls.subrange(0, k), n, info) implies #[trigger] interface_recorded_from(
        decls.subrange(0, k + 1),
        n,
        info,
    ) by {
        let i = choose|i: int| 0 <= i < k && interface_recorded(#[trigger] decls.subrange(0, k)[i], n, info);
        assert(decls.subrange(0, k + 1)[i] == decls.subrange(0, k)[i]);
    }
}

/// Whether `fields` records fields of `decl`: each has the name and export of
/// a declared field, and no name is recorded twice.
pub open spec fn fields_declared(decl: StructDecl, fields: Seq<StructField>) -> bool {
    &&& forall|c: int|
        0 <= c < fields.len() ==> exists|j: int|
            0 <= j < decl.fields@.len() && #[trigger] decl.fields@[j].name@ == (#[trigger] fields[c]).name@
                && decl.fields@[j].exported == fields[c].exported
    &&& forall|a: int, b: int|
        0 <= a < b < fields.len() ==> (#[trigger] fields[a]).name@ != (#[trigger] fields[b]).name@
}

/// Whether `info` is what the non-generic declaration `decl` records under `name`.
pub open spec fn struct_recorded(decl: StructDecl, name: Seq<char>, info: StructInfo) -> bool {
    &&& decl.name@ == name
    &&& decl.type_params@.len() == 0
    &&& info.name@ == name
    &&& info.exported == decl.exported
    &&& info.resource == decl.resource
    &&& fields_declared(decl, info.fields@)
}

/// Whether some declaration among `decls` records `info` under `name`.
pub open spec fn struct_recorded_from(decls: Seq<StructDecl>, name: Seq<char>, info: StructInfo) -> bool {
    exists|i: int| 0 <= i < decls.len() && struct_recorded(#[trigger] decls[i], name, info)
}

/// Whether `fields` lists the first `n` fields of `decl` in order, by name,
/// export and the spelling of the declared type.
pub open spec fn fields_match(decl: StructDecl, fields: Seq<StructField>, n: int) -> bool {
    &&& fields.len() == n
    &&& n <= decl.fields@.len()
    &&& forall|c: int|
        0 <= c < n ==> (#[trigger] fields[c]).name@ == decl.fields@[c].name@ && fields[c].exported
            == decl.fields@[c].exported && fields[c].type_@ == type_spelling(decl.fields@[c].type_ref)
}

/// Whether some declaration among `decls` records `info` under `name` with all
/// of its fields, in order.
pub open spec fn struct_recorded_exactly(decls: Seq<StructDecl>, name: Seq<char>, info: StructInfo) -> bool {
    exists|i: int|
        0 <= i < decls.len() && struct_recorded(#[trigger] decls[i], name, info) && fields_match(
            decls[i],
            info.fields@,
            decls[i].fields@.len() as int,
        )
}

proof fn lemma_struct_recorded_exactly_grows(decls: Seq<StructDecl>, k: int)
    requires
        0 <= k < decls.len(),
    ensures
        forall|n: Seq<char>, info: StructInfo|
            struct_recorded_exactly(decls.subrange(0, k), n, info) ==> #[trigger] struct_recorded_exactly(
                decls.subrange(0, k + 1),
                n,
                info,
            ),
{
    assert forall|n: Seq<char>, info: StructInfo|
        struct_recorded_exactly(decls.subrange(0, k), n, info) implies #[trigger] struct_recorded_exactly(
        decls.subrange(0, k + 1),
        n,
        info,
    ) by {
        let i = choose|i: int|
            0 <= i < k && struct_recorded(#[trigger] decls.subrange(0, k)[i], n, info) && fields_match(
                decls.subrange(0, k)[i],
                info.fields@,
                decls.subrange(0, k)[i].fields@.len() as int,
            );
        assert(decls.subrange(0, k + 1)[i] == decls.subrange(0, k)[i]);
    }
}

/// Whether `methods` lists the first `n` methods of `decl` in order, by name,
/// errorability and the spellings of the declared types.
pub open spec fn methods_match(decl: InterfaceDecl, methods: Seq<InterfaceMethodInfo>, n: int) -> bool {
    &&& methods.len() == n
    &&& n <= decl.methods@.len()
    &&& forall|c: int|
        0 <= c < n ==> {
            let m = #[trigger] methods[c];
            let dm = decl.methods@[c];
            &&& m.name@ == dm.name@
            &&& m.errorable == dm.return_is_bang
            &&& m.return_type@ == type_spelling(dm.return_type)
            &&& m.params@.len() == dm.params@.len()
            &&& forall|q: int| 0 <= q < m.params@.len() ==> (#[trigger] m.params@[q])@ == type_spelling(dm.params@[q].type_ref)
        }
}

/// Whether some declaration among `decls` records `info` under `name` with all
/// of its methods, in order.
pub open spec fn interface_recorded_exactly(decls: Seq<InterfaceDecl>, name: Seq<char>, info: InterfaceInfo) -> bool {
    exists|i: int|
        0 <= i < decls.len() && interface_recorded(#[trigger] decls[i], name, info) && methods_match(
            decls[i],
            info.methods@,
            decls[i].methods@.len() as int,
        )
}

proof fn lemma_interface_recorded_exactly_grows(decls: Seq<InterfaceDecl>, k: int)
    requires
        0 <= k < decls.len(),
    ensures
        forall|n: Seq<char>, info: InterfaceInfo|
            interface_recorded_exactly(decls.subrange(0, k), n, info) ==> #[trigger] interface_recorded_exactly(
                decls.subrange(0, k + 1),
                n,
                info,
            ),
{
    assert forall|n: Seq<char>, info: InterfaceInfo|
        interface_recorded_exactly(decls.subrange(0, k), n, info) implies #[trigger] interface_recorded_exactly(
        decls.subrange(0, k + 1),
        n,
        info,
    ) by {
        let i = choose|i: int|
            0 <= i < k && interface_recorded(#[trigger] decls.subrange(0, k)[i], n, info) && methods_match(
                decls.subrange(0, k)[i],
                info.methods@,
                decls.subrange(0, k)[i].methods@.len() as int,
            );
        assert(decls.subrange(0, k + 1)[i] == decls.subrange(0, k)[i]);
    }
}

proof fn lemma_struct_recorded_from_grows(decls: Seq<StructDecl>, k: int)
    requires
        0 <= k < decls.len(),
    ensures
        forall|n: Seq<char>, info: StructInfo|
            struct_recorded_from(decls.subrange(0, k), n, info) ==> #[trigger] struct_recorded_from(
                decls.subrange(0, k + 1),
                n,
                info,
            ),
{
    assert forall|n: Seq<char>, info: StructInfo|
        struct_recorded_from(decls.subrange(0, k), n, info) implies #[trigger] struct_recorded_from(
        decls.subrange(0, k + 1),
        n,
        info,
    ) by {
        let i = choose|i: int| 0 <= i < k && struct_recorded(#[trigger] decls.subrange(0, k)[i], n, info);
        assert(decls.subrange(0, k + 1)[i] == decls.subrange(0, k)[i]);
    }
}

/// Whether `cases` records cases of `decl` by their declaration positions: each
/// tag is the position of a declared case of the same name, a case with fields
/// names its payload struct `Enum.Case`, the tags increase, and no name is
/// recorded twice.
pub open spec fn cases_tagged(decl: EnumDecl, cases: Seq<EnumCaseInfo>) -> bool {
    &&& forall|c: int|
        0 <= c < cases.len() ==> (#[trigger] cases[c]).tag < decl.cases@.len()
            && decl.cases@[cases[c].tag as int].name@ == cases[c].name@ && cases[c].payload_type@ == (
            if decl.cases@[cases[c].tag as int].fields@.len() > 0 {
                decl.name@ + "."@ + cases[c].name@
            } else {
                Seq::<char>::empty()
            })
    &&& forall|a: int, b: int|
        0 <= a < b < cases.len() ==> (#[trigger] cases[a]).tag < (#[trigger] cases[b]).tag
            && cases[a].name@ != cases[b].name@
}

/// Whether `info` is what the declaration `decl` records under `name`.
pub open spec fn enum_recorded(decl: EnumDecl, name: Seq<char>, info: EnumInfo) -> bool {
    &&& decl.name@ == name
    &&& info.name@ == name
    &&& cases_tagged(decl, info.cases@)
}

/// Whether some declaration among `decls` records `info` under `name`.
pub open spec fn enum_recorded_from(decls: Seq<EnumDecl>, name: Seq<char>, info: EnumInfo) -> bool {
    exists|i: int| 0 <= i < decls.len() && enum_recorded(#[trigger] decls[i], name, info)
}

proof fn lemma_enum_recorded_from_grows(decls: Seq<EnumDecl>, k: int)
    requires
        0 <= k < decls.len(),
    ensures
        forall|n: Seq<char>, info: EnumInfo|
            enum_recorded_from(decls.subrange(0, k), n, info) ==> #[trigger] enum_recorded_from(
                decls.subrange(0, k + 1),
                n,
                info,
            ),
{
    assert forall|n: Seq<char>, info: EnumInfo|
        enum_recorded_from(decls.subrange(0, k), n, info) implies #[trigger] enum_recorded_from(
        decls.subrange(0, k + 1),
        n,
        info,
    ) by {
        let i = choose|i: int| 0 <= i < k && enum_recorded(#[trigger] decls.subrange(0, k)[i], n, info);
        assert(decls.subrange(0, k + 1)[i] == decls.subrange(0, k)[i]);
    }
}

/// Whether `sig` is what the free function declaration `decl` registers under `name`.
pub open spec fn registers(decl: FunctionDecl, name: Seq<char>, sig: Signature) -> bool {
    &&& decl.receiver is None
    &&& decl.type_params@.len() == 0
    &&& decl.name@ == name
    &&& sig.name@ == name
    &&& sig.full_name@ == name
    &&& !sig.method
    &&& !sig.builtin
    &&& sig.errorable == decl.return_is_bang
    &&& sig.host_intrinsic == decl.host_intrinsic
    &&& sig.exported == decl.exported
    &&& sig.params@.len() == decl.params@.len()
}

/// Whether some declaration among `decls` registers `sig` under `name`.
pub open spec fn registered_from(decls: Seq<FunctionDecl>, name: Seq<char>, sig: Signature) -> bool {
    exists|i: int| 0 <= i < decls.len() && registers(#[trigger] decls[i], name, sig)
}

/// Whether a diagnostic position belongs to a function declaration: its name or
/// one of its parameters' names or types.
pub open spec fn at_declaration(decl: FunctionDecl, pos: crate::token::PositionView) -> bool {
    pos == decl.name_pos@ || exists|j: int|
        0 <= j < decl.params@.len() && (pos == (#[trigger] decl.params@[j]).type_ref.pos@ || pos
            == decl.params@[j].name_pos@)
}

/// Whether some diagnostic at or after index `lo` of `ds` is reported at `decl`.
pub open spec fn declaration_flagged(decl: FunctionDecl, lo: int, ds: Seq<DiagnosticView>) -> bool {
    exists|k: int| 0 <= k && lo <= k < ds.len() && at_declaration(decl, (#[trigger] ds[k]).pos)
}

proof fn lemma_flagged_at(decl: FunctionDecl, lo: int, ds: Seq<DiagnosticView>, k: int)
    requires
        0 <= k,
        lo <= k < ds.len(),
        at_declaration(decl, ds[k].pos),
    ensures
        declaration_flagged(decl, lo, ds),
{
}

proof fn lemma_flagged_kept(decl: FunctionDecl, lo: int, lo2: int, ds: Seq<DiagnosticView>, ds2: Seq<DiagnosticView>)
    requires
        declaration_flagged(decl, lo2, ds),
        lo <= lo2,
        extends(ds, ds2),
    ensures
        declaration_flagged(decl, lo, ds2),
{
    let k = choose|k: int| 0 <= k && lo2 <= k < ds.len() && at_declaration(decl, (#[trigger] ds[k]).pos);
    assert(lo2 <= k < ds.len());
    assert(ds2[k] == ds[k]);
    assert(at_declaration(decl, ds2[k].pos));
}

proof fn lemma_free_functions_kept(
    decls: Seq<FunctionDecl>,
    upto: int,
    lo: int,
    ds: Seq<DiagnosticView>,
    ds2: Seq<DiagnosticView>,
    fs: Map<Seq<char>, Signature>,
    fs2: Map<Seq<char>, Signature>,
)
    requires
        forall|i: int|
            0 <= i < upto && decls[i].receiver is None ==> fs.contains_key(#[trigger] decls[i].name@)
                || declaration_flagged(decls[i], lo, ds),
        extends(ds, ds2),
        forall|n: Seq<char>| #[trigger] fs.contains_key(n) ==> fs2.contains_key(n),
    ensures
        forall|i: int|
            0 <= i < upto && decls[i].receiver is None ==> fs2.contains_key(#[trigger] decls[i].name@)
                || declaration_flagged(decls[i], lo, ds2),
{
    assert forall|i: int|
        0 <= i < upto && decls[i].receiver is None implies fs2.contains_key(#[trigger] decls[i].name@)
            || declaration_flagged(decls[i], lo, ds2) by {
        if !fs.contains_key(decls[i].name@) {
            lemma_flagged_kept(decls[i], lo, lo, ds, ds2);
        }
    }
}

/// Whether, when `stmt` is a `break` or a `continue`, some diagnostic at or after
/// index `lo` of `ds` says at its position that it can only be used inside a loop.
pub open spec fn loop_control_reported(stmt: crate::ast::Statement, lo: int, ds: Seq<DiagnosticView>) -> bool {
    match stmt {
        crate::ast::Statement::Break(b) => exists|k: int|
            0 <= k && lo <= k < ds.len() && #[trigger] ds[k] == (DiagnosticView {
                pos: b.break_pos@,
                message: "break"@ + " can only be used inside a loop"@,
            }),
        crate::ast::Statement::Continue(c) => exists|k: int|
            0 <= k && lo <= k < ds.len() && #[trigger] ds[k] == (DiagnosticView {
                pos: c.continue_pos@,
                message: "continue"@ + " can only be used inside a loop"@,
            }),
        _ => true,
    }
}

/// A reported loop control stays reported as diagnostics are added, and from
/// any earlier starting index.
pub(crate) proof fn lemma_loop_control_kept(
    stmt: crate::ast::Statement,
    lo: int,
    lo2: int,
    ds: Seq<DiagnosticView>,
    ds2: Seq<DiagnosticView>,
)
    requires
        loop_control_reported(stmt, lo2, ds),
        lo <= lo2,
        extends(ds, ds2),
    ensures
        loop_control_reported(stmt, lo, ds2),
{
    match stmt {
        crate::ast::Statement::Break(b) => {
            let k = choose|k: int|
                0 <= k && lo2 <= k < ds.len() && #[trigger] ds[k] == (DiagnosticView {
                    pos: b.break_pos@,
                    message: "break"@ + " can only be used inside a loop"@,
                });
            assert(ds2[k] == ds[k]);
        },
        crate::ast::Statement::Continue(c) => {
            let k = choose|k: int|
                0 <= k && lo2 <= k < ds.len() && #[trigger] ds[k] == (DiagnosticView {
                    pos: c.continue_pos@,
                    message: "continue"@ + " can only be used inside a loop"@,
                });
            assert(ds2[k] == ds[k]);
        },
        _ => {},
    }
}

/// Every statement of `stmts` below `upto` stays reported as diagnostics are added.
pub(crate) proof fn lemma_loop_controls_kept(
    stmts: Seq<crate::ast::Statement>,
    upto: int,
    lo: int,
    ds: Seq<DiagnosticView>,
    ds2: Seq<DiagnosticView>,
)
    requires
        forall|j: int| 0 <= j < upto ==> loop_control_reported(#[trigger] stmts[j], lo, ds),
        extends(ds, ds2),
    ensures
        forall|j: int| 0 <= j < upto ==> loop_control_reported(#[trigger] stmts[j], lo, ds2),
{
    assert forall|j: int| 0 <= j < upto implies loop_control_reported(#[trigger] stmts[j], lo, ds2) by {
        lemma_loop_control_kept(stmts[j], lo, lo, ds, ds2);
    }
}

/// Whether `sig` spells the declared result and parameter types of `decl`.
pub open spec fn signature_spelled(decl: FunctionDecl, sig: Signature) -> bool {
    &&& sig.return_type@ == type_spelling(decl.return_type)
    &&& sig.params@.len() == decl.params@.len()
    &&& forall|q: int| 0 <= q < sig.params@.len() ==> (#[trigger] sig.params@[q])@ == type_spelling(decl.params@[q].type_ref)
}

/// Whether some declaration among `decls` registers `sig` under `name`, with
/// its declared types spelled out.
pub open spec fn registered_exactly(decls: Seq<FunctionDecl>, name: Seq<char>, sig: Signature) -> bool {
    exists|i: int| 0 <= i < decls.len() && registers(#[trigger] decls[i], name, sig) && signature_spelled(decls[i], sig)
}

proof fn lemma_registered_exactly_grows(decls: Seq<FunctionDecl>, k: int)
    requires
        0 <= k < decls.len(),
    ensures
        forall|n: Seq<char>, sig: Signature|
            registered_exactly(decls.subrange(0, k), n, sig) ==> #[trigger] registered_exactly(
                decls.subrange(0, k + 1),
                n,
                sig,
            ),
{
    assert forall|n: Seq<char>, sig: Signature|
        registered_exactly(decls.subrange(0, k), n, sig) implies #[trigger] registered_exactly(
        decls.subrange(0, k + 1),
        n,
        sig,
    ) by {
        let i = choose|i: int|
            0 <= i < k && registers(#[trigger] decls.subrange(0, k)[i], n, sig) && signature_spelled(
                decls.subrange(0, k)[i],
                sig,
            );
        assert(decls.subrange(0, k + 1)[i] == decls.subrange(0, k)[i]);
    }
}

proof fn lemma_registered_from_grows(decls: Seq<FunctionDecl>, k: int)
    requires
        0 <= k < decls.len(),
    ensures
        forall|n: Seq<char>, sig: Signature|
            registered_from(decls.subrange(0, k), n, sig) ==> #[trigger] registered_from(
                decls.subrange(0, k + 1),
                n,
                sig,
            ),
{
    assert forall|n: Seq<char>, sig: Signature|
        registered_from(decls.subrange(0, k), n, sig) implies #[trigger] registered_from(
        decls.subrange(0, k + 1),
        n,
        sig,
    ) by {
        let i = choose|i: int| 0 <= i < k && registers(#[trigger] decls.subrange(0, k)[i], n, sig);
        assert(decls.subrange(0, k + 1)[i] == decls.subrange(0, k)[i]);
    }
}

/// A checked struct field.
#[derive(Clone, Debug, PartialEq, Eq)]
pub struct StructField {
    pub exported: bool,
    pub name: String,
    pub type_: String,
}

impl StructField {
    /// A copy of the field.
    pub fn duplicate(&self) -> (r: StructField)
        ensures
            r == *self,
    {
        StructField { exported: self.exported, name: self.name.clone(), type_: self.type_.clone() }
    }
}

/// A copy of each field, in order.
pub fn duplicate_fields(fields: &Vec<StructField>) -> (r: Vec<StructField>)
    ensures
        r@ == fields@,
{
    let mut r: Vec<StructField> = Vec::new();
    let mut i: usize = 0;
    while i < fields.len()
        invariant
            i <= fields@.len(),
            r@ == fields@.subrange(0, i as int),
        decreases fields.len() - i,
    {
        r.push(fields[i].duplicate());
        i = i + 1;
    }
    assert(r@ =~= fields@);
    r
}

/// A checked struct (or enum payload) type.
#[derive(Clone, Debug, PartialEq, Eq)]
pub struct StructInfo {
    pub name: String,
    pub exported: bool,
    pub resource: bool,
    pub fields: Vec<StructField>,
}

/// A checked interface method.
#[derive(Clone, Debug, PartialEq, Eq)]
pub struct InterfaceMethodInfo {
    pub name: String,
    pub params: Vec<String>,
    pub return_type: String,
    pub errorable: bool,
}

/// A checked interface.
#[derive(Clone, Debug, PartialEq, Eq)]
pub struct InterfaceInfo {
    pub name: String,
    pub exported: bool,
    pub methods: Vec<InterfaceMethodInfo>,
}

/// A checked enum case.
#[derive(Clone, Debug, PartialEq, Eq)]
pub struct EnumCaseInfo {
    pub name: String,
    pub tag: usize,
    pub payload_type: String,
    pub fields: Vec<StructField>,
}

/// Whether two enum cases agree field for field.
pub open spec fn same_enum_case(a: EnumCaseInfo, b: EnumCaseInfo) -> bool {
    &&& a.name == b.name
    &&& a.tag == b.tag
    &&& a.payload_type == b.payload_type
    &&& a.fields@ == b.fields@
}

impl EnumCaseInfo {
    /// A copy of the case, field for field.
    pub fn duplicate(&self) -> (r: EnumCaseInfo)
        ensures
            same_enum_case(r, *self),
    {
        EnumCaseInfo {
            name: self.name.clone(),
            tag: self.tag,
            payload_type: self.payload_type.clone(),
            fields: duplicate_fields(&self.fields),
        }
    }
}

/// A checked enum.
#[derive(Clone, Debug, PartialEq, Eq)]
pub struct EnumInfo {
    pub name: String,
    pub exported: bool,
    pub cases: Vec<EnumCaseInfo>,
}

/// A local captured by a function literal.
#[derive(Clone, Debug, PartialEq, Eq)]
pub struct CaptureInfo {
    pub name: String,
    pub type_: String,
}

/// A checked function literal: its signature and captures.
#[derive(Clone, Debug, PartialEq, Eq)]
pub struct FunctionLiteralInfo {
    pub signature: Signature,
    pub captures: Vec<CaptureInfo>,
}

/// What checking a program learns: every signature and type, and the error names
/// with their codes.
#[derive(Debug)]
pub struct Info {
    pub functions: NameMap<Signature>,
    pub function_literals: NameMap<FunctionLiteralInfo>,
    pub methods: NameMap<NameMap<Signature>>,
    pub structs: NameMap<StructInfo>,
    pub interfaces: NameMap<InterfaceInfo>,
    pub enums: NameMap<EnumInfo>,
    pub error_codes: NameMap<i32>,
    pub ordered_errors: Vec<String>,
    pub error_display_names: NameMap<String>,
}

impl Info {
    /// Empty metadata.
    pub fn new() -> (i: Info)
        ensures
            i.functions@ == Map::<Seq<char>, Signature>::empty(),
            i.structs@ == Map::<Seq<char>, StructInfo>::empty(),
            i.error_codes@ == Map::<Seq<char>, i32>::empty(),
            i.ordered_errors@.len() == 0,
            i.enums@ == Map::<Seq<char>, EnumInfo>::empty(),
            i.interfaces@ == Map::<Seq<char>, InterfaceInfo>::empty(),
    {
        Info {
            functions: NameMap::new(),
            function_literals: NameMap::new(),
            methods: NameMap::new(),
            structs: NameMap::new(),
            interfaces: NameMap::new(),
            enums: NameMap::new(),
            error_codes: NameMap::new(),
            ordered_errors: Vec::new(),
            error_display_names: NameMap::new(),
        }
    }
}

/// Checks a monomorphized program: declarations, `main`, and every function body.
/// Answers the program's metadata and the diagnostics, in the order found.
/// Without a recorded `main` the diagnostics say "missing main function", and
/// with a recorded `main` that does not return `i32` (or `!i32`) they say so.
/// A free function that is not recorded has a diagnostic at its name or at one
/// of its parameters; a `break` or `continue` that stands directly in the body
/// of a recorded free function is reported as outside any loop; without
/// diagnostics, each free function is recorded with the spellings of its
/// declared result and parameter types, each interface with all of its methods
/// in order, and each declared struct with all of its fields, in order, by name
/// and the spelling of the declared type.
pub fn check_program(program: &Program) -> (res: (Info, Vec<Diagnostic>))
    ensures
        error_table_numbered(res.0),
        forall|n: Seq<char>|
            #[trigger] res.0.enums@.contains_key(n) ==> enum_recorded_from(program.enums@, n, res.0.enums@[n]),
        forall|n: Seq<char>|
            #[trigger] res.0.interfaces@.contains_key(n) ==> interface_recorded_from(
                program.interfaces@,
                n,
                res.0.interfaces@[n],
            ),
        program.package_name@ != "main"@ ==> res.1@.len() > 0 && res.1@[0]@ == (DiagnosticView {
            pos: program.package_pos@,
            message: "package must be main"@,
        }),
        forall|i: int|
            0 <= i < program.enums@.len() ==> res.0.enums@.contains_key(#[trigger] program.enums@[i].name@),
        forall|i: int|
            0 <= i < program.interfaces@.len() ==> res.0.interfaces@.contains_key(
                #[trigger] program.interfaces@[i].name@,
            ),
        forall|i: int|
            0 <= i < program.structs@.len() && program.structs@[i].type_params@.len() == 0
                ==> res.0.structs@.contains_key(#[trigger] program.structs@[i].name@),
        res.1@.len() == 0 ==> forall|i: int|
            0 <= i < program.functions@.len() && program.functions@[i].receiver is None
                ==> res.0.functions@.contains_key(#[trigger] program.functions@[i].name@),
        !res.0.functions@.contains_key("main"@) ==> exists|k: int|
            0 <= k < res.1@.len() && #[trigger] res.1@[k]@ == (DiagnosticView {
                pos: program.package_pos@,
                message: "missing main function"@,
            }),
        res.0.functions@.contains_key("main"@) && res.0.functions@["main"@].return_type@ != "i32"@ ==> exists|k: int|
            0 <= k < res.1@.len() && #[trigger] res.1@[k]@ == (DiagnosticView {
                pos: program.package_pos@,
                message: "main must return i32 or !i32"@,
            }),
        res.1@.len() == 0 ==> forall|i: int|
            0 <= i < program.interfaces@.len() ==> interface_recorded_exactly(
                program.interfaces@,
                program.interfaces@[i].name@,
                res.0.interfaces@[#[trigger] program.interfaces@[i].name@],
            ),
        res.1@.len() == 0 ==> forall|i: int|
            0 <= i < program.functions@.len() && program.functions@[i].receiver is None ==> registered_exactly(
                program.functions@,
                program.functions@[i].name@,
                res.0.functions@[#[trigger] program.functions@[i].name@],
            ),
        res.1@.len() == 0 ==> forall|i: int|
            0 <= i < program.structs@.len() && program.structs@[i].type_params@.len() == 0 && !payload_struct_name(
                program.enums@,
                program.structs@[i].name@,
            ) ==> struct_recorded_exactly(
                program.structs@,
                program.structs@[i].name@,
                res.0.structs@[#[trigger] program.structs@[i].name@],
            ),
        (forall|i: int|
            0 <= i < program.functions@.len() ==> !(#[trigger] program.functions@[i].receiver is None
                && program.functions@[i].name@ == "main"@)) ==> exists|k: int|
            0 <= k < res.1@.len() && #[trigger] res.1@[k]@ == (DiagnosticView {
                pos: program.package_pos@,
                message: "missing main function"@,
            }),
        forall|i: int|
            0 <= i < program.functions@.len() && program.functions@[i].receiver is None
                ==> res.0.functions@.contains_key(#[trigger] program.functions@[i].name@)
                || declaration_flagged(program.functions@[i], 0, crate::diag::views(res.1@)),
    forall|i: int, j: int|
            0 <= i < program.functions@.len() && program.functions@[i].receiver is None
                && res.0.functions@.contains_key(program.functions@[i].name@) && 0 <= j
                < program.functions@[i].body.stmts@.len() ==> loop_control_reported(
                #[trigger] program.functions@[i].body.stmts@[j],
                0,
                crate::diag::views(res.1@),
            ),
{
    check_program_with_bodies(program, true)
}

/// Checks a program's declarations and `main` without checking function bodies.
pub fn check_program_metadata(program: &Program) -> (res: (Info, Vec<Diagnostic>))
    ensures
        error_table_numbered(res.0),
        forall|n: Seq<char>|
            #[trigger] res.0.enums@.contains_key(n) ==> enum_recorded_from(program.enums@, n, res.0.enums@[n]),
        forall|n: Seq<char>|
            #[trigger] res.0.interfaces@.contains_key(n) ==> interface_recorded_from(
                program.interfaces@,
                n,
                res.0.interfaces@[n],
            ),
        program.package_name@ != "main"@ ==> res.1@.len() > 0 && res.1@[0]@ == (DiagnosticView {
            pos: program.package_pos@,
            message: "package must be main"@,
        }),
        forall|i: int|
            0 <= i < program.enums@.len() ==> res.0.enums@.contains_key(#[trigger] program.enums@[i].name@),
        forall|i: int|
            0 <= i < program.interfaces@.len() ==> res.0.interfaces@.contains_key(
                #[trigger] program.interfaces@[i].name@,
            ),
        forall|i: int|
            0 <= i < program.structs@.len() && program.structs@[i].type_params@.len() == 0
                ==> res.0.structs@.contains_key(#[trigger] program.structs@[i].name@),
        res.1@.len() == 0 ==> forall|i: int|
            0 <= i < program.functions@.len() && program.functions@[i].receiver is None
                ==> res.0.functions@.contains_key(#[trigger] program.functions@[i].name@),
        !res.0.functions@.contains_key("main"@) ==> exists|k: int|
            0 <= k < res.1@.len() && #[trigger] res.1@[k]@ == (DiagnosticView {
                pos: program.package_pos@,
                message: "missing main function"@,
            }),
        res.0.functions@.contains_key("main"@) && res.0.functions@["main"@].return_type@ != "i32"@ ==> exists|k: int|
            0 <= k < res.1@.len() && #[trigger] res.1@[k]@ == (DiagnosticView {
                pos: program.package_pos@,
                message: "main must return i32 or !i32"@,
            }),
        res.1@.len() == 0 ==> forall|i: int|
            0 <= i < program.interfaces@.len() ==> interface_recorded_exactly(
                program.interfaces@,
                program.interfaces@[i].name@,
                res.0.interfaces@[#[trigger] program.interfaces@[i].name@],
            ),
        res.1@.len() == 0 ==> forall|i: int|
            0 <= i < program.functions@.len() && program.functions@[i].receiver is None ==> registered_exactly(
                program.functions@,
                program.functions@[i].name@,
                res.0.functions@[#[trigger] program.functions@[i].name@],
            ),
        res.1@.len() == 0 ==> forall|i: int|
            0 <= i < program.structs@.len() && program.structs@[i].type_params@.len() == 0 && !payload_struct_name(
                program.enums@,
                program.structs@[i].name@,
            ) ==> struct_recorded_exactly(
                program.structs@,
                program.structs@[i].name@,
                res.0.structs@[#[trigger] program.structs@[i].name@],
            ),
        (forall|i: int|
            0 <= i < program.functions@.len() ==> !(#[trigger] program.functions@[i].receiver is None
                && program.functions@[i].name@ == "main"@)) ==> exists|k: int|
            0 <= k < res.1@.len() && #[trigger] res.1@[k]@ == (DiagnosticView {
                pos: program.package_pos@,
                message: "missing main function"@,
            }),
        forall|i: int|
            0 <= i < program.functions@.len() && program.functions@[i].receiver is None
                ==> res.0.functions@.contains_key(#[trigger] program.functions@[i].name@)
                || declaration_flagged(program.functions@[i], 0, crate::diag::views(res.1@)),
{
    check_program_with_bodies(program, false)
}

/// A diagnostic among views is among the diagnostics they are the views of.
proof fn lemma_diagnostic_carried(items: Seq<Diagnostic>, ds: Seq<DiagnosticView>, target: DiagnosticView)
    requires
        items.len() == ds.len(),
        forall|k: int| 0 <= k < items.len() ==> #[trigger] items[k]@ == ds[k],
        exists|k: int| 0 <= k < ds.len() && #[trigger] ds[k] == target,
    ensures
        exists|k: int| 0 <= k < items.len() && #[trigger] items[k]@ == target,
{
    let k = choose|k: int| 0 <= k < ds.len() && #[trigger] ds[k] == target;
    assert(items[k]@ == target);
}

#[verifier::spinoff_prover]
#[verifier::rlimit(100)]
fn check_program_with_bodies(program: &Program, check_bodies: bool) -> (res: (
    Info,
    Vec<Diagnostic>,
))
    ensures
        error_table_numbered(res.0),
        forall|n: Seq<char>|
            #[trigger] res.0.enums@.contains_key(n) ==> enum_recorded_from(program.enums@, n, res.0.enums@[n]),
        forall|n: Seq<char>|
            #[trigger] res.0.interfaces@.contains_key(n) ==> interface_recorded_from(
                program.interfaces@,
                n,
                res.0.interfaces@[n],
            ),
        program.package_name@ != "main"@ ==> res.1@.len() > 0 && res.1@[0]@ == (DiagnosticView {
            pos: program.package_pos@,
            message: "package must be main"@,
        }),
        forall|i: int|
            0 <= i < program.enums@.len() ==> res.0.enums@.contains_key(#[trigger] program.enums@[i].name@),
        forall|i: int|
            0 <= i < program.interfaces@.len() ==> res.0.interfaces@.contains_key(
                #[trigger] program.interfaces@[i].name@,
            ),
        forall|i: int|
            0 <= i < program.structs@.len() && program.structs@[i].type_params@.len() == 0
                ==> res.0.structs@.contains_key(#[trigger] program.structs@[i].name@),
        res.1@.len() == 0 ==> forall|i: int|
            0 <= i < program.functions@.len() && program.functions@[i].receiver is None
                ==> res.0.functions@.contains_key(#[trigger] program.functions@[i].name@),
        !res.0.functions@.contains_key("main"@) ==> exists|k: int|
            0 <= k < res.1@.len() && #[trigger] res.1@[k]@ == (DiagnosticView {
                pos: program.package_pos@,
                message: "missing main function"@,
            }),
        res.0.functions@.contains_key("main"@) && res.0.functions@["main"@].return_type@ != "i32"@ ==> exists|k: int|
            0 <= k < res.1@.len() && #[trigger] res.1@[k]@ == (DiagnosticView {
                pos: program.package_pos@,
                message: "main must return i32 or !i32"@,
            }),
        res.1@.len() == 0 ==> forall|i: int|
            0 <= i < program.interfaces@.len() ==> interface_recorded_exactly(
                program.interfaces@,
                program.interfaces@[i].name@,
                res.0.interfaces@[#[trigger] program.interfaces@[i].name@],
            ),
        res.1@.len() == 0 ==> forall|i: int|
            0 <= i < program.functions@.len() && program.functions@[i].receiver is None ==> registered_exactly(
                program.functions@,
                program.functions@[i].name@,
                res.0.functions@[#[trigger] program.functions@[i].name@],
            ),
        res.1@.len() == 0 ==> forall|i: int|
            0 <= i < program.structs@.len() && program.structs@[i].type_params@.len() == 0 && !payload_struct_name(
                program.enums@,
                program.structs@[i].name@,
            ) ==> struct_recorded_exactly(
                program.structs@,
                program.structs@[i].name@,
                res.0.structs@[#[trigger] program.structs@[i].name@],
            ),
        (forall|i: int|
            0 <= i < program.functions@.len() ==> !(#[trigger] program.functions@[i].receiver is None
                && program.functions@[i].name@ == "main"@)) ==> exists|k: int|
            0 <= k < res.1@.len() && #[trigger] res.1@[k]@ == (DiagnosticView {
                pos: program.package_pos@,
                message: "missing main function"@,
            }),
        forall|i: int|
            0 <= i < program.functions@.len() && program.functions@[i].receiver is None
                ==> res.0.functions@.contains_key(#[trigger] program.functions@[i].name@)
                || declaration_flagged(program.functions@[i], 0, crate::diag::views(res.1@)),
    check_bodies ==> forall|i: int, j: int|
            0 <= i < program.functions@.len() && program.functions@[i].receiver is None
                && res.0.functions@.contains_key(program.functions@[i].name@) && 0 <= j
                < program.functions@[i].body.stmts@.len() ==> loop_control_reported(
                #[trigger] program.functions@[i].body.stmts@[j],
                0,
                crate::diag::views(res.1@),
            ),
{
    let mut checker = Checker::new();
    let ghost fresh = checker;
    proof {
        assert(forall|n: Seq<char>| #[trigger] fresh.functions@.contains_key(n) ==> builtin_name(n));
        assert(fresh.info.functions@ == Map::<Seq<char>, Signature>::empty());
        assert(fresh.diag@.len() == 0);
    }
    checker.check_program(program, check_bodies);
    let items = checker.diag.items();
    proof {
        assert forall|k: int| 0 <= k < items@.len() implies #[trigger] items@[k]@ == checker.diag@[k] by {
            assert(crate::diag::views(items@)[k] == items@[k]@);
        }
        assert(items@.len() == checker.diag@.len());
        let missing = DiagnosticView { pos: program.package_pos@, message: "missing main function"@ };
        let bad_main = DiagnosticView { pos: program.package_pos@, message: "main must return i32 or !i32"@ };
        assert((forall|i: int|
            0 <= i < program.functions@.len() ==> !(#[trigger] program.functions@[i].receiver is None
                && program.functions@[i].name@ == "main"@)) ==> exists|k: int|
            0 <= k < items@.len() && #[trigger] items@[k]@ == missing) by {
            if forall|i: int|
                0 <= i < program.functions@.len() ==> !(#[trigger] program.functions@[i].receiver is None
                    && program.functions@[i].name@ == "main"@) {
                lemma_diagnostic_carried(items@, checker.diag@, missing);
            }
        }
        assert(!checker.info.functions@.contains_key("main"@) ==> exists|k: int|
            0 <= k < items@.len() && #[trigger] items@[k]@ == missing) by {
            if !checker.info.functions@.contains_key("main"@) {
                lemma_diagnostic_carried(items@, checker.diag@, missing);
            }
        }
        assert(checker.info.functions@.contains_key("main"@) && checker.info.functions@["main"@].return_type@ != "i32"@
            ==> exists|k: int| 0 <= k < items@.len() && #[trigger] items@[k]@ == bad_main) by {
            if checker.info.functions@.contains_key("main"@) && checker.info.functions@["main"@].return_type@
                != "i32"@ {
                lemma_diagnostic_carried(items@, checker.diag@, bad_main);
            }
        }
        assert(crate::diag::views(items@) =~= checker.diag@);
    }
    (checker.info, items)
}

/// Whether the error table numbers the recorded errors 1, 2, ... in ascending
/// name order: `ordered_errors` holds each recorded error once, sorted, and
/// each error's code is its place in that order plus one.
pub open spec fn error_table_numbered(info: Info) -> bool {
    let ordered = info.ordered_errors@;
    &&& names_sorted(ordered)
    &&& name_views(ordered).no_duplicates()
    &&& forall|k: Seq<char>| info.error_codes@.contains_key(k) <==> name_views(ordered).contains(k)
    &&& forall|t: int|
        0 <= t < ordered.len() ==> #[trigger] info.error_codes@[ordered[t]@] == ((t + 1) as i32)
            && info.error_display_names@.contains_key(ordered[t]@)
            && info.error_display_names@[ordered[t]@]@ == ordered[t]@
}

/// Whether every named type in a type reference has a non-empty name.
pub open spec fn type_names_nonempty(r: TypeRef) -> bool
    decreases r,
{
    &&& (r.kind == TypeRefKind::Named ==> r.name@.len() > 0)
    &&& match r.elem {
        Some(e) => type_names_nonempty(*e),
        None => true,
    }
    &&& match r.key {
        Some(k) => type_names_nonempty(*k),
        None => true,
    }
    &&& match r.value {
        Some(v) => type_names_nonempty(*v),
        None => true,
    }
    &&& match r.return_type {
        Some(t) => type_names_nonempty(*t),
        None => true,
    }
    &&& forall|i: int| 0 <= i < r.params@.len() ==> type_names_nonempty(#[trigger] r.params@[i])
}

/// Whether no name is declared as two kinds of type.
pub open spec fn type_names_disjoint(c: Checker) -> bool {
    forall|n: Seq<char>|
        !(c.struct_decls@.contains_key(n) && c.interface_decls@.contains_key(n)) && !(
        c.struct_decls@.contains_key(n) && c.enum_decls@.contains_key(n)) && !(
        c.interface_decls@.contains_key(n) && c.enum_decls@.contains_key(n))
}

/// Whether `n` is declared as a struct, an interface or an enum.
pub open spec fn declared_type_name(c: Checker, n: Seq<char>) -> bool {
    c.struct_decls@.contains_key(n) || c.interface_decls@.contains_key(n) || c.enum_decls@.contains_key(n)
}

/// Whether checking left the context it ran in as it found it: inside a
/// function body or not, the taskgroups entered, the loop and closure depths, and the
/// declared enums.
pub open spec fn frame_kept(before: Checker, after: Checker) -> bool {
    &&& frame_kept_outside_loops(before, after)
    &&& after.current.loop_depth == before.current.loop_depth
}

/// What `frame_kept` keeps, but for the loop depth.
pub open spec fn frame_kept_outside_loops(before: Checker, after: Checker) -> bool {
    &&& after.in_function == before.in_function
    &&& after.current.taskgroups@ == before.current.taskgroups@
    &&& after.current.closure_depth == before.current.closure_depth
    &&& after.info.enums@ == before.info.enums@
    &&& after.functions@ == before.functions@
    &&& after.info.interfaces@ == before.info.interfaces@
    &&& after.function_signatures@ == before.function_signatures@
    &&& after.info.structs@ == before.info.structs@
    &&& after.info.functions@ == before.info.functions@
    &&& after.info.methods@ == before.info.methods@
}

/// A local variable binding: its type and the closure depth that declared it.
#[derive(Clone, Debug)]
pub struct LocalBinding {
    pub type_: String,
    pub closure_depth: usize,
}

impl LocalBinding {
    /// A copy of the binding.
    pub fn duplicate(&self) -> (r: LocalBinding)
        ensures
            r == *self,
    {
        LocalBinding { type_: self.type_.clone(), closure_depth: self.closure_depth }
    }
}

/// An enclosing taskgroup: its element type and the depths it was entered at.
#[derive(Clone, Debug)]
pub struct TaskgroupContext {
    pub result_type: String,
    pub loop_depth: usize,
    pub closure_depth: usize,
}

/// How a call is used: as an ordinary call, or as the target of `spawn`.
#[derive(Clone, Copy, Debug, PartialEq, Eq, Structural)]
pub enum CallUse {
    Ordinary,
    Spawn,
}

/// The state of the function body being checked.
pub struct FunctionContext {
    pub signature: Signature,
    pub literal_keys: Vec<String>,
    pub scopes: Vec<NameMap<LocalBinding>>,
    pub loop_depth: usize,
    pub closure_depth: usize,
    pub taskgroups: Vec<TaskgroupContext>,
}

/// The checker's state.
pub struct Checker {
    pub diag: List,
    pub functions: NameMap<Signature>,
    pub function_signatures: NameMap<Signature>,
    pub struct_decls: NameMap<usize>,
    pub interface_decls: NameMap<usize>,
    pub enum_decls: NameMap<usize>,
    pub in_function: bool,
    pub current: FunctionContext,
    pub info: Info,
}

/// Whether every name of `sig` is empty, it has no parameters and no flag is set.
pub open spec fn blank_signature(sig: Signature) -> bool {
    &&& sig.name@.len() == 0 && sig.package@.len() == 0 && sig.full_name@.len() == 0
    &&& sig.receiver@.len() == 0 && sig.return_type@.len() == 0
    &&& sig.params@.len() == 0
    &&& !sig.method && !sig.errorable && !sig.builtin && !sig.host_intrinsic && !sig.exported
}

/// A signature with no parameters and no flags, for placeholders.
pub fn empty_signature() -> (sig: Signature)
    ensures
        blank_signature(sig),
{
    Signature {
        name: String::new(),
        package: String::new(),
        full_name: String::new(),
        method: false,
        receiver: String::new(),
        params: Vec::new(),
        return_type: String::new(),
        errorable: false,
        builtin: false,
        host_intrinsic: false,
        exported: false,
    }
}

pub(crate) fn empty_context() -> (c: FunctionContext)
    ensures
        blank_signature(c.signature),
        c.literal_keys@.len() == 0,
        c.scopes@.len() == 0,
        c.loop_depth == 0,
        c.closure_depth == 0,
        c.taskgroups@.len() == 0,
{
    FunctionContext {
        signature: empty_signature(),
        literal_keys: Vec::new(),
        scopes: Vec::new(),
        loop_depth: 0,
        closure_depth: 0,
        taskgroups: Vec::new(),
    }
}

/// Whether `t` is spelled exactly `lit`.
pub fn is_type(t: &String, lit: &str) -> (b: bool)
    ensures
        b == (t@ == lit@),
{
    str_eq(t.as_str(), lit)
}

/// The `{:?}` spelling of a string.
pub fn q(s: &str) -> (res: String)
    ensures
        res@ == debug_quoted(s@),
{
    quote(s)
}

fn builtin_signature(name: &str, params: Vec<&str>, return_type: &str, errorable: bool) -> (sig: Signature)
    ensures
        sig.name@ == name@ && sig.full_name@ == name@ && sig.package@.len() == 0,
        sig.receiver@.len() == 0,
        sig.params@.len() == params@.len(),
        forall|k: int| 0 <= k < params@.len() ==> sig.params@[k]@ == (#[trigger] params@[k])@,
        sig.return_type@ == return_type@,
        sig.errorable == errorable,
        sig.builtin && !sig.method && !sig.host_intrinsic && !sig.exported,
{
    let mut ps: Vec<String> = Vec::new();
    let mut i: usize = 0;
    while i < params.len()
        invariant
            i <= params@.len(),
            ps@.len() == i,
            forall|k: int| 0 <= k < i ==> ps@[k]@ == (#[trigger] params@[k])@,
        decreases params.len() - i,
    {
        ps.push(owned(params[i]));
        i = i + 1;
    }
    Signature {
        name: owned(name),
        package: String::new(),
        full_name: owned(name),
        method: false,
        receiver: String::new(),
        params: ps,
        return_type: owned(return_type),
        errorable,
        builtin: true,
        host_intrinsic: false,
        exported: false,
    }
}

/// The names of the builtin functions.
pub open spec fn builtin_name(n: Seq<char>) -> bool {
    n == "print"@ || n == "panic"@ || n == "len"@ || n == "append"@ || n == "has"@ || n
        == "delete"@ || n == "keys"@ || n == "chr"@ || n == "i32_to_i64"@ || n == "i64_to_i32"@
        || n == "sb_new"@ || n == "sb_write"@ || n == "sb_string"@ || n == "chan_new"@ || n
        == "chan_send"@ || n == "chan_recv"@ || n == "chan_close"@ || n == "to_str"@
}

/// The spelling of a type reference: `!T`, `*T`, `[]T`, `[N]T`, `map[K]V`,
/// `chan[T]`, `fn(P1, P2) R` (with `!` before an errorable result), or a name.
pub open spec fn type_spelling(r: TypeRef) -> Seq<char>
    decreases r,
{
    match r.kind {
        TypeRefKind::Named => r.name@,
        TypeRefKind::Errorable => match r.elem {
            Some(e) => "!"@ + type_spelling(*e),
            None => Seq::empty(),
        },
        TypeRefKind::Pointer => match r.elem {
            Some(e) => "*"@ + type_spelling(*e),
            None => Seq::empty(),
        },
        TypeRefKind::Slice => match r.elem {
            Some(e) => "[]"@ + type_spelling(*e),
            None => Seq::empty(),
        },
        TypeRefKind::Array => match r.elem {
            Some(e) => "["@ + crate::text::signed_decimal(r.array_len as int) + "]"@ + type_spelling(*e),
            None => Seq::empty(),
        },
        TypeRefKind::MapType => match r.key {
            Some(k) => match r.value {
                Some(v) => "map["@ + type_spelling(*k) + "]"@ + type_spelling(*v),
                None => Seq::empty(),
            },
            None => Seq::empty(),
        },
        TypeRefKind::Chan => match r.elem {
            Some(e) => "chan["@ + type_spelling(*e) + "]"@,
            None => Seq::empty(),
        },
        TypeRefKind::Function => match r.return_type {
            Some(t) => "fn("@ + type_spellings_joined(r.params@) + ") "@ + (if r.errorable {
                "!"@
            } else {
                Seq::empty()
            }) + type_spelling(*t),
            None => Seq::empty(),
        },
    }
}

/// Whether a spelling names no value: `void`, `noreturn`, or nothing.
pub open spec fn valueless_spelling(s: Seq<char>) -> bool {
    s == "void"@ || s == "noreturn"@ || s == ""@
}

/// The names of the types that a checker has seen declared: structs,
/// interfaces and enums.
pub open spec fn declared_type_names(c: Checker) -> Set<Seq<char>> {
    c.struct_decls@.dom().union(c.info.structs@.dom()).union(c.interface_decls@.dom()).union(c.enum_decls@.dom())
}

/// Whether a type reference is well formed: every part present, every named
/// type a builtin or among `known` and not generic, array lengths in range, map keys scalar, and no
/// part of a kind its place refuses.
pub open spec fn type_valid(known: Set<Seq<char>>, r: TypeRef) -> bool
    decreases r,
{
    match r.kind {
        TypeRefKind::Named => r.type_args@.len() == 0 && (self::types::builtin_type_spec(r.name@) || known.contains(r.name@)),
        TypeRefKind::Errorable => match r.elem {
            Some(e) => type_valid(known, *e) && type_spelling(*e) != "noreturn"@ && type_spelling(*e) != ""@ && !(1
                <= type_spelling(*e).len() && type_spelling(*e).subrange(0, 1) == "!"@),
            None => false,
        },
        TypeRefKind::Pointer => match r.elem {
            Some(e) => type_valid(known, *e) && !valueless_spelling(type_spelling(*e)),
            None => false,
        },
        TypeRefKind::Slice => match r.elem {
            Some(e) => type_valid(known, *e) && type_spelling(*e) != "noreturn"@ && type_spelling(*e) != ""@,
            None => false,
        },
        TypeRefKind::Array => 0 <= r.array_len <= 2147483647 && match r.elem {
            Some(e) => type_valid(known, *e) && !valueless_spelling(type_spelling(*e)),
            None => false,
        },
        TypeRefKind::MapType => match r.key {
            Some(k) => match r.value {
                Some(v) => type_valid(known, *k) && self::types::map_key_type_spec(type_spelling(*k)) && type_valid(known, *v)
                    && !valueless_spelling(type_spelling(*v)),
                None => false,
            },
            None => false,
        },
        TypeRefKind::Chan => match r.elem {
            Some(e) => type_valid(known, *e) && !valueless_spelling(type_spelling(*e)) && !(5 <= type_spelling(
                *e,
            ).len() && type_spelling(*e).subrange(0, 5) == "chan["@) && !(1 <= type_spelling(*e).len()
                && type_spelling(*e).subrange(0, 1) == "!"@),
            None => false,
        },
        TypeRefKind::Function => types_valid(known, r.params@) && match r.return_type {
            Some(t) => type_valid(known, *t) && !(type_spelling(*t) == "noreturn"@ && r.errorable) && !(type_spelling(*t)
                == "error"@ && r.errorable),
            None => false,
        },
    }
}

/// Whether every parameter type is well formed and names a value.
pub open spec fn types_valid(known: Set<Seq<char>>, ps: Seq<TypeRef>) -> bool
    decreases ps,
{
    if ps.len() == 0 {
        true
    } else {
        types_valid(known, ps.drop_last()) && type_valid(known, ps.last()) && !valueless_spelling(type_spelling(ps.last()))
    }
}

/// Well-formed parameter types have well-formed prefixes, and each of them is
/// well formed and names a value.
proof fn lemma_types_valid_prefix(known: Set<Seq<char>>, ps: Seq<TypeRef>, i: int)
    requires
        0 <= i < ps.len(),
    ensures
        types_valid(known, ps) ==> types_valid(known, ps.subrange(0, i)) && type_valid(known, ps[i])
            && !valueless_spelling(type_spelling(ps[i])),
    decreases ps.len(),
{
    if types_valid(known, ps) {
        if i == ps.len() - 1 {
            assert(ps.drop_last() =~= ps.subrange(0, i));
        } else {
            lemma_types_valid_prefix(known, ps.drop_last(), i);
            assert(ps.drop_last().subrange(0, i) =~= ps.subrange(0, i));
        }
    }
}

/// The type references of parameters.
pub open spec fn param_type_refs(ps: Seq<crate::ast::Param>) -> Seq<TypeRef> {
    ps.map_values(|p: crate::ast::Param| p.type_ref)
}

/// The spellings of type references joined by `, `.
pub open spec fn type_spellings_joined(ps: Seq<TypeRef>) -> Seq<char>
    decreases ps,
{
    if ps.len() == 0 {
        Seq::empty()
    } else if ps.len() == 1 {
        type_spelling(ps[0])
    } else {
        type_spellings_joined(ps.drop_last()) + ", "@ + type_spelling(ps.last())
    }
}

/// `main` is not the name of a builtin function.
proof fn lemma_main_not_builtin()
    ensures
        !builtin_name("main"@),
{
    reveal_strlit("main");
    reveal_strlit("print");
    reveal_strlit("panic");
    reveal_strlit("len");
    reveal_strlit("append");
    reveal_strlit("has");
    reveal_strlit("delete");
    reveal_strlit("keys");
    reveal_strlit("chr");
    reveal_strlit("i32_to_i64");
    reveal_strlit("i64_to_i32");
    reveal_strlit("sb_new");
    reveal_strlit("sb_write");
    reveal_strlit("sb_string");
    reveal_strlit("chan_new");
    reveal_strlit("chan_send");
    reveal_strlit("chan_recv");
    reveal_strlit("chan_close");
    reveal_strlit("to_str");
    assert("main"@[0] == 'm');
}

/// Joining resolved parameter types spells the parameter references.
pub(crate) proof fn lemma_joined_spellings(strs: Seq<String>, ps: Seq<TypeRef>)
    requires
        strs.len() == ps.len(),
        forall|k: int| 0 <= k < strs.len() ==> #[trigger] strs[k]@ == type_spelling(ps[k]),
    ensures
        calls::joined(strs) == type_spellings_joined(ps),
    decreases strs.len(),
{
    if strs.len() > 1 {
        lemma_joined_spellings(strs.drop_last(), ps.drop_last());
        assert(strs.drop_last()[0] == strs[0]);
    }
}

/// The signatures of the builtin functions.
pub fn builtin_functions() -> (m: NameMap<Signature>)
    ensures
        forall|n: Seq<char>| m@.contains_key(n) <==> builtin_name(n),
{
    let mut m: NameMap<Signature> = NameMap::new();
    m.insert(owned("print"), builtin_signature("print", vec!["str"], "void", false));
    m.insert(owned("panic"), builtin_signature("panic", vec!["str"], "noreturn", false));
    m.insert(owned("len"), builtin_signature("len", vec![""], "i32", false));
    m.insert(owned("append"), builtin_signature("append", vec!["", ""], "", false));
    m.insert(owned("has"), builtin_signature("has", vec!["", ""], "bool", false));
    m.insert(owned("delete"), builtin_signature("delete", vec!["", ""], "void", false));
    m.insert(owned("keys"), builtin_signature("keys", vec![""], "", false));
    m.insert(owned("chr"), builtin_signature("chr", vec!["i32"], "str", false));
    m.insert(owned("i32_to_i64"), builtin_signature("i32_to_i64", vec!["i32"], "i64", false));
    m.insert(owned("i64_to_i32"), builtin_signature("i64_to_i32", vec!["i64"], "i32", false));
    m.insert(owned("sb_new"), builtin_signature("sb_new", vec![], "i64", false));
    m.insert(owned("sb_write"), builtin_signature("sb_write", vec!["i64", "str"], "void", false));
    m.insert(owned("sb_string"), builtin_signature("sb_string", vec!["i64"], "str", false));
    m.insert(owned("chan_new"), builtin_signature("chan_new", vec!["i32"], "", false));
    m.insert(owned("chan_send"), builtin_signature("chan_send", vec!["", ""], "void", true));
    m.insert(owned("chan_recv"), builtin_signature("chan_recv", vec![""], "", true));
    m.insert(owned("chan_close"), builtin_signature("chan_close", vec![""], "void", false));
    m.insert(owned("to_str"), builtin_signature("to_str", vec![""], "str", false));
    m
}

/// Whether a name is a builtin function.
pub fn is_builtin_function(name: &str) -> (b: bool)
    ensures
        b == builtin_name(name@),
{
    str_eq(name, "print") || str_eq(name, "panic") || str_eq(name, "len") || str_eq(name, "append")
        || str_eq(name, "has") || str_eq(name, "delete") || str_eq(name, "keys") || str_eq(
        name,
        "chr",
    ) || str_eq(name, "i32_to_i64") || str_eq(name, "i64_to_i32") || str_eq(name, "sb_new")
        || str_eq(name, "sb_write") || str_eq(name, "sb_string") || str_eq(name, "chan_new")
        || str_eq(name, "chan_send") || str_eq(name, "chan_recv") || str_eq(name, "chan_close")
        || str_eq(name, "to_str")
}

impl Checker {
    /// A checker that knows only the builtin functions.
    pub fn new() -> (c: Checker)
        ensures
            !c.in_function,
            c.info.error_codes@ == Map::<Seq<char>, i32>::empty(),
            c.info.enums@ == Map::<Seq<char>, EnumInfo>::empty(),
            c.info.interfaces@ == Map::<Seq<char>, InterfaceInfo>::empty(),
            c.diag@ == Seq::<DiagnosticView>::empty(),
            forall|n: Seq<char>| #[trigger] c.functions@.contains_key(n) <==> builtin_name(n),
            c.info.structs@ == Map::<Seq<char>, StructInfo>::empty(),
            c.info.functions@ == Map::<Seq<char>, Signature>::empty(),
    {
        Checker {
            diag: List::new(),
            functions: builtin_functions(),
            function_signatures: NameMap::new(),
            struct_decls: NameMap::new(),
            interface_decls: NameMap::new(),
            enum_decls: NameMap::new(),
            in_function: false,
            current: empty_context(),
            info: Info::new(),
        }
    }

    fn check_program(&mut self, program: &Program, check_bodies: bool)
        ensures
            error_table_numbered(final(self).info),
            forall|n: Seq<char>|
                #[trigger] final(self).info.enums@.contains_key(n) && !old(self).info.enums@.contains_key(n)
                    ==> enum_recorded_from(program.enums@, n, final(self).info.enums@[n]),
            forall|n: Seq<char>|
                #[trigger] final(self).info.interfaces@.contains_key(n) && !old(self).info.interfaces@.contains_key(n)
                    ==> interface_recorded_from(program.interfaces@, n, final(self).info.interfaces@[n]),
            extends(old(self).diag@, final(self).diag@),
            program.package_name@ != "main"@ ==> final(self).diag@.len() > old(self).diag@.len()
                && final(self).diag@[old(self).diag@.len() as int] == (DiagnosticView {
                pos: program.package_pos@,
                message: "package must be main"@,
            }),
            forall|i: int|
                0 <= i < program.enums@.len() ==> final(self).info.enums@.contains_key(
                    #[trigger] program.enums@[i].name@,
                ),
            forall|i: int|
                0 <= i < program.interfaces@.len() ==> final(self).info.interfaces@.contains_key(
                    #[trigger] program.interfaces@[i].name@,
                ),
            forall|i: int|
                0 <= i < program.structs@.len() && program.structs@[i].type_params@.len() == 0
                    ==> final(self).info.structs@.contains_key(#[trigger] program.structs@[i].name@),
            final(self).diag@.len() == old(self).diag@.len() ==> forall|i: int|
                0 <= i < program.functions@.len() && program.functions@[i].receiver is None
                    ==> final(self).info.functions@.contains_key(#[trigger] program.functions@[i].name@),
            (forall|n: Seq<char>| #[trigger] old(self).functions@.contains_key(n) ==> builtin_name(n)) && (
            forall|i: int|
                0 <= i < program.functions@.len() ==> !(#[trigger] program.functions@[i].receiver is None
                    && program.functions@[i].name@ == "main"@)) ==> exists|k: int|
                old(self).diag@.len() <= k < final(self).diag@.len() && #[trigger] final(self).diag@[k] == (
                DiagnosticView { pos: program.package_pos@, message: "missing main function"@ }),
            forall|i: int|
                0 <= i < program.functions@.len() && program.functions@[i].receiver is None
                    ==> final(self).info.functions@.contains_key(#[trigger] program.functions@[i].name@)
                    || declaration_flagged(program.functions@[i], old(self).diag@.len() as int, final(self).diag@),
            final(self).diag@.len() == old(self).diag@.len() && old(self).info.structs@ == Map::<
                Seq<char>,
                StructInfo,
            >::empty() ==> forall|i: int|
                0 <= i < program.structs@.len() && program.structs@[i].type_params@.len() == 0
                    && !payload_struct_name(program.enums@, program.structs@[i].name@) ==> struct_recorded_exactly(
                    program.structs@,
                    program.structs@[i].name@,
                    final(self).info.structs@[#[trigger] program.structs@[i].name@],
                ),
            final(self).diag@.len() == old(self).diag@.len() && old(self).info.functions@ == Map::<
                Seq<char>,
                Signature,
            >::empty() ==> forall|i: int|
                0 <= i < program.functions@.len() && program.functions@[i].receiver is None ==> registered_exactly(
                    program.functions@,
                    program.functions@[i].name@,
                    final(self).info.functions@[#[trigger] program.functions@[i].name@],
                ),
            final(self).diag@.len() == old(self).diag@.len() && old(self).info.interfaces@ == Map::<
                Seq<char>,
                InterfaceInfo,
            >::empty() ==> forall|i: int|
                0 <= i < program.interfaces@.len() ==> interface_recorded_exactly(
                    program.interfaces@,
                    program.interfaces@[i].name@,
                    final(self).info.interfaces@[#[trigger] program.interfaces@[i].name@],
                ),
            old(self).info.functions@ == Map::<Seq<char>, Signature>::empty() && (forall|n: Seq<char>|
                #[trigger] old(self).functions@.contains_key(n) ==> builtin_name(n)) && !final(self).info.functions@.contains_key(
                "main"@,
            ) ==> exists|k: int|
                old(self).diag@.len() <= k < final(self).diag@.len() && #[trigger] final(self).diag@[k] == (
                DiagnosticView { pos: program.package_pos@, message: "missing main function"@ }),
            old(self).info.functions@ == Map::<Seq<char>, Signature>::empty() && final(self).info.functions@.contains_key(
                "main"@,
            ) && final(self).info.functions@["main"@].return_type@ != "i32"@ ==> exists|k: int|
                old(self).diag@.len() <= k < final(self).diag@.len() && #[trigger] final(self).diag@[k] == (
                DiagnosticView { pos: program.package_pos@, message: "main must return i32 or !i32"@ }),
            check_bodies && old(self).info.functions@ == Map::<Seq<char>, Signature>::empty() ==> forall|i: int, j: int|
                0 <= i < program.functions@.len() && program.functions@[i].receiver is None
                    && final(self).info.functions@.contains_key(program.functions@[i].name@) && 0 <= j
                    < program.functions@[i].body.stmts@.len() ==> loop_control_reported(
                    #[trigger] program.functions@[i].body.stmts@[j],
                    old(self).diag@.len() as int,
                    final(self).diag@,
                ),
    {
        proof {
            lemma_main_not_builtin();
        }
        let ghost d0 = self.diag@;
        if !str_eq(program.package_name.as_str(), "main") {
            self.diag.add(program.package_pos.duplicate(), owned("package must be main"));
        }
        self.index_type_declarations(program);
        let ghost d_structs = self.diag@;
        self.check_structs(program);
        let ghost d_after_structs = self.diag@;
        let ghost structs_after = self.info.structs@;
        let ghost d_ifaces = self.diag@;
        self.check_interfaces(program);
        let ghost d_after_ifaces = self.diag@;
        let ghost ifaces_after = self.info.interfaces@;
        self.check_enums(program);
        self.check_type_cycles(program);
        let ghost before_functions = self.functions@;
        let ghost dcf = self.diag@;
        self.check_functions(program);
        let ghost fcf = self.info.functions@;
        let ghost sigs_cf = self.function_signatures@;
        let ghost before_main = self.diag@;
        proof {
            if (forall|n: Seq<char>| #[trigger] old(self).functions@.contains_key(n) ==> builtin_name(n)) && (
            forall|i: int|
                0 <= i < program.functions@.len() ==> !(#[trigger] program.functions@[i].receiver is None
                    && program.functions@[i].name@ == "main"@)) {
                if self.functions@.contains_key("main"@) {
                    if !before_functions.contains_key("main"@) {
                        let sig = self.functions@["main"@];
                        assert(registered_from(program.functions@, "main"@, sig));
                        let i = choose|i: int|
                            0 <= i < program.functions@.len() && registers(#[trigger] program.functions@[i], "main"@, sig);
                        assert(!(program.functions@[i].receiver is None && program.functions@[i].name@ == "main"@));
                    }
                }
            }
        }
        let ghost main_known = self.functions@.contains_key("main"@);
        let ghost functions_at_main = self.functions@;
        let ghost info_at_main = self.info.functions@;
        self.check_main(program);
        let ghost after_main = self.diag@;
        let ghost checker_before_bodies = *self;
        if check_bodies {
            self.check_function_bodies(program);
        }
        let ghost after_bodies = self.diag@;
        self.assign_error_codes();
        proof {
            if !main_known {
                let k = before_main.len() as int;
                assert(after_main[k] == (DiagnosticView { pos: program.package_pos@, message: "missing main function"@ }));
                assert(self.diag@[k] == after_main[k]);
                assert(old(self).diag@.len() <= k < self.diag@.len());
            }
            if self.diag@.len() == old(self).diag@.len() && old(self).info.structs@ == Map::<Seq<char>, StructInfo>::empty() {
                assert(d_structs.len() == d_after_structs.len());
                assert forall|i: int|
                    0 <= i < program.structs@.len() && program.structs@[i].type_params@.len() == 0
                        && !payload_struct_name(program.enums@, program.structs@[i].name@) implies struct_recorded_exactly(
                    program.structs@,
                    program.structs@[i].name@,
                    self.info.structs@[#[trigger] program.structs@[i].name@],
                ) by {
                    assert(structs_after.contains_key(program.structs@[i].name@));
                    assert(self.info.structs@[program.structs@[i].name@] == structs_after[program.structs@[i].name@]);
                }
            }
            if self.diag@.len() == old(self).diag@.len() && old(self).info.functions@ == Map::<Seq<char>, Signature>::empty() {
                assert(dcf.len() == before_main.len());
                assert forall|i: int|
                    0 <= i < program.functions@.len() && program.functions@[i].receiver is None implies registered_exactly(
                    program.functions@,
                    program.functions@[i].name@,
                    self.info.functions@[#[trigger] program.functions@[i].name@],
                ) by {
                    assert(fcf.contains_key(program.functions@[i].name@));
                    assert(self.info.functions@[program.functions@[i].name@] == fcf[program.functions@[i].name@]);
                }
            }
            if self.diag@.len() == old(self).diag@.len() && old(self).info.interfaces@ == Map::<Seq<char>, InterfaceInfo>::empty() {
                assert(d_ifaces.len() == d_after_ifaces.len());
                assert(self.info.interfaces@ == ifaces_after);
            }
            if old(self).info.functions@ == Map::<Seq<char>, Signature>::empty() {
                let k = before_main.len() as int;
                if (forall|n: Seq<char>| #[trigger] old(self).functions@.contains_key(n) ==> builtin_name(n))
                    && !self.info.functions@.contains_key("main"@) {
                    if functions_at_main.contains_key("main"@) {
                        assert(!before_functions.contains_key("main"@));
                        let sig = functions_at_main["main"@];
                        assert(registered_from(program.functions@, "main"@, sig));
                        assert(info_at_main.contains_key("main"@));
                    }
                    assert(after_main[k] == (DiagnosticView { pos: program.package_pos@, message: "missing main function"@ }));
                    assert(self.diag@[k] == after_main[k]);
                }
                if self.info.functions@.contains_key("main"@) && self.info.functions@["main"@].return_type@ != "i32"@ {
                    assert(info_at_main.contains_key("main"@));
                    assert(functions_at_main.contains_key("main"@));
                    assert(same_signature(info_at_main["main"@], functions_at_main["main"@]));
                    assert(after_main[k] == (DiagnosticView { pos: program.package_pos@, message: "main must return i32 or !i32"@ }));
                    assert(self.diag@[k] == after_main[k]);
                }
            }
            if check_bodies && old(self).info.functions@ == Map::<Seq<char>, Signature>::empty() {
                assert forall|i: int, j: int|
                    0 <= i < program.functions@.len() && program.functions@[i].receiver is None
                        && self.info.functions@.contains_key(program.functions@[i].name@) && 0 <= j
                        < program.functions@[i].body.stmts@.len() implies loop_control_reported(
                    #[trigger] program.functions@[i].body.stmts@[j],
                    old(self).diag@.len() as int,
                    self.diag@,
                ) by {
                    assert(!old(self).info.functions@.contains_key(program.functions@[i].name@));
                    assert(fcf.contains_key(program.functions@[i].name@));
                    assert(sigs_cf.contains_key(program.functions@[i].name@));
                    assert(body_checked(checker_before_bodies, program.functions@[i]));
                    lemma_loop_control_kept(
                        program.functions@[i].body.stmts@[j],
                        old(self).diag@.len() as int,
                        after_main.len() as int,
                        after_bodies,
                        self.diag@,
                    );
                }
            }
            assert forall|i: int|
                0 <= i < program.functions@.len() && program.functions@[i].receiver is None implies self.info.functions@.contains_key(
                    #[trigger] program.functions@[i].name@,
                ) || declaration_flagged(program.functions@[i], old(self).diag@.len() as int, self.diag@) by {
                if !fcf.contains_key(program.functions@[i].name@) {
                    lemma_flagged_kept(
                        program.functions@[i],
                        old(self).diag@.len() as int,
                        dcf.len() as int,
                        before_main,
                        self.diag@,
                    );
                }
            }
        }
    }

    /// Records the first declaration of each type name; a later declaration of
    /// a name already taken, by a type of any kind, is reported.
    fn index_type_declarations(&mut self, program: &Program)
        ensures
            final(self).info == old(self).info,
            final(self).functions@ == old(self).functions@,
            extends(old(self).diag@, final(self).diag@),
            type_names_disjoint(*old(self)) ==> type_names_disjoint(*final(self)),
            forall|k: int| 0 <= k < program.structs@.len() ==> declared_type_name(*final(self), #[trigger] program.structs@[k].name@),
            forall|k: int| 0 <= k < program.interfaces@.len() ==> declared_type_name(*final(self), #[trigger] program.interfaces@[k].name@),
            forall|k: int| 0 <= k < program.enums@.len() ==> declared_type_name(*final(self), #[trigger] program.enums@[k].name@),
    {
        let ghost s0 = *self;
        let ghost d0 = self.diag@;
        let mut i: usize = 0;
        while i < program.structs.len()
            invariant
                self.functions@ == old(self).functions@,
                self.info == old(self).info,
                extends(d0, self.diag@),
                i <= program.structs@.len(),
                type_names_disjoint(s0) ==> type_names_disjoint(*self),
                forall|n: Seq<char>| declared_type_name(s0, n) ==> declared_type_name(*self, n),
                forall|k: int| 0 <= k < i ==> declared_type_name(*self, #[trigger] program.structs@[k].name@),
            decreases program.structs.len() - i,
        {
            let decl = &program.structs[i];
            if self.struct_decls.contains_key(decl.name.as_str()) {
                self.diag.add(
                    decl.name_pos.duplicate(),
                    cat(vec!["struct ", q(decl.name.as_str()).as_str(), " is already declared"]),
                );
            } else if self.interface_decls.contains_key(decl.name.as_str())
                || self.enum_decls.contains_key(decl.name.as_str()) {
                self.diag.add(
                    decl.name_pos.duplicate(),
                    cat(vec!["type ", q(decl.name.as_str()).as_str(), " is already declared"]),
                );
            } else {
                self.struct_decls.insert(decl.name.clone(), i);
            }
            i = i + 1;
        }
        let mut i: usize = 0;
        while i < program.interfaces.len()
            invariant
                self.functions@ == old(self).functions@,
                self.info == old(self).info,
                extends(d0, self.diag@),
                i <= program.interfaces@.len(),
                type_names_disjoint(s0) ==> type_names_disjoint(*self),
                forall|n: Seq<char>| declared_type_name(s0, n) ==> declared_type_name(*self, n),
                forall|k: int| 0 <= k < program.structs@.len() ==> declared_type_name(*self, #[trigger] program.structs@[k].name@),
                forall|k: int| 0 <= k < i ==> declared_type_name(*self, #[trigger] program.interfaces@[k].name@),
            decreases program.interfaces.len() - i,
        {
            let decl = &program.interfaces[i];
            if self.interface_decls.contains_key(decl.name.as_str()) {
                self.diag.add(
                    decl.name_pos.duplicate(),
                    cat(vec!["interface ", q(decl.name.as_str()).as_str(), " is already declared"]),
                );
            } else if self.struct_decls.contains_key(decl.name.as_str())
                || self.enum_decls.contains_key(decl.name.as_str()) {
                self.diag.add(
                    decl.name_pos.duplicate(),
                    cat(vec!["type ", q(decl.name.as_str()).as_str(), " is already declared"]),
                );
            } else {
                self.interface_decls.insert(decl.name.clone(), i);
            }
            i = i + 1;
        }
        let mut i: usize = 0;
        while i < program.enums.len()
            invariant
                self.functions@ == old(self).functions@,
                self.info == old(self).info,
                extends(d0, self.diag@),
                i <= program.enums@.len(),
                type_names_disjoint(s0) ==> type_names_disjoint(*self),
                forall|n: Seq<char>| declared_type_name(s0, n) ==> declared_type_name(*self, n),
                forall|k: int| 0 <= k < program.structs@.len() ==> declared_type_name(*self, #[trigger] program.structs@[k].name@),
                forall|k: int| 0 <= k < program.interfaces@.len() ==> declared_type_name(*self, #[trigger] program.interfaces@[k].name@),
                forall|k: int| 0 <= k < i ==> declared_type_name(*self, #[trigger] program.enums@[k].name@),
            decreases program.enums.len() - i,
        {
            let decl = &program.enums[i];
            if self.enum_decls.contains_key(decl.name.as_str()) {
                self.diag.add(
                    decl.name_pos.duplicate(),
                    cat(vec!["enum ", q(decl.name.as_str()).as_str(), " is already declared"]),
                );
            } else if self.interface_decls.contains_key(decl.name.as_str())
                || self.struct_decls.contains_key(decl.name.as_str()) {
                self.diag.add(
                    decl.name_pos.duplicate(),
                    cat(vec!["type ", q(decl.name.as_str()).as_str(), " is already declared"]),
                );
            } else {
                self.enum_decls.insert(decl.name.clone(), i);
            }
            i = i + 1;
        }
    }

    fn check_structs(&mut self, program: &Program)
        ensures
            final(self).info.enums@ == old(self).info.enums@,
            final(self).functions@ == old(self).functions@,
            final(self).info.functions@ == old(self).info.functions@,
            final(self).info.interfaces@ == old(self).info.interfaces@,
            extends(old(self).diag@, final(self).diag@),
            forall|n: Seq<char>|
                #[trigger] old(self).info.structs@.contains_key(n) ==> final(self).info.structs@.contains_key(n)
                    && final(self).info.structs@[n] == old(self).info.structs@[n],
            forall|n: Seq<char>|
                #[trigger] final(self).info.structs@.contains_key(n) && !old(self).info.structs@.contains_key(n)
                    ==> struct_recorded_from(program.structs@, n, final(self).info.structs@[n]),
            forall|i: int|
                0 <= i < program.structs@.len() && program.structs@[i].type_params@.len() == 0
                    ==> final(self).info.structs@.contains_key(#[trigger] program.structs@[i].name@),
            final(self).diag@.len() == old(self).diag@.len() ==> forall|n: Seq<char>|
                #[trigger] final(self).info.structs@.contains_key(n) && !old(self).info.structs@.contains_key(n)
                    ==> struct_recorded_exactly(program.structs@, n, final(self).info.structs@[n]),
    {
        let ghost d0 = self.diag@;
        let ghost before = self.info.structs@;
        let mut d: usize = 0;
        while d < program.structs.len()
            invariant
                self.functions@ == old(self).functions@,
                self.info.functions@ == old(self).info.functions@,
                self.info.enums@ == old(self).info.enums@,
                self.info.interfaces@ == old(self).info.interfaces@,
                extends(d0, self.diag@),
                d <= program.structs@.len(),
                before == old(self).info.structs@,
                forall|n: Seq<char>|
                    #[trigger] before.contains_key(n) ==> self.info.structs@.contains_key(n)
                        && self.info.structs@[n] == before[n],
                forall|n: Seq<char>|
                    #[trigger] self.info.structs@.contains_key(n) && !before.contains_key(n)
                        ==> struct_recorded_from(program.structs@.subrange(0, d as int), n, self.info.structs@[n]),
                forall|i: int|
                    0 <= i < d && program.structs@[i].type_params@.len() == 0
                        ==> self.info.structs@.contains_key(#[trigger] program.structs@[i].name@),
                self.diag@.len() == d0.len() ==> forall|n: Seq<char>|
                    #[trigger] self.info.structs@.contains_key(n) && !before.contains_key(n)
                        ==> struct_recorded_exactly(program.structs@.subrange(0, d as int), n, self.info.structs@[n]),
            decreases program.structs.len() - d,
        {
            proof {
                lemma_struct_recorded_from_grows(program.structs@, d as int);
                lemma_struct_recorded_exactly_grows(program.structs@, d as int);
            }
            let decl = &program.structs[d];
            let ghost index = d as int;
            d = d + 1;
            if self.info.structs.contains_key(decl.name.as_str()) {
                continue;
            }
            if decl.type_params.len() > 0 {
                self.diag.add(
                    decl.name_pos.duplicate(),
                    cat(
                        vec![
                            "generic struct ",
                            q(decl.name.as_str()).as_str(),
                            " must be monomorphized before checking",
                        ],
                    ),
                );
                continue;
            }
            let mut info = StructInfo {
                name: decl.name.clone(),
                exported: decl.exported,
                resource: decl.resource,
                fields: Vec::new(),
            };
            let mut seen_fields = NameSet::new();
            let mut f: usize = 0;
            let ghost structs_now = self.info.structs@;
            let ghost d_struct = self.diag@;
            while f < decl.fields.len()
                invariant
                    self.functions@ == old(self).functions@,
                    self.info.functions@ == old(self).info.functions@,
                    self.info.enums@ == old(self).info.enums@,
                    self.info.interfaces@ == old(self).info.interfaces@,
                    extends(d0, self.diag@),
                    f <= decl.fields@.len(),
                    self.info.structs@ == structs_now,
                    info.name@ == decl.name@,
                    info.exported == decl.exported,
                    info.resource == decl.resource,
                    decl.type_params@.len() == 0,
                    fields_declared(*decl, info.fields@),
                    forall|c: int|
                        0 <= c < info.fields@.len() ==> seen_fields@.contains(#[trigger] info.fields@[c].name@),
                    extends(d_struct, self.diag@),
                    self.diag@.len() == d_struct.len() ==> fields_match(*decl, info.fields@, f as int),
                decreases decl.fields.len() - f,
            {
                let field = &decl.fields[f];
                f = f + 1;
                if !seen_fields.insert(field.name.clone()) {
                    self.diag.add(
                        field.name_pos.duplicate(),
                        cat(
                            vec![
                                "field ",
                                q(field.name.as_str()).as_str(),
                                " is already declared in struct ",
                                q(decl.name.as_str()).as_str(),
                            ],
                        ),
                    );
                    continue;
                }
                let field_type = self.resolve_type_ref(&field.type_ref);
                if is_valueless(field_type.as_str()) {
                    self.diag.add(
                        field.type_ref.pos.duplicate(),
                        cat(
                            vec![
                                "field ",
                                q(field.name.as_str()).as_str(),
                                " cannot use type ",
                                q(field.type_ref.display().as_str()).as_str(),
                            ],
                        ),
                    );
                    continue;
                }
                info.fields.push(
                    StructField {
                        exported: field.exported,
                        name: field.name.clone(),
                        type_: field_type,
                    },
                );
            }
            proof {
                assert(program.structs@.subrange(0, d as int)[index] == program.structs@[index]);
                assert(struct_recorded(program.structs@[index], decl.name@, info));
                if self.diag@.len() == d0.len() {
                    assert(fields_match(program.structs@.subrange(0, d as int)[index], info.fields@, decl.fields@.len() as int));
                }
            }
            self.info.structs.insert(decl.name.clone(), info);
        }
        proof {
            assert(program.structs@.subrange(0, program.structs@.len() as int) =~= program.structs@);
        }
    }

    fn check_interfaces(&mut self, program: &Program)
        ensures
            final(self).info.enums@ == old(self).info.enums@,
            final(self).functions@ == old(self).functions@,
            final(self).info.functions@ == old(self).info.functions@,
            final(self).info.structs@ == old(self).info.structs@,
            extends(old(self).diag@, final(self).diag@),
            forall|n: Seq<char>|
                #[trigger] old(self).info.interfaces@.contains_key(n) ==> final(self).info.interfaces@.contains_key(n)
                    && final(self).info.interfaces@[n] == old(self).info.interfaces@[n],
            forall|n: Seq<char>|
                #[trigger] final(self).info.interfaces@.contains_key(n) && !old(self).info.interfaces@.contains_key(n)
                    ==> interface_recorded_from(program.interfaces@, n, final(self).info.interfaces@[n]),
            forall|i: int|
                0 <= i < program.interfaces@.len() ==> final(self).info.interfaces@.contains_key(
                    #[trigger] program.interfaces@[i].name@,
                ),
        final(self).diag@.len() == old(self).diag@.len() ==> forall|n: Seq<char>|
                #[trigger] final(self).info.interfaces@.contains_key(n) && !old(self).info.interfaces@.contains_key(n)
                    ==> interface_recorded_exactly(program.interfaces@, n, final(self).info.interfaces@[n]),
    {
        let ghost d0 = self.diag@;
        let ghost before = self.info.interfaces@;
        let mut d: usize = 0;
        while d < program.interfaces.len()
            invariant
                self.functions@ == old(self).functions@,
                self.info.functions@ == old(self).info.functions@,
                self.info.structs@ == old(self).info.structs@,
                self.info.enums@ == old(self).info.enums@,
                extends(d0, self.diag@),
                d <= program.interfaces@.len(),
                before == old(self).info.interfaces@,
                forall|n: Seq<char>|
                    #[trigger] before.contains_key(n) ==> self.info.interfaces@.contains_key(n)
                        && self.info.interfaces@[n] == before[n],
                forall|n: Seq<char>|
                    #[trigger] self.info.interfaces@.contains_key(n) && !before.contains_key(n)
                        ==> interface_recorded_from(
                        program.interfaces@.subrange(0, d as int),
                        n,
                        self.info.interfaces@[n],
                    ),
                forall|i: int|
                    0 <= i < d ==> self.info.interfaces@.contains_key(#[trigger] program.interfaces@[i].name@),
                self.diag@.len() == d0.len() ==> forall|n: Seq<char>|
                    #[trigger] self.info.interfaces@.contains_key(n) && !before.contains_key(n)
                        ==> interface_recorded_exactly(
                        program.interfaces@.subrange(0, d as int),
                        n,
                        self.info.interfaces@[n],
                    ),
            decreases program.interfaces.len() - d,
        {
            proof {
                lemma_interface_recorded_from_grows(program.interfaces@, d as int);
                lemma_interface_recorded_exactly_grows(program.interfaces@, d as int);
            }
            let decl = &program.interfaces[d];
            let ghost index = d as int;
            d = d + 1;
            if self.info.interfaces.contains_key(decl.name.as_str()) {
                continue;
            }
            let mut info = InterfaceInfo {
                name: decl.name.clone(),
                exported: decl.exported,
                methods: Vec::new(),
            };
            let mut seen_methods = NameSet::new();
            let mut m: usize = 0;
            let ghost interfaces_now = self.info.interfaces@;
            let ghost d_iface = self.diag@;
            while m < decl.methods.len()
                invariant
                    self.functions@ == old(self).functions@,
                    self.info.functions@ == old(self).info.functions@,
                    self.info.structs@ == old(self).info.structs@,
                    self.info.enums@ == old(self).info.enums@,
                    extends(d0, self.diag@),
                    m <= decl.methods@.len(),
                    self.info.interfaces@ == interfaces_now,
                    info.name@ == decl.name@,
                    info.exported == decl.exported,
                    methods_declared(*decl, info.methods@),
                    forall|c: int|
                        0 <= c < info.methods@.len() ==> seen_methods@.contains(#[trigger] info.methods@[c].name@),
                    extends(d_iface, self.diag@),
                    self.diag@.len() == d_iface.len() ==> methods_match(*decl, info.methods@, m as int),
                decreases decl.methods.len() - m,
            {
                let method = &decl.methods[m];
                m = m + 1;
                if !seen_methods.insert(method.name.clone()) {
                    self.diag.add(
                        method.name_pos.duplicate(),
                        cat(
                            vec![
                                "method ",
                                q(method.name.as_str()).as_str(),
                                " is already declared in interface ",
                                q(decl.name.as_str()).as_str(),
                            ],
                        ),
                    );
                    continue;
                }
                let ghost d_method = self.diag@;
                let return_type = self.resolve_type_ref(&method.return_type);
                let ghost d_method_ret = self.diag@;
                if is_type(&return_type, "noreturn") && method.return_is_bang {
                    self.diag.add(
                        method.return_type.pos.duplicate(),
                        owned("noreturn methods cannot also be errorable"),
                    );
                    continue;
                }
                if is_type(&return_type, "error") && method.return_is_bang {
                    self.diag.add(
                        method.return_type.pos.duplicate(),
                        owned("error methods cannot also be errorable"),
                    );
                    continue;
                }
                let mut method_info = InterfaceMethodInfo {
                    name: method.name.clone(),
                    params: Vec::new(),
                    return_type,
                    errorable: method.return_is_bang,
                };
                let mut valid = true;
                let mut p: usize = 0;
                let ghost method_now = method_info;
                while p < method.params.len()
                    invariant_except_break
                        method_info.params@.len() == p,
                        valid,
                    invariant
                        self.functions@ == old(self).functions@,
                        self.info.functions@ == old(self).info.functions@,
                        self.info.structs@ == old(self).info.structs@,
                        self.info.enums@ == old(self).info.enums@,
                        extends(d0, self.diag@),
                        p <= method.params@.len(),
                        self.info.interfaces@ == interfaces_now,
                        method_info.name == method_now.name,
                        method_info.errorable == method_now.errorable,
                        method_info.return_type == method_now.return_type,
                        extends(d_method_ret, self.diag@),
                        self.diag@.len() == d_method_ret.len() ==> forall|q: int|
                            0 <= q < method_info.params@.len() ==> (#[trigger] method_info.params@[q])@
                                == type_spelling(method.params@[q].type_ref),
                    ensures
                        valid ==> method_info.params@.len() == method.params@.len(),
                        !valid ==> self.diag@.len() > d_method_ret.len(),
                    decreases method.params.len() - p,
                {
                    let param = &method.params[p];
                    let param_type = self.resolve_type_ref(&param.type_ref);
                    if is_valueless(param_type.as_str()) {
                        self.diag.add(
                            param.type_ref.pos.duplicate(),
                            cat(
                                vec![
                                    "parameter ",
                                    q(param.name.as_str()).as_str(),
                                    " cannot use type ",
                                    q(param.type_ref.display().as_str()).as_str(),
                                ],
                            ),
                        );
                        valid = false;
                        break;
                    }
                    method_info.params.push(param_type);
                    p = p + 1;
                }
                if valid {
                    let ghost prior = info.methods@;
                    proof {
                        if self.diag@.len() == d_iface.len() {
                            assert(d_method.len() == d_method_ret.len());
                            assert(decl.methods@[m - 1] == *method);
                            assert(method_info.return_type@ == type_spelling(method.return_type));
                            assert(method_info.name@ == method.name@);
                        }
                    }
                    info.methods.push(method_info);
                    proof {
                        if self.diag@.len() == d_iface.len() {
                            assert(info.methods@ == prior.push(method_info));
                            assert(info.methods@[m - 1] == method_info);
                            assert forall|c: int| 0 <= c < m - 1 implies info.methods@[c] == prior[c] by {}
                        }
                    }
                }
            }
            proof {
                assert(program.interfaces@.subrange(0, d as int)[index] == program.interfaces@[index]);
                assert(interface_recorded(program.interfaces@[index], decl.name@, info));
                if self.diag@.len() == d0.len() {
                    assert(methods_match(program.interfaces@.subrange(0, d as int)[index], info.methods@, decl.methods@.len() as int));
                }
            }
            self.info.interfaces.insert(decl.name.clone(), info);
        }
        proof {
            assert(program.interfaces@.subrange(0, program.interfaces@.len() as int) =~= program.interfaces@);
        }
    }

    fn check_enums(&mut self, program: &Program)
        ensures
            final(self).info.interfaces@ == old(self).info.interfaces@,
            final(self).functions@ == old(self).functions@,
            final(self).info.functions@ == old(self).info.functions@,
            forall|n: Seq<char>|
                #[trigger] old(self).info.structs@.contains_key(n) ==> final(self).info.structs@.contains_key(n),
            forall|n: Seq<char>|
                #[trigger] old(self).info.structs@.contains_key(n) && !payload_struct_name(program.enums@, n)
                    ==> final(self).info.structs@[n] == old(self).info.structs@[n],
            extends(old(self).diag@, final(self).diag@),
            forall|n: Seq<char>|
                #[trigger] old(self).info.enums@.contains_key(n) ==> final(self).info.enums@.contains_key(n)
                    && final(self).info.enums@[n] == old(self).info.enums@[n],
            forall|n: Seq<char>|
                #[trigger] final(self).info.enums@.contains_key(n) && !old(self).info.enums@.contains_key(n)
                    ==> enum_recorded_from(program.enums@, n, final(self).info.enums@[n]),
            forall|i: int|
                0 <= i < program.enums@.len() ==> final(self).info.enums@.contains_key(
                    #[trigger] program.enums@[i].name@,
                ),
    {
        let ghost d0 = self.diag@;
        let ghost before = self.info.enums@;
        let mut d: usize = 0;
        while d < program.enums.len()
            invariant
                self.functions@ == old(self).functions@,
                self.info.functions@ == old(self).info.functions@,
                forall|n: Seq<char>| #[trigger] old(self).info.structs@.contains_key(n) ==> self.info.structs@.contains_key(n),
                forall|n: Seq<char>|
                    #[trigger] old(self).info.structs@.contains_key(n) && !payload_struct_name(program.enums@, n)
                        ==> self.info.structs@[n] == old(self).info.structs@[n],
                self.info.interfaces@ == old(self).info.interfaces@,
                extends(d0, self.diag@),
                d <= program.enums@.len(),
                before == old(self).info.enums@,
                forall|n: Seq<char>|
                    #[trigger] before.contains_key(n) ==> self.info.enums@.contains_key(n)
                        && self.info.enums@[n] == before[n],
                forall|n: Seq<char>|
                    #[trigger] self.info.enums@.contains_key(n) && !before.contains_key(n)
                        ==> enum_recorded_from(program.enums@.subrange(0, d as int), n, self.info.enums@[n]),
                forall|i: int|
                    0 <= i < d ==> self.info.enums@.contains_key(#[trigger] program.enums@[i].name@),
            decreases program.enums.len() - d,
        {
            proof {
                lemma_enum_recorded_from_grows(program.enums@, d as int);
            }
            let decl = &program.enums[d];
            let ghost index = d as int;
            d = d + 1;
            if self.info.enums.contains_key(decl.name.as_str()) {
                continue;
            }
            let mut info = EnumInfo { name: decl.name.clone(), exported: decl.exported, cases: Vec::new() };
            let mut seen_cases = NameSet::new();
            let mut tag: usize = 0;
            let ghost enums_now = self.info.enums@;
            while tag < decl.cases.len()
                invariant
                    self.functions@ == old(self).functions@,
                    self.info.functions@ == old(self).info.functions@,
                    forall|n: Seq<char>| #[trigger] old(self).info.structs@.contains_key(n) ==> self.info.structs@.contains_key(n),
                    forall|n: Seq<char>|
                        #[trigger] old(self).info.structs@.contains_key(n) && !payload_struct_name(program.enums@, n)
                            ==> self.info.structs@[n] == old(self).info.structs@[n],
                    self.info.interfaces@ == old(self).info.interfaces@,
                    extends(d0, self.diag@),
                    tag <= decl.cases@.len(),
                    self.info.enums@ == enums_now,
                    0 <= index < program.enums@.len(),
                    program.enums@[index] == *decl,
                    info.name@ == decl.name@,
                    cases_tagged(*decl, info.cases@),
                    forall|c: int| 0 <= c < info.cases@.len() ==> #[trigger] info.cases@[c].tag < tag,
                    forall|c: int|
                        0 <= c < info.cases@.len() ==> seen_cases@.contains(#[trigger] info.cases@[c].name@),
                decreases decl.cases.len() - tag,
            {
                let enum_case = &decl.cases[tag];
                let this_tag = tag;
                tag = tag + 1;
                if !seen_cases.insert(enum_case.name.clone()) {
                    self.diag.add(
                        enum_case.name_pos.duplicate(),
                        cat(
                            vec![
                                "case ",
                                q(enum_case.name.as_str()).as_str(),
                                " is already declared in enum ",
                                q(decl.name.as_str()).as_str(),
                            ],
                        ),
                    );
                    continue;
                }
                let mut case_info = EnumCaseInfo {
                    name: enum_case.name.clone(),
                    tag: this_tag,
                    payload_type: String::new(),
                    fields: Vec::new(),
                };
                if enum_case.fields.len() > 0 {
                    let payload_name = enum_payload_type_name(
                        decl.name.as_str(),
                        enum_case.name.as_str(),
                    );
                    let mut payload = StructInfo {
                        name: payload_name.clone(),
                        exported: false,
                        resource: false,
                        fields: Vec::new(),
                    };
                    let mut seen_fields = NameSet::new();
                    let mut f: usize = 0;
                    let ghost case_now = case_info;
                    while f < enum_case.fields.len()
                        invariant
                            self.functions@ == old(self).functions@,
                            self.info.functions@ == old(self).info.functions@,
                            forall|n: Seq<char>| #[trigger] old(self).info.structs@.contains_key(n) ==> self.info.structs@.contains_key(n),
                            forall|n: Seq<char>|
                                #[trigger] old(self).info.structs@.contains_key(n) && !payload_struct_name(program.enums@, n)
                                    ==> self.info.structs@[n] == old(self).info.structs@[n],
                            self.info.interfaces@ == old(self).info.interfaces@,
                            extends(d0, self.diag@),
                            f <= enum_case.fields@.len(),
                            self.info.enums@ == enums_now,
                            case_info == case_now,
                        decreases enum_case.fields.len() - f,
                    {
                        let field = &enum_case.fields[f];
                        f = f + 1;
                        if !seen_fields.insert(field.name.clone()) {
                            self.diag.add(
                                field.name_pos.duplicate(),
                                cat(
                                    vec![
                                        "field ",
                                        q(field.name.as_str()).as_str(),
                                        " is already declared in enum case ",
                                        q(enum_case.name.as_str()).as_str(),
                                    ],
                                ),
                            );
                            continue;
                        }
                        let field_type = self.resolve_type_ref(&field.type_ref);
                        if is_valueless(field_type.as_str()) {
                            self.diag.add(
                                field.type_ref.pos.duplicate(),
                                cat(
                                    vec![
                                        "field ",
                                        q(field.name.as_str()).as_str(),
                                        " cannot use type ",
                                        q(field.type_ref.display().as_str()).as_str(),
                                    ],
                                ),
                            );
                            continue;
                        }
                        payload.fields.push(
                            StructField { exported: true, name: field.name.clone(), type_: field_type },
                        );
                    }
                    case_info.payload_type = payload_name.clone();
                    case_info.fields = duplicate_fields(&payload.fields);
                    proof {
                        assert(program.enums@[index] == *decl);
                        assert(decl.cases@[this_tag as int] == *enum_case);
                        assert(payload_name@ == program.enums@[index].name@ + "."@ + program.enums@[index].cases@[this_tag as int].name@);
                        assert(payload_struct_name(program.enums@, payload_name@));
                    }
                    self.info.structs.insert(payload_name, payload);
                }
                info.cases.push(case_info);
            }
            proof {
                assert(program.enums@.subrange(0, d as int)[index] == program.enums@[index]);
                assert(enum_recorded(program.enums@[index], decl.name@, info));
            }
            self.info.enums.insert(decl.name.clone(), info);
        }
        proof {
            assert(program.enums@.subrange(0, program.enums@.len() as int) =~= program.enums@);
        }
    }

    #[verifier::spinoff_prover]
    #[verifier::rlimit(60)]
    fn check_functions(&mut self, program: &Program)
        ensures
            final(self).info.enums@ == old(self).info.enums@,
            final(self).info.structs@ == old(self).info.structs@,
            final(self).info.interfaces@ == old(self).info.interfaces@,
            extends(old(self).diag@, final(self).diag@),
            forall|n: Seq<char>|
                #[trigger] old(self).functions@.contains_key(n) ==> final(self).functions@.contains_key(n)
                    && final(self).functions@[n] == old(self).functions@[n],
            forall|n: Seq<char>|
                #[trigger] final(self).functions@.contains_key(n) && !old(self).functions@.contains_key(n)
                    ==> registered_from(program.functions@, n, final(self).functions@[n])
                    && final(self).info.functions@.contains_key(n) && same_signature(
                    final(self).info.functions@[n],
                    final(self).functions@[n],
                ),
            final(self).diag@.len() == old(self).diag@.len() ==> forall|i: int|
                0 <= i < program.functions@.len() && program.functions@[i].receiver is None
                    ==> final(self).functions@.contains_key(#[trigger] program.functions@[i].name@)
                    && final(self).info.functions@.contains_key(program.functions@[i].name@),
            forall|i: int|
                0 <= i < program.functions@.len() && program.functions@[i].receiver is None
                    ==> final(self).info.functions@.contains_key(#[trigger] program.functions@[i].name@)
                    || declaration_flagged(program.functions@[i], old(self).diag@.len() as int, final(self).diag@),
            forall|n: Seq<char>|
                #[trigger] final(self).info.functions@.contains_key(n) && !old(self).info.functions@.contains_key(n)
                    ==> final(self).function_signatures@.contains_key(n),
            final(self).diag@.len() == old(self).diag@.len() ==> forall|n: Seq<char>|
                #[trigger] final(self).info.functions@.contains_key(n) && !old(self).info.functions@.contains_key(n)
                    ==> registered_exactly(program.functions@, n, final(self).info.functions@[n]),
            forall|n: Seq<char>|
                #[trigger] final(self).info.functions@.contains_key(n) && !old(self).info.functions@.contains_key(n)
                    ==> final(self).functions@.contains_key(n) && same_signature(
                    final(self).info.functions@[n],
                    final(self).functions@[n],
                ),
    {
        let ghost d0 = self.diag@;
        let ghost before = self.functions@;
        let mut fi: usize = 0;
        while fi < program.functions.len()
            invariant
                self.info.structs@ == old(self).info.structs@,
                self.info.enums@ == old(self).info.enums@,
                self.info.interfaces@ == old(self).info.interfaces@,
                extends(d0, self.diag@),
                fi <= program.functions@.len(),
                before == old(self).functions@,
                forall|n: Seq<char>|
                    #[trigger] before.contains_key(n) ==> self.functions@.contains_key(n)
                        && self.functions@[n] == before[n],
                forall|n: Seq<char>|
                    #[trigger] self.functions@.contains_key(n) && !before.contains_key(n)
                        ==> registered_from(program.functions@.subrange(0, fi as int), n, self.functions@[n])
                        && self.info.functions@.contains_key(n) && same_signature(
                        self.info.functions@[n],
                        self.functions@[n],
                    ),
                self.diag@.len() == d0.len() ==> forall|i: int|
                    0 <= i < fi && program.functions@[i].receiver is None
                        ==> self.functions@.contains_key(#[trigger] program.functions@[i].name@)
                        && self.info.functions@.contains_key(program.functions@[i].name@),
                d0 == old(self).diag@,
                forall|i: int|
                    0 <= i < fi && program.functions@[i].receiver is None
                        ==> self.info.functions@.contains_key(#[trigger] program.functions@[i].name@)
                        || declaration_flagged(program.functions@[i], d0.len() as int, self.diag@),
                forall|n: Seq<char>|
                    #[trigger] self.info.functions@.contains_key(n) && !old(self).info.functions@.contains_key(n)
                        ==> self.function_signatures@.contains_key(n),
                self.diag@.len() == d0.len() ==> forall|n: Seq<char>|
                    #[trigger] self.info.functions@.contains_key(n) && !old(self).info.functions@.contains_key(n)
                        ==> registered_exactly(program.functions@.subrange(0, fi as int), n, self.info.functions@[n]),
                forall|n: Seq<char>|
                    #[trigger] self.info.functions@.contains_key(n) && !old(self).info.functions@.contains_key(n)
                        ==> self.functions@.contains_key(n) && same_signature(
                        self.info.functions@[n],
                        self.functions@[n],
                    ),
            decreases program.functions.len() - fi,
        {
            proof {
                lemma_registered_from_grows(program.functions@, fi as int);
                lemma_registered_exactly_grows(program.functions@, fi as int);
            }
            let ghost fstart = self.info.functions@;
            let ghost dstart = self.diag@;
            let ghost here = fi as int;
            let function = &program.functions[fi];
            fi = fi + 1;
            if function.type_params.len() > 0 {
                self.diag.add(
                    function.name_pos.duplicate(),
                    cat(
                        vec![
                            "generic function ",
                            q(function.name.as_str()).as_str(),
                            " must be monomorphized before checking",
                        ],
                    ),
                );
                proof {
                    lemma_free_functions_kept(program.functions@, here, d0.len() as int, dstart, self.diag@, fstart, self.info.functions@);
                    lemma_flagged_at(program.functions@[here], d0.len() as int, self.diag@, dstart.len() as int);
                }
                continue;
            }
            if function.receiver.is_none() && is_builtin_function(function.name.as_str()) {
                self.diag.add(
                    function.name_pos.duplicate(),
                    cat(vec!["function ", q(function.name.as_str()).as_str(), " is already declared"]),
                );
                proof {
                    lemma_free_functions_kept(program.functions@, here, d0.len() as int, dstart, self.diag@, fstart, self.info.functions@);
                    lemma_flagged_at(program.functions@[here], d0.len() as int, self.diag@, dstart.len() as int);
                }
                continue;
            }
            let ghost d_ret = self.diag@;
            let return_type = self.resolve_type_ref(&function.return_type);
            let ghost d_ret_after = self.diag@;
            let mut sig = Signature {
                name: function.name.clone(),
                package: package_for_function(function.name.as_str()),
                full_name: function.name.clone(),
                method: false,
                receiver: String::new(),
                params: Vec::new(),
                return_type,
                errorable: function.return_is_bang,
                builtin: false,
                host_intrinsic: function.host_intrinsic,
                exported: function.exported,
            };
            if is_type(&sig.return_type, "noreturn") && sig.errorable {
                self.diag.add(
                    function.return_type.pos.duplicate(),
                    owned("noreturn functions cannot also be errorable"),
                );
            }
            if is_type(&sig.return_type, "error") && sig.errorable {
                self.diag.add(
                    function.return_type.pos.duplicate(),
                    owned("error functions cannot also be errorable"),
                );
            }
            match &function.receiver {
                Some(receiver) => {
                    let receiver_type = self.resolve_method_receiver_type(&receiver.type_ref);
                    if is_type(&receiver_type, "") {
                        proof {
                            lemma_free_functions_kept(program.functions@, here, d0.len() as int, dstart, self.diag@, fstart, self.info.functions@);
                        }
                        continue;
                    }
                    sig.method = true;
                    sig.receiver = receiver_type.clone();
                    sig.full_name = method_full_name(receiver_type.as_str(), function.name.as_str());
                    sig.package = package_for_method_receiver(receiver_type.as_str());
                    sig.params.push(receiver_type);
                },
                None => {
                    if self.functions.contains_key(function.name.as_str()) {
                        self.diag.add(
                            function.name_pos.duplicate(),
                            cat(
                                vec![
                                    "function ",
                                    q(function.name.as_str()).as_str(),
                                    " is already declared",
                                ],
                            ),
                        );
                        proof {
                            lemma_free_functions_kept(program.functions@, here, d0.len() as int, dstart, self.diag@, fstart, self.info.functions@);
                            assert(program.functions@[here] == *function);
                            lemma_flagged_at(program.functions@[here], d0.len() as int, self.diag@, self.diag@.len() - 1);
                        }
                        continue;
                    }
                },
            }
            let mut seen_params = NameSet::new();
            match &function.receiver {
                Some(receiver) => {
                    seen_params.insert(receiver.name.clone());
                },
                None => {},
            }
            let mut valid_params = true;
            let mut p: usize = 0;
            let ghost sig0 = sig;
            let ghost functions_now = self.functions@;
            let ghost info_now = self.info;
            let ghost sigs_now = self.function_signatures@;
            let ghost dp = self.diag@;
            while p < function.params.len()
                invariant
                    self.info.structs@ == old(self).info.structs@,
                    dp.len() <= self.diag@.len(),
                    !valid_params ==> self.diag@.len() > dp.len() && declaration_flagged(*function, dp.len() as int, self.diag@),
                    extends(dp, self.diag@),
                    self.info.enums@ == old(self).info.enums@,
                    self.info.interfaces@ == old(self).info.interfaces@,
                    extends(d0, self.diag@),
                    p <= function.params@.len(),
                    self.functions@ == functions_now,
                    self.info == info_now,
                    self.function_signatures@ == sigs_now,
                    sig.name == sig0.name,
                    sig.full_name == sig0.full_name,
                    sig.method == sig0.method,
                    sig.builtin == sig0.builtin,
                    sig.errorable == sig0.errorable,
                    sig.host_intrinsic == sig0.host_intrinsic,
                    sig.exported == sig0.exported,
                    sig.receiver == sig0.receiver,
                    sig.return_type == sig0.return_type,
                    valid_params ==> sig.params@.len() == sig0.params@.len() + p,
                    sig0.params@.len() == 0 && valid_params && self.diag@.len() == dp.len() ==> forall|q: int|
                        0 <= q < sig.params@.len() ==> (#[trigger] sig.params@[q])@ == type_spelling(
                            function.params@[q].type_ref,
                        ),
                decreases function.params.len() - p,
            {
                let param = &function.params[p];
                let ghost pj = p as int;
                let ghost dit = self.diag@;
                p = p + 1;
                let param_type = self.resolve_type_ref(&param.type_ref);
                proof {
                    if !valid_params {
                        lemma_flagged_kept(*function, dp.len() as int, dp.len() as int, dit, self.diag@);
                    }
                }
                if is_valueless(param_type.as_str()) {
                    self.diag.add(
                        param.type_ref.pos.duplicate(),
                        cat(
                            vec![
                                "parameter ",
                                q(param.name.as_str()).as_str(),
                                " cannot use type ",
                                q(param.type_ref.display().as_str()).as_str(),
                            ],
                        ),
                    );
                    proof {
                        assert(function.params@[pj] == *param);
                        assert(at_declaration(*function, self.diag@[self.diag@.len() - 1].pos));
                        lemma_flagged_at(*function, dp.len() as int, self.diag@, self.diag@.len() - 1);
                    }
                    valid_params = false;
                    continue;
                }
                if !seen_params.insert(param.name.clone()) {
                    self.diag.add(
                        param.name_pos.duplicate(),
                        cat(vec!["duplicate parameter ", q(param.name.as_str()).as_str()]),
                    );
                    proof {
                        assert(function.params@[pj] == *param);
                        assert(at_declaration(*function, self.diag@[self.diag@.len() - 1].pos));
                        lemma_flagged_at(*function, dp.len() as int, self.diag@, self.diag@.len() - 1);
                    }
                    valid_params = false;
                    continue;
                }
                sig.params.push(param_type);
            }
            if !valid_params {
                proof {
                    lemma_free_functions_kept(program.functions@, here, d0.len() as int, dstart, self.diag@, fstart, self.info.functions@);
                    lemma_flagged_kept(program.functions@[here], d0.len() as int, dp.len() as int, self.diag@, self.diag@);
                }
                continue;
            }
            if sig.method {
                let receiver_base = method_receiver_base_type(sig.receiver.as_str());
                if self.lookup_method_for_base(receiver_base.as_str(), function.name.as_str()) {
                    self.diag.add(
                        function.name_pos.duplicate(),
                        cat(
                            vec![
                                "method ",
                                q(function.name.as_str()).as_str(),
                                " is already declared for ",
                                q(receiver_base.as_str()).as_str(),
                            ],
                        ),
                    );
                    proof {
                        lemma_free_functions_kept(program.functions@, here, d0.len() as int, dstart, self.diag@, fstart, self.info.functions@);
                    }
                    continue;
                }
                let mut methods = match self.info.methods.get(sig.receiver.as_str()) {
                    Some(m) => m.copy(),
                    None => NameMap::new(),
                };
                methods.insert(function.name.clone(), sig.clone());
                self.info.methods.insert(sig.receiver.clone(), methods);
                self.function_signatures.insert(function_signature_key(function), sig);
            } else {
                let ghost index = fi - 1;
                proof {
                    assert(program.functions@.subrange(0, fi as int)[index] == program.functions@[index]);
                    assert(registers(program.functions@[index], function.name@, sig));
                    if self.diag@.len() == d0.len() {
                        assert(d_ret.len() == d_ret_after.len());
                        assert(signature_spelled(program.functions@.subrange(0, fi as int)[index], sig));
                    }
                }
                self.functions.insert(function.name.clone(), sig.duplicate());
                self.info.functions.insert(function.name.clone(), sig.duplicate());
                self.function_signatures.insert(function_signature_key(function), sig);
            }
            proof {
                lemma_free_functions_kept(program.functions@, here, d0.len() as int, dstart, self.diag@, fstart, self.info.functions@);
            }
        }
        proof {
            assert(program.functions@.subrange(0, program.functions@.len() as int) =~= program.functions@);
        }
    }

    fn check_main(&mut self, program: &Program)
        ensures
            final(self).info == old(self).info,
            final(self).functions@ == old(self).functions@,
            final(self).function_signatures@ == old(self).function_signatures@,
            extends(old(self).diag@, final(self).diag@),
            !old(self).functions@.contains_key("main"@) ==> final(self).diag@ == old(self).diag@.push(
                DiagnosticView { pos: program.package_pos@, message: "missing main function"@ },
            ),
            old(self).functions@.contains_key("main"@) && (old(self).functions@["main"@].builtin
                || old(self).functions@["main"@].return_type@ != "i32"@) ==> final(self).diag@
                == old(self).diag@.push(
                DiagnosticView { pos: program.package_pos@, message: "main must return i32 or !i32"@ },
            ),
            old(self).functions@.contains_key("main"@) && !old(self).functions@["main"@].builtin
                && old(self).functions@["main"@].return_type@ == "i32"@ ==> final(self).diag@
                == old(self).diag@,
    {
        let ghost d0 = self.diag@;
        match self.functions.get("main") {
            Some(sig) => {
                if !(!sig.builtin && is_type(&sig.return_type, "i32")) {
                    self.diag.add(
                        program.package_pos.duplicate(),
                        owned("main must return i32 or !i32"),
                    );
                }
            },
            None => {
                self.diag.add(program.package_pos.duplicate(), owned("missing main function"));
            },
        }
    }

    fn check_function_bodies(&mut self, program: &Program)
        ensures
            (exists|i: int|
                0 <= i < program.functions@.len() && #[trigger] falls_through(*old(self), program.functions@[i]))
                ==> final(self).diag@.len() > old(self).diag@.len(),
            final(self).info.enums@ == old(self).info.enums@,
            final(self).functions@ == old(self).functions@,
            final(self).info.structs@ == old(self).info.structs@,
            final(self).info.functions@ == old(self).info.functions@,
            final(self).info.interfaces@ == old(self).info.interfaces@,
            extends(old(self).diag@, final(self).diag@),
            forall|i: int, j: int|
                0 <= i < program.functions@.len() && body_checked(*old(self), program.functions@[i]) && 0 <= j
                    < program.functions@[i].body.stmts@.len() ==> loop_control_reported(
                    #[trigger] program.functions@[i].body.stmts@[j],
                    old(self).diag@.len() as int,
                    final(self).diag@,
                ),
    {
        let ghost d0 = self.diag@;
        let mut fi: usize = 0;
        while fi < program.functions.len()
            invariant
                self.info.structs@ == old(self).info.structs@,
                self.info.functions@ == old(self).info.functions@,
                self.functions@ == old(self).functions@,
                self.function_signatures@ == old(self).function_signatures@,
                (exists|i: int| 0 <= i < fi && #[trigger] falls_through(*old(self), program.functions@[i]))
                    ==> self.diag@.len() > d0.len(),
                self.info.enums@ == old(self).info.enums@,
                self.info.interfaces@ == old(self).info.interfaces@,
                extends(d0, self.diag@),
                fi <= program.functions@.len(),
                d0 == old(self).diag@,
                forall|i: int, j: int|
                    0 <= i < fi && body_checked(*old(self), program.functions@[i]) && 0 <= j
                        < program.functions@[i].body.stmts@.len() ==> loop_control_reported(
                        #[trigger] program.functions@[i].body.stmts@[j],
                        d0.len() as int,
                        self.diag@,
                    ),
            decreases program.functions.len() - fi,
        {
            let function = &program.functions[fi];
            let ghost here = fi as int;
            fi = fi + 1;
            let key = function_signature_key(function);
            let signature = match self.function_signatures.get(key.as_str()) {
                Some(s) => s.duplicate(),
                None => {
                    proof {
                        assert(!body_checked(*old(self), program.functions@[here]));
                    }
                    continue;
                },
            };
            let ghost before = self.diag@;
            self.check_function_body(function, signature);
            proof {
                assert forall|i: int, j: int|
                    0 <= i < fi && body_checked(*old(self), program.functions@[i]) && 0 <= j
                        < program.functions@[i].body.stmts@.len() implies loop_control_reported(
                    #[trigger] program.functions@[i].body.stmts@[j],
                    d0.len() as int,
                    self.diag@,
                ) by {
                    if i < here {
                        lemma_loop_control_kept(program.functions@[i].body.stmts@[j], d0.len() as int, d0.len() as int, before, self.diag@);
                    } else {
                        lemma_loop_control_kept(program.functions@[i].body.stmts@[j], d0.len() as int, before.len() as int, self.diag@, self.diag@);
                    }
                }
            }
            proof {
                if exists|i: int| 0 <= i < fi && #[trigger] falls_through(*old(self), program.functions@[i]) {
                    let i = choose|i: int| 0 <= i < fi && #[trigger] falls_through(*old(self), program.functions@[i]);
                    if i < fi - 1 {
                        assert(exists|j: int|
                            0 <= j < fi - 1 && #[trigger] falls_through(*old(self), program.functions@[j]));
                    }
                }
            }
        }
    }

    /// Records an error name (with a code assigned at the end of checking).
    pub(crate) fn record_error(&mut self, name: &str)
        ensures
            frame_kept(*old(self), *final(self)),
            final(self).diag@ == old(self).diag@,
            final(self).in_function == old(self).in_function,
            final(self).info.error_codes@.contains_key(name@),
            forall|n: Seq<char>|
                old(self).info.error_codes@.contains_key(n) ==> final(self).info.error_codes@.contains_key(n),
            forall|n: Seq<char>|
                final(self).info.error_codes@.contains_key(n) ==> n == name@ || old(self).info.error_codes@.contains_key(n),
    {
        let ghost d0 = self.diag@;
        if !self.info.error_codes.contains_key(name) {
            self.info.error_codes.insert(owned(name), 0);
        }
    }

    /// Records the error names that a host intrinsic can report.
    pub fn register_host_error_names(&mut self, signature: &Signature)
        ensures
            frame_kept(*old(self), *final(self)),
            extends(old(self).diag@, final(self).diag@),
            forall|n: Seq<char>|
                old(self).info.error_codes@.contains_key(n) ==> final(self).info.error_codes@.contains_key(n),
            signature.host_intrinsic && process_intrinsic_name(signature.full_name@) ==> {
                &&& final(self).info.error_codes@.contains_key("IO"@)
                &&& final(self).info.error_codes@.contains_key("InvalidArgument"@)
                &&& final(self).info.error_codes@.contains_key("LimitExceeded"@)
                &&& final(self).info.error_codes@.contains_key("NotFound"@)
                &&& final(self).info.error_codes@.contains_key("PermissionDenied"@)
                &&& final(self).info.error_codes@.contains_key("Timeout"@)
                &&& final(self).info.error_codes@.contains_key("Cancelled"@)
            },
            signature.host_intrinsic && signature.full_name@ == "env.lookup"@ ==> {
                &&& final(self).info.error_codes@.contains_key("IO"@)
                &&& final(self).info.error_codes@.contains_key("InvalidArgument"@)
                &&& final(self).info.error_codes@.contains_key("NotFound"@)
                &&& final(self).info.error_codes@.contains_key("PermissionDenied"@)
                &&& forall|n: Seq<char>|
                    final(self).info.error_codes@.contains_key(n) ==> old(self).info.error_codes@.contains_key(n) || n == "IO"@ || n == "InvalidArgument"@
                        || n == "NotFound"@ || n == "PermissionDenied"@
            },
    {
        if !signature.host_intrinsic {
            return;
        }
        let name = signature.full_name.as_str();
        proof {
            reveal_strlit("env.lookup");
            reveal_strlit("process.run");
            reveal_strlit("process.run_inherit");
            assert("env.lookup"@[0] == 'e');
            assert("process.run"@[0] == 'p');
            assert("process.run_inherit"@[0] == 'p');
        }
        if is_process_host_intrinsic(name) {
            self.record_error("IO");
            self.record_error("InvalidArgument");
            self.record_error("LimitExceeded");
            self.record_error("NotFound");
            self.record_error("PermissionDenied");
            self.record_error("Timeout");
            self.record_error("Cancelled");
            assert(signature.full_name@ != "env.lookup"@);
            return;
        }
        if is_env_host_intrinsic(name) {
            self.record_error("IO");
            self.record_error("InvalidArgument");
            self.record_error("NotFound");
            self.record_error("PermissionDenied");
            return;
        }
        if is_fs_host_intrinsic(name) {
            self.record_error("AlreadyExists");
            self.record_error("Closed");
            self.record_error("IO");
            self.record_error("InvalidArgument");
            self.record_error("InvalidPath");
            self.record_error("NotFound");
            self.record_error("PermissionDenied");
            return;
        }
        if is_net_host_intrinsic(name) {
            self.record_error("AddrInUse");
            self.record_error("Closed");
            self.record_error("ConnectionRefused");
            self.record_error("ConnectionReset");
            self.record_error("IO");
            self.record_error("InvalidArgument");
            self.record_error("NotFound");
            self.record_error("PermissionDenied");
            self.record_error("Timeout");
        }
    }

    /// Numbers the recorded errors 1, 2, ... in ascending name order.
    fn assign_error_codes(&mut self)
        ensures
            final(self).info.enums@ == old(self).info.enums@,
            final(self).functions@ == old(self).functions@,
            final(self).info.structs@ == old(self).info.structs@,
            final(self).info.functions@ == old(self).info.functions@,
            final(self).info.interfaces@ == old(self).info.interfaces@,
            extends(old(self).diag@, final(self).diag@),
            error_table_numbered(final(self).info),
            forall|k: Seq<char>|
                final(self).info.error_codes@.contains_key(k) <==> old(self).info.error_codes@.contains_key(k),
    {
        let ghost d0 = self.diag@;
        let ghost codes0 = self.info.error_codes@;
        let mut ordered: Vec<String> = Vec::new();
        let n = self.info.error_codes.len();
        let mut i: usize = 0;
        while i < n
            invariant
                self.functions@ == old(self).functions@,
                self.info.structs@ == old(self).info.structs@,
                self.info.functions@ == old(self).info.functions@,
                self.info.enums@ == old(self).info.enums@,
                self.info.interfaces@ == old(self).info.interfaces@,
                extends(d0, self.diag@),
                n == self.info.error_codes.size(),
                n == self.info.error_codes.key_order().len(),
                i <= n,
                self.info.error_codes@ == codes0,
                name_views(ordered@) == self.info.error_codes.key_order().subrange(0, i as int),
            decreases n - i,
        {
            let (name, _) = self.info.error_codes.entry(i);
            let name = name.clone();
            assert(name@ == self.info.error_codes.key_order()[i as int]);
            let ghost prefix = ordered@;
            assert(name_views(prefix).len() == i);
            ordered.push(name);
            proof {
                assert(ordered@ == prefix.push(name));
                assert(ordered@[i as int]@ == self.info.error_codes.key_order()[i as int]);
                assert(name_views(ordered@)[i as int] == self.info.error_codes.key_order()[i as int]);
                assert(name_views(ordered@) =~= self.info.error_codes.key_order().subrange(0, i + 1));
            }
            i = i + 1;
        }
        proof {
            assert(name_views(ordered@) =~= self.info.error_codes.key_order());
        }
        crate::text::sort_names(&mut ordered);
        let ghost sorted = ordered@;
        let mut idx: usize = 0;
        while idx < ordered.len()
            invariant
                self.functions@ == old(self).functions@,
                self.info.structs@ == old(self).info.structs@,
                self.info.functions@ == old(self).info.functions@,
                self.info.enums@ == old(self).info.enums@,
                self.info.interfaces@ == old(self).info.interfaces@,
                extends(d0, self.diag@),
                ordered@ == sorted,
                idx <= ordered@.len(),
                names_sorted(sorted),
                name_views(sorted).no_duplicates(),
                forall|k: Seq<char>| name_views(sorted).contains(k) <==> codes0.contains_key(k),
                forall|k: Seq<char>| self.info.error_codes@.contains_key(k) <==> codes0.contains_key(k),
                forall|t: int|
                    0 <= t < idx ==> #[trigger] self.info.error_codes@[sorted[t]@] == ((t + 1) as i32)
                        && self.info.error_display_names@.contains_key(sorted[t]@)
                        && self.info.error_display_names@[sorted[t]@]@ == sorted[t]@,
            decreases ordered.len() - idx,
        {
            let code: i32 = (idx + 1) as i32;
            proof {
                assert(name_views(sorted)[idx as int] == sorted[idx as int]@);
                assert(name_views(sorted).contains(sorted[idx as int]@));
                assert forall|t: int| 0 <= t < idx implies sorted[t]@ != sorted[idx as int]@ by {
                    assert(name_views(sorted)[t] == sorted[t]@);
                }
            }
            self.info.error_codes.insert(ordered[idx].clone(), code);
            self.info.error_display_names.insert(ordered[idx].clone(), ordered[idx].clone());
            idx = idx + 1;
        }
        self.info.ordered_errors = ordered;
    }

    /// The checked type a type reference names, reporting what is wrong with it.
    pub(crate) fn resolve_type_ref(&mut self, r: &TypeRef) -> (t: String)
        ensures
            final(self).current == old(self).current,
            final(self).functions@ == old(self).functions@,
            final(self).info == old(self).info,
            frame_kept(*old(self), *final(self)),
            extends(old(self).diag@, final(self).diag@),
            type_names_nonempty(*r) && t@ == ""@ ==> final(self).diag@.len() > old(self).diag@.len(),
            final(self).diag@.len() == old(self).diag@.len() ==> t@ == type_spelling(*r),
            final(self).struct_decls == old(self).struct_decls,
            final(self).interface_decls == old(self).interface_decls,
            final(self).enum_decls == old(self).enum_decls,
            final(self).diag@.len() == old(self).diag@.len() <==> type_valid(declared_type_names(*old(self)), *r),
        decreases r,
    {
        let ghost d0 = self.diag@;
        proof {
            reveal_strlit("");
            reveal_strlit("[");
            reveal_strlit("map[");
            reveal_strlit("chan[");
            reveal_strlit("fn(");
            reveal_strlit("!");
            reveal_strlit("*");
            reveal_strlit("[]");
        }
        match r.kind {
            TypeRefKind::Errorable => {
                let elem = match &r.elem {
                    Some(e) => e,
                    None => {
                        self.diag.add(r.pos.duplicate(), owned("errorable type is missing an element type"));
                        return String::new();
                    },
                };
                let elem_type = self.resolve_type_ref(elem);
                if is_type(&elem_type, "noreturn") || is_type(&elem_type, "") {
                    self.diag.add(
                        r.pos.duplicate(),
                        cat(vec!["errorable value type ", q(elem.display().as_str()).as_str(), " is not allowed"]),
                    );
                    return String::new();
                }
                if starts_with(elem_type.as_str(), "!") {
                    self.diag.add(r.pos.duplicate(), owned("nested errorable value types are not allowed"));
                    return String::new();
                }
                let spelled = concat("!", elem_type.as_str());
                assert(spelled@ != ""@) by {
                    assert(spelled@.len() >= 1);
                }
                spelled
            },
            TypeRefKind::Pointer => {
                let elem = match &r.elem {
                    Some(e) => e,
                    None => {
                        self.diag.add(r.pos.duplicate(), owned("pointer type is missing an element type"));
                        return String::new();
                    },
                };
                let elem_type = self.resolve_type_ref(elem);
                if is_valueless(elem_type.as_str()) {
                    self.diag.add(
                        r.pos.duplicate(),
                        cat(vec!["pointer target type ", q(elem.display().as_str()).as_str(), " is not allowed"]),
                    );
                    return String::new();
                }
                let spelled = concat("*", elem_type.as_str());
                assert(spelled@ != ""@) by {
                    assert(spelled@.len() >= 1);
                }
                spelled
            },
            TypeRefKind::Slice => {
                let elem = match &r.elem {
                    Some(e) => e,
                    None => {
                        self.diag.add(r.pos.duplicate(), owned("slice type is missing an element type"));
                        return String::new();
                    },
                };
                let elem_type = self.resolve_type_ref(elem);
                if is_type(&elem_type, "noreturn") || is_type(&elem_type, "") {
                    self.diag.add(
                        r.pos.duplicate(),
                        cat(vec!["slice element type ", q(elem.display().as_str()).as_str(), " is not allowed"]),
                    );
                    return String::new();
                }
                let spelled = concat("[]", elem_type.as_str());
                assert(spelled@ != ""@) by {
                    assert(spelled@.len() >= 2);
                }
                spelled
            },
            TypeRefKind::Array => {
                if r.array_len < 0 || r.array_len > 2147483647 {
                    self.diag.add(
                        r.pos.duplicate(),
                        cat(vec!["array length ", i64_decimal(r.array_len).as_str(), " is out of range"]),
                    );
                    return String::new();
                }
                let elem = match &r.elem {
                    Some(e) => e,
                    None => {
                        self.diag.add(r.pos.duplicate(), owned("array type is missing an element type"));
                        return String::new();
                    },
                };
                let elem_type = self.resolve_type_ref(elem);
                if is_valueless(elem_type.as_str()) {
                    self.diag.add(
                        r.pos.duplicate(),
                        cat(vec!["array element type ", q(elem.display().as_str()).as_str(), " is not allowed"]),
                    );
                    return String::new();
                }
                let mut spelled = concat3("[", i64_decimal(r.array_len).as_str(), "]");
                spelled.append(elem_type.as_str());
                assert(spelled@ != ""@) by {
                    assert(spelled@.len() >= 1);
                }
                spelled
            },
            TypeRefKind::MapType => {
                let (key, value) = match (&r.key, &r.value) {
                    (Some(k), Some(v)) => (k, v),
                    _ => {
                        self.diag.add(r.pos.duplicate(), owned("map type is incomplete"));
                        return String::new();
                    },
                };
                let key_type = self.resolve_type_ref(key);
                if !is_map_key_type(key_type.as_str()) {
                    self.diag.add(
                        r.pos.duplicate(),
                        cat(
                            vec![
                                "map key type ",
                                q(key.display().as_str()).as_str(),
                                " is not supported; must be bool, i32, i64, or str",
                            ],
                        ),
                    );
                    return String::new();
                }
                let value_type = self.resolve_type_ref(value);
                if is_valueless(value_type.as_str()) {
                    self.diag.add(
                        r.pos.duplicate(),
                        cat(vec!["map value type ", q(value.display().as_str()).as_str(), " is not allowed"]),
                    );
                    return String::new();
                }
                let mut spelled = concat3("map[", key_type.as_str(), "]");
                spelled.append(value_type.as_str());
                assert(spelled@ != ""@) by {
                    assert(spelled@.len() >= 4);
                }
                spelled
            },
            TypeRefKind::Chan => {
                let elem = match &r.elem {
                    Some(e) => e,
                    None => {
                        self.diag.add(r.pos.duplicate(), owned("channel type is missing an element type"));
                        return String::new();
                    },
                };
                let elem_type = self.resolve_type_ref(elem);
                if is_valueless(elem_type.as_str()) || starts_with(elem_type.as_str(), "chan[")
                    || starts_with(elem_type.as_str(), "!") {
                    self.diag.add(
                        r.pos.duplicate(),
                        cat(vec!["channel element type ", q(elem.display().as_str()).as_str(), " is not allowed"]),
                    );
                    return String::new();
                }
                let spelled = concat3("chan[", elem_type.as_str(), "]");
                assert(spelled@ != ""@) by {
                    assert(spelled@.len() >= 5);
                }
                spelled
            },
            TypeRefKind::Function => {
                let mut params: Vec<String> = Vec::new();
                let mut valid = true;
                let mut i: usize = 0;
                while i < r.params.len()
                    invariant
                        frame_kept(*old(self), *self),
                        extends(d0, self.diag@),
                        i <= r.params@.len(),
                        !valid ==> self.diag@.len() > d0.len(),
                        self.functions@ == old(self).functions@,
                        self.info == old(self).info,
                        self.current == old(self).current,
                        valid ==> params@.len() == i,
                        valid && self.diag@.len() == d0.len() ==> forall|k: int|
                            0 <= k < i ==> #[trigger] params@[k]@ == type_spelling(r.params@[k]),
                        self.struct_decls == old(self).struct_decls,
                        self.interface_decls == old(self).interface_decls,
                        self.enum_decls == old(self).enum_decls,
                        valid ==> (self.diag@.len() == d0.len() <==> types_valid(
                            declared_type_names(*old(self)),
                            r.params@.subrange(0, i as int),
                        )),
                        !valid ==> !types_valid(declared_type_names(*old(self)), r.params@),
                    ensures
                        valid ==> i == r.params@.len(),
                    decreases r.params.len() - i,
                {
                    assert(decreases_to!(r => r.params@[i as int]));
                    let param = &r.params[i];
                    let ghost d_param = self.diag@;
                    let param_type = self.resolve_type_ref(param);
                    proof {
                        let k = declared_type_names(*old(self));
                        let pre = r.params@.subrange(0, i as int);
                        let next = r.params@.subrange(0, i + 1);
                        assert(next.drop_last() =~= pre);
                        assert(next.last() == r.params@[i as int]);
                        lemma_types_valid_prefix(k, r.params@, i as int);
                    }
                    if is_valueless(param_type.as_str()) {
                        self.diag.add(
                            param.pos.duplicate(),
                            cat(
                                vec![
                                    "function parameter type ",
                                    q(param.display().as_str()).as_str(),
                                    " is not allowed",
                                ],
                            ),
                        );
                        valid = false;
                        break;
                    }
                    params.push(param_type);
                    i = i + 1;
                }
                if !valid {
                    return String::new();
                }
                let return_type = match &r.return_type {
                    Some(t) => t,
                    None => {
                        self.diag.add(r.pos.duplicate(), owned("function type is missing a return type"));
                        return String::new();
                    },
                };
                let ghost d_loop = self.diag@;
                let ghost before_ret = *self;
                proof {
                    assert(r.params@.subrange(0, r.params@.len() as int) =~= r.params@);
                    assert(declared_type_names(before_ret) =~= declared_type_names(*old(self)));
                }
                let ret_type = self.resolve_type_ref(return_type);
                let ghost d_ret = self.diag@;
                if is_type(&ret_type, "noreturn") && r.errorable {
                    self.diag.add(r.pos.duplicate(), owned("noreturn functions cannot also be errorable"));
                    return String::new();
                }
                if is_type(&ret_type, "error") && r.errorable {
                    self.diag.add(r.pos.duplicate(), owned("error functions cannot also be errorable"));
                    return String::new();
                }
                let spelled = calls::format_function_type(&params, ret_type.as_str(), r.errorable);
                proof {
                    if self.diag@.len() == d0.len() {
                        lemma_joined_spellings(params@, r.params@);
                    }
                }
                assert(spelled@.len() >= 3) by {
                    assert(spelled@.subrange(0, 3) =~= "fn("@);
                }
                assert(spelled@ != ""@);
                proof {
                    assert(d0.len() <= d_loop.len() <= d_ret.len() <= self.diag@.len());
                    assert(self.diag@.len() == d0.len() <==> type_valid(declared_type_names(*old(self)), *r));
                }
                spelled
            },
            TypeRefKind::Named => {
                let spelled = self.resolve_named_type_ref(r);
                assert(type_names_nonempty(*r) && spelled@ == ""@ ==> self.diag@.len() > d0.len());
                spelled
            },
        }
    }

    fn resolve_named_type_ref(&mut self, r: &TypeRef) -> (t: String)
        ensures
            final(self).current == old(self).current,
            final(self).functions@ == old(self).functions@,
            final(self).info == old(self).info,
            frame_kept(*old(self), *final(self)),
            extends(old(self).diag@, final(self).diag@),
            r.name@.len() > 0 && t@ == ""@ ==> final(self).diag@.len() > old(self).diag@.len(),
            final(self).diag@.len() == old(self).diag@.len() ==> t@ == r.name@,
            final(self).struct_decls == old(self).struct_decls,
            final(self).interface_decls == old(self).interface_decls,
            final(self).enum_decls == old(self).enum_decls,
            final(self).diag@.len() == old(self).diag@.len() <==> r.type_args@.len() == 0 && (
            self::types::builtin_type_spec(r.name@) || declared_type_names(*old(self)).contains(r.name@)),
    {
        proof {
            reveal_strlit("");
        }
        let ghost d0 = self.diag@;
        if r.type_args.len() > 0 {
            self.diag.add(
                r.pos.duplicate(),
                cat(
                    vec![
                        "generic type ",
                        q(r.display().as_str()).as_str(),
                        " must be monomorphized before checking",
                    ],
                ),
            );
            return String::new();
        }
        let name = r.name.as_str();
        if is_builtin_type(name) || self.struct_decls.contains_key(name)
            || self.info.structs.contains_key(name) || self.interface_decls.contains_key(name)
            || self.enum_decls.contains_key(name) {
            return r.name.clone();
        }
        self.diag.add(r.pos.duplicate(), cat(vec!["unknown type ", q(r.display().as_str()).as_str()]));
        String::new()
    }

    fn resolve_method_receiver_type(&mut self, r: &TypeRef) -> (t: String)
        ensures
            final(self).functions@ == old(self).functions@,
            final(self).function_signatures@ == old(self).function_signatures@,
            final(self).info == old(self).info,
            extends(old(self).diag@, final(self).diag@),
            t@.len() > 0 ==> old(self).info.structs@.contains_key(receiver_base(t@)),
            t@.len() == 0 && type_names_nonempty(*r) ==> final(self).diag@.len() > old(self).diag@.len(),
    {
        proof {
            reveal_strlit("");
        }
        let ghost d0 = self.diag@;
        let t = self.resolve_type_ref(r);
        if is_type(&t, "") {
            return String::new();
        }
        assert(t@.len() > 0) by {
            if t@.len() == 0 {
                assert(t@ =~= ""@);
            }
        }
        let base = method_receiver_base_type(t.as_str());
        if self.info.structs.contains_key(base.as_str()) {
            return t;
        }
        self.diag.add(
            r.pos.duplicate(),
            owned("method receiver must be a named struct type or pointer to one"),
        );
        String::new()
    }

    /// Whether some receiver with the struct base `base` has a method `name`.
    pub(crate) fn lookup_method_for_base(&self, base: &str, name: &str) -> (b: bool)
        ensures
            b == exists|receiver: Seq<char>|
                #![trigger self.info.methods@[receiver]]
                self.info.methods@.contains_key(receiver) && receiver_base(receiver) == base@
                    && self.info.methods@[receiver]@.contains_key(name@),
    {
        let n = self.info.methods.len();
        let mut i: usize = 0;
        while i < n
            invariant
                n == self.info.methods.size(),
                i <= n,
                self.info.methods.key_order().len() == n,
                forall|k: Seq<char>|
                    self.info.methods@.contains_key(k) <==> self.info.methods.key_order().contains(k),
                forall|j: int|
                    0 <= j < i ==> {
                        let receiver = #[trigger] self.info.methods.key_order()[j];
                        !(receiver_base(receiver) == base@ && self.info.methods@[receiver]@.contains_key(
                            name@,
                        ))
                    },
            decreases n - i,
        {
            let (receiver, methods) = self.info.methods.entry(i);
            let receiver_base_name = method_receiver_base_type(receiver.as_str());
            if str_eq(receiver_base_name.as_str(), base) && methods.contains_key(name) {
                return true;
            }
            i = i + 1;
        }
        proof {
            assert forall|receiver: Seq<char>|
                #![trigger self.info.methods@[receiver]]
                self.info.methods@.contains_key(receiver) implies !(receiver_base(receiver) == base@
                    && self.info.methods@[receiver]@.contains_key(name@)) by {
                let keys = self.info.methods.key_order();
                assert(keys.contains(receiver));
                let j = choose|j: int| 0 <= j < keys.len() && keys[j] == receiver;
                assert(keys[j] == receiver);
            }
        }
        false
    }

    fn check_type_cycles(&mut self, program: &Program)
        ensures
            final(self).info == old(self).info,
            final(self).functions@ == old(self).functions@,
            extends(old(self).diag@, final(self).diag@),
    {
        let ghost d0 = self.diag@;
        let mut visiting = NameSet::new();
        let mut visited = NameSet::new();
        let mut i: usize = 0;
        while i < program.structs.len()
            invariant
                self.functions@ == old(self).functions@,
                self.info == old(self).info,
                extends(d0, self.diag@),
                i <= program.structs@.len(),
            decreases program.structs.len() - i,
        {
            let fuel = program_type_count(program);
            self.visit_type_for_cycles(program, program.structs[i].name.as_str(), &mut visiting, &mut visited, fuel);
            i = i + 1;
        }
        let mut i: usize = 0;
        while i < program.enums.len()
            invariant
                self.functions@ == old(self).functions@,
                self.info == old(self).info,
                extends(d0, self.diag@),
                i <= program.enums@.len(),
            decreases program.enums.len() - i,
        {
            let fuel = program_type_count(program);
            self.visit_type_for_cycles(program, program.enums[i].name.as_str(), &mut visiting, &mut visited, fuel);
            i = i + 1;
        }
    }

    /// Depth-first search for value-type cycles; `fuel` bounds the depth, which
    /// never exceeds the number of declared types since each is visited once.
    fn visit_type_for_cycles(
        &mut self,
        program: &Program,
        name: &str,
        visiting: &mut NameSet,
        visited: &mut NameSet,
        fuel: usize,
    )
        ensures
            final(self).functions@ == old(self).functions@,
            extends(old(self).diag@, final(self).diag@),
            final(self).info == old(self).info,
            final(self).struct_decls == old(self).struct_decls,
            final(self).enum_decls == old(self).enum_decls,
            final(visiting)@ == old(visiting)@,
            old(visited)@.subset_of(final(visited)@),
            old(visited)@.contains(name@) ==> final(visited)@ == old(visited)@ && final(self).diag@
                == old(self).diag@,
            !old(visited)@.contains(name@) && !old(visiting)@.contains(name@) && fuel > 0
                ==> final(visited)@.contains(name@),
            !old(visited)@.contains(name@) && old(visiting)@.contains(name@) ==> final(visited)@
                == old(visited)@ && (if old(self).struct_decls@.contains_key(name@) {
                if old(self).struct_decls@[name@] < program.structs@.len() {
                    final(self).diag@.len() == old(self).diag@.len() + 1
                } else {
                    final(self).diag@ == old(self).diag@
                }
            } else if old(self).enum_decls@.contains_key(name@) && old(self).enum_decls@[name@]
                < program.enums@.len() {
                final(self).diag@.len() == old(self).diag@.len() + 1
            } else {
                final(self).diag@ == old(self).diag@
            }),
        decreases fuel,
    {
        let ghost d0 = self.diag@;
        if visited.contains(name) {
            return;
        }
        if visiting.contains(name) {
            match self.struct_decls.get(name) {
                Some(idx) => {
                    if *idx < program.structs.len() {
                        self.diag.add(
                            program.structs[*idx].name_pos.duplicate(),
                            cat(
                                vec![
                                    "struct ",
                                    q(diagnostic_type_name(name).as_str()).as_str(),
                                    " cannot contain itself recursively",
                                ],
                            ),
                        );
                    }
                },
                None => match self.enum_decls.get(name) {
                    Some(idx) => {
                        if *idx < program.enums.len() {
                            self.diag.add(
                                program.enums[*idx].name_pos.duplicate(),
                                cat(
                                    vec![
                                        "enum ",
                                        q(diagnostic_type_name(name).as_str()).as_str(),
                                        " cannot contain itself recursively",
                                    ],
                                ),
                            );
                        }
                    },
                    None => {},
                },
            }
            return;
        }
        if fuel == 0 {
            return;
        }
        visiting.insert(owned(name));
        let deps = self.value_type_dependencies(program, name);
        let mut i: usize = 0;
        while i < deps.len()
            invariant
                self.functions@ == old(self).functions@,
                self.info == old(self).info,
                self.struct_decls == old(self).struct_decls,
                self.enum_decls == old(self).enum_decls,
                visiting@ == old(visiting)@.insert(name@),
                old(visited)@.subset_of(visited@),
                i <= deps@.len(),
                fuel > 0,
                extends(d0, self.diag@),
            decreases deps.len() - i,
        {
            self.visit_type_for_cycles(program, deps[i].as_str(), visiting, visited, fuel - 1);
            i = i + 1;
        }
        visiting.remove(name);
        visited.insert(owned(name));
        assert(visiting@ =~= old(visiting)@);
    }

    fn value_type_dependencies(&self, program: &Program, name: &str) -> (out: Vec<String>)
        ensures
            name_views(out@) == (if self.struct_decls@.contains_key(name@) {
                let idx = self.struct_decls@[name@];
                if idx < program.structs@.len() {
                    field_dependencies(*self, program.structs@[idx as int].fields@)
                } else {
                    Seq::empty()
                }
            } else if self.enum_decls@.contains_key(name@) {
                let idx = self.enum_decls@[name@];
                if idx < program.enums@.len() {
                    case_dependencies(*self, program.enums@[idx as int].cases@)
                } else {
                    Seq::empty()
                }
            } else {
                Seq::empty()
            }),
    {
        let mut out: Vec<String> = Vec::new();
        assert(name_views(out@) =~= Seq::<Seq<char>>::empty());
        match self.struct_decls.get(name) {
            Some(idx) => {
                if *idx < program.structs.len() {
                    let decl = &program.structs[*idx];
                    let mut f: usize = 0;
                    while f < decl.fields.len()
                        invariant
                            f <= decl.fields@.len(),
                            name_views(out@) == field_dependencies(*self, decl.fields@.subrange(0, f as int)),
                        decreases decl.fields.len() - f,
                    {
                        assert(decl.fields@.subrange(0, f + 1).drop_last() =~= decl.fields@.subrange(0, f as int));
                        self.type_ref_value_dependencies(&decl.fields[f].type_ref, &mut out);
                        f = f + 1;
                    }
                    assert(decl.fields@.subrange(0, decl.fields@.len() as int) =~= decl.fields@);
                }
                return out;
            },
            None => {},
        }
        match self.enum_decls.get(name) {
            Some(idx) => {
                if *idx < program.enums.len() {
                    let decl = &program.enums[*idx];
                    let mut c: usize = 0;
                    while c < decl.cases.len()
                        invariant
                            c <= decl.cases@.len(),
                            name_views(out@) == case_dependencies(*self, decl.cases@.subrange(0, c as int)),
                        decreases decl.cases.len() - c,
                    {
                        let case = &decl.cases[c];
                        let ghost before = name_views(out@);
                        let mut f: usize = 0;
                        while f < case.fields.len()
                            invariant
                                f <= case.fields@.len(),
                                name_views(out@) == before + field_dependencies(
                                    *self,
                                    case.fields@.subrange(0, f as int),
                                ),
                            decreases case.fields.len() - f,
                        {
                            assert(case.fields@.subrange(0, f + 1).drop_last() =~= case.fields@.subrange(0, f as int));
                            self.type_ref_value_dependencies(&case.fields[f].type_ref, &mut out);
                            proof {
                                let prev = field_dependencies(*self, case.fields@.subrange(0, f as int));
                                let add = dependency_seq(value_dependency(*self, case.fields@[f as int].type_ref));
                                assert(before + prev + add =~= before + (prev + add));
                            }
                            f = f + 1;
                        }
                        assert(case.fields@.subrange(0, case.fields@.len() as int) =~= case.fields@);
                        assert(decl.cases@.subrange(0, c + 1).drop_last() =~= decl.cases@.subrange(0, c as int));
                        c = c + 1;
                    }
                    assert(decl.cases@.subrange(0, decl.cases@.len() as int) =~= decl.cases@);
                }
            },
            None => {},
        }
        out
    }

    fn type_ref_value_dependencies(&self, r: &TypeRef, out: &mut Vec<String>)
        ensures
            name_views(final(out)@) == name_views(old(out)@) + dependency_seq(value_dependency(*self, *r)),
        decreases r,
    {
        match r.kind {
            TypeRefKind::Errorable | TypeRefKind::Array => match &r.elem {
                Some(elem) => self.type_ref_value_dependencies(elem, out),
                None => {
                    assert(name_views(out@) =~= name_views(out@) + Seq::<Seq<char>>::empty());
                },
            },
            TypeRefKind::Named => {
                if self.struct_decls.contains_key(r.name.as_str()) || self.enum_decls.contains_key(
                    r.name.as_str(),
                ) {
                    out.push(r.name.clone());
                    assert(name_views(out@) =~= name_views(old(out)@) + seq![r.name@]);
                } else {
                    assert(name_views(out@) =~= name_views(out@) + Seq::<Seq<char>>::empty());
                }
            },
            _ => {
                assert(name_views(out@) =~= name_views(out@) + Seq::<Seq<char>>::empty());
            },
        }
    }
}

/// The declared struct or enum that a value of the type `r` holds in place, if any.
pub open spec fn value_dependency(c: Checker, r: TypeRef) -> Option<Seq<char>>
    decreases r,
{
    match r.kind {
        TypeRefKind::Errorable | TypeRefKind::Array => match r.elem {
            Some(e) => value_dependency(c, *e),
            None => None,
        },
        TypeRefKind::Named => if c.struct_decls@.contains_key(r.name@) || c.enum_decls@.contains_key(r.name@) {
            Some(r.name@)
        } else {
            None
        },
        _ => None,
    }
}

/// The name held by an optional dependency, as a sequence of at most one.
pub open spec fn dependency_seq(d: Option<Seq<char>>) -> Seq<Seq<char>> {
    match d {
        Some(n) => seq![n],
        None => Seq::empty(),
    }
}

/// The value dependencies of declared fields, in order.
pub open spec fn field_dependencies(c: Checker, fields: Seq<crate::ast::StructField>) -> Seq<Seq<char>>
    decreases fields.len(),
{
    if fields.len() == 0 {
        Seq::empty()
    } else {
        field_dependencies(c, fields.drop_last()) + dependency_seq(value_dependency(c, fields.last().type_ref))
    }
}

/// The value dependencies of the fields of declared enum cases, in order.
pub open spec fn case_dependencies(c: Checker, cases: Seq<crate::ast::EnumCaseDecl>) -> Seq<Seq<char>>
    decreases cases.len(),
{
    if cases.len() == 0 {
        Seq::empty()
    } else {
        case_dependencies(c, cases.drop_last()) + field_dependencies(c, cases.last().fields@)
    }
}

/// Whether `function` has a recorded signature, so that its body is checked.
pub open spec fn body_checked(c: Checker, function: crate::ast::FunctionDecl) -> bool {
    let key = match function.receiver {
        Some(r) => receiver_base(crate::ast::type_text(r.type_ref)) + "."@ + function.name@,
        None => function.name@,
    };
    c.function_signatures@.contains_key(key)
}

/// Whether `n` names the payload struct of a case of one of `enums`.
pub open spec fn payload_struct_name(enums: Seq<EnumDecl>, n: Seq<char>) -> bool {
    exists|i: int, c: int|
        0 <= i < enums.len() && 0 <= c < enums[i].cases@.len() && n == (#[trigger] enums[i]).name@ + "."@
            + (#[trigger] enums[i].cases@[c]).name@
}

/// Whether the recorded signature of `function` owes a value and its body may
/// reach its end without returning.
pub open spec fn falls_through(c: Checker, function: crate::ast::FunctionDecl) -> bool {
    let key = match function.receiver {
        Some(r) => receiver_base(crate::ast::type_text(r.type_ref)) + "."@ + function.name@,
        None => function.name@,
    };
    &&& c.function_signatures@.contains_key(key)
    &&& c.function_signatures@[key].return_type@ != "void"@
    &&& !self::body::block_exits_from(c.functions@, function.body, 0, false)
}

/// Whether a name is one of the process host intrinsics.
pub open spec fn process_intrinsic_name(n: Seq<char>) -> bool {
    n == "process.run"@ || n == "process.run_inherit"@
}

fn program_type_count(program: &Program) -> (n: usize)
    ensures
        program.structs@.len() + program.enums@.len() + 1 <= usize::MAX ==> n == program.structs@.len()
            + program.enums@.len() + 1,
        program.structs@.len() + program.enums@.len() + 1 > usize::MAX ==> n == usize::MAX,
{
    let a = program.structs.len();
    let b = program.enums.len();
    if b < usize::MAX && a < usize::MAX - b {
        a + b + 1
    } else {
        usize::MAX
    }
}

} // verus!
