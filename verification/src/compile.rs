//! Compiling checked programs to units of IR, and test discovery with the
//! generated test runner for `yar test`.
use vstd::prelude::*;

use crate::ast::{FunctionDecl, PackageGraph, PackageId, PackageImport, Program, SourceId, TypeRefKind};
use crate::checker::Info;
use crate::codegen::{emit_llvm_with_options, lowered_module, opt_str_view};
use crate::codegen::names::CodegenError;
use crate::text::{decimal, ends_with, starts_with, str_eq, usize_decimal};

verus! {

/// A discovered test function.
#[derive(Debug, PartialEq, Eq)]
pub struct TestFunction {
    pub name: String,
}

/// The import path that binds the standard testing package.
pub open spec fn testing_import_path() -> Seq<char> {
    "std/testing"@
}

/// Whether an import binds the standard library's `testing` package.
pub open spec fn is_testing_import_spec(import: PackageImport) -> bool {
    &&& import.path@ == testing_import_path()
    &&& import.target.source is Stdlib
    &&& import.target.subpath@ == "testing"@
}

/// Whether a source file is a test file: its name ends in `_test.yar`.
pub open spec fn is_test_file_spec(program: Program) -> bool {
    let f = program.package_pos.file@;
    let suffix = "_test.yar"@;
    suffix.len() <= f.len() && f.subrange(f.len() - suffix.len(), f.len() as int) == suffix
}

/// Whether a function is a test: its name starts with `test_`, it is a plain
/// non-generic function taking exactly one `*testing.T` and returning `void`
/// without an error.
pub open spec fn is_test_function_spec(function: FunctionDecl) -> bool {
    let prefix = "test_"@;
    &&& prefix.len() <= function.name@.len()
    &&& function.name@.subrange(0, prefix.len() as int) == prefix
    &&& function.receiver is None
    &&& function.type_params@.len() == 0
    &&& function.params@.len() == 1
    &&& function.params@[0].type_ref.kind == TypeRefKind::Pointer
    &&& function.params@[0].type_ref.elem matches Some(elem) && elem.kind == TypeRefKind::Named
        && elem.name@ == "testing.T"@
    &&& function.return_type.kind == TypeRefKind::Named
    &&& function.return_type.name@ == "void"@
    &&& !function.return_is_bang
}

/// Whether two package identities are the same.
pub open spec fn same_package(a: PackageId, b: PackageId) -> bool {
    &&& a.subpath@ == b.subpath@
    &&& match (a.source, b.source) {
        (SourceId::Entry, SourceId::Entry) => true,
        (SourceId::Stdlib, SourceId::Stdlib) => true,
        (SourceId::Path { manifest_path: x }, SourceId::Path { manifest_path: y }) => x@ == y@,
        (SourceId::Git { git: g1, commit: c1 }, SourceId::Git { git: g2, commit: c2 }) => g1@
            == g2@ && c1@ == c2@,
        _ => false,
    }
}

/// The index of the first package of the graph with the entry identity, if any.
pub open spec fn entry_index(graph: PackageGraph) -> Option<int> {
    if exists|i: int|
        0 <= i < graph.packages@.len() && same_package(#[trigger] graph.packages@[i].id, graph.entry) {
        Some(
            choose|i: int|
                0 <= i < graph.packages@.len() && same_package(
                    #[trigger] graph.packages@[i].id,
                    graph.entry,
                ) && forall|j: int|
                    0 <= j < i ==> !same_package(graph.packages@[j].id, graph.entry),
        )
    } else {
        None
    }
}

/// The names of the test functions of the given functions, in order.
pub open spec fn tests_in_functions(fs: Seq<FunctionDecl>) -> Seq<Seq<char>>
    decreases fs.len(),
{
    if fs.len() == 0 {
        Seq::empty()
    } else {
        tests_in_functions(fs.drop_last()) + if is_test_function_spec(fs.last()) {
            seq![fs.last().name@]
        } else {
            Seq::empty()
        }
    }
}

/// The names of the test functions of the test files among `files`, in order.
pub open spec fn tests_in_files(files: Seq<Program>) -> Seq<Seq<char>>
    decreases files.len(),
{
    if files.len() == 0 {
        Seq::empty()
    } else {
        tests_in_files(files.drop_last()) + if is_test_file_spec(files.last()) {
            tests_in_functions(files.last().functions@)
        } else {
            Seq::empty()
        }
    }
}

/// The tests of a package graph: none unless the entry package imports the
/// standard testing package; otherwise the test functions of its test files.
pub open spec fn discovered_tests(graph: PackageGraph, entry: int) -> Seq<Seq<char>> {
    let package = graph.packages@[entry];
    if exists|k: int|
        0 <= k < package.imports@.len() && is_testing_import_spec(#[trigger] package.imports@[k]) {
        tests_in_files(package.files@)
    } else {
        Seq::empty()
    }
}

/// A test function of a run of functions is listed among its tests.
proof fn lemma_test_in_functions(fs: Seq<FunctionDecl>, j: int)
    requires
        0 <= j < fs.len(),
        is_test_function_spec(fs[j]),
    ensures
        tests_in_functions(fs).contains(fs[j].name@),
    decreases fs.len(),
{
    let rest = tests_in_functions(fs.drop_last());
    if j == fs.len() - 1 {
        assert(tests_in_functions(fs) == rest + seq![fs[j].name@]);
        assert(tests_in_functions(fs)[rest.len() as int] == fs[j].name@);
    } else {
        lemma_test_in_functions(fs.drop_last(), j);
        assert(fs.drop_last()[j] == fs[j]);
        let w = choose|w: int| 0 <= w < rest.len() && rest[w] == fs[j].name@;
        assert(tests_in_functions(fs)[w] == fs[j].name@);
    }
}

/// A test of a test file of a run of files is listed among their tests.
proof fn lemma_test_in_files(files: Seq<Program>, i: int, name: Seq<char>)
    requires
        0 <= i < files.len(),
        is_test_file_spec(files[i]),
        tests_in_functions(files[i].functions@).contains(name),
    ensures
        tests_in_files(files).contains(name),
    decreases files.len(),
{
    let rest = tests_in_files(files.drop_last());
    if i == files.len() - 1 {
        let own = tests_in_functions(files[i].functions@);
        assert(tests_in_files(files) == rest + own);
        let w = choose|w: int| 0 <= w < own.len() && own[w] == name;
        assert(tests_in_files(files)[rest.len() + w] == name);
    } else {
        assert(files.drop_last()[i] == files[i]);
        lemma_test_in_files(files.drop_last(), i, name);
        let w = choose|w: int| 0 <= w < rest.len() && rest[w] == name;
        assert(tests_in_files(files)[w] == name);
    }
}

/// In a package that imports `std/testing`, a function of a file whose name ends
/// in `_test.yar` is discovered as a test when it is named `test_...`, has no
/// receiver and no type parameters, takes exactly one `*testing.T` and returns
/// plain `void`, not `!void`.
pub proof fn lemma_plain_test_discovered(graph: PackageGraph, e: int, i: int, j: int)
    requires
        0 <= e < graph.packages@.len(),
        exists|k: int|
            0 <= k < graph.packages@[e].imports@.len() && {
                let import = #[trigger] graph.packages@[e].imports@[k];
                &&& import.path@ == "std/testing"@
                &&& import.target.source is Stdlib
                &&& import.target.subpath@ == "testing"@
            },
        0 <= i < graph.packages@[e].files@.len(),
        ({
            let f = graph.packages@[e].files@[i].package_pos.file@;
            9 <= f.len() && f.subrange(f.len() - 9, f.len() as int) == "_test.yar"@
        }),
        0 <= j < graph.packages@[e].files@[i].functions@.len(),
        ({
            let function = graph.packages@[e].files@[i].functions@[j];
            &&& 5 <= function.name@.len()
            &&& function.name@.subrange(0, 5) == "test_"@
            &&& function.receiver is None
            &&& function.type_params@.len() == 0
            &&& function.params@.len() == 1
            &&& function.params@[0].type_ref.kind == TypeRefKind::Pointer
            &&& function.params@[0].type_ref.elem matches Some(elem) && elem.kind == TypeRefKind::Named
                && elem.name@ == "testing.T"@
            &&& function.return_type.kind == TypeRefKind::Named
            &&& function.return_type.name@ == "void"@
            &&& !function.return_is_bang
        }),
    ensures
        discovered_tests(graph, e).contains(graph.packages@[e].files@[i].functions@[j].name@),
{
    reveal_strlit("_test.yar");
    reveal_strlit("test_");
    let package = graph.packages@[e];
    let k = choose|k: int|
        0 <= k < package.imports@.len() && {
            let import = #[trigger] package.imports@[k];
            &&& import.path@ == "std/testing"@
            &&& import.target.source is Stdlib
            &&& import.target.subpath@ == "testing"@
        };
    assert(is_testing_import_spec(package.imports@[k]));
    assert(is_test_file_spec(package.files@[i]));
    assert(is_test_function_spec(package.files@[i].functions@[j]));
    lemma_test_in_functions(package.files@[i].functions@, j);
    lemma_test_in_files(package.files@, i, package.files@[i].functions@[j].name@);
}

/// Each name listed among the tests of a run of functions is that of one of
/// them that has the shape of a test.
proof fn lemma_listed_in_functions(fs: Seq<FunctionDecl>, name: Seq<char>)
    requires
        tests_in_functions(fs).contains(name),
    ensures
        exists|j: int| 0 <= j < fs.len() && is_test_function_spec(#[trigger] fs[j]) && fs[j].name@ == name,
    decreases fs.len(),
{
    let rest = tests_in_functions(fs.drop_last());
    let w = choose|w: int| 0 <= w < tests_in_functions(fs).len() && tests_in_functions(fs)[w] == name;
    if w < rest.len() {
        assert(rest[w] == name);
        lemma_listed_in_functions(fs.drop_last(), name);
        let j = choose|j: int|
            0 <= j < fs.drop_last().len() && is_test_function_spec(#[trigger] fs.drop_last()[j])
                && fs.drop_last()[j].name@ == name;
        assert(fs[j] == fs.drop_last()[j]);
    } else {
        assert(is_test_function_spec(fs[fs.len() - 1]));
    }
}

/// Each name listed among the tests of a run of files is that of a test of one
/// of its test files.
proof fn lemma_listed_in_files(files: Seq<Program>, name: Seq<char>)
    requires
        tests_in_files(files).contains(name),
    ensures
        exists|i: int|
            0 <= i < files.len() && is_test_file_spec(#[trigger] files[i]) && tests_in_functions(
                files[i].functions@,
            ).contains(name),
    decreases files.len(),
{
    let rest = tests_in_files(files.drop_last());
    let w = choose|w: int| 0 <= w < tests_in_files(files).len() && tests_in_files(files)[w] == name;
    if w < rest.len() {
        assert(rest[w] == name);
        lemma_listed_in_files(files.drop_last(), name);
        let i = choose|i: int|
            0 <= i < files.drop_last().len() && is_test_file_spec(#[trigger] files.drop_last()[i])
                && tests_in_functions(files.drop_last()[i].functions@).contains(name);
        assert(files[i] == files.drop_last()[i]);
    } else {
        let last = files[files.len() - 1];
        assert(is_test_file_spec(last));
        assert(tests_in_functions(last.functions@)[w - rest.len()] == name);
    }
}

/// Each discovered test is the name of a function of a file of the package whose
/// name ends in `_test.yar`, named `test_...`, without receiver or type
/// parameters, taking exactly one `*testing.T` and returning plain `void`; and
/// the package imports `std/testing`.
pub proof fn lemma_discovered_are_plain_tests(graph: PackageGraph, e: int, name: Seq<char>)
    requires
        0 <= e < graph.packages@.len(),
        discovered_tests(graph, e).contains(name),
    ensures
        exists|k: int|
            0 <= k < graph.packages@[e].imports@.len() && {
                let import = #[trigger] graph.packages@[e].imports@[k];
                &&& import.path@ == "std/testing"@
                &&& import.target.source is Stdlib
                &&& import.target.subpath@ == "testing"@
            },
        exists|i: int, j: int|
            0 <= i < graph.packages@[e].files@.len() && 0 <= j < graph.packages@[e].files@[i].functions@.len() && {
                let f = graph.packages@[e].files@[i].package_pos.file@;
                let function = #[trigger] graph.packages@[e].files@[i].functions@[j];
                &&& 9 <= f.len()
                &&& f.subrange(f.len() - 9, f.len() as int) == "_test.yar"@
                &&& function.name@ == name
                &&& 5 <= function.name@.len()
                &&& function.name@.subrange(0, 5) == "test_"@
                &&& function.receiver is None
                &&& function.type_params@.len() == 0
                &&& function.params@.len() == 1
                &&& function.params@[0].type_ref.kind == TypeRefKind::Pointer
                &&& function.params@[0].type_ref.elem matches Some(elem) && elem.kind == TypeRefKind::Named
                    && elem.name@ == "testing.T"@
                &&& function.return_type.kind == TypeRefKind::Named
                &&& function.return_type.name@ == "void"@
                &&& !function.return_is_bang
            },
{
    reveal_strlit("_test.yar");
    reveal_strlit("test_");
    let package = graph.packages@[e];
    if !exists|k: int| 0 <= k < package.imports@.len() && is_testing_import_spec(#[trigger] package.imports@[k]) {
        assert(discovered_tests(graph, e) =~= Seq::<Seq<char>>::empty());
    }
    let k = choose|k: int| 0 <= k < package.imports@.len() && is_testing_import_spec(#[trigger] package.imports@[k]);
    assert(graph.packages@[e].imports@[k].path@ == "std/testing"@);
    lemma_listed_in_files(package.files@, name);
    let i = choose|i: int|
        0 <= i < package.files@.len() && is_test_file_spec(#[trigger] package.files@[i]) && tests_in_functions(
            package.files@[i].functions@,
        ).contains(name);
    lemma_listed_in_functions(package.files@[i].functions@, name);
    let j = choose|j: int|
        0 <= j < package.files@[i].functions@.len() && is_test_function_spec(#[trigger] package.files@[i].functions@[j])
            && package.files@[i].functions@[j].name@ == name;
    assert(graph.packages@[e].files@[i].functions@[j] == package.files@[i].functions@[j]);
}

fn same_source(a: &SourceId, b: &SourceId) -> (r: bool)
    ensures
        r == match (*a, *b) {
            (SourceId::Entry, SourceId::Entry) => true,
            (SourceId::Stdlib, SourceId::Stdlib) => true,
            (SourceId::Path { manifest_path: x }, SourceId::Path { manifest_path: y }) => x@
                == y@,
            (SourceId::Git { git: g1, commit: c1 }, SourceId::Git { git: g2, commit: c2 }) => g1@
                == g2@ && c1@ == c2@,
            _ => false,
        },
{
    match (a, b) {
        (SourceId::Entry, SourceId::Entry) => true,
        (SourceId::Stdlib, SourceId::Stdlib) => true,
        (SourceId::Path { manifest_path: x }, SourceId::Path { manifest_path: y }) => str_eq(
            x.as_str(),
            y.as_str(),
        ),
        (SourceId::Git { git: g1, commit: c1 }, SourceId::Git { git: g2, commit: c2 }) => str_eq(
            g1.as_str(),
            g2.as_str(),
        ) && str_eq(c1.as_str(), c2.as_str()),
        _ => false,
    }
}

/// Whether two package identities are the same.
pub fn same_package_id(a: &PackageId, b: &PackageId) -> (r: bool)
    ensures
        r == same_package(*a, *b),
{
    same_source(&a.source, &b.source) && str_eq(a.subpath.as_str(), b.subpath.as_str())
}

/// Whether an import binds the standard library's `testing` package.
pub fn is_testing_import(import: &PackageImport) -> (r: bool)
    ensures
        r == is_testing_import_spec(*import),
{
    str_eq(import.path.as_str(), "std/testing") && match &import.target.source {
        SourceId::Stdlib => true,
        _ => false,
    } && str_eq(import.target.subpath.as_str(), "testing")
}

/// Whether a source file is a test file.
pub fn is_test_file(program: &Program) -> (r: bool)
    ensures
        r == is_test_file_spec(*program),
{
    ends_with(program.package_pos.file.as_str(), "_test.yar")
}

/// Whether a function has the shape of a test function.
pub fn is_test_function(function: &FunctionDecl) -> (r: bool)
    ensures
        r == is_test_function_spec(*function),
        function.return_is_bang ==> !r,
        function.receiver is Some ==> !r,
        function.type_params@.len() != 0 ==> !r,
        function.params@.len() != 1 ==> !r,
        function.return_type.name@ != "void"@ ==> !r,
        function.name@.len() < 5 || function.name@.subrange(0, 5) != "test_"@ ==> !r,
{
    proof {
        reveal_strlit("test_");
    }
    if !starts_with(function.name.as_str(), "test_") {
        return false;
    }
    if function.receiver.is_some() {
        return false;
    }
    if function.type_params.len() != 0 {
        return false;
    }
    if function.params.len() != 1 {
        return false;
    }
    let param_type = &function.params[0].type_ref;
    if param_type.kind != TypeRefKind::Pointer {
        return false;
    }
    let elem = match &param_type.elem {
        Some(elem) => elem,
        None => return false,
    };
    if elem.kind != TypeRefKind::Named || !str_eq(elem.name.as_str(), "testing.T") {
        return false;
    }
    if function.return_type.kind != TypeRefKind::Named || !str_eq(
        function.return_type.name.as_str(),
        "void",
    ) {
        return false;
    }
    !function.return_is_bang
}

/// The index of the entry package of the graph, if the graph holds it.
pub fn find_entry(graph: &PackageGraph) -> (r: Option<usize>)
    ensures
        match r {
            Some(i) => i < graph.packages@.len() && entry_index(*graph) == Some(i as int),
            None => entry_index(*graph) is None,
        },
{
    let mut i: usize = 0;
    while i < graph.packages.len()
        invariant
            i <= graph.packages@.len(),
            forall|j: int| 0 <= j < i ==> !same_package(graph.packages@[j].id, graph.entry),
        decreases graph.packages.len() - i,
    {
        if same_package_id(&graph.packages[i].id, &graph.entry) {
            proof {
                let w = i as int;
                assert(same_package(graph.packages@[w].id, graph.entry));
                let c = choose|c: int|
                    0 <= c < graph.packages@.len() && same_package(
                        #[trigger] graph.packages@[c].id,
                        graph.entry,
                    ) && forall|j: int|
                        0 <= j < c ==> !same_package(graph.packages@[j].id, graph.entry);
                if c < w {
                } else if c > w {
                    assert(!same_package(graph.packages@[w].id, graph.entry));
                }
            }
            return Some(i);
        }
        i = i + 1;
    }
    None
}

/// The test functions of the entry package, in file order, when the entry package
/// imports the standard testing package; none otherwise.
pub fn discover_test_functions(graph: &PackageGraph) -> (tests: Vec<TestFunction>)
    ensures
        match entry_index(*graph) {
            Some(e) => tests@.map_values(|t: TestFunction| t.name@) == discovered_tests(
                *graph,
                e,
            ),
            None => tests@.len() == 0,
        },
{
    let entry_at = match find_entry(graph) {
        Some(e) => e,
        None => return Vec::new(),
    };
    let entry = &graph.packages[entry_at];
    let mut has_testing = false;
    let mut k: usize = 0;
    while k < entry.imports.len()
        invariant
            k <= entry.imports@.len(),
            has_testing == exists|j: int|
                0 <= j < k && is_testing_import_spec(#[trigger] entry.imports@[j]),
        decreases entry.imports.len() - k,
    {
        if is_testing_import(&entry.imports[k]) {
            has_testing = true;
        }
        k = k + 1;
    }
    if !has_testing {
        let t: Vec<TestFunction> = Vec::new();
        assert(t@.map_values(|t: TestFunction| t.name@) =~= Seq::<Seq<char>>::empty());
        return t;
    }
    let mut tests: Vec<TestFunction> = Vec::new();
    let mut f: usize = 0;
    while f < entry.files.len()
        invariant
            f <= entry.files@.len(),
            tests@.map_values(|t: TestFunction| t.name@) == tests_in_files(
                entry.files@.subrange(0, f as int),
            ),
        decreases entry.files.len() - f,
    {
        let file = &entry.files[f];
        let ghost before = tests@.map_values(|t: TestFunction| t.name@);
        if is_test_file(file) {
            let mut g: usize = 0;
            while g < file.functions.len()
                invariant
                    g <= file.functions@.len(),
                    tests@.map_values(|t: TestFunction| t.name@) == before + tests_in_functions(
                        file.functions@.subrange(0, g as int),
                    ),
                decreases file.functions.len() - g,
            {
                let function = &file.functions[g];
                let ghost mid = tests@;
                if is_test_function(function) {
                    let t = TestFunction { name: function.name.clone() };
                    tests.push(t);
                    assert(tests@.map_values(|t: TestFunction| t.name@) =~= mid.map_values(
                        |t: TestFunction| t.name@,
                    ) + seq![function.name@]);
                } else {
                    assert(tests@.map_values(|t: TestFunction| t.name@) =~= mid.map_values(
                        |t: TestFunction| t.name@,
                    ) + Seq::<Seq<char>>::empty());
                }
                g = g + 1;
                proof {
                    let cur = file.functions@.subrange(0, g as int);
                    assert(cur.drop_last() =~= file.functions@.subrange(0, g - 1));
                    assert(cur.last() == *function);
                    assert(tests@.map_values(|t: TestFunction| t.name@) =~= before
                        + tests_in_functions(cur));
                }
            }
            assert(file.functions@.subrange(0, file.functions@.len() as int)
                =~= file.functions@);
        }
        f = f + 1;
        proof {
            let cur = entry.files@.subrange(0, f as int);
            assert(cur.drop_last() =~= entry.files@.subrange(0, f - 1));
            assert(tests@.map_values(|t: TestFunction| t.name@) =~= tests_in_files(cur));
        }
    }
    assert(entry.files@.subrange(0, entry.files@.len() as int) =~= entry.files@);
    tests
}

/// The first lines of a runner case: create the `testing.T` value and call the test.
pub open spec fn case_start(v: Seq<char>, name: Seq<char>) -> Seq<char> {
    "    "@ + v + " := &testing.T{name: \""@ + name + "\", failed: false, messages: []str{}}\n"@
        + "    "@ + name + "("@ + v + ")\n"@
}

/// The failure branch of a runner case: print `FAIL:` and each recorded message.
pub open spec fn case_failure(i: Seq<char>, v: Seq<char>, name: Seq<char>) -> Seq<char> {
    "    if (*"@ + v + ").failed {\n"@ + "        print(\"FAIL: "@ + name + "\\n\")\n"@
        + "        i"@ + i + " := 0\n"@ + "        for i"@ + i + " < len((*"@ + v
        + ").messages) {\n"@
}

/// The message loop body and the failure count of a runner case.
pub open spec fn case_messages(i: Seq<char>, v: Seq<char>) -> Seq<char> {
    "            print(\"    \" + (*"@ + v + ").messages[i"@ + i + "] + \"\\n\")\n"@
        + "            i"@ + i + " = i"@ + i + " + 1\n"@ + "        }\n"@
        + "        failed = failed + 1\n"@
}

/// The success branch of a runner case: print `PASS:` and count it.
pub open spec fn case_success(name: Seq<char>) -> Seq<char> {
    "    } else {\n"@ + "        print(\"PASS: "@ + name + "\\n\")\n"@
        + "        passed = passed + 1\n"@ + "    }\n\n"@
}

/// The runner text for the test at `index` named `name`: it creates a fresh
/// `testing.T`, calls the test, and prints `PASS:` or `FAIL:` with its messages.
pub open spec fn runner_case(index: nat, name: Seq<char>) -> Seq<char> {
    let i = decimal(index);
    let v = "t"@ + i;
    case_start(v, name) + case_failure(i, v, name) + case_messages(i, v) + case_success(name)
}

fn append_case_start(src: &mut String, v: &str, name: &str)
    ensures
        final(src)@ == old(src)@ + case_start(v@, name@),
{
    src.append("    ");
    src.append(v);
    src.append(" := &testing.T{name: \"");
    src.append(name);
    src.append("\", failed: false, messages: []str{}}\n");
    src.append("    ");
    src.append(name);
    src.append("(");
    src.append(v);
    src.append(")\n");
    assert(src@ =~= old(src)@ + case_start(v@, name@));
}

fn append_case_failure(src: &mut String, i: &str, v: &str, name: &str)
    ensures
        final(src)@ == old(src)@ + case_failure(i@, v@, name@),
{
    src.append("    if (*");
    src.append(v);
    src.append(").failed {\n");
    src.append("        print(\"FAIL: ");
    src.append(name);
    src.append("\\n\")\n");
    src.append("        i");
    src.append(i);
    src.append(" := 0\n");
    src.append("        for i");
    src.append(i);
    src.append(" < len((*");
    src.append(v);
    src.append(").messages) {\n");
    assert(src@ =~= old(src)@ + case_failure(i@, v@, name@));
}

fn append_case_messages(src: &mut String, i: &str, v: &str)
    ensures
        final(src)@ == old(src)@ + case_messages(i@, v@),
{
    src.append("            print(\"    \" + (*");
    src.append(v);
    src.append(").messages[i");
    src.append(i);
    src.append("] + \"\\n\")\n");
    src.append("            i");
    src.append(i);
    src.append(" = i");
    src.append(i);
    src.append(" + 1\n");
    src.append("        }\n");
    src.append("        failed = failed + 1\n");
    assert(src@ =~= old(src)@ + case_messages(i@, v@));
}

fn append_case_success(src: &mut String, name: &str)
    ensures
        final(src)@ == old(src)@ + case_success(name@),
{
    src.append("    } else {\n");
    src.append("        print(\"PASS: ");
    src.append(name);
    src.append("\\n\")\n");
    src.append("        passed = passed + 1\n");
    src.append("    }\n\n");
    assert(src@ =~= old(src)@ + case_success(name@));
}

/// The runner text for the first `n` tests.
pub open spec fn runner_cases(tests: Seq<TestFunction>, n: nat) -> Seq<char>
    decreases n,
{
    if n == 0 || n > tests.len() {
        Seq::empty()
    } else {
        runner_cases(tests, (n - 1) as nat) + runner_case((n - 1) as nat, tests[n - 1].name@)
    }
}

/// The source of the generated test runner for package `package_name`: a `main`
/// that runs every test in order, counts passes and failures, prints a summary
/// and returns 1 when any test failed.
pub open spec fn test_main_source(package_name: Seq<char>, tests: Seq<TestFunction>) -> Seq<
    char,
> {
    "package "@ + package_name + "\n\n"@ + "import \"std/testing\"\n\n"@ + "fn main() i32 {\n"@
        + "    passed := 0\n"@ + "    failed := 0\n\n"@ + runner_cases(tests, tests.len())
        + "    print(\"\\n\" + to_str(passed) + \" passed, \" + to_str(failed) + \" failed\\n\")\n"@
        + "    if failed > 0 {\n"@ + "        return 1\n"@ + "    }\n"@ + "    return 0\n"@ + "}\n"@
}

/// Whether `text` starts with `prefix`.
pub open spec fn starts_with_text(text: Seq<char>, prefix: Seq<char>) -> bool {
    prefix.len() <= text.len() && text.subrange(0, prefix.len() as int) == prefix
}

/// Whether `text` ends with `suffix`.
pub open spec fn ends_with_text(text: Seq<char>, suffix: Seq<char>) -> bool {
    suffix.len() <= text.len() && text.subrange(text.len() - suffix.len(), text.len() as int) == suffix
}

/// The runner's `main` declares the entry package, imports `std/testing`, starts
/// both counters at zero, and ends by returning 1 when at least one test failed
/// and 0 otherwise.
pub proof fn lemma_test_main_exit_status(package_name: Seq<char>, tests: Seq<TestFunction>)
    ensures
        starts_with_text(
            test_main_source(package_name, tests),
            "package "@ + package_name + "\n\n"@ + "import \"std/testing\"\n\n"@ + "fn main() i32 {\n"@
                + "    passed := 0\n"@ + "    failed := 0\n\n"@,
        ),
        ends_with_text(
            test_main_source(package_name, tests),
            "    if failed > 0 {\n"@ + "        return 1\n"@ + "    }\n"@ + "    return 0\n"@ + "}\n"@,
        ),
{
    let whole = test_main_source(package_name, tests);
    let head = "package "@ + package_name + "\n\n"@ + "import \"std/testing\"\n\n"@ + "fn main() i32 {\n"@
        + "    passed := 0\n"@ + "    failed := 0\n\n"@;
    let tail = "    if failed > 0 {\n"@ + "        return 1\n"@ + "    }\n"@ + "    return 0\n"@ + "}\n"@;
    let middle = runner_cases(tests, tests.len())
        + "    print(\"\\n\" + to_str(passed) + \" passed, \" + to_str(failed) + \" failed\\n\")\n"@;
    assert(whole =~= head + middle + tail);
    assert(whole.subrange(0, head.len() as int) =~= head);
    assert(whole.subrange(whole.len() - tail.len(), whole.len() as int) =~= tail);
}

/// Generates the source of the test runner's `main` for the given tests.
pub fn generate_test_main(package_name: &str, tests: &[TestFunction]) -> (src: String)
    ensures
        src@ == test_main_source(package_name@, tests@),
        starts_with_text(
            src@,
            "package "@ + package_name@ + "\n\n"@ + "import \"std/testing\"\n\n"@ + "fn main() i32 {\n"@
                + "    passed := 0\n"@ + "    failed := 0\n\n"@,
        ),
        ends_with_text(src@, "    if failed > 0 {\n"@ + "        return 1\n"@ + "    }\n"@ + "    return 0\n"@ + "}\n"@),
{
    let mut src = String::new();
    src.append("package ");
    src.append(package_name);
    src.append("\n\n");
    src.append("import \"std/testing\"\n\n");
    src.append("fn main() i32 {\n");
    src.append("    passed := 0\n");
    src.append("    failed := 0\n\n");
    let ghost header = src@;
    let mut index: usize = 0;
    while index < tests.len()
        invariant
            index <= tests@.len(),
            src@ == header + runner_cases(tests@, index as nat),
        decreases tests.len() - index,
    {
        let name = tests[index].name.as_str();
        let i = usize_decimal(index);
        let mut v = String::from_str("t");
        v.append(i.as_str());
        let ghost before = src@;
        append_case_start(&mut src, v.as_str(), name);
        append_case_failure(&mut src, i.as_str(), v.as_str(), name);
        append_case_messages(&mut src, i.as_str(), v.as_str());
        append_case_success(&mut src, name);
        proof {
            assert(src@ =~= before + runner_case(index as nat, tests@[index as int].name@));
        }
        index = index + 1;
    }
    src.append(
        "    print(\"\\n\" + to_str(passed) + \" passed, \" + to_str(failed) + \" failed\\n\")\n",
    );
    let ghost before_exit = src@;
    src.append("    if failed > 0 {\n");
    src.append("        return 1\n");
    src.append("    }\n");
    src.append("    return 0\n");
    src.append("}\n");
    assert(src@ =~= test_main_source(package_name@, tests@));
    proof {
        let tail = "    if failed > 0 {\n"@ + "        return 1\n"@ + "    }\n"@ + "    return 0\n"@ + "}\n"@;
        assert(src@.subrange(0, header.len() as int) =~= header);
        assert(src@ =~= before_exit + tail);
        assert(src@.subrange(src@.len() - tail.len(), src@.len() as int) =~= tail);
    }
    src
}

/// A program that parsed and checked without diagnostics, with what the
/// checker learned of it, ready for code generation.
#[derive(Debug)]
pub struct CheckedProgram {
    pub program: Program,
    pub info: Info,
}

impl CheckedProgram {
    /// The LLVM IR of the program, for the target triple when one is given.
    pub fn emit_llvm(&self, target_triple: Option<&str>) -> (r: Result<Unit, CodegenError>)
        ensures
            r matches Ok(unit) ==> lowered_module(opt_str_view(target_triple), unit.ir@),
    {
        let ir = emit_llvm_with_options(&self.program, &self.info, target_triple)?;
        Ok(Unit { ir })
    }
}

/// A compiled unit: the program's LLVM IR.
#[derive(Clone, Debug, PartialEq, Eq)]
pub struct Unit {
    pub ir: String,
}

/// Why compiling failed after the sources were read: code generation met a
/// construct it does not lower, or an internal step failed.
#[derive(Debug)]
pub enum CompileError {
    Codegen(CodegenError),
    Internal(String),
}

impl From<CodegenError> for CompileError {
    fn from(value: CodegenError) -> (r: CompileError) {
        CompileError::Codegen(value)
    }
}

impl vstd::std_specs::convert::FromSpecImpl<CodegenError> for CompileError {
    open spec fn obeys_from_spec() -> bool {
        true
    }

    open spec fn from_spec(v: CodegenError) -> CompileError {
        CompileError::Codegen(v)
    }
}

} // verus!
