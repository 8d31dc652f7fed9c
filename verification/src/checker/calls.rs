//! Checking calls, builtins, function literals, taskgroups and `spawn`.
use vstd::prelude::*;

use super::types::{
    call_name, diagnostic_type_name, direct_function_literal, function_literal_key, is_map_key_type,
    is_sequence_type, package_display_name, package_for_type, parse_array_type, parse_chan_type,
    parse_errorable_type, parse_map_type, parse_pointer_type, parse_slice_type, array_parts,
    chan_elem, errorable_elem, map_parts, pointer_elem, sequence_elem, slice_elem, strip_entry_package,
};
use super::body::{declares_local, first_case_named, in_taskgroup_body, lemma_first_case_named, lemma_no_case_named, literal_type};
use super::{frame_kept, is_type, q, CallUse, CaptureInfo, Checker, ExprType, FunctionLiteralInfo, Signature, TaskgroupContext};
use crate::ast::{CallExpr, Expression, FunctionLiteralExpr, SpawnStmt, TaskgroupExpr};
use crate::diag::{extends, DiagnosticView};
use crate::names::NameSet;
use crate::text::{
    cat, chars_of, concat, debug_quoted, is_whitespace, unicode_whitespace, lemma_concat_all_pair, lemma_concat_all_six, lemma_concat_all_triple, name_views, owned, string_of_range, str_eq,
    usize_decimal,
};
use crate::token::{Position, PositionView};

verus! {

/// Whether `arg` is a `bool`, string or character literal whose type is not
/// `param`, where `param` is no interface that a value could be converted to.
pub open spec fn literal_argument_mismatch(info: super::Info, arg: Expression, param: Seq<char>) -> bool {
    match literal_type(arg) {
        Some(l) => l != "untyped-int"@ && l != "nil"@ && l != param && !info.interfaces@.contains_key(param),
        None => false,
    }
}

/// Whether some diagnostic at or after index `lo` of `ds` stands at the position of `arg`.
pub open spec fn reported_at(arg: Expression, lo: int, ds: Seq<crate::diag::DiagnosticView>) -> bool {
    exists|k: int| 0 <= k && lo <= k < ds.len() && (#[trigger] ds[k]).pos == crate::ast::expression_pos(arg)
}

proof fn lemma_reported_at_kept(
    args: Seq<Expression>,
    upto: int,
    lo: int,
    ds: Seq<crate::diag::DiagnosticView>,
    ds2: Seq<crate::diag::DiagnosticView>,
    keep: spec_fn(int) -> bool,
)
    requires
        forall|a: int| 0 <= a < upto && keep(a) ==> reported_at(#[trigger] args[a], lo, ds),
        extends(ds, ds2),
    ensures
        forall|a: int| 0 <= a < upto && keep(a) ==> reported_at(#[trigger] args[a], lo, ds2),
{
    assert forall|a: int| 0 <= a < upto && keep(a) implies reported_at(#[trigger] args[a], lo, ds2) by {
        let k = choose|k: int| 0 <= k && lo <= k < ds.len() && (#[trigger] ds[k]).pos == crate::ast::expression_pos(args[a]);
        assert(ds2[k] == ds[k]);
    }
}


/// The parts of a function type `fn(P1, P2) !R`.
#[derive(Clone, Debug)]
pub struct FunctionType {
    pub params: Vec<String>,
    pub return_type: String,
    pub errorable: bool,
}

/// The spelling of a list of types joined by `, `.
pub open spec fn joined(ts: Seq<String>) -> Seq<char>
    decreases ts.len(),
{
    if ts.len() == 0 {
        Seq::empty()
    } else if ts.len() == 1 {
        ts[0]@
    } else {
        joined(ts.drop_last()) + ", "@ + ts.last()@
    }
}

/// The spelling of a function type.
pub open spec fn function_type_text(params: Seq<String>, return_type: Seq<char>, errorable: bool) -> Seq<
    char,
> {
    "fn("@ + joined(params) + ") "@ + (if errorable {
        "!"@
    } else {
        Seq::empty()
    }) + return_type
}

/// Spells a function type: `fn(P1, P2) R`, with `!` before an errorable result.
pub fn format_function_type(params: &Vec<String>, return_type: &str, errorable: bool) -> (s: String)
    ensures
        s@ == function_type_text(params@, return_type@, errorable),
{
    let mut out = owned("fn(");
    let mut i: usize = 0;
    while i < params.len()
        invariant
            i <= params@.len(),
            out@ == "fn("@ + joined(params@.subrange(0, i as int)),
        decreases params.len() - i,
    {
        if i > 0 {
            out.append(", ");
        }
        out.append(params[i].as_str());
        i = i + 1;
        proof {
            let cur = params@.subrange(0, i as int);
            assert(cur.drop_last() =~= params@.subrange(0, i - 1));
            if i == 1 {
                assert(joined(cur) == cur[0]@);
            }
            assert(out@ =~= "fn("@ + joined(cur));
        }
    }
    assert(params@.subrange(0, params@.len() as int) =~= params@);
    out.append(") ");
    if errorable {
        out.append("!");
    }
    out.append(return_type);
    assert(out@ =~= function_type_text(params@, return_type@, errorable));
    out
}

/// The index held by an optional position.
pub open spec fn opt_index(r: Option<usize>) -> Option<int> {
    match r {
        Some(i) => Some(i as int),
        None => None,
    }
}

/// Reading `s` from `i` with `bracket` open brackets and `paren` open
/// parentheses: the position of the first `)` outside any of them.
pub open spec fn closing_paren(s: Seq<char>, i: int, bracket: nat, paren: nat) -> Option<int>
    decreases s.len() - i,
{
    if i < 0 || i >= s.len() {
        None
    } else {
        let c = s[i];
        if c == '[' {
            closing_paren(s, i + 1, bracket + 1, paren)
        } else if c == ']' && bracket > 0 {
            closing_paren(s, i + 1, (bracket - 1) as nat, paren)
        } else if c == '(' {
            closing_paren(s, i + 1, bracket, paren + 1)
        } else if c == ')' && bracket == 0 && paren == 0 {
            Some(i)
        } else if c == ')' && paren > 0 {
            closing_paren(s, i + 1, bracket, (paren - 1) as nat)
        } else {
            closing_paren(s, i + 1, bracket, paren)
        }
    }
}

/// Reading `s` up to `end` from `i`, where the current part began at `start`:
/// the parts between the commas outside brackets and parentheses, trimmed,
/// or `None` where a part is blank.
pub open spec fn split_scan(s: Seq<char>, end: int, i: int, start: int, bracket: nat, paren: nat) -> Option<
    Seq<Seq<char>>,
>
    decreases end - i,
{
    if i >= end {
        let part = trim_spec(s.subrange(start, end));
        if part.len() == 0 {
            None
        } else {
            Some(seq![part])
        }
    } else {
        let c = s[i];
        if c == '[' {
            split_scan(s, end, i + 1, start, bracket + 1, paren)
        } else if c == ']' && bracket > 0 {
            split_scan(s, end, i + 1, start, (bracket - 1) as nat, paren)
        } else if c == '(' {
            split_scan(s, end, i + 1, start, bracket, paren + 1)
        } else if c == ')' && paren > 0 {
            split_scan(s, end, i + 1, start, bracket, (paren - 1) as nat)
        } else if c == ',' && bracket == 0 && paren == 0 {
            let part = trim_spec(s.subrange(start, i));
            if part.len() == 0 {
                None
            } else {
                match split_scan(s, end, i + 1, i + 1, bracket, paren) {
                    Some(rest) => Some(seq![part] + rest),
                    None => None,
                }
            }
        } else {
            split_scan(s, end, i + 1, start, bracket, paren)
        }
    }
}

/// `parts` before what `rest` holds, or nothing where `rest` holds nothing.
pub open spec fn prefixed(parts: Seq<Seq<char>>, rest: Option<Seq<Seq<char>>>) -> Option<Seq<Seq<char>>> {
    match rest {
        Some(r) => Some(parts + r),
        None => None,
    }
}

/// The types listed in `s[a..b]`: none where it is blank, else its top-level parts.
pub open spec fn type_list(s: Seq<char>, a: int, b: int) -> Option<Seq<Seq<char>>> {
    if trim_spec(s.subrange(a, b)).len() == 0 {
        Some(Seq::empty())
    } else {
        split_scan(s, b, a, a, 0, 0)
    }
}

/// The position just after the `)` that closes an opening `(` at the start of
/// the text (the parenthesis itself not included), skipping brackets.
pub fn find_matching_paren(cs: &Vec<char>, from: usize) -> (r: Option<usize>)
    ensures
        match r {
            Some(i) => from <= i < cs@.len() && cs@[i as int] == ')',
            None => true,
        },
        opt_index(r) == closing_paren(cs@, from as int, 0, 0),
{
    let mut bracket_depth: usize = 0;
    let mut paren_depth: usize = 0;
    let mut i: usize = from;
    while i < cs.len()
        invariant
            from <= i <= cs@.len() || i == from,
            bracket_depth <= i,
            paren_depth <= i,
            closing_paren(cs@, from as int, 0, 0) == closing_paren(
                cs@,
                i as int,
                bracket_depth as nat,
                paren_depth as nat,
            ),
        decreases cs.len() - i,
    {
        let c = cs[i];
        if c == '[' {
            bracket_depth = bracket_depth + 1;
        } else if c == ']' && bracket_depth > 0 {
            bracket_depth = bracket_depth - 1;
        } else if c == '(' {
            paren_depth = paren_depth + 1;
        } else if c == ')' && bracket_depth == 0 && paren_depth == 0 {
            return Some(i);
        } else if c == ')' && paren_depth > 0 {
            paren_depth = paren_depth - 1;
        }
        i = i + 1;
    }
    None
}

/// The text of `cs[a..b]` without surrounding whitespace.
fn trimmed(cs: &Vec<char>, a: usize, b: usize) -> (s: String)
    requires
        a <= b <= cs@.len(),
    ensures
        s@ == trim_spec(cs@.subrange(a as int, b as int)),
{
    let mut lo = a;
    let mut hi = b;
    while lo < hi && is_whitespace(cs[lo])
        invariant
            a <= lo <= hi <= b,
            hi == b,
            b <= cs@.len(),
            forall|k: int| a <= k < lo ==> unicode_whitespace(#[trigger] cs@[k]),
        decreases hi - lo,
    {
        lo = lo + 1;
    }
    while hi > lo && is_whitespace(cs[hi - 1])
        invariant
            a <= lo <= hi <= b,
            b <= cs@.len(),
            forall|k: int| a <= k < lo ==> unicode_whitespace(#[trigger] cs@[k]),
            lo < b ==> !unicode_whitespace(cs@[lo as int]),
            forall|k: int| hi <= k < b ==> unicode_whitespace(#[trigger] cs@[k]),
        decreases hi - lo,
    {
        hi = hi - 1;
    }
    proof {
        lemma_trim_spec(cs@.subrange(a as int, b as int), lo - a, hi - a);
        assert(cs@.subrange(a as int, b as int).subrange(lo - a, hi - a) =~= cs@.subrange(lo as int, hi as int));
    }
    string_of_range(cs, lo, hi)
}

/// The first position of `s` that holds no whitespace (its length if there is none).
pub open spec fn first_non_space(s: Seq<char>) -> int
    decreases s.len(),
{
    if s.len() == 0 || !unicode_whitespace(s[0]) {
        0
    } else {
        1 + first_non_space(s.drop_first())
    }
}

/// The length of `s` without its trailing whitespace.
pub open spec fn end_non_space(s: Seq<char>) -> int
    decreases s.len(),
{
    if s.len() == 0 || !unicode_whitespace(s.last()) {
        s.len() as int
    } else {
        end_non_space(s.drop_last())
    }
}

/// `s` without leading and trailing whitespace.
pub open spec fn trim_spec(s: Seq<char>) -> Seq<char> {
    let lo = first_non_space(s);
    let rest = s.subrange(lo, s.len() as int);
    rest.subrange(0, end_non_space(rest))
}

proof fn lemma_first_non_space(s: Seq<char>, lo: int)
    requires
        0 <= lo <= s.len(),
        forall|k: int| 0 <= k < lo ==> unicode_whitespace(#[trigger] s[k]),
        lo < s.len() ==> !unicode_whitespace(s[lo]),
    ensures
        first_non_space(s) == lo,
    decreases s.len(),
{
    if s.len() > 0 && lo > 0 {
        lemma_first_non_space(s.drop_first(), lo - 1);
    }
}

proof fn lemma_end_non_space(s: Seq<char>, hi: int)
    requires
        0 <= hi <= s.len(),
        forall|k: int| hi <= k < s.len() ==> unicode_whitespace(#[trigger] s[k]),
        hi > 0 ==> !unicode_whitespace(s[hi - 1]),
    ensures
        end_non_space(s) == hi,
    decreases s.len(),
{
    if s.len() > hi {
        lemma_end_non_space(s.drop_last(), hi);
    }
}

proof fn lemma_trim_spec(s: Seq<char>, lo: int, hi: int)
    requires
        0 <= lo <= hi <= s.len(),
        forall|k: int| 0 <= k < lo ==> unicode_whitespace(#[trigger] s[k]),
        lo < s.len() ==> !unicode_whitespace(s[lo]),
        forall|k: int| hi <= k < s.len() ==> unicode_whitespace(#[trigger] s[k]),
        hi > lo ==> !unicode_whitespace(s[hi - 1]),
        hi == lo ==> lo == s.len(),
    ensures
        trim_spec(s) == s.subrange(lo, hi),
{
    lemma_first_non_space(s, lo);
    let rest = s.subrange(lo, s.len() as int);
    lemma_end_non_space(rest, hi - lo);
}

/// Splits `cs[a..b]` at the commas that stand outside brackets and parentheses,
/// trimming each part; `None` where a part is empty. Blank text has no parts.
pub fn split_top_level_types(cs: &Vec<char>, a: usize, b: usize) -> (r: Option<Vec<String>>)
    requires
        a <= b <= cs@.len(),
    ensures
        match r {
            Some(parts) => type_list(cs@, a as int, b as int) == Some(name_views(parts@)),
            None => type_list(cs@, a as int, b as int) is None,
        },
{
    let whole = trimmed(cs, a, b);
    if whole.unicode_len() == 0 {
        let none: Vec<String> = Vec::new();
        assert(name_views(none@) =~= Seq::<Seq<char>>::empty());
        return Some(none);
    }
    let mut out: Vec<String> = Vec::new();
    assert(name_views(out@) =~= Seq::<Seq<char>>::empty());
    let mut start = a;
    let mut bracket_depth: usize = 0;
    let mut paren_depth: usize = 0;
    let mut i = a;
    while i < b
        invariant
            a <= start <= i <= b,
            b <= cs@.len(),
            bracket_depth <= i,
            paren_depth <= i,
            trim_spec(cs@.subrange(a as int, b as int)).len() != 0,
            split_scan(cs@, b as int, a as int, a as int, 0, 0) == prefixed(
                name_views(out@),
                split_scan(cs@, b as int, i as int, start as int, bracket_depth as nat, paren_depth as nat),
            ),
        decreases b - i,
    {
        let c = cs[i];
        if c == '[' {
            bracket_depth = bracket_depth + 1;
        } else if c == ']' && bracket_depth > 0 {
            bracket_depth = bracket_depth - 1;
        } else if c == '(' {
            paren_depth = paren_depth + 1;
        } else if c == ')' && paren_depth > 0 {
            paren_depth = paren_depth - 1;
        } else if c == ',' && bracket_depth == 0 && paren_depth == 0 {
            let part = trimmed(cs, start, i);
            if part.unicode_len() == 0 {
                return None;
            }
            let ghost before = out@;
            out.push(part);
            proof {
                assert(name_views(out@) =~= name_views(before) + seq![part@]);
                let rest = split_scan(cs@, b as int, i + 1, i + 1, bracket_depth as nat, paren_depth as nat);
                if rest is Some {
                    assert(name_views(before) + (seq![part@] + rest->0) =~= name_views(out@) + rest->0);
                }
            }
            start = i + 1;
        }
        i = i + 1;
    }
    let part = trimmed(cs, start, b);
    if part.unicode_len() == 0 {
        return None;
    }
    let ghost before = out@;
    out.push(part);
    assert(name_views(out@) =~= name_views(before) + seq![part@]);
    Some(out)
}

/// The parameter types, result type and errorability of a type spelled
/// `fn(P, ...) R` or `fn(P, ...) !R`, where `R` is what follows the `)` after
/// blank space.
pub open spec fn function_type_parts(t: Seq<char>) -> Option<(Seq<Seq<char>>, Seq<char>, bool)> {
    if !(t.len() >= 3 && t.subrange(0, 3) == "fn("@) {
        None
    } else {
        match closing_paren(t, 3, 0, 0) {
            None => None,
            Some(close) => {
                let k = close + 1 + first_non_space(t.subrange(close + 1, t.len() as int));
                if k >= t.len() {
                    None
                } else {
                    let errorable = t[k] == '!';
                    let start = if errorable {
                        k + 1
                    } else {
                        k
                    };
                    if start >= t.len() {
                        None
                    } else {
                        match type_list(t, 3, close) {
                            Some(params) => Some((params, t.subrange(start, t.len() as int), errorable)),
                            None => None,
                        }
                    }
                }
            },
        }
    }
}

/// The parts of a function type spelled `fn(P, ...) R` or `fn(P, ...) !R`.
pub fn parse_function_type(t: &str) -> (r: Option<FunctionType>)
    ensures
        r is Some ==> t@.len() >= 3 && t@.subrange(0, 3) == "fn("@,
        match r {
            Some(ft) => function_type_parts(t@) == Some((name_views(ft.params@), ft.return_type@, ft.errorable)),
            None => function_type_parts(t@) is None,
        },
{
    let cs = chars_of(t);
    if !(cs.len() >= 3 && cs[0] == 'f' && cs[1] == 'n' && cs[2] == '(') {
        proof {
            reveal_strlit("fn(");
            if cs@.len() >= 3 && cs@.subrange(0, 3) == "fn("@ {
                assert(cs@.subrange(0, 3)[0] == cs@[0] && cs@.subrange(0, 3)[1] == cs@[1]
                    && cs@.subrange(0, 3)[2] == cs@[2]);
            }
        }
        return None;
    }
    assert(cs@.subrange(0, 3) =~= "fn("@) by {
        reveal_strlit("fn(");
    }
    let close = match find_matching_paren(&cs, 3) {
        Some(c) => c,
        None => {
            return None;
        },
    };
    let mut k = close + 1;
    while k < cs.len() && is_whitespace(cs[k])
        invariant
            close < k <= cs@.len(),
            forall|j: int| close < j < k ==> unicode_whitespace(#[trigger] cs@[j]),
        decreases cs.len() - k,
    {
        k = k + 1;
    }
    proof {
        let after = cs@.subrange(close + 1, cs@.len() as int);
        assert forall|j: int| 0 <= j < k - (close + 1) implies unicode_whitespace(#[trigger] after[j]) by {
            assert(after[j] == cs@[close + 1 + j]);
        }
        if k < cs@.len() {
            assert(after[k - (close + 1)] == cs@[k as int]);
        }
        lemma_first_non_space(after, k - (close + 1));
    }
    if k >= cs.len() {
        return None;
    }
    let errorable = cs[k] == '!';
    if errorable {
        k = k + 1;
    }
    if k >= cs.len() {
        return None;
    }
    let params = match split_top_level_types(&cs, 3, close) {
        Some(p) => p,
        None => {
            return None;
        },
    };
    Some(FunctionType { params, return_type: string_of_range(&cs, k, cs.len()), errorable })
}

/// The spelling of an expression's type in messages: `!T` when errorable.
pub fn format_expr_type(t: &ExprType) -> (s: String)
    ensures
        t.errorable ==> s@.len() > 0 && s@[0] == '!',
{
    if t.errorable {
        let s = concat("!", diagnostic_type_name(t.base.as_str()).as_str());
        assert(s@.len() > 0 && s@[0] == '!') by {
            reveal_strlit("!");
        }
        s
    } else {
        diagnostic_type_name(t.base.as_str())
    }
}

/// Why a type may not cross a task boundary: the path of fields and elements
/// that leads to the offending type.
#[derive(Clone, Debug)]
pub struct TaskShareSafetyViolation {
    pub path: Vec<String>,
    pub type_: String,
    pub resource: bool,
}

/// The steps of a path joined by ` -> `.
pub open spec fn path_text(steps: Seq<String>) -> Seq<char>
    decreases steps.len(),
{
    if steps.len() <= 1 {
        if steps.len() == 0 {
            Seq::empty()
        } else {
            steps[0]@
        }
    } else {
        path_text(steps.drop_last()) + " -> "@ + steps.last()@
    }
}

/// The message that reports a value that may not cross a task boundary.
pub open spec fn violation_message(v: TaskShareSafetyViolation) -> Seq<char> {
    let spelled = debug_quoted(strip_entry_package(v.type_@, 0, None));
    if v.path@.len() == 0 {
        if v.resource {
            "resource type "@ + spelled + " is not share-safe"@
        } else {
            "type "@ + spelled + " is not share-safe"@
        }
    } else if v.resource {
        path_text(v.path@) + " contains non-share-safe resource type "@ + spelled
    } else {
        path_text(v.path@) + " has non-share-safe type "@ + spelled
    }
}

impl TaskShareSafetyViolation {
    /// A type that is not share-safe in itself.
    pub fn disallowed(type_: &str) -> (v: TaskShareSafetyViolation)
        ensures
            v.path@.len() == 0,
            v.type_@ == type_@,
            !v.resource,
    {
        TaskShareSafetyViolation { path: Vec::new(), type_: owned(type_), resource: false }
    }

    /// A resource struct, which never crosses a task boundary.
    pub fn resource(type_: &str) -> (v: TaskShareSafetyViolation)
        ensures
            v.path@.len() == 0,
            v.type_@ == type_@,
            v.resource,
    {
        TaskShareSafetyViolation { path: Vec::new(), type_: owned(type_), resource: true }
    }

    /// The same violation one step further out.
    pub fn prepend(self, segment: String) -> (v: TaskShareSafetyViolation)
        ensures
            v.path@ == seq![segment].add(self.path@),
            v.type_ == self.type_,
            v.resource == self.resource,
    {
        let mut v = self;
        v.path.insert(0, segment);
        assert(v.path@ =~= seq![segment].add(self.path@));
        v
    }

    /// The explanation shown in the diagnostic.
    pub fn describe(&self) -> (s: String)
        ensures
            s@ == violation_message(*self),
    {
        let spelled = q(diagnostic_type_name(self.type_.as_str()).as_str());
        if self.path.len() == 0 {
            if self.resource {
                let parts = vec!["resource type ", spelled.as_str(), " is not share-safe"];
                proof {
                    lemma_concat_all_triple(parts@);
                }
                return cat(parts);
            }
            let parts = vec!["type ", spelled.as_str(), " is not share-safe"];
            proof {
                lemma_concat_all_triple(parts@);
            }
            return cat(parts);
        }
        let mut path = String::new();
        let mut i: usize = 0;
        while i < self.path.len()
            invariant
                i <= self.path@.len(),
                i > 0 ==> path@ == path_text(self.path@.subrange(0, i as int)),
                i == 0 ==> path@.len() == 0,
            decreases self.path.len() - i,
        {
            proof {
                let cur = self.path@.subrange(0, i + 1);
                assert(cur.drop_last() =~= self.path@.subrange(0, i as int));
            }
            if i > 0 {
                path.append(" -> ");
            }
            path.append(self.path[i].as_str());
            i = i + 1;
        }
        assert(self.path@.subrange(0, self.path@.len() as int) =~= self.path@);
        if self.resource {
            let parts = vec![path.as_str(), " contains non-share-safe resource type ", spelled.as_str()];
            proof {
                lemma_concat_all_triple(parts@);
            }
            cat(parts)
        } else {
            let parts = vec![path.as_str(), " has non-share-safe type ", spelled.as_str()];
            proof {
                lemma_concat_all_triple(parts@);
            }
            cat(parts)
        }
    }
}

/// A copy of a signature for a call of a function value.
fn function_value_signature(function_type: FunctionType, package: String) -> (sig: Signature)
    ensures
        sig.name@ == "function value"@,
        sig.params@ == function_type.params@,
        sig.return_type@ == function_type.return_type@,
        sig.errorable == function_type.errorable,
{
    Signature {
        name: owned("function value"),
        package,
        full_name: owned("function value"),
        method: false,
        receiver: String::new(),
        params: function_type.params,
        return_type: function_type.return_type,
        errorable: function_type.errorable,
        builtin: false,
        host_intrinsic: false,
        exported: false,
    }
}

/// Whether a value of type `t` may not cross a task boundary, walking at most
/// `fuel` levels deep with the structs and enums of `visiting` already on the path:
/// pointers, slices, maps, interfaces, function values, resource structs and
/// unknown names may not; scalars, `str`, `error` and `!void` may; errorable
/// values, channels and arrays may when their element may; structs and enums
/// may when every field may (one already on the path counts as share-safe).
pub open spec fn share_unsafe(info: super::Info, t: Seq<char>, visiting: Set<Seq<char>>, fuel: nat) -> bool
    decreases fuel,
{
    if plainly_share_safe(t) || fuel == 0 {
        false
    } else if errorable_elem(t) is Some {
        errorable_elem(t)->0 != "void"@ && share_unsafe(info, errorable_elem(t)->0, visiting, (fuel - 1) as nat)
    } else if never_share_safe(info, t) || function_type_parts(t) is Some {
        true
    } else if chan_elem(t) is Some {
        share_unsafe(info, chan_elem(t)->0, visiting, (fuel - 1) as nat)
    } else if array_parts(t) is Some {
        share_unsafe(info, (array_parts(t)->0).1, visiting, (fuel - 1) as nat)
    } else if info.structs@.contains_key(t) {
        if info.structs@[t].resource {
            true
        } else if visiting.contains(t) {
            false
        } else {
            exists|f: int|
                0 <= f < info.structs@[t].fields@.len() && share_unsafe(
                    info,
                    (#[trigger] info.structs@[t].fields@[f]).type_@,
                    visiting.insert(t),
                    (fuel - 1) as nat,
                )
        }
    } else if info.enums@.contains_key(t) {
        if visiting.contains(t) {
            false
        } else {
            exists|c: int, f: int|
                0 <= c < info.enums@[t].cases@.len() && 0 <= f < info.enums@[t].cases@[c].fields@.len()
                    && share_unsafe(
                    info,
                    (#[trigger] info.enums@[t].cases@[c].fields@[f]).type_@,
                    visiting.insert(t),
                    (fuel - 1) as nat,
                )
        }
    } else {
        true
    }
}

/// The names of the declared structs and enums.
pub open spec fn named_types(info: super::Info) -> Set<Seq<char>> {
    info.structs@.dom().union(info.enums@.dom())
}

/// Whether `l` bounds the length of every field type of every struct and enum.
pub open spec fn field_types_within(info: super::Info, l: nat) -> bool {
    &&& forall|n: Seq<char>, f: int|
        info.structs@.contains_key(n) && 0 <= f < info.structs@[n].fields@.len() ==> (
        #[trigger] info.structs@[n].fields@[f]).type_@.len() <= l
    &&& forall|n: Seq<char>, c: int, f: int|
        info.enums@.contains_key(n) && 0 <= c < info.enums@[n].cases@.len() && 0 <= f
            < info.enums@[n].cases@[c].fields@.len() ==> (#[trigger] info.enums@[n].cases@[c].fields@[f]).type_@.len()
            <= l
}

/// An upper bound on the steps that the share-safety walk of `t` can take
/// from the types `visiting`, when `l` bounds every field type's length: each
/// step takes a shorter element type or enters a declared type not visited.
pub open spec fn share_measure(info: super::Info, t: Seq<char>, visiting: Set<Seq<char>>, l: nat) -> nat {
    (named_types(info).difference(visiting).len() * (l + 1) + t.len()) as nat
}

/// Whether `fuel` is more than the walk of `t` can use.
pub open spec fn share_fuel_enough(info: super::Info, t: Seq<char>, fuel: nat) -> bool {
    &&& named_types(info).finite()
    &&& exists|l: nat| field_types_within(info, l) && t.len() <= l && fuel > share_measure(info, t, Set::empty(), l)
}

/// Whether `t` may not cross a task boundary: the share-safety walk, given
/// more fuel than it can use, finds a part that may not.
pub open spec fn share_unsafe_type(info: super::Info, t: Seq<char>) -> bool {
    exists|fuel: nat| share_fuel_enough(info, t, fuel) && share_unsafe(info, t, Set::empty(), fuel)
}

/// Entering the declared type `t` leaves one declared type fewer to enter.
proof fn lemma_enter_named(info: super::Info, t: Seq<char>, visiting: Set<Seq<char>>, l: nat, ft: Seq<char>)
    requires
        named_types(info).finite(),
        named_types(info).contains(t),
        !visiting.contains(t),
        ft.len() <= l,
    ensures
        share_measure(info, ft, visiting.insert(t), l) < share_measure(info, t, visiting, l),
{
    let left = named_types(info).difference(visiting);
    let after = named_types(info).difference(visiting.insert(t));
    assert(after =~= left.remove(t));
    assert(left.contains(t));
    broadcast use vstd::set::group_set_axioms, vstd::set_lib::group_set_lib_default;
    assert(left.finite());
    assert(after.len() + 1 == left.len());
    let k = after.len();
    assert(k * (l + 1) + ft.len() < (k + 1) * (l + 1) + t.len()) by (nonlinear_arith)
        requires
            ft.len() <= l,
    ;
}

/// Any two amounts of fuel beyond what the walk can use give the same answer.
pub proof fn lemma_share_fuel_agrees(
    info: super::Info,
    t: Seq<char>,
    visiting: Set<Seq<char>>,
    l: nat,
    f: nat,
    g: nat,
)
    requires
        named_types(info).finite(),
        field_types_within(info, l),
        t.len() <= l,
        f > share_measure(info, t, visiting, l),
        g > share_measure(info, t, visiting, l),
    ensures
        share_unsafe(info, t, visiting, f) == share_unsafe(info, t, visiting, g),
    decreases share_measure(info, t, visiting, l),
{
    reveal_strlit("!");
    reveal_strlit("chan[");
    reveal_strlit("[");
    if plainly_share_safe(t) {
    } else if errorable_elem(t) is Some {
        let e = errorable_elem(t)->0;
        assert(e.len() < t.len());
        lemma_share_fuel_agrees(info, e, visiting, l, (f - 1) as nat, (g - 1) as nat);
    } else if never_share_safe(info, t) || function_type_parts(t) is Some {
    } else if chan_elem(t) is Some {
        let e = chan_elem(t)->0;
        assert(e.len() < t.len());
        lemma_share_fuel_agrees(info, e, visiting, l, (f - 1) as nat, (g - 1) as nat);
    } else if array_parts(t) is Some {
        let e = (array_parts(t)->0).1;
        assert(e.len() < t.len());
        lemma_share_fuel_agrees(info, e, visiting, l, (f - 1) as nat, (g - 1) as nat);
    } else if info.structs@.contains_key(t) {
        if !info.structs@[t].resource && !visiting.contains(t) {
            assert(named_types(info).contains(t));
            let fields = info.structs@[t].fields@;
            assert forall|x: int| 0 <= x < fields.len() implies share_unsafe(
                info,
                (#[trigger] info.structs@[t].fields@[x]).type_@,
                visiting.insert(t),
                (f - 1) as nat,
            ) == share_unsafe(info, info.structs@[t].fields@[x].type_@, visiting.insert(t), (g - 1) as nat) by {
                let ft = fields[x].type_@;
                lemma_enter_named(info, t, visiting, l, ft);
                lemma_share_fuel_agrees(info, ft, visiting.insert(t), l, (f - 1) as nat, (g - 1) as nat);
            }
        }
    } else if info.enums@.contains_key(t) {
        if !visiting.contains(t) {
            assert(named_types(info).contains(t));
            assert forall|c: int, x: int|
                0 <= c < info.enums@[t].cases@.len() && 0 <= x < info.enums@[t].cases@[c].fields@.len() implies share_unsafe(
                info,
                (#[trigger] info.enums@[t].cases@[c].fields@[x]).type_@,
                visiting.insert(t),
                (f - 1) as nat,
            ) == share_unsafe(info, info.enums@[t].cases@[c].fields@[x].type_@, visiting.insert(t), (g - 1) as nat) by {
                let ft = info.enums@[t].cases@[c].fields@[x].type_@;
                lemma_enter_named(info, t, visiting, l, ft);
                lemma_share_fuel_agrees(info, ft, visiting.insert(t), l, (f - 1) as nat, (g - 1) as nat);
            }
        }
    }
}

/// With more fuel than it can use, the walk answers `share_unsafe_type`.
pub proof fn lemma_share_unsafe_type(info: super::Info, t: Seq<char>, n: nat)
    requires
        share_fuel_enough(info, t, n),
    ensures
        share_unsafe_type(info, t) == share_unsafe(info, t, Set::empty(), n),
{
    if share_unsafe_type(info, t) {
        let g = choose|g: nat| share_fuel_enough(info, t, g) && share_unsafe(info, t, Set::empty(), g);
        let l1 = choose|l: nat|
            field_types_within(info, l) && t.len() <= l && n > share_measure(info, t, Set::empty(), l);
        let l2 = choose|l: nat|
            field_types_within(info, l) && t.len() <= l && g > share_measure(info, t, Set::empty(), l);
        let k = named_types(info).difference(Set::empty()).len();
        if l1 <= l2 {
            assert(k * (l1 + 1) <= k * (l2 + 1)) by (nonlinear_arith)
                requires
                    l1 <= l2,
            ;
            lemma_share_fuel_agrees(info, t, Set::empty(), l1, n, g);
        } else {
            assert(k * (l2 + 1) <= k * (l1 + 1)) by (nonlinear_arith)
                requires
                    l2 <= l1,
            ;
            lemma_share_fuel_agrees(info, t, Set::empty(), l2, n, g);
        }
    }
}

/// More fuel than enough is enough.
proof fn lemma_more_fuel_enough(info: super::Info, t: Seq<char>, n: nat, m: nat)
    requires
        share_fuel_enough(info, t, n),
        n <= m,
    ensures
        share_fuel_enough(info, t, m),
{
    let l = choose|l: nat| field_types_within(info, l) && t.len() <= l && n > share_measure(info, t, Set::empty(), l);
    assert(field_types_within(info, l) && t.len() <= l && m > share_measure(info, t, Set::empty(), l));
}

/// Types that may always cross a task boundary: the scalars, `str`, `error`,
/// and the empty spelling of no type.
pub open spec fn plainly_share_safe(t: Seq<char>) -> bool {
    t == "bool"@ || t == "i32"@ || t == "i64"@ || t == "str"@ || t == "error"@ || t == ""@
}

/// Types that may never cross a task boundary: pointers, slices, maps and
/// interfaces.
pub open spec fn never_share_safe(info: super::Info, t: Seq<char>) -> bool {
    pointer_elem(t) is Some || slice_elem(t) is Some || map_parts(t) is Some || info.interfaces@.contains_key(t)
}

/// Whether `spawn` refuses to call the function `name` directly: a local
/// function value, or a declared builtin or host intrinsic that has no task
/// wrapper (only `fs.read_file` has one).
pub open spec fn spawn_rejects_name(c: Checker, name: Seq<char>) -> bool {
    ||| declares_local(c, name)
    ||| !special_builtin(name) && c.functions@.contains_key(name) && (c.functions@[name].builtin || (
        c.functions@[name].host_intrinsic && c.functions@[name].full_name@ != "fs.read_file"@))
}

/// Whether `spawn` refuses the target of `call`: a method or selector call, or
/// a name that `spawn_rejects_name` refuses.
pub open spec fn spawn_rejects_target(c: Checker, call: CallExpr) -> bool {
    match call.callee {
        Expression::Selector(_) => true,
        Expression::Ident(x) => spawn_rejects_name(c, x.name@),
        _ => false,
    }
}

/// The number of arguments a special builtin takes.
pub open spec fn special_builtin_arity(name: Seq<char>) -> nat {
    if name == "append"@ || name == "has"@ || name == "delete"@ || name == "chan_send"@ {
        2
    } else {
        1
    }
}

/// What a call of `name` gives when `name` is neither a local nor a special
/// builtin: the return type of the declared function of that name, or, when
/// there is none, no type and an `unknown function` diagnostic at the name.
pub open spec fn named_call_outcome(
    before: Checker,
    after: Checker,
    name: Seq<char>,
    name_pos: PositionView,
    t: ExprType,
) -> bool {
    if before.functions@.contains_key(name) {
        &&& t.base == before.functions@[name].return_type
        &&& t.errorable == before.functions@[name].errorable
    } else {
        &&& t.base@ == Seq::<char>::empty()
        &&& !t.errorable
        &&& after.diag@ == before.diag@.push(
            DiagnosticView { pos: name_pos, message: "unknown function "@ + debug_quoted(name) },
        )
    }
}

/// The builtins whose argument types depend on each other.
pub open spec fn special_builtin(name: Seq<char>) -> bool {
    name == "len"@ || name == "to_str"@ || name == "append"@ || name == "has"@ || name == "delete"@
        || name == "keys"@ || name == "chan_send"@ || name == "chan_recv"@ || name == "chan_close"@
}

/// What a call of a special builtin may yield when it is not rejected outright:
/// `len` an `i32`, `to_str` a `str`, `has` a `bool`, `delete` and `chan_close`
/// nothing, `keys` a slice, `append` a plain value, `chan_send` an errorable
/// `void` and `chan_recv` an errorable element. A rejected call has no type.
pub open spec fn special_builtin_result(name: Seq<char>, t: ExprType) -> bool {
    let invalid = t.base@.len() == 0 && !t.errorable;
    if name == "len"@ {
        invalid || (t.base@ == "i32"@ && !t.errorable)
    } else if name == "to_str"@ {
        invalid || (t.base@ == "str"@ && !t.errorable)
    } else if name == "has"@ {
        invalid || (t.base@ == "bool"@ && !t.errorable)
    } else if name == "delete"@ || name == "chan_close"@ {
        invalid || (t.base@ == "void"@ && !t.errorable)
    } else if name == "keys"@ {
        invalid || (slice_elem(t.base@) is Some && !t.errorable)
    } else if name == "append"@ {
        !t.errorable
    } else if name == "chan_send"@ {
        invalid || (t.base@ == "void"@ && t.errorable)
    } else if name == "chan_recv"@ {
        invalid || t.errorable
    } else {
        false
    }
}

impl Checker {
    /// Checks a call and answers the type of its result. A spawned call must
    /// name a function (or an inline function literal) whose arguments are
    /// share-safe.
    pub(crate) fn check_call(&mut self, call: &CallExpr, call_use: CallUse) -> (t: ExprType)
        ensures
            frame_kept(*old(self), *final(self)),
            extends(old(self).diag@, final(self).diag@),
            call.callee matches Expression::Ident(x) ==> (!declares_local(*old(self), x.name@)
                && !special_builtin(x.name@) ==> named_call_outcome(
                *old(self),
                *final(self),
                x.name@,
                x.name_pos@,
                t,
            )),
            call_use == CallUse::Spawn && spawn_rejects_target(*old(self), *call) ==> final(self).diag@.len()
                > old(self).diag@.len(),
            call.callee matches Expression::Ident(x) ==> (!declares_local(*old(self), x.name@) && !special_builtin(
                x.name@,
            ) && old(self).functions@.contains_key(x.name@) && call.args@.len() != old(self).functions@[x.name@].params@.len()
                ==> final(self).diag@.len() > old(self).diag@.len()),
            call.callee matches Expression::Ident(x) ==> (!declares_local(*old(self), x.name@) && !special_builtin(
                x.name@,
            ) && old(self).functions@.contains_key(x.name@) ==> forall|a: int|
                0 <= a < call.args@.len() && a < old(self).functions@[x.name@].params@.len()
                    && literal_argument_mismatch(old(self).info, call.args@[a], old(self).functions@[x.name@].params@[a]@)
                    ==> reported_at(#[trigger] call.args@[a], old(self).diag@.len() as int, final(self).diag@)),
        decreases call, 9int,
    {
        match self.check_chan_new_call(call) {
            Some(result) => {
                if call_use == CallUse::Spawn {
                    self.diag.add(
                        call.callee.pos(),
                        owned(
                            "spawn does not currently support builtin \"chan_new\" directly; wrap it in an inline function literal",
                        ),
                    );
                }
                return result;
            },
            None => {},
        }
        match call_name(&call.callee) {
            Some((name, name_pos)) => {
                return self.check_named_call(call, name, name_pos, call_use);
            },
            None => {},
        }
        match &call.callee {
            Expression::Selector(_) => {
                if call_use == CallUse::Spawn {
                    self.diag.add(
                        call.callee.pos(),
                        owned(
                            "spawn does not currently support selector or method calls directly; wrap the call in an inline function literal",
                        ),
                    );
                }
                match self.check_enum_positional_constructor_call(call) {
                    Some(result) => {
                        return result;
                    },
                    None => {},
                }
                return self.check_selector_call(call);
            },
            _ => {},
        }
        let direct_literal_key = match direct_function_literal(&call.callee) {
            Some(literal) => Some(function_literal_key(literal)),
            None => None,
        };
        let callee_type = self.check_expression(&call.callee);
        if callee_type.errorable {
            self.diag.add(call.callee.pos(), owned("call target cannot be errorable"));
            return ExprType::invalid();
        }
        match parse_function_type(callee_type.base.as_str()) {
            Some(function_type) => {
                let sig = function_value_signature(function_type, String::new());
                let arg_use = if call_use == CallUse::Spawn && direct_literal_key.is_some() {
                    CallUse::Spawn
                } else {
                    CallUse::Ordinary
                };
                let name = sig.name.clone();
                self.check_call_args(name.as_str(), &call.callee.pos(), &sig, call, 0, arg_use);
                if call_use == CallUse::Spawn {
                    match direct_literal_key {
                        Some(key) => self.check_spawn_closure_captures(key.as_str(), call.callee.pos()),
                        None => {
                            self.diag.add(
                                call.callee.pos(),
                                owned(
                                    "spawn cannot call an arbitrary function value; use a named function or an inline function literal with share-safe captures",
                                ),
                            );
                        },
                    }
                }
                ExprType { base: sig.return_type, errorable: sig.errorable }
            },
            None => {
                self.diag.add(call.callee.pos(), owned("call target must be callable"));
                ExprType::invalid()
            },
        }
    }

    /// A call whose callee is a name: a local function value, a builtin or a
    /// declared function.
    fn check_named_call(&mut self, call: &CallExpr, name: String, name_pos: Position, call_use: CallUse) -> (t:
        ExprType)
        ensures
            frame_kept(*old(self), *final(self)),
            extends(old(self).diag@, final(self).diag@),
            !declares_local(*old(self), name@) && !special_builtin(name@) ==> named_call_outcome(
                *old(self),
                *final(self),
                name@,
                name_pos@,
                t,
            ),
            call_use == CallUse::Spawn && spawn_rejects_name(*old(self), name@) ==> final(self).diag@.len()
                > old(self).diag@.len(),
            !declares_local(*old(self), name@) && !special_builtin(name@) && old(self).functions@.contains_key(name@)
                && call.args@.len() != old(self).functions@[name@].params@.len() ==> final(self).diag@.len()
                > old(self).diag@.len(),
            !declares_local(*old(self), name@) && !special_builtin(name@) && old(self).functions@.contains_key(name@)
                ==> forall|a: int|
                0 <= a < call.args@.len() && a < old(self).functions@[name@].params@.len()
                    && literal_argument_mismatch(old(self).info, call.args@[a], old(self).functions@[name@].params@[a]@)
                    ==> reported_at(#[trigger] call.args@[a], old(self).diag@.len() as int, final(self).diag@),
        decreases call, 8int,
    {
        match self.lookup_local(name.as_str()) {
            Some(binding) => {
                if self.is_captured_local(name.as_str()) {
                    self.record_capture(name.as_str(), binding.type_.as_str(), binding.closure_depth);
                }
                let function_type = match parse_function_type(binding.type_.as_str()) {
                    Some(f) => f,
                    None => {
                        self.diag.add(name_pos, owned("call target must be callable"));
                        return ExprType::invalid();
                    },
                };
                let sig = function_value_signature(function_type, String::new());
                if call_use == CallUse::Spawn {
                    self.diag.add(
                        name_pos.duplicate(),
                        owned(
                            "spawn cannot call an arbitrary function value; use a named function or an inline function literal with share-safe captures",
                        ),
                    );
                }
                let sig_name = sig.name.clone();
                self.check_call_args(sig_name.as_str(), &name_pos, &sig, call, 0, CallUse::Ordinary);
                return ExprType { base: sig.return_type, errorable: sig.errorable };
            },
            None => {},
        }
        match self.check_special_builtin_call(name.as_str(), &name_pos, call) {
            Some(result) => {
                if call_use == CallUse::Spawn {
                    self.add_spawn_builtin(name_pos, name.as_str());
                }
                return result;
            },
            None => {},
        }
        let sig = match self.functions.get(name.as_str()) {
            Some(s) => s.duplicate(),
            None => {
                let quoted = q(name.as_str());
                let parts = vec!["unknown function ", quoted.as_str()];
                proof {
                    lemma_concat_all_pair(parts@);
                }
                self.diag.add(name_pos, cat(parts));
                return ExprType::invalid();
            },
        };
        let arg_use = if call_use == CallUse::Spawn {
            if sig.builtin {
                self.add_spawn_builtin(name_pos.duplicate(), name.as_str());
                CallUse::Ordinary
            } else if sig.host_intrinsic && !is_type(&sig.full_name, "fs.read_file") {
                self.diag.add(
                    name_pos.duplicate(),
                    cat(
                        vec![
                            "spawn does not currently support host intrinsic ",
                            q(sig.full_name.as_str()).as_str(),
                            " directly; wrap it in an inline function literal",
                        ],
                    ),
                );
                CallUse::Ordinary
            } else {
                CallUse::Spawn
            }
        } else {
            CallUse::Ordinary
        };
        let ghost d_args = self.diag@;
        self.check_call_args(name.as_str(), &name_pos, &sig, call, 0, arg_use);
        let ghost d_after_args = self.diag@;
        self.register_host_error_names(&sig);
        proof {
            assert forall|a: int|
                0 <= a < call.args@.len() && a < old(self).functions@[name@].params@.len()
                    && literal_argument_mismatch(old(self).info, call.args@[a], old(self).functions@[name@].params@[a]@)
                    implies reported_at(#[trigger] call.args@[a], old(self).diag@.len() as int, self.diag@) by {
                assert(sig.params@[a + 0] == sig.params@[a]);
                assert(reported_at(call.args@[a], d_args.len() as int, d_after_args));
                let k = choose|k: int|
                    0 <= k && d_args.len() <= k < d_after_args.len() && (#[trigger] d_after_args[k]).pos
                        == crate::ast::expression_pos(call.args@[a]);
                assert(self.diag@[k] == d_after_args[k]);
            }
        }
        ExprType { base: sig.return_type, errorable: sig.errorable }
    }

    fn add_spawn_builtin(&mut self, pos: Position, name: &str)
        ensures
            frame_kept(*old(self), *final(self)),
            extends(old(self).diag@, final(self).diag@),
            final(self).diag@.len() == old(self).diag@.len() + 1,
    {
        self.diag.add(
            pos,
            cat(
                vec![
                    "spawn does not currently support builtin ",
                    q(name).as_str(),
                    " directly; wrap it in an inline function literal",
                ],
            ),
        );
    }

    /// `chan_new[T](capacity)`: a channel of a value type, with an `i32`
    /// capacity. `None` when the call is something else.
    fn check_chan_new_call(&mut self, call: &CallExpr) -> (r: Option<ExprType>)
        ensures
            frame_kept(*old(self), *final(self)),
            extends(old(self).diag@, final(self).diag@),
            !(call.callee is TypeApplication) ==> r is None && *final(self) == *old(self),
            call.callee matches Expression::TypeApplication(a) ==> (a.inner matches Expression::Ident(x)
                ==> (x.name@ == "chan_new"@ ==> (r is None <==> (a.type_args@.len() == 1 && call.args@.len()
                != 1)))),
            r matches Some(t) ==> !t.errorable,
        decreases call, 8int,
    {
        let applied = match &call.callee {
            Expression::TypeApplication(a) => a,
            _ => {
                return None;
            },
        };
        let ident = match &applied.inner {
            Expression::Ident(i) => i,
            _ => {
                return None;
            },
        };
        if !is_type(&ident.name, "chan_new") {
            return None;
        }
        if applied.type_args.len() != 1 {
            self.diag.add(
                applied.lbracket_pos.duplicate(),
                cat(
                    vec![
                        "generic builtin ",
                        q(ident.name.as_str()).as_str(),
                        " expects 1 type argument, got ",
                        usize_decimal(applied.type_args.len()).as_str(),
                    ],
                ),
            );
            return Some(ExprType::invalid());
        }
        if !self.require_arg_count(ident.name.as_str(), &ident.name_pos, call, 1) {
            return None;
        }
        let elem_type = self.resolve_type_ref(&applied.type_args[0]);
        if is_type(&elem_type, "void") || is_type(&elem_type, "noreturn") || is_type(&elem_type, "") || parse_chan_type(
            elem_type.as_str(),
        ).is_some() || parse_errorable_type(elem_type.as_str()).is_some() {
            self.diag.add(
                applied.type_args[0].pos.duplicate(),
                cat(
                    vec![
                        "channel element type ",
                        q(applied.type_args[0].display().as_str()).as_str(),
                        " is not allowed",
                    ],
                ),
            );
            return Some(ExprType::invalid());
        }
        let capacity = self.check_expression(&call.args[0]);
        if capacity.errorable {
            self.diag.add(call.args[0].pos(), owned("errorable value cannot be passed as an argument"));
            return Some(ExprType::invalid());
        }
        let capacity = self.coerce_value(&call.args[0], capacity, "i32");
        if !is_type(&capacity.base, "i32") {
            self.diag.add(
                call.args[0].pos(),
                cat(
                    vec![
                        "argument 1 to ",
                        q(ident.name.as_str()).as_str(),
                        " must be i32, got ",
                        capacity.base.as_str(),
                    ],
                ),
            );
            return Some(ExprType::invalid());
        }
        Some(ExprType::plain(cat(vec!["chan[", elem_type.as_str(), "]"])))
    }

    /// A taskgroup expression: its result type is a slice of the spawned calls'
    /// results, and its body is checked as a taskgroup body.
    pub(crate) fn check_taskgroup(&mut self, taskgroup: &TaskgroupExpr) -> (t: ExprType)
        ensures
            frame_kept(*old(self), *final(self)),
            extends(old(self).diag@, final(self).diag@),
            !t.errorable,
            t.base@.len() != 0 ==> slice_elem(t.base@) is Some && old(self).in_function,
            t.base@.len() == 0 && old(self).in_function ==> final(self).diag@.len() > old(self).diag@.len(),
        decreases taskgroup, 1int,
    {
        proof {
            reveal_strlit("[]");
        }
        let result_type = self.resolve_type_ref(&taskgroup.result_type);
        let elem_type = match parse_slice_type(result_type.as_str()) {
            Some(e) => e,
            None => {
                self.diag.add(
                    taskgroup.result_type.pos.duplicate(),
                    owned("taskgroup result type must be a slice type"),
                );
                return ExprType::invalid();
            },
        };
        if !self.in_function {
            return ExprType::invalid();
        }
        let group = TaskgroupContext {
            result_type: elem_type,
            loop_depth: self.current.loop_depth,
            closure_depth: self.current.closure_depth,
        };
        self.current.taskgroups.push(group);
        self.check_block(&taskgroup.body);
        if self.in_function {
            self.current.taskgroups.pop();
        }
        assert(self.current.taskgroups@ =~= old(self).current.taskgroups@);
        ExprType::plain(result_type)
    }

    /// A `spawn` statement: inside a taskgroup body, of a call whose result is
    /// the taskgroup's element type.
    pub(crate) fn check_spawn(&mut self, stmt: &SpawnStmt)
        ensures
            frame_kept(*old(self), *final(self)),
            extends(old(self).diag@, final(self).diag@),
            !(old(self).in_function && old(self).current.taskgroups@.len() > 0) ==> final(self).diag@.len()
                > old(self).diag@.len() && final(self).diag@[old(self).diag@.len() as int] == (DiagnosticView {
                pos: stmt.spawn_pos@,
                message: "spawn is only valid inside a taskgroup body"@,
            }),
            old(self).in_function && old(self).current.taskgroups@.len() > 0 && !in_taskgroup_body(
                *old(self),
            ) ==> final(self).diag@.len() > old(self).diag@.len() && final(self).diag@[old(self).diag@.len() as int]
                == (DiagnosticView {
                pos: stmt.spawn_pos@,
                message: "spawn is not allowed inside a function literal within a taskgroup body"@,
            }),
        decreases stmt, 1int,
    {
        let group = match self.current_taskgroup_or_enclosing() {
            Some(g) => g,
            None => {
                self.diag.add(stmt.spawn_pos.duplicate(), owned("spawn is only valid inside a taskgroup body"));
                self.check_expression(&stmt.call);
                return;
            },
        };
        if self.current_taskgroup().is_none() {
            self.diag.add(
                stmt.spawn_pos.duplicate(),
                owned("spawn is not allowed inside a function literal within a taskgroup body"),
            );
            self.check_expression(&stmt.call);
            return;
        }
        let call = match &stmt.call {
            Expression::Call(c) => c,
            _ => {
                self.diag.add(stmt.spawn_pos.duplicate(), owned("spawn requires a call expression"));
                self.check_expression(&stmt.call);
                return;
            },
        };
        let result = self.check_call(call, CallUse::Spawn);
        let mismatch = match parse_errorable_type(group.result_type.as_str()) {
            Some(inner) => !result.errorable || !str_eq(result.base.as_str(), inner.as_str()),
            None => result.errorable || !str_eq(result.base.as_str(), group.result_type.as_str()),
        };
        if mismatch {
            self.diag.add(
                stmt.call.pos(),
                cat(
                    vec![
                        "spawned call must return ",
                        group.result_type.as_str(),
                        ", got ",
                        format_expr_type(&result).as_str(),
                    ],
                ),
            );
        }
    }

    /// Every capture of a spawned function literal must be share-safe.
    fn check_spawn_closure_captures(&mut self, literal_key: &str, position: Position)
        ensures
            frame_kept(*old(self), *final(self)),
            extends(old(self).diag@, final(self).diag@),
            final(self).info == old(self).info,
            old(self).info.function_literals@.contains_key(literal_key@) ==> forall|c: int|
                0 <= c < old(self).info.function_literals@[literal_key@].captures@.len() && errorable_elem(
                    #[trigger] old(self).info.function_literals@[literal_key@].captures@[c].type_@,
                ) is None && !plainly_share_safe(old(self).info.function_literals@[literal_key@].captures@[c].type_@)
                    && never_share_safe(old(self).info, old(self).info.function_literals@[literal_key@].captures@[c].type_@)
                    ==> final(self).diag@.len() > old(self).diag@.len(),
    {
        let ghost d0 = self.diag@;
        let mut names: Vec<String> = Vec::new();
        let mut types: Vec<String> = Vec::new();
        let ghost mut caps: Seq<CaptureInfo> = Seq::empty();
        match self.info.function_literals.get(literal_key) {
            Some(info) => {
                proof {
                    caps = info.captures@;
                }
                let mut k: usize = 0;
                while k < info.captures.len()
                    invariant
                        k <= info.captures@.len(),
                        caps == info.captures@,
                        names@.len() == k,
                        types@.len() == k,
                        forall|j: int| 0 <= j < k ==> #[trigger] types@[j]@ == caps[j].type_@,
                    decreases info.captures.len() - k,
                {
                    names.push(info.captures[k].name.clone());
                    types.push(info.captures[k].type_.clone());
                    k = k + 1;
                }
            },
            None => {},
        }
        let mut i: usize = 0;
        while i < types.len()
            invariant
                frame_kept(*old(self), *self),
                self.info == old(self).info,
                i <= types@.len(),
                names@.len() == types@.len(),
                extends(d0, self.diag@),
                d0 == old(self).diag@,
                forall|j: int|
                    0 <= j < i && errorable_elem(#[trigger] types@[j]@) is None && !plainly_share_safe(types@[j]@)
                        && never_share_safe(old(self).info, types@[j]@) ==> self.diag@.len() > d0.len(),
            decreases types.len() - i,
        {
            let boundary = cat(vec!["spawned closure capture ", q(names[i].as_str()).as_str()]);
            self.check_spawn_boundary_type(position.duplicate(), boundary, types[i].as_str());
            i = i + 1;
        }
        proof {
            if old(self).info.function_literals@.contains_key(literal_key@) {
                assert forall|c: int|
                    0 <= c < old(self).info.function_literals@[literal_key@].captures@.len() && errorable_elem(
                        #[trigger] old(self).info.function_literals@[literal_key@].captures@[c].type_@,
                    ) is None && !plainly_share_safe(old(self).info.function_literals@[literal_key@].captures@[c].type_@)
                        && never_share_safe(
                        old(self).info,
                        old(self).info.function_literals@[literal_key@].captures@[c].type_@,
                    ) implies self.diag@.len() > old(self).diag@.len() by {
                    assert(types@[c]@ == caps[c].type_@);
                }
            }
        }
    }

    /// Reports a value of `type_` that would cross a task boundary though it is
    /// not share-safe.
    pub(crate) fn check_spawn_boundary_type(&mut self, position: Position, boundary: String, type_: &str)
        ensures
            frame_kept(*old(self), *final(self)),
            extends(old(self).diag@, final(self).diag@),
            final(self).info == old(self).info,
            plainly_share_safe(type_@) ==> final(self).diag@ == old(self).diag@,
            errorable_elem(type_@) is None && !plainly_share_safe(type_@) && never_share_safe(old(self).info, type_@)
                ==> final(self).diag@.len() == old(self).diag@.len() + 1 && final(self).diag@.last().pos
                == position@,
            errorable_elem(type_@) is None && !plainly_share_safe(type_@) && !never_share_safe(
                old(self).info,
                type_@,
            ) && !(type_@.len() >= 3 && type_@.subrange(0, 3) == "fn("@) && chan_elem(type_@) is None
                && array_parts(type_@) is None && old(self).info.structs@.contains_key(type_@)
                && old(self).info.structs@[type_@].resource ==> final(self).diag@.len() == old(self).diag@.len() + 1
                && final(self).diag@.last().pos == position@,
            share_fuel_enough(old(self).info, type_@, (usize::MAX - 1) as nat) ==> (share_unsafe_type(
                old(self).info,
                type_@,
            ) ==> final(self).diag@.len() == old(self).diag@.len() + 1 && final(self).diag@.last().pos == position@)
                && (!share_unsafe_type(old(self).info, type_@) ==> final(self).diag@ == old(self).diag@),
    {
        let mut visiting = NameSet::new();
        let fuel = self.share_safety_depth(type_);
        proof {
            if share_fuel_enough(self.info, type_@, (usize::MAX - 1) as nat) {
                if fuel == usize::MAX {
                    lemma_more_fuel_enough(self.info, type_@, (usize::MAX - 1) as nat, fuel as nat);
                }
                lemma_share_unsafe_type(self.info, type_@, fuel as nat);
            }
        }
        match self.task_share_safety_violation(type_, &mut visiting, fuel) {
            Some(violation) => {
                self.diag.add(
                    position,
                    cat(vec![boundary.as_str(), " cannot cross a task boundary: ", violation.describe().as_str()]),
                );
            },
            None => {},
        }
    }

    /// A bound on how deep the share-safety walk of `type_` goes: each step
    /// either enters a struct or enum not yet on the path, or takes the element
    /// of a shorter type spelling. Below the largest `usize` it is more fuel
    /// than the walk can use.
    fn share_safety_depth(&self, type_: &str) -> (n: usize)
        ensures
            n >= 2,
            n < usize::MAX ==> share_fuel_enough(self.info, type_@, n as nat),
    {
        let ghost info = self.info;
        let mut longest: usize = type_.unicode_len();
        let structs_len = self.info.structs.len();
        let mut i: usize = 0;
        while i < structs_len
            invariant
                info == self.info,
                structs_len == self.info.structs.size(),
                i <= structs_len,
                type_@.len() <= longest,
                forall|k: int, f: int|
                    0 <= k < i && 0 <= f < info.structs@[info.structs.key_order()[k]].fields@.len() ==> (
                    #[trigger] info.structs@[info.structs.key_order()[k]].fields@[f]).type_@.len() <= longest,
            decreases structs_len - i,
        {
            let (name, info_i) = self.info.structs.entry(i);
            let ghost before = longest;
            let mut f: usize = 0;
            while f < info_i.fields.len()
                invariant
                    f <= info_i.fields@.len(),
                    before <= longest,
                    forall|x: int| 0 <= x < f ==> (#[trigger] info_i.fields@[x]).type_@.len() <= longest,
                decreases info_i.fields.len() - f,
            {
                let n = info_i.fields[f].type_.unicode_len();
                if n > longest {
                    longest = n;
                }
                f = f + 1;
            }
            proof {
                assert(info.structs@[info.structs.key_order()[i as int]] == *info_i);
            }
            i = i + 1;
        }
        let enums_len = self.info.enums.len();
        let mut i: usize = 0;
        while i < enums_len
            invariant
                info == self.info,
                structs_len == self.info.structs.size(),
                enums_len == self.info.enums.size(),
                i <= enums_len,
                type_@.len() <= longest,
                forall|k: int, f: int|
                    0 <= k < structs_len && 0 <= f < info.structs@[info.structs.key_order()[k]].fields@.len() ==> (
                    #[trigger] info.structs@[info.structs.key_order()[k]].fields@[f]).type_@.len() <= longest,
                forall|k: int, c: int, f: int|
                    0 <= k < i && 0 <= c < info.enums@[info.enums.key_order()[k]].cases@.len() && 0 <= f
                        < info.enums@[info.enums.key_order()[k]].cases@[c].fields@.len() ==> (
                    #[trigger] info.enums@[info.enums.key_order()[k]].cases@[c].fields@[f]).type_@.len() <= longest,
            decreases enums_len - i,
        {
            let (_, info_i) = self.info.enums.entry(i);
            let ghost before_case = longest;
            let mut c: usize = 0;
            while c < info_i.cases.len()
                invariant
                    c <= info_i.cases@.len(),
                    before_case <= longest,
                    forall|y: int, x: int|
                        0 <= y < c && 0 <= x < info_i.cases@[y].fields@.len() ==> (
                        #[trigger] info_i.cases@[y].fields@[x]).type_@.len() <= longest,
                decreases info_i.cases.len() - c,
            {
                let case = &info_i.cases[c];
                let ghost before = longest;
                let mut f: usize = 0;
                while f < case.fields.len()
                    invariant
                        f <= case.fields@.len(),
                        before <= longest,
                        forall|x: int| 0 <= x < f ==> (#[trigger] case.fields@[x]).type_@.len() <= longest,
                    decreases case.fields.len() - f,
                {
                    let n = case.fields[f].type_.unicode_len();
                    if n > longest {
                        longest = n;
                    }
                    f = f + 1;
                }
                c = c + 1;
            }
            proof {
                assert(info.enums@[info.enums.key_order()[i as int]] == *info_i);
            }
            i = i + 1;
        }
        let structs_count = self.info.structs.len();
        let enums_count = self.info.enums.len();
        let ghost l = longest as nat;
        proof {
            let sk = info.structs.key_order();
            let ek = info.enums.key_order();
            assert(info.structs@.dom() =~= sk.to_set());
            assert(info.enums@.dom() =~= ek.to_set());
            vstd::seq_lib::seq_to_set_is_finite(sk);
            vstd::seq_lib::seq_to_set_is_finite(ek);
            sk.lemma_cardinality_of_set();
            ek.lemma_cardinality_of_set();
            vstd::set_lib::lemma_len_union(info.structs@.dom(), info.enums@.dom());
            assert(named_types(info).finite());
            assert(named_types(info).len() <= structs_count + enums_count);
            assert(field_types_within(info, l)) by {
                assert forall|n: Seq<char>, f: int|
                    info.structs@.contains_key(n) && 0 <= f < info.structs@[n].fields@.len() implies (
                    #[trigger] info.structs@[n].fields@[f]).type_@.len() <= l by {
                    let k = choose|k: int| 0 <= k < sk.len() && sk[k] == n;
                    assert(info.structs@[sk[k]].fields@[f] == info.structs@[n].fields@[f]);
                }
                assert forall|n: Seq<char>, c: int, f: int|
                    info.enums@.contains_key(n) && 0 <= c < info.enums@[n].cases@.len() && 0 <= f
                        < info.enums@[n].cases@[c].fields@.len() implies (
                    #[trigger] info.enums@[n].cases@[c].fields@[f]).type_@.len() <= l by {
                    let k = choose|k: int| 0 <= k < ek.len() && ek[k] == n;
                    assert(info.enums@[ek[k]].cases@[c].fields@[f] == info.enums@[n].cases@[c].fields@[f]);
                }
            }
            assert(named_types(info).difference(Set::empty()) =~= named_types(info));
        }
        let types = structs_count as u128 + enums_count as u128 + 1;
        match types.checked_mul(longest as u128 + 2) {
            Some(product) => if product >= usize::MAX as u128 {
                usize::MAX
            } else {
                let m: u128 = longest as u128 + 2;
                assert(product >= 2) by (nonlinear_arith)
                    requires
                        product == types * m,
                        types >= 1,
                        m >= 2,
                ;
                proof {
                    let k = named_types(info).len();
                    let t = type_@.len();
                    assert(product > k * (l + 1) + t) by (nonlinear_arith)
                        requires
                            product == types * m,
                            types == structs_count + enums_count + 1,
                            k <= structs_count + enums_count,
                            m == l + 2,
                            t <= l,
                    ;
                    assert(share_fuel_enough(info, type_@, product as nat)) by {
                        assert(field_types_within(info, l) && type_@.len() <= l && product > share_measure(
                            info,
                            type_@,
                            Set::empty(),
                            l,
                        ));
                    }
                }
                product as usize
            },
            None => usize::MAX,
        }
    }

    /// The first part of `type_` that may not cross a task boundary, if any:
    /// pointers, slices, maps, function values, interfaces and resource structs
    /// may not; scalars, `str` and `error` may; errorable values, channels,
    /// arrays, structs and enums may when what they hold may. A struct or enum
    /// already on the walk's path counts as share-safe there.
    pub(crate) fn task_share_safety_violation(&self, type_: &str, visiting: &mut NameSet, fuel: usize) -> (r:
        Option<TaskShareSafetyViolation>)
        ensures
            final(visiting)@ == old(visiting)@,
            r is Some <==> share_unsafe(self.info, type_@, old(visiting)@, fuel as nat),
            plainly_share_safe(type_@) ==> r is None,
            fuel > 0 && errorable_elem(type_@) is None && !plainly_share_safe(type_@) && never_share_safe(
                self.info,
                type_@,
            ) ==> (r matches Some(v) && v.type_@ == type_@ && !v.resource && v.path@.len() == 0),
            fuel > 0 && errorable_elem(type_@) is None && !plainly_share_safe(type_@) && !never_share_safe(
                self.info,
                type_@,
            ) && !(type_@.len() >= 3 && type_@.subrange(0, 3) == "fn("@) && chan_elem(type_@) is None
                && array_parts(type_@) is None && self.info.structs@.contains_key(type_@)
                && self.info.structs@[type_@].resource ==> (r matches Some(v) && v.type_@ == type_@
                && v.resource && v.path@.len() == 0),
        decreases fuel,
    {
        if str_eq(type_, "bool") || str_eq(type_, "i32") || str_eq(type_, "i64") || str_eq(type_, "str")
            || str_eq(type_, "error") || str_eq(type_, "") {
            return None;
        }
        if fuel == 0 {
            return None;
        }
        match parse_errorable_type(type_) {
            Some(inner) => {
                if is_type(&inner, "void") {
                    return None;
                }
                return match self.task_share_safety_violation(inner.as_str(), visiting, fuel - 1) {
                    Some(v) => Some(v.prepend(owned("error value"))),
                    None => None,
                };
            },
            None => {},
        }
        if parse_pointer_type(type_).is_some() || parse_slice_type(type_).is_some() || parse_map_type(
            type_,
        ).is_some() || parse_function_type(type_).is_some() || self.info.interfaces.contains_key(type_) {
            return Some(TaskShareSafetyViolation::disallowed(type_));
        }
        match parse_chan_type(type_) {
            Some(elem) => {
                return match self.task_share_safety_violation(elem.as_str(), visiting, fuel - 1) {
                    Some(v) => Some(v.prepend(owned("channel element"))),
                    None => None,
                };
            },
            None => {},
        }
        match parse_array_type(type_) {
            Some((_, elem)) => {
                return match self.task_share_safety_violation(elem.as_str(), visiting, fuel - 1) {
                    Some(v) => Some(v.prepend(owned("array element"))),
                    None => None,
                };
            },
            None => {},
        }
        match self.info.structs.get(type_) {
            Some(info) => {
                if info.resource {
                    return Some(TaskShareSafetyViolation::resource(type_));
                }
                let ghost before = visiting@;
                if !visiting.insert(owned(type_)) {
                    assert(visiting@ =~= before);
                    return None;
                }
                let mut f: usize = 0;
                while f < info.fields.len()
                    invariant
                        f <= info.fields@.len(),
                        fuel > 0,
                        self.info.structs@.contains_key(type_@) && !self.info.structs@[type_@].resource,
                        visiting@ == before.insert(type_@),
                        !before.contains(type_@),
                        before == old(visiting)@,
                        !plainly_share_safe(type_@),
                        !never_share_safe(self.info, type_@),
                        errorable_elem(type_@) is None,
                        function_type_parts(type_@) is None,
                        chan_elem(type_@) is None,
                        array_parts(type_@) is None,
                        forall|g: int|
                            0 <= g < f ==> !share_unsafe(
                                self.info,
                                (#[trigger] self.info.structs@[type_@].fields@[g]).type_@,
                                before.insert(type_@),
                                (fuel - 1) as nat,
                            ),
                        info.fields@ == self.info.structs@[type_@].fields@,
                    decreases info.fields.len() - f,
                {
                    let field = &info.fields[f];
                    f = f + 1;
                    match self.task_share_safety_violation(field.type_.as_str(), visiting, fuel - 1) {
                        Some(v) => {
                            proof {
                                let fi = f - 1;
                                assert(self.info.structs@[type_@].fields@[fi] == *field);
                                assert(share_unsafe(
                                    self.info,
                                    self.info.structs@[type_@].fields@[fi].type_@,
                                    before.insert(type_@),
                                    (fuel - 1) as nat,
                                ));
                            }
                            visiting.remove(type_);
                            assert(visiting@ =~= before);
                            return Some(v.prepend(cat(vec!["field ", q(field.name.as_str()).as_str()])));
                        },
                        None => {},
                    }
                }
                visiting.remove(type_);
                assert(visiting@ =~= before);
                return None;
            },
            None => {},
        }
        match self.info.enums.get(type_) {
            Some(info) => {
                let ghost before = visiting@;
                if !visiting.insert(owned(type_)) {
                    assert(visiting@ =~= before);
                    return None;
                }
                let mut c: usize = 0;
                while c < info.cases.len()
                    invariant
                        c <= info.cases@.len(),
                        fuel > 0,
                        !self.info.structs@.contains_key(type_@),
                        visiting@ == before.insert(type_@),
                        !before.contains(type_@),
                        before == old(visiting)@,
                        !plainly_share_safe(type_@),
                        !never_share_safe(self.info, type_@),
                        errorable_elem(type_@) is None,
                        function_type_parts(type_@) is None,
                        chan_elem(type_@) is None,
                        array_parts(type_@) is None,
                        self.info.enums@.contains_key(type_@),
                        info.cases@ == self.info.enums@[type_@].cases@,
                        forall|c2: int, g: int|
                            0 <= c2 < c && 0 <= g < self.info.enums@[type_@].cases@[c2].fields@.len() ==> !share_unsafe(
                                self.info,
                                (#[trigger] self.info.enums@[type_@].cases@[c2].fields@[g]).type_@,
                                before.insert(type_@),
                                (fuel - 1) as nat,
                            ),
                    decreases info.cases.len() - c,
                {
                    let case = &info.cases[c];
                    c = c + 1;
                    let mut f: usize = 0;
                    while f < case.fields.len()
                        invariant
                            f <= case.fields@.len(),
                            fuel > 0,
                            !self.info.structs@.contains_key(type_@),
                            visiting@ == before.insert(type_@),
                            !before.contains(type_@),
                            before == old(visiting)@,
                            !plainly_share_safe(type_@),
                            !never_share_safe(self.info, type_@),
                            errorable_elem(type_@) is None,
                            function_type_parts(type_@) is None,
                            chan_elem(type_@) is None,
                            array_parts(type_@) is None,
                        errorable_elem(type_@) is None,
                        function_type_parts(type_@) is None,
                        chan_elem(type_@) is None,
                        array_parts(type_@) is None,
                            self.info.enums@.contains_key(type_@),
                            info.cases@ == self.info.enums@[type_@].cases@,
                            1 <= c <= info.cases@.len(),
                            *case == info.cases@[c - 1],
                            forall|c2: int, g: int|
                                0 <= c2 < c - 1 && 0 <= g < self.info.enums@[type_@].cases@[c2].fields@.len() ==> !share_unsafe(
                                    self.info,
                                    (#[trigger] self.info.enums@[type_@].cases@[c2].fields@[g]).type_@,
                                    before.insert(type_@),
                                    (fuel - 1) as nat,
                                ),
                            forall|g: int|
                                0 <= g < f ==> !share_unsafe(
                                    self.info,
                                    (#[trigger] self.info.enums@[type_@].cases@[c - 1].fields@[g]).type_@,
                                    before.insert(type_@),
                                    (fuel - 1) as nat,
                                ),
                        decreases case.fields.len() - f,
                    {
                        let field = &case.fields[f];
                        f = f + 1;
                        match self.task_share_safety_violation(field.type_.as_str(), visiting, fuel - 1) {
                            Some(v) => {
                                proof {
                                    let ci = c - 1;
                                    let fi = f - 1;
                                    assert(self.info.enums@[type_@].cases@[ci].fields@[fi] == *field);
                                    assert(share_unsafe(
                                        self.info,
                                        self.info.enums@[type_@].cases@[ci].fields@[fi].type_@,
                                        before.insert(type_@),
                                        (fuel - 1) as nat,
                                    ));
                                }
                                visiting.remove(type_);
                                assert(visiting@ =~= before);
                                let v = v.prepend(cat(vec!["field ", q(field.name.as_str()).as_str()]));
                                return Some(v.prepend(cat(vec!["enum case ", q(case.name.as_str()).as_str()])));
                            },
                            None => {},
                        }
                    }
                }
                visiting.remove(type_);
                assert(visiting@ =~= before);
                return None;
            },
            None => {},
        }
        Some(TaskShareSafetyViolation::disallowed(type_))
    }

    /// A function literal: its parameters and result, its body checked as a
    /// function of its own that may capture outer locals.
    pub(crate) fn check_function_literal(&mut self, literal: &FunctionLiteralExpr) -> (t: ExprType)
        ensures
            frame_kept(*old(self), *final(self)),
            extends(old(self).diag@, final(self).diag@),
            !t.errorable,
            !old(self).in_function ==> t.base@ == Seq::<char>::empty(),
            t.base@.len() == 0 ==> !old(self).in_function || final(self).diag@.len() > old(self).diag@.len(),
            t.base@.len() > 0 ==> exists|params: Seq<String>, return_type: Seq<char>|
                params.len() == literal.params@.len() && t.base@ == function_type_text(
                    params,
                    return_type,
                    literal.return_is_bang,
                ),
            t.base@.len() > 0 && final(self).diag@.len() == old(self).diag@.len() ==> t.base@ == "fn("@
                + super::type_spellings_joined(super::param_type_refs(literal.params@)) + ") "@ + (if literal.return_is_bang {
                "!"@
            } else {
                Seq::empty()
            }) + super::type_spelling(literal.return_type),
        decreases literal, 1int,
    {
        let ghost d0 = self.diag@;
        let package = self.current_package();
        let mut params: Vec<String> = Vec::new();
        let mut valid = true;
        let mut p: usize = 0;
        while p < literal.params.len()
            invariant_except_break
                params@.len() == p,
                valid,
                self.diag@.len() == d0.len() ==> forall|k: int|
                    0 <= k < p ==> #[trigger] params@[k]@ == super::type_spelling(literal.params@[k].type_ref),
            invariant
                frame_kept(*old(self), *self),
                p <= literal.params@.len(),
                extends(d0, self.diag@),
            ensures
                valid ==> params@.len() == literal.params@.len(),
                !valid ==> self.diag@.len() > d0.len(),
                valid && self.diag@.len() == d0.len() ==> forall|k: int|
                    0 <= k < literal.params@.len() ==> #[trigger] params@[k]@ == super::type_spelling(
                        literal.params@[k].type_ref,
                    ),
            decreases literal.params.len() - p,
        {
            let param = &literal.params[p];
            let param_type = self.resolve_type_ref(&param.type_ref);
            if is_type(&param_type, "void") || is_type(&param_type, "noreturn") || is_type(&param_type, "") {
                self.diag.add(
                    param.type_ref.pos.duplicate(),
                    cat(
                        vec![
                            "parameter ",
                            q(param.name.as_str()).as_str(),
                            " cannot use type ",
                            q(param.type_ref.display().as_str()).as_str(),
                        ],
                    ),
                );
                valid = false;
                break;
            }
            params.push(param_type);
            p = p + 1;
        }
        if !valid {
            return ExprType::invalid();
        }
        let ghost d1 = self.diag@;
        let return_type = self.resolve_type_ref(&literal.return_type);
        let ghost d2 = self.diag@;
        if is_type(&return_type, "noreturn") && literal.return_is_bang {
            self.diag.add(
                literal.return_type.pos.duplicate(),
                owned("noreturn functions cannot also be errorable"),
            );
            return ExprType::invalid();
        }
        if is_type(&return_type, "error") && literal.return_is_bang {
            self.diag.add(literal.return_type.pos.duplicate(), owned("error functions cannot also be errorable"));
            return ExprType::invalid();
        }
        let sig = Signature {
            name: owned("function value"),
            package,
            full_name: owned("function value"),
            method: false,
            receiver: String::new(),
            params: params.clone(),
            return_type: return_type.clone(),
            errorable: literal.return_is_bang,
            builtin: false,
            host_intrinsic: false,
            exported: false,
        };
        let literal_key = function_literal_key(literal);
        if !self.info.function_literals.contains_key(literal_key.as_str()) {
            self.info.function_literals.insert(
                literal_key.clone(),
                FunctionLiteralInfo { signature: sig.clone(), captures: Vec::new() },
            );
        }
        if !self.in_function {
            return ExprType::invalid();
        }
        let mut saved = sig;
        std::mem::swap(&mut saved, &mut self.current.signature);
        self.current.literal_keys.push(literal_key.clone());
        let deepened = self.current.closure_depth < usize::MAX;
        if deepened {
            self.current.closure_depth = self.current.closure_depth + 1;
        }
        self.push_scope();
        let ghost inner = *self;
        let mut i: usize = 0;
        while i < literal.params.len()
            invariant
                frame_kept(inner, *self),
                i <= literal.params@.len(),
                params@.len() == literal.params@.len(),
                extends(d0, self.diag@),
                extends(d2, self.diag@),
            decreases literal.params.len() - i,
        {
            let param = &literal.params[i];
            if self.scope_owns(param.name.as_str()) {
                self.diag.add(
                    param.name_pos.duplicate(),
                    cat(vec!["duplicate parameter ", q(param.name.as_str()).as_str()]),
                );
            } else {
                self.bind_local(param.name.as_str(), params[i].clone());
            }
            i = i + 1;
        }
        self.check_block(&literal.body);
        if !self.in_function {
            return ExprType::invalid();
        }
        self.pop_scope();
        if deepened && self.current.closure_depth > 0 {
            self.current.closure_depth = self.current.closure_depth - 1;
        }
        std::mem::swap(&mut saved, &mut self.current.signature);
        let literal_signature = saved;
        self.current.literal_keys.pop();
        if !is_type(&literal_signature.return_type, "void") && !self.block_definitely_returns(&literal.body) {
            if is_type(&literal_signature.return_type, "noreturn") {
                self.diag.add(literal.fn_pos.duplicate(), owned("function literal must not fall through"));
            } else {
                self.diag.add(
                    literal.fn_pos.duplicate(),
                    owned("function literal must return a value on all paths"),
                );
            }
        }
        match self.info.function_literals.get(literal_key.as_str()) {
            Some(info) => {
                let mut info = info.clone();
                info.signature = literal_signature;
                self.info.function_literals.insert(literal_key, info);
            },
            None => {},
        }
        let spelled = format_function_type(&params, return_type.as_str(), literal.return_is_bang);
        proof {
            assert(spelled@ == function_type_text(params@, return_type@, literal.return_is_bang));
            if self.diag@.len() == d0.len() {
                assert(d1.len() == d0.len());
                assert(d2.len() == d0.len());
                assert(return_type@ == super::type_spelling(literal.return_type));
                let refs = super::param_type_refs(literal.params@);
                assert forall|k: int| 0 <= k < params@.len() implies #[trigger] params@[k]@ == super::type_spelling(
                    refs[k],
                ) by {
                    assert(refs[k] == literal.params@[k].type_ref);
                }
                super::lemma_joined_spellings(params@, refs);
            }
            assert(spelled@.len() > 0) by {
                reveal_strlit("fn(");
            }
        }
        ExprType::plain(spelled)
    }

    /// A method call `receiver.name(args)`, on an interface or a struct value.
    fn check_selector_call(&mut self, call: &CallExpr) -> (t: ExprType)
        ensures
            frame_kept(*old(self), *final(self)),
            extends(old(self).diag@, final(self).diag@),
        decreases call, 8int,
    {
        let selector = match &call.callee {
            Expression::Selector(s) => s,
            _ => {
                return ExprType::invalid();
            },
        };
        let receiver = self.check_expression(&selector.inner);
        if receiver.errorable {
            self.diag.add(selector.dot_pos.duplicate(), owned("method call cannot use an errorable receiver"));
            return ExprType::invalid();
        }
        let sig = match self.info.interfaces.get(receiver.base.as_str()) {
            Some(interface) => {
                let mut found: Option<usize> = None;
                let mut m: usize = 0;
                while m < interface.methods.len()
                    invariant
                        frame_kept(*old(self), *self),
                        m <= interface.methods@.len(),
                        found is None || found.unwrap() < interface.methods@.len(),
                    decreases interface.methods.len() - m,
                {
                    if str_eq(interface.methods[m].name.as_str(), selector.name.as_str()) {
                        found = Some(m);
                        break;
                    }
                    m = m + 1;
                }
                match found {
                    Some(mi) => {
                        let method = &interface.methods[mi];
                        let mut params: Vec<String> = Vec::new();
                        params.push(receiver.base.clone());
                        let mut k: usize = 0;
                        while k < method.params.len()
                            invariant
                                frame_kept(*old(self), *self),
                                k <= method.params@.len(),
                            decreases method.params.len() - k,
                        {
                            params.push(method.params[k].clone());
                            k = k + 1;
                        }
                        Signature {
                            name: selector.name.clone(),
                            package: package_for_type(receiver.base.as_str()),
                            full_name: cat(vec![receiver.base.as_str(), ".", selector.name.as_str()]),
                            method: true,
                            receiver: receiver.base.clone(),
                            params,
                            return_type: method.return_type.clone(),
                            errorable: method.errorable,
                            builtin: false,
                            host_intrinsic: false,
                            exported: true,
                        }
                    },
                    None => {
                        let name = interface.name.clone();
                        self.diag.add(
                            selector.name_pos.duplicate(),
                            cat(
                                vec![
                                    "interface ",
                                    q(name.as_str()).as_str(),
                                    " has no method ",
                                    q(selector.name.as_str()).as_str(),
                                ],
                            ),
                        );
                        return ExprType::invalid();
                    },
                }
            },
            None => match self.lookup_method(receiver.base.as_str(), selector.name.as_str()) {
                Some(s) => s.clone(),
                None => {
                    self.diag.add(
                        selector.name_pos.duplicate(),
                        cat(
                            vec![
                                "type ",
                                q(diagnostic_type_name(receiver.base.as_str()).as_str()).as_str(),
                                " has no method ",
                                q(selector.name.as_str()).as_str(),
                            ],
                        ),
                    );
                    return ExprType::invalid();
                },
            },
        };
        let current = self.current_package();
        if !str_eq(sig.package.as_str(), current.as_str()) && !is_type(&sig.package, "") && !sig.exported {
            self.diag.add(
                selector.name_pos.duplicate(),
                cat(
                    vec![
                        "package ",
                        q(package_display_name(sig.package.as_str()).as_str()).as_str(),
                        " does not export method ",
                        q(selector.name.as_str()).as_str(),
                    ],
                ),
            );
            return ExprType::invalid();
        }
        self.check_call_args(selector.name.as_str(), &selector.name_pos, &sig, call, 1, CallUse::Ordinary);
        ExprType { base: sig.return_type, errorable: sig.errorable }
    }

    /// `Enum.Case(value)` for a case with exactly one payload field. `None` when
    /// the call is something else.
    fn check_enum_positional_constructor_call(&mut self, call: &CallExpr) -> (r: Option<ExprType>)
        ensures
            frame_kept(*old(self), *final(self)),
            extends(old(self).diag@, final(self).diag@),
            match positional_constructor(*old(self), *call) {
                Some(n) => r matches Some(t) && t.base@ == n && !t.errorable,
                None => r is None && *final(self) == *old(self),
            },
        decreases call, 8int,
    {
        let selector = match &call.callee {
            Expression::Selector(s) => s,
            _ => {
                return None;
            },
        };
        let ident = match &selector.inner {
            Expression::Ident(i) => i,
            _ => {
                return None;
            },
        };
        if self.lookup_local(ident.name.as_str()).is_some() {
            return None;
        }
        let (enum_name, field_type) = {
            let enum_info = match self.info.enums.get(ident.name.as_str()) {
                Some(e) => e,
                None => {
                    return None;
                },
            };
            let mut found: Option<usize> = None;
            let mut c: usize = 0;
            while c < enum_info.cases.len()
                invariant_except_break
                    found is None,
                    forall|d: int| 0 <= d < c ==> #[trigger] enum_info.cases@[d].name@ != selector.name@,
                invariant
                    c <= enum_info.cases@.len(),
                ensures
                    match found {
                        Some(k) => k < enum_info.cases@.len() && first_case_named(*enum_info, selector.name@)
                            == Some(k as int),
                        None => first_case_named(*enum_info, selector.name@) is None,
                    },
                decreases enum_info.cases.len() - c,
            {
                if str_eq(enum_info.cases[c].name.as_str(), selector.name.as_str()) {
                    found = Some(c);
                    proof {
                        lemma_first_case_named(*enum_info, selector.name@, c as int);
                    }
                    break;
                }
                c = c + 1;
            }
            proof {
                if found is None {
                    lemma_no_case_named(*enum_info, selector.name@);
                }
            }
            let case_index = match found {
                Some(ci) => ci,
                None => {
                    return None;
                },
            };
            let enum_case = &enum_info.cases[case_index];
            if enum_case.fields.len() != 1 || call.args.len() != 1 {
                return None;
            }
            (enum_info.name.clone(), enum_case.fields[0].type_.clone())
        };
        let field_type = field_type.as_str();
        let arg = self.check_expression(&call.args[0]);
        let arg = self.require_non_errorable_value(
            &call.args[0],
            arg,
            owned("errorable value cannot be used in an enum constructor"),
        );
        if !is_type(&arg.base, "") {
            let arg = self.coerce_value(&call.args[0], arg, field_type);
            if !str_eq(arg.base.as_str(), field_type) {
                self.add_cannot_assign(call.args[0].pos(), arg.base.as_str(), field_type);
            }
        }
        Some(ExprType::plain(enum_name))
    }

    /// Reports an errorable argument of a builtin.
    fn add_errorable_argument(&mut self, pos: Position)
        ensures
            frame_kept(*old(self), *final(self)),
            extends(old(self).diag@, final(self).diag@),
    {
        self.diag.add(pos, owned("errorable value cannot be passed as an argument"));
    }

    /// Reports `argument 2 to <name> must be <want>, got <got>`.
    fn add_second_argument_mismatch(&mut self, pos: Position, name: &str, want: &str, got: &str)
        ensures
            frame_kept(*old(self), *final(self)),
            extends(old(self).diag@, final(self).diag@),
            final(self).diag@ == old(self).diag@.push(
                DiagnosticView {
                    pos: pos@,
                    message: "argument 2 to "@ + debug_quoted(name@) + " must be "@ + strip_entry_package(
                        want@,
                        0,
                        None,
                    ) + ", got "@ + strip_entry_package(got@, 0, None),
                },
            ),
    {
        let quoted = q(name);
        let wanted = diagnostic_type_name(want);
        let have = diagnostic_type_name(got);
        let parts = vec!["argument 2 to ", quoted.as_str(), " must be ", wanted.as_str(), ", got ", have.as_str()];
        proof {
            lemma_concat_all_six(parts@);
        }
        self.diag.add(pos, cat(parts));
    }

    /// The builtins whose argument types depend on each other: `len`, `to_str`,
    /// `append`, `has`, `delete`, `keys` and the channel operations. `None` for
    /// any other name, and when the argument count is wrong (which is reported).
    fn check_special_builtin_call(&mut self, name: &str, name_pos: &Position, call: &CallExpr) -> (r: Option<
        ExprType,
    >)
        ensures
            frame_kept(*old(self), *final(self)),
            extends(old(self).diag@, final(self).diag@),
            !special_builtin(name@) ==> r is None && final(self).diag@ == old(self).diag@,
            special_builtin(name@) ==> (r is Some <==> call.args@.len() == special_builtin_arity(name@)),
            special_builtin(name@) && r is None ==> final(self).diag@.len() == old(self).diag@.len() + 1,
            r matches Some(t) ==> special_builtin_result(name@, t),
            name@ == "keys"@ && call.args@.len() == 1 ==> match local_type_of(*old(self), call.args@[0]) {
                Some(m) => match map_parts(m) {
                    Some((k, _)) => r matches Some(t) && t.base@ == "[]"@ + k && !t.errorable
                        && final(self).diag@ == old(self).diag@,
                    None => r matches Some(t) && t.base@.len() == 0 && final(self).diag@.len()
                        == old(self).diag@.len() + 1,
                },
                None => true,
            },
            name@ == "len"@ && call.args@.len() == 1 ==> match local_type_of(*old(self), call.args@[0]) {
                Some(m) => if sequence_elem(m) is Some || map_parts(m) is Some || m == "str"@ {
                    r matches Some(t) && t.base@ == "i32"@ && !t.errorable && final(self).diag@ == old(self).diag@
                } else {
                    r matches Some(t) && t.base@.len() == 0 && final(self).diag@.len() == old(self).diag@.len() + 1
                },
                None => true,
            },
            name@ == "chan_recv"@ && call.args@.len() == 1 ==> match local_type_of(*old(self), call.args@[0]) {
                Some(m) => match chan_elem(m) {
                    Some(e) => r matches Some(t) && t.base@ == e && t.errorable,
                    None => r matches Some(t) && t.base@.len() == 0 && final(self).diag@.len()
                        == old(self).diag@.len() + 1,
                },
                None => true,
            },
            name@ == "chan_close"@ && call.args@.len() == 1 ==> match local_type_of(*old(self), call.args@[0]) {
                Some(m) => if chan_elem(m) is Some {
                    r matches Some(t) && t.base@ == "void"@ && !t.errorable && final(self).diag@ == old(self).diag@
                } else {
                    r matches Some(t) && t.base@.len() == 0 && final(self).diag@.len() == old(self).diag@.len() + 1
                },
                None => true,
            },
        decreases call, 6int,
    {
        proof {
            reveal_strlit("len");
            reveal_strlit("to_str");
            reveal_strlit("append");
            reveal_strlit("has");
            reveal_strlit("delete");
            reveal_strlit("keys");
            reveal_strlit("chan_send");
            reveal_strlit("chan_recv");
            reveal_strlit("chan_close");
            reveal_strlit("i32");
            reveal_strlit("str");
            reveal_strlit("bool");
            reveal_strlit("void");
            reveal_strlit("[]");
            assert("len"@[0] != "has"@[0]);
            assert("to_str"@[0] != "append"@[0] && "to_str"@[0] != "delete"@[0] && "append"@[0]
                != "delete"@[0]);
            assert("chan_send"@[5] != "chan_recv"@[5]);
            assert("len"@.len() == 3 && "has"@.len() == 3 && "keys"@.len() == 4);
            assert("to_str"@.len() == 6 && "append"@.len() == 6 && "delete"@.len() == 6);
            assert("chan_send"@.len() == 9 && "chan_recv"@.len() == 9 && "chan_close"@.len() == 10);
        }
        if str_eq(name, "len") {
            if !self.require_arg_count(name, name_pos, call, 1) {
                return None;
            }
            let arg = self.check_expression(&call.args[0]);
            if arg.errorable {
                self.add_errorable_argument(call.args[0].pos());
                return Some(ExprType::invalid());
            }
            if !is_sequence_type(arg.base.as_str()) && parse_map_type(arg.base.as_str()).is_none() && !is_type(
                &arg.base,
                "str",
            ) {
                self.diag.add(call.args[0].pos(), owned("len requires an array, slice, map, or str argument"));
                return Some(ExprType::invalid());
            }
            return Some(ExprType::plain_str("i32"));
        }
        if str_eq(name, "to_str") {
            if !self.require_arg_count(name, name_pos, call, 1) {
                return None;
            }
            let arg = self.check_expression(&call.args[0]);
            if arg.errorable {
                self.add_errorable_argument(call.args[0].pos());
                return Some(ExprType::invalid());
            }
            let arg = if is_type(&arg.base, "untyped-int") {
                self.coerce_value(&call.args[0], arg, "i32")
            } else {
                arg
            };
            if !(is_type(&arg.base, "i32") || is_type(&arg.base, "i64") || is_type(&arg.base, "bool") || is_type(&arg.base, "str")
                || is_type(&arg.base, "error")) {
                self.diag.add(
                    call.args[0].pos(),
                    owned("to_str requires an i32, i64, bool, str, or error argument"),
                );
                return Some(ExprType::invalid());
            }
            return Some(ExprType::plain_str("str"));
        }
        if str_eq(name, "append") {
            if !self.require_arg_count(name, name_pos, call, 2) {
                return None;
            }
            let slice_arg = self.check_expression(&call.args[0]);
            if slice_arg.errorable {
                self.add_errorable_argument(call.args[0].pos());
                return Some(ExprType::invalid());
            }
            let elem_type = match parse_slice_type(slice_arg.base.as_str()) {
                Some(e) => e,
                None => {
                    self.diag.add(call.args[0].pos(), owned("append requires a slice as its first argument"));
                    return Some(ExprType::invalid());
                },
            };
            let value = self.check_expression(&call.args[1]);
            if value.errorable {
                self.add_errorable_argument(call.args[1].pos());
                return Some(ExprType::invalid());
            }
            if is_type(&value.base, "void") || is_type(&value.base, "noreturn") {
                self.diag.add(call.args[1].pos(), cat(vec!["argument 2 to ", q(name).as_str(), " requires a value"]));
                return Some(ExprType::invalid());
            }
            let value = self.coerce_value(&call.args[1], value, elem_type.as_str());
            if !str_eq(value.base.as_str(), elem_type.as_str()) {
                self.add_second_argument_mismatch(call.args[1].pos(), name, elem_type.as_str(), value.base.as_str());
                return Some(ExprType::invalid());
            }
            return Some(ExprType::plain(slice_arg.base));
        }
        if str_eq(name, "has") || str_eq(name, "delete") {
            if !self.require_arg_count(name, name_pos, call, 2) {
                return None;
            }
            let map_arg = self.check_expression(&call.args[0]);
            if map_arg.errorable {
                self.add_errorable_argument(call.args[0].pos());
                return Some(ExprType::invalid());
            }
            let key_type = match parse_map_type(map_arg.base.as_str()) {
                Some((k, _)) => k,
                None => {
                    self.diag.add(call.args[0].pos(), concat(name, " requires a map as its first argument"));
                    return Some(ExprType::invalid());
                },
            };
            let key = self.check_expression(&call.args[1]);
            if key.errorable {
                self.add_errorable_argument(call.args[1].pos());
                return Some(ExprType::invalid());
            }
            let key = self.coerce_value(&call.args[1], key, key_type.as_str());
            if !str_eq(key.base.as_str(), key_type.as_str()) {
                self.add_second_argument_mismatch(call.args[1].pos(), name, key_type.as_str(), key.base.as_str());
                return Some(ExprType::invalid());
            }
            return Some(
                if str_eq(name, "has") {
                    ExprType::plain_str("bool")
                } else {
                    ExprType::plain_str("void")
                },
            );
        }
        if str_eq(name, "keys") {
            if !self.require_arg_count(name, name_pos, call, 1) {
                return None;
            }
            let map_arg = self.check_expression(&call.args[0]);
            if map_arg.errorable {
                self.add_errorable_argument(call.args[0].pos());
                return Some(ExprType::invalid());
            }
            return match parse_map_type(map_arg.base.as_str()) {
                Some((key_type, _)) => {
                    let spelled = concat("[]", key_type.as_str());
                    assert(spelled@.subrange(0, 2) =~= "[]"@);
                    assert(slice_elem(spelled@) is Some);
                    Some(ExprType::plain(spelled))
                },
                None => {
                    self.diag.add(call.args[0].pos(), owned("keys requires a map as its first argument"));
                    Some(ExprType::invalid())
                },
            };
        }
        if str_eq(name, "chan_send") {
            if !self.require_arg_count(name, name_pos, call, 2) {
                return None;
            }
            let ch_arg = self.check_expression(&call.args[0]);
            if ch_arg.errorable {
                self.add_errorable_argument(call.args[0].pos());
                return Some(ExprType::invalid());
            }
            let elem_type = match parse_chan_type(ch_arg.base.as_str()) {
                Some(e) => e,
                None => {
                    self.diag.add(call.args[0].pos(), owned("chan_send requires a channel as its first argument"));
                    return Some(ExprType::invalid());
                },
            };
            let value = self.check_expression(&call.args[1]);
            if value.errorable {
                self.add_errorable_argument(call.args[1].pos());
                return Some(ExprType::invalid());
            }
            let value = self.coerce_value(&call.args[1], value, elem_type.as_str());
            if !str_eq(value.base.as_str(), elem_type.as_str()) {
                self.add_second_argument_mismatch(call.args[1].pos(), name, elem_type.as_str(), value.base.as_str());
                return Some(ExprType::invalid());
            }
            self.record_error("Closed");
            return Some(ExprType { base: owned("void"), errorable: true });
        }
        if str_eq(name, "chan_recv") {
            if !self.require_arg_count(name, name_pos, call, 1) {
                return None;
            }
            let ch_arg = self.check_expression(&call.args[0]);
            if ch_arg.errorable {
                self.add_errorable_argument(call.args[0].pos());
                return Some(ExprType::invalid());
            }
            return match parse_chan_type(ch_arg.base.as_str()) {
                Some(elem_type) => {
                    self.record_error("Closed");
                    Some(ExprType { base: elem_type, errorable: true })
                },
                None => {
                    self.diag.add(call.args[0].pos(), owned("chan_recv requires a channel as its first argument"));
                    Some(ExprType::invalid())
                },
            };
        }
        if str_eq(name, "chan_close") {
            if !self.require_arg_count(name, name_pos, call, 1) {
                return None;
            }
            let ch_arg = self.check_expression(&call.args[0]);
            if ch_arg.errorable {
                self.add_errorable_argument(call.args[0].pos());
                return Some(ExprType::invalid());
            }
            if parse_chan_type(ch_arg.base.as_str()).is_none() {
                self.diag.add(call.args[0].pos(), owned("chan_close requires a channel as its first argument"));
                return Some(ExprType::invalid());
            }
            return Some(ExprType::plain_str("void"));
        }
        None
    }

    /// Checks the arguments of a call against the parameters of `sig` after the
    /// first `arg_offset` (the receiver of a method). Arguments of a spawned
    /// call must be share-safe.
    fn check_call_args(
        &mut self,
        name: &str,
        name_pos: &Position,
        sig: &Signature,
        call: &CallExpr,
        arg_offset: usize,
        call_use: CallUse,
    )
        ensures
            frame_kept(*old(self), *final(self)),
            extends(old(self).diag@, final(self).diag@),
            call.args@.len() != (if sig.params@.len() >= arg_offset { sig.params@.len() - arg_offset } else { 0 })
                ==> final(self).diag@.len() > old(self).diag@.len() && final(self).diag@[old(self).diag@.len() as int].pos
                == name_pos@,
            forall|a: int|
                0 <= a < call.args@.len() && a + arg_offset < sig.params@.len() && literal_argument_mismatch(
                    old(self).info,
                    call.args@[a],
                    sig.params@[a + arg_offset]@,
                ) ==> reported_at(#[trigger] call.args@[a], old(self).diag@.len() as int, final(self).diag@),
        decreases call, 7int,
    {
        let ghost d0 = self.diag@;
        let ghost keep = |a: int|
            a + arg_offset < sig.params@.len() && literal_argument_mismatch(
                old(self).info,
                call.args@[a],
                sig.params@[a + arg_offset]@,
            );
        let want: usize = if sig.params.len() >= arg_offset {
            sig.params.len() - arg_offset
        } else {
            0
        };
        if call.args.len() != want {
            self.diag.add(
                name_pos.duplicate(),
                cat(
                    vec![
                        "function ",
                        q(diagnostic_type_name(name).as_str()).as_str(),
                        " expects ",
                        usize_decimal(want).as_str(),
                        " arguments, got ",
                        usize_decimal(call.args.len()).as_str(),
                    ],
                ),
            );
        }
        let ghost d1 = self.diag@;
        let mut idx: usize = 0;
        while idx < call.args.len()
            invariant
                frame_kept(*old(self), *self),
                idx <= call.args@.len(),
                extends(d0, self.diag@),
                extends(d1, self.diag@),
                d0 == old(self).diag@,
                keep == (|a: int|
                    a + arg_offset < sig.params@.len() && literal_argument_mismatch(
                        old(self).info,
                        call.args@[a],
                        sig.params@[a + arg_offset]@,
                    )),
                forall|a: int| 0 <= a < idx && keep(a) ==> reported_at(#[trigger] call.args@[a], d0.len() as int, self.diag@),
            decreases call.args.len() - idx,
        {
            proof {
                reveal_strlit("untyped-int");
                reveal_strlit("i32");
                reveal_strlit("str");
                reveal_strlit("bool");
                reveal_strlit("nil");
                reveal_strlit("void");
                reveal_strlit("noreturn");
                reveal_strlit("");
            }
            let ghost here = idx as int;
            let ghost d_iter = self.diag@;
            let arg = &call.args[idx];
            assert(decreases_to!(call => call.args@[idx as int]));
            let number = usize_decimal(idx + 1);
            let param_idx = idx as u128 + arg_offset as u128;
            idx = idx + 1;
            let arg_type = self.check_expression(arg);
            if arg_type.errorable {
                self.add_errorable_argument(arg.pos());
                proof {
                    lemma_reported_at_kept(call.args@, here, d0.len() as int, d_iter, self.diag@, keep);
                }
                continue;
            }
            if is_type(&arg_type.base, "void") || is_type(&arg_type.base, "noreturn") {
                self.diag.add(
                    arg.pos(),
                    cat(vec!["argument ", number.as_str(), " to ", q(name).as_str(), " requires a value"]),
                );
                proof {
                    lemma_reported_at_kept(call.args@, here, d0.len() as int, d_iter, self.diag@, keep);
                    assert(self.diag@[self.diag@.len() - 1].pos == crate::ast::expression_pos(call.args@[here]));
                }
                continue;
            }
            if param_idx >= sig.params.len() as u128 {
                proof {
                    lemma_reported_at_kept(call.args@, here, d0.len() as int, d_iter, self.diag@, keep);
                }
                continue;
            }
            let param_type = sig.params[param_idx as usize].as_str();
            let ghost before_coerce = arg_type;
            let arg_type = self.coerce_value(arg, arg_type, param_type);
            if is_type(&arg_type.base, "") {
                proof {
                    if keep(here) {
                        assert(param_type@ == sig.params@[here + arg_offset]@);
                        assert(literal_type(*arg) is Some);
                        assert(before_coerce.base@ == literal_type(*arg)->0);
                        assert(!self.info.interfaces@.contains_key(param_type@));
                        assert(arg_type == before_coerce);
                        assert(before_coerce.base@ == "i32"@ || before_coerce.base@ == "str"@ || before_coerce.base@
                            == "bool"@);
                        assert(before_coerce.base@.len() > 0);
                    }
                    lemma_reported_at_kept(call.args@, here, d0.len() as int, d_iter, self.diag@, keep);
                }
                continue;
            }
            if !str_eq(arg_type.base.as_str(), param_type) {
                self.diag.add(
                    arg.pos(),
                    cat(
                        vec![
                            "argument ",
                            number.as_str(),
                            " to ",
                            q(diagnostic_type_name(name).as_str()).as_str(),
                            " must be ",
                            diagnostic_type_name(param_type).as_str(),
                            ", got ",
                            diagnostic_type_name(arg_type.base.as_str()).as_str(),
                        ],
                    ),
                );
                proof {
                    lemma_reported_at_kept(call.args@, here, d0.len() as int, d_iter, self.diag@, keep);
                    assert(self.diag@[self.diag@.len() - 1].pos == crate::ast::expression_pos(call.args@[here]));
                }
                continue;
            }
            if call_use == CallUse::Spawn {
                self.check_spawn_boundary_type(arg.pos(), concat("spawn argument ", number.as_str()), param_type);
            }
            proof {
                lemma_reported_at_kept(call.args@, here, d0.len() as int, d_iter, self.diag@, keep);
            }
        }
    }

    /// Whether a call has exactly `want` arguments; reports it when not.
    fn require_arg_count(&mut self, name: &str, name_pos: &Position, call: &CallExpr, want: usize) -> (ok:
        bool)
        ensures
            frame_kept(*old(self), *final(self)),
            extends(old(self).diag@, final(self).diag@),
            ok == (call.args@.len() == want),
            ok ==> final(self).diag@ == old(self).diag@ && *final(self) == *old(self),
            !ok ==> final(self).diag@.len() == old(self).diag@.len() + 1,
    {
        if call.args.len() != want {
            self.diag.add(
                name_pos.duplicate(),
                cat(
                    vec![
                        "function ",
                        q(name).as_str(),
                        " expects ",
                        usize_decimal(want).as_str(),
                        " arguments, got ",
                        usize_decimal(call.args.len()).as_str(),
                    ],
                ),
            );
            false
        } else {
            true
        }
    }
}

/// The enum named by a call `E.Case(x)` of a one-field case of a declared enum
/// `E` that no local shadows.
pub open spec fn positional_constructor(c: Checker, call: CallExpr) -> Option<Seq<char>> {
    match call.callee {
        Expression::Selector(s) => match s.inner {
            Expression::Ident(id) => if !declares_local(c, id.name@) && c.info.enums@.contains_key(id.name@) {
                let e = c.info.enums@[id.name@];
                match first_case_named(e, s.name@) {
                    Some(k) => if e.cases@[k].fields@.len() == 1 && call.args@.len() == 1 {
                        Some(e.name@)
                    } else {
                        None
                    },
                    None => None,
                }
            } else {
                None
            },
            _ => None,
        },
        _ => None,
    }
}

/// The type of a local variable named by `e`, inside a function.
pub open spec fn local_type_of(c: Checker, e: Expression) -> Option<Seq<char>> {
    match e {
        Expression::Ident(id) => if c.in_function {
            match super::body::innermost_binding(c.current.scopes@, c.current.scopes@.len() as int, id.name@) {
                Some(b) => Some(b.type_@),
                None => None,
            }
        } else {
            None
        },
        _ => None,
    }
}

} // verus!
