//! Diagnostics: positioned messages collected in order, and their rendering.
use vstd::prelude::*;

use crate::text::{decimal, push_char, usize_decimal};
use crate::token::{Position, PositionView};

verus! {

/// A message attached to a source position.
#[derive(Clone, Debug, PartialEq, Eq)]
pub struct Diagnostic {
    pub pos: Position,
    pub message: String,
}

/// The mathematical value of a diagnostic.
pub struct DiagnosticView {
    pub pos: PositionView,
    pub message: Seq<char>,
}

impl View for Diagnostic {
    type V = DiagnosticView;

    open spec fn view(&self) -> DiagnosticView {
        DiagnosticView { pos: self.pos@, message: self.message@ }
    }
}

impl Diagnostic {
    /// A copy of this diagnostic.
    pub fn duplicate(&self) -> (res: Diagnostic)
        ensures
            res@ == self@,
    {
        Diagnostic { pos: self.pos.duplicate(), message: self.message.clone() }
    }
}

/// The views of a sequence of diagnostics.
pub open spec fn views(ds: Seq<Diagnostic>) -> Seq<DiagnosticView> {
    ds.map_values(|d: Diagnostic| d@)
}

/// An ordered collection of diagnostics.
/// `after` keeps every diagnostic of `before`, at the same place, and may add more
/// behind them.
pub open spec fn extends(before: Seq<DiagnosticView>, after: Seq<DiagnosticView>) -> bool {
    before.len() <= after.len() && forall|i: int| 0 <= i < before.len() ==> after[i] == before[i]
}

#[derive(Clone, Debug, Default)]
pub struct List {
    items: Vec<Diagnostic>,
}

impl View for List {
    type V = Seq<DiagnosticView>;

    closed spec fn view(&self) -> Seq<DiagnosticView> {
        views(self.items@)
    }
}

impl List {
    /// An empty list.
    pub fn new() -> (l: List)
        ensures
            l@ == Seq::<DiagnosticView>::empty(),
    {
        let l = List { items: Vec::new() };
        assert(l@ =~= Seq::<DiagnosticView>::empty());
        l
    }

    /// Records `message` at `pos` after all earlier diagnostics.
    pub fn add(&mut self, pos: Position, message: String)
        ensures
            final(self)@ == old(self)@.push(DiagnosticView { pos: pos@, message: message@ }),
    {
        let d = Diagnostic { pos, message };
        self.items.push(d);
        assert(views(self.items@) =~= views(old(self).items@).push(d@));
    }

    /// Records every diagnostic of `other`, in order, after all earlier ones.
    pub fn append(&mut self, other: &[Diagnostic])
        ensures
            final(self)@ == old(self)@ + views(other@),
    {
        let ghost start = views(self.items@);
        let mut i: usize = 0;
        while i < other.len()
            invariant
                i <= other@.len(),
                views(self.items@) == start + views(other@.subrange(0, i as int)),
            decreases other.len() - i,
        {
            let ghost before = self.items@;
            let d = other[i].duplicate();
            self.items.push(d);
            i = i + 1;
            proof {
                assert(views(self.items@) =~= views(before).push(d@));
                assert(views(other@.subrange(0, i as int)) =~= views(
                    other@.subrange(0, i - 1),
                ).push(other@[i - 1]@));
                assert(views(self.items@) =~= start + views(other@.subrange(0, i as int)));
            }
        }
        assert(other@.subrange(0, other@.len() as int) =~= other@);
    }

    /// A copy of all recorded diagnostics, in order.
    pub fn items(&self) -> (res: Vec<Diagnostic>)
        ensures
            views(res@) == self@,
    {
        let mut res: Vec<Diagnostic> = Vec::new();
        let mut i: usize = 0;
        while i < self.items.len()
            invariant
                i <= self.items@.len(),
                views(res@) == views(self.items@.subrange(0, i as int)),
            decreases self.items.len() - i,
        {
            let ghost before = res@;
            let d = self.items[i].duplicate();
            res.push(d);
            i = i + 1;
            proof {
                assert(views(res@) =~= views(before).push(d@));
                assert(views(self.items@.subrange(0, i as int)) =~= views(
                    self.items@.subrange(0, i - 1),
                ).push(self.items@[i - 1]@));
            }
        }
        assert(self.items@.subrange(0, self.items@.len() as int) =~= self.items@);
        res
    }

    /// Whether no diagnostic has been recorded.
    pub fn is_empty(&self) -> (b: bool)
        ensures
            b == (self@.len() == 0),
    {
        self.items.len() == 0
    }

    /// The number of recorded diagnostics.
    pub fn len(&self) -> (n: usize)
        ensures
            n == self@.len(),
    {
        self.items.len()
    }
}

/// One rendered diagnostic: `file:line:column: message`, where the file is `path`
/// when the diagnostic carries no file of its own.
pub open spec fn format_line(path: Seq<char>, d: DiagnosticView) -> Seq<char> {
    (if d.pos.file.len() == 0 {
        path
    } else {
        d.pos.file
    }) + seq![':'] + decimal(d.pos.line) + seq![':'] + decimal(d.pos.column) + seq![':', ' ']
        + d.message
}

/// All diagnostics rendered one per line, separated by newlines.
pub open spec fn format_lines(path: Seq<char>, ds: Seq<DiagnosticView>) -> Seq<char>
    decreases ds.len(),
{
    if ds.len() == 0 {
        Seq::empty()
    } else if ds.len() == 1 {
        format_line(path, ds[0])
    } else {
        format_lines(path, ds.drop_last()) + seq!['\n'] + format_line(path, ds.last())
    }
}

fn render_line(path: &str, d: &Diagnostic) -> (s: String)
    ensures
        s@ == format_line(path@, d@),
{
    let mut s = if d.pos.file.as_str().is_empty() {
        String::from_str(path)
    } else {
        d.pos.file.clone()
    };
    push_char(&mut s, ':');
    let line = usize_decimal(d.pos.line);
    s.append(line.as_str());
    push_char(&mut s, ':');
    let column = usize_decimal(d.pos.column);
    s.append(column.as_str());
    push_char(&mut s, ':');
    push_char(&mut s, ' ');
    s.append(d.message.as_str());
    assert(s@ =~= format_line(path@, d@));
    s
}

/// Renders each diagnostic as `file:line:column: message`, one per line.
pub fn format(path: &str, diagnostics: &[Diagnostic]) -> (s: String)
    ensures
        s@ == format_lines(path@, views(diagnostics@)),
{
    let mut s = String::new();
    let mut i: usize = 0;
    while i < diagnostics.len()
        invariant
            i <= diagnostics@.len(),
            s@ == format_lines(path@, views(diagnostics@.subrange(0, i as int))),
        decreases diagnostics.len() - i,
    {
        let line = render_line(path, &diagnostics[i]);
        let ghost prev = views(diagnostics@.subrange(0, i as int));
        if i > 0 {
            push_char(&mut s, '\n');
        }
        s.append(line.as_str());
        i = i + 1;
        proof {
            let cur = views(diagnostics@.subrange(0, i as int));
            assert(cur.drop_last() =~= prev);
            assert(cur.last() == diagnostics@[i - 1]@);
            if i == 1 {
                assert(s@ =~= format_lines(path@, cur));
            } else {
                assert(s@ =~= format_lines(path@, cur));
            }
        }
    }
    assert(diagnostics@.subrange(0, diagnostics@.len() as int) =~= diagnostics@);
    s
}

} // verus!
