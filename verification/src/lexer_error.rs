//! Errors found while lexing, and the collection of them that a failed
//! tokenization hands back.

use vstd::prelude::*;
use vstd::string::*;
use crate::report::{
    coloured,
    cyan_bars, debug_char, debug_char_text, debug_str, debug_text, join_spaced, located_report,
    numbered_gutter, paint_cyan, paint_gutter, paint_red, painted, red_code, cyan_code,
    render_located_report, spaced,
};
use crate::text::{append_str, decimal, push_char, usize_to_string};

verus! {

/// One lexing error: where it was found and what went wrong.
#[derive(Debug, Clone, Eq, PartialEq, Ord, PartialOrd, Default)]
pub struct LexerError {
    filename: String,
    description: String,
    line: String,
    line_number: usize,
    position: usize,
    character: char,
}

/// The content of a lexing error.
pub struct LexerErrorView {
    pub filename: Seq<char>,
    pub description: Seq<char>,
    pub line: Seq<char>,
    pub line_number: usize,
    pub position: usize,
    pub character: char,
}

impl View for LexerError {
    type V = LexerErrorView;

    closed spec fn view(&self) -> LexerErrorView {
        LexerErrorView {
            filename: self.filename@,
            description: self.description@,
            line: self.line@,
            line_number: self.line_number,
            position: self.position,
            character: self.character,
        }
    }
}

/// The label that starts a lexing report.
pub open spec fn lexer_label() -> Seq<char> {
    "[LexerError]:"@
}

/// `r` is the report of `e` for the given renderings of its coloured parts.
pub open spec fn lexer_report_with(
    e: LexerErrorView,
    label: Seq<char>,
    path: Seq<char>,
    bars: (Seq<char>, Seq<char>, Seq<char>),
    r: Seq<char>,
) -> bool {
    &&& painted(lexer_label(), red_code(), label)
    &&& painted("--> "@ + e.filename, cyan_code(), path)
    &&& cyan_bars(bars)
    &&& r == located_report(
        label,
        e.description,
        path,
        numbered_gutter(e.line_number as nat, decimal(e.line_number as nat), e.line, bars),
    )
}

/// `r` is a rendering of the report of `e`, for some choice of colours.
pub open spec fn is_lexer_report(e: LexerErrorView, r: Seq<char>) -> bool {
    exists|label: Seq<char>, path: Seq<char>, bars: (Seq<char>, Seq<char>, Seq<char>)|
        #[trigger] lexer_report_with(e, label, path, bars, r)
}

/// The text of `debug_message` for a lexing error.
pub open spec fn lexer_debug_text(e: LexerErrorView) -> Seq<char> {
    "Description: "@ + debug_text(e.description) + "\n            Line: "@ + debug_text(e.line)
        + "\n            Position: "@ + decimal(e.position as nat) + "\n            Char: "@
        + debug_char_text(e.character)
}

impl LexerError {
    pub fn new(
        filename: String,
        description: String,
        line: String,
        line_number: usize,
        position: usize,
        character: char,
    ) -> (r: Self)
        ensures
            r@ == (LexerErrorView {
                filename: filename@,
                description: description@,
                line: line@,
                line_number,
                position,
                character,
            }),
    {
        LexerError { filename, description, line, line_number, position, character }
    }

    /// A copy with the same content.
    pub fn duplicate(&self) -> (r: Self)
        ensures
            r@ == self@,
    {
        LexerError {
            filename: self.filename.clone(),
            description: self.description.clone(),
            line: self.line.clone(),
            line_number: self.line_number,
            position: self.position,
            character: self.character,
        }
    }

    pub fn get_description(&self) -> (r: String)
        ensures
            r@ == self@.description,
    {
        self.description.clone()
    }

    /// The red label followed by the description.
    pub fn error_description(&self) -> (r: String)
        ensures
            exists|label: Seq<char>|
                painted(lexer_label(), red_code(), label) && r@ == #[trigger] spaced(
                    label,
                    self@.description,
                ),
    {
        let label = paint_red("[LexerError]:");
        assert(painted(lexer_label(), red_code(), label@));
        let r = join_spaced(label.as_str(), self.description.as_str());
        assert(r@ == spaced(label@, self@.description));
        r
    }

    /// The full report: label, description, file and the framed line.
    pub fn format_error(&self) -> (r: String)
        ensures
            is_lexer_report(self@, r@),
    {
        let label = paint_red("[LexerError]:");
        let mut path_text = String::from_str("--> ");
        append_str(&mut path_text, self.filename.as_str());
        let path = paint_cyan(path_text.as_str());
        let number = usize_to_string(self.line_number);
        let block = paint_gutter(self.line_number, number.as_str(), self.line.as_str());
        let r = render_located_report(
            label.as_str(),
            self.description.as_str(),
            path.as_str(),
            block.as_str(),
        );
        let ghost bars = choose|bars: (Seq<char>, Seq<char>, Seq<char>)|
            cyan_bars(bars) && block@ == numbered_gutter(
                self.line_number as nat,
                number@,
                self.line@,
                bars,
            );
        assert(painted("--> "@ + self@.filename, cyan_code(), path@));
        assert(painted(lexer_label(), red_code(), label@));
        assert(cyan_bars(bars));
        assert(lexer_report_with(self@, label@, path@, bars, r@));
        assert(r@ == located_report(
            label@,
            self@.description,
            path@,
            numbered_gutter(self.line_number as nat, decimal(self.line_number as nat), self@.line, bars),
        ));
        r
    }

    /// The fields in `{:?}` form, one per line.
    pub fn debug_message(&self) -> (r: String)
        ensures
            r@ == lexer_debug_text(self@),
    {
        let mut s = String::from_str("Description: ");
        let d = debug_str(self.description.as_str());
        append_str(&mut s, d.as_str());
        append_str(&mut s, "\n            Line: ");
        let l = debug_str(self.line.as_str());
        append_str(&mut s, l.as_str());
        append_str(&mut s, "\n            Position: ");
        let p = usize_to_string(self.position);
        append_str(&mut s, p.as_str());
        append_str(&mut s, "\n            Char: ");
        let c = debug_char(self.character);
        append_str(&mut s, c.as_str());
        s
    }
}

/// The errors of one tokenization, in the order they were found.
#[derive(Debug, Clone)]
pub struct LexerErrorHandler {
    data: Vec<Box<LexerError>>,
}

impl View for LexerErrorHandler {
    type V = Seq<LexerErrorView>;

    closed spec fn view(&self) -> Seq<LexerErrorView> {
        self.data@.map_values(|e: Box<LexerError>| (*e)@)
    }
}

/// The concatenation of a sequence of texts.
pub open spec fn concat_all(parts: Seq<Seq<char>>) -> Seq<char>
    decreases parts.len(),
{
    if parts.len() == 0 {
        seq![]
    } else {
        concat_all(parts.drop_last()) + parts.last()
    }
}

/// `r` is the concatenation of renderings of the reports of `errors`.
pub open spec fn is_lexer_reports(errors: Seq<LexerErrorView>, r: Seq<char>) -> bool {
    exists|parts: Seq<Seq<char>>|
        {
            &&& parts.len() == errors.len()
            &&& forall|i: int| 0 <= i < errors.len() ==> is_lexer_report(errors[i], #[trigger] parts[i])
            &&& r == #[trigger] concat_all(parts)
        }
}

/// The headline of the summary of `n` lexing errors.
pub open spec fn lexer_headline(n: nat) -> Seq<char> {
    "---- "@ + "lexing-analyzer found "@ + decimal(n) + " errors!"@ + " ----\n"@
}

impl LexerErrorHandler {
    pub fn new() -> (r: Self)
        ensures
            r@ == Seq::<LexerErrorView>::empty(),
    {
        LexerErrorHandler { data: Vec::new() }
    }

    pub fn attach(&mut self, lexer_error: LexerError)
        ensures
            final(self)@ == old(self)@.push(lexer_error@),
    {
        self.data.push(Box::new(lexer_error));
        assert(self@ =~= old(self)@.push(lexer_error@));
    }

    /// A copy with the same errors.
    pub fn duplicate(&self) -> (r: Self)
        ensures
            r@ == self@,
    {
        let mut data: Vec<Box<LexerError>> = Vec::new();
        let mut i: usize = 0;
        while i < self.data.len()
            invariant
                i <= self.data.len(),
                data@.map_values(|e: Box<LexerError>| (*e)@) == self@.subrange(0, i as int),
            decreases self.data.len() - i,
        {
            let d = self.data[i].duplicate();
            let ghost old_data = data@;
            data.push(Box::new(d));
            assert(data@ == old_data.push(Box::new(d)));
            assert(d@ == self@[i as int]);
            assert(data@.map_values(|e: Box<LexerError>| (*e)@) =~= old_data.map_values(
                |e: Box<LexerError>| (*e)@,
            ).push(d@));
            i = i + 1;
            assert(data@.map_values(|e: Box<LexerError>| (*e)@) =~= self@.subrange(0, i as int));
        }
        let r = LexerErrorHandler { data };
        assert(r@ =~= self@);
        r
    }

    /// The reports of all errors, one after another.
    pub fn format_all(&self) -> (r: String)
        ensures
            is_lexer_reports(self@, r@),
    {
        let mut s = String::new();
        let ghost mut parts: Seq<Seq<char>> = seq![];
        let mut i: usize = 0;
        while i < self.data.len()
            invariant
                i <= self.data.len(),
                parts.len() == i,
                forall|k: int| 0 <= k < i ==> is_lexer_report(self@[k], #[trigger] parts[k]),
                s@ == concat_all(parts),
            decreases self.data.len() - i,
        {
            let one = self.data[i].format_error();
            append_str(&mut s, one.as_str());
            proof {
                let old_parts = parts;
                parts = parts.push(one@);
                assert(parts.drop_last() =~= old_parts);
            }
            i = i + 1;
        }
        assert(is_lexer_reports(self@, s@));
        s
    }

    pub fn is_empty(&self) -> (r: bool)
        ensures
            r == (self@.len() == 0),
    {
        self.data.len() == 0
    }

    /// A headline with the number of errors, then all reports.
    pub fn informate(&self) -> (r: String)
        ensures
            exists|reports: Seq<char>|
                is_lexer_reports(self@, reports) && r@ == lexer_headline(self@.len()) + reports,
    {
        let mut s = String::from_str("---- ");
        append_str(&mut s, "lexing-analyzer found ");
        let n = usize_to_string(self.data.len());
        append_str(&mut s, n.as_str());
        append_str(&mut s, " errors!");
        append_str(&mut s, " ----\n");
        let all = self.format_all();
        append_str(&mut s, all.as_str());
        assert(s@ =~= lexer_headline(self@.len()) + all@);
        s
    }
}


/// The report of `e` when colouring is on (`on`) or off throughout.
pub open spec fn lexer_report_in(e: LexerErrorView, on: bool) -> Seq<char> {
    let bar = coloured("|"@, cyan_code(), on);
    located_report(
        coloured(lexer_label(), red_code(), on),
        e.description,
        coloured("--> "@ + e.filename, cyan_code(), on),
        numbered_gutter(e.line_number as nat, decimal(e.line_number as nat), e.line, (bar, bar, bar)),
    )
}

/// The reports of `errors`, one after another, when colouring is on
/// (`on`) or off throughout.
pub open spec fn lexer_reports_in(errors: Seq<LexerErrorView>, on: bool) -> Seq<char>
    decreases errors.len(),
{
    if errors.len() == 0 {
        seq![]
    } else {
        lexer_reports_in(errors.drop_last(), on) + lexer_report_in(errors.last(), on)
    }
}

/// Attaching an error appends its report to the reports of the errors
/// before it: whatever colours each rendering chose, the reports after
/// `attach` may be read as the reports before followed by the new one; and
/// with one colour choice throughout, they are exactly that. The collection
/// is then not empty.
pub proof fn lexer_reports_grow_by_attached_report(
    errors: Seq<LexerErrorView>,
    before: Seq<char>,
    e: LexerErrorView,
    report: Seq<char>,
    on: bool,
)
    ensures
        is_lexer_reports(errors, before) && is_lexer_report(e, report) ==> is_lexer_reports(
            errors.push(e),
            before + report,
        ),
        lexer_reports_in(errors.push(e), on) == lexer_reports_in(errors, on) + lexer_report_in(e, on),
        is_lexer_report(e, lexer_report_in(e, on)),
        is_lexer_reports(errors, lexer_reports_in(errors, on)),
        errors.push(e).len() > 0,
{
    assert(errors.push(e).drop_last() =~= errors);
    if is_lexer_reports(errors, before) && is_lexer_report(e, report) {
        let parts = choose|parts: Seq<Seq<char>>|
            {
                &&& parts.len() == errors.len()
                &&& forall|i: int|
                    0 <= i < errors.len() ==> is_lexer_report(errors[i], #[trigger] parts[i])
                &&& before == #[trigger] concat_all(parts)
            };
        let more = parts.push(report);
        assert(more.drop_last() =~= parts);
        assert forall|i: int| 0 <= i < errors.push(e).len() implies is_lexer_report(
            errors.push(e)[i],
            #[trigger] more[i],
        ) by {
            if i < errors.len() {
                assert(more[i] == parts[i]);
            }
        }
        assert(concat_all(more) == before + report);
    }
    lemma_lexer_report_in(e, on);
    lemma_lexer_reports_in(errors, on);
}

proof fn lemma_lexer_report_in(e: LexerErrorView, on: bool)
    ensures
        is_lexer_report(e, lexer_report_in(e, on)),
{
    let bar = coloured("|"@, cyan_code(), on);
    let label = coloured(lexer_label(), red_code(), on);
    let path = coloured("--> "@ + e.filename, cyan_code(), on);
    assert(lexer_report_with(e, label, path, (bar, bar, bar), lexer_report_in(e, on)));
}

proof fn lemma_lexer_reports_in(errors: Seq<LexerErrorView>, on: bool)
    ensures
        is_lexer_reports(errors, lexer_reports_in(errors, on)),
    decreases errors.len(),
{
    let parts = Seq::new(errors.len(), |i: int| lexer_report_in(errors[i], on));
    assert forall|i: int| 0 <= i < errors.len() implies is_lexer_report(
        errors[i],
        #[trigger] parts[i],
    ) by {
        lemma_lexer_report_in(errors[i], on);
    }
    lemma_concat_reports_in(errors, on);
    assert(concat_all(parts) == lexer_reports_in(errors, on));
}

proof fn lemma_concat_reports_in(errors: Seq<LexerErrorView>, on: bool)
    ensures
        concat_all(Seq::new(errors.len(), |i: int| lexer_report_in(errors[i], on)))
            == lexer_reports_in(errors, on),
    decreases errors.len(),
{
    if errors.len() > 0 {
        lemma_concat_reports_in(errors.drop_last(), on);
        assert(Seq::new(errors.len(), |i: int| lexer_report_in(errors[i], on)).drop_last()
            =~= Seq::new(errors.drop_last().len(), |i: int| lexer_report_in(errors.drop_last()[i], on)));
    }
}

} // verus!
