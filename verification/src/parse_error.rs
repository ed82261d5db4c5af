//! Errors found while parsing, and the collection of them that a failed
//! parse hands back.

use vstd::prelude::*;
use vstd::string::*;
use crate::report::{
    coloured,
    cyan_bars, debug_str, debug_text, join_spaced, located_report,
    numbered_gutter, paint_cyan, paint_gutter, paint_red, painted, red_code, cyan_code,
    render_located_report, spaced,
};
use crate::lexer_error::concat_all;
use crate::text::{append_str, decimal, push_char, usize_to_string};

verus! {

/// One parsing error: where it was found and what went wrong.
#[derive(Debug, Clone, PartialEq, Eq)]
pub struct ParseError {
    filename: String,
    description: String,
    line: String,
    line_number: usize,
    position: usize,
}

/// The content of a parsing error.
pub struct ParseErrorView {
    pub filename: Seq<char>,
    pub description: Seq<char>,
    pub line: Seq<char>,
    pub line_number: usize,
    pub position: usize,
}

impl View for ParseError {
    type V = ParseErrorView;

    closed spec fn view(&self) -> ParseErrorView {
        ParseErrorView {
            filename: self.filename@,
            description: self.description@,
            line: self.line@,
            line_number: self.line_number,
            position: self.position,
        }
    }
}

/// The label that starts a parsing report.
pub open spec fn parse_label() -> Seq<char> {
    "[ParseError]:"@
}

/// `r` is the report of `e` for the given renderings of its coloured parts.
pub open spec fn parse_report_with(
    e: ParseErrorView,
    label: Seq<char>,
    path: Seq<char>,
    bars: (Seq<char>, Seq<char>, Seq<char>),
    r: Seq<char>,
) -> bool {
    &&& painted(parse_label(), red_code(), label)
    &&& painted("--> "@ + e.filename, cyan_code(), path)
    &&& cyan_bars(bars)
    &&& r == located_report(
        label,
        e.description,
        path,
        numbered_gutter(e.line_number as nat, decimal(e.line_number as nat), e.line, bars),
    )
}

/// `r` is a rendering of the report of `e`, for some choice of colours.
pub open spec fn is_parse_report(e: ParseErrorView, r: Seq<char>) -> bool {
    exists|label: Seq<char>, path: Seq<char>, bars: (Seq<char>, Seq<char>, Seq<char>)|
        #[trigger] parse_report_with(e, label, path, bars, r)
}

/// The text of `debug_message` for a parsing error.
pub open spec fn parse_debug_text(e: ParseErrorView) -> Seq<char> {
    "Description: "@ + debug_text(e.description) + "\n            Line: "@ + debug_text(e.line)
        + "\n            Position: "@ + decimal(e.position as nat)
}

impl ParseError {
    pub fn new(
        filename: String,
        description: String,
        line: String,
        line_number: usize,
        position: usize,
    ) -> (r: Self)
        ensures
            r@ == (ParseErrorView {
                filename: filename@,
                description: description@,
                line: line@,
                line_number,
                position,
            }),
    {
        ParseError { filename, description, line, line_number, position }
    }

    /// A copy with the same content.
    pub fn duplicate(&self) -> (r: Self)
        ensures
            r@ == self@,
    {
        ParseError {
            filename: self.filename.clone(),
            description: self.description.clone(),
            line: self.line.clone(),
            line_number: self.line_number,
            position: self.position,
        }
    }

    pub fn get_description(&self) -> (r: String)
        ensures
            r@ == self@.description,
    {
        self.description.clone()
    }

    /// The red label followed by the description.
    pub fn error_description(&self) -> (r: String)
        ensures
            exists|label: Seq<char>|
                painted(parse_label(), red_code(), label) && r@ == #[trigger] spaced(
                    label,
                    self@.description,
                ),
    {
        let label = paint_red("[ParseError]:");
        assert(painted(parse_label(), red_code(), label@));
        let r = join_spaced(label.as_str(), self.description.as_str());
        assert(r@ == spaced(label@, self@.description));
        r
    }

    /// The full report: label, description, file and the framed line.
    pub fn format_error(&self) -> (r: String)
        ensures
            is_parse_report(self@, r@),
    {
        let label = paint_red("[ParseError]:");
        let mut path_text = String::from_str("--> ");
        append_str(&mut path_text, self.filename.as_str());
        let path = paint_cyan(path_text.as_str());
        let number = usize_to_string(self.line_number);
        let block = paint_gutter(self.line_number, number.as_str(), self.line.as_str());
        let r = render_located_report(
            label.as_str(),
            self.description.as_str(),
            path.as_str(),
            block.as_str(),
        );
        let ghost bars = choose|bars: (Seq<char>, Seq<char>, Seq<char>)|
            cyan_bars(bars) && block@ == numbered_gutter(
                self.line_number as nat,
                number@,
                self.line@,
                bars,
            );
        assert(painted("--> "@ + self@.filename, cyan_code(), path@));
        assert(painted(parse_label(), red_code(), label@));
        assert(cyan_bars(bars));
        assert(parse_report_with(self@, label@, path@, bars, r@));
        assert(r@ == located_report(
            label@,
            self@.description,
            path@,
            numbered_gutter(self.line_number as nat, decimal(self.line_number as nat), self@.line, bars),
        ));
        r
    }

    /// The fields in `{:?}` form, one per line.
    pub fn debug_message(&self) -> (r: String)
        ensures
            r@ == parse_debug_text(self@),
    {
        let mut s = String::from_str("Description: ");
        let d = debug_str(self.description.as_str());
        append_str(&mut s, d.as_str());
        append_str(&mut s, "\n            Line: ");
        let l = debug_str(self.line.as_str());
        append_str(&mut s, l.as_str());
        append_str(&mut s, "\n            Position: ");
        let p = usize_to_string(self.position);
        append_str(&mut s, p.as_str());
        s
    }
}

/// The errors of one parse, in the order they were found.
#[derive(Debug, Clone, PartialEq, Eq)]
pub struct ParseErrorHandler {
    data: Vec<Box<ParseError>>,
}

impl View for ParseErrorHandler {
    type V = Seq<ParseErrorView>;

    closed spec fn view(&self) -> Seq<ParseErrorView> {
        self.data@.map_values(|e: Box<ParseError>| (*e)@)
    }
}

/// `r` is the concatenation of renderings of the reports of `errors`.
pub open spec fn is_parse_reports(errors: Seq<ParseErrorView>, r: Seq<char>) -> bool {
    exists|parts: Seq<Seq<char>>|
        {
            &&& parts.len() == errors.len()
            &&& forall|i: int| 0 <= i < errors.len() ==> is_parse_report(errors[i], #[trigger] parts[i])
            &&& r == #[trigger] concat_all(parts)
        }
}

/// The headline of the summary of `n` parsing errors.
pub open spec fn parse_headline(n: nat) -> Seq<char> {
    "---- "@ + "parsing-analyzer found "@ + decimal(n) + " errors!"@ + " ----\n"@
}

impl ParseErrorHandler {
    pub fn new() -> (r: Self)
        ensures
            r@ == Seq::<ParseErrorView>::empty(),
    {
        ParseErrorHandler { data: Vec::new() }
    }

    pub fn attach(&mut self, parse_error: ParseError)
        ensures
            final(self)@ == old(self)@.push(parse_error@),
    {
        self.data.push(Box::new(parse_error));
        assert(self@ =~= old(self)@.push(parse_error@));
    }

    /// A copy with the same errors.
    pub fn duplicate(&self) -> (r: Self)
        ensures
            r@ == self@,
    {
        let mut data: Vec<Box<ParseError>> = Vec::new();
        let mut i: usize = 0;
        while i < self.data.len()
            invariant
                i <= self.data.len(),
                data@.map_values(|e: Box<ParseError>| (*e)@) == self@.subrange(0, i as int),
            decreases self.data.len() - i,
        {
            let d = self.data[i].duplicate();
            let ghost old_data = data@;
            data.push(Box::new(d));
            assert(data@ == old_data.push(Box::new(d)));
            assert(d@ == self@[i as int]);
            assert(data@.map_values(|e: Box<ParseError>| (*e)@) =~= old_data.map_values(
                |e: Box<ParseError>| (*e)@,
            ).push(d@));
            i = i + 1;
            assert(data@.map_values(|e: Box<ParseError>| (*e)@) =~= self@.subrange(0, i as int));
        }
        let r = ParseErrorHandler { data };
        assert(r@ =~= self@);
        r
    }

    /// The reports of all errors, one after another.
    pub fn format_all(&self) -> (r: String)
        ensures
            is_parse_reports(self@, r@),
    {
        let mut s = String::new();
        let ghost mut parts: Seq<Seq<char>> = seq![];
        let mut i: usize = 0;
        while i < self.data.len()
            invariant
                i <= self.data.len(),
                parts.len() == i,
                forall|k: int| 0 <= k < i ==> is_parse_report(self@[k], #[trigger] parts[k]),
                s@ == concat_all(parts),
            decreases self.data.len() - i,
        {
            let one = self.data[i].format_error();
            append_str(&mut s, one.as_str());
            proof {
                let old_parts = parts;
                parts = parts.push(one@);
                assert(parts.drop_last() =~= old_parts);
            }
            i = i + 1;
        }
        assert(is_parse_reports(self@, s@));
        s
    }

    pub fn is_empty(&self) -> (r: bool)
        ensures
            r == (self@.len() == 0),
    {
        self.data.len() == 0
    }

    /// A headline with the number of errors, then all reports.
    pub fn informate(&self) -> (r: String)
        ensures
            exists|reports: Seq<char>|
                is_parse_reports(self@, reports) && r@ == parse_headline(self@.len()) + reports,
    {
        let mut s = String::from_str("---- ");
        append_str(&mut s, "parsing-analyzer found ");
        let n = usize_to_string(self.data.len());
        append_str(&mut s, n.as_str());
        append_str(&mut s, " errors!");
        append_str(&mut s, " ----\n");
        let all = self.format_all();
        append_str(&mut s, all.as_str());
        assert(s@ =~= parse_headline(self@.len()) + all@);
        s
    }
}


/// The report of `e` when colouring is on (`on`) or off throughout.
pub open spec fn parse_report_in(e: ParseErrorView, on: bool) -> Seq<char> {
    let bar = coloured("|"@, cyan_code(), on);
    located_report(
        coloured(parse_label(), red_code(), on),
        e.description,
        coloured("--> "@ + e.filename, cyan_code(), on),
        numbered_gutter(e.line_number as nat, decimal(e.line_number as nat), e.line, (bar, bar, bar)),
    )
}

/// The reports of `errors`, one after another, when colouring is on
/// (`on`) or off throughout.
pub open spec fn parse_reports_in(errors: Seq<ParseErrorView>, on: bool) -> Seq<char>
    decreases errors.len(),
{
    if errors.len() == 0 {
        seq![]
    } else {
        parse_reports_in(errors.drop_last(), on) + parse_report_in(errors.last(), on)
    }
}

/// Attaching an error appends its report to the reports of the errors
/// before it: whatever colours each rendering chose, the reports after
/// `attach` may be read as the reports before followed by the new one; and
/// with one colour choice throughout, they are exactly that. The collection
/// is then not empty.
pub proof fn parse_reports_grow_by_attached_report(
    errors: Seq<ParseErrorView>,
    before: Seq<char>,
    e: ParseErrorView,
    report: Seq<char>,
    on: bool,
)
    ensures
        is_parse_reports(errors, before) && is_parse_report(e, report) ==> is_parse_reports(
            errors.push(e),
            before + report,
        ),
        parse_reports_in(errors.push(e), on) == parse_reports_in(errors, on) + parse_report_in(e, on),
        is_parse_report(e, parse_report_in(e, on)),
        is_parse_reports(errors, parse_reports_in(errors, on)),
        errors.push(e).len() > 0,
{
    assert(errors.push(e).drop_last() =~= errors);
    if is_parse_reports(errors, before) && is_parse_report(e, report) {
        let parts = choose|parts: Seq<Seq<char>>|
            {
                &&& parts.len() == errors.len()
                &&& forall|i: int|
                    0 <= i < errors.len() ==> is_parse_report(errors[i], #[trigger] parts[i])
                &&& before == #[trigger] concat_all(parts)
            };
        let more = parts.push(report);
        assert(more.drop_last() =~= parts);
        assert forall|i: int| 0 <= i < errors.push(e).len() implies is_parse_report(
            errors.push(e)[i],
            #[trigger] more[i],
        ) by {
            if i < errors.len() {
                assert(more[i] == parts[i]);
            }
        }
        assert(concat_all(more) == before + report);
    }
    lemma_parse_report_in(e, on);
    lemma_parse_reports_in(errors, on);
}

proof fn lemma_parse_report_in(e: ParseErrorView, on: bool)
    ensures
        is_parse_report(e, parse_report_in(e, on)),
{
    let bar = coloured("|"@, cyan_code(), on);
    let label = coloured(parse_label(), red_code(), on);
    let path = coloured("--> "@ + e.filename, cyan_code(), on);
    assert(parse_report_with(e, label, path, (bar, bar, bar), parse_report_in(e, on)));
}

proof fn lemma_parse_reports_in(errors: Seq<ParseErrorView>, on: bool)
    ensures
        is_parse_reports(errors, parse_reports_in(errors, on)),
    decreases errors.len(),
{
    let parts = Seq::new(errors.len(), |i: int| parse_report_in(errors[i], on));
    assert forall|i: int| 0 <= i < errors.len() implies is_parse_report(
        errors[i],
        #[trigger] parts[i],
    ) by {
        lemma_parse_report_in(errors[i], on);
    }
    lemma_concat_reports_in(errors, on);
    assert(concat_all(parts) == parse_reports_in(errors, on));
}

proof fn lemma_concat_reports_in(errors: Seq<ParseErrorView>, on: bool)
    ensures
        concat_all(Seq::new(errors.len(), |i: int| parse_report_in(errors[i], on)))
            == parse_reports_in(errors, on),
    decreases errors.len(),
{
    if errors.len() > 0 {
        lemma_concat_reports_in(errors.drop_last(), on);
        assert(Seq::new(errors.len(), |i: int| parse_report_in(errors[i], on)).drop_last()
            =~= Seq::new(errors.drop_last().len(), |i: int| parse_report_in(errors.drop_last()[i], on)));
    }
}

} // verus!
