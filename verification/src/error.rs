use crate::ansi::{ansi_stripped, push_styled, style, styled, unansi};
use crate::assertion_error::{AssertionError, AssertionErrorView};
use crate::compilation_stage::{CompilationStage, stage_name};
use crate::lines::{chars_of, contains_char, has_char, join_strings, joined, lines_of, split_lines, string_of, texts};
use crate::text::{decimal, push_decimal, push_str};
use crate::source_diagnostic::{SourceDiagnostic, SourceDiagnosticView};
use vstd::prelude::*;
use vstd::string::{StrSliceExecFns, StringExecFns};

verus! {

/// What went wrong.
#[derive(Debug)]
pub enum ErrorKind {
    AssertionError(Box<AssertionError>),
    RuntimeError(Box<SourceDiagnostic>),
    Message(String),
    CompilationError(CompilationStage),
    /// An error of the standard library or another crate, held by the text
    /// that its `Display` implementation renders.
    Std(String),
}

/// Specification view of an [`ErrorKind`].
pub enum ErrorKindView {
    AssertionError(AssertionErrorView),
    RuntimeError(SourceDiagnosticView),
    Message(Seq<char>),
    CompilationError(CompilationStage),
    Std(Seq<char>),
}

impl View for ErrorKind {
    type V = ErrorKindView;

    open spec fn view(&self) -> ErrorKindView {
        match self {
            ErrorKind::AssertionError(a) => ErrorKindView::AssertionError(a@),
            ErrorKind::RuntimeError(d) => ErrorKindView::RuntimeError(d@),
            ErrorKind::Message(m) => ErrorKindView::Message(m@),
            ErrorKind::CompilationError(s) => ErrorKindView::CompilationError(*s),
            ErrorKind::Std(t) => ErrorKindView::Std(t@),
        }
    }
}

impl ErrorKind {
    /// Returns the inner message for message-based errors.
    pub fn as_message(&self) -> (message: Option<&String>)
        ensures
            match self@ {
                ErrorKindView::Message(m) => message is Some && message.unwrap()@ == m,
                _ => message is None,
            },
    {
        match self {
            ErrorKind::Message(message) => Some(message),
            _ => None,
        }
    }
}

/// The text an error kind displays.
pub open spec fn kind_text(kind: ErrorKindView) -> Seq<char> {
    match kind {
        ErrorKindView::AssertionError(a) => a.diagnostic.message,
        ErrorKindView::RuntimeError(d) => d.message,
        ErrorKindView::Message(m) => m,
        ErrorKindView::CompilationError(stage) => stage_name(stage) + " compilation error"@,
        ErrorKindView::Std(t) => t,
    }
}

impl ErrorKind {
    /// Returns the text this kind displays.
    pub fn to_string(&self) -> (text: String)
        ensures
            text@ == kind_text(self@),
    {
        match self {
            ErrorKind::AssertionError(a) => a.diagnostic.message.clone(),
            ErrorKind::RuntimeError(d) => d.message.clone(),
            ErrorKind::Message(m) => m.clone(),
            ErrorKind::CompilationError(stage) => {
                let mut text = stage.to_string();
                push_str(&mut text, " compilation error");
                text
            },
            ErrorKind::Std(t) => t.clone(),
        }
    }
}

/// Where in a program an error was raised.
#[derive(Debug, Clone, PartialEq, Eq)]
pub struct CodeLocation {
    pub file: String,
    pub line: u32,
    pub column: u32,
}

/// Specification view of a [`CodeLocation`].
pub struct CodeLocationView {
    pub file: Seq<char>,
    pub line: u32,
    pub column: u32,
}

impl View for CodeLocation {
    type V = CodeLocationView;

    open spec fn view(&self) -> CodeLocationView {
        CodeLocationView { file: self.file@, line: self.line, column: self.column }
    }
}

impl CodeLocation {
    /// Creates a location from a file name, line and column.
    pub fn new(file: &str, line: u32, column: u32) -> (location: Self)
        ensures
            location@ == (CodeLocationView { file: file@, line, column }),
    {
        CodeLocation { file: String::from_str(file), line, column }
    }

    /// Returns a copy of this location.
    pub fn duplicate(&self) -> (location: Self)
        ensures
            location@ == self@,
    {
        CodeLocation { file: self.file.clone(), line: self.line, column: self.column }
    }
}

/// The view of an optional location.
pub open spec fn location_view(location: Option<CodeLocation>) -> Option<CodeLocationView> {
    match location {
        Some(l) => Some(l@),
        None => None,
    }
}

/// One span of a span trace: where the span was declared in code and the
/// fields it recorded, as text.
#[derive(Debug, Clone, PartialEq, Eq)]
pub struct SpanRecord {
    /// The target of the span, usually its module path.
    pub target: String,
    /// The span's name.
    pub name: String,
    /// The span's recorded fields, as `key=value` words.
    pub fields: String,
    /// The file and line where the span was declared, when known.
    pub file_line: Option<(String, u32)>,
}

/// Specification view of a [`SpanRecord`].
pub struct SpanRecordView {
    pub target: Seq<char>,
    pub name: Seq<char>,
    pub fields: Seq<char>,
    pub file_line: Option<(Seq<char>, u32)>,
}

impl View for SpanRecord {
    type V = SpanRecordView;

    open spec fn view(&self) -> SpanRecordView {
        SpanRecordView {
            target: self.target@,
            name: self.name@,
            fields: self.fields@,
            file_line: match self.file_line {
                Some(fl) => Some((fl.0@, fl.1)),
                None => None,
            },
        }
    }
}

/// The views of a span trace's records.
pub open spec fn span_records_view(records: Seq<SpanRecord>) -> Seq<SpanRecordView> {
    records.map_values(|r: SpanRecord| r@)
}

/// An error with its kind, the location where it was raised (when the
/// caller recorded one), the span trace captured with it (innermost span
/// first; empty when none was captured) and the error that caused it.
#[derive(Debug)]
pub struct PixuiError {
    kind: ErrorKind,
    source: Option<Box<PixuiError>>,
    location: Option<CodeLocation>,
    span_trace: Vec<SpanRecord>,
}

/// Specification view of a [`PixuiError`]: the error and its chain of causes.
pub struct PixuiErrorView {
    pub kind: ErrorKindView,
    pub location: Option<CodeLocationView>,
    pub span_trace: Seq<SpanRecordView>,
    pub source: Option<Box<PixuiErrorView>>,
}

/// The view of an error together with the views of its causes.
pub closed spec fn error_view(error: PixuiError) -> PixuiErrorView
    decreases error,
{
    PixuiErrorView {
        kind: error.kind@,
        location: location_view(error.location),
        span_trace: span_records_view(error.span_trace@),
        source: match error.source {
            Some(source) => Some(Box::new(error_view(*source))),
            None => None,
        },
    }
}

impl View for PixuiError {
    type V = PixuiErrorView;

    open spec fn view(&self) -> PixuiErrorView {
        error_view(*self)
    }
}

/// The view of an error without a cause.
pub open spec fn root_error(kind: ErrorKindView, location: Option<CodeLocationView>) -> PixuiErrorView {
    PixuiErrorView { kind, location, span_trace: Seq::empty(), source: None }
}

impl PixuiError {
    /// Creates an error of the given kind at a recorded location.
    pub fn at_location(kind: ErrorKind, location: CodeLocation) -> (error: Self)
        ensures
            error@ == root_error(kind@, Some(location@)),
    {
        let error = PixuiError { kind, source: None, location: Some(location), span_trace: Vec::new() };
        assert(span_records_view(error.span_trace@) =~= Seq::<SpanRecordView>::empty());
        error
    }

    /// Creates an error of the given kind without a recorded location.
    pub fn new(kind: ErrorKind) -> (error: Self)
        ensures
            error@ == root_error(kind@, None),
    {
        let error = PixuiError { kind, source: None, location: None, span_trace: Vec::new() };
        assert(span_records_view(error.span_trace@) =~= Seq::<SpanRecordView>::empty());
        error
    }

    /// Creates a message error without a recorded location.
    pub fn message(s: &str) -> (error: Self)
        ensures
            error@ == root_error(ErrorKindView::Message(s@), None),
    {
        Self::new(ErrorKind::Message(String::from_str(s)))
    }

    /// Creates a message error from an owned message, without a recorded location.
    pub fn message_string(s: String) -> (error: Self)
        ensures
            error@ == root_error(ErrorKindView::Message(s@), None),
    {
        Self::new(ErrorKind::Message(s))
    }

    /// Creates a message error at a recorded location.
    pub fn message_at_location(s: &str, location: CodeLocation) -> (error: Self)
        ensures
            error@ == root_error(ErrorKindView::Message(s@), Some(location@)),
    {
        Self::at_location(ErrorKind::Message(String::from_str(s)), location)
    }

    /// Creates an assertion error without a recorded location.
    pub fn assertion_error(assertion_error: AssertionError) -> (error: Self)
        ensures
            error@ == root_error(ErrorKindView::AssertionError(assertion_error@), None),
    {
        Self::new(ErrorKind::AssertionError(Box::new(assertion_error)))
    }

    /// Creates an assertion error at a recorded location.
    pub fn assertion_error_at_location(
        assertion_error: AssertionError,
        location: CodeLocation,
    ) -> (error: Self)
        ensures
            error@ == root_error(ErrorKindView::AssertionError(assertion_error@), Some(location@)),
    {
        Self::at_location(ErrorKind::AssertionError(Box::new(assertion_error)), location)
    }

    /// Creates a runtime error carrying a source diagnostic, without a recorded location.
    pub fn runtime_error(diagnostic: SourceDiagnostic) -> (error: Self)
        ensures
            error@ == root_error(ErrorKindView::RuntimeError(diagnostic@), None),
    {
        Self::new(ErrorKind::RuntimeError(Box::new(diagnostic)))
    }

    /// Creates a runtime error carrying a source diagnostic at a recorded location.
    pub fn runtime_error_at_location(diagnostic: SourceDiagnostic, location: CodeLocation) -> (error: Self)
        ensures
            error@ == root_error(ErrorKindView::RuntimeError(diagnostic@), Some(location@)),
    {
        Self::at_location(ErrorKind::RuntimeError(Box::new(diagnostic)), location)
    }

    /// Creates a compilation error for a stage, without a recorded location.
    pub fn compilation_error(stage: CompilationStage) -> (error: Self)
        ensures
            error@ == root_error(ErrorKindView::CompilationError(stage), None),
    {
        Self::new(ErrorKind::CompilationError(stage))
    }

    /// Creates a compilation error for a stage at a recorded location.
    pub fn compilation_error_at_location(stage: CompilationStage, location: CodeLocation) -> (error: Self)
        ensures
            error@ == root_error(ErrorKindView::CompilationError(stage), Some(location@)),
    {
        Self::at_location(ErrorKind::CompilationError(stage), location)
    }

    /// Creates an error from the rendered text of another error, without a recorded location.
    pub fn std_error(text: &str) -> (error: Self)
        ensures
            error@ == root_error(ErrorKindView::Std(text@), None),
    {
        Self::new(ErrorKind::Std(String::from_str(text)))
    }

    /// Creates an error from the rendered text of another error at a recorded location.
    pub fn std_at_location(text: &str, location: CodeLocation) -> (error: Self)
        ensures
            error@ == root_error(ErrorKindView::Std(text@), Some(location@)),
    {
        Self::at_location(ErrorKind::Std(String::from_str(text)), location)
    }

    /// Returns the kind of this error.
    pub fn kind(&self) -> (kind: &ErrorKind)
        ensures
            kind@ == self@.kind,
    {
        &self.kind
    }

    /// Returns the error that caused this one.
    pub fn source(&self) -> (source: Option<&PixuiError>)
        ensures
            match self@.source {
                Some(s) => source is Some && source.unwrap()@ == *s,
                None => source is None,
            },
    {
        match &self.source {
            Some(source) => Some(&**source),
            None => None,
        }
    }

    /// Returns the location where this error was raised, when one was recorded.
    pub fn location(&self) -> (location: Option<&CodeLocation>)
        ensures
            match self@.location {
                Some(l) => location is Some && location.unwrap()@ == l,
                None => location is None,
            },
    {
        match &self.location {
            Some(location) => Some(location),
            None => None,
        }
    }

    /// Returns this error with `source` recorded as its cause.
    pub fn with_source(self, source: PixuiError) -> (error: Self)
        ensures
            error@ == (PixuiErrorView { source: Some(Box::new(source@)), ..self@ }),
    {
        PixuiError {
            kind: self.kind,
            source: Some(Box::new(source)),
            location: self.location,
            span_trace: self.span_trace,
        }
    }

    /// Returns this error with `span_trace` as the span trace captured with it.
    pub fn with_span_trace(self, span_trace: Vec<SpanRecord>) -> (error: Self)
        ensures
            error@ == (PixuiErrorView { span_trace: span_records_view(span_trace@), ..self@ }),
    {
        PixuiError { kind: self.kind, source: self.source, location: self.location, span_trace }
    }

    /// Returns the span trace captured with this error, innermost span first.
    pub fn span_trace(&self) -> (span_trace: &Vec<SpanRecord>)
        ensures
            span_records_view(span_trace@) == self@.span_trace,
    {
        &self.span_trace
    }

    /// Returns this error with the rendered text of another error, raised at
    /// `location`, recorded as its cause.
    pub fn with_std_source_at_location(self, text: &str, location: CodeLocation) -> (error: Self)
        ensures
            error@ == (PixuiErrorView {
                source: Some(Box::new(root_error(ErrorKindView::Std(text@), Some(location@)))),
                ..self@
            }),
    {
        self.with_source(PixuiError::std_at_location(text, location))
    }

    /// Returns this error with the rendered text of another error recorded as its cause.
    pub fn with_std_source(self, text: &str) -> (error: Self)
        ensures
            error@ == (PixuiErrorView {
                source: Some(Box::new(root_error(ErrorKindView::Std(text@), None))),
                ..self@
            }),
    {
        self.with_source(PixuiError::std_error(text))
    }
}

/// `prefix  at file:line:column` and a line break, for a recorded location.
pub open spec fn location_text(prefix: Seq<char>, location: Option<CodeLocationView>) -> Seq<char> {
    match location {
        Some(l) => prefix + styled("2;37"@, "  at"@) + " "@ + l.file + ":"@ + decimal(l.line as nat)
            + ":"@ + decimal(l.column as nat) + "\n"@,
        None => Seq::empty(),
    }
}

/// Each line indented by `prefix` and three spaces, each ending in a line break.
pub open spec fn indented_lines(prefix: Seq<char>, lines: Seq<Seq<char>>) -> Seq<char>
    decreases lines.len(),
{
    if lines.len() == 0 {
        Seq::empty()
    } else {
        indented_lines(prefix, lines.drop_last()) + prefix + "   "@ + lines.last() + "\n"@
    }
}

/// A cause under `label`: on the same line when it is a single line, else
/// as an indented block below the label.
pub open spec fn rendered_cause(prefix: Seq<char>, label: Seq<char>, rendered: Seq<char>) -> Seq<char> {
    if has_char(rendered, '\n') {
        prefix + label + "\n"@ + indented_lines(prefix, lines_of(rendered))
    } else {
        prefix + label + " "@ + rendered + "\n"@
    }
}

/// One span of a span trace, numbered `index`: its target and name, its
/// formatted fields when it has any, and where it was declared when known.
pub open spec fn span_entry(prefix: Seq<char>, index: nat, record: SpanRecordView) -> Seq<char> {
    prefix + "    "@ + decimal(index) + ": "@ + record.target + "::"@ + record.name + "\n"@ + (if record.fields.len()
        > 0 {
        prefix + "       "@ + formatted_fields(record.fields) + "\n"@
    } else {
        Seq::empty()
    }) + match record.file_line {
        Some(fl) => prefix + "       at "@ + fl.0 + ":"@ + decimal(fl.1 as nat) + "\n"@,
        None => Seq::empty(),
    }
}

/// The spans of a span trace, numbered from zero and separated by blank lines.
pub open spec fn span_block(prefix: Seq<char>, records: Seq<SpanRecordView>) -> Seq<char>
    decreases records.len(),
{
    if records.len() == 0 {
        Seq::empty()
    } else {
        span_block(prefix, records.drop_last()) + (if records.len() > 1 {
            "\n"@
        } else {
            Seq::empty()
        }) + span_entry(prefix, (records.len() - 1) as nat, records.last())
    }
}

/// The span-trace section of an error: shown for the root cause only, when
/// a trace was captured.
pub open spec fn span_trace_text(prefix: Seq<char>, error: PixuiErrorView) -> Seq<char> {
    if error.source is None && error.span_trace.len() > 0 {
        prefix + styled("36"@, "  span trace:"@) + "\n"@ + span_block(prefix, error.span_trace)
    } else {
        Seq::empty()
    }
}

/// The details of an error: its location, its span trace when it is the
/// root cause, then each cause with its own details, indented three more
/// spaces per level.
pub open spec fn error_details(error: PixuiErrorView, prefix: Seq<char>) -> Seq<char>
    decreases error,
{
    location_text(prefix, error.location) + span_trace_text(prefix, error) + match error.source {
        Some(source) => rendered_cause(prefix, styled("33"@, "caused by:"@), kind_text(source.kind))
            + error_details(*source, prefix + "   "@),
        None => Seq::empty(),
    }
}

/// The full report of an error: a headline with its kind, then its details.
pub open spec fn rendered_error(error: PixuiErrorView) -> Seq<char> {
    styled("1;31"@, "× error"@) + " "@ + kind_text(error.kind) + "\n"@ + error_details(error, Seq::empty())
}

/// Appends the location line for a recorded location.
fn push_location(out: &mut String, prefix: &str, location: Option<&CodeLocation>)
    ensures
        final(out)@ == old(out)@ + location_text(
            prefix@,
            match location {
                Some(l) => Some(l@),
                None => None,
            },
        ),
{
    match location {
        Some(l) => {
            push_str(out, prefix);
            push_styled(out, "2;37", "  at");
            push_str(out, " ");
            push_str(out, l.file.as_str());
            push_str(out, ":");
            push_decimal(out, l.line as usize);
            push_str(out, ":");
            push_decimal(out, l.column as usize);
            push_str(out, "\n");
            assert(final(out)@ =~= old(out)@ + location_text(prefix@, Some(l@)));
        },
        None => {
            assert(final(out)@ =~= old(out)@ + Seq::<char>::empty());
        },
    }
}

/// Appends a cause under the `caused by:` label.
fn write_rendered_cause(out: &mut String, prefix: &str, rendered: &str)
    ensures
        final(out)@ == old(out)@ + rendered_cause(prefix@, styled("33"@, "caused by:"@), rendered@),
{
    let ghost label = styled("33"@, "caused by:"@);
    if contains_char(rendered, '\n') {
        push_str(out, prefix);
        push_styled(out, "33", "caused by:");
        push_str(out, "\n");
        let lines = split_lines(rendered);
        let ghost views = lines@.map_values(|l: String| l@);
        let ghost start = final(out)@;
        let mut i: usize = 0;
        while i < lines.len()
            invariant
                views == lines@.map_values(|l: String| l@),
                views == lines_of(rendered@),
                i <= lines@.len(),
                out@ == old(out)@ + prefix@ + label + "\n"@ + indented_lines(prefix@, views.subrange(0, i as int)),
            decreases lines@.len() - i,
        {
            let ghost before = out@;
            push_str(out, prefix);
            push_str(out, "   ");
            push_str(out, lines[i].as_str());
            push_str(out, "\n");
            proof {
                let next = views.subrange(0, i + 1);
                assert(next.drop_last() =~= views.subrange(0, i as int));
                assert(next.last() == views[i as int]);
                assert(out@ =~= old(out)@ + prefix@ + label + "\n"@ + indented_lines(prefix@, next));
            }
            i = i + 1;
        }
        assert(views.subrange(0, i as int) =~= views);
    } else {
        push_str(out, prefix);
        push_styled(out, "33", "caused by:");
        push_str(out, " ");
        push_str(out, rendered);
        push_str(out, "\n");
        assert(final(out)@ =~= old(out)@ + rendered_cause(prefix@, label, rendered@));
    }
}

/// Appends one span of a span trace.
#[verifier::spinoff_prover]
#[verifier::rlimit(40)]
fn write_span_entry(out: &mut String, prefix: &str, index: usize, record: &SpanRecord)
    ensures
        final(out)@ == old(out)@ + span_entry(prefix@, index as nat, record@),
{
    let ghost r = record@;
    let ghost head = prefix@ + "    "@ + decimal(index as nat) + ": "@ + r.target + "::"@ + r.name + "\n"@;
    let ghost fields_part = if r.fields.len() > 0 {
        prefix@ + "       "@ + formatted_fields(r.fields) + "\n"@
    } else {
        Seq::<char>::empty()
    };
    let ghost file_part = match r.file_line {
        Some(fl) => prefix@ + "       at "@ + fl.0 + ":"@ + decimal(fl.1 as nat) + "\n"@,
        None => Seq::<char>::empty(),
    };
    assert(span_entry(prefix@, index as nat, r) == head + fields_part + file_part);
    push_str(out, prefix);
    push_str(out, "    ");
    push_decimal(out, index);
    push_str(out, ": ");
    push_str(out, record.target.as_str());
    push_str(out, "::");
    push_str(out, record.name.as_str());
    push_str(out, "\n");
    assert(out@ =~= old(out)@ + head);
    let ghost after_head = out@;
    if record.fields.as_str().unicode_len() > 0 {
        push_str(out, prefix);
        push_str(out, "       ");
        let fields = format_span_trace_fields(record.fields.as_str());
        push_str(out, fields.as_str());
        push_str(out, "\n");
        assert(out@ =~= after_head + fields_part);
    } else {
        assert(out@ =~= after_head + fields_part);
    }
    let ghost after_fields = out@;
    match &record.file_line {
        Some(fl) => {
            push_str(out, prefix);
            push_str(out, "       at ");
            push_str(out, fl.0.as_str());
            push_str(out, ":");
            push_decimal(out, fl.1 as usize);
            push_str(out, "\n");
            assert(out@ =~= after_fields + file_part);
        },
        None => {
            assert(out@ =~= after_fields + file_part);
        },
    }
    assert(out@ =~= old(out)@ + (head + fields_part + file_part));
}

/// Appends the spans of a span trace.
fn write_span_trace(out: &mut String, prefix: &str, records: &Vec<SpanRecord>)
    ensures
        final(out)@ == old(out)@ + span_block(prefix@, span_records_view(records@)),
{
    let ghost views = span_records_view(records@);
    let mut i: usize = 0;
    while i < records.len()
        invariant
            views == span_records_view(records@),
            i <= records@.len(),
            out@ == old(out)@ + span_block(prefix@, views.subrange(0, i as int)),
        decreases records@.len() - i,
    {
        let ghost before = out@;
        if i > 0 {
            push_str(out, "\n");
        }
        write_span_entry(out, prefix, i, &records[i]);
        proof {
            let next = views.subrange(0, i + 1);
            assert(next.drop_last() =~= views.subrange(0, i as int));
            assert(next.last() == records@[i as int]@);
            assert(out@ =~= old(out)@ + span_block(prefix@, next));
        }
        i = i + 1;
    }
    assert(views.subrange(0, i as int) =~= views);
}

impl PixuiError {
    /// Appends the details of this error below its headline.
    #[verifier::spinoff_prover]
    #[verifier::rlimit(40)]
    fn write_details(&self, out: &mut String, prefix: &String)
        ensures
            final(out)@ == old(out)@ + error_details(self@, prefix@),
        decreases self,
    {
        push_location(out, prefix.as_str(), self.location());
        if self.source.is_none() && self.span_trace.len() > 0 {
            push_str(out, prefix.as_str());
            push_styled(out, "36", "  span trace:");
            push_str(out, "\n");
            write_span_trace(out, prefix.as_str(), &self.span_trace);
        }
        let ghost after_trace = out@;
        assert(after_trace =~= old(out)@ + location_text(prefix@, self@.location) + span_trace_text(prefix@, self@));
        match &self.source {
            Some(source) => {
                let rendered = source.kind.to_string();
                write_rendered_cause(out, prefix.as_str(), rendered.as_str());
                let mut child_prefix = prefix.clone();
                push_str(&mut child_prefix, "   ");
                source.write_details(out, &child_prefix);
            },
            None => {},
        }
        assert(final(out)@ =~= old(out)@ + error_details(self@, prefix@));
    }

    /// Appends the full report of this error to `write`.
    pub fn write_to(&self, write: &mut String)
        ensures
            final(write)@ == old(write)@ + rendered_error(self@),
    {
        push_styled(write, "1;31", "× error");
        push_str(write, " ");
        let kind = self.kind.to_string();
        push_str(write, kind.as_str());
        push_str(write, "\n");
        self.write_details(write, &String::new());
        assert(final(write)@ =~= old(write)@ + rendered_error(self@));
    }

    /// The report of this error without terminal styling.
    pub fn to_test_string(&self) -> (text: String)
        ensures
            text@ == ansi_stripped(rendered_error(self@)),
    {
        let mut test_string = String::new();
        self.write_to(&mut test_string);
        unansi(test_string.as_str())
    }
}

/// The causes of an error, outermost first: each with its displayed kind
/// and its recorded location.
pub open spec fn cause_chain(error: PixuiErrorView) -> Seq<(Seq<char>, Option<CodeLocationView>)>
    decreases error,
{
    match error.source {
        Some(source) => seq![(kind_text(source.kind), source.location)] + cause_chain(*source),
        None => Seq::empty(),
    }
}

/// The views of collected causes.
pub open spec fn causes_view(causes: Seq<(String, Option<CodeLocation>)>) -> Seq<(Seq<char>, Option<CodeLocationView>)> {
    causes.map_values(|c: (String, Option<CodeLocation>)| (c.0@, location_view(c.1)))
}

impl PixuiError {
    /// Appends the causes of this error, outermost first.
    pub(crate) fn collect_causes(&self, causes: &mut Vec<(String, Option<CodeLocation>)>)
        ensures
            causes_view(final(causes)@) == causes_view(old(causes)@) + cause_chain(self@),
        decreases self,
    {
        match &self.source {
            Some(source) => {
                let text = source.kind.to_string();
                let location = match &source.location {
                    Some(l) => Some(l.duplicate()),
                    None => None,
                };
                let ghost before = causes_view(causes@);
                causes.push((text, location));
                assert(causes_view(causes@) =~= before.push((text@, location_view(location))));
                source.collect_causes(causes);
                assert(causes_view(final(causes)@) =~= causes_view(old(causes)@) + cause_chain(self@));
            },
            None => {
                assert(causes_view(final(causes)@) =~= causes_view(old(causes)@) + cause_chain(self@));
            },
        }
    }
}

/// Whether `c` is white space: it has the Unicode `White_Space` property,
/// as `char::is_whitespace` tests.
pub open spec fn is_white_space(c: char) -> bool {
    ||| '\u{9}' <= c <= '\u{d}'
    ||| c == ' '
    ||| c == '\u{85}'
    ||| c == '\u{a0}'
    ||| c == '\u{1680}'
    ||| '\u{2000}' <= c <= '\u{200a}'
    ||| c == '\u{2028}'
    ||| c == '\u{2029}'
    ||| c == '\u{202f}'
    ||| c == '\u{205f}'
    ||| c == '\u{3000}'
}

/// Whether `c` is white space.
fn white_space(c: char) -> (found: bool)
    ensures
        found == is_white_space(c),
{
    ('\u{9}' <= c && c <= '\u{d}') || c == ' ' || c == '\u{85}' || c == '\u{a0}' || c == '\u{1680}' || (
    '\u{2000}' <= c && c <= '\u{200a}') || c == '\u{2028}' || c == '\u{2029}' || c == '\u{202f}' || c
        == '\u{205f}' || c == '\u{3000}'
}

/// The words of the first `n` characters of `s` that white space has
/// ended, and the word still being read.
pub open spec fn words_upto(s: Seq<char>, n: int) -> (Seq<Seq<char>>, Seq<char>)
    decreases n,
{
    if n <= 0 {
        (Seq::empty(), Seq::empty())
    } else {
        let (done, word) = words_upto(s, n - 1);
        if is_white_space(s[n - 1]) {
            if word.len() > 0 {
                (done.push(word), Seq::empty())
            } else {
                (done, word)
            }
        } else {
            (done, word.push(s[n - 1]))
        }
    }
}

/// The words of `s`: its maximal runs of characters that are not white
/// space, in order (`str::split_whitespace`).
pub open spec fn words(s: Seq<char>) -> Seq<Seq<char>> {
    let (done, word) = words_upto(s, s.len() as int);
    if word.len() > 0 {
        done.push(word)
    } else {
        done
    }
}

/// The position of the first `c` in `s`.
pub open spec fn first_position(s: Seq<char>, c: char) -> int {
    choose|k: int| 0 <= k < s.len() && s[k] == c && forall|j: int| 0 <= j < k ==> s[j] != c
}

/// A span-trace field as displayed: `key=value` becomes `key: ` and the
/// value in bold white; a field without `=` stays as it is.
pub open spec fn formatted_field(field: Seq<char>) -> Seq<char> {
    if has_char(field, '=') {
        let k = first_position(field, '=');
        field.subrange(0, k) + ": "@ + styled("1;97"@, field.subrange(k + 1, field.len() as int))
    } else {
        field
    }
}

/// The fields of a span trace as displayed: the formatted words, separated
/// by single spaces.
pub open spec fn formatted_fields(fields: Seq<char>) -> Seq<char> {
    joined(words(fields).map_values(|w: Seq<char>| formatted_field(w)), " "@)
}

/// Splits a string at white space (`str::split_whitespace`).
fn split_words(s: &str) -> (split: Vec<String>)
    ensures
        texts(split@) == words(s@),
{
    let chars = chars_of(s);
    let mut done: Vec<String> = Vec::new();
    let mut word: Vec<char> = Vec::new();
    let mut i: usize = 0;
    while i < chars.len()
        invariant
            chars@ == s@,
            i <= chars@.len(),
            (texts(done@), word@) == words_upto(s@, i as int),
        decreases chars@.len() - i,
    {
        let c = chars[i];
        if white_space(c) {
            if word.len() > 0 {
                let ghost before = texts(done@);
                done.push(string_of(&word, 0, word.len()));
                assert(word@.subrange(0, word@.len() as int) =~= word@);
                assert(texts(done@) =~= before.push(word@));
                word = Vec::new();
                assert(word@ =~= Seq::<char>::empty());
            }
        } else {
            word.push(c);
        }
        i = i + 1;
    }
    if word.len() > 0 {
        let ghost before = texts(done@);
        done.push(string_of(&word, 0, word.len()));
        assert(word@.subrange(0, word@.len() as int) =~= word@);
        assert(texts(done@) =~= before.push(word@));
    }
    done
}

/// Formats one span-trace field.
fn format_field(field: &str) -> (formatted: String)
    ensures
        formatted@ == formatted_field(field@),
{
    let chars = chars_of(field);
    let mut k: usize = 0;
    while k < chars.len()
        invariant
            chars@ == field@,
            k <= chars@.len(),
            forall|j: int| 0 <= j < k ==> chars@[j] != '=',
        decreases chars@.len() - k,
    {
        if chars[k] == '=' {
            proof {
                let p = first_position(field@, '=');
                assert(has_char(field@, '='));
                assert(0 <= p < field@.len() && field@[p] == '=' && forall|j: int| 0 <= j < p ==> field@[j] != '=');
                if p < k {
                    assert(chars@[p] != '=');
                } else if p > k {
                    assert(field@[k as int] != '=');
                }
            }
            let mut formatted = string_of(&chars, 0, k);
            push_str(&mut formatted, ": ");
            let value = string_of(&chars, k + 1, chars.len());
            let styled_value = style("1;97", value.as_str());
            push_str(&mut formatted, styled_value.as_str());
            return formatted;
        }
        k = k + 1;
    }
    assert(!has_char(field@, '='));
    string_of(&chars, 0, chars.len())
}

/// Formats the fields of a span trace for display: `key=value` pairs
/// become `key: value` with the value in bold white.
pub fn format_span_trace_fields(fields: &str) -> (formatted: String)
    ensures
        formatted@ == formatted_fields(fields@),
{
    let split = split_words(fields);
    let mut pieces: Vec<String> = Vec::new();
    let mut i: usize = 0;
    while i < split.len()
        invariant
            i <= split@.len(),
            texts(split@) == words(fields@),
            pieces@.len() == i,
            forall|j: int| 0 <= j < i ==> #[trigger] pieces@[j]@ == formatted_field(split@[j]@),
        decreases split@.len() - i,
    {
        pieces.push(format_field(split[i].as_str()));
        i = i + 1;
    }
    let formatted = join_strings(&pieces, " ");
    assert(pieces@.map_values(|p: String| p@) =~= words(fields@).map_values(|w: Seq<char>| formatted_field(w)));
    formatted
}

} // verus!
