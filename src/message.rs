//! The messages a build emits, one per line of its output, and their classification.
use cargo_metadata::diagnostic::DiagnosticLevel as L;
use cargo_metadata::Message as M;
use serde_json::from_str;
use vstd::prelude::*;

verus! {

/// Severity of a compiler diagnostic.
#[derive(Clone, Copy, Debug, PartialEq, Eq, Structural)]
pub enum Level {
    Error,
    Warning,
    Note,
    Help,
    Ice,
}

/// Severity as the structured record spells it, before classification.
#[derive(Clone, Copy, Debug, PartialEq, Eq, Structural)]
pub enum RawLevel {
    Ice,
    Error,
    Warning,
    Note,
    Help,
    /// Any other severity, such as a failure note.
    Other,
}

/// Where a diagnostic points: file name, line and column of its first span.
#[derive(Debug)]
pub struct SpanKey {
    pub file: String,
    pub line: usize,
    pub column: usize,
}

/// A compiler diagnostic as the structured record holds it.
#[derive(Debug)]
pub struct RawDiagnostic {
    pub level: RawLevel,
    pub rendered: Option<String>,
    pub package_id: String,
    pub span: Option<SpanKey>,
}

/// A structured record of the build's output.
#[derive(Debug)]
pub enum Record {
    Compiler(RawDiagnostic),
    Artifact,
    BuildScript,
    Finished(bool),
}

/// A classified compiler diagnostic.
#[derive(Debug)]
pub struct Diagnostic {
    pub level: Level,
    pub rendered: Option<String>,
    pub package_id: String,
    pub span: Option<SpanKey>,
}

/// What a line of output turned out to be.
#[derive(Debug)]
pub enum MessageKind {
    CompilerMessage(Diagnostic),
    CompilerArtifact,
    BuildScriptExecuted,
    BuildFinished(bool),
    Unrecognized,
}

/// One line of the build's output together with its classification.
#[derive(Debug)]
pub struct Message {
    pub line: String,
    pub kind: MessageKind,
}

/// Mathematical view of a span key.
pub type SpanView = (Seq<char>, usize, usize);

/// Mathematical view of a diagnostic.
pub struct DiagnosticView {
    pub level: Level,
    pub rendered: Option<Seq<char>>,
    pub package_id: Seq<char>,
    pub span: Option<SpanView>,
}

/// Mathematical view of a message kind.
pub enum KindView {
    CompilerMessage(DiagnosticView),
    CompilerArtifact,
    BuildScriptExecuted,
    BuildFinished(bool),
    Unrecognized,
}

/// Mathematical view of a message.
pub struct MessageView {
    pub line: Seq<char>,
    pub kind: KindView,
}

pub open spec fn opt_text(o: Option<String>) -> Option<Seq<char>> {
    match o {
        Some(s) => Some(s@),
        None => None,
    }
}

impl View for SpanKey {
    type V = SpanView;

    open spec fn view(&self) -> SpanView {
        (self.file@, self.line, self.column)
    }
}

pub open spec fn opt_span(o: Option<SpanKey>) -> Option<SpanView> {
    match o {
        Some(s) => Some(s@),
        None => None,
    }
}

impl View for RawDiagnostic {
    type V = DiagnosticView;

    open spec fn view(&self) -> DiagnosticView {
        DiagnosticView {
            level: level_of(self.level),
            rendered: opt_text(self.rendered),
            package_id: self.package_id@,
            span: opt_span(self.span),
        }
    }
}

impl View for Diagnostic {
    type V = DiagnosticView;

    open spec fn view(&self) -> DiagnosticView {
        DiagnosticView {
            level: self.level,
            rendered: opt_text(self.rendered),
            package_id: self.package_id@,
            span: opt_span(self.span),
        }
    }
}

impl View for MessageKind {
    type V = KindView;

    open spec fn view(&self) -> KindView {
        match self {
            MessageKind::CompilerMessage(d) => KindView::CompilerMessage(d@),
            MessageKind::CompilerArtifact => KindView::CompilerArtifact,
            MessageKind::BuildScriptExecuted => KindView::BuildScriptExecuted,
            MessageKind::BuildFinished(b) => KindView::BuildFinished(*b),
            MessageKind::Unrecognized => KindView::Unrecognized,
        }
    }
}

impl View for Message {
    type V = MessageView;

    open spec fn view(&self) -> MessageView {
        MessageView { line: self.line@, kind: self.kind@ }
    }
}

/// The record that a line of output decodes to, if it is one.
pub uninterp spec fn decoded(line: Seq<char>) -> Option<Record>;

/// Severity after classification: a severity outside the known set counts as a note.
pub open spec fn level_of(raw: RawLevel) -> Level {
    match raw {
        RawLevel::Ice => Level::Ice,
        RawLevel::Error => Level::Error,
        RawLevel::Warning => Level::Warning,
        RawLevel::Note => Level::Note,
        RawLevel::Help => Level::Help,
        RawLevel::Other => Level::Note,
    }
}

/// The classification of a line: its decoded record, or unrecognized.
pub open spec fn kind_of(line: Seq<char>) -> KindView {
    match decoded(line) {
        Some(Record::Compiler(d)) => KindView::CompilerMessage(d@),
        Some(Record::Artifact) => KindView::CompilerArtifact,
        Some(Record::BuildScript) => KindView::BuildScriptExecuted,
        Some(Record::Finished(b)) => KindView::BuildFinished(b),
        None => KindView::Unrecognized,
    }
}

/// The message that a line of output becomes.
pub open spec fn message_of(line: Seq<char>) -> MessageView {
    MessageView { line, kind: kind_of(line) }
}

pub open spec fn is_diagnostic(m: MessageView) -> bool {
    m.kind is CompilerMessage
}

pub open spec fn has_level(m: MessageView, l: Level) -> bool {
    match m.kind {
        KindView::CompilerMessage(d) => d.level == l,
        _ => false,
    }
}

pub open spec fn is_error(m: MessageView) -> bool {
    has_level(m, Level::Error)
}

pub open spec fn is_warning(m: MessageView) -> bool {
    has_level(m, Level::Warning)
}

/// Relies on serde_json::from_str deserializing a cargo_metadata::Message, whose
/// fields are moved into a record; the record depends on the line alone.
#[verifier::external_body]
fn decode_record(line: &str) -> (r: Option<Record>)
    ensures
        r == decoded(line@),
{
    match from_str(line).ok()? {
        M::CompilerMessage(c) => Some(Record::Compiler(RawDiagnostic {
            level: match c.message.level { L::Ice => RawLevel::Ice, L::Error => RawLevel::Error,
                L::Warning => RawLevel::Warning, L::Note => RawLevel::Note, L::Help => RawLevel::Help, _ => RawLevel::Other },
            rendered: c.message.rendered,
            package_id: c.package_id.repr,
            span: c.message.spans.first().map(|s| SpanKey { file: s.file_name.clone(), line: s.line_start, column: s.column_start }),
        })),
        M::CompilerArtifact(_) => Some(Record::Artifact),
        M::BuildScriptExecuted(_) => Some(Record::BuildScript),
        M::BuildFinished(f) => Some(Record::Finished(f.success)),
        _ => None,
    }
}

fn classify_level(raw: RawLevel) -> (r: Level)
    ensures
        r == level_of(raw),
{
    match raw {
        RawLevel::Ice => Level::Ice,
        RawLevel::Error => Level::Error,
        RawLevel::Warning => Level::Warning,
        RawLevel::Note => Level::Note,
        RawLevel::Help => Level::Help,
        RawLevel::Other => Level::Note,
    }
}

impl Message {
    /// Classifies one line of output. A line that is no structured record is
    /// kept as unrecognized, never rejected.
    pub fn classify(line: &str) -> (r: Message)
        ensures
            r@ == message_of(line@),
    {
        let kind = match decode_record(line) {
            Some(Record::Compiler(d)) => MessageKind::CompilerMessage(Diagnostic {
                level: classify_level(d.level),
                rendered: d.rendered,
                package_id: d.package_id,
                span: d.span,
            }),
            Some(Record::Artifact) => MessageKind::CompilerArtifact,
            Some(Record::BuildScript) => MessageKind::BuildScriptExecuted,
            Some(Record::Finished(b)) => MessageKind::BuildFinished(b),
            None => MessageKind::Unrecognized,
        };
        Message { line: line.to_owned(), kind }
    }
}

} // verus!
