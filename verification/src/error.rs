use crate::interpreter::InterpreterError;
use crate::token::{Token, TokenModel, TokenType};
use vstd::prelude::*;
use vstd::string::StringExecFns;

verus! {

/// One diagnostic, kept in the order it was reported. A `Report` renders as
/// `[line <line>] Error<location>: <message>`; a `Runtime` renders as the
/// message followed by `[line <line>]` on its own line.
pub enum Diagnostic {
    Report { line: u32, location: String, message: String },
    Runtime { line: u32, message: String },
}

/// The mathematical shape of a diagnostic.
pub enum DiagnosticModel {
    Report { line: u32, location: Seq<char>, message: Seq<char> },
    Runtime { line: u32, message: Seq<char> },
}

impl View for Diagnostic {
    type V = DiagnosticModel;

    open spec fn view(&self) -> DiagnosticModel {
        match self {
            Diagnostic::Report { line, location, message } => DiagnosticModel::Report {
                line: *line,
                location: location@,
                message: message@,
            },
            Diagnostic::Runtime { line, message } => DiagnosticModel::Runtime {
                line: *line,
                message: message@,
            },
        }
    }
}

/// The diagnostics under a vector of them.
pub open spec fn diagnostics_view(ds: Seq<Diagnostic>) -> Seq<DiagnosticModel> {
    ds.map(|i: int, d: Diagnostic| d@)
}

/// Where a parse error points: `at end` for the end-of-input marker, else
/// at the offending token's lexeme.
pub open spec fn parse_error_location(token: TokenModel) -> Seq<char> {
    if token.token_type == TokenType::EOF {
        " at end"@
    } else {
        " at '"@ + token.lexeme + "'"@
    }
}

/// Collects every lexical, syntactic and runtime diagnostic of a run, and
/// the sticky flags the host turns into an exit code. The pipeline only
/// ever appends; the host renders and resets.
pub struct SimpleErrorHandler {
    pub had_error: bool,
    pub had_runtime_error: bool,
    pub diagnostics: Vec<Diagnostic>,
}

impl SimpleErrorHandler {
    /// A fresh handler: no diagnostics, neither flag raised.
    pub fn new() -> (r: SimpleErrorHandler)
        ensures
            !r.had_error,
            !r.had_runtime_error,
            r.diagnostics@ == Seq::<Diagnostic>::empty(),
    {
        SimpleErrorHandler { had_error: false, had_runtime_error: false, diagnostics: Vec::new() }
    }

    /// Report a lexical (or other locationless) error: appends the
    /// diagnostic and raises the sticky error flag.
    pub fn error(&mut self, line: u32, message: &str)
        ensures
            final(self).had_error,
            final(self).had_runtime_error == old(self).had_runtime_error,
            diagnostics_view(final(self).diagnostics@) == diagnostics_view(
                old(self).diagnostics@,
            ).push(DiagnosticModel::Report { line, location: ""@, message: message@ }),
    {
        self.report(line, "".to_owned(), message);
    }

    /// Report a syntax error at a token: `at end` when the token is the
    /// end-of-input marker, else at its lexeme.
    pub fn parser_error(&mut self, token: &Token, msg: &str)
        ensures
            final(self).had_error,
            final(self).had_runtime_error == old(self).had_runtime_error,
            diagnostics_view(final(self).diagnostics@) == diagnostics_view(
                old(self).diagnostics@,
            ).push(
                DiagnosticModel::Report {
                    line: token@.line,
                    location: parse_error_location(token@),
                    message: msg@,
                },
            ),
    {
        let location = if matches!(token.token_type, TokenType::EOF) {
            " at end".to_owned()
        } else {
            let mut l = " at '".to_owned();
            l.append(token.lexeme.as_str());
            l.append("'");
            l
        };
        self.report(token.line, location, msg);
    }

    /// Report a runtime error: appends its message and line and raises the
    /// sticky runtime-error flag.
    pub fn runtime_error(&mut self, error: InterpreterError)
        ensures
            final(self).had_runtime_error,
            final(self).had_error == old(self).had_error,
            diagnostics_view(final(self).diagnostics@) == diagnostics_view(
                old(self).diagnostics@,
            ).push(
                DiagnosticModel::Runtime { line: error@.token.line, message: error@.message },
            ),
    {
        let ghost before = self.diagnostics@;
        self.diagnostics.push(
            Diagnostic::Runtime { line: error.token.line, message: error.message },
        );
        self.had_runtime_error = true;
        proof {
            assert(diagnostics_view(self.diagnostics@) =~= diagnostics_view(before).push(
                DiagnosticModel::Runtime { line: error@.token.line, message: error@.message },
            ));
        }
    }

    fn report(&mut self, line: u32, location: String, message: &str)
        ensures
            final(self).had_error,
            final(self).had_runtime_error == old(self).had_runtime_error,
            diagnostics_view(final(self).diagnostics@) == diagnostics_view(
                old(self).diagnostics@,
            ).push(DiagnosticModel::Report { line, location: location@, message: message@ }),
    {
        let ghost before = self.diagnostics@;
        let ghost loc = location@;
        self.diagnostics.push(Diagnostic::Report { line, location, message: message.to_owned() });
        self.had_error = true;
        proof {
            assert(diagnostics_view(self.diagnostics@) =~= diagnostics_view(before).push(
                DiagnosticModel::Report { line, location: loc, message: message@ },
            ));
        }
    }
}

} // verus!
