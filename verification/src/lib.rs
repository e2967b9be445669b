//! A tree-walking interpreter for a small dynamically-typed scripting
//! language: a scanner from source text to tokens, a recursive-descent
//! parser from tokens to an abstract syntax tree, and an evaluator that
//! walks the tree against a stack of lexical scopes. Every stage is
//! specified by a mathematical model of its behaviour and verified
//! against it.

pub mod ast_printer;
pub mod environment;
pub mod error;
pub mod expr;
pub mod interpreter;
pub mod laws;
pub mod num;
pub mod parser;
pub mod scanner;
pub mod stmt;
pub mod token;
pub mod value;

use crate::environment::Environment;
use crate::error::{diagnostics_view, Diagnostic, DiagnosticModel, SimpleErrorHandler};
use crate::interpreter::{output_view, ExecOutcome, Halt, Interpreter};
use crate::parser::{parse_reports, spec_parse, toks_wf, Parser};
use crate::scanner::{lex_reports, scan_rest, scan_spec, scan_step, Scanner};
use crate::token::TokenType;
use crate::value::ValueModel;
use vstd::prelude::*;

verus! {

/// Every token a scan produces is well-formed parser input: the list ends
/// with the end-of-input marker, and number and string tokens carry their
/// literals.
pub proof fn lemma_scan_rest_wf(src: Seq<char>, pos: int, line: u32)
    ensures
        toks_wf(scan_rest(src, pos, line).0),
    decreases src.len() - pos,
{
    let toks = scan_rest(src, pos, line).0;
    if pos < 0 || pos >= src.len() {
        assert(toks.len() == 1);
    } else {
        let step = scan_step(src, pos, line);
        let next = if pos < step.pos <= src.len() {
            step.pos
        } else {
            pos + 1
        };
        lemma_scan_rest_wf(src, next, step.line);
        let rest = scan_rest(src, next, step.line).0;
        match step.token {
            Option::Some(t) => {
                assert(toks == seq![t] + rest);
                assert(toks.len() == rest.len() + 1);
                assert(toks[toks.len() - 1] == rest[rest.len() - 1]);
                assert forall|i: int|
                    0 <= i < toks.len() implies match #[trigger] toks[i].token_type {
                        TokenType::Number => toks[i].literal matches Option::Some(
                            crate::token::LiteralModel::Number(_),
                        ),
                        TokenType::Str => toks[i].literal matches Option::Some(
                            crate::token::LiteralModel::Str(_),
                        ),
                        _ => true,
                    } by {
                    if i == 0 {
                        assert(toks[0] == t);
                    } else {
                        assert(toks[i] == rest[i - 1]);
                    }
                }
            },
            Option::None => {
                assert(toks == rest);
            },
        }
    }
}

/// The execution a run performs: its statements in order, against the
/// session's environment, with nothing printed yet.
pub open spec fn spec_exec_seq_of_run(
    env: crate::environment::EnvModel,
    stmts: Seq<crate::stmt::StmtModel>,
    fuel: nat,
) -> ExecOutcome {
    crate::interpreter::spec_exec_seq(env, Seq::empty(), stmts, 0, fuel)
}

/// One interpreter session: the sticky error flags and diagnostics of its
/// error handler, and the global environment, which persists from run to
/// run so that a prompt keeps its variables.
pub struct Lox {
    pub error_handler: SimpleErrorHandler,
    pub environment: Environment,
}

impl Lox {
    /// A fresh session: no diagnostics, no errors, an empty global scope.
    pub fn new() -> (r: Lox)
        ensures
            !r.error_handler.had_error,
            !r.error_handler.had_runtime_error,
            r.error_handler.diagnostics@ == Seq::<Diagnostic>::empty(),
            r.environment.well_formed(),
            r.environment@ == seq![Seq::<(Seq<char>, ValueModel)>::empty()],
    {
        Lox { error_handler: SimpleErrorHandler::new(), environment: Environment::new() }
    }

    /// Run one piece of source: scan it, parse it, and — only when neither
    /// this run nor an earlier one raised the sticky error flag — execute
    /// it against the session's environment, returning the lines its
    /// `print` statements wrote. Lexical and syntax errors are collected
    /// in the handler, and a program with any of them is never executed;
    /// a runtime error stops execution where it happened and is reported
    /// exactly once.
    pub fn run(&mut self, source: &str, fuel: u64) -> (r: Vec<String>)
        requires
            old(self).environment.well_formed(),
            source@.len() < u32::MAX as int,
        ensures
            final(self).environment.well_formed(),
            ({
                let lex_errs = scan_spec(source@).1;
                let parse_out = spec_parse(scan_spec(source@).0);
                let reported = diagnostics_view(old(self).error_handler.diagnostics@)
                    + lex_reports(lex_errs) + parse_reports(parse_out.1);
                let blocked = old(self).error_handler.had_error || lex_errs.len() > 0
                    || parse_out.1.len() > 0;
                if blocked {
                    &&& final(self).environment@ == old(self).environment@
                    &&& r@ == Seq::<String>::empty()
                    &&& diagnostics_view(final(self).error_handler.diagnostics@) == reported
                    &&& final(self).error_handler.had_error
                    &&& final(self).error_handler.had_runtime_error == old(
                        self,
                    ).error_handler.had_runtime_error
                } else {
                    match spec_exec_seq_of_run(old(self).environment@, parse_out.0, fuel as nat) {
                        ExecOutcome::Done { env, out } => {
                            &&& final(self).environment@ == env
                            &&& output_view(r@) == out
                            &&& diagnostics_view(final(self).error_handler.diagnostics@)
                                == reported
                            &&& final(self).error_handler.had_error == old(
                                self,
                            ).error_handler.had_error
                            &&& final(self).error_handler.had_runtime_error == old(
                                self,
                            ).error_handler.had_runtime_error
                        },
                        ExecOutcome::Fault { err, env, out } => {
                            &&& final(self).environment@ == env
                            &&& output_view(r@) == out
                            &&& diagnostics_view(final(self).error_handler.diagnostics@)
                                == reported.push(
                                DiagnosticModel::Runtime {
                                    line: err.token.line,
                                    message: err.message,
                                },
                            )
                            &&& final(self).error_handler.had_runtime_error
                            &&& final(self).error_handler.had_error == old(
                                self,
                            ).error_handler.had_error
                        },
                        ExecOutcome::OutOfFuel { env, out } => {
                            &&& final(self).environment@ == env
                            &&& output_view(r@) == out
                            &&& diagnostics_view(final(self).error_handler.diagnostics@)
                                == reported
                            &&& final(self).error_handler.had_error == old(
                                self,
                            ).error_handler.had_error
                            &&& final(self).error_handler.had_runtime_error == old(
                                self,
                            ).error_handler.had_runtime_error
                        },
                    }
                }
            }),
    {
        let mut scanner = Scanner::new(source);
        let tokens = scanner.scan_tokens(&mut self.error_handler);
        proof {
            lemma_scan_rest_wf(source@, 0, 1);
        }
        let mut parser = Parser::new(tokens);
        let statements = parser.parse(&mut self.error_handler);
        if self.error_handler.had_error {
            return Vec::new();
        }
        let mut holder = Environment::new();
        core::mem::swap(&mut self.environment, &mut holder);
        let mut interpreter = Interpreter::new(holder);
        proof {
            assert(output_view(interpreter.output@) =~= Seq::<Seq<char>>::empty());
        }
        let outcome = interpreter.interpret(&statements, fuel);
        self.environment = interpreter.environment;
        let output = interpreter.output;
        match outcome {
            Result::Ok(_) => {},
            Result::Err(h) => match h {
                Halt::Error(e) => self.error_handler.runtime_error(e),
                Halt::OutOfFuel => {},
            },
        }
        output
    }
}

} // verus!
