//! The semantic checker: it takes a parsed package and the compilation
//! report, and records in the report what it finds wrong with the package.
use vstd::prelude::*;
use crate::common::CompilationReport;

verus! {

/// A module of a package: its name and the file it comes from.
#[derive(Debug, Clone)]
pub struct Module {
    pub name: String,
    pub file_id: usize,
}

/// An executable of a package.
#[derive(Debug, Clone)]
pub struct Binary {
    pub module: Module,
}

/// A parsed package: an optional library and its executables.
#[derive(Debug, Clone)]
pub struct Package {
    pub library: Option<Module>,
    pub binaries: Vec<Binary>,
}

/// Checks a package, writing what it finds to the compilation report. It
/// borrows both for as long as it runs.
pub struct SemanticAnalyzer<'a> {
    pub compilation_report: &'a mut CompilationReport,
    pub package: &'a mut Package,
}

impl<'a> SemanticAnalyzer<'a> {
    /// An analyzer over `package` that reports to `compilation_report`. What
    /// the analyzer leaves in its report and package is what the caller's
    /// report and package hold once the analyzer is gone.
    pub fn new(compilation_report: &'a mut CompilationReport, package: &'a mut Package) -> (r: Self)
        ensures
            *r.compilation_report == *old(compilation_report),
            *r.package == *old(package),
            *final(compilation_report) == *final(r.compilation_report),
            *final(package) == *final(r.package),
    {
        SemanticAnalyzer { compilation_report, package }
    }
}

} // verus!
