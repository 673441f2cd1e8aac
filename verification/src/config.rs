//! The settings of a session.

use vstd::prelude::*;
use vstd::string::StringExecFns;

verus! {

/// Where the lines of a sheet of attendance start.
pub struct ExcelConfig {
    /// The number of lines before the first member.
    pub ln_skip: usize,
    /// The line that holds the column titles.
    pub data_ln: usize,
}

impl Default for ExcelConfig {
    /// Six lines before the first member, the titles on line 5.
    fn default() -> (c: Self)
        ensures
            c.ln_skip == 6,
            c.data_ln == 5,
    {
        Self { ln_skip: 6, data_ln: 5 }
    }
}

/// The settings of a session.
pub struct Config {
    /// Where printed sheets go.
    pub out_dir: String,
    /// Where the program works.
    pub working_dir: String,
    /// Whether to tell what is being done.
    pub verbose: bool,
    /// How the sheets of attendance are laid out.
    pub excel: ExcelConfig,
    /// Where the templates of the printed sheets are.
    pub typst_working_dir: String,
}

impl Default for Config {
    /// Sheets go to "./out", work is done in ".", the templates are in
    /// "templates", and the program tells what it does.
    fn default() -> (c: Self)
        ensures
            c.out_dir@ == "./out"@,
            c.verbose,
            c.excel.ln_skip == 6,
            c.excel.data_ln == 5,
            c.working_dir@ == "."@,
            c.typst_working_dir@ == "templates"@,
    {
        Self {
            out_dir: String::from_str("./out"),
            verbose: true,
            excel: ExcelConfig::default(),
            working_dir: String::from_str("."),
            typst_working_dir: String::from_str("templates"),
        }
    }
}

} // verus!
