//! The search configuration, the decisions taken for each walked entry, and
//! the running total of matches.
use vstd::prelude::*;
use vstd::string::StringSliceAdditionalSpecFns;
use crate::entry::{
    chars_of, contains_extension, extension_of, file_extension, parse_extensions, split_commas,
    texts_of,
};
use crate::highlight::{highlight, pieces_of, Piece};
use crate::pattern::{pattern_compiles, pattern_finds, pattern_spans, Matcher};
use crate::scan::{file_records, scan_lines, MatchRecord};

verus! {

/// Why a search cannot start.
#[derive(Debug)]
pub enum ConfigError {
    /// The root is missing or is not a directory.
    InvalidDirectory,
    /// The pattern is not a valid regular expression.
    InvalidPattern(regex::Error),
}

/// What a search looks for and where; built once, before any traversal.
pub struct SearchConfig {
    pub matcher: Matcher,
    pub content_mode: bool,
    pub recurse: bool,
    pub context_radius: usize,
    pub extensions: Option<Vec<Vec<char>>>,
    pub include_hidden: bool,
}

/// Whether an entry passes the filter: it is a regular file; it is not
/// hidden or system unless those are included; and, when an extension filter
/// is set, its name has an extension that is one of the filter's, exactly.
pub open spec fn entry_accepted(
    is_file: bool,
    hidden: bool,
    include_hidden: bool,
    filter: Option<Seq<Seq<char>>>,
    name: Option<Seq<char>>,
) -> bool {
    &&& is_file
    &&& include_hidden || !hidden
    &&& match filter {
        None => true,
        Some(list) => match name {
            None => false,
            Some(n) => match extension_of(n) {
                None => false,
                Some(e) => list.contains(e),
            },
        },
    }
}

/// The view of an optional name.
pub open spec fn name_view(name: Option<&str>) -> Option<Seq<char>> {
    match name {
        Some(n) => Some(n@),
        None => None,
    }
}

impl SearchConfig {
    /// The extensions an eligible file must have, if any filter is set.
    pub open spec fn extension_filter(&self) -> Option<Seq<Seq<char>>> {
        match self.extensions {
            Some(v) => Some(texts_of(v@)),
            None => None,
        }
    }

    /// Builds a configuration. The root is checked first (`root_is_dir` says
    /// whether it exists and is a directory), then the pattern; `extensions`
    /// is a comma-separated list of extensions without leading dots.
    pub fn new(
        pattern: &str,
        root_is_dir: bool,
        content_mode: bool,
        case_insensitive: bool,
        recurse: bool,
        context_radius: usize,
        extensions: Option<&str>,
        include_hidden: bool,
    ) -> (r: Result<SearchConfig, ConfigError>)
        ensures
            !root_is_dir ==> r matches Err(ConfigError::InvalidDirectory),
            root_is_dir && !pattern_compiles(pattern@, case_insensitive) ==> r matches Err(
                ConfigError::InvalidPattern(_),
            ),
            root_is_dir && pattern_compiles(pattern@, case_insensitive) ==> r is Ok,
            r matches Ok(c) ==> {
                &&& c.matcher.pattern() == pattern@
                &&& c.matcher.case_insensitive() == case_insensitive
                &&& c.content_mode == content_mode
                &&& c.recurse == recurse
                &&& c.context_radius == context_radius
                &&& c.include_hidden == include_hidden
                &&& c.extension_filter() == match extensions {
                    Some(list) => Some(split_commas(list@)),
                    None => None::<Seq<Seq<char>>>,
                }
            },
    {
        if !root_is_dir {
            return Err(ConfigError::InvalidDirectory);
        }
        let matcher = match Matcher::new(pattern, case_insensitive) {
            Ok(m) => m,
            Err(e) => {
                return Err(ConfigError::InvalidPattern(e));
            },
        };
        let parsed = match extensions {
            Some(list) => Some(parse_extensions(list)),
            None => None,
        };
        Ok(
            SearchConfig {
                matcher,
                content_mode,
                recurse,
                context_radius,
                extensions: parsed,
                include_hidden,
            },
        )
    }

    /// The depth the tree walk is limited to: the root's direct children
    /// when not recursing, no limit otherwise.
    pub fn max_depth(&self) -> (r: Option<usize>)
        ensures
            !self.recurse ==> r == Some(1usize),
            self.recurse ==> r is None,
    {
        if self.recurse {
            None
        } else {
            Some(1)
        }
    }

    /// Whether a walked entry is eligible for matching. `hidden` is whether
    /// the platform marks it hidden or system, and is not read when hidden
    /// entries are included; `name` is its file name, if it has a readable one.
    pub fn accept(&self, is_file: bool, hidden: bool, name: Option<&str>) -> (r: bool)
        ensures
            r == entry_accepted(
                is_file,
                hidden,
                self.include_hidden,
                self.extension_filter(),
                name_view(name),
            ),
    {
        if !is_file {
            return false;
        }
        if !self.include_hidden && hidden {
            return false;
        }
        match &self.extensions {
            None => true,
            Some(list) => match name {
                None => false,
                Some(n) => {
                    let cs = chars_of(n);
                    match file_extension(&cs) {
                        None => false,
                        Some(e) => contains_extension(list, &e),
                    }
                },
            },
        }
    }

    /// Whether the pattern matches a file's name (its last path component),
    /// anywhere in it.
    pub fn match_name(&self, name: &str) -> (r: bool)
        ensures
            r == pattern_finds(self.matcher.pattern(), self.matcher.case_insensitive(), name@),
    {
        self.matcher.is_match(name)
    }

    /// The records of a file whose lines are `lines`: one per matching line,
    /// in order, each with its own window of context lines.
    pub fn scan_file(&self, lines: &Vec<String>) -> (r: Vec<MatchRecord>)
        ensures
            r@ == file_records(self.matcher, lines@, self.context_radius as int),
    {
        scan_lines(&self.matcher, lines, self.context_radius)
    }

    /// `line` cut at every occurrence of the pattern.
    pub fn highlight_line(&self, line: &str) -> (r: Vec<Piece>)
        ensures
            r@ == pieces_of(
                pattern_spans(self.matcher.pattern(), self.matcher.case_insensitive(), line@),
                line.spec_bytes().len() as usize,
            ),
    {
        highlight(&self.matcher, line)
    }
}

/// The number of matches found so far in a run.
pub struct RunTotals {
    found: usize,
}

impl RunTotals {
    /// The count so far.
    pub closed spec fn count(&self) -> nat {
        self.found as nat
    }

    /// A run with nothing found yet.
    pub fn new() -> (r: RunTotals)
        ensures
            r.count() == 0,
    {
        RunTotals { found: 0 }
    }

    /// Counts one file whose name matched.
    pub fn add_name_match(&mut self)
        requires
            old(self).count() < usize::MAX,
        ensures
            final(self).count() == old(self).count() + 1,
    {
        self.found = self.found + 1;
    }

    /// Counts the records of one scanned file.
    pub fn add_records(&mut self, records: &Vec<MatchRecord>)
        requires
            old(self).count() + records@.len() <= usize::MAX,
        ensures
            final(self).count() == old(self).count() + records@.len(),
    {
        self.found = self.found + records.len();
    }

    /// Whether `n` more matches can still be counted.
    pub fn has_room(&self, n: usize) -> (r: bool)
        ensures
            r == (self.count() + n <= usize::MAX),
    {
        n <= usize::MAX - self.found
    }

    /// The count so far.
    pub fn total(&self) -> (r: usize)
        ensures
            r == self.count(),
    {
        self.found
    }
}

} // verus!
