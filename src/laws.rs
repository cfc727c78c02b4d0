//! Properties of a search that hold for every input.
use vstd::prelude::*;
use crate::entry::extension_of;
use crate::pattern::Matcher;
use crate::scan::{count_true, file_records, lemma_one_record_per_matching_line, line_flags};
use crate::search::entry_accepted;

verus! {

/// In content mode a file adds to the total exactly as many records as it
/// has lines that the pattern matches; context lines are not counted.
pub proof fn law_total_counts_matching_lines(m: Matcher, lines: Seq<String>, radius: int)
    ensures
        file_records(m, lines, radius).len() == count_true(
            line_flags(m.pattern(), m.case_insensitive(), lines),
        ),
{
    lemma_one_record_per_matching_line(line_flags(m.pattern(), m.case_insensitive(), lines), radius);
}

/// Scanning is repeatable: two files with the same text give the same
/// records, under the same pattern and radius.
pub proof fn law_scan_repeatable(m: Matcher, a: Seq<String>, b: Seq<String>, radius: int)
    requires
        a.len() == b.len(),
        forall|i: int| 0 <= i < a.len() ==> a[i]@ == b[i]@,
    ensures
        file_records(m, a, radius) == file_records(m, b, radius),
{
    assert(line_flags(m.pattern(), m.case_insensitive(), a) =~= line_flags(
        m.pattern(),
        m.case_insensitive(),
        b,
    ));
}

/// The filter decision depends only on what it is given: the same entry
/// under the same configuration always gets the same answer.
pub proof fn law_filter_repeatable(
    is_file: bool,
    hidden: bool,
    include_hidden: bool,
    filter: Option<Seq<Seq<char>>>,
    a: Option<Seq<char>>,
    b: Option<Seq<char>>,
)
    requires
        a == b,
    ensures
        entry_accepted(is_file, hidden, include_hidden, filter, a) == entry_accepted(
            is_file,
            hidden,
            include_hidden,
            filter,
            b,
        ),
{
}

/// With an extension filter set, an entry is accepted only when its name has
/// an extension equal, character for character and so with case, to one of
/// the filter's; a name without an extension is always rejected.
pub proof fn law_extension_filter_exact(
    is_file: bool,
    hidden: bool,
    include_hidden: bool,
    list: Seq<Seq<char>>,
    name: Option<Seq<char>>,
)
    ensures
        entry_accepted(is_file, hidden, include_hidden, Some(list), name) ==> {
            &&& name is Some
            &&& extension_of(name->0) is Some
            &&& list.contains(extension_of(name->0)->0)
        },
        name is None || extension_of(name->0) is None ==> !entry_accepted(
            is_file,
            hidden,
            include_hidden,
            Some(list),
            name,
        ),
{
}

/// Hidden or system entries are rejected unless they are included; when they
/// are, being hidden changes nothing.
pub proof fn law_hidden_entries(
    is_file: bool,
    include_hidden: bool,
    filter: Option<Seq<Seq<char>>>,
    name: Option<Seq<char>>,
)
    ensures
        !include_hidden ==> !entry_accepted(is_file, true, include_hidden, filter, name),
        include_hidden ==> entry_accepted(is_file, true, include_hidden, filter, name)
            == entry_accepted(is_file, false, include_hidden, filter, name),
{
}

} // verus!
