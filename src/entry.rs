//! The entry filter: which walked entries are eligible for matching.
use vstd::prelude::*;

verus! {

/// Attribute value that signals a failed attribute lookup.
pub const INVALID_ATTRIBUTES: u32 = 0xFFFF_FFFF;

/// Attribute bit of a hidden entry.
pub const ATTRIBUTE_HIDDEN: u32 = 0x2;

/// Attribute bit of a system entry.
pub const ATTRIBUTE_SYSTEM: u32 = 0x4;

/// Whether attribute flags `attrs`, as the platform reports them, mark an
/// entry hidden or system. A failed lookup counts as neither.
pub open spec fn attributes_hidden_or_system(attrs: u32) -> bool {
    attrs != INVALID_ATTRIBUTES && (attrs & ATTRIBUTE_HIDDEN != 0 || attrs & ATTRIBUTE_SYSTEM != 0)
}

/// Reads the hidden and system bits of `attrs`, failing open on
/// `INVALID_ATTRIBUTES`.
pub fn is_hidden_or_system(attrs: u32) -> (r: bool)
    ensures
        r == attributes_hidden_or_system(attrs),
{
    let both = ATTRIBUTE_HIDDEN | ATTRIBUTE_SYSTEM;
    assert(attrs & (0x2u32 | 0x4u32) != 0 <==> (attrs & 0x2u32 != 0 || attrs & 0x4u32 != 0))
        by (bit_vector);
    attrs != INVALID_ATTRIBUTES && (attrs & both) != 0
}

/// The characters of `s`.
pub fn chars_of(s: &str) -> (r: Vec<char>)
    ensures
        r@ == s@,
{
    let mut out: Vec<char> = Vec::new();
    for c in it: s.chars()
        invariant
            out@ == it.seq().subrange(0, it.index() as int),
    {
        out.push(c);
    }
    out
}

/// Index of the last occurrence of `c` in `s`, or -1 when there is none.
pub open spec fn last_index_of(s: Seq<char>, c: char) -> int
    decreases s.len(),
{
    if s.len() == 0 {
        -1
    } else if s.last() == c {
        s.len() - 1
    } else {
        last_index_of(s.drop_last(), c)
    }
}

/// The extension of a file name: what follows its last dot, without the dot.
/// A name without a dot, one whose only dot leads it (`.profile`), and `..`
/// have none.
pub open spec fn extension_of(name: Seq<char>) -> Option<Seq<char>> {
    let d = last_index_of(name, '.');
    if name == seq!['.', '.'] || d <= 0 {
        None
    } else {
        Some(name.subrange(d + 1, name.len() as int))
    }
}

proof fn lemma_last_index_bounds(s: Seq<char>, c: char)
    ensures
        -1 <= last_index_of(s, c) < s.len(),
        last_index_of(s, c) >= 0 ==> s[last_index_of(s, c)] == c,
    decreases s.len(),
{
    if s.len() > 0 {
        lemma_last_index_bounds(s.drop_last(), c);
    }
}

/// The extension of the file name `name`, as `extension_of` defines it.
pub fn file_extension(name: &Vec<char>) -> (r: Option<Vec<char>>)
    ensures
        r matches Some(e) ==> extension_of(name@) == Some(e@),
        r is None ==> extension_of(name@) is None,
{
    let len = name.len();
    let mut i: usize = len;
    assert(name@.subrange(0, len as int) =~= name@);
    while i > 0 && name[i - 1] != '.'
        invariant
            i <= len == name@.len(),
            last_index_of(name@, '.') == last_index_of(name@.subrange(0, i as int), '.'),
        decreases i,
    {
        assert(name@.subrange(0, i - 1) =~= name@.subrange(0, i as int).drop_last());
        i = i - 1;
    }
    proof {
        if i == 0 {
            assert(name@.subrange(0, 0) =~= Seq::<char>::empty());
        } else {
            assert(name@.subrange(0, i as int).last() == '.');
        }
        assert(last_index_of(name@, '.') == i - 1);
        lemma_last_index_bounds(name@, '.');
    }
    let dotdot = len == 2 && name[0] == '.' && name[1] == '.';
    proof {
        if dotdot {
            assert(name@ =~= seq!['.', '.']);
        }
    }
    if dotdot || i <= 1 {
        None
    } else {
        let mut ext: Vec<char> = Vec::new();
        let mut j: usize = i;
        while j < len
            invariant
                i <= j <= len == name@.len(),
                ext@ == name@.subrange(i as int, j as int),
            decreases len - j,
        {
            ext.push(name[j]);
            assert(ext@ =~= name@.subrange(i as int, j + 1));
            j = j + 1;
        }
        Some(ext)
    }
}

/// The comma-separated parts of `s`, empty parts kept: `"rs,,md"` has three
/// parts, the middle one empty, and the empty text has one empty part.
pub open spec fn split_commas(s: Seq<char>) -> Seq<Seq<char>>
    decreases s.len(),
{
    if s.len() == 0 {
        seq![seq![]]
    } else {
        let parts = split_commas(s.drop_last());
        if s.last() == ',' {
            parts.push(seq![])
        } else {
            parts.update(parts.len() - 1, parts.last().push(s.last()))
        }
    }
}

proof fn lemma_split_commas_nonempty(s: Seq<char>)
    ensures
        split_commas(s).len() >= 1,
    decreases s.len(),
{
    if s.len() > 0 {
        lemma_split_commas_nonempty(s.drop_last());
    }
}

/// The character sequences held by `list`.
pub open spec fn texts_of(list: Seq<Vec<char>>) -> Seq<Seq<char>> {
    list.map_values(|v: Vec<char>| v@)
}

/// Splits a comma-separated list of extensions into its parts.
pub fn parse_extensions(list: &str) -> (r: Vec<Vec<char>>)
    ensures
        texts_of(r@) == split_commas(list@),
{
    let s = chars_of(list);
    let mut parts: Vec<Vec<char>> = Vec::new();
    let mut cur: Vec<char> = Vec::new();
    let mut i: usize = 0;
    while i < s.len()
        invariant
            i <= s@.len(),
            texts_of(parts@).push(cur@) == split_commas(s@.subrange(0, i as int)),
        decreases s@.len() - i,
    {
        let ghost prev = s@.subrange(0, i as int);
        assert(s@.subrange(0, i + 1).drop_last() =~= prev);
        proof {
            lemma_split_commas_nonempty(prev);
        }
        let c = s[i];
        if c == ',' {
            let done = cur;
            parts.push(done);
            cur = Vec::new();
            assert(texts_of(parts@).push(cur@) =~= split_commas(s@.subrange(0, i + 1)));
        } else {
            cur.push(c);
            assert(texts_of(parts@).push(cur@) =~= split_commas(s@.subrange(0, i + 1)));
        }
        i = i + 1;
    }
    assert(s@.subrange(0, s@.len() as int) =~= s@);
    parts.push(cur);
    assert(texts_of(parts@) =~= split_commas(list@));
    parts
}

/// Whether `a` and `b` hold the same characters.
fn same_chars(a: &Vec<char>, b: &Vec<char>) -> (r: bool)
    ensures
        r == (a@ == b@),
{
    if a.len() != b.len() {
        return false;
    }
    let mut i: usize = 0;
    while i < a.len()
        invariant
            i <= a@.len() == b@.len(),
            forall|j: int| 0 <= j < i ==> a@[j] == b@[j],
        decreases a@.len() - i,
    {
        if a[i] != b[i] {
            return false;
        }
        i = i + 1;
    }
    assert(a@ =~= b@);
    true
}

/// Whether `ext` is one of `list`, compared exactly and case-sensitively.
pub fn contains_extension(list: &Vec<Vec<char>>, ext: &Vec<char>) -> (r: bool)
    ensures
        r == texts_of(list@).contains(ext@),
{
    let mut i: usize = 0;
    while i < list.len()
        invariant
            i <= list@.len(),
            forall|j: int| 0 <= j < i ==> texts_of(list@)[j] != ext@,
        decreases list@.len() - i,
    {
        if same_chars(&list[i], ext) {
            assert(texts_of(list@)[i as int] == ext@);
            return true;
        }
        i = i + 1;
    }
    false
}

} // verus!
