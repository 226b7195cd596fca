//! Code selections shared with the chat, and the "go to line" query of the editor.
use vstd::prelude::*;
use crate::text::{
    chars_of, ends_with, first_line, has_prefix, has_suffix, lines_of, replace_char, rfind_char,
    split_on, starts_with, string_from_range, string_of, strip_all_suffix, strip_prefix, trim,
    trim_end_matches, trim_seq,
};

verus! {

// ---------------------------------------------------------------------------
// File names of paths
// ---------------------------------------------------------------------------

/// What `Path::file_name` gives for the path text (as UTF-8).
pub uninterp spec fn path_file_name(p: Seq<char>) -> Option<Seq<char>>;

/// The final component of a path (`std::path::Path::file_name`, as text); `None` when
/// the path has none (it ends in `..` or is a root).
#[verifier::external_body]
pub(crate) fn file_name_of(path: &str) -> (r: Option<String>)
    ensures
        match r {
            Some(n) => path_file_name(path@) == Some(n@),
            None => path_file_name(path@) is None,
        },
{
    std::path::Path::new(path).file_name().and_then(|n| n.to_str()).map(|n| n.to_string())
}

// ---------------------------------------------------------------------------
// Code selection chips
// ---------------------------------------------------------------------------

/// A code selection shown as a chip: the file's name and the line range.
pub struct CodeSelectionChip {
    pub file_path: String,
    pub line_range: String,
}

/// The line range as the chip shows it: `Line 7` shows `7`, `Lines 10-20` shows `10~20`.
pub open spec fn chip_range(r: Seq<char>) -> Seq<char> {
    if has_prefix(r, "Line "@) {
        r.subrange("Line "@.len() as int, r.len() as int)
    } else if has_prefix(r, "Lines "@) {
        r.subrange("Lines "@.len() as int, r.len() as int).map_values(|x: char| if x == '-' {
            '~'
        } else {
            x
        })
    } else {
        r
    }
}

/// Position of the last `c` in `s`.
pub open spec fn last_index_of(s: Seq<char>, c: char) -> Option<int>
    decreases s.len(),
{
    if s.len() == 0 {
        None
    } else if s.last() == c {
        Some(s.len() - 1)
    } else {
        last_index_of(s.drop_last(), c)
    }
}

proof fn lemma_last_index_of(s: Seq<char>, c: char, k: Option<int>)
    requires
        match k {
            Some(m) => 0 <= m < s.len() && s[m] == c && forall|j: int| m < j < s.len() ==> s[j] != c,
            None => forall|j: int| 0 <= j < s.len() ==> s[j] != c,
        },
    ensures
        last_index_of(s, c) == k,
    decreases s.len(),
{
    if s.len() > 0 {
        if s.last() != c {
            assert(forall|j: int| 0 <= j < s.len() - 1 ==> s.drop_last()[j] == s[j]);
            lemma_last_index_of(s.drop_last(), c, k);
        }
    }
}

/// The chip for a text block in the form `` ```\n// File: PATH (RANGE)\n...\n``` ``:
/// the file name of PATH (or PATH itself when it has none) and the range, or `None` for
/// any other text.
pub open spec fn code_selection_of(text: Seq<char>) -> Option<(Seq<char>, Seq<char>)> {
    let t = trim_seq(text);
    if !has_prefix(t, "```\n// File: "@) || !has_suffix(t, "\n```"@) || !has_prefix(t, "```\n"@) {
        None
    } else {
        let body = t.subrange("```\n"@.len() as int, t.len() as int);
        let ls = lines_of(body);
        if ls.len() == 0 || !has_prefix(ls[0], "// File: "@) {
            None
        } else {
            let after = ls[0].subrange("// File: "@.len() as int, ls[0].len() as int);
            match last_index_of(after, '(') {
                None => None,
                Some(p) => {
                    let path = trim_seq(after.subrange(0, p));
                    let range = trim_seq(
                        strip_all_suffix(after.subrange(p + 1, after.len() as int), ")"@),
                    );
                    let name = match path_file_name(path) {
                        Some(n) => n,
                        None => path,
                    };
                    Some((name, chip_range(range)))
                },
            }
        }
    }
}

/// The line range as the chip shows it.
pub fn display_range(range: &str) -> (r: String)
    ensures
        r@ == chip_range(range@),
{
    if starts_with(range, "Line ") {
        match strip_prefix(range, "Line ") {
            Some(rest) => rest,
            None => string_of(range),
        }
    } else if starts_with(range, "Lines ") {
        match strip_prefix(range, "Lines ") {
            Some(rest) => replace_char(rest.as_str(), '-', '~'),
            None => string_of(range),
        }
    } else {
        string_of(range)
    }
}

/// Parses a code selection text block into its chip.
pub fn parse_code_selection_text(text: &str) -> (r: Option<CodeSelectionChip>)
    ensures
        match r {
            Some(c) => code_selection_of(text@) == Some((c.file_path@, c.line_range@)),
            None => code_selection_of(text@) is None,
        },
{
    let trimmed = trim(text);
    if !starts_with(trimmed.as_str(), "```\n// File: ") || !ends_with(trimmed.as_str(), "\n```") {
        return None;
    }
    let body = match strip_prefix(trimmed.as_str(), "```\n") {
        Some(b) => b,
        None => {
            return None;
        },
    };
    let first = match first_line(body.as_str()) {
        Some(l) => l,
        None => {
            return None;
        },
    };
    let after = match strip_prefix(first.as_str(), "// File: ") {
        Some(a) => a,
        None => {
            return None;
        },
    };
    let v = chars_of(after.as_str());
    let p = rfind_char(&v, '(');
    proof {
        lemma_last_index_of(v@, '(', match p {
            Some(k) => Some(k as int),
            None => None,
        });
    }
    let paren_pos = match p {
        Some(k) => k,
        None => {
            return None;
        },
    };
    let path_raw = string_from_range(&v, 0, paren_pos);
    let file_path = trim(path_raw.as_str());
    let range_raw = string_from_range(&v, paren_pos + 1, v.len());
    let range_cut = trim_end_matches(range_raw.as_str(), ")");
    let line_range = trim(range_cut.as_str());
    let filename = match file_name_of(file_path.as_str()) {
        Some(n) => n,
        None => string_of(file_path.as_str()),
    };
    let shown = display_range(line_range.as_str());
    Some(CodeSelectionChip { file_path: filename, line_range: shown })
}

// ---------------------------------------------------------------------------
// Go to line
// ---------------------------------------------------------------------------

/// Decimal digits.
pub open spec fn is_digit(c: char) -> bool {
    '0' <= c && c <= '9'
}

/// The value of a string of decimal digits.
pub open spec fn digits_value(s: Seq<char>) -> nat
    decreases s.len(),
{
    if s.len() == 0 {
        0
    } else {
        digits_value(s.drop_last()) * 10 + ((s.last() as u32) - ('0' as u32)) as nat
    }
}

/// What `usize::from_str` accepts: an optional `+`, then at least one decimal digit, for a
/// value that fits in `usize`.
pub open spec fn parse_usize_of(s: Seq<char>) -> Option<nat> {
    let d = unsigned_digits(s);
    if d.len() > 0 && all_digits(d) && digits_value(d) <= usize::MAX {
        Some(digits_value(d))
    } else {
        None
    }
}

/// `s` without a leading `+`.
pub open spec fn unsigned_digits(s: Seq<char>) -> Seq<char> {
    if s.len() > 0 && s[0] == '+' {
        s.drop_first()
    } else {
        s
    }
}

/// Every character of `s` is a decimal digit.
pub open spec fn all_digits(s: Seq<char>) -> bool {
    forall|i: int| 0 <= i < s.len() ==> is_digit(#[trigger] s[i])
}

proof fn lemma_digits_value_take(s: Seq<char>, i: int)
    requires
        0 <= i < s.len(),
    ensures
        digits_value(s.take(i + 1)) == digits_value(s.take(i)) * 10 + ((s[i] as u32) - ('0' as u32)) as nat,
{
    assert(s.take(i + 1).drop_last() =~= s.take(i));
}

proof fn lemma_digits_value_mono(s: Seq<char>, i: int, j: int)
    requires
        0 <= i <= j <= s.len(),
        forall|k: int| 0 <= k < s.len() ==> is_digit(#[trigger] s[k]),
    ensures
        digits_value(s.take(i)) <= digits_value(s.take(j)),
    decreases j - i,
{
    if i < j {
        lemma_digits_value_mono(s, i, j - 1);
        lemma_digits_value_take(s, j - 1);
        assert(digits_value(s.take(j - 1)) <= digits_value(s.take(j - 1)) * 10) by (nonlinear_arith);
    }
}

/// Parses a decimal number (`str::parse::<usize>`).
pub fn parse_usize(s: &str) -> (r: Option<usize>)
    ensures
        match r {
            Some(n) => parse_usize_of(s@) == Some(n as nat),
            None => parse_usize_of(s@) is None,
        },
{
    let v = chars_of(s);
    let start: usize = if v.len() > 0 && v[0] == '+' {
        1
    } else {
        0
    };
    let ghost d = v@.subrange(start as int, v@.len() as int);
    proof {
        if v@.len() > 0 && v@[0] == '+' {
            assert(d =~= v@.drop_first());
        } else {
            assert(d =~= v@);
        }
    }
    if start >= v.len() {
        return None;
    }
    let mut value: usize = 0;
    let mut i: usize = start;
    assert(d.take(0) =~= Seq::<char>::empty());
    while i < v.len()
        invariant
            start <= i <= v.len(),
            v@ == s@,
            start == (if v@.len() > 0 && v@[0] == '+' { 1usize } else { 0usize }),
            d == v@.subrange(start as int, v@.len() as int),
            d == unsigned_digits(v@),
            forall|k: int| 0 <= k < i - start ==> is_digit(#[trigger] d[k]),
            value == digits_value(d.take(i - start)),
        decreases v.len() - i,
    {
        let c = v[i];
        assert(d[i - start] == c);
        if !('0' <= c && c <= '9') {
            assert(!is_digit(d[i - start]));
            assert(!all_digits(d));
            return None;
        }
        proof {
            lemma_digits_value_take(d, i - start);
        }
        let digit = (c as u32 - '0' as u32) as usize;
        match value.checked_mul(10) {
            Some(m) => match m.checked_add(digit) {
                Some(n) => {
                    value = n;
                },
                None => {
                    proof {
                        if forall|k: int| 0 <= k < d.len() ==> is_digit(#[trigger] d[k]) {
                            lemma_digits_value_mono(d, i - start + 1, d.len() as int);
                            assert(d.take(d.len() as int) =~= d);
                        }
                    }
                    return None;
                },
            },
            None => {
                proof {
                    if forall|k: int| 0 <= k < d.len() ==> is_digit(#[trigger] d[k]) {
                        lemma_digits_value_mono(d, i - start + 1, d.len() as int);
                        assert(d.take(d.len() as int) =~= d);
                    }
                }
                return None;
            },
        }
        i = i + 1;
    }
    assert(d.take(d.len() as int) =~= d);
    Some(value)
}

/// The cursor position a "go to line" query `LINE[:COLUMN]` asks for, counted from 0;
/// `None` when the line is not a number. A missing or invalid column means column 1.
pub open spec fn go_to_line_of(query: Seq<char>) -> Option<(u32, u32)> {
    let parts = split_on(query, crate::text::is_char(':'));
    match parse_usize_of(trim_seq(parts[0])) {
        None => None,
        Some(line) => {
            let column: nat = if parts.len() > 1 {
                match parse_usize_of(trim_seq(parts[1])) {
                    Some(c) => c,
                    None => 1,
                }
            } else {
                1
            };
            Some((
                (if line > 0 { line - 1 } else { 0 }) as u32,
                (if column > 0 { column - 1 } else { 0 }) as u32,
            ))
        },
    }
}

} // verus!

verus! {

/// The cursor position a "go to line" query asks for, counted from 0.
pub fn go_to_line_position(query: &str) -> (r: Option<(u32, u32)>)
    ensures
        r == go_to_line_of(query@),
{
    let parts = crate::text::split_char(query, ':');
    let ghost pv = crate::text::string_views(parts@);
    assert(pv.len() >= 1) by {
        crate::text::lemma_split_on_nonempty(query@, crate::text::is_char(':'));
    }
    assert(pv[0] == parts@[0]@);
    let first = trim(parts[0].as_str());
    let line = match parse_usize(first.as_str()) {
        Some(n) => n,
        None => {
            return None;
        },
    };
    let column: usize = if parts.len() > 1 {
        assert(pv[1] == parts@[1]@);
        let second = trim(parts[1].as_str());
        match parse_usize(second.as_str()) {
            Some(c) => c,
            None => 1,
        }
    } else {
        1
    };
    let l = line.saturating_sub(1);
    let c = column.saturating_sub(1);
    Some((l as u32, c as u32))
}

} // verus!

verus! {

// ---------------------------------------------------------------------------
// Selections sent from the editor to the chat
// ---------------------------------------------------------------------------

/// A selection of code sent to the chat, with 1-based lines and columns.
pub struct CodeSelection {
    pub file_path: String,
    pub start_line: u32,
    pub start_column: u32,
    pub end_line: u32,
    pub end_column: u32,
    pub content: String,
}

/// The selection the editor sends for the 0-based positions `start` and `end`
/// (line, column) of the file at `file_path` (`"untitled"` when the file has no
/// path that is text).
pub fn code_selection(
    file_path: Option<String>,
    start: (u32, u32),
    end: (u32, u32),
    content: String,
) -> (r: CodeSelection)
    requires
        start.0 < u32::MAX,
        start.1 < u32::MAX,
        end.0 < u32::MAX,
        end.1 < u32::MAX,
    ensures
        r.file_path@ == (match file_path {
            Some(p) => p@,
            None => "untitled"@,
        }),
        r.start_line == start.0 + 1,
        r.start_column == start.1 + 1,
        r.end_line == end.0 + 1,
        r.end_column == end.1 + 1,
        r.content == content,
{
    let path = match file_path {
        Some(p) => p,
        None => string_of("untitled"),
    };
    CodeSelection {
        file_path: path,
        start_line: start.0 + 1,
        start_column: start.1 + 1,
        end_line: end.0 + 1,
        end_column: end.1 + 1,
        content,
    }
}

/// The 0-based position (`line`, `column`) as text, 1-based: `line+1:column+1`.
pub open spec fn position_text(line: u32, column: u32) -> Seq<char> {
    crate::text::decimal((line + 1) as nat) + ":"@ + crate::text::decimal((column + 1) as nat)
}

/// The label of the editor's selection button: `Sel: L:C - L:C (N chars)`, with the
/// 0-based positions shown 1-based.
pub open spec fn selection_label_text(start: (u32, u32), end: (u32, u32), length: nat) -> Seq<char> {
    "Sel: "@ + position_text(start.0, start.1) + " - "@ + position_text(end.0, end.1)
        + " ("@ + crate::text::decimal(length) + " chars)"@
}

fn position_string(line: u32, column: u32) -> (r: String)
    requires
        line < u32::MAX,
        column < u32::MAX,
    ensures
        r@ == position_text(line, column),
{
    let l = crate::text::decimal_string((line + 1) as usize);
    let c = crate::text::decimal_string((column + 1) as usize);
    crate::text::concat3(l.as_str(), ":", c.as_str())
}

/// The label of the editor's selection button.
pub fn selection_label(start: (u32, u32), end: (u32, u32), length: usize) -> (r: String)
    requires
        start.0 < u32::MAX,
        start.1 < u32::MAX,
        end.0 < u32::MAX,
        end.1 < u32::MAX,
    ensures
        r@ == selection_label_text(start, end, length as nat),
{
    let a = position_string(start.0, start.1);
    let b = position_string(end.0, end.1);
    let n = crate::text::decimal_string(length);
    let head = crate::text::concat3("Sel: ", a.as_str(), " - ");
    let mid = crate::text::concat3(head.as_str(), b.as_str(), " (");
    let tail = crate::text::concat3(mid.as_str(), n.as_str(), " chars)");
    proof {
        assert(tail@ =~= selection_label_text(start, end, length as nat));
    }
    tail
}

} // verus!

verus! {

proof fn lemma_digit_char(d: nat)
    requires
        d < 10,
    ensures
        is_digit(crate::text::digit_char(d)),
        (crate::text::digit_char(d) as u32) - ('0' as u32) == d,
{
    assert(((d + 48) as u8) as u32 == d + 48);
}

proof fn lemma_decimal_digits(n: nat)
    ensures
        crate::text::decimal(n).len() > 0,
        all_digits(crate::text::decimal(n)),
        digits_value(crate::text::decimal(n)) == n,
    decreases n,
{
    let d = crate::text::decimal(n);
    if n < 10 {
        lemma_digit_char(n);
        assert(d.drop_last() =~= Seq::<char>::empty());
        assert(digits_value(d.drop_last()) == 0);
        assert(d.last() == crate::text::digit_char(n));
        assert(digits_value(d) == digits_value(d.drop_last()) * 10 + ((d.last() as u32) - ('0' as u32)) as nat);
    } else {
        lemma_decimal_digits(n / 10);
        lemma_digit_char(n % 10);
        assert(d.drop_last() =~= crate::text::decimal(n / 10));
        assert(d.last() == crate::text::digit_char(n % 10));
        assert(digits_value(d) == digits_value(d.drop_last()) * 10 + ((d.last() as u32) - ('0' as u32)) as nat);
        assert((n / 10) * 10 + n % 10 == n) by (nonlinear_arith);
        assert forall|i: int| 0 <= i < d.len() implies is_digit(#[trigger] d[i]) by {
            if i < d.len() - 1 {
                assert(d[i] == crate::text::decimal(n / 10)[i]);
            }
        }
    }
}

/// Reading back a number written in decimal gives the number.
pub proof fn lemma_parse_decimal_roundtrip(n: nat)
    requires
        n <= usize::MAX,
    ensures
        parse_usize_of(crate::text::decimal(n)) == Some(n),
{
    lemma_decimal_digits(n);
    let d = crate::text::decimal(n);
    assert(is_digit(d[0]));
    assert(unsigned_digits(d) == d);
}

} // verus!

verus! {

// ---------------------------------------------------------------------------
// The contents of a user message
// ---------------------------------------------------------------------------

/// The chip a content block shows as, when it is a code selection text block.
pub open spec fn chip_of(c: crate::content::ContentBlock) -> Option<(Seq<char>, Seq<char>)> {
    match c {
        crate::content::ContentBlock::Text { text } => code_selection_of(text@),
        _ => None,
    }
}

/// The chips of the code selection blocks among `cs`, in order.
pub open spec fn chips_of(cs: Seq<crate::content::ContentBlock>) -> Seq<(Seq<char>, Seq<char>)>
    decreases cs.len(),
{
    if cs.len() == 0 {
        Seq::empty()
    } else {
        match chip_of(cs.last()) {
            Some(c) => chips_of(cs.drop_last()).push(c),
            None => chips_of(cs.drop_last()),
        }
    }
}

/// Content blocks that are not code selections.
pub open spec fn not_chip() -> spec_fn(crate::content::ContentBlock) -> bool {
    |c: crate::content::ContentBlock| chip_of(c) is None
}

/// The views of chips.
pub open spec fn chip_views(v: Seq<CodeSelectionChip>) -> Seq<(Seq<char>, Seq<char>)> {
    v.map_values(|c: CodeSelectionChip| (c.file_path@, c.line_range@))
}

/// Splits the contents of a user message into the chips of its code selections and the
/// other contents, each in order.
pub fn split_code_selections(contents: Vec<crate::content::ContentBlock>) -> (r: (
    Vec<CodeSelectionChip>,
    Vec<crate::content::ContentBlock>,
))
    ensures
        chip_views(r.0@) == chips_of(contents@),
        r.1@ == contents@.filter(not_chip()),
{
    let ghost all = contents@;
    let mut chips: Vec<CodeSelectionChip> = Vec::new();
    let mut others: Vec<crate::content::ContentBlock> = Vec::new();
    for c in it: contents.into_iter()
        invariant
            it.seq() == all,
            chip_views(chips@) == chips_of(all.take(it.index() as int)),
            others@ == all.take(it.index() as int).filter(not_chip()),
    {
        let ghost k = it.index() as int;
        proof {
            crate::seqs::lemma_filter_take_step(all, not_chip(), k);
            assert(all.take(k + 1).drop_last() =~= all.take(k));
            assert(all.take(k + 1).last() == all[k]);
        }
        let chip = match &c {
            crate::content::ContentBlock::Text { text } => parse_code_selection_text(text.as_str()),
            _ => None,
        };
        match chip {
            Some(ch) => {
                let ghost before = chips@;
                chips.push(ch);
                assert(chip_views(chips@) =~= chip_views(before).push((ch.file_path@, ch.line_range@)));
            },
            None => {
                others.push(c);
            },
        }
    }
    proof {
        assert(all.take(all.len() as int) =~= all);
    }
    (chips, others)
}

} // verus!
