//! Extracting the text of XML-like tags from tool output.
use vstd::prelude::*;
use crate::status::ToolKind;
use crate::text::{concat3, string_of, strip_all_prefix, strip_all_suffix, trim, trim_end_matches, trim_seq, trim_start_matches};

verus! {

/// What `regex` gives for `pattern` on `text`: for every match, left to right, the text
/// of capture group `group` (`None` where the group took no part), or `None` when the
/// pattern does not compile.
pub uninterp spec fn regex_captures(pattern: Seq<char>, text: Seq<char>, group: usize) -> Option<Seq<Option<Seq<char>>>>;

/// The views of optional strings.
pub open spec fn opt_views(v: Seq<Option<String>>) -> Seq<Option<Seq<char>>> {
    v.map_values(|o: Option<String>| crate::content::opt_view(o))
}

/// Runs `Regex::new(pattern)` and `Regex::captures_iter(text)`, taking group `group` of
/// each match; the result is named by `regex_captures`.
#[verifier::external_body]
fn captures_of(pattern: &str, text: &str, group: usize) -> (r: Option<Vec<Option<String>>>)
    ensures
        match r {
            Some(v) => regex_captures(pattern@, text@, group) == Some(opt_views(v@)),
            None => regex_captures(pattern@, text@, group) is None,
        },
{
    let re = match regex::Regex::new(pattern) {
        Ok(re) => re,
        Err(_) => return None,
    };
    let mut found = Vec::new();
    for caps in re.captures_iter(text) {
        found.push(match caps.get(group) {
            Some(m) => Some(m.as_str().to_string()),
            None => None,
        });
    }
    Some(found)
}

/// The pattern of an XML-like element `<tag>content</tag>`, capturing the content.
pub open spec fn xml_pattern() -> Seq<char> {
    "<[^>]+>([^<]*)</[^>]+>"@
}

/// The captured contents joined by newlines; a newline goes between two contents only
/// once something non-empty has been collected.
pub open spec fn join_contents(c: Seq<Option<Seq<char>>>) -> Seq<char>
    decreases c.len(),
{
    if c.len() == 0 {
        Seq::empty()
    } else {
        let prev = join_contents(c.drop_last());
        match c.last() {
            Some(t) => if prev.len() == 0 {
                t
            } else {
                prev + "\n"@ + t
            },
            None => prev,
        }
    }
}

/// `text` without surrounding code fences and whitespace.
pub open spec fn unfenced(text: Seq<char>) -> Seq<char> {
    trim_seq(strip_all_suffix(strip_all_prefix(text, "```"@), "```"@))
}

/// Tool kinds whose output is searched for XML-like elements.
pub open spec fn extracts_xml(kind: ToolKind) -> bool {
    kind == ToolKind::Execute || kind == ToolKind::Other || kind == ToolKind::Read
}

/// `text` without surrounding code fences and whitespace.
pub fn strip_code_fences(text: &str) -> (r: String)
    ensures
        r@ == unfenced(text@),
{
    let a = trim_start_matches(text, "```");
    let b = trim_end_matches(a.as_str(), "```");
    trim(b.as_str())
}

/// What `extract_xml_content` shows for tool output of a kind that produces XML-like
/// elements, given the element contents the pattern captured (`None` when it did not compile).
pub open spec fn xml_from_captures(text: Seq<char>, caps: Option<Seq<Option<Seq<char>>>>) -> Seq<char> {
    match caps {
        Some(c) => if join_contents(c).len() == 0 {
            unfenced(text)
        } else {
            join_contents(c)
        },
        None => unfenced(text),
    }
}

/// The views of optional captures.
pub open spec fn opt_caps_view(caps: Option<Vec<Option<String>>>) -> Option<Seq<Option<Seq<char>>>> {
    match caps {
        Some(v) => Some(opt_views(v@)),
        None => None,
    }
}

/// The captured element contents joined by newlines, or, when that is empty, the text
/// without code fences.
pub fn xml_content_from_captures(text: &str, caps: Option<Vec<Option<String>>>) -> (r: String)
    ensures
        r@ == xml_from_captures(text@, opt_caps_view(caps)),
{
    let caps = match caps {
        Some(c) => c,
        None => {
            return strip_code_fences(text);
        },
    };
    let ghost cv = opt_views(caps@);
    let mut result = String::new();
    let mut i: usize = 0;
    assert(cv.take(0) =~= Seq::<Option<Seq<char>>>::empty());
    while i < caps.len()
        invariant
            i <= caps.len(),
            cv == opt_views(caps@),
            result@ == join_contents(cv.take(i as int)),
        decreases caps.len() - i,
    {
        assert(cv.take(i + 1).drop_last() =~= cv.take(i as int));
        assert(cv.take(i + 1).last() == crate::content::opt_view(caps@[i as int]));
        match &caps[i] {
            Some(content) => {
                if result.as_str().is_empty() {
                    result = string_of(content.as_str());
                } else {
                    result = concat3(result.as_str(), "\n", content.as_str());
                }
            },
            None => {},
        }
        i = i + 1;
    }
    assert(cv.take(i as int) =~= cv);
    if result.as_str().is_empty() {
        strip_code_fences(text)
    } else {
        result
    }
}

/// The text of XML-like elements in tool output (for example the message inside
/// `<tool_use_error>...</tool_use_error>`), for the tool kinds that produce them.
pub fn extract_xml_content(text: &str, tool_kind: ToolKind) -> (r: String)
    ensures
        r@ == (if extracts_xml(tool_kind) {
            xml_from_captures(text@, regex_captures(xml_pattern(), text@, 1))
        } else {
            unfenced(text@)
        }),
{
    let should_extract = match tool_kind {
        ToolKind::Execute | ToolKind::Other | ToolKind::Read => true,
        _ => false,
    };
    if !should_extract {
        return strip_code_fences(text);
    }
    let caps = captures_of("<[^>]+>([^<]*)</[^>]+>", text, 1);
    xml_content_from_captures(text, caps)
}

} // verus!
