//! Content blocks of a conversation and the helpers that describe them.
use vstd::prelude::*;
use crate::text::{after_last, after_last_start, chars_of, concat2, concat3, string_from_range, string_of};

verus! {

/// A piece of content carried by a message chunk, with the fields that the
/// conversation logic reads.
pub enum ContentBlock {
    Text { text: String },
    Image { mime_type: String },
    Audio { mime_type: String },
    ResourceLink { name: String, uri: String, mime_type: Option<String> },
    TextResource { uri: String, text: String, mime_type: Option<String> },
    BlobResource { uri: String, mime_type: Option<String> },
    /// An embedded resource of a kind this library does not know.
    UnknownResource,
    /// A content block of a kind this library does not know.
    Unknown,
}

/// A resource attached to a user message.
pub struct ResourceInfo {
    pub uri: String,
    pub name: String,
    pub mime_type: Option<String>,
    pub text: Option<String>,
}

/// The icons that the panels pick for files, tools and statuses.
#[derive(PartialEq, Eq, Structural, Clone, Copy, Debug)]
pub enum IconName {
    File,
    Replace,
    Delete,
    ArrowRight,
    Search,
    SquareTerminal,
    Bot,
    Globe,
    Ellipsis,
    Dash,
    LoaderCircle,
    Loader,
    CircleCheck,
    CircleX,
    Asterisk,
}

// ---------------------------------------------------------------------------
// File names
// ---------------------------------------------------------------------------

/// The last `/`-separated segment of `uri`.
pub fn extract_filename(uri: &str) -> (r: String)
    ensures
        r@ == after_last(uri@, '/'),
{
    let v = chars_of(uri);
    let j = after_last_start(&v, '/');
    string_from_range(&v, j, v.len())
}

/// The icon shown for a file of the given MIME type: every type gets the file icon.
pub fn get_file_icon(mime_type: &Option<String>) -> (r: IconName)
    ensures
        r == IconName::File,
{
    IconName::File
}

// ---------------------------------------------------------------------------
// UTF-8 lengths
// ---------------------------------------------------------------------------

/// Number of bytes of `c` in UTF-8 (`char::len_utf8`).
pub open spec fn utf8_width(c: char) -> nat {
    let u = c as u32;
    if u < 0x80 {
        1
    } else if u < 0x800 {
        2
    } else if u < 0x10000 {
        3
    } else {
        4
    }
}

/// Number of bytes of `s` in UTF-8 (`str::len`).
pub open spec fn utf8_len(s: Seq<char>) -> nat
    decreases s.len(),
{
    if s.len() == 0 {
        0
    } else {
        utf8_len(s.drop_last()) + utf8_width(s.last())
    }
}

/// Byte offset `n` of `s` falls on a character boundary.
pub open spec fn is_utf8_boundary(s: Seq<char>, n: nat) -> bool {
    exists|k: int| 0 <= k <= s.len() && #[trigger] utf8_len(s.take(k)) == n
}

/// The first `n` bytes of `s` as characters, when `n` is a boundary: the
/// longest prefix whose UTF-8 length is at most `n`.
pub open spec fn utf8_prefix(s: Seq<char>, n: nat) -> Seq<char>
    decreases s.len(),
{
    if utf8_len(s) <= n {
        s
    } else {
        utf8_prefix(s.drop_last(), n)
    }
}

/// Number of bytes of `c` in UTF-8.
pub fn char_width(c: char) -> (w: usize)
    ensures
        w == utf8_width(c),
{
    let u = c as u32;
    if u < 0x80 {
        1
    } else if u < 0x800 {
        2
    } else if u < 0x10000 {
        3
    } else {
        4
    }
}

proof fn lemma_utf8_len_take(s: Seq<char>, k: int)
    requires
        0 <= k < s.len(),
    ensures
        utf8_len(s.take(k + 1)) == utf8_len(s.take(k)) + utf8_width(s[k]),
{
    assert(s.take(k + 1).drop_last() =~= s.take(k));
}

proof fn lemma_utf8_len_mono(s: Seq<char>, j: int, k: int)
    requires
        0 <= j <= k <= s.len(),
    ensures
        utf8_len(s.take(j)) <= utf8_len(s.take(k)),
    decreases k - j,
{
    if j < k {
        lemma_utf8_len_mono(s, j, k - 1);
        lemma_utf8_len_take(s, k - 1);
    }
}

/// `utf8_prefix(s, n)` is `s.take(k)` for the largest `k` whose prefix fits in `n` bytes.
proof fn lemma_utf8_prefix_take(s: Seq<char>, n: nat, k: int)
    requires
        0 <= k <= s.len(),
        utf8_len(s.take(k)) <= n,
        k == s.len() || utf8_len(s.take(k + 1)) > n,
    ensures
        utf8_prefix(s, n) == s.take(k),
    decreases s.len(),
{
    assert(s.take(s.len() as int) =~= s);
    if utf8_len(s) <= n {
        if k < s.len() {
            lemma_utf8_len_mono(s, k + 1, s.len() as int);
        }
    } else {
        assert(k < s.len()) by {
            if k == s.len() {
            }
        }
        let t = s.drop_last();
        assert(t.take(k) =~= s.take(k));
        if k + 1 <= t.len() {
            assert(t.take(k + 1) =~= s.take(k + 1));
        }
        lemma_utf8_prefix_take(t, n, k);
    }
}

/// The characters of `s` that fill its first `n` bytes, or all of `s` when it is shorter.
pub fn utf8_truncate(s: &str, n: usize) -> (r: String)
    requires
        utf8_len(s@) > n ==> is_utf8_boundary(s@, n as nat),
    ensures
        r@ == utf8_prefix(s@, n as nat),
{
    let v = chars_of(s);
    let mut k: usize = 0;
    let mut used: usize = 0;
    while k < v.len() && char_width(v[k]) <= n - used
        invariant
            k <= v.len(),
            used <= n,
            used == utf8_len(v@.take(k as int)),
        decreases v.len() - k,
    {
        proof {
            lemma_utf8_len_take(v@, k as int);
        }
        used = used + char_width(v[k]);
        k = k + 1;
    }
    proof {
        if k < v.len() {
            lemma_utf8_len_take(v@, k as int);
        }
        lemma_utf8_prefix_take(v@, n as nat, k as int);
    }
    string_from_range(&v, 0, k)
}

// ---------------------------------------------------------------------------
// Text of a content block
// ---------------------------------------------------------------------------

/// What `extract_text_from_content` shows for a content block.
pub open spec fn content_text(c: ContentBlock) -> Seq<char> {
    match c {
        ContentBlock::Text { text } => text@,
        ContentBlock::Image { mime_type } => "[Image: "@ + mime_type@ + "]"@,
        ContentBlock::Audio { mime_type } => "[Audio: "@ + mime_type@ + "]"@,
        ContentBlock::ResourceLink { name, .. } => "[Resource: "@ + name@ + "]"@,
        ContentBlock::TextResource { uri, text, .. } => "[Resource: "@ + uri@ + "]\n"@
            + utf8_prefix(text@, 200),
        ContentBlock::BlobResource { uri, .. } => "[Binary Resource: "@ + uri@ + "]"@,
        ContentBlock::UnknownResource => "[Unknown Resource]"@,
        ContentBlock::Unknown => "[Unknown Content]"@,
    }
}

/// The first 200 bytes of an embedded text resource's text can be taken
/// without cutting a character.
pub open spec fn content_text_defined(c: ContentBlock) -> bool {
    match c {
        ContentBlock::TextResource { text, .. } => utf8_len(text@) > 200 ==> is_utf8_boundary(
            text@,
            200,
        ),
        _ => true,
    }
}

/// Text shown for a content block: the text itself, or a bracketed label for media and
/// resources (an embedded text resource also shows its first 200 bytes).
pub fn extract_text_from_content(content: &ContentBlock) -> (r: String)
    requires
        content_text_defined(*content),
    ensures
        r@ == content_text(*content),
{
    match content {
        ContentBlock::Text { text } => string_of(text.as_str()),
        ContentBlock::Image { mime_type } => concat3("[Image: ", mime_type.as_str(), "]"),
        ContentBlock::Audio { mime_type } => concat3("[Audio: ", mime_type.as_str(), "]"),
        ContentBlock::ResourceLink { name, .. } => concat3("[Resource: ", name.as_str(), "]"),
        ContentBlock::TextResource { uri, text, .. } => {
            let head = concat3("[Resource: ", uri.as_str(), "]\n");
            let body = utf8_truncate(text.as_str(), 200);
            concat2(head.as_str(), body.as_str())
        },
        ContentBlock::BlobResource { uri, .. } => concat3(
            "[Binary Resource: ",
            uri.as_str(),
            "]",
        ),
        ContentBlock::UnknownResource => string_of("[Unknown Resource]"),
        ContentBlock::Unknown => string_of("[Unknown Content]"),
    }
}

/// Text of a plain-text content block; empty for every other kind.
pub fn plain_text_of_content(content: &ContentBlock) -> (r: String)
    ensures
        r@ == (match *content {
            ContentBlock::Text { text } => text@,
            _ => Seq::empty(),
        }),
{
    match content {
        ContentBlock::Text { text } => string_of(text.as_str()),
        _ => String::new(),
    }
}

} // verus!

verus! {

/// The view of an optional string.
pub open spec fn opt_view(o: Option<String>) -> Option<Seq<char>> {
    match o {
        Some(s) => Some(s@),
        None => None,
    }
}

/// A copy of an optional string.
pub fn clone_opt(o: &Option<String>) -> (r: Option<String>)
    ensures
        opt_view(r) == opt_view(*o),
{
    match o {
        Some(s) => Some(string_of(s.as_str())),
        None => None,
    }
}

/// The abstract value of a `ResourceInfo`.
pub struct ResourceView {
    pub uri: Seq<char>,
    pub name: Seq<char>,
    pub mime_type: Option<Seq<char>>,
    pub text: Option<Seq<char>>,
}

impl View for ResourceInfo {
    type V = ResourceView;

    open spec fn view(&self) -> ResourceView {
        ResourceView {
            uri: self.uri@,
            name: self.name@,
            mime_type: opt_view(self.mime_type),
            text: opt_view(self.text),
        }
    }
}

/// The resource a user message shows for a content block: resource links only.
pub open spec fn link_resource(c: ContentBlock) -> Option<ResourceView> {
    match c {
        ContentBlock::ResourceLink { name, uri, mime_type } => Some(
            ResourceView { uri: uri@, name: name@, mime_type: opt_view(mime_type), text: None },
        ),
        _ => None,
    }
}

/// The resource shown for a content block when embedded resources count too;
/// an embedded resource is named after the last segment of its URI.
pub open spec fn embedded_resource(c: ContentBlock) -> Option<ResourceView> {
    match c {
        ContentBlock::ResourceLink { .. } => link_resource(c),
        ContentBlock::TextResource { uri, text, mime_type } => Some(
            ResourceView {
                uri: uri@,
                name: after_last(uri@, '/'),
                mime_type: opt_view(mime_type),
                text: Some(text@),
            },
        ),
        ContentBlock::BlobResource { uri, mime_type } => Some(
            ResourceView {
                uri: uri@,
                name: after_last(uri@, '/'),
                mime_type: opt_view(mime_type),
                text: None,
            },
        ),
        _ => None,
    }
}

/// The view of an optional resource.
pub open spec fn opt_resource_view(o: Option<ResourceInfo>) -> Option<ResourceView> {
    match o {
        Some(r) => Some(r@),
        None => None,
    }
}

impl ResourceInfo {
    /// The resource a content block links to, if it is a resource link.
    pub fn from_content_block(content: &ContentBlock) -> (r: Option<ResourceInfo>)
        ensures
            opt_resource_view(r) == link_resource(*content),
    {
        match content {
            ContentBlock::ResourceLink { name, uri, mime_type } => Some(
                ResourceInfo {
                    uri: string_of(uri.as_str()),
                    name: string_of(name.as_str()),
                    mime_type: clone_opt(mime_type),
                    text: None,
                },
            ),
            _ => None,
        }
    }

    /// The resource a content block links to or embeds.
    pub fn from_content_block_with_embedded(content: &ContentBlock) -> (r: Option<ResourceInfo>)
        ensures
            opt_resource_view(r) == embedded_resource(*content),
    {
        match content {
            ContentBlock::ResourceLink { .. } => ResourceInfo::from_content_block(content),
            ContentBlock::TextResource { uri, text, mime_type } => Some(
                ResourceInfo {
                    uri: string_of(uri.as_str()),
                    name: extract_filename(uri.as_str()),
                    mime_type: clone_opt(mime_type),
                    text: Some(string_of(text.as_str())),
                },
            ),
            ContentBlock::BlobResource { uri, mime_type } => Some(
                ResourceInfo {
                    uri: string_of(uri.as_str()),
                    name: extract_filename(uri.as_str()),
                    mime_type: clone_opt(mime_type),
                    text: None,
                },
            ),
            _ => None,
        }
    }
}

} // verus!

verus! {

/// A prefix cut at `n` bytes is shorter than the text exactly when the text is longer
/// than `n` bytes.
pub proof fn lemma_utf8_prefix_len(s: Seq<char>, n: nat)
    ensures
        utf8_prefix(s, n).len() <= s.len(),
        (utf8_prefix(s, n).len() < s.len()) == (utf8_len(s) > n),
    decreases s.len(),
{
    if utf8_len(s) > n {
        lemma_utf8_prefix_len(s.drop_last(), n);
    }
}

/// Whether `s` is longer than `n` bytes in UTF-8, and its first `n` bytes.
pub fn utf8_truncate_checked(s: &str, n: usize) -> (r: (bool, String))
    requires
        utf8_len(s@) > n ==> is_utf8_boundary(s@, n as nat),
    ensures
        r.0 == (utf8_len(s@) > n),
        r.1@ == utf8_prefix(s@, n as nat),
{
    let head = utf8_truncate(s, n);
    let a = chars_of(head.as_str());
    let b = chars_of(s);
    proof {
        lemma_utf8_prefix_len(s@, n as nat);
    }
    (a.len() < b.len(), head)
}

} // verus!

verus! {

/// Content of a tool call.
pub enum ToolCallContent {
    Content(ContentBlock),
    Diff { path: String, old_text: Option<String>, new_text: String },
    Terminal { terminal_id: String },
    /// Content of a kind this library does not know.
    Other,
}

/// What the `Debug` format of a path gives for the path text.
pub uninterp spec fn path_debug(p: Seq<char>) -> Seq<char>;

/// Formats a path with `Debug` (`format!("{:?}", Path::new(path))`: quoted, with special
/// characters escaped); the result is named by `path_debug`.
#[verifier::external_body]
fn debug_path(path: &str) -> (r: String)
    ensures
        r@ == path_debug(path@),
{
    format!("{:?}", std::path::Path::new(path))
}

/// What the tool call view shows for a piece of tool call content.
pub open spec fn tool_content_text(c: ToolCallContent) -> Option<Seq<char>> {
    match c {
        ToolCallContent::Content(ContentBlock::Text { text }) => Some(text@),
        ToolCallContent::Content(_) => None,
        ToolCallContent::Diff { path, old_text, new_text } => Some(
            "Modified: "@ + path_debug(path@) + "\n"@ + match old_text {
                Some(t) => t@,
                None => "<new file>"@,
            } + " -> "@ + new_text@,
        ),
        ToolCallContent::Terminal { terminal_id } => Some("Terminal: "@ + terminal_id@),
        ToolCallContent::Other => None,
    }
}

/// What the tool call view shows for a piece of tool call content: the text of a text
/// block, a summary of a diff, or the terminal it ran in.
pub fn tool_call_content_text(content: &ToolCallContent) -> (r: Option<String>)
    ensures
        opt_view(r) == tool_content_text(*content),
{
    match content {
        ToolCallContent::Content(ContentBlock::Text { text }) => Some(string_of(text.as_str())),
        ToolCallContent::Content(_) => None,
        ToolCallContent::Diff { path, old_text, new_text } => {
            let p = debug_path(path.as_str());
            let head = concat3("Modified: ", p.as_str(), "\n");
            let old = match old_text {
                Some(t) => string_of(t.as_str()),
                None => string_of("<new file>"),
            };
            let a = concat2(head.as_str(), old.as_str());
            Some(concat3(a.as_str(), " -> ", new_text.as_str()))
        },
        ToolCallContent::Terminal { terminal_id } => Some(concat2("Terminal: ", terminal_id.as_str())),
        ToolCallContent::Other => None,
    }
}

} // verus!

verus! {

/// Cutting a text at `n` bytes gives a beginning of the text that fits in `n` bytes.
pub proof fn lemma_utf8_prefix_fits(s: Seq<char>, n: nat)
    ensures
        utf8_len(utf8_prefix(s, n)) <= n,
        utf8_prefix(s, n) == s.take(utf8_prefix(s, n).len() as int),
    decreases s.len(),
{
    if utf8_len(s) > n {
        lemma_utf8_prefix_fits(s.drop_last(), n);
        lemma_utf8_prefix_len(s.drop_last(), n);
        let p = utf8_prefix(s.drop_last(), n);
        assert(s.drop_last().take(p.len() as int) =~= s.take(p.len() as int));
    } else {
        assert(s.take(s.len() as int) =~= s);
    }
}

} // verus!

verus! {

/// Number of lines of a resource's text (none without text).
pub open spec fn resource_lines(r: ResourceView) -> nat {
    match r.text {
        Some(t) => crate::text::lines_of(t).len(),
        None => 0,
    }
}

/// Number of lines of a resource's text, as its header shows.
pub fn resource_line_count(resource: &ResourceInfo) -> (n: usize)
    ensures
        n == resource_lines(resource@),
{
    match &resource.text {
        Some(t) => {
            let ls = crate::text::lines(t.as_str());
            ls.len()
        },
        None => 0,
    }
}

/// The header label of a resource: its number of lines.
pub fn resource_lines_label(resource: &ResourceInfo) -> (r: String)
    ensures
        r@ == crate::text::decimal(resource_lines(resource@)) + " lines"@,
{
    let n = resource_line_count(resource);
    let d = crate::text::decimal_string(n);
    concat2(d.as_str(), " lines")
}

} // verus!

verus! {

/// What the plain conversation list shows for a piece of tool call content: like
/// `tool_content_text`, with the path of a diff shown as it is.
pub open spec fn tool_content_line(c: ToolCallContent) -> Option<Seq<char>> {
    match c {
        ToolCallContent::Diff { path, old_text, new_text } => Some(
            "Modified: "@ + path@ + "\n"@ + match old_text {
                Some(t) => t@,
                None => "<new file>"@,
            } + " -> "@ + new_text@,
        ),
        _ => tool_content_text(c),
    }
}

/// What the plain conversation list shows for a piece of tool call content.
pub fn tool_call_content_line(content: &ToolCallContent) -> (r: Option<String>)
    ensures
        opt_view(r) == tool_content_line(*content),
{
    match content {
        ToolCallContent::Diff { path, old_text, new_text } => {
            let head = concat3("Modified: ", path.as_str(), "\n");
            let old = match old_text {
                Some(t) => string_of(t.as_str()),
                None => string_of("<new file>"),
            };
            let a = concat2(head.as_str(), old.as_str());
            Some(concat3(a.as_str(), " -> ", new_text.as_str()))
        },
        _ => tool_call_content_text(content),
    }
}

} // verus!
