//! The request-body editor: a text buffer with a content type, a cursor and a
//! selection.
use vstd::prelude::*;
use crate::json::{parse_json_value, json_to_string_pretty, json_to_string, json_parse, pretty_json, compact_json};
use crate::text::{to_owned_string, push_str, count_lines, line_count, is_blank, blank, trimmed_starts_with, first_non_ws_is, chars_of, string_of_chars, views, byte_len, utf8_len, str_len, char_byte_len, lemma_byte_len_prefix, strip_cr, std_lines, lines_of, split_at_char, lemma_split_nonempty, sep_total, lemma_split_bytes, lemma_sep_total_prefix, lemma_byte_len_append, lemma_split_concat, lemma_split_without_sep};
use crate::validation::json_error;

verus! {

/// The content types the body editor offers.
#[derive(Clone, Copy, Debug, PartialEq, Eq, Structural)]
pub enum BodyContentType {
    Json,
    Xml,
    Text,
    Html,
    FormUrlEncoded,
    MultipartFormData,
    NoBody,
}

/// How the editor presents its content.
#[derive(Clone, Copy, Debug, PartialEq, Eq, Structural)]
pub enum EditorMode {
    SingleLine,
    MultiLine,
    Form,
}

/// The content types in the order the selector lists them.
pub open spec fn content_type_order() -> Seq<BodyContentType> {
    seq![
        BodyContentType::Json,
        BodyContentType::Xml,
        BodyContentType::Text,
        BodyContentType::Html,
        BodyContentType::FormUrlEncoded,
        BodyContentType::MultipartFormData,
        BodyContentType::NoBody,
    ]
}

/// The name a content type is shown under.
pub open spec fn content_type_name(c: BodyContentType) -> Seq<char> {
    match c {
        BodyContentType::Json => "JSON"@,
        BodyContentType::Xml => "XML"@,
        BodyContentType::Text => "Text"@,
        BodyContentType::Html => "HTML"@,
        BodyContentType::FormUrlEncoded => "Form (URL-Encoded)"@,
        BodyContentType::MultipartFormData => "Multipart Form"@,
        BodyContentType::NoBody => "None"@,
    }
}

/// The MIME type of a content type (empty for no body).
pub open spec fn content_type_mime(c: BodyContentType) -> Seq<char> {
    match c {
        BodyContentType::Json => "application/json"@,
        BodyContentType::Xml => "application/xml"@,
        BodyContentType::Text => "text/plain"@,
        BodyContentType::Html => "text/html"@,
        BodyContentType::FormUrlEncoded => "application/x-www-form-urlencoded"@,
        BodyContentType::MultipartFormData => "multipart/form-data"@,
        BodyContentType::NoBody => ""@,
    }
}

/// The file extension of a content type (empty for no body).
pub open spec fn content_type_extension(c: BodyContentType) -> Seq<char> {
    match c {
        BodyContentType::Json => "json"@,
        BodyContentType::Xml => "xml"@,
        BodyContentType::Text => "txt"@,
        BodyContentType::Html => "html"@,
        BodyContentType::FormUrlEncoded => "txt"@,
        BodyContentType::MultipartFormData => "txt"@,
        BodyContentType::NoBody => ""@,
    }
}

/// The text a fresh editor of a content type starts with.
pub open spec fn content_type_default(c: BodyContentType) -> Seq<char> {
    match c {
        BodyContentType::Json => "{\n  \n}"@,
        BodyContentType::Xml => "<?xml version=\"1.0\" encoding=\"UTF-8\"?>\n<root>\n  \n</root>"@,
        BodyContentType::Html => "<!DOCTYPE html>\n<html>\n<body>\n  \n</body>\n</html>"@,
        _ => Seq::empty(),
    }
}

/// The mode that suits a content type: form data is edited as a form.
pub open spec fn mode_for(c: BodyContentType) -> EditorMode {
    match c {
        BodyContentType::FormUrlEncoded | BodyContentType::MultipartFormData => EditorMode::Form,
        _ => EditorMode::MultiLine,
    }
}

impl BodyContentType {
    /// Every content type, in the order the selector lists them.
    pub fn all() -> (r: Vec<BodyContentType>)
        ensures
            r@ == content_type_order(),
    {
        let r = vec![
            BodyContentType::Json,
            BodyContentType::Xml,
            BodyContentType::Text,
            BodyContentType::Html,
            BodyContentType::FormUrlEncoded,
            BodyContentType::MultipartFormData,
            BodyContentType::NoBody,
        ];
        assert(r@ =~= content_type_order());
        r
    }

    /// The name the content type is shown under.
    pub fn display_name(&self) -> (r: &'static str)
        ensures
            r@ == content_type_name(*self),
    {
        match self {
            BodyContentType::Json => "JSON",
            BodyContentType::Xml => "XML",
            BodyContentType::Text => "Text",
            BodyContentType::Html => "HTML",
            BodyContentType::FormUrlEncoded => "Form (URL-Encoded)",
            BodyContentType::MultipartFormData => "Multipart Form",
            BodyContentType::NoBody => "None",
        }
    }

    /// The MIME type (empty for no body).
    pub fn mime_type(&self) -> (r: &'static str)
        ensures
            r@ == content_type_mime(*self),
    {
        match self {
            BodyContentType::Json => "application/json",
            BodyContentType::Xml => "application/xml",
            BodyContentType::Text => "text/plain",
            BodyContentType::Html => "text/html",
            BodyContentType::FormUrlEncoded => "application/x-www-form-urlencoded",
            BodyContentType::MultipartFormData => "multipart/form-data",
            BodyContentType::NoBody => "",
        }
    }

    /// The file extension (empty for no body).
    pub fn file_extension(&self) -> (r: &'static str)
        ensures
            r@ == content_type_extension(*self),
    {
        match self {
            BodyContentType::Json => "json",
            BodyContentType::Xml => "xml",
            BodyContentType::Text => "txt",
            BodyContentType::Html => "html",
            BodyContentType::FormUrlEncoded => "txt",
            BodyContentType::MultipartFormData => "txt",
            BodyContentType::NoBody => "",
        }
    }

    /// The text a fresh editor of this type starts with.
    pub fn default_content(&self) -> (r: String)
        ensures
            r@ == content_type_default(*self),
    {
        match self {
            BodyContentType::Json => to_owned_string("{\n  \n}"),
            BodyContentType::Xml => to_owned_string(
                "<?xml version=\"1.0\" encoding=\"UTF-8\"?>\n<root>\n  \n</root>",
            ),
            BodyContentType::Html => to_owned_string("<!DOCTYPE html>\n<html>\n<body>\n  \n</body>\n</html>"),
            _ => String::new(),
        }
    }
}

/// `String::from_utf8` on a copy of the bytes: the decoded text, or the `Display`
/// text of the decoding error. What that text says is named, not stated.
#[verifier::external_body]
fn decode_utf8_string(bytes: &[u8]) -> (r: Result<String, String>)
    ensures
        r is Ok == vstd::utf8::valid_utf8(bytes@),
        r matches Ok(s) ==> s@ == vstd::utf8::decode_utf8(bytes@),
        r matches Err(e) ==> e@ == utf8_error_text(bytes@),
{
    String::from_utf8(bytes.to_vec()).map_err(|e| e.to_string())
}

/// The `Display` text of the error that `String::from_utf8` reports for bytes that
/// are not valid UTF-8.
pub uninterp spec fn utf8_error_text(bytes: Seq<u8>) -> Seq<char>;

/// The text editor for a request body.
#[derive(Debug)]
pub struct BodyEditor {
    pub content_type: BodyContentType,
    pub content: String,
    pub mode: EditorMode,
    pub read_only: bool,
    /// The cursor as (line, column); the column counts bytes.
    pub cursor: (usize, usize),
    /// The selection as (start, end), each a (line, column).
    pub selection: Option<((usize, usize), (usize, usize))>,
    pub dirty: bool,
    pub dropdown_open: bool,
    pub line_count: usize,
}

/// The outcome of `validate` for a content type and a text.
pub open spec fn validation_outcome(c: BodyContentType, s: Seq<char>) -> Option<Seq<char>> {
    match c {
        BodyContentType::Json => if blank(s) {
            None
        } else {
            match json_error(s) {
                Some(e) => Some("Invalid JSON: "@ + e),
                None => None,
            }
        },
        BodyContentType::Xml => if blank(s) || first_non_ws_is(s, '<') {
            None
        } else {
            Some("XML must start with '<'"@)
        },
        _ => None,
    }
}

impl BodyEditor {
    /// A fresh editor of the given type with its default content.
    pub fn with_type(content_type: BodyContentType) -> (r: BodyEditor)
        ensures
            r.content_type == content_type,
            r.content@ == content_type_default(content_type),
            r.mode == EditorMode::MultiLine,
            !r.read_only,
            r.cursor == (0usize, 0usize),
            r.selection is None,
            !r.dirty,
            !r.dropdown_open,
            r.line_count == line_count(r.content@),
    {
        let content = content_type.default_content();
        let line_count = count_lines(content.as_str());
        BodyEditor {
            content_type,
            content,
            mode: EditorMode::MultiLine,
            read_only: false,
            cursor: (0, 0),
            selection: None,
            dirty: false,
            dropdown_open: false,
            line_count,
        }
    }

    /// A fresh JSON editor with the default JSON content.
    pub fn new() -> (r: BodyEditor)
        ensures
            r.content_type == BodyContentType::Json,
            r.content@ == content_type_default(BodyContentType::Json),
            r.mode == EditorMode::MultiLine,
            !r.read_only,
            r.cursor == (0usize, 0usize),
            r.selection is None,
            !r.dirty,
            !r.dropdown_open,
            r.line_count == line_count(r.content@),
    {
        BodyEditor::with_type(BodyContentType::Json)
    }

    /// An editor of the given type holding the given text, in the mode that suits
    /// the type.
    pub fn with_content(content_type: BodyContentType, content: String) -> (r: BodyEditor)
        ensures
            r.content_type == content_type,
            r.content@ == content@,
            r.mode == mode_for(content_type),
            !r.read_only,
            r.cursor == (0usize, 0usize),
            r.selection is None,
            !r.dirty,
            !r.dropdown_open,
            r.line_count == line_count(content@),
    {
        let line_count = count_lines(content.as_str());
        let mode = match content_type {
            BodyContentType::FormUrlEncoded | BodyContentType::MultipartFormData => EditorMode::Form,
            _ => EditorMode::MultiLine,
        };
        BodyEditor {
            content_type,
            content,
            mode,
            read_only: false,
            cursor: (0, 0),
            selection: None,
            dirty: false,
            dropdown_open: false,
            line_count,
        }
    }

    /// Sets the content type, closes the selector and switches to the mode that
    /// suits the type.
    pub fn set_content_type(&mut self, content_type: BodyContentType)
        ensures
            *final(self) == (BodyEditor {
                content_type,
                dropdown_open: false,
                mode: mode_for(content_type),
                ..*old(self)
            }),
    {
        self.content_type = content_type;
        self.dropdown_open = false;
        self.mode = match content_type {
            BodyContentType::FormUrlEncoded | BodyContentType::MultipartFormData => EditorMode::Form,
            _ => EditorMode::MultiLine,
        };
    }

    /// Opens the content-type selector if it is closed, closes it if it is open.
    pub fn toggle_dropdown(&mut self)
        ensures
            *final(self) == (BodyEditor { dropdown_open: !old(self).dropdown_open, ..*old(self) }),
    {
        self.dropdown_open = !self.dropdown_open;
    }

    /// Replaces the content and marks it modified.
    pub fn set_content(&mut self, content: String)
        ensures
            final(self).dirty == dirty_after(old(self).dirty, EditorOp::SetContent),
            final(self).content@ == content@,
            final(self).line_count == line_count(content@),
            final(self).dirty,
            final(self).content_type == old(self).content_type,
            final(self).mode == old(self).mode,
            final(self).read_only == old(self).read_only,
            final(self).cursor == old(self).cursor,
            final(self).selection == old(self).selection,
            final(self).dropdown_open == old(self).dropdown_open,
    {
        self.line_count = count_lines(content.as_str());
        self.content = content;
        self.dirty = true;
    }

    /// The content.
    pub fn get_content(&self) -> (r: &str)
        ensures
            r@ == self.content@,
    {
        self.content.as_str()
    }

    /// The content's UTF-8 bytes.
    pub fn get_content_bytes(&self) -> (r: &[u8])
        ensures
            r@ == vstd::utf8::encode_utf8(self.content@),
    {
        self.content.as_str().as_bytes()
    }

    /// The content's length in bytes.
    pub fn content_length(&self) -> (r: usize)
        ensures
            r == vstd::utf8::encode_utf8(self.content@).len(),
    {
        self.content.as_str().as_bytes().len()
    }

    /// Moves the cursor.
    pub fn set_cursor(&mut self, line: usize, column: usize)
        ensures
            *final(self) == (BodyEditor { cursor: (line, column), ..*old(self) }),
    {
        self.cursor = (line, column);
    }

    /// Sets the selection.
    pub fn set_selection(&mut self, start: (usize, usize), end: (usize, usize))
        ensures
            *final(self) == (BodyEditor { selection: Some((start, end)), ..*old(self) }),
    {
        self.selection = Some((start, end));
    }

    /// Drops the selection.
    pub fn clear_selection(&mut self)
        ensures
            *final(self) == (BodyEditor { selection: None, ..*old(self) }),
    {
        self.selection = None;
    }

    /// Empties the content and marks it modified.
    pub fn clear(&mut self)
        ensures
            final(self).dirty == dirty_after(old(self).dirty, EditorOp::Clear),
            final(self).content@.len() == 0,
            final(self).line_count == 0,
            final(self).dirty,
            final(self).content_type == old(self).content_type,
            final(self).mode == old(self).mode,
            final(self).read_only == old(self).read_only,
            final(self).cursor == old(self).cursor,
            final(self).selection == old(self).selection,
            final(self).dropdown_open == old(self).dropdown_open,
    {
        self.content = String::new();
        self.dirty = true;
        self.line_count = 0;
    }

    /// Replaces the content with text that is already saved (not modified).
    pub fn load_from_string(&mut self, content: String)
        ensures
            final(self).dirty == dirty_after(old(self).dirty, EditorOp::LoadFromString),
            final(self).content@ == content@,
            final(self).line_count == line_count(content@),
            !final(self).dirty,
            final(self).content_type == old(self).content_type,
            final(self).mode == old(self).mode,
            final(self).read_only == old(self).read_only,
            final(self).cursor == old(self).cursor,
            final(self).selection == old(self).selection,
            final(self).dropdown_open == old(self).dropdown_open,
    {
        self.line_count = count_lines(content.as_str());
        self.content = content;
        self.dirty = false;
    }

    /// Loads saved content from bytes, which must be valid UTF-8; otherwise the
    /// editor is left as it was and the decoding error is reported.
    pub fn load_from_bytes(&mut self, bytes: &[u8]) -> (r: Result<(), String>)
        ensures
            r is Ok == vstd::utf8::valid_utf8(bytes@),
            r is Ok ==> final(self).content@ == vstd::utf8::decode_utf8(bytes@)
                && final(self).line_count == line_count(final(self).content@) && !final(self).dirty
                && final(self).content_type == old(self).content_type && final(self).mode == old(self).mode
                && final(self).read_only == old(self).read_only && final(self).cursor == old(self).cursor
                && final(self).selection == old(self).selection
                && final(self).dropdown_open == old(self).dropdown_open,
            r matches Err(e) ==> e@ == "Invalid UTF-8: "@ + utf8_error_text(bytes@) && *final(self) == *old(self),
    {
        match decode_utf8_string(bytes) {
            Ok(content) => {
                self.line_count = count_lines(content.as_str());
                self.content = content;
                self.dirty = false;
                Ok(())
            },
            Err(e) => {
                let mut m = to_owned_string("Invalid UTF-8: ");
                push_str(&mut m, e.as_str());
                Err(m)
            },
        }
    }

    /// Checks the content against its type: JSON must parse (blank text passes),
    /// XML must start with `<` (blank text passes); other types always pass.
    pub fn validate(&self) -> (r: Result<(), String>)
        ensures
            r is Ok == (validation_outcome(self.content_type, self.content@) is None),
            r matches Err(e) ==> validation_outcome(self.content_type, self.content@) == Some(e@),
    {
        match self.content_type {
            BodyContentType::Json => {
                if is_blank(self.content.as_str()) {
                    return Ok(());
                }
                match parse_json_value(self.content.as_str()) {
                    Ok(_) => Ok(()),
                    Err(e) => {
                        let mut m = to_owned_string("Invalid JSON: ");
                        push_str(&mut m, e.as_str());
                        Err(m)
                    },
                }
            },
            BodyContentType::Xml => {
                if is_blank(self.content.as_str()) {
                    return Ok(());
                }
                if !trimmed_starts_with(self.content.as_str(), '<') {
                    return Err(to_owned_string("XML must start with '<'"));
                }
                Ok(())
            },
            _ => Ok(()),
        }
    }

    /// Re-prints JSON content indented. Content that is not JSON, or a type other
    /// than JSON, is refused and left as it was.
    pub fn format_content(&mut self) -> (r: Result<(), String>)
        ensures
            old(self).content_type == BodyContentType::Json && json_error(old(self).content@) is None ==> (
            r is Ok && final(self).content@ == pretty_json(json_parse(old(self).content@)) && final(self).dirty && final(self).line_count == line_count(final(self).content@)
                && final(self).content_type == old(self).content_type && final(self).mode == old(self).mode
                && final(self).read_only == old(self).read_only && final(self).cursor == old(self).cursor
                && final(self).selection == old(self).selection
                && final(self).dropdown_open == old(self).dropdown_open),
            r is Err ==> *final(self) == *old(self),
            old(self).content_type == BodyContentType::Json && json_error(old(self).content@) is Some ==> (r
                matches Err(e) && e@ == "Invalid JSON"@),
            old(self).content_type == BodyContentType::Xml ==> (r matches Err(e) && e@
                == "XML formatting not implemented"@),
            old(self).content_type != BodyContentType::Json && old(self).content_type
                != BodyContentType::Xml ==> (r matches Err(e) && e@ == "Formatting not available"@),
    {
        match self.content_type {
            BodyContentType::Json => match parse_json_value(self.content.as_str()) {
                Ok(value) => {
                    let text = json_to_string_pretty(&value)?;
                    self.line_count = count_lines(text.as_str());
                    self.content = text;
                    self.dirty = true;
                    Ok(())
                },
                Err(_) => Err(to_owned_string("Invalid JSON")),
            },
            BodyContentType::Xml => Err(to_owned_string("XML formatting not implemented")),
            _ => Err(to_owned_string("Formatting not available")),
        }
    }

    /// Re-prints JSON content without white space. Content that is not JSON, or a
    /// type other than JSON, is refused and left as it was.
    pub fn minify_content(&mut self) -> (r: Result<(), String>)
        ensures
            old(self).content_type == BodyContentType::Json && json_error(old(self).content@) is None ==> (
            r is Ok && final(self).content@ == compact_json(json_parse(old(self).content@)) && final(self).dirty && final(self).line_count == line_count(final(self).content@)
                && final(self).content_type == old(self).content_type && final(self).mode == old(self).mode
                && final(self).read_only == old(self).read_only && final(self).cursor == old(self).cursor
                && final(self).selection == old(self).selection
                && final(self).dropdown_open == old(self).dropdown_open),
            r is Err ==> *final(self) == *old(self),
            old(self).content_type == BodyContentType::Json && json_error(old(self).content@) is Some ==> (r
                matches Err(e) && e@ == "Invalid JSON"@),
            old(self).content_type != BodyContentType::Json ==> (r matches Err(e) && e@
                == "Minify not available"@),
    {
        match self.content_type {
            BodyContentType::Json => match parse_json_value(self.content.as_str()) {
                Ok(value) => {
                    let text = json_to_string(&value)?;
                    self.line_count = count_lines(text.as_str());
                    self.content = text;
                    self.dirty = true;
                    Ok(())
                },
                Err(_) => Err(to_owned_string("Invalid JSON")),
            },
            _ => Err(to_owned_string("Minify not available")),
        }
    }

    /// Makes the editor read-only or editable.
    pub fn set_read_only(&mut self, read_only: bool)
        ensures
            *final(self) == (BodyEditor { read_only, ..*old(self) }),
    {
        self.read_only = read_only;
    }

    /// Marks the content as saved.
    pub fn mark_saved(&mut self)
        ensures
            final(self).dirty == dirty_after(old(self).dirty, EditorOp::MarkSaved),
            *final(self) == (BodyEditor { dirty: false, ..*old(self) }),
    {
        self.dirty = false;
    }

    /// Whether the content was modified since it was last saved or loaded.
    pub fn is_dirty(&self) -> (r: bool)
        ensures
            r == self.dirty,
    {
        self.dirty
    }

    /// Whether the content is empty or white space only.
    pub fn is_empty(&self) -> (r: bool)
        ensures
            r == blank(self.content@),
    {
        is_blank(self.content.as_str())
    }
}

impl Default for BodyEditor {
    fn default() -> (r: BodyEditor)
        ensures
            r.content_type == BodyContentType::Json,
            r.content@ == content_type_default(BodyContentType::Json),
            r.mode == EditorMode::MultiLine,
            !r.read_only,
            r.cursor == (0usize, 0usize),
            r.selection is None,
            !r.dirty,
            !r.dropdown_open,
            r.line_count == line_count(r.content@),
    {
        BodyEditor::new()
    }
}

/// The byte position where a line starts when the lines are laid end to end,
/// one byte apart.
pub open spec fn line_start(ls: Seq<Seq<char>>, row: int) -> int
    decreases row,
{
    if row <= 0 {
        0
    } else {
        line_start(ls, row - 1) + byte_len(ls[row - 1]) + 1
    }
}

/// The byte position of a cursor (line, column) in a text: the line's start plus
/// the column, at most the line's length; past the last line, the text's length.
pub open spec fn cursor_byte(content: Seq<char>, cursor: (usize, usize)) -> int {
    let ls = std_lines(content);
    if cursor.0 < ls.len() {
        line_start(ls, cursor.0 as int) + if cursor.1 < byte_len(ls[cursor.0 as int]) {
            cursor.1 as int
        } else {
            byte_len(ls[cursor.0 as int]) as int
        }
    } else {
        byte_len(content) as int
    }
}

/// Whether a byte position falls between two characters of a text.
pub open spec fn is_char_boundary(s: Seq<char>, pos: int) -> bool {
    exists|k: int| 0 <= k <= s.len() && byte_len(s.take(k)) == pos
}

/// The number of characters before a byte position on a character boundary.
pub open spec fn char_index(s: Seq<char>, pos: int) -> int {
    choose|k: int| 0 <= k <= s.len() && byte_len(s.take(k)) == pos
}

/// A character boundary has one character index.
proof fn lemma_char_index_unique(s: Seq<char>, k: int)
    requires
        0 <= k <= s.len(),
    ensures
        is_char_boundary(s, byte_len(s.take(k)) as int),
        char_index(s, byte_len(s.take(k)) as int) == k,
{
    let pos = byte_len(s.take(k)) as int;
    assert(0 <= k <= s.len() && byte_len(s.take(k)) == pos);
    let j = char_index(s, pos);
    if j < k {
        lemma_byte_len_prefix(s, j, k);
    } else if j > k {
        lemma_byte_len_prefix(s, k, j);
    }
}

/// A line of `str::lines` has no more bytes than the piece of the split it
/// comes from.
proof fn lemma_line_within_piece(s: Seq<char>, k: int)
    requires
        0 <= k < std_lines(s).len(),
    ensures
        k < split_at_char(s, '\n').len(),
        byte_len(std_lines(s)[k]) <= byte_len(split_at_char(s, '\n')[k]),
{
    let p = split_at_char(s, '\n');
    lemma_split_nonempty(s, '\n');
    let x = p[k];
    if k < p.len() - 1 {
        assert(std_lines(s)[k] == strip_cr(x));
        if x.len() > 0 && x.last() == '\r' {
            assert(byte_len(x) == byte_len(x.drop_last()) + utf8_len(x.last()));
        }
    } else {
        assert(std_lines(s)[k] == x);
    }
}

/// Laid end to end one byte apart, the lines before `i` take no more bytes than
/// the pieces they come from with their separators.
proof fn lemma_line_start_within(s: Seq<char>, i: int)
    requires
        0 <= i <= std_lines(s).len(),
    ensures
        i <= split_at_char(s, '\n').len(),
        line_start(std_lines(s), i) <= sep_total(split_at_char(s, '\n').take(i)),
    decreases i,
{
    let p = split_at_char(s, '\n');
    lemma_split_nonempty(s, '\n');
    if i > 0 {
        lemma_line_start_within(s, i - 1);
        lemma_line_within_piece(s, i - 1);
        assert(p.take(i).drop_last() =~= p.take(i - 1));
    } else {
        assert(p.take(0) =~= Seq::<Seq<char>>::empty());
    }
}

/// Every line of `str::lines`, placed at its start, ends within the text.
proof fn lemma_line_end_within(s: Seq<char>, row: int)
    requires
        0 <= row < std_lines(s).len(),
    ensures
        line_start(std_lines(s), row) + byte_len(std_lines(s)[row]) <= byte_len(s),
{
    let p = split_at_char(s, '\n');
    lemma_line_start_within(s, row);
    lemma_line_within_piece(s, row);
    assert(p.take(row + 1).drop_last() =~= p.take(row));
    lemma_sep_total_prefix(p, row + 1);
    lemma_split_bytes(s);
}

/// The character index of a byte position, when it falls on a boundary.
fn char_index_of(v: &Vec<char>, pos: usize) -> (r: Option<usize>)
    requires
        byte_len(v@) <= usize::MAX,
    ensures
        match r {
            Some(k) => is_char_boundary(v@, pos as int) && k == char_index(v@, pos as int) && k <= v@.len(),
            None => !is_char_boundary(v@, pos as int),
        },
{
    let mut i: usize = 0;
    let mut acc: usize = 0;
    assert(v@.take(0) =~= Seq::<char>::empty());
    while i < v.len() && acc < pos
        invariant
            0 <= i <= v@.len(),
            acc == byte_len(v@.take(i as int)),
            byte_len(v@) <= usize::MAX,
            forall|k: int| 0 <= k < i ==> byte_len(#[trigger] v@.take(k)) < pos,
        decreases v@.len() - i,
    {
        proof {
            assert(v@.take(i + 1).drop_last() =~= v@.take(i as int));
            lemma_byte_len_prefix(v@, i + 1, v@.len() as int);
            assert(v@.take(v@.len() as int) =~= v@);
        }
        acc = acc + char_byte_len(v[i]);
        i = i + 1;
    }
    if acc == pos {
        proof {
            lemma_char_index_unique(v@, i as int);
        }
        Some(i)
    } else {
        proof {
            assert forall|k: int| 0 <= k <= v@.len() implies byte_len(#[trigger] v@.take(k)) != pos by {
                if k >= i {
                    lemma_byte_len_prefix(v@, i as int, k);
                }
            }
        }
        None
    }
}

impl BodyEditor {
    /// The byte position of the cursor: its line's start, counting each line of
    /// `str::lines` and one byte after it, plus the column (at most the line's
    /// length); past the last line, the content's length.
    pub fn cursor_position(&self) -> (r: usize)
        ensures
            r == cursor_byte(self.content@, self.cursor),
    {
        let lines = lines_of(self.content.as_str());
        let total = str_len(self.content.as_str());
        let ghost ls = std_lines(self.content@);
        let mut pos: usize = 0;
        let mut i: usize = 0;
        while i < lines.len()
            invariant
                0 <= i <= lines@.len(),
                views(lines@) == ls,
                ls == std_lines(self.content@),
                pos == line_start(ls, i as int),
                total == byte_len(self.content@),
                total <= isize::MAX,
                i <= self.cursor.0,
            decreases lines@.len() - i,
        {
            let len = str_len(lines[i].as_str());
            proof {
                assert(ls[i as int] == lines@[i as int]@);
                lemma_line_end_within(self.content@, i as int);
            }
            if i == self.cursor.0 {
                let col = if self.cursor.1 < len {
                    self.cursor.1
                } else {
                    len
                };
                return pos + col;
            }
            pos = pos + len + 1;
            i = i + 1;
        }
        total
    }

    /// Inserts text at the cursor's byte position.
    pub fn insert_text(&mut self, text: &str)
        requires
            is_char_boundary(old(self).content@, cursor_byte(old(self).content@, old(self).cursor)),
        ensures
            final(self).dirty == dirty_after(old(self).dirty, EditorOp::InsertText),
            final(self).content@ == old(self).content@.take(
                char_index(old(self).content@, cursor_byte(old(self).content@, old(self).cursor)),
            ) + text@ + old(self).content@.skip(
                char_index(old(self).content@, cursor_byte(old(self).content@, old(self).cursor)),
            ),
            final(self).dirty,
            final(self).line_count == line_count(final(self).content@),
            final(self).content_type == old(self).content_type,
            final(self).mode == old(self).mode,
            final(self).read_only == old(self).read_only,
            final(self).cursor == old(self).cursor,
            final(self).selection == old(self).selection,
            final(self).dropdown_open == old(self).dropdown_open,
    {
        let pos = self.cursor_position();
        let chars = chars_of(self.content.as_str());
        let total = str_len(self.content.as_str());
        let k = match char_index_of(&chars, pos) {
            Some(k) => k,
            None => 0,
        };
        let added = chars_of(text);
        let mut out: Vec<char> = Vec::new();
        let mut i: usize = 0;
        while i < k
            invariant
                0 <= i <= k,
                k <= chars@.len(),
                out@ == chars@.take(i as int),
            decreases k - i,
        {
            out.push(chars[i]);
            assert(out@ =~= chars@.take(i + 1));
            i = i + 1;
        }
        let mut j: usize = 0;
        while j < added.len()
            invariant
                0 <= j <= added@.len(),
                k <= chars@.len(),
                out@ == chars@.take(k as int) + added@.take(j as int),
            decreases added@.len() - j,
        {
            out.push(added[j]);
            assert(out@ =~= chars@.take(k as int) + added@.take(j + 1));
            j = j + 1;
        }
        let mut m: usize = k;
        assert(added@.take(added@.len() as int) =~= added@);
        assert(chars@.subrange(k as int, k as int) =~= Seq::<char>::empty());
        while m < chars.len()
            invariant
                k <= m <= chars@.len(),
                out@ == chars@.take(k as int) + added@ + chars@.subrange(k as int, m as int),
            decreases chars@.len() - m,
        {
            out.push(chars[m]);
            assert(out@ =~= chars@.take(k as int) + added@ + chars@.subrange(k as int, m + 1));
            m = m + 1;
        }
        assert(chars@.subrange(k as int, chars@.len() as int) =~= chars@.skip(k as int));
        self.content = string_of_chars(&out);
        self.dirty = true;
        self.line_count = count_lines(self.content.as_str());
    }

    /// Deletes up to `count` bytes from the cursor's byte position on (fewer at
    /// the end of the content).
    pub fn delete_text(&mut self, count: usize)
        requires
            cursor_byte(old(self).content@, old(self).cursor) + count <= usize::MAX,
            is_char_boundary(old(self).content@, cursor_byte(old(self).content@, old(self).cursor)),
            is_char_boundary(
                old(self).content@,
                if cursor_byte(old(self).content@, old(self).cursor) + count < byte_len(old(self).content@) {
                    cursor_byte(old(self).content@, old(self).cursor) + count
                } else {
                    byte_len(old(self).content@) as int
                },
            ),
        ensures
            final(self).dirty == dirty_after(old(self).dirty, EditorOp::DeleteText),
            final(self).content@ == old(self).content@.take(
                char_index(old(self).content@, cursor_byte(old(self).content@, old(self).cursor)),
            ) + old(self).content@.skip(
                char_index(
                    old(self).content@,
                    if cursor_byte(old(self).content@, old(self).cursor) + count < byte_len(old(self).content@) {
                        cursor_byte(old(self).content@, old(self).cursor) + count
                    } else {
                        byte_len(old(self).content@) as int
                    },
                ),
            ),
            final(self).dirty,
            final(self).line_count == line_count(final(self).content@),
            final(self).content_type == old(self).content_type,
            final(self).mode == old(self).mode,
            final(self).read_only == old(self).read_only,
            final(self).cursor == old(self).cursor,
            final(self).selection == old(self).selection,
            final(self).dropdown_open == old(self).dropdown_open,
    {
        let pos = self.cursor_position();
        let total = str_len(self.content.as_str());
        let end = if pos + count < total {
            pos + count
        } else {
            total
        };
        let chars = chars_of(self.content.as_str());
        let a = match char_index_of(&chars, pos) {
            Some(k) => k,
            None => 0,
        };
        let b = match char_index_of(&chars, end) {
            Some(k) => k,
            None => 0,
        };
        let mut out: Vec<char> = Vec::new();
        let mut i: usize = 0;
        while i < a
            invariant
                0 <= i <= a,
                a <= chars@.len(),
                out@ == chars@.take(i as int),
            decreases a - i,
        {
            out.push(chars[i]);
            assert(out@ =~= chars@.take(i + 1));
            i = i + 1;
        }
        let mut m: usize = b;
        assert(chars@.subrange(b as int, b as int) =~= Seq::<char>::empty());
        while m < chars.len()
            invariant
                b <= m <= chars@.len(),
                a <= chars@.len(),
                out@ == chars@.take(a as int) + chars@.subrange(b as int, m as int),
            decreases chars@.len() - m,
        {
            out.push(chars[m]);
            assert(out@ =~= chars@.take(a as int) + chars@.subrange(b as int, m + 1));
            m = m + 1;
        }
        assert(chars@.subrange(b as int, chars@.len() as int) =~= chars@.skip(b as int));
        self.content = string_of_chars(&out);
        self.dirty = true;
        self.line_count = count_lines(self.content.as_str());
    }
}

/// Whether a text holds a character.
pub open spec fn has_char(s: Seq<char>, ch: char) -> bool {
    exists|i: int| 0 <= i < s.len() && s[i] == ch
}

/// The pieces of a split hold only characters of the text.
proof fn lemma_pieces_lack(s: Seq<char>, sep: char, ch: char)
    requires
        !has_char(s, ch),
    ensures
        forall|j: int, i: int|
            0 <= j < split_at_char(s, sep).len() && 0 <= i < split_at_char(s, sep)[j].len() ==> #[trigger] split_at_char(
                s,
                sep,
            )[j][i] != ch,
    decreases s.len(),
{
    if s.len() > 0 {
        let r = s.drop_last();
        if has_char(r, ch) {
            let w = choose|i: int| 0 <= i < r.len() && r[i] == ch;
            assert(s[w] == ch);
        }
        lemma_pieces_lack(r, sep, ch);
        lemma_split_nonempty(r, sep);
        let q = split_at_char(r, sep);
        assert(s[s.len() - 1] != ch);
        if s.last() == sep {
            assert forall|j: int, i: int|
                0 <= j < split_at_char(s, sep).len() && 0 <= i < split_at_char(s, sep)[j].len() implies #[trigger] split_at_char(
                s,
                sep,
            )[j][i] != ch by {
                if j < q.len() {
                    assert(split_at_char(s, sep)[j] == q[j]);
                }
            }
        } else {
            assert forall|j: int, i: int|
                0 <= j < split_at_char(s, sep).len() && 0 <= i < split_at_char(s, sep)[j].len() implies #[trigger] split_at_char(
                s,
                sep,
            )[j][i] != ch by {
                if j < q.len() - 1 {
                    assert(split_at_char(s, sep)[j] == q[j]);
                } else {
                    assert(split_at_char(s, sep)[j] == q.last().push(s.last()));
                    if i < q.last().len() {
                        assert(q.last()[i] == q[q.len() - 1][i]);
                    }
                }
            }
        }
    }
}

/// Without `'\r'`, the lines are the pieces of the split at `'\n'`, less an empty
/// last one.
proof fn lemma_lines_are_pieces(c: Seq<char>)
    requires
        !has_char(c, '\r'),
    ensures
        std_lines(c).len() == if split_at_char(c, '\n').last().len() == 0 {
            split_at_char(c, '\n').len() - 1
        } else {
            split_at_char(c, '\n').len() as int
        },
        forall|j: int| 0 <= j < std_lines(c).len() ==> #[trigger] std_lines(c)[j] == split_at_char(c, '\n')[j],
{
    let p = split_at_char(c, '\n');
    lemma_split_nonempty(c, '\n');
    lemma_pieces_lack(c, '\n', '\r');
    assert forall|j: int| 0 <= j < std_lines(c).len() implies #[trigger] std_lines(c)[j] == p[j] by {
        if j < p.len() - 1 {
            assert(std_lines(c)[j] == strip_cr(p[j]));
            if p[j].len() > 0 {
                assert(p[j][p[j].len() - 1] != '\r');
            }
        }
    }
}

/// Laid end to end one byte apart, lines that are the pieces of a split start
/// where the pieces with their separators end.
proof fn lemma_line_start_is_sep_total(ls: Seq<Seq<char>>, p: Seq<Seq<char>>, j: int)
    requires
        0 <= j <= ls.len(),
        j <= p.len(),
        forall|i: int| 0 <= i < j ==> #[trigger] ls[i] == p[i],
    ensures
        line_start(ls, j) == sep_total(p.take(j)),
    decreases j,
{
    if j > 0 {
        lemma_line_start_is_sep_total(ls, p, j - 1);
        assert(p.take(j).drop_last() =~= p.take(j - 1));
        assert(ls[j - 1] == p[j - 1]);
    } else {
        assert(p.take(0) =~= Seq::<Seq<char>>::empty());
    }
}

/// The pieces up to `j` take at least the bytes of those up to `i`, and one piece
/// more adds its bytes and a separator.
proof fn lemma_sep_take_grows(p: Seq<Seq<char>>, i: int, j: int)
    requires
        0 <= i <= j <= p.len(),
    ensures
        sep_total(p.take(i)) <= sep_total(p.take(j)),
        i < p.len() ==> sep_total(p.take(i + 1)) == sep_total(p.take(i)) + byte_len(p[i]) + 1,
    decreases j - i,
{
    if i < p.len() {
        assert(p.take(i + 1).drop_last() =~= p.take(i));
    }
    if i < j {
        lemma_sep_take_grows(p, i + 1, j);
    }
}

/// Deleting, at the cursor, as many bytes as were inserted there gives back the
/// text: after an insertion the cursor's byte position is unchanged, falls on the
/// same character, and the inserted bytes end on a character boundary. This holds
/// for a text without `'\r'`, an inserted text without line breaks, and a column
/// within its line.
pub proof fn law_delete_undoes_insert(c: Seq<char>, cursor: (usize, usize), t: Seq<char>)
    requires
        !has_char(c, '\r'),
        !has_char(t, '\r'),
        !has_char(t, '\n'),
        cursor.0 < std_lines(c).len(),
        cursor.1 <= byte_len(std_lines(c)[cursor.0 as int]),
        is_char_boundary(c, cursor_byte(c, cursor)),
    ensures
        ({
            let pos = cursor_byte(c, cursor);
            let k = char_index(c, pos);
            let n = c.take(k) + t + c.skip(k);
            &&& cursor_byte(n, cursor) == pos
            &&& is_char_boundary(n, pos)
            &&& is_char_boundary(n, pos + byte_len(t))
            &&& (if pos + byte_len(t) < byte_len(n) {
                pos + byte_len(t)
            } else {
                byte_len(n) as int
            }) == pos + byte_len(t)
            &&& n.take(char_index(n, pos)) + n.skip(char_index(n, pos + byte_len(t))) == c
        }),
{
    let pos = cursor_byte(c, cursor);
    let row = cursor.0 as int;
    let col = cursor.1 as int;
    let k = char_index(c, pos);
    assert(0 <= k <= c.len() && byte_len(c.take(k)) == pos);
    let x = c.take(k);
    let y = c.skip(k);
    assert(x + y =~= c);
    lemma_split_concat(x, y, '\n');
    lemma_split_nonempty(x, '\n');
    lemma_split_nonempty(y, '\n');
    lemma_split_nonempty(c, '\n');
    let a = split_at_char(x, '\n');
    let b = split_at_char(y, '\n');
    let p = split_at_char(c, '\n');
    let m = a.len() - 1;
    assert(p == a.drop_last() + seq![a.last() + b[0]] + b.drop_first());
    assert(p.take(m) =~= a.drop_last());
    assert(p[m] == a.last() + b[0]);
    lemma_split_bytes(x);
    assert(a.drop_last() =~= a.take(m));
    assert(sep_total(a) == sep_total(a.drop_last()) + byte_len(a.last()) + 1);
    assert(pos == sep_total(p.take(m)) + byte_len(a.last()));
    lemma_byte_len_append(a.last(), b[0]);
    let ls = std_lines(c);
    lemma_lines_are_pieces(c);
    lemma_line_start_is_sep_total(ls, p, row);
    assert(pos == sep_total(p.take(row)) + col);
    assert(ls[row] == p[row]);
    if m < row {
        lemma_sep_take_grows(p, m, row);
        lemma_sep_take_grows(p, m + 1, row);
        assert(false);
    }
    if m > row {
        lemma_sep_take_grows(p, row, m);
        lemma_sep_take_grows(p, row + 1, m);
        assert(false);
    }
    assert(m == row);
    // The text after the insertion.
    let xt = x + t;
    let n = xt + y;
    assert(forall|i: int| 0 <= i < t.len() ==> t[i] != '\n') by {
        assert forall|i: int| 0 <= i < t.len() implies t[i] != '\n' by {
            if t[i] == '\n' {
                assert(has_char(t, '\n'));
            }
        }
    }
    lemma_split_without_sep(t, '\n');
    lemma_split_concat(x, t, '\n');
    let at = split_at_char(xt, '\n');
    assert(at =~= a.drop_last() + seq![a.last() + t]);
    lemma_split_concat(xt, y, '\n');
    let p2 = split_at_char(n, '\n');
    assert(at.drop_last() =~= a.drop_last());
    assert(at.last() == a.last() + t);
    assert(p2 == a.drop_last() + seq![a.last() + t + b[0]] + b.drop_first());
    assert(p2.len() == p.len());
    assert(p2.take(row) =~= p.take(row));
    assert(p2[row] == a.last() + t + b[0]);
    assert(p2.last() == p.last() || row == p.len() - 1);
    if row < p.len() - 1 {
        assert(p2[p2.len() - 1] == p[p.len() - 1]);
    }
    lemma_byte_len_append(a.last(), t);
    lemma_byte_len_append(a.last() + t, b[0]);
    // No carriage return in the new text either.
    assert(!has_char(n, '\r')) by {
        if has_char(n, '\r') {
            let w = choose|i: int| 0 <= i < n.len() && n[i] == '\r';
            if w < x.len() {
                assert(c[w] == x[w]);
            } else if w < x.len() + t.len() {
                assert(t[w - x.len()] == n[w]);
            } else {
                assert(c[k + (w - x.len() - t.len())] == n[w]);
            }
        }
    }
    let ls2 = std_lines(n);
    lemma_lines_are_pieces(n);
    assert(row < ls2.len());
    assert(ls2[row] == p2[row]);
    lemma_line_start_is_sep_total(ls2, p2, row);
    assert(cursor_byte(n, cursor) == pos);
    // The boundaries around the inserted text.
    assert(n.take(k) =~= x);
    lemma_char_index_unique(n, k);
    assert(n.take(k + t.len()) =~= xt);
    lemma_byte_len_append(x, t);
    lemma_char_index_unique(n, k + t.len());
    lemma_byte_len_append(xt, y);
    assert(n.take(k) + n.skip(k + t.len()) =~= c);
}

/// An operation on the body editor, as it bears on the unsaved-changes flag.
pub enum EditorOp {
    SetContent,
    InsertText,
    DeleteText,
    Clear,
    MarkSaved,
    LoadFromString,
    /// Moving the cursor, selecting, or changing the type or the selector.
    Other,
}

/// Whether an operation changes the content.
pub open spec fn op_edits(op: EditorOp) -> bool {
    op is SetContent || op is InsertText || op is DeleteText || op is Clear
}

/// Whether an operation records the content as saved.
pub open spec fn op_saves(op: EditorOp) -> bool {
    op is MarkSaved || op is LoadFromString
}

/// The unsaved-changes flag after an operation.
pub open spec fn dirty_after(dirty: bool, op: EditorOp) -> bool {
    if op_edits(op) {
        true
    } else if op_saves(op) {
        false
    } else {
        dirty
    }
}

/// The flag after a run of operations from a given flag.
pub open spec fn dirty_after_all(dirty: bool, ops: Seq<EditorOp>) -> bool
    decreases ops.len(),
{
    if ops.len() == 0 {
        dirty
    } else {
        dirty_after(dirty_after_all(dirty, ops.drop_last()), ops.last())
    }
}

/// An editor starts without unsaved changes; afterwards it has them exactly when
/// some operation changed the content (setting it, inserting, deleting or
/// clearing) and no later one saved it (marking it saved, or loading saved text).
pub proof fn law_dirty_flag(ops: Seq<EditorOp>)
    ensures
        dirty_after_all(false, ops) <==> exists|i: int|
            0 <= i < ops.len() && op_edits(#[trigger] ops[i]) && forall|j: int| i < j < ops.len() ==> !op_saves(
                #[trigger] ops[j],
            ),
    decreases ops.len(),
{
    if ops.len() > 0 {
        let p = ops.drop_last();
        let n = ops.len() - 1;
        law_dirty_flag(p);
        let last = ops.last();
        assert(ops[n] == last);
        if op_edits(last) {
            assert(forall|j: int| n < j < ops.len() ==> !op_saves(#[trigger] ops[j]));
        } else if op_saves(last) {
            if exists|i: int|
                0 <= i < ops.len() && op_edits(#[trigger] ops[i]) && forall|j: int| i < j < ops.len() ==> !op_saves(
                    #[trigger] ops[j],
                ) {
                let i = choose|i: int|
                    0 <= i < ops.len() && op_edits(#[trigger] ops[i]) && forall|j: int|
                        i < j < ops.len() ==> !op_saves(#[trigger] ops[j]);
                assert(i != n);
                assert(!op_saves(ops[n]));
            }
        } else {
            if dirty_after_all(false, p) {
                let i = choose|i: int|
                    0 <= i < p.len() && op_edits(#[trigger] p[i]) && forall|j: int| i < j < p.len() ==> !op_saves(
                        #[trigger] p[j],
                    );
                assert(ops[i] == p[i]);
                assert forall|j: int| i < j < ops.len() implies !op_saves(#[trigger] ops[j]) by {
                    if j < n {
                        assert(ops[j] == p[j]);
                    }
                }
            }
            if exists|i: int|
                0 <= i < ops.len() && op_edits(#[trigger] ops[i]) && forall|j: int| i < j < ops.len() ==> !op_saves(
                    #[trigger] ops[j],
                ) {
                let i = choose|i: int|
                    0 <= i < ops.len() && op_edits(#[trigger] ops[i]) && forall|j: int|
                        i < j < ops.len() ==> !op_saves(#[trigger] ops[j]);
                assert(i < n);
                assert(p[i] == ops[i]);
                assert forall|j: int| i < j < p.len() implies !op_saves(#[trigger] p[j]) by {
                    assert(p[j] == ops[j]);
                }
            }
        }
    }
}

} // verus!
