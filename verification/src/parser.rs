//! Rows out of delimited text: errors with their place, and the delimiter
//! that a text most likely uses.

use vstd::prelude::*;
use crate::number::{decimal, u64_to_string};
use crate::assoc::with_entry;
use crate::text::{
    concat_strs, chars_of, string_of, slice_chars, count_char, count_in, find_from, find_chars,
    split, split_str, trim, trim_chars, is_blank, is_blank_str, str_views, str_to_lowercase, str_eq,
    lemma_split_nonempty,
};
use crate::transform::dsl::operations::option_text;
use crate::value::{
    Value, Json, Entry, Entries, entries_view, values_view, set_entry, lemma_view_object,
};

verus! {

/// A parsing error with its place.
#[derive(Debug, PartialEq)]
pub struct CsvError {
    pub line: usize,
    pub column: Option<String>,
    pub value: Option<String>,
    pub message: String,
}

/// The text of an error: the line, the column and the value where they are
/// known, then the message.
pub open spec fn error_text(
    line: nat,
    column: Option<Seq<char>>,
    value: Option<Seq<char>>,
    message: Seq<char>,
) -> Seq<char> {
    match (column, value) {
        (Some(col), Some(val)) => "Line "@ + decimal(line as int) + ", column '"@ + col
            + "' (value '"@ + val + "'): "@ + message,
        (Some(col), None) => "Line "@ + decimal(line as int) + ", column '"@ + col + "': "@
            + message,
        _ => "Line "@ + decimal(line as int) + ": "@ + message,
    }
}

impl CsvError {
    /// An error at a line.
    pub fn new(line: usize, message: &str) -> (r: Self)
        ensures
            r.line == line,
            r.column.is_none(),
            r.value.is_none(),
            r.message@ == message@,
    {
        CsvError { line, column: None, value: None, message: message.to_string() }
    }

    /// The error, with the column it is about.
    pub fn with_column(self, column: &str) -> (r: Self)
        ensures
            r.line == self.line,
            option_text(r.column) == Some(column@),
            option_text(r.value) == option_text(self.value),
            r.message@ == self.message@,
    {
        let mut r = self;
        r.column = Some(column.to_string());
        r
    }

    /// The error, with the value it is about.
    pub fn with_value(self, value: &str) -> (r: Self)
        ensures
            r.line == self.line,
            option_text(r.column) == option_text(self.column),
            option_text(r.value) == Some(value@),
            r.message@ == self.message@,
    {
        let mut r = self;
        r.value = Some(value.to_string());
        r
    }

    /// The error as one line of text.
    pub fn to_string(&self) -> (r: String)
        ensures
            r@ == error_text(
                self.line as nat,
                option_text(self.column),
                option_text(self.value),
                self.message@,
            ),
    {
        let head = concat_strs("Line ", u64_to_string(self.line as u64).as_str());
        match (&self.column, &self.value) {
            (Some(col), Some(val)) => {
                let a = concat_strs(head.as_str(), ", column '");
                let b = concat_strs(a.as_str(), col.as_str());
                let c = concat_strs(b.as_str(), "' (value '");
                let d = concat_strs(c.as_str(), val.as_str());
                let e = concat_strs(d.as_str(), "'): ");
                concat_strs(e.as_str(), self.message.as_str())
            },
            (Some(col), None) => {
                let a = concat_strs(head.as_str(), ", column '");
                let b = concat_strs(a.as_str(), col.as_str());
                let c = concat_strs(b.as_str(), "': ");
                concat_strs(c.as_str(), self.message.as_str())
            },
            _ => {
                let a = concat_strs(head.as_str(), ": ");
                concat_strs(a.as_str(), self.message.as_str())
            },
        }
    }
}

impl Clone for CsvError {
    fn clone(&self) -> (r: Self)
        ensures
            r.line == self.line,
            option_text(r.column) == option_text(self.column),
            option_text(r.value) == option_text(self.value),
            r.message@ == self.message@,
    {
        CsvError {
            line: self.line,
            column: match &self.column {
                Some(c) => Some(c.clone()),
                None => None,
            },
            value: match &self.value {
                Some(v) => Some(v.clone()),
                None => None,
            },
            message: self.message.clone(),
        }
    }
}

/// Rows with what was found out about the text they came from.
#[derive(Debug, PartialEq)]
pub struct ParseResult {
    /// One object per row.
    pub records: Vec<Value>,
    /// The encoding found or used.
    pub encoding: String,
    /// The delimiter found or used.
    pub delimiter: char,
    /// The column headers.
    pub headers: Vec<String>,
}

/// A delimiter as it is shown on a command line: a tab by its escape, any
/// other as it is.
pub fn show_delimiter(d: char) -> (r: String)
    ensures
        r@ == (if d == '\t' {
            seq!['\\', 't']
        } else {
            seq![d]
        }),
{
    let mut out: Vec<char> = Vec::new();
    if d == '\t' {
        out.push('\\');
        out.push('t');
        assert(out@ =~= seq!['\\', 't']);
    } else {
        out.push(d);
        assert(out@ =~= seq![d]);
    }
    string_of(&out)
}

/// The text up to the first line feed, or all of it where there is none.
pub open spec fn first_line(content: Seq<char>) -> Seq<char> {
    match find_from(content, seq!['\n'], 0) {
        Some(i) => content.subrange(0, i),
        None => content,
    }
}

/// The better of a delimiter found so far and another one: the other one
/// only where it occurs more often.
pub open spec fn better(best: (char, nat), line: Seq<char>, sep: char) -> (char, nat) {
    if count_char(line, sep) > best.1 {
        (sep, count_char(line, sep))
    } else {
        best
    }
}

/// The delimiter that occurs most often in the first line, of semicolon,
/// comma, tab and bar; among equals the one named first here, and the
/// semicolon where none occurs.
pub open spec fn detected_delimiter(content: Seq<char>) -> char {
    let line = first_line(content);
    better(better(better(better((';', 0), line, ';'), line, ','), line, '\t'), line, '|').0
}

/// Detect the delimiter by counting occurrences in the first line.
pub fn detect_delimiter(content: &str) -> (r: char)
    ensures
        r == detected_delimiter(content@),
{
    let chars = chars_of(content);
    let mut newline: Vec<char> = Vec::new();
    newline.push('\n');
    assert(newline@ =~= seq!['\n']);
    let line = match find_chars(&chars, &newline, 0) {
        Some(i) => slice_chars(&chars, 0, i),
        None => chars,
    };
    let mut best_sep = ';';
    let mut best_count: usize = 0;
    let c1 = count_in(&line, ';');
    if c1 > best_count {
        best_count = c1;
        best_sep = ';';
    }
    let c2 = count_in(&line, ',');
    if c2 > best_count {
        best_count = c2;
        best_sep = ',';
    }
    let c3 = count_in(&line, '\t');
    if c3 > best_count {
        best_count = c3;
        best_sep = '\t';
    }
    let c4 = count_in(&line, '|');
    if c4 > best_count {
        best_count = c4;
        best_sep = '|';
    }
    best_sep
}

/// First index at or after `i` that holds no double quote, or the length.
pub open spec fn skip_quotes(s: Seq<char>, i: int) -> int
    decreases s.len() - i,
{
    if 0 <= i < s.len() && s[i] == '"' {
        skip_quotes(s, i + 1)
    } else {
        i
    }
}

/// Least end `e` in `lo..=j` such that everything in `e..j` is a double quote.
pub open spec fn back_quotes(s: Seq<char>, lo: int, j: int) -> int
    decreases j,
{
    if 0 <= lo < j <= s.len() && s[j - 1] == '"' {
        back_quotes(s, lo, j - 1)
    } else {
        j
    }
}

/// `s` without the double quotes at its start and at its end.
pub open spec fn strip_quotes(s: Seq<char>) -> Seq<char> {
    let a = skip_quotes(s, 0);
    s.subrange(a, back_quotes(s, a, s.len() as int))
}

/// What a piece of a line holds: the piece trimmed, then without the double
/// quotes around it.
pub open spec fn cell(piece: Seq<char>) -> Seq<char> {
    strip_quotes(trim(piece))
}

/// The cells of a line.
pub open spec fn cells(line: Seq<char>, delimiter: char) -> Seq<Seq<char>> {
    let pieces = split(line, seq![delimiter]);
    Seq::new(pieces.len(), |i: int| cell(pieces[i]))
}

/// A line without the carriage return at its end, if it has one.
pub open spec fn strip_cr(line: Seq<char>) -> Seq<char> {
    if line.len() > 0 && line.last() == '\r' {
        line.drop_last()
    } else {
        line
    }
}

/// The lines of a text. A line ends with a line feed, or with a carriage
/// return and a line feed; what follows the last line feed is a line too,
/// unless it is empty.
pub open spec fn lines(content: Seq<char>) -> Seq<Seq<char>> {
    let pieces = split(content, seq!['\n']);
    let ended = Seq::new((pieces.len() - 1) as nat, |i: int| strip_cr(pieces[i]));
    if pieces.last().len() == 0 {
        ended
    } else {
        ended.push(pieces.last())
    }
}

/// The entries of a row for the first `n` headers: under each header the cell
/// at its place, or the empty text where the line is too short. A later
/// header of the same name takes the place of an earlier one.
pub open spec fn row_entries(headers: Seq<Seq<char>>, values: Seq<Seq<char>>, n: int) -> Entries
    decreases n,
{
    if n <= 0 || n > headers.len() {
        Seq::empty()
    } else {
        with_entry(
            row_entries(headers, values, n - 1),
            headers[n - 1],
            Json::String(
                if n - 1 < values.len() {
                    values[n - 1]
                } else {
                    Seq::empty()
                },
            ),
        )
    }
}

/// The rows that the lines from the second up to the `n`-th give; a blank
/// line gives none.
pub open spec fn rows_upto(all: Seq<Seq<char>>, headers: Seq<Seq<char>>, delimiter: char, n: int)
    -> Seq<Json>
    decreases n,
{
    if n <= 1 || n > all.len() {
        Seq::empty()
    } else if is_blank(all[n - 1]) {
        rows_upto(all, headers, delimiter, n - 1)
    } else {
        rows_upto(all, headers, delimiter, n - 1).push(
            Json::Object(
                row_entries(headers, cells(all[n - 1], delimiter), headers.len() as int),
            ),
        )
    }
}

/// The headers of a text: the cells of its first line.
pub open spec fn headers_of(content: Seq<char>, delimiter: char) -> Seq<Seq<char>> {
    cells(lines(content)[0], delimiter)
}

/// The rows of a text.
pub open spec fn rows_of(content: Seq<char>, delimiter: char) -> Seq<Json> {
    rows_upto(
        lines(content),
        headers_of(content, delimiter),
        delimiter,
        lines(content).len() as int,
    )
}

/// The message for a text without a line.
pub const EMPTY_CSV: &'static str = "Empty CSV file";

/// The message for bytes too many to decode.
pub const TOO_LARGE: &'static str = "Encoding error: input too large";

/// `chars` without the double quotes at its start and at its end.
pub fn strip_quotes_chars(v: &Vec<char>) -> (r: Vec<char>)
    ensures
        r@ == strip_quotes(v@),
{
    let n = v.len();
    let mut a: usize = 0;
    while a < n && v[a] == '"'
        invariant
            a <= n,
            n == v.len(),
            skip_quotes(v@, 0) == skip_quotes(v@, a as int),
        decreases n - a,
    {
        a += 1;
    }
    let mut b: usize = n;
    while b > a && v[b - 1] == '"'
        invariant
            a <= b <= n,
            n == v.len(),
            back_quotes(v@, a as int, n as int) == back_quotes(v@, a as int, b as int),
        decreases b,
    {
        b -= 1;
    }
    slice_chars(v, a, b)
}

fn one_char_string(c: char) -> (r: String)
    ensures
        r@ == seq![c],
{
    let mut v: Vec<char> = Vec::new();
    v.push(c);
    assert(v@ =~= seq![c]);
    string_of(&v)
}

/// The cells of a line.
pub fn cells_of(line: &str, delimiter: char) -> (r: Vec<String>)
    ensures
        str_views(r@) == cells(line@, delimiter),
{
    let sep = one_char_string(delimiter);
    let pieces = split_str(line, sep.as_str());
    let mut out: Vec<String> = Vec::new();
    let mut i: usize = 0;
    assert(str_views(pieces@).len() == pieces@.len());
    while i < pieces.len()
        invariant
            i <= pieces.len(),
            str_views(pieces@) == split(line@, seq![delimiter]),
            out@.len() == i,
            forall|j: int| 0 <= j < i ==> out@[j]@ == cell(split(line@, seq![delimiter])[j]),
        decreases pieces.len() - i,
    {
        assert(str_views(pieces@)[i as int] == pieces@[i as int]@);
        let trimmed = trim_chars(&chars_of(pieces[i].as_str()));
        out.push(string_of(&strip_quotes_chars(&trimmed)));
        i += 1;
    }
    assert(str_views(out@) =~= cells(line@, delimiter));
    out
}

/// The lines of a text.
pub fn lines_of(content: &str) -> (r: Vec<String>)
    ensures
        str_views(r@) == lines(content@),
{
    let newline = one_char_string('\n');
    let pieces = split_str(content, newline.as_str());
    proof {
        lemma_split_nonempty(content@, seq!['\n']);
    }
    assert(str_views(pieces@).len() == pieces@.len());
    let n = pieces.len();
    let mut out: Vec<String> = Vec::new();
    let mut i: usize = 0;
    while i + 1 < n
        invariant
            i + 1 <= n,
            n == pieces@.len(),
            str_views(pieces@) == split(content@, seq!['\n']),
            out@.len() == i,
            forall|j: int| 0 <= j < i ==> out@[j]@ == strip_cr(split(content@, seq!['\n'])[j]),
        decreases n - i,
    {
        assert(str_views(pieces@)[i as int] == pieces@[i as int]@);
        let chars = chars_of(pieces[i].as_str());
        let m = chars.len();
        if m > 0 && chars[m - 1] == '\r' {
            let cut = slice_chars(&chars, 0, m - 1);
            assert(cut@ =~= chars@.drop_last());
            out.push(string_of(&cut));
        } else {
            out.push(pieces[i].clone());
        }
        i += 1;
    }
    assert(str_views(pieces@)[n - 1] == pieces@[n - 1]@);
    if pieces[n - 1].as_str().unicode_len() > 0 {
        out.push(pieces[n - 1].clone());
    }
    assert(str_views(out@) =~= lines(content@));
    out
}

/// One row: under each header the cell at its place.
pub fn row_of(headers: &Vec<String>, values: &Vec<String>) -> (r: Value)
    ensures
        r@ == Json::Object(
            row_entries(str_views(headers@), str_views(values@), headers@.len() as int),
        ),
{
    let mut obj: Vec<Entry> = Vec::new();
    let mut i: usize = 0;
    assert(entries_view(obj@) =~= Seq::empty());
    while i < headers.len()
        invariant
            i <= headers.len(),
            entries_view(obj@) == row_entries(str_views(headers@), str_views(values@), i as int),
        decreases headers.len() - i,
    {
        assert(str_views(headers@)[i as int] == headers@[i as int]@);
        let raw = if i < values.len() {
            assert(str_views(values@)[i as int] == values@[i as int]@);
            values[i].clone()
        } else {
            String::new()
        };
        set_entry(&mut obj, headers[i].clone(), Value::String(raw));
        i += 1;
    }
    proof {
        lemma_view_object(obj);
    }
    Value::Object(obj)
}

/// Parse delimited text: the first line names the columns, every other line
/// that is not blank gives one row. A text without a line is refused.
pub fn parse_string_with_metadata(content: &str, delimiter: char, encoding: String) -> (r: Result<
    ParseResult,
    CsvError,
>)
    ensures
        match r {
            Ok(parsed) => {
                &&& lines(content@).len() > 0
                &&& str_views(parsed.headers@) == headers_of(content@, delimiter)
                &&& values_view(parsed.records@) == rows_of(content@, delimiter)
                &&& parsed.delimiter == delimiter
                &&& parsed.encoding@ == encoding@
            },
            Err(e) => {
                &&& lines(content@).len() == 0
                &&& e.line == 1
                &&& e.message@ == EMPTY_CSV@
                &&& e.column.is_none()
                &&& e.value.is_none()
            },
        },
{
    let all = lines_of(content);
    if all.len() == 0 {
        return Err(CsvError::new(1, EMPTY_CSV));
    }
    assert(str_views(all@)[0] == all@[0]@);
    let headers = cells_of(all[0].as_str(), delimiter);
    let ghost ls = lines(content@);
    let ghost hs = headers_of(content@, delimiter);
    let mut records: Vec<Value> = Vec::new();
    let mut i: usize = 1;
    assert(values_view(records@) =~= rows_upto(ls, hs, delimiter, 1));
    while i < all.len()
        invariant
            1 <= i <= all.len(),
            ls == str_views(all@),
            hs == str_views(headers@),
            values_view(records@) == rows_upto(ls, hs, delimiter, i as int),
        decreases all.len() - i,
    {
        assert(ls[i as int] == all@[i as int]@);
        if !is_blank_str(all[i].as_str()) {
            let values = cells_of(all[i].as_str(), delimiter);
            let ghost before = values_view(records@);
            let record = row_of(&headers, &values);
            records.push(record);
            assert(values_view(records@) =~= before.push(record@));
        }
        i += 1;
    }
    Ok(ParseResult { records, encoding, delimiter, headers })
}

/// Parse delimited text into rows.
pub fn csv_to_json(csv: &str, delimiter: char) -> (r: Result<Vec<Value>, CsvError>)
    ensures
        match r {
            Ok(rows) => lines(csv@).len() > 0 && values_view(rows@) == rows_of(csv@, delimiter),
            Err(e) => lines(csv@).len() == 0 && e.line == 1 && e.message@ == EMPTY_CSV@
                && e.column.is_none() && e.value.is_none(),
        },
{
    match parse_string_with_metadata(csv, delimiter, String::new()) {
        Ok(parsed) => Ok(parsed.records),
        Err(e) => Err(e),
    }
}

/// The name of the character set that `chardet` detects in the bytes.
pub uninterp spec fn detected_charset(bytes: Seq<u8>) -> Seq<char>;

/// The byte that opens an escape sequence.
pub const ESCAPE: u8 = 0x1B;

/// The encoding that bytes with an escape in them are taken to be in.
pub const ESCAPED_ENCODING: &'static str = "utf-8";

/// Some byte is the escape byte.
pub open spec fn has_escape(bytes: Seq<u8>) -> bool {
    exists|i: int| 0 <= i < bytes.len() && #[trigger] bytes[i] == ESCAPE
}

/// The text that the bytes are as UTF-8, with the replacement character in
/// place of what is no UTF-8, as `String::from_utf8_lossy` decodes.
pub uninterp spec fn utf8_lossy(bytes: Seq<u8>) -> Seq<char>;

/// The text that `encoding_rs` decodes the bytes to when told that they are
/// ISO 8859-15: by the encoding that a byte-order mark at their start
/// names, and by the table of ISO 8859-15 where they start with none.
pub uninterp spec fn decoded_latin9(bytes: Seq<u8>) -> Seq<char>;

/// The text that `encoding_rs` decodes the bytes to when told that they are
/// Windows-1252: by the encoding that a byte-order mark at their start
/// names, and by the table of Windows-1252 where they start with none.
pub uninterp spec fn decoded_windows_1252(bytes: Seq<u8>) -> Seq<char>;

/// `chardet::detect`: the first part of its answer, the name of the character
/// set. The contract only names the outcome. Bytes with an escape byte among
/// them are kept out: on an escape sequence that it does not know, the
/// detector stops the program.
#[verifier::external_body]
pub(crate) fn chardet_charset(bytes: &[u8]) -> (r: String)
    requires
        !has_escape(bytes@),
    ensures
        r@ == detected_charset(bytes@),
{
    chardet::detect(bytes).0
}

/// Whether some byte is the escape byte.
pub fn contains_escape(bytes: &[u8]) -> (r: bool)
    ensures
        r == has_escape(bytes@),
{
    let mut i: usize = 0;
    while i < bytes.len()
        invariant
            i <= bytes@.len(),
            forall|j: int| 0 <= j < i ==> bytes@[j] != ESCAPE,
        decreases bytes@.len() - i,
    {
        if bytes[i] == ESCAPE {
            return true;
        }
        i += 1;
    }
    false
}

/// `String::from_utf8_lossy`. The contract only names the outcome.
#[verifier::external_body]
pub(crate) fn decode_utf8_lossy(bytes: &[u8]) -> (r: String)
    ensures
        r@ == utf8_lossy(bytes@),
{
    String::from_utf8_lossy(bytes).to_string()
}

/// `encoding_rs::ISO_8859_15.decode`: the text it gives, after it has looked
/// for a byte-order mark. The contract only names the outcome. The bound keeps the size of the buffer that the
/// decoder asks for within what a size can be.
#[verifier::external_body]
pub(crate) fn decode_latin9(bytes: &[u8]) -> (r: String)
    requires
        bytes@.len() <= usize::MAX / 8,
    ensures
        r@ == decoded_latin9(bytes@),
{
    encoding_rs::ISO_8859_15.decode(bytes).0.to_string()
}

/// `encoding_rs::WINDOWS_1252.decode`: the text it gives, after it has looked
/// for a byte-order mark. The contract only names the outcome. The bound keeps the size of the buffer that the
/// decoder asks for within what a size can be.
#[verifier::external_body]
pub(crate) fn decode_windows_1252(bytes: &[u8]) -> (r: String)
    requires
        bytes@.len() <= usize::MAX / 8,
    ensures
        r@ == decoded_windows_1252(bytes@),
{
    encoding_rs::WINDOWS_1252.decode(bytes).0.to_string()
}

/// The name under which an encoding goes here: one name for the UTF-8
/// family, one for the Latin family, one for Windows-1252; any other name
/// as it is.
pub open spec fn normalized_charset(charset: Seq<char>) -> Seq<char> {
    let low = str_to_lowercase(charset);
    if low == "ascii"@ || low == "utf-8"@ || low == "utf8"@ {
        "utf-8"@
    } else if low == "iso-8859-1"@ || low == "iso-8859-15"@ || low == "latin-1"@ || low
        == "latin1"@ {
        "iso-8859-1"@
    } else if low == "windows-1252"@ || low == "cp1252"@ {
        "windows-1252"@
    } else {
        charset
    }
}

/// The name under which a detected character set goes here.
pub fn normalize_charset(charset: String) -> (r: String)
    ensures
        r@ == normalized_charset(charset@),
{
    let lowered = charset.as_str().to_lowercase();
    let low = lowered.as_str();
    if str_eq(low, "ascii") || str_eq(low, "utf-8") || str_eq(low, "utf8") {
        "utf-8".to_string()
    } else if str_eq(low, "iso-8859-1") || str_eq(low, "iso-8859-15") || str_eq(low, "latin-1")
        || str_eq(low, "latin1") {
        "iso-8859-1".to_string()
    } else if str_eq(low, "windows-1252") || str_eq(low, "cp1252") {
        "windows-1252".to_string()
    } else {
        charset
    }
}

/// The encoding that bytes are taken to be in: what the detector finds in
/// them, under the name it goes by here; UTF-8 for bytes with an escape byte
/// among them, which the detector is not asked about.
pub open spec fn encoding_of(bytes: Seq<u8>) -> Seq<char> {
    if has_escape(bytes) {
        ESCAPED_ENCODING@
    } else {
        normalized_charset(detected_charset(bytes))
    }
}

/// Detect the encoding of raw bytes. Bytes with an escape byte among them are
/// taken to be UTF-8 without further ado.
pub fn detect_encoding(bytes: &[u8]) -> (r: String)
    ensures
        r@ == encoding_of(bytes@),
{
    if contains_escape(bytes) {
        ESCAPED_ENCODING.to_string()
    } else {
        normalize_charset(chardet_charset(bytes))
    }
}

/// What the bytes are as text in an encoding: for the Latin family and for
/// Windows-1252 what `encoding_rs` decodes them to, anything else as UTF-8
/// with replacement.
pub open spec fn decoded(bytes: Seq<u8>, encoding: Seq<char>) -> Seq<char> {
    let low = str_to_lowercase(encoding);
    if low == "iso-8859-1"@ || low == "latin-1"@ || low == "latin1"@ {
        decoded_latin9(bytes)
    } else if low == "windows-1252"@ || low == "cp1252"@ {
        decoded_windows_1252(bytes)
    } else {
        utf8_lossy(bytes)
    }
}

/// Text out of bytes, in the given encoding.
pub fn decode_with(bytes: &[u8], encoding: &str) -> (r: String)
    requires
        bytes@.len() <= usize::MAX / 8,
    ensures
        r@ == decoded(bytes@, encoding@),
{
    let lowered = encoding.to_lowercase();
    let low = lowered.as_str();
    if str_eq(low, "iso-8859-1") || str_eq(low, "latin-1") || str_eq(low, "latin1") {
        decode_latin9(bytes)
    } else if str_eq(low, "windows-1252") || str_eq(low, "cp1252") {
        decode_windows_1252(bytes)
    } else {
        decode_utf8_lossy(bytes)
    }
}

/// Decode bytes to text in the given encoding. Bytes too many for a decoder
/// to hold their text are refused.
pub fn decode_content(bytes: &[u8], encoding: &str) -> (r: Result<String, CsvError>)
    ensures
        match r {
            Ok(text) => bytes@.len() <= usize::MAX / 8 && text@ == decoded(bytes@, encoding@),
            Err(e) => bytes@.len() > usize::MAX / 8 && e.line == 0 && e.message@ == TOO_LARGE@
                && e.column.is_none() && e.value.is_none(),
        },
{
    if bytes.len() > usize::MAX / 8 {
        return Err(CsvError::new(0, TOO_LARGE));
    }
    Ok(decode_with(bytes, encoding))
}

/// Parse bytes: detect their encoding, decode them, detect the delimiter,
/// and parse the text.
pub fn parse_bytes_auto(bytes: &[u8]) -> (r: Result<ParseResult, CsvError>)
    ensures
        match r {
            Ok(parsed) => {
                let encoding = encoding_of(bytes@);
                let content = decoded(bytes@, encoding);
                let delimiter = detected_delimiter(content);
                &&& bytes@.len() <= usize::MAX / 8
                &&& lines(content).len() > 0
                &&& parsed.encoding@ == encoding
                &&& parsed.delimiter == delimiter
                &&& str_views(parsed.headers@) == headers_of(content, delimiter)
                &&& values_view(parsed.records@) == rows_of(content, delimiter)
            },
            Err(e) => {
                let encoding = encoding_of(bytes@);
                &&& e.column.is_none()
                &&& e.value.is_none()
                &&& if bytes@.len() > usize::MAX / 8 {
                    e.line == 0 && e.message@ == TOO_LARGE@
                } else {
                    lines(decoded(bytes@, encoding)).len() == 0 && e.line == 1 && e.message@
                        == EMPTY_CSV@
                }
            },
        },
{
    let encoding = detect_encoding(bytes);
    let content = match decode_content(bytes, encoding.as_str()) {
        Ok(c) => c,
        Err(e) => {
            return Err(e);
        },
    };
    let delimiter = detect_delimiter(content.as_str());
    parse_string_with_metadata(content.as_str(), delimiter, encoding)
}

} // verus!
