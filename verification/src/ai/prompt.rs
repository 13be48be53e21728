//! The prompts that a generator of matrices is given.

use vstd::prelude::*;
use crate::number::{decimal, u64_to_string};
use crate::text::{
    concat_strs, str_views, str_to_lowercase, find, find_chars, chars_of, string_of, join,
    join_strs, text_less, str_less, str_eq, lemma_str_views_push, append_chars,
};
use crate::transform::grouper::{object2, obj2};
use crate::value::{Value, Json, Entries, entries_view, values_view};

verus! {

/// What the system prompt says before the schema of the matrix.
pub const SYSTEM_PROMPT_HEAD: &'static str = r#"You are a data transformation expert. Your task is to analyze CSV data and generate a transformation matrix that converts raw CSV columns into standardized MIDDS (Music Industry Data Description Standard) format.

## Your Mission

Given:
1. A preview of CSV data (as JSON objects)
2. The MIDDS flat schema (target format)
3. The transformation matrix JSON schema (your output format)

You must return a valid JSON transformation matrix that maps CSV columns to MIDDS fields.

## CRITICAL: Output Format

You MUST return ONLY valid JSON matching this schema EXACTLY:

```json
"#;

/// What the system prompt says after the schema of the matrix.
pub const SYSTEM_PROMPT_TAIL: &'static str = r#"
```

## MIDDS Field Requirements

### Required fields (must be mapped):
- `iswc`: International Standard Musical Work Code. Format: T + 10 digits (e.g., "T1234567890")
- `title`: Title of the work (string, max 256 chars)
- `creatorIpi`: IPI code (integer, 9-11 digits)
- `creatorRole`: Must be one of: "Author", "Composer", "Arranger", "Adapter", "Publisher"

### Optional fields:
- `creationYear`: 4-digit year (integer)
- `instrumental`: boolean
- `language`: Must be one of: "English", "French", "Spanish", "German", "Italian", "Portuguese", "Russian", "Chinese", "Japanese", "Korean", "Arabic", "Hindi", "Dutch", "Swedish", "Norwegian", "Finnish", "Polish", "Turkish", "Hebrew", "Greek", "Latin", "Esperanto"
- `bpm`: beats per minute (integer)
- `key`: Musical key (e.g., "Am", "C", "Fs", "Bb", "Dm", etc.)
- `workType`: Type of work - MUST be "Original" or null. Map any column containing work type info.
- `creatorIsni`: 16-character ISNI code (format: 16 digits/X)
- `opus`, `catalogNumber`, `numberOfVoices`: For classical works

## Work Type Mapping

If the CSV has a column for work type (e.g., "Work Type", "Type", "Type d'oeuvre"), map it to `workType`:
- "Original", "Orig", "O", "original" → "Original"
- "Medley", "Mashup", "Adaptation", or any other value → null (not supported in flat format)
- Empty or missing → null

## Role Code Mapping

Common role codes to map:
- CA, C+A → Both Composer and Author (map to "Composer" for now)
- C, Comp, Komponist → "Composer"  
- A, Autor, Textdichter, Lyricist → "Author"
- AR, Arr, Arrangeur → "Arranger"
- AD, Adapt → "Adapter"
- E, Ed, Pub, Publisher, Verlag, Editeur → "Publisher"

## Rules

1. Use ONLY operations defined in the schema: trim, uppercase, lowercase, replace, pad_start, pad_end, extract_year, ensure_prefix, ensure_suffix, map, split, to_boolean, to_number, substring, alphanumeric, digits_only
2. Do NOT invent new operations
3. Use exact CSV column names from the preview (case-sensitive)
4. Always use `trim` for text fields
5. Always use `to_number` for IPI codes
6. Use `map` operation for role codes, language translations, and workType
7. For ISWC: remove punctuation with `replace`, ensure "T" prefix with `ensure_prefix`
8. For workType: use `map` to convert CSV values to "Original" (only valid value) or omit invalid types
9. MAP ALL COLUMNS that correspond to MIDDS fields - do not skip any mappable columns!
10. Return ONLY the JSON object, no explanations or markdown"#;

/// The system prompt for the generation of a matrix: the task, the schema
/// that the answer has to follow, and the rules.
pub fn system_prompt(matrix_schema: &str) -> (r: String)
    ensures
        r@ == SYSTEM_PROMPT_HEAD@ + matrix_schema@ + SYSTEM_PROMPT_TAIL@,
{
    let head = concat_strs(SYSTEM_PROMPT_HEAD, matrix_schema);
    concat_strs(head.as_str(), SYSTEM_PROMPT_TAIL)
}

/// The user prompt opens with the heading of the preview.
pub const USER_PROMPT_OPENING: &'static str = r#"## CSV Data Preview ("#;

/// Between the number of preview rows and the number of all rows.
pub const USER_PROMPT_SHOWN: &'static str = r#" rows shown, "#;

/// From the number of all rows to the preview.
pub const USER_PROMPT_PREVIEW: &'static str = r#" total)

```json
"#;

/// From the preview to the heading of the unique values.
pub const USER_PROMPT_VALUES: &'static str = r#"
```

## ALL Unique Values per Column (from "#;

/// From the heading of the unique values to the values.
pub const USER_PROMPT_VALUES_END: &'static str = r#" rows - IMPORTANT for mapping)

"#;

/// From the unique values to the target schema.
pub const USER_PROMPT_SCHEMA: &'static str = r#"

## Target MIDDS Flat Schema

```json
"#;

/// From the target schema to the end: the task.
pub const USER_PROMPT_TASK: &'static str = r#"
```

## Task

Analyze the CSV columns and generate a transformation matrix.
Map ALL unique values you see above (especially for Role column - map ALL role codes!).

Return ONLY the JSON object matching the transformation matrix schema. No explanations."#;

/// The text of the user prompt: the preview, the unique values of every
/// column, the target schema and the task.
pub open spec fn user_prompt_text(
    preview_json: Seq<char>,
    preview_count: nat,
    total_count: nat,
    unique_values: Seq<char>,
    schema_json: Seq<char>,
) -> Seq<char> {
    USER_PROMPT_OPENING@ + decimal(preview_count as int) + USER_PROMPT_SHOWN@ + decimal(total_count as int) + USER_PROMPT_PREVIEW@ + preview_json + USER_PROMPT_VALUES@ + decimal(total_count as int) + USER_PROMPT_VALUES_END@ + unique_values + USER_PROMPT_SCHEMA@ + schema_json + USER_PROMPT_TASK@
}

/// Where the first of two texts with a common start has to stand among the
/// texts of a sorted list: before the first that does not come before it.
pub open spec fn sorted_slot(list: Seq<Seq<char>>, x: Seq<char>, i: int) -> int
    decreases list.len() - i,
{
    if i < 0 || i >= list.len() {
        list.len() as int
    } else if text_less(list[i], x) {
        sorted_slot(list, x, i + 1)
    } else {
        i
    }
}

/// A sorted list with one more text at its place, unless the list holds it.
pub open spec fn with_text(list: Seq<Seq<char>>, x: Seq<char>) -> Seq<Seq<char>> {
    let p = sorted_slot(list, x, 0);
    if p < list.len() && list[p] == x {
        list
    } else {
        list.insert(p, x)
    }
}

/// The first `n` texts, each once, in the order of the dictionary.
pub open spec fn sorted_set(texts: Seq<Seq<char>>, n: int) -> Seq<Seq<char>>
    decreases n,
{
    if n <= 0 || n > texts.len() {
        Seq::empty()
    } else {
        with_text(sorted_set(texts, n - 1), texts[n - 1])
    }
}

/// The keys of the first `n` entries.
pub open spec fn keys_upto(fields: Entries, n: int) -> Seq<Seq<char>>
    decreases n,
{
    if n <= 0 || n > fields.len() {
        Seq::empty()
    } else {
        keys_upto(fields, n - 1).push(fields[n - 1].0)
    }
}

/// The column names of the first `n` rows, in order, with repeats. What is
/// no object has no columns.
pub open spec fn columns_upto(rows: Seq<Json>, n: int) -> Seq<Seq<char>>
    decreases n,
{
    if n <= 0 || n > rows.len() {
        Seq::empty()
    } else {
        columns_upto(rows, n - 1) + (match rows[n - 1] {
            Json::Object(fields) => keys_upto(fields, fields.len() as int),
            _ => Seq::empty(),
        })
    }
}

/// The texts that the first `n` entries hold under `column`.
pub open spec fn texts_in(fields: Entries, column: Seq<char>, n: int) -> Seq<Seq<char>>
    decreases n,
{
    if n <= 0 || n > fields.len() {
        Seq::empty()
    } else {
        match fields[n - 1].1 {
            Json::String(s) => if fields[n - 1].0 == column {
                texts_in(fields, column, n - 1).push(s)
            } else {
                texts_in(fields, column, n - 1)
            },
            _ => texts_in(fields, column, n - 1),
        }
    }
}

/// The texts that the first `n` rows hold under `column`, in order, with repeats.
pub open spec fn column_texts(rows: Seq<Json>, column: Seq<char>, n: int) -> Seq<Seq<char>>
    decreases n,
{
    if n <= 0 || n > rows.len() {
        Seq::empty()
    } else {
        column_texts(rows, column, n - 1) + (match rows[n - 1] {
            Json::Object(fields) => texts_in(fields, column, fields.len() as int),
            _ => Seq::empty(),
        })
    }
}

/// The words in a column name that mark a column whose values all matter.
pub open spec fn mapping_words() -> Seq<Seq<char>> {
    seq!["role"@, "genre"@, "type"@, "instrumental"@, "language"@, "soci\u{e9}t\u{e9}"@]
}

/// Whether the name of a column, in lowercase, holds one of the marking words.
pub open spec fn is_mapping_column(column: Seq<char>) -> bool {
    exists|i: int|
        0 <= i < mapping_words().len() && find(
            str_to_lowercase(column),
            #[trigger] mapping_words()[i],
        ) is Some
}

/// How the values of a column are shown: all of them for a marked column or
/// one with at most thirty values, with their number where there are more
/// than fifty; else the first fifteen and their number.
pub open spec fn shown_values(column: Seq<char>, values: Seq<Seq<char>>) -> Seq<char> {
    let comma = ", "@;
    if is_mapping_column(column) || values.len() <= 30 {
        if values.len() > 50 {
            join(values, comma) + " ("@ + decimal(values.len() as int) + " unique values)"@
        } else {
            join(values, comma)
        }
    } else {
        join(values.subrange(0, 15), comma) + ", ... ("@ + decimal(values.len() as int)
            + " unique - high cardinality, sample shown)"@
    }
}

/// The line of a column.
pub open spec fn column_line(column: Seq<char>, values: Seq<Seq<char>>) -> Seq<char> {
    "- **"@ + column + "**: "@ + shown_values(column, values) + "\n"@
}

/// The lines of the first `n` columns.
pub open spec fn column_lines(rows: Seq<Json>, columns: Seq<Seq<char>>, n: int) -> Seq<char>
    decreases n,
{
    if n <= 0 || n > columns.len() {
        Seq::empty()
    } else {
        let texts = column_texts(rows, columns[n - 1], rows.len() as int);
        column_lines(rows, columns, n - 1) + column_line(
            columns[n - 1],
            sorted_set(texts, texts.len() as int),
        )
    }
}

/// The unique values of every column: one line per column, the columns in
/// the order of the dictionary, and so the values of each.
pub open spec fn unique_values_text(rows: Seq<Json>) -> Seq<char> {
    let names = columns_upto(rows, rows.len() as int);
    let columns = sorted_set(names, names.len() as int);
    column_lines(rows, columns, columns.len() as int)
}

/// Puts a text at its place in a sorted list, unless the list holds it.
pub fn insert_text(list: &mut Vec<String>, x: String)
    ensures
        str_views(final(list)@) == with_text(str_views(old(list)@), x@),
{
    let ghost before = str_views(list@);
    let mut p: usize = 0;
    while p < list.len() && str_less(list[p].as_str(), x.as_str())
        invariant
            p <= list.len(),
            before == str_views(list@),
            sorted_slot(before, x@, 0) == sorted_slot(before, x@, p as int),
        decreases list.len() - p,
    {
        assert(before[p as int] == list@[p as int]@);
        p += 1;
    }
    if p < list.len() {
        assert(before[p as int] == list@[p as int]@);
    }
    if p < list.len() && str_eq(list[p].as_str(), x.as_str()) {
        return ;
    }
    list.insert(p, x);
    assert(str_views(list@) =~= before.insert(p as int, x@));
}

/// The texts, each once, in the order of the dictionary.
pub fn sorted_texts(texts: &Vec<String>) -> (r: Vec<String>)
    ensures
        str_views(r@) == sorted_set(str_views(texts@), texts@.len() as int),
{
    let mut out: Vec<String> = Vec::new();
    let mut i: usize = 0;
    assert(str_views(out@) =~= Seq::<Seq<char>>::empty());
    while i < texts.len()
        invariant
            i <= texts.len(),
            str_views(out@) == sorted_set(str_views(texts@), i as int),
        decreases texts.len() - i,
    {
        assert(str_views(texts@)[i as int] == texts@[i as int]@);
        insert_text(&mut out, texts[i].clone());
        i += 1;
    }
    out
}

/// The column names of the rows, in order, with repeats.
pub fn column_names(rows: &Vec<Value>) -> (r: Vec<String>)
    ensures
        str_views(r@) == columns_upto(values_view(rows@), rows@.len() as int),
{
    let ghost js = values_view(rows@);
    let mut out: Vec<String> = Vec::new();
    let mut i: usize = 0;
    assert(str_views(out@) =~= Seq::<Seq<char>>::empty());
    while i < rows.len()
        invariant
            i <= rows.len(),
            js == values_view(rows@),
            str_views(out@) == columns_upto(js, i as int),
        decreases rows.len() - i,
    {
        assert(js[i as int] == rows@[i as int]@);
        let ghost head = str_views(out@);
        match rows[i].as_object() {
            Some(fields) => {
                let ghost es = entries_view(fields@);
                let mut k: usize = 0;
                assert(str_views(out@) =~= head + keys_upto(es, 0));
                while k < fields.len()
                    invariant
                        k <= fields.len(),
                        es == entries_view(fields@),
                        str_views(out@) == head + keys_upto(es, k as int),
                    decreases fields.len() - k,
                {
                    assert(es[k as int].0 == fields@[k as int].key@);
                    let key = fields[k].key.clone();
                    proof {
                        lemma_str_views_push(out@, key);
                    }
                    out.push(key);
                    k += 1;
                    assert(str_views(out@) =~= head + keys_upto(es, k as int));
                }
            },
            None => {
                assert(head + Seq::<Seq<char>>::empty() =~= head);
            },
        }
        i += 1;
    }
    out
}

/// The texts that the rows hold under a column, in order, with repeats.
pub fn texts_of_column(rows: &Vec<Value>, column: &str) -> (r: Vec<String>)
    ensures
        str_views(r@) == column_texts(values_view(rows@), column@, rows@.len() as int),
{
    let ghost js = values_view(rows@);
    let mut out: Vec<String> = Vec::new();
    let mut i: usize = 0;
    assert(str_views(out@) =~= Seq::<Seq<char>>::empty());
    while i < rows.len()
        invariant
            i <= rows.len(),
            js == values_view(rows@),
            str_views(out@) == column_texts(js, column@, i as int),
        decreases rows.len() - i,
    {
        assert(js[i as int] == rows@[i as int]@);
        let ghost head = str_views(out@);
        match rows[i].as_object() {
            Some(fields) => {
                let ghost es = entries_view(fields@);
                let mut k: usize = 0;
                assert(str_views(out@) =~= head + texts_in(es, column@, 0));
                while k < fields.len()
                    invariant
                        k <= fields.len(),
                        es == entries_view(fields@),
                        str_views(out@) == head + texts_in(es, column@, k as int),
                    decreases fields.len() - k,
                {
                    assert(es[k as int] == (fields@[k as int].key@, fields@[k as int].value@));
                    match fields[k].value.as_str() {
                        Some(s) => {
                            if str_eq(fields[k].key.as_str(), column) {
                                let copy = s.to_string();
                                proof {
                                    lemma_str_views_push(out@, copy);
                                }
                                out.push(copy);
                            }
                        },
                        None => {},
                    }
                    k += 1;
                    assert(str_views(out@) =~= head + texts_in(es, column@, k as int));
                }
            },
            None => {
                assert(head + Seq::<Seq<char>>::empty() =~= head);
            },
        }
        i += 1;
    }
    out
}

/// Whether the name of a column holds one of the marking words.
pub fn marks_mapping_column(column: &str) -> (r: bool)
    ensures
        r == is_mapping_column(column@),
{
    let low = chars_of(column.to_lowercase().as_str());
    let mut words: Vec<&str> = Vec::new();
    words.push("role");
    words.push("genre");
    words.push("type");
    words.push("instrumental");
    words.push("language");
    words.push("soci\u{e9}t\u{e9}");
    let mut i: usize = 0;
    while i < words.len()
        invariant
            i <= words.len(),
            words@.len() == 6,
            low@ == str_to_lowercase(column@),
            forall|j: int| 0 <= j < 6 ==> (#[trigger] words@[j])@ == mapping_words()[j],
            forall|j: int|
                0 <= j < i ==> find(str_to_lowercase(column@), #[trigger] mapping_words()[j])
                    is None,
        decreases words.len() - i,
    {
        let word = chars_of(words[i]);
        match find_chars(&low, &word, 0) {
            Some(_) => {
                assert(find(str_to_lowercase(column@), mapping_words()[i as int]) is Some);
                return true;
            },
            None => {},
        }
        i += 1;
    }
    false
}

/// How the values of a column are shown.
pub fn show_values(column: &str, values: &Vec<String>) -> (r: String)
    ensures
        r@ == shown_values(column@, str_views(values@)),
{
    let n = values.len();
    if marks_mapping_column(column) || n <= 30 {
        let all = join_strs(values, ", ");
        if n > 50 {
            let a = concat_strs(all.as_str(), " (");
            let b = concat_strs(a.as_str(), u64_to_string(n as u64).as_str());
            concat_strs(b.as_str(), " unique values)")
        } else {
            all
        }
    } else {
        let mut sample: Vec<String> = Vec::new();
        let mut i: usize = 0;
        while i < 15
            invariant
                i <= 15,
                n > 30,
                n == values@.len(),
                sample@.len() == i,
                forall|j: int| 0 <= j < i ==> sample@[j]@ == values@[j]@,
            decreases 15 - i,
        {
            sample.push(values[i].clone());
            i += 1;
        }
        assert(str_views(sample@) =~= str_views(values@).subrange(0, 15));
        let shown = join_strs(&sample, ", ");
        let a = concat_strs(shown.as_str(), ", ... (");
        let b = concat_strs(a.as_str(), u64_to_string(n as u64).as_str());
        concat_strs(b.as_str(), " unique - high cardinality, sample shown)")
    }
}

/// The unique values of every column, one line per column.
pub fn extract_unique_values(rows: &Vec<Value>) -> (r: String)
    ensures
        r@ == unique_values_text(values_view(rows@)),
{
    let names = column_names(rows);
    let columns = sorted_texts(&names);
    let ghost js = values_view(rows@);
    let ghost cols = str_views(columns@);
    let mut out: Vec<char> = Vec::new();
    let mut i: usize = 0;
    assert(out@ =~= column_lines(js, cols, 0));
    while i < columns.len()
        invariant
            i <= columns.len(),
            js == values_view(rows@),
            cols == str_views(columns@),
            out@ == column_lines(js, cols, i as int),
        decreases columns.len() - i,
    {
        assert(cols[i as int] == columns@[i as int]@);
        let col = columns[i].as_str();
        let texts = texts_of_column(rows, col);
        let values = sorted_texts(&texts);
        let display = show_values(col, &values);
        let a = concat_strs("- **", col);
        let b = concat_strs(a.as_str(), "**: ");
        let c = concat_strs(b.as_str(), display.as_str());
        let line = concat_strs(c.as_str(), "\n");
        append_chars(&mut out, &chars_of(line.as_str()));
        i += 1;
    }
    string_of(&out)
}

/// The user prompt: the preview rows as JSON text, the unique values of every
/// column of all rows, and the target schema as JSON text.
pub fn user_prompt_with_all_data(
    preview_json: &str,
    preview_count: usize,
    all_records: &Vec<Value>,
    schema_json: &str,
) -> (r: String)
    ensures
        r@ == user_prompt_text(
            preview_json@,
            preview_count as nat,
            all_records@.len(),
            unique_values_text(values_view(all_records@)),
            schema_json@,
        ),
{
    let unique_values = extract_unique_values(all_records);
    let preview_count_text = u64_to_string(preview_count as u64);
    let total_count_text = u64_to_string(all_records.len() as u64);
    let mut out: Vec<char> = Vec::new();
    append_chars(&mut out, &chars_of(USER_PROMPT_OPENING));
    append_chars(&mut out, &chars_of(preview_count_text.as_str()));
    append_chars(&mut out, &chars_of(USER_PROMPT_SHOWN));
    append_chars(&mut out, &chars_of(total_count_text.as_str()));
    append_chars(&mut out, &chars_of(USER_PROMPT_PREVIEW));
    append_chars(&mut out, &chars_of(preview_json));
    append_chars(&mut out, &chars_of(USER_PROMPT_VALUES));
    append_chars(&mut out, &chars_of(total_count_text.as_str()));
    append_chars(&mut out, &chars_of(USER_PROMPT_VALUES_END));
    append_chars(&mut out, &chars_of(unique_values.as_str()));
    append_chars(&mut out, &chars_of(USER_PROMPT_SCHEMA));
    append_chars(&mut out, &chars_of(schema_json));
    append_chars(&mut out, &chars_of(USER_PROMPT_TASK));
    assert(out@ =~= user_prompt_text(
        preview_json@,
        preview_count as nat,
        all_records@.len(),
        unique_values@,
        schema_json@,
    ));
    string_of(&out)
}

/// The messages of a request: the user prompt as the one message of the user.
pub fn build_messages_with_all_data(
    preview_json: &str,
    preview_count: usize,
    all_records: &Vec<Value>,
    schema_json: &str,
) -> (r: Vec<Value>)
    ensures
        r@.len() == 1,
        r@[0]@ == obj2(
            "role"@,
            Json::String("user"@),
            "content"@,
            Json::String(
                user_prompt_text(
                    preview_json@,
                    preview_count as nat,
                    all_records@.len(),
                    unique_values_text(values_view(all_records@)),
                    schema_json@,
                ),
            ),
        ),
{
    let prompt = user_prompt_with_all_data(preview_json, preview_count, all_records, schema_json);
    let mut out: Vec<Value> = Vec::new();
    out.push(object2("role", Value::text("user"), "content", Value::String(prompt)));
    out
}

} // verus!
