//! Updates of the gateway's TOML configuration.
//!
//! A configuration is edited as a `toml_edit` document, which keeps comments and
//! the notation of what is not changed.

use crate::outcome::shown;
use crate::text;
use crate::text::{cat2, cat3};
use toml_edit::{DocumentMut, Item};
use vstd::prelude::*;

verus! {

// ---------------------------------------------------------------------------
// Documents
// ---------------------------------------------------------------------------

/// What stands under a key of a TOML table: a table, an array of tables, or a
/// value in its notation. An inline table that is spelled out by dotted keys has no
/// notation of its own: the empty text stands for it.
pub enum TomlNode {
    Table(Map<Seq<char>, TomlNode>),
    Tables,
    Value(Seq<char>),
}

/// The entries of a TOML table.
pub type Entries = Map<Seq<char>, TomlNode>;

/// What is remarked in a document: at a path of keys, the comments and blanks that
/// belong to what is there.
pub type Remarks = Map<Seq<Seq<char>>, Seq<Seq<char>>>;

/// `toml_edit::Table`, of which only the entries and the remarks are known.
#[verifier::external_type_specification]
#[verifier::external_body]
pub struct ExTable(toml_edit::Table);

/// `toml_edit::DocumentMut`, of which only the entries, the remarks and the text are
/// known.
#[verifier::external_type_specification]
#[verifier::external_body]
pub struct ExDocument(toml_edit::DocumentMut);

/// `toml_edit::Item`, of which only what it stands for is known.
#[verifier::external_type_specification]
#[verifier::external_body]
pub struct ExItem(toml_edit::Item);

/// The entries of a table that are present.
pub uninterp spec fn table_entries(table: toml_edit::Table) -> Map<Seq<char>, TomlNode>;

/// The entries of a document's root, where that is a table.
pub uninterp spec fn document_entries(document: DocumentMut) -> Option<Map<Seq<char>, TomlNode>>;

/// The remarks in a table, by the paths of the entries that are present: what stands
/// before the key of a value and after the value, and what stands before the header of
/// a table and after it, where the table has a header of its own. The path of the table
/// itself is empty. Those in an array of tables are all found at the array. Only what is
/// set explicitly counts, in order, and without carriage returns.
pub uninterp spec fn table_remarks(table: toml_edit::Table) -> Map<Seq<Seq<char>>, Seq<Seq<char>>>;

/// The remarks in a document: those in its root, and at the empty path what stands at
/// its end.
pub uninterp spec fn document_remarks(document: DocumentMut) -> Map<
    Seq<Seq<char>>,
    Seq<Seq<char>>,
>;

/// The text of a document.
pub uninterp spec fn document_text(document: DocumentMut) -> Seq<char>;

/// What an item is. There are items that are nothing.
pub uninterp spec fn item_node(item: Item) -> Option<TomlNode>;

/// The entries of the document that a text is, and the remarks in it, or what is said of
/// a text that is none.
pub uninterp spec fn toml_parsed(text: Seq<char>) -> Result<
    (Map<Seq<char>, TomlNode>, Map<Seq<Seq<char>>, Seq<Seq<char>>>),
    Seq<char>,
>;

/// The entries of the document that a text is, or what is said of a text that is none.
pub open spec fn parsed_entries(text: Seq<char>) -> Result<Entries, Seq<char>> {
    match toml_parsed(text) {
        Ok((entries, _)) => Ok(entries),
        Err(problem) => Err(problem),
    }
}

/// What is remarked at a path.
pub open spec fn remarked(remarks: Remarks, path: Seq<Seq<char>>) -> Option<Seq<Seq<char>>> {
    if remarks.dom().contains(path) {
        Some(remarks[path])
    } else {
        None
    }
}

/// What was remarked at a path is still remarked there.
pub open spec fn stays(before: Remarks, after: Remarks, path: Seq<Seq<char>>) -> bool {
    remarked(before, path) is Some ==> remarked(after, path) == remarked(before, path)
}

/// What is under a path of keys.
pub open spec fn found(entries: Entries, path: Seq<Seq<char>>) -> Option<TomlNode>
    decreases path.len(),
{
    if path.len() == 0 || !entries.dom().contains(path[0]) {
        None
    } else if path.len() == 1 {
        Some(entries[path[0]])
    } else {
        match entries[path[0]] {
            TomlNode::Table(child) => found(child, path.skip(1)),
            _ => None,
        }
    }
}

/// The text holds every value in its notation.
pub open spec fn holds_values(text: Seq<char>, entries: Entries) -> bool {
    forall|path: Seq<Seq<char>>|
        #[trigger] found(entries, path) matches Some(TomlNode::Value(notation))
            ==> text::contains_text(text, notation)
}

/// The text holds what is remarked at a path.
pub open spec fn holds_remarks(text: Seq<char>, remarks: Remarks, path: Seq<Seq<char>>) -> bool {
    remarked(remarks, path) matches Some(list) ==> forall|i: int|
        0 <= i < list.len() ==> text::contains_text(text, #[trigger] list[i])
}

/// The notation of a string.
pub uninterp spec fn string_notation(text: Seq<char>) -> Seq<char>;

/// `str::parse` to a `toml_edit::DocumentMut`: the document that a text is. Its
/// root is a table. What it holds and what is remarked in it, and what is said of a text
/// that is no document, depends on the text alone.
#[verifier::external_body]
fn parse_document(text: &str) -> (r: Result<DocumentMut, String>)
    ensures
        match r {
            Ok(document) => toml_parsed(text@) matches Ok((entries, remarks))
                && document_entries(document) == Some(entries) && document_remarks(document)
                == remarks,
            Err(message) => toml_parsed(text@) matches Err(problem) && message@ == problem,
        },
{
    text.parse::<DocumentMut>().map_err(|error| error.to_string())
}

/// `toml_edit::DocumentMut::new`: a document without entries.
#[verifier::external_body]
fn new_document() -> (r: DocumentMut)
    ensures
        document_entries(r) == Some(Map::<Seq<char>, TomlNode>::empty()),
{
    DocumentMut::new()
}

/// `toml_edit::DocumentMut::as_table_mut`: the root of a document. What is done to
/// it is done to the document, and what stands at the document's end stays. It panics
/// where the root is no table.
#[verifier::external_body]
fn root_table<'a>(document: &'a mut DocumentMut) -> (r: &'a mut toml_edit::Table)
    requires
        document_entries(*old(document)) is Some,
    ensures
        document_entries(*old(document)) == Some(table_entries(*r)),
        document_entries(*final(document)) == Some(table_entries(*final(r))),
        forall|path: Seq<Seq<char>>|
            path.len() > 0 ==> #[trigger] remarked(document_remarks(*old(document)), path)
                == remarked(table_remarks(*r), path),
        forall|path: Seq<Seq<char>>|
            path.len() > 0 ==> #[trigger] remarked(document_remarks(*final(document)), path)
                == remarked(table_remarks(*final(r)), path),
        forall|path: Seq<Seq<char>>|
            path.len() == 0 ==> #[trigger] remarked(document_remarks(*old(document)), path)
                == remarked(document_remarks(*final(document)), path),
{
    document.as_table_mut()
}

/// `to_string` of a `toml_edit::DocumentMut`: its text, which holds every value in its
/// notation and every remark.
#[verifier::external_body]
fn render(document: &DocumentMut) -> (r: String)
    ensures
        r@ == document_text(*document),
        document_entries(*document) matches Some(entries) ==> holds_values(r@, entries),
        forall|path: Seq<Seq<char>>|
            #![trigger remarked(document_remarks(*document), path)]
            holds_remarks(r@, document_remarks(*document), path),
{
    document.to_string()
}

/// `toml_edit::Table::contains_key`: whether an entry is present.
#[verifier::external_body]
fn has_key(table: &toml_edit::Table, key: &str) -> (r: bool)
    ensures
        r == table_entries(*table).dom().contains(key@),
{
    table.contains_key(key)
}

/// `toml_edit::Table::insert` of a new table: the entry becomes a table without
/// entries. No other entry changes, and the remarks on the table and on other entries stay.
#[verifier::external_body]
fn insert_table(table: &mut toml_edit::Table, key: &str)
    ensures
        table_entries(*final(table)) == table_entries(*old(table)).insert(
            key@,
            TomlNode::Table(Map::empty()),
        ),
        forall|path: Seq<Seq<char>>|
            #![trigger remarked(table_remarks(*old(table)), path)]
            (path.len() == 0 || path[0] != key@ || !table_entries(*old(table)).dom().contains(
                key@,
            )) ==> stays(
                table_remarks(*old(table)),
                table_remarks(*final(table)),
                path,
            ),
{
    table.insert(key, Item::Table(toml_edit::Table::new()));
}

/// `toml_edit::Table::insert`: the entry becomes what the item is. No other entry
/// changes, and the remarks on the table and on other entries stay. Those on an entry that
/// was there before are not told of: the call drops what stood before the key.
#[verifier::external_body]
fn insert_item(table: &mut toml_edit::Table, key: &str, item: &Item)
    requires
        item_node(*item) is Some,
    ensures
        table_entries(*final(table)) == table_entries(*old(table)).insert(
            key@,
            item_node(*item)->0,
        ),
        forall|path: Seq<Seq<char>>|
            #![trigger remarked(table_remarks(*old(table)), path)]
            (path.len() == 0 || path[0] != key@ || !table_entries(*old(table)).dom().contains(
                key@,
            )) ==> stays(
                table_remarks(*old(table)),
                table_remarks(*final(table)),
                path,
            ),
{
    table.insert(key, item.clone());
}

/// `toml_edit::Table::get_mut` and `toml_edit::Item::as_table_mut`: the table under
/// a key, where there is one. What is done to it is done to the entry, and to no
/// other. The remarks on other entries, and on the table that it is in, stay.
#[verifier::external_body]
fn child_table<'a>(table: &'a mut toml_edit::Table, key: &str) -> (r: Option<&'a mut toml_edit::Table>)
    ensures
        r is Some <==> is_table(table_entries(*old(table)), key@),
        r is None ==> table_entries(*final(table)) == table_entries(*old(table)),
        r matches Some(child) ==> table_entries(*old(table))[key@] == TomlNode::Table(
            table_entries(*child),
        ),
        r matches Some(child) ==> table_entries(*final(table)) == table_entries(
            *old(table),
        ).insert(key@, TomlNode::Table(table_entries(*final(child)))),
        r is None ==> table_remarks(*final(table)) == table_remarks(*old(table)),
        forall|path: Seq<Seq<char>>|
            #![trigger remarked(table_remarks(*old(table)), path)]
            (path.len() == 0 || path[0] != key@) ==> stays(
                table_remarks(*old(table)),
                table_remarks(*final(table)),
                path,
            ),
        r matches Some(child) ==> forall|path: Seq<Seq<char>>|
            path.len() > 0 && path[0] == key@ ==> #[trigger] remarked(
                table_remarks(*old(table)),
                path,
            ) == remarked(table_remarks(*child), path.skip(1)),
        r matches Some(child) ==> forall|path: Seq<Seq<char>>|
            path.len() > 0 && path[0] == key@ ==> #[trigger] remarked(
                table_remarks(*final(table)),
                path,
            ) == remarked(table_remarks(*final(child)), path.skip(1)),
{
    table.get_mut(key).and_then(Item::as_table_mut)
}

/// `toml_edit::Table::remove`: what is under a key of a document, where there is
/// something.
#[verifier::external_body]
fn take_item(document: DocumentMut, key: &str) -> (r: Option<Item>)
    requires
        document_entries(document) is Some,
    ensures
        r is Some <==> document_entries(document)->0.dom().contains(key@),
        r matches Some(item) ==> item_node(item) == Some(document_entries(document)->0[key@]),
{
    let mut document = document;
    match document.as_table_mut().remove(key) {
        None | Some(Item::None) => None,
        Some(item) => Some(item),
    }
}

/// `toml_edit::value` on a text: the string value.
#[verifier::external_body]
fn string_item(text: &str) -> (r: Item)
    ensures
        item_node(r) == Some(TomlNode::Value(string_notation(text@))),
{
    toml_edit::value(text)
}

/// `toml_edit::value` on an integer: the integer value, in decimal notation.
#[verifier::external_body]
fn integer_item(number: i64) -> (r: Item)
    ensures
        item_node(r) == Some(TomlNode::Value(text::signed_decimal(number as int))),
{
    toml_edit::value(number)
}

/// An entry is a table.
pub open spec fn is_table(entries: Entries, key: Seq<char>) -> bool {
    entries.dom().contains(key) && entries[key] is Table
}

// ---------------------------------------------------------------------------
// Assignments
// ---------------------------------------------------------------------------

/// A character of a key.
pub open spec fn is_key_char(c: char) -> bool {
    text::is_alphanumeric(c) || c == '_' || c == '-'
}

/// A key that needs no quotes.
pub open spec fn is_bare_key(key: Seq<char>) -> bool {
    key.len() > 0 && forall|i: int| 0 <= i < key.len() ==> is_key_char(#[trigger] key[i])
}

/// All of some keys need no quotes.
pub open spec fn all_bare(keys: Seq<Seq<char>>) -> bool {
    forall|i: int| 0 <= i < keys.len() ==> is_bare_key(#[trigger] keys[i])
}

/// What a text stands for, given what parsing it as a value gave: the value where
/// it is one, and otherwise the string.
pub open spec fn node_of(parsed: Result<Entries, Seq<char>>, raw: Seq<char>) -> TomlNode {
    match parsed {
        Ok(entries) => if entries.dom().contains("value"@) {
            entries["value"@]
        } else {
            TomlNode::Value(string_notation(raw))
        },
        Err(_) => TomlNode::Value(string_notation(raw)),
    }
}

/// What a text stands for.
pub open spec fn assigned_node(raw: Seq<char>) -> TomlNode {
    node_of(parsed_entries("value = "@ + raw), raw)
}

/// The keys and the text of the value of an assignment.
pub open spec fn assignment_parts(input: Seq<char>) -> Result<(Seq<Seq<char>>, Seq<char>), Seq<char>> {
    match text::split_once(input, '=') {
        None => Err(
            "invalid assignment '"@ + input + "': expected a dotted KEY=VALUE argument"@,
        ),
        Some((raw_key, raw_value)) => {
            let keys = text::split(raw_key, '.');
            if all_bare(keys) {
                Ok((keys, text::trimmed(raw_value)))
            } else {
                Err(
                    "invalid config key '"@ + raw_key + "': use dot-separated TOML bare keys"@,
                )
            }
        },
    }
}

/// A key, with the value that it is to have.
pub struct Assignment {
    key: Vec<String>,
    value: Item,
}

/// The content of an assignment.
#[verifier::ext_equal]
pub struct AssignmentView {
    pub key: Seq<Seq<char>>,
    pub value: TomlNode,
}

impl DeepView for Assignment {
    type V = AssignmentView;

    closed spec fn deep_view(&self) -> AssignmentView {
        AssignmentView { key: self.key.deep_view(), value: item_node(self.value)->0 }
    }
}

fn key_is_bare(key: &str) -> (r: bool)
    ensures
        r == is_bare_key(key@),
{
    let chars = text::chars_of(key);
    if chars.len() == 0 {
        return false;
    }
    let mut i: usize = 0;
    while i < chars.len()
        invariant
            i <= chars.len(),
            chars@ == key@,
            forall|j: int| 0 <= j < i ==> is_key_char(#[trigger] key@[j]),
        decreases chars.len() - i,
    {
        let c = chars[i];
        if !(text::char_is_alphanumeric(c) || c == '_' || c == '-') {
            assert(!is_key_char(key@[i as int]));
            return false;
        }
        i += 1;
    }
    true
}

fn keys_are_bare(keys: &Vec<String>) -> (r: bool)
    ensures
        r == all_bare(keys.deep_view()),
{
    let ghost list = keys.deep_view();
    let mut i: usize = 0;
    while i < keys.len()
        invariant
            i <= keys.len(),
            list == keys.deep_view(),
            forall|j: int| 0 <= j < i ==> is_bare_key(#[trigger] list[j]),
        decreases keys.len() - i,
    {
        assert(list[i as int] == keys@[i as int]@);
        if !key_is_bare(keys[i].as_str()) {
            return false;
        }
        i += 1;
    }
    true
}

/// The keys and the text of the value of an assignment.
pub fn split_assignment(input: &str) -> (r: Result<(Vec<String>, String), String>)
    ensures
        match assignment_parts(input@) {
            Ok(parts) => r matches Ok(given) && given.0.deep_view() == parts.0 && given.1@
                == parts.1,
            Err(problem) => r matches Err(message) && message@ == problem,
        },
{
    let (raw_key, raw_value) = match text::cut(input, '=') {
        Some(parts) => parts,
        None => {
            return Err(
                cat3(
                    "invalid assignment '",
                    input,
                    "': expected a dotted KEY=VALUE argument",
                ),
            );
        },
    };
    let keys = text::split_on(raw_key, '.');
    if !keys_are_bare(&keys) {
        return Err(
            cat3(
                "invalid config key '",
                raw_key,
                "': use dot-separated TOML bare keys",
            ),
        );
    }
    Ok((keys, text::trim(raw_value).to_owned()))
}

/// What a text stands for: the value that it denotes, or else the string.
pub fn parse_assignment_value(raw: &str) -> (r: Item)
    ensures
        item_node(r) == Some(assigned_node(raw@)),
{
    let source = cat2("value = ", raw);
    match parse_document(source.as_str()) {
        Ok(document) => match take_item(document, "value") {
            Some(item) => item,
            None => string_item(raw),
        },
        Err(_) => string_item(raw),
    }
}

impl Assignment {
    #[verifier::type_invariant]
    spec fn is_something(self) -> bool {
        item_node(self.value) is Some
    }

    /// The assignment that a text is.
    pub fn from_str(input: &str) -> (r: Result<Assignment, String>)
        ensures
            shown(r) == (match assignment_parts(input@) {
                Ok((key, raw)) => Ok(AssignmentView { key, value: assigned_node(raw) }),
                Err(problem) => Err(problem),
            }),
    {
        match split_assignment(input) {
            Ok((key, raw)) => {
                let value = parse_assignment_value(raw.as_str());
                Ok(Assignment { key, value })
            },
            Err(message) => Err(message),
        }
    }
}

// ---------------------------------------------------------------------------
// Updates
// ---------------------------------------------------------------------------

/// What is said of a key that is to hold a table, and holds something else.
pub open spec fn not_a_table(key: Seq<char>) -> Seq<char> {
    "gateway config key '"@ + key + "' must be a TOML table"@
}

/// The entries under a key that is to hold a table: none where there is nothing
/// under it.
pub open spec fn child_of(entries: Entries, key: Seq<char>) -> Result<Entries, Seq<char>> {
    if !entries.dom().contains(key) {
        Ok(Map::empty())
    } else {
        match entries[key] {
            TomlNode::Table(child) => Ok(child),
            _ => Err(not_a_table(key)),
        }
    }
}

/// The entries of a table with a value under a path of keys. Tables that are
/// missing on the way are made.
pub open spec fn assigned(entries: Entries, path: Seq<Seq<char>>, value: TomlNode) -> Result<
    Entries,
    Seq<char>,
>
    decreases path.len(),
{
    if path.len() == 0 {
        Err("config assignment key must not be empty"@)
    } else if path.len() == 1 {
        Ok(entries.insert(path[0], value))
    } else {
        match child_of(entries, path[0]) {
            Err(problem) => Err(problem),
            Ok(child) => match assigned(child, path.skip(1), value) {
                Err(problem) => Err(problem),
                Ok(changed) => Ok(entries.insert(path[0], TomlNode::Table(changed))),
            },
        }
    }
}

/// The entries of a document with its schema version, where it has none.
pub open spec fn with_version(entries: Entries, version: Seq<char>) -> Result<Entries, Seq<char>> {
    match child_of(entries, "openshell"@) {
        Err(problem) => Err(problem),
        Ok(section) => Ok(
            entries.insert(
                "openshell"@,
                TomlNode::Table(
                    if section.dom().contains("version"@) {
                        section
                    } else {
                        section.insert("version"@, TomlNode::Value(version))
                    },
                ),
            ),
        ),
    }
}

/// The entries of a document after the first of some assignments, in order.
pub open spec fn updated(entries: Entries, assignments: Seq<AssignmentView>, n: int) -> Result<
    Entries,
    Seq<char>,
>
    decreases n,
{
    if n <= 0 {
        Ok(entries)
    } else {
        match updated(entries, assignments, n - 1) {
            Err(problem) => Err(problem),
            Ok(before) => assigned(before, assignments[n - 1].key, assignments[n - 1].value),
        }
    }
}

/// The entries of a configuration after an update.
pub open spec fn configured(
    parsed: Result<Entries, Seq<char>>,
    path: Seq<char>,
    version: Seq<char>,
    assignments: Seq<AssignmentView>,
) -> Result<Entries, Seq<char>> {
    match parsed {
        Err(_) => Err("failed to parse gateway config '"@ + path + "'"@),
        Ok(entries) => match with_version(entries, version) {
            Err(problem) => Err(problem),
            Ok(versioned) => updated(versioned, assignments, assignments.len() as int),
        },
    }
}

/// The entries of a configuration's text. A blank one has none.
pub open spec fn original_entries(original: Seq<char>) -> Result<Entries, Seq<char>> {
    if text::trimmed(original).len() == 0 {
        Ok(Map::empty())
    } else {
        parsed_entries(original)
    }
}

/// The remarks in a configuration's text. There are none in a blank one.
pub open spec fn original_remarks(original: Seq<char>) -> Remarks {
    if text::trimmed(original).len() == 0 {
        Map::empty()
    } else {
        match toml_parsed(original) {
            Ok((_, remarks)) => remarks,
            Err(_) => Map::empty(),
        }
    }
}

/// The table under a key, which is made where there is nothing under the key.
fn ensure_table<'a>(parent: &'a mut toml_edit::Table, key: &str) -> (r: Result<&'a mut toml_edit::Table, String>)
    ensures
        match child_of(table_entries(*old(parent)), key@) {
            Ok(entries) => {
                &&& r matches Ok(child)
                &&& table_entries(*child) == entries
                &&& table_entries(*final(parent)) == table_entries(*old(parent)).insert(
                    key@,
                    TomlNode::Table(table_entries(*final(child))),
                )
                &&& forall|path: Seq<Seq<char>>|
                    #![trigger remarked(table_remarks(*old(parent)), path)]
                    (path.len() == 0 || path[0] != key@) ==> stays(
                        table_remarks(*old(parent)),
                        table_remarks(*final(parent)),
                        path,
                    )
                &&& forall|path: Seq<Seq<char>>|
                    #![trigger remarked(table_remarks(*old(parent)), path)]
                    path.len() > 0 && path[0] == key@ && stays(
                        table_remarks(*child),
                        table_remarks(*final(child)),
                        path.skip(1),
                    ) ==> stays(
                        table_remarks(*old(parent)),
                        table_remarks(*final(parent)),
                        path,
                    )
            },
            Err(problem) => r matches Err(message) && message@ == problem,
        },
{
    let ghost before = table_entries(*parent);
    if !has_key(parent, key) {
        insert_table(parent, key);
    }
    match child_table(parent, key) {
        Some(child) => {
            proof {
                assert(before.insert(key@, TomlNode::Table(Map::empty())).insert(
                    key@,
                    TomlNode::Table(table_entries(*final(child))),
                ) =~= before.insert(key@, TomlNode::Table(table_entries(*final(child)))));
            }
            Ok(child)
        },
        None => Err(cat3("gateway config key '", key, "' must be a TOML table")),
    }
}

fn assign(table: &mut toml_edit::Table, keys: &Vec<String>, from: usize, value: &Item) -> (r: Result<
    (),
    String,
>)
    requires
        from <= keys.len(),
        item_node(*value) is Some,
    ensures
        match assigned(
            table_entries(*old(table)),
            keys.deep_view().skip(from as int),
            item_node(*value)->0,
        ) {
            Ok(entries) => r is Ok && table_entries(*final(table)) == entries,
            Err(problem) => r matches Err(message) && message@ == problem,
        },
        r is Ok ==> forall|path: Seq<Seq<char>>|
            #![trigger remarked(table_remarks(*old(table)), path)]
            !keys.deep_view().skip(from as int).is_prefix_of(path) ==> stays(
                table_remarks(*old(table)),
                table_remarks(*final(table)),
                path,
            ),
    decreases keys.len() - from,
{
    let ghost path = keys.deep_view().skip(from as int);
    proof {
        assert(path.len() == keys.len() - from);
    }
    if from == keys.len() {
        return Err("config assignment key must not be empty".to_owned());
    }
    proof {
        assert(path[0] == keys@[from as int]@);
        assert(path.skip(1) =~= keys.deep_view().skip(from + 1));
    }
    let key = keys[from].as_str();
    if from + 1 == keys.len() {
        insert_item(table, key, value);
        proof {
            assert forall|other: Seq<Seq<char>>|
                other.len() > 0 && !path.is_prefix_of(other) implies #[trigger] other[0] != key@ by {
                if other[0] == key@ {
                    assert(path =~= other.subrange(0, 1));
                }
            }
        }
        return Ok(());
    }
    proof {
        assert forall|other: Seq<Seq<char>>|
            other.len() > 0 && other[0] == key@ && path.skip(1).is_prefix_of(
                #[trigger] other.skip(1),
            ) implies path.is_prefix_of(other) by {
            let rest = path.skip(1);
            assert forall|i: int| 0 <= i < path.len() implies path[i] == other[i] by {
                if i > 0 {
                    assert(rest[i - 1] == other.skip(1).subrange(0, rest.len() as int)[i - 1]);
                }
            }
            assert(path =~= other.subrange(0, path.len() as int));
        }
    }
    match ensure_table(table, key) {
        Ok(child) => assign(child, keys, from + 1, value),
        Err(message) => Err(message),
    }
}

/// Sets a value of a document.
fn apply_assignment(document: &mut DocumentMut, assignment: &Assignment) -> (r: Result<(), String>)
    requires
        document_entries(*old(document)) is Some,
    ensures
        match assigned(
            document_entries(*old(document))->0,
            assignment.deep_view().key,
            assignment.deep_view().value,
        ) {
            Ok(entries) => r is Ok && document_entries(*final(document)) == Some(entries),
            Err(problem) => r matches Err(message) && message@ == problem,
        },
        r is Ok ==> forall|path: Seq<Seq<char>>|
            #![trigger remarked(document_remarks(*old(document)), path)]
            !assignment.deep_view().key.is_prefix_of(path) ==> stays(
                document_remarks(*old(document)),
                document_remarks(*final(document)),
                path,
            ),
{
    proof {
        use_type_invariant(assignment);
        assert(assignment.key.deep_view().skip(0) =~= assignment.key.deep_view());
    }
    let table = root_table(document);
    assign(table, &assignment.key, 0, &assignment.value)
}

fn set_version(document: &mut DocumentMut, schema_version: u32) -> (r: Result<(), String>)
    requires
        document_entries(*old(document)) is Some,
    ensures
        match with_version(
            document_entries(*old(document))->0,
            text::signed_decimal(schema_version as int),
        ) {
            Ok(entries) => r is Ok && document_entries(*final(document)) == Some(entries),
            Err(problem) => r matches Err(message) && message@ == problem,
        },
        r is Ok ==> forall|path: Seq<Seq<char>>|
            #![trigger remarked(document_remarks(*old(document)), path)]
            stays(
                document_remarks(*old(document)),
                document_remarks(*final(document)),
                path,
            ),
{
    let root = root_table(document);
    match ensure_table(root, "openshell") {
        Ok(section) => {
            if !has_key(section, "version") {
                let version = integer_item(schema_version as i64);
                insert_item(section, "version", &version);
            }
            Ok(())
        },
        Err(message) => Err(message),
    }
}

proof fn lemma_update_failed(
    entries: Entries,
    assignments: Seq<AssignmentView>,
    n: int,
    m: int,
)
    requires
        0 <= n <= m,
        updated(entries, assignments, n) is Err,
    ensures
        updated(entries, assignments, m) == updated(entries, assignments, n),
    decreases m - n,
{
    if n < m {
        lemma_update_failed(entries, assignments, n, m - 1);
    }
}

fn apply_assignments(document: &mut DocumentMut, assignments: &Vec<Assignment>) -> (r: Result<
    (),
    String,
>)
    requires
        document_entries(*old(document)) is Some,
    ensures
        match updated(
            document_entries(*old(document))->0,
            assignments.deep_view(),
            assignments.len() as int,
        ) {
            Ok(entries) => r is Ok && document_entries(*final(document)) == Some(entries),
            Err(problem) => r matches Err(message) && message@ == problem,
        },
        r is Ok ==> forall|path: Seq<Seq<char>>|
            #![trigger remarked(document_remarks(*old(document)), path)]
            !is_assigned(assignments.deep_view(), path) ==> stays(
                document_remarks(*old(document)),
                document_remarks(*final(document)),
                path,
            ),
{
    let ghost before = document_entries(*document)->0;
    let ghost list = assignments.deep_view();
    let mut i: usize = 0;
    while i < assignments.len()
        invariant
            i <= assignments.len(),
            before == document_entries(*old(document))->0,
            list == assignments.deep_view(),
            document_entries(*document) is Some,
            updated(before, list, i as int) == Ok::<Entries, Seq<char>>(
                document_entries(*document)->0,
            ),
            forall|path: Seq<Seq<char>>|
                #![trigger remarked(document_remarks(*old(document)), path)]
                !is_assigned(list, path) ==> stays(
                    document_remarks(*old(document)),
                    document_remarks(*document),
                    path,
                ),
        decreases assignments.len() - i,
    {
        proof {
            assert(list[i as int] == assignments@[i as int].deep_view());
        }
        match apply_assignment(document, &assignments[i]) {
            Ok(_) => {},
            Err(message) => {
                proof {
                    lemma_update_failed(before, list, i + 1, list.len() as int);
                }
                return Err(message);
            },
        }
        i += 1;
    }
    Ok(())
}

/// The path leads to what is assigned, or on from there.
pub open spec fn is_assigned(assignments: Seq<AssignmentView>, path: Seq<Seq<char>>) -> bool {
    exists|i: int| 0 <= i < assignments.len() && (#[trigger] assignments[i]).key.is_prefix_of(path)
}

/// A text of a document with given entries.
pub open spec fn is_text_of(text: Seq<char>, entries: Entries) -> bool {
    exists|document: DocumentMut|
        document_entries(document) == Some(entries) && #[trigger] document_text(document) == text
}

/// The text that an update gives, which has to be validated before it may be written:
/// the document that `original` is, with its schema version where it has none, and
/// with all assignments made in order. It holds every value in its notation, and the
/// comments that stand neither with what is assigned nor below it. `path` is the file
/// that the configuration is in.
pub fn edit(path: &str, original: &str, assignments: &Vec<Assignment>, schema_version: u32) -> (r:
    Result<String, String>)
    ensures
        match configured(
            original_entries(original@),
            path@,
            text::signed_decimal(schema_version as int),
            assignments.deep_view(),
        ) {
            Ok(entries) => {
                &&& r matches Ok(rendered)
                &&& is_text_of(rendered@, entries)
                &&& holds_values(rendered@, entries)
            },
            Err(problem) => r matches Err(message) && message@ == problem,
        },
        r matches Ok(rendered) ==> forall|path: Seq<Seq<char>>|
            !is_assigned(assignments.deep_view(), path) ==> #[trigger] holds_remarks(
                rendered@,
                original_remarks(original@),
                path,
            ),
{
    let mut document = if text::is_blank(original) {
        new_document()
    } else {
        match parse_document(original) {
            Ok(document) => document,
            Err(_) => {
                return Err(cat3("failed to parse gateway config '", path, "'"));
            },
        }
    };
    match set_version(&mut document, schema_version) {
        Ok(_) => {},
        Err(message) => {
            return Err(message);
        },
    }
    match apply_assignments(&mut document, assignments) {
        Ok(_) => {},
        Err(message) => {
            return Err(message);
        },
    }
    Ok(render(&document))
}

/// What an update came to: what the file holds afterwards, and whether it succeeded.
pub struct UpdateView {
    pub content: Option<Seq<char>>,
    pub result: Result<(), Seq<char>>,
}

/// What an update comes to: a text that could be made and is valid replaces the file,
/// and otherwise the file keeps its content, or its absence.
pub open spec fn update_of(
    before: Option<Seq<char>>,
    edited: Result<Seq<char>, Seq<char>>,
    validated: Result<(), Seq<char>>,
) -> UpdateView {
    match edited {
        Err(message) => UpdateView { content: before, result: Err(message) },
        Ok(rendered) => match validated {
            Err(message) => UpdateView { content: before, result: Err(message) },
            Ok(_) => UpdateView { content: Some(rendered), result: Ok(()) },
        },
    }
}

/// What an update came to.
#[derive(Debug, PartialEq, Eq)]
pub struct Update {
    pub content: Option<String>,
    pub result: Result<(), String>,
}

impl DeepView for Update {
    type V = UpdateView;

    open spec fn deep_view(&self) -> UpdateView {
        UpdateView { content: self.content.deep_view(), result: shown(self.result) }
    }
}

/// Updates a configuration file: `before` is what it holds, `edited` what `edit` made
/// of that, and `validated` what validating the edited text against the schema gave.
/// One wrong assignment discards all of them.
pub fn set(
    before: Option<String>,
    edited: Result<String, String>,
    validated: Result<(), String>,
) -> (r: Update)
    ensures
        r.deep_view() == update_of(before.deep_view(), shown(edited), shown(validated)),
        r.result is Err ==> r.content == before,
{
    match edited {
        Err(message) => Update { content: before, result: Err(message) },
        Ok(rendered) => match validated {
            Err(message) => Update { content: before, result: Err(message) },
            Ok(_) => Update { content: Some(rendered), result: Ok(()) },
        },
    }
}

// ---------------------------------------------------------------------------
// Drivers
// ---------------------------------------------------------------------------

/// What runs sandboxes.
#[derive(Debug, Clone, Copy, PartialEq, Eq, Structural)]
pub enum ComputeDriverKind {
    Kubernetes,
    Vm,
    Docker,
    Podman,
}

/// The name of what runs sandboxes.
pub open spec fn driver_name(driver: ComputeDriverKind) -> Seq<char> {
    match driver {
        ComputeDriverKind::Kubernetes => "kubernetes"@,
        ComputeDriverKind::Vm => "vm"@,
        ComputeDriverKind::Docker => "docker"@,
        ComputeDriverKind::Podman => "podman"@,
    }
}

impl ComputeDriverKind {
    /// The name of what runs sandboxes.
    pub fn as_str(self) -> (r: &'static str)
        ensures
            r@ == driver_name(self),
    {
        match self {
            ComputeDriverKind::Kubernetes => "kubernetes",
            ComputeDriverKind::Vm => "vm",
            ComputeDriverKind::Docker => "docker",
            ComputeDriverKind::Podman => "podman",
        }
    }
}

/// What is printed of the driver that was detected.
pub fn detected_driver_name(driver: Option<ComputeDriverKind>) -> (r: &'static str)
    ensures
        r@ == (match driver {
            Some(driver) => driver_name(driver),
            None => "none"@,
        }),
{
    match driver {
        Some(driver) => driver.as_str(),
        None => "none",
    }
}

// ---------------------------------------------------------------------------
// Laws
// ---------------------------------------------------------------------------

/// Two paths part: neither is the start of the other.
pub open spec fn part(a: Seq<Seq<char>>, b: Seq<Seq<char>>) -> bool
    decreases a.len(),
{
    a.len() > 0 && b.len() > 0 && (a[0] != b[0] || part(a.skip(1), b.skip(1)))
}

/// What was assigned is found under its key.
pub proof fn law_assignments_are_read_back(
    entries: Entries,
    path: Seq<Seq<char>>,
    value: TomlNode,
)
    requires
        assigned(entries, path, value) is Ok,
    ensures
        found(assigned(entries, path, value)->Ok_0, path) == Some(value),
    decreases path.len(),
{
    if path.len() > 1 {
        law_assignments_are_read_back(child_of(entries, path[0])->Ok_0, path.skip(1), value);
    }
}

/// An assignment changes nothing under other keys.
pub proof fn law_other_settings_are_kept(
    entries: Entries,
    path: Seq<Seq<char>>,
    value: TomlNode,
    other: Seq<Seq<char>>,
)
    requires
        assigned(entries, path, value) is Ok,
        part(path, other),
    ensures
        found(assigned(entries, path, value)->Ok_0, other) == found(entries, other),
    decreases path.len(),
{
    reveal_with_fuel(part, 2);
    if path[0] == other[0] {
        let child = child_of(entries, path[0])->Ok_0;
        assert(path.skip(1).len() > 0 && other.skip(1).len() > 0);
        law_other_settings_are_kept(child, path.skip(1), value, other.skip(1));
        if !entries.dom().contains(path[0]) {
            lemma_nothing_found(other.skip(1));
        }
    }
}

proof fn lemma_nothing_found(path: Seq<Seq<char>>)
    ensures
        found(Map::empty(), path) is None,
{
}

/// The path of the schema version.
pub open spec fn version_path() -> Seq<Seq<char>> {
    seq!["openshell"@, "version"@]
}

proof fn lemma_version_keeps_others(entries: Entries, version: Seq<char>, other: Seq<Seq<char>>)
    requires
        with_version(entries, version) is Ok,
        part(version_path(), other),
    ensures
        found(with_version(entries, version)->Ok_0, other) == found(entries, other),
{
    reveal_with_fuel(part, 3);
    reveal_with_fuel(found, 3);
    assert(version_path().skip(1) =~= seq!["version"@]);
    if other[0] == "openshell"@ {
        let rest = other.skip(1);
        assert(rest.len() > 0 && rest[0] != "version"@);
        if !entries.dom().contains("openshell"@) {
            lemma_nothing_found(rest);
        }
    }
}

proof fn lemma_updates_keep_others(
    entries: Entries,
    assignments: Seq<AssignmentView>,
    n: int,
    other: Seq<Seq<char>>,
)
    requires
        0 <= n <= assignments.len(),
        updated(entries, assignments, n) is Ok,
        forall|i: int| 0 <= i < assignments.len() ==> part(#[trigger] assignments[i].key, other),
    ensures
        found(updated(entries, assignments, n)->Ok_0, other) == found(entries, other),
    decreases n,
{
    if n > 0 {
        let before = updated(entries, assignments, n - 1)->Ok_0;
        let last = assignments[n - 1];
        lemma_updates_keep_others(entries, assignments, n - 1, other);
        assert(part(assignments[n - 1].key, other));
        law_other_settings_are_kept(before, last.key, last.value, other);
    }
}

/// An update leaves every setting as it was, but for the schema version and for what is
/// assigned.
pub proof fn law_unassigned_settings_are_kept(
    entries: Entries,
    path: Seq<char>,
    version: Seq<char>,
    assignments: Seq<AssignmentView>,
    other: Seq<Seq<char>>,
)
    requires
        configured(Ok(entries), path, version, assignments) is Ok,
        part(version_path(), other),
        forall|i: int| 0 <= i < assignments.len() ==> part(#[trigger] assignments[i].key, other),
    ensures
        found(configured(Ok(entries), path, version, assignments)->Ok_0, other) == found(
            entries,
            other,
        ),
{
    lemma_version_keeps_others(entries, version, other);
    lemma_updates_keep_others(
        with_version(entries, version)->Ok_0,
        assignments,
        assignments.len() as int,
        other,
    );
}

/// Where a key is assigned twice, the later assignment wins.
pub proof fn law_later_assignment_wins(
    entries: Entries,
    path: Seq<Seq<char>>,
    first: TomlNode,
    second: TomlNode,
)
    requires
        assigned(entries, path, first) is Ok,
    ensures
        assigned(assigned(entries, path, first)->Ok_0, path, second) == assigned(
            entries,
            path,
            second,
        ),
    decreases path.len(),
{
    let once = assigned(entries, path, first)->Ok_0;
    if path.len() == 1 {
        assert(once.insert(path[0], second) =~= entries.insert(
            path[0],
            second,
        ));
    } else {
        let child = child_of(entries, path[0])->Ok_0;
        law_later_assignment_wins(child, path.skip(1), first, second);
        lemma_same_outcome(child, path.skip(1), first, second);
        let changed = assigned(child, path.skip(1), second)->Ok_0;
        assert(once.insert(path[0], TomlNode::Table(changed)) =~= entries.insert(
            path[0],
            TomlNode::Table(changed),
        ));
    }
}

proof fn lemma_same_outcome(
    entries: Entries,
    path: Seq<Seq<char>>,
    first: TomlNode,
    second: TomlNode,
)
    requires
        assigned(entries, path, first) is Ok,
    ensures
        assigned(entries, path, second) is Ok,
    decreases path.len(),
{
    if path.len() > 1 {
        lemma_same_outcome(child_of(entries, path[0])->Ok_0, path.skip(1), first, second);
    }
}

/// The keys of an assignment are keys that need no quotes, and at least one.
pub proof fn law_assigned_keys_are_bare(input: Seq<char>)
    requires
        assignment_parts(input) is Ok,
    ensures
        assignment_parts(input) matches Ok((keys, _)) ==> all_bare(keys) && keys.len() > 0,
{
    if let Some((raw_key, _)) = text::split_once(input, '=') {
        text::lemma_split_nonempty(raw_key, '.');
    }
}

/// An assignment is a path of keys, an equals sign and a value: the keys are parted by dots
/// and made of ASCII letters, digits, underscores and hyphens. White space around the value
/// does not count.
pub proof fn law_accepted_assignments(keys: Seq<char>, value: Seq<char>)
    requires
        !keys.contains('='),
    ensures
        assignment_parts(keys) is Err,
        match assignment_parts(keys.push('=') + value) {
            Ok((path, raw)) => {
                &&& text::join(path, seq!['.']) == keys
                &&& raw == text::trimmed(value)
                &&& forall|i: int|
                    0 <= i < path.len() ==> (#[trigger] path[i]).len() > 0 && !path[i].contains('.')
                &&& forall|i: int, k: int|
                    0 <= i < path.len() && 0 <= k < path[i].len() ==> ('a'
                        <= #[trigger] path[i][k] && path[i][k] <= 'z') || ('A' <= path[i][k]
                        && path[i][k] <= 'Z') || ('0' <= path[i][k] && path[i][k] <= '9')
                        || path[i][k] == '_' || path[i][k] == '-'
            },
            Err(_) => exists|i: int|
                0 <= i < text::split(keys, '.').len() && !is_bare_key(
                    #[trigger] text::split(keys, '.')[i],
                ),
        },
{
    let input = keys.push('=') + value;
    text::laws::law_split_once(keys, '=');
    text::laws::law_cut(keys, '=', value);
    text::laws::law_split(keys, '.');
    if let Ok((path, raw)) = assignment_parts(input) {
        assert forall|i: int| 0 <= i < path.len() implies (#[trigger] path[i]).len() > 0
            && !path[i].contains('.') by {
            assert(is_bare_key(path[i]));
        }
        assert forall|i: int, k: int| 0 <= i < path.len() && 0 <= k < path[i].len() implies ('a'
            <= #[trigger] path[i][k] && path[i][k] <= 'z') || ('A' <= path[i][k] && path[i][k]
            <= 'Z') || ('0' <= path[i][k] && path[i][k] <= '9') || path[i][k] == '_' || path[i][k]
            == '-' by {
            assert(is_bare_key(path[i]));
            assert(is_key_char(path[i][k]));
        }
    }
}

/// A text stands for the value that it denotes as the right side of an entry, and for the
/// string where it denotes none.
pub proof fn law_assigned_values(parsed: Result<Entries, Seq<char>>, raw: Seq<char>)
    ensures
        parsed is Err ==> node_of(parsed, raw) == TomlNode::Value(string_notation(raw)),
        parsed matches Ok(entries) ==> match found(entries, seq!["value"@]) {
            Some(node) => node_of(parsed, raw) == node,
            None => node_of(parsed, raw) == TomlNode::Value(string_notation(raw)),
        },
{
}

/// An assignment is refused exactly where its path is empty, or leads through something that
/// is no table.
pub proof fn law_refused_assignments(entries: Entries, path: Seq<Seq<char>>, value: TomlNode)
    ensures
        assigned(entries, path, value) is Err <==> path.len() == 0 || exists|k: int|
            0 < k < path.len() && (found(entries, #[trigger] path.take(k)) matches Some(node)
                && !(node is Table)),
    decreases path.len(),
{
    if path.len() > 1 {
        let key = path[0];
        let rest = path.skip(1);
        let first = path.take(1);
        assert(first[0] == key && first.len() == 1);
        if !entries.dom().contains(key) {
            law_refused_assignments(Map::empty(), rest, value);
            assert forall|k: int| 0 < k < path.len() implies found(
                entries,
                #[trigger] path.take(k),
            ) is None by {
                assert(path.take(k)[0] == key);
            }
            assert forall|k: int| 0 < k < rest.len() implies found(
                Map::<Seq<char>, TomlNode>::empty(),
                #[trigger] rest.take(k),
            ) is None by {}
        } else if let TomlNode::Table(child) = entries[key] {
            law_refused_assignments(child, rest, value);
            assert forall|k: int| 0 < k < rest.len() implies found(
                child,
                #[trigger] rest.take(k),
            ) == found(entries, path.take(k + 1)) by {
                assert(path.take(k + 1)[0] == key);
                assert(path.take(k + 1).skip(1) =~= rest.take(k));
            }
            if assigned(child, rest, value) is Err {
                let k = choose|k: int|
                    0 < k < rest.len() && (found(child, #[trigger] rest.take(k)) matches Some(node)
                        && !(node is Table));
                assert(found(child, rest.take(k)) == found(entries, path.take(k + 1)));
            } else if exists|k: int|
                0 < k < path.len() && (found(entries, #[trigger] path.take(k)) matches Some(node)
                    && !(node is Table)) {
                let k = choose|k: int|
                    0 < k < path.len() && (found(entries, #[trigger] path.take(k)) matches Some(
                        node,
                    ) && !(node is Table));
                if k == 1 {
                    assert(path.take(1) == first);
                } else {
                    assert(found(child, rest.take(k - 1)) == found(entries, path.take(k)));
                }
            }
        } else {
            assert(found(entries, first) == Some(entries[key]));
        }
    }
}

/// A configuration that has a schema version keeps it, and one that has none gets it. That
/// fails only where the section for it is no table.
pub proof fn law_schema_versions(entries: Entries, version: Seq<char>)
    ensures
        with_version(entries, version) is Err <==> entries.dom().contains("openshell"@) && !(
        entries["openshell"@] is Table),
        with_version(entries, version) matches Ok(versioned) ==> found(
            versioned,
            seq!["openshell"@, "version"@],
        ) == (match found(entries, seq!["openshell"@, "version"@]) {
            Some(node) => Some(node),
            None => Some(TomlNode::Value(version)),
        }),
{
    reveal_with_fuel(found, 3);
    let path = seq!["openshell"@, "version"@];
    assert(path.skip(1) =~= seq!["version"@]);
}

/// After an update the last assignment is found under its key.
pub proof fn law_last_assignment_is_found(
    entries: Entries,
    path: Seq<char>,
    version: Seq<char>,
    assignments: Seq<AssignmentView>,
)
    requires
        assignments.len() > 0,
        configured(Ok(entries), path, version, assignments) is Ok,
    ensures
        found(
            configured(Ok(entries), path, version, assignments)->Ok_0,
            assignments.last().key,
        ) == Some(assignments.last().value),
{
    let versioned = with_version(entries, version)->Ok_0;
    let before = updated(versioned, assignments, assignments.len() - 1)->Ok_0;
    law_assignments_are_read_back(before, assignments.last().key, assignments.last().value);
}

/// A file is replaced exactly where the new text could be made and is valid. Otherwise it
/// keeps what it holds.
pub proof fn law_updates_are_whole(
    before: Option<Seq<char>>,
    edited: Result<Seq<char>, Seq<char>>,
    validated: Result<(), Seq<char>>,
)
    ensures
        update_of(before, edited, validated).result is Ok <==> edited is Ok && validated is Ok,
        update_of(before, edited, validated).result is Ok ==> update_of(
            before,
            edited,
            validated,
        ).content == Some(edited->Ok_0),
        update_of(before, edited, validated).result is Err ==> update_of(
            before,
            edited,
            validated,
        ).content == before,
{
}

/// Drivers have different names.
pub proof fn law_driver_names(a: ComputeDriverKind, b: ComputeDriverKind)
    ensures
        driver_name(ComputeDriverKind::Kubernetes) == "kubernetes"@,
        driver_name(ComputeDriverKind::Vm) == "vm"@,
        driver_name(ComputeDriverKind::Docker) == "docker"@,
        driver_name(ComputeDriverKind::Podman) == "podman"@,
        driver_name(a) == driver_name(b) ==> a == b,
{
    reveal_strlit("kubernetes");
    reveal_strlit("vm");
    reveal_strlit("docker");
    reveal_strlit("podman");
    assert("kubernetes"@.len() == 10);
    assert("vm"@.len() == 2);
    assert("docker"@.len() == 6 && "docker"@[0] == 'd');
    assert("podman"@.len() == 6 && "podman"@[0] == 'p');
}

} // verus!
