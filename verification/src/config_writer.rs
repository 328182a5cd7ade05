//! Changing the configuration file without disturbing it.
//!
//! One block of one VM is written; the rest of the file, with its comments and spaces, stays as
//! it is.
use crate::chars::chars_of;
use crate::hex::{hex_of, vm_uuid_hex};
use vstd::prelude::*;

verus! {

/// A value of a configuration file.
pub ghost enum TomlValue {
    Text(Seq<char>),
    Flag(bool),
    Number(int),
    /// A fraction or a time, as it is written.
    Written(Seq<char>),
    /// An array of values or of tables.
    List(Seq<TomlValue>),
    /// A table in braces.
    Inline(Map<Seq<char>, TomlValue>),
    /// A table under a header, or one that dotted keys or the headers of others make.
    Table(Map<Seq<char>, TomlValue>),
}

/// What a configuration holds: its top-level keys with their values.
pub type TomlView = Map<Seq<char>, TomlValue>;

/// What stands around the headers and rows of a configuration, by path: before and after each.
pub type DecorView = Map<Seq<Seq<char>>, (Seq<char>, Seq<char>)>;

/// An editable document of the `toml_edit` crate.
#[verifier::external_type_specification]
#[verifier::external_body]
pub struct ExDocumentMut(toml_edit::DocumentMut);

/// A table of the `toml_edit` crate.
#[verifier::external_type_specification]
#[verifier::external_body]
pub struct ExTable(toml_edit::Table);

/// What a text holds, or why it is no TOML.
pub uninterp spec fn toml_of(text: Seq<char>) -> Result<Map<Seq<char>, TomlValue>, Seq<char>>;

/// What a document that is parsed from a text keeps of the text around its headers and rows, as
/// [`doc_decor`] says.
pub uninterp spec fn decor_of(text: Seq<char>) -> Map<Seq<Seq<char>>, (Seq<char>, Seq<char>)>;

/// The top-level keys of a document, and whether each is a table.
pub uninterp spec fn doc_keys(d: toml_edit::DocumentMut) -> Map<Seq<char>, bool>;

/// What a document holds, but for implicit tables with nothing in them.
pub uninterp spec fn doc_root(d: toml_edit::DocumentMut) -> Map<Seq<char>, TomlValue>;

/// The comments and spaces that a document keeps, without their carriage returns, by the path of
/// names (and, within arrays of tables, of places in decimal). Of a table that has a header from
/// the text: what stands before the header, since the row or header before, and what stands after
/// it in its line. Of a row, in the same way: what stands before it, and after its value. Of the
/// empty path: nothing, and what stands after the last row or header.
pub uninterp spec fn doc_decor(d: toml_edit::DocumentMut) -> Map<
    Seq<Seq<char>>,
    (Seq<char>, Seq<char>),
>;

/// The text of a document.
pub uninterp spec fn doc_text(d: toml_edit::DocumentMut) -> Seq<char>;

/// The texts that were put into a document since it was parsed. Only for these is it decided when
/// the document is written how they are quoted.
pub uninterp spec fn doc_fresh(d: toml_edit::DocumentMut) -> Set<Seq<char>>;

/// The texts and flags in a table, by key.
pub uninterp spec fn table_rows(t: toml_edit::Table) -> Map<Seq<char>, TomlValue>;

/// Nothing in a table.
pub open spec fn no_rows() -> Map<Seq<char>, TomlValue> {
    Map::empty()
}

/// The texts in a table.
pub open spec fn texts_in(rows: Map<Seq<char>, TomlValue>) -> Set<Seq<char>> {
    Set::new(|t: Seq<char>| exists|key: Seq<char>| #[trigger]
        rows.contains_key(key) && rows[key] == TomlValue::Text(t))
}

/// No text.
pub open spec fn no_texts() -> Set<Seq<char>> {
    Set::empty()
}

/// From a place on, a text has 256 equal quotes.
pub open spec fn quotes_at(t: Seq<char>, i: int) -> bool {
    run_at(t, '\'', i) || run_at(t, '"', i)
}

/// From a place on, a text has 256 times the same character.
pub open spec fn run_at(t: Seq<char>, c: char, i: int) -> bool {
    &&& 0 <= i
    &&& i + 256 <= t.len()
    &&& forall|k: int| i <= k < i + 256 ==> t[k] == c
}

/// A text can be quoted: it has no run of 256 equal quotes. The lengths of such runs are counted
/// in a byte.
pub open spec fn quotable(t: Seq<char>) -> bool {
    forall|i: int| !(#[trigger] quotes_at(t, i))
}

/// The top-level keys, and whether each is a table.
pub open spec fn keys_of(root: TomlView) -> Map<Seq<char>, bool> {
    root.map_values(|v: TomlValue| v is Table)
}

/// What stands in the table under a top-level key.
pub open spec fn section_of(root: TomlView, section: Seq<char>) -> Map<Seq<char>, TomlValue> {
    if root.contains_key(section) && root[section] is Table {
        root[section]->Table_0
    } else {
        no_rows()
    }
}

/// What a text holds with a table put under two names: every other value is as it was.
pub open spec fn with_block(
    was: TomlView,
    section: Seq<char>,
    name: Seq<char>,
    rows: Map<Seq<char>, TomlValue>,
) -> TomlView {
    was.insert(
        section,
        TomlValue::Table(section_of(was, section).insert(name, TomlValue::Table(rows))),
    )
}

/// The tables that a value is: itself, or the elements of an array of tables.
pub open spec fn is_part(v: TomlValue, rows: Map<Seq<char>, TomlValue>) -> bool {
    v == TomlValue::Table(rows) || (v is List && v->List_0.contains(TomlValue::Table(rows)))
}

/// No value in a table is a table, or has tables for elements.
pub open spec fn tableless(rows: Map<Seq<char>, TomlValue>) -> bool {
    forall|key: Seq<char>, inner: Map<Seq<char>, TomlValue>| #[trigger]
        rows.contains_key(key) ==> !(#[trigger] is_part(rows[key], inner))
}

/// Tables stand two deep at most: a section, and in it such as that of a VM.
pub open spec fn shallow(root: TomlView) -> bool {
    forall|
        section: Seq<char>,
        name: Seq<char>,
        outer: Map<Seq<char>, TomlValue>,
        inner: Map<Seq<char>, TomlValue>,
    |
        root.contains_key(section) && #[trigger] is_part(root[section], outer)
            && outer.contains_key(name) && #[trigger] is_part(outer[name], inner) ==> tableless(
            inner,
        )
}

/// A path leads through tables to a value that is neither a table nor an array.
pub open spec fn is_row(root: TomlView, path: Seq<Seq<char>>) -> bool
    decreases path.len(),
{
    if path.len() == 0 || !root.contains_key(path[0]) {
        false
    } else if path.len() == 1 {
        !(root[path[0]] is Table) && !(root[path[0]] is List)
    } else {
        root[path[0]] is Table && is_row(root[path[0]]->Table_0, path.skip(1))
    }
}

/// A text has a piece at a place.
pub open spec fn has_at(text: Seq<char>, piece: Seq<char>, i: int) -> bool {
    0 <= i && i + piece.len() <= text.len() && text.subrange(i, i + piece.len()) == piece
}

/// A text has two pieces, the second after the first.
pub open spec fn has_both(text: Seq<char>, pieces: (Seq<char>, Seq<char>)) -> bool {
    exists|i: int, j: int|
        i + pieces.0.len() <= j && #[trigger] has_at(text, pieces.0, i) && #[trigger] has_at(
            text,
            pieces.1,
            j,
        )
}

/// All that stands around headers and rows stands in a text.
pub open spec fn has_all(text: Seq<char>, decor: DecorView) -> bool {
    forall|path: Seq<Seq<char>>| #[trigger]
        decor.contains_key(path) ==> has_both(text, decor[path])
}

/// A path does not lead into the entry at two names.
pub open spec fn outside(path: Seq<Seq<char>>, section: Seq<char>, name: Seq<char>) -> bool {
    path.len() < 2 || path[0] != section || path[1] != name
}

/// Outside the entry at two names, the same stands around headers and rows.
pub open spec fn same_outside(
    was: DecorView,
    now: DecorView,
    section: Seq<char>,
    name: Seq<char>,
) -> bool {
    forall|path: Seq<Seq<char>>|
        outside(path, section, name) ==> (#[trigger] now.contains_key(path) == was.contains_key(path)
            && (was.contains_key(path) ==> now[path] == was[path]))
}

/// What a text has around its headers and rows: something of every row and of the end, and without
/// carriage returns all of it stands in the text as it is.
pub open spec fn surrounds(text: Seq<char>, root: TomlView, decor: DecorView) -> bool {
    &&& decor.contains_key(Seq::empty())
    &&& forall|path: Seq<Seq<char>>| #[trigger] is_row(root, path) ==> decor.contains_key(path)
    &&& !text.contains('\r') ==> has_all(text, decor)
}

/// What a parsed document has from its text.
pub open spec fn parsed_as(
    text: Seq<char>,
    root: TomlView,
    keys: Map<Seq<char>, bool>,
    decor: DecorView,
) -> bool {
    &&& toml_of(text) is Ok
    &&& toml_of(text)->Ok_0 == root
    &&& keys == keys_of(root)
    &&& surrounds(text, root, decor)
}

/// Calls `DocumentMut::from_str`. Whether a text parses, what it holds and why it does not is a
/// function of the text, named [`toml_of`]; so is what the document keeps of the text around
/// headers and rows, named [`decor_of`].
#[verifier::external_body]
fn parse_doc(text: &str) -> (r: Result<toml_edit::DocumentMut, String>)
    ensures
        match r {
            Ok(d) => {
                &&& parsed_as(text@, doc_root(d), doc_keys(d), doc_decor(d))
                &&& doc_decor(d) == decor_of(text@)
                &&& doc_fresh(d) == no_texts()
            },
            Err(e) => toml_of(text@) == Err::<TomlView, _>(e@),
        },
{
    text.parse::<toml_edit::DocumentMut>().map_err(|e| e.to_string())
}

/// Calls `Table::contains_key` on the document's root.
#[verifier::external_body]
fn has_key(d: &toml_edit::DocumentMut, key: &str) -> (r: bool)
    ensures
        r == doc_keys(*d).contains_key(key@),
{
    d.contains_key(key)
}

/// Calls `Table::contains_table` on the document's root.
#[verifier::external_body]
fn has_table(d: &toml_edit::DocumentMut, key: &str) -> (r: bool)
    ensures
        r == (doc_keys(*d).contains_key(key@) && doc_keys(*d)[key@]),
{
    d.contains_table(key)
}

/// Calls `IndexMut::index_mut` of the document to put an empty implicit table under a new key. A
/// table that is implicit and empty does not show, and has nothing around it.
#[verifier::external_body]
fn add_section(d: &mut toml_edit::DocumentMut, key: &str)
    requires
        !doc_keys(*old(d)).contains_key(key@),
    ensures
        doc_keys(*final(d)) == doc_keys(*old(d)).insert(key@, true),
        doc_root(*final(d)) == doc_root(*old(d)),
        doc_decor(*final(d)) == doc_decor(*old(d)),
        doc_fresh(*final(d)) == doc_fresh(*old(d)),
{
    let mut t = toml_edit::Table::new();
    t.set_implicit(true);
    d[key] = toml_edit::Item::Table(t);
}

/// Calls `Table::new`: the table is empty.
#[verifier::external_body]
fn new_block() -> (t: toml_edit::Table)
    ensures
        table_rows(t) == no_rows(),
{
    toml_edit::Table::new()
}

/// Calls `IndexMut::index_mut` of the table to set a text.
#[verifier::external_body]
fn put_text(t: &mut toml_edit::Table, key: &str, text: &str)
    ensures
        table_rows(*final(t)) == table_rows(*old(t)).insert(key@, TomlValue::Text(text@)),
{
    t[key] = toml_edit::value(text);
}

/// Calls `IndexMut::index_mut` of the table to set a flag.
#[verifier::external_body]
fn put_flag(t: &mut toml_edit::Table, key: &str, flag: bool)
    ensures
        table_rows(*final(t)) == table_rows(*old(t)).insert(key@, TomlValue::Flag(flag)),
{
    t[key] = toml_edit::value(flag);
}

/// Calls `Table::insert` on the table that stands under a key of the document. There the new
/// table takes the place of what had its name. Every other value is as it was, and so is what
/// stands around headers and rows outside the entry.
#[verifier::external_body]
fn put_block(d: &mut toml_edit::DocumentMut, section: &str, name: &str, block: toml_edit::Table)
    requires
        doc_keys(*old(d)).contains_key(section@),
        doc_keys(*old(d))[section@],
    ensures
        doc_keys(*final(d)) == doc_keys(*old(d)),
        doc_root(*final(d)) == with_block(
            doc_root(*old(d)),
            section@,
            name@,
            table_rows(block),
        ),
        same_outside(doc_decor(*old(d)), doc_decor(*final(d)), section@, name@),
        doc_fresh(*final(d)).subset_of(doc_fresh(*old(d)).union(texts_in(table_rows(block)))),
{
    if let Some(t) = d[section].as_table_mut() {
        t.insert(name, toml_edit::Item::Table(block));
    }
}

/// Calls `DocumentMut::to_string`. The text has all that stands around headers and rows. Where it
/// is TOML, it holds what the document holds, and it is TOML where tables stand two deep at most.
/// Nothing is said of when a text with deeper tables is TOML: a table that has rows and no header
/// of its own is written under a header that may come too late. The equal quotes in a row of each
/// text that was put in are counted in a byte.
#[verifier::external_body]
fn render(d: &toml_edit::DocumentMut) -> (s: String)
    requires
        forall|t: Seq<char>| #[trigger] doc_fresh(*d).contains(t) ==> quotable(t),
    ensures
        s@ == doc_text(*d),
        toml_of(s@) is Ok ==> toml_of(s@)->Ok_0 == doc_root(*d),
        shallow(doc_root(*d)) ==> toml_of(s@) is Ok,
        has_all(s@, doc_decor(*d)),
{
    d.to_string()
}

/// What is written down of a VM that was found.
#[derive(Debug)]
pub struct VmBinding {
    pub name: String,
    /// `auto`, or where the VM is.
    pub bridge: String,
    pub vm_uuid: [u8; 16],
    /// The token's path, as it is written.
    pub token: String,
}

/// Why the configuration cannot be changed.
#[derive(Debug)]
pub enum UpsertError {
    /// It is no TOML, for this reason.
    Malformed(String),
    /// What it has under `vm` is no table.
    NotTable,
    /// A text of the block has more equal quotes in a row than can be counted.
    Quotes,
    /// What would be written is no TOML.
    Garbled,
}

/// Hexadecimal digits as text.
pub open spec fn uuid_text(u: Seq<u8>) -> Seq<char> {
    hex_of(u).map_values(|b: u8| b as char)
}

/// The block of a VM: the bridge, the identity where it is known, and the token.
pub open spec fn block_of(
    bridge: Seq<char>,
    uuid: Option<Seq<char>>,
    token: Seq<char>,
) -> Map<Seq<char>, TomlValue> {
    match uuid {
        Some(u) => no_rows().insert("bridge"@, TomlValue::Text(bridge)).insert(
            "vm_uuid"@,
            TomlValue::Text(u),
        ).insert("token"@, TomlValue::Text(token)).insert("automount"@, TomlValue::Flag(true)),
        None => no_rows().insert("bridge"@, TomlValue::Text(bridge)).insert(
            "token"@,
            TomlValue::Text(token),
        ).insert("automount"@, TomlValue::Flag(true)),
    }
}

/// The block of a VM that is known.
pub open spec fn bound_block(b: VmBinding) -> Map<Seq<char>, TomlValue> {
    block_of(b.bridge@, Some(uuid_text(b.vm_uuid@)), b.token@)
}

/// The block of a VM whose identity is not known yet.
pub open spec fn unbound_block(token: Seq<char>) -> Map<Seq<char>, TomlValue> {
    block_of("auto"@, None, token)
}

/// A text is what is written of a document in which a block was put under `vm`, with every other
/// value as it was and with the same around the other headers and rows.
pub open spec fn written(
    existing: Seq<char>,
    name: Seq<char>,
    block: Map<Seq<char>, TomlValue>,
    text: Seq<char>,
) -> bool {
    exists|d: toml_edit::DocumentMut|
        {
            &&& text == #[trigger] doc_text(d)
            &&& doc_root(d) == with_block(toml_of(existing)->Ok_0, "vm"@, name, block)
            &&& same_outside(decor_of(existing), doc_decor(d), "vm"@, name)
        }
}

/// A text is the configuration with a block put under `vm`: it holds the block and every other
/// value as it was, and has the comments and spaces around the other headers and rows.
pub open spec fn edited(
    existing: Seq<char>,
    name: Seq<char>,
    block: Map<Seq<char>, TomlValue>,
    text: Seq<char>,
) -> bool {
    &&& written(existing, name, block, text)
    &&& toml_of(text) is Ok
    &&& toml_of(text)->Ok_0 == with_block(toml_of(existing)->Ok_0, "vm"@, name, block)
    &&& surrounds(existing, toml_of(existing)->Ok_0, decor_of(existing))
    &&& forall|path: Seq<Seq<char>>|
        outside(path, "vm"@, name) && #[trigger] decor_of(existing).contains_key(path) ==> has_both(
            text,
            decor_of(existing)[path],
        )
}

/// What would be written is no TOML. That comes only where tables stand more than two deep.
pub open spec fn garbled(
    existing: Seq<char>,
    name: Seq<char>,
    block: Map<Seq<char>, TomlValue>,
) -> bool {
    &&& !shallow(with_block(toml_of(existing)->Ok_0, "vm"@, name, block))
    &&& exists|text: Seq<char>| #[trigger] written(existing, name, block, text) && toml_of(text) is Err
}

/// The outcome of putting a block under `vm` in a configuration: done in a text that is TOML and
/// has nothing else than a table there. A block whose texts cannot be quoted is refused, and so is
/// what would not be TOML any more.
pub open spec fn upserted(
    existing: Seq<char>,
    name: Seq<char>,
    block: Map<Seq<char>, TomlValue>,
    r: Result<String, UpsertError>,
) -> bool {
    match toml_of(existing) {
        Err(e) => match r {
            Err(UpsertError::Malformed(msg)) => msg@ == e,
            _ => false,
        },
        Ok(root) => if root.contains_key("vm"@) && !(root["vm"@] is Table) {
            r == Err::<String, _>(UpsertError::NotTable)
        } else if exists|t: Seq<char>| #[trigger] texts_in(block).contains(t) && !quotable(t) {
            r == Err::<String, _>(UpsertError::Quotes)
        } else {
            match r {
                Ok(text) => edited(existing, name, block, text@),
                Err(UpsertError::Garbled) => garbled(existing, name, block),
                _ => false,
            }
        },
    }
}

/// Whether a text has no run of 256 equal quotes.
pub fn can_quote(text: &str) -> (r: bool)
    ensures
        r == quotable(text@),
{
    let cs = chars_of(text);
    let mut single: usize = 0;
    let mut double: usize = 0;
    let mut i: usize = 0;
    while i < cs.len()
        invariant
            cs@ == text@,
            single <= i <= cs@.len(),
            double <= i,
            single < 256,
            double < 256,
            forall|k: int| i - single <= k < i ==> cs@[k] == '\'',
            forall|k: int| i - double <= k < i ==> cs@[k] == '"',
            single < i ==> cs@[i - single - 1] != '\'',
            double < i ==> cs@[i - double - 1] != '"',
            forall|j: int| j + 256 <= i ==> !(#[trigger] quotes_at(cs@, j)),
        decreases cs@.len() - i,
    {
        let c = cs[i];
        single = if c == '\'' {
            single + 1
        } else {
            0
        };
        double = if c == '"' {
            double + 1
        } else {
            0
        };
        i = i + 1;
        if single == 256 || double == 256 {
            proof {
                assert(quotes_at(cs@, i - 256));
            }
            return false;
        }
        proof {
            assert forall|j: int| j + 256 <= i implies !(#[trigger] quotes_at(cs@, j)) by {
                if 0 <= j && j + 256 == i {
                    if run_at(cs@, '\'', j) {
                        assert(cs@[i - single - 1] == '\'');
                    }
                    if run_at(cs@, '"', j) {
                        assert(cs@[i - double - 1] == '"');
                    }
                }
            }
        }
    }
    true
}

/// An identity that may be missing, by value.
pub open spec fn text_of(uuid: Option<String>) -> Option<Seq<char>> {
    match uuid {
        Some(u) => Some(u@),
        None => None,
    }
}

/// The texts in a block are those that it was made of.
proof fn block_texts(bridge: Seq<char>, uuid: Option<Seq<char>>, token: Seq<char>, t: Seq<char>)
    ensures
        texts_in(block_of(bridge, uuid, token)).contains(t) <==> t == bridge || t == token || uuid
            == Some(t),
{
    reveal_strlit("bridge");
    reveal_strlit("vm_uuid");
    reveal_strlit("token");
    reveal_strlit("automount");
    let rows = block_of(bridge, uuid, token);
    assert("bridge"@.len() == 6 && "vm_uuid"@.len() == 7 && "token"@.len() == 5
        && "automount"@.len() == 9);
    assert(rows.contains_key("bridge"@) && rows["bridge"@] == TomlValue::Text(bridge));
    assert(rows.contains_key("token"@) && rows["token"@] == TomlValue::Text(token));
    if uuid is Some {
        assert(rows.contains_key("vm_uuid"@) && rows["vm_uuid"@] == TomlValue::Text(uuid->0));
    }
}

fn upsert(existing: &str, name: &str, bridge: &str, uuid: Option<String>, token: &str) -> (r: Result<
    String,
    UpsertError,
>)
    ensures
        upserted(existing@, name@, block_of(bridge@, text_of(uuid), token@), r),
{
    let mut doc = match parse_doc(existing) {
        Ok(d) => d,
        Err(e) => {
            return Err(UpsertError::Malformed(e));
        },
    };
    if !has_key(&doc, "vm") {
        add_section(&mut doc, "vm");
    }
    if !has_table(&doc, "vm") {
        return Err(UpsertError::NotTable);
    }
    let ghost rows = block_of(bridge@, text_of(uuid), token@);
    proof {
        assert forall|t: Seq<char>| #[trigger] texts_in(rows).contains(t) <==> t == bridge@ || t
            == token@ || text_of(uuid) == Some(t) by {
            block_texts(bridge@, text_of(uuid), token@, t);
        }
    }
    let fits = match &uuid {
        Some(u) => can_quote(u.as_str()),
        None => true,
    };
    if !fits || !can_quote(bridge) || !can_quote(token) {
        proof {
            let bad = if !fits {
                text_of(uuid)->0
            } else if !quotable(bridge@) {
                bridge@
            } else {
                token@
            };
            assert(texts_in(rows).contains(bad) && !quotable(bad));
        }
        return Err(UpsertError::Quotes);
    }
    let mut block = new_block();
    put_text(&mut block, "bridge", bridge);
    match &uuid {
        Some(u) => put_text(&mut block, "vm_uuid", u.as_str()),
        None => {},
    }
    put_text(&mut block, "token", token);
    put_flag(&mut block, "automount", true);
    put_block(&mut doc, "vm", name, block);
    let text = render(&doc);
    proof {
        assert(text@ == doc_text(doc));
        assert(written(existing@, name@, rows, text@));
        assert forall|path: Seq<Seq<char>>|
            outside(path, "vm"@, name@) && #[trigger] decor_of(existing@).contains_key(
                path,
            ) implies has_both(text@, decor_of(existing@)[path]) by {
            assert(doc_decor(doc).contains_key(path));
        }
    }
    match parse_doc(text.as_str()) {
        Ok(_) => Ok(text),
        Err(_) => Err(UpsertError::Garbled),
    }
}

/// Sixteen bytes as hexadecimal digits.
pub fn uuid_string(u: &[u8; 16]) -> (s: String)
    ensures
        s@ == uuid_text(u@),
{
    let d = vm_uuid_hex(u);
    let mut s = String::new();
    let mut i: usize = 0;
    proof {
        assert(s@ =~= uuid_text(u@).take(0));
    }
    while i < d.len()
        invariant
            d@ == hex_of(u@),
            i <= d@.len(),
            s@ == uuid_text(u@).take(i as int),
        decreases d@.len() - i,
    {
        s.push(d[i] as char);
        proof {
            let t = uuid_text(u@);
            assert(t.take(i + 1) =~= t.take(i as int).push(t[i as int]));
        }
        i = i + 1;
    }
    proof {
        assert(uuid_text(u@).take(i as int) =~= uuid_text(u@));
    }
    s
}

/// Put the block of a VM into a configuration, in place of the one that it may have.
pub fn upsert_vm(existing: &str, b: &VmBinding) -> (r: Result<String, UpsertError>)
    ensures
        upserted(existing@, b.name@, bound_block(*b), r),
{
    let uuid = uuid_string(&b.vm_uuid);
    upsert(existing, b.name.as_str(), b.bridge.as_str(), Some(uuid), b.token.as_str())
}

/// The same for a VM that could not be reached: it is bound by its token alone, and to its
/// identity when it first connects.
pub fn upsert_vm_no_uuid(existing: &str, name: &str, token: &str) -> (r: Result<String, UpsertError>)
    ensures
        upserted(existing@, name@, unbound_block(token@), r),
{
    upsert(existing, name, "auto", None, token)
}

/// The value at a path of names.
pub open spec fn value_at(root: TomlView, path: Seq<Seq<char>>) -> Option<TomlValue>
    decreases path.len(),
{
    if path.len() == 0 || !root.contains_key(path[0]) {
        None
    } else if path.len() == 1 {
        Some(root[path[0]])
    } else {
        match root[path[0]] {
            TomlValue::Table(rows) => value_at(rows, path.skip(1)),
            TomlValue::Inline(rows) => value_at(rows, path.skip(1)),
            _ => None,
        }
    }
}

/// Setting one key leaves the values at the other paths alone.
proof fn insert_leaves_others(
    root: TomlView,
    key: Seq<char>,
    v: TomlValue,
    path: Seq<Seq<char>>,
)
    requires
        path.len() > 0,
        path[0] != key,
    ensures
        value_at(root.insert(key, v), path) == value_at(root, path),
{
}

/// A block without tables leaves tables two deep at most.
pub proof fn block_stays_shallow(
    root: TomlView,
    section: Seq<char>,
    name: Seq<char>,
    block: Map<Seq<char>, TomlValue>,
)
    requires
        shallow(root),
        tableless(block),
    ensures
        shallow(with_block(root, section, name, block)),
{
    let after = with_block(root, section, name, block);
    let rows = section_of(root, section);
    assert forall|
        s: Seq<char>,
        n: Seq<char>,
        outer: Map<Seq<char>, TomlValue>,
        inner: Map<Seq<char>, TomlValue>,
    |
        after.contains_key(s) && #[trigger] is_part(after[s], outer) && outer.contains_key(n)
            && #[trigger] is_part(outer[n], inner) implies tableless(inner) by {
        if s == section {
            assert(outer == rows.insert(name, TomlValue::Table(block)));
            if n == name {
                assert(inner == block);
            } else {
                assert(is_part(root[s], rows));
                assert(is_part(rows[n], inner));
            }
        } else {
            assert(is_part(root[s], outer));
        }
    }
}

/// The blocks that are written have no tables in them.
pub proof fn blocks_are_tableless(bridge: Seq<char>, uuid: Option<Seq<char>>, token: Seq<char>)
    ensures
        tableless(block_of(bridge, uuid, token)),
{
}

/// In a configuration whose tables stand two deep at most, the block is always set, whatever VM it
/// is of, unless its texts cannot be quoted; and the tables stand no deeper afterwards.
pub proof fn ordinary_text_is_edited(
    existing: Seq<char>,
    name: Seq<char>,
    bridge: Seq<char>,
    uuid: Option<Seq<char>>,
    token: Seq<char>,
    r: Result<String, UpsertError>,
)
    requires
        upserted(existing, name, block_of(bridge, uuid, token), r),
        toml_of(existing) is Ok,
        toml_of(existing)->Ok_0.contains_key("vm"@) ==> toml_of(existing)->Ok_0["vm"@] is Table,
        shallow(toml_of(existing)->Ok_0),
        quotable(bridge),
        quotable(token),
        uuid is Some ==> quotable(uuid->0),
    ensures
        r is Ok,
        shallow(toml_of(r->Ok_0@)->Ok_0),
{
    assert forall|t: Seq<char>| #[trigger]
        texts_in(block_of(bridge, uuid, token)).contains(t) implies quotable(t) by {
        block_texts(bridge, uuid, token, t);
    }
    blocks_are_tableless(bridge, uuid, token);
    block_stays_shallow(
        toml_of(existing)->Ok_0,
        "vm"@,
        name,
        block_of(bridge, uuid, token),
    );
}

/// Every value outside the block is as it was, whatever its kind and however deep it stands: those
/// of the other sections, and those of the other VMs.
pub proof fn other_values_are_kept(
    existing: Seq<char>,
    name: Seq<char>,
    block: Map<Seq<char>, TomlValue>,
    text: String,
    path: Seq<Seq<char>>,
)
    requires
        upserted(existing, name, block, Ok(text)),
        path.len() > 0,
        path[0] != "vm"@ || (path.len() > 1 && path[1] != name),
    ensures
        toml_of(existing) is Ok,
        toml_of(text@) is Ok,
        value_at(toml_of(text@)->Ok_0, path) == value_at(toml_of(existing)->Ok_0, path),
{
    let root = toml_of(existing)->Ok_0;
    let rows = section_of(root, "vm"@);
    if path[0] == "vm"@ {
        let rest = path.skip(1);
        assert(rest[0] == path[1]);
        insert_leaves_others(rows, name, TomlValue::Table(block), rest);
    } else {
        insert_leaves_others(
            root,
            "vm"@,
            TomlValue::Table(rows.insert(name, TomlValue::Table(block))),
            path,
        );
    }
}

/// At the block's own path stands the block, and at the paths within it its rows.
pub proof fn block_is_set(
    existing: Seq<char>,
    name: Seq<char>,
    block: Map<Seq<char>, TomlValue>,
    text: String,
    key: Seq<char>,
)
    requires
        upserted(existing, name, block, Ok(text)),
    ensures
        value_at(toml_of(text@)->Ok_0, seq!["vm"@, name]) == Some(TomlValue::Table(block)),
        value_at(toml_of(text@)->Ok_0, seq!["vm"@, name, key]) == (if block.contains_key(key) {
            Some(block[key])
        } else {
            None
        }),
{
    let root = toml_of(text@)->Ok_0;
    let rows = root["vm"@]->Table_0;
    let two = seq!["vm"@, name];
    let three = seq!["vm"@, name, key];
    assert(two.skip(1) =~= seq![name]);
    assert(three.skip(1) =~= seq![name, key]);
    assert(three.skip(1).skip(1) =~= seq![key]);
    assert(value_at(rows, two.skip(1)) == Some(rows[name]));
    assert(value_at(block, three.skip(1).skip(1)) == (if block.contains_key(key) {
        Some(block[key])
    } else {
        None
    }));
    assert(value_at(rows, three.skip(1)) == value_at(block, three.skip(1).skip(1)));
}

/// The comments and spaces around the headers and rows outside the block stay, those of every row
/// among them.
pub proof fn layout_is_kept(
    existing: Seq<char>,
    name: Seq<char>,
    block: Map<Seq<char>, TomlValue>,
    text: String,
    path: Seq<Seq<char>>,
)
    requires
        upserted(existing, name, block, Ok(text)),
        outside(path, "vm"@, name),
        is_row(toml_of(existing)->Ok_0, path) || decor_of(existing).contains_key(path),
    ensures
        decor_of(existing).contains_key(path),
        has_both(text@, decor_of(existing)[path]),
{
}

/// Writing a block twice is the same as writing it once: there is never a second block of a name.
pub proof fn upsert_is_idempotent(
    existing: Seq<char>,
    name: Seq<char>,
    block: Map<Seq<char>, TomlValue>,
    first: String,
    second: Result<String, UpsertError>,
)
    requires
        upserted(existing, name, block, Ok(first)),
        upserted(first@, name, block, second),
    ensures
        second is Ok ==> toml_of(second->Ok_0@) == toml_of(first@),
        second is Ok || (second->Err_0 is Garbled && !shallow(toml_of(first@)->Ok_0)),
{
    let root = toml_of(existing)->Ok_0;
    let once = with_block(root, "vm"@, name, block);
    assert(section_of(once, "vm"@).insert(name, TomlValue::Table(block)) =~= section_of(
        once,
        "vm"@,
    ));
    assert(with_block(once, "vm"@, name, block) =~= once);
}

} // verus!
