//! The documents that an export is made of, and the catalog a fresh store is
//! seeded with.

use vstd::prelude::*;
use vstd::string::StringExecFns;

verus! {

/// One exportable item. Its identity is `id`.
#[derive(Debug, Clone)]
pub struct Document {
    pub id: String,
    pub name: String,
}

/// A document as a pair of character sequences.
pub struct DocumentView {
    pub id: Seq<char>,
    pub name: Seq<char>,
}

impl View for Document {
    type V = DocumentView;

    open spec fn view(&self) -> DocumentView {
        DocumentView { id: self.id@, name: self.name@ }
    }
}

/// How many documents a fresh store holds.
pub const SEED_COUNT: u32 = 10_000;

/// The number of characters of a generated identifier.
pub const ID_LENGTH: usize = 26;

/// The character of a decimal digit.
pub open spec fn digit_char(d: nat) -> char
    recommends
        d < 10,
{
    if d == 0 {
        '0'
    } else if d == 1 {
        '1'
    } else if d == 2 {
        '2'
    } else if d == 3 {
        '3'
    } else if d == 4 {
        '4'
    } else if d == 5 {
        '5'
    } else if d == 6 {
        '6'
    } else if d == 7 {
        '7'
    } else if d == 8 {
        '8'
    } else {
        '9'
    }
}

/// A number in decimal, without sign or leading zeros.
pub open spec fn decimal(n: nat) -> Seq<char>
    decreases n,
{
    if n < 10 {
        seq![digit_char(n)]
    } else {
        decimal(n / 10).push(digit_char(n % 10))
    }
}

/// The line that describes a document: `id=<id>,name=<name>`.
pub open spec fn label_text(doc: DocumentView) -> Seq<char> {
    "id="@ + doc.id + ",name="@ + doc.name
}

/// The name of the document seeded at position `n`: `Name <n>`.
pub open spec fn seed_name(n: nat) -> Seq<char> {
    "Name "@ + decimal(n)
}

impl Document {
    /// The line that describes this document.
    pub fn label(&self) -> (text: String)
        ensures
            text@ == label_text(self@),
    {
        let mut text = String::from_str("id=");
        text.append(self.id.as_str());
        text.append(",name=");
        text.append(self.name.as_str());
        text
    }
}

fn digit_text(d: u32) -> (text: &'static str)
    requires
        d < 10,
    ensures
        text@ == seq![digit_char(d as nat)],
{
    proof {
        reveal_strlit("0");
        reveal_strlit("1");
        reveal_strlit("2");
        reveal_strlit("3");
        reveal_strlit("4");
        reveal_strlit("5");
        reveal_strlit("6");
        reveal_strlit("7");
        reveal_strlit("8");
        reveal_strlit("9");
    }
    let text = if d == 0 {
        "0"
    } else if d == 1 {
        "1"
    } else if d == 2 {
        "2"
    } else if d == 3 {
        "3"
    } else if d == 4 {
        "4"
    } else if d == 5 {
        "5"
    } else if d == 6 {
        "6"
    } else if d == 7 {
        "7"
    } else if d == 8 {
        "8"
    } else {
        "9"
    };
    assert(text@ =~= seq![digit_char(d as nat)]);
    text
}

/// Writes a number in decimal.
pub fn decimal_string(n: u32) -> (text: String)
    ensures
        text@ == decimal(n as nat),
{
    let mut text = String::from_str(digit_text(n % 10));
    let mut rest: u32 = n / 10;
    assert(decimal(n as nat) =~= (if rest > 0 {
        decimal(rest as nat)
    } else {
        Seq::empty()
    }) + text@);
    while rest > 0
        invariant
            decimal(n as nat) == (if rest > 0 {
                decimal(rest as nat)
            } else {
                Seq::empty()
            }) + text@,
        decreases rest,
    {
        let longer = String::from_str(digit_text(rest % 10)).concat(text.as_str());
        let ghost before = rest;
        rest = rest / 10;
        assert(decimal(before as nat) + text@ =~= (if rest > 0 {
            decimal(rest as nat)
        } else {
            Seq::empty()
        }) + longer@);
        text = longer;
    }
    assert(decimal(n as nat) =~= text@);
    text
}

/// The documents of an export, given what the item source answered: a
/// source that could not produce its list counts as empty.
pub fn listed_or_empty(listed: Option<Vec<Document>>) -> (documents: Vec<Document>)
    ensures
        listed matches Some(found) ==> documents == found,
        listed is None ==> documents@.len() == 0,
{
    match listed {
        Some(found) => found,
        None => Vec::new(),
    }
}

/// The document seeded at position `n` under the identifier `id`.
pub fn numbered_document(id: String, n: u32) -> (doc: Document)
    ensures
        doc@.id == id@,
        doc@.name == seed_name(n as nat),
{
    let mut name = String::from_str("Name ");
    let digits = decimal_string(n);
    name.append(digits.as_str());
    Document { id, name }
}

/// Whether a character belongs to the alphabet of generated identifiers:
/// the digits and the capital letters without I, L, O and U.
pub open spec fn is_id_char(c: char) -> bool {
    ('0' <= c && c <= '9') || ('A' <= c && c <= 'Z' && c != 'I' && c != 'L' && c != 'O' && c
        != 'U')
}

/// Whether a text has the form of a generated identifier: 26 characters of
/// the identifier alphabet.
pub open spec fn is_generated_id(id: Seq<char>) -> bool {
    &&& id.len() == ID_LENGTH
    &&& forall|i: int| 0 <= i < id.len() ==> is_id_char(#[trigger] id[i])
}

/// `ulid::Ulid::new` and `ulid::Ulid::to_string`: a new identifier, made from
/// the clock and a random number, written as 26 characters of the identifier
/// alphabet.
#[verifier::external_body]
fn fresh_id() -> (id: String)
    ensures
        is_generated_id(id@),
{
    ulid::Ulid::new().to_string()
}

/// The catalog of a fresh store: `SEED_COUNT` documents, each under a new
/// identifier, named by their position.
pub fn create_documents() -> (documents: Vec<Document>)
    ensures
        documents@.len() == SEED_COUNT,
        forall|i: int|
            0 <= i < documents@.len() ==> (#[trigger] documents@[i])@.name == seed_name(i as nat)
                && is_generated_id(documents@[i]@.id),
{
    let mut documents: Vec<Document> = Vec::new();
    let mut n: u32 = 0;
    while n < SEED_COUNT
        invariant
            n <= SEED_COUNT,
            documents@.len() == n,
            forall|i: int|
                0 <= i < documents@.len() ==> (#[trigger] documents@[i])@.name == seed_name(
                    i as nat,
                ) && is_generated_id(documents@[i]@.id),
        decreases SEED_COUNT - n,
    {
        let id = fresh_id();
        documents.push(numbered_document(id, n));
        n = n + 1;
    }
    documents
}

} // verus!
