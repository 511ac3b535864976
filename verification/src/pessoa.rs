//! The person record: client input, validation, identifier minting and the
//! shape in which a record is written to and read from the store.

use crate::text::{byte_len, byte_length, contains_char, glued, join_with, lemma_pieces_of_glued, opt_text, pieces, split_on, texts};
use vstd::prelude::*;
use vstd::string::*;

verus! {

/// Longest accepted handle, in bytes.
pub const MAX_APELIDO_LEN: usize = 32;

/// Longest accepted name, in bytes.
pub const MAX_NOME_LEN: usize = 100;

/// Longest accepted tag, in bytes.
pub const MAX_STACK_ITEM_LEN: usize = 32;

/// The character that joins the tags in the store's column.
pub const STACK_SEPARATOR: char = ' ';

/// The pattern a birth date is read with: four-digit year, month, day.
pub const DATE_FORMAT: &'static str = "%Y-%m-%d";

/// Whether `chrono` reads `text` as a calendar date under the pattern `format`.
pub uninterp spec fn parses_as_date(text: Seq<char>, format: Seq<char>) -> bool;

/// Asks `chrono::NaiveDate::parse_from_str` whether `text` is a date written in
/// `format`. The answer depends on the two texts alone; nothing is claimed about
/// which texts are accepted.
#[verifier::external_body]
pub(crate) fn date_parses(text: &str, format: &str) -> (ok: bool)
    ensures
        ok == parses_as_date(text@, format@),
{
    chrono::NaiveDate::parse_from_str(text, format).is_ok()
}

/// A lower-case hexadecimal digit.
pub open spec fn is_hex_digit(c: char) -> bool {
    ('0' <= c && c <= '9') || ('a' <= c && c <= 'f')
}

/// The canonical text form of a 128-bit identifier: 32 lower-case hexadecimal
/// digits in groups of 8, 4, 4, 4 and 12, separated by hyphens.
pub open spec fn is_id_text(id: Seq<char>) -> bool {
    &&& id.len() == 36
    &&& forall|i: int|
        0 <= i < 36 ==> if i == 8 || i == 13 || i == 18 || i == 23 {
            #[trigger] id[i] == '-'
        } else {
            is_hex_digit(#[trigger] id[i])
        }
}

/// Mints an identifier with `uuid::Uuid::new_v4` and renders it with `to_string`.
/// The value is random, so only its shape is stated: `Display` for `Uuid` writes
/// the hyphenated lower-case form.
#[verifier::external_body]
pub(crate) fn mint_id() -> (id: String)
    ensures
        is_id_text(id@),
{
    uuid::Uuid::new_v4().to_string()
}

/// A handle is present and at most `MAX_APELIDO_LEN` bytes long.
pub open spec fn apelido_ok(apelido: Seq<char>) -> bool {
    0 < byte_len(apelido) <= MAX_APELIDO_LEN
}

/// A name is present and at most `MAX_NOME_LEN` bytes long.
pub open spec fn nome_ok(nome: Seq<char>) -> bool {
    0 < byte_len(nome) <= MAX_NOME_LEN
}

/// A tag is at most `MAX_STACK_ITEM_LEN` bytes long and holds no separator.
pub open spec fn stack_item_ok(item: Seq<char>) -> bool {
    byte_len(item) <= MAX_STACK_ITEM_LEN && !item.contains(STACK_SEPARATOR)
}

/// Every tag is acceptable.
pub open spec fn stack_ok(stack: Seq<Seq<char>>) -> bool {
    forall|i: int| 0 <= i < stack.len() ==> stack_item_ok(#[trigger] stack[i])
}

/// Tags are optional; where present, every one is acceptable.
pub open spec fn opt_stack_ok(stack: Option<Seq<Seq<char>>>) -> bool {
    match stack {
        Some(items) => stack_ok(items),
        None => true,
    }
}

/// The views of an optional list of tags.
pub open spec fn opt_texts(stack: Option<Vec<String>>) -> Option<Seq<Seq<char>>> {
    match stack {
        Some(items) => Some(texts(items@)),
        None => None,
    }
}

fn check_bounded(text: &str, max: usize) -> (ok: bool)
    ensures
        ok == (0 < byte_len(text@) <= max),
{
    let len = byte_length(text);
    0 < len && len <= max
}

fn check_stack_item(item: &str) -> (ok: bool)
    ensures
        ok == stack_item_ok(item@),
{
    byte_length(item) <= MAX_STACK_ITEM_LEN && !contains_char(item, STACK_SEPARATOR)
}

fn check_stack(stack: &Vec<String>) -> (ok: bool)
    ensures
        ok == stack_ok(texts(stack@)),
{
    let mut i: usize = 0;
    while i < stack.len()
        invariant
            i <= stack.len(),
            forall|j: int| 0 <= j < i ==> stack_item_ok(#[trigger] texts(stack@)[j]),
        decreases stack.len() - i,
    {
        if !check_stack_item(stack[i].as_str()) {
            assert(texts(stack@)[i as int] == stack@[i as int]@);
            return false;
        }
        assert(texts(stack@)[i as int] == stack@[i as int]@);
        i = i + 1;
    }
    true
}

/// What a client sends to create a record.
#[derive(Clone, Debug, PartialEq, Eq)]
pub struct PessoaInput {
    pub apelido: String,
    pub nome: String,
    pub nascimento: String,
    pub stack: Option<Vec<String>>,
}

/// The content of a `PessoaInput`.
pub struct PessoaInputView {
    pub apelido: Seq<char>,
    pub nome: Seq<char>,
    pub nascimento: Seq<char>,
    pub stack: Option<Seq<Seq<char>>>,
}

impl View for PessoaInput {
    type V = PessoaInputView;

    open spec fn view(&self) -> PessoaInputView {
        PessoaInputView {
            apelido: self.apelido@,
            nome: self.nome@,
            nascimento: self.nascimento@,
            stack: opt_texts(self.stack),
        }
    }
}

impl PessoaInputView {
    /// The rules that need no calendar.
    pub open spec fn fields_ok(self) -> bool {
        apelido_ok(self.apelido) && nome_ok(self.nome) && opt_stack_ok(self.stack)
    }

    /// All the validation rules.
    pub open spec fn valid(self) -> bool {
        self.fields_ok() && parses_as_date(self.nascimento, DATE_FORMAT@)
    }
}

impl PessoaInput {
    /// Applies the validation rules, given whether the birth date was read as
    /// a calendar date.
    pub fn validate_given(&self, date_ok: bool) -> (ok: bool)
        ensures
            ok == (self@.fields_ok() && date_ok),
    {
        check_bounded(self.apelido.as_str(), MAX_APELIDO_LEN) && check_bounded(
            self.nome.as_str(),
            MAX_NOME_LEN,
        ) && date_ok && match &self.stack {
            Some(stack) => check_stack(stack),
            None => true,
        }
    }

    /// Whether the input satisfies every validation rule.
    pub fn validate(&self) -> (ok: bool)
        ensures
            ok == self@.valid(),
    {
        let date_ok = date_parses(self.nascimento.as_str(), DATE_FORMAT);
        self.validate_given(date_ok)
    }
}

/// A creation request as the service takes it: absent tags have become an
/// empty list.
#[derive(Clone, Debug, PartialEq, Eq)]
pub struct CreatePessoaRequest {
    pub apelido: String,
    pub nome: String,
    pub nascimento: String,
    pub stack: Vec<String>,
}

/// The content of a `CreatePessoaRequest`.
pub struct CreatePessoaRequestView {
    pub apelido: Seq<char>,
    pub nome: Seq<char>,
    pub nascimento: Seq<char>,
    pub stack: Seq<Seq<char>>,
}

impl View for CreatePessoaRequest {
    type V = CreatePessoaRequestView;

    open spec fn view(&self) -> CreatePessoaRequestView {
        CreatePessoaRequestView {
            apelido: self.apelido@,
            nome: self.nome@,
            nascimento: self.nascimento@,
            stack: texts(self.stack@),
        }
    }
}

impl PessoaInputView {
    /// The request that this input turns into.
    pub open spec fn request(self) -> CreatePessoaRequestView {
        CreatePessoaRequestView {
            apelido: self.apelido,
            nome: self.nome,
            nascimento: self.nascimento,
            stack: match self.stack {
                Some(items) => items,
                None => Seq::empty(),
            },
        }
    }
}

impl CreatePessoaRequestView {
    /// The rules that need no calendar.
    pub open spec fn fields_ok(self) -> bool {
        apelido_ok(self.apelido) && nome_ok(self.nome) && stack_ok(self.stack)
    }

    /// All the validation rules.
    pub open spec fn valid(self) -> bool {
        self.fields_ok() && parses_as_date(self.nascimento, DATE_FORMAT@)
    }

    /// The record that this request becomes under the identifier `id`.
    pub open spec fn record(self, id: Seq<char>) -> PessoaView {
        PessoaView {
            id,
            apelido: self.apelido,
            nome: self.nome,
            nascimento: self.nascimento,
            stack: Some(self.stack),
        }
    }
}

impl CreatePessoaRequest {
    /// Turns client input into a request. Absent tags become an empty list.
    pub fn from(input: PessoaInput) -> (request: CreatePessoaRequest)
        ensures
            request@ == input@.request(),
    {
        let PessoaInput { apelido, nome, nascimento, stack } = input;
        let stack = match stack {
            Some(items) => items,
            None => Vec::new(),
        };
        proof {
            assert(texts(Seq::<String>::empty()) == Seq::<Seq<char>>::empty());
        }
        CreatePessoaRequest { apelido, nome, nascimento, stack }
    }

    /// Applies the validation rules, given whether the birth date was read as
    /// a calendar date.
    pub fn validate_given(&self, date_ok: bool) -> (ok: bool)
        ensures
            ok == (self@.fields_ok() && date_ok),
    {
        check_bounded(self.apelido.as_str(), MAX_APELIDO_LEN) && check_bounded(
            self.nome.as_str(),
            MAX_NOME_LEN,
        ) && date_ok && check_stack(&self.stack)
    }

    /// Whether the request satisfies every validation rule.
    pub fn validate(&self) -> (ok: bool)
        ensures
            ok == self@.valid(),
    {
        let date_ok = date_parses(self.nascimento.as_str(), DATE_FORMAT);
        self.validate_given(date_ok)
    }
}

/// Validity of a request is validity of the input it came from.
pub proof fn lemma_request_valid(input: PessoaInputView)
    ensures
        input.request().valid() == input.valid(),
{
}

/// A canonical record.
#[derive(Clone, Debug, PartialEq, Eq)]
pub struct Pessoa {
    pub id: String,
    pub apelido: String,
    pub nome: String,
    pub nascimento: String,
    pub stack: Option<Vec<String>>,
}

/// The content of a `Pessoa`.
pub struct PessoaView {
    pub id: Seq<char>,
    pub apelido: Seq<char>,
    pub nome: Seq<char>,
    pub nascimento: Seq<char>,
    pub stack: Option<Seq<Seq<char>>>,
}

impl View for Pessoa {
    type V = PessoaView;

    open spec fn view(&self) -> PessoaView {
        PessoaView {
            id: self.id@,
            apelido: self.apelido@,
            nome: self.nome@,
            nascimento: self.nascimento@,
            stack: opt_texts(self.stack),
        }
    }
}

/// A row of the store's table. The tags are one text, joined by a space.
#[derive(Clone, Debug, PartialEq, Eq)]
pub struct PessoaRow {
    pub id: String,
    pub nome: String,
    pub apelido: String,
    pub nascimento: String,
    pub stack: Option<String>,
}

/// The content of a `PessoaRow`.
pub struct PessoaRowView {
    pub id: Seq<char>,
    pub nome: Seq<char>,
    pub apelido: Seq<char>,
    pub nascimento: Seq<char>,
    pub stack: Option<Seq<char>>,
}

impl View for PessoaRow {
    type V = PessoaRowView;

    open spec fn view(&self) -> PessoaRowView {
        PessoaRowView {
            id: self.id@,
            nome: self.nome@,
            apelido: self.apelido@,
            nascimento: self.nascimento@,
            stack: opt_text(self.stack),
        }
    }
}

impl PessoaView {
    /// The record satisfies the rules that validation enforces on its fields.
    pub open spec fn fields_ok(self) -> bool {
        apelido_ok(self.apelido) && nome_ok(self.nome) && opt_stack_ok(self.stack)
    }

    /// The record satisfies every validation rule.
    pub open spec fn valid(self) -> bool {
        self.fields_ok() && parses_as_date(self.nascimento, DATE_FORMAT@)
    }

    /// The row under which the record is stored.
    pub open spec fn row(self) -> PessoaRowView {
        PessoaRowView {
            id: self.id,
            nome: self.nome,
            apelido: self.apelido,
            nascimento: self.nascimento,
            stack: match self.stack {
                Some(items) => Some(glued(items, STACK_SEPARATOR)),
                None => None,
            },
        }
    }
}

impl PessoaRowView {
    /// The row meets what the table asks of its columns: a handle and a name
    /// within their limits, and a birth date that reads as a calendar date.
    pub open spec fn fits_schema(self) -> bool {
        apelido_ok(self.apelido) && nome_ok(self.nome) && parses_as_date(
            self.nascimento,
            DATE_FORMAT@,
        )
    }

    /// The record that the row is read back as.
    pub open spec fn record(self) -> PessoaView {
        PessoaView {
            id: self.id,
            apelido: self.apelido,
            nome: self.nome,
            nascimento: self.nascimento,
            stack: match self.stack {
                Some(line) => Some(pieces(line, STACK_SEPARATOR)),
                None => None,
            },
        }
    }
}

impl Pessoa {
    /// The record that a request becomes under a given identifier, or `None`
    /// where the request breaks a validation rule.
    pub fn with_id(value: CreatePessoaRequest, id: String) -> (made: Option<Pessoa>)
        ensures
            made is Some <==> value@.valid(),
            made matches Some(pessoa) ==> pessoa@ == value@.record(id@),
    {
        if value.validate() {
            Some(
                Pessoa {
                    id,
                    apelido: value.apelido,
                    nome: value.nome,
                    nascimento: value.nascimento,
                    stack: Some(value.stack),
                },
            )
        } else {
            None
        }
    }

    /// Validates a request and gives it a freshly minted identifier.
    pub fn from(value: CreatePessoaRequest) -> (made: Option<Pessoa>)
        ensures
            made is Some <==> value@.valid(),
            made matches Some(pessoa) ==> is_id_text(pessoa@.id) && pessoa@ == value@.record(
                pessoa@.id,
            ),
    {
        if value.validate() {
            let id = mint_id();
            Some(
                Pessoa {
                    id,
                    apelido: value.apelido,
                    nome: value.nome,
                    nascimento: value.nascimento,
                    stack: Some(value.stack),
                },
            )
        } else {
            None
        }
    }

    /// Reads a record back from a row of the store: the tags column is cut at
    /// every space.
    pub fn from_row(row: &PessoaRow) -> (pessoa: Pessoa)
        ensures
            pessoa@ == row@.record(),
    {
        let stack = match &row.stack {
            Some(line) => Some(split_on(line.as_str(), STACK_SEPARATOR)),
            None => None,
        };
        Pessoa {
            id: row.id.clone(),
            apelido: row.apelido.clone(),
            nome: row.nome.clone(),
            nascimento: row.nascimento.clone(),
            stack,
        }
    }

    /// The row under which the record is stored: the tags are joined by a space.
    pub fn to_row(&self) -> (row: PessoaRow)
        ensures
            row@ == self@.row(),
    {
        let stack = match &self.stack {
            Some(items) => Some(join_with(items, STACK_SEPARATOR)),
            None => None,
        };
        PessoaRow {
            id: self.id.clone(),
            nome: self.nome.clone(),
            apelido: self.apelido.clone(),
            nascimento: self.nascimento.clone(),
            stack,
        }
    }
}

/// A stored record reads back as it was written: the row of a record whose
/// tags hold no space, and are absent or at least one, gives the record back.
pub proof fn lemma_row_round_trip(pessoa: PessoaView)
    requires
        opt_stack_ok(pessoa.stack),
        pessoa.stack matches Some(items) ==> items.len() >= 1,
    ensures
        pessoa.row().record() == pessoa,
{
    match pessoa.stack {
        Some(items) => {
            assert forall|i: int| 0 <= i < items.len() implies !(#[trigger] items[i]).contains(
                STACK_SEPARATOR,
            ) by {
                assert(stack_item_ok(items[i]));
            }
            lemma_pieces_of_glued(items, STACK_SEPARATOR);
        },
        None => {},
    }
}

} // verus!
