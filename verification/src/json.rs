//! The canonical JSON form of a record and of a list of records.
//!
//! The form is the response body of a read and the value held by the cache.
//! Quoting and escaping of a text is left to `serde_json`; the framing of
//! objects and arrays is written here.

use crate::pessoa::{Pessoa, PessoaView};
use crate::text::{glued, opt_text, texts};
use vstd::prelude::*;
use vstd::string::*;

verus! {

/// The JSON string literal that `serde_json` writes for `text`, quotes and
/// escapes included; `None` where it reports an error.
pub uninterp spec fn json_string(text: Seq<char>) -> Option<Seq<char>>;

/// Writes `text` as a JSON string literal with `serde_json::to_string`. The
/// outcome depends on the characters alone; an error is handed on as `None`.
#[verifier::external_body]
pub(crate) fn quote(text: &str) -> (quoted: Option<String>)
    ensures
        opt_text(quoted) == json_string(text@),
{
    serde_json::to_string(text).ok()
}

/// The literals of all of `items`, or `None` if one of them has none.
pub open spec fn json_strings(items: Seq<Seq<char>>) -> Option<Seq<Seq<char>>>
    decreases items.len(),
{
    if items.len() == 0 {
        Some(Seq::empty())
    } else {
        match (json_strings(items.drop_last()), json_string(items.last())) {
            (Some(init), Some(last)) => Some(init.push(last)),
            _ => None,
        }
    }
}

/// A JSON array of elements that are already written.
pub open spec fn json_array(elements: Seq<Seq<char>>) -> Seq<char> {
    seq!['['] + glued(elements, ',') + seq![']']
}

/// The record's object, given each member's value as already written.
pub open spec fn json_object(
    id: Seq<char>,
    apelido: Seq<char>,
    nome: Seq<char>,
    nascimento: Seq<char>,
    stack: Seq<char>,
) -> Seq<char> {
    "{\"id\":"@ + id + ",\"apelido\":"@ + apelido + ",\"nome\":"@ + nome + ",\"nascimento\":"@
        + nascimento + ",\"stack\":"@ + stack + "}"@
}

/// How the tags are written: `null` where absent, else an array of strings.
pub open spec fn stack_json(stack: Option<Seq<Seq<char>>>) -> Option<Seq<char>> {
    match stack {
        None => Some("null"@),
        Some(items) => match json_strings(items) {
            Some(quoted) => Some(json_array(quoted)),
            None => None,
        },
    }
}

/// The canonical JSON form of a record.
pub open spec fn pessoa_json(pessoa: PessoaView) -> Option<Seq<char>> {
    match (
        json_string(pessoa.id),
        json_string(pessoa.apelido),
        json_string(pessoa.nome),
        json_string(pessoa.nascimento),
        stack_json(pessoa.stack),
    ) {
        (Some(id), Some(apelido), Some(nome), Some(nascimento), Some(stack)) => Some(
            json_object(id, apelido, nome, nascimento, stack),
        ),
        _ => None,
    }
}

/// The canonical forms of all of `pessoas`, or `None` if one of them has none.
pub open spec fn pessoa_jsons(pessoas: Seq<PessoaView>) -> Option<Seq<Seq<char>>>
    decreases pessoas.len(),
{
    if pessoas.len() == 0 {
        Some(Seq::empty())
    } else {
        match (pessoa_jsons(pessoas.drop_last()), pessoa_json(pessoas.last())) {
            (Some(init), Some(last)) => Some(init.push(last)),
            _ => None,
        }
    }
}

/// The JSON array of the canonical forms of `pessoas`.
pub open spec fn pessoas_json(pessoas: Seq<PessoaView>) -> Option<Seq<char>> {
    match pessoa_jsons(pessoas) {
        Some(written) => Some(json_array(written)),
        None => None,
    }
}

/// The views of a list of records.
pub open spec fn pessoa_views(pessoas: Seq<Pessoa>) -> Seq<PessoaView> {
    Seq::new(pessoas.len(), |i: int| pessoas[i]@)
}

/// Frames already written elements as a JSON array.
pub fn write_array(elements: &Vec<String>) -> (array: String)
    ensures
        array@ == json_array(texts(elements@)),
{
    let mut array = String::new();
    array.push('[');
    let mut i: usize = 0;
    while i < elements.len()
        invariant
            i <= elements.len(),
            array@ == seq!['['] + glued(texts(elements@).take(i as int), ','),
        decreases elements.len() - i,
    {
        let ghost done = texts(elements@).take(i as int);
        let ghost next = texts(elements@).take(i + 1);
        proof {
            assert(next.drop_last() == done);
            assert(next.last() == elements@[i as int]@);
            reveal_with_fuel(glued, 2);
        }
        if i > 0 {
            array.push(',');
        }
        array.append(elements[i].as_str());
        proof {
            if i == 0 {
                assert(done == Seq::<Seq<char>>::empty());
                assert(glued(next, ',') == elements@[0]@);
            } else {
                assert(glued(next, ',') == glued(done, ',').push(',') + next.last());
            }
            assert(array@ == seq!['['] + glued(next, ','));
        }
        i = i + 1;
    }
    proof {
        assert(texts(elements@).take(elements.len() as int) == texts(elements@));
    }
    array.push(']');
    array
}

/// Frames a record's object from its members' values as already written.
pub fn write_object(id: &str, apelido: &str, nome: &str, nascimento: &str, stack: &str) -> (object:
    String)
    ensures
        object@ == json_object(id@, apelido@, nome@, nascimento@, stack@),
{
    let mut object = String::from_str("{\"id\":");
    object.append(id);
    object.append(",\"apelido\":");
    object.append(apelido);
    object.append(",\"nome\":");
    object.append(nome);
    object.append(",\"nascimento\":");
    object.append(nascimento);
    object.append(",\"stack\":");
    object.append(stack);
    object.append("}");
    object
}

/// Writes every item as a JSON string literal.
pub fn quote_all(items: &Vec<String>) -> (quoted: Option<Vec<String>>)
    ensures
        quoted is Some <==> json_strings(texts(items@)) is Some,
        quoted matches Some(literals) ==> Some(texts(literals@)) == json_strings(texts(items@)),
{
    let mut literals: Vec<String> = Vec::new();
    let mut i: usize = 0;
    proof {
        assert(texts(items@).take(0) == Seq::<Seq<char>>::empty());
        assert(texts(literals@) == Seq::<Seq<char>>::empty());
    }
    while i < items.len()
        invariant
            i <= items.len(),
            json_strings(texts(items@).take(i as int)) == Some(texts(literals@)),
        decreases items.len() - i,
    {
        let ghost done = texts(items@).take(i as int);
        let ghost next = texts(items@).take(i + 1);
        proof {
            assert(next.drop_last() == done);
            assert(next.last() == items@[i as int]@);
        }
        match quote(items[i].as_str()) {
            Some(literal) => {
                let ghost before = texts(literals@);
                let ghost added = literal@;
                literals.push(literal);
                proof {
                    assert(texts(literals@) == before.push(added));
                }
            },
            None => {
                proof {
                    lemma_json_strings_prefix(texts(items@), i + 1);
                }
                return None;
            },
        }
        i = i + 1;
    }
    proof {
        assert(texts(items@).take(items.len() as int) == texts(items@));
    }
    Some(literals)
}

/// If a prefix of `items` cannot be written, neither can `items`.
pub proof fn lemma_json_strings_prefix(items: Seq<Seq<char>>, n: int)
    requires
        0 <= n <= items.len(),
        json_strings(items.take(n)) is None,
    ensures
        json_strings(items) is None,
    decreases items.len(),
{
    if n < items.len() {
        assert(items.drop_last().take(n) == items.take(n));
        lemma_json_strings_prefix(items.drop_last(), n);
    } else {
        assert(items.take(n) == items);
    }
}

/// If a prefix of `pessoas` cannot be written, neither can `pessoas`.
pub proof fn lemma_pessoa_jsons_prefix(pessoas: Seq<PessoaView>, n: int)
    requires
        0 <= n <= pessoas.len(),
        pessoa_jsons(pessoas.take(n)) is None,
    ensures
        pessoa_jsons(pessoas) is None,
    decreases pessoas.len(),
{
    if n < pessoas.len() {
        assert(pessoas.drop_last().take(n) == pessoas.take(n));
        lemma_pessoa_jsons_prefix(pessoas.drop_last(), n);
    } else {
        assert(pessoas.take(n) == pessoas);
    }
}

impl Pessoa {
    /// The canonical JSON form of the record, or `None` where a field cannot
    /// be written.
    pub fn to_json(&self) -> (json: Option<String>)
        ensures
            opt_text(json) == pessoa_json(self@),
    {
        let id = match quote(self.id.as_str()) {
            Some(literal) => literal,
            None => { return None; },
        };
        let apelido = match quote(self.apelido.as_str()) {
            Some(literal) => literal,
            None => { return None; },
        };
        let nome = match quote(self.nome.as_str()) {
            Some(literal) => literal,
            None => { return None; },
        };
        let nascimento = match quote(self.nascimento.as_str()) {
            Some(literal) => literal,
            None => { return None; },
        };
        let stack = match &self.stack {
            None => String::from_str("null"),
            Some(items) => match quote_all(items) {
                Some(literals) => write_array(&literals),
                None => { return None; },
            },
        };
        Some(
            write_object(
                id.as_str(),
                apelido.as_str(),
                nome.as_str(),
                nascimento.as_str(),
                stack.as_str(),
            ),
        )
    }
}

/// The JSON array of the canonical forms of `pessoas`, or `None` where one of
/// them cannot be written.
pub fn to_json_array(pessoas: &Vec<Pessoa>) -> (json: Option<String>)
    ensures
        opt_text(json) == pessoas_json(pessoa_views(pessoas@)),
{
    let mut written: Vec<String> = Vec::new();
    let mut i: usize = 0;
    proof {
        assert(pessoa_views(pessoas@).take(0) == Seq::<PessoaView>::empty());
        assert(texts(written@) == Seq::<Seq<char>>::empty());
    }
    while i < pessoas.len()
        invariant
            i <= pessoas.len(),
            pessoa_jsons(pessoa_views(pessoas@).take(i as int)) == Some(texts(written@)),
        decreases pessoas.len() - i,
    {
        let ghost done = pessoa_views(pessoas@).take(i as int);
        let ghost next = pessoa_views(pessoas@).take(i + 1);
        proof {
            assert(next.drop_last() == done);
            assert(next.last() == pessoas@[i as int]@);
        }
        match pessoas[i].to_json() {
            Some(object) => {
                let ghost before = texts(written@);
                let ghost added = object@;
                written.push(object);
                proof {
                    assert(texts(written@) == before.push(added));
                }
            },
            None => {
                proof {
                    lemma_pessoa_jsons_prefix(pessoa_views(pessoas@), i + 1);
                }
                return None;
            },
        }
        i = i + 1;
    }
    proof {
        assert(pessoa_views(pessoas@).take(pessoas.len() as int) == pessoa_views(pessoas@));
    }
    Some(write_array(&written))
}

} // verus!
