use vstd::prelude::*;

use crate::conversation::{role_name, Message};
use crate::error::MyError;

verus! {

/// A text-generation service: where it listens and which model answers.
#[derive(Debug)]
pub struct Ollama {
    pub host: String,
    pub model: String,
}

/// A lower-case hexadecimal digit.
pub open spec fn hex_digit(n: int) -> char {
    seq!['0', '1', '2', '3', '4', '5', '6', '7', '8', '9', 'a', 'b', 'c', 'd', 'e', 'f'][n]
}

/// How a JSON string literal writes one character: quote and backslash
/// escaped, five control characters by name, the other control characters
/// below U+0020 as `\u00XX`, everything else as it is.
pub open spec fn json_escaped_char(c: char) -> Seq<char> {
    if c == '"' {
        seq!['\\', '"']
    } else if c == '\\' {
        seq!['\\', '\\']
    } else if c == '\x08' {
        seq!['\\', 'b']
    } else if c == '\t' {
        seq!['\\', 't']
    } else if c == '\n' {
        seq!['\\', 'n']
    } else if c == '\x0c' {
        seq!['\\', 'f']
    } else if c == '\r' {
        seq!['\\', 'r']
    } else if (c as int) < 0x20 {
        seq!['\\', 'u', '0', '0', hex_digit((c as int) / 16), hex_digit((c as int) % 16)]
    } else {
        seq![c]
    }
}

pub open spec fn json_escaped(s: Seq<char>) -> Seq<char>
    decreases s.len(),
{
    if s.len() == 0 {
        Seq::empty()
    } else {
        json_escaped(s.drop_last()) + json_escaped_char(s.last())
    }
}

/// A text as a JSON string literal.
pub open spec fn json_quoted(s: Seq<char>) -> Seq<char> {
    seq!['"'] + json_escaped(s) + seq!['"']
}

/// Relies on `serde_json::to_string` on a `str`, which writes it between
/// quotes and escapes it character by character (`format_escaped_str`);
/// serialising a `str` cannot fail.
#[verifier::external_body]
fn quote_json(s: &str) -> (r: String)
    ensures
        r@ == json_quoted(s@),
{
    serde_json::to_string(s).unwrap_or_default()
}

/// Items joined with commas, as in a JSON array.
pub open spec fn joined(items: Seq<Seq<char>>) -> Seq<char>
    decreases items.len(),
{
    if items.len() == 0 {
        Seq::empty()
    } else if items.len() == 1 {
        items[0]
    } else {
        joined(items.drop_last()) + ","@ + items.last()
    }
}

/// One message on the wire: its role and content; tool calls stay local.
pub open spec fn message_json(m: Message) -> Seq<char> {
    "{\"role\":"@ + json_quoted(role_name(m.role)) + ",\"content\":"@ + json_quoted(m.content@)
        + "}"@
}

pub open spec fn generate_body_of(model: Seq<char>, prompt: Seq<char>) -> Seq<char> {
    "{\"model\":"@ + json_quoted(model) + ",\"prompt\":"@ + json_quoted(prompt)
        + ",\"stream\":false}"@
}

pub open spec fn chat_body_of(model: Seq<char>, messages: Seq<Message>) -> Seq<char> {
    "{\"model\":"@ + json_quoted(model) + ",\"messages\":["@ + joined(
        messages.map_values(|m: Message| message_json(m)),
    ) + "],\"stream\":false}"@
}

pub open spec fn embed_body_of(model: Seq<char>, texts: Seq<String>) -> Seq<char> {
    "{\"model\":"@ + json_quoted(model) + ",\"input\":["@ + joined(
        texts.map_values(|t: String| json_quoted(t@)),
    ) + "],\"stream\":false}"@
}

proof fn lemma_joined_push(items: Seq<Seq<char>>, x: Seq<char>)
    ensures
        joined(items.push(x)) == if items.len() == 0 {
            x
        } else {
            joined(items) + ","@ + x
        },
{
    assert(items.push(x).drop_last() =~= items);
}

impl Ollama {
    /// A local service with its usual model.
    pub fn default() -> (r: Ollama)
        ensures
            r.host@ == "http://localhost:11434/api"@,
            r.model@ == "llama3.1"@,
    {
        Ollama {
            host: String::from_str("http://localhost:11434/api"),
            model: String::from_str("llama3.1"),
        }
    }

    /// The service at `instance`, whose API lives under `/api`.
    pub fn new(instance: String, model: String) -> (r: Ollama)
        ensures
            r.host@ == instance@ + "/api"@,
            r.model@ == model@,
    {
        Ollama { host: instance.concat("/api"), model }
    }

    pub fn generate_url(&self) -> (r: String)
        ensures
            r@ == self.host@ + "/generate"@,
    {
        self.host.clone().concat("/generate")
    }

    pub fn chat_url(&self) -> (r: String)
        ensures
            r@ == self.host@ + "/chat"@,
    {
        self.host.clone().concat("/chat")
    }

    pub fn embed_url(&self) -> (r: String)
        ensures
            r@ == self.host@ + "/embed"@,
    {
        self.host.clone().concat("/embed")
    }

    /// The body of a one-shot completion request.
    pub fn generate_body(&self, prompt: &str) -> (r: String)
        ensures
            r@ == generate_body_of(self.model@, prompt@),
    {
        let mut r = String::from_str("{\"model\":");
        r.append(quote_json(self.model.as_str()).as_str());
        r.append(",\"prompt\":");
        r.append(quote_json(prompt).as_str());
        r.append(",\"stream\":false}");
        r
    }

    /// The body of a chat request that carries the whole transcript.
    pub fn chat_body(&self, messages: &Vec<Message>) -> (r: String)
        ensures
            r@ == chat_body_of(self.model@, messages@),
    {
        let mut r = String::from_str("{\"model\":");
        r.append(quote_json(self.model.as_str()).as_str());
        r.append(",\"messages\":[");
        let ghost head = r@;
        let mut i: usize = 0;
        while i < messages.len()
            invariant
                i <= messages@.len(),
                r@ == head + joined(messages@.take(i as int).map_values(|m: Message| message_json(m))),
            decreases messages@.len() - i,
        {
            let m = &messages[i];
            if i > 0 {
                r.append(",");
            }
            r.append("{\"role\":");
            r.append(quote_json(m.role.as_str()).as_str());
            r.append(",\"content\":");
            r.append(quote_json(m.content.as_str()).as_str());
            r.append("}");
            proof {
                let f = |m: Message| message_json(m);
                assert(messages@.take(i + 1).map_values(f) =~= messages@.take(i as int).map_values(
                    f,
                ).push(message_json(messages@[i as int])));
                lemma_joined_push(messages@.take(i as int).map_values(f), message_json(messages@[i as int]));
            }
            i += 1;
        }
        proof {
            assert(messages@.take(messages@.len() as int) =~= messages@);
        }
        r.append("],\"stream\":false}");
        r
    }

    /// The body of a batch embedding request.
    pub fn embed_body(&self, texts: &Vec<String>) -> (r: String)
        ensures
            r@ == embed_body_of(self.model@, texts@),
    {
        let mut r = String::from_str("{\"model\":");
        r.append(quote_json(self.model.as_str()).as_str());
        r.append(",\"input\":[");
        let ghost head = r@;
        let mut i: usize = 0;
        while i < texts.len()
            invariant
                i <= texts@.len(),
                r@ == head + joined(texts@.take(i as int).map_values(|t: String| json_quoted(t@))),
            decreases texts@.len() - i,
        {
            if i > 0 {
                r.append(",");
            }
            r.append(quote_json(texts[i].as_str()).as_str());
            proof {
                let f = |t: String| json_quoted(t@);
                assert(texts@.take(i + 1).map_values(f) =~= texts@.take(i as int).map_values(f).push(
                    json_quoted(texts@[i as int]@),
                ));
                lemma_joined_push(texts@.take(i as int).map_values(f), json_quoted(texts@[i as int]@));
            }
            i += 1;
        }
        proof {
            assert(texts@.take(texts@.len() as int) =~= texts@);
        }
        r.append("],\"stream\":false}");
        r
    }
}

/// All embeddings of the batch have the length of the first.
pub open spec fn same_dimensions<U>(batch: Seq<Vec<U>>) -> bool {
    forall|i: int| 0 <= i < batch.len() ==> (#[trigger] batch[i])@.len() == batch[0]@.len()
}

/// `i` is the first embedding whose length differs from the first one's.
pub open spec fn first_odd_dimension<U>(batch: Seq<Vec<U>>, i: int) -> bool {
    &&& 0 < i < batch.len()
    &&& batch[i]@.len() != batch[0]@.len()
    &&& forall|j: int| 0 <= j < i ==> (#[trigger] batch[j])@.len() == batch[0]@.len()
}

/// Accepts a batch of embeddings only where it holds one per input text and
/// all of one length; the batch comes back as it was, in its order.
pub fn check_embeddings<U>(inputs: usize, batch: Vec<Vec<U>>) -> (r: Result<Vec<Vec<U>>, MyError>)
    ensures
        r is Ok <==> batch@.len() == inputs && same_dimensions(batch@),
        r matches Ok(v) ==> v@ == batch@,
        batch@.len() != inputs ==> r == Err::<Vec<Vec<U>>, MyError>(
            MyError::Shape { expected: inputs, actual: batch@.len() as usize },
        ),
        batch@.len() == inputs && !same_dimensions(batch@) ==> exists|i: int|
            #[trigger] first_odd_dimension(batch@, i) && r == Err::<Vec<Vec<U>>, MyError>(
                MyError::Shape {
                    expected: batch@[0]@.len() as usize,
                    actual: batch@[i]@.len() as usize,
                },
            ),
{
    if batch.len() != inputs {
        let actual = batch.len();
        return Err(MyError::Shape { expected: inputs, actual });
    }
    if batch.len() == 0 {
        return Ok(batch);
    }
    let first = batch[0].len();
    let mut i: usize = 1;
    while i < batch.len()
        invariant
            1 <= i <= batch@.len(),
            batch@.len() == inputs,
            first == batch@[0]@.len(),
            forall|j: int| 0 <= j < i ==> (#[trigger] batch@[j])@.len() == first,
        decreases batch@.len() - i,
    {
        let d = batch[i].len();
        if d != first {
            assert(first_odd_dimension(batch@, i as int));
            return Err(MyError::Shape { expected: first, actual: d });
        }
        i += 1;
    }
    Ok(batch)
}

} // verus!
