//! The exchange with the local language-model server (an OpenAI-style
//! chat-completions endpoint): the request's address and body, and the
//! compressed text read back from the parsed reply.

use vstd::prelude::*;

verus! {

/// Why a compression request failed.
#[derive(Debug)]
pub enum AiError {
    /// The request could not be sent, or its reply could not be read.
    Http(String),
    /// The reply was not JSON.
    Parse(String),
    /// The reply held no text at `choices[0].message.content`.
    NoContent,
}

impl AiError {
    /// The message that describes the error.
    pub open spec fn message(self) -> Seq<char> {
        match self {
            AiError::Http(e) => "HTTP error: "@ + e@,
            AiError::Parse(e) => "Parse error: "@ + e@,
            AiError::NoContent => "No content in response"@,
        }
    }

    /// Describes the error for the log.
    pub fn to_string(&self) -> (s: String)
        ensures
            s@ == self.message(),
    {
        match self {
            AiError::Http(e) => {
                let mut s = String::from_str("HTTP error: ");
                s.append(e.as_str());
                s
            },
            AiError::Parse(e) => {
                let mut s = String::from_str("Parse error: ");
                s.append(e.as_str());
                s
            },
            AiError::NoContent => String::from_str("No content in response"),
        }
    }
}

/// `s` without the copies of `c` at its end.
pub open spec fn trim_trailing(s: Seq<char>, c: char) -> Seq<char>
    decreases s.len(),
{
    if s.len() > 0 && s.last() == c {
        trim_trailing(s.drop_last(), c)
    } else {
        s
    }
}

/// The path of the chat-completions endpoint.
pub open spec fn completions_path() -> Seq<char> {
    "/v1/chat/completions"@
}

/// The address of the chat-completions endpoint of the server at `base_url`.
pub open spec fn completions_url(base_url: Seq<char>) -> Seq<char> {
    trim_trailing(base_url, '/') + completions_path()
}

/// The address of the chat-completions endpoint of the server at
/// `base_url`, whether or not `base_url` ends in slashes.
pub fn chat_completions_url(base_url: &str) -> (url: String)
    ensures
        url@ == completions_url(base_url@),
{
    let len = base_url.unicode_len();
    let mut j: usize = len;
    assert(base_url@.subrange(0, len as int) =~= base_url@);
    while j > 0 && base_url.get_char(j - 1) == '/'
        invariant
            len == base_url@.len(),
            j <= len,
            trim_trailing(base_url@, '/') == trim_trailing(base_url@.subrange(0, j as int), '/'),
        decreases j,
    {
        assert(base_url@.subrange(0, j as int).drop_last() =~= base_url@.subrange(0, j - 1));
        j = j - 1;
    }
    let mut url = String::from_str(base_url.substring_char(0, j));
    url.append("/v1/chat/completions");
    url
}

/// Trailing slashes of the server address do not change the endpoint.
pub proof fn lemma_trailing_slash_ignored(base_url: Seq<char>)
    ensures
        completions_url(base_url.push('/')) == completions_url(base_url),
{
    assert(base_url.push('/').drop_last() =~= base_url);
}

/// A lower-case hexadecimal digit (`d < 16`).
pub open spec fn hex_digit(d: nat) -> char {
    if d < 10 {
        (48 + d) as char
    } else {
        (87 + d) as char
    }
}

/// How one character is written inside a JSON string: `"` and `\` behind a
/// backslash; backspace, tab, line feed, form feed and carriage return as
/// `\b \t \n \f \r`; the other characters below U+0020 as `\u00xx` in
/// lower-case hexadecimal; every other character as itself.
pub open spec fn escaped_char(c: char) -> Seq<char> {
    let v = c as u32;
    if c == '"' {
        seq!['\\', '"']
    } else if c == '\\' {
        seq!['\\', '\\']
    } else if v == 8 {
        seq!['\\', 'b']
    } else if v == 9 {
        seq!['\\', 't']
    } else if v == 10 {
        seq!['\\', 'n']
    } else if v == 12 {
        seq!['\\', 'f']
    } else if v == 13 {
        seq!['\\', 'r']
    } else if v < 32 {
        seq!['\\', 'u', '0', '0', hex_digit((v / 16) as nat), hex_digit((v % 16) as nat)]
    } else {
        seq![c]
    }
}

/// The characters of `s`, each written as inside a JSON string.
pub open spec fn escaped(s: Seq<char>) -> Seq<char>
    decreases s.len(),
{
    if s.len() == 0 {
        Seq::empty()
    } else {
        escaped(s.drop_last()) + escaped_char(s.last())
    }
}

/// `text` as a JSON string literal: between double quotes, each character
/// escaped as `escaped_char` says.
pub open spec fn json_string_literal(text: Seq<char>) -> Seq<char> {
    seq!['"'] + escaped(text) + seq!['"']
}

/// Calls `serde_json::to_string` on a string slice. The contract claims that
/// the call succeeds and writes `json_string_literal(text)`: serde_json writes
/// the opening quote, runs of bytes that need no escape as they are, each
/// byte that its `ESCAPE` table marks (`"`, `\` and the bytes below 0x20) as
/// the escape `escaped_char` gives, and the closing quote, into a `Vec<u8>`,
/// whose writes never fail. Bytes from 0x80 up, which make up the characters
/// outside ASCII, are never escaped.
#[verifier::external_body]
fn json_string(text: &str) -> (r: Result<String, String>)
    ensures
        r is Ok,
        r->Ok_0@ == json_string_literal(text@),
{
    match serde_json::to_string(text) {
        Ok(s) => Ok(s),
        Err(e) => Err(e.to_string()),
    }
}

/// The JSON text of the chat-completions request: the model, the system
/// instruction and the user's text as two messages, the token limit, a
/// temperature of 0 and no streaming, written compactly with the keys of
/// each object in ascending order.
pub open spec fn request_json(
    model: Seq<char>,
    system_prompt: Seq<char>,
    max_tokens: u32,
    text: Seq<char>,
) -> Seq<char> {
    "{\"max_tokens\":"@ + crate::text::decimal(max_tokens as nat) + ",\"messages\":[{\"content\":"@
        + json_string_literal(system_prompt) + ",\"role\":\"system\"},{\"content\":"@
        + json_string_literal(text) + ",\"role\":\"user\"}],\"model\":"@ + json_string_literal(
        model,
    ) + ",\"stream\":false,\"temperature\":0}"@
}

/// Escaping a character always writes at least one character, and a
/// character written as itself is neither a backslash nor a quote.
pub proof fn lemma_escaped_char_shape(c: char)
    ensures
        escaped_char(c).len() >= 1,
        escaped_char(c)[0] != '\\' ==> escaped_char(c) == seq![c] && c != '\\' && c != '"',
        escaped_char(c)[0] == '\\' ==> escaped_char(c).len() >= 2,
{
}

/// Escaping works character by character from the front as well.
pub proof fn lemma_escaped_front(s: Seq<char>)
    requires
        s.len() > 0,
    ensures
        escaped(s) == escaped_char(s[0]) + escaped(s.drop_first()),
    decreases s.len(),
{
    if s.len() == 1 {
        assert(s.drop_last() =~= Seq::<char>::empty());
        assert(s.drop_first() =~= Seq::<char>::empty());
        assert(escaped(s.drop_first()) =~= Seq::<char>::empty());
        assert(escaped(s) =~= escaped_char(s[0]) + escaped(s.drop_first()));
    } else {
        let p = s.drop_last();
        lemma_escaped_front(p);
        assert(p.drop_first() =~= s.drop_first().drop_last());
        assert(s.drop_first().last() == s.last());
        assert(escaped(s.drop_first()) == escaped(s.drop_first().drop_last()) + escaped_char(
            s.last(),
        ));
        assert(p[0] == s[0]);
        assert(escaped(s) =~= escaped_char(s[0]) + escaped(s.drop_first()));
    }
}

/// A lower-case hexadecimal digit names one value.
pub proof fn lemma_hex_digit_injective(a: nat, b: nat)
    requires
        a < 16,
        b < 16,
        hex_digit(a) == hex_digit(b),
    ensures
        a == b,
{
    assert(hex_digit(a) as u32 == if a < 10 { 48 + a } else { 87 + a });
    assert(hex_digit(b) as u32 == if b < 10 { 48 + b } else { 87 + b });
}

/// The escape of a character can be told from what follows it: two escaped
/// texts that agree start with the escape of the same character.
pub proof fn lemma_escaped_char_prefix_unique(a: char, b: char, x: Seq<char>, y: Seq<char>)
    requires
        escaped_char(a) + x == escaped_char(b) + y,
    ensures
        a == b,
        x == y,
{
    let ea = escaped_char(a);
    let eb = escaped_char(b);
    lemma_escaped_char_shape(a);
    lemma_escaped_char_shape(b);
    assert((ea + x)[0] == ea[0]);
    assert((eb + y)[0] == eb[0]);
    if ea[0] != '\\' {
        assert(a == b);
    } else {
        assert((ea + x)[1] == ea[1]);
        assert((eb + y)[1] == eb[1]);
        let va = a as u32;
        let vb = b as u32;
        if ea[1] == 'u' {
            assert(va < 32 && vb < 32);
            assert((ea + x)[4] == ea[4]);
            assert((eb + y)[4] == eb[4]);
            assert((ea + x)[5] == ea[5]);
            assert((eb + y)[5] == eb[5]);
            lemma_hex_digit_injective((va / 16) as nat, (vb / 16) as nat);
            lemma_hex_digit_injective((va % 16) as nat, (vb % 16) as nat);
            assert(va == vb);
        }
        assert(va == vb);
        assert(a == b);
    }
    assert(x =~= (ea + x).subrange(ea.len() as int, (ea + x).len() as int));
    assert(y =~= (eb + y).subrange(eb.len() as int, (eb + y).len() as int));
}

/// Escaping loses nothing: different texts have different escapes.
pub proof fn lemma_escaped_injective(s1: Seq<char>, s2: Seq<char>)
    requires
        escaped(s1) == escaped(s2),
    ensures
        s1 == s2,
    decreases s1.len(),
{
    if s1.len() == 0 {
        assert(escaped(s1) =~= Seq::<char>::empty());
        if s2.len() > 0 {
            lemma_escaped_front(s2);
            lemma_escaped_char_shape(s2[0]);
        }
        assert(s1 =~= s2);
    } else if s2.len() == 0 {
        assert(escaped(s2) =~= Seq::<char>::empty());
        lemma_escaped_front(s1);
        lemma_escaped_char_shape(s1[0]);
    } else {
        lemma_escaped_front(s1);
        lemma_escaped_front(s2);
        lemma_escaped_char_prefix_unique(
            s1[0],
            s2[0],
            escaped(s1.drop_first()),
            escaped(s2.drop_first()),
        );
        lemma_escaped_injective(s1.drop_first(), s2.drop_first());
        assert(s1 =~= seq![s1[0]] + s1.drop_first());
        assert(s2 =~= seq![s2[0]] + s2.drop_first());
    }
}

/// Escaping the text with one more character appended appends that
/// character's escape, so the escape only grows.
pub proof fn lemma_escaped_push(t: Seq<char>, c: char)
    ensures
        escaped(t.push(c)) == escaped(t) + escaped_char(c),
        escaped(t.push(c)).len() > escaped(t).len(),
{
    assert(t.push(c).drop_last() =~= t);
    lemma_escaped_char_shape(c);
}

/// The request carries the user's whole text: two requests that differ
/// only in the text differ, so no part of the text can be left out.
pub proof fn lemma_request_determines_text(
    model: Seq<char>,
    system_prompt: Seq<char>,
    max_tokens: u32,
    t1: Seq<char>,
    t2: Seq<char>,
)
    requires
        request_json(model, system_prompt, max_tokens, t1) == request_json(
            model,
            system_prompt,
            max_tokens,
            t2,
        ),
    ensures
        t1 == t2,
{
    let head = "{\"max_tokens\":"@ + crate::text::decimal(max_tokens as nat)
        + ",\"messages\":[{\"content\":"@ + json_string_literal(system_prompt)
        + ",\"role\":\"system\"},{\"content\":"@;
    let tail = ",\"role\":\"user\"}],\"model\":"@ + json_string_literal(model)
        + ",\"stream\":false,\"temperature\":0}"@;
    let l1 = json_string_literal(t1);
    let l2 = json_string_literal(t2);
    let r1 = request_json(model, system_prompt, max_tokens, t1);
    let r2 = request_json(model, system_prompt, max_tokens, t2);
    assert(r1 =~= head + l1 + tail);
    assert(r2 =~= head + l2 + tail);
    assert(l1.len() == l2.len());
    assert(l1 =~= r1.subrange(head.len() as int, (head.len() + l1.len()) as int));
    assert(l2 =~= r2.subrange(head.len() as int, (head.len() + l2.len()) as int));
    assert(escaped(t1) =~= l1.subrange(1, l1.len() - 1));
    assert(escaped(t2) =~= l2.subrange(1, l2.len() - 1));
    lemma_escaped_injective(t1, t2);
}

/// Appending a character to the user's text always lengthens the request
/// by that character's escape: the text is sent whole, at every length.
pub proof fn lemma_request_grows_with_text(
    model: Seq<char>,
    system_prompt: Seq<char>,
    max_tokens: u32,
    t: Seq<char>,
    c: char,
)
    ensures
        request_json(model, system_prompt, max_tokens, t.push(c)).len() == request_json(
            model,
            system_prompt,
            max_tokens,
            t,
        ).len() + escaped_char(c).len(),
        request_json(model, system_prompt, max_tokens, t.push(c)).len() > request_json(
            model,
            system_prompt,
            max_tokens,
            t,
        ).len(),
{
    lemma_escaped_push(t, c);
}

fn json_literal_of(text: &str) -> (s: String)
    ensures
        s@ == json_string_literal(text@),
{
    match json_string(text) {
        Ok(s) => s,
        Err(_) => {
            // `json_string` never fails.
            proof {
                assert(false);
            }
            String::new()
        },
    }
}

/// The body of the chat-completions request that asks `model` to compress
/// `text` under the instruction `system_prompt`.
pub fn request_body(model: &str, system_prompt: &str, max_tokens: u32, text: &str) -> (body:
    String)
    ensures
        body@ == request_json(model@, system_prompt@, max_tokens, text@),
{
    let mut body = String::from_str("{\"max_tokens\":");
    let digits = crate::text::decimal_string(max_tokens);
    body.append(digits.as_str());
    body.append(",\"messages\":[{\"content\":");
    let sp = json_literal_of(system_prompt);
    body.append(sp.as_str());
    body.append(",\"role\":\"system\"},{\"content\":");
    let tx = json_literal_of(text);
    body.append(tx.as_str());
    body.append(",\"role\":\"user\"}],\"model\":");
    let md = json_literal_of(model);
    body.append(md.as_str());
    body.append(",\"stream\":false,\"temperature\":0}");
    body
}

/// A JSON document. Numbers are kept as the text serde_json writes for
/// them; an object keeps its members in order, and a lookup finds the first
/// member with the key.
#[derive(Debug)]
pub enum JsonValue {
    Null,
    Bool(bool),
    Number(String),
    Str(String),
    Array(Vec<JsonValue>),
    Object(Vec<(String, JsonValue)>),
}

/// The value of the first member named `key`.
pub open spec fn entry_lookup(entries: Seq<(String, JsonValue)>, key: Seq<char>) -> Option<
    JsonValue,
>
    decreases entries.len(),
{
    if entries.len() == 0 {
        None
    } else if entries[0].0@ == key {
        Some(entries[0].1)
    } else {
        entry_lookup(entries.drop_first(), key)
    }
}

/// The member `key` of an object; nothing for other values.
pub open spec fn member(v: JsonValue, key: Seq<char>) -> Option<JsonValue> {
    match v {
        JsonValue::Object(entries) => entry_lookup(entries@, key),
        _ => None,
    }
}

/// The element `i` of an array; nothing for other values.
pub open spec fn element(v: JsonValue, i: nat) -> Option<JsonValue> {
    match v {
        JsonValue::Array(items) => if i < items@.len() {
            Some(items@[i as int])
        } else {
            None
        },
        _ => None,
    }
}

/// The text at `choices[0].message.content` of a reply, when it is a string.
pub open spec fn reply_text(v: JsonValue) -> Option<Seq<char>> {
    match member(v, "choices"@) {
        Some(choices) => match element(choices, 0) {
            Some(choice) => match member(choice, "message"@) {
                Some(message) => match member(message, "content"@) {
                    Some(JsonValue::Str(s)) => Some(s@),
                    _ => None,
                },
                None => None,
            },
            None => None,
        },
        None => None,
    }
}

/// When the parsed reply holds a string at `choices[0].message.content`,
/// the reply's text is that whole string, unchanged.
pub proof fn lemma_reply_text_is_whole_content(
    v: JsonValue,
    choices: JsonValue,
    choice: JsonValue,
    message: JsonValue,
    content: String,
)
    requires
        member(v, "choices"@) == Some(choices),
        element(choices, 0) == Some(choice),
        member(choice, "message"@) == Some(message),
        member(message, "content"@) == Some(JsonValue::Str(content)),
    ensures
        reply_text(v) == Some(content@),
{
}

/// The reply's text, when there is one, is a string found at
/// `choices[0].message.content`.
pub proof fn lemma_reply_text_comes_from_content(v: JsonValue, t: Seq<char>)
    requires
        reply_text(v) == Some(t),
    ensures
        exists|choices: JsonValue, choice: JsonValue, message: JsonValue, content: String|
            {
                &&& member(v, "choices"@) == Some(choices)
                &&& element(choices, 0) == Some(choice)
                &&& member(choice, "message"@) == Some(message)
                &&& member(message, "content"@) == Some(JsonValue::Str(content))
                &&& content@ == t
            },
{
    let choices = member(v, "choices"@)->Some_0;
    let choice = element(choices, 0)->Some_0;
    let message = member(choice, "message"@)->Some_0;
    let content = member(message, "content"@)->Some_0->Str_0;
    assert(member(message, "content"@) == Some(JsonValue::Str(content)));
}

/// An object whose first member is named `key` gives that member's value.
pub proof fn lemma_first_member_found(entries: Seq<(String, JsonValue)>, key: String)
    requires
        entries.len() > 0,
        entries[0].0@ == key@,
    ensures
        entry_lookup(entries, key@) == Some(entries[0].1),
{
}

/// For every text `s`, the minimal reply
/// `{"choices":[{"message":{"content":s}}]}` gives back exactly `s`.
pub proof fn lemma_minimal_reply_gives_content(
    top: Vec<(String, JsonValue)>,
    list: Vec<JsonValue>,
    choice: Vec<(String, JsonValue)>,
    message: Vec<(String, JsonValue)>,
    choices_key: String,
    message_key: String,
    content_key: String,
    s: String,
)
    requires
        choices_key@ == "choices"@,
        message_key@ == "message"@,
        content_key@ == "content"@,
        message@ == seq![(content_key, JsonValue::Str(s))],
        choice@ == seq![(message_key, JsonValue::Object(message))],
        list@ == seq![JsonValue::Object(choice)],
        top@ == seq![(choices_key, JsonValue::Array(list))],
    ensures
        reply_text(JsonValue::Object(top)) == Some(s@),
{
    lemma_first_member_found(top@, choices_key);
    lemma_first_member_found(choice@, message_key);
    lemma_first_member_found(message@, content_key);
}

/// The member `key` of `v`, if `v` is an object that has one.
pub fn json_member<'a>(v: &'a JsonValue, key: &str) -> (r: Option<&'a JsonValue>)
    ensures
        match r {
            Some(x) => member(*v, key@) == Some(*x),
            None => member(*v, key@) is None,
        },
{
    match v {
        JsonValue::Object(entries) => {
            let key_s = String::from_str(key);
            let n = entries.len();
            let mut i: usize = 0;
            assert(entries@.subrange(0, n as int) =~= entries@);
            while i < n
                invariant
                    n == entries@.len(),
                    i <= n,
                    key_s@ == key@,
                    member(*v, key@) == entry_lookup(entries@, key@),
                    entry_lookup(entries@, key@) == entry_lookup(
                        entries@.subrange(i as int, n as int),
                        key@,
                    ),
                decreases n - i,
            {
                let entry = &entries[i];
                let ghost rest = entries@.subrange(i as int, n as int);
                assert(rest[0] == entries@[i as int]);
                if entry.0 == key_s {
                    assert(rest.len() > 0 && rest[0].0@ == key@);
                    assert(entry_lookup(rest, key@) == Some(rest[0].1));
                    return Some(&entry.1);
                }
                assert(rest.drop_first() =~= entries@.subrange(i + 1, n as int));
                i = i + 1;
            }
            None
        },
        _ => None,
    }
}

/// The element `i` of `v`, if `v` is an array that long.
pub fn json_element(v: &JsonValue, i: usize) -> (r: Option<&JsonValue>)
    ensures
        match r {
            Some(x) => element(*v, i as nat) == Some(*x),
            None => element(*v, i as nat) is None,
        },
{
    match v {
        JsonValue::Array(items) => if i < items.len() {
            Some(&items[i])
        } else {
            None
        },
        _ => None,
    }
}

/// The compressed text of a parsed reply: the string at
/// `choices[0].message.content`, or `NoContent` when there is none.
pub fn reply_content(response: &JsonValue) -> (r: Result<String, AiError>)
    ensures
        match r {
            Ok(s) => reply_text(*response) == Some(s@),
            Err(e) => reply_text(*response) is None && e is NoContent,
        },
{
    let choices = match json_member(response, "choices") {
        Some(c) => c,
        None => {
            return Err(AiError::NoContent);
        },
    };
    let choice = match json_element(choices, 0) {
        Some(c) => c,
        None => {
            return Err(AiError::NoContent);
        },
    };
    let message = match json_member(choice, "message") {
        Some(m) => m,
        None => {
            return Err(AiError::NoContent);
        },
    };
    match json_member(message, "content") {
        Some(JsonValue::Str(s)) => Ok(s.clone()),
        _ => Err(AiError::NoContent),
    }
}

#[verifier::external_type_specification]
#[verifier::external_body]
pub struct ExJsonDocument(serde_json::Value);

/// What serde_json makes of a text: the document, in the library's model
/// (numbers as serde_json writes them, each object's members in the order of
/// serde_json's map, one member per key), or the message of its error.
pub uninterp spec fn parsed_json(text: Seq<char>) -> Result<JsonValue, Seq<char>>;

/// Converts a document parsed by serde_json into the library's model,
/// variant by variant; numbers become the text serde_json writes for them.
#[verifier::external_body]
fn library_json(v: serde_json::Value) -> JsonValue {
    match v {
        serde_json::Value::Null => JsonValue::Null,
        serde_json::Value::Bool(b) => JsonValue::Bool(b),
        serde_json::Value::Number(n) => JsonValue::Number(n.to_string()),
        serde_json::Value::String(t) => JsonValue::Str(t),
        serde_json::Value::Array(items) => JsonValue::Array(items.into_iter().map(library_json).collect()),
        serde_json::Value::Object(map) => JsonValue::Object(
            map.into_iter().map(|(k, v)| (k, library_json(v))).collect(),
        ),
    }
}

/// Calls `serde_json::from_str` for a `serde_json::Value` and converts the
/// document, or the error's message. The contract claims only that the
/// outcome depends on the text alone, and names it `parsed_json`; which texts
/// parse, and to what, is left unsaid.
#[verifier::external_body]
fn parse_json(text: &str) -> (r: Result<JsonValue, String>)
    ensures
        match (r, parsed_json(text@)) {
            (Ok(v), Ok(w)) => v == w,
            (Err(e), Err(m)) => e@ == m,
            _ => false,
        },
{
    match serde_json::from_str::<serde_json::Value>(text) {
        Ok(v) => Ok(library_json(v)),
        Err(e) => Err(e.to_string()),
    }
}

/// The compressed text of the server's reply body: `Parse` with
/// serde_json's message when the body is not JSON, else the text at
/// `choices[0].message.content`, or `NoContent` when there is none.
pub fn reply_from_body(body: &str) -> (r: Result<String, AiError>)
    ensures
        match parsed_json(body@) {
            Err(m) => r matches Err(AiError::Parse(e)) && e@ == m,
            Ok(v) => match reply_text(v) {
                Some(t) => r matches Ok(u) && u@ == t,
                None => r matches Err(AiError::NoContent),
            },
        },
{
    match parse_json(body) {
        Ok(v) => reply_content(&v),
        Err(m) => Err(AiError::Parse(m)),
    }
}

} // verus!
