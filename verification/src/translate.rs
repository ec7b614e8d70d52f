//! Translation through one of four services. The library decides what to
//! send (address, headers, form or JSON body) and what the answer means; the
//! application performs the HTTP exchange in between.

use vstd::prelude::*;
use crate::json::{json_at, json_get, json_str, opt_at, opt_get, opt_str, JsonValue};
use crate::settings::Settings;
use crate::text::{hex_value, lemma_hex2_value, has_suffix, hex2, ends_with, push_hex2, push_str, str_eq, trim, trim_str};
use vstd::utf8::encode_utf8;

verus! {

/// Bytes the query encoding copies unchanged: ASCII letters, digits and `-_.~`.
pub open spec fn is_query_safe(b: u8) -> bool {
    ||| 0x41 <= b <= 0x5a
    ||| 0x61 <= b <= 0x7a
    ||| 0x30 <= b <= 0x39
    ||| b == 0x2d
    ||| b == 0x5f
    ||| b == 0x2e
    ||| b == 0x7e
}

/// How the query encoding writes one byte: safe bytes as they are, a space
/// as `+`, anything else as `%XX`.
pub open spec fn query_byte_enc(b: u8) -> Seq<char> {
    if is_query_safe(b) {
        seq![b as char]
    } else if b == 0x20 {
        seq!['+']
    } else {
        seq!['%'] + hex2(b)
    }
}

pub open spec fn query_enc(bs: Seq<u8>) -> Seq<char>
    decreases bs.len(),
{
    if bs.len() == 0 {
        Seq::empty()
    } else {
        query_enc(bs.drop_last()) + query_byte_enc(bs.last())
    }
}

/// Decoding of the query encoding, read from the end: a `%` two places
/// before the end starts an escaped byte, `+` stands for a space, any other
/// character for itself.
pub open spec fn query_dec(cs: Seq<char>) -> Seq<u8>
    decreases cs.len(),
{
    if cs.len() == 0 {
        Seq::empty()
    } else if cs.len() >= 3 && cs[cs.len() - 3] == '%' {
        query_dec(cs.subrange(0, cs.len() - 3)).push(
            (hex_value(cs[cs.len() - 2]) * 16 + hex_value(cs[cs.len() - 1])) as u8,
        )
    } else if cs.last() == '+' {
        query_dec(cs.drop_last()).push(0x20u8)
    } else {
        query_dec(cs.drop_last()).push(cs.last() as u8)
    }
}

proof fn lemma_query_enc_tail(bs: Seq<u8>)
    ensures
        query_enc(bs).len() >= 1 ==> query_enc(bs).last() != '%',
        query_enc(bs).len() >= 2 ==> query_enc(bs)[query_enc(bs).len() - 2] != '%',
    decreases bs.len(),
{
    if bs.len() > 0 {
        lemma_query_enc_tail(bs.drop_last());
        lemma_hex2_value(bs.last());
        let p = query_enc(bs.drop_last());
        let cs = query_enc(bs);
        assert(cs == p + query_byte_enc(bs.last()));
        if is_query_safe(bs.last()) || bs.last() == 0x20 {
            if cs.len() >= 2 {
                assert(cs[cs.len() - 2] == p.last());
            }
        } else {
            assert(cs.last() == hex2(bs.last())[1]);
            assert(cs[cs.len() - 2] == hex2(bs.last())[0]);
        }
    }
}

/// Decoding the output of the query encoding gives back the bytes.
pub proof fn lemma_query_encoding_reversible(bs: Seq<u8>)
    ensures
        query_dec(query_enc(bs)) == bs,
    decreases bs.len(),
{
    if bs.len() > 0 {
        let init = bs.drop_last();
        let b = bs.last();
        lemma_query_encoding_reversible(init);
        lemma_query_enc_tail(init);
        lemma_hex2_value(b);
        let p = query_enc(init);
        let cs = query_enc(bs);
        assert(cs == p + query_byte_enc(b));
        if is_query_safe(b) || b == 0x20 {
            assert(cs.drop_last() =~= p);
            if cs.len() >= 3 {
                assert(cs[cs.len() - 3] == p[p.len() - 2]);
            }
            assert((b as char) as u8 == b);
            assert(is_query_safe(b) ==> (b as char) != '+');
        } else {
            assert(cs[cs.len() - 3] == '%');
            assert(cs.subrange(0, cs.len() - 3) =~= p);
            assert(cs[cs.len() - 2] == hex2(b)[0]);
            assert(cs[cs.len() - 1] == hex2(b)[1]);
        }
        assert(bs =~= init.push(b));
    }
}

/// The characters a form-encoded query value may hold: ASCII letters,
/// digits, `-_.~`, the `%` of an escape and the `+` of a space. None of the
/// separators `&`, `=` or `#` is among them.
pub open spec fn is_query_value_char(c: char) -> bool {
    ||| 'A' <= c <= 'Z'
    ||| 'a' <= c <= 'z'
    ||| '0' <= c <= '9'
    ||| c == '-'
    ||| c == '_'
    ||| c == '.'
    ||| c == '~'
    ||| c == '%'
    ||| c == '+'
}

/// Whatever bytes a text holds, its query encoding is made of query-value
/// characters only, so it never holds `&`, `=` or `#` and cannot end its
/// parameter early; and decoding it gives back every byte.
pub proof fn law_query_encoding_keeps_parameter_whole(bs: Seq<u8>)
    ensures
        forall|i: int|
            0 <= i < query_enc(bs).len() ==> is_query_value_char(#[trigger] query_enc(bs)[i]),
        !query_enc(bs).contains('&'),
        !query_enc(bs).contains('='),
        !query_enc(bs).contains('#'),
        query_dec(query_enc(bs)) == bs,
    decreases bs.len(),
{
    lemma_query_encoding_reversible(bs);
    if bs.len() > 0 {
        law_query_encoding_keeps_parameter_whole(bs.drop_last());
        let p = query_enc(bs.drop_last());
        let b = bs.last();
        let e = query_byte_enc(b);
        assert(query_enc(bs) == p + e);
        let hi = (b / 16) as nat;
        let lo = (b % 16) as nat;
        assert(is_query_value_char(crate::text::hex_digit(hi)));
        assert(is_query_value_char(crate::text::hex_digit(lo)));
        assert forall|i: int| 0 <= i < e.len() implies is_query_value_char(#[trigger] e[i]) by {
            if is_query_safe(b) {
                assert(e[i] == b as char);
            } else if b == 0x20 {
            } else {
                if i == 1 {
                    assert(e[1] == crate::text::hex_digit(hi));
                } else if i == 2 {
                    assert(e[2] == crate::text::hex_digit(lo));
                }
            }
        }
        assert forall|i: int| 0 <= i < query_enc(bs).len() implies is_query_value_char(
            #[trigger] query_enc(bs)[i],
        ) by {
            if i < p.len() {
                assert(query_enc(bs)[i] == p[i]);
            } else {
                assert(query_enc(bs)[i] == e[i - p.len()]);
            }
        }
    }
    let q = query_enc(bs);
    assert(!q.contains('&')) by {
        if q.contains('&') {
            let k = choose|k: int| 0 <= k < q.len() && q[k] == '&';
            assert(is_query_value_char(q[k]));
        }
    }
    assert(!q.contains('=')) by {
        if q.contains('=') {
            let k = choose|k: int| 0 <= k < q.len() && q[k] == '=';
            assert(is_query_value_char(q[k]));
        }
    }
    assert(!q.contains('#')) by {
        if q.contains('#') {
            let k = choose|k: int| 0 <= k < q.len() && q[k] == '#';
            assert(is_query_value_char(q[k]));
        }
    }
}

/// The Google address ends with the `q` parameter, whose value holds no `&`
/// and decodes to all of the text's bytes; the target language likewise.
pub proof fn law_google_request_carries_whole_text(text: Seq<char>, target: Seq<char>)
    ensures
        exists|q: Seq<char>, t: Seq<char>|
            google_url(text, target) == "https://translate.googleapis.com/translate_a/single?client=gtx&sl=auto&tl="@
                + t + "&dt=t&q="@ + q && !q.contains('&') && query_dec(q) == encode_utf8(text)
                && !t.contains('&') && query_dec(t) == encode_utf8(target),
{
    law_query_encoding_keeps_parameter_whole(encode_utf8(text));
    law_query_encoding_keeps_parameter_whole(encode_utf8(target));
    let q = query_enc(encode_utf8(text));
    let t = query_enc(encode_utf8(target));
    assert(google_url(text, target) == "https://translate.googleapis.com/translate_a/single?client=gtx&sl=auto&tl="@
        + t + "&dt=t&q="@ + q);
}

/// Form-encodes the UTF-8 bytes of `s` for a query string.
pub fn urlencode(s: &str) -> (out: String)
    ensures
        out@ == query_enc(encode_utf8(s@)),
{
    let bytes = s.as_bytes();
    let mut out = String::new();
    let mut i: usize = 0;
    assert(bytes@.take(0) =~= Seq::<u8>::empty());
    while i < bytes.len()
        invariant
            i <= bytes.len(),
            bytes@ == encode_utf8(s@),
            out@ == query_enc(bytes@.take(i as int)),
        decreases bytes.len() - i,
    {
        let b = bytes[i];
        if (0x41 <= b && b <= 0x5a) || (0x61 <= b && b <= 0x7a) || (0x30 <= b && b <= 0x39) || b
            == 0x2d || b == 0x5f || b == 0x2e || b == 0x7e {
            out.push(b as char);
        } else if b == 0x20 {
            out.push('+');
        } else {
            out.push('%');
            push_hex2(&mut out, b);
        }
        assert(bytes@.take(i + 1).drop_last() =~= bytes@.take(i as int));
        i = i + 1;
        assert(out@ =~= query_enc(bytes@.take(i as int)));
    }
    assert(bytes@.take(bytes.len() as int) =~= bytes@);
    out
}

/// The language code MyMemory expects for a target language.
pub open spec fn normalize_spec(t: Seq<char>) -> Seq<char> {
    if t == "zh-CN"@ || t == "zh"@ {
        "zh-CN"@
    } else if t == "ja"@ {
        "ja-JP"@
    } else if t == "ko"@ {
        "ko-KR"@
    } else if t == "fr"@ {
        "fr-FR"@
    } else if t == "de"@ {
        "de-DE"@
    } else if t == "es"@ {
        "es-ES"@
    } else {
        t
    }
}

pub fn normalize<'a>(t: &'a str) -> (r: &'a str)
    ensures
        r@ == normalize_spec(t@),
{
    if str_eq(t, "zh-CN") || str_eq(t, "zh") {
        "zh-CN"
    } else if str_eq(t, "ja") {
        "ja-JP"
    } else if str_eq(t, "ko") {
        "ko-KR"
    } else if str_eq(t, "fr") {
        "fr-FR"
    } else if str_eq(t, "de") {
        "de-DE"
    } else if str_eq(t, "es") {
        "es-ES"
    } else {
        t
    }
}

/// What `str::to_uppercase` returns for `s` (the Unicode upper-case mapping).
pub uninterp spec fn unicode_uppercase(s: Seq<char>) -> Seq<char>;

/// Calls `str::to_uppercase`; the result is named by `unicode_uppercase`.
#[verifier::external_body]
fn to_uppercase(s: &str) -> (r: String)
    ensures
        r@ == unicode_uppercase(s@),
{
    s.to_uppercase()
}

/// The language code DeepL expects for a target language. The known codes
/// map to upper-case codes; any other is upper-cased.
pub open spec fn deepl_lang_spec(t: Seq<char>) -> Seq<char> {
    if t == "zh-CN"@ || t == "zh"@ {
        "ZH"@
    } else if t == "en"@ {
        "EN-US"@
    } else if t == "ja"@ {
        "JA"@
    } else if t == "ko"@ {
        "KO"@
    } else if t == "fr"@ {
        "FR"@
    } else if t == "de"@ {
        "DE"@
    } else if t == "es"@ {
        "ES"@
    } else {
        unicode_uppercase(t)
    }
}

pub fn deepl_lang(t: &str) -> (r: String)
    ensures
        r@ == deepl_lang_spec(t@),
{
    let mut r = String::new();
    if str_eq(t, "zh-CN") || str_eq(t, "zh") {
        push_str(&mut r, "ZH");
    } else if str_eq(t, "en") {
        push_str(&mut r, "EN-US");
    } else if str_eq(t, "ja") {
        push_str(&mut r, "JA");
    } else if str_eq(t, "ko") {
        push_str(&mut r, "KO");
    } else if str_eq(t, "fr") {
        push_str(&mut r, "FR");
    } else if str_eq(t, "de") {
        push_str(&mut r, "DE");
    } else if str_eq(t, "es") {
        push_str(&mut r, "ES");
    } else {
        r = to_uppercase(t);
    }
    r
}

/// The name of a target language used in the prompt of the chat service.
pub open spec fn lang_name_spec(t: Seq<char>) -> Seq<char> {
    if t == "zh-CN"@ || t == "zh"@ {
        "简体中文"@
    } else if t == "en"@ {
        "English"@
    } else if t == "ja"@ {
        "日语"@
    } else if t == "ko"@ {
        "韩语"@
    } else if t == "fr"@ {
        "法语"@
    } else if t == "de"@ {
        "德语"@
    } else if t == "es"@ {
        "西班牙语"@
    } else {
        "目标语言"@
    }
}

pub fn lang_name(t: &str) -> (r: &'static str)
    ensures
        r@ == lang_name_spec(t@),
{
    if str_eq(t, "zh-CN") || str_eq(t, "zh") {
        "简体中文"
    } else if str_eq(t, "en") {
        "English"
    } else if str_eq(t, "ja") {
        "日语"
    } else if str_eq(t, "ko") {
        "韩语"
    } else if str_eq(t, "fr") {
        "法语"
    } else if str_eq(t, "de") {
        "德语"
    } else if str_eq(t, "es") {
        "西班牙语"
    } else {
        "目标语言"
    }
}


/// The services the tool can translate with.
#[derive(Clone, Copy, Debug, PartialEq, Eq, Structural)]
pub enum Provider {
    Google,
    MyMemory,
    DeepL,
    Custom,
}

/// The service a provider name in the settings selects; unknown names select Google.
pub open spec fn provider_spec(name: Seq<char>) -> Provider {
    if name == "mymemory"@ {
        Provider::MyMemory
    } else if name == "deepl"@ {
        Provider::DeepL
    } else if name == "custom"@ {
        Provider::Custom
    } else {
        Provider::Google
    }
}

pub fn provider(name: &str) -> (p: Provider)
    ensures
        p == provider_spec(name@),
{
    if str_eq(name, "mymemory") {
        Provider::MyMemory
    } else if str_eq(name, "deepl") {
        Provider::DeepL
    } else if str_eq(name, "custom") {
        Provider::Custom
    } else {
        Provider::Google
    }
}

#[derive(Clone, Copy, Debug, PartialEq, Eq, Structural)]
pub enum HttpMethod {
    Get,
    Post,
}

/// What a request carries besides its address and headers.
pub enum RequestBody {
    Empty,
    /// Fields sent as `application/x-www-form-urlencoded`.
    Form(Vec<(String, String)>),
    /// A JSON document.
    Json(JsonValue),
}

/// A request to a translation service.
pub struct HttpRequest {
    pub method: HttpMethod,
    pub url: String,
    pub headers: Vec<(String, String)>,
    /// A bearer token for the `Authorization` header.
    pub bearer: Option<String>,
    pub body: RequestBody,
}

/// The views of name/value pairs.
pub open spec fn pair_views(s: Seq<(String, String)>) -> Seq<(Seq<char>, Seq<char>)> {
    s.map_values(|p: (String, String)| (p.0@, p.1@))
}

fn pair(a: &str, b: &str) -> (p: (String, String))
    ensures
        p.0@ == a@,
        p.1@ == b@,
{
    let mut x = String::new();
    push_str(&mut x, a);
    let mut y = String::new();
    push_str(&mut y, b);
    (x, y)
}

/// The text to translate: `text` trimmed, or `None` when nothing is left
/// (then the translation is the empty string and no service is asked).
pub fn translation_text(text: &str) -> (r: Option<String>)
    ensures
        match r {
            Some(t) => t@ == trim(text@) && t@.len() > 0,
            None => trim(text@).len() == 0,
        },
{
    let t = trim_str(text);
    if t.as_str().is_empty() {
        None
    } else {
        Some(t)
    }
}

pub open spec fn google_url(text: Seq<char>, target: Seq<char>) -> Seq<char> {
    "https://translate.googleapis.com/translate_a/single?client=gtx&sl=auto&tl="@ + query_enc(
        encode_utf8(target),
    ) + "&dt=t&q="@ + query_enc(encode_utf8(text))
}

/// A plain GET of `url`.
pub open spec fn is_get(r: HttpRequest, url: Seq<char>) -> bool {
    &&& r.method == HttpMethod::Get
    &&& r.url@ == url
    &&& r.headers@.len() == 0
    &&& r.bearer is None
    &&& r.body is Empty
}

pub open spec fn is_google_request(r: HttpRequest, text: Seq<char>, target: Seq<char>) -> bool {
    is_get(r, google_url(text, target))
}

/// The request to Google's free endpoint.
pub fn google(text: &str, target: &str) -> (r: HttpRequest)
    ensures
        is_google_request(r, text@, target@),
{
    let mut url = String::new();
    push_str(&mut url, "https://translate.googleapis.com/translate_a/single?client=gtx&sl=auto&tl=");
    push_str(&mut url, urlencode(target).as_str());
    push_str(&mut url, "&dt=t&q=");
    push_str(&mut url, urlencode(text).as_str());
    HttpRequest {
        method: HttpMethod::Get,
        url,
        headers: Vec::new(),
        bearer: None,
        body: RequestBody::Empty,
    }
}

pub open spec fn mymemory_url(text: Seq<char>, target: Seq<char>) -> Seq<char> {
    "https://api.mymemory.translated.net/get?q="@ + query_enc(encode_utf8(text)) + "&langpair="@
        + query_enc(encode_utf8("Auto-Detect|"@ + normalize_spec(target)))
}

/// The request to MyMemory, which detects the source language itself.
pub fn mymemory(text: &str, target: &str) -> (r: HttpRequest)
    ensures
        is_get(r, mymemory_url(text@, target@)),
{
    let mut pair_text = String::new();
    push_str(&mut pair_text, "Auto-Detect|");
    push_str(&mut pair_text, normalize(target));
    let mut url = String::new();
    push_str(&mut url, "https://api.mymemory.translated.net/get?q=");
    push_str(&mut url, urlencode(text).as_str());
    push_str(&mut url, "&langpair=");
    push_str(&mut url, urlencode(pair_text.as_str()).as_str());
    HttpRequest {
        method: HttpMethod::Get,
        url,
        headers: Vec::new(),
        bearer: None,
        body: RequestBody::Empty,
    }
}

/// The DeepL host for a key: the free API for keys ending in `:fx`.
pub open spec fn deepl_base(key: Seq<char>) -> Seq<char> {
    if has_suffix(key, ":fx"@) {
        "https://api-free.deepl.com"@
    } else {
        "https://api.deepl.com"@
    }
}

/// The DeepL request: a form POST authorised by the key.
pub open spec fn is_deepl_request(
    req: HttpRequest,
    text: Seq<char>,
    target: Seq<char>,
    key: Seq<char>,
) -> bool {
    &&& req.method == HttpMethod::Post
    &&& req.url@ == deepl_base(key) + "/v2/translate"@
    &&& pair_views(req.headers@) == seq![("Authorization"@, "DeepL-Auth-Key "@ + key)]
    &&& req.bearer is None
    &&& match req.body {
        RequestBody::Form(f) => pair_views(f@) == seq![
            ("text"@, text),
            ("target_lang"@, deepl_lang_spec(target)),
        ],
        _ => false,
    }
}

pub open spec fn deepl_key_missing_text() -> Seq<char> {
    "DeepL 需要填写 API Key"@
}

/// The request to DeepL, or the message that no key is configured.
pub fn deepl(text: &str, target: &str, key: &str) -> (r: Result<HttpRequest, String>)
    ensures
        match r {
            Ok(req) => key@.len() > 0 && is_deepl_request(req, text@, target@, key@),
            Err(m) => key@.len() == 0 && m@ == deepl_key_missing_text(),
        },
{
    if key.is_empty() {
        let mut m = String::new();
        push_str(&mut m, "DeepL 需要填写 API Key");
        return Err(m);
    }
    let mut url = String::new();
    if ends_with(key, ":fx") {
        push_str(&mut url, "https://api-free.deepl.com");
    } else {
        push_str(&mut url, "https://api.deepl.com");
    }
    push_str(&mut url, "/v2/translate");
    let mut auth = String::new();
    push_str(&mut auth, "DeepL-Auth-Key ");
    push_str(&mut auth, key);
    let mut headers: Vec<(String, String)> = Vec::new();
    headers.push((pair("Authorization", "").0, auth));
    let mut form: Vec<(String, String)> = Vec::new();
    form.push(pair("text", text));
    let lang = deepl_lang(target);
    form.push(pair("target_lang", lang.as_str()));
    assert(pair_views(headers@) =~= seq![("Authorization"@, "DeepL-Auth-Key "@ + key@)]);
    assert(pair_views(form@) =~= seq![("text"@, text@), ("target_lang"@, deepl_lang_spec(target@))]);
    Ok(
        HttpRequest {
            method: HttpMethod::Post,
            url,
            headers,
            bearer: None,
            body: RequestBody::Form(form),
        },
    )
}


/// A JSON string value with text `t`.
pub open spec fn is_str(v: JsonValue, t: Seq<char>) -> bool {
    json_str(v) == Some(t)
}

/// A chat message object `{"role": role, "content": content}`.
pub open spec fn is_message(v: JsonValue, role: Seq<char>, content: Seq<char>) -> bool {
    match v {
        JsonValue::Object(e) => {
            &&& e@.len() == 2
            &&& e@[0].0@ == "role"@
            &&& is_str(e@[0].1, role)
            &&& e@[1].0@ == "content"@
            &&& is_str(e@[1].1, content)
        },
        _ => false,
    }
}

/// The system instruction of the chat request.
pub open spec fn translator_role() -> Seq<char> {
    "You are a professional translator."@
}

/// The chat request body: the model, temperature 0.2 and the system and
/// user messages.
pub open spec fn is_chat_body(v: JsonValue, model: Seq<char>, prompt: Seq<char>) -> bool {
    match v {
        JsonValue::Object(e) => {
            &&& e@.len() == 3
            &&& e@[0].0@ == "model"@
            &&& is_str(e@[0].1, model)
            &&& e@[1].0@ == "temperature"@
            &&& (match e@[1].1 {
                JsonValue::Number(n) => n@ == "0.2"@,
                _ => false,
            })
            &&& e@[2].0@ == "messages"@
            &&& match e@[2].1 {
                JsonValue::Array(a) => {
                    &&& a@.len() == 2
                    &&& is_message(a@[0], "system"@, translator_role())
                    &&& is_message(a@[1], "user"@, prompt)
                },
                _ => false,
            }
        },
        _ => false,
    }
}

/// The instruction sent to the chat service.
pub open spec fn chat_prompt(text: Seq<char>, target: Seq<char>) -> Seq<char> {
    "把下面的内容翻译成 "@ + lang_name_spec(target)
        + "。只输出译文，不要任何解释、不要保留 Markdown 代码块标记：\n\n"@ + text
}

/// The model asked for: the configured one, or `gpt-4o-mini` when blank.
pub open spec fn chat_model(model: Seq<char>) -> Seq<char> {
    if model.len() == 0 {
        "gpt-4o-mini"@
    } else {
        model
    }
}

/// The chat request: a JSON POST to the endpoint, with the key as bearer
/// token when one is configured.
pub open spec fn is_custom_request(
    req: HttpRequest,
    text: Seq<char>,
    target: Seq<char>,
    endpoint: Seq<char>,
    key: Seq<char>,
    model: Seq<char>,
) -> bool {
    &&& req.method == HttpMethod::Post
    &&& req.url@ == endpoint
    &&& req.headers@.len() == 0
    &&& match req.bearer {
        Some(b) => key.len() > 0 && b@ == key,
        None => key.len() == 0,
    }
    &&& match req.body {
        RequestBody::Json(v) => is_chat_body(v, chat_model(model), chat_prompt(text, target)),
        _ => false,
    }
}

pub open spec fn endpoint_missing_text() -> Seq<char> {
    "请填写自定义接口地址"@
}

fn string_of(s: &str) -> (r: String)
    ensures
        r@ == s@,
{
    let mut r = String::new();
    push_str(&mut r, s);
    r
}

fn message(role: &str, content: &str) -> (v: JsonValue)
    ensures
        is_message(v, role@, content@),
{
    let mut e: Vec<(String, JsonValue)> = Vec::new();
    e.push((string_of("role"), JsonValue::Str(string_of(role))));
    e.push((string_of("content"), JsonValue::Str(string_of(content))));
    JsonValue::Object(e)
}

/// The request to an OpenAI-compatible chat endpoint, or the message that
/// no endpoint is configured. The key, when given, is sent as bearer token.
pub fn custom(text: &str, target: &str, endpoint: &str, key: &str, model: &str) -> (r: Result<
    HttpRequest,
    String,
>)
    ensures
        match r {
            Ok(req) => endpoint@.len() > 0 && is_custom_request(
                req,
                text@,
                target@,
                endpoint@,
                key@,
                model@,
            ),
            Err(m) => endpoint@.len() == 0 && m@ == endpoint_missing_text(),
        },
{
    if endpoint.is_empty() {
        return Err(string_of("请填写自定义接口地址"));
    }
    let model_name = if model.is_empty() {
        string_of("gpt-4o-mini")
    } else {
        string_of(model)
    };
    let mut prompt = String::new();
    push_str(&mut prompt, "把下面的内容翻译成 ");
    push_str(&mut prompt, lang_name(target));
    push_str(&mut prompt, "。只输出译文，不要任何解释、不要保留 Markdown 代码块标记：\n\n");
    push_str(&mut prompt, text);
    let mut messages: Vec<JsonValue> = Vec::new();
    messages.push(message("system", "You are a professional translator."));
    messages.push(message("user", prompt.as_str()));
    let mut e: Vec<(String, JsonValue)> = Vec::new();
    e.push((string_of("model"), JsonValue::Str(model_name)));
    e.push((string_of("temperature"), JsonValue::Number(string_of("0.2"))));
    e.push((string_of("messages"), JsonValue::Array(messages)));
    let bearer = if key.is_empty() {
        None
    } else {
        Some(string_of(key))
    };
    Ok(
        HttpRequest {
            method: HttpMethod::Post,
            url: string_of(endpoint),
            headers: Vec::new(),
            bearer,
            body: RequestBody::Json(JsonValue::Object(e)),
        },
    )
}

/// The chat request asks for the configured model (`gpt-4o-mini` only when
/// none is configured), sends the text as the end of the user message and,
/// when a key is configured, authorises with exactly that key.
pub proof fn law_custom_request_uses_configuration(
    req: HttpRequest,
    text: Seq<char>,
    target: Seq<char>,
    endpoint: Seq<char>,
    key: Seq<char>,
    model: Seq<char>,
)
    requires
        is_custom_request(req, text, target, endpoint, key, model),
    ensures
        req.url@ == endpoint,
        key.len() > 0 ==> (req.bearer matches Some(b) && b@ == key),
        match req.body {
            RequestBody::Json(v) => {
                &&& model.len() > 0 ==> opt_str(json_get(v, "model"@)) == Some(model)
                &&& model.len() == 0 ==> opt_str(json_get(v, "model"@)) == Some("gpt-4o-mini"@)
                &&& opt_str(opt_get(opt_at(json_get(v, "messages"@), 1), "role"@)) == Some(
                    "user"@,
                )
                &&& opt_str(opt_get(opt_at(json_get(v, "messages"@), 1), "content"@)) matches Some(
                    c,
                ) && has_suffix(c, text)
            },
            _ => false,
        },
{
    broadcast use vstd::string::group_string_axioms;

    reveal_strlit("model");
    reveal_strlit("messages");
    reveal_strlit("temperature");
    reveal_strlit("role");
    reveal_strlit("content");
    match req.body {
        RequestBody::Json(v) => {
            match v {
                JsonValue::Object(e) => {
                    assert(crate::json::field_in(e@, "model"@) == Some(e@[0].1));
                    let r1 = e@.drop_first();
                    assert(r1[0] == e@[1]);
                    assert(e@[0].0@.len() != "messages"@.len());
                    assert(e@[1].0@.len() != "messages"@.len());
                    let r2 = r1.drop_first();
                    assert(r2[0] == e@[2]);
                    assert(crate::json::field_in(r2, "messages"@) == Some(e@[2].1));
                    assert(crate::json::field_in(r1, "messages"@) == crate::json::field_in(
                        r2,
                        "messages"@,
                    ));
                    assert(crate::json::field_in(e@, "messages"@) == crate::json::field_in(
                        r1,
                        "messages"@,
                    ));
                    assert(crate::json::field_in(e@, "messages"@) == Some(e@[2].1));
                    match e@[2].1 {
                        JsonValue::Array(a) => {
                            match a@[1] {
                                JsonValue::Object(m) => {
                                    assert(crate::json::field_in(m@, "role"@) == Some(m@[0].1));
                                    assert(m@[0].0@.len() != "content"@.len());
                                    let m1 = m@.drop_first();
                                    assert(m1[0] == m@[1]);
                                    assert(crate::json::field_in(m1, "content"@) == Some(m@[1].1));
                                    assert(crate::json::field_in(m@, "content"@) == crate::json::field_in(
                                        m1,
                                        "content"@,
                                    ));
                                    assert(crate::json::field_in(m@, "content"@) == Some(m@[1].1));
                                    let c = chat_prompt(text, target);
                                    assert(c.skip(c.len() - text.len()) =~= text);
                                },
                                _ => {},
                            }
                        },
                        _ => {},
                    }
                },
                _ => {},
            }
        },
        _ => {},
    }
}

/// The request for translating `text` (already trimmed and not empty) into
/// `target` with the service the settings select, or why it cannot be sent.
pub fn plan_request(text: &str, target: &str, s: &Settings) -> (r: Result<
    (Provider, HttpRequest),
    String,
>)
    ensures
        match r {
            Ok((p, req)) => {
                &&& p == provider_spec(s.translate_provider@)
                &&& match p {
                    Provider::Google => is_google_request(req, text@, target@),
                    Provider::MyMemory => is_get(req, mymemory_url(text@, target@)),
                    Provider::DeepL => s.translate_key@.len() > 0 && is_deepl_request(
                        req,
                        text@,
                        target@,
                        s.translate_key@,
                    ),
                    Provider::Custom => s.translate_endpoint@.len() > 0 && is_custom_request(
                        req,
                        text@,
                        target@,
                        s.translate_endpoint@,
                        s.translate_key@,
                        s.translate_model@,
                    ),
                }
            },
            Err(m) => match provider_spec(s.translate_provider@) {
                Provider::DeepL => s.translate_key@.len() == 0 && m@ == deepl_key_missing_text(),
                Provider::Custom => s.translate_endpoint@.len() == 0 && m@
                    == endpoint_missing_text(),
                _ => false,
            },
        },
{
    let p = provider(s.translate_provider.as_str());
    match p {
        Provider::MyMemory => Ok((p, mymemory(text, target))),
        Provider::DeepL => match deepl(text, target, s.translate_key.as_str()) {
            Ok(req) => Ok((p, req)),
            Err(m) => Err(m),
        },
        Provider::Custom => match custom(
            text,
            target,
            s.translate_endpoint.as_str(),
            s.translate_key.as_str(),
            s.translate_model.as_str(),
        ) {
            Ok(req) => Ok((p, req)),
            Err(m) => Err(m),
        },
        Provider::Google => Ok((p, google(text, target))),
    }
}


/// The texts of the first elements of the rows, one after the other.
pub open spec fn segments(rows: Seq<JsonValue>) -> Seq<char>
    decreases rows.len(),
{
    if rows.len() == 0 {
        Seq::empty()
    } else {
        segments(rows.drop_last()) + match opt_str(json_at(rows.last(), 0)) {
            Some(t) => t,
            None => Seq::empty(),
        }
    }
}

/// The translation in Google's answer: the segments of its first element.
pub open spec fn google_text(v: JsonValue) -> Seq<char> {
    match json_at(v, 0) {
        Some(JsonValue::Array(rows)) => segments(rows@),
        _ => Seq::empty(),
    }
}

pub open spec fn no_result_text() -> Seq<char> {
    "翻译服务没有返回结果（可能是网络不可用）"@
}

/// Reads Google's answer: the joined segments, or an error when there are none.
pub fn google_result(v: &JsonValue) -> (r: Result<String, String>)
    ensures
        match r {
            Ok(t) => t@ == google_text(*v) && t@.len() > 0,
            Err(m) => google_text(*v).len() == 0 && m@ == no_result_text(),
        },
{
    let mut out = String::new();
    match v.at(0) {
        Some(JsonValue::Array(rows)) => {
            let mut i: usize = 0;
            assert(rows@.take(0) =~= Seq::<JsonValue>::empty());
            while i < rows.len()
                invariant
                    i <= rows.len(),
                    out@ == segments(rows@.take(i as int)),
                decreases rows.len() - i,
            {
                let ghost prev = rows@.take(i as int);
                let ghost next = rows@.take(i + 1);
                assert(next.drop_last() =~= prev);
                assert(next.last() == rows@[i as int]);
                match rows[i].at(0) {
                    Some(seg) => match seg.as_str() {
                        Some(t) => {
                            push_str(&mut out, t.as_str());
                        },
                        None => {
                            assert(out@ =~= out@ + Seq::<char>::empty());
                        },
                    },
                    None => {
                        assert(out@ =~= out@ + Seq::<char>::empty());
                    },
                }
                i = i + 1;
            }
            assert(rows@.take(rows.len() as int) =~= rows@);
        },
        _ => {},
    }
    if out.as_str().is_empty() {
        Err(string_of("翻译服务没有返回结果（可能是网络不可用）"))
    } else {
        Ok(out)
    }
}

/// The translation MyMemory answers, if it is a string.
pub open spec fn mymemory_text(v: JsonValue) -> Option<Seq<char>> {
    opt_str(opt_get(json_get(v, "responseData"@), "translatedText"@))
}

/// The message for a failed MyMemory answer, with its details when given.
pub open spec fn mymemory_error(v: JsonValue) -> Seq<char> {
    "MyMemory 翻译失败："@ + match opt_str(json_get(v, "responseDetails"@)) {
        Some(d) => d,
        None => "未知错误"@,
    }
}

/// Reads MyMemory's answer: a non-empty translation, or the failure with its details.
pub fn mymemory_result(v: &JsonValue) -> (r: Result<String, String>)
    ensures
        match r {
            Ok(t) => mymemory_text(*v) == Some(t@) && t@.len() > 0,
            Err(m) => !(mymemory_text(*v) matches Some(t) && t.len() > 0) && m@ == mymemory_error(
                *v,
            ),
        },
{
    let translated = match v.get("responseData") {
        Some(d) => match d.get("translatedText") {
            Some(t) => t.as_str(),
            None => None,
        },
        None => None,
    };
    match translated {
        Some(t) => {
            if !t.as_str().is_empty() {
                return Ok(t.clone());
            }
        },
        None => {},
    }
    let mut m = String::new();
    push_str(&mut m, "MyMemory 翻译失败：");
    match v.get("responseDetails") {
        Some(d) => match d.as_str() {
            Some(t) => push_str(&mut m, t.as_str()),
            None => push_str(&mut m, "未知错误"),
        },
        None => push_str(&mut m, "未知错误"),
    }
    Err(m)
}

/// The translation DeepL answers, if it is a string.
pub open spec fn deepl_text(v: JsonValue) -> Option<Seq<char>> {
    opt_str(opt_get(opt_at(json_get(v, "translations"@), 0), "text"@))
}

pub open spec fn deepl_error_text() -> Seq<char> {
    "DeepL 返回异常"@
}

/// Reads DeepL's answer: the text of its first translation.
pub fn deepl_result(v: &JsonValue) -> (r: Result<String, String>)
    ensures
        match r {
            Ok(t) => deepl_text(*v) == Some(t@),
            Err(m) => deepl_text(*v) is None && m@ == deepl_error_text(),
        },
{
    let found = match v.get("translations") {
        Some(ts) => match ts.at(0) {
            Some(first) => match first.get("text") {
                Some(t) => t.as_str(),
                None => None,
            },
            None => None,
        },
        None => None,
    };
    match found {
        Some(t) => Ok(t.clone()),
        None => Err(string_of("DeepL 返回异常")),
    }
}

/// The reply of the chat service, if it is a string.
pub open spec fn chat_text(v: JsonValue) -> Option<Seq<char>> {
    opt_str(opt_get(opt_get(opt_at(json_get(v, "choices"@), 0), "message"@), "content"@))
}

/// Reads the chat service's answer: its first reply trimmed, or a message
/// quoting the whole answer (`shown` is the answer as JSON text).
pub fn custom_result(v: &JsonValue, shown: &str) -> (r: Result<String, String>)
    ensures
        match r {
            Ok(t) => chat_text(*v) matches Some(c) && t@ == trim(c),
            Err(m) => chat_text(*v) is None && m@ == "接口返回异常: "@ + shown@,
        },
{
    let found = match v.get("choices") {
        Some(cs) => match cs.at(0) {
            Some(first) => match first.get("message") {
                Some(msg) => match msg.get("content") {
                    Some(c) => c.as_str(),
                    None => None,
                },
                None => None,
            },
            None => None,
        },
        None => None,
    };
    match found {
        Some(c) => Ok(trim_str(c.as_str())),
        None => {
            let mut m = String::new();
            push_str(&mut m, "接口返回异常: ");
            push_str(&mut m, shown);
            Err(m)
        },
    }
}

/// Reads the answer of the service a request went to.
pub fn read_response(p: Provider, v: &JsonValue, shown: &str) -> (r: Result<String, String>)
    ensures
        match p {
            Provider::Google => match r {
                Ok(t) => t@ == google_text(*v) && t@.len() > 0,
                Err(m) => google_text(*v).len() == 0 && m@ == no_result_text(),
            },
            Provider::MyMemory => match r {
                Ok(t) => mymemory_text(*v) == Some(t@) && t@.len() > 0,
                Err(m) => !(mymemory_text(*v) matches Some(t) && t.len() > 0) && m@
                    == mymemory_error(*v),
            },
            Provider::DeepL => match r {
                Ok(t) => deepl_text(*v) == Some(t@),
                Err(m) => deepl_text(*v) is None && m@ == deepl_error_text(),
            },
            Provider::Custom => match r {
                Ok(t) => chat_text(*v) matches Some(c) && t@ == trim(c),
                Err(m) => chat_text(*v) is None && m@ == "接口返回异常: "@ + shown@,
            },
        },
{
    match p {
        Provider::Google => google_result(v),
        Provider::MyMemory => mymemory_result(v),
        Provider::DeepL => deepl_result(v),
        Provider::Custom => custom_result(v, shown),
    }
}

} // verus!
