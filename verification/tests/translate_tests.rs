use shotly::json::JsonValue;
use shotly::settings::Settings;
use shotly::translate::{
    custom, deepl, deepl_lang, google, lang_name, mymemory, normalize, plan_request, provider,
    read_response, translation_text, urlencode, HttpMethod, Provider, RequestBody,
};

fn s(x: &str) -> String {
    x.to_string()
}
fn js(x: &str) -> JsonValue {
    JsonValue::Str(s(x))
}
fn obj(entries: Vec<(&str, JsonValue)>) -> JsonValue {
    JsonValue::Object(entries.into_iter().map(|(k, v)| (s(k), v)).collect())
}

#[test]
fn query_encoding() {
    assert_eq!(urlencode("Hello world"), "Hello+world");
    assert_eq!(urlencode("a/b+c"), "a%2Fb%2Bc");
    assert_eq!(urlencode("你好"), "%E4%BD%A0%E5%A5%BD");
    assert_eq!(urlencode("Auto-Detect|zh-CN"), "Auto-Detect%7Czh-CN");
}

#[test]
fn language_codes() {
    assert_eq!(normalize("zh"), "zh-CN");
    assert_eq!(normalize("zh-CN"), "zh-CN");
    assert_eq!(normalize("ja"), "ja-JP");
    assert_eq!(normalize("ko"), "ko-KR");
    assert_eq!(normalize("fr"), "fr-FR");
    assert_eq!(normalize("de"), "de-DE");
    assert_eq!(normalize("es"), "es-ES");
    assert_eq!(normalize("en"), "en");
    assert_eq!(deepl_lang("zh"), "ZH");
    assert_eq!(deepl_lang("en"), "EN-US");
    assert_eq!(deepl_lang("ja"), "JA");
    assert_eq!(deepl_lang("it"), "IT");
    assert_eq!(deepl_lang("pt-br"), "PT-BR");
    assert_eq!(lang_name("zh-CN"), "简体中文");
    assert_eq!(lang_name("en"), "English");
    assert_eq!(lang_name("es"), "西班牙语");
    assert_eq!(lang_name("xx"), "目标语言");
}

#[test]
fn providers() {
    assert_eq!(provider("google"), Provider::Google);
    assert_eq!(provider("mymemory"), Provider::MyMemory);
    assert_eq!(provider("deepl"), Provider::DeepL);
    assert_eq!(provider("custom"), Provider::Custom);
    assert_eq!(provider("bing"), Provider::Google);
}

#[test]
fn blank_text_needs_no_request() {
    assert_eq!(translation_text("  \n"), None);
    assert_eq!(translation_text(" hi "), Some(s("hi")));
}

#[test]
fn google_and_mymemory_requests() {
    let r = google("a b", "zh-CN");
    assert_eq!(r.method, HttpMethod::Get);
    assert_eq!(
        r.url,
        "https://translate.googleapis.com/translate_a/single?client=gtx&sl=auto&tl=zh-CN&dt=t&q=a+b"
    );
    assert!(r.headers.is_empty() && r.bearer.is_none());
    let r = mymemory("hi", "ja");
    assert_eq!(r.url, "https://api.mymemory.translated.net/get?q=hi&langpair=Auto-Detect%7Cja-JP");
}

#[test]
fn deepl_requests() {
    assert_eq!(deepl("hi", "zh", "").err().unwrap(), "DeepL 需要填写 API Key");
    let r = deepl("hi", "zh", "abc:fx").ok().unwrap();
    assert_eq!(r.method, HttpMethod::Post);
    assert_eq!(r.url, "https://api-free.deepl.com/v2/translate");
    assert_eq!(r.headers, vec![(s("Authorization"), s("DeepL-Auth-Key abc:fx"))]);
    match r.body {
        RequestBody::Form(f) => assert_eq!(f, vec![(s("text"), s("hi")), (s("target_lang"), s("ZH"))]),
        _ => panic!("form expected"),
    }
    let r = deepl("hi", "en", "k").ok().unwrap();
    assert_eq!(r.url, "https://api.deepl.com/v2/translate");
}

#[test]
fn custom_requests() {
    assert_eq!(custom("hi", "en", "", "k", "m").err().unwrap(), "请填写自定义接口地址");
    let r = custom("你好", "en", "https://x/v1/chat", "", "").ok().unwrap();
    assert_eq!(r.url, "https://x/v1/chat");
    assert!(r.bearer.is_none());
    let JsonValue::Object(e) = r.body_json() else { panic!() };
    assert_eq!(e[0].0, "model");
    assert!(matches!(&e[0].1, JsonValue::Str(m) if m == "gpt-4o-mini"));
    assert!(matches!(&e[1].1, JsonValue::Number(n) if n == "0.2"));
    let JsonValue::Array(msgs) = &e[2].1 else { panic!() };
    let JsonValue::Object(user) = &msgs[1] else { panic!() };
    assert!(matches!(&user[1].1, JsonValue::Str(p) if p == "把下面的内容翻译成 English。只输出译文，不要任何解释、不要保留 Markdown 代码块标记：\n\n你好"));
    let r = custom("x", "zh", "https://x", "sk-1", "qwen").ok().unwrap();
    assert_eq!(r.bearer, Some(s("sk-1")));
}

trait BodyJson {
    fn body_json(self) -> JsonValue;
}
impl BodyJson for shotly::translate::HttpRequest {
    fn body_json(self) -> JsonValue {
        match self.body {
            RequestBody::Json(v) => v,
            _ => panic!("json expected"),
        }
    }
}

#[test]
fn plans_follow_settings() {
    let mut st = Settings::default();
    let (p, r) = plan_request("hi", "ja", &st).ok().unwrap();
    assert_eq!(p, Provider::Google);
    assert_eq!(r.url, google("hi", "ja").url);
    st.translate_provider = s("deepl");
    assert_eq!(plan_request("hi", "ja", &st).err().unwrap(), "DeepL 需要填写 API Key");
    st.translate_provider = s("custom");
    assert_eq!(plan_request("hi", "ja", &st).err().unwrap(), "请填写自定义接口地址");
    st.translate_endpoint = s("https://e");
    let (p, r) = plan_request("hi", "ja", &st).ok().unwrap();
    assert_eq!(p, Provider::Custom);
    assert_eq!(r.url, "https://e");
    st.translate_provider = s("mymemory");
    assert_eq!(plan_request("hi", "ja", &st).ok().unwrap().0, Provider::MyMemory);
}

#[test]
fn google_answers() {
    let v = JsonValue::Array(vec![
        JsonValue::Array(vec![
            JsonValue::Array(vec![js("你好，"), js("Hello, ")]),
            JsonValue::Array(vec![JsonValue::Null]),
            JsonValue::Array(vec![js("世界"), js("world")]),
        ]),
        JsonValue::Null,
        js("en"),
    ]);
    assert_eq!(read_response(Provider::Google, &v, "").unwrap(), "你好，世界");
    assert_eq!(
        read_response(Provider::Google, &JsonValue::Null, "").unwrap_err(),
        "翻译服务没有返回结果（可能是网络不可用）"
    );
}

#[test]
fn mymemory_answers() {
    let ok = obj(vec![("responseData", obj(vec![("translatedText", js("Bonjour"))]))]);
    assert_eq!(read_response(Provider::MyMemory, &ok, "").unwrap(), "Bonjour");
    let empty = obj(vec![
        ("responseData", obj(vec![("translatedText", js(""))])),
        ("responseDetails", js("QUOTA EXCEEDED")),
    ]);
    assert_eq!(
        read_response(Provider::MyMemory, &empty, "").unwrap_err(),
        "MyMemory 翻译失败：QUOTA EXCEEDED"
    );
    assert_eq!(
        read_response(Provider::MyMemory, &obj(vec![]), "").unwrap_err(),
        "MyMemory 翻译失败：未知错误"
    );
}

#[test]
fn deepl_and_chat_answers() {
    let v = obj(vec![(
        "translations",
        JsonValue::Array(vec![obj(vec![("detected_source_language", js("EN")), ("text", js("Hallo"))])]),
    )]);
    assert_eq!(read_response(Provider::DeepL, &v, "").unwrap(), "Hallo");
    assert_eq!(read_response(Provider::DeepL, &obj(vec![]), "").unwrap_err(), "DeepL 返回异常");
    let v = obj(vec![(
        "choices",
        JsonValue::Array(vec![obj(vec![("message", obj(vec![("role", js("assistant")), ("content", js("  Hi \n"))]))])]),
    )]);
    assert_eq!(read_response(Provider::Custom, &v, "").unwrap(), "Hi");
    assert_eq!(
        read_response(Provider::Custom, &obj(vec![("error", js("x"))]), "{\"error\":\"x\"}").unwrap_err(),
        "接口返回异常: {\"error\":\"x\"}"
    );
}

fn query_decode(s: &str) -> Vec<u8> {
    let b = s.as_bytes();
    let mut out = Vec::new();
    let mut i = 0;
    while i < b.len() {
        match b[i] {
            b'%' => {
                out.push(u8::from_str_radix(&s[i + 1..i + 3], 16).unwrap());
                i += 3;
            }
            b'+' => {
                out.push(b' ');
                i += 1;
            }
            c => {
                out.push(c);
                i += 1;
            }
        }
    }
    out
}

#[test]
fn query_encoding_is_reversible() {
    for t in ["a + b = c", "100% 翻译", "line\nbreak", "~_-."] {
        let e = urlencode(t);
        assert!(e.bytes().all(|c| c.is_ascii_alphanumeric() || b"-_.~%+".contains(&c)));
        assert_eq!(query_decode(&e), t.as_bytes());
    }
}
