use wick_components::completion::{completion_end, completion_step, is_done_marker, parse_completion, read_chunk, Chunk};
use wick_components::framing::{frame, FrameAction, PacketKind, StreamMode};
use wick_components::globs::includes_glob;
use wick_components::handlers::{csv_packet, hmac_of_bytes, hmac_of_string};
use wick_components::http::{RequestMiddlewareResponse, Strings};
use wick_components::http_headers::apply_header;
use wick_components::infer::RootConfig;
use wick_components::llama::{
    causal_mask, next_context, read_i32, repeat_start, token_text, weight_names, Config, WeightSource,
};
use wick_components::matching::{capture, check_patterns, mask, match_, redact, redact_line};
use wick_components::stargazers::{first_page, later_page, next_action, read_link_pages, StargazerAction};
use wick_components::templates::{
    input_globals, readme_globals, render_jinja, render_liquid, render_liquid_json, render_readme, JinjaFailure,
    LiquidJsonAnswer,
};
use wick_components::unzip::{chunks, file_writes, unzip_packets, UnzipPacket};
use wick_components::uri::{parse, path_extension, uri_extension, UriFailure};
use wick_components::usps::{address_defaults, with_user_id};
use wick_components::yolo::{Model, ModelSize};

#[test]
fn regex_match_and_errors() {
    assert_eq!(match_("abc123", r"\d+"), Ok(true));
    assert_eq!(match_("abc", r"\d+"), Ok(false));
    let err = match_("abc", "(").unwrap_err();
    assert!(err.starts_with("Invalid Regex Pattern: "));
}

#[test]
fn regex_capture_groups() {
    assert_eq!(
        capture("key=value", r"(\w+)=(\w+)"),
        Ok(vec!["key=value".to_string(), "key".to_string(), "value".to_string()])
    );
    assert_eq!(capture("a", r"(b)?a"), Ok(vec!["a".to_string()]));
    assert_eq!(capture("xyz", r"\d"), Ok(vec![]));
    assert!(capture("x", "[").is_err());
}

#[test]
fn redact_masks_by_bytes() {
    assert_eq!(mask("héllo"), "XXXXXX");
    let patterns = vec![r"\d{3}-\d{4}".to_string(), "secret".to_string()];
    assert_eq!(redact_line(&patterns, "call 555-1234 for the secret".to_string()), "call XXXXXXXX for the XXXXXX");
    assert_eq!(redact_line(&patterns, "nothing here".to_string()), "nothing here");
    let lines = vec!["555-0000".to_string(), "plain".to_string()];
    assert_eq!(redact(&patterns, lines), Ok(vec!["XXXXXXXX".to_string(), "plain".to_string()]));
    let bad = vec!["ok".to_string(), "(".to_string()];
    assert!(check_patterns(&bad).is_err());
    assert!(redact(&bad, vec!["x".to_string()]).is_err());
}

#[test]
fn link_header_pages() {
    let link = "<https://api.github.com/x?page=2>; rel=\"next\", <https://api.github.com/x?page=34>; rel=\"last\"";
    assert_eq!(read_link_pages(1, link), Some(34));
    assert_eq!(read_link_pages(7, "<x?page=2>; rel=\"next\""), Some(7));
    assert_eq!(read_link_pages(1, "<x?page=99999999999>; rel=\"last\""), None);
}

#[test]
fn stargazer_paging() {
    let (s, a) = first_page(1, Some("<x?page=3>; rel=\"last\""), vec!["a".to_string()]).unwrap();
    assert_eq!((s.pages, s.page), (3, 2));
    assert!(matches!(a, StargazerAction::Fetch(2)));
    let s = later_page(s, vec!["b".to_string()]).unwrap();
    assert!(matches!(next_action(&s), StargazerAction::Fetch(3)));
    let s = later_page(s, vec!["c".to_string(), "d".to_string()]).unwrap();
    match next_action(&s) {
        StargazerAction::Send(v) => assert_eq!(v, vec!["a", "b", "c", "d"]),
        _ => panic!("all pages were read"),
    }
    let (one, a) = first_page(1, None, vec!["z".to_string()]).unwrap();
    assert_eq!(one.pages, 1);
    assert!(matches!(a, StargazerAction::Send(_)));
}

#[test]
fn usps_request_text() {
    let xml = "<AddressValidateRequest><Address/></AddressValidateRequest>";
    assert_eq!(
        with_user_id(xml, "ME"),
        Some("<AddressValidateRequest USERID=\"ME\"><Revision>1</Revision><Address/></AddressValidateRequest>".to_string())
    );
    assert_eq!(address_defaults(None, None), (String::new(), 0));
    assert_eq!(address_defaults(Some("1 Main".to_string()), Some(1234)), ("1 Main".to_string(), 1234));
}

#[test]
fn glob_includes() {
    let items = vec!["\"foo*\"".to_string(), "\"bar\"".to_string()];
    assert_eq!(includes_glob("\"FOOD\"", &items).result, Ok(true));
    assert_eq!(includes_glob("\"baz\"", &items).result, Ok(false));
    assert_eq!(includes_glob("\"b*\"", &items).result, Ok(true));
    let with_bad = vec!["\"[\"".to_string(), "\"x\"".to_string()];
    let answer = includes_glob("\"x\"", &with_bad);
    assert_eq!(answer.errors.len(), 1);
    assert_eq!(answer.result, Ok(true));
    assert!(includes_glob("\"[\"", &items).result.is_err());
}

#[test]
fn path_extensions() {
    assert_eq!(path_extension("/a/b.tar.gz"), Some("gz".to_string()));
    assert_eq!(path_extension("/a/.bashrc"), None);
    assert_eq!(path_extension("/a/b"), None);
    assert_eq!(path_extension("/a/b."), Some(String::new()));
    assert_eq!(path_extension("/a/.."), None);
    assert_eq!(path_extension("/a/b.txt/."), Some("txt".to_string()));
    for p in ["/a/b.tar.gz", "/a/.bashrc", "/a/b", "/a/b.", "/a/..", "/a/b.txt/.", "x.y/", "", "/"] {
        let expected = std::path::Path::new(p).extension().map(|e| e.to_str().unwrap().to_string());
        assert_eq!(path_extension(p), expected);
    }
    assert_eq!(uri_extension("https://x.com/a/page.html?q=1#top"), "html");
    assert_eq!(uri_extension("https://x.com/a/file.json#f"), "json");
}

#[test]
fn uri_parts() {
    let u = match parse("https://user:pw@www.example.com:8443/a/b.html?x=1&y=two&x=3#frag") {
        Ok(u) => u,
        Err(_) => panic!("parses"),
    };
    assert_eq!(u.scheme, "https");
    assert_eq!(u.host, "www.example.com");
    assert_eq!(u.host_segments, vec!["www", "example", "com"]);
    assert_eq!(u.port, Some(8443));
    assert_eq!(u.path, "/a/b.html");
    assert_eq!(u.path_segments, vec!["a", "b.html"]);
    assert_eq!(u.path_extension, "html");
    assert_eq!(u.query, "x=1&y=two&x=3");
    assert_eq!(u.query_params.get("x").cloned(), Some("3".to_string()));
    assert_eq!(u.query_params.get("y").cloned(), Some("two".to_string()));
    assert_eq!(u.fragment, Some("frag".to_string()));
    assert_eq!(u.username, Some("user".to_string()));
    assert_eq!(u.password, Some("pw".to_string()));
    let d = match parse("http://example.org") {
        Ok(u) => u,
        Err(_) => panic!("parses"),
    };
    assert_eq!(d.port, Some(80));
    assert_eq!(d.path, "/");
    assert_eq!(d.query, "");
    assert!(d.query_params.entries().is_empty());
}

#[test]
fn uri_failures() {
    match parse("not a url") {
        Err(UriFailure::Invalid(e)) => {
            assert_eq!(e.code, 400);
            assert_eq!(e.msg, "Invalid URL");
        }
        _ => panic!("refused"),
    }
    assert!(matches!(parse("mailto:someone@example.com"), Err(UriFailure::Unreportable)));
}

#[test]
fn completion_events() {
    assert!(is_done_marker("[DONE]"));
    assert!(!is_done_marker("{}"));
    let (n, e) = completion_step(0, Some("Hi".to_string()));
    assert_eq!(n, 1);
    assert_eq!(e.unwrap().data, "Hi");
    let (n, e) = completion_step(1, None);
    assert_eq!(n, 1);
    assert!(e.is_none());
    let end = completion_end(12);
    assert_eq!(end[0].event, "tokens");
    assert_eq!(end[0].data, "12");
    assert_eq!(end[1].data, "[DONE]");
}

#[test]
fn completion_stream() {
    let chunks = vec![
        Chunk::Content(Some("a".to_string())),
        Chunk::Content(None),
        Chunk::Content(Some("b".to_string())),
        Chunk::Done,
        Chunk::Content(Some("late".to_string())),
    ];
    let (events, count) = parse_completion(&chunks);
    assert_eq!(count, 2);
    let data: Vec<&str> = events.iter().map(|e| e.data.as_str()).collect();
    assert_eq!(data, vec!["a", "b", "2", "[DONE]"]);
    let names: Vec<&str> = events.iter().map(|e| e.event.as_str()).collect();
    assert_eq!(names, vec!["message", "message", "tokens", "message"]);
}

#[test]
fn checkpoint_header() {
    let mut bytes = Vec::new();
    for v in [288i32, 768, 6, 6, 6, -32000, 256] {
        bytes.extend_from_slice(&v.to_le_bytes());
    }
    assert_eq!(read_i32(&bytes, 20), Some(-32000));
    assert_eq!(read_i32(&bytes, 26), None);
    let c = Config::from_bytes(&bytes).unwrap();
    assert_eq!(c.dim, 288);
    assert_eq!(c.vocab_size, (-32000i32) as usize);
    assert_eq!(c.head_size(), 48);
    assert!(Config::from_bytes(&bytes[..27]).is_none());
}

#[test]
fn generation_windows() {
    assert_eq!(causal_mask(3), vec![0, 1, 1, 0, 0, 1, 0, 0, 0]);
    assert_eq!(causal_mask(0), Vec::<u8>::new());
    assert_eq!(next_context(0, 5, 256, 10), Some(0));
    assert_eq!(next_context(3, 8, 256, 10), Some(7));
    assert_eq!(next_context(3, 256, 256, 10), None);
    assert_eq!(next_context(10, 8, 256, 10), None);
    assert_eq!(repeat_start(100, 64), 36);
    assert_eq!(repeat_start(10, 64), 0);
}

#[test]
fn templates() {
    assert_eq!(render_liquid("Hi {{ name }}", "{\"name\":\"Ann\"}"), Ok("Hi Ann".to_string()));
    let bad = render_liquid("{% if %}", "{}").unwrap_err();
    assert!(bad.starts_with("Invalid template string: "));
    assert_eq!(input_globals("[1,2]"), "{\"input\":[1,2]}");
    assert_eq!(readme_globals("{\"name\":\"x\"}"), "{\"data\":{\"name\":\"x\"}}");
    assert_eq!(render_liquid("{{ input[1] }}", &input_globals("[1,2]")), Ok("2".to_string()));
    match render_jinja("{{ a }}-{{ b }}", "{\"a\":1,\"b\":\"x\"}") {
        Ok(s) => assert_eq!(s, "1-x"),
        Err(_) => panic!("renders"),
    }
    assert!(matches!(render_jinja("{% for %}", "{}"), Err(JinjaFailure::Template(_))));
}

#[test]
fn bracket_framing() {
    let nested = frame(
        StreamMode::Nested,
        &vec![PacketKind::Open, PacketKind::Data, PacketKind::Close, PacketKind::Data, PacketKind::Done, PacketKind::Data],
    );
    assert_eq!(
        nested,
        vec![FrameAction::BroadcastOpen, FrameAction::Handle, FrameAction::BroadcastClose, FrameAction::Handle]
    );
    let opens = |v: &Vec<FrameAction>| v.iter().filter(|a| **a == FrameAction::BroadcastOpen).count();
    let closes = |v: &Vec<FrameAction>| v.iter().filter(|a| **a == FrameAction::BroadcastClose).count();
    let unzip = frame(
        StreamMode::Unzip,
        &vec![PacketKind::Open, PacketKind::Open, PacketKind::Data, PacketKind::Close, PacketKind::Failure],
    );
    assert_eq!(opens(&unzip), closes(&unzip));
    assert_eq!(unzip[0], FrameAction::BroadcastOpen);
    assert_eq!(*unzip.last().unwrap(), FrameAction::BroadcastClose);
}

#[test]
fn hmac_tags() {
    let tag = hmac_of_string(b"key", "The quick brown fox jumps over the lazy dog");
    let hex: String = tag.iter().map(|b| format!("{:02x}", b)).collect();
    assert_eq!(hex, "f7bc83f430538424b13298e6aa6fb143ef4d59a14946175997479dbc2d1a3cd8");
    assert_eq!(hmac_of_bytes(b"key", b"The quick brown fox jumps over the lazy dog"), tag);
}

#[test]
fn csv_records() {
    let rows = csv_packet(b"a,b\n\"c,d\",e\n").unwrap();
    assert_eq!(rows, vec![vec!["a".to_string(), "b".to_string()], vec!["c,d".to_string(), "e".to_string()]]);
}

#[test]
fn yolo_model_sizes() {
    match Model::new(vec![1, 2], "s") {
        Ok(m) => assert!(matches!(m.size, ModelSize::S)),
        Err(_) => panic!("s is a size"),
    }
    match Model::new(vec![], "q") {
        Err(msg) => assert_eq!(msg, "invalid model size: must be n, s, m, l or x"),
        Ok(_) => panic!("q is no size"),
    }
}

#[test]
fn header_operations_on_responses() {
    let mut headers = wick_components::http::HeaderMap::new();
    headers.insert("x-a".to_string(), vec!["1".to_string()]);
    let res = wick_components::http::HttpResponse {
        version: wick_components::http::HttpVersion::Http11,
        status: wick_components::http::StatusCode::OK,
        headers,
    };
    let added = apply_header(
        RequestMiddlewareResponse::HttpResponse(res),
        "x-a",
        &Strings::String("2".to_string()),
        false,
    );
    let res = match added {
        RequestMiddlewareResponse::HttpResponse(r) => r,
        _ => panic!("a response stays a response"),
    };
    assert_eq!(res.headers.get("x-a").cloned(), Some(vec!["1".to_string(), "2".to_string()]));
    let updated = apply_header(
        RequestMiddlewareResponse::HttpResponse(res),
        "x-a",
        &Strings::StringList(vec!["3".to_string()]),
        true,
    );
    match updated {
        RequestMiddlewareResponse::HttpResponse(r) => {
            assert_eq!(r.headers.get("x-a").cloned(), Some(vec!["3".to_string()]))
        }
        _ => panic!("a response stays a response"),
    }
}

#[test]
fn readme_rendering() {
    assert_eq!(
        render_readme("name: demo\nversion: 1", "{{ data.name }} v{{ data.version }}"),
        Ok("demo v1".to_string())
    );
    assert!(render_readme("name: [", "{{ data.name }}").is_err());
}

#[test]
fn file_chunks() {
    let data: Vec<u8> = (0..2500u32).map(|i| (i % 251) as u8).collect();
    let pieces = chunks(&data, 1024);
    let sizes: Vec<usize> = pieces.iter().map(|p| p.len()).collect();
    assert_eq!(sizes, vec![1024, 1024, 452]);
    assert_eq!(pieces.concat(), data);
    assert!(chunks(&[], 1024).is_empty());
}

#[test]
fn unzip_entry_packets() {
    let entries = vec![("a.txt".to_string(), b"alpha".to_vec()), ("dir/b.bin".to_string(), vec![])];
    let packets = unzip_packets(&entries);
    assert_eq!(packets.len(), 4);
    assert!(matches!(&packets[0], UnzipPacket::Filename(n) if n == "a.txt"));
    assert!(matches!(&packets[1], UnzipPacket::Contents(d) if d == b"alpha"));
    assert!(matches!(&packets[2], UnzipPacket::Filename(n) if n == "dir/b.bin"));
    assert!(matches!(&packets[3], UnzipPacket::Contents(d) if d.is_empty()));
    assert!(unzip_packets(&vec![]).is_empty());
}

#[test]
fn unzip_file_writes() {
    let big: Vec<u8> = (0..2049u32).map(|i| (i % 7) as u8).collect();
    let entries = vec![("big".to_string(), big.clone()), ("empty".to_string(), vec![])];
    let writes = file_writes(&entries);
    assert_eq!(writes.len(), 2);
    assert_eq!(writes[0].0, "big");
    let sizes: Vec<usize> = writes[0].1.iter().map(|p| p.len()).collect();
    assert_eq!(sizes, vec![1024, 1024, 1]);
    assert_eq!(writes[0].1.concat(), big);
    assert_eq!(writes[1].0, "empty");
    assert!(writes[1].1.is_empty());
}

#[test]
fn checkpoint_weight_names() {
    let base = weight_names(0);
    let names: Vec<&str> = base.iter().map(|(n, _)| n.as_str()).collect();
    assert_eq!(
        names,
        vec!["rot.freq_cis_real", "rot.freq_cis_imag", "model.embed_tokens.weight", "lm_head.weight", "model.norm.weight"]
    );
    assert_eq!(base[3].1, WeightSource::OutputHead);
    let two = weight_names(12);
    assert_eq!(two.len(), 5 + 9 * 12);
    assert_eq!(two[5], ("model.layers.0.self_attn.q_proj.weight".to_string(), WeightSource::Query(0)));
    assert_eq!(two[9], ("model.layers.0.mlp.gate_proj.weight".to_string(), WeightSource::Gate(0)));
    assert_eq!(
        two[5 + 9 * 11 + 8],
        ("model.layers.11.post_attention_layernorm.weight".to_string(), WeightSource::FeedForwardNorm(11))
    );
}

#[test]
fn token_texts() {
    assert_eq!(token_text("\u{2581}Hello<0x0A>"), " Hello\n");
    assert_eq!(token_text("plain"), "plain");
}

#[test]
fn inference_settings() {
    let a = RootConfig::default();
    assert!(a.model_dir.is_empty() && a.model.is_empty() && a.tokenizer.is_empty());
    let b = RootConfig { model_dir: "d".to_string(), model: "m".to_string(), tokenizer: "t".to_string() };
    assert!(a != b);
    let c = RootConfig { model_dir: "d".to_string(), model: "m".to_string(), tokenizer: "t".to_string() };
    assert!(b == c);
}

#[test]
fn liquid_json_rendering() {
    match render_liquid_json("{\"greeting\":\"Hello {{ name }}\"}", "{\"name\":\"Ann\"}") {
        LiquidJsonAnswer::Output(text) => assert_eq!(text, "{\"greeting\":\"Hello Ann\"}"),
        LiquidJsonAnswer::Error(e) => panic!("{}", e),
    }
    assert!(matches!(render_liquid_json("{\"a\":\"{% if %}\"}", "{}"), LiquidJsonAnswer::Error(_)));
}

#[test]
fn liquid_json_refusals() {
    match render_liquid_json("{\"a\":\"{{ x }}\"}", "[1]") {
        LiquidJsonAnswer::Error(e) => assert!(e.starts_with("Invalid context passed to template. Expected a map, got ")),
        LiquidJsonAnswer::Output(_) => panic!("data must be an object"),
    }
    let parse_error = serde_json::from_str::<serde_json::Value>("not json").unwrap_err().to_string();
    match render_liquid_json("not json", "{}") {
        LiquidJsonAnswer::Error(e) => assert_eq!(e, parse_error),
        LiquidJsonAnswer::Output(_) => panic!("the template is not JSON"),
    }
}

#[test]
fn completion_chunks_read_from_event_data() {
    assert!(matches!(read_chunk("[DONE]"), Some(Chunk::Done)));
    let data = "{\"choices\":[{\"delta\":{\"content\":\"Hel\"}},{\"delta\":{\"content\":\"x\"}}]}";
    assert!(matches!(read_chunk(data), Some(Chunk::Content(Some(c))) if c == "Hel"));
    assert!(matches!(read_chunk("{\"choices\":[]}"), Some(Chunk::Content(None))));
    assert!(matches!(read_chunk("{\"choices\":[{\"delta\":{}}]}"), Some(Chunk::Content(None))));
    assert!(read_chunk("not json").is_none());
}

#[test]
fn redact_masks_each_match_and_keeps_the_rest() {
    let digits = vec![r"\d+".to_string()];
    assert_eq!(redact_line(&digits, "card 1234 ok".to_string()), "card XXXX ok");
    assert_eq!(redact_line(&digits, "1a22b333".to_string()), "XaXXbXXX");
    let accented = vec!["é+".to_string()];
    assert_eq!(redact_line(&accented, "café ééé".to_string()), "cafXX XXXXXX");
}
