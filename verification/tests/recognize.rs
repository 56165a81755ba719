use std::collections::HashMap;

use base64::Engine;
use vision_recognize::api::prepare_request;
use vision_recognize::errors::ConfigError;
use vision_recognize::errors::ImageError;
use vision_recognize::errors::PrepareError;
use vision_recognize::errors::ResponseError;
use vision_recognize::normalize::normalize_image;
use vision_recognize::params::parse_u64;
use vision_recognize::params::resolve_config;
use vision_recognize::params::ParamBag;
use vision_recognize::response::extract_content;

fn bag_from(pairs: &[(&str, &str)]) -> ParamBag {
    let mut seen: HashMap<String, String> = HashMap::new();
    let mut bag = ParamBag::new();
    for (k, v) in pairs {
        if seen.insert(k.to_string(), v.to_string()).is_none() {
            bag.set(k.to_string(), v.to_string());
        }
    }
    bag
}

fn b64(data: &[u8]) -> String {
    base64::engine::general_purpose::STANDARD.encode(data)
}

fn noisy_png(w: u32, h: u32) -> Vec<u8> {
    let mut img = image::RgbImage::new(w, h);
    let mut state: u32 = 0x1234_5678;
    for p in img.pixels_mut() {
        state = state.wrapping_mul(1_664_525).wrapping_add(1_013_904_223);
        let bytes = state.to_le_bytes();
        *p = image::Rgb([bytes[0], bytes[1], bytes[2]]);
    }
    let mut buf = Vec::new();
    img.write_to(
        &mut std::io::Cursor::new(&mut buf),
        image::ImageOutputFormat::Png,
    )
    .unwrap();
    buf
}

#[test]
fn small_input_returned_unchanged() {
    let input = b64(b"hello, this is not even an image");
    let out = normalize_image(&input).unwrap();
    assert_eq!(out, input);
}

#[test]
fn small_png_returned_unchanged() {
    let input = b64(&noisy_png(8, 8));
    let out = normalize_image(&input).unwrap();
    assert_eq!(out, input);
}

#[test]
fn invalid_base64_is_decode_error() {
    let input = "!!!not base64!!!".to_string();
    assert_eq!(normalize_image(&input).unwrap_err(), ImageError::Decode);
}

#[test]
fn oversized_non_image_is_decode_error() {
    let blob: Vec<u8> = (0..2_000_000u32).map(|i| (i % 251) as u8).collect();
    let input = b64(&blob);
    assert_eq!(normalize_image(&input).unwrap_err(), ImageError::Decode);
}

#[test]
fn oversized_image_is_compressed_within_budget() {
    let png = noisy_png(2000, 1500);
    assert!(png.len() > 1024 * 1024);
    let input = b64(&png);
    let out = normalize_image(&input).unwrap();
    assert_ne!(out, input);
    let raw = base64::engine::general_purpose::STANDARD
        .decode(&out)
        .unwrap();
    assert!(raw.len() <= 1024 * 1024);
    let img = image::load_from_memory(&raw).unwrap();
    assert_eq!(image::GenericImageView::dimensions(&img), (1400, 1050));
}

#[test]
fn oversized_small_dimension_image_is_upscaled_to_the_long_edge() {
    // 700x600 of noise: over 1 MiB encoded, yet under 1400 on the long edge,
    // so the uniform-ratio rule scales it up.
    let png = noisy_png(700, 600);
    assert!(png.len() > 1024 * 1024);
    let input = b64(&png);
    let out = normalize_image(&input).unwrap();
    let raw = base64::engine::general_purpose::STANDARD
        .decode(&out)
        .unwrap();
    assert!(raw.len() <= 1024 * 1024);
    let img = image::load_from_memory(&raw).unwrap();
    assert_eq!(image::GenericImageView::dimensions(&img), (1400, 1200));
}

#[test]
fn missing_apikey_is_config_error() {
    let bag = bag_from(&[("model", "gpt-4o")]);
    let r = resolve_config(&bag, "eng");
    assert_eq!(r.unwrap_err(), ConfigError::MissingApiKey);
}

#[test]
fn missing_apikey_fails_before_any_image_work() {
    let bag = bag_from(&[]);
    let image = "!!!not base64!!!".to_string();
    let r = prepare_request(&image, "eng", &bag);
    assert!(matches!(
        r.unwrap_err(),
        PrepareError::Config(ConfigError::MissingApiKey)
    ));
}

#[test]
fn defaults_are_applied() {
    let bag = bag_from(&[("apikey", "SECRET-REDACTED")]);
    let c = resolve_config(&bag, "eng").unwrap();
    assert_eq!(c.api_key, "SECRET-REDACTED");
    assert_eq!(c.endpoint, "https://api.openai.com/v1/chat/completions");
    assert_eq!(c.model, "gpt-4o");
    assert_eq!(c.prompt, "Output Language:eng");
    assert!(!c.stream);
    assert_eq!(c.timeout_secs, 30);
}

#[test]
fn explicit_parameters_override_defaults() {
    let bag = bag_from(&[
        ("apikey", "k"),
        ("endpoint", "https://example.test/v1"),
        ("model", "m-1"),
        ("prompt", "Describe the picture"),
        ("stream", "true"),
        ("timeout", "45"),
    ]);
    let c = resolve_config(&bag, "fra").unwrap();
    assert_eq!(c.endpoint, "https://example.test/v1");
    assert_eq!(c.model, "m-1");
    assert_eq!(c.prompt, "Describe the picture\nOutput Language:fra");
    assert!(c.stream);
    assert_eq!(c.timeout_secs, 45);
}

#[test]
fn stream_is_true_only_for_lowercased_true() {
    for (value, expected) in [
        ("true", true),
        ("TRUE", true),
        ("True", true),
        ("tRuE", true),
        ("1", false),
        ("True ", false),
        ("yes", false),
        ("", false),
    ] {
        let bag = bag_from(&[("apikey", "k"), ("stream", value)]);
        let c = resolve_config(&bag, "eng").unwrap();
        assert_eq!(c.stream, expected, "stream value {:?}", value);
    }
    let bag = bag_from(&[("apikey", "k")]);
    assert!(!resolve_config(&bag, "eng").unwrap().stream);
}

#[test]
fn unparsable_timeout_falls_back_to_default() {
    let bag = bag_from(&[("apikey", "k"), ("timeout", "abc")]);
    let c = resolve_config(&bag, "eng").unwrap();
    assert_eq!(c.timeout_secs, 30);
}

#[test]
fn parse_u64_behaves_like_base_10() {
    assert_eq!(parse_u64(&"0".to_string()), Some(0));
    assert_eq!(parse_u64(&"45".to_string()), Some(45));
    assert_eq!(parse_u64(&"+7".to_string()), Some(7));
    assert_eq!(parse_u64(&"18446744073709551615".to_string()), Some(u64::MAX));
    assert_eq!(parse_u64(&"18446744073709551616".to_string()), None);
    assert_eq!(parse_u64(&"".to_string()), None);
    assert_eq!(parse_u64(&"+".to_string()), None);
    assert_eq!(parse_u64(&" 5".to_string()), None);
    assert_eq!(parse_u64(&"5 ".to_string()), None);
    assert_eq!(parse_u64(&"-5".to_string()), None);
    assert_eq!(parse_u64(&"4a".to_string()), None);
}

#[test]
fn request_body_is_the_expected_document() {
    let bag = bag_from(&[("apikey", "k")]);
    let image = b64(b"hello");
    let p = prepare_request(&image, "eng", &bag).unwrap();
    let expected = format!(
        "{{\"messages\":[{{\"role\":\"system\",\"content\":\"Output Language:eng\"}},{{\"role\":\"user\",\"content\":[{{\"type\":\"text\",\"text\":\"analyze\"}},{{\"type\":\"image_url\",\"image_url\":{{\"url\":\"data:image/jpeg;base64,{}\"}}}}]}}],\"stream\":false,\"model\":\"gpt-4o\",\"temperature\":0.5,\"presence_penalty\":0,\"frequency_penalty\":0,\"top_p\":1}}",
        image
    );
    assert_eq!(p.body, expected);
    assert_eq!(p.endpoint, "https://api.openai.com/v1/chat/completions");
    assert_eq!(p.auth_header, "Bearer k");
    assert_eq!(p.timeout_secs, 30);
}

#[test]
fn request_body_parses_as_json_and_escapes_the_prompt() {
    let bag = bag_from(&[
        ("apikey", "k"),
        ("prompt", "say \"hi\"\nplease\tok\u{1}"),
        ("model", "m\\1"),
        ("stream", "true"),
    ]);
    let image = b64(b"xyz");
    let p = prepare_request(&image, "deu", &bag).unwrap();
    let v: serde_json::Value = serde_json::from_str(&p.body).unwrap();
    assert_eq!(
        v["messages"][0]["content"].as_str().unwrap(),
        "say \"hi\"\nplease\tok\u{1}\nOutput Language:deu"
    );
    assert_eq!(v["messages"][0]["role"].as_str().unwrap(), "system");
    assert_eq!(v["messages"][1]["content"][0]["text"].as_str().unwrap(), "analyze");
    assert_eq!(
        v["messages"][1]["content"][1]["image_url"]["url"]
            .as_str()
            .unwrap(),
        format!("data:image/jpeg;base64,{}", image)
    );
    assert_eq!(v["model"].as_str().unwrap(), "m\\1");
    assert_eq!(v["stream"].as_bool().unwrap(), true);
    assert_eq!(v["temperature"].as_f64().unwrap(), 0.5);
    assert_eq!(v["presence_penalty"].as_i64().unwrap(), 0);
    assert_eq!(v["frequency_penalty"].as_i64().unwrap(), 0);
    assert_eq!(v["top_p"].as_i64().unwrap(), 1);
}

#[test]
fn content_is_extracted_from_a_wellformed_response() {
    let body = "{\"choices\":[{\"message\":{\"content\":\"hello\"}}]}".to_string();
    assert_eq!(extract_content(&body).unwrap(), "hello");
}

#[test]
fn content_extraction_tolerates_whitespace_and_extra_fields() {
    let body = " {\n  \"id\": \"x-1\", \"created\": 171234, \"ok\": true, \"f\": 1.5e3,\n  \"choices\": [ { \"index\": 0, \"message\": { \"role\": \"assistant\", \"content\": \"line1\\nline2\" } } ]\n} \n".to_string();
    assert_eq!(extract_content(&body).unwrap(), "line1\nline2");
}

#[test]
fn content_escapes_are_decoded() {
    let body =
        "{\"choices\":[{\"message\":{\"content\":\"a\\nb\\u0041\\\\ \\\"q\\\" \\ud83d\\ude00\"}}]}"
            .to_string();
    assert_eq!(extract_content(&body).unwrap(), "a\nbA\\ \"q\" \u{1F600}");
}

#[test]
fn escaped_key_still_matches_the_content_path() {
    let body = "{\"cho\\u0069ces\":[{\"message\":{\"content\":\"ok\"}}]}".to_string();
    assert_eq!(extract_content(&body).unwrap(), "ok");
}

#[test]
fn duplicate_keys_resolve_to_the_last_occurrence() {
    let body = "{\"choices\":[{\"message\":{\"content\":\"first\"}}],\"choices\":[{\"message\":{\"content\":\"second\"}}]}".to_string();
    assert_eq!(extract_content(&body).unwrap(), "second");
    let v: serde_json::Value = serde_json::from_str(&body).unwrap();
    assert_eq!(
        v["choices"][0]["message"]["content"].as_str().unwrap(),
        "second"
    );
}

#[test]
fn deeply_nested_bodies_are_rejected_like_the_reference() {
    let deep = format!("{}1{}", "[".repeat(200), "]".repeat(200));
    assert!(matches!(
        extract_content(&deep),
        Err(ResponseError::Parse(_))
    ));
    assert!(serde_json::from_str::<serde_json::Value>(&deep).is_err());

    let shallow = format!("{}1{}", "[".repeat(50), "]".repeat(50));
    assert!(matches!(
        extract_content(&shallow),
        Err(ResponseError::Shape)
    ));
    assert!(serde_json::from_str::<serde_json::Value>(&shallow).is_ok());
}

#[test]
fn empty_choices_is_shape_error() {
    let body = "{\"choices\":[]}".to_string();
    assert!(matches!(
        extract_content(&body).unwrap_err(),
        ResponseError::Shape
    ));
}

#[test]
fn missing_content_path_is_shape_error() {
    for body in [
        "{}",
        "{\"choices\":[{}]}",
        "{\"choices\":[{\"message\":{}}]}",
        "{\"choices\":[{\"message\":{\"content\":5}}]}",
        "{\"choices\":[{\"message\":{\"content\":null}}]}",
        "{\"choices\":{\"message\":{\"content\":\"x\"}}}",
        "[1,2,3]",
        "\"just a string\"",
    ] {
        assert!(
            matches!(
                extract_content(&body.to_string()).unwrap_err(),
                ResponseError::Shape
            ),
            "body {:?}",
            body
        );
    }
}

#[test]
fn non_json_body_is_parse_error_carrying_the_body() {
    let body = "upstream exploded: 502".to_string();
    match extract_content(&body).unwrap_err() {
        ResponseError::Parse(raw) => assert_eq!(raw, body),
        other => panic!("expected a parse error, got {:?}", other),
    }
}

#[test]
fn parser_verdict_matches_a_reference_parser() {
    for body in [
        "{\"a\":1}",
        "{\"a\":01}",
        "{\"a\":1.}",
        "{\"a\":-0.5e-2}",
        "[true,false,null]",
        "[true,]",
        "tru",
        "\"unterminated",
        "\"bad escape \\q\"",
        "\"lone surrogate \\ud800\"",
        "{\"a\" 1}",
        "{\"a\":1,}",
        "  [ { \"k\" : [ \"v\" , 2 , 2e4 ] } ]  ",
        "{\"a\":\"b\"}trailing",
        "",
    ] {
        let ours_is_parse_error = matches!(
            extract_content(&body.to_string()),
            Err(ResponseError::Parse(_))
        );
        let reference_rejects = serde_json::from_str::<serde_json::Value>(body).is_err();
        assert_eq!(
            ours_is_parse_error, reference_rejects,
            "verdicts differ on {:?}",
            body
        );
    }
}

#[test]
fn parameter_bag_lookup() {
    let mut bag = ParamBag::new();
    assert!(bag.get(&"apikey".to_string()).is_none());
    bag.set("apikey".to_string(), "v1".to_string());
    bag.set("model".to_string(), "v2".to_string());
    assert_eq!(bag.get(&"apikey".to_string()).unwrap(), "v1");
    assert_eq!(bag.get(&"model".to_string()).unwrap(), "v2");
    assert!(bag.get(&"prompt".to_string()).is_none());
}
