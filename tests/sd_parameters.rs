use image_viewer::error::AppError;
use image_viewer::sd_parameters::{SdParameters, SdTag};

fn tag(name: &str, weight: Option<&str>) -> (String, Option<String>) {
    (name.to_string(), weight.map(|w| w.to_string()))
}

fn tags(v: &[SdTag]) -> Vec<(String, Option<String>)> {
    v.iter().map(|t| (t.name.clone(), t.weight.clone())).collect()
}

fn error_message(r: Result<SdParameters, AppError>) -> String {
    match r {
        Err(AppError::MetadataRead(m)) => m,
        _ => panic!("expected a metadata error"),
    }
}

#[test]
fn parses_full_parameter_text() {
    let text = "masterpiece, (best quality:1.2), 1girl\nNegative prompt: lowres, (bad hands:1.5)\nSteps: 20, Sampler: Euler a, Schedule type: Karras, CFG scale: 7, Seed: 12345, Size: 512x768, Model: sdxl_base, Denoising strength: 0.4, Clip skip: 2";
    let p = SdParameters::parse(text).unwrap();
    assert_eq!(
        tags(&p.positive_sd_tags),
        vec![tag("masterpiece", None), tag("best quality", Some("1.2")), tag("1girl", None)]
    );
    assert_eq!(tags(&p.negative_sd_tags), vec![tag("lowres", None), tag("bad hands", Some("1.5"))]);
    assert_eq!(p.steps.as_deref(), Some("20"));
    assert_eq!(p.sampler.as_deref(), Some("Euler a"));
    assert_eq!(p.schedule_type.as_deref(), Some("Karras"));
    assert_eq!(p.cfg_scale.as_deref(), Some("7"));
    assert_eq!(p.seed.as_deref(), Some("12345"));
    assert_eq!(p.size.as_deref(), Some("512x768"));
    assert_eq!(p.model.as_deref(), Some("sdxl_base"));
    assert_eq!(p.denoising_strength.as_deref(), Some("0.4"));
    assert_eq!(p.clip_skip.as_deref(), Some("2"));
    assert_eq!(p.raw, text);
}

#[test]
fn missing_settings_stay_unset() {
    let p = SdParameters::parse("a\nNegative prompt: b\nSteps: 30, Version: v1.6, Seed:, Model: ").unwrap();
    assert_eq!(p.steps.as_deref(), Some("30"));
    assert_eq!(p.seed, None);
    assert_eq!(p.model, None);
    assert_eq!(p.sampler, None);
}

#[test]
fn later_setting_replaces_earlier() {
    let p = SdParameters::parse("a\nNegative prompt: b\nSteps: 10, Seed: 1, Seed: 2").unwrap();
    assert_eq!(p.seed.as_deref(), Some("2"));
}

#[test]
fn value_runs_to_next_comma() {
    let p = SdParameters::parse("a\nNegative prompt: b\nSteps: 10 Seed: 5\nmore, Size: 1x1").unwrap();
    assert_eq!(p.steps.as_deref(), Some("10 Seed: 5\nmore"));
    assert_eq!(p.seed, None);
    assert_eq!(p.size.as_deref(), Some("1x1"));
}

#[test]
fn tag_shapes() {
    let p = SdParameters::parse("((a:1)), (b:2.), x (c:3) y, ( :4), , (d:e), (f:10.25)\nNegative prompt:\nSteps: 1").unwrap();
    assert_eq!(
        tags(&p.positive_sd_tags),
        vec![
            tag("(a", Some("1")),
            tag("(b:2.)", None),
            tag("c", Some("3")),
            tag("(d:e)", None),
            tag("f", Some("10.25")),
        ]
    );
    assert!(p.negative_sd_tags.is_empty());
}

#[test]
fn trims_unicode_white_space() {
    let p = SdParameters::parse("\u{3000}cat\u{a0}, \tdog \nNegative prompt:  \nSteps:\u{2003}15 ").unwrap();
    assert_eq!(tags(&p.positive_sd_tags), vec![tag("cat", None), tag("dog", None)]);
    assert_eq!(p.steps.as_deref(), Some("15"));
}

#[test]
fn blank_text_is_an_error() {
    assert_eq!(error_message(SdParameters::parse("")), "Empty parameter string");
    assert_eq!(error_message(SdParameters::parse(" \n\t ")), "Empty parameter string");
}

#[test]
fn missing_sections_are_errors() {
    assert_eq!(
        error_message(SdParameters::parse("a, b\nSteps: 20")),
        "\"Negative prompt:\" section not found"
    );
    assert_eq!(
        error_message(SdParameters::parse("a\nNegative prompt: b, Steps: 20")),
        "\"Steps:\" section not found"
    );
}
