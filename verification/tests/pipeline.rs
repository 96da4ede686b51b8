//! Tests of promotion-type dispatch, batch description and the end-to-end
//! formatting pipeline.

use promodoc::domain::FormatLines;
use promodoc::domain::PromotionBatch;
use promodoc::domain::PromotionKind;
use promodoc::domain::Targets;
use promodoc::domain::promotion_kind;
use promodoc::render::RenderError;
use promodoc::utils::FormatError;
use promodoc::utils::format_batch;
use promodoc::utils::mapify;
use promodoc::utils::target_lines;

fn sample_lines() -> FormatLines {
    FormatLines {
        instance: "# {instance}".to_string(),
        path: "{source}->{destination}".to_string(),
        promote_images: "- {targets}".to_string(),
        promote_config_maps: "cm: {targets}".to_string(),
        promote_secrets: "secret: {targets}".to_string(),
    }
}

fn sample_batch(promotion_type: &str, targets: &str) -> PromotionBatch {
    PromotionBatch {
        instance: "prod1".to_string(),
        source: "dev".to_string(),
        destination: "stage".to_string(),
        promotion_type: promotion_type.to_string(),
        targets: Targets::try_from(targets),
    }
}

#[test]
fn test_dispatch_is_case_insensitive() {
    assert_eq!(promotion_kind("Images"), Some(PromotionKind::Images));
    assert_eq!(promotion_kind("image"), Some(PromotionKind::Images));
    assert_eq!(promotion_kind("IMAGES"), Some(PromotionKind::Images));
}

#[test]
fn test_dispatch_accepts_aliases() {
    assert_eq!(promotion_kind("secret"), Some(PromotionKind::Secrets));
    assert_eq!(promotion_kind("Secrets"), Some(PromotionKind::Secrets));
    assert_eq!(promotion_kind("config-map"), Some(PromotionKind::ConfigMaps));
    assert_eq!(promotion_kind("config-maps"), Some(PromotionKind::ConfigMaps));
    assert_eq!(promotion_kind("config_map"), Some(PromotionKind::ConfigMaps));
    assert_eq!(promotion_kind("Config_Maps"), Some(PromotionKind::ConfigMaps));
    assert_eq!(promotion_kind("template"), Some(PromotionKind::Templates));
    assert_eq!(promotion_kind("templates"), Some(PromotionKind::Templates));
}

#[test]
fn test_dispatch_rejects_unknown_types() {
    assert_eq!(promotion_kind("deployment"), None);
    assert_eq!(promotion_kind(""), None);
    assert_eq!(promotion_kind("imagess"), None);
}

#[test]
fn test_line_for_templates_is_not_configured() {
    let lines = sample_lines();
    assert_eq!(lines.line_for(PromotionKind::Templates), None);
    assert_eq!(lines.line_for(PromotionKind::Images), Some(&"- {targets}".to_string()));
}

#[test]
fn test_mapify_binds_the_batch_fields() {
    let args = mapify(sample_batch("images", "a"));
    assert_eq!(args.get(&"instance".to_string()), Some(&"prod1".to_string()));
    assert_eq!(args.get(&"source".to_string()), Some(&"dev".to_string()));
    assert_eq!(args.get(&"destination".to_string()), Some(&"stage".to_string()));
    assert_eq!(args.get(&"promotion_type".to_string()), Some(&"images".to_string()));
    assert_eq!(args.get(&"targets".to_string()), None);
}

#[test]
fn test_describe() {
    let batch = sample_batch("images", "x,y");
    assert_eq!(batch.describe(), "(Instance: prod1, Path: dev->stage, Promotion Type: images, x,y)");
}

#[test]
fn test_target_lines_renders_one_line_per_group() {
    let mut args = mapify(sample_batch("images", ""));
    let mut groups = Targets::try_from("a:1,b:2,c:3,d:4").prepare();
    let lines = target_lines(&mut args, &mut groups, "- {targets}").unwrap();
    assert_eq!(lines, vec!["- a:1,b:2,c:3".to_string(), "- d:4".to_string()]);
    assert!(groups.is_empty());
}

#[test]
fn test_target_lines_missing_binding() {
    let mut args = mapify(sample_batch("images", ""));
    let mut groups = Targets::try_from("a").prepare();
    let err = target_lines(&mut args, &mut groups, "{cluster}: {targets}").unwrap_err();
    assert_eq!(err, RenderError::MissingBinding("cluster".to_string()));
}

#[test]
fn test_format_batch_end_to_end() {
    let batch = sample_batch("images", "a:1,b:2,c:3,d:4");
    let out = format_batch(batch, &sample_lines()).unwrap();
    assert_eq!(
        out,
        vec![
            "# prod1".to_string(),
            "dev->stage".to_string(),
            "- a:1,b:2,c:3".to_string(),
            "- d:4".to_string(),
        ]
    );
}

#[test]
fn test_format_batch_no_targets_gives_header_lines_only() {
    let batch = sample_batch("images", "");
    let out = format_batch(batch, &sample_lines()).unwrap();
    assert_eq!(out, vec!["# prod1".to_string(), "dev->stage".to_string()]);
}

#[test]
fn test_format_batch_unrecognized_type_is_fatal() {
    let batch = sample_batch("deployment", "a");
    assert_eq!(
        format_batch(batch, &sample_lines()).unwrap_err(),
        FormatError::UnrecognizedPromotionType
    );
}

#[test]
fn test_format_batch_templates_type_lacks_a_template() {
    let batch = sample_batch("templates", "a");
    assert_eq!(format_batch(batch, &sample_lines()).unwrap_err(), FormatError::MissingTemplate);
}

#[test]
fn test_format_batch_missing_binding_is_fatal() {
    let mut lines = sample_lines();
    lines.instance = "# {cluster}".to_string();
    let batch = sample_batch("images", "a");
    assert_eq!(
        format_batch(batch, &lines).unwrap_err(),
        FormatError::MissingBinding("cluster".to_string())
    );
}

#[test]
fn test_format_batch_malformed_template_is_fatal() {
    let mut lines = sample_lines();
    lines.promote_images = "- {targets".to_string();
    let batch = sample_batch("images", "a");
    assert_eq!(format_batch(batch, &lines).unwrap_err(), FormatError::MalformedTemplate);
}
