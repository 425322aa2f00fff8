use lambda_cloud::{
    resolve_image_family, summarize_image_families, Image, ImageRegion, LambdaError, API_BASE_URL,
    DEFAULT_IMAGE_FAMILY,
};

#[test]
fn test_lambda_error_messages() {
    assert_eq!(
        LambdaError::ApiKeyNotSet.to_string(),
        "API key not set. Set LAMBDA_API_KEY or LAMBDA_API_KEY_COMMAND environment variable"
    );
    assert_eq!(
        LambdaError::InstanceTypeNotFound("gpu_1x_a100".to_string()).to_string(),
        "Instance type 'gpu_1x_a100' not found"
    );
}

#[test]
fn test_api_base_url() {
    assert_eq!(API_BASE_URL, "https://cloud.lambdalabs.com/api/v1");
}

#[test]
fn test_default_image_family() {
    assert_eq!(DEFAULT_IMAGE_FAMILY, "lambda-stack-24-04");
}

#[test]
fn test_resolve_image_family() {
    // Unspecified or blank input falls back to the default.
    assert_eq!(resolve_image_family(None), DEFAULT_IMAGE_FAMILY);
    assert_eq!(resolve_image_family(Some("")), DEFAULT_IMAGE_FAMILY);
    assert_eq!(resolve_image_family(Some("   ")), DEFAULT_IMAGE_FAMILY);
    // A real value is used as-is, with surrounding whitespace trimmed.
    assert_eq!(resolve_image_family(Some("ubuntu-24-04")), "ubuntu-24-04");
    assert_eq!(
        resolve_image_family(Some("  ubuntu-24-04 ")),
        "ubuntu-24-04"
    );
}

fn test_image(family: &str, description: &str, architecture: &str, region: &str) -> Image {
    Image {
        id: "id".to_string(),
        name: "name".to_string(),
        description: description.to_string(),
        family: family.to_string(),
        version: "1.0".to_string(),
        architecture: architecture.to_string(),
        region: ImageRegion {
            name: region.to_string(),
            description: "desc".to_string(),
        },
    }
}

#[test]
fn test_summarize_image_families() {
    let images = vec![
        test_image("ubuntu-24-04", "Ubuntu 24.04 LTS", "x86_64", "us-east-1"),
        test_image("ubuntu-24-04", "Ubuntu 24.04 LTS", "x86_64", "us-west-1"),
        test_image("ubuntu-24-04", "Ubuntu 24.04 LTS", "arm64", "us-east-3"),
        test_image("lambda-stack-24-04", "Lambda Stack", "x86_64", "us-east-1"),
    ];

    let summaries = summarize_image_families(&images);

    // Sorted by family name.
    assert_eq!(summaries.len(), 2);
    assert_eq!(summaries[0].family, "lambda-stack-24-04");
    assert_eq!(summaries[1].family, "ubuntu-24-04");

    // Architectures and regions are deduplicated and sorted.
    assert_eq!(summaries[1].architectures, vec!["arm64", "x86_64"]);
    assert_eq!(
        summaries[1].regions,
        vec!["us-east-1", "us-east-3", "us-west-1"]
    );
}

#[test]
fn test_summarize_prefers_shortest_description() {
    let images = vec![
        test_image(
            "lambda-stack-22-04",
            "AI ready GPU image 22.04.5",
            "x86_64",
            "us-east-1",
        ),
        test_image(
            "lambda-stack-22-04",
            "AI ready GPU image",
            "x86_64",
            "us-west-1",
        ),
    ];

    let summaries = summarize_image_families(&images);
    assert_eq!(summaries.len(), 1);
    assert_eq!(summaries[0].description, "AI ready GPU image");
}

#[test]
fn error_messages_of_every_kind() {
    assert_eq!(
        LambdaError::ApiKeyCommandFailed("why".to_string()).to_string(),
        "Failed to execute API key command: why"
    );
    assert_eq!(
        LambdaError::NoRegionsAvailable("gpu".to_string()).to_string(),
        "No regions available for instance type 'gpu'"
    );
    assert_eq!(
        LambdaError::NoInstanceIds.to_string(),
        "No instance IDs returned from launch request"
    );
    assert_eq!(
        LambdaError::ApiError("why".to_string()).to_string(),
        "API request failed: why"
    );
    assert_eq!(
        LambdaError::SshKeyRequired.to_string(),
        "SSH key is required for this operation"
    );
}

#[test]
fn white_space_is_the_unicode_property() {
    let listed = |n: u32| {
        (0x9..=0xd).contains(&n)
            || (0x2000..=0x200a).contains(&n)
            || [
                0x20, 0x85, 0xa0, 0x1680, 0x2028, 0x2029, 0x202f, 0x205f, 0x3000,
            ]
            .contains(&n)
    };
    for n in 0..=0x10ffffu32 {
        if let Some(c) = char::from_u32(n) {
            let text = c.to_string();
            let family = resolve_image_family(Some(&text));
            if listed(n) {
                assert_eq!(family, DEFAULT_IMAGE_FAMILY, "{:x}", n);
            } else {
                assert_eq!(family, text, "{:x}", n);
            }
        }
    }
}

#[test]
fn white_space_inside_a_family_stays() {
    assert_eq!(resolve_image_family(Some("\t a b\u{3000}\n")), "a b");
}

#[test]
fn resolving_twice_changes_nothing() {
    for image in [None, Some(" "), Some(" x\n"), Some("y")] {
        let once = resolve_image_family(image);
        assert!(!once.is_empty());
        assert_eq!(once.trim(), once);
        assert_eq!(resolve_image_family(Some(once)), once);
    }
}

#[test]
fn no_images_no_summaries() {
    assert!(summarize_image_families(&[]).is_empty());
}

#[test]
fn equally_short_descriptions_keep_the_first() {
    let images = vec![
        test_image("f", "first one", "x86_64", "r"),
        test_image("f", "other one", "x86_64", "r"),
        test_image("f", "a longer one", "x86_64", "r"),
    ];
    assert_eq!(summarize_image_families(&images)[0].description, "first one");
}

#[test]
fn descriptions_are_measured_in_bytes() {
    // Two characters of three bytes each are longer than five of one byte.
    let images = vec![
        test_image("f", "\u{6771}\u{4eac}", "x86_64", "r"),
        test_image("f", "tokyo", "x86_64", "r"),
    ];
    assert_eq!(summarize_image_families(&images)[0].description, "tokyo");
}

#[test]
fn families_are_ordered_as_strings_are() {
    let mut names = vec![
        "b", "a", "ab", "", "B", "\u{e9}", "z", "\u{ffff}", "\u{10000}", "a\u{0}",
    ];
    let images: Vec<Image> = names
        .iter()
        .map(|name| test_image(name, "d", "x", "r"))
        .collect();
    let families: Vec<String> = summarize_image_families(&images)
        .into_iter()
        .map(|summary| summary.family)
        .collect();
    names.sort();
    assert_eq!(families, names);
}

#[test]
fn summary_ignores_the_order_of_images() {
    let mut images = vec![
        test_image("b", "d", "x86_64", "r2"),
        test_image("a", "e", "arm64", "r1"),
        test_image("b", "d", "arm64", "r1"),
        test_image("b", "d", "x86_64", "r2"),
    ];
    let one = format!("{:?}", summarize_image_families(&images));
    images.reverse();
    assert_eq!(format!("{:?}", summarize_image_families(&images)), one);
    images.swap(0, 2);
    assert_eq!(format!("{:?}", summarize_image_families(&images)), one);
}

#[test]
fn every_image_is_covered() {
    let images = vec![
        test_image("b", "long text", "x86_64", "r2"),
        test_image("a", "e", "arm64", "r1"),
        test_image("b", "text", "arm64", "r1"),
    ];
    let summaries = summarize_image_families(&images);
    for image in &images {
        let row = summaries.iter().find(|s| s.family == image.family).unwrap();
        assert!(row.architectures.contains(&image.architecture));
        assert!(row.regions.contains(&image.region.name));
        assert!(row.description.len() <= image.description.len());
    }
}

#[test]
fn padding_an_image_changes_nothing() {
    for image in ["ubuntu-24-04", " a b ", "", "\t"] {
        let padded = format!(" \u{2003}\n{}\u{a0}\t", image);
        assert_eq!(resolve_image_family(Some(&padded)), resolve_image_family(Some(image)));
    }
}

#[test]
fn row_rests_on_its_own_images() {
    let images = vec![
        test_image("b", "long text", "x86_64", "r2"),
        test_image("a", "e", "arm64", "r1"),
        test_image("b", "text", "arm64", "r1"),
    ];
    for row in summarize_image_families(&images) {
        let own: Vec<Image> = images.iter().filter(|i| i.family == row.family).cloned().collect();
        assert_eq!(format!("{:?}", summarize_image_families(&own)), format!("{:?}", vec![row]));
    }
}

#[test]
fn repeated_images_change_nothing() {
    let mut images = vec![
        test_image("b", "text", "x86_64", "r2"),
        test_image("b", "next", "arm64", "r1"),
        test_image("a", "e", "arm64", "r1"),
    ];
    let one = format!("{:?}", summarize_image_families(&images));
    images.push(images[1].clone());
    images.push(images[0].clone());
    let mut alike = images[0].clone();
    alike.id = "other id".to_string();
    alike.name = "other name".to_string();
    alike.version = "2.0".to_string();
    alike.region.description = "other place".to_string();
    images.push(alike);
    assert_eq!(format!("{:?}", summarize_image_families(&images)), one);
    assert_eq!(summarize_image_families(&images)[1].description, "text");
}
