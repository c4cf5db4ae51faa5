use trusted_repos::image::{Image, ImageError};

#[test]
fn test_image_comparison() -> Result<(), ImageError> {
    let image = Image::new("image")?;
    assert_eq!(image, "image".to_string());

    let image = Image::new("path/to/image")?;
    assert_eq!(image, "path/to/image".to_string());

    let image = Image::new("image:tag")?;
    assert_eq!(image, "image:tag".to_string());

    let image = Image::new("path/to/image:tag")?;
    assert_eq!(image, "path/to/image:tag".to_string());

    let image = Image::new("example.com/image")?;
    assert_eq!(image, "example.com/image".to_string());

    let image = Image::new("example.com/path/to/image")?;
    assert_eq!(image, "example.com/path/to/image".to_string());

    let image = Image::new("example.com/image:tag")?;
    assert_eq!(image, "example.com/image:tag".to_string());

    let image = Image::new("example.com/path/to/image:tag")?;
    assert_eq!(image, "example.com/path/to/image:tag".to_string());

    let image = Image::new("example.com:5000/image")?;
    assert_eq!(image, "example.com:5000/image".to_string());

    let image = Image::new("example.com:5000/path/to/image")?;
    assert_eq!(image, "example.com:5000/path/to/image".to_string());

    let image = Image::new("example.com:5000/image:tag")?;
    assert_eq!(image, "example.com:5000/image:tag".to_string());

    let image = Image::new("example.com:5000/path/to/image:tag")?;
    assert_eq!(image, "example.com:5000/path/to/image:tag".to_string());

    let image = Image::new("10.0.0.100/image")?;
    assert_eq!(image, "10.0.0.100/image".to_string());

    let image = Image::new("10.0.0.100/path/to/image")?;
    assert_eq!(image, "10.0.0.100/path/to/image".to_string());

    let image = Image::new("10.0.0.100/image:tag")?;
    assert_eq!(image, "10.0.0.100/image:tag".to_string());

    let image = Image::new("10.0.0.100/path/to/image:tag")?;
    assert_eq!(image, "10.0.0.100/path/to/image:tag".to_string());

    let image = Image::new("10.0.0.100:5000/image")?;
    assert_eq!(image, "10.0.0.100:5000/image".to_string());

    let image = Image::new("10.0.0.100:5000/path/to/image")?;
    assert_eq!(image, "10.0.0.100:5000/path/to/image".to_string());

    let image = Image::new("10.0.0.100:5000/image:tag")?;
    assert_eq!(image, "10.0.0.100:5000/image:tag".to_string());

    let image = Image::new("10.0.0.100:5000/path/to/image:tag")?;
    assert_eq!(image, "10.0.0.100:5000/path/to/image:tag".to_string());

    let image = Image::new("example.com/image:tag@sha256:3fc9b689459d738f8c88a3a48aa9e33542016b7a4052e001aaa536fca74813cb")?;
    assert_eq!(image, "example.com/image:tag@sha256:3fc9b689459d738f8c88a3a48aa9e33542016b7a4052e001aaa536fca74813cb".to_string());

    let image = Image::new("example.com/path/to/image:tag@sha256:3fc9b689459d738f8c88a3a48aa9e33542016b7a4052e001aaa536fca74813cb")?;
    assert_eq!(image, "example.com/path/to/image:tag@sha256:3fc9b689459d738f8c88a3a48aa9e33542016b7a4052e001aaa536fca74813cb".to_string());

    let image = Image::new("example.com/image@sha256:73475cb40a568e8da8a045ced110137e159f890ac4da883b6b17dc651b3a8049")?;
    assert_eq!(image, "example.com/image@sha256:73475cb40a568e8da8a045ced110137e159f890ac4da883b6b17dc651b3a8049".to_string());

    let image = Image::new("example.com/path/to/image@sha256:73475cb40a568e8da8a045ced110137e159f890ac4da883b6b17dc651b3a8049")?;
    assert_eq!(image, "example.com/path/to/image@sha256:73475cb40a568e8da8a045ced110137e159f890ac4da883b6b17dc651b3a8049".to_string());

    let image = Image::new("example.com/image:tag@sha256:73475cb40a568e8da8a045ced110137e159f890ac4da883b6b17dc651b3a8049")?;
    assert_eq!(image, "example.com/image:tag@sha256:73475cb40a568e8da8a045ced110137e159f890ac4da883b6b17dc651b3a8049".to_string());

    let image = Image::new("example.com/path/to/image:tag@sha256:73475cb40a568e8da8a045ced110137e159f890ac4da883b6b17dc651b3a8049")?;
    assert_eq!(image, "example.com/path/to/image:tag@sha256:73475cb40a568e8da8a045ced110137e159f890ac4da883b6b17dc651b3a8049".to_string());

    let image = Image::new("example.com:5000/image@sha256:73475cb40a568e8da8a045ced110137e159f890ac4da883b6b17dc651b3a8049")?;
    assert_eq!(image, "example.com:5000/image@sha256:73475cb40a568e8da8a045ced110137e159f890ac4da883b6b17dc651b3a8049".to_string());

    let image = Image::new("example.com:5000/path/to/image@sha256:73475cb40a568e8da8a045ced110137e159f890ac4da883b6b17dc651b3a8049")?;
    assert_eq!(image, "example.com:5000/path/to/image@sha256:73475cb40a568e8da8a045ced110137e159f890ac4da883b6b17dc651b3a8049".to_string());

    let image = Image::new("example.com:5000/image:tag@sha256:73475cb40a568e8da8a045ced110137e159f890ac4da883b6b17dc651b3a8049")?;
    assert_eq!(image, "example.com:5000/image:tag@sha256:73475cb40a568e8da8a045ced110137e159f890ac4da883b6b17dc651b3a8049".to_string());

    let image = Image::new("example.com:5000/path/to/image:tag@sha256:73475cb40a568e8da8a045ced110137e159f890ac4da883b6b17dc651b3a8049")?;
    assert_eq!(image, "example.com:5000/path/to/image:tag@sha256:73475cb40a568e8da8a045ced110137e159f890ac4da883b6b17dc651b3a8049".to_string());

    let image = Image::new("10.0.0.100/image@sha256:73475cb40a568e8da8a045ced110137e159f890ac4da883b6b17dc651b3a8049")?;
    assert_eq!(image, "10.0.0.100/image@sha256:73475cb40a568e8da8a045ced110137e159f890ac4da883b6b17dc651b3a8049".to_string());

    let image = Image::new("10.0.0.100/path/to/image@sha256:73475cb40a568e8da8a045ced110137e159f890ac4da883b6b17dc651b3a8049")?;
    assert_eq!(image, "10.0.0.100/path/to/image@sha256:73475cb40a568e8da8a045ced110137e159f890ac4da883b6b17dc651b3a8049".to_string());

    let image = Image::new("10.0.0.100/image:tag@sha256:73475cb40a568e8da8a045ced110137e159f890ac4da883b6b17dc651b3a8049")?;
    assert_eq!(image, "10.0.0.100/image:tag@sha256:73475cb40a568e8da8a045ced110137e159f890ac4da883b6b17dc651b3a8049".to_string());

    let image = Image::new("10.0.0.100/path/to/image:tag@sha256:73475cb40a568e8da8a045ced110137e159f890ac4da883b6b17dc651b3a8049")?;
    assert_eq!(image, "10.0.0.100/path/to/image:tag@sha256:73475cb40a568e8da8a045ced110137e159f890ac4da883b6b17dc651b3a8049".to_string());

    let image = Image::new("10.0.0.100:5000/image@sha256:73475cb40a568e8da8a045ced110137e159f890ac4da883b6b17dc651b3a8049")?;
    assert_eq!(image, "10.0.0.100:5000/image@sha256:73475cb40a568e8da8a045ced110137e159f890ac4da883b6b17dc651b3a8049".to_string());

    let image = Image::new("10.0.0.100:5000/path/to/image@sha256:73475cb40a568e8da8a045ced110137e159f890ac4da883b6b17dc651b3a8049")?;
    assert_eq!(image, "10.0.0.100:5000/path/to/image@sha256:73475cb40a568e8da8a045ced110137e159f890ac4da883b6b17dc651b3a8049".to_string());

    let image = Image::new("10.0.0.100:5000/image:tag@sha256:73475cb40a568e8da8a045ced110137e159f890ac4da883b6b17dc651b3a8049")?;
    assert_eq!(image, "10.0.0.100:5000/image:tag@sha256:73475cb40a568e8da8a045ced110137e159f890ac4da883b6b17dc651b3a8049".to_string());

    let image = Image::new("10.0.0.100:5000/path/to/image:tag@sha256:73475cb40a568e8da8a045ced110137e159f890ac4da883b6b17dc651b3a8049")?;
    assert_eq!(image, "10.0.0.100:5000/path/to/image:tag@sha256:73475cb40a568e8da8a045ced110137e159f890ac4da883b6b17dc651b3a8049".to_string());

    Ok(())
}

#[test]
fn parse_host() -> Result<(), ImageError> {
    let image = Image::new("example.com/image:tag")?;
    assert_eq!(image.registry, Some("example.com".into()));

    let image = Image::new("example.com/path/to/image:tag")?;
    assert_eq!(image.registry, Some("example.com".into()));

    let image = Image::new("example.com:5000/image:tag")?;
    assert_eq!(image.registry, Some("example.com:5000".into()));

    let image = Image::new("example.com:5000/path/to/image:tag")?;
    assert_eq!(image.registry, Some("example.com:5000".into()));

    let image = Image::new("10.0.0.100/image:tag")?;
    assert_eq!(image.registry, Some("10.0.0.100".into()));

    let image = Image::new("10.0.0.100/path/to/image:tag")?;
    assert_eq!(image.registry, Some("10.0.0.100".into()));

    let image = Image::new("10.0.0.100:5000/image:tag")?;
    assert_eq!(image.registry, Some("10.0.0.100:5000".into()));

    let image = Image::new("10.0.0.100:5000/path/to/image:tag")?;
    assert_eq!(image.registry, Some("10.0.0.100:5000".into()));

    Ok(())
}

#[test]
fn parse_image() -> Result<(), ImageError> {
    let image = Image::new("image")?;
    assert_eq!(image.name, "image");

    let image = Image::new("image:tag")?;
    assert_eq!(image.name, "image");

    let image = Image::new("example.com/image")?;
    assert_eq!(image.name, "image");

    let image = Image::new("example.com/image:tag")?;
    assert_eq!(image.name, "image");

    let image = Image::new("example.com:5000/image")?;
    assert_eq!(image.name, "image");

    let image = Image::new("example.com:5000/image:tag")?;
    assert_eq!(image.name, "image");

    let image = Image::new("10.0.0.100/image")?;
    assert_eq!(image.name, "image");

    let image = Image::new("10.0.0.100/image:tag")?;
    assert_eq!(image.name, "image");

    let image = Image::new("10.0.0.100:5000/image")?;
    assert_eq!(image.name, "image");

    let image = Image::new("10.0.0.100:5000/image:tag")?;
    assert_eq!(image.name, "image");

    Ok(())
}

#[test]
fn parse_digest_and_tag() -> Result<(), ImageError> {
    let sha = "73475cb40a568e8da8a045ced110137e159f890ac4da883b6b17dc651b3a8049";
    let image = Image::new(&format!("example.com:5000/path/to/image:tag@sha256:{sha}"))?;
    assert_eq!(image.registry, Some("example.com:5000".to_string()));
    assert_eq!(image.name, "image");
    assert_eq!(image.tag, Some("tag".to_string()));
    assert_eq!(image.sha256, Some(sha.to_string()));
    assert_eq!(image.to_string(), format!("example.com:5000/image:tag@sha256:{sha}"));
    Ok(())
}

#[test]
fn name_without_slash_gets_default_registry() -> Result<(), ImageError> {
    let image = Image::new("busybox:1.0")?;
    assert_eq!(image.registry, Some("docker.io".to_string()));
    assert_eq!(image.tag, Some("1.0".to_string()));
    assert_eq!(image.sha256, None);
    assert_eq!(image.to_string(), "docker.io/busybox:1.0");
    Ok(())
}

#[test]
fn tag_may_hold_a_colon() -> Result<(), ImageError> {
    let image = Image::new("image:a:b")?;
    assert_eq!(image.name, "image");
    assert_eq!(image.tag, Some("a:b".to_string()));
    Ok(())
}

#[test]
fn malformed_images_are_refused() {
    assert!(Image::new("").is_err());
    assert!(Image::new(":tag").is_err());
    assert!(Image::new("image:").is_err());
    assert!(Image::new("image@sha256:abc").is_err());
    assert!(Image::new("example.com/image@sha256:abc").is_err());
    let e = Image::new("image@x").unwrap_err();
    assert_eq!(e.input, "image@x");
}

#[test]
fn trailing_slash_leaves_a_path_in_the_name() -> Result<(), ImageError> {
    let image = Image::new("a/b/")?;
    assert_eq!(image.name, "b/");
    Ok(())
}
