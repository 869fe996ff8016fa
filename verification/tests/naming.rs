use disk_image::naming::{default_image_name, device_stem, fill_placeholders, iso_image_name};

const TEMPLATE: &str = "Disk Image of {} ({}).img";

#[test]
fn stem_of_plain_device() {
    assert_eq!(device_stem("/dev/sdb"), "sdb");
}

#[test]
fn stem_of_nested_device() {
    assert_eq!(device_stem("/dev/mapper/luks-1234"), "mapper_luks-1234");
}

#[test]
fn stem_without_dev_prefix() {
    assert_eq!(device_stem("loop/0"), "loop_0");
}

#[test]
fn fill_in_order() {
    let args = vec!["sdb".to_string(), "2024-01-02 0304".to_string()];
    assert_eq!(fill_placeholders(TEMPLATE, &args), "Disk Image of sdb (2024-01-02 0304).img");
}

#[test]
fn fill_with_too_few_arguments_keeps_placeholders() {
    let args = vec!["a".to_string()];
    assert_eq!(fill_placeholders("{} and {}", &args), "a and {}");
}

#[test]
fn fill_with_extra_arguments_ignores_them() {
    let args = vec!["a".to_string(), "b".to_string()];
    assert_eq!(fill_placeholders("only {}", &args), "only a");
}

#[test]
fn fill_without_placeholder_is_identity() {
    let args = vec!["a".to_string()];
    assert_eq!(fill_placeholders("no slots", &args), "no slots");
}

#[test]
fn fill_replaces_in_text_as_it_stands() {
    let args = vec!["{}".to_string(), "x".to_string()];
    assert_eq!(fill_placeholders("[{}] {}", &args), "[x] {}");
}

#[test]
fn iso_names() {
    assert_eq!(iso_image_name("iso9660", "UBUNTU"), Some("UBUNTU.iso".to_string()));
    assert_eq!(iso_image_name("udf", "MOVIE"), Some("MOVIE.iso".to_string()));
    assert_eq!(iso_image_name("udf", ""), None);
    assert_eq!(iso_image_name("ext4", "data"), None);
}

#[test]
fn default_name_for_labelled_disc() {
    assert_eq!(
        default_image_name(b"/dev/sr0\0", "iso9660", "UBUNTU", None, TEMPLATE),
        Some("UBUNTU.iso".to_string())
    );
}

#[test]
fn default_name_with_timestamp() {
    assert_eq!(
        default_image_name(b"/dev/sdb\0", "ext4", "data", Some("2024-01-02 0304"), TEMPLATE),
        Some("Disk Image of sdb (2024-01-02 0304).img".to_string())
    );
}

#[test]
fn default_name_for_unlabelled_disc_uses_template() {
    assert_eq!(
        default_image_name(b"/dev/sr0\0", "udf", "", Some("2024-01-02 0304"), TEMPLATE),
        Some("Disk Image of sr0 (2024-01-02 0304).img".to_string())
    );
}

#[test]
fn default_name_needs_timestamp_for_template() {
    assert_eq!(default_image_name(b"/dev/sdb\0", "", "", None, TEMPLATE), None);
}

#[test]
fn default_name_needs_readable_device() {
    assert_eq!(default_image_name(b"/dev/sdb", "iso9660", "X", Some("t"), TEMPLATE), None);
}

#[test]
fn default_name_translated_template() {
    assert_eq!(
        default_image_name(b"/dev/nvme0n1\0", "", "", Some("t"), "Abbild von {} ({}).img"),
        Some("Abbild von nvme0n1 (t).img".to_string())
    );
}
