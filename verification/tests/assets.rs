use svnpush_core::wporg_assets::{asset_file, asset_report, classify, image_size, unknown_problem, AssetKind};

fn png(w: u32, h: u32) -> Vec<u8> {
    let mut bytes = b"\x89PNG\r\n\x1a\n\0\0\0\rIHDR".to_vec();
    bytes.extend(w.to_be_bytes());
    bytes.extend(h.to_be_bytes());
    bytes.extend([8, 6, 0, 0, 0]);
    bytes
}

fn gif(w: u16, h: u16) -> Vec<u8> {
    let mut bytes = b"GIF89a".to_vec();
    bytes.extend(w.to_le_bytes());
    bytes.extend(h.to_le_bytes());
    bytes
}

fn jpg(w: u16, h: u16) -> Vec<u8> {
    let mut bytes = vec![0xFF, 0xD8, 0xFF, 0xE0, 0x00, 0x04, 0x00, 0x00, 0xFF, 0xC0, 0x00, 0x11, 0x08];
    bytes.extend(h.to_be_bytes());
    bytes.extend(w.to_be_bytes());
    bytes.extend([0; 12]);
    bytes
}

#[test]
fn reads_png_gif_and_jpeg_sizes() {
    assert_eq!(image_size(&png(772, 250)), Some((772, 250)));
    assert_eq!(image_size(&gif(128, 128)), Some((128, 128)));
    assert_eq!(image_size(&jpg(1544, 500)), Some((1544, 500)));
    assert_eq!(image_size(b"nope"), None);
    assert_eq!(image_size(&png(1, 1)[..20]), None);
    assert_eq!(image_size(&[]), None);
}

#[test]
fn names_follow_the_handbook() {
    assert_eq!(classify("icon-256x256.png", false), (AssetKind::Icon, Some((256, 256)), 1048576));
    assert_eq!(classify("icon-128x128.gif", false).0, AssetKind::Icon);
    assert_eq!(classify("icon.svg", false), (AssetKind::IconSvg, None, 1048576));
    assert_eq!(classify("banner-772x250-rtl.jpg", false), (AssetKind::Banner, Some((772, 250)), 4194304));
    assert_eq!(classify("banner-1544x500-pt_BR.png", false).1, Some((1544, 500)));
    assert_eq!(classify("banner-772x250.gif", false).0, AssetKind::Unknown);
    assert_eq!(classify("screenshot-12-de.png", false), (AssetKind::Screenshot, None, 10485760));
    assert_eq!(classify("screenshot-0.png", false).0, AssetKind::Unknown);
    assert_eq!(classify("screenshot-1-rtl.png", false).0, AssetKind::Screenshot);
    assert_eq!(classify("screenshot-1-de_de.png", false).0, AssetKind::Unknown);
    assert_eq!(classify("blueprints", true).0, AssetKind::Blueprints);
    assert_eq!(classify("other", true).0, AssetKind::Unknown);
}

#[test]
fn unknown_entries_say_why() {
    assert_eq!(unknown_problem("Screenshot-2.png", false), "Names must be lowercase: rename it to screenshot-2.png.");
    assert_eq!(unknown_problem("screenshot-3.jpeg", false), "Use the .jpg extension: WordPress.org does not read .jpeg.");
    assert!(unknown_problem("logo.png", false).contains("ignores this file"));
    assert!(unknown_problem("misc", true).contains("except blueprints/"));
}

#[test]
fn files_are_checked_against_their_names() {
    let ok = asset_file("icon-256x256.png", false, 2000, Some(&png(256, 256)));
    assert_eq!((ok.kind, ok.width, ok.height, ok.problem.as_deref()), (AssetKind::Icon, Some(256), Some(256), None));
    let wrong = asset_file("banner-772x250.png", false, 2000, Some(&png(800, 300)));
    assert_eq!(wrong.problem.as_deref(), Some("It is 800×300 pixels; it must be exactly 772×250."));
    let unreadable = asset_file("screenshot-1.png", false, 10, Some(b"nope"));
    assert_eq!(unreadable.problem.as_deref(), Some("This is not a PNG, JPG or GIF image SVNpush can read."));
    let big = asset_file("icon.svg", false, 2 * 1048576, None);
    assert_eq!(big.problem.as_deref(), Some("It is larger than the 1 MB WordPress.org allows."));
    let folder = asset_file("blueprints", true, 99, None);
    assert_eq!((folder.kind, folder.bytes, folder.problem), (AssetKind::Blueprints, 0, None));
}

#[test]
fn the_report_sorts_entries_and_suggests_what_is_missing() {
    let entries = vec![
        asset_file("screenshot-1.png", false, 10, Some(&png(1200, 900))),
        asset_file("icon-256x256.png", false, 10, Some(&png(256, 256))),
        asset_file("banner-772x250.png", false, 10, Some(&png(800, 300))),
        asset_file("banner-772x250-rtl.jpg", false, 10, Some(&jpg(772, 250))),
        asset_file("Screenshot-2.png", false, 10, Some(&png(1200, 900))),
        asset_file("logo.png", false, 10, Some(&png(10, 10))),
        asset_file("screenshot-3.jpeg", false, 10, Some(&jpg(10, 10))),
        asset_file("blueprints", true, 0, None),
        asset_file(".DS_Store", false, 1, None),
    ];
    let report = asset_report(Some("/p/.wordpress-org".into()), true, entries, Some(2));
    let names: Vec<&str> = report.files.iter().map(|f| f.name.as_str()).collect();
    assert_eq!(
        names,
        [
            "Screenshot-2.png",
            "banner-772x250-rtl.jpg",
            "banner-772x250.png",
            "blueprints",
            "icon-256x256.png",
            "logo.png",
            "screenshot-1.png",
            "screenshot-3.jpeg",
        ]
    );
    assert_eq!(report.problems().len(), 4);
    assert_eq!(
        report.suggestions,
        ["readme.txt has 2 screenshot caption(s) and the folder has 1 screenshot(s). Add one screenshot-N file per caption."]
    );
}

#[test]
fn a_missing_folder_is_reported_not_an_error() {
    let report = asset_report(Some("/p/.wordpress-org".into()), false, Vec::new(), None);
    assert!(!report.exists && report.files.is_empty());
    assert!(!asset_report(None, false, Vec::new(), None).exists);
}

#[test]
fn an_empty_folder_needs_an_icon_and_a_banner() {
    let empty = asset_report(Some("/p/a".into()), true, Vec::new(), None);
    assert_eq!(
        empty.suggestions,
        [
            "Add an icon: icon-256x256.png (256×256) and icon-128x128.png (128×128).",
            "Add a banner: banner-1544x500.png (1544×500) and banner-772x250.png (772×250).",
        ]
    );
}

#[test]
fn names_sizes_and_suggestions_follow_the_handbook() {
    let entries = vec![
        asset_file("icon-256x256.png", false, 10, Some(&png(256, 256))),
        asset_file("banner-772x250.png", false, 10, Some(&png(800, 300))),
        asset_file("banner-772x250-rtl.jpg", false, 10, Some(&jpg(772, 250))),
        asset_file("screenshot-1.png", false, 10, Some(&png(1200, 900))),
        asset_file("Screenshot-2.png", false, 10, Some(&png(1200, 900))),
        asset_file("logo.png", false, 10, Some(&png(10, 10))),
        asset_file("screenshot-3.jpeg", false, 10, Some(&jpg(10, 10))),
        asset_file("blueprints", true, 0, None),
        asset_file(".DS_Store", false, 1, None),
    ];
    let report = asset_report(Some("/p/.wordpress-org".into()), true, entries, Some(2));
    let problem = |name: &str| report.files.iter().find(|f| f.name == name).and_then(|f| f.problem.clone());
    assert_eq!(problem("icon-256x256.png"), None);
    assert_eq!(problem("banner-772x250-rtl.jpg"), None);
    assert_eq!(problem("screenshot-1.png"), None);
    assert_eq!(problem("blueprints"), None);
    assert!(problem("banner-772x250.png").unwrap().contains("800×300"));
    assert!(problem("Screenshot-2.png").unwrap().contains("lowercase"));
    assert!(problem("screenshot-3.jpeg").unwrap().contains(".jpg"));
    assert!(problem("logo.png").unwrap().contains("ignores"));
    assert!(!report.files.iter().any(|f| f.name == ".DS_Store"));
    assert_eq!(report.problems().len(), 4);
    assert!(report.suggestions.iter().any(|s| s.contains("2 screenshot caption(s)")));
    assert!(!report.suggestions.iter().any(|s| s.contains("Add an icon")));
}
