use pptx::media::Image;
use pptx::presentation::Presentation;

#[test]
fn test_add_image_dedup() {
    let mut prs = Presentation::new().unwrap();

    let img = Image::from_bytes(vec![1, 2, 3, 4, 5], "image/png");
    let partname1 = prs.add_image(&img).unwrap();
    let partname2 = prs.add_image(&img).unwrap();

    // Same image should return the same partname (dedup)
    assert_eq!(partname1, partname2);
}

#[test]
fn add_image_names_and_stores_the_part() {
    let mut prs = Presentation::new().unwrap();
    let before = prs.package().part_count();
    let img = Image::from_bytes(vec![9, 8, 7], "image/png");
    let name = prs.add_image(&img).unwrap();
    assert_eq!(name, "/ppt/media/image1.png");
    assert_eq!(prs.package().part_count(), before + 1);
    let uri = pptx::opc::uri::PackURI::new(&name).unwrap();
    let part = prs.package().part(&uri).unwrap();
    assert_eq!(part.blob, vec![9, 8, 7]);
    assert_eq!(part.content_type, "image/png");
}

#[test]
fn add_image_different_bytes_get_new_parts() {
    let mut prs = Presentation::new().unwrap();
    let a = prs.add_image(&Image::from_bytes(vec![1], "image/png")).unwrap();
    let b = prs.add_image(&Image::from_bytes(vec![2], "image/jpeg")).unwrap();
    assert_eq!(a, "/ppt/media/image1.png");
    assert_eq!(b, "/ppt/media/image1.jpg");
    let count = prs.package().part_count();
    let again = prs.add_image(&Image::from_bytes(vec![2], "image/jpeg")).unwrap();
    assert_eq!(again, b);
    assert_eq!(prs.package().part_count(), count);
}

#[test]
fn image_extensions() {
    assert_eq!(Image::from_bytes(vec![], "image/gif").ext(), "gif");
    assert_eq!(Image::from_bytes(vec![], "image/svg+xml").ext(), "svg");
    assert_eq!(Image::from_bytes(vec![], "application/octet-stream").ext(), "bin");
}

#[test]
fn image_sha1_digest() {
    let img = Image::from_bytes(b"abc".to_vec(), "image/png");
    let hex: String = img.sha1().iter().map(|b| format!("{:02x}", b)).collect();
    assert_eq!(hex, "a9993e364706816aba3e25717850c26c9cd0d89d");
}
