use pptx::section::Section;

#[test]
fn test_section_new() {
    let s = Section::new("Introduction", 0);
    assert_eq!(s.name, "Introduction");
    assert_eq!(s.slide_indices, vec![0]);
}

#[test]
fn test_section_with_slides() {
    let s = Section::with_slides("Chapter 1", vec![0, 1, 2]);
    assert_eq!(s.name, "Chapter 1");
    assert_eq!(s.slide_indices, vec![0, 1, 2]);
}
