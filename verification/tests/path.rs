use moq::path::Path;

#[test]
fn slashes_are_normalised() {
    assert_eq!(Path::new("/a//b/").as_str(), "a/b");
    assert_eq!(Path::new("").len(), 0);
    assert_eq!(Path::new("///").as_str(), "");
    let p = Path::new("conference/room123");
    assert_eq!(p.len(), 2);
    assert_eq!(p.part(1), "room123");
    assert_eq!(Path::new(&p.as_str()).as_str(), p.as_str());
}
