use rustywiki::media::{dir_list, media_str, DirEntry, DirListing, MediaIndex};

#[test]
fn media_listing_text() {
    let sub = DirListing {
        name: "\"2020\"".to_string(),
        entries: vec![DirEntry::File("\"a.png\"".to_string())],
    };
    let top = DirListing {
        name: "\"media\"".to_string(),
        entries: vec![
            DirEntry::File("\"logo.png\"".to_string()),
            DirEntry::Dir(Some(sub)),
            DirEntry::Dir(None),
            DirEntry::Unreadable,
        ],
    };
    let expected = "{\"path\":\"media\",\"dir\": [\n\n{\"file\": \"logo.png\"},\n{\"dir\": {\"path\":\"2020\",\"dir\": [\n\n{\"file\": \"a.png\"}\n]} },\n{\"dir\":  },\n]}";
    assert_eq!(dir_list(&top), expected);
}

#[test]
fn media_index_of_missing_directory() {
    assert_eq!(media_str(&None), "failed");
    let empty = Some(DirListing { name: "\"media\"".to_string(), entries: vec![] });
    assert_eq!(MediaIndex::new(&empty).as_str(), "{\"path\":\"media\",\"dir\": [\n\n]}");
}
