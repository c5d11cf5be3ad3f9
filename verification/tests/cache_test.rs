use std::path::PathBuf;

use ytm_rs::cache_handlers::{generate_cache_id, CacheHandleItem, CacheHandler, CacheMapper};
use ytm_rs::caching::{
    filter_file_items, FileData, FilePathPair, FolderBasedReader, IDed, LazyFolderBasedReader, LineBasedReader,
    SourceItemPair,
};

fn pair(line: &str, id: &str) -> SourceItemPair<String, FilePathPair> {
    SourceItemPair(line.to_string(), FilePathPair { id: id.to_string(), thumbnail: None, song: None })
}

fn lines(out: Vec<Vec<u8>>) -> Vec<String> {
    out.into_iter().map(|b| String::from_utf8(b).unwrap()).collect()
}

#[test]
fn overwritten_lines_are_dropped() {
    let items = vec![pair("{\"a\"}", "a"), pair("{\"b\"}", "b"), pair("{\"c\"}", "c")];
    let filter = vec!["b".to_string()];
    assert_eq!(lines(filter_file_items(items, true, &filter)), vec!["{\"a\"}\n", "{\"c\"}\n"]);
}

#[test]
fn lines_stay_without_overwrite() {
    let items = vec![pair("{\"a\"}", "a"), pair("{\"b\"}", "b")];
    let filter = vec!["b".to_string()];
    assert_eq!(lines(filter_file_items(items, false, &filter)), vec!["{\"a\"}\n", "{\"b\"}\n"]);
    assert!(filter_file_items(Vec::<SourceItemPair<String, FilePathPair>>::new(), true, &filter).is_empty());
}

#[test]
fn non_ascii_lines_are_kept_whole() {
    let items = vec![pair("é", "x")];
    assert_eq!(filter_file_items(items, true, &vec![]), vec![vec![0xC3, 0xA9, 10]]);
}

#[test]
fn file_records() {
    let fd = FileData::new("key".to_string(), vec![1u8, 2, 3]);
    assert_eq!(fd.id(), "key");
    assert_eq!(fd.into_data(), vec![1, 2, 3]);
}

#[test]
fn write_decision() {
    assert!(FolderBasedReader::should_write(false, true));
    assert!(FolderBasedReader::should_write(true, true));
    assert!(FolderBasedReader::should_write(false, false));
    assert!(!FolderBasedReader::should_write(true, false));
}

#[test]
fn readers_and_paths() {
    let r = LineBasedReader::new("/tmp/index.ndjson".to_string());
    assert_eq!(r.filepath, "/tmp/index.ndjson");
    let lazy = LazyFolderBasedReader { filepath: "/cache/thumbs".to_string(), index_reader: r };
    let names = lazy.generate_paths(3);
    assert_eq!(names.len(), 3);
    assert_ne!(names[0], names[1]);
    assert_eq!(names[0].len(), 36);
    assert!(!names[0].contains('/') && !names[0].contains('.'));
    assert_eq!(PathBuf::from(&names[0]).components().count(), 1);
    assert_eq!(lazy.convert_path(&"x.png".to_string()), "/cache/thumbs/x.png");
}

#[test]
fn cache_ids_are_fresh() {
    let a = generate_cache_id();
    let b = generate_cache_id();
    assert_eq!(a.len(), 36);
    assert_ne!(a, b);
    for (i, c) in a.chars().enumerate() {
        if [8, 13, 18, 23].contains(&i) {
            assert_eq!(c, '-');
        } else {
            assert!(c.is_ascii_hexdigit() && !c.is_ascii_uppercase());
        }
    }
}

#[test]
fn item_files() {
    let source = "/cache".to_string();
    let mut item = CacheHandleItem::default();
    assert!(item.get_thumbnail(&source).is_none());
    assert!(item.get_song(&source).is_none());
    let name = item.ensure_thumbnail();
    assert_eq!(item.ensure_thumbnail(), name);
    let thumb = item.get_thumbnail(&source).unwrap();
    assert_eq!(thumb, format!("/cache/{name}.jpg"));
    let song = item.ensure_song();
    assert_eq!(item.get_song(&source).unwrap(), format!("/cache/{song}.mp3"));
    assert!(item.primary_color.is_none());
}

#[test]
fn item_files_take_the_folder_and_the_extension() {
    let item = CacheHandleItem { thumbnail_path: Some("abc".to_string()), song_path: None, primary_color: None };
    assert_eq!(item.get_thumbnail(&"/cache".to_string()), Some("/cache/abc.jpg".to_string()));
    let item = CacheHandleItem { thumbnail_path: None, song_path: Some("track.wav".to_string()), primary_color: None };
    assert_eq!(item.get_song(&"/cache".to_string()), Some("/cache/track.mp3".to_string()));
}

#[test]
fn handler_adds_items_once() {
    let mut h = CacheHandler::new("/cache".to_string());
    assert!(CacheMapper::new().0.is_empty());
    {
        let mut handle = h.get("k");
        let file = handle.ensure_thumbnail();
        assert!(file.starts_with("/cache/") && file.ends_with(".jpg"));
    }
    assert_eq!(h.map.0.len(), 1);
    let first = h.map.0[0].1.thumbnail_path.clone();
    {
        let handle = h.get("k");
        assert_eq!(handle.item.thumbnail_path, first);
    }
    h.get("other");
    assert_eq!(h.map.0.len(), 2);
    assert_eq!(h.map.0[1].0, "other");
}

#[test]
fn validation_repairs_missing_files() {
    let mut h = CacheHandler::new("/cache".to_string());
    h.get("none");
    h.get("both").item.ensure_thumbnail();
    {
        let mut handle = h.get("lost");
        handle.item.ensure_thumbnail();
        handle.item.ensure_song();
    }
    assert!(h.validate_paths(&vec![(false, false), (true, false), (true, true)]).is_none());
    let fixed = h.validate_paths(&vec![(false, false), (true, false), (false, true)]).unwrap();
    assert_eq!(fixed.map.0.len(), 3);
    assert!(fixed.map.0[2].1.thumbnail_path.is_none());
    assert!(fixed.map.0[2].1.song_path.as_ref().unwrap().ends_with(".mp3"));
    assert_eq!(fixed.map.0[1].1.thumbnail_path, h.map.0[1].1.thumbnail_path);
}
