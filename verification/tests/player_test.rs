use ytm_rs::backend_handler::{
    is_backend_reply, plan_launch, port_or_default, search_request, LaunchPlan, SearchRequest, DEFAULT_PORT,
};
use ytm_rs::key_sets::key_difference;
use ytm_rs::player::{all_used_keys, Tickers};
use ytm_rs::playlist::{Playlist, PlaylistHeader, PlaylistMessage};
use ytm_rs::search_window::{SearchType, SearchWindow};
use ytm_rs::song_operations::{ConstructorItem, ItemId, SongOpConstructor};
use ytm_rs::thumbnails::{square_crop, square_thumbnail};

fn strings(v: &[&str]) -> Vec<String> {
    v.iter().map(|s| s.to_string()).collect()
}

#[test]
fn ticker_defaults() {
    let mut t = Tickers::default();
    assert_eq!(t.cache, (true, 20));
    assert_eq!(t.backend_status, (true, 10));
    assert_eq!(t.playing_status, (false, 1));
    t.set_playing(true);
    assert_eq!(t.playing_status, (true, 1));
    t.set_playing(false);
    assert_eq!(t.playing_status, (false, 1));
}

#[test]
fn unused_keys_are_the_difference() {
    let available = strings(&["a", "b", "c", "b"]);
    let used = strings(&["b", "x"]);
    assert_eq!(key_difference(&available, &used), strings(&["a", "c"]));
    assert!(key_difference(&available, &available).is_empty());
}

#[test]
fn used_keys_join_search_and_playlist() {
    let mut search = SearchWindow::default();
    search.search_type = SearchType::new_tab(strings(&["a", "b"]));
    let constructor = SongOpConstructor::from(vec![
        ConstructorItem::Song("b".to_string(), ItemId::default()),
        ConstructorItem::Operation(SongOpConstructor::from(vec![ConstructorItem::Song("c".to_string(), ItemId::default())])),
    ]);
    assert_eq!(all_used_keys(&search, &constructor), strings(&["a", "b", "c"]));
}

#[test]
fn square_crop_takes_the_middle() {
    assert_eq!(square_crop(1280, 720), (280, 0, 720));
    assert_eq!(square_crop(720, 1280), (0, 280, 720));
    assert_eq!(square_crop(5, 5), (0, 0, 5));
    assert_eq!(square_crop(7, 4), (1, 0, 4));
    assert_eq!(square_crop(0, 9), (0, 4, 0));
}

#[test]
fn backend_launch_plan() {
    assert_eq!(port_or_default(None), DEFAULT_PORT);
    assert_eq!(port_or_default(Some(8080)), 8080);
    assert!(is_backend_reply("YTM_RS_BACKEND"));
    assert!(!is_backend_reply("nginx"));
    assert_eq!(plan_launch(true, false), LaunchPlan::LeaveUnknown);
    assert_eq!(plan_launch(true, true), LaunchPlan::UseExisting);
    assert_eq!(plan_launch(false, false), LaunchPlan::StartChild);
}

#[test]
fn playlist_header_counts_songs() {
    let mut p = Playlist::default();
    assert!(p.name.is_empty());
    p.constructor.list.push(ConstructorItem::Song("a".to_string(), ItemId::default()));
    p.constructor.list.push(ConstructorItem::Operation(SongOpConstructor::from(vec![
        ConstructorItem::Song("b".to_string(), ItemId::default()),
        ConstructorItem::Song("a".to_string(), ItemId::default()),
    ])));
    p.update(PlaylistMessage::NameEdited("mix".to_string()));
    p.update(PlaylistMessage::Save);
    let h = PlaylistHeader::from(&p);
    assert_eq!(h.name, "mix");
    assert_eq!(h.id, p.id);
    assert_eq!(h.num_of_songs, 3);
    assert_ne!(Playlist::default().id, p.id);
}

#[test]
fn urls_are_looked_up_and_other_queries_searched() {
    let url = "https://music.youtube.com/watch?v=abc".to_string();
    assert!(matches!(search_request(&url), SearchRequest::Info(q) if q == url));
    assert!(matches!(search_request(&"lofi beats".to_string()), SearchRequest::Search(q) if q == "lofi beats"));
}

#[test]
fn thumbnails_are_the_middle_square_as_png() {
    let mut img = image::RgbImage::new(6, 2);
    img.put_pixel(2, 0, image::Rgb([255, 0, 0]));
    let mut bytes = Vec::new();
    image::DynamicImage::ImageRgb8(img)
        .write_to(std::io::Cursor::new(&mut bytes), image::ImageFormat::Png)
        .unwrap();
    let png = square_thumbnail(&bytes).unwrap();
    let thumb = image::load_from_memory(&png).unwrap().to_rgb8();
    assert_eq!((thumb.width(), thumb.height()), (2, 2));
    assert_eq!(thumb.get_pixel(0, 0), &image::Rgb([255, 0, 0]));
    assert!(square_thumbnail(&vec![1, 2, 3]).is_none());
}
