use spotify_api::paginate::{PAGE_LIMIT, Paginator};
use spotify_api::paths::{IMAGE_DIR, target_path};
use spotify_api::pipeline::{ClaimedPaths, DownloadPlan, Page, Phase, Pipeline, Step, plan_download};
use spotify_api::song::{RawEntry, RawTrack, SkipReason, Song};

fn track(id: Option<&str>, name: &str, images: &[&str]) -> RawTrack {
    RawTrack {
        id: id.map(|s| s.to_string()),
        name: name.to_string(),
        artists: vec!["Artist".to_string()],
        images: images.iter().map(|s| s.to_string()).collect(),
    }
}

fn entry(id: &str, name: &str) -> RawEntry {
    RawEntry { track: Some(track(Some(id), name, &["https://img/640", "https://img/64"])) }
}

fn page_of(n: usize, start: usize, total: u32, has_next: bool) -> Page {
    let items = (start..start + n).map(|k| entry(&format!("id{k}"), &format!("song {k}"))).collect();
    Page { items, total, has_next }
}

fn song(id: &str, name: &str, images: &[&str]) -> Song {
    Song {
        id: id.to_string(),
        name: name.to_string(),
        artists: vec![],
        images: images.iter().map(|s| s.to_string()).collect(),
    }
}

#[test]
fn pagination_ignores_empty_pages_that_say_more_follow() {
    let mut p = Paginator::new(PAGE_LIMIT);
    for _ in 0..5 {
        assert!(p.request().is_some());
        p.record_page(true);
    }
    assert!(p.is_fetching());
    p.record_page(false);
    assert!(p.is_exhausted());
    assert!(p.request().is_none());
    p.record_page(true);
    assert!(p.request().is_none());
}

#[test]
fn offsets_advance_by_limit() {
    let mut p = Paginator::new(PAGE_LIMIT);
    let mut seen = Vec::new();
    for _ in 0..4 {
        let q = p.request().unwrap();
        assert_eq!(q.limit, 50);
        seen.push(q.offset);
        p.record_page(true);
    }
    assert_eq!(seen, vec![0, 50, 100, 150]);
}

#[test]
fn offset_past_u32_stops_pagination() {
    let mut pl = Pipeline::new(u32::MAX);
    assert_eq!(pl.next_request().unwrap().offset, 0);
    pl.take_page(&mut ClaimedPaths::new(), Page { items: vec![], total: 0, has_next: true }, IMAGE_DIR);
    assert_eq!(pl.next_request().unwrap().offset, u32::MAX);
    assert!(matches!(pl.phase(), Phase::Fetching));
    pl.take_page(&mut ClaimedPaths::new(), Page { items: vec![], total: 0, has_next: true }, IMAGE_DIR);
    assert!(pl.next_request().is_none());
    assert!(matches!(pl.phase(), Phase::Failed));
}

#[test]
fn fetch_error_fails_the_run() {
    let mut pl = Pipeline::new(PAGE_LIMIT);
    pl.fetch_failed();
    assert!(matches!(pl.phase(), Phase::Failed));
    assert!(pl.next_request().is_none());
}

#[test]
fn entry_without_track_is_skipped() {
    assert!(matches!(Song::try_from_entry(RawEntry { track: None }), Err(SkipReason::NotATrack)));
}

#[test]
fn track_without_id_is_skipped_with_its_name() {
    let r = Song::try_from_entry(RawEntry { track: Some(track(None, "Local file", &[])) });
    match r {
        Err(SkipReason::MissingId { name }) => assert_eq!(name, "Local file"),
        _ => panic!("expected a skip"),
    }
}

#[test]
fn track_converts_with_all_fields() {
    let s = Song::try_from_track(track(Some("4uLU6hMCjMI75M1A2tKUQC"), "Song", &["a", "b"])).unwrap();
    assert_eq!(s.id, "4uLU6hMCjMI75M1A2tKUQC");
    assert_eq!(s.name, "Song");
    assert_eq!(s.artists, vec!["Artist".to_string()]);
    assert_eq!(s.images, vec!["a".to_string(), "b".to_string()]);
}

#[test]
fn track_without_images_converts() {
    let s = Song::try_from_track(track(Some("x"), "Song", &[])).unwrap();
    assert!(s.images.is_empty());
}

#[test]
fn target_path_encodes_the_name() {
    assert_eq!(target_path("./images/", "ab", "x1"), "./images/YWI=@x1.jpg");
    assert_eq!(target_path(IMAGE_DIR, "~~~", "id"), "./images/fn5-@id.jpg");
    assert_eq!(target_path("d/", "a/b?", "q"), "d/YS9iPw==@q.jpg");
}

#[test]
fn target_path_is_deterministic_and_separates_ids() {
    let a = target_path(IMAGE_DIR, "Same Name", "id1");
    assert_eq!(a, target_path(IMAGE_DIR, "Same Name", "id1"));
    assert_ne!(a, target_path(IMAGE_DIR, "Same Name", "id2"));
}

#[test]
fn no_images_means_nothing_to_do() {
    assert!(matches!(plan_download(&song("id", "n", &[]), IMAGE_DIR), DownloadPlan::Nothing));
}

#[test]
fn plan_fetches_the_first_image() {
    match plan_download(&song("id", "ab", &["big", "small"]), IMAGE_DIR) {
        DownloadPlan::Fetch { url, path } => {
            assert_eq!(url, "big");
            assert_eq!(path, "./images/YWI=@id.jpg");
        }
        DownloadPlan::Nothing => panic!("expected a fetch"),
    }
}

#[test]
fn saved_tracks_in_three_pages() {
    let mut pl = Pipeline::new(PAGE_LIMIT);
    let mut claims = ClaimedPaths::new();
    let pages = [(50, 0, true), (50, 50, true), (20, 100, false)];
    let mut offsets = Vec::new();
    let mut steps = 0;
    for (n, start, next) in pages {
        let q = pl.next_request().unwrap();
        offsets.push(q.offset);
        let r = pl.take_page(&mut claims, page_of(n, start, 120, next), IMAGE_DIR);
        steps += r.len();
        assert!(pl.total() <= 120);
        assert!(pl.observed() <= pl.total());
    }
    assert_eq!(offsets, vec![0, 50, 100]);
    assert_eq!(steps, 120);
    assert_eq!(pl.observed(), 120);
    assert_eq!(pl.total(), 120);
    assert_eq!(pl.dispatched(), 120);
    assert!(pl.next_request().is_none());
    assert!(matches!(pl.phase(), Phase::Draining));
    for _ in 0..120 {
        pl.task_finished(true);
    }
    assert!(matches!(pl.phase(), Phase::Done));
}

#[test]
fn failures_do_not_stop_the_others() {
    let mut pl = Pipeline::new(PAGE_LIMIT);
    let mut claims = ClaimedPaths::new();
    pl.take_page(&mut claims, page_of(5, 0, 5, false), IMAGE_DIR);
    assert_eq!(pl.dispatched(), 5);
    for ok in [true, false, true, false, true] {
        assert!(matches!(pl.phase(), Phase::Draining));
        pl.task_finished(ok);
    }
    assert!(matches!(pl.phase(), Phase::Done));
    assert_eq!(pl.succeeded(), 3);
    assert_eq!(pl.failed(), 2);
}

#[test]
fn skips_are_counted_and_reported() {
    let mut pl = Pipeline::new(PAGE_LIMIT);
    let mut claims = ClaimedPaths::new();
    let items = vec![
        RawEntry { track: None },
        entry("a", "A"),
        RawEntry { track: Some(track(None, "Local", &[])) },
    ];
    let r = pl.take_page(&mut claims, Page { items, total: 3, has_next: false }, IMAGE_DIR);
    assert!(matches!(r[0], Step::Skipped(SkipReason::NotATrack)));
    assert!(matches!(r[1], Step::Download(_)));
    assert!(matches!(&r[2], Step::Skipped(SkipReason::MissingId { name }) if name == "Local"));
    assert_eq!(pl.observed(), 3);
    assert_eq!(pl.skipped(), 2);
    assert_eq!(pl.dispatched(), 1);
    pl.task_finished(true);
    assert!(matches!(pl.phase(), Phase::Done));
}

#[test]
fn same_song_in_two_playlists_downloads_once() {
    let mut claims = ClaimedPaths::new();
    let mut first = Pipeline::new(PAGE_LIMIT);
    let a = first.take_page(
        &mut claims,
        Page { items: vec![entry("shared", "Tune"), entry("own1", "One")], total: 2, has_next: false },
        IMAGE_DIR,
    );
    let mut second = Pipeline::new(PAGE_LIMIT);
    let b = second.take_page(
        &mut claims,
        Page { items: vec![entry("own2", "Two"), entry("shared", "Tune")], total: 2, has_next: false },
        IMAGE_DIR,
    );
    assert!(matches!(a[0], Step::Download(_)));
    assert!(matches!(b[0], Step::Download(_)));
    assert!(matches!(&b[1], Step::Duplicate(s) if s.id == "shared"));
    assert_eq!(first.dispatched() + second.dispatched(), 3);
    assert_eq!(second.duplicates(), 1);
    assert_eq!(claims.len(), 3);
    assert!(matches!(second.phase(), Phase::Draining));
    second.task_finished(true);
    assert!(matches!(second.phase(), Phase::Done));
}

#[test]
fn duplicate_within_one_page() {
    let mut claims = ClaimedPaths::new();
    let mut pl = Pipeline::new(PAGE_LIMIT);
    let r = pl.take_page(
        &mut claims,
        Page { items: vec![entry("x", "X"), entry("x", "X")], total: 2, has_next: false },
        IMAGE_DIR,
    );
    assert!(matches!(r[0], Step::Download(_)));
    assert!(matches!(r[1], Step::Duplicate(_)));
    assert!(claims.contains(&"./images/WA==@x.jpg".to_string()));
}
